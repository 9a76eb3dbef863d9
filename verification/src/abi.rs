//! The interchange struct: the fixed-field record that carries an
//! array across the process or language boundary, and its release
//! protocol. Exactly one side is responsible for freeing each node's
//! resources, and that side is discoverable from the struct itself:
//! a node with `release` set owns resources that the release call —
//! and only it — tears down, at most once.

use vstd::prelude::*;

use crate::array::Array;
use crate::buffer::ForeignBuffer;

verus! {

/// The private allocation behind an exported struct: it retains the
/// native array (keeping all its storage alive) and the auxiliary
/// per-buffer byte-length table of the view-encoded layouts. It is
/// reclaimed only by the release call.
#[derive(Debug)]
pub struct PrivateData {
    pub array: Array,
    pub variadic_buffer_sizes: Vec<i64>,
}

/// The interchange struct. Absent pointers of the C layout are `None`
/// here: a struct constructed empty for an importer to fill has no
/// buffers, no children, no dictionary, no release duty and no
/// private allocation.
#[derive(Debug)]
pub struct ArrowArray {
    pub length: i64,
    pub null_count: i64,
    pub offset: i64,
    pub n_buffers: i64,
    pub n_children: i64,
    pub buffers: Option<Vec<Option<ForeignBuffer>>>,
    pub children: Option<Vec<Option<Box<ArrowArray>>>>,
    pub dictionary: Option<Box<ArrowArray>>,
    /// Whether the release callback is present.
    pub release: bool,
    pub private_data: Option<Box<PrivateData>>,
}

/// The number of nodes of a subtree, release duties aside.
pub open spec fn struct_size(t: ArrowArray) -> nat
    decreases t,
{
    1 + (match t.children {
        Some(c) => kids_size(c@),
        None => 0,
    }) + (match t.dictionary {
        Some(d) => struct_size(*d),
        None => 0,
    })
}

/// The number of nodes below a child list.
pub open spec fn kids_size(s: Seq<Option<Box<ArrowArray>>>) -> nat
    decreases s,
{
    if s.len() == 0 {
        0
    } else {
        kids_size(s.drop_last()) + (match s.last() {
            Some(b) => struct_size(*b),
            None => 0,
        })
    }
}

/// The number of nodes that a release of `t` tears down: an unarmed
/// node is a no-op and shields whatever hangs below it.
pub open spec fn armed_count(t: ArrowArray) -> nat
    decreases t,
{
    if !t.release {
        0
    } else {
        1 + (match t.children {
            Some(c) => armed_kids(c@),
            None => 0,
        }) + (match t.dictionary {
            Some(d) => armed_count(*d),
            None => 0,
        })
    }
}

/// The nodes a release tears down below a child list.
pub open spec fn armed_kids(s: Seq<Option<Box<ArrowArray>>>) -> nat
    decreases s,
{
    if s.len() == 0 {
        0
    } else {
        armed_kids(s.drop_last()) + (match s.last() {
            Some(b) => armed_count(*b),
            None => 0,
        })
    }
}

/// `x`, saturated at the largest 64-bit count.
pub open spec fn cap64(x: nat) -> nat {
    if x > u64::MAX {
        u64::MAX as nat
    } else {
        x
    }
}

/// Tears down a whole owned subtree and counts the nodes released.
fn release_owned(t: ArrowArray) -> (r: u64)
    ensures
        r == cap64(armed_count(t)),
    decreases struct_size(t),
{
    if !t.release {
        return 0;
    }
    let ghost t0 = t;
    let ArrowArray { children, dictionary, .. } = t;
    let mut count: u64 = 1;
    match children {
        Some(mut cs) => {
            let ghost total = armed_kids(cs@);
            proof {
                assert(struct_size(t0) == 1 + kids_size(cs@) + (match t0.dictionary {
                    Some(d) => struct_size(*d),
                    None => 0nat,
                }));
            }
            while cs.len() > 0
                invariant
                    t0 == t,
                    kids_size(cs@) < struct_size(t0),
                    armed_kids(cs@) <= total,
                    count == cap64((1 + total - armed_kids(cs@)) as nat),
                decreases cs@.len(),
            {
                let ghost pre = cs@;
                match cs.pop() {
                    Some(kid) => {
                        proof {
                            assert(cs@ == pre.drop_last());
                            assert(kids_size(pre) == kids_size(cs@) + (match pre.last() {
                                Some(b) => struct_size(*b),
                                None => 0nat,
                            }));
                            assert(armed_kids(pre) == armed_kids(cs@) + (match pre.last() {
                                Some(b) => armed_count(*b),
                                None => 0nat,
                            }));
                        }
                        match kid {
                            Some(b) => {
                                proof {
                                    assert(pre.last() == Some(b));
                                    assert(struct_size(*b) <= kids_size(pre));
                                    assert(struct_size(*b) < struct_size(t0));
                                }
                                let k = release_owned(*b);
                                count = count.saturating_add(k);
                            },
                            None => {},
                        }
                    },
                    None => {},
                }
            }
        },
        None => {},
    }
    match dictionary {
        Some(d) => {
            proof {
                assert(struct_size(t0) == 1 + (match t0.children {
                    Some(c) => kids_size(c@),
                    None => 0nat,
                }) + struct_size(*d));
            }
            let k = release_owned(*d);
            count = count.saturating_add(k);
        },
        None => {},
    }
    count
}

impl ArrowArray {
    /// Whether the struct is in its released (or never-armed) state:
    /// no release duty and no resources.
    pub open spec fn cleared(&self) -> bool {
        &&& !self.release
        &&& self.buffers is None
        &&& self.children is None
        &&& self.dictionary is None
        &&& self.private_data is None
    }

    /// An empty struct, ready to be filled by an importer: no
    /// resources and no release duty.
    pub fn empty() -> (r: Self)
        ensures
            r.cleared(),
            r.length == 0,
            r.null_count == 0,
            r.offset == 0,
            r.n_buffers == 0,
            r.n_children == 0,
    {
        ArrowArray {
            length: 0,
            null_count: 0,
            offset: 0,
            n_buffers: 0,
            n_children: 0,
            buffers: None,
            children: None,
            dictionary: None,
            release: false,
            private_data: None,
        }
    }

    /// The length field as a machine index.
    pub fn len(&self) -> (r: usize)
        requires
            0 <= self.length <= usize::MAX,
        ensures
            r as int == self.length as int,
    {
        self.length as usize
    }

    /// The offset field as a machine index.
    pub fn offset(&self) -> (r: usize)
        requires
            0 <= self.offset <= usize::MAX,
        ensures
            r as int == self.offset as int,
    {
        self.offset as usize
    }

    /// The null count field as a machine index.
    pub fn null_count(&self) -> (r: usize)
        requires
            0 <= self.null_count <= usize::MAX,
        ensures
            r as int == self.null_count as int,
    {
        self.null_count as usize
    }

    /// Invokes the release protocol: a no-op on a struct without a
    /// release duty, otherwise it reclaims the private allocation,
    /// recursively releases every child and the dictionary, and
    /// clears the struct, so a second call is a no-op. Returns the
    /// number of nodes torn down (saturated at the 64-bit limit).
    pub fn release(&mut self) -> (r: u64)
        ensures
            r == cap64(armed_count(*old(self))),
            !old(self).release ==> *final(self) == *old(self) && r == 0,
            old(self).release ==> final(self).cleared() && r >= 1,
            final(self).length == old(self).length,
            final(self).null_count == old(self).null_count,
            final(self).offset == old(self).offset,
            final(self).n_buffers == old(self).n_buffers,
            final(self).n_children == old(self).n_children,
    {
        if !self.release {
            return 0;
        }
        let mut tmp = ArrowArray::empty();
        tmp.length = self.length;
        tmp.null_count = self.null_count;
        tmp.offset = self.offset;
        tmp.n_buffers = self.n_buffers;
        tmp.n_children = self.n_children;
        core::mem::swap(self, &mut tmp);
        release_owned(tmp)
    }
}

} // verus!
