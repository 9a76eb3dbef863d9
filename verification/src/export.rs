//! The export path: building an interchange struct tree from a native
//! array. Each node owns a private allocation retaining the native
//! array, registers a release duty, and publishes buffers that an
//! importer reconstructs to exactly the original content.

use vstd::prelude::*;

use crate::abi::{armed_count, ArrowArray, PrivateData};
use crate::array::{arr_nodes, clone_array, AnyPrimitive, Array};
use crate::bitmap::{spec_bit, spec_bytes_for, Bitmap};
use crate::buffer::{BufferData, ForeignBuffer};
use crate::import::{the_buffer, tree_cells, tree_ok, tree_valids, window_ints};
use crate::native::Native;
use crate::primitive::PrimitiveArray;
use crate::varbin::Offset;
use crate::vecs::copy_prefix;

verus! {

/// The buffer slot holding a validity bitmap: the bitmap's bytes,
/// published at address zero (exported memory is always aligned), or
/// an absent pointer when the array has no validity.
pub fn export_validity(v: &Option<Bitmap>) -> (r: Option<ForeignBuffer>)
    requires
        match v {
            Some(b) => b.wf(),
            None => true,
        },
    ensures
        r is Some <==> v is Some,
        v is Some ==> {
            &&& r.unwrap().addr == 0
            &&& r.unwrap().data is U8
            &&& r.unwrap().data.spec_len() == spec_bytes_for(
                v.unwrap().offset + v.unwrap().length,
            )
            &&& forall|i: int|
                0 <= i < v.unwrap().length ==> spec_bit(
                    (match r.unwrap().data {
                        BufferData::U8(bs) => bs@,
                        _ => Seq::empty(),
                    }),
                    v.unwrap().offset + i,
                ) == v.unwrap().view()[i]
        },
{
    match v {
        Some(b) => {
            let need = crate::bitmap::bytes_for(b.offset + b.length);
            let bytes = copy_prefix(&b.bytes, need);
            let fb = ForeignBuffer { addr: 0, data: BufferData::U8(bytes) };
            proof {
                assert forall|i: int| 0 <= i < b.length implies spec_bit(
                    (match fb.data {
                        BufferData::U8(bs) => bs@,
                        _ => Seq::empty(),
                    }),
                    b.offset + i,
                ) == b.view()[i] by {
                    assert((match fb.data {
                        BufferData::U8(bs) => bs@,
                        _ => Seq::empty(),
                    })[(b.offset + i) / 8] == b.bytes@[(b.offset + i) / 8]);
                }
            }
            Some(fb)
        },
        None => None,
    }
}

/// The two buffer slots of a primitive array: validity, then the
/// value prefix covering the window.
pub fn prim_buffers<T: Native>(pa: &PrimitiveArray<T>) -> (bufs: Vec<Option<ForeignBuffer>>)
    requires
        pa.wf(),
        pa.export_ready(),
    ensures
        bufs@.len() == 2,
        bufs@[0] is Some <==> pa.validity is Some,
        pa.validity is Some ==> {
            &&& bufs@[0].unwrap().data is U8
            &&& bufs@[0].unwrap().data.spec_len() == spec_bytes_for(pa.offset + pa.length)
            &&& forall|i: int|
                0 <= i < pa.length ==> spec_bit(
                    (match bufs@[0].unwrap().data {
                        BufferData::U8(bs) => bs@,
                        _ => Seq::empty(),
                    }),
                    pa.offset + i,
                ) == pa.valids()[i]
        },
        bufs@[1] is Some,
        bufs@[1].unwrap().addr == 0,
        T::matches(bufs@[1].unwrap().data),
        bufs@[1].unwrap().data.spec_len() == pa.offset + pa.length,
        forall|i: int|
            0 <= i < pa.length ==> (#[trigger] bufs@[1].unwrap().data.ints()[pa.offset + i])
                == pa.ints()[i],
{
    let v0 = export_validity(&pa.validity);
    let values = copy_prefix(&pa.values, pa.offset + pa.length);
    let v1 = Some(ForeignBuffer { addr: 0, data: T::wrap(values) });
    let mut bufs: Vec<Option<ForeignBuffer>> = Vec::new();
    bufs.push(v0);
    bufs.push(v1);
    bufs
}

/// The offsets buffer slot of a byte-string or list array: the
/// window's prefix of delimiting entries.
pub fn offsets_buffer<O: Offset>(offsets: &Vec<O>, offset: usize, length: usize) -> (r:
    ForeignBuffer)
    requires
        offset + length + 1 <= offsets@.len(),
    ensures
        r.addr == 0,
        O::matches(r.data),
        r.data.spec_len() == offset + length + 1,
        forall|i: int|
            0 <= i < offset + length + 1 ==> (#[trigger] r.data.ints()[i]) == offsets@[i].as_int(),
{
    proof {
        crate::vecs::lemma_vec_len_bound(offsets);
    }
    let vals = copy_prefix(offsets, offset + length + 1);
    ForeignBuffer { addr: 0, data: O::wrap(vals) }
}


/// The validity that an importer reads back from an exported node
/// equals the array's own, and the node's validity buffer is
/// reconstructible.
proof fn lemma_valids_match(t: ArrowArray, avalids: Seq<bool>, vopt: Option<Bitmap>)
    requires
        t.buffers is Some,
        t.buffers.unwrap()@.len() >= 1,
        t.n_buffers >= 1,
        0 <= t.length,
        0 <= t.offset,
        t.length as nat == avalids.len(),
        t.null_count as int == crate::bitmap::count_false(avalids),
        match vopt {
            Some(b) => b.wf() && b.length as nat == avalids.len() && b.view() =~= avalids
                && b.offset as int == t.offset as int,
            None => avalids == Seq::new(avalids.len(), |i: int| true),
        },
        t.buffers.unwrap()@[0] is Some <==> vopt is Some,
        vopt is Some ==> the_buffer(t, 0).data is U8 && the_buffer(t, 0).data.spec_len()
            == spec_bytes_for(vopt.unwrap().offset + vopt.unwrap().length) && (forall|i: int|
            0 <= i < vopt.unwrap().length ==> spec_bit(
                (match the_buffer(t, 0).data {
                    BufferData::U8(bs) => bs@,
                    _ => Seq::empty(),
                }),
                vopt.unwrap().offset + i,
            ) == vopt.unwrap().view()[i]),
    ensures
        tree_valids(t) =~= avalids,
        crate::import::validity_ok(t),
{
    if t.null_count == 0 {
        crate::bitmap::lemma_count_false_zero(avalids);
        assert(tree_valids(t) =~= avalids);
    } else {
        if vopt is None {
            assert(crate::bitmap::count_false(avalids) == 0) by {
                crate::bitmap::lemma_count_false_all_true(avalids);
            }
            assert(false);
        }
        let b = vopt.unwrap();
        assert forall|i: int| 0 <= i < t.length implies tree_valids(t)[i] == avalids[i] by {
            assert(spec_bit(
                (match the_buffer(t, 0).data {
                    BufferData::U8(bs) => bs@,
                    _ => Seq::empty(),
                }),
                b.offset + i,
            ) == b.view()[i]);
        }
        assert(tree_valids(t) =~= avalids);
    }
}

impl ArrowArray {
    /// Builds an interchange struct from a native array: one node per
    /// array, each owning a private allocation that retains the array,
    /// publishing buffer prefixes that cover exactly the window's
    /// geometry, with children and the dictionary exported recursively
    /// and a release duty on every node. What an importer accepts and
    /// reads back from the result is exactly the array's own content.
    #[verifier::rlimit(100)]
    pub fn new(array: Array) -> (t: ArrowArray)
        requires
            array.ok(),
            array.spec_export_ready(),
        ensures
            tree_ok(t, array.spec_dtype()),
            tree_cells(t, array.spec_dtype()) =~~= array.cells(),
            !(array.spec_dtype() is Null) ==> tree_valids(t) =~= array.valids(),
            t.length as int == array.spec_len(),
            t.null_count as int == array.spec_null_count(),
            t.offset as int == array.spec_offset(),
            t.n_buffers as int == array.spec_n_buffers(),
            t.n_children as int == array.spec_n_children(),
            (t.dictionary is Some) <==> (array is Dictionary),
            (match array {
                Array::BinView(va0) => forall|j: int|
                    0 <= j < va0.data_buffers@.len() ==> (
                    #[trigger] crate::import::tree_variadic_lens(t)[j]) == va0.bufs()[j].len(),
                _ => true,
            }),
            t.release,
            t.private_data is Some,
            armed_count(t) == arr_nodes(array),
        decreases arr_nodes(array), 1nat,
    {
        let null_count = array.null_count();
        let len = array.len();
        let ghost adt = array.spec_dtype();
        let ghost acells = array.cells();
        let ghost avalids = array.valids();
        let ghost anodes = arr_nodes(array);
        let ghost asnap = array;
        match array {
            Array::Null(n) => {
                let t = ArrowArray {
                    length: len as i64,
                    null_count: null_count as i64,
                    offset: 0,
                    n_buffers: 0,
                    n_children: 0,
                    buffers: Some(Vec::new()),
                    children: Some(Vec::new()),
                    dictionary: None,
                    release: true,
                    private_data: Some(
                        Box::new(
                            PrivateData {
                                array: Array::Null(n),
                                variadic_buffer_sizes: Vec::new(),
                            },
                        ),
                    ),
                };
                proof {
                    assert(tree_ok(t, adt));
                    assert(tree_cells(t, adt) =~~= acells);
                    assert(armed_count(t) == 1) by {
                        reveal_with_fuel(crate::abi::armed_count, 2);
                        reveal_with_fuel(crate::abi::armed_kids, 2);
                    }
                }
                t
            },
            Array::Boolean(b) => export_boolean(
                b,
                len,
                null_count,
                Ghost(asnap),
                Ghost(adt),
                Ghost(acells),
                Ghost(avalids),
            ),
            Array::Primitive(ap) => export_prim_all(
                ap,
                len,
                null_count,
                Ghost(asnap),
                Ghost(adt),
                Ghost(acells),
                Ghost(avalids),
            ),
            Array::Binary(ba) => {
                export_varbin32(ba, len, null_count, Ghost(array), Ghost(adt), Ghost(acells), Ghost(avalids))
            },
            Array::LargeBinary(ba) => {
                export_varbin64(ba, len, null_count, Ghost(array), Ghost(adt), Ghost(acells), Ghost(avalids))
            },
            Array::FixedSizeBinary(fa) => export_fixed_binary(
                fa,
                len,
                null_count,
                Ghost(asnap),
                Ghost(adt),
                Ghost(acells),
                Ghost(avalids),
            ),
            Array::List(la) => export_list32(
                la,
                len,
                null_count,
                Ghost(asnap),
                Ghost(adt),
                Ghost(acells),
                Ghost(avalids),
            ),
            Array::LargeList(la) => export_list64(
                la,
                len,
                null_count,
                Ghost(asnap),
                Ghost(adt),
                Ghost(acells),
                Ghost(avalids),
            ),
            Array::MapList(la) => export_map(
                la,
                len,
                null_count,
                Ghost(asnap),
                Ghost(adt),
                Ghost(acells),
                Ghost(avalids),
            ),
            Array::FixedSizeList(fa) => export_fixed_list(
                fa,
                len,
                null_count,
                Ghost(asnap),
                Ghost(adt),
                Ghost(acells),
                Ghost(avalids),
            ),
            Array::BinView(va) => export_binview(va, len, null_count, Ghost(array), Ghost(adt), Ghost(acells), Ghost(avalids)),
            Array::Dictionary(ad) => export_dict_all(
                ad,
                len,
                null_count,
                Ghost(asnap),
                Ghost(adt),
                Ghost(acells),
                Ghost(avalids),
            ),
        }
    }
}


/// Exports a variable-length byte-string array: validity, the
/// window's offsets prefix, and the data prefix up to the closing
/// offset.
#[verifier::rlimit(100)]
fn export_varbin32(
    ba: crate::varbin::BinaryArray<i32>,
    len: usize,
    null_count: usize,
    Ghost(array): Ghost<Array>,
    Ghost(adt): Ghost<crate::dtype::DataType>,
    Ghost(acells): Ghost<Seq<crate::array::Cell>>,
    Ghost(avalids): Ghost<Seq<bool>>,
) -> (t: ArrowArray)
    requires
        ba.wf(),
        ba.export_ready(),
        array == Array::Binary(ba),
        len == ba.length,
        null_count == crate::bitmap::count_false(ba.valids()),
        null_count <= len,
        adt == array.spec_dtype(),
        acells == array.cells(),
        avalids == array.valids(),
    ensures
        tree_ok(t, adt),
        tree_cells(t, adt) =~~= acells,
        tree_valids(t) =~= avalids,
        t.length as int == len as int,
        t.null_count as int == null_count as int,
        t.offset as int == array.spec_offset(),
        t.n_buffers as int == array.spec_n_buffers(),
        t.n_children as int == array.spec_n_children(),
        (t.dictionary is Some) <==> (array is Dictionary),
        (match array {
            Array::BinView(va0) => forall|j: int|
                0 <= j < va0.data_buffers@.len() ==> (#[trigger] crate::import::tree_variadic_lens(
                    t,
                )[j]) == va0.bufs()[j].len(),
            _ => true,
        }),
        t.release,
        t.private_data is Some,
        armed_count(t) == arr_nodes(array),
{
    let v0 = export_validity(&ba.validity);
    let offs = offsets_buffer::<i32>(&ba.offsets, ba.offset, ba.length);
    proof {
        crate::vecs::lemma_vec_len_bound(&ba.data);
        crate::varbin::lemma_offsets_mono(
            ba.offsets@,
            ba.offset + ba.length,
            ba.offsets@.len() - 1,
        );
    }
    let closing = ba.offsets[ba.offset + ba.length].to_index();
    let dbytes = copy_prefix(&ba.data, closing);
    let v2 = Some(ForeignBuffer { addr: 0, data: BufferData::U8(dbytes) });
    let mut bufs: Vec<Option<ForeignBuffer>> = Vec::new();
    bufs.push(v0);
    bufs.push(Some(offs));
    bufs.push(v2);
    let t = ArrowArray {
        length: len as i64,
        null_count: null_count as i64,
        offset: ba.offset as i64,
        n_buffers: 3,
        n_children: 0,
        buffers: Some(bufs),
        children: Some(Vec::new()),
        dictionary: None,
        release: true,
        private_data: Some(
            Box::new(
                PrivateData {
                    array: Array::Binary(ba),
                    variadic_buffer_sizes: Vec::new(),
                },
            ),
        ),
    };
    proof {
        let bk = (match array {
            Array::Binary(x) => x,
            _ => arbitrary(),
        });
        let ints1 = the_buffer(t, 1).data.ints();
        lemma_valids_match(t, avalids, bk.validity);
        assert forall|i: int| 0 <= i <= t.offset + t.length implies 0 <= (#[trigger] ints1[i]) by {
            assert(ints1[i] == bk.offsets@[i].as_int());
        }
        assert forall|i: int| 0 <= i < t.offset + t.length implies (#[trigger] ints1[i]) <= ints1[i
            + 1] by {
            assert(ints1[i] == bk.offsets@[i].as_int());
            assert(ints1[i + 1] == bk.offsets@[i + 1].as_int());
        }
        assert(ints1[t.offset + t.length] == closing as int);
        assert(crate::import::offsets_buffer_ok::<i32>(t, 1));
        assert(crate::import::binary_ok::<i32>(t));
        assert(tree_ok(t, adt));
        assert forall|i: int| 0 <= i < t.length implies tree_cells(t, adt)[i] =~~= acells[i] by {
            assert(tree_valids(t)[i] == bk.valids()[i]);
            assert(ints1[t.offset + i] == bk.bound(i));
            assert(ints1[t.offset + i + 1] == bk.bound(i + 1));
            crate::varbin::lemma_offsets_mono(
                bk.offsets@,
                bk.offset + i,
                bk.offset + bk.length,
            );
            crate::varbin::lemma_offsets_mono(
                bk.offsets@,
                bk.offset + i + 1,
                bk.offset + bk.length,
            );
            crate::varbin::lemma_offsets_mono(bk.offsets@, bk.offset + i, bk.offset + i + 1);
            assert(crate::import::tree_strings(t)[i] =~= bk.bytes_at(i));
        }
        assert(tree_cells(t, adt) =~~= acells);
        assert(armed_count(t) == 1) by {
                        reveal_with_fuel(crate::abi::armed_count, 2);
                        reveal_with_fuel(crate::abi::armed_kids, 2);
                    }
    }
    t
}


/// Exports a variable-length byte-string array: validity, the
/// window's offsets prefix, and the data prefix up to the closing
/// offset.
#[verifier::rlimit(100)]
fn export_varbin64(
    ba: crate::varbin::BinaryArray<i64>,
    len: usize,
    null_count: usize,
    Ghost(array): Ghost<Array>,
    Ghost(adt): Ghost<crate::dtype::DataType>,
    Ghost(acells): Ghost<Seq<crate::array::Cell>>,
    Ghost(avalids): Ghost<Seq<bool>>,
) -> (t: ArrowArray)
    requires
        ba.wf(),
        ba.export_ready(),
        array == Array::LargeBinary(ba),
        len == ba.length,
        null_count == crate::bitmap::count_false(ba.valids()),
        null_count <= len,
        adt == array.spec_dtype(),
        acells == array.cells(),
        avalids == array.valids(),
    ensures
        tree_ok(t, adt),
        tree_cells(t, adt) =~~= acells,
        tree_valids(t) =~= avalids,
        t.length as int == len as int,
        t.null_count as int == null_count as int,
        t.offset as int == array.spec_offset(),
        t.n_buffers as int == array.spec_n_buffers(),
        t.n_children as int == array.spec_n_children(),
        (t.dictionary is Some) <==> (array is Dictionary),
        (match array {
            Array::BinView(va0) => forall|j: int|
                0 <= j < va0.data_buffers@.len() ==> (#[trigger] crate::import::tree_variadic_lens(
                    t,
                )[j]) == va0.bufs()[j].len(),
            _ => true,
        }),
        t.release,
        t.private_data is Some,
        armed_count(t) == arr_nodes(array),
{
    let v0 = export_validity(&ba.validity);
    let offs = offsets_buffer::<i64>(&ba.offsets, ba.offset, ba.length);
    proof {
        crate::vecs::lemma_vec_len_bound(&ba.data);
        crate::varbin::lemma_offsets_mono(
            ba.offsets@,
            ba.offset + ba.length,
            ba.offsets@.len() - 1,
        );
    }
    let closing = ba.offsets[ba.offset + ba.length].to_index();
    let dbytes = copy_prefix(&ba.data, closing);
    let v2 = Some(ForeignBuffer { addr: 0, data: BufferData::U8(dbytes) });
    let mut bufs: Vec<Option<ForeignBuffer>> = Vec::new();
    bufs.push(v0);
    bufs.push(Some(offs));
    bufs.push(v2);
    let t = ArrowArray {
        length: len as i64,
        null_count: null_count as i64,
        offset: ba.offset as i64,
        n_buffers: 3,
        n_children: 0,
        buffers: Some(bufs),
        children: Some(Vec::new()),
        dictionary: None,
        release: true,
        private_data: Some(
            Box::new(
                PrivateData {
                    array: Array::LargeBinary(ba),
                    variadic_buffer_sizes: Vec::new(),
                },
            ),
        ),
    };
    proof {
        let bk = (match array {
            Array::LargeBinary(x) => x,
            _ => arbitrary(),
        });
        let ints1 = the_buffer(t, 1).data.ints();
        lemma_valids_match(t, avalids, bk.validity);
        assert forall|i: int| 0 <= i <= t.offset + t.length implies 0 <= (#[trigger] ints1[i]) by {
            assert(ints1[i] == bk.offsets@[i].as_int());
        }
        assert forall|i: int| 0 <= i < t.offset + t.length implies (#[trigger] ints1[i]) <= ints1[i
            + 1] by {
            assert(ints1[i] == bk.offsets@[i].as_int());
            assert(ints1[i + 1] == bk.offsets@[i + 1].as_int());
        }
        assert(ints1[t.offset + t.length] == closing as int);
        assert(crate::import::offsets_buffer_ok::<i64>(t, 1));
        assert(crate::import::binary_ok::<i64>(t));
        assert(tree_ok(t, adt));
        assert forall|i: int| 0 <= i < t.length implies tree_cells(t, adt)[i] =~~= acells[i] by {
            assert(tree_valids(t)[i] == bk.valids()[i]);
            assert(ints1[t.offset + i] == bk.bound(i));
            assert(ints1[t.offset + i + 1] == bk.bound(i + 1));
            crate::varbin::lemma_offsets_mono(
                bk.offsets@,
                bk.offset + i,
                bk.offset + bk.length,
            );
            crate::varbin::lemma_offsets_mono(
                bk.offsets@,
                bk.offset + i + 1,
                bk.offset + bk.length,
            );
            crate::varbin::lemma_offsets_mono(bk.offsets@, bk.offset + i, bk.offset + i + 1);
            assert(crate::import::tree_strings(t)[i] =~= bk.bytes_at(i));
        }
        assert(tree_cells(t, adt) =~~= acells);
        assert(armed_count(t) == 1) by {
                        reveal_with_fuel(crate::abi::armed_count, 2);
                        reveal_with_fuel(crate::abi::armed_kids, 2);
                    }
    }
    t
}


/// Exports a view-encoded byte-string array: validity, the window's
/// views prefix, each variadic data buffer, and the auxiliary buffer
/// of per-buffer byte lengths (also retained privately).
#[verifier::rlimit(100)]
fn export_binview(
    va: crate::binview::BinViewArray,
    len: usize,
    null_count: usize,
    Ghost(array): Ghost<Array>,
    Ghost(adt): Ghost<crate::dtype::DataType>,
    Ghost(acells): Ghost<Seq<crate::array::Cell>>,
    Ghost(avalids): Ghost<Seq<bool>>,
) -> (t: ArrowArray)
    requires
        va.wf(),
        va.export_ready(),
        array == Array::BinView(va),
        len == va.length,
        null_count == crate::bitmap::count_false(va.valids()),
        null_count <= len,
        adt == array.spec_dtype(),
        acells == array.cells(),
        avalids == array.valids(),
    ensures
        tree_ok(t, adt),
        tree_cells(t, adt) =~~= acells,
        tree_valids(t) =~= avalids,
        t.length as int == len as int,
        t.null_count as int == null_count as int,
        t.offset as int == array.spec_offset(),
        t.n_buffers as int == array.spec_n_buffers(),
        t.n_children as int == array.spec_n_children(),
        (t.dictionary is Some) <==> (array is Dictionary),
        (match array {
            Array::BinView(va0) => forall|j: int|
                0 <= j < va0.data_buffers@.len() ==> (#[trigger] crate::import::tree_variadic_lens(
                    t,
                )[j]) == va0.bufs()[j].len(),
            _ => true,
        }),
        t.release,
        t.private_data is Some,
        armed_count(t) == arr_nodes(array),
{
    let v0 = export_validity(&va.validity);
    let views = copy_prefix(&va.views, va.offset + va.length);
    let v1 = Some(ForeignBuffer { addr: 0, data: BufferData::U128(views) });
    let lengths = va.variadic_buffer_lengths();
    let k = va.data_buffers.len();
    let mut bufs: Vec<Option<ForeignBuffer>> = Vec::new();
    bufs.push(v0);
    bufs.push(v1);
    let ghost slot0 = bufs@[0];
    let ghost slot1 = bufs@[1];
    let mut j: usize = 0;
    while j < k
        invariant
            va.wf(),
            k == va.data_buffers@.len(),
            j <= k,
            bufs@.len() == 2 + j,
            bufs@[0] == slot0,
            bufs@[1] == slot1,
            forall|y: int|
                2 <= y < 2 + j ==> (#[trigger] bufs@[y]) is Some && bufs@[y].unwrap().data is U8
                    && (match bufs@[y].unwrap().data {
                    BufferData::U8(bs) => bs@,
                    _ => Seq::empty(),
                }) == va.data_buffers@[y - 2]@,
        decreases k - j,
    {
        let db = copy_prefix(&va.data_buffers[j], va.data_buffers[j].len());
        proof {
            assert(db@ =~= va.data_buffers@[j as int]@);
        }
        bufs.push(Some(ForeignBuffer { addr: 0, data: BufferData::U8(db) }));
        j = j + 1;
    }
    let ghost bufs_before = bufs@;
    let ghost glens = lengths@;
    bufs.push(Some(ForeignBuffer { addr: 0, data: BufferData::I64(lengths) }));
    let nb = bufs.len();
    let ghost bufs_final = bufs@;
    proof {
        assert(nb == 3 + k);
        assert(nb <= i64::MAX);
        assert(bufs_final[nb - 1] is Some);
        assert(bufs_final[nb - 1].unwrap().data is I64);
    }
    let n_buffers = nb as i64;
    let variadic = va.variadic_buffer_lengths();
    let t = ArrowArray {
        length: len as i64,
        null_count: null_count as i64,
        offset: va.offset as i64,
        n_buffers,
        n_children: 0,
        buffers: Some(bufs),
        children: Some(Vec::new()),
        dictionary: None,
        release: true,
        private_data: Some(
            Box::new(
                PrivateData { array: Array::BinView(va), variadic_buffer_sizes: variadic },
            ),
        ),
    };
    proof {
        let vk = (match array {
            Array::BinView(x) => x,
            _ => arbitrary(),
        });
        lemma_valids_match(t, avalids, vk.validity);
        assert(t.buffers.unwrap()@ == bufs_final);
        assert(the_buffer(t, t.n_buffers - 1) == bufs_final[nb - 1].unwrap());
        assert(the_buffer(t, t.n_buffers - 1).data is I64);
        assert((match the_buffer(t, t.n_buffers - 1).data {
            BufferData::I64(lv) => lv@,
            _ => Seq::empty(),
        }) == glens);
        assert forall|x: int| 0 <= x < t.n_buffers - 3 implies 0 <= (
        #[trigger] crate::import::tree_variadic_lens(t)[x]) <= usize::MAX by {
            assert(crate::import::tree_variadic_lens(t)[x] == glens[x] as int);
            assert(glens[x] as int == vk.bufs()[x].len());
            crate::vecs::lemma_vec_len_bound(&vk.data_buffers);
        }
        assert forall|y: int| 2 <= y < t.n_buffers - 1 implies #[trigger] crate::import::buffer_ok(
            t,
            y,
        ) by {
            assert(bufs_before[y] is Some);
        }
        assert forall|y: int| 2 <= y < t.n_buffers - 1 implies (#[trigger] the_buffer(t, y).data)
            is U8 by {
            assert(the_buffer(t, y) == bufs_before[y].unwrap());
        }
        assert forall|y: int| 2 <= y < t.n_buffers - 1 implies crate::import::tree_variadic_lens(
            t,
        )[y - 2] <= (#[trigger] the_buffer(t, y).data).spec_len() by {
            assert(the_buffer(t, y) == bufs_before[y].unwrap());
            assert((match the_buffer(t, y).data {
                BufferData::U8(bs) => bs@,
                _ => Seq::empty(),
            }) == vk.data_buffers@[y - 2]@);
        }
        assert(crate::import::tree_bufs(t) =~~= vk.bufs()) by {
            assert forall|x: int| 0 <= x < t.n_buffers - 3 implies crate::import::tree_bufs(t)[x]
                =~= vk.bufs()[x] by {
                assert(the_buffer(t, 2 + x) == bufs_before[2 + x].unwrap());
                assert(crate::import::tree_bytes(t, 2 + x) == vk.data_buffers@[x]@);
            }
        }
        assert forall|i: int| 0 <= i < t.offset + t.length implies crate::binview::view_ok(
            #[trigger] crate::import::tree_views(t)[i],
            crate::import::tree_bufs(t),
        ) by {
            assert(crate::import::tree_views(t)[i] == vk.views@[i]);
            assert(crate::binview::view_ok(vk.views@[i], vk.bufs()));
        }
        assert(crate::import::binview_ok(t));
        assert(tree_ok(t, adt));
        assert forall|i: int| 0 <= i < t.length implies tree_cells(t, adt)[i] =~~= acells[i] by {
            assert(tree_valids(t)[i] == vk.valids()[i]);
            assert(crate::import::tree_views(t)[t.offset + i] == vk.views@[vk.offset + i]);
            assert(crate::import::tree_view_strings(t)[i] =~~= vk.bytes_at(i));
        }
        assert(tree_cells(t, adt) =~~= acells);
        assert(armed_count(t) == 1) by {
                        reveal_with_fuel(crate::abi::armed_count, 2);
                        reveal_with_fuel(crate::abi::armed_kids, 2);
                    }
    }
    t
}


/// Exports a primitive array of any element width.
#[verifier::rlimit(100)]
fn export_prim_all(
    ap: AnyPrimitive,
    len: usize,
    null_count: usize,
    Ghost(asnap): Ghost<Array>,
    Ghost(adt): Ghost<crate::dtype::DataType>,
    Ghost(acells): Ghost<Seq<crate::array::Cell>>,
    Ghost(avalids): Ghost<Seq<bool>>,
) -> (t: ArrowArray)
    requires
        ap.wf(),
        ap.export_ready(),
        asnap == Array::Primitive(ap),
        len == ap.spec_len(),
        null_count == crate::bitmap::count_false(ap.valids()),
        null_count <= len,
        adt == asnap.spec_dtype(),
        acells == asnap.cells(),
        avalids == asnap.valids(),
    ensures
        tree_ok(t, adt),
        tree_cells(t, adt) =~~= acells,
        tree_valids(t) =~= avalids,
        t.length as int == len as int,
        t.null_count as int == null_count as int,
        t.offset as int == asnap.spec_offset(),
        t.n_buffers as int == asnap.spec_n_buffers(),
        t.n_children as int == asnap.spec_n_children(),
        (t.dictionary is Some) <==> (asnap is Dictionary),
        (match asnap {
            Array::BinView(va0) => forall|j: int|
                0 <= j < va0.data_buffers@.len() ==> (#[trigger] crate::import::tree_variadic_lens(
                    t,
                )[j]) == va0.bufs()[j].len(),
            _ => true,
        }),
        t.release,
        t.private_data is Some,
        armed_count(t) == arr_nodes(asnap),
{
    match ap {

                AnyPrimitive::U8(pa) => {
                    let bufs = prim_buffers(&pa);
                    let t = ArrowArray {
                        length: len as i64,
                        null_count: null_count as i64,
                        offset: pa.offset as i64,
                        n_buffers: 2,
                        n_children: 0,
                        buffers: Some(bufs),
                        children: Some(Vec::new()),
                        dictionary: None,
                        release: true,
                        private_data: Some(
                            Box::new(
                                PrivateData {
                                    array: Array::Primitive(AnyPrimitive::U8(pa)),
                                    variadic_buffer_sizes: Vec::new(),
                                },
                            ),
                        ),
                    };
                    proof {
                        let pk = (match asnap {
                            Array::Primitive(ap0) => ap0,
                            _ => arbitrary(),
                        });
                        let b1 = the_buffer(t, 1);
                        assert(crate::import::data_buffer_ok::<u8>(t, 1, t.offset + t.length));
                        lemma_valids_match(t, avalids, pk.spec_validity());
                        assert(window_ints(t, 1) =~= (match asnap {
                            Array::Primitive(ap0) => ap0.ints(),
                            _ => Seq::empty(),
                        }));
                        assert(tree_ok(t, adt));
                        assert(tree_cells(t, adt) =~~= acells);
                        assert(armed_count(t) == 1) by {
                        reveal_with_fuel(crate::abi::armed_count, 2);
                        reveal_with_fuel(crate::abi::armed_kids, 2);
                    }
                    }
                    t
                },
                AnyPrimitive::U16(pa) => {
                    let bufs = prim_buffers(&pa);
                    let t = ArrowArray {
                        length: len as i64,
                        null_count: null_count as i64,
                        offset: pa.offset as i64,
                        n_buffers: 2,
                        n_children: 0,
                        buffers: Some(bufs),
                        children: Some(Vec::new()),
                        dictionary: None,
                        release: true,
                        private_data: Some(
                            Box::new(
                                PrivateData {
                                    array: Array::Primitive(AnyPrimitive::U16(pa)),
                                    variadic_buffer_sizes: Vec::new(),
                                },
                            ),
                        ),
                    };
                    proof {
                        let pk = (match asnap {
                            Array::Primitive(ap0) => ap0,
                            _ => arbitrary(),
                        });
                        let b1 = the_buffer(t, 1);
                        assert(crate::import::data_buffer_ok::<u16>(t, 1, t.offset + t.length));
                        lemma_valids_match(t, avalids, pk.spec_validity());
                        assert(window_ints(t, 1) =~= (match asnap {
                            Array::Primitive(ap0) => ap0.ints(),
                            _ => Seq::empty(),
                        }));
                        assert(tree_ok(t, adt));
                        assert(tree_cells(t, adt) =~~= acells);
                        assert(armed_count(t) == 1) by {
                        reveal_with_fuel(crate::abi::armed_count, 2);
                        reveal_with_fuel(crate::abi::armed_kids, 2);
                    }
                    }
                    t
                },
                AnyPrimitive::U32(pa) => {
                    let bufs = prim_buffers(&pa);
                    let t = ArrowArray {
                        length: len as i64,
                        null_count: null_count as i64,
                        offset: pa.offset as i64,
                        n_buffers: 2,
                        n_children: 0,
                        buffers: Some(bufs),
                        children: Some(Vec::new()),
                        dictionary: None,
                        release: true,
                        private_data: Some(
                            Box::new(
                                PrivateData {
                                    array: Array::Primitive(AnyPrimitive::U32(pa)),
                                    variadic_buffer_sizes: Vec::new(),
                                },
                            ),
                        ),
                    };
                    proof {
                        let pk = (match asnap {
                            Array::Primitive(ap0) => ap0,
                            _ => arbitrary(),
                        });
                        let b1 = the_buffer(t, 1);
                        assert(crate::import::data_buffer_ok::<u32>(t, 1, t.offset + t.length));
                        lemma_valids_match(t, avalids, pk.spec_validity());
                        assert(window_ints(t, 1) =~= (match asnap {
                            Array::Primitive(ap0) => ap0.ints(),
                            _ => Seq::empty(),
                        }));
                        assert(tree_ok(t, adt));
                        assert(tree_cells(t, adt) =~~= acells);
                        assert(armed_count(t) == 1) by {
                        reveal_with_fuel(crate::abi::armed_count, 2);
                        reveal_with_fuel(crate::abi::armed_kids, 2);
                    }
                    }
                    t
                },
                AnyPrimitive::U64(pa) => {
                    let bufs = prim_buffers(&pa);
                    let t = ArrowArray {
                        length: len as i64,
                        null_count: null_count as i64,
                        offset: pa.offset as i64,
                        n_buffers: 2,
                        n_children: 0,
                        buffers: Some(bufs),
                        children: Some(Vec::new()),
                        dictionary: None,
                        release: true,
                        private_data: Some(
                            Box::new(
                                PrivateData {
                                    array: Array::Primitive(AnyPrimitive::U64(pa)),
                                    variadic_buffer_sizes: Vec::new(),
                                },
                            ),
                        ),
                    };
                    proof {
                        let pk = (match asnap {
                            Array::Primitive(ap0) => ap0,
                            _ => arbitrary(),
                        });
                        let b1 = the_buffer(t, 1);
                        assert(crate::import::data_buffer_ok::<u64>(t, 1, t.offset + t.length));
                        lemma_valids_match(t, avalids, pk.spec_validity());
                        assert(window_ints(t, 1) =~= (match asnap {
                            Array::Primitive(ap0) => ap0.ints(),
                            _ => Seq::empty(),
                        }));
                        assert(tree_ok(t, adt));
                        assert(tree_cells(t, adt) =~~= acells);
                        assert(armed_count(t) == 1) by {
                        reveal_with_fuel(crate::abi::armed_count, 2);
                        reveal_with_fuel(crate::abi::armed_kids, 2);
                    }
                    }
                    t
                },
                AnyPrimitive::I8(pa) => {
                    let bufs = prim_buffers(&pa);
                    let t = ArrowArray {
                        length: len as i64,
                        null_count: null_count as i64,
                        offset: pa.offset as i64,
                        n_buffers: 2,
                        n_children: 0,
                        buffers: Some(bufs),
                        children: Some(Vec::new()),
                        dictionary: None,
                        release: true,
                        private_data: Some(
                            Box::new(
                                PrivateData {
                                    array: Array::Primitive(AnyPrimitive::I8(pa)),
                                    variadic_buffer_sizes: Vec::new(),
                                },
                            ),
                        ),
                    };
                    proof {
                        let pk = (match asnap {
                            Array::Primitive(ap0) => ap0,
                            _ => arbitrary(),
                        });
                        let b1 = the_buffer(t, 1);
                        assert(crate::import::data_buffer_ok::<i8>(t, 1, t.offset + t.length));
                        lemma_valids_match(t, avalids, pk.spec_validity());
                        assert(window_ints(t, 1) =~= (match asnap {
                            Array::Primitive(ap0) => ap0.ints(),
                            _ => Seq::empty(),
                        }));
                        assert(tree_ok(t, adt));
                        assert(tree_cells(t, adt) =~~= acells);
                        assert(armed_count(t) == 1) by {
                        reveal_with_fuel(crate::abi::armed_count, 2);
                        reveal_with_fuel(crate::abi::armed_kids, 2);
                    }
                    }
                    t
                },
                AnyPrimitive::I16(pa) => {
                    let bufs = prim_buffers(&pa);
                    let t = ArrowArray {
                        length: len as i64,
                        null_count: null_count as i64,
                        offset: pa.offset as i64,
                        n_buffers: 2,
                        n_children: 0,
                        buffers: Some(bufs),
                        children: Some(Vec::new()),
                        dictionary: None,
                        release: true,
                        private_data: Some(
                            Box::new(
                                PrivateData {
                                    array: Array::Primitive(AnyPrimitive::I16(pa)),
                                    variadic_buffer_sizes: Vec::new(),
                                },
                            ),
                        ),
                    };
                    proof {
                        let pk = (match asnap {
                            Array::Primitive(ap0) => ap0,
                            _ => arbitrary(),
                        });
                        let b1 = the_buffer(t, 1);
                        assert(crate::import::data_buffer_ok::<i16>(t, 1, t.offset + t.length));
                        lemma_valids_match(t, avalids, pk.spec_validity());
                        assert(window_ints(t, 1) =~= (match asnap {
                            Array::Primitive(ap0) => ap0.ints(),
                            _ => Seq::empty(),
                        }));
                        assert(tree_ok(t, adt));
                        assert(tree_cells(t, adt) =~~= acells);
                        assert(armed_count(t) == 1) by {
                        reveal_with_fuel(crate::abi::armed_count, 2);
                        reveal_with_fuel(crate::abi::armed_kids, 2);
                    }
                    }
                    t
                },
                AnyPrimitive::I32(pa) => {
                    let bufs = prim_buffers(&pa);
                    let t = ArrowArray {
                        length: len as i64,
                        null_count: null_count as i64,
                        offset: pa.offset as i64,
                        n_buffers: 2,
                        n_children: 0,
                        buffers: Some(bufs),
                        children: Some(Vec::new()),
                        dictionary: None,
                        release: true,
                        private_data: Some(
                            Box::new(
                                PrivateData {
                                    array: Array::Primitive(AnyPrimitive::I32(pa)),
                                    variadic_buffer_sizes: Vec::new(),
                                },
                            ),
                        ),
                    };
                    proof {
                        let pk = (match asnap {
                            Array::Primitive(ap0) => ap0,
                            _ => arbitrary(),
                        });
                        let b1 = the_buffer(t, 1);
                        assert(crate::import::data_buffer_ok::<i32>(t, 1, t.offset + t.length));
                        lemma_valids_match(t, avalids, pk.spec_validity());
                        assert(window_ints(t, 1) =~= (match asnap {
                            Array::Primitive(ap0) => ap0.ints(),
                            _ => Seq::empty(),
                        }));
                        assert(tree_ok(t, adt));
                        assert(tree_cells(t, adt) =~~= acells);
                        assert(armed_count(t) == 1) by {
                        reveal_with_fuel(crate::abi::armed_count, 2);
                        reveal_with_fuel(crate::abi::armed_kids, 2);
                    }
                    }
                    t
                },
                AnyPrimitive::I64(pa) => {
                    let bufs = prim_buffers(&pa);
                    let t = ArrowArray {
                        length: len as i64,
                        null_count: null_count as i64,
                        offset: pa.offset as i64,
                        n_buffers: 2,
                        n_children: 0,
                        buffers: Some(bufs),
                        children: Some(Vec::new()),
                        dictionary: None,
                        release: true,
                        private_data: Some(
                            Box::new(
                                PrivateData {
                                    array: Array::Primitive(AnyPrimitive::I64(pa)),
                                    variadic_buffer_sizes: Vec::new(),
                                },
                            ),
                        ),
                    };
                    proof {
                        let pk = (match asnap {
                            Array::Primitive(ap0) => ap0,
                            _ => arbitrary(),
                        });
                        let b1 = the_buffer(t, 1);
                        assert(crate::import::data_buffer_ok::<i64>(t, 1, t.offset + t.length));
                        lemma_valids_match(t, avalids, pk.spec_validity());
                        assert(window_ints(t, 1) =~= (match asnap {
                            Array::Primitive(ap0) => ap0.ints(),
                            _ => Seq::empty(),
                        }));
                        assert(tree_ok(t, adt));
                        assert(tree_cells(t, adt) =~~= acells);
                        assert(armed_count(t) == 1) by {
                        reveal_with_fuel(crate::abi::armed_count, 2);
                        reveal_with_fuel(crate::abi::armed_kids, 2);
                    }
                    }
                    t
                },
    }
}

/// Exports a dictionary array of any key width: the keys become the
/// struct's own buffers, the value pool hangs off the dictionary
/// pointer.
#[verifier::rlimit(100)]
fn export_dict_all(
    ad: crate::dictionary::AnyDictionary,
    len: usize,
    null_count: usize,
    Ghost(asnap): Ghost<Array>,
    Ghost(adt): Ghost<crate::dtype::DataType>,
    Ghost(acells): Ghost<Seq<crate::array::Cell>>,
    Ghost(avalids): Ghost<Seq<bool>>,
) -> (t: ArrowArray)
    requires
        ad.ok(),
        ad.spec_export_ready(),
        asnap == Array::Dictionary(ad),
        len == ad.spec_len(),
        null_count == crate::bitmap::count_false(ad.keys_valids()),
        null_count <= len,
        adt == asnap.spec_dtype(),
        acells == asnap.cells(),
        avalids == asnap.valids(),
    ensures
        tree_ok(t, adt),
        tree_cells(t, adt) =~~= acells,
        tree_valids(t) =~= avalids,
        t.length as int == len as int,
        t.null_count as int == null_count as int,
        t.offset as int == asnap.spec_offset(),
        t.n_buffers as int == asnap.spec_n_buffers(),
        t.n_children as int == asnap.spec_n_children(),
        (t.dictionary is Some) <==> (asnap is Dictionary),
        (match asnap {
            Array::BinView(va0) => forall|j: int|
                0 <= j < va0.data_buffers@.len() ==> (#[trigger] crate::import::tree_variadic_lens(
                    t,
                )[j]) == va0.bufs()[j].len(),
            _ => true,
        }),
        t.release,
        t.private_data is Some,
        armed_count(t) == arr_nodes(asnap),
    decreases arr_nodes(asnap), 0nat,
{
    let ghost anodes = arr_nodes(asnap);
    match ad {

                crate::dictionary::AnyDictionary::K8(d) => {
                    proof {
                        reveal_with_fuel(crate::array::Array::ok, 3);
                        reveal_with_fuel(crate::array::Array::spec_export_ready, 3);
                        assert(d.keys.wf());
                        assert(d.keys.export_ready());
                    }
                    let bufs = prim_buffers(&d.keys);
                    let poolclone = clone_array(&d.values);
                    proof {
                        assert(arr_nodes(poolclone) < anodes);
                    }
                    let pt = ArrowArray::new(poolclone);
                    let t = ArrowArray {
                        length: len as i64,
                        null_count: null_count as i64,
                        offset: d.keys.offset as i64,
                        n_buffers: 2,
                        n_children: 0,
                        buffers: Some(bufs),
                        children: Some(Vec::new()),
                        dictionary: Some(Box::new(pt)),
                        release: true,
                        private_data: Some(
                            Box::new(
                                PrivateData {
                                    array: Array::Dictionary(
                                        crate::dictionary::AnyDictionary::K8(d),
                                    ),
                                    variadic_buffer_sizes: Vec::new(),
                                },
                            ),
                        ),
                    };
                    proof {
                        reveal_with_fuel(crate::array::Array::cells, 3);
                        reveal_with_fuel(crate::array::Array::ok, 3);
                        reveal_with_fuel(crate::array::Array::spec_export_ready, 3);
                        assert(crate::import::data_buffer_ok::<u8>(t, 1, t.offset + t.length));
                        let dk = (match asnap {
                            Array::Dictionary(crate::dictionary::AnyDictionary::K8(x)) => x,
                            _ => arbitrary(),
                        });
                        lemma_valids_match(t, avalids, dk.keys.validity);
                        assert(window_ints(t, 1) =~= dk.keys.ints());
                        assert(tree_valids(t) =~= dk.keys.valids());
                        if dk.keys.spec_null_count() == dk.keys.length {
                            assert(crate::bitmap::count_false(tree_valids(t)) == t.length);
                        } else {
                            assert(dk.keys_in_bounds());
                            assert forall|i: int| 0 <= i < t.length implies 0 <= (
                            #[trigger] window_ints(t, 1)[i]) < (pt.length as int) by {
                                assert(window_ints(t, 1)[i] == dk.keys.ints()[i]);
                            }
                        }
                        assert(tree_ok(t, adt));
                        assert(tree_cells(t, adt) == crate::dictionary::dict_resolve(
                            window_ints(t, 1),
                            tree_valids(t),
                            t.length as nat,
                            tree_cells(*t.dictionary.unwrap(), dk.values.spec_dtype()),
                        ));
                        assert forall|i: int| 0 <= i < t.length implies tree_cells(t, adt)[i]
                            =~~= acells[i] by {
                            assert(acells[i] == crate::dictionary::dict_resolve(
                                dk.keys.ints(),
                                dk.keys.valids(),
                                dk.keys.length as nat,
                                dk.values.cells(),
                            )[i]);
                            assert(tree_cells(*t.dictionary.unwrap(), dk.values.spec_dtype())
                                =~~= dk.values.cells());
                        }
                        assert(tree_cells(t, adt) =~~= acells);
                        assert(armed_count(t) == 1 + armed_count(pt)) by {
                        reveal_with_fuel(crate::abi::armed_count, 2);
                        reveal_with_fuel(crate::abi::armed_kids, 3);
                    }
                    }
                    t
                },
                crate::dictionary::AnyDictionary::K16(d) => {
                    proof {
                        reveal_with_fuel(crate::array::Array::ok, 3);
                        reveal_with_fuel(crate::array::Array::spec_export_ready, 3);
                        assert(d.keys.wf());
                        assert(d.keys.export_ready());
                    }
                    let bufs = prim_buffers(&d.keys);
                    let poolclone = clone_array(&d.values);
                    proof {
                        assert(arr_nodes(poolclone) < anodes);
                    }
                    let pt = ArrowArray::new(poolclone);
                    let t = ArrowArray {
                        length: len as i64,
                        null_count: null_count as i64,
                        offset: d.keys.offset as i64,
                        n_buffers: 2,
                        n_children: 0,
                        buffers: Some(bufs),
                        children: Some(Vec::new()),
                        dictionary: Some(Box::new(pt)),
                        release: true,
                        private_data: Some(
                            Box::new(
                                PrivateData {
                                    array: Array::Dictionary(
                                        crate::dictionary::AnyDictionary::K16(d),
                                    ),
                                    variadic_buffer_sizes: Vec::new(),
                                },
                            ),
                        ),
                    };
                    proof {
                        reveal_with_fuel(crate::array::Array::cells, 3);
                        reveal_with_fuel(crate::array::Array::ok, 3);
                        reveal_with_fuel(crate::array::Array::spec_export_ready, 3);
                        assert(crate::import::data_buffer_ok::<u16>(t, 1, t.offset + t.length));
                        let dk = (match asnap {
                            Array::Dictionary(crate::dictionary::AnyDictionary::K16(x)) => x,
                            _ => arbitrary(),
                        });
                        lemma_valids_match(t, avalids, dk.keys.validity);
                        assert(window_ints(t, 1) =~= dk.keys.ints());
                        assert(tree_valids(t) =~= dk.keys.valids());
                        if dk.keys.spec_null_count() == dk.keys.length {
                            assert(crate::bitmap::count_false(tree_valids(t)) == t.length);
                        } else {
                            assert(dk.keys_in_bounds());
                            assert forall|i: int| 0 <= i < t.length implies 0 <= (
                            #[trigger] window_ints(t, 1)[i]) < (pt.length as int) by {
                                assert(window_ints(t, 1)[i] == dk.keys.ints()[i]);
                            }
                        }
                        assert(tree_ok(t, adt));
                        assert(tree_cells(t, adt) == crate::dictionary::dict_resolve(
                            window_ints(t, 1),
                            tree_valids(t),
                            t.length as nat,
                            tree_cells(*t.dictionary.unwrap(), dk.values.spec_dtype()),
                        ));
                        assert forall|i: int| 0 <= i < t.length implies tree_cells(t, adt)[i]
                            =~~= acells[i] by {
                            assert(acells[i] == crate::dictionary::dict_resolve(
                                dk.keys.ints(),
                                dk.keys.valids(),
                                dk.keys.length as nat,
                                dk.values.cells(),
                            )[i]);
                            assert(tree_cells(*t.dictionary.unwrap(), dk.values.spec_dtype())
                                =~~= dk.values.cells());
                        }
                        assert(tree_cells(t, adt) =~~= acells);
                        assert(armed_count(t) == 1 + armed_count(pt)) by {
                        reveal_with_fuel(crate::abi::armed_count, 2);
                        reveal_with_fuel(crate::abi::armed_kids, 3);
                    }
                    }
                    t
                },
                crate::dictionary::AnyDictionary::K32(d) => {
                    proof {
                        reveal_with_fuel(crate::array::Array::ok, 3);
                        reveal_with_fuel(crate::array::Array::spec_export_ready, 3);
                        assert(d.keys.wf());
                        assert(d.keys.export_ready());
                    }
                    let bufs = prim_buffers(&d.keys);
                    let poolclone = clone_array(&d.values);
                    proof {
                        assert(arr_nodes(poolclone) < anodes);
                    }
                    let pt = ArrowArray::new(poolclone);
                    let t = ArrowArray {
                        length: len as i64,
                        null_count: null_count as i64,
                        offset: d.keys.offset as i64,
                        n_buffers: 2,
                        n_children: 0,
                        buffers: Some(bufs),
                        children: Some(Vec::new()),
                        dictionary: Some(Box::new(pt)),
                        release: true,
                        private_data: Some(
                            Box::new(
                                PrivateData {
                                    array: Array::Dictionary(
                                        crate::dictionary::AnyDictionary::K32(d),
                                    ),
                                    variadic_buffer_sizes: Vec::new(),
                                },
                            ),
                        ),
                    };
                    proof {
                        reveal_with_fuel(crate::array::Array::cells, 3);
                        reveal_with_fuel(crate::array::Array::ok, 3);
                        reveal_with_fuel(crate::array::Array::spec_export_ready, 3);
                        assert(crate::import::data_buffer_ok::<u32>(t, 1, t.offset + t.length));
                        let dk = (match asnap {
                            Array::Dictionary(crate::dictionary::AnyDictionary::K32(x)) => x,
                            _ => arbitrary(),
                        });
                        lemma_valids_match(t, avalids, dk.keys.validity);
                        assert(window_ints(t, 1) =~= dk.keys.ints());
                        assert(tree_valids(t) =~= dk.keys.valids());
                        if dk.keys.spec_null_count() == dk.keys.length {
                            assert(crate::bitmap::count_false(tree_valids(t)) == t.length);
                        } else {
                            assert(dk.keys_in_bounds());
                            assert forall|i: int| 0 <= i < t.length implies 0 <= (
                            #[trigger] window_ints(t, 1)[i]) < (pt.length as int) by {
                                assert(window_ints(t, 1)[i] == dk.keys.ints()[i]);
                            }
                        }
                        assert(tree_ok(t, adt));
                        assert(tree_cells(t, adt) == crate::dictionary::dict_resolve(
                            window_ints(t, 1),
                            tree_valids(t),
                            t.length as nat,
                            tree_cells(*t.dictionary.unwrap(), dk.values.spec_dtype()),
                        ));
                        assert forall|i: int| 0 <= i < t.length implies tree_cells(t, adt)[i]
                            =~~= acells[i] by {
                            assert(acells[i] == crate::dictionary::dict_resolve(
                                dk.keys.ints(),
                                dk.keys.valids(),
                                dk.keys.length as nat,
                                dk.values.cells(),
                            )[i]);
                            assert(tree_cells(*t.dictionary.unwrap(), dk.values.spec_dtype())
                                =~~= dk.values.cells());
                        }
                        assert(tree_cells(t, adt) =~~= acells);
                        assert(armed_count(t) == 1 + armed_count(pt)) by {
                        reveal_with_fuel(crate::abi::armed_count, 2);
                        reveal_with_fuel(crate::abi::armed_kids, 3);
                    }
                    }
                    t
                },
                crate::dictionary::AnyDictionary::K64(d) => {
                    proof {
                        reveal_with_fuel(crate::array::Array::ok, 3);
                        reveal_with_fuel(crate::array::Array::spec_export_ready, 3);
                        assert(d.keys.wf());
                        assert(d.keys.export_ready());
                    }
                    let bufs = prim_buffers(&d.keys);
                    let poolclone = clone_array(&d.values);
                    proof {
                        assert(arr_nodes(poolclone) < anodes);
                    }
                    let pt = ArrowArray::new(poolclone);
                    let t = ArrowArray {
                        length: len as i64,
                        null_count: null_count as i64,
                        offset: d.keys.offset as i64,
                        n_buffers: 2,
                        n_children: 0,
                        buffers: Some(bufs),
                        children: Some(Vec::new()),
                        dictionary: Some(Box::new(pt)),
                        release: true,
                        private_data: Some(
                            Box::new(
                                PrivateData {
                                    array: Array::Dictionary(
                                        crate::dictionary::AnyDictionary::K64(d),
                                    ),
                                    variadic_buffer_sizes: Vec::new(),
                                },
                            ),
                        ),
                    };
                    proof {
                        reveal_with_fuel(crate::array::Array::cells, 3);
                        reveal_with_fuel(crate::array::Array::ok, 3);
                        reveal_with_fuel(crate::array::Array::spec_export_ready, 3);
                        assert(crate::import::data_buffer_ok::<u64>(t, 1, t.offset + t.length));
                        let dk = (match asnap {
                            Array::Dictionary(crate::dictionary::AnyDictionary::K64(x)) => x,
                            _ => arbitrary(),
                        });
                        lemma_valids_match(t, avalids, dk.keys.validity);
                        assert(window_ints(t, 1) =~= dk.keys.ints());
                        assert(tree_valids(t) =~= dk.keys.valids());
                        if dk.keys.spec_null_count() == dk.keys.length {
                            assert(crate::bitmap::count_false(tree_valids(t)) == t.length);
                        } else {
                            assert(dk.keys_in_bounds());
                            assert forall|i: int| 0 <= i < t.length implies 0 <= (
                            #[trigger] window_ints(t, 1)[i]) < (pt.length as int) by {
                                assert(window_ints(t, 1)[i] == dk.keys.ints()[i]);
                            }
                        }
                        assert(tree_ok(t, adt));
                        assert(tree_cells(t, adt) == crate::dictionary::dict_resolve(
                            window_ints(t, 1),
                            tree_valids(t),
                            t.length as nat,
                            tree_cells(*t.dictionary.unwrap(), dk.values.spec_dtype()),
                        ));
                        assert forall|i: int| 0 <= i < t.length implies tree_cells(t, adt)[i]
                            =~~= acells[i] by {
                            assert(acells[i] == crate::dictionary::dict_resolve(
                                dk.keys.ints(),
                                dk.keys.valids(),
                                dk.keys.length as nat,
                                dk.values.cells(),
                            )[i]);
                            assert(tree_cells(*t.dictionary.unwrap(), dk.values.spec_dtype())
                                =~~= dk.values.cells());
                        }
                        assert(tree_cells(t, adt) =~~= acells);
                        assert(armed_count(t) == 1 + armed_count(pt)) by {
                        reveal_with_fuel(crate::abi::armed_count, 2);
                        reveal_with_fuel(crate::abi::armed_kids, 3);
                    }
                    }
                    t
                },
                crate::dictionary::AnyDictionary::S8(d) => {
                    proof {
                        reveal_with_fuel(crate::array::Array::ok, 3);
                        reveal_with_fuel(crate::array::Array::spec_export_ready, 3);
                        assert(d.keys.wf());
                        assert(d.keys.export_ready());
                    }
                    let bufs = prim_buffers(&d.keys);
                    let poolclone = clone_array(&d.values);
                    proof {
                        assert(arr_nodes(poolclone) < anodes);
                    }
                    let pt = ArrowArray::new(poolclone);
                    let t = ArrowArray {
                        length: len as i64,
                        null_count: null_count as i64,
                        offset: d.keys.offset as i64,
                        n_buffers: 2,
                        n_children: 0,
                        buffers: Some(bufs),
                        children: Some(Vec::new()),
                        dictionary: Some(Box::new(pt)),
                        release: true,
                        private_data: Some(
                            Box::new(
                                PrivateData {
                                    array: Array::Dictionary(
                                        crate::dictionary::AnyDictionary::S8(d),
                                    ),
                                    variadic_buffer_sizes: Vec::new(),
                                },
                            ),
                        ),
                    };
                    proof {
                        reveal_with_fuel(crate::array::Array::cells, 3);
                        reveal_with_fuel(crate::array::Array::ok, 3);
                        reveal_with_fuel(crate::array::Array::spec_export_ready, 3);
                        assert(crate::import::data_buffer_ok::<i8>(t, 1, t.offset + t.length));
                        let dk = (match asnap {
                            Array::Dictionary(crate::dictionary::AnyDictionary::S8(x)) => x,
                            _ => arbitrary(),
                        });
                        lemma_valids_match(t, avalids, dk.keys.validity);
                        assert(window_ints(t, 1) =~= dk.keys.ints());
                        assert(tree_valids(t) =~= dk.keys.valids());
                        if dk.keys.spec_null_count() == dk.keys.length {
                            assert(crate::bitmap::count_false(tree_valids(t)) == t.length);
                        } else {
                            assert(dk.keys_in_bounds());
                            assert forall|i: int| 0 <= i < t.length implies 0 <= (
                            #[trigger] window_ints(t, 1)[i]) < (pt.length as int) by {
                                assert(window_ints(t, 1)[i] == dk.keys.ints()[i]);
                            }
                        }
                        assert(tree_ok(t, adt));
                        assert(tree_cells(t, adt) == crate::dictionary::dict_resolve(
                            window_ints(t, 1),
                            tree_valids(t),
                            t.length as nat,
                            tree_cells(*t.dictionary.unwrap(), dk.values.spec_dtype()),
                        ));
                        assert forall|i: int| 0 <= i < t.length implies tree_cells(t, adt)[i]
                            =~~= acells[i] by {
                            assert(acells[i] == crate::dictionary::dict_resolve(
                                dk.keys.ints(),
                                dk.keys.valids(),
                                dk.keys.length as nat,
                                dk.values.cells(),
                            )[i]);
                            assert(tree_cells(*t.dictionary.unwrap(), dk.values.spec_dtype())
                                =~~= dk.values.cells());
                        }
                        assert(tree_cells(t, adt) =~~= acells);
                        assert(armed_count(t) == 1 + armed_count(pt)) by {
                        reveal_with_fuel(crate::abi::armed_count, 2);
                        reveal_with_fuel(crate::abi::armed_kids, 3);
                    }
                    }
                    t
                },
                crate::dictionary::AnyDictionary::S16(d) => {
                    proof {
                        reveal_with_fuel(crate::array::Array::ok, 3);
                        reveal_with_fuel(crate::array::Array::spec_export_ready, 3);
                        assert(d.keys.wf());
                        assert(d.keys.export_ready());
                    }
                    let bufs = prim_buffers(&d.keys);
                    let poolclone = clone_array(&d.values);
                    proof {
                        assert(arr_nodes(poolclone) < anodes);
                    }
                    let pt = ArrowArray::new(poolclone);
                    let t = ArrowArray {
                        length: len as i64,
                        null_count: null_count as i64,
                        offset: d.keys.offset as i64,
                        n_buffers: 2,
                        n_children: 0,
                        buffers: Some(bufs),
                        children: Some(Vec::new()),
                        dictionary: Some(Box::new(pt)),
                        release: true,
                        private_data: Some(
                            Box::new(
                                PrivateData {
                                    array: Array::Dictionary(
                                        crate::dictionary::AnyDictionary::S16(d),
                                    ),
                                    variadic_buffer_sizes: Vec::new(),
                                },
                            ),
                        ),
                    };
                    proof {
                        reveal_with_fuel(crate::array::Array::cells, 3);
                        reveal_with_fuel(crate::array::Array::ok, 3);
                        reveal_with_fuel(crate::array::Array::spec_export_ready, 3);
                        assert(crate::import::data_buffer_ok::<i16>(t, 1, t.offset + t.length));
                        let dk = (match asnap {
                            Array::Dictionary(crate::dictionary::AnyDictionary::S16(x)) => x,
                            _ => arbitrary(),
                        });
                        lemma_valids_match(t, avalids, dk.keys.validity);
                        assert(window_ints(t, 1) =~= dk.keys.ints());
                        assert(tree_valids(t) =~= dk.keys.valids());
                        if dk.keys.spec_null_count() == dk.keys.length {
                            assert(crate::bitmap::count_false(tree_valids(t)) == t.length);
                        } else {
                            assert(dk.keys_in_bounds());
                            assert forall|i: int| 0 <= i < t.length implies 0 <= (
                            #[trigger] window_ints(t, 1)[i]) < (pt.length as int) by {
                                assert(window_ints(t, 1)[i] == dk.keys.ints()[i]);
                            }
                        }
                        assert(tree_ok(t, adt));
                        assert(tree_cells(t, adt) == crate::dictionary::dict_resolve(
                            window_ints(t, 1),
                            tree_valids(t),
                            t.length as nat,
                            tree_cells(*t.dictionary.unwrap(), dk.values.spec_dtype()),
                        ));
                        assert forall|i: int| 0 <= i < t.length implies tree_cells(t, adt)[i]
                            =~~= acells[i] by {
                            assert(acells[i] == crate::dictionary::dict_resolve(
                                dk.keys.ints(),
                                dk.keys.valids(),
                                dk.keys.length as nat,
                                dk.values.cells(),
                            )[i]);
                            assert(tree_cells(*t.dictionary.unwrap(), dk.values.spec_dtype())
                                =~~= dk.values.cells());
                        }
                        assert(tree_cells(t, adt) =~~= acells);
                        assert(armed_count(t) == 1 + armed_count(pt)) by {
                        reveal_with_fuel(crate::abi::armed_count, 2);
                        reveal_with_fuel(crate::abi::armed_kids, 3);
                    }
                    }
                    t
                },
                crate::dictionary::AnyDictionary::S32(d) => {
                    proof {
                        reveal_with_fuel(crate::array::Array::ok, 3);
                        reveal_with_fuel(crate::array::Array::spec_export_ready, 3);
                        assert(d.keys.wf());
                        assert(d.keys.export_ready());
                    }
                    let bufs = prim_buffers(&d.keys);
                    let poolclone = clone_array(&d.values);
                    proof {
                        assert(arr_nodes(poolclone) < anodes);
                    }
                    let pt = ArrowArray::new(poolclone);
                    let t = ArrowArray {
                        length: len as i64,
                        null_count: null_count as i64,
                        offset: d.keys.offset as i64,
                        n_buffers: 2,
                        n_children: 0,
                        buffers: Some(bufs),
                        children: Some(Vec::new()),
                        dictionary: Some(Box::new(pt)),
                        release: true,
                        private_data: Some(
                            Box::new(
                                PrivateData {
                                    array: Array::Dictionary(
                                        crate::dictionary::AnyDictionary::S32(d),
                                    ),
                                    variadic_buffer_sizes: Vec::new(),
                                },
                            ),
                        ),
                    };
                    proof {
                        reveal_with_fuel(crate::array::Array::cells, 3);
                        reveal_with_fuel(crate::array::Array::ok, 3);
                        reveal_with_fuel(crate::array::Array::spec_export_ready, 3);
                        assert(crate::import::data_buffer_ok::<i32>(t, 1, t.offset + t.length));
                        let dk = (match asnap {
                            Array::Dictionary(crate::dictionary::AnyDictionary::S32(x)) => x,
                            _ => arbitrary(),
                        });
                        lemma_valids_match(t, avalids, dk.keys.validity);
                        assert(window_ints(t, 1) =~= dk.keys.ints());
                        assert(tree_valids(t) =~= dk.keys.valids());
                        if dk.keys.spec_null_count() == dk.keys.length {
                            assert(crate::bitmap::count_false(tree_valids(t)) == t.length);
                        } else {
                            assert(dk.keys_in_bounds());
                            assert forall|i: int| 0 <= i < t.length implies 0 <= (
                            #[trigger] window_ints(t, 1)[i]) < (pt.length as int) by {
                                assert(window_ints(t, 1)[i] == dk.keys.ints()[i]);
                            }
                        }
                        assert(tree_ok(t, adt));
                        assert(tree_cells(t, adt) == crate::dictionary::dict_resolve(
                            window_ints(t, 1),
                            tree_valids(t),
                            t.length as nat,
                            tree_cells(*t.dictionary.unwrap(), dk.values.spec_dtype()),
                        ));
                        assert forall|i: int| 0 <= i < t.length implies tree_cells(t, adt)[i]
                            =~~= acells[i] by {
                            assert(acells[i] == crate::dictionary::dict_resolve(
                                dk.keys.ints(),
                                dk.keys.valids(),
                                dk.keys.length as nat,
                                dk.values.cells(),
                            )[i]);
                            assert(tree_cells(*t.dictionary.unwrap(), dk.values.spec_dtype())
                                =~~= dk.values.cells());
                        }
                        assert(tree_cells(t, adt) =~~= acells);
                        assert(armed_count(t) == 1 + armed_count(pt)) by {
                        reveal_with_fuel(crate::abi::armed_count, 2);
                        reveal_with_fuel(crate::abi::armed_kids, 3);
                    }
                    }
                    t
                },
                crate::dictionary::AnyDictionary::S64(d) => {
                    proof {
                        reveal_with_fuel(crate::array::Array::ok, 3);
                        reveal_with_fuel(crate::array::Array::spec_export_ready, 3);
                        assert(d.keys.wf());
                        assert(d.keys.export_ready());
                    }
                    let bufs = prim_buffers(&d.keys);
                    let poolclone = clone_array(&d.values);
                    proof {
                        assert(arr_nodes(poolclone) < anodes);
                    }
                    let pt = ArrowArray::new(poolclone);
                    let t = ArrowArray {
                        length: len as i64,
                        null_count: null_count as i64,
                        offset: d.keys.offset as i64,
                        n_buffers: 2,
                        n_children: 0,
                        buffers: Some(bufs),
                        children: Some(Vec::new()),
                        dictionary: Some(Box::new(pt)),
                        release: true,
                        private_data: Some(
                            Box::new(
                                PrivateData {
                                    array: Array::Dictionary(
                                        crate::dictionary::AnyDictionary::S64(d),
                                    ),
                                    variadic_buffer_sizes: Vec::new(),
                                },
                            ),
                        ),
                    };
                    proof {
                        reveal_with_fuel(crate::array::Array::cells, 3);
                        reveal_with_fuel(crate::array::Array::ok, 3);
                        reveal_with_fuel(crate::array::Array::spec_export_ready, 3);
                        assert(crate::import::data_buffer_ok::<i64>(t, 1, t.offset + t.length));
                        let dk = (match asnap {
                            Array::Dictionary(crate::dictionary::AnyDictionary::S64(x)) => x,
                            _ => arbitrary(),
                        });
                        lemma_valids_match(t, avalids, dk.keys.validity);
                        assert(window_ints(t, 1) =~= dk.keys.ints());
                        assert(tree_valids(t) =~= dk.keys.valids());
                        if dk.keys.spec_null_count() == dk.keys.length {
                            assert(crate::bitmap::count_false(tree_valids(t)) == t.length);
                        } else {
                            assert(dk.keys_in_bounds());
                            assert forall|i: int| 0 <= i < t.length implies 0 <= (
                            #[trigger] window_ints(t, 1)[i]) < (pt.length as int) by {
                                assert(window_ints(t, 1)[i] == dk.keys.ints()[i]);
                            }
                        }
                        assert(tree_ok(t, adt));
                        assert(tree_cells(t, adt) == crate::dictionary::dict_resolve(
                            window_ints(t, 1),
                            tree_valids(t),
                            t.length as nat,
                            tree_cells(*t.dictionary.unwrap(), dk.values.spec_dtype()),
                        ));
                        assert forall|i: int| 0 <= i < t.length implies tree_cells(t, adt)[i]
                            =~~= acells[i] by {
                            assert(acells[i] == crate::dictionary::dict_resolve(
                                dk.keys.ints(),
                                dk.keys.valids(),
                                dk.keys.length as nat,
                                dk.values.cells(),
                            )[i]);
                            assert(tree_cells(*t.dictionary.unwrap(), dk.values.spec_dtype())
                                =~~= dk.values.cells());
                        }
                        assert(tree_cells(t, adt) =~~= acells);
                        assert(armed_count(t) == 1 + armed_count(pt)) by {
                        reveal_with_fuel(crate::abi::armed_count, 2);
                        reveal_with_fuel(crate::abi::armed_kids, 3);
                    }
                    }
                    t
                },
            
    }
}


/// One export arm, split out of the main constructor.
#[verifier::rlimit(100)]
fn export_boolean(
    b: crate::array::BooleanArray,
    len: usize,
    null_count: usize,
    Ghost(asnap): Ghost<Array>,
    Ghost(adt): Ghost<crate::dtype::DataType>,
    Ghost(acells): Ghost<Seq<crate::array::Cell>>,
    Ghost(avalids): Ghost<Seq<bool>>,
) -> (t: ArrowArray)
    requires
        b.wf(),
        b.export_ready(),
        asnap == Array::Boolean(b),
        asnap.ok(),
        asnap.spec_export_ready(),
        len as nat == b.values.length as nat,
        null_count == crate::bitmap::count_false(b.valids()),
        null_count <= len,
        adt == asnap.spec_dtype(),
        acells == asnap.cells(),
        avalids == asnap.valids(),
    ensures
        tree_ok(t, adt),
        tree_cells(t, adt) =~~= acells,
        tree_valids(t) =~= avalids,
        t.length as int == len as int,
        t.null_count as int == null_count as int,
        t.offset as int == asnap.spec_offset(),
        t.n_buffers as int == asnap.spec_n_buffers(),
        t.n_children as int == asnap.spec_n_children(),
        (t.dictionary is Some) <==> (asnap is Dictionary),
        (match asnap {
            Array::BinView(va0) => forall|j: int|
                0 <= j < va0.data_buffers@.len() ==> (#[trigger] crate::import::tree_variadic_lens(
                    t,
                )[j]) == va0.bufs()[j].len(),
            _ => true,
        }),
        t.release,
        t.private_data is Some,
        armed_count(t) == arr_nodes(asnap),
{
    let ghost anodes = arr_nodes(asnap);

                let v0 = export_validity(&b.validity);
                let need = crate::bitmap::bytes_for(b.values.offset + b.values.length);
                let vbytes = copy_prefix(&b.values.bytes, need);
                let v1 = Some(ForeignBuffer { addr: 0, data: BufferData::U8(vbytes) });
                let mut bufs: Vec<Option<ForeignBuffer>> = Vec::new();
                bufs.push(v0);
                bufs.push(v1);
                let t = ArrowArray {
                    length: len as i64,
                    null_count: null_count as i64,
                    offset: b.values.offset as i64,
                    n_buffers: 2,
                    n_children: 0,
                    buffers: Some(bufs),
                    children: Some(Vec::new()),
                    dictionary: None,
                    release: true,
                    private_data: Some(
                        Box::new(
                            PrivateData {
                                array: Array::Boolean(b),
                                variadic_buffer_sizes: Vec::new(),
                            },
                        ),
                    ),
                };
                proof {
                    let bk = (match asnap {
                        Array::Boolean(x) => x,
                        _ => arbitrary(),
                    });
                    lemma_valids_match(t, avalids, bk.validity);
                    assert forall|i: int| 0 <= i < t.length implies crate::import::tree_bits(t)[i]
                        == bk.values.view()[i] by {
                        assert(crate::import::tree_bytes(t, 1)[(bk.values.offset + i) / 8]
                            == bk.values.bytes@[(bk.values.offset + i) / 8]);
                    }
                    assert(crate::import::boolean_ok(t));
                    assert(tree_ok(t, adt));
                    assert forall|i: int| 0 <= i < t.length implies tree_cells(t, adt)[i]
                        == acells[i] by {
                        assert(tree_valids(t)[i] == bk.valids()[i]);
                        assert(crate::import::tree_bits(t)[i] == bk.values.view()[i]);
                    }
                    assert(tree_cells(t, adt) =~~= acells);
                    assert(armed_count(t) == 1) by {
                        reveal_with_fuel(crate::abi::armed_count, 2);
                        reveal_with_fuel(crate::abi::armed_kids, 2);
                    }
                }
                t

}

/// One export arm, split out of the main constructor.
#[verifier::rlimit(100)]
fn export_fixed_binary(
    fa: crate::fixed::FixedSizeBinaryArray,
    len: usize,
    null_count: usize,
    Ghost(asnap): Ghost<Array>,
    Ghost(adt): Ghost<crate::dtype::DataType>,
    Ghost(acells): Ghost<Seq<crate::array::Cell>>,
    Ghost(avalids): Ghost<Seq<bool>>,
) -> (t: ArrowArray)
    requires
        fa.wf(),
        fa.export_ready(),
        asnap == Array::FixedSizeBinary(fa),
        asnap.ok(),
        asnap.spec_export_ready(),
        len as nat == fa.length as nat,
        null_count == crate::bitmap::count_false(fa.valids()),
        null_count <= len,
        adt == asnap.spec_dtype(),
        acells == asnap.cells(),
        avalids == asnap.valids(),
    ensures
        tree_ok(t, adt),
        tree_cells(t, adt) =~~= acells,
        tree_valids(t) =~= avalids,
        t.length as int == len as int,
        t.null_count as int == null_count as int,
        t.offset as int == asnap.spec_offset(),
        t.n_buffers as int == asnap.spec_n_buffers(),
        t.n_children as int == asnap.spec_n_children(),
        (t.dictionary is Some) <==> (asnap is Dictionary),
        (match asnap {
            Array::BinView(va0) => forall|j: int|
                0 <= j < va0.data_buffers@.len() ==> (#[trigger] crate::import::tree_variadic_lens(
                    t,
                )[j]) == va0.bufs()[j].len(),
            _ => true,
        }),
        t.release,
        t.private_data is Some,
        armed_count(t) == arr_nodes(asnap),
{
    let ghost anodes = arr_nodes(asnap);

                let v0 = export_validity(&fa.validity);
                let size = match &fa.dtype {
                    crate::dtype::DataType::FixedSizeBinary(s) => *s,
                    _ => 0,
                };
                proof {
                    crate::vecs::lemma_vec_len_bound(&fa.data);
                }
                let total = size * (fa.offset + fa.length);
                let dbytes = copy_prefix(&fa.data, total);
                let v1 = Some(ForeignBuffer { addr: 0, data: BufferData::U8(dbytes) });
                let mut bufs: Vec<Option<ForeignBuffer>> = Vec::new();
                bufs.push(v0);
                bufs.push(v1);
                let t = ArrowArray {
                    length: len as i64,
                    null_count: null_count as i64,
                    offset: fa.offset as i64,
                    n_buffers: 2,
                    n_children: 0,
                    buffers: Some(bufs),
                    children: Some(Vec::new()),
                    dictionary: None,
                    release: true,
                    private_data: Some(
                        Box::new(
                            PrivateData {
                                array: Array::FixedSizeBinary(fa),
                                variadic_buffer_sizes: Vec::new(),
                            },
                        ),
                    ),
                };
                proof {
                    let fk = (match asnap {
                        Array::FixedSizeBinary(x) => x,
                        _ => arbitrary(),
                    });
                    lemma_valids_match(t, avalids, fk.validity);
                    assert(crate::import::fixed_binary_ok(t, size as int));
                    assert(tree_ok(t, adt));
                    assert forall|i: int| 0 <= i < t.length implies tree_cells(t, adt)[i]
                        =~~= acells[i] by {
                        assert(tree_valids(t)[i] == fk.valids()[i]);
                        assert(size * (t.offset + i) <= size * (t.offset + i + 1) <= size * (
                        t.offset + t.length)) by (nonlinear_arith)
                            requires
                                0 <= i < t.length,
                                size >= 0,
                                0 <= t.offset,
                        ;
                        assert(crate::import::tree_fixed_strings(t, size as int)[i]
                            =~= fk.bytes_at(i));
                    }
                    assert(tree_cells(t, adt) =~~= acells);
                    assert(armed_count(t) == 1) by {
                        reveal_with_fuel(crate::abi::armed_count, 2);
                        reveal_with_fuel(crate::abi::armed_kids, 2);
                    }
                }
                t

}

/// One export arm, split out of the main constructor.
#[verifier::rlimit(100)]
fn export_list32(
    la: crate::list::ListArray<i32>,
    len: usize,
    null_count: usize,
    Ghost(asnap): Ghost<Array>,
    Ghost(adt): Ghost<crate::dtype::DataType>,
    Ghost(acells): Ghost<Seq<crate::array::Cell>>,
    Ghost(avalids): Ghost<Seq<bool>>,
) -> (t: ArrowArray)
    requires
        la.wf(),
        la.export_ready(),
        asnap == Array::List(la),
        asnap.ok(),
        asnap.spec_export_ready(),
        len as nat == la.length as nat,
        null_count == crate::bitmap::count_false(la.valids()),
        null_count <= len,
        adt == asnap.spec_dtype(),
        acells == asnap.cells(),
        avalids == asnap.valids(),
    ensures
        tree_ok(t, adt),
        tree_cells(t, adt) =~~= acells,
        tree_valids(t) =~= avalids,
        t.length as int == len as int,
        t.null_count as int == null_count as int,
        t.offset as int == asnap.spec_offset(),
        t.n_buffers as int == asnap.spec_n_buffers(),
        t.n_children as int == asnap.spec_n_children(),
        (t.dictionary is Some) <==> (asnap is Dictionary),
        (match asnap {
            Array::BinView(va0) => forall|j: int|
                0 <= j < va0.data_buffers@.len() ==> (#[trigger] crate::import::tree_variadic_lens(
                    t,
                )[j]) == va0.bufs()[j].len(),
            _ => true,
        }),
        t.release,
        t.private_data is Some,
        armed_count(t) == arr_nodes(asnap),
    decreases arr_nodes(asnap), 0nat,
{
    let ghost anodes = arr_nodes(asnap);

                let v0 = export_validity(&la.validity);
                let offs = offsets_buffer::<i32>(&la.offsets, la.offset, la.length);
                let childclone = clone_array(&la.child);
                proof {
                    assert(arr_nodes(childclone) < anodes);
                }
                let ct = ArrowArray::new(childclone);
                let mut bufs: Vec<Option<ForeignBuffer>> = Vec::new();
                bufs.push(v0);
                bufs.push(Some(offs));
                let mut kids: Vec<Option<Box<ArrowArray>>> = Vec::new();
                kids.push(Some(Box::new(ct)));
                let t = ArrowArray {
                    length: len as i64,
                    null_count: null_count as i64,
                    offset: la.offset as i64,
                    n_buffers: 2,
                    n_children: 1,
                    buffers: Some(bufs),
                    children: Some(kids),
                    dictionary: None,
                    release: true,
                    private_data: Some(
                        Box::new(
                            PrivateData {
                                array: Array::List(la),
                                variadic_buffer_sizes: Vec::new(),
                            },
                        ),
                    ),
                };
                proof {
                    let lk = (match asnap {
                        Array::List(x) => x,
                        _ => arbitrary(),
                    });
                    let ints1 = the_buffer(t, 1).data.ints();
                    lemma_valids_match(t, avalids, lk.validity);
                    assert forall|i: int| 0 <= i <= t.offset + t.length implies 0 <= (
                    #[trigger] ints1[i]) by {
                        assert(ints1[i] == lk.offsets@[i].as_int());
                    }
                    assert forall|i: int| 0 <= i < t.offset + t.length implies (
                    #[trigger] ints1[i]) <= ints1[i + 1] by {
                        assert(ints1[i] == lk.offsets@[i].as_int());
                        assert(ints1[i + 1] == lk.offsets@[i + 1].as_int());
                    }
                    crate::varbin::lemma_offsets_mono(
                        lk.offsets@,
                        lk.offset + lk.length,
                        lk.offsets@.len() - 1,
                    );
                    assert(ints1[t.offset + t.length] <= lk.child.spec_len());
                    assert(crate::import::offsets_buffer_ok::<i32>(t, 1));
                    assert(tree_ok(t, adt));
                    let cc = tree_cells(*t.children.unwrap()@[0].unwrap(), lk.child.spec_dtype());
                    assert(cc =~~= lk.child.cells());
                    assert forall|i: int| 0 <= i < t.length implies tree_cells(t, adt)[i]
                        =~~= acells[i] by {
                        assert(tree_valids(t)[i] == lk.valids()[i]);
                        assert(ints1[t.offset + i] == lk.bound(i));
                        assert(ints1[t.offset + i + 1] == lk.bound(i + 1));
                    }
                    assert(tree_cells(t, adt) =~~= acells);
                    assert(armed_count(t) == 1 + armed_count(ct)) by {
                        reveal_with_fuel(crate::abi::armed_count, 2);
                        reveal_with_fuel(crate::abi::armed_kids, 3);
                        let ks = t.children.unwrap()@;
                        assert(*ks[0].unwrap() == ct);
                        assert(ks.drop_last() =~= Seq::<Option<Box<ArrowArray>>>::empty());
                        assert(crate::abi::armed_kids(ks.drop_last()) == 0);
                        assert(crate::abi::armed_kids(ks) == crate::abi::armed_count(ct));
                    }
                }
                t

}

/// One export arm, split out of the main constructor.
#[verifier::rlimit(100)]
fn export_map(
    la: crate::list::ListArray<i32>,
    len: usize,
    null_count: usize,
    Ghost(asnap): Ghost<Array>,
    Ghost(adt): Ghost<crate::dtype::DataType>,
    Ghost(acells): Ghost<Seq<crate::array::Cell>>,
    Ghost(avalids): Ghost<Seq<bool>>,
) -> (t: ArrowArray)
    requires
        la.wf(),
        la.export_ready(),
        asnap == Array::MapList(la),
        asnap.ok(),
        asnap.spec_export_ready(),
        len as nat == la.length as nat,
        null_count == crate::bitmap::count_false(la.valids()),
        null_count <= len,
        adt == asnap.spec_dtype(),
        acells == asnap.cells(),
        avalids == asnap.valids(),
    ensures
        tree_ok(t, adt),
        tree_cells(t, adt) =~~= acells,
        tree_valids(t) =~= avalids,
        t.length as int == len as int,
        t.null_count as int == null_count as int,
        t.offset as int == asnap.spec_offset(),
        t.n_buffers as int == asnap.spec_n_buffers(),
        t.n_children as int == asnap.spec_n_children(),
        (t.dictionary is Some) <==> (asnap is Dictionary),
        (match asnap {
            Array::BinView(va0) => forall|j: int|
                0 <= j < va0.data_buffers@.len() ==> (#[trigger] crate::import::tree_variadic_lens(
                    t,
                )[j]) == va0.bufs()[j].len(),
            _ => true,
        }),
        t.release,
        t.private_data is Some,
        armed_count(t) == arr_nodes(asnap),
    decreases arr_nodes(asnap), 0nat,
{
    let ghost anodes = arr_nodes(asnap);

                let v0 = export_validity(&la.validity);
                let offs = offsets_buffer::<i32>(&la.offsets, la.offset, la.length);
                let childclone = clone_array(&la.child);
                proof {
                    assert(arr_nodes(childclone) < anodes);
                }
                let ct = ArrowArray::new(childclone);
                let mut bufs: Vec<Option<ForeignBuffer>> = Vec::new();
                bufs.push(v0);
                bufs.push(Some(offs));
                let mut kids: Vec<Option<Box<ArrowArray>>> = Vec::new();
                kids.push(Some(Box::new(ct)));
                let t = ArrowArray {
                    length: len as i64,
                    null_count: null_count as i64,
                    offset: la.offset as i64,
                    n_buffers: 2,
                    n_children: 1,
                    buffers: Some(bufs),
                    children: Some(kids),
                    dictionary: None,
                    release: true,
                    private_data: Some(
                        Box::new(
                            PrivateData {
                                array: Array::MapList(la),
                                variadic_buffer_sizes: Vec::new(),
                            },
                        ),
                    ),
                };
                proof {
                    let lk = (match asnap {
                        Array::MapList(x) => x,
                        _ => arbitrary(),
                    });
                    let ints1 = the_buffer(t, 1).data.ints();
                    lemma_valids_match(t, avalids, lk.validity);
                    assert forall|i: int| 0 <= i <= t.offset + t.length implies 0 <= (
                    #[trigger] ints1[i]) by {
                        assert(ints1[i] == lk.offsets@[i].as_int());
                    }
                    assert forall|i: int| 0 <= i < t.offset + t.length implies (
                    #[trigger] ints1[i]) <= ints1[i + 1] by {
                        assert(ints1[i] == lk.offsets@[i].as_int());
                        assert(ints1[i + 1] == lk.offsets@[i + 1].as_int());
                    }
                    crate::varbin::lemma_offsets_mono(
                        lk.offsets@,
                        lk.offset + lk.length,
                        lk.offsets@.len() - 1,
                    );
                    assert(ints1[t.offset + t.length] <= lk.child.spec_len());
                    assert(crate::import::offsets_buffer_ok::<i32>(t, 1));
                    assert(tree_ok(t, adt));
                    let cc = tree_cells(*t.children.unwrap()@[0].unwrap(), lk.child.spec_dtype());
                    assert(cc =~~= lk.child.cells());
                    assert forall|i: int| 0 <= i < t.length implies tree_cells(t, adt)[i]
                        =~~= acells[i] by {
                        assert(tree_valids(t)[i] == lk.valids()[i]);
                        assert(ints1[t.offset + i] == lk.bound(i));
                        assert(ints1[t.offset + i + 1] == lk.bound(i + 1));
                    }
                    assert(tree_cells(t, adt) =~~= acells);
                    assert(armed_count(t) == 1 + armed_count(ct)) by {
                        reveal_with_fuel(crate::abi::armed_count, 2);
                        reveal_with_fuel(crate::abi::armed_kids, 3);
                        let ks = t.children.unwrap()@;
                        assert(*ks[0].unwrap() == ct);
                        assert(ks.drop_last() =~= Seq::<Option<Box<ArrowArray>>>::empty());
                        assert(crate::abi::armed_kids(ks.drop_last()) == 0);
                        assert(crate::abi::armed_kids(ks) == crate::abi::armed_count(ct));
                    }
                }
                t

}

/// One export arm, split out of the main constructor.
#[verifier::rlimit(100)]
fn export_list64(
    la: crate::list::ListArray<i64>,
    len: usize,
    null_count: usize,
    Ghost(asnap): Ghost<Array>,
    Ghost(adt): Ghost<crate::dtype::DataType>,
    Ghost(acells): Ghost<Seq<crate::array::Cell>>,
    Ghost(avalids): Ghost<Seq<bool>>,
) -> (t: ArrowArray)
    requires
        la.wf(),
        la.export_ready(),
        asnap == Array::LargeList(la),
        asnap.ok(),
        asnap.spec_export_ready(),
        len as nat == la.length as nat,
        null_count == crate::bitmap::count_false(la.valids()),
        null_count <= len,
        adt == asnap.spec_dtype(),
        acells == asnap.cells(),
        avalids == asnap.valids(),
    ensures
        tree_ok(t, adt),
        tree_cells(t, adt) =~~= acells,
        tree_valids(t) =~= avalids,
        t.length as int == len as int,
        t.null_count as int == null_count as int,
        t.offset as int == asnap.spec_offset(),
        t.n_buffers as int == asnap.spec_n_buffers(),
        t.n_children as int == asnap.spec_n_children(),
        (t.dictionary is Some) <==> (asnap is Dictionary),
        (match asnap {
            Array::BinView(va0) => forall|j: int|
                0 <= j < va0.data_buffers@.len() ==> (#[trigger] crate::import::tree_variadic_lens(
                    t,
                )[j]) == va0.bufs()[j].len(),
            _ => true,
        }),
        t.release,
        t.private_data is Some,
        armed_count(t) == arr_nodes(asnap),
    decreases arr_nodes(asnap), 0nat,
{
    let ghost anodes = arr_nodes(asnap);

                let v0 = export_validity(&la.validity);
                let offs = offsets_buffer::<i64>(&la.offsets, la.offset, la.length);
                let childclone = clone_array(&la.child);
                proof {
                    assert(arr_nodes(childclone) < anodes);
                }
                let ct = ArrowArray::new(childclone);
                let mut bufs: Vec<Option<ForeignBuffer>> = Vec::new();
                bufs.push(v0);
                bufs.push(Some(offs));
                let mut kids: Vec<Option<Box<ArrowArray>>> = Vec::new();
                kids.push(Some(Box::new(ct)));
                let t = ArrowArray {
                    length: len as i64,
                    null_count: null_count as i64,
                    offset: la.offset as i64,
                    n_buffers: 2,
                    n_children: 1,
                    buffers: Some(bufs),
                    children: Some(kids),
                    dictionary: None,
                    release: true,
                    private_data: Some(
                        Box::new(
                            PrivateData {
                                array: Array::LargeList(la),
                                variadic_buffer_sizes: Vec::new(),
                            },
                        ),
                    ),
                };
                proof {
                    let lk = (match asnap {
                        Array::LargeList(x) => x,
                        _ => arbitrary(),
                    });
                    let ints1 = the_buffer(t, 1).data.ints();
                    lemma_valids_match(t, avalids, lk.validity);
                    assert forall|i: int| 0 <= i <= t.offset + t.length implies 0 <= (
                    #[trigger] ints1[i]) by {
                        assert(ints1[i] == lk.offsets@[i].as_int());
                    }
                    assert forall|i: int| 0 <= i < t.offset + t.length implies (
                    #[trigger] ints1[i]) <= ints1[i + 1] by {
                        assert(ints1[i] == lk.offsets@[i].as_int());
                        assert(ints1[i + 1] == lk.offsets@[i + 1].as_int());
                    }
                    crate::varbin::lemma_offsets_mono(
                        lk.offsets@,
                        lk.offset + lk.length,
                        lk.offsets@.len() - 1,
                    );
                    assert(ints1[t.offset + t.length] <= lk.child.spec_len());
                    assert(crate::import::offsets_buffer_ok::<i64>(t, 1));
                    assert(tree_ok(t, adt));
                    let cc = tree_cells(*t.children.unwrap()@[0].unwrap(), lk.child.spec_dtype());
                    assert(cc =~~= lk.child.cells());
                    assert forall|i: int| 0 <= i < t.length implies tree_cells(t, adt)[i]
                        =~~= acells[i] by {
                        assert(tree_valids(t)[i] == lk.valids()[i]);
                        assert(ints1[t.offset + i] == lk.bound(i));
                        assert(ints1[t.offset + i + 1] == lk.bound(i + 1));
                    }
                    assert(tree_cells(t, adt) =~~= acells);
                    assert(armed_count(t) == 1 + armed_count(ct)) by {
                        reveal_with_fuel(crate::abi::armed_count, 2);
                        reveal_with_fuel(crate::abi::armed_kids, 3);
                        let ks = t.children.unwrap()@;
                        assert(*ks[0].unwrap() == ct);
                        assert(ks.drop_last() =~= Seq::<Option<Box<ArrowArray>>>::empty());
                        assert(crate::abi::armed_kids(ks.drop_last()) == 0);
                        assert(crate::abi::armed_kids(ks) == crate::abi::armed_count(ct));
                    }
                }
                t

}

/// One export arm, split out of the main constructor.
#[verifier::rlimit(100)]
fn export_fixed_list(
    fa: crate::fixed::FixedSizeListArray,
    len: usize,
    null_count: usize,
    Ghost(asnap): Ghost<Array>,
    Ghost(adt): Ghost<crate::dtype::DataType>,
    Ghost(acells): Ghost<Seq<crate::array::Cell>>,
    Ghost(avalids): Ghost<Seq<bool>>,
) -> (t: ArrowArray)
    requires
        fa.wf(),
        fa.export_ready(),
        asnap == Array::FixedSizeList(fa),
        asnap.ok(),
        asnap.spec_export_ready(),
        len as nat == fa.length as nat,
        null_count == crate::bitmap::count_false(fa.valids()),
        null_count <= len,
        adt == asnap.spec_dtype(),
        acells == asnap.cells(),
        avalids == asnap.valids(),
    ensures
        tree_ok(t, adt),
        tree_cells(t, adt) =~~= acells,
        tree_valids(t) =~= avalids,
        t.length as int == len as int,
        t.null_count as int == null_count as int,
        t.offset as int == asnap.spec_offset(),
        t.n_buffers as int == asnap.spec_n_buffers(),
        t.n_children as int == asnap.spec_n_children(),
        (t.dictionary is Some) <==> (asnap is Dictionary),
        (match asnap {
            Array::BinView(va0) => forall|j: int|
                0 <= j < va0.data_buffers@.len() ==> (#[trigger] crate::import::tree_variadic_lens(
                    t,
                )[j]) == va0.bufs()[j].len(),
            _ => true,
        }),
        t.release,
        t.private_data is Some,
        armed_count(t) == arr_nodes(asnap),
    decreases arr_nodes(asnap), 0nat,
{
    let ghost anodes = arr_nodes(asnap);

                let v0 = export_validity(&fa.validity);
                let size = match &fa.dtype {
                    crate::dtype::DataType::FixedSizeList(_, s) => *s,
                    _ => 0,
                };
                let childclone = clone_array(&fa.child);
                proof {
                    assert(arr_nodes(childclone) < anodes);
                }
                let ct = ArrowArray::new(childclone);
                let mut bufs: Vec<Option<ForeignBuffer>> = Vec::new();
                bufs.push(v0);
                let mut kids: Vec<Option<Box<ArrowArray>>> = Vec::new();
                kids.push(Some(Box::new(ct)));
                let t = ArrowArray {
                    length: len as i64,
                    null_count: null_count as i64,
                    offset: fa.offset as i64,
                    n_buffers: 1,
                    n_children: 1,
                    buffers: Some(bufs),
                    children: Some(kids),
                    dictionary: None,
                    release: true,
                    private_data: Some(
                        Box::new(
                            PrivateData {
                                array: Array::FixedSizeList(fa),
                                variadic_buffer_sizes: Vec::new(),
                            },
                        ),
                    ),
                };
                proof {
                    let fk = (match asnap {
                        Array::FixedSizeList(x) => x,
                        _ => arbitrary(),
                    });
                    lemma_valids_match(t, avalids, fk.validity);
                    assert(tree_ok(t, adt));
                    let cc = tree_cells(*t.children.unwrap()@[0].unwrap(), fk.child.spec_dtype());
                    assert(cc =~~= fk.child.cells());
                    assert forall|i: int| 0 <= i < t.length implies tree_cells(t, adt)[i]
                        =~~= acells[i] by {
                        assert(tree_valids(t)[i] == fk.valids()[i]);
                    }
                    assert(tree_cells(t, adt) =~~= acells);
                    assert(armed_count(t) == 1 + armed_count(*t.children.unwrap()@[0].unwrap())) by {
                        reveal_with_fuel(crate::abi::armed_count, 2);
                        reveal_with_fuel(crate::abi::armed_kids, 3);
                        let ks = t.children.unwrap()@;
                        assert(ks.drop_last() =~= Seq::<Option<Box<ArrowArray>>>::empty());
                        assert(crate::abi::armed_kids(ks.drop_last()) == 0);
                    }
                }
                t

}


/// Exporting a native array and importing the struct back yields an
/// array of the same descriptor, length, null count and content,
/// whatever the physical type; the struct is then released exactly
/// once. This is the round-trip guarantee of the bridge.
pub fn round_trip(a: Array) -> (r: Result<Array, crate::error::ArrowError>)
    requires
        a.ok(),
        a.spec_export_ready(),
    ensures
        r is Ok,
        r matches Ok(b) ==> {
            &&& b.ok()
            &&& b.spec_dtype() == a.spec_dtype()
            &&& b.spec_len() == a.spec_len()
            &&& b.valids() =~= a.valids()
            &&& b.cells() =~~= a.cells()
            &&& b.spec_null_count() == a.spec_null_count()
        },
{
    proof {
        crate::array::lemma_ok_dtype_wf(a);
    }
    let dt = crate::dtype::dtype_clone(a.dtype());
    let ghost asnap = a;
    let mut t = ArrowArray::new(a);
    let out = crate::import::import_node(&t, &dt);
    let released = t.release();
    proof {
        assert(released >= 1);
        let ghost osnap = out;
        match osnap {
            Ok(b) => {
                if asnap.spec_dtype() is Null {
                    match asnap {
                        Array::Null(nn) => {
                            assert(asnap.valids() =~= Seq::new(
                                nn.length as nat,
                                |i: int| false,
                            ));
                            assert(b.valids() =~= asnap.valids());
                        },
                        _ => {
                            reveal_with_fuel(crate::array::Array::ok, 3);
                            assert(asnap.ok());
                            assert(false);
                        },
                    }
                } else {
                    assert(b.valids() =~= asnap.valids());
                }
                assert(crate::bitmap::count_false(b.valids()) == crate::bitmap::count_false(
                    asnap.valids(),
                ));
            },
            Err(_) => {
                assert(false);
            },
        }
    }
    out
}

} // verus!
