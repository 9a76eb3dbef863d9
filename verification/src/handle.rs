//! The import capability object: a view over "array-like with
//! buffers, children and a dictionary" shared by the root import and
//! every structurally derived child or dictionary view, all anchored
//! to one reference-counted ownership handle so the underlying struct
//! outlives every derived buffer.

use std::sync::Arc;

use vstd::prelude::*;

use crate::abi::ArrowArray;
use crate::array::Array;
use crate::bitmap::Bitmap;
use crate::dtype::DataType;
use crate::error::ArrowError;
use crate::import::{
    child_ok, import_node, the_child, tree_cells, tree_ok, tree_valids, validity_ok,
};

verus! {

/// A view over an interchange struct and its declared type, from
/// which the importer can read validity, buffers, children and the
/// dictionary.
pub trait ArrowArrayRef: Sized {
    /// The struct under this view.
    spec fn s_array(&self) -> ArrowArray;

    /// The declared type of this view.
    spec fn s_dtype(&self) -> DataType;

    /// The struct under this view.
    fn array(&self) -> (r: &ArrowArray)
        ensures
            *r == self.s_array(),
    ;

    /// The declared type of this view.
    fn dtype(&self) -> (r: &DataType)
        ensures
            *r == self.s_dtype(),
    ;

    /// The ownership handle that keeps the root struct alive.
    spec fn s_parent(&self) -> InternalArrowArray;

    /// The ownership handle that keeps the root struct alive.
    fn parent(&self) -> (r: &InternalArrowArray)
        ensures
            *r == self.s_parent(),
    ;

    /// The root ownership handle, shared (the reference count grows,
    /// nothing is copied).
    fn owner(&self) -> (r: InternalArrowArray)
        ensures
            r.s_array() == self.s_parent().s_array(),
    ;

    /// The declared buffer count as a machine index.
    fn n_buffers(&self) -> (r: usize)
        requires
            0 <= self.s_array().n_buffers <= usize::MAX,
        ensures
            r as int == self.s_array().n_buffers as int,
    ;

    /// The struct's element offset as a machine index.
    fn offset(&self) -> (r: usize)
        requires
            0 <= self.s_array().offset <= usize::MAX,
        ensures
            r as int == self.s_array().offset as int,
    ;

    /// The struct's element count as a machine index.
    fn length(&self) -> (r: usize)
        requires
            0 <= self.s_array().length <= usize::MAX,
        ensures
            r as int == self.s_array().length as int,
    ;
}

/// The root ownership handle of an import: the struct and its
/// declared type, reference counted so every derived child view can
/// anchor the same allocation.
pub struct InternalArrowArray {
    pub array: Arc<ArrowArray>,
    pub dtype: Arc<DataType>,
}

impl InternalArrowArray {
    /// The struct under this handle.
    pub open spec fn s_array(&self) -> ArrowArray {
        *self.array
    }

    /// The declared type of this handle.
    pub open spec fn s_dtype(&self) -> DataType {
        *self.dtype
    }

    /// Wraps a struct and its declared type as an import handle.
    pub fn new(array: ArrowArray, dtype: DataType) -> (r: Self)
        ensures
            r.s_array() == array,
            r.s_dtype() == dtype,
    {
        InternalArrowArray { array: Arc::new(array), dtype: Arc::new(dtype) }
    }

    /// A second handle to the same allocation (the reference count
    /// grows, nothing is copied).
    pub fn clone_handle(&self) -> (r: Self)
        ensures
            r.s_array() == self.s_array(),
            r.s_dtype() == self.s_dtype(),
    {
        InternalArrowArray { array: Arc::clone(&self.array), dtype: Arc::clone(&self.dtype) }
    }
}

impl ArrowArrayRef for InternalArrowArray {
    open spec fn s_array(&self) -> ArrowArray {
        *self.array
    }

    open spec fn s_dtype(&self) -> DataType {
        *self.dtype
    }

    open spec fn s_parent(&self) -> InternalArrowArray {
        *self
    }

    fn array(&self) -> (r: &ArrowArray) {
        &self.array
    }

    fn dtype(&self) -> (r: &DataType) {
        &self.dtype
    }

    fn parent(&self) -> (r: &InternalArrowArray) {
        self
    }

    fn owner(&self) -> (r: InternalArrowArray) {
        self.clone_handle()
    }

    fn n_buffers(&self) -> (r: usize) {
        self.array.n_buffers as usize
    }

    fn offset(&self) -> (r: usize) {
        self.array.offset as usize
    }

    fn length(&self) -> (r: usize) {
        self.array.length as usize
    }
}

/// A view over one child (or the dictionary) of a parent view: it
/// borrows the child struct and shares the parent's ownership handle,
/// so resolving a child creates no new release obligation.
pub struct ArrowArrayChild<'a> {
    pub array: &'a ArrowArray,
    pub dtype: DataType,
    pub parent: InternalArrowArray,
}

impl<'a> ArrowArrayChild<'a> {
    /// Wraps a borrowed child struct, its declared type and the
    /// shared ownership handle.
    pub fn new(array: &'a ArrowArray, dtype: DataType, parent: InternalArrowArray) -> (r: Self)
        ensures
            r.array == array,
            r.dtype == dtype,
            r.parent == parent,
    {
        ArrowArrayChild { array, dtype, parent }
    }
}

impl<'a> ArrowArrayRef for ArrowArrayChild<'a> {
    open spec fn s_array(&self) -> ArrowArray {
        *self.array
    }

    open spec fn s_dtype(&self) -> DataType {
        self.dtype
    }

    open spec fn s_parent(&self) -> InternalArrowArray {
        self.parent
    }

    fn array(&self) -> (r: &ArrowArray) {
        self.array
    }

    fn dtype(&self) -> (r: &DataType) {
        &self.dtype
    }

    fn parent(&self) -> (r: &InternalArrowArray) {
        &self.parent
    }

    fn owner(&self) -> (r: InternalArrowArray) {
        self.parent.clone_handle()
    }

    fn n_buffers(&self) -> (r: usize) {
        self.array.n_buffers as usize
    }

    fn offset(&self) -> (r: usize) {
        self.array.offset as usize
    }

    fn length(&self) -> (r: usize) {
        self.array.length as usize
    }
}

/// The validity bitmap of a view: absent when the struct declares no
/// nulls. The declared null count serves only as that presence flag;
/// counts read off the result come from its bits (see
/// `crate::import::has_validity` on this deviation).
pub fn validity_of<A: ArrowArrayRef>(a: &A) -> (r: Result<Option<Bitmap>, ArrowError>)
    requires
        crate::import::fields_ok(a.s_array()),
    ensures
        r is Ok <==> validity_ok(a.s_array()),
        r matches Ok(v) ==> match v {
            Some(b) => crate::import::has_validity(a.s_array()) && b.wf() && b.view()
                =~= tree_valids(a.s_array()),
            None => !crate::import::has_validity(a.s_array()),
        },
{
    let t = a.array();
    let offset = t.offset();
    let len = t.len();
    crate::import::import_validity(t, offset, len)
}

/// The child view at `index`: its declared type comes from the
/// parent type's own child rule, and it shares the parent's
/// ownership handle.
pub fn child_of<'a, A: ArrowArrayRef>(a: &'a A, index: usize) -> (r: Result<
    ArrowArrayChild<'a>,
    ArrowError,
>)
    requires
        crate::import::fields_ok(a.s_array()),
    ensures
        r is Ok <==> (index == 0 && crate::dtype::spec_get_child(a.s_dtype()) is Some && child_ok(
            a.s_array(),
            index as int,
        )),
        r matches Ok(c) ==> *c.array == the_child(a.s_array(), index as int) && Some(c.dtype)
            == crate::dtype::spec_get_child(a.s_dtype()) && c.parent.s_array()
            == a.s_parent().s_array(),
{
    let dtype = match crate::dtype::get_child(a.dtype(), index) {
        Ok(d) => d,
        Err(e) => {
            return Err(e);
        },
    };
    let arr = match crate::import::get_child_struct(a.array(), index) {
        Ok(c) => c,
        Err(e) => {
            return Err(e);
        },
    };
    Ok(ArrowArrayChild::new(arr, dtype, a.parent().clone_handle()))
}

/// The dictionary view of a dictionary-typed view: the struct's
/// dictionary pointer under the declared value type, sharing the
/// parent's ownership handle. A non-dictionary type has none.
pub fn dictionary_of<'a, A: ArrowArrayRef>(a: &'a A) -> (r: Result<
    Option<ArrowArrayChild<'a>>,
    ArrowError,
>)
    ensures
        r is Ok <==> !(a.s_dtype() is Dictionary) || a.s_array().dictionary is Some,
        r matches Ok(c) ==> match c {
            Some(ch) => a.s_dtype() is Dictionary && *ch.array
                == *a.s_array().dictionary.unwrap() && (match a.s_dtype() {
                DataType::Dictionary(_, inner, _) => ch.dtype == *inner,
                _ => false,
            }),
            None => !(a.s_dtype() is Dictionary),
        },
        r matches Err(e) ==> e == ArrowError::NullDictionary,
{
    match a.dtype() {
        DataType::Dictionary(_, inner, _) => {
            let dtype = crate::dtype::dtype_clone(inner);
            match &a.array().dictionary {
                None => Err(ArrowError::NullDictionary),
                Some(d) => Ok(Some(ArrowArrayChild::new(d, dtype, a.parent().clone_handle()))),
            }
        },
        _ => Ok(None),
    }
}

/// Reads a native array out of a view of a foreign struct tree: the
/// sole entry point of the import path. Succeeds exactly when the
/// tree is acceptable under the declared type, and the result's
/// content is exactly what the tree's buffers describe.
pub fn try_from<A: ArrowArrayRef>(array: &A) -> (r: Result<Array, ArrowError>)
    requires
        array.s_dtype().wf(),
    ensures
        r is Ok <==> tree_ok(array.s_array(), array.s_dtype()),
        r matches Ok(a) ==> {
            &&& a.ok()
            &&& a.spec_dtype() == array.s_dtype()
            &&& a.spec_len() as int == array.s_array().length as int
            &&& a.cells() =~~= tree_cells(array.s_array(), array.s_dtype())
            &&& (!(array.s_dtype() is Null) ==> a.valids() =~= tree_valids(array.s_array()))
            &&& ((array.s_dtype() is Null) ==> a.valids() =~= Seq::new(
                array.s_array().length as nat,
                |i: int| false,
            ))
        },
{
    import_node(array.array(), array.dtype())
}

} // verus!
