//! The collector: owner of every heap-boxed payload, addressed by opaque
//! handles. A handle is an index into the slot table plus nothing else; a
//! released slot stays empty, so a use after a drop is a detectable error,
//! never stale memory. Slot indices are handed out monotonically and are
//! never reused, so no live handle can ever be re-bound to a new payload.

use vstd::prelude::*;
use vstd::string::StringExecFns;

use crate::error::{RuntimeError, RuntimeErrorTy};

verus! {

/// A capability token naming one slot of the collector's storage.
#[derive(Clone, Copy, Debug, PartialEq, Eq, Structural)]
pub struct AllocId(pub usize);

/// A heap-boxed payload: a string, or an arbitrary-precision integer held as
/// its base-2^32 digits, least significant first (an empty digit vector is
/// zero; `Int`'s flag is true when the value is negative).
#[derive(Debug)]
pub enum HeapValue {
    Str(String),
    Uint(Vec<u32>),
    Int(bool, Vec<u32>),
}

/// The mathematical shape of a boxed payload.
pub enum HeapModel {
    Str(Seq<char>),
    Uint(Seq<u32>),
    Int(bool, Seq<u32>),
}

impl View for HeapValue {
    type V = HeapModel;

    open spec fn view(&self) -> HeapModel {
        match self {
            HeapValue::Str(s) => HeapModel::Str(s@),
            HeapValue::Uint(d) => HeapModel::Uint(d@),
            HeapValue::Int(neg, d) => HeapModel::Int(*neg, d@),
        }
    }
}

impl HeapValue {
    /// A structural copy: the copy's model is the original's.
    pub fn duplicate(&self) -> (r: HeapValue)
        ensures
            r@ == self@,
    {
        match self {
            HeapValue::Str(s) => HeapValue::Str(s.clone()),
            HeapValue::Uint(d) => HeapValue::Uint(d.clone()),
            HeapValue::Int(neg, d) => HeapValue::Int(*neg, d.clone()),
        }
    }
}

/// True when the handle names a slot that currently holds a payload.
pub open spec fn gc_live(heap: Seq<Option<HeapModel>>, id: AllocId) -> bool {
    id.0 < heap.len() && heap[id.0 as int] is Some
}

/// What a fetch of the handle observes: the payload of a live slot, nothing
/// of a released or never-allocated one.
pub open spec fn fetch_model(heap: Seq<Option<HeapModel>>, id: AllocId) -> Option<HeapModel> {
    if gc_live(heap, id) {
        heap[id.0 as int]
    } else {
        None
    }
}

/// What releasing the handle leaves behind: the same table with that one
/// slot emptied.
pub open spec fn drop_model(heap: Seq<Option<HeapModel>>, id: AllocId) -> Seq<Option<HeapModel>> {
    heap.update(id.0 as int, None)
}

/// True when some handle in the root list names slot `i`.
pub open spec fn roots_name_slot(roots: Seq<AllocId>, i: int) -> bool {
    exists|k: int| 0 <= k < roots.len() && roots[k].0 == i
}

/// The collector. It owns all boxed payloads; the rest of the runtime holds
/// only handles.
pub struct Gc {
    slots: Vec<Option<HeapValue>>,
}

impl View for Gc {
    type V = Seq<Option<HeapModel>>;

    closed spec fn view(&self) -> Seq<Option<HeapModel>> {
        Seq::new(
            self.slots@.len(),
            |i: int|
                match self.slots@[i] {
                    Some(h) => Some(h@),
                    None => None,
                },
        )
    }
}

impl Gc {
    /// A collector with no slots.
    pub fn new() -> (g: Gc)
        ensures
            g@ =~= Seq::<Option<HeapModel>>::empty(),
    {
        Gc { slots: Vec::new() }
    }

    /// Allocates a fresh slot holding the payload and returns its handle.
    /// The handle is new: it names the slot one past every earlier one.
    /// Fails with an allocation error only when the slot table cannot grow.
    pub fn allocate(&mut self, payload: HeapValue) -> (r: Result<AllocId, RuntimeError>)
        ensures
            match r {
                Ok(id) => {
                    &&& old(self)@.len() < usize::MAX
                    &&& final(self)@ =~= old(self)@.push(Some(payload@))
                    &&& id.0 == old(self)@.len()
                },
                Err(e) => {
                    &&& final(self)@ == old(self)@
                    &&& e.ty == RuntimeErrorTy::AllocationError
                    &&& old(self)@.len() == usize::MAX
                },
            },
    {
        if self.slots.len() == usize::MAX {
            Err(RuntimeError::new(
                RuntimeErrorTy::AllocationError,
                String::from_str("the heap cannot grow any further"),
            ))
        } else {
            let id = AllocId(self.slots.len());
            self.slots.push(Some(payload));
            Ok(id)
        }
    }

    /// Copies the payload out of a live slot. A released or never-allocated
    /// handle is reported as invalid; the old payload is never returned.
    pub fn fetch(&self, id: AllocId) -> (r: Result<HeapValue, RuntimeError>)
        ensures
            match r {
                Ok(v) => fetch_model(self@, id) == Some(v@),
                Err(e) => {
                    &&& fetch_model(self@, id) is None
                    &&& e.ty == RuntimeErrorTy::InvalidHandle
                },
            },
    {
        if id.0 < self.slots.len() {
            match &self.slots[id.0] {
                Some(payload) => Ok(payload.duplicate()),
                None => Err(RuntimeError::new(
                    RuntimeErrorTy::InvalidHandle,
                    String::from_str("fetch through a released handle"),
                )),
            }
        } else {
            Err(RuntimeError::new(
                RuntimeErrorTy::InvalidHandle,
                String::from_str("fetch through an unknown handle"),
            ))
        }
    }

    /// Releases the slot the handle names. Afterwards the slot is empty;
    /// releasing an already-released or unknown handle is invalid.
    pub fn drop(&mut self, id: AllocId) -> (r: Result<(), RuntimeError>)
        ensures
            match r {
                Ok(()) => {
                    &&& gc_live(old(self)@, id)
                    &&& final(self)@ =~= drop_model(old(self)@, id)
                },
                Err(e) => {
                    &&& !gc_live(old(self)@, id)
                    &&& final(self)@ == old(self)@
                    &&& e.ty == RuntimeErrorTy::InvalidHandle
                },
            },
    {
        if id.0 < self.slots.len() {
            let is_live = self.slots[id.0].is_some();
            if is_live {
                self.slots.set(id.0, None);
                Ok(())
            } else {
                Err(RuntimeError::new(
                    RuntimeErrorTy::InvalidHandle,
                    String::from_str("drop through a released handle"),
                ))
            }
        } else {
            Err(RuntimeError::new(
                RuntimeErrorTy::InvalidHandle,
                String::from_str("drop through an unknown handle"),
            ))
        }
    }

    /// The sweep: empties every slot that no root handle names, and leaves
    /// the slots the roots name exactly as they were. The slot count is
    /// unchanged, so surviving handles keep their meaning.
    pub fn collect(&mut self, roots: &Vec<AllocId>)
        ensures
            final(self)@.len() == old(self)@.len(),
            forall|i: int|
                0 <= i < old(self)@.len() ==> final(self)@[i] == (if roots_name_slot(
                    roots@,
                    i,
                ) {
                    old(self)@[i]
                } else {
                    None::<HeapModel>
                }),
    {
        let mut i: usize = 0;
        let ghost orig = self@;
        while i < self.slots.len()
            invariant
                i <= self.slots@.len(),
                self@.len() == orig.len(),
                forall|j: int|
                    0 <= j < i ==> self@[j] == (if roots_name_slot(roots@, j) {
                        orig[j]
                    } else {
                        None::<HeapModel>
                    }),
                forall|j: int| i <= j < orig.len() ==> self@[j] == orig[j],
            decreases self.slots@.len() - i,
        {
            let mut named: bool = false;
            let mut k: usize = 0;
            while k < roots.len()
                invariant
                    k <= roots@.len(),
                    named == exists|m: int| 0 <= m < k && roots@[m].0 == i,
                decreases roots@.len() - k,
            {
                if roots[k].0 == i {
                    named = true;
                }
                k += 1;
            }
            if !named {
                let ghost pre = self@;
                self.slots.set(i, None);
                assert(self@ =~= pre.update(i as int, None));
            }
            i += 1;
        }
    }
}

/// Law: after a slot is released, a fetch through the same handle observes
/// nothing — it can only report an invalid handle, never the old payload.
pub proof fn lemma_fetch_after_drop(heap: Seq<Option<HeapModel>>, id: AllocId)
    requires
        id.0 < heap.len(),
    ensures
        fetch_model(drop_model(heap, id), id) is None,
{
}

} // verus!
