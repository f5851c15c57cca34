//! The interpreter state that Python object handles point into: which
//! addresses hold live objects, the reference count and the type of each of
//! them, the type hierarchy, and the pending-exception indicator.
use vstd::prelude::*;

verus! {

/// The null address.
pub const NULL: usize = 0;

/// The header of a live object: its reference count and the index of its type.
#[derive(Clone, Copy, Debug, PartialEq, Eq, Structural)]
pub struct ObjectState {
    pub refcnt: usize,
    pub type_id: usize,
}

/// The index of `object`, the root of the type hierarchy.
pub const OBJECT_TYPE: usize = 0;

/// `a` is `b` or derives from it, following the base of each type down to
/// the root.
pub open spec fn is_subtype(bases: Seq<Option<usize>>, a: usize, b: usize) -> bool
    decreases a,
{
    if a == b {
        true
    } else if a < bases.len() {
        match bases[a as int] {
            Some(p) => if p < a {
                is_subtype(bases, p, b)
            } else {
                false
            },
            None => false,
        }
    } else {
        false
    }
}

/// The object table after one more reference to `a` was taken.
pub open spec fn incref_model(objects: Map<usize, ObjectState>, a: usize) -> Map<usize, ObjectState> {
    objects.insert(a, ObjectState { refcnt: (objects[a].refcnt + 1) as usize, type_id: objects[a].type_id })
}

/// The object table after one reference to `a` was released: the object is
/// deallocated when that was its last reference.
pub open spec fn decref_model(objects: Map<usize, ObjectState>, a: usize) -> Map<usize, ObjectState> {
    if objects[a].refcnt <= 1 {
        objects.remove(a)
    } else {
        objects.insert(a, ObjectState { refcnt: (objects[a].refcnt - 1) as usize, type_id: objects[a].type_id })
    }
}

/// The interpreter's objects. The object at address `a` lives in slot `a - 1`;
/// a slot is emptied when its object is deallocated and addresses are never
/// reused.
pub struct ObjectTable {
    slots: Vec<Option<ObjectState>>,
    bases: Vec<Option<usize>>,
    error: Option<usize>,
}

impl ObjectTable {
    /// The live objects, by address.
    pub closed spec fn objects(&self) -> Map<usize, ObjectState> {
        Map::new(
            |a: usize| 1 <= a <= self.slots@.len() && self.slots@[a - 1] is Some,
            |a: usize| self.slots@[a - 1].unwrap(),
        )
    }

    /// The base of each registered type, by type index.
    pub closed spec fn type_bases(&self) -> Seq<Option<usize>> {
        self.bases@
    }

    /// How many objects have been allocated so far; each allocation takes the
    /// next address, and addresses are never reused.
    pub closed spec fn allocated(&self) -> nat {
        self.slots@.len()
    }

    /// The exception object held by the error indicator, if any.
    pub closed spec fn pending_error(&self) -> Option<usize> {
        self.error
    }

    pub open spec fn is_live(&self, a: usize) -> bool {
        self.objects().dom().contains(a)
    }

    pub open spec fn refcnt_of(&self, a: usize) -> usize {
        self.objects()[a].refcnt
    }

    pub open spec fn type_of(&self, a: usize) -> usize {
        self.objects()[a].type_id
    }

    pub open spec fn is_type(&self, t: usize) -> bool {
        t < self.type_bases().len()
    }

    /// Well-formedness: type 0 is the root, every other type has a base
    /// registered before it, every live object holds a reference and has a
    /// registered type, and there is room for one more address.
    pub closed spec fn wf(&self) -> bool {
        &&& self.bases@.len() >= 1
        &&& self.bases@[0] is None
        &&& forall|i: int|
            1 <= i < self.bases@.len() ==> (#[trigger] self.bases@[i] matches Some(p) && p < i)
        &&& forall|i: int|
            0 <= i < self.slots@.len() ==> (#[trigger] self.slots@[i] matches Some(st) && st.refcnt
                >= 1 && st.type_id < self.bases@.len()) || self.slots@[i] is None
        &&& self.slots@.len() < usize::MAX - 1
        &&& self.bases@.len() < usize::MAX
    }

    /// Facts that hold of every well-formed table.
    pub proof fn lemma_wf(&self)
        requires
            self.wf(),
        ensures
            self.is_type(OBJECT_TYPE),
            self.type_bases()[OBJECT_TYPE as int] is None,
            forall|t: usize|
                1 <= t < self.type_bases().len() ==> (#[trigger] self.type_bases()[t as int] matches Some(
                    p,
                ) && p < t),
            forall|a: usize| #[trigger]
                self.is_live(a) ==> a != NULL && self.refcnt_of(a) >= 1 && self.is_type(
                    self.type_of(a),
                ),
    {
        assert forall|t: usize| 1 <= t < self.type_bases().len() implies (
        #[trigger] self.type_bases()[t as int] matches Some(p) && p < t) by {
            assert(self.bases@[t as int] matches Some(p) && p < t);
        }
        assert forall|a: usize| #[trigger] self.is_live(a) implies a != NULL && self.refcnt_of(a) >= 1
            && self.is_type(self.type_of(a)) by {
            let i: int = a - 1;
            assert(self.slots@[i] matches Some(st) && st.refcnt >= 1 && st.type_id
                < self.bases@.len());
        }
    }

    /// A table that holds only the root type `object`, no object, and no
    /// pending exception.
    pub fn new() -> (t: ObjectTable)
        ensures
            t.wf(),
            t.objects() == Map::<usize, ObjectState>::empty(),
            t.type_bases() == seq![None::<usize>],
            t.pending_error() is None,
            t.has_room(),
            t.allocated() == 0,
    {
        let mut bases: Vec<Option<usize>> = Vec::new();
        bases.push(None);
        let t = ObjectTable { slots: Vec::new(), bases, error: None };
        assert(t.objects() =~= Map::<usize, ObjectState>::empty());
        assert(t.type_bases() =~= seq![None::<usize>]);
        t
    }

    /// Registers a new type that derives from `base`, and returns its index.
    pub fn add_type(&mut self, base: usize) -> (t: usize)
        requires
            old(self).wf(),
            old(self).is_type(base),
            old(self).type_bases().len() + 1 < usize::MAX,
        ensures
            final(self).wf(),
            t == old(self).type_bases().len(),
            final(self).type_bases() == old(self).type_bases().push(Some(base)),
            final(self).objects() == old(self).objects(),
            final(self).pending_error() == old(self).pending_error(),
            final(self).allocated() == old(self).allocated(),
    {
        let t: usize = self.bases.len();
        self.bases.push(Some(base));
        assert(self.objects() =~= old(self).objects());
        t
    }

    /// Allocates a new object of type `type_id` whose one reference the caller
    /// owns, and returns its address.
    pub fn alloc_object(&mut self, type_id: usize) -> (a: usize)
        requires
            old(self).wf(),
            old(self).is_type(type_id),
            old(self).has_room(),
        ensures
            final(self).wf(),
            a != NULL,
            !old(self).is_live(a),
            final(self).objects() == old(self).objects().insert(
                a,
                ObjectState { refcnt: 1, type_id },
            ),
            final(self).type_bases() == old(self).type_bases(),
            final(self).pending_error() == old(self).pending_error(),
            final(self).allocated() == old(self).allocated() + 1,
    {
        self.slots.push(Some(ObjectState { refcnt: 1, type_id }));
        let a: usize = self.slots.len();
        assert(self.objects() =~= old(self).objects().insert(
            a,
            ObjectState { refcnt: 1, type_id },
        ));
        a
    }

    /// There is an address left for one more allocation.
    pub closed spec fn has_room(&self) -> bool {
        self.slots@.len() + 1 < usize::MAX - 1
    }

    /// Whether an address is left for one more allocation.
    pub fn room_left(&self) -> (r: bool)
        ensures
            r == self.has_room(),
    {
        self.slots.len() < usize::MAX - 2
    }

    /// The reference count of the live object at `a`.
    pub fn refcnt(&self, a: usize) -> (r: usize)
        requires
            self.wf(),
            self.is_live(a),
        ensures
            r == self.refcnt_of(a),
    {
        match self.slots[a - 1] {
            Some(st) => st.refcnt,
            None => 0,
        }
    }

    /// The type of the live object at `a`.
    pub fn object_type(&self, a: usize) -> (r: usize)
        requires
            self.wf(),
            self.is_live(a),
        ensures
            r == self.type_of(a),
    {
        match self.slots[a - 1] {
            Some(st) => st.type_id,
            None => 0,
        }
    }

    /// Takes one more reference to the live object at `a`.
    pub fn incref(&mut self, a: usize)
        requires
            old(self).wf(),
            old(self).is_live(a),
            old(self).refcnt_of(a) < usize::MAX,
        ensures
            final(self).wf(),
            final(self).objects() == incref_model(old(self).objects(), a),
            final(self).type_bases() == old(self).type_bases(),
            final(self).pending_error() == old(self).pending_error(),
            final(self).allocated() == old(self).allocated(),
    {
        let st = match self.slots[a - 1] {
            Some(st) => st,
            None => ObjectState { refcnt: 0, type_id: 0 },
        };
        let new_st = ObjectState { refcnt: st.refcnt + 1, type_id: st.type_id };
        self.slots.set(a - 1, Some(new_st));
        assert(self.objects() =~= incref_model(old(self).objects(), a));
    }

    /// Releases one reference to the live object at `a`; the object is
    /// deallocated when that was its last reference.
    pub fn decref(&mut self, a: usize)
        requires
            old(self).wf(),
            old(self).is_live(a),
        ensures
            final(self).wf(),
            final(self).objects() == decref_model(old(self).objects(), a),
            final(self).type_bases() == old(self).type_bases(),
            final(self).pending_error() == old(self).pending_error(),
            final(self).allocated() == old(self).allocated(),
    {
        let st = match self.slots[a - 1] {
            Some(st) => st,
            None => ObjectState { refcnt: 1, type_id: 0 },
        };
        if st.refcnt <= 1 {
            self.slots.set(a - 1, None);
        } else {
            self.slots.set(a - 1, Some(ObjectState { refcnt: st.refcnt - 1, type_id: st.type_id }));
        }
        assert(self.objects() =~= decref_model(old(self).objects(), a));
    }

    /// Whether the type `a` is `b` or derives from it.
    pub fn type_is_subtype(&self, a: usize, b: usize) -> (r: bool)
        requires
            self.wf(),
            self.is_type(a),
        ensures
            r == is_subtype(self.type_bases(), a, b),
    {
        let mut cur = a;
        while cur != b
            invariant
                self.wf(),
                cur < self.bases@.len(),
                is_subtype(self.bases@, a, b) == is_subtype(self.bases@, cur, b),
            decreases cur,
        {
            if cur == 0 {
                assert(self.bases@[0] is None);
                return false;
            }
            assert(self.bases@[cur as int] matches Some(p) && p < cur);
            match self.bases[cur] {
                Some(p) => {
                    cur = p;
                },
                None => {
                    return false;
                },
            }
        }
        true
    }

    /// Whether the live object at `a` is an instance of type `tp` or of a type
    /// derived from it.
    pub fn type_check(&self, a: usize, tp: usize) -> (r: bool)
        requires
            self.wf(),
            self.is_live(a),
        ensures
            r == is_subtype(self.type_bases(), self.type_of(a), tp),
    {
        proof {
            self.lemma_wf();
        }
        let t: usize = self.object_type(a);
        self.type_is_subtype(t, tp)
    }

    /// Sets the error indicator to the exception object at `exc`, whose
    /// reference the indicator takes over.
    pub fn restore_error(&mut self, exc: usize)
        requires
            old(self).wf(),
            old(self).is_live(exc),
            old(self).pending_error() is None,
        ensures
            final(self).wf(),
            final(self).pending_error() == Some(exc),
            final(self).objects() == old(self).objects(),
            final(self).type_bases() == old(self).type_bases(),
            final(self).allocated() == old(self).allocated(),
    {
        self.error = Some(exc);
        assert(self.objects() =~= old(self).objects());
    }

    /// Takes the exception out of the error indicator, which is then clear.
    pub fn fetch_error(&mut self) -> (r: Option<usize>)
        requires
            old(self).wf(),
        ensures
            final(self).wf(),
            r == old(self).pending_error(),
            final(self).pending_error() is None,
            final(self).objects() == old(self).objects(),
            final(self).type_bases() == old(self).type_bases(),
            final(self).allocated() == old(self).allocated(),
    {
        let r: Option<usize> = self.error;
        self.error = None;
        assert(self.objects() =~= old(self).objects());
        r
    }
}

/// Taking a reference and releasing it again leaves the object table as it
/// was.
pub proof fn lemma_incref_then_decref(objects: Map<usize, ObjectState>, a: usize)
    requires
        objects.dom().contains(a),
        objects[a].refcnt >= 1,
        objects[a].refcnt < usize::MAX,
    ensures
        decref_model(incref_model(objects, a), a) == objects,
{
    assert(decref_model(incref_model(objects, a), a) =~= objects);
}

/// Every type is a subtype of itself.
pub proof fn lemma_subtype_reflexive(bases: Seq<Option<usize>>, a: usize)
    ensures
        is_subtype(bases, a, a),
{
}

/// Derivation is transitive.
pub proof fn lemma_subtype_transitive(bases: Seq<Option<usize>>, a: usize, b: usize, c: usize)
    requires
        is_subtype(bases, a, b),
        is_subtype(bases, b, c),
    ensures
        is_subtype(bases, a, c),
    decreases a,
{
    if a != b {
        match bases[a as int] {
            Some(p) => {
                lemma_subtype_transitive(bases, p, b, c);
            },
            None => {},
        }
    }
}

/// In a well-formed table every registered type derives from `object`.
pub proof fn lemma_every_type_is_object(t: &ObjectTable, a: usize)
    requires
        t.wf(),
        t.is_type(a),
    ensures
        is_subtype(t.type_bases(), a, OBJECT_TYPE),
    decreases a,
{
    t.lemma_wf();
    if a != OBJECT_TYPE {
        assert(t.type_bases()[a as int] matches Some(p) && p < a);
        match t.type_bases()[a as int] {
            Some(p) => {
                lemma_every_type_is_object(t, p);
            },
            None => {},
        }
    }
}


/// Releasing the last reference to an object deallocates it; releasing one of
/// several leaves it live with one reference fewer; no other object changes.
pub proof fn lemma_release_reference(objects: Map<usize, ObjectState>, a: usize)
    requires
        objects.dom().contains(a),
        objects[a].refcnt >= 1,
    ensures
        objects[a].refcnt == 1 ==> !decref_model(objects, a).dom().contains(a),
        objects[a].refcnt > 1 ==> decref_model(objects, a).dom().contains(a) && decref_model(
            objects,
            a,
        )[a].refcnt == objects[a].refcnt - 1 && decref_model(objects, a)[a].type_id
            == objects[a].type_id,
        forall|b: usize|
            b != a ==> (#[trigger] decref_model(objects, a).dom().contains(b) == objects.dom().contains(
                b,
            ) && (objects.dom().contains(b) ==> decref_model(objects, a)[b] == objects[b])),
{
}

/// Taking a reference adds one to the object's count and changes nothing
/// else.
pub proof fn lemma_take_reference(objects: Map<usize, ObjectState>, a: usize)
    requires
        objects.dom().contains(a),
        objects[a].refcnt < usize::MAX,
    ensures
        incref_model(objects, a).dom() == objects.dom(),
        incref_model(objects, a)[a].refcnt == objects[a].refcnt + 1,
        incref_model(objects, a)[a].type_id == objects[a].type_id,
        forall|b: usize|
            b != a && objects.dom().contains(b) ==> #[trigger] incref_model(objects, a)[b]
                == objects[b],
{
    assert(incref_model(objects, a).dom() =~= objects.dom());
}

/// Allocation runs out only at the end of the address space: a table that
/// has handed out fewer than `usize::MAX - 3` addresses has room for another
/// object.
pub proof fn lemma_room_until_address_limit(t: ObjectTable)
    requires
        t.wf(),
        t.allocated() + 3 < usize::MAX,
    ensures
        t.has_room(),
{
}

} // verus!
