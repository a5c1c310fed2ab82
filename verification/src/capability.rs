use vstd::prelude::*;

use crate::device::DeviceId;

verus! {

/// A named feature that a device can offer and a task can require.
pub trait Capability {
    const NAME: &'static str;
    const VERSION: u32;
}

/// The names of a sequence of strings.
pub open spec fn names_of(s: Seq<String>) -> Seq<Seq<char>> {
    s.map_values(|x: String| x@)
}

/// A set of capability names.
#[derive(Debug, PartialEq, Eq)]
pub struct CapabilitySet {
    names: Vec<String>,
}

impl View for CapabilitySet {
    type V = Set<Seq<char>>;

    closed spec fn view(&self) -> Set<Seq<char>> {
        names_of(self.names@).to_set()
    }
}

impl CapabilitySet {
    /// Each name is held once.
    pub closed spec fn wf(&self) -> bool {
        names_of(self.names@).no_duplicates()
    }

    /// The names in the order they were first inserted.
    pub fn names(&self) -> (r: &Vec<String>)
        ensures
            names_of(r@).to_set() == self@,
            self.wf() ==> names_of(r@).no_duplicates(),
    {
        &self.names
    }

    pub fn new() -> (s: Self)
        ensures
            s.wf(),
            s@ == Set::<Seq<char>>::empty(),
    {
        let s = CapabilitySet { names: Vec::new() };
        assert(s@ =~= Set::<Seq<char>>::empty());
        s
    }

    /// Whether the set holds the capability named `id`.
    pub fn contains_id(&self, id: &str) -> (b: bool)
        ensures
            b == self@.contains(id@),
    {
        let wanted = id.to_owned();
        let mut i: usize = 0;
        while i < self.names.len()
            invariant
                wanted@ == id@,
                i <= self.names@.len(),
                forall|j: int| 0 <= j < i ==> self.names@[j]@ != id@,
            decreases self.names@.len() - i,
        {
            if self.names[i] == wanted {
                assert(names_of(self.names@)[i as int] == id@);
                return true;
            }
            i = i + 1;
        }
        proof {
            if self@.contains(id@) {
                let j = names_of(self.names@).index_of(id@);
                assert(names_of(self.names@)[j] == self.names@[j]@);
            }
        }
        false
    }

    /// Whether the set holds the capability `C`.
    pub fn contains<C: Capability>(&self) -> (b: bool)
        ensures
            b == self@.contains(C::NAME@),
    {
        self.contains_id(C::NAME)
    }

    /// Adds the capability named `id`.
    pub fn insert_id(&mut self, id: &str)
        requires
            old(self).wf(),
        ensures
            final(self).wf(),
            final(self)@ == old(self)@.insert(id@),
    {
        if !self.contains_id(id) {
            let ghost before = self.names@;
            self.names.push(id.to_owned());
            proof {
                assert(names_of(self.names@) =~= names_of(before).push(id@));
                assert forall|a: int, b: int| 0 <= a < b < names_of(self.names@).len()
                    implies names_of(self.names@)[a] != names_of(self.names@)[b] by {
                    if b == before.len() {
                        assert(names_of(before)[a] == names_of(self.names@)[a]);
                        assert(names_of(before).contains(names_of(before)[a]));
                    } else {
                        assert(names_of(before)[a] == names_of(self.names@)[a]);
                        assert(names_of(before)[b] == names_of(self.names@)[b]);
                    }
                }
                names_of(before).lemma_push_to_set_commute(id@);
                assert(self@ =~= old(self)@.insert(id@));
            }
        } else {
            assert(old(self)@.insert(id@) =~= old(self)@);
        }
    }

    /// Adds the capability `C`.
    pub fn insert<C: Capability>(&mut self, capability: C)
        requires
            old(self).wf(),
        ensures
            final(self).wf(),
            final(self)@ == old(self)@.insert(C::NAME@),
    {
        self.insert_id(C::NAME);
    }

    /// Whether every capability of `required` is in this set.
    pub fn satisfies(&self, required: &CapabilitySet) -> (b: bool)
        ensures
            b == required@.subset_of(self@),
    {
        let mut i: usize = 0;
        while i < required.names.len()
            invariant
                i <= required.names@.len(),
                forall|j: int| 0 <= j < i ==> self@.contains(#[trigger] required.names@[j]@),
            decreases required.names@.len() - i,
        {
            if !self.contains_id(required.names[i].as_str()) {
                proof {
                    assert(names_of(required.names@)[i as int] == required.names@[i as int]@);
                    assert(required@.contains(required.names@[i as int]@));
                }
                return false;
            }
            i = i + 1;
        }
        proof {
            assert forall|x: Seq<char>| required@.contains(x) implies self@.contains(x) by {
                let j = names_of(required.names@).index_of(x);
                assert(names_of(required.names@)[j] == required.names@[j]@);
            }
        }
        true
    }
}

impl Clone for CapabilitySet {
    fn clone(&self) -> (s: Self)
        ensures
            s@ == self@,
            s.wf() == self.wf(),
    {
        let names = self.names.clone();
        assert(names@ =~= self.names@);
        CapabilitySet { names }
    }
}

/// A device's announcement of the capabilities it offers.
#[derive(Debug, Clone, PartialEq, Eq)]
pub struct CapabilityAdvert {
    pub device: DeviceId,
    pub capabilities: CapabilitySet,
}

/// Every capability set satisfies itself, and satisfaction is transitive.
pub proof fn law_satisfies_preorder(a: CapabilitySet, b: CapabilitySet, c: CapabilitySet)
    ensures
        a@.subset_of(a@),
        b@.subset_of(a@) && c@.subset_of(b@) ==> c@.subset_of(a@),
{
}

} // verus!
