//! A finite set of strings.

use crate::string_map::StringMap;
use vstd::prelude::*;

verus! {

/// A finite set of strings.
#[derive(Debug)]
pub struct StringSet {
    members: StringMap<()>,
}

impl View for StringSet {
    type V = Set<Seq<char>>;

    closed spec fn view(&self) -> Set<Seq<char>> {
        self.members@.dom()
    }
}

impl StringSet {
    /// The members, in the order in which they were first inserted.
    pub closed spec fn spec_members(&self) -> Seq<Seq<char>> {
        self.members.spec_keys()
    }

    /// The empty set.
    pub fn new() -> (r: Self)
        ensures
            r@ == Set::<Seq<char>>::empty(),
            r.spec_members() == Seq::<Seq<char>>::empty(),
    {
        let r = StringSet { members: StringMap::new() };
        assert(r@ =~= Set::<Seq<char>>::empty());
        r
    }

    /// Adds `member`, and says whether the set lacked it.
    pub fn insert(&mut self, member: String) -> (r: bool)
        ensures
            final(self)@ == old(self)@.insert(member@),
            r == !old(self)@.contains(member@),
            final(self).spec_members() == if old(self)@.contains(member@) {
                old(self).spec_members()
            } else {
                old(self).spec_members().push(member@)
            },
    {
        let before = self.members.insert(member, ());
        assert(self@ =~= old(self)@.insert(member@));
        before.is_none()
    }

    /// Whether `member` belongs to the set.
    pub fn contains(&self, member: &str) -> (r: bool)
        ensures
            r == self@.contains(member@),
    {
        self.members.contains_key(member)
    }

    /// How many members the set has. Each member is the `i`-th for exactly one
    /// `i` below this number.
    pub fn len(&self) -> (r: usize)
        ensures
            r == self.spec_members().len(),
            self.spec_members().no_duplicates(),
            forall|member: Seq<char>| self@.contains(member) <==> self.spec_members().contains(member),
    {
        let n = self.members.len();
        proof {
            self.members.lemma_keys();
        }
        n
    }

    /// Whether the set has no member.
    pub fn is_empty(&self) -> (r: bool)
        ensures
            r == (self@ == Set::<Seq<char>>::empty()),
    {
        let n = self.len();
        proof {
            if n == 0 {
                assert(self@ =~= Set::<Seq<char>>::empty());
            } else {
                assert(self.spec_members().contains(self.spec_members()[0]));
            }
        }
        n == 0
    }

    /// The member that was inserted as the `i`-th new one.
    pub fn member(&self, i: usize) -> (r: &String)
        requires
            i < self.spec_members().len(),
        ensures
            r@ == self.spec_members()[i as int],
            self@.contains(r@),
    {
        let r = self.members.key(i);
        proof {
            self.members.lemma_keys();
            assert(self.spec_members().contains(r@));
        }
        r
    }

    /// Whether every member of `self` belongs to `other`.
    pub fn is_subset(&self, other: &StringSet) -> (r: bool)
        ensures
            r == self@.subset_of(other@),
    {
        let n = self.len();
        let mut i: usize = 0;
        while i < n
            invariant
                i <= n,
                n == self.spec_members().len(),
                forall|member: Seq<char>|
                    self@.contains(member) <==> self.spec_members().contains(member),
                forall|k: int| 0 <= k < i ==> other@.contains(#[trigger] self.spec_members()[k]),
            decreases n - i,
        {
            let m = self.member(i);
            if !other.contains(m.as_str()) {
                return false;
            }
            i = i + 1;
        }
        true
    }
}

impl PartialEq for StringSet {
    fn eq(&self, other: &Self) -> (r: bool) {
        let r = self.is_subset(other) && other.is_subset(self);
        proof {
            if r {
                assert(self@ =~= other@);
            }
        }
        r
    }
}

impl vstd::std_specs::cmp::PartialEqSpecImpl for StringSet {
    open spec fn obeys_eq_spec() -> bool {
        true
    }

    open spec fn eq_spec(&self, other: &Self) -> bool {
        self@ == other@
    }
}

impl Default for StringSet {
    fn default() -> (r: Self)
        ensures
            r@ == Set::<Seq<char>>::empty(),
            r.spec_members() == Seq::<Seq<char>>::empty(),
    {
        StringSet::new()
    }
}

} // verus!
