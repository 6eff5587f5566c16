use vstd::prelude::*;

use crate::types::Address;

verus! {

broadcast use {
    vstd::set::group_set_axioms,
    vstd::seq_lib::seq_to_set_is_finite,
    vstd::seq::Seq::lemma_push_to_set_commute,
};

/// A finite set of principals, kept as a list without repetitions.
pub struct AddressSet {
    items: Vec<Address>,
}

impl View for AddressSet {
    type V = Set<Address>;

    closed spec fn view(&self) -> Set<Address> {
        self.items@.to_set()
    }
}

impl AddressSet {
    /// The list holds no principal twice.
    pub closed spec fn wf(&self) -> bool {
        self.items@.no_duplicates()
    }

    /// The members in their stored order.
    pub closed spec fn members(&self) -> Seq<Address> {
        self.items@
    }

    /// Facts about the stored order that hold of every well-formed set.
    pub proof fn lemma_members(&self)
        requires
            self.wf(),
        ensures
            self.members().no_duplicates(),
            self.members().to_set() == self@,
            self.members().len() == self@.len(),
            self@.finite(),
    {
        self.items@.unique_seq_to_set();
    }

    pub fn new() -> (r: AddressSet)
        ensures
            r.wf(),
            r@ == Set::<Address>::empty(),
    {
        let r = AddressSet { items: Vec::new() };
        assert(r@ =~= Set::<Address>::empty());
        r
    }

    /// Where `a` stands in the stored order, if it is a member.
    fn position(&self, a: Address) -> (r: Option<usize>)
        ensures
            r matches Some(i) ==> i < self.items@.len() && self.items@[i as int] == a,
            r is None ==> !self@.contains(a),
    {
        let mut i: usize = 0;
        while i < self.items.len()
            invariant
                i <= self.items@.len(),
                forall|j: int| 0 <= j < i ==> self.items@[j] != a,
            decreases self.items.len() - i,
        {
            if self.items[i] == a {
                return Some(i);
            }
            i = i + 1;
        }
        None
    }

    pub fn contains(&self, a: Address) -> (r: bool)
        ensures
            r == self@.contains(a),
    {
        self.position(a).is_some()
    }

    pub fn len(&self) -> (r: usize)
        requires
            self.wf(),
        ensures
            r == self@.len(),
    {
        proof {
            self.items@.unique_seq_to_set();
        }
        self.items.len()
    }

    /// Adds `a`; adding a member changes nothing.
    pub fn insert(&mut self, a: Address)
        requires
            old(self).wf(),
        ensures
            final(self).wf(),
            final(self)@ == old(self)@.insert(a),
    {
        if !self.contains(a) {
            self.items.push(a);
            assert(self.items@ == old(self).items@.push(a));
            assert(self.items@.no_duplicates()) by {
                assert forall|i: int, j: int|
                    0 <= i < self.items@.len() && 0 <= j < self.items@.len() && i != j implies
                    self.items@[i] != self.items@[j] by {
                    if i == old(self).items@.len() as int {
                        assert(old(self).items@.contains(self.items@[j]));
                    } else if j == old(self).items@.len() as int {
                        assert(old(self).items@.contains(self.items@[i]));
                    }
                }
            }
        }
        assert(self@ =~= old(self)@.insert(a));
    }

    /// Removes `a`; removing a non-member changes nothing.
    pub fn remove(&mut self, a: Address)
        requires
            old(self).wf(),
        ensures
            final(self).wf(),
            final(self)@ == old(self)@.remove(a),
    {
        match self.position(a) {
            None => {
                assert(self@ =~= old(self)@.remove(a));
            },
            Some(i) => {
                let ghost s = self.items@;
                self.items.remove(i);
                assert(self.items@ == s.remove(i as int));
                assert forall|x: Address| self@.contains(x) <==> old(self)@.remove(a).contains(x) by {
                    if self@.contains(x) {
                        let k = choose|k: int| 0 <= k < self.items@.len() && self.items@[k] == x;
                        if k < i {
                            assert(s[k] == x);
                        } else {
                            assert(s[k + 1] == x);
                        }
                    }
                    if old(self)@.remove(a).contains(x) {
                        let k = choose|k: int| 0 <= k < s.len() && s[k] == x;
                        if k < i {
                            assert(self.items@[k] == x);
                        } else if k > i {
                            assert(self.items@[k - 1] == x);
                        }
                    }
                }
                assert(self@ =~= old(self)@.remove(a));
            },
        }
    }

    /// Removes every member.
    pub fn clear(&mut self)
        ensures
            final(self).wf(),
            final(self)@ == Set::<Address>::empty(),
    {
        self.items = Vec::new();
        assert(self@ =~= Set::<Address>::empty());
    }

    /// The members, each once.
    pub fn to_vec(&self) -> (r: Vec<Address>)
        requires
            self.wf(),
        ensures
            r@ == self.members(),
            r@.no_duplicates(),
            r@.to_set() == self@,
    {
        let mut r: Vec<Address> = Vec::new();
        let mut i: usize = 0;
        while i < self.items.len()
            invariant
                i <= self.items@.len(),
                r@ == self.items@.subrange(0, i as int),
            decreases self.items.len() - i,
        {
            r.push(self.items[i]);
            i = i + 1;
            assert(r@ =~= self.items@.subrange(0, i as int));
        }
        assert(r@ =~= self.items@);
        r
    }

    /// The number of members of `self` that are also members of `other`.
    pub fn count_in(&self, other: &AddressSet) -> (r: usize)
        requires
            self.wf(),
        ensures
            r == self@.intersect(other@).len(),
    {
        let mut count: usize = 0;
        let mut i: usize = 0;
        assert(self.items@.subrange(0, 0) =~= Seq::<Address>::empty());
        assert(Seq::<Address>::empty().to_set().intersect(other@) =~= Set::<Address>::empty());
        while i < self.items.len()
            invariant
                self.wf(),
                i <= self.items@.len(),
                count <= i,
                count == self.items@.subrange(0, i as int).to_set().intersect(other@).len(),
            decreases self.items.len() - i,
        {
            let ghost pre = self.items@.subrange(0, i as int);
            let ghost next = self.items@.subrange(0, i as int + 1);
            let x = self.items[i];
            assert(next == pre.push(x));
            assert(!pre.to_set().contains(x)) by {
                if pre.to_set().contains(x) {
                    let k = choose|k: int| 0 <= k < pre.len() && pre[k] == x;
                    assert(self.items@[k] == self.items@[i as int]);
                }
            }
            if other.contains(x) {
                assert(next.to_set().intersect(other@) =~= pre.to_set().intersect(other@).insert(x));
                count = count + 1;
            } else {
                assert(next.to_set().intersect(other@) =~= pre.to_set().intersect(other@));
            }
            i = i + 1;
        }
        assert(self.items@.subrange(0, i as int) =~= self.items@);
        count
    }
}

} // verus!
