use vstd::prelude::*;

use crate::types::{Address, Payment};

verus! {

/// What one voter has deposited on one proposal.
pub struct EscrowEntry {
    pub voter: Address,
    pub proposal_id: u64,
    pub payments: Vec<Payment>,
}

/// The escrow ledger: for each (voter, proposal) pair that holds deposits, the
/// deposited payments. A pair is present exactly while its deposits are unredeemed.
pub struct EscrowBook {
    entries: Vec<EscrowEntry>,
}

/// The key of an entry.
pub open spec fn key_of(e: EscrowEntry) -> (Address, u64) {
    (e.voter, e.proposal_id)
}

impl View for EscrowBook {
    type V = Map<(Address, u64), Seq<Payment>>;

    closed spec fn view(&self) -> Map<(Address, u64), Seq<Payment>> {
        Map::new(
            |k: (Address, u64)| self.keys().contains(k),
            |k: (Address, u64)| self.entries@[self.keys().index_of(k)].payments@,
        )
    }
}

impl EscrowBook {
    closed spec fn keys(&self) -> Seq<(Address, u64)> {
        self.entries@.map_values(|e: EscrowEntry| key_of(e))
    }

    /// No pair twice, and no pair with nothing deposited.
    pub closed spec fn wf(&self) -> bool {
        &&& self.keys().no_duplicates()
        &&& forall|i: int| 0 <= i < self.entries@.len() ==> (#[trigger] self.entries@[i]).payments@.len() > 0
    }

    /// Every present pair holds at least one payment.
    pub proof fn lemma_nonempty(&self, k: (Address, u64))
        requires
            self.wf(),
            self@.contains_key(k),
        ensures
            self@[k].len() > 0,
    {
        let j = self.keys().index_of(k);
        assert(self.entries@[j].payments@.len() > 0);
    }

    proof fn lemma_index(&self, i: int)
        requires
            self.wf(),
            0 <= i < self.entries@.len(),
        ensures
            self.keys()[i] == key_of(self.entries@[i]),
            self.keys().index_of(key_of(self.entries@[i])) == i,
            self@.contains_key(key_of(self.entries@[i])),
            self@[key_of(self.entries@[i])] == self.entries@[i].payments@,
    {
        let k = key_of(self.entries@[i]);
        assert(self.keys()[i] == k);
        assert(self.keys().contains(k));
        let j = self.keys().index_of(k);
        assert(self.keys()[j] == k);
    }

    pub fn new() -> (r: EscrowBook)
        ensures
            r.wf(),
            r@ == Map::<(Address, u64), Seq<Payment>>::empty(),
    {
        let r = EscrowBook { entries: Vec::new() };
        assert(r@ =~= Map::<(Address, u64), Seq<Payment>>::empty());
        r
    }

    fn position(&self, voter: Address, proposal_id: u64) -> (r: Option<usize>)
        requires
            self.wf(),
        ensures
            r matches Some(i) ==> i < self.entries@.len() && key_of(self.entries@[i as int]) == (
            voter,
            proposal_id,
            ),
            r is None ==> !self@.contains_key((voter, proposal_id)),
    {
        let mut i: usize = 0;
        while i < self.entries.len()
            invariant
                i <= self.entries@.len(),
                forall|j: int| 0 <= j < i ==> key_of(#[trigger] self.entries@[j]) != (voter, proposal_id),
            decreases self.entries.len() - i,
        {
            if self.entries[i].voter == voter && self.entries[i].proposal_id == proposal_id {
                return Some(i);
            }
            i = i + 1;
        }
        proof {
            if self.keys().contains((voter, proposal_id)) {
                let j = self.keys().index_of((voter, proposal_id));
                assert(key_of(self.entries@[j]) == self.keys()[j]);
            }
        }
        None
    }

    /// The pair holds deposits.
    pub fn contains(&self, voter: Address, proposal_id: u64) -> (r: bool)
        requires
            self.wf(),
        ensures
            r == self@.contains_key((voter, proposal_id)),
    {
        match self.position(voter, proposal_id) {
            Some(i) => {
                proof {
                    self.lemma_index(i as int);
                }
                true
            },
            None => false,
        }
    }

    /// A copy of the payments escrowed for the pair; empty where there are none.
    pub fn get(&self, voter: Address, proposal_id: u64) -> (r: Vec<Payment>)
        requires
            self.wf(),
        ensures
            r@ == (if self@.contains_key((voter, proposal_id)) {
                self@[(voter, proposal_id)]
            } else {
                Seq::<Payment>::empty()
            }),
    {
        let mut r: Vec<Payment> = Vec::new();
        match self.position(voter, proposal_id) {
            None => {
                assert(r@ =~= Seq::<Payment>::empty());
            },
            Some(i) => {
                proof {
                    self.lemma_index(i as int);
                }
                let ps = &self.entries[i].payments;
                let mut j: usize = 0;
                while j < ps.len()
                    invariant
                        j <= ps@.len(),
                        r@ == ps@.subrange(0, j as int),
                    decreases ps.len() - j,
                {
                    r.push(ps[j]);
                    j = j + 1;
                    assert(r@ =~= ps@.subrange(0, j as int));
                }
                assert(r@ =~= ps@);
            },
        }
        r
    }

    /// Records `payments` as the escrow of the pair, replacing what it held.
    pub fn set(&mut self, voter: Address, proposal_id: u64, payments: Vec<Payment>)
        requires
            old(self).wf(),
            payments@.len() > 0,
        ensures
            final(self).wf(),
            final(self)@ == old(self)@.insert((voter, proposal_id), payments@),
    {
        let ghost k = (voter, proposal_id);
        let ghost ps = payments@;
        match self.position(voter, proposal_id) {
            Some(i) => {
                self.entries[i].payments = payments;
                assert(self.keys() =~= old(self).keys());
                assert forall|j: int| 0 <= j < self.entries@.len() implies self@[#[trigger] self.keys()[j]]
                    == old(self)@.insert(k, ps)[self.keys()[j]] by {
                    self.lemma_index(j);
                    old(self).lemma_index(j);
                    if j != i {
                        assert(old(self).keys()[j] != old(self).keys()[i as int]);
                    }
                }
                assert(self.keys()[i as int] == k);
                assert(self@.dom() =~= old(self)@.insert(k, ps).dom());
                assert forall|x: (Address, u64)| #[trigger] self@.contains_key(x) implies self@[x] == old(self)@.insert(k, ps)[x] by {
                    let j = self.keys().index_of(x);
                    assert(self.keys()[j] == x);
                }
                assert(self@ =~= old(self)@.insert(k, ps));
            },
            None => {
                self.entries.push(EscrowEntry { voter, proposal_id, payments });
                assert(self.keys() =~= old(self).keys().push(k));
                assert(self.keys().no_duplicates()) by {
                    assert forall|i: int, j: int|
                        0 <= i < self.keys().len() && 0 <= j < self.keys().len() && i != j implies
                        self.keys()[i] != self.keys()[j] by {
                        if i == old(self).keys().len() as int {
                            assert(old(self).keys().contains(self.keys()[j]));
                        } else if j == old(self).keys().len() as int {
                            assert(old(self).keys().contains(self.keys()[i]));
                        }
                    }
                }
                assert forall|j: int| 0 <= j < self.entries@.len() implies self@[#[trigger] self.keys()[j]]
                    == old(self)@.insert(k, ps)[self.keys()[j]] by {
                    self.lemma_index(j);
                    if j < old(self).entries@.len() {
                        old(self).lemma_index(j);
                    }
                }
                assert forall|x: (Address, u64)| self.keys().contains(x) <==> (old(self).keys().contains(x) || x == k) by {
                    if old(self).keys().contains(x) {
                        let m = old(self).keys().index_of(x);
                        assert(self.keys()[m] == x);
                    }
                    if x == k {
                        assert(self.keys()[old(self).keys().len() as int] == x);
                    }
                    if self.keys().contains(x) && x != k {
                        let m = self.keys().index_of(x);
                        assert(old(self).keys()[m] == x);
                    }
                }
                assert(self@.dom() =~= old(self)@.insert(k, ps).dom());
                assert(self@ =~= old(self)@.insert(k, ps));
            },
        }
    }

    /// Removes the pair and hands back what it held; empty where it held nothing.
    pub fn take(&mut self, voter: Address, proposal_id: u64) -> (r: Vec<Payment>)
        requires
            old(self).wf(),
        ensures
            final(self).wf(),
            final(self)@ == old(self)@.remove((voter, proposal_id)),
            r@ == (if old(self)@.contains_key((voter, proposal_id)) {
                old(self)@[(voter, proposal_id)]
            } else {
                Seq::<Payment>::empty()
            }),
    {
        let ghost k = (voter, proposal_id);
        match self.position(voter, proposal_id) {
            None => {
                assert(self@ =~= old(self)@.remove(k));
                Vec::new()
            },
            Some(i) => {
                proof {
                    old(self).lemma_index(i as int);
                }
                let ghost s = self.keys();
                let e = self.entries.remove(i);
                assert(self.keys() =~= s.remove(i as int));
                assert forall|j: int| 0 <= j < self.entries@.len() implies self@[#[trigger] self.keys()[j]]
                    == old(self)@[self.keys()[j]] && self.keys()[j] != k by {
                    self.lemma_index(j);
                    if j < i {
                        old(self).lemma_index(j);
                    } else {
                        old(self).lemma_index(j + 1);
                    }
                }
                assert forall|x: (Address, u64)| self@.contains_key(x) <==> old(self)@.remove(k).contains_key(x) by {
                    if old(self)@.remove(k).contains_key(x) {
                        let m = s.index_of(x);
                        if m < i {
                            assert(self.keys()[m] == x);
                        } else if m > i {
                            assert(self.keys()[m - 1] == x);
                        }
                    }
                    if self@.contains_key(x) {
                        let m = self.keys().index_of(x);
                        assert(self.keys()[m] == x);
                    }
                }
                assert(self@ =~= old(self)@.remove(k));
                e.payments
            },
        }
    }

    /// The voters that hold deposits on `proposal_id`, each once.
    pub fn voters_of(&self, proposal_id: u64) -> (r: Vec<Address>)
        requires
            self.wf(),
        ensures
            r@.no_duplicates(),
            forall|v: Address| r@.contains(v) <==> self@.contains_key((v, proposal_id)),
    {
        let mut r: Vec<Address> = Vec::new();
        let mut i: usize = 0;
        while i < self.entries.len()
            invariant
                self.wf(),
                i <= self.entries@.len(),
                r@.no_duplicates(),
                forall|v: Address| r@.contains(v) <==> exists|j: int| 0 <= j < i && #[trigger] self.keys()[j] == (v, proposal_id),
            decreases self.entries.len() - i,
        {
            proof {
                self.lemma_index(i as int);
            }
            if self.entries[i].proposal_id == proposal_id {
                let v = self.entries[i].voter;
                proof {
                    if r@.contains(v) {
                        let j = choose|j: int| 0 <= j < i && #[trigger] self.keys()[j] == (v, proposal_id);
                        assert(self.keys()[j] == self.keys()[i as int]);
                    }
                }
                let ghost r0 = r@;
                r.push(v);
                proof {
                    assert(r@.drop_last() =~= r0);
                    assert forall|a: int, b: int| 0 <= a < r@.len() && 0 <= b < r@.len() && a != b implies r@[a] != r@[b] by {
                        if a == r@.len() - 1 {
                            assert(r0[b] == r@[b]);
                            assert(r0.contains(r@[b]));
                        } else if b == r@.len() - 1 {
                            assert(r0[a] == r@[a]);
                            assert(r0.contains(r@[a]));
                        }
                    }
                    assert forall|x: Address| r@.contains(x) <==> exists|j: int| 0 <= j < i + 1 && #[trigger] self.keys()[j] == (x, proposal_id) by {
                        if r@.contains(x) && x != v {
                            let m = choose|m: int| 0 <= m < r@.len() && r@[m] == x;
                            assert(r@.drop_last()[m] == x);
                            assert(r@.drop_last().contains(x));
                        }
                        if x == v {
                            assert(r@[r@.len() - 1] == x);
                        }
                        if exists|j: int| 0 <= j < i + 1 && #[trigger] self.keys()[j] == (x, proposal_id) {
                            if x != v {
                                let j = choose|j: int| 0 <= j < i + 1 && #[trigger] self.keys()[j] == (x, proposal_id);
                                assert(j < i);
                                assert(r@.drop_last().contains(x));
                                let m = choose|m: int| 0 <= m < r@.drop_last().len() && r@.drop_last()[m] == x;
                                assert(r@[m] == x);
                            }
                        }
                    }
                }
            } else {
                proof {
                    assert forall|x: Address| r@.contains(x) <==> exists|j: int| 0 <= j < i + 1 && #[trigger] self.keys()[j] == (x, proposal_id) by {
                        if exists|j: int| 0 <= j < i + 1 && #[trigger] self.keys()[j] == (x, proposal_id) {
                            let j = choose|j: int| 0 <= j < i + 1 && #[trigger] self.keys()[j] == (x, proposal_id);
                            assert(j != i);
                        }
                    }
                }
            }
            i = i + 1;
        }
        proof {
            assert forall|v: Address| r@.contains(v) <==> self@.contains_key((v, proposal_id)) by {
                if self@.contains_key((v, proposal_id)) {
                    let j = self.keys().index_of((v, proposal_id));
                    assert(self.keys()[j] == (v, proposal_id));
                }
            }
        }
        r
    }

    /// The proposals on which `voter` holds deposits, each once.
    pub fn proposals_of(&self, voter: Address) -> (r: Vec<u64>)
        requires
            self.wf(),
        ensures
            r@.no_duplicates(),
            forall|p: u64| r@.contains(p) <==> self@.contains_key((voter, p)),
    {
        let mut r: Vec<u64> = Vec::new();
        let mut i: usize = 0;
        while i < self.entries.len()
            invariant
                self.wf(),
                i <= self.entries@.len(),
                r@.no_duplicates(),
                forall|v: u64| r@.contains(v) <==> exists|j: int| 0 <= j < i && #[trigger] self.keys()[j] == (voter, v),
            decreases self.entries.len() - i,
        {
            proof {
                self.lemma_index(i as int);
            }
            if self.entries[i].voter == voter {
                let v = self.entries[i].proposal_id;
                proof {
                    if r@.contains(v) {
                        let j = choose|j: int| 0 <= j < i && #[trigger] self.keys()[j] == (voter, v);
                        assert(self.keys()[j] == self.keys()[i as int]);
                    }
                }
                let ghost r0 = r@;
                r.push(v);
                proof {
                    assert(r@.drop_last() =~= r0);
                    assert forall|a: int, b: int| 0 <= a < r@.len() && 0 <= b < r@.len() && a != b implies r@[a] != r@[b] by {
                        if a == r@.len() - 1 {
                            assert(r0[b] == r@[b]);
                            assert(r0.contains(r@[b]));
                        } else if b == r@.len() - 1 {
                            assert(r0[a] == r@[a]);
                            assert(r0.contains(r@[a]));
                        }
                    }
                    assert forall|x: u64| r@.contains(x) <==> exists|j: int| 0 <= j < i + 1 && #[trigger] self.keys()[j] == (voter, x) by {
                        if r@.contains(x) && x != v {
                            let m = choose|m: int| 0 <= m < r@.len() && r@[m] == x;
                            assert(r@.drop_last()[m] == x);
                            assert(r@.drop_last().contains(x));
                        }
                        if x == v {
                            assert(r@[r@.len() - 1] == x);
                        }
                        if exists|j: int| 0 <= j < i + 1 && #[trigger] self.keys()[j] == (voter, x) {
                            if x != v {
                                let j = choose|j: int| 0 <= j < i + 1 && #[trigger] self.keys()[j] == (voter, x);
                                assert(j < i);
                                assert(r@.drop_last().contains(x));
                                let m = choose|m: int| 0 <= m < r@.drop_last().len() && r@.drop_last()[m] == x;
                                assert(r@[m] == x);
                            }
                        }
                    }
                }
            } else {
                proof {
                    assert forall|x: u64| r@.contains(x) <==> exists|j: int| 0 <= j < i + 1 && #[trigger] self.keys()[j] == (voter, x) by {
                        if exists|j: int| 0 <= j < i + 1 && #[trigger] self.keys()[j] == (voter, x) {
                            let j = choose|j: int| 0 <= j < i + 1 && #[trigger] self.keys()[j] == (voter, x);
                            assert(j != i);
                        }
                    }
                }
            }
            i = i + 1;
        }
        proof {
            assert forall|v: u64| r@.contains(v) <==> self@.contains_key((voter, v)) by {
                if self@.contains_key((voter, v)) {
                    let j = self.keys().index_of((voter, v));
                    assert(self.keys()[j] == (voter, v));
                }
            }
        }
        r
    }
}

/// Two payments are in the same asset (same token, same nonce).
pub open spec fn same_asset(a: Payment, b: Payment) -> bool {
    a.token == b.token && a.nonce == b.nonce
}

/// `s` holds a payment in the asset of `p`.
pub open spec fn holds_asset(s: Seq<Payment>, p: Payment) -> bool {
    exists|i: int| 0 <= i < s.len() && same_asset(#[trigger] s[i], p)
}

/// `s` with deposit `p` added: merged into the line of the same asset where
/// there is one, appended otherwise.
pub open spec fn merged(s: Seq<Payment>, p: Payment) -> Seq<Payment> {
    let added = s.map_values(
        |q: Payment|
            if same_asset(q, p) {
                Payment { amount: (q.amount + p.amount) as u128, ..q }
            } else {
                q
            },
    );
    if holds_asset(s, p) {
        added
    } else {
        added.push(p)
    }
}

/// Adding `p` to `s` would take a line past 128 bits.
pub open spec fn merge_overflows(s: Seq<Payment>, p: Payment) -> bool {
    exists|i: int| 0 <= i < s.len() && same_asset(#[trigger] s[i], p) && s[i].amount + p.amount > u128::MAX
}

/// Adds deposit `p` to the payments `s`: `None` where a line would overflow.
pub fn merge_payment(s: &Vec<Payment>, p: Payment) -> (r: Option<Vec<Payment>>)
    ensures
        r is None <==> merge_overflows(s@, p),
        r matches Some(v) ==> v@ == merged(s@, p),
{
    let mut out: Vec<Payment> = Vec::new();
    let mut found = false;
    let mut i: usize = 0;
    while i < s.len()
        invariant
            i <= s@.len(),
            out@.len() == i,
            forall|j: int| 0 <= j < i ==> #[trigger] out@[j] == (if same_asset(s@[j], p) {
                Payment { amount: (s@[j].amount + p.amount) as u128, ..s@[j] }
            } else {
                s@[j]
            }),
            found <==> exists|j: int| 0 <= j < i && same_asset(#[trigger] s@[j], p),
            forall|j: int| 0 <= j < i && same_asset(#[trigger] s@[j], p) ==> s@[j].amount + p.amount <= u128::MAX,
        decreases s.len() - i,
    {
        let q = s[i];
        if q.token == p.token && q.nonce == p.nonce {
            if q.amount > u128::MAX - p.amount {
                assert(same_asset(s@[i as int], p));
                return None;
            }
            out.push(Payment { token: q.token, nonce: q.nonce, amount: q.amount + p.amount });
            found = true;
        } else {
            out.push(q);
        }
        i = i + 1;
    }
    if !found {
        out.push(p);
    }
    assert(out@ =~= merged(s@, p));
    Some(out)
}

} // verus!
