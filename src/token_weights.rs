use vstd::prelude::*;

use crate::types::TokenId;

verus! {

/// The voting assets and the weight multiplier of each, in units of `ONE`
/// per whole token. Kept as two parallel lists with no asset twice.
pub struct TokenWeights {
    tokens: Vec<TokenId>,
    weights: Vec<u128>,
}

impl View for TokenWeights {
    type V = Map<TokenId, u128>;

    closed spec fn view(&self) -> Map<TokenId, u128> {
        Map::new(
            |t: TokenId| self.tokens@.contains(t),
            |t: TokenId| self.weights@[self.tokens@.index_of(t)],
        )
    }
}

impl TokenWeights {
    pub closed spec fn wf(&self) -> bool {
        &&& self.tokens@.no_duplicates()
        &&& self.tokens@.len() == self.weights@.len()
    }

    /// The assets in their stored order.
    pub closed spec fn token_seq(&self) -> Seq<TokenId> {
        self.tokens@
    }

    /// The weights, in the order of `token_seq`.
    pub closed spec fn weight_seq(&self) -> Seq<u128> {
        self.weights@
    }

    /// The stored order lists each asset of the map once, with its weight.
    pub proof fn lemma_entries(&self)
        requires
            self.wf(),
        ensures
            self.token_seq().no_duplicates(),
            self.token_seq().len() == self.weight_seq().len(),
            self.token_seq().to_set() == self@.dom(),
            self.token_seq().len() == self@.dom().len(),
            forall|i: int|
                0 <= i < self.token_seq().len() ==> self@[#[trigger] self.token_seq()[i]]
                    == self.weight_seq()[i],
    {
        assert(self.tokens@.to_set() =~= self@.dom());
        self.tokens@.unique_seq_to_set();
        assert forall|i: int| 0 <= i < self.token_seq().len() implies self@[#[trigger] self.token_seq()[i]]
            == self.weight_seq()[i] by {
            self.lemma_index(i);
        }
    }

    proof fn lemma_index(&self, i: int)
        requires
            self.wf(),
            0 <= i < self.tokens@.len(),
        ensures
            self.tokens@.index_of(self.tokens@[i]) == i,
            self@.contains_key(self.tokens@[i]),
            self@[self.tokens@[i]] == self.weights@[i],
    {
        let t = self.tokens@[i];
        assert(self.tokens@.contains(t));
        let j = self.tokens@.index_of(t);
        assert(self.tokens@[j] == t);
    }

    pub fn new() -> (r: TokenWeights)
        ensures
            r.wf(),
            r@ == Map::<TokenId, u128>::empty(),
    {
        let r = TokenWeights { tokens: Vec::new(), weights: Vec::new() };
        assert(r@ =~= Map::<TokenId, u128>::empty());
        r
    }

    fn position(&self, t: TokenId) -> (r: Option<usize>)
        requires
            self.wf(),
        ensures
            r matches Some(i) ==> i < self.tokens@.len() && self.tokens@[i as int] == t,
            r is None ==> !self@.contains_key(t),
    {
        let mut i: usize = 0;
        while i < self.tokens.len()
            invariant
                i <= self.tokens@.len(),
                forall|j: int| 0 <= j < i ==> self.tokens@[j] != t,
            decreases self.tokens.len() - i,
        {
            if self.tokens[i] == t {
                return Some(i);
            }
            i = i + 1;
        }
        None
    }

    pub fn contains_key(&self, t: TokenId) -> (r: bool)
        requires
            self.wf(),
        ensures
            r == self@.contains_key(t),
    {
        match self.position(t) {
            Some(i) => {
                proof {
                    self.lemma_index(i as int);
                }
                true
            },
            None => false,
        }
    }

    pub fn get(&self, t: TokenId) -> (r: Option<u128>)
        requires
            self.wf(),
        ensures
            r == (if self@.contains_key(t) {
                Some(self@[t])
            } else {
                None
            }),
    {
        match self.position(t) {
            Some(i) => {
                proof {
                    self.lemma_index(i as int);
                }
                Some(self.weights[i])
            },
            None => None,
        }
    }

    pub fn len(&self) -> (r: usize)
        requires
            self.wf(),
        ensures
            r == self@.len(),
    {
        proof {
            self.lemma_entries();
        }
        self.tokens.len()
    }

    pub fn is_empty(&self) -> (r: bool)
        requires
            self.wf(),
        ensures
            r == (self@.len() == 0),
            r == (self@ == Map::<TokenId, u128>::empty()),
    {
        proof {
            self.lemma_entries();
            if self.tokens@.len() == 0 {
                assert(self@ =~= Map::<TokenId, u128>::empty());
            } else {
                self.lemma_index(0);
            }
        }
        self.tokens.len() == 0
    }

    /// Sets the weight of `t`, adding it where it is not yet a voting asset.
    pub fn insert(&mut self, t: TokenId, w: u128)
        requires
            old(self).wf(),
        ensures
            final(self).wf(),
            final(self)@ == old(self)@.insert(t, w),
    {
        match self.position(t) {
            Some(i) => {
                self.weights.set(i, w);
                assert forall|j: int| 0 <= j < self.tokens@.len() implies self@[#[trigger] self.tokens@[j]]
                    == old(self)@.insert(t, w)[self.tokens@[j]] by {
                    self.lemma_index(j);
                    old(self).lemma_index(j);
                }
                assert(self@ =~= old(self)@.insert(t, w));
            },
            None => {
                self.tokens.push(t);
                self.weights.push(w);
                assert(self.tokens@ == old(self).tokens@.push(t));
                assert(self.tokens@.no_duplicates()) by {
                    assert forall|i: int, j: int|
                        0 <= i < self.tokens@.len() && 0 <= j < self.tokens@.len() && i != j implies
                        self.tokens@[i] != self.tokens@[j] by {
                        if i == old(self).tokens@.len() as int {
                            assert(old(self).tokens@.contains(self.tokens@[j]));
                        } else if j == old(self).tokens@.len() as int {
                            assert(old(self).tokens@.contains(self.tokens@[i]));
                        }
                    }
                }
                assert forall|j: int| 0 <= j < self.tokens@.len() implies self@[#[trigger] self.tokens@[j]]
                    == old(self)@.insert(t, w)[self.tokens@[j]] by {
                    self.lemma_index(j);
                    if j < old(self).tokens@.len() {
                        old(self).lemma_index(j);
                    }
                }
                assert forall|x: TokenId| self.tokens@.contains(x) <==> (old(self).tokens@.contains(x) || x == t) by {
                    if old(self).tokens@.contains(x) {
                        let k = old(self).tokens@.index_of(x);
                        assert(self.tokens@[k] == x);
                    }
                    if x == t {
                        assert(self.tokens@[old(self).tokens@.len() as int] == x);
                    }
                    if self.tokens@.contains(x) && x != t {
                        let k = self.tokens@.index_of(x);
                        assert(old(self).tokens@[k] == x);
                    }
                }
                assert(self@.dom() =~= old(self)@.insert(t, w).dom());
                assert(self@ =~= old(self)@.insert(t, w));
            },
        }
    }

    /// Removes `t` from the voting assets; removing a non-asset changes nothing.
    pub fn remove(&mut self, t: TokenId)
        requires
            old(self).wf(),
        ensures
            final(self).wf(),
            final(self)@ == old(self)@.remove(t),
    {
        match self.position(t) {
            None => {
                assert(self@ =~= old(self)@.remove(t));
            },
            Some(i) => {
                let ghost s = self.tokens@;
                self.tokens.remove(i);
                self.weights.remove(i);
                assert(self.tokens@ == s.remove(i as int));
                assert forall|j: int| 0 <= j < self.tokens@.len() implies self@[#[trigger] self.tokens@[j]]
                    == old(self)@[self.tokens@[j]] && self.tokens@[j] != t by {
                    self.lemma_index(j);
                    if j < i {
                        old(self).lemma_index(j);
                    } else {
                        old(self).lemma_index(j + 1);
                    }
                }
                assert forall|x: TokenId| self@.contains_key(x) <==> old(self)@.remove(t).contains_key(x) by {
                    if old(self)@.remove(t).contains_key(x) {
                        let k = s.index_of(x);
                        if k < i {
                            assert(self.tokens@[k] == x);
                        } else if k > i {
                            assert(self.tokens@[k - 1] == x);
                        }
                    }
                    if self@.contains_key(x) {
                        let k = self.tokens@.index_of(x);
                        assert(self.tokens@[k] == x);
                    }
                }
                assert(self@ =~= old(self)@.remove(t));
            },
        }
    }

    /// The assets and their weights, in matching order.
    pub fn entries(&self) -> (r: (Vec<TokenId>, Vec<u128>))
        requires
            self.wf(),
        ensures
            r.0@ == self.token_seq(),
            r.1@ == self.weight_seq(),
    {
        let mut ts: Vec<TokenId> = Vec::new();
        let mut ws: Vec<u128> = Vec::new();
        let mut i: usize = 0;
        while i < self.tokens.len()
            invariant
                self.wf(),
                i <= self.tokens@.len(),
                ts@ == self.tokens@.subrange(0, i as int),
                ws@ == self.weights@.subrange(0, i as int),
            decreases self.tokens.len() - i,
        {
            ts.push(self.tokens[i]);
            ws.push(self.weights[i]);
            i = i + 1;
            assert(ts@ =~= self.tokens@.subrange(0, i as int));
            assert(ws@ =~= self.weights@.subrange(0, i as int));
        }
        assert(ts@ =~= self.tokens@);
        assert(ws@ =~= self.weights@);
        (ts, ws)
    }
}

} // verus!
