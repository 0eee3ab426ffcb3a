//! Compiled layers: immutable per-state transition tables.
//!
//! A `Layer` is one independently compiled finite-state remapping
//! machine: an initial state, a single-key transition table and a chord
//! transition table. Within one layer, two entries that resolve to the
//! same lookup key are a compile-time ambiguity error, and the layer is
//! not produced. Lookups return the first (and, for a compiled layer,
//! only) matching entry.

use crate::keys::{Key, KeyInput};
use crate::rules::{
    blueprints_model, expand, expansion_pairs, expansion_singles, pairs_model, singles_model,
    Blueprint, PairRule, PairRuleModel, SingleRule, SingleRuleModel, State,
};
use vstd::prelude::*;

verus! {

/// Whether a single-key entry applies in state `s` to input `inp`.
pub open spec fn single_matches(r: SingleRuleModel, s: State, inp: KeyInput) -> bool {
    r.condition == s && r.input == inp
}

/// The first single-key entry that applies in state `s` to input `inp`.
pub open spec fn lookup_single(rs: Seq<SingleRuleModel>, s: State, inp: KeyInput) -> Option<
    SingleRuleModel,
>
    decreases rs.len(),
{
    if rs.len() == 0 {
        None
    } else if single_matches(rs[0], s, inp) {
        Some(rs[0])
    } else {
        lookup_single(rs.skip(1), s, inp)
    }
}

/// Whether a chord entry applies in state `s` with first key `k`.
pub open spec fn pair_matches_first(r: PairRuleModel, s: State, k: Key) -> bool {
    r.condition == s && r.first == k
}

/// The first chord entry keyed in state `s` by first key `k`, whatever
/// its second key: the entry that decides whether a press of `k` opens a
/// chord window, and with which threshold.
pub open spec fn lookup_pair_first(rs: Seq<PairRuleModel>, s: State, k: Key) -> Option<
    PairRuleModel,
>
    decreases rs.len(),
{
    if rs.len() == 0 {
        None
    } else if pair_matches_first(rs[0], s, k) {
        Some(rs[0])
    } else {
        lookup_pair_first(rs.skip(1), s, k)
    }
}

/// Whether a chord entry applies in state `s` to the ordered press pair
/// `(first, second)`.
pub open spec fn pair_matches(r: PairRuleModel, s: State, first: Key, second: Key) -> bool {
    r.condition == s && r.first == first && r.second == second
}

/// The first chord entry that applies in state `s` to the ordered press
/// pair `(first, second)`.
pub open spec fn lookup_pair(rs: Seq<PairRuleModel>, s: State, first: Key, second: Key) -> Option<
    PairRuleModel,
>
    decreases rs.len(),
{
    if rs.len() == 0 {
        None
    } else if pair_matches(rs[0], s, first, second) {
        Some(rs[0])
    } else {
        lookup_pair(rs.skip(1), s, first, second)
    }
}

/// Whether two single-key entries resolve to the same lookup key.
pub open spec fn single_clash(a: SingleRuleModel, b: SingleRuleModel) -> bool {
    a.condition == b.condition && a.input == b.input
}

/// Whether no two single-key entries resolve to the same lookup key.
pub open spec fn singles_unambiguous(rs: Seq<SingleRuleModel>) -> bool {
    forall|i: int, j: int| 0 <= i < j < rs.len() ==> !single_clash(rs[i], rs[j])
}

/// Whether two chord entries resolve to the same lookup key.
pub open spec fn pair_clash(a: PairRuleModel, b: PairRuleModel) -> bool {
    a.condition == b.condition && a.first == b.first && a.second == b.second
}

/// Whether no two chord entries resolve to the same lookup key.
pub open spec fn pairs_unambiguous(rs: Seq<PairRuleModel>) -> bool {
    forall|i: int, j: int| 0 <= i < j < rs.len() ==> !pair_clash(rs[i], rs[j])
}

/// A fatal configuration error: two entries of the same layer resolve to
/// the same lookup key, so the rule set is ambiguous.
#[derive(Debug, PartialEq, Eq, Structural, Clone, Copy)]
pub enum CompileError {
    /// Two single-key entries share (condition, input).
    AmbiguousSingle { condition: State, input: KeyInput },
    /// Two chord entries share (condition, first key, second key).
    AmbiguousPair { condition: State, first: Key, second: Key },
}

/// A compiled, immutable finite-state remapping machine.
#[derive(Debug)]
pub struct Layer {
    pub initial_state: State,
    pub singles: Vec<SingleRule>,
    pub pairs: Vec<PairRule>,
}

impl Layer {
    /// The mathematical value of the single-key table.
    pub open spec fn single_table(&self) -> Seq<SingleRuleModel> {
        singles_model(self.singles@)
    }

    /// The mathematical value of the chord table.
    pub open spec fn pair_table(&self) -> Seq<PairRuleModel> {
        pairs_model(self.pairs@)
    }

    /// Builds a layer from already-expanded tables, rejecting any table
    /// that holds two entries with the same lookup key.
    pub fn from_tables(initial_state: State, singles: Vec<SingleRule>, pairs: Vec<PairRule>) -> (r:
        Result<Layer, CompileError>)
        ensures
            r is Ok <==> singles_unambiguous(singles_model(singles@)) && pairs_unambiguous(
                pairs_model(pairs@),
            ),
            r matches Ok(l) ==> l.initial_state == initial_state && l.single_table()
                == singles_model(singles@) && l.pair_table() == pairs_model(pairs@),
            r matches Err(CompileError::AmbiguousSingle { condition, input }) ==> exists|
                i: int,
                j: int,
            |
                0 <= i < j < singles@.len() && single_clash(
                    #[trigger] singles_model(singles@)[i],
                    #[trigger] singles_model(singles@)[j],
                ) && singles_model(singles@)[i].condition == condition && singles_model(
                    singles@,
                )[i].input == input,
            r matches Err(CompileError::AmbiguousPair { condition, first, second }) ==> exists|
                i: int,
                j: int,
            |
                0 <= i < j < pairs@.len() && pair_clash(
                    #[trigger] pairs_model(pairs@)[i],
                    #[trigger] pairs_model(pairs@)[j],
                ) && pairs_model(pairs@)[i].condition == condition && pairs_model(
                    pairs@,
                )[i].first == first && pairs_model(pairs@)[i].second == second,
    {
        match find_single_clash(&singles) {
            Some(i) => Err(
                CompileError::AmbiguousSingle {
                    condition: singles[i].condition,
                    input: singles[i].input,
                },
            ),
            None => match find_pair_clash(&pairs) {
                Some(i) => Err(
                    CompileError::AmbiguousPair {
                        condition: pairs[i].condition,
                        first: pairs[i].first,
                        second: pairs[i].second,
                    },
                ),
                None => Ok(Layer { initial_state, singles, pairs }),
            },
        }
    }

    /// Compiles a blueprint list into a layer: expansion into canonical
    /// tables followed by the ambiguity check. No layer is produced from
    /// an ambiguous rule set.
    pub fn compile(initial_state: State, bps: &Vec<Blueprint>) -> (r: Result<Layer, CompileError>)
        ensures
            r is Ok <==> singles_unambiguous(expansion_singles(blueprints_model(bps@)))
                && pairs_unambiguous(expansion_pairs(blueprints_model(bps@))),
            r matches Ok(l) ==> l.initial_state == initial_state && l.single_table()
                == expansion_singles(blueprints_model(bps@)) && l.pair_table() == expansion_pairs(
                blueprints_model(bps@),
            ),
    {
        let (singles, pairs) = expand(bps);
        Layer::from_tables(initial_state, singles, pairs)
    }

    /// Looks up the first single-key entry for `(s, inp)`, returning its
    /// index.
    pub fn find_single(&self, s: State, inp: KeyInput) -> (r: Option<usize>)
        ensures
            match r {
                Some(i) => i < self.singles@.len() && lookup_single(self.single_table(), s, inp)
                    == Some(self.single_table()[i as int]),
                None => lookup_single(self.single_table(), s, inp) is None,
            },
    {
        let n = self.singles.len();
        let mut i: usize = 0;
        proof {
            assert(self.single_table().skip(0) =~= self.single_table());
        }
        while i < n
            invariant
                i <= n,
                n == self.singles@.len(),
                lookup_single(self.single_table(), s, inp) == lookup_single(
                    self.single_table().skip(i as int),
                    s,
                    inp,
                ),
            decreases n - i,
        {
            if self.singles[i].condition == s && self.singles[i].input == inp {
                proof {
                    assert(self.single_table().skip(i as int)[0] == self.single_table()[i as int]);
                }
                return Some(i);
            }
            proof {
                assert(self.single_table().skip(i as int)[0] == self.single_table()[i as int]);
                assert(self.single_table().skip(i as int).skip(1) =~= self.single_table().skip(
                    i + 1,
                ));
            }
            i = i + 1;
        }
        proof {
            assert(self.single_table().skip(n as int) =~= Seq::<SingleRuleModel>::empty());
        }
        None
    }

    /// Looks up the first chord entry keyed in `s` by first key `k`,
    /// returning its index.
    pub fn find_pair_first(&self, s: State, k: Key) -> (r: Option<usize>)
        ensures
            match r {
                Some(i) => i < self.pairs@.len() && lookup_pair_first(self.pair_table(), s, k)
                    == Some(self.pair_table()[i as int]),
                None => lookup_pair_first(self.pair_table(), s, k) is None,
            },
    {
        let n = self.pairs.len();
        let mut i: usize = 0;
        proof {
            assert(self.pair_table().skip(0) =~= self.pair_table());
        }
        while i < n
            invariant
                i <= n,
                n == self.pairs@.len(),
                lookup_pair_first(self.pair_table(), s, k) == lookup_pair_first(
                    self.pair_table().skip(i as int),
                    s,
                    k,
                ),
            decreases n - i,
        {
            if self.pairs[i].condition == s && self.pairs[i].first == k {
                proof {
                    assert(self.pair_table().skip(i as int)[0] == self.pair_table()[i as int]);
                }
                return Some(i);
            }
            proof {
                assert(self.pair_table().skip(i as int)[0] == self.pair_table()[i as int]);
                assert(self.pair_table().skip(i as int).skip(1) =~= self.pair_table().skip(i + 1));
            }
            i = i + 1;
        }
        proof {
            assert(self.pair_table().skip(n as int) =~= Seq::<PairRuleModel>::empty());
        }
        None
    }

    /// Looks up the first chord entry for the ordered press pair
    /// `(first, second)` in state `s`, returning its index.
    pub fn find_pair(&self, s: State, first: Key, second: Key) -> (r: Option<usize>)
        ensures
            match r {
                Some(i) => i < self.pairs@.len() && lookup_pair(self.pair_table(), s, first, second)
                    == Some(self.pair_table()[i as int]),
                None => lookup_pair(self.pair_table(), s, first, second) is None,
            },
    {
        let n = self.pairs.len();
        let mut i: usize = 0;
        proof {
            assert(self.pair_table().skip(0) =~= self.pair_table());
        }
        while i < n
            invariant
                i <= n,
                n == self.pairs@.len(),
                lookup_pair(self.pair_table(), s, first, second) == lookup_pair(
                    self.pair_table().skip(i as int),
                    s,
                    first,
                    second,
                ),
            decreases n - i,
        {
            if self.pairs[i].condition == s && self.pairs[i].first == first && self.pairs[i].second
                == second {
                proof {
                    assert(self.pair_table().skip(i as int)[0] == self.pair_table()[i as int]);
                }
                return Some(i);
            }
            proof {
                assert(self.pair_table().skip(i as int)[0] == self.pair_table()[i as int]);
                assert(self.pair_table().skip(i as int).skip(1) =~= self.pair_table().skip(i + 1));
            }
            i = i + 1;
        }
        proof {
            assert(self.pair_table().skip(n as int) =~= Seq::<PairRuleModel>::empty());
        }
        None
    }
}

/// Finds a single-key entry that clashes with a later one, returning the
/// index of the earlier entry of such a pair.
fn find_single_clash(singles: &Vec<SingleRule>) -> (r: Option<usize>)
    ensures
        match r {
            Some(i) => i < singles@.len() && exists|j: int|
                i < j < singles@.len() && single_clash(
                    singles_model(singles@)[i as int],
                    #[trigger] singles_model(singles@)[j],
                ),
            None => singles_unambiguous(singles_model(singles@)),
        },
{
    let n = singles.len();
    let mut i: usize = 0;
    while i < n
        invariant
            i <= n,
            n == singles@.len(),
            forall|p: int, q: int|
                0 <= p < q < n && p < i ==> !single_clash(
                    #[trigger] singles_model(singles@)[p],
                    #[trigger] singles_model(singles@)[q],
                ),
        decreases n - i,
    {
        let mut j: usize = i + 1;
        while j < n
            invariant
                i < j <= n || (i + 1 == j && j > n),
                i < n,
                n == singles@.len(),
                forall|q: int|
                    i < q < j ==> !single_clash(
                        singles_model(singles@)[i as int],
                        #[trigger] singles_model(singles@)[q],
                    ),
            decreases n - j,
        {
            if singles[j].condition == singles[i].condition && singles[j].input
                == singles[i].input {
                proof {
                    assert(single_clash(
                        singles_model(singles@)[i as int],
                        singles_model(singles@)[j as int],
                    ));
                }
                return Some(i);
            }
            j = j + 1;
        }
        i = i + 1;
    }
    None
}

/// Finds a chord entry that clashes with a later one, returning the
/// index of the earlier entry of such a pair.
fn find_pair_clash(pairs: &Vec<PairRule>) -> (r: Option<usize>)
    ensures
        match r {
            Some(i) => i < pairs@.len() && exists|j: int|
                i < j < pairs@.len() && pair_clash(
                    pairs_model(pairs@)[i as int],
                    #[trigger] pairs_model(pairs@)[j],
                ),
            None => pairs_unambiguous(pairs_model(pairs@)),
        },
{
    let n = pairs.len();
    let mut i: usize = 0;
    while i < n
        invariant
            i <= n,
            n == pairs@.len(),
            forall|p: int, q: int|
                0 <= p < q < n && p < i ==> !pair_clash(
                    #[trigger] pairs_model(pairs@)[p],
                    #[trigger] pairs_model(pairs@)[q],
                ),
        decreases n - i,
    {
        let mut j: usize = i + 1;
        while j < n
            invariant
                i < j <= n || (i + 1 == j && j > n),
                i < n,
                n == pairs@.len(),
                forall|q: int|
                    i < q < j ==> !pair_clash(
                        pairs_model(pairs@)[i as int],
                        #[trigger] pairs_model(pairs@)[q],
                    ),
            decreases n - j,
        {
            if pairs[j].condition == pairs[i].condition && pairs[j].first == pairs[i].first
                && pairs[j].second == pairs[i].second {
                proof {
                    assert(pair_clash(
                        pairs_model(pairs@)[i as int],
                        pairs_model(pairs@)[j as int],
                    ));
                }
                return Some(i);
            }
            j = j + 1;
        }
        i = i + 1;
    }
    None
}

} // verus!
