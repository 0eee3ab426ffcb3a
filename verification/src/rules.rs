//! Rule blueprints and their expansion into canonical transition-table
//! entries.
//!
//! A blueprint is the author-facing declarative record: one or more
//! applicable states, a single key or an unordered key pair, an output
//! sequence, and an optional explicit next state. The expansion
//!
//! * fans a blueprint out over every state it names (one table entry per
//!   named state),
//! * turns a single-key output `[o1..on]` given as bare keys into the
//!   press/release train `[Press(o1), Release(o1), .., Press(on),
//!   Release(on)]` and synthesizes a release-of-input entry with empty
//!   output so no key is left stuck upstream, and
//! * stores a two-key chord as two canonical entries, one per press
//!   order, sharing output, transition and threshold — which is what makes
//!   chord detection press-order-independent.

use crate::keys::{Key, KeyInput};
use crate::keys::{press_of, release_of};
use vstd::prelude::*;

verus! {

/// The state of a layer, drawn from the layer's own closed enumeration of
/// modes, encoded as a plain number. A stateless layer uses a single value.
pub type State = u64;

/// One canonical single-key transition-table entry: in state `condition`,
/// on exactly `input`, emit `output` and move to state `transition`.
#[derive(Debug)]
pub struct SingleRule {
    pub condition: State,
    pub input: KeyInput,
    pub output: Vec<KeyInput>,
    pub transition: State,
}

/// The mathematical value of a [`SingleRule`].
pub ghost struct SingleRuleModel {
    pub condition: State,
    pub input: KeyInput,
    pub output: Seq<KeyInput>,
    pub transition: State,
}

impl View for SingleRule {
    type V = SingleRuleModel;

    open spec fn view(&self) -> SingleRuleModel {
        SingleRuleModel {
            condition: self.condition,
            input: self.input,
            output: self.output@,
            transition: self.transition,
        }
    }
}

/// One canonical chord transition-table entry: in state `condition`, on
/// `Press(first)` followed by `Press(second)` within `threshold`
/// milliseconds, emit `output` and move to state `transition`. A compiled
/// chord is stored twice, once per press order.
#[derive(Debug)]
pub struct PairRule {
    pub condition: State,
    pub first: Key,
    pub second: Key,
    pub output: Vec<KeyInput>,
    pub transition: State,
    pub threshold: u64,
}

/// The mathematical value of a [`PairRule`].
pub ghost struct PairRuleModel {
    pub condition: State,
    pub first: Key,
    pub second: Key,
    pub output: Seq<KeyInput>,
    pub transition: State,
    pub threshold: u64,
}

impl View for PairRule {
    type V = PairRuleModel;

    open spec fn view(&self) -> PairRuleModel {
        PairRuleModel {
            condition: self.condition,
            first: self.first,
            second: self.second,
            output: self.output@,
            transition: self.transition,
            threshold: self.threshold,
        }
    }
}

/// The input-and-output part of a blueprint.
#[derive(Debug)]
pub enum RuleShape {
    /// A single key; the output is given as bare keys. The expansion
    /// emits the press/release train of the output on press of the key,
    /// and synthesizes a silent release-of-input entry.
    Single { key: Key, output: Vec<Key> },
    /// A single key event with the output spelled out event by event,
    /// for rules that must distinguish press from release or hold a key
    /// down across entries. No release entry is synthesized.
    SingleExplicit { input: KeyInput, output: Vec<KeyInput> },
    /// An unordered pair of press events; the output is given as bare
    /// keys and expanded to its press/release train.
    Pair { first: Key, second: Key, output: Vec<Key>, threshold: u64 },
    /// An unordered pair of press events with the output spelled out
    /// event by event.
    PairExplicit { first: Key, second: Key, output: Vec<KeyInput>, threshold: u64 },
}

/// The mathematical value of a [`RuleShape`].
pub ghost enum RuleShapeModel {
    Single { key: Key, output: Seq<Key> },
    SingleExplicit { input: KeyInput, output: Seq<KeyInput> },
    Pair { first: Key, second: Key, output: Seq<Key>, threshold: u64 },
    PairExplicit { first: Key, second: Key, output: Seq<KeyInput>, threshold: u64 },
}

impl View for RuleShape {
    type V = RuleShapeModel;

    open spec fn view(&self) -> RuleShapeModel {
        match self {
            RuleShape::Single { key, output } => RuleShapeModel::Single {
                key: *key,
                output: output@,
            },
            RuleShape::SingleExplicit { input, output } => RuleShapeModel::SingleExplicit {
                input: *input,
                output: output@,
            },
            RuleShape::Pair { first, second, output, threshold } => RuleShapeModel::Pair {
                first: *first,
                second: *second,
                output: output@,
                threshold: *threshold,
            },
            RuleShape::PairExplicit { first, second, output, threshold } => (
                RuleShapeModel::PairExplicit {
                    first: *first,
                    second: *second,
                    output: output@,
                    threshold: *threshold,
                }
            ),
        }
    }
}

/// An author-facing declarative rule record: the states it applies in
/// (never empty), its shape, and the optional explicit next state. When
/// `transition` is omitted, each fanned-out entry keeps its own condition
/// as its next state.
#[derive(Debug)]
pub struct Blueprint {
    pub conditions: Vec<State>,
    pub shape: RuleShape,
    pub transition: Option<State>,
}

/// The mathematical value of a [`Blueprint`].
pub ghost struct BlueprintModel {
    pub conditions: Seq<State>,
    pub shape: RuleShapeModel,
    pub transition: Option<State>,
}

impl View for Blueprint {
    type V = BlueprintModel;

    open spec fn view(&self) -> BlueprintModel {
        BlueprintModel {
            conditions: self.conditions@,
            shape: self.shape@,
            transition: self.transition@,
        }
    }
}

/// The view of a whole table of single-key entries.
pub open spec fn singles_model(rs: Seq<SingleRule>) -> Seq<SingleRuleModel> {
    rs.map_values(|r: SingleRule| r@)
}

/// The view of a whole table of chord entries.
pub open spec fn pairs_model(rs: Seq<PairRule>) -> Seq<PairRuleModel> {
    rs.map_values(|r: PairRule| r@)
}

/// The view of a whole blueprint list.
pub open spec fn blueprints_model(bps: Seq<Blueprint>) -> Seq<BlueprintModel> {
    bps.map_values(|b: Blueprint| b@)
}

/// The next state of an entry fanned out to condition `c`: the explicit
/// target when one is given, else `c` itself.
pub open spec fn default_transition(transition: Option<State>, c: State) -> State {
    match transition {
        Some(t) => t,
        None => c,
    }
}

/// The press/release train of a bare-key output sequence:
/// `[k1, .., kn]` becomes `[Press(k1), Release(k1), .., Press(kn), Release(kn)]`.
pub open spec fn press_release_train(keys: Seq<Key>) -> Seq<KeyInput>
    decreases keys.len(),
{
    if keys.len() == 0 {
        Seq::empty()
    } else {
        press_release_train(keys.drop_last()) + seq![
            press_of(keys.last()),
            release_of(keys.last()),
        ]
    }
}

/// The single-key entries a blueprint contributes at one condition `c`.
pub open spec fn shape_singles_at(bp: BlueprintModel, c: State) -> Seq<SingleRuleModel> {
    match bp.shape {
        RuleShapeModel::Single { key, output } => seq![
            SingleRuleModel {
                condition: c,
                input: press_of(key),
                output: press_release_train(output),
                transition: default_transition(bp.transition, c),
            },
            SingleRuleModel {
                condition: c,
                input: release_of(key),
                output: Seq::empty(),
                transition: default_transition(bp.transition, c),
            },
        ],
        RuleShapeModel::SingleExplicit { input, output } => seq![
            SingleRuleModel {
                condition: c,
                input,
                output,
                transition: default_transition(bp.transition, c),
            },
        ],
        _ => Seq::empty(),
    }
}

/// The chord entries a blueprint contributes at one condition `c`: both
/// press orders of the pair, with identical output, transition and
/// threshold.
pub open spec fn shape_pairs_at(bp: BlueprintModel, c: State) -> Seq<PairRuleModel> {
    match bp.shape {
        RuleShapeModel::Pair { first, second, output, threshold } => seq![
            PairRuleModel {
                condition: c,
                first,
                second,
                output: press_release_train(output),
                transition: default_transition(bp.transition, c),
                threshold,
            },
            PairRuleModel {
                condition: c,
                first: second,
                second: first,
                output: press_release_train(output),
                transition: default_transition(bp.transition, c),
                threshold,
            },
        ],
        RuleShapeModel::PairExplicit { first, second, output, threshold } => seq![
            PairRuleModel {
                condition: c,
                first,
                second,
                output,
                transition: default_transition(bp.transition, c),
                threshold,
            },
            PairRuleModel {
                condition: c,
                first: second,
                second: first,
                output,
                transition: default_transition(bp.transition, c),
                threshold,
            },
        ],
        _ => Seq::empty(),
    }
}

/// The single-key entries of one blueprint fanned out over the first
/// `conds` of its condition list, in order.
pub open spec fn blueprint_singles(bp: BlueprintModel, conds: Seq<State>) -> Seq<SingleRuleModel>
    decreases conds.len(),
{
    if conds.len() == 0 {
        Seq::empty()
    } else {
        blueprint_singles(bp, conds.drop_last()) + shape_singles_at(bp, conds.last())
    }
}

/// The chord entries of one blueprint fanned out over `conds`, in order.
pub open spec fn blueprint_pairs(bp: BlueprintModel, conds: Seq<State>) -> Seq<PairRuleModel>
    decreases conds.len(),
{
    if conds.len() == 0 {
        Seq::empty()
    } else {
        blueprint_pairs(bp, conds.drop_last()) + shape_pairs_at(bp, conds.last())
    }
}

/// The full single-key table of a blueprint list, in declaration order.
pub open spec fn expansion_singles(bps: Seq<BlueprintModel>) -> Seq<SingleRuleModel>
    decreases bps.len(),
{
    if bps.len() == 0 {
        Seq::empty()
    } else {
        expansion_singles(bps.drop_last()) + blueprint_singles(
            bps.last(),
            bps.last().conditions,
        )
    }
}

/// The full chord table of a blueprint list, in declaration order.
pub open spec fn expansion_pairs(bps: Seq<BlueprintModel>) -> Seq<PairRuleModel>
    decreases bps.len(),
{
    if bps.len() == 0 {
        Seq::empty()
    } else {
        expansion_pairs(bps.drop_last()) + blueprint_pairs(bps.last(), bps.last().conditions)
    }
}

/// The modifier-tracking blueprints for one modifier key `k`: pressing
/// `k` in `base` echoes the press and moves to `held`; releasing `k` in
/// `held` echoes the release and moves back to `base`.
pub open spec fn modifier_blueprints_at(k: Key, base: State, held: State) -> Seq<BlueprintModel> {
    seq![
        BlueprintModel {
            conditions: seq![base],
            shape: RuleShapeModel::SingleExplicit {
                input: press_of(k),
                output: seq![press_of(k)],
            },
            transition: Some(held),
        },
        BlueprintModel {
            conditions: seq![held],
            shape: RuleShapeModel::SingleExplicit {
                input: release_of(k),
                output: seq![release_of(k)],
            },
            transition: Some(base),
        },
    ]
}

/// The modifier-tracking blueprints for a whole set of modifier keys.
pub open spec fn modifier_blueprints(mods: Seq<Key>, base: State, held: State) -> Seq<
    BlueprintModel,
>
    decreases mods.len(),
{
    if mods.len() == 0 {
        Seq::empty()
    } else {
        modifier_blueprints(mods.drop_last(), base, held) + modifier_blueprints_at(
            mods.last(),
            base,
            held,
        )
    }
}

/// Generates, for a configured set of modifier keys, the paired entries
/// that move a layer from `base` into the `held` state on modifier press
/// and back on release, echoing the modifier event unchanged. This lets
/// later layers distinguish plain input from modified input without
/// re-deriving modifier state themselves.
pub fn modifier_tracking(mods: &Vec<Key>, base: State, held: State) -> (r: Vec<Blueprint>)
    ensures
        blueprints_model(r@) == modifier_blueprints(mods@, base, held),
{
    let mut r: Vec<Blueprint> = Vec::new();
    let n = mods.len();
    let mut i: usize = 0;
    while i < n
        invariant
            i <= n,
            n == mods.len(),
            blueprints_model(r@) == modifier_blueprints(mods@.take(i as int), base, held),
        decreases n - i,
    {
        let k = mods[i];
        let mut press_conditions: Vec<State> = Vec::new();
        press_conditions.push(base);
        let mut press_output: Vec<KeyInput> = Vec::new();
        press_output.push(KeyInput::press(k));
        r.push(
            Blueprint {
                conditions: press_conditions,
                shape: RuleShape::SingleExplicit { input: KeyInput::press(k), output: press_output },
                transition: Some(held),
            },
        );
        let mut release_conditions: Vec<State> = Vec::new();
        release_conditions.push(held);
        let mut release_output: Vec<KeyInput> = Vec::new();
        release_output.push(KeyInput::release(k));
        r.push(
            Blueprint {
                conditions: release_conditions,
                shape: RuleShape::SingleExplicit {
                    input: KeyInput::release(k),
                    output: release_output,
                },
                transition: Some(base),
            },
        );
        proof {
            assert(mods@.take(i + 1).drop_last() =~= mods@.take(i as int));
            assert(mods@.take(i + 1).last() == mods@[i as int]);
            assert(blueprints_model(r@) =~= modifier_blueprints(mods@.take(i + 1), base, held));
        }
        i = i + 1;
    }
    proof {
        assert(mods@.take(n as int) =~= mods@);
    }
    r
}

/// Copies a sequence of key inputs into a fresh vector.
fn copy_inputs(src: &Vec<KeyInput>) -> (r: Vec<KeyInput>)
    ensures
        r@ == src@,
{
    let mut r: Vec<KeyInput> = Vec::new();
    let n = src.len();
    let mut i: usize = 0;
    while i < n
        invariant
            i <= n,
            n == src.len(),
            r@ == src@.take(i as int),
        decreases n - i,
    {
        r.push(src[i]);
        proof {
            assert(src@.take(i + 1) =~= src@.take(i as int).push(src@[i as int]));
        }
        i = i + 1;
    }
    proof {
        assert(src@.take(n as int) =~= src@);
    }
    r
}

/// Builds the press/release train of a bare-key output sequence.
fn build_train(keys: &Vec<Key>) -> (r: Vec<KeyInput>)
    ensures
        r@ == press_release_train(keys@),
{
    let mut r: Vec<KeyInput> = Vec::new();
    let n = keys.len();
    let mut i: usize = 0;
    while i < n
        invariant
            i <= n,
            n == keys.len(),
            r@ == press_release_train(keys@.take(i as int)),
        decreases n - i,
    {
        let k = keys[i];
        r.push(KeyInput::press(k));
        r.push(KeyInput::release(k));
        proof {
            assert(keys@.take(i + 1).drop_last() =~= keys@.take(i as int));
            assert(keys@.take(i + 1).last() == keys@[i as int]);
            assert(press_release_train(keys@.take(i + 1)) =~= press_release_train(
                keys@.take(i as int),
            ).push(press_of(k)).push(release_of(k)));
        }
        i = i + 1;
    }
    proof {
        assert(keys@.take(n as int) =~= keys@);
    }
    r
}

/// Appends to `singles` and `pairs` the canonical entries of blueprint
/// `bp` at the single condition `c`.
fn expand_at(bp: &Blueprint, c: State, singles: &mut Vec<SingleRule>, pairs: &mut Vec<PairRule>)
    ensures
        singles_model(final(singles)@) == singles_model(old(singles)@) + shape_singles_at(
            bp@,
            c,
        ),
        pairs_model(final(pairs)@) == pairs_model(old(pairs)@) + shape_pairs_at(bp@, c),
{
    let transition = match bp.transition {
        Some(t) => t,
        None => c,
    };
    match &bp.shape {
        RuleShape::Single { key, output } => {
            singles.push(
                SingleRule {
                    condition: c,
                    input: KeyInput::press(*key),
                    output: build_train(output),
                    transition,
                },
            );
            singles.push(
                SingleRule {
                    condition: c,
                    input: KeyInput::release(*key),
                    output: Vec::new(),
                    transition,
                },
            );
            proof {
                assert(singles_model(singles@) =~= singles_model(old(singles)@)
                    + shape_singles_at(bp@, c));
                assert(pairs_model(pairs@) =~= pairs_model(old(pairs)@) + shape_pairs_at(
                    bp@,
                    c,
                ));
            }
        },
        RuleShape::SingleExplicit { input, output } => {
            singles.push(
                SingleRule { condition: c, input: *input, output: copy_inputs(output), transition },
            );
            proof {
                assert(singles_model(singles@) =~= singles_model(old(singles)@)
                    + shape_singles_at(bp@, c));
                assert(pairs_model(pairs@) =~= pairs_model(old(pairs)@) + shape_pairs_at(
                    bp@,
                    c,
                ));
            }
        },
        RuleShape::Pair { first, second, output, threshold } => {
            let train = build_train(output);
            let train2 = copy_inputs(&train);
            pairs.push(
                PairRule {
                    condition: c,
                    first: *first,
                    second: *second,
                    output: train,
                    transition,
                    threshold: *threshold,
                },
            );
            pairs.push(
                PairRule {
                    condition: c,
                    first: *second,
                    second: *first,
                    output: train2,
                    transition,
                    threshold: *threshold,
                },
            );
            proof {
                assert(singles_model(singles@) =~= singles_model(old(singles)@)
                    + shape_singles_at(bp@, c));
                assert(pairs_model(pairs@) =~= pairs_model(old(pairs)@) + shape_pairs_at(
                    bp@,
                    c,
                ));
            }
        },
        RuleShape::PairExplicit { first, second, output, threshold } => {
            pairs.push(
                PairRule {
                    condition: c,
                    first: *first,
                    second: *second,
                    output: copy_inputs(output),
                    transition,
                    threshold: *threshold,
                },
            );
            pairs.push(
                PairRule {
                    condition: c,
                    first: *second,
                    second: *first,
                    output: copy_inputs(output),
                    transition,
                    threshold: *threshold,
                },
            );
            proof {
                assert(singles_model(singles@) =~= singles_model(old(singles)@)
                    + shape_singles_at(bp@, c));
                assert(pairs_model(pairs@) =~= pairs_model(old(pairs)@) + shape_pairs_at(
                    bp@,
                    c,
                ));
            }
        },
    }
}

/// Expands a blueprint list into its canonical single-key and chord
/// tables, in declaration order.
pub fn expand(bps: &Vec<Blueprint>) -> (r: (Vec<SingleRule>, Vec<PairRule>))
    ensures
        singles_model(r.0@) == expansion_singles(blueprints_model(bps@)),
        pairs_model(r.1@) == expansion_pairs(blueprints_model(bps@)),
{
    let mut singles: Vec<SingleRule> = Vec::new();
    let mut pairs: Vec<PairRule> = Vec::new();
    let n = bps.len();
    let mut i: usize = 0;
    while i < n
        invariant
            i <= n,
            n == bps.len(),
            singles_model(singles@) == expansion_singles(blueprints_model(bps@.take(i as int))),
            pairs_model(pairs@) == expansion_pairs(blueprints_model(bps@.take(i as int))),
        decreases n - i,
    {
        let bp = &bps[i];
        let m = bp.conditions.len();
        let mut j: usize = 0;
        while j < m
            invariant
                j <= m,
                m == bp.conditions.len(),
                bp == &bps[i as int],
                i < n,
                n == bps.len(),
                singles_model(singles@) == expansion_singles(
                    blueprints_model(bps@.take(i as int)),
                ) + blueprint_singles(bp@, bp.conditions@.take(j as int)),
                pairs_model(pairs@) == expansion_pairs(blueprints_model(bps@.take(i as int)))
                    + blueprint_pairs(bp@, bp.conditions@.take(j as int)),
            decreases m - j,
        {
            let c = bp.conditions[j];
            expand_at(bp, c, &mut singles, &mut pairs);
            proof {
                assert(bp.conditions@.take(j + 1).drop_last() =~= bp.conditions@.take(j as int));
                assert(bp.conditions@.take(j + 1).last() == bp.conditions@[j as int]);
                assert(singles_model(singles@) =~= expansion_singles(
                    blueprints_model(bps@.take(i as int)),
                ) + blueprint_singles(bp@, bp.conditions@.take(j + 1)));
                assert(pairs_model(pairs@) =~= expansion_pairs(
                    blueprints_model(bps@.take(i as int)),
                ) + blueprint_pairs(bp@, bp.conditions@.take(j + 1)));
            }
            j = j + 1;
        }
        proof {
            assert(bp.conditions@.take(m as int) =~= bp.conditions@);
            assert(blueprints_model(bps@.take(i + 1)).drop_last() =~= blueprints_model(
                bps@.take(i as int),
            ));
            assert(blueprints_model(bps@.take(i + 1)).last() == bps@[i as int]@);
            assert(singles_model(singles@) =~= expansion_singles(
                blueprints_model(bps@.take(i + 1)),
            ));
            assert(pairs_model(pairs@) =~= expansion_pairs(blueprints_model(bps@.take(i + 1))));
        }
        i = i + 1;
    }
    proof {
        assert(bps@.take(n as int) =~= bps@);
        assert(blueprints_model(bps@.take(n as int)) =~= blueprints_model(bps@));
    }
    (singles, pairs)
}

} // verus!
