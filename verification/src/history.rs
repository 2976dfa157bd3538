//! What holds of the ledger over whole runs of a node: one poll cycle after
//! another, on one rollup or on many.

use vstd::prelude::*;
use crate::leader_poll::{
    advanced_cursor, poll_step, reconciliation, CursorReadView, PollObservationView, PollStepView,
    SetReadView,
};
use crate::ledger::{EffectView, Ledger};
use crate::types::{
    AssemblyRequestView, BlockHeight, BlockMetadataView, SequencerSetView, TransactionOrder,
};

verus! {

/// One closed set as a node comes to see it: the set of `rollup_id` at
/// `target_height`, and the number of transactions that had been admitted at
/// the height the cursor held at that moment.
pub struct Closure {
    pub rollup_id: Seq<char>,
    pub target_height: BlockHeight,
    pub set: SequencerSetView,
    pub tx_count: TransactionOrder,
}

/// What a cycle reads as the cursor of `rollup_id` from a healthy store.
pub open spec fn cursor_read(
    ledger: Ledger,
    rollup_id: Seq<char>,
    tx_count: TransactionOrder,
) -> CursorReadView {
    match ledger.cursor(rollup_id) {
        Some(metadata) => CursorReadView::Found { metadata, tx_count },
        None => CursorReadView::NotFound,
    }
}

/// What a cycle reads as the set of `rollup_id` at `height` from a healthy
/// store.
pub open spec fn set_read(ledger: Ledger, rollup_id: Seq<char>, height: BlockHeight) -> SetReadView {
    if ledger.sequencer_sets.contains_key((rollup_id, height)) {
        SetReadView::Found { set: ledger.sequencer_sets[(rollup_id, height)] }
    } else {
        SetReadView::NotFound
    }
}

/// The last step of the cycle that sees `closure` on the node `sequencer_id`
/// while the store holds `ledger`.
pub open spec fn last_step(ledger: Ledger, sequencer_id: Seq<char>, closure: Closure) -> PollStepView {
    poll_step(
        closure.rollup_id,
        sequencer_id,
        closure.target_height,
        PollObservationView::Closed {
            set: closure.set,
            stored: set_read(ledger, closure.rollup_id, closure.target_height),
            cursor: cursor_read(ledger, closure.rollup_id, closure.tx_count),
        },
    )
}

/// Whether the cycle that sees `closure` runs to its end: it does unless the
/// set names no leader, another set is stored for the height, or the cursor
/// stands at the height or beyond it.
pub open spec fn finishes(ledger: Ledger, sequencer_id: Seq<char>, closure: Closure) -> bool {
    last_step(ledger, sequencer_id, closure) is Complete
}

/// The ledger after the cycle that saw `closure` on the node `sequencer_id`:
/// the effects of its last step carried out, or the ledger as it was where the
/// cycle gave up.
pub open spec fn complete_cycle(ledger: Ledger, sequencer_id: Seq<char>, closure: Closure) -> Ledger {
    match last_step(ledger, sequencer_id, closure) {
        PollStepView::Complete { effects } => ledger.apply_all(effects),
        _ => ledger,
    }
}

/// The ledger after one cycle for each of `closures`, in their order.
pub open spec fn replay(ledger: Ledger, sequencer_id: Seq<char>, closures: Seq<Closure>) -> Ledger
    decreases closures.len(),
{
    if closures.len() == 0 {
        ledger
    } else {
        complete_cycle(replay(ledger, sequencer_id, closures.drop_last()), sequencer_id, closures.last())
    }
}

/// No two of `assemblies` are for the same rollup and height.
pub open spec fn assembled_once(assemblies: Seq<AssemblyRequestView>) -> bool {
    forall|i: int, j: int|
        0 <= i < j < assemblies.len() ==> !(assemblies[i].rollup_id == assemblies[j].rollup_id
            && assemblies[i].height == assemblies[j].height)
}

/// The ledger after the effects of a finished cycle are carried out.
proof fn lemma_apply_reconciliation(
    ledger: Ledger,
    rollup_id: Seq<char>,
    sequencer_id: Seq<char>,
    target_height: BlockHeight,
    set: SequencerSetView,
    leader: Seq<char>,
    set_is_stored: bool,
    previous: Option<(BlockMetadataView, TransactionOrder)>,
)
    ensures
        ({
            let after = ledger.apply_all(
                reconciliation(
                    rollup_id,
                    sequencer_id,
                    target_height,
                    set,
                    leader,
                    set_is_stored,
                    previous,
                ),
            );
            &&& after.cursors == ledger.cursors.insert(
                rollup_id,
                advanced_cursor(sequencer_id, target_height, leader),
            )
            &&& after.sequencer_sets == if set_is_stored {
                ledger.sequencer_sets
            } else {
                ledger.sequencer_sets.insert((rollup_id, target_height), set)
            }
            &&& after.assemblies == match previous {
                Some((held, tx_count)) => ledger.assemblies.push(
                    AssemblyRequestView {
                        rollup_id,
                        height: held.block_height,
                        tx_count,
                        is_leader: held.is_leader,
                    },
                ),
                None => ledger.assemblies,
            }
        }),
{
    let effects = reconciliation(
        rollup_id,
        sequencer_id,
        target_height,
        set,
        leader,
        set_is_stored,
        previous,
    );
    reveal_with_fuel(Ledger::apply_all, 4);
    let first = ledger.apply(effects[0]);
    if effects.len() == 1 {
        assert(effects.skip(1).len() == 0);
        assert(ledger.apply_all(effects) == first);
    } else if effects.len() == 2 {
        assert(effects.skip(1)[0] == effects[1]);
        assert(effects.skip(1).skip(1).len() == 0);
        assert(ledger.apply_all(effects) == first.apply(effects[1]));
    } else {
        assert(effects.len() == 3);
        assert(effects.skip(1)[0] == effects[1]);
        assert(effects.skip(1).skip(1)[0] == effects[2]);
        assert(effects.skip(1).skip(1).skip(1).len() == 0);
        assert(ledger.apply_all(effects) == first.apply(effects[1]).apply(effects[2]));
    }
}

/// What one cycle does to the three parts of the ledger, and when.
proof fn lemma_complete_cycle(ledger: Ledger, sequencer_id: Seq<char>, closure: Closure)
    ensures
        ({
            let after = complete_cycle(ledger, sequencer_id, closure);
            let key = (closure.rollup_id, closure.target_height);
            &&& finishes(ledger, sequencer_id, closure) <==> {
                &&& closure.set.leader is Some
                &&& ledger.sequencer_sets.contains_key(key) ==> ledger.sequencer_sets[key]
                    == closure.set
                &&& ledger.cursors.contains_key(closure.rollup_id)
                    ==> ledger.cursors[closure.rollup_id].block_height < closure.target_height
            }
            &&& !finishes(ledger, sequencer_id, closure) ==> after == ledger
            &&& finishes(ledger, sequencer_id, closure) ==> {
                &&& after.cursors == ledger.cursors.insert(
                    closure.rollup_id,
                    advanced_cursor(
                        sequencer_id,
                        closure.target_height,
                        closure.set.leader.unwrap(),
                    ),
                )
                &&& after.sequencer_sets == ledger.sequencer_sets.insert(key, closure.set)
                &&& after.assemblies == match ledger.cursor(closure.rollup_id) {
                    Some(held) => ledger.assemblies.push(
                        AssemblyRequestView {
                            rollup_id: closure.rollup_id,
                            height: held.block_height,
                            tx_count: closure.tx_count,
                            is_leader: held.is_leader,
                        },
                    ),
                    None => ledger.assemblies,
                }
            }
        }),
{
    if finishes(ledger, sequencer_id, closure) {
        let key = (closure.rollup_id, closure.target_height);
        let previous = match ledger.cursor(closure.rollup_id) {
            Some(metadata) => Some((metadata, closure.tx_count)),
            None => None,
        };
        let stored = ledger.sequencer_sets.contains_key(key);
        lemma_apply_reconciliation(
            ledger,
            closure.rollup_id,
            sequencer_id,
            closure.target_height,
            closure.set,
            closure.set.leader.unwrap(),
            stored,
            previous,
        );
        if stored {
            assert(ledger.sequencer_sets.insert(key, closure.set) =~= ledger.sequencer_sets);
        }
    }
}

/// A cycle that finishes leaves the cursor of its rollup naming the height
/// that closed and its leader, with the leader flag set exactly when the
/// leader is this node, and leaves the closed set stored for that height. The
/// cursors of other rollups stay as they were.
pub proof fn law_cursor_names_closed_height(ledger: Ledger, sequencer_id: Seq<char>, closure: Closure)
    requires
        finishes(ledger, sequencer_id, closure),
    ensures
        closure.set.leader is Some,
        complete_cycle(ledger, sequencer_id, closure).cursor(closure.rollup_id) == Some(
            BlockMetadataView {
                block_height: closure.target_height,
                is_leader: closure.set.leader.unwrap() == sequencer_id,
                leader_id: closure.set.leader.unwrap(),
            },
        ),
        set_read(
            complete_cycle(ledger, sequencer_id, closure),
            closure.rollup_id,
            closure.target_height,
        ) == (SetReadView::Found { set: closure.set }),
        forall|other: Seq<char>|
            other != closure.rollup_id ==> complete_cycle(ledger, sequencer_id, closure).cursor(
                other,
            ) == ledger.cursor(other),
{
    lemma_complete_cycle(ledger, sequencer_id, closure);
}

/// A cycle that does not finish writes nothing and triggers nothing: the
/// ledger stays as it was. No cycle finishes on a set that names no leader, as
/// no set without members does; on a height for which another set is stored;
/// or on a height that the cursor of the rollup has reached or passed.
pub proof fn law_refused_cycle_changes_nothing(
    ledger: Ledger,
    sequencer_id: Seq<char>,
    closure: Closure,
)
    ensures
        !finishes(ledger, sequencer_id, closure) ==> complete_cycle(ledger, sequencer_id, closure)
            == ledger,
        closure.set.leader is None ==> !finishes(ledger, sequencer_id, closure),
        set_read(ledger, closure.rollup_id, closure.target_height) matches SetReadView::Found { set }
            && set != closure.set ==> !finishes(ledger, sequencer_id, closure),
        ledger.cursor(closure.rollup_id) matches Some(held) && closure.target_height
            <= held.block_height ==> !finishes(ledger, sequencer_id, closure),
{
    lemma_complete_cycle(ledger, sequencer_id, closure);
}

/// The effects of a finished cycle hold at most one assembly trigger, and hold
/// it exactly where a cursor was found: for the height and the leadership that
/// the cursor recorded. The trigger stands before every write, and the cursor
/// is written last, so the cursor never names the new height while the block
/// of the old one is unrequested.
pub proof fn law_trigger_precedes_cursor(
    rollup_id: Seq<char>,
    sequencer_id: Seq<char>,
    target_height: BlockHeight,
    observation: PollObservationView,
)
    ensures
        poll_step(rollup_id, sequencer_id, target_height, observation) matches PollStepView::Complete {
            effects,
        } ==> {
            &&& observation matches PollObservationView::Closed { set, stored, cursor }
            &&& forall|i: int|
                0 < i < effects.len() ==> !(#[trigger] effects[i] is TriggerAssembly)
            &&& effects.len() > 0
            &&& match cursor {
                CursorReadView::Found { metadata, tx_count } => effects[0]
                    == (EffectView::TriggerAssembly {
                    request: AssemblyRequestView {
                        rollup_id,
                        height: metadata.block_height,
                        tx_count,
                        is_leader: metadata.is_leader,
                    },
                }),
                _ => !(effects[0] is TriggerAssembly),
            }
            &&& effects.last() is CreateCursor || effects.last() is UpdateCursor
            &&& forall|i: int|
                0 <= i < effects.len() - 1 ==> !(#[trigger] effects[i] is CreateCursor)
                    && !(effects[i] is UpdateCursor)
        },
{
}

/// No cycle lowers a cursor, whatever the store holds and whatever height the
/// cycle was started for: the cursor of every rollup stays where it was or
/// moves up. A cycle that finishes moves the cursor of its rollup, if there
/// was one, strictly up, to the height that closed.
pub proof fn law_cursor_never_falls(ledger: Ledger, sequencer_id: Seq<char>, closure: Closure)
    ensures
        forall|rollup_id: Seq<char>| #[trigger]
            ledger.cursors.contains_key(rollup_id) ==> {
                let after = complete_cycle(ledger, sequencer_id, closure);
                &&& after.cursors.contains_key(rollup_id)
                &&& ledger.cursors[rollup_id].block_height <= after.cursors[rollup_id].block_height
            },
        finishes(ledger, sequencer_id, closure) ==> {
            let after = complete_cycle(ledger, sequencer_id, closure);
            &&& after.cursors.contains_key(closure.rollup_id)
            &&& after.cursors[closure.rollup_id].block_height == closure.target_height
            &&& ledger.cursors.contains_key(closure.rollup_id)
                ==> ledger.cursors[closure.rollup_id].block_height < closure.target_height
        },
{
    lemma_complete_cycle(ledger, sequencer_id, closure);
}

/// Over any run of cycles, from any ledger, the cursor of a rollup ends at or
/// above the height at which it started.
pub proof fn law_cursor_never_falls_over_history(
    ledger: Ledger,
    sequencer_id: Seq<char>,
    closures: Seq<Closure>,
    rollup_id: Seq<char>,
)
    requires
        ledger.cursors.contains_key(rollup_id),
    ensures
        replay(ledger, sequencer_id, closures).cursors.contains_key(rollup_id),
        ledger.cursors[rollup_id].block_height <= replay(
            ledger,
            sequencer_id,
            closures,
        ).cursors[rollup_id].block_height,
    decreases closures.len(),
{
    if closures.len() > 0 {
        law_cursor_never_falls_over_history(ledger, sequencer_id, closures.drop_last(), rollup_id);
        let before = replay(ledger, sequencer_id, closures.drop_last());
        law_cursor_never_falls(before, sequencer_id, closures.last());
        assert(before.cursors.contains_key(rollup_id));
    }
}

/// No cycle writes over a stored set, whatever the store holds and whatever
/// set the cycle saw close: every set that the ledger holds is held unchanged
/// afterwards.
pub proof fn law_set_never_overwritten(ledger: Ledger, sequencer_id: Seq<char>, closure: Closure)
    ensures
        forall|rollup_id: Seq<char>, height: BlockHeight| #[trigger]
            ledger.sequencer_sets.contains_key((rollup_id, height)) ==> {
                let after = complete_cycle(ledger, sequencer_id, closure);
                &&& after.sequencer_sets.contains_key((rollup_id, height))
                &&& after.sequencer_sets[(rollup_id, height)] == ledger.sequencer_sets[(
                    rollup_id,
                    height,
                )]
            },
{
    lemma_complete_cycle(ledger, sequencer_id, closure);
}

/// Over any run of cycles, from any ledger, a set that is stored stays stored
/// as it is.
pub proof fn law_set_never_overwritten_over_history(
    ledger: Ledger,
    sequencer_id: Seq<char>,
    closures: Seq<Closure>,
    rollup_id: Seq<char>,
    height: BlockHeight,
)
    requires
        ledger.sequencer_sets.contains_key((rollup_id, height)),
    ensures
        replay(ledger, sequencer_id, closures).sequencer_sets.contains_key((rollup_id, height)),
        replay(ledger, sequencer_id, closures).sequencer_sets[(rollup_id, height)]
            == ledger.sequencer_sets[(rollup_id, height)],
    decreases closures.len(),
{
    if closures.len() > 0 {
        law_set_never_overwritten_over_history(
            ledger,
            sequencer_id,
            closures.drop_last(),
            rollup_id,
            height,
        );
        let before = replay(ledger, sequencer_id, closures.drop_last());
        law_set_never_overwritten(before, sequencer_id, closures.last());
        assert(before.sequencer_sets.contains_key((rollup_id, height)));
    }
}

/// The leader flag of every cursor of `ledger` agrees with the set stored for
/// the height that the cursor names.
spec fn flags_match_sets(ledger: Ledger, sequencer_id: Seq<char>) -> bool {
    forall|rollup_id: Seq<char>| #[trigger]
        ledger.cursors.contains_key(rollup_id) ==> {
            let held = ledger.cursors[rollup_id];
            &&& ledger.sequencer_sets.contains_key((rollup_id, held.block_height))
            &&& ledger.sequencer_sets[(rollup_id, held.block_height)].leader == Some(held.leader_id)
            &&& held.is_leader == (held.leader_id == sequencer_id)
        }
}

/// Every assembly of `ledger` is for a height below the cursor of its rollup.
spec fn assemblies_behind(ledger: Ledger) -> bool {
    forall|i: int|
        0 <= i < ledger.assemblies.len() ==> ledger.cursors.contains_key(
            (#[trigger] ledger.assemblies[i]).rollup_id,
        ) && ledger.assemblies[i].height < ledger.cursors[ledger.assemblies[i].rollup_id].block_height
}

/// Every assembly of `ledger` carries the leadership that the set stored for
/// its height gives.
spec fn assemblies_match_sets(ledger: Ledger, sequencer_id: Seq<char>) -> bool {
    forall|i: int|
        0 <= i < ledger.assemblies.len() ==> {
            let request = #[trigger] ledger.assemblies[i];
            &&& ledger.sequencer_sets.contains_key((request.rollup_id, request.height))
            &&& request.is_leader == (ledger.sequencer_sets[(
                request.rollup_id,
                request.height,
            )].leader == Some(sequencer_id))
        }
}

/// What every history keeps true of the ledger of a node that started with
/// nothing.
proof fn lemma_history(sequencer_id: Seq<char>, closures: Seq<Closure>)
    ensures
        flags_match_sets(replay(Ledger::empty(), sequencer_id, closures), sequencer_id),
        assemblies_behind(replay(Ledger::empty(), sequencer_id, closures)),
        assembled_once(replay(Ledger::empty(), sequencer_id, closures).assemblies),
        assemblies_match_sets(replay(Ledger::empty(), sequencer_id, closures), sequencer_id),
    decreases closures.len(),
{
    if closures.len() > 0 {
        let closure = closures.last();
        let before = replay(Ledger::empty(), sequencer_id, closures.drop_last());
        let after = replay(Ledger::empty(), sequencer_id, closures);
        lemma_history(sequencer_id, closures.drop_last());
        lemma_complete_cycle(before, sequencer_id, closure);
        if finishes(before, sequencer_id, closure) {
            let rollup_id = closure.rollup_id;
            assert forall|i: int| 0 <= i < after.assemblies.len() implies after.cursors.contains_key(
                (#[trigger] after.assemblies[i]).rollup_id,
            ) && after.assemblies[i].height < after.cursors[after.assemblies[i].rollup_id].block_height by {
                if i < before.assemblies.len() {
                    assert(after.assemblies[i] == before.assemblies[i]);
                }
            }
            assert forall|i: int, j: int| 0 <= i < j < after.assemblies.len() implies !(
            after.assemblies[i].rollup_id == after.assemblies[j].rollup_id && after.assemblies[i].height
                == after.assemblies[j].height) by {
                assert(after.assemblies[i] == before.assemblies[i]);
                if j < before.assemblies.len() {
                    assert(after.assemblies[j] == before.assemblies[j]);
                }
            }
            assert forall|i: int| 0 <= i < after.assemblies.len() implies {
                let request = #[trigger] after.assemblies[i];
                &&& after.sequencer_sets.contains_key((request.rollup_id, request.height))
                &&& request.is_leader == (after.sequencer_sets[(
                    request.rollup_id,
                    request.height,
                )].leader == Some(sequencer_id))
            } by {
                if i < before.assemblies.len() {
                    assert(after.assemblies[i] == before.assemblies[i]);
                } else {
                    assert(before.cursors.contains_key(rollup_id));
                }
            }
            assert forall|other: Seq<char>| #[trigger] after.cursors.contains_key(other) implies {
                let held = after.cursors[other];
                &&& after.sequencer_sets.contains_key((other, held.block_height))
                &&& after.sequencer_sets[(other, held.block_height)].leader == Some(held.leader_id)
                &&& held.is_leader == (held.leader_id == sequencer_id)
            } by {
                if other != rollup_id {
                    assert(before.cursors.contains_key(other));
                }
            }
        }
    }
}

/// The leader flag of a cursor is true exactly when the set stored for the
/// height that the cursor names has this node as its leader: after any run of
/// cycles, for every rollup.
pub proof fn law_leader_flag_matches_set(
    sequencer_id: Seq<char>,
    closures: Seq<Closure>,
    rollup_id: Seq<char>,
)
    ensures
        replay(Ledger::empty(), sequencer_id, closures).cursor(rollup_id) matches Some(held) ==> {
            let sets = replay(Ledger::empty(), sequencer_id, closures).sequencer_sets;
            &&& sets.contains_key((rollup_id, held.block_height))
            &&& held.is_leader == (sets[(rollup_id, held.block_height)].leader == Some(sequencer_id))
            &&& sets[(rollup_id, held.block_height)].leader == Some(held.leader_id)
        },
{
    lemma_history(sequencer_id, closures);
    let ledger = replay(Ledger::empty(), sequencer_id, closures);
    if ledger.cursors.contains_key(rollup_id) {
    }
}

/// No block is asked for twice: over any run of cycles, in whatever order and
/// for whatever heights they finish, the assemblies triggered are for
/// pairwise different pairs of rollup and height.
pub proof fn law_assembled_once(sequencer_id: Seq<char>, closures: Seq<Closure>)
    ensures
        assembled_once(replay(Ledger::empty(), sequencer_id, closures).assemblies),
{
    lemma_history(sequencer_id, closures);
}

/// Every assembly is for a height whose set is stored, and is marked as the
/// leader's exactly when that set has this node as its leader.
pub proof fn law_assembly_carries_leadership(
    sequencer_id: Seq<char>,
    closures: Seq<Closure>,
    i: int,
)
    requires
        0 <= i < replay(Ledger::empty(), sequencer_id, closures).assemblies.len(),
    ensures
        ({
            let ledger = replay(Ledger::empty(), sequencer_id, closures);
            let request = ledger.assemblies[i];
            &&& ledger.sequencer_sets.contains_key((request.rollup_id, request.height))
            &&& request.is_leader == (ledger.sequencer_sets[(
                request.rollup_id,
                request.height,
            )].leader == Some(sequencer_id))
        }),
{
    lemma_history(sequencer_id, closures);
}

} // verus!
