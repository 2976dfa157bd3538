//! A node over its whole life: the poll cycles and the assemblies that they
//! trigger, taken together.

use vstd::prelude::*;
use crate::assembler::{AssemblyActionView, AssemblyEventView};
use crate::assembly_run::{
    law_chain_called_only_by_leader, law_written_once, publications, run, seals, submissions,
};
use crate::history::{
    assembled_once, law_assembled_once, law_assembly_carries_leadership, replay, Closure,
};
use crate::ledger::Ledger;
use crate::types::{AssemblyRequestView, BlockHeight};

verus! {

/// What one assembly met while it ran: how often it might send a refused
/// commitment again, and what was reported to it, in order.
pub struct AssemblyFeed {
    pub retry_limit: u32,
    pub events: Seq<AssemblyEventView>,
}

/// The actions of the assembly of `request` that met `feed`.
pub open spec fn actions_of(
    request: AssemblyRequestView,
    feed: AssemblyFeed,
) -> Seq<AssemblyActionView> {
    run(request, feed.retry_limit, feed.events).1
}

/// Whether `request` asks for the block of `rollup_id` at `height`.
pub open spec fn is_for(
    request: AssemblyRequestView,
    rollup_id: Seq<char>,
    height: BlockHeight,
) -> bool {
    request.rollup_id == rollup_id && request.height == height
}

/// How often the block of `rollup_id` at `height` is stored when each of
/// `assemblies` runs on the feed at its position in `feeds`.
pub open spec fn block_writes(
    assemblies: Seq<AssemblyRequestView>,
    feeds: Seq<AssemblyFeed>,
    rollup_id: Seq<char>,
    height: BlockHeight,
) -> nat
    decreases assemblies.len(),
{
    if assemblies.len() == 0 || feeds.len() == 0 {
        0
    } else {
        block_writes(assemblies.drop_last(), feeds.drop_last(), rollup_id, height) + if is_for(
            assemblies.last(),
            rollup_id,
            height,
        ) {
            seals(actions_of(assemblies.last(), feeds.last()))
        } else {
            0
        }
    }
}

/// How often the commitment of `rollup_id` at `height` is stored when each of
/// `assemblies` runs on the feed at its position in `feeds`.
pub open spec fn commitment_writes(
    assemblies: Seq<AssemblyRequestView>,
    feeds: Seq<AssemblyFeed>,
    rollup_id: Seq<char>,
    height: BlockHeight,
) -> nat
    decreases assemblies.len(),
{
    if assemblies.len() == 0 || feeds.len() == 0 {
        0
    } else {
        commitment_writes(assemblies.drop_last(), feeds.drop_last(), rollup_id, height) + if is_for(
            assemblies.last(),
            rollup_id,
            height,
        ) {
            publications(actions_of(assemblies.last(), feeds.last()))
        } else {
            0
        }
    }
}

/// How often the chain is called for `rollup_id` at `height` when each of
/// `assemblies` runs on the feed at its position in `feeds`.
pub open spec fn chain_calls(
    assemblies: Seq<AssemblyRequestView>,
    feeds: Seq<AssemblyFeed>,
    rollup_id: Seq<char>,
    height: BlockHeight,
) -> nat
    decreases assemblies.len(),
{
    if assemblies.len() == 0 || feeds.len() == 0 {
        0
    } else {
        chain_calls(assemblies.drop_last(), feeds.drop_last(), rollup_id, height) + if is_for(
            assemblies.last(),
            rollup_id,
            height,
        ) {
            submissions(actions_of(assemblies.last(), feeds.last()))
        } else {
            0
        }
    }
}

/// Where no assembly is for a height, nothing is written or sent for it.
proof fn lemma_nothing_without_assembly(
    assemblies: Seq<AssemblyRequestView>,
    feeds: Seq<AssemblyFeed>,
    rollup_id: Seq<char>,
    height: BlockHeight,
)
    requires
        forall|i: int| 0 <= i < assemblies.len() ==> !is_for(#[trigger] assemblies[i], rollup_id, height),
    ensures
        block_writes(assemblies, feeds, rollup_id, height) == 0,
        commitment_writes(assemblies, feeds, rollup_id, height) == 0,
        chain_calls(assemblies, feeds, rollup_id, height) == 0,
    decreases assemblies.len(),
{
    if assemblies.len() > 0 && feeds.len() > 0 {
        let earlier = assemblies.drop_last();
        assert forall|i: int| 0 <= i < earlier.len() implies !is_for(
            #[trigger] earlier[i],
            rollup_id,
            height,
        ) by {
            assert(earlier[i] == assemblies[i]);
        }
        assert(!is_for(assemblies[assemblies.len() - 1], rollup_id, height));
        lemma_nothing_without_assembly(earlier, feeds.drop_last(), rollup_id, height);
    }
}

/// Where the one assembly for a height stands at `i`, what is written and
/// sent for the height is what that assembly writes and sends.
proof fn lemma_one_assembly_counts(
    assemblies: Seq<AssemblyRequestView>,
    feeds: Seq<AssemblyFeed>,
    rollup_id: Seq<char>,
    height: BlockHeight,
    i: int,
)
    requires
        assembled_once(assemblies),
        feeds.len() == assemblies.len(),
        0 <= i < assemblies.len(),
        is_for(assemblies[i], rollup_id, height),
    ensures
        block_writes(assemblies, feeds, rollup_id, height) == seals(actions_of(assemblies[i], feeds[i])),
        commitment_writes(assemblies, feeds, rollup_id, height) == publications(
            actions_of(assemblies[i], feeds[i]),
        ),
        chain_calls(assemblies, feeds, rollup_id, height) == submissions(
            actions_of(assemblies[i], feeds[i]),
        ),
    decreases assemblies.len(),
{
    let earlier = assemblies.drop_last();
    let last = assemblies.len() - 1;
    if i == last {
        assert forall|j: int| 0 <= j < earlier.len() implies !is_for(
            #[trigger] earlier[j],
            rollup_id,
            height,
        ) by {
            assert(earlier[j] == assemblies[j]);
        }
        lemma_nothing_without_assembly(earlier, feeds.drop_last(), rollup_id, height);
    } else {
        assert(!is_for(assemblies[last], rollup_id, height));
        assert(assembled_once(earlier)) by {
            assert forall|a: int, b: int| 0 <= a < b < earlier.len() implies !(earlier[a].rollup_id
                == earlier[b].rollup_id && earlier[a].height == earlier[b].height) by {
                assert(earlier[a] == assemblies[a] && earlier[b] == assemblies[b]);
            }
        }
        assert(earlier[i] == assemblies[i]);
        assert(feeds.drop_last()[i] == feeds[i]);
        lemma_one_assembly_counts(earlier, feeds.drop_last(), rollup_id, height, i);
    }
}

/// The block of a rollup and height is stored at most once over the whole
/// life of the node, and so is its commitment, which is never stored without
/// the block: in whatever order and for whatever heights the poll cycles
/// finish, and whatever each of the triggered assemblies meets while it runs.
pub proof fn law_block_written_once_per_height(
    sequencer_id: Seq<char>,
    closures: Seq<Closure>,
    feeds: Seq<AssemblyFeed>,
    rollup_id: Seq<char>,
    height: BlockHeight,
)
    requires
        feeds.len() == replay(Ledger::empty(), sequencer_id, closures).assemblies.len(),
    ensures
        ({
            let assemblies = replay(Ledger::empty(), sequencer_id, closures).assemblies;
            &&& block_writes(assemblies, feeds, rollup_id, height) <= 1
            &&& commitment_writes(assemblies, feeds, rollup_id, height) <= block_writes(
                assemblies,
                feeds,
                rollup_id,
                height,
            )
        }),
{
    let assemblies = replay(Ledger::empty(), sequencer_id, closures).assemblies;
    law_assembled_once(sequencer_id, closures);
    if exists|i: int| 0 <= i < assemblies.len() && is_for(#[trigger] assemblies[i], rollup_id, height) {
        let i = choose|i: int|
            0 <= i < assemblies.len() && is_for(#[trigger] assemblies[i], rollup_id, height);
        lemma_one_assembly_counts(assemblies, feeds, rollup_id, height, i);
        law_written_once(assemblies[i], feeds[i].retry_limit, feeds[i].events);
    } else {
        lemma_nothing_without_assembly(assemblies, feeds, rollup_id, height);
    }
}

/// The chain is called for a rollup and height only if the set stored for
/// that height has this node as its leader, and never more often than once
/// and as many times again as the assembly of that height may retry.
pub proof fn law_chain_called_for_led_heights(
    sequencer_id: Seq<char>,
    closures: Seq<Closure>,
    feeds: Seq<AssemblyFeed>,
    rollup_id: Seq<char>,
    height: BlockHeight,
)
    requires
        feeds.len() == replay(Ledger::empty(), sequencer_id, closures).assemblies.len(),
    ensures
        ({
            let ledger = replay(Ledger::empty(), sequencer_id, closures);
            chain_calls(ledger.assemblies, feeds, rollup_id, height) > 0 ==> {
                &&& ledger.sequencer_sets.contains_key((rollup_id, height))
                &&& ledger.sequencer_sets[(rollup_id, height)].leader == Some(sequencer_id)
                &&& exists|i: int|
                    0 <= i < feeds.len() && chain_calls(ledger.assemblies, feeds, rollup_id, height)
                        <= (#[trigger] feeds[i]).retry_limit + 1
            }
        }),
{
    let assemblies = replay(Ledger::empty(), sequencer_id, closures).assemblies;
    law_assembled_once(sequencer_id, closures);
    if exists|i: int| 0 <= i < assemblies.len() && is_for(#[trigger] assemblies[i], rollup_id, height) {
        let i = choose|i: int|
            0 <= i < assemblies.len() && is_for(#[trigger] assemblies[i], rollup_id, height);
        lemma_one_assembly_counts(assemblies, feeds, rollup_id, height, i);
        law_chain_called_only_by_leader(assemblies[i], feeds[i].retry_limit, feeds[i].events);
        law_assembly_carries_leadership(sequencer_id, closures, i);
        assert(chain_calls(assemblies, feeds, rollup_id, height) <= feeds[i].retry_limit + 1);
    } else {
        lemma_nothing_without_assembly(assemblies, feeds, rollup_id, height);
    }
}

} // verus!
