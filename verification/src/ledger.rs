//! What a finished poll cycle does to the records of a rollup, and a model of
//! those records to say it over.

use vstd::prelude::*;
use crate::types::{
    AssemblyRequest, AssemblyRequestView, BlockHeight, BlockMetadata, BlockMetadataView, RollupId,
    SequencerSet, SequencerSetView,
};

verus! {

/// An effect as a mathematical value.
pub enum EffectView {
    TriggerAssembly { request: AssemblyRequestView },
    PersistSequencerSet { rollup_id: Seq<char>, height: BlockHeight, set: SequencerSetView },
    CreateCursor { rollup_id: Seq<char>, metadata: BlockMetadataView },
    UpdateCursor { rollup_id: Seq<char>, metadata: BlockMetadataView },
}

/// One thing that a finished poll cycle asks of its caller. The caller carries
/// the effects of a cycle out in the order in which they are listed, and the
/// writes among them all together or not at all.
#[derive(Debug, PartialEq, Eq)]
pub enum Effect {
    /// Start a block assembler on `request`.
    TriggerAssembly { request: AssemblyRequest },
    /// Store `set` as the sequencer set of `rollup_id` at `height`. A cycle
    /// asks for this only where it read that no set is stored there.
    PersistSequencerSet { rollup_id: RollupId, height: BlockHeight, set: SequencerSet },
    /// Store `metadata` as the first cursor of `rollup_id`.
    CreateCursor { rollup_id: RollupId, metadata: BlockMetadata },
    /// Replace the cursor of `rollup_id` by `metadata` and commit the change.
    UpdateCursor { rollup_id: RollupId, metadata: BlockMetadata },
}

impl View for Effect {
    type V = EffectView;

    open spec fn view(&self) -> EffectView {
        match *self {
            Effect::TriggerAssembly { request } => EffectView::TriggerAssembly { request: request@ },
            Effect::PersistSequencerSet { rollup_id, height, set } => EffectView::PersistSequencerSet {
                rollup_id: rollup_id@,
                height,
                set: set@,
            },
            Effect::CreateCursor { rollup_id, metadata } => EffectView::CreateCursor {
                rollup_id: rollup_id@,
                metadata: metadata@,
            },
            Effect::UpdateCursor { rollup_id, metadata } => EffectView::UpdateCursor {
                rollup_id: rollup_id@,
                metadata: metadata@,
            },
        }
    }
}

/// The effects of `effects` as mathematical values, in their order.
pub open spec fn effects_view(effects: Seq<Effect>) -> Seq<EffectView> {
    Seq::new(effects.len(), |i: int| effects[i]@)
}

/// The records that poll cycles have left behind: the cursor of each rollup,
/// the sequencer set of each rollup and height, and every assembly that was
/// triggered, oldest first.
pub struct Ledger {
    pub cursors: Map<Seq<char>, BlockMetadataView>,
    pub sequencer_sets: Map<(Seq<char>, BlockHeight), SequencerSetView>,
    pub assemblies: Seq<AssemblyRequestView>,
}

impl Ledger {
    /// The ledger of a node that has seen nothing close yet.
    pub open spec fn empty() -> Ledger {
        Ledger { cursors: Map::empty(), sequencer_sets: Map::empty(), assemblies: Seq::empty() }
    }

    /// The cursor of `rollup_id`, if one was ever written.
    pub open spec fn cursor(self, rollup_id: Seq<char>) -> Option<BlockMetadataView> {
        if self.cursors.contains_key(rollup_id) {
            Some(self.cursors[rollup_id])
        } else {
            None
        }
    }

    /// The ledger once `effect` is carried out.
    pub open spec fn apply(self, effect: EffectView) -> Ledger {
        match effect {
            EffectView::TriggerAssembly { request } => Ledger {
                assemblies: self.assemblies.push(request),
                ..self
            },
            EffectView::PersistSequencerSet { rollup_id, height, set } => Ledger {
                sequencer_sets: self.sequencer_sets.insert((rollup_id, height), set),
                ..self
            },
            EffectView::CreateCursor { rollup_id, metadata } => Ledger {
                cursors: self.cursors.insert(rollup_id, metadata),
                ..self
            },
            EffectView::UpdateCursor { rollup_id, metadata } => Ledger {
                cursors: self.cursors.insert(rollup_id, metadata),
                ..self
            },
        }
    }

    /// The ledger once `effects` are carried out, first to last.
    pub open spec fn apply_all(self, effects: Seq<EffectView>) -> Ledger
        decreases effects.len(),
    {
        if effects.len() == 0 {
            self
        } else {
            self.apply(effects[0]).apply_all(effects.skip(1))
        }
    }
}

/// Storing a sequencer set a second time under the same rollup and height
/// changes nothing: the ledger after both writes is the ledger after the
/// first.
pub proof fn law_set_persistence_idempotent(
    ledger: Ledger,
    rollup_id: Seq<char>,
    height: BlockHeight,
    set: SequencerSetView,
)
    ensures
        ({
            let write = EffectView::PersistSequencerSet { rollup_id, height, set };
            ledger.apply(write).apply(write) == ledger.apply(write)
        }),
        ({
            let write = EffectView::PersistSequencerSet { rollup_id, height, set };
            ledger.sequencer_sets.contains_key((rollup_id, height)) && ledger.sequencer_sets[(
                rollup_id,
                height,
            )] == set ==> ledger.apply(write) == ledger
        }),
{
    let write = EffectView::PersistSequencerSet { rollup_id, height, set };
    let once = ledger.apply(write);
    assert(once.apply(write).sequencer_sets =~= once.sequencer_sets);
    if ledger.sequencer_sets.contains_key((rollup_id, height)) && ledger.sequencer_sets[(
        rollup_id,
        height,
    )] == set {
        assert(once.sequencer_sets =~= ledger.sequencer_sets);
    }
}

} // verus!
