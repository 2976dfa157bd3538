use std::collections::HashMap;

use ssal_sequencer::assembler::{
    block_builder, AssemblyAction, AssemblyError, AssemblyEvent, AssemblyState,
};
use ssal_sequencer::leader_poll::{
    leader_poller, CursorRead, CycleError, PollObservation, PollStep, SetRead,
};
use ssal_sequencer::ledger::Effect;
use ssal_sequencer::registrar::{registerer, RegistrarStep, RegistrationOutcome};
use ssal_sequencer::types::{
    AssemblyRequest, BlockCommitment, BlockMetadata, RawTransaction, RollupId, SequencerId,
    SequencerSet,
};

struct Records {
    cursors: HashMap<String, BlockMetadata>,
    sets: HashMap<(String, u64), SequencerSet>,
    assemblies: Vec<AssemblyRequest>,
    cursor_heights: Vec<u64>,
    set_writes: usize,
}

fn no_records() -> Records {
    Records {
        cursors: HashMap::new(),
        sets: HashMap::new(),
        assemblies: Vec::new(),
        cursor_heights: Vec::new(),
        set_writes: 0,
    }
}

fn carry_out(records: &mut Records, effects: Vec<Effect>) {
    for effect in effects {
        match effect {
            Effect::TriggerAssembly { request } => records.assemblies.push(request),
            Effect::PersistSequencerSet { rollup_id, height, set } => {
                assert!(!records.sets.contains_key(&(rollup_id.0.clone(), height)));
                records.set_writes += 1;
                records.sets.insert((rollup_id.0, height), set);
            }
            Effect::CreateCursor { rollup_id, metadata } => {
                assert!(!records.cursors.contains_key(&rollup_id.0));
                records.cursor_heights.push(metadata.block_height());
                records.cursors.insert(rollup_id.0, metadata);
            }
            Effect::UpdateCursor { rollup_id, metadata } => {
                assert!(records.cursors.contains_key(&rollup_id.0));
                records.cursor_heights.push(metadata.block_height());
                records.cursors.insert(rollup_id.0, metadata);
            }
        }
    }
}

fn set_led_by(names: &[&str], leader_index: usize) -> SequencerSet {
    let members = names.iter().map(|name| SequencerId::new(name)).collect();
    SequencerSet::new(members, leader_index).unwrap()
}

fn close(
    records: &mut Records,
    rollup: &str,
    node: &str,
    height: u64,
    set: SequencerSet,
    tx_count: u64,
) -> Option<CycleError> {
    let cursor = match records.cursors.get(rollup) {
        Some(metadata) => CursorRead::Found { metadata: metadata.clone(), tx_count },
        None => CursorRead::NotFound,
    };
    let stored = match records.sets.get(&(rollup.to_string(), height)) {
        Some(kept) => SetRead::Found { set: kept.clone() },
        None => SetRead::NotFound,
    };
    let step = leader_poller(
        &RollupId::new(rollup),
        &SequencerId::new(node),
        height,
        PollObservation::Closed { set, stored, cursor },
    );
    match step {
        PollStep::Complete { effects } => {
            carry_out(records, effects);
            None
        }
        PollStep::Abort { error } => Some(error),
        PollStep::Retry { .. } => panic!("a closed set was answered by another poll"),
    }
}

struct Shelf {
    blocks: HashMap<(String, u64), Vec<RawTransaction>>,
    commitments: HashMap<(String, u64), BlockCommitment>,
    block_writes: usize,
    commitment_writes: usize,
    chain_calls: u32,
    failing_write: Option<usize>,
}

fn empty_shelf() -> Shelf {
    Shelf {
        blocks: HashMap::new(),
        commitments: HashMap::new(),
        block_writes: 0,
        commitment_writes: 0,
        chain_calls: 0,
        failing_write: None,
    }
}

fn write_fails(shelf: &Shelf) -> bool {
    shelf.failing_write == Some(shelf.block_writes + shelf.commitment_writes)
}

fn assemble(
    shelf: &mut Shelf,
    request: &AssemblyRequest,
    retry_limit: u32,
    stored: &[Option<RawTransaction>],
    commitment: &BlockCommitment,
    chain_accepts_from_attempt: u32,
) -> AssemblyState {
    let key = (request.rollup_id.0.clone(), request.height);
    let mut state = AssemblyState::Idle;
    let mut event = AssemblyEvent::Started { block_stored: shelf.blocks.contains_key(&key) };
    let mut chain_calls_of_this_run: u32 = 0;
    loop {
        let (next, action) = block_builder(request, retry_limit, state, event);
        state = next;
        event = match action {
            AssemblyAction::Fetch { position } => {
                AssemblyEvent::Fetched { transaction: stored[position as usize].clone() }
            }
            AssemblyAction::Seal { block } => {
                if write_fails(shelf) {
                    shelf.failing_write = None;
                    AssemblyEvent::StoreFailed
                } else {
                    shelf.block_writes += 1;
                    shelf.blocks.insert(key.clone(), block);
                    AssemblyEvent::Committed { commitment: commitment.clone() }
                }
            }
            AssemblyAction::StoreCommitment { commitment } => {
                assert!(shelf.blocks.contains_key(&key));
                if write_fails(shelf) {
                    shelf.failing_write = None;
                    AssemblyEvent::StoreFailed
                } else {
                    shelf.commitment_writes += 1;
                    shelf.commitments.insert(key.clone(), commitment);
                    AssemblyEvent::CommitmentStored
                }
            }
            AssemblyAction::Submit { commitment } => {
                assert!(shelf.blocks.contains_key(&key));
                assert_eq!(shelf.commitments.get(&key), Some(&commitment));
                shelf.chain_calls += 1;
                chain_calls_of_this_run += 1;
                AssemblyEvent::Submitted {
                    accepted: chain_calls_of_this_run >= chain_accepts_from_attempt,
                }
            }
            AssemblyAction::Stop => break,
        };
    }
    state
}

#[test]
fn node_registers_then_leads_one_height_and_follows_the_next() {
    assert_eq!(
        registerer(RegistrationOutcome::Assigned { height: 10 }),
        RegistrarStep::Spawn { height: 10, delay_ms: 500 }
    );

    let mut records = no_records();
    assert_eq!(close(&mut records, "R1", "S1", 11, set_led_by(&["S1", "S2"], 0), 0), None);
    assert_eq!(records.cursors["R1"], BlockMetadata::new(11, true, SequencerId::new("S1")));
    assert!(records.assemblies.is_empty());

    assert_eq!(close(&mut records, "R1", "S1", 12, set_led_by(&["S1", "S2"], 1), 2), None);
    assert_eq!(
        records.assemblies,
        vec![AssemblyRequest {
            rollup_id: RollupId::new("R1"),
            height: 11,
            tx_count: 2,
            is_leader: true,
        }]
    );
    assert_eq!(records.cursors["R1"], BlockMetadata::new(12, false, SequencerId::new("S2")));

    let stored = vec![Some(RawTransaction(vec![1])), Some(RawTransaction(vec![2, 2]))];
    let digest = BlockCommitment(vec![0xc0, 0xde]);
    let mut shelf = empty_shelf();
    let state = assemble(&mut shelf, &records.assemblies[0], 3, &stored, &digest, 1);
    assert_eq!(state, AssemblyState::Finished);
    assert_eq!(
        shelf.blocks[&("R1".to_string(), 11)],
        vec![RawTransaction(vec![1]), RawTransaction(vec![2, 2])]
    );
    assert_eq!(shelf.commitments[&("R1".to_string(), 11)], BlockCommitment(vec![0xc0, 0xde]));
    assert_eq!(shelf.chain_calls, 1);
}

#[test]
fn set_closing_after_five_empty_polls_triggers_one_assembly() {
    let rollup = RollupId::new("R1");
    let node = SequencerId::new("S1");
    let mut answers: Vec<PollObservation> = Vec::new();
    for _ in 0..5 {
        answers.push(PollObservation::NotClosed);
    }
    answers.push(PollObservation::Closed {
        set: set_led_by(&["S1"], 0),
        stored: SetRead::NotFound,
        cursor: CursorRead::Found {
            metadata: BlockMetadata::new(4, false, SequencerId::new("S3")),
            tx_count: 1,
        },
    });
    let mut records = no_records();
    records.cursors.insert("R1".to_string(), BlockMetadata::new(4, false, SequencerId::new("S3")));
    let mut elapsed_ms: u64 = 0;
    let mut polls = 0;
    for observation in answers {
        polls += 1;
        match leader_poller(&rollup, &node, 5, observation) {
            PollStep::Retry { delay_ms } => elapsed_ms += delay_ms,
            PollStep::Complete { effects } => {
                carry_out(&mut records, effects);
                break;
            }
            PollStep::Abort { error } => panic!("the cycle gave up: {:?}", error),
        }
    }
    assert_eq!(polls, 6);
    assert_eq!(elapsed_ms, 500);
    assert_eq!(records.assemblies.len(), 1);
    assert_eq!(records.assemblies[0].height, 4);
    assert_eq!(records.cursors["R1"].block_height(), 5);
}

#[test]
fn empty_closed_set_aborts_and_leaves_the_cursor_alone() {
    let mut records = no_records();
    assert_eq!(close(&mut records, "R1", "S1", 11, set_led_by(&["S1"], 0), 0), None);
    let before = records.cursors["R1"].clone();
    let error = close(&mut records, "R1", "S1", 12, SequencerSet::new(Vec::new(), 0).unwrap(), 3);
    assert_eq!(error, Some(CycleError::NoLeader));
    assert_eq!(records.cursors["R1"], before);
    assert!(records.assemblies.is_empty());
    assert!(!records.sets.contains_key(&("R1".to_string(), 12)));
    assert_eq!(records.cursor_heights, vec![11]);
}

#[test]
fn cursor_follows_rising_heights_and_names_the_latest() {
    let mut records = no_records();
    for height in [11u64, 12, 15, 40] {
        assert_eq!(close(&mut records, "R1", "S1", height, set_led_by(&["S2", "S1"], 0), 0), None);
        assert_eq!(records.cursors["R1"].block_height(), height);
    }
    assert_eq!(records.cursor_heights, vec![11, 12, 15, 40]);
}

#[test]
fn cycle_that_finishes_late_leaves_the_cursor_where_it_is() {
    let mut records = no_records();
    assert_eq!(close(&mut records, "R1", "S1", 12, set_led_by(&["S1"], 0), 0), None);
    let before = records.cursors["R1"].clone();
    assert_eq!(
        close(&mut records, "R1", "S1", 11, set_led_by(&["S2"], 0), 5),
        Some(CycleError::StaleHeight)
    );
    assert_eq!(records.cursors["R1"], before);
    assert!(records.assemblies.is_empty());
    assert!(!records.sets.contains_key(&("R1".to_string(), 11)));
    assert_eq!(records.set_writes, 1);
}

#[test]
fn cursor_never_falls_whatever_order_the_cycles_finish_in() {
    let mut records = no_records();
    let mut highest: u64 = 0;
    for height in [7u64, 3, 7, 9, 8, 9, 1, 20, 20, 19] {
        let _ = close(&mut records, "R1", "S1", height, set_led_by(&["S1"], 0), 0);
        highest = highest.max(height);
        assert_eq!(records.cursors["R1"].block_height(), highest);
    }
    assert_eq!(records.cursor_heights, vec![7, 9, 20]);
    let asked: Vec<u64> = records.assemblies.iter().map(|request| request.height).collect();
    assert_eq!(asked, vec![7, 9]);
}

#[test]
fn heights_on_several_rollups_ask_for_each_block_once() {
    let mut records = no_records();
    for (height, rollup) in [(1u64, "R1"), (7, "R2"), (2, "R1"), (8, "R2"), (3, "R1"), (9, "R2")] {
        assert_eq!(close(&mut records, rollup, "S1", height, set_led_by(&["S1"], 0), 1), None);
    }
    let asked: Vec<(String, u64)> = records
        .assemblies
        .iter()
        .map(|request| (request.rollup_id.0.clone(), request.height))
        .collect();
    assert_eq!(
        asked,
        vec![
            ("R1".to_string(), 1),
            ("R2".to_string(), 7),
            ("R1".to_string(), 2),
            ("R2".to_string(), 8),
        ]
    );
}

#[test]
fn height_closed_twice_has_its_block_asked_for_once() {
    let mut records = no_records();
    assert_eq!(close(&mut records, "R1", "S1", 11, set_led_by(&["S1"], 0), 0), None);
    assert_eq!(
        close(&mut records, "R1", "S1", 11, set_led_by(&["S1"], 0), 0),
        Some(CycleError::StaleHeight)
    );
    assert_eq!(close(&mut records, "R1", "S1", 12, set_led_by(&["S1"], 0), 0), None);
    assert_eq!(
        close(&mut records, "R1", "S1", 12, set_led_by(&["S1"], 0), 0),
        Some(CycleError::StaleHeight)
    );
    let asked: Vec<u64> = records.assemblies.iter().map(|request| request.height).collect();
    assert_eq!(asked, vec![11]);
    assert_eq!(records.cursor_heights, vec![11, 12]);
}

#[test]
fn aborted_cycle_does_not_count_as_a_closure() {
    let mut records = no_records();
    assert_eq!(close(&mut records, "R1", "S1", 11, set_led_by(&["S1"], 0), 0), None);
    assert_eq!(
        close(&mut records, "R1", "S1", 12, SequencerSet::new(Vec::new(), 0).unwrap(), 0),
        Some(CycleError::NoLeader)
    );
    assert_eq!(close(&mut records, "R1", "S1", 12, set_led_by(&["S1"], 0), 0), None);
    let asked: Vec<u64> = records.assemblies.iter().map(|request| request.height).collect();
    assert_eq!(asked, vec![11]);
    assert_eq!(records.cursor_heights, vec![11, 12]);
}

#[test]
fn leader_flag_of_the_cursor_agrees_with_the_stored_set() {
    let mut records = no_records();
    let leaders = [0usize, 1, 1, 0, 2];
    for (step, leader_index) in leaders.iter().enumerate() {
        let height = 20 + step as u64;
        let set = set_led_by(&["S1", "S2", "S3"], *leader_index);
        assert_eq!(close(&mut records, "R1", "S2", height, set, 0), None);
        let cursor = &records.cursors["R1"];
        let stored = &records.sets[&("R1".to_string(), cursor.block_height())];
        assert_eq!(cursor.is_leader(), stored.leader() == Some(SequencerId::new("S2")));
        assert_eq!(Some(cursor.leader_id().clone()), stored.leader());
    }
}

#[test]
fn stored_set_is_kept_when_another_one_closes_for_its_height() {
    let mut records = no_records();
    records.sets.insert(("R1".to_string(), 11), set_led_by(&["S1", "S2"], 1));
    assert_eq!(
        close(&mut records, "R1", "S1", 11, set_led_by(&["S1", "S2"], 0), 0),
        Some(CycleError::ConflictingSet)
    );
    assert_eq!(records.sets[&("R1".to_string(), 11)], set_led_by(&["S1", "S2"], 1));
    assert!(records.cursors.is_empty());
    assert_eq!(records.set_writes, 0);
}

#[test]
fn storing_the_same_set_twice_leaves_the_record_unchanged() {
    let mut records = no_records();
    records.sets.insert(("R1".to_string(), 11), set_led_by(&["S1", "S2"], 1));
    assert_eq!(close(&mut records, "R1", "S1", 11, set_led_by(&["S1", "S2"], 1), 0), None);
    assert_eq!(records.sets[&("R1".to_string(), 11)], set_led_by(&["S1", "S2"], 1));
    assert_eq!(records.sets.len(), 1);
    assert_eq!(records.set_writes, 0);
    assert_eq!(records.cursors["R1"], BlockMetadata::new(11, false, SequencerId::new("S2")));
}

#[test]
fn chain_is_called_only_for_a_height_that_was_led() {
    let stored = vec![Some(RawTransaction(vec![5]))];
    let digest = BlockCommitment(vec![1, 2, 3]);
    for is_leader in [false, true] {
        let request =
            AssemblyRequest { rollup_id: RollupId::new("R1"), height: 3, tx_count: 1, is_leader };
        let mut shelf = empty_shelf();
        let state = assemble(&mut shelf, &request, 2, &stored, &digest, 1);
        assert_eq!(state, AssemblyState::Finished);
        assert_eq!(shelf.block_writes, 1);
        assert_eq!(shelf.commitment_writes, 1);
        assert_eq!(shelf.chain_calls > 0, is_leader);
    }
}

#[test]
fn second_assembly_of_a_height_writes_nothing_again() {
    let request =
        AssemblyRequest { rollup_id: RollupId::new("R1"), height: 3, tx_count: 2, is_leader: true };
    let stored = vec![Some(RawTransaction(vec![5])), Some(RawTransaction(vec![6]))];
    let mut shelf = empty_shelf();
    let first = assemble(&mut shelf, &request, 2, &stored, &BlockCommitment(vec![1]), 1);
    assert_eq!(first, AssemblyState::Finished);
    let changed = vec![Some(RawTransaction(vec![9])), Some(RawTransaction(vec![9]))];
    let second = assemble(&mut shelf, &request, 2, &changed, &BlockCommitment(vec![2]), 1);
    assert_eq!(second, AssemblyState::Finished);
    assert_eq!(shelf.block_writes, 1);
    assert_eq!(shelf.commitment_writes, 1);
    assert_eq!(shelf.chain_calls, 1);
    assert_eq!(shelf.blocks[&("R1".to_string(), 3)], stored.into_iter().flatten().collect::<Vec<_>>());
    assert_eq!(shelf.commitments[&("R1".to_string(), 3)], BlockCommitment(vec![1]));
}

#[test]
fn second_assembly_of_an_empty_height_writes_nothing_again() {
    let request =
        AssemblyRequest { rollup_id: RollupId::new("R1"), height: 3, tx_count: 0, is_leader: false };
    let mut shelf = empty_shelf();
    assert_eq!(
        assemble(&mut shelf, &request, 0, &[], &BlockCommitment(vec![1]), 1),
        AssemblyState::Finished
    );
    assert_eq!(
        assemble(&mut shelf, &request, 0, &[], &BlockCommitment(vec![1]), 1),
        AssemblyState::Finished
    );
    assert_eq!(shelf.block_writes, 1);
    assert_eq!(shelf.commitment_writes, 1);
}

#[test]
fn failed_block_write_sends_nothing() {
    let request =
        AssemblyRequest { rollup_id: RollupId::new("R1"), height: 3, tx_count: 1, is_leader: true };
    let stored = vec![Some(RawTransaction(vec![5]))];
    let mut shelf = empty_shelf();
    shelf.failing_write = Some(0);
    let state = assemble(&mut shelf, &request, 2, &stored, &BlockCommitment(vec![1]), 1);
    assert_eq!(state, AssemblyState::Failed { error: AssemblyError::StoreFailed });
    assert_eq!(shelf.block_writes, 0);
    assert_eq!(shelf.commitment_writes, 0);
    assert_eq!(shelf.chain_calls, 0);
}

#[test]
fn failed_commitment_write_sends_nothing() {
    let request =
        AssemblyRequest { rollup_id: RollupId::new("R1"), height: 3, tx_count: 1, is_leader: true };
    let stored = vec![Some(RawTransaction(vec![5]))];
    let mut shelf = empty_shelf();
    shelf.failing_write = Some(1);
    let state = assemble(&mut shelf, &request, 2, &stored, &BlockCommitment(vec![1]), 1);
    assert_eq!(state, AssemblyState::Failed { error: AssemblyError::StoreFailed });
    assert_eq!(shelf.block_writes, 1);
    assert_eq!(shelf.commitment_writes, 0);
    assert_eq!(shelf.chain_calls, 0);
}

#[test]
fn refused_commitment_is_retried_until_the_chain_takes_it() {
    let request =
        AssemblyRequest { rollup_id: RollupId::new("R1"), height: 3, tx_count: 0, is_leader: true };
    let mut shelf = empty_shelf();
    let state = assemble(&mut shelf, &request, 4, &[], &BlockCommitment(vec![1]), 3);
    assert_eq!(state, AssemblyState::Finished);
    assert_eq!(shelf.blocks[&("R1".to_string(), 3)], Vec::<RawTransaction>::new());
    assert_eq!(shelf.commitment_writes, 1);
    assert_eq!(shelf.chain_calls, 3);
}

#[test]
fn commitment_that_is_never_taken_ends_in_failure_after_the_bounded_attempts() {
    let request =
        AssemblyRequest { rollup_id: RollupId::new("R1"), height: 3, tx_count: 0, is_leader: true };
    let mut shelf = empty_shelf();
    let state = assemble(&mut shelf, &request, 4, &[], &BlockCommitment(vec![1]), u32::MAX);
    assert_eq!(
        state,
        AssemblyState::Failed { error: AssemblyError::SubmissionExhausted { retries: 4 } }
    );
    assert_eq!(shelf.commitment_writes, 1);
    assert_eq!(shelf.chain_calls, 5);
}

#[test]
fn block_with_a_gap_is_never_written() {
    let request =
        AssemblyRequest { rollup_id: RollupId::new("R1"), height: 3, tx_count: 3, is_leader: true };
    let stored = vec![Some(RawTransaction(vec![1])), Some(RawTransaction(vec![2])), None];
    let mut shelf = empty_shelf();
    let state = assemble(&mut shelf, &request, 1, &stored, &BlockCommitment(vec![1]), 1);
    assert_eq!(
        state,
        AssemblyState::Failed { error: AssemblyError::MissingTransaction { position: 2 } }
    );
    assert!(shelf.blocks.is_empty());
    assert!(shelf.commitments.is_empty());
    assert_eq!(shelf.chain_calls, 0);
}
