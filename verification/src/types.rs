//! Identifiers, payloads and records shared by the three tasks.

use vstd::prelude::*;

verus! {

/// Ordinal of a sequencing round of a rollup.
pub type BlockHeight = u64;

/// Number of transactions admitted at a height. Their positions run from zero
/// up to the count, the count itself left out.
pub type TransactionOrder = u64;

/// Identifier of a rollup instance.
#[derive(Debug, PartialEq, Eq, Hash)]
pub struct RollupId(pub String);

impl View for RollupId {
    type V = Seq<char>;

    open spec fn view(&self) -> Seq<char> {
        self.0@
    }
}

impl Clone for RollupId {
    fn clone(&self) -> (res: Self)
        ensures
            res@ == self@,
    {
        RollupId(self.0.clone())
    }
}

impl RollupId {
    /// The identifier spelled by `id`.
    pub fn new(id: &str) -> (res: Self)
        ensures
            res@ == id@,
    {
        RollupId(id.to_owned())
    }

    /// Whether both identifiers name the same rollup.
    pub fn same_as(&self, other: &RollupId) -> (res: bool)
        ensures
            res == (self@ == other@),
    {
        self.0 == other.0
    }
}

/// Identifier of a candidate sequencer: this node or any other.
#[derive(Debug, PartialEq, Eq, Hash)]
pub struct SequencerId(pub String);

impl View for SequencerId {
    type V = Seq<char>;

    open spec fn view(&self) -> Seq<char> {
        self.0@
    }
}

impl Clone for SequencerId {
    fn clone(&self) -> (res: Self)
        ensures
            res@ == self@,
    {
        SequencerId(self.0.clone())
    }
}

impl SequencerId {
    /// The identifier spelled by `id`.
    pub fn new(id: &str) -> (res: Self)
        ensures
            res@ == id@,
    {
        SequencerId(id.to_owned())
    }

    /// Whether both identifiers name the same sequencer.
    pub fn same_as(&self, other: &SequencerId) -> (res: bool)
        ensures
            res == (self@ == other@),
    {
        self.0 == other.0
    }
}

/// Payload of one admitted transaction. The bytes mean nothing here.
#[derive(Debug, PartialEq, Eq)]
pub struct RawTransaction(pub Vec<u8>);

impl View for RawTransaction {
    type V = Seq<u8>;

    open spec fn view(&self) -> Seq<u8> {
        self.0@
    }
}

impl Clone for RawTransaction {
    fn clone(&self) -> (res: Self)
        ensures
            res@ == self@,
    {
        let bytes = self.0.clone();
        assert(bytes@ =~= self.0@);
        RawTransaction(bytes)
    }
}

/// Digest of an assembled block, as the commitment function gave it.
#[derive(Debug, PartialEq, Eq)]
pub struct BlockCommitment(pub Vec<u8>);

impl View for BlockCommitment {
    type V = Seq<u8>;

    open spec fn view(&self) -> Seq<u8> {
        self.0@
    }
}

impl Clone for BlockCommitment {
    fn clone(&self) -> (res: Self)
        ensures
            res@ == self@,
    {
        let bytes = self.0.clone();
        assert(bytes@ =~= self.0@);
        BlockCommitment(bytes)
    }
}

/// The transactions of a block as plain byte strings, in block order.
pub open spec fn transactions_view(block: Seq<RawTransaction>) -> Seq<Seq<u8>> {
    Seq::new(block.len(), |i: int| block[i]@)
}

/// The identifiers of `members` as plain strings, in their order.
pub open spec fn members_view(members: Seq<SequencerId>) -> Seq<Seq<char>> {
    Seq::new(members.len(), |i: int| members[i]@)
}

/// How an outside call failed, once the caller has told apart what is worth
/// another try from what is not.
#[derive(Clone, Copy, Debug, PartialEq, Eq, Structural)]
pub enum FailureKind {
    /// A network fault or a timeout: the same call may succeed later.
    Transient,
    /// A fault that repeating the call cannot mend.
    Fatal,
}

/// A closed sequencer set as a mathematical value: the candidates in their
/// order, and the one among them that leads.
pub struct SequencerSetView {
    pub members: Seq<Seq<char>>,
    pub leader: Option<Seq<char>>,
}

impl SequencerSetView {
    /// A set names a leader exactly when it has a member, and the leader is
    /// one of its members.
    pub open spec fn wf(self) -> bool {
        &&& self.leader is None <==> self.members.len() == 0
        &&& self.leader matches Some(id) ==> self.members.contains(id)
    }
}

/// The closed, ordered set of candidate sequencers of one rollup at one
/// height, with the leader that was designated when it closed.
#[derive(Debug, PartialEq, Eq)]
pub struct SequencerSet {
    members: Vec<SequencerId>,
    leader_index: usize,
}

impl View for SequencerSet {
    type V = SequencerSetView;

    closed spec fn view(&self) -> SequencerSetView {
        SequencerSetView {
            members: members_view(self.members@),
            leader: if self.leader_index < self.members.len() {
                Some(self.members[self.leader_index as int]@)
            } else {
                None
            },
        }
    }
}

impl Clone for SequencerSet {
    fn clone(&self) -> (res: Self)
        ensures
            res@ == self@,
    {
        let count = self.members.len();
        let mut members: Vec<SequencerId> = Vec::new();
        let mut position: usize = 0;
        while position < count
            invariant
                position <= count,
                count == self.members.len(),
                members.len() == position,
                forall|i: int| 0 <= i < position ==> members[i]@ == self.members[i]@,
            decreases count - position,
        {
            members.push(self.members[position].clone());
            position += 1;
        }
        proof {
            use_type_invariant(self);
            assert(members_view(members@) =~= members_view(self.members@));
            assert forall|i: int| 0 <= i < self.leader_index implies (#[trigger] members[i])@
                != members[self.leader_index as int]@ by {
                assert(members[i]@ == self.members[i]@);
            }
        }
        SequencerSet { members, leader_index: self.leader_index }
    }
}

impl SequencerSet {
    #[verifier::type_invariant]
    spec fn inv(self) -> bool {
        if self.members.len() == 0 {
            self.leader_index == 0
        } else {
            &&& self.leader_index < self.members.len()
            &&& forall|i: int|
                0 <= i < self.leader_index ==> (#[trigger] self.members[i])@
                    != self.members[self.leader_index as int]@
        }
    }

    /// The set of `members` led by the one at `leader_index`. A set without
    /// members has no leader, whatever the index; with members, the index has
    /// to name one of them. Of the index, the set keeps only whom it names:
    /// two sets with the same members and the same leader are the same set.
    pub fn new(members: Vec<SequencerId>, leader_index: usize) -> (res: Option<SequencerSet>)
        ensures
            res is Some <==> (members.len() == 0 || leader_index < members.len()),
            res matches Some(set) ==> {
                &&& set@.wf()
                &&& set@.members == members_view(members@)
                &&& set@.leader == if members.len() == 0 {
                    None
                } else {
                    Some(members[leader_index as int]@)
                }
            },
    {
        if members.len() == 0 {
            Some(SequencerSet { members, leader_index: 0 })
        } else if leader_index < members.len() {
            let mut first: usize = leader_index;
            let mut position: usize = leader_index;
            while position > 0
                invariant
                    position <= first <= leader_index < members.len(),
                    members[first as int]@ == members[leader_index as int]@,
                    forall|i: int|
                        position <= i < first ==> (#[trigger] members[i])@
                            != members[leader_index as int]@,
                decreases position,
            {
                position -= 1;
                if members[position].same_as(&members[leader_index]) {
                    first = position;
                }
            }
            proof {
                assert(members_view(members@)[first as int] == members[first as int]@);
            }
            Some(SequencerSet { members, leader_index: first })
        } else {
            None
        }
    }

    /// Whether both sets hold the same candidates in the same order and name
    /// the same leader.
    pub fn same_as(&self, other: &SequencerSet) -> (res: bool)
        ensures
            res == (self@ == other@),
    {
        let count = self.members.len();
        if count != other.members.len() {
            assert(self@.members.len() != other@.members.len());
            return false;
        }
        let mut position: usize = 0;
        while position < count
            invariant
                position <= count,
                count == self.members.len(),
                count == other.members.len(),
                forall|i: int| 0 <= i < position ==> self.members[i]@ == other.members[i]@,
            decreases count - position,
        {
            if !self.members[position].same_as(&other.members[position]) {
                assert(self@.members[position as int] != other@.members[position as int]);
                return false;
            }
            position += 1;
        }
        assert(self@.members =~= other@.members);
        if self.leader_index < count && other.leader_index < count {
            self.members[self.leader_index].same_as(&other.members[other.leader_index])
        } else {
            self.leader_index >= count && other.leader_index >= count
        }
    }

    /// The designated leader, or `None` for a set without members.
    pub fn leader(&self) -> (res: Option<SequencerId>)
        ensures
            self@.wf(),
            res is Some <==> self@.leader is Some,
            res matches Some(id) ==> self@.leader == Some(id@),
    {
        proof {
            use_type_invariant(self);
            if self.members.len() > 0 {
                assert(members_view(self.members@)[self.leader_index as int]
                    == self.members[self.leader_index as int]@);
            }
        }
        if self.leader_index < self.members.len() {
            Some(self.members[self.leader_index].clone())
        } else {
            None
        }
    }

    /// How many candidates the set holds.
    pub fn len(&self) -> (res: usize)
        ensures
            res == self@.members.len(),
    {
        self.members.len()
    }

    /// The candidate at `position`, counted from zero, if there is one.
    pub fn member(&self, position: usize) -> (res: Option<SequencerId>)
        ensures
            res is Some <==> position < self@.members.len(),
            res matches Some(id) ==> id@ == self@.members[position as int],
    {
        if position < self.members.len() {
            Some(self.members[position].clone())
        } else {
            None
        }
    }
}

/// The cursor of a rollup as a mathematical value.
pub struct BlockMetadataView {
    pub block_height: BlockHeight,
    pub is_leader: bool,
    pub leader_id: Seq<char>,
}

/// The cursor of a rollup: the height whose sequencer set closed last, who
/// leads that height, and whether this node does.
#[derive(Debug, PartialEq, Eq)]
pub struct BlockMetadata {
    block_height: BlockHeight,
    is_leader: bool,
    leader_id: SequencerId,
}

impl View for BlockMetadata {
    type V = BlockMetadataView;

    closed spec fn view(&self) -> BlockMetadataView {
        BlockMetadataView {
            block_height: self.block_height,
            is_leader: self.is_leader,
            leader_id: self.leader_id@,
        }
    }
}

impl Clone for BlockMetadata {
    fn clone(&self) -> (res: Self)
        ensures
            res@ == self@,
    {
        BlockMetadata {
            block_height: self.block_height,
            is_leader: self.is_leader,
            leader_id: self.leader_id.clone(),
        }
    }
}

impl BlockMetadata {
    /// A cursor that names `block_height` and its leader.
    pub fn new(block_height: BlockHeight, is_leader: bool, leader_id: SequencerId) -> (res: Self)
        ensures
            res@ == (BlockMetadataView { block_height, is_leader, leader_id: leader_id@ }),
    {
        BlockMetadata { block_height, is_leader, leader_id }
    }

    /// Moves the cursor to `block_height` and its leader. Nothing of the
    /// height it named before is kept.
    pub fn update(&mut self, block_height: BlockHeight, is_leader: bool, leader_id: SequencerId)
        ensures
            final(self)@ == (BlockMetadataView { block_height, is_leader, leader_id: leader_id@ }),
    {
        self.block_height = block_height;
        self.is_leader = is_leader;
        self.leader_id = leader_id;
    }

    /// The height the cursor names.
    pub fn block_height(&self) -> (res: BlockHeight)
        ensures
            res == self@.block_height,
    {
        self.block_height
    }

    /// Whether this node leads the height the cursor names.
    pub fn is_leader(&self) -> (res: bool)
        ensures
            res == self@.is_leader,
    {
        self.is_leader
    }

    /// Who leads the height the cursor names.
    pub fn leader_id(&self) -> (res: &SequencerId)
        ensures
            res@ == self@.leader_id,
    {
        &self.leader_id
    }
}

/// What the block assembler is asked to finalize, as a mathematical value.
pub struct AssemblyRequestView {
    pub rollup_id: Seq<char>,
    pub height: BlockHeight,
    pub tx_count: TransactionOrder,
    pub is_leader: bool,
}

/// A request to assemble the block of one rollup at one height: how many
/// transactions were admitted there, and whether this node led that height.
#[derive(Debug, PartialEq, Eq)]
pub struct AssemblyRequest {
    pub rollup_id: RollupId,
    pub height: BlockHeight,
    pub tx_count: TransactionOrder,
    pub is_leader: bool,
}

impl View for AssemblyRequest {
    type V = AssemblyRequestView;

    open spec fn view(&self) -> AssemblyRequestView {
        AssemblyRequestView {
            rollup_id: self.rollup_id@,
            height: self.height,
            tx_count: self.tx_count,
            is_leader: self.is_leader,
        }
    }
}

} // verus!
