//! One round of the synchronisation: pick a block, map it, and tell the listeners.

use vstd::prelude::*;
use vstd::std_specs::cmp::PartialEqSpec;

use crate::machine::{message_view, Step};
use crate::node::Node;
use crate::primitives::U256;
use crate::sync::commit::{sync_block, sync_block_start, SyncBlock, SyncBlockStep};
use crate::sync::fetch::{fetch_header, FetchHeader, FetchStep};
use crate::sync::genesis::{
    sync_genesis_block, sync_genesis_start, SyncGenesisBlock, SyncGenesisStep,
};
use crate::sync::queries::{
    step_view, ChainHeader, EthereumBlockNotification, SyncQuery, SyncQueryView, SyncReply,
    SyncStrategy,
};

verus! {

/// From which number on blocks are mapped, and which of them.
#[derive(Clone, Copy)]
pub struct SyncOptions {
    pub sync_from: U256,
    pub strategy: SyncStrategy,
}

/// A round, where it waits for a reply.
pub enum SyncOneBlock<N: Node> {
    /// For the stored tips.
    Tips { options: SyncOptions },
    /// For the leaves of the chain.
    Leaves { options: SyncOptions },
    /// For the header of a tip; the tips that are left are in `tips`.
    Fetching { options: SyncOptions, tips: Vec<N::Hash>, fetch: FetchHeader<N> },
    /// For the tips to be stored, none of which was left to be mapped.
    NothingLeft,
    /// For the genesis block to be mapped.
    Genesis { tips: Vec<N::Hash>, hash: N::Hash, genesis: SyncGenesisBlock<N> },
    /// For the number of the best block.
    BestNumber { tips: Vec<N::Hash>, header: ChainHeader<N> },
    /// For the hash under which Ethereum clients know the parent.
    ParentHash { tips: Vec<N::Hash>, header: ChainHeader<N> },
    /// For whether the parent is in the mapping.
    ParentSynced { tips: Vec<N::Hash>, header: ChainHeader<N>, parent_has_hash: bool },
    /// For the tips to be stored, the parent's turn being first.
    Deferred,
    /// For the block to be mapped.
    Mapping { tips: Vec<N::Hash>, hash: N::Hash, parent_hash: N::Hash, mapping: SyncBlock<N> },
    /// For the tips to be stored, the block being mapped.
    TipsWritten { hash: N::Hash },
    /// For the number of listeners.
    Sinks { hash: N::Hash },
    /// For whether the node is in a major synchronisation; `keep` tells which of the listeners
    /// before this one are kept.
    MajorSyncing { hash: N::Hash, count: usize, keep: Vec<bool> },
    /// For the hash of the best block.
    BestHash { hash: N::Hash, count: usize, keep: Vec<bool> },
    /// For the news to be sent.
    Sent { hash: N::Hash, count: usize, keep: Vec<bool> },
    /// For the listeners to be let go.
    Retained,
}

/// What a [`SyncOneBlock`] holds.
pub enum SyncOneBlockView<N: Node> {
    Tips { options: SyncOptions },
    Leaves { options: SyncOptions },
    Fetching { options: SyncOptions, tips: Seq<N::Hash>, fetch: FetchHeader<N> },
    NothingLeft,
    Genesis { tips: Seq<N::Hash>, hash: N::Hash, genesis: SyncGenesisBlock<N> },
    BestNumber { tips: Seq<N::Hash>, header: ChainHeader<N> },
    ParentHash { tips: Seq<N::Hash>, header: ChainHeader<N> },
    ParentSynced { tips: Seq<N::Hash>, header: ChainHeader<N>, parent_has_hash: bool },
    Deferred,
    Mapping { tips: Seq<N::Hash>, hash: N::Hash, parent_hash: N::Hash, mapping: SyncBlock<N> },
    TipsWritten { hash: N::Hash },
    Sinks { hash: N::Hash },
    MajorSyncing { hash: N::Hash, count: usize, keep: Seq<bool> },
    BestHash { hash: N::Hash, count: usize, keep: Seq<bool> },
    Sent { hash: N::Hash, count: usize, keep: Seq<bool> },
    Retained,
}

impl<N: Node> View for SyncOneBlock<N> {
    type V = SyncOneBlockView<N>;

    open spec fn view(&self) -> SyncOneBlockView<N> {
        match *self {
            SyncOneBlock::Tips { options } => SyncOneBlockView::Tips { options },
            SyncOneBlock::Leaves { options } => SyncOneBlockView::Leaves { options },
            SyncOneBlock::Fetching { options, tips, fetch } => SyncOneBlockView::Fetching {
                options,
                tips: tips@,
                fetch,
            },
            SyncOneBlock::NothingLeft => SyncOneBlockView::NothingLeft,
            SyncOneBlock::Genesis { tips, hash, genesis } => SyncOneBlockView::Genesis {
                tips: tips@,
                hash,
                genesis,
            },
            SyncOneBlock::BestNumber { tips, header } => SyncOneBlockView::BestNumber {
                tips: tips@,
                header,
            },
            SyncOneBlock::ParentHash { tips, header } => SyncOneBlockView::ParentHash {
                tips: tips@,
                header,
            },
            SyncOneBlock::ParentSynced { tips, header, parent_has_hash } => {
                SyncOneBlockView::ParentSynced { tips: tips@, header, parent_has_hash }
            },
            SyncOneBlock::Deferred => SyncOneBlockView::Deferred,
            SyncOneBlock::Mapping { tips, hash, parent_hash, mapping } => {
                SyncOneBlockView::Mapping { tips: tips@, hash, parent_hash, mapping }
            },
            SyncOneBlock::TipsWritten { hash } => SyncOneBlockView::TipsWritten { hash },
            SyncOneBlock::Sinks { hash } => SyncOneBlockView::Sinks { hash },
            SyncOneBlock::MajorSyncing { hash, count, keep } => SyncOneBlockView::MajorSyncing {
                hash,
                count,
                keep: keep@,
            },
            SyncOneBlock::BestHash { hash, count, keep } => SyncOneBlockView::BestHash {
                hash,
                count,
                keep: keep@,
            },
            SyncOneBlock::Sent { hash, count, keep } => SyncOneBlockView::Sent {
                hash,
                count,
                keep: keep@,
            },
            SyncOneBlock::Retained => SyncOneBlockView::Retained,
        }
    }
}

/// Where a round stands. The result says whether the round may have moved the synchronisation on.
pub type SyncOneStep<N> = Step<SyncOneBlock<N>, SyncQuery<N>, Result<bool, String>>;

/// What a [`SyncOneStep`] holds.
pub type SyncOneStepView<N> = Step<SyncOneBlockView<N>, SyncQueryView<N>, Result<bool, Seq<char>>>;

/// What a [`SyncOneStep`] holds.
pub open spec fn one_step_view<N: Node>(step: SyncOneStep<N>) -> SyncOneStepView<N> {
    match step {
        Step::Ask(state, query) => Step::Ask(state@, query@),
        Step::Done(result) => Step::Done(message_view(result)),
    }
}

/// Looks at the last of the tips next.
pub open spec fn check_tips<N: Node>(options: SyncOptions, tips: Seq<N::Hash>) -> SyncOneStepView<N> {
    if tips.len() == 0 {
        Step::Ask(
            SyncOneBlockView::NothingLeft,
            SyncQueryView::WriteCurrentSyncingTips(Seq::empty()),
        )
    } else {
        let tip = tips.last();
        Step::Ask(
            SyncOneBlockView::Fetching {
                options,
                tips: tips.drop_last(),
                fetch: FetchHeader::Synced { tip, sync_from: options.sync_from },
            },
            SyncQueryView::IsSynced(tip),
        )
    }
}

/// A lookup as part of a round.
pub open spec fn in_fetch<N: Node>(
    options: SyncOptions,
    tips: Seq<N::Hash>,
    step: Step<FetchHeader<N>, SyncQueryView<N>, Result<Option<ChainHeader<N>>, Seq<char>>>,
) -> SyncOneStepView<N> {
    match step {
        Step::Ask(fetch, query) => Step::Ask(
            SyncOneBlockView::Fetching { options, tips, fetch },
            query,
        ),
        Step::Done(Ok(Some(header))) => operate(options, tips, header),
        Step::Done(Ok(None)) => check_tips(options, tips),
        Step::Done(Err(message)) => Step::Done(Err(message)),
    }
}

/// Maps the block with the given header, if its turn has come.
pub open spec fn operate<N: Node>(
    options: SyncOptions,
    tips: Seq<N::Hash>,
    header: ChainHeader<N>,
) -> SyncOneStepView<N> {
    if header.number@ == 0 {
        in_genesis(tips, header.hash, sync_genesis_start::<N>(header.hash))
    } else if options.strategy == SyncStrategy::Parachain {
        Step::Ask(SyncOneBlockView::BestNumber { tips, header }, SyncQueryView::BestNumber)
    } else {
        ask_parent_hash(tips, header)
    }
}

/// Asks for the hash under which Ethereum clients know the parent.
pub open spec fn ask_parent_hash<N: Node>(
    tips: Seq<N::Hash>,
    header: ChainHeader<N>,
) -> SyncOneStepView<N> {
    Step::Ask(
        SyncOneBlockView::ParentHash { tips, header },
        SyncQueryView::RpcCompatibleHash(header.parent_hash),
    )
}

/// The mapping of the genesis block as part of a round.
pub open spec fn in_genesis<N: Node>(
    tips: Seq<N::Hash>,
    hash: N::Hash,
    step: Step<SyncGenesisBlock<N>, SyncQueryView<N>, Result<(), Seq<char>>>,
) -> SyncOneStepView<N> {
    match step {
        Step::Ask(genesis, query) => Step::Ask(
            SyncOneBlockView::Genesis { tips, hash, genesis },
            query,
        ),
        Step::Done(Ok(_)) => Step::Ask(
            SyncOneBlockView::TipsWritten { hash },
            SyncQueryView::WriteCurrentSyncingTips(tips),
        ),
        Step::Done(Err(message)) => Step::Done(Err(message)),
    }
}

/// The mapping of a block as part of a round.
pub open spec fn in_mapping<N: Node>(
    tips: Seq<N::Hash>,
    hash: N::Hash,
    parent_hash: N::Hash,
    step: Step<SyncBlock<N>, SyncQueryView<N>, Result<(), Seq<char>>>,
) -> SyncOneStepView<N> {
    match step {
        Step::Ask(mapping, query) => Step::Ask(
            SyncOneBlockView::Mapping { tips, hash, parent_hash, mapping },
            query,
        ),
        Step::Done(Ok(_)) => Step::Ask(
            SyncOneBlockView::TipsWritten { hash },
            SyncQueryView::WriteCurrentSyncingTips(tips.push(parent_hash)),
        ),
        Step::Done(Err(message)) => Step::Done(Err(message)),
    }
}

/// Turns to the next listener, or lets go of them all.
pub open spec fn next_sink<N: Node>(
    hash: N::Hash,
    count: usize,
    keep: Seq<bool>,
) -> SyncOneStepView<N> {
    if keep.len() < count {
        Step::Ask(
            SyncOneBlockView::MajorSyncing { hash, count, keep },
            SyncQueryView::IsMajorSyncing(keep.len() as usize),
        )
    } else {
        Step::Ask(SyncOneBlockView::Retained, SyncQueryView::RetainSinks(keep))
    }
}

impl<N: Node> SyncOneBlockView<N> {
    /// The round waits for a reply of this kind.
    pub open spec fn awaits(self, reply: SyncReply<N>) -> bool {
        match self {
            SyncOneBlockView::Tips { .. } => reply is Tips,
            SyncOneBlockView::Leaves { .. } => reply is Tips,
            SyncOneBlockView::Fetching { fetch, .. } => fetch.awaits(reply),
            SyncOneBlockView::NothingLeft => reply is Written,
            SyncOneBlockView::Genesis { genesis, .. } => genesis.awaits(reply),
            SyncOneBlockView::BestNumber { .. } => reply is Number,
            SyncOneBlockView::ParentHash { .. } => reply is CompatibleHash,
            SyncOneBlockView::ParentSynced { .. } => reply is Synced,
            SyncOneBlockView::Deferred => reply is Written,
            SyncOneBlockView::Mapping { mapping, .. } => mapping.awaits(reply),
            SyncOneBlockView::TipsWritten { .. } => reply is Written,
            SyncOneBlockView::Sinks { .. } => reply is SinkCount,
            SyncOneBlockView::MajorSyncing { .. } => reply is MajorSyncing,
            SyncOneBlockView::BestHash { .. } => reply is Hash,
            SyncOneBlockView::Sent { .. } => reply is Sent,
            SyncOneBlockView::Retained => reply is Retained,
        }
    }

    /// A listener's turn comes only while there are listeners left.
    pub open spec fn is_valid(self) -> bool {
        match self {
            SyncOneBlockView::MajorSyncing { count, keep, .. } => keep.len() < count,
            SyncOneBlockView::BestHash { count, keep, .. } => keep.len() < count,
            SyncOneBlockView::Sent { count, keep, .. } => keep.len() < count,
            _ => true,
        }
    }

    /// Where the round stands after the reply.
    pub open spec fn next(self, reply: SyncReply<N>) -> SyncOneStepView<N> {
        match (self, reply) {
            (SyncOneBlockView::Tips { options }, SyncReply::Tips(reply)) => match reply {
                Ok(tips) => if tips@.len() == 0 {
                    Step::Ask(SyncOneBlockView::Leaves { options }, SyncQueryView::Leaves)
                } else {
                    check_tips(options, tips@)
                },
                Err(message) => Step::Done(Err(message@)),
            },
            (SyncOneBlockView::Leaves { options }, SyncReply::Tips(reply)) => match reply {
                Ok(leaves) => if leaves@.len() == 0 {
                    Step::Done(Ok(false))
                } else {
                    check_tips(options, leaves@)
                },
                Err(message) => Step::Done(Err(message@)),
            },
            (SyncOneBlockView::Fetching { options, tips, fetch }, reply) => in_fetch(
                options,
                tips,
                fetch.next(reply),
            ),
            (SyncOneBlockView::NothingLeft, SyncReply::Written(result)) => match result {
                Ok(_) => Step::Done(Ok(false)),
                Err(message) => Step::Done(Err(message@)),
            },
            (SyncOneBlockView::Genesis { tips, hash, genesis }, reply) => in_genesis(
                tips,
                hash,
                genesis.next(reply),
            ),
            (
                SyncOneBlockView::BestNumber { tips, header },
                SyncReply::Number(best_number),
            ) => if header.number@ > best_number@ {
                Step::Done(Ok(false))
            } else {
                ask_parent_hash(tips, header)
            },
            (
                SyncOneBlockView::ParentHash { tips, header },
                SyncReply::CompatibleHash(reply),
            ) => match reply {
                Ok(hash) => Step::Ask(
                    SyncOneBlockView::ParentSynced { tips, header, parent_has_hash: hash is Some },
                    SyncQueryView::IsSynced(header.parent_hash),
                ),
                Err(message) => Step::Done(Err(message@)),
            },
            (
                SyncOneBlockView::ParentSynced { tips, header, parent_has_hash },
                SyncReply::Synced(reply),
            ) => match reply {
                Ok(is_synced) => if is_synced && parent_has_hash {
                    in_mapping(tips, header.hash, header.parent_hash, sync_block_start(header))
                } else {
                    Step::Ask(
                        SyncOneBlockView::Deferred,
                        SyncQueryView::WriteCurrentSyncingTips(
                            tips.push(header.hash).push(header.parent_hash),
                        ),
                    )
                },
                Err(message) => Step::Done(Err(message@)),
            },
            (SyncOneBlockView::Deferred, SyncReply::Written(result)) => match result {
                Ok(_) => Step::Done(Ok(true)),
                Err(message) => Step::Done(Err(message@)),
            },
            (SyncOneBlockView::Mapping { tips, hash, parent_hash, mapping }, reply) => in_mapping(
                tips,
                hash,
                parent_hash,
                mapping.next(reply),
            ),
            (SyncOneBlockView::TipsWritten { hash }, SyncReply::Written(result)) => match result {
                Ok(_) => Step::Ask(SyncOneBlockView::Sinks { hash }, SyncQueryView::LockSinks),
                Err(message) => Step::Done(Err(message@)),
            },
            (SyncOneBlockView::Sinks { hash }, SyncReply::SinkCount(count)) => next_sink(
                hash,
                count,
                Seq::empty(),
            ),
            (
                SyncOneBlockView::MajorSyncing { hash, count, keep },
                SyncReply::MajorSyncing(is_major_syncing),
            ) => if is_major_syncing {
                next_sink(hash, count, keep.push(false))
            } else {
                Step::Ask(
                    SyncOneBlockView::BestHash { hash, count, keep },
                    SyncQueryView::BestHash(keep.len() as usize),
                )
            },
            (
                SyncOneBlockView::BestHash { hash, count, keep },
                SyncReply::Hash(best_hash),
            ) => Step::Ask(
                SyncOneBlockView::Sent { hash, count, keep },
                SyncQueryView::Send(
                    keep.len() as usize,
                    EthereumBlockNotification { is_new_best: best_hash.eq_spec(&hash), hash },
                ),
            ),
            (
                SyncOneBlockView::Sent { hash, count, keep },
                SyncReply::Sent(is_ok),
            ) => next_sink(hash, count, keep.push(is_ok)),
            (SyncOneBlockView::Retained, SyncReply::Retained) => Step::Done(Ok(true)),
            _ => arbitrary(),
        }
    }
}

impl<N: Node> SyncOneBlock<N> {
    fn look_at_tips(options: SyncOptions, tips: Vec<N::Hash>) -> (step: SyncOneStep<N>)
        ensures
            one_step_view(step) == check_tips::<N>(options, tips@),
    {
        let mut tips = tips;
        match tips.pop() {
            Some(tip) => {
                match fetch_header(tip, options.sync_from) {
                    Step::Ask(fetch, query) => Step::Ask(
                        SyncOneBlock::Fetching { options, tips, fetch },
                        query,
                    ),
                    Step::Done(_) => vstd::pervasive::unreached(),
                }
            },
            None => {
                assert(tips@ =~= Seq::empty());
                Step::Ask(SyncOneBlock::NothingLeft, SyncQuery::WriteCurrentSyncingTips(tips))
            },
        }
    }

    fn after_fetch(options: SyncOptions, tips: Vec<N::Hash>, step: FetchStep<N>) -> (next: SyncOneStep<
        N,
    >)
        ensures
            one_step_view(next) == in_fetch(options, tips@, step_view(step)),
    {
        match step {
            Step::Ask(fetch, query) => Step::Ask(
                SyncOneBlock::Fetching { options, tips, fetch },
                query,
            ),
            Step::Done(Ok(Some(header))) => Self::start_mapping(options, tips, header),
            Step::Done(Ok(None)) => Self::look_at_tips(options, tips),
            Step::Done(Err(message)) => Step::Done(Err(message)),
        }
    }

    fn start_mapping(options: SyncOptions, tips: Vec<N::Hash>, header: ChainHeader<N>) -> (step:
        SyncOneStep<N>)
        ensures
            one_step_view(step) == operate(options, tips@, header),
    {
        if header.number.is_zero() {
            let hash = header.hash;
            Self::after_genesis(tips, hash, sync_genesis_block(&header))
        } else if options.strategy == SyncStrategy::Parachain {
            Step::Ask(SyncOneBlock::BestNumber { tips, header }, SyncQuery::BestNumber)
        } else {
            Self::look_at_parent(tips, header)
        }
    }

    fn look_at_parent(tips: Vec<N::Hash>, header: ChainHeader<N>) -> (step: SyncOneStep<N>)
        ensures
            one_step_view(step) == ask_parent_hash(tips@, header),
    {
        let parent_hash = header.parent_hash;
        Step::Ask(
            SyncOneBlock::ParentHash { tips, header },
            SyncQuery::RpcCompatibleHash(parent_hash),
        )
    }

    fn after_genesis(tips: Vec<N::Hash>, hash: N::Hash, step: SyncGenesisStep<N>) -> (next: SyncOneStep<
        N,
    >)
        ensures
            one_step_view(next) == in_genesis(tips@, hash, step_view(step)),
    {
        match step {
            Step::Ask(genesis, query) => Step::Ask(
                SyncOneBlock::Genesis { tips, hash, genesis },
                query,
            ),
            Step::Done(Ok(_)) => Step::Ask(
                SyncOneBlock::TipsWritten { hash },
                SyncQuery::WriteCurrentSyncingTips(tips),
            ),
            Step::Done(Err(message)) => Step::Done(Err(message)),
        }
    }

    fn after_mapping(
        tips: Vec<N::Hash>,
        hash: N::Hash,
        parent_hash: N::Hash,
        step: SyncBlockStep<N>,
    ) -> (next: SyncOneStep<N>)
        ensures
            one_step_view(next) == in_mapping(tips@, hash, parent_hash, step_view(step)),
    {
        match step {
            Step::Ask(mapping, query) => Step::Ask(
                SyncOneBlock::Mapping { tips, hash, parent_hash, mapping },
                query,
            ),
            Step::Done(Ok(_)) => {
                let mut tips = tips;
                tips.push(parent_hash);
                Step::Ask(
                    SyncOneBlock::TipsWritten { hash },
                    SyncQuery::WriteCurrentSyncingTips(tips),
                )
            },
            Step::Done(Err(message)) => Step::Done(Err(message)),
        }
    }

    fn turn_to_sink(hash: N::Hash, count: usize, keep: Vec<bool>) -> (step: SyncOneStep<N>)
        requires
            keep@.len() <= count,
        ensures
            one_step_view(step) == next_sink::<N>(hash, count, keep@),
    {
        let sink: usize = keep.len();
        if sink < count {
            Step::Ask(
                SyncOneBlock::MajorSyncing { hash, count, keep },
                SyncQuery::IsMajorSyncing(sink),
            )
        } else {
            Step::Ask(SyncOneBlock::Retained, SyncQuery::RetainSinks(keep))
        }
    }

    /// Goes on with the node's reply.
    pub fn resume(self, reply: SyncReply<N>) -> (step: SyncOneStep<N>)
        requires
            <N::Hash>::obeys_eq_spec(),
            self@.is_valid(),
            self@.awaits(reply),
        ensures
            one_step_view(step) == self@.next(reply),
            step matches Step::Ask(state, _) ==> state@.is_valid(),
    {
        match (self, reply) {
            (SyncOneBlock::Tips { options }, SyncReply::Tips(reply)) => match reply {
                Ok(tips) => {
                    if tips.len() == 0 {
                        Step::Ask(SyncOneBlock::Leaves { options }, SyncQuery::Leaves)
                    } else {
                        Self::look_at_tips(options, tips)
                    }
                },
                Err(message) => Step::Done(Err(message)),
            },
            (SyncOneBlock::Leaves { options }, SyncReply::Tips(reply)) => match reply {
                Ok(leaves) => {
                    if leaves.len() == 0 {
                        Step::Done(Ok(false))
                    } else {
                        Self::look_at_tips(options, leaves)
                    }
                },
                Err(message) => Step::Done(Err(message)),
            },
            (SyncOneBlock::Fetching { options, tips, fetch }, reply) => Self::after_fetch(
                options,
                tips,
                fetch.resume(reply),
            ),
            (SyncOneBlock::NothingLeft, SyncReply::Written(result)) => match result {
                Ok(_) => Step::Done(Ok(false)),
                Err(message) => Step::Done(Err(message)),
            },
            (SyncOneBlock::Genesis { tips, hash, genesis }, reply) => Self::after_genesis(
                tips,
                hash,
                genesis.resume(reply),
            ),
            (SyncOneBlock::BestNumber { tips, header }, SyncReply::Number(best_number)) => {
                if best_number.is_less(&header.number) {
                    Step::Done(Ok(false))
                } else {
                    Self::look_at_parent(tips, header)
                }
            },
            (SyncOneBlock::ParentHash { tips, header }, SyncReply::CompatibleHash(reply)) => {
                match reply {
                    Ok(hash) => {
                        let parent_hash = header.parent_hash;
                        Step::Ask(
                            SyncOneBlock::ParentSynced {
                                tips,
                                header,
                                parent_has_hash: hash.is_some(),
                            },
                            SyncQuery::IsSynced(parent_hash),
                        )
                    },
                    Err(message) => Step::Done(Err(message)),
                }
            },
            (
                SyncOneBlock::ParentSynced { tips, header, parent_has_hash },
                SyncReply::Synced(reply),
            ) => match reply {
                Ok(is_synced) => {
                    let hash = header.hash;
                    let parent_hash = header.parent_hash;
                    if !is_synced || !parent_has_hash {
                        let mut tips = tips;
                        tips.push(hash);
                        tips.push(parent_hash);
                        Step::Ask(SyncOneBlock::Deferred, SyncQuery::WriteCurrentSyncingTips(tips))
                    } else {
                        Self::after_mapping(tips, hash, parent_hash, sync_block(header))
                    }
                },
                Err(message) => Step::Done(Err(message)),
            },
            (SyncOneBlock::Deferred, SyncReply::Written(result)) => match result {
                Ok(_) => Step::Done(Ok(true)),
                Err(message) => Step::Done(Err(message)),
            },
            (SyncOneBlock::Mapping { tips, hash, parent_hash, mapping }, reply) => {
                Self::after_mapping(tips, hash, parent_hash, mapping.resume(reply))
            },
            (SyncOneBlock::TipsWritten { hash }, SyncReply::Written(result)) => match result {
                Ok(_) => Step::Ask(SyncOneBlock::Sinks { hash }, SyncQuery::LockSinks),
                Err(message) => Step::Done(Err(message)),
            },
            (SyncOneBlock::Sinks { hash }, SyncReply::SinkCount(count)) => Self::turn_to_sink(
                hash,
                count,
                Vec::new(),
            ),
            (
                SyncOneBlock::MajorSyncing { hash, count, keep },
                SyncReply::MajorSyncing(is_major_syncing),
            ) => {
                if is_major_syncing {
                    let mut keep = keep;
                    keep.push(false);
                    Self::turn_to_sink(hash, count, keep)
                } else {
                    let sink: usize = keep.len();
                    Step::Ask(
                        SyncOneBlock::BestHash { hash, count, keep },
                        SyncQuery::BestHash(sink),
                    )
                }
            },
            (SyncOneBlock::BestHash { hash, count, keep }, SyncReply::Hash(best_hash)) => {
                let sink: usize = keep.len();
                let is_new_best = best_hash == hash;
                Step::Ask(
                    SyncOneBlock::Sent { hash, count, keep },
                    SyncQuery::Send(sink, EthereumBlockNotification { is_new_best, hash }),
                )
            },
            (SyncOneBlock::Sent { hash, count, keep }, SyncReply::Sent(is_ok)) => {
                let mut keep = keep;
                keep.push(is_ok);
                Self::turn_to_sink(hash, count, keep)
            },
            (SyncOneBlock::Retained, SyncReply::Retained) => Step::Done(Ok(true)),
            _ => vstd::pervasive::unreached(),
        }
    }
}

/// The first step of a round.
pub open spec fn sync_one_start<N: Node>(options: SyncOptions) -> SyncOneStepView<N> {
    Step::Ask(SyncOneBlockView::Tips { options }, SyncQueryView::CurrentSyncingTips)
}

/// Starts a round.
pub fn sync_one_block<N: Node>(sync_from: U256, strategy: SyncStrategy) -> (step: SyncOneStep<N>)
    ensures
        one_step_view(step) == sync_one_start::<N>(SyncOptions { sync_from, strategy }),
        step matches Step::Ask(state, _) ==> state@.is_valid(),
{
    Step::Ask(
        SyncOneBlock::Tips { options: SyncOptions { sync_from, strategy } },
        SyncQuery::CurrentSyncingTips,
    )
}

} // verus!
