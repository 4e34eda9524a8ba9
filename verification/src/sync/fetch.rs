//! Looking up the header of a tip that still has to be mapped.

use vstd::prelude::*;

use crate::machine::{run, Run, Step};
use crate::node::Node;
use crate::primitives::U256;
use crate::sync::queries::{
    answers_all, is_effect, step_view, ChainHeader, SyncQuery, SyncQueryView, SyncReply,
};

verus! {

/// A lookup that waits for a reply.
pub enum FetchHeader<N: Node> {
    /// For whether the tip is in the mapping.
    Synced { tip: N::Hash, sync_from: U256 },
    /// For the hash under which Ethereum clients know the tip.
    CompatibleHash { tip: N::Hash, sync_from: U256, is_synced: bool },
    /// For the tip's header.
    Header { sync_from: U256, is_synced: bool },
}

/// Where a lookup stands.
pub type FetchStep<N> = Step<FetchHeader<N>, SyncQuery<N>, Result<Option<ChainHeader<N>>, String>>;

/// What a [`FetchStep`] holds.
pub type FetchStepView<N> = Step<
    FetchHeader<N>,
    SyncQueryView<N>,
    Result<Option<ChainHeader<N>>, Seq<char>>,
>;

impl<N: Node> FetchHeader<N> {
    /// The lookup waits for a reply of this kind.
    pub open spec fn awaits(self, reply: SyncReply<N>) -> bool {
        match self {
            FetchHeader::Synced { .. } => reply is Synced,
            FetchHeader::CompatibleHash { .. } => reply is CompatibleHash,
            FetchHeader::Header { .. } => reply is Header,
        }
    }

    /// Where the lookup stands after the reply.
    pub open spec fn next(self, reply: SyncReply<N>) -> FetchStepView<N> {
        match (self, reply) {
            (FetchHeader::Synced { tip, sync_from }, SyncReply::Synced(reply)) => match reply {
                Ok(is_synced) => Step::Ask(
                    FetchHeader::CompatibleHash { tip, sync_from, is_synced },
                    SyncQueryView::RpcCompatibleHash(tip),
                ),
                Err(message) => Step::Done(Err(message@)),
            },
            (
                FetchHeader::CompatibleHash { tip, sync_from, is_synced },
                SyncReply::CompatibleHash(reply),
            ) => match reply {
                Ok(hash) => if is_synced && hash is Some {
                    Step::Done(Ok(None))
                } else {
                    Step::Ask(
                        FetchHeader::Header { sync_from, is_synced },
                        SyncQueryView::Header(tip),
                    )
                },
                Err(message) => Step::Done(Err(message@)),
            },
            (FetchHeader::Header { sync_from, is_synced }, SyncReply::Header(reply)) => match reply {
                Ok(Some(header)) => if is_synced || header.number@ >= sync_from@ {
                    Step::Done(Ok(Some(header)))
                } else {
                    Step::Done(Ok(None))
                },
                _ => Step::Done(Err("Header not found"@)),
            },
            _ => arbitrary(),
        }
    }

    /// Goes on with the node's reply.
    pub fn resume(self, reply: SyncReply<N>) -> (step: FetchStep<N>)
        requires
            self.awaits(reply),
        ensures
            step_view(step) == self.next(reply),
    {
        match (self, reply) {
            (FetchHeader::Synced { tip, sync_from }, SyncReply::Synced(reply)) => match reply {
                Ok(is_synced) => Step::Ask(
                    FetchHeader::CompatibleHash { tip, sync_from, is_synced },
                    SyncQuery::RpcCompatibleHash(tip),
                ),
                Err(message) => Step::Done(Err(message)),
            },
            (
                FetchHeader::CompatibleHash { tip, sync_from, is_synced },
                SyncReply::CompatibleHash(reply),
            ) => match reply {
                Ok(hash) => {
                    if is_synced && hash.is_some() {
                        Step::Done(Ok(None))
                    } else {
                        Step::Ask(
                            FetchHeader::Header { sync_from, is_synced },
                            SyncQuery::Header(tip),
                        )
                    }
                },
                Err(message) => Step::Done(Err(message)),
            },
            (FetchHeader::Header { sync_from, is_synced }, SyncReply::Header(reply)) => {
                match reply {
                    Ok(Some(header)) => {
                        if is_synced || !header.number.is_less(&sync_from) {
                            Step::Done(Ok(Some(header)))
                        } else {
                            Step::Done(Ok(None))
                        }
                    },
                    _ => Step::Done(Err("Header not found".to_owned())),
                }
            },
            _ => vstd::pervasive::unreached(),
        }
    }
}

/// The first step of the lookup.
pub open spec fn fetch_start<N: Node>(tip: N::Hash, sync_from: U256) -> FetchStepView<N> {
    Step::Ask(FetchHeader::Synced { tip, sync_from }, SyncQueryView::IsSynced(tip))
}

/// Starts to look up the header of `checking_tip`, if that block still has to be mapped and is
/// not below `sync_from`.
pub fn fetch_header<N: Node>(checking_tip: N::Hash, sync_from: U256) -> (step: FetchStep<N>)
    ensures
        step_view(step) == fetch_start::<N>(checking_tip, sync_from),
{
    Step::Ask(
        FetchHeader::Synced { tip: checking_tip, sync_from },
        SyncQuery::IsSynced(checking_tip),
    )
}

/// The result of the lookup, by what the node holds.
pub open spec fn fetch_outcome<N: Node>(
    node: spec_fn(SyncQueryView<N>) -> SyncReply<N>,
    tip: N::Hash,
    sync_from: U256,
) -> Result<Option<ChainHeader<N>>, Seq<char>> {
    match (
        node(SyncQueryView::IsSynced(tip))->Synced_0,
        node(SyncQueryView::RpcCompatibleHash(tip))->CompatibleHash_0,
        node(SyncQueryView::Header(tip))->Header_0,
    ) {
        (Err(message), _, _) => Err(message@),
        (_, Err(message), _) => Err(message@),
        (Ok(true), Ok(Some(_)), _) => Ok(None),
        (Ok(is_synced), _, Ok(Some(header))) => if is_synced || header.number@ >= sync_from@ {
            Ok(Some(header))
        } else {
            Ok(None)
        },
        _ => Err("Header not found"@),
    }
}

/// The whole lookup.
pub open spec fn fetch_run<N: Node>(
    node: spec_fn(SyncQueryView<N>) -> SyncReply<N>,
    step: FetchStepView<N>,
    fuel: nat,
) -> Run<SyncQueryView<N>, Result<Option<ChainHeader<N>>, Seq<char>>> {
    run(
        |state: FetchHeader<N>, reply: SyncReply<N>| state.next(reply),
        |query: SyncQueryView<N>| is_effect(query),
        node,
        step,
        fuel,
    )
}

/// A lookup makes at most three queries, changes nothing, and returns a header for those tips
/// only that lack their place in the mapping or the hash that Ethereum clients are shown, and
/// of those not yet in the mapping only from `sync_from` on.
pub proof fn law_fetch_header<N: Node>(
    node: spec_fn(SyncQueryView<N>) -> SyncReply<N>,
    tip: N::Hash,
    sync_from: U256,
    fuel: nat,
)
    requires
        answers_all(node),
        fuel >= 3,
    ensures
        fetch_run(node, fetch_start::<N>(tip, sync_from), fuel).effects.len() == 0,
        fetch_run(node, fetch_start::<N>(tip, sync_from), fuel).outcome == Some(
            fetch_outcome(node, tip, sync_from),
        ),
{
    reveal_with_fuel(run, 4);
}

} // verus!
