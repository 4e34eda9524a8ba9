//! Several rounds of the synchronisation.

use vstd::prelude::*;
use vstd::std_specs::cmp::PartialEqSpec;

use crate::machine::{law_run_is_settled, message_view, run, Run, Step};
use crate::node::Node;
use crate::primitives::U256;
use crate::sync::queries::{
    answers_all, is_effect, SyncQuery, SyncQueryView, SyncReply, SyncStrategy,
};
use crate::sync::round::{
    one_step_view, sync_one_block, sync_one_start, SyncOneBlock, SyncOneBlockView, SyncOneStep,
    SyncOneStepView, SyncOptions,
};
use crate::sync::round_laws::{
    law_sync_one_block, one_run, round, round_bound, tips_of_round,
};

verus! {

/// Rounds that wait for a reply.
pub struct SyncBlocks<N: Node> {
    /// The options of each round.
    pub options: SyncOptions,
    /// How many rounds may follow this one.
    pub remaining: usize,
    /// The round under way.
    pub round: SyncOneBlock<N>,
}

/// What a [`SyncBlocks`] holds.
pub struct SyncBlocksView<N: Node> {
    pub options: SyncOptions,
    pub remaining: nat,
    pub round: SyncOneBlockView<N>,
}

impl<N: Node> View for SyncBlocks<N> {
    type V = SyncBlocksView<N>;

    open spec fn view(&self) -> SyncBlocksView<N> {
        SyncBlocksView {
            options: self.options,
            remaining: self.remaining as nat,
            round: self.round@,
        }
    }
}

/// Where the rounds stand. The result says whether one of them moved the synchronisation on.
pub type SyncBlocksStep<N> = Step<SyncBlocks<N>, SyncQuery<N>, Result<bool, String>>;

/// What a [`SyncBlocksStep`] holds.
pub type SyncBlocksStepView<N> = Step<SyncBlocksView<N>, SyncQueryView<N>, Result<bool, Seq<char>>>;

/// What a [`SyncBlocksStep`] holds.
pub open spec fn blocks_step_view<N: Node>(step: SyncBlocksStep<N>) -> SyncBlocksStepView<N> {
    match step {
        Step::Ask(state, query) => Step::Ask(state@, query@),
        Step::Done(result) => Step::Done(message_view(result)),
    }
}

/// A round as one of several.
pub open spec fn in_round<N: Node>(
    options: SyncOptions,
    remaining: nat,
    step: SyncOneStepView<N>,
) -> SyncBlocksStepView<N> {
    match step {
        Step::Ask(round, query) => Step::Ask(SyncBlocksView { options, remaining, round }, query),
        Step::Done(Ok(false)) => sync_blocks_start(options, remaining),
        Step::Done(result) => Step::Done(result),
    }
}

/// The first step of at most `limit` rounds.
pub open spec fn sync_blocks_start<N: Node>(
    options: SyncOptions,
    limit: nat,
) -> SyncBlocksStepView<N> {
    if limit == 0 {
        Step::Done(Ok(false))
    } else {
        Step::Ask(
            SyncBlocksView {
                options,
                remaining: (limit - 1) as nat,
                round: SyncOneBlockView::Tips { options },
            },
            SyncQueryView::CurrentSyncingTips,
        )
    }
}

impl<N: Node> SyncBlocksView<N> {
    /// Where the rounds stand after the reply.
    pub open spec fn next(self, reply: SyncReply<N>) -> SyncBlocksStepView<N> {
        in_round(self.options, self.remaining, self.round.next(reply))
    }
}

impl<N: Node> SyncBlocks<N> {
    fn after_round(options: SyncOptions, remaining: usize, step: SyncOneStep<N>) -> (next:
        SyncBlocksStep<N>)
        requires
            step matches Step::Ask(state, _) ==> state@.is_valid(),
        ensures
            blocks_step_view(next) == in_round(options, remaining as nat, one_step_view(step)),
            next matches Step::Ask(state, _) ==> state@.round.is_valid(),
    {
        match step {
            Step::Ask(round, query) => Step::Ask(SyncBlocks { options, remaining, round }, query),
            Step::Done(Ok(false)) => sync_blocks(remaining, options.sync_from, options.strategy),
            Step::Done(Ok(true)) => Step::Done(Ok(true)),
            Step::Done(Err(message)) => Step::Done(Err(message)),
        }
    }

    /// Goes on with the node's reply.
    pub fn resume(self, reply: SyncReply<N>) -> (step: SyncBlocksStep<N>)
        requires
            <N::Hash>::obeys_eq_spec(),
            self@.round.is_valid(),
            self@.round.awaits(reply),
        ensures
            blocks_step_view(step) == self@.next(reply),
            step matches Step::Ask(state, _) ==> state@.round.is_valid(),
    {
        Self::after_round(self.options, self.remaining, self.round.resume(reply))
    }
}

/// Starts at most `limit` rounds; the first that moves the synchronisation on is the last.
pub fn sync_blocks<N: Node>(limit: usize, sync_from: U256, strategy: SyncStrategy) -> (step:
    SyncBlocksStep<N>)
    ensures
        blocks_step_view(step) == sync_blocks_start::<N>(
            SyncOptions { sync_from, strategy },
            limit as nat,
        ),
        step matches Step::Ask(state, _) ==> state@.round.is_valid(),
{
    if limit == 0 {
        Step::Done(Ok(false))
    } else {
        match sync_one_block(sync_from, strategy) {
            Step::Ask(round, query) => Step::Ask(
                SyncBlocks {
                    options: SyncOptions { sync_from, strategy },
                    remaining: limit - 1,
                    round,
                },
                query,
            ),
            Step::Done(_) => vstd::pervasive::unreached(),
        }
    }
}

/// A query together with the number of rounds that may follow the one that makes it.
pub type RoundQuery<N> = (nat, SyncQueryView<N>);

/// The step with its query marked by the round.
pub open spec fn marked<N: Node>(
    step: SyncBlocksStepView<N>,
) -> Step<SyncBlocksView<N>, RoundQuery<N>, Result<bool, Seq<char>>> {
    match step {
        Step::Ask(state, query) => Step::Ask(state, (state.remaining, query)),
        Step::Done(result) => Step::Done(result),
    }
}

/// All rounds, where what the node answers may change from one round to the next.
pub open spec fn blocks_run<N: Node>(
    nodes: spec_fn(nat) -> spec_fn(SyncQueryView<N>) -> SyncReply<N>,
    step: SyncBlocksStepView<N>,
    fuel: nat,
) -> Run<RoundQuery<N>, Result<bool, Seq<char>>> {
    run(
        |state: SyncBlocksView<N>, reply: SyncReply<N>| marked(state.next(reply)),
        |query: RoundQuery<N>| is_effect(query.1),
        |query: RoundQuery<N>| nodes(query.0)(query.1),
        marked(step),
        fuel,
    )
}

/// The queries, each marked by the round.
pub open spec fn mark<N: Node>(remaining: nat, queries: Seq<SyncQueryView<N>>) -> Seq<
    RoundQuery<N>,
> {
    queries.map_values(|query: SyncQueryView<N>| (remaining, query))
}

/// What at most `limit` rounds amount to: round after round, up to the first that moves the
/// synchronisation on or fails.
pub open spec fn rounds<N: Node>(
    nodes: spec_fn(nat) -> spec_fn(SyncQueryView<N>) -> SyncReply<N>,
    options: SyncOptions,
    limit: nat,
) -> Run<RoundQuery<N>, Result<bool, Seq<char>>>
    decreases limit,
{
    if limit == 0 {
        Run { effects: Seq::empty(), outcome: Some(Ok(false)) }
    } else {
        let left = (limit - 1) as nat;
        let first = round(nodes(left), options);
        if first.outcome == Some(Ok::<bool, Seq<char>>(false)) {
            let rest = rounds(nodes, options, left);
            Run { effects: mark(left, first.effects) + rest.effects, outcome: rest.outcome }
        } else {
            Run { effects: mark(left, first.effects), outcome: first.outcome }
        }
    }
}

/// A number of queries that the rounds do not exceed.
pub open spec fn rounds_bound<N: Node>(
    nodes: spec_fn(nat) -> spec_fn(SyncQueryView<N>) -> SyncReply<N>,
    limit: nat,
) -> nat
    decreases limit,
{
    if limit == 0 {
        0
    } else {
        let left = (limit - 1) as nat;
        rounds_bound(nodes, left) + one_bound(nodes(left))
    }
}

/// A number of queries that a round does not exceed.
pub open spec fn one_bound<N: Node>(node: spec_fn(SyncQueryView<N>) -> SyncReply<N>) -> nat {
    match tips_of_round(node) {
        Ok(tips) => round_bound(node, tips.len()),
        Err(_) => 2,
    }
}

/// A round that comes to its end does so as one of several too, and what follows it follows it.
proof fn lemma_in_round<N: Node>(
    nodes: spec_fn(nat) -> spec_fn(SyncQueryView<N>) -> SyncReply<N>,
    options: SyncOptions,
    remaining: nat,
    step: SyncOneStepView<N>,
    fuel: nat,
    more: nat,
)
    requires
        one_run(nodes(remaining), step, fuel).outcome is Some,
        ({
            let result = one_run(nodes(remaining), step, fuel).outcome->0;
            blocks_run(nodes, in_round::<N>(options, remaining, Step::Done(result)), more).outcome
                is Some
        }),
    ensures
        ({
            let first = one_run(nodes(remaining), step, fuel);
            let rest = blocks_run(
                nodes,
                in_round::<N>(options, remaining, Step::Done(first.outcome->0)),
                more,
            );
            let whole = blocks_run(nodes, in_round(options, remaining, step), fuel + more);
            &&& whole.effects == mark(remaining, first.effects) + rest.effects
            &&& whole.outcome == rest.outcome
        }),
    decreases fuel,
{
    let node = nodes(remaining);
    let first = one_run(node, step, fuel);
    match step {
        Step::Done(result) => {
            law_run_is_settled(
                |state: SyncBlocksView<N>, reply: SyncReply<N>| marked(state.next(reply)),
                |query: RoundQuery<N>| is_effect(query.1),
                |query: RoundQuery<N>| nodes(query.0)(query.1),
                marked(in_round::<N>(options, remaining, step)),
                more,
                fuel + more,
            );
            let rest = blocks_run(nodes, in_round::<N>(options, remaining, step), more);
            assert(mark(remaining, first.effects) + rest.effects =~= rest.effects);
        },
        Step::Ask(state, query) => {
            let following = state.next(node(query));
            lemma_in_round(nodes, options, remaining, following, (fuel - 1) as nat, more);
            let later = one_run(node, following, (fuel - 1) as nat);
            let rest = blocks_run(
                nodes,
                in_round::<N>(options, remaining, Step::Done(first.outcome->0)),
                more,
            );
            if is_effect(query) {
                assert(mark(remaining, first.effects) + rest.effects =~= seq![(remaining, query)]
                    + (mark(remaining, later.effects) + rest.effects));
            }
        },
    }
}

/// The rounds come to their end, whatever the node holds in each of them, and do what `rounds` says:
/// a round follows only where the one before it ended well without moving the synchronisation on.
pub proof fn law_sync_blocks<N: Node>(
    nodes: spec_fn(nat) -> spec_fn(SyncQueryView<N>) -> SyncReply<N>,
    options: SyncOptions,
    limit: nat,
    fuel: nat,
)
    requires
        forall|left: nat| left < limit ==> answers_all(#[trigger] nodes(left)),
        fuel >= rounds_bound(nodes, limit),
    ensures
        blocks_run(nodes, sync_blocks_start::<N>(options, limit), fuel) == rounds(
            nodes,
            options,
            limit,
        ),
        rounds(nodes, options, limit).outcome is Some,
    decreases limit,
{
    if limit > 0 {
        let left = (limit - 1) as nat;
        let enough = one_bound(nodes(left));
        let more = (fuel - enough) as nat;
        law_sync_one_block(nodes(left), options, enough);
        let first = round(nodes(left), options);
        law_sync_blocks(nodes, options, left, more);
        lemma_in_round(nodes, options, left, sync_one_start::<N>(options), enough, more);
        let whole = blocks_run(nodes, sync_blocks_start::<N>(options, limit), fuel);
        let expected = rounds(nodes, options, limit);
        assert(whole.effects =~= expected.effects);
    }
}

} // verus!
