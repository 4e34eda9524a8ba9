//! Operations that alternate between asking the node and deciding what to do next.

use vstd::prelude::*;

verus! {

/// Where an operation stands: it waits in state `S` for the reply to a query `Q`, or it is over
/// with the result `R`.
pub enum Step<S, Q, R> {
    Ask(S, Q),
    Done(R),
}

/// What a whole operation amounts to: the queries that change something, in the order in which
/// they were made, and the result, if it was reached.
pub struct Run<Q, R> {
    pub effects: Seq<Q>,
    pub outcome: Option<R>,
}

/// The operation that goes from `step` on, where `next` gives what follows a reply, `is_effect`
/// tells the queries that change something, and the node answers each query by `node`. At most
/// `fuel` queries are made.
pub open spec fn run<S, Q, A, R>(
    next: spec_fn(S, A) -> Step<S, Q, R>,
    is_effect: spec_fn(Q) -> bool,
    node: spec_fn(Q) -> A,
    step: Step<S, Q, R>,
    fuel: nat,
) -> Run<Q, R>
    decreases fuel,
{
    match step {
        Step::Done(outcome) => Run { effects: Seq::empty(), outcome: Some(outcome) },
        Step::Ask(state, query) => {
            if fuel == 0 {
                Run { effects: Seq::empty(), outcome: None }
            } else {
                let rest = run(
                    next,
                    is_effect,
                    node,
                    next(state, node(query)),
                    (fuel - 1) as nat,
                );
                Run {
                    effects: if is_effect(query) {
                        seq![query] + rest.effects
                    } else {
                        rest.effects
                    },
                    outcome: rest.outcome,
                }
            }
        },
    }
}

/// Once an operation reaches its result, more queries being allowed changes nothing.
pub proof fn law_run_is_settled<S, Q, A, R>(
    next: spec_fn(S, A) -> Step<S, Q, R>,
    is_effect: spec_fn(Q) -> bool,
    node: spec_fn(Q) -> A,
    step: Step<S, Q, R>,
    fuel: nat,
    more: nat,
)
    requires
        run(next, is_effect, node, step, fuel).outcome is Some,
        fuel <= more,
    ensures
        run(next, is_effect, node, step, more) == run(next, is_effect, node, step, fuel),
    decreases fuel,
{
    if let Step::Ask(state, query) = step {
        law_run_is_settled(
            next,
            is_effect,
            node,
            next(state, node(query)),
            (fuel - 1) as nat,
            (more - 1) as nat,
        );
    }
}

/// The step of an operation as the step of a larger one, which waits in `wrap` of the state and
/// goes on with `after` once the result is there.
pub open spec fn embed<S, Q, R, T, U>(
    wrap: spec_fn(S) -> T,
    after: spec_fn(R) -> Step<T, Q, U>,
    step: Step<S, Q, R>,
) -> Step<T, Q, U> {
    match step {
        Step::Ask(state, query) => Step::Ask(wrap(state), query),
        Step::Done(result) => after(result),
    }
}

/// What the node answers once the queries in `past` have changed it.
pub open spec fn at<Q, A>(node: spec_fn(Seq<Q>, Q) -> A, past: Seq<Q>) -> spec_fn(Q) -> A {
    |query: Q| node(past, query)
}

/// The same as `run` with a node that changes on the way: what it answers may depend on the
/// queries that changed something before, which are those in `past` and then the operation's own.
pub open spec fn run_after<S, Q, A, R>(
    next: spec_fn(S, A) -> Step<S, Q, R>,
    is_effect: spec_fn(Q) -> bool,
    node: spec_fn(Seq<Q>, Q) -> A,
    past: Seq<Q>,
    step: Step<S, Q, R>,
    fuel: nat,
) -> Run<Q, R>
    decreases fuel,
{
    match step {
        Step::Done(outcome) => Run { effects: Seq::empty(), outcome: Some(outcome) },
        Step::Ask(state, query) => {
            if fuel == 0 {
                Run { effects: Seq::empty(), outcome: None }
            } else {
                let following = next(state, node(past, query));
                let left = (fuel - 1) as nat;
                if is_effect(query) {
                    let rest = run_after(
                        next,
                        is_effect,
                        node,
                        past.push(query),
                        following,
                        left,
                    );
                    Run { effects: seq![query] + rest.effects, outcome: rest.outcome }
                } else {
                    run_after(next, is_effect, node, past, following, left)
                }
            }
        },
    }
}

/// Once an operation on a changing node reaches its result, more queries being allowed changes
/// nothing.
pub proof fn law_run_after_is_settled<S, Q, A, R>(
    next: spec_fn(S, A) -> Step<S, Q, R>,
    is_effect: spec_fn(Q) -> bool,
    node: spec_fn(Seq<Q>, Q) -> A,
    past: Seq<Q>,
    step: Step<S, Q, R>,
    fuel: nat,
    more: nat,
)
    requires
        run_after(next, is_effect, node, past, step, fuel).outcome is Some,
        fuel <= more,
    ensures
        run_after(next, is_effect, node, past, step, more) == run_after(
            next,
            is_effect,
            node,
            past,
            step,
            fuel,
        ),
    decreases fuel,
{
    if let Step::Ask(state, query) = step {
        let now = if is_effect(query) {
            past.push(query)
        } else {
            past
        };
        law_run_after_is_settled(
            next,
            is_effect,
            node,
            now,
            next(state, node(past, query)),
            (fuel - 1) as nat,
            (more - 1) as nat,
        );
    }
}

/// An operation on a changing node does the same as part of a larger one as it does by itself, and
/// the larger one then goes on with its result, on the node as the operation left it.
pub proof fn law_run_after_embedded<S, Q, A, R, T, U>(
    inner: spec_fn(S, A) -> Step<S, Q, R>,
    outer: spec_fn(T, A) -> Step<T, Q, U>,
    wrap: spec_fn(S) -> T,
    after: spec_fn(R) -> Step<T, Q, U>,
    is_effect: spec_fn(Q) -> bool,
    node: spec_fn(Seq<Q>, Q) -> A,
    past: Seq<Q>,
    step: Step<S, Q, R>,
    fuel: nat,
    more: nat,
)
    requires
        forall|state: S, reply: A|
            #![trigger inner(state, reply)]
            outer(wrap(state), reply) == embed(wrap, after, inner(state, reply)),
        run_after(inner, is_effect, node, past, step, fuel).outcome is Some,
        ({
            let first = run_after(inner, is_effect, node, past, step, fuel);
            run_after(
                outer,
                is_effect,
                node,
                past + first.effects,
                after(first.outcome->0),
                more,
            ).outcome is Some
        }),
    ensures
        ({
            let first = run_after(inner, is_effect, node, past, step, fuel);
            let rest = run_after(
                outer,
                is_effect,
                node,
                past + first.effects,
                after(first.outcome->0),
                more,
            );
            let whole = run_after(
                outer,
                is_effect,
                node,
                past,
                embed(wrap, after, step),
                fuel + more,
            );
            &&& whole.effects == first.effects + rest.effects
            &&& whole.outcome == rest.outcome
        }),
    decreases fuel,
{
    let first = run_after(inner, is_effect, node, past, step, fuel);
    let then = past + first.effects;
    let rest = run_after(outer, is_effect, node, then, after(first.outcome->0), more);
    match step {
        Step::Done(result) => {
            assert(then =~= past);
            law_run_after_is_settled(
                outer,
                is_effect,
                node,
                past,
                after(result),
                more,
                fuel + more,
            );
            assert(first.effects + rest.effects =~= rest.effects);
        },
        Step::Ask(state, query) => {
            let following = inner(state, node(past, query));
            let left = (fuel - 1) as nat;
            let now = if is_effect(query) {
                past.push(query)
            } else {
                past
            };
            let later = run_after(inner, is_effect, node, now, following, left);
            assert(now + later.effects =~= then);
            law_run_after_embedded(
                inner,
                outer,
                wrap,
                after,
                is_effect,
                node,
                now,
                following,
                left,
                more,
            );
            if is_effect(query) {
                assert(first.effects + rest.effects =~= seq![query] + (later.effects
                    + rest.effects));
            }
        },
    }
}

/// An operation that, once it has changed something, no longer asks for anything that the change
/// may show in, does the same on a changing node as on one that stays as it was at the start. In
/// `early` are the queries before the first change, with the states that wait for the reply; in
/// `late` are those from the first change on.
pub proof fn law_change_does_not_show<S, Q, A, R>(
    next: spec_fn(S, A) -> Step<S, Q, R>,
    is_effect: spec_fn(Q) -> bool,
    node: spec_fn(Seq<Q>, Q) -> A,
    early: spec_fn(S, Q) -> bool,
    late: spec_fn(S, Q) -> bool,
    start: Seq<Q>,
    past: Seq<Q>,
    step: Step<S, Q, R>,
    fuel: nat,
)
    requires
        forall|state: S, query: Q|
            #![trigger next(state, node(start, query))]
            early(state, query) ==> !is_effect(query) && (next(
                state,
                node(start, query),
            ) matches Step::Ask(following, asked) ==> early(following, asked) || late(
                following,
                asked,
            )),
        forall|state: S, query: Q|
            #![trigger next(state, node(start, query))]
            late(state, query) ==> (next(state, node(start, query)) matches Step::Ask(
                following,
                asked,
            ) ==> late(following, asked)),
        forall|state: S, query: Q, now: Seq<Q>|
            #![trigger late(state, query), node(now, query)]
            late(state, query) ==> node(now, query) == node(start, query),
        step matches Step::Ask(state, query) ==> late(state, query) || past == start && early(
            state,
            query,
        ),
    ensures
        run_after(next, is_effect, node, past, step, fuel) == run(
            next,
            is_effect,
            at(node, start),
            step,
            fuel,
        ),
    decreases fuel,
{
    if let Step::Ask(state, query) = step {
        if fuel > 0 {
            let now = if is_effect(query) {
                past.push(query)
            } else {
                past
            };
            assert(node(past, query) == node(start, query));
            law_change_does_not_show(
                next,
                is_effect,
                node,
                early,
                late,
                start,
                now,
                next(state, node(start, query)),
                (fuel - 1) as nat,
            );
        }
    }
}

/// The result with its error message as a sequence of characters.
pub open spec fn message_view<A>(result: Result<A, String>) -> Result<A, Seq<char>> {
    match result {
        Ok(value) => Ok(value),
        Err(message) => Err(message@),
    }
}

} // verus!
