use vstd::prelude::*;

use crate::error::AppError;
use crate::queue::{next_post, Message};
use crate::router::{result_view, AppRouter, Matched, RouteRule};
use crate::swap::Swappable;

verus! {

/// Matching is a pure function of the table and the request: two matches of
/// the same method and path on one unchanged table give the same result.
pub proof fn law_match_is_pure(
    t: AppRouter,
    method: Seq<char>,
    path: Seq<char>,
    r1: Result<Matched, AppError>,
    r2: Result<Matched, AppError>,
)
    requires
        result_view(r1) == t.outcome(method, path),
        result_view(r2) == t.outcome(method, path),
    ensures
        result_view(r1) == result_view(r2),
{
}

/// Building is a pure function of the rule list: two tables built from the
/// same rules answer every request alike.
pub proof fn law_build_is_pure(
    t1: AppRouter,
    t2: AppRouter,
    rules: Seq<RouteRule>,
    method: Seq<char>,
    path: Seq<char>,
)
    requires
        t1.built_from(rules),
        t2.built_from(rules),
    ensures
        t1.outcome(method, path) == t2.outcome(method, path),
{
    assert forall|i: int| 0 <= i < rules.len() implies {
        &&& (#[trigger] t1.routes()[i]).hit(method, path) == t2.routes()[i].hit(method, path)
        &&& t1.routes()[i].path_hit(path) == t2.routes()[i].path_hit(path)
        &&& t1.routes()[i].template() == t2.routes()[i].template()
        &&& t1.routes()[i].handler@ == t2.routes()[i].handler@
    } by {
        assert(t1.routes()[i].wf());
        assert(t2.routes()[i].wf());
    }
    assert forall|i: int| #[trigger] t1.is_first_hit(i, method, path) == t2.is_first_hit(i, method, path) by {
        if 0 <= i < rules.len() {
            assert(t1.routes()[i].hit(method, path) == t2.routes()[i].hit(method, path));
            if t1.is_first_hit(i, method, path) {
                assert forall|j: int| 0 <= j < i implies !(#[trigger] t2.routes()[j]).hit(method, path) by {
                    assert(!t1.routes()[j].hit(method, path));
                }
            }
            if t2.is_first_hit(i, method, path) {
                assert forall|j: int| 0 <= j < i implies !(#[trigger] t1.routes()[j]).hit(method, path) by {
                    assert(!t2.routes()[j].hit(method, path));
                }
            }
        }
    }
    if exists|i: int| t1.is_first_hit(i, method, path) {
        let a = choose|i: int| t1.is_first_hit(i, method, path);
        let b = choose|i: int| t2.is_first_hit(i, method, path);
        assert(t2.is_first_hit(a, method, path));
        crate::router::lemma_first_hit_unique(&t2, a, b, method, path);
    } else {
        assert(!exists|i: int| t2.is_first_hit(i, method, path)) by {
            if exists|i: int| t2.is_first_hit(i, method, path) {
                let b = choose|i: int| t2.is_first_hit(i, method, path);
                assert(t1.is_first_hit(b, method, path));
            }
        }
        if exists|i: int| 0 <= i < t1.routes().len() && (#[trigger] t1.routes()[i]).path_hit(path) {
            let a = choose|i: int| 0 <= i < t1.routes().len() && (#[trigger] t1.routes()[i]).path_hit(path);
            assert(t2.routes()[a].path_hit(path));
        }
        if exists|i: int| 0 <= i < t2.routes().len() && (#[trigger] t2.routes()[i]).path_hit(path) {
            let b = choose|i: int| 0 <= i < t2.routes().len() && (#[trigger] t2.routes()[i]).path_hit(path);
            assert(t1.routes()[b].path_hit(path));
        }
    }
}

/// With no other writer in between, `load` after `swap(v)` hands out `v`.
pub proof fn law_swap_then_load<T>(after_swap: Swappable<T>, v: T, loaded: T)
    requires
        after_swap.current() == v,
        loaded == after_swap.current(),
    ensures
        loaded == v,
{
}

/// No job is lost or duplicated by the queue: what `next` hands out,
/// followed by what stays queued, is exactly what was queued before.
pub proof fn law_next_hands_out_each_job_once<J>(
    before: Seq<Message<J>>,
    after: Seq<Message<J>>,
    out: Option<Message<J>>,
)
    requires
        next_post(before, after, out),
    ensures
        match out {
            Some(m) => seq![m] + after == before,
            None => after == before && before.len() == 0,
        },
{
    if let Some(m) = out {
        assert(seq![m] + after =~= before);
    }
}

/// Taking messages one at a time drains the queue in submission order: after
/// `k` takes, the messages handed out are the first `k` that were queued and
/// the rest are still queued, in order.
pub proof fn law_takes_preserve_order<J>(
    queued: Seq<Message<J>>,
    states: Seq<Seq<Message<J>>>,
    outs: Seq<Option<Message<J>>>,
)
    requires
        states.len() == outs.len() + 1,
        states[0] == queued,
        outs.len() <= queued.len(),
        forall|i: int| 0 <= i < outs.len() ==> next_post(#[trigger] states[i], states[i + 1], outs[i]),
    ensures
        forall|i: int| 0 <= i < outs.len() ==> #[trigger] outs[i] == Some(queued[i]),
        states.last() == queued.subrange(outs.len() as int, queued.len() as int),
    decreases outs.len(),
{
    if outs.len() > 0 {
        let n = outs.len() - 1;
        law_takes_preserve_order(queued, states.take(n + 1), outs.take(n));
        assert(states.take(n + 1).last() == states[n]);
        assert(states[n] == queued.subrange(n, queued.len() as int));
        assert(next_post(states[n], states[n + 1], outs[n]));
        assert(states[n + 1] =~= queued.subrange(n + 1, queued.len() as int));
        assert forall|i: int| 0 <= i < outs.len() implies #[trigger] outs[i] == Some(queued[i]) by {
            if i < n {
                assert(outs.take(n)[i] == outs[i]);
            }
        }
    } else {
        assert(queued.subrange(0, queued.len() as int) =~= queued);
    }
}

} // verus!
