//! Properties that span several calls, proved from the calls' contracts.
use crate::awaiting::{poll_await_post, Await};
use crate::link::{
    completion_of, kill_post, receive_post, rpc_call_of, take_error_post, BrowserInternal, Error,
    ErrorState,
};
use crate::operations::{import_expr, import_post};
use crate::protocol::set_try;
use crate::rpc::{decodes, first_request, poll_next_post, Request, RpcDeserialize, RpcHandle};
use crate::value::JsValue;
use vstd::prelude::*;

verus! {

/// `id` was handed out by the step from `a` to `b`: every call that hands
/// out ids takes them just above `a`'s last id, up to `b`'s.
pub open spec fn issued_in(a: BrowserInternal, b: BrowserInternal, id: u64) -> bool {
    a.last_id() < id && id <= b.last_id()
}

proof fn lemma_last_id_monotone(run: Seq<BrowserInternal>, i: int, j: int)
    requires
        forall|k: int| 0 <= k < run.len() - 1 ==> #[trigger] run[k].last_id() <= run[k + 1].last_id(),
        0 <= i <= j < run.len(),
    ensures
        run[i].last_id() <= run[j].last_id(),
    decreases j - i,
{
    if i < j {
        lemma_last_id_monotone(run, i, j - 1);
        assert(run[j - 1].last_id() <= run[j].last_id());
    }
}

/// Along a run of a connection in which no call lowers the id counter (none
/// does), an id handed out by an earlier step is below every id handed out by
/// a later step: ids strictly increase and never repeat.
pub proof fn lemma_issued_ids_increase(run: Seq<BrowserInternal>, i: int, j: int, x: u64, y: u64)
    requires
        forall|k: int| 0 <= k < run.len() - 1 ==> #[trigger] run[k].last_id() <= run[k + 1].last_id(),
        0 <= i < j,
        j + 1 < run.len(),
        issued_in(run[i], run[i + 1], x),
        issued_in(run[j], run[j + 1], y),
    ensures
        x < y,
{
    lemma_last_id_monotone(run, i + 1, j);
}

/// An id handed out anywhere along a run is at most the counter of its last
/// state, so the next fresh id (one above that counter) differs from every
/// id handed out before it.
pub proof fn lemma_fresh_id_above_issued(run: Seq<BrowserInternal>, i: int, x: u64)
    requires
        forall|k: int| 0 <= k < run.len() - 1 ==> #[trigger] run[k].last_id() <= run[k + 1].last_id(),
        0 <= i,
        i + 1 < run.len(),
        issued_in(run[i], run[i + 1], x),
    ensures
        x <= run.last().last_id(),
        x < run.last().last_id() + 1,
{
    lemma_last_id_monotone(run, i + 1, run.len() - 1);
}

/// Requesting the same import twice emits one resolution command in all; the
/// second request returns the slot of the first and emits nothing.
pub proof fn lemma_import_idempotent(
    s0: BrowserInternal,
    s1: BrowserInternal,
    s2: BrowserInternal,
    name: Seq<char>,
    r1: u64,
    r2: u64,
)
    requires
        import_post(s0, s1, name, r1),
        import_post(s1, s2, name, r2),
    ensures
        r2 == r1,
        s2.commands() == s1.commands(),
        crate::link::lookup(s0.imports(), name) is None ==> s1.commands() == s0.commands()
            + set_try(r1, import_expr(name)),
        crate::link::lookup(s0.imports(), name) is Some ==> s1.commands() == s0.commands(),
{
    if crate::link::lookup(s0.imports(), name) is Some {
        assert(s1.commands() =~= s0.commands());
    }
    assert(s2.commands() =~= s1.commands());
}

/// After two kills with different errors, the error is handed out once, and
/// it is the first; the connection stays dead throughout, so the outgoing
/// stream has ended.
pub proof fn lemma_error_sticky(
    s0: BrowserInternal,
    s1: BrowserInternal,
    s2: BrowserInternal,
    s3: BrowserInternal,
    s4: BrowserInternal,
    e1: Error,
    e2: Error,
    r1: Option<Error>,
    r2: Option<Error>,
)
    requires
        s0.error_state() is NoError,
        kill_post(s0, s1, e1),
        kill_post(s1, s2, e2),
        take_error_post(s2, s3, r1),
        take_error_post(s3, s4, r2),
    ensures
        r1 == Some(e1),
        r2 is None,
        s1.is_dead(),
        s2.is_dead(),
        s3.is_dead(),
        s4.is_dead(),
{
}

/// An await answered by the client completes on its second poll: the first
/// poll registers it, and once the signal for its correlation id has been
/// received, the next poll yields a handle to a fresh slot. Without the
/// signal, the second poll yields nothing.
pub proof fn lemma_await_two_polls(
    s0: BrowserInternal,
    s1: BrowserInternal,
    s2: BrowserInternal,
    s3: BrowserInternal,
    f0: Await,
    f1: Await,
    f2: Await,
    r1: Option<JsValue>,
    signal: Seq<char>,
    payload: Seq<char>,
    r3: Option<JsValue>,
)
    requires
        f0.ret_id() == 0,
        poll_await_post(s0, s1, f0, f1, r1),
        receive_post(s1, s2, signal),
        completion_of(signal) == Some((f1.ret_id(), payload)),
        poll_await_post(s2, s3, f1, f2, r3),
    ensures
        r1 is None,
        r3 is Some,
        r3->0.slot() == s2.last_id() + 1,
{
    let id = f1.ret_id();
    assert(s1.retrievals().contains_key(id));
    assert(s1.retrievals()[id].1 == 0);
    assert(s2.retrievals()[id].1 == 1);
}

/// Without the completion signal, the second poll of an await yields nothing.
pub proof fn lemma_await_not_before_signal(
    s0: BrowserInternal,
    s1: BrowserInternal,
    s2: BrowserInternal,
    f0: Await,
    f1: Await,
    f2: Await,
    r1: Option<JsValue>,
    r2: Option<JsValue>,
)
    requires
        f0.ret_id() == 0,
        poll_await_post(s0, s1, f0, f1, r1),
        poll_await_post(s1, s2, f1, f2, r2),
    ensures
        r1 is None,
        r2 is None,
        s2.commands() == s1.commands(),
{
}

/// A channel fed a malformed call and then a well-formed one yields exactly
/// one request: the first poll returns it, the second returns nothing.
pub proof fn lemma_malformed_call_dropped<T: RpcDeserialize, C>(
    s0: BrowserInternal,
    s1: BrowserInternal,
    s2: BrowserInternal,
    s3: BrowserInternal,
    s4: BrowserInternal,
    name: Seq<char>,
    m1: Seq<char>,
    m2: Seq<char>,
    bad: Seq<char>,
    good: Seq<char>,
    r1: Option<RpcHandle<Request<T, C>>>,
    r2: Option<RpcHandle<Request<T, C>>>,
)
    requires
        s0.queue_of(name) == Some(Seq::<String>::empty()),
        rpc_call_of(m1) == Some((name, bad)),
        !decodes::<T>(bad),
        rpc_call_of(m2) == Some((name, good)),
        decodes::<T>(good),
        receive_post(s0, s1, m1),
        receive_post(s1, s2, m2),
        poll_next_post::<T, C>(s2, s3, name, r1),
        poll_next_post::<T, C>(s3, s4, name, r2),
    ensures
        r1 is Some,
        r2 is None,
{
    assert(s1.queue_of(name) is Some);
    let q1 = s1.queue_of(name)->0;
    assert(q1.len() == 1);
    assert(q1[0]@ == bad);
    let q2 = s2.queue_of(name)->0;
    assert(q2.len() == 2);
    assert(q2[0] == q1[0]);
    assert(q2[1]@ == good);
    assert(!decodes::<T>(q2[0]@));
    assert(q2.drop_first()[0]@ == good);
    assert(first_request::<T>(q2.drop_first()) == Some(0int));
    assert(first_request::<T>(q2) == Some(1int));
    assert(s3.queue_of(name)->0 =~= Seq::<String>::empty());
    assert(first_request::<T>(s3.queue_of(name)->0) is None);
}

} // verus!
