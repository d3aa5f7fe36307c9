//! Named RPC channels: calls that the client starts, read as a stream of
//! requests, each answered once.
use crate::link::BrowserInternal;
use crate::protocol::{id_text, REPLY};
use crate::serialize::UseInJsCode;
use crate::text::{parse_u64, parse_u64_spec, split_first, split_first_exec};
use crate::value::JsValue;
use core::marker::PhantomData;
use core::task::Waker;
use vstd::prelude::*;

verus! {

/// `REPLY(id,value)`: answers the call `id`.
pub open spec fn reply_cmd(id: u64, value: Seq<char>) -> Seq<char> {
    REPLY@ + "("@ + id_text(id) + ","@ + value + ")\n"@
}

/// The capability to answer one call.
pub struct Reply<C> {
    pub(crate) phantom: PhantomData<C>,
    pub(crate) id: u64,
}

/// One call: its arguments and the capability to answer it.
pub struct Request<T, C> {
    pub(crate) reply: Reply<C>,
    pub(crate) data: T,
}

/// The reading end of a channel whose calls carry `T` and are answered with `C`.
pub struct Endpoint<T, C> {
    pub(crate) phantom: PhantomData<(T, C)>,
}

/// Proof that a decoder is called from this library.
pub struct Lock {
    nope: (),
}

/// A channel handle carrying an endpoint, a request or a reply.
pub struct RpcHandle<C> {
    pub(crate) recv: String,
    pub(crate) data: C,
}

impl<C> Reply<C> {
    /// The call this answers.
    pub closed spec fn call_id(&self) -> u64 {
        self.id
    }
}

impl<T, C> Request<T, C> {
    pub closed spec fn call_id(&self) -> u64 {
        self.reply.id
    }

    pub closed spec fn args(&self) -> T {
        self.data
    }
}

impl<C> RpcHandle<C> {
    /// The channel's name.
    pub closed spec fn channel(&self) -> Seq<char> {
        self.recv@
    }

    pub closed spec fn payload(&self) -> C {
        self.data
    }
}

/// Decoding of call arguments from the front of a payload: each field is its
/// decimal text followed by `;`, and a pair decodes its two halves in order.
pub trait RpcDeserialize: Sized {
    /// The decoded value and the rest of the text, or `None`.
    spec fn deser_spec(a: Seq<char>) -> Option<(Self, Seq<char>)>;

    fn deser<'a>(a: &'a str, lock: &Lock) -> (r: Result<(Self, &'a str), ()>)
        ensures
            match r {
                Ok((v, rest)) => Self::deser_spec(a@) == Some((v, rest@)),
                Err(_) => Self::deser_spec(a@) is None,
            },
    ;
}

impl RpcDeserialize for () {
    open spec fn deser_spec(a: Seq<char>) -> Option<((), Seq<char>)> {
        Some(((), a))
    }

    fn deser<'a>(a: &'a str, lock: &Lock) -> (r: Result<((), &'a str), ()>) {
        Ok(((), a))
    }
}

/// A decimal field: digits up to the first `;`.
pub open spec fn u64_field(a: Seq<char>) -> Option<(u64, Seq<char>)> {
    match split_first(a, ';') {
        Some((s, rest)) => match parse_u64_spec(s) {
            Some(v) => Some((v, rest)),
            None => None,
        },
        None => None,
    }
}

impl RpcDeserialize for u64 {
    open spec fn deser_spec(a: Seq<char>) -> Option<(u64, Seq<char>)> {
        u64_field(a)
    }

    fn deser<'a>(a: &'a str, lock: &Lock) -> (r: Result<(u64, &'a str), ()>) {
        match split_first_exec(a, ';') {
            None => Err(()),
            Some((s, rest)) => match parse_u64(s) {
                Some(v) => Ok((v, rest)),
                None => Err(()),
            },
        }
    }
}

impl RpcDeserialize for JsValue {
    open spec fn deser_spec(a: Seq<char>) -> Option<(JsValue, Seq<char>)> {
        match u64_field(a) {
            Some((v, rest)) => Some((JsValue::with_slot(v), rest)),
            None => None,
        }
    }

    fn deser<'a>(a: &'a str, lock: &Lock) -> (r: Result<(JsValue, &'a str), ()>) {
        match u64::deser(a, lock) {
            Ok((v, rest)) => Ok((JsValue::from_slot(v), rest)),
            Err(e) => Err(e),
        }
    }
}

impl<A: RpcDeserialize, B: RpcDeserialize> RpcDeserialize for (A, B) {
    open spec fn deser_spec(a: Seq<char>) -> Option<((A, B), Seq<char>)> {
        match A::deser_spec(a) {
            Some((x, r1)) => match B::deser_spec(r1) {
                Some((y, r2)) => Some(((x, y), r2)),
                None => None,
            },
            None => None,
        }
    }

    fn deser<'a>(a: &'a str, lock: &Lock) -> (r: Result<((A, B), &'a str), ()>) {
        match A::deser(a, lock) {
            Err(e) => Err(e),
            Ok((x, r1)) => match B::deser(r1, lock) {
                Err(e) => Err(e),
                Ok((y, r2)) => Ok(((x, y), r2)),
            },
        }
    }
}

/// A queued call decodes when it reads as the call id and then the arguments.
pub open spec fn decodes<T: RpcDeserialize>(item: Seq<char>) -> bool {
    decoded_call::<T>(item) is Some
}

/// The call id and arguments that a queued call decodes to.
pub open spec fn decoded_call<T: RpcDeserialize>(item: Seq<char>) -> Option<(u64, T)> {
    match <(u64, T)>::deser_spec(item) {
        Some((call, _)) => Some(call),
        None => None,
    }
}

/// The position of the first queued call that decodes.
pub open spec fn first_request<T: RpcDeserialize>(q: Seq<String>) -> Option<int>
    decreases q.len(),
{
    if q.len() == 0 {
        None
    } else if decodes::<T>(q[0]@) {
        Some(0)
    } else {
        match first_request::<T>(q.drop_first()) {
            Some(i) => Some(i + 1),
            None => None,
        }
    }
}

proof fn lemma_first_request_skip<T: RpcDeserialize>(q: Seq<String>, k: int)
    requires
        0 <= k <= q.len(),
        forall|j: int| 0 <= j < k ==> !decodes::<T>(#[trigger] q[j]@),
    ensures
        first_request::<T>(q) == match first_request::<T>(q.subrange(k, q.len() as int)) {
            Some(i) => Some(i + k),
            None => None::<int>,
        },
    decreases k,
{
    if k > 0 {
        assert(!decodes::<T>(q[0]@));
        assert(q.drop_first().subrange(k - 1, q.drop_first().len() as int) =~= q.subrange(
            k,
            q.len() as int,
        ));
        assert forall|j: int| 0 <= j < k - 1 implies !decodes::<T>(
            #[trigger] q.drop_first()[j]@,
        ) by {
            assert(q.drop_first()[j] == q[j + 1]);
        }
        lemma_first_request_skip::<T>(q.drop_first(), k - 1);
    } else {
        assert(q.subrange(0, q.len() as int) =~= q);
    }
}

/// The state after one poll of the request stream of `channel` returned `r`.
pub open spec fn poll_next_post<T: RpcDeserialize, C>(
    old: BrowserInternal,
    new: BrowserInternal,
    channel: Seq<char>,
    r: Option<RpcHandle<Request<T, C>>>,
) -> bool {
    &&& match old.queue_of(channel) {
        None => r is None && new.queue_of(channel) is None,
        Some(q) => match first_request::<T>(q) {
            None => r is None && new.queue_of(channel) == Some(
                Seq::<String>::empty(),
            ),
            Some(i) => {
                &&& r is Some
                &&& new.queue_of(channel) == Some(
                    q.subrange(i + 1, q.len() as int),
                )
                &&& r->0.channel() == channel
                &&& decoded_call::<T>(q[i]@) == Some(
                    (r->0.payload().call_id(), r->0.payload().args()),
                )
            },
        }
    }
    &&& forall|k: Seq<char>|
        k != channel ==> #[trigger] new.queue_of(k) == old.queue_of(k)
    &&& new.commands() == old.commands()
    &&& new.last_id() == old.last_id()
    &&& new.error_state() == old.error_state()
    &&& new.retrievals() == old.retrievals()
    &&& new.imports() == old.imports()
    &&& new.pure_values() == old.pure_values()
}

impl BrowserInternal {
    /// Opens the channel `name` (once per name; later calls share its queue)
    /// and returns its reading end.
    pub fn new_rpc<T, C>(&mut self, name: &str) -> (r: RpcHandle<Endpoint<T, C>>)
        ensures
            r.channel() == name@,
            final(self).queue_of(name@) == (if old(self).queue_of(name@) is Some {
                old(self).queue_of(name@)
            } else {
                Some(Seq::<String>::empty())
            }),
            forall|k: Seq<char>|
                k != name@ ==> #[trigger] final(self).queue_of(k) == old(self).queue_of(k),
            final(self).commands() == old(self).commands(),
            final(self).last_id() == old(self).last_id(),
            final(self).error_state() == old(self).error_state(),
            final(self).retrievals() == old(self).retrievals(),
            final(self).imports() == old(self).imports(),
            final(self).pure_values() == old(self).pure_values(),
    {
        self.open_channel(name);
        RpcHandle { recv: name.to_owned(), data: Endpoint { phantom: PhantomData } }
    }
}

impl<T: RpcDeserialize, C> RpcHandle<Endpoint<T, C>> {
    /// One poll of the request stream: the first queued call that decodes,
    /// with every call before it dropped; or nothing, with the queue emptied
    /// and `waker` recorded as the reader.
    pub fn poll_next(&self, browser: &mut BrowserInternal, waker: &Waker) -> (r: Option<
        RpcHandle<Request<T, C>>,
    >)
        ensures
            poll_next_post::<T, C>(*old(browser), *final(browser), self.channel(), r),
    {
        let ghost q0 = old(browser).queue_of(self.channel());
        let ghost mut k: int = 0;
        let lock = Lock { nope: () };
        loop
            invariant
                q0 == old(browser).queue_of(self.recv@),
                q0 is Some ==> 0 <= k <= q0->0.len() && browser.queue_of(self.recv@) == Some(
                    q0->0.subrange(k, q0->0.len() as int),
                ) && forall|j: int| 0 <= j < k ==> !decodes::<T>(#[trigger] q0->0[j]@),
                q0 is None ==> browser.queue_of(self.recv@) is None,
                forall|n: Seq<char>|
                    n != self.recv@ ==> #[trigger] browser.queue_of(n) == old(browser).queue_of(n),
                browser.commands() == old(browser).commands(),
                browser.last_id() == old(browser).last_id(),
                browser.error_state() == old(browser).error_state(),
                browser.retrievals() == old(browser).retrievals(),
                browser.imports() == old(browser).imports(),
                browser.pure_values() == old(browser).pure_values(),
            decreases (if q0 is Some {
                q0->0.len() - k
            } else {
                0
            }),
        {
            let item = browser.pop_queue(self.recv.as_str(), waker);
            match item {
                None => {
                    proof {
                        if q0 is Some {
                            lemma_first_request_skip::<T>(q0->0, k);
                            assert(q0->0.subrange(k, q0->0.len() as int) =~= Seq::<String>::empty());
                        }
                    }
                    return None;
                },
                Some(text) => {
                    let ghost q = q0->0;
                    proof {
                        assert(text == q[k]);
                    }
                    match <(u64, T)>::deser(text.as_str(), &lock) {
                        Ok(((id, data), _)) => {
                            proof {
                                lemma_first_request_skip::<T>(q, k);
                                assert(q.subrange(k, q.len() as int)[0] == q[k]);
                                assert(q.subrange(k, q.len() as int).drop_first() =~= q.subrange(
                                    k + 1,
                                    q.len() as int,
                                ));
                            }
                            let reply = Reply { phantom: PhantomData, id };
                            return Some(
                                RpcHandle {
                                    recv: self.recv.clone(),
                                    data: Request { reply, data },
                                },
                            );
                        },
                        Err(_) => {
                            proof {
                                assert(q.subrange(k, q.len() as int).drop_first() =~= q.subrange(
                                    k + 1,
                                    q.len() as int,
                                ));
                                k = k + 1;
                            }
                        },
                    }
                },
            }
        }
    }
}

impl<T, C> RpcHandle<Request<T, C>> {
    /// Splits a call into its arguments and the capability to answer it.
    pub fn decaps(self) -> (r: (T, RpcHandle<Reply<C>>))
        ensures
            r.0 == self.payload().args(),
            r.1.channel() == self.channel(),
            r.1.payload().call_id() == self.payload().call_id(),
    {
        (self.data.data, RpcHandle { recv: self.recv, data: self.data.reply })
    }
}

impl<C: UseInJsCode> RpcHandle<Reply<C>> {
    /// Answers the call with `c`, once: the handle is consumed.
    pub fn reply(self, browser: &mut BrowserInternal, c: C)
        ensures
            final(browser).emitted(old(browser), reply_cmd(self.payload().call_id(), c.js_code())),
    {
        let id = self.data.id;
        browser.put(REPLY);
        browser.put("(");
        browser.put_id(id);
        browser.put(",");
        browser.put_code(&c);
        browser.put(")\n");
        browser.wake_outgoing();
        assert(browser.commands() =~= old(browser).commands() + reply_cmd(id, c.js_code()));
    }
}

} // verus!
