//! Pulling a value back from the client: register interest, then harvest
//! the payload once its completion signal has arrived.
use crate::link::{BrowserInternal, Error};
use crate::protocol::{id_text, CATCH, REP};
use crate::value::JsValue;
use core::task::Waker;
use vstd::prelude::*;

verus! {

/// `REP(ret_id, CATCH(id));`: asks the client to send back the value of slot
/// `id`, or the exception it holds, as the completion signal `ret_id`.
pub open spec fn retrieve_cmd(ret_id: u64, id: u64) -> Seq<char> {
    REP@ + "("@ + id_text(ret_id) + ","@ + CATCH@ + "("@ + id_text(id) + "));\n"@
}

/// A pending retrieval of the value of one slot.
pub struct RetrieveFuture {
    id: u64,
    ret_id: u64,
}

/// A decoded completion payload: `{value: ...}` or `{error: <slot>}`.
pub enum RetrievalOutcome<T> {
    Value(T),
    Error(u64),
}

impl RetrieveFuture {
    /// The slot whose value is asked for.
    pub closed spec fn target(&self) -> u64 {
        self.id
    }

    /// The correlation id, once registered; zero before.
    pub closed spec fn ret_id(&self) -> u64 {
        self.ret_id
    }
}

impl RetrieveFuture {
    /// Whether the first poll has registered this retrieval.
    pub fn is_registered(&self) -> (r: bool)
        ensures
            r == (self.ret_id() != 0),
    {
        self.ret_id != 0
    }
}

impl JsValue {
    /// A retrieval of this handle's value, not yet registered.
    pub fn retrieve_json(&self) -> (r: RetrieveFuture)
        ensures
            r.target() == self.slot(),
            r.ret_id() == 0,
    {
        RetrieveFuture { id: self.id(), ret_id: 0 }
    }
}

impl BrowserInternal {
    /// One poll of a retrieval. The first poll takes a fresh correlation id,
    /// registers it and emits the request. Later polls return the payload
    /// once it has arrived, and nothing before.
    pub fn poll_retrieve(&mut self, fut: &mut RetrieveFuture, waker: &Waker) -> (r: Option<String>)
        requires
            old(fut).ret_id() == 0 ==> old(self).has_room(1),
        ensures
            final(fut).target() == old(fut).target(),
            final(self).error_state() == old(self).error_state(),
            final(self).imports() == old(self).imports(),
            final(self).pure_values() == old(self).pure_values(),
            final(self).channels() == old(self).channels(),
            old(fut).ret_id() == 0 ==> {
                &&& r is None
                &&& final(fut).ret_id() == old(self).last_id() + 1
                &&& final(self).last_id() == final(fut).ret_id()
                &&& final(self).commands() == old(self).commands() + retrieve_cmd(
                    final(fut).ret_id(),
                    old(fut).target(),
                )
                &&& final(self).retrievals() == old(self).retrievals().insert(
                    final(fut).ret_id(),
                    (Seq::empty(), 0),
                )
            },
            old(fut).ret_id() != 0 ==> {
                let id = old(fut).ret_id();
                let ready = old(self).retrievals().contains_key(id) && old(self).retrievals()[id].1
                    > 0;
                &&& final(fut).ret_id() == old(fut).ret_id()
                &&& final(self).last_id() == old(self).last_id()
                &&& final(self).commands() == old(self).commands()
                &&& ready ==> r is Some && r->0@ == old(self).retrievals()[id].0
                    && final(self).retrievals() == old(self).retrievals().remove(id)
                &&& !ready ==> r is None && final(self).retrievals() == old(self).retrievals()
            },
    {
        if fut.ret_id == 0 {
            let ret_id = self.get_new_id();
            fut.ret_id = ret_id;
            self.register(ret_id, waker);
            self.put(REP);
            self.put("(");
            self.put_id(ret_id);
            self.put(",");
            self.put(CATCH);
            self.put("(");
            self.put_id(fut.id);
            self.put("));\n");
            self.wake_outgoing();
            assert(self.commands() =~= old(self).commands() + retrieve_cmd(ret_id, fut.id));
            None
        } else {
            self.harvest(fut.ret_id, waker)
        }
    }

    /// Settles a retrieval from its decoded payload: a value, or a handle to
    /// the thrown exception's slot. A payload that could not be decoded ends
    /// the connection, and the retrieval stays unresolved.
    pub fn settle_retrieval<T>(&mut self, decoded: Result<RetrievalOutcome<T>, serde_json::Error>) -> (r: Option<Result<T, JsValue>>)
        ensures
            match decoded {
                Ok(RetrievalOutcome::Value(v)) => r == Some(Ok::<T, JsValue>(v)),
                Ok(RetrievalOutcome::Error(id)) => r is Some && r->0 is Err && r->0->Err_0.slot()
                    == id,
                Err(e) => r is None,
            },
            decoded is Ok ==> final(self).error_state() == old(self).error_state(),
            match decoded {
                Err(e) => old(self).error_state() is NoError ==> final(self).error_state()
                    == crate::link::ErrorState::Error(Error::DataDeserialize(e)),
                _ => true,
            },
            !old(self).error_state().is_no_error() ==> final(self).error_state() == old(
                self,
            ).error_state(),
            final(self).last_id() == old(self).last_id(),
            final(self).commands() == old(self).commands(),
            final(self).retrievals() == old(self).retrievals(),
            final(self).imports() == old(self).imports(),
            final(self).pure_values() == old(self).pure_values(),
            final(self).channels() == old(self).channels(),
    {
        match decoded {
            Ok(RetrievalOutcome::Value(v)) => Some(Ok(v)),
            Ok(RetrievalOutcome::Error(id)) => Some(Err(JsValue::from_slot(id))),
            Err(e) => {
                self.kill(Error::DataDeserialize(e));
                None
            },
        }
    }

    /// Drops a retrieval: its pending completion, if registered, is
    /// forgotten. Nothing is emitted.
    pub fn drop_retrieve(&mut self, fut: RetrieveFuture)
        ensures
            fut.ret_id() != 0 ==> final(self).retrievals() == old(self).retrievals().remove(
                fut.ret_id(),
            ),
            fut.ret_id() == 0 ==> final(self).retrievals() == old(self).retrievals(),
            final(self).commands() == old(self).commands(),
            final(self).last_id() == old(self).last_id(),
            final(self).error_state() == old(self).error_state(),
            final(self).imports() == old(self).imports(),
            final(self).pure_values() == old(self).pure_values(),
            final(self).channels() == old(self).channels(),
    {
        if fut.ret_id != 0 {
            self.unregister(fut.ret_id);
        }
    }
}

} // verus!
