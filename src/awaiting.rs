//! Awaiting a promise on the client: on the first poll the promise is
//! hooked so that its settlement fills a scratch cell and signals back; once
//! the signal has arrived, the settled value moves into a fresh slot.
use crate::link::BrowserInternal;
use crate::protocol::{del_cmd, get_of, id_text, DEL, ERR, REP, SET};
use crate::value::JsValue;
use core::task::Waker;
use vstd::prelude::*;

verus! {

/// Hooks promise `promise` so that its settlement is stored in cell `cell`
/// as `{e, r}` (`r` is 1 on rejection) and signalled as completion `ret`.
pub open spec fn await_cmd(ret: u64, cell: u64, promise: u64) -> Seq<char> {
    SET@ + "("@ + id_text(cell) + ",{});try{Promise.prototype.then.call("@ + get_of(promise)
        + ",function(e){"@ + get_of(cell) + ".$={e,r:0};"@ + REP@ + "("@ + id_text(ret)
        + ",0)},function(e){"@ + get_of(cell) + ".$={e,r:1};"@ + REP@ + "("@ + id_text(ret)
        + ",0)})}catch($){"@ + get_of(cell) + ".$={e:$,r:1};"@ + REP@ + "("@ + id_text(ret)
        + ",0)};\n"@
}

/// Moves the settlement in cell `cell` into slot `val` (as an exception on
/// rejection) and frees the cell.
pub open spec fn settle_cmd(cell: u64, val: u64) -> Seq<char> {
    "{var v="@ + get_of(cell) + ".$;(v.r?"@ + ERR@ + ":"@ + SET@ + ")("@ + id_text(val) + ",v.e);"@
        + DEL@ + "("@ + id_text(cell) + ")};\n"@
}

/// The wait for one promise, which it owns.
pub struct Await {
    promise: u64,
    ret_id: u64,
    cell_id: u64,
}

impl Await {
    /// The slot of the awaited promise.
    pub closed spec fn promise(&self) -> u64 {
        self.promise
    }

    /// The correlation id, once registered; zero before.
    pub closed spec fn ret_id(&self) -> u64 {
        self.ret_id
    }

    /// The scratch cell that receives the settlement.
    pub closed spec fn cell_id(&self) -> u64 {
        self.cell_id
    }
}

impl Await {
    /// Whether the first poll has registered this await.
    pub fn is_registered(&self) -> (r: bool)
        ensures
            r == (self.ret_id() != 0),
    {
        self.ret_id != 0
    }
}

impl JsValue {
    /// The wait for this promise; nothing is emitted before the first poll.
    pub fn into_future(self) -> (r: Await)
        ensures
            r.promise() == self.slot(),
            r.ret_id() == 0,
    {
        Await { promise: self.id(), ret_id: 0, cell_id: 0 }
    }
}

/// The state after one poll of the await `fut`, which became `fut2` and
/// returned `r`.
pub open spec fn poll_await_post(
    old: BrowserInternal,
    new: BrowserInternal,
    fut: Await,
    fut2: Await,
    r: Option<JsValue>,
) -> bool {
    &&& fut2.promise() == fut.promise()
    &&& new.error_state() == old.error_state()
    &&& new.imports() == old.imports()
    &&& new.pure_values() == old.pure_values()
    &&& new.channels() == old.channels()
    &&& fut.ret_id() == 0 ==> {
        &&& r is None
        &&& fut2.ret_id() == old.last_id() + 1
        &&& fut2.cell_id() == old.last_id() + 2
        &&& new.last_id() == fut2.cell_id()
        &&& new.commands() == old.commands() + await_cmd(
            fut2.ret_id(),
            fut2.cell_id(),
            fut.promise(),
        ) + del_cmd(fut.promise())
        &&& new.retrievals() == old.retrievals().insert(
            fut2.ret_id(),
            (Seq::empty(), 0),
        )
    }
    &&& fut.ret_id() != 0 ==> {
        let id = fut.ret_id();
        let ready = old.retrievals().contains_key(id) && old.retrievals()[id].1
            > 0;
        &&& fut2.ret_id() == fut.ret_id()
        &&& fut2.cell_id() == fut.cell_id()
        &&& ready ==> {
            &&& r is Some
            &&& r->0.slot() == old.last_id() + 1
            &&& new.last_id() == r->0.slot()
            &&& new.commands() == old.commands() + settle_cmd(
                fut.cell_id(),
                r->0.slot(),
            )
            &&& new.retrievals() == old.retrievals().remove(id)
        }
        &&& !ready ==> {
            &&& r is None
            &&& new.last_id() == old.last_id()
            &&& new.commands() == old.commands()
            &&& new.retrievals() == old.retrievals()
        }
    }
}

impl BrowserInternal {
    fn put_await(&mut self, ret: u64, cell: u64, promise: u64)
        ensures
            final(self).emitted(old(self), await_cmd(ret, cell, promise)),
    {
        self.put(SET);
        self.put("(");
        self.put_id(cell);
        self.put(",{});try{Promise.prototype.then.call(");
        self.put_get(promise);
        self.put(",function(e){");
        self.put_get(cell);
        self.put(".$={e,r:0};");
        self.put(REP);
        self.put("(");
        self.put_id(ret);
        self.put(",0)},function(e){");
        self.put_get(cell);
        self.put(".$={e,r:1};");
        self.put(REP);
        self.put("(");
        self.put_id(ret);
        self.put(",0)})}catch($){");
        self.put_get(cell);
        self.put(".$={e:$,r:1};");
        self.put(REP);
        self.put("(");
        self.put_id(ret);
        self.put(",0)};\n");
        assert(self.commands() =~= old(self).commands() + await_cmd(ret, cell, promise));
    }

    fn put_settle(&mut self, cell: u64, val: u64)
        ensures
            final(self).emitted(old(self), settle_cmd(cell, val)),
    {
        self.put("{var v=");
        self.put_get(cell);
        self.put(".$;(v.r?");
        self.put(ERR);
        self.put(":");
        self.put(SET);
        self.put(")(");
        self.put_id(val);
        self.put(",v.e);");
        self.put(DEL);
        self.put("(");
        self.put_id(cell);
        self.put(")};\n");
        assert(self.commands() =~= old(self).commands() + settle_cmd(cell, val));
    }

    fn put_del(&mut self, id: u64)
        ensures
            final(self).emitted(old(self), del_cmd(id)),
    {
        self.put(DEL);
        self.put("(");
        self.put_id(id);
        self.put(");\n");
        assert(self.commands() =~= old(self).commands() + del_cmd(id));
    }

    /// One poll of an await. The first poll registers a correlation id and a
    /// scratch cell, hooks the promise and frees the promise's own slot.
    /// Later polls, once the signal has arrived, move the settlement into a
    /// fresh slot and return its handle; before that they return nothing.
    pub fn poll_await(&mut self, fut: &mut Await, waker: &Waker) -> (r: Option<JsValue>)
        requires
            old(fut).ret_id() == 0 ==> old(self).has_room(2),
            old(fut).ret_id() != 0 && old(self).retrievals().contains_key(old(fut).ret_id())
                && old(self).retrievals()[old(fut).ret_id()].1 > 0 ==> old(self).has_room(1),
        ensures
            poll_await_post(*old(self), *final(self), *old(fut), *final(fut), r),
    {
        if fut.ret_id == 0 {
            let ret_id = self.get_new_id();
            let cell_id = self.get_new_id();
            self.register(ret_id, waker);
            self.put_await(ret_id, cell_id, fut.promise);
            self.put_del(fut.promise);
            self.wake_outgoing();
            fut.ret_id = ret_id;
            fut.cell_id = cell_id;
            None
        } else {
            match self.harvest(fut.ret_id, waker) {
                Some(_) => {
                    let val_id = self.get_new_id();
                    self.put_settle(fut.cell_id, val_id);
                    self.wake_outgoing();
                    Some(JsValue::from_slot(val_id))
                },
                None => None,
            }
        }
    }

    /// Drops an await. Before its first poll it still owns the promise, whose
    /// slot is freed; after, its pending completion is forgotten.
    pub fn drop_await(&mut self, fut: Await)
        ensures
            fut.ret_id() == 0 ==> final(self).emitted(old(self), del_cmd(fut.promise())),
            fut.ret_id() != 0 ==> {
                &&& final(self).retrievals() == old(self).retrievals().remove(fut.ret_id())
                &&& final(self).commands() == old(self).commands()
                &&& final(self).last_id() == old(self).last_id()
                &&& final(self).error_state() == old(self).error_state()
                &&& final(self).imports() == old(self).imports()
                &&& final(self).pure_values() == old(self).pure_values()
                &&& final(self).channels() == old(self).channels()
            },
    {
        if fut.ret_id == 0 {
            self.put_del(fut.promise);
            self.wake_outgoing();
        } else {
            self.unregister(fut.ret_id);
        }
    }
}

} // verus!
