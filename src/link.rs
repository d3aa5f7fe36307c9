//! The connection state: id allocation, the outgoing command buffer, the
//! pending completions, the named RPC queues, the caches and the sticky error.
use crate::serialize::UseInJsCode;
use crate::table::{table_entries, RetrievalState, RetrievalTable};
use crate::text::{parse_u64, parse_u64_spec, split_first, split_first_exec};
use core::task::Waker;
use std::collections::VecDeque;
use vstd::prelude::*;

verus! {

/// An error that ends the connection.
pub enum Error {
    /// An argument or a command could not be turned into code.
    CommandSerialize(serde_json::Error),
    /// A completion payload could not be decoded.
    DataDeserialize(serde_json::Error),
}

/// The sticky error flag.
pub enum ErrorState {
    NoError,
    Error(Error),
    ErrorTaken,
}

impl ErrorState {
    pub open spec fn is_no_error(&self) -> bool {
        self is NoError
    }
}

/// What the outgoing stream yields on a poll.
pub enum PollFrame {
    /// Nothing to send yet; the polling task is woken on the next command.
    Pending,
    /// One frame holding every command emitted since the last one.
    Ready(String),
    /// The connection is dead: the stream has ended.
    Finished,
}

/// The queue of one named RPC channel and the task that waits on it.
pub struct RpcCell {
    pub waker: Waker,
    pub queue: VecDeque<String>,
}

/// The first entry of `entries` whose key is `k`.
pub open spec fn lookup<V>(entries: Seq<(String, V)>, k: Seq<char>) -> Option<V>
    decreases entries.len(),
{
    if entries.len() == 0 {
        None
    } else if entries[0].0@ == k {
        Some(entries[0].1)
    } else {
        lookup(entries.drop_first(), k)
    }
}

proof fn lemma_lookup_push<V>(entries: Seq<(String, V)>, e: (String, V), k: Seq<char>)
    ensures
        lookup(entries.push(e), k) == (if lookup(entries, k) is Some {
            lookup(entries, k)
        } else if e.0@ == k {
            Some(e.1)
        } else {
            None
        }),
    decreases entries.len(),
{
    let p = entries.push(e);
    if entries.len() > 0 {
        assert(p.drop_first() =~= entries.drop_first().push(e));
        assert(p[0] == entries[0]);
        lemma_lookup_push(entries.drop_first(), e, k);
    } else {
        assert(p.drop_first() =~= Seq::<(String, V)>::empty());
        assert(p[0] == e);
        assert(lookup(p.drop_first(), k) is None);
    }
}

proof fn lemma_lookup_skip<V>(entries: Seq<(String, V)>, i: int, k: Seq<char>)
    requires
        0 <= i < entries.len(),
        entries[i].0@ != k,
    ensures
        lookup(entries.subrange(i, entries.len() as int), k) == lookup(
            entries.subrange(i + 1, entries.len() as int),
            k,
        ),
{
    assert(entries.subrange(i, entries.len() as int).drop_first() =~= entries.subrange(
        i + 1,
        entries.len() as int,
    ));
}

proof fn lemma_lookup_update<V>(entries: Seq<(String, V)>, i: int, v: V, k: Seq<char>)
    requires
        0 <= i < entries.len(),
        lookup(entries, entries[i].0@) == Some(entries[i].1),
        forall|j: int| 0 <= j < i ==> entries[j].0@ != entries[i].0@,
    ensures
        lookup(entries.update(i, (entries[i].0, v)), k) == (if k == entries[i].0@ {
            Some(v)
        } else {
            lookup(entries, k)
        }),
    decreases entries.len(),
{
    let u = entries.update(i, (entries[i].0, v));
    if i > 0 {
        assert(u.drop_first() =~= entries.drop_first().update(i - 1, (entries[i].0, v)));
        assert(u[0] == entries[0]);
        assert(entries[0].0@ != entries[i].0@);
        assert(entries.drop_first()[i - 1] == entries[i]);
        assert forall|j: int| 0 <= j < i - 1 implies entries.drop_first()[j].0@ != entries[i].0@ by {
            assert(entries.drop_first()[j] == entries[j + 1]);
        }
        lemma_lookup_update(entries.drop_first(), i - 1, v, k);
    } else {
        assert(u.drop_first() =~= entries.drop_first());
        assert(u[0].0 == entries[0].0);
    }
}

/// A completion signal `p<id>:<payload>`: its id and payload.
pub open spec fn completion_of(m: Seq<char>) -> Option<(u64, Seq<char>)> {
    if m.len() > 0 && m[0] == 'p' {
        match split_first(m.drop_first(), ':') {
            Some((a, b)) => match parse_u64_spec(a) {
                Some(id) => Some((id, b)),
                None => None,
            },
            None => None,
        }
    } else {
        None
    }
}

/// One more payload, counted up to the largest `usize`.
pub open spec fn bump(t: nat) -> nat {
    if t < usize::MAX {
        t + 1
    } else {
        t
    }
}

/// An RPC call `r<name>:<payload>`: its channel name and payload.
pub open spec fn rpc_call_of(m: Seq<char>) -> Option<(Seq<char>, Seq<char>)> {
    if m.len() > 0 && m[0] == 'r' {
        split_first(m.drop_first(), ':')
    } else {
        None
    }
}

/// Relies on `futures_util::task::noop_waker_ref`: a waker that does nothing,
/// for a channel that nobody reads yet.
#[verifier::external_body]
fn noop_waker() -> Waker {
    futures_util::task::noop_waker_ref().clone()
}

/// The state after `kill(err)`: the first error is kept; nothing else changes.
pub open spec fn kill_post(old: BrowserInternal, new: BrowserInternal, err: Error) -> bool {
    &&& old.error_state() is NoError ==> new.error_state() == ErrorState::Error(err)
    &&& !(old.error_state() is NoError) ==> new.error_state() == old.error_state()
    &&& new.last_id() == old.last_id()
    &&& new.commands() == old.commands()
    &&& new.retrievals() == old.retrievals()
    &&& new.imports() == old.imports()
    &&& new.pure_values() == old.pure_values()
    &&& new.channels() == old.channels()
}

/// The state after `take_error` returned `r`.
pub open spec fn take_error_post(old: BrowserInternal, new: BrowserInternal, r: Option<Error>) -> bool {
    &&& match old.error_state() {
        ErrorState::Error(e) => r == Some(e) && new.error_state() is ErrorTaken,
        ErrorState::NoError => r is None && new.error_state() is NoError,
        ErrorState::ErrorTaken => r is None && new.error_state() is ErrorTaken,
    }
    &&& new.last_id() == old.last_id()
    &&& new.commands() == old.commands()
    &&& new.retrievals() == old.retrievals()
    &&& new.imports() == old.imports()
    &&& new.pure_values() == old.pure_values()
    &&& new.channels() == old.channels()
}

/// The state after `receive(m)`.
pub open spec fn receive_post(old: BrowserInternal, new: BrowserInternal, m: Seq<char>) -> bool {
    &&& match completion_of(m) {
        Some((id, payload)) => if old.retrievals().contains_key(id) {
            new.retrievals() == old.retrievals().insert(
                id,
                (payload, bump(old.retrievals()[id].1)),
            )
        } else {
            new.retrievals() == old.retrievals()
        },
        None => new.retrievals() == old.retrievals(),
    }
    &&& match rpc_call_of(m) {
        Some((name, payload)) => forall|k: Seq<char>|
            #![trigger new.queue_of(k)]
            new.queue_of(k) == if k == name && old.queue_of(k) is Some {
                Some(old.queue_of(k)->0.push(new.queue_of(k)->0.last()))
            } else {
                old.queue_of(k)
            },
        None => forall|k: Seq<char>| #![trigger new.queue_of(k)] new.queue_of(k) == old.queue_of(k),
    }
    &&& match rpc_call_of(m) {
        Some((name, payload)) => old.queue_of(name) is Some ==> new.queue_of(name)->0.last()@
            == payload,
        None => true,
    }
    &&& new.channels().len() == old.channels().len()
    &&& new.last_id() == old.last_id()
    &&& new.commands() == old.commands()
    &&& new.error_state() == old.error_state()
    &&& new.imports() == old.imports()
    &&& new.pure_values() == old.pure_values()
}

/// The state of one connection.
pub struct BrowserInternal {
    pub(crate) retrievals: RetrievalTable,
    pub(crate) last_id: u64,
    pub(crate) commands_buf: String,
    pub(crate) outgoing_waker: Option<Waker>,
    pub(crate) dead: ErrorState,
    pub(crate) imports: Vec<(String, u64)>,
    pub(crate) rpc_state: Vec<(String, RpcCell)>,
    pub(crate) pure_values: Vec<(String, u64)>,
}

impl BrowserInternal {
    /// The last id handed out; the next one is one above it.
    pub closed spec fn last_id(&self) -> u64 {
        self.last_id
    }

    /// The commands emitted and not yet taken by the outgoing stream.
    pub closed spec fn commands(&self) -> Seq<char> {
        self.commands_buf@
    }

    pub closed spec fn error_state(&self) -> ErrorState {
        self.dead
    }

    /// Pending completions: correlation id to (last payload, number of payloads).
    pub closed spec fn retrievals(&self) -> Map<u64, (Seq<char>, nat)> {
        table_entries(self.retrievals)
    }

    /// Import name to the slot that holds it.
    pub closed spec fn imports(&self) -> Seq<(String, u64)> {
        self.imports@
    }

    /// Code text to the slot that holds its cached value.
    pub closed spec fn pure_values(&self) -> Seq<(String, u64)> {
        self.pure_values@
    }

    /// Channel name to its queue.
    pub closed spec fn channels(&self) -> Seq<(String, RpcCell)> {
        self.rpc_state@
    }

    pub open spec fn is_dead(&self) -> bool {
        !(self.error_state() is NoError)
    }

    /// The payloads queued on channel `name`, if it is open.
    pub open spec fn queue_of(&self, name: Seq<char>) -> Option<Seq<String>> {
        match lookup(self.channels(), name) {
            Some(c) => Some(c.queue@),
            None => None,
        }
    }

    /// Room for `n` more ids.
    pub open spec fn has_room(&self, n: nat) -> bool {
        self.last_id() + n <= u64::MAX
    }

    /// Everything but the buffer, the id counter and the waker is as in `old`.
    pub open spec fn same_tables(&self, old: &Self) -> bool {
        &&& self.error_state() == old.error_state()
        &&& self.retrievals() == old.retrievals()
        &&& self.imports() == old.imports()
        &&& self.pure_values() == old.pure_values()
        &&& self.channels() == old.channels()
    }

    /// `self` is `old` with `text` appended to the buffer, and nothing else
    /// changed.
    pub open spec fn emitted(&self, old: &Self, text: Seq<char>) -> bool {
        &&& self.commands() == old.commands() + text
        &&& self.last_id() == old.last_id()
        &&& self.same_tables(old)
    }

    /// A connection with nothing emitted, nothing pending and no error.
    pub fn new() -> (r: BrowserInternal)
        ensures
            r.last_id() == 1,
            r.commands() == Seq::<char>::empty(),
            r.error_state() is NoError,
            r.retrievals().dom() == Set::<u64>::empty(),
            r.imports().len() == 0,
            r.pure_values().len() == 0,
            r.channels().len() == 0,
    {
        BrowserInternal {
            retrievals: RetrievalTable::new(),
            last_id: 1,
            commands_buf: String::new(),
            outgoing_waker: None,
            dead: ErrorState::NoError,
            imports: Vec::new(),
            rpc_state: Vec::new(),
            pure_values: Vec::new(),
        }
    }

    /// The last id handed out.
    pub fn current_id(&self) -> (r: u64)
        ensures
            r == self.last_id(),
    {
        self.last_id
    }

    /// Hands out a fresh id: one above the last.
    pub fn get_new_id(&mut self) -> (r: u64)
        requires
            old(self).has_room(1),
        ensures
            r == old(self).last_id() + 1,
            final(self).last_id() == r,
            final(self).commands() == old(self).commands(),
            final(self).same_tables(old(self)),
    {
        self.last_id = self.last_id + 1;
        self.last_id
    }

    /// Sets the error flag, unless an error was set before.
    pub fn kill(&mut self, err: Error)
        ensures
            kill_post(*old(self), *final(self), err),
    {
        match self.dead {
            ErrorState::NoError => {
                self.dead = ErrorState::Error(err);
            },
            _ => {},
        }
    }

    /// Hands out the error once; later calls see none, though the
    /// connection stays dead.
    pub fn take_error(&mut self) -> (r: Option<Error>)
        ensures
            take_error_post(*old(self), *final(self), r),
    {
        let mut st = ErrorState::ErrorTaken;
        core::mem::swap(&mut st, &mut self.dead);
        match st {
            ErrorState::NoError => {
                self.dead = ErrorState::NoError;
                None
            },
            ErrorState::Error(e) => Some(e),
            ErrorState::ErrorTaken => None,
        }
    }

    pub(crate) fn wake_outgoing(&self) {
        match &self.outgoing_waker {
            Some(w) => w.wake_by_ref(),
            None => {},
        }
    }

    /// Appends `s` to the command buffer.
    pub(crate) fn put(&mut self, s: &str)
        ensures
            final(self).emitted(old(self), s@),
    {
        self.commands_buf.append(s);
    }

    /// Appends `GET(id)` to the command buffer.
    pub(crate) fn put_get(&mut self, id: u64)
        ensures
            final(self).emitted(old(self), crate::protocol::get_of(id)),
    {
        crate::value::write_get(&mut self.commands_buf, id);
    }

    /// Appends the code of `v` to the command buffer.
    pub(crate) fn put_code<T: UseInJsCode>(&mut self, v: &T)
        ensures
            final(self).emitted(old(self), v.js_code()),
    {
        v.serialize_to(&mut self.commands_buf);
    }

    /// Appends the decimal text of `id` to the command buffer.
    pub(crate) fn put_id(&mut self, id: u64)
        ensures
            final(self).emitted(old(self), crate::protocol::id_text(id)),
    {
        crate::text::push_decimal(&mut self.commands_buf, id);
    }

    /// The slot cached under `name` in `entries`.
    pub(crate) fn find_cached(entries: &Vec<(String, u64)>, name: &str) -> (r: Option<u64>)
        ensures
            r == lookup(entries@, name@),
    {
        let key = name.to_owned();
        let n = entries.len();
        let mut i: usize = 0;
        assert(entries@.subrange(0, n as int) =~= entries@);
        while i < n
            invariant
                i <= n,
                n == entries@.len(),
                lookup(entries@, name@) == lookup(entries@.subrange(i as int, n as int), name@),
                key@ == name@,
            decreases n - i,
        {
            let entry = &entries[i];
            if entry.0.eq(&key) {
                assert(entries@.subrange(i as int, n as int)[0] == entries@[i as int]);
                return Some(entry.1);
            }
            proof {
                lemma_lookup_skip(entries@, i as int, name@);
            }
            i = i + 1;
        }
        None
    }

    /// The slot that holds the import `name`, if it was resolved before.
    pub fn cached_import(&self, name: &str) -> (r: Option<u64>)
        ensures
            r == lookup(self.imports(), name@),
    {
        Self::find_cached(&self.imports, name)
    }

    /// The slot that holds the cached value of `code`, if any.
    pub fn cached_pure_value(&self, code: &str) -> (r: Option<u64>)
        ensures
            r == lookup(self.pure_values(), code@),
    {
        Self::find_cached(&self.pure_values, code)
    }

    /// Caches slot `id` as the import `name`.
    pub(crate) fn add_import(&mut self, name: &str, id: u64)
        ensures
            forall|k: Seq<char>| #![trigger lookup(final(self).imports(), k)]
                lookup(final(self).imports(), k) == (if lookup(old(self).imports(), k) is Some {
                    lookup(old(self).imports(), k)
                } else if k == name@ {
                    Some(id)
                } else {
                    None
                }),
            final(self).imports().len() == old(self).imports().len() + 1,
            final(self).commands() == old(self).commands(),
            final(self).last_id() == old(self).last_id(),
            final(self).error_state() == old(self).error_state(),
            final(self).retrievals() == old(self).retrievals(),
            final(self).pure_values() == old(self).pure_values(),
            final(self).channels() == old(self).channels(),
    {
        let e = (name.to_owned(), id);
        self.imports.push(e);
        proof {
            assert forall|k: Seq<char>| #![trigger lookup(self.imports(), k)]
                lookup(self.imports(), k) == (if lookup(old(self).imports(), k) is Some {
                    lookup(old(self).imports(), k)
                } else if k == name@ {
                    Some(id)
                } else {
                    None
                }) by {
                lemma_lookup_push(old(self).imports@, e, k);
            }
        }
    }

    /// Caches slot `id` as the value of `code`.
    pub(crate) fn add_pure_value(&mut self, code: &str, id: u64)
        ensures
            forall|k: Seq<char>| #![trigger lookup(final(self).pure_values(), k)]
                lookup(final(self).pure_values(), k) == (if lookup(old(self).pure_values(), k) is Some {
                    lookup(old(self).pure_values(), k)
                } else if k == code@ {
                    Some(id)
                } else {
                    None
                }),
            final(self).commands() == old(self).commands(),
            final(self).last_id() == old(self).last_id(),
            final(self).error_state() == old(self).error_state(),
            final(self).retrievals() == old(self).retrievals(),
            final(self).imports() == old(self).imports(),
            final(self).channels() == old(self).channels(),
    {
        let e = (code.to_owned(), id);
        self.pure_values.push(e);
        proof {
            assert forall|k: Seq<char>| #![trigger lookup(self.pure_values(), k)]
                lookup(self.pure_values(), k) == (if lookup(old(self).pure_values(), k) is Some {
                    lookup(old(self).pure_values(), k)
                } else if k == code@ {
                    Some(id)
                } else {
                    None
                }) by {
                lemma_lookup_push(old(self).pure_values@, e, k);
            }
        }
    }

    /// Registers a pending completion for `id` with nothing received yet.
    pub(crate) fn register(&mut self, id: u64, waker: &Waker)
        ensures
            final(self).retrievals() == old(self).retrievals().insert(id, (Seq::empty(), 0)),
            final(self).commands() == old(self).commands(),
            final(self).last_id() == old(self).last_id(),
            final(self).error_state() == old(self).error_state(),
            final(self).imports() == old(self).imports(),
            final(self).pure_values() == old(self).pure_values(),
            final(self).channels() == old(self).channels(),
    {
        let st = RetrievalState { waker: waker.clone(), last_value: String::new(), times: 0 };
        self.retrievals.insert(id, st);
        assert(st.entry() =~= (Seq::<char>::empty(), 0nat));
    }

    /// For a pending completion `id`: its payload once one has arrived,
    /// taking the entry out; otherwise nothing, with `waker` recorded.
    pub(crate) fn harvest(&mut self, id: u64, waker: &Waker) -> (r: Option<String>)
        ensures
            !old(self).retrievals().contains_key(id) ==> r is None && final(self).retrievals()
                == old(self).retrievals(),
            old(self).retrievals().contains_key(id) && old(self).retrievals()[id].1 == 0 ==> r is None
                && final(self).retrievals() == old(self).retrievals(),
            old(self).retrievals().contains_key(id) && old(self).retrievals()[id].1 > 0 ==> r is Some
                && r->0@ == old(self).retrievals()[id].0 && final(self).retrievals() == old(
                self,
            ).retrievals().remove(id),
            final(self).commands() == old(self).commands(),
            final(self).last_id() == old(self).last_id(),
            final(self).error_state() == old(self).error_state(),
            final(self).imports() == old(self).imports(),
            final(self).pure_values() == old(self).pure_values(),
            final(self).channels() == old(self).channels(),
    {
        match self.retrievals.remove(id) {
            None => None,
            Some(mut st) => {
                if st.times == 0 {
                    st.waker = waker.clone();
                    self.retrievals.insert(id, st);
                    assert(table_entries(self.retrievals) =~= table_entries(old(self).retrievals));
                    None
                } else {
                    Some(st.last_value)
                }
            },
        }
    }

    /// Forgets the pending completion `id`, if any.
    pub(crate) fn unregister(&mut self, id: u64)
        ensures
            final(self).retrievals() == old(self).retrievals().remove(id),
            final(self).commands() == old(self).commands(),
            final(self).last_id() == old(self).last_id(),
            final(self).error_state() == old(self).error_state(),
            final(self).imports() == old(self).imports(),
            final(self).pure_values() == old(self).pure_values(),
            final(self).channels() == old(self).channels(),
    {
        let _ = self.retrievals.remove(id);
    }

    /// Opens channel `name`, unless it is open already.
    pub(crate) fn open_channel(&mut self, name: &str)
        ensures
            final(self).queue_of(name@) == (if old(self).queue_of(name@) is Some {
                old(self).queue_of(name@)
            } else {
                Some(Seq::<String>::empty())
            }),
            forall|k: Seq<char>|
                k != name@ ==> #[trigger] final(self).queue_of(k) == old(self).queue_of(k),
            final(self).commands() == old(self).commands(),
            final(self).last_id() == old(self).last_id(),
            final(self).error_state() == old(self).error_state(),
            final(self).retrievals() == old(self).retrievals(),
            final(self).imports() == old(self).imports(),
            final(self).pure_values() == old(self).pure_values(),
    {
        match self.find_channel(name) {
            Some(_) => {},
            None => {
                let cell = RpcCell { waker: noop_waker(), queue: VecDeque::new() };
                let e = (name.to_owned(), cell);
                self.rpc_state.push(e);
                proof {
                    assert forall|k: Seq<char>| #![trigger self.queue_of(k)]
                        k != name@ implies self.queue_of(k) == old(self).queue_of(k) by {
                        lemma_lookup_push(old(self).rpc_state@, e, k);
                    }
                    lemma_lookup_push(old(self).rpc_state@, e, name@);
                    assert(cell.queue@ =~= Seq::<String>::empty());
                }
            },
        }
    }

    /// Takes the first payload queued on channel `name`; when there is none,
    /// records `waker` as the channel's reader.
    pub(crate) fn pop_queue(&mut self, name: &str, waker: &Waker) -> (r: Option<String>)
        ensures
            match old(self).queue_of(name@) {
                None => r is None && final(self).queue_of(name@) is None,
                Some(q) => if q.len() == 0 {
                    r is None && final(self).queue_of(name@) == Some(q)
                } else {
                    r == Some(q[0]) && final(self).queue_of(name@) == Some(q.drop_first())
                },
            },
            forall|k: Seq<char>|
                k != name@ ==> #[trigger] final(self).queue_of(k) == old(self).queue_of(k),
            final(self).channels().len() == old(self).channels().len(),
            final(self).commands() == old(self).commands(),
            final(self).last_id() == old(self).last_id(),
            final(self).error_state() == old(self).error_state(),
            final(self).retrievals() == old(self).retrievals(),
            final(self).imports() == old(self).imports(),
            final(self).pure_values() == old(self).pure_values(),
    {
        match self.find_channel(name) {
            None => None,
            Some(i) => {
                let (key, mut cell) = self.rpc_state.remove(i);
                let r = cell.queue.pop_front();
                if r.is_none() {
                    cell.waker = waker.clone();
                }
                self.rpc_state.insert(i, (key, cell));
                proof {
                    let o = old(self).rpc_state@;
                    assert(self.rpc_state@ =~= o.update(i as int, (o[i as int].0, cell)));
                    assert forall|k: Seq<char>| #![trigger self.queue_of(k)]
                        k != name@ implies self.queue_of(k) == old(self).queue_of(k) by {
                        lemma_lookup_update(o, i as int, cell, k);
                    }
                    lemma_lookup_update(o, i as int, cell, name@);
                    if o[i as int].1.queue@.len() > 0 {
                        assert(cell.queue@ =~= o[i as int].1.queue@.drop_first());
                    } else {
                        assert(cell.queue@ =~= o[i as int].1.queue@);
                    }
                }
                r
            },
        }
    }

    /// Finds the channel `name` in the channel list.
    pub(crate) fn find_channel(&self, name: &str) -> (r: Option<usize>)
        ensures
            match r {
                Some(i) => i < self.channels().len() && self.channels()[i as int].0@ == name@
                    && lookup(self.channels(), name@) == Some(self.channels()[i as int].1)
                    && forall|j: int| 0 <= j < i ==> self.channels()[j].0@ != name@,
                None => lookup(self.channels(), name@) is None,
            },
    {
        let key = name.to_owned();
        let n = self.rpc_state.len();
        let mut i: usize = 0;
        assert(self.rpc_state@.subrange(0, n as int) =~= self.rpc_state@);
        while i < n
            invariant
                i <= n,
                n == self.rpc_state@.len(),
                lookup(self.rpc_state@, name@) == lookup(
                    self.rpc_state@.subrange(i as int, n as int),
                    name@,
                ),
                forall|j: int| 0 <= j < i ==> self.rpc_state@[j].0@ != name@,
                key@ == name@,
            decreases n - i,
        {
            let entry = &self.rpc_state[i];
            let same = entry.0.eq(&key);
            assert(same == (entry.0@ == key@));
            if same {
                assert(self.rpc_state@.subrange(i as int, n as int)[0] == self.rpc_state@[i as int]);
                return Some(i);
            }
            proof {
                lemma_lookup_skip(self.rpc_state@, i as int, name@);
            }
            i = i + 1;
        }
        assert(self.rpc_state@.subrange(n as int, n as int).len() == 0);
        None
    }

    /// Routes one frame from the client: a completion signal goes to its
    /// pending completion and wakes it; an RPC call is queued on its channel
    /// and wakes the channel's reader. Frames for ids or channels that nobody
    /// waits on, and frames of any other shape, are dropped.
    pub fn receive(&mut self, message: String)
        ensures
            receive_post(*old(self), *final(self), message@),
    {
        let m = message.as_str();
        let n = m.unicode_len();
        if n == 0 {
            return ;
        }
        let tag = m.get_char(0);
        let rest = m.substring_char(1, n);
        assert(rest@ =~= message@.drop_first());
        if tag == 'p' {
            match split_first_exec(rest, ':') {
                Some((a, b)) => match parse_u64(a) {
                    Some(id) => match self.retrievals.remove(id) {
                        Some(mut st) => {
                            if st.times < usize::MAX {
                                st.times = st.times + 1;
                            }
                            st.last_value = b.to_owned();
                            st.waker.wake_by_ref();
                            self.retrievals.insert(id, st);
                            assert(table_entries(self.retrievals) =~= table_entries(
                                old(self).retrievals,
                            ).insert(id, (b@, bump(old(self).retrievals()[id].1))));
                        },
                        None => {
                            assert(table_entries(self.retrievals) =~= table_entries(
                                old(self).retrievals,
                            ));
                        },
                    },
                    None => {},
                },
                None => {},
            }
        } else if tag == 'r' {
            match split_first_exec(rest, ':') {
                Some((a, b)) => match self.find_channel(a) {
                    Some(i) => {
                        let (key, mut cell) = self.rpc_state.remove(i);
                        cell.queue.push_back(b.to_owned());
                        cell.waker.wake_by_ref();
                        self.rpc_state.insert(i, (key, cell));
                        proof {
                            let o = old(self).rpc_state@;
                            assert(self.rpc_state@ =~= o.update(i as int, (o[i as int].0, cell)));
                            assert forall|k: Seq<char>| #![trigger self.queue_of(k)]
                                self.queue_of(k) == if k == a@ && old(self).queue_of(k) is Some {
                                    Some(old(self).queue_of(k)->0.push(self.queue_of(k)->0.last()))
                                } else {
                                    old(self).queue_of(k)
                                } by {
                                lemma_lookup_update(o, i as int, cell, k);
                                if k == a@ {
                                    assert(cell.queue@ =~= o[i as int].1.queue@.push(cell.queue@.last()));
                                }
                            }
                            lemma_lookup_update(o, i as int, cell, a@);
                        }
                    },
                    None => {},
                },
                None => {},
            }
        }
    }

    /// The buffer that commands are written to.
    pub fn raw_commands_buf(&mut self) -> (r: &mut String)
        ensures
            r@ == old(self).commands(),
            final(self).commands() == final(r)@,
            final(self).last_id() == old(self).last_id(),
            final(self).same_tables(old(self)),
    {
        &mut self.commands_buf
    }

    /// One poll of the outgoing stream: the whole buffer as one frame, or
    /// `Pending` with `waker` recorded, or `Finished` once the connection is
    /// dead.
    pub fn poll_outgoing(&mut self, waker: &Waker) -> (r: PollFrame)
        ensures
            old(self).is_dead() ==> r is Finished && final(self).commands() == old(
                self,
            ).commands(),
            !old(self).is_dead() && old(self).commands().len() > 0 ==> (match r {
                PollFrame::Ready(f) => f@ == old(self).commands(),
                _ => false,
            }) && final(self).commands() == Seq::<char>::empty(),
            !old(self).is_dead() && old(self).commands().len() == 0 ==> r is Pending
                && final(self).commands() == old(self).commands(),
            final(self).last_id() == old(self).last_id(),
            final(self).same_tables(old(self)),
    {
        match self.dead {
            ErrorState::NoError => {},
            _ => {
                return PollFrame::Finished;
            },
        }
        self.outgoing_waker = Some(waker.clone());
        if self.commands_buf.as_str().is_empty() {
            PollFrame::Pending
        } else {
            let mut frame = String::new();
            core::mem::swap(&mut frame, &mut self.commands_buf);
            PollFrame::Ready(frame)
        }
    }
}

} // verus!
