//! The table of pending completions, keyed by correlation id.
use core::task::Waker;
use vstd::prelude::*;

verus! {

/// One pending completion: who waits for it, the last payload that arrived
/// and how many payloads arrived.
pub struct RetrievalState {
    pub waker: Waker,
    pub last_value: String,
    pub times: usize,
}

impl RetrievalState {
    pub open spec fn entry(&self) -> (Seq<char>, nat) {
        (self.last_value@, self.times as nat)
    }
}

/// hashbrown's map from correlation id to pending completion. Its declaration
/// cannot be given to Verus (the allocator bound is private to hashbrown), so
/// it is held here behind the wrappers below.
#[verifier::external_body]
pub struct RetrievalTable {
    map: hashbrown::HashMap<u64, RetrievalState>,
}

/// What the table holds: for each id, its payload and its count.
pub uninterp spec fn table_entries(t: RetrievalTable) -> Map<u64, (Seq<char>, nat)>;

impl RetrievalTable {
    /// Relies on `hashbrown::HashMap::new`: an empty map.
    #[verifier::external_body]
    pub(crate) fn new() -> (r: RetrievalTable)
        ensures
            table_entries(r).dom() == Set::<u64>::empty(),
    {
        RetrievalTable { map: hashbrown::HashMap::new() }
    }

    /// Relies on `hashbrown::HashMap::insert`: the key now maps to the value,
    /// replacing any earlier one.
    #[verifier::external_body]
    pub(crate) fn insert(&mut self, id: u64, s: RetrievalState)
        ensures
            table_entries(*final(self)) == table_entries(*old(self)).insert(id, s.entry()),
    {
        self.map.insert(id, s);
    }

    /// Relies on `hashbrown::HashMap::remove`: takes the key's value out, if any.
    #[verifier::external_body]
    pub(crate) fn remove(&mut self, id: u64) -> (r: Option<RetrievalState>)
        ensures
            table_entries(*final(self)) == table_entries(*old(self)).remove(id),
            r is Some <==> table_entries(*old(self)).contains_key(id),
            r is Some ==> r->0.entry() == table_entries(*old(self))[id],
    {
        self.map.remove(&id)
    }
}

} // verus!
