//! Handles to slots of the client interpreter's value table.
use crate::protocol::{get_of, GET};
use crate::serialize::UseInJsCode;
use crate::text::push_decimal;
use vstd::prelude::*;

verus! {

/// Appends `GET(id)` to `buf`.
pub(crate) fn write_get(buf: &mut String, id: u64)
    ensures
        final(buf)@ == old(buf)@ + get_of(id),
{
    buf.append(GET);
    buf.append("(");
    push_decimal(buf, id);
    buf.append(")");
    assert(final(buf)@ =~= old(buf)@ + get_of(id));
}

/// Ownership of one slot on the client. Each handle owns its own slot: a
/// duplicate is a new slot holding a copy, and releasing a handle frees its
/// slot.
pub struct JsValue {
    pub(crate) id: u64,
}

impl JsValue {
    /// The slot this handle owns.
    pub closed spec fn slot(&self) -> u64 {
        self.id
    }

    /// The handle of slot `id`.
    pub closed spec fn with_slot(id: u64) -> JsValue {
        JsValue { id }
    }

    /// The handle of slot `id` owns slot `id`.
    pub proof fn lemma_with_slot(id: u64)
        ensures
            JsValue::with_slot(id).slot() == id,
    {
    }

    pub(crate) fn from_slot(id: u64) -> (r: JsValue)
        ensures
            r.slot() == id,
            r == JsValue::with_slot(id),
    {
        JsValue { id }
    }

    pub fn id(&self) -> (r: u64)
        ensures
            r == self.slot(),
    {
        self.id
    }
}

impl UseInJsCode for JsValue {
    open spec fn js_code(&self) -> Seq<char> {
        get_of(self.slot())
    }

    fn serialize_to(&self, buf: &mut String) {
        write_get(buf, self.id)
    }
}

/// A handle to a slot that holds an object.
pub struct JsObject {
    pub(crate) value: JsValue,
}

impl JsObject {
    pub closed spec fn slot(&self) -> u64 {
        self.value.slot()
    }

    pub fn from_value(value: JsValue) -> (r: JsObject)
        ensures
            r.slot() == value.slot(),
    {
        JsObject { value }
    }

    pub fn into_value(self) -> (r: JsValue)
        ensures
            r.slot() == self.slot(),
    {
        self.value
    }

    pub fn as_value(&self) -> (r: &JsValue)
        ensures
            r.slot() == self.slot(),
    {
        &self.value
    }
}

impl UseInJsCode for JsObject {
    open spec fn js_code(&self) -> Seq<char> {
        get_of(self.slot())
    }

    fn serialize_to(&self, buf: &mut String) {
        write_get(buf, self.value.id)
    }
}

} // verus!
