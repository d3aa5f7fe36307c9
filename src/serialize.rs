//! Values that can stand in emitted code.
use crate::link::Error;
use core::marker::PhantomData;
use vstd::prelude::*;

verus! {

/// A value that can be written as an expression of the client's language.
pub trait UseInJsCode {
    /// The expression text.
    spec fn js_code(&self) -> Seq<char>;

    /// Appends the expression text to `buf`.
    fn serialize_to(&self, buf: &mut String)
        ensures
            final(buf)@ == old(buf)@ + self.js_code(),
    ;
}

/// A value that can be written as code of the client type `JsType`.
pub trait ToJs<JsType>: UseInJsCode {

}

impl<T: UseInJsCode> ToJs<T> for T {

}

/// Code text written as it is: the caller answers for its validity.
pub struct RawCodeImmediate<'a>(pub &'a str);

impl<'a> UseInJsCode for RawCodeImmediate<'a> {
    open spec fn js_code(&self) -> Seq<char> {
        self.0@
    }

    fn serialize_to(&self, buf: &mut String) {
        buf.append(self.0);
    }
}

/// Data in the structured-data encoding, ready to stand in code as a literal.
pub struct SerdeToJs {
    json: String,
}

/// The JSON text of a value, which depends on the value alone.
pub uninterp spec fn json_of(v: serde_json::Value) -> Seq<char>;

/// Relies on `serde_json::to_string`: the JSON text of `v`, or its error.
#[verifier::external_body]
fn json_text(v: &serde_json::Value) -> (r: Result<String, serde_json::Error>)
    ensures
        r is Ok ==> r->Ok_0@ == json_of(*v),
{
    serde_json::to_string(v)
}

impl SerdeToJs {
    /// The JSON text that this value stands for.
    pub closed spec fn text(&self) -> Seq<char> {
        self.json@
    }

    /// Encodes `v`; an encoder error is a command serialization error.
    pub fn new(v: &serde_json::Value) -> (r: Result<SerdeToJs, Error>)
        ensures
            r is Ok ==> r->Ok_0.text() == json_of(*v),
            r is Err ==> r->Err_0 is CommandSerialize,
    {
        match json_text(v) {
            Ok(json) => Ok(SerdeToJs { json }),
            Err(e) => Err(Error::CommandSerialize(e)),
        }
    }
}

impl UseInJsCode for SerdeToJs {
    open spec fn js_code(&self) -> Seq<char> {
        self.text()
    }

    fn serialize_to(&self, buf: &mut String) {
        buf.append(self.json.as_str());
    }
}

/// The literal `null`.
pub struct NullImmediate;

impl UseInJsCode for NullImmediate {
    open spec fn js_code(&self) -> Seq<char> {
        "null"@
    }

    fn serialize_to(&self, buf: &mut String) {
        RawCodeImmediate("null").serialize_to(buf)
    }
}

/// The literal `undefined`.
pub struct UndefinedImmediate;

impl UseInJsCode for UndefinedImmediate {
    open spec fn js_code(&self) -> Seq<char> {
        "undefined"@
    }

    fn serialize_to(&self, buf: &mut String) {
        RawCodeImmediate("undefined").serialize_to(buf)
    }
}

/// The literal `null`.
pub fn null() -> (r: NullImmediate)
    ensures
        r.js_code() == "null"@,
{
    NullImmediate
}

/// The literal `undefined`.
pub fn undefined() -> (r: UndefinedImmediate)
    ensures
        r.js_code() == "undefined"@,
{
    UndefinedImmediate
}

/// An optional value: its own code when present, `null` when absent.
impl<'a, T: UseInJsCode> UseInJsCode for Option<&'a T> {
    open spec fn js_code(&self) -> Seq<char> {
        match self {
            Some(t) => t.js_code(),
            None => "null"@,
        }
    }

    fn serialize_to(&self, buf: &mut String) {
        match self {
            Some(t) => t.serialize_to(buf),
            None => NullImmediate.serialize_to(buf),
        }
    }
}

/// Each item's code followed by a comma.
pub open spec fn items_code<U: UseInJsCode>(items: Seq<&U>) -> Seq<char>
    decreases items.len(),
{
    if items.len() == 0 {
        Seq::empty()
    } else {
        items_code(items.drop_last()) + items.last().js_code() + ","@
    }
}

/// An array literal of the items' code.
impl<'a, U: UseInJsCode, const N: usize> UseInJsCode for [&'a U; N] {
    open spec fn js_code(&self) -> Seq<char> {
        "["@ + items_code(self@) + "]"@
    }

    fn serialize_to(&self, buf: &mut String) {
        buf.append("[");
        let mut i: usize = 0;
        assert(self@.subrange(0, 0) =~= Seq::<&'a U>::empty());
        assert(buf@ =~= old(buf)@ + "["@ + items_code(self@.subrange(0, 0)));
        while i < N
            invariant
                i <= N,
                N == self@.len(),
                buf@ == old(buf)@ + "["@ + items_code(self@.subrange(0, i as int)),
            decreases N - i,
        {
            let item: &U = self[i];
            item.serialize_to(buf);
            buf.append(",");
            proof {
                let sub = self@.subrange(0, i as int + 1);
                assert(sub.drop_last() =~= self@.subrange(0, i as int));
                assert(sub.last() == item);
                assert(buf@ =~= old(buf)@ + "["@ + items_code(sub));
            }
            i = i + 1;
        }
        buf.append("]");
        assert(self@.subrange(0, N as int) =~= self@);
        assert(buf@ =~= old(buf)@ + self.js_code());
    }
}

/// A value seen as code of the client type `JsType`.
pub struct UpcastWorkaround<'a, T, JsType> {
    ty: &'a T,
    _phantom: PhantomData<JsType>,
}

impl<'a, T: ToJs<JsType>, JsType> UpcastWorkaround<'a, T, JsType> {
    pub closed spec fn inner(&self) -> &'a T {
        self.ty
    }

    pub fn new(ty: &'a T) -> (r: Self)
        ensures
            r.inner() == ty,
    {
        UpcastWorkaround { ty, _phantom: PhantomData }
    }

    /// This value, to be used as code.
    pub fn cast(&self) -> (r: &Self)
        ensures
            r == self,
            r.js_code() == self.inner().js_code(),
    {
        self
    }
}

impl<'a, T: ToJs<JsType>, JsType> UseInJsCode for UpcastWorkaround<'a, T, JsType> {
    open spec fn js_code(&self) -> Seq<char> {
        self.inner().js_code()
    }

    fn serialize_to(&self, buf: &mut String) {
        self.ty.serialize_to(buf)
    }
}

} // verus!
