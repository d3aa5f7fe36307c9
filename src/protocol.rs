//! Names of the functions that the client interpreter binds, used inside
//! emitted code.
use crate::text::dec;
use vstd::prelude::*;

verus! {

/// `GET(id)` returns the value at slot `id`.
pub const GET: &'static str = "_w.g";

/// `DEL(id)` frees slot `id`.
pub const DEL: &'static str = "_w.d";

/// `SET(id, value)` binds slot `id` to `value`.
pub const SET: &'static str = "_w.s";

/// `REP(id, value)` sends `value` back as a completion signal for `id`.
pub const REP: &'static str = "_w.r";

/// `ERR(id, value)` binds slot `id` to a captured exception.
pub const ERR: &'static str = "_w.e";

/// `CATCH(id)` wraps the value or exception of slot `id` for retrieval.
pub const CATCH: &'static str = "_w.c";

/// `IMPORT` is the table of imports, keyed by content hash.
pub const IMPORT: &'static str = "_w.x";

/// `REPLY(id, value)` answers the RPC call `id`.
pub const REPLY: &'static str = "_w.rp";

/// `ALLOC(value)` allocates a slot on the client side.
pub const ALLOC: &'static str = "_w.a";

/// The decimal text of an id.
pub open spec fn id_text(id: u64) -> Seq<char> {
    dec(id as nat)
}

/// `GET(id)`: the expression that reads slot `id`.
pub open spec fn get_of(id: u64) -> Seq<char> {
    GET@ + "("@ + id_text(id) + ")"@
}

/// The text before the expression in `set_try`.
pub open spec fn set_open(id: u64) -> Seq<char> {
    "try{"@ + SET@ + "("@ + id_text(id) + ","@
}

/// The text after the expression in `set_try`.
pub open spec fn set_close(id: u64) -> Seq<char> {
    ")}catch($){"@ + ERR@ + "("@ + id_text(id) + ",$)};\n"@
}

/// Binds slot `id` to `expr`, or to the exception that `expr` throws.
pub open spec fn set_try(id: u64, expr: Seq<char>) -> Seq<char> {
    set_open(id) + expr + set_close(id)
}

/// Frees slot `id`.
pub open spec fn del_cmd(id: u64) -> Seq<char> {
    DEL@ + "("@ + id_text(id) + ");\n"@
}

/// Binds slot `new_id` to a copy of what slot `old_id` holds.
pub open spec fn copy_cmd(new_id: u64, old_id: u64) -> Seq<char> {
    SET@ + "("@ + id_text(new_id) + ","@ + get_of(old_id) + ");\n"@
}

} // verus!
