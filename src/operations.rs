//! Commands that create, read, write, copy and free slots.
use crate::digest::{import_key, import_key_of};
use crate::link::{lookup, BrowserInternal};
use crate::protocol::{
    copy_cmd, del_cmd, get_of, id_text, set_close, set_open, set_try, DEL, ERR, IMPORT, SET,
};
use crate::serialize::UseInJsCode;
use crate::value::{write_get, JsObject, JsValue};
use vstd::prelude::*;

verus! {

/// Each argument followed by a comma.
pub open spec fn args_plain(args: Seq<String>) -> Seq<char>
    decreases args.len(),
{
    if args.len() == 0 {
        Seq::empty()
    } else {
        args_plain(args.drop_last()) + args.last()@ + ","@
    }
}

/// The argument list; with `variadic`, the last argument is spread.
pub open spec fn args_text(args: Seq<String>, variadic: bool) -> Seq<char> {
    if variadic && args.len() > 0 {
        args_plain(args.drop_last()) + "..."@ + args.last()@ + ","@
    } else {
        args_plain(args)
    }
}

/// `function(args...)`.
pub open spec fn call_expr(function: Seq<char>, args: Seq<String>, variadic: bool) -> Seq<char> {
    function + "("@ + args_text(args, variadic) + ")"@
}

/// `(base)[property]`.
pub open spec fn field_expr(base: Seq<char>, property: Seq<char>) -> Seq<char> {
    "("@ + base + ")["@ + property + "]"@
}

/// The statement `(base)[property]=value;`.
pub open spec fn set_field_cmd(base: Seq<char>, property: Seq<char>, value: Seq<char>) -> Seq<
    char,
> {
    "("@ + base + ")["@ + property + "]="@ + value + ";\n"@
}

/// The statement `GET(id)[property]=value;`.
pub open spec fn set_own_field_cmd(id: u64, property: Seq<char>, value: Seq<char>) -> Seq<char> {
    get_of(id) + "["@ + property + "]="@ + value + ";\n"@
}

/// A raw statement block.
pub open spec fn raw_cmd(code: Seq<char>) -> Seq<char> {
    "{ "@ + code + " }\n"@
}

/// `IMPORT._<key>`.
pub open spec fn import_expr(name: Seq<char>) -> Seq<char> {
    IMPORT@ + "._"@ + import_key(name)
}

/// The state after `import(name)` returned the slot `r`.
pub open spec fn import_post(old: BrowserInternal, new: BrowserInternal, name: Seq<char>, r: u64) -> bool {
    &&& match lookup(old.imports(), name) {
        Some(c) => {
            &&& r == c
            &&& new.emitted(&old, Seq::empty())
            &&& new.imports() == old.imports()
        },
        None => {
            &&& r == old.last_id() + 1
            &&& new.last_id() == r
            &&& new.commands() == old.commands() + set_try(
                r,
                import_expr(name),
            )
            &&& lookup(new.imports(), name) == Some(r)
            &&& forall|k: Seq<char>|
                k != name ==> #[trigger] lookup(new.imports(), k) == lookup(
                    old.imports(),
                    k,
                )
            &&& new.error_state() == old.error_state()
            &&& new.retrievals() == old.retrievals()
            &&& new.pure_values() == old.pure_values()
            &&& new.channels() == old.channels()
        }
    }
}

impl BrowserInternal {
    fn put_set_open(&mut self, id: u64)
        ensures
            final(self).emitted(old(self), set_open(id)),
    {
        self.put("try{");
        self.put(SET);
        self.put("(");
        self.put_id(id);
        self.put(",");
        assert(self.commands() =~= old(self).commands() + set_open(id));
    }

    fn put_set_close(&mut self, id: u64)
        ensures
            final(self).emitted(old(self), set_close(id)),
    {
        self.put(")}catch($){");
        self.put(ERR);
        self.put("(");
        self.put_id(id);
        self.put(",$)};\n");
        assert(self.commands() =~= old(self).commands() + set_close(id));
    }

    fn put_args(&mut self, args: &Vec<String>, variadic: bool)
        ensures
            final(self).emitted(old(self), args_text(args@, variadic)),
    {
        let n = args.len();
        let mut i: usize = 0;
        assert(args_plain(args@.subrange(0, 0)) =~= Seq::<char>::empty());
        assert(self.commands() =~= old(self).commands() + Seq::<char>::empty());
        while i < n
            invariant
                i <= n,
                n == args@.len(),
                self.emitted(
                    old(self),
                    if variadic && i == n && n > 0 {
                        args_text(args@, variadic)
                    } else {
                        args_plain(args@.subrange(0, i as int))
                    },
                ),
            decreases n - i,
        {
            let ghost before = self.commands();
            if variadic && i + 1 == n {
                self.put("...");
            }
            self.put(args[i].as_str());
            self.put(",");
            proof {
                let sub = args@.subrange(0, i as int + 1);
                assert(sub.drop_last() =~= args@.subrange(0, i as int));
                assert(sub.last() == args@[i as int]);
                if variadic && i + 1 == n {
                    assert(args@.drop_last() =~= args@.subrange(0, i as int));
                    assert(self.commands() =~= old(self).commands() + args_text(args@, variadic));
                } else {
                    assert(self.commands() =~= old(self).commands() + args_plain(sub));
                }
            }
            i = i + 1;
        }
        if !(variadic && n > 0) {
            assert(args@.subrange(0, n as int) =~= args@);
        }
    }

    /// Emits `SET(id, function(args...))` into a fresh slot, with an
    /// exception captured as the slot's value.
    pub(crate) fn call_function_inner(&mut self, function: &str, args: &Vec<String>, variadic: bool) -> (r: JsValue)
        requires
            old(self).has_room(1),
        ensures
            r.slot() == old(self).last_id() + 1,
            final(self).last_id() == r.slot(),
            final(self).commands() == old(self).commands() + set_try(
                r.slot(),
                call_expr(function@, args@, variadic),
            ),
            final(self).same_tables(old(self)),
    {
        let out_id = self.get_new_id();
        self.put_set_open(out_id);
        self.put(function);
        self.put("(");
        self.put_args(args, variadic);
        self.put(")");
        self.put_set_close(out_id);
        self.wake_outgoing();
        assert(self.commands() =~= old(self).commands() + set_try(
            out_id,
            call_expr(function@, args@, variadic),
        ));
        JsValue::from_slot(out_id)
    }

    /// Calls the function `function_name` with arguments given as code; the
    /// result goes into a fresh slot. The name is not escaped.
    pub fn call_function(&mut self, function_name: &str, args: &Vec<String>, last_arg_variadic: bool) -> (r: JsValue)
        requires
            old(self).has_room(1),
        ensures
            r.slot() == old(self).last_id() + 1,
            final(self).last_id() == r.slot(),
            final(self).commands() == old(self).commands() + set_try(
                r.slot(),
                call_expr(function_name@, args@, last_arg_variadic),
            ),
            final(self).same_tables(old(self)),
    {
        self.call_function_inner(function_name, args, last_arg_variadic)
    }

    /// Calls the constructor of `class_name`; the new object goes into a
    /// fresh slot. The name is not escaped.
    pub fn call_constructor(&mut self, class_name: &str, args: &Vec<String>, last_arg_variadic: bool) -> (r: JsValue)
        requires
            old(self).has_room(1),
        ensures
            r.slot() == old(self).last_id() + 1,
            final(self).last_id() == r.slot(),
            final(self).commands() == old(self).commands() + set_try(
                r.slot(),
                call_expr("new "@ + class_name@, args@, last_arg_variadic),
            ),
            final(self).same_tables(old(self)),
    {
        let f = "new ".to_owned().concat(class_name);
        self.call_function_inner(f.as_str(), args, last_arg_variadic)
    }

    /// Reads `base_obj[property]` into a fresh slot.
    pub fn get_field<B: UseInJsCode, P: UseInJsCode>(&mut self, base_obj: &B, property: &P) -> (r: JsValue)
        requires
            old(self).has_room(1),
        ensures
            r.slot() == old(self).last_id() + 1,
            final(self).last_id() == r.slot(),
            final(self).commands() == old(self).commands() + set_try(
                r.slot(),
                field_expr(base_obj.js_code(), property.js_code()),
            ),
            final(self).same_tables(old(self)),
    {
        let out_id = self.get_new_id();
        self.put_set_open(out_id);
        self.put("(");
        self.put_code(base_obj);
        self.put(")[");
        self.put_code(property);
        self.put("]");
        self.put_set_close(out_id);
        self.wake_outgoing();
        assert(self.commands() =~= old(self).commands() + set_try(
            out_id,
            field_expr(base_obj.js_code(), property.js_code()),
        ));
        JsValue::from_slot(out_id)
    }

    /// Runs `base_obj[property]=value;`.
    pub fn set_field<B: UseInJsCode, P: UseInJsCode, V: UseInJsCode>(
        &mut self,
        base_obj: &B,
        property: &P,
        value: &V,
    )
        ensures
            final(self).emitted(
                old(self),
                set_field_cmd(base_obj.js_code(), property.js_code(), value.js_code()),
            ),
    {
        self.put("(");
        self.put_code(base_obj);
        self.put(")[");
        self.put_code(property);
        self.put("]=");
        self.put_code(value);
        self.put(";\n");
        self.wake_outgoing();
        assert(self.commands() =~= old(self).commands() + set_field_cmd(
            base_obj.js_code(),
            property.js_code(),
            value.js_code(),
        ));
    }

    /// Creates a value on the client from a value that has code.
    pub fn new_value<T: UseInJsCode>(&mut self, value: &T) -> (r: JsValue)
        requires
            old(self).has_room(1),
        ensures
            r.slot() == old(self).last_id() + 1,
            final(self).last_id() == r.slot(),
            final(self).commands() == old(self).commands() + set_try(r.slot(), value.js_code()),
            final(self).same_tables(old(self)),
    {
        let out_id = self.get_new_id();
        self.put_set_open(out_id);
        self.put_code(value);
        self.put_set_close(out_id);
        self.wake_outgoing();
        assert(self.commands() =~= old(self).commands() + set_try(out_id, value.js_code()));
        JsValue::from_slot(out_id)
    }

    /// Runs `code` as a statement block. The caller answers for its validity.
    pub fn run_raw_code(&mut self, code: &str)
        ensures
            final(self).emitted(old(self), raw_cmd(code@)),
    {
        self.put("{ ");
        self.put(code);
        self.put(" }\n");
        self.wake_outgoing();
        assert(self.commands() =~= old(self).commands() + raw_cmd(code@));
    }

    /// Evaluates the expression `code` into a fresh slot. The caller answers
    /// for its validity.
    pub fn value_from_raw_code(&mut self, code: &str) -> (r: JsValue)
        requires
            old(self).has_room(1),
        ensures
            r.slot() == old(self).last_id() + 1,
            final(self).last_id() == r.slot(),
            final(self).commands() == old(self).commands() + set_try(r.slot(), code@),
            final(self).same_tables(old(self)),
    {
        let out_id = self.get_new_id();
        self.put_set_open(out_id);
        self.put(code);
        self.put_set_close(out_id);
        self.wake_outgoing();
        assert(self.commands() =~= old(self).commands() + set_try(out_id, code@));
        JsValue::from_slot(out_id)
    }

    /// Copies slot `old_id` into a fresh slot.
    fn copy_slot(&mut self, old_id: u64) -> (r: u64)
        requires
            old(self).has_room(1),
        ensures
            r == old(self).last_id() + 1,
            final(self).last_id() == r,
            final(self).commands() == old(self).commands() + copy_cmd(r, old_id),
            final(self).same_tables(old(self)),
    {
        let out_id = self.get_new_id();
        self.put(SET);
        self.put("(");
        self.put_id(out_id);
        self.put(",");
        self.put_get(old_id);
        self.put(");\n");
        self.wake_outgoing();
        assert(self.commands() =~= old(self).commands() + copy_cmd(out_id, old_id));
        out_id
    }

    /// Evaluates the expression `code` once per distinct text. The first call
    /// evaluates it into the returned slot and caches a copy; every call
    /// after that returns a fresh copy of the cached slot.
    pub fn value_from_pure_raw_code(&mut self, code: &str) -> (r: JsValue)
        requires
            lookup(old(self).pure_values(), code@) is Some ==> old(self).has_room(1),
            lookup(old(self).pure_values(), code@) is None ==> old(self).has_room(2),
        ensures
            match lookup(old(self).pure_values(), code@) {
                Some(c) => {
                    &&& r.slot() == old(self).last_id() + 1
                    &&& final(self).last_id() == r.slot()
                    &&& final(self).commands() == old(self).commands() + copy_cmd(r.slot(), c)
                    &&& final(self).same_tables(old(self))
                },
                None => {
                    &&& r.slot() == old(self).last_id() + 1
                    &&& final(self).last_id() == r.slot() + 1
                    &&& final(self).commands() == old(self).commands() + set_try(r.slot(), code@)
                        + copy_cmd(final(self).last_id(), r.slot())
                    &&& lookup(final(self).pure_values(), code@) == Some(final(self).last_id())
                    &&& forall|k: Seq<char>|
                        k != code@ ==> #[trigger] lookup(final(self).pure_values(), k) == lookup(
                            old(self).pure_values(),
                            k,
                        )
                    &&& final(self).error_state() == old(self).error_state()
                    &&& final(self).retrievals() == old(self).retrievals()
                    &&& final(self).imports() == old(self).imports()
                    &&& final(self).channels() == old(self).channels()
                },
            },
    {
        match self.cached_pure_value(code) {
            Some(c) => {
                let id = self.copy_slot(c);
                JsValue::from_slot(id)
            },
            None => {
                let out = self.value_from_raw_code(code);
                let cached = self.copy_slot(out.id());
                self.add_pure_value(code, cached);
                assert(self.commands() =~= old(self).commands() + set_try(out.slot(), code@)
                    + copy_cmd(cached, out.slot()));
                out
            },
        }
    }

    /// The slot that holds the import `name`. The first request for a name
    /// emits one command that resolves it into a fresh slot, kept by the
    /// connection; later requests return that slot and emit nothing.
    pub fn import(&mut self, name: &str) -> (r: u64)
        requires
            lookup(old(self).imports(), name@) is None ==> old(self).has_room(1),
        ensures
            import_post(*old(self), *final(self), name@, r),
    {
        match self.cached_import(name) {
            Some(c) => {
                assert(self.commands() =~= old(self).commands() + Seq::<char>::empty());
                c
            },
            None => {
                let out_id = self.get_new_id();
                let key = import_key_of(name);
                self.put_set_open(out_id);
                self.put(IMPORT);
                self.put("._");
                self.put(key.as_str());
                self.put_set_close(out_id);
                self.wake_outgoing();
                self.add_import(name, out_id);
                assert(self.commands() =~= old(self).commands() + set_try(
                    out_id,
                    import_expr(name@),
                ));
                out_id
            },
        }
    }
}

impl JsValue {
    /// A new handle owning a new slot that holds a copy of this handle's
    /// value.
    pub fn duplicate(&self, browser: &mut BrowserInternal) -> (r: JsValue)
        requires
            old(browser).has_room(1),
        ensures
            r.slot() == old(browser).last_id() + 1,
            self.slot() <= old(browser).last_id() ==> r.slot() != self.slot(),
            final(browser).last_id() == r.slot(),
            final(browser).commands() == old(browser).commands() + copy_cmd(r.slot(), self.slot()),
            final(browser).same_tables(old(browser)),
    {
        let id = browser.copy_slot(self.id());
        JsValue::from_slot(id)
    }

    /// Gives up this handle and frees its slot.
    pub fn release(self, browser: &mut BrowserInternal)
        ensures
            final(browser).emitted(old(browser), del_cmd(self.slot())),
    {
        browser.put(DEL);
        browser.put("(");
        browser.put_id(self.id());
        browser.put(");\n");
        browser.wake_outgoing();
        assert(browser.commands() =~= old(browser).commands() + del_cmd(self.slot()));
    }
}

impl JsObject {
    /// Reads `this[property]` into a fresh slot.
    pub fn js_get_field<P: UseInJsCode>(&self, browser: &mut BrowserInternal, property: &P) -> (r: JsValue)
        requires
            old(browser).has_room(1),
        ensures
            r.slot() == old(browser).last_id() + 1,
            final(browser).last_id() == r.slot(),
            final(browser).commands() == old(browser).commands() + set_try(
                r.slot(),
                get_of(self.slot()) + "["@ + property.js_code() + "]"@,
            ),
            final(browser).same_tables(old(browser)),
    {
        let out_id = browser.get_new_id();
        browser.put_set_open(out_id);
        browser.put_get(self.as_value().id());
        browser.put("[");
        browser.put_code(property);
        browser.put("]");
        browser.put_set_close(out_id);
        browser.wake_outgoing();
        assert(browser.commands() =~= old(browser).commands() + set_try(
            out_id,
            get_of(self.slot()) + "["@ + property.js_code() + "]"@,
        ));
        JsValue::from_slot(out_id)
    }

    /// Runs `this[property]=value;`.
    pub fn js_set_field<P: UseInJsCode, V: UseInJsCode>(
        &self,
        browser: &mut BrowserInternal,
        property: &P,
        value: &V,
    )
        ensures
            final(browser).emitted(
                old(browser),
                set_own_field_cmd(self.slot(), property.js_code(), value.js_code()),
            ),
    {
        browser.put_get(self.as_value().id());
        browser.put("[");
        browser.put_code(property);
        browser.put("]=");
        browser.put_code(value);
        browser.put(";\n");
        browser.wake_outgoing();
        assert(browser.commands() =~= old(browser).commands() + set_own_field_cmd(
            self.slot(),
            property.js_code(),
            value.js_code(),
        ));
    }

    /// Calls the method `method_name` of this object. The name is not escaped.
    pub fn js_call_method(
        &self,
        browser: &mut BrowserInternal,
        method_name: &str,
        args: &Vec<String>,
        last_arg_variadic: bool,
    ) -> (r: JsValue)
        requires
            old(browser).has_room(1),
        ensures
            r.slot() == old(browser).last_id() + 1,
            final(browser).last_id() == r.slot(),
            final(browser).commands() == old(browser).commands() + set_try(
                r.slot(),
                call_expr(get_of(self.slot()) + "."@ + method_name@, args@, last_arg_variadic),
            ),
            final(browser).same_tables(old(browser)),
    {
        let mut f = String::new();
        write_get(&mut f, self.as_value().id());
        f.append(".");
        f.append(method_name);
        browser.call_function_inner(f.as_str(), args, last_arg_variadic)
    }

    /// Calls this object: `(this)(args...)`.
    pub fn js_call_self(&self, browser: &mut BrowserInternal, args: &Vec<String>, last_arg_variadic: bool) -> (r: JsValue)
        requires
            old(browser).has_room(1),
        ensures
            r.slot() == old(browser).last_id() + 1,
            final(browser).last_id() == r.slot(),
            final(browser).commands() == old(browser).commands() + set_try(
                r.slot(),
                call_expr("("@ + get_of(self.slot()) + ")"@, args@, last_arg_variadic),
            ),
            final(browser).same_tables(old(browser)),
    {
        let mut f = String::new();
        f.append("(");
        write_get(&mut f, self.as_value().id());
        f.append(")");
        browser.call_function_inner(f.as_str(), args, last_arg_variadic)
    }
}

} // verus!
