use futures_util::task::noop_waker_ref;
use sha3::Digest;
use wsdom_core::awaiting::Await;
use wsdom_core::link::{BrowserInternal, Error, PollFrame};
use wsdom_core::retrieve::RetrievalOutcome;
use wsdom_core::rpc::Endpoint;
use wsdom_core::serialize::{null, undefined, RawCodeImmediate, SerdeToJs, UpcastWorkaround, UseInJsCode};
use wsdom_core::text::parse_u64;
use wsdom_core::value::{JsObject, JsValue};

fn take(b: &mut BrowserInternal) -> String {
    match b.poll_outgoing(noop_waker_ref()) {
        PollFrame::Ready(s) => s,
        PollFrame::Pending => String::new(),
        PollFrame::Finished => panic!("stream finished"),
    }
}

fn json_error() -> serde_json::Error {
    serde_json::from_str::<serde_json::Value>("{").unwrap_err()
}

fn other_json_error() -> serde_json::Error {
    serde_json::from_str::<serde_json::Value>("[1,").unwrap_err()
}

#[test]
fn ids_start_above_one_and_increase() {
    let mut b = BrowserInternal::new();
    let a = b.value_from_raw_code("1");
    let c = b.value_from_raw_code("2");
    let d = b.call_function("f", &vec![], false);
    assert_eq!(a.id(), 2);
    assert_eq!(c.id(), 3);
    assert_eq!(d.id(), 4);
}

#[test]
fn value_from_raw_code_text() {
    let mut b = BrowserInternal::new();
    let _v = b.value_from_raw_code("1+1");
    assert_eq!(take(&mut b), "try{_w.s(2,1+1)}catch($){_w.e(2,$)};\n");
}

#[test]
fn release_emits_one_delete() {
    let mut b = BrowserInternal::new();
    let v = b.value_from_raw_code("x");
    take(&mut b);
    v.release(&mut b);
    assert_eq!(take(&mut b), "_w.d(2);\n");
}

#[test]
fn duplicate_emits_one_copy_into_new_slot() {
    let mut b = BrowserInternal::new();
    let v = b.value_from_raw_code("x");
    take(&mut b);
    let w = v.duplicate(&mut b);
    assert_ne!(w.id(), v.id());
    assert_eq!(w.id(), 3);
    assert_eq!(take(&mut b), "_w.s(3,_w.g(2));\n");
}

#[test]
fn call_function_with_arguments() {
    let mut b = BrowserInternal::new();
    let args = vec!["1".to_string(), "\"a\"".to_string()];
    let _v = b.call_function("alert", &args, false);
    assert_eq!(take(&mut b), "try{_w.s(2,alert(1,\"a\",))}catch($){_w.e(2,$)};\n");
}

#[test]
fn call_function_spreads_last_argument() {
    let mut b = BrowserInternal::new();
    let args = vec!["1".to_string(), "xs".to_string()];
    let _v = b.call_function("f", &args, true);
    assert_eq!(take(&mut b), "try{_w.s(2,f(1,...xs,))}catch($){_w.e(2,$)};\n");
}

#[test]
fn call_constructor_text() {
    let mut b = BrowserInternal::new();
    let _v = b.call_constructor("RegExp", &vec!["\"hello\"".to_string()], false);
    assert_eq!(take(&mut b), "try{_w.s(2,new RegExp(\"hello\",))}catch($){_w.e(2,$)};\n");
}

#[test]
fn get_and_set_field_text() {
    let mut b = BrowserInternal::new();
    let o = b.value_from_raw_code("window");
    take(&mut b);
    let _f = b.get_field(&o, &RawCodeImmediate("\"location\""));
    assert_eq!(take(&mut b), "try{_w.s(3,(_w.g(2))[\"location\"])}catch($){_w.e(3,$)};\n");
    b.set_field(&o, &RawCodeImmediate("\"x\""), &null());
    assert_eq!(take(&mut b), "(_w.g(2))[\"x\"]=null;\n");
}

#[test]
fn object_methods_text() {
    let mut b = BrowserInternal::new();
    let o = JsObject::from_value(b.value_from_raw_code("console"));
    take(&mut b);
    o.js_set_field(&mut b, &RawCodeImmediate("\"k\""), &undefined());
    assert_eq!(take(&mut b), "_w.g(2)[\"k\"]=undefined;\n");
    let _g = o.js_get_field(&mut b, &RawCodeImmediate("\"k\""));
    assert_eq!(take(&mut b), "try{_w.s(3,_w.g(2)[\"k\"])}catch($){_w.e(3,$)};\n");
    let _m = o.js_call_method(&mut b, "log", &vec!["\"hi\"".to_string()], false);
    assert_eq!(take(&mut b), "try{_w.s(4,_w.g(2).log(\"hi\",))}catch($){_w.e(4,$)};\n");
    let _s = o.js_call_self(&mut b, &vec![], false);
    assert_eq!(take(&mut b), "try{_w.s(5,(_w.g(2))())}catch($){_w.e(5,$)};\n");
}

#[test]
fn run_raw_code_text() {
    let mut b = BrowserInternal::new();
    b.run_raw_code("a()");
    assert_eq!(take(&mut b), "{ a() }\n");
}

#[test]
fn commands_are_batched_into_one_frame() {
    let mut b = BrowserInternal::new();
    b.run_raw_code("a()");
    b.run_raw_code("b()");
    assert_eq!(take(&mut b), "{ a() }\n{ b() }\n");
    assert!(matches!(b.poll_outgoing(noop_waker_ref()), PollFrame::Pending));
}

#[test]
fn import_twice_emits_one_resolution() {
    let mut b = BrowserInternal::new();
    let first = b.import("./module.js");
    let key = hex::encode(sha3::Sha3_256::digest("./module.js".as_bytes()));
    assert_eq!(key.len(), 64);
    assert_eq!(
        take(&mut b),
        format!("try{{_w.s(2,_w.x._{key})}}catch($){{_w.e(2,$)}};\n")
    );
    let second = b.import("./module.js");
    assert_eq!(second, first);
    assert!(matches!(b.poll_outgoing(noop_waker_ref()), PollFrame::Pending));
    let other = b.import("./other.js");
    assert_eq!(other, 3);
}

#[test]
fn pure_raw_code_is_evaluated_once() {
    let mut b = BrowserInternal::new();
    let v = b.value_from_pure_raw_code("Math");
    assert_eq!(v.id(), 2);
    assert_eq!(take(&mut b), "try{_w.s(2,Math)}catch($){_w.e(2,$)};\n_w.s(3,_w.g(2));\n");
    let w = b.value_from_pure_raw_code("Math");
    assert_eq!(w.id(), 4);
    assert_eq!(take(&mut b), "_w.s(4,_w.g(3));\n");
}

#[test]
fn immediates_code() {
    let mut s = String::new();
    null().serialize_to(&mut s);
    undefined().serialize_to(&mut s);
    let some = RawCodeImmediate("7");
    Some(&some).serialize_to(&mut s);
    None::<&RawCodeImmediate>.serialize_to(&mut s);
    UpcastWorkaround::<RawCodeImmediate, RawCodeImmediate>::new(&some).cast().serialize_to(&mut s);
    assert_eq!(s, "nullundefined7null7");
}

#[test]
fn serde_value_is_written_as_json() {
    let mut b = BrowserInternal::new();
    let v: serde_json::Value = serde_json::from_str("{\"a\":[1,2]}").unwrap();
    let data = SerdeToJs::new(&v).ok().unwrap();
    let _h = b.new_value(&data);
    assert_eq!(take(&mut b), "try{_w.s(2,{\"a\":[1,2]})}catch($){_w.e(2,$)};\n");
}

#[test]
fn error_is_sticky_and_taken_once() {
    let mut b = BrowserInternal::new();
    b.run_raw_code("x");
    b.kill(Error::DataDeserialize(json_error()));
    b.kill(Error::CommandSerialize(other_json_error()));
    assert!(matches!(b.poll_outgoing(noop_waker_ref()), PollFrame::Finished));
    match b.take_error() {
        Some(Error::DataDeserialize(e)) => assert_eq!(e.to_string(), json_error().to_string()),
        _ => panic!("expected the first error"),
    }
    assert!(b.take_error().is_none());
    assert!(matches!(b.poll_outgoing(noop_waker_ref()), PollFrame::Finished));
}

#[test]
fn take_error_on_live_connection_is_none() {
    let mut b = BrowserInternal::new();
    assert!(b.take_error().is_none());
    b.run_raw_code("x");
    assert_eq!(take(&mut b), "{ x }\n");
}

#[test]
fn retrieval_registers_then_harvests() {
    let mut b = BrowserInternal::new();
    let v = b.value_from_raw_code("41+1");
    take(&mut b);
    let mut f = v.retrieve_json();
    assert!(b.poll_retrieve(&mut f, noop_waker_ref()).is_none());
    assert_eq!(take(&mut b), "_w.r(3,_w.c(2));\n");
    assert!(b.poll_retrieve(&mut f, noop_waker_ref()).is_none());
    b.receive("p3:{\"value\":42}".to_string());
    let payload = b.poll_retrieve(&mut f, noop_waker_ref()).unwrap();
    assert_eq!(payload, "{\"value\":42}");
}

#[test]
fn signal_for_unknown_id_is_dropped() {
    let mut b = BrowserInternal::new();
    let v = b.value_from_raw_code("1");
    let mut f = v.retrieve_json();
    assert!(b.poll_retrieve(&mut f, noop_waker_ref()).is_none());
    b.receive("p99:{\"value\":1}".to_string());
    b.receive("x3:{\"value\":1}".to_string());
    b.receive("p+x:1".to_string());
    assert!(b.poll_retrieve(&mut f, noop_waker_ref()).is_none());
}

#[test]
fn dropped_retrieval_ignores_later_signal() {
    let mut b = BrowserInternal::new();
    let v = b.value_from_raw_code("1");
    let mut f = v.retrieve_json();
    assert!(b.poll_retrieve(&mut f, noop_waker_ref()).is_none());
    take(&mut b);
    b.drop_retrieve(f);
    b.receive("p3:{\"value\":1}".to_string());
    assert!(matches!(b.poll_outgoing(noop_waker_ref()), PollFrame::Pending));
}

fn decode(payload: &str) -> Result<RetrievalOutcome<serde_json::Value>, serde_json::Error> {
    let v: serde_json::Value = serde_json::from_str(payload)?;
    if let Some(x) = v.get("value") {
        Ok(RetrievalOutcome::Value(x.clone()))
    } else if let Some(id) = v.get("error").and_then(|e| e.as_u64()) {
        Ok(RetrievalOutcome::Error(id))
    } else {
        Err(serde_json::from_str::<serde_json::Value>("").unwrap_err())
    }
}

#[test]
fn round_trip_of_structured_data() {
    let mut b = BrowserInternal::new();
    let original: serde_json::Value = serde_json::from_str("{\"n\":[1,2.5,\"s\"],\"t\":true}").unwrap();
    let data = SerdeToJs::new(&original).ok().unwrap();
    let h = b.new_value(&data);
    let sent = take(&mut b);
    let literal = sent
        .strip_prefix("try{_w.s(2,")
        .unwrap()
        .strip_suffix(")}catch($){_w.e(2,$)};\n")
        .unwrap()
        .to_string();
    let mut f = h.retrieve_json();
    assert!(b.poll_retrieve(&mut f, noop_waker_ref()).is_none());
    b.receive(format!("p3:{{\"value\":{literal}}}"));
    let payload = b.poll_retrieve(&mut f, noop_waker_ref()).unwrap();
    match b.settle_retrieval(decode(&payload)) {
        Some(Ok(v)) => assert_eq!(v, original),
        _ => panic!("expected a value"),
    }
}

#[test]
fn retrieval_of_thrown_value_gives_handle() {
    let mut b = BrowserInternal::new();
    match b.settle_retrieval(decode("{\"error\":9007199254740990}")) {
        Some(Err(h)) => assert_eq!(h.id(), 9007199254740990),
        _ => panic!("expected a handle"),
    }
}

#[test]
fn undecodable_payload_kills_connection() {
    let mut b = BrowserInternal::new();
    let r = b.settle_retrieval::<serde_json::Value>(decode("{\"other\":1}"));
    assert!(r.is_none());
    assert!(matches!(b.take_error(), Some(Error::DataDeserialize(_))));
    assert!(matches!(b.poll_outgoing(noop_waker_ref()), PollFrame::Finished));
}

#[test]
fn await_resolves_on_second_poll_after_signal() {
    let mut b = BrowserInternal::new();
    let p = b.value_from_raw_code("fetch(u)");
    take(&mut b);
    let mut f: Await = p.into_future();
    assert!(b.poll_await(&mut f, noop_waker_ref()).is_none());
    let sent = take(&mut b);
    assert_eq!(
        sent,
        "_w.s(4,{});try{Promise.prototype.then.call(_w.g(2),function(e){_w.g(4).$={e,r:0};_w.r(3,0)},function(e){_w.g(4).$={e,r:1};_w.r(3,0)})}catch($){_w.g(4).$={e:$,r:1};_w.r(3,0)};\n_w.d(2);\n"
    );
    assert!(b.poll_await(&mut f, noop_waker_ref()).is_none());
    assert_eq!(take(&mut b), "");
    b.receive("p3:0".to_string());
    let v = b.poll_await(&mut f, noop_waker_ref()).unwrap();
    assert_eq!(v.id(), 5);
    assert_eq!(take(&mut b), "{var v=_w.g(4).$;(v.r?_w.e:_w.s)(5,v.e);_w.d(4)};\n");
}

#[test]
fn dropped_await_before_poll_frees_promise() {
    let mut b = BrowserInternal::new();
    let p = b.value_from_raw_code("p");
    take(&mut b);
    b.drop_await(p.into_future());
    assert_eq!(take(&mut b), "_w.d(2);\n");
}

#[test]
fn rpc_malformed_call_is_dropped() {
    let mut b = BrowserInternal::new();
    let ep = b.new_rpc::<u64, JsValue>("add");
    b.receive("radd:nonsense".to_string());
    b.receive("radd:7;41;".to_string());
    let req = ep.poll_next(&mut b, noop_waker_ref()).unwrap();
    assert!(ep.poll_next(&mut b, noop_waker_ref()).is_none());
    let (data, reply) = req.decaps();
    assert_eq!(data, 41);
    let answer = b.value_from_raw_code("42");
    take(&mut b);
    reply.reply(&mut b, answer);
    assert_eq!(take(&mut b), "_w.rp(7,_w.g(2))\n");
}

#[test]
fn rpc_unknown_channel_is_dropped() {
    let mut b = BrowserInternal::new();
    let ep = b.new_rpc::<(u64, u64), RawCodeImmediate<'static>>("pair");
    b.receive("rother:1;2;3;".to_string());
    assert!(ep.poll_next(&mut b, noop_waker_ref()).is_none());
    b.receive("rpair:1;2;3;".to_string());
    let (data, reply) = ep.poll_next(&mut b, noop_waker_ref()).unwrap().decaps();
    assert_eq!(data, (2, 3));
    reply.reply(&mut b, RawCodeImmediate("true"));
    assert_eq!(take(&mut b), "_w.rp(1,true)\n");
}

#[test]
fn rpc_channel_is_shared_by_name() {
    let mut b = BrowserInternal::new();
    let a = b.new_rpc::<(), RawCodeImmediate<'static>>("ch");
    let c = b.new_rpc::<(), RawCodeImmediate<'static>>("ch");
    b.receive("rch:5;".to_string());
    assert!(c.poll_next(&mut b, noop_waker_ref()).is_some());
    assert!(a.poll_next(&mut b, noop_waker_ref()).is_none());
}

#[test]
fn decimal_fields() {
    assert_eq!(parse_u64("42"), Some(42));
    assert_eq!(parse_u64("+7"), Some(7));
    assert_eq!(parse_u64("18446744073709551615"), Some(u64::MAX));
    assert_eq!(parse_u64("18446744073709551616"), None);
    assert_eq!(parse_u64(""), None);
    assert_eq!(parse_u64("+"), None);
    assert_eq!(parse_u64("1a"), None);
}

#[test]
fn endpoint_type_is_usable() {
    let mut b = BrowserInternal::new();
    let ep: wsdom_core::rpc::RpcHandle<Endpoint<JsValue, RawCodeImmediate<'static>>> = b.new_rpc("v");
    b.receive("rv:3;9007199254740991;".to_string());
    let (v, _r) = ep.poll_next(&mut b, noop_waker_ref()).unwrap().decaps();
    assert_eq!(v.id(), 9007199254740991);
}

#[test]
fn array_of_values_is_an_array_literal() {
    let one = RawCodeImmediate("1");
    let two = RawCodeImmediate("\"b\"");
    let mut s = String::new();
    [&one, &two].serialize_to(&mut s);
    assert_eq!(s, "[1,\"b\",]");
    let mut e = String::new();
    let empty: [&RawCodeImmediate; 0] = [];
    empty.serialize_to(&mut e);
    assert_eq!(e, "[]");
}

#[test]
fn serde_data_code_is_the_json_text() {
    for text in ["null", "[1,2,3]", "{\"k\":\"v\"}", "\"a:b\""] {
        let v: serde_json::Value = serde_json::from_str(text).unwrap();
        let data = SerdeToJs::new(&v).ok().unwrap();
        let mut s = String::new();
        data.serialize_to(&mut s);
        assert_eq!(s, serde_json::to_string(&v).unwrap());
        assert!(!s.is_empty());
    }
}
