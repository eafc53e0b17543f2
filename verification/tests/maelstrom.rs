use omnipaxos_kv::json::{decode_json, encode_json, or_string, Json, Members};
use omnipaxos_kv::maelstrom::{
    request_timeout_ms, seen, CasBody, Envelope, Found, GetBody, Message, Node, Reply, ReplyBody,
    ShimErrorBody, ShimResponse, Step,
};

fn json(text: &str) -> Json {
    match Json::parse(text) {
        Some(value) => value,
        None => panic!("{} is no JSON", text),
    }
}

fn request(body: &str) -> Envelope {
    Envelope { src: "c1".to_string(), dest: "n1".to_string(), body: json(body) }
}

fn node() -> Node {
    let mut node = Node::new(Some("http://shim:3000".to_string()));
    node.handle(request("{\"type\":\"init\",\"node_id\":\"n1\",\"msg_id\":1}"));
    node
}

fn replied(step: Step) -> Reply {
    match step {
        Step::Reply(reply) => reply,
        _ => panic!("no reply"),
    }
}

fn is_error(reply: &Reply, code: i64, text: &str) -> bool {
    matches!(&reply.body, ReplyBody::Error(c, t) if *c == code && t == text)
}

fn stored(text: &str) -> ShimResponse<GetBody> {
    ShimResponse::Success(Some(GetBody { ok: true, value: Some(text.to_string()) }))
}

fn unset() -> ShimResponse<GetBody> {
    ShimResponse::Success(Some(GetBody { ok: true, value: None }))
}

fn rejected<B>(indeterminate: Option<bool>) -> ShimResponse<B> {
    ShimResponse::Failure(Some(ShimErrorBody { indeterminate }))
}

#[test]
fn init_gives_the_node_its_name() {
    let mut node = Node::new(None);
    let body = "{\"type\":\"init\",\"node_id\":\"n3\",\"msg_id\":8,\"node_ids\":[\"n3\"]}";
    let reply = replied(node.handle(request(body)));
    assert_eq!(reply.src, "n3");
    assert_eq!(reply.dest, "c1");
    assert_eq!(reply.in_reply_to, 8);
    assert_eq!(reply.msg_id, 1);
    assert!(matches!(reply.body, ReplyBody::InitOk));
    let reply = replied(node.handle(request("{\"type\":\"init\",\"node_id\":5}")));
    assert_eq!(reply.src, "n0");
    assert_eq!(reply.in_reply_to, 0);
    assert_eq!(reply.msg_id, 2);
}

#[test]
fn unsupported_requests() {
    for body in ["{\"type\":\"echo\"}", "{}", "{\"type\":5}", "[]", "null", "\"init\""] {
        let reply = replied(node().handle(request(body)));
        assert!(is_error(&reply, 10, "unsupported request type"));
        assert_eq!(reply.src, "n1");
    }
}

#[test]
fn request_numbers_that_are_no_integers_count_as_none() {
    for id in ["1.5", "\"7\"", "9223372036854775808", "null", "[7]"] {
        let body = format!("{{\"type\":\"x\",\"msg_id\":{}}}", id);
        assert_eq!(replied(node().handle(request(&body))).in_reply_to, 0);
    }
    for (id, expected) in [("-3", -3), ("9223372036854775807", i64::MAX)] {
        let body = format!("{{\"type\":\"x\",\"msg_id\":{}}}", id);
        assert_eq!(replied(node().handle(request(&body))).in_reply_to, expected);
    }
}

#[test]
fn read_asks_the_gateway() {
    match node().handle(request("{\"type\":\"read\",\"key\":17,\"msg_id\":2}")) {
        Step::Read { url, req } => {
            assert_eq!(url, "http://shim:3000/kv/17");
            assert_eq!(req.msg_id, Some(2));
        }
        _ => panic!("no read"),
    }
    match node().handle(request("{\"type\":\"read\",\"key\":\"a/b ~\u{e9}\"}")) {
        Step::Read { url, .. } => assert_eq!(url, "http://shim:3000/kv/%22a%2Fb%20~%C3%A9%22"),
        _ => panic!("no read"),
    }
    match node().handle(request("{\"type\":\"read\",\"key\":{ \"b\" : [ 1, null ], \"a\": \"-._\" }}")) {
        Step::Read { url, .. } => assert_eq!(
            url,
            "http://shim:3000/kv/%7B%22a%22%3A%22-._%22%2C%22b%22%3A%5B1%2Cnull%5D%7D"
        ),
        _ => panic!("no read"),
    }
}

#[test]
fn default_gateway() {
    let mut node = Node::new(None);
    match node.handle(request("{\"type\":\"read\",\"key\":1}")) {
        Step::Read { url, .. } => assert_eq!(url, "http://127.0.0.1:3000/kv/1"),
        _ => panic!("no read"),
    }
    assert_eq!(request_timeout_ms(None), 4000);
    assert_eq!(request_timeout_ms(Some("250".to_string())), 250);
    assert_eq!(request_timeout_ms(Some("fast".to_string())), 4000);
}

#[test]
fn write_asks_the_gateway() {
    match node().handle(request("{\"type\":\"write\",\"key\":1,\"value\":{\"x\": [ 2 ]}}")) {
        Step::Write { url, value, .. } => {
            assert_eq!(url, "http://shim:3000/kv/1");
            assert_eq!(value, "{\"x\":[2]}");
        }
        _ => panic!("no write"),
    }
}

#[test]
fn cas_asks_the_gateway() {
    let body = "{\"type\":\"cas\",\"key\":\"k\",\"from\":3,\"to\":null}";
    match node().handle(request(body)) {
        Step::Cas { url, key, from, to, .. } => {
            assert_eq!(url, "http://shim:3000/kv/cas");
            assert_eq!(key, "\"k\"");
            assert_eq!(from, "3");
            assert_eq!(to, "null");
        }
        _ => panic!("no cas"),
    }
}

#[test]
fn requests_with_something_missing() {
    let cases = [
        ("{\"type\":\"read\"}", "read missing key"),
        ("{\"type\":\"write\",\"value\":1}", "write missing key"),
        ("{\"type\":\"write\",\"key\":1}", "write missing value"),
        ("{\"type\":\"cas\",\"from\":1,\"to\":2}", "cas missing key"),
        ("{\"type\":\"cas\",\"key\":1,\"to\":2}", "cas missing from"),
        ("{\"type\":\"cas\",\"key\":1,\"from\":2}", "cas missing to"),
        ("{\"type\":\"cas\"}", "cas missing key"),
    ];
    for (body, text) in cases {
        assert!(is_error(&replied(node().handle(request(body))), 13, text));
    }
}

fn message() -> Message {
    Message::read(request("{\"type\":\"cas\",\"key\":1,\"from\":3,\"to\":4,\"msg_id\":6}"))
}

#[test]
fn what_a_node_looks_at() {
    let m = message();
    assert_eq!(m.src, "c1");
    assert_eq!(m.msg_type, Some("cas".to_string()));
    assert_eq!(m.msg_id, Some(6));
    assert_eq!(m.node_id, None);
    assert_eq!(m.key, Some("1".to_string()));
    assert_eq!(m.value, None);
    assert_eq!(m.from, Some("3".to_string()));
    assert_eq!(m.to, Some("4".to_string()));
    assert!(matches!(m.expected, Some(v) if v.equals(&json("3"))));
}

#[test]
fn replies_to_reads() {
    let mut node = node();
    let value = |reply: Reply| match reply.body {
        ReplyBody::ReadOk(value) => encode_json(&value),
        _ => panic!("no value"),
    };
    let reply = node.read_finished(message(), stored("{ \"a\": 1.50 }"));
    assert_eq!(reply.in_reply_to, 6);
    assert_eq!(reply.msg_id, 2);
    assert_eq!(value(reply), "{\"a\":1.5}");
    assert_eq!(value(node.read_finished(message(), stored("not json"))), "\"not json\"");
    assert_eq!(value(node.read_finished(message(), unset())), "null");

    let unsuccessful = ShimResponse::Success(Some(GetBody { ok: false, value: None }));
    let reply = node.read_finished(message(), unsuccessful);
    assert!(is_error(&reply, 13, "shim returned unsuccessful read"));
    let reply = node.read_finished(message(), ShimResponse::Success(None));
    assert!(is_error(&reply, 14, "invalid read response from shim"));
    let reply = node.read_finished(message(), rejected(Some(true)));
    assert!(is_error(&reply, 14, "indeterminate read"));
    for err in [Some(false), None] {
        let reply = node.read_finished(message(), rejected(err));
        assert!(is_error(&reply, 13, "read failed"));
    }
    let reply = node.read_finished(message(), ShimResponse::Failure(None));
    assert!(is_error(&reply, 13, "read failed"));
    let reply = node.read_finished(message(), ShimResponse::Failed);
    assert!(is_error(&reply, 14, "read request failed"));
    assert_eq!(reply.msg_id, 11);
}

#[test]
fn replies_to_writes() {
    let mut node = node();
    let reply = node.write_finished(message(), ShimResponse::Success(None));
    assert!(matches!(reply.body, ReplyBody::WriteOk));
    let reply = node.write_finished(message(), rejected(Some(true)));
    assert!(is_error(&reply, 14, "indeterminate write"));
    let reply = node.write_finished(message(), rejected(Some(false)));
    assert!(is_error(&reply, 13, "write failed"));
    let reply = node.write_finished(message(), ShimResponse::Failed);
    assert!(is_error(&reply, 14, "write request failed"));
}

#[test]
fn replies_to_compare_and_set() {
    let mut node = node();
    let mut finish = |response| node.cas_finished(message(), "1".to_string(), response);
    let applied = |applied| ShimResponse::Success(Some(CasBody { applied }));
    assert!(matches!(replied(finish(applied(true))).body, ReplyBody::CasOk));
    match finish(applied(false)) {
        Step::Classify { url, .. } => assert_eq!(url, "http://shim:3000/kv/1"),
        _ => panic!("no look at the key"),
    }
    let reply = replied(finish(ShimResponse::Success(None)));
    assert!(is_error(&reply, 14, "invalid cas response from shim"));
    let reply = replied(finish(rejected(Some(true))));
    assert!(is_error(&reply, 14, "indeterminate cas"));
    let reply = replied(finish(rejected(None)));
    assert!(is_error(&reply, 13, "cas failed"));
    let reply = replied(finish(ShimResponse::Failed));
    assert!(is_error(&reply, 14, "cas request failed"));
}

#[test]
fn reasons_for_a_failed_compare_and_set() {
    let mut node = node();
    let reply = node.classify_cas_failure(message(), unset());
    assert!(is_error(&reply, 20, "key does not exist"));
    let reply = node.classify_cas_failure(message(), stored("5"));
    assert!(is_error(&reply, 22, "cas from mismatch"));
    let reply = node.classify_cas_failure(message(), stored(" 3 "));
    assert!(is_error(&reply, 22, "cas failed"));
    for response in [ShimResponse::Success(None), rejected(Some(true)), ShimResponse::Failed] {
        let reply = node.classify_cas_failure(message(), response);
        assert!(is_error(&reply, 13, "unable to classify cas failure"));
    }
    let reply = node.reply_to_failed_cas(message(), Found::Nothing);
    assert!(is_error(&reply, 20, "key does not exist"));
}

#[test]
fn read_gives_back_what_was_written() {
    for value in ["5", "-7", "\"a b\"", "null", "true", "[1,{\"k\":\"v\"}]", "0.1", "1e300"] {
        let body = format!("{{\"type\":\"write\",\"key\":1,\"value\":{}}}", value);
        let written = match node().handle(request(&body)) {
            Step::Write { value, .. } => value,
            _ => panic!("no write"),
        };
        let reply = node().read_finished(message(), stored(&written));
        match reply.body {
            ReplyBody::ReadOk(read) => assert!(read.equals(&json(value))),
            _ => panic!("no value"),
        }
    }
}

#[test]
fn statuses_tell_success_from_failure() {
    let body = || Some(CasBody { applied: true });
    let err = || Some(ShimErrorBody { indeterminate: Some(true) });
    for status in [200, 204, 299] {
        let response = seen(status, body(), err());
        assert!(matches!(response, ShimResponse::Success(Some(CasBody { applied: true }))));
    }
    for status in [100, 199, 300, 404, 502, 504] {
        let response = seen(status, body(), err());
        assert!(matches!(
            response,
            ShimResponse::Failure(Some(ShimErrorBody { indeterminate: Some(true) }))
        ));
    }
    assert!(matches!(seen::<CasBody>(200, None, err()), ShimResponse::Success(None)));
    assert!(matches!(seen(500, body(), None), ShimResponse::Failure(None)));
}

#[test]
fn types_of_replies() {
    assert_eq!(ReplyBody::InitOk.reply_type(), "init_ok");
    assert_eq!(ReplyBody::ReadOk(Json::null()).reply_type(), "read_ok");
    assert_eq!(ReplyBody::WriteOk.reply_type(), "write_ok");
    assert_eq!(ReplyBody::CasOk.reply_type(), "cas_ok");
    assert_eq!(ReplyBody::Error(13, "x".to_string()).reply_type(), "error");
}

#[test]
fn values_are_read_back_from_their_texts() {
    let nested = |depth: usize| "[".repeat(depth) + &"]".repeat(depth);
    let texts = [
        "null".to_string(),
        "true".to_string(),
        "false".to_string(),
        "0".to_string(),
        "-9223372036854775808".to_string(),
        "18446744073709551615".to_string(),
        "\"{\\\"$serde_json::private::RawValue\\\":\"".to_string(),
        "[]".to_string(),
        "{}".to_string(),
        "[1,[null,{\"\":\"e1.5\",\"$\":-2}],true]".to_string(),
        nested(100),
        nested(127),
    ];
    for text in &texts {
        let value = json(text);
        let written = encode_json(&value);
        assert_eq!(&written, text);
        let read = decode_json(&written);
        assert!(read.equals(&value));
        assert_eq!(&encode_json(&read), text);
    }
    assert!(Json::parse(&nested(128)).is_none());
}

#[test]
fn object_with_the_mark_of_a_raw_value_is_not_read_back() {
    let value = json("{\"a\":1,\"$serde_json::private::RawValue\":\"2\"}");
    let written = encode_json(&value);
    assert_eq!(written, "{\"$serde_json::private::RawValue\":\"2\",\"a\":1}");
    assert!(!decode_json(&written).equals(&value));
}

#[test]
fn replies_as_json() {
    let reply = |body| Reply {
        src: "n1".to_string(),
        dest: "c\"1".to_string(),
        in_reply_to: -4,
        msg_id: 18446744073709551615,
        body,
    };
    assert_eq!(
        encode_json(&reply(ReplyBody::ReadOk(json("[1]"))).to_json()),
        "{\"body\":{\"in_reply_to\":-4,\"msg_id\":18446744073709551615,\"type\":\"read_ok\",\
         \"value\":[1]},\"dest\":\"c\\\"1\",\"src\":\"n1\"}"
    );
    assert_eq!(
        encode_json(&reply(ReplyBody::Error(22, "no".to_string())).to_json()),
        "{\"body\":{\"code\":22,\"in_reply_to\":-4,\"msg_id\":18446744073709551615,\
         \"text\":\"no\",\"type\":\"error\"},\"dest\":\"c\\\"1\",\"src\":\"n1\"}"
    );
    assert_eq!(
        encode_json(&reply(ReplyBody::CasOk).to_json()),
        "{\"body\":{\"in_reply_to\":-4,\"msg_id\":18446744073709551615,\"type\":\"cas_ok\"},\
         \"dest\":\"c\\\"1\",\"src\":\"n1\"}"
    );
}

#[test]
fn objects_have_the_members_that_were_set() {
    let mut members = Members::new();
    members.insert("b", Json::signed(-1));
    members.insert("a", Json::string("x".to_string()));
    members.insert("b", Json::unsigned(2));
    let object = members.into_json();
    assert_eq!(encode_json(&object), "{\"a\":\"x\",\"b\":2}");
    assert!(object.get("c").is_none());
    assert_eq!(encode_json(&Members::new().into_json()), "{}");
}

#[test]
fn texts_of_strings() {
    let text = |s: &str| encode_json(&Json::string(s.to_string()));
    assert_eq!(text(""), "\"\"");
    assert_eq!(text("a\"\\/"), "\"a\\\"\\\\/\"");
    assert_eq!(text("\u{8}\t\n\u{c}\r"), "\"\\b\\t\\n\\f\\r\"");
    assert_eq!(text("\u{0}\u{1f}\u{7f}\u{e9}"), "\"\\u0000\\u001f\u{7f}\u{e9}\"");
    let all: String = (0..0x30).filter_map(char::from_u32).collect();
    assert_eq!(json(&text(&all)).as_str(), Some(all));
}

#[test]
fn json_values() {
    assert!(Json::parse("{").is_none());
    let value = json("{\"a\": [1, 2], \"s\": \"x\", \"n\": -4}");
    assert_eq!(encode_json(&value), "{\"a\":[1,2],\"n\":-4,\"s\":\"x\"}");
    assert_eq!(value.get("a").map(|v| encode_json(&v)), Some("[1,2]".to_string()));
    assert!(value.get("b").is_none());
    assert!(value.get("a").map_or(false, |v| v.get("a").is_none()));
    assert_eq!(value.get("s").and_then(|v| v.as_str()), Some("x".to_string()));
    assert_eq!(value.get("n").and_then(|v| v.as_str()), None);
    assert_eq!(value.get("n").and_then(|v| v.as_i64()), Some(-4));
    assert_eq!(value.as_i64(), None);
    assert!(json("{\"x\":1,\"y\":2}").equals(&json("{\"y\":2, \"x\":1}")));
    assert!(!json("1").equals(&json("1.0")));
    assert_eq!(encode_json(&Json::null()), "null");
    assert_eq!(encode_json(&Json::from_value(json("[3]").into_value())), "[3]");
}

#[test]
fn stored_texts() {
    assert_eq!(encode_json(&decode_json("\"q\"")), "\"q\"");
    assert_eq!(encode_json(&decode_json("q")), "\"q\"");
    assert_eq!(decode_json("say \"x\"").as_str(), Some("say \"x\"".to_string()));
    assert_eq!(encode_json(&or_string(None, "7")), "\"7\"");
    assert_eq!(encode_json(&or_string(Json::parse("7"), "7")), "7");
}
