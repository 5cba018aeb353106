//! Messages of services that are known by their descriptors only.
use pulse::grpc::account::{created_account, found_account, map_grpc_status, Account};
use pulse::grpc::decode::ResponseValue;
use pulse::grpc::gateway::{
    checked_route, unary_failed, unary_not_ready, DescriptorBackedGrpcGateway,
};
use pulse::grpc::value::JsonValue;
use pulse::grpc::wire::{
    read_fixed32, read_fixed64, read_length_delimited, read_varint, skip_wire_value, unzigzag_i32,
    unzigzag_i64, write_fixed32, write_fixed64, write_key, write_varint, zigzag_i32, zigzag_i64,
    PulseError,
};
use pulse::random::{phone_number, RandomUsPhoneGenerator};

// Descriptors, written field by field.

fn varint(mut n: u64) -> Vec<u8> {
    let mut out = Vec::new();
    while n >= 128 {
        out.push((n % 128) as u8 + 128);
        n /= 128;
    }
    out.push(n as u8);
    out
}

fn data(tag: u64, bytes: &[u8]) -> Vec<u8> {
    let mut out = varint(tag * 8 + 2);
    out.extend(varint(bytes.len() as u64));
    out.extend_from_slice(bytes);
    out
}

fn count(tag: u64, n: u64) -> Vec<u8> {
    let mut out = varint(tag * 8);
    out.extend(varint(n));
    out
}

fn field(name: &str, number: u64, kind: u64) -> Vec<u8> {
    [data(1, name.as_bytes()), count(3, number), count(4, 1), count(5, kind)].concat()
}

fn repeated(name: &str, number: u64, kind: u64) -> Vec<u8> {
    [data(1, name.as_bytes()), count(3, number), count(4, 3), count(5, kind)].concat()
}

fn message(name: &str, fields: &[Vec<u8>]) -> Vec<u8> {
    let mut out = data(1, name.as_bytes());
    for field in fields {
        out.extend(data(2, field));
    }
    out
}

fn method(name: &str, input: &str, output: &str) -> Vec<u8> {
    [data(1, name.as_bytes()), data(2, input.as_bytes()), data(3, output.as_bytes())].concat()
}

fn service(name: &str, methods: &[Vec<u8>]) -> Vec<u8> {
    let mut out = data(1, name.as_bytes());
    for method in methods {
        out.extend(data(2, method));
    }
    out
}

fn file(package: &str, messages: &[Vec<u8>], services: &[Vec<u8>]) -> Vec<u8> {
    let mut out = data(2, package.as_bytes());
    for message in messages {
        out.extend(data(4, message));
    }
    for service in services {
        out.extend(data(6, service));
    }
    out
}

fn file_set(files: &[Vec<u8>]) -> Vec<u8> {
    let mut out = Vec::new();
    for file in files {
        out.extend(data(1, file));
    }
    out
}

const KINDS: [(&str, u64); 16] = [
    ("double", 1),
    ("float", 2),
    ("int64", 3),
    ("uint64", 4),
    ("int32", 5),
    ("fixed64", 6),
    ("fixed32", 7),
    ("bool", 8),
    ("string", 9),
    ("bytes", 12),
    ("uint32", 13),
    ("enum", 14),
    ("sfixed32", 15),
    ("sfixed64", 16),
    ("sint32", 17),
    ("sint64", 18),
];

fn everything() -> Vec<u8> {
    let mut fields: Vec<Vec<u8>> = KINDS
        .iter()
        .enumerate()
        .map(|(i, (name, kind))| field(name, i as u64 + 1, *kind))
        .collect();
    let inner = [field("inner", 20, 11), data(6, b".demo.Inner"), data(10, b"innerMessage")].concat();
    fields.push(inner);
    fields.push(repeated("numbers", 21, 5));
    fields.push(repeated("names", 22, 9));
    message("All", &fields)
}

fn demo() -> Vec<u8> {
    let messages = [everything(), message("Inner", &[field("id", 1, 9), field("count", 2, 5)])];
    let streaming = [method("Watch", ".demo.All", ".demo.All"), count(6, 1)].concat();
    let services = [service("Demo", &[method("Echo", ".demo.All", ".demo.All"), streaming])];
    file_set(&[file("demo", &messages, &services)])
}

fn gateway() -> DescriptorBackedGrpcGateway {
    match DescriptorBackedGrpcGateway::from_descriptor_set("demo.bin", Ok(demo())) {
        Ok(gateway) => gateway,
        Err(error) => panic!("{error:?}"),
    }
}

fn refused(bytes: Vec<u8>) -> String {
    match DescriptorBackedGrpcGateway::from_descriptor_set("demo.bin", Ok(bytes)) {
        Err(PulseError::Client(text)) => text,
        Err(other) => panic!("{other:?}"),
        Ok(_) => panic!("the descriptor set must be refused"),
    }
}

// Values.

fn number(n: i128) -> JsonValue {
    JsonValue::Number {
        whole: Some(n),
        double: Some((n as f64).to_bits()),
        single: Some((n as f32).to_bits()),
        text: n.to_string(),
    }
}

fn fraction(x: f64) -> JsonValue {
    JsonValue::Number {
        whole: None,
        double: Some(x.to_bits()),
        single: Some((x as f32).to_bits()),
        text: x.to_string(),
    }
}

fn text(s: &str) -> JsonValue {
    JsonValue::Text {
        text: s.to_string(),
        double: s.parse::<f64>().ok().map(f64::to_bits),
        single: s.parse::<f32>().ok().map(f32::to_bits),
        quoted: format!("\"{s}\""),
    }
}

fn array(items: Vec<JsonValue>) -> JsonValue {
    JsonValue::Array { items, shown: "[...]".to_string() }
}

fn object(fields: Vec<(&str, JsonValue)>) -> JsonValue {
    JsonValue::Object {
        fields: fields.into_iter().map(|(name, value)| (name.to_string(), value)).collect(),
        shown: "{...}".to_string(),
    }
}

fn encode(value: &JsonValue) -> Result<Vec<u8>, String> {
    gateway().encode_request_fields("demo.Demo", "Echo", value).map_err(words)
}

fn decode(bytes: &[u8]) -> Result<ResponseValue, String> {
    gateway().decode_response_fields(".demo.Demo", "Echo", bytes).map_err(words)
}

fn words(error: PulseError) -> String {
    match error {
        PulseError::Client(text) => text,
        PulseError::GrpcStatus { code, message } => format!("{code}: {message}"),
    }
}

fn echo(name: &str, value: JsonValue) -> Result<ResponseValue, String> {
    match decode(&encode(&object(vec![(name, value)]))?)? {
        ResponseValue::Object(mut fields) => {
            assert_eq!(fields.len(), 1);
            assert_eq!(fields[0].0, name);
            Ok(fields.remove(0).1)
        }
        other => panic!("{other:?}"),
    }
}

#[test]
fn every_kind_of_field_is_read_back() {
    assert_eq!(echo("double", fraction(1.5)), Ok(ResponseValue::Double(1.5_f64.to_bits())));
    assert_eq!(echo("float", fraction(0.25)), Ok(ResponseValue::Single(0.25_f32.to_bits())));
    for n in [0, 1, -1, i64::MIN, i64::MAX, 300] {
        for name in ["int64", "sfixed64", "sint64"] {
            assert_eq!(echo(name, number(n as i128)), Ok(ResponseValue::Int(n)), "{name} {n}");
        }
    }
    for n in [0, 1, -1, i32::MIN, i32::MAX, -300] {
        for name in ["int32", "enum", "sfixed32", "sint32"] {
            assert_eq!(echo(name, number(n as i128)), Ok(ResponseValue::Int(n as i64)), "{name} {n}");
        }
    }
    for n in [0, 127, 128, u64::MAX] {
        for name in ["uint64", "fixed64"] {
            assert_eq!(echo(name, number(n as i128)), Ok(ResponseValue::UInt(n)), "{name} {n}");
        }
    }
    for n in [0, 16_384, u32::MAX] {
        for name in ["uint32", "fixed32"] {
            assert_eq!(echo(name, number(n as i128)), Ok(ResponseValue::UInt(n as u64)), "{name}");
        }
    }
    assert_eq!(echo("bool", JsonValue::Bool(true)), Ok(ResponseValue::Bool(true)));
    assert_eq!(echo("bool", text("FALSE")), Ok(ResponseValue::Bool(false)));
    assert_eq!(echo("string", text("grüße 🔥")), Ok(ResponseValue::Text("grüße 🔥".to_string())));
    assert_eq!(echo("string", number(12)), Ok(ResponseValue::Text("12".to_string())));
    assert_eq!(echo("string", JsonValue::Bool(false)), Ok(ResponseValue::Text("false".to_string())));
    assert_eq!(echo("bytes", text("base64:AAH/")), Ok(ResponseValue::Text("AAH/".to_string())));
    assert_eq!(echo("bytes", text("abc")), Ok(ResponseValue::Text("YWJj".to_string())));
}

#[test]
fn numbers_in_words_are_numbers() {
    assert_eq!(echo("int32", text("-12")), Ok(ResponseValue::Int(-12)));
    assert_eq!(echo("int64", text("+7")), Ok(ResponseValue::Int(7)));
    assert_eq!(echo("uint32", text("4294967295")), Ok(ResponseValue::UInt(4_294_967_295)));
    assert_eq!(echo("uint64", text("18446744073709551615")), Ok(ResponseValue::UInt(u64::MAX)));
    assert_eq!(echo("double", text("2.5")), Ok(ResponseValue::Double(2.5_f64.to_bits())));
    assert_eq!(echo("float", text("2.5")), Ok(ResponseValue::Single(2.5_f32.to_bits())));
}

#[test]
fn values_of_the_wrong_kind_are_refused() {
    let cases = [
        ("int32", number(2_147_483_648), "expected i32 value, got 2147483648"),
        ("int32", text("1.5"), "expected i32 string, got '1.5'"),
        ("int32", JsonValue::Null, "expected i32 value, got null"),
        ("int64", fraction(1.5), "expected i64 value, got 1.5"),
        ("uint32", number(-1), "expected u32 value, got -1"),
        ("uint32", text("-1"), "expected u32 string, got '-1'"),
        ("uint64", JsonValue::Bool(true), "expected u64 value, got true"),
        ("bool", text("yes"), "expected boolean value, got \"yes\""),
        ("bool", number(1), "expected boolean value, got 1"),
        ("double", text("x"), "expected double string, got 'x'"),
        ("double", JsonValue::Null, "expected double value, got null"),
        ("float", text("x"), "expected float string, got 'x'"),
        ("float", array(vec![]), "expected float value, got [...]"),
        ("string", JsonValue::Null, "null is not valid here"),
        ("string", array(vec![]), "object/array is not valid for scalar field"),
        ("bytes", number(1), "expected bytes field as string, got 1"),
        ("inner", number(1), "request_fields for 'demo.Inner' must be a JSON object"),
        ("numbers", number(1), "field 'numbers' is repeated and expects a JSON array"),
        ("other", number(1), "field 'other' is not defined in message 'demo.All'"),
    ];
    for (name, value, expected) in cases {
        assert_eq!(encode(&object(vec![(name, value)])), Err(expected.to_string()));
    }
    let error = encode(&object(vec![("bytes", text("base64:*"))])).unwrap_err();
    assert!(error.starts_with("invalid base64 bytes value: "), "{error}");
    assert_eq!(
        encode(&number(1)),
        Err("request_fields for 'demo.All' must be a JSON object".to_string())
    );
}

#[test]
fn fields_are_written_in_the_order_of_their_numbers() {
    let bytes = encode(&object(vec![
        ("uint32", number(3)),
        ("int64", number(1)),
        ("bool", JsonValue::Bool(true)),
    ]));
    assert_eq!(bytes, Ok(vec![3 * 8, 1, 8 * 8, 1, 11 * 8, 3]));
}

#[test]
fn plain_messages_are_read_back_whatever_the_order() {
    let sent = vec![
        ("uint32", number(3)),
        ("string", text("a")),
        ("sint64", number(-7)),
        ("bool", JsonValue::Bool(false)),
    ];
    let mut bytes = encode(&object(sent)).unwrap();
    bytes.extend([30 * 8 % 128 + 128, 1, 5]);
    let Ok(ResponseValue::Object(mut read)) = decode(&bytes) else {
        panic!("an object was written");
    };
    read.sort_by(|a, b| a.0.cmp(&b.0));
    assert_eq!(
        read,
        vec![
            ("bool".to_string(), ResponseValue::Bool(false)),
            ("sint64".to_string(), ResponseValue::Int(-7)),
            ("string".to_string(), ResponseValue::Text("a".to_string())),
            ("uint32".to_string(), ResponseValue::UInt(3)),
        ]
    );
}

#[test]
fn messages_inside_messages_are_read_back() {
    let inner = object(vec![("count", number(-4)), ("id", text("a"))]);
    let expected = ResponseValue::Object(vec![
        ("id".to_string(), ResponseValue::Text("a".to_string())),
        ("count".to_string(), ResponseValue::Int(-4)),
    ]);
    assert_eq!(echo("inner", inner), Ok(expected));
    let by_json_name = encode(&object(vec![("innerMessage", object(vec![]))]));
    assert_eq!(by_json_name, Ok(vec![20 * 8 % 128 + 2 + 128, 1, 0]));
}

#[test]
fn repeated_fields_are_arrays() {
    let names = array(vec![text("a"), text("b")]);
    assert_eq!(
        echo("names", names),
        Ok(ResponseValue::Array(vec![
            ResponseValue::Text("a".to_string()),
            ResponseValue::Text("b".to_string()),
        ]))
    );
    let numbers = array(vec![number(1), number(-1)]);
    let packed = encode(&object(vec![("numbers", numbers)])).unwrap();
    assert_eq!(packed, vec![0xaa, 1, 6, 1, 0xff, 0xff, 0xff, 0xff, 0x0f]);
    assert_eq!(
        decode(&packed),
        Ok(ResponseValue::Object(vec![(
            "numbers".to_string(),
            ResponseValue::Array(vec![ResponseValue::Array(vec![
                ResponseValue::Int(1),
                ResponseValue::Int(-1),
            ])]),
        )]))
    );
    let unpacked = vec![0xa8, 1, 5, 0xa8, 1, 6];
    assert_eq!(
        decode(&unpacked),
        Ok(ResponseValue::Object(vec![(
            "numbers".to_string(),
            ResponseValue::Array(vec![ResponseValue::Int(5), ResponseValue::Int(6)]),
        )]))
    );
}

#[test]
fn later_values_replace_earlier_ones_and_unknown_fields_are_skipped() {
    let mut bytes = vec![3 * 8, 1];
    bytes.extend(count(99, 7));
    bytes.extend([varint(98 * 8 + 1), vec![0; 8]].concat());
    bytes.extend(data(97, b"unknown"));
    bytes.extend([varint(96 * 8 + 5), vec![0; 4]].concat());
    bytes.extend([3 * 8, 2]);
    assert_eq!(
        decode(&bytes),
        Ok(ResponseValue::Object(vec![("int64".to_string(), ResponseValue::Int(2))]))
    );
}

#[test]
fn undeclared_fields_behind_a_message_change_nothing() {
    let written = encode(&object(vec![
        ("string", text("kept")),
        ("int32", number(-7)),
        ("inner", object(vec![("id", text("a"))])),
    ]))
    .unwrap();
    let read = decode(&written);
    assert!(read.is_ok());
    let mut more = written;
    more.extend(count(99, u64::MAX));
    more.extend([varint(98 * 8 + 1), vec![0xff; 8]].concat());
    more.extend(data(97, b"unknown"));
    more.extend([varint(96 * 8 + 5), vec![0xff; 4]].concat());
    assert_eq!(decode(&more), read);
}

#[test]
fn broken_responses_are_refused() {
    let cases: [(Vec<u8>, &str); 12] = [
        (vec![0x80], "unexpected end of payload while reading varint"),
        (vec![0x80; 11], "varint too long"),
        (vec![8 + 1, 1, 2], "buffer underflow reading fixed64"),
        (vec![2 * 8 + 5, 1], "buffer underflow reading fixed32"),
        (vec![9 * 8 + 2, 5, 1], "length-delimited field exceeds payload"),
        (vec![9 * 8, 5], "unexpected wire type 0 for field 'string' (expected 2)"),
        (vec![3 * 8 + 1, 5], "unexpected wire type 1 for field 'int64' (expected 0)"),
        (varint(99 * 8 + 3), "unsupported wire type while skipping unknown field: 3"),
        ([varint(99 * 8 + 1), vec![1]].concat(), "buffer underflow while decoding"),
        (vec![0xaa, 1, 6, 1], "packed field exceeds payload bounds"),
        ([vec![8 + 1], f64::NAN.to_bits().to_le_bytes().to_vec()].concat(), "invalid double value"),
        (
            [vec![2 * 8 + 5], f32::INFINITY.to_bits().to_le_bytes().to_vec()].concat(),
            "invalid float value",
        ),
    ];
    for (bytes, expected) in cases {
        assert_eq!(decode(&bytes), Err(expected.to_string()));
    }
    assert_eq!(
        decode(&[9 * 8 + 2, 1, 0xff]),
        Err("invalid utf8 in field 'string': invalid utf-8 sequence of 1 bytes from index 0"
            .to_string())
    );
}

#[test]
fn methods_are_found_and_streams_refused() {
    let gateway = gateway();
    assert_eq!(
        gateway.unary_route("..demo.Demo", "Echo").map_err(words),
        Ok("/demo.Demo/Echo".to_string())
    );
    assert_eq!(
        gateway.unary_route("demo.Demo", "Watch").map_err(words),
        Err("method demo.Demo/Watch is streaming; only unary is supported".to_string())
    );
    assert_eq!(
        gateway.unary_route(".demo.Other", "Echo").map_err(words),
        Err("method not found in descriptor set: demo.Other/Echo".to_string())
    );
    assert_eq!(
        checked_route("/a/b", Some("invalid uri character".to_string())).map_err(words),
        Err("invalid grpc route path: invalid uri character".to_string())
    );
    let spaced = file_set(&[file(
        "",
        &[message("M", &[])],
        &[service("S", &[method("a b", "M", "M")])],
    )]);
    let gateway = match DescriptorBackedGrpcGateway::from_descriptor_set("s.bin", Ok(spaced)) {
        Ok(gateway) => gateway,
        Err(error) => panic!("{error:?}"),
    };
    let error = gateway.unary_route("S", "a b").map_err(words).unwrap_err();
    assert!(error.starts_with("invalid grpc route path: "), "{error}");
}

#[test]
fn descriptor_sets_that_cannot_be_used_are_refused() {
    let unread = DescriptorBackedGrpcGateway::from_descriptor_set(
        "demo.bin",
        Err("no such file".to_string()),
    );
    assert_eq!(
        unread.err().map(words),
        Some("failed to read descriptor set 'demo.bin': no such file".to_string())
    );
    assert!(refused(vec![0xff]).starts_with(
        "failed to decode descriptor set 'demo.bin' as FileDescriptorSet: "
    ));
    assert_eq!(
        refused(Vec::new()),
        "descriptor set 'demo.bin' does not contain any service methods"
    );
    let twice = file_set(&[file("p", &[message("M", &[]), message("M", &[])], &[])]);
    assert_eq!(refused(twice), "duplicate message in descriptor set: p.M");
    let group = file_set(&[file("", &[message("M", &[field("g", 1, 10)])], &[])]);
    assert_eq!(refused(group), "protobuf groups are not supported");
    let unknown = file_set(&[file("", &[message("M", &[field("g", 1, 99)])], &[])]);
    assert_eq!(refused(unknown), "unsupported field type for M.g");
    let input = file_set(&[file("", &[message("M", &[])], &[service("S", &[method("a", "N", "M")])])]);
    assert_eq!(refused(input), "input type 'N' for S/a not found in descriptor set");
    let output = file_set(&[file("", &[message("M", &[])], &[service("S", &[method("a", "M", "N")])])]);
    assert_eq!(refused(output), "output type 'N' for S/a not found in descriptor set");
    let methods = [method("a", "M", "M"), method("a", "M", "M")];
    let same = file_set(&[file("", &[message("M", &[])], &[service("S", &methods)])]);
    assert_eq!(refused(same), "duplicate method in descriptor set: S/a");
}

#[test]
fn nested_messages_have_full_names_and_nameless_fields_are_left_out() {
    let inner = message("Leaf", &[field("x", 1, 5), field(" ", 2, 5), field("zero", 0, 5)]);
    let outer = [
        message("Tree", &[[field("leaf", 1, 11), data(6, b".p.Tree.Leaf")].concat()]),
        data(3, &inner),
    ]
    .concat();
    let bytes = file_set(&[file("p", &[outer], &[service("S", &[method("a", ".p.Tree", ".p.Tree")])])]);
    let gateway = match DescriptorBackedGrpcGateway::from_descriptor_set("t.bin", Ok(bytes)) {
        Ok(gateway) => gateway,
        Err(error) => panic!("{error:?}"),
    };
    let value = object(vec![("leaf", object(vec![("x", number(1))]))]);
    let sent = gateway.encode_request_fields("p.S", "a", &value).map_err(words);
    assert_eq!(sent, Ok(vec![10, 2, 8, 1]));
    let value = object(vec![("leaf", object(vec![("zero", number(1))]))]);
    assert_eq!(
        gateway.encode_request_fields("p.S", "a", &value).map_err(words),
        Err("field 'zero' is not defined in message 'p.Tree.Leaf'".to_string())
    );
}

#[test]
fn numbers_on_the_wire_are_read_back() {
    for n in [0, 1, 127, 128, 16_383, 16_384, u64::MAX] {
        let mut out = vec![9];
        write_varint(&mut out, n);
        assert_eq!(out[1..], varint(n));
        assert_eq!(read_varint(&out, 1), Ok((n, out.len())));
    }
    let mut out = Vec::new();
    write_key(&mut out, 536_870_911, 5);
    assert_eq!(read_varint(&out, 0), Ok((536_870_911 * 8 + 5, out.len())));
    let mut out = Vec::new();
    write_fixed32(&mut out, 0x0102_0304);
    write_fixed64(&mut out, 0x0102_0304_0506_0708);
    assert_eq!(out, [4, 3, 2, 1, 8, 7, 6, 5, 4, 3, 2, 1]);
    assert_eq!(read_fixed32(&out, 0), Ok((0x0102_0304, 4)));
    assert_eq!(read_fixed64(&out, 4), Ok((0x0102_0304_0506_0708, 12)));
    assert!(read_fixed32(&out, usize::MAX).is_err());
    assert!(read_fixed64(&out, usize::MAX).is_err());
    assert_eq!(read_length_delimited(&[2, 7, 8], 0), Ok((1, 3)));
    assert_eq!(skip_wire_value(2, &[2, 7, 8], 0), Ok(3));
    for n in [0, 1, -1, i32::MIN, i32::MAX] {
        assert_eq!(unzigzag_i32(zigzag_i32(n)), n);
    }
    for n in [0, 1, -1, i64::MIN, i64::MAX] {
        assert_eq!(unzigzag_i64(zigzag_i64(n)), n);
    }
    assert_eq!((zigzag_i32(-1), zigzag_i32(1), zigzag_i64(-2)), (1, 2, 3));
}

#[test]
fn calls_that_fail_are_told_apart() {
    assert_eq!(
        words(unary_not_ready("demo.Demo", "Echo", "closed")),
        "dynamic grpc client not ready for demo.Demo/Echo: closed"
    );
    assert_eq!(
        unary_failed("demo.Demo", "Echo", "Unavailable", "status: down"),
        PulseError::GrpcStatus {
            code: "Unavailable".to_string(),
            message: "dynamic grpc call demo.Demo/Echo failed: status: down".to_string(),
        }
    );
    assert_eq!(
        map_grpc_status("GetAccount failed", "NotFound", "gone"),
        PulseError::GrpcStatus {
            code: "NotFound".to_string(),
            message: "GetAccount failed: gone".to_string(),
        }
    );
}

#[test]
fn accounts_are_taken_from_replies() {
    let account = || Some(Account { id: "7".to_string(), phone: "+1".to_string() });
    assert_eq!(created_account(account()).map(|out| out.id).map_err(words), Ok("7".to_string()));
    assert_eq!(
        created_account(None).map(|out| out.id).map_err(words),
        Err("CreateAccount returned empty account".to_string())
    );
    let found = found_account(account()).map(|out| (out.id, out.phone)).map_err(words);
    assert_eq!(found, Ok(("7".to_string(), "+1".to_string())));
    assert_eq!(
        found_account(None).map(|out| out.id).map_err(words),
        Err("GetAccount returned empty account".to_string())
    );
}

#[test]
fn telephone_numbers_have_a_country_code_and_ten_digits() {
    assert_eq!(phone_number(200, 100, 1_000), "+12001001000");
    let mut seen = Vec::new();
    for _ in 0..200 {
        let phone = RandomUsPhoneGenerator.generate();
        assert_eq!(phone.len(), 12);
        assert!(phone.starts_with("+1"));
        let area: u32 = phone[2..5].parse().unwrap();
        let exchange: u32 = phone[5..8].parse().unwrap();
        let line: u32 = phone[8..].parse().unwrap();
        assert!((200..999).contains(&area));
        assert!((100..999).contains(&exchange));
        assert!((1_000..9_999).contains(&line));
        seen.push(phone);
    }
    seen.sort();
    seen.dedup();
    assert!(seen.len() > 150);
}
