use hermes_yamcs::convert::event::event_at;
use hermes_yamcs::convert::hints::{numeric_kind_from_aliases, numeric_kind_from_fprime_name};
use hermes_yamcs::convert::values::binary_value;
use hermes_yamcs::convert::{
    binary_type_hints_for_parameter, command_value_to_yamcs, hermes_value_to_json,
    parse_yamcs_time, split_qualified_name, yamcs_event_to_hermes, yamcs_instance_to_fsw,
    yamcs_param_to_hermes, yamcs_value_to_hermes, BinaryTypeHints,
};
use hermes_yamcs::float::{Float32, Float64};
use hermes_yamcs::hermes::value;
use hermes_yamcs::hermes::{
    ArrayValue, BusFilter, BytesValue, CommandArgument, CommandDef, CommandValue, EnumValue,
    EvrSeverity, FswCapability, NumberKind, ObjectValue, SourceContext, Time, Timestamp, Value,
};
use hermes_yamcs::json::{JsonNumber, JsonValue};
use hermes_yamcs::status::Code;
use hermes_yamcs::string_map::StringMap;
use hermes_yamcs::yamcs;
use hermes_yamcs::yamcs::{
    AggregateValue, EventSeverity, Instance, NamedObjectId, Parameter, ParameterMember,
    ParameterType, ParameterValue,
};

fn with_namespace(namespace: &str, name: &str) -> NamedObjectId {
    NamedObjectId { name: name.to_string(), namespace: Some(namespace.to_string()) }
}

fn parameter_type(
    alias: Vec<NamedObjectId>,
    member: Option<Vec<ParameterMember>>,
) -> ParameterType {
    ParameterType { alias, member }
}

fn parameter(parameter_type: ParameterType) -> Parameter {
    Parameter { parameter_type: Some(parameter_type) }
}

fn text(s: &str) -> yamcs::Value {
    yamcs::Value::String { string_value: s.to_string() }
}

fn binary(s: &str) -> yamcs::Value {
    yamcs::Value::Binary { binary_value: s.to_string() }
}

fn hermes(v: value::Value) -> Value {
    Value { value: Some(v) }
}

fn convert(v: yamcs::Value) -> value::Value {
    yamcs_value_to_hermes(&v, None).expect("should convert").value.expect("should have a value")
}

fn filter(source: &str, names: &[&str]) -> BusFilter {
    BusFilter {
        source: source.to_string(),
        names: names.iter().map(|n| n.to_string()).collect(),
    }
}

#[test]
fn binary_type_hints_read_parameter_and_member_aliases() {
    let hints = binary_type_hints_for_parameter(&parameter(parameter_type(
        vec![with_namespace("fprime:elementType", "F32")],
        Some(vec![ParameterMember {
            name: "samples".to_string(),
            alias: vec![with_namespace("fprime:elementType", "F64")],
        }]),
    )));

    assert_eq!(hints.own_kind, Some(NumberKind::NumberF32));
    assert_eq!(
        hints.member("samples").expect("hints for samples").own_kind,
        Some(NumberKind::NumberF64)
    );
}

#[test]
fn binary_values_fall_back_to_raw_u8_without_a_type_hint() {
    let value = yamcs_value_to_hermes(
        &yamcs::Value::Binary {
            binary_value: "AQI=".to_string(),
        },
        None,
    )
    .expect("binary value should decode");

    let Some(value::Value::R(bytes)) = value.value else {
        panic!("expected a bytes value");
    };
    assert_eq!(bytes.kind, NumberKind::NumberU8);
    assert!(!bytes.big_endian);
    assert_eq!(bytes.value, vec![1, 2]);
}

#[test]
fn split_qualified_name_splits_on_last_slash() {
    let (component, name) = split_qualified_name("/BigData/bigDataComponent/Counter");
    assert_eq!(component, "BigData/bigDataComponent");
    assert_eq!(name, "Counter");
}

#[test]
fn split_qualified_name_with_no_slash_has_empty_component() {
    let (component, name) = split_qualified_name("Counter");
    assert_eq!(component, "");
    assert_eq!(name, "Counter");
}

#[test]
fn split_qualified_name_at_the_edges() {
    let split = |s: &str| split_qualified_name(s);
    assert_eq!(split(""), (String::new(), String::new()));
    assert_eq!(split("///"), (String::new(), String::new()));
    assert_eq!(split("//a"), (String::new(), "a".to_string()));
    assert_eq!(split("/a/"), ("a".to_string(), String::new()));
    assert_eq!(split("a//b"), ("a/".to_string(), "b".to_string()));
    assert_eq!(
        split("/\u{e9}t\u{e9}/\u{3b1}"),
        ("\u{e9}t\u{e9}".to_string(), "\u{3b1}".to_string())
    );
}

#[test]
fn element_types_have_number_kinds() {
    let kinds = [
        ("U8", NumberKind::NumberU8),
        ("I8", NumberKind::NumberI8),
        ("U16", NumberKind::NumberU16),
        ("I16", NumberKind::NumberI16),
        ("U32", NumberKind::NumberU32),
        ("I32", NumberKind::NumberI32),
        ("U64", NumberKind::NumberU64),
        ("I64", NumberKind::NumberI64),
        ("F32", NumberKind::NumberF32),
        ("F64", NumberKind::NumberF64),
    ];
    for (name, kind) in kinds {
        assert_eq!(numeric_kind_from_fprime_name(name), Some(kind));
    }
    assert_eq!(numeric_kind_from_fprime_name("u8"), None);
    assert_eq!(numeric_kind_from_fprime_name(""), None);
}

#[test]
fn first_element_type_alias_decides() {
    let other = with_namespace("MDB:OPS Name", "U16");
    let unknown = with_namespace("fprime:elementType", "Blob");
    let known = with_namespace("fprime:elementType", "U32");
    let unnamed = NamedObjectId { name: "U64".to_string(), namespace: None };
    assert_eq!(
        numeric_kind_from_aliases(&[other.clone(), unnamed, known.clone()]),
        Some(NumberKind::NumberU32)
    );
    assert_eq!(numeric_kind_from_aliases(&[unknown, known]), None);
    assert_eq!(numeric_kind_from_aliases(&[other]), None);
    assert_eq!(numeric_kind_from_aliases(&[]), None);
}

#[test]
fn hints_of_untyped_parameters_are_empty() {
    let hints = binary_type_hints_for_parameter(&Parameter { parameter_type: None });
    assert_eq!(hints.own_kind, None);
    assert!(hints.member("samples").is_none());
    let member = |kind: &str| ParameterMember {
        name: "samples".to_string(),
        alias: vec![with_namespace("fprime:elementType", kind)],
    };
    let untyped = ParameterMember { name: "samples".to_string(), alias: vec![] };
    let hints = binary_type_hints_for_parameter(&parameter(parameter_type(
        vec![],
        Some(vec![member("U8"), member("I8"), untyped]),
    )));
    assert_eq!(hints.own_kind, None);
    // The last member of a name that has a type decides.
    assert_eq!(
        hints.member("samples").expect("hints for samples").own_kind,
        Some(NumberKind::NumberI8)
    );
    assert!(hints.member("other").is_none());
}

#[test]
fn cloned_hints_say_the_same() {
    let hints = binary_type_hints_for_parameter(&parameter(parameter_type(
        vec![with_namespace("fprime:elementType", "U8")],
        Some(vec![ParameterMember {
            name: "samples".to_string(),
            alias: vec![with_namespace("fprime:elementType", "F64")],
        }]),
    )));
    let copy = hints.clone();
    assert_eq!(copy.own_kind, Some(NumberKind::NumberU8));
    assert_eq!(
        copy.member("samples").expect("hints for samples").own_kind,
        Some(NumberKind::NumberF64)
    );
    assert!(copy.member("other").is_none());
    assert!(BinaryTypeHints::default().clone().members.is_none());
}

#[test]
fn binary_values_take_the_hinted_kind() {
    let hints = BinaryTypeHints { own_kind: Some(NumberKind::NumberU16), members: None };
    let value = yamcs_value_to_hermes(&binary("AQI="), Some(&hints)).expect("should decode");
    let Some(value::Value::R(bytes)) = value.value else {
        panic!("expected a bytes value");
    };
    assert_eq!(
        bytes,
        BytesValue { kind: NumberKind::NumberU16, big_endian: true, value: vec![1, 2] }
    );
}

#[test]
fn bad_base64_is_an_invalid_argument() {
    let status = yamcs_value_to_hermes(&binary("A"), None).expect_err("should fail");
    assert_eq!(status.code, Code::InvalidArgument);
    assert_eq!(status.message, "Invalid base64: Invalid input length: 1");
    let status = yamcs_value_to_hermes(&binary("AQ=="), None).map(|_| ());
    assert!(status.is_ok());
    let status = yamcs_value_to_hermes(&binary("AQI"), None).expect_err("should fail");
    assert_eq!(status.message, "Invalid base64: Invalid padding");
}

#[test]
fn decoded_bytes_become_a_value_or_a_status() {
    let value = binary_value(Ok(vec![9]), Some(NumberKind::NumberI8)).expect("a value");
    let Some(value::Value::R(bytes)) = value.value else {
        panic!("expected a bytes value");
    };
    assert_eq!(
        bytes,
        BytesValue { kind: NumberKind::NumberI8, big_endian: true, value: vec![9] }
    );
    let status = binary_value(Err("no".to_string()), None).expect_err("a status");
    assert_eq!(status.message, "Invalid base64: no");
    assert_eq!(status.code, Code::InvalidArgument);
}

#[test]
fn plain_values_keep_what_they_say() {
    assert!(matches!(
        convert(yamcs::Value::Uint32 { uint32_value: u32::MAX }),
        value::Value::U(4294967295)
    ));
    assert!(matches!(
        convert(yamcs::Value::Sint32 { sint32_value: i32::MIN }),
        value::Value::I(-2147483648)
    ));
    assert!(matches!(
        convert(yamcs::Value::Uint64 { uint64_value: u64::MAX }),
        value::Value::U(u64::MAX)
    ));
    assert!(matches!(
        convert(yamcs::Value::Sint64 { sint64_value: i64::MIN }),
        value::Value::I(i64::MIN)
    ));
    assert!(matches!(
        convert(yamcs::Value::Boolean { boolean_value: true }),
        value::Value::B(true)
    ));
    assert!(matches!(
        convert(yamcs::Value::Double { double_value: Float64 { bits: 1.5f64.to_bits() } }),
        value::Value::F(f) if f.bits == 1.5f64.to_bits()
    ));
    assert!(matches!(convert(text("on")), value::Value::S(s) if s == "on"));
    let enumerated = yamcs::Value::Enumerated { string_value: "ON".to_string() };
    assert!(matches!(convert(enumerated), value::Value::S(s) if s == "ON"));
    let none = yamcs_value_to_hermes(&yamcs::Value::NoValue, None).expect("should convert");
    assert!(none.value.is_none());
}

#[test]
fn timestamps_become_decimal_text() {
    for n in [0i64, 7, 10, 1788986684, -1, -90, i64::MAX, i64::MIN] {
        let timestamp = yamcs::Value::Timestamp { timestamp_value: n };
        assert!(matches!(convert(timestamp), value::Value::S(s) if s == n.to_string()));
    }
}

#[test]
fn single_precision_is_widened_exactly() {
    let mut samples: Vec<u32> = vec![
        0,
        1,
        2,
        3,
        0x007f_ffff,
        0x0080_0000,
        0x0080_0001,
        0x7f7f_ffff,
        0x7f80_0000,
        0x3f80_0000,
        0x4049_0fdb,
        0x0040_0000,
        0x0000_1234,
    ];
    for k in 0..23u32 {
        samples.push(1 << k);
        samples.push((1 << k) | 1);
    }
    for bits in samples {
        for sign in [0u32, 0x8000_0000] {
            let single = f32::from_bits(bits | sign);
            let expected = (single as f64).to_bits();
            assert_eq!(Float32 { bits: single.to_bits() }.widen(), Float64 { bits: expected });
            let value = yamcs::Value::Float { float_value: Float32 { bits: single.to_bits() } };
            assert!(matches!(convert(value), value::Value::F(f) if f.bits == expected));
        }
    }
}

#[test]
fn widened_nan_is_a_quiet_nan() {
    for bits in [0x7f80_0001u32, 0x7fc0_0000, 0xffff_ffff, 0x7fa0_0000] {
        let wide = f64::from_bits(Float32 { bits }.widen().bits);
        assert!(wide.is_nan());
        assert_eq!(wide.is_sign_negative(), f32::from_bits(bits).is_sign_negative());
        assert_ne!(wide.to_bits() & 0x0008_0000_0000_0000, 0);
    }
}

#[test]
fn finite_doubles() {
    for f in [0.0f64, -0.0, 1.0, f64::MAX, f64::MIN, f64::MIN_POSITIVE, 5e-324] {
        assert!(Float64 { bits: f.to_bits() }.is_finite());
    }
    for f in [f64::INFINITY, f64::NEG_INFINITY, f64::NAN] {
        assert!(!Float64 { bits: f.to_bits() }.is_finite());
    }
}

fn aggregate(names: &[&str], values: Vec<yamcs::Value>) -> yamcs::Value {
    yamcs::Value::Aggregate {
        aggregate_value: AggregateValue {
            name: names.iter().map(|n| n.to_string()).collect(),
            value: values,
        },
    }
}

#[test]
fn aggregates_become_objects() {
    let hints = binary_type_hints_for_parameter(&parameter(parameter_type(
        vec![with_namespace("fprime:elementType", "F32")],
        Some(vec![ParameterMember {
            name: "samples".to_string(),
            alias: vec![with_namespace("fprime:elementType", "F64")],
        }]),
    )));
    let value = aggregate(
        &["samples", "raw", "twice", "twice", "nameless"],
        vec![
            binary("AQI="),
            binary("AQI="),
            text("first"),
            yamcs::Value::Array { array_value: vec![binary("AQI=")] },
        ],
    );
    let object = yamcs_value_to_hermes(&value, Some(&hints)).expect("should convert");
    let Some(value::Value::O(ObjectValue { o })) = object.value else {
        panic!("expected an object");
    };
    assert_eq!(o.len(), 3);
    let kind_of = |v: &Value| match &v.value {
        Some(value::Value::R(bytes)) => (bytes.kind, bytes.big_endian),
        other => panic!("expected bytes: {:?}", other),
    };
    assert_eq!(kind_of(o.get("samples").unwrap()), (NumberKind::NumberF64, true));
    assert_eq!(kind_of(o.get("raw").unwrap()), (NumberKind::NumberU8, false));
    // The last value of a name stays; items of an array have no hints.
    match &o.get("twice").unwrap().value {
        Some(value::Value::A(array)) => {
            assert_eq!(kind_of(&array.value[0]), (NumberKind::NumberU8, false));
        }
        other => panic!("expected an array: {:?}", other),
    }
    assert!(o.get("nameless").is_none());
}

#[test]
fn first_bad_part_is_reported() {
    let value = aggregate(&["a", "b", "c"], vec![text("x"), binary("A"), binary("AQI")]);
    let status = yamcs_value_to_hermes(&value, None).expect_err("should fail");
    assert_eq!(status.message, "Invalid base64: Invalid input length: 1");
    let array = yamcs::Value::Array { array_value: vec![binary("AQI"), binary("A")] };
    let status = yamcs_value_to_hermes(&array, None).expect_err("should fail");
    assert_eq!(status.message, "Invalid base64: Invalid padding");
    // A value without a name is not looked at.
    let value = aggregate(&["a"], vec![text("x"), binary("A")]);
    assert!(yamcs_value_to_hermes(&value, None).is_ok());
}

fn json(v: Value) -> JsonValue {
    hermes_value_to_json(&v).expect("should have a JSON form")
}

#[test]
fn hermes_values_become_json() {
    assert!(matches!(json(Value { value: None }), JsonValue::Null));
    assert!(matches!(
        json(hermes(value::Value::I(-5))),
        JsonValue::Number(JsonNumber::Signed(-5))
    ));
    assert!(matches!(
        json(hermes(value::Value::U(u64::MAX))),
        JsonValue::Number(JsonNumber::Unsigned(u64::MAX))
    ));
    assert!(matches!(
        json(hermes(value::Value::F(Float64 { bits: 2.5f64.to_bits() }))),
        JsonValue::Number(JsonNumber::Float(f)) if f.bits == 2.5f64.to_bits()
    ));
    assert!(matches!(json(hermes(value::Value::B(false))), JsonValue::Bool(false)));
    assert!(matches!(
        json(hermes(value::Value::S("text".to_string()))),
        JsonValue::String(s) if s == "text"
    ));
    let constant = EnumValue { raw: 3, formatted: "THREE".to_string() };
    assert!(matches!(
        json(hermes(value::Value::E(constant))),
        JsonValue::Number(JsonNumber::Signed(3))
    ));
}

#[test]
fn nested_hermes_values_become_json() {
    let mut o = StringMap::new();
    o.insert("flag".to_string(), hermes(value::Value::B(true)));
    let list = ArrayValue { value: vec![hermes(value::Value::U(1)), Value { value: None }] };
    o.insert("list".to_string(), hermes(value::Value::A(list)));
    let JsonValue::Object(members) = json(hermes(value::Value::O(ObjectValue { o }))) else {
        panic!("expected an object");
    };
    assert_eq!(members.len(), 2);
    assert!(matches!(members.get("flag"), Some(JsonValue::Bool(true))));
    let Some(JsonValue::Array(items)) = members.get("list") else {
        panic!("expected an array");
    };
    assert!(matches!(items[0], JsonValue::Number(JsonNumber::Unsigned(1))));
    assert!(matches!(items[1], JsonValue::Null));
    assert_eq!(items.len(), 2);
}

fn bytes() -> Value {
    hermes(value::Value::R(BytesValue {
        kind: NumberKind::NumberU8,
        big_endian: false,
        value: vec![1],
    }))
}

fn not_a_number() -> Value {
    hermes(value::Value::F(Float64 { bits: f64::NAN.to_bits() }))
}

#[test]
fn values_without_a_json_form() {
    let status = hermes_value_to_json(&not_a_number()).expect_err("should fail");
    assert_eq!(status.code, Code::InvalidArgument);
    assert_eq!(status.message, "Invalid float value");
    let status = hermes_value_to_json(&bytes()).expect_err("should fail");
    assert_eq!(status.code, Code::Unimplemented);
    assert_eq!(status.message, "Bytes conversion not yet implemented");
    let list = ArrayValue { value: vec![Value { value: None }, bytes(), not_a_number()] };
    let status = hermes_value_to_json(&hermes(value::Value::A(list))).expect_err("should fail");
    assert_eq!(status.code, Code::Unimplemented);
    let mut o = StringMap::new();
    o.insert("a".to_string(), not_a_number());
    o.insert("b".to_string(), bytes());
    let object = hermes(value::Value::O(ObjectValue { o }));
    let status = hermes_value_to_json(&object).expect_err("should fail");
    assert_eq!(status.message, "Invalid float value");
}

fn definition(names: &[&str]) -> CommandDef {
    CommandDef {
        arguments: names.iter().map(|n| CommandArgument { name: n.to_string() }).collect(),
    }
}

#[test]
fn command_arguments_go_by_their_names() {
    let mut metadata = StringMap::new();
    metadata.insert("origin".to_string(), "ground".to_string());
    metadata.insert("other".to_string(), "ignored".to_string());
    let command = CommandValue {
        args: vec![hermes(value::Value::U(1)), hermes(value::Value::U(2))],
        metadata,
    };
    let options =
        command_value_to_yamcs(&command, &definition(&["a", "b", "c"])).expect("should convert");
    let args = options.args.expect("should have arguments");
    assert_eq!(args.len(), 2);
    assert!(matches!(
        args.get("a"),
        Some(JsonValue::Number(JsonNumber::Unsigned(1)))
    ));
    assert!(matches!(
        args.get("b"),
        Some(JsonValue::Number(JsonNumber::Unsigned(2)))
    ));
    assert!(args.get("c").is_none());
    assert_eq!(options.origin, Some("ground".to_string()));
    assert_eq!(options.comment, None);
    // The last argument of a name stays.
    let options =
        command_value_to_yamcs(&command, &definition(&["a", "a"])).expect("should convert");
    let args = options.args.expect("should have arguments");
    assert_eq!(args.len(), 1);
    assert!(matches!(
        args.get("a"),
        Some(JsonValue::Number(JsonNumber::Unsigned(2)))
    ));
}

#[test]
fn command_comment_is_copied() {
    let mut metadata = StringMap::new();
    metadata.insert("comment".to_string(), "first".to_string());
    metadata.insert("comment".to_string(), "second".to_string());
    let command = CommandValue { args: vec![], metadata };
    let options = command_value_to_yamcs(&command, &definition(&[])).expect("should convert");
    assert_eq!(options.args.map(|args| args.len()), Some(0));
    assert_eq!(options.origin, None);
    assert_eq!(options.comment, Some("second".to_string()));
}

#[test]
fn command_with_too_many_arguments() {
    let command = CommandValue {
        args: (0..12).map(|i| hermes(value::Value::I(i))).collect(),
        metadata: StringMap::new(),
    };
    let status =
        command_value_to_yamcs(&command, &definition(&["a", "b"])).expect_err("should fail");
    assert_eq!(status.code, Code::InvalidArgument);
    assert_eq!(status.message, "Too many arguments: expected 2, got 12");
    // An argument that cannot be converted is reported before one too many.
    let command = CommandValue {
        args: vec![bytes(), hermes(value::Value::I(1))],
        metadata: StringMap::new(),
    };
    let status = command_value_to_yamcs(&command, &definition(&["a"])).expect_err("should fail");
    assert_eq!(status.code, Code::Unimplemented);
    let status = command_value_to_yamcs(&command, &definition(&[])).expect_err("should fail");
    assert_eq!(status.message, "Too many arguments: expected 0, got 2");
}

fn event(severity: EventSeverity) -> yamcs::Event {
    let mut extra = StringMap::new();
    extra.insert("key".to_string(), "tag".to_string());
    yamcs::Event {
        source: "Ref".to_string(),
        generation_time: "2026-09-09T22:54:58.897Z".to_string(),
        event_type: "Started".to_string(),
        seq_number: 4294967301,
        message: "It started".to_string(),
        severity,
        extra: Some(extra),
    }
}

#[test]
fn events_are_converted() {
    let sourced = yamcs_event_to_hermes(&event(EventSeverity::Watch), &filter("", &[]))
        .expect("should convert")
        .expect("should pass the filter");
    assert_eq!(sourced.source, "Ref");
    assert_eq!(sourced.context, SourceContext::Realtime);
    let event = sourced.event.expect("should have an event");
    assert_eq!(
        event.time,
        Some(Time {
            unix: Some(Timestamp { seconds: 1788994498, nanos: 897_000_000 }),
            sclk: Float64 { bits: 0.0f64.to_bits() },
        })
    );
    assert_eq!(event.message, "It started");
    assert!(event.args.is_empty());
    assert_eq!(event.tags.len(), 1);
    assert!(matches!(
        &event.tags.get("key").unwrap().value,
        Some(value::Value::S(s)) if s == "tag"
    ));
    let reference = event.reference.expect("should have a reference");
    assert_eq!(reference.id, 5); // the low 32 bits
    assert_eq!(reference.name, "Started");
    assert_eq!(reference.component, "Ref");
    assert_eq!(reference.severity, EvrSeverity::EvrActivityHigh);
    assert!(reference.arguments.is_empty());
    assert_eq!(reference.dictionary, "");
}

#[test]
fn event_severities() {
    let time = parse_yamcs_time("1970-01-01T00:00:00Z").expect("should parse");
    let severities = [
        (EventSeverity::Info, EvrSeverity::EvrActivityLow),
        (EventSeverity::Watch, EvrSeverity::EvrActivityHigh),
        (EventSeverity::Warning, EvrSeverity::EvrWarningLow),
        (EventSeverity::Distress, EvrSeverity::EvrWarningHigh),
        (EventSeverity::Critical, EvrSeverity::EvrWarningHigh),
        (EventSeverity::Severe, EvrSeverity::EvrFatal),
        (EventSeverity::Error, EvrSeverity::EvrWarningLow),
    ];
    for (severity, expected) in severities {
        let event = event_at(&event(severity), time).event.unwrap();
        assert_eq!(event.reference.unwrap().severity, expected);
    }
}

#[test]
fn events_are_filtered() {
    let passes = |source: &str, names: &[&str]| {
        yamcs_event_to_hermes(&event(EventSeverity::Info), &filter(source, names))
            .expect("should not fail")
            .is_some()
    };
    assert!(passes("Ref", &[]));
    assert!(!passes("Other", &[]));
    assert!(passes("", &["Stopped", "Started"]));
    assert!(!passes("", &["Stopped"]));
    assert!(!passes("", &["*"]));
    assert!(!passes("Other", &["Started"]));
}

#[test]
fn event_with_a_bad_time() {
    let mut bad = event(EventSeverity::Info);
    bad.generation_time = "soon".to_string();
    bad.extra = None;
    let status = yamcs_event_to_hermes(&bad, &filter("", &[])).expect_err("should fail");
    assert_eq!(status.code, Code::InvalidArgument);
    assert_eq!(status.message, "Invalid timestamp: premature end of input");
    // The filter comes first.
    assert!(yamcs_event_to_hermes(&bad, &filter("Other", &[])).expect("filtered").is_none());
}

fn parameter_value(name: Option<&str>, eng_value: Option<yamcs::Value>) -> ParameterValue {
    ParameterValue {
        id: name.map(|n| NamedObjectId { name: n.to_string(), namespace: None }),
        generation_time: "1970-01-01T00:00:01Z".to_string(),
        eng_value,
    }
}

#[test]
fn parameters_are_converted() {
    let param = parameter_value(
        Some("/BigData/bigDataComponent/Counter"),
        Some(yamcs::Value::Uint32 { uint32_value: 7 }),
    );
    let sourced = yamcs_param_to_hermes(&param, &filter("sim", &[]), None)
        .expect("should convert")
        .expect("should pass the filter");
    assert_eq!(sourced.source, "sim");
    assert_eq!(sourced.context, SourceContext::Realtime);
    let telemetry = sourced.telemetry.expect("should have telemetry");
    assert_eq!(
        telemetry.time.unwrap().unix,
        Some(Timestamp { seconds: 1, nanos: 0 })
    );
    assert!(matches!(telemetry.value.unwrap().value, Some(value::Value::U(7))));
    assert_eq!(telemetry.labels.len(), 0);
    let reference = telemetry.reference.expect("should have a reference");
    assert_eq!(reference.id, 0);
    assert_eq!(reference.component, "BigData/bigDataComponent");
    assert_eq!(reference.name, "Counter");
    assert_eq!(reference.dictionary, "");
}

#[test]
fn parameters_are_filtered() {
    let passes = |names: &[&str]| {
        let param = parameter_value(Some("/a/b"), Some(yamcs::Value::NoValue));
        yamcs_param_to_hermes(&param, &filter("sim", names), None)
            .expect("should not fail")
            .is_some()
    };
    assert!(passes(&[]));
    assert!(passes(&["/a/b"]));
    assert!(passes(&["/c", "*"]));
    assert!(!passes(&["/c"]));
    assert!(!passes(&["b"]));
}

#[test]
fn parameters_without_name_or_value_are_skipped() {
    let any = filter("", &[]);
    let unnamed = parameter_value(None, Some(binary("A")));
    assert!(yamcs_param_to_hermes(&unnamed, &any, None).expect("skipped").is_none());
    let mut empty = parameter_value(Some("/a"), None);
    assert!(yamcs_param_to_hermes(&empty, &any, None).expect("skipped").is_none());
    // The time is read before the value is looked for.
    empty.generation_time = "1970-01-01T00:00:01".to_string();
    let status = yamcs_param_to_hermes(&empty, &any, None).expect_err("should fail");
    assert_eq!(status.message, "Invalid timestamp: premature end of input");
    let bad = parameter_value(Some("/a"), Some(binary("A")));
    let status = yamcs_param_to_hermes(&bad, &any, None).expect_err("should fail");
    assert_eq!(status.message, "Invalid base64: Invalid input length: 1");
}

#[test]
fn parameters_use_their_hints() {
    let hints = binary_type_hints_for_parameter(&parameter(parameter_type(
        vec![with_namespace("fprime:elementType", "U16")],
        None,
    )));
    let param = parameter_value(Some("/a/samples"), Some(binary("AQI=")));
    let sourced = yamcs_param_to_hermes(&param, &filter("", &[]), Some(&hints))
        .expect("should convert")
        .expect("should pass the filter");
    match sourced.telemetry.unwrap().value.unwrap().value {
        Some(value::Value::R(bytes)) => {
            assert_eq!(bytes.kind, NumberKind::NumberU16);
            assert!(bytes.big_endian);
            assert_eq!(bytes.value, vec![1, 2]);
        }
        other => panic!("expected bytes: {:?}", other),
    }
}

#[test]
fn instances_become_flight_software() {
    let fsw = yamcs_instance_to_fsw(&Instance { name: "sim".to_string() });
    assert_eq!(fsw.id, "sim");
    assert_eq!(fsw.fsw_type, "yamcs");
    assert_eq!(fsw.profile_id, "yamcs");
    assert!(fsw.forwards.is_empty());
    assert_eq!(fsw.capabilities, vec![FswCapability::Command]);
    assert_eq!(fsw.dictionary, "sim");
}

#[test]
fn map_keeps_the_last_value_of_a_key() {
    let mut map = StringMap::new();
    map.insert("a".to_string(), 1);
    map.insert("b".to_string(), 2);
    map.insert("a".to_string(), 3);
    assert_eq!(map.len(), 2);
    assert_eq!(map.entry(0), &("a".to_string(), 3));
    assert_eq!(map.entry(1), &("b".to_string(), 2));
    assert_eq!(map.get("a"), Some(&3));
    assert_eq!(map.get("c"), None);
}

#[test]
fn split_parts_make_up_the_name() {
    for name in ["/a/b/c", "a/b", "//a//b", "/x/", "\u{e9}/\u{3b1}"] {
        let (component, last) = split_qualified_name(name);
        assert!(!last.contains('/'));
        assert_eq!(format!("{}/{}", component, last), name.trim_start_matches('/'));
        assert_eq!(split_qualified_name(&format!("/{}", name)), (component, last));
    }
}

#[test]
fn hints_have_no_say_without_binary_values() {
    let hints = BinaryTypeHints { own_kind: Some(NumberKind::NumberF64), members: None };
    let object = yamcs_value_to_hermes(&aggregate(&["a"], vec![text("x")]), Some(&hints));
    let Some(value::Value::O(ObjectValue { o })) = object.expect("should convert").value else {
        panic!("expected an object");
    };
    assert_eq!(o.len(), 1);
    assert!(matches!(&o.get("a").unwrap().value, Some(value::Value::S(s)) if s == "x"));
}

#[test]
fn open_filter_lets_everything_through() {
    let open = filter("", &[]);
    let param = parameter_value(Some("/any"), Some(yamcs::Value::NoValue));
    assert!(yamcs_param_to_hermes(&param, &open, None).expect("should not fail").is_some());
    let event = event(EventSeverity::Severe);
    assert!(yamcs_event_to_hermes(&event, &open).expect("should not fail").is_some());
}
