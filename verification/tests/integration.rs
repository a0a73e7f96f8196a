use simple_config::config::{Config, ConfigField};
use simple_config::shape::TypeShape;
use simple_config::source::{cli_request, tokenize, CliRequest};
use simple_config::value::ConfigValue;

fn toks(parts: &[&str]) -> Vec<String> {
    parts.iter().map(|s| s.to_string()).collect()
}

fn field(name: &str, shape: TypeShape, value: ConfigValue) -> ConfigField {
    ConfigField { name: name.to_string(), shape, value }
}

fn i32_val(n: i32) -> ConfigValue {
    ConfigValue::I32Val { n }
}

fn string_val(s: &str) -> ConfigValue {
    ConfigValue::StringVal { s: s.to_string() }
}

fn test_config() -> Config {
    Config::new(vec![
        field(
            "float_value",
            TypeShape::F64Type,
            ConfigValue::F64Val { text: "42.0".to_string() },
        ),
        field("int_value", TypeShape::I32Type, i32_val(69)),
        field("string_value", TypeShape::StringType, string_val("420")),
        field(
            "custom_enum",
            TypeShape::EnumType {
                name: "TestConfigEnum".to_string(),
                variants: vec![
                    "Value".to_string(),
                    "OtherValue".to_string(),
                    "ThirdValue".to_string(),
                ],
            },
            ConfigValue::EnumVal { index: 0 },
        ),
        field(
            "custom_struct",
            TypeShape::CustomType {
                params: "one value or another value".to_string(),
                parts: vec![TypeShape::I32Type],
            },
            ConfigValue::CustomVal { parts: vec![i32_val(0)] },
        ),
        field(
            "int_vector",
            TypeShape::VecType { elem: Box::new(TypeShape::I32Type) },
            ConfigValue::VecVal { elems: vec![i32_val(32), i32_val(45), i32_val(11)] },
        ),
        field(
            "string_vector",
            TypeShape::VecType { elem: Box::new(TypeShape::StringType) },
            ConfigValue::VecVal {
                elems: vec![string_val("1"), string_val("2"), string_val("3")],
            },
        ),
    ])
}

fn get_i32(c: &Config, name: &str) -> i32 {
    match c.get(name) {
        Some(ConfigValue::I32Val { n }) => *n,
        other => panic!("expected an i32 for {}, got {:?}", name, other),
    }
}

fn get_f64(c: &Config, name: &str) -> f64 {
    match c.get(name) {
        Some(ConfigValue::F64Val { text }) => text.parse().expect("stored float text is valid"),
        other => panic!("expected an f64 for {}, got {:?}", name, other),
    }
}

fn get_string(c: &Config, name: &str) -> String {
    match c.get(name) {
        Some(ConfigValue::StringVal { s }) => s.clone(),
        other => panic!("expected a string for {}, got {:?}", name, other),
    }
}

fn get_enum_index(c: &Config, name: &str) -> usize {
    match c.get(name) {
        Some(ConfigValue::EnumVal { index }) => *index,
        other => panic!("expected an enum for {}, got {:?}", name, other),
    }
}

fn get_vec<'a>(c: &'a Config, name: &str) -> &'a Vec<ConfigValue> {
    match c.get(name) {
        Some(ConfigValue::VecVal { elems }) => elems,
        other => panic!("expected a vector for {}, got {:?}", name, other),
    }
}

fn get_custom<'a>(c: &'a Config, name: &str) -> &'a Vec<ConfigValue> {
    match c.get(name) {
        Some(ConfigValue::CustomVal { parts }) => parts,
        other => panic!("expected a composite for {}, got {:?}", name, other),
    }
}

fn as_i32(v: &ConfigValue) -> i32 {
    match v {
        ConfigValue::I32Val { n } => *n,
        other => panic!("expected an i32 element, got {:?}", other),
    }
}

fn as_string(v: &ConfigValue) -> String {
    match v {
        ConfigValue::StringVal { s } => s.clone(),
        other => panic!("expected a string element, got {:?}", other),
    }
}

fn assert_full_parse(config: &Config) {
    assert_eq!(get_i32(config, "int_value"), 420);
    assert_eq!(get_f64(config, "float_value"), 42.0);
    assert_eq!(get_string(config, "string_value"), "69");
    assert_eq!(get_enum_index(config, "custom_enum"), 2);
    let custom = get_custom(config, "custom_struct");
    let one_value = as_i32(&custom[0]);
    assert_eq!(one_value, 42);
    let other_value = one_value as f32 * 3.0;
    assert_eq!(other_value, 42.0 as f32 * 3.0);
    let int_vector = get_vec(config, "int_vector");
    assert_eq!(int_vector.len(), 3);
    assert_eq!(as_i32(&int_vector[0]), 69);
    assert_eq!(as_i32(&int_vector[1]), 420);
    assert_eq!(as_i32(&int_vector[2]), 42);
    let string_vector = get_vec(config, "string_vector");
    assert_eq!(string_vector.len(), 2);
    assert_eq!(as_string(&string_vector[0]), "moin");
    assert_eq!(as_string(&string_vector[1]), "meister");
}

#[test]
fn test_parse() {
    let mut config = test_config();
    let source = toks(&[
        "custom_struct",
        "420",
        "string_value",
        "69",
        "int_value",
        "420",
        "custom_enum",
        "ThirdValue",
        "custom_struct",
        "42",
        "int_vector",
        "[",
        "69",
        "420",
        "42",
        "]",
        "string_vector",
        "[",
        "moin",
        "meister",
        "]",
    ]);
    config.add_source(&source).expect("could not parse");
    assert_full_parse(&config);
}

#[test]
fn test_parse_file() {
    let mut config = test_config();
    let content = "\n        # test comment \n custom_struct = 420\n string_value = 69\n \
                   int_value = 420\n custom_enum = ThirdValue\n custom_struct  = 42\n \
                   int_vector = [ 69 420 42 ]\n string_vector = [ moin meister ]\n    ";
    let source = tokenize(content);
    config.add_source(&source).expect("could not parse");
    assert_full_parse(&config);
}

#[test]
fn test_help() {
    assert_eq!(
        test_config().get_help(),
        [
            "List of arguments with their respective parameters:",
            "float_value <f64>",
            "int_value <i32>",
            "string_value <String>",
            "custom_enum <Value|OtherValue|ThirdValue>",
            "custom_struct <one value or another value>",
            "int_vector [ <i32> ... ]",
            "string_vector [ <String> ... ]",
        ]
        .join("\n")
    );
}

#[test]
fn overwrite_last_value_wins() {
    let mut config = test_config();
    config
        .add_source(&toks(&["int_value", "1", "int_value", "2"]))
        .expect("could not parse");
    assert_eq!(get_i32(&config, "int_value"), 2);
}

#[test]
fn unmentioned_fields_preserved() {
    let mut config = test_config();
    config.add_source(&toks(&["int_value", "7"])).expect("could not parse");
    assert_eq!(get_i32(&config, "int_value"), 7);
    assert_eq!(get_f64(&config, "float_value"), 42.0);
    assert_eq!(get_string(&config, "string_value"), "420");
    assert_eq!(get_enum_index(&config, "custom_enum"), 0);
    let int_vector = get_vec(&config, "int_vector");
    assert_eq!(
        vec![as_i32(&int_vector[0]), as_i32(&int_vector[1]), as_i32(&int_vector[2])],
        vec![32, 45, 11]
    );
}

#[test]
fn empty_source_changes_nothing() {
    let mut config = test_config();
    config.add_source(&toks(&[])).expect("could not parse");
    assert_eq!(get_i32(&config, "int_value"), 69);
    assert_eq!(get_string(&config, "string_value"), "420");
}

#[test]
fn vector_scenario() {
    let mut config = Config::new(vec![field(
        "v",
        TypeShape::VecType { elem: Box::new(TypeShape::I32Type) },
        ConfigValue::VecVal { elems: vec![] },
    )]);
    config.add_source(&toks(&["v", "[", "1", "2", "3", "]"])).expect("could not parse");
    let v = get_vec(&config, "v");
    assert_eq!(vec![as_i32(&v[0]), as_i32(&v[1]), as_i32(&v[2])], vec![1, 2, 3]);
    assert_eq!(v.len(), 3);
}

#[test]
fn vector_of_composites() {
    let pair = TypeShape::CustomType {
        params: "two ints".to_string(),
        parts: vec![TypeShape::I32Type, TypeShape::I32Type],
    };
    let mut config = Config::new(vec![field(
        "pairs",
        TypeShape::VecType { elem: Box::new(pair) },
        ConfigValue::VecVal { elems: vec![] },
    )]);
    config
        .add_source(&toks(&["pairs", "[", "1", "2", "3", "4", "]"]))
        .expect("could not parse");
    let v = get_vec(&config, "pairs");
    assert_eq!(v.len(), 2);
    match (&v[0], &v[1]) {
        (ConfigValue::CustomVal { parts: p0 }, ConfigValue::CustomVal { parts: p1 }) => {
            assert_eq!(vec![as_i32(&p0[0]), as_i32(&p0[1])], vec![1, 2]);
            assert_eq!(vec![as_i32(&p1[0]), as_i32(&p1[1])], vec![3, 4]);
        },
        other => panic!("expected composite elements, got {:?}", other),
    }
}

#[test]
fn enum_exact_match() {
    let mut config = test_config();
    config.add_source(&toks(&["custom_enum", "ThirdValue"])).expect("could not parse");
    assert_eq!(get_enum_index(&config, "custom_enum"), 2);
    let err = config
        .add_source(&toks(&["custom_enum", "thirdvalue"]))
        .expect_err("wrong case must be rejected");
    assert_eq!(err, "Invalid value for enum TestConfigEnum: thirdvalue");
    assert_eq!(get_enum_index(&config, "custom_enum"), 2);
}

#[test]
fn partial_assignments_kept_on_unknown_field() {
    let mut config = Config::new(vec![
        field("int_value", TypeShape::I32Type, i32_val(0)),
        field("float_value", TypeShape::F64Type, ConfigValue::F64Val { text: "0".to_string() }),
    ]);
    let err = config
        .add_source(&toks(&["int_value", "420", "float_value", "42.0", "bad_field", "x"]))
        .expect_err("unknown field must fail");
    assert_eq!(err, "Invalid setting: bad_field");
    assert_eq!(get_i32(&config, "int_value"), 420);
    assert_eq!(get_f64(&config, "float_value"), 42.0);
}

#[test]
fn file_comments_and_blanks_are_dropped() {
    let source = tokenize("# ignore me\n\nkey = value");
    assert_eq!(source, vec!["key".to_string(), "value".to_string()]);
}

#[test]
fn tokenize_splits_and_trims() {
    assert_eq!(
        tokenize("  a =b\tc \r\n   # comment\n\n d==e"),
        vec!["a", "b", "c", "d", "e"]
            .into_iter()
            .map(|s| s.to_string())
            .collect::<Vec<String>>()
    );
    assert_eq!(tokenize(""), Vec::<String>::new());
    assert_eq!(tokenize("   \n\t\n"), Vec::<String>::new());
}

#[test]
fn help_is_idempotent() {
    let config = test_config();
    assert_eq!(config.get_help(), config.get_help());
}

#[test]
fn help_unchanged_by_parsing() {
    let mut config = test_config();
    let before = config.get_help();
    config.add_source(&toks(&["int_value", "5"])).expect("could not parse");
    assert_eq!(config.get_help(), before);
}

#[test]
fn help_for_scalars_and_nested_vectors() {
    let config = Config::new(vec![
        field("b", TypeShape::BoolType, ConfigValue::BoolVal { b: false }),
        field("u", TypeShape::U32Type, ConfigValue::U32Val { n: 0 }),
        field("w", TypeShape::U64Type, ConfigValue::U64Val { n: 0 }),
        field("l", TypeShape::I64Type, ConfigValue::I64Val { n: 0 }),
        field("f", TypeShape::F32Type, ConfigValue::F32Val { text: "0".to_string() }),
        field(
            "m",
            TypeShape::VecType {
                elem: Box::new(TypeShape::VecType { elem: Box::new(TypeShape::I32Type) }),
            },
            ConfigValue::VecVal { elems: vec![] },
        ),
    ]);
    assert_eq!(
        config.get_help(),
        [
            "List of arguments with their respective parameters:",
            "b <bool>",
            "u <u32>",
            "w <u64>",
            "l <i64>",
            "f <f32>",
            "m [ [ <i32> ... ] ... ]",
        ]
        .join("\n")
    );
}

#[test]
fn missing_value_error() {
    let mut config = test_config();
    let err = config.add_source(&toks(&["string_value"])).expect_err("missing value");
    assert_eq!(err, "Missing value for string_value");
}

#[test]
fn malformed_int_error() {
    let mut config = test_config();
    let err = config.add_source(&toks(&["int_value", "abc"])).expect_err("malformed int");
    assert_eq!(err, "could not parse value of type i32 for field int_value: abc");
    assert_eq!(get_i32(&config, "int_value"), 69);
}

#[test]
fn missing_enum_value_error() {
    let mut config = test_config();
    let err = config.add_source(&toks(&["custom_enum"])).expect_err("missing enum value");
    assert_eq!(err, "Missing enum value for TestConfigEnum");
}

#[test]
fn unterminated_vector_error() {
    let mut config = test_config();
    let err = config
        .add_source(&toks(&["int_vector", "[", "1", "2"]))
        .expect_err("unterminated vector");
    assert_eq!(err, "Vector int_vector must end with a space followed by a ]");
}

#[test]
fn vector_without_start_marker_error() {
    let mut config = test_config();
    let err = config.add_source(&toks(&["int_vector"])).expect_err("missing start marker");
    assert_eq!(err, "Vector int_vector must start with a [ followed by a space");
}

#[test]
fn lenient_vector_start_marker() {
    // The start-marker token is consumed but its text is not checked.
    let mut config = test_config();
    config
        .add_source(&toks(&["int_vector", "anything", "5", "]"]))
        .expect("could not parse");
    let v = get_vec(&config, "int_vector");
    assert_eq!(v.len(), 1);
    assert_eq!(as_i32(&v[0]), 5);
}

#[test]
fn nested_error_propagates() {
    let mut config = test_config();
    let err = config
        .add_source(&toks(&["int_vector", "[", "1", "x", "]"]))
        .expect_err("malformed element");
    assert_eq!(err, "could not parse value of type i32 for field int_vector: x");
    let err = config
        .add_source(&toks(&["custom_struct", "oops"]))
        .expect_err("malformed part");
    assert_eq!(err, "could not parse value of type i32 for field custom_struct: oops");
}

#[test]
fn malformed_float_error() {
    let mut config = test_config();
    let err = config.add_source(&toks(&["float_value", "4x2"])).expect_err("malformed float");
    assert_eq!(err, "could not parse value of type f64 for field float_value: 4x2");
}

#[test]
fn integer_bounds() {
    let mut config = Config::new(vec![
        field("i", TypeShape::I32Type, i32_val(0)),
        field("l", TypeShape::I64Type, ConfigValue::I64Val { n: 0 }),
        field("u", TypeShape::U32Type, ConfigValue::U32Val { n: 0 }),
        field("w", TypeShape::U64Type, ConfigValue::U64Val { n: 0 }),
    ]);
    config.add_source(&toks(&["i", "2147483647"])).expect("i32 max fits");
    config.add_source(&toks(&["i", "-2147483648"])).expect("i32 min fits");
    config.add_source(&toks(&["i", "2147483648"])).expect_err("i32 overflow");
    config.add_source(&toks(&["i", "+5"])).expect("plus sign accepted");
    assert_eq!(get_i32(&config, "i"), 5);
    config.add_source(&toks(&["l", "-9223372036854775808"])).expect("i64 min fits");
    config.add_source(&toks(&["l", "9223372036854775808"])).expect_err("i64 overflow");
    config.add_source(&toks(&["u", "-1"])).expect_err("u32 rejects sign");
    config.add_source(&toks(&["u", "4294967295"])).expect("u32 max fits");
    config.add_source(&toks(&["w", "18446744073709551615"])).expect("u64 max fits");
    config.add_source(&toks(&["w", "18446744073709551616"])).expect_err("u64 overflow");
    match config.get("w") {
        Some(ConfigValue::U64Val { n }) => assert_eq!(*n, 18446744073709551615),
        other => panic!("expected a u64, got {:?}", other),
    }
    config.add_source(&toks(&["i", ""])).expect_err("empty token");
    config.add_source(&toks(&["i", "+"])).expect_err("sign alone");
    config.add_source(&toks(&["i", "1_000"])).expect_err("no digit separators");
}

#[test]
fn bool_values() {
    let mut config = Config::new(vec![field(
        "b",
        TypeShape::BoolType,
        ConfigValue::BoolVal { b: false },
    )]);
    config.add_source(&toks(&["b", "true"])).expect("true parses");
    match config.get("b") {
        Some(ConfigValue::BoolVal { b }) => assert!(*b),
        other => panic!("expected a bool, got {:?}", other),
    }
    config.add_source(&toks(&["b", "false"])).expect("false parses");
    match config.get("b") {
        Some(ConfigValue::BoolVal { b }) => assert!(!*b),
        other => panic!("expected a bool, got {:?}", other),
    }
    config.add_source(&toks(&["b", "True"])).expect_err("case matters");
    config.add_source(&toks(&["b", "1"])).expect_err("not a bool");
}

#[test]
fn float_text_grammar() {
    let mut config = test_config();
    for ok in [
        "0", "42.0", "3.", ".5", "1e5", "1E5", "1.5e-3", "2e+10", "inf", "-inf", "Infinity",
        "NaN", "-nan", "+1.0",
    ] {
        config
            .add_source(&toks(&["float_value", ok]))
            .unwrap_or_else(|e| panic!("{} should parse: {}", ok, e));
        match config.get("float_value") {
            Some(ConfigValue::F64Val { text }) => {
                assert_eq!(text, ok);
                let _: f64 = text.parse().expect("accepted text converts");
            },
            other => panic!("expected an f64, got {:?}", other),
        }
    }
    for bad in [".", "e5", "1e", "1e+", "abc", "1.2.3", "--1.0", "1_000.0", "0x1p3"] {
        config
            .add_source(&toks(&["float_value", bad]))
            .expect_err("malformed float text");
        assert!(bad.parse::<f64>().is_err());
    }
}

#[test]
fn string_value_taken_verbatim() {
    let mut config = test_config();
    config.add_source(&toks(&["string_value", "--weird=#value"])).expect("could not parse");
    assert_eq!(get_string(&config, "string_value"), "--weird=#value");
}

#[test]
fn cli_help_request() {
    match cli_request(&toks(&["--help"])) {
        CliRequest::Help => {},
        other => panic!("expected a help request, got {:?}", other),
    }
    match cli_request(&toks(&["help", "whatever"])) {
        CliRequest::Help => {},
        other => panic!("expected a help request, got {:?}", other),
    }
}

#[test]
fn cli_strips_leading_dashes() {
    match cli_request(&toks(&["--int_value", "5", "----x", "a--b"])) {
        CliRequest::Tokens { toks: t } => {
            assert_eq!(t, vec!["int_value", "5", "x", "a--b"]);
        },
        other => panic!("expected tokens, got {:?}", other),
    }
    match cli_request(&toks(&[])) {
        CliRequest::Tokens { toks: t } => assert_eq!(t, Vec::<String>::new()),
        other => panic!("expected tokens, got {:?}", other),
    }
}

#[test]
fn get_unknown_field_is_none() {
    let config = test_config();
    assert!(config.get("no_such_field").is_none());
}

#[test]
fn scalar_fields_parse() {
    let mut config = Config::new(vec![
        field("b", TypeShape::BoolType, ConfigValue::BoolVal { b: false }),
        field("u", TypeShape::U32Type, ConfigValue::U32Val { n: 0 }),
        field("w", TypeShape::U64Type, ConfigValue::U64Val { n: 0 }),
        field("l", TypeShape::I64Type, ConfigValue::I64Val { n: 0 }),
        field("f", TypeShape::F32Type, ConfigValue::F32Val { text: "0".to_string() }),
    ]);
    config
        .add_source(&toks(&[
            "b",
            "true",
            "u",
            "7",
            "w",
            "1234567890123",
            "l",
            "-42",
            "f",
            "2.5",
        ]))
        .expect("could not parse");
    match config.get("u") {
        Some(ConfigValue::U32Val { n }) => assert_eq!(*n, 7),
        other => panic!("expected a u32, got {:?}", other),
    }
    match config.get("w") {
        Some(ConfigValue::U64Val { n }) => assert_eq!(*n, 1234567890123),
        other => panic!("expected a u64, got {:?}", other),
    }
    match config.get("l") {
        Some(ConfigValue::I64Val { n }) => assert_eq!(*n, -42),
        other => panic!("expected an i64, got {:?}", other),
    }
    match config.get("f") {
        Some(ConfigValue::F32Val { text }) => {
            let x: f32 = text.parse().expect("valid float text");
            assert_eq!(x, 2.5f32);
        },
        other => panic!("expected an f32, got {:?}", other),
    }
}
