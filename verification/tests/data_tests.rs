//! The parameter value model, the builders and the registry.
use predikit::data::{ChkParamType, FParamsBuilder, ParsedDuration};
use predikit::params::{ChkActualParam, ContentAddress, NamedType};
use predikit::tokens::{parse_duration_str, strip_parens_and_trim, strip_quotes};

#[test]
fn test_param_builder() {
    let params = FParamsBuilder::new()
        .add_param("hello", ChkParamType::PkString)
        .required()
        .finish_param()
        .add_param("world", ChkParamType::PkInt)
        .not_required()
        .finish_param()
        .build();

    println!("{:#?}", params);
    assert!(params.contains_key("hello"));
    assert!(params.contains_key("world"));

    if let Some(param) = params.get("hello") {
        assert_eq!(param.param_type, ChkParamType::PkString);
        assert!(param.required);
    }

    if let Some(param) = params.get("world") {
        assert_eq!(param.param_type, ChkParamType::PkInt);
        assert!(!param.required);
    }
}

#[test]
fn test_str_stripping() {
    assert_eq!(
        "test".to_string(),
        strip_parens_and_trim(&"(test)".to_string())
    );
    assert_eq!(
        "test".to_string(),
        strip_quotes(&"\"test\"".to_string())
    );
}

#[test]
fn test_parse_duration_str() {
    let input = "10d 9h 4m 6s".to_string();
    let result = parse_duration_str(&input);
    assert!(result.is_some());
    let duration = result.unwrap();
    assert_eq!(duration.duration_str, "10d 9h 4m 6s");
    // 10 days, 9 hours, 4 minutes and 6 seconds, in nanoseconds.
    assert_eq!(duration.duration, 896_646_000_000_000u64);

    let invalid = "invalid duration".to_string();
    let result = parse_duration_str(&invalid);
    assert!(result.is_none());
}

// Every value renders for diagnostics and templates: text as itself,
// numbers in decimal, a duration as its unparsed text.
#[test]
fn value_rendering() {
    let ca = ContentAddress::new(0, 0);
    assert_eq!(
        ChkActualParam::new_int("n".to_string(), -12045, ca).value_as_string(),
        "-12045".to_string()
    );
    assert_eq!(
        ChkActualParam::new_int("n".to_string(), 0, ca).value_as_string(),
        "0".to_string()
    );
    assert_eq!(
        ChkActualParam::new_bool("b".to_string(), true, ca).value_as_string(),
        "true".to_string()
    );
    assert_eq!(
        ChkActualParam::new_string("s".to_string(), "plain".to_string(), ca).value_as_string(),
        "plain".to_string()
    );
    assert_eq!(
        ChkActualParam::new_duration(
            "d".to_string(),
            ParsedDuration::new(10_000_000_000, "10s".to_string()),
            ca
        )
        .value_as_string(),
        "10s".to_string()
    );
    assert_eq!(
        ChkActualParam::new_named_type("t".to_string(), NamedType::PtnInt, ca).value_as_string(),
        "PtnInt".to_string()
    );
}

// A `Path` formal accepts `String` and `Path` values and nothing else; the
// helper deciding it is the heart of path coercion.
#[test]
fn path_coercion_tags() {
    let ca = ContentAddress::new(0, 0);
    assert!(ChkActualParam::new_string("p".to_string(), "x".to_string(), ca)
        .is_coercible_to_path());
    assert!(ChkActualParam::new_path("p".to_string(), "x".to_string(), ca)
        .is_coercible_to_path());
    assert!(!ChkActualParam::new_int("p".to_string(), 3, ca).is_coercible_to_path());
    assert!(!ChkActualParam::new_bool("p".to_string(), true, ca).is_coercible_to_path());
}

// Type labels as diagnostics print them.
#[test]
fn type_labels() {
    let ca = ContentAddress::new(0, 0);
    assert_eq!(
        ChkActualParam::new_string("x".to_string(), "v".to_string(), ca).type_label(),
        "String".to_string()
    );
    assert_eq!(ChkActualParam::new_int("x".to_string(), 1, ca).type_label(), "Int".to_string());
    assert_eq!(ChkParamType::PkPath.type_label(), "Path");
    assert_eq!(ChkParamType::PkDuration.type_label(), "Duration");
}

// Environment references in a path expand at read time; text without a
// reference comes back unchanged, and `${...}` forms disappear into their
// values.
#[test]
fn path_expansion() {
    let ca = ContentAddress::new(0, 0);
    let plain = ChkActualParam::new_path("p".to_string(), "/a/plain/path".to_string(), ca);
    assert_eq!(plain.get_path(), Ok("/a/plain/path".to_string()));

    let with_var = ChkActualParam::new_path("p".to_string(), "${PATH}/x".to_string(), ca);
    let expanded = with_var.get_path().unwrap();
    assert!(!expanded.contains("${"));
    assert!(expanded.ends_with("/x"));

    // An unset variable expands to nothing.
    let unset = ChkActualParam::new_path(
        "p".to_string(),
        "/a/${NO_SUCH_VARIABLE_IS_SET_HERE}/b".to_string(),
        ca,
    );
    assert_eq!(unset.get_path(), Ok("/a//b".to_string()));

    // A string value is taken as it is, references and all.
    let s = ChkActualParam::new_string("p".to_string(), "${PATH}/x".to_string(), ca);
    assert_eq!(s.get_path(), Ok("${PATH}/x".to_string()));
}
