use brpgen::classify::{classify_params, GenError, ParameterDescriptor};
use brpgen::emit::{call_mode_for, CallMode};
use brpgen::extract::{extract_signatures, FunctionSignature};

fn classify(raw: &str) -> Result<Vec<ParameterDescriptor>, GenError> {
    classify_params(&raw.as_bytes().to_vec())
}

fn desc(d: &ParameterDescriptor) -> (String, String, u32) {
    (
        String::from_utf8(d.name.clone()).unwrap(),
        String::from_utf8(d.base_type.clone()).unwrap(),
        d.indirection,
    )
}

#[test]
fn test_value_parameter_is_level_zero() {
    let ds = classify("x: c_uint").unwrap();
    assert_eq!(ds.len(), 1);
    assert_eq!(desc(&ds[0]), ("x".to_string(), "c_uint".to_string(), 0));
}

#[test]
fn test_single_marker_is_level_one() {
    let ds = classify("buf: brp_buf *").unwrap();
    assert_eq!(ds.len(), 1);
    assert_eq!(desc(&ds[0]).2, 1);
}

#[test]
fn test_double_marker_is_level_two() {
    let ds = classify("buf: brp_buf * *").unwrap();
    assert_eq!(ds.len(), 1);
    assert_eq!(desc(&ds[0]).2, 2);
}

#[test]
fn test_triple_marker_fails_loudly() {
    assert_eq!(classify("buf: brp_buf * * *"), Err(GenError::UnsupportedIndirection));
}

#[test]
fn test_declaration_order_is_preserved() {
    let ds = classify("a: t1, b: t2, c: t3").unwrap();
    let names: Vec<String> = ds.iter().map(|d| desc(d).0).collect();
    assert_eq!(names, vec!["a".to_string(), "b".to_string(), "c".to_string()]);
}

#[test]
fn test_trailing_separator_fragment_is_dropped() {
    let ds = classify("a: t1,").unwrap();
    assert_eq!(ds.len(), 1);
}

#[test]
fn test_embedded_newline_is_normalized_away() {
    let ds = classify("buf:\n  brp_\nbuf *").unwrap();
    assert_eq!(ds.len(), 1);
    assert_eq!(desc(&ds[0]), ("buf".to_string(), "*".to_string(), 1));
}

#[test]
fn test_rightmost_token_is_base_type() {
    let ds = classify("n: unsigned int").unwrap();
    assert_eq!(desc(&ds[0]), ("n".to_string(), "int".to_string(), 1));
}

#[test]
fn test_missing_colon_is_parse_error() {
    assert_eq!(classify("just_a_name"), Err(GenError::GenerationParse));
}

#[test]
fn test_missing_type_is_parse_error() {
    assert_eq!(classify("x:"), Err(GenError::GenerationParse));
}

#[test]
fn test_bad_name_is_parse_error() {
    assert_eq!(classify("a b: c_uint"), Err(GenError::GenerationParse));
}

#[test]
fn test_empty_list_classifies_to_nothing() {
    assert_eq!(classify("").unwrap().len(), 0);
}

#[test]
fn test_call_mode_depth_matches_level() {
    let ds = classify("a: t, b: t *, c: t * *").unwrap();
    let modes: Vec<CallMode> = ds.iter().map(call_mode_for).collect();
    assert_eq!(
        modes,
        vec![CallMode::ValueRead, CallMode::StorageAddress, CallMode::StorageAddressPtrPtr]
    );
    for (d, m) in ds.iter().zip(modes.iter()) {
        let depth: u32 = match m {
            CallMode::ValueRead => 0,
            CallMode::StorageAddress => 1,
            CallMode::StorageAddressPtrPtr => 2,
        };
        assert_eq!(depth, d.indirection);
    }
}

#[test]
fn test_extractor_captures_name_and_raw_params() {
    let sigs: Vec<FunctionSignature> = extract_signatures(
        &"brp_open(protocol: brp_protocol) -> brp_errcode".as_bytes().to_vec(),
        &"brp_errcode".as_bytes().to_vec(),
    )
    .unwrap();
    assert_eq!(sigs.len(), 1);
    assert_eq!(String::from_utf8(sigs[0].name.clone()).unwrap(), "brp_open");
    assert_eq!(
        String::from_utf8(sigs[0].raw_params.clone()).unwrap(),
        "protocol: brp_protocol"
    );
}

#[test]
fn test_extractor_skips_other_return_types() {
    let sigs = extract_signatures(
        &"helper(x: c_uint) -> c_int\nreal(x: c_uint) -> brp_errcode\n".as_bytes().to_vec(),
        &"brp_errcode".as_bytes().to_vec(),
    )
    .unwrap();
    assert_eq!(sigs.len(), 1);
    assert_eq!(String::from_utf8(sigs[0].name.clone()).unwrap(), "real");
}
