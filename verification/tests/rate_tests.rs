use timecode_previews::errors::PipelineError;
use timecode_previews::rate::{parse_rate, resolve_rate};

#[test]
fn fraction_rate_floors_quotient() {
    assert_eq!(parse_rate("24000/1001"), Ok(23));
    assert_eq!(parse_rate("30000/1001"), Ok(29));
    assert_eq!(parse_rate("25/2"), Ok(12));
    assert_eq!(parse_rate("24/1"), Ok(24));
}

#[test]
fn bare_integer_rate_is_its_value() {
    assert_eq!(parse_rate("24"), Ok(24));
    assert_eq!(parse_rate("30"), Ok(30));
    assert_eq!(parse_rate("0"), Ok(0));
}

#[test]
fn malformed_rate_fields_fail_to_parse() {
    assert_eq!(parse_rate(""), Err(PipelineError::Parse));
    assert_eq!(parse_rate("abc"), Err(PipelineError::Parse));
    assert_eq!(parse_rate("24/"), Err(PipelineError::Parse));
    assert_eq!(parse_rate("/1001"), Err(PipelineError::Parse));
    assert_eq!(parse_rate("24.5"), Err(PipelineError::Parse));
    assert_eq!(parse_rate("24000/0"), Err(PipelineError::Parse));
}

#[test]
fn rate_values_beyond_u32_fail_to_parse() {
    assert_eq!(parse_rate("4294967295"), Ok(u32::MAX));
    assert_eq!(parse_rate("4294967296"), Err(PipelineError::Parse));
    assert_eq!(parse_rate("99999999999999999999/3"), Err(PipelineError::Parse));
}

#[test]
fn extra_fraction_parts_are_ignored() {
    // The field is split on '/' and only the first two parts are read.
    assert_eq!(parse_rate("1/2/3"), Ok(0));
    assert_eq!(parse_rate("48/2/0"), Ok(24));
}

#[test]
fn fallback_happens_exactly_on_the_sentinel() {
    assert_eq!(resolve_rate("0/0", Some("24000/1001")), Ok(23));
    assert_eq!(resolve_rate("24000/1001", Some("0/0")), Ok(23));
    assert_eq!(resolve_rate("30", Some("not even a rate")), Ok(30));
    assert_eq!(
        resolve_rate("not even a rate", Some("30")),
        Err(PipelineError::Parse)
    );
}

#[test]
fn sentinel_without_second_stream_is_an_index_failure() {
    assert_eq!(resolve_rate("0/0", None), Err(PipelineError::Index));
    assert_eq!(resolve_rate("24", None), Ok(24));
}
