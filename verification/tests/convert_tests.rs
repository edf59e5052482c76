use timecode_previews::errors::PipelineError;
use timecode_previews::convert::{convert_timecode, format_timecodes};

#[test]
fn conversion_at_24_renders_the_expected_runtime() {
    // 01:02:03:04 at 24 fps is 89356 frames = 3723 + 4/24 seconds.
    assert_eq!(
        convert_timecode("01:02:03:04", 24),
        Ok("01:02:03.167".to_string())
    );
}

#[test]
fn conversion_at_30_renders_the_expected_runtime() {
    // 01:02:03:04 at 30 fps is 3723 + 4/30 seconds.
    assert_eq!(
        convert_timecode("01:02:03:04", 30),
        Ok("01:02:03.133".to_string())
    );
}

#[test]
fn rate_25_selects_the_24_timebase() {
    // The enumeration sends 25 to the 24 timebase; both convert alike.
    assert_eq!(
        convert_timecode("01:02:03:04", 25),
        convert_timecode("01:02:03:04", 24)
    );
}

#[test]
fn conversion_is_a_pure_function_of_token_and_rate() {
    let first = convert_timecode("00:00:10:00", 29);
    let second = convert_timecode("00:00:10:00", 29);
    assert_eq!(first, second);
    assert!(first.is_ok());
}

#[test]
fn unsupported_rates_fail_before_any_token_is_read() {
    assert_eq!(
        format_timecodes(&vec!["01:02:03:04".to_string()], 31),
        Err(PipelineError::UnsupportedRate)
    );
    assert_eq!(
        convert_timecode("01:02:03:04", 22),
        Err(PipelineError::UnsupportedRate)
    );
    assert_eq!(
        convert_timecode("01:02:03:04", 0),
        Err(PipelineError::UnsupportedRate)
    );
}

#[test]
fn an_unparsable_token_fails_the_whole_batch() {
    let tokens = vec!["01:02:03:04".to_string(), "hello there".to_string()];
    assert_eq!(
        format_timecodes(&tokens, 24),
        Err(PipelineError::TimecodeParse)
    );
}

#[test]
fn batch_output_matches_input_length_and_order() {
    let tokens = vec![
        "00:00:01:00".to_string(),
        "01:02:03:04".to_string(),
        "00:00:01:00".to_string(),
    ];
    let out = format_timecodes(&tokens, 24).unwrap();
    assert_eq!(out.len(), 3);
    assert_eq!(out[0], "00:00:01.0");
    assert_eq!(out[1], "01:02:03.167");
    assert_eq!(out[2], out[0]);
}

#[test]
fn empty_batch_converts_to_empty_batch() {
    assert_eq!(format_timecodes(&vec![], 24), Ok(vec![]));
}
