use timecode_previews::errors::PipelineError;
use timecode_previews::probe::{frame_rate_from_probe_json, probe_command};

#[test]
fn sentinel_first_stream_falls_back_to_second() {
    let json = "{\"streams\":[{\"r_frame_rate\":\"0/0\"},{\"r_frame_rate\":\"24000/1001\"}]}";
    assert_eq!(frame_rate_from_probe_json(json), Ok(23));
}

#[test]
fn first_stream_rate_is_authoritative_when_not_sentinel() {
    let json = "{\"streams\":[{\"r_frame_rate\":\"30000/1001\"},{\"r_frame_rate\":\"0/0\"}]}";
    assert_eq!(frame_rate_from_probe_json(json), Ok(29));
    let json = "{\"streams\":[{\"r_frame_rate\":\"25\"}]}";
    assert_eq!(frame_rate_from_probe_json(json), Ok(25));
}

#[test]
fn sentinel_with_one_stream_is_an_index_failure() {
    let json = "{\"streams\":[{\"r_frame_rate\":\"0/0\"}]}";
    assert_eq!(frame_rate_from_probe_json(json), Err(PipelineError::Index));
}

#[test]
fn sentinel_with_a_rateless_second_stream_is_a_parse_failure() {
    let json = "{\"streams\":[{\"r_frame_rate\":\"0/0\"},{\"codec\":\"h264\"}]}";
    assert_eq!(frame_rate_from_probe_json(json), Err(PipelineError::Parse));
}

#[test]
fn probe_command_names_the_video() {
    assert_eq!(
        probe_command("movie.mov"),
        "ffprobe -v quiet -print_format json -show_streams movie.mov"
    );
}

#[test]
fn missing_or_malformed_fields_are_parse_failures() {
    assert_eq!(
        frame_rate_from_probe_json("not json at all"),
        Err(PipelineError::Parse)
    );
    assert_eq!(frame_rate_from_probe_json("{}"), Err(PipelineError::Parse));
    assert_eq!(
        frame_rate_from_probe_json("{\"streams\":[]}"),
        Err(PipelineError::Parse)
    );
    assert_eq!(
        frame_rate_from_probe_json("{\"streams\":[{\"codec\":\"h264\"}]}"),
        Err(PipelineError::Parse)
    );
    assert_eq!(
        frame_rate_from_probe_json("{\"streams\":[{\"r_frame_rate\":24}]}"),
        Err(PipelineError::Parse)
    );
}
