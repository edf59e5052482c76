use timecode_previews::errors::PipelineError;
use timecode_previews::pipeline::{plan_previews, plan_previews_at_rate};

const PROBE_23_98: &str =
    "{\"streams\":[{\"r_frame_rate\":\"0/0\"},{\"r_frame_rate\":\"24000/1001\"}]}";

#[test]
fn a_full_run_plans_one_job_per_emitted_timecode() {
    let xml = "<cut>\
        <artwork_time>01:02:03:04</artwork_time>\
        <artwork_time>00:00:01:00</artwork_time>\
        </cut>";
    let jobs = plan_previews(PROBE_23_98, xml, "movie.mov", "out").unwrap();
    assert_eq!(jobs.len(), 2);
    assert_eq!(jobs[0].video_path, "movie.mov");
    assert_eq!(jobs[1].video_path, "movie.mov");
    assert_ne!(jobs[0].image_path, jobs[1].image_path);
    assert!(jobs[0].image_path.starts_with("out/"));
    assert!(jobs[0].image_path.ends_with(".jpg"));
}

#[test]
fn an_unsupported_rate_aborts_before_any_job_is_planned() {
    let xml = "<cut><artwork_time>01:02:03:04</artwork_time></cut>";
    assert_eq!(
        plan_previews_at_rate(31, xml, "movie.mov", "out").map(|v| v.len()),
        Err(PipelineError::UnsupportedRate)
    );
}

#[test]
fn a_malformed_document_aborts_the_run() {
    let xml = "<cut><artwork_time>01:02:03:04</cut>";
    assert_eq!(
        plan_previews(PROBE_23_98, xml, "movie.mov", "out").map(|v| v.len()),
        Err(PipelineError::XmlSyntax)
    );
}

#[test]
fn an_unparsable_token_aborts_the_run() {
    let xml = "<cut><artwork_time>hello there</artwork_time></cut>";
    assert_eq!(
        plan_previews(PROBE_23_98, xml, "movie.mov", "out").map(|v| v.len()),
        Err(PipelineError::TimecodeParse)
    );
}

#[test]
fn a_bad_probe_document_aborts_the_run() {
    let xml = "<cut><artwork_time>01:02:03:04</artwork_time></cut>";
    assert_eq!(
        plan_previews("nonsense", xml, "movie.mov", "out").map(|v| v.len()),
        Err(PipelineError::Parse)
    );
}

#[test]
fn seek_times_are_the_converted_runtimes_at_the_resolved_timebase() {
    let probe = "{\"streams\":[{\"r_frame_rate\":\"24\"}]}";
    let xml = "<cut><artwork_time>01:02:03:04</artwork_time></cut>";
    let jobs = plan_previews(probe, xml, "movie.mov", "out").unwrap();
    assert_eq!(jobs.len(), 1);
    assert_eq!(jobs[0].seek_time, "01:02:03.167");
    assert_eq!(jobs[0].image_path, "out/01:02:03.167.jpg");
}
