//! The whole planning pipeline, from probe output and markup text to jobs.
//!
//! Resolution order matches the run's control flow: the frame rate is
//! resolved first, the markup is scanned next, the tokens are converted
//! under the resolved rate, and only then is one extraction job planned per
//! converted timecode. Every failure before planning aborts the run with no
//! jobs at all; running the planned jobs is the caller's work.

use vstd::prelude::*;

use crate::convert::{
    batch_accepted, format_timecodes, supported_rate, tc_runtime, timebase_key,
};
use crate::dispatch::{job_for, plan_jobs, PreviewJob};
use crate::errors::PipelineError;
use crate::probe::{frame_rate_from_probe_json, probe_rate_spec};
use crate::scanner::{
    lemma_scan_tokens_have_length_11, markup_events_of, scan_spec, scan_xml, MarkupEventModel,
};
use crate::string_views;

verus! {

/// How a finished plan must relate to the scanned events, given the rate:
/// one job per emitted token, in order, each seeking to that token's
/// runtime string under the rate's timebase and writing under `dir`.
pub open spec fn planned_at(
    jobs: Seq<PreviewJob>,
    events: Seq<MarkupEventModel>,
    fps: int,
    video: Seq<char>,
    dir: Seq<char>,
) -> bool {
    let tokens = scan_spec(events, Seq::empty());
    &&& batch_accepted(tokens, fps)
    &&& jobs.len() == tokens.len()
    &&& forall|k: int|
        0 <= k < jobs.len() ==> job_for(
            #[trigger] jobs[k],
            video,
            dir,
            tc_runtime(tokens[k], timebase_key(fps)),
        )
}

/// The outcome a plan owes once the rate is known: a document that is not
/// well-formed XML aborts as a syntax failure before the rate is ever
/// checked, as the tokens are scanned first; then a rate outside the
/// enumerated set aborts as unsupported before any token is converted;
/// then one unparsable token aborts the batch; and the plan succeeds, as
/// `planned_at` says, exactly when the whole scanned batch converts.
pub open spec fn plan_outcome_at_rate(
    r: Result<Vec<PreviewJob>, PipelineError>,
    doc: Seq<char>,
    fps: int,
    video: Seq<char>,
    dir: Seq<char>,
) -> bool {
    match markup_events_of(doc) {
        None => r == Err::<Vec<PreviewJob>, PipelineError>(PipelineError::XmlSyntax),
        Some(evs) => {
            &&& (r is Ok <==> batch_accepted(scan_spec(evs, Seq::empty()), fps))
            &&& (r matches Ok(jobs) ==> planned_at(jobs@, evs, fps, video, dir))
            &&& (!supported_rate(fps) ==> r == Err::<Vec<PreviewJob>, PipelineError>(
                PipelineError::UnsupportedRate,
            ))
            &&& (supported_rate(fps) && r is Err ==> r == Err::<Vec<PreviewJob>, PipelineError>(
                PipelineError::TimecodeParse,
            ))
        },
    }
}

/// Plans the extraction jobs for one markup document under a resolved rate.
pub fn plan_previews_at_rate(fps: u32, xml_doc: &str, video: &str, out_dir: &str) -> (r: Result<
    Vec<PreviewJob>,
    PipelineError,
>)
    ensures
        plan_outcome_at_rate(r, xml_doc@, fps as int, video@, out_dir@),
{
    let raw_timecodes = match scan_xml(xml_doc) {
        Ok(tokens) => tokens,
        Err(e) => {
            return Err(e);
        },
    };
    proof {
        let evs = markup_events_of(xml_doc@).unwrap();
        lemma_scan_tokens_have_length_11(evs, Seq::empty());
        assert(forall|k: int|
            0 <= k < raw_timecodes@.len() ==> (#[trigger] raw_timecodes@[k])@.len() == 11) by {
            assert(forall|k: int|
                0 <= k < raw_timecodes@.len() ==> (#[trigger] raw_timecodes@[k])@ == scan_spec(
                    evs,
                    Seq::empty(),
                )[k]);
        }
    }
    let converted = match format_timecodes(&raw_timecodes, fps) {
        Ok(c) => c,
        Err(e) => {
            return Err(e);
        },
    };
    let jobs = plan_jobs(video, out_dir, &converted);
    proof {
        let evs = markup_events_of(xml_doc@).unwrap();
        let tokens = scan_spec(evs, Seq::empty());
        assert(string_views(raw_timecodes@) == tokens);
        assert(forall|k: int|
            0 <= k < tokens.len() ==> (#[trigger] converted@[k])@ == tc_runtime(
                tokens[k],
                timebase_key(fps as int),
            )) by {
            assert(forall|k: int|
                0 <= k < tokens.len() ==> (#[trigger] raw_timecodes@[k])@ == tokens[k]);
        }
    }
    Ok(jobs)
}

/// Plans the extraction jobs for one run: resolves the rate from the probe
/// metadata exactly as `probe_rate_spec` says of the probe text, and under
/// that rate scans the markup, converts the emitted tokens and pairs each
/// converted timecode with the shared video path and output directory, as
/// `plan_outcome_at_rate` says. Any failure yields no jobs at all.
pub fn plan_previews(probe_json: &str, xml_doc: &str, video: &str, out_dir: &str) -> (r: Result<
    Vec<PreviewJob>,
    PipelineError,
>)
    ensures
        match probe_rate_spec(probe_json@) {
            Err(e) => r == Err::<Vec<PreviewJob>, PipelineError>(e),
            Ok(fps) => plan_outcome_at_rate(r, xml_doc@, fps as int, video@, out_dir@),
        },
{
    let fps = match frame_rate_from_probe_json(probe_json) {
        Ok(f) => f,
        Err(e) => {
            return Err(e);
        },
    };
    plan_previews_at_rate(fps, xml_doc, video, out_dir)
}

} // verus!
