//! Converting raw timecode tokens to wall-clock runtime strings.
//!
//! A resolved frames-per-second value maps to a fixed broadcast timebase
//! through an exhaustive enumeration; every value outside the enumerated
//! set is an unsupported-rate failure, never approximated. Each raw token
//! is then parsed as a frame-count timecode under that timebase and
//! rendered as a runtime string with three fractional-second digits.

use vstd::prelude::*;

use crate::errors::PipelineError;
use crate::string_views;

verus! {

/// The enumerated set of supported frames-per-second values.
pub open spec fn supported_rate(fps: int) -> bool {
    fps == 23 || fps == 24 || fps == 25 || fps == 29 || fps == 30
}

/// The timebase a supported rate selects, identified by a hundredth-of-a-
/// frame key: 23 selects 23.98 NTSC non-drop-frame (2398), 24 selects the
/// exact 24 timebase (2400), 29 selects 29.97 NTSC non-drop-frame (2997)
/// and 30 the exact 30 timebase (3000). A resolved rate of 25 also selects
/// the 24 timebase: no true 25 timebase is wired in, which is almost
/// certainly a latent defect, kept here so the enumeration stays explicit.
pub open spec fn timebase_key(fps: int) -> int
    recommends
        supported_rate(fps),
{
    if fps == 23 {
        2398
    } else if fps == 24 || fps == 25 {
        2400
    } else if fps == 29 {
        2997
    } else {
        3000
    }
}

/// Whether a raw token parses as a frame-count timecode under the timebase
/// with the given key. The outcome depends on the token and the timebase
/// alone.
pub uninterp spec fn tc_accepts(raw: Seq<char>, key: int) -> bool;

/// The runtime string, at three fractional-second digits, of a raw token
/// under the timebase with the given key. Meaningful only where
/// `tc_accepts` holds of the same arguments.
pub uninterp spec fn tc_runtime(raw: Seq<char>, key: int) -> Seq<char>;

/// Relies on vtc::Timecode::with_frames and vtc::Timecode::runtime at the
/// 23.98 NTSC non-drop-frame rate (vtc::rates::F23_98): for a fixed rate,
/// whether a token parses and the runtime it renders depend on the token
/// alone. Tokens are 11 characters — the RawTimecode invariant — which
/// keeps every section's value far below where the crate's i64 frame and
/// rational-seconds arithmetic could overflow and panic.
#[verifier::external_body]
fn runtime_f23_98(raw: &str) -> (r: Option<String>)
    requires
        raw@.len() == 11,
    ensures
        r is Some <==> tc_accepts(raw@, 2398),
        r matches Some(s) ==> s@ == tc_runtime(raw@, 2398),
{
    match vtc::Timecode::with_frames(raw, vtc::rates::F23_98) {
        Ok(tc) => Some(tc.runtime(3)),
        Err(_) => None,
    }
}

/// Relies on vtc::Timecode::with_frames and vtc::Timecode::runtime at the
/// exact 24 rate (vtc::rates::F24): for a fixed rate, whether a token
/// parses and the runtime it renders depend on the token alone. Tokens are 11
/// characters (the RawTimecode invariant), which keeps the crate's i64 and
/// rational arithmetic far from overflow.
#[verifier::external_body]
fn runtime_f24(raw: &str) -> (r: Option<String>)
    requires
        raw@.len() == 11,
    ensures
        r is Some <==> tc_accepts(raw@, 2400),
        r matches Some(s) ==> s@ == tc_runtime(raw@, 2400),
{
    match vtc::Timecode::with_frames(raw, vtc::rates::F24) {
        Ok(tc) => Some(tc.runtime(3)),
        Err(_) => None,
    }
}

/// Relies on vtc::Timecode::with_frames and vtc::Timecode::runtime at the
/// 29.97 NTSC non-drop-frame rate (vtc::rates::F29_97_NDF): for a fixed
/// rate, whether a token parses and the runtime it renders depend on the
/// token alone. Tokens are 11
/// characters (the RawTimecode invariant), which keeps the crate's i64 and
/// rational arithmetic far from overflow.
#[verifier::external_body]
fn runtime_f29_97_ndf(raw: &str) -> (r: Option<String>)
    requires
        raw@.len() == 11,
    ensures
        r is Some <==> tc_accepts(raw@, 2997),
        r matches Some(s) ==> s@ == tc_runtime(raw@, 2997),
{
    match vtc::Timecode::with_frames(raw, vtc::rates::F29_97_NDF) {
        Ok(tc) => Some(tc.runtime(3)),
        Err(_) => None,
    }
}

/// Relies on vtc::Timecode::with_frames and vtc::Timecode::runtime at the
/// exact 30 rate (vtc::rates::F30): for a fixed rate, whether a token
/// parses and the runtime it renders depend on the token alone. Tokens are 11
/// characters (the RawTimecode invariant), which keeps the crate's i64 and
/// rational arithmetic far from overflow.
#[verifier::external_body]
fn runtime_f30(raw: &str) -> (r: Option<String>)
    requires
        raw@.len() == 11,
    ensures
        r is Some <==> tc_accepts(raw@, 3000),
        r matches Some(s) ==> s@ == tc_runtime(raw@, 3000),
{
    match vtc::Timecode::with_frames(raw, vtc::rates::F30) {
        Ok(tc) => Some(tc.runtime(3)),
        Err(_) => None,
    }
}

/// Converts one raw token under the timebase the rate selects: the token's
/// runtime string where the token parses, an unsupported-rate failure for a
/// rate outside the enumerated set, and a timecode-parse failure otherwise.
/// A raw token has exactly 11 characters — the scanner emits nothing else.
pub fn convert_timecode(raw: &str, fps: u32) -> (r: Result<String, PipelineError>)
    requires
        raw@.len() == 11,
    ensures
        !supported_rate(fps as int) ==> r == Err::<String, PipelineError>(
            PipelineError::UnsupportedRate,
        ),
        supported_rate(fps as int) ==> {
            &&& r is Ok <==> tc_accepts(raw@, timebase_key(fps as int))
            &&& (r matches Ok(s) ==> s@ == tc_runtime(raw@, timebase_key(fps as int)))
            &&& (r is Err ==> r == Err::<String, PipelineError>(PipelineError::TimecodeParse))
        },
{
    let converted = if fps == 23 {
        runtime_f23_98(raw)
    } else if fps == 24 || fps == 25 {
        runtime_f24(raw)
    } else if fps == 29 {
        runtime_f29_97_ndf(raw)
    } else if fps == 30 {
        runtime_f30(raw)
    } else {
        return Err(PipelineError::UnsupportedRate);
    };
    match converted {
        Some(s) => Ok(s),
        None => Err(PipelineError::TimecodeParse),
    }
}

/// Whether every token of a batch parses under the timebase the rate
/// selects — exactly when the whole batch converts.
pub open spec fn batch_accepted(tokens: Seq<Seq<char>>, fps: int) -> bool {
    supported_rate(fps) && forall|k: int|
        0 <= k < tokens.len() ==> tc_accepts(#[trigger] tokens[k], timebase_key(fps))
}

/// The conversion is a pure function of token and rate: any two converted
/// batches of the same tokens at the same rate — anything meeting the
/// contract of `format_timecodes`, whose outputs are pinned elementwise to
/// `tc_runtime` under the rate's timebase — are the same, and each has
/// exactly as many outputs as inputs.
pub proof fn lemma_conversion_deterministic(
    tokens: Seq<Seq<char>>,
    fps: int,
    out1: Seq<Seq<char>>,
    out2: Seq<Seq<char>>,
)
    requires
        out1.len() == tokens.len(),
        out2.len() == tokens.len(),
        forall|k: int|
            0 <= k < tokens.len() ==> #[trigger] out1[k] == tc_runtime(
                tokens[k],
                timebase_key(fps),
            ),
        forall|k: int|
            0 <= k < tokens.len() ==> #[trigger] out2[k] == tc_runtime(
                tokens[k],
                timebase_key(fps),
            ),
    ensures
        out1 == out2,
{
    assert(out1 =~= out2);
}

/// Converts a whole batch of raw tokens under one rate, preserving order,
/// duplicates and length. The batch converts exactly when the rate is
/// supported and every token parses under its timebase; a rate outside the
/// enumerated set fails as unsupported before any token is read, and one
/// unparsable token fails the whole batch — there is no partial success.
/// Every raw token has exactly 11 characters — the scanner emits nothing
/// else.
pub fn format_timecodes(timecodes: &Vec<String>, fps: u32) -> (r: Result<Vec<String>, PipelineError>)
    requires
        forall|k: int| 0 <= k < timecodes@.len() ==> (#[trigger] timecodes@[k])@.len() == 11,
    ensures
        r is Ok <==> batch_accepted(string_views(timecodes@), fps as int),
        r matches Ok(v) ==> {
            &&& v@.len() == timecodes@.len()
            &&& forall|k: int|
                0 <= k < v@.len() ==> (#[trigger] v@[k])@ == tc_runtime(
                    timecodes@[k]@,
                    timebase_key(fps as int),
                )
        },
        !supported_rate(fps as int) ==> r == Err::<Vec<String>, PipelineError>(
            PipelineError::UnsupportedRate,
        ),
        supported_rate(fps as int) && r is Err ==> r == Err::<Vec<String>, PipelineError>(
            PipelineError::TimecodeParse,
        ),
{
    if !(fps == 23 || fps == 24 || fps == 25 || fps == 29 || fps == 30) {
        return Err(PipelineError::UnsupportedRate);
    }
    let mut out: Vec<String> = Vec::new();
    let mut idx: usize = 0;
    while idx < timecodes.len()
        invariant
            0 <= idx <= timecodes@.len(),
            supported_rate(fps as int),
            forall|k: int| 0 <= k < timecodes@.len() ==> (#[trigger] timecodes@[k])@.len() == 11,
            out@.len() == idx,
            forall|k: int|
                0 <= k < idx ==> tc_accepts(
                    (#[trigger] timecodes@[k])@,
                    timebase_key(fps as int),
                ),
            forall|k: int|
                0 <= k < idx ==> (#[trigger] out@[k])@ == tc_runtime(
                    timecodes@[k]@,
                    timebase_key(fps as int),
                ),
        decreases timecodes@.len() - idx,
    {
        match convert_timecode(timecodes[idx].as_str(), fps) {
            Ok(s) => out.push(s),
            Err(_) => {
                proof {
                    assert(string_views(timecodes@)[idx as int] == timecodes@[idx as int]@);
                    assert(!batch_accepted(string_views(timecodes@), fps as int));
                }
                return Err(PipelineError::TimecodeParse);
            },
        }
        idx = idx + 1;
    }
    Ok(out)
}

} // verus!
