//! Reading the rate fields out of probe metadata.
//!
//! The probing tool emits a JSON document with a `streams` array whose
//! elements each expose an `r_frame_rate` string. Parsing that document and
//! walking it to a field is deterministic, so both are named as functions
//! of the document text; every decision — the sentinel fallback and the
//! numeric parse — is made by the verified code in `rate` on the plain
//! strings the one trusted reader hands back.

use vstd::prelude::*;

use crate::errors::PipelineError;
use crate::rate::{rate_sentinel, rate_spec, resolve_rate};
use crate::str_eq;

verus! {

/// Whether the probe document has a stream descriptor at `idx`: the text
/// parses as JSON, holds a `streams` array, and that array is longer than
/// `idx`. A pure function of the document text.
pub uninterp spec fn probe_has_stream(doc: Seq<char>, idx: int) -> bool;

/// The `r_frame_rate` string of stream descriptor `idx` of the probe
/// document; `None` where the text does not parse as JSON, holds no
/// `streams` array, the array is too short, or the field is absent or not
/// a string. A pure function of the document text.
pub uninterp spec fn probe_rate_field(doc: Seq<char>, idx: int) -> Option<Seq<char>>;

/// Relies on serde_json::from_str and serde_json::Value::get / as_str:
/// parsing a document held in memory and walking the resulting tree is
/// deterministic, reports every failure as an absent value, and does not
/// panic (the parse is recursion-limited). Hands back whether stream `idx`
/// exists and, beside it, the stream's rate field.
#[verifier::external_body]
fn read_stream_rate(doc: &str, idx: usize) -> (r: (bool, Option<String>))
    ensures
        r.0 == probe_has_stream(doc@, idx as int),
        match r.1 {
            Some(s) => probe_rate_field(doc@, idx as int) == Some(s@),
            None => probe_rate_field(doc@, idx as int) is None,
        },
        r.1 is Some ==> r.0,
{
    let tree: Option<serde_json::Value> = serde_json::from_str(doc).ok();
    match tree.as_ref().and_then(|t| t.get("streams")).and_then(|s| s.get(idx)) {
        Some(stream) => {
            let field = stream.get("r_frame_rate").and_then(|f| f.as_str()).map(|s| s.to_owned());
            (true, field)
        },
        None => (false, None),
    }
}

/// The probing tool's command line for one video: a quiet probe of the
/// video's streams, printed as JSON.
pub fn probe_command(input_video: &str) -> (cmd: String)
    ensures
        cmd@ == "ffprobe -v quiet -print_format json -show_streams "@ + input_video@,
{
    let mut cmd = String::from_str("ffprobe -v quiet -print_format json -show_streams ");
    cmd.append(input_video);
    cmd
}

/// What a probe document resolves to. The first stream descriptor's rate
/// field is authoritative unless it is the `"0/0"` sentinel, in which case
/// the second descriptor's field is read instead. A missing or non-string
/// field is a parse failure; a sentinel first field with no second
/// descriptor at all is an index failure; the chosen field resolves as
/// `rate_spec` says.
pub open spec fn probe_rate_spec(doc: Seq<char>) -> Result<u32, PipelineError> {
    match probe_rate_field(doc, 0) {
        None => Err(PipelineError::Parse),
        Some(first) => if first == rate_sentinel() {
            if !probe_has_stream(doc, 1) {
                Err(PipelineError::Index)
            } else {
                match probe_rate_field(doc, 1) {
                    None => Err(PipelineError::Parse),
                    Some(second) => rate_spec(second),
                }
            }
        } else {
            rate_spec(first)
        },
    }
}

/// Resolves the frame rate from the probing tool's JSON output, exactly as
/// `probe_rate_spec` says of the document text.
pub fn frame_rate_from_probe_json(json: &str) -> (r: Result<u32, PipelineError>)
    ensures
        r == probe_rate_spec(json@),
{
    let (_, first_field) = read_stream_rate(json, 0);
    let first = match first_field {
        Some(f) => f,
        None => {
            return Err(PipelineError::Parse);
        },
    };
    if str_eq(first.as_str(), "0/0") {
        let (has_second, second_field) = read_stream_rate(json, 1);
        if !has_second {
            return Err(PipelineError::Index);
        }
        let second = match second_field {
            Some(s) => s,
            None => {
                return Err(PipelineError::Parse);
            },
        };
        resolve_rate(first.as_str(), Some(second.as_str()))
    } else {
        resolve_rate(first.as_str(), None)
    }
}

} // verus!
