use vstd::prelude::*;

verus! {

/// Every failure the pipeline distinguishes.
///
/// The first five abort the run before any extraction job is planned; the
/// last three belong to the stages that touch the filesystem and external
/// tools, and are reported per run or per job by the caller.
#[derive(Clone, Copy, Debug, PartialEq, Eq, Structural)]
pub enum PipelineError {
    /// A numeric or JSON field was absent or malformed.
    Parse,
    /// The first stream's rate was the unknown-rate sentinel and no second
    /// stream descriptor exists to fall back to.
    Index,
    /// The markup document is not well-formed XML.
    XmlSyntax,
    /// The resolved frame rate is outside the enumerated broadcast set.
    UnsupportedRate,
    /// A raw timecode token is not a valid frame-count expression under the
    /// selected timebase.
    TimecodeParse,
    /// A file or stream could not be opened or read.
    Io,
    /// An external tool exited with a non-zero status.
    ExternalTool,
    /// An external tool binary could not be started at all.
    Spawn,
}

impl PipelineError {
    /// A short diagnostic label for each failure, for callers that report.
    pub fn describe(&self) -> (s: &'static str)
        ensures
            s@.len() > 0,
    {
        let s = match self {
            PipelineError::Parse => "malformed numeric or JSON field",
            PipelineError::Index => "no second stream descriptor to fall back to",
            PipelineError::XmlSyntax => "markup document is not well-formed XML",
            PipelineError::UnsupportedRate => "frame rate outside the supported set",
            PipelineError::TimecodeParse => "invalid frame-count timecode",
            PipelineError::Io => "file or stream could not be read",
            PipelineError::ExternalTool => "external tool reported failure",
            PipelineError::Spawn => "external tool could not be started",
        };
        proof {
            reveal_strlit("malformed numeric or JSON field");
            reveal_strlit("no second stream descriptor to fall back to");
            reveal_strlit("markup document is not well-formed XML");
            reveal_strlit("frame rate outside the supported set");
            reveal_strlit("invalid frame-count timecode");
            reveal_strlit("external tool reported failure");
            reveal_strlit("external tool could not be started");
            reveal_strlit("file or stream could not be read");
        }
        s
    }
}

} // verus!
