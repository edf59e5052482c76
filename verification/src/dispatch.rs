//! Planning one frame-extraction job per converted timecode.
//!
//! Every job pairs one converted timecode with the shared video path and
//! the shared output directory; its output image lands at
//! `<directory>/<timecode>.jpg`. The jobs are independent of one another:
//! distinct timecodes write to distinct paths, and running the jobs —
//! concurrently, with a barrier that waits for all of them — is the
//! caller's side-effecting work, fed by this plan.

use vstd::prelude::*;

verus! {

/// One unit of extraction work: seek to `seek_time` in the video at
/// `video_path` and write a single frame to `image_path`.
pub struct PreviewJob {
    /// The converted timecode, a runtime string, used as the seek offset.
    pub seek_time: String,
    /// The shared source video path.
    pub video_path: String,
    /// The image file this job writes: `<directory>/<timecode>.jpg`.
    pub image_path: String,
}

/// How one job must relate to the inputs it was planned from.
pub open spec fn job_for(job: PreviewJob, video: Seq<char>, dir: Seq<char>, tc: Seq<char>) -> bool {
    &&& job.seek_time@ == tc
    &&& job.video_path@ == video
    &&& job.image_path@ == dir + "/"@ + tc + ".jpg"@
}

/// The output image path of one timecode under the shared directory.
pub fn preview_image_path(dir: &str, timecode: &str) -> (p: String)
    ensures
        p@ == dir@ + "/"@ + timecode@ + ".jpg"@,
{
    let mut p = String::from_str(dir);
    p.append("/");
    p.append(timecode);
    p.append(".jpg");
    p
}

/// Plans exactly one job per converted timecode, in order: each pairs that
/// timecode with the shared video path and the shared output directory.
pub fn plan_jobs(video: &str, dir: &str, timecodes: &Vec<String>) -> (jobs: Vec<PreviewJob>)
    ensures
        jobs@.len() == timecodes@.len(),
        forall|k: int|
            0 <= k < jobs@.len() ==> job_for(#[trigger] jobs@[k], video@, dir@, timecodes@[k]@),
{
    let mut jobs: Vec<PreviewJob> = Vec::new();
    let mut idx: usize = 0;
    while idx < timecodes.len()
        invariant
            0 <= idx <= timecodes@.len(),
            jobs@.len() == idx,
            forall|k: int|
                0 <= k < idx ==> job_for(#[trigger] jobs@[k], video@, dir@, timecodes@[k]@),
        decreases timecodes@.len() - idx,
    {
        let tc = &timecodes[idx];
        let image_path = preview_image_path(dir, tc.as_str());
        let job = PreviewJob {
            seek_time: tc.clone(),
            video_path: String::from_str(video),
            image_path,
        };
        jobs.push(job);
        idx = idx + 1;
    }
    jobs
}

/// The argument list of one extraction invocation: a seek to the job's
/// converted timecode, the job's video as input, a single-frame directive,
/// an overwrite directive, and the job's image path as output.
pub fn extraction_args(job: &PreviewJob) -> (args: Vec<String>)
    ensures
        args@.len() == 8,
        args@[0]@ == "-ss"@,
        args@[1]@ == job.seek_time@,
        args@[2]@ == "-i"@,
        args@[3]@ == job.video_path@,
        args@[4]@ == "-frames:v"@,
        args@[5]@ == "1"@,
        args@[6]@ == "-y"@,
        args@[7]@ == job.image_path@,
{
    let mut args: Vec<String> = Vec::new();
    args.push(String::from_str("-ss"));
    args.push(job.seek_time.clone());
    args.push(String::from_str("-i"));
    args.push(job.video_path.clone());
    args.push(String::from_str("-frames:v"));
    args.push(String::from_str("1"));
    args.push(String::from_str("-y"));
    args.push(job.image_path.clone());
    args
}

/// Jobs planned from distinct timecodes write to distinct image paths, so
/// no two such jobs touch the same file, whatever order they finish in.
pub proof fn lemma_distinct_timecodes_distinct_paths(
    video: Seq<char>,
    dir: Seq<char>,
    a: Seq<char>,
    b: Seq<char>,
    ja: PreviewJob,
    jb: PreviewJob,
)
    requires
        job_for(ja, video, dir, a),
        job_for(jb, video, dir, b),
        a != b,
    ensures
        ja.image_path@ != jb.image_path@,
{
    let sl = "/"@;
    let ext = ".jpg"@;
    if ja.image_path@ == jb.image_path@ {
        assert((dir + sl + a + ext).len() == dir.len() + sl.len() + a.len() + ext.len());
        assert((dir + sl + b + ext).len() == dir.len() + sl.len() + b.len() + ext.len());
        assert(a.len() == b.len());
        assert(forall|k: int| 0 <= k < a.len() ==> a[k] == b[k]) by {
            assert(forall|k: int|
                0 <= k < a.len() ==> (dir + sl + a + ext)[dir.len() + sl.len() + k] == #[trigger] a[k]);
            assert(forall|k: int|
                0 <= k < b.len() ==> (dir + sl + b + ext)[dir.len() + sl.len() + k] == #[trigger] b[k]);
        }
        assert(a =~= b);
    }
}

} // verus!
