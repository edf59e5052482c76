use timecode_previews::dispatch::{extraction_args, plan_jobs, preview_image_path};

#[test]
fn one_job_is_planned_per_timecode() {
    let timecodes = vec![
        "01:02:03.167".to_string(),
        "00:00:01.0".to_string(),
        "01:02:03.167".to_string(),
    ];
    let jobs = plan_jobs("movie.mov", "./tmp-previews", &timecodes);
    assert_eq!(jobs.len(), 3);
    for (job, tc) in jobs.iter().zip(timecodes.iter()) {
        assert_eq!(&job.seek_time, tc);
        assert_eq!(job.video_path, "movie.mov");
        assert_eq!(job.image_path, format!("./tmp-previews/{}.jpg", tc));
    }
}

#[test]
fn distinct_timecodes_get_distinct_image_paths() {
    let timecodes = vec!["01:02:03.167".to_string(), "00:00:01.0".to_string()];
    let jobs = plan_jobs("movie.mov", "out", &timecodes);
    assert_eq!(jobs.len(), 2);
    assert_ne!(jobs[0].image_path, jobs[1].image_path);
    assert_eq!(jobs[0].image_path, "out/01:02:03.167.jpg");
    assert_eq!(jobs[1].image_path, "out/00:00:01.0.jpg");
}

#[test]
fn image_path_is_directory_slash_timecode_dot_jpg() {
    assert_eq!(preview_image_path("d", "t"), "d/t.jpg".to_string());
    assert_eq!(preview_image_path("", ""), "/.jpg".to_string());
}

#[test]
fn extraction_arguments_follow_the_tool_contract() {
    let jobs = plan_jobs("movie.mov", "out", &vec!["00:00:01.0".to_string()]);
    let args = extraction_args(&jobs[0]);
    assert_eq!(
        args,
        vec![
            "-ss".to_string(),
            "00:00:01.0".to_string(),
            "-i".to_string(),
            "movie.mov".to_string(),
            "-frames:v".to_string(),
            "1".to_string(),
            "-y".to_string(),
            "out/00:00:01.0.jpg".to_string(),
        ]
    );
}

#[test]
fn no_timecodes_plan_no_jobs() {
    let jobs = plan_jobs("movie.mov", "out", &vec![]);
    assert_eq!(jobs.len(), 0);
}
