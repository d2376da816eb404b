use ice_daemon::{
    build_args, on_exit, on_output_line, on_spawn_failed, on_spawned, start_download,
    status_of, DownloadRequest, JobStore, Progress, StatusResponse,
};

fn request(
    url: &str,
    format: &str,
    sponsorblock: bool,
    metadata: bool,
    subs: bool,
) -> DownloadRequest {
    DownloadRequest {
        url: url.to_string(),
        format: format.to_string(),
        quality: "best".to_string(),
        sponsorblock,
        embed_metadata: metadata,
        embed_subs: subs,
    }
}

const TEMPLATE: &str =
    "DOWNLOAD:%(progress._percent_str)s|%(progress._speed_str)s|%(progress._eta_str)s";

#[test]
fn args_for_plain_video() {
    let args = build_args(&request("https://v/1", "video", false, false, false));
    assert_eq!(
        args,
        vec!["--progress", "--newline", "--progress-template", TEMPLATE, "https://v/1"]
    );
}

#[test]
fn args_for_video_with_every_option() {
    let args = build_args(&request("u", "video", true, true, true));
    assert_eq!(
        args,
        vec![
            "--progress",
            "--newline",
            "--progress-template",
            TEMPLATE,
            "--sponsorblock-remove",
            "all",
            "--embed-metadata",
            "--embed-thumbnail",
            "--write-auto-subs",
            "--embed-subs",
            "u",
        ]
    );
}

#[test]
fn args_for_audio_leave_out_subtitles() {
    let args = build_args(&request("u", "audio", false, true, true));
    assert_eq!(
        args,
        vec![
            "--progress",
            "--newline",
            "--progress-template",
            TEMPLATE,
            "-x",
            "--audio-format",
            "mp3",
            "--embed-metadata",
            "--embed-thumbnail",
            "u",
        ]
    );
}

#[test]
fn job_runs_to_downloaded() {
    let mut store = JobStore::new();
    let req = request("A", "video", false, false, false);
    assert!(start_download(&mut store, &req));
    assert_eq!(status_of(&store, &req.url), StatusResponse::Downloading { progress: None });
    on_spawned(&mut store, &req.url, 99);
    assert!(!on_output_line(&mut store, &req.url, "[youtube] Extracting URL"));
    assert!(on_output_line(&mut store, &req.url, "DOWNLOAD:12.5%|1.0MiB/s|00:30"));
    assert_eq!(
        status_of(&store, &req.url),
        StatusResponse::Downloading {
            progress: Some(Progress {
                percent: "12.5".to_string(),
                speed: "1.0MiB/s".to_string(),
                eta: "00:30".to_string(),
            })
        }
    );
    on_exit(&mut store, &req.url, true);
    assert_eq!(status_of(&store, &req.url), StatusResponse::Downloaded);
    assert_eq!(status_of(&store, &req.url), StatusResponse::Downloaded);
}

#[test]
fn failed_run_leaves_no_job() {
    let mut store = JobStore::new();
    let req = request("B", "video", false, false, false);
    assert!(start_download(&mut store, &req));
    on_spawned(&mut store, &req.url, 5);
    on_exit(&mut store, &req.url, false);
    assert_eq!(status_of(&store, &req.url), StatusResponse::Absent);
}

#[test]
fn spawn_failure_leaves_no_job() {
    let mut store = JobStore::new();
    let req = request("B2", "audio", false, false, false);
    assert!(start_download(&mut store, &req));
    on_spawn_failed(&mut store, &req.url);
    assert_eq!(status_of(&store, &req.url), StatusResponse::Absent);
}

#[test]
fn duplicate_start_is_rejected() {
    let mut store = JobStore::new();
    let req = request("C", "video", false, false, false);
    assert!(start_download(&mut store, &req));
    on_spawned(&mut store, &req.url, 11);
    assert!(on_output_line(&mut store, &req.url, "DOWNLOAD:3%|9KiB/s|10:00"));
    let before = store.snapshot(&req.url).unwrap();
    assert!(!start_download(&mut store, &req));
    let after = store.snapshot(&req.url).unwrap();
    assert_eq!(after.pid, before.pid);
    assert_eq!(after.phase, before.phase);
    assert_eq!(after.progress, before.progress);
}

#[test]
fn events_after_cancel_do_not_resurrect_the_job() {
    let mut store = JobStore::new();
    let req = request("D", "video", false, false, false);
    assert!(start_download(&mut store, &req));
    on_spawned(&mut store, &req.url, 8);
    assert_eq!(ice_daemon::cancel(&mut store, &req.url), Some(8));
    assert!(on_output_line(&mut store, &req.url, "DOWNLOAD:50%|1|2"));
    on_exit(&mut store, &req.url, true);
    assert_eq!(status_of(&store, &req.url), StatusResponse::Absent);
}

#[test]
fn cancel_after_success_terminates_nothing() {
    let mut store = JobStore::new();
    let req = request("E", "video", false, false, false);
    assert!(start_download(&mut store, &req));
    on_spawned(&mut store, &req.url, 5);
    on_exit(&mut store, &req.url, true);
    assert_eq!(store.snapshot(&req.url).unwrap().pid, None);
    assert_eq!(ice_daemon::cancel(&mut store, &req.url), None);
    assert_eq!(status_of(&store, &req.url), StatusResponse::Absent);
}
