use autoripper::devices::{detect_devices, drive_from_line, DeviceError};
use autoripper::encode::{
    encode_arguments, encoded_path, find_profile, get_encoding_profiles, parse_encode_line, parse_millionths,
    EncodeError, EncodeLine, Profile,
};
use autoripper::job::{
    cleanup_paths, episode_remote_path, media_kind, movie_remote_path, ripped_files, select_titles, JobError,
    MediaKind, RipTvShowMetadata,
};
use autoripper::model::{Disc, Title};
use autoripper::pipeline::{
    done_message, error_message, on_event, progress_message, start_job, Action, Event, JobState, Stage, StageName,
};
use autoripper::pipeline::{next_poll, PollDecision};
use autoripper::rip::{probe_arguments, rip_arguments, RipError, RipSession};
use autoripper::upload::{UploadProgressPayload, UploadSession};

fn lines(v: &[&str]) -> Vec<String> {
    v.iter().map(|s| s.to_string()).collect()
}

fn named_title(id: usize, file: &str) -> Title {
    let mut t = Title::default();
    t.id = id;
    t.output_file_name = file.to_string();
    t
}

#[test]
fn drives_are_listed() {
    let out = lines(&[
        "MSG:1005,0,1,\"started\"",
        "DRV:0,2,999,1,\" BD-RE HL-DT-ST \",\" MOVIE \",\"/dev/sr0\"",
        "DRV:1,256,999,0,\"\",\"\",\"\"",
        "DRV:2,2,999,1,\"DVD\",\"DISC2\",\"/dev/sr1\"",
        "DRV:3,2",
    ]);
    let devices = detect_devices(&out).unwrap();
    assert_eq!(devices.len(), 2);
    assert_eq!(devices[0].description, "BD-RE HL-DT-ST");
    assert_eq!(devices[0].name, "MOVIE");
    assert_eq!(devices[0].path, "/dev/sr0");
    assert_eq!(devices[1].path, "/dev/sr1");
    assert!(drive_from_line("DRV:1,256,999,0,\" \",\"x\",\"y\"").is_none());
}

#[test]
fn no_drive_is_an_error() {
    assert_eq!(detect_devices(&lines(&["MSG:1,2"])).err(), Some(DeviceError::NoDevices));
    assert_eq!(detect_devices(&Vec::new()).err(), Some(DeviceError::NoDevices));
}

#[test]
fn rip_and_probe_arguments() {
    assert_eq!(
        rip_arguments("/dev/sr0", 12, "/out"),
        vec!["--messages=-stdout", "--progress=-same", "-r", "mkv", "dev:/dev/sr0", "12", "/out"]
    );
    assert_eq!(probe_arguments("/dev/sr0"), vec!["-r", "info", "dev:/dev/sr0"]);
}

#[test]
fn rip_session_reads_progress() {
    let mut s = RipSession::new(1, 0);
    let p = s.on_line("PRGT:5018,0,\"Saving to MKV file\"", 10).unwrap();
    assert_eq!(p.step_title, "Saving to MKV file");
    assert_eq!(p.step, 1);
    let p = s.on_line("PRGC:5017,0,\"Saving all titles\"", 20).unwrap();
    assert_eq!(p.step_details, "Saving all titles");
    let p = s.on_line("PRGV:16384,32768,65536", 30).unwrap();
    assert_eq!(p.progress, 500_000);
    assert_eq!(p.step_title, "Saving to MKV file");
    let p = s.on_line("MSG:5011,0,0,\"Operation successfully completed\"", 40).unwrap();
    assert_eq!(p.progress, 500_000);
    assert_eq!(s.on_line("PRGV:1,x,1", 50).err(), Some(RipError::BadNumber));
    assert_eq!(s.on_line("PRGV:1", 50).err(), Some(RipError::MissingValue));
    assert_eq!(s.on_line("PRGT:1,2", 50).err(), Some(RipError::MissingValue));
}

#[test]
fn encoder_records() {
    assert_eq!(parse_encode_line("        \"Progress\": 0.25,"), Ok(EncodeLine::Progress(250_000)));
    assert_eq!(parse_encode_line("\"Progress\": 0.123456789,"), Ok(EncodeLine::Progress(123_456)));
    assert_eq!(parse_encode_line("\"Progress\": 1,"), Ok(EncodeLine::Progress(1_000_000)));
    assert_eq!(parse_encode_line("    \"ETASeconds\": 1234,"), Ok(EncodeLine::Eta(1234)));
    assert_eq!(parse_encode_line("\"State\": \"WORKING\","), Ok(EncodeLine::Other));
    assert_eq!(parse_encode_line("\"Progress\": oops,"), Err(EncodeError::BadProgress));
    assert_eq!(parse_encode_line("\"ETASeconds\": 1.5,"), Err(EncodeError::BadEta));
    assert_eq!(parse_millionths("2.5"), Some(2_500_000));
    assert_eq!(parse_millionths("2."), None);
    assert_eq!(parse_millionths(".5"), None);
}

#[test]
fn encoding_paths_and_arguments() {
    assert_eq!(encoded_path("/out", "a.mkv"), "/out/encoding/a.mkv");
    let listed = vec![Profile {
        id: "hd".to_string(),
        label: "Live Action 1080p".to_string(),
        file_name: "h264_1080p.json".to_string(),
        preset_name: "H264 1080p".to_string(),
    }];
    let profiles = get_encoding_profiles("/profiles", &listed);
    assert_eq!(profiles[0].file_name, "/profiles/h264_1080p.json");
    assert_eq!(profiles[0].label, "Live Action 1080p");
    assert_eq!(find_profile(&profiles, "hd"), Some(0));
    assert_eq!(find_profile(&profiles, "sd"), None);
    assert_eq!(
        encode_arguments("/out/a.mkv", "/out/encoding/a.mkv", &profiles[0]),
        vec![
            "--json",
            "--input",
            "/out/a.mkv",
            "--output",
            "/out/encoding/a.mkv",
            "--preset-import-file",
            "/profiles/h264_1080p.json",
            "-Z",
            "H264 1080p"
        ]
    );
}

#[test]
fn job_titles_and_paths() {
    let mut d = Disc::default();
    d.titles = vec![named_title(0, "t00.mkv"), named_title(1, "t01.mkv"), named_title(2, "t02.mkv")];
    let ts = select_titles(&d, &vec![2, 0]).unwrap();
    assert_eq!(ts[0].output_file_name, "t02.mkv");
    assert_eq!(ts[1].output_file_name, "t00.mkv");
    assert_eq!(select_titles(&d, &vec![0, 7, 9]).err(), Some(JobError::UnknownTitle(7)));
    assert_eq!(ripped_files("/out", &ts), vec!["/out/t02.mkv", "/out/t00.mkv"]);
    assert_eq!(media_kind("movie"), Some(MediaKind::Movie));
    assert_eq!(media_kind("tv_show"), Some(MediaKind::TvShow));
    assert_eq!(media_kind("music"), None);
    assert_eq!(movie_remote_path("/movies/Film (2020)", "t00.mkv"), "/movies/Film (2020)/[Bluray-1080p]_t00.mkv");
    let meta = RipTvShowMetadata {
        tvdb_id: 1,
        title: "Show".to_string(),
        series_type: "standard".to_string(),
        season: 2,
        episodes: vec![5, 12],
    };
    assert_eq!(
        episode_remote_path("/tv/Show", &meta, 1, "t01.mkv"),
        Ok("/tv/Show/Season 02/[Bluray-1080p]_S02E12_t01.mkv".to_string())
    );
    assert_eq!(episode_remote_path("/tv/Show", &meta, 2, "t01.mkv"), Err(JobError::MissingEpisode(2)));
}

#[test]
fn cancel_mid_rip_cleans_every_title_and_starts_nothing() {
    let titles = vec![named_title(0, "t00.mkv"), named_title(3, "t03.mkv")];
    let mut job = start_job();
    assert_eq!(on_event(&mut job, Event::CancelRequested), Action::CleanUp);
    assert_eq!(
        cleanup_paths("/out", &titles),
        vec!["/out/t00.mkv", "/out/encoding/t00.mkv", "/out/t03.mkv", "/out/encoding/t03.mkv"]
    );
    assert_eq!(on_event(&mut job, Event::CancelRequested), Action::Nothing);
    assert_eq!(on_event(&mut job, Event::StageFinished), Action::Finish);
    assert_eq!(job.stage, Stage::Cancelled);
    assert_eq!(on_event(&mut job, Event::StageFinished), Action::Nothing);
    assert_eq!(job, JobState { stage: Stage::Cancelled, cancelled: true });
}

#[test]
fn stages_run_in_order() {
    let mut job = start_job();
    assert_eq!(on_event(&mut job, Event::StageFinished), Action::StartEncoding);
    assert_eq!(on_event(&mut job, Event::StageFinished), Action::StartUploading);
    assert_eq!(on_event(&mut job, Event::StageFinished), Action::Register);
    assert_eq!(on_event(&mut job, Event::CancelRequested), Action::Nothing);
    assert_eq!(on_event(&mut job, Event::StageFinished), Action::Finish);
    assert_eq!(job.stage, Stage::Done);
    let mut job = start_job();
    assert_eq!(on_event(&mut job, Event::StageFinished), Action::StartEncoding);
    assert_eq!(on_event(&mut job, Event::StageFailed), Action::ReportFailure);
    assert_eq!(job.stage, Stage::Failed);
}

#[test]
fn client_messages() {
    assert_eq!(
        progress_message(StageName::Ripping, "Saving \"all\"", 250_000, 1, 61_500),
        r#"{"type":"ripping_progress","payload":{"label":"Saving \"all\"","progress":0.250000,"step":1,"eta":61}}"#
    );
    assert_eq!(
        progress_message(StageName::Uploading, "Uploading", 1_000_000, 0, 0),
        r#"{"type":"upload_progress","payload":{"label":"Uploading","progress":1.000000,"step":0,"eta":0}}"#
    );
    assert_eq!(done_message(StageName::Encoding), r#"{"type":"encoding_done"}"#);
    assert_eq!(done_message(StageName::Uploading), r#"{"type":"uploading_done"}"#);
    assert_eq!(
        error_message(StageName::Ripping, "line\nbreak"),
        r#"{"type":"ripping_error","payload":{"message":"line\u000abreak"}}"#
    );
}

#[test]
fn completion_poll_gives_up_after_retries() {
    let mut failures: u32 = 0;
    let mut checks = 0;
    loop {
        checks += 1;
        match next_poll(&mut failures, false) {
            PollDecision::Retry => continue,
            PollDecision::GiveUp => break,
            PollDecision::Completed => panic!("never completes"),
        }
    }
    assert_eq!(checks, 11);
    let mut failures: u32 = 3;
    assert_eq!(next_poll(&mut failures, true), PollDecision::Completed);
    assert_eq!(failures, 3);
}

#[test]
fn upload_counts_chunks() {
    let mut s = UploadSession::new(2, 400, 0);
    let p = s.on_chunk(100, 1000);
    assert_eq!(p, UploadProgressPayload { progress: 250_000, eta: 0, step: 2 });
    let p = s.on_chunk(300, 2000);
    assert_eq!(p.progress, 1_000_000);
    let mut empty = UploadSession::new(0, 0, 0);
    assert_eq!(empty.on_chunk(0, 10).progress, 1_000_000);
}
