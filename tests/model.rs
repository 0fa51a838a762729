use autoripper::reader::{
    handle_audio_stream, handle_cinfo, handle_sinfo, handle_tinfo, handle_video_stream, read_disc_properties,
    BuildError, DiscBuilder, StreamCursor, StreamKind,
};
use autoripper::model::{AudioStream, Disc, VideoStream};
use autoripper::protocol::parse_csv_line;

fn lines(v: &[&str]) -> Vec<String> {
    v.iter().map(|s| s.to_string()).collect()
}

#[test]
fn title_reference_beyond_end_fills_placeholders() {
    let disc = read_disc_properties(&lines(&["TINFO:3,2,0,\"Feature\""])).unwrap();
    assert_eq!(disc.titles.len(), 4);
    for (i, t) in disc.titles.iter().enumerate() {
        assert_eq!(t.id, i);
    }
    assert_eq!(disc.titles[3].name, "Feature");
    for t in &disc.titles[0..3] {
        assert_eq!(t.name, "");
        assert_eq!(t.duration, 0);
        assert!(t.audio_streams.is_empty());
    }
}

#[test]
fn audio_declaration_after_video_resets_index() {
    let probe = lines(&[
        "SINFO:0,0,1,6201,\"Video\"",
        "SINFO:0,1,1,6202,\"Audio\"",
        "SINFO:0,1,3,0,\"eng\"",
        "SINFO:0,2,1,6202,\"Audio\"",
        "SINFO:0,2,3,0,\"deu\"",
        "SINFO:1,0,1,6201,\"Video\"",
        "SINFO:1,1,1,6202,\"Audio\"",
        "SINFO:1,1,3,0,\"fra\"",
    ]);
    let disc = read_disc_properties(&probe).unwrap();
    assert_eq!(disc.titles.len(), 2);
    assert_eq!(disc.titles[0].audio_streams.len(), 2);
    assert_eq!(disc.titles[0].audio_streams[0].lang_code, "eng");
    assert_eq!(disc.titles[0].audio_streams[1].lang_code, "deu");
    assert_eq!(disc.titles[1].audio_streams.len(), 1);
    assert_eq!(disc.titles[1].audio_streams[0].lang_code, "fra");
    assert_eq!(disc.titles[1].audio_streams[0].stream_type, "Audio");
    assert_eq!(disc.titles[0].video_stream.stream_type, "Video");
}

#[test]
fn full_probe_builds_model() {
    let probe = lines(&[
        "MSG:1005,0,1,\"MakeMKV started\",\"%1 started\",\"MakeMKV\"",
        "CINFO:1,6209,\"Blu-ray disc\"",
        "CINFO:2,0,\"MOVIE_DISC\"",
        "CINFO:33,0,\"0\"",
        "TINFO:0,2,0,\"Main\"",
        "TINFO:0,8,0,\"24\"",
        "TINFO:0,9,0,\"1:30:00\"",
        "TINFO:0,10,0,\"25.1 GB\"",
        "TINFO:0,11,0,\"26951024640\"",
        "TINFO:0,27,0,\"title_t00.mkv\"",
        "TINFO:0,33,0,\"-5\"",
        "TINFO:0,99,0,\"ignored\"",
        "SINFO:0,0,1,6201,\"Video\"",
        "SINFO:0,0,5,0,\"V_MPEG4/ISO/AVC\"",
        "SINFO:0,0,19,0,\"1920x1080\"",
        "SINFO:0,1,1,6202,\"Audio\"",
        "SINFO:0,1,3,0,\"eng\"",
        "SINFO:0,1,14,0,\"6\"",
        "SINFO:0,1,17,0,\"48000\"",
        "SINFO:0,2,1,6203,\"Subtitles\"",
        "SINFO:0,2,3,0,\"eng\"",
        "TINFO:1,9,0,\"0:02:10\"",
        "TINFO:2,9,0,\"garbage\"",
    ]);
    let disc = read_disc_properties(&probe).unwrap();
    assert_eq!(disc.disc_type, "Blu-ray disc");
    assert_eq!(disc.name, "MOVIE_DISC");
    assert_eq!(disc.order_weight, 0);
    assert_eq!(disc.titles.len(), 3);
    let t = &disc.titles[0];
    assert_eq!(t.name, "Main");
    assert_eq!(t.chapter_count, 24);
    assert_eq!(t.duration, 5400);
    assert_eq!(t.disk_size, "25.1 GB");
    assert_eq!(t.disk_size_bytes, 26951024640);
    assert_eq!(t.output_file_name, "title_t00.mkv");
    assert_eq!(t.order_weight, -5);
    assert_eq!(t.video_stream.codec_id, "V_MPEG4/ISO/AVC");
    assert_eq!(t.video_stream.video_size, "1920x1080");
    assert_eq!(t.audio_streams[0].audio_channels_count, 6);
    assert_eq!(t.audio_streams[0].audio_sample_rate, 48000);
    assert_eq!(t.subtitle_streams.len(), 1);
    assert_eq!(t.subtitle_streams[0].lang_code, "eng");
    assert_eq!(disc.titles[1].duration, 130);
    assert_eq!(disc.titles[2].duration, 0);
}

#[test]
fn stream_record_for_unseen_title_grows_list() {
    let disc = read_disc_properties(&lines(&["SINFO:2,0,1,6201,\"Video\""])).unwrap();
    assert_eq!(disc.titles.len(), 3);
    assert_eq!(disc.titles[2].id, 2);
    assert_eq!(disc.titles[2].video_stream.stream_type, "Video");
}

#[test]
fn broken_records_abort_the_probe() {
    assert_eq!(read_disc_properties(&lines(&["TINFO:x,2,0,\"a\""])).err(), Some(BuildError::BadNumber));
    assert_eq!(read_disc_properties(&lines(&["TINFO:0,y,0,\"a\""])).err(), Some(BuildError::BadNumber));
    assert_eq!(read_disc_properties(&lines(&["TINFO:0,2,0"])).err(), Some(BuildError::MissingColumn));
    assert_eq!(read_disc_properties(&lines(&["CINFO:1"])).err(), Some(BuildError::MissingColumn));
    assert_eq!(read_disc_properties(&lines(&["CINFO:33,0,\"heavy\""])).err(), Some(BuildError::BadValue));
    assert_eq!(read_disc_properties(&lines(&["TINFO:0,8,0,\"300\""])).err(), Some(BuildError::BadValue));
    assert_eq!(read_disc_properties(&lines(&["SINFO:0,0,1,0"])).err(), Some(BuildError::MissingColumn));
    assert_eq!(
        read_disc_properties(&lines(&["TINFO:0,2,0,\"ok\"", "CINFO:x,0,\"a\"", "TINFO:1,2,0,\"never\""])).err(),
        Some(BuildError::BadNumber)
    );
}

#[test]
fn unrelated_lines_are_skipped() {
    let disc = read_disc_properties(&lines(&["", "MSG:1,2,3", "DRV:0,2,999,1,\"x\",\"y\",\"/dev/sr0\""])).unwrap();
    assert!(disc.titles.is_empty());
    assert_eq!(disc.name, "");
}

#[test]
fn builder_reads_lines_one_at_a_time() {
    let mut b = DiscBuilder::new();
    assert!(b.feed_line("CINFO:2,0,\"DISC\"").is_ok());
    assert!(b.feed_line("TINFO:1,2,0,\"Second\"").is_ok());
    let disc = b.finish();
    assert_eq!(disc.name, "DISC");
    assert_eq!(disc.titles[1].name, "Second");
    assert_eq!(disc.titles[0].id, 0);
}

#[test]
fn record_handlers_apply_codes() {
    let mut disc = Disc::default();
    let cols = parse_csv_line("CINFO:32,0,\"VOLUME\"");
    assert!(handle_cinfo(&mut disc, &cols[0], &cols).is_ok());
    assert_eq!(disc.volume_name, "VOLUME");
    let cols = parse_csv_line("TINFO:1,26,0,\"1,2\"");
    assert!(handle_tinfo(&mut disc, &cols[0], &cols).is_ok());
    assert_eq!(disc.titles[1].segments_map, "1,2");
    let mut cursor = StreamCursor { kind: StreamKind::Video, audio_seen: 0, subtitle_seen: 0 };
    let cols = parse_csv_line("SINFO:1,1,1,6202,\"Audio\"");
    assert!(handle_sinfo(&mut disc, &mut cursor, &cols[0], &cols).is_ok());
    assert_eq!(cursor.kind, StreamKind::Audio);
    assert_eq!(cursor.audio_seen, 1);
    assert_eq!(disc.titles[1].audio_streams.len(), 1);

    let mut v = VideoStream::default();
    assert!(handle_video_stream(&mut v, 21, "23.976".to_string()).is_ok());
    assert_eq!(v.video_frame_rate, "23.976");
    assert_eq!(handle_video_stream(&mut v, 33, "x".to_string()), Err(BuildError::BadValue));

    let mut a: Vec<AudioStream> = Vec::new();
    assert!(handle_audio_stream(&mut a, 2, 4, "English".to_string()).is_ok());
    assert_eq!(a.len(), 3);
    assert_eq!(a[2].lang_name, "English");
    assert_eq!(a[0].lang_name, "");
}
