//! Building the disc model from the ripping tool's probe output.
//!
//! Each line is a record: `CINFO:<code>,..,<value>` for the disc,
//! `TINFO:<title>,<code>,..,<value>` for a title and
//! `SINFO:<title>,<stream>,<code>,..,<value>` for a stream. Records of a stream
//! follow its type declaration (code 1 with value `Video`, `Audio` or
//! `Subtitles`), which moves a cursor that says where the next records go.

use vstd::prelude::*;
use crate::model::{
    empty_audio_stream, empty_disc, empty_subtitle_stream, empty_title, AudioStream, AudioStreamView, Disc,
    DiscView, SubtitleStream, SubtitleStreamView, Title, TitleView, VideoStream, VideoStreamView,
};
use crate::protocol::{
    csv_fields, duration_value, int_text_value, parse_csv_line, parse_duration_to_seconds,
    parse_i32, parse_i64, parse_i8, parse_usize, views,
};
use crate::text::{has_prefix, starts_with, strip_all, strip_repeated_prefix};

verus! {

/// Why a probe's output could not be turned into a disc model.
#[derive(Debug, Clone, Copy, PartialEq, Eq)]
pub enum BuildError {
    /// A record has fewer columns than its kind needs.
    MissingColumn,
    /// A title id or a field code is not a number.
    BadNumber,
    /// A numeric attribute's value is not a number of its type.
    BadValue,
    /// More stream declarations than a counter can hold.
    TooManyStreams,
}

/// Which kind of stream the records of a stream currently describe.
#[derive(Debug, Clone, Copy, PartialEq, Eq)]
pub enum StreamKind {
    Video,
    Audio,
    Subtitle,
}

/// The seconds of a duration text, or 0 where it is malformed.
pub open spec fn duration_or_zero(s: Seq<char>) -> u32 {
    match duration_value(s) {
        Ok(d) => d,
        Err(_) => 0,
    }
}

/// The largest `usize`, as a mathematical integer.
pub open spec fn usize_max() -> int {
    usize::MAX as int
}

/// The disc after a disc record with `code` and `value`;
/// `None` where a numeric value does not parse. Unknown codes change nothing.
pub open spec fn disc_field(v: DiscView, code: int, value: Seq<char>) -> Option<DiscView> {
    if code == 1 {
        Some(DiscView { disc_type: value, ..v })
    } else if code == 2 {
        Some(DiscView { name: value, ..v })
    } else if code == 28 {
        Some(DiscView { metadata_language_code: value, ..v })
    } else if code == 29 {
        Some(DiscView { metadata_language_name: value, ..v })
    } else if code == 30 {
        Some(DiscView { tree_info: value, ..v })
    } else if code == 31 {
        Some(DiscView { panel_title: value, ..v })
    } else if code == 32 {
        Some(DiscView { volume_name: value, ..v })
    } else if code == 33 {
        match int_text_value(value, i8::MIN as int, i8::MAX as int) {
            Some(n) => Some(DiscView { order_weight: n as i8, ..v }),
            None => None,
        }
    } else {
        Some(v)
    }
}

/// The title after a title record with `code` and `value`;
/// `None` where a numeric value does not parse. Unknown codes change nothing.
pub open spec fn title_field(v: TitleView, code: int, value: Seq<char>) -> Option<TitleView> {
    if code == 2 {
        Some(TitleView { name: value, ..v })
    } else if code == 8 {
        match int_text_value(value, i8::MIN as int, i8::MAX as int) {
            Some(n) => Some(TitleView { chapter_count: n as i8, ..v }),
            None => None,
        }
    } else if code == 9 {
        Some(TitleView { duration: duration_or_zero(value), ..v })
    } else if code == 10 {
        Some(TitleView { disk_size: value, ..v })
    } else if code == 11 {
        match int_text_value(value, i64::MIN as int, i64::MAX as int) {
            Some(n) => Some(TitleView { disk_size_bytes: n as i64, ..v }),
            None => None,
        }
    } else if code == 16 {
        Some(TitleView { source_file_name: value, ..v })
    } else if code == 25 {
        match int_text_value(value, i8::MIN as int, i8::MAX as int) {
            Some(n) => Some(TitleView { segments_count: n as i8, ..v }),
            None => None,
        }
    } else if code == 26 {
        Some(TitleView { segments_map: value, ..v })
    } else if code == 27 {
        Some(TitleView { output_file_name: value, ..v })
    } else if code == 28 {
        Some(TitleView { metadata_language_code: value, ..v })
    } else if code == 29 {
        Some(TitleView { metadata_language_name: value, ..v })
    } else if code == 30 {
        Some(TitleView { tree_info: value, ..v })
    } else if code == 31 {
        Some(TitleView { panel_title: value, ..v })
    } else if code == 33 {
        match int_text_value(value, i32::MIN as int, i32::MAX as int) {
            Some(n) => Some(TitleView { order_weight: n as i32, ..v }),
            None => None,
        }
    } else {
        Some(v)
    }
}

/// The video stream after a record with `code` and `value`;
/// `None` where a numeric value does not parse. Unknown codes change nothing.
pub open spec fn video_field(v: VideoStreamView, code: int, value: Seq<char>) -> Option<VideoStreamView> {
    if code == 1 {
        Some(VideoStreamView { stream_type: value, ..v })
    } else if code == 5 {
        Some(VideoStreamView { codec_id: value, ..v })
    } else if code == 6 {
        Some(VideoStreamView { codec_short: value, ..v })
    } else if code == 7 {
        Some(VideoStreamView { codec_long: value, ..v })
    } else if code == 19 {
        Some(VideoStreamView { video_size: value, ..v })
    } else if code == 20 {
        Some(VideoStreamView { video_aspect_ratio: value, ..v })
    } else if code == 21 {
        Some(VideoStreamView { video_frame_rate: value, ..v })
    } else if code == 22 {
        Some(VideoStreamView { stream_flags: value, ..v })
    } else if code == 28 {
        Some(VideoStreamView { metadata_language_code: value, ..v })
    } else if code == 29 {
        Some(VideoStreamView { metadata_language_name: value, ..v })
    } else if code == 30 {
        Some(VideoStreamView { tree_info: value, ..v })
    } else if code == 31 {
        Some(VideoStreamView { panel_title: value, ..v })
    } else if code == 33 {
        match int_text_value(value, i8::MIN as int, i8::MAX as int) {
            Some(n) => Some(VideoStreamView { order_weight: n as i8, ..v }),
            None => None,
        }
    } else if code == 38 {
        Some(VideoStreamView { mkv_flags: value, ..v })
    } else if code == 42 {
        Some(VideoStreamView { output_conversion_type: value, ..v })
    } else {
        Some(v)
    }
}

/// The audio stream after a record with `code` and `value`;
/// `None` where a numeric value does not parse. Unknown codes change nothing.
pub open spec fn audio_field(v: AudioStreamView, code: int, value: Seq<char>) -> Option<AudioStreamView> {
    if code == 1 {
        Some(AudioStreamView { stream_type: value, ..v })
    } else if code == 2 {
        Some(AudioStreamView { name: value, ..v })
    } else if code == 3 {
        Some(AudioStreamView { lang_code: value, ..v })
    } else if code == 4 {
        Some(AudioStreamView { lang_name: value, ..v })
    } else if code == 5 {
        Some(AudioStreamView { codec_id: value, ..v })
    } else if code == 6 {
        Some(AudioStreamView { codec_short: value, ..v })
    } else if code == 7 {
        Some(AudioStreamView { codec_long: value, ..v })
    } else if code == 13 {
        Some(AudioStreamView { bitrate: value, ..v })
    } else if code == 14 {
        match int_text_value(value, i8::MIN as int, i8::MAX as int) {
            Some(n) => Some(AudioStreamView { audio_channels_count: n as i8, ..v }),
            None => None,
        }
    } else if code == 17 {
        match int_text_value(value, i32::MIN as int, i32::MAX as int) {
            Some(n) => Some(AudioStreamView { audio_sample_rate: n as i32, ..v }),
            None => None,
        }
    } else if code == 18 {
        match int_text_value(value, i8::MIN as int, i8::MAX as int) {
            Some(n) => Some(AudioStreamView { audio_sample_size: n as i8, ..v }),
            None => None,
        }
    } else if code == 22 {
        Some(AudioStreamView { stream_flags: value, ..v })
    } else if code == 28 {
        Some(AudioStreamView { metadata_language_code: value, ..v })
    } else if code == 29 {
        Some(AudioStreamView { metadata_language_name: value, ..v })
    } else if code == 30 {
        Some(AudioStreamView { tree_info: value, ..v })
    } else if code == 31 {
        Some(AudioStreamView { panel_title: value, ..v })
    } else if code == 33 {
        match int_text_value(value, i8::MIN as int, i8::MAX as int) {
            Some(n) => Some(AudioStreamView { order_weight: n as i8, ..v }),
            None => None,
        }
    } else if code == 38 {
        Some(AudioStreamView { mkv_flags: value, ..v })
    } else if code == 39 {
        Some(AudioStreamView { mkv_flags_text: value, ..v })
    } else if code == 40 {
        Some(AudioStreamView { audio_channel_layout_name: value, ..v })
    } else if code == 42 {
        Some(AudioStreamView { output_conversion_type: value, ..v })
    } else {
        Some(v)
    }
}

/// The subtitle stream after a record with `code` and `value`;
/// `None` where a numeric value does not parse. Unknown codes change nothing.
pub open spec fn subtitle_field(v: SubtitleStreamView, code: int, value: Seq<char>) -> Option<SubtitleStreamView> {
    if code == 1 {
        Some(SubtitleStreamView { stream_type: value, ..v })
    } else if code == 3 {
        Some(SubtitleStreamView { lang_code: value, ..v })
    } else if code == 4 {
        Some(SubtitleStreamView { lang_name: value, ..v })
    } else if code == 5 {
        Some(SubtitleStreamView { codec_id: value, ..v })
    } else if code == 6 {
        Some(SubtitleStreamView { codec_short: value, ..v })
    } else if code == 7 {
        Some(SubtitleStreamView { codec_long: value, ..v })
    } else if code == 22 {
        Some(SubtitleStreamView { stream_flags: value, ..v })
    } else if code == 28 {
        Some(SubtitleStreamView { metadata_language_code: value, ..v })
    } else if code == 29 {
        Some(SubtitleStreamView { metadata_language_name: value, ..v })
    } else if code == 30 {
        Some(SubtitleStreamView { tree_info: value, ..v })
    } else if code == 31 {
        Some(SubtitleStreamView { panel_title: value, ..v })
    } else if code == 33 {
        match int_text_value(value, i8::MIN as int, i8::MAX as int) {
            Some(n) => Some(SubtitleStreamView { order_weight: n as i8, ..v }),
            None => None,
        }
    } else if code == 38 {
        Some(SubtitleStreamView { mkv_flags: value, ..v })
    } else if code == 39 {
        Some(SubtitleStreamView { mkv_flags_text: value, ..v })
    } else if code == 42 {
        Some(SubtitleStreamView { output_conversion_type: value, ..v })
    } else {
        Some(v)
    }
}

/// Sets the disc attribute that `code` selects to `value`.
pub fn apply_disc_field(disc: &mut Disc, code: usize, value: String) -> (r: Result<(), BuildError>)
    ensures
        match disc_field(old(disc)@, code as int, value@) {
            Some(v) => r is Ok && final(disc)@ == v,
            None => r == Err::<(), BuildError>(BuildError::BadValue),
        },
{
    if code == 1 {
        disc.disc_type = value;
    } else if code == 2 {
        disc.name = value;
    } else if code == 28 {
        disc.metadata_language_code = value;
    } else if code == 29 {
        disc.metadata_language_name = value;
    } else if code == 30 {
        disc.tree_info = value;
    } else if code == 31 {
        disc.panel_title = value;
    } else if code == 32 {
        disc.volume_name = value;
    } else if code == 33 {
        match parse_i8(value.as_str()) {
            Some(n) => {
                disc.order_weight = n;
            },
            None => {
                return Err(BuildError::BadValue);
            },
        }
    }
    Ok(())
}

/// Sets the title attribute that `code` selects to `value`.
pub fn apply_title_field(title: &mut Title, code: usize, value: String) -> (r: Result<(), BuildError>)
    ensures
        match title_field(old(title)@, code as int, value@) {
            Some(v) => r is Ok && final(title)@ == v,
            None => r == Err::<(), BuildError>(BuildError::BadValue),
        },
{
    if code == 2 {
        title.name = value;
    } else if code == 8 {
        match parse_i8(value.as_str()) {
            Some(n) => {
                title.chapter_count = n;
            },
            None => {
                return Err(BuildError::BadValue);
            },
        }
    } else if code == 9 {
        title.duration = match parse_duration_to_seconds(value.as_str()) {
            Ok(d) => d,
            Err(_) => 0,
        };
    } else if code == 10 {
        title.disk_size = value;
    } else if code == 11 {
        match parse_i64(value.as_str()) {
            Some(n) => {
                title.disk_size_bytes = n;
            },
            None => {
                return Err(BuildError::BadValue);
            },
        }
    } else if code == 16 {
        title.source_file_name = value;
    } else if code == 25 {
        match parse_i8(value.as_str()) {
            Some(n) => {
                title.segments_count = n;
            },
            None => {
                return Err(BuildError::BadValue);
            },
        }
    } else if code == 26 {
        title.segments_map = value;
    } else if code == 27 {
        title.output_file_name = value;
    } else if code == 28 {
        title.metadata_language_code = value;
    } else if code == 29 {
        title.metadata_language_name = value;
    } else if code == 30 {
        title.tree_info = value;
    } else if code == 31 {
        title.panel_title = value;
    } else if code == 33 {
        match parse_i32(value.as_str()) {
            Some(n) => {
                title.order_weight = n;
            },
            None => {
                return Err(BuildError::BadValue);
            },
        }
    }
    Ok(())
}

/// Sets the video stream attribute that `code` selects to `value`.
pub fn handle_video_stream(stream: &mut VideoStream, code: usize, value: String) -> (r: Result<(), BuildError>)
    ensures
        match video_field(old(stream)@, code as int, value@) {
            Some(v) => r is Ok && final(stream)@ == v,
            None => r == Err::<(), BuildError>(BuildError::BadValue),
        },
{
    if code == 1 {
        stream.stream_type = value;
    } else if code == 5 {
        stream.codec_id = value;
    } else if code == 6 {
        stream.codec_short = value;
    } else if code == 7 {
        stream.codec_long = value;
    } else if code == 19 {
        stream.video_size = value;
    } else if code == 20 {
        stream.video_aspect_ratio = value;
    } else if code == 21 {
        stream.video_frame_rate = value;
    } else if code == 22 {
        stream.stream_flags = value;
    } else if code == 28 {
        stream.metadata_language_code = value;
    } else if code == 29 {
        stream.metadata_language_name = value;
    } else if code == 30 {
        stream.tree_info = value;
    } else if code == 31 {
        stream.panel_title = value;
    } else if code == 33 {
        match parse_i8(value.as_str()) {
            Some(n) => {
                stream.order_weight = n;
            },
            None => {
                return Err(BuildError::BadValue);
            },
        }
    } else if code == 38 {
        stream.mkv_flags = value;
    } else if code == 42 {
        stream.output_conversion_type = value;
    }
    Ok(())
}

/// Sets the audio stream attribute that `code` selects to `value`.
pub fn apply_audio_field(stream: &mut AudioStream, code: usize, value: String) -> (r: Result<(), BuildError>)
    ensures
        match audio_field(old(stream)@, code as int, value@) {
            Some(v) => r is Ok && final(stream)@ == v,
            None => r == Err::<(), BuildError>(BuildError::BadValue),
        },
{
    if code == 1 {
        stream.stream_type = value;
    } else if code == 2 {
        stream.name = value;
    } else if code == 3 {
        stream.lang_code = value;
    } else if code == 4 {
        stream.lang_name = value;
    } else if code == 5 {
        stream.codec_id = value;
    } else if code == 6 {
        stream.codec_short = value;
    } else if code == 7 {
        stream.codec_long = value;
    } else if code == 13 {
        stream.bitrate = value;
    } else if code == 14 {
        match parse_i8(value.as_str()) {
            Some(n) => {
                stream.audio_channels_count = n;
            },
            None => {
                return Err(BuildError::BadValue);
            },
        }
    } else if code == 17 {
        match parse_i32(value.as_str()) {
            Some(n) => {
                stream.audio_sample_rate = n;
            },
            None => {
                return Err(BuildError::BadValue);
            },
        }
    } else if code == 18 {
        match parse_i8(value.as_str()) {
            Some(n) => {
                stream.audio_sample_size = n;
            },
            None => {
                return Err(BuildError::BadValue);
            },
        }
    } else if code == 22 {
        stream.stream_flags = value;
    } else if code == 28 {
        stream.metadata_language_code = value;
    } else if code == 29 {
        stream.metadata_language_name = value;
    } else if code == 30 {
        stream.tree_info = value;
    } else if code == 31 {
        stream.panel_title = value;
    } else if code == 33 {
        match parse_i8(value.as_str()) {
            Some(n) => {
                stream.order_weight = n;
            },
            None => {
                return Err(BuildError::BadValue);
            },
        }
    } else if code == 38 {
        stream.mkv_flags = value;
    } else if code == 39 {
        stream.mkv_flags_text = value;
    } else if code == 40 {
        stream.audio_channel_layout_name = value;
    } else if code == 42 {
        stream.output_conversion_type = value;
    }
    Ok(())
}

/// Sets the subtitle stream attribute that `code` selects to `value`.
pub fn apply_subtitle_field(stream: &mut SubtitleStream, code: usize, value: String) -> (r: Result<(), BuildError>)
    ensures
        match subtitle_field(old(stream)@, code as int, value@) {
            Some(v) => r is Ok && final(stream)@ == v,
            None => r == Err::<(), BuildError>(BuildError::BadValue),
        },
{
    if code == 1 {
        stream.stream_type = value;
    } else if code == 3 {
        stream.lang_code = value;
    } else if code == 4 {
        stream.lang_name = value;
    } else if code == 5 {
        stream.codec_id = value;
    } else if code == 6 {
        stream.codec_short = value;
    } else if code == 7 {
        stream.codec_long = value;
    } else if code == 22 {
        stream.stream_flags = value;
    } else if code == 28 {
        stream.metadata_language_code = value;
    } else if code == 29 {
        stream.metadata_language_name = value;
    } else if code == 30 {
        stream.tree_info = value;
    } else if code == 31 {
        stream.panel_title = value;
    } else if code == 33 {
        match parse_i8(value.as_str()) {
            Some(n) => {
                stream.order_weight = n;
            },
            None => {
                return Err(BuildError::BadValue);
            },
        }
    } else if code == 38 {
        stream.mkv_flags = value;
    } else if code == 39 {
        stream.mkv_flags_text = value;
    } else if code == 42 {
        stream.output_conversion_type = value;
    }
    Ok(())
}

/// The list `ss` grown with empty streams so that it has an entry at `index`.
pub open spec fn grow_audio(ss: Seq<AudioStreamView>, index: int) -> Seq<AudioStreamView> {
    if index < ss.len() {
        ss
    } else {
        ss + Seq::new((index + 1 - ss.len()) as nat, |k: int| empty_audio_stream())
    }
}

/// The list of streams after a record with `code` and `value` for the stream at
/// `index`, which is added first (with empty ones before it) if missing.
pub open spec fn audio_list_field(ss: Seq<AudioStreamView>, index: int, code: int, value: Seq<char>) -> Option<Seq<AudioStreamView>> {
    let g = grow_audio(ss, index);
    match audio_field(g[index], code, value) {
        Some(s) => Some(g.update(index, s)),
        None => None,
    }
}

fn grow_audio_streams(streams: &mut Vec<AudioStream>, index: usize)
    ensures
        final(streams)@.map_values(|s: AudioStream| s@) == grow_audio(old(streams)@.map_values(|s: AudioStream| s@), index as int),
        index < final(streams)@.len(),
{
    let ghost start = streams@.map_values(|s: AudioStream| s@);
    while streams.len() <= index
        invariant
            start.len() <= streams@.len(),
            streams@.len() <= index + 1 || streams@.len() == start.len(),
            streams@.map_values(|s: AudioStream| s@) == start + Seq::new((streams@.len() - start.len()) as nat, |k: int| empty_audio_stream()),
        decreases index + 1 - streams@.len(),
    {
        let ghost before = streams@.map_values(|s: AudioStream| s@);
        streams.push(AudioStream::default());
        assert(streams@.map_values(|s: AudioStream| s@) =~= before.push(empty_audio_stream()));
        assert(streams@.map_values(|s: AudioStream| s@) =~= start + Seq::new((streams@.len() - start.len()) as nat, |k: int| empty_audio_stream()));
    }
    assert(index < start.len() ==> start + Seq::new(0, |k: int| empty_audio_stream()) =~= start);
}

/// Applies a record with `code` and `value` to the audio stream at `index`,
/// adding it (with empty streams before it) if the list is shorter.
pub fn handle_audio_stream(streams: &mut Vec<AudioStream>, index: usize, code: usize, value: String) -> (r: Result<(), BuildError>)
    ensures
        match audio_list_field(old(streams)@.map_values(|s: AudioStream| s@), index as int, code as int, value@) {
            Some(ss) => r is Ok && final(streams)@.map_values(|s: AudioStream| s@) == ss,
            None => r == Err::<(), BuildError>(BuildError::BadValue),
        },
{
    grow_audio_streams(streams, index);
    let ghost grown = streams@.map_values(|s: AudioStream| s@);
    let r = apply_audio_field(&mut streams[index], code, value);
    assert(r is Ok ==> streams@.map_values(|s: AudioStream| s@) =~= grown.update(index as int, streams@[index as int]@));
    r
}

/// The list `ss` grown with empty streams so that it has an entry at `index`.
pub open spec fn grow_subtitle(ss: Seq<SubtitleStreamView>, index: int) -> Seq<SubtitleStreamView> {
    if index < ss.len() {
        ss
    } else {
        ss + Seq::new((index + 1 - ss.len()) as nat, |k: int| empty_subtitle_stream())
    }
}

/// The list of streams after a record with `code` and `value` for the stream at
/// `index`, which is added first (with empty ones before it) if missing.
pub open spec fn subtitle_list_field(ss: Seq<SubtitleStreamView>, index: int, code: int, value: Seq<char>) -> Option<Seq<SubtitleStreamView>> {
    let g = grow_subtitle(ss, index);
    match subtitle_field(g[index], code, value) {
        Some(s) => Some(g.update(index, s)),
        None => None,
    }
}

fn grow_subtitle_streams(streams: &mut Vec<SubtitleStream>, index: usize)
    ensures
        final(streams)@.map_values(|s: SubtitleStream| s@) == grow_subtitle(old(streams)@.map_values(|s: SubtitleStream| s@), index as int),
        index < final(streams)@.len(),
{
    let ghost start = streams@.map_values(|s: SubtitleStream| s@);
    while streams.len() <= index
        invariant
            start.len() <= streams@.len(),
            streams@.len() <= index + 1 || streams@.len() == start.len(),
            streams@.map_values(|s: SubtitleStream| s@) == start + Seq::new((streams@.len() - start.len()) as nat, |k: int| empty_subtitle_stream()),
        decreases index + 1 - streams@.len(),
    {
        let ghost before = streams@.map_values(|s: SubtitleStream| s@);
        streams.push(SubtitleStream::default());
        assert(streams@.map_values(|s: SubtitleStream| s@) =~= before.push(empty_subtitle_stream()));
        assert(streams@.map_values(|s: SubtitleStream| s@) =~= start + Seq::new((streams@.len() - start.len()) as nat, |k: int| empty_subtitle_stream()));
    }
    assert(index < start.len() ==> start + Seq::new(0, |k: int| empty_subtitle_stream()) =~= start);
}

/// Applies a record with `code` and `value` to the subtitle stream at `index`,
/// adding it (with empty streams before it) if the list is shorter.
pub fn handle_subtitle_stream(streams: &mut Vec<SubtitleStream>, index: usize, code: usize, value: String) -> (r: Result<(), BuildError>)
    ensures
        match subtitle_list_field(old(streams)@.map_values(|s: SubtitleStream| s@), index as int, code as int, value@) {
            Some(ss) => r is Ok && final(streams)@.map_values(|s: SubtitleStream| s@) == ss,
            None => r == Err::<(), BuildError>(BuildError::BadValue),
        },
{
    grow_subtitle_streams(streams, index);
    let ghost grown = streams@.map_values(|s: SubtitleStream| s@);
    let r = apply_subtitle_field(&mut streams[index], code, value);
    assert(r is Ok ==> streams@.map_values(|s: SubtitleStream| s@) =~= grown.update(index as int, streams@[index as int]@));
    r
}

/// The tag of disc records.
pub open spec fn disc_tag() -> Seq<char> {
    seq!['C', 'I', 'N', 'F', 'O', ':']
}

/// The tag of title records.
pub open spec fn title_tag() -> Seq<char> {
    seq!['T', 'I', 'N', 'F', 'O', ':']
}

/// The tag of stream records.
pub open spec fn stream_tag() -> Seq<char> {
    seq!['S', 'I', 'N', 'F', 'O', ':']
}

/// A placeholder title at position `id`: empty but for its id.
pub open spec fn placeholder_title(id: int) -> TitleView {
    TitleView { id: id as usize, ..empty_title() }
}

/// The title list grown with placeholders so that it has an entry at `id`.
pub open spec fn grow_titles(ts: Seq<TitleView>, id: int) -> Seq<TitleView> {
    if id < ts.len() {
        ts
    } else {
        ts + Seq::new((id + 1 - ts.len()) as nat, |k: int| placeholder_title(ts.len() + k))
    }
}

/// Every title's id is its position in the list.
pub open spec fn ids_are_positions(ts: Seq<TitleView>) -> bool {
    forall|i: int| 0 <= i < ts.len() ==> (#[trigger] ts[i]).id == i
}

/// A number field of a record, as the protocol's ids and codes are read.
pub open spec fn number_field(s: Seq<char>) -> Option<int> {
    int_text_value(s, 0, usize_max())
}

/// The disc after the disc record `cols`, whose first column is `head`.
pub open spec fn cinfo_step(d: DiscView, cols: Seq<Seq<char>>) -> Result<DiscView, BuildError> {
    let code = number_field(strip_all(cols[0], disc_tag()));
    if code is None {
        Err(BuildError::BadNumber)
    } else if cols.len() <= 2 {
        Err(BuildError::MissingColumn)
    } else {
        match disc_field(d, code->0, cols[2]) {
            Some(d2) => Ok(d2),
            None => Err(BuildError::BadValue),
        }
    }
}

/// The disc after the title record `cols`.
pub open spec fn tinfo_step(d: DiscView, cols: Seq<Seq<char>>) -> Result<DiscView, BuildError> {
    let id = number_field(strip_all(cols[0], title_tag()));
    if id is None {
        Err(BuildError::BadNumber)
    } else if cols.len() <= 1 {
        Err(BuildError::MissingColumn)
    } else if number_field(cols[1]) is None {
        Err(BuildError::BadNumber)
    } else if cols.len() <= 3 {
        Err(BuildError::MissingColumn)
    } else {
        let ts = grow_titles(d.titles, id->0);
        match title_field(ts[id->0], number_field(cols[1])->0, cols[3]) {
            Some(t) => Ok(DiscView { titles: ts.update(id->0, t), ..d }),
            None => Err(BuildError::BadValue),
        }
    }
}

fn grow_title_list(titles: &mut Vec<Title>, id: usize)
    ensures
        final(titles)@.map_values(|t: Title| t@) == grow_titles(old(titles)@.map_values(|t: Title| t@), id as int),
        id < final(titles)@.len(),
{
    let ghost start = titles@.map_values(|t: Title| t@);
    while titles.len() <= id
        invariant
            start.len() <= titles@.len(),
            titles@.len() <= id + 1 || titles@.len() == start.len(),
            titles@.map_values(|t: Title| t@) == start + Seq::new((titles@.len() - start.len()) as nat, |k: int| placeholder_title(start.len() + k)),
        decreases id + 1 - titles@.len(),
    {
        let ghost before = titles@.map_values(|t: Title| t@);
        let mut t = Title::default();
        t.id = titles.len();
        titles.push(t);
        assert(titles@.map_values(|t: Title| t@) =~= before.push(placeholder_title(before.len() as int)));
        assert(titles@.map_values(|t: Title| t@) =~= start + Seq::new((titles@.len() - start.len()) as nat, |k: int| placeholder_title(start.len() + k)));
    }
    assert(id < start.len() ==> start + Seq::new(0, |k: int| placeholder_title(start.len() + k)) =~= start);
}

/// Applies a disc record, whose first column is `x`, to the disc.
pub fn handle_cinfo(disc: &mut Disc, x: &str, columns: &Vec<String>) -> (r: Result<(), BuildError>)
    requires
        columns@.len() >= 1,
        columns@[0]@ == x@,
    ensures
        match cinfo_step(old(disc)@, views(columns@)) {
            Ok(d) => r is Ok && final(disc)@ == d,
            Err(e) => r == Err::<(), BuildError>(e),
        },
{
    let tag = "CINFO:";
    proof {
        reveal_strlit("CINFO:");
        assert(tag@ =~= disc_tag());
    }
    let code = match parse_usize(strip_repeated_prefix(x, tag).as_str()) {
        Some(c) => c,
        None => {
            return Err(BuildError::BadNumber);
        },
    };
    if columns.len() <= 2 {
        return Err(BuildError::MissingColumn);
    }
    let value = columns[2].clone();
    apply_disc_field(disc, code, value)
}

/// Applies a title record, whose first column is `x`, to the disc; a title id
/// beyond the list adds placeholders up to it.
pub fn handle_tinfo(disc: &mut Disc, x: &str, columns: &Vec<String>) -> (r: Result<(), BuildError>)
    requires
        columns@.len() >= 1,
        columns@[0]@ == x@,
    ensures
        match tinfo_step(old(disc)@, views(columns@)) {
            Ok(d) => r is Ok && final(disc)@ == d,
            Err(e) => r == Err::<(), BuildError>(e),
        },
{
    let tag = "TINFO:";
    proof {
        reveal_strlit("TINFO:");
        assert(tag@ =~= title_tag());
    }
    let id = match parse_usize(strip_repeated_prefix(x, tag).as_str()) {
        Some(c) => c,
        None => {
            return Err(BuildError::BadNumber);
        },
    };
    if columns.len() <= 1 {
        return Err(BuildError::MissingColumn);
    }
    let code = match parse_usize(columns[1].as_str()) {
        Some(c) => c,
        None => {
            return Err(BuildError::BadNumber);
        },
    };
    if columns.len() <= 3 {
        return Err(BuildError::MissingColumn);
    }
    let value = columns[3].clone();
    grow_title_list(&mut disc.titles, id);
    let ghost grown = disc.titles@.map_values(|t: Title| t@);
    let r = apply_title_field(&mut disc.titles[id], code, value);
    assert(r is Ok ==> disc.titles@.map_values(|t: Title| t@) =~= grown.update(id as int, disc.titles@[id as int]@));
    r
}

/// Where stream records go: the kind of the stream declared last, and how many
/// audio and subtitle streams were declared since the last video stream.
#[derive(Debug, Clone, Copy)]
pub struct StreamCursor {
    pub kind: StreamKind,
    pub audio_seen: usize,
    pub subtitle_seen: usize,
}

/// The cursor before any stream record.
pub open spec fn initial_cursor() -> StreamCursor {
    StreamCursor { kind: StreamKind::Video, audio_seen: 0, subtitle_seen: 0 }
}

/// A cursor on an audio or subtitle stream points at one that was declared.
pub open spec fn cursor_ok(c: StreamCursor) -> bool {
    &&& c.kind == StreamKind::Audio ==> c.audio_seen >= 1
    &&& c.kind == StreamKind::Subtitle ==> c.subtitle_seen >= 1
}

/// The type declaration value of a video stream.
pub open spec fn video_word() -> Seq<char> {
    seq!['V', 'i', 'd', 'e', 'o']
}

/// The type declaration value of an audio stream.
pub open spec fn audio_word() -> Seq<char> {
    seq!['A', 'u', 'd', 'i', 'o']
}

/// The type declaration value of a subtitle stream.
pub open spec fn subtitles_word() -> Seq<char> {
    seq!['S', 'u', 'b', 't', 'i', 't', 'l', 'e', 's']
}

/// The cursor after a stream record with `code` and `value`: a type
/// declaration (code 1) of a video stream resets both counters, one of an
/// audio or subtitle stream moves to the next index of its kind. `None` where
/// a counter would overflow.
pub open spec fn declare(c: StreamCursor, code: int, value: Seq<char>) -> Option<StreamCursor> {
    if code != 1 {
        Some(c)
    } else if value == video_word() {
        Some(StreamCursor { kind: StreamKind::Video, audio_seen: 0, subtitle_seen: 0 })
    } else if value == audio_word() {
        if c.audio_seen == usize::MAX {
            None
        } else {
            Some(StreamCursor { kind: StreamKind::Audio, audio_seen: (c.audio_seen + 1) as usize, ..c })
        }
    } else if value == subtitles_word() {
        if c.subtitle_seen == usize::MAX {
            None
        } else {
            Some(StreamCursor { kind: StreamKind::Subtitle, subtitle_seen: (c.subtitle_seen + 1) as usize, ..c })
        }
    } else {
        Some(c)
    }
}

/// The title after a stream record with `code` and `value`, sent where the
/// cursor `c` points.
pub open spec fn stream_into_title(t: TitleView, c: StreamCursor, code: int, value: Seq<char>) -> Option<TitleView> {
    match c.kind {
        StreamKind::Video => match video_field(t.video_stream, code, value) {
            Some(v) => Some(TitleView { video_stream: v, ..t }),
            None => None,
        },
        StreamKind::Audio => match audio_list_field(t.audio_streams, c.audio_seen - 1, code, value) {
            Some(ss) => Some(TitleView { audio_streams: ss, ..t }),
            None => None,
        },
        StreamKind::Subtitle => match subtitle_list_field(t.subtitle_streams, c.subtitle_seen - 1, code, value) {
            Some(ss) => Some(TitleView { subtitle_streams: ss, ..t }),
            None => None,
        },
    }
}

/// The disc and cursor after the stream record `cols`; a title id beyond the
/// list adds placeholders up to it.
pub open spec fn sinfo_step(d: DiscView, c: StreamCursor, cols: Seq<Seq<char>>) -> Result<(DiscView, StreamCursor), BuildError> {
    let id = number_field(strip_all(cols[0], stream_tag()));
    if id is None {
        Err(BuildError::BadNumber)
    } else if cols.len() <= 2 {
        Err(BuildError::MissingColumn)
    } else if number_field(cols[2]) is None {
        Err(BuildError::BadNumber)
    } else if cols.len() <= 4 {
        Err(BuildError::MissingColumn)
    } else {
        let code = number_field(cols[2])->0;
        match declare(c, code, cols[4]) {
            None => Err(BuildError::TooManyStreams),
            Some(c2) => {
                let ts = grow_titles(d.titles, id->0);
                match stream_into_title(ts[id->0], c2, code, cols[4]) {
                    Some(t) => Ok((DiscView { titles: ts.update(id->0, t), ..d }, c2)),
                    None => Err(BuildError::BadValue),
                }
            },
        }
    }
}

fn declare_stream(cursor: &mut StreamCursor, code: usize, value: &str) -> (r: bool)
    requires
        cursor_ok(*old(cursor)),
    ensures
        match declare(*old(cursor), code as int, value@) {
            Some(c) => r && *final(cursor) == c,
            None => !r,
        },
        cursor_ok(*final(cursor)),
{
    if code != 1 {
        return true;
    }
    let video = "Video";
    let audio = "Audio";
    let subtitles = "Subtitles";
    proof {
        reveal_strlit("Video");
        reveal_strlit("Audio");
        reveal_strlit("Subtitles");
        assert(video@ =~= video_word());
        assert(audio@ =~= audio_word());
        assert(subtitles@ =~= subtitles_word());
    }
    if value.unicode_len() == 5 && starts_with(value, video) {
        assert(value@ =~= video_word());
        *cursor = StreamCursor { kind: StreamKind::Video, audio_seen: 0, subtitle_seen: 0 };
    } else if value.unicode_len() == 5 && starts_with(value, audio) {
        assert(value@ =~= audio_word());
        if cursor.audio_seen == usize::MAX {
            return false;
        }
        cursor.kind = StreamKind::Audio;
        cursor.audio_seen = cursor.audio_seen + 1;
    } else if value.unicode_len() == 9 && starts_with(value, subtitles) {
        assert(value@ =~= subtitles_word());
        if cursor.subtitle_seen == usize::MAX {
            return false;
        }
        cursor.kind = StreamKind::Subtitle;
        cursor.subtitle_seen = cursor.subtitle_seen + 1;
    } else {
        assert(value@ != video_word() && value@ != audio_word() && value@ != subtitles_word()) by {
            if value@ == video_word() {
                assert(value@.subrange(0, 5) =~= video@);
            }
            if value@ == audio_word() {
                assert(value@.subrange(0, 5) =~= audio@);
            }
            if value@ == subtitles_word() {
                assert(value@.subrange(0, 9) =~= subtitles@);
            }
        }
    }
    true
}

/// Applies a stream record, whose first column is `x`, to the disc, and moves
/// the cursor on a type declaration.
pub fn handle_sinfo(disc: &mut Disc, cursor: &mut StreamCursor, x: &str, columns: &Vec<String>) -> (r: Result<(), BuildError>)
    requires
        columns@.len() >= 1,
        columns@[0]@ == x@,
        cursor_ok(*old(cursor)),
    ensures
        cursor_ok(*final(cursor)),
        match sinfo_step(old(disc)@, *old(cursor), views(columns@)) {
            Ok((d, c)) => r is Ok && final(disc)@ == d && *final(cursor) == c,
            Err(e) => r == Err::<(), BuildError>(e),
        },
{
    let tag = "SINFO:";
    proof {
        reveal_strlit("SINFO:");
        assert(tag@ =~= stream_tag());
    }
    let id = match parse_usize(strip_repeated_prefix(x, tag).as_str()) {
        Some(c) => c,
        None => {
            return Err(BuildError::BadNumber);
        },
    };
    if columns.len() <= 2 {
        return Err(BuildError::MissingColumn);
    }
    let code = match parse_usize(columns[2].as_str()) {
        Some(c) => c,
        None => {
            return Err(BuildError::BadNumber);
        },
    };
    if columns.len() <= 4 {
        return Err(BuildError::MissingColumn);
    }
    let value = columns[4].clone();
    if !declare_stream(cursor, code, value.as_str()) {
        return Err(BuildError::TooManyStreams);
    }
    grow_title_list(&mut disc.titles, id);
    let ghost grown = disc.titles@.map_values(|t: Title| t@);
    let kind = cursor.kind;
    let r = match kind {
        StreamKind::Video => handle_video_stream(&mut disc.titles[id].video_stream, code, value),
        StreamKind::Audio => {
            let index = cursor.audio_seen - 1;
            handle_audio_stream(&mut disc.titles[id].audio_streams, index, code, value)
        },
        StreamKind::Subtitle => {
            let index = cursor.subtitle_seen - 1;
            handle_subtitle_stream(&mut disc.titles[id].subtitle_streams, index, code, value)
        },
    };
    assert(r is Ok ==> disc.titles@.map_values(|t: Title| t@) =~= grown.update(id as int, disc.titles@[id as int]@));
    r
}

/// The disc and cursor after one line of probe output; lines of other kinds
/// change nothing.
pub open spec fn line_step(d: DiscView, c: StreamCursor, line: Seq<char>) -> Result<(DiscView, StreamCursor), BuildError> {
    let cols = csv_fields(line);
    if has_prefix(cols[0], disc_tag()) {
        match cinfo_step(d, cols) {
            Ok(d2) => Ok((d2, c)),
            Err(e) => Err(e),
        }
    } else if has_prefix(cols[0], title_tag()) {
        match tinfo_step(d, cols) {
            Ok(d2) => Ok((d2, c)),
            Err(e) => Err(e),
        }
    } else if has_prefix(cols[0], stream_tag()) {
        sinfo_step(d, c, cols)
    } else {
        Ok((d, c))
    }
}

/// The disc and cursor after the lines `lines`, read in order from an empty
/// disc; the first failing line decides the error.
pub open spec fn build_from(lines: Seq<Seq<char>>) -> Result<(DiscView, StreamCursor), BuildError>
    decreases lines.len(),
{
    if lines.len() == 0 {
        Ok((empty_disc(), initial_cursor()))
    } else {
        match build_from(lines.drop_last()) {
            Ok((d, c)) => line_step(d, c, lines.last()),
            Err(e) => Err(e),
        }
    }
}

proof fn lemma_grow_keeps_ids(ts: Seq<TitleView>, id: int)
    requires
        ids_are_positions(ts),
        0 <= id <= usize_max(),
    ensures
        ids_are_positions(grow_titles(ts, id)),
        id < grow_titles(ts, id).len(),
{
    let g = grow_titles(ts, id);
    assert forall|i: int| 0 <= i < g.len() implies (#[trigger] g[i]).id == i by {
        if i >= ts.len() {
            assert(g[i] == placeholder_title(ts.len() + (i - ts.len())));
        }
    }
}

proof fn lemma_line_keeps_ids(d: DiscView, c: StreamCursor, line: Seq<char>)
    requires
        ids_are_positions(d.titles),
        cursor_ok(c),
    ensures
        line_step(d, c, line) matches Ok((d2, c2)) ==> ids_are_positions(d2.titles) && cursor_ok(c2),
{
    let cols = csv_fields(line);
    let tid = number_field(strip_all(cols[0], title_tag()));
    if tid is Some {
        lemma_grow_keeps_ids(d.titles, tid->0);
    }
    let sid = number_field(strip_all(cols[0], stream_tag()));
    if sid is Some {
        lemma_grow_keeps_ids(d.titles, sid->0);
    }
    if let Ok((d2, c2)) = line_step(d, c, line) {
        assert forall|i: int| 0 <= i < d2.titles.len() implies (#[trigger] d2.titles[i]).id == i by {
        }
    }
}

/// Folds probe output, one line at a time, into a disc model.
pub struct DiscBuilder {
    disc: Disc,
    cursor: StreamCursor,
}

impl DiscBuilder {
    /// The disc built so far.
    pub closed spec fn disc_view(&self) -> DiscView {
        self.disc@
    }

    /// The stream cursor.
    pub closed spec fn cursor(&self) -> StreamCursor {
        self.cursor
    }

    /// The builder's invariant: title ids are positions, and the cursor points
    /// at a declared stream.
    pub closed spec fn wf(&self) -> bool {
        ids_are_positions(self.disc@.titles) && cursor_ok(self.cursor)
    }

    /// A builder that has read nothing.
    pub fn new() -> (b: DiscBuilder)
        ensures
            b.wf(),
            b.disc_view() == empty_disc(),
            b.cursor() == initial_cursor(),
    {
        DiscBuilder {
            disc: Disc::default(),
            cursor: StreamCursor { kind: StreamKind::Video, audio_seen: 0, subtitle_seen: 0 },
        }
    }

    /// Reads one line of probe output.
    pub fn feed_line(&mut self, line: &str) -> (r: Result<(), BuildError>)
        requires
            old(self).wf(),
        ensures
            match line_step(old(self).disc_view(), old(self).cursor(), line@) {
                Ok((d, c)) => r is Ok && final(self).wf() && final(self).disc_view() == d && final(self).cursor() == c,
                Err(e) => r == Err::<(), BuildError>(e),
            },
    {
        proof {
            lemma_line_keeps_ids(self.disc@, self.cursor, line@);
        }
        let columns = parse_csv_line(line);
        let head = columns[0].as_str();
        let c = "CINFO:";
        let t = "TINFO:";
        let s = "SINFO:";
        proof {
            reveal_strlit("CINFO:");
            reveal_strlit("TINFO:");
            reveal_strlit("SINFO:");
            assert(c@ =~= disc_tag());
            assert(t@ =~= title_tag());
            assert(s@ =~= stream_tag());
        }
        if starts_with(head, c) {
            handle_cinfo(&mut self.disc, head, &columns)
        } else if starts_with(head, t) {
            handle_tinfo(&mut self.disc, head, &columns)
        } else if starts_with(head, s) {
            handle_sinfo(&mut self.disc, &mut self.cursor, head, &columns)
        } else {
            Ok(())
        }
    }

    /// The disc built so far.
    pub fn finish(self) -> (d: Disc)
        requires
            self.wf(),
        ensures
            d@ == self.disc_view(),
            ids_are_positions(d@.titles),
    {
        self.disc
    }
}

/// Builds the disc model from the ripping tool's probe output, line by line.
///
/// Fails on the first record whose id, code or numeric value does not parse,
/// or that lacks a column its kind needs. Title ids in the result are the
/// titles' positions.
pub fn read_disc_properties(lines: &Vec<String>) -> (r: Result<Disc, BuildError>)
    ensures
        match build_from(views(lines@)) {
            Ok((d, _)) => r is Ok && r->Ok_0@ == d,
            Err(e) => r == Err::<Disc, BuildError>(e),
        },
        r is Ok ==> ids_are_positions(r->Ok_0@.titles),
{
    let mut builder = DiscBuilder::new();
    let mut i: usize = 0;
    proof {
        assert(views(lines@).take(0) =~= Seq::<Seq<char>>::empty());
    }
    while i < lines.len()
        invariant
            i <= lines@.len(),
            builder.wf(),
            build_from(views(lines@).take(i as int)) == Ok::<(DiscView, StreamCursor), BuildError>((builder.disc_view(), builder.cursor())),
        decreases lines@.len() - i,
    {
        assert(views(lines@).take(i + 1).drop_last() =~= views(lines@).take(i as int));
        match builder.feed_line(lines[i].as_str()) {
            Ok(()) => {},
            Err(e) => {
                proof {
                    lemma_failure_sticks(views(lines@), i as int + 1);
                }
                return Err(e);
            },
        }
        i = i + 1;
    }
    assert(views(lines@).take(lines@.len() as int) =~= views(lines@));
    Ok(builder.finish())
}

proof fn lemma_failure_sticks(lines: Seq<Seq<char>>, k: int)
    requires
        0 <= k <= lines.len(),
        build_from(lines.take(k)) is Err,
    ensures
        build_from(lines) == build_from(lines.take(k)),
    decreases lines.len() - k,
{
    if k < lines.len() {
        assert(lines.take(k + 1).drop_last() =~= lines.take(k));
        lemma_failure_sticks(lines, k + 1);
    } else {
        assert(lines.take(k) =~= lines);
    }
}

/// A title record for an id beyond the end of the list grows the list to
/// that id: the titles that were there stay, and those in the gap are
/// placeholders whose ids are their positions.
pub proof fn lemma_title_reference_fills_gaps(d: DiscView, cols: Seq<Seq<char>>, id: int)
    requires
        cols.len() >= 1,
        number_field(strip_all(cols[0], title_tag())) == Some(id),
        id >= d.titles.len(),
        tinfo_step(d, cols) is Ok,
    ensures
        ({
            let d2 = tinfo_step(d, cols)->Ok_0;
            &&& d2.titles.len() == id + 1
            &&& forall|i: int| 0 <= i < d.titles.len() ==> #[trigger] d2.titles[i] == d.titles[i]
            &&& forall|i: int| d.titles.len() <= i < id ==> #[trigger] d2.titles[i] == placeholder_title(i)
        }),
{
    let ts = grow_titles(d.titles, id);
    assert forall|i: int| d.titles.len() <= i < id implies #[trigger] ts[i] == placeholder_title(i) by {
        assert(ts[i] == placeholder_title(d.titles.len() + (i - d.titles.len())));
    }
}

/// An audio type declaration after a video one addresses the audio stream at
/// index 0, whatever was declared before.
pub proof fn lemma_audio_after_video_starts_at_zero(c: StreamCursor)
    ensures
        declare(c, 1, video_word()) matches Some(c1) && declare(c1, 1, audio_word()) matches Some(c2)
            && c2.kind == StreamKind::Audio && c2.audio_seen - 1 == 0,
{
    assert(video_word() != audio_word());
}

} // verus!
