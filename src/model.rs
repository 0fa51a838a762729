//! The disc model: a disc, its titles, and each title's streams.

use vstd::prelude::*;

verus! {

/// The video stream of a title.
pub struct VideoStream {
    pub stream_type: String,
    pub codec_id: String,
    pub codec_short: String,
    pub codec_long: String,
    pub video_size: String,
    pub video_aspect_ratio: String,
    pub video_frame_rate: String,
    pub stream_flags: String,
    pub metadata_language_code: String,
    pub metadata_language_name: String,
    pub tree_info: String,
    pub panel_title: String,
    pub order_weight: i8,
    pub mkv_flags: String,
    pub output_conversion_type: String,
}

/// The value of a [`VideoStream`], with each text as its characters.
pub struct VideoStreamView {
    pub stream_type: Seq<char>,
    pub codec_id: Seq<char>,
    pub codec_short: Seq<char>,
    pub codec_long: Seq<char>,
    pub video_size: Seq<char>,
    pub video_aspect_ratio: Seq<char>,
    pub video_frame_rate: Seq<char>,
    pub stream_flags: Seq<char>,
    pub metadata_language_code: Seq<char>,
    pub metadata_language_name: Seq<char>,
    pub tree_info: Seq<char>,
    pub panel_title: Seq<char>,
    pub order_weight: i8,
    pub mkv_flags: Seq<char>,
    pub output_conversion_type: Seq<char>,
}

impl View for VideoStream {
    type V = VideoStreamView;

    open spec fn view(&self) -> VideoStreamView {
        VideoStreamView {
            stream_type: self.stream_type@,
            codec_id: self.codec_id@,
            codec_short: self.codec_short@,
            codec_long: self.codec_long@,
            video_size: self.video_size@,
            video_aspect_ratio: self.video_aspect_ratio@,
            video_frame_rate: self.video_frame_rate@,
            stream_flags: self.stream_flags@,
            metadata_language_code: self.metadata_language_code@,
            metadata_language_name: self.metadata_language_name@,
            tree_info: self.tree_info@,
            panel_title: self.panel_title@,
            order_weight: self.order_weight,
            mkv_flags: self.mkv_flags@,
            output_conversion_type: self.output_conversion_type@,
        }
    }
}

/// The value of a [`VideoStream`] that holds nothing yet.
pub open spec fn empty_video_stream() -> VideoStreamView {
    VideoStreamView {
        stream_type: Seq::empty(),
        codec_id: Seq::empty(),
        codec_short: Seq::empty(),
        codec_long: Seq::empty(),
        video_size: Seq::empty(),
        video_aspect_ratio: Seq::empty(),
        video_frame_rate: Seq::empty(),
        stream_flags: Seq::empty(),
        metadata_language_code: Seq::empty(),
        metadata_language_name: Seq::empty(),
        tree_info: Seq::empty(),
        panel_title: Seq::empty(),
        order_weight: 0,
        mkv_flags: Seq::empty(),
        output_conversion_type: Seq::empty(),
    }
}

impl Default for VideoStream {
    fn default() -> (r: VideoStream)
        ensures
            r@ == empty_video_stream(),
    {
        let r = VideoStream {
            stream_type: String::new(),
            codec_id: String::new(),
            codec_short: String::new(),
            codec_long: String::new(),
            video_size: String::new(),
            video_aspect_ratio: String::new(),
            video_frame_rate: String::new(),
            stream_flags: String::new(),
            metadata_language_code: String::new(),
            metadata_language_name: String::new(),
            tree_info: String::new(),
            panel_title: String::new(),
            order_weight: 0,
            mkv_flags: String::new(),
            output_conversion_type: String::new(),
        };
        r
    }
}

impl Clone for VideoStream {
    fn clone(&self) -> (r: VideoStream)
        ensures
            r@ == self@,
    {
        VideoStream {
            stream_type: self.stream_type.clone(),
            codec_id: self.codec_id.clone(),
            codec_short: self.codec_short.clone(),
            codec_long: self.codec_long.clone(),
            video_size: self.video_size.clone(),
            video_aspect_ratio: self.video_aspect_ratio.clone(),
            video_frame_rate: self.video_frame_rate.clone(),
            stream_flags: self.stream_flags.clone(),
            metadata_language_code: self.metadata_language_code.clone(),
            metadata_language_name: self.metadata_language_name.clone(),
            tree_info: self.tree_info.clone(),
            panel_title: self.panel_title.clone(),
            order_weight: self.order_weight,
            mkv_flags: self.mkv_flags.clone(),
            output_conversion_type: self.output_conversion_type.clone(),
        }
    }
}

/// One audio stream of a title.
pub struct AudioStream {
    pub stream_type: String,
    pub name: String,
    pub lang_code: String,
    pub lang_name: String,
    pub codec_id: String,
    pub codec_short: String,
    pub codec_long: String,
    pub bitrate: String,
    pub audio_channels_count: i8,
    pub audio_sample_rate: i32,
    pub audio_sample_size: i8,
    pub stream_flags: String,
    pub metadata_language_code: String,
    pub metadata_language_name: String,
    pub tree_info: String,
    pub panel_title: String,
    pub order_weight: i8,
    pub mkv_flags: String,
    pub mkv_flags_text: String,
    pub audio_channel_layout_name: String,
    pub output_conversion_type: String,
}

/// The value of a [`AudioStream`], with each text as its characters.
pub struct AudioStreamView {
    pub stream_type: Seq<char>,
    pub name: Seq<char>,
    pub lang_code: Seq<char>,
    pub lang_name: Seq<char>,
    pub codec_id: Seq<char>,
    pub codec_short: Seq<char>,
    pub codec_long: Seq<char>,
    pub bitrate: Seq<char>,
    pub audio_channels_count: i8,
    pub audio_sample_rate: i32,
    pub audio_sample_size: i8,
    pub stream_flags: Seq<char>,
    pub metadata_language_code: Seq<char>,
    pub metadata_language_name: Seq<char>,
    pub tree_info: Seq<char>,
    pub panel_title: Seq<char>,
    pub order_weight: i8,
    pub mkv_flags: Seq<char>,
    pub mkv_flags_text: Seq<char>,
    pub audio_channel_layout_name: Seq<char>,
    pub output_conversion_type: Seq<char>,
}

impl View for AudioStream {
    type V = AudioStreamView;

    open spec fn view(&self) -> AudioStreamView {
        AudioStreamView {
            stream_type: self.stream_type@,
            name: self.name@,
            lang_code: self.lang_code@,
            lang_name: self.lang_name@,
            codec_id: self.codec_id@,
            codec_short: self.codec_short@,
            codec_long: self.codec_long@,
            bitrate: self.bitrate@,
            audio_channels_count: self.audio_channels_count,
            audio_sample_rate: self.audio_sample_rate,
            audio_sample_size: self.audio_sample_size,
            stream_flags: self.stream_flags@,
            metadata_language_code: self.metadata_language_code@,
            metadata_language_name: self.metadata_language_name@,
            tree_info: self.tree_info@,
            panel_title: self.panel_title@,
            order_weight: self.order_weight,
            mkv_flags: self.mkv_flags@,
            mkv_flags_text: self.mkv_flags_text@,
            audio_channel_layout_name: self.audio_channel_layout_name@,
            output_conversion_type: self.output_conversion_type@,
        }
    }
}

/// The value of a [`AudioStream`] that holds nothing yet.
pub open spec fn empty_audio_stream() -> AudioStreamView {
    AudioStreamView {
        stream_type: Seq::empty(),
        name: Seq::empty(),
        lang_code: Seq::empty(),
        lang_name: Seq::empty(),
        codec_id: Seq::empty(),
        codec_short: Seq::empty(),
        codec_long: Seq::empty(),
        bitrate: Seq::empty(),
        audio_channels_count: 0,
        audio_sample_rate: 0,
        audio_sample_size: 0,
        stream_flags: Seq::empty(),
        metadata_language_code: Seq::empty(),
        metadata_language_name: Seq::empty(),
        tree_info: Seq::empty(),
        panel_title: Seq::empty(),
        order_weight: 0,
        mkv_flags: Seq::empty(),
        mkv_flags_text: Seq::empty(),
        audio_channel_layout_name: Seq::empty(),
        output_conversion_type: Seq::empty(),
    }
}

impl Default for AudioStream {
    fn default() -> (r: AudioStream)
        ensures
            r@ == empty_audio_stream(),
    {
        let r = AudioStream {
            stream_type: String::new(),
            name: String::new(),
            lang_code: String::new(),
            lang_name: String::new(),
            codec_id: String::new(),
            codec_short: String::new(),
            codec_long: String::new(),
            bitrate: String::new(),
            audio_channels_count: 0,
            audio_sample_rate: 0,
            audio_sample_size: 0,
            stream_flags: String::new(),
            metadata_language_code: String::new(),
            metadata_language_name: String::new(),
            tree_info: String::new(),
            panel_title: String::new(),
            order_weight: 0,
            mkv_flags: String::new(),
            mkv_flags_text: String::new(),
            audio_channel_layout_name: String::new(),
            output_conversion_type: String::new(),
        };
        r
    }
}

impl Clone for AudioStream {
    fn clone(&self) -> (r: AudioStream)
        ensures
            r@ == self@,
    {
        AudioStream {
            stream_type: self.stream_type.clone(),
            name: self.name.clone(),
            lang_code: self.lang_code.clone(),
            lang_name: self.lang_name.clone(),
            codec_id: self.codec_id.clone(),
            codec_short: self.codec_short.clone(),
            codec_long: self.codec_long.clone(),
            bitrate: self.bitrate.clone(),
            audio_channels_count: self.audio_channels_count,
            audio_sample_rate: self.audio_sample_rate,
            audio_sample_size: self.audio_sample_size,
            stream_flags: self.stream_flags.clone(),
            metadata_language_code: self.metadata_language_code.clone(),
            metadata_language_name: self.metadata_language_name.clone(),
            tree_info: self.tree_info.clone(),
            panel_title: self.panel_title.clone(),
            order_weight: self.order_weight,
            mkv_flags: self.mkv_flags.clone(),
            mkv_flags_text: self.mkv_flags_text.clone(),
            audio_channel_layout_name: self.audio_channel_layout_name.clone(),
            output_conversion_type: self.output_conversion_type.clone(),
        }
    }
}

/// One subtitle stream of a title.
pub struct SubtitleStream {
    pub stream_type: String,
    pub lang_code: String,
    pub lang_name: String,
    pub codec_id: String,
    pub codec_short: String,
    pub codec_long: String,
    pub stream_flags: String,
    pub metadata_language_code: String,
    pub metadata_language_name: String,
    pub tree_info: String,
    pub panel_title: String,
    pub order_weight: i8,
    pub mkv_flags: String,
    pub mkv_flags_text: String,
    pub output_conversion_type: String,
}

/// The value of a [`SubtitleStream`], with each text as its characters.
pub struct SubtitleStreamView {
    pub stream_type: Seq<char>,
    pub lang_code: Seq<char>,
    pub lang_name: Seq<char>,
    pub codec_id: Seq<char>,
    pub codec_short: Seq<char>,
    pub codec_long: Seq<char>,
    pub stream_flags: Seq<char>,
    pub metadata_language_code: Seq<char>,
    pub metadata_language_name: Seq<char>,
    pub tree_info: Seq<char>,
    pub panel_title: Seq<char>,
    pub order_weight: i8,
    pub mkv_flags: Seq<char>,
    pub mkv_flags_text: Seq<char>,
    pub output_conversion_type: Seq<char>,
}

impl View for SubtitleStream {
    type V = SubtitleStreamView;

    open spec fn view(&self) -> SubtitleStreamView {
        SubtitleStreamView {
            stream_type: self.stream_type@,
            lang_code: self.lang_code@,
            lang_name: self.lang_name@,
            codec_id: self.codec_id@,
            codec_short: self.codec_short@,
            codec_long: self.codec_long@,
            stream_flags: self.stream_flags@,
            metadata_language_code: self.metadata_language_code@,
            metadata_language_name: self.metadata_language_name@,
            tree_info: self.tree_info@,
            panel_title: self.panel_title@,
            order_weight: self.order_weight,
            mkv_flags: self.mkv_flags@,
            mkv_flags_text: self.mkv_flags_text@,
            output_conversion_type: self.output_conversion_type@,
        }
    }
}

/// The value of a [`SubtitleStream`] that holds nothing yet.
pub open spec fn empty_subtitle_stream() -> SubtitleStreamView {
    SubtitleStreamView {
        stream_type: Seq::empty(),
        lang_code: Seq::empty(),
        lang_name: Seq::empty(),
        codec_id: Seq::empty(),
        codec_short: Seq::empty(),
        codec_long: Seq::empty(),
        stream_flags: Seq::empty(),
        metadata_language_code: Seq::empty(),
        metadata_language_name: Seq::empty(),
        tree_info: Seq::empty(),
        panel_title: Seq::empty(),
        order_weight: 0,
        mkv_flags: Seq::empty(),
        mkv_flags_text: Seq::empty(),
        output_conversion_type: Seq::empty(),
    }
}

impl Default for SubtitleStream {
    fn default() -> (r: SubtitleStream)
        ensures
            r@ == empty_subtitle_stream(),
    {
        let r = SubtitleStream {
            stream_type: String::new(),
            lang_code: String::new(),
            lang_name: String::new(),
            codec_id: String::new(),
            codec_short: String::new(),
            codec_long: String::new(),
            stream_flags: String::new(),
            metadata_language_code: String::new(),
            metadata_language_name: String::new(),
            tree_info: String::new(),
            panel_title: String::new(),
            order_weight: 0,
            mkv_flags: String::new(),
            mkv_flags_text: String::new(),
            output_conversion_type: String::new(),
        };
        r
    }
}

impl Clone for SubtitleStream {
    fn clone(&self) -> (r: SubtitleStream)
        ensures
            r@ == self@,
    {
        SubtitleStream {
            stream_type: self.stream_type.clone(),
            lang_code: self.lang_code.clone(),
            lang_name: self.lang_name.clone(),
            codec_id: self.codec_id.clone(),
            codec_short: self.codec_short.clone(),
            codec_long: self.codec_long.clone(),
            stream_flags: self.stream_flags.clone(),
            metadata_language_code: self.metadata_language_code.clone(),
            metadata_language_name: self.metadata_language_name.clone(),
            tree_info: self.tree_info.clone(),
            panel_title: self.panel_title.clone(),
            order_weight: self.order_weight,
            mkv_flags: self.mkv_flags.clone(),
            mkv_flags_text: self.mkv_flags_text.clone(),
            output_conversion_type: self.output_conversion_type.clone(),
        }
    }
}

/// One title of a disc; its `id` is its position in the disc's title list.
pub struct Title {
    pub id: usize,
    pub name: String,
    pub chapter_count: i8,
    pub duration: u32,
    pub disk_size: String,
    pub disk_size_bytes: i64,
    pub source_file_name: String,
    pub segments_count: i8,
    pub segments_map: String,
    pub output_file_name: String,
    pub metadata_language_code: String,
    pub metadata_language_name: String,
    pub tree_info: String,
    pub panel_title: String,
    pub order_weight: i32,
    pub video_stream: VideoStream,
    pub audio_streams: Vec<AudioStream>,
    pub subtitle_streams: Vec<SubtitleStream>,
}

/// The value of a [`Title`], with each text as its characters.
pub struct TitleView {
    pub id: usize,
    pub name: Seq<char>,
    pub chapter_count: i8,
    pub duration: u32,
    pub disk_size: Seq<char>,
    pub disk_size_bytes: i64,
    pub source_file_name: Seq<char>,
    pub segments_count: i8,
    pub segments_map: Seq<char>,
    pub output_file_name: Seq<char>,
    pub metadata_language_code: Seq<char>,
    pub metadata_language_name: Seq<char>,
    pub tree_info: Seq<char>,
    pub panel_title: Seq<char>,
    pub order_weight: i32,
    pub video_stream: VideoStreamView,
    pub audio_streams: Seq<AudioStreamView>,
    pub subtitle_streams: Seq<SubtitleStreamView>,
}

impl View for Title {
    type V = TitleView;

    open spec fn view(&self) -> TitleView {
        TitleView {
            id: self.id,
            name: self.name@,
            chapter_count: self.chapter_count,
            duration: self.duration,
            disk_size: self.disk_size@,
            disk_size_bytes: self.disk_size_bytes,
            source_file_name: self.source_file_name@,
            segments_count: self.segments_count,
            segments_map: self.segments_map@,
            output_file_name: self.output_file_name@,
            metadata_language_code: self.metadata_language_code@,
            metadata_language_name: self.metadata_language_name@,
            tree_info: self.tree_info@,
            panel_title: self.panel_title@,
            order_weight: self.order_weight,
            video_stream: self.video_stream@,
            audio_streams: self.audio_streams@.map_values(|a: AudioStream| a@),
            subtitle_streams: self.subtitle_streams@.map_values(|s: SubtitleStream| s@),
        }
    }
}

/// The value of a [`Title`] that holds nothing yet.
pub open spec fn empty_title() -> TitleView {
    TitleView {
        id: 0,
        name: Seq::empty(),
        chapter_count: 0,
        duration: 0,
        disk_size: Seq::empty(),
        disk_size_bytes: 0,
        source_file_name: Seq::empty(),
        segments_count: 0,
        segments_map: Seq::empty(),
        output_file_name: Seq::empty(),
        metadata_language_code: Seq::empty(),
        metadata_language_name: Seq::empty(),
        tree_info: Seq::empty(),
        panel_title: Seq::empty(),
        order_weight: 0,
        video_stream: empty_video_stream(),
        audio_streams: Seq::empty(),
        subtitle_streams: Seq::empty(),
    }
}

impl Default for Title {
    fn default() -> (r: Title)
        ensures
            r@ == empty_title(),
    {
        let r = Title {
            id: 0,
            name: String::new(),
            chapter_count: 0,
            duration: 0,
            disk_size: String::new(),
            disk_size_bytes: 0,
            source_file_name: String::new(),
            segments_count: 0,
            segments_map: String::new(),
            output_file_name: String::new(),
            metadata_language_code: String::new(),
            metadata_language_name: String::new(),
            tree_info: String::new(),
            panel_title: String::new(),
            order_weight: 0,
            video_stream: VideoStream::default(),
            audio_streams: Vec::new(),
            subtitle_streams: Vec::new(),
        };
        assert(r@.audio_streams =~= Seq::empty());
        assert(r@.subtitle_streams =~= Seq::empty());
        r
    }
}

impl Clone for Title {
    fn clone(&self) -> (r: Title)
        ensures
            r@ == self@,
    {
        Title {
            id: self.id,
            name: self.name.clone(),
            chapter_count: self.chapter_count,
            duration: self.duration,
            disk_size: self.disk_size.clone(),
            disk_size_bytes: self.disk_size_bytes,
            source_file_name: self.source_file_name.clone(),
            segments_count: self.segments_count,
            segments_map: self.segments_map.clone(),
            output_file_name: self.output_file_name.clone(),
            metadata_language_code: self.metadata_language_code.clone(),
            metadata_language_name: self.metadata_language_name.clone(),
            tree_info: self.tree_info.clone(),
            panel_title: self.panel_title.clone(),
            order_weight: self.order_weight,
            video_stream: self.video_stream.clone(),
            audio_streams: clone_audio_streams(&self.audio_streams),
            subtitle_streams: clone_subtitle_streams(&self.subtitle_streams),
        }
    }
}

/// A disc as the ripping tool describes it, with its titles in id order.
pub struct Disc {
    pub disc_type: String,
    pub name: String,
    pub metadata_language_code: String,
    pub metadata_language_name: String,
    pub tree_info: String,
    pub panel_title: String,
    pub volume_name: String,
    pub order_weight: i8,
    pub titles: Vec<Title>,
}

/// The value of a [`Disc`], with each text as its characters.
pub struct DiscView {
    pub disc_type: Seq<char>,
    pub name: Seq<char>,
    pub metadata_language_code: Seq<char>,
    pub metadata_language_name: Seq<char>,
    pub tree_info: Seq<char>,
    pub panel_title: Seq<char>,
    pub volume_name: Seq<char>,
    pub order_weight: i8,
    pub titles: Seq<TitleView>,
}

impl View for Disc {
    type V = DiscView;

    open spec fn view(&self) -> DiscView {
        DiscView {
            disc_type: self.disc_type@,
            name: self.name@,
            metadata_language_code: self.metadata_language_code@,
            metadata_language_name: self.metadata_language_name@,
            tree_info: self.tree_info@,
            panel_title: self.panel_title@,
            volume_name: self.volume_name@,
            order_weight: self.order_weight,
            titles: self.titles@.map_values(|t: Title| t@),
        }
    }
}

/// The value of a [`Disc`] that holds nothing yet.
pub open spec fn empty_disc() -> DiscView {
    DiscView {
        disc_type: Seq::empty(),
        name: Seq::empty(),
        metadata_language_code: Seq::empty(),
        metadata_language_name: Seq::empty(),
        tree_info: Seq::empty(),
        panel_title: Seq::empty(),
        volume_name: Seq::empty(),
        order_weight: 0,
        titles: Seq::empty(),
    }
}

impl Default for Disc {
    fn default() -> (r: Disc)
        ensures
            r@ == empty_disc(),
    {
        let r = Disc {
            disc_type: String::new(),
            name: String::new(),
            metadata_language_code: String::new(),
            metadata_language_name: String::new(),
            tree_info: String::new(),
            panel_title: String::new(),
            volume_name: String::new(),
            order_weight: 0,
            titles: Vec::new(),
        };
        assert(r@.titles =~= Seq::empty());
        r
    }
}

impl Clone for Disc {
    fn clone(&self) -> (r: Disc)
        ensures
            r@ == self@,
    {
        Disc {
            disc_type: self.disc_type.clone(),
            name: self.name.clone(),
            metadata_language_code: self.metadata_language_code.clone(),
            metadata_language_name: self.metadata_language_name.clone(),
            tree_info: self.tree_info.clone(),
            panel_title: self.panel_title.clone(),
            volume_name: self.volume_name.clone(),
            order_weight: self.order_weight,
            titles: clone_titles(&self.titles),
        }
    }
}

/// An optical drive that the ripping tool reported.
pub struct Device {
    pub name: String,
    pub description: String,
    pub path: String,
}

/// The value of a [`Device`], with each text as its characters.
pub struct DeviceView {
    pub name: Seq<char>,
    pub description: Seq<char>,
    pub path: Seq<char>,
}

impl View for Device {
    type V = DeviceView;

    open spec fn view(&self) -> DeviceView {
        DeviceView {
            name: self.name@,
            description: self.description@,
            path: self.path@,
        }
    }
}

/// The value of a [`Device`] that holds nothing yet.
pub open spec fn empty_device() -> DeviceView {
    DeviceView {
        name: Seq::empty(),
        description: Seq::empty(),
        path: Seq::empty(),
    }
}

impl Default for Device {
    fn default() -> (r: Device)
        ensures
            r@ == empty_device(),
    {
        let r = Device {
            name: String::new(),
            description: String::new(),
            path: String::new(),
        };
        r
    }
}

impl Clone for Device {
    fn clone(&self) -> (r: Device)
        ensures
            r@ == self@,
    {
        Device {
            name: self.name.clone(),
            description: self.description.clone(),
            path: self.path.clone(),
        }
    }
}

/// Copies a list of audio streams.
pub fn clone_audio_streams(v: &Vec<AudioStream>) -> (r: Vec<AudioStream>)
    ensures
        r@.map_values(|x: AudioStream| x@) == v@.map_values(|x: AudioStream| x@),
{
    let mut r: Vec<AudioStream> = Vec::new();
    let mut i: usize = 0;
    while i < v.len()
        invariant
            i <= v@.len(),
            r@.map_values(|x: AudioStream| x@) == v@.take(i as int).map_values(|x: AudioStream| x@),
        decreases v@.len() - i,
    {
        r.push(v[i].clone());
        assert(v@.take(i + 1).map_values(|x: AudioStream| x@) =~= v@.take(i as int).map_values(|x: AudioStream| x@).push(v@[i as int]@));
        assert(r@.map_values(|x: AudioStream| x@) =~= v@.take(i + 1).map_values(|x: AudioStream| x@));
        i = i + 1;
    }
    assert(v@.take(v@.len() as int) =~= v@);
    r
}

/// Copies a list of subtitle streams.
pub fn clone_subtitle_streams(v: &Vec<SubtitleStream>) -> (r: Vec<SubtitleStream>)
    ensures
        r@.map_values(|x: SubtitleStream| x@) == v@.map_values(|x: SubtitleStream| x@),
{
    let mut r: Vec<SubtitleStream> = Vec::new();
    let mut i: usize = 0;
    while i < v.len()
        invariant
            i <= v@.len(),
            r@.map_values(|x: SubtitleStream| x@) == v@.take(i as int).map_values(|x: SubtitleStream| x@),
        decreases v@.len() - i,
    {
        r.push(v[i].clone());
        assert(v@.take(i + 1).map_values(|x: SubtitleStream| x@) =~= v@.take(i as int).map_values(|x: SubtitleStream| x@).push(v@[i as int]@));
        assert(r@.map_values(|x: SubtitleStream| x@) =~= v@.take(i + 1).map_values(|x: SubtitleStream| x@));
        i = i + 1;
    }
    assert(v@.take(v@.len() as int) =~= v@);
    r
}

/// Copies a list of titles.
pub fn clone_titles(v: &Vec<Title>) -> (r: Vec<Title>)
    ensures
        r@.map_values(|x: Title| x@) == v@.map_values(|x: Title| x@),
{
    let mut r: Vec<Title> = Vec::new();
    let mut i: usize = 0;
    while i < v.len()
        invariant
            i <= v@.len(),
            r@.map_values(|x: Title| x@) == v@.take(i as int).map_values(|x: Title| x@),
        decreases v@.len() - i,
    {
        r.push(v[i].clone());
        assert(v@.take(i + 1).map_values(|x: Title| x@) =~= v@.take(i as int).map_values(|x: Title| x@).push(v@[i as int]@));
        assert(r@.map_values(|x: Title| x@) =~= v@.take(i + 1).map_values(|x: Title| x@));
        i = i + 1;
    }
    assert(v@.take(v@.len() as int) =~= v@);
    r
}

} // verus!
