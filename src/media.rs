//! The data model: media sources, frames, cues, playback states and errors.
use vstd::prelude::*;
use crate::text::{contains, ends_with, starts_with, str_to_chars};
use crate::text::{contains_spec, ends_with_spec, starts_with_spec};

verus! {

/// Network protocol of a stream source.
#[derive(Debug, Clone, Copy, PartialEq, Eq, Structural)]
pub enum StreamProtocol {
    RTSP,
    RTMP,
    HLS,
    HTTP,
}

impl StreamProtocol {
    pub fn as_str(&self) -> (r: &'static str)
        ensures
            r@ == match *self {
                StreamProtocol::RTSP => "RTSP"@,
                StreamProtocol::RTMP => "RTMP"@,
                StreamProtocol::HLS => "HLS"@,
                StreamProtocol::HTTP => "HTTP"@,
            },
    {
        match self {
            StreamProtocol::RTSP => "RTSP",
            StreamProtocol::RTMP => "RTMP",
            StreamProtocol::HLS => "HLS",
            StreamProtocol::HTTP => "HTTP",
        }
    }
}

/// Where media comes from: a local path or a network stream.
#[derive(Debug, Clone)]
pub enum MediaSource {
    LocalFile(String),
    NetworkStream { url: String, protocol: StreamProtocol },
}

/// The protocol a URL is classified under, or `None` for a local path:
/// `rtsp://` and `rtmp://` prefixes first, then HLS (`.m3u8` suffix or a
/// `/hls/` segment), then `http://` or `https://`.
pub open spec fn protocol_of(url: Seq<char>) -> Option<StreamProtocol> {
    if starts_with_spec(url, "rtsp://"@) {
        Some(StreamProtocol::RTSP)
    } else if starts_with_spec(url, "rtmp://"@) {
        Some(StreamProtocol::RTMP)
    } else if ends_with_spec(url, ".m3u8"@) || contains_spec(url, "/hls/"@) {
        Some(StreamProtocol::HLS)
    } else if starts_with_spec(url, "http://"@) || starts_with_spec(url, "https://"@) {
        Some(StreamProtocol::HTTP)
    } else {
        None
    }
}

/// The source a URL string denotes.
pub open spec fn source_matches(src: MediaSource, url: Seq<char>) -> bool {
    match src {
        MediaSource::LocalFile(path) => protocol_of(url) is None && path@ == url,
        MediaSource::NetworkStream { url: u, protocol } => protocol_of(url) == Some(protocol)
            && u@ == url,
    }
}

pub fn classify_url(url: &Vec<char>) -> (r: Option<StreamProtocol>)
    ensures
        r == protocol_of(url@),
{
    let rtsp = str_to_chars("rtsp://");
    let rtmp = str_to_chars("rtmp://");
    let m3u8 = str_to_chars(".m3u8");
    let hls = str_to_chars("/hls/");
    let http = str_to_chars("http://");
    let https = str_to_chars("https://");
    if starts_with(url, &rtsp) {
        Some(StreamProtocol::RTSP)
    } else if starts_with(url, &rtmp) {
        Some(StreamProtocol::RTMP)
    } else if ends_with(url, &m3u8) || contains(url, &hls) {
        Some(StreamProtocol::HLS)
    } else if starts_with(url, &http) || starts_with(url, &https) {
        Some(StreamProtocol::HTTP)
    } else {
        None
    }
}

impl MediaSource {
    /// Classifies a URL or path; every string denotes some source.
    pub fn from_url(url: &str) -> (r: Result<MediaSource, PlayerError>)
        ensures
            r is Ok,
            source_matches(r->Ok_0, url@),
    {
        let chars = str_to_chars(url);
        let owned = url.to_owned();
        match classify_url(&chars) {
            Some(protocol) => Ok(MediaSource::NetworkStream { url: owned, protocol }),
            None => Ok(MediaSource::LocalFile(owned)),
        }
    }

    pub fn is_network_stream(&self) -> (r: bool)
        ensures
            r == (*self is NetworkStream),
    {
        match self {
            MediaSource::NetworkStream { .. } => true,
            MediaSource::LocalFile(_) => false,
        }
    }
}

/// Pixel layout of a decoded frame.
#[derive(Debug, Clone, Copy, PartialEq, Eq, Structural)]
pub enum PixelFormat {
    RGBA,
    RGB,
    YUV420P,
    NV12,
}

/// Sample layout of decoded audio.
#[derive(Debug, Clone, Copy, PartialEq, Eq, Structural)]
pub enum SampleFormat {
    F32,
    I16,
}

/// A decoded picture; `pts` and `duration` are in milliseconds.
#[derive(Debug, Clone)]
pub struct VideoFrame {
    pub pts: i64,
    pub duration: i64,
    pub width: u32,
    pub height: u32,
    pub format: PixelFormat,
    pub data: Vec<u8>,
}

/// A subtitle cue shown from `pts` up to (not including) `end_pts`.
#[derive(Debug, Clone)]
pub struct SubtitleFrame {
    pub pts: i64,
    pub duration: i64,
    pub text: String,
    pub end_pts: i64,
}

/// Lifecycle state of the playback controller.
#[derive(Debug, Clone, Copy, PartialEq, Eq, Structural)]
pub enum PlaybackState {
    Idle,
    Opening,
    Playing,
    Paused,
    Seeking,
    Buffering,
    Stopped,
    Error,
}

/// What a probe learns of a source; the frame rate is the exact ratio
/// `fps_num / fps_den`.
#[derive(Debug, Clone)]
pub struct MediaInfo {
    pub duration: i64,
    pub width: u32,
    pub height: u32,
    pub fps_num: i32,
    pub fps_den: i32,
    pub video_codec: String,
    pub audio_codec: String,
    pub sample_rate: u32,
    pub channels: u16,
}

impl Default for MediaInfo {
    /// Nothing known: zero sizes and rates, no codec names.
    fn default() -> (r: MediaInfo)
        ensures
            r.duration == 0 && r.width == 0 && r.height == 0 && r.fps_num == 0 && r.fps_den == 1,
            r.video_codec@ == Seq::<char>::empty() && r.audio_codec@ == Seq::<char>::empty(),
            r.sample_rate == 0 && r.channels == 0,
    {
        MediaInfo {
            duration: 0,
            width: 0,
            height: 0,
            fps_num: 0,
            fps_den: 1,
            video_codec: String::new(),
            audio_codec: String::new(),
            sample_rate: 0,
            channels: 0,
        }
    }
}

/// Kind of a demuxed packet.
#[derive(Debug, Clone, Copy, PartialEq, Eq, Structural)]
pub enum PacketType {
    Video,
    Audio,
    Subtitle,
}

/// Command sent to the demuxer reader.
#[derive(Debug, Clone, Copy, PartialEq, Eq, Structural)]
pub enum DemuxerCommand {
    Seek(i64),
    Stop,
}

/// Errors of the engine.
#[derive(Debug, Clone, PartialEq, Eq)]
pub enum PlayerError {
    /// The codec library reported an error.
    Codec(String),
    Io(String),
    OpenError(String),
    NoVideoStream,
    NoAudioStream,
    DecodeError(String),
    RenderError(String),
    AudioError(String),
    NetworkError(String),
    /// No parser handles files with this extension.
    UnsupportedFormat(String),
    /// The source cannot seek; the request was rejected.
    SeekUnsupported,
    Other(String),
}

} // verus!
