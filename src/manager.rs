//! The playback controller: the lifecycle state machine, the seek
//! choreography and the stores the GUI pulls frames and cues from.
//!
//! The controller decides; the runtime around it spawns and joins worker
//! threads, talks to the audio device and the demuxer. Each command returns
//! the list of actions the runtime carries out, in order.
use vstd::prelude::*;
use crate::clock::{ClockModel, PlaybackClock, now_spec, pause_spec, play_spec, set_time_spec};
use crate::clock::{lemma_pause_play_keeps_position, lemma_play_reads_paused, lemma_set_time_reads_back};
use crate::media::{classify_url, protocol_of, DemuxerCommand, MediaInfo, PlaybackState};
use crate::media::{PlayerError, SubtitleFrame, VideoFrame};
use crate::pipeline::{audio_verdict, audio_verdict_spec, video_verdict, video_verdict_spec};
use crate::pipeline::{SeekRequest, AUDIO_SEEK_TOLERANCE_MS, VIDEO_SEEK_TOLERANCE_MS};
use crate::sync::{best_cover, cue_at, frame_for_time_spec, same_choice, CueQueue, FrameQueue};
use crate::sync::{cue_scanned, kept_cues, cue_unscanned, display_step, pruned_queue};
use crate::sync::FrameSelector;
use crate::subtitle::{sort_by_start, sorted_by_start};
use crate::text::{contains, contains_spec, str_to_chars};

verus! {

/// The worker threads of a session that are running.
#[derive(Debug, Clone, Copy, PartialEq, Eq, Structural)]
pub struct WorkerSet {
    pub demuxer: bool,
    pub video: bool,
    pub audio: bool,
    pub subtitle: bool,
}

pub open spec fn no_workers() -> WorkerSet {
    WorkerSet { demuxer: false, video: false, audio: false, subtitle: false }
}

/// A worker thread.
#[derive(Debug, Clone, Copy, PartialEq, Eq, Structural)]
pub enum Worker {
    Demuxer,
    VideoDecoder,
    AudioDecoder,
    SubtitleDecoder,
}

/// Work the runtime carries out for the controller.
#[derive(Debug, Clone, Copy, PartialEq, Eq, Structural)]
pub enum EngineAction {
    /// Clear the running flag and drop the packet senders.
    SignalStop,
    /// Wait for a worker thread to end.
    Join(Worker),
    /// Close the audio output.
    StopAudioSink,
    /// Discard the samples the audio output holds.
    ClearAudioSink,
    /// Discard the decoded audio frames not yet written.
    DrainAudioFrames,
    /// Send a command to the demuxer reader.
    SendDemuxer(DemuxerCommand),
    /// Open the retained source again.
    Reopen,
}

/// What the contracts see of the controller.
pub struct ManagerModel {
    pub state: PlaybackState,
    pub clock: ClockModel,
    pub seek_slot: Option<SeekRequest>,
    pub first_audio: bool,
    pub flush_video: bool,
    pub flush_audio: bool,
    pub running: bool,
    pub autoplay: bool,
    pub source: Option<Seq<char>>,
    pub is_network: bool,
    pub seekable: bool,
    pub duration_ms: i64,
    pub workers: WorkerSet,
    pub volume_permille: u32,
    pub media_info: Option<MediaInfo>,
    pub video: Seq<VideoFrame>,
    pub subtitles: Seq<SubtitleFrame>,
    pub external: Seq<SubtitleFrame>,
}

/// Playback controller of one player.
pub struct PlaybackManager {
    state: PlaybackState,
    clock: PlaybackClock,
    seek_slot: Option<SeekRequest>,
    first_audio: bool,
    flush_video: bool,
    flush_audio: bool,
    running: bool,
    autoplay: bool,
    source: Option<String>,
    is_network: bool,
    seekable: bool,
    duration_ms: i64,
    workers: WorkerSet,
    volume_permille: u32,
    media_info: Option<MediaInfo>,
    video: FrameQueue,
    subtitles: CueQueue,
    external: Vec<SubtitleFrame>,
}

pub open spec fn source_view(s: Option<String>) -> Option<Seq<char>> {
    match s {
        Some(x) => Some(x@),
        None => None,
    }
}

impl View for PlaybackManager {
    type V = ManagerModel;

    closed spec fn view(&self) -> ManagerModel {
        ManagerModel {
            state: self.state,
            clock: self.clock@,
            seek_slot: self.seek_slot,
            first_audio: self.first_audio,
            flush_video: self.flush_video,
            flush_audio: self.flush_audio,
            running: self.running,
            autoplay: self.autoplay,
            source: source_view(self.source),
            is_network: self.is_network,
            seekable: self.seekable,
            duration_ms: self.duration_ms,
            workers: self.workers,
            volume_permille: self.volume_permille,
            media_info: self.media_info,
            video: self.video@,
            subtitles: self.subtitles@,
            external: self.external@,
        }
    }
}

/// Joins for the running workers, in the order demuxer, video decoder,
/// audio decoder, subtitle decoder.
pub open spec fn join_actions(w: WorkerSet) -> Seq<EngineAction> {
    (if w.demuxer { seq![EngineAction::Join(Worker::Demuxer)] } else { seq![] })
        + (if w.video { seq![EngineAction::Join(Worker::VideoDecoder)] } else { seq![] })
        + (if w.audio { seq![EngineAction::Join(Worker::AudioDecoder)] } else { seq![] })
        + (if w.subtitle { seq![EngineAction::Join(Worker::SubtitleDecoder)] } else { seq![] })
}

/// Stopping: signal the workers, join them in order, close the audio
/// output and drop the undelivered audio.
pub open spec fn stop_actions(c: ManagerModel) -> Seq<EngineAction> {
    seq![EngineAction::SignalStop] + join_actions(c.workers) + seq![
        EngineAction::StopAudioSink,
        EngineAction::DrainAudioFrames,
    ]
}

/// After a stop: no worker runs, every queue is empty, the clock stands at
/// 0, and the source is kept for a later `play`.
pub open spec fn stop_model(c: ManagerModel, wall: i64) -> ManagerModel {
    ManagerModel {
        state: PlaybackState::Stopped,
        clock: pause_spec(set_time_spec(c.clock, 0, wall), wall),
        flush_video: false,
        flush_audio: false,
        running: false,
        autoplay: false,
        workers: no_workers(),
        video: Seq::<VideoFrame>::empty(),
        subtitles: Seq::<SubtitleFrame>::empty(),
        external: Seq::<SubtitleFrame>::empty(),
        ..c
    }
}

/// A session is open: there are decoded streams to control.
pub open spec fn session_open(state: PlaybackState) -> bool {
    state == PlaybackState::Paused || state == PlaybackState::Playing || state
        == PlaybackState::Buffering || state == PlaybackState::Seeking
}

/// Where a seek lands: not before 0, and not past the duration when it is
/// known (not negative).
pub open spec fn seek_target(target: i64, duration: i64) -> i64 {
    if target < 0 {
        0
    } else if duration >= 0 && target > duration {
        duration
    } else {
        target
    }
}

/// A seek is accepted while a session is open on a seekable source.
pub open spec fn seek_allowed(c: ManagerModel) -> bool {
    session_open(c.state) && c.seekable
}

/// After an accepted seek: the target is published with its issue time,
/// both decoders must flush, the next audio frame is the first, the frame
/// queues are empty and the clock is preset to the target.
pub open spec fn seek_model(c: ManagerModel, target: i64, wall: i64) -> ManagerModel {
    let t = seek_target(target, c.duration_ms);
    ManagerModel {
        seek_slot: Some(SeekRequest { target_ms: t, issued_at_ms: wall }),
        first_audio: true,
        flush_video: true,
        flush_audio: true,
        clock: set_time_spec(c.clock, t, wall),
        video: Seq::<VideoFrame>::empty(),
        subtitles: Seq::<SubtitleFrame>::empty(),
        ..c
    }
}

pub open spec fn seek_actions(c: ManagerModel, target: i64) -> Seq<EngineAction> {
    seq![
        EngineAction::ClearAudioSink,
        EngineAction::DrainAudioFrames,
        EngineAction::SendDemuxer(DemuxerCommand::Seek(seek_target(target, c.duration_ms))),
    ]
}

/// A page URL of a video site rather than a media stream.
pub open spec fn is_page_url(s: Seq<char>) -> bool {
    contains_spec(s, "youtube.com"@) || contains_spec(s, "youtu.be"@)
}

/// After the previous session is stopped, the new source is recorded and
/// the controller waits for the probe.
pub open spec fn open_model(c: ManagerModel, source: Seq<char>, wall: i64) -> ManagerModel {
    let s = stop_model(c, wall);
    if is_page_url(source) {
        ManagerModel { state: PlaybackState::Idle, ..s }
    } else {
        ManagerModel {
            state: PlaybackState::Opening,
            autoplay: c.autoplay,
            media_info: None,
            source: Some(source),
            is_network: protocol_of(source) is Some,
            first_audio: true,
            seek_slot: None,
            ..s
        }
    }
}

/// After a successful probe with the workers started: the probe's media
/// information is kept; a network source buffers first (keeping a pending
/// `play`), a local one is paused, or playing when a `play` asked for the
/// reopen.
pub open spec fn opened_model(
    c: ManagerModel,
    info: MediaInfo,
    seekable: bool,
    workers: WorkerSet,
    wall: i64,
) -> ManagerModel {
    let base = ManagerModel {
        duration_ms: info.duration,
        media_info: Some(info),
        seekable,
        workers,
        running: true,
        autoplay: false,
        ..c
    };
    if c.is_network {
        ManagerModel { state: PlaybackState::Buffering, autoplay: c.autoplay, ..base }
    } else if c.autoplay {
        ManagerModel {
            state: PlaybackState::Playing,
            clock: play_spec(c.clock, wall),
            ..base
        }
    } else {
        ManagerModel { state: PlaybackState::Paused, ..base }
    }
}

/// When buffering ends: playing if a `play` is pending, else paused.
pub open spec fn buffered_model(c: ManagerModel, wall: i64) -> ManagerModel {
    if c.state != PlaybackState::Buffering {
        c
    } else if c.autoplay {
        ManagerModel {
            state: PlaybackState::Playing,
            clock: play_spec(c.clock, wall),
            autoplay: false,
            ..c
        }
    } else {
        ManagerModel { state: PlaybackState::Paused, ..c }
    }
}

/// Playing: a stopped controller with a source reopens it (and plays once
/// it is open); a session that is open starts the clock.
pub open spec fn play_model(c: ManagerModel, wall: i64) -> ManagerModel {
    if c.state == PlaybackState::Stopped {
        ManagerModel { autoplay: true, ..c }
    } else if session_open(c.state) {
        ManagerModel { state: PlaybackState::Playing, clock: play_spec(c.clock, wall), ..c }
    } else {
        c
    }
}

pub open spec fn play_ok(c: ManagerModel) -> bool {
    (c.state == PlaybackState::Stopped && c.source is Some) || session_open(c.state)
}

/// Pausing while playing freezes the clock.
pub open spec fn pause_model(c: ManagerModel, wall: i64) -> ManagerModel {
    if c.state == PlaybackState::Playing {
        ManagerModel { state: PlaybackState::Paused, clock: pause_spec(c.clock, wall), ..c }
    } else {
        c
    }
}

fn join_list(w: WorkerSet, out: &mut Vec<EngineAction>)
    ensures
        final(out)@ == old(out)@ + join_actions(w),
{
    let ghost start = out@;
    if w.demuxer {
        out.push(EngineAction::Join(Worker::Demuxer));
    }
    if w.video {
        out.push(EngineAction::Join(Worker::VideoDecoder));
    }
    if w.audio {
        out.push(EngineAction::Join(Worker::AudioDecoder));
    }
    if w.subtitle {
        out.push(EngineAction::Join(Worker::SubtitleDecoder));
    }
    assert(out@ == start + join_actions(w));
}

fn page_url(s: &Vec<char>) -> (r: bool)
    ensures
        r == is_page_url(s@),
{
    contains(s, &str_to_chars("youtube.com")) || contains(s, &str_to_chars("youtu.be"))
}

impl PlaybackManager {
    pub fn new() -> (r: PlaybackManager)
        ensures
            r@ == (ManagerModel {
                state: PlaybackState::Idle,
                clock: ClockModel {
                    base_pts: 0,
                    base_wall: 0,
                    rate_permille: 1000,
                    paused: true,
                    paused_at: 0,
                },
                seek_slot: None,
                first_audio: true,
                flush_video: false,
                flush_audio: false,
                running: false,
                autoplay: false,
                source: None,
                is_network: false,
                seekable: false,
                duration_ms: 0,
                workers: no_workers(),
                volume_permille: 1000,
                media_info: None,
                video: Seq::<VideoFrame>::empty(),
                subtitles: Seq::<SubtitleFrame>::empty(),
                external: Seq::<SubtitleFrame>::empty(),
            }),
    {
        PlaybackManager {
            state: PlaybackState::Idle,
            clock: PlaybackClock::new(),
            seek_slot: None,
            first_audio: true,
            flush_video: false,
            flush_audio: false,
            running: false,
            autoplay: false,
            source: None,
            is_network: false,
            seekable: false,
            duration_ms: 0,
            workers: WorkerSet { demuxer: false, video: false, audio: false, subtitle: false },
            volume_permille: 1000,
            media_info: None,
            video: FrameQueue::new(),
            subtitles: CueQueue::new(),
            external: Vec::new(),
        }
    }

    pub fn state(&self) -> (r: PlaybackState)
        ensures
            r == self@.state,
    {
        self.state
    }

    /// Playback position in milliseconds at wall time `wall`.
    pub fn position_ms(&self, wall: i64) -> (r: i64)
        ensures
            r == now_spec(self@.clock, wall),
    {
        self.clock.now(wall)
    }

    pub fn duration_ms(&self) -> (r: i64)
        ensures
            r == self@.duration_ms,
    {
        self.duration_ms
    }

    pub fn source(&self) -> (r: Option<&String>)
        ensures
            match r {
                Some(s) => self@.source == Some(s@),
                None => self@.source is None,
            },
    {
        match &self.source {
            Some(s) => Some(s),
            None => None,
        }
    }

    pub fn is_network_stream(&self) -> (r: bool)
        ensures
            r == self@.is_network,
    {
        self.is_network
    }

    pub fn workers(&self) -> (r: WorkerSet)
        ensures
            r == self@.workers,
    {
        self.workers
    }

    pub fn volume_permille(&self) -> (r: u32)
        ensures
            r == self@.volume_permille,
    {
        self.volume_permille
    }

    /// Sets the volume in thousandths, clamped to `[0, 1000]`.
    pub fn set_volume(&mut self, permille: i64)
        ensures
            final(self)@ == (ManagerModel {
                volume_permille: if permille < 0 {
                    0
                } else if permille > 1000 {
                    1000
                } else {
                    permille as u32
                },
                ..old(self)@
            }),
    {
        self.volume_permille = if permille < 0 {
            0
        } else if permille > 1000 {
            1000
        } else {
            permille as u32
        };
    }

    /// Stops the session: every worker is signalled and joined, queues are
    /// emptied and the clock reset to 0. The source is kept.
    pub fn stop(&mut self, wall: i64) -> (r: Vec<EngineAction>)
        ensures
            final(self)@ == stop_model(old(self)@, wall),
            r@ == stop_actions(old(self)@),
    {
        let mut actions: Vec<EngineAction> = Vec::new();
        actions.push(EngineAction::SignalStop);
        join_list(self.workers, &mut actions);
        actions.push(EngineAction::StopAudioSink);
        actions.push(EngineAction::DrainAudioFrames);
        self.running = false;
        self.autoplay = false;
        self.workers = WorkerSet { demuxer: false, video: false, audio: false, subtitle: false };
        self.video.clear();
        self.subtitles.clear();
        self.external = Vec::new();
        self.clock.set_time(0, wall);
        self.clock.pause(wall);
        self.flush_video = false;
        self.flush_audio = false;
        self.state = PlaybackState::Stopped;
        actions
    }

    /// Starts opening `source`: the previous session is stopped (the
    /// returned actions) and the source recorded. A video-site page URL is
    /// refused and leaves the controller idle.
    pub fn begin_open(&mut self, source: &str, wall: i64) -> (r: Result<
        Vec<EngineAction>,
        PlayerError,
    >)
        ensures
            final(self)@ == open_model(old(self)@, source@, wall),
            match r {
                Ok(a) => !is_page_url(source@) && a@ == stop_actions(old(self)@),
                Err(e) => is_page_url(source@) && e is OpenError,
            },
    {
        let autoplay = self.autoplay;
        let actions = self.stop(wall);
        let chars = str_to_chars(source);
        if page_url(&chars) {
            self.state = PlaybackState::Idle;
            return Err(
                PlayerError::OpenError(
                    String::from_str(
                        "a video page URL is not a media stream; open the stream's direct URL",
                    ),
                ),
            );
        }
        self.autoplay = autoplay;
        self.media_info = None;
        self.source = Some(source.to_owned());
        self.is_network = classify_url(&chars).is_some();
        self.first_audio = true;
        self.seek_slot = None;
        self.state = PlaybackState::Opening;
        Ok(actions)
    }

    /// The probe of the source being opened failed: the controller is idle.
    pub fn open_failed(&mut self)
        ensures
            final(self)@ == (ManagerModel {
                state: PlaybackState::Idle,
                running: false,
                autoplay: false,
                workers: no_workers(),
                ..old(self)@
            }),
    {
        self.state = PlaybackState::Idle;
        self.running = false;
        self.autoplay = false;
        self.workers = WorkerSet { demuxer: false, video: false, audio: false, subtitle: false };
    }

    /// The source was probed and the workers started.
    pub fn finish_open(&mut self, info: MediaInfo, seekable: bool, workers: WorkerSet, wall: i64)
        requires
            old(self)@.state == PlaybackState::Opening,
        ensures
            final(self)@ == opened_model(old(self)@, info, seekable, workers, wall),
    {
        self.duration_ms = info.duration;
        self.media_info = Some(info);
        self.seekable = seekable;
        self.workers = workers;
        self.running = true;
        let autoplay = self.autoplay;
        self.autoplay = false;
        if self.is_network {
            self.autoplay = autoplay;
            self.state = PlaybackState::Buffering;
        } else if autoplay {
            self.clock.play(wall);
            self.state = PlaybackState::Playing;
        } else {
            self.state = PlaybackState::Paused;
        }
    }

    /// Buffering of a network source is over: it plays when a `play` is
    /// pending, else it is paused.
    pub fn finish_buffering(&mut self, wall: i64)
        ensures
            final(self)@ == buffered_model(old(self)@, wall),
    {
        if self.state == PlaybackState::Buffering {
            if self.autoplay {
                self.clock.play(wall);
                self.autoplay = false;
                self.state = PlaybackState::Playing;
            } else {
                self.state = PlaybackState::Paused;
            }
        }
    }

    /// What the probe of the open source found.
    pub fn get_media_info(&self) -> (r: Option<&MediaInfo>)
        ensures
            match r {
                Some(i) => self@.media_info == Some(*i),
                None => self@.media_info is None,
            },
    {
        match &self.media_info {
            Some(i) => Some(i),
            None => None,
        }
    }

    /// Plays. A stopped controller asks for its source to be reopened and
    /// plays once it is open again.
    pub fn play(&mut self, wall: i64) -> (r: Result<Vec<EngineAction>, PlayerError>)
        ensures
            final(self)@ == (if play_ok(old(self)@) {
                play_model(old(self)@, wall)
            } else {
                old(self)@
            }),
            match r {
                Ok(a) => play_ok(old(self)@) && a@ == if old(self)@.state
                    == PlaybackState::Stopped {
                    seq![EngineAction::Reopen]
                } else {
                    Seq::<EngineAction>::empty()
                },
                Err(e) => !play_ok(old(self)@) && e is Other,
            },
    {
        let mut actions: Vec<EngineAction> = Vec::new();
        if self.state == PlaybackState::Stopped {
            if self.source.is_none() {
                return Err(PlayerError::Other(String::from_str("no source to play")));
            }
            self.autoplay = true;
            actions.push(EngineAction::Reopen);
            return Ok(actions);
        }
        if !(self.state == PlaybackState::Paused || self.state == PlaybackState::Playing
            || self.state == PlaybackState::Buffering || self.state == PlaybackState::Seeking) {
            return Err(PlayerError::Other(String::from_str("no source to play")));
        }
        self.clock.play(wall);
        self.state = PlaybackState::Playing;
        Ok(actions)
    }

    /// Pauses: the clock stops and the audio output drops what it holds.
    pub fn pause(&mut self, wall: i64) -> (r: Vec<EngineAction>)
        ensures
            final(self)@ == pause_model(old(self)@, wall),
            r@ == if old(self)@.state == PlaybackState::Playing {
                seq![EngineAction::ClearAudioSink]
            } else {
                Seq::<EngineAction>::empty()
            },
    {
        let mut actions: Vec<EngineAction> = Vec::new();
        if self.state == PlaybackState::Playing {
            self.clock.pause(wall);
            self.state = PlaybackState::Paused;
            actions.push(EngineAction::ClearAudioSink);
        }
        actions
    }

    /// Seeks to `target_ms` (clamped to the media's span).
    pub fn seek(&mut self, target_ms: i64, wall: i64) -> (r: Result<Vec<EngineAction>, PlayerError>)
        ensures
            !seek_allowed(old(self)@) ==> final(self)@ == old(self)@ && r is Err && (
            r->Err_0 is SeekUnsupported <==> session_open(old(self)@.state)),
            seek_allowed(old(self)@) ==> final(self)@ == seek_model(old(self)@, target_ms, wall)
                && r is Ok && r->Ok_0@ == seek_actions(old(self)@, target_ms),
    {
        if !(self.state == PlaybackState::Paused || self.state == PlaybackState::Playing
            || self.state == PlaybackState::Buffering || self.state == PlaybackState::Seeking) {
            return Err(PlayerError::Other(String::from_str("no open source")));
        }
        if !self.seekable {
            return Err(PlayerError::SeekUnsupported);
        }
        let t = if target_ms < 0 {
            0
        } else if self.duration_ms >= 0 && target_ms > self.duration_ms {
            self.duration_ms
        } else {
            target_ms
        };
        self.seek_slot = Some(SeekRequest { target_ms: t, issued_at_ms: wall });
        self.first_audio = true;
        self.flush_video = true;
        self.flush_audio = true;
        self.video.clear();
        self.subtitles.clear();
        self.clock.set_time(t, wall);
        let mut actions: Vec<EngineAction> = Vec::new();
        actions.push(EngineAction::ClearAudioSink);
        actions.push(EngineAction::DrainAudioFrames);
        actions.push(EngineAction::SendDemuxer(DemuxerCommand::Seek(t)));
        Ok(actions)
    }

    /// The video decoder's check for a pending flush; clears it.
    pub fn take_video_flush(&mut self) -> (r: bool)
        ensures
            r == old(self)@.flush_video,
            final(self)@ == (ManagerModel { flush_video: false, ..old(self)@ }),
    {
        let r = self.flush_video;
        self.flush_video = false;
        r
    }

    /// The audio decoder's check for a pending flush; clears it.
    pub fn take_audio_flush(&mut self) -> (r: bool)
        ensures
            r == old(self)@.flush_audio,
            final(self)@ == (ManagerModel { flush_audio: false, ..old(self)@ }),
    {
        let r = self.flush_audio;
        self.flush_audio = false;
        r
    }

    pub fn video_queue_len(&self) -> (r: usize)
        ensures
            r == self@.video.len(),
    {
        self.video.len()
    }

    /// A decoded video frame: queued unless the seek filter drops it.
    pub fn deliver_video_frame(&mut self, frame: VideoFrame, wall: i64) -> (r: bool)
        ensures
            ({
                let v = video_verdict_spec(old(self)@.seek_slot, frame.pts, wall);
                &&& r == v.deliver
                &&& final(self)@ == (ManagerModel {
                    seek_slot: v.slot,
                    video: if v.deliver {
                        old(self)@.video.push(frame)
                    } else {
                        old(self)@.video
                    },
                    ..old(self)@
                })
            }),
    {
        let v = video_verdict(self.seek_slot, frame.pts, wall);
        self.seek_slot = v.slot;
        if v.deliver {
            self.video.push(frame);
        }
        v.deliver
    }

    /// A decoded audio frame with timestamp `pts`: whether to deliver it
    /// to the audio output (the runtime queues its samples). The first
    /// frame of a session sets the clock.
    pub fn deliver_audio_frame(&mut self, pts: i64, wall: i64) -> (r: bool)
        ensures
            ({
                let v = audio_verdict_spec(old(self)@.seek_slot, old(self)@.first_audio, pts, wall);
                &&& r == v.deliver
                &&& final(self)@ == (ManagerModel {
                    seek_slot: v.slot,
                    first_audio: v.first_audio,
                    clock: match v.set_clock {
                        Some(t) => set_time_spec(old(self)@.clock, t, wall),
                        None => old(self)@.clock,
                    },
                    ..old(self)@
                })
            }),
    {
        let v = audio_verdict(self.seek_slot, self.first_audio, pts, wall);
        self.seek_slot = v.slot;
        self.first_audio = v.first_audio;
        match v.set_clock {
            Some(t) => {
                self.clock.set_time(t, wall);
            },
            None => {},
        }
        v.deliver
    }

    /// A decoded embedded cue.
    pub fn deliver_subtitle(&mut self, cue: SubtitleFrame)
        ensures
            final(self)@ == (ManagerModel {
                subtitles: old(self)@.subtitles.push(cue),
                ..old(self)@
            }),
    {
        self.subtitles.push(cue);
    }

    /// Cues loaded from an external file, kept in order of their start.
    pub fn load_external_subtitles(&mut self, cues: Vec<SubtitleFrame>)
        ensures
            final(self)@ == (ManagerModel { external: final(self)@.external, ..old(self)@ }),
            sorted_by_start(final(self)@.external),
            final(self)@.external.to_multiset() == cues@.to_multiset(),
    {
        self.external = sort_by_start(cues);
    }

    /// The video frame to show at clock reading `now`.
    pub fn get_frame_for_time(&mut self, now: i64) -> (r: Option<VideoFrame>)
        ensures
            frame_for_time_spec(old(self)@.video, now, r, final(self)@.video),
            final(self)@ == (ManagerModel { video: final(self)@.video, ..old(self)@ }),
            match r {
                Some(f) => now - 1000 <= f.pts <= now,
                None => true,
            },
    {
        self.video.frame_for_time(now)
    }

    /// Takes the oldest decoded frame, whatever its time.
    pub fn get_video_frame(&mut self) -> (r: Option<VideoFrame>)
        ensures
            final(self)@ == (ManagerModel { video: final(self)@.video, ..old(self)@ }),
            match r {
                Some(f) => old(self)@.video.len() > 0 && f == old(self)@.video[0]
                    && final(self)@.video == old(self)@.video.subrange(
                    1,
                    old(self)@.video.len() as int,
                ),
                None => old(self)@.video.len() == 0 && final(self)@.video == old(self)@.video,
            },
    {
        self.video.pop()
    }

    /// Takes the next frame to show, first dropping stale frames at clock
    /// reading `now` when too many are queued.
    pub fn get_current_frame(&mut self, now: i64) -> (r: Option<VideoFrame>)
        ensures
            final(self)@ == (ManagerModel { video: final(self)@.video, ..old(self)@ }),
            ({
                let q = pruned_queue(old(self)@.video, now);
                match r {
                    Some(f) => q.len() > 0 && f == q[0] && final(self)@.video == q.subrange(
                        1,
                        q.len() as int,
                    ),
                    None => q.len() == 0 && final(self)@.video == q,
                }
            }),
    {
        self.video.current_frame(now)
    }

    pub fn is_playing(&self) -> (r: bool)
        ensures
            r == (self@.state == PlaybackState::Playing),
    {
        self.state == PlaybackState::Playing
    }

    /// The display's pull at a refresh under the three-tier policy (see
    /// `FrameSelector::next_frame`): the new frame to show, if any.
    pub fn next_display_frame(&mut self, selector: &mut FrameSelector, now: i64) -> (r: Option<
        VideoFrame,
    >)
        ensures
            final(self)@ == (ManagerModel { video: final(self)@.video, ..old(self)@ }),
            (r, final(self)@.video) == display_step(old(selector).shown_pts, old(self)@.video, now),
            final(selector).shown_pts == match r {
                Some(f) => Some(f.pts),
                None => old(selector).shown_pts,
            },
    {
        selector.next_frame(&mut self.video, now)
    }

    /// The cue to show at `now`: the embedded cue covering `now` with the
    /// largest start, else the external one chosen by the same rule.
    pub fn get_current_subtitle(&mut self, now: i64) -> (r: Option<SubtitleFrame>)
        ensures
            ({
                let emb = best_cover(cue_scanned(old(self)@.subtitles), now);
                &&& final(self)@ == (ManagerModel {
                    subtitles: kept_cues(cue_scanned(old(self)@.subtitles), now, emb)
                        + cue_unscanned(old(self)@.subtitles),
                    ..old(self)@
                })
                &&& if emb is Some {
                    same_choice(r, emb)
                } else {
                    same_choice(r, best_cover(old(self)@.external, now))
                }
            }),
    {
        let embedded = self.subtitles.cue_at(now);
        match embedded {
            Some(c) => Some(c),
            None => cue_at(&self.external, now),
        }
    }
}

/// After `stop` no worker is left running, every frame and cue store is
/// empty and the actions join each worker that ran, in the fixed order.
pub proof fn lemma_stop_leaves_nothing(c: ManagerModel, wall: i64)
    ensures
        stop_model(c, wall).workers == no_workers(),
        stop_model(c, wall).video.len() == 0,
        stop_model(c, wall).subtitles.len() == 0,
        stop_model(c, wall).external.len() == 0,
        stop_actions(c).contains(EngineAction::DrainAudioFrames),
        c.workers.demuxer ==> stop_actions(c).contains(EngineAction::Join(Worker::Demuxer)),
        c.workers.video ==> stop_actions(c).contains(EngineAction::Join(Worker::VideoDecoder)),
        c.workers.audio ==> stop_actions(c).contains(EngineAction::Join(Worker::AudioDecoder)),
        c.workers.subtitle ==> stop_actions(c).contains(
            EngineAction::Join(Worker::SubtitleDecoder),
        ),
{
    let a = stop_actions(c);
    let j = join_actions(c.workers);
    assert(a[a.len() - 1] == EngineAction::DrainAudioFrames);
    if c.workers.demuxer {
        assert(a[1] == EngineAction::Join(Worker::Demuxer));
    }
    if c.workers.video {
        let k = 1 + (if c.workers.demuxer { 1int } else { 0int });
        assert(a[k] == EngineAction::Join(Worker::VideoDecoder));
    }
    if c.workers.audio {
        let k = 1 + (if c.workers.demuxer { 1int } else { 0int }) + (if c.workers.video {
            1int
        } else {
            0int
        });
        assert(a[k] == EngineAction::Join(Worker::AudioDecoder));
    }
    if c.workers.subtitle {
        let k = 1 + (if c.workers.demuxer { 1int } else { 0int }) + (if c.workers.video {
            1int
        } else {
            0int
        }) + (if c.workers.audio { 1int } else { 0int });
        assert(a[k] == EngineAction::Join(Worker::SubtitleDecoder));
    }
}

/// Seeking to the current position changes nothing a user observes: the
/// position and the state stay, the source stays.
pub proof fn lemma_seek_to_now_is_noop(c: ManagerModel, wall: i64)
    requires
        seek_allowed(c),
        0 <= now_spec(c.clock, wall),
        c.duration_ms < 0 || now_spec(c.clock, wall) <= c.duration_ms,
    ensures
        now_spec(seek_model(c, now_spec(c.clock, wall), wall).clock, wall) == now_spec(
            c.clock,
            wall,
        ),
        seek_model(c, now_spec(c.clock, wall), wall).state == c.state,
        seek_model(c, now_spec(c.clock, wall), wall).source == c.source,
{
    let t = now_spec(c.clock, wall);
    assert(seek_target(t, c.duration_ms) == t);
    lemma_set_time_reads_back(c.clock, t, wall);
}

/// `stop` then `play` reopens the same source, and once it is open again
/// (and, for a network source, once buffering is over) playback runs from
/// position 0.
pub proof fn lemma_stop_play_restarts(
    c: ManagerModel,
    w1: i64,
    w2: i64,
    info: MediaInfo,
    seekable: bool,
    workers: WorkerSet,
    w3: i64,
    w4: i64,
)
    requires
        c.source is Some,
    ensures
        ({
            let s = stop_model(c, w1);
            let p = play_model(s, w2);
            let o = open_model(p, c.source->0, w3);
            let q = opened_model(o, info, seekable, workers, w3);
            let b = buffered_model(q, w4);
            &&& play_ok(s)
            &&& p.source == c.source
            &&& !is_page_url(c.source->0) ==> (o.source == c.source && (if q.is_network {
                b.state == PlaybackState::Playing && now_spec(b.clock, w4) == 0
            } else {
                q.state == PlaybackState::Playing && now_spec(q.clock, w3) == 0
            }))
        }),
{
    let s = stop_model(c, w1);
    let p = play_model(s, w2);
    let o = open_model(p, c.source->0, w3);
    if !is_page_url(c.source->0) {
        let c1 = pause_spec(set_time_spec(c.clock, 0, w1), w1);
        lemma_set_time_reads_back(c.clock, 0, w1);
        assert(c1.paused && c1.paused_at == 0);
        let cl = pause_spec(set_time_spec(c1, 0, w3), w3);
        assert(o.clock == cl);
        assert(cl.paused && cl.paused_at == 0);
        lemma_play_reads_paused(cl, w3);
        lemma_play_reads_paused(cl, w4);
    }
}

/// A seek to 0 or to the duration is accepted and lands there; a target past
/// the duration lands on the duration.
pub proof fn lemma_seek_bounds(c: ManagerModel, target: i64, wall: i64)
    requires
        session_open(c.state),
        c.seekable,
        c.duration_ms >= 0,
    ensures
        seek_allowed(c),
        seek_model(c, 0, wall).seek_slot == Some(SeekRequest { target_ms: 0, issued_at_ms: wall }),
        seek_model(c, c.duration_ms, wall).seek_slot == Some(
            SeekRequest { target_ms: c.duration_ms, issued_at_ms: wall },
        ),
        target > c.duration_ms ==> seek_model(c, target, wall).seek_slot
            == Some(SeekRequest { target_ms: c.duration_ms, issued_at_ms: wall }),
        now_spec(seek_model(c, 0, wall).clock, wall) == 0,
{
    lemma_set_time_reads_back(c.clock, 0, wall);
}

/// After a seek to `t`, while the request is fresh, the first video frame
/// the decoders deliver is at most one second before `t` and the first
/// audio frame at most half a second before it; the frame stores start
/// empty, so nothing older is shown.
pub proof fn lemma_seek_converges(c: ManagerModel, target: i64, wall: i64, pts: i64, later: i64)
    requires
        seek_allowed(c),
        later - wall <= 2000,
    ensures
        ({
            let s = seek_model(c, target, wall);
            let t = seek_target(target, c.duration_ms);
            &&& s.video.len() == 0
            &&& video_verdict_spec(s.seek_slot, pts, later).deliver ==> pts >= t
                - VIDEO_SEEK_TOLERANCE_MS
            &&& audio_verdict_spec(s.seek_slot, s.first_audio, pts, later).deliver ==> pts >= t
                - AUDIO_SEEK_TOLERANCE_MS
        }),
{
}

/// Pausing and playing again with no seek in between resumes at the
/// position where the pause happened.
pub proof fn lemma_pause_play_position(c: ManagerModel, w1: i64, w2: i64)
    requires
        c.state == PlaybackState::Playing,
    ensures
        now_spec(play_model(pause_model(c, w1), w2).clock, w2) == now_spec(c.clock, w1),
        play_model(pause_model(c, w1), w2).state == PlaybackState::Playing,
{
    lemma_pause_play_keeps_position(c.clock, w1, w2);
}

} // verus!
