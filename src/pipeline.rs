//! Decisions of the worker stages: the seek filter the decoders apply to
//! each frame, decoder backpressure, and the demuxer reader's command and
//! read handling.
use vstd::prelude::*;
use crate::media::{DemuxerCommand, PacketType};

verus! {

/// A seek target is stale this long after it was issued.
pub const SEEK_WATCHDOG_MS: i64 = 2000;

/// Video frames this far before the target still pass the filter.
pub const VIDEO_SEEK_TOLERANCE_MS: i64 = 1000;

/// Audio frames this far before the target still pass the filter.
pub const AUDIO_SEEK_TOLERANCE_MS: i64 = 500;

/// Frames this far after the target still pass the filter.
pub const SEEK_AHEAD_MS: i64 = 10000;

/// The last seek issued: its target and the wall time it was issued at.
#[derive(Debug, Clone, Copy, PartialEq, Eq, Structural)]
pub struct SeekRequest {
    pub target_ms: i64,
    pub issued_at_ms: i64,
}

/// The request still filters frames at wall time `wall`.
pub open spec fn seek_fresh(req: SeekRequest, wall: i64) -> bool {
    wall - req.issued_at_ms <= SEEK_WATCHDOG_MS
}

pub open spec fn near_target(pts: i64, target: i64, tolerance: i64) -> bool {
    target - tolerance <= pts <= target + SEEK_AHEAD_MS
}

/// What a decoder does with one decoded video frame.
#[derive(Debug, Clone, Copy, PartialEq, Eq, Structural)]
pub struct VideoVerdict {
    pub deliver: bool,
    pub slot: Option<SeekRequest>,
}

/// The video seek filter: a stale request is cleared (the watchdog) and
/// lets the frame through; a fresh one drops frames away from its target.
pub open spec fn video_verdict_spec(slot: Option<SeekRequest>, pts: i64, wall: i64) -> VideoVerdict {
    match slot {
        Some(req) => if !seek_fresh(req, wall) {
            VideoVerdict { deliver: true, slot: None }
        } else {
            VideoVerdict {
                deliver: near_target(pts, req.target_ms, VIDEO_SEEK_TOLERANCE_MS),
                slot,
            }
        },
        None => VideoVerdict { deliver: true, slot: None },
    }
}

fn fresh(req: SeekRequest, wall: i64) -> (r: bool)
    ensures
        r == seek_fresh(req, wall),
{
    (wall as i128) - (req.issued_at_ms as i128) <= 2000
}

fn near(pts: i64, target: i64, tolerance: i64) -> (r: bool)
    ensures
        r == near_target(pts, target, tolerance),
{
    (target as i128) - (tolerance as i128) <= pts as i128 && (pts as i128) <= (target as i128)
        + 10000
}

pub fn video_verdict(slot: Option<SeekRequest>, pts: i64, wall: i64) -> (r: VideoVerdict)
    ensures
        r == video_verdict_spec(slot, pts, wall),
        r.deliver && slot is Some && seek_fresh(slot->0, wall) ==> pts >= slot->0.target_ms
            - VIDEO_SEEK_TOLERANCE_MS,
{
    match slot {
        Some(req) => {
            if !fresh(req, wall) {
                VideoVerdict { deliver: true, slot: None }
            } else {
                VideoVerdict { deliver: near(pts, req.target_ms, 1000), slot }
            }
        },
        None => VideoVerdict { deliver: true, slot: None },
    }
}

/// What a decoder does with one decoded audio frame.
#[derive(Debug, Clone, Copy, PartialEq, Eq, Structural)]
pub struct AudioVerdict {
    pub deliver: bool,
    pub slot: Option<SeekRequest>,
    pub first_audio: bool,
    /// Re-anchor the master clock at this timestamp.
    pub set_clock: Option<i64>,
}

/// The audio seek filter and master-clock rule. The first audio frame
/// that passes a fresh request clears it (the clock was set by the seek
/// itself). Without a request (or once it is stale), the first audio frame
/// of a session sets the clock, once.
pub open spec fn audio_verdict_spec(
    slot: Option<SeekRequest>,
    first_audio: bool,
    pts: i64,
    wall: i64,
) -> AudioVerdict {
    let unfiltered = AudioVerdict {
        deliver: true,
        slot: None,
        first_audio: false,
        set_clock: if first_audio {
            Some(pts)
        } else {
            None
        },
    };
    match slot {
        Some(req) => if !seek_fresh(req, wall) {
            unfiltered
        } else if near_target(pts, req.target_ms, AUDIO_SEEK_TOLERANCE_MS) {
            AudioVerdict { deliver: true, slot: None, first_audio: false, set_clock: None }
        } else {
            AudioVerdict { deliver: false, slot, first_audio, set_clock: None }
        },
        None => unfiltered,
    }
}

pub fn audio_verdict(slot: Option<SeekRequest>, first_audio: bool, pts: i64, wall: i64) -> (r:
    AudioVerdict)
    ensures
        r == audio_verdict_spec(slot, first_audio, pts, wall),
        r.deliver && slot is Some && seek_fresh(slot->0, wall) ==> pts >= slot->0.target_ms
            - AUDIO_SEEK_TOLERANCE_MS,
{
    let unfiltered = AudioVerdict {
        deliver: true,
        slot: None,
        first_audio: false,
        set_clock: if first_audio {
            Some(pts)
        } else {
            None
        },
    };
    match slot {
        Some(req) => {
            if !fresh(req, wall) {
                unfiltered
            } else if near(pts, req.target_ms, 500) {
                AudioVerdict { deliver: true, slot: None, first_audio: false, set_clock: None }
            } else {
                AudioVerdict { deliver: false, slot, first_audio, set_clock: None }
            }
        },
        None => unfiltered,
    }
}

/// Soft and hard limits of a decoded-frame queue.
#[derive(Debug, Clone, Copy, PartialEq, Eq, Structural)]
pub struct QueueLimits {
    pub soft: usize,
    pub hard: usize,
}

pub open spec fn limits_wf(l: QueueLimits) -> bool {
    0 < l.soft <= l.hard
}

/// Video frames: throttle from 36 queued, block at 48.
pub fn video_limits() -> (r: QueueLimits)
    ensures
        r == (QueueLimits { soft: 36, hard: 48 }),
        limits_wf(r),
{
    QueueLimits { soft: 36, hard: 48 }
}

/// Audio frames: throttle from 80 queued, block at 120.
pub fn audio_limits() -> (r: QueueLimits)
    ensures
        r == (QueueLimits { soft: 80, hard: 120 }),
        limits_wf(r),
{
    QueueLimits { soft: 80, hard: 120 }
}

/// A decoder decodes its next packet only while its queue is below the
/// hard limit.
pub fn may_decode(queue_len: usize, limits: QueueLimits) -> (r: bool)
    ensures
        r == (queue_len < limits.hard),
{
    queue_len < limits.hard
}

/// Backpressure after a decoded batch.
#[derive(Debug, Clone, Copy, PartialEq, Eq, Structural)]
pub enum Backpressure {
    /// Go on at once.
    Proceed,
    /// Sleep this many milliseconds.
    Sleep(u64),
    /// Wait, with growing backoff, until the queue is below the soft limit.
    DrainBelowSoft,
}

/// Within the grace period after a seek no throttling happens; otherwise a
/// queue at the hard limit is drained below the soft one and a queue at the
/// soft limit costs a short sleep.
pub open spec fn backpressure_spec(queue_len: usize, limits: QueueLimits, in_grace: bool) -> Backpressure {
    if in_grace {
        Backpressure::Proceed
    } else if queue_len >= limits.hard {
        Backpressure::DrainBelowSoft
    } else if queue_len >= limits.soft {
        Backpressure::Sleep(4)
    } else {
        Backpressure::Proceed
    }
}

pub fn backpressure(queue_len: usize, limits: QueueLimits, in_grace: bool) -> (r: Backpressure)
    ensures
        r == backpressure_spec(queue_len, limits, in_grace),
{
    if in_grace {
        Backpressure::Proceed
    } else if queue_len >= limits.hard {
        Backpressure::DrainBelowSoft
    } else if queue_len >= limits.soft {
        Backpressure::Sleep(4)
    } else {
        Backpressure::Proceed
    }
}

/// First wait while a queue drains below its soft limit.
pub const BACKOFF_START_MS: u64 = 6;

/// Longest wait while the video frame queue drains.
pub const VIDEO_BACKOFF_CAP_MS: u64 = 20;

/// Longest wait while the audio frame queue drains.
pub const AUDIO_BACKOFF_CAP_MS: u64 = 15;

/// Wait between checks while a queue is at its hard limit.
pub const HARD_LIMIT_POLL_MS: u64 = 5;

/// The wait between checks while draining: starts at 6 ms and grows by
/// 2 ms up to `cap`.
pub fn next_backoff(current_ms: u64, cap_ms: u64) -> (r: u64)
    ensures
        r == if current_ms + 2 > cap_ms {
            cap_ms as int
        } else {
            current_ms + 2
        },
{
    if current_ms >= cap_ms || cap_ms - current_ms < 2 {
        cap_ms
    } else {
        current_ms + 2
    }
}

/// The seek grace period: throttling is off for 500 ms after a flush.
pub fn in_seek_grace(last_flush_ms: Option<i64>, wall: i64) -> (r: bool)
    ensures
        r == match last_flush_ms {
            Some(t) => wall - t < 500,
            None => false,
        },
{
    match last_flush_ms {
        Some(t) => (wall as i128) - (t as i128) < 500,
        None => false,
    }
}

/// Queue length after one decode step that decodes a batch of `batch`
/// frames while decoding is allowed (consumers may only shorten it further).
pub open spec fn after_decode_step(queue_len: int, batch: int, limits: QueueLimits) -> int {
    if queue_len < limits.hard {
        queue_len + batch
    } else {
        queue_len
    }
}

/// A queue never passes its hard limit by more than one batch: if it is
/// below `hard + max_batch` before a decode step whose batch is at most
/// `max_batch`, it is below that bound after the step too.
pub proof fn lemma_queue_cap(queue_len: int, batch: int, max_batch: int, limits: QueueLimits)
    requires
        0 <= queue_len < limits.hard + max_batch,
        0 <= batch <= max_batch,
    ensures
        after_decode_step(queue_len, batch, limits) < limits.hard + max_batch,
{
}

/// Queue length after a run of turns, each one a consumer taking `taken`
/// frames (ignored when more than are queued) and then a decode step with a
/// batch of `batch` frames; each turn is `(batch, taken)`.
pub open spec fn after_turns(queue_len: int, turns: Seq<(int, int)>, limits: QueueLimits) -> int
    decreases turns.len(),
{
    if turns.len() == 0 {
        queue_len
    } else {
        let prev = after_turns(queue_len, turns.drop_last(), limits);
        let (batch, taken) = turns.last();
        let left = if 0 <= taken <= prev {
            prev - taken
        } else {
            prev
        };
        after_decode_step(left, batch, limits)
    }
}

/// Over any run of decode steps and consumer reads, a queue that starts
/// within its hard limit plus one batch stays within it: it never passes its
/// hard limit by more than one decoder output batch.
pub proof fn lemma_queue_cap_always(
    queue_len: int,
    turns: Seq<(int, int)>,
    max_batch: int,
    limits: QueueLimits,
)
    requires
        0 <= queue_len < limits.hard + max_batch,
        forall|i: int| 0 <= i < turns.len() ==> 0 <= (#[trigger] turns[i]).0 <= max_batch,
    ensures
        0 <= after_turns(queue_len, turns, limits) < limits.hard + max_batch,
    decreases turns.len(),
{
    if turns.len() > 0 {
        assert forall|i: int| 0 <= i < turns.drop_last().len() implies 0 <= (
        #[trigger] turns.drop_last()[i]).0 <= max_batch by {
            assert(turns.drop_last()[i] == turns[i]);
        }
        lemma_queue_cap_always(queue_len, turns.drop_last(), max_batch, limits);
        assert(turns[turns.len() - 1] == turns.last());
        let prev = after_turns(queue_len, turns.drop_last(), limits);
        let (batch, taken) = turns.last();
        let left = if 0 <= taken <= prev {
            prev - taken
        } else {
            prev
        };
        lemma_queue_cap(left, batch, max_batch, limits);
    }
}

/// What the demuxer reader does after draining its command channel.
#[derive(Debug, Clone, Copy, PartialEq, Eq, Structural)]
pub struct CommandPlan {
    pub stop: bool,
    pub seek: Option<i64>,
}

/// Pending commands collapsed: any `Stop` stops; otherwise the last `Seek`
/// wins.
pub open spec fn plan_commands(cmds: Seq<DemuxerCommand>) -> CommandPlan
    decreases cmds.len(),
{
    if cmds.len() == 0 {
        CommandPlan { stop: false, seek: None }
    } else {
        let p = plan_commands(cmds.drop_last());
        match cmds.last() {
            DemuxerCommand::Stop => CommandPlan { stop: true, seek: p.seek },
            DemuxerCommand::Seek(t) => CommandPlan { stop: p.stop, seek: Some(t) },
        }
    }
}

pub fn drain_commands(cmds: &Vec<DemuxerCommand>) -> (r: CommandPlan)
    ensures
        r == plan_commands(cmds@),
{
    let mut plan = CommandPlan { stop: false, seek: None };
    let mut i: usize = 0;
    assert(cmds@.subrange(0, 0).len() == 0);
    while i < cmds.len()
        invariant
            i <= cmds@.len(),
            plan == plan_commands(cmds@.subrange(0, i as int)),
        decreases cmds.len() - i,
    {
        assert(cmds@.subrange(0, i + 1).drop_last() == cmds@.subrange(0, i as int));
        match cmds[i] {
            DemuxerCommand::Stop => {
                plan = CommandPlan { stop: true, seek: plan.seek };
            },
            DemuxerCommand::Seek(t) => {
                plan = CommandPlan { stop: plan.stop, seek: Some(t) };
            },
        }
        i = i + 1;
    }
    assert(cmds@.subrange(0, cmds@.len() as int) == cmds@);
    plan
}

/// The stream a packet belongs to, by index; video first, then audio, then
/// subtitles; `None` for a stream the engine does not play.
pub fn classify_packet(
    stream_index: usize,
    video: Option<usize>,
    audio: Option<usize>,
    subtitle: Option<usize>,
) -> (r: Option<PacketType>)
    ensures
        r == if video == Some(stream_index) {
            Some(PacketType::Video)
        } else if audio == Some(stream_index) {
            Some(PacketType::Audio)
        } else if subtitle == Some(stream_index) {
            Some(PacketType::Subtitle)
        } else {
            None
        },
{
    if video == Some(stream_index) {
        Some(PacketType::Video)
    } else if audio == Some(stream_index) {
        Some(PacketType::Audio)
    } else if subtitle == Some(stream_index) {
        Some(PacketType::Subtitle)
    } else {
        None
    }
}

/// The outcome of one read by the demuxer.
#[derive(Debug, Clone, Copy, PartialEq, Eq, Structural)]
pub enum ReadOutcome {
    Packet(PacketType),
    EndOfStream,
    Failed,
}

/// The demuxer reader's next move.
#[derive(Debug, Clone, Copy, PartialEq, Eq, Structural)]
pub enum ReaderAction {
    /// Send the packet to the queue of this kind (blocking when full).
    Send(PacketType),
    /// Sleep this many milliseconds and loop again (a later seek may resume
    /// reading).
    Sleep(u64),
    /// Leave the loop.
    Exit,
}

/// At end of stream the reader waits 100 ms and goes on; a read error ends
/// it; a packet goes to its queue.
pub fn reader_action(outcome: ReadOutcome) -> (r: ReaderAction)
    ensures
        r == match outcome {
            ReadOutcome::Packet(k) => ReaderAction::Send(k),
            ReadOutcome::EndOfStream => ReaderAction::Sleep(100),
            ReadOutcome::Failed => ReaderAction::Exit,
        },
{
    match outcome {
        ReadOutcome::Packet(k) => ReaderAction::Send(k),
        ReadOutcome::EndOfStream => ReaderAction::Sleep(100),
        ReadOutcome::Failed => ReaderAction::Exit,
    }
}

/// Kind of a codec error met while decoding a packet.
#[derive(Debug, Clone, Copy, PartialEq, Eq, Structural)]
pub enum CodecErrorKind {
    EndOfFile,
    TryAgain,
    Other,
}

/// What a decoder does with a codec error: end of file and "try again"
/// are expected and passed over silently; anything else is reported and
/// the packet skipped. No packet error stops the stream.
#[derive(Debug, Clone, Copy, PartialEq, Eq, Structural)]
pub enum ErrorPolicy {
    Ignore,
    ReportAndSkip,
}

pub fn error_policy(kind: CodecErrorKind) -> (r: ErrorPolicy)
    ensures
        r == match kind {
            CodecErrorKind::Other => ErrorPolicy::ReportAndSkip,
            _ => ErrorPolicy::Ignore,
        },
{
    match kind {
        CodecErrorKind::Other => ErrorPolicy::ReportAndSkip,
        _ => ErrorPolicy::Ignore,
    }
}

} // verus!
