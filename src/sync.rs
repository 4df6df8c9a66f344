//! A/V synchronisation on the display side: which decoded video frame and
//! which subtitle cue to show at a clock reading.
use vstd::prelude::*;
use vstd::multiset::Multiset;
use std::collections::VecDeque;
use crossbeam::queue::SegQueue;
use crate::media::{SubtitleFrame, VideoFrame};

verus! {

/// Frames older than this much behind the clock are dropped when scanning.
pub const STALE_MS: i64 = 1000;

/// At most this many frames are examined per scan.
pub const SCAN_LIMIT: usize = 200;

/// At most this many future frames are kept per scan.
pub const FUTURE_LIMIT: usize = 30;

/// Above this many queued frames, the queue is pruned before a frame is taken.
pub const PRUNE_ABOVE: usize = 80;

/// At most this many frames are examined when pruning.
pub const PRUNE_SCAN: usize = 300;

/// At most this many frames survive a prune.
pub const PRUNE_KEEP: usize = 50;

/// At most this many frames are taken in one catch-up jump.
pub const JUMP_LIMIT: usize = 10;

/// A frame this close behind the clock ends a catch-up jump.
pub const JUMP_FRESH_MS: i64 = 80;

#[verifier::external_type_specification]
#[verifier::external_body]
#[verifier::reject_recursive_types(T)]
pub struct ExSegQueue<T>(SegQueue<T>);

/// What a queue of decoded video frames holds, oldest first.
pub uninterp spec fn frame_queue_items(q: SegQueue<VideoFrame>) -> Seq<VideoFrame>;

/// Relies on `SegQueue::new`: a new queue is empty.
#[verifier::external_body]
fn seg_new() -> (r: SegQueue<VideoFrame>)
    ensures
        frame_queue_items(r) == Seq::<VideoFrame>::empty(),
{
    SegQueue::new()
}

/// Relies on `SegQueue::len`: the number of frames queued.
#[verifier::external_body]
fn seg_len(q: &SegQueue<VideoFrame>) -> (r: usize)
    ensures
        r == frame_queue_items(*q).len(),
{
    q.len()
}

/// Relies on `SegQueue::push_mut`: the frame goes to the back.
#[verifier::external_body]
fn seg_push(q: &mut SegQueue<VideoFrame>, f: VideoFrame)
    ensures
        frame_queue_items(*final(q)) == frame_queue_items(*old(q)).push(f),
{
    q.push_mut(f)
}

/// Relies on `SegQueue::pop_mut`: the oldest frame leaves, or `None` when
/// the queue is empty.
#[verifier::external_body]
fn seg_pop(q: &mut SegQueue<VideoFrame>) -> (r: Option<VideoFrame>)
    ensures
        match r {
            Some(f) => frame_queue_items(*old(q)).len() > 0 && f == frame_queue_items(*old(q))[0]
                && frame_queue_items(*final(q)) == frame_queue_items(*old(q)).subrange(
                1,
                frame_queue_items(*old(q)).len() as int,
            ),
            None => frame_queue_items(*old(q)).len() == 0 && frame_queue_items(*final(q))
                == frame_queue_items(*old(q)),
        },
{
    q.pop_mut()
}

/// Decoded video frames waiting for display, oldest first.
pub struct FrameQueue {
    frames: SegQueue<VideoFrame>,
}

impl View for FrameQueue {
    type V = Seq<VideoFrame>;

    closed spec fn view(&self) -> Seq<VideoFrame> {
        frame_queue_items(self.frames)
    }
}

/// Progress of a scan for the frame to show: the best frame so far, the
/// shown-or-past frames put back, and the future frames put back.
pub struct ScanModel {
    pub best: Option<VideoFrame>,
    pub keep: Seq<VideoFrame>,
    pub future: Seq<VideoFrame>,
}

pub open spec fn in_window(f: VideoFrame, now: i64) -> bool {
    now - STALE_MS <= f.pts <= now
}

/// One scanned frame: a stale one is dropped; one at or before the clock
/// competes for best (a later timestamp wins, the loser is put back); a
/// future one is put back while fewer than the limit are.
pub open spec fn scan_step(st: ScanModel, f: VideoFrame, now: i64) -> ScanModel {
    if f.pts < now - STALE_MS {
        st
    } else if f.pts <= now {
        match st.best {
            Some(b) => if b.pts < f.pts {
                ScanModel { best: Some(f), keep: st.keep.push(b), future: st.future }
            } else {
                ScanModel { best: st.best, keep: st.keep.push(f), future: st.future }
            },
            None => ScanModel { best: Some(f), keep: st.keep, future: st.future },
        }
    } else if st.future.len() < FUTURE_LIMIT {
        ScanModel { best: st.best, keep: st.keep, future: st.future.push(f) }
    } else {
        st
    }
}

pub open spec fn scan_frames(s: Seq<VideoFrame>, now: i64) -> ScanModel
    decreases s.len(),
{
    if s.len() == 0 {
        ScanModel {
            best: None,
            keep: Seq::<VideoFrame>::empty(),
            future: Seq::<VideoFrame>::empty(),
        }
    } else {
        scan_step(scan_frames(s.drop_last(), now), s.last(), now)
    }
}

pub open spec fn min_int(a: int, b: int) -> int {
    if a < b {
        a
    } else {
        b
    }
}

/// The frames a scan examines.
pub open spec fn scanned(q: Seq<VideoFrame>) -> Seq<VideoFrame> {
    q.subrange(0, min_int(q.len() as int, SCAN_LIMIT as int))
}

/// The frames a scan leaves unexamined.
pub open spec fn unscanned(q: Seq<VideoFrame>) -> Seq<VideoFrame> {
    q.subrange(min_int(q.len() as int, SCAN_LIMIT as int), q.len() as int)
}

/// The scan's best frame lies in the window and no frame of the window
/// scanned has a later timestamp; no best means no frame in the window.
pub proof fn lemma_scan_best(s: Seq<VideoFrame>, now: i64)
    ensures
        match scan_frames(s, now).best {
            Some(b) => in_window(b, now) && s.contains(b) && forall|i: int|
                0 <= i < s.len() && in_window(#[trigger] s[i], now) ==> s[i].pts <= b.pts,
            None => forall|i: int| 0 <= i < s.len() ==> !in_window(#[trigger] s[i], now),
        },
    decreases s.len(),
{
    if s.len() > 0 {
        let p = s.drop_last();
        lemma_scan_best(p, now);
        assert forall|i: int| 0 <= i < s.len() - 1 implies #[trigger] s[i] == p[i] by {}
        match scan_frames(s, now).best {
            Some(b) => {
                if b == s.last() {
                    assert(s[s.len() - 1] == b);
                } else {
                    assert(scan_frames(p, now).best == Some(b));
                    let j = choose|j: int| 0 <= j < p.len() && p[j] == b;
                    assert(s[j] == b);
                }
            },
            None => {},
        }
    }
}

/// Frames in order of their timestamps.
pub open spec fn sorted_by_pts(s: Seq<VideoFrame>) -> bool {
    forall|i: int, j: int| 0 <= i < j < s.len() ==> s[i].pts <= s[j].pts
}

/// The frame to show at `now` and the queue `q2` left from a queue `q`:
/// the latest frame of the window among the first frames is taken; the
/// other frames of the window, then the future frames kept, are put back
/// each sorted by timestamp, ahead of the frames not examined; stale frames
/// are dropped.
pub open spec fn frame_for_time_spec(
    q: Seq<VideoFrame>,
    now: i64,
    r: Option<VideoFrame>,
    q2: Seq<VideoFrame>,
) -> bool {
    let st = scan_frames(scanned(q), now);
    let k = st.keep.len() as int;
    let f = st.future.len() as int;
    &&& r == st.best
    &&& q2.len() == k + f + unscanned(q).len()
    &&& sorted_by_pts(q2.subrange(0, k))
    &&& q2.subrange(0, k).to_multiset() == st.keep.to_multiset()
    &&& sorted_by_pts(q2.subrange(k, k + f))
    &&& q2.subrange(k, k + f).to_multiset() == st.future.to_multiset()
    &&& q2.subrange(k + f, q2.len() as int) == unscanned(q)
}

/// Orders frames by timestamp; the result holds the same frames.
pub fn sort_by_pts(frames: Vec<VideoFrame>) -> (r: Vec<VideoFrame>)
    ensures
        sorted_by_pts(r@),
        r@.to_multiset() == frames@.to_multiset(),
{
    broadcast use vstd::seq_lib::group_to_multiset_ensures, vstd::multiset::group_multiset_axioms;

    let mut input = frames;
    let mut out: Vec<VideoFrame> = Vec::new();
    let ghost all = input@;
    assert(out@.to_multiset() =~= Multiset::<VideoFrame>::empty());
    while input.len() > 0
        invariant
            sorted_by_pts(out@),
            out@.to_multiset().add(input@.to_multiset()) == all.to_multiset(),
        decreases input@.len(),
    {
        let ghost before_in = input@;
        let x = input.pop().unwrap();
        assert(before_in == input@.push(x));
        let mut j: usize = 0;
        while j < out.len() && out[j].pts < x.pts
            invariant
                j <= out@.len(),
                forall|k: int| 0 <= k < j ==> out@[k].pts < x.pts,
            decreases out@.len() - j,
        {
            j = j + 1;
        }
        let ghost before_out = out@;
        out.insert(j, x);
        assert(out@ == before_out.insert(j as int, x));
        assert(sorted_by_pts(out@)) by {
            assert forall|a: int, b: int| 0 <= a < b < out@.len() implies out@[a].pts
                <= out@[b].pts by {
                if b < j {
                } else if b == j {
                    assert(out@[a] == before_out[a]);
                } else if a < j {
                    assert(out@[a] == before_out[a]);
                    assert(out@[b] == before_out[b - 1]);
                    if j < before_out.len() {
                        assert(before_out[j as int].pts >= x.pts);
                    }
                } else if a == j {
                    assert(out@[b] == before_out[b - 1]);
                    assert(before_out[j as int].pts >= x.pts);
                } else {
                    assert(out@[a] == before_out[a - 1]);
                    assert(out@[b] == before_out[b - 1]);
                }
            }
        }
        proof {
            vstd::seq_lib::to_multiset_insert(before_out, j as int, x);
            vstd::seq_lib::to_multiset_build(input@, x);
        }
        assert(out@.to_multiset() == before_out.to_multiset().insert(x));
        assert(before_in.to_multiset() =~= input@.to_multiset().insert(x));
        assert(out@.to_multiset().add(input@.to_multiset()) =~= before_out.to_multiset().add(
            before_in.to_multiset(),
        ));
    }
    assert(input@.to_multiset() =~= Multiset::<VideoFrame>::empty());
    assert(out@.to_multiset().add(input@.to_multiset()) =~= out@.to_multiset());
    out
}

/// Keep the first frames that are not stale, up to the prune limit.
pub open spec fn prune_frames(s: Seq<VideoFrame>, now: i64) -> Seq<VideoFrame>
    decreases s.len(),
{
    if s.len() == 0 {
        s
    } else {
        let k = prune_frames(s.drop_last(), now);
        if s.last().pts >= now - STALE_MS && k.len() < PRUNE_KEEP {
            k.push(s.last())
        } else {
            k
        }
    }
}

/// The queue after the overflow check that precedes taking a frame.
pub open spec fn pruned_queue(q: Seq<VideoFrame>, now: i64) -> Seq<VideoFrame> {
    if q.len() > PRUNE_ABOVE {
        let n = min_int(q.len() as int, PRUNE_SCAN as int);
        prune_frames(q.subrange(0, n), now) + q.subrange(n, q.len() as int)
    } else {
        q
    }
}

/// How many frames a catch-up jump takes from `q`, having looked at `i`:
/// it stops after the first fresh frame, at the limit, or when empty.
pub open spec fn jump_len(q: Seq<VideoFrame>, now: i64, i: int) -> int
    decreases JUMP_LIMIT - i,
{
    if i >= JUMP_LIMIT || i >= q.len() || i < 0 {
        i
    } else if q[i].pts >= now - JUMP_FRESH_MS {
        i + 1
    } else {
        jump_len(q, now, i + 1)
    }
}

pub proof fn lemma_jump_len_bounds(q: Seq<VideoFrame>, now: i64, i: int)
    requires
        0 <= i <= q.len(),
        i <= JUMP_LIMIT,
    ensures
        i <= jump_len(q, now, i) <= q.len(),
        jump_len(q, now, i) <= JUMP_LIMIT,
        q.len() > i && i < JUMP_LIMIT ==> jump_len(q, now, i) > i,
    decreases JUMP_LIMIT - i,
{
    if i < JUMP_LIMIT && i < q.len() && q[i].pts < now - JUMP_FRESH_MS {
        lemma_jump_len_bounds(q, now, i + 1);
    }
}

impl FrameQueue {
    pub fn new() -> (r: FrameQueue)
        ensures
            r@ == Seq::<VideoFrame>::empty(),
    {
        FrameQueue { frames: seg_new() }
    }

    pub fn len(&self) -> (r: usize)
        ensures
            r == self@.len(),
    {
        seg_len(&self.frames)
    }

    /// Appends a decoded frame.
    pub fn push(&mut self, frame: VideoFrame)
        ensures
            final(self)@ == old(self)@.push(frame),
    {
        seg_push(&mut self.frames, frame);
    }

    /// Takes the oldest frame.
    pub fn pop(&mut self) -> (r: Option<VideoFrame>)
        ensures
            match r {
                Some(f) => old(self)@.len() > 0 && f == old(self)@[0] && final(self)@ == old(
                    self,
                )@.subrange(1, old(self)@.len() as int),
                None => old(self)@.len() == 0 && final(self)@ == old(self)@,
            },
    {
        seg_pop(&mut self.frames)
    }

    /// Drops every frame; returns how many there were.
    pub fn clear(&mut self) -> (r: usize)
        ensures
            final(self)@ == Seq::<VideoFrame>::empty(),
            r == old(self)@.len(),
    {
        let n = seg_len(&self.frames);
        let mut k: usize = 0;
        while seg_len(&self.frames) > 0
            invariant
                k + frame_queue_items(self.frames).len() == n,
            decreases frame_queue_items(self.frames).len(),
        {
            seg_pop(&mut self.frames);
            k = k + 1;
        }
        k
    }

    /// Puts `front` back ahead of the frames still queued.
    fn restore_front(&mut self, front: Vec<VideoFrame>)
        ensures
            final(self)@ == front@ + old(self)@,
    {
        let ghost rest0 = frame_queue_items(self.frames);
        let mut rest: Vec<VideoFrame> = Vec::new();
        while seg_len(&self.frames) > 0
            invariant
                rest@ + frame_queue_items(self.frames) == rest0,
            decreases frame_queue_items(self.frames).len(),
        {
            let ghost before = frame_queue_items(self.frames);
            let f = seg_pop(&mut self.frames).unwrap();
            rest.push(f);
            assert(before == seq![f] + frame_queue_items(self.frames));
        }
        assert(rest@ == rest0);
        let mut front = front;
        let ghost all = front@;
        while front.len() > 0
            invariant
                frame_queue_items(self.frames) + front@ == all,
            decreases front@.len(),
        {
            let ghost before = front@;
            let f = front.remove(0);
            assert(before == seq![f] + front@);
            seg_push(&mut self.frames, f);
        }
        while rest.len() > 0
            invariant
                frame_queue_items(self.frames) + rest@ == all + rest0,
            decreases rest@.len(),
        {
            let ghost before = rest@;
            let f = rest.remove(0);
            assert(before == seq![f] + rest@);
            seg_push(&mut self.frames, f);
        }
        assert(frame_queue_items(self.frames) + rest@ == frame_queue_items(self.frames));
    }

    /// The frame to show at clock reading `now` (the latest one not after
    /// `now` and not more than a second behind it, among the first
    /// frames); the other frames of the window and some future frames are
    /// put back in order, stale ones are dropped.
    pub fn frame_for_time(&mut self, now: i64) -> (r: Option<VideoFrame>)
        ensures
            frame_for_time_spec(old(self)@, now, r, final(self)@),
            match r {
                Some(f) => now - STALE_MS <= f.pts <= now && forall|i: int|
                    0 <= i < scanned(old(self)@).len() && in_window(
                        #[trigger] scanned(old(self)@)[i],
                        now,
                    ) ==> scanned(old(self)@)[i].pts <= f.pts,
                None => forall|i: int|
                    0 <= i < scanned(old(self)@).len() ==> !in_window(
                        #[trigger] scanned(old(self)@)[i],
                        now,
                    ),
            },
    {
        let ghost q = frame_queue_items(self.frames);
        let mut best: Option<VideoFrame> = None;
        let mut keep: Vec<VideoFrame> = Vec::new();
        let mut future: Vec<VideoFrame> = Vec::new();
        let mut checked: usize = 0;
        let lo: i128 = now as i128 - 1000;
        while checked < SCAN_LIMIT && seg_len(&self.frames) > 0
            invariant
                checked <= SCAN_LIMIT,
                checked <= q.len(),
                lo == now - STALE_MS,
                frame_queue_items(self.frames) == q.subrange(checked as int, q.len() as int),
                scan_frames(q.subrange(0, checked as int), now) == (ScanModel {
                    best,
                    keep: keep@,
                    future: future@,
                }),
            decreases frame_queue_items(self.frames).len(),
        {
            let f = seg_pop(&mut self.frames).unwrap();
            let ghost pre = q.subrange(0, checked as int);
            let ghost post = q.subrange(0, checked + 1);
            assert(post.drop_last() == pre);
            assert(post.last() == f);
            assert(frame_queue_items(self.frames) == q.subrange(checked + 1, q.len() as int));
            if (f.pts as i128) < lo {
            } else if f.pts <= now {
                let cur = best.take();
                match cur {
                    Some(b) => {
                        if b.pts < f.pts {
                            keep.push(b);
                            best = Some(f);
                        } else {
                            best = Some(b);
                            keep.push(f);
                        }
                    },
                    None => {
                        best = Some(f);
                    },
                }
            } else if future.len() < FUTURE_LIMIT {
                future.push(f);
            }
            checked = checked + 1;
        }
        assert(q.subrange(0, checked as int) == scanned(q));
        assert(frame_queue_items(self.frames) == unscanned(q));
        proof {
            lemma_scan_best(scanned(q), now);
        }
        let ghost st_keep = keep@;
        let ghost st_future = future@;
        let keep_sorted = sort_by_pts(keep);
        let future_sorted = sort_by_pts(future);
        let ghost ks = keep_sorted@;
        let ghost fs = future_sorted@;
        proof {
            vstd::seq_lib::to_multiset_len(st_keep);
            vstd::seq_lib::to_multiset_len(ks);
            vstd::seq_lib::to_multiset_len(st_future);
            vstd::seq_lib::to_multiset_len(fs);
        }
        self.restore_front(future_sorted);
        self.restore_front(keep_sorted);
        let ghost q2 = frame_queue_items(self.frames);
        assert(q2 == ks + (fs + unscanned(q)));
        assert(q2.subrange(0, ks.len() as int) == ks);
        assert(q2.subrange(ks.len() as int, (ks.len() + fs.len()) as int) == fs);
        assert(q2.subrange((ks.len() + fs.len()) as int, q2.len() as int) == unscanned(q));
        best
    }

    /// Drops stale frames from the first ones when too many are queued.
    fn prune_if_full(&mut self, now: i64)
        ensures
            final(self)@ == pruned_queue(old(self)@, now),
    {
        if seg_len(&self.frames) <= PRUNE_ABOVE {
            return ;
        }
        let ghost q = frame_queue_items(self.frames);
        let mut kept: Vec<VideoFrame> = Vec::new();
        let mut processed: usize = 0;
        let lo: i128 = now as i128 - 1000;
        while processed < PRUNE_SCAN && seg_len(&self.frames) > 0
            invariant
                processed <= PRUNE_SCAN,
                processed <= q.len(),
                lo == now - STALE_MS,
                frame_queue_items(self.frames) == q.subrange(processed as int, q.len() as int),
                kept@ == prune_frames(q.subrange(0, processed as int), now),
            decreases frame_queue_items(self.frames).len(),
        {
            let f = seg_pop(&mut self.frames).unwrap();
            let ghost pre = q.subrange(0, processed as int);
            let ghost post = q.subrange(0, processed + 1);
            assert(post.drop_last() == pre);
            assert(post.last() == f);
            assert(frame_queue_items(self.frames) == q.subrange(processed + 1, q.len() as int));
            if (f.pts as i128) >= lo && kept.len() < PRUNE_KEEP {
                kept.push(f);
            }
            processed = processed + 1;
        }
        assert(processed == min_int(q.len() as int, PRUNE_SCAN as int));
        self.restore_front(kept);
    }

    /// Takes the next frame to show, first dropping stale frames when the
    /// queue has grown too long.
    pub fn current_frame(&mut self, now: i64) -> (r: Option<VideoFrame>)
        ensures
            ({
                let q = pruned_queue(old(self)@, now);
                match r {
                    Some(f) => q.len() > 0 && f == q[0] && final(self)@ == q.subrange(
                        1,
                        q.len() as int,
                    ),
                    None => q.len() == 0 && final(self)@ == q,
                }
            }),
    {
        self.prune_if_full(now);
        seg_pop(&mut self.frames)
    }

    /// A catch-up jump for a display far behind the clock: after the
    /// overflow check, takes frames until one is at most 80 ms behind `now`
    /// (or ten are taken, or none is left) and returns the last one taken.
    pub fn catch_up(&mut self, now: i64) -> (r: Option<VideoFrame>)
        ensures
            ({
                let q = pruned_queue(old(self)@, now);
                let n = jump_len(q, now, 0);
                &&& final(self)@ == q.subrange(n, q.len() as int)
                &&& r == if n == 0 {
                    None::<VideoFrame>
                } else {
                    Some(q[n - 1])
                }
            }),
    {
        self.prune_if_full(now);
        let ghost q = frame_queue_items(self.frames);
        proof {
            lemma_jump_len_bounds(q, now, 0);
        }
        let mut last: Option<VideoFrame> = None;
        let mut taken: usize = 0;
        let mut done = false;
        let lo: i128 = now as i128 - 80;
        while !done && taken < JUMP_LIMIT && seg_len(&self.frames) > 0
            invariant
                taken <= JUMP_LIMIT,
                taken <= q.len(),
                lo == now - JUMP_FRESH_MS,
                frame_queue_items(self.frames) == q.subrange(taken as int, q.len() as int),
                done ==> jump_len(q, now, 0) == taken,
                !done ==> jump_len(q, now, 0) == jump_len(q, now, taken as int),
                taken == 0 ==> last is None,
                taken > 0 ==> last == Some(q[taken - 1]),
            decreases JUMP_LIMIT - taken,
        {
            let f = seg_pop(&mut self.frames).unwrap();
            assert(f == q[taken as int]);
            assert(frame_queue_items(self.frames) == q.subrange(taken + 1, q.len() as int));
            if (f.pts as i128) >= lo {
                done = true;
            }
            last = Some(f);
            taken = taken + 1;
        }
        proof {
            if !done {
                assert(jump_len(q, now, taken as int) == taken);
            }
        }
        last
    }
}

/// What the display does at a refresh.
#[derive(Debug, Clone, Copy, PartialEq, Eq, Structural)]
pub enum FrameUpdate {
    /// Keep showing the current frame.
    Hold,
    /// Take the next frame.
    Advance,
    /// Far behind: jump over stale frames.
    Jump,
}

/// The three-tier policy, by `lag = now - shown`: more than 150 ms behind
/// jumps; 50 to 150 ms behind advances once the lag reaches 30 ms; otherwise
/// advances once it reaches 40 ms. With nothing shown, a frame is taken.
pub open spec fn update_spec(shown: Option<i64>, now: i64) -> FrameUpdate {
    match shown {
        None => FrameUpdate::Advance,
        Some(p) => {
            let lag = now - p;
            let threshold: int = if lag > 150 {
                0
            } else if lag > 50 {
                30
            } else {
                40
            };
            if lag < threshold {
                FrameUpdate::Hold
            } else if lag > 150 {
                FrameUpdate::Jump
            } else {
                FrameUpdate::Advance
            }
        },
    }
}

pub fn frame_update(shown: Option<i64>, now: i64) -> (r: FrameUpdate)
    ensures
        r == update_spec(shown, now),
{
    match shown {
        None => FrameUpdate::Advance,
        Some(p) => {
            let lag: i128 = now as i128 - p as i128;
            let threshold: i128 = if lag > 150 {
                0
            } else if lag > 50 {
                30
            } else {
                40
            };
            if lag < threshold {
                FrameUpdate::Hold
            } else if lag > 150 {
                FrameUpdate::Jump
            } else {
                FrameUpdate::Advance
            }
        },
    }
}

/// Taking the next frame (after the overflow check): the frame and the
/// queue left.
pub open spec fn advance_spec(q0: Seq<VideoFrame>, now: i64) -> (Option<VideoFrame>, Seq<VideoFrame>) {
    let q = pruned_queue(q0, now);
    if q.len() > 0 {
        (Some(q[0]), q.subrange(1, q.len() as int))
    } else {
        (None, q)
    }
}

/// A catch-up jump (after the overflow check): the last frame taken and
/// the queue left.
pub open spec fn jump_spec(q0: Seq<VideoFrame>, now: i64) -> (Option<VideoFrame>, Seq<VideoFrame>) {
    let q = pruned_queue(q0, now);
    let n = jump_len(q, now, 0);
    (if n == 0 { None } else { Some(q[n - 1]) }, q.subrange(n, q.len() as int))
}

/// One display refresh under the three-tier policy: the new frame to show,
/// if any, and the queue left.
pub open spec fn display_step(shown: Option<i64>, q: Seq<VideoFrame>, now: i64) -> (Option<VideoFrame>, Seq<VideoFrame>) {
    match update_spec(shown, now) {
        FrameUpdate::Hold => (None, q),
        FrameUpdate::Advance => advance_spec(q, now),
        FrameUpdate::Jump => jump_spec(q, now),
    }
}

/// The GUI's pull of video frames: remembers the timestamp on screen and
/// applies the three-tier policy at each refresh.
pub struct FrameSelector {
    pub shown_pts: Option<i64>,
}

impl FrameSelector {
    pub fn new() -> (r: FrameSelector)
        ensures
            r.shown_pts is None,
    {
        FrameSelector { shown_pts: None }
    }

    /// Forgets the frame on screen (after a seek or a new source).
    pub fn reset(&mut self)
        ensures
            final(self).shown_pts is None,
    {
        self.shown_pts = None;
    }

    /// The new frame to put on screen at clock reading `now`, if any.
    pub fn next_frame(&mut self, queue: &mut FrameQueue, now: i64) -> (r: Option<VideoFrame>)
        ensures
            (r, final(queue)@) == display_step(old(self).shown_pts, old(queue)@, now),
            final(self).shown_pts == match r {
                Some(f) => Some(f.pts),
                None => old(self).shown_pts,
            },
    {
        let r = match frame_update(self.shown_pts, now) {
            FrameUpdate::Hold => None,
            FrameUpdate::Advance => queue.current_frame(now),
            FrameUpdate::Jump => queue.catch_up(now),
        };
        match &r {
            Some(f) => {
                self.shown_pts = Some(f.pts);
            },
            None => {},
        }
        r
    }
}

/// At most this many embedded cues are examined per query.
pub const CUE_SCAN_LIMIT: usize = 100;

/// The cue is on screen at `now`.
pub open spec fn covers(c: SubtitleFrame, now: i64) -> bool {
    c.pts <= now && now < c.end_pts
}

/// Among the cues covering `now`, the one with the largest start (the
/// earliest of equals).
pub open spec fn best_cover(s: Seq<SubtitleFrame>, now: i64) -> Option<SubtitleFrame>
    decreases s.len(),
{
    if s.len() == 0 {
        None
    } else {
        let b = best_cover(s.drop_last(), now);
        let f = s.last();
        if covers(f, now) && (b is None || b->0.pts < f.pts) {
            Some(f)
        } else {
            b
        }
    }
}

/// Overlapping cues: the chosen cue covers `now` and starts no earlier than
/// any other cue covering `now`; when none is chosen, none covers `now`.
pub proof fn lemma_best_cover(s: Seq<SubtitleFrame>, now: i64)
    ensures
        match best_cover(s, now) {
            Some(b) => covers(b, now) && s.contains(b) && forall|i: int|
                0 <= i < s.len() && covers(#[trigger] s[i], now) ==> s[i].pts <= b.pts,
            None => forall|i: int| 0 <= i < s.len() ==> !covers(#[trigger] s[i], now),
        },
    decreases s.len(),
{
    if s.len() > 0 {
        let p = s.drop_last();
        lemma_best_cover(p, now);
        assert forall|i: int| 0 <= i < s.len() - 1 implies #[trigger] s[i] == p[i] by {}
        match best_cover(s, now) {
            Some(b) => {
                if b == s.last() {
                    assert(s[s.len() - 1] == b);
                } else {
                    let j = choose|j: int| 0 <= j < p.len() && p[j] == b;
                    assert(s[j] == b);
                }
            },
            None => {},
        }
    }
}

/// Cues put back after a query: future ones, and those covering `now` that
/// start with the chosen cue.
pub open spec fn keep_cue(c: SubtitleFrame, now: i64, best: Option<SubtitleFrame>) -> bool {
    now < c.pts || (covers(c, now) && best is Some && c.pts == best->0.pts)
}

pub open spec fn kept_cues(s: Seq<SubtitleFrame>, now: i64, best: Option<SubtitleFrame>) -> Seq<SubtitleFrame>
    decreases s.len(),
{
    if s.len() == 0 {
        s
    } else if keep_cue(s.last(), now, best) {
        kept_cues(s.drop_last(), now, best).push(s.last())
    } else {
        kept_cues(s.drop_last(), now, best)
    }
}

pub open spec fn same_cue(a: SubtitleFrame, b: SubtitleFrame) -> bool {
    a.pts == b.pts && a.duration == b.duration && a.text@ == b.text@ && a.end_pts == b.end_pts
}

pub open spec fn same_choice(r: Option<SubtitleFrame>, b: Option<SubtitleFrame>) -> bool {
    match (r, b) {
        (Some(x), Some(y)) => same_cue(x, y),
        (None, None) => true,
        _ => false,
    }
}

pub fn copy_cue(c: &SubtitleFrame) -> (r: SubtitleFrame)
    ensures
        same_cue(r, *c),
{
    SubtitleFrame { pts: c.pts, duration: c.duration, text: c.text.clone(), end_pts: c.end_pts }
}

/// The cue to show at `now` among `cues` (external cues are all consulted).
pub fn cue_at(cues: &Vec<SubtitleFrame>, now: i64) -> (r: Option<SubtitleFrame>)
    ensures
        same_choice(r, best_cover(cues@, now)),
{
    let mut best: Option<usize> = None;
    let mut i: usize = 0;
    assert(cues@.subrange(0, 0).len() == 0);
    while i < cues.len()
        invariant
            i <= cues@.len(),
            match best {
                Some(k) => k < i && best_cover(cues@.subrange(0, i as int), now) == Some(
                    cues@[k as int],
                ),
                None => best_cover(cues@.subrange(0, i as int), now) is None,
            },
        decreases cues.len() - i,
    {
        let ghost pre = cues@.subrange(0, i as int);
        let ghost post = cues@.subrange(0, i + 1);
        assert(post.drop_last() == pre);
        assert(post.last() == cues@[i as int]);
        let c = &cues[i];
        if c.pts <= now && now < c.end_pts {
            match best {
                Some(k) => {
                    if cues[k].pts < c.pts {
                        best = Some(i);
                    }
                },
                None => {
                    best = Some(i);
                },
            }
        }
        i = i + 1;
    }
    assert(cues@.subrange(0, cues@.len() as int) == cues@);
    match best {
        Some(k) => Some(copy_cue(&cues[k])),
        None => None,
    }
}

/// Decoded embedded cues, oldest first.
/// What a queue of decoded cues holds, oldest first.
pub uninterp spec fn cue_queue_items(q: SegQueue<SubtitleFrame>) -> Seq<SubtitleFrame>;

/// Relies on `SegQueue::new`: a new queue is empty.
#[verifier::external_body]
fn cue_seg_new() -> (r: SegQueue<SubtitleFrame>)
    ensures
        cue_queue_items(r) == Seq::<SubtitleFrame>::empty(),
{
    SegQueue::new()
}

/// Relies on `SegQueue::len`: the number of cues queued.
#[verifier::external_body]
fn cue_seg_len(q: &SegQueue<SubtitleFrame>) -> (r: usize)
    ensures
        r == cue_queue_items(*q).len(),
{
    q.len()
}

/// Relies on `SegQueue::push_mut`: the cue goes to the back.
#[verifier::external_body]
fn cue_seg_push(q: &mut SegQueue<SubtitleFrame>, c: SubtitleFrame)
    ensures
        cue_queue_items(*final(q)) == cue_queue_items(*old(q)).push(c),
{
    q.push_mut(c)
}

/// Relies on `SegQueue::pop_mut`: the oldest cue leaves, or `None` when the
/// queue is empty.
#[verifier::external_body]
fn cue_seg_pop(q: &mut SegQueue<SubtitleFrame>) -> (r: Option<SubtitleFrame>)
    ensures
        match r {
            Some(c) => cue_queue_items(*old(q)).len() > 0 && c == cue_queue_items(*old(q))[0]
                && cue_queue_items(*final(q)) == cue_queue_items(*old(q)).subrange(
                1,
                cue_queue_items(*old(q)).len() as int,
            ),
            None => cue_queue_items(*old(q)).len() == 0 && cue_queue_items(*final(q))
                == cue_queue_items(*old(q)),
        },
{
    q.pop_mut()
}

pub struct CueQueue {
    cues: SegQueue<SubtitleFrame>,
}

impl View for CueQueue {
    type V = Seq<SubtitleFrame>;

    closed spec fn view(&self) -> Seq<SubtitleFrame> {
        cue_queue_items(self.cues)
    }
}

pub open spec fn cue_scanned(q: Seq<SubtitleFrame>) -> Seq<SubtitleFrame> {
    q.subrange(0, min_int(q.len() as int, CUE_SCAN_LIMIT as int))
}

pub open spec fn cue_unscanned(q: Seq<SubtitleFrame>) -> Seq<SubtitleFrame> {
    q.subrange(min_int(q.len() as int, CUE_SCAN_LIMIT as int), q.len() as int)
}

impl CueQueue {
    pub fn new() -> (r: CueQueue)
        ensures
            r@ == Seq::<SubtitleFrame>::empty(),
    {
        CueQueue { cues: cue_seg_new() }
    }

    pub fn len(&self) -> (r: usize)
        ensures
            r == self@.len(),
    {
        cue_seg_len(&self.cues)
    }

    pub fn push(&mut self, cue: SubtitleFrame)
        ensures
            final(self)@ == old(self)@.push(cue),
    {
        cue_seg_push(&mut self.cues, cue);
    }

    /// Drops every cue; returns how many there were.
    pub fn clear(&mut self) -> (r: usize)
        ensures
            final(self)@ == Seq::<SubtitleFrame>::empty(),
            r == old(self)@.len(),
    {
        let n = cue_seg_len(&self.cues);
        let mut k: usize = 0;
        while cue_seg_len(&self.cues) > 0
            invariant
                k + cue_queue_items(self.cues).len() == n,
            decreases cue_queue_items(self.cues).len(),
        {
            cue_seg_pop(&mut self.cues);
            k = k + 1;
        }
        k
    }

    /// The embedded cue to show at `now`: among the first cues, the one
    /// covering `now` with the largest start. Expired cues are dropped;
    /// future cues and the chosen cue's peers stay queued, in order.
    pub fn cue_at(&mut self, now: i64) -> (r: Option<SubtitleFrame>)
        ensures
            same_choice(r, best_cover(cue_scanned(old(self)@), now)),
            final(self)@ == kept_cues(
                cue_scanned(old(self)@),
                now,
                best_cover(cue_scanned(old(self)@), now),
            ) + cue_unscanned(old(self)@),
    {
        let ghost q = cue_queue_items(self.cues);
        let mut scanned: Vec<SubtitleFrame> = Vec::new();
        let mut checked: usize = 0;
        while checked < CUE_SCAN_LIMIT && cue_seg_len(&self.cues) > 0
            invariant
                checked <= CUE_SCAN_LIMIT,
                checked <= q.len(),
                cue_queue_items(self.cues) == q.subrange(checked as int, q.len() as int),
                scanned@ == q.subrange(0, checked as int),
            decreases cue_queue_items(self.cues).len(),
        {
            let c = cue_seg_pop(&mut self.cues).unwrap();
            scanned.push(c);
            assert(scanned@ == q.subrange(0, checked + 1));
            checked = checked + 1;
        }
        assert(scanned@ == cue_scanned(q));
        assert(cue_queue_items(self.cues) == cue_unscanned(q));
        let best = cue_at(&scanned, now);
        let ghost bc = best_cover(scanned@, now);
        proof {
            lemma_best_cover(scanned@, now);
        }
        let best_pts: Option<i64> = match &best {
            Some(b) => Some(b.pts),
            None => None,
        };
        let mut kept: VecDeque<SubtitleFrame> = VecDeque::new();
        let ghost all = scanned@;
        assert(all.subrange(0, all.len() as int) == all);
        assert(kept_cues(all, now, bc) + kept@ == kept_cues(all, now, bc));
        while scanned.len() > 0
            invariant
                scanned@.len() <= all.len(),
                scanned@ == all.subrange(0, scanned@.len() as int),
                best_pts == match bc {
                    Some(b) => Some(b.pts),
                    None => None::<i64>,
                },
                kept_cues(all, now, bc) == kept_cues(
                    all.subrange(0, scanned@.len() as int),
                    now,
                    bc,
                ) + kept@,
            decreases scanned@.len(),
        {
            let ghost k = scanned@.len() as int;
            let c = scanned.pop().unwrap();
            assert(all.subrange(0, k).drop_last() == all.subrange(0, k - 1));
            assert(all.subrange(0, k).last() == c);
            let keep = now < c.pts || (c.pts <= now && now < c.end_pts && match best_pts {
                Some(p) => c.pts == p,
                None => false,
            });
            let ghost before = kept@;
            if keep {
                kept.push_front(c);
                assert(kept_cues(all.subrange(0, k - 1), now, bc).push(c) + before
                    == kept_cues(all.subrange(0, k - 1), now, bc) + kept@);
            }
        }
        assert(all.subrange(0, 0).len() == 0);
        assert(kept_cues(all, now, bc) == kept@);
        let ghost rest0 = cue_queue_items(self.cues);
        let mut rest: VecDeque<SubtitleFrame> = VecDeque::new();
        while cue_seg_len(&self.cues) > 0
            invariant
                rest@ + cue_queue_items(self.cues) == rest0,
            decreases cue_queue_items(self.cues).len(),
        {
            let ghost before = cue_queue_items(self.cues);
            let c = cue_seg_pop(&mut self.cues).unwrap();
            rest.push_back(c);
            assert(before == seq![c] + cue_queue_items(self.cues));
        }
        let ghost kc = kept@;
        while kept.len() > 0
            invariant
                cue_queue_items(self.cues) + kept@ == kc,
            decreases kept@.len(),
        {
            let ghost before = kept@;
            let c = kept.pop_front().unwrap();
            assert(before == seq![c] + kept@);
            cue_seg_push(&mut self.cues, c);
        }
        assert(cue_queue_items(self.cues) == kc);
        while rest.len() > 0
            invariant
                cue_queue_items(self.cues) + rest@ == kc + rest0,
            decreases rest@.len(),
        {
            let ghost before = rest@;
            let c = rest.pop_front().unwrap();
            assert(before == seq![c] + rest@);
            cue_seg_push(&mut self.cues, c);
        }
        assert(cue_queue_items(self.cues) + rest@ == cue_queue_items(self.cues));
        best
    }
}

} // verus!
