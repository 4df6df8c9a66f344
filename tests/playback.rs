use myy_player::clock::PlaybackClock;
use myy_player::manager::{EngineAction, PlaybackManager, Worker, WorkerSet};
use myy_player::media::{DemuxerCommand, MediaInfo, MediaSource, PixelFormat, PlaybackState, PlayerError, StreamProtocol, SubtitleFrame, VideoFrame};
use myy_player::pipeline::{audio_verdict, drain_commands, next_backoff, video_verdict, backpressure, video_limits, may_decode, Backpressure, SeekRequest};
use myy_player::subtitle::ExternalSubtitleParser;
use myy_player::sync::{frame_update, FrameQueue, FrameSelector, FrameUpdate};

fn frame(pts: i64) -> VideoFrame {
    VideoFrame { pts, duration: 40, width: 1, height: 1, format: PixelFormat::RGBA, data: vec![0, 0, 0, 255] }
}

fn info(duration: i64) -> MediaInfo {
    MediaInfo {
        duration,
        width: 1920,
        height: 1080,
        fps_num: 24,
        fps_den: 1,
        video_codec: "h264".to_string(),
        audio_codec: "aac".to_string(),
        sample_rate: 48000,
        channels: 2,
    }
}

fn all_workers() -> WorkerSet {
    WorkerSet { demuxer: true, video: true, audio: true, subtitle: true }
}

fn opened(path: &str, duration: i64) -> PlaybackManager {
    let mut c = PlaybackManager::new();
    c.begin_open(path, 0).unwrap();
    c.finish_open(info(duration), true, all_workers(), 0);
    c
}

#[test]
fn url_classification() {
    match MediaSource::from_url("rtsp://cam/1").unwrap() {
        MediaSource::NetworkStream { protocol, .. } => assert_eq!(protocol, StreamProtocol::RTSP),
        _ => panic!(),
    }
    match MediaSource::from_url("http://x/live/index.m3u8").unwrap() {
        MediaSource::NetworkStream { protocol, .. } => assert_eq!(protocol, StreamProtocol::HLS),
        _ => panic!(),
    }
    match MediaSource::from_url("https://x/a.mp4").unwrap() {
        MediaSource::NetworkStream { protocol, url } => {
            assert_eq!(protocol, StreamProtocol::HTTP);
            assert_eq!(url, "https://x/a.mp4");
        }
        _ => panic!(),
    }
    let s = MediaSource::from_url("/home/u/video.mkv").unwrap();
    assert!(!s.is_network_stream());
    assert_eq!(StreamProtocol::RTMP.as_str(), "RTMP");
}

#[test]
fn clock_runs_and_pauses() {
    let mut c = PlaybackClock::new();
    assert_eq!(c.now(500), 0);
    c.play(1000);
    assert_eq!(c.now(11000), 10000);
    let t1 = c.now(2000);
    let t2 = c.now(2040);
    assert!(t2 >= t1);
    c.pause(3000);
    assert_eq!(c.now(9000), 2000);
    c.play(9000);
    assert_eq!(c.now(9000), 2000);
    c.set_rate(2000, 10000);
    assert_eq!(c.now(10000), 3000);
    assert_eq!(c.now(10500), 4000);
    c.set_time(30000, 20000);
    assert_eq!(c.now(21000), 32000);
}

#[test]
fn frame_for_time_picks_latest_in_window() {
    let mut q = FrameQueue::new();
    for p in [100, 1500, 1900, 2000, 2100, 2500] {
        q.push(frame(p));
    }
    let f = q.frame_for_time(2050);
    assert_eq!(f.unwrap().pts, 2000);
    assert_eq!(q.len(), 4);
    assert_eq!(q.pop().unwrap().pts, 1500);
    assert_eq!(q.pop().unwrap().pts, 1900);
    assert_eq!(q.pop().unwrap().pts, 2100);
}

#[test]
fn frame_for_time_with_only_stale_or_future_frames() {
    let mut q = FrameQueue::new();
    q.push(frame(0));
    q.push(frame(9000));
    assert!(q.frame_for_time(5000).is_none());
    assert_eq!(q.len(), 1);
}

#[test]
fn three_tier_policy() {
    assert_eq!(frame_update(None, 0), FrameUpdate::Advance);
    assert_eq!(frame_update(Some(1000), 1039), FrameUpdate::Hold);
    assert_eq!(frame_update(Some(1000), 1040), FrameUpdate::Advance);
    assert_eq!(frame_update(Some(1000), 1100), FrameUpdate::Advance);
    assert_eq!(frame_update(Some(1000), 1151), FrameUpdate::Jump);
    assert_eq!(frame_update(Some(1000), 990), FrameUpdate::Hold);
}

#[test]
fn catch_up_skips_stale_frames() {
    let mut q = FrameQueue::new();
    for p in [0, 100, 200, 950, 1000] {
        q.push(frame(p));
    }
    let mut sel = FrameSelector::new();
    sel.shown_pts = Some(0);
    let f = sel.next_frame(&mut q, 1000).unwrap();
    assert_eq!(f.pts, 950);
    assert_eq!(sel.shown_pts, Some(950));
    assert_eq!(q.len(), 1);
}

#[test]
fn seek_filter_windows() {
    let req = Some(SeekRequest { target_ms: 30000, issued_at_ms: 1000 });
    assert!(!video_verdict(req, 28000, 1500).deliver);
    assert!(video_verdict(req, 29000, 1500).deliver);
    assert!(!video_verdict(req, 40001, 1500).deliver);
    let stale = video_verdict(req, 0, 3001);
    assert!(stale.deliver);
    assert!(stale.slot.is_none());
    let a = audio_verdict(req, true, 29400, 1500);
    assert!(!a.deliver);
    let a = audio_verdict(req, true, 29600, 1500);
    assert!(a.deliver && a.slot.is_none() && a.set_clock.is_none() && !a.first_audio);
    let a = audio_verdict(None, true, 123, 0);
    assert_eq!(a.set_clock, Some(123));
}

#[test]
fn backpressure_and_commands() {
    let l = video_limits();
    assert!(may_decode(47, l));
    assert!(!may_decode(48, l));
    assert_eq!(backpressure(48, l, false), Backpressure::DrainBelowSoft);
    assert_eq!(backpressure(36, l, false), Backpressure::Sleep(4));
    assert_eq!(backpressure(48, l, true), Backpressure::Proceed);
    assert_eq!(next_backoff(6, 20), 8);
    assert_eq!(next_backoff(19, 20), 20);
    let plan = drain_commands(&vec![DemuxerCommand::Seek(1), DemuxerCommand::Seek(2)]);
    assert_eq!(plan.seek, Some(2));
    assert!(!plan.stop);
    let plan = drain_commands(&vec![DemuxerCommand::Seek(1), DemuxerCommand::Stop]);
    assert!(plan.stop);
}

#[test]
fn open_play_pause_and_position() {
    let mut c = opened("/media/clip.mp4", 60000);
    assert_eq!(c.state(), PlaybackState::Paused);
    c.play(1000).unwrap();
    assert_eq!(c.state(), PlaybackState::Playing);
    assert_eq!(c.position_ms(11000), 10000);
    let before = c.position_ms(12000);
    c.pause(12000);
    assert_eq!(c.position_ms(14000), before);
    c.play(14000).unwrap();
    assert_eq!(c.position_ms(14000), before);
    assert_eq!(c.position_ms(15000), before + 1000);
}

#[test]
fn seek_presets_clock_and_clears_queues() {
    let mut c = opened("/media/clip.mp4", 60000);
    c.play(0).unwrap();
    assert!(c.deliver_video_frame(frame(10), 5));
    let actions = c.seek(30000, 1000).unwrap();
    assert_eq!(actions, vec![EngineAction::ClearAudioSink, EngineAction::DrainAudioFrames, EngineAction::SendDemuxer(DemuxerCommand::Seek(30000))]);
    assert_eq!(c.video_queue_len(), 0);
    assert_eq!(c.position_ms(1000), 30000);
    assert!(!c.deliver_video_frame(frame(20), 1100));
    assert!(c.deliver_video_frame(frame(29960), 1200));
    assert!(c.take_video_flush());
    assert!(!c.take_video_flush());
    let f = c.get_frame_for_time(30100).unwrap();
    assert!(f.pts >= 29000 && f.pts <= 31100);
}

#[test]
fn seek_to_current_position_keeps_it() {
    let mut c = opened("/media/clip.mp4", 60000);
    c.play(0).unwrap();
    let now = c.position_ms(5000);
    c.seek(now, 5000).unwrap();
    assert_eq!(c.position_ms(5000), now);
    assert_eq!(c.state(), PlaybackState::Playing);
}

#[test]
fn seek_bounds() {
    let mut c = opened("/media/clip.mp4", 60000);
    assert!(c.seek(0, 0).is_ok());
    assert_eq!(c.position_ms(0), 0);
    assert!(c.seek(60000, 0).is_ok());
    assert_eq!(c.position_ms(0), 60000);
    let a = c.seek(90000, 0).unwrap();
    assert_eq!(a[2], EngineAction::SendDemuxer(DemuxerCommand::Seek(60000)));
    let mut live = PlaybackManager::new();
    live.begin_open("rtsp://cam/1", 0).unwrap();
    live.finish_open(info(0), false, all_workers(), 0);
    assert_eq!(live.state(), PlaybackState::Buffering);
    assert_eq!(live.seek(10, 0), Err(PlayerError::SeekUnsupported));
    let mut empty = opened("/media/empty.mp4", 0);
    assert!(empty.seek(5, 0).is_ok());
    assert_eq!(empty.position_ms(0), 0);
}

#[test]
fn put_back_frames_are_sorted() {
    let mut q = FrameQueue::new();
    for p in [500, 900, 400] {
        q.push(frame(p));
    }
    assert_eq!(q.frame_for_time(1000).unwrap().pts, 900);
    assert_eq!(q.pop().unwrap().pts, 400);
    assert_eq!(q.pop().unwrap().pts, 500);
    assert!(q.pop().is_none());
}

#[test]
fn network_source_resumes_after_stop_and_play() {
    let mut c = PlaybackManager::new();
    c.begin_open("http://host/a.mp4", 0).unwrap();
    c.finish_open(info(60000), true, all_workers(), 0);
    c.finish_buffering(100);
    assert_eq!(c.state(), PlaybackState::Paused);
    c.play(200).unwrap();
    c.stop(1000);
    assert_eq!(c.play(1100).unwrap(), vec![EngineAction::Reopen]);
    let src = c.source().unwrap().clone();
    c.begin_open(&src, 1200).unwrap();
    c.finish_open(info(60000), true, all_workers(), 1200);
    assert_eq!(c.state(), PlaybackState::Buffering);
    c.finish_buffering(1500);
    assert_eq!(c.state(), PlaybackState::Playing);
    assert_eq!(c.position_ms(1500), 0);
    assert_eq!(c.get_media_info().unwrap().duration, 60000);
}

#[test]
fn play_without_source_fails() {
    let mut c = PlaybackManager::new();
    c.stop(0);
    match c.play(0) {
        Err(PlayerError::Other(_)) => {}
        other => panic!("unexpected {:?}", other),
    }
    assert!(c.get_media_info().is_none());
}

#[test]
fn stop_joins_everything_in_order() {
    let mut c = opened("/media/clip.mp4", 60000);
    c.play(0).unwrap();
    c.deliver_video_frame(frame(10), 0);
    c.deliver_subtitle(SubtitleFrame { pts: 0, duration: 10, text: "x".to_string(), end_pts: 10 });
    let actions = c.stop(500);
    assert_eq!(
        actions,
        vec![
            EngineAction::SignalStop,
            EngineAction::Join(Worker::Demuxer),
            EngineAction::Join(Worker::VideoDecoder),
            EngineAction::Join(Worker::AudioDecoder),
            EngineAction::Join(Worker::SubtitleDecoder),
            EngineAction::StopAudioSink,
            EngineAction::DrainAudioFrames,
        ]
    );
    assert_eq!(c.video_queue_len(), 0);
    assert_eq!(c.state(), PlaybackState::Stopped);
    assert_eq!(c.workers(), WorkerSet { demuxer: false, video: false, audio: false, subtitle: false });
    assert_eq!(c.position_ms(900), 0);
}

#[test]
fn stop_then_play_restarts_from_zero() {
    let mut c = opened("/media/clip.mp4", 60000);
    c.play(0).unwrap();
    c.stop(5000);
    let a = c.play(6000).unwrap();
    assert_eq!(a, vec![EngineAction::Reopen]);
    let src = c.source().unwrap().clone();
    assert_eq!(src, "/media/clip.mp4");
    c.begin_open(&src, 6000).unwrap();
    c.finish_open(info(60000), true, all_workers(), 6000);
    assert_eq!(c.state(), PlaybackState::Playing);
    assert_eq!(c.position_ms(6000), 0);
}

#[test]
fn page_urls_are_refused() {
    let mut c = PlaybackManager::new();
    match c.begin_open("https://www.youtube.com/watch?v=x", 0) {
        Err(PlayerError::OpenError(_)) => {}
        other => panic!("unexpected {:?}", other),
    }
    assert_eq!(c.state(), PlaybackState::Idle);
}

#[test]
fn subtitle_scenarios() {
    let mut c = opened("/media/clip.mp4", 60000);
    let srt = "1\n00:00:10,000 --> 00:00:12,000\nHello\nWorld\n";
    c.load_external_subtitles(ExternalSubtitleParser::parse_srt(srt).unwrap());
    assert_eq!(c.get_current_subtitle(11000).unwrap().text, "Hello\nWorld");
    assert!(c.get_current_subtitle(12000).is_none());
    let ass = "[Events]\nDialogue: 0,0:00:05.00,0:00:06.50,Default,,0,0,0,,{\\an8\\pos(1,2)}Hi\\NThere\n";
    c.load_external_subtitles(ExternalSubtitleParser::parse_ass(ass).unwrap());
    assert_eq!(c.get_current_subtitle(5500).unwrap().text, "Hi\nThere");
}

#[test]
fn overlapping_cues_show_latest_start() {
    let mut c = opened("/media/clip.mp4", 60000);
    c.deliver_subtitle(SubtitleFrame { pts: 1000, duration: 5000, text: "first".to_string(), end_pts: 6000 });
    c.deliver_subtitle(SubtitleFrame { pts: 2000, duration: 1000, text: "second".to_string(), end_pts: 3000 });
    c.deliver_subtitle(SubtitleFrame { pts: 9000, duration: 1000, text: "later".to_string(), end_pts: 10000 });
    assert_eq!(c.get_current_subtitle(2500).unwrap().text, "second");
    assert_eq!(c.get_current_subtitle(2600).unwrap().text, "second");
    let mut ext = PlaybackManager::new();
    ext.load_external_subtitles(vec![
        SubtitleFrame { pts: 1000, duration: 5000, text: "a".to_string(), end_pts: 6000 },
        SubtitleFrame { pts: 2000, duration: 1000, text: "b".to_string(), end_pts: 3000 },
    ]);
    assert_eq!(ext.get_current_subtitle(2500).unwrap().text, "b");
    assert_eq!(ext.get_current_subtitle(4000).unwrap().text, "a");
}

#[test]
fn external_cues_are_sorted_on_load() {
    let cues = vec![
        SubtitleFrame { pts: 5000, duration: 1000, text: "c".to_string(), end_pts: 6000 },
        SubtitleFrame { pts: 1000, duration: 1000, text: "a".to_string(), end_pts: 2000 },
        SubtitleFrame { pts: 3000, duration: 1000, text: "b".to_string(), end_pts: 4000 },
    ];
    let sorted = myy_player::subtitle::sort_by_start(cues);
    let starts: Vec<i64> = sorted.iter().map(|c| c.pts).collect();
    assert_eq!(starts, vec![1000, 3000, 5000]);
}

#[test]
fn volume_is_clamped() {
    let mut c = PlaybackManager::new();
    c.set_volume(1500);
    assert_eq!(c.volume_permille(), 1000);
    c.set_volume(-3);
    assert_eq!(c.volume_permille(), 0);
    c.set_volume(400);
    assert_eq!(c.volume_permille(), 400);
}
