use myy_player::audio::{keep_feeding, negotiate_config, OutputConfig, SupportedRange};
use myy_player::demux::{pack_rgba_rows, rebase_pts_ms, seek_timestamp_us, DemuxerFactory};
use myy_player::hwaccel::{HWAccelType, TargetPlatform};
use myy_player::media::{MediaSource, StreamProtocol};
use myy_player::network::{startup_buffer_done, BufferManager, NetworkStreamManager, ReconnectConfig, StreamState};

#[test]
fn reconnect_attempts_are_bounded() {
    let mut m = NetworkStreamManager::new("rtsp://cam".to_string(), StreamProtocol::RTSP);
    assert_eq!(m.get_state(), StreamState::Disconnected);
    m.connect(0).unwrap();
    for _ in 0..5 {
        assert_eq!(m.reconnect(), Ok(3));
    }
    assert!(m.reconnect().is_err());
    m.reset_reconnect_count();
    assert_eq!(m.reconnect(), Ok(3));
    let d = ReconnectConfig::default();
    assert_eq!(d.max_attempts, 5);
}

#[test]
fn buffer_manager_hysteresis() {
    let mut b = BufferManager::new(3000);
    b.update(500);
    assert!(b.should_buffer());
    assert_eq!(b.buffer_progress(), 166);
    b.update(2000);
    assert!(b.should_buffer());
    b.update(3000);
    assert!(!b.should_buffer());
    assert_eq!(b.buffer_progress(), 1000);
    b.update(1000);
    assert!(!b.should_buffer());
    assert!(startup_buffer_done(40, 80, 0));
    assert!(!startup_buffer_done(40, 79, 7999));
    assert!(startup_buffer_done(0, 0, 8000));
}

#[test]
fn stream_state_reports_buffering() {
    let mut m = NetworkStreamManager::new("http://x/a.mp4".to_string(), StreamProtocol::HTTP);
    m.connect(0).unwrap();
    m.buffer_manager().update(300);
    assert_eq!(m.get_state(), StreamState::Buffering { progress_permille: 100 });
    m.buffer_manager().update(3000);
    assert_eq!(m.get_state(), StreamState::Playing);
    m.update_stats(5000, 1000);
    assert_eq!(m.get_stats().bytes_received, 5000);
    assert_eq!(m.get_stats().bandwidth_bps, 5000);
}

#[test]
fn hardware_backends_by_platform() {
    assert_eq!(
        HWAccelType::detect_available(TargetPlatform::Linux),
        vec![HWAccelType::VAAPI, HWAccelType::CUDA, HWAccelType::QSV, HWAccelType::Software]
    );
    assert_eq!(HWAccelType::detect_available(TargetPlatform::Windows)[0], HWAccelType::D3D11VA);
    assert_eq!(HWAccelType::D3D11VA.to_ffmpeg_type(), Some(4));
    assert_eq!(HWAccelType::Software.to_ffmpeg_type(), None);
    assert_eq!(HWAccelType::CUDA.name(), "CUDA");
    assert_eq!(HWAccelType::Software.name(), "CPU软解");
}

#[test]
fn open_options_by_source() {
    assert!(DemuxerFactory::open_options("/a/b.mp4").is_empty());
    let o = DemuxerFactory::open_options("http://x/a.mp4");
    assert_eq!(o.len(), 13);
    assert_eq!(o[0], ("fflags".to_string(), "+discardcorrupt+genpts+nobuffer+igndts".to_string()));
    let o = DemuxerFactory::open_options("http://x/live.m3u8");
    assert_eq!(o.len(), 17);
    assert_eq!(o[13], ("live_start_index".to_string(), "-1".to_string()));
    let s = MediaSource::from_url("rtmp://x/y").unwrap();
    assert_eq!(DemuxerFactory::location(&s), "rtmp://x/y");
}

#[test]
fn timestamp_conversions() {
    assert_eq!(seek_timestamp_us(1500), Some(1_500_000));
    assert_eq!(seek_timestamp_us(i64::MAX), None);
    assert_eq!(rebase_pts_ms(90000, 1, 90000), 1000);
    assert_eq!(rebase_pts_ms(-45, 1, 90000), 0);
    assert_eq!(rebase_pts_ms(1001, 1, 1000), 1001);
    assert_eq!(rebase_pts_ms(3, 1001, 24000), 125);
}

#[test]
fn rows_are_packed_without_padding() {
    let src: Vec<u8> = (0u8..20).collect();
    let packed = pack_rgba_rows(&src, 10, 2, 2);
    assert_eq!(packed, vec![0, 1, 2, 3, 4, 5, 6, 7, 10, 11, 12, 13, 14, 15, 16, 17]);
    assert!(pack_rgba_rows(&src, 10, 2, 0).is_empty());
}

#[test]
fn audio_configuration_negotiation() {
    let ranges = vec![
        SupportedRange { min_rate: 8000, max_rate: 48000, channels: 2 },
        SupportedRange { min_rate: 44100, max_rate: 44100, channels: 1 },
    ];
    let req = OutputConfig { sample_rate: 44100, channels: 2 };
    assert_eq!(negotiate_config(req, &ranges), Some(req));
    let req = OutputConfig { sample_rate: 96000, channels: 6 };
    assert_eq!(negotiate_config(req, &ranges), Some(OutputConfig { sample_rate: 48000, channels: 2 }));
    let mono = vec![SupportedRange { min_rate: 22050, max_rate: 22050, channels: 1 }];
    assert_eq!(negotiate_config(req, &mono), Some(OutputConfig { sample_rate: 22050, channels: 1 }));
    assert_eq!(negotiate_config(req, &vec![]), None);
    assert!(keep_feeding(96000));
    assert!(!keep_feeding(96001));
}
