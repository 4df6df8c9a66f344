//! Network sources: reconnect policy, buffer level tracking and the stream
//! state shown to the user.
use vstd::prelude::*;
use crate::media::{PlayerError, StreamProtocol};

verus! {

/// Reconnect policy and the attempts made so far.
#[derive(Debug, Clone, Copy, PartialEq, Eq, Structural)]
pub struct ReconnectConfig {
    pub enabled: bool,
    pub max_attempts: u32,
    pub current_attempt: u32,
    /// Seconds to wait before each attempt.
    pub retry_interval: u64,
}

impl Default for ReconnectConfig {
    /// Enabled, up to 5 attempts, 3 s apart.
    fn default() -> (r: ReconnectConfig)
        ensures
            r == (ReconnectConfig {
                enabled: true,
                max_attempts: 5,
                current_attempt: 0,
                retry_interval: 3,
            }),
    {
        ReconnectConfig { enabled: true, max_attempts: 5, current_attempt: 0, retry_interval: 3 }
    }
}

/// Connection state of a network stream as shown to the user; buffering
/// progress is in thousandths.
#[derive(Debug, Clone, PartialEq, Eq)]
pub enum StreamState {
    Disconnected,
    Connecting,
    Buffering { progress_permille: u32 },
    Playing,
    Reconnecting { attempt: u32 },
    Failed { reason: String },
}

/// Buffer level of a network stream, in milliseconds of media.
#[derive(Debug, Clone, Copy, PartialEq, Eq, Structural)]
pub struct BufferManager {
    target_ms: u64,
    current_ms: u64,
    min_threshold_ms: u64,
    is_buffering: bool,
}

pub struct BufferModel {
    pub target_ms: u64,
    pub current_ms: u64,
    pub min_threshold_ms: u64,
    pub is_buffering: bool,
}

impl View for BufferManager {
    type V = BufferModel;

    closed spec fn view(&self) -> BufferModel {
        BufferModel {
            target_ms: self.target_ms,
            current_ms: self.current_ms,
            min_threshold_ms: self.min_threshold_ms,
            is_buffering: self.is_buffering,
        }
    }
}

/// Buffering starts when the level falls under a fifth of the target and
/// ends when it reaches the target; in between it keeps its last state.
pub open spec fn buffering_after(b: BufferModel, level: u64) -> bool {
    if level < b.min_threshold_ms {
        true
    } else if level >= b.target_ms {
        false
    } else {
        b.is_buffering
    }
}

pub open spec fn progress_spec(current: u64, target: u64) -> u32 {
    if target == 0 || current >= target {
        1000
    } else {
        (current as int * 1000 / target as int) as u32
    }
}

impl BufferManager {
    /// A manager aiming at `target_ms` of buffered media.
    pub fn new(target_ms: u64) -> (r: BufferManager)
        ensures
            r@ == (BufferModel {
                target_ms,
                current_ms: 0,
                min_threshold_ms: target_ms / 5,
                is_buffering: false,
            }),
    {
        BufferManager { target_ms, current_ms: 0, min_threshold_ms: target_ms / 5, is_buffering: false }
    }

    /// Records the buffer level.
    pub fn update(&mut self, level_ms: u64)
        ensures
            final(self)@ == (BufferModel {
                current_ms: level_ms,
                is_buffering: buffering_after(old(self)@, level_ms),
                ..old(self)@
            }),
    {
        self.current_ms = level_ms;
        if level_ms < self.min_threshold_ms {
            self.is_buffering = true;
        } else if level_ms >= self.target_ms {
            self.is_buffering = false;
        }
    }

    pub fn should_buffer(&self) -> (r: bool)
        ensures
            r == self@.is_buffering,
    {
        self.is_buffering
    }

    /// Fill level in thousandths of the target, at most 1000.
    pub fn buffer_progress(&self) -> (r: u32)
        ensures
            r == progress_spec(self@.current_ms, self@.target_ms),
            r <= 1000,
    {
        if self.target_ms == 0 || self.current_ms >= self.target_ms {
            1000
        } else {
            assert((self.current_ms as int) * 1000 / (self.target_ms as int) < 1000) by (nonlinear_arith)
                requires
                    self.current_ms < self.target_ms,
                    self.target_ms > 0,
            ;
            ((self.current_ms as u128 * 1000) / self.target_ms as u128) as u32
        }
    }

    pub fn current_buffer_size(&self) -> (r: u64)
        ensures
            r == self@.current_ms,
    {
        self.current_ms
    }
}

/// Traffic counters of a network stream.
#[derive(Debug, Clone, Copy, PartialEq, Eq, Structural)]
pub struct NetworkStats {
    pub bytes_received: u64,
    /// Average bytes per second since the connection opened.
    pub bandwidth_bps: u64,
    /// Milliseconds since the connection opened.
    pub connection_ms: u64,
}

/// Connection bookkeeping of a network source.
pub struct NetworkStreamManager {
    url: String,
    protocol: StreamProtocol,
    reconnect: ReconnectConfig,
    buffer: BufferManager,
    stats: NetworkStats,
    connected_at: Option<i64>,
}

/// Whether another reconnect attempt is allowed.
pub open spec fn may_reconnect(c: ReconnectConfig) -> bool {
    c.enabled && c.current_attempt < c.max_attempts
}

impl NetworkStreamManager {
    /// A disconnected manager with the default reconnect policy and a 3 s
    /// buffer target.
    pub fn new(url: String, protocol: StreamProtocol) -> (r: NetworkStreamManager)
        ensures
            r.url()@ == url@,
            r.protocol() == protocol,
            r.reconnect_config() == (ReconnectConfig {
                enabled: true,
                max_attempts: 5,
                current_attempt: 0,
                retry_interval: 3,
            }),
            r.connected_at() is None,
            r.buffer_manager_view() == (BufferModel {
                target_ms: 3000,
                current_ms: 0,
                min_threshold_ms: 600,
                is_buffering: false,
            }),
    {
        NetworkStreamManager {
            url,
            protocol,
            reconnect: ReconnectConfig::default(),
            buffer: BufferManager::new(3000),
            stats: NetworkStats { bytes_received: 0, bandwidth_bps: 0, connection_ms: 0 },
            connected_at: None,
        }
    }

    pub closed spec fn url(&self) -> String {
        self.url
    }

    pub closed spec fn protocol(&self) -> StreamProtocol {
        self.protocol
    }

    pub closed spec fn reconnect_config(&self) -> ReconnectConfig {
        self.reconnect
    }

    pub closed spec fn connected_at(&self) -> Option<i64> {
        self.connected_at
    }

    pub closed spec fn buffer_manager_view(&self) -> BufferModel {
        self.buffer@
    }

    pub closed spec fn stats_view(&self) -> NetworkStats {
        self.stats
    }

    /// Marks the connection open at wall time `wall`.
    pub fn connect(&mut self, wall: i64) -> (r: Result<(), PlayerError>)
        ensures
            r is Ok,
            final(self).connected_at() == Some(wall),
            final(self).reconnect_config() == old(self).reconnect_config(),
            final(self).buffer_manager_view() == old(self).buffer_manager_view(),
    {
        self.connected_at = Some(wall);
        Ok(())
    }

    pub fn disconnect(&mut self)
        ensures
            final(self).connected_at() is None,
            final(self).reconnect_config() == old(self).reconnect_config(),
            final(self).buffer_manager_view() == old(self).buffer_manager_view(),
    {
        self.connected_at = None;
    }

    /// Counts an attempt to reconnect and returns the seconds to wait before
    /// it; refused when reconnecting is off or the attempts are used up.
    pub fn reconnect(&mut self) -> (r: Result<u64, PlayerError>)
        ensures
            may_reconnect(old(self).reconnect_config()) ==> r == Ok::<u64, PlayerError>(
                old(self).reconnect_config().retry_interval,
            ) && final(self).reconnect_config() == (ReconnectConfig {
                current_attempt: (old(self).reconnect_config().current_attempt + 1) as u32,
                ..old(self).reconnect_config()
            }),
            !may_reconnect(old(self).reconnect_config()) ==> r is Err && r->Err_0 is NetworkError
                && final(self).reconnect_config() == old(self).reconnect_config(),
            final(self).connected_at() == old(self).connected_at(),
    {
        if !self.reconnect.enabled {
            return Err(PlayerError::NetworkError(String::from_str("reconnecting is disabled")));
        }
        if self.reconnect.current_attempt >= self.reconnect.max_attempts {
            return Err(PlayerError::NetworkError(String::from_str("reconnect attempts used up")));
        }
        self.reconnect.current_attempt = self.reconnect.current_attempt + 1;
        Ok(self.reconnect.retry_interval)
    }

    pub fn reset_reconnect_count(&mut self)
        ensures
            final(self).reconnect_config() == (ReconnectConfig {
                current_attempt: 0,
                ..old(self).reconnect_config()
            }),
    {
        self.reconnect.current_attempt = 0;
    }

    /// Counts `bytes` more received at wall time `wall`, and recomputes the
    /// average bandwidth since the connection opened (both saturating).
    pub fn update_stats(&mut self, bytes: u64, wall: i64)
        ensures
            ({
                let old_stats = old(self).stats_view();
                let new_stats = final(self).stats_view();
                let total = if old_stats.bytes_received + bytes > u64::MAX {
                    u64::MAX as int
                } else {
                    old_stats.bytes_received + bytes
                };
                &&& new_stats.bytes_received == total
                &&& match old(self).connected_at() {
                    Some(start) => if 0 < wall - start <= u64::MAX {
                        new_stats.connection_ms == wall - start && new_stats.bandwidth_bps
                            == if total * 1000 / (wall - start) > u64::MAX {
                            u64::MAX as int
                        } else {
                            total * 1000 / (wall - start)
                        }
                    } else {
                        new_stats.connection_ms == old_stats.connection_ms
                            && new_stats.bandwidth_bps == old_stats.bandwidth_bps
                    },
                    None => new_stats.connection_ms == old_stats.connection_ms
                        && new_stats.bandwidth_bps == old_stats.bandwidth_bps,
                }
            }),
            final(self).connected_at() == old(self).connected_at(),
            final(self).reconnect_config() == old(self).reconnect_config(),
            final(self).buffer_manager_view() == old(self).buffer_manager_view(),
    {
        let total = if self.stats.bytes_received > u64::MAX - bytes {
            u64::MAX
        } else {
            self.stats.bytes_received + bytes
        };
        self.stats.bytes_received = total;
        match self.connected_at {
            Some(start) => {
                let elapsed: i128 = wall as i128 - start as i128;
                if elapsed > 0 && elapsed <= u64::MAX as i128 {
                    let e = elapsed as u64;
                    self.stats.connection_ms = e;
                    let rate: u128 = (total as u128 * 1000) / (e as u128);
                    self.stats.bandwidth_bps = if rate > u64::MAX as u128 {
                        u64::MAX
                    } else {
                        rate as u64
                    };
                }
            },
            None => {},
        }
    }

    pub fn get_stats(&self) -> (r: NetworkStats)
        ensures
            r == self.stats_view(),
    {
        self.stats
    }

    pub fn buffer_manager(&mut self) -> (r: &mut BufferManager)
        ensures
            r@ == old(self).buffer_manager_view(),
            final(self).buffer_manager_view() == (*final(r))@,
            final(self).connected_at() == old(self).connected_at(),
    {
        &mut self.buffer
    }

    /// Disconnected until connected; then buffering (with its progress)
    /// while the buffer is low, else playing.
    pub fn get_state(&self) -> (r: StreamState)
        ensures
            self.connected_at() is None ==> r == StreamState::Disconnected,
            self.connected_at() is Some && self.buffer_manager_view().is_buffering ==> r
                == (StreamState::Buffering {
                progress_permille: progress_spec(
                    self.buffer_manager_view().current_ms,
                    self.buffer_manager_view().target_ms,
                ),
            }),
            self.connected_at() is Some && !self.buffer_manager_view().is_buffering ==> r
                == StreamState::Playing,
    {
        if self.connected_at.is_none() {
            return StreamState::Disconnected;
        }
        if self.buffer.should_buffer() {
            StreamState::Buffering { progress_permille: self.buffer.buffer_progress() }
        } else {
            StreamState::Playing
        }
    }
}

/// Buffering after opening a network source ends once 40 video and 80
/// audio packets are queued, or after 8 s.
pub fn startup_buffer_done(video_packets: usize, audio_packets: usize, waited_ms: u64) -> (r: bool)
    ensures
        r == ((video_packets >= 40 && audio_packets >= 80) || waited_ms >= 8000),
{
    (video_packets >= 40 && audio_packets >= 80) || waited_ms >= 8000
}

} // verus!
