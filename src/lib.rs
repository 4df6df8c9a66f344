//! Playback engine of a desktop media player: source classification,
//! subtitle parsing, the master clock, A/V frame selection and the playback
//! controller's state machine.
pub mod text;
pub mod media;
pub mod subtitle;
pub mod clock;
pub mod sync;
pub mod pipeline;
pub mod manager;
pub mod embedded;
pub mod network;
pub mod hwaccel;
pub mod demux;
pub mod srt_write;
pub mod audio;
