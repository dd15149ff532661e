//! A real-time looping engine for one voice of a multi-track audio looper.
//!
//! A looper captures what comes in, all the time, into a scratch pad: a ring
//! of samples. On request it takes a window of the ring as its loop, at once
//! or on the next line of the musical grid, and plays the loop back sample by
//! sample, with fades, offsets, a speed, and overdubs.
//!
//! Positions, fractions and gains are exact fixed-point numbers, so every
//! index, every wrap and every fade is an integer fact with a proof. Samples
//! are carried, never computed on: the engine tells its caller which stored
//! samples to mix and with which weights.
//!
//! Beside the looper stand the data types of MIDI messages and files, the
//! decisions of a metronome and of the voices of a synthesizer, the signs of
//! the Hadamard matrix that mixes the channels of a reverb, and the content
//! hash of a package.
pub mod audio_buffer;
pub mod content_hashes;
pub mod fade;
pub mod fixed;
pub mod handle;
pub mod loop_quantization;
pub mod looper_laws;
pub mod looper_state;
pub mod metronome;
pub mod midi;
pub mod mix_matrix;
pub mod multi_track_looper;
pub mod quantize_mode;
pub mod scratch_pad;
pub mod settings;
pub mod synth;
pub mod time_info_provider;

pub use handle::LooperHandle;
pub use looper_state::{LooperOptions, LooperState, ToggleRecordingResult};
pub use multi_track_looper::{LooperId, LooperVoice, MultiTrackLooper, MultiTrackLooperHandle};
pub use quantize_mode::{QuantizeMode, QuantizeOptions};
pub use time_info_provider::TimeInfoProviderImpl;
