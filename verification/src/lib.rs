//! Battle-record engine for a fighting game: value guessing from noisy
//! frame-by-frame observations, the per-battle record and its rules,
//! win statistics, scene transitions and the small capture/audio helpers.

pub mod clock;
pub mod data;
pub mod guesser;
pub mod stats;
pub mod parse;
pub mod textmatch;
pub mod reading;
pub mod capture;
pub mod wasapi;
pub mod style;
pub mod scene;
pub mod frame_store;
pub mod sound;
pub mod engine;
pub mod stored;
