//! The verified core of a spectrum-analyser display: capture bookkeeping,
//! frequency bands, device choice, settings, and the picture itself.

pub mod bands;
pub mod capture;
pub mod device;
pub mod double;
pub mod equalizer;
pub mod error;
pub mod frame;
pub mod laws;
pub mod settings;
pub mod single;
pub mod spectrum;
pub mod stream;
pub mod text;
