//! Everything that crosses the realtime boundary.
pub mod batch;
pub mod clock;
pub mod command;
pub mod decode;
pub mod decoder;
pub mod effects;
pub mod http_source;
pub mod io;
pub mod limiter;
pub mod mixer;
pub mod perf;
pub mod pitch_tempo;
pub mod ring;
pub mod samples;
pub mod schedule;
pub mod slots;
pub mod translator;
pub mod wsola;
