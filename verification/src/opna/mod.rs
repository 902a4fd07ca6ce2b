pub mod tables;
pub mod lfo;
pub mod envelope;
pub mod registers;
pub mod operator;
pub mod channel;
pub mod fm;
pub mod ssg;
pub mod replay;
pub mod trace;
pub mod adpcm;
pub mod rhythm;
pub mod schedule;
pub mod resampler;
pub mod chip;
pub mod renderer;
pub mod pcm;

pub use renderer::ChipRenderer;
pub use replay::RegisterReplay;
pub use trace::{compare_register_traces, parse_trace_csv, RegisterWrite, TraceError, TraceMismatch};
