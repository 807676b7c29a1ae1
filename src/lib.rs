//! Monitoring a transcoder's progress reports: the framing of its `key=value`
//! lines, the accumulation of lines into snapshots, the decisions of the read
//! loop, and the command line that starts the transcoder.
pub mod text;
pub mod protocol;
pub mod numbers;
pub mod progress;
pub mod session;
pub mod laws;
pub mod opt;
pub mod address;
