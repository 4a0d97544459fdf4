//! Streaming power-spectrum accumulation: the header codec, the raw block
//! codec and the decisions of the pipeline stages.

pub mod daq;
pub mod display;
pub mod sigproc_io;
pub mod utils;
