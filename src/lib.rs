//! A log-shipper endpoint: request handlers turn named severity fields into
//! timestamped lines, hand them to a single writer over a channel, and classify
//! the outcome of each request.

pub mod severity;
pub mod line;
pub mod request;
pub mod response;
pub mod writer;

pub use severity::Severity;
pub use line::{format_line, parse_line};
pub use request::{DataSender, IngestResult, ingest, field_value};
pub use response::{Outcome, Reply, classify, create_response, decimal_text};
pub use writer::{Writer, WriterState, WriterEvent, WriterAction, Report, Step, open_failure};
