//! Client side of the SeedLink protocol: decoding record headers, cutting a
//! byte stream into records, the command/response handshake, assembling the
//! catalog of streams, and listing its channels.
use vstd::prelude::*;

pub mod aggregate;
pub mod catalog;
pub mod error;
pub mod framer;
pub mod header;
pub mod session;
pub mod time;

pub use aggregate::Aggregator;
pub use catalog::{Seedlink, Station, Stream};
pub use error::SLError;
pub use framer::{split_record, Framer, Record, PAYLOAD_LEN, RECORD_LEN};
pub use header::{parse_header, CONTINUATION_INFO, HEADER_LEN, TERMINAL_INFO};
pub use session::{check_ack, Session, SessionState, StreamID};
pub use time::Timestamp;

verus! {

} // verus!
