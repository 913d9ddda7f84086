//! Real-time audio relay core: the wire framing of audio datagrams and the
//! decisions of the three pipeline stages (ingestion, mixing, dispatch).
//!
//! Sockets, tasks and waiting belong to the program around this crate; what is
//! decided about a datagram, a message or a failed send is decided here.

pub mod peer;
pub mod message;
pub mod schema;
pub mod codec;
pub mod stage;
pub mod channel;
pub mod ingest;
pub mod mixer;
pub mod dispatch;
pub mod pipeline;
pub mod schedule;
