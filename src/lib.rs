//! A Modbus TCP session engine: the PDU codec, the MBAP framer, the request
//! reply slot, the client session state machine and the server dispatcher.
//! Every item here is plain computation; the transport, the timers and the
//! request queue are driven by the embedder.

pub mod client;
pub mod error;
pub mod frame;
pub mod pdu;
pub mod request;
pub mod response;
pub mod server;
pub mod types;

