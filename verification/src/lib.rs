//! Driver core for a serial-attached SIM800 cellular modem.
//!
//! The driver writes an AT command over a byte-oriented transport, collects
//! the modem's reply into a fixed-capacity receive buffer, and decides
//! success or failure by scanning the reply for an expected byte pattern,
//! optionally retrying the whole exchange a bounded number of times.

mod buffer;
mod driver;
mod errors;
mod scan;
mod transport;

pub use buffer::RCV_BUF_LEN;
pub use driver::ok_pattern;
pub use driver::Sim800Module;
pub use driver::DRAIN_LIMIT;
pub use driver::RESPONSE_SETTLE_MS;
pub use errors::ExchangeError;
pub use scan::contains_bytes;
pub use scan::lemma_contains_trivial;
pub use scan::match_at;
pub use transport::Delay;
pub use transport::ReadOutcome;
pub use transport::Transport;
