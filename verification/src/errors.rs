use vstd::prelude::*;

verus! {

/// How one command/response exchange (or a retried sequence of exchanges)
/// failed.
#[derive(Clone, Copy, Debug, PartialEq, Eq, Structural)]
pub enum ExchangeError {
    /// A hard transport fault was reported while receiving. Fatal for the
    /// whole operation: the retry wrapper never retries after it.
    SerialError,
    /// The modem stayed silent for a whole exchange: not a single byte
    /// arrived before the transport signalled "no data". Transient; the
    /// retry wrapper retries it.
    NoDataReceived,
    /// Replies arrived, but none of the attempts produced the expected
    /// pattern. Reported only once every attempt is exhausted.
    CommandFailed,
}

} // verus!
