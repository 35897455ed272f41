use vstd::prelude::*;

use crate::buffer::buf_as_slice;
use crate::buffer::buf_bytes;
use crate::buffer::buf_clear;
use crate::buffer::buf_new;
use crate::buffer::buf_push;
use crate::buffer::RCV_BUF_LEN;
use crate::errors::ExchangeError;
use crate::scan::contains_bytes;
use crate::scan::lemma_contains_trivial;
use crate::scan::match_at;
use crate::transport::Delay;
use crate::transport::ReadOutcome;
use crate::transport::Transport;

verus! {

/// Most stale bytes the best-effort drain discards before a command is
/// sent. Draining stops at the first "no data" or fault anyway; the cap
/// only keeps the loop bounded against a transport that always has a byte
/// pending.
pub const DRAIN_LIMIT: usize = 4096;

/// Fixed pause, in milliseconds, taken after the transport first reports
/// "no data" during a receive. This quiet period is the end-of-response
/// signal; the per-exchange timeout parameters are accepted for interface
/// compatibility but do not drive the wait.
pub const RESPONSE_SETTLE_MS: u32 = 100;

/// The expected-reply bytes `OK\r` that the fixed command sequences scan
/// for.
pub open spec fn ok_pattern() -> Seq<u8> {
    seq![79u8, 75u8, 13u8]
}

/// Driver for a SIM800 cellular modem on a byte-oriented serial link. It
/// owns the transport, a fixed-capacity receive buffer, and a delay
/// source; one owner at a time, no sharing.
pub struct Sim800Module<UART, DELAY> {
    uart: UART,
    rcv_buf: heapless::Vec<u8, RCV_BUF_LEN>,
    delay: DELAY,
}

impl<UART, DELAY> Sim800Module<UART, DELAY> where
    UART: Transport,
    DELAY: Delay,
{
    /// The bytes collected by the most recent exchange, oldest first.
    pub closed spec fn response_view(&self) -> Seq<u8> {
        buf_bytes(self.rcv_buf)
    }

    pub fn new(uart: UART, delay: DELAY) -> (r: Self)
        ensures
            r.response_view() == Seq::<u8>::empty(),
    {
        Sim800Module { uart, rcv_buf: buf_new(), delay }
    }

    /// The accumulated response of the last exchange, left for the caller
    /// to inspect.
    pub fn response(&self) -> (r: &[u8])
        ensures
            r@ == self.response_view(),
    {
        buf_as_slice(&self.rcv_buf)
    }

    /// One exchange: drain stale input, transmit `at_cmd`, then collect
    /// the reply into the receive buffer until the line goes quiet, the
    /// buffer is full, or the transport faults.
    ///
    /// The two timeout parameters are accepted for interface compatibility;
    /// the receive loop is edge-triggered on the transport's "no data"
    /// signal and pauses `RESPONSE_SETTLE_MS` once instead of enforcing
    /// them as deadlines.
    pub fn send_at_cmd_wait_resp(&mut self, at_cmd: &[u8], _toc: u16, _to: u16) -> (r: Result<
        (),
        ExchangeError,
    >)
        ensures
            final(self).response_view().len() <= RCV_BUF_LEN,
            r matches Ok(()) ==> final(self).response_view().len() > 0,
            r matches Err(e) ==> e != ExchangeError::CommandFailed,
            r matches Err(ExchangeError::NoDataReceived) ==> final(self).response_view().len()
                == 0,
            !(r matches Err(ExchangeError::SerialError)) ==> (r matches Ok(())
                <==> final(self).response_view().len() > 0),
    {
        // Best-effort drain of bytes already pending; a fault here ends the
        // drain but is not the exchange's outcome.
        let mut drained: usize = 0;
        loop
            invariant
                drained <= DRAIN_LIMIT,
            decreases DRAIN_LIMIT - drained,
        {
            if drained >= DRAIN_LIMIT {
                break;
            }
            match self.uart.read_byte() {
                ReadOutcome::Byte(_) => {
                    drained = drained + 1;
                },
                ReadOutcome::NoData => {
                    break;
                },
                ReadOutcome::Fault => {
                    break;
                },
            }
        }
        // Transmit every byte; the transport blocks until each is accepted.
        for i in 0..at_cmd.len() {
            self.uart.write_byte(at_cmd[i]);
        }
        buf_clear(&mut self.rcv_buf);
        loop
            invariant
                buf_bytes(self.rcv_buf).len() <= RCV_BUF_LEN,
            ensures
                buf_bytes(self.rcv_buf).len() <= RCV_BUF_LEN,
            decreases RCV_BUF_LEN - buf_bytes(self.rcv_buf).len(),
        {
            match self.uart.read_byte() {
                ReadOutcome::Fault => {
                    return Err(ExchangeError::SerialError);
                },
                ReadOutcome::NoData => {
                    self.delay.delay_ms(RESPONSE_SETTLE_MS);
                    break;
                },
                ReadOutcome::Byte(x) => {
                    if buf_as_slice(&self.rcv_buf).len() < RCV_BUF_LEN {
                        buf_push(&mut self.rcv_buf, x);
                    } else {
                        break;
                    }
                },
            }
        }
        if buf_as_slice(&self.rcv_buf).len() == 0 {
            return Err(ExchangeError::NoDataReceived);
        }
        Ok(())
    }

    /// Up to `tries` exchanges of `at_cmd`, succeeding as soon as one
    /// reply contains `ans`. Silence (`NoDataReceived`) is retried; a
    /// transport fault is propagated at once; exhausting every attempt
    /// without a match is `CommandFailed`, and then the reply left behind
    /// (that of the last attempt) cannot contain `ans` either.
    pub fn send_at_cmd_wait_resp_n(
        &mut self,
        at_cmd: &[u8],
        ans: &[u8],
        toc: u16,
        to: u16,
        tries: u8,
    ) -> (r: Result<(), ExchangeError>)
        ensures
            r matches Ok(()) ==> contains_bytes(final(self).response_view(), ans@)
                && final(self).response_view().len() <= RCV_BUF_LEN,
            r matches Err(e) ==> e == ExchangeError::SerialError || e
                == ExchangeError::CommandFailed,
            tries == 0 ==> (r matches Err(ExchangeError::CommandFailed))
                && final(self).response_view() == old(self).response_view(),
            tries > 0 ==> final(self).response_view().len() <= RCV_BUF_LEN,
            r matches Err(ExchangeError::CommandFailed) && tries > 0 && ans@.len() > 0
                ==> !contains_bytes(final(self).response_view(), ans@),
    {
        let mut attempt: u8 = 0;
        while attempt < tries
            invariant
                attempt <= tries,
                attempt == 0 ==> self.response_view() == old(self).response_view(),
                attempt > 0 ==> self.response_view().len() <= RCV_BUF_LEN,
                attempt > 0 && ans@.len() > 0 ==> !contains_bytes(self.response_view(), ans@),
            decreases tries - attempt,
        {
            attempt = attempt + 1;
            match self.send_at_cmd_wait_resp(at_cmd, toc, to) {
                Ok(()) => {},
                Err(ExchangeError::NoDataReceived) => {
                    // The attempt collected nothing, so no non-empty pattern
                    // can occur in what it left behind.
                    proof {
                        lemma_contains_trivial(self.response_view(), ans@);
                    }
                    continue;
                },
                Err(e) => {
                    return Err(e);
                },
            }
            if Self::buf_contains(self.response(), ans) {
                return Ok(());
            }
        }
        Err(ExchangeError::CommandFailed)
    }

    /// Reset to factory settings, switch off command echo, and fix the
    /// baud rate at 9600, each confirmed by an `OK\r` reply, stopping at
    /// the first step that fails.
    pub fn init_set_0(&mut self) -> (r: Result<(), ExchangeError>)
        ensures
            r matches Ok(()) ==> contains_bytes(final(self).response_view(), ok_pattern()),
            r matches Err(e) ==> e == ExchangeError::SerialError || e
                == ExchangeError::CommandFailed,
            r matches Err(ExchangeError::CommandFailed) ==> !contains_bytes(
                final(self).response_view(),
                ok_pattern(),
            ),
            final(self).response_view().len() <= RCV_BUF_LEN,
    {
        let ok_pat: [u8; 3] = [79, 75, 13];  // OK and carriage return
        proof {
            assert(ok_pat@ =~= ok_pattern());
        }
        let cmd_factory: [u8; 5] = [65, 84, 38, 70, 10];  // AT&F and newline
        match self.send_at_cmd_wait_resp_n(cmd_factory.as_slice(), ok_pat.as_slice(), 100, 10, 3) {
            Ok(()) => {},
            Err(e) => {
                return Err(e);
            },
        }
        let cmd_echo_off: [u8; 5] = [65, 84, 69, 48, 10];  // ATE0 and newline
        match self.send_at_cmd_wait_resp_n(cmd_echo_off.as_slice(), ok_pat.as_slice(), 50, 10, 3) {
            Ok(()) => {},
            Err(e) => {
                return Err(e);
            },
        }
        // AT+IPR=9600 and newline
        let cmd_baud: [u8; 12] = [65, 84, 43, 73, 80, 82, 61, 57, 54, 48, 48, 10];
        self.send_at_cmd_wait_resp_n(cmd_baud.as_slice(), ok_pat.as_slice(), 100, 10, 3)
    }

    /// Switch the modem's rejection of incoming calls on or off, confirmed
    /// by an `OK\r` reply.
    pub fn gsm_busy(&mut self, set_to: bool) -> (r: Result<(), ExchangeError>)
        ensures
            r matches Ok(()) ==> contains_bytes(final(self).response_view(), ok_pattern()),
            r matches Err(e) ==> e == ExchangeError::SerialError || e
                == ExchangeError::CommandFailed,
            r matches Err(ExchangeError::CommandFailed) ==> !contains_bytes(
                final(self).response_view(),
                ok_pattern(),
            ),
            final(self).response_view().len() <= RCV_BUF_LEN,
    {
        let ok_pat: [u8; 3] = [79, 75, 13];  // OK and carriage return
        proof {
            assert(ok_pat@ =~= ok_pattern());
        }
        // AT+GSMBUSY=1 and newline
        let cmd_on: [u8; 13] = [65, 84, 43, 71, 83, 77, 66, 85, 83, 89, 61, 49, 10];
        // AT+GSMBUSY=0 and newline
        let cmd_off: [u8; 13] = [65, 84, 43, 71, 83, 77, 66, 85, 83, 89, 61, 48, 10];
        let cmd: &[u8] = if set_to {
            cmd_on.as_slice()
        } else {
            cmd_off.as_slice()
        };
        self.send_at_cmd_wait_resp_n(cmd, ok_pat.as_slice(), 100, 10, 3)
    }

    /// Query the modem's identification, confirmed by an `OK\r` reply.
    pub fn sim800_test(&mut self) -> (r: Result<(), ExchangeError>)
        ensures
            r matches Ok(()) ==> contains_bytes(final(self).response_view(), ok_pattern()),
            r matches Err(e) ==> e == ExchangeError::SerialError || e
                == ExchangeError::CommandFailed,
            r matches Err(ExchangeError::CommandFailed) ==> !contains_bytes(
                final(self).response_view(),
                ok_pattern(),
            ),
            final(self).response_view().len() <= RCV_BUF_LEN,
    {
        let ok_pat: [u8; 3] = [79, 75, 13];  // OK and carriage return
        proof {
            assert(ok_pat@ =~= ok_pattern());
        }
        let cmd_ident: [u8; 4] = [65, 84, 73, 10];  // ATI and newline
        self.send_at_cmd_wait_resp_n(cmd_ident.as_slice(), ok_pat.as_slice(), 100, 10, 3)
    }

    /// `pattern` occurs in `buffer` as a contiguous run of bytes. A naive
    /// linear scan over every start offset where the pattern fits.
    pub fn buf_contains(buffer: &[u8], pattern: &[u8]) -> (r: bool)
        ensures
            r == contains_bytes(buffer@, pattern@),
    {
        let psize = pattern.len();
        let bsize = buffer.len();
        if psize == 0 {
            proof {
                assert(buffer@.subrange(0, 0) =~= pattern@);
                assert(match_at(buffer@, pattern@, 0));
            }
            return true;
        }
        if psize > bsize {
            proof {
                assert forall|j: int| !match_at(buffer@, pattern@, j) by {}
            }
            return false;
        }
        let n_starts = bsize - psize + 1;
        let mut i: usize = 0;
        while i < n_starts
            invariant
                psize == pattern@.len(),
                bsize == buffer@.len(),
                1 <= psize <= bsize,
                n_starts == bsize - psize + 1,
                i <= n_starts,
                forall|j: int| 0 <= j < i ==> !match_at(buffer@, pattern@, j),
            decreases n_starts - i,
        {
            if Self::match_at_index(buffer, pattern, i) {
                return true;
            }
            i = i + 1;
        }
        proof {
            assert forall|j: int| !match_at(buffer@, pattern@, j) by {
                if 0 <= j < n_starts {
                    assert(!match_at(buffer@, pattern@, j));
                }
            }
        }
        false
    }

    /// Byte-wise comparison of `pattern` against `buffer` at offset `i`.
    fn match_at_index(buffer: &[u8], pattern: &[u8], i: usize) -> (r: bool)
        requires
            i + pattern@.len() <= buffer@.len(),
        ensures
            r == match_at(buffer@, pattern@, i as int),
    {
        let psize = pattern.len();
        let bsize = buffer.len();
        let mut k: usize = 0;
        while k < psize
            invariant
                psize == pattern@.len(),
                bsize == buffer@.len(),
                i + psize <= bsize,
                k <= psize,
                forall|m: int| 0 <= m < k ==> buffer@[i + m] == pattern@[m],
            decreases psize - k,
        {
            if buffer[i + k] != pattern[k] {
                proof {
                    assert(buffer@.subrange(i as int, i + psize)[k as int] == buffer@[i + k]);
                }
                return false;
            }
            k = k + 1;
        }
        proof {
            let sub = buffer@.subrange(i as int, i + psize);
            assert forall|m: int| 0 <= m < psize implies sub[m] == pattern@[m] by {
                assert(sub[m] == buffer@[i + m]);
            }
            assert(sub =~= pattern@);
        }
        true
    }
}

} // verus!
