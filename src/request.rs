use vstd::prelude::*;
use crate::image::{is_complete, token_complete};
use crate::transfer::{copy_range, TransferState};

verus! {

/// Byte that opens a file request on the wire (`#`).
pub const REQUEST_START: u8 = 0x23;

/// Byte that closes a file request on the wire (`@`).
pub const REQUEST_END: u8 = 0x40;

/// The first position at or after `from` that holds `b`, or the length of `s`.
pub open spec fn find_from(s: Seq<u8>, b: u8, from: int) -> int
    decreases s.len() - from,
{
    if from < 0 || from >= s.len() {
        s.len() as int
    } else if s[from] == b {
        from
    } else {
        find_from(s, b, from + 1)
    }
}

/// The token and its openness after a chunk was fed to a token `token` that was
/// `open` (started by an earlier chunk and not yet closed) or not.
pub open spec fn fed(token: Seq<u8>, open: bool, chunk: Seq<u8>) -> (Seq<u8>, bool) {
    if open {
        let e = find_from(chunk, REQUEST_END, 0);
        (token + chunk.subrange(0, e), e == chunk.len())
    } else {
        let p = find_from(chunk, REQUEST_START, 0);
        if p == chunk.len() {
            (token, false)
        } else {
            let e = find_from(chunk, REQUEST_END, p + 1);
            (chunk.subrange(p + 1, e), e == chunk.len())
        }
    }
}

/// Reassembles a file request token from chunks read off the wire.
pub struct RequestAccumulator {
    /// The bytes of the token received so far.
    pub token: Vec<u8>,
    /// Whether the token was opened and no end marker has closed it yet.
    pub open: bool,
}

/// The first position at or after `from` that holds `b`, or the length of `s`.
pub fn find_byte(s: &[u8], b: u8, from: usize) -> (r: usize)
    requires
        from <= s@.len(),
    ensures
        r == find_from(s@, b, from as int),
        from <= r <= s@.len(),
{
    let mut i: usize = from;
    while i < s.len() && s[i] != b
        invariant
            from <= i <= s@.len(),
            find_from(s@, b, from as int) == find_from(s@, b, i as int),
        decreases s.len() - i,
    {
        i = i + 1;
    }
    i
}

impl RequestAccumulator {
    /// An accumulator with no token.
    pub fn new() -> (r: RequestAccumulator)
        ensures
            r.token@ == Seq::<u8>::empty(),
            !r.open,
    {
        RequestAccumulator { token: Vec::new(), open: false }
    }

    /// Drops the token.
    pub fn clear(&mut self)
        ensures
            final(self).token@ == Seq::<u8>::empty(),
            !final(self).open,
    {
        self.token = Vec::new();
        self.open = false;
    }

    /// Whether the token is a complete request: it ends with `;1`.
    pub fn is_complete(&self) -> (r: bool)
        ensures
            r == is_complete(self.token@),
    {
        token_complete(self.token.as_slice())
    }

    /// Feeds one chunk read off the wire, and says whether the token is now a
    /// complete request (`SendFile`) or more is needed (`WaitFileRequest`).
    pub fn get_file_name(&mut self, buffer: &[u8]) -> (r: TransferState)
        ensures
            (final(self).token@, final(self).open) == fed(old(self).token@, old(self).open, buffer@),
            r == (if is_complete(final(self).token@) {
                TransferState::SendFile
            } else {
                TransferState::WaitFileRequest
            }),
    {
        if self.open {
            let e = find_byte(buffer, REQUEST_END, 0);
            let mut i: usize = 0;
            while i < e
                invariant
                    e <= buffer@.len(),
                    i <= e,
                    self.token@ == old(self).token@ + buffer@.subrange(0, i as int),
                decreases e - i,
            {
                self.token.push(buffer[i]);
                i = i + 1;
            }
            self.open = e == buffer.len();
        } else {
            let p = find_byte(buffer, REQUEST_START, 0);
            if p < buffer.len() {
                let e = find_byte(buffer, REQUEST_END, p + 1);
                self.token = copy_range(buffer, p + 1, e);
                self.open = e == buffer.len();
            }
        }
        if self.is_complete() {
            TransferState::SendFile
        } else {
            TransferState::WaitFileRequest
        }
    }
}

/// Handles what a wait for a file request read: nothing keeps the engine waiting,
/// bytes are fed to the accumulator.
pub fn wait_file_request(requested_file: &mut RequestAccumulator, received: &[u8]) -> (r:
    TransferState)
    ensures
        received@.len() == 0 ==> *final(requested_file) == *old(requested_file) && r
            == TransferState::WaitFileRequest,
        received@.len() > 0 ==> (final(requested_file).token@, final(requested_file).open) == fed(
            old(requested_file).token@,
            old(requested_file).open,
            received@,
        ) && r == (if is_complete(final(requested_file).token@) {
            TransferState::SendFile
        } else {
            TransferState::WaitFileRequest
        }),
{
    if received.len() == 0 {
        TransferState::WaitFileRequest
    } else {
        requested_file.get_file_name(received)
    }
}

} // verus!
