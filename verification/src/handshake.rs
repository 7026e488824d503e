//! The reply of an HTTP proxy to a CONNECT request, read without a buffer:
//! a fixed status prefix, then header bytes up to the blank line.

use vstd::prelude::*;
use vstd::slice::slice_subrange;
use vstd::utf8::valid_utf8;
use vstd::string::*;
use crate::number::{decimal_text, decimal_u16, format_u16, parse_u16_range, NumberError};

verus! {

/// Length of the status prefix: a nine byte version token and three digits.
pub const STATUS_PREFIX_LEN: usize = 12;

/// Carriage return.
pub const CR: u8 = 13;

/// Line feed.
pub const LF: u8 = 10;

/// Where the reading of a proxy's reply stands.
#[derive(Clone, Copy, Debug, PartialEq, Eq, Structural)]
pub enum HandshakeState {
    /// Nothing was read yet.
    Started,
    /// The status was accepted; the last byte belongs to a header line.
    HeaderOk,
    /// A carriage return ended a header line.
    FirstCr,
    /// A header line is complete.
    FirstLf,
    /// A carriage return follows a complete line.
    SecondCr,
    /// The blank line was read: what follows is payload.
    Done,
}

/// Why a proxy's reply does not open the tunnel.
#[derive(Clone, Copy, Debug, PartialEq, Eq, Structural)]
pub enum HandshakeError {
    /// The status prefix is not valid UTF-8.
    InvalidHeaderEncoding,
    /// The three bytes of the status code are not a number.
    InvalidStatusFormat,
    /// The proxy answered with this status, which is not a success.
    UpstreamRejected(u16),
    /// A carriage return or line feed stands out of the order CR LF CR LF.
    MalformedLineTerminator,
}

impl HandshakeError {
    /// The words of each error; a rejected status is written in decimal.
    pub open spec fn message_text(self) -> Seq<char> {
        match self {
            HandshakeError::InvalidHeaderEncoding => "Invalid header - not UTF8"@,
            HandshakeError::InvalidStatusFormat => "Invalid status - not number"@,
            HandshakeError::UpstreamRejected(code) => "Invalid status - "@ + decimal_text(
                code as nat,
            ),
            HandshakeError::MalformedLineTerminator => "Invalid end of line"@,
        }
    }

    /// The error in words; a rejected status is named.
    pub fn message(&self) -> (text: String)
        ensures
            text@ == self.message_text(),
    {
        match self {
            HandshakeError::InvalidHeaderEncoding => String::from_str("Invalid header - not UTF8"),
            HandshakeError::InvalidStatusFormat => String::from_str("Invalid status - not number"),
            HandshakeError::UpstreamRejected(code) => {
                let mut text = String::from_str("Invalid status - ");
                let number = format_u16(*code);
                text.append(number.as_str());
                text
            },
            HandshakeError::MalformedLineTerminator => String::from_str("Invalid end of line"),
        }
    }
}

/// The three characters of the status code in a status prefix.
pub open spec fn status_text(prefix: Seq<u8>) -> Seq<char> {
    seq![prefix[9] as char, prefix[10] as char, prefix[11] as char]
}

/// True for the statuses that open the tunnel: 200 to 299.
pub open spec fn is_success(code: u16) -> bool {
    200 <= code < 300
}

/// What a status prefix of twelve bytes says: the success code, or why the
/// reply is refused. The prefix has to be valid UTF-8, and its bytes 9 to 11
/// have to be a number as `decimal_u16` reads one; nothing is asked of the
/// nine bytes before.
pub open spec fn accepted_status(prefix: Seq<u8>) -> Result<u16, HandshakeError> {
    if !valid_utf8(prefix) {
        Err(HandshakeError::InvalidHeaderEncoding)
    } else {
        match decimal_u16(status_text(prefix)) {
            Err(_) => Err(HandshakeError::InvalidStatusFormat),
            Ok(code) => if is_success(code) {
                Ok(code)
            } else {
                Err(HandshakeError::UpstreamRejected(code))
            },
        }
    }
}

/// The state after one header byte, for a state that scans header bytes.
pub open spec fn after_byte(state: HandshakeState, byte: u8) -> Result<
    HandshakeState,
    HandshakeError,
>
    recommends
        state.is_scanning(),
{
    match state {
        HandshakeState::HeaderOk => if byte == CR {
            Ok(HandshakeState::FirstCr)
        } else if byte == LF {
            Err(HandshakeError::MalformedLineTerminator)
        } else {
            Ok(HandshakeState::HeaderOk)
        },
        HandshakeState::FirstCr => if byte == LF {
            Ok(HandshakeState::FirstLf)
        } else {
            Err(HandshakeError::MalformedLineTerminator)
        },
        HandshakeState::FirstLf => if byte == CR {
            Ok(HandshakeState::SecondCr)
        } else if byte == LF {
            Err(HandshakeError::MalformedLineTerminator)
        } else {
            Ok(HandshakeState::HeaderOk)
        },
        HandshakeState::SecondCr => if byte == LF {
            Ok(HandshakeState::Done)
        } else {
            Err(HandshakeError::MalformedLineTerminator)
        },
        HandshakeState::Started | HandshakeState::Done => Ok(state),
    }
}

/// Tells whether the first twelve bytes are text.
///
/// Trusted: `std::str::from_utf8` succeeds exactly on well-formed UTF-8.
#[verifier::external_body]
fn is_text(bytes: &[u8]) -> (ok: bool)
    ensures
        ok == valid_utf8(bytes@),
{
    std::str::from_utf8(bytes).is_ok()
}

impl HandshakeState {
    /// The state in which a connection starts: a direct connection has no
    /// reply to read.
    pub fn initial(proxied: bool) -> (state: HandshakeState)
        ensures
            state == Self::initial_state(proxied),
    {
        if proxied {
            HandshakeState::Started
        } else {
            HandshakeState::Done
        }
    }

    /// `Started` on a proxied connection, `Done` on a direct one.
    pub open spec fn initial_state(proxied: bool) -> HandshakeState {
        if proxied {
            HandshakeState::Started
        } else {
            HandshakeState::Done
        }
    }

    /// True between the status prefix and the blank line.
    pub open spec fn is_scanning(self) -> bool {
        self != HandshakeState::Started && self != HandshakeState::Done
    }

    /// How many bytes the next step reads: the whole status prefix at first,
    /// then one byte at a time, and none once the blank line was seen.
    pub open spec fn pending_bytes(self) -> nat {
        match self {
            HandshakeState::Started => STATUS_PREFIX_LEN as nat,
            HandshakeState::Done => 0,
            _ => 1,
        }
    }

    /// The state after the bytes of one read.
    pub open spec fn after(self, bytes: Seq<u8>) -> Result<HandshakeState, HandshakeError> {
        match self {
            HandshakeState::Started => match accepted_status(bytes) {
                Ok(_) => Ok(HandshakeState::HeaderOk),
                Err(e) => Err(e),
            },
            HandshakeState::Done => Ok(HandshakeState::Done),
            _ => after_byte(self, bytes[0]),
        }
    }

    /// Tells how many bytes the next step reads.
    pub fn pending(&self) -> (n: usize)
        ensures
            n == self.pending_bytes(),
    {
        match self {
            HandshakeState::Started => STATUS_PREFIX_LEN,
            HandshakeState::Done => 0,
            _ => 1,
        }
    }

    /// Tells whether the blank line was read.
    pub fn is_done(&self) -> (done: bool)
        ensures
            done == (*self == HandshakeState::Done),
    {
        match self {
            HandshakeState::Done => true,
            _ => false,
        }
    }

    /// Takes the bytes of one read and gives the next state.
    pub fn feed(self, bytes: &[u8]) -> (r: Result<HandshakeState, HandshakeError>)
        requires
            bytes@.len() == self.pending_bytes(),
        ensures
            r == self.after(bytes@),
    {
        match self {
            HandshakeState::Started => match read_status(bytes) {
                Ok(_) => Ok(HandshakeState::HeaderOk),
                Err(e) => Err(e),
            },
            HandshakeState::Done => Ok(HandshakeState::Done),
            _ => step(self, bytes[0]),
        }
    }

    /// Carries the handshake as far as `input` reaches, one read after the
    /// other, and counts the bytes that the reads took.
    pub fn read_from(self, input: &[u8]) -> (r: Reading)
        ensures
            r.outcome == run(self, input@).0,
            r.consumed == run(self, input@).1,
    {
        let mut state = self;
        let mut pos: usize = 0;
        assert(input@.skip(0) =~= input@);
        loop
            invariant
                pos <= input@.len(),
                run(self, input@).0 == run(state, input@.skip(pos as int)).0,
                run(self, input@).1 == pos + run(state, input@.skip(pos as int)).1,
            decreases input@.len() - pos,
        {
            let need = state.pending();
            if need == 0 || input.len() - pos < need {
                return Reading { outcome: Ok(state), consumed: pos };
            }
            let chunk = slice_subrange(input, pos, pos + need);
            proof {
                let rest = input@.skip(pos as int);
                assert(rest.take(need as int) =~= chunk@);
                assert(rest.skip(need as int) =~= input@.skip(pos + need));
            }
            match state.feed(chunk) {
                Err(e) => {
                    return Reading { outcome: Err(e), consumed: pos + need };
                },
                Ok(next) => {
                    state = next;
                    pos = pos + need;
                },
            }
        }
    }
}

/// How far a reply carried the handshake.
#[derive(Clone, Copy, Debug, PartialEq, Eq)]
pub struct Reading {
    /// The state reached (`Done` once the blank line was read), or why the
    /// reply was refused.
    pub outcome: Result<HandshakeState, HandshakeError>,
    /// How many bytes were taken from the input.
    pub consumed: usize,
}

/// The handshake on a whole input: the state that it ends in or the error, and
/// the number of bytes taken. A read that the input cannot fill takes nothing.
pub open spec fn run(state: HandshakeState, input: Seq<u8>) -> (
    Result<HandshakeState, HandshakeError>,
    nat,
)
    decreases input.len(),
{
    let need = state.pending_bytes();
    if need == 0 || input.len() < need {
        (Ok(state), 0)
    } else {
        match state.after(input.take(need as int)) {
            Err(e) => (Err(e), need),
            Ok(next) => {
                let rest = run(next, input.skip(need as int));
                (rest.0, need + rest.1)
            },
        }
    }
}

/// Reads the status code out of a status prefix.
pub fn read_status(prefix: &[u8]) -> (r: Result<u16, HandshakeError>)
    requires
        prefix@.len() == STATUS_PREFIX_LEN,
    ensures
        r == accepted_status(prefix@),
{
    if !is_text(prefix) {
        return Err(HandshakeError::InvalidHeaderEncoding);
    }
    let mut digits: Vec<char> = Vec::new();
    digits.push(prefix[9] as char);
    digits.push(prefix[10] as char);
    digits.push(prefix[11] as char);
    assert(digits@.subrange(0, 3) =~= status_text(prefix@));
    match parse_u16_range(&digits, 0, 3) {
        Err(_) => Err(HandshakeError::InvalidStatusFormat),
        Ok(code) => if 200 <= code && code < 300 {
            Ok(code)
        } else {
            Err(HandshakeError::UpstreamRejected(code))
        },
    }
}

/// Takes one header byte.
pub fn step(state: HandshakeState, byte: u8) -> (r: Result<HandshakeState, HandshakeError>)
    requires
        state.is_scanning(),
    ensures
        r == after_byte(state, byte),
{
    match state {
        HandshakeState::HeaderOk => if byte == CR {
            Ok(HandshakeState::FirstCr)
        } else if byte == LF {
            Err(HandshakeError::MalformedLineTerminator)
        } else {
            Ok(HandshakeState::HeaderOk)
        },
        HandshakeState::FirstCr => if byte == LF {
            Ok(HandshakeState::FirstLf)
        } else {
            Err(HandshakeError::MalformedLineTerminator)
        },
        HandshakeState::FirstLf => if byte == CR {
            Ok(HandshakeState::SecondCr)
        } else if byte == LF {
            Err(HandshakeError::MalformedLineTerminator)
        } else {
            Ok(HandshakeState::HeaderOk)
        },
        HandshakeState::SecondCr => if byte == LF {
            Ok(HandshakeState::Done)
        } else {
            Err(HandshakeError::MalformedLineTerminator)
        },
        HandshakeState::Started => Ok(HandshakeState::Started),
        HandshakeState::Done => Ok(HandshakeState::Done),
    }
}

/// True when byte `i` of a header block breaks the order CR LF CR LF: a line
/// feed that no carriage return precedes, or a carriage return that no line
/// feed follows.
pub open spec fn out_of_order(block: Seq<u8>, i: int) -> bool {
    &&& 0 <= i < block.len()
    &&& if block[i] == LF {
        i == 0 || block[i - 1] != CR
    } else {
        i > 0 && block[i - 1] == CR
    }
}

/// True when the first `n` bytes of a header block end in the blank line.
pub open spec fn ends_headers(block: Seq<u8>, n: int) -> bool {
    &&& 4 <= n <= block.len()
    &&& block[n - 4] == CR
    &&& block[n - 3] == LF
    &&& block[n - 2] == CR
    &&& block[n - 1] == LF
}

/// True when no byte before `n` is out of order and no blank line ends before
/// `n`.
pub open spec fn in_order_before(block: Seq<u8>, n: int) -> bool {
    &&& forall|j: int| 0 <= j < n ==> !#[trigger] out_of_order(block, j)
    &&& forall|m: int| 0 <= m < n ==> !#[trigger] ends_headers(block, m)
}

/// The state after `k` bytes of a header block that is in order so far, told
/// from the bytes just read.
pub open spec fn state_after(block: Seq<u8>, k: int) -> HandshakeState {
    if k <= 0 {
        HandshakeState::HeaderOk
    } else if block[k - 1] == CR {
        if k >= 2 && block[k - 2] == LF {
            HandshakeState::SecondCr
        } else {
            HandshakeState::FirstCr
        }
    } else if block[k - 1] == LF {
        if ends_headers(block, k) {
            HandshakeState::Done
        } else {
            HandshakeState::FirstLf
        }
    } else {
        HandshakeState::HeaderOk
    }
}

/// Reading an in-order block from byte `k` on goes on as reading it from
/// byte `n` on, `n - k` bytes later.
proof fn lemma_scan_in_order(block: Seq<u8>, k: int, n: int)
    requires
        0 <= k <= n <= block.len(),
        in_order_before(block, n),
    ensures
        run(state_after(block, k), block.skip(k)).0 == run(
            state_after(block, n),
            block.skip(n),
        ).0,
        run(state_after(block, k), block.skip(k)).1 == (n - k) + run(
            state_after(block, n),
            block.skip(n),
        ).1,
    decreases n - k,
{
    if k < n {
        let state = state_after(block, k);
        let rest = block.skip(k);
        assert(!ends_headers(block, k));
        assert(!out_of_order(block, k));
        if k >= 2 {
            assert(!out_of_order(block, k - 2));
        }
        assert(state.is_scanning());
        assert(rest.take(1)[0] == block[k]);
        assert(after_byte(state, block[k]) == Ok::<HandshakeState, HandshakeError>(
            state_after(block, k + 1),
        ));
        assert(rest.skip(1) =~= block.skip(k + 1));
        lemma_scan_in_order(block, k + 1, n);
    }
}

/// After an accepted status prefix the reading goes on in the header block.
proof fn lemma_accepted_prefix(prefix: Seq<u8>, block: Seq<u8>)
    requires
        prefix.len() == STATUS_PREFIX_LEN,
        accepted_status(prefix) is Ok,
    ensures
        run(HandshakeState::Started, prefix + block).0 == run(HandshakeState::HeaderOk, block).0,
        run(HandshakeState::Started, prefix + block).1 == STATUS_PREFIX_LEN + run(
            HandshakeState::HeaderOk,
            block,
        ).1,
{
    let reply = prefix + block;
    assert(reply.take(STATUS_PREFIX_LEN as int) =~= prefix);
    assert(reply.skip(STATUS_PREFIX_LEN as int) =~= block);
}

/// A refused status prefix ends the handshake at once: the error is the one
/// that the prefix gives, and exactly the twelve bytes of the prefix are taken,
/// whatever follows them.
pub proof fn lemma_refused_prefix(prefix: Seq<u8>, rest: Seq<u8>)
    requires
        prefix.len() == STATUS_PREFIX_LEN,
        accepted_status(prefix) is Err,
    ensures
        run(HandshakeState::Started, prefix + rest) == (
            Err::<HandshakeState, HandshakeError>(accepted_status(prefix)->Err_0),
            STATUS_PREFIX_LEN as nat,
        ),
{
    let reply = prefix + rest;
    assert(reply.take(STATUS_PREFIX_LEN as int) =~= prefix);
}

/// A status outside 200 to 299 is reported as rejected, with that status, and
/// no byte after the status prefix is taken.
pub proof fn lemma_rejected_status(prefix: Seq<u8>, rest: Seq<u8>, code: u16)
    requires
        prefix.len() == STATUS_PREFIX_LEN,
        valid_utf8(prefix),
        decimal_u16(status_text(prefix)) == Ok::<u16, NumberError>(code),
        !is_success(code),
    ensures
        run(HandshakeState::Started, prefix + rest) == (
            Err::<HandshakeState, HandshakeError>(HandshakeError::UpstreamRejected(code)),
            STATUS_PREFIX_LEN as nat,
        ),
{
    lemma_refused_prefix(prefix, rest);
}

/// A status prefix that is not valid UTF-8 is reported as such before any
/// header byte is looked at.
pub proof fn lemma_invalid_encoding(prefix: Seq<u8>, rest: Seq<u8>)
    requires
        prefix.len() == STATUS_PREFIX_LEN,
        !valid_utf8(prefix),
    ensures
        run(HandshakeState::Started, prefix + rest) == (
            Err::<HandshakeState, HandshakeError>(HandshakeError::InvalidHeaderEncoding),
            STATUS_PREFIX_LEN as nat,
        ),
{
    lemma_refused_prefix(prefix, rest);
}

/// A success status followed at once by the blank line completes the
/// handshake, and the sixteen bytes taken end right after the blank line.
pub proof fn lemma_empty_header_block(prefix: Seq<u8>, rest: Seq<u8>)
    requires
        prefix.len() == STATUS_PREFIX_LEN,
        accepted_status(prefix) is Ok,
    ensures
        run(HandshakeState::Started, prefix + seq![CR, LF, CR, LF] + rest) == (
            Ok::<HandshakeState, HandshakeError>(HandshakeState::Done),
            16nat,
        ),
{
    let block = seq![CR, LF, CR, LF] + rest;
    assert(prefix + seq![CR, LF, CR, LF] + rest =~= prefix + block);
    assert(ends_headers(block, 4));
    lemma_completes_at_blank_line(prefix, block, 4);
}

/// A header block whose bytes are in order up to its first blank line
/// completes the handshake, and the bytes taken end right after that blank
/// line.
pub proof fn lemma_completes_at_blank_line(prefix: Seq<u8>, block: Seq<u8>, n: int)
    requires
        prefix.len() == STATUS_PREFIX_LEN,
        accepted_status(prefix) is Ok,
        ends_headers(block, n),
        in_order_before(block, n),
    ensures
        run(HandshakeState::Started, prefix + block) == (
            Ok::<HandshakeState, HandshakeError>(HandshakeState::Done),
            (STATUS_PREFIX_LEN + n) as nat,
        ),
{
    lemma_accepted_prefix(prefix, block);
    lemma_scan_in_order(block, 0, n);
    assert(block.skip(0) =~= block);
    assert(state_after(block, n) == HandshakeState::Done);
}

/// The first byte that stands out of the order CR LF CR LF, before any blank
/// line, ends the handshake with `MalformedLineTerminator`; it is the last
/// byte taken.
pub proof fn lemma_malformed_terminator(prefix: Seq<u8>, block: Seq<u8>, i: int)
    requires
        prefix.len() == STATUS_PREFIX_LEN,
        accepted_status(prefix) is Ok,
        out_of_order(block, i),
        in_order_before(block, i),
        !ends_headers(block, i),
    ensures
        run(HandshakeState::Started, prefix + block) == (
            Err::<HandshakeState, HandshakeError>(HandshakeError::MalformedLineTerminator),
            (STATUS_PREFIX_LEN + i + 1) as nat,
        ),
{
    lemma_accepted_prefix(prefix, block);
    lemma_scan_in_order(block, 0, i);
    assert(block.skip(0) =~= block);
    let state = state_after(block, i);
    let rest = block.skip(i);
    assert(state.is_scanning());
    assert(rest.take(1)[0] == block[i]);
    assert(after_byte(state, block[i]) == Err::<HandshakeState, HandshakeError>(
        HandshakeError::MalformedLineTerminator,
    ));
}

/// A header block that is in order and holds no blank line leaves the
/// handshake waiting for more: every byte is taken and the state is not
/// `Done`.
pub proof fn lemma_waits_for_blank_line(prefix: Seq<u8>, block: Seq<u8>)
    requires
        prefix.len() == STATUS_PREFIX_LEN,
        accepted_status(prefix) is Ok,
        in_order_before(block, block.len() as int),
        !ends_headers(block, block.len() as int),
    ensures
        run(HandshakeState::Started, prefix + block) == (
            Ok::<HandshakeState, HandshakeError>(state_after(block, block.len() as int)),
            (STATUS_PREFIX_LEN + block.len()) as nat,
        ),
        state_after(block, block.len() as int) != HandshakeState::Done,
{
    lemma_accepted_prefix(prefix, block);
    lemma_scan_in_order(block, 0, block.len() as int);
    assert(block.skip(0) =~= block);
    assert(block.skip(block.len() as int).len() == 0);
}

/// From byte `k` of an in-order block on, the reading can only complete at a
/// blank line, with every byte up to it in order.
proof fn lemma_scan_done(block: Seq<u8>, k: int)
    requires
        0 <= k <= block.len(),
        in_order_before(block, k),
        !ends_headers(block, k),
        run(state_after(block, k), block.skip(k)).0 == Ok::<HandshakeState, HandshakeError>(
            HandshakeState::Done,
        ),
    ensures
        ends_headers(block, k + run(state_after(block, k), block.skip(k)).1),
        in_order_before(block, k + run(state_after(block, k), block.skip(k)).1),
    decreases block.len() - k,
{
    let state = state_after(block, k);
    let rest = block.skip(k);
    assert(state.is_scanning());
    if rest.len() >= 1 {
        assert(rest.take(1)[0] == block[k]);
        assert(rest.skip(1) =~= block.skip(k + 1));
        if k >= 2 {
            assert(!out_of_order(block, k - 2));
        }
        let next = after_byte(state, block[k]);
        assert(next is Ok);
        assert(!out_of_order(block, k));
        assert(next == Ok::<HandshakeState, HandshakeError>(state_after(block, k + 1)));
        assert(in_order_before(block, k + 1));
        if state_after(block, k + 1) != HandshakeState::Done {
            lemma_scan_done(block, k + 1);
        }
    }
}

/// The handshake completes only at a blank line: when it is done, the bytes
/// taken are the status prefix and a header block that ends in CR LF CR LF,
/// holds no blank line before, and has every terminator byte in order.
pub proof fn lemma_done_only_at_blank_line(prefix: Seq<u8>, block: Seq<u8>)
    requires
        prefix.len() == STATUS_PREFIX_LEN,
        run(HandshakeState::Started, prefix + block).0 == Ok::<HandshakeState, HandshakeError>(
            HandshakeState::Done,
        ),
    ensures
        accepted_status(prefix) is Ok,
        ends_headers(block, run(HandshakeState::Started, prefix + block).1 - STATUS_PREFIX_LEN),
        in_order_before(
            block,
            run(HandshakeState::Started, prefix + block).1 - STATUS_PREFIX_LEN,
        ),
{
    let reply = prefix + block;
    assert(reply.take(STATUS_PREFIX_LEN as int) =~= prefix);
    assert(reply.skip(STATUS_PREFIX_LEN as int) =~= block);
    lemma_accepted_prefix(prefix, block);
    assert(block.skip(0) =~= block);
    lemma_scan_done(block, 0);
}

/// The reading does not depend on where the stream is cut: when an input was
/// taken whole without an error, going on with the bytes that follow gives
/// what reading both at once gives.
pub proof fn lemma_run_resumes(state: HandshakeState, first: Seq<u8>, second: Seq<u8>)
    requires
        run(state, first).0 is Ok,
        run(state, first).1 == first.len(),
    ensures
        run(state, first + second).0 == run(run(state, first).0->Ok_0, second).0,
        run(state, first + second).1 == first.len() + run(run(state, first).0->Ok_0, second).1,
    decreases first.len(),
{
    let need = state.pending_bytes();
    if need == 0 || first.len() < need {
        assert(first + second =~= second);
    } else {
        let both = first + second;
        assert(both.take(need as int) =~= first.take(need as int));
        assert(both.skip(need as int) =~= first.skip(need as int) + second);
        let next = state.after(first.take(need as int))->Ok_0;
        lemma_run_resumes(next, first.skip(need as int), second);
    }
}

} // verus!
