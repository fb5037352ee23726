//! Length-prefixed frames: four bytes of big-endian payload length, then the
//! payload.

use crate::rpc::RpcError;
use crate::text;
use vstd::prelude::*;
use vstd::string::*;

verus! {

/// One more than the largest length that a prefix can hold.
pub const LEN_RANGE: u64 = 0x1_0000_0000;

/// The four bytes of `n` in big-endian order.
pub open spec fn be32(n: nat) -> Seq<u8>
    recommends
        n < LEN_RANGE,
{
    seq![
        (n / 0x100_0000) as u8,
        (n / 0x1_0000 % 0x100) as u8,
        (n / 0x100 % 0x100) as u8,
        (n % 0x100) as u8,
    ]
}

/// The number that four big-endian bytes stand for.
pub open spec fn be32_value(bytes: Seq<u8>) -> nat
    recommends
        bytes.len() == 4,
{
    (bytes[0] as nat) * 0x100_0000 + (bytes[1] as nat) * 0x1_0000 + (bytes[2] as nat) * 0x100 + (
    bytes[3] as nat)
}

/// The frame that carries `payload`.
pub open spec fn frame(payload: Seq<u8>) -> Seq<u8>
    recommends
        payload.len() < LEN_RANGE,
{
    be32(payload.len()) + payload
}

/// The message for a frame whose length no prefix can hold.
pub open spec fn too_large_message() -> Seq<char> {
    "frame too large"@
}

/// The message for a frame of a length over the limit.
pub open spec fn over_limit_message(len: nat) -> Seq<char> {
    "frame too large: "@ + text::decimal_digits(len)
}

/// What a sequence of received bytes starts with.
pub enum Parsed {
    /// So many more bytes are needed before anything can be said.
    Short { missing: nat },
    /// A prefix that announces a payload over the limit.
    TooLarge { len: nat },
    /// A whole frame.
    Complete { payload: Seq<u8> },
}

/// Reads the start of `bytes` as a frame of at most `max` payload bytes.
pub open spec fn parse_frame(bytes: Seq<u8>, max: nat) -> Parsed {
    if bytes.len() < 4 {
        Parsed::Short { missing: (4 - bytes.len()) as nat }
    } else {
        let len = be32_value(bytes.take(4));
        if len > max {
            Parsed::TooLarge { len }
        } else if bytes.len() < 4 + len {
            Parsed::Short { missing: (4 + len - bytes.len()) as nat }
        } else {
            Parsed::Complete { payload: bytes.subrange(4, 4 + len as int) }
        }
    }
}

/// The error for a payload of `len` bytes over the limit.
fn over_limit_error(len: u32) -> (res: RpcError)
    ensures
        res matches RpcError::BadRequest(message) && message@ == over_limit_message(len as nat),
{
    let mut message = "frame too large: ".to_owned();
    let digits = text::decimal(len);
    message.append(digits.as_str());
    RpcError::BadRequest(message)
}

/// The prefix for a payload of `len` bytes, followed by the payload.
fn prefixed(len: u32, payload: &[u8]) -> (res: Vec<u8>)
    ensures
        res@ == be32(len as nat) + payload@,
{
    let mut out: Vec<u8> = Vec::new();
    out.push((len / 0x100_0000) as u8);
    out.push((len / 0x1_0000 % 0x100) as u8);
    out.push((len / 0x100 % 0x100) as u8);
    out.push((len % 0x100) as u8);
    assert(out@ == be32(len as nat));
    out.extend_from_slice(payload);
    out
}

/// The payload of the chunk for one encoded item, if it has one: an item that
/// could not be encoded has none, nor has one whose length no prefix can hold.
pub open spec fn carried(encoded: Option<Seq<u8>>) -> Option<Seq<u8>> {
    match encoded {
        Some(payload) => if payload.len() < LEN_RANGE {
            Some(payload)
        } else {
            None
        },
        None => None,
    }
}

/// The chunk of a response stream that carries one encoded item. An item that
/// could not be encoded, or whose length no prefix can hold, gives none.
pub fn stream_chunk(encoded: Option<Vec<u8>>) -> (res: Option<Vec<u8>>)
    ensures
        match carried(
            match encoded {
                Some(payload) => Some(payload@),
                None => None,
            },
        ) {
            Some(payload) => res matches Some(chunk) && chunk@ == frame(payload),
            None => res is None,
        },
        encoded is None ==> res is None,
        encoded matches Some(payload) ==> if payload@.len() < 0x1_0000_0000 {
            res matches Some(chunk) && chunk@ == frame(payload@)
        } else {
            res is None
        },
{
    match encoded {
        Some(payload) => match u32::try_from(payload.len()) {
            Ok(len) => Some(prefixed(len, payload.as_slice())),
            Err(_) => None,
        },
        None => None,
    }
}

/// The frame that carries an encoded error at the end of a response stream.
/// A failed encoding is handed on.
pub fn encode_error_frame(encoded: Result<Vec<u8>, RpcError>) -> (res: Result<Vec<u8>, RpcError>)
    ensures
        match encoded {
            Ok(payload) => if payload@.len() < LEN_RANGE {
                res matches Ok(out) && out@ == frame(payload@)
            } else {
                res matches Err(RpcError::BadRequest(message)) && message@ == too_large_message()
            },
            Err(e) => res == Err::<Vec<u8>, RpcError>(e),
        },
{
    match encoded {
        Ok(payload) => match u32::try_from(payload.len()) {
            Ok(len) => Ok(prefixed(len, payload.as_slice())),
            Err(_) => Err(RpcError::BadRequest("frame too large".to_owned())),
        },
        Err(e) => Err(e),
    }
}

/// The bytes to send for `bytes` as one frame of at most `max` payload bytes.
pub fn write_raw_frame(bytes: &[u8], max: u32) -> (res: Result<Vec<u8>, RpcError>)
    ensures
        if bytes@.len() >= LEN_RANGE {
            res matches Err(RpcError::BadRequest(message)) && message@ == too_large_message()
        } else if bytes@.len() > max {
            res matches Err(RpcError::BadRequest(message)) && message@ == over_limit_message(
                bytes@.len(),
            )
        } else {
            res matches Ok(out) && out@ == frame(bytes@)
        },
{
    match u32::try_from(bytes.len()) {
        Ok(len) => if len > max {
            Err(over_limit_error(len))
        } else {
            Ok(prefixed(len, bytes))
        },
        Err(_) => Err(RpcError::BadRequest("frame too large".to_owned())),
    }
}

/// The chunk that passes a received payload on. The prefix holds the low 32
/// bits of the length, which is all of it for a payload read from a frame.
pub fn relay_chunk(payload: &[u8]) -> (res: Vec<u8>)
    ensures
        res@ == be32((payload@.len() % (LEN_RANGE as nat)) as nat) + payload@,
        payload@.len() < LEN_RANGE ==> res@ == frame(payload@),
{
    let len: usize = payload.len();
    #[verifier::truncate]
    let low: u32 = len as u32;
    assert(low as u64 == len as u64 % 0x1_0000_0000u64) by (bit_vector)
        requires
            low == len as u32,
    ;
    prefixed(low, payload)
}

/// What to do next to get a frame.
#[derive(Debug, PartialEq, Eq)]
pub enum ReadStep {
    /// Receive exactly so many more bytes.
    Need(usize),
    /// Here is the payload of the next frame.
    Frame(Vec<u8>),
    /// The frame is not acceptable.
    Fail(RpcError),
}

/// Why no more bytes could be received.
#[derive(Debug, PartialEq, Eq)]
pub enum ReadFailure {
    /// The sender closed the connection.
    EndOfInput(RpcError),
    /// The transport failed in another way.
    Broken(RpcError),
}

/// Takes frames out of bytes as they arrive.
#[derive(Debug, PartialEq, Eq)]
pub struct FrameReader {
    buffer: Vec<u8>,
    max: u32,
}

impl FrameReader {
    /// The bytes received and not yet handed out.
    pub closed spec fn pending(&self) -> Seq<u8> {
        self.buffer@
    }

    /// The largest acceptable payload length.
    pub closed spec fn limit(&self) -> nat {
        self.max as nat
    }

    /// A reader for frames of at most `max` payload bytes.
    pub fn new(max: u32) -> (res: Self)
        ensures
            res.pending() == Seq::<u8>::empty(),
            res.limit() == max,
    {
        FrameReader { buffer: Vec::new(), max }
    }

    /// The largest acceptable payload length.
    pub fn max_payload(&self) -> (res: u32)
        ensures
            res == self.limit(),
    {
        self.max
    }

    /// Takes in received bytes.
    pub fn feed(&mut self, bytes: &[u8])
        ensures
            final(self).pending() == old(self).pending() + bytes@,
            final(self).limit() == old(self).limit(),
    {
        self.buffer.extend_from_slice(bytes);
        assert(self.buffer@ =~= old(self).buffer@ + bytes@);
    }

    /// Hands out the next frame, or says what is missing or wrong. A prefix that
    /// announces a payload over the limit is used up.
    pub fn read_raw_frame(&mut self) -> (res: ReadStep)
        ensures
            final(self).limit() == old(self).limit(),
            match parse_frame(old(self).pending(), old(self).limit()) {
                Parsed::Short { missing } => {
                    &&& res matches ReadStep::Need(n) && n == missing
                    &&& final(self).pending() == old(self).pending()
                },
                Parsed::TooLarge { len } => {
                    &&& res matches ReadStep::Fail(RpcError::BadRequest(message)) && message@
                        == over_limit_message(len)
                    &&& final(self).pending() == old(self).pending().skip(4)
                },
                Parsed::Complete { payload } => {
                    &&& res matches ReadStep::Frame(out) && out@ == payload
                    &&& final(self).pending() == old(self).pending().skip(4 + payload.len() as int)
                },
            },
    {
        let have: usize = self.buffer.len();
        if have < 4 {
            return ReadStep::Need(4 - have);
        }
        let len: u32 = self.buffer[0] as u32 * 0x100_0000 + self.buffer[1] as u32 * 0x1_0000
            + self.buffer[2] as u32 * 0x100 + self.buffer[3] as u32;
        assert(len == be32_value(self.buffer@.take(4)));
        if len > self.max {
            let remaining = self.buffer.split_off(4);
            self.buffer = remaining;
            assert(self.buffer@ =~= old(self).pending().skip(4));
            return ReadStep::Fail(over_limit_error(len));
        }
        let rest: usize = have - 4;
        let wanted: usize = len as usize;
        if rest < wanted {
            return ReadStep::Need(wanted - rest);
        }
        let mut payload = self.buffer.split_off(4);
        let remaining = payload.split_off(wanted);
        self.buffer = remaining;
        assert(payload@ =~= old(self).pending().subrange(4, 4 + len as int));
        assert(self.buffer@ =~= old(self).pending().skip(4 + len as int));
        ReadStep::Frame(payload)
    }

    /// Decides what a failure to receive means. It is a clean end, `Ok`, where
    /// the input may end and does so before the prefix of the next frame is
    /// complete; otherwise it is the error.
    pub fn read_failed(&self, end_allowed: bool, failure: ReadFailure) -> (res: Result<
        (),
        RpcError,
    >)
        ensures
            match failure {
                ReadFailure::EndOfInput(e) => if end_allowed && self.pending().len() < 4 {
                    res is Ok
                } else {
                    res == Err::<(), RpcError>(e)
                },
                ReadFailure::Broken(e) => res == Err::<(), RpcError>(e),
            },
    {
        match failure {
            ReadFailure::EndOfInput(e) => if end_allowed && self.buffer.len() < 4 {
                Ok(())
            } else {
                Err(e)
            },
            ReadFailure::Broken(e) => Err(e),
        }
    }
}

/// The four bytes of a length stand for that length.
proof fn lemma_be32_value(n: nat)
    requires
        n < LEN_RANGE,
    ensures
        be32(n).len() == 4,
        be32_value(be32(n)) == n,
{
}

/// Four bytes are the bytes of the number they stand for.
proof fn lemma_be32_bytes(bytes: Seq<u8>)
    requires
        bytes.len() == 4,
    ensures
        be32_value(bytes) < LEN_RANGE,
        be32(be32_value(bytes)) == bytes,
{
    let (a, b, c, d) = (bytes[0] as nat, bytes[1] as nat, bytes[2] as nat, bytes[3] as nat);
    let n = be32_value(bytes);
    assert(n / 0x100 == a * 0x1_0000 + b * 0x100 + c && n % 0x100 == d);
    assert(n / 0x1_0000 == a * 0x100 + b);
    assert(n / 0x100_0000 == a);
    assert(be32(n) =~= bytes);
}

/// What is written is read back: bytes that start with the frame of a payload
/// within the limit give that payload, whatever follows.
pub proof fn written_frame_is_read_back(payload: Seq<u8>, rest: Seq<u8>, max: nat)
    requires
        payload.len() <= max < LEN_RANGE,
    ensures
        parse_frame(frame(payload) + rest, max) == (Parsed::Complete { payload }),
        (frame(payload) + rest).skip(4 + payload.len() as int) == rest,
{
    let bytes = frame(payload) + rest;
    lemma_be32_value(payload.len());
    assert(bytes.take(4) =~= be32(payload.len()));
    assert(bytes.subrange(4, 4 + payload.len() as int) =~= payload);
    assert(bytes.skip(4 + payload.len() as int) =~= rest);
}

/// A payload that is read was written as its frame: the bytes taken in are
/// exactly the frame of the payload handed out.
pub proof fn read_frame_was_written(bytes: Seq<u8>, max: nat)
    ensures
        parse_frame(bytes, max) matches Parsed::Complete { payload } ==> {
            &&& payload.len() <= max
            &&& payload.len() < LEN_RANGE
            &&& bytes == frame(payload) + bytes.skip(4 + payload.len() as int)
        },
{
    if let Parsed::Complete { payload } = parse_frame(bytes, max) {
        lemma_be32_bytes(bytes.take(4));
        assert(bytes =~= frame(payload) + bytes.skip(4 + payload.len() as int));
    }
}

/// How the bytes are cut into pieces on the way does not matter: once a frame
/// or an unacceptable prefix has been seen, more bytes do not change it.
pub proof fn later_bytes_do_not_matter(bytes: Seq<u8>, more: Seq<u8>, max: nat)
    ensures
        parse_frame(bytes, max) is Short || parse_frame(bytes + more, max) == parse_frame(
            bytes,
            max,
        ),
{
    if bytes.len() >= 4 {
        assert((bytes + more).take(4) =~= bytes.take(4));
        let len = be32_value(bytes.take(4));
        if bytes.len() >= 4 + len {
            assert((bytes + more).subrange(4, 4 + len as int) =~= bytes.subrange(4, 4 + len as int));
        }
    }
}

/// Receiving exactly what a reader asks for completes the prefix or the frame:
/// it never has to ask twice for the same part.
pub proof fn requested_bytes_suffice(bytes: Seq<u8>, more: Seq<u8>, max: nat)
    requires
        parse_frame(bytes, max) matches Parsed::Short { missing } && more.len() == missing,
    ensures
        bytes.len() >= 4 ==> parse_frame(bytes + more, max) is Complete,
        bytes.len() < 4 ==> (bytes + more).len() == 4,
{
    if bytes.len() >= 4 {
        assert((bytes + more).take(4) =~= bytes.take(4));
    }
}

/// The stream that carries `payloads`, one frame each.
pub open spec fn frames(payloads: Seq<Seq<u8>>) -> Seq<u8>
    decreases payloads.len(),
{
    if payloads.len() == 0 {
        Seq::empty()
    } else {
        frame(payloads[0]) + frames(payloads.drop_first())
    }
}

/// How a stream of frames ends.
pub enum StreamEnd {
    /// Where a frame would start.
    Clean,
    /// Inside a frame.
    Truncated,
    /// With a frame over the limit.
    TooLarge { len: nat },
}

/// The payloads that a reader takes out of `bytes`, all that is ever received,
/// and how the stream ends.
pub open spec fn read_stream(bytes: Seq<u8>, max: nat) -> (Seq<Seq<u8>>, StreamEnd)
    decreases bytes.len(),
{
    match parse_frame(bytes, max) {
        Parsed::Short { missing } => if bytes.len() < 4 {
            (Seq::empty(), StreamEnd::Clean)
        } else {
            (Seq::empty(), StreamEnd::Truncated)
        },
        Parsed::TooLarge { len } => (Seq::empty(), StreamEnd::TooLarge { len }),
        Parsed::Complete { payload } => {
            let (payloads, end) = read_stream(bytes.skip(4 + payload.len() as int), max);
            (seq![payload] + payloads, end)
        },
    }
}

/// A stream that starts with a whole frame gives its payload, and then what the
/// rest of the stream gives.
proof fn lemma_stream_after_a_frame(bytes: Seq<u8>, payload: Seq<u8>, max: nat)
    requires
        parse_frame(bytes, max) == (Parsed::Complete { payload }),
    ensures
        ({
            let (payloads, end) = read_stream(bytes.skip(4 + payload.len() as int), max);
            read_stream(bytes, max) == (seq![payload] + payloads, end)
        }),
{
}

proof fn lemma_append_three(a: Seq<u8>, b: Seq<u8>, c: Seq<u8>)
    ensures
        a + (b + c) == (a + b) + c,
{
    assert(a + (b + c) =~= (a + b) + c);
}

/// A stream of frames within the limit is read back payload by payload, and
/// ends cleanly.
pub proof fn written_stream_is_read_back(payloads: Seq<Seq<u8>>, max: nat)
    requires
        max < LEN_RANGE,
        forall|i: int| 0 <= i < payloads.len() ==> (#[trigger] payloads[i]).len() <= max,
    ensures
        read_stream(frames(payloads), max) == (payloads, StreamEnd::Clean),
    decreases payloads.len(),
{
    if payloads.len() == 0 {
        assert(payloads =~= Seq::empty());
    } else {
        let rest = payloads.drop_first();
        assert(payloads[0].len() <= max);
        assert forall|i: int| 0 <= i < rest.len() implies (#[trigger] rest[i]).len() <= max by {
            assert(rest[i] == payloads[i + 1]);
        }
        let bytes = frame(payloads[0]) + frames(rest);
        written_frame_is_read_back(payloads[0], frames(rest), max);
        written_stream_is_read_back(rest, max);
        lemma_stream_after_a_frame(bytes, payloads[0], max);
        assert(seq![payloads[0]] + rest =~= payloads);
    }
}

/// Relaying is transparent: the frames of the payloads read from a stream are
/// the stream itself, up to an end that holds no whole frame. After a clean end
/// fewer than four bytes are left over.
pub proof fn relayed_stream_is_unchanged(bytes: Seq<u8>, max: nat) -> (rest: Seq<u8>)
    ensures
        bytes == frames(read_stream(bytes, max).0) + rest,
        !(parse_frame(rest, max) is Complete),
        read_stream(bytes, max).1 is Clean <==> rest.len() < 4,
    decreases bytes.len(),
{
    match parse_frame(bytes, max) {
        Parsed::Complete { payload } => {
            read_frame_was_written(bytes, max);
            let tail = bytes.skip(4 + payload.len() as int);
            let rest = relayed_stream_is_unchanged(tail, max);
            lemma_stream_after_a_frame(bytes, payload, max);
            let payloads = read_stream(bytes, max).0;
            let later = read_stream(tail, max).0;
            assert(payloads.drop_first() =~= later);
            lemma_append_three(frame(payload), frames(later), rest);
            rest
        },
        _ => {
            assert(bytes =~= Seq::<u8>::empty() + bytes);
            bytes
        },
    }
}

/// The body of a response stream for these encoded items: the chunks of those
/// that have one.
pub open spec fn stream_body(items: Seq<Option<Seq<u8>>>) -> Seq<u8>
    decreases items.len(),
{
    if items.len() == 0 {
        Seq::empty()
    } else {
        let rest = stream_body(items.drop_first());
        match carried(items[0]) {
            Some(payload) => frame(payload) + rest,
            None => rest,
        }
    }
}

/// The payloads that the chunks for these encoded items carry.
pub open spec fn carried_payloads(items: Seq<Option<Seq<u8>>>) -> Seq<Seq<u8>>
    decreases items.len(),
{
    if items.len() == 0 {
        Seq::empty()
    } else {
        let rest = carried_payloads(items.drop_first());
        match carried(items[0]) {
            Some(payload) => seq![payload] + rest,
            None => rest,
        }
    }
}

proof fn lemma_stream_body_is_frames(items: Seq<Option<Seq<u8>>>)
    ensures
        stream_body(items) == frames(carried_payloads(items)),
    decreases items.len(),
{
    if items.len() > 0 {
        lemma_stream_body_is_frames(items.drop_first());
        if let Some(payload) = carried(items[0]) {
            let payloads = carried_payloads(items);
            assert(payloads.drop_first() =~= carried_payloads(items.drop_first()));
        }
    }
}

proof fn lemma_carried_within(items: Seq<Option<Seq<u8>>>, max: nat)
    requires
        forall|i: int|
            0 <= i < items.len() ==> ((#[trigger] items[i]) matches Some(payload) ==> payload.len()
                <= max),
    ensures
        forall|i: int|
            0 <= i < carried_payloads(items).len() ==> (#[trigger] carried_payloads(items)[i]).len()
                <= max,
    decreases items.len(),
{
    if items.len() > 0 {
        let rest = items.drop_first();
        assert forall|i: int| 0 <= i < rest.len() implies ((#[trigger] rest[i]) matches Some(
            payload,
        ) ==> payload.len() <= max) by {
            assert(rest[i] == items[i + 1]);
        }
        lemma_carried_within(rest, max);
        let payloads = carried_payloads(items);
        let later = carried_payloads(rest);
        assert forall|i: int| 0 <= i < payloads.len() implies (#[trigger] payloads[i]).len()
            <= max by {
            if let Some(payload) = carried(items[0]) {
                if i > 0 {
                    assert(payloads[i] == later[i - 1]);
                }
            } else {
                assert(payloads[i] == later[i]);
            }
        }
    }
}

/// A client reads back from a response stream the encoded items, in order and
/// without those that could not be encoded, and then a clean end.
pub proof fn response_stream_is_read_back(items: Seq<Option<Seq<u8>>>, max: nat)
    requires
        max < LEN_RANGE,
        forall|i: int|
            0 <= i < items.len() ==> ((#[trigger] items[i]) matches Some(payload) ==> payload.len()
                <= max),
    ensures
        read_stream(stream_body(items), max) == (carried_payloads(items), StreamEnd::Clean),
{
    lemma_stream_body_is_frames(items);
    lemma_carried_within(items, max);
    written_stream_is_read_back(carried_payloads(items), max);
}

proof fn lemma_powers_of_256()
    ensures
        vstd::arithmetic::power::pow(256, 0) == 1,
        vstd::arithmetic::power::pow(256, 1) == 0x100,
        vstd::arithmetic::power::pow(256, 2) == 0x1_0000,
        vstd::arithmetic::power::pow(256, 3) == 0x100_0000,
{
    reveal_with_fuel(vstd::arithmetic::power::pow, 5);
}

/// The bytes of a length are its digits to the base 256, the highest first.
pub proof fn length_bytes_are_big_endian(n: nat, i: int)
    requires
        n < 0x1_0000_0000,
        0 <= i < 4,
    ensures
        be32(n).len() == 4,
        be32(n)[i] as int == n as int / vstd::arithmetic::power::pow(256, (3 - i) as nat) % 256,
{
    lemma_powers_of_256();
    assert(n / 0x100_0000 % 0x100 == n / 0x100_0000);
}

/// Four bytes stand for the sum of each byte times 256 to the number of bytes
/// behind it.
pub proof fn length_is_the_big_endian_sum(bytes: Seq<u8>)
    requires
        bytes.len() == 4,
    ensures
        be32_value(bytes) == bytes[0] * vstd::arithmetic::power::pow(256, 3) + bytes[1]
            * vstd::arithmetic::power::pow(256, 2) + bytes[2] * vstd::arithmetic::power::pow(256, 1)
            + bytes[3] * vstd::arithmetic::power::pow(256, 0),
{
    lemma_powers_of_256();
}

/// Longer payloads have larger prefixes, byte by byte from the first.
pub proof fn prefixes_are_ordered_like_lengths(n: nat, m: nat)
    requires
        n < m < 0x1_0000_0000,
    ensures
        exists|i: int|
            0 <= i < 4 && (#[trigger] be32(n)[i]) < be32(m)[i] && be32(n).take(i) == be32(m).take(i),
{
    let (a, b) = (be32(n), be32(m));
    lemma_be32_value(n);
    lemma_be32_value(m);
    if a[0] != b[0] {
        assert(a[0] < b[0]);
        assert(a.take(0) =~= b.take(0));
    } else if a[1] != b[1] {
        assert(a[1] < b[1]);
        assert(a.take(1) =~= b.take(1));
    } else if a[2] != b[2] {
        assert(a[2] < b[2]);
        assert(a.take(2) =~= b.take(2));
    } else {
        assert(a[3] < b[3]);
        assert(a.take(3) =~= b.take(3));
    }
}

/// A frame is four bytes longer than its payload: the big-endian length of the
/// payload comes first, then the payload, byte for byte.
pub proof fn frame_is_length_then_payload(payload: Seq<u8>)
    requires
        payload.len() < 0x1_0000_0000,
    ensures
        frame(payload).len() == 4 + payload.len(),
        forall|i: int|
            0 <= i < 4 ==> (#[trigger] frame(payload)[i]) as int == payload.len() as int
                / vstd::arithmetic::power::pow(256, (3 - i) as nat) % 256,
        forall|i: int| 0 <= i < payload.len() ==> frame(payload)[4 + i] == #[trigger] payload[i],
        frame(payload).skip(4) == payload,
{
    assert forall|i: int| 0 <= i < 4 implies (#[trigger] frame(payload)[i]) as int
        == payload.len() as int / vstd::arithmetic::power::pow(256, (3 - i) as nat) % 256 by {
        length_bytes_are_big_endian(payload.len(), i);
        assert(frame(payload)[i] == be32(payload.len())[i]);
    }
    assert(frame(payload).skip(4) =~= payload);
}

/// A frame over the limit is refused for its length as soon as its prefix is
/// there, whatever follows.
pub proof fn oversized_frame_is_refused(len: nat, rest: Seq<u8>, max: nat)
    requires
        max < len < 0x1_0000_0000,
    ensures
        parse_frame(be32(len) + rest, max) == (Parsed::TooLarge { len }),
{
    lemma_be32_value(len);
    assert((be32(len) + rest).take(4) =~= be32(len));
}

/// Of a frame within the limit that has not arrived whole, the rest of the
/// prefix is asked for first, and then the rest of the payload.
pub proof fn unfinished_frame_is_asked_for(payload: Seq<u8>, max: nat, k: int)
    requires
        payload.len() <= max,
        payload.len() < 0x1_0000_0000,
        0 <= k < 4 + payload.len(),
    ensures
        k < 4 ==> parse_frame(frame(payload).take(k), max) == (Parsed::Short {
            missing: (4 - k) as nat,
        }),
        k >= 4 ==> parse_frame(frame(payload).take(k), max) == (Parsed::Short {
            missing: (4 + payload.len() - k) as nat,
        }),
{
    lemma_be32_value(payload.len());
    if k >= 4 {
        assert(frame(payload).take(k).take(4) =~= be32(payload.len()));
    }
}

/// Fewer than four bytes are never enough: the rest of the four is asked for,
/// whatever the bytes and the limit.
pub proof fn unfinished_prefix_is_asked_for(bytes: Seq<u8>, max: nat)
    requires
        bytes.len() < 4,
    ensures
        parse_frame(bytes, max) matches Parsed::Short { missing } && bytes.len() + missing == 4,
{
}

/// The refusal of a frame over the limit names the length in decimal; that of a
/// frame whose length no prefix can hold does not.
pub proof fn refusals_name_the_length(len: nat)
    ensures
        over_limit_message(len).take(17) == "frame too large: "@,
        text::decimal_value(over_limit_message(len).skip(17)) == len,
        forall|i: int|
            17 <= i < over_limit_message(len).len() ==> '0' <= #[trigger] over_limit_message(len)[i]
                <= '9',
        over_limit_message(len).skip(17) == text::decimal_digits(len),
        too_large_message() == "frame too large"@,
{
    reveal_strlit("frame too large: ");
    let message = over_limit_message(len);
    let digits = text::decimal_digits(len);
    text::decimal_text_reads_back(len);
    assert(message.take(17) =~= "frame too large: "@);
    assert(message.skip(17) =~= digits);
    assert forall|i: int| 17 <= i < message.len() implies '0' <= #[trigger] message[i] <= '9' by {
        assert(message[i] == digits[i - 17]);
    }
}

/// Every item that was encoded, and whose length a prefix can hold, is carried
/// whole, and nothing else is.
pub proof fn encoded_items_are_carried_whole(payload: Seq<u8>)
    ensures
        payload.len() < 0x1_0000_0000 ==> carried(Some(payload)) == Some(payload),
        payload.len() >= 0x1_0000_0000 ==> carried(Some(payload)) is None,
        carried(None) is None,
{
}

/// Where every item was encoded, a client reads back from the response stream
/// exactly the items: as many, in the same order, with the same bytes.
pub proof fn client_reads_back_every_item(payloads: Seq<Seq<u8>>, max: nat)
    requires
        max < 0x1_0000_0000,
        forall|i: int| 0 <= i < payloads.len() ==> (#[trigger] payloads[i]).len() <= max,
    ensures
        read_stream(stream_body(payloads.map_values(|p: Seq<u8>| Some(p))), max) == (
            payloads,
            StreamEnd::Clean,
        ),
{
    let items = payloads.map_values(|p: Seq<u8>| Some(p));
    assert forall|i: int| 0 <= i < items.len() implies ((#[trigger] items[i]) matches Some(
        payload,
    ) ==> payload.len() <= max) by {
        assert(payloads[i].len() <= max);
    }
    response_stream_is_read_back(items, max);
    lemma_all_carried(payloads);
}

proof fn lemma_all_carried(payloads: Seq<Seq<u8>>)
    requires
        forall|i: int| 0 <= i < payloads.len() ==> (#[trigger] payloads[i]).len() < 0x1_0000_0000,
    ensures
        carried_payloads(payloads.map_values(|p: Seq<u8>| Some(p))) == payloads,
    decreases payloads.len(),
{
    let items = payloads.map_values(|p: Seq<u8>| Some(p));
    if payloads.len() > 0 {
        let rest = payloads.drop_first();
        assert forall|i: int| 0 <= i < rest.len() implies (#[trigger] rest[i]).len()
            < 0x1_0000_0000 by {
            assert(rest[i] == payloads[i + 1]);
        }
        lemma_all_carried(rest);
        assert(items.drop_first() =~= rest.map_values(|p: Seq<u8>| Some(p)));
        assert(items[0] == Some(payloads[0]));
        assert(seq![payloads[0]] + rest =~= payloads);
    } else {
        assert(payloads =~= Seq::empty());
    }
}

/// An item that was not encoded leaves no trace in the response stream.
pub proof fn missing_item_leaves_no_trace(
    before: Seq<Option<Seq<u8>>>,
    after: Seq<Option<Seq<u8>>>,
)
    ensures
        stream_body(before + seq![None] + after) == stream_body(before + after),
    decreases before.len(),
{
    let with = before + seq![None] + after;
    if before.len() == 0 {
        assert(with.drop_first() =~= after);
        assert(before + after =~= after);
    } else {
        missing_item_leaves_no_trace(before.drop_first(), after);
        assert(with.drop_first() =~= before.drop_first() + seq![None] + after);
        assert((before + after).drop_first() =~= before.drop_first() + after);
    }
}

} // verus!
