use vstd::prelude::*;

verus! {

/// The four little-endian bytes of `n`.
pub open spec fn le_bytes(n: u32) -> Seq<u8> {
    seq![
        (n % 0x100) as u8,
        ((n / 0x100) % 0x100) as u8,
        ((n / 0x10000) % 0x100) as u8,
        (n / 0x1000000) as u8,
    ]
}

/// The number that four little-endian bytes stand for.
pub open spec fn le_value(b: Seq<u8>) -> int {
    b[0] as int + 0x100 * b[1] as int + 0x10000 * b[2] as int + 0x1000000 * b[3] as int
}

/// A frame: the body's length as four little-endian bytes, then the body.
pub open spec fn frame_of(body: Seq<u8>) -> Seq<u8> {
    le_bytes(body.len() as u32) + body
}

/// Failures of reading a frame.
#[derive(Clone, Copy, Debug, PartialEq, Eq, Structural)]
pub enum FrameError {
    /// Fewer than four bytes, or fewer body bytes than the length announces.
    Truncated,
    /// The body is too long for a four-byte length.
    TooLong,
}

proof fn lemma_le_round_trip(n: u32)
    ensures
        le_value(le_bytes(n)) == n,
{
    let b = le_bytes(n);
    assert(b[0] as int == n % 0x100);
    assert(b[1] as int == (n / 0x100) % 0x100);
    assert(b[2] as int == (n / 0x10000) % 0x100);
    assert(b[3] as int == n / 0x1000000);
    assert(n == n % 0x100 + 0x100 * ((n / 0x100) % 0x100) + 0x10000 * ((n / 0x10000) % 0x100)
        + 0x1000000 * (n / 0x1000000)) by (nonlinear_arith);
}

/// The length prefix of `n`.
pub fn encode_len(n: u32) -> (r: [u8; 4])
    ensures
        r@ == le_bytes(n),
{
    let r = [(n % 0x100) as u8, ((n / 0x100) % 0x100) as u8, ((n / 0x10000) % 0x100) as u8, (n / 0x1000000) as u8];
    assert(r@ =~= le_bytes(n));
    r
}

/// The length that a four-byte prefix announces.
pub fn decode_len(b: [u8; 4]) -> (r: u32)
    ensures
        r as int == le_value(b@),
{
    let v: u64 = b[0] as u64 + 0x100 * (b[1] as u64) + 0x10000 * (b[2] as u64) + 0x1000000 * (b[3] as u64);
    v as u32
}

/// Frames a message body: its length, then the body itself.
pub fn encode_frame(body: &Vec<u8>) -> (r: Result<Vec<u8>, FrameError>)
    ensures
        r is Ok <==> body@.len() <= u32::MAX,
        r matches Ok(f) ==> f@ == frame_of(body@),
        r matches Err(e) ==> e == FrameError::TooLong,
{
    if body.len() > u32::MAX as usize {
        return Err(FrameError::TooLong);
    }
    let prefix = encode_len(body.len() as u32);
    let mut out: Vec<u8> = Vec::new();
    out.push(prefix[0]);
    out.push(prefix[1]);
    out.push(prefix[2]);
    out.push(prefix[3]);
    let mut i: usize = 0;
    while i < body.len()
        invariant
            i <= body@.len(),
            out@ == prefix@ + body@.subrange(0, i as int),
        decreases body@.len() - i,
    {
        out.push(body[i]);
        i = i + 1;
        assert(out@ =~= prefix@ + body@.subrange(0, i as int));
    }
    assert(body@.subrange(0, i as int) =~= body@);
    Ok(out)
}

/// The body of the frame at the start of `bytes`, and how many bytes the
/// frame takes.
pub open spec fn parse_frame(bytes: Seq<u8>) -> Option<(Seq<u8>, int)> {
    if bytes.len() < 4 {
        None
    } else {
        let n = le_value(bytes.subrange(0, 4));
        if bytes.len() < 4 + n {
            None
        } else {
            Some((bytes.subrange(4, 4 + n), 4 + n))
        }
    }
}

/// Reads the frame at the start of `bytes`.
pub fn decode_frame(bytes: &Vec<u8>) -> (r: Result<(Vec<u8>, usize), FrameError>)
    ensures
        r is Ok <==> parse_frame(bytes@) is Some,
        r matches Ok((body, used)) ==> parse_frame(bytes@) == Some((body@, used as int)),
        r matches Err(e) ==> e == FrameError::Truncated,
{
    if bytes.len() < 4 {
        return Err(FrameError::Truncated);
    }
    let n = decode_len([bytes[0], bytes[1], bytes[2], bytes[3]]);
    assert(bytes@.subrange(0, 4) =~= seq![bytes@[0], bytes@[1], bytes@[2], bytes@[3]]);
    if (bytes.len() - 4) < n as usize {
        return Err(FrameError::Truncated);
    }
    let end: usize = 4 + n as usize;
    let mut body: Vec<u8> = Vec::new();
    let mut i: usize = 4;
    while i < end
        invariant
            4 <= i <= end,
            end <= bytes@.len(),
            body@ == bytes@.subrange(4, i as int),
        decreases end - i,
    {
        body.push(bytes[i]);
        i = i + 1;
        assert(body@ =~= bytes@.subrange(4, i as int));
    }
    Ok((body, end))
}

/// Framing then reading gives the body back, whatever follows the frame.
pub proof fn lemma_frame_round_trip(body: Seq<u8>, rest: Seq<u8>)
    requires
        body.len() <= u32::MAX,
    ensures
        parse_frame(frame_of(body) + rest) == Some((body, 4 + body.len() as int)),
{
    let f = frame_of(body) + rest;
    lemma_le_round_trip(body.len() as u32);
    assert(f.subrange(0, 4) =~= le_bytes(body.len() as u32));
    assert(f.subrange(4, 4 + body.len() as int) =~= body);
}

} // verus!
