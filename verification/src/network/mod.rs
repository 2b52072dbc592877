use vstd::prelude::*;

verus! {

/// A value sent to an input of a simulation on another engine.
#[derive(Debug)]
pub struct NetworkMessage {
    pub input: String,
    pub payload: Vec<u8>,
}

/// Why a message could not be framed.
#[derive(Debug, Clone, Copy, PartialEq, Eq, Structural)]
pub enum FrameError {
    /// The body is longer than a four-byte length can say.
    TooLarge,
}

/// The kinds of failure of a read from a connection that the network layer
/// tells apart.
#[derive(Debug, Clone, Copy, PartialEq, Eq, Structural)]
pub enum IoErrorKind {
    UnexpectedEof,
    ConnectionReset,
    ConnectionAborted,
    BrokenPipe,
    Other,
}

/// A failed read means that the peer has closed the connection.
pub fn is_connection_closed(kind: IoErrorKind) -> (closed: bool)
    ensures
        closed == !(kind is Other),
{
    match kind {
        IoErrorKind::UnexpectedEof | IoErrorKind::ConnectionReset
        | IoErrorKind::ConnectionAborted | IoErrorKind::BrokenPipe => true,
        IoErrorKind::Other => false,
    }
}

/// The four bytes of `n`, most significant first.
pub open spec fn be_u32_bytes(n: u32) -> Seq<u8> {
    seq![
        (n / 0x100_0000) as u8,
        ((n / 0x1_0000) % 0x100) as u8,
        ((n / 0x100) % 0x100) as u8,
        (n % 0x100) as u8,
    ]
}

/// The number that four bytes, most significant first, stand for.
pub open spec fn be_u32_value(b: Seq<u8>) -> int {
    b[0] * 0x100_0000 + b[1] * 0x1_0000 + b[2] * 0x100 + b[3]
}

/// The frame of a message body: its length in four bytes, most significant
/// first, then the body.
pub open spec fn frame_of(body: Seq<u8>) -> Seq<u8> {
    be_u32_bytes(body.len() as u32) + body
}

/// Reading the four length bytes of a number gives the number back.
pub proof fn lemma_be_u32_round_trip(n: u32)
    ensures
        be_u32_value(be_u32_bytes(n)) == n,
{
    let x = n as int;
    assert(0 <= x / 0x100_0000 < 0x100);
    assert(x / 0x1_0000 == (x / 0x100) / 0x100);
    assert(x / 0x100_0000 == (x / 0x1_0000) / 0x100);
    assert(x == 0x100 * (x / 0x100) + x % 0x100);
    assert(x / 0x100 == 0x100 * (x / 0x1_0000) + (x / 0x100) % 0x100);
    assert(x / 0x1_0000 == 0x100 * (x / 0x100_0000) + (x / 0x1_0000) % 0x100);
}

/// A frame read back gives the body that was framed: its first four bytes
/// are the body's length and the rest is the body.
pub proof fn lemma_frame_read_back(body: Seq<u8>)
    requires
        body.len() <= u32::MAX,
    ensures
        be_u32_value(frame_of(body).subrange(0, 4)) == body.len(),
        frame_of(body).len() == body.len() + 4,
        frame_of(body)[0] == body.len() / 0x100_0000,
        frame_of(body)[1] == (body.len() / 0x1_0000) % 0x100,
        frame_of(body)[2] == (body.len() / 0x100) % 0x100,
        frame_of(body)[3] == body.len() % 0x100,
        frame_of(body).subrange(4, frame_of(body).len() as int) == body,
{
    let n = body.len() as u32;
    lemma_be_u32_round_trip(n);
    assert(frame_of(body).subrange(0, 4) =~= be_u32_bytes(n));
    assert(frame_of(body).subrange(4, frame_of(body).len() as int) =~= body);
}

/// Frames a message body for sending; a body too long for a four-byte
/// length is refused.
pub fn frame_message(body: &[u8]) -> (framed: Result<Vec<u8>, FrameError>)
    ensures
        framed is Err <==> body@.len() > u32::MAX,
        framed matches Ok(f) ==> f@ == frame_of(body@),
{
    if body.len() as u64 > 0xffff_ffffu64 {
        return Err(FrameError::TooLarge);
    }
    let n = body.len() as u32;
    let mut framed: Vec<u8> = Vec::new();
    framed.push((n / 0x100_0000) as u8);
    framed.push(((n / 0x1_0000) % 0x100) as u8);
    framed.push(((n / 0x100) % 0x100) as u8);
    framed.push((n % 0x100) as u8);
    assert(framed@ =~= be_u32_bytes(n));
    let mut i: usize = 0;
    while i < body.len()
        invariant
            i <= body@.len(),
            framed@ == be_u32_bytes(n) + body@.take(i as int),
        decreases body@.len() - i,
    {
        framed.push(body[i]);
        assert(body@.take(i + 1) =~= body@.take(i as int).push(body@[i as int]));
        i += 1;
    }
    assert(body@.take(i as int) =~= body@);
    Ok(framed)
}

/// The length of a message body, read from its four length bytes.
pub fn frame_length(header: [u8; 4]) -> (len: u32)
    ensures
        len == be_u32_value(header@),
{
    let b0 = header[0] as u32;
    let b1 = header[1] as u32;
    let b2 = header[2] as u32;
    let b3 = header[3] as u32;
    assert(b0 * 0x100_0000 + b1 * 0x1_0000 + b2 * 0x100 + b3 <= u32::MAX) by (nonlinear_arith)
        requires
            b0 < 256,
            b1 < 256,
            b2 < 256,
            b3 < 256,
    ;
    b0 * 0x100_0000 + b1 * 0x1_0000 + b2 * 0x100 + b3
}

} // verus!
