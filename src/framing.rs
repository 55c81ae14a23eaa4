//! Byte-level framing shared by both protocols: fixed markers at the end of a
//! response, zero-padded fixed-size packets and little-endian fields.
use vstd::prelude::*;

verus! {

/// Why a protocol step failed.
#[derive(Debug, Clone, Copy, PartialEq, Eq, Structural)]
pub enum ProtocolError {
    /// The device answered with bytes other than the expected marker.
    Mismatch,
    /// The device echoed back another byte than the one just sent.
    EchoMismatch { sent: u8, echoed: u8 },
    /// A payload is longer than the packet that should carry it.
    PayloadTooLarge,
    /// A memory range ends before it starts.
    InvalidRange,
    /// No USB interface has the shape of the device's data interface.
    NoMatchingInterface,
}

/// What the program driving a session does next.
#[derive(Debug)]
pub enum Step {
    /// Write these bytes.
    Send(Vec<u8>),
    /// Read once, at most this many bytes, and hand back what came.
    Receive(usize),
    /// Read exactly this many bytes and hand them back.
    ReceiveExact(usize),
    /// Wait the fixed delay between the messages of one request.
    Pause,
    /// The command is complete.
    Finish,
}

/// The step is to write exactly `bytes`.
pub open spec fn is_send(r: Result<Step, ProtocolError>, bytes: Seq<u8>) -> bool {
    match r {
        Ok(Step::Send(b)) => b@ == bytes,
        _ => false,
    }
}

/// The step is to read once, at most `n` bytes.
pub open spec fn is_receive(r: Result<Step, ProtocolError>, n: nat) -> bool {
    match r {
        Ok(Step::Receive(m)) => m == n,
        _ => false,
    }
}

/// The step is to read exactly `n` bytes.
pub open spec fn is_receive_exact(r: Result<Step, ProtocolError>, n: nat) -> bool {
    match r {
        Ok(Step::ReceiveExact(m)) => m == n,
        _ => false,
    }
}

/// `s` ends with the bytes of `marker`.
pub open spec fn ends_with(s: Seq<u8>, marker: Seq<u8>) -> bool {
    s.len() >= marker.len() && s.subrange(s.len() - marker.len(), s.len() as int) == marker
}

/// Accepts a response that ends with `marker`; whatever precedes the marker
/// (boot noise, for instance) is ignored.
pub fn check_marker(response: &[u8], marker: &[u8]) -> (r: Result<(), ProtocolError>)
    ensures
        r is Ok <==> ends_with(response@, marker@),
        r is Err ==> r == Err::<(), ProtocolError>(ProtocolError::Mismatch),
{
    let n = response.len();
    let m = marker.len();
    if n < m {
        return Err(ProtocolError::Mismatch);
    }
    let base = n - m;
    let mut i: usize = 0;
    while i < m
        invariant
            m == marker@.len(),
            n == response@.len(),
            base == n - m,
            i <= m,
            forall|j: int| 0 <= j < i ==> response@[base + j] == marker@[j],
        decreases m - i,
    {
        if response[base + i] != marker[i] {
            assert(response@.subrange(base as int, n as int)[i as int] != marker@[i as int]);
            return Err(ProtocolError::Mismatch);
        }
        i = i + 1;
    }
    assert(response@.subrange(base as int, n as int) =~= marker@);
    Ok(())
}

/// `payload` followed by zero bytes up to `size` bytes.
pub open spec fn padded(payload: Seq<u8>, size: nat) -> Seq<u8> {
    payload + Seq::new((size - payload.len()) as nat, |i: int| 0u8)
}

/// Builds a packet of exactly `size` bytes: the payload, then zero bytes.
pub fn pad_packet(payload: &[u8], size: usize) -> (r: Result<Vec<u8>, ProtocolError>)
    ensures
        payload@.len() <= size ==> r is Ok && r->Ok_0@ == padded(payload@, size as nat),
        payload@.len() > size ==> r == Err::<Vec<u8>, ProtocolError>(
            ProtocolError::PayloadTooLarge,
        ),
{
    if payload.len() > size {
        return Err(ProtocolError::PayloadTooLarge);
    }
    let mut packet: Vec<u8> = Vec::with_capacity(size);
    let mut i: usize = 0;
    while i < size
        invariant
            i <= size,
            payload@.len() <= size,
            packet@ == padded(payload@, size as nat).take(i as int),
        decreases size - i,
    {
        let b: u8 = if i < payload.len() {
            payload[i]
        } else {
            0
        };
        packet.push(b);
        i = i + 1;
        assert(packet@ =~= padded(payload@, size as nat).take(i as int));
    }
    assert(packet@ =~= padded(payload@, size as nat));
    Ok(packet)
}

/// The four bytes of `v`, least significant first.
pub open spec fn le_bytes(v: u32) -> Seq<u8> {
    seq![
        (v % 0x100) as u8,
        (v / 0x100 % 0x100) as u8,
        (v / 0x10000 % 0x100) as u8,
        (v / 0x1000000) as u8,
    ]
}

/// Appends the four bytes of `v`, least significant first.
pub fn push_le_u32(out: &mut Vec<u8>, v: u32)
    ensures
        final(out)@ == old(out)@ + le_bytes(v),
{
    out.push((v % 0x100) as u8);
    out.push((v / 0x100 % 0x100) as u8);
    out.push((v / 0x10000 % 0x100) as u8);
    out.push((v / 0x1000000) as u8);
    assert(out@ =~= old(out)@ + le_bytes(v));
}

/// A copy of `b`.
pub fn copy_bytes(b: &[u8]) -> (r: Vec<u8>)
    ensures
        r@ == b@,
{
    let mut r: Vec<u8> = Vec::with_capacity(b.len());
    let mut i: usize = 0;
    while i < b.len()
        invariant
            i <= b@.len(),
            r@ == b@.take(i as int),
        decreases b@.len() - i,
    {
        r.push(b[i]);
        i = i + 1;
        assert(r@ =~= b@.take(i as int));
    }
    assert(b@.take(i as int) =~= b@);
    r
}

} // verus!
