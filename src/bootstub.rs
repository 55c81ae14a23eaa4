//! The serial protocol of the bootstub firmware: the text handshake, the
//! checksummed memory dump and the byte-stepped upload with echo checks.
//!
//! The driver writes the bytes these functions build, waits `DELAY_MS`
//! between the messages of one request, and hands every received byte back.
use crate::checksum::{lemma_trailing_checksum_cancels, xor_all};
use crate::framing::{check_marker, ends_with, ProtocolError};
use crate::unpacker::{lemma_unpack_inverts_pack, packed, unpack_run, unpacked, BitUnpacker};
use vstd::prelude::*;

verus! {

/// Pause between the messages of one request, in milliseconds. The device
/// has no flow control: this delay is what gives it time to take a message.
pub const DELAY_MS: u64 = 100;

/// Most bytes read at once while waiting for the handshake answer; boot log
/// output may come before it.
pub const HELLO_READ_LIMIT: usize = 16384;

/// Bytes sent between two echo checks of an upload.
pub const ECHO_INTERVAL: u64 = 256;

/// `WHOISDIS` in ASCII.
pub open spec fn hello_request_bytes() -> Seq<u8> {
    seq![0x57u8, 0x48, 0x4f, 0x49, 0x53, 0x44, 0x49, 0x53]
}

/// `BOOTSTUB` in ASCII.
pub open spec fn hello_answer_bytes() -> Seq<u8> {
    seq![0x42u8, 0x4f, 0x4f, 0x54, 0x53, 0x54, 0x55, 0x42]
}

/// `UPLDMEM` in ASCII.
pub open spec fn dump_command_bytes() -> Seq<u8> {
    seq![0x55u8, 0x50, 0x4c, 0x44, 0x4d, 0x45, 0x4d]
}

/// `BOOTFILE` in ASCII.
pub open spec fn boot_command_bytes() -> Seq<u8> {
    seq![0x42u8, 0x4f, 0x4f, 0x54, 0x46, 0x49, 0x4c, 0x45]
}

/// `STRTUPLD` in ASCII.
pub open spec fn start_marker_bytes() -> Seq<u8> {
    seq![0x53u8, 0x54, 0x52, 0x54, 0x55, 0x50, 0x4c, 0x44]
}

/// `ENDUPLD` in ASCII.
pub open spec fn end_marker_bytes() -> Seq<u8> {
    seq![0x45u8, 0x4e, 0x44, 0x55, 0x50, 0x4c, 0x44]
}

/// `WHOISDIS`, the handshake request.
pub fn hello_request() -> (r: Vec<u8>)
    ensures
        r@ == hello_request_bytes(),
{
    let r = vec![0x57u8, 0x48, 0x4f, 0x49, 0x53, 0x44, 0x49, 0x53];
    assert(r@ =~= hello_request_bytes());
    r
}

/// `UPLDMEM`, the command that starts a dump.
pub fn dump_command() -> (r: Vec<u8>)
    ensures
        r@ == dump_command_bytes(),
{
    let r = vec![0x55u8, 0x50, 0x4c, 0x44, 0x4d, 0x45, 0x4d];
    assert(r@ =~= dump_command_bytes());
    r
}

/// `BOOTFILE`, the command that starts an upload.
pub fn boot_command() -> (r: Vec<u8>)
    ensures
        r@ == boot_command_bytes(),
{
    let r = vec![0x42u8, 0x4f, 0x4f, 0x54, 0x46, 0x49, 0x4c, 0x45];
    assert(r@ =~= boot_command_bytes());
    r
}

/// Accepts the handshake answer: whatever was read must end with `BOOTSTUB`.
pub fn check_hello(response: &[u8]) -> (r: Result<(), ProtocolError>)
    ensures
        r is Ok <==> ends_with(response@, hello_answer_bytes()),
        r is Err ==> r == Err::<(), ProtocolError>(ProtocolError::Mismatch),
{
    let marker = [0x42u8, 0x4f, 0x4f, 0x54, 0x53, 0x54, 0x55, 0x42];
    assert(marker@ =~= hello_answer_bytes());
    check_marker(response, &marker)
}

/// Accepts the device's answer to a dump or upload request: exactly `STRTUPLD`.
pub fn check_start(response: &[u8]) -> (r: Result<(), ProtocolError>)
    ensures
        r is Ok <==> response@ == start_marker_bytes(),
        r is Err ==> r == Err::<(), ProtocolError>(ProtocolError::Mismatch),
{
    let marker = [0x53u8, 0x54, 0x52, 0x54, 0x55, 0x50, 0x4c, 0x44];
    assert(marker@ =~= start_marker_bytes());
    if response.len() != 8 {
        return Err(ProtocolError::Mismatch);
    }
    let r = check_marker(response, &marker);
    assert(response@.subrange(0, 8) =~= response@);
    r
}

/// Accepts the end of a transfer: exactly `ENDUPLD`.
pub fn check_end(response: &[u8]) -> (r: Result<(), ProtocolError>)
    ensures
        r is Ok <==> response@ == end_marker_bytes(),
        r is Err ==> r == Err::<(), ProtocolError>(ProtocolError::Mismatch),
{
    let marker = [0x45u8, 0x4e, 0x44, 0x55, 0x50, 0x4c, 0x44];
    assert(marker@ =~= end_marker_bytes());
    if response.len() != 7 {
        return Err(ProtocolError::Mismatch);
    }
    let r = check_marker(response, &marker);
    assert(response@.subrange(0, 7) =~= response@);
    r
}

/// A range of device memory; `end` is exclusive.
#[derive(Debug, Clone, Copy, PartialEq, Eq, Structural)]
pub struct MemoryRange {
    pub start: u64,
    pub end: u64,
}

impl MemoryRange {
    pub open spec fn wf(&self) -> bool {
        self.start <= self.end
    }

    /// The range `[start, end)`; an end before the start is refused.
    pub fn new(start: u64, end: u64) -> (r: Result<MemoryRange, ProtocolError>)
        ensures
            start <= end ==> r == Ok::<MemoryRange, ProtocolError>(
                (MemoryRange { start, end }),
            ),
            start > end ==> r == Err::<MemoryRange, ProtocolError>(ProtocolError::InvalidRange),
    {
        if start <= end {
            Ok(MemoryRange { start, end })
        } else {
            Err(ProtocolError::InvalidRange)
        }
    }

    /// The number of bytes in the range.
    pub fn len(&self) -> (r: u64)
        requires
            self.wf(),
        ensures
            r == self.end - self.start,
    {
        self.end - self.start
    }
}

/// How the firmware puts dumped bytes on the line.
#[derive(Debug, Clone, Copy, PartialEq, Eq, Structural)]
pub enum Encoding {
    /// One byte per dumped byte.
    Raw,
    /// Seven bits per wire byte, decoded by a `BitUnpacker`. The checksum
    /// byte travels inside the packed stream, as a last decoded byte.
    Packed,
}

/// The bytes that the wire bytes `wire` stand for under `encoding`.
pub open spec fn decoded_stream(encoding: Encoding, wire: Seq<u8>) -> Seq<u8> {
    match encoding {
        Encoding::Raw => wire,
        Encoding::Packed => unpacked(wire),
    }
}

/// The smaller of `a` and `b`.
pub open spec fn min_nat(a: nat, b: nat) -> nat {
    if a < b {
        a
    } else {
        b
    }
}

/// Receives the payload of a dump one wire byte at a time.
///
/// The device sends `length` payload bytes and then one checksum byte, the
/// XOR of the payload. The receiver keeps the payload, folds every byte into
/// the checksum and tells when the checksum byte has come.
pub struct DumpReceiver {
    encoding: Encoding,
    unpacker: BitUnpacker,
    length: u64,
    remaining: u64,
    checksum: u8,
    data: Vec<u8>,
    finished: bool,
    wire: Ghost<Seq<u8>>,
}

impl DumpReceiver {
    /// The wire bytes accepted so far.
    pub closed spec fn wire(&self) -> Seq<u8> {
        self.wire@
    }

    /// The number of payload bytes expected.
    pub closed spec fn length(&self) -> nat {
        self.length as nat
    }

    pub closed spec fn encoding(&self) -> Encoding {
        self.encoding
    }

    /// The bytes decoded so far: payload, then the checksum byte.
    pub open spec fn decoded(&self) -> Seq<u8> {
        decoded_stream(self.encoding(), self.wire())
    }

    /// Every payload byte and the checksum byte have come.
    pub open spec fn done(&self) -> bool {
        self.decoded().len() == self.length() + 1
    }

    /// The payload received so far.
    pub open spec fn payload_so_far(&self) -> Seq<u8> {
        self.decoded().take(min_nat(self.decoded().len(), self.length()) as int)
    }

    pub closed spec fn wf(&self) -> bool {
        let d = self.decoded();
        &&& d.len() <= self.length + 1
        &&& self.remaining == self.length - min_nat(d.len(), self.length as nat)
        &&& self.data@ == self.payload_so_far()
        &&& self.checksum == xor_all(d)
        &&& self.finished == self.done()
        &&& self.encoding == Encoding::Packed ==> self.unpacker.wf() && self.unpacker@
            == unpack_run(self.wire@).0
    }

    /// A receiver for a dump of `range` sent in `encoding`.
    pub fn new(encoding: Encoding, range: &MemoryRange) -> (r: DumpReceiver)
        requires
            range.wf(),
        ensures
            r.wf(),
            r.wire() == Seq::<u8>::empty(),
            r.length() == range.end - range.start,
            r.encoding() == encoding,
    {
        let length = range.len();
        let r = DumpReceiver {
            encoding,
            unpacker: BitUnpacker::new(),
            length,
            remaining: length,
            checksum: 0,
            data: Vec::new(),
            finished: false,
            wire: Ghost(Seq::empty()),
        };
        assert(r.decoded() =~= Seq::<u8>::empty());
        assert(r.data@ =~= r.payload_so_far());
        r
    }

    /// Takes one decoded byte: payload while payload is owed, the checksum
    /// byte after it.
    fn take_decoded(&mut self, b: u8, Ghost(d): Ghost<Seq<u8>>)
        requires
            old(self).data@ == d.take(min_nat(d.len(), old(self).length as nat) as int),
            old(self).remaining == old(self).length - min_nat(d.len(), old(self).length as nat),
            old(self).checksum == xor_all(d),
            d.len() <= old(self).length,
            !old(self).finished,
        ensures
            ({
                let d2 = d.push(b);
                &&& final(self).data@ == d2.take(
                    min_nat(d2.len(), final(self).length as nat) as int,
                )
                &&& final(self).remaining == final(self).length - min_nat(
                    d2.len(),
                    final(self).length as nat,
                )
                &&& final(self).checksum == xor_all(d2)
                &&& final(self).finished == (d2.len() == final(self).length + 1)
            }),
            final(self).length == old(self).length,
            final(self).encoding == old(self).encoding,
            final(self).unpacker == old(self).unpacker,
            final(self).wire == old(self).wire,
    {
        let ghost d2 = d.push(b);
        assert(d2.drop_last() =~= d);
        self.checksum = self.checksum ^ b;
        if self.remaining > 0 {
            self.data.push(b);
            self.remaining = self.remaining - 1;
            assert(self.data@ =~= d2.take(min_nat(d2.len(), self.length as nat) as int));
        } else {
            self.finished = true;
            assert(self.data@ =~= d2.take(min_nat(d2.len(), self.length as nat) as int));
        }
    }

    /// Accepts the next wire byte; returns whether the transfer is complete,
    /// that is whether the checksum byte has now come.
    pub fn accept(&mut self, raw: u8) -> (r: bool)
        requires
            old(self).wf(),
            !old(self).done(),
        ensures
            final(self).wf(),
            final(self).wire() == old(self).wire().push(raw),
            final(self).length() == old(self).length(),
            final(self).encoding() == old(self).encoding(),
            r == final(self).done(),
    {
        let ghost w = self.wire@;
        let ghost d = self.decoded();
        let ghost w2 = w.push(raw);
        assert(w2.drop_last() =~= w);
        match self.encoding {
            Encoding::Raw => {
                self.take_decoded(raw, Ghost(d));
            },
            Encoding::Packed => {
                match self.unpacker.feed(raw) {
                    Some(b) => {
                        self.take_decoded(b, Ghost(d));
                    },
                    None => {},
                }
            },
        }
        self.wire = Ghost(w2);
        self.finished
    }

    /// Whether the checksum byte has come.
    pub fn is_finished(&self) -> (r: bool)
        requires
            self.wf(),
        ensures
            r == self.done(),
    {
        self.finished
    }

    /// The payload received so far.
    pub fn payload(&self) -> (r: &Vec<u8>)
        requires
            self.wf(),
        ensures
            r@ == self.payload_so_far(),
    {
        &self.data
    }

    /// Whether the XOR of every decoded byte, checksum byte included, is zero.
    /// A mismatch is worth a warning; the payload is kept all the same.
    pub fn checksum_ok(&self) -> (r: bool)
        requires
            self.wf(),
        ensures
            r == (xor_all(self.decoded()) == 0),
    {
        self.checksum == 0
    }
}

/// The wire bytes by which a device sends `s` under `encoding`.
pub open spec fn encoded_stream(encoding: Encoding, s: Seq<u8>) -> Seq<u8> {
    match encoding {
        Encoding::Raw => s,
        Encoding::Packed => packed(s),
    }
}

/// A device that sends a payload followed by its XOR, in either encoding, is
/// heard as exactly that payload followed by a checksum byte that makes the
/// running XOR zero.
pub proof fn lemma_faithful_dump(encoding: Encoding, payload: Seq<u8>)
    ensures
        ({
            let sent = payload.push(xor_all(payload));
            let heard = decoded_stream(encoding, encoded_stream(encoding, sent));
            &&& heard == sent
            &&& heard.take(payload.len() as int) == payload
            &&& xor_all(heard) == 0
        }),
{
    let sent = payload.push(xor_all(payload));
    lemma_unpack_inverts_pack(sent);
    lemma_trailing_checksum_cancels(payload);
    assert(sent.take(payload.len() as int) =~= payload);
}

/// The number of echo checks made while the count of bytes left goes down
/// from `total` to `left`: one for each count on the way, `left` excluded,
/// that is a multiple of the echo interval.
pub open spec fn echo_count(total: nat, left: nat) -> nat
    decreases total,
{
    if total <= left {
        0
    } else {
        echo_count((total - 1) as nat, left) + if total % 256 == 0 {
            1nat
        } else {
            0nat
        }
    }
}

/// A whole upload makes one echo check per full interval of its size.
pub proof fn lemma_echo_count(total: nat)
    ensures
        echo_count(total, 0) == total / 256,
    decreases total,
{
    if total > 0 {
        lemma_echo_count((total - 1) as nat);
    }
}

/// The byte-stepped upload: after each byte sent, the count of bytes left
/// decides whether the device echoes that byte back for checking.
pub struct UploadSender {
    total: u64,
    left: u64,
    echoes: Ghost<nat>,
}

impl View for UploadSender {
    /// The file size, the bytes still to send and the echo checks so far.
    type V = (nat, nat, nat);

    closed spec fn view(&self) -> (nat, nat, nat) {
        (self.total as nat, self.left as nat, self.echoes@)
    }
}

impl UploadSender {
    pub open spec fn wf(&self) -> bool {
        self@.1 <= self@.0 && self@.2 == echo_count(self@.0, self@.1)
    }

    /// A sender for a file of `size` bytes.
    pub fn new(size: u64) -> (r: UploadSender)
        ensures
            r.wf(),
            r@ == (size as nat, size as nat, 0nat),
    {
        UploadSender { total: size, left: size, echoes: Ghost(0) }
    }

    /// Whether every byte has been sent.
    pub fn is_done(&self) -> (r: bool)
        ensures
            r == (self@.1 == 0),
    {
        self.left == 0
    }

    /// Counts the byte just sent; returns whether the device now echoes it,
    /// which it does when the bytes left before this one are a multiple of
    /// the echo interval.
    pub fn sent_byte(&mut self) -> (echo: bool)
        requires
            old(self).wf(),
            old(self)@.1 > 0,
        ensures
            final(self).wf(),
            echo == (old(self)@.1 % 256 == 0),
            final(self)@.0 == old(self)@.0,
            final(self)@.1 == old(self)@.1 - 1,
            final(self)@.2 == old(self)@.2 + if echo {
                1nat
            } else {
                0nat
            },
    {
        let echo = self.left % ECHO_INTERVAL == 0;
        proof {
            self.echoes@ = self.echoes@ + if echo {
                1nat
            } else {
                0nat
            };
        }
        self.left = self.left - 1;
        assert(echo_count(self.total as nat, self.left as nat) == echo_count(
            self.total as nat,
            (self.left + 1) as nat,
        ) + if echo {
            1nat
        } else {
            0nat
        }) by {
            lemma_echo_count_step(self.total as nat, self.left as nat);
        }
        echo
    }
}

proof fn lemma_echo_count_step(total: nat, left: nat)
    requires
        left < total,
    ensures
        echo_count(total, left) == echo_count(total, left + 1) + if (left + 1) % 256 == 0 {
            1nat
        } else {
            0nat
        },
    decreases total,
{
    let t1 = (total - 1) as nat;
    if total > left + 1 {
        lemma_echo_count_step(t1, left);
        assert(echo_count(total, left + 1) == echo_count(t1, left + 1) + if total % 256 == 0 {
            1nat
        } else {
            0nat
        });
    } else {
        assert(echo_count(t1, left) == 0);
        assert(echo_count(total, left + 1) == 0);
    }
}

/// Accepts the byte the device echoed back during an upload.
pub fn check_echo(sent: u8, echoed: u8) -> (r: Result<(), ProtocolError>)
    ensures
        sent == echoed ==> r is Ok,
        sent != echoed ==> r == Err::<(), ProtocolError>(
            ProtocolError::EchoMismatch { sent, echoed },
        ),
{
    if sent == echoed {
        Ok(())
    } else {
        Err(ProtocolError::EchoMismatch { sent, echoed })
    }
}

/// The lower-case hexadecimal digit of `d`.
pub open spec fn hex_digit(d: nat) -> u8 {
    if d < 10 {
        (0x30 + d) as u8
    } else {
        (0x61 + d - 10) as u8
    }
}

/// The lower-case hexadecimal digits of `n`, without leading zeros (`0` for
/// zero).
pub open spec fn hex_digits(n: nat) -> Seq<u8>
    decreases n,
{
    if n < 16 {
        seq![hex_digit(n)]
    } else {
        hex_digits(n / 16).push(hex_digit(n % 16))
    }
}

fn push_hex_digits(out: &mut Vec<u8>, n: u64)
    ensures
        final(out)@ == old(out)@ + hex_digits(n as nat),
    decreases n,
{
    if n >= 16 {
        push_hex_digits(out, n / 16);
    }
    let d: u64 = n % 16;
    let c: u8 = if d < 10 {
        (0x30 + d) as u8
    } else {
        (0x61 + d - 10) as u8
    };
    out.push(c);
    assert(out@ =~= old(out)@ + hex_digits(n as nat));
}

/// The size of an upload as the device reads it: `0x` and lower-case
/// hexadecimal digits.
pub fn size_text(size: u64) -> (r: Vec<u8>)
    ensures
        r@ == seq![0x30u8, 0x78] + hex_digits(size as nat),
{
    let mut r: Vec<u8> = Vec::new();
    r.push(0x30);
    r.push(0x78);
    push_hex_digits(&mut r, size);
    r
}

} // verus!
