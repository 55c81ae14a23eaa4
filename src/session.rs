//! The decisions of the bootstub commands as state machines. The driver
//! performs each returned `Step` and calls `next` again with the bytes it read
//! (nothing after a write or a pause).
use crate::bootstub::{
    boot_command, check_echo, check_end, check_hello, check_start, dump_command,
    end_marker_bytes, hello_answer_bytes, hello_request, hello_request_bytes, size_text,
    start_marker_bytes, DumpReceiver, Encoding, MemoryRange, UploadSender, HELLO_READ_LIMIT,
    boot_command_bytes, dump_command_bytes, hex_digits,
};
use crate::framing::{
    copy_bytes, ends_with, is_receive, is_receive_exact, is_send, ProtocolError, Step,
};
use vstd::prelude::*;

verus! {

/// Where the opening of a bootstub command stands: the handshake, then the
/// request messages with a pause after each, then the device's start marker.
#[derive(Debug, Clone, Copy, PartialEq, Eq, Structural)]
pub enum OpeningPhase {
    Idle,
    HelloSent,
    AwaitHello,
    /// Message `i` of the request is to be written.
    Message(usize),
    /// Message `i` was written; the pause after it is due.
    PauseAfter(usize),
    /// The request is complete; the start marker is to be read.
    StartDue,
    AwaitStart,
    /// The device has accepted the request.
    Started,
    Failed,
}

/// One step of the opening, from `o` to `n` on the bytes read `input`,
/// giving `r`.
pub open spec fn opening_step(
    o: Opening,
    n: Opening,
    input: Seq<u8>,
    r: Result<Step, ProtocolError>,
) -> bool {
    &&& (r is Err <==> n.phase == OpeningPhase::Failed)
    &&& (r is Err ==> r == Err::<Step, ProtocolError>(ProtocolError::Mismatch))
    &&& (o.phase == OpeningPhase::Idle ==> n.phase == OpeningPhase::HelloSent && is_send(
        r,
        hello_request_bytes(),
    ))
    &&& (o.phase == OpeningPhase::HelloSent ==> n.phase == OpeningPhase::AwaitHello
        && is_receive(r, HELLO_READ_LIMIT as nat))
    &&& (o.phase == OpeningPhase::AwaitHello ==> if ends_with(input, hello_answer_bytes()) {
        n.phase == OpeningPhase::PauseAfter(0) && is_send(r, o.messages()[0])
    } else {
        n.phase == OpeningPhase::Failed
    })
    &&& (o.phase matches OpeningPhase::Message(i) ==> n.phase == OpeningPhase::PauseAfter(i)
        && is_send(r, o.messages()[i as int]))
    &&& (o.phase matches OpeningPhase::PauseAfter(i) ==> r is Ok && r->Ok_0 is Pause && n.phase
        == if i + 1 < o.messages().len() {
        OpeningPhase::Message((i + 1) as usize)
    } else {
        OpeningPhase::StartDue
    })
    &&& (o.phase == OpeningPhase::StartDue ==> n.phase == OpeningPhase::AwaitStart
        && is_receive_exact(r, 8))
    &&& (o.phase == OpeningPhase::AwaitStart ==> if input == start_marker_bytes() {
        n.phase == OpeningPhase::Started && r is Ok && r->Ok_0 is Finish
    } else {
        n.phase == OpeningPhase::Failed
    })
}

/// The handshake and request that open a dump or an upload.
pub struct Opening {
    pub phase: OpeningPhase,
    pub messages: Vec<Vec<u8>>,
}

impl Opening {
    /// The request messages, in the order they are written.
    pub open spec fn messages(&self) -> Seq<Seq<u8>> {
        Seq::new(self.messages@.len(), |i: int| self.messages@[i]@)
    }

    pub open spec fn wf(&self) -> bool {
        &&& self.messages().len() > 0
        &&& self.phase matches OpeningPhase::Message(i) ==> i < self.messages().len()
        &&& self.phase matches OpeningPhase::PauseAfter(i) ==> i < self.messages().len()
    }

    /// Still running: neither accepted nor failed.
    pub open spec fn running(&self) -> bool {
        self.phase != OpeningPhase::Started && self.phase != OpeningPhase::Failed
    }

    /// An opening that writes `messages` once the handshake has succeeded.
    fn new(messages: Vec<Vec<u8>>) -> (r: Opening)
        requires
            messages@.len() > 0,
        ensures
            r.wf(),
            r.phase == OpeningPhase::Idle,
            r.messages() == Seq::new(messages@.len(), |i: int| messages@[i]@),
    {
        Opening { phase: OpeningPhase::Idle, messages }
    }

    /// Advances the opening by one step. No request message is written
    /// unless the handshake answer ends with `BOOTSTUB`. Once the device
    /// has accepted the request the step is `Finish`.
    pub fn next(&mut self, input: &[u8]) -> (r: Result<Step, ProtocolError>)
        requires
            old(self).wf(),
            old(self).running(),
        ensures
            final(self).wf(),
            final(self).messages() == old(self).messages(),
            opening_step(*old(self), *final(self), input@, r),
    {
        match self.phase {
            OpeningPhase::Idle => {
                self.phase = OpeningPhase::HelloSent;
                Ok(Step::Send(hello_request()))
            },
            OpeningPhase::HelloSent => {
                self.phase = OpeningPhase::AwaitHello;
                Ok(Step::Receive(HELLO_READ_LIMIT))
            },
            OpeningPhase::AwaitHello => {
                match check_hello(input) {
                    Ok(()) => {
                        self.phase = OpeningPhase::PauseAfter(0);
                        Ok(Step::Send(copy_bytes(self.messages[0].as_slice())))
                    },
                    Err(e) => {
                        self.phase = OpeningPhase::Failed;
                        Err(e)
                    },
                }
            },
            OpeningPhase::Message(i) => {
                self.phase = OpeningPhase::PauseAfter(i);
                Ok(Step::Send(copy_bytes(self.messages[i].as_slice())))
            },
            OpeningPhase::PauseAfter(i) => {
                if i < self.messages.len() - 1 {
                    self.phase = OpeningPhase::Message(i + 1);
                } else {
                    self.phase = OpeningPhase::StartDue;
                }
                Ok(Step::Pause)
            },
            OpeningPhase::StartDue => {
                self.phase = OpeningPhase::AwaitStart;
                Ok(Step::ReceiveExact(8))
            },
            OpeningPhase::AwaitStart => {
                match check_start(input) {
                    Ok(()) => {
                        self.phase = OpeningPhase::Started;
                        Ok(Step::Finish)
                    },
                    Err(e) => {
                        self.phase = OpeningPhase::Failed;
                        Err(e)
                    },
                }
            },
            _ => {
                self.phase = OpeningPhase::Failed;
                Err(ProtocolError::Mismatch)
            },
        }
    }
}

/// Where a dump stands once the opening has run.
#[derive(Debug, Clone, Copy, PartialEq, Eq, Structural)]
pub enum DumpPhase {
    Opening,
    /// Dump bytes are read one at a time.
    Payload,
    /// The end marker is to be read.
    AwaitEnd,
    Done,
    Failed,
}

/// A memory dump: handshake, `UPLDMEM` with the start and end addresses as
/// the operator wrote them, then the payload, its checksum byte and the end
/// marker.
pub struct DumpSession {
    pub opening: Opening,
    pub phase: DumpPhase,
    pub receiver: DumpReceiver,
}

impl DumpSession {
    pub open spec fn wf(&self) -> bool {
        &&& self.opening.wf()
        &&& self.receiver.wf()
        &&& (self.phase == DumpPhase::Opening ==> self.opening.running()
            && self.receiver.wire().len() == 0)
        &&& (self.phase == DumpPhase::Payload ==> !self.receiver.done())
        &&& (self.phase == DumpPhase::AwaitEnd || self.phase == DumpPhase::Done
            ==> self.receiver.done())
    }

    /// Still running: neither done nor failed.
    pub open spec fn running(&self) -> bool {
        self.phase != DumpPhase::Done && self.phase != DumpPhase::Failed
    }

    /// A dump of `range` in `encoding`; `start_text` and `end_text` are the
    /// addresses as the operator wrote them, sent to the device unchanged.
    pub fn new(encoding: Encoding, range: &MemoryRange, start_text: &[u8], end_text: &[u8]) -> (r:
        DumpSession)
        requires
            range.wf(),
        ensures
            r.wf(),
            r.phase == DumpPhase::Opening,
            r.opening.phase == OpeningPhase::Idle,
            r.opening.messages() == seq![dump_command_bytes(), start_text@, end_text@],
            r.receiver.wire() == Seq::<u8>::empty(),
            r.receiver.length() == range.end - range.start,
            r.receiver.encoding() == encoding,
    {
        let mut messages: Vec<Vec<u8>> = Vec::new();
        messages.push(dump_command());
        messages.push(copy_bytes(start_text));
        messages.push(copy_bytes(end_text));
        let opening = Opening::new(messages);
        assert(opening.messages() =~= seq![dump_command_bytes(), start_text@, end_text@]);
        DumpSession { opening, phase: DumpPhase::Opening, receiver: DumpReceiver::new(encoding, range) }
    }

    /// Advances the dump by one step. Every payload byte is handed in alone;
    /// once the checksum byte has come the end marker is read.
    pub fn next(&mut self, input: &[u8]) -> (r: Result<Step, ProtocolError>)
        requires
            old(self).wf(),
            old(self).running(),
        ensures
            final(self).wf(),
            final(self).receiver.length() == old(self).receiver.length(),
            final(self).receiver.encoding() == old(self).receiver.encoding(),
            r is Err <==> final(self).phase == DumpPhase::Failed,
            old(self).phase == DumpPhase::Opening ==> if final(self).opening.phase
                == OpeningPhase::Started {
                &&& old(self).opening.phase == OpeningPhase::AwaitStart
                &&& input@ == start_marker_bytes()
                &&& final(self).phase == DumpPhase::Payload
                &&& is_receive_exact(r, 1)
                &&& final(self).receiver == old(self).receiver
            } else {
                &&& opening_step(old(self).opening, final(self).opening, input@, r)
                &&& final(self).receiver == old(self).receiver
                &&& (r is Ok ==> final(self).phase == DumpPhase::Opening)
            },
            old(self).phase == DumpPhase::Payload ==> if input@.len() == 1 {
                &&& final(self).receiver.wire() == old(self).receiver.wire().push(input@[0])
                &&& if final(self).receiver.done() {
                    final(self).phase == DumpPhase::AwaitEnd && is_receive_exact(r, 7)
                } else {
                    final(self).phase == DumpPhase::Payload && is_receive_exact(r, 1)
                }
            } else {
                r == Err::<Step, ProtocolError>(ProtocolError::Mismatch)
            },
            old(self).phase == DumpPhase::AwaitEnd ==> final(self).receiver == old(self).receiver
                && if input@ == end_marker_bytes() {
                final(self).phase == DumpPhase::Done && r is Ok && r->Ok_0 is Finish
            } else {
                r == Err::<Step, ProtocolError>(ProtocolError::Mismatch)
            },
    {
        match self.phase {
            DumpPhase::Opening => {
                let r = self.opening.next(input);
                match r {
                    Ok(Step::Finish) => {
                        self.phase = DumpPhase::Payload;
                        Ok(Step::ReceiveExact(1))
                    },
                    Ok(step) => Ok(step),
                    Err(e) => {
                        self.phase = DumpPhase::Failed;
                        Err(e)
                    },
                }
            },
            DumpPhase::Payload => {
                if input.len() != 1 {
                    self.phase = DumpPhase::Failed;
                    return Err(ProtocolError::Mismatch);
                }
                if self.receiver.accept(input[0]) {
                    self.phase = DumpPhase::AwaitEnd;
                    Ok(Step::ReceiveExact(7))
                } else {
                    Ok(Step::ReceiveExact(1))
                }
            },
            DumpPhase::AwaitEnd => {
                match check_end(input) {
                    Ok(()) => {
                        self.phase = DumpPhase::Done;
                        Ok(Step::Finish)
                    },
                    Err(e) => {
                        self.phase = DumpPhase::Failed;
                        Err(e)
                    },
                }
            },
            _ => {
                self.phase = DumpPhase::Failed;
                Err(ProtocolError::Mismatch)
            },
        }
    }
}

/// Where an upload stands once the opening has run.
#[derive(Debug, Clone, Copy, PartialEq, Eq, Structural)]
pub enum BootPhase {
    Opening,
    /// The next file byte is to be written.
    Upload,
    /// The device echoes the byte just written; it is to be read.
    EchoDue,
    AwaitEcho,
    /// The end marker is to be read.
    AwaitEnd,
    /// The uploaded binary runs; every byte read is console output. This
    /// phase has no end: the operator stops the program.
    Console,
    Failed,
}

/// An upload that the device then boots: handshake, `BOOTFILE` with the size,
/// the file one byte at a time with echo checks, the end marker, then the
/// console output of the booted binary.
pub struct BootSession {
    pub opening: Opening,
    pub phase: BootPhase,
    pub file: Vec<u8>,
    pub sender: UploadSender,
    /// The number of file bytes written.
    pub sent: usize,
}

impl BootSession {
    pub open spec fn wf(&self) -> bool {
        &&& self.opening.wf()
        &&& self.sender.wf()
        &&& self.sent <= self.file@.len()
        &&& self.sender@.0 == self.file@.len()
        &&& self.sender@.1 == self.file@.len() - self.sent
        &&& (self.phase == BootPhase::Opening ==> self.opening.running() && self.sent == 0)
        &&& (self.phase == BootPhase::EchoDue || self.phase == BootPhase::AwaitEcho
            ==> self.sent > 0)
        &&& (self.phase == BootPhase::AwaitEnd || self.phase == BootPhase::Console
            ==> self.sent == self.file@.len())
    }

    /// An upload of `file`.
    pub fn new(file: Vec<u8>) -> (r: BootSession)
        ensures
            r.wf(),
            r.phase == BootPhase::Opening,
            r.opening.phase == OpeningPhase::Idle,
            r.opening.messages() == seq![
                boot_command_bytes(),
                seq![0x30u8, 0x78] + hex_digits(file@.len()),
            ],
            r.file@ == file@,
            r.sender@ == (file@.len(), file@.len(), 0nat),
            r.sent == 0,
    {
        let size = file.len() as u64;
        let mut messages: Vec<Vec<u8>> = Vec::new();
        messages.push(boot_command());
        messages.push(size_text(size));
        let opening = Opening::new(messages);
        assert(opening.messages() =~= seq![
            boot_command_bytes(),
            seq![0x30u8, 0x78] + hex_digits(file@.len()),
        ]);
        BootSession { opening, phase: BootPhase::Opening, file, sender: UploadSender::new(size), sent: 0 }
    }

    /// Writes the next file byte, or asks for the end marker once every byte
    /// is written.
    fn upload_step(&mut self) -> (r: Result<Step, ProtocolError>)
        requires
            old(self).wf(),
            old(self).phase != BootPhase::Opening,
            old(self).phase != BootPhase::AwaitEnd,
            old(self).phase != BootPhase::Console,
        ensures
            final(self).wf(),
            final(self).opening == old(self).opening,
            final(self).file == old(self).file,
            upload_moves(*old(self), *final(self), r),
    {
        if self.sent == self.file.len() {
            self.phase = BootPhase::AwaitEnd;
            return Ok(Step::ReceiveExact(7));
        }
        let b = self.file[self.sent];
        let echo = self.sender.sent_byte();
        self.sent = self.sent + 1;
        self.phase = if echo {
            BootPhase::EchoDue
        } else {
            BootPhase::Upload
        };
        let mut out: Vec<u8> = Vec::new();
        out.push(b);
        Ok(Step::Send(out))
    }

    /// Advances the upload by one step. A byte is echoed, and checked, when
    /// the bytes left before it are a multiple of 256. In the console phase
    /// the bytes handed in are the device's output; reading goes on for ever.
    pub fn next(&mut self, input: &[u8]) -> (r: Result<Step, ProtocolError>)
        requires
            old(self).wf(),
            old(self).phase != BootPhase::Failed,
        ensures
            final(self).wf(),
            final(self).file == old(self).file,
            r is Err <==> final(self).phase == BootPhase::Failed,
            old(self).phase == BootPhase::Opening ==> if final(self).opening.phase
                == OpeningPhase::Started {
                &&& old(self).opening.phase == OpeningPhase::AwaitStart
                &&& input@ == start_marker_bytes()
                &&& upload_moves(*old(self), *final(self), r)
            } else {
                &&& opening_step(old(self).opening, final(self).opening, input@, r)
                &&& final(self).sent == 0
                &&& final(self).sender == old(self).sender
                &&& (r is Ok ==> final(self).phase == BootPhase::Opening)
            },
            old(self).phase == BootPhase::Upload ==> upload_moves(*old(self), *final(self), r),
            old(self).phase == BootPhase::EchoDue ==> final(self).phase == BootPhase::AwaitEcho
                && is_receive_exact(r, 1) && final(self).sent == old(self).sent,
            old(self).phase == BootPhase::AwaitEcho ==> if input@ == seq![
                old(self).file@[old(self).sent - 1],
            ] {
                upload_moves(*old(self), *final(self), r)
            } else {
                final(self).phase == BootPhase::Failed && (input@.len() == 1 ==> r == Err::<
                    Step,
                    ProtocolError,
                >(
                    ProtocolError::EchoMismatch {
                        sent: old(self).file@[old(self).sent - 1],
                        echoed: input@[0],
                    },
                ))
            },
            old(self).phase == BootPhase::AwaitEnd ==> if input@ == end_marker_bytes() {
                final(self).phase == BootPhase::Console && is_receive_exact(r, 1)
            } else {
                r == Err::<Step, ProtocolError>(ProtocolError::Mismatch)
            },
            old(self).phase == BootPhase::Console ==> final(self).phase == BootPhase::Console
                && is_receive_exact(r, 1),
    {
        match self.phase {
            BootPhase::Opening => {
                let r = self.opening.next(input);
                match r {
                    Ok(Step::Finish) => {
                        self.phase = BootPhase::Upload;
                        self.upload_step()
                    },
                    Ok(step) => Ok(step),
                    Err(e) => {
                        self.phase = BootPhase::Failed;
                        Err(e)
                    },
                }
            },
            BootPhase::Upload => self.upload_step(),
            BootPhase::EchoDue => {
                self.phase = BootPhase::AwaitEcho;
                Ok(Step::ReceiveExact(1))
            },
            BootPhase::AwaitEcho => {
                if input.len() != 1 {
                    self.phase = BootPhase::Failed;
                    return Err(ProtocolError::Mismatch);
                }
                match check_echo(self.file[self.sent - 1], input[0]) {
                    Ok(()) => {
                        assert(input@ =~= seq![self.file@[self.sent - 1]]);
                        self.upload_step()
                    },
                    Err(e) => {
                        self.phase = BootPhase::Failed;
                        Err(e)
                    },
                }
            },
            BootPhase::AwaitEnd => {
                match check_end(input) {
                    Ok(()) => {
                        self.phase = BootPhase::Console;
                        Ok(Step::ReceiveExact(1))
                    },
                    Err(e) => {
                        self.phase = BootPhase::Failed;
                        Err(e)
                    },
                }
            },
            BootPhase::Console => Ok(Step::ReceiveExact(1)),
            BootPhase::Failed => {
                Err(ProtocolError::Mismatch)
            },
        }
    }
}

/// One move of the byte stream of an upload from `o` to `n`, giving `r`:
/// the next file byte is written, and an echo is due when the bytes left
/// before it are a multiple of 256; after the last byte the end marker is
/// read.
pub open spec fn upload_moves(o: BootSession, n: BootSession, r: Result<Step, ProtocolError>) -> bool {
    if o.sent == o.file@.len() {
        &&& n.phase == BootPhase::AwaitEnd
        &&& n.sent == o.sent
        &&& n.sender == o.sender
        &&& is_receive_exact(r, 7)
    } else {
        &&& is_send(r, seq![o.file@[o.sent as int]])
        &&& n.sent == o.sent + 1
        &&& n.sender@.2 == o.sender@.2 + if (o.file@.len() - o.sent) % 256 == 0 {
            1nat
        } else {
            0nat
        }
        &&& n.phase == if (o.file@.len() - o.sent) % 256 == 0 {
            BootPhase::EchoDue
        } else {
            BootPhase::Upload
        }
    }
}

} // verus!
