//! The USB protocol of Download Mode: a hello exchange, then a session that is
//! opened and closed with fixed-size command packets.
use crate::framing::{
    check_marker, ends_with, le_bytes, pad_packet, padded, push_le_u32, ProtocolError, Step, is_send, is_receive, is_receive_exact,
};
use vstd::prelude::*;

verus! {

/// Size of every command packet and of every acknowledgement.
pub const PACKET_SIZE: usize = 1024;

/// Timeout of every bulk transfer, in milliseconds.
pub const TIMEOUT_MS: u64 = 1000;

/// Command that opens a session.
pub const OPEN_SESSION: u32 = 0x64;

/// Command that closes a session.
pub const CLOSE_SESSION: u32 = 0x67;

/// `ODIN` in ASCII.
pub open spec fn hello_request_bytes() -> Seq<u8> {
    seq![0x4fu8, 0x44, 0x49, 0x4e]
}

/// `LOKE` in ASCII.
pub open spec fn hello_answer_bytes() -> Seq<u8> {
    seq![0x4cu8, 0x4f, 0x4b, 0x45]
}

/// The packet of a command: its id and its parameter, both little-endian,
/// then zero bytes up to the packet size.
pub open spec fn command_packet_bytes(command: u32, parameter: u32) -> Seq<u8> {
    padded(le_bytes(command) + le_bytes(parameter), PACKET_SIZE as nat)
}

/// `ODIN`, the hello request.
pub fn hello_request() -> (r: Vec<u8>)
    ensures
        r@ == hello_request_bytes(),
{
    let r = vec![0x4fu8, 0x44, 0x49, 0x4e];
    assert(r@ =~= hello_request_bytes());
    r
}

/// Accepts the hello answer: the bytes read must end with `LOKE`.
pub fn check_hello(response: &[u8]) -> (r: Result<(), ProtocolError>)
    ensures
        r is Ok <==> ends_with(response@, hello_answer_bytes()),
        r is Err ==> r == Err::<(), ProtocolError>(ProtocolError::Mismatch),
{
    let marker = [0x4cu8, 0x4f, 0x4b, 0x45];
    assert(marker@ =~= hello_answer_bytes());
    check_marker(response, &marker)
}

/// The packet that carries `command` with `parameter`.
pub fn command_packet(command: u32, parameter: u32) -> (r: Vec<u8>)
    ensures
        r@ == command_packet_bytes(command, parameter),
        r@.len() == PACKET_SIZE,
{
    let mut head: Vec<u8> = Vec::new();
    push_le_u32(&mut head, command);
    push_le_u32(&mut head, parameter);
    assert(head@ =~= le_bytes(command) + le_bytes(parameter));
    pad_packet(head.as_slice(), PACKET_SIZE).unwrap()
}

/// The packet that opens a session.
pub fn open_session_packet() -> (r: Vec<u8>)
    ensures
        r@ == command_packet_bytes(OPEN_SESSION, 0),
{
    command_packet(OPEN_SESSION, 0)
}

/// The packet that closes the session; with `reboot` the device reboots as
/// it closes it.
pub fn close_session_packet(reboot: bool) -> (r: Vec<u8>)
    ensures
        r@ == command_packet_bytes(CLOSE_SESSION, if reboot { 1 } else { 0 }),
{
    command_packet(CLOSE_SESSION, if reboot { 1 } else { 0 })
}

/// Where a Download Mode session stands. Each `...Sent` phase waits for the
/// driver to have written a message, each `Await...` phase for the answer.
#[derive(Debug, Clone, Copy, PartialEq, Eq, Structural)]
pub enum DownloadPhase {
    Idle,
    HelloSent,
    AwaitHello,
    OpenSent,
    AwaitOpenAck,
    CloseSent,
    AwaitCloseAck,
    Closed,
    Failed,
}

/// The decisions of a Download Mode session: hello, open the session, close
/// it (rebooting the device where asked). The driver performs each returned
/// step and calls `next` again with what it read (nothing after a write).
pub struct DownloadSession {
    pub phase: DownloadPhase,
    pub reboot: bool,
}

impl DownloadSession {
    pub fn new(reboot: bool) -> (r: DownloadSession)
        ensures
            r.phase == DownloadPhase::Idle,
            r.reboot == reboot,
    {
        DownloadSession { phase: DownloadPhase::Idle, reboot }
    }

    /// The session has ended, in success or failure.
    pub open spec fn ended(&self) -> bool {
        self.phase == DownloadPhase::Closed || self.phase == DownloadPhase::Failed
    }

    /// Advances the session by one step. A wrong hello answer fails the
    /// session before any session command is sent; an acknowledgement of
    /// another size than a packet fails it too. Acknowledgement contents are
    /// not looked at.
    pub fn next(&mut self, input: &[u8]) -> (r: Result<Step, ProtocolError>)
        requires
            !old(self).ended(),
        ensures
            final(self).reboot == old(self).reboot,
            r is Err <==> final(self).phase == DownloadPhase::Failed,
            r is Err ==> r == Err::<Step, ProtocolError>(ProtocolError::Mismatch),
            old(self).phase == DownloadPhase::Idle ==> final(self).phase == DownloadPhase::HelloSent
                && is_send(r, hello_request_bytes()),
            old(self).phase == DownloadPhase::HelloSent ==> final(self).phase
                == DownloadPhase::AwaitHello && is_receive(r, PACKET_SIZE as nat),
            old(self).phase == DownloadPhase::AwaitHello ==> if ends_with(
                input@,
                hello_answer_bytes(),
            ) {
                final(self).phase == DownloadPhase::OpenSent && is_send(
                    r,
                    command_packet_bytes(OPEN_SESSION, 0),
                )
            } else {
                final(self).phase == DownloadPhase::Failed
            },
            old(self).phase == DownloadPhase::OpenSent ==> final(self).phase
                == DownloadPhase::AwaitOpenAck && is_receive_exact(r, PACKET_SIZE as nat),
            old(self).phase == DownloadPhase::AwaitOpenAck ==> if input@.len() == PACKET_SIZE {
                final(self).phase == DownloadPhase::CloseSent && is_send(
                    r,
                    command_packet_bytes(CLOSE_SESSION, if old(self).reboot { 1 } else { 0 }),
                )
            } else {
                final(self).phase == DownloadPhase::Failed
            },
            old(self).phase == DownloadPhase::CloseSent ==> final(self).phase
                == DownloadPhase::AwaitCloseAck && is_receive_exact(r, PACKET_SIZE as nat),
            old(self).phase == DownloadPhase::AwaitCloseAck ==> if input@.len() == PACKET_SIZE {
                final(self).phase == DownloadPhase::Closed && r is Ok && r->Ok_0 is Finish
            } else {
                final(self).phase == DownloadPhase::Failed
            },
    {
        match self.phase {
            DownloadPhase::Idle => {
                self.phase = DownloadPhase::HelloSent;
                Ok(Step::Send(hello_request()))
            },
            DownloadPhase::HelloSent => {
                self.phase = DownloadPhase::AwaitHello;
                Ok(Step::Receive(PACKET_SIZE))
            },
            DownloadPhase::AwaitHello => {
                match check_hello(input) {
                    Ok(()) => {
                        self.phase = DownloadPhase::OpenSent;
                        Ok(Step::Send(open_session_packet()))
                    },
                    Err(e) => {
                        self.phase = DownloadPhase::Failed;
                        Err(e)
                    },
                }
            },
            DownloadPhase::OpenSent => {
                self.phase = DownloadPhase::AwaitOpenAck;
                Ok(Step::ReceiveExact(PACKET_SIZE))
            },
            DownloadPhase::AwaitOpenAck => {
                if input.len() == PACKET_SIZE {
                    self.phase = DownloadPhase::CloseSent;
                    Ok(Step::Send(close_session_packet(self.reboot)))
                } else {
                    self.phase = DownloadPhase::Failed;
                    Err(ProtocolError::Mismatch)
                }
            },
            DownloadPhase::CloseSent => {
                self.phase = DownloadPhase::AwaitCloseAck;
                Ok(Step::ReceiveExact(PACKET_SIZE))
            },
            DownloadPhase::AwaitCloseAck => {
                if input.len() == PACKET_SIZE {
                    self.phase = DownloadPhase::Closed;
                    Ok(Step::Finish)
                } else {
                    self.phase = DownloadPhase::Failed;
                    Err(ProtocolError::Mismatch)
                }
            },
            _ => {
                self.phase = DownloadPhase::Failed;
                Err(ProtocolError::Mismatch)
            },
        }
    }
}

} // verus!
