use sbootil::download::{
    close_session_packet, command_packet, hello_request, open_session_packet, DownloadPhase,
    DownloadSession, PACKET_SIZE,
};
use sbootil::framing::{ProtocolError, Step};

/// Runs a session against a device that answers each read with the next of
/// `answers`; returns what was written and how the session ended.
fn run(reboot: bool, answers: Vec<Vec<u8>>) -> (Vec<Vec<u8>>, Result<(), ProtocolError>) {
    let mut session = DownloadSession::new(reboot);
    let mut answers = answers.into_iter();
    let mut written = Vec::new();
    let mut input: Vec<u8> = Vec::new();
    loop {
        match session.next(&input) {
            Ok(Step::Send(bytes)) => {
                written.push(bytes);
                input = Vec::new();
            }
            Ok(Step::Receive(n)) | Ok(Step::ReceiveExact(n)) => {
                let mut a = answers.next().unwrap_or_default();
                a.truncate(n);
                input = a;
            }
            Ok(Step::Pause) => input = Vec::new(),
            Ok(Step::Finish) => return (written, Ok(())),
            Err(e) => return (written, Err(e)),
        }
    }
}

#[test]
fn command_packets_have_the_documented_layout() {
    let open = open_session_packet();
    assert_eq!(open.len(), 1024);
    assert_eq!(&open[..8], &[0x64, 0, 0, 0, 0, 0, 0, 0]);
    assert!(open[8..].iter().all(|&b| b == 0));
    let close = close_session_packet(true);
    assert_eq!(close.len(), 1024);
    assert_eq!(&close[..8], &[0x67, 0, 0, 0, 1, 0, 0, 0]);
    assert!(close[8..].iter().all(|&b| b == 0));
    assert_eq!(&close_session_packet(false)[..8], &[0x67, 0, 0, 0, 0, 0, 0, 0]);
    assert_eq!(&command_packet(0x0403_0201, 0x0807_0605)[..8], &[1, 2, 3, 4, 5, 6, 7, 8]);
    assert_eq!(hello_request(), b"ODIN".to_vec());
}

#[test]
fn reboot_session_runs_to_the_end() {
    let (written, result) =
        run(true, vec![b"LOKE".to_vec(), vec![0; PACKET_SIZE], vec![0; PACKET_SIZE]]);
    assert_eq!(result, Ok(()));
    assert_eq!(written, vec![b"ODIN".to_vec(), open_session_packet(), close_session_packet(true)]);
}

#[test]
fn hello_answer_may_have_a_prefix() {
    let (_, result) =
        run(true, vec![b"xxLOKE".to_vec(), vec![7; PACKET_SIZE], vec![7; PACKET_SIZE]]);
    assert_eq!(result, Ok(()));
}

#[test]
fn wrong_hello_stops_before_any_session_command() {
    for answer in [b"LOKI".to_vec(), b"".to_vec(), b"LOK".to_vec(), b"LOKEx".to_vec()] {
        let (written, result) = run(true, vec![answer, vec![0; PACKET_SIZE]]);
        assert_eq!(result, Err(ProtocolError::Mismatch));
        assert_eq!(written, vec![b"ODIN".to_vec()]);
    }
}

#[test]
fn short_acknowledgement_is_fatal() {
    let (written, result) = run(true, vec![b"LOKE".to_vec(), vec![0; 10]]);
    assert_eq!(result, Err(ProtocolError::Mismatch));
    assert_eq!(written.len(), 2);
}

#[test]
fn phases_of_a_session() {
    let mut s = DownloadSession::new(false);
    assert_eq!(s.phase, DownloadPhase::Idle);
    assert!(matches!(s.next(&[]), Ok(Step::Send(_))));
    assert_eq!(s.phase, DownloadPhase::HelloSent);
    assert!(matches!(s.next(&[]), Ok(Step::Receive(1024))));
    assert!(matches!(s.next(b"LOKE"), Ok(Step::Send(_))));
    assert_eq!(s.phase, DownloadPhase::OpenSent);
}
