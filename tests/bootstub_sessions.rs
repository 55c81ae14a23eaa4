use sbootil::bootstub::{
    check_echo, check_end, check_hello, check_start, size_text, DumpReceiver, Encoding,
    MemoryRange, UploadSender,
};
use sbootil::framing::{ProtocolError, Step};
use sbootil::session::{BootPhase, BootSession, DumpPhase, DumpSession};

fn pack(bytes: &[u8]) -> Vec<u8> {
    let mut bits: Vec<bool> = Vec::new();
    for b in bytes {
        for k in (0..8).rev() {
            bits.push((b >> k) & 1 == 1);
        }
    }
    while bits.len() % 7 != 0 {
        bits.push(false);
    }
    bits.chunks(7)
        .map(|g| g.iter().fold(0u8, |acc, &bit| (acc << 1) | bit as u8))
        .collect()
}

fn payload16() -> Vec<u8> {
    vec![0xde, 0xad, 0xbe, 0xef, 0x00, 0x01, 0x7f, 0x80, 0xff, 0x10, 0x20, 0x30, 0x55, 0xaa, 0x42, 0x99]
}

fn xor(bytes: &[u8]) -> u8 {
    bytes.iter().fold(0, |a, b| a ^ b)
}

struct DumpRun {
    written: Vec<Vec<u8>>,
    pauses: usize,
    result: Result<(), ProtocolError>,
    session: DumpSession,
}

/// Drives a dump against a device that answers the handshake with `hello`
/// and then streams `stream`.
fn run_dump(encoding: Encoding, hello: &[u8], stream: &[u8]) -> DumpRun {
    let range = MemoryRange::new(0x1000, 0x1010).unwrap();
    let mut session = DumpSession::new(encoding, &range, b"0x1000", b"0x1010");
    let mut written = Vec::new();
    let mut pauses = 0;
    let mut pos = 0;
    let mut input: Vec<u8> = Vec::new();
    let result = loop {
        match session.next(&input) {
            Ok(Step::Send(b)) => {
                written.push(b);
                input = Vec::new();
            }
            Ok(Step::Pause) => {
                pauses += 1;
                input = Vec::new();
            }
            Ok(Step::Receive(n)) => {
                assert!(hello.len() <= n);
                input = hello.to_vec();
            }
            Ok(Step::ReceiveExact(n)) => {
                let end = (pos + n).min(stream.len());
                input = stream[pos..end].to_vec();
                pos = end;
            }
            Ok(Step::Finish) => break Ok(()),
            Err(e) => break Err(e),
        }
    };
    DumpRun { written, pauses, result, session }
}

fn framed(body: &[u8]) -> Vec<u8> {
    let mut s = b"STRTUPLD".to_vec();
    s.extend_from_slice(body);
    s.extend_from_slice(b"ENDUPLD");
    s
}

#[test]
fn dump_of_sixteen_bytes_with_good_checksum() {
    let p = payload16();
    let mut body = p.clone();
    body.push(xor(&p));
    let run = run_dump(Encoding::Raw, b"boot log...BOOTSTUB", &framed(&body));
    assert_eq!(run.result, Ok(()));
    assert_eq!(
        run.written,
        vec![b"WHOISDIS".to_vec(), b"UPLDMEM".to_vec(), b"0x1000".to_vec(), b"0x1010".to_vec()]
    );
    assert_eq!(run.pauses, 3);
    assert_eq!(run.session.phase, DumpPhase::Done);
    assert_eq!(run.session.receiver.payload(), &p);
    assert!(run.session.receiver.checksum_ok());
}

#[test]
fn dump_with_altered_checksum_keeps_the_payload() {
    let p = payload16();
    let mut body = p.clone();
    body.push(xor(&p) ^ 0x5a);
    let run = run_dump(Encoding::Raw, b"BOOTSTUB", &framed(&body));
    assert_eq!(run.result, Ok(()));
    assert_eq!(run.session.receiver.payload(), &p);
    assert!(!run.session.receiver.checksum_ok());
}

#[test]
fn packed_dump_of_sixteen_bytes() {
    let p = payload16();
    let mut body = p.clone();
    body.push(xor(&p));
    let run = run_dump(Encoding::Packed, b"BOOTSTUB", &framed(&pack(&body)));
    assert_eq!(run.result, Ok(()));
    assert_eq!(run.session.receiver.payload(), &p);
    assert!(run.session.receiver.checksum_ok());
}

#[test]
fn packed_dump_with_altered_checksum() {
    let p = payload16();
    let mut body = p.clone();
    body.push(xor(&p) ^ 1);
    let run = run_dump(Encoding::Packed, b"BOOTSTUB", &framed(&pack(&body)));
    assert_eq!(run.result, Ok(()));
    assert_eq!(run.session.receiver.payload(), &p);
    assert!(!run.session.receiver.checksum_ok());
}

#[test]
fn dump_without_bootstub_answer_sends_nothing_more() {
    for hello in [&b"BOOTSTUX"[..], b"", b"BOOTSTUBx", b"STUB"] {
        let run = run_dump(Encoding::Raw, hello, &framed(&[0; 17]));
        assert_eq!(run.result, Err(ProtocolError::Mismatch));
        assert_eq!(run.written, vec![b"WHOISDIS".to_vec()]);
    }
}

#[test]
fn dump_refused_by_device() {
    let mut stream = b"NOPENOPE".to_vec();
    stream.extend_from_slice(&[0; 24]);
    let run = run_dump(Encoding::Raw, b"BOOTSTUB", &stream);
    assert_eq!(run.result, Err(ProtocolError::Mismatch));
    assert_eq!(run.session.phase, DumpPhase::Failed);
}

#[test]
fn dump_without_end_marker_fails() {
    let p = payload16();
    let mut s = b"STRTUPLD".to_vec();
    s.extend_from_slice(&p);
    s.push(xor(&p));
    s.extend_from_slice(b"ENDUPLX");
    let run = run_dump(Encoding::Raw, b"BOOTSTUB", &s);
    assert_eq!(run.result, Err(ProtocolError::Mismatch));
    assert_eq!(run.session.receiver.payload(), &p);
}

#[test]
fn empty_range_reads_only_the_checksum_byte() {
    let range = MemoryRange::new(0x2000, 0x2000).unwrap();
    let mut r = DumpReceiver::new(Encoding::Raw, &range);
    assert!(!r.is_finished());
    assert!(r.accept(0));
    assert!(r.payload().is_empty());
    assert!(r.checksum_ok());
}

#[test]
fn range_that_ends_before_it_starts_is_refused() {
    assert_eq!(MemoryRange::new(0x1010, 0x1000), Err(ProtocolError::InvalidRange));
    assert_eq!(MemoryRange::new(0x1000, 0x1010).unwrap().len(), 16);
}

struct BootRun {
    written: Vec<Vec<u8>>,
    echoed_at: Vec<usize>,
    console: Vec<u8>,
    result: Result<(), ProtocolError>,
}

/// Drives an upload of `file` against a device that echoes each byte it is
/// asked to, except the one at `bad_echo` (an index into the file), and then
/// prints `console`.
fn run_boot(file: Vec<u8>, bad_echo: Option<usize>, console: &[u8]) -> BootRun {
    let mut session = BootSession::new(file);
    let mut written: Vec<Vec<u8>> = Vec::new();
    let mut echoed_at = Vec::new();
    let mut shown = Vec::new();
    let mut console_pos = 0;
    let mut input: Vec<u8> = Vec::new();
    let result = loop {
        if session.phase == BootPhase::Console {
            shown.extend_from_slice(&input);
        }
        match session.next(&input) {
            Ok(Step::Send(b)) => {
                written.push(b);
                input = Vec::new();
            }
            Ok(Step::Pause) => input = Vec::new(),
            Ok(Step::Receive(_)) => input = b"BOOTSTUB".to_vec(),
            Ok(Step::ReceiveExact(n)) => {
                input = match session.phase {
                    BootPhase::Opening => b"STRTUPLD".to_vec(),
                    BootPhase::AwaitEcho => {
                        let index = session.sent - 1;
                        echoed_at.push(index);
                        let b = session.file[index];
                        vec![if bad_echo == Some(index) { b ^ 0xff } else { b }]
                    }
                    BootPhase::AwaitEnd => b"ENDUPLD".to_vec(),
                    BootPhase::Console => {
                        if console_pos + n > console.len() {
                            break Ok(());
                        }
                        let b = console[console_pos..console_pos + n].to_vec();
                        console_pos += n;
                        b
                    }
                    _ => unreachable!(),
                }
            }
            Ok(Step::Finish) => unreachable!(),
            Err(e) => break Err(e),
        }
    };
    BootRun { written, echoed_at, console: shown, result }
}

#[test]
fn upload_of_512_bytes_has_two_echo_checks() {
    let file: Vec<u8> = (0..512u32).map(|i| (i * 7 % 251) as u8).collect();
    let run = run_boot(file.clone(), None, b"hi\n");
    assert_eq!(run.result, Ok(()));
    assert_eq!(run.echoed_at, vec![0, 256]);
    assert_eq!(run.written[0], b"WHOISDIS".to_vec());
    assert_eq!(run.written[1], b"BOOTFILE".to_vec());
    assert_eq!(run.written[2], b"0x200".to_vec());
    let sent: Vec<u8> = run.written[3..].iter().map(|w| {
        assert_eq!(w.len(), 1);
        w[0]
    }).collect();
    assert_eq!(sent, file);
    assert_eq!(run.console, b"hi\n".to_vec());
}

#[test]
fn wrong_echo_stops_the_upload() {
    let file: Vec<u8> = (0..512u32).map(|i| i as u8).collect();
    let run = run_boot(file, Some(256), b"");
    assert_eq!(
        run.result,
        Err(ProtocolError::EchoMismatch { sent: 0, echoed: 0xff })
    );
    assert_eq!(run.echoed_at, vec![0, 256]);
    assert_eq!(run.written.len(), 3 + 257);
}

#[test]
fn upload_of_300_bytes_echoes_once() {
    let run = run_boot(vec![0x11; 300], None, b"");
    assert_eq!(run.result, Ok(()));
    assert_eq!(run.echoed_at, vec![44]);
}

#[test]
fn upload_of_an_empty_file_sends_no_byte() {
    let run = run_boot(Vec::new(), None, b"ok");
    assert_eq!(run.result, Ok(()));
    assert_eq!(run.written, vec![b"WHOISDIS".to_vec(), b"BOOTFILE".to_vec(), b"0x0".to_vec()]);
    assert_eq!(run.console, b"ok".to_vec());
}

#[test]
fn sender_counts_down_and_asks_for_echoes() {
    let mut s = UploadSender::new(257);
    assert!(!s.sent_byte());
    assert!(s.sent_byte());
    let mut echoes = 0;
    while !s.is_done() {
        if s.sent_byte() {
            echoes += 1;
        }
    }
    assert_eq!(echoes, 0);
}

#[test]
fn size_is_written_in_lower_case_hex() {
    assert_eq!(size_text(512), b"0x200".to_vec());
    assert_eq!(size_text(0), b"0x0".to_vec());
    assert_eq!(size_text(0xabcdef), b"0xabcdef".to_vec());
    assert_eq!(size_text(u64::MAX), b"0xffffffffffffffff".to_vec());
    assert_eq!(size_text(512), format!("{:#x}", 512).into_bytes());
}

#[test]
fn marker_checks() {
    assert_eq!(check_hello(b"...BOOTSTUB"), Ok(()));
    assert_eq!(check_hello(b"BOOTSTUB\n"), Err(ProtocolError::Mismatch));
    assert_eq!(check_start(b"STRTUPLD"), Ok(()));
    assert_eq!(check_start(b"xSTRTUPLD"), Err(ProtocolError::Mismatch));
    assert_eq!(check_end(b"ENDUPLD"), Ok(()));
    assert_eq!(check_end(b"ENDUPL"), Err(ProtocolError::Mismatch));
    assert_eq!(check_echo(3, 3), Ok(()));
    assert_eq!(check_echo(3, 4), Err(ProtocolError::EchoMismatch { sent: 3, echoed: 4 }));
}
