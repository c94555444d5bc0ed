use intranet_share::transfer::chunk::{calc_hex, check_chunk, make_chunk, to_hex};
use intranet_share::transfer::codec::{frame_message, LineBuffer};
use intranet_share::transfer::models::{
    FileMetadata, MessageTransHandle, ReqTransferData, SessionMessage, TransferDecision,
};
use intranet_share::transfer::receiver::{decision_from_answer, ReceiverAction, ReceiverSession};
use intranet_share::transfer::sender::{files_after_decision, sending_name, transfer_request, FileSendState, SendStep};

#[test]
fn frame_appends_one_newline() {
    assert_eq!(frame_message(b"{\"a\":1}"), b"{\"a\":1}\n".to_vec());
    assert_eq!(frame_message(b""), b"\n".to_vec());
}

#[test]
fn line_buffer_reads_frames_back_in_order() {
    let mut stream = frame_message(b"\"Accept\"");
    stream.extend(frame_message(b"\"EndSession\""));
    stream.extend_from_slice(b"tail");
    let mut buf = LineBuffer::new();
    // feed in odd-sized pieces
    for piece in stream.chunks(3) {
        buf.feed(piece);
    }
    assert_eq!(buf.pop_line(), Some(b"\"Accept\"\n".to_vec()));
    assert_eq!(buf.pop_line(), Some(b"\"EndSession\"\n".to_vec()));
    assert_eq!(buf.pop_line(), None);
    assert_eq!(buf.finish(), Some(b"tail".to_vec()));
    assert_eq!(buf.finish(), None);
}

#[test]
fn line_buffer_waits_for_newline() {
    let mut buf = LineBuffer::new();
    buf.feed(b"abc");
    assert_eq!(buf.pop_line(), None);
    buf.feed(b"d\nef");
    assert_eq!(buf.pop_line(), Some(b"abcd\n".to_vec()));
    assert_eq!(buf.pop_line(), None);
    buf.feed(b"\n");
    assert_eq!(buf.pop_line(), Some(b"ef\n".to_vec()));
}

#[test]
fn hex_is_lower_case_two_digits_per_byte() {
    assert_eq!(to_hex(&[0x00, 0x0f, 0xa5, 0xff]), "000fa5ff");
    assert_eq!(to_hex(&[]), "");
}

#[test]
fn calc_hex_of_empty_input_is_the_known_blake3_digest() {
    assert_eq!(
        calc_hex(b""),
        "af1349b9f5f9a1a6a0404dea36dcc9499bcb25c9adc112b7cc9a93cae41f3262"
    );
}

#[test]
fn calc_hex_agrees_with_blake3() {
    let data = b"some file content";
    assert_eq!(calc_hex(data), blake3::hash(data).to_hex().to_string());
    assert_ne!(calc_hex(b"a"), calc_hex(b"b"));
}

#[test]
fn chunk_round_trip() {
    let m = make_chunk("a.txt".to_string(), b"hello".to_vec(), 12, 7);
    assert_eq!(m.filename, "a.txt");
    assert_eq!(m.buf, b"hello".to_vec());
    assert_eq!(m.total_len, 12);
    assert_eq!(m.trans_len, 12);
    assert_eq!(m.current_len, 5);
    assert_eq!(m.hash, calc_hex(b"hello"));
    assert_eq!(check_chunk(&m).unwrap(), b"hello".to_vec());
}

#[test]
fn tampered_chunk_is_refused() {
    let mut m = make_chunk("a.txt".to_string(), b"hello".to_vec(), 5, 0);
    m.buf[0] = b'j';
    let e = check_chunk(&m).unwrap_err();
    assert_eq!(e.to_string(), "hash not match");
}

#[test]
fn check_uses_only_the_payload() {
    let mut m = make_chunk("a".to_string(), b"abc".to_vec(), 3, 0);
    m.buf.extend_from_slice(b"garbage");
    assert_eq!(check_chunk(&m).unwrap(), b"abc".to_vec());
}

#[test]
fn answer_maps_to_decision() {
    assert_eq!(decision_from_answer(Some(true)), TransferDecision::Accept);
    assert_eq!(decision_from_answer(Some(false)), TransferDecision::Reject);
    assert_eq!(decision_from_answer(None), TransferDecision::Reject);
}

#[test]
fn receiver_session_asks_stores_and_closes() {
    let mut s = ReceiverSession::new("10.0.0.2:5000".to_string());
    let reqs = vec![ReqTransferData { filename: "a.txt".to_string() }];
    match s.step::<()>(SessionMessage::ReqTransfer(reqs)) {
        ReceiverAction::Ask { reqs } => assert_eq!(reqs[0].filename, "a.txt"),
        _ => panic!("expected Ask"),
    }
    let c1 = make_chunk("a.txt".to_string(), b"hel".to_vec(), 5, 0);
    match s.step::<()>(SessionMessage::BeginFile(c1)) {
        ReceiverAction::Store { open_file, data, report } => {
            assert_eq!(open_file, Some("a.txt".to_string()));
            assert_eq!(data, b"hel".to_vec());
            match report {
                MessageTransHandle::ReceiverFile { from, file_name, total_len, trans_len } => {
                    assert_eq!(from, "10.0.0.2:5000");
                    assert_eq!(file_name, "a.txt");
                    assert_eq!((total_len, trans_len), (5, 3));
                }
                _ => panic!("expected ReceiverFile"),
            }
        }
        _ => panic!("expected Store"),
    }
    let c2 = make_chunk("a.txt".to_string(), b"lo".to_vec(), 5, 3);
    match s.step::<()>(SessionMessage::BeginFile(c2)) {
        ReceiverAction::Store { open_file, data, .. } => {
            assert_eq!(open_file, None);
            assert_eq!(data, b"lo".to_vec());
        }
        _ => panic!("expected Store"),
    }
    match s.step::<()>(SessionMessage::EndSession) {
        ReceiverAction::Close { close_file } => assert!(close_file),
        _ => panic!("expected Close"),
    }
    assert!(s.finished);
}

#[test]
fn receiver_refuses_bad_chunk_after_opening() {
    let mut s = ReceiverSession::new("p".to_string());
    let mut c = make_chunk("x.bin".to_string(), b"data".to_vec(), 4, 0);
    c.hash = "00".to_string();
    match s.step::<()>(SessionMessage::BeginFile(c)) {
        ReceiverAction::Refuse { open_file, error } => {
            assert_eq!(open_file, Some("x.bin".to_string()));
            assert_eq!(error.to_string(), "hash not match");
        }
        _ => panic!("expected Refuse"),
    }
    assert!(s.finished);
}

#[test]
fn receiver_stops_on_decision_message() {
    let mut s = ReceiverSession::new("p".to_string());
    assert!(matches!(
        s.step::<()>(SessionMessage::FileDecision { decision: true }),
        ReceiverAction::Stop
    ));
    assert!(s.finished);
    let mut t = ReceiverSession::new("p".to_string());
    match t.step::<()>(SessionMessage::EndSession) {
        ReceiverAction::Close { close_file } => assert!(!close_file),
        _ => panic!("expected Close"),
    }
}

#[test]
fn request_lists_named_files_only() {
    let paths = vec![
        "/home/u/a.txt".to_string(),
        "/".to_string(),
        "docs/b.pdf".to_string(),
        "x/..".to_string(),
    ];
    let reqs = transfer_request(&paths);
    let names: Vec<String> = reqs.into_iter().map(|r| r.filename).collect();
    assert_eq!(names, vec!["a.txt".to_string(), "b.pdf".to_string()]);
}

#[test]
fn sending_name_of_path_without_name_is_an_error() {
    assert_eq!(sending_name(&"dir/file.bin".to_string()).unwrap(), "file.bin");
    let e = sending_name(&"/".to_string()).unwrap_err();
    assert_eq!(e.to_string(), "Invalid filename");
}

#[test]
fn file_send_state_counts_bytes_and_finishes() {
    let mut st = FileSendState::new("1.2.3.4:9".to_string(), "f".to_string(), 5);
    match st.on_read::<()>(Some(b"abc".to_vec())) {
        SendStep::Chunk { message, report } => {
            match message {
                SessionMessage::BeginFile(m) => {
                    assert_eq!((m.trans_len, m.current_len, m.total_len), (3, 3, 5));
                    assert_eq!(m.hash, calc_hex(b"abc"));
                }
                _ => panic!("expected BeginFile"),
            }
            match report {
                MessageTransHandle::SendFile { to, file_name, total_len, trans_len } => {
                    assert_eq!((to.as_str(), file_name.as_str()), ("1.2.3.4:9", "f"));
                    assert_eq!((total_len, trans_len), (5, 3));
                }
                _ => panic!("expected SendFile"),
            }
        }
        _ => panic!("expected Chunk"),
    }
    assert!(matches!(st.on_read::<()>(Some(b"de".to_vec())), SendStep::Chunk { .. }));
    assert_eq!(st.sent, 5);
    match st.on_read::<()>(Some(Vec::new())) {
        SendStep::Finish { message } => assert!(matches!(message, SessionMessage::EndSession)),
        _ => panic!("expected Finish"),
    }
    assert!(matches!(st.on_read::<()>(None), SendStep::Finish { .. }));
    assert_eq!(st.sent, 5);
}

#[test]
fn chunk_metadata_fields_are_plain_values() {
    let m = FileMetadata {
        filename: "n".to_string(),
        buf: vec![1, 2, 3],
        hash: calc_hex(&[1, 2]),
        total_len: 2,
        trans_len: 2,
        current_len: 2,
    };
    assert_eq!(check_chunk(&m).unwrap(), vec![1, 2]);
}

#[test]
fn digest_text_is_sixty_four_digits() {
    assert_eq!(calc_hex(b"").len(), 64);
    assert_eq!(calc_hex(&[1, 2]).len(), 64);
    let m = FileMetadata {
        filename: "a.bin".to_string(),
        buf: vec![1, 2],
        hash: "00".to_string(),
        total_len: 2,
        trans_len: 2,
        current_len: 2,
    };
    assert_eq!(check_chunk(&m).unwrap_err().to_string(), "hash not match");
}

#[test]
fn files_follow_the_decision() {
    let paths = vec!["a".to_string(), "b".to_string()];
    assert_eq!(files_after_decision(TransferDecision::Accept, paths.clone()), paths);
    assert!(files_after_decision(TransferDecision::Reject, paths).is_empty());
}
