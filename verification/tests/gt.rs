use gototerm::gt::{decode_base64, parse_gt_message, GtFileAssembler, GtMessage, GT_FILE_MAX_BYTES};
use gototerm::watcher::ChangeKind;

#[test]
fn base64_decodes_standard_padded_values() {
    assert_eq!(decode_base64("Zg=="), Some(b"f".to_vec()));
    assert_eq!(decode_base64("Zm8="), Some(b"fo".to_vec()));
    assert_eq!(decode_base64("Zm9v"), Some(b"foo".to_vec()));
}

#[test]
fn base64_rejects_invalid_values() {
    assert_eq!(decode_base64("Zg"), None);
    assert_eq!(decode_base64("Z==="), None);
    assert_eq!(decode_base64("Zg=A"), None);
    assert_eq!(decode_base64("Zm$="), None);
}

#[test]
fn base64_rejects_bits_that_nothing_encodes() {
    assert_eq!(decode_base64(""), None);
    assert_eq!(decode_base64("Zh=="), None);
}

#[test]
fn parses_event_with_tool() {
    match parse_gt_message("event;kind=mod;path=c3JjL21haW4ucnM=;tool=RWRpdA==") {
        Some(GtMessage::Event { kind, path, tool }) => {
            assert_eq!(kind, ChangeKind::Modified);
            assert_eq!(path, "src/main.rs");
            assert_eq!(tool, Some("Edit".to_owned()));
        }
        other => panic!("{other:?}"),
    }
}

#[test]
fn parse_rejects_missing_key_unknown_type_and_huge_seq() {
    assert!(parse_gt_message("event;kind=mod").is_none());
    assert!(parse_gt_message("wat;kind=mod;path=YQ==").is_none());
    assert!(parse_gt_message("file;path=YQ==;seq=4294967296;last=1;data=Yg==").is_none());
}

#[test]
fn parses_file_chunk() {
    match parse_gt_message("file;path=YS50eHQ=;seq=0;last=1;data=aGVsbG8=") {
        Some(GtMessage::FileChunk { path, seq, last, data }) => {
            assert_eq!(path, "a.txt");
            assert_eq!(seq, 0);
            assert!(last);
            assert_eq!(data, b"hello".to_vec());
        }
        other => panic!("{other:?}"),
    }
}

#[test]
fn a_path_must_be_text() {
    // The byte 0xff alone is no text.
    assert!(parse_gt_message("event;kind=new;path=/w==").is_none());
}

#[test]
fn assembler_completes_two_chunks() {
    let mut a = GtFileAssembler::default();
    assert_eq!(a.push("a.txt".to_owned(), 0, false, b"he".to_vec()), None);
    assert_eq!(
        a.push("a.txt".to_owned(), 1, true, b"llo".to_vec()),
        Some(("a.txt".to_owned(), b"hello".to_vec()))
    );
}

#[test]
fn assembler_drops_seq_gap() {
    let mut a = GtFileAssembler::default();
    assert_eq!(a.push("a.txt".to_owned(), 0, false, b"a".to_vec()), None);
    assert_eq!(a.push("a.txt".to_owned(), 2, true, b"b".to_vec()), None);
}

#[test]
fn assembler_drops_interrupted_file() {
    let mut a = GtFileAssembler::default();
    assert_eq!(a.push("a.txt".to_owned(), 0, false, b"a".to_vec()), None);
    assert_eq!(a.push("b.txt".to_owned(), 1, true, b"b".to_vec()), None);
}

#[test]
fn assembler_drops_oversized_transfer() {
    let mut a = GtFileAssembler::default();
    assert_eq!(
        a.push("a.txt".to_owned(), 0, true, vec![b'x'; GT_FILE_MAX_BYTES + 1]),
        None
    );
}

#[test]
fn assembler_takes_the_largest_transfer() {
    let mut a = GtFileAssembler::default();
    let got = a.push("a.txt".to_owned(), 0, true, vec![b'x'; GT_FILE_MAX_BYTES]);
    assert_eq!(got.map(|(_, d)| d.len()), Some(GT_FILE_MAX_BYTES));
}
