use triton_mock::archive::ArchiveError;
use triton_mock::codec::{pack_archive, unpack_archive};

#[test]
fn packed_archive_is_gzip_and_unpacks() {
    let doc = br#"{"model_map":{}}"#.to_vec();
    let packed = pack_archive(&doc);
    assert_ne!(packed, doc);
    assert_eq!(&packed[..2], &[0x1f, 0x8b]);
    assert_eq!(unpack_archive(&packed), Ok(doc));
}

#[test]
fn empty_document_round_trips() {
    let packed = pack_archive(&[]);
    assert!(!packed.is_empty());
    assert_eq!(unpack_archive(&packed), Ok(Vec::new()));
}

#[test]
fn garbage_archive_is_corrupt() {
    assert_eq!(unpack_archive(b"not a gzip stream"), Err(ArchiveError::Corrupt));
}
