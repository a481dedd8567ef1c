use borink::kv::{join_prefix_with_meta, prefix_range, read_meta, KvError};

#[test]
fn metadata_round_trip() {
    let meta = join_prefix_with_meta(&[0x42, 0x44, 0x52], b"search", Some(b"rest"));
    assert_eq!(meta, b"BDR\x06\x00searchrest".to_vec());
    let parts = read_meta(&meta).unwrap();
    assert_eq!(parts.prefix, [0x42, 0x44, 0x52]);
    assert_eq!(parts.search_bytes, b"search".to_vec());
    assert_eq!(parts.meta_bytes, b"rest".to_vec());

    let bare = join_prefix_with_meta(&[1, 2, 3], &[], None);
    assert_eq!(bare, vec![1, 2, 3, 0, 0]);
    let parts = read_meta(&bare).unwrap();
    assert!(parts.search_bytes.is_empty() && parts.meta_bytes.is_empty());

    let long = vec![7u8; 300];
    let meta = join_prefix_with_meta(&[0, 0, 0], &long, None);
    assert_eq!(&meta[3..5], &[44, 1]);
    assert_eq!(read_meta(&meta).unwrap().search_bytes, long);
}

#[test]
fn invalid_metadata() {
    match read_meta(&[1, 2, 3, 4]) {
        Err(KvError::InvalidMetadata(c)) => assert_eq!(
            *c.0,
            "Meta should be at least 5 bytes due to prefix and search byte length!"
        ),
        _ => panic!("too short"),
    }
    match read_meta(&[1, 2, 3, 4, 0, 9]) {
        Err(KvError::InvalidMetadata(c)) => {
            assert_eq!(*c.0, "Metadata is not at least length given in search length!")
        },
        _ => panic!("truncated"),
    }
}

#[test]
fn prefix_ranges() {
    assert_eq!(prefix_range(b"abc"), b"abd".to_vec());
    assert_eq!(prefix_range(&[1, 255, 255]), vec![2, 0, 0]);
    assert_eq!(prefix_range(&[]), vec![1]);
    assert_eq!(prefix_range(&[255, 255]), vec![1, 0, 0]);
}
