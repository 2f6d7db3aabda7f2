use runiq::errors::RunError;
use runiq::filters::{digest_bytes, DigestState, FilterKind, FNV_OFFSET_BASIS};
use runiq::options::{parse_filter_kind, Options};

#[test]
fn digest_known_values() {
    assert_eq!(digest_bytes(b""), 0xcbf2_9ce4_8422_2325);
    assert_eq!(digest_bytes(b"a"), 0xaf63_dc4c_8601_ec8c);
    assert_eq!(digest_bytes(b"hello"), 0xa430_d846_80aa_bd0b);
    assert_eq!(digest_bytes(b"world"), 0x4f59_ff5e_730c_8af3);
}

#[test]
fn digest_of_empty_is_offset_basis() {
    assert_eq!(digest_bytes(b""), FNV_OFFSET_BASIS);
    let st = DigestState::new();
    assert_eq!(st.finish(), FNV_OFFSET_BASIS);
}

#[test]
fn digest_streaming_matches_whole() {
    let whole = digest_bytes(b"hello world, streamed in pieces");
    let mut st = DigestState::new();
    st.update(b"hello ");
    st.update(b"world, ");
    st.update(b"");
    st.update(b"streamed in pieces");
    assert_eq!(st.finish(), whole);
}

#[test]
fn digest_differs_on_content() {
    assert_ne!(digest_bytes(b"hello"), digest_bytes(b"world"));
    assert_ne!(digest_bytes(b""), digest_bytes(b"\0"));
}

#[test]
fn parse_filter_names() {
    assert!(matches!(parse_filter_kind("digest"), Ok(FilterKind::Digest)));
    assert!(matches!(parse_filter_kind("naive"), Ok(FilterKind::Naive)));
    assert!(matches!(
        parse_filter_kind("bloom"),
        Err(RunError::ConfigurationInvalid)
    ));
    assert!(matches!(
        parse_filter_kind(""),
        Err(RunError::ConfigurationInvalid)
    ));
}

#[test]
fn options_require_inputs() {
    let r = Options::new(FilterKind::Digest, Vec::new(), false, true);
    assert!(matches!(r, Err(RunError::ConfigurationInvalid)));

    let ok = Options::new(
        FilterKind::Naive,
        vec!["only".to_string()],
        true,
        false,
    )
    .unwrap();
    assert_eq!(ok.filter, FilterKind::Naive);
    assert_eq!(ok.inputs, vec!["only".to_string()]);
    assert!(ok.inverted);
    assert!(!ok.statistics);
    assert!(ok.validate().is_ok());

    let empty = Options {
        filter: FilterKind::Digest,
        inputs: Vec::new(),
        inverted: false,
        statistics: false,
    };
    assert!(matches!(
        empty.validate(),
        Err(RunError::ConfigurationInvalid)
    ));
}
