use vertex_ai::types::{ModelId, ProviderId};

#[test]
fn identifiers_reject_blank_values() {
    assert!(ProviderId::new("  ").is_err());
    assert!(ModelId::new("").is_err());
}

#[test]
fn strings_and_uuids_are_written_as_their_crates_write_them() {
    assert_eq!(vertex_ai::platform::json_string("a\"b\\\n\u{1}é"), "\"a\\\"b\\\\\\n\\u0001é\"");
    assert_eq!(
        vertex_ai::platform::uuid_text(0x0123_4567_89ab_cdef_0011_2233_4455_6677),
        "01234567-89ab-cdef-0011-223344556677"
    );
}
