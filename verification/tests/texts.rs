use session_messaging::text::{decimal_text, joined, lines, texts_in_order};
use session_messaging::thread_id::{InvalidThreadId, ThreadId};

#[test]
fn texts_split_into_lines_like_the_standard_library_does() {
    for text in [
        "", "\n", "\r\n", "\r", "a", "a\n", "a\nb", "a\r\nb\r\n", "\n\n", "a\r\r\nb\r", "\r\r", "\u{b7}\n\u{20ac}",
    ] {
        let expected = text.lines().map(str::to_string).collect::<Vec<_>>();
        assert_eq!(lines(text), expected, "{text:?}");
    }
}

#[test]
fn numbers_are_written_in_decimal() {
    for value in [0, 1, 9, 10, 20, 105, 8_000, usize::MAX] {
        assert_eq!(decimal_text(value), value.to_string());
    }
    assert_eq!(joined("a", "bc"), "abc");
}

#[test]
fn texts_are_ordered_by_their_bytes() {
    let texts = ["", "a", "ab", "b", "\u{7f}", "\u{e9}", "\u{20ac}", "\u{1f600}"];
    for left in texts {
        for right in texts {
            assert_eq!(texts_in_order(left, right), left <= right, "{left:?} {right:?}");
        }
    }
}

#[test]
fn identifiers_are_written_in_lower_case_with_hyphens() {
    let id = ThreadId::from_u128(0x0123_4567_89ab_cdef_fedc_ba98_7654_3210);
    assert_eq!(id.to_string(), "01234567-89ab-cdef-fedc-ba9876543210");
    assert_eq!(ThreadId::from_string(&id.to_string()), Ok(id));
    assert_ne!(ThreadId::from_u128(id.value ^ 1).to_string(), id.to_string());
    assert_ne!(ThreadId::from_u128(id.value ^ (1 << 127)).to_string(), id.to_string());
    assert_eq!(
        ThreadId::from_string("01234567-89AB-CDEF-FEDC-BA9876543210"),
        Ok(id)
    );
}

#[test]
fn identifiers_are_read_in_four_forms() {
    let id = ThreadId::from_u128(0x0123_4567_89ab_cdef_fedc_ba98_7654_3210);
    for text in [
        "0123456789abcdeffedcba9876543210",
        "0123456789ABCDEFfedcba9876543210",
        "01234567-89ab-cdef-fedc-ba9876543210",
        "{01234567-89ab-cdef-fedc-ba9876543210}",
        "urn:uuid:01234567-89ab-cdef-fedc-ba9876543210",
        "URN:Uuid:01234567-89AB-cdef-fedc-ba9876543210",
    ] {
        assert_eq!(ThreadId::from_string(text), Ok(id), "{text}");
    }
}

#[test]
fn texts_that_are_no_uuid_are_no_identifiers() {
    for text in [
        "",
        "thread-1",
        "01234567-89ab-cdef-fedc-ba987654321",
        "01234567-89ab-cdef-fedc-ba987654321g",
        "01234567-89ab-cdef-fedc-ba987654321`",
        "01234567-89ab-cdef-fedc-ba987654321@",
        "0123456-789ab-cdef-fedc-ba9876543210",
        "{0123456789abcdeffedcba9876543210}",
        "{01234567-89ab-cdef-fedc-ba9876543210)",
        "(01234567-89ab-cdef-fedc-ba9876543210}",
        "urn-uuid:01234567-89ab-cdef-fedc-ba9876543210",
        "urn\u{1a}uuid:01234567-89ab-cdef-fedc-ba9876543210",
        "urn:uuid:0123456789abcdeffedcba9876543210",
        " 01234567-89ab-cdef-fedc-ba9876543210",
        "0123456789abcdeffedcba987654321\u{e9}",
        "0123456789abcdeffedcba98765432\u{e9}",
    ] {
        assert_eq!(ThreadId::from_string(text), Err(InvalidThreadId {}), "{text}");
    }
}
