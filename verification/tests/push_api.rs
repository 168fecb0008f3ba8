use doc_ingest::push_api::{
    lines, push_api, push_api_filter, push_api_handler, DocBatch, IngestRequest, PushApiRejection,
};

fn docs(items: &[&str]) -> Vec<Vec<u8>> {
    items.iter().map(|item| item.as_bytes().to_vec()).collect()
}

#[test]
fn lines_are_trimmed_and_blank_ones_dropped() {
    assert_eq!(lines("  a \r\n\n \t\nb"), vec!["a", "b"]);
    assert_eq!(lines("{\"k\": 1}\n{\"k\": 2}\n"), vec!["{\"k\": 1}", "{\"k\": 2}"]);
}

#[test]
fn no_lines_in_a_blank_payload() {
    assert!(lines("").is_empty());
    assert!(lines("\n").is_empty());
    assert!(lines(" \r\n\t\r\n \u{3000}\u{a0}").is_empty());
}

#[test]
fn a_carriage_return_alone_ends_no_line() {
    assert_eq!(lines("a\rb\r\nc\r"), vec!["a\rb", "c"]);
}

#[test]
fn unicode_white_space_is_trimmed() {
    assert_eq!(
        lines("\u{2003}a\u{2028}\n\u{85}b\u{1680}\u{205f}\n\u{200b}c\u{feff}"),
        vec!["a", "b", "\u{200b}c\u{feff}"]
    );
}

#[test]
fn white_space_is_what_std_takes_for_it() {
    let listed = |code: u32| {
        matches!(
            code,
            0x9..=0xD
                | 0x20
                | 0x85
                | 0xA0
                | 0x1680
                | 0x2000..=0x200A
                | 0x2028
                | 0x2029
                | 0x202F
                | 0x205F
                | 0x3000
        )
    };
    for code in 0..=0x10FFFFu32 {
        if let Some(c) = char::from_u32(code) {
            assert_eq!(c.is_whitespace(), listed(code), "U+{:04X}", code);
        }
    }
}

#[test]
fn concatenated_payloads_hold_the_documents_of_both() {
    let payloads = ["", "a", "a\n", "a\r", "\r\nb", " a \n\n b ", "\n"];
    for first in payloads {
        for second in payloads {
            let whole = format!("{}\n{}", first, second);
            let mut expected = lines(first);
            expected.extend(lines(second));
            assert_eq!(lines(&whole), expected);
        }
    }
}

#[test]
fn a_document_is_a_payload_of_its_own() {
    for document in lines(" a b \n\r\n c\rd \n") {
        assert_eq!(lines(document), vec![document]);
    }
}

#[test]
fn documents_on_lines_of_their_own_are_found_again() {
    let found = lines(" a b \n\r\n c\rd \n\u{85}e");
    assert_eq!(found, vec!["a b", "c\rd", "e"]);
    assert_eq!(lines(&found.join("\n")), found);
}

#[test]
fn request_holds_one_batch_for_the_index() {
    let request = push_api("wikipedia".to_string(), " {\"a\":1} \n\n{\"b\":\"\u{e9}\"}\n");
    assert_eq!(
        request,
        IngestRequest {
            doc_batches: vec![DocBatch {
                index_id: "wikipedia".to_string(),
                docs: docs(&["{\"a\":1}", "{\"b\":\"\u{e9}\"}"]),
            }],
        }
    );
    assert_eq!(request.doc_batches[0].docs[1].len(), 10);
}

#[test]
fn request_for_a_blank_payload_holds_an_empty_batch() {
    let request = push_api("i".to_string(), " \n");
    assert_eq!(request.doc_batches.len(), 1);
    assert_eq!(request.doc_batches[0].index_id, "i");
    assert!(request.doc_batches[0].docs.is_empty());
}

#[test]
fn body_is_read_as_utf8() {
    assert_eq!(push_api_filter("a\u{20ac}".as_bytes()), Ok("a\u{20ac}".to_string()));
    assert_eq!(push_api_filter(b""), Ok(String::new()));
    assert_eq!(push_api_filter(&[0x61, 0xff]), Err(PushApiRejection::InvalidUtf8));
    assert_eq!(push_api_filter(&[0xed, 0xa0, 0x80]), Err(PushApiRejection::InvalidUtf8));
}

#[test]
fn handler_hands_the_request_to_the_service() {
    let (service, request) = push_api_handler("i".to_string(), b"a\nb", Some(7u8)).unwrap();
    assert_eq!(service, 7);
    assert_eq!(request.doc_batches[0].docs, docs(&["a", "b"]));
}

#[test]
fn handler_reports_an_invalid_body_first() {
    assert_eq!(
        push_api_handler::<u8>("i".to_string(), &[0xff], None),
        Err(PushApiRejection::InvalidUtf8)
    );
    assert_eq!(
        push_api_handler("i".to_string(), &[0xff], Some(7u8)),
        Err(PushApiRejection::InvalidUtf8)
    );
    assert_eq!(
        push_api_handler::<u8>("i".to_string(), b"a", None),
        Err(PushApiRejection::PushApiServiceUnavailable)
    );
}

#[test]
fn rejections_have_a_text() {
    assert_eq!(PushApiRejection::InvalidUtf8.message(), "Body is not utf-8.");
    assert_eq!(
        PushApiRejection::PushApiServiceUnavailable.message(),
        "The PushAPI is not available."
    );
}
