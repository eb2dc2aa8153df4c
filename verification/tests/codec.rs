use contextswitch_api::metadata::{decode_metadata, encode_metadata, encode_metadata_field};
use contextswitch_api::task::{Bookmark, ContextswitchData};
use contextswitch_api::timestamp::{format_date, parse_tw_timestamp, Timestamp};

fn bm(uri: &str, content: Option<&str>) -> Bookmark {
    Bookmark { uri: uri.to_string(), content: content.map(|c| c.to_string()) }
}

fn decode(s: &str) -> Option<ContextswitchData> {
    decode_metadata(&Some(s.to_string()))
}

#[test]
fn encode_produces_canonical_compact_json() {
    let data = ContextswitchData {
        bookmarks: vec![
            bm("https://www.example.com/path", None),
            bm("https://www.example.com/path2", Some("notes")),
        ],
    };
    assert_eq!(
        r#"{"bookmarks":[{"uri":"https://www.example.com/path"},{"uri":"https://www.example.com/path2","content":"notes"}]}"#,
        encode_metadata(&data)
    );
}

#[test]
fn encode_field_uses_empty_string_to_clear() {
    assert_eq!("", encode_metadata_field(&None));
    let data = ContextswitchData { bookmarks: vec![] };
    assert_eq!(r#"{"bookmarks":[]}"#, encode_metadata_field(&Some(data)));
}

#[test]
fn decode_accepts_the_canonical_form() {
    let decoded = decode(r#"{"bookmarks":[{"uri":"https://example.com"}]}"#).unwrap();
    assert_eq!(1, decoded.bookmarks.len());
    assert_eq!("https://example.com", decoded.bookmarks[0].uri);
    assert_eq!(None, decoded.bookmarks[0].content);
}

#[test]
fn decode_accepts_whitespace_and_unknown_fields() {
    let decoded = decode(
        " { \"note\": [1, -2.5e3, true, false, null, {\"x\": \"y\"}], \"bookmarks\": [ { \"uri\": \"u\", \"extra\": \"ignored\" } ], \"more\": \"txt\" } ",
    )
    .unwrap();
    assert_eq!(1, decoded.bookmarks.len());
    assert_eq!("u", decoded.bookmarks[0].uri);
    assert_eq!(None, decoded.bookmarks[0].content);
}

#[test]
fn decode_reads_content_and_escapes() {
    let decoded = decode(
        r#"{"bookmarks":[{"uri":"https://example.com","content":"line\nbreak \"quoted\" back\\slash \u0041\t"}]}"#,
    )
    .unwrap();
    assert_eq!(
        Some("line\nbreak \"quoted\" back\\slash A\t".to_string()),
        decoded.bookmarks[0].content
    );
}

#[test]
fn absence_forms_decode_to_none() {
    assert_eq!(None, decode_metadata(&None));
    assert_eq!(None, decode(""));
    assert_eq!(None, decode("{}"));
}

#[test]
fn malformed_text_decodes_to_none() {
    for s in [
        "}",
        "{",
        "[",
        "null",
        "12",
        "{\"bookmarks\":}",
        "{\"bookmarks\":[}",
        "{\"bookmarks\":[{\"uri\":1}]}",
        "{\"bookmarks\":[{\"content\":\"only\"}]}",
        "{\"bookmarks\":[],}",
        "{\"bookmarks\":[]} trailing",
        "{\"bookmarks\":[],\"bookmarks\":[]}",
        "{\"bookmarks\":[{\"uri\":\"a\",\"uri\":\"b\"}]}",
        "{\"unknown\": 1}",
        "{\"bookmarks\":[{\"uri\":\"bad\\escape\"}]}",
        "{\"bookmarks\":[{\"uri\":\"\\uD800\"}]}",
    ] {
        assert_eq!(None, decode(s), "expected None for {:?}", s);
    }
}

#[test]
fn round_trip_preserves_every_bookmark() {
    let data = ContextswitchData {
        bookmarks: vec![
            bm("https://example.com/a", None),
            bm("with \"quotes\" and \\ backslash", Some("content\nwith\tcontrol\u{1}chars")),
            bm("unicode \u{1F600} stays", Some("caf\u{e9}")),
        ],
    };
    let encoded = encode_metadata(&data);
    let decoded = decode(&encoded).expect("canonical encoding must decode");
    assert_eq!(data, decoded);
}

#[test]
fn null_content_reads_as_absent() {
    let decoded = decode(r#"{"bookmarks":[{"uri":"u","content":null}]}"#).unwrap();
    assert_eq!(None, decoded.bookmarks[0].content);
    assert_eq!(
        None,
        decode(r#"{"bookmarks":[{"uri":"u","content":null,"content":"x"}]}"#)
    );
}

#[test]
fn timestamp_parses_the_exact_export_pattern() {
    let t = parse_tw_timestamp("20220101T010002Z").unwrap();
    assert_eq!(
        Timestamp { year: 2022, month: 1, day: 1, hour: 1, minute: 0, second: 2 },
        t
    );
    assert_eq!("2022-01-01T01:00:02Z", format_date(&t));
}

#[test]
fn timestamp_rejects_any_deviation() {
    for s in [
        "",
        "20220101T010002",
        "20220101t010002Z",
        "2022-01-01T01:00:02Z",
        "20221301T010002Z",
        "20220230T010002Z",
        "20220101T250002Z",
        "20220101T016002Z",
        "20220101T010061Z",
        "2022010AT010002Z",
        "20220101T010002ZZ",
    ] {
        assert_eq!(None, parse_tw_timestamp(s), "expected rejection of {:?}", s);
    }
}

#[test]
fn timestamp_handles_leap_years() {
    assert!(parse_tw_timestamp("20240229T000000Z").is_some());
    assert_eq!(None, parse_tw_timestamp("20230229T000000Z"));
    assert!(parse_tw_timestamp("20000229T000000Z").is_some());
    assert_eq!(None, parse_tw_timestamp("21000229T000000Z"));
}
