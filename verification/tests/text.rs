use grocery_lists::events::{
    broadcast_update, file_notice, frame_reload, relay, ChangeEvent, EventKind, CHANNEL_CAPACITY,
    DEBOUNCE_MILLIS, KEEP_ALIVE_SECS,
};
use grocery_lists::text::{chars_of, hyphenate, precedes, slugify};

fn before(a: &str, b: &str) -> bool {
    precedes(&chars_of(a), &chars_of(b))
}

#[test]
fn slugify_lowers_and_hyphenates() {
    assert_eq!(slugify("Weekend Trip"), "weekend-trip");
    assert_eq!(slugify("groceries"), "groceries");
    assert_eq!(slugify(""), "");
    assert_eq!(slugify(" A  B "), "-a--b-");
    assert_eq!(slugify("ÄPFEL und Birnen"), "äpfel-und-birnen");
    assert_eq!(slugify("Tab\there"), "tab\there");
    assert_eq!(slugify("already-hyphen ated"), "already-hyphen-ated");
}

#[test]
fn slugify_lowers_as_the_standard_library_does() {
    assert_eq!(slugify("İ"), "İ".to_lowercase());
    assert_eq!(slugify("ΌΣΟΣ"), "όσος");
}

#[test]
fn hyphenate_replaces_only_spaces() {
    assert_eq!(hyphenate("a b c"), "a-b-c");
    assert_eq!(hyphenate("A B"), "A-B");
    assert_eq!(hyphenate("   "), "---");
    assert_eq!(hyphenate("a\u{a0}b"), "a\u{a0}b");
    assert_eq!(hyphenate(""), "");
}

#[test]
fn chars_of_lists_the_characters() {
    assert_eq!(chars_of("aé😀"), vec!['a', 'é', '😀']);
    assert!(chars_of("").is_empty());
}

#[test]
fn precedes_is_the_order_of_strings() {
    assert!(before("a", "b"));
    assert!(!before("b", "a"));
    assert!(!before("a", "a"));
    assert!(before("", "a"));
    assert!(!before("a", ""));
    assert!(!before("", ""));
    assert!(before("a", "ab"));
    assert!(!before("ab", "a"));
    assert!(before("ab", "b"));
    assert!(before("Z", "a"));
    assert!(before("z", "é"));
    assert!(before("abc", "abd"));
    assert!(!before("abd", "abc"));
    let words = ["", "a", "ab", "b", "B", "é", "😀", "zz", "a b", "a-b"];
    for x in words {
        for y in words {
            assert_eq!(before(x, y), x < y);
        }
    }
}

#[test]
fn payload_is_a_reload_object_with_the_client_id() {
    assert_eq!(broadcast_update(Some("abc")), "{\"type\":\"reload\",\"client_id\":\"abc\"}");
    assert_eq!(broadcast_update(None), "{\"type\":\"reload\",\"client_id\":\"\"}");
    assert_eq!(broadcast_update(Some("")), "{\"type\":\"reload\",\"client_id\":\"\"}");
}

#[test]
fn payload_escapes_the_client_id() {
    assert_eq!(
        broadcast_update(Some("a\"b\\c\n")),
        "{\"type\":\"reload\",\"client_id\":\"a\\\"b\\\\c\\n\"}"
    );
    let parsed: serde_json::Value = serde_json::from_str(&broadcast_update(Some("a\"b"))).unwrap();
    assert_eq!(parsed["type"], "reload");
    assert_eq!(parsed["client_id"], "a\"b");
}

#[test]
fn change_event_keeps_the_header_value() {
    assert_eq!(ChangeEvent::reload(Some("tab-1")).origin_client_id, "tab-1");
    assert_eq!(ChangeEvent::reload(Some("tab-1")).kind, EventKind::Reload);
    assert_eq!(ChangeEvent::reload(None).origin_client_id, "");
    let event = ChangeEvent { kind: EventKind::Reload, origin_client_id: "x".to_string() };
    assert_eq!(event.payload(), "{\"type\":\"reload\",\"client_id\":\"x\"}");
}

#[test]
fn frame_reload_wraps_what_it_is_given() {
    assert_eq!(frame_reload("\"q\""), "{\"type\":\"reload\",\"client_id\":\"q\"}");
    assert_eq!(frame_reload(""), "{\"type\":\"reload\",\"client_id\":}");
}

#[test]
fn relay_forwards_the_notice_as_it_is() {
    let notice = broadcast_update(Some("tab-1"));
    assert_eq!(relay(Some(notice.clone())), notice);
    assert_eq!(relay(Some(notice)), "{\"type\":\"reload\",\"client_id\":\"tab-1\"}");
}

#[test]
fn relay_sends_a_reload_of_no_client_where_notices_were_lost() {
    assert_eq!(relay(None), "{\"type\":\"reload\",\"client_id\":\"\"}");
    assert_eq!(relay(None), broadcast_update(None));
}

#[test]
fn timing_constants() {
    assert_eq!(KEEP_ALIVE_SECS, 30);
    assert_eq!(CHANNEL_CAPACITY, 100);
    assert_eq!(DEBOUNCE_MILLIS, 100);
}

#[test]
fn file_notice_follows_a_modification_only() {
    assert_eq!(
        file_notice(Some(true)),
        Some("{\"type\":\"reload\",\"client_id\":\"\"}".to_string())
    );
    assert_eq!(file_notice(Some(true)), Some(broadcast_update(None)));
    assert_eq!(file_notice(Some(false)), None);
    assert_eq!(file_notice(None), None);
}
