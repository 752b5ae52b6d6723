use mc_probe::text::parse_extra;
use mc_probe::text::parse_motd;
use mc_probe::text::strip_color_codes;
use mc_probe::text::ChatComponent;

fn text(s: &str) -> ChatComponent {
    ChatComponent::Text(s.to_string())
}

fn object(text_field: Option<ChatComponent>, extra: Option<ChatComponent>) -> ChatComponent {
    ChatComponent::Object { text: text_field.map(Box::new), extra: extra.map(Box::new) }
}

#[test]
fn strip_removes_the_sign_and_the_character_behind_it() {
    assert_eq!(strip_color_codes("\u{a7}aHello \u{a7}bWorld"), "Hello World");
    assert_eq!(strip_color_codes("\u{a7}l\u{a7}cRed"), "Red");
    assert_eq!(strip_color_codes("plain"), "plain");
    assert_eq!(strip_color_codes(""), "");
}

#[test]
fn strip_removes_whatever_follows_the_sign() {
    assert_eq!(strip_color_codes("\u{a7}\u{a7}a"), "a");
    assert_eq!(strip_color_codes("a\u{a7} b"), "ab");
    assert_eq!(strip_color_codes("\u{a7}\u{e9}x"), "x");
    assert_eq!(strip_color_codes("\u{a7}\u{1f600}x"), "x");
    assert_eq!(strip_color_codes("\u{a7}\u{a7}\u{a7}\u{a7}"), "");
    assert_eq!(strip_color_codes("\u{a7}\u{a7}\u{a7}"), "");
}

#[test]
fn strip_removes_a_sign_at_the_end() {
    assert_eq!(strip_color_codes("abc\u{a7}"), "abc");
    assert_eq!(strip_color_codes("\u{a7}"), "");
}

#[test]
fn strip_reads_the_sign_as_one_character() {
    assert_eq!(strip_color_codes("\u{c2}a"), "\u{c2}a");
    assert_eq!(strip_color_codes("\u{e7}a\u{27}b"), "\u{e7}a\u{27}b");
    assert_eq!(strip_color_codes("caf\u{e9} \u{a7}6gold"), "caf\u{e9} gold");
}

#[test]
fn strip_twice_is_strip_once() {
    for s in ["", "abc", "\u{a7}aHello", "\u{a7}\u{a7}a", "a\u{a7}", "\u{a7}a\u{a7}\u{a7}\u{a7}b\u{a7}", "x\u{a7}\u{a7}\u{a7}y"] {
        let once = strip_color_codes(s);
        assert_eq!(strip_color_codes(&once), once);
        assert!(!once.contains('\u{a7}'));
    }
}

#[test]
fn motd_of_a_string_is_the_string_stripped() {
    for s in ["", "A Minecraft Server", "\u{a7}aHello \u{a7}bWorld", "tail\u{a7}"] {
        assert_eq!(parse_motd(&text(s)), strip_color_codes(s));
    }
    assert_eq!(parse_motd(&text("\u{a7}aHello \u{a7}bWorld")), "Hello World");
}

#[test]
fn motd_of_an_object_is_its_text() {
    assert_eq!(parse_motd(&object(Some(text("\u{a7}aHello \u{a7}bWorld")), None)), "Hello World");
    assert_eq!(parse_motd(&object(None, None)), "");
}

#[test]
fn motd_of_an_object_passes_over_a_text_that_is_no_string() {
    assert_eq!(parse_motd(&object(Some(ChatComponent::Other), None)), "");
    assert_eq!(parse_motd(&object(Some(ChatComponent::Array(vec![text("a")])), None)), "");
    assert_eq!(parse_motd(&object(Some(object(Some(text("a")), None)), None)), "");
}

#[test]
fn motd_of_an_object_puts_extra_behind_text() {
    let extra = ChatComponent::Array(vec![
        object(Some(text("\u{a7}bWorld")), None),
        text("\u{a7}c!"),
        ChatComponent::Other,
    ]);
    assert_eq!(parse_motd(&object(Some(text("Hello ")), Some(extra))), "Hello World!");
}

#[test]
fn motd_of_an_object_passes_over_an_extra_that_is_no_array() {
    assert_eq!(parse_motd(&object(Some(text("a")), Some(text("b")))), "a");
    assert_eq!(parse_motd(&object(Some(text("a")), Some(object(Some(text("b")), None)))), "a");
    assert_eq!(parse_motd(&object(Some(text("a")), Some(ChatComponent::Other))), "a");
}

#[test]
fn motd_of_an_array_is_its_parts_in_order() {
    let parts = ChatComponent::Array(vec![
        object(Some(text("\u{a7}aone ")), None),
        text("two "),
        ChatComponent::Array(vec![text("three"), ChatComponent::Other]),
    ]);
    assert_eq!(parse_motd(&parts), "one two three");
    assert_eq!(parse_motd(&ChatComponent::Array(vec![])), "");
}

#[test]
fn motd_goes_down_through_nested_extras() {
    let inner = object(Some(text("c")), Some(ChatComponent::Array(vec![text("d"), object(Some(text("e")), None)])));
    let middle = object(Some(text("b")), Some(ChatComponent::Array(vec![inner])));
    let outer = object(Some(text("a")), Some(ChatComponent::Array(vec![middle, text("f")])));
    assert_eq!(parse_motd(&outer), "abcdef");
}

#[test]
fn motd_of_a_deep_nest() {
    let mut node = text("x");
    for _ in 0..40 {
        node = object(Some(text("\u{a7}1a")), Some(ChatComponent::Array(vec![node])));
    }
    assert_eq!(parse_motd(&node), format!("{}x", "a".repeat(40)));
}

#[test]
fn motd_of_anything_else_is_empty() {
    assert_eq!(parse_motd(&ChatComponent::Other), "");
}

#[test]
fn extra_is_read_only_where_it_is_an_array() {
    assert_eq!(parse_extra(&ChatComponent::Array(vec![text("\u{a7}aa"), object(Some(text("b")), None)])), "ab");
    assert_eq!(parse_extra(&text("a")), "");
    assert_eq!(parse_extra(&object(Some(text("a")), None)), "");
    assert_eq!(parse_extra(&ChatComponent::Other), "");
}
