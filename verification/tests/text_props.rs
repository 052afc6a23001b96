use pepperbot::codec::{decode_message, encode_message};
use pepperbot::dec::{parse_u64, u64_to_dec};
use pepperbot::message::{Deal, Message};
use pepperbot::pepper_request::{cookie_prefix, PepperRequest};
use pepperbot::sanitize::sanitize_title;
use pepperbot::template::set_template_values;
use pepperbot::text::{
    contains_str, join_strings, lowercase, replace_all, split_on_char, str_eq, trim_str,
    vec_contains_str,
};
use pepperbot::version::print_version;

#[test]
fn sanitize_escapes_exactly_the_control_characters() {
    let sanitized = sanitize_title("50% off! $100 \u{2192} \u{a5}900");
    assert_eq!(sanitized, "50\\% off\\! $100 \\\u{2192} \\\u{a5}900");
}

#[test]
fn sanitize_keeps_quotes_currency_and_words() {
    assert_eq!(sanitize_title("it's \u{2019}ok\u{2019} 5$ 3\u{20ac} _x_"), "it's \u{2019}ok\u{2019} 5$ 3\u{20ac} _x_");
    assert_eq!(sanitize_title("a.b"), "a\\.b");
    assert_eq!(sanitize_title(""), "");
}

#[test]
fn encode_message_renders_the_documented_wire_format() {
    let m = Message::new(Deal::new(
        "https://x/y".to_string(),
        "gaming".to_string(),
        "a \"big\" \\ deal".to_string(),
    ));
    let wire = encode_message(&m);
    assert_eq!(
        wire,
        "{\"id\":\"https://x/y\",\"list\":\"deals\",\"payload\":{\"link\":\"https://x/y\",\"category\":\"gaming\",\"title\":\"a \\\"big\\\" \\\\ deal\"}}"
    );
}

#[test]
fn decode_inverts_encode() {
    let m = Message::new(Deal::new(
        "https://x/y?a=1&b=2".to_string(),
        "home & living".to_string(),
        "50% off \"now\" \\ today".to_string(),
    ));
    let wire = encode_message(&m);
    let back = decode_message(&wire).expect("decoding the rendering must succeed");
    assert_eq!(back.id, m.id);
    assert_eq!(back.list, m.list);
    assert_eq!(back.payload.link, m.payload.link);
    assert_eq!(back.payload.category, m.payload.category);
    assert_eq!(back.payload.title, m.payload.title);
}

#[test]
fn decode_rejects_malformed_input() {
    assert!(decode_message("").is_none());
    assert!(decode_message("{\"id\":\"x\"}").is_none());
    assert!(decode_message("not json at all").is_none());
    let m = Message::new(Deal::new("a".to_string(), "b".to_string(), "c".to_string()));
    let mut wire = encode_message(&m);
    wire.push('x');
    assert!(decode_message(&wire).is_none());
}

#[test]
fn decimal_rendering_and_parsing() {
    assert_eq!(u64_to_dec(0), "0");
    assert_eq!(u64_to_dec(42), "42");
    assert_eq!(u64_to_dec(u64::MAX), "18446744073709551615");
    assert_eq!(parse_u64("0"), Some(0));
    assert_eq!(parse_u64("007"), Some(7));
    assert_eq!(parse_u64("18446744073709551615"), Some(u64::MAX));
    assert_eq!(parse_u64("18446744073709551616"), None);
    assert_eq!(parse_u64(""), None);
    assert_eq!(parse_u64("12a"), None);
}

#[test]
fn template_fills_all_placeholders() {
    let page = "subs: __SUBSCRIBER_COUNT__, sent: __MESSAGES_SENT__, deals: __DEALS_SENT__";
    let filled = set_template_values(Some(page), 3, "17", "5");
    assert_eq!(filled, "subs: 3, sent: 17, deals: 5");
    assert_eq!(set_template_values(None, 3, "17", "5"), "");
}

#[test]
fn version_report_lines() {
    let lines = print_version("1.2.3", "0.9.0");
    assert_eq!(lines, vec!["App: 1.2.3".to_string(), "Helm Chart: 0.9.0".to_string()]);
}

#[test]
fn cookie_prefix_takes_the_first_attribute() {
    assert_eq!(cookie_prefix(" session=abc; Path=/; HttpOnly"), "session=abc;");
    assert_eq!(cookie_prefix("plain"), "plain;");
}

#[test]
fn endpoint_is_base_plus_path() {
    let p = PepperRequest::new();
    assert_eq!(p.get_endpoint(), "https://nl.pepper.com/graphql");
}

#[test]
fn text_helpers_behave_like_std() {
    assert_eq!(replace_all("aaa", "a", "bb"), "bbbbbb");
    assert_eq!(replace_all("none here", "xyz", "!"), "none here");
    assert_eq!(split_on_char("a,b,,c", ','), vec!["a", "b", "", "c"]);
    assert_eq!(split_on_char("", ','), vec![""]);
    assert_eq!(trim_str("  padded\t"), "padded");
    assert_eq!(trim_str("\u{a0}x\u{a0}"), "x");
    assert_eq!(lowercase("MiXeD \u{c9}"), "mixed \u{e9}");
    assert!(str_eq("same", "same"));
    assert!(!str_eq("same", "Same"));
    assert!(contains_str("line with admin word", "admin"));
    assert!(!contains_str("nothing here", "admin"));
    assert!(vec_contains_str(&vec!["a".to_string(), "b".to_string()], "b"));
    assert!(!vec_contains_str(&vec!["a".to_string()], "b"));
    assert_eq!(join_strings(&vec!["a".to_string(), "b".to_string()], ", "), "a, b");
    assert_eq!(join_strings(&Vec::new(), ", "), "");
}
