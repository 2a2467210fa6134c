use aginxbrowser::text::trim;
use aginxbrowser::v8_flags::{set_v8_flags, V8FlagsOnce};

#[test]
fn empty_is_noop() {
    // Must not panic and must not consume the one-shot guard.
    let mut once = V8FlagsOnce::new();
    assert!(set_v8_flags(&mut once, "").is_none());
    assert!(set_v8_flags(&mut once, "   ").is_none());
    assert!(set_v8_flags(&mut once, "\t\n").is_none());
    assert!(!once.consumed);
}

#[test]
fn first_nonempty_flags_applied_trimmed() {
    let mut once = V8FlagsOnce::new();
    let applied = set_v8_flags(&mut once, "  --max-old-space-size=4096 --max-semi-space-size=64\n");
    assert_eq!(
        applied.as_deref(),
        Some("--max-old-space-size=4096 --max-semi-space-size=64")
    );
    assert!(once.consumed);
}

#[test]
fn later_flags_are_dropped() {
    let mut once = V8FlagsOnce::new();
    assert!(set_v8_flags(&mut once, " ").is_none());
    assert_eq!(set_v8_flags(&mut once, "--a").as_deref(), Some("--a"));
    assert!(set_v8_flags(&mut once, "--b").is_none());
    assert!(set_v8_flags(&mut once, "").is_none());
    assert!(once.consumed);
}

#[test]
fn trim_matches_std_trim() {
    let cases = [
        "",
        "   ",
        "\t\n",
        "  a b  ",
        "\u{3000}x\u{00A0}",
        "\u{2003}--flag\u{0085}",
        "no-space",
        "\u{200B}zero-width\u{200B}",
    ];
    for c in cases.iter() {
        assert_eq!(trim(c), c.trim(), "input {:?}", c);
    }
}
