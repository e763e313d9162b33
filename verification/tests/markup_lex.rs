use resume_tui::markup::{parse_markup, Color, Style, StyledChar};

fn chars(s: &str) -> Vec<char> {
    s.chars().collect()
}

fn plain() -> Style {
    Style { fg: Color::Default, bold: false, italic: false }
}

fn text_of(parsed: &[StyledChar]) -> String {
    parsed.iter().map(|sc| sc.ch).collect()
}

#[test]
fn untagged_text_is_plain() {
    let parsed = parse_markup(&chars("hello"));
    assert_eq!(text_of(&parsed), "hello");
    for sc in &parsed {
        assert_eq!(sc.style, plain());
    }
}

#[test]
fn tag_styles_its_span_and_vanishes() {
    let parsed = parse_markup(&chars("{mod=bold;fg=yellow Hi} x"));
    assert_eq!(text_of(&parsed), "Hi x");
    let tagged = Style { fg: Color::Yellow, bold: true, italic: false };
    assert_eq!(parsed[0], StyledChar { ch: 'H', style: tagged });
    assert_eq!(parsed[1], StyledChar { ch: 'i', style: tagged });
    assert_eq!(parsed[2], StyledChar { ch: ' ', style: plain() });
    assert_eq!(parsed[3], StyledChar { ch: 'x', style: plain() });
}

#[test]
fn single_key_tags_work() {
    let parsed = parse_markup(&chars("{fg=cyan A}"));
    assert_eq!(text_of(&parsed), "A");
    assert_eq!(parsed[0].style, Style { fg: Color::Cyan, bold: false, italic: false });

    let parsed = parse_markup(&chars("{mod=italic A}"));
    assert_eq!(parsed[0].style, Style { fg: Color::Default, bold: false, italic: true });
}

#[test]
fn both_modifiers_can_stack() {
    let parsed = parse_markup(&chars("{mod=bold;mod=italic A}"));
    assert_eq!(parsed[0].style, Style { fg: Color::Default, bold: true, italic: true });
}

#[test]
fn unknown_keys_and_colors_change_nothing() {
    let parsed = parse_markup(&chars("{fg=chartreuse A}"));
    assert_eq!(text_of(&parsed), "A");
    assert_eq!(parsed[0].style, plain());

    let parsed = parse_markup(&chars("{blink=fast A}"));
    assert_eq!(parsed[0].style, plain());
}

#[test]
fn unterminated_brace_is_ordinary_text() {
    let parsed = parse_markup(&chars("{oops"));
    assert_eq!(text_of(&parsed), "{oops");
    for sc in &parsed {
        assert_eq!(sc.style, plain());
    }
}

#[test]
fn brace_without_key_list_is_ordinary_text() {
    let parsed = parse_markup(&chars("{a}b"));
    assert_eq!(text_of(&parsed), "{a}b");
    for sc in &parsed {
        assert_eq!(sc.style, plain());
    }
}

#[test]
fn arrows_keep_their_style_span() {
    let parsed = parse_markup(&chars("Use {mod=bold;fg=yellow \u{2190}} and more"));
    assert_eq!(text_of(&parsed), "Use \u{2190} and more");
    let tagged = Style { fg: Color::Yellow, bold: true, italic: false };
    assert_eq!(parsed[4], StyledChar { ch: '\u{2190}', style: tagged });
    assert_eq!(parsed[0].style, plain());
}
