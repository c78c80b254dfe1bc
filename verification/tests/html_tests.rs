use rss_tui::html::clean_html;

#[test]
fn strips_tags_and_decodes_entities() {
    assert_eq!(clean_html("<p>Hello &amp; <b>world</b></p>"), "Hello & world");
}

#[test]
fn decodes_all_entities() {
    assert_eq!(
        clean_html("&lt;tag&gt; &quot;quoted&quot; it&#39;s"),
        "<tag> \"quoted\" it's"
    );
}

#[test]
fn nbsp_becomes_space_and_is_trimmed() {
    assert_eq!(clean_html("&nbsp;x&nbsp;y&nbsp;"), "x y");
}

#[test]
fn entities_are_decoded_in_sequence() {
    // `&amp;` is decoded before `&lt;`, so `&amp;lt;` ends up as `<`.
    assert_eq!(clean_html("&amp;lt;"), "<");
    // `&nbsp;` comes first, so `&amp;nbsp;` stays `&nbsp;`.
    assert_eq!(clean_html("&amp;nbsp;"), "&nbsp;");
}

#[test]
fn blank_line_runs_collapse() {
    assert_eq!(clean_html("<div>\n  line1  \n\n\n\nline2\n</div>"), "line1\n\nline2");
}

#[test]
fn leading_blank_lines_dropped_trailing_one_kept() {
    assert_eq!(clean_html("\n\n a \n\n b \n\n"), "a\n\nb\n");
}

#[test]
fn closing_bracket_outside_tag_is_dropped() {
    assert_eq!(clean_html("x > y"), "x  y");
}

#[test]
fn unclosed_tag_drops_the_rest() {
    assert_eq!(clean_html("kept<never closed"), "kept");
}

#[test]
fn crlf_lines_are_trimmed() {
    assert_eq!(clean_html("one\r\ntwo\r\n"), "one\ntwo");
}

#[test]
fn unicode_white_space_is_trimmed() {
    assert_eq!(clean_html("\u{3000}wide\u{a0}"), "wide");
}

#[test]
fn empty_input_gives_empty_text() {
    assert_eq!(clean_html(""), "");
    assert_eq!(clean_html("<br/>"), "");
}

#[test]
fn plain_line_is_unchanged() {
    let s = "Just some plain text, nothing else.";
    assert_eq!(clean_html(s), s);
}

#[test]
fn text_without_ampersand_cleans_to_text_without_angles() {
    for s in ["a <b>c</b> > d", "x < y", "<<>>plain>", "one\n<p>two</p>\n>three"] {
        let out = clean_html(s);
        assert!(!out.contains('<') && !out.contains('>'), "{:?} -> {:?}", s, out);
    }
}

#[test]
fn cleaned_text_is_never_longer_than_its_input() {
    for s in ["&nbsp;&amp;&lt;&gt;&quot;&#39;", "  a  \n\n\n  b  ", "<p>x</p>", "plain", ""] {
        assert!(clean_html(s).chars().count() <= s.chars().count());
    }
    assert_eq!(clean_html("&quot;&#39;"), "\"'");
}
