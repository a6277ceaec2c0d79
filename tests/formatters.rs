use markupsth::{
    AlwaysIndentAlwaysLf, AutoFmtRule, AutoIndent, ExtAutoIndenting, FormatChanges, Formatter,
    NoFormatting, SequenceState, DEFAULT_INDENT,
};

const NOTHING: FormatChanges = FormatChanges {
    new_line: false,
    new_indent: None,
};
const LINEFEED: FormatChanges = FormatChanges {
    new_line: true,
    new_indent: None,
};
const LF_INDENT_LESS: FormatChanges = FormatChanges {
    new_line: true,
    new_indent: Some(0),
};
const LF_INDENT_MORE: FormatChanges = FormatChanges {
    new_line: true,
    new_indent: Some(8),
};

#[test]
fn all_initially_default() {
    assert_eq!(NoFormatting::new().get_indent_step_size(), DEFAULT_INDENT);
    assert_eq!(AlwaysIndentAlwaysLf::new().get_indent_step_size(), DEFAULT_INDENT);
    assert_eq!(AutoIndent::new().get_indent_step_size(), DEFAULT_INDENT);
}

#[test]
fn after_reset_default_again() {
    let mut a = NoFormatting::new();
    a.set_indent_step_size(DEFAULT_INDENT + 1);
    a.reset_to_defaults();
    assert_eq!(a.get_indent_step_size(), DEFAULT_INDENT);

    let mut b = AlwaysIndentAlwaysLf::new();
    b.set_indent_step_size(DEFAULT_INDENT + 1);
    b.reset_to_defaults();
    assert_eq!(b.get_indent_step_size(), DEFAULT_INDENT);

    let mut c = AutoIndent::new();
    c.set_indent_step_size(DEFAULT_INDENT + 1);
    c.reset_to_defaults();
    assert_eq!(c.get_indent_step_size(), DEFAULT_INDENT);
}

#[test]
fn auto_indenting_after_initial() {
    let mut fmtr = AutoIndent::new();
    assert_eq!(fmtr.check(&SequenceState::initial_open("html")), LINEFEED);
}

// A requested linefeed right after an opening tag that is not under LfAlways indents the block
// and inserts the linefeed itself: LF_INDENT_MORE.
#[test]
fn auto_indenting_rule_always_indent() {
    let mut fmtr = AutoIndent::new();
    fmtr.add_tags_to_rule(&["html"], AutoFmtRule::IndentAlways)
        .unwrap();

    // <body>\n<img></body>
    assert_eq!(fmtr.check(&SequenceState::open_lf("body")), LF_INDENT_MORE);
    assert_eq!(fmtr.check(&SequenceState::lf_self_closing("img")), NOTHING);
    assert_eq!(
        fmtr.check(&SequenceState::self_closing_close("img", "body")),
        LF_INDENT_LESS
    );

    // <html>\n<img></html>
    assert_eq!(fmtr.check(&SequenceState::open_lf("html")), LF_INDENT_MORE);
    assert_eq!(fmtr.check(&SequenceState::lf_self_closing("img")), NOTHING);
    assert_eq!(
        fmtr.check(&SequenceState::self_closing_close("img", "html")),
        LF_INDENT_LESS
    );

    // <html><img></html>
    assert_eq!(
        fmtr.check(&SequenceState::open_self_closing("html", "img")),
        LF_INDENT_MORE
    );
    assert_eq!(
        fmtr.check(&SequenceState::self_closing_close("img", "html")),
        LF_INDENT_LESS
    );

    // <html><body>\n<img></body></html>
    assert_eq!(
        fmtr.check(&SequenceState::open_open("html", "body")),
        LF_INDENT_MORE
    );
    assert_eq!(fmtr.check(&SequenceState::open_lf("body")), LF_INDENT_MORE);
    assert_eq!(fmtr.check(&SequenceState::lf_self_closing("img")), NOTHING);
    assert_eq!(
        fmtr.check(&SequenceState::self_closing_close("img", "body")),
        LF_INDENT_LESS
    );
    assert_eq!(
        fmtr.check(&SequenceState::close_close("body", "html")),
        LF_INDENT_LESS
    );
}

#[test]
fn auto_indenting_rule_lf_always() {
    let mut fmtr = AutoIndent::new();
    fmtr.add_tags_to_rule(&["html"], AutoFmtRule::LfAlways)
        .unwrap();

    // <html><img></html>
    assert_eq!(
        fmtr.check(&SequenceState::open_self_closing("html", "img")),
        LINEFEED
    );
    assert_eq!(
        fmtr.check(&SequenceState::self_closing_close("img", "html")),
        LINEFEED
    );
    assert_eq!(fmtr.check(&SequenceState::close_text("html")), LINEFEED);

    // <body><img></body>
    assert_eq!(
        fmtr.check(&SequenceState::open_self_closing("body", "img")),
        NOTHING
    );
    assert_eq!(
        fmtr.check(&SequenceState::self_closing_close("img", "body")),
        NOTHING
    );
    assert_eq!(fmtr.check(&SequenceState::close_text("body")), NOTHING);

    // <html>\n<img></html>
    assert_eq!(fmtr.check(&SequenceState::open_lf("html")), LINEFEED);
    assert_eq!(fmtr.check(&SequenceState::lf_self_closing("img")), NOTHING);
    assert_eq!(
        fmtr.check(&SequenceState::self_closing_close("img", "html")),
        LINEFEED
    );
    assert_eq!(fmtr.check(&SequenceState::close_text("html")), LINEFEED);

    // <body>\n<img></body>
    assert_eq!(fmtr.check(&SequenceState::open_lf("body")), LF_INDENT_MORE);
    assert_eq!(fmtr.check(&SequenceState::lf_self_closing("img")), NOTHING);
    assert_eq!(
        fmtr.check(&SequenceState::self_closing_close("img", "body")),
        LF_INDENT_LESS
    );
    assert_eq!(fmtr.check(&SequenceState::close_text("body")), NOTHING);
}

#[test]
fn auto_indenting_rule_lf_closing() {
    let mut fmtr = AutoIndent::new();
    fmtr.add_tags_to_rule(&["html", "img"], AutoFmtRule::LfClosing)
        .unwrap();

    // <html></html>
    assert_eq!(
        fmtr.check(&SequenceState::open_close("html", "html")),
        NOTHING
    );

    // <html>Text</html>
    assert_eq!(fmtr.check(&SequenceState::open_text("html")), NOTHING);
    assert_eq!(fmtr.check(&SequenceState::text_close("html")), NOTHING);
    assert_eq!(fmtr.check(&SequenceState::close_text("html")), LINEFEED);

    // <body>Text</body>
    assert_eq!(fmtr.check(&SequenceState::open_text("body")), NOTHING);
    assert_eq!(fmtr.check(&SequenceState::text_close("body")), NOTHING);
    assert_eq!(fmtr.check(&SequenceState::close_text("body")), NOTHING);

    // <body>\n<link></body>
    assert_eq!(fmtr.check(&SequenceState::open_lf("body")), LF_INDENT_MORE);
    assert_eq!(fmtr.check(&SequenceState::lf_self_closing("link")), NOTHING);
    assert_eq!(
        fmtr.check(&SequenceState::self_closing_close("link", "body")),
        LF_INDENT_LESS
    );
    assert_eq!(fmtr.check(&SequenceState::close_text("body")), NOTHING);

    // <html>\n<link></html>
    assert_eq!(fmtr.check(&SequenceState::open_lf("html")), LF_INDENT_MORE);
    assert_eq!(fmtr.check(&SequenceState::lf_self_closing("link")), NOTHING);
    assert_eq!(
        fmtr.check(&SequenceState::self_closing_close("link", "html")),
        LF_INDENT_LESS
    );
    assert_eq!(fmtr.check(&SequenceState::close_text("html")), LINEFEED);

    // <div><img></div>
    assert_eq!(
        fmtr.check(&SequenceState::open_self_closing("div", "img")),
        NOTHING
    );
    assert_eq!(
        fmtr.check(&SequenceState::self_closing_close("img", "div")),
        LINEFEED
    );
    assert_eq!(fmtr.check(&SequenceState::close_text("div")), NOTHING);
}

#[test]
fn auto_indenting_mixed_rules() {
    let mut fmtr = AutoIndent::new();

    fmtr.add_tags_to_rule(&["html", "body"], AutoFmtRule::IndentAlways)
        .unwrap();
    assert!(fmtr
        .add_tags_to_rule(&["html", "head"], AutoFmtRule::LfAlways)
        .is_err());
    fmtr.add_tags_to_rule(&["html", "body"], AutoFmtRule::LfClosing)
        .unwrap();
    fmtr.reset_to_defaults();

    fmtr.add_tags_to_rule(&["html", "body"], AutoFmtRule::LfAlways)
        .unwrap();
    assert!(fmtr
        .add_tags_to_rule(&["html", "head"], AutoFmtRule::IndentAlways)
        .is_err());
    assert!(fmtr
        .add_tags_to_rule(&["body", "header"], AutoFmtRule::LfClosing)
        .is_err());
    fmtr.reset_to_defaults();

    fmtr.add_tags_to_rule(&["html"], AutoFmtRule::LfAlways)
        .unwrap();
    fmtr.add_tags_to_rule(&["head", "body"], AutoFmtRule::IndentAlways)
        .unwrap();
    fmtr.add_tags_to_rule(&["head", "body", "div"], AutoFmtRule::LfClosing)
        .unwrap();

    // <html><head><link></head></html>
    assert_eq!(
        fmtr.check(&SequenceState::open_open("html", "head")),
        LINEFEED
    );
    assert_eq!(
        fmtr.check(&SequenceState::open_self_closing("head", "link")),
        LF_INDENT_MORE
    );
    assert_eq!(
        fmtr.check(&SequenceState::self_closing_close("link", "head")),
        LF_INDENT_LESS
    );
    assert_eq!(
        fmtr.check(&SequenceState::close_close("head", "html")),
        LINEFEED
    );
    assert_eq!(fmtr.check(&SequenceState::close_text("html")), LINEFEED);

    // <body><div>Text</div></body>
    assert_eq!(
        fmtr.check(&SequenceState::open_open("body", "div")),
        LF_INDENT_MORE
    );
    assert_eq!(fmtr.check(&SequenceState::open_text("div")), NOTHING);
    assert_eq!(fmtr.check(&SequenceState::text_close("div")), NOTHING);
    assert_eq!(
        fmtr.check(&SequenceState::close_close("div", "body")),
        LF_INDENT_LESS
    );
    assert_eq!(fmtr.check(&SequenceState::close_text("body")), LINEFEED);

    // <body><img></body>
    assert_eq!(
        fmtr.check(&SequenceState::open_self_closing("body", "img")),
        LF_INDENT_MORE
    );
    assert_eq!(
        fmtr.check(&SequenceState::self_closing_close("img", "body")),
        LF_INDENT_LESS
    );
    assert_eq!(fmtr.check(&SequenceState::close_text("body")), LINEFEED);
}

#[test]
fn registration_conflicts_report_the_tag() {
    let mut fmtr = AutoIndent::new();
    fmtr.add_tags_to_rule(&["t"], AutoFmtRule::IndentAlways).unwrap();
    assert!(fmtr.add_tags_to_rule(&["t"], AutoFmtRule::LfClosing).is_ok());
    let err = fmtr
        .add_tags_to_rule(&["a", "t"], AutoFmtRule::LfAlways)
        .unwrap_err();
    assert_eq!(err.rule, AutoFmtRule::LfAlways);
    assert_eq!(err.tags, vec!["t".to_string()]);

    let mut other = AutoIndent::new();
    other.add_tags_to_rule(&["t"], AutoFmtRule::LfAlways).unwrap();
    let err = other
        .add_tags_to_rule(&["t"], AutoFmtRule::LfClosing)
        .unwrap_err();
    assert_eq!(err.rule, AutoFmtRule::LfClosing);
    assert_eq!(err.tags, vec!["t".to_string()]);
    let err = other
        .add_tags_to_rule(&["x", "t", "y"], AutoFmtRule::IndentAlways)
        .unwrap_err();
    assert_eq!(err.tags, vec!["t".to_string()]);
}

#[test]
fn refused_registration_changes_nothing() {
    let mut fmtr = AutoIndent::new();
    fmtr.add_tags_to_rule(&["html"], AutoFmtRule::LfAlways).unwrap();
    assert!(fmtr
        .add_tags_to_rule(&["html", "body"], AutoFmtRule::IndentAlways)
        .is_err());
    // body was not registered under IndentAlways by the refused call.
    assert_eq!(fmtr.check(&SequenceState::open_text("body")), NOTHING);
    assert_eq!(fmtr.fltr_indent_always.len(), 0);
}

#[test]
fn registering_again_replaces_the_rule() {
    let mut fmtr = AutoIndent::new();
    fmtr.add_tags_to_rule(&["a", "b"], AutoFmtRule::LfClosing).unwrap();
    fmtr.add_tags_to_rule(&["c"], AutoFmtRule::LfClosing).unwrap();
    assert_eq!(fmtr.fltr_lf_closing, vec!["c".to_string()]);
    fmtr.reset_ruleset().unwrap();
    assert!(fmtr.fltr_lf_closing.is_empty());
}

#[test]
fn scenario_indent_always() {
    let mut fmtr = AutoIndent::new();
    fmtr.add_tags_to_rule(&["html"], AutoFmtRule::IndentAlways).unwrap();
    assert_eq!(
        fmtr.check(&SequenceState::open_open("html", "img")),
        LF_INDENT_MORE
    );
    assert_eq!(fmtr.check(&SequenceState::open_close("img", "img")), NOTHING);
    assert_eq!(
        fmtr.check(&SequenceState::close_close("img", "html")),
        LF_INDENT_LESS
    );
}

#[test]
fn scenario_lf_always() {
    let mut fmtr = AutoIndent::new();
    fmtr.add_tags_to_rule(&["html"], AutoFmtRule::LfAlways).unwrap();
    assert_eq!(
        fmtr.check(&SequenceState::open_self_closing("html", "img")),
        LINEFEED
    );
    assert_eq!(
        fmtr.check(&SequenceState::self_closing_close("img", "html")),
        LINEFEED
    );
}

#[test]
fn scenario_lf_closing() {
    let mut fmtr = AutoIndent::new();
    fmtr.add_tags_to_rule(&["div", "img"], AutoFmtRule::LfClosing).unwrap();
    assert_eq!(
        fmtr.check(&SequenceState::open_self_closing("div", "img")),
        NOTHING
    );
    assert_eq!(
        fmtr.check(&SequenceState::self_closing_close("img", "div")),
        LINEFEED
    );
}

#[test]
fn scenario_empty_pair() {
    let mut fmtr = AutoIndent::new();
    fmtr.add_tags_to_rule(&["html"], AutoFmtRule::LfAlways).unwrap();
    // Nothing was pushed for the empty pair, so nothing is popped: the open block of body
    // (indented by its linefeed) is still the one closed afterwards.
    assert_eq!(fmtr.check(&SequenceState::open_lf("body")), LF_INDENT_MORE);
    assert_eq!(
        fmtr.check(&SequenceState::open_close("html", "html")),
        LINEFEED
    );
    assert_eq!(
        fmtr.check(&SequenceState::close_close("html", "body")),
        LF_INDENT_LESS
    );
}

#[test]
fn always_indent_always_lf_decisions() {
    let mut fmtr = AlwaysIndentAlwaysLf::new();
    assert_eq!(fmtr.check(&SequenceState::initial_open("html")), LINEFEED);
    assert_eq!(
        fmtr.check(&SequenceState::open_open("html", "body")),
        LF_INDENT_MORE
    );
    assert_eq!(fmtr.check(&SequenceState::open_close("p", "p")), LINEFEED);
    assert_eq!(
        fmtr.check(&SequenceState::close_close("p", "body")),
        LF_INDENT_LESS
    );
    assert_eq!(fmtr.check(&SequenceState::close_text("body")), LINEFEED);
    assert_eq!(fmtr.check(&SequenceState::text_close("body")), LF_INDENT_LESS);
    assert_eq!(fmtr.check(&SequenceState::lf_self_closing("img")), NOTHING);
}

#[test]
fn no_formatting_decides_nothing() {
    let mut fmtr = NoFormatting::new();
    assert_eq!(fmtr.check(&SequenceState::initial_open("html")), NOTHING);
    assert_eq!(fmtr.check(&SequenceState::open_lf("html")), NOTHING);
    assert_eq!(fmtr.check(&SequenceState::text_close("html")), NOTHING);
}

#[test]
fn format_change_formulas() {
    assert_eq!(
        FormatChanges::indent_more(4, 4),
        FormatChanges { new_line: false, new_indent: Some(8) }
    );
    assert_eq!(
        FormatChanges::lf_indent_more(6, 2),
        FormatChanges { new_line: true, new_indent: Some(8) }
    );
    assert_eq!(
        FormatChanges::indent_less(10, 4),
        FormatChanges { new_line: false, new_indent: Some(6) }
    );
    assert_eq!(
        FormatChanges::lf_indent_less(2, 4),
        FormatChanges { new_line: true, new_indent: Some(0) }
    );
    assert_eq!(
        FormatChanges::indent_more(usize::MAX, 4),
        FormatChanges { new_line: false, new_indent: Some(usize::MAX) }
    );
    assert_eq!(FormatChanges::may_lf(true), LINEFEED);
    assert_eq!(FormatChanges::lf(), LINEFEED);
    assert_eq!(FormatChanges::nothing(), NOTHING);
}

#[test]
fn step_size_drives_indentation() {
    let mut fmtr = AutoIndent::new();
    fmtr.set_indent_step_size(2);
    assert_eq!(fmtr.get_indent_step_size(), 2);
    assert_eq!(
        fmtr.check(&SequenceState::open_lf("div")),
        FormatChanges { new_line: true, new_indent: Some(6) }
    );
}
