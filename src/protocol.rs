//! The writing protocol as a state machine: what each call on the writer emits and how it
//! changes the writer's state.
//!
//! Tag terminators are written one call late, so that attributes can still be added to a tag
//! after it was opened. Each call that writes an event first writes the terminator of the last
//! event, then applies the formatter's decision for the gap between the two events, then
//! writes its own content. The output is modelled as a sequence of pieces: markup the caller
//! asked for, and layout (a linefeed with its indentation) that the formatter inserted.
use vstd::prelude::*;

use crate::format::{indent_after, less, more, Event, FormatChanges, Formatter, Sequence};
use crate::formatters::{AutoIndent, AutoIndentModel, NoFormatting};
use crate::syntax::{PropertyConfig, SyntaxConfig};

verus! {

/// A call on the writer whose result is not `Ok`.
#[derive(Clone, Copy, Debug, PartialEq, Eq, Structural)]
pub enum UsageError {
    /// The syntax has no self-closing tags.
    NoSelfClosing,
    /// The syntax has no pairs of tags.
    NoTagPairs,
    /// The syntax has no attributes.
    NoProperties,
    /// A closing tag was asked for while no tag is open.
    NothingToClose,
    /// Attributes were given while the last event is no opening or self-closing tag.
    NoPendingTag,
}

/// A call on the writer.
pub enum Call {
    /// Opens a pair of tags.
    Open(Seq<char>),
    /// Closes the innermost open pair.
    Close,
    /// Writes a self-closing tag.
    SelfClosing(Seq<char>),
    /// Writes text.
    Text(Seq<char>),
    /// Requests a linefeed.
    NewLine,
    /// Adds attributes (name and value) to the last tag.
    Properties(Seq<(Seq<char>, Seq<char>)>),
    /// Increases the indentation by one step.
    IndentMore,
    /// Decreases the indentation by one step.
    IndentLess,
}

/// A piece of output.
pub enum Piece {
    /// Text the caller asked for: tags, attributes, text, the preamble.
    Markup(Seq<char>),
    /// A linefeed and indentation that the formatter inserted.
    Layout(Seq<char>),
}

impl Piece {
    /// The characters of the piece.
    pub open spec fn chars(self) -> Seq<char> {
        match self {
            Piece::Markup(s) => s,
            Piece::Layout(s) => s,
        }
    }
}

/// All the output of `pieces`.
pub open spec fn flatten(pieces: Seq<Piece>) -> Seq<char>
    decreases pieces.len(),
{
    if pieces.len() == 0 {
        Seq::empty()
    } else {
        flatten(pieces.drop_last()) + pieces.last().chars()
    }
}

/// The output of `pieces` without the layout.
pub open spec fn strip(pieces: Seq<Piece>) -> Seq<char>
    decreases pieces.len(),
{
    if pieces.len() == 0 {
        Seq::empty()
    } else {
        strip(pieces.drop_last()) + match pieces.last() {
            Piece::Markup(s) => s,
            Piece::Layout(_) => Seq::empty(),
        }
    }
}

/// `n` spaces.
pub open spec fn spaces(n: nat) -> Seq<char> {
    Seq::new(n, |i: int| ' ')
}

/// The state of the writer that the output depends on.
pub struct WriterState<V> {
    /// The syntax in use.
    pub syntax: SyntaxConfig,
    /// The formatter.
    pub fmt: V,
    /// Names of the open tags, innermost last.
    pub tag_stack: Seq<Seq<char>>,
    /// The last event written.
    pub last: Event,
    /// The current indentation.
    pub indent: usize,
}

/// The state before anything is written.
pub open spec fn fresh<V>(syntax: SyntaxConfig, fmt: V) -> WriterState<V> {
    WriterState {
        syntax,
        fmt,
        tag_stack: Seq::empty(),
        last: (Sequence::Initial, Seq::empty()),
        indent: 0,
    }
}

/// What a call does: the state after it, the pieces it emits, and its result.
pub struct Outcome<V> {
    pub state: WriterState<V>,
    pub pieces: Seq<Piece>,
    pub result: Result<(), UsageError>,
}

/// A call that is refused: nothing changes and nothing is written.
pub open spec fn refused<V>(s: WriterState<V>, e: UsageError) -> Outcome<V> {
    Outcome { state: s, pieces: Seq::empty(), result: Err(e) }
}

/// What is still to be written after an event of kind `last`: the end of its tag, or the
/// preamble before the first event.
pub open spec fn terminator(syntax: SyntaxConfig, last: Sequence) -> Seq<char> {
    match last {
        Sequence::Initial => match syntax.doctype {
            Some(d) => d@,
            None => Seq::empty(),
        },
        Sequence::SelfClosing => match syntax.self_closing {
            Some(c) => c.after.text(),
            None => Seq::empty(),
        },
        Sequence::Opening => match syntax.tag_pairs {
            Some(c) => c.opening_after.text(),
            None => Seq::empty(),
        },
        Sequence::Closing => match syntax.tag_pairs {
            Some(c) => c.closing_after.text(),
            None => Seq::empty(),
        },
        _ => Seq::empty(),
    }
}

/// The layout that `fc` inserts at indentation `indent`.
pub open spec fn layout(fc: FormatChanges, indent: usize) -> Seq<Piece> {
    if fc.new_line {
        seq![Piece::Layout(seq!['\n'] + spaces(indent_after(fc, indent) as nat))]
    } else {
        Seq::empty()
    }
}

/// Moving on to the event `next`: the terminator of the last event, then the formatter's
/// decision for the gap.
pub open spec fn advance<F: Formatter>(s: WriterState<F::V>, next: Event) -> (
    WriterState<F::V>,
    Seq<Piece>,
) {
    let fc = F::decision(s.fmt, s.last, next, s.indent);
    let s2 = WriterState {
        fmt: F::checked(s.fmt, s.last, next, s.indent),
        last: next,
        indent: indent_after(fc, s.indent),
        ..s
    };
    (s2, seq![Piece::Markup(terminator(s.syntax, s.last.0))] + layout(fc, s.indent))
}

/// One attribute.
pub open spec fn property_text(cfg: PropertyConfig, p: (Seq<char>, Seq<char>)) -> Seq<char> {
    cfg.name_before.text() + p.0 + cfg.name_after.text() + cfg.name_separator.text()
        + cfg.value_before.text() + p.1 + cfg.value_after.text()
}

/// The attributes `ps`, separated.
pub open spec fn properties_body(cfg: PropertyConfig, ps: Seq<(Seq<char>, Seq<char>)>) -> Seq<
    char,
>
    decreases ps.len(),
{
    if ps.len() == 0 {
        Seq::empty()
    } else if ps.len() == 1 {
        property_text(cfg, ps[0])
    } else {
        properties_body(cfg, ps.drop_last()) + cfg.value_separator.text() + property_text(
            cfg,
            ps.last(),
        )
    }
}

/// The attributes `ps` as written after a tag name; nothing when there are none.
pub open spec fn properties_text(cfg: PropertyConfig, ps: Seq<(Seq<char>, Seq<char>)>) -> Seq<
    char,
> {
    if ps.len() == 0 {
        Seq::empty()
    } else {
        cfg.initiator.text() + properties_body(cfg, ps)
    }
}

/// Moves on to `next` and writes `content` after the layout.
pub open spec fn emit<F: Formatter>(s: WriterState<F::V>, next: Event, content: Seq<char>) -> Outcome<
    F::V,
> {
    let (s2, p) = advance::<F>(s, next);
    Outcome { state: s2, pieces: p.push(Piece::Markup(content)), result: Ok(()) }
}

/// What the call `c` does in state `s`.
pub open spec fn step<F: Formatter>(s: WriterState<F::V>, c: Call) -> Outcome<F::V> {
    match c {
        Call::Open(tag) => match s.syntax.tag_pairs {
            None => refused(s, UsageError::NoTagPairs),
            Some(cfg) => {
                let o = emit::<F>(s, (Sequence::Opening, tag), cfg.opening_before.text() + tag);
                Outcome {
                    state: WriterState { tag_stack: s.tag_stack.push(tag), ..o.state },
                    ..o
                }
            },
        },
        Call::Close => match s.syntax.tag_pairs {
            None => refused(s, UsageError::NoTagPairs),
            Some(cfg) => if s.tag_stack.len() == 0 {
                refused(s, UsageError::NothingToClose)
            } else {
                let tag = s.tag_stack.last();
                emit::<F>(
                    WriterState { tag_stack: s.tag_stack.drop_last(), ..s },
                    (Sequence::Closing, tag),
                    cfg.closing_before.text() + tag,
                )
            },
        },
        Call::SelfClosing(tag) => match s.syntax.self_closing {
            None => refused(s, UsageError::NoSelfClosing),
            Some(cfg) => emit::<F>(s, (Sequence::SelfClosing, tag), cfg.before.text() + tag),
        },
        Call::Text(t) => emit::<F>(s, (Sequence::Text, Seq::empty()), t),
        Call::NewLine => {
            let (s2, p) = advance::<F>(s, (Sequence::LineFeed, Seq::empty()));
            Outcome { state: s2, pieces: p, result: Ok(()) }
        },
        Call::Properties(ps) => if s.last.0 != Sequence::SelfClosing && s.last.0
            != Sequence::Opening {
            refused(s, UsageError::NoPendingTag)
        } else {
            match s.syntax.properties {
                None => refused(s, UsageError::NoProperties),
                Some(cfg) => Outcome {
                    state: s,
                    pieces: seq![Piece::Markup(properties_text(cfg, ps))],
                    result: Ok(()),
                },
            }
        },
        Call::IndentMore => Outcome {
            state: WriterState { indent: more(s.indent, F::step_size(s.fmt)), ..s },
            pieces: Seq::empty(),
            result: Ok(()),
        },
        Call::IndentLess => Outcome {
            state: WriterState { indent: less(s.indent, F::step_size(s.fmt)), ..s },
            pieces: Seq::empty(),
            result: Ok(()),
        },
    }
}

/// The state after the calls `calls` from `s`, and all they emit.
pub open spec fn run<F: Formatter>(s: WriterState<F::V>, calls: Seq<Call>) -> (
    WriterState<F::V>,
    Seq<Piece>,
)
    decreases calls.len(),
{
    if calls.len() == 0 {
        (s, Seq::empty())
    } else {
        let (s1, p1) = run::<F>(s, calls.drop_last());
        let o = step::<F>(s1, calls.last());
        (o.state, p1 + o.pieces)
    }
}

/// What ending the document writes: the terminator of the last tag (not the preamble).
pub open spec fn final_text<V>(s: WriterState<V>) -> Seq<char> {
    if s.last.0 == Sequence::Initial {
        Seq::empty()
    } else {
        terminator(s.syntax, s.last.0)
    }
}

pub(crate) proof fn lemma_flatten_append(a: Seq<Piece>, b: Seq<Piece>)
    ensures
        flatten(a + b) == flatten(a) + flatten(b),
        strip(a + b) == strip(a) + strip(b),
    decreases b.len(),
{
    if b.len() == 0 {
        assert(a + b =~= a);
    } else {
        lemma_flatten_append(a, b.drop_last());
        assert((a + b).drop_last() =~= a + b.drop_last());
    }
}

/// Replaying the same calls from the same state gives the same state and the same output.
pub proof fn replay_is_deterministic<F: Formatter>(
    a: WriterState<F::V>,
    b: WriterState<F::V>,
    calls: Seq<Call>,
)
    requires
        a == b,
    ensures
        run::<F>(a, calls) == run::<F>(b, calls),
        flatten(run::<F>(a, calls).1) == flatten(run::<F>(b, calls).1),
{
}

/// The markup of one call does not depend on the formatter.
proof fn lemma_step_markup<F: Formatter, G: Formatter>(
    s: WriterState<F::V>,
    t: WriterState<G::V>,
    c: Call,
)
    requires
        s.syntax == t.syntax,
        s.tag_stack == t.tag_stack,
        s.last == t.last,
    ensures
        strip(step::<F>(s, c).pieces) == strip(step::<G>(t, c).pieces),
        step::<F>(s, c).result == step::<G>(t, c).result,
        step::<F>(s, c).state.syntax == step::<G>(t, c).state.syntax,
        step::<F>(s, c).state.tag_stack == step::<G>(t, c).state.tag_stack,
        step::<F>(s, c).state.last == step::<G>(t, c).state.last,
{
    reveal_with_fuel(strip, 4);
    match c {
        Call::Open(tag) => {
            lemma_advance_markup::<F, G>(s, t, (Sequence::Opening, tag));
        },
        Call::Close => {
            if s.tag_stack.len() > 0 {
                lemma_advance_markup::<F, G>(
                    WriterState { tag_stack: s.tag_stack.drop_last(), ..s },
                    WriterState { tag_stack: t.tag_stack.drop_last(), ..t },
                    (Sequence::Closing, s.tag_stack.last()),
                );
            }
        },
        Call::SelfClosing(tag) => {
            lemma_advance_markup::<F, G>(s, t, (Sequence::SelfClosing, tag));
        },
        Call::Text(_) => {
            lemma_advance_markup::<F, G>(s, t, (Sequence::Text, Seq::empty()));
        },
        Call::NewLine => {
            lemma_advance_markup::<F, G>(s, t, (Sequence::LineFeed, Seq::empty()));
        },
        _ => {},
    }
}

/// Moving on to an event writes the same markup whatever the formatter.
proof fn lemma_advance_markup<F: Formatter, G: Formatter>(
    s: WriterState<F::V>,
    t: WriterState<G::V>,
    next: Event,
)
    requires
        s.syntax == t.syntax,
        s.last == t.last,
    ensures
        strip(advance::<F>(s, next).1) == strip(advance::<G>(t, next).1),
        forall|content: Seq<char>|
            strip(#[trigger] advance::<F>(s, next).1.push(Piece::Markup(content))) == strip(
                advance::<G>(t, next).1.push(Piece::Markup(content)),
            ),
{
    reveal_with_fuel(strip, 4);
    let m = seq![Piece::Markup(terminator(s.syntax, s.last.0))];
    let lf = layout(F::decision(s.fmt, s.last, next, s.indent), s.indent);
    let lg = layout(G::decision(t.fmt, t.last, next, t.indent), t.indent);
    lemma_flatten_append(m, lf);
    lemma_flatten_append(m, lg);
    assert(strip(lf) == Seq::<char>::empty()) by {
        if lf.len() == 1 {
            assert(lf.drop_last() =~= Seq::<Piece>::empty());
        }
    }
    assert(strip(lg) == Seq::<char>::empty()) by {
        if lg.len() == 1 {
            assert(lg.drop_last() =~= Seq::<Piece>::empty());
        }
    }
    assert(strip(m) == terminator(s.syntax, s.last.0)) by {
        assert(m.drop_last() =~= Seq::<Piece>::empty());
    }
    assert forall|content: Seq<char>|
        strip(#[trigger] advance::<F>(s, next).1.push(Piece::Markup(content))) == strip(
            advance::<G>(t, next).1.push(Piece::Markup(content)),
        ) by {
        assert(advance::<F>(s, next).1.push(Piece::Markup(content)).drop_last()
            =~= advance::<F>(s, next).1);
        assert(advance::<G>(t, next).1.push(Piece::Markup(content)).drop_last()
            =~= advance::<G>(t, next).1);
    }
}

/// The markup written by a sequence of calls does not depend on the formatter.
pub proof fn markup_is_independent_of_formatter<F: Formatter, G: Formatter>(
    s: WriterState<F::V>,
    t: WriterState<G::V>,
    calls: Seq<Call>,
)
    requires
        s.syntax == t.syntax,
        s.tag_stack == t.tag_stack,
        s.last == t.last,
    ensures
        strip(run::<F>(s, calls).1) == strip(run::<G>(t, calls).1),
        run::<F>(s, calls).0.syntax == run::<G>(t, calls).0.syntax,
        run::<F>(s, calls).0.tag_stack == run::<G>(t, calls).0.tag_stack,
        run::<F>(s, calls).0.last == run::<G>(t, calls).0.last,
    decreases calls.len(),
{
    if calls.len() > 0 {
        markup_is_independent_of_formatter::<F, G>(s, t, calls.drop_last());
        let (s1, p1) = run::<F>(s, calls.drop_last());
        let (t1, q1) = run::<G>(t, calls.drop_last());
        lemma_step_markup::<F, G>(s1, t1, calls.last());
        lemma_flatten_append(p1, step::<F>(s1, calls.last()).pieces);
        lemma_flatten_append(q1, step::<G>(t1, calls.last()).pieces);
    }
}

/// Whether every layout piece of `pieces` is a linefeed followed by spaces only.
pub open spec fn layout_is_whitespace(pieces: Seq<Piece>) -> bool {
    forall|i: int|
        0 <= i < pieces.len() ==> (#[trigger] pieces[i] matches Piece::Layout(s) ==> s.len() > 0
            && s[0] == '\n' && forall|j: int| 1 <= j < s.len() ==> s[j] == ' ')
}

proof fn lemma_whitespace_append(a: Seq<Piece>, b: Seq<Piece>)
    requires
        layout_is_whitespace(a),
        layout_is_whitespace(b),
    ensures
        layout_is_whitespace(a + b),
{
    assert forall|i: int| 0 <= i < (a + b).len() implies (#[trigger] (a + b)[i] matches Piece::Layout(
        s,
    ) ==> s.len() > 0 && s[0] == '\n' && forall|j: int| 1 <= j < s.len() ==> s[j] == ' ') by {
        if i < a.len() {
            assert((a + b)[i] == a[i]);
        } else {
            assert((a + b)[i] == b[i - a.len()]);
        }
    }
}

proof fn lemma_advance_whitespace<F: Formatter>(s: WriterState<F::V>, next: Event)
    ensures
        layout_is_whitespace(advance::<F>(s, next).1),
        forall|content: Seq<char>|
            layout_is_whitespace(#[trigger] advance::<F>(s, next).1.push(Piece::Markup(content))),
{
    let m = seq![Piece::Markup(terminator(s.syntax, s.last.0))];
    let fc = F::decision(s.fmt, s.last, next, s.indent);
    let l = layout(fc, s.indent);
    assert(layout_is_whitespace(m));
    assert(layout_is_whitespace(l)) by {
        if fc.new_line {
            let w = seq!['\n'] + spaces(indent_after(fc, s.indent) as nat);
            assert(l[0] == Piece::Layout(w));
            assert forall|j: int| 1 <= j < w.len() implies w[j] == ' ' by {
                assert(w[j] == spaces(indent_after(fc, s.indent) as nat)[j - 1]);
            }
        }
    }
    lemma_whitespace_append(m, l);
    assert forall|content: Seq<char>|
        layout_is_whitespace(#[trigger] advance::<F>(s, next).1.push(Piece::Markup(content))) by {
        let c = seq![Piece::Markup(content)];
        assert(layout_is_whitespace(c));
        lemma_whitespace_append(advance::<F>(s, next).1, c);
        assert(advance::<F>(s, next).1 + c =~= advance::<F>(s, next).1.push(Piece::Markup(content)));
    }
}

/// All the layout a writer inserts, whatever its formatter, is linefeeds followed by spaces.
pub proof fn layout_is_linefeeds_and_spaces<F: Formatter>(s: WriterState<F::V>, calls: Seq<Call>)
    ensures
        layout_is_whitespace(run::<F>(s, calls).1),
    decreases calls.len(),
{
    if calls.len() > 0 {
        layout_is_linefeeds_and_spaces::<F>(s, calls.drop_last());
        let (s1, p1) = run::<F>(s, calls.drop_last());
        let c = calls.last();
        let o = step::<F>(s1, c);
        assert(layout_is_whitespace(o.pieces)) by {
            match c {
                Call::Open(tag) => lemma_advance_whitespace::<F>(s1, (Sequence::Opening, tag)),
                Call::Close => if s1.tag_stack.len() > 0 {
                    lemma_advance_whitespace::<F>(
                        WriterState { tag_stack: s1.tag_stack.drop_last(), ..s1 },
                        (Sequence::Closing, s1.tag_stack.last()),
                    );
                },
                Call::SelfClosing(tag) => lemma_advance_whitespace::<F>(
                    s1,
                    (Sequence::SelfClosing, tag),
                ),
                Call::Text(_) => lemma_advance_whitespace::<F>(s1, (Sequence::Text, Seq::empty())),
                Call::NewLine => lemma_advance_whitespace::<F>(
                    s1,
                    (Sequence::LineFeed, Seq::empty()),
                ),
                _ => {},
            }
        }
        lemma_whitespace_append(p1, o.pieces);
    }
}

/// The unformatted writer emits no layout: its whole output is markup.
proof fn lemma_unformatted_has_no_layout(s: WriterState<nat>, calls: Seq<Call>)
    ensures
        flatten(run::<NoFormatting>(s, calls).1) == strip(run::<NoFormatting>(s, calls).1),
    decreases calls.len(),
{
    reveal_with_fuel(flatten, 4);
    reveal_with_fuel(strip, 4);
    if calls.len() > 0 {
        lemma_unformatted_has_no_layout(s, calls.drop_last());
        let (s1, p1) = run::<NoFormatting>(s, calls.drop_last());
        let o = step::<NoFormatting>(s1, calls.last());
        lemma_flatten_append(p1, o.pieces);
        let p = o.pieces;
        if p.len() == 2 {
            assert(p.drop_last().drop_last() =~= Seq::<Piece>::empty());
        } else if p.len() == 1 {
            assert(p.drop_last() =~= Seq::<Piece>::empty());
        }
    }
}

/// Removing the inserted linefeeds and indentation from what the rule-based formatter writes
/// leaves exactly what the unformatted writer writes for the same calls.
pub proof fn stripped_output_is_unformatted_output(
    syntax: SyntaxConfig,
    auto: AutoIndentModel,
    plain: nat,
    calls: Seq<Call>,
)
    ensures
        strip(run::<AutoIndent>(fresh(syntax, auto), calls).1) == flatten(
            run::<NoFormatting>(fresh(syntax, plain), calls).1,
        ),
        layout_is_whitespace(run::<AutoIndent>(fresh(syntax, auto), calls).1),
{
    markup_is_independent_of_formatter::<AutoIndent, NoFormatting>(
        fresh(syntax, auto),
        fresh(syntax, plain),
        calls,
    );
    lemma_unformatted_has_no_layout(fresh(syntax, plain), calls);
    layout_is_linefeeds_and_spaces::<AutoIndent>(fresh(syntax, auto), calls);
}

} // verus!
