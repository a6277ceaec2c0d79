//! `MarkupSth`, the writer: it owns the syntax, the formatter and the document, and turns
//! calls (open, close, self-closing, attributes, text, linefeed) into formatted output.
//!
//! Every call follows the state machine of `protocol`: a call that writes an event first
//! writes what is pending of the last event, then applies the formatter's decision, then
//! writes its own content. A refused call changes nothing.
use vstd::prelude::*;

use crate::format::{
    blocks_after, closes_block, indent_after, names, FormatChanges, Formatter, Sequence,
    SequenceState, TagSequence,
};
use crate::formatters::AutoIndent;
use crate::protocol::{
    advance, final_text, flatten, fresh, layout, lemma_flatten_append, properties_body,
    properties_text, property_text, run, spaces, step, terminator, Call, Piece, UsageError,
    WriterState,
};
use crate::syntax::{push_char, Language, PropertyConfig, SyntaxConfig};

verus! {

/// `n` spaces.
fn indentation(n: usize) -> (r: String)
    ensures
        r@ == spaces(n as nat),
{
    let mut s = String::new();
    let mut i: usize = 0;
    while i < n
        invariant
            i <= n,
            s@ == spaces(i as nat),
        decreases n - i,
    {
        push_char(&mut s, ' ');
        i = i + 1;
        assert(s@ =~= spaces(i as nat));
    }
    s
}

/// Writes one attribute.
fn write_property(doc: &mut String, cfg: &PropertyConfig, name: &str, value: &str)
    ensures
        final(doc)@ == old(doc)@ + property_text(*cfg, (name@, value@)),
{
    cfg.name_before.write_to(doc);
    doc.append(name);
    cfg.name_after.write_to(doc);
    cfg.name_separator.write_to(doc);
    cfg.value_before.write_to(doc);
    doc.append(value);
    cfg.value_after.write_to(doc);
    assert(doc@ =~= old(doc)@ + property_text(*cfg, (name@, value@)));
}

/// The attributes of a slice as the protocol sees them.
pub open spec fn property_pairs(ps: Seq<(&str, &str)>) -> Seq<(Seq<char>, Seq<char>)> {
    ps.map_values(|p: (&str, &str)| (p.0@, p.1@))
}

/// `n` calls that each close a tag.
pub open spec fn closes(n: nat) -> Seq<Call> {
    Seq::new(n, |i: int| Call::Close)
}

/// The writer.
pub struct MarkupSth<F: Formatter> {
    /// The syntax of the markup language.
    pub syntax: SyntaxConfig,
    /// The formatter, chosen for the whole document.
    pub formatter: F,
    /// Open tags and the last event.
    seq_state: SequenceState,
    /// The current indentation as spaces.
    indent_str: String,
    /// The document written so far.
    document: String,
}

impl<F: Formatter> MarkupSth<F> {
    /// The state of the writer.
    pub closed spec fn state(&self) -> WriterState<F::V> {
        WriterState {
            syntax: self.syntax,
            fmt: self.formatter@,
            tag_stack: names(self.seq_state.tag_stack@),
            last: self.seq_state.last@,
            indent: self.seq_state.indent,
        }
    }

    /// The document written so far.
    pub closed spec fn written(&self) -> Seq<char> {
        self.document@
    }

    /// The cached indentation matches the indentation, and the formatter has one open block
    /// per open tag, but for the tag just opened, whose block opens with the next event.
    pub closed spec fn wf(&self) -> bool {
        &&& self.indent_str@ == spaces(self.seq_state.indent as nat)
        &&& F::open_blocks(self.formatter@) + (if self.seq_state.last.0 == Sequence::Opening {
            1int
        } else {
            0int
        }) == self.seq_state.tag_stack@.len()
    }

    /// `after` is this writer after the call `c` with result `r`.
    pub open spec fn performs(self, after: Self, c: Call, r: Result<(), UsageError>) -> bool {
        let o = step::<F>(self.state(), c);
        &&& after.state() == o.state
        &&& after.written() == self.written() + flatten(o.pieces)
        &&& r == o.result
    }

    /// A writer with the syntax of `ml`, a new formatter, and an empty document.
    pub fn new(ml: Language) -> (r: Result<MarkupSth<F>, UsageError>)
        ensures
            r matches Ok(m) && {
                &&& m.wf()
                &&& m.state() == fresh(m.state().syntax, m.state().fmt)
                &&& F::open_blocks(m.state().fmt) == 0
                &&& m.written() == Seq::<char>::empty()
                &&& (ml is Html ==> m.state().syntax.is_html())
                &&& (ml is Xml ==> m.state().syntax.is_xml())
                &&& (ml matches Language::Other(cfg) ==> m.state().syntax == cfg)
            },
    {
        let m = MarkupSth {
            syntax: SyntaxConfig::from(ml),
            formatter: F::new(),
            seq_state: SequenceState::new(),
            indent_str: String::new(),
            document: String::new(),
        };
        assert(names(m.seq_state.tag_stack@) =~= Seq::empty());
        assert(m.indent_str@ =~= spaces(0));
        Ok(m)
    }

    /// Replaces the formatter; only before any tag is open.
    pub fn set_formatter(&mut self, formatter: F)
        requires
            old(self).wf(),
            old(self).state().tag_stack.len() == 0,
            F::open_blocks(formatter@) == 0,
        ensures
            final(self).wf(),
            final(self).state() == (WriterState { fmt: formatter@, ..old(self).state() }),
            final(self).written() == old(self).written(),
    {
        self.formatter = formatter;
    }

    /// Writes `\n` and the indentation.
    fn new_line_internal(&mut self)
        ensures
            final(self).document@ == old(self).document@ + seq!['\n'] + old(self).indent_str@,
            final(self).seq_state == old(self).seq_state,
            final(self).indent_str == old(self).indent_str,
            final(self).syntax == old(self).syntax,
            final(self).formatter == old(self).formatter,
    {
        push_char(&mut self.document, '\n');
        self.document.append(self.indent_str.as_str());
    }

    /// Applies a format change: the new indentation, then the linefeed.
    fn apply_format_changes(&mut self, changes: FormatChanges)
        requires
            old(self).indent_str@ == spaces(old(self).seq_state.indent as nat),
        ensures
            final(self).seq_state.indent == indent_after(changes, old(self).seq_state.indent),
            final(self).indent_str@ == spaces(final(self).seq_state.indent as nat),
            final(self).document@ == old(self).document@ + flatten(
                layout(changes, old(self).seq_state.indent),
            ),
            final(self).seq_state.tag_stack == old(self).seq_state.tag_stack,
            final(self).seq_state.last == old(self).seq_state.last,
            final(self).seq_state.next == old(self).seq_state.next,
            final(self).syntax == old(self).syntax,
            final(self).formatter == old(self).formatter,
    {
        if let Some(indent) = changes.new_indent {
            self.indent_str = indentation(indent);
            self.seq_state.indent = indent;
        }
        if changes.new_line {
            self.new_line_internal();
            let ghost l = layout(changes, old(self).seq_state.indent);
            reveal_with_fuel(flatten, 2);
            assert(l.drop_last() =~= Seq::<Piece>::empty());
            assert(flatten(l) =~= seq!['\n'] + spaces(self.seq_state.indent as nat));
        }
        assert(self.document@ =~= old(self).document@ + flatten(
            layout(changes, old(self).seq_state.indent),
        ));
    }

    /// Writes what is pending of the last event.
    fn write_terminator(&mut self)
        ensures
            final(self).document@ == old(self).document@ + terminator(
                old(self).syntax,
                old(self).seq_state.last.0,
            ),
            final(self).seq_state == old(self).seq_state,
            final(self).indent_str == old(self).indent_str,
            final(self).syntax == old(self).syntax,
            final(self).formatter == old(self).formatter,
    {
        match self.seq_state.last.0 {
            Sequence::Initial => {
                if let Some(dt) = &self.syntax.doctype {
                    self.document.append(dt.as_str());
                }
            },
            Sequence::SelfClosing => {
                if let Some(cfg) = &self.syntax.self_closing {
                    cfg.after.write_to(&mut self.document);
                }
            },
            Sequence::Opening => {
                if let Some(cfg) = &self.syntax.tag_pairs {
                    cfg.opening_after.write_to(&mut self.document);
                }
            },
            Sequence::Closing => {
                if let Some(cfg) = &self.syntax.tag_pairs {
                    cfg.closing_after.write_to(&mut self.document);
                }
            },
            _ => {
                assert(self.document@ =~= old(self).document@ + Seq::<char>::empty());
            },
        }
    }

    /// Moves on to the event `next`: writes what is pending of the last event, asks the
    /// formatter for its decision and applies it.
    fn finalize_last_op(&mut self, next: TagSequence)
        requires
            old(self).indent_str@ == spaces(old(self).seq_state.indent as nat),
            closes_block(old(self).seq_state.last.0, next.0) ==> F::open_blocks(
                old(self).formatter@,
            ) > 0,
        ensures
            final(self).state() == advance::<F>(old(self).state(), next@).0,
            final(self).written() == old(self).written() + flatten(
                advance::<F>(old(self).state(), next@).1,
            ),
            final(self).indent_str@ == spaces(final(self).seq_state.indent as nat),
            final(self).seq_state.tag_stack == old(self).seq_state.tag_stack,
            final(self).seq_state.last@ == next@,
            F::open_blocks(final(self).formatter@) == blocks_after(
                F::open_blocks(old(self).formatter@),
                old(self).seq_state.last.0,
                next.0,
            ),
    {
        let ghost s0 = self.state();
        self.write_terminator();
        self.seq_state.next = next;
        let check = self.formatter.check(&self.seq_state);
        self.apply_format_changes(check);
        core::mem::swap(&mut self.seq_state.last, &mut self.seq_state.next);
        proof {
            let m = seq![Piece::Markup(terminator(s0.syntax, s0.last.0))];
            let l = layout(check, s0.indent);
            lemma_flatten_append(m, l);
            reveal_with_fuel(flatten, 2);
            assert(m.drop_last() =~= Seq::<Piece>::empty());
            assert(flatten(m) =~= terminator(s0.syntax, s0.last.0));
            assert(self.document@ =~= old(self).document@ + flatten(m + l));
        }
    }

    /// Writes a self-closing tag named `tag`.
    pub fn self_closing(&mut self, tag: &str) -> (r: Result<(), UsageError>)
        requires
            old(self).wf(),
        ensures
            final(self).wf(),
            old(self).performs(*final(self), Call::SelfClosing(tag@), r),
    {
        let before = match &self.syntax.self_closing {
            Some(cfg) => cfg.before,
            None => return Err(UsageError::NoSelfClosing),
        };
        let ghost s0 = self.state();
        let ghost t0 = self.written();
        self.finalize_last_op(TagSequence::self_closing(tag));
        let ghost p = advance::<F>(s0, (Sequence::SelfClosing, tag@)).1;
        before.write_to(&mut self.document);
        self.document.append(tag);
        proof {
            lemma_flatten_append(p, seq![Piece::Markup(before.text() + tag@)]);
            assert(p + seq![Piece::Markup(before.text() + tag@)] =~= p.push(
                Piece::Markup(before.text() + tag@),
            ));
            reveal_with_fuel(flatten, 2);
            assert(seq![Piece::Markup(before.text() + tag@)].drop_last() =~= Seq::<Piece>::empty());
            assert(self.document@ =~= t0 + flatten(p.push(Piece::Markup(before.text() + tag@))));
        }
        Ok(())
    }

    /// Opens a pair of tags named `tag`.
    pub fn open(&mut self, tag: &str) -> (r: Result<(), UsageError>)
        requires
            old(self).wf(),
        ensures
            final(self).wf(),
            old(self).performs(*final(self), Call::Open(tag@), r),
    {
        let before = match &self.syntax.tag_pairs {
            Some(cfg) => cfg.opening_before,
            None => return Err(UsageError::NoTagPairs),
        };
        let ghost s0 = self.state();
        let ghost t0 = self.written();
        self.finalize_last_op(TagSequence::opening(tag));
        let ghost p = advance::<F>(s0, (Sequence::Opening, tag@)).1;
        before.write_to(&mut self.document);
        self.document.append(tag);
        let ghost v0 = self.seq_state.tag_stack@;
        self.seq_state.tag_stack.push(String::from_str(tag));
        proof {
            assert(names(self.seq_state.tag_stack@) =~= names(v0).push(tag@));
            lemma_flatten_append(p, seq![Piece::Markup(before.text() + tag@)]);
            assert(p + seq![Piece::Markup(before.text() + tag@)] =~= p.push(
                Piece::Markup(before.text() + tag@),
            ));
            reveal_with_fuel(flatten, 2);
            assert(seq![Piece::Markup(before.text() + tag@)].drop_last() =~= Seq::<Piece>::empty());
            assert(self.document@ =~= t0 + flatten(p.push(Piece::Markup(before.text() + tag@))));
        }
        Ok(())
    }

    /// Closes the innermost open pair of tags.
    pub fn close(&mut self) -> (r: Result<(), UsageError>)
        requires
            old(self).wf(),
        ensures
            final(self).wf(),
            old(self).performs(*final(self), Call::Close, r),
    {
        let before = match &self.syntax.tag_pairs {
            Some(cfg) => cfg.closing_before,
            None => return Err(UsageError::NoTagPairs),
        };
        if self.seq_state.tag_stack.len() == 0 {
            return Err(UsageError::NothingToClose);
        }
        let ghost s0 = self.state();
        let ghost t0 = self.written();
        let ghost v0 = self.seq_state.tag_stack@;
        let tag = match self.seq_state.tag_stack.pop() {
            Some(t) => t,
            None => String::new(),
        };
        proof {
            assert(names(self.seq_state.tag_stack@) =~= names(v0).drop_last());
            assert(tag@ == names(v0).last());
        }
        let ghost s1 = WriterState { tag_stack: s0.tag_stack.drop_last(), ..s0 };
        assert(self.state() == s1);
        self.finalize_last_op(TagSequence::closing(tag.as_str()));
        let ghost p = advance::<F>(s1, (Sequence::Closing, tag@)).1;
        before.write_to(&mut self.document);
        self.document.append(tag.as_str());
        proof {
            lemma_flatten_append(p, seq![Piece::Markup(before.text() + tag@)]);
            assert(p + seq![Piece::Markup(before.text() + tag@)] =~= p.push(
                Piece::Markup(before.text() + tag@),
            ));
            reveal_with_fuel(flatten, 2);
            assert(seq![Piece::Markup(before.text() + tag@)].drop_last() =~= Seq::<Piece>::empty());
            assert(self.document@ =~= t0 + flatten(p.push(Piece::Markup(before.text() + tag@))));
        }
        Ok(())
    }

    /// Opens a pair of tags named `tag`, writes `content` and closes the pair.
    pub fn open_close_w(&mut self, tag: &str, content: &str) -> (r: Result<(), UsageError>)
        requires
            old(self).wf(),
        ensures
            final(self).wf(),
            r == (if old(self).state().syntax.tag_pairs is Some {
                Ok(())
            } else {
                Err(UsageError::NoTagPairs)
            }),
            r is Ok ==> final(self).state() == run::<F>(
                old(self).state(),
                seq![Call::Open(tag@), Call::Text(content@), Call::Close],
            ).0 && final(self).written() == old(self).written() + flatten(
                run::<F>(
                    old(self).state(),
                    seq![Call::Open(tag@), Call::Text(content@), Call::Close],
                ).1,
            ),
            r is Err ==> final(self).state() == old(self).state() && final(self).written() == old(
                self,
            ).written(),
    {
        let ghost s0 = self.state();
        let ghost t0 = self.written();
        self.open(tag)?;
        let ghost s1 = self.state();
        let r2 = self.text(content);
        let ghost s2 = self.state();
        let r3 = self.close();
        proof {
            let calls = seq![Call::Open(tag@), Call::Text(content@), Call::Close];
            assert(calls.drop_last() =~= seq![Call::Open(tag@), Call::Text(content@)]);
            assert(calls.drop_last().drop_last() =~= seq![Call::Open(tag@)]);
            assert(calls.drop_last().drop_last().drop_last() =~= Seq::<Call>::empty());
            reveal_with_fuel(run, 4);
            let o1 = step::<F>(s0, Call::Open(tag@));
            let o2 = step::<F>(s1, Call::Text(content@));
            let o3 = step::<F>(s2, Call::Close);
            assert(Seq::<Piece>::empty() + o1.pieces =~= o1.pieces);
            lemma_flatten_append(o1.pieces, o2.pieces);
            lemma_flatten_append(o1.pieces + o2.pieces, o3.pieces);
            assert(self.written() =~= t0 + flatten(o1.pieces + o2.pieces + o3.pieces));
        }
        r2?;
        r3?;
        Ok(())
    }

    /// Adds attributes to the opening or self-closing tag written last.
    pub fn properties(&mut self, properties: &[(&str, &str)]) -> (r: Result<(), UsageError>)
        requires
            old(self).wf(),
        ensures
            final(self).wf(),
            old(self).performs(*final(self), Call::Properties(property_pairs(properties@)), r),
    {
        if self.seq_state.last.0 != Sequence::SelfClosing && self.seq_state.last.0
            != Sequence::Opening {
            return Err(UsageError::NoPendingTag);
        }
        let cfg = match &self.syntax.properties {
            Some(cfg) => *cfg,
            None => return Err(UsageError::NoProperties),
        };
        let ghost pv = property_pairs(properties@);
        let ghost t0 = self.written();
        if properties.len() == 0 {
            proof {
                reveal_with_fuel(flatten, 2);
                assert(seq![Piece::Markup(Seq::<char>::empty())].drop_last() =~= Seq::<
                    Piece,
                >::empty());
                assert(self.document@ =~= t0 + flatten(
                    seq![Piece::Markup(properties_text(cfg, pv))],
                ));
            }
            return Ok(());
        }
        cfg.initiator.write_to(&mut self.document);
        let mut i: usize = 0;
        while i < properties.len()
            invariant
                i <= properties@.len(),
                pv == property_pairs(properties@),
                self.document@ == t0 + cfg.initiator.text() + properties_body(
                    cfg,
                    pv.subrange(0, i as int),
                ),
                self.seq_state == old(self).seq_state,
                self.indent_str == old(self).indent_str,
                self.syntax == old(self).syntax,
                self.formatter == old(self).formatter,
                self.syntax.properties == Some(cfg),
            decreases properties@.len() - i,
        {
            if i > 0 {
                cfg.value_separator.write_to(&mut self.document);
            }
            let (name, value) = properties[i];
            write_property(&mut self.document, &cfg, name, value);
            proof {
                let sub = pv.subrange(0, i + 1);
                assert(sub.drop_last() =~= pv.subrange(0, i as int));
                assert(sub.last() == (name@, value@));
                if i == 0 {
                    assert(sub[0] == (name@, value@));
                }
                assert(self.document@ =~= t0 + cfg.initiator.text() + properties_body(cfg, sub));
            }
            i = i + 1;
        }
        proof {
            assert(pv.subrange(0, i as int) =~= pv);
            reveal_with_fuel(flatten, 2);
            let q = seq![Piece::Markup(properties_text(cfg, pv))];
            assert(q.drop_last() =~= Seq::<Piece>::empty());
            assert(self.document@ =~= t0 + flatten(q));
        }
        Ok(())
    }

    /// Writes `text`.
    pub fn text(&mut self, text: &str) -> (r: Result<(), UsageError>)
        requires
            old(self).wf(),
        ensures
            final(self).wf(),
            old(self).performs(*final(self), Call::Text(text@), r),
    {
        let ghost s0 = self.state();
        let ghost t0 = self.written();
        self.finalize_last_op(TagSequence::text());
        let ghost p = advance::<F>(s0, (Sequence::Text, Seq::empty())).1;
        self.document.append(text);
        proof {
            lemma_flatten_append(p, seq![Piece::Markup(text@)]);
            assert(p + seq![Piece::Markup(text@)] =~= p.push(Piece::Markup(text@)));
            reveal_with_fuel(flatten, 2);
            assert(seq![Piece::Markup(text@)].drop_last() =~= Seq::<Piece>::empty());
            assert(self.document@ =~= t0 + flatten(p.push(Piece::Markup(text@))));
        }
        Ok(())
    }

    /// Requests a linefeed. Whether one is written is the formatter's decision.
    pub fn new_line(&mut self) -> (r: Result<(), UsageError>)
        requires
            old(self).wf(),
        ensures
            final(self).wf(),
            old(self).performs(*final(self), Call::NewLine, r),
    {
        self.finalize_last_op(TagSequence::linefeed());
        Ok(())
    }

    /// Increases the indentation by one step of the formatter, from the next linefeed on.
    pub fn indent_more(&mut self) -> (r: Result<(), UsageError>)
        requires
            old(self).wf(),
        ensures
            final(self).wf(),
            old(self).performs(*final(self), Call::IndentMore, r),
    {
        let step_size = self.formatter.get_indent_step_size();
        self.apply_format_changes(FormatChanges::indent_more(self.seq_state.indent, step_size));
        assert(self.document@ =~= old(self).document@);
        Ok(())
    }

    /// Decreases the indentation by one step of the formatter, not below zero.
    pub fn indent_less(&mut self) -> (r: Result<(), UsageError>)
        requires
            old(self).wf(),
        ensures
            final(self).wf(),
            old(self).performs(*final(self), Call::IndentLess, r),
    {
        let step_size = self.formatter.get_indent_step_size();
        self.apply_format_changes(FormatChanges::indent_less(self.seq_state.indent, step_size));
        assert(self.document@ =~= old(self).document@);
        Ok(())
    }

    /// Closes every open pair of tags, innermost first.
    pub fn close_all(&mut self) -> (r: Result<(), UsageError>)
        requires
            old(self).wf(),
        ensures
            final(self).wf(),
            r == (if old(self).state().tag_stack.len() > 0 && old(self).state().syntax.tag_pairs is None {
                Err(UsageError::NoTagPairs)
            } else {
                Ok(())
            }),
            r is Ok ==> final(self).state() == run::<F>(
                old(self).state(),
                closes(old(self).state().tag_stack.len()),
            ).0 && final(self).written() == old(self).written() + flatten(
                run::<F>(old(self).state(), closes(old(self).state().tag_stack.len())).1,
            ) && final(self).state().tag_stack.len() == 0,
            r is Err ==> final(self).state() == old(self).state() && final(self).written() == old(
                self,
            ).written(),
    {
        let n = self.seq_state.tag_stack.len();
        if n > 0 && self.syntax.tag_pairs.is_none() {
            return Err(UsageError::NoTagPairs);
        }
        let ghost s0 = self.state();
        let ghost t0 = self.written();
        let mut k: usize = 0;
        while k < n
            invariant
                k <= n,
                n == s0.tag_stack.len(),
                n > 0 ==> s0.syntax.tag_pairs is Some,
                self.wf(),
                self.state() == run::<F>(s0, closes(k as nat)).0,
                self.written() == t0 + flatten(run::<F>(s0, closes(k as nat)).1),
                self.state().tag_stack.len() == n - k,
                self.syntax == s0.syntax,
            decreases n - k,
        {
            let ghost sk = self.state();
            self.close()?;
            proof {
                assert(closes((k + 1) as nat).drop_last() =~= closes(k as nat));
                assert(closes((k + 1) as nat).last() == Call::Close);
                lemma_flatten_append(
                    run::<F>(s0, closes(k as nat)).1,
                    step::<F>(sk, Call::Close).pieces,
                );
            }
            k = k + 1;
        }
        proof {
            assert(closes(0) =~= Seq::<Call>::empty());
        }
        Ok(())
    }

    /// Ends the document: writes what is pending of the last tag and returns the document.
    pub fn finalize(self) -> (doc: String)
        ensures
            doc@ == self.written() + final_text(self.state()),
    {
        let mut this = self;
        match this.seq_state.last.0 {
            Sequence::Initial => {},
            _ => this.write_terminator(),
        }
        assert(this.document@ =~= self.written() + final_text(self.state()));
        this.document
    }
}

impl<F: Formatter> MarkupSth<F> {
    /// Two writers in the same state, with the same document so far, that perform the same
    /// call end in the same state, with the same document and the same result.
    pub proof fn same_call_same_output(
        a: Self,
        a2: Self,
        b: Self,
        b2: Self,
        c: Call,
        ra: Result<(), UsageError>,
        rb: Result<(), UsageError>,
    )
        requires
            a.state() == b.state(),
            a.written() == b.written(),
            a.performs(a2, c, ra),
            b.performs(b2, c, rb),
        ensures
            a2.state() == b2.state(),
            a2.written() == b2.written(),
            ra == rb,
    {
    }
}

impl MarkupSth<AutoIndent> {
    /// The rule-based formatter keeps one entry per open block. Whenever the last event is not
    /// an opening tag, it has exactly one entry per open tag, so its record is empty exactly
    /// when no tag is open.
    pub proof fn depth_invariant(&self)
        requires
            self.wf(),
            self.state().last.0 != Sequence::Opening,
        ensures
            self.state().fmt.stack.len() == self.state().tag_stack.len(),
            self.state().fmt.stack.len() == 0 <==> self.state().tag_stack.len() == 0,
    {
    }
}

} // verus!
