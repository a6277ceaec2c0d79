//! The event vocabulary shared by the writer and its formatters, the format changes a formatter
//! decides on, and the `Formatter` contract itself.
//!
//! A formatter works on the fly: between the last written event and the next one it decides
//! whether a linefeed is inserted and whether the indentation changes. It never sees the
//! document itself, only the pair of events around the gap and the current indentation.
use vstd::prelude::*;

verus! {

/// Default and initial number of spaces per indentation step.
pub const DEFAULT_INDENT: usize = 4;

/// The kind of an event in the output stream.
#[derive(Clone, Copy, Debug, PartialEq, Eq, Structural)]
pub enum Sequence {
    /// Start of the document; occurs once, before anything is written.
    Initial,
    /// A self-closing tag, e.g. `<img src="image.jpg">`.
    SelfClosing,
    /// The opening tag of a pair, e.g. `<section>`.
    Opening,
    /// The closing tag of a pair, e.g. `</section>`.
    Closing,
    /// Free text content.
    Text,
    /// A linefeed requested by the user.
    LineFeed,
}

/// An event as the formatters see it: its kind and its tag name.
pub type Event = (Sequence, Seq<char>);

/// Whether a kind of event carries a tag name.
pub open spec fn carries_tag(kind: Sequence) -> bool {
    kind == Sequence::SelfClosing || kind == Sequence::Opening || kind == Sequence::Closing
}

/// An event with its tag name; the name is empty for text, linefeeds and the initial event.
#[derive(Debug, Clone)]
pub struct TagSequence(pub Sequence, pub String);

impl View for TagSequence {
    type V = Event;

    open spec fn view(&self) -> Event {
        (self.0, self.1@)
    }
}

impl TagSequence {
    /// A self-closing tag named `tag`.
    pub fn self_closing(tag: &str) -> (r: TagSequence)
        ensures
            r@ == (Sequence::SelfClosing, tag@),
    {
        TagSequence(Sequence::SelfClosing, String::from_str(tag))
    }

    /// An opening tag named `tag`.
    pub fn opening(tag: &str) -> (r: TagSequence)
        ensures
            r@ == (Sequence::Opening, tag@),
    {
        TagSequence(Sequence::Opening, String::from_str(tag))
    }

    /// A closing tag named `tag`.
    pub fn closing(tag: &str) -> (r: TagSequence)
        ensures
            r@ == (Sequence::Closing, tag@),
    {
        TagSequence(Sequence::Closing, String::from_str(tag))
    }

    /// A piece of text.
    pub fn text() -> (r: TagSequence)
        ensures
            r@ == (Sequence::Text, Seq::<char>::empty()),
    {
        TagSequence(Sequence::Text, String::new())
    }

    /// A requested linefeed.
    pub fn linefeed() -> (r: TagSequence)
        ensures
            r@ == (Sequence::LineFeed, Seq::<char>::empty()),
    {
        TagSequence(Sequence::LineFeed, String::new())
    }

    /// The start of the document.
    pub fn initial() -> (r: TagSequence)
        ensures
            r@ == (Sequence::Initial, Seq::<char>::empty()),
    {
        TagSequence(Sequence::Initial, String::new())
    }

    /// An event of kind `seq`; the tag name is kept only for the kinds that carry one.
    pub fn from(seq: &Sequence, tag: &str) -> (r: TagSequence)
        ensures
            r.0 == *seq,
            r.1@ == (if carries_tag(*seq) {
                tag@
            } else {
                Seq::<char>::empty()
            }),
    {
        match seq {
            Sequence::SelfClosing | Sequence::Opening | Sequence::Closing => {
                TagSequence(*seq, String::from_str(tag))
            },
            _ => TagSequence(*seq, String::new()),
        }
    }
}

/// What a formatter is shown before each event: the open tags, the last written event, the
/// event about to be written and the current indentation.
#[derive(Debug)]
pub struct SequenceState {
    /// Names of the tags opened and not yet closed, innermost last.
    pub tag_stack: Vec<String>,
    /// The last event written.
    pub last: TagSequence,
    /// The event about to be written.
    pub next: TagSequence,
    /// Current indentation, in spaces.
    pub indent: usize,
}

impl SequenceState {
    /// The state before anything has been written: nothing open, the initial event last.
    pub fn new() -> (r: SequenceState)
        ensures
            r.tag_stack@.len() == 0,
            r.last@ == (Sequence::Initial, Seq::<char>::empty()),
            r.next@ == (Sequence::Text, Seq::<char>::empty()),
            r.indent == 0,
    {
        SequenceState {
            tag_stack: Vec::new(),
            last: TagSequence::initial(),
            next: TagSequence::text(),
            indent: 0,
        }
    }

    /// A state between `last` and `next`, with nothing open and one step of indentation.
    pub fn teststate(last: TagSequence, next: TagSequence) -> (r: SequenceState)
        ensures
            r.tag_stack@.len() == 0,
            r.last == last,
            r.next == next,
            r.indent == DEFAULT_INDENT,
    {
        SequenceState { tag_stack: Vec::new(), last, next, indent: DEFAULT_INDENT }
    }

    /// The start of the document, then opening `next`.
    pub fn initial_open(next: &str) -> (r: SequenceState)
        ensures
            r.last@ == (Sequence::Initial, Seq::<char>::empty()),
            r.next@ == (Sequence::Opening, next@),
            r.indent == DEFAULT_INDENT,
    {
        Self::teststate(TagSequence::initial(), TagSequence::opening(next))
    }

    /// Opening `last`, then opening `next`.
    pub fn open_open(last: &str, next: &str) -> (r: SequenceState)
        ensures
            r.last@ == (Sequence::Opening, last@),
            r.next@ == (Sequence::Opening, next@),
            r.indent == DEFAULT_INDENT,
    {
        Self::teststate(TagSequence::opening(last), TagSequence::opening(next))
    }

    /// Opening `last`, then closing `next`.
    pub fn open_close(last: &str, next: &str) -> (r: SequenceState)
        ensures
            r.last@ == (Sequence::Opening, last@),
            r.next@ == (Sequence::Closing, next@),
            r.indent == DEFAULT_INDENT,
    {
        Self::teststate(TagSequence::opening(last), TagSequence::closing(next))
    }

    /// Opening `last`, then text.
    pub fn open_text(last: &str) -> (r: SequenceState)
        ensures
            r.last@ == (Sequence::Opening, last@),
            r.next@ == (Sequence::Text, Seq::<char>::empty()),
            r.indent == DEFAULT_INDENT,
    {
        Self::teststate(TagSequence::opening(last), TagSequence::text())
    }

    /// Opening `last`, then a requested linefeed.
    pub fn open_lf(last: &str) -> (r: SequenceState)
        ensures
            r.last@ == (Sequence::Opening, last@),
            r.next@ == (Sequence::LineFeed, Seq::<char>::empty()),
            r.indent == DEFAULT_INDENT,
    {
        Self::teststate(TagSequence::opening(last), TagSequence::linefeed())
    }

    /// Opening `last`, then the self-closing tag `next`.
    pub fn open_self_closing(last: &str, next: &str) -> (r: SequenceState)
        ensures
            r.last@ == (Sequence::Opening, last@),
            r.next@ == (Sequence::SelfClosing, next@),
            r.indent == DEFAULT_INDENT,
    {
        Self::teststate(TagSequence::opening(last), TagSequence::self_closing(next))
    }

    /// Closing `last`, then closing `next`.
    pub fn close_close(last: &str, next: &str) -> (r: SequenceState)
        ensures
            r.last@ == (Sequence::Closing, last@),
            r.next@ == (Sequence::Closing, next@),
            r.indent == DEFAULT_INDENT,
    {
        Self::teststate(TagSequence::closing(last), TagSequence::closing(next))
    }

    /// Closing `last`, then text.
    pub fn close_text(last: &str) -> (r: SequenceState)
        ensures
            r.last@ == (Sequence::Closing, last@),
            r.next@ == (Sequence::Text, Seq::<char>::empty()),
            r.indent == DEFAULT_INDENT,
    {
        Self::teststate(TagSequence::closing(last), TagSequence::text())
    }

    /// A requested linefeed, then the self-closing tag `next`.
    pub fn lf_self_closing(next: &str) -> (r: SequenceState)
        ensures
            r.last@ == (Sequence::LineFeed, Seq::<char>::empty()),
            r.next@ == (Sequence::SelfClosing, next@),
            r.indent == DEFAULT_INDENT,
    {
        Self::teststate(TagSequence::linefeed(), TagSequence::self_closing(next))
    }

    /// The self-closing tag `last`, then closing `next`.
    pub fn self_closing_close(last: &str, next: &str) -> (r: SequenceState)
        ensures
            r.last@ == (Sequence::SelfClosing, last@),
            r.next@ == (Sequence::Closing, next@),
            r.indent == DEFAULT_INDENT,
    {
        Self::teststate(TagSequence::self_closing(last), TagSequence::closing(next))
    }

    /// Text, then closing `next`.
    pub fn text_close(next: &str) -> (r: SequenceState)
        ensures
            r.last@ == (Sequence::Text, Seq::<char>::empty()),
            r.next@ == (Sequence::Closing, next@),
            r.indent == DEFAULT_INDENT,
    {
        Self::teststate(TagSequence::text(), TagSequence::closing(next))
    }
}

impl Default for SequenceState {
    fn default() -> (r: SequenceState)
        ensures
            r.tag_stack@.len() == 0,
            r.last@ == (Sequence::Initial, Seq::<char>::empty()),
            r.next@ == (Sequence::Text, Seq::<char>::empty()),
            r.indent == 0,
    {
        SequenceState::new()
    }
}

/// A change of format between two events: an optional linefeed and an optional new
/// indentation. A new indentation takes effect at the next linefeed.
#[derive(Clone, Debug, PartialEq, Eq)]
pub struct FormatChanges {
    /// Whether a linefeed (followed by the indentation) is inserted.
    pub new_line: bool,
    /// The new indentation, in spaces, if it changes.
    pub new_indent: Option<usize>,
}

/// The indentation after `fc` is applied at indentation `indent`.
pub open spec fn indent_after(fc: FormatChanges, indent: usize) -> usize {
    match fc.new_indent {
        Some(n) => n,
        None => indent,
    }
}

/// `indent` increased by `step`, saturating at the largest `usize`.
pub open spec fn more(indent: usize, step: usize) -> usize {
    if indent + step > usize::MAX {
        usize::MAX
    } else {
        (indent + step) as usize
    }
}

/// `indent` decreased by `step`, not below zero.
pub open spec fn less(indent: usize, step: usize) -> usize {
    if step > indent {
        0
    } else {
        (indent - step) as usize
    }
}

impl FormatChanges {
    /// No linefeed, no change of indentation.
    pub fn nothing() -> (r: FormatChanges)
        ensures
            r == (FormatChanges { new_line: false, new_indent: None }),
    {
        FormatChanges { new_line: false, new_indent: None }
    }

    /// A linefeed at the current indentation.
    pub fn lf() -> (r: FormatChanges)
        ensures
            r == (FormatChanges { new_line: true, new_indent: None }),
    {
        FormatChanges { new_line: true, new_indent: None }
    }

    /// A linefeed if `new_line` holds, at the current indentation.
    pub fn may_lf(new_line: bool) -> (r: FormatChanges)
        ensures
            r == (FormatChanges { new_line, new_indent: None }),
    {
        FormatChanges { new_line, new_indent: None }
    }

    /// Indentation increased by `step`, without a linefeed.
    pub fn indent_more(indent: usize, step: usize) -> (r: FormatChanges)
        ensures
            r == (FormatChanges { new_line: false, new_indent: Some(more(indent, step)) }),
    {
        FormatChanges { new_line: false, new_indent: Some(indent.saturating_add(step)) }
    }

    /// A linefeed that opens an indented block: indentation increased by `step`.
    pub fn lf_indent_more(indent: usize, step: usize) -> (r: FormatChanges)
        ensures
            r == (FormatChanges { new_line: true, new_indent: Some(more(indent, step)) }),
    {
        let mut fc = FormatChanges::indent_more(indent, step);
        fc.new_line = true;
        fc
    }

    /// Indentation decreased by `step` (not below zero), without a linefeed.
    pub fn indent_less(indent: usize, step: usize) -> (r: FormatChanges)
        ensures
            r == (FormatChanges { new_line: false, new_indent: Some(less(indent, step)) }),
    {
        let new_indent = if step > indent {
            Some(0)
        } else {
            Some(indent - step)
        };
        FormatChanges { new_line: false, new_indent }
    }

    /// A linefeed that ends an indented block: indentation decreased by `step`.
    pub fn lf_indent_less(indent: usize, step: usize) -> (r: FormatChanges)
        ensures
            r == (FormatChanges { new_line: true, new_indent: Some(less(indent, step)) }),
    {
        let mut fc = FormatChanges::indent_less(indent, step);
        fc.new_line = true;
        fc
    }
}

/// Whether the decision between `last` and `next` ends a block that an earlier decision
/// opened: a closing tag that does not directly follow its own opening tag.
pub open spec fn closes_block(last: Sequence, next: Sequence) -> bool {
    next == Sequence::Closing && last != Sequence::Opening
}

/// Whether the decision between `last` and `next` opens a block: anything but the closing tag
/// directly after an opening tag.
pub open spec fn opens_block(last: Sequence, next: Sequence) -> bool {
    last == Sequence::Opening && next != Sequence::Closing
}

/// Number of open blocks after the decision between `last` and `next`, from `n` before.
pub open spec fn blocks_after(n: nat, last: Sequence, next: Sequence) -> nat {
    if opens_block(last, next) {
        n + 1
    } else if closes_block(last, next) {
        (n - 1) as nat
    } else {
        n
    }
}

/// A formatting strategy: one decision per gap between two events.
///
/// Every formatter keeps count of the blocks it has opened and not yet closed (a block opens
/// with the decision after an opening tag and closes with the decision before its closing
/// tag), so that a decision which closes a block is only asked for when one is open.
pub trait Formatter: Sized + View {
    /// Blocks opened by earlier decisions and not closed yet.
    spec fn open_blocks(model: Self::V) -> nat;

    /// The indentation step.
    spec fn step_size(model: Self::V) -> usize;

    /// The decision for the gap between `last` and `next` at indentation `indent`.
    spec fn decision(model: Self::V, last: Event, next: Event, indent: usize) -> FormatChanges;

    /// The formatter after it made that decision.
    spec fn checked(model: Self::V, last: Event, next: Event, indent: usize) -> Self::V;

    /// A formatter with its default configuration and no open block.
    fn new() -> (r: Self)
        ensures
            Self::open_blocks(r@) == 0,
    ;

    /// Sets the indentation step for later decisions.
    fn set_indent_step_size(&mut self, step_size: usize)
        ensures
            Self::open_blocks(final(self)@) == Self::open_blocks(old(self)@),
    ;

    /// The indentation step.
    fn get_indent_step_size(&self) -> (r: usize)
        ensures
            r == Self::step_size(self@),
    ;

    /// Resets the configuration to its defaults.
    fn reset_to_defaults(&mut self)
        ensures
            Self::open_blocks(final(self)@) == Self::open_blocks(old(self)@),
    ;

    /// Decides the format change between `state.last` and `state.next`.
    fn check(&mut self, state: &SequenceState) -> (r: FormatChanges)
        requires
            closes_block(state.last.0, state.next.0) ==> Self::open_blocks(old(self)@) > 0,
        ensures
            r == Self::decision(old(self)@, state.last@, state.next@, state.indent),
            final(self)@ == Self::checked(old(self)@, state.last@, state.next@, state.indent),
            Self::open_blocks(final(self)@) == blocks_after(
                Self::open_blocks(old(self)@),
                state.last.0,
                state.next.0,
            ),
    ;
}

/// The rules of the rule-based formatter.
#[derive(Copy, Clone, Debug, PartialEq, Eq, Structural)]
pub enum AutoFmtRule {
    /// The content between the tags of the pair is indented.
    IndentAlways,
    /// A linefeed around the tags of the pair, and no indentation from explicit linefeeds.
    LfAlways,
    /// A linefeed after the closing (or self-closing) tag.
    LfClosing,
}

/// A registration refused because some tags already belong to a rule that cannot be combined
/// with the requested one.
#[derive(Clone, Debug, PartialEq, Eq)]
pub struct ConflictError {
    /// The rule the tags were to be registered under.
    pub rule: AutoFmtRule,
    /// Every requested tag that conflicts, in the order requested.
    pub tags: Vec<String>,
}

impl View for ConflictError {
    type V = (AutoFmtRule, Seq<Seq<char>>);

    open spec fn view(&self) -> (AutoFmtRule, Seq<Seq<char>>) {
        (self.rule, names(self.tags@))
    }
}

/// The names held by a vector of strings.
pub open spec fn names(v: Seq<String>) -> Seq<Seq<char>> {
    v.map_values(|s: String| s@)
}

/// The names held by a slice of string slices.
pub open spec fn tag_names(v: Seq<&str>) -> Seq<Seq<char>> {
    v.map_values(|s: &str| s@)
}

/// A formatter whose behaviour is configured by tag rules.
pub trait ExtAutoIndenting: Formatter {
    /// Makes `tags` the set of tags under `rule`, unless one of them is already under a rule
    /// that excludes `rule`; then nothing changes and every such tag is reported.
    fn add_tags_to_rule(&mut self, tags: &[&str], rule: AutoFmtRule) -> Result<(), ConflictError>;

    /// Empties all rules.
    fn reset_ruleset(&mut self) -> Result<(), ConflictError>;
}

} // verus!
