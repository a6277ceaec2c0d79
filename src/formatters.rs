//! The three formatters: `NoFormatting`, `AlwaysIndentAlwaysLf` and the rule-based
//! `AutoIndent`.
//!
//! `AutoIndent` keeps three sets of tag names and one entry per open block that records whether
//! the block was indented:
//!
//! - IndentAlways: the content between the tags of the pair is indented;
//! - LfAlways: a linefeed after the opening and after the closing tag of the pair;
//! - LfClosing: a linefeed after the closing tag, or after the tag itself when self-closing.
//!
//! A tag may be under IndentAlways and LfClosing at once, but a tag under LfAlways is under no
//! other rule.
use vstd::prelude::*;

use crate::format::{
    blocks_after, closes_block, less, more, names, opens_block, tag_names, AutoFmtRule,
    ConflictError, Event, ExtAutoIndenting, FormatChanges, Formatter, Sequence, SequenceState,
    TagSequence, DEFAULT_INDENT,
};

verus! {

/// A linefeed if `b`, at the current indentation.
pub open spec fn lf_if(b: bool) -> FormatChanges {
    FormatChanges { new_line: b, new_indent: None }
}

/// A linefeed with the indentation increased by `step`.
pub open spec fn lf_more(indent: usize, step: usize) -> FormatChanges {
    FormatChanges { new_line: true, new_indent: Some(more(indent, step)) }
}

/// A linefeed with the indentation decreased by `step`.
pub open spec fn lf_less(indent: usize, step: usize) -> FormatChanges {
    FormatChanges { new_line: true, new_indent: Some(less(indent, step)) }
}

/// The formatter that never inserts a linefeed nor changes the indentation.
pub struct NoFormatting {
    blocks: Ghost<nat>,
}

impl View for NoFormatting {
    type V = nat;

    closed spec fn view(&self) -> nat {
        self.blocks@
    }
}

impl Formatter for NoFormatting {
    open spec fn open_blocks(model: nat) -> nat {
        model
    }

    open spec fn step_size(model: nat) -> usize {
        DEFAULT_INDENT
    }

    open spec fn decision(model: nat, last: Event, next: Event, indent: usize) -> FormatChanges {
        lf_if(false)
    }

    open spec fn checked(model: nat, last: Event, next: Event, indent: usize) -> nat {
        blocks_after(model, last.0, next.0)
    }

    fn new() -> (r: NoFormatting) {
        NoFormatting { blocks: Ghost(0) }
    }

    fn set_indent_step_size(&mut self, _step_size: usize)
        ensures
            final(self)@ == old(self)@,
    {
    }

    fn get_indent_step_size(&self) -> (r: usize) {
        DEFAULT_INDENT
    }

    fn reset_to_defaults(&mut self)
        ensures
            final(self)@ == old(self)@,
    {
    }

    fn check(&mut self, state: &SequenceState) -> (r: FormatChanges) {
        self.blocks = Ghost(blocks_after(self.blocks@, state.last.0, state.next.0));
        FormatChanges::nothing()
    }
}

/// The formatter that puts every tag on a line of its own and indents the content of every
/// pair of tags.
pub struct AlwaysIndentAlwaysLf {
    step: usize,
    blocks: Ghost<nat>,
}

impl View for AlwaysIndentAlwaysLf {
    type V = (usize, nat);

    closed spec fn view(&self) -> (usize, nat) {
        (self.step, self.blocks@)
    }
}

impl Formatter for AlwaysIndentAlwaysLf {
    open spec fn open_blocks(model: (usize, nat)) -> nat {
        model.1
    }

    open spec fn step_size(model: (usize, nat)) -> usize {
        model.0
    }

    open spec fn decision(
        model: (usize, nat),
        last: Event,
        next: Event,
        indent: usize,
    ) -> FormatChanges {
        if next.0 == Sequence::Closing {
            if last.0 == Sequence::Opening {
                lf_if(true)
            } else {
                lf_less(indent, model.0)
            }
        } else {
            match last.0 {
                Sequence::Opening => lf_more(indent, model.0),
                Sequence::Initial | Sequence::Closing | Sequence::SelfClosing => lf_if(true),
                _ => lf_if(false),
            }
        }
    }

    open spec fn checked(model: (usize, nat), last: Event, next: Event, indent: usize) -> (
        usize,
        nat,
    ) {
        (model.0, blocks_after(model.1, last.0, next.0))
    }

    fn new() -> (r: AlwaysIndentAlwaysLf)
        ensures
            r@ == (DEFAULT_INDENT, 0nat),
    {
        AlwaysIndentAlwaysLf { step: DEFAULT_INDENT, blocks: Ghost(0) }
    }

    fn set_indent_step_size(&mut self, step_size: usize)
        ensures
            final(self)@ == (step_size, old(self)@.1),
    {
        self.step = step_size;
    }

    fn get_indent_step_size(&self) -> (r: usize) {
        self.step
    }

    fn reset_to_defaults(&mut self)
        ensures
            final(self)@ == (DEFAULT_INDENT, old(self)@.1),
    {
        self.step = DEFAULT_INDENT;
    }

    fn check(&mut self, state: &SequenceState) -> (r: FormatChanges) {
        self.blocks = Ghost(blocks_after(self.blocks@, state.last.0, state.next.0));
        if state.next.0 == Sequence::Closing {
            match state.last.0 {
                Sequence::Opening => FormatChanges::lf(),
                _ => FormatChanges::lf_indent_less(state.indent, self.step),
            }
        } else {
            match state.last.0 {
                Sequence::Initial => FormatChanges::lf(),
                Sequence::Opening => FormatChanges::lf_indent_more(state.indent, self.step),
                Sequence::Closing => FormatChanges::lf(),
                Sequence::SelfClosing => FormatChanges::lf(),
                _ => FormatChanges::nothing(),
            }
        }
    }
}

/// The state of an `AutoIndent`: its three rules, one entry per open block (whether it was
/// indented), and its indentation step.
pub struct AutoIndentModel {
    pub indent_always: Seq<Seq<char>>,
    pub lf_always: Seq<Seq<char>>,
    pub lf_closing: Seq<Seq<char>>,
    pub stack: Seq<bool>,
    pub step: usize,
}

impl AutoIndentModel {
    /// The tags under `rule`.
    pub open spec fn rule_names(self, rule: AutoFmtRule) -> Seq<Seq<char>> {
        match rule {
            AutoFmtRule::IndentAlways => self.indent_always,
            AutoFmtRule::LfAlways => self.lf_always,
            AutoFmtRule::LfClosing => self.lf_closing,
        }
    }

    /// Whether `tag` is under `rule`.
    pub open spec fn is_in(self, tag: Seq<char>, rule: AutoFmtRule) -> bool {
        self.rule_names(rule).contains(tag)
    }

    /// Whether `tag` is under a rule that excludes `rule`: LfAlways excludes both other rules.
    pub open spec fn forbidden(self, tag: Seq<char>, rule: AutoFmtRule) -> bool {
        match rule {
            AutoFmtRule::IndentAlways => self.is_in(tag, AutoFmtRule::LfAlways),
            AutoFmtRule::LfAlways => self.is_in(tag, AutoFmtRule::IndentAlways) || self.is_in(
                tag,
                AutoFmtRule::LfClosing,
            ),
            AutoFmtRule::LfClosing => self.is_in(tag, AutoFmtRule::LfAlways),
        }
    }

    /// The tags of `tags` that cannot be put under `rule`, in order.
    pub open spec fn offending(self, tags: Seq<Seq<char>>, rule: AutoFmtRule) -> Seq<Seq<char>>
        decreases tags.len(),
    {
        if tags.len() == 0 {
            Seq::empty()
        } else {
            let before = self.offending(tags.drop_last(), rule);
            if self.forbidden(tags.last(), rule) {
                before.push(tags.last())
            } else {
                before
            }
        }
    }

    /// The model with `tags` as the tags under `rule`.
    pub open spec fn with_rule(self, rule: AutoFmtRule, tags: Seq<Seq<char>>) -> AutoIndentModel {
        match rule {
            AutoFmtRule::IndentAlways => AutoIndentModel { indent_always: tags, ..self },
            AutoFmtRule::LfAlways => AutoIndentModel { lf_always: tags, ..self },
            AutoFmtRule::LfClosing => AutoIndentModel { lf_closing: tags, ..self },
        }
    }

    /// Registering `tags` under `rule`: the new model, or every offending tag.
    pub open spec fn register(self, tags: Seq<Seq<char>>, rule: AutoFmtRule) -> Result<
        AutoIndentModel,
        Seq<Seq<char>>,
    > {
        let bad = self.offending(tags, rule);
        if bad.len() == 0 {
            Ok(self.with_rule(rule, tags))
        } else {
            Err(bad)
        }
    }

    /// No tag under LfAlways is under another rule.
    pub open spec fn disjoint(self) -> bool {
        forall|t: Seq<char>|
            #[trigger] self.lf_always.contains(t) ==> !self.indent_always.contains(t)
                && !self.lf_closing.contains(t)
    }

    /// The entry on top of the stack; `false` when there is none.
    pub open spec fn top(self) -> bool {
        self.stack.len() > 0 && self.stack.last()
    }

    /// Whether the block that `last` opens is indented, when `next` follows it.
    pub open spec fn indents(self, last: Event, next: Event) -> bool {
        let explicit_lf = next.0 == Sequence::LineFeed && !self.is_in(
            last.1,
            AutoFmtRule::LfAlways,
        );
        explicit_lf || self.is_in(last.1, AutoFmtRule::IndentAlways)
    }

    /// Before a closing tag whose block was not indented: a linefeed after a closing tag under
    /// IndentAlways, after any tag under LfAlways, after a closing or self-closing tag under
    /// LfClosing, and before the closing tag of a pair under LfAlways.
    pub open spec fn closing_lf(self, last: Event, next: Event) -> bool {
        (self.is_in(last.1, AutoFmtRule::IndentAlways) && last.0 == Sequence::Closing)
            || self.is_in(last.1, AutoFmtRule::LfAlways) || self.is_in(
            next.1,
            AutoFmtRule::LfAlways,
        ) || (self.is_in(last.1, AutoFmtRule::LfClosing) && (last.0 == Sequence::Closing
            || last.0 == Sequence::SelfClosing))
    }

    /// The decision between `last` and `next` at indentation `indent`.
    pub open spec fn decide(self, last: Event, next: Event, indent: usize) -> FormatChanges {
        if next.0 == Sequence::Closing {
            if last.0 == Sequence::Opening {
                lf_if(self.is_in(last.1, AutoFmtRule::LfAlways))
            } else if self.top() {
                lf_less(indent, self.step)
            } else {
                lf_if(self.closing_lf(last, next))
            }
        } else {
            match last.0 {
                Sequence::Opening => if self.indents(last, next) {
                    lf_more(indent, self.step)
                } else {
                    lf_if(self.is_in(last.1, AutoFmtRule::LfAlways))
                },
                Sequence::Closing => lf_if(
                    self.is_in(last.1, AutoFmtRule::IndentAlways) || self.is_in(
                        last.1,
                        AutoFmtRule::LfAlways,
                    ) || self.is_in(last.1, AutoFmtRule::LfClosing),
                ),
                Sequence::SelfClosing => lf_if(self.is_in(last.1, AutoFmtRule::LfClosing)),
                Sequence::Initial => lf_if(true),
                _ => lf_if(false),
            }
        }
    }

    /// The model after that decision: a block opened pushes whether it is indented, a block
    /// closed pops its entry.
    pub open spec fn after(self, last: Event, next: Event) -> AutoIndentModel {
        if opens_block(last.0, next.0) {
            AutoIndentModel { stack: self.stack.push(self.indents(last, next)), ..self }
        } else if closes_block(last.0, next.0) && self.stack.len() > 0 {
            AutoIndentModel { stack: self.stack.drop_last(), ..self }
        } else {
            self
        }
    }
}

/// The rule-based formatter.
///
/// Besides its rules it indents the content of a pair whose opening tag is directly followed
/// by a requested linefeed (unless the tag is under LfAlways), and takes the indentation back
/// before the closing tag.
pub struct AutoIndent {
    /// Tags under IndentAlways.
    pub fltr_indent_always: Vec<String>,
    /// Tags under LfAlways.
    pub fltr_lf_always: Vec<String>,
    /// Tags under LfClosing.
    pub fltr_lf_closing: Vec<String>,
    /// One entry per open block: whether it was indented.
    indent_stack: Vec<bool>,
    /// The indentation step.
    indent_step: usize,
}

impl View for AutoIndent {
    type V = AutoIndentModel;

    closed spec fn view(&self) -> AutoIndentModel {
        AutoIndentModel {
            indent_always: names(self.fltr_indent_always@),
            lf_always: names(self.fltr_lf_always@),
            lf_closing: names(self.fltr_lf_closing@),
            stack: self.indent_stack@,
            step: self.indent_step,
        }
    }
}

/// Whether `names` holds `tag`.
fn names_contain(names_vec: &Vec<String>, tag: &String) -> (r: bool)
    ensures
        r == names(names_vec@).contains(tag@),
{
    let mut i: usize = 0;
    while i < names_vec.len()
        invariant
            i <= names_vec@.len(),
            forall|j: int| 0 <= j < i ==> names(names_vec@)[j] != tag@,
        decreases names_vec@.len() - i,
    {
        if names_vec[i] == *tag {
            assert(names(names_vec@)[i as int] == tag@);
            return true;
        }
        i = i + 1;
    }
    false
}

/// The strings of `tags`, in order.
fn tag_strings(tags: &[&str]) -> (r: Vec<String>)
    ensures
        names(r@) == tag_names(tags@),
{
    let mut v: Vec<String> = Vec::new();
    let mut i: usize = 0;
    while i < tags.len()
        invariant
            i <= tags@.len(),
            names(v@) =~= tag_names(tags@).subrange(0, i as int),
        decreases tags@.len() - i,
    {
        let t: &str = tags[i];
        let s = String::from_str(t);
        assert(s@ == tag_names(tags@)[i as int]);
        let ghost before = v@;
        v.push(s);
        assert(names(v@) =~= names(before).push(s@));
        assert(tag_names(tags@).subrange(0, i + 1) =~= tag_names(tags@).subrange(0, i as int).push(
            s@,
        ));
        i = i + 1;
    }
    assert(tag_names(tags@).subrange(0, i as int) =~= tag_names(tags@));
    v
}

impl AutoIndent {
    /// Whether the tag of `tagseq` is under `fltr`.
    fn is_ts_in_filter(&self, tagseq: &TagSequence, fltr: AutoFmtRule) -> (r: bool)
        ensures
            r == self@.is_in(tagseq.1@, fltr),
    {
        match fltr {
            AutoFmtRule::IndentAlways => names_contain(&self.fltr_indent_always, &tagseq.1),
            AutoFmtRule::LfAlways => names_contain(&self.fltr_lf_always, &tagseq.1),
            AutoFmtRule::LfClosing => names_contain(&self.fltr_lf_closing, &tagseq.1),
        }
    }

    /// Whether `tagseq` is of kind `seq` and its tag is under `fltr`.
    fn is_ts_in_fltr_aot(&self, tagseq: &TagSequence, fltr: AutoFmtRule, seq: Sequence) -> (r:
        bool)
        ensures
            r == (tagseq.0 == seq && self@.is_in(tagseq.1@, fltr)),
    {
        if tagseq.0 != seq {
            return false;
        }
        self.is_ts_in_filter(tagseq, fltr)
    }

    /// The tags of `tags` that cannot be put under `rule`, in order.
    fn check_other_filter(&self, tags: &[&str], rule: AutoFmtRule) -> (r: Vec<String>)
        ensures
            names(r@) == self@.offending(tag_names(tags@), rule),
    {
        let ghost all = tag_names(tags@);
        let mut errtags: Vec<String> = Vec::new();
        let mut i: usize = 0;
        while i < tags.len()
            invariant
                i <= tags@.len(),
                all == tag_names(tags@),
                names(errtags@) == self@.offending(all.subrange(0, i as int), rule),
            decreases tags@.len() - i,
        {
            let ts = TagSequence::opening(tags[i]);
            let bad = match rule {
                AutoFmtRule::IndentAlways => self.is_ts_in_filter(&ts, AutoFmtRule::LfAlways),
                AutoFmtRule::LfAlways => self.is_ts_in_filter(&ts, AutoFmtRule::IndentAlways)
                    || self.is_ts_in_filter(&ts, AutoFmtRule::LfClosing),
                AutoFmtRule::LfClosing => self.is_ts_in_filter(&ts, AutoFmtRule::LfAlways),
            };
            let ghost prefix = all.subrange(0, i + 1);
            assert(prefix.drop_last() =~= all.subrange(0, i as int));
            assert(prefix.last() == all[i as int]);
            if bad {
                errtags.push(ts.1);
                assert(names(errtags@) =~= self@.offending(prefix, rule));
            }
            i = i + 1;
        }
        assert(all.subrange(0, i as int) =~= all);
        errtags
    }
}

impl Formatter for AutoIndent {
    open spec fn open_blocks(model: AutoIndentModel) -> nat {
        model.stack.len()
    }

    open spec fn step_size(model: AutoIndentModel) -> usize {
        model.step
    }

    open spec fn decision(
        model: AutoIndentModel,
        last: Event,
        next: Event,
        indent: usize,
    ) -> FormatChanges {
        model.decide(last, next, indent)
    }

    open spec fn checked(
        model: AutoIndentModel,
        last: Event,
        next: Event,
        indent: usize,
    ) -> AutoIndentModel {
        model.after(last, next)
    }

    fn new() -> (r: AutoIndent)
        ensures
            r@ == (AutoIndentModel {
                indent_always: Seq::empty(),
                lf_always: Seq::empty(),
                lf_closing: Seq::empty(),
                stack: Seq::empty(),
                step: DEFAULT_INDENT,
            }),
    {
        let r = AutoIndent {
            fltr_indent_always: Vec::new(),
            fltr_lf_always: Vec::new(),
            fltr_lf_closing: Vec::new(),
            indent_stack: Vec::new(),
            indent_step: DEFAULT_INDENT,
        };
        assert(names(r.fltr_indent_always@) =~= Seq::empty());
        assert(names(r.fltr_lf_always@) =~= Seq::empty());
        assert(names(r.fltr_lf_closing@) =~= Seq::empty());
        r
    }

    fn set_indent_step_size(&mut self, step_size: usize)
        ensures
            final(self)@ == (AutoIndentModel { step: step_size, ..old(self)@ }),
    {
        self.indent_step = step_size;
    }

    fn get_indent_step_size(&self) -> (r: usize) {
        self.indent_step
    }

    fn reset_to_defaults(&mut self)
        ensures
            final(self)@ == (AutoIndentModel {
                indent_always: Seq::empty(),
                lf_always: Seq::empty(),
                lf_closing: Seq::empty(),
                step: DEFAULT_INDENT,
                ..old(self)@
            }),
    {
        self.fltr_indent_always.clear();
        self.fltr_lf_always.clear();
        self.fltr_lf_closing.clear();
        self.indent_step = DEFAULT_INDENT;
        assert(names(self.fltr_indent_always@) =~= Seq::empty());
        assert(names(self.fltr_lf_always@) =~= Seq::empty());
        assert(names(self.fltr_lf_closing@) =~= Seq::empty());
    }

    fn check(&mut self, state: &SequenceState) -> (r: FormatChanges) {
        let lf_always = self.is_ts_in_filter(&state.last, AutoFmtRule::LfAlways);
        let ind_always = self.is_ts_in_filter(&state.last, AutoFmtRule::IndentAlways);
        if state.next.0 == Sequence::Closing {
            if state.last.0 == Sequence::Opening {
                // An empty pair: its block was never opened, so there is nothing to pop.
                FormatChanges::may_lf(lf_always)
            } else {
                let indented = match self.indent_stack.pop() {
                    Some(b) => b,
                    None => false,
                };
                if indented {
                    FormatChanges::lf_indent_less(state.indent, self.indent_step)
                } else {
                    let lf = self.is_ts_in_fltr_aot(
                        &state.last,
                        AutoFmtRule::IndentAlways,
                        Sequence::Closing,
                    ) || lf_always || self.is_ts_in_filter(&state.next, AutoFmtRule::LfAlways)
                        || self.is_ts_in_fltr_aot(
                        &state.last,
                        AutoFmtRule::LfClosing,
                        Sequence::Closing,
                    ) || self.is_ts_in_fltr_aot(
                        &state.last,
                        AutoFmtRule::LfClosing,
                        Sequence::SelfClosing,
                    );
                    FormatChanges::may_lf(lf)
                }
            }
        } else {
            match state.last.0 {
                Sequence::Opening => {
                    let explicit_lf = state.next.0 == Sequence::LineFeed && !lf_always;
                    let do_indent = explicit_lf || ind_always;
                    self.indent_stack.push(do_indent);
                    if do_indent {
                        FormatChanges::lf_indent_more(state.indent, self.indent_step)
                    } else {
                        FormatChanges::may_lf(lf_always)
                    }
                },
                Sequence::Closing => {
                    let lf_closing = self.is_ts_in_filter(&state.last, AutoFmtRule::LfClosing);
                    FormatChanges::may_lf(ind_always || lf_always || lf_closing)
                },
                Sequence::SelfClosing => {
                    FormatChanges::may_lf(
                        self.is_ts_in_fltr_aot(
                            &state.last,
                            AutoFmtRule::LfClosing,
                            Sequence::SelfClosing,
                        ),
                    )
                },
                Sequence::Initial => FormatChanges::lf(),
                _ => FormatChanges::nothing(),
            }
        }
    }
}

/// When no tag of `tags` is offending for `rule`, none of them is under a rule that excludes it.
proof fn lemma_no_offending(m: AutoIndentModel, tags: Seq<Seq<char>>, rule: AutoFmtRule)
    requires
        m.offending(tags, rule).len() == 0,
    ensures
        forall|i: int| 0 <= i < tags.len() ==> !m.forbidden(#[trigger] tags[i], rule),
    decreases tags.len(),
{
    if tags.len() > 0 {
        lemma_no_offending(m, tags.drop_last(), rule);
        assert forall|i: int| 0 <= i < tags.len() implies !m.forbidden(#[trigger] tags[i], rule) by {
            if i < tags.len() - 1 {
                assert(tags[i] == tags.drop_last()[i]);
            }
        }
    }
}

/// A successful registration keeps every tag under LfAlways out of the other two rules.
pub proof fn register_keeps_disjoint(m: AutoIndentModel, tags: Seq<Seq<char>>, rule: AutoFmtRule)
    requires
        m.disjoint(),
    ensures
        m.register(tags, rule) matches Ok(m2) ==> m2.disjoint(),
{
    if m.offending(tags, rule).len() == 0 {
        lemma_no_offending(m, tags, rule);
        let m2 = m.with_rule(rule, tags);
        assert forall|t: Seq<char>| #[trigger] m2.lf_always.contains(t) implies !m2.indent_always.contains(
            t,
        ) && !m2.lf_closing.contains(t) by {
            match rule {
                AutoFmtRule::LfAlways => {
                    let i = choose|i: int| 0 <= i < tags.len() && tags[i] == t;
                    assert(!m.forbidden(tags[i], rule));
                },
                AutoFmtRule::IndentAlways => {
                    if m2.indent_always.contains(t) {
                        let i = choose|i: int| 0 <= i < tags.len() && tags[i] == t;
                        assert(!m.forbidden(tags[i], rule));
                    }
                },
                AutoFmtRule::LfClosing => {
                    if m2.lf_closing.contains(t) {
                        let i = choose|i: int| 0 <= i < tags.len() && tags[i] == t;
                        assert(!m.forbidden(tags[i], rule));
                    }
                },
            }
        }
    }
}

/// Rules exclude one another per tag: a tag registered under IndentAlways can then be
/// registered under LfClosing, but not under LfAlways, which reports it; a tag registered
/// under LfAlways cannot then be registered under LfClosing, which reports it.
pub proof fn rule_disjointness(m: AutoIndentModel, t: Seq<char>)
    ensures
        m.register(seq![t], AutoFmtRule::IndentAlways) matches Ok(m1) ==> {
            &&& m1.register(seq![t], AutoFmtRule::LfClosing) is Ok
            &&& m1.register(seq![t], AutoFmtRule::LfAlways) == Err::<AutoIndentModel, _>(seq![t])
        },
        m.register(seq![t], AutoFmtRule::LfAlways) matches Ok(m2) ==> m2.register(
            seq![t],
            AutoFmtRule::LfClosing,
        ) == Err::<AutoIndentModel, _>(seq![t]),
{
    let one = seq![t];
    assert(one.drop_last() =~= Seq::<Seq<char>>::empty());
    assert(one.last() == t);
    assert(one[0] == t);
    assert(one.contains(t));
    let e = Seq::<Seq<char>>::empty();
    assert(e.push(t) =~= one);
    reveal_with_fuel(AutoIndentModel::offending, 2);
}

impl ExtAutoIndenting for AutoIndent {
    fn add_tags_to_rule(&mut self, tags: &[&str], rule: AutoFmtRule) -> (r: Result<
        (),
        ConflictError,
    >)
        ensures
            (match old(self)@.register(tag_names(tags@), rule) {
                Ok(m) => r is Ok && final(self)@ == m,
                Err(bad) => r matches Err(e) && e@ == (rule, bad) && final(self)@ == old(self)@,
            }),
    {
        let errtags = self.check_other_filter(tags, rule);
        if errtags.len() > 0 {
            return Err(ConflictError { rule, tags: errtags });
        }
        let v = tag_strings(tags);
        match rule {
            AutoFmtRule::IndentAlways => self.fltr_indent_always = v,
            AutoFmtRule::LfAlways => self.fltr_lf_always = v,
            AutoFmtRule::LfClosing => self.fltr_lf_closing = v,
        }
        Ok(())
    }

    fn reset_ruleset(&mut self) -> (r: Result<(), ConflictError>)
        ensures
            r is Ok,
            final(self)@ == (AutoIndentModel {
                indent_always: Seq::empty(),
                lf_always: Seq::empty(),
                lf_closing: Seq::empty(),
                ..old(self)@
            }),
    {
        self.fltr_indent_always.clear();
        self.fltr_lf_always.clear();
        self.fltr_lf_closing.clear();
        assert(names(self.fltr_indent_always@) =~= Seq::empty());
        assert(names(self.fltr_lf_always@) =~= Seq::empty());
        assert(names(self.fltr_lf_closing@) =~= Seq::empty());
        Ok(())
    }
}

} // verus!
