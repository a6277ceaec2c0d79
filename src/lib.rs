//! A streaming pretty-printer for markup text: tags, attributes and text are written call by
//! call, and a formatter decides between every two events where linefeeds and indentation go.
pub mod format;
pub mod formatters;
pub mod markupsth;
pub mod protocol;
pub mod syntax;

pub use crate::format::{
    AutoFmtRule, ConflictError, ExtAutoIndenting, FormatChanges, Formatter, Sequence,
    SequenceState, TagSequence, DEFAULT_INDENT,
};
pub use crate::formatters::{AlwaysIndentAlwaysLf, AutoIndent, NoFormatting};
pub use crate::markupsth::MarkupSth;
pub use crate::protocol::UsageError;
pub use crate::syntax::{Insertion, Language, SyntaxConfig};
