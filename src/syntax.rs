//! The syntax of a markup language: what is written before and after a tag name, how
//! attributes are written, and an optional document preamble. HTML and XML are predefined;
//! `Language::Other` carries a syntax of the caller's own.
use vstd::prelude::*;

verus! {

/// Up to three characters written before or after a tag name.
#[derive(Copy, Clone, Debug, PartialEq)]
pub enum Insertion {
    /// No character.
    Nothing,
    /// A single character.
    Single(char),
    /// Two characters.
    Double(char, char),
    /// Three characters.
    Triple(char, char, char),
}

/// Relies on `String::push`: appends one character.
#[verifier::external_body]
pub(crate) fn push_char(s: &mut String, c: char)
    ensures
        final(s)@ == old(s)@.push(c),
{
    s.push(c);
}

impl Insertion {
    /// The characters inserted.
    pub open spec fn text(self) -> Seq<char> {
        match self {
            Insertion::Nothing => Seq::empty(),
            Insertion::Single(a) => seq![a],
            Insertion::Double(a, b) => seq![a, b],
            Insertion::Triple(a, b, c) => seq![a, b, c],
        }
    }

    /// Appends the characters to `s`.
    pub fn write_to(&self, s: &mut String)
        ensures
            final(s)@ == old(s)@ + self.text(),
    {
        match self {
            Insertion::Nothing => {},
            Insertion::Single(a) => {
                push_char(s, *a);
            },
            Insertion::Double(a, b) => {
                push_char(s, *a);
                push_char(s, *b);
            },
            Insertion::Triple(a, b, c) => {
                push_char(s, *a);
                push_char(s, *b);
                push_char(s, *c);
            },
        }
        assert(s@ =~= old(s)@ + self.text());
    }

    /// The characters as a string.
    pub fn to_string(&self) -> (r: String)
        ensures
            r@ == self.text(),
    {
        let mut s = String::new();
        self.write_to(&mut s);
        assert(s@ =~= self.text());
        s
    }
}

/// The syntax of a self-closing tag, e.g. `<img>` in HTML.
#[derive(Copy, Clone, Debug, PartialEq)]
pub struct SelfClosingTagConfig {
    /// Written before the tag name.
    pub before: Insertion,
    /// Written after the tag name and its attributes.
    pub after: Insertion,
}

/// The syntax of a pair of tags, e.g. `<p></p>` in HTML.
#[derive(Copy, Clone, Debug, PartialEq)]
pub struct TagPairConfig {
    /// Written before the name of the opening tag.
    pub opening_before: Insertion,
    /// Written after the name of the opening tag and its attributes.
    pub opening_after: Insertion,
    /// Written before the name of the closing tag.
    pub closing_before: Insertion,
    /// Written after the name of the closing tag.
    pub closing_after: Insertion,
}

/// The syntax of attributes.
#[derive(Copy, Clone, Debug, PartialEq)]
pub struct PropertyConfig {
    /// Written between the tag name and the first attribute.
    pub initiator: Insertion,
    /// Written before an attribute name.
    pub name_before: Insertion,
    /// Written after an attribute name.
    pub name_after: Insertion,
    /// Written before an attribute value.
    pub value_before: Insertion,
    /// Written after an attribute value.
    pub value_after: Insertion,
    /// Written between the name and the value of an attribute.
    pub name_separator: Insertion,
    /// Written between two attributes.
    pub value_separator: Insertion,
}

/// The full syntax of a markup language. A part set to `None` is not available in it.
#[derive(Clone, Debug)]
pub struct SyntaxConfig {
    /// Written once at the start of the document, e.g. `<!DOCTYPE html>`.
    pub doctype: Option<String>,
    /// Self-closing tags.
    pub self_closing: Option<SelfClosingTagConfig>,
    /// Pairs of tags.
    pub tag_pairs: Option<TagPairConfig>,
    /// Attributes of tags.
    pub properties: Option<PropertyConfig>,
}

/// A predefined syntax, or one of the caller's own.
#[derive(Clone, Debug)]
pub enum Language {
    /// HTML.
    Html,
    /// XML.
    Xml,
    /// The syntax given.
    Other(SyntaxConfig),
}

/// Tag pairs written `<name>` and `</name>`.
pub open spec fn angle_pairs() -> TagPairConfig {
    TagPairConfig {
        opening_before: Insertion::Single('<'),
        opening_after: Insertion::Single('>'),
        closing_before: Insertion::Double('<', '/'),
        closing_after: Insertion::Single('>'),
    }
}

/// Attributes written ` name="value"`, separated by a space.
pub open spec fn quoted_properties() -> PropertyConfig {
    PropertyConfig {
        initiator: Insertion::Single(' '),
        name_before: Insertion::Nothing,
        name_after: Insertion::Nothing,
        value_before: Insertion::Single('"'),
        value_after: Insertion::Single('"'),
        name_separator: Insertion::Single('='),
        value_separator: Insertion::Single(' '),
    }
}

impl SyntaxConfig {
    /// The HTML syntax: `<!DOCTYPE html>`, self-closing tags written `<name>`.
    pub open spec fn is_html(self) -> bool {
        &&& self.doctype matches Some(d) && d@ == "<!DOCTYPE html>"@
        &&& self.self_closing == Some(
            SelfClosingTagConfig { before: Insertion::Single('<'), after: Insertion::Single('>') },
        )
        &&& self.tag_pairs == Some(angle_pairs())
        &&& self.properties == Some(quoted_properties())
    }

    /// The XML syntax: an XML declaration, self-closing tags written `<name />`.
    pub open spec fn is_xml(self) -> bool {
        &&& self.doctype matches Some(d) && d@
            == "<?xml version=\"1.0\" encoding=\"UTF-8\" standalone=\"yes\"?>"@
        &&& self.self_closing == Some(
            SelfClosingTagConfig {
                before: Insertion::Single('<'),
                after: Insertion::Triple(' ', '/', '>'),
            },
        )
        &&& self.tag_pairs == Some(angle_pairs())
        &&& self.properties == Some(quoted_properties())
    }

    /// The syntax selected by `ml`.
    pub fn from(ml: Language) -> (r: SyntaxConfig)
        ensures
            ml is Html ==> r.is_html(),
            ml is Xml ==> r.is_xml(),
            ml matches Language::Other(cfg) ==> r == cfg,
    {
        match ml {
            Language::Html => SyntaxConfig {
                doctype: Some(String::from_str("<!DOCTYPE html>")),
                self_closing: Some(
                    SelfClosingTagConfig {
                        before: Insertion::Single('<'),
                        after: Insertion::Single('>'),
                    },
                ),
                tag_pairs: Some(
                    TagPairConfig {
                        opening_before: Insertion::Single('<'),
                        opening_after: Insertion::Single('>'),
                        closing_before: Insertion::Double('<', '/'),
                        closing_after: Insertion::Single('>'),
                    },
                ),
                properties: Some(
                    PropertyConfig {
                        initiator: Insertion::Single(' '),
                        name_before: Insertion::Nothing,
                        name_after: Insertion::Nothing,
                        value_before: Insertion::Single('"'),
                        value_after: Insertion::Single('"'),
                        name_separator: Insertion::Single('='),
                        value_separator: Insertion::Single(' '),
                    },
                ),
            },
            Language::Xml => SyntaxConfig {
                doctype: Some(
                    String::from_str(
                        "<?xml version=\"1.0\" encoding=\"UTF-8\" standalone=\"yes\"?>",
                    ),
                ),
                self_closing: Some(
                    SelfClosingTagConfig {
                        before: Insertion::Single('<'),
                        after: Insertion::Triple(' ', '/', '>'),
                    },
                ),
                tag_pairs: Some(
                    TagPairConfig {
                        opening_before: Insertion::Single('<'),
                        opening_after: Insertion::Single('>'),
                        closing_before: Insertion::Double('<', '/'),
                        closing_after: Insertion::Single('>'),
                    },
                ),
                properties: Some(
                    PropertyConfig {
                        initiator: Insertion::Single(' '),
                        name_before: Insertion::Nothing,
                        name_after: Insertion::Nothing,
                        value_before: Insertion::Single('"'),
                        value_after: Insertion::Single('"'),
                        name_separator: Insertion::Single('='),
                        value_separator: Insertion::Single(' '),
                    },
                ),
            },
            Language::Other(cfg) => cfg,
        }
    }
}

} // verus!
