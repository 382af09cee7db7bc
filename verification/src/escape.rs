//! Text escaping for HTML/XML output.
//!
//! The renderers escape human-readable text and attribute values before
//! splicing them into markup. The exact replacement tables are stated here as
//! spec functions, and the executable escapers are thin wrappers over the
//! `html_escape` crate whose contracts say that they compute exactly those
//! tables.

use vstd::prelude::*;

verus! {

/// Replacement for one character in text content: `&`, `<` and `>` become
/// entities, everything else stays itself.
pub open spec fn esc_text_char(c: char) -> Seq<char> {
    if c == '&' {
        seq!['&', 'a', 'm', 'p', ';']
    } else if c == '<' {
        seq!['&', 'l', 't', ';']
    } else if c == '>' {
        seq!['&', 'g', 't', ';']
    } else {
        seq![c]
    }
}

/// Replacement for one character in a double-quoted attribute value: the text
/// replacements plus `"` as `&quot;`.
pub open spec fn esc_attr_char(c: char) -> Seq<char> {
    if c == '"' {
        seq!['&', 'q', 'u', 'o', 't', ';']
    } else {
        esc_text_char(c)
    }
}

/// Escape a whole text node, character by character.
pub open spec fn esc_text(s: Seq<char>) -> Seq<char>
    decreases s.len(),
{
    if s.len() == 0 {
        Seq::empty()
    } else {
        esc_text_char(s[0]) + esc_text(s.drop_first())
    }
}

/// Escape a whole double-quoted attribute value, character by character.
pub open spec fn esc_attr(s: Seq<char>) -> Seq<char>
    decreases s.len(),
{
    if s.len() == 0 {
        Seq::empty()
    } else {
        esc_attr_char(s[0]) + esc_attr(s.drop_first())
    }
}

/// Conditional text escaping: the renderers escape human-readable text only
/// when the caller asked for it.
pub open spec fn enc_html(s: Seq<char>, escape: bool) -> Seq<char> {
    if escape {
        esc_text(s)
    } else {
        s
    }
}

/// Relies on html_escape::encode_text: it replaces `&`, `<`, `>` by
/// `&amp;`, `&lt;`, `&gt;` and leaves every other character unchanged.
#[verifier::external_body]
pub fn escape_text_exec(s: &str) -> (r: String)
    ensures
        r@ == esc_text(s@),
{
    html_escape::encode_text(s).into_owned()
}

/// Relies on html_escape::encode_double_quoted_attribute: it replaces
/// `&`, `<`, `>`, `"` by `&amp;`, `&lt;`, `&gt;`, `&quot;` and leaves every
/// other character unchanged.
#[verifier::external_body]
pub fn escape_attr_exec(s: &str) -> (r: String)
    ensures
        r@ == esc_attr(s@),
{
    html_escape::encode_double_quoted_attribute(s).into_owned()
}

/// Conditionally escape text content, as the renderers do for titles and
/// free-text metadata.
pub fn encode_html(s: &str, encode: bool) -> (r: String)
    ensures
        r@ == enc_html(s@, encode),
{
    if encode {
        escape_text_exec(s)
    } else {
        s.to_owned()
    }
}

/// What `str::to_lowercase` returns. The result depends on the characters
/// alone.
pub uninterp spec fn lower_of(s: Seq<char>) -> Seq<char>;

/// Relies on str::to_lowercase: Unicode lowercasing of every character.
#[verifier::external_body]
pub fn lowercase_exec(s: &str) -> (r: String)
    ensures
        r@ == lower_of(s@),
{
    s.to_lowercase()
}

/// What `str::trim` returns: the input without leading and trailing
/// whitespace. The result depends on the characters alone.
pub uninterp spec fn trim_of(s: Seq<char>) -> Seq<char>;

/// Relies on str::trim: it removes leading and trailing Unicode whitespace.
#[verifier::external_body]
pub fn trim_exec(s: &str) -> (r: String)
    ensures
        r@ == trim_of(s@),
{
    s.trim().to_owned()
}

} // verus!
