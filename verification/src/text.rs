//! Text that the library builds, and the two renderings it leaves to the
//! crates that own them.

use vstd::prelude::*;
use vstd::string::*;

verus! {

/// The text that `bstr` shows for `bytes`.
pub uninterp spec fn lossy_text(bytes: Seq<u8>) -> Seq<char>;

/// Renders `bytes` as `bstr::BStr` displays them. Believed, not proved: the
/// text is the one that `<BStr as Display>::fmt` writes for these bytes when
/// no width is asked for, which depends on the bytes alone.
#[verifier::external_body]
pub(crate) fn render_lossy(bytes: &Vec<u8>) -> (text: String)
    ensures
        text@ == lossy_text(bytes@),
{
    bstr::BStr::new(bytes).to_string()
}

/// The JSON string literal that `serde_json` writes for `text`, where it
/// writes one.
pub uninterp spec fn json_quoted(text: Seq<char>) -> Option<Seq<char>>;

/// Encodes `text` as a JSON string literal with `serde_json::to_string`.
/// Believed, not proved: the outcome depends on `text` alone. Nothing is
/// claimed of when the call succeeds or of what the literal looks like.
#[verifier::external_body]
pub(crate) fn quote_json(text: &str) -> (quoted: Option<String>)
    ensures
        match quoted {
            Some(literal) => json_quoted(text@) == Some(literal@),
            None => json_quoted(text@).is_none(),
        },
{
    serde_json::to_string(text).ok()
}

/// The name of a type without its generic arguments: `name` up to its first
/// `<`, or all of it when it has none.
pub fn type_label(name: &str) -> (label: String)
    ensures
        label@.len() <= name@.len(),
        label@ == name@.take(label@.len() as int),
        !label@.contains('<'),
        label@.len() == name@.len() || name@[label@.len() as int] == '<',
{
    let len = name.unicode_len();
    let mut cut: usize = 0;
    for c in iter: name.chars()
        invariant_except_break
            cut == iter.index(),
        invariant
            iter.seq() == name@,
            len == name@.len(),
            cut <= len,
            forall|i: int| 0 <= i < cut ==> name@[i] != '<',
        ensures
            cut == len || name@[cut as int] == '<',
    {
        if c == '<' {
            break ;
        }
        cut += 1;
    }
    let label = name.substring_char(0, cut).to_owned();
    assert(label@ =~= name@.take(cut as int));
    label
}

} // verus!
