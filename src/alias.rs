use vstd::prelude::*;

use rokit::tool::ToolAlias;

verus! {

/// rokit's `ToolAlias`, the validated form of a logical name; carried through
/// to discovery as it is.
#[verifier::external_type_specification]
#[verifier::external_body]
pub struct ExToolAlias(ToolAlias);

/// Why a name is no valid tool alias.
#[derive(Debug, Clone)]
pub enum AliasError {
    /// The name is empty.
    Empty,
    /// The name holds no information, holds a reserved character, or names
    /// the dispatcher itself.
    Invalid(String),
    /// The name holds white space.
    ContainsWhitespace(String),
}

/// A character of Unicode's White_Space property.
pub open spec fn is_white_space(c: char) -> bool {
    ('\u{9}' <= c && c <= '\u{d}') || c == ' ' || c == '\u{85}' || c == '\u{a0}' || c
        == '\u{1680}' || ('\u{2000}' <= c && c <= '\u{200a}') || c == '\u{2028}' || c
        == '\u{2029}' || c == '\u{202f}' || c == '\u{205f}' || c == '\u{3000}'
}

/// The characters that separate the parts of a tool's identifier.
pub open spec fn is_reserved_char(c: char) -> bool {
    c == ':' || c == '/' || c == '@'
}

pub open spec fn has_white_space(s: Seq<char>) -> bool {
    exists|i: int| 0 <= i < s.len() && is_white_space(#[trigger] s[i])
}

pub open spec fn all_white_space(s: Seq<char>) -> bool {
    forall|i: int| 0 <= i < s.len() ==> is_white_space(#[trigger] s[i])
}

pub open spec fn has_reserved_char(s: Seq<char>) -> bool {
    exists|i: int| 0 <= i < s.len() && is_reserved_char(#[trigger] s[i])
}

/// `s` reads "rokit" in any ASCII case.
pub open spec fn is_reserved_name(s: Seq<char>) -> bool {
    let r = seq!['r', 'o', 'k', 'i', 't'];
    &&& s.len() == r.len()
    &&& forall|i: int|
        0 <= i < r.len() ==> crate::identity::ascii_lower_code(#[trigger] s[i]) == r[i] as u32
}

/// `s` holds no information or a reserved character.
pub open spec fn is_invalid_identifier(s: Seq<char>) -> bool {
    s.len() == 0 || all_white_space(s) || has_reserved_char(s)
}

/// `s` is a valid tool alias.
pub open spec fn is_valid_alias(s: Seq<char>) -> bool {
    !is_invalid_identifier(s) && !has_white_space(s) && !is_reserved_name(s)
}

/// `e` is the error that parsing `s` as an alias gives: the first of the
/// checks for emptiness, information and reserved characters, white space,
/// and the reserved name, that `s` fails.
pub open spec fn is_alias_error(e: AliasError, s: Seq<char>) -> bool {
    match e {
        AliasError::Empty => s.len() == 0,
        AliasError::Invalid(t) => t@ == s && s.len() > 0 && (is_invalid_identifier(s) || (
        !has_white_space(s) && is_reserved_name(s))),
        AliasError::ContainsWhitespace(t) => t@ == s && !is_invalid_identifier(s)
            && has_white_space(s),
    }
}

/// Relies on rokit's `ToolAlias::from_str`: it fails, with the error that
/// `is_alias_error` describes, exactly on the names that are no valid alias.
#[verifier::external_body]
pub(crate) fn parse_tool_alias(s: &str) -> (r: Result<ToolAlias, AliasError>)
    ensures
        match r {
            Ok(_) => is_valid_alias(s@),
            Err(e) => !is_valid_alias(s@) && is_alias_error(e, s@),
        },
{
    match <ToolAlias as std::str::FromStr>::from_str(s) {
        Ok(alias) => Ok(alias),
        Err(rokit::tool::ToolAliasParseError::Empty) => Err(AliasError::Empty),
        Err(rokit::tool::ToolAliasParseError::Invalid(t)) => Err(AliasError::Invalid(t)),
        Err(rokit::tool::ToolAliasParseError::ContainsWhitespace(t)) => Err(
            AliasError::ContainsWhitespace(t),
        ),
    }
}

} // verus!
