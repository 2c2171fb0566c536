//! Matching paths against patterns.

use crate::text::{chars_of, has_prefix, starts_with};
use vstd::prelude::*;
use vstd::string::*;

verus! {

/// How a pattern is matched.
#[derive(Debug, Clone, Copy, PartialEq, Eq, Structural)]
pub struct GlobOptions {
    /// Whether case is ignored.
    pub case_insensitive: bool,
    /// Whether hidden files match.
    pub match_hidden: bool,
    /// Whether a separator must be written out to match.
    pub require_literal_separator: bool,
}

impl Default for GlobOptions {
    fn default() -> (r: Self)
        ensures
            r == (GlobOptions {
                case_insensitive: false,
                match_hidden: false,
                require_literal_separator: false,
            }),
    {
        GlobOptions {
            case_insensitive: false,
            match_hidden: false,
            require_literal_separator: false,
        }
    }
}

/// True for a pattern that says itself where it starts: with `**/`, with a
/// dot, or with `*/`.
pub open spec fn is_anchored(pattern: Seq<char>) -> bool {
    has_prefix(pattern, "**/"@) || has_prefix(pattern, "."@) || has_prefix(pattern, "*/"@)
}

/// The pattern that is matched for `pattern` under the options: where hidden
/// files are not to match and the pattern does not say where it starts, it is
/// looked for below every directory that is not hidden.
pub open spec fn effective_pattern(pattern: Seq<char>, match_hidden: bool) -> Seq<char> {
    if match_hidden || is_anchored(pattern) {
        pattern
    } else {
        "[!.]*/**/"@ + pattern
    }
}

/// The pattern that is matched for `pattern` under the options.
pub fn glob_pattern(pattern: &str, options: &GlobOptions) -> (r: String)
    ensures
        r@ == effective_pattern(pattern@, options.match_hidden),
{
    if options.match_hidden {
        return String::from_str(pattern);
    }
    let chars = chars_of(pattern);
    let a = chars_of("**/");
    let b = chars_of(".");
    let c = chars_of("*/");
    if starts_with(chars.as_slice(), a.as_slice()) || starts_with(chars.as_slice(), b.as_slice())
        || starts_with(chars.as_slice(), c.as_slice()) {
        String::from_str(pattern)
    } else {
        let mut out = String::from_str("[!.]*/**/");
        out.append(pattern);
        out
    }
}

/// Whether case matters under the options.
pub fn case_sensitive(options: &GlobOptions) -> (r: bool)
    ensures
        r == !options.case_insensitive,
{
    !options.case_insensitive
}

} // verus!
