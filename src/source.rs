//! Recovering the text that a span covers.

use vstd::prelude::*;
use crate::diagnostic::{downgraded, Applicability};
use crate::ty::Span;

verus! {

/// The text under `span`, where the span lies within the source.
pub open spec fn snippet_spec(source: Seq<char>, span: Span) -> Option<Seq<char>> {
    if span.lo <= span.hi && span.hi <= source.len() {
        Some(source.subrange(span.lo as int, span.hi as int))
    } else {
        None
    }
}

/// The text under `span`, or `None` where the span does not lie within `source`.
pub fn snippet(source: &str, span: Span) -> (r: Option<String>)
    ensures
        match r {
            Some(t) => snippet_spec(source@, span) == Some(t@),
            None => snippet_spec(source@, span) is None,
        },
{
    let len = source.unicode_len();
    if span.lo <= span.hi && span.hi <= len {
        let part = source.substring_char(span.lo, span.hi);
        Some(part.to_owned())
    } else {
        None
    }
}

/// The text under `span`; where it cannot be recovered, `default` in its place,
/// with `applicability` lowered to `HasPlaceholders` if it claimed more.
pub fn snippet_with_applicability(
    source: &str,
    span: Span,
    default: &str,
    applicability: &mut Applicability,
) -> (r: String)
    ensures
        match snippet_spec(source@, span) {
            Some(t) => r@ == t && *final(applicability) == *old(applicability),
            None => r@ == default@ && *final(applicability) == downgraded(*old(applicability)),
        },
{
    match snippet(source, span) {
        Some(t) => t,
        None => {
            crate::diagnostic::downgrade_to_placeholders(applicability);
            default.to_owned()
        },
    }
}

} // verus!
