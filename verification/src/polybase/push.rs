//! The canonical "drop from the offline queue or retry" classifier for push rejections.

use vstd::prelude::*;
use crate::polybase::errors::PushError;
use crate::text::{chars_of, contains_chars, contains_seq, lower_chars, lower_seq};

verus! {

/// The permanent-rejection patterns, in order.
pub open spec fn permanent_patterns() -> Seq<Seq<char>> {
    seq![
        "version regression"@,
        "is immutable"@,
        "same-version mutation"@,
        "undelete requires version"@,
        "string is too long for tsvector"@,
        "value too long"@,
        "violates check constraint"@,
        "violates not-null constraint"@,
        "violates unique constraint"@,
        "invalid input syntax"@,
    ]
}

/// Patterns that mean a push rejection is permanent and the offline queue should drop the
/// operation rather than retry it.
///
/// Notably absent: `violates foreign key constraint`. A FK violation usually means the parent
/// row is en route via realtime/pull and a retry will succeed once the parent lands.
pub fn permanent_push_error_patterns() -> (v: Vec<&'static str>)
    ensures
        v@.len() == permanent_patterns().len(),
        forall|k: int| 0 <= k < v@.len() ==> (#[trigger] v@[k])@ == permanent_patterns()[k],
{
    vec![
        "version regression",
        "is immutable",
        "same-version mutation",
        "undelete requires version",
        "string is too long for tsvector",
        "value too long",
        "violates check constraint",
        "violates not-null constraint",
        "violates unique constraint",
        "invalid input syntax",
    ]
}

/// The message, lower-cased, contains one of the permanent patterns.
pub open spec fn is_permanent_message(message: Seq<char>) -> bool {
    exists|k: int| 0 <= k < permanent_patterns().len() && contains_seq(
        lower_seq(message),
        #[trigger] permanent_patterns()[k],
    )
}

/// True when the (case-insensitive) message body contains any of the known permanent-rejection
/// patterns.
pub fn is_permanent_push_error_message(message: &str) -> (r: bool)
    ensures
        r == is_permanent_message(message@),
{
    let lower = lower_chars(&chars_of(message));
    let patterns = permanent_push_error_patterns();
    let mut k: usize = 0;
    while k < patterns.len()
        invariant
            k <= patterns.len(),
            patterns@.len() == permanent_patterns().len(),
            forall|m: int| 0 <= m < patterns@.len() ==> (#[trigger] patterns@[m])@ == permanent_patterns()[m],
            lower@ == lower_seq(message@),
            forall|m: int| 0 <= m < k ==> !contains_seq(lower@, #[trigger] permanent_patterns()[m]),
        decreases patterns.len() - k,
    {
        let pattern = chars_of(patterns[k]);
        if contains_chars(&lower, &pattern) {
            proof {
                assert(contains_seq(lower_seq(message@), permanent_patterns()[k as int]));
            }
            return true;
        }
        k = k + 1;
    }
    false
}

/// Classify a free-form error message into a [`PushError`]: permanent when it matches one of
/// the patterns, transient otherwise.
pub fn classify_push_error_message(table: &str, message: &str) -> (r: PushError)
    ensures
        is_permanent_message(message@) ==> (r matches PushError::Permanent { table: t, message: m }
            && t@ == table@ && m@ == message@),
        !is_permanent_message(message@) ==> (r matches PushError::Transient { table: t, message: m }
            && t@ == table@ && m@ == message@),
{
    if is_permanent_push_error_message(message) {
        PushError::Permanent { table: table.to_owned(), message: message.to_owned() }
    } else {
        PushError::Transient { table: table.to_owned(), message: message.to_owned() }
    }
}

} // verus!
