//! Post-processing for log field values produced by `{:?}`.
//!
//! [`clean_debug_value`] strips two common sources of noise from the raw `{:?}` output:
//!
//! - **`Option` wrappers** — `Some(x)` becomes `x`; `None` is left as-is.
//! - **JSON-value Debug notation** — `Object {"k": String("v")}` becomes `{"k": "v"}`,
//!   stripping the per-variant type tags.
//!
//! Any string that matches neither pattern is returned unchanged as `Cow::Borrowed`.

use std::borrow::Cow;
use vstd::prelude::*;
use crate::text::{chars_of, occurs_at, occurs_at_exec, string_from_chars};

verus! {

// ── the grammar, as spec functions over characters ─────────────────────────────

/// `lit` occurs in `s` at position `p`.
pub open spec fn lit_at(s: Seq<char>, p: int, lit: Seq<char>) -> bool {
    occurs_at(s, lit, p)
}

/// ASCII whitespace: space, tab, line feed, form feed, carriage return.
pub open spec fn is_ascii_ws(c: char) -> bool {
    c == ' ' || c == '\t' || c == '\n' || c == '\x0C' || c == '\r'
}

/// The first position at or after `p` that is not ASCII whitespace.
pub open spec fn skip_ws(s: Seq<char>, p: int) -> int
    decreases s.len() - p,
{
    if 0 <= p < s.len() && is_ascii_ws(s[p]) {
        skip_ws(s, p + 1)
    } else {
        p
    }
}

/// Inside a Rust string literal starting at `q` (just past the opening quote): the position
/// just past the closing quote, honoring backslash escapes, or `None` if it never closes.
pub open spec fn string_end(s: Seq<char>, q: int) -> Option<int>
    decreases s.len() - q,
{
    if q < 0 || q >= s.len() {
        None
    } else if s[q] == '"' {
        Some(q + 1)
    } else if s[q] == '\\' {
        if q + 1 >= s.len() {
            None
        } else {
            string_end(s, q + 2)
        }
    } else {
        string_end(s, q + 1)
    }
}

/// A string literal ends strictly after its start and within the input.
pub proof fn lemma_string_end_bounds(s: Seq<char>, q: int)
    ensures
        string_end(s, q) matches Some(e) ==> q < e <= s.len(),
    decreases s.len() - q,
{
    if 0 <= q < s.len() && s[q] != '"' {
        if s[q] == '\\' {
            if q + 1 < s.len() {
                lemma_string_end_bounds(s, q + 2);
            }
        } else {
            lemma_string_end_bounds(s, q + 1);
        }
    }
}

/// A backslash inside a string literal escapes the character after it: scanning resumes two
/// positions on, so the escaped character (a quote among them) never ends the literal.
pub proof fn lemma_backslash_escapes_next(s: Seq<char>, q: int)
    requires
        0 <= q,
        q + 1 < s.len(),
        s[q] == '\\',
    ensures
        string_end(s, q) == string_end(s, q + 2),
        string_end(s, q) matches Some(e) ==> q + 2 < e,
{
    lemma_string_end_bounds(s, q + 2);
}

/// Characters other than quotes and backslashes neither end a literal nor escape anything.
proof fn lemma_string_end_plain_run(s: Seq<char>, i: int, j: int)
    requires
        0 <= i <= j <= s.len(),
        forall|k: int| i <= k < j ==> s[k] != '"' && s[k] != '\\',
    ensures
        string_end(s, i) == string_end(s, j),
    decreases j - i,
{
    if i < j {
        lemma_string_end_plain_run(s, i + 1, j);
    }
}

/// Position of the `)` that closes an already-open `(` with nesting `depth`, scanning from `i`;
/// parentheses inside string literals do not count.
pub open spec fn close_paren(s: Seq<char>, i: int, depth: int) -> Option<int>
    decreases s.len() - i,
{
    if i < 0 || i >= s.len() {
        None
    } else if s[i] == '"' {
        proof {
            lemma_string_end_bounds(s, i + 1);
        }
        match string_end(s, i + 1) {
            Some(j) => close_paren(s, j, depth),
            None => None,
        }
    } else if s[i] == '(' {
        close_paren(s, i + 1, depth + 1)
    } else if s[i] == ')' {
        if depth - 1 == 0 {
            Some(i)
        } else {
            close_paren(s, i + 1, depth - 1)
        }
    } else {
        close_paren(s, i + 1, depth)
    }
}

/// A closing parenthesis lies within the input, at or after the scan start.
pub proof fn lemma_close_paren_bounds(s: Seq<char>, i: int, depth: int)
    ensures
        close_paren(s, i, depth) matches Some(c) ==> i <= c < s.len(),
    decreases s.len() - i,
{
    if 0 <= i < s.len() {
        if s[i] == '"' {
            lemma_string_end_bounds(s, i + 1);
            if let Some(j) = string_end(s, i + 1) {
                lemma_close_paren_bounds(s, j, depth);
            }
        } else if s[i] == '(' {
            lemma_close_paren_bounds(s, i + 1, depth + 1);
        } else if s[i] == ')' {
            if depth - 1 != 0 {
                lemma_close_paren_bounds(s, i + 1, depth - 1);
            }
        } else {
            lemma_close_paren_bounds(s, i + 1, depth);
        }
    }
}

/// One `Some(…)` layer removed, when the whole of `s` is exactly `Some(…)`.
pub open spec fn try_strip_some(s: Seq<char>) -> Option<Seq<char>> {
    if lit_at(s, 0, "Some("@) {
        let inner = s.skip("Some("@.len() as int);
        match close_paren(inner, 0, 1) {
            Some(c) => if c == inner.len() - 1 { Some(inner.take(c)) } else { None },
            None => None,
        }
    } else {
        None
    }
}

/// A stripped layer is strictly shorter.
pub proof fn lemma_try_strip_shorter(s: Seq<char>)
    ensures
        try_strip_some(s) matches Some(t) ==> t.len() < s.len(),
{
    if lit_at(s, 0, "Some("@) {
        let inner = s.skip("Some("@.len() as int);
        lemma_close_paren_bounds(inner, 0, 1);
    }
}

/// Zero or more layers of `Some(…)` removed.
pub open spec fn strip_some(s: Seq<char>) -> Seq<char>
    decreases s.len(),
{
    proof {
        lemma_try_strip_shorter(s);
    }
    match try_strip_some(s) {
        Some(t) => strip_some(t),
        None => s,
    }
}

/// A Rust string literal starting with its opening quote at `q`: the position just past it.
pub open spec fn rust_string(s: Seq<char>, q: int) -> Option<int> {
    if 0 <= q < s.len() && s[q] == '"' {
        string_end(s, q + 1)
    } else {
        None
    }
}

/// The first position at or after `q` holding `)`, or the end of the input.
pub open spec fn scan_to_paren(s: Seq<char>, q: int) -> int
    decreases s.len() - q,
{
    if 0 <= q < s.len() && s[q] != ')' {
        scan_to_paren(s, q + 1)
    } else {
        q
    }
}

/// One JSON-debug value at `p`: the position after it and its compact rendering.
pub open spec fn json_value(s: Seq<char>, p: int) -> Option<(int, Seq<char>)>
    decreases s.len() - p, 2int,
{
    if p < 0 || p > s.len() {
        None
    } else if lit_at(s, p, "Object {"@) {
        json_object(s, p)
    } else if lit_at(s, p, "Array ["@) {
        json_array(s, p)
    } else if lit_at(s, p, "String("@) {
        let q = p + "String("@.len();
        match rust_string(s, q) {
            Some(e) => if lit_at(s, e, ")"@) { Some((e + 1, s.subrange(q, e))) } else { None },
            None => None,
        }
    } else if lit_at(s, p, "Number("@) {
        let q = p + "Number("@.len();
        let e = scan_to_paren(s, q);
        if e <= q || e >= s.len() {
            None
        } else {
            Some((e + 1, s.subrange(q, e)))
        }
    } else if lit_at(s, p, "Bool(true)"@) {
        Some((p + "Bool(true)"@.len(), "true"@))
    } else if lit_at(s, p, "Bool(false)"@) {
        Some((p + "Bool(false)"@.len(), "false"@))
    } else if lit_at(s, p, "Null"@) {
        Some((p + "Null"@.len(), "null"@))
    } else {
        None
    }
}

/// An object starting at `p` (where `Object {` occurs).
pub open spec fn json_object(s: Seq<char>, p: int) -> Option<(int, Seq<char>)>
    decreases s.len() - p, 1int,
{
    let q = skip_ws(s, p + "Object {"@.len());
    if !(p < q) || q > s.len() || p < 0 {
        None
    } else if 0 <= q < s.len() && s[q] == '}' {
        Some((q + 1, "{}"@))
    } else {
        match object_members(s, q, true) {
            Some((e, body)) => Some((e, "{"@ + body)),
            None => None,
        }
    }
}

/// Object members from `q` on, through the closing `}`.
pub open spec fn object_members(s: Seq<char>, q: int, first: bool) -> Option<(int, Seq<char>)>
    decreases s.len() - q, 0int,
{
    if q < 0 || q > s.len() {
        None
    } else if !first && !lit_at(s, q, ", "@) {
        None
    } else {
        let q1 = if first { q } else { q + ", "@.len() };
        let lead = if first { Seq::<char>::empty() } else { ", "@ };
        match rust_string(s, q1) {
            None => None,
            Some(e1) => {
                if !lit_at(s, e1, ": "@) || !(q < e1 + ": "@.len()) || e1 + ": "@.len() > s.len() || !(q1 <= e1) {
                    None
                } else {
                    match json_value(s, e1 + ": "@.len()) {
                        None => None,
                        Some((e2, v)) => {
                            let q3 = skip_ws(s, e2);
                            let piece = lead + s.subrange(q1, e1) + ": "@ + v;
                            if 0 <= q3 < s.len() && s[q3] == '}' {
                                Some((q3 + 1, piece + "}"@))
                            } else if q < q3 && q3 <= s.len() {
                                match object_members(s, q3, false) {
                                    Some((e, rest)) => Some((e, piece + rest)),
                                    None => None,
                                }
                            } else {
                                None
                            }
                        },
                    }
                }
            },
        }
    }
}

/// An array starting at `p` (where `Array [` occurs).
pub open spec fn json_array(s: Seq<char>, p: int) -> Option<(int, Seq<char>)>
    decreases s.len() - p, 1int,
{
    let q = skip_ws(s, p + "Array ["@.len());
    if !(p < q) || q > s.len() || p < 0 {
        None
    } else if 0 <= q < s.len() && s[q] == ']' {
        Some((q + 1, "[]"@))
    } else {
        match array_elements(s, q, true) {
            Some((e, body)) => Some((e, "["@ + body)),
            None => None,
        }
    }
}

/// Array elements from `q` on, through the closing `]`.
pub open spec fn array_elements(s: Seq<char>, q: int, first: bool) -> Option<(int, Seq<char>)>
    decreases s.len() - q, 3int,
{
    if q < 0 || q > s.len() {
        None
    } else if !first && !lit_at(s, q, ", "@) {
        None
    } else {
        let q1 = if first { q } else { q + ", "@.len() };
        let lead = if first { Seq::<char>::empty() } else { ", "@ };
        if q1 > s.len() {
            None
        } else {
            match json_value(s, q1) {
                None => None,
                Some((e2, v)) => {
                    let q3 = skip_ws(s, e2);
                    let piece = lead + v;
                    if 0 <= q3 < s.len() && s[q3] == ']' {
                        Some((q3 + 1, piece + "]"@))
                    } else if q < q3 && q3 <= s.len() {
                        match array_elements(s, q3, false) {
                            Some((e, rest)) => Some((e, piece + rest)),
                            None => None,
                        }
                    } else {
                        None
                    }
                },
            }
        }
    }
}

/// The whole of `s` is one JSON-debug value: its compact rendering.
pub open spec fn rewrite_json(s: Seq<char>) -> Option<Seq<char>> {
    match json_value(s, 0) {
        Some((e, out)) => if e == s.len() { Some(out) } else { None },
        None => None,
    }
}

/// The cleaned form of a `{:?}` value: strip `Some(…)` layers, then rewrite JSON-debug
/// notation when the remainder is exactly one such value.
pub open spec fn clean_spec(s: Seq<char>) -> Seq<char> {
    let stripped = strip_some(s);
    match rewrite_json(stripped) {
        Some(out) => out,
        None => stripped,
    }
}

/// Nothing changed: no `Some(…)` layer and no JSON-debug rewrite.
pub open spec fn clean_is_identity(s: Seq<char>) -> bool {
    strip_some(s) == s && rewrite_json(s) is None
}


/// No character of `t` is a quote or a backslash.
pub open spec fn plain_text(t: Seq<char>) -> bool {
    forall|k: int| 0 <= k < t.len() ==> t[k] != '"' && t[k] != '\\'
}

/// A `String(…)` value whose literal holds an escaped quote is cleaned to the whole literal,
/// escapes kept: the tag goes, and the escaped quote does not end the literal.
pub proof fn lemma_clean_string_keeps_escaped_quote(a: Seq<char>, b: Seq<char>)
    requires
        plain_text(a),
        plain_text(b),
    ensures
        clean_spec("String(\""@ + a + "\\\""@ + b + "\")"@) == "\""@ + a + "\\\""@ + b + "\""@,
{
    reveal_strlit("String(\"");
    reveal_strlit("\\\"");
    reveal_strlit("\")");
    reveal_strlit("\"");
    reveal_strlit("Some(");
    reveal_strlit("Object {");
    reveal_strlit("Array [");
    reveal_strlit("String(");
    reveal_strlit(")");
    let s = "String(\""@ + a + "\\\""@ + b + "\")"@;
    let n = a.len() as int;
    let m = b.len() as int;
    assert(s.len() == 12 + n + m);
    assert(s[0] == 'S' && s[1] == 't' && s[7] == '"');
    assert(s[8 + n] == '\\' && s[9 + n] == '"');
    assert(s[10 + n + m] == '"' && s[11 + n + m] == ')');
    assert forall|k: int| 8 <= k < 8 + n implies s[k] != '"' && s[k] != '\\' by {
        assert(s[k] == a[k - 8]);
    }
    assert forall|k: int| 10 + n <= k < 10 + n + m implies s[k] != '"' && s[k] != '\\' by {
        assert(s[k] == b[k - 10 - n]);
    }
    // no `Some(` layer to strip
    assert(s.subrange(0, 5)[1] == s[1]);
    assert(!lit_at(s, 0, "Some("@));
    assert(strip_some(s) == s);
    // the value is a `String(` literal
    assert(s.subrange(0, 8)[0] == s[0]);
    assert(s.subrange(0, 7)[0] == s[0]);
    assert(!lit_at(s, 0, "Object {"@));
    assert(!lit_at(s, 0, "Array ["@));
    assert(s.subrange(0, 7) =~= "String("@);
    assert(lit_at(s, 0, "String("@));
    lemma_string_end_plain_run(s, 8, 8 + n);
    lemma_backslash_escapes_next(s, 8 + n);
    lemma_string_end_plain_run(s, 10 + n, 10 + n + m);
    assert(string_end(s, 10 + n + m) == Some(11 + n + m));
    assert(rust_string(s, 7) == Some(11 + n + m));
    assert(s.subrange(11 + n + m, 12 + n + m) =~= ")"@);
    assert(lit_at(s, 11 + n + m, ")"@));
    assert(json_value(s, 0) == Some((12 + n + m, s.subrange(7, 11 + n + m))));
    assert(s.subrange(7, 11 + n + m) =~= "\""@ + a + "\\\""@ + b + "\""@);
}

/// Characters other than quotes and parentheses leave the parenthesis scan where it was.
proof fn lemma_close_paren_plain_run(s: Seq<char>, i: int, j: int, depth: int)
    requires
        0 <= i <= j <= s.len(),
        forall|k: int| i <= k < j ==> s[k] != '"' && s[k] != '(' && s[k] != ')',
    ensures
        close_paren(s, i, depth) == close_paren(s, j, depth),
    decreases j - i,
{
    if i < j {
        lemma_close_paren_plain_run(s, i + 1, j, depth);
    }
}

/// An `Option` wrapper around a value without quotes or parentheses is removed: the value is
/// cleaned as if it had come unwrapped.
pub proof fn lemma_some_wrapper_removed(x: Seq<char>)
    requires
        forall|k: int| 0 <= k < x.len() ==> x[k] != '"' && x[k] != '(' && x[k] != ')',
    ensures
        strip_some("Some("@ + x + ")"@) == strip_some(x),
        clean_spec("Some("@ + x + ")"@) == clean_spec(x),
{
    reveal_strlit("Some(");
    reveal_strlit(")");
    let s = "Some("@ + x + ")"@;
    let n = x.len() as int;
    assert(s.subrange(0, 5) =~= "Some("@);
    let inner = s.skip(5);
    assert(inner =~= x + ")"@);
    assert(inner[n] == ')');
    lemma_close_paren_plain_run(inner, 0, n, 1);
    assert(close_paren(inner, 0, 1) == Some(n));
    assert(inner.take(n) =~= x);
    assert(try_strip_some(s) == Some(x));
    lemma_try_strip_shorter(s);
}

/// A `Number(…)` value is cleaned to the digits it holds, and `Bool(…)` and `Null` to the JSON
/// words `true`, `false` and `null`.
pub proof fn lemma_clean_scalars(d: Seq<char>)
    requires
        d.len() > 0,
        forall|k: int| 0 <= k < d.len() ==> d[k] != ')',
    ensures
        clean_spec("Number("@ + d + ")"@) == d,
        clean_spec("Bool(true)"@) == "true"@,
        clean_spec("Bool(false)"@) == "false"@,
        clean_spec("Null"@) == "null"@,
{
    reveal_strlit("Some(");
    reveal_strlit("Object {");
    reveal_strlit("Array [");
    reveal_strlit("String(");
    reveal_strlit("Number(");
    reveal_strlit("Bool(true)");
    reveal_strlit("Bool(false)");
    reveal_strlit("Null");
    reveal_strlit(")");
    let n = d.len() as int;
    let s = "Number("@ + d + ")"@;
    assert(s[7 + n] == ')');
    assert forall|k: int| 7 <= k < 7 + n implies s[k] != ')' by {
        assert(s[k] == d[k - 7]);
    }
    lemma_scan_to_paren_run(s, 7, 7 + n);
    lemma_not_wrapped(s);
    assert(s.subrange(0, 7) =~= "Number("@);
    assert(s.subrange(7, 7 + n) =~= d);
    let t = "Bool(true)"@;
    lemma_not_wrapped(t);
    assert(t.subrange(0, 10) =~= t);
    let f = "Bool(false)"@;
    lemma_not_wrapped(f);
    assert(f.subrange(0, 10)[5] == 'f');
    assert(f.subrange(0, 11) =~= f);
    let z = "Null"@;
    lemma_not_wrapped(z);
    assert(z.subrange(0, 4) =~= z);
}

/// A value that starts with none of `Some(`, `Object {`, `Array [` and `String(` is not a
/// wrapper, an object, an array or a string.
proof fn lemma_not_wrapped(s: Seq<char>)
    requires
        s.len() >= 4,
        s[0] != 'S' && s[0] != 'O' && s[0] != 'A',
    ensures
        strip_some(s) == s,
        !lit_at(s, 0, "Object {"@),
        !lit_at(s, 0, "Array ["@),
        !lit_at(s, 0, "String("@),
{
    reveal_strlit("Some(");
    reveal_strlit("Object {");
    reveal_strlit("Array [");
    reveal_strlit("String(");
    if s.len() >= 5 {
        assert(s.subrange(0, 5)[0] == s[0]);
    }
    if s.len() >= 7 {
        assert(s.subrange(0, 7)[0] == s[0]);
    }
    if s.len() >= 8 {
        assert(s.subrange(0, 8)[0] == s[0]);
    }
}

/// Characters other than `)` carry the scan for a closing parenthesis along.
proof fn lemma_scan_to_paren_run(s: Seq<char>, i: int, j: int)
    requires
        0 <= i <= j < s.len(),
        s[j] == ')',
        forall|k: int| i <= k < j ==> s[k] != ')',
    ensures
        scan_to_paren(s, i) == j,
    decreases j - i,
{
    if i < j {
        lemma_scan_to_paren_run(s, i + 1, j);
    }
}

/// Stripping never lengthens, and leaves the input unchanged when it keeps the length.
pub proof fn lemma_strip_some_len(s: Seq<char>)
    ensures
        strip_some(s).len() <= s.len(),
        strip_some(s).len() == s.len() ==> strip_some(s) == s,
    decreases s.len(),
{
    lemma_try_strip_shorter(s);
    if let Some(t) = try_strip_some(s) {
        lemma_strip_some_len(t);
    }
}

/// Cleaning changes the text whenever it strips a layer or rewrites JSON-debug notation: a
/// rewritten value never reads back as its input.
pub proof fn lemma_cleaning_changes_text(s: Seq<char>)
    requires
        !clean_is_identity(s),
    ensures
        clean_spec(s) != s,
{
    reveal_strlit("Some(");
    reveal_strlit("Object {");
    reveal_strlit("Array [");
    reveal_strlit("String(");
    reveal_strlit("Number(");
    reveal_strlit("Bool(true)");
    reveal_strlit("Bool(false)");
    reveal_strlit("Null");
    reveal_strlit("{}");
    reveal_strlit("{");
    reveal_strlit("[]");
    reveal_strlit("[");
    reveal_strlit("true");
    reveal_strlit("false");
    reveal_strlit("null");
    lemma_strip_some_len(s);
    let st = strip_some(s);
    if st != s {
        assert(try_strip_some(s) is Some);
        assert(lit_at(s, 0, "Some("@));
        assert(s.subrange(0, 5)[0] == s[0]);
        assert(st.len() < s.len());
    }
    match rewrite_json(st) {
        Some(o) => {
            let (e, out) = json_value(st, 0).unwrap();
            assert(e == st.len() && out == o);
            if lit_at(st, 0, "Object {"@) {
                assert(st.subrange(0, 8)[0] == st[0]);
                let q = skip_ws(st, 8);
                if 0 <= q < st.len() && st[q] == '}' {
                    assert(o == "{}"@);
                } else {
                    let body = object_members(st, q, true).unwrap().1;
                    assert(o == "{"@ + body);
                    assert(o[0] == ("{"@ + body)[0]);
                }
                assert(o[0] == '{');
                assert(o[0] != s[0]);
            } else if lit_at(st, 0, "Array ["@) {
                assert(st.subrange(0, 7)[0] == st[0]);
                let q = skip_ws(st, 7);
                if 0 <= q < st.len() && st[q] == ']' {
                    assert(o == "[]"@);
                } else {
                    let body = array_elements(st, q, true).unwrap().1;
                    assert(o == "["@ + body);
                    assert(o[0] == ("["@ + body)[0]);
                }
                assert(o[0] == '[');
                assert(o[0] != s[0]);
            } else if lit_at(st, 0, "String("@) || lit_at(st, 0, "Number("@) {
                assert(o.len() < st.len());
            } else if lit_at(st, 0, "Bool(true)"@) || lit_at(st, 0, "Bool(false)"@) {
                assert(o.len() < st.len());
            } else {
                assert(lit_at(st, 0, "Null"@));
                assert(st.subrange(0, 4)[0] == st[0]);
                assert(o[0] == 'n');
                if st == s {
                    assert(o[0] != s[0]);
                }
            }
        },
        None => {},
    }
}

/// One member of an object: unfolding [`object_members`] once.
proof fn lemma_object_step(s: Seq<char>, cur: int, first: bool, q1: int, e1: int, e2: int, v: Seq<char>, q3: int)
    requires
        0 <= cur <= s.len(),
        first ==> q1 == cur,
        !first ==> lit_at(s, cur, ", "@) && q1 == cur + ", "@.len(),
        rust_string(s, q1) == Some(e1),
        q1 < e1,
        lit_at(s, e1, ": "@),
        e1 + ": "@.len() <= s.len(),
        json_value(s, e1 + ": "@.len()) == Some((e2, v)),
        q3 == skip_ws(s, e2),
        cur < q3 <= s.len(),
    ensures
        ({
            let lead = if first { Seq::<char>::empty() } else { ", "@ };
            let piece = lead + s.subrange(q1, e1) + ": "@ + v;
            object_members(s, cur, first) == if q3 < s.len() && s[q3] == '}' {
                Some((q3 + 1, piece + "}"@))
            } else {
                match object_members(s, q3, false) {
                    Some((e, rest)) => Some((e, piece + rest)),
                    None => None,
                }
            }
        }),
{
}

/// One element of an array: unfolding [`array_elements`] once.
proof fn lemma_array_step(s: Seq<char>, cur: int, first: bool, q1: int, e2: int, v: Seq<char>, q3: int)
    requires
        0 <= cur <= s.len(),
        first ==> q1 == cur,
        !first ==> lit_at(s, cur, ", "@) && q1 == cur + ", "@.len(),
        q1 <= s.len(),
        json_value(s, q1) == Some((e2, v)),
        q3 == skip_ws(s, e2),
        cur < q3 <= s.len(),
    ensures
        ({
            let lead = if first { Seq::<char>::empty() } else { ", "@ };
            let piece = lead + v;
            array_elements(s, cur, first) == if q3 < s.len() && s[q3] == ']' {
                Some((q3 + 1, piece + "]"@))
            } else {
                match array_elements(s, q3, false) {
                    Some((e, rest)) => Some((e, piece + rest)),
                    None => None,
                }
            }
        }),
{
}

// ── the scanner ─────────────────────────────────────────────────────────────────────

/// Whether `lit` occurs in `s` at `p`.
fn at_lit(s: &[char], p: usize, lit: &str) -> (r: bool)
    ensures
        r == lit_at(s@, p as int, lit@),
{
    let l = chars_of(lit);
    occurs_at_exec(s, &l, p)
}

/// ASCII whitespace.
fn is_ws(c: char) -> (r: bool)
    ensures
        r == is_ascii_ws(c),
{
    c == ' ' || c == '\t' || c == '\n' || c == '\x0C' || c == '\r'
}

/// Skip ASCII whitespace from `p`.
fn skip_ws_exec(s: &[char], p: usize) -> (r: usize)
    requires
        p <= s.len(),
    ensures
        r == skip_ws(s@, p as int),
        p <= r <= s.len(),
{
    let mut q = p;
    while q < s.len() && is_ws(s[q])
        invariant
            p <= q <= s.len(),
            skip_ws(s@, p as int) == skip_ws(s@, q as int),
        decreases s.len() - q,
    {
        q = q + 1;
    }
    q
}

/// The end of a string literal whose body starts at `q`.
fn string_end_exec(s: &[char], q: usize) -> (r: Option<usize>)
    requires
        q <= s.len(),
    ensures
        match r {
            Some(e) => string_end(s@, q as int) == Some(e as int) && q < e <= s.len(),
            None => string_end(s@, q as int) is None,
        },
{
    let mut i = q;
    while i < s.len()
        invariant
            q <= i <= s.len(),
            string_end(s@, q as int) == string_end(s@, i as int),
        decreases s.len() - i,
    {
        if s[i] == '"' {
            return Some(i + 1);
        } else if s[i] == '\\' {
            if i + 1 >= s.len() {
                return None;
            }
            i = i + 2;
        } else {
            i = i + 1;
        }
    }
    None
}

/// The closing parenthesis for nesting `depth` (at least 1), scanning from `i`.
fn close_paren_exec(s: &[char], start: usize) -> (r: Option<usize>)
    requires
        start <= s.len(),
    ensures
        match r {
            Some(c) => close_paren(s@, start as int, 1) == Some(c as int),
            None => close_paren(s@, start as int, 1) is None,
        },
{
    let mut i = start;
    let mut depth: u128 = 1;
    while i < s.len()
        invariant
            start <= i <= s.len(),
            1 <= depth <= i + 1,
            close_paren(s@, start as int, 1) == close_paren(s@, i as int, depth as int),
        decreases s.len() - i,
    {
        let c = s[i];
        if c == '"' {
            match string_end_exec(s, i + 1) {
                Some(j) => {
                    i = j;
                },
                None => {
                    return None;
                },
            }
        } else if c == '(' {
            depth = depth + 1;
            i = i + 1;
        } else if c == ')' {
            if depth - 1 == 0 {
                return Some(i);
            }
            depth = depth - 1;
            i = i + 1;
        } else {
            i = i + 1;
        }
    }
    None
}

/// `new` starts with all of `old`: output is only ever appended to.
pub open spec fn extends(old: Seq<char>, new: Seq<char>) -> bool {
    old.len() <= new.len() && new.subrange(0, old.len() as int) =~= old
}

/// The characters `s[from..to]`, appended to `out`.
fn append_range(out: &mut Vec<char>, s: &[char], from: usize, to: usize)
    requires
        from <= to <= s.len(),
    ensures
        final(out)@ == old(out)@ + s@.subrange(from as int, to as int),
{
    let ghost base = out@;
    let mut i = from;
    while i < to
        invariant
            from <= i <= to <= s.len(),
            out@ == base + s@.subrange(from as int, i as int),
        decreases to - i,
    {
        out.push(s[i]);
        proof {
            assert(s@.subrange(from as int, i + 1) =~= s@.subrange(from as int, i as int).push(s@[i as int]));
        }
        i = i + 1;
    }
}

/// The characters of `lit`, appended to `out`.
fn append_lit(out: &mut Vec<char>, lit: &str)
    ensures
        final(out)@ == old(out)@ + lit@,
{
    let l = chars_of(lit);
    append_range(out, &l, 0, l.len());
    proof {
        assert(l@.subrange(0, l@.len() as int) =~= l@);
    }
}

/// One `Some(…)` layer removed, when the whole input is exactly `Some(…)`.
fn try_strip_some_exec(s: &[char]) -> (r: Option<Vec<char>>)
    ensures
        match r {
            Some(t) => try_strip_some(s@) == Some(t@),
            None => try_strip_some(s@) is None,
        },
{
    if !at_lit(s, 0, "Some(") {
        return None;
    }
    let skip = chars_of("Some(").len();
    let mut inner: Vec<char> = Vec::new();
    append_range(&mut inner, s, skip, s.len());
    proof {
        assert(inner@ =~= s@.skip(skip as int));
    }
    match close_paren_exec(&inner, 0) {
        Some(c) => {
            proof {
                lemma_close_paren_bounds(inner@, 0, 1);
            }
            if c == inner.len() - 1 {
                let mut out: Vec<char> = Vec::new();
                append_range(&mut out, &inner, 0, c);
                proof {
                    assert(out@ =~= inner@.take(c as int));
                }
                Some(out)
            } else {
                None
            }
        },
        None => None,
    }
}

/// Zero or more `Some(…)` layers removed.
fn strip_some_exec(s: &[char]) -> (r: Vec<char>)
    ensures
        r@ == strip_some(s@),
{
    let mut cur: Vec<char> = Vec::new();
    append_range(&mut cur, s, 0, s.len());
    proof {
        assert(cur@ =~= s@);
    }
    loop
        invariant
            strip_some(s@) == strip_some(cur@),
        decreases cur.len(),
    {
        proof {
            lemma_try_strip_shorter(cur@);
        }
        match try_strip_some_exec(&cur) {
            Some(t) => {
                cur = t;
            },
            None => {
                return cur;
            },
        }
    }
}

/// The end of a Rust string literal whose opening quote is at `q`.
fn rust_string_exec(s: &[char], q: usize) -> (r: Option<usize>)
    requires
        q <= s.len(),
    ensures
        match r {
            Some(e) => rust_string(s@, q as int) == Some(e as int) && q < e <= s.len(),
            None => rust_string(s@, q as int) is None,
        },
{
    if q < s.len() && s[q] == '"' {
        string_end_exec(s, q + 1)
    } else {
        None
    }
}

/// Parse one JSON-debug value at `p`, appending its compact rendering to `out`.
pub fn parse_value(s: &[char], p: usize, out: &mut Vec<char>) -> (r: Option<usize>)
    requires
        p <= s.len(),
    ensures
        match json_value(s@, p as int) {
            Some((e, o)) => r == Some(e as usize) && final(out)@ == old(out)@ + o && p < e <= s.len(),
            None => r is None,
        },
        extends(old(out)@, final(out)@),
    decreases s.len() - p, 2int,
{
    if at_lit(s, p, "Object {") {
        return parse_object(s, p, out);
    }
    if at_lit(s, p, "Array [") {
        return parse_array(s, p, out);
    }
    if at_lit(s, p, "String(") {
        let q = p + chars_of("String(").len();
        match rust_string_exec(s, q) {
            Some(e) => {
                if at_lit(s, e, ")") {
                    append_range(out, s, q, e);
                    proof {
                        reveal_strlit(")");
                    }
                    return Some(e + 1);
                }
                return None;
            },
            None => {
                return None;
            },
        }
    }
    if at_lit(s, p, "Number(") {
        let q = p + chars_of("Number(").len();
        let mut e = q;
        while e < s.len() && s[e] != ')'
            invariant
                q <= e <= s.len(),
                scan_to_paren(s@, q as int) == scan_to_paren(s@, e as int),
            decreases s.len() - e,
        {
            e = e + 1;
        }
        if e <= q || e >= s.len() {
            return None;
        }
        append_range(out, s, q, e);
        return Some(e + 1);
    }
    proof {
        reveal_strlit("Bool(true)");
        reveal_strlit("Bool(false)");
        reveal_strlit("Null");
    }
    if at_lit(s, p, "Bool(true)") {
        append_lit(out, "true");
        return Some(p + chars_of("Bool(true)").len());
    }
    if at_lit(s, p, "Bool(false)") {
        append_lit(out, "false");
        return Some(p + chars_of("Bool(false)").len());
    }
    if at_lit(s, p, "Null") {
        append_lit(out, "null");
        return Some(p + chars_of("Null").len());
    }
    None
}

/// Parse an object whose `Object {` occurs at `p`.
#[verifier::rlimit(40)]
fn parse_object(s: &[char], p: usize, out: &mut Vec<char>) -> (r: Option<usize>)
    requires
        p <= s.len(),
        lit_at(s@, p as int, "Object {"@),
    ensures
        match json_object(s@, p as int) {
            Some((e, o)) => r == Some(e as usize) && final(out)@ == old(out)@ + o && p < e <= s.len(),
            None => r is None,
        },
        extends(old(out)@, final(out)@),
    decreases s.len() - p, 1int,
{
    let ghost base = out@;
    proof {
        reveal_strlit("Object {");
        reveal_strlit("{}");
        reveal_strlit("{");
        reveal_strlit("}");
        reveal_strlit(", ");
        reveal_strlit(": ");
    }
    let q = skip_ws_exec(s, p + chars_of("Object {").len());
    if q < s.len() && s[q] == '}' {
        append_lit(out, "{}");
        return Some(q + 1);
    }
    append_lit(out, "{");
    let mut cur = q;
    let mut first = true;
    loop
        invariant
            p < cur <= s.len(),
            base == old(out)@,
            out@.len() >= base.len(),
            out@.subrange(0, base.len() as int) == base,
            json_object(s@, p as int) == (match object_members(s@, cur as int, first) {
                Some((e, rest)) => Some((e, out@.subrange(base.len() as int, out@.len() as int) + rest)),
                None => None,
            }),
        decreases s.len() - cur,
    {
        proof {
            reveal_strlit(", ");
            reveal_strlit(": ");
            reveal_strlit("}");
            reveal_strlit("]");
        }
        let ghost mark = out@;
        let q1 = if first {
            cur
        } else {
            if !at_lit(s, cur, ", ") {
                return None;
            }
            append_lit(out, ", ");
            cur + chars_of(", ").len()
        };
        let ghost lead = if first { Seq::<char>::empty() } else { ", "@ };
        let e1 = match rust_string_exec(s, q1) {
            Some(e1) => e1,
            None => {
                return None;
            },
        };
        append_range(out, s, q1, e1);
        if !at_lit(s, e1, ": ") {
            return None;
        }
        append_lit(out, ": ");
        if e1 + 2 > s.len() {
            return None;
        }
        let ghost before_value = out@;
        let e2 = match parse_value(s, e1 + 2, out) {
            Some(e2) => e2,
            None => {
                return None;
            },
        };
        let ghost v = out@.subrange(before_value.len() as int, out@.len() as int);
        proof {
            let jv = json_value(s@, (e1 + 2) as int);
            assert(jv is Some);
            let (ee, oo) = jv.unwrap();
            assert(ee == e2 as int);
            assert(oo =~= v);
            assert(json_value(s@, e1 + ": "@.len()) == Some((e2 as int, v)));
        }
        let q3 = skip_ws_exec(s, e2);
        proof {
            assert(out@ =~= mark + (lead + s@.subrange(q1 as int, e1 as int) + ": "@ + v));
            lemma_object_step(s@, cur as int, first, q1 as int, e1 as int, e2 as int, v, q3 as int);
        }
        if q3 < s.len() && s[q3] == '}' {
            append_lit(out, "}");
            proof {
                assert(out@.subrange(0, base.len() as int) =~= base);
                assert(out@.subrange(base.len() as int, out@.len() as int) =~= mark.subrange(base.len() as int, mark.len() as int) + (lead + s@.subrange(q1 as int, e1 as int) + ": "@ + v + "}"@));
                assert(out@ =~= base + out@.subrange(base.len() as int, out@.len() as int));
            }
            return Some(q3 + 1);
        }
        proof {
            assert(out@.subrange(0, base.len() as int) =~= base);
            assert(out@.subrange(base.len() as int, out@.len() as int) =~= mark.subrange(base.len() as int, mark.len() as int) + (lead + s@.subrange(q1 as int, e1 as int) + ": "@ + v));
        }
        cur = q3;
        first = false;
    }
}

/// Parse an array whose `Array [` occurs at `p`.
#[verifier::rlimit(40)]
fn parse_array(s: &[char], p: usize, out: &mut Vec<char>) -> (r: Option<usize>)
    requires
        p <= s.len(),
        lit_at(s@, p as int, "Array ["@),
    ensures
        match json_array(s@, p as int) {
            Some((e, o)) => r == Some(e as usize) && final(out)@ == old(out)@ + o && p < e <= s.len(),
            None => r is None,
        },
        extends(old(out)@, final(out)@),
    decreases s.len() - p, 1int,
{
    let ghost base = out@;
    proof {
        reveal_strlit("Array [");
        reveal_strlit("[]");
        reveal_strlit("[");
        reveal_strlit("]");
        reveal_strlit(", ");
    }
    let q = skip_ws_exec(s, p + chars_of("Array [").len());
    if q < s.len() && s[q] == ']' {
        append_lit(out, "[]");
        return Some(q + 1);
    }
    append_lit(out, "[");
    let mut cur = q;
    let mut first = true;
    loop
        invariant
            p < cur <= s.len(),
            base == old(out)@,
            out@.len() >= base.len(),
            out@.subrange(0, base.len() as int) == base,
            json_array(s@, p as int) == (match array_elements(s@, cur as int, first) {
                Some((e, rest)) => Some((e, out@.subrange(base.len() as int, out@.len() as int) + rest)),
                None => None,
            }),
        decreases s.len() - cur,
    {
        proof {
            reveal_strlit(", ");
            reveal_strlit(": ");
            reveal_strlit("}");
            reveal_strlit("]");
        }
        let ghost mark = out@;
        let q1 = if first {
            cur
        } else {
            if !at_lit(s, cur, ", ") {
                return None;
            }
            append_lit(out, ", ");
            cur + chars_of(", ").len()
        };
        let ghost lead = if first { Seq::<char>::empty() } else { ", "@ };
        let ghost before_value = out@;
        let e2 = match parse_value(s, q1, out) {
            Some(e2) => e2,
            None => {
                return None;
            },
        };
        let ghost v = out@.subrange(before_value.len() as int, out@.len() as int);
        proof {
            let jv = json_value(s@, q1 as int);
            assert(jv is Some);
            let (ee, oo) = jv.unwrap();
            assert(ee == e2 as int);
            assert(oo =~= v);
            assert(json_value(s@, q1 as int) == Some((e2 as int, v)));
        }
        let q3 = skip_ws_exec(s, e2);
        proof {
            assert(out@ =~= mark + (lead + v));
            lemma_array_step(s@, cur as int, first, q1 as int, e2 as int, v, q3 as int);
        }
        if q3 < s.len() && s[q3] == ']' {
            append_lit(out, "]");
            proof {
                assert(out@.subrange(0, base.len() as int) =~= base);
                assert(out@.subrange(base.len() as int, out@.len() as int) =~= mark.subrange(base.len() as int, mark.len() as int) + (lead + v + "]"@));
                assert(out@ =~= base + out@.subrange(base.len() as int, out@.len() as int));
            }
            return Some(q3 + 1);
        }
        proof {
            assert(out@.subrange(0, base.len() as int) =~= base);
            assert(out@.subrange(base.len() as int, out@.len() as int) =~= mark.subrange(base.len() as int, mark.len() as int) + (lead + v));
        }
        cur = q3;
        first = false;
    }
}

/// The compact rendering of `s` when the whole of it is one JSON-debug value.
fn rewrite_json_debug(s: &[char]) -> (r: Option<Vec<char>>)
    ensures
        match r {
            Some(o) => rewrite_json(s@) == Some(o@),
            None => rewrite_json(s@) is None,
        },
{
    let mut out: Vec<char> = Vec::new();
    match parse_value(s, 0, &mut out) {
        Some(e) => {
            if e == s.len() {
                proof {
                    assert(out@ =~= Seq::<char>::empty() + out@);
                }
                Some(out)
            } else {
                None
            }
        },
        None => None,
    }
}

/// Clean up a raw `{:?}` field value for human-readable console output: strip `Some(…)`
/// wrappers (`None` is kept as-is), then rewrite JSON-debug notation to compact JSON-like
/// text. Returns `Cow::Borrowed(s)` exactly when nothing changed.
pub fn clean_debug_value(s: &str) -> (r: Cow<'_, str>)
    ensures
        r@ == clean_spec(s@),
        (r matches Cow::Borrowed(_)) <==> clean_is_identity(s@),
        (r matches Cow::Borrowed(_)) <==> clean_spec(s@) == s@,
{
    proof {
        if !clean_is_identity(s@) {
            lemma_cleaning_changes_text(s@);
        }
    }
    let chars = chars_of(s);
    let stripped = strip_some_exec(&chars);
    proof {
        lemma_strip_some_len(s@);
    }
    match rewrite_json_debug(&stripped) {
        Some(o) => Cow::Owned(string_from_chars(&o)),
        None => {
            if stripped.len() != chars.len() {
                Cow::Owned(string_from_chars(&stripped))
            } else {
                Cow::Borrowed(s)
            }
        },
    }
}

} // verus!
