//! Character-level string helpers shared by the logger and the sync library.
//!
//! Everything here works on the `Seq<char>` view of `str` / `String`, so the
//! contracts of callers can be phrased over plain character sequences.

use vstd::prelude::*;

verus! {

/// The ASCII lower-case form of one character (`char::to_ascii_lowercase`).
pub open spec fn ascii_lower(c: char) -> char {
    if 'A' <= c && c <= 'Z' {
        ((c as u32) + 32) as char
    } else {
        c
    }
}

/// The ASCII lower-case form of a whole sequence.
pub open spec fn lower_seq(s: Seq<char>) -> Seq<char> {
    s.map_values(|c: char| ascii_lower(c))
}

/// `p` is a prefix of `s`.
pub open spec fn has_prefix(s: Seq<char>, p: Seq<char>) -> bool {
    p.len() <= s.len() && s.subrange(0, p.len() as int) == p
}

/// `p` is a suffix of `s`.
pub open spec fn has_suffix(s: Seq<char>, p: Seq<char>) -> bool {
    p.len() <= s.len() && s.subrange(s.len() - p.len(), s.len() as int) == p
}

/// `needle` occurs in `s` starting at position `i`.
pub open spec fn occurs_at(s: Seq<char>, needle: Seq<char>, i: int) -> bool {
    0 <= i && i + needle.len() <= s.len() && s.subrange(i, i + needle.len()) == needle
}

/// `needle` occurs somewhere in `s` (`str::contains`).
pub open spec fn contains_seq(s: Seq<char>, needle: Seq<char>) -> bool {
    exists|i: int| occurs_at(s, needle, i)
}

/// The characters of `s`, in order.
pub fn chars_of(s: &str) -> (out: Vec<char>)
    ensures
        out@ == s@,
{
    let mut out: Vec<char> = Vec::new();
    for c in it: s.chars()
        invariant
            out@ == it.seq().take(it.index() as int),
    {
        out.push(c);
    }
    out
}

/// Appends `c` to `s` (std `String::push`).
#[verifier::external_body]
pub fn push_char(s: &mut String, c: char)
    ensures
        final(s)@ == old(s)@.push(c),
{
    s.push(c);
}

/// Appends `t` to `s` (std `String::push_str`).
#[verifier::external_body]
pub fn push_str(s: &mut String, t: &str)
    ensures
        final(s)@ == old(s)@ + t@,
{
    s.push_str(t);
}

/// A new string holding exactly the characters `cs`.
pub fn string_from_chars(cs: &[char]) -> (out: String)
    ensures
        out@ == cs@,
{
    let mut out = String::new();
    let mut i: usize = 0;
    while i < cs.len()
        invariant
            i <= cs.len(),
            out@ == cs@.take(i as int),
        decreases cs.len() - i,
    {
        push_char(&mut out, cs[i]);
        proof {
            assert(cs@.take(i + 1) == cs@.take(i as int).push(cs@[i as int]));
        }
        i = i + 1;
    }
    proof {
        assert(cs@.take(cs@.len() as int) == cs@);
    }
    out
}

/// An owned copy of `s`.
pub fn owned(s: &str) -> (out: String)
    ensures
        out@ == s@,
{
    s.to_owned()
}

/// Character-wise equality of two strings.
pub fn str_eq(a: &str, b: &str) -> (r: bool)
    ensures
        r == (a@ == b@),
{
    let x = chars_of(a);
    let y = chars_of(b);
    seq_eq(&x, &y)
}

/// Equality of two character slices.
pub fn seq_eq(x: &[char], y: &[char]) -> (r: bool)
    ensures
        r == (x@ == y@),
{
    if x.len() != y.len() {
        return false;
    }
    let mut i: usize = 0;
    while i < x.len()
        invariant
            x.len() == y.len(),
            i <= x.len(),
            forall|k: int| 0 <= k < i ==> x@[k] == y@[k],
        decreases x.len() - i,
    {
        if x[i] != y[i] {
            return false;
        }
        i = i + 1;
    }
    proof {
        assert(x@ =~= y@);
    }
    true
}

/// Whether `p` occurs in `s` at position `at`.
pub fn occurs_at_exec(s: &[char], p: &[char], at: usize) -> (r: bool)
    ensures
        r == occurs_at(s@, p@, at as int),
{
    if at > s.len() || p.len() > s.len() - at {
        return false;
    }
    let mut i: usize = 0;
    while i < p.len()
        invariant
            at + p.len() <= s.len(),
            i <= p.len(),
            forall|k: int| 0 <= k < i ==> s@[at + k] == p@[k],
        decreases p.len() - i,
    {
        if s[at + i] != p[i] {
            proof {
                assert(s@.subrange(at as int, at + p@.len())[i as int] != p@[i as int]);
            }
            return false;
        }
        i = i + 1;
    }
    proof {
        assert(s@.subrange(at as int, at + p@.len()) =~= p@);
    }
    true
}

/// The first position at or after `i` where `needle` occurs in `s` (`str::find` on the rest).
pub open spec fn first_from(s: Seq<char>, needle: Seq<char>, i: int) -> Option<int>
    decreases s.len() - i,
{
    if i < 0 || i + needle.len() > s.len() {
        None
    } else if occurs_at(s, needle, i) {
        Some(i)
    } else {
        proof {
            if needle.len() == 0 {
                assert(s.subrange(i, i) =~= needle);
            }
        }
        first_from(s, needle, i + 1)
    }
}

/// What `first_from` finds: an occurrence at or after `i`, with none between `i` and it.
pub proof fn lemma_first_from(s: Seq<char>, needle: Seq<char>, i: int)
    requires
        0 <= i,
    ensures
        match first_from(s, needle, i) {
            Some(p) => i <= p && p + needle.len() <= s.len() && occurs_at(s, needle, p) && forall|k: int|
                i <= k < p ==> !occurs_at(s, needle, k),
            None => forall|k: int| i <= k ==> !occurs_at(s, needle, k),
        },
    decreases s.len() - i,
{
    if i + needle.len() > s.len() {
    } else if occurs_at(s, needle, i) {
    } else {
        if needle.len() == 0 {
            assert(s.subrange(i, i) =~= needle);
        }
        lemma_first_from(s, needle, i + 1);
        assert forall|k: int| i <= k < i + 1 implies !occurs_at(s, needle, k) by {}
    }
}

/// The first position at or after `from` where `needle` occurs in `s`.
pub fn find_from(s: &[char], needle: &[char], from: usize) -> (r: Option<usize>)
    ensures
        match r {
            Some(p) => first_from(s@, needle@, from as int) == Some(p as int),
            None => first_from(s@, needle@, from as int) is None,
        },
{
    let mut i = from;
    while i <= s.len() && needle.len() <= s.len() - i
        invariant
            from <= i,
            first_from(s@, needle@, from as int) == first_from(s@, needle@, i as int),
        decreases s.len() + 1 - i,
    {
        if occurs_at_exec(s, needle, i) {
            return Some(i);
        }
        proof {
            if needle@.len() == 0 {
                assert(s@.subrange(i as int, i as int) =~= needle@);
            }
        }
        i = i + 1;
    }
    None
}

/// Whether `p` is a prefix of `s`.
pub fn starts_with_chars(s: &[char], p: &[char]) -> (r: bool)
    ensures
        r == has_prefix(s@, p@),
{
    occurs_at_exec(s, p, 0)
}

/// Whether `p` is a suffix of `s`.
pub fn ends_with_chars(s: &[char], p: &[char]) -> (r: bool)
    ensures
        r == has_suffix(s@, p@),
{
    if p.len() > s.len() {
        return false;
    }
    let r = occurs_at_exec(s, p, s.len() - p.len());
    proof {
        assert(s@.len() - p@.len() + p@.len() == s@.len());
    }
    r
}

/// Whether `p` occurs anywhere in `s`.
pub fn contains_chars(s: &[char], p: &[char]) -> (r: bool)
    ensures
        r == contains_seq(s@, p@),
{
    if p.len() > s.len() {
        return false;
    }
    if p.len() == 0 {
        proof {
            assert(s@.subrange(0, 0) =~= p@);
            assert(occurs_at(s@, p@, 0));
        }
        return true;
    }
    let mut at: usize = 0;
    while at <= s.len() - p.len()
        invariant
            0 < p.len() <= s.len(),
            at <= s.len() - p.len() + 1,
            forall|k: int| 0 <= k < at ==> !occurs_at(s@, p@, k),
        decreases s.len() - p.len() + 1 - at,
    {
        if occurs_at_exec(s, p, at) {
            return true;
        }
        at = at + 1;
    }
    false
}

/// The ASCII lower-case form of one character.
pub fn lower_char(c: char) -> (r: char)
    ensures
        r == ascii_lower(c),
{
    if 'A' <= c && c <= 'Z' {
        ((c as u8) + 32) as char
    } else {
        c
    }
}

/// The ASCII lower-case form of a character slice (`str::to_ascii_lowercase`).
pub fn lower_chars(s: &[char]) -> (out: Vec<char>)
    ensures
        out@ == lower_seq(s@),
{
    let mut out: Vec<char> = Vec::new();
    let mut i: usize = 0;
    while i < s.len()
        invariant
            i <= s.len(),
            out@ == lower_seq(s@.take(i as int)),
        decreases s.len() - i,
    {
        out.push(lower_char(s[i]));
        proof {
            assert(lower_seq(s@.take(i + 1)) =~= lower_seq(s@.take(i as int)).push(ascii_lower(s@[i as int])));
        }
        i = i + 1;
    }
    proof {
        assert(s@.take(s@.len() as int) == s@);
    }
    out
}

/// Lexicographic order on character sequences by code point (the order of `str`'s `Ord`).
pub open spec fn seq_lt(a: Seq<char>, b: Seq<char>) -> bool
    decreases a.len(),
{
    if a.len() == 0 {
        b.len() > 0
    } else if b.len() == 0 {
        false
    } else if a[0] != b[0] {
        (a[0] as int) < (b[0] as int)
    } else {
        seq_lt(a.drop_first(), b.drop_first())
    }
}

/// `s` is strictly increasing under [`seq_lt`] (so it also holds no duplicates).
pub open spec fn strictly_sorted(s: Seq<Seq<char>>) -> bool {
    forall|i: int, j: int| 0 <= i < j < s.len() ==> seq_lt(#[trigger] s[i], #[trigger] s[j])
}

/// No sequence is below itself.
pub proof fn lemma_seq_lt_irreflexive(a: Seq<char>)
    ensures
        !seq_lt(a, a),
    decreases a.len(),
{
    if a.len() > 0 {
        lemma_seq_lt_irreflexive(a.drop_first());
    }
}

/// The order is transitive.
pub proof fn lemma_seq_lt_transitive(a: Seq<char>, b: Seq<char>, c: Seq<char>)
    requires
        seq_lt(a, b),
        seq_lt(b, c),
    ensures
        seq_lt(a, c),
    decreases a.len(),
{
    if a.len() > 0 && b.len() > 0 && c.len() > 0 && a[0] == b[0] && b[0] == c[0] {
        lemma_seq_lt_transitive(a.drop_first(), b.drop_first(), c.drop_first());
    }
}

/// Any two distinct sequences are ordered one way or the other.
pub proof fn lemma_seq_lt_total(a: Seq<char>, b: Seq<char>)
    ensures
        a == b || seq_lt(a, b) || seq_lt(b, a),
    decreases a.len(),
{
    if a.len() > 0 && b.len() > 0 {
        if a[0] == b[0] {
            lemma_seq_lt_total(a.drop_first(), b.drop_first());
            if a.drop_first() == b.drop_first() {
                assert(a =~= seq![a[0]] + a.drop_first());
                assert(b =~= seq![b[0]] + b.drop_first());
            }
        } else {
            assert((a[0] as int) != (b[0] as int));
        }
    } else if a.len() == 0 && b.len() == 0 {
        assert(a =~= b);
    }
}

/// `a` is below `b` in the code-point lexicographic order.
pub fn chars_lt(a: &[char], b: &[char]) -> (r: bool)
    ensures
        r == seq_lt(a@, b@),
{
    let mut i: usize = 0;
    proof {
        assert(a@.skip(0) =~= a@);
        assert(b@.skip(0) =~= b@);
    }
    while i < a.len() && i < b.len()
        invariant
            i <= a.len(),
            i <= b.len(),
            seq_lt(a@, b@) == seq_lt(a@.skip(i as int), b@.skip(i as int)),
        decreases a.len() - i,
    {
        if a[i] != b[i] {
            proof {
                assert(a@.skip(i as int)[0] == a@[i as int]);
                assert(b@.skip(i as int)[0] == b@[i as int]);
            }
            return a[i] < b[i];
        }
        proof {
            assert(a@.skip(i as int).drop_first() =~= a@.skip(i + 1));
            assert(b@.skip(i as int).drop_first() =~= b@.skip(i + 1));
        }
        i = i + 1;
    }
    i == a.len() && i < b.len()
}

/// The ASCII digit for `d < 10`.
pub open spec fn digit_char(d: nat) -> char {
    ((d + 48) as u8) as char
}

/// Decimal rendering of a natural number (as `u32::to_string` prints it).
pub open spec fn decimal(n: nat) -> Seq<char>
    decreases n,
{
    if n < 10 {
        seq![digit_char(n)]
    } else {
        decimal(n / 10).push(digit_char(n % 10))
    }
}

/// Decimal rendering of `n`.
pub fn u32_decimal(n: u32) -> (r: Vec<char>)
    ensures
        r@ == decimal(n as nat),
    decreases n,
{
    let d: u8 = (n % 10) as u8;
    let c = (d + 48) as char;
    if n < 10 {
        let mut v: Vec<char> = Vec::new();
        v.push(c);
        v
    } else {
        let mut v = u32_decimal(n / 10);
        v.push(c);
        v
    }
}

/// Decimal rendering of a 64-bit `n`.
pub fn u64_decimal(n: u64) -> (r: Vec<char>)
    ensures
        r@ == decimal(n as nat),
    decreases n,
{
    let d: u8 = (n % 10) as u8;
    let c = (d + 48) as char;
    if n < 10 {
        let mut v: Vec<char> = Vec::new();
        v.push(c);
        v
    } else {
        let mut v = u64_decimal(n / 10);
        v.push(c);
        v
    }
}

/// Decimal rendering of a signed integer (as `i64::to_string` prints it).
pub open spec fn signed_decimal(v: int) -> Seq<char> {
    if v < 0 {
        "-"@ + decimal((-v) as nat)
    } else {
        decimal(v as nat)
    }
}

/// Decimal rendering of a signed 64-bit `v`.
pub fn i64_decimal(v: i64) -> (r: String)
    ensures
        r@ == signed_decimal(v as int),
{
    let mut text = String::new();
    let magnitude: u64 = if v < 0 {
        push_str(&mut text, "-");
        ((-(v + 1)) as u64) + 1
    } else {
        v as u64
    };
    let digits = string_from_chars(&u64_decimal(magnitude));
    push_str(&mut text, digits.as_str());
    proof {
        reveal_strlit("-");
        if v < 0 {
            assert(text@ =~= "-"@ + decimal((-v) as nat));
        } else {
            assert(text@ =~= decimal(v as nat));
        }
    }
    text
}

/// The UTF-8 bytes of `s`.
pub fn utf8_bytes(s: &str) -> (r: Vec<u8>)
    ensures
        r@ == vstd::utf8::encode_utf8(s@),
{
    let b = s.as_bytes();
    let mut out: Vec<u8> = Vec::new();
    let mut i: usize = 0;
    while i < b.len()
        invariant
            i <= b.len(),
            out@ == b@.take(i as int),
        decreases b.len() - i,
    {
        out.push(b[i]);
        proof {
            assert(b@.take(i + 1) =~= b@.take(i as int).push(b@[i as int]));
        }
        i = i + 1;
    }
    proof {
        assert(b@.take(b@.len() as int) =~= b@);
    }
    out
}

/// `s` without its trailing run of `c` (`str::trim_end_matches` with one character).
pub open spec fn trim_end_spec(s: Seq<char>, c: char) -> Seq<char>
    decreases s.len(),
{
    if s.len() > 0 && s.last() == c {
        trim_end_spec(s.drop_last(), c)
    } else {
        s
    }
}

/// `s` without its leading run of `c` (`str::trim_start_matches` with one character).
pub open spec fn trim_start_spec(s: Seq<char>, c: char) -> Seq<char>
    decreases s.len(),
{
    if s.len() > 0 && s[0] == c {
        trim_start_spec(s.drop_first(), c)
    } else {
        s
    }
}

/// Removes every trailing `c` from `s`.
pub fn trim_end_char(s: &str, c: char) -> (r: &str)
    ensures
        r@ == trim_end_spec(s@, c),
{
    let t = chars_of(s);
    let mut end: usize = t.len();
    proof {
        assert(s@.take(end as int) =~= s@);
    }
    while end > 0 && t[end - 1] == c
        invariant
            end <= t@.len(),
            t@ == s@,
            trim_end_spec(s@, c) == trim_end_spec(s@.take(end as int), c),
        decreases end,
    {
        proof {
            assert(s@.take(end as int).drop_last() =~= s@.take(end - 1));
        }
        end = end - 1;
    }
    proof {
        assert(s@.take(end as int) =~= s@.subrange(0, end as int));
    }
    s.substring_char(0, end)
}

/// Removes every leading `c` from `s`.
pub fn trim_start_char(s: &str, c: char) -> (r: &str)
    ensures
        r@ == trim_start_spec(s@, c),
{
    let t = chars_of(s);
    let mut start: usize = 0;
    proof {
        assert(s@.skip(0) =~= s@);
    }
    while start < t.len() && t[start] == c
        invariant
            start <= t@.len(),
            t@ == s@,
            trim_start_spec(s@, c) == trim_start_spec(s@.skip(start as int), c),
        decreases t.len() - start,
    {
        proof {
            assert(s@.skip(start as int).drop_first() =~= s@.skip(start + 1));
        }
        start = start + 1;
    }
    proof {
        assert(s@.skip(start as int) =~= s@.subrange(start as int, s@.len() as int));
    }
    s.substring_char(start, t.len())
}

/// The display text of `file` joined onto the directory `dir` (`Path::join`).
pub uninterp spec fn path_joined(dir: Seq<char>, file: Seq<char>) -> Seq<char>;

/// `Path::new(dir).join(file)`, displayed.
#[verifier::external_body]
pub(crate) fn join_path(dir: &str, file: &str) -> (r: String)
    ensures
        r@ == path_joined(dir@, file@),
{
    std::path::Path::new(dir).join(file).display().to_string()
}

/// Whether `c` has the Unicode `White_Space` property (what `char::is_whitespace` decides):
/// tab through carriage return, space, next line, no-break space, ogham space mark, the
/// spaces U+2000 to U+200A, line and paragraph separators, narrow no-break space, medium
/// mathematical space and ideographic space.
pub open spec fn unicode_whitespace(c: char) -> bool {
    let v = c as u32;
    (0x09 <= v && v <= 0x0d) || v == 0x20 || v == 0x85 || v == 0xa0 || v == 0x1680 || (0x2000 <= v && v <= 0x200a)
        || v == 0x2028 || v == 0x2029 || v == 0x202f || v == 0x205f || v == 0x3000
}

/// Whether `c` is whitespace, as `char::is_whitespace` decides it.
fn is_whitespace(c: char) -> (r: bool)
    ensures
        r == unicode_whitespace(c),
{
    let v = c as u32;
    (0x09 <= v && v <= 0x0d) || v == 0x20 || v == 0x85 || v == 0xa0 || v == 0x1680 || (0x2000 <= v && v <= 0x200a)
        || v == 0x2028 || v == 0x2029 || v == 0x202f || v == 0x205f || v == 0x3000
}

/// Every character of `s` is whitespace (`s.trim().is_empty()`).
pub open spec fn is_blank_spec(s: Seq<char>) -> bool {
    forall|i: int| 0 <= i < s.len() ==> unicode_whitespace(#[trigger] s[i])
}

/// Whether `s` is empty once surrounding whitespace is removed.
pub fn is_blank(s: &str) -> (r: bool)
    ensures
        r == is_blank_spec(s@),
{
    let t = chars_of(s);
    let mut i: usize = 0;
    while i < t.len()
        invariant
            i <= t@.len(),
            t@ == s@,
            forall|j: int| 0 <= j < i ==> unicode_whitespace(#[trigger] s@[j]),
        decreases t.len() - i,
    {
        if !is_whitespace(t[i]) {
            return false;
        }
        i = i + 1;
    }
    true
}

/// `s` without leading whitespace.
pub open spec fn trim_start_ws(s: Seq<char>) -> Seq<char>
    decreases s.len(),
{
    if s.len() > 0 && unicode_whitespace(s[0]) {
        trim_start_ws(s.drop_first())
    } else {
        s
    }
}

/// `s` without trailing whitespace.
pub open spec fn trim_end_ws(s: Seq<char>) -> Seq<char>
    decreases s.len(),
{
    if s.len() > 0 && unicode_whitespace(s.last()) {
        trim_end_ws(s.drop_last())
    } else {
        s
    }
}

/// `s` without surrounding whitespace (`str::trim`).
pub open spec fn trim_ws(s: Seq<char>) -> Seq<char> {
    trim_end_ws(trim_start_ws(s))
}

/// The characters of `s` with surrounding whitespace removed.
pub fn trim_chars(s: &[char]) -> (r: Vec<char>)
    ensures
        r@ == trim_ws(s@),
{
    let mut start: usize = 0;
    proof {
        assert(s@.skip(0) =~= s@);
    }
    while start < s.len() && is_whitespace(s[start])
        invariant
            start <= s@.len(),
            trim_start_ws(s@) == trim_start_ws(s@.skip(start as int)),
        decreases s.len() - start,
    {
        proof {
            assert(s@.skip(start as int).drop_first() =~= s@.skip(start + 1));
        }
        start = start + 1;
    }
    let ghost front = s@.skip(start as int);
    assert(trim_start_ws(s@) == front);
    let mut end: usize = s.len();
    proof {
        assert(front.take(end - start) =~= front);
    }
    while end > start && is_whitespace(s[end - 1])
        invariant
            start <= end <= s@.len(),
            front == s@.skip(start as int),
            trim_end_ws(front) == trim_end_ws(front.take(end - start)),
        decreases end,
    {
        proof {
            assert(front.take(end - start).drop_last() =~= front.take(end - 1 - start));
        }
        end = end - 1;
    }
    let mut out: Vec<char> = Vec::new();
    let mut i: usize = start;
    while i < end
        invariant
            start <= i <= end <= s@.len(),
            out@ == s@.subrange(start as int, i as int),
        decreases end - i,
    {
        out.push(s[i]);
        proof {
            assert(s@.subrange(start as int, i + 1) =~= s@.subrange(start as int, i as int).push(s@[i as int]));
        }
        i = i + 1;
    }
    proof {
        assert(front.take(end - start) =~= s@.subrange(start as int, end as int));
    }
    out
}

/// Lower-casing a character twice is lower-casing it once, and never makes a character
/// whitespace or stops it being whitespace.
pub proof fn lemma_ascii_lower_char(c: char)
    ensures
        ascii_lower(ascii_lower(c)) == ascii_lower(c),
        unicode_whitespace(ascii_lower(c)) == unicode_whitespace(c),
{
    if 'A' <= c && c <= 'Z' {
        let d = ascii_lower(c);
        assert(d as u32 == c as u32 + 32);
    }
}

/// Lower-casing a sequence twice is lower-casing it once, and keeps which positions hold
/// whitespace.
pub proof fn lemma_lower_seq(s: Seq<char>)
    ensures
        lower_seq(lower_seq(s)) == lower_seq(s),
        lower_seq(s).len() == s.len(),
        forall|i: int| 0 <= i < s.len() ==> unicode_whitespace(#[trigger] lower_seq(s)[i]) == unicode_whitespace(s[i]),
{
    assert forall|i: int| 0 <= i < s.len() implies unicode_whitespace(#[trigger] lower_seq(s)[i]) == unicode_whitespace(s[i]) by {
        lemma_ascii_lower_char(s[i]);
    }
    assert forall|i: int| 0 <= i < s.len() implies #[trigger] lower_seq(lower_seq(s))[i] == lower_seq(s)[i] by {
        lemma_ascii_lower_char(s[i]);
    }
    assert(lower_seq(lower_seq(s)) =~= lower_seq(s));
}

/// `str::trim` leaves no whitespace at either end, and only removes characters from the ends.
pub proof fn lemma_trim_ws_ends(s: Seq<char>)
    ensures
        trim_ws(s).len() > 0 ==> !unicode_whitespace(trim_ws(s)[0]) && !unicode_whitespace(trim_ws(s).last()),
        trim_ws(trim_ws(s)) == trim_ws(s),
{
    lemma_trim_start_ws(s);
    let a = trim_start_ws(s);
    lemma_trim_end_ws(a);
    let b = trim_end_ws(a);
    if b.len() > 0 {
        assert(b[0] == a[0]);
    }
    lemma_trim_ws_fixed(b);
}

proof fn lemma_trim_start_ws(s: Seq<char>)
    ensures
        trim_start_ws(s).len() > 0 ==> !unicode_whitespace(trim_start_ws(s)[0]),
    decreases s.len(),
{
    if s.len() > 0 && unicode_whitespace(s[0]) {
        lemma_trim_start_ws(s.drop_first());
    }
}

proof fn lemma_trim_end_ws(s: Seq<char>)
    ensures
        trim_end_ws(s).len() <= s.len(),
        trim_end_ws(s) == s.take(trim_end_ws(s).len() as int),
        trim_end_ws(s).len() > 0 ==> !unicode_whitespace(trim_end_ws(s).last()),
    decreases s.len(),
{
    if s.len() > 0 && unicode_whitespace(s.last()) {
        lemma_trim_end_ws(s.drop_last());
        let r = trim_end_ws(s.drop_last());
        assert(r =~= s.take(r.len() as int));
    } else {
        assert(s =~= s.take(s.len() as int));
    }
}

/// A sequence with no whitespace at either end is its own trim.
pub proof fn lemma_trim_ws_fixed(s: Seq<char>)
    requires
        s.len() > 0 ==> !unicode_whitespace(s[0]) && !unicode_whitespace(s.last()),
    ensures
        trim_ws(s) == s,
{
}

} // verus!
