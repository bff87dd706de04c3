//! Builder for configuring the logger, and the per-target level override rule.

use std::path::PathBuf;
use vstd::prelude::*;
use vstd::utf8::encode_utf8;
use crate::log::format::{ColorMode, FormatMode};
use crate::log::level::{level_rank, Level};
use crate::text::{chars_of, str_eq};

verus! {

/// The standard path type, carried through unchanged.
#[verifier::external_type_specification]
#[verifier::external_body]
pub struct ExPathBuf(std::path::PathBuf);

/// Builder for configuring and installing the logger.
pub struct LogBuilder {
    /// Minimum log level.
    pub level: Level,
    /// Output format.
    pub format: FormatMode,
    /// Color mode.
    pub color: ColorMode,
    /// Log file, when file logging is enabled.
    pub log_file: Option<PathBuf>,
    /// Per-target overrides, in the order they were first set.
    pub target_overrides: Vec<TargetOverride>,
}

/// Single per-target level override.
#[derive(Clone, Debug, PartialEq, Eq)]
pub struct TargetOverride {
    /// Module-path prefix the override applies to.
    pub prefix: String,
    /// Minimum level for matching targets.
    pub level: Level,
}

/// Plain-value model of a [`TargetOverride`].
pub struct OverrideView {
    /// Prefix characters.
    pub prefix: Seq<char>,
    /// Minimum level.
    pub level: Level,
}

impl View for TargetOverride {
    type V = OverrideView;

    open spec fn view(&self) -> OverrideView {
        OverrideView { prefix: self.prefix@, level: self.level }
    }
}

impl TargetOverride {
    /// A field-by-field copy.
    pub fn duplicate(&self) -> (r: Self)
        ensures
            r@ == self@,
    {
        TargetOverride { prefix: self.prefix.clone(), level: self.level }
    }
}

/// Models of a list of overrides.
pub open spec fn overrides_view(s: Seq<TargetOverride>) -> Seq<OverrideView> {
    s.map_values(|o: TargetOverride| o@)
}

/// Byte length of the UTF-8 encoding of `s` (what `str::len` reports).
pub open spec fn byte_len(s: Seq<char>) -> nat {
    encode_utf8(s).len()
}

/// Index of the first override with prefix `p`, if any.
pub open spec fn find_prefix(s: Seq<OverrideView>, p: Seq<char>) -> Option<int>
    decreases s.len(),
{
    if s.len() == 0 {
        None
    } else if s[0].prefix == p {
        Some(0)
    } else {
        match find_prefix(s.drop_first(), p) {
            Some(i) => Some(i + 1),
            None => None,
        }
    }
}

/// Setting the override for `p`: replace the level of the existing entry, or append.
pub open spec fn with_override(s: Seq<OverrideView>, p: Seq<char>, l: Level) -> Seq<OverrideView> {
    match find_prefix(s, p) {
        Some(i) => s.update(i, OverrideView { prefix: p, level: l }),
        None => s.push(OverrideView { prefix: p, level: l }),
    }
}

/// The defaults: Info, Normal format, Auto color, no file, no overrides.
pub open spec fn default_builder(b: LogBuilder) -> bool {
    &&& b.level == Level::Info
    &&& b.format == FormatMode::Normal
    &&& b.color == ColorMode::Auto
    &&& b.log_file.is_none()
    &&& b.target_overrides@.len() == 0
}

impl Default for LogBuilder {
    fn default() -> (r: Self)
        ensures
            default_builder(r),
    {
        LogBuilder {
            level: Level::Info,
            format: FormatMode::Normal,
            color: ColorMode::Auto,
            log_file: None,
            target_overrides: Vec::new(),
        }
    }
}

impl LogBuilder {
    /// Create a new builder with default settings.
    pub fn new() -> (r: Self)
        ensures
            default_builder(r),
    {
        Self::default()
    }

    /// Set the minimum log level.
    pub fn level(self, level: Level) -> (r: Self)
        ensures
            r == (LogBuilder { level, ..self }),
    {
        LogBuilder { level, ..self }
    }

    /// Set the output format mode.
    pub fn format(self, format: FormatMode) -> (r: Self)
        ensures
            r == (LogBuilder { format, ..self }),
    {
        LogBuilder { format, ..self }
    }

    /// Set the color mode.
    pub fn color(self, color: ColorMode) -> (r: Self)
        ensures
            r == (LogBuilder { color, ..self }),
    {
        LogBuilder { color, ..self }
    }

    /// Enable file logging to the given path: the path is `path` converted into a `PathBuf`.
    pub fn log_file<P: Into<PathBuf>>(self, path: P) -> (r: Self)
        ensures
            r.log_file matches Some(q) && call_ensures(P::into, (path,), q),
            r.level == self.level,
            r.format == self.format,
            r.color == self.color,
            r.target_overrides == self.target_overrides,
    {
        LogBuilder { log_file: Some(path.into()), ..self }
    }

    /// Set the minimum log level for events whose target matches `prefix` on a module-path
    /// boundary. Calling with the same `prefix` twice replaces the previous level.
    pub fn target_level(self, prefix: &str, level: Level) -> (r: Self)
        ensures
            overrides_view(r.target_overrides@) == with_override(
                overrides_view(self.target_overrides@),
                prefix@,
                level,
            ),
            r.level == self.level,
            r.format == self.format,
            r.color == self.color,
            r.log_file == self.log_file,
    {
        let mut overrides = self.target_overrides;
        let ghost s = overrides_view(overrides@);
        let mut i: usize = 0;
        proof {
            assert(s.skip(0) =~= s);
        }
        while i < overrides.len()
            invariant
                i <= overrides.len(),
                s == overrides_view(overrides@),
                s == overrides_view(self.target_overrides@),
                find_prefix(s, prefix@) == (match find_prefix(s.skip(i as int), prefix@) {
                    Some(k) => Some(k + i),
                    None => None,
                }),
            decreases overrides.len() - i,
        {
            proof {
                assert(s.skip(i as int)[0] == s[i as int]);
                assert(s.skip(i as int).drop_first() =~= s.skip(i + 1));
            }
            if str_eq(overrides[i].prefix.as_str(), prefix) {
                proof {
                    assert(s.skip(i as int)[0].prefix == prefix@);
                    assert(find_prefix(s.skip(i as int), prefix@) == Some(0int));
                }
                let entry = TargetOverride { prefix: overrides[i].prefix.clone(), level };
                overrides.set(i, entry);
                proof {
                    assert(overrides_view(overrides@) =~= s.update(i as int, OverrideView { prefix: prefix@, level }));
                }
                return LogBuilder { target_overrides: overrides, ..self };
            }
            i = i + 1;
        }
        proof {
            assert(s.skip(i as int).len() == 0);
        }
        overrides.push(TargetOverride { prefix: prefix.to_owned(), level });
        proof {
            assert(overrides_view(overrides@) =~= s.push(OverrideView { prefix: prefix@, level }));
        }
        LogBuilder { target_overrides: overrides, ..self }
    }
}

/// Position at which `x` goes into a list sorted by descending byte length, after every entry
/// at least as long (so equal lengths keep their insertion order).
pub open spec fn first_shorter(s: Seq<OverrideView>, x: OverrideView) -> int
    decreases s.len(),
{
    if s.len() == 0 {
        0
    } else if byte_len(s[0].prefix) < byte_len(x.prefix) {
        0
    } else {
        1 + first_shorter(s.drop_first(), x)
    }
}

/// Stable sort by descending prefix byte length (insertion sort).
pub open spec fn sort_by_len_desc(s: Seq<OverrideView>) -> Seq<OverrideView>
    decreases s.len(),
{
    if s.len() == 0 {
        s
    } else {
        let sorted = sort_by_len_desc(s.drop_last());
        sorted.insert(first_shorter(sorted, s.last()), s.last())
    }
}

/// Internal configuration derived from a [`LogBuilder`].
pub struct LogConfig {
    /// Global minimum level.
    pub level: Level,
    /// Console format.
    pub format: FormatMode,
    /// Color mode.
    pub color: ColorMode,
    /// Log file, when enabled.
    pub log_file: Option<PathBuf>,
    /// Overrides sorted longest prefix first (stable), so the first match is the most specific.
    pub target_overrides: Vec<TargetOverride>,
}

proof fn lemma_first_shorter(s: Seq<OverrideView>, x: OverrideView, j: int)
    requires
        0 <= j <= s.len(),
        forall|m: int| 0 <= m < j ==> !(byte_len((#[trigger] s[m]).prefix) < byte_len(x.prefix)),
        j < s.len() ==> byte_len(s[j].prefix) < byte_len(x.prefix),
    ensures
        first_shorter(s, x) == j,
    decreases s.len(),
{
    if s.len() > 0 && j > 0 {
        assert forall|m: int| 0 <= m < j - 1 implies !(byte_len((#[trigger] s.drop_first()[m]).prefix) < byte_len(x.prefix)) by {
            assert(s.drop_first()[m] == s[m + 1]);
        }
        if j < s.len() {
            assert(s.drop_first()[j - 1] == s[j]);
        }
        lemma_first_shorter(s.drop_first(), x, j - 1);
    }
}

impl LogConfig {
    /// Derive the configuration, sorting the overrides by descending prefix length.
    pub fn from_builder(b: LogBuilder) -> (r: Self)
        ensures
            r.level == b.level,
            r.format == b.format,
            r.color == b.color,
            r.log_file == b.log_file,
            overrides_view(r.target_overrides@) == sort_by_len_desc(overrides_view(b.target_overrides@)),
    {
        let ghost src = overrides_view(b.target_overrides@);
        let mut sorted: Vec<TargetOverride> = Vec::new();
        let mut i: usize = 0;
        while i < b.target_overrides.len()
            invariant
                i <= b.target_overrides.len(),
                src == overrides_view(b.target_overrides@),
                overrides_view(sorted@) == sort_by_len_desc(src.take(i as int)),
            decreases b.target_overrides.len() - i,
        {
            let x = b.target_overrides[i].duplicate();
            let xlen = x.prefix.as_str().as_bytes().len();
            let ghost before = overrides_view(sorted@);
            let mut j: usize = 0;
            while j < sorted.len() && sorted[j].prefix.as_str().as_bytes().len() >= xlen
                invariant
                    j <= sorted.len(),
                    before == overrides_view(sorted@),
                    xlen == byte_len(x@.prefix),
                    forall|m: int| 0 <= m < j ==> !(byte_len((#[trigger] before[m]).prefix) < byte_len(x@.prefix)),
                decreases sorted.len() - j,
            {
                j = j + 1;
            }
            proof {
                lemma_first_shorter(before, x@, j as int);
                assert(src.take(i + 1).drop_last() =~= src.take(i as int));
                assert(src.take(i + 1).last() == x@);
            }
            sorted.insert(j, x);
            proof {
                assert(overrides_view(sorted@) =~= before.insert(j as int, x@));
            }
            i = i + 1;
        }
        proof {
            assert(src.take(src.len() as int) =~= src);
        }
        LogConfig {
            level: b.level,
            format: b.format,
            color: b.color,
            log_file: b.log_file,
            target_overrides: sorted,
        }
    }
}

/// `target` matches `prefix` on a module-path boundary: the same string, or `prefix`
/// followed by `::` (compared on the UTF-8 bytes, as `str` does).
#[verifier::opaque]
pub open spec fn target_matches_spec(target: Seq<char>, prefix: Seq<char>) -> bool {
    let t = encode_utf8(target);
    let p = encode_utf8(prefix);
    target == prefix || (t.len() > p.len() + 1 && t.subrange(0, p.len() as int) == p && t[p.len() as int] == 58u8
        && t[p.len() + 1int] == 58u8)
}

/// True when `target` matches `prefix` on a module-path boundary — exact match or
/// `prefix::*`. Avoids false positives like `"sqlxie"` matching the prefix `"sqlx"`.
pub fn target_matches(target: &str, prefix: &str) -> (r: bool)
    ensures
        r == target_matches_spec(target@, prefix@),
{
    reveal(target_matches_spec);
    if str_eq(target, prefix) {
        return true;
    }
    let t = target.as_bytes();
    let p = prefix.as_bytes();
    if !(t.len() > p.len() && t.len() - p.len() > 1) {
        return false;
    }
    let mut i: usize = 0;
    while i < p.len()
        invariant
            i <= p.len(),
            p.len() < t.len(),
            t.len() - p.len() > 1,
            t@ == encode_utf8(target@),
            p@ == encode_utf8(prefix@),
            target@ != prefix@,
            forall|k: int| 0 <= k < i ==> t@[k] == p@[k],
        decreases p.len() - i,
    {
        if t[i] != p[i] {
            proof {
                reveal(target_matches_spec);
                assert(t@.subrange(0, p@.len() as int)[i as int] != p@[i as int]);
                assert(t@.subrange(0, p@.len() as int) != p@);
            }
            return false;
        }
        i = i + 1;
    }
    proof {
        assert(t@.subrange(0, p@.len() as int) =~= p@);
    }
    t[p.len()] == 58u8 && t[p.len() + 1] == 58u8
}

/// The level of the first override whose prefix matches `target`, or `global`.
pub open spec fn first_match_level(target: Seq<char>, s: Seq<OverrideView>, global: Level) -> Level
    decreases s.len(),
{
    if s.len() == 0 {
        global
    } else if target_matches_spec(target, s[0].prefix) {
        s[0].level
    } else {
        first_match_level(target, s.drop_first(), global)
    }
}

/// Resolve the effective min level for an event with the given `target`: the first matching
/// override (the most specific one when the list is sorted longest first), or `global`.
pub fn effective_min_level(target: &str, overrides: &[TargetOverride], global: Level) -> (r: Level)
    ensures
        r == first_match_level(target@, overrides_view(overrides@), global),
{
    let ghost s = overrides_view(overrides@);
    let mut i: usize = 0;
    proof {
        assert(s.skip(0) =~= s);
    }
    while i < overrides.len()
        invariant
            i <= overrides.len(),
            s == overrides_view(overrides@),
            first_match_level(target@, s, global) == first_match_level(target@, s.skip(i as int), global),
        decreases overrides.len() - i,
    {
        proof {
            assert(s.skip(i as int)[0] == s[i as int]);
            assert(s.skip(i as int).drop_first() =~= s.skip(i + 1));
        }
        if target_matches(target, overrides[i].prefix.as_str()) {
            return overrides[i].level;
        }
        i = i + 1;
    }
    global
}

/// `first_shorter` stops at the first entry strictly shorter than `x`.
proof fn lemma_first_shorter_bounds(s: Seq<OverrideView>, x: OverrideView)
    ensures
        0 <= first_shorter(s, x) <= s.len(),
        forall|m: int| 0 <= m < first_shorter(s, x) ==> !(byte_len((#[trigger] s[m]).prefix) < byte_len(x.prefix)),
        first_shorter(s, x) < s.len() ==> byte_len(s[first_shorter(s, x)].prefix) < byte_len(x.prefix),
    decreases s.len(),
{
    if s.len() > 0 && !(byte_len(s[0].prefix) < byte_len(x.prefix)) {
        lemma_first_shorter_bounds(s.drop_first(), x);
        assert forall|m: int| 0 <= m < first_shorter(s, x) implies !(byte_len((#[trigger] s[m]).prefix) < byte_len(x.prefix)) by {
            if m > 0 {
                assert(s[m] == s.drop_first()[m - 1]);
            }
        }
        if first_shorter(s, x) < s.len() {
            assert(s[first_shorter(s, x)] == s.drop_first()[first_shorter(s, x) - 1]);
        }
    }
}

/// Non-increasing prefix byte lengths.
pub open spec fn longest_first(s: Seq<OverrideView>) -> bool {
    forall|a: int, b: int| 0 <= a < b < s.len() ==> byte_len((#[trigger] s[a]).prefix) >= byte_len((#[trigger] s[b]).prefix)
}

proof fn lemma_contains_insert(s: Seq<OverrideView>, k: int, x: OverrideView, y: OverrideView)
    requires
        0 <= k <= s.len(),
    ensures
        s.insert(k, x).contains(y) <==> (s.contains(y) || y == x),
{
    let out = s.insert(k, x);
    if out.contains(y) {
        let w = choose|w: int| 0 <= w < out.len() && out[w] == y;
        if w < k {
            assert(s[w] == y);
        } else if w > k {
            assert(s[w - 1] == y);
        }
    }
    if s.contains(y) {
        let w = choose|w: int| 0 <= w < s.len() && s[w] == y;
        if w < k {
            assert(out[w] == y);
        } else {
            assert(out[w + 1] == y);
        }
    }
    if y == x {
        assert(out[k] == y);
    }
}

proof fn lemma_contains_drop_last(s: Seq<OverrideView>, y: OverrideView)
    requires
        s.len() > 0,
    ensures
        s.contains(y) <==> (s.drop_last().contains(y) || y == s.last()),
{
    if s.contains(y) {
        let w = choose|w: int| 0 <= w < s.len() && s[w] == y;
        if w < s.len() - 1 {
            assert(s.drop_last()[w] == y);
        }
    }
    if s.drop_last().contains(y) {
        let w = choose|w: int| 0 <= w < s.len() - 1 && s.drop_last()[w] == y;
        assert(s[w] == y);
    }
    if y == s.last() {
        assert(s[s.len() - 1] == y);
    }
}

/// The sort puts longer prefixes first and keeps exactly the entries it was given.
proof fn lemma_sort_props(s: Seq<OverrideView>)
    ensures
        longest_first(sort_by_len_desc(s)),
        sort_by_len_desc(s).len() == s.len(),
        forall|x: OverrideView| sort_by_len_desc(s).contains(x) <==> s.contains(x),
    decreases s.len(),
{
    if s.len() > 0 {
        let prev = s.drop_last();
        lemma_sort_props(prev);
        let sorted = sort_by_len_desc(prev);
        let x = s.last();
        lemma_first_shorter_bounds(sorted, x);
        let k = first_shorter(sorted, x);
        let out = sorted.insert(k, x);
        assert(out == sort_by_len_desc(s));
        assert forall|a: int, b: int| 0 <= a < b < out.len() implies byte_len((#[trigger] out[a]).prefix) >= byte_len((#[trigger] out[b]).prefix) by {
            if b < k {
                assert(out[a] == sorted[a] && out[b] == sorted[b]);
            } else if b == k {
                assert(out[a] == sorted[a]);
            } else if a == k {
                assert(out[b] == sorted[b - 1]);
                assert(byte_len(sorted[k].prefix) < byte_len(x.prefix));
                if b - 1 > k {
                    assert(byte_len(sorted[k].prefix) >= byte_len(sorted[b - 1].prefix));
                }
            } else if a < k {
                assert(out[a] == sorted[a] && out[b] == sorted[b - 1]);
            } else {
                assert(out[a] == sorted[a - 1] && out[b] == sorted[b - 1]);
            }
        }
        assert forall|y: OverrideView| out.contains(y) <==> s.contains(y) by {
            lemma_contains_insert(sorted, k, x, y);
            lemma_contains_drop_last(s, y);
        }
    }
}

/// Index of the first entry whose prefix matches `target` (the length when none does).
pub open spec fn first_match_index(target: Seq<char>, q: Seq<OverrideView>) -> int
    decreases q.len(),
{
    if q.len() == 0 {
        0
    } else if target_matches_spec(target, q[0].prefix) {
        0
    } else {
        1 + first_match_index(target, q.drop_first())
    }
}

/// The first matching entry decides: without a match the global level applies.
proof fn lemma_first_match(target: Seq<char>, q: Seq<OverrideView>, global: Level)
    ensures
        0 <= first_match_index(target, q) <= q.len(),
        forall|m: int| 0 <= m < first_match_index(target, q) ==> !target_matches_spec(target, (#[trigger] q[m]).prefix),
        first_match_index(target, q) < q.len() ==> target_matches_spec(target, q[first_match_index(target, q)].prefix)
            && first_match_level(target, q, global) == q[first_match_index(target, q)].level,
        first_match_index(target, q) == q.len() ==> first_match_level(target, q, global) == global,
    decreases q.len(),
{
    if q.len() > 0 && !target_matches_spec(target, q[0].prefix) {
        lemma_first_match(target, q.drop_first(), global);
        let k = first_match_index(target, q);
        assert forall|m: int| 0 <= m < k implies !target_matches_spec(target, (#[trigger] q[m]).prefix) by {
            if m > 0 {
                assert(q[m] == q.drop_first()[m - 1]);
            }
        }
        if k < q.len() {
            assert(q[k] == q.drop_first()[k - 1]);
        }
    }
}

/// Once the configuration has sorted the overrides, the effective level of a target is that
/// of a matching override with the longest prefix (no matching override is longer), or the
/// global level when none matches.
pub proof fn lemma_longest_prefix_wins(target: Seq<char>, overrides: Seq<OverrideView>, global: Level)
    ensures
        (forall|i: int| 0 <= i < overrides.len() ==> !target_matches_spec(target, (#[trigger] overrides[i]).prefix))
            ==> first_match_level(target, sort_by_len_desc(overrides), global) == global,
        (exists|i: int| 0 <= i < overrides.len() && target_matches_spec(target, (#[trigger] overrides[i]).prefix))
            ==> exists|w: int| 0 <= w < overrides.len() && target_matches_spec(target, overrides[w].prefix)
                && overrides[w].level == first_match_level(target, sort_by_len_desc(overrides), global)
                && forall|j: int| 0 <= j < overrides.len() && target_matches_spec(target, (#[trigger] overrides[j]).prefix)
                    ==> byte_len(overrides[j].prefix) <= byte_len(overrides[w].prefix),
{
    lemma_sort_props(overrides);
    if forall|i: int| 0 <= i < overrides.len() ==> !target_matches_spec(target, (#[trigger] overrides[i]).prefix) {
        lemma_no_match_global(target, overrides, global);
    }
    if exists|i: int| 0 <= i < overrides.len() && target_matches_spec(target, (#[trigger] overrides[i]).prefix) {
        lemma_match_is_longest(target, overrides, global);
    }
}

proof fn lemma_no_match_global(target: Seq<char>, overrides: Seq<OverrideView>, global: Level)
    requires
        forall|i: int| 0 <= i < overrides.len() ==> !target_matches_spec(target, (#[trigger] overrides[i]).prefix),
        forall|x: OverrideView| sort_by_len_desc(overrides).contains(x) <==> overrides.contains(x),
    ensures
        first_match_level(target, sort_by_len_desc(overrides), global) == global,
{
    let sorted = sort_by_len_desc(overrides);
    lemma_first_match(target, sorted, global);
    let k = first_match_index(target, sorted);
    if k < sorted.len() {
        assert(sorted.contains(sorted[k]));
        assert(overrides.contains(sorted[k]));
        let v = choose|v: int| 0 <= v < overrides.len() && overrides[v] == sorted[k];
        assert(!target_matches_spec(target, overrides[v].prefix));
    }
}

#[verifier::rlimit(30)]
proof fn lemma_match_is_longest(target: Seq<char>, overrides: Seq<OverrideView>, global: Level)
    requires
        exists|i: int| 0 <= i < overrides.len() && target_matches_spec(target, (#[trigger] overrides[i]).prefix),
        forall|x: OverrideView| sort_by_len_desc(overrides).contains(x) <==> overrides.contains(x),
        longest_first(sort_by_len_desc(overrides)),
    ensures
        exists|w: int| 0 <= w < overrides.len() && target_matches_spec(target, overrides[w].prefix)
            && overrides[w].level == first_match_level(target, sort_by_len_desc(overrides), global)
            && forall|j: int| 0 <= j < overrides.len() && target_matches_spec(target, (#[trigger] overrides[j]).prefix)
                ==> byte_len(overrides[j].prefix) <= byte_len(overrides[w].prefix),
{
    let sorted = sort_by_len_desc(overrides);
    lemma_first_match(target, sorted, global);
    let k = first_match_index(target, sorted);
    let i = choose|i: int| 0 <= i < overrides.len() && target_matches_spec(target, (#[trigger] overrides[i]).prefix);
    assert(overrides.contains(overrides[i]));
    assert(sorted.contains(overrides[i]));
    let si = choose|si: int| 0 <= si < sorted.len() && sorted[si] == overrides[i];
    assert(target_matches_spec(target, sorted[si].prefix));
    assert(k < sorted.len());
    assert(sorted.contains(sorted[k]));
    assert(overrides.contains(sorted[k]));
    let w = choose|w: int| 0 <= w < overrides.len() && overrides[w] == sorted[k];
    assert forall|j: int| 0 <= j < overrides.len() && target_matches_spec(target, (#[trigger] overrides[j]).prefix)
        implies byte_len(overrides[j].prefix) <= byte_len(overrides[w].prefix) by {
        assert(overrides.contains(overrides[j]));
        assert(sorted.contains(overrides[j]));
        let sj = choose|sj: int| 0 <= sj < sorted.len() && sorted[sj] == overrides[j];
        assert(target_matches_spec(target, sorted[sj].prefix));
        if sj > k {
            assert(byte_len(sorted[k].prefix) >= byte_len(sorted[sj].prefix));
        }
    }
    assert(target_matches_spec(target, overrides[w].prefix));
}

} // verus!
