//! Text processing of the SF Symbol asset build: method names for symbols, `currentColor`
//! fills, the rewrite of an exported SVG's opening tag, the exporter's batch inputs and the
//! Rust source that embeds the assets. Running the `sfsym` exporter,
//! compositing PNGs and the viewBox geometry (floating point) belong to the build script.

use vstd::prelude::*;
use crate::text::{chars_of, decimal, find_from, first_from, join_path, lemma_first_from, occurs_at, path_joined, push_str, string_from_chars};

verus! {

/// `name` with every `.` and `-` replaced by `_`.
pub open spec fn method_name_spec(name: Seq<char>) -> Seq<char> {
    name.map_values(|c: char| if c == '.' || c == '-' { '_' } else { c })
}

/// Convert an SF Symbol name to a valid Rust method name: `folder.badge.plus` becomes
/// `folder_badge_plus`.
pub fn symbol_to_method_name(name: &str) -> (r: String)
    ensures
        r@ == method_name_spec(name@),
{
    let chars = chars_of(name);
    let mut out: Vec<char> = Vec::new();
    let mut i: usize = 0;
    while i < chars.len()
        invariant
            i <= chars.len(),
            chars@ == name@,
            out@ == method_name_spec(name@).take(i as int),
        decreases chars.len() - i,
    {
        let c = chars[i];
        let d = if c == '.' || c == '-' {
            '_'
        } else {
            c
        };
        out.push(d);
        proof {
            assert(method_name_spec(name@).take(i + 1) =~= method_name_spec(name@).take(i as int).push(d));
        }
        i = i + 1;
    }
    proof {
        assert(method_name_spec(name@).take(chars.len() as int) =~= method_name_spec(name@));
    }
    string_from_chars(&out)
}

/// An attribute of the opening `<svg>` tag that the rewrite drops or replaces.
#[derive(Debug, Clone, Copy, PartialEq, Eq, Structural)]
pub enum TagAttr {
    /// ` width="…"`, dropped.
    Width,
    /// ` height="…"`, dropped.
    Height,
    /// ` viewBox="…"`, replaced.
    ViewBox,
}

/// The text that opens the attribute, up to and including its opening quote.
pub open spec fn attr_text(a: TagAttr) -> Seq<char> {
    match a {
        TagAttr::Width => " width=\""@,
        TagAttr::Height => " height=\""@,
        TagAttr::ViewBox => " viewBox=\""@,
    }
}

/// A match position labelled with its attribute.
pub open spec fn labelled(p: Option<int>, a: TagAttr) -> Option<(int, TagAttr)> {
    match p {
        Some(x) => Some((x, a)),
        None => None,
    }
}

/// The earlier of two matches; the first one on a tie.
pub open spec fn earlier(x: Option<(int, TagAttr)>, y: Option<(int, TagAttr)>) -> Option<(int, TagAttr)> {
    match x {
        None => y,
        Some(a) => match y {
            None => x,
            Some(b) => if b.0 < a.0 {
                y
            } else {
                x
            },
        },
    }
}

/// The first attribute (of the three) that starts at or after `i`.
pub open spec fn next_attr(s: Seq<char>, i: int) -> Option<(int, TagAttr)> {
    earlier(
        earlier(
            labelled(first_from(s, attr_text(TagAttr::Width), i), TagAttr::Width),
            labelled(first_from(s, attr_text(TagAttr::Height), i), TagAttr::Height),
        ),
        labelled(first_from(s, attr_text(TagAttr::ViewBox), i), TagAttr::ViewBox),
    )
}

pub proof fn lemma_attr_lengths()
    ensures
        attr_text(TagAttr::Width).len() == 8,
        attr_text(TagAttr::Height).len() == 9,
        attr_text(TagAttr::ViewBox).len() == 10,
        "\""@.len() == 1,
{
    reveal_strlit(" width=\"");
    reveal_strlit(" height=\"");
    reveal_strlit(" viewBox=\"");
    reveal_strlit("\"");
}

pub proof fn lemma_next_attr(s: Seq<char>, i: int)
    requires
        0 <= i,
    ensures
        match next_attr(s, i) {
            Some(m) => i <= m.0 && m.0 + attr_text(m.1).len() <= s.len() && attr_text(m.1).len() >= 1,
            None => true,
        },
{
    lemma_attr_lengths();
    lemma_first_from(s, attr_text(TagAttr::Width), i);
    lemma_first_from(s, attr_text(TagAttr::Height), i);
    lemma_first_from(s, attr_text(TagAttr::ViewBox), i);
}

/// Where the attribute's value ends: its closing quote, or the end of the text.
pub open spec fn value_end(s: Seq<char>, start: int) -> int {
    match first_from(s, "\""@, start) {
        Some(c) => c,
        None => s.len() as int,
    }
}

/// Where scanning resumes after the attribute: past its closing quote, or, when the value
/// is never closed, right after the attribute's opening (the rest is scanned and kept).
pub open spec fn resume_at(s: Seq<char>, start: int) -> int {
    match first_from(s, "\""@, start) {
        Some(c) => c + 1,
        None => start,
    }
}

/// What replaces the attribute opening at `start - attr_text(a).len()`: nothing for `width`
/// and `height`; for `viewBox`, the attribute with value `vb` (or its own value).
pub open spec fn kept_text(s: Seq<char>, start: int, a: TagAttr, vb: Option<Seq<char>>) -> Seq<char> {
    if a == TagAttr::ViewBox {
        attr_text(TagAttr::ViewBox) + (match vb {
            Some(v) => v,
            None => s.subrange(start, value_end(s, start)),
        }) + "\""@
    } else {
        Seq::empty()
    }
}

/// The tag text from `i` on with `width` and `height` dropped and each `viewBox` rewritten to
/// `vb` (or kept with its own value when `vb` is `None`).
#[verifier::opaque]
pub open spec fn strip_from(s: Seq<char>, i: int, vb: Option<Seq<char>>) -> Seq<char>
    decreases s.len() - i,
{
    if i < 0 || i > s.len() {
        Seq::empty()
    } else {
        match next_attr(s, i) {
            None => s.subrange(i, s.len() as int),
            Some(m) => {
                proof {
                    lemma_attr_lengths();
                    lemma_next_attr(s, i);
                    lemma_first_from(s, "\""@, m.0 + attr_text(m.1).len());
                }
                let start = m.0 + attr_text(m.1).len();
                s.subrange(i, m.0) + kept_text(s, start, m.1, vb) + strip_from(s, resume_at(s, start), vb)
            },
        }
    }
}

/// End of the opening tag: the first `>` at or after the first `<svg` (which is looked for
/// from the start when there is no `<svg`), or the end of the text.
pub open spec fn svg_tag_end(svg: Seq<char>) -> int {
    let start = match first_from(svg, "<svg"@, 0) {
        Some(p) => p,
        None => 0,
    };
    match first_from(svg, ">"@, start) {
        Some(p) => p,
        None => svg.len() as int,
    }
}

/// The SVG with its opening tag rewritten: everything before the tag's `>` has `width` and
/// `height` dropped and its `viewBox` set to `vb` (kept as it was when `vb` is `None`).
pub open spec fn rewritten_svg(svg: Seq<char>, vb: Option<Seq<char>>) -> Seq<char> {
    let end = svg_tag_end(svg);
    strip_from(svg.subrange(0, end), 0, vb) + svg.subrange(end, svg.len() as int)
}

/// Optional string by its characters.
pub open spec fn opt_str(s: Option<&str>) -> Option<Seq<char>> {
    match s {
        Some(t) => Some(t@),
        None => None,
    }
}

fn push_range(out: &mut Vec<char>, src: &[char], from: usize, to: usize)
    requires
        from <= to <= src.len(),
    ensures
        final(out)@ == old(out)@ + src@.subrange(from as int, to as int),
{
    let mut k = from;
    while k < to
        invariant
            from <= k <= to <= src.len(),
            out@ == old(out)@ + src@.subrange(from as int, k as int),
        decreases to - k,
    {
        out.push(src[k]);
        proof {
            assert(src@.subrange(from as int, k + 1) =~= src@.subrange(from as int, k as int).push(src@[k as int]));
        }
        k = k + 1;
    }
}

fn earlier_exec(x: Option<(usize, TagAttr)>, y: Option<(usize, TagAttr)>) -> (r: Option<(usize, TagAttr)>)
    ensures
        match r {
            Some(m) => earlier(
                match x {
                    Some(a) => Some((a.0 as int, a.1)),
                    None => None,
                },
                match y {
                    Some(b) => Some((b.0 as int, b.1)),
                    None => None,
                },
            ) == Some((m.0 as int, m.1)),
            None => x is None && y is None,
        },
{
    match x {
        None => y,
        Some(a) => match y {
            None => x,
            Some(b) => if b.0 < a.0 {
                y
            } else {
                x
            },
        },
    }
}

fn labelled_exec(p: Option<usize>, a: TagAttr) -> (r: Option<(usize, TagAttr)>)
    ensures
        match r {
            Some(m) => p == Some(m.0) && m.1 == a,
            None => p is None,
        },
{
    match p {
        Some(x) => Some((x, a)),
        None => None,
    }
}

fn next_attr_exec(tag: &Vec<char>, i: usize, width: &Vec<char>, height: &Vec<char>, viewbox: &Vec<char>) -> (r: Option<
    (usize, TagAttr),
>)
    requires
        width@ == attr_text(TagAttr::Width),
        height@ == attr_text(TagAttr::Height),
        viewbox@ == attr_text(TagAttr::ViewBox),
    ensures
        match r {
            Some(m) => next_attr(tag@, i as int) == Some((m.0 as int, m.1)),
            None => next_attr(tag@, i as int) is None,
        },
{
    let w = labelled_exec(find_from(tag, width, i), TagAttr::Width);
    let h = labelled_exec(find_from(tag, height, i), TagAttr::Height);
    let x = labelled_exec(find_from(tag, viewbox, i), TagAttr::ViewBox);
    let wh = earlier_exec(w, h);
    earlier_exec(wh, x)
}

proof fn lemma_strip_step(s: Seq<char>, i: int, vb: Option<Seq<char>>, pos: int, a: TagAttr)
    requires
        0 <= i <= s.len(),
        next_attr(s, i) == Some((pos, a)),
    ensures
        i <= pos,
        pos + attr_text(a).len() <= s.len(),
        i < resume_at(s, pos + attr_text(a).len()) <= s.len(),
        pos + attr_text(a).len() <= value_end(s, pos + attr_text(a).len()) <= s.len(),
        strip_from(s, i, vb) == s.subrange(i, pos) + kept_text(s, pos + attr_text(a).len(), a, vb) + strip_from(
            s,
            resume_at(s, pos + attr_text(a).len()),
            vb,
        ),
{
    lemma_attr_lengths();
    lemma_next_attr(s, i);
    lemma_first_from(s, "\""@, pos + attr_text(a).len());
    reveal(strip_from);
}

proof fn lemma_strip_done(s: Seq<char>, i: int, vb: Option<Seq<char>>)
    requires
        0 <= i <= s.len(),
        next_attr(s, i) is None,
    ensures
        strip_from(s, i, vb) == s.subrange(i, s.len() as int),
{
    reveal(strip_from);
}

fn strip_attrs(tag: &Vec<char>, vb: Option<&str>) -> (r: Vec<char>)
    ensures
        r@ == strip_from(tag@, 0, opt_str(vb)),
{
    let width = chars_of(" width=\"");
    let height = chars_of(" height=\"");
    let viewbox = chars_of(" viewBox=\"");
    let quote = chars_of("\"");
    let ghost v = opt_str(vb);
    let mut out: Vec<char> = Vec::new();
    let mut i: usize = 0;
    loop
        invariant
            i <= tag.len(),
            width@ == attr_text(TagAttr::Width),
            height@ == attr_text(TagAttr::Height),
            viewbox@ == attr_text(TagAttr::ViewBox),
            quote@ == "\""@,
            v == opt_str(vb),
            out@ + strip_from(tag@, i as int, v) == strip_from(tag@, 0, v),
        decreases tag.len() - i,
    {
        match next_attr_exec(tag, i, &width, &height, &viewbox) {
            None => {
                proof {
                    lemma_strip_done(tag@, i as int, v);
                }
                push_range(&mut out, tag, i, tag.len());
                return out;
            },
            Some(found) => {
                let pos = found.0;
                let attr = found.1;
                proof {
                    lemma_attr_lengths();
                    lemma_strip_step(tag@, i as int, v, pos as int, attr);
                }
                let len: usize = match attr {
                    TagAttr::Width => 8,
                    TagAttr::Height => 9,
                    TagAttr::ViewBox => 10,
                };
                let start = pos + len;
                let (end, next): (usize, usize) = match find_from(tag, &quote, start) {
                    Some(c) => (c, c + 1),
                    None => (tag.len(), start),
                };
                let ghost before = out@;
                push_range(&mut out, tag, i, pos);
                if attr == TagAttr::ViewBox {
                    push_range(&mut out, &viewbox, 0, viewbox.len());
                    match vb {
                        Some(text) => {
                            let t = chars_of(text);
                            push_range(&mut out, &t, 0, t.len());
                        },
                        None => {
                            push_range(&mut out, tag, start, end);
                        },
                    }
                    out.push('"');
                    proof {
                        reveal_strlit("\"");
                    }
                }
                proof {
                    assert(end as int == value_end(tag@, start as int));
                    assert(next as int == resume_at(tag@, start as int));
                    assert(out@ =~= before + tag@.subrange(i as int, pos as int) + kept_text(tag@, start as int, attr, v));
                }
                i = next;
            },
        }
    }
}

/// Rewrite the opening `<svg ...>` tag: drop its `width` and `height` attributes and set its
/// `viewBox` to `viewbox` (the original value is kept when `viewbox` is `None`). The search
/// for the tag skips any XML declaration before `<svg`.
pub fn rewrite_svg_tag(svg: &str, viewbox: Option<&str>) -> (r: String)
    ensures
        r@ == rewritten_svg(svg@, opt_str(viewbox)),
{
    let chars = chars_of(svg);
    let open = chars_of("<svg");
    let close = chars_of(">");
    let start = match find_from(&chars, &open, 0) {
        Some(p) => p,
        None => 0,
    };
    proof {
        lemma_first_from(chars@, "<svg"@, 0);
        lemma_first_from(chars@, ">"@, start as int);
    }
    let end = match find_from(&chars, &close, start) {
        Some(p) => p,
        None => chars.len(),
    };
    let mut tag: Vec<char> = Vec::new();
    push_range(&mut tag, &chars, 0, end);
    let mut out = strip_attrs(&tag, viewbox);
    push_range(&mut out, &chars, end, chars.len());
    proof {
        assert(tag@ =~= svg@.subrange(0, end as int));
    }
    string_from_chars(&out)
}

/// `s` from position `i` on, with every occurrence of `pat` replaced by `rep`, scanning left
/// to right without overlaps (`str::replace`).
pub open spec fn replaced_from(s: Seq<char>, pat: Seq<char>, rep: Seq<char>, i: int) -> Seq<char>
    decreases s.len() - i,
{
    if i < 0 || i >= s.len() || pat.len() == 0 {
        s.subrange(if 0 <= i <= s.len() { i } else { s.len() as int }, s.len() as int)
    } else if occurs_at(s, pat, i) {
        rep + replaced_from(s, pat, rep, i + pat.len())
    } else {
        seq![s[i]] + replaced_from(s, pat, rep, i + 1)
    }
}

/// `s` with every occurrence of `pat` replaced by `rep`.
pub open spec fn replaced(s: Seq<char>, pat: Seq<char>, rep: Seq<char>) -> Seq<char> {
    replaced_from(s, pat, rep, 0)
}

/// Replace every occurrence of the non-empty `pat` in `s` by `rep`.
pub fn replace_all(s: &str, pat: &str, rep: &str) -> (r: String)
    requires
        pat@.len() > 0,
    ensures
        r@ == replaced(s@, pat@, rep@),
{
    let cs = chars_of(s);
    let p = chars_of(pat);
    let q = chars_of(rep);
    let mut out: Vec<char> = Vec::new();
    let mut i: usize = 0;
    while i < cs.len()
        invariant
            i <= cs.len(),
            cs@ == s@,
            p@ == pat@,
            q@ == rep@,
            p@.len() > 0,
            out@ + replaced_from(cs@, p@, q@, i as int) == replaced(cs@, p@, q@),
        decreases cs.len() - i,
    {
        let ghost before = out@;
        if crate::text::occurs_at_exec(&cs, &p, i) {
            push_range(&mut out, &q, 0, q.len());
            proof {
                assert(q@.subrange(0, q@.len() as int) =~= q@);
                assert(before + replaced_from(cs@, p@, q@, i as int) =~= out@ + replaced_from(cs@, p@, q@, i + p@.len()));
            }
            i = i + p.len();
        } else {
            out.push(cs[i]);
            proof {
                assert(before + replaced_from(cs@, p@, q@, i as int) =~= out@ + replaced_from(cs@, p@, q@, i + 1));
            }
            i = i + 1;
        }
    }
    proof {
        assert(out@ + replaced_from(cs@, p@, q@, i as int) =~= out@);
    }
    string_from_chars(&out)
}

/// Black fills and strokes (`#000000` or `#000`, double or single quoted) become
/// `currentColor`, so the icon takes its color from CSS.
pub open spec fn current_color_spec(svg: Seq<char>) -> Seq<char> {
    let s1 = replaced(svg, "fill=\"#000000\""@, "fill=\"currentColor\""@);
    let s2 = replaced(s1, "fill=\"#000\""@, "fill=\"currentColor\""@);
    let s3 = replaced(s2, "fill='#000000'"@, "fill='currentColor'"@);
    let s4 = replaced(s3, "fill='#000'"@, "fill='currentColor'"@);
    let s5 = replaced(s4, "stroke=\"#000000\""@, "stroke=\"currentColor\""@);
    let s6 = replaced(s5, "stroke=\"#000\""@, "stroke=\"currentColor\""@);
    let s7 = replaced(s6, "stroke='#000000'"@, "stroke='currentColor'"@);
    replaced(s7, "stroke='#000'"@, "stroke='currentColor'"@)
}

/// Replace hard-coded black fills and strokes with `currentColor`.
pub fn current_color(svg: &str) -> (r: String)
    ensures
        r@ == current_color_spec(svg@),
{
    proof {
        reveal_strlit("fill=\"#000000\"");
        reveal_strlit("fill=\"#000\"");
        reveal_strlit("fill='#000000'");
        reveal_strlit("fill='#000'");
        reveal_strlit("stroke=\"#000000\"");
        reveal_strlit("stroke=\"#000\"");
        reveal_strlit("stroke='#000000'");
        reveal_strlit("stroke='#000'");
    }
    let s1 = replace_all(svg, "fill=\"#000000\"", "fill=\"currentColor\"");
    let s2 = replace_all(s1.as_str(), "fill=\"#000\"", "fill=\"currentColor\"");
    let s3 = replace_all(s2.as_str(), "fill='#000000'", "fill='currentColor'");
    let s4 = replace_all(s3.as_str(), "fill='#000'", "fill='currentColor'");
    let s5 = replace_all(s4.as_str(), "stroke=\"#000000\"", "stroke=\"currentColor\"");
    let s6 = replace_all(s5.as_str(), "stroke=\"#000\"", "stroke=\"currentColor\"");
    let s7 = replace_all(s6.as_str(), "stroke='#000000'", "stroke='currentColor'");
    replace_all(s7.as_str(), "stroke='#000'", "stroke='currentColor'")
}

/// The post-processed SVG: `currentColor` fills and strokes, then the opening tag rewritten
/// (no `width`/`height`, `viewBox` set to `viewbox` when given).
pub fn postprocess_svg(svg: &str, viewbox: Option<&str>) -> (r: String)
    ensures
        r@ == rewritten_svg(current_color_spec(svg@), opt_str(viewbox)),
{
    let colored = current_color(svg);
    rewrite_svg_tag(colored.as_str(), viewbox)
}

/// What the exporter's batch input needs of one symbol.
#[derive(Debug)]
pub struct SymbolAsset {
    /// SF Symbol name, e.g. `folder.badge.plus`.
    pub name: String,
    /// Point size of the final canvas.
    pub size: u32,
    /// Point size the symbol is rendered at, leaving room for the padding.
    pub inner_size: u32,
    /// Symbol weight, e.g. `regular`.
    pub weight: String,
}

/// The mathematical form of a [`SymbolAsset`].
pub struct AssetView {
    /// Symbol name.
    pub name: Seq<char>,
    /// Canvas size in points.
    pub size: u32,
    /// Render size in points.
    pub inner_size: u32,
    /// Weight.
    pub weight: Seq<char>,
}

impl View for SymbolAsset {
    type V = AssetView;

    open spec fn view(&self) -> AssetView {
        AssetView { name: self.name@, size: self.size, inner_size: self.inner_size, weight: self.weight@ }
    }
}

/// Models of a list of assets.
pub open spec fn assets_view(s: Seq<SymbolAsset>) -> Seq<AssetView> {
    s.map_values(|a: SymbolAsset| a@)
}

/// One line of the PNG batch input for `sfsym batch`.
pub open spec fn png_line(a: AssetView, dir: Seq<char>, variant: Seq<char>, mode: Seq<char>, color: Seq<char>) -> Seq<
    char,
> {
    a.name + " -f png --mode "@ + mode + " --size "@ + decimal(a.inner_size as nat) + " --weight "@ + a.weight
        + " --color '"@ + color + "' -o "@ + path_joined(dir, a.name + "."@ + variant + ".png"@) + "\n"@
}

/// The PNG batch input: one line per asset, in order.
pub open spec fn png_batch(assets: Seq<AssetView>, dir: Seq<char>, variant: Seq<char>, mode: Seq<char>, color: Seq<
    char,
>) -> Seq<char>
    decreases assets.len(),
{
    if assets.len() == 0 {
        Seq::empty()
    } else {
        png_batch(assets.drop_last(), dir, variant, mode, color) + png_line(assets.last(), dir, variant, mode, color)
    }
}

/// One line of the SVG batch input for `sfsym batch`.
pub open spec fn svg_line(a: AssetView, dir: Seq<char>) -> Seq<char> {
    a.name + " -f svg --mode monochrome --size "@ + decimal(a.size as nat) + " --weight "@ + a.weight
        + " --color '#000000' -o "@ + path_joined(dir, a.name + ".svg"@) + "\n"@
}

/// The SVG batch input: one line per asset, in order.
pub open spec fn svg_batch(assets: Seq<AssetView>, dir: Seq<char>) -> Seq<char>
    decreases assets.len(),
{
    if assets.len() == 0 {
        Seq::empty()
    } else {
        svg_batch(assets.drop_last(), dir) + svg_line(assets.last(), dir)
    }
}

fn push_decimal(out: &mut String, n: u32)
    ensures
        final(out)@ == old(out)@ + decimal(n as nat),
{
    let digits = crate::text::u32_decimal(n);
    let text = string_from_chars(&digits);
    push_str(out, text.as_str());
}

/// The batch input that exports every asset as a PNG of one appearance `variant`, drawn in
/// rendering `mode` with `color`, at the asset's render size, into `symbol_dir`.
pub fn build_png_batch_input(assets: &[SymbolAsset], symbol_dir: &str, variant: &str, mode: &str, color: &str) -> (r:
    String)
    ensures
        r@ == png_batch(assets_view(assets@), symbol_dir@, variant@, mode@, color@),
{
    let ghost v = assets_view(assets@);
    let mut batch = String::new();
    let mut i: usize = 0;
    while i < assets.len()
        invariant
            i <= assets.len(),
            v == assets_view(assets@),
            batch@ == png_batch(v.take(i as int), symbol_dir@, variant@, mode@, color@),
        decreases assets.len() - i,
    {
        let a = &assets[i];
        let mut file = a.name.clone();
        push_str(&mut file, ".");
        push_str(&mut file, variant);
        push_str(&mut file, ".png");
        let path = join_path(symbol_dir, file.as_str());
        let ghost before = batch@;
        push_str(&mut batch, a.name.as_str());
        push_str(&mut batch, " -f png --mode ");
        push_str(&mut batch, mode);
        push_str(&mut batch, " --size ");
        push_decimal(&mut batch, a.inner_size);
        push_str(&mut batch, " --weight ");
        push_str(&mut batch, a.weight.as_str());
        push_str(&mut batch, " --color '");
        push_str(&mut batch, color);
        push_str(&mut batch, "' -o ");
        push_str(&mut batch, path.as_str());
        push_str(&mut batch, "\n");
        proof {
            assert(v.take(i + 1).drop_last() =~= v.take(i as int));
            assert(v.take(i + 1).last() == assets@[i as int]@);
            assert(batch@ =~= before + png_line(assets@[i as int]@, symbol_dir@, variant@, mode@, color@));
        }
        i = i + 1;
    }
    proof {
        assert(v.take(assets.len() as int) =~= v);
    }
    batch
}

/// The batch input that exports every asset as a monochrome black SVG at its canvas size
/// into `symbol_dir`.
pub fn build_svg_batch_input(assets: &[SymbolAsset], symbol_dir: &str) -> (r: String)
    ensures
        r@ == svg_batch(assets_view(assets@), symbol_dir@),
{
    let ghost v = assets_view(assets@);
    let mut batch = String::new();
    let mut i: usize = 0;
    while i < assets.len()
        invariant
            i <= assets.len(),
            v == assets_view(assets@),
            batch@ == svg_batch(v.take(i as int), symbol_dir@),
        decreases assets.len() - i,
    {
        let a = &assets[i];
        let mut file = a.name.clone();
        push_str(&mut file, ".svg");
        let path = join_path(symbol_dir, file.as_str());
        let ghost before = batch@;
        push_str(&mut batch, a.name.as_str());
        push_str(&mut batch, " -f svg --mode monochrome --size ");
        push_decimal(&mut batch, a.size);
        push_str(&mut batch, " --weight ");
        push_str(&mut batch, a.weight.as_str());
        push_str(&mut batch, " --color '#000000' -o ");
        push_str(&mut batch, path.as_str());
        push_str(&mut batch, "\n");
        proof {
            assert(v.take(i + 1).drop_last() =~= v.take(i as int));
            assert(v.take(i + 1).last() == assets@[i as int]@);
            assert(batch@ =~= before + svg_line(assets@[i as int]@, symbol_dir@));
        }
        i = i + 1;
    }
    proof {
        assert(v.take(assets.len() as int) =~= v);
    }
    batch
}

/// The Rust `Debug` rendering of the string `s`: a double-quoted, escaped literal.
pub uninterp spec fn debug_literal(s: Seq<char>) -> Seq<char>;

/// `format!("{:?}", s)`.
#[verifier::external_body]
fn debug_str(s: &str) -> (r: String)
    ensures
        r@ == debug_literal(s@),
{
    format!("{:?}", s)
}

/// The `Debug` rendering of the displayed path `file` joined onto the directory `dir`.
pub uninterp spec fn path_debug_literal(dir: Seq<char>, file: Seq<char>) -> Seq<char>;

/// `format!("{:?}", Path::new(dir).join(file).display())`.
#[verifier::external_body]
fn debug_joined_path(dir: &str, file: &str) -> (r: String)
    ensures
        r@ == path_debug_literal(dir@, file@),
{
    format!("{:?}", std::path::Path::new(dir).join(file).display())
}

/// The generated accessor for one symbol's PNG pair.
pub open spec fn png_accessor(a: AssetView, dir: Seq<char>) -> Seq<char> {
    "    pub fn "@ + method_name_spec(a.name) + "() -> ::polykit::polysym::SfImage {\n"@
        + "        ::polykit::polysym::SfImage::new(\n"@
        + "            include_bytes!("@ + path_debug_literal(dir, a.name + ".light.png"@) + "),\n"@
        + "            include_bytes!("@ + path_debug_literal(dir, a.name + ".dark.png"@) + "),\n"@
        + "        )\n"@ + "    }\n\n"@
}

/// The generated accessor for one symbol's SVG.
pub open spec fn svg_accessor(a: AssetView, dir: Seq<char>) -> Seq<char> {
    "    /// SVG for `"@ + a.name + "` with `currentColor` fill — style via CSS `color`.\n"@
        + "    pub fn "@ + method_name_spec(a.name) + "_svg() -> &'static str {\n"@
        + "        include_str!("@ + path_debug_literal(dir, a.name + ".svg"@) + ")\n"@
        + "    }\n\n"@
}

/// The two accessor methods generated for one symbol: its PNG pair and its SVG.
pub open spec fn icon_methods(a: AssetView, dir: Seq<char>) -> Seq<char> {
    png_accessor(a, dir) + svg_accessor(a, dir)
}

/// One match arm of the PNG lookup.
pub open spec fn png_arm(a: AssetView) -> Seq<char> {
    "            "@ + debug_literal(a.name) + " => Some(Self::"@ + method_name_spec(a.name) + "()),\n"@
}

/// One match arm of the SVG lookup.
pub open spec fn svg_arm(a: AssetView) -> Seq<char> {
    "            "@ + debug_literal(a.name) + " => Some(Self::"@ + method_name_spec(a.name) + "_svg()),\n"@
}

/// Which piece of generated text an asset contributes.
pub enum Piece {
    /// Its accessor methods.
    Methods,
    /// Its PNG lookup arm.
    PngArm,
    /// Its SVG lookup arm.
    SvgArm,
}

/// The piece `p` of the asset `a`.
pub open spec fn piece(p: Piece, a: AssetView, dir: Seq<char>) -> Seq<char> {
    match p {
        Piece::Methods => icon_methods(a, dir),
        Piece::PngArm => png_arm(a),
        Piece::SvgArm => svg_arm(a),
    }
}

/// The pieces `p` of every asset, in order.
pub open spec fn pieces(p: Piece, assets: Seq<AssetView>, dir: Seq<char>) -> Seq<char>
    decreases assets.len(),
{
    if assets.len() == 0 {
        Seq::empty()
    } else {
        pieces(p, assets.drop_last(), dir) + piece(p, assets.last(), dir)
    }
}

/// The opening of the generated `impl`.
pub open spec fn source_head() -> Seq<char> {
    "#[allow(dead_code)]\npub struct SfIcons;\n\n#[allow(dead_code)]\nimpl SfIcons {\n"@
}

/// The opening of the PNG lookup.
pub open spec fn png_lookup_head() -> Seq<char> {
    "    /// Look up a symbol's PNG pair by SF Symbol name (e.g. `\"trash\"`).\n/// Returns `None` if the name was not included in the build manifest.\npub fn get(name: &str) -> Option<::polykit::polysym::SfImage> {\nmatch name {\n"@
}

/// The opening of the SVG lookup.
pub open spec fn svg_lookup_head() -> Seq<char> {
    "    /// Look up a symbol's SVG string by SF Symbol name (e.g. `\"trash\"`).\n/// Returns `None` if the name was not included in the build manifest.\n/// The SVG uses `currentColor` fill — set the CSS `color` property to tint it.\npub fn get_svg(name: &str) -> Option<&'static str> {\nmatch name {\n"@
}

/// The close of a lookup: its fallback arm, its `match` and its function.
pub open spec fn lookup_tail() -> Seq<char> {
    "            _ => None,\n        }\n    }\n"@
}

/// The Rust source the consumer includes: the `SfIcons` type with two accessors per asset
/// and the two lookups by symbol name.
pub open spec fn generated_source(assets: Seq<AssetView>, dir: Seq<char>) -> Seq<char> {
    source_head() + pieces(Piece::Methods, assets, dir) + png_lookup_head() + pieces(Piece::PngArm, assets, dir)
        + lookup_tail() + "\n"@ + svg_lookup_head() + pieces(Piece::SvgArm, assets, dir) + lookup_tail() + "}\n"@
}

fn push_png_accessor(out: &mut String, a: &SymbolAsset, dir: &str)
    ensures
        final(out)@ == old(out)@ + png_accessor(a@, dir@),
{
    let method = symbol_to_method_name(a.name.as_str());
    let mut light = a.name.clone();
    push_str(&mut light, ".light.png");
    let mut dark = a.name.clone();
    push_str(&mut dark, ".dark.png");
    let light_lit = debug_joined_path(dir, light.as_str());
    let dark_lit = debug_joined_path(dir, dark.as_str());
    push_str(out, "    pub fn ");
    push_str(out, method.as_str());
    push_str(out, "() -> ::polykit::polysym::SfImage {\n");
    push_str(out, "        ::polykit::polysym::SfImage::new(\n");
    push_str(out, "            include_bytes!(");
    push_str(out, light_lit.as_str());
    push_str(out, "),\n");
    push_str(out, "            include_bytes!(");
    push_str(out, dark_lit.as_str());
    push_str(out, "),\n");
    push_str(out, "        )\n");
    push_str(out, "    }\n\n");
}

fn push_svg_accessor(out: &mut String, a: &SymbolAsset, dir: &str)
    ensures
        final(out)@ == old(out)@ + svg_accessor(a@, dir@),
{
    let method = symbol_to_method_name(a.name.as_str());
    let mut svg = a.name.clone();
    push_str(&mut svg, ".svg");
    let svg_lit = debug_joined_path(dir, svg.as_str());
    push_str(out, "    /// SVG for `");
    push_str(out, a.name.as_str());
    push_str(out, "` with `currentColor` fill — style via CSS `color`.\n");
    push_str(out, "    pub fn ");
    push_str(out, method.as_str());
    push_str(out, "_svg() -> &'static str {\n");
    push_str(out, "        include_str!(");
    push_str(out, svg_lit.as_str());
    push_str(out, ")\n");
    push_str(out, "    }\n\n");
}

fn push_piece(out: &mut String, p: &Piece, a: &SymbolAsset, dir: &str)
    ensures
        final(out)@ == old(out)@ + piece(*p, a@, dir@),
{
    match p {
        Piece::Methods => {
            let ghost start = out@;
            push_png_accessor(out, a, dir);
            push_svg_accessor(out, a, dir);
            proof {
                assert(out@ =~= start + icon_methods(a@, dir@));
            }
        },
        Piece::PngArm => {
            let method = symbol_to_method_name(a.name.as_str());
            let lit = debug_str(a.name.as_str());
            push_str(out, "            ");
            push_str(out, lit.as_str());
            push_str(out, " => Some(Self::");
            push_str(out, method.as_str());
            push_str(out, "()),\n");
        },
        Piece::SvgArm => {
            let method = symbol_to_method_name(a.name.as_str());
            let lit = debug_str(a.name.as_str());
            push_str(out, "            ");
            push_str(out, lit.as_str());
            push_str(out, " => Some(Self::");
            push_str(out, method.as_str());
            push_str(out, "_svg()),\n");
        },
    }
}

fn push_pieces(out: &mut String, p: Piece, assets: &[SymbolAsset], dir: &str)
    ensures
        final(out)@ == old(out)@ + pieces(p, assets_view(assets@), dir@),
{
    let ghost v = assets_view(assets@);
    let ghost start = out@;
    let mut i: usize = 0;
    while i < assets.len()
        invariant
            i <= assets.len(),
            v == assets_view(assets@),
            out@ == start + pieces(p, v.take(i as int), dir@),
        decreases assets.len() - i,
    {
        let ghost before = out@;
        push_piece(out, &p, &assets[i], dir);
        proof {
            assert(v.take(i + 1).drop_last() =~= v.take(i as int));
            assert(v.take(i + 1).last() == assets@[i as int]@);
            assert(out@ =~= start + pieces(p, v.take(i + 1), dir@));
        }
        i = i + 1;
    }
    proof {
        assert(v.take(assets.len() as int) =~= v);
    }
}

/// The Rust source that consumers include: an `SfIcons` type whose two accessors per asset
/// embed the PNG pair and the SVG written into `symbol_dir`, and lookups of both by name.
pub fn build_generated_source(assets: &[SymbolAsset], symbol_dir: &str) -> (r: String)
    ensures
        r@ == generated_source(assets_view(assets@), symbol_dir@),
{
    let mut src = String::new();
    push_str(&mut src, "#[allow(dead_code)]\npub struct SfIcons;\n\n#[allow(dead_code)]\nimpl SfIcons {\n");
    push_pieces(&mut src, Piece::Methods, assets, symbol_dir);
    push_str(
        &mut src,
        "    /// Look up a symbol's PNG pair by SF Symbol name (e.g. `\"trash\"`).\n/// Returns `None` if the name was not included in the build manifest.\npub fn get(name: &str) -> Option<::polykit::polysym::SfImage> {\nmatch name {\n",
    );
    push_pieces(&mut src, Piece::PngArm, assets, symbol_dir);
    push_str(&mut src, "            _ => None,\n        }\n    }\n");
    push_str(&mut src, "\n");
    push_str(
        &mut src,
        "    /// Look up a symbol's SVG string by SF Symbol name (e.g. `\"trash\"`).\n/// Returns `None` if the name was not included in the build manifest.\n/// The SVG uses `currentColor` fill — set the CSS `color` property to tint it.\npub fn get_svg(name: &str) -> Option<&'static str> {\nmatch name {\n",
    );
    push_pieces(&mut src, Piece::SvgArm, assets, symbol_dir);
    push_str(&mut src, "            _ => None,\n        }\n    }\n");
    push_str(&mut src, "}\n");
    src
}

// ---------------------------------------------------------------------------------------
// PNG padding.

/// The RGBA8 pixels a PNG file decodes to: width, height and `4 * width * height` bytes, row
/// by row; `None` when the bytes are not a PNG `image` can decode.
pub uninterp spec fn png_rgba(png: Seq<u8>) -> Option<(u32, u32, Seq<u8>)>;

/// `image::load_from_memory_with_format(png, Png)` converted to RGBA8.
#[verifier::external_body]
fn decode_png_rgba(png: &[u8]) -> (r: Result<(u32, u32, Vec<u8>), String>)
    ensures
        match r {
            Ok((w, h, px)) => png_rgba(png@) == Some((w, h, px@)) && px@.len() == 4 * (w as int) * (h as int),
            Err(_) => png_rgba(png@) is None,
        },
{
    let rgba = image::load_from_memory_with_format(png, image::ImageFormat::Png).map_err(|e| e.to_string())?.to_rgba8();
    Ok((rgba.width(), rgba.height(), rgba.into_raw()))
}

/// The RGBA8 pixels of a transparent `canvas_px`-square canvas with the `w`×`h` image `rgba`
/// laid over it at `(x, y)` (clipped at the canvas edge).
pub uninterp spec fn rgba_overlay(canvas_px: u32, w: u32, h: u32, rgba: Seq<u8>, x: u32, y: u32) -> Seq<u8>;

/// `image::imageops::overlay` of the image onto `RgbaImage::new(canvas_px, canvas_px)`.
#[verifier::external_body]
fn overlay_rgba(canvas_px: u32, w: u32, h: u32, rgba: &[u8], x: u32, y: u32) -> (r: Vec<u8>)
    requires
        4 * (canvas_px as int) * (canvas_px as int) <= usize::MAX,
        rgba@.len() == 4 * (w as int) * (h as int),
    ensures
        r@ == rgba_overlay(canvas_px, w, h, rgba@, x, y),
        r@.len() == 4 * (canvas_px as int) * (canvas_px as int),
{
    let mut canvas = image::RgbaImage::new(canvas_px, canvas_px);
    let top = image::RgbaImage::from_raw(w, h, rgba.to_vec()).unwrap_or_default();
    image::imageops::overlay(&mut canvas, &top, i64::from(x), i64::from(y));
    canvas.into_raw()
}

/// The PNG file of the `w`×`h` RGBA8 image `rgba` with a `pHYs` chunk holding `phys`;
/// `None` when the encoder refuses it.
pub uninterp spec fn png_encoded(w: u32, h: u32, rgba: Seq<u8>, phys: Seq<u8>) -> Option<Seq<u8>>;

/// `png::Encoder` (RGBA, 8 bits) writing the header, the `pHYs` chunk, the image data and
/// the end chunk into memory.
#[verifier::external_body]
fn encode_png_with_phys(w: u32, h: u32, rgba: &[u8], phys: &[u8]) -> (r: Result<Vec<u8>, String>)
    ensures
        match r {
            Ok(b) => png_encoded(w, h, rgba@, phys@) == Some(b@),
            Err(_) => png_encoded(w, h, rgba@, phys@) is None,
        },
{
    let mut out: Vec<u8> = Vec::new();
    let mut enc = png::Encoder::new(&mut out, w, h);
    enc.set_color(png::ColorType::Rgba);
    enc.set_depth(png::BitDepth::Eight);
    let mut writer = enc.write_header().map_err(|e| e.to_string())?;
    writer.write_chunk(png::chunk::ChunkType(*b"pHYs"), phys).map_err(|e| e.to_string())?;
    writer.write_image_data(rgba).map_err(|e| e.to_string())?;
    writer.finish().map_err(|e| e.to_string())?;
    Ok(out)
}

/// The `pHYs` chunk body for @2x Retina: 5669 pixels per metre (about 144 DPI) on both axes,
/// big-endian, then unit 1 (metre).
pub open spec fn phys_2x_spec() -> Seq<u8> {
    seq![0u8, 0u8, 0x16u8, 0x25u8, 0u8, 0u8, 0x16u8, 0x25u8, 1u8]
}

/// The `pHYs` chunk body that makes `NSImage` read a canvas as @2x.
pub fn phys_2x() -> (r: [u8; 9])
    ensures
        r@ == phys_2x_spec(),
{
    let r: [u8; 9] = [0u8, 0u8, 0x16u8, 0x25u8, 0u8, 0u8, 0x16u8, 0x25u8, 1u8];
    proof {
        assert(r@ =~= phys_2x_spec());
    }
    r
}

/// Where a `w`×`h` symbol sits, centred, on a `canvas_px` canvas; `None` when the symbol was
/// already rendered at the canvas size (no padding to add).
pub fn padding_offsets(canvas_px: u32, inner_px: u32, w: u32, h: u32) -> (r: Option<(u32, u32)>)
    requires
        w <= canvas_px,
        h <= canvas_px,
    ensures
        r == if canvas_px <= inner_px {
            None::<(u32, u32)>
        } else {
            Some((((canvas_px - w) / 2) as u32, ((canvas_px - h) / 2) as u32))
        },
{
    if canvas_px <= inner_px {
        None
    } else {
        Some(((canvas_px - w) / 2, (canvas_px - h) / 2))
    }
}

/// What padding a rendered symbol PNG gives: nothing to do when it was rendered at the canvas
/// size; otherwise the decoded symbol, centred on a transparent `canvas_px` square, encoded as
/// a PNG with the @2x `pHYs` chunk. It fails when the bytes do not decode, when the symbol is
/// larger than the canvas, or when the encoder refuses the image.
pub fn pad_png(png: &[u8], canvas_px: u32, inner_px: u32) -> (r: Result<Option<Vec<u8>>, String>)
    requires
        4 * (canvas_px as int) * (canvas_px as int) <= usize::MAX,
    ensures
        canvas_px <= inner_px ==> r matches Ok(None),
        canvas_px > inner_px ==> match png_rgba(png@) {
            None => r is Err,
            Some((w, h, px)) => if w <= canvas_px && h <= canvas_px {
                match png_encoded(
                    canvas_px,
                    canvas_px,
                    rgba_overlay(canvas_px, w, h, px, ((canvas_px - w) / 2) as u32, ((canvas_px - h) / 2) as u32),
                    phys_2x_spec(),
                ) {
                    Some(b) => r matches Ok(Some(v)) && v@ == b,
                    None => r is Err,
                }
            } else {
                r is Err
            },
        },
{
    if canvas_px <= inner_px {
        return Ok(None);
    }
    let (w, h, px) = match decode_png_rgba(png) {
        Ok(d) => d,
        Err(e) => {
            return Err(e);
        },
    };
    if w > canvas_px || h > canvas_px {
        return Err("symbol image is larger than the canvas".to_owned());
    }
    let (x, y) = match padding_offsets(canvas_px, inner_px, w, h) {
        Some(o) => o,
        None => {
            return Ok(None);
        },
    };
    let canvas = overlay_rgba(canvas_px, w, h, px.as_slice(), x, y);
    let phys = phys_2x();
    match encode_png_with_phys(canvas_px, canvas_px, canvas.as_slice(), &phys) {
        Ok(b) => Ok(Some(b)),
        Err(e) => Err(e),
    }
}

} // verus!
