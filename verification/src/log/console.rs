//! Console line layouts (`Simple`, `Normal`, `Context`) with optional ANSI coloring, and the
//! level filter the console applies to each event.

use owo_colors::{AnsiColors, OwoColorize};
use vstd::prelude::*;
use vstd::utf8::encode_utf8;
use crate::log::builder::{first_match_level, effective_min_level, TargetOverride, overrides_view};
use crate::log::level::{label_of, level_rank, Level};
use crate::text::{chars_of, decimal, has_prefix, push_str, string_from_chars, u32_decimal, utf8_bytes};

verus! {

/// The foreground colors the console uses.
#[derive(Debug, Clone, Copy, PartialEq, Eq, Structural)]
pub enum ConsoleColor {
    /// Bright black (grey).
    BrightBlack,
    /// Green.
    Green,
    /// Yellow.
    Yellow,
    /// Red.
    Red,
    /// Blue.
    Blue,
    /// Cyan.
    Cyan,
}

/// The SGR code of a foreground color.
pub open spec fn fg_code(c: ConsoleColor) -> Seq<char> {
    match c {
        ConsoleColor::BrightBlack => "90"@,
        ConsoleColor::Green => "32"@,
        ConsoleColor::Yellow => "33"@,
        ConsoleColor::Red => "31"@,
        ConsoleColor::Blue => "34"@,
        ConsoleColor::Cyan => "36"@,
    }
}

/// `text` wrapped in the foreground escape of `c` and the foreground reset.
pub open spec fn painted(text: Seq<char>, c: ConsoleColor) -> Seq<char> {
    "\x1b["@ + fg_code(c) + "m"@ + text + "\x1b[39m"@
}

/// Renders `text` in color `c`: the escape `ESC [ code m`, the text, then `ESC [ 39 m`
/// (owo-colors' `color(..)` / `bright_black()` / `blue()` / `cyan()` followed by `to_string`).
#[verifier::external_body]
fn paint(text: &str, c: ConsoleColor) -> (r: String)
    ensures
        r@ == painted(text@, c),
{
    let color = match c {
        ConsoleColor::BrightBlack => AnsiColors::BrightBlack,
        ConsoleColor::Green => AnsiColors::Green,
        ConsoleColor::Yellow => AnsiColors::Yellow,
        ConsoleColor::Red => AnsiColors::Red,
        ConsoleColor::Blue => AnsiColors::Blue,
        ConsoleColor::Cyan => AnsiColors::Cyan,
    };
    text.color(color).to_string()
}

/// The last component of a path, as `Path::file_name` gives it (when it is valid UTF-8).
pub uninterp spec fn path_file_name(path: Seq<char>) -> Option<Seq<char>>;

/// `Path::new(path).file_name()` converted to a string.
#[verifier::external_body]
pub(crate) fn file_name_of(path: &str) -> (r: Option<String>)
    ensures
        match r {
            Some(n) => path_file_name(path@) == Some(n@),
            None => path_file_name(path@) is None,
        },
{
    std::path::Path::new(path).file_name().and_then(|n| n.to_str()).map(|n| n.to_string())
}

/// The color a level is rendered in.
pub open spec fn level_color_spec(level: Level) -> ConsoleColor {
    match level {
        Level::Debug => ConsoleColor::BrightBlack,
        Level::Info => ConsoleColor::Green,
        Level::Warn => ConsoleColor::Yellow,
        Level::Error => ConsoleColor::Red,
    }
}

/// ANSI color for a given level.
pub fn level_color(level: Level) -> (r: ConsoleColor)
    ensures
        r == level_color_spec(level),
{
    match level {
        Level::Debug => ConsoleColor::BrightBlack,
        Level::Info => ConsoleColor::Green,
        Level::Warn => ConsoleColor::Yellow,
        Level::Error => ConsoleColor::Red,
    }
}

/// `text`, painted in `c` when ANSI is on.
pub open spec fn maybe_painted(text: Seq<char>, c: ConsoleColor, use_ansi: bool) -> Seq<char> {
    if use_ansi { painted(text, c) } else { text }
}

fn maybe_paint(text: &str, c: ConsoleColor, use_ansi: bool) -> (r: String)
    ensures
        r@ == maybe_painted(text@, c, use_ansi),
{
    if use_ansi {
        paint(text, c)
    } else {
        text.to_owned()
    }
}

/// The `Simple` line: the message (level-colored when ANSI is on) and a newline.
pub open spec fn simple_line(level: Level, msg: Seq<char>, use_ansi: bool) -> Seq<char> {
    maybe_painted(msg, level_color_spec(level), use_ansi) + "\n"@
}

/// Render a line in `Simple` mode.
pub fn format_simple(level: Level, msg: &str, use_ansi: bool) -> (r: Vec<u8>)
    ensures
        r@ == encode_utf8(simple_line(level, msg@, use_ansi)),
{
    let mut line = maybe_paint(msg, level_color(level), use_ansi);
    push_str(&mut line, "\n");
    utf8_bytes(line.as_str())
}

/// The `Normal` line: timestamp, label, message.
pub open spec fn normal_line(level: Level, ts: Seq<char>, msg: Seq<char>, use_ansi: bool) -> Seq<char> {
    maybe_painted(ts, ConsoleColor::BrightBlack, use_ansi) + " "@ + maybe_painted(
        label_of(level),
        level_color_spec(level),
        use_ansi,
    ) + " "@ + maybe_painted(msg, level_color_spec(level), use_ansi) + "\n"@
}

/// Render a line in `Normal` mode.
pub fn format_normal(level: Level, ts: &str, msg: &str, use_ansi: bool) -> (r: Vec<u8>)
    ensures
        r@ == encode_utf8(normal_line(level, ts@, msg@, use_ansi)),
{
    let color = level_color(level);
    let mut line = maybe_paint(ts, ConsoleColor::BrightBlack, use_ansi);
    push_str(&mut line, " ");
    let label = maybe_paint(level.label(), color, use_ansi);
    push_str(&mut line, label.as_str());
    push_str(&mut line, " ");
    let body = maybe_paint(msg, color, use_ansi);
    push_str(&mut line, body.as_str());
    push_str(&mut line, "\n");
    utf8_bytes(line.as_str())
}

/// The file shown in a context line: the file's base name, the whole path when it has none,
/// or `<unknown>` when there is no file.
pub open spec fn shown_file(file: Option<Seq<char>>) -> Seq<char> {
    match file {
        Some(f) => match path_file_name(f) {
            Some(n) => n,
            None => f,
        },
        None => "<unknown>"@,
    }
}

/// The `Context` line: timestamp, label, target, `file:line`, message.
pub open spec fn context_line(
    level: Level,
    ts: Seq<char>,
    target: Seq<char>,
    file: Option<Seq<char>>,
    line: Option<u32>,
    msg: Seq<char>,
    use_ansi: bool,
) -> Seq<char> {
    let line_num = match line {
        Some(n) => n,
        None => 0,
    };
    maybe_painted(ts, ConsoleColor::BrightBlack, use_ansi) + " "@ + maybe_painted(
        label_of(level),
        level_color_spec(level),
        use_ansi,
    ) + " "@ + maybe_painted(target, ConsoleColor::Blue, use_ansi) + " "@ + shown_file(file) + ":"@
        + maybe_painted(decimal(line_num as nat), ConsoleColor::Cyan, use_ansi) + " "@
        + maybe_painted(msg, level_color_spec(level), use_ansi) + "\n"@
}

/// Render a line in `Context` mode.
pub fn format_context(
    level: Level,
    ts: &str,
    target: &str,
    file: Option<&str>,
    line: Option<u32>,
    msg: &str,
    use_ansi: bool,
) -> (r: Vec<u8>)
    ensures
        r@ == encode_utf8(
            context_line(
                level,
                ts@,
                target@,
                match file {
                    Some(f) => Some(f@),
                    None => None,
                },
                line,
                msg@,
                use_ansi,
            ),
        ),
{
    let color = level_color(level);
    let mut out = maybe_paint(ts, ConsoleColor::BrightBlack, use_ansi);
    push_str(&mut out, " ");
    let label = maybe_paint(level.label(), color, use_ansi);
    push_str(&mut out, label.as_str());
    push_str(&mut out, " ");
    let target_str = maybe_paint(target, ConsoleColor::Blue, use_ansi);
    push_str(&mut out, target_str.as_str());
    push_str(&mut out, " ");
    match file {
        Some(f) => match file_name_of(f) {
            Some(n) => push_str(&mut out, n.as_str()),
            None => push_str(&mut out, f),
        },
        None => push_str(&mut out, "<unknown>"),
    }
    push_str(&mut out, ":");
    let line_num: u32 = match line {
        Some(n) => n,
        None => 0,
    };
    let digits = string_from_chars(&u32_decimal(line_num));
    let loc = maybe_paint(digits.as_str(), ConsoleColor::Cyan, use_ansi);
    push_str(&mut out, loc.as_str());
    push_str(&mut out, " ");
    let body = maybe_paint(msg, color, use_ansi);
    push_str(&mut out, body.as_str());
    push_str(&mut out, "\n");
    utf8_bytes(out.as_str())
}

/// `target` with `prefix::` removed, when `target` starts with `prefix` followed by `::`.
pub open spec fn stripped_module(target: Seq<char>, prefix: Seq<char>) -> Option<Seq<char>> {
    if has_prefix(target, prefix + "::"@) {
        Some(target.skip(prefix.len() + 2int))
    } else {
        None
    }
}

/// Strip `prefix::` from the front of `target` on an exact module-path boundary. Returns
/// `None` otherwise (leaving the caller to use the original target), so `"surfer_lib"` strips
/// from `"surfer_lib::foo"` but not from `"surfer_library::foo"`.
pub fn strip_module_prefix<'a>(target: &'a str, prefix: &str) -> (r: Option<&'a str>)
    ensures
        match r {
            Some(rest) => stripped_module(target@, prefix@) == Some(rest@),
            None => stripped_module(target@, prefix@) is None,
        },
{
    let t = chars_of(target);
    let mut p = chars_of(prefix);
    p.push(':');
    p.push(':');
    proof {
        reveal_strlit("::");
        assert(p@ =~= prefix@ + "::"@);
    }
    if crate::text::starts_with_chars(&t, &p) {
        Some(target.substring_char(p.len(), t.len()))
    } else {
        None
    }
}

/// An event at `level` with `target` is rendered: its level is not below the effective minimum
/// (the first matching override, or the global minimum).
pub open spec fn passes_filter_spec(
    level: Level,
    target: Seq<char>,
    overrides: Seq<TargetOverride>,
    global: Level,
) -> bool {
    !(level_rank(level) < level_rank(first_match_level(target, overrides_view(overrides), global)))
}

/// Whether the console renders an event at `level` with `target`.
pub fn passes_filter(level: Level, target: &str, overrides: &[TargetOverride], global: Level) -> (r: bool)
    ensures
        r == passes_filter_spec(level, target@, overrides@, global),
{
    let min = effective_min_level(target, overrides, global);
    !level.is_below(min)
}

} // verus!
