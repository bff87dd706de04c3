//! The plain (never colored) line format of the log file.

use vstd::prelude::*;
use vstd::utf8::encode_utf8;
use crate::log::level::{label_of, Level};
use crate::log::console::{file_name_of, path_file_name};
use crate::text::{chars_of, decimal, has_suffix, push_str, string_from_chars, u32_decimal, utf8_bytes};

verus! {

/// `[ts] LABEL target file:line: msg` and a newline.
pub open spec fn file_line(level: Level, ts: Seq<char>, target: Seq<char>, file: Seq<char>, line: u32, msg: Seq<char>) -> Seq<char> {
    "["@ + ts + "] "@ + label_of(level) + " "@ + target + " "@ + file + ":"@ + decimal(line as nat) + ": "@ + msg + "\n"@
}

/// Render a log-file line.
pub fn format_file(level: Level, ts: &str, target: &str, file_basename: &str, line_num: u32, msg: &str) -> (r: Vec<u8>)
    ensures
        r@ == encode_utf8(file_line(level, ts@, target@, file_basename@, line_num, msg@)),
{
    let mut out = String::new();
    push_str(&mut out, "[");
    push_str(&mut out, ts);
    push_str(&mut out, "] ");
    push_str(&mut out, level.label());
    push_str(&mut out, " ");
    push_str(&mut out, target);
    push_str(&mut out, " ");
    push_str(&mut out, file_basename);
    push_str(&mut out, ":");
    let digits = string_from_chars(&u32_decimal(line_num));
    push_str(&mut out, digits.as_str());
    push_str(&mut out, ": ");
    push_str(&mut out, msg);
    push_str(&mut out, "\n");
    proof {
        assert(out@ =~= file_line(level, ts@, target@, file_basename@, line_num, msg@));
    }
    utf8_bytes(out.as_str())
}

/// The parent of a path as `Path::parent` gives it, as text.
pub uninterp spec fn path_parent(path: Seq<char>) -> Option<Seq<char>>;

/// `Path::new(path).parent()`, as text.
#[verifier::external_body]
fn parent_of(path: &str) -> (r: Option<String>)
    ensures
        match r {
            Some(p) => path_parent(path@) == Some(p@),
            None => path_parent(path@) is None,
        },
{
    std::path::Path::new(path).parent().map(|p| p.to_string_lossy().into_owned())
}

/// The file name used when the configured log path names a directory.
pub open spec fn default_log_name() -> Seq<char> {
    "polykit.log"@
}

/// Where the daily log files go for a configured log path: a path ending in `/`, or naming an
/// existing directory, is the directory itself with files named `polykit.log`; otherwise the
/// path's parent (`.` when it has none, or an empty one) and its file name (`polykit.log`
/// when it has none).
pub open spec fn log_location(path: Seq<char>, is_dir: bool) -> (Seq<char>, Seq<char>) {
    if has_suffix(path, "/"@) || is_dir {
        (path, default_log_name())
    } else {
        (
            match path_parent(path) {
                Some(p) => if p.len() == 0 { "."@ } else { p },
                None => "."@,
            },
            match path_file_name(path) {
                Some(f) => f,
                None => default_log_name(),
            },
        )
    }
}

/// The directory and file name of the daily log for a configured log path (`is_dir` tells
/// whether the path names an existing directory).
pub fn log_file_location(path: &str, is_dir: bool) -> (r: (String, String))
    ensures
        (r.0@, r.1@) == log_location(path@, is_dir),
{
    let chars = chars_of(path);
    let slash = chars_of("/");
    let ends_with_slash = crate::text::ends_with_chars(&chars, &slash);
    if ends_with_slash || is_dir {
        return (path.to_owned(), "polykit.log".to_owned());
    }
    let dir = match parent_of(path) {
        Some(p) => if p.unicode_len() == 0 {
            ".".to_owned()
        } else {
            p
        },
        None => ".".to_owned(),
    };
    let name = match file_name_of(path) {
        Some(f) => f,
        None => "polykit.log".to_owned(),
    };
    (dir, name)
}

} // verus!
