//! What the console and file layers take from an event: the message, the other fields (in
//! the order they were recorded, `{:?}` values cleaned), the `log.*` bridge fields, and the
//! rendered line (empty when the event is filtered out).

use std::borrow::Cow;
use vstd::prelude::*;
use vstd::utf8::encode_utf8;
use crate::log::builder::TargetOverride;
use crate::log::clean::{clean_debug_value, clean_spec};
use crate::log::console::{
    context_line, format_context, format_normal, format_simple, normal_line, passes_filter, passes_filter_spec,
    path_file_name, simple_line, stripped_module, strip_module_prefix,
};
use crate::log::file::{file_line, format_file};
use crate::log::format::FormatMode;
use crate::log::level::{level_rank, Level};
use crate::text::{
    chars_of, decimal, has_prefix, i64_decimal, push_str, signed_decimal, str_eq, string_from_chars, trim_end_char, trim_end_spec,
    trim_start_char, trim_start_spec, u64_decimal,
};

verus! {

/// The fields the console collects from one event.
#[derive(Debug)]
pub struct EventFields {
    /// The `message` field.
    pub message: String,
    /// The other fields as `(name, value)`, in recording order.
    pub fields: Vec<(String, String)>,
    /// The `log.target` bridge field.
    pub log_target: Option<String>,
    /// The `log.file` bridge field.
    pub log_file: Option<String>,
    /// The `log.line` bridge field, when it fits in 32 bits.
    pub log_line: Option<u32>,
}

/// The mathematical form of [`EventFields`].
pub struct EventFieldsView {
    /// The message.
    pub message: Seq<char>,
    /// The other fields.
    pub fields: Seq<(Seq<char>, Seq<char>)>,
    /// `log.target`.
    pub log_target: Option<Seq<char>>,
    /// `log.file`.
    pub log_file: Option<Seq<char>>,
    /// `log.line`.
    pub log_line: Option<u32>,
}

/// Optional string by its characters.
pub open spec fn opt_seq(s: Option<String>) -> Option<Seq<char>> {
    match s {
        Some(t) => Some(t@),
        None => None,
    }
}

/// Field pairs by their characters.
pub open spec fn pairs_view(s: Seq<(String, String)>) -> Seq<(Seq<char>, Seq<char>)> {
    s.map_values(|p: (String, String)| (p.0@, p.1@))
}

impl View for EventFields {
    type V = EventFieldsView;

    open spec fn view(&self) -> EventFieldsView {
        EventFieldsView {
            message: self.message@,
            fields: pairs_view(self.fields@),
            log_target: opt_seq(self.log_target),
            log_file: opt_seq(self.log_file),
            log_line: self.log_line,
        }
    }
}

/// `s` without leading and trailing `"` (`str::trim_matches('"')`).
pub open spec fn unquoted(s: Seq<char>) -> Seq<char> {
    trim_end_spec(trim_start_spec(s, '"'), '"')
}

/// Recording a bridge field (`log.` prefix): `log.target` and `log.file` are kept, every other
/// one is dropped.
pub open spec fn with_bridge(e: EventFieldsView, name: Seq<char>, value: Seq<char>) -> EventFieldsView {
    if name == "log.target"@ {
        EventFieldsView { log_target: Some(value), ..e }
    } else if name == "log.file"@ {
        EventFieldsView { log_file: Some(value), ..e }
    } else {
        e
    }
}

/// Recording a plain field: `message` sets the message, anything else is appended.
pub open spec fn with_field(e: EventFieldsView, name: Seq<char>, value: Seq<char>) -> EventFieldsView {
    if name == "message"@ {
        EventFieldsView { message: value, ..e }
    } else {
        EventFieldsView { fields: e.fields.push((name, value)), ..e }
    }
}

/// Recording a string value.
pub open spec fn record_str_spec(e: EventFieldsView, name: Seq<char>, value: Seq<char>) -> EventFieldsView {
    if has_prefix(name, "log."@) {
        with_bridge(e, name, value)
    } else {
        with_field(e, name, value)
    }
}

/// Recording a value by its `{:?}` text: bridge fields lose their quotes, the message is kept
/// as is, other values are cleaned.
pub open spec fn record_debug_spec(e: EventFieldsView, name: Seq<char>, text: Seq<char>) -> EventFieldsView {
    if has_prefix(name, "log."@) {
        with_bridge(e, name, unquoted(text))
    } else if name == "message"@ {
        EventFieldsView { message: text, ..e }
    } else {
        EventFieldsView { fields: e.fields.push((name, clean_spec(text))), ..e }
    }
}

/// Recording a `u64`: `log.line` is kept when it fits in 32 bits; anything else is appended
/// in decimal.
pub open spec fn record_u64_spec(e: EventFieldsView, name: Seq<char>, value: u64) -> EventFieldsView {
    if name == "log.line"@ {
        EventFieldsView { log_line: if value <= u32::MAX { Some(value as u32) } else { None }, ..e }
    } else {
        EventFieldsView { fields: e.fields.push((name, decimal(value as nat))), ..e }
    }
}

/// The message followed by ` name=value` for each field, in order.
pub open spec fn with_fields(message: Seq<char>, fields: Seq<(Seq<char>, Seq<char>)>) -> Seq<char>
    decreases fields.len(),
{
    if fields.len() == 0 {
        message
    } else {
        with_fields(message, fields.drop_last()) + " "@ + fields.last().0 + "="@ + fields.last().1
    }
}

fn owned_text(s: &str) -> (r: String)
    ensures
        r@ == s@,
{
    s.to_owned()
}

impl EventFields {
    /// No message, no fields.
    pub fn new() -> (r: Self)
        ensures
            r@.message == Seq::<char>::empty(),
            r@.fields == Seq::<(Seq<char>, Seq<char>)>::empty(),
            r@.log_target is None,
            r@.log_file is None,
            r@.log_line is None,
    {
        let r = EventFields { message: String::new(), fields: Vec::new(), log_target: None, log_file: None, log_line: None };
        proof {
            assert(pairs_view(r.fields@) =~= Seq::<(Seq<char>, Seq<char>)>::empty());
        }
        r
    }

    fn is_bridge(name: &str) -> (r: bool)
        ensures
            r == has_prefix(name@, "log."@),
    {
        let n = chars_of(name);
        let p = chars_of("log.");
        crate::text::starts_with_chars(&n, &p)
    }

    fn set_bridge(&mut self, name: &str, value: String)
        ensures
            final(self)@ == with_bridge(old(self)@, name@, value@),
    {
        if str_eq(name, "log.target") {
            self.log_target = Some(value);
        } else if str_eq(name, "log.file") {
            self.log_file = Some(value);
        }
    }

    fn push_field(&mut self, name: &str, value: String)
        ensures
            final(self)@ == (EventFieldsView { fields: old(self)@.fields.push((name@, value@)), ..old(self)@ }),
    {
        let ghost before = self.fields@;
        self.fields.push((name.to_owned(), value));
        proof {
            assert(pairs_view(self.fields@) =~= pairs_view(before).push((name@, value@)));
        }
    }

    /// Record a string field.
    pub fn record_str(&mut self, name: &str, value: &str)
        ensures
            final(self)@ == record_str_spec(old(self)@, name@, value@),
    {
        if Self::is_bridge(name) {
            self.set_bridge(name, owned_text(value));
        } else if str_eq(name, "message") {
            self.message = owned_text(value);
        } else {
            self.push_field(name, owned_text(value));
        }
    }

    /// Record a field by its `{:?}` text.
    pub fn record_debug(&mut self, name: &str, text: &str)
        ensures
            final(self)@ == record_debug_spec(old(self)@, name@, text@),
    {
        if Self::is_bridge(name) {
            let inner = trim_end_char(trim_start_char(text, '"'), '"');
            self.set_bridge(name, owned_text(inner));
        } else if str_eq(name, "message") {
            self.message = owned_text(text);
        } else {
            let cleaned = match clean_debug_value(text) {
                Cow::Borrowed(b) => owned_text(b),
                Cow::Owned(o) => o,
            };
            self.push_field(name, cleaned);
        }
    }

    /// Record a `u64` field.
    pub fn record_u64(&mut self, name: &str, value: u64)
        ensures
            final(self)@ == record_u64_spec(old(self)@, name@, value),
    {
        if str_eq(name, "log.line") {
            self.log_line = if value <= 0xffff_ffff {
                Some(value as u32)
            } else {
                None
            };
        } else {
            let digits = string_from_chars(&u64_decimal(value));
            self.push_field(name, digits);
        }
    }

    /// Record an `i64` field (appended in decimal).
    pub fn record_i64(&mut self, name: &str, value: i64)
        ensures
            final(self)@ == (EventFieldsView {
                fields: old(self)@.fields.push((name@, signed_decimal(value as int))),
                ..old(self)@
            }),
    {
        let text = i64_decimal(value);
        self.push_field(name, text);
    }

    /// Record a `bool` field (appended as `true` / `false`).
    pub fn record_bool(&mut self, name: &str, value: bool)
        ensures
            final(self)@ == (EventFieldsView {
                fields: old(self)@.fields.push((name@, if value { "true"@ } else { "false"@ })),
                ..old(self)@
            }),
    {
        let text = if value {
            owned_text("true")
        } else {
            owned_text("false")
        };
        self.push_field(name, text);
    }

    /// Record a field whose value the host already rendered (floating point values).
    pub fn record_text(&mut self, name: &str, text: &str)
        ensures
            final(self)@ == (EventFieldsView { fields: old(self)@.fields.push((name@, text@)), ..old(self)@ }),
    {
        self.push_field(name, owned_text(text));
    }

    /// The message followed by ` name=value` for every other field.
    pub fn full_message(&self) -> (r: String)
        ensures
            r@ == with_fields(self@.message, self@.fields),
    {
        let mut msg = self.message.clone();
        let mut i: usize = 0;
        while i < self.fields.len()
            invariant
                i <= self.fields@.len(),
                msg@ == with_fields(self@.message, pairs_view(self.fields@).take(i as int)),
            decreases self.fields.len() - i,
        {
            let ghost before = msg@;
            push_str(&mut msg, " ");
            push_str(&mut msg, self.fields[i].0.as_str());
            push_str(&mut msg, "=");
            push_str(&mut msg, self.fields[i].1.as_str());
            proof {
                let t = pairs_view(self.fields@).take(i + 1);
                assert(t.drop_last() =~= pairs_view(self.fields@).take(i as int));
                assert(msg@ =~= with_fields(self@.message, t));
            }
            i = i + 1;
        }
        proof {
            assert(pairs_view(self.fields@).take(self.fields@.len() as int) =~= pairs_view(self.fields@));
        }
        msg
    }
}

/// An event's metadata as the layers read it.
#[derive(Debug)]
pub struct EventMeta {
    /// The level; `None` for TRACE, which is never rendered.
    pub level: Option<Level>,
    /// The event's target.
    pub target: String,
    /// The source file, when known.
    pub file: Option<String>,
    /// The source line, when known.
    pub line: Option<u32>,
}

/// The context-mode target: the bridged `log.target` or the event's target, with
/// `strip_prefix::` removed when it starts that way.
pub open spec fn context_target(raw: Seq<char>, strip_prefix: Option<Seq<char>>) -> Seq<char> {
    match strip_prefix {
        Some(p) => match stripped_module(raw, p) {
            Some(t) => t,
            None => raw,
        },
        None => raw,
    }
}

/// The console line for an event, as text (empty when filtered out).
pub open spec fn console_text(
    format: FormatMode,
    meta: EventMeta,
    overrides: Seq<TargetOverride>,
    global: Level,
    fields: EventFieldsView,
    strip_prefix: Option<Seq<char>>,
    ts: Seq<char>,
    use_ansi: bool,
) -> Seq<char> {
    match meta.level {
        None => Seq::empty(),
        Some(level) => if !passes_filter_spec(level, meta.target@, overrides, global) {
            Seq::empty()
        } else {
            let msg = with_fields(fields.message, fields.fields);
            match format {
                FormatMode::Simple => simple_line(level, msg, use_ansi),
                FormatMode::Normal => normal_line(level, ts, msg, use_ansi),
                FormatMode::Context => context_line(
                    level,
                    ts,
                    context_target(
                        match fields.log_target {
                            Some(t) => t,
                            None => meta.target@,
                        },
                        strip_prefix,
                    ),
                    match fields.log_file {
                        Some(f) => Some(f),
                        None => opt_seq(meta.file),
                    },
                    match fields.log_line {
                        Some(n) => Some(n),
                        None => meta.line,
                    },
                    msg,
                    use_ansi,
                ),
            }
        },
    }
}

/// Render an event for the console: nothing for TRACE or when the event's level is below the
/// effective minimum for its target; otherwise the line in the configured format, where the
/// context format prefers the bridged `log.*` target, file and line.
pub fn render_console(
    format: FormatMode,
    meta: &EventMeta,
    overrides: &[TargetOverride],
    global: Level,
    fields: &EventFields,
    strip_prefix: Option<&str>,
    ts: &str,
    use_ansi: bool,
) -> (r: Vec<u8>)
    ensures
        r@ == encode_utf8(
            console_text(
                format,
                *meta,
                overrides@,
                global,
                fields@,
                match strip_prefix {
                    Some(p) => Some(p@),
                    None => None,
                },
                ts@,
                use_ansi,
            ),
        ),
{
    let level = match meta.level {
        Some(l) => l,
        None => {
            proof {
                assert(encode_utf8(Seq::<char>::empty()) =~= Seq::<u8>::empty());
            }
            return Vec::new();
        },
    };
    if !passes_filter(level, meta.target.as_str(), overrides, global) {
        proof {
            assert(encode_utf8(Seq::<char>::empty()) =~= Seq::<u8>::empty());
        }
        return Vec::new();
    }
    let msg = fields.full_message();
    match format {
        FormatMode::Simple => format_simple(level, msg.as_str(), use_ansi),
        FormatMode::Normal => format_normal(level, ts, msg.as_str(), use_ansi),
        FormatMode::Context => {
            let raw: &str = match &fields.log_target {
                Some(t) => t.as_str(),
                None => meta.target.as_str(),
            };
            let target: &str = match strip_prefix {
                Some(p) => match strip_module_prefix(raw, p) {
                    Some(t) => t,
                    None => raw,
                },
                None => raw,
            };
            let file: Option<&str> = match &fields.log_file {
                Some(f) => Some(f.as_str()),
                None => match &meta.file {
                    Some(f) => Some(f.as_str()),
                    None => None,
                },
            };
            let line: Option<u32> = match fields.log_line {
                Some(n) => Some(n),
                None => meta.line,
            };
            format_context(level, ts, target, file, line, msg.as_str(), use_ansi)
        },
    }
}

/// The message the file layer takes from an event (only the `message` field).
#[derive(Debug)]
pub struct FileMessage {
    /// The message.
    pub message: String,
}

impl FileMessage {
    /// No message yet.
    pub fn new() -> (r: Self)
        ensures
            r.message@ == Seq::<char>::empty(),
    {
        FileMessage { message: String::new() }
    }

    /// Record a field by its `{:?}` text; only `message` is kept.
    pub fn record_debug(&mut self, name: &str, text: &str)
        ensures
            final(self).message@ == if name@ == "message"@ { text@ } else { old(self).message@ },
    {
        if str_eq(name, "message") {
            self.message = owned_text(text);
        }
    }

    /// Record a string field; only `message` is kept.
    pub fn record_str(&mut self, name: &str, value: &str)
        ensures
            final(self).message@ == if name@ == "message"@ { value@ } else { old(self).message@ },
    {
        if str_eq(name, "message") {
            self.message = owned_text(value);
        }
    }
}

/// The file line for an event, as text (empty when filtered out): the base name of the source
/// file and its line, or `<unknown>:0` unless both are known.
pub open spec fn file_text(meta: EventMeta, global: Level, ts: Seq<char>, msg: Seq<char>) -> Seq<char> {
    match meta.level {
        None => Seq::empty(),
        Some(level) => if level_rank(level) < level_rank(global) {
            Seq::empty()
        } else {
            match meta.file {
                Some(f) => match meta.line {
                    Some(n) => file_line(
                        level,
                        ts,
                        meta.target@,
                        match path_file_name(f@) {
                            Some(b) => b,
                            None => f@,
                        },
                        n,
                        msg,
                    ),
                    None => file_line(level, ts, meta.target@, "<unknown>"@, 0, msg),
                },
                None => file_line(level, ts, meta.target@, "<unknown>"@, 0, msg),
            }
        },
    }
}

/// Render an event for the log file: nothing for TRACE or below the global minimum level.
pub fn render_file(meta: &EventMeta, global: Level, ts: &str, msg: &str) -> (r: Vec<u8>)
    ensures
        r@ == encode_utf8(file_text(*meta, global, ts@, msg@)),
{
    let level = match meta.level {
        Some(l) => l,
        None => {
            proof {
                assert(encode_utf8(Seq::<char>::empty()) =~= Seq::<u8>::empty());
            }
            return Vec::new();
        },
    };
    if level.is_below(global) {
        proof {
            assert(encode_utf8(Seq::<char>::empty()) =~= Seq::<u8>::empty());
        }
        return Vec::new();
    }
    match (&meta.file, meta.line) {
        (Some(f), Some(n)) => {
            let base = crate::log::console::file_name_of(f.as_str());
            match base {
                Some(b) => format_file(level, ts, meta.target.as_str(), b.as_str(), n, msg),
                None => format_file(level, ts, meta.target.as_str(), f.as_str(), n, msg),
            }
        },
        _ => format_file(level, ts, meta.target.as_str(), "<unknown>", 0, msg),
    }
}

} // verus!
