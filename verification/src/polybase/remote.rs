//! Remote reads and writes against PostgREST: the equality filter, the query parameters of
//! the two read shapes, and how a failed write or read is classified.

use vstd::prelude::*;
use crate::polybase::errors::{PolyError, PullError, PushError};
use crate::polybase::push::{classify_push_error_message, is_permanent_message};
use crate::polybase::storage::http_failure_text;
use crate::polybase::coordinator::record_id;
use crate::polybase::record::{FieldValue, FieldView, Record};
use crate::text::{chars_of, contains_chars, contains_seq, lower_chars, lower_seq, push_str, string_from_chars, u32_decimal};

verus! {

/// Optional structured predicate filter of a record fetch: each entry becomes an additional
/// `column=eq.value` query parameter.
#[derive(Debug, Clone, PartialEq, Eq, Default)]
pub struct RemoteFilter {
    /// `column = value` equality predicates (case-sensitive).
    pub eq: Vec<(String, String)>,
}

/// The views of a list of string pairs.
pub open spec fn string_pairs(p: Seq<(String, String)>) -> Seq<(Seq<char>, Seq<char>)> {
    p.map_values(|e: (String, String)| (e.0@, e.1@))
}

/// The views of a list of borrowed string pairs.
pub open spec fn str_pairs<'a>(p: Seq<(&'a str, &'a str)>) -> Seq<(Seq<char>, Seq<char>)> {
    p.map_values(|e: (&'a str, &'a str)| (e.0@, e.1@))
}

impl RemoteFilter {
    /// A filter from `(column, value)` pairs, in order.
    pub fn from_pairs(pairs: Vec<(&str, &str)>) -> (r: Self)
        ensures
            string_pairs(r.eq@) == str_pairs(pairs@),
    {
        let mut eq: Vec<(String, String)> = Vec::new();
        let mut i: usize = 0;
        while i < pairs.len()
            invariant
                i <= pairs@.len(),
                string_pairs(eq@) == str_pairs(pairs@.take(i as int)),
            decreases pairs.len() - i,
        {
            let (c, v) = pairs[i];
            let ghost before = eq@;
            eq.push((c.to_owned(), v.to_owned()));
            proof {
                assert(string_pairs(eq@) =~= string_pairs(before).push((c@, v@)));
                assert(str_pairs(pairs@.take(i + 1)) =~= str_pairs(pairs@.take(i as int)).push((c@, v@)));
            }
            i = i + 1;
        }
        proof {
            assert(pairs@.take(pairs@.len() as int) =~= pairs@);
        }
        RemoteFilter { eq }
    }
}

/// The PostgREST equality operand `eq.{value}`.
pub open spec fn eq_operand(value: Seq<char>) -> Seq<char> {
    "eq."@ + value
}

/// The query parameters of a record fetch: `select=*`, the user scope when a user id is
/// given, then each filter predicate.
pub open spec fn records_query(user_id_column: Seq<char>, user_id: Option<Seq<char>>, filter: Option<Seq<(Seq<char>, Seq<char>)>>) -> Seq<(Seq<char>, Seq<char>)> {
    let base = seq![("select"@, "*"@)];
    let scoped = match user_id {
        Some(u) => base.push((user_id_column, eq_operand(u))),
        None => base,
    };
    match filter {
        Some(f) => scoped + f.map_values(|p: (Seq<char>, Seq<char>)| (p.0, eq_operand(p.1))),
        None => scoped,
    }
}

/// The query parameters of a version fetch: `select=id,version,deleted` and the user scope.
pub open spec fn versions_query(user_id_column: Seq<char>, user_id: Option<Seq<char>>) -> Seq<(Seq<char>, Seq<char>)> {
    let base = seq![("select"@, "id,version,deleted"@)];
    match user_id {
        Some(u) => base.push((user_id_column, eq_operand(u))),
        None => base,
    }
}

fn eq_string(value: &str) -> (r: String)
    ensures
        r@ == eq_operand(value@),
{
    let mut s = "eq.".to_owned();
    push_str(&mut s, value);
    s
}

/// The query parameters of a record fetch.
pub fn fetch_records_query(user_id_column: &str, user_id: Option<&str>, filter: Option<&RemoteFilter>) -> (r: Vec<(String, String)>)
    ensures
        string_pairs(r@) == records_query(
            user_id_column@,
            match user_id { Some(u) => Some(u@), None => None },
            match filter { Some(f) => Some(string_pairs(f.eq@)), None => None },
        ),
{
    let mut query: Vec<(String, String)> = Vec::new();
    query.push(("select".to_owned(), "*".to_owned()));
    match user_id {
        Some(u) => query.push((user_id_column.to_owned(), eq_string(u))),
        None => {},
    }
    let ghost scoped = string_pairs(query@);
    proof {
        assert(scoped =~= records_query(user_id_column@, match user_id { Some(u) => Some(u@), None => None }, None));
    }
    match filter {
        Some(f) => {
            let ghost fv = string_pairs(f.eq@);
            let mut i: usize = 0;
            while i < f.eq.len()
                invariant
                    i <= f.eq@.len(),
                    fv == string_pairs(f.eq@),
                    string_pairs(query@) == scoped + fv.take(i as int).map_values(|p: (Seq<char>, Seq<char>)| (p.0, eq_operand(p.1))),
                decreases f.eq.len() - i,
            {
                let ghost before = query@;
                let column = f.eq[i].0.clone();
                let value = eq_string(f.eq[i].1.as_str());
                query.push((column, value));
                proof {
                    assert(string_pairs(query@) =~= string_pairs(before).push((fv[i as int].0, eq_operand(fv[i as int].1))));
                    assert(fv.take(i + 1).map_values(|p: (Seq<char>, Seq<char>)| (p.0, eq_operand(p.1)))
                        =~= fv.take(i as int).map_values(|p: (Seq<char>, Seq<char>)| (p.0, eq_operand(p.1))).push((fv[i as int].0, eq_operand(fv[i as int].1))));
                }
                i = i + 1;
            }
            proof {
                assert(fv.take(f.eq@.len() as int) =~= fv);
            }
        },
        None => {},
    }
    query
}

/// The query parameters of a version fetch.
pub fn fetch_versions_query(user_id_column: &str, user_id: Option<&str>) -> (r: Vec<(String, String)>)
    ensures
        string_pairs(r@) == versions_query(user_id_column@, match user_id { Some(u) => Some(u@), None => None }),
{
    let mut query: Vec<(String, String)> = Vec::new();
    query.push(("select".to_owned(), "id,version,deleted".to_owned()));
    match user_id {
        Some(u) => query.push((user_id_column.to_owned(), eq_string(u))),
        None => {},
    }
    proof {
        assert(string_pairs(query@) =~= versions_query(user_id_column@, match user_id { Some(u) => Some(u@), None => None }));
    }
    query
}

fn http_failure(status: u16, body: &str) -> (r: String)
    ensures
        r@ == http_failure_text(status, body@),
{
    let mut m = "HTTP ".to_owned();
    let digits = string_from_chars(&u32_decimal(status as u32));
    push_str(&mut m, digits.as_str());
    push_str(&mut m, ": ");
    push_str(&mut m, body);
    m
}

/// A single-record upsert rejected with `body` is a same-version no-op when the body mentions
/// `same-version mutation` or `ignored` (any case).
pub open spec fn same_version_ignored(body: Seq<char>) -> bool {
    contains_seq(lower_seq(body), "same-version mutation"@) || contains_seq(lower_seq(body), "ignored"@)
}

/// The push error of a write rejected with `status` and `body`: classified from
/// `HTTP {status}: {body}`.
pub fn write_failure(table: &str, status: u16, body: &str) -> (r: PolyError)
    ensures
        ({
            let message = http_failure_text(status, body@);
            if is_permanent_message(message) {
                r matches PolyError::Push(PushError::Permanent { table: t, message: m }) && t@ == table@ && m@ == message
            } else {
                r matches PolyError::Push(PushError::Transient { table: t, message: m }) && t@ == table@ && m@ == message
            }
        }),
{
    let message = http_failure(status, body);
    PolyError::Push(classify_push_error_message(table, message.as_str()))
}

/// The error of a single-record upsert rejected with `status` and `body`: a same-version
/// no-op when the server says so, else [`write_failure`].
pub fn upsert_failure(table: &str, status: u16, body: &str) -> (r: PolyError)
    ensures
        same_version_ignored(body@) ==> (r matches PolyError::Push(PushError::SameVersionMutationIgnored { table: t }) && t@ == table@),
        !same_version_ignored(body@) ==> ({
            let message = http_failure_text(status, body@);
            if is_permanent_message(message) {
                r matches PolyError::Push(PushError::Permanent { table: t, message: m }) && t@ == table@ && m@ == message
            } else {
                r matches PolyError::Push(PushError::Transient { table: t, message: m }) && t@ == table@ && m@ == message
            }
        }),
{
    let lower = lower_chars(&chars_of(body));
    let a = chars_of("same-version mutation");
    let b = chars_of("ignored");
    if contains_chars(&lower, &a) || contains_chars(&lower, &b) {
        return PolyError::Push(PushError::SameVersionMutationIgnored { table: table.to_owned() });
    }
    write_failure(table, status, body)
}

/// The error of a read rejected with `status` and `body`.
pub fn read_failure(table: &str, status: u16, body: &str) -> (r: PolyError)
    ensures
        r matches PolyError::Pull(PullError::Failed { table: t, message: m }) && t@ == table@
            && m@ == http_failure_text(status, body@),
{
    PolyError::Pull(PullError::Failed { table: table.to_owned(), message: http_failure(status, body) })
}

/// Ids joined with commas.
pub open spec fn comma_joined(ids: Seq<Seq<char>>) -> Seq<char>
    decreases ids.len(),
{
    if ids.len() == 0 {
        Seq::empty()
    } else if ids.len() == 1 {
        ids[0]
    } else {
        comma_joined(ids.drop_last()) + ","@ + ids.last()
    }
}

/// Views of a list of owned strings.
pub open spec fn strings_view(ids: Seq<String>) -> Seq<Seq<char>> {
    ids.map_values(|s: String| s@)
}

/// The query parameters of a fetch by ids: `id=in.(a,b,…)` and `select=*`; no request at all
/// for an empty id list.
pub fn read_by_ids_query(ids: &[String]) -> (r: Option<Vec<(String, String)>>)
    ensures
        ids@.len() == 0 ==> r is None,
        ids@.len() > 0 ==> (r matches Some(q) && string_pairs(q@) == seq![
            ("id"@, "in.("@ + comma_joined(strings_view(ids@)) + ")"@),
            ("select"@, "*"@),
        ]),
{
    if ids.len() == 0 {
        return None;
    }
    let ghost v = strings_view(ids@);
    let mut joined = String::new();
    let mut i: usize = 0;
    while i < ids.len()
        invariant
            i <= ids.len(),
            v == strings_view(ids@),
            joined@ == comma_joined(v.take(i as int)),
        decreases ids.len() - i,
    {
        let ghost before = joined@;
        if i > 0 {
            push_str(&mut joined, ",");
        }
        push_str(&mut joined, ids[i].as_str());
        proof {
            let t = v.take(i + 1);
            assert(t.drop_last() =~= v.take(i as int));
            if i == 0 {
                assert(joined@ =~= t[0]);
            } else {
                assert(joined@ =~= comma_joined(t.drop_last()) + ","@ + t.last());
            }
        }
        i = i + 1;
    }
    proof {
        assert(v.take(ids@.len() as int) =~= v);
    }
    let mut in_clause = "in.(".to_owned();
    push_str(&mut in_clause, joined.as_str());
    push_str(&mut in_clause, ")");
    let mut q: Vec<(String, String)> = Vec::new();
    q.push(("id".to_owned(), in_clause));
    q.push(("select".to_owned(), "*".to_owned()));
    proof {
        assert(string_pairs(q@) =~= seq![
            ("id"@, "in.("@ + comma_joined(v) + ")"@),
            ("select"@, "*"@),
        ]);
    }
    Some(q)
}

/// The query parameters of a tombstone update: `id=eq.{id}`.
pub fn tombstone_query(entity_id: &str) -> (r: Vec<(String, String)>)
    ensures
        string_pairs(r@) == seq![("id"@, eq_operand(entity_id@))],
{
    let mut value = "eq.".to_owned();
    push_str(&mut value, entity_id);
    let mut q: Vec<(String, String)> = Vec::new();
    q.push(("id".to_owned(), value));
    proof {
        assert(string_pairs(q@) =~= seq![("id"@, eq_operand(entity_id@))]);
    }
    q
}

/// The query parameter of an upsert: `on_conflict={target}`.
pub fn upsert_query(conflict_target: &str) -> (r: Vec<(String, String)>)
    ensures
        string_pairs(r@) == seq![("on_conflict"@, conflict_target@)],
{
    let mut q: Vec<(String, String)> = Vec::new();
    q.push(("on_conflict".to_owned(), conflict_target.to_owned()));
    proof {
        assert(string_pairs(q@) =~= seq![("on_conflict"@, conflict_target@)]);
    }
    q
}

/// The id of a record about to be upserted; a permanent push error without one.
pub fn upsert_entity_id(table: &str, record: &Record) -> (r: Result<String, PolyError>)
    ensures
        match record_id(record@) {
            Some(id) => r matches Ok(s) && s@ == id,
            None => r matches Err(PolyError::Push(PushError::Permanent { table: t, message: m })) && t@ == table@
                && m@ == "record missing 'id' field"@,
        },
{
    proof {
        reveal_strlit("id");
    }
    match record.get("id") {
        Some(FieldValue::Text(id)) => Ok(id.clone()),
        _ => Err(
            PolyError::Push(
                PushError::Permanent { table: table.to_owned(), message: "record missing 'id' field".to_owned() },
            ),
        ),
    }
}

/// A row passes a fetch's scope: its user-id column holds the user id (when one is given) and
/// every filter column holds its value, each as a string.
pub open spec fn row_matches_spec(
    row: Map<Seq<char>, FieldView>,
    user_id_column: Seq<char>,
    user_id: Option<Seq<char>>,
    eq: Option<Seq<(Seq<char>, Seq<char>)>>,
) -> bool {
    &&& (user_id matches Some(u) ==> row.contains_key(user_id_column) && row[user_id_column] == FieldView::Text(u))
    &&& (eq matches Some(f) ==> forall|i: int|
        0 <= i < f.len() ==> row.contains_key(#[trigger] f[i].0) && row[f[i].0] == FieldView::Text(f[i].1))
}

fn text_field_is(row: &Record, column: &str, value: &str) -> (r: bool)
    ensures
        r == (row@.contains_key(column@) && row@[column@] == FieldView::Text(value@)),
{
    match row.get(column) {
        Some(FieldValue::Text(s)) => crate::text::str_eq(s.as_str(), value),
        _ => false,
    }
}

/// Whether a stored row passes a fetch's user scope and equality filter (the in-memory
/// reader's selection).
pub fn row_matches(row: &Record, user_id_column: &str, user_id: Option<&str>, filter: Option<&RemoteFilter>) -> (r: bool)
    ensures
        r == row_matches_spec(
            row@,
            user_id_column@,
            match user_id {
                Some(u) => Some(u@),
                None => None,
            },
            match filter {
                Some(f) => Some(string_pairs(f.eq@)),
                None => None,
            },
        ),
{
    match user_id {
        Some(u) => {
            if !text_field_is(row, user_id_column, u) {
                return false;
            }
        },
        None => {},
    }
    match filter {
        Some(f) => {
            let ghost pairs = string_pairs(f.eq@);
            let mut i: usize = 0;
            while i < f.eq.len()
                invariant
                    i <= f.eq@.len(),
                    pairs == string_pairs(f.eq@),
                    filter == Some(f),
                    user_id matches Some(u) ==> row@.contains_key(user_id_column@) && row@[user_id_column@]
                        == FieldView::Text(u@),
                    forall|k: int| 0 <= k < i ==> row@.contains_key(#[trigger] pairs[k].0) && row@[pairs[k].0]
                        == FieldView::Text(pairs[k].1),
                decreases f.eq.len() - i,
            {
                proof {
                    assert(pairs[i as int] == (f.eq@[i as int].0@, f.eq@[i as int].1@));
                }
                if !text_field_is(row, f.eq[i].0.as_str(), f.eq[i].1.as_str()) {
                    assert(!(row@.contains_key(pairs[i as int].0) && row@[pairs[i as int].0] == FieldView::Text(pairs[i as int].1)));
                    return false;
                }
                i = i + 1;
            }
            true
        },
        None => true,
    }
}

} // verus!
