//! Run a fallible operation and report its failure with the whole cause chain.

use vstd::prelude::*;
use crate::text::push_str;

verus! {

/// The report lines of a failure: `{context}: {error}`, then `  caused by: {cause}` for each
/// cause, outermost first.
pub open spec fn report_lines(context: Seq<char>, error: Seq<char>, causes: Seq<Seq<char>>) -> Seq<Seq<char>> {
    seq![context + ": "@ + error] + causes.map_values(|c: Seq<char>| "  caused by: "@ + c)
}

/// The views of a list of strings.
pub open spec fn texts(v: Seq<String>) -> Seq<Seq<char>> {
    v.map_values(|s: String| s@)
}

/// The lines logged for a failure with message `error` and cause messages `causes`.
pub fn error_report(context: &str, error: &str, causes: &[String]) -> (r: Vec<String>)
    ensures
        texts(r@) == report_lines(context@, error@, texts(causes@)),
{
    let mut out: Vec<String> = Vec::new();
    let mut first = context.to_owned();
    push_str(&mut first, ": ");
    push_str(&mut first, error);
    out.push(first);
    let ghost head = texts(out@);
    let mut i: usize = 0;
    while i < causes.len()
        invariant
            i <= causes@.len(),
            head == seq![context@ + ": "@ + error@],
            texts(out@) == head + texts(causes@).take(i as int).map_values(|c: Seq<char>| "  caused by: "@ + c),
        decreases causes.len() - i,
    {
        let mut line = "  caused by: ".to_owned();
        push_str(&mut line, causes[i].as_str());
        let ghost before = out@;
        out.push(line);
        proof {
            assert(texts(out@) =~= texts(before).push(line@));
            assert(texts(causes@).take(i + 1).map_values(|c: Seq<char>| "  caused by: "@ + c)
                =~= texts(causes@).take(i as int).map_values(|c: Seq<char>| "  caused by: "@ + c).push("  caused by: "@ + causes@[i as int]@));
        }
        i = i + 1;
    }
    proof {
        assert(texts(causes@).take(causes@.len() as int) =~= texts(causes@));
    }
    out
}

/// Run `f`; on failure hand the context and the error to `report` (which logs it) before
/// returning the error unchanged. Success passes through.
pub fn catch<T, E, F, G>(context: &str, f: F, report: G) -> (r: Result<T, E>)
    where
        F: FnOnce() -> Result<T, E>,
        G: FnOnce(&str, &E),
    requires
        f.requires(()),
        forall|e: &E| #[trigger] report.requires((context, e)),
    ensures
        f.ensures((), r),
{
    let result = f();
    match result {
        Ok(value) => Ok(value),
        Err(error) => {
            report(context, &error);
            Err(error)
        },
    }
}

} // verus!
