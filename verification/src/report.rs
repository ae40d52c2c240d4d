//! What the command-line front end reports about an outcome: shortened
//! commit ids, the per-source table of an update, and the line that
//! announces a newly shadowed template.
use vstd::prelude::*;
use vstd::string::*;
use crate::error::{Error, message_of};
use crate::library::ShadowWarning;
use crate::source::UpdateStatus;
use crate::text::{char_count, substring, concat};

verus! {

/// At most the first twelve characters of a commit id.
pub open spec fn short(id: Seq<char>) -> Seq<char> {
    if id.len() <= 12 { id } else { id.take(12) }
}

/// Shortens a commit id for display (see [`short`]).
pub fn short_id(id: &str) -> (r: String)
    ensures
        r@ == short(id@),
{
    let n = char_count(id);
    if n <= 12 {
        String::from_str(id)
    } else {
        let r = substring(id, 0, 12);
        assert(r@ =~= id@.take(12));
        r
    }
}

/// One line of an update's report.
#[derive(Debug)]
pub struct UpdateRow {
    pub source: String,
    pub status: String,
    pub detail: Option<String>,
}

/// The status word, the detail and whether the outcome is a hard failure,
/// for one source's update outcome: up to date; fast-forwarded (the short
/// ids `from..to`); a diverged source is an error and a hard failure; any
/// other error (a source that can't be updated, say) is reported as
/// not updatable, with its message.
pub open spec fn row_for(result: Result<UpdateStatus, Error>) -> (Seq<char>, Option<Seq<char>>, bool) {
    match result {
        Ok(UpdateStatus::UpToDate) => ("up-to-date"@, None, false),
        Ok(UpdateStatus::FastForwarded { from, to }) => ("fast-forwarded"@, Some(short(from@) + ".."@ + short(to@)), false),
        Err(e) => match e {
            Error::NotFastForward { .. } => ("error"@, Some(message_of(e)), true),
            _ => ("not-updatable"@, Some(message_of(e)), false),
        },
    }
}

pub open spec fn row_view(row: UpdateRow) -> (Seq<char>, Seq<char>, Option<Seq<char>>) {
    (row.source@, row.status@, match row.detail { Some(d) => Some(d@), None => None })
}

/// The report line for one source's update outcome, and whether it is a
/// hard failure (see [`row_for`]).
pub fn update_row(name: &str, result: &Result<UpdateStatus, Error>) -> (r: (UpdateRow, bool))
    ensures
        row_view(r.0) == (name@, row_for(*result).0, row_for(*result).1),
        r.1 == row_for(*result).2,
{
    let source = String::from_str(name);
    match result {
        Ok(UpdateStatus::UpToDate) => (UpdateRow { source, status: String::from_str("up-to-date"), detail: None }, false),
        Ok(UpdateStatus::FastForwarded { from, to }) => {
            let a = short_id(from.as_str());
            let mut d = concat(a.as_str(), "..");
            let b = short_id(to.as_str());
            d.append(b.as_str());
            (UpdateRow { source, status: String::from_str("fast-forwarded"), detail: Some(d) }, false)
        },
        Err(e) => {
            let hard = match e {
                Error::NotFastForward { .. } => true,
                _ => false,
            };
            let status = if hard { String::from_str("error") } else { String::from_str("not-updatable") };
            (UpdateRow { source, status, detail: Some(e.message()) }, hard)
        },
    }
}

/// The report of an update: one row per source outcome, in order, and
/// whether any of them is a hard failure.
pub fn update_report(results: &Vec<(String, Result<UpdateStatus, Error>)>) -> (r: (Vec<UpdateRow>, bool))
    ensures
        r.0.len() == results.len(),
        forall|i: int| 0 <= i < results.len() ==> row_view(#[trigger] r.0@[i]) == (
            results@[i].0@,
            row_for(results@[i].1).0,
            row_for(results@[i].1).1,
        ),
        r.1 == exists|i: int| 0 <= i < results.len() && #[trigger] row_for(results@[i].1).2,
{
    let mut rows: Vec<UpdateRow> = Vec::new();
    let mut hard = false;
    let mut i: usize = 0;
    while i < results.len()
        invariant
            i <= results.len(),
            rows.len() == i,
            forall|k: int| 0 <= k < i ==> row_view(#[trigger] rows@[k]) == (
                results@[k].0@,
                row_for(results@[k].1).0,
                row_for(results@[k].1).1,
            ),
            hard == exists|k: int| 0 <= k < i && #[trigger] row_for(results@[k].1).2,
        decreases results.len() - i,
    {
        let (row, h) = update_row(results[i].0.as_str(), &results[i].1);
        rows.push(row);
        proof {
            if h {
                assert(row_for(results@[i as int].1).2);
            }
        }
        hard = hard || h;
        i = i + 1;
    }
    (rows, hard)
}

/// The line announcing that `w.winner` now shadows template `w.name` of
/// `w.loser`.
pub open spec fn shadow_text(w: ShadowWarning) -> Seq<char> {
    "'"@ + w.name@ + "' is now shadowed by '"@ + w.winner@ + "' (also defined in '"@ + w.loser@ + "')"@
}

/// Formats a shadow warning for the user (see [`shadow_text`]).
pub fn shadow_line(w: &ShadowWarning) -> (r: String)
    ensures
        r@ == shadow_text(*w),
{
    let mut m = concat("'", w.name.as_str());
    m.append("' is now shadowed by '");
    m.append(w.winner.as_str());
    m.append("' (also defined in '");
    m.append(w.loser.as_str());
    m.append("')");
    m
}

} // verus!
