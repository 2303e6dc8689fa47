//! The merge-or-create policy for a generated file: a new file takes the new
//! content; an existing one keeps its content, followed by a timestamped
//! separator and the new content. A dry run decides the same and writes nothing.
use vstd::prelude::*;

use crate::text::{opt_str_view, opt_view};

verus! {

/// What writing new content to a target does, decided by whether it exists.
#[derive(Clone, Copy, PartialEq, Eq, Structural, Debug)]
pub enum MergeDecision {
    /// The target does not exist: the new content becomes the whole file.
    Create,
    /// The target exists: the new content goes after its content and a separator.
    AppendWithSeparator,
}

/// The decision for a target that exists or not.
pub open spec fn decision_of(target_exists: bool) -> MergeDecision {
    if target_exists {
        MergeDecision::AppendWithSeparator
    } else {
        MergeDecision::Create
    }
}

/// The separator that goes between old and new content, with its timestamp.
pub open spec fn separator_of(timestamp: Seq<char>) -> Seq<char> {
    "\n\n---- Added "@ + timestamp + " ----\n\n"@
}

/// The content of the target after a write: `new` alone when there was no
/// target, else the old content, the separator and `new`.
pub open spec fn merged_of(existing: Option<Seq<char>>, new: Seq<char>, timestamp: Seq<char>) -> Seq<char> {
    match existing {
        Some(e) => e + separator_of(timestamp) + new,
        None => new,
    }
}

/// What to write to a target: the decision, and the content to write, which
/// a dry run leaves out.
pub struct WritePlan {
    pub decision: MergeDecision,
    pub contents: Option<String>,
}

/// The plan, as a decision and the content to write, for a target whose
/// current content is `existing` (`None` where it does not exist).
pub open spec fn plan_of(existing: Option<Seq<char>>, new: Seq<char>, timestamp: Seq<char>, dry_run: bool) -> (
    MergeDecision,
    Option<Seq<char>>,
) {
    (decision_of(existing is Some), if dry_run {
        None
    } else {
        Some(merged_of(existing, new, timestamp))
    })
}

/// The content of the target once a plan that writes `contents` (or nothing) is carried out.
pub open spec fn file_after(existing: Option<Seq<char>>, contents: Option<Seq<char>>) -> Option<Seq<char>> {
    match contents {
        Some(c) => Some(c),
        None => existing,
    }
}

pub fn decide(target_exists: bool) -> (r: MergeDecision)
    ensures
        r == decision_of(target_exists),
{
    if target_exists {
        MergeDecision::AppendWithSeparator
    } else {
        MergeDecision::Create
    }
}

/// `\n\n---- Added {timestamp} ----\n\n`.
pub fn separator(timestamp: &str) -> (r: String)
    ensures
        r@ == separator_of(timestamp@),
{
    let mut s = String::from_str("\n\n---- Added ");
    s.append(timestamp);
    s.append(" ----\n\n");
    s
}

/// The content of the target after writing `new` to it.
pub fn merged_content(existing: Option<&str>, new: &str, timestamp: &str) -> (r: String)
    ensures
        r@ == merged_of(opt_str_view(existing), new@, timestamp@),
{
    match existing {
        Some(e) => {
            let mut s = String::from_str(e);
            let sep = separator(timestamp);
            s.append(sep.as_str());
            s.append(new);
            s
        },
        None => String::from_str(new),
    }
}

/// The plan for writing `new` to a target whose content is `existing`
/// (`None` where it does not exist), with `timestamp` in the separator.
pub fn plan_write(existing: Option<&str>, new: &str, timestamp: &str, dry_run: bool) -> (r: WritePlan)
    ensures
        (r.decision, opt_view(r.contents)) == plan_of(opt_str_view(existing), new@, timestamp@, dry_run),
{
    let decision = decide(existing.is_some());
    if dry_run {
        WritePlan { decision, contents: None }
    } else {
        WritePlan { decision, contents: Some(merged_content(existing, new, timestamp)) }
    }
}

/// Relies on chrono's `Local::now` and its `%Y%m%dT%H%M%S` format: the local time now.
#[verifier::external_body]
fn timestamp_now() -> (r: String) {
    chrono::Local::now().format("%Y%m%dT%H%M%S").to_string()
}

/// As `plan_write`, with the local time now in the separator.
pub fn plan_write_now(existing: Option<&str>, new: &str, dry_run: bool) -> (r: WritePlan)
    ensures
        r.decision == decision_of(existing is Some),
        dry_run ==> r.contents is None,
        !dry_run ==> exists|t: Seq<char>|
            opt_view(r.contents) == Some(merged_of(opt_str_view(existing), new@, t)),
{
    let ts = timestamp_now();
    let r = plan_write(existing, new, ts.as_str(), dry_run);
    assert(!dry_run ==> opt_view(r.contents) == Some(merged_of(opt_str_view(existing), new@, ts@)));
    r
}

/// A new target ends up holding exactly the new content.
pub proof fn lemma_create_is_exact(new: Seq<char>, timestamp: Seq<char>)
    ensures
        plan_of(None, new, timestamp, false).0 == MergeDecision::Create,
        file_after(None, plan_of(None, new, timestamp, false).1) == Some(new),
{
}

/// An existing target ends up holding its old content unchanged, then the
/// separator, then the new content.
pub proof fn lemma_append_keeps_existing(existing: Seq<char>, new: Seq<char>, timestamp: Seq<char>)
    ensures
        plan_of(Some(existing), new, timestamp, false).0 == MergeDecision::AppendWithSeparator,
        file_after(Some(existing), plan_of(Some(existing), new, timestamp, false).1) == Some(
            existing + separator_of(timestamp) + new,
        ),
        (existing + separator_of(timestamp) + new).subrange(0, existing.len() as int) == existing,
{
    assert((existing + separator_of(timestamp) + new).subrange(0, existing.len() as int) =~= existing);
}

/// A dry run writes nothing, so the target stays as it was, and it decides
/// as a real run would.
pub proof fn lemma_dry_run_changes_nothing(existing: Option<Seq<char>>, new: Seq<char>, timestamp: Seq<char>)
    ensures
        plan_of(existing, new, timestamp, true).1 is None,
        file_after(existing, plan_of(existing, new, timestamp, true).1) == existing,
        plan_of(existing, new, timestamp, true).0 == plan_of(existing, new, timestamp, false).0,
{
}

} // verus!
