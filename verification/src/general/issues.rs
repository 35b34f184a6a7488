//! Format issues found while reading an input, and their two renderings:
//! the feedback handed to the AI model and the summary shown to the user.
use vstd::prelude::*;

use crate::records::opt_view;
use crate::text::{
    chars_of, decimal, decimal_string, lemma_text_lt_total, lemma_text_lt_transitive, owned, text_less,
    text_lt,
};

verus! {

broadcast use vstd::string::group_string_axioms;

#[derive(Clone, Copy, Debug, PartialEq, Eq, Structural)]
pub enum IssueLevel {
    Info,
    Warning,
    Error,
}

/// Something about the input worth reporting, where it was found.
pub struct FormatIssue {
    pub level: IssueLevel,
    pub code: String,
    pub message: String,
    pub file: Option<String>,
    pub sheet: Option<String>,
    pub row: Option<usize>,
}

pub struct FormatIssueV {
    pub level: IssueLevel,
    pub code: Seq<char>,
    pub message: Seq<char>,
    pub file: Option<Seq<char>>,
    pub sheet: Option<Seq<char>>,
    pub row: Option<nat>,
}

impl View for FormatIssue {
    type V = FormatIssueV;

    open spec fn view(&self) -> FormatIssueV {
        FormatIssueV {
            level: self.level,
            code: self.code@,
            message: self.message@,
            file: opt_view(self.file),
            sheet: opt_view(self.sheet),
            row: match self.row {
                Some(r) => Some(r as nat),
                None => None,
            },
        }
    }
}

pub open spec fn issue_views(v: Seq<FormatIssue>) -> Seq<FormatIssueV> {
    v.map_values(|i: FormatIssue| i@)
}

impl FormatIssue {
    pub fn duplicate(&self) -> (r: FormatIssue)
        ensures
            r@ == self@,
    {
        FormatIssue {
            level: self.level,
            code: self.code.clone(),
            message: self.message.clone(),
            file: crate::records::clone_opt(&self.file),
            sheet: crate::records::clone_opt(&self.sheet),
            row: self.row,
        }
    }
}

/// Debug name of a level.
pub open spec fn level_name(level: IssueLevel) -> Seq<char> {
    match level {
        IssueLevel::Info => "Info"@,
        IssueLevel::Warning => "Warning"@,
        IssueLevel::Error => "Error"@,
    }
}

pub fn level_text(level: IssueLevel) -> (out: String)
    ensures
        out@ == level_name(level),
{
    match level {
        IssueLevel::Info => owned("Info"),
        IssueLevel::Warning => owned("Warning"),
        IssueLevel::Error => owned("Error"),
    }
}

pub open spec fn or_text(o: Option<Seq<char>>, default: Seq<char>) -> Seq<char> {
    match o {
        Some(s) => s,
        None => default,
    }
}

fn or_text_exec(o: &Option<String>, default: &str) -> (out: String)
    ensures
        out@ == or_text(opt_view(*o), default@),
{
    match o {
        Some(s) => s.clone(),
        None => owned(default),
    }
}

/// One line of the feedback on an issue.
pub open spec fn feedback_line(i: FormatIssueV) -> Seq<char> {
    "- level="@ + level_name(i.level) + ", code="@ + i.code + ", file="@ + or_text(i.file, "unknown"@)
        + ", sheet="@ + or_text(i.sheet, "unknown"@) + ", row="@ + match i.row {
        Some(r) => decimal(r),
        None => "n/a"@,
    } + ", message="@ + i.message + "\n"@
}

pub open spec fn feedback_lines(issues: Seq<FormatIssueV>) -> Seq<char>
    decreases issues.len(),
{
    if issues.len() == 0 {
        Seq::empty()
    } else {
        feedback_lines(issues.drop_last()) + feedback_line(issues.last())
    }
}

/// The issues as the AI model is told about them.
pub open spec fn feedback_spec(issues: Seq<FormatIssueV>) -> Seq<char> {
    if issues.len() == 0 {
        "No pre-detected format issues."@
    } else {
        feedback_lines(issues)
    }
}

fn feedback_line_exec(issue: &FormatIssue) -> (out: String)
    ensures
        out@ == feedback_line(issue@),
{
    let row = match issue.row {
        Some(r) => decimal_string(r),
        None => owned("n/a"),
    };
    let mut out = owned("- level=");
    out.append(level_text(issue.level).as_str());
    out.append(", code=");
    out.append(issue.code.as_str());
    out.append(", file=");
    out.append(or_text_exec(&issue.file, "unknown").as_str());
    out.append(", sheet=");
    out.append(or_text_exec(&issue.sheet, "unknown").as_str());
    out.append(", row=");
    out.append(row.as_str());
    out.append(", message=");
    out.append(issue.message.as_str());
    out.append("\n");
    out
}

pub fn format_issues_feedback_for_ai(issues: &Vec<FormatIssue>) -> (out: String)
    ensures
        out@ == feedback_spec(issue_views(issues@)),
{
    if issues.len() == 0 {
        return owned("No pre-detected format issues.");
    }
    let mut out = String::new();
    let mut k: usize = 0;
    while k < issues.len()
        invariant
            k <= issues.len(),
            out@ == feedback_lines(issue_views(issues@).take(k as int)),
        decreases issues.len() - k,
    {
        let line = feedback_line_exec(&issues[k]);
        out.append(line.as_str());
        assert(issue_views(issues@).take(k + 1).drop_last() =~= issue_views(issues@).take(
            k as int,
        ));
        k = k + 1;
    }
    assert(issue_views(issues@).take(issues.len() as int) =~= issue_views(issues@));
    out
}

// ---------------------------------------------------------------------------
// The summary: a count line, then the distinct issue lines in sorted order
// ---------------------------------------------------------------------------

pub open spec fn strictly_sorted(s: Seq<Seq<char>>) -> bool {
    forall|i: int, j: int| 0 <= i < j < s.len() ==> text_lt(#[trigger] s[i], #[trigger] s[j])
}

/// Inserts `x` into a strictly sorted list unless it is already there.
fn insert_sorted(v: &mut Vec<String>, x: String)
    requires
        strictly_sorted(crate::text::views(old(v)@)),
    ensures
        strictly_sorted(crate::text::views(final(v)@)),
        crate::text::views(final(v)@).to_set() == crate::text::views(old(v)@).to_set().insert(x@),
{
    let ghost old_v = crate::text::views(v@);
    let mut p: usize = 0;
    while p < v.len() && text_less(v[p].as_str(), x.as_str())
        invariant
            p <= v.len(),
            crate::text::views(v@) == old_v,
            strictly_sorted(old_v),
            forall|k: int| 0 <= k < p ==> text_lt(#[trigger] old_v[k], x@),
        decreases v.len() - p,
    {
        p = p + 1;
    }
    if p < v.len() && crate::text::same(v[p].as_str(), x.as_str()) {
        assert(old_v.to_set().insert(x@) =~= old_v.to_set()) by {
            assert(old_v[p as int] == x@);
        }
        return;
    }
    proof {
        if p < old_v.len() {
            lemma_text_lt_total(old_v[p as int], x@);
        }
    }
    v.insert(p, x);
    let ghost nv = crate::text::views(v@);
    assert(nv =~= old_v.insert(p as int, x@));
    assert forall|i: int, j: int| 0 <= i < j < nv.len() implies text_lt(#[trigger] nv[i], #[trigger] nv[j]) by {
        if j < p {
        } else if j == p {
        } else if i < p {
            assert(nv[j] == old_v[j - 1]);
            if j - 1 > p {
                assert(text_lt(old_v[p as int], old_v[j - 1]));
                lemma_text_lt_transitive(x@, old_v[p as int], old_v[j - 1]);
            }
            lemma_text_lt_transitive(old_v[i], x@, old_v[j - 1]);
        } else if i == p {
            if j - 1 > p {
                assert(text_lt(old_v[p as int], old_v[j - 1]));
                lemma_text_lt_transitive(x@, old_v[p as int], old_v[j - 1]);
            }
        } else {
            assert(nv[i] == old_v[i - 1]);
            assert(nv[j] == old_v[j - 1]);
        }
    }
    assert forall|y: Seq<char>| #[trigger] nv.to_set().contains(y) == old_v.to_set().insert(x@).contains(y) by {
        if nv.contains(y) {
            let k = choose|k: int| 0 <= k < nv.len() && nv[k] == y;
            if k < p {
                assert(old_v[k] == y);
            } else if k > p {
                assert(old_v[k - 1] == y);
            }
        }
        if old_v.contains(y) {
            let k = choose|k: int| 0 <= k < old_v.len() && old_v[k] == y;
            if k < p {
                assert(nv[k] == y);
            } else {
                assert(nv[k + 1] == y);
            }
        }
        if y == x@ {
            assert(nv[p as int] == y);
        }
    }
    assert(nv.to_set() =~= old_v.to_set().insert(x@));
}

pub open spec fn part(label: Seq<char>, o: Option<Seq<char>>) -> Seq<char> {
    match o {
        Some(s) => label + s,
        None => Seq::empty(),
    }
}

/// The summary line of one issue.
pub open spec fn summary_line(i: FormatIssueV) -> Seq<char> {
    "- ["@ + level_name(i.level) + "] "@ + i.code + ":"@ + i.message + part(" file="@, i.file) + part(
        " sheet="@,
        i.sheet,
    ) + match i.row {
        Some(r) => " row="@ + decimal(r),
        None => Seq::empty(),
    }
}

fn summary_line_exec(issue: &FormatIssue) -> (out: String)
    ensures
        out@ == summary_line(issue@),
{
    let mut out = owned("- [");
    out.append(level_text(issue.level).as_str());
    out.append("] ");
    out.append(issue.code.as_str());
    out.append(":");
    out.append(issue.message.as_str());
    match &issue.file {
        Some(f) => {
            out.append(" file=");
            out.append(f.as_str());
        },
        None => {},
    }
    match &issue.sheet {
        Some(s) => {
            out.append(" sheet=");
            out.append(s.as_str());
        },
        None => {},
    }
    match issue.row {
        Some(r) => {
            out.append(" row=");
            out.append(decimal_string(r).as_str());
        },
        None => {},
    }
    out
}

pub open spec fn count_level(issues: Seq<FormatIssueV>, level: IssueLevel) -> nat
    decreases issues.len(),
{
    if issues.len() == 0 {
        0
    } else {
        count_level(issues.drop_last(), level) + if issues.last().level == level {
            1nat
        } else {
            0nat
        }
    }
}

proof fn lemma_count_level_bound(issues: Seq<FormatIssueV>, level: IssueLevel)
    ensures
        count_level(issues, level) <= issues.len(),
    decreases issues.len(),
{
    if issues.len() > 0 {
        lemma_count_level_bound(issues.drop_last(), level);
    }
}

/// The count line that heads the summary.
pub open spec fn count_line(issues: Seq<FormatIssueV>) -> Seq<char> {
    "i Format issues: "@ + decimal(issues.len()) + " total ("@ + decimal(
        count_level(issues, IssueLevel::Error),
    ) + " errors, "@ + decimal(count_level(issues, IssueLevel::Warning)) + " warnings)"@
}

/// The summary of `issues`: a single line when there are none; else the
/// count line followed by the distinct issue lines in increasing order.
pub fn format_issue_lines(issues: &Vec<FormatIssue>) -> (out: Vec<String>)
    ensures
        issues.len() == 0 ==> crate::text::views(out@) == seq!["i Format issues: none detected"@],
        issues.len() > 0 ==> {
            let lines = crate::text::views(out@);
            &&& lines.len() >= 1
            &&& lines[0] == count_line(issue_views(issues@))
            &&& strictly_sorted(lines.drop_first())
            &&& lines.drop_first().to_set() == issue_views(issues@).map_values(
                |i: FormatIssueV| summary_line(i),
            ).to_set()
        },
{
    if issues.len() == 0 {
        let mut v = Vec::new();
        v.push(owned("i Format issues: none detected"));
        assert(crate::text::views(v@) =~= seq!["i Format issues: none detected"@]);
        return v;
    }
    let ghost all = issue_views(issues@);
    let mut grouped: Vec<String> = Vec::new();
    let mut errors: usize = 0;
    let mut warnings: usize = 0;
    let mut k: usize = 0;
    while k < issues.len()
        invariant
            k <= issues.len(),
            all == issue_views(issues@),
            errors == count_level(all.take(k as int), IssueLevel::Error),
            warnings == count_level(all.take(k as int), IssueLevel::Warning),
            strictly_sorted(crate::text::views(grouped@)),
            crate::text::views(grouped@).to_set() == all.take(k as int).map_values(
                |i: FormatIssueV| summary_line(i),
            ).to_set(),
        decreases issues.len() - k,
    {
        assert(all.take(k + 1).drop_last() =~= all.take(k as int));
        proof {
            lemma_count_level_bound(all.take(k as int), IssueLevel::Error);
            lemma_count_level_bound(all.take(k as int), IssueLevel::Warning);
        }
        match issues[k].level {
            IssueLevel::Error => {
                errors = errors + 1;
            },
            IssueLevel::Warning => {
                warnings = warnings + 1;
            },
            IssueLevel::Info => {},
        }
        let line = summary_line_exec(&issues[k]);
        insert_sorted(&mut grouped, line);
        assert(all.take(k + 1).map_values(|i: FormatIssueV| summary_line(i)) =~= all.take(
            k as int,
        ).map_values(|i: FormatIssueV| summary_line(i)).push(summary_line(all[k as int])));
        proof {
            all.take(k as int).map_values(|i: FormatIssueV| summary_line(i)).lemma_push_to_set_commute(summary_line(all[k as int]));
        }
        k = k + 1;
    }
    assert(all.take(issues.len() as int) =~= all);
    let mut head = owned("i Format issues: ");
    head.append(decimal_string(issues.len()).as_str());
    head.append(" total (");
    head.append(decimal_string(errors).as_str());
    head.append(" errors, ");
    head.append(decimal_string(warnings).as_str());
    head.append(" warnings)");
    let mut lines: Vec<String> = Vec::new();
    lines.push(head);
    let mut j: usize = 0;
    while j < grouped.len()
        invariant
            j <= grouped.len(),
            lines.len() == j + 1,
            crate::text::views(lines@)[0] == count_line(all),
            forall|t: int| 0 <= t < j ==> #[trigger] lines@[t + 1]@ == grouped@[t]@,
        decreases grouped.len() - j,
    {
        lines.push(grouped[j].clone());
        j = j + 1;
    }
    assert(crate::text::views(lines@).drop_first() =~= crate::text::views(grouped@));
    lines
}

} // verus!
