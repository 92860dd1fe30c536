//! What Git says about the working directory.

use crate::text::{after_prefix, chars_of, has_prefix, lines, split_lines, split_words, starts_with, texts, words};
use vstd::prelude::*;
use vstd::string::*;

verus! {

#[derive(Debug)]
pub struct GitSummary {
    pub branch: String,
    pub staged: usize,
    pub modified: usize,
    pub untracked: usize,
    pub deleted: usize,
}

/// The state of a working directory; no Git summary outside a repository.
#[derive(Debug)]
pub struct WorkspaceInfo {
    pub cwd: String,
    pub git: Option<GitSummary>,
}

/// The lines added and removed in a working directory.
#[derive(Debug, Clone, Copy, PartialEq, Eq, Structural)]
pub struct DiffStat {
    pub added: usize,
    pub removed: usize,
}

/// The contents of a summary.
pub ghost struct Summary {
    pub branch: Seq<char>,
    pub staged: nat,
    pub modified: nat,
    pub untracked: nat,
    pub deleted: nat,
}

impl View for GitSummary {
    type V = Summary;

    open spec fn view(&self) -> Summary {
        Summary {
            branch: self.branch@,
            staged: self.staged as nat,
            modified: self.modified as nat,
            untracked: self.untracked as nat,
            deleted: self.deleted as nat,
        }
    }
}

/// A summary of nothing.
pub open spec fn no_changes() -> Summary {
    Summary { branch: Seq::empty(), staged: 0, modified: 0, untracked: 0, deleted: 0 }
}

/// The character of `s` at `i`, a dot beyond the end.
pub open spec fn status_char(s: Seq<char>, i: int) -> char {
    if i < s.len() {
        s[i]
    } else {
        '.'
    }
}

/// One if `b`, else none.
pub open spec fn one_if(b: bool) -> nat {
    if b {
        1
    } else {
        0
    }
}

/// The effect of one line of the report: it names the branch, an untracked
/// file, or a tracked file with its state in the index and in the working
/// tree; any other line says nothing.
pub open spec fn with_line(s: Summary, line: Seq<char>) -> Summary {
    if has_prefix(line, "# branch.head "@) {
        Summary {
            branch: line.subrange("# branch.head "@.len() as int, line.len() as int),
            ..s
        }
    } else if has_prefix(line, "? "@) {
        Summary { untracked: s.untracked + 1, ..s }
    } else if (has_prefix(line, "1 "@) || has_prefix(line, "2 "@)) && words(line).len() > 1 {
        let xy = words(line)[1];
        Summary {
            staged: s.staged + one_if(status_char(xy, 0) != '.'),
            modified: s.modified + one_if(status_char(xy, 1) != '.'),
            deleted: s.deleted + one_if(status_char(xy, 1) == 'D'),
            ..s
        }
    } else {
        s
    }
}

/// What the lines of a report say together.
pub open spec fn summary_of(lines: Seq<Seq<char>>) -> Summary
    decreases lines.len(),
{
    if lines.len() == 0 {
        no_changes()
    } else {
        with_line(summary_of(lines.drop_last()), lines.last())
    }
}

/// No count exceeds the number of lines.
proof fn lemma_counts(lines: Seq<Seq<char>>)
    ensures
        summary_of(lines).staged <= lines.len(),
        summary_of(lines).modified <= lines.len(),
        summary_of(lines).untracked <= lines.len(),
        summary_of(lines).deleted <= summary_of(lines).modified,
    decreases lines.len(),
{
    if lines.len() > 0 {
        lemma_counts(lines.drop_last());
    }
}

/// Reads the report of `git status --porcelain=v2 --branch`.
pub fn parse_porcelain_v2(text: &str) -> (r: GitSummary)
    ensures
        r@ == summary_of(lines(text@)),
        r.deleted <= r.modified,
{
    let all = split_lines(text);
    let ghost ls = lines(text@);
    let mut s = GitSummary {
        branch: String::new(),
        staged: 0,
        modified: 0,
        untracked: 0,
        deleted: 0,
    };
    let mut i: usize = 0;
    assert(ls.subrange(0, 0) =~= Seq::empty());
    assert(texts(all@).len() == all.len());
    while i < all.len()
        invariant
            i <= all.len(),
            texts(all@) == ls,
            ls.len() == all.len(),
            s@ == summary_of(ls.subrange(0, i as int)),
        decreases all.len() - i,
    {
        proof {
            lemma_counts(ls.subrange(0, i as int));
            assert(ls.subrange(0, i + 1).drop_last() =~= ls.subrange(0, i as int));
            assert(ls.subrange(0, i + 1).last() == all[i as int]@);
        }
        let line = all[i].as_str();
        i += 1;
        if let Some(branch) = after_prefix(line, "# branch.head ") {
            s.branch = branch;
            continue;
        }
        if starts_with(line, "? ") {
            s.untracked += 1;
            continue;
        }
        if !(starts_with(line, "1 ") || starts_with(line, "2 ")) {
            continue;
        }
        let parts = split_words(line);
        assert(texts(parts@).len() == parts.len());
        if parts.len() <= 1 {
            continue;
        }
        let xy = chars_of(parts[1].as_str());
        assert(xy@ == words(line@)[1]);
        let x = if xy.len() > 0 {
            xy[0]
        } else {
            '.'
        };
        let y = if xy.len() > 1 {
            xy[1]
        } else {
            '.'
        };
        if x != '.' {
            s.staged += 1;
        }
        if y != '.' {
            s.modified += 1;
        }
        if y == 'D' {
            s.deleted += 1;
        }
    }
    proof {
        assert(ls.subrange(0, i as int) =~= ls);
        lemma_counts(ls);
    }
    s
}

/// The state of a working directory, given what Git reported; `None` where
/// Git failed.
pub fn collect(cwd: &str, report: Option<&str>) -> (r: WorkspaceInfo)
    ensures
        r.cwd@ == cwd@,
        r.git is Some <==> report is Some,
        report is Some ==> r.git->0@ == summary_of(lines(report->0@)),
{
    WorkspaceInfo {
        cwd: cwd.to_owned(),
        git: match report {
            Some(text) => Some(parse_porcelain_v2(text)),
            None => None,
        },
    }
}

} // verus!
