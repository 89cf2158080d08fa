//! A summary of a git repository and the clean-up of its merged branches.
//!
//! The caller opens the repository and reads off a [`Snapshot`]. [`run`]
//! answers with the lines of the summary and the branches to delete; the
//! caller prints the former and deletes the latter.

use crate::indexed::{as_positions, lemma_picked, positions};
use crate::text::{decimal, decimal_text, same_text};
use vstd::prelude::*;
use vstd::string::*;

verus! {

/// What the repository says about its head.
#[derive(Debug)]
pub enum Head {
    /// The repository could not tell what its head is.
    Unknown,
    /// The head has no name that can be shown.
    Detached,
    /// The head is the branch of this name.
    Branch(String),
}

/// A [`Head`] as a plain value.
pub enum HeadView {
    Unknown,
    Detached,
    Branch(Seq<char>),
}

impl View for Head {
    type V = HeadView;

    open spec fn view(&self) -> HeadView {
        match self {
            Head::Unknown => HeadView::Unknown,
            Head::Detached => HeadView::Detached,
            Head::Branch(name) => HeadView::Branch(name@),
        }
    }
}

impl DeepView for Head {
    type V = HeadView;

    open spec fn deep_view(&self) -> HeadView {
        self@
    }
}

/// What the repository says about whether the current branch holds all the
/// commits of another branch.
#[derive(Clone, Copy, Debug, PartialEq, Eq, Structural)]
pub enum Ancestry {
    /// One of the two branch names does not lead to a commit.
    Unresolved,
    /// Both names lead to a commit, but the repository could not tell how
    /// the two commits are related.
    Unknown,
    /// Whether the commit of the current branch descends from the commit of
    /// the other branch.
    Known(bool),
}

/// A local branch of the repository.
#[derive(Debug)]
pub struct Branch {
    /// Its name; `None` where the name cannot be read as text.
    pub name: Option<String>,
    /// How its tip relates to the tip of the current branch.
    pub ancestry: Ancestry,
}

/// A [`Branch`] as a plain value.
pub struct BranchView {
    pub name: Option<Seq<char>>,
    pub ancestry: Ancestry,
}

impl View for Branch {
    type V = BranchView;

    open spec fn view(&self) -> BranchView {
        BranchView { name: self.name.deep_view(), ancestry: self.ancestry }
    }
}

impl DeepView for Branch {
    type V = BranchView;

    open spec fn deep_view(&self) -> BranchView {
        self@
    }
}

/// What was read off a repository.
#[derive(Debug)]
pub struct Snapshot {
    pub head: Head,
    /// The paths that differ in the working tree, `None` for a path that
    /// cannot be read as text; `None` as a whole where the status could not
    /// be read.
    pub changed: Option<Vec<Option<String>>>,
    /// The local branches.
    pub branches: Vec<Branch>,
}

/// What to do with a repository.
#[derive(Debug)]
pub struct Report {
    /// The lines to print, in order.
    pub lines: Vec<String>,
    /// The positions, among the branches of the snapshot, of those to delete.
    pub delete: Vec<usize>,
}

/// Whether a branch counts as merged: `None` where a name did not resolve,
/// otherwise whether the repository knows the current branch to descend from
/// it. What the repository could not tell counts as not merged.
pub open spec fn merged(ancestry: Ancestry) -> Option<bool> {
    match ancestry {
        Ancestry::Unresolved => None,
        Ancestry::Unknown => Some(false),
        Ancestry::Known(descends) => Some(descends),
    }
}

/// The name against which branches are compared to find the current one:
/// none where the head is unknown, the empty name for a detached head.
pub open spec fn current_name(head: HeadView) -> Option<Seq<char>> {
    match head {
        HeadView::Unknown => None,
        HeadView::Detached => Some(Seq::empty()),
        HeadView::Branch(name) => Some(name),
    }
}

/// Whether a branch is to be deleted: it has a name, it is not the current
/// branch, and it is merged.
pub open spec fn deletable(current: Seq<char>, branch: BranchView) -> bool {
    &&& branch.name matches Some(name) && name != current
    &&& merged(branch.ancestry) == Some(true)
}

/// For a position, the position itself where the branch there is to be
/// deleted.
pub open spec fn deletion_at(current: Seq<char>, branches: Seq<BranchView>) -> spec_fn(
    int,
) -> Option<int> {
    |i: int|
        if deletable(current, branches[i]) {
            Some(i)
        } else {
            None
        }
}

/// The branches to delete, by position and in order. With an unknown head
/// nothing is deleted.
pub open spec fn deletions(head: HeadView, branches: Seq<BranchView>) -> Seq<int> {
    match current_name(head) {
        Some(current) => positions(branches.len()).filter_map(deletion_at(current, branches)),
        None => Seq::empty(),
    }
}

/// The line that names the current branch; none where the head is unknown.
pub open spec fn branch_lines(head: HeadView) -> Seq<Seq<char>> {
    match head {
        HeadView::Unknown => Seq::empty(),
        HeadView::Detached => seq!["Current branch: "@ + "(detached)"@],
        HeadView::Branch(name) => seq!["Current branch: "@ + name],
    }
}

/// The line for a changed path; none for a path that cannot be shown.
pub open spec fn path_line() -> spec_fn(Option<Seq<char>>) -> Option<Seq<char>> {
    |path: Option<Seq<char>>|
        match path {
            Some(text) => Some("- "@ + text),
            None => None,
        }
}

/// The lines about the working tree: how many paths changed, counting those
/// that cannot be shown, then one line for each that can.
pub open spec fn change_lines(changed: Option<Seq<Option<Seq<char>>>>) -> Seq<Seq<char>> {
    match changed {
        Some(paths) => seq!["Changed files: "@ + decimal(paths.len())] + paths.filter_map(
            path_line(),
        ),
        None => Seq::empty(),
    }
}

/// The lines of the summary: the current branch, then the changes.
pub open spec fn summary(head: HeadView, changed: Option<Seq<Option<Seq<char>>>>) -> Seq<
    Seq<char>,
> {
    branch_lines(head) + change_lines(changed)
}

/// Whether a branch counts as merged into the current one.
pub fn is_merged(ancestry: Ancestry) -> (r: Option<bool>)
    ensures
        r == merged(ancestry),
{
    match ancestry {
        Ancestry::Unresolved => None,
        Ancestry::Unknown => Some(false),
        Ancestry::Known(descends) => Some(descends),
    }
}

/// Whether `branch` is to be deleted when the current branch is `current`.
pub fn should_delete(current: &str, branch: &Branch) -> (r: bool)
    ensures
        r == deletable(current@, branch@),
{
    match &branch.name {
        Some(name) => {
            if same_text(name.as_str(), current) {
                false
            } else {
                match is_merged(branch.ancestry) {
                    Some(true) => true,
                    _ => false,
                }
            }
        },
        None => false,
    }
}

/// Picks the branches to delete: every named branch other than the current
/// one that is merged into it. The current branch is never picked, and with
/// an unknown head no branch is.
pub fn clean_merged_branches(head: &Head, branches: &Vec<Branch>) -> (delete: Vec<usize>)
    ensures
        as_positions(delete@) == deletions(head@, branches.deep_view()),
{
    let mut delete: Vec<usize> = Vec::new();
    let current: &str = match head {
        Head::Unknown => {
            assert(as_positions(delete@) =~= Seq::empty());
            return delete;
        },
        Head::Detached => {
            proof {
                reveal_strlit("");
            }
            assert(""@ =~= Seq::<char>::empty());
            ""
        },
        Head::Branch(name) => name.as_str(),
    };
    let ghost each = deletion_at(current@, branches.deep_view());
    let ghost all = positions(branches@.len());
    let mut i: usize = 0;
    assert(as_positions(delete@) =~= all.take(0).filter_map(each));
    while i < branches.len()
        invariant
            i <= branches.len(),
            each == deletion_at(current@, branches.deep_view()),
            all == positions(branches@.len()),
            as_positions(delete@) == all.take(i as int).filter_map(each),
        decreases branches.len() - i,
    {
        proof {
            all.lemma_filter_map_take_succ(each, i as int);
            assert(branches.deep_view()[i as int] == branches[i as int]@);
        }
        if should_delete(current, &branches[i]) {
            let ghost before = as_positions(delete@);
            delete.push(i);
            assert(as_positions(delete@) =~= before + seq![i as int]);
        }
        i = i + 1;
    }
    assert(all.take(i as int) =~= all);
    delete
}

/// Writes the summary: the current branch, the number of changed paths, and
/// the changed paths.
pub fn summary_lines(head: &Head, changed: &Option<Vec<Option<String>>>) -> (lines: Vec<String>)
    ensures
        lines.deep_view() == summary(head@, changed.deep_view()),
{
    let mut lines: Vec<String> = Vec::new();
    assert(lines.deep_view() =~= Seq::empty());
    match head {
        Head::Unknown => {},
        Head::Detached => {
            let mut line = String::from_str("Current branch: ");
            line.append("(detached)");
            lines.push(line);
        },
        Head::Branch(name) => {
            let mut line = String::from_str("Current branch: ");
            line.append(name.as_str());
            lines.push(line);
        },
    }
    assert(lines.deep_view() =~= branch_lines(head@));
    match changed {
        Some(paths) => {
            let mut count = String::from_str("Changed files: ");
            count.append(decimal_text(paths.len() as u64).as_str());
            lines.push(count);
            let ghost shown = paths.deep_view();
            let ghost start = branch_lines(head@) + seq!["Changed files: "@ + decimal(shown.len())];
            assert(lines.deep_view() =~= start + shown.take(0).filter_map(path_line()));
            let mut i: usize = 0;
            while i < paths.len()
                invariant
                    i <= paths.len(),
                    shown == paths.deep_view(),
                    lines.deep_view() == start + shown.take(i as int).filter_map(path_line()),
                decreases paths.len() - i,
            {
                proof {
                    shown.lemma_filter_map_take_succ(path_line(), i as int);
                }
                match &paths[i] {
                    Some(path) => {
                        let ghost before = lines.deep_view();
                        let mut line = String::from_str("- ");
                        line.append(path.as_str());
                        lines.push(line);
                        assert(lines.deep_view() =~= before + seq![line@]);
                    },
                    None => {},
                }
                i = i + 1;
            }
            assert(shown.take(i as int) =~= shown);
            assert(lines.deep_view() =~= summary(head@, changed.deep_view()));
        },
        None => {
            assert(lines.deep_view() =~= summary(head@, changed.deep_view()));
        },
    }
    lines
}

/// Works out what to print and what to delete.
///
/// With `summary` the report holds the lines of the summary, with
/// `clean_branches` the branches to delete; without the one or the other,
/// that part of the report is empty. The caller prints before it deletes.
pub fn run(snapshot: &Snapshot, clean_branches: bool, summary: bool) -> (report: Report)
    ensures
        report.lines.deep_view() == if summary {
            self::summary(snapshot.head@, snapshot.changed.deep_view())
        } else {
            Seq::empty()
        },
        as_positions(report.delete@) == if clean_branches {
            deletions(snapshot.head@, snapshot.branches.deep_view())
        } else {
            Seq::empty()
        },
{
    let lines = if summary {
        summary_lines(&snapshot.head, &snapshot.changed)
    } else {
        let none: Vec<String> = Vec::new();
        assert(none.deep_view() =~= Seq::empty());
        none
    };
    let delete = if clean_branches {
        clean_merged_branches(&snapshot.head, &snapshot.branches)
    } else {
        let none: Vec<usize> = Vec::new();
        assert(as_positions(none@) =~= Seq::empty());
        none
    };
    Report { lines, delete }
}

/// The current branch is never deleted, whatever its ancestry, and every
/// other named branch from whose tip the current branch descends is deleted.
/// In full: a branch is deleted exactly when the head is known and the branch
/// is [`deletable`].
pub proof fn lemma_clean_up(head: HeadView, branches: Seq<BranchView>, i: int)
    requires
        0 <= i < branches.len(),
    ensures
        deletions(head, branches).contains(i) <==> (current_name(head) matches Some(current)
            && deletable(current, branches[i])),
        current_name(head) == branches[i].name ==> !deletions(head, branches).contains(i),
        (current_name(head) matches Some(current) && branches[i].name matches Some(name) && name
            != current && branches[i].ancestry == Ancestry::Known(true)) ==> deletions(
            head,
            branches,
        ).contains(i),
{
    match current_name(head) {
        Some(current) => {
            let each = deletion_at(current, branches);
            lemma_picked(branches.len(), each);
            let picked = positions(branches.len()).filter_map(each);
            if picked.contains(i) {
                let k = choose|k: int| 0 <= k < picked.len() && picked[k] == i;
                let from = choose|from: int|
                    0 <= from < branches.len() && #[trigger] each(from) == Some(picked[k]);
                assert(from == i);
            }
            if deletable(current, branches[i]) {
                assert(each(i) is Some);
            }
        },
        None => {},
    }
}

} // verus!
