//! Removing from the picker: what is asked before, and what is said after.

use vstd::prelude::*;
use vstd::string::*;

use crate::commands::remove::{blocker, removal_blocker, RemoveOptions};
use crate::git::{Merged, Repo, RepoModel, Worktree, WorktreeModel};
use crate::path::lossy;
use crate::tui::draw::{from_bottom, lemma_drawable_add};
use crate::tui::keys::Reply;
use crate::tui::picker::{item_models, Item, ItemModel, Picker, PickerModel};
use crate::tui::screen::{drawable, Canvas, OpModel, Size};

verus! {

/// The row a deletion landed on, and what removing it would cost.
#[derive(Debug)]
pub struct Subject {
    pub worktree: Worktree,
    pub label: String,
    pub dirty: bool,
    pub merged: bool,
}

/// A subject as contracts speak of it.
pub struct SubjectModel {
    pub worktree: WorktreeModel,
    pub label: Seq<char>,
    pub dirty: bool,
    pub merged: bool,
}

impl View for Subject {
    type V = SubjectModel;

    open spec fn view(&self) -> SubjectModel {
        SubjectModel {
            worktree: self.worktree@,
            label: self.label@,
            dirty: self.dirty,
            merged: self.merged,
        }
    }
}

/// Whether a deletion can be offered at all, and on what terms.
#[derive(Debug)]
pub enum Pending {
    /// git will not remove this one; the dialog would only ask a question with
    /// no good answer, so the reason goes to the status line instead.
    Blocked(String),
    Ask(Subject),
}

/// A pending deletion as contracts speak of it.
pub enum PendingModel {
    Blocked(Seq<char>),
    Ask(SubjectModel),
}

impl View for Pending {
    type V = PendingModel;

    open spec fn view(&self) -> PendingModel {
        match *self {
            Pending::Blocked(line) => PendingModel::Blocked(line@),
            Pending::Ask(subject) => PendingModel::Ask(subject@),
        }
    }
}

/// What a deletion of the selected row comes to. `dirty` and `merged` are what
/// git answered about it, and `None` where it could not answer.
pub open spec fn pending_on(
    repo: RepoModel,
    picker: PickerModel,
    dirty: Option<bool>,
    merged: Option<Merged>,
) -> Option<PendingModel> {
    match picker.selected() {
        None => None,
        Some(item) => Some(
            match blocker(repo, item.worktree, true, None) {
                Some(reason) => PendingModel::Blocked(
                    "cannot remove `"@ + item.name + "`: "@ + reason,
                ),
                None => PendingModel::Ask(
                    SubjectModel {
                        worktree: item.worktree,
                        label: item.name,
                        dirty: dirty == Some(true),
                        merged: item.worktree.branch is Some && merged is Some && merged != Some(
                            Merged::No,
                        ),
                    },
                ),
            },
        ),
    }
}

/// The worktree git has to be asked about before the dialog can open: the
/// selected one, unless there is none or it is refused anyway.
pub fn pending_worktree(repo: &Repo, picker: &Picker) -> (r: Option<Worktree>)
    ensures
        match r {
            Some(worktree) => picker@.selected() is Some && worktree@
                == picker@.selected()->0.worktree && blocker(repo@, worktree@, true, None) is None,
            None => picker@.selected() is None || blocker(
                repo@,
                picker@.selected()->0.worktree,
                true,
                None,
            ) is Some,
        },
{
    match picker.selected() {
        Some(item) => if removal_blocker(repo, &item.worktree, true, None).is_none() {
            Some(item.worktree.clone())
        } else {
            None
        },
        None => None,
    }
}

/// Works out what the dialog should say, without drawing it.
pub fn pending(repo: &Repo, picker: &Picker, dirty: Option<bool>, merged: Option<Merged>) -> (r:
    Option<Pending>)
    ensures
        match r {
            Some(p) => pending_on(repo@, picker@, dirty, merged) == Some(p@),
            None => pending_on(repo@, picker@, dirty, merged) is None,
        },
{
    let item = match picker.selected() {
        Some(item) => item,
        None => return None,
    };
    let worktree = item.worktree.clone();
    let label = item.name.clone();

    if let Some(reason) = removal_blocker(repo, &worktree, true, None) {
        return Some(
            Pending::Blocked(
                "cannot remove `".to_string().concat(label.as_str()).concat("`: ").concat(
                    reason.as_str(),
                ),
            ),
        );
    }
    let dirty = dirty.unwrap_or(false);
    let merged = match merged {
        Some(m) => worktree.branch.is_some() && m != Merged::No,
        None => false,
    };
    Some(Pending::Ask(Subject { worktree, label, dirty, merged }))
}

/// What pressing the delete key leads to.
#[derive(Debug)]
pub enum DeleteStep {
    /// Back to the list, with this line in the status area.
    Close(Option<String>),
    /// Ask first.
    Confirm(Subject),
}

/// Decides whether a deletion gets as far as the confirmation dialog.
pub fn delete_selected(pending: Option<Pending>) -> (r: DeleteStep)
    ensures
        match pending {
            None => r matches DeleteStep::Close(line) && line is None,
            Some(Pending::Blocked(why)) => r matches DeleteStep::Close(Some(line)) && line@
                == why@,
            Some(Pending::Ask(subject)) => r matches DeleteStep::Confirm(s) && s@ == subject@,
        },
{
    match pending {
        None => DeleteStep::Close(None),
        Some(Pending::Blocked(line)) => DeleteStep::Close(Some(line)),
        Some(Pending::Ask(subject)) => DeleteStep::Confirm(subject),
    }
}

/// The options a removal from the picker runs with.
pub open spec fn picked_options(with_branch: bool) -> RemoveOptions {
    RemoveOptions { force: true, with_branch, quiet: true, no_hooks: false }
}

/// What an answer to the dialog sets going: the line to show while git works
/// and the options of the removal. `None` goes back to the list.
pub fn confirmed(subject: &Subject, reply: Reply) -> (r: Option<(String, RemoveOptions)>)
    ensures
        match reply {
            Reply::Cancel => r is None,
            Reply::Remove { with_branch } => r matches Some(go) && go.0@ == "Removing "@ + lossy(
                subject@.worktree.path,
            ) + "..."@ && go.1 == picked_options(with_branch),
        },
{
    match reply {
        Reply::Cancel => None,
        Reply::Remove { with_branch } => {
            // Removing can take a moment. Say so before starting, or the
            // dialog just sits there after the answer and invites a second,
            // harder press.
            let line = "Removing ".to_string().concat(
                subject.worktree.path.display().as_str(),
            ).concat("...");
            let opts = RemoveOptions {
                // The dialog already spelled out the risk, so honour the answer.
                force: true,
                with_branch,
                quiet: true,
                // Deleting from the picker is still deleting: a hook that
                // tears down containers or caches has to run whichever way it
                // was asked for.
                no_hooks: false,
            };
            Some((line, opts))
        },
    }
}

/// The list once other rows have replaced the old ones.
pub open spec fn reloaded(picker: PickerModel, items: Seq<ItemModel>) -> PickerModel {
    PickerModel { items, ..picker }.clamped()
}

/// Takes in how a confirmed removal went: the rows that are left, or why it
/// failed. Returns the status line.
pub fn remove_picked(
    picker: &mut Picker,
    subject: &Subject,
    with_branch: bool,
    outcome: Result<Vec<Item>, String>,
) -> (r: String)
    ensures
        match outcome {
            Ok(items) => final(picker)@ == reloaded(old(picker)@, item_models(items@)) && r@
                == "removed `"@ + subject@.label + "`"@ + (if with_branch {
                " and its branch"@
            } else {
                ""@
            }),
            Err(why) => final(picker)@ == old(picker)@ && r@ == "failed to remove `"@
                + subject@.label + "`: "@ + why@,
        },
{
    match outcome {
        Ok(items) => {
            picker.items = items;
            picker.clamp();
            let extra = if with_branch {
                " and its branch"
            } else {
                ""
            };
            "removed `".to_string().concat(subject.label.as_str()).concat("`").concat(extra)
        },
        Err(why) => "failed to remove `".to_string().concat(subject.label.as_str()).concat(
            "`: ",
        ).concat(why.as_str()),
    }
}

/// The key line under the dialog.
pub open spec fn keys_line(has_branch: bool) -> Seq<char> {
    if has_branch {
        "[y] remove worktree   [b] remove worktree and branch   [n] cancel"@
    } else {
        "[y] remove worktree   [n] cancel"@
    }
}

/// The key line under the dialog. Without a branch there is nothing for `b` to
/// remove, so offering it would be a key that does nothing.
pub fn confirm_keys(has_branch: bool) -> (r: &'static str)
    ensures
        r@ == keys_line(has_branch),
{
    if has_branch {
        "[y] remove worktree   [b] remove worktree and branch   [n] cancel"
    } else {
        "[y] remove worktree   [n] cancel"
    }
}

/// What is said about the branch of a worktree.
pub open spec fn branch_line(branch: Seq<char>, merged: bool) -> Seq<char> {
    "  branch `"@ + branch + "` ("@ + (if merged {
        "merged"@
    } else {
        "NOT merged"@
    }) + ")"@
}

/// The confirmation dialog.
pub open spec fn dialog_ops(worktree: WorktreeModel, dirty: bool, merged: bool, rows: u16) -> Seq<
    OpModel,
> {
    let question = seq![
        OpModel::Clear,
        OpModel::MoveTo(0, 0),
        OpModel::Print("Remove this worktree?"@),
        OpModel::MoveTo(0, 2),
        OpModel::Print("  "@ + lossy(worktree.path)),
    ];
    let warning = if dirty {
        seq![
            OpModel::MoveTo(0, 4),
            OpModel::Print("  ! uncommitted changes will be lost"@),
        ]
    } else {
        Seq::empty()
    };
    let state = match worktree.branch {
        Some(branch) => seq![
            OpModel::MoveTo(
                0,
                if dirty {
                    5
                } else {
                    4
                },
            ),
            OpModel::Print(branch_line(branch, merged)),
        ],
        None => Seq::empty(),
    };
    question + warning + state + seq![
        OpModel::MoveTo(0, from_bottom(rows, 1)),
        OpModel::Print(keys_line(worktree.branch is Some)),
    ]
}

/// Draws the confirmation dialog.
pub fn draw_confirm(out: &mut Canvas, worktree: &Worktree, dirty: bool, merged: bool, size: Size)
    ensures
        final(out)@ == old(out)@ + dialog_ops(worktree@, dirty, merged, size.rows),
        drawable(old(out)@) ==> drawable(final(out)@),
{
    out.clear();
    out.move_to(0, 0);
    out.print("Remove this worktree?");
    out.move_to(0, 2);
    out.print("  ".to_string().concat(worktree.path.display().as_str()).as_str());

    let mut row: u16 = 4;
    if dirty {
        out.move_to(0, row);
        out.print("  ! uncommitted changes will be lost");
        row += 1;
    }
    if let Some(branch) = &worktree.branch {
        let state = if merged {
            "merged"
        } else {
            "NOT merged"
        };
        out.move_to(0, row);
        out.print(
            "  branch `".to_string().concat(branch.as_str()).concat("` (").concat(state).concat(
                ")",
            ).as_str(),
        );
    }
    out.move_to(0, size.rows.saturating_sub(1));
    out.print(confirm_keys(worktree.branch.is_some()));
    proof {
        let ops = dialog_ops(worktree@, dirty, merged, size.rows);
        assert(out@ =~= old(out)@ + ops);
        assert(drawable(ops));
        lemma_drawable_add(old(out)@, ops);
    }
}

/// A cleared screen that says one thing.
pub open spec fn working_ops(what: Seq<char>, rows: u16) -> Seq<OpModel> {
    seq![
        OpModel::Clear,
        OpModel::MoveTo(0, 0),
        OpModel::Print(what),
        OpModel::MoveTo(0, from_bottom(rows, 1)),
    ]
}

/// Clears the screen and states what is happening, for work that blocks.
pub fn working(out: &mut Canvas, what: &str, size: Size)
    ensures
        final(out)@ == old(out)@ + working_ops(what@, size.rows),
        drawable(old(out)@) ==> drawable(final(out)@),
{
    out.clear();
    out.move_to(0, 0);
    out.print(what);
    out.move_to(0, size.rows.saturating_sub(1));
    proof {
        assert(out@ =~= old(out)@ + working_ops(what@, size.rows));
        assert(drawable(working_ops(what@, size.rows)));
        lemma_drawable_add(old(out)@, working_ops(what@, size.rows));
    }
}

/// The dialog never opens for the main worktree, for the one the picker was
/// started in, or with nothing selected.
pub proof fn law_the_dialog_spares_where_you_stand(
    repo: RepoModel,
    picker: PickerModel,
    dirty: Option<bool>,
    merged: Option<Merged>,
)
    requires
        pending_on(repo, picker, dirty, merged) matches Some(PendingModel::Ask(_)),
    ensures
        picker.selected() is Some,
        !crate::path::same_place(picker.selected()->0.worktree.path, repo.main),
        !crate::path::within(repo.cwd, picker.selected()->0.worktree.path),
{
}

/// What the picker removes is never refused for lack of force: a worktree the
/// dialog offers is one the removal will take.
pub proof fn law_what_is_offered_is_not_refused(
    repo: RepoModel,
    picker: PickerModel,
    dirty: Option<bool>,
    merged: Option<Merged>,
    with_branch: bool,
    status: Option<bool>,
)
    requires
        pending_on(repo, picker, dirty, merged) matches Some(PendingModel::Ask(_)),
    ensures
        blocker(
            repo,
            picker.selected()->0.worktree,
            picked_options(with_branch).force,
            status,
        ) is None,
{
}

/// After a removal the cursor is on a row that is still there.
pub proof fn law_reloading_keeps_the_cursor_inside(picker: PickerModel, items: Seq<ItemModel>)
    requires
        picker.cursor >= 0,
    ensures
        reloaded(picker, items).cursor_inside(),
        reloaded(picker, items).items == items,
        reloaded(picker, items).filter == picker.filter,
{
    let p = PickerModel { items, ..picker };
    assert(p.clamped().lowered() =~= p.lowered());
}

} // verus!
