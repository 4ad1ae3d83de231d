//! What is asked before a removal from the picker, and what is said after it.

use vstd::prelude::*;

use crate::commands::remove::{removal_blocker, RemoveOptions};
use crate::git::{Merged, Repo, Worktree};
use crate::path::lossy;
use crate::tui::dialog::{
    confirm_keys, confirmed, delete_selected, pending, pending_worktree, reloaded, remove_picked,
    DeleteStep, Pending, Subject,
};
use crate::tui::keys::Reply;
use crate::tui::picker::{item_models, Item, Picker, PickerModel};
use crate::tui::picker_laws::cursor_kept;

verus! {

/// What a deletion leads to is decided by the selected row and what blocks its
/// forced removal: nothing without a row, the reason where it is blocked, and
/// the question in every other case.
pub proof fn law_when_the_dialog_opens(
    repo: &Repo,
    picker: &Picker,
    dirty: Option<bool>,
    merged: Option<Merged>,
    r: Option<Pending>,
    selected: Option<&Item>,
    blocked: Option<String>,
)
    requires
        call_ensures(pending, (repo, picker, dirty, merged), r),
        call_ensures(Picker::selected, (picker,), selected),
        selected matches Some(item) ==> call_ensures(
            removal_blocker,
            (repo, &item.worktree, true, None),
            blocked,
        ),
    ensures
        selected is None <==> r is None,
        selected matches Some(item) ==> match blocked {
            Some(reason) => r matches Some(Pending::Blocked(line)) && line@ == "cannot remove `"@
                + item.name@ + "`: "@ + reason@,
            None => r matches Some(Pending::Ask(subject)) && subject.label@ == item.name@
                && subject.worktree@ == item.worktree@,
        },
{
    if selected is Some {
        assert(picker@.selected() == Some(selected->0@));
        assert(r is Some);
        assert(r->0@ == crate::tui::dialog::pending_on(repo@, picker@, dirty, merged)->0);
        assert(crate::git::reading(blocked) == crate::commands::remove::blocker(
            repo@,
            selected->0.worktree@,
            true,
            None,
        ));
    }
}

/// The dialog warns of uncommitted changes exactly when git reported some,
/// whatever else is known; and it calls the branch merged exactly when there is
/// one and git said that it is merged, by its commits, by its changes, or for
/// having none of its own.
pub proof fn law_the_dialog_tells_what_git_told(
    repo: &Repo,
    picker: &Picker,
    dirty: Option<bool>,
    merged: Option<Merged>,
    r: Option<Pending>,
    subject: Subject,
)
    requires
        call_ensures(pending, (repo, picker, dirty, merged), r),
        r == Some(Pending::Ask(subject)),
    ensures
        subject.dirty <==> dirty == Some(true),
        subject.merged <==> subject.worktree.branch is Some && (merged == Some(Merged::Commits)
            || merged == Some(Merged::Changes) || merged == Some(Merged::New)),
{
    assert(r->0@ == crate::tui::dialog::pending_on(repo@, picker@, dirty, merged)->0);
    assert(subject@.worktree.branch is Some <==> subject.worktree.branch is Some);
    assert(merged is Some ==> merged->0 is Commits || merged->0 is Changes || merged->0 is New
        || merged->0 is No);
}

/// git is asked about the selected worktree exactly when the dialog will open
/// for it.
pub proof fn law_git_is_asked_where_the_dialog_opens(
    repo: &Repo,
    picker: &Picker,
    dirty: Option<bool>,
    merged: Option<Merged>,
    asked: Option<Worktree>,
    r: Option<Pending>,
)
    requires
        call_ensures(pending_worktree, (repo, picker), asked),
        call_ensures(pending, (repo, picker, dirty, merged), r),
    ensures
        asked is Some <==> (r matches Some(p) && p is Ask),
        r matches Some(Pending::Ask(subject)) ==> asked->0@ == subject.worktree@,
{
    if r is Some {
        assert(r->0@ == crate::tui::dialog::pending_on(repo@, picker@, dirty, merged)->0);
    }
}

/// Only a question is asked; a reason goes to the status line, and with nothing
/// selected there is nothing to say.
pub proof fn law_where_a_deletion_goes(p: Option<Pending>, r: DeleteStep)
    requires
        call_ensures(delete_selected, (p,), r),
    ensures
        p is None ==> (r matches DeleteStep::Close(line) && line is None),
        p matches Some(Pending::Blocked(why)) ==> (r matches DeleteStep::Close(Some(line)) && line@
            == why@),
        p matches Some(Pending::Ask(subject)) ==> (r matches DeleteStep::Confirm(asked)
            && asked.worktree@ == subject.worktree@ && asked.label@ == subject.label@
            && asked.dirty == subject.dirty && asked.merged == subject.merged),
{
}

/// No sets nothing going. Yes sets a removal going that is forced and quiet and
/// runs its hooks, and that takes the branch exactly when that was the answer.
pub proof fn law_what_an_answer_sets_going(
    subject: &Subject,
    answer: Reply,
    r: Option<(String, RemoveOptions)>,
)
    requires
        call_ensures(confirmed, (subject, answer), r),
    ensures
        r is None <==> answer == Reply::Cancel,
        r matches Some(go) ==> go.0@ == "Removing "@ + lossy(subject.worktree.path.bytes@) + "..."@
            && go.1.force && go.1.quiet && !go.1.no_hooks && go.1.with_branch
            == (answer == Reply::Remove { with_branch: true }),
{
}

/// What is left takes the place of the list, with the filter as it was and the
/// cursor as near as it can be; a failure leaves the list alone. Either is said.
pub proof fn law_what_is_said_after_a_removal(
    picker: &mut Picker,
    subject: &Subject,
    with_branch: bool,
    outcome: Result<Vec<Item>, String>,
    r: String,
)
    requires
        call_ensures(remove_picked, (picker, subject, with_branch, outcome), r),
    ensures
        match outcome {
            Ok(items) => {
                &&& r@ == "removed `"@ + subject.label@ + "`"@ + (if with_branch {
                    " and its branch"@
                } else {
                    ""@
                })
                &&& final(picker)@.items == item_models(items@)
                &&& final(picker)@.filter == old(picker)@.filter
                &&& final(picker)@.offset == old(picker)@.offset
                &&& final(picker)@.erasing == old(picker)@.erasing
                &&& cursor_kept(old(picker)@, final(picker)@)
            },
            Err(why) => final(picker)@ == old(picker)@ && r@ == "failed to remove `"@
                + subject.label@ + "`: "@ + why@,
        },
{
    if let Ok(items) = outcome {
        let swapped = PickerModel { items: item_models(items@), ..old(picker)@ };
        assert(swapped.clamped().lowered() =~= swapped.lowered());
        assert(final(picker)@ == reloaded(old(picker)@, item_models(items@)));
    }
}

/// The branch key is offered exactly where there is a branch.
pub proof fn law_which_keys_are_offered(has_branch: bool, r: &'static str)
    requires
        call_ensures(confirm_keys, (has_branch,), r),
    ensures
        has_branch ==> r@ == "[y] remove worktree   [b] remove worktree and branch   [n] cancel"@,
        !has_branch ==> r@ == "[y] remove worktree   [n] cancel"@,
{
}

} // verus!
