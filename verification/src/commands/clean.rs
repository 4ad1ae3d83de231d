//! `gwx clean` — review the worktrees that have outlived their branch and
//! remove the ones you pick.
//!
//! The judgement it makes rests on one fact: removing a worktree does not
//! remove commits. The branch keeps them, so the only thing a removal can
//! destroy is work that was never committed. Everything else the list reports
//! is about whether the work is *finished*, which is a different question and
//! the reason nothing but `done` is selected for you.

use vstd::prelude::*;
use vstd::string::*;

use crate::commands::remove::{blocker, removal_blocker, RemoveOptions};
use crate::git::{models, Merged, Repo, RepoModel, Tracking, Worktree, WorktreeModel};
use crate::path::lossy;
use crate::text::{column_width, decimal, number, pad, padded, readings, widest};

verus! {

/// Column labels, shared with the interactive screen.
pub const NAME_HEADER: &'static str = "WORKTREE";

pub const VERDICT_HEADER: &'static str = "SAFE TO REMOVE";

pub const NOTE_HEADER: &'static str = "NOTE";

/// What a worktree's state means for removing it.
#[derive(Debug, Clone, Copy, PartialEq, Eq, Structural)]
pub enum State {
    /// Merged into the main worktree's HEAD, with nothing uncommitted.
    Done,
    /// Not merged, but every commit is on the upstream.
    Pushed,
    /// Commits that exist nowhere else, or no upstream at all.
    Local,
    /// Uncommitted changes, which a removal would destroy.
    Dirty,
}

/// The word for a state.
pub open spec fn state_label(state: State) -> Seq<char> {
    match state {
        State::Done => "done"@,
        State::Pushed => "pushed"@,
        State::Local => "local"@,
        State::Dirty => "dirty"@,
    }
}

/// Whether removing the worktree, and its branch when asked, loses nothing.
pub open spec fn is_safe(state: State, with_branch: bool) -> bool {
    match state {
        State::Dirty => false,
        State::Local => !with_branch,
        State::Done | State::Pushed => true,
    }
}

/// The answer to whether a row is safe to remove.
pub open spec fn verdict_text(state: State, with_branch: bool) -> Seq<char> {
    let yes_no = if is_safe(state, with_branch) {
        "yes"@
    } else {
        "no"@
    };
    if state == State::Done {
        yes_no
    } else {
        yes_no + " ("@ + state_label(state) + ")"@
    }
}

impl State {
    pub fn label(self) -> (r: &'static str)
        ensures
            r@ == state_label(self),
    {
        match self {
            State::Done => "done",
            State::Pushed => "pushed",
            State::Local => "local",
            State::Dirty => "dirty",
        }
    }

    /// The column that answers the question the screen is asking.
    ///
    /// `dirty` is the only state where removing the worktree destroys
    /// anything, so it is the only "no" — until `--with-branch` is given, at
    /// which point a `local` branch takes its commits with it and becomes one
    /// too. The state stays in brackets rather than being replaced by the
    /// verdict, because "no" on its own does not say what to do about it.
    pub fn verdict(self, with_branch: bool) -> (r: String)
        ensures
            r@ == verdict_text(self, with_branch),
    {
        let safe = match self {
            State::Dirty => false,
            State::Local => !with_branch,
            State::Done | State::Pushed => true,
        };
        let yes_no = if safe {
            "yes"
        } else {
            "no"
        };
        match self {
            State::Done => yes_no.to_string(),
            other => yes_no.to_string().concat(" (").concat(other.label()).concat(")"),
        }
    }

    /// Whether the row starts out ticked.
    ///
    /// Only `done`. The others are removable — `pushed` and `local` lose
    /// nothing, since the commits outlive the worktree — but they are live
    /// work, and a list that pre-selects live work gets used once.
    pub fn preselected(self) -> (r: bool)
        ensures
            r == (self == State::Done),
    {
        self == State::Done
    }
}

/// The state a worktree is in, and the sentence that explains it.
pub open spec fn judged(dirty: bool, merged: Merged, track: Tracking) -> (State, Seq<char>) {
    if dirty {
        (State::Dirty, "uncommitted changes would be lost"@)
    } else {
        match merged {
            Merged::Commits => (State::Done, "merged into HEAD, nothing uncommitted"@),
            Merged::Changes => (
                State::Done,
                "squash or rebase merged into HEAD, nothing uncommitted"@,
            ),
            Merged::New => (State::Local, "new branch, no commits yet"@),
            Merged::No => match track {
                Tracking::Pushed => (
                    State::Pushed,
                    "not merged; every commit is on its upstream"@,
                ),
                Tracking::Ahead(n) => (
                    State::Local,
                    decimal(n as nat) + " commit(s) not on its upstream"@,
                ),
                Tracking::Gone => (State::Local, "its upstream is gone from the remote"@),
                Tracking::Untracked => (State::Local, "never pushed; it has no upstream"@),
            },
        }
    }
}

/// The state a worktree is in, and the sentence that explains it.
///
/// `done` covers both ways of being finished, and the note is what says which
/// one: a squash or rebase merge leaves the work in `HEAD` under commits the
/// branch never had, so the reason to believe it is not the reason a plain
/// merge gives, and the row should not claim otherwise.
pub fn classify(dirty: bool, merged: Merged, track: Tracking) -> (r: (State, String))
    ensures
        (r.0, r.1@) == judged(dirty, merged, track),
{
    if dirty {
        return (State::Dirty, "uncommitted changes would be lost".to_string());
    }
    let finished = match merged {
        Merged::Commits => Some("merged into HEAD, nothing uncommitted"),
        Merged::Changes => Some("squash or rebase merged into HEAD, nothing uncommitted"),
        Merged::New | Merged::No => None,
    };
    if let Some(note) = finished {
        return (State::Done, note.to_string());
    }
    if merged == Merged::New {
        return (State::Local, "new branch, no commits yet".to_string());
    }
    match track {
        Tracking::Pushed => (
            State::Pushed,
            "not merged; every commit is on its upstream".to_string(),
        ),
        Tracking::Ahead(n) => (
            State::Local,
            number(n).concat(" commit(s) not on its upstream"),
        ),
        Tracking::Gone => (State::Local, "its upstream is gone from the remote".to_string()),
        Tracking::Untracked => (State::Local, "never pushed; it has no upstream".to_string()),
    }
}

/// Uncommitted changes outrank everything else that is known of a worktree.
pub proof fn law_uncommitted_changes_outrank_everything(merged: Merged, track: Tracking)
    ensures
        judged(true, merged, track).0 == State::Dirty,
{
}

/// A row starts out ticked exactly when its work is finished and nothing in it
/// is uncommitted.
pub proof fn law_ticked_means_finished_and_clean(dirty: bool, merged: Merged, track: Tracking)
    ensures
        judged(dirty, merged, track).0 == State::Done <==> !dirty && (merged == Merged::Commits
            || merged == Merged::Changes),
{
}

/// Whatever starts out ticked is safe to remove, with its branch or without.
pub proof fn law_ticked_is_always_safe(state: State, with_branch: bool)
    requires
        state == State::Done,
    ensures
        is_safe(state, with_branch),
{
}

/// Taking the branch too never makes a removal safer, and makes a difference
/// only to commits that are nowhere else.
pub proof fn law_the_branch_only_adds_risk(state: State)
    ensures
        is_safe(state, true) ==> is_safe(state, false),
        is_safe(state, false) && !is_safe(state, true) <==> state == State::Local,
{
}

/// A worktree offered for removal, with the reason for its state.
#[derive(Debug)]
pub struct Candidate {
    pub worktree: Worktree,
    pub name: String,
    pub state: State,
    pub note: String,
}

/// A candidate as contracts speak of it.
pub struct CandidateModel {
    pub worktree: WorktreeModel,
    pub name: Seq<char>,
    pub state: State,
    pub note: Seq<char>,
}

impl View for Candidate {
    type V = CandidateModel;

    open spec fn view(&self) -> CandidateModel {
        CandidateModel {
            worktree: self.worktree@,
            name: self.name@,
            state: self.state,
            note: self.note@,
        }
    }
}

/// What the candidates of a list are.
pub open spec fn candidate_models(list: Seq<Candidate>) -> Seq<CandidateModel> {
    list.map_values(|c: Candidate| c@)
}

/// Where each branch stands with its upstream, as contracts speak of it.
pub open spec fn tracking_model(list: Seq<(String, Tracking)>) -> Seq<(Seq<char>, Tracking)> {
    list.map_values(|e: (String, Tracking)| (e.0@, e.1))
}

/// What is recorded for a branch. Its first entry counts.
pub open spec fn recorded(list: Seq<(Seq<char>, Tracking)>, branch: Seq<char>) -> Option<Tracking>
    decreases list.len(),
{
    if list.len() == 0 {
        None
    } else if list[0].0 == branch {
        Some(list[0].1)
    } else {
        recorded(list.drop_first(), branch)
    }
}

/// Where no branch is listed twice, a branch is found wherever it stands, and
/// one that is not listed is not found.
pub proof fn law_branches_are_found_wherever_they_stand(
    list: Seq<(Seq<char>, Tracking)>,
    branch: Seq<char>,
)
    requires
        forall|a: int, b: int|
            0 <= a < b < list.len() ==> (#[trigger] list[a]).0 != (#[trigger] list[b]).0,
    ensures
        forall|i: int|
            0 <= i < list.len() && (#[trigger] list[i]).0 == branch ==> recorded(list, branch)
                == Some(list[i].1),
        (forall|i: int| 0 <= i < list.len() ==> (#[trigger] list[i]).0 != branch) ==> recorded(
            list,
            branch,
        ) is None,
    decreases list.len(),
{
    if list.len() > 0 {
        let rest = list.drop_first();
        assert forall|a: int, b: int| 0 <= a < b < rest.len() implies (#[trigger] rest[a]).0 != (
        #[trigger] rest[b]).0 by {
            assert(list[a + 1].0 != list[b + 1].0);
        }
        law_branches_are_found_wherever_they_stand(rest, branch);
        assert forall|i: int| 0 <= i < list.len() && (#[trigger] list[i]).0 == branch implies
            recorded(list, branch) == Some(list[i].1) by {
            if i > 0 {
                assert(rest[i - 1] == list[i]);
                assert(list[0].0 != list[i].0);
            }
        }
        if forall|i: int| 0 <= i < list.len() ==> (#[trigger] list[i]).0 != branch {
            assert forall|i: int| 0 <= i < rest.len() implies (#[trigger] rest[i]).0 != branch by {
                assert(rest[i] == list[i + 1]);
            }
        }
    }
}

/// Looks a branch up.
fn find_tracking(list: &Vec<(String, Tracking)>, branch: &String) -> (r: Option<Tracking>)
    ensures
        r == recorded(tracking_model(list@), branch@),
{
    let ghost all = tracking_model(list@);
    assert(all.skip(0) =~= all);
    for i in 0..list.len()
        invariant
            all == tracking_model(list@),
            recorded(all, branch@) == recorded(all.skip(i as int), branch@),
    {
        assert(all.skip(i as int)[0] == (list@[i as int].0@, list@[i as int].1));
        assert(all.skip(i as int).drop_first() =~= all.skip(i + 1));
        if list[i].0.eq(branch) {
            return Some(list[i].1);
        }
    }
    None
}

/// What git answered about one worktree.
#[derive(Debug)]
pub struct Answers {
    /// What the worktree is called.
    pub name: String,
    /// Whether there are uncommitted changes; `None` when git could not say.
    pub dirty: Option<bool>,
    /// Whether its branch is merged. Without a branch this says nothing.
    pub merged: Merged,
}

/// The answers as contracts speak of them.
pub struct AnswersModel {
    pub name: Seq<char>,
    pub dirty: Option<bool>,
    pub merged: Merged,
}

impl View for Answers {
    type V = AnswersModel;

    open spec fn view(&self) -> AnswersModel {
        AnswersModel { name: self.name@, dirty: self.dirty, merged: self.merged }
    }
}

/// The candidate a worktree makes. Without a branch nothing is merged and
/// there is no upstream, and a status that could not be read counts as clean.
pub open spec fn described(
    worktree: WorktreeModel,
    answers: AnswersModel,
    tracking: Seq<(Seq<char>, Tracking)>,
) -> CandidateModel {
    let merged = if worktree.branch is Some {
        answers.merged
    } else {
        Merged::No
    };
    let track = match worktree.branch {
        Some(branch) => match recorded(tracking, branch) {
            Some(track) => track,
            None => Tracking::Untracked,
        },
        None => Tracking::Untracked,
    };
    let (state, note) = judged(answers.dirty == Some(true), merged, track);
    CandidateModel { worktree, name: answers.name, state, note }
}

/// Works out one worktree's state.
pub fn describe(worktree: &Worktree, answers: &Answers, tracking: &Vec<(String, Tracking)>) -> (r:
    Candidate)
    ensures
        r@ == described(worktree@, answers@, tracking_model(tracking@)),
{
    let dirty = answers.dirty.unwrap_or(false);
    let merged = match &worktree.branch {
        Some(_) => answers.merged,
        None => Merged::No,
    };
    let track = match &worktree.branch {
        Some(branch) => find_tracking(tracking, branch).unwrap_or(Tracking::Untracked),
        None => Tracking::Untracked,
    };
    let (state, note) = classify(dirty, merged, track);
    Candidate { worktree: worktree.clone(), name: answers.name.clone(), state, note }
}

/// The worktrees that could be removed: every one but the first, which is the
/// main worktree, as long as nothing stands in the way of a forced removal.
pub open spec fn can_go(repo: RepoModel, worktrees: Seq<WorktreeModel>) -> Seq<WorktreeModel> {
    worktrees.skip(1).filter(|w: WorktreeModel| blocker(repo, w, true, None) is None)
}

/// Picks out the worktrees that could be removed, in order. With `force` the
/// blocker compares paths and asks git nothing, and a worktree it turns down
/// needs no thread of its own.
pub fn removable(repo: &Repo, worktrees: &Vec<Worktree>) -> (r: Result<Vec<Worktree>, String>)
    ensures
        match r {
            Ok(list) => worktrees@.len() > 0 && models(list@) == can_go(repo@, models(worktrees@)),
            Err(line) => worktrees@.len() == 0 && line@ == "no worktrees found"@,
        },
{
    if worktrees.len() == 0 {
        return Err("no worktrees found".to_string());
    }
    let mut list: Vec<Worktree> = Vec::new();
    let ghost all = models(worktrees@).skip(1);
    let ghost goes = |w: WorktreeModel| blocker(repo@, w, true, None) is None;
    proof {
        reveal(Seq::filter);
        assert(all.take(0).filter(goes) =~= Seq::<WorktreeModel>::empty());
    }
    let mut i: usize = 1;
    while i < worktrees.len()
        invariant
            1 <= i <= worktrees.len(),
            all == models(worktrees@).skip(1),
            goes == (|w: WorktreeModel| blocker(repo@, w, true, None) is None),
            models(list@) =~= all.take(i - 1).filter(goes),
        decreases worktrees.len() - i,
    {
        let ghost before = models(list@);
        let ghost this = worktrees@[i as int]@;
        proof {
            reveal(Seq::filter);
            assert(all.take(i as int).drop_last() =~= all.take(i - 1));
            assert(all.take(i as int).last() == this);
        }
        if removal_blocker(repo, &worktrees[i], true, None).is_none() {
            list.push(worktrees[i].clone());
            assert(models(list@) =~= before.push(this));
        }
        i += 1;
    }
    assert(all.take(worktrees@.len() - 1) =~= all);
    Ok(list)
}

/// The candidates made of the worktrees git answered about.
pub open spec fn all_described(
    worktrees: Seq<WorktreeModel>,
    answers: Seq<Option<AnswersModel>>,
    tracking: Seq<(Seq<char>, Tracking)>,
) -> Seq<CandidateModel>
    decreases worktrees.len(),
{
    if worktrees.len() == 0 {
        Seq::empty()
    } else {
        let front = all_described(worktrees.drop_last(), answers.drop_last(), tracking);
        match answers.last() {
            Some(a) => front.push(described(worktrees.last(), a, tracking)),
            None => front,
        }
    }
}

/// The answers of a list, as contracts speak of them.
pub open spec fn answer_models(list: Seq<Option<Answers>>) -> Seq<Option<AnswersModel>> {
    list.map_values(
        |a: Option<Answers>|
            match a {
                Some(a) => Some(a@),
                None => None,
            },
    )
}

/// Every worktree that could be removed, with its state worked out. A worktree
/// whose questions came to nothing is left out.
pub fn candidates(
    worktrees: &Vec<Worktree>,
    answers: &Vec<Option<Answers>>,
    tracking: &Vec<(String, Tracking)>,
) -> (r: Vec<Candidate>)
    requires
        worktrees@.len() == answers@.len(),
    ensures
        candidate_models(r@) == all_described(
            models(worktrees@),
            answer_models(answers@),
            tracking_model(tracking@),
        ),
{
    let mut r: Vec<Candidate> = Vec::new();
    let ghost wts = models(worktrees@);
    let ghost ans = answer_models(answers@);
    let ghost tra = tracking_model(tracking@);
    for i in 0..worktrees.len()
        invariant
            worktrees@.len() == answers@.len(),
            wts == models(worktrees@),
            ans == answer_models(answers@),
            tra == tracking_model(tracking@),
            candidate_models(r@) =~= all_described(wts.take(i as int), ans.take(i as int), tra),
    {
        let ghost before = candidate_models(r@);
        proof {
            assert(wts.take(i + 1).drop_last() =~= wts.take(i as int));
            assert(ans.take(i + 1).drop_last() =~= ans.take(i as int));
        }
        if let Some(a) = &answers[i] {
            let c = describe(&worktrees[i], a, tracking);
            let ghost model = c@;
            r.push(c);
            assert(candidate_models(r@) =~= before.push(model));
        }
    }
    assert(wts.take(worktrees@.len() as int) =~= wts);
    assert(ans.take(worktrees@.len() as int) =~= ans);
    r
}

/// The main worktree and the one the command was started in are never among
/// the worktrees that could be removed.
pub proof fn law_where_you_stand_is_never_offered(
    repo: RepoModel,
    worktrees: Seq<WorktreeModel>,
    i: int,
)
    requires
        0 <= i < can_go(repo, worktrees).len(),
    ensures
        !crate::path::same_place(can_go(repo, worktrees)[i].path, repo.main),
        !crate::path::within(repo.cwd, can_go(repo, worktrees)[i].path),
{
    let goes = |w: WorktreeModel| blocker(repo, w, true, None) is None;
    broadcast use vstd::seq_lib::group_filter_ensures;

    assert(goes(can_go(repo, worktrees)[i]));
}

/// What each candidate is called.
pub open spec fn candidate_names(list: Seq<CandidateModel>) -> Seq<Seq<char>> {
    list.map_values(|c: CandidateModel| c.name)
}

/// The verdict on each candidate.
pub open spec fn candidate_verdicts(list: Seq<CandidateModel>, with_branch: bool) -> Seq<
    Seq<char>,
> {
    list.map_values(|c: CandidateModel| verdict_text(c.state, with_branch))
}

/// The names of the candidates, for measuring a column.
pub fn names_of(list: &Vec<Candidate>) -> (r: Vec<String>)
    ensures
        readings(r@) == candidate_names(candidate_models(list@)),
        r@.len() == list@.len(),
{
    let mut r: Vec<String> = Vec::new();
    for i in 0..list.len()
        invariant
            r@.len() == i,
            forall|j: int| 0 <= j < i ==> (#[trigger] r@[j])@ == list@[j].name@,
    {
        r.push(list[i].name.clone());
    }
    assert(readings(r@) =~= candidate_names(candidate_models(list@)));
    r
}

/// The verdicts on the candidates.
pub fn verdicts_of(list: &Vec<Candidate>, with_branch: bool) -> (r: Vec<String>)
    ensures
        readings(r@) == candidate_verdicts(candidate_models(list@), with_branch),
        r@.len() == list@.len(),
{
    let mut r: Vec<String> = Vec::new();
    for i in 0..list.len()
        invariant
            r@.len() == i,
            forall|j: int|
                0 <= j < i ==> (#[trigger] r@[j])@ == verdict_text(list@[j].state, with_branch),
    {
        r.push(list[i].state.verdict(with_branch));
    }
    assert(readings(r@) =~= candidate_verdicts(candidate_models(list@), with_branch));
    r
}

/// One line of the table: two aligned columns and whatever follows them.
pub open spec fn table_line(
    name: Seq<char>,
    name_width: nat,
    verdict: Seq<char>,
    verdict_width: nat,
    note: Seq<char>,
) -> Seq<char> {
    padded(name, name_width) + "  "@ + padded(verdict, verdict_width) + "  "@ + note
}

/// The lines of the table, the column labels first.
pub open spec fn table_lines(list: Seq<CandidateModel>, with_branch: bool) -> Seq<Seq<char>> {
    let verdicts = candidate_verdicts(list, with_branch);
    let name_width = column_width(candidate_names(list), NAME_HEADER@);
    let verdict_width = column_width(verdicts, VERDICT_HEADER@);
    seq![table_line(NAME_HEADER@, name_width, VERDICT_HEADER@, verdict_width, NOTE_HEADER@)]
        + Seq::new(
        list.len(),
        |i: int| table_line(list[i].name, name_width, verdicts[i], verdict_width, list[i].note),
    )
}

fn line_of(name: &str, name_width: usize, verdict: &str, verdict_width: usize, note: &str) -> (r:
    String)
    ensures
        r@ == table_line(name@, name_width as nat, verdict@, verdict_width as nat, note@),
{
    pad(name, name_width).concat("  ").concat(pad(verdict, verdict_width).as_str()).concat(
        "  ",
    ).concat(note)
}

/// The same rows as the screen shows, for a terminal that cannot draw one.
pub fn table(candidates: &Vec<Candidate>, with_branch: bool) -> (r: Vec<String>)
    ensures
        readings(r@) == table_lines(candidate_models(candidates@), with_branch),
{
    let verdicts = verdicts_of(candidates, with_branch);
    let name_width: usize = widest(&names_of(candidates), NAME_HEADER);
    let verdict_width: usize = widest(&verdicts, VERDICT_HEADER);
    let ghost want = table_lines(candidate_models(candidates@), with_branch);
    let mut r: Vec<String> = Vec::new();
    r.push(line_of(NAME_HEADER, name_width, VERDICT_HEADER, verdict_width, NOTE_HEADER));
    for i in 0..candidates.len()
        invariant
            verdicts@.len() == candidates@.len(),
            readings(verdicts@) == candidate_verdicts(candidate_models(candidates@), with_branch),
            name_width == column_width(
                candidate_names(candidate_models(candidates@)),
                NAME_HEADER@,
            ),
            verdict_width == column_width(readings(verdicts@), VERDICT_HEADER@),
            want == table_lines(candidate_models(candidates@), with_branch),
            r@.len() == i + 1,
            forall|j: int| 0 <= j <= i ==> (#[trigger] r@[j])@ == want[j],
    {
        assert(readings(verdicts@)[i as int] == verdicts@[i as int]@);
        r.push(
            line_of(
                candidates[i].name.as_str(),
                name_width,
                verdicts[i].as_str(),
                verdict_width,
                candidates[i].note.as_str(),
            ),
        );
        assert(want[i + 1] == r@[i + 1]@);
    }
    assert(readings(r@) =~= want);
    r
}

/// The flags of `gwx clean`.
#[derive(Debug, Clone, Copy)]
pub struct CleanArgs {
    pub with_branch: bool,
    pub force: bool,
    pub no_hooks: bool,
}

/// Lines for standard output, then lines for standard error.
#[derive(Debug)]
pub struct Printed {
    pub out: Vec<String>,
    pub err: Vec<String>,
}

/// What `gwx clean` prints instead of opening its screen, if it does not open.
/// Without a terminal there is nobody to tick the boxes, and guessing is the
/// one thing a command that deletes things must not do.
pub open spec fn opening_text(
    list: Seq<CandidateModel>,
    terminal: bool,
    with_branch: bool,
) -> Option<(Seq<Seq<char>>, Seq<Seq<char>>)> {
    if list.len() == 0 {
        Some(
            (Seq::empty(), seq!["Nothing to clean: no worktree besides the one you are in."@]),
        )
    } else if !terminal {
        Some(
            (
                table_lines(list, with_branch),
                seq![""@, "gwx clean needs a terminal to choose in; nothing was removed."@],
            ),
        )
    } else {
        None
    }
}

/// Whether `gwx clean` ends before its screen opens, and with which words.
/// `None` opens the screen.
pub fn opening(candidates: &Vec<Candidate>, terminal: bool, with_branch: bool) -> (r: Option<
    Printed,
>)
    ensures
        match r {
            Some(p) => opening_text(candidate_models(candidates@), terminal, with_branch) == Some(
                (readings(p.out@), readings(p.err@)),
            ),
            None => opening_text(candidate_models(candidates@), terminal, with_branch) is None,
        },
{
    if candidates.len() == 0 {
        let mut err: Vec<String> = Vec::new();
        err.push("Nothing to clean: no worktree besides the one you are in.".to_string());
        let out: Vec<String> = Vec::new();
        assert(readings(out@) =~= Seq::<Seq<char>>::empty());
        assert(readings(err@) =~= seq![
            "Nothing to clean: no worktree besides the one you are in."@,
        ]);
        return Some(Printed { out, err });
    }
    if !terminal {
        let mut err: Vec<String> = Vec::new();
        err.push("".to_string());
        err.push("gwx clean needs a terminal to choose in; nothing was removed.".to_string());
        assert(readings(err@) =~= seq![
            ""@,
            "gwx clean needs a terminal to choose in; nothing was removed."@,
        ]);
        return Some(Printed { out: table(candidates, with_branch), err });
    }
    None
}

/// What is to be done about one selected candidate.
#[derive(Debug)]
pub enum Planned {
    /// Leave it, and say why.
    Skip { line: String },
    /// Remove the candidate at this index.
    Remove { index: usize, opts: RemoveOptions },
}

/// A step of the plan as contracts speak of it.
pub enum PlannedModel {
    Skip { line: Seq<char> },
    Remove { index: usize, opts: RemoveOptions },
}

impl View for Planned {
    type V = PlannedModel;

    open spec fn view(&self) -> PlannedModel {
        match *self {
            Planned::Skip { line } => PlannedModel::Skip { line: line@ },
            Planned::Remove { index, opts } => PlannedModel::Remove { index, opts },
        }
    }
}

/// What becomes of a selected candidate: one with uncommitted changes stays
/// unless `--force` was given, and the flags decide how the others go.
pub open spec fn planned(candidate: CandidateModel, index: usize, args: CleanArgs) -> PlannedModel {
    if candidate.state == State::Dirty && !args.force {
        PlannedModel::Skip {
            line: "Skipped "@ + candidate.name
                + ": it has uncommitted changes (pass --force)"@,
        }
    } else {
        PlannedModel::Remove {
            index,
            opts: RemoveOptions {
                force: args.force,
                with_branch: args.with_branch,
                quiet: false,
                no_hooks: args.no_hooks,
            },
        }
    }
}

/// Decides what to do about one selected candidate.
pub fn plan(candidate: &Candidate, index: usize, args: CleanArgs) -> (r: Planned)
    ensures
        r@ == planned(candidate@, index, args),
{
    if candidate.state == State::Dirty && !args.force {
        let line = "Skipped ".to_string().concat(candidate.name.as_str()).concat(
            ": it has uncommitted changes (pass --force)",
        );
        Planned::Skip { line }
    } else {
        let opts = RemoveOptions {
            force: args.force,
            with_branch: args.with_branch,
            quiet: false,
            no_hooks: args.no_hooks,
        };
        Planned::Remove { index, opts }
    }
}

/// The line that says how one removal went.
pub fn outcome_line(candidate: &Candidate, outcome: &Result<(), String>) -> (r: String)
    ensures
        r@ == outcome_text(candidate@, *outcome),
{
    match outcome {
        Ok(_) => "Removed ".to_string().concat(candidate.worktree.path.display().as_str()),
        Err(why) => "Failed to remove ".to_string().concat(candidate.name.as_str()).concat(
            ": ",
        ).concat(why.as_str()),
    }
}

/// How one removal went.
pub open spec fn outcome_text(candidate: CandidateModel, outcome: Result<(), String>) -> Seq<char> {
    match outcome {
        Ok(_) => "Removed "@ + lossy(candidate.worktree.path),
        Err(why) => "Failed to remove "@ + candidate.name + ": "@ + why@,
    }
}

/// The lines that sum up the removals. A single one has already been reported,
/// so it gets none.
pub open spec fn closing_text(removed: nat) -> Seq<Seq<char>> {
    if removed == 1 {
        Seq::empty()
    } else {
        seq!["Removed "@ + decimal(removed) + " worktrees."@]
    }
}

/// The line that sums up the removals, if there is one.
pub fn closing(removed: usize) -> (r: Option<String>)
    ensures
        match r {
            Some(line) => closing_text(removed as nat) == seq![line@],
            None => closing_text(removed as nat).len() == 0,
        },
{
    if removed == 1 {
        None
    } else {
        Some("Removed ".to_string().concat(number(removed).as_str()).concat(" worktrees."))
    }
}

/// What `gwx clean` needs done next.
#[derive(Debug, Clone, Copy)]
pub enum Task {
    /// Open the screen and let the user choose.
    Choose,
    /// Remove the candidate at this index.
    Remove { index: usize, opts: RemoveOptions },
    /// Nothing more.
    Stop,
}

/// What is printed, and what is done then.
#[derive(Debug)]
pub struct Turn {
    pub said: Printed,
    pub task: Task,
}

/// A turn as contracts speak of it: standard output, standard error, the task.
pub type TurnModel = (Seq<Seq<char>>, Seq<Seq<char>>, Task);

impl View for Turn {
    type V = TurnModel;

    open spec fn view(&self) -> TurnModel {
        (readings(self.said.out@), readings(self.said.err@), self.task)
    }
}

/// `gwx clean` under way.
#[derive(Debug)]
pub struct Cleaning {
    pub candidates: Vec<Candidate>,
    pub args: CleanArgs,
    /// The candidates that were selected, in order.
    pub chosen: Vec<usize>,
    /// How many of the selected have been dealt with.
    pub at: usize,
    /// How many of them are gone.
    pub removed: usize,
}

/// Going on from the selected candidate at `at`: those that are skipped are
/// named, up to the next one to remove or the end. Gives the lines, where it
/// came to, and what to do there.
pub open spec fn going_on(
    list: Seq<CandidateModel>,
    args: CleanArgs,
    chosen: Seq<usize>,
    at: nat,
    removed: nat,
) -> (Seq<Seq<char>>, nat, Task)
    decreases chosen.len() - at,
{
    if at >= chosen.len() {
        (closing_text(removed), at, Task::Stop)
    } else {
        match planned(list[chosen[at as int] as int], chosen[at as int], args) {
            PlannedModel::Remove { index, opts } => (
                Seq::empty(),
                at,
                Task::Remove { index, opts },
            ),
            PlannedModel::Skip { line } => {
                let (rest, to, task) = going_on(list, args, chosen, at + 1, removed);
                (seq![line] + rest, to, task)
            },
        }
    }
}

impl Cleaning {
    /// What was selected is among the candidates, and no more is gone than was
    /// dealt with.
    pub open spec fn wf(&self) -> bool {
        &&& forall|i: int|
            0 <= i < self.chosen@.len() ==> #[trigger] self.chosen@[i] < self.candidates@.len()
        &&& self.removed <= self.at <= self.chosen@.len()
    }

    /// Nothing is selected yet.
    pub open spec fn fresh(&self) -> bool {
        self.chosen@.len() == 0 && self.at == 0 && self.removed == 0
    }

    /// A removal has been asked for and not been reported on.
    pub open spec fn removing(&self) -> bool {
        &&& self.at < self.chosen@.len()
        &&& planned(
            self.candidates@[self.chosen@[self.at as int] as int]@,
            self.chosen@[self.at as int],
            self.args,
        ) is Remove
    }

    /// The same command, with the same candidates and flags.
    pub open spec fn same_command(&self, other: Cleaning) -> bool {
        self.candidates == other.candidates && self.args == other.args
    }

    /// Goes on to the next candidate to remove, naming those it passes over.
    fn go_on(&mut self, said: Vec<String>) -> (r: Turn)
        requires
            old(self).wf(),
        ensures
            final(self).wf(),
            final(self).same_command(*old(self)),
            final(self).chosen == old(self).chosen,
            final(self).removed == old(self).removed,
            ({
                let (lines, at, task) = going_on(
                    candidate_models(old(self).candidates@),
                    old(self).args,
                    old(self).chosen@,
                    old(self).at as nat,
                    old(self).removed as nat,
                );
                &&& final(self).at == at
                &&& r@ == (Seq::<Seq<char>>::empty(), readings(said@) + lines, task)
                &&& task is Remove ==> final(self).removing()
                &&& !(task is Choose)
            }),
    {
        let out: Vec<String> = Vec::new();
        assert(readings(out@) =~= Seq::<Seq<char>>::empty());
        let mut err = said;
        let ghost list = candidate_models(self.candidates@);
        let ghost want = going_on(
            list,
            self.args,
            self.chosen@,
            self.at as nat,
            self.removed as nat,
        );
        assert(readings(err@) + want.0 =~= readings(said@) + want.0);
        while self.at < self.chosen.len()
            invariant
                self.wf(),
                self.same_command(*old(self)),
                self.chosen == old(self).chosen,
                self.removed == old(self).removed,
                list == candidate_models(self.candidates@),
                want == going_on(
                    candidate_models(old(self).candidates@),
                    old(self).args,
                    old(self).chosen@,
                    old(self).at as nat,
                    old(self).removed as nat,
                ),
                readings(out@) == Seq::<Seq<char>>::empty(),
                ({
                    let now = going_on(
                        list,
                        self.args,
                        self.chosen@,
                        self.at as nat,
                        self.removed as nat,
                    );
                    &&& now.1 == want.1
                    &&& now.2 == want.2
                    &&& readings(err@) + now.0 == readings(said@) + want.0
                }),
            decreases self.chosen.len() - self.at,
        {
            let index: usize = self.chosen[self.at];
            let ghost before = readings(err@);
            let ghost now = going_on(
                list,
                self.args,
                self.chosen@,
                self.at as nat,
                self.removed as nat,
            );
            assert(list[index as int] == self.candidates@[index as int]@);
            match plan(&self.candidates[index], index, self.args) {
                Planned::Remove { index, opts } => {
                    assert(readings(err@) + Seq::<Seq<char>>::empty() =~= readings(err@));
                    return Turn {
                        said: Printed { out, err },
                        task: Task::Remove { index, opts },
                    };
                },
                Planned::Skip { line } => {
                    let ghost text = line@;
                    err.push(line);
                    assert(readings(err@) =~= before.push(text));
                    self.at += 1;
                    proof {
                        let rest = going_on(
                            list,
                            self.args,
                            self.chosen@,
                            self.at as nat,
                            self.removed as nat,
                        );
                        assert(before.push(text) + rest.0 =~= before + (seq![text] + rest.0));
                    }
                },
            }
        }
        let ghost before = readings(err@);
        if let Some(line) = closing(self.removed) {
            let ghost text = line@;
            err.push(line);
            assert(readings(err@) =~= before + seq![text]);
        } else {
            assert(closing_text(self.removed as nat) =~= Seq::<Seq<char>>::empty());
            assert(before + Seq::<Seq<char>>::empty() =~= before);
        }
        Turn { said: Printed { out, err }, task: Task::Stop }
    }

    /// Takes what came of the screen: `None` when the user backed out.
    pub fn chosen(&mut self, selection: Option<Vec<usize>>) -> (r: Turn)
        requires
            old(self).wf(),
            old(self).fresh(),
            selection matches Some(list) ==> forall|i: int|
                0 <= i < list@.len() ==> #[trigger] list@[i] < old(self).candidates@.len(),
        ensures
            final(self).wf(),
            final(self).same_command(*old(self)),
            match selection {
                None => r@ == (Seq::<Seq<char>>::empty(), Seq::<Seq<char>>::empty(), Task::Stop),
                Some(list) => if list@.len() == 0 {
                    r@ == (Seq::<Seq<char>>::empty(), seq!["Nothing selected."@], Task::Stop)
                } else {
                    let (lines, at, task) = going_on(
                        candidate_models(old(self).candidates@),
                        old(self).args,
                        list@,
                        0,
                        0,
                    );
                    &&& final(self).chosen@ == list@
                    &&& final(self).at == at
                    &&& final(self).removed == 0
                    &&& r@ == (Seq::<Seq<char>>::empty(), lines, task)
                    &&& task is Remove ==> final(self).removing()
                },
            },
    {
        let out: Vec<String> = Vec::new();
        let mut err: Vec<String> = Vec::new();
        assert(readings(out@) =~= Seq::<Seq<char>>::empty());
        assert(readings(err@) =~= Seq::<Seq<char>>::empty());
        let list = match selection {
            None => return Turn { said: Printed { out, err }, task: Task::Stop },
            Some(list) => list,
        };
        if list.len() == 0 {
            err.push("Nothing selected.".to_string());
            assert(readings(err@) =~= seq!["Nothing selected."@]);
            return Turn { said: Printed { out, err }, task: Task::Stop };
        }
        self.chosen = list;
        let r = self.go_on(err);
        proof {
            let lines = going_on(
                candidate_models(old(self).candidates@),
                old(self).args,
                self.chosen@,
                0,
                0,
            ).0;
            assert(Seq::<Seq<char>>::empty() + lines =~= lines);
        }
        r
    }

    /// Takes how a removal went, and goes on to the next. One failure should
    /// not strand the rest of the selection: the user asked for several
    /// removals, not for a transaction.
    pub fn removed(&mut self, outcome: &Result<(), String>) -> (r: Turn)
        requires
            old(self).wf(),
            old(self).removing(),
        ensures
            final(self).wf(),
            final(self).same_command(*old(self)),
            final(self).chosen == old(self).chosen,
            final(self).removed == old(self).removed + (if outcome is Ok {
                1int
            } else {
                0
            }),
            ({
                let done = old(self).candidates@[old(self).chosen@[old(self).at as int] as int]@;
                let (lines, at, task) = going_on(
                    candidate_models(old(self).candidates@),
                    old(self).args,
                    old(self).chosen@,
                    old(self).at as nat + 1,
                    final(self).removed as nat,
                );
                &&& final(self).at == at
                &&& r@ == (
                    Seq::<Seq<char>>::empty(),
                    seq![outcome_text(done, *outcome)] + lines,
                    task,
                )
                &&& task is Remove ==> final(self).removing()
            }),
    {
        let mut err: Vec<String> = Vec::new();
        let candidate = &self.candidates[self.chosen[self.at]];
        err.push(outcome_line(candidate, outcome));
        assert(readings(err@) =~= seq![outcome_text(candidate@, *outcome)]);
        let selected: usize = self.chosen.len();
        assert(self.removed <= self.at < selected);
        if outcome.is_ok() {
            self.removed += 1;
        }
        self.at += 1;
        self.go_on(err)
    }
}

/// Starts `gwx clean` on what could be removed, and says what to do first.
pub fn run(candidates: Vec<Candidate>, terminal: bool, args: CleanArgs) -> (r: (Cleaning, Turn))
    ensures
        r.0.wf(),
        r.0.fresh(),
        r.0.candidates == candidates,
        r.0.args == args,
        match opening_text(candidate_models(candidates@), terminal, args.with_branch) {
            Some((out, err)) => r.1@ == (out, err, Task::Stop),
            None => r.1@ == (Seq::<Seq<char>>::empty(), Seq::<Seq<char>>::empty(), Task::Choose),
        },
{
    let turn = match opening(&candidates, terminal, args.with_branch) {
        Some(said) => Turn { said, task: Task::Stop },
        None => {
            let out: Vec<String> = Vec::new();
            let err: Vec<String> = Vec::new();
            assert(readings(out@) =~= Seq::<Seq<char>>::empty());
            assert(readings(err@) =~= Seq::<Seq<char>>::empty());
            Turn { said: Printed { out, err }, task: Task::Choose }
        },
    };
    (Cleaning { candidates, args, chosen: Vec::new(), at: 0, removed: 0 }, turn)
}

/// The candidates that are removed from the selected one at `at` on, where the
/// removal of the one at place `i` succeeds as `went_well` says.
pub open spec fn attempted(
    list: Seq<CandidateModel>,
    args: CleanArgs,
    chosen: Seq<usize>,
    at: nat,
    removed: nat,
    went_well: spec_fn(int) -> bool,
) -> (Seq<usize>, nat)
    decreases chosen.len() - at,
{
    let (_, to, task) = going_on(list, args, chosen, at, removed);
    match task {
        Task::Remove { index, .. } => if at <= to < chosen.len() {
            let gone = if went_well(to as int) {
                removed + 1
            } else {
                removed
            };
            let (rest, total) = attempted(list, args, chosen, to + 1, gone, went_well);
            (seq![index] + rest, total)
        } else {
            (Seq::empty(), removed)
        },
        _ => (Seq::empty(), removed),
    }
}

/// The selected candidates from `at` on that are not skipped.
pub open spec fn to_remove(
    list: Seq<CandidateModel>,
    args: CleanArgs,
    chosen: Seq<usize>,
    at: nat,
) -> Seq<usize>
    decreases chosen.len() - at,
{
    if at >= chosen.len() {
        Seq::empty()
    } else {
        let rest = to_remove(list, args, chosen, at + 1);
        if planned(list[chosen[at as int] as int], chosen[at as int], args) is Remove {
            seq![chosen[at as int]] + rest
        } else {
            rest
        }
    }
}

/// How many of the places from `at` on are removed, and successfully.
pub open spec fn well_removed(
    list: Seq<CandidateModel>,
    args: CleanArgs,
    chosen: Seq<usize>,
    at: nat,
    went_well: spec_fn(int) -> bool,
) -> nat
    decreases chosen.len() - at,
{
    if at >= chosen.len() {
        0
    } else {
        well_removed(list, args, chosen, at + 1, went_well) + if planned(
            list[chosen[at as int] as int],
            chosen[at as int],
            args,
        ) is Remove && went_well(at as int) {
            1nat
        } else {
            0
        }
    }
}

/// One failure does not strand the rest: whichever removals fail, every
/// selected candidate that is not skipped is tried, once and in order, and the
/// count at the end is that of the removals that went well.
pub proof fn law_one_failure_strands_nobody(
    list: Seq<CandidateModel>,
    args: CleanArgs,
    chosen: Seq<usize>,
    at: nat,
    removed: nat,
    went_well: spec_fn(int) -> bool,
)
    ensures
        attempted(list, args, chosen, at, removed, went_well) == (
            to_remove(list, args, chosen, at),
            removed + well_removed(list, args, chosen, at, went_well),
        ),
    decreases chosen.len() - at,
{
    if at < chosen.len() {
        match planned(list[chosen[at as int] as int], chosen[at as int], args) {
            PlannedModel::Remove { .. } => {
                let gone = if went_well(at as int) {
                    removed + 1
                } else {
                    removed
                };
                law_one_failure_strands_nobody(list, args, chosen, at + 1, gone, went_well);
            },
            PlannedModel::Skip { .. } => {
                law_one_failure_strands_nobody(list, args, chosen, at + 1, removed, went_well);
                lemma_going_on_stays_inside(list, args, chosen, at + 1, removed);
                let next = going_on(list, args, chosen, at + 1, removed);
                assert(going_on(list, args, chosen, at, removed).1 == next.1);
                assert(going_on(list, args, chosen, at, removed).2 == next.2);
                assert(attempted(list, args, chosen, at, removed, went_well) == attempted(
                    list,
                    args,
                    chosen,
                    at + 1,
                    removed,
                    went_well,
                ));
            },
        }
    }
}

proof fn lemma_going_on_stays_inside(
    list: Seq<CandidateModel>,
    args: CleanArgs,
    chosen: Seq<usize>,
    at: nat,
    removed: nat,
)
    ensures
        at <= going_on(list, args, chosen, at, removed).1,
        going_on(list, args, chosen, at, removed).2 is Remove ==> going_on(
            list,
            args,
            chosen,
            at,
            removed,
        ).1 < chosen.len(),
    decreases chosen.len() - at,
{
    if at < chosen.len() {
        lemma_going_on_stays_inside(list, args, chosen, at + 1, removed);
    }
}

/// Without `--force`, a candidate with uncommitted changes is never removed,
/// and with it nothing selected is skipped.
pub proof fn law_uncommitted_work_goes_only_by_force(
    candidate: CandidateModel,
    index: usize,
    args: CleanArgs,
)
    ensures
        planned(candidate, index, args) is Remove ==> candidate.state != State::Dirty || args.force,
        planned(candidate, index, args) is Skip <==> candidate.state == State::Dirty
            && !args.force,
{
}

} // verus!
