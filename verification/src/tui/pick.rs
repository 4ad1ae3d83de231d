//! The picker as it runs: what it waits for, and what each thing that happens
//! makes of it.

use vstd::prelude::*;

use crate::git::reading;
use crate::tui::keys::{action_of, KeyEvent, KeyEventKind};
use crate::tui::picker::{
    item_models, law_cursor_stays_inside, stepped, take_key, Item, ItemModel, Outcome, Picker,
    PickerModel, Step, StepModel,
};
use crate::tui::status::{law_notes_change_only_notes, note_readings, noted, Arrival, StatusFeed};

verus! {

/// The picker while it is open.
#[derive(Debug)]
pub struct Picking {
    pub picker: Picker,
    /// The line above the prompt, until the next key.
    pub message: Option<String>,
    pub status: StatusFeed,
}

/// An open picker as contracts speak of it.
pub struct PickingModel {
    pub picker: PickerModel,
    pub message: Option<Seq<char>>,
    pub waiting: bool,
}

impl View for Picking {
    type V = PickingModel;

    open spec fn view(&self) -> PickingModel {
        PickingModel {
            picker: self.picker@,
            message: reading(self.message),
            waiting: self.status.waiting,
        }
    }
}

/// What to wait for.
#[derive(Debug, Clone, Copy, PartialEq, Eq, Structural)]
pub enum Wait {
    /// A key. Nothing else is coming, so there is no need to wake up to check.
    Key,
    /// A key, or after a moment without one, a look at the workers.
    KeyOrStatus,
}

/// What came while waiting.
#[derive(Debug)]
pub enum Event {
    /// A key.
    Key(KeyEvent),
    /// Something else the terminal reports, such as a resize.
    Terminal,
    /// No key for a moment, and this from the workers.
    Status(Arrival),
}

/// What to do next.
#[derive(Debug)]
pub enum Next {
    /// Nothing changed: go on waiting.
    Wait,
    /// Draw the list and wait.
    Redraw,
    /// Open the confirmation dialog for the selected row.
    Delete,
    /// Close the picker.
    Finish(Outcome),
}

/// What to do next, as contracts speak of it.
pub enum NextModel {
    Wait,
    Redraw,
    Delete,
    /// With the path of the chosen worktree, or without one.
    Finish(Option<Seq<u8>>),
}

impl View for Next {
    type V = NextModel;

    open spec fn view(&self) -> NextModel {
        match *self {
            Next::Wait => NextModel::Wait,
            Next::Redraw => NextModel::Redraw,
            Next::Delete => NextModel::Delete,
            Next::Finish(Outcome::Selected(path)) => NextModel::Finish(Some(path@)),
            Next::Finish(Outcome::Cancelled) => NextModel::Finish(None),
        }
    }
}

/// What a step of the list asks of the loop.
pub open spec fn after(step: StepModel) -> NextModel {
    match step {
        StepModel::Stay => NextModel::Redraw,
        StepModel::Delete => NextModel::Delete,
        StepModel::Done(path) => NextModel::Finish(path),
    }
}

impl PickingModel {
    /// With these rows in the list.
    pub open spec fn with_items(self, items: Seq<ItemModel>) -> PickingModel {
        PickingModel { picker: PickerModel { items, ..self.picker }, ..self }
    }

    /// After what came, and what to do next.
    pub open spec fn taken(self, event: Event) -> (PickingModel, NextModel) {
        match event {
            Event::Key(key) => if key.kind == KeyEventKind::Press {
                let (picker, step) = stepped(self.picker, action_of(key));
                (PickingModel { picker, message: None, ..self }, after(step))
            } else {
                (self, NextModel::Redraw)
            },
            Event::Terminal => (self, NextModel::Redraw),
            Event::Status(Arrival::Notes(notes)) => if self.waiting {
                let items = noted(self.picker.items, note_readings(notes@));
                (PickingModel { waiting: false, ..self.with_items(items) }, NextModel::Redraw)
            } else {
                (self, NextModel::Wait)
            },
            Event::Status(Arrival::Empty) => (self, NextModel::Wait),
            Event::Status(Arrival::Disconnected) => (
                PickingModel { waiting: false, ..self },
                NextModel::Wait,
            ),
        }
    }
}

impl Picking {
    /// Opens the picker on these rows, their status still on its way.
    pub fn new(items: Vec<Item>) -> (r: Picking)
        ensures
            r@.picker.items == item_models(items@),
            r@.picker.filter.len() == 0,
            r@.picker.cursor == 0,
            r@.picker.offset == 0,
            !r@.picker.erasing,
            r@.message is None,
            r@.waiting,
    {
        Picking { picker: Picker::new(items), message: None, status: StatusFeed::new() }
    }

    /// What to wait for next.
    pub fn next_key(&self) -> (r: Wait)
        ensures
            r == if self@.waiting {
                Wait::KeyOrStatus
            } else {
                Wait::Key
            },
    {
        if self.status.is_done() {
            Wait::Key
        } else {
            Wait::KeyOrStatus
        }
    }

    /// Takes note of how a deletion went: the line to show, and a status
    /// column that has to be filled in anew.
    pub fn deleted(&mut self, line: Option<String>)
        ensures
            final(self)@ == (PickingModel {
                picker: old(self)@.picker,
                message: reading(line),
                waiting: true,
            }),
    {
        self.message = line;
        self.status = StatusFeed::new();
    }
}

/// Takes what came while the list was on screen.
pub fn pick(open: &mut Picking, event: &Event) -> (r: Next)
    ensures
        (final(open)@, r@) == old(open)@.taken(*event),
{
    match event {
        Event::Key(key) => match take_key(&mut open.picker, &mut open.message, key) {
            Step::Stay => Next::Redraw,
            Step::Delete => Next::Delete,
            Step::Done(outcome) => Next::Finish(outcome),
        },
        Event::Terminal => Next::Redraw,
        Event::Status(arrival) => if open.status.drain(arrival, &mut open.picker.items) {
            Next::Redraw
        } else {
            Next::Wait
        },
    }
}

/// Status on its way never disturbs the list: the rows stay the same rows, in
/// the same order, with the same ones listed and the same one selected.
pub proof fn law_status_moves_nothing(open: PickingModel, arrival: Arrival)
    ensures
        ({
            let now = open.taken(Event::Status(arrival)).0;
            &&& now.picker.matching() == open.picker.matching()
            &&& now.picker == (PickerModel { items: now.picker.items, ..open.picker })
            &&& now.message == open.message
            &&& now.picker.items.len() == open.picker.items.len()
            &&& forall|i: int|
                0 <= i < open.picker.items.len() ==> (#[trigger] now.picker.items[i])
                    == (ItemModel { note: now.picker.items[i].note, ..open.picker.items[i] })
        }),
{
    let now = open.taken(Event::Status(arrival)).0;
    match arrival {
        Arrival::Notes(notes) => {
            law_notes_change_only_notes(open.picker.items, note_readings(notes@));
            assert(now.picker.lowered() =~= open.picker.lowered());
        },
        _ => {},
    }
}

/// The cursor stays inside the list, whatever comes.
pub proof fn law_cursor_stays_inside_whatever_comes(open: PickingModel, event: Event)
    requires
        open.picker.cursor_inside(),
    ensures
        open.taken(event).0.picker.cursor_inside(),
{
    match event {
        Event::Key(key) => {
            law_cursor_stays_inside(open.picker, action_of(key));
        },
        Event::Status(arrival) => {
            law_status_moves_nothing(open, arrival);
        },
        Event::Terminal => {},
    }
}

/// The message stays until a key is pressed, and goes with it.
pub proof fn law_the_message_lasts_until_a_press(open: PickingModel, event: Event)
    ensures
        open.taken(event).0.message == if event matches Event::Key(key) && key.kind
            == KeyEventKind::Press {
            None
        } else {
            open.message
        },
{
}

/// Nothing but a key press closes the picker or opens the dialog, and nothing
/// but a key changes what was typed or where the cursor is.
pub proof fn law_only_a_press_acts(open: PickingModel, event: Event)
    requires
        !(event matches Event::Key(key) && key.kind == KeyEventKind::Press),
    ensures
        open.taken(event).1 is Wait || open.taken(event).1 is Redraw,
        open.taken(event).0.picker.filter == open.picker.filter,
        open.taken(event).0.picker.cursor == open.picker.cursor,
        open.taken(event).0.picker.erasing == open.picker.erasing,
{
}

/// Once the status column is filled in, nothing is waited for but keys.
pub proof fn law_status_comes_once(open: PickingModel, event: Event)
    ensures
        !open.waiting ==> !open.taken(event).0.waiting,
        open.waiting && event is Status && !(event->Status_0 is Empty) ==> !open.taken(
            event,
        ).0.waiting,
{
}

} // verus!
