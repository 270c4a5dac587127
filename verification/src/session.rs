//! The menu dialogue as a state machine: each entered line moves the session
//! from one stage to the next and may change the store.

use vstd::prelude::*;
use crate::error::TaskError;
use crate::input::{choice_of, clean_line, decimal_u32, parse_choice, parse_id, trimmed, MenuChoice};
use crate::store::{
    added, contains_id, deleted, distinct_ids, lemma_added_distinct, lemma_edit_keeps_ids, lemma_position,
    lemma_position_found, lemma_remove_distinct, next_id, position, revised, TaskStore,
};
use crate::task::TaskView;

verus! {

/// What the next entered line is taken for, with what was entered so far.
#[derive(Debug)]
pub enum Stage {
    /// A menu choice is awaited.
    Menu,
    /// The title of a new task is awaited.
    AddTitle,
    /// The description of a new task is awaited.
    AddDescription { title: String },
    /// The number of the task to edit is awaited.
    EditId,
    /// The new title of the task numbered `id` is awaited.
    EditTitle { id: u32 },
    /// The new description is awaited.
    EditDescription { id: u32, title: String },
    /// The answer to whether the task is completed is awaited.
    EditConfirmation { id: u32, title: String, description: String },
    /// The number of the task to delete is awaited.
    DeleteId,
    /// The user has left: the store is to be saved, and no line is awaited.
    Finished,
}

/// A stage with its texts as sequences of characters.
pub enum StageView {
    Menu,
    AddTitle,
    AddDescription { title: Seq<char> },
    EditId,
    EditTitle { id: u32 },
    EditDescription { id: u32, title: Seq<char> },
    EditConfirmation { id: u32, title: Seq<char>, description: Seq<char> },
    DeleteId,
    Finished,
}

impl View for Stage {
    type V = StageView;

    open spec fn view(&self) -> StageView {
        match *self {
            Stage::Menu => StageView::Menu,
            Stage::AddTitle => StageView::AddTitle,
            Stage::AddDescription { title } => StageView::AddDescription { title: title@ },
            Stage::EditId => StageView::EditId,
            Stage::EditTitle { id } => StageView::EditTitle { id },
            Stage::EditDescription { id, title } => StageView::EditDescription { id, title: title@ },
            Stage::EditConfirmation { id, title, description } => StageView::EditConfirmation {
                id,
                title: title@,
                description: description@,
            },
            Stage::DeleteId => StageView::DeleteId,
            Stage::Finished => StageView::Finished,
        }
    }
}

/// What a line that was taken leaves to tell the user, before the prompt of
/// the next stage.
#[derive(Debug, Clone, Copy, PartialEq, Eq, Structural)]
pub enum Reply {
    /// Nothing: the next prompt follows.
    Prompt,
    /// The line is not one of the five menu keys.
    InvalidChoice,
    /// There is no task to list.
    EmptyList,
    /// All the tasks of the store are to be shown, in store order.
    Listing,
    /// A task was added under this number.
    Added(u32),
    /// The task at this place of the store is the one to edit; it is to be
    /// shown.
    Editing(usize),
    /// The task was updated.
    Updated,
    /// The task was deleted.
    Deleted,
    /// The session is over.
    Leaving,
}

/// One turn of the dialogue: the store and the stage after a line, and what
/// is reported.
pub struct Turn {
    pub store: Seq<TaskView>,
    pub stage: StageView,
    pub reply: Result<Reply, TaskError>,
}

/// The turn that a menu choice makes.
pub open spec fn choose_from_menu(store: Seq<TaskView>, choice: MenuChoice) -> Turn {
    match choice {
        MenuChoice::Add => Turn { store, stage: StageView::AddTitle, reply: Ok(Reply::Prompt) },
        MenuChoice::List => Turn {
            store,
            stage: StageView::Menu,
            reply: Ok(if store.len() == 0 { Reply::EmptyList } else { Reply::Listing }),
        },
        MenuChoice::Edit => Turn { store, stage: StageView::EditId, reply: Ok(Reply::Prompt) },
        MenuChoice::Delete => Turn { store, stage: StageView::DeleteId, reply: Ok(Reply::Prompt) },
        MenuChoice::Exit => Turn { store, stage: StageView::Finished, reply: Ok(Reply::Leaving) },
        MenuChoice::Invalid => Turn { store, stage: StageView::Menu, reply: Ok(Reply::InvalidChoice) },
    }
}

/// The turn that the line entered for the number of the task to edit makes.
pub open spec fn pick_for_edit(store: Seq<TaskView>, entered: Option<u32>) -> Turn {
    match entered {
        None => Turn { store, stage: StageView::Menu, reply: Err(TaskError::ParseFailure) },
        Some(id) => if contains_id(store, id as nat) {
            Turn {
                store,
                stage: StageView::EditTitle { id },
                reply: Ok(Reply::Editing(position(store, id as nat) as usize)),
            }
        } else {
            Turn { store, stage: StageView::Menu, reply: Err(TaskError::NotFound(id)) }
        },
    }
}

/// The turn that the line entered for the number of the task to delete makes.
pub open spec fn pick_for_delete(store: Seq<TaskView>, entered: Option<u32>) -> Turn {
    match entered {
        None => Turn { store, stage: StageView::Menu, reply: Err(TaskError::ParseFailure) },
        Some(id) => Turn {
            store: deleted(store, id as nat),
            stage: StageView::Menu,
            reply: if contains_id(store, id as nat) {
                Ok(Reply::Deleted)
            } else {
                Err(TaskError::NotFound(id))
            },
        },
    }
}

/// The turn that `line` makes at `stage`. Every line is taken without its
/// surrounding whitespace.
pub open spec fn turn(store: Seq<TaskView>, stage: StageView, line: Seq<char>) -> Turn {
    match stage {
        StageView::Menu => choose_from_menu(store, choice_of(trimmed(line))),
        StageView::AddTitle => Turn {
            store,
            stage: StageView::AddDescription { title: trimmed(line) },
            reply: Ok(Reply::Prompt),
        },
        StageView::AddDescription { title } => Turn {
            store: added(store, title, trimmed(line)),
            stage: StageView::Menu,
            reply: Ok(Reply::Added(next_id(store) as u32)),
        },
        StageView::EditId => pick_for_edit(store, decimal_u32(trimmed(line))),
        StageView::EditTitle { id } => Turn {
            store,
            stage: StageView::EditDescription { id, title: trimmed(line) },
            reply: Ok(Reply::Prompt),
        },
        StageView::EditDescription { id, title } => Turn {
            store,
            stage: StageView::EditConfirmation { id, title, description: trimmed(line) },
            reply: Ok(Reply::Prompt),
        },
        StageView::EditConfirmation { id, title, description } => Turn {
            store: revised(store, id as nat, title, description, trimmed(line)),
            stage: StageView::Menu,
            reply: if contains_id(store, id as nat) {
                Ok(Reply::Updated)
            } else {
                Err(TaskError::NotFound(id))
            },
        },
        StageView::DeleteId => pick_for_delete(store, decimal_u32(trimmed(line))),
        StageView::Finished => Turn { store, stage: StageView::Finished, reply: Ok(Reply::Leaving) },
    }
}

/// A session ends only by the exit key at the menu, and stays ended.
pub proof fn lemma_leaving(store: Seq<TaskView>, stage: StageView, line: Seq<char>)
    ensures
        turn(store, stage, line).stage is Finished <==> stage is Finished || (stage is Menu && choice_of(
            trimmed(line),
        ) == MenuChoice::Exit),
{
}

/// A line that is reported as a failure leaves the store as it was and
/// leads back to the menu.
pub proof fn lemma_failure_changes_nothing(store: Seq<TaskView>, stage: StageView, line: Seq<char>)
    requires
        turn(store, stage, line).reply is Err,
    ensures
        turn(store, stage, line).store == store,
        turn(store, stage, line).stage is Menu,
{
}

/// No turn of the dialogue makes two tasks carry the same number.
pub proof fn lemma_turn_keeps_ids_distinct(store: Seq<TaskView>, stage: StageView, line: Seq<char>)
    requires
        distinct_ids(store),
    ensures
        distinct_ids(turn(store, stage, line).store),
{
    match stage {
        StageView::AddDescription { title } => {
            lemma_added_distinct(store, title, trimmed(line));
        },
        StageView::EditConfirmation { id, title, description } => {
            if contains_id(store, id as nat) {
                let p = position(store, id as nat);
                lemma_position_found(store, id as nat);
                lemma_edit_keeps_ids(store, id as nat, p, title, description, trimmed(line));
            }
        },
        StageView::DeleteId => {
            match decimal_u32(trimmed(line)) {
                Some(id) => {
                    if contains_id(store, id as nat) {
                        lemma_position_found(store, id as nat);
                        lemma_remove_distinct(store, id as nat, position(store, id as nat));
                    }
                },
                None => {},
            }
        },
        _ => {},
    }
}

/// Takes one entered line: changes the store as the stage asks, and returns
/// the next stage with what is to be reported.
pub fn step(store: &mut TaskStore, stage: Stage, line: &str) -> (taken: (Stage, Result<Reply, TaskError>))
    requires
        stage@ is AddDescription ==> next_id(old(store)@) <= u32::MAX,
    ensures
        final(store)@ == turn(old(store)@, stage@, line@).store,
        taken.0@ == turn(old(store)@, stage@, line@).stage,
        taken.1 == turn(old(store)@, stage@, line@).reply,
{
    match stage {
        Stage::Menu => match parse_choice(line) {
            MenuChoice::Add => (Stage::AddTitle, Ok(Reply::Prompt)),
            MenuChoice::List => if store.list_tasks().is_none() {
                (Stage::Menu, Ok(Reply::EmptyList))
            } else {
                (Stage::Menu, Ok(Reply::Listing))
            },
            MenuChoice::Edit => (Stage::EditId, Ok(Reply::Prompt)),
            MenuChoice::Delete => (Stage::DeleteId, Ok(Reply::Prompt)),
            MenuChoice::Exit => (Stage::Finished, Ok(Reply::Leaving)),
            MenuChoice::Invalid => (Stage::Menu, Ok(Reply::InvalidChoice)),
        },
        Stage::AddTitle => (Stage::AddDescription { title: clean_line(line) }, Ok(Reply::Prompt)),
        Stage::AddDescription { title } => {
            let id = store.add_task(title, clean_line(line));
            (Stage::Menu, Ok(Reply::Added(id)))
        },
        Stage::EditId => match parse_id(line) {
            Err(failure) => (Stage::Menu, Err(failure)),
            Ok(id) => match store.find_task(id) {
                None => (Stage::Menu, Err(TaskError::NotFound(id))),
                Some(place) => {
                    proof {
                        lemma_position(store@, id as nat, place as int);
                    }
                    (Stage::EditTitle { id }, Ok(Reply::Editing(place)))
                },
            },
        },
        Stage::EditTitle { id } => (
            Stage::EditDescription { id, title: clean_line(line) },
            Ok(Reply::Prompt),
        ),
        Stage::EditDescription { id, title } => (
            Stage::EditConfirmation { id, title, description: clean_line(line) },
            Ok(Reply::Prompt),
        ),
        Stage::EditConfirmation { id, title, description } => {
            let confirmation = clean_line(line);
            match store.edit_task(id, title.as_str(), description.as_str(), confirmation.as_str()) {
                Ok(()) => (Stage::Menu, Ok(Reply::Updated)),
                Err(failure) => (Stage::Menu, Err(failure)),
            }
        },
        Stage::DeleteId => match parse_id(line) {
            Err(failure) => (Stage::Menu, Err(failure)),
            Ok(id) => match store.delete_task(id) {
                Ok(()) => (Stage::Menu, Ok(Reply::Deleted)),
                Err(failure) => (Stage::Menu, Err(failure)),
            },
        },
        Stage::Finished => (Stage::Finished, Ok(Reply::Leaving)),
    }
}

} // verus!
