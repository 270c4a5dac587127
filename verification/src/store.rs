//! The ordered task store and its four operations.

use vstd::prelude::*;
use crate::error::TaskError;
use crate::input::{affirmative, affirmative_token, is_affirmative};
use crate::task::{Task, TaskView};

verus! {

/// The views of a sequence of tasks, in the same order.
pub open spec fn views(tasks: Seq<Task>) -> Seq<TaskView> {
    Seq::new(tasks.len(), |i: int| tasks[i]@)
}

/// Some task of `s` carries the number `id`.
pub open spec fn contains_id(s: Seq<TaskView>, id: nat) -> bool {
    exists|i: int| 0 <= i < s.len() && (#[trigger] s[i]).id == id
}

/// `p` is the place of the first task of `s` that carries the number `id`.
pub open spec fn first_match(s: Seq<TaskView>, id: nat, p: int) -> bool {
    &&& 0 <= p < s.len()
    &&& s[p].id == id
    &&& forall|j: int| 0 <= j < p ==> (#[trigger] s[j]).id != id
}

/// The place of the first task of `s` that carries the number `id`;
/// meaningful only where `contains_id(s, id)`.
pub open spec fn position(s: Seq<TaskView>, id: nat) -> int {
    choose|p: int| first_match(s, id, p)
}

/// No two tasks of `s` carry the same number.
pub open spec fn distinct_ids(s: Seq<TaskView>) -> bool {
    forall|i: int, j: int|
        0 <= i < s.len() && 0 <= j < s.len() && i != j ==> (#[trigger] s[i]).id != (#[trigger] s[j]).id
}

/// The largest number carried in `s`, or 0 for the empty sequence.
pub open spec fn max_id(s: Seq<TaskView>) -> nat
    decreases s.len(),
{
    if s.len() == 0 {
        0
    } else {
        let rest = max_id(s.drop_last());
        if s.last().id > rest {
            s.last().id
        } else {
            rest
        }
    }
}

/// The number that the next new task gets: one more than the largest in `s`,
/// and 1 for the empty sequence.
pub open spec fn next_id(s: Seq<TaskView>) -> nat {
    max_id(s) + 1
}

/// `s` with a new, uncompleted task appended.
pub open spec fn added(s: Seq<TaskView>, title: Seq<char>, description: Seq<char>) -> Seq<TaskView> {
    s.push(TaskView { id: next_id(s), title, description, completed: false })
}

/// `max_id(s)` bounds every number in `s`, and some task carries it unless
/// `s` is empty.
pub proof fn lemma_max_id(s: Seq<TaskView>)
    ensures
        forall|i: int| 0 <= i < s.len() ==> (#[trigger] s[i]).id <= max_id(s),
        s.len() == 0 ==> max_id(s) == 0,
        s.len() > 0 ==> exists|i: int| 0 <= i < s.len() && (#[trigger] s[i]).id == max_id(s),
    decreases s.len(),
{
    if s.len() > 0 {
        let front = s.drop_last();
        lemma_max_id(front);
        assert forall|i: int| 0 <= i < s.len() implies (#[trigger] s[i]).id <= max_id(s) by {
            if i < front.len() {
                assert(front[i] == s[i]);
            }
        }
        if s.last().id > max_id(front) {
            assert(s[s.len() - 1].id == max_id(s));
        } else if front.len() > 0 {
            let k = choose|i: int| 0 <= i < front.len() && (#[trigger] front[i]).id == max_id(front);
            assert(s[k].id == max_id(s));
        } else {
            assert(s[s.len() - 1].id == max_id(s));
        }
    }
}

/// Below any task numbered `id` there is a first one.
proof fn lemma_first_match_below(s: Seq<TaskView>, id: nat, i: int)
    requires
        0 <= i < s.len(),
        s[i].id == id,
    ensures
        exists|p: int| first_match(s, id, p),
    decreases i,
{
    if forall|j: int| 0 <= j < i ==> (#[trigger] s[j]).id != id {
        assert(first_match(s, id, i));
    } else {
        let j = choose|j: int| 0 <= j < i && (#[trigger] s[j]).id == id;
        lemma_first_match_below(s, id, j);
    }
}

/// Where some task carries the number `id`, `position` is the place of the
/// first that does.
pub proof fn lemma_position_found(s: Seq<TaskView>, id: nat)
    requires
        contains_id(s, id),
    ensures
        first_match(s, id, position(s, id)),
{
    let i = choose|i: int| 0 <= i < s.len() && (#[trigger] s[i]).id == id;
    lemma_first_match_below(s, id, i);
}

/// The number of an added task is larger than every number before it, so
/// distinct numbers stay distinct.
pub proof fn lemma_added_distinct(s: Seq<TaskView>, title: Seq<char>, description: Seq<char>)
    ensures
        forall|i: int| 0 <= i < s.len() ==> (#[trigger] s[i]).id < next_id(s),
        distinct_ids(s) ==> distinct_ids(added(s, title, description)),
{
    lemma_max_id(s);
    let r = added(s, title, description);
    if distinct_ids(s) {
        assert forall|i: int, j: int| 0 <= i < r.len() && 0 <= j < r.len() && i != j implies (#[trigger] r[i]).id
            != (#[trigger] r[j]).id by {
            if i < s.len() {
                assert(r[i] == s[i]);
            }
            if j < s.len() {
                assert(r[j] == s[j]);
            }
        }
    }
}

/// There is at most one first match: `position` is that place.
pub proof fn lemma_position(s: Seq<TaskView>, id: nat, p: int)
    requires
        first_match(s, id, p),
    ensures
        contains_id(s, id),
        position(s, id) == p,
{
    let q = position(s, id);
    assert(first_match(s, id, q));
    if q < p {
        assert(s[q].id != id);
    } else if p < q {
        assert(s[p].id != id);
    }
}

/// What an edit makes of one task: an empty text keeps the field, any other
/// replaces it; the flag is raised by an affirmative confirmation and is
/// never lowered.
pub open spec fn edited(
    t: TaskView,
    title: Seq<char>,
    description: Seq<char>,
    confirmation: Seq<char>,
) -> TaskView {
    TaskView {
        id: t.id,
        title: if title.len() == 0 { t.title } else { title },
        description: if description.len() == 0 { t.description } else { description },
        completed: t.completed || affirmative(confirmation),
    }
}

/// `s` after an edit of its first task numbered `id`; `s` itself where no
/// task carries that number.
pub open spec fn revised(
    s: Seq<TaskView>,
    id: nat,
    title: Seq<char>,
    description: Seq<char>,
    confirmation: Seq<char>,
) -> Seq<TaskView> {
    if contains_id(s, id) {
        s.update(position(s, id), edited(s[position(s, id)], title, description, confirmation))
    } else {
        s
    }
}

/// `s` without its first task numbered `id`; `s` itself where no task
/// carries that number.
pub open spec fn deleted(s: Seq<TaskView>, id: nat) -> Seq<TaskView> {
    if contains_id(s, id) {
        s.remove(position(s, id))
    } else {
        s
    }
}

/// What an operation on the task numbered `id` reports.
pub open spec fn found_or_not(s: Seq<TaskView>, id: u32) -> Result<(), TaskError> {
    if contains_id(s, id as nat) {
        Ok(())
    } else {
        Err(TaskError::NotFound(id))
    }
}

/// Removing the first match from a sequence of distinct numbers leaves
/// distinct numbers, and none of them is the one removed.
pub proof fn lemma_remove_distinct(s: Seq<TaskView>, id: nat, p: int)
    requires
        first_match(s, id, p),
    ensures
        distinct_ids(s) ==> distinct_ids(s.remove(p)) && !contains_id(s.remove(p), id),
{
    if distinct_ids(s) {
        let r = s.remove(p);
        assert forall|i: int, j: int| 0 <= i < r.len() && 0 <= j < r.len() && i != j implies (#[trigger] r[i]).id
            != (#[trigger] r[j]).id by {
            let a = if i < p { i } else { i + 1 };
            let b = if j < p { j } else { j + 1 };
            assert(r[i] == s[a] && r[j] == s[b]);
        }
        assert forall|i: int| 0 <= i < r.len() implies (#[trigger] r[i]).id != id by {
            let a = if i < p { i } else { i + 1 };
            assert(r[i] == s[a]);
            assert(s[a].id != s[p].id);
        }
    }
}

/// `s` after one addition for each entry of `entries`, a title with its
/// description, in their order.
pub open spec fn added_all(s: Seq<TaskView>, entries: Seq<(Seq<char>, Seq<char>)>) -> Seq<TaskView>
    decreases entries.len(),
{
    if entries.len() == 0 {
        s
    } else {
        added(added_all(s, entries.drop_last()), entries.last().0, entries.last().1)
    }
}

/// Any run of additions leaves the tasks that were there untouched and in
/// front, and gives the new tasks strictly increasing numbers, each larger
/// than every number that was there: distinct numbers stay distinct. From
/// the empty store the numbers are 1, 2, 3 and so on.
pub proof fn lemma_additions_increase(s: Seq<TaskView>, entries: Seq<(Seq<char>, Seq<char>)>)
    ensures
        added_all(s, entries).len() == s.len() + entries.len(),
        added_all(s, entries).take(s.len() as int) == s,
        forall|i: int, j: int|
            0 <= i < j < added_all(s, entries).len() && s.len() <= j
                ==> (#[trigger] added_all(s, entries)[i]).id < (#[trigger] added_all(s, entries)[j]).id,
        distinct_ids(s) ==> distinct_ids(added_all(s, entries)),
        s.len() == 0 ==> forall|k: int|
            0 <= k < entries.len() ==> (#[trigger] added_all(s, entries)[k]).id == k + 1,
    decreases entries.len(),
{
    let r = added_all(s, entries);
    if entries.len() > 0 {
        let before = added_all(s, entries.drop_last());
        lemma_additions_increase(s, entries.drop_last());
        lemma_added_distinct(before, entries.last().0, entries.last().1);
        lemma_max_id(before);
        assert(r.take(s.len() as int) == before.take(s.len() as int));
        assert forall|i: int, j: int| 0 <= i < j < r.len() && s.len() <= j implies (#[trigger] r[i]).id
            < (#[trigger] r[j]).id by {
            assert(r[i] == before[i]);
            if j < before.len() {
                assert(r[j] == before[j]);
            }
        }
        if s.len() == 0 {
            assert forall|k: int| 0 <= k < entries.len() implies (#[trigger] r[k]).id == k + 1 by {
                if k < before.len() {
                    assert(r[k] == before[k]);
                } else if before.len() > 0 {
                    let m = choose|i: int|
                        0 <= i < before.len() && (#[trigger] before[i]).id == max_id(before);
                    assert(before[m].id == m + 1);
                    assert(before[before.len() - 1].id == before.len());
                }
            }
        }
    } else {
        assert(r.take(s.len() as int) == s);
    }
}

/// An edit keeps every number in its place, so the task stays where it is
/// found and distinct numbers stay distinct.
pub proof fn lemma_edit_keeps_ids(
    s: Seq<TaskView>,
    id: nat,
    p: int,
    title: Seq<char>,
    description: Seq<char>,
    confirmation: Seq<char>,
)
    requires
        first_match(s, id, p),
    ensures
        first_match(s.update(p, edited(s[p], title, description, confirmation)), id, p),
        distinct_ids(s) ==> distinct_ids(s.update(p, edited(s[p], title, description, confirmation))),
{
    let r = s.update(p, edited(s[p], title, description, confirmation));
    assert forall|j: int| 0 <= j < r.len() implies (#[trigger] r[j]).id == s[j].id by {}
    assert forall|j: int| 0 <= j < p implies (#[trigger] r[j]).id != id by {
        assert(s[j].id != id);
    }
    if distinct_ids(s) {
        assert forall|i: int, j: int| 0 <= i < r.len() && 0 <= j < r.len() && i != j implies (#[trigger] r[i]).id
            != (#[trigger] r[j]).id by {
            assert(s[i].id != s[j].id);
        }
    }
}

/// A deletion takes out exactly the first task numbered `id`: the tasks in
/// front of it stay in place, those behind it move up by one, and none of them
/// changes. Where no task carries `id`, nothing changes and the number is
/// reported as not found.
pub proof fn lemma_delete(s: Seq<TaskView>, id: u32)
    ensures
        !contains_id(s, id as nat) ==> {
            &&& deleted(s, id as nat) == s
            &&& found_or_not(s, id) == Err::<(), TaskError>(TaskError::NotFound(id))
        },
        contains_id(s, id as nat) ==> {
            &&& found_or_not(s, id) == Ok::<(), TaskError>(())
            &&& first_match(s, id as nat, position(s, id as nat))
            &&& deleted(s, id as nat).len() == s.len() - 1
            &&& forall|i: int| 0 <= i < position(s, id as nat) ==> deleted(s, id as nat)[i] == s[i]
            &&& forall|i: int|
                position(s, id as nat) <= i < s.len() - 1 ==> deleted(s, id as nat)[i] == s[i + 1]
        },
{
    if contains_id(s, id as nat) {
        lemma_position_found(s, id as nat);
    }
}

/// An edit touches only the first task numbered `id`, and there only as
/// `edited` says. Where no task carries `id`, nothing changes and the number
/// is reported as not found.
pub proof fn lemma_edit(
    s: Seq<TaskView>,
    id: u32,
    title: Seq<char>,
    description: Seq<char>,
    confirmation: Seq<char>,
)
    ensures
        revised(s, id as nat, title, description, confirmation).len() == s.len(),
        !contains_id(s, id as nat) ==> {
            &&& revised(s, id as nat, title, description, confirmation) == s
            &&& found_or_not(s, id) == Err::<(), TaskError>(TaskError::NotFound(id))
        },
        contains_id(s, id as nat) ==> {
            &&& found_or_not(s, id) == Ok::<(), TaskError>(())
            &&& first_match(s, id as nat, position(s, id as nat))
            &&& revised(s, id as nat, title, description, confirmation)[position(s, id as nat)] == edited(
                s[position(s, id as nat)],
                title,
                description,
                confirmation,
            )
            &&& forall|i: int|
                0 <= i < s.len() && i != position(s, id as nat) ==> revised(
                    s,
                    id as nat,
                    title,
                    description,
                    confirmation,
                )[i] == s[i]
        },
{
    if contains_id(s, id as nat) {
        lemma_position_found(s, id as nat);
    }
}

/// An edit with an empty title, an empty description and a confirmation
/// that is not affirmative changes nothing.
pub proof fn lemma_blank_edit(s: Seq<TaskView>, id: u32, confirmation: Seq<char>)
    requires
        !affirmative(confirmation),
    ensures
        revised(s, id as nat, Seq::empty(), Seq::empty(), confirmation) == s,
{
    if contains_id(s, id as nat) {
        lemma_position_found(s, id as nat);
        let p = position(s, id as nat);
        assert(edited(s[p], Seq::empty(), Seq::empty(), confirmation) == s[p]);
        assert(s.update(p, s[p]) == s);
    }
}

/// No edit lowers the flag of any task, whatever is entered.
pub proof fn lemma_edit_never_lowers_flag(
    s: Seq<TaskView>,
    id: u32,
    title: Seq<char>,
    description: Seq<char>,
    confirmation: Seq<char>,
)
    ensures
        forall|i: int|
            0 <= i < s.len() && s[i].completed ==> (#[trigger] revised(
                s,
                id as nat,
                title,
                description,
                confirmation,
            )[i]).completed,
{
    if contains_id(s, id as nat) {
        lemma_position_found(s, id as nat);
    }
}

/// The flag of the edited task: raised by an affirmative confirmation, and by
/// the confirming word itself; as it was after any other. Making the same
/// edit again changes nothing more.
pub proof fn lemma_confirmation(
    s: Seq<TaskView>,
    id: u32,
    title: Seq<char>,
    description: Seq<char>,
    confirmation: Seq<char>,
)
    requires
        contains_id(s, id as nat),
    ensures
        affirmative(affirmative_token()),
        affirmative(confirmation) ==> revised(s, id as nat, title, description, confirmation)[position(
            s,
            id as nat,
        )].completed,
        !affirmative(confirmation) ==> revised(s, id as nat, title, description, confirmation)[position(
            s,
            id as nat,
        )].completed == s[position(s, id as nat)].completed,
        revised(
            revised(s, id as nat, title, description, confirmation),
            id as nat,
            title,
            description,
            confirmation,
        ) == revised(s, id as nat, title, description, confirmation),
{
    lemma_position_found(s, id as nat);
    let p = position(s, id as nat);
    let once = revised(s, id as nat, title, description, confirmation);
    lemma_edit_keeps_ids(s, id as nat, p, title, description, confirmation);
    lemma_position(once, id as nat, p);
    let twice = revised(once, id as nat, title, description, confirmation);
    assert(edited(once[p], title, description, confirmation) == once[p]);
    assert(twice == once);
}

/// The ordered collection of tasks of one session.
pub struct TaskStore {
    pub tasks: Vec<Task>,
}

impl View for TaskStore {
    type V = Seq<TaskView>;

    open spec fn view(&self) -> Seq<TaskView> {
        views(self.tasks@)
    }
}

impl TaskStore {
    /// The empty store.
    pub fn new() -> (store: TaskStore)
        ensures
            store@ == Seq::<TaskView>::empty(),
            distinct_ids(store@),
    {
        TaskStore { tasks: Vec::new() }
    }

    /// The place of the first task numbered `id`, if there is one.
    pub fn find_task(&self, id: u32) -> (found: Option<usize>)
        ensures
            match found {
                Some(p) => first_match(self@, id as nat, p as int),
                None => !contains_id(self@, id as nat),
            },
    {
        let mut i: usize = 0;
        while i < self.tasks.len()
            invariant
                i <= self.tasks.len(),
                forall|j: int| 0 <= j < i ==> (#[trigger] self@[j]).id != id as nat,
            decreases self.tasks.len() - i,
        {
            if self.tasks[i].id == id {
                return Some(i);
            }
            i += 1;
        }
        None
    }

    /// The number that `add_task` would give, or `None` when the largest
    /// number in the store is the largest that a task can carry.
    pub fn next_id(&self) -> (next: Option<u32>)
        ensures
            next == if next_id(self@) <= u32::MAX {
                Some(next_id(self@) as u32)
            } else {
                None
            },
    {
        let mut largest: u32 = 0;
        let mut i: usize = 0;
        while i < self.tasks.len()
            invariant
                i <= self.tasks.len(),
                largest as nat == max_id(self@.take(i as int)),
            decreases self.tasks.len() - i,
        {
            proof {
                assert(self@.take(i + 1).drop_last() == self@.take(i as int));
            }
            if self.tasks[i].id > largest {
                largest = self.tasks[i].id;
            }
            i += 1;
        }
        proof {
            assert(self@.take(i as int) == self@);
        }
        largest.checked_add(1)
    }

    /// Appends a new, uncompleted task and returns its number.
    pub fn add_task(&mut self, title: String, description: String) -> (id: u32)
        requires
            next_id(old(self)@) <= u32::MAX,
        ensures
            id as nat == next_id(old(self)@),
            final(self)@ == added(old(self)@, title@, description@),
            old(self)@.len() == 0 ==> id == 1,
            forall|i: int| 0 <= i < old(self)@.len() ==> (#[trigger] old(self)@[i]).id < id,
            distinct_ids(old(self)@) ==> distinct_ids(final(self)@),
    {
        proof {
            lemma_max_id(self@);
        }
        let ghost grown = added(self@, title@, description@);
        let next = self.next_id();
        let id = next.unwrap();
        self.tasks.push(Task::new(id, title, description));
        proof {
            lemma_added_distinct(old(self)@, grown.last().title, grown.last().description);
            assert(self@ == grown);
        }
        id
    }

    /// All the tasks in store order, or `None` for the empty store.
    pub fn list_tasks(&self) -> (listed: Option<&Vec<Task>>)
        ensures
            self@.len() == 0 <==> listed is None,
            listed matches Some(tasks) ==> *tasks == self.tasks,
    {
        if self.tasks.is_empty() {
            None
        } else {
            Some(&self.tasks)
        }
    }

    /// Changes the first task numbered `id`: a text that is not empty
    /// replaces the title or the description, an empty one keeps it; an
    /// affirmative `confirmation` marks the task completed, any other leaves
    /// the flag as it is.
    pub fn edit_task(
        &mut self,
        id: u32,
        title: &str,
        description: &str,
        confirmation: &str,
    ) -> (result: Result<(), TaskError>)
        ensures
            result == found_or_not(old(self)@, id),
            final(self)@ == revised(old(self)@, id as nat, title@, description@, confirmation@),
            distinct_ids(old(self)@) ==> distinct_ids(final(self)@),
    {
        match self.find_task(id) {
            None => Err(TaskError::NotFound(id)),
            Some(p) => {
                proof {
                    lemma_position(self@, id as nat, p as int);
                    lemma_edit_keeps_ids(self@, id as nat, p as int, title@, description@, confirmation@);
                }
                let task = &mut self.tasks[p];
                if !title.is_empty() {
                    task.title = title.to_owned();
                }
                if !description.is_empty() {
                    task.description = description.to_owned();
                }
                if is_affirmative(confirmation) {
                    task.completed = true;
                }
                Ok(())
            },
        }
    }

    /// Removes the first task numbered `id`; the others keep their fields
    /// and their order.
    pub fn delete_task(&mut self, id: u32) -> (result: Result<(), TaskError>)
        ensures
            result == found_or_not(old(self)@, id),
            final(self)@ == deleted(old(self)@, id as nat),
            distinct_ids(old(self)@) ==> distinct_ids(final(self)@) && !contains_id(final(self)@, id as nat),
    {
        match self.find_task(id) {
            None => Err(TaskError::NotFound(id)),
            Some(p) => {
                proof {
                    lemma_position(self@, id as nat, p as int);
                    lemma_remove_distinct(self@, id as nat, p as int);
                }
                self.tasks.remove(p);
                Ok(())
            },
        }
    }
}

} // verus!
