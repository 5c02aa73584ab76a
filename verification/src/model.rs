//! The mathematical model of the task list: what a task, a request and the
//! store are, and what each operation of the store does to them.

use crate::date::Date;
use crate::todo::{DueDate, Priority, TodoError};
use vstd::prelude::*;

verus! {

/// A task as the store holds it.
pub struct TaskView {
    pub id: u32,
    pub description: Seq<char>,
    pub due_date: DueDate,
    pub category: Seq<char>,
    pub priority: Priority,
}

/// A request to create a task.
pub struct NewTaskView {
    pub description: Seq<char>,
    pub due_date: DueDate,
    pub category: Seq<char>,
    pub priority: Priority,
}

/// A request to change some fields of a task. An absent field asks for no
/// change.
pub struct TaskUpdateView {
    pub description: Option<Seq<char>>,
    pub due_date: Option<Date>,
    pub category: Option<Seq<char>>,
}

/// The task that a request creates under the identifier `id`.
pub open spec fn task_of(id: u32, new_task: NewTaskView) -> TaskView {
    TaskView {
        id,
        description: new_task.description,
        due_date: new_task.due_date,
        category: new_task.category,
        priority: new_task.priority,
    }
}

/// The task after an update: each field that the update holds replaces the
/// task's own, a date as the day the task is due on; the identifier and the
/// priority stay.
pub open spec fn apply_update(task: TaskView, update: TaskUpdateView) -> TaskView {
    TaskView {
        id: task.id,
        description: match update.description {
            Some(description) => description,
            None => task.description,
        },
        due_date: match update.due_date {
            Some(date) => DueDate::On(date),
            None => task.due_date,
        },
        category: match update.category {
            Some(category) => category,
            None => task.category,
        },
        priority: task.priority,
    }
}

/// Whether a listing filtered by `category` shows the task: a listing without
/// a filter shows every task, one with a filter those whose category is the
/// filter, character for character.
pub open spec fn in_category(task: TaskView, category: Option<Seq<char>>) -> bool {
    match category {
        Some(wanted) => task.category == wanted,
        None => true,
    }
}

/// The store: the tasks by identifier, and the identifier that the next task
/// will get.
pub struct ListView {
    pub tasks: Map<u32, TaskView>,
    pub next_id: int,
}

impl ListView {
    /// What holds of every store: each task is filed under its own
    /// identifier, and the next identifier lies above all that are in use.
    pub open spec fn wf(self) -> bool {
        &&& self.tasks.dom().finite()
        &&& 1 <= self.next_id <= u32::MAX
        &&& forall|id: u32| #[trigger]
            self.tasks.contains_key(id) ==> self.tasks[id].id == id && id < self.next_id
    }

    /// The store without tasks, whose first task will get the identifier 1.
    pub open spec fn empty() -> ListView {
        ListView { tasks: Map::empty(), next_id: 1 }
    }

    /// Whether the store can still hand out an identifier.
    pub open spec fn has_room(self) -> bool {
        self.next_id < u32::MAX
    }

    /// The store after a task was added.
    pub open spec fn with_added(self, new_task: NewTaskView) -> ListView {
        ListView {
            tasks: self.tasks.insert(self.next_id as u32, task_of(self.next_id as u32, new_task)),
            next_id: self.next_id + 1,
        }
    }

    /// What an operation on the task `id` reports: success if the store
    /// holds that task, [`TodoError::TaskNotFound`] if it does not.
    pub open spec fn found(self, id: u32) -> Result<(), TodoError> {
        if self.tasks.contains_key(id) {
            Ok(())
        } else {
            Err(TodoError::TaskNotFound)
        }
    }

    /// The store after `id` was asked to be removed.
    pub open spec fn without(self, id: u32) -> ListView {
        ListView { tasks: self.tasks.remove(id), next_id: self.next_id }
    }

    /// The store after `id` was asked to be updated.
    pub open spec fn with_updated(self, id: u32, update: TaskUpdateView) -> ListView {
        if self.tasks.contains_key(id) {
            ListView {
                tasks: self.tasks.insert(id, apply_update(self.tasks[id], update)),
                next_id: self.next_id,
            }
        } else {
            self
        }
    }

    /// The identifiers that a listing filtered by `category` shows.
    pub open spec fn listed(self, category: Option<Seq<char>>) -> Set<u32> {
        Set::new(|id: u32| self.tasks.contains_key(id) && in_category(self.tasks[id], category))
    }

    /// The categories that occur among the tasks.
    pub open spec fn categories(self) -> Set<Seq<char>> {
        Set::new(
            |category: Seq<char>|
                exists|id: u32| #[trigger]
                    self.tasks.contains_key(id) && self.tasks[id].category == category,
        )
    }

    /// Whether `listing` is what a listing filtered by `category` shows:
    /// each task that the filter lets through, as the store holds it, once.
    pub open spec fn lists(self, category: Option<Seq<char>>, listing: Seq<TaskView>) -> bool {
        &&& ids_of(listing).no_duplicates()
        &&& ids_of(listing).to_set() == self.listed(category)
        &&& forall|i: int|
            0 <= i < listing.len() ==> self.tasks[(#[trigger] listing[i]).id] == listing[i]
    }

    /// Whether `entries` is what is written down of the store: one entry
    /// for each task, the task beside the identifier it is filed under.
    pub open spec fn written_as(self, entries: Seq<(u32, TaskView)>) -> bool {
        &&& keys_of(entries).no_duplicates()
        &&& keys_of(entries).to_set() == self.tasks.dom()
        &&& forall|i: int|
            0 <= i < entries.len() ==> self.tasks[(#[trigger] entries[i]).0] == entries[i].1
    }

    /// The store after one step of a session.
    pub open spec fn after(self, step: Step) -> ListView {
        match step {
            Step::Add(new_task) => self.with_added(new_task),
            Step::Remove(id) => self.without(id),
            Step::Update(id, update) => self.with_updated(id, update),
        }
    }

    /// The store after the steps of a session, taken in order.
    pub open spec fn after_all(self, steps: Seq<Step>) -> ListView
        decreases steps.len(),
    {
        if steps.len() == 0 {
            self
        } else {
            self.after_all(steps.drop_last()).after(steps.last())
        }
    }
}

/// The identifiers of the tasks of a listing, in its order.
pub open spec fn ids_of(listing: Seq<TaskView>) -> Seq<u32> {
    listing.map_values(|task: TaskView| task.id)
}

/// A request that changes the store.
pub enum Step {
    Add(NewTaskView),
    Remove(u32),
    Update(u32, TaskUpdateView),
}

/// How many tasks the steps add.
pub open spec fn additions(steps: Seq<Step>) -> nat
    decreases steps.len(),
{
    if steps.len() == 0 {
        0
    } else {
        additions(steps.drop_last()) + if steps.last() is Add {
            1nat
        } else {
            0nat
        }
    }
}

/// The identifiers that the additions among the steps return, in order, when
/// the steps are taken from the empty store.
pub open spec fn issued(steps: Seq<Step>) -> Seq<int>
    decreases steps.len(),
{
    if steps.len() == 0 {
        Seq::empty()
    } else if steps.last() is Add {
        issued(steps.drop_last()).push(ListView::empty().after_all(steps.drop_last()).next_id)
    } else {
        issued(steps.drop_last())
    }
}

/// How many of the steps, taken in order from the empty store, remove a task
/// that is there.
pub open spec fn removals(steps: Seq<Step>) -> nat
    decreases steps.len(),
{
    if steps.len() == 0 {
        0
    } else {
        removals(steps.drop_last()) + if steps.last() matches Step::Remove(id)
            && ListView::empty().after_all(steps.drop_last()).tasks.contains_key(id) {
            1nat
        } else {
            0nat
        }
    }
}

/// The update that asks for no change.
pub open spec fn no_change() -> TaskUpdateView {
    TaskUpdateView { description: None, due_date: None, category: None }
}

/// The update that asks for another category and nothing else.
pub open spec fn only_category(category: Seq<char>) -> TaskUpdateView {
    TaskUpdateView { description: None, due_date: None, category: Some(category) }
}

/// Every operation hands on a store: adding, while there is room, removing
/// and updating keep each task under its own identifier and the next
/// identifier above all that are in use.
pub proof fn lemma_steps_keep_store(list: ListView, step: Step)
    requires
        list.wf(),
        step is Add ==> list.has_room(),
    ensures
        list.after(step).wf(),
{
}

/// Identifiers count the additions: after any steps from the empty store, of
/// which `n` add a task, the next task gets the identifier `n + 1`, whatever
/// was removed or updated in between. While that fits the counter, what the
/// steps leave is a store.
pub proof fn lemma_identifiers_count_additions(steps: Seq<Step>)
    ensures
        ListView::empty().after_all(steps).next_id == 1 + additions(steps),
        additions(steps) < u32::MAX ==> ListView::empty().after_all(steps).wf(),
    decreases steps.len(),
{
    if steps.len() > 0 {
        lemma_identifiers_count_additions(steps.drop_last());
        if additions(steps) < u32::MAX {
            lemma_steps_keep_store(ListView::empty().after_all(steps.drop_last()), steps.last());
        }
    }
}

/// Identifiers are handed out in order: whatever the steps of a session,
/// the first addition returns 1, the second 2, and so on, each one more than
/// the one before, whatever was removed or updated in between.
pub proof fn lemma_identifiers_in_order(steps: Seq<Step>)
    ensures
        issued(steps).len() == additions(steps),
        forall|k: int| 0 <= k < issued(steps).len() ==> #[trigger] issued(steps)[k] == k + 1,
    decreases steps.len(),
{
    if steps.len() > 0 {
        lemma_identifiers_in_order(steps.drop_last());
        lemma_identifiers_count_additions(steps.drop_last());
    }
}

/// The store holds as many tasks as were added less those that were removed.
pub proof fn lemma_size_counts_steps(steps: Seq<Step>)
    requires
        additions(steps) < u32::MAX,
    ensures
        ListView::empty().after_all(steps).tasks.dom().len() == additions(steps) - removals(steps),
    decreases steps.len(),
{
    if steps.len() > 0 {
        lemma_size_counts_steps(steps.drop_last());
        lemma_identifiers_count_additions(steps.drop_last());
    }
}

/// A task that was just added can be removed once: the first removal
/// succeeds and leaves the tasks that were there before the addition, and a
/// second one reports that the task is not found.
pub proof fn lemma_remove_added_once(list: ListView, new_task: NewTaskView)
    requires
        list.wf(),
        list.has_room(),
    ensures
        list.with_added(new_task).found(list.next_id as u32) is Ok,
        list.with_added(new_task).without(list.next_id as u32).tasks == list.tasks,
        list.with_added(new_task).without(list.next_id as u32).found(list.next_id as u32) == Err::<
            (),
            TodoError,
        >(TodoError::TaskNotFound),
{
}

/// A removal never succeeds twice in a row, whatever the store and the
/// identifier.
pub proof fn lemma_removed_is_gone(list: ListView, id: u32)
    ensures
        list.without(id).found(id) == Err::<(), TodoError>(TodoError::TaskNotFound),
{
}

/// An update without fields succeeds on a task that is there and changes
/// nothing: not that task, not another, not the next identifier.
pub proof fn lemma_no_change(list: ListView, id: u32)
    requires
        list.tasks.contains_key(id),
    ensures
        list.found(id) is Ok,
        apply_update(list.tasks[id], no_change()) == list.tasks[id],
        list.with_updated(id, no_change()) == list,
{
    assert(list.with_updated(id, no_change()).tasks =~= list.tasks);
}

/// An update of the category alone changes the category of that task and
/// nothing else: its other fields stay, and so does every other task.
pub proof fn lemma_only_category(list: ListView, id: u32, category: Seq<char>)
    requires
        list.tasks.contains_key(id),
    ensures
        list.with_updated(id, only_category(category)).tasks[id] == (TaskView {
            category,
            ..list.tasks[id]
        }),
        list.with_updated(id, only_category(category)).tasks.dom() == list.tasks.dom(),
        forall|other: u32|
            other != id && list.tasks.contains_key(other) ==> list.with_updated(
                id,
                only_category(category),
            ).tasks[other] == list.tasks[other],
        list.with_updated(id, only_category(category)).next_id == list.next_id,
{
}

/// A listing holds as many tasks as the filter lets through.
pub proof fn lemma_listing_len(list: ListView, category: Option<Seq<char>>, listing: Seq<TaskView>)
    requires
        list.lists(category, listing),
    ensures
        listing.len() == list.listed(category).len(),
{
    ids_of(listing).unique_seq_to_set();
}

/// A listing without a filter holds every task of the store, so as many as
/// the store holds.
pub proof fn lemma_listing_all(list: ListView, listing: Seq<TaskView>)
    requires
        list.lists(None, listing),
    ensures
        list.listed(None) == list.tasks.dom(),
        listing.len() == list.tasks.dom().len(),
        forall|id: u32|
            list.tasks.contains_key(id) ==> exists|i: int|
                0 <= i < listing.len() && #[trigger] listing[i] == list.tasks[id],
{
    assert(list.listed(None) =~= list.tasks.dom());
    lemma_listing_len(list, None, listing);
    assert forall|id: u32| list.tasks.contains_key(id) implies exists|i: int|
        0 <= i < listing.len() && #[trigger] listing[i] == list.tasks[id] by {
        let i = choose|i: int| 0 <= i < ids_of(listing).len() && ids_of(listing)[i] == id;
        assert(listing[i] == list.tasks[id]);
    }
}

/// A filtered listing holds only tasks of that category, and none at all if
/// no task has the category.
pub proof fn lemma_listing_by_category(
    list: ListView,
    category: Seq<char>,
    listing: Seq<TaskView>,
)
    requires
        list.lists(Some(category), listing),
    ensures
        forall|i: int| 0 <= i < listing.len() ==> (#[trigger] listing[i]).category == category,
        !list.categories().contains(category) ==> listing.len() == 0,
{
    assert forall|i: int| 0 <= i < listing.len() implies (#[trigger] listing[i]).category
        == category by {
        assert(ids_of(listing)[i] == listing[i].id);
        assert(ids_of(listing).to_set().contains(listing[i].id));
    }
    if !list.categories().contains(category) && listing.len() > 0 {
        assert(ids_of(listing)[0] == listing[0].id);
        assert(ids_of(listing).to_set().contains(listing[0].id));
    }
}

/// The identifiers that entries are filed under, in their order.
pub open spec fn keys_of(entries: Seq<(u32, TaskView)>) -> Seq<u32> {
    entries.map_values(|entry: (u32, TaskView)| entry.0)
}

/// Whether entries and a counter describe a store: the counter is at least
/// 1, every task is filed under its own identifier, below the counter, and no
/// identifier occurs twice.
pub open spec fn is_saved_store(entries: Seq<(u32, TaskView)>, next_id: int) -> bool {
    &&& 1 <= next_id <= u32::MAX
    &&& forall|i: int|
        0 <= i < entries.len() ==> (#[trigger] entries[i]).1.id == entries[i].0 && entries[i].0
            < next_id
    &&& forall|i: int, j: int|
        0 <= i < j < entries.len() ==> (#[trigger] entries[i]).0 != (#[trigger] entries[j]).0
}

/// The store that entries and a counter describe.
pub open spec fn restored(entries: Seq<(u32, TaskView)>, next_id: int) -> ListView {
    ListView {
        tasks: Map::new(
            |id: u32| exists|i: int| 0 <= i < entries.len() && (#[trigger] entries[i]).0 == id,
            |id: u32|
                entries[choose|i: int| 0 <= i < entries.len() && (#[trigger] entries[i]).0 == id].1,
        ),
        next_id,
    }
}

/// What describes a store gives a store back.
pub proof fn lemma_restored_is_store(entries: Seq<(u32, TaskView)>, next_id: int)
    requires
        is_saved_store(entries, next_id),
    ensures
        restored(entries, next_id).wf(),
        restored(entries, next_id).tasks.dom().len() == entries.len(),
{
    let keys = entries.map_values(|entry: (u32, TaskView)| entry.0);
    assert(restored(entries, next_id).tasks.dom() =~= keys.to_set()) by {
        assert forall|id: u32| keys.to_set().contains(id) implies restored(
            entries,
            next_id,
        ).tasks.dom().contains(id) by {
            let i = choose|i: int| 0 <= i < keys.len() && keys[i] == id;
            assert(entries[i].0 == id);
        }
        assert forall|id: u32|
            restored(entries, next_id).tasks.dom().contains(id) implies keys.to_set().contains(
            id,
        ) by {
            let i = choose|i: int| 0 <= i < entries.len() && (#[trigger] entries[i]).0 == id;
            assert(keys[i] == id);
        }
    }
    assert forall|i: int, j: int|
        0 <= i < keys.len() && 0 <= j < keys.len() && i != j implies keys[i] != keys[j] by {
        if i < j {
            assert(entries[i].0 != entries[j].0);
        } else {
            assert(entries[j].0 != entries[i].0);
        }
    }
    keys.unique_seq_to_set();
    vstd::seq_lib::seq_to_set_is_finite(keys);
}

/// Writing a store down and restoring it gives the same store: what is
/// written down of a store, with its counter, describes a store, and that
/// store is the one that was written down, task for task and with the same
/// next identifier.
pub proof fn lemma_restore_written(list: ListView, entries: Seq<(u32, TaskView)>)
    requires
        list.wf(),
        list.written_as(entries),
    ensures
        is_saved_store(entries, list.next_id),
        restored(entries, list.next_id) == list,
{
    let keys = keys_of(entries);
    assert forall|i: int| 0 <= i < entries.len() implies (#[trigger] entries[i]).1.id
        == entries[i].0 && entries[i].0 < list.next_id by {
        assert(keys[i] == entries[i].0);
        assert(keys.to_set().contains(entries[i].0));
    }
    assert forall|i: int, j: int| 0 <= i < j < entries.len() implies (#[trigger] entries[i]).0 != (
    #[trigger] entries[j]).0 by {
        assert(keys[i] != keys[j]);
    }
    let back = restored(entries, list.next_id);
    assert forall|id: u32| back.tasks.contains_key(id) implies list.tasks.contains_key(id)
        && back.tasks[id] == list.tasks[id] by {
        let i = choose|i: int| 0 <= i < entries.len() && (#[trigger] entries[i]).0 == id;
        assert(keys[i] == id);
        assert(keys.to_set().contains(id));
    }
    assert forall|id: u32| list.tasks.contains_key(id) implies back.tasks.contains_key(id) by {
        assert(keys.to_set().contains(id));
        let i = choose|i: int| 0 <= i < keys.len() && keys[i] == id;
        assert(entries[i].0 == id);
    }
    assert(back.tasks =~= list.tasks);
}

} // verus!
