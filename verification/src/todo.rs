//! The tasks and the store that owns them.

use crate::date::Date;
use crate::model::{
    ids_of, in_category, is_saved_store, keys_of, lemma_restored_is_store, restored, ListView,
    NewTaskView, TaskUpdateView, TaskView,
};
use crate::text::{holds_name, names_of};
use std::collections::HashMap;
use vstd::std_specs::hash::spec_hash_map_iter;
use vstd::std_specs::iter::IteratorSpec;
use vstd::prelude::*;
use vstd::string::StringExecFns;

verus! {

broadcast use vstd::std_specs::hash::group_hash_axioms;

/// A thing to do.
#[derive(Debug)]
pub struct Task {
    pub id: u32,
    pub description: String,
    pub due_date: DueDate,
    pub category: String,
    pub priority: Priority,
}

/// What is needed to make a new [`Task`]; the store adds the identifier.
pub struct NewTask {
    pub description: String,
    pub due_date: DueDate,
    pub category: String,
    pub priority: Priority,
}

/// A change to a task. A field that is `None` leaves the task's field as it
/// is; a date makes the task due on that day.
pub struct TaskUpdate {
    pub description: Option<String>,
    pub due_date: Option<Date>,
    pub category: Option<String>,
}

/// How urgent a task is.
#[derive(Clone, Copy, Debug, PartialEq, Eq, Structural)]
pub enum Priority {
    Low,
    Medium,
    High,
}

/// When a task is due.
#[derive(Clone, Copy, Debug, PartialEq, Eq, Structural)]
pub enum DueDate {
    /// On this day.
    On(Date),
    /// On this day at the latest.
    Before(Date),
    /// At no particular time.
    NoDate,
}

/// How far a task has come.
#[derive(Clone, Copy, Debug, PartialEq, Eq, Structural)]
pub enum Status {
    NotStarted,
    InProgress,
    Completed,
}

/// What an operation of this crate can fail with.
#[derive(Debug)]
pub enum TodoError {
    /// What was written down does not describe a store; the text says why.
    Serialization(String),
    /// No task has the identifier that was given.
    TaskNotFound,
    /// What was given names no day of the calendar.
    InvalidDate,
}

impl TodoError {
    /// The error in words.
    pub open spec fn message_of(self) -> Seq<char> {
        match self {
            TodoError::Serialization(reason) => "Serialization error: "@ + reason@,
            TodoError::TaskNotFound => "Task not found"@,
            TodoError::InvalidDate => "Invalid date"@,
        }
    }

    /// The error in words, for the one who uses the program.
    pub fn message(&self) -> (text: String)
        ensures
            text@ == self.message_of(),
    {
        match self {
            TodoError::Serialization(reason) => {
                let mut text = "Serialization error: ".to_owned();
                text.append(reason.as_str());
                text
            },
            TodoError::TaskNotFound => "Task not found".to_owned(),
            TodoError::InvalidDate => "Invalid date".to_owned(),
        }
    }
}

impl View for Task {
    type V = TaskView;

    open spec fn view(&self) -> TaskView {
        TaskView {
            id: self.id,
            description: self.description@,
            due_date: self.due_date,
            category: self.category@,
            priority: self.priority,
        }
    }
}

impl Clone for Task {
    /// A copy of the task, field for field.
    fn clone(&self) -> (copy: Task)
        ensures
            copy@ == self@,
    {
        Task {
            id: self.id,
            description: self.description.clone(),
            due_date: self.due_date,
            category: self.category.clone(),
            priority: self.priority,
        }
    }
}

impl View for NewTask {
    type V = NewTaskView;

    open spec fn view(&self) -> NewTaskView {
        NewTaskView {
            description: self.description@,
            due_date: self.due_date,
            category: self.category@,
            priority: self.priority,
        }
    }
}

impl View for TaskUpdate {
    type V = TaskUpdateView;

    open spec fn view(&self) -> TaskUpdateView {
        TaskUpdateView {
            description: match self.description {
                Some(description) => Some(description@),
                None => None,
            },
            due_date: self.due_date,
            category: match self.category {
                Some(category) => Some(category@),
                None => None,
            },
        }
    }
}

/// The tasks of one session, and the counter that numbers them.
pub struct TodoList {
    tasks: HashMap<u32, Task>,
    next_id: u32,
}

impl View for TodoList {
    type V = ListView;

    closed spec fn view(&self) -> ListView {
        ListView {
            tasks: self.tasks@.map_values(|task: Task| task@),
            next_id: self.next_id as int,
        }
    }
}

impl TodoList {
    /// Whether this value is a store: see [`ListView::wf`]. Every value that
    /// the functions of this type hand out is one.
    pub open spec fn wf(&self) -> bool {
        self@.wf()
    }

    /// Makes a store without tasks.
    pub fn new() -> (list: TodoList)
        ensures
            list.wf(),
            list@ == ListView::empty(),
    {
        let list = TodoList { tasks: HashMap::new(), next_id: 1 };
        assert(list@.tasks =~= Map::<u32, TaskView>::empty());
        list
    }

    /// The task with the identifier `id`, if there is one.
    pub fn get_task(&self, id: u32) -> (found: Option<&Task>)
        ensures
            match found {
                Some(task) => self@.tasks.contains_key(id) && task@ == self@.tasks[id],
                None => !self@.tasks.contains_key(id),
            },
    {
        self.tasks.get(&id)
    }

    /// Adds a task and returns the identifier it was given.
    pub fn add_task(&mut self, new_task: NewTask) -> (id: u32)
        requires
            old(self).wf(),
            old(self)@.has_room(),
        ensures
            final(self).wf(),
            id == old(self)@.next_id,
            final(self)@ == old(self)@.with_added(new_task@),
    {
        let id: u32 = self.next_id;
        self.tasks.insert(
            id,
            Task {
                id,
                description: new_task.description,
                due_date: new_task.due_date,
                category: new_task.category,
                priority: new_task.priority,
            },
        );
        self.next_id = id + 1;
        assert(self@.tasks =~= old(self)@.with_added(new_task@).tasks);
        id
    }

    /// Removes the task with the identifier `id`.
    pub fn remove_task(&mut self, id: u32) -> (outcome: Result<(), TodoError>)
        requires
            old(self).wf(),
        ensures
            final(self).wf(),
            outcome == old(self)@.found(id),
            final(self)@ == old(self)@.without(id),
    {
        let removed = self.tasks.remove(&id);
        assert(self@.tasks =~= old(self)@.without(id).tasks);
        match removed {
            Some(_) => Ok(()),
            None => Err(TodoError::TaskNotFound),
        }
    }

    /// Changes the fields of the task `id` that `task_update` holds.
    pub fn update_task(&mut self, id: u32, task_update: TaskUpdate) -> (outcome: Result<
        (),
        TodoError,
    >)
        requires
            old(self).wf(),
        ensures
            final(self).wf(),
            outcome == old(self)@.found(id),
            final(self)@ == old(self)@.with_updated(id, task_update@),
    {
        match self.tasks.remove(&id) {
            None => {
                assert(self@.tasks =~= old(self)@.tasks);
                Err(TodoError::TaskNotFound)
            },
            Some(mut task) => {
                if let Some(description) = task_update.description {
                    task.description = description;
                }
                if let Some(date) = task_update.due_date {
                    task.due_date = DueDate::On(date);
                }
                if let Some(category) = task_update.category {
                    task.category = category;
                }
                self.tasks.insert(id, task);
                assert(self@.tasks =~= old(self)@.with_updated(id, task_update@).tasks);
                Ok(())
            },
        }
    }

    /// The tasks whose category is `category`, or all tasks if there is no
    /// filter, each once and in no particular order.
    pub fn list_tasks(&self, category: Option<&str>) -> (listed: Vec<&Task>)
        requires
            self.wf(),
        ensures
            self@.lists(filter_view(category), views_of(listed@)),
            listed@.len() == self@.listed(filter_view(category)).len(),
    {
        let wanted: Option<String> = match category {
            Some(name) => Some(name.to_owned()),
            None => None,
        };
        let ghost filter = filter_view(category);
        // The entries of the map in the order the walk takes them, how many
        // of them the walk has seen, and for each task that was kept the
        // place of its entry in that order.
        let ghost entries = spec_hash_map_iter(&self.tasks).remaining();
        let ghost mut seen: int = 0;
        let ghost mut picks: Seq<int> = Seq::empty();
        let mut listed: Vec<&Task> = Vec::new();
        for entry in it: self.tasks.iter()
            invariant
                self.wf(),
                it.seq() == entries,
                it.index() == seen,
                wanted matches Some(name) ==> filter == Some(name@),
                wanted is None ==> filter is None,
                picks.len() == listed@.len(),
                forall|i: int|
                    0 <= i < picks.len() ==> 0 <= (#[trigger] picks[i]) < seen && listed@[i]
                        == entries[picks[i]].1 && in_category(listed@[i]@, filter),
                forall|i: int, k: int| 0 <= i < k < picks.len() ==> picks[i] < picks[k],
                forall|j: int|
                    0 <= j < seen && in_category((#[trigger] entries[j]).1@, filter) ==> exists|
                        i: int,
                    |
                        0 <= i < picks.len() && #[trigger] picks[i] == j,
        {
            let (_, task) = entry;
            let keep = match &wanted {
                Some(name) => task.category == *name,
                None => true,
            };
            let ghost before = picks;
            if keep {
                listed.push(task);
                proof {
                    picks = picks.push(seen);
                }
            }
            proof {
                assert forall|j: int|
                    0 <= j < seen + 1 && in_category(
                        (#[trigger] entries[j]).1@,
                        filter,
                    ) implies exists|i: int| 0 <= i < picks.len() && #[trigger] picks[i] == j by {
                    if j == seen {
                        assert(picks[picks.len() - 1] == j);
                    } else {
                        let i = choose|i: int| 0 <= i < before.len() && #[trigger] before[i] == j;
                        assert(picks[i] == j);
                    }
                }
                assert forall|i: int| 0 <= i < picks.len() implies 0 <= (#[trigger] picks[i])
                    <= seen && listed@[i] == entries[picks[i]].1 by {
                    if i < before.len() {
                        assert(picks[i] == before[i]);
                    }
                }
                seen = seen + 1;
            }
        }
        proof {
            let ids = ids_of(views_of(listed@));
            // Each task that was kept is the one the store holds under its
            // identifier.
            assert forall|i: int| 0 <= i < listed@.len() implies ids[i] == *entries[picks[i]].0
                && self@.tasks.contains_key(ids[i]) && (#[trigger] listed@[i])@
                == self@.tasks[listed@[i].id] by {
                assert(self@.tasks.contains_key(*entries[picks[i]].0));
            }
            // Two places of the listing took two entries of the map, so two
            // identifiers.
            assert forall|i: int, k: int|
                0 <= i < ids.len() && 0 <= k < ids.len() && i != k implies ids[i] != ids[k] by {
                assert(picks[i] != picks[k]);
            }
            // Each task that the filter lets through is an entry of the map,
            // and was kept.
            assert forall|id: u32| self@.listed(filter).contains(id) implies ids.to_set().contains(
                id,
            ) by {
                let j = choose|j: int|
                    0 <= j < entries.len() && entries[j] == (&id, &self.tasks@[id]);
                let i = choose|i: int| 0 <= i < picks.len() && #[trigger] picks[i] == j;
                assert(ids[i] == id);
            }
            assert(ids.to_set() =~= self@.listed(filter));
            ids.unique_seq_to_set();
        }
        listed
    }

    /// The categories that occur among the tasks, each once and in no
    /// particular order.
    pub fn get_categories(&self) -> (categories: Vec<String>)
        ensures
            names_of(categories@).no_duplicates(),
            names_of(categories@).to_set() == self@.categories(),
            categories@.len() == self@.categories().len(),
    {
        let ghost entries = spec_hash_map_iter(&self.tasks).remaining();
        let ghost mut seen: int = 0;
        let mut categories: Vec<String> = Vec::new();
        for entry in it: self.tasks.iter()
            invariant
                it.seq() == entries,
                it.index() == seen,
                names_of(categories@).no_duplicates(),
                forall|i: int|
                    0 <= i < categories@.len() ==> exists|j: int|
                        0 <= j < seen && (#[trigger] entries[j]).1.category@ == (
                        #[trigger] categories@[i])@,
                forall|j: int|
                    0 <= j < seen ==> names_of(categories@).contains(
                        (#[trigger] entries[j]).1.category@,
                    ),
        {
            let (_, task) = entry;
            let ghost before = categories@;
            if !holds_name(&categories, &task.category) {
                categories.push(task.category.clone());
                assert(names_of(categories@) == names_of(before).push(task.category@));
            }
            proof {
                assert forall|j: int| 0 <= j < seen + 1 implies names_of(categories@).contains(
                    (#[trigger] entries[j]).1.category@,
                ) by {
                    let name = entries[j].1.category@;
                    if names_of(before).contains(name) {
                        let i = choose|i: int|
                            0 <= i < before.len() && names_of(before)[i] == name;
                        assert(names_of(categories@)[i] == name);
                    } else {
                        assert(names_of(categories@)[before.len() as int] == name);
                    }
                }
                seen = seen + 1;
            }
        }
        proof {
            let names = names_of(categories@);
            assert forall|name: Seq<char>| names.to_set().contains(name) implies self@.categories().contains(
                name,
            ) by {
                let i = choose|i: int| 0 <= i < names.len() && names[i] == name;
                let j = choose|j: int|
                    0 <= j < seen && (#[trigger] entries[j]).1.category@ == categories@[i]@;
                assert(self@.tasks.contains_key(*entries[j].0));
            }
            assert forall|name: Seq<char>| self@.categories().contains(name) implies names.to_set().contains(
                name,
            ) by {
                let id = choose|id: u32| #[trigger]
                    self@.tasks.contains_key(id) && self@.tasks[id].category == name;
                let j = choose|j: int|
                    0 <= j < entries.len() && entries[j] == (&id, &self.tasks@[id]);
                assert(names.contains(entries[j].1.category@));
            }
            names.unique_seq_to_set();
        }
        categories
    }

    /// The identifier that the next task will get.
    pub fn next_id(&self) -> (id: u32)
        ensures
            id == self@.next_id,
    {
        self.next_id
    }

    /// What is to be written down of the tasks: a copy of each task beside
    /// the identifier it is filed under, in no particular order. With
    /// [`TodoList::next_id`] this is all of the store, and
    /// [`TodoList::restore`] makes the store of it again.
    pub fn entries(&self) -> (entries: Vec<(u32, Task)>)
        requires
            self.wf(),
        ensures
            self@.written_as(entry_views(entries@)),
    {
        let listed = self.list_tasks(None);
        let ghost listing = views_of(listed@);
        let mut entries: Vec<(u32, Task)> = Vec::new();
        let mut i: usize = 0;
        while i < listed.len()
            invariant
                i <= listed@.len(),
                listing == views_of(listed@),
                entries@.len() == i,
                forall|k: int|
                    0 <= k < i ==> (#[trigger] entries@[k]).0 == listed@[k].id && entries@[k].1@
                        == listed@[k]@,
            decreases listed@.len() - i,
        {
            let task = listed[i];
            entries.push((task.id, task.clone()));
            i = i + 1;
        }
        proof {
            let written = entry_views(entries@);
            assert(keys_of(written) =~= ids_of(listing));
            assert(self@.listed(None) =~= self@.tasks.dom());
            assert forall|k: int| 0 <= k < written.len() implies self@.tasks[(
            #[trigger] written[k]).0] == written[k].1 by {
                assert(self@.tasks[listing[k].id] == listing[k]);
            }
        }
        entries
    }

    /// Makes the store that was written down as `entries`, each a task
    /// beside the identifier it was filed under, and the counter `next_id`.
    /// What does not describe a store is rejected with
    /// [`TodoError::Serialization`]: a counter of 0, a task filed under
    /// another identifier than its own or under one that is not below the
    /// counter, an identifier that occurs twice.
    pub fn restore(entries: Vec<(u32, Task)>, next_id: u32) -> (outcome: Result<
        TodoList,
        TodoError,
    >)
        ensures
            match outcome {
                Ok(list) => {
                    &&& is_saved_store(entry_views(entries@), next_id as int)
                    &&& list.wf()
                    &&& list@ == restored(entry_views(entries@), next_id as int)
                },
                Err(error) => !is_saved_store(entry_views(entries@), next_id as int)
                    && error is Serialization,
            },
    {
        if next_id == 0 {
            return Err(TodoError::Serialization("the next identifier is 0".to_owned()));
        }
        let ghost saved = entry_views(entries@);
        let mut rest = entries;
        let mut tasks: HashMap<u32, Task> = HashMap::new();
        while rest.len() > 0
            invariant
                1 <= next_id,
                saved == entry_views(entries@),
                rest@.len() <= saved.len(),
                entry_views(rest@) == saved.take(rest@.len() as int),
                forall|i: int|
                    rest@.len() <= i < saved.len() ==> {
                        &&& (#[trigger] saved[i]).1.id == saved[i].0
                        &&& saved[i].0 < next_id
                        &&& tasks@.contains_key(saved[i].0)
                        &&& tasks@[saved[i].0]@ == saved[i].1
                    },
                forall|i: int, j: int|
                    rest@.len() <= i < j < saved.len() ==> (#[trigger] saved[i]).0 != (
                    #[trigger] saved[j]).0,
                forall|id: u32|
                    tasks@.contains_key(id) ==> exists|i: int|
                        rest@.len() <= i < saved.len() && (#[trigger] saved[i]).0 == id,
            decreases rest@.len(),
        {
            let ghost at = rest@.len() - 1;
            assert(entry_views(rest@)[at] == saved[at]);
            let (id, task) = rest.pop().unwrap();
            if task.id != id {
                return Err(
                    TodoError::Serialization("a task is filed under another identifier".to_owned()),
                );
            }
            if id >= next_id {
                return Err(
                    TodoError::Serialization(
                        "an identifier is not below the next identifier".to_owned(),
                    ),
                );
            }
            if tasks.contains_key(&id) {
                return Err(TodoError::Serialization("an identifier occurs twice".to_owned()));
            }
            tasks.insert(id, task);
        }
        let list = TodoList { tasks, next_id };
        proof {
            assert(list@.tasks =~= restored(saved, next_id as int).tasks);
            lemma_restored_is_store(saved, next_id as int);
        }
        Ok(list)
    }
}

/// The filter of a listing as the model sees it.
pub open spec fn filter_view(category: Option<&str>) -> Option<Seq<char>> {
    match category {
        Some(name) => Some(name@),
        None => None,
    }
}

/// What was written down of a store, as the model sees it.
pub open spec fn entry_views(entries: Seq<(u32, Task)>) -> Seq<(u32, TaskView)> {
    entries.map_values(|entry: (u32, Task)| (entry.0, entry.1@))
}

/// The tasks of a listing as the model sees them.
pub open spec fn views_of(listing: Seq<&Task>) -> Seq<TaskView> {
    listing.map_values(|task: &Task| task@)
}

} // verus!
