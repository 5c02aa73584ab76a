//! The decisions of the line-oriented session: what a line of input asks
//! for, which requests it makes of the store, which file names are on offer.
//! Reading the lines, drawing the menu and touching the files is left to the
//! program around this crate.

use crate::date::Date;
use crate::model::{NewTaskView, TaskUpdateView};
use crate::text::{
    decimal_u32, holds_name, lowercased, names_of, parse_u32, same_text, to_lowercase, trim,
    trimmed,
};
use crate::todo::{filter_view, DueDate, NewTask, Priority, TaskUpdate};
use vstd::prelude::*;

verus! {

/// The category of a task that was entered without one.
pub const DEFAULT_CATEGORY: &'static str = "General";

/// What a line at the prompt asks for.
#[derive(Clone, Copy, Debug, PartialEq, Eq, Structural)]
pub enum Command {
    Add,
    Remove,
    List,
    Get,
    Update,
    Categories,
    Save,
    Load,
    EnableTracking,
    Quit,
    Unknown,
}

/// The command that a word names. Commands are written in lower case.
pub open spec fn command_named(word: Seq<char>) -> Command {
    if word == "add"@ {
        Command::Add
    } else if word == "remove"@ {
        Command::Remove
    } else if word == "list"@ {
        Command::List
    } else if word == "get"@ {
        Command::Get
    } else if word == "update"@ {
        Command::Update
    } else if word == "categories"@ {
        Command::Categories
    } else if word == "save"@ {
        Command::Save
    } else if word == "load"@ {
        Command::Load
    } else if word == "enable_tracking"@ {
        Command::EnableTracking
    } else if word == "quit"@ {
        Command::Quit
    } else {
        Command::Unknown
    }
}

/// The command that `word` names.
pub fn command_of_word(word: &str) -> (command: Command)
    ensures
        command == command_named(word@),
{
    if same_text(word, "add") {
        Command::Add
    } else if same_text(word, "remove") {
        Command::Remove
    } else if same_text(word, "list") {
        Command::List
    } else if same_text(word, "get") {
        Command::Get
    } else if same_text(word, "update") {
        Command::Update
    } else if same_text(word, "categories") {
        Command::Categories
    } else if same_text(word, "save") {
        Command::Save
    } else if same_text(word, "load") {
        Command::Load
    } else if same_text(word, "enable_tracking") {
        Command::EnableTracking
    } else if same_text(word, "quit") {
        Command::Quit
    } else {
        Command::Unknown
    }
}

/// The command that a line of input asks for: the one that the line names
/// once the white space around it is gone.
pub fn parse_command(line: &str) -> (command: Command)
    ensures
        command == command_named(trimmed(line@)),
{
    command_of_word(trim(line))
}

/// Whether a word says yes.
pub open spec fn affirms(word: Seq<char>) -> bool {
    ||| word == "y"@
    ||| word == "yes"@
    ||| word == "yeah"@
    ||| word == "yep"@
    ||| word == "ok"@
    ||| word == "sure"@
    ||| word == "true"@
    ||| word == "accept"@
    ||| word == "aff"@
}

/// Whether `word` says yes.
pub fn is_affirmative_word(word: &str) -> (yes: bool)
    ensures
        yes == affirms(word@),
{
    same_text(word, "y") || same_text(word, "yes") || same_text(word, "yeah") || same_text(
        word,
        "yep",
    ) || same_text(word, "ok") || same_text(word, "sure") || same_text(word, "true") || same_text(
        word,
        "accept",
    ) || same_text(word, "aff")
}

/// Whether an answer says yes, in whatever case it was typed and whatever
/// white space stands around it.
pub fn is_affirmative(response: &str) -> (yes: bool)
    ensures
        yes == affirms(lowercased(trimmed(response@))),
{
    let word = to_lowercase(trim(response));
    is_affirmative_word(word.as_str())
}

/// The identifier that a line of input names, if it names one.
pub fn parse_task_id(line: &str) -> (id: Option<u32>)
    ensures
        id == decimal_u32(trimmed(line@)),
{
    parse_u32(trim(line))
}

/// The category that a field stands for: the default where it is empty.
pub open spec fn category_or_default(field: Seq<char>) -> Seq<char> {
    if field.len() == 0 {
        DEFAULT_CATEGORY@
    } else {
        field
    }
}

/// The due date that a field stands for, and whether the field was
/// rejected: an empty field asks for no date; any other is read as a date,
/// and stands for no date where it names none.
pub open spec fn due_date_of_field(field: Seq<char>) -> (DueDate, bool) {
    if field.len() == 0 {
        (DueDate::NoDate, false)
    } else {
        match Date::read(field) {
            Some(date) => (DueDate::On(date), false),
            None => (DueDate::NoDate, true),
        }
    }
}

/// The change that a field asks for: none where it is empty.
pub open spec fn change_of_field(field: Seq<char>) -> Option<Seq<char>> {
    if field.len() == 0 {
        None
    } else {
        Some(field)
    }
}

/// The date that a field asks to change to, and whether the field was
/// rejected: an empty field asks for no change, and so does one that names
/// no date.
pub open spec fn date_change_of_field(field: Seq<char>) -> (Option<Date>, bool) {
    if field.len() == 0 {
        (None, false)
    } else {
        match Date::read(field) {
            Some(date) => (Some(date), false),
            None => (None, true),
        }
    }
}

/// The request that the answers to the three questions of `add` make.
pub open spec fn new_task_entered(
    description: Seq<char>,
    date: Seq<char>,
    category: Seq<char>,
) -> NewTaskView {
    NewTaskView {
        description: trimmed(description),
        due_date: due_date_of_field(trimmed(date)).0,
        category: category_or_default(trimmed(category)),
        priority: Priority::Low,
    }
}

/// The request that the answers to the three questions of `update` make.
pub open spec fn update_entered(
    description: Seq<char>,
    date: Seq<char>,
    category: Seq<char>,
) -> TaskUpdateView {
    TaskUpdateView {
        description: change_of_field(trimmed(description)),
        due_date: date_change_of_field(trimmed(date)).0,
        category: change_of_field(trimmed(category)),
    }
}

/// The category for a field without white space around it: the field
/// itself, or [`DEFAULT_CATEGORY`] where it is empty.
pub fn category_from_field(field: &str) -> (category: String)
    ensures
        category@ == category_or_default(field@),
{
    if field.is_empty() {
        DEFAULT_CATEGORY.to_owned()
    } else {
        field.to_owned()
    }
}

/// The due date for a field without white space around it, and whether the
/// field was rejected because it names no date.
pub fn due_date_from_field(field: &str) -> (read: (DueDate, bool))
    ensures
        read == due_date_of_field(field@),
{
    if field.is_empty() {
        (DueDate::NoDate, false)
    } else {
        match Date::parse(field) {
            Ok(date) => (DueDate::On(date), false),
            Err(_) => (DueDate::NoDate, true),
        }
    }
}

/// The change for a field without white space around it.
pub fn change_from_field(field: &str) -> (change: Option<String>)
    ensures
        change_view(change) == change_of_field(field@),
{
    if field.is_empty() {
        None
    } else {
        Some(field.to_owned())
    }
}

/// The change of date for a field without white space around it, and
/// whether the field was rejected because it names no date.
pub fn date_change_from_field(field: &str) -> (read: (Option<Date>, bool))
    ensures
        read == date_change_of_field(field@),
{
    if field.is_empty() {
        (None, false)
    } else {
        match Date::parse(field) {
            Ok(date) => (Some(date), false),
            Err(_) => (None, true),
        }
    }
}

/// A change of text as the model sees it.
pub open spec fn change_view(change: Option<String>) -> Option<Seq<char>> {
    match change {
        Some(text) => Some(text@),
        None => None,
    }
}

/// Makes the request to add a task from the three lines that were
/// entered: the description, the due date, the category. The task is of low
/// priority. The flag says that the date was rejected, so that the task has
/// no due date although one was entered.
pub fn new_task_from_input(description: &str, date: &str, category: &str) -> (entered: (
    NewTask,
    bool,
))
    ensures
        entered.0@ == new_task_entered(description@, date@, category@),
        entered.1 == due_date_of_field(trimmed(date@)).1,
{
    let (due_date, rejected) = due_date_from_field(trim(date));
    let new_task = NewTask {
        description: trim(description).to_owned(),
        due_date,
        category: category_from_field(trim(category)),
        priority: Priority::Low,
    };
    (new_task, rejected)
}

/// Makes the request to update a task from the three lines that were
/// entered: the description, the due date, the category. The flag says that
/// the date was rejected, so that the due date stays although one was
/// entered.
pub fn task_update_from_input(description: &str, date: &str, category: &str) -> (entered: (
    TaskUpdate,
    bool,
))
    ensures
        entered.0@ == update_entered(description@, date@, category@),
        entered.1 == date_change_of_field(trimmed(date@)).1,
{
    let (due_date, rejected) = date_change_from_field(trim(date));
    let update = TaskUpdate {
        description: change_from_field(trim(description)),
        due_date,
        category: change_from_field(trim(category)),
    };
    (update, rejected)
}

/// The filter that a line of input asks for: none where the line is blank.
pub fn category_filter(line: &str) -> (filter: Option<&str>)
    ensures
        filter_view(filter) == change_of_field(trimmed(line@)),
{
    let field = trim(line);
    if field.is_empty() {
        None
    } else {
        Some(field)
    }
}

/// What the details of a task show as its due date.
pub open spec fn due_date_shown(due_date: DueDate) -> Seq<char> {
    match due_date {
        DueDate::On(date) => date.text(),
        DueDate::Before(date) => date.text(),
        DueDate::NoDate => "None"@,
    }
}

/// The text that the details of a task show as its due date: the day, or
/// `None` where the task has no due date.
pub fn due_date_text(due_date: &DueDate) -> (text: String)
    ensures
        text@ == due_date_shown(*due_date),
{
    match due_date {
        DueDate::On(date) => date.to_text(),
        DueDate::Before(date) => date.to_text(),
        DueDate::NoDate => "None".to_owned(),
    }
}

/// A key that the menu of file names reacts to.
#[derive(Clone, Copy, Debug, PartialEq, Eq, Structural)]
pub enum MenuKey {
    Up,
    Down,
    Enter,
    Esc,
    Other,
}

/// What the menu of file names does on a key.
#[derive(Clone, Copy, Debug, PartialEq, Eq, Structural)]
pub enum MenuStep {
    /// Go on, with this line marked.
    Mark(usize),
    /// Done: the file name on this line was chosen.
    Chosen(usize),
    /// Done: a new file name is to be entered.
    NewName,
    /// Done: nothing was chosen.
    Cancelled,
}

/// What the menu does on `key` when line `selected` is marked. The menu
/// shows `names` file names on the lines 0 to `names - 1`, and the line
/// `names` to ask for a new name.
pub open spec fn menu_next(selected: usize, names: usize, key: MenuKey) -> MenuStep {
    match key {
        MenuKey::Up => MenuStep::Mark(
            if selected > 0 {
                (selected - 1) as usize
            } else {
                selected
            },
        ),
        MenuKey::Down => MenuStep::Mark(
            if selected < names {
                (selected + 1) as usize
            } else {
                selected
            },
        ),
        MenuKey::Enter => if selected < names {
            MenuStep::Chosen(selected)
        } else {
            MenuStep::NewName
        },
        MenuKey::Esc => MenuStep::Cancelled,
        MenuKey::Other => MenuStep::Mark(selected),
    }
}

/// What the menu of `names` file names does on `key` when line `selected`
/// is marked: the mark moves up and down between the first line and the line
/// after the last name, Enter takes the marked line, Esc leaves the menu.
pub fn menu_step(selected: usize, names: usize, key: MenuKey) -> (step: MenuStep)
    ensures
        step == menu_next(selected, names, key),
        selected <= names ==> (step matches MenuStep::Mark(marked) ==> marked <= names),
        step matches MenuStep::Chosen(line) ==> line < names,
{
    match key {
        MenuKey::Up => MenuStep::Mark(
            if selected > 0 {
                selected - 1
            } else {
                selected
            },
        ),
        MenuKey::Down => MenuStep::Mark(
            if selected < names {
                selected + 1
            } else {
                selected
            },
        ),
        MenuKey::Enter => if selected < names {
            MenuStep::Chosen(selected)
        } else {
            MenuStep::NewName
        },
        MenuKey::Esc => MenuStep::Cancelled,
        MenuKey::Other => MenuStep::Mark(selected),
    }
}

/// The file names that were used to save and load, and whether they are
/// offered for choice.
pub struct FilenameTracker {
    filenames: Vec<String>,
    tracking_enabled: bool,
}

impl FilenameTracker {
    /// The file names that are kept.
    pub closed spec fn names(&self) -> Set<Seq<char>> {
        names_of(self.filenames@).to_set()
    }

    /// Whether the file names are offered for choice.
    pub closed spec fn tracking(&self) -> bool {
        self.tracking_enabled
    }

    /// Whether no file name is kept twice. Every value that the functions of
    /// this type hand out is such.
    pub closed spec fn wf(&self) -> bool {
        names_of(self.filenames@).no_duplicates()
    }

    /// Makes the tracker that keeps the file names of `history`, each once.
    /// The names are not on offer until tracking is enabled.
    pub fn new(history: Vec<String>) -> (tracker: FilenameTracker)
        ensures
            tracker.wf(),
            tracker.names() == names_of(history@).to_set(),
            !tracker.tracking(),
    {
        let mut filenames: Vec<String> = Vec::new();
        let mut i: usize = 0;
        while i < history.len()
            invariant
                i <= history@.len(),
                names_of(filenames@).no_duplicates(),
                names_of(filenames@).to_set() == names_of(history@).take(i as int).to_set(),
            decreases history@.len() - i,
        {
            let ghost before = filenames@;
            let ghost name = history@[i as int]@;
            assert(names_of(history@).take(i + 1) == names_of(history@).take(i as int).push(name));
            if !holds_name(&filenames, &history[i]) {
                filenames.push(history[i].clone());
                assert(names_of(filenames@) == names_of(before).push(name));
            }
            proof {
                names_of(before).lemma_push_to_set_commute(name);
                names_of(history@).take(i as int).lemma_push_to_set_commute(name);
            }
            i = i + 1;
        }
        assert(names_of(history@).take(i as int) == names_of(history@));
        FilenameTracker { filenames, tracking_enabled: false }
    }

    /// Keeps `filename`, and says whether it is new: a name that was kept
    /// before is not kept a second time.
    pub fn add(&mut self, filename: &str) -> (fresh: bool)
        requires
            old(self).wf(),
        ensures
            final(self).wf(),
            fresh == !old(self).names().contains(filename@),
            final(self).names() == old(self).names().insert(filename@),
            final(self).tracking() == old(self).tracking(),
    {
        let name: String = filename.to_owned();
        let ghost before = self.filenames@;
        if holds_name(&self.filenames, &name) {
            false
        } else {
            self.filenames.push(name);
            proof {
                assert(names_of(self.filenames@) == names_of(before).push(filename@));
                names_of(before).lemma_push_to_set_commute(filename@);
            }
            true
        }
    }

    /// The file names that are kept, each once.
    pub fn list(&self) -> (filenames: &Vec<String>)
        requires
            self.wf(),
        ensures
            names_of(filenames@).no_duplicates(),
            names_of(filenames@).to_set() == self.names(),
    {
        &self.filenames
    }

    /// Puts the file names on offer from now on.
    pub fn enable_tracking(&mut self)
        ensures
            final(self).tracking(),
            final(self).names() == old(self).names(),
            old(self).wf() ==> final(self).wf(),
    {
        self.tracking_enabled = true;
    }

    /// Whether the file names are on offer.
    pub fn tracking_enabled(&self) -> (enabled: bool)
        ensures
            enabled == self.tracking(),
    {
        self.tracking_enabled
    }

    /// Whether saving and loading start with the menu of file names: they
    /// do where the names are on offer and there is one.
    pub fn offers_choice(&self) -> (offers: bool)
        ensures
            offers == (self.tracking() && !self.names().is_empty()),
    {
        proof {
            if self.filenames@.len() > 0 {
                assert(names_of(self.filenames@)[0] == self.filenames@[0]@);
                assert(self.names().contains(self.filenames@[0]@));
            }
        }
        self.tracking_enabled && self.filenames.len() > 0
    }
}

} // verus!
