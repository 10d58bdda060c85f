//! The persisted form of a document: a JSON object, written and read
//! through the `json` crate.
//!
//! What is handed to the printer and what is made of a parsed value are both
//! stated exactly, over the tree that a JSON value holds. Which text the
//! printer produces for a tree, and which tree the parser reads from a text,
//! is the outside crate's business and is only named here.

use crate::document::{
    item_views, remember_header, task_views, todo_header, Document, DocumentView, RememberItem,
    Task, TaskView,
};
use crate::text::{fractions_fit, fractions_within};
use crate::wire::{
    field, flag_value, item, json_of, json_parsed, json_printed, lookup, natural_value,
    nests_within, push_item, set_entry, text_value, Json, Sign, FRACTION_DIGITS,
};
use json::JsonValue;
use vstd::prelude::*;

verus! {

/// The number of spaces by which the printed document is indented.
pub const INDENT: u16 = 2;

/// A counter as a JSON number.
pub open spec fn counter_json(counter: int) -> Json {
    Json::Number(Sign::Positive, counter as u64, 0)
}

/// A task as a JSON object: its text, then its flag.
pub open spec fn task_json(task: TaskView) -> Json {
    Json::Object(seq![("task"@, Json::Text(task.task)), ("completed"@, Json::Flag(task.completed))])
}

/// A note as a JSON object.
pub open spec fn item_json(item: Seq<char>) -> Json {
    Json::Object(seq![("item"@, Json::Text(item))])
}

/// The tasks as JSON objects, in order.
pub open spec fn tasks_json(tasks: Seq<TaskView>) -> Seq<Json> {
    Seq::new(tasks.len(), |i: int| task_json(tasks[i]))
}

/// The notes as JSON objects, in order.
pub open spec fn items_json(items: Seq<Seq<char>>) -> Seq<Json> {
    Seq::new(items.len(), |i: int| item_json(items[i]))
}

/// A document as a JSON object, its six entries in the order in which they
/// are written.
pub open spec fn document_json(document: DocumentView) -> Json {
    Json::Object(
        seq![
            ("remember-header"@, Json::Text(document.remember_header)),
            ("remember-items"@, Json::List(items_json(document.remember_items))),
            ("header"@, Json::Text(document.header)),
            ("tasks"@, Json::List(tasks_json(document.tasks))),
            ("completed-tasks"@, counter_json(document.completed_tasks)),
            ("unfinished-tasks"@, counter_json(document.unfinished_tasks)),
        ],
    )
}

/// The text that a document is persisted as.
pub open spec fn encoded(document: DocumentView) -> Seq<char> {
    json_printed(document_json(document), INDENT)
}

/// The characters of a string value, or a fallback for anything else.
pub open spec fn text_or(value: Json, fallback: Seq<char>) -> Seq<char> {
    match value.text() {
        Some(characters) => characters,
        None => fallback,
    }
}

/// The text shown for an entry whose text is missing: a single space.
pub open spec fn blank() -> Seq<char> {
    " "@
}

/// The task that a JSON value is read as. A missing text reads as blank;
/// only a flag that is `true` reads as completed.
pub open spec fn task_from(value: Json) -> TaskView {
    TaskView {
        task: text_or(value.field("task"@), blank()),
        completed: value.field("completed"@).flag() == Some(true),
    }
}

/// The note that a JSON value is read as.
pub open spec fn item_from(value: Json) -> Seq<char> {
    text_or(value.field("item"@), blank())
}

/// The counter that a JSON value is read as: a whole number that is not
/// negative, and zero for anything else.
pub open spec fn counter_from(value: Json) -> int {
    match value.natural() {
        Some(number) => number as int,
        None => 0,
    }
}

/// The tasks that a JSON value is read as: one for each of its items.
pub open spec fn tasks_from(value: Json) -> Seq<TaskView> {
    Seq::new(value.count(), |i: int| task_from(value.item(i)))
}

/// The notes that a JSON value is read as: one for each of its items.
pub open spec fn items_from(value: Json) -> Seq<Seq<char>> {
    Seq::new(value.count(), |i: int| item_from(value.item(i)))
}

/// The document that a JSON value is read as. Every entry is looked up by
/// its key; one that is missing or of another kind reads as it does in the
/// canonical empty document.
pub open spec fn document_from(value: Json) -> DocumentView {
    DocumentView {
        header: text_or(value.field("header"@), todo_header()),
        remember_header: text_or(value.field("remember-header"@), remember_header()),
        tasks: tasks_from(value.field("tasks"@)),
        remember_items: items_from(value.field("remember-items"@)),
        completed_tasks: counter_from(value.field("completed-tasks"@)),
        unfinished_tasks: counter_from(value.field("unfinished-tasks"@)),
    }
}

/// Why a text is not read as a document.
#[derive(Clone, Copy, Debug, PartialEq, Eq)]
pub enum DecodeError {
    /// Somewhere in the text a full stop is followed directly by more
    /// decimal digits than the parser can count. The text is not parsed.
    LongFraction,
    /// The text is not JSON.
    Malformed,
}

/// Whether a text can be handed to the parser.
pub open spec fn parsable(text: Seq<char>) -> bool {
    fractions_within(text, FRACTION_DIGITS as int)
}

/// The document that a text is read as, or the reason for which it is not
/// read: a fraction that is too long is found before anything is parsed,
/// and a text without one is read exactly when it is JSON.
pub open spec fn decoded(text: Seq<char>) -> Result<DocumentView, DecodeError> {
    if !parsable(text) {
        Err(DecodeError::LongFraction)
    } else {
        match json_parsed(text) {
            Some(value) => Ok(document_from(value)),
            None => Err(DecodeError::Malformed),
        }
    }
}

/// The keys of a task are two different words.
proof fn lemma_task_keys()
    ensures
        "task"@ != "completed"@,
{
    reveal_strlit("task");
    reveal_strlit("completed");
    assert("task"@.len() != "completed"@.len());
}

/// The keys of a document are six different words.
proof fn lemma_document_keys()
    ensures
        "remember-header"@ != "remember-items"@,
        "remember-header"@ != "header"@,
        "remember-header"@ != "tasks"@,
        "remember-header"@ != "completed-tasks"@,
        "remember-header"@ != "unfinished-tasks"@,
        "remember-items"@ != "header"@,
        "remember-items"@ != "tasks"@,
        "remember-items"@ != "completed-tasks"@,
        "remember-items"@ != "unfinished-tasks"@,
        "header"@ != "tasks"@,
        "header"@ != "completed-tasks"@,
        "header"@ != "unfinished-tasks"@,
        "tasks"@ != "completed-tasks"@,
        "tasks"@ != "unfinished-tasks"@,
        "completed-tasks"@ != "unfinished-tasks"@,
{
    reveal_strlit("remember-header");
    reveal_strlit("remember-items");
    reveal_strlit("header");
    reveal_strlit("tasks");
    reveal_strlit("completed-tasks");
    reveal_strlit("unfinished-tasks");
    assert("remember-header"@.len() == 15);
    assert("remember-items"@.len() == 14);
    assert("header"@.len() == 6);
    assert("tasks"@.len() == 5);
    assert("completed-tasks"@.len() == 15);
    assert("unfinished-tasks"@.len() == 16);
    assert("remember-header"@[0] == 'r');
    assert("completed-tasks"@[0] == 'c');
}

/// The number of levels within which every document nests: the document,
/// its two lists, and their entries.
pub const LEVELS: u16 = 3;

/// A document as JSON nests within three levels.
proof fn lemma_document_nests(document: DocumentView)
    ensures
        nests_within(document_json(document), LEVELS as nat),
{
    reveal_with_fuel(nests_within, 4);
    let tasks = tasks_json(document.tasks);
    let notes = items_json(document.remember_items);
    assert forall|i: int| 0 <= i < tasks.len() implies nests_within(#[trigger] tasks[i], 1) by {
        assert(tasks[i] == task_json(document.tasks[i]));
    }
    assert forall|i: int| 0 <= i < notes.len() implies nests_within(#[trigger] notes[i], 1) by {
        assert(notes[i] == item_json(document.remember_items[i]));
    }
    assert(nests_within(Json::List(tasks), 2));
    assert(nests_within(Json::List(notes), 2));
}

/// Adds an entry under a key that the object does not hold yet.
fn append_entry(object: &mut JsonValue, key: &str, value: JsonValue)
    requires
        json_of(*old(object)) is Object,
        forall|i: int|
            0 <= i < json_of(*old(object))->Object_0.len() ==> (#[trigger] json_of(
                *old(object),
            )->Object_0[i]).0 != key@,
    ensures
        json_of(*final(object)) == Json::Object(
            json_of(*old(object))->Object_0.push((key@, json_of(value))),
        ),
{
    set_entry(object, key, value);
}

impl Task {
    /// The JSON object that stands for the task.
    pub fn to_json(&self) -> (value: JsonValue)
        ensures
            json_of(value) == task_json(self@),
    {
        proof {
            lemma_task_keys();
        }
        let mut value = JsonValue::new_object();
        append_entry(&mut value, "task", text_value(self.task.as_str()));
        append_entry(&mut value, "completed", flag_value(self.completed));
        assert(json_of(value)->Object_0 =~= task_json(self@)->Object_0);
        value
    }

    /// Reads a task from a JSON value.
    pub fn from_json(value: &JsonValue) -> (task: Task)
        ensures
            task@ == task_from(json_of(*value)),
    {
        let text = match field(value, "task").as_str() {
            Some(characters) => characters.to_owned(),
            None => " ".to_owned(),
        };
        let completed = match field(value, "completed").as_bool() {
            Some(flag) => flag,
            None => false,
        };
        Task { task: text, completed }
    }
}

impl RememberItem {
    /// The JSON object that stands for the note.
    pub fn to_json(&self) -> (value: JsonValue)
        ensures
            json_of(value) == item_json(self@),
    {
        let mut value = JsonValue::new_object();
        append_entry(&mut value, "item", text_value(self.item.as_str()));
        assert(json_of(value)->Object_0 =~= item_json(self@)->Object_0);
        value
    }

    /// Reads a note from a JSON value.
    pub fn from_json(value: &JsonValue) -> (note: RememberItem)
        ensures
            note@ == item_from(json_of(*value)),
    {
        let text = match field(value, "item").as_str() {
            Some(characters) => characters.to_owned(),
            None => " ".to_owned(),
        };
        RememberItem { item: text }
    }
}

/// Reads a counter from a JSON value.
fn read_counter(value: &JsonValue) -> (counter: u64)
    ensures
        counter == counter_from(json_of(*value)),
{
    match value.as_u64() {
        Some(number) => number,
        None => 0,
    }
}

/// Reads a heading from a JSON value, with the heading of the canonical
/// empty document as the fallback.
fn read_heading(value: &JsonValue, fallback: &str) -> (heading: String)
    ensures
        heading@ == text_or(json_of(*value), fallback@),
{
    match value.as_str() {
        Some(characters) => characters.to_owned(),
        None => fallback.to_owned(),
    }
}

impl Document {
    /// The JSON object that stands for the document.
    pub fn to_json(&self) -> (value: JsonValue)
        ensures
            json_of(value) == document_json(self@),
    {
        let mut notes = JsonValue::new_array();
        let mut n: usize = 0;
        while n < self.remember_items.len()
            invariant
                n <= self.remember_items@.len(),
                json_of(notes) is List,
                json_of(notes)->List_0 =~= items_json(self@.remember_items.take(n as int)),
            decreases self.remember_items@.len() - n,
        {
            let entry = self.remember_items[n].to_json();
            push_item(&mut notes, entry);
            n = n + 1;
            assert(json_of(notes)->List_0 =~= items_json(self@.remember_items.take(n as int)));
        }
        assert(self@.remember_items.take(n as int) =~= self@.remember_items);
        let mut tasks = JsonValue::new_array();
        let mut t: usize = 0;
        while t < self.tasks.len()
            invariant
                t <= self.tasks@.len(),
                json_of(tasks) is List,
                json_of(tasks)->List_0 =~= tasks_json(self@.tasks.take(t as int)),
            decreases self.tasks@.len() - t,
        {
            let entry = self.tasks[t].to_json();
            push_item(&mut tasks, entry);
            t = t + 1;
            assert(json_of(tasks)->List_0 =~= tasks_json(self@.tasks.take(t as int)));
        }
        assert(self@.tasks.take(t as int) =~= self@.tasks);
        proof {
            lemma_document_keys();
        }
        let mut value = JsonValue::new_object();
        append_entry(&mut value, "remember-header", text_value(self.remember_header.as_str()));
        append_entry(&mut value, "remember-items", notes);
        append_entry(&mut value, "header", text_value(self.header.as_str()));
        append_entry(&mut value, "tasks", tasks);
        append_entry(&mut value, "completed-tasks", natural_value(self.completed_tasks));
        append_entry(&mut value, "unfinished-tasks", natural_value(self.unfinished_tasks));
        assert(json_of(value)->Object_0 =~= document_json(self@)->Object_0);
        value
    }

    /// The text that the document is persisted as.
    pub fn encode(&self) -> (text: String)
        ensures
            text@ == encoded(self@),
    {
        proof {
            lemma_document_nests(self@);
            assert(LEVELS * INDENT <= u16::MAX);
        }
        self.to_json().pretty(INDENT)
    }

    /// Reads a document from a JSON value. Nothing is rejected: an entry
    /// that is missing or of another kind reads as it does in the canonical
    /// empty document, a task without a text as a blank one.
    pub fn from_json(value: &JsonValue) -> (document: Document)
        ensures
            document@ == document_from(json_of(*value)),
    {
        let task_list = field(value, "tasks");
        let mut tasks: Vec<Task> = Vec::new();
        let mut t: usize = 0;
        let task_count = task_list.len();
        while t < task_count
            invariant
                t <= task_count,
                task_count == json_of(*task_list).count(),
                task_views(tasks@) =~= tasks_from(json_of(*task_list)).take(t as int),
            decreases task_count - t,
        {
            let ghost read = task_views(tasks@);
            let task = Task::from_json(item(task_list, t));
            tasks.push(task);
            t = t + 1;
            assert(task_views(tasks@) =~= read.push(task@));
        }
        let note_list = field(value, "remember-items");
        let mut notes: Vec<RememberItem> = Vec::new();
        let mut n: usize = 0;
        let note_count = note_list.len();
        while n < note_count
            invariant
                n <= note_count,
                note_count == json_of(*note_list).count(),
                item_views(notes@) =~= items_from(json_of(*note_list)).take(n as int),
            decreases note_count - n,
        {
            let ghost read = item_views(notes@);
            let note = RememberItem::from_json(item(note_list, n));
            notes.push(note);
            n = n + 1;
            assert(item_views(notes@) =~= read.push(note@));
        }
        let document = Document {
            header: read_heading(field(value, "header"), "\n TODO\n ----"),
            remember_header: read_heading(field(value, "remember-header"), "\n REMEMBER\n --------"),
            tasks,
            remember_items: notes,
            completed_tasks: read_counter(field(value, "completed-tasks")),
            unfinished_tasks: read_counter(field(value, "unfinished-tasks")),
        };
        assert(document@.tasks =~= document_from(json_of(*value)).tasks);
        assert(document@.remember_items =~= document_from(json_of(*value)).remember_items);
        document
    }

    /// Reads a document from its persisted text. A text in which a full
    /// stop is followed by too long a run of digits is rejected unparsed;
    /// any other text is rejected exactly when it is not JSON.
    pub fn decode(text: &str) -> (outcome: Result<Document, DecodeError>)
        ensures
            match outcome {
                Ok(document) => decoded(text@) == Ok::<DocumentView, DecodeError>(document@),
                Err(error) => decoded(text@) == Err::<DocumentView, DecodeError>(error),
            },
    {
        if !fractions_fit(text, FRACTION_DIGITS) {
            return Err(DecodeError::LongFraction);
        }
        match json::parse(text) {
            Ok(value) => Ok(Document::from_json(&value)),
            Err(_) => Err(DecodeError::Malformed),
        }
    }
}

/// Looking up the key of an entry that no earlier entry shares gives that
/// entry's value.
pub proof fn lemma_lookup_entry(entries: Seq<(Seq<char>, Json)>, position: int)
    requires
        0 <= position < entries.len(),
        forall|j: int| 0 <= j < position ==> (#[trigger] entries[j]).0 != entries[position].0,
    ensures
        lookup(entries, entries[position].0) == entries[position].1,
    decreases position,
{
    if position > 0 {
        let rest = entries.drop_first();
        assert(rest[position - 1] == entries[position]);
        assert forall|j: int| 0 <= j < position - 1 implies (#[trigger] rest[j]).0 != rest[position
            - 1].0 by {
            assert(rest[j] == entries[j + 1]);
        }
        lemma_lookup_entry(rest, position - 1);
    }
}

/// A task that is written as JSON and read back is the same task.
pub proof fn lemma_task_reads_back(task: TaskView)
    ensures
        task_from(task_json(task)) == task,
{
    lemma_task_keys();
    let entries = task_json(task)->Object_0;
    lemma_lookup_entry(entries, 0);
    lemma_lookup_entry(entries, 1);
}

/// A note that is written as JSON and read back is the same note.
pub proof fn lemma_item_reads_back(note: Seq<char>)
    ensures
        item_from(item_json(note)) == note,
{
    lemma_lookup_entry(item_json(note)->Object_0, 0);
}

/// A document that is written as JSON and read back is the same document:
/// reading undoes writing on every tree that writing can produce.
pub proof fn lemma_document_reads_back(document: DocumentView)
    requires
        0 <= document.completed_tasks <= u64::MAX,
        0 <= document.unfinished_tasks <= u64::MAX,
    ensures
        document_from(document_json(document)) == document,
{
    lemma_document_keys();
    let entries = document_json(document)->Object_0;
    lemma_lookup_entry(entries, 0);
    lemma_lookup_entry(entries, 1);
    lemma_lookup_entry(entries, 2);
    lemma_lookup_entry(entries, 3);
    lemma_lookup_entry(entries, 4);
    lemma_lookup_entry(entries, 5);
    let read = document_from(document_json(document));
    assert(read.tasks =~= document.tasks) by {
        assert forall|i: int| 0 <= i < document.tasks.len() implies read.tasks[i]
            == document.tasks[i] by {
            lemma_task_reads_back(document.tasks[i]);
        }
    }
    assert(read.remember_items =~= document.remember_items) by {
        assert forall|i: int| 0 <= i < document.remember_items.len() implies read.remember_items[i]
            == document.remember_items[i] by {
            lemma_item_reads_back(document.remember_items[i]);
        }
    }
}

/// An object without entries reads as the canonical empty document.
pub proof fn lemma_empty_object_is_template()
    ensures
        document_from(Json::Object(Seq::empty())) == DocumentView::template(),
{
    let read = document_from(Json::Object(Seq::empty()));
    assert(read.tasks =~= Seq::empty());
    assert(read.remember_items =~= Seq::empty());
}

} // verus!
