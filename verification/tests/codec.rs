use json::JsonValue;
use pydors::codec::DecodeError;
use pydors::document::{Document, RememberItem, Task};

const TEMPLATE: &str = "{\n  \"remember-header\": \"\\n REMEMBER\\n --------\",\n  \"remember-items\": [],\n  \"header\": \"\\n TODO\\n ----\",\n  \"tasks\": [],\n  \"completed-tasks\": 0,\n  \"unfinished-tasks\": 0\n}";

fn busy() -> Document {
    let mut document = Document::template();
    document.add("buy milk".to_string());
    document.add("walk \"the\" dog\n".to_string());
    document.add("\u{e9}t\u{e9} \u{2B24}".to_string());
    document.complete(1);
    document.remember("keys".to_string());
    document
}

#[test]
fn template_is_written_in_the_canonical_form() {
    assert_eq!(Document::template().encode(), TEMPLATE);
}

#[test]
fn template_round_trips_through_text() {
    let text = Document::template().encode();
    let read = Document::decode(&text).unwrap();
    assert!(read.tasks.is_empty());
    assert!(read.remember_items.is_empty());
    assert_eq!(read.completed_tasks, 0);
    assert_eq!(read.unfinished_tasks, 0);
    assert_eq!(read, Document::template());
}

#[test]
fn canonical_text_reads_as_the_template() {
    assert_eq!(Document::decode(TEMPLATE), Ok(Document::template()));
}

#[test]
fn busy_document_is_written_entry_by_entry() {
    let mut document = Document::template();
    document.add("buy milk".to_string());
    document.add("walk dog".to_string());
    document.complete(0);
    document.remember("keys".to_string());
    let expected = "{\n  \"remember-header\": \"\\n REMEMBER\\n --------\",\n  \"remember-items\": [\n    {\n      \"item\": \"keys\"\n    }\n  ],\n  \"header\": \"\\n TODO\\n ----\",\n  \"tasks\": [\n    {\n      \"task\": \"buy milk\",\n      \"completed\": true\n    },\n    {\n      \"task\": \"walk dog\",\n      \"completed\": false\n    }\n  ],\n  \"completed-tasks\": 1,\n  \"unfinished-tasks\": 1\n}";
    assert_eq!(document.encode(), expected);
}

#[test]
fn busy_document_round_trips_through_text() {
    let document = busy();
    let read = Document::decode(&document.encode()).unwrap();
    assert_eq!(read, document);
    assert_eq!(read.tasks[1].task, "walk \"the\" dog\n");
    assert!(read.tasks[1].completed);
    assert_eq!(read.completed_tasks, 1);
    assert_eq!(read.unfinished_tasks, 2);
}

#[test]
fn add_followed_by_read() {
    let mut document = Document::decode(&busy().encode()).unwrap();
    let before = document.unfinished_tasks;
    document.add("x".to_string());
    let read = Document::decode(&document.encode()).unwrap();
    let last = read.tasks.last().unwrap();
    assert_eq!(last.task, "x");
    assert!(!last.completed);
    assert_eq!(read.unfinished_tasks, before + 1);
}

#[test]
fn to_json_builds_the_six_entries_in_order() {
    let value = busy().to_json();
    let keys: Vec<&str> = value.entries().map(|(key, _)| key).collect();
    assert_eq!(
        keys,
        vec![
            "remember-header",
            "remember-items",
            "header",
            "tasks",
            "completed-tasks",
            "unfinished-tasks"
        ]
    );
    assert_eq!(value["header"].as_str(), Some("\n TODO\n ----"));
    assert_eq!(value["remember-header"].as_str(), Some("\n REMEMBER\n --------"));
    assert!(value["tasks"].is_array());
    assert_eq!(value["tasks"].len(), 3);
    assert_eq!(value["tasks"][0]["task"].as_str(), Some("buy milk"));
    assert_eq!(value["tasks"][0]["completed"].as_bool(), Some(false));
    assert_eq!(value["tasks"][1]["completed"].as_bool(), Some(true));
    assert_eq!(value["tasks"][2]["task"].as_str(), Some("\u{e9}t\u{e9} \u{2B24}"));
    assert_eq!(value["remember-items"].len(), 1);
    assert_eq!(value["remember-items"][0]["item"].as_str(), Some("keys"));
    assert_eq!(value["completed-tasks"].as_u64(), Some(1));
    assert_eq!(value["unfinished-tasks"].as_u64(), Some(2));
}

#[test]
fn task_and_note_as_json() {
    let task = Task { task: "t".to_string(), completed: true };
    let value = task.to_json();
    assert_eq!(value.dump(), "{\"task\":\"t\",\"completed\":true}");
    assert_eq!(Task::from_json(&value), task);
    let note = RememberItem { item: "n".to_string() };
    let value = note.to_json();
    assert_eq!(value.dump(), "{\"item\":\"n\"}");
    assert_eq!(RememberItem::from_json(&value), note);
}

#[test]
fn large_counters_are_written_and_read() {
    let mut document = Document::template();
    document.completed_tasks = u64::MAX;
    document.unfinished_tasks = 12345678901234567890;
    let read = Document::decode(&document.encode()).unwrap();
    assert_eq!(read.completed_tasks, u64::MAX);
    assert_eq!(read.unfinished_tasks, 12345678901234567890);
}

#[test]
fn from_json_reads_entries_by_key() {
    let value = json::parse(
        "{\"unfinished-tasks\": 7, \"tasks\": [{\"completed\": true, \"task\": \"a\"}, {\"task\": \"b\", \"completed\": false}], \"completed-tasks\": 3, \"header\": \"H\", \"remember-items\": [{\"item\": \"i\"}], \"remember-header\": \"R\", \"extra\": null}",
    )
    .unwrap();
    let document = Document::from_json(&value);
    assert_eq!(document.header, "H");
    assert_eq!(document.remember_header, "R");
    assert_eq!(
        document.tasks,
        vec![
            Task { task: "a".to_string(), completed: true },
            Task { task: "b".to_string(), completed: false },
        ]
    );
    assert_eq!(document.remember_items, vec![RememberItem { item: "i".to_string() }]);
    assert_eq!(document.completed_tasks, 3);
    assert_eq!(document.unfinished_tasks, 7);
}

#[test]
fn empty_object_reads_as_the_template() {
    assert_eq!(Document::from_json(&JsonValue::new_object()), Document::template());
    assert_eq!(Document::decode("{}"), Ok(Document::template()));
}

#[test]
fn values_that_are_no_objects_read_as_the_template() {
    for text in ["null", "[]", "3", "\"text\"", "true", "[1, 2]"] {
        assert_eq!(Document::decode(text), Ok(Document::template()), "{}", text);
    }
}

#[test]
fn missing_texts_read_as_blank_and_missing_flags_as_incomplete() {
    let document = Document::decode(
        "{\"tasks\": [{}, {\"task\": 5, \"completed\": 1}, {\"task\": \"x\", \"completed\": \"true\"}, null, \"y\"], \"remember-items\": [{}, {\"item\": false}, 4]}",
    )
    .unwrap();
    assert_eq!(
        document.tasks,
        vec![
            Task { task: " ".to_string(), completed: false },
            Task { task: " ".to_string(), completed: false },
            Task { task: "x".to_string(), completed: false },
            Task { task: " ".to_string(), completed: false },
            Task { task: " ".to_string(), completed: false },
        ]
    );
    assert_eq!(
        document.remember_items,
        vec![
            RememberItem { item: " ".to_string() },
            RememberItem { item: " ".to_string() },
            RememberItem { item: " ".to_string() },
        ]
    );
}

#[test]
fn a_list_that_is_an_object_reads_as_blank_rows() {
    let document =
        Document::decode("{\"tasks\": {\"a\": 1, \"b\": 2}, \"remember-items\": \"none\"}")
            .unwrap();
    assert_eq!(
        document.tasks,
        vec![
            Task { task: " ".to_string(), completed: false },
            Task { task: " ".to_string(), completed: false },
        ]
    );
    assert!(document.remember_items.is_empty());
}

#[test]
fn counters_that_are_no_whole_numbers_read_as_zero() {
    for number in ["-1", "1.5", "\"3\"", "null", "true", "1e30", "[]"] {
        let text = format!(
            "{{\"completed-tasks\": {}, \"unfinished-tasks\": {}}}",
            number, number
        );
        let document = Document::decode(&text).unwrap();
        assert_eq!(document.completed_tasks, 0, "{}", number);
        assert_eq!(document.unfinished_tasks, 0, "{}", number);
    }
    let document =
        Document::decode("{\"completed-tasks\": 4, \"unfinished-tasks\": 18446744073709551615}")
            .unwrap();
    assert_eq!(document.completed_tasks, 4);
    assert_eq!(document.unfinished_tasks, u64::MAX);
}

#[test]
fn headings_of_another_kind_read_as_the_canonical_ones() {
    let document = Document::decode("{\"header\": 1, \"remember-header\": []}").unwrap();
    assert_eq!(document.header, "\n TODO\n ----");
    assert_eq!(document.remember_header, "\n REMEMBER\n --------");
    let document = Document::decode("{\"header\": \"\", \"remember-header\": \"mine\"}").unwrap();
    assert_eq!(document.header, "");
    assert_eq!(document.remember_header, "mine");
}

#[test]
fn a_repeated_key_reads_as_its_last_value() {
    let document = Document::decode("{\"header\": \"first\", \"header\": \"second\"}").unwrap();
    assert_eq!(document.header, "second");
}

#[test]
fn text_that_is_no_json_is_rejected() {
    for text in ["", "{", "{\"tasks\": [}", "tasks", "{\"a\": 1,}", "{} {}"] {
        assert_eq!(Document::decode(text), Err(DecodeError::Malformed), "{:?}", text);
    }
}

fn fraction(digits: usize) -> String {
    format!("{{\"completed-tasks\": 0.{}}}", "0".repeat(digits))
}

#[test]
fn a_fraction_of_the_longest_length_is_parsed() {
    let document = Document::decode(&fraction(32767)).unwrap();
    assert_eq!(document, Document::template());
    assert_eq!(Document::decode(&format!("7.{}", "1".repeat(32767))), Ok(Document::template()));
}

#[test]
fn a_fraction_that_is_too_long_is_rejected_unparsed() {
    assert_eq!(Document::decode(&fraction(32768)), Err(DecodeError::LongFraction));
    assert_eq!(Document::decode(&fraction(32769)), Err(DecodeError::LongFraction));
    assert_eq!(Document::decode(&fraction(100_000)), Err(DecodeError::LongFraction));
    let bare = format!("0.{}", "0".repeat(32769));
    assert_eq!(Document::decode(&bare), Err(DecodeError::LongFraction));
    let no_json = format!("{{ .{}", "9".repeat(32768));
    assert_eq!(Document::decode(&no_json), Err(DecodeError::LongFraction));
}

#[test]
fn a_long_run_of_digits_inside_a_text_counts_by_its_characters() {
    let mut document = Document::template();
    document.add(format!("pi is 3.{}", "1".repeat(32768)));
    assert_eq!(Document::decode(&document.encode()), Err(DecodeError::LongFraction));
    let mut document = Document::template();
    document.add(format!("pi is 3.{}", "1".repeat(32767)));
    assert_eq!(Document::decode(&document.encode()), Ok(document));
}

#[test]
fn long_runs_of_digits_without_a_full_stop_are_parsed() {
    let mut document = Document::template();
    document.add("8".repeat(40_000));
    document.add(format!("{}.{}.", "1".repeat(40_000), "2".repeat(32767)));
    assert_eq!(Document::decode(&document.encode()), Ok(document));
    assert_eq!(
        Document::decode(&format!("{{\"completed-tasks\": {}}}", "1".repeat(40)))
            .unwrap()
            .completed_tasks,
        0
    );
    assert_eq!(
        Document::decode(&"1".repeat(40_000)),
        Err(DecodeError::Malformed)
    );
}
