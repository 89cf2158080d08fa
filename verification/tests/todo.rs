use toolbox::todo::{
    add, list, mark_done, match_priority, priority_from_lowercase, remove, render_line, run,
    Priority, TodoAction, TodoError, TodoItem, TodoReport,
};

fn item(text: &str, done: bool, priority: Priority, category: Option<&str>) -> TodoItem {
    TodoItem {
        text: text.to_string(),
        done,
        priority,
        category: category.map(|c| c.to_string()),
    }
}

fn listed(todos: &mut Vec<TodoItem>, priority: Option<&str>, category: Option<&str>) -> Vec<String> {
    let action = TodoAction::List {
        priority: priority.map(|p| p.to_string()),
        category: category.map(|c| c.to_string()),
    };
    match run(todos, action) {
        Ok(TodoReport::Listed(lines)) => lines,
        other => panic!("expected a listing, got {:?}", other),
    }
}

#[test]
fn an_item_is_added_listed_marked_done_and_removed() {
    let mut todos: Vec<TodoItem> = Vec::new();
    let added = run(
        &mut todos,
        TodoAction::Add {
            text: "buy milk".to_string(),
            priority: "high".to_string(),
            category: Some("errands".to_string()),
        },
    );
    assert!(matches!(added, Ok(TodoReport::Added)));
    assert_eq!(todos.len(), 1);
    assert_eq!(todos[0].priority, Priority::High);
    assert_eq!(todos[0].category.as_deref(), Some("errands"));
    assert!(!todos[0].done);
    assert_eq!(
        listed(&mut todos, None, None),
        vec!["0 [ ] buy milk (Priority: High, Category: errands)".to_string()]
    );

    let done = run(&mut todos, TodoAction::Done { id: 0 });
    assert!(matches!(done, Ok(TodoReport::MarkedDone)));
    assert_eq!(
        listed(&mut todos, Some("High"), None),
        vec!["0 [x] buy milk (Priority: High, Category: errands)".to_string()]
    );

    let removed = run(&mut todos, TodoAction::Remove { id: 0 });
    assert!(matches!(removed, Ok(TodoReport::Removed)));
    assert!(todos.is_empty());
    assert_eq!(listed(&mut todos, None, None), Vec::<String>::new());
}

#[test]
fn marking_a_position_past_the_end_changes_nothing() {
    let mut todos = vec![
        item("one", false, Priority::Low, None),
        item("two", true, Priority::High, Some("home")),
    ];
    let answer = run(&mut todos, TodoAction::Done { id: 5 });
    assert!(matches!(answer, Err(TodoError::InvalidId)));
    assert_eq!(todos.len(), 2);
    assert_eq!(todos[0].text, "one");
    assert!(!todos[0].done);
    assert_eq!(todos[0].priority, Priority::Low);
    assert_eq!(todos[0].category, None);
    assert_eq!(todos[1].text, "two");
    assert!(todos[1].done);
    assert_eq!(todos[1].priority, Priority::High);
    assert_eq!(todos[1].category.as_deref(), Some("home"));
    assert_eq!(mark_done(&mut todos, 2), Err(TodoError::InvalidId));
    assert!(!todos[0].done);
}

#[test]
fn removing_a_position_past_the_end_changes_nothing() {
    let mut todos = vec![item("one", false, Priority::Low, None)];
    assert!(matches!(run(&mut todos, TodoAction::Remove { id: 1 }), Err(TodoError::InvalidId)));
    assert_eq!(remove(&mut todos, 7), Err(TodoError::InvalidId));
    assert_eq!(todos.len(), 1);
    assert_eq!(todos[0].text, "one");
    let mut empty: Vec<TodoItem> = Vec::new();
    assert_eq!(remove(&mut empty, 0), Err(TodoError::InvalidId));
    assert_eq!(mark_done(&mut empty, 0), Err(TodoError::InvalidId));
}

#[test]
fn marking_done_touches_one_item_only() {
    let mut todos = vec![
        item("one", false, Priority::Low, None),
        item("two", false, Priority::Medium, Some("home")),
        item("three", false, Priority::High, None),
    ];
    assert_eq!(mark_done(&mut todos, 1), Ok(()));
    assert!(!todos[0].done);
    assert!(todos[1].done);
    assert!(!todos[2].done);
    assert_eq!(todos[1].text, "two");
    assert_eq!(todos[1].priority, Priority::Medium);
    assert_eq!(todos[1].category.as_deref(), Some("home"));
    assert_eq!(mark_done(&mut todos, 1), Ok(()));
    assert!(todos[1].done);
}

#[test]
fn removing_shifts_the_later_items_down() {
    let mut todos = vec![
        item("one", false, Priority::Low, None),
        item("two", false, Priority::Medium, None),
        item("three", false, Priority::High, None),
    ];
    assert_eq!(remove(&mut todos, 0), Ok(()));
    assert_eq!(todos.len(), 2);
    assert_eq!(todos[0].text, "two");
    assert_eq!(todos[1].text, "three");
    assert_eq!(
        list(&todos, None, None),
        vec![
            "0 [ ] two (Priority: Medium, Category: -)".to_string(),
            "1 [ ] three (Priority: High, Category: -)".to_string(),
        ]
    );
}

#[test]
fn a_priority_is_read_in_any_case() {
    assert_eq!(match_priority("low"), Priority::Low);
    assert_eq!(match_priority("LOW"), Priority::Low);
    assert_eq!(match_priority("High"), Priority::High);
    assert_eq!(match_priority("hIgH"), Priority::High);
    assert_eq!(match_priority("medium"), Priority::Medium);
    assert_eq!(match_priority("Medium"), Priority::Medium);
}

#[test]
fn an_unknown_priority_is_medium() {
    assert_eq!(match_priority("urgent"), Priority::Medium);
    assert_eq!(match_priority(""), Priority::Medium);
    assert_eq!(match_priority(" high"), Priority::Medium);
    assert_eq!(match_priority("lowest"), Priority::Medium);
}

#[test]
fn a_lower_case_word_is_read_as_it_stands() {
    assert_eq!(priority_from_lowercase("low"), Priority::Low);
    assert_eq!(priority_from_lowercase("high"), Priority::High);
    assert_eq!(priority_from_lowercase("HIGH"), Priority::Medium);
    assert_eq!(priority_from_lowercase("medium"), Priority::Medium);
}

#[test]
fn adding_appends_an_open_item() {
    let mut todos = vec![item("one", true, Priority::Low, None)];
    add(&mut todos, "two".to_string(), "nonsense", None);
    assert_eq!(todos.len(), 2);
    assert_eq!(todos[0].text, "one");
    assert!(todos[0].done);
    assert_eq!(todos[1].text, "two");
    assert!(!todos[1].done);
    assert_eq!(todos[1].priority, Priority::Medium);
    assert_eq!(todos[1].category, None);
}

#[test]
fn a_listing_keeps_the_positions_of_the_store() {
    let todos = vec![
        item("one", false, Priority::Low, Some("home")),
        item("two", true, Priority::High, Some("work")),
        item("three", false, Priority::High, None),
        item("four", false, Priority::High, Some("home")),
    ];
    assert_eq!(
        list(&todos, Some("high"), None),
        vec![
            "1 [x] two (Priority: High, Category: work)".to_string(),
            "2 [ ] three (Priority: High, Category: -)".to_string(),
            "3 [ ] four (Priority: High, Category: home)".to_string(),
        ]
    );
    assert_eq!(
        list(&todos, None, Some("home")),
        vec![
            "0 [ ] one (Priority: Low, Category: home)".to_string(),
            "3 [ ] four (Priority: High, Category: home)".to_string(),
        ]
    );
    assert_eq!(
        list(&todos, Some("HIGH"), Some("home")),
        vec!["3 [ ] four (Priority: High, Category: home)".to_string()]
    );
    assert_eq!(list(&todos, Some("low"), Some("work")), Vec::<String>::new());
}

#[test]
fn a_category_filter_is_exact() {
    let todos = vec![
        item("one", false, Priority::Low, Some("Home")),
        item("two", false, Priority::Low, Some("home ")),
        item("three", false, Priority::Low, None),
    ];
    assert_eq!(list(&todos, None, Some("home")), Vec::<String>::new());
    assert_eq!(list(&todos, None, Some("-")), Vec::<String>::new());
    assert_eq!(
        list(&todos, None, Some("Home")),
        vec!["0 [ ] one (Priority: Low, Category: Home)".to_string()]
    );
}

#[test]
fn an_unknown_priority_filter_stands_for_medium() {
    let todos = vec![
        item("one", false, Priority::Low, None),
        item("two", false, Priority::Medium, None),
    ];
    assert_eq!(
        list(&todos, Some("whatever"), None),
        vec!["1 [ ] two (Priority: Medium, Category: -)".to_string()]
    );
}

#[test]
fn a_line_shows_every_part_of_an_item() {
    let open = item("write report", false, Priority::Medium, None);
    assert_eq!(render_line(12, &open), "12 [ ] write report (Priority: Medium, Category: -)");
    let done = item("", true, Priority::Low, Some(""));
    assert_eq!(render_line(0, &done), "0 [x]  (Priority: Low, Category: )");
}

#[test]
fn listing_leaves_the_store_alone() {
    let mut todos = vec![item("one", false, Priority::Low, None)];
    let lines = listed(&mut todos, Some("low"), None);
    assert_eq!(lines.len(), 1);
    assert_eq!(todos.len(), 1);
    assert_eq!(todos[0].text, "one");
    assert!(!todos[0].done);
}
