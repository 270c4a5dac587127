use task_tracker::error::TaskError;
use task_tracker::session::{step, Reply, Stage};
use task_tracker::store::TaskStore;
use task_tracker::task::Task;

fn run(store: &mut TaskStore, lines: &[&str]) -> (Stage, Vec<Result<Reply, TaskError>>) {
    let mut stage = Stage::Menu;
    let mut replies = Vec::new();
    for line in lines {
        let (next, reply) = step(store, stage, line);
        stage = next;
        replies.push(reply);
    }
    (stage, replies)
}

fn store_of(ids: &[u32]) -> TaskStore {
    let mut tasks = Vec::new();
    for id in ids {
        tasks.push(Task::new(*id, format!("title {}", id), format!("about {}", id)));
    }
    TaskStore { tasks }
}

#[test]
fn menu_keys_lead_to_their_stages() {
    let mut store = store_of(&[1]);
    assert!(matches!(step(&mut store, Stage::Menu, "1\n"), (Stage::AddTitle, Ok(Reply::Prompt))));
    assert!(matches!(step(&mut store, Stage::Menu, "2\n"), (Stage::Menu, Ok(Reply::Listing))));
    assert!(matches!(step(&mut store, Stage::Menu, "3\n"), (Stage::EditId, Ok(Reply::Prompt))));
    assert!(matches!(step(&mut store, Stage::Menu, "4\n"), (Stage::DeleteId, Ok(Reply::Prompt))));
    assert!(matches!(step(&mut store, Stage::Menu, "5\n"), (Stage::Finished, Ok(Reply::Leaving))));
    assert_eq!(store.tasks.len(), 1);
}

#[test]
fn other_input_at_the_menu_is_an_invalid_choice() {
    let mut store = store_of(&[1]);
    for line in ["", "\n", "6", "0", "x", "12", "exit\n"] {
        assert!(matches!(step(&mut store, Stage::Menu, line), (Stage::Menu, Ok(Reply::InvalidChoice))));
    }
    assert_eq!(store.tasks.len(), 1);
}

#[test]
fn listing_an_empty_store_reports_it() {
    let mut store = TaskStore::new();
    assert!(matches!(step(&mut store, Stage::Menu, "2"), (Stage::Menu, Ok(Reply::EmptyList))));
}

#[test]
fn adding_takes_two_trimmed_lines() {
    let mut store = TaskStore::new();
    let (stage, replies) = run(&mut store, &["1\n", "  Buy milk \n", "\t2%\r\n"]);
    assert!(matches!(stage, Stage::Menu));
    assert_eq!(replies, vec![Ok(Reply::Prompt), Ok(Reply::Prompt), Ok(Reply::Added(1))]);
    assert_eq!(store.tasks.len(), 1);
    assert_eq!(store.tasks[0].id, 1);
    assert_eq!(store.tasks[0].title, "Buy milk");
    assert_eq!(store.tasks[0].description, "2%");
    assert!(!store.tasks[0].completed);
}

#[test]
fn the_title_waits_in_the_stage_until_the_description_comes() {
    let mut store = TaskStore::new();
    let (stage, reply) = step(&mut store, Stage::AddTitle, " Call Bob \n");
    assert_eq!(reply, Ok(Reply::Prompt));
    assert!(store.tasks.is_empty());
    match &stage {
        Stage::AddDescription { title } => assert_eq!(title, "Call Bob"),
        other => panic!("unexpected stage {:?}", other),
    }
    let (stage, reply) = step(&mut store, stage, "\n");
    assert_eq!(reply, Ok(Reply::Added(1)));
    assert!(matches!(stage, Stage::Menu));
    assert_eq!(store.tasks[0].title, "Call Bob");
    assert_eq!(store.tasks[0].description, "");
}

#[test]
fn editing_asks_for_three_lines_after_the_id() {
    let mut store = store_of(&[1, 2, 3]);
    let (stage, reply) = step(&mut store, Stage::EditId, " 2 \n");
    assert_eq!(reply, Ok(Reply::Editing(1)));
    assert!(matches!(stage, Stage::EditTitle { id: 2 }));
    let (stage, reply) = step(&mut store, stage, "New title\n");
    assert_eq!(reply, Ok(Reply::Prompt));
    match &stage {
        Stage::EditDescription { id, title } => {
            assert_eq!(*id, 2);
            assert_eq!(title, "New title");
        }
        other => panic!("unexpected stage {:?}", other),
    }
    assert_eq!(store.tasks[1].title, "title 2");
    let (stage, reply) = step(&mut store, stage, "\n");
    assert_eq!(reply, Ok(Reply::Prompt));
    match &stage {
        Stage::EditConfirmation { id, title, description } => {
            assert_eq!(*id, 2);
            assert_eq!(title, "New title");
            assert_eq!(description, "");
        }
        other => panic!("unexpected stage {:?}", other),
    }
    let (stage, reply) = step(&mut store, stage, " так \n");
    assert_eq!(reply, Ok(Reply::Updated));
    assert!(matches!(stage, Stage::Menu));
    assert_eq!(store.tasks[1].id, 2);
    assert_eq!(store.tasks[1].title, "New title");
    assert_eq!(store.tasks[1].description, "about 2");
    assert!(store.tasks[1].completed);
    assert_eq!(store.tasks[0].title, "title 1");
    assert!(!store.tasks[0].completed);
    assert_eq!(store.tasks[2].title, "title 3");
}

#[test]
fn editing_with_blank_lines_changes_nothing() {
    let mut store = store_of(&[1]);
    let (stage, replies) = run(&mut store, &["3", "1", "   ", "", "ні"]);
    assert!(matches!(stage, Stage::Menu));
    assert_eq!(replies[1], Ok(Reply::Editing(0)));
    assert_eq!(replies[4], Ok(Reply::Updated));
    assert_eq!(store.tasks[0].title, "title 1");
    assert_eq!(store.tasks[0].description, "about 1");
    assert!(!store.tasks[0].completed);
}

#[test]
fn a_malformed_id_is_reported_and_changes_nothing() {
    for menu_key in ["3", "4"] {
        for line in ["", "abc", "-1", "1.5", "4294967296"] {
            let mut store = store_of(&[1, 2]);
            let (stage, replies) = run(&mut store, &[menu_key, line]);
            assert!(matches!(stage, Stage::Menu));
            assert_eq!(replies[1], Err(TaskError::ParseFailure));
            assert_eq!(store.tasks.len(), 2);
            assert_eq!(store.tasks[0].title, "title 1");
            assert_eq!(store.tasks[1].title, "title 2");
        }
    }
}

#[test]
fn an_unknown_id_is_reported_and_changes_nothing() {
    for menu_key in ["3", "4"] {
        let mut store = store_of(&[1, 2]);
        let (stage, replies) = run(&mut store, &[menu_key, "7"]);
        assert!(matches!(stage, Stage::Menu));
        assert_eq!(replies[1], Err(TaskError::NotFound(7)));
        assert_eq!(store.tasks.len(), 2);
    }
}

#[test]
fn an_edit_of_a_task_that_is_gone_is_not_found() {
    let mut store = store_of(&[1]);
    let stage = Stage::EditConfirmation { id: 5, title: "t".to_string(), description: "d".to_string() };
    let (stage, reply) = step(&mut store, stage, "так");
    assert_eq!(reply, Err(TaskError::NotFound(5)));
    assert!(matches!(stage, Stage::Menu));
    assert_eq!(store.tasks[0].title, "title 1");
    assert!(!store.tasks[0].completed);
}

#[test]
fn deleting_takes_the_id_line() {
    let mut store = store_of(&[1, 2, 3]);
    let (stage, replies) = run(&mut store, &["4\n", "+2\n"]);
    assert!(matches!(stage, Stage::Menu));
    assert_eq!(replies, vec![Ok(Reply::Prompt), Ok(Reply::Deleted)]);
    assert_eq!(store.tasks.len(), 2);
    assert_eq!(store.tasks[0].id, 1);
    assert_eq!(store.tasks[1].id, 3);
}

#[test]
fn a_finished_session_stays_finished() {
    let mut store = store_of(&[1]);
    let (stage, replies) = run(&mut store, &["5", "1", "x"]);
    assert!(matches!(stage, Stage::Finished));
    assert_eq!(replies, vec![Ok(Reply::Leaving), Ok(Reply::Leaving), Ok(Reply::Leaving)]);
    assert_eq!(store.tasks.len(), 1);
}

#[test]
fn only_the_exit_key_at_the_menu_ends_the_session() {
    let mut store = TaskStore::new();
    let (stage, _) = run(&mut store, &["1", "5", "5", "3", "5", "4", "5", "2", "9"]);
    assert!(matches!(stage, Stage::Menu));
    assert_eq!(store.tasks.len(), 1);
    assert_eq!(store.tasks[0].title, "5");
    assert_eq!(store.tasks[0].description, "5");
    let (stage, _) = run(&mut store, &["5"]);
    assert!(matches!(stage, Stage::Finished));
}

#[test]
fn a_whole_dialogue() {
    let mut store = TaskStore::new();
    let (stage, replies) = run(
        &mut store,
        &["2", "1", "Buy milk", "2%", "1", "Call Bob", "", "2", "4", "1", "3", "1", "3", "2", "", "soon", "Так", "x", "5"],
    );
    assert!(matches!(stage, Stage::Finished));
    assert_eq!(
        replies,
        vec![
            Ok(Reply::EmptyList),
            Ok(Reply::Prompt),
            Ok(Reply::Prompt),
            Ok(Reply::Added(1)),
            Ok(Reply::Prompt),
            Ok(Reply::Prompt),
            Ok(Reply::Added(2)),
            Ok(Reply::Listing),
            Ok(Reply::Prompt),
            Ok(Reply::Deleted),
            Ok(Reply::Prompt),
            Err(TaskError::NotFound(1)),
            Ok(Reply::Prompt),
            Ok(Reply::Editing(0)),
            Ok(Reply::Prompt),
            Ok(Reply::Prompt),
            Ok(Reply::Updated),
            Ok(Reply::InvalidChoice),
            Ok(Reply::Leaving),
        ]
    );
    assert_eq!(store.tasks.len(), 1);
    assert_eq!(store.tasks[0].id, 2);
    assert_eq!(store.tasks[0].title, "Call Bob");
    assert_eq!(store.tasks[0].description, "soon");
    assert!(store.tasks[0].completed);
}
