use todoist_cli::app::{Action, App, Key, Mode, RemoteCall, SyncError};
use todoist_cli::commands::{process_command, Commands};
use todoist_cli::store::{schema_step, SchemaStep};
use todoist_cli::task::Task;
use todoist_cli::text::{is_blank, is_white_space};

fn row(id: usize, remote: &str, title: &str, done: bool) -> Task {
    let mut t = Task::new(id, title, done);
    t.todoist_id = remote.to_string();
    t
}

fn abc() -> App {
    App::new(vec![row(1, "ra", "A", false), row(2, "rb", "B", false), row(3, "rc", "C", false)])
}

fn titles(app: &App) -> Vec<String> {
    app.tasks().iter().map(|t| t.title.clone()).collect()
}

fn ids(app: &App) -> Vec<usize> {
    app.tasks().iter().map(|t| t.id).collect()
}

#[test]
fn task_new_has_no_remote_id() {
    let t = Task::new(4, "Write Code", true);
    assert_eq!(t.id, 4);
    assert_eq!(t.todoist_id, "");
    assert_eq!(t.title, "Write Code");
    assert!(t.is_completed);
}

#[test]
fn add_to_empty_registry() {
    let mut app = App::new(Vec::new());
    assert_eq!(app.selected(), None);
    match app.request_add("Buy milk") {
        Some(RemoteCall::Create { title }) => assert_eq!(title, "Buy milk"),
        _ => panic!("expected a create call"),
    }
    assert_eq!(app.add_task("Buy milk", Ok("r1".to_string())), Ok(true));
    let rows = app.tasks();
    assert_eq!(rows.len(), 1);
    assert_eq!(rows[0].id, 1);
    assert_eq!(rows[0].todoist_id, "r1");
    assert_eq!(rows[0].title, "Buy milk");
    assert!(!rows[0].is_completed);
    assert_eq!(app.selected(), Some(0));
    assert_eq!(app.next_id(), 2);
}

#[test]
fn edit_commit_updates_selected_task() {
    let mut app = App::new(vec![row(1, "r1", "X", false), row(2, "r2", "Y", false)]);
    app.next();
    assert_eq!(app.selected(), Some(1));
    assert!(matches!(app.handle_key(Key::Char('i')), Action::Continue));
    assert_eq!(app.input_buffer(), "Y");
    assert!(matches!(app.mode(), Mode::InsertEdit { target: 2 }));
    assert!(matches!(app.handle_key(Key::Char('!')), Action::Continue));
    assert_eq!(app.input_buffer(), "Y!");
    let call = match app.handle_key(Key::Enter) {
        Action::Call(c) => c,
        _ => panic!("expected a remote call"),
    };
    assert!(matches!(app.mode(), Mode::Normal));
    assert_eq!(app.input_buffer(), "");
    match call {
        RemoteCall::Update { id, todoist_id, title, is_completed } => {
            assert_eq!(id, 2);
            assert_eq!(todoist_id, "r2");
            assert_eq!(title, "Y!");
            assert!(!is_completed);
            assert_eq!(app.update_task(id, &title, is_completed, Ok(())), Ok(true));
        }
        _ => panic!("expected an update call"),
    }
    assert_eq!(titles(&app), vec!["X", "Y!"]);
}

#[test]
fn failed_sync_leaves_registry() {
    let mut app = abc();
    app.next();
    assert_eq!(app.sync_tasks(Err(SyncError::Transport)), Err(SyncError::Transport));
    assert_eq!(titles(&app), vec!["A", "B", "C"]);
    assert_eq!(ids(&app), vec![1, 2, 3]);
    assert_eq!(app.selected(), Some(1));
    assert_eq!(app.next_id(), 4);
}

#[test]
fn sync_assigns_fresh_ids() {
    let mut app = abc();
    let fetched = vec![row(0, "x1", "P", true), row(0, "x2", "Q", false)];
    assert_eq!(app.sync_tasks(Ok(fetched)), Ok(()));
    assert_eq!(ids(&app), vec![4, 5]);
    assert_eq!(titles(&app), vec!["P", "Q"]);
    assert_eq!(app.tasks()[0].todoist_id, "x1");
    assert!(app.tasks()[0].is_completed);
    assert_eq!(app.next_id(), 6);
    assert_eq!(app.selected(), Some(0));
    assert_eq!(app.sync_tasks(Ok(Vec::new())), Ok(()));
    assert_eq!(app.selected(), None);
    assert_eq!(app.next_id(), 6);
}

#[test]
fn delete_selected_moves_back() {
    let mut app = abc();
    app.next();
    assert_eq!(app.delete_task(2, Ok(())), Ok(true));
    assert_eq!(titles(&app), vec!["A", "C"]);
    assert_eq!(app.selected(), Some(0));
}

#[test]
fn delete_before_selection_follows_task() {
    let mut app = abc();
    app.next();
    assert_eq!(app.delete_task(1, Ok(())), Ok(true));
    assert_eq!(titles(&app), vec!["B", "C"]);
    assert_eq!(app.selected(), Some(0));
    assert_eq!(app.tasks()[0].title, "B");
}

#[test]
fn delete_after_selection_keeps_it() {
    let mut app = abc();
    app.next();
    assert_eq!(app.delete_task(3, Ok(())), Ok(true));
    assert_eq!(app.selected(), Some(1));
}

#[test]
fn delete_last_task_clears_selection() {
    let mut app = App::new(vec![row(1, "r", "Only", false)]);
    assert_eq!(app.delete_task(1, Ok(())), Ok(true));
    assert!(app.tasks().is_empty());
    assert_eq!(app.selected(), None);
}

#[test]
fn delete_unknown_id_is_noop() {
    let mut app = abc();
    app.next();
    assert!(app.request_delete(99).is_none());
    assert_eq!(app.delete_task(99, Ok(())), Ok(false));
    assert_eq!(app.tasks().len(), 3);
    assert_eq!(app.selected(), Some(1));
}

#[test]
fn failed_remote_calls_change_nothing() {
    let mut app = abc();
    assert_eq!(app.add_task("New", Err(SyncError::Storage)), Err(SyncError::Storage));
    assert_eq!(app.update_task(1, "Z", true, Err(SyncError::Protocol)), Err(SyncError::Protocol));
    assert_eq!(app.delete_task(1, Err(SyncError::Transport)), Err(SyncError::Transport));
    assert_eq!(titles(&app), vec!["A", "B", "C"]);
    assert_eq!(app.next_id(), 4);
    assert_eq!(app.selected(), Some(0));
}

#[test]
fn blank_titles_are_ignored() {
    let mut app = abc();
    assert!(app.request_add("").is_none());
    assert!(app.request_add("   ").is_none());
    assert_eq!(app.add_task("", Ok("r9".to_string())), Ok(false));
    assert_eq!(app.add_task("   ", Ok("r9".to_string())), Ok(false));
    assert_eq!(app.tasks().len(), 3);
    assert!(app.request_update(1, " \t", false).is_none());
    assert_eq!(app.update_task(1, "\u{3000}", false, Ok(())), Ok(false));
    assert_eq!(titles(&app), vec!["A", "B", "C"]);
}

#[test]
fn update_sets_title_and_flag() {
    let mut app = abc();
    match app.request_update(3, "C2", true) {
        Some(RemoteCall::Update { id, todoist_id, .. }) => {
            assert_eq!(id, 3);
            assert_eq!(todoist_id, "rc");
        }
        _ => panic!("expected an update call"),
    }
    assert_eq!(app.update_task(3, "C2", true, Ok(())), Ok(true));
    assert_eq!(app.tasks()[2].title, "C2");
    assert!(app.tasks()[2].is_completed);
    assert_eq!(app.tasks()[2].todoist_id, "rc");
    assert_eq!(app.update_task(7, "C3", true, Ok(())), Ok(false));
}

#[test]
fn ids_stay_unique_over_mutations() {
    let mut app = App::new(Vec::new());
    for (k, t) in ["a", "b", "c", "d"].iter().enumerate() {
        assert_eq!(app.add_task(t, Ok(format!("r{}", k))), Ok(true));
    }
    assert_eq!(app.delete_task(2, Ok(())), Ok(true));
    assert_eq!(app.add_task("e", Ok("r5".to_string())), Ok(true));
    assert_eq!(app.update_task(5, "E", false, Ok(())), Ok(true));
    assert_eq!(app.delete_task(1, Ok(())), Ok(true));
    assert_eq!(ids(&app), vec![3, 4, 5]);
    let allocated = app.next_id() - 1;
    assert_eq!(allocated, 5);
    let mut seen = ids(&app);
    seen.sort();
    seen.dedup();
    assert_eq!(seen.len(), app.tasks().len());
    assert!(ids(&app).iter().all(|&i| 1 <= i && i <= allocated));
}

#[test]
fn persisted_rows_rebuild_the_registry() {
    let mut app = abc();
    assert_eq!(app.add_task("D", Ok("rd".to_string())), Ok(true));
    assert_eq!(app.update_task(2, "B2", true, Ok(())), Ok(true));
    let rows: Vec<Task> = app.tasks().clone();
    let back = App::new(rows);
    assert_eq!(ids(&back), ids(&app));
    assert_eq!(titles(&back), titles(&app));
    for (a, b) in back.tasks().iter().zip(app.tasks().iter()) {
        assert_eq!(a.todoist_id, b.todoist_id);
        assert_eq!(a.is_completed, b.is_completed);
    }
    assert_eq!(back.next_id(), 5);
    assert_eq!(back.selected(), Some(0));
}

#[test]
fn untrusted_rows_give_empty_registry() {
    let dup = App::new(vec![row(1, "a", "A", false), row(1, "b", "B", false)]);
    assert!(dup.tasks().is_empty());
    assert_eq!(dup.next_id(), 1);
    let zero = App::new(vec![row(0, "a", "A", false)]);
    assert!(zero.tasks().is_empty());
    let top = App::new(vec![row(usize::MAX, "a", "A", false)]);
    assert!(top.tasks().is_empty());
    let gap = App::new(vec![row(7, "a", "A", false), row(3, "b", "B", false)]);
    assert_eq!(gap.next_id(), 8);
}

#[test]
fn navigation_wraps_round() {
    let mut app = abc();
    assert_eq!(app.selected(), Some(0));
    app.previous();
    assert_eq!(app.selected(), Some(2));
    app.next();
    assert_eq!(app.selected(), Some(0));
    assert!(matches!(app.handle_key(Key::Char('j')), Action::Continue));
    assert_eq!(app.selected(), Some(1));
    assert!(matches!(app.handle_key(Key::Char('k')), Action::Continue));
    assert_eq!(app.selected(), Some(0));
    let mut empty = App::new(Vec::new());
    empty.next();
    assert_eq!(empty.selected(), None);
    empty.previous();
    assert_eq!(empty.selected(), None);
}

#[test]
fn entering_insert_discards_earlier_input() {
    let mut app = abc();
    app.next();
    app.enter_insert_add_mode();
    app.handle_input('z');
    app.handle_input('z');
    assert_eq!(app.input_buffer(), "zz");
    app.enter_insert_edit_mode();
    assert_eq!(app.input_buffer(), "B");
    assert!(matches!(app.mode(), Mode::InsertEdit { target: 2 }));
    app.enter_insert_add_mode();
    assert_eq!(app.input_buffer(), "");
    assert!(matches!(app.mode(), Mode::InsertAdd));
}

#[test]
fn backspace_and_typing() {
    let mut app = abc();
    app.handle_input('x');
    assert_eq!(app.input_buffer(), "");
    app.enter_insert_add_mode();
    app.handle_backspace();
    assert_eq!(app.input_buffer(), "");
    app.handle_input('h');
    app.handle_input('é');
    app.handle_input('!');
    app.handle_backspace();
    assert_eq!(app.input_buffer(), "hé");
    app.handle_backspace();
    assert_eq!(app.input_buffer(), "h");
}

#[test]
fn commit_add_and_cancel() {
    let mut app = abc();
    assert!(matches!(app.handle_key(Key::Char('a')), Action::Continue));
    for c in "New".chars() {
        app.handle_key(Key::Char(c));
    }
    match app.handle_key(Key::Enter) {
        Action::Call(RemoteCall::Create { title }) => assert_eq!(title, "New"),
        _ => panic!("expected a create call"),
    }
    app.handle_key(Key::Char('a'));
    app.handle_key(Key::Char('q'));
    assert!(matches!(app.handle_key(Key::Esc), Action::Continue));
    assert!(matches!(app.mode(), Mode::Normal));
    assert_eq!(app.input_buffer(), "");
    app.handle_key(Key::Char('a'));
    app.handle_key(Key::Char(' '));
    assert!(matches!(app.handle_key(Key::Enter), Action::Continue));
    assert_eq!(app.tasks().len(), 3);
}

#[test]
fn edit_of_vanished_task_becomes_add() {
    let mut app = abc();
    app.enter_insert_edit_mode();
    assert_eq!(app.delete_task(1, Ok(())), Ok(true));
    app.handle_input('+');
    match app.exit_insert_mode() {
        Some(RemoteCall::Create { title }) => assert_eq!(title, "A+"),
        _ => panic!("expected a create call"),
    }
    assert!(app.exit_insert_mode().is_none());
}

#[test]
fn cancel_leaves_insert_mode() {
    let mut app = abc();
    app.enter_insert_add_mode();
    app.handle_input('x');
    app.cancel_insert_mode();
    assert!(matches!(app.mode(), Mode::Normal));
    assert_eq!(app.input_buffer(), "");
}

#[test]
fn normal_mode_keys() {
    let mut app = abc();
    assert!(matches!(app.handle_key(Key::Char('q')), Action::Quit));
    match app.handle_key(Key::Char('d')) {
        Action::Call(RemoteCall::Delete { id, todoist_id }) => {
            assert_eq!(id, 1);
            assert_eq!(todoist_id, "ra");
        }
        _ => panic!("expected a delete call"),
    }
    assert_eq!(app.tasks().len(), 3);
    assert!(matches!(app.handle_key(Key::Other), Action::Continue));
    assert!(matches!(app.handle_key(Key::Enter), Action::Continue));
    let mut empty = App::new(Vec::new());
    assert!(matches!(empty.handle_key(Key::Char('d')), Action::Continue));
    assert!(matches!(empty.handle_key(Key::Char('i')), Action::Continue));
    assert!(matches!(empty.mode(), Mode::Normal));
}

#[test]
fn commands_become_calls() {
    let app = abc();
    let add = Commands::Add { title: "T".to_string() };
    assert!(matches!(process_command(&app, &add), Some(RemoteCall::Create { .. })));
    let blank = Commands::Add { title: " ".to_string() };
    assert!(process_command(&app, &blank).is_none());
    let up = Commands::Update { id: 2, title: "B!".to_string(), checked: true };
    match process_command(&app, &up) {
        Some(RemoteCall::Update { todoist_id, is_completed, .. }) => {
            assert_eq!(todoist_id, "rb");
            assert!(is_completed);
        }
        _ => panic!("expected an update call"),
    }
    assert!(process_command(&app, &Commands::Delete { id: 9 }).is_none());
    assert!(matches!(process_command(&app, &Commands::Delete { id: 3 }), Some(RemoteCall::Delete { id: 3, .. })));
}

#[test]
fn blank_detection() {
    assert!(is_blank(""));
    assert!(is_blank(" \t\n"));
    assert!(is_blank("\u{a0}\u{2003}"));
    assert!(!is_blank(" a "));
    assert!(!is_blank("x"));
}

#[test]
fn schema_steps() {
    let cols = |v: &[&str]| v.iter().map(|s| s.to_string()).collect::<Vec<String>>();
    assert_eq!(schema_step(&cols(&[])), SchemaStep::CreateTable);
    assert_eq!(schema_step(&cols(&["id", "todoist_id", "title", "is_completed"])), SchemaStep::RenameCompletedColumn);
    assert_eq!(schema_step(&cols(&["id", "todoist_id", "title", "checked"])), SchemaStep::Ready);
    assert_eq!(schema_step(&cols(&["id", "is_completed", "checked"])), SchemaStep::Ready);
}

#[test]
fn white_space_matches_std() {
    for u in 0..=0x10ffffu32 {
        if let Some(c) = char::from_u32(u) {
            assert_eq!(is_white_space(c), c.is_whitespace(), "U+{:04X}", u);
        }
    }
}
