use cargo_tap::code_state::CodeState;
use cargo_tap::progress_helper::{
    cleanup_old_progress, initialize_with_progress, load_or_create_storage, save_progress, AutoSaveHelper,
};
use cargo_tap::progress_storage::{compute_hash, FileProgress, ProgressStorage};

#[test]
fn test_auto_save_helper() {
    let mut helper = AutoSaveHelper::new(10);

    assert!(!helper.should_save(5));
    assert!(!helper.should_save(9));

    assert!(helper.should_save(10));
    assert!(helper.should_save(15));

    helper.last_saved_position = 10;
    assert!(!helper.should_save(15));
    assert!(helper.should_save(20));
}

#[test]
fn test_auto_save_helper_backward() {
    let mut helper = AutoSaveHelper::new(10);
    helper.last_saved_position = 50;

    assert!(helper.should_save(39));
    assert!(!helper.should_save(45));
}

#[test]
fn test_auto_save_reset() {
    let mut helper = AutoSaveHelper::new(10);
    helper.last_saved_position = 100;

    helper.reset();
    assert_eq!(helper.last_saved_position, 0);
}

fn typed(code: &str, n: usize) -> CodeState {
    let mut state = CodeState::new(code.to_string());
    for _ in 0..n {
        state.type_character();
    }
    state
}

#[test]
fn saving_records_the_caret() {
    let mut storage = ProgressStorage::new("p.json");
    save_progress("a.rs", &typed("hello world", 4), "h", &mut storage);
    let p = storage.get_progress("a.rs").unwrap();
    assert_eq!((p.position, p.scroll_offset, p.last_accessed), (4, 0, None));
    assert_eq!(p.content_hash, "h");
}

#[test]
fn try_save_waits_for_enough_progress() {
    let mut storage = ProgressStorage::new("p.json");
    let mut helper = AutoSaveHelper::new(3);
    assert!(!helper.try_save("a.rs", &typed("hello world", 2), "h", &mut storage));
    assert_eq!(storage.count(), 0);
    assert_eq!(helper.last_saved_position, 0);
    assert!(helper.try_save("a.rs", &typed("hello world", 3), "h", &mut storage));
    helper.note_saved(&typed("hello world", 3));
    assert_eq!(storage.get_progress("a.rs").unwrap().position, 3);
    assert_eq!(helper.last_saved_position, 3);
    assert!(!helper.try_save("a.rs", &typed("hello world", 5), "h", &mut storage));
    assert_eq!(storage.get_progress("a.rs").unwrap().position, 3);
    assert!(helper.try_save("a.rs", &typed("hello world", 0), "h", &mut storage));
    helper.note_saved(&typed("hello world", 0));
    assert_eq!(storage.get_progress("a.rs").unwrap().position, 0);
    assert_eq!(helper.last_saved_position, 0);
}

#[test]
fn a_save_that_was_not_written_is_tried_again() {
    let mut storage = ProgressStorage::new("p.json");
    let mut helper = AutoSaveHelper::new(3);
    assert!(helper.try_save("a.rs", &typed("hello world", 4), "h", &mut storage));
    assert_eq!(storage.get_progress("a.rs").unwrap().position, 4);
    assert_eq!((helper.last_saved_position, helper.min_delta), (0, 3));
    assert!(helper.try_save("a.rs", &typed("hello world", 4), "h", &mut storage));
    helper.note_saved(&typed("hello world", 4));
    assert_eq!((helper.last_saved_position, helper.min_delta), (4, 3));
    assert!(!helper.try_save("a.rs", &typed("hello world", 4), "h", &mut storage));
}

#[test]
fn force_save_saves_at_once() {
    let mut storage = ProgressStorage::new("p.json");
    let mut helper = AutoSaveHelper::new(100);
    helper.force_save("a.rs", &typed("hello", 1), "h", &mut storage);
    assert_eq!(storage.get_progress("a.rs").unwrap().position, 1);
    assert_eq!(helper.last_saved_position, 0);
    helper.note_saved(&typed("hello", 1));
    assert_eq!(helper.last_saved_position, 1);
}

#[test]
fn a_file_is_picked_up_where_it_was_left() {
    let content = "fn main() {}".to_string();
    let mut storage = ProgressStorage::new("p.json");
    storage.save_progress("a.rs".to_string(), compute_hash(&content), 5);
    let (state, hash) = initialize_with_progress("a.rs", content.clone(), &storage);
    assert_eq!(hash, compute_hash(&content));
    assert_eq!(state.printed_code, "fn ma");
    assert_eq!(state.current_code, "in() {}");
}

#[test]
fn a_changed_or_unknown_file_starts_at_the_beginning() {
    let content = "fn main() {}".to_string();
    let mut storage = ProgressStorage::new("p.json");
    storage.save_progress("a.rs".to_string(), "stale".to_string(), 5);
    let (state, _) = initialize_with_progress("a.rs", content.clone(), &storage);
    assert_eq!(state.printed_code, "");
    assert_eq!(state.current_code, content);
    let (state, _) = initialize_with_progress("b.rs", content.clone(), &storage);
    assert_eq!(state.printed_code, "");
    assert_eq!(state.current_code, content);
}

#[test]
fn a_position_past_the_end_stops_at_the_end() {
    let content = "abc".to_string();
    let mut storage = ProgressStorage::new("p.json");
    storage.save_progress("a.rs".to_string(), compute_hash(&content), 50);
    let (state, _) = initialize_with_progress("a.rs", content, &storage);
    assert_eq!(state.printed_code, "abc");
    assert!(state.is_complete());
}

#[test]
fn storage_starts_empty_when_nothing_could_be_read() {
    let storage = load_or_create_storage("p.json", None);
    assert_eq!(storage.count(), 0);
    assert_eq!(storage.storage_path(), "p.json");
    let entries = vec![FileProgress::new("a.rs".to_string(), "h".to_string(), 7)];
    let storage = load_or_create_storage("p.json", Some(entries));
    assert_eq!(storage.count(), 1);
    assert_eq!(storage.get_progress("a.rs").unwrap().position, 7);
}

#[test]
fn cleanup_removes_the_missing_files_and_counts_them() {
    let mut storage = ProgressStorage::new("p.json");
    storage.save_progress("a.rs".to_string(), "h1".to_string(), 1);
    storage.save_progress("b.rs".to_string(), "h2".to_string(), 2);
    storage.save_progress("c.rs".to_string(), "h3".to_string(), 3);
    let missing = vec!["b.rs".to_string(), "zzz.rs".to_string(), "b.rs".to_string(), "a.rs".to_string()];
    assert_eq!(cleanup_old_progress(&mut storage, &missing), 2);
    assert_eq!(storage.get_all_files(), vec!["c.rs".to_string()]);
    assert_eq!(cleanup_old_progress(&mut storage, &Vec::new()), 0);
    assert_eq!(storage.count(), 1);
}
