use textedit::features::undo::{EditAction, UndoManager, UndoState};

fn insert_state(text: &str, cursor_position: usize) -> UndoState {
    UndoState {
        actions: vec![EditAction::Insert { position: 0, text: text.to_string() }],
        cursor_position,
    }
}

#[test]
fn test_undo_manager_new() {
    let manager = UndoManager::new(10);
    assert!(!manager.can_undo());
    assert!(!manager.can_redo());
}

#[test]
fn test_push_and_undo() {
    let mut manager = UndoManager::new(10);

    let state = UndoState {
        actions: vec![EditAction::Insert { position: 0, text: "hello".to_string() }],
        cursor_position: 5,
    };

    manager.push(state.clone());
    assert!(manager.can_undo());

    let undone = manager.undo();
    assert!(undone.is_some());
    assert!(manager.can_redo());
}

#[test]
fn test_redo() {
    let mut manager = UndoManager::new(10);

    let state = UndoState {
        actions: vec![EditAction::Insert { position: 0, text: "hello".to_string() }],
        cursor_position: 5,
    };

    manager.push(state);
    manager.undo();

    let redone = manager.redo();
    assert!(redone.is_some());
}

#[test]
fn test_max_history() {
    let mut manager = UndoManager::new(3);

    for i in 0..5 {
        let state = UndoState {
            actions: vec![EditAction::Insert { position: 0, text: format!("text{}", i) }],
            cursor_position: 0,
        };
        manager.push(state);
    }

    assert_eq!(manager.undo_count(), 3);
}

#[test]
fn test_inverse_insert_delete() {
    let insert = EditAction::Insert { position: 5, text: "hello".to_string() };
    let inverse = UndoManager::get_inverse_action(&insert);

    match inverse {
        EditAction::Delete { position, text } => {
            assert_eq!(position, 5);
            assert_eq!(text, "hello");
        }
        _ => panic!("Expected Delete"),
    }
}

#[test]
fn test_inverse_replace() {
    let replace = EditAction::Replace {
        position: 0,
        old_text: "old".to_string(),
        new_text: "new".to_string(),
    };

    let inverse = UndoManager::get_inverse_action(&replace);

    match inverse {
        EditAction::Replace { old_text, new_text, .. } => {
            assert_eq!(old_text, "new");
            assert_eq!(new_text, "old");
        }
        _ => panic!("Expected Replace"),
    }
}

#[test]
fn test_clear_redo_on_new_edit() {
    let mut manager = UndoManager::new(10);

    let state1 = UndoState {
        actions: vec![EditAction::Insert { position: 0, text: "a".to_string() }],
        cursor_position: 1,
    };

    manager.push(state1);
    manager.undo();
    assert!(manager.can_redo());

    let state2 = UndoState {
        actions: vec![EditAction::Insert { position: 0, text: "b".to_string() }],
        cursor_position: 1,
    };

    manager.push(state2);
    assert!(!manager.can_redo());
}

#[test]
fn undo_then_redo_gives_back_the_state() {
    let mut manager = UndoManager::default();
    manager.push(insert_state("one", 3));
    manager.push(insert_state("two", 6));
    let undone = manager.undo().unwrap();
    assert_eq!(undone.cursor_position, 6);
    let redone = manager.redo().unwrap();
    assert_eq!(redone.cursor_position, 6);
    match &redone.actions[0] {
        EditAction::Insert { text, .. } => assert_eq!(text, "two"),
        _ => panic!("expected the insert"),
    }
    assert_eq!(manager.undo_count(), 2);
    assert!(!manager.can_redo());
}

#[test]
fn undo_on_empty_history_gives_nothing() {
    let mut manager = UndoManager::new(5);
    assert!(manager.undo().is_none());
    assert!(manager.redo().is_none());
    manager.push(insert_state("x", 1));
    manager.clear();
    assert!(!manager.can_undo());
    assert_eq!(manager.undo_count(), 0);
}

#[test]
fn max_history_keeps_the_newest() {
    let mut manager = UndoManager::new(2);
    manager.push(insert_state("a", 1));
    manager.push(insert_state("b", 2));
    manager.push(insert_state("c", 3));
    assert_eq!(manager.undo_count(), 2);
    assert_eq!(manager.undo().unwrap().cursor_position, 3);
    assert_eq!(manager.undo().unwrap().cursor_position, 2);
    assert!(manager.undo().is_none());
}

#[test]
fn inverse_delete_is_insert() {
    let delete = EditAction::Delete { position: 2, text: "xy".to_string() };
    match UndoManager::get_inverse_action(&delete) {
        EditAction::Insert { position, text } => {
            assert_eq!(position, 2);
            assert_eq!(text, "xy");
        }
        _ => panic!("Expected Insert"),
    }
}
