use am_renderer::history::EditHistory;

#[test]
fn undo_gives_back_state_before_edit() {
    let mut h: EditHistory<String> = EditHistory::new();
    h.record_edit(1, "v0".to_string());
    h.record_edit(1, "v1".to_string());
    // Undo from the current state v2 gives v1, then v0.
    assert_eq!(h.undo(1, "v2".to_string()), Some("v1".to_string()));
    assert_eq!(h.undo(1, "v1".to_string()), Some("v0".to_string()));
    assert_eq!(h.undo(1, "v0".to_string()), None);
    // Redo walks forward again.
    assert_eq!(h.redo(1, "v0".to_string()), Some("v1".to_string()));
    assert_eq!(h.redo(1, "v1".to_string()), Some("v2".to_string()));
    assert_eq!(h.redo(1, "v2".to_string()), None);
}

#[test]
fn undo_empty_stack_is_refused() {
    let mut h: EditHistory<u32> = EditHistory::new();
    assert_eq!(h.undo(7, 3), None);
    assert_eq!(h.redo(7, 3), None);
    assert_eq!(h.pop_undo(7), None);
    assert_eq!(h.pop_redo(7), None);
}

#[test]
fn edit_clears_redo_of_that_project_only() {
    let mut h: EditHistory<u32> = EditHistory::new();
    h.record_edit(1, 10);
    h.record_edit(2, 20);
    assert_eq!(h.undo(1, 11), Some(10));
    assert_eq!(h.undo(2, 21), Some(20));
    // A new edit of project 1 forgets what could be redone there.
    h.record_edit(1, 11);
    assert_eq!(h.redo(1, 12), None);
    // Project 2 keeps its redo stack.
    assert_eq!(h.redo(2, 20), Some(21));
}

#[test]
fn low_level_stack_operations() {
    let mut h: EditHistory<u32> = EditHistory::new();
    h.push_undo(5, 1);
    h.push_undo(5, 2);
    h.push_redo(5, 9);
    assert_eq!(h.pop_undo(5), Some(2));
    assert_eq!(h.pop_redo(5), Some(9));
    assert_eq!(h.pop_undo(5), Some(1));
    assert_eq!(h.pop_undo(5), None);
}
