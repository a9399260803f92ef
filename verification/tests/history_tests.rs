use application::cells::{corner_partition_step, side_partition_step, Cell};
use application::editor::DocumentTabs;
use application::history::{clear_history, record_diff, redo_step, undo_step};

#[test]
fn history_undo_then_redo() {
    let mut diffs: Vec<u32> = Vec::new();
    let mut position: usize = 0;
    record_diff(&mut diffs, &mut position, 10);
    record_diff(&mut diffs, &mut position, 20);
    assert_eq!(diffs, vec![10, 20]);
    assert_eq!(position, 2);
    assert_eq!(undo_step(&mut position), Some(1));
    assert_eq!(position, 1);
    assert_eq!(redo_step(&mut position, diffs.len()), Some(1));
    assert_eq!(position, 2);
    assert_eq!(redo_step(&mut position, diffs.len()), None);
    assert_eq!(position, 2);
}

#[test]
fn history_record_drops_undone() {
    let mut diffs: Vec<u32> = Vec::new();
    let mut position: usize = 0;
    record_diff(&mut diffs, &mut position, 1);
    record_diff(&mut diffs, &mut position, 2);
    record_diff(&mut diffs, &mut position, 3);
    assert_eq!(undo_step(&mut position), Some(2));
    assert_eq!(undo_step(&mut position), Some(1));
    record_diff(&mut diffs, &mut position, 9);
    assert_eq!(diffs, vec![1, 9]);
    assert_eq!(position, 2);
    assert_eq!(redo_step(&mut position, diffs.len()), None);
}

#[test]
fn history_undo_at_start_and_clear() {
    let mut diffs: Vec<u32> = vec![5];
    let mut position: usize = 0;
    assert_eq!(undo_step(&mut position), None);
    assert_eq!(position, 0);
    clear_history(&mut diffs, &mut position);
    assert!(diffs.is_empty());
    assert_eq!(position, 0);
}

#[test]
fn document_tabs_select_and_close() {
    let mut tabs: DocumentTabs<String> = DocumentTabs::new();
    assert!(tabs.active_document().is_none());
    let a = tabs.add_document("a".to_string());
    let b = tabs.add_document("b".to_string());
    assert_eq!(a, 1);
    assert_eq!(b, 2);
    assert_eq!(tabs.active_document().map(|s| s.as_str()), Some("a"));
    assert!(tabs.bind_tab(100, a));
    assert!(tabs.bind_tab(101, b));
    assert!(!tabs.bind_tab(102, 7));
    tabs.tab_selected(101);
    assert_eq!(tabs.selected_document_id, 2);
    assert_eq!(tabs.active_document().map(|s| s.as_str()), Some("b"));
    tabs.tab_selected(555);
    assert_eq!(tabs.selected_document_id, 2);
    tabs.tab_closed(101);
    assert!(tabs.active_document().is_none());
    assert!(tabs.documents.contains_key(&1));
    assert!(!tabs.tab_to_document.contains_key(&101));
    assert!(DocumentTabs::<String>::selects(None, 3));
    assert!(DocumentTabs::<String>::selects(Some(3), 3));
    assert!(!DocumentTabs::<String>::selects(Some(4), 3));
}

#[test]
fn corner_partitions_of_a_triangle() {
    let cells = vec![Cell::new(&[(1, 0), (1, 0), (1, 0)]), Cell::new(&[(2, 1), (1, 0), (1, 1)])];
    let (count, left) = corner_partition_step(&cells, (0, 0), 1);
    assert_eq!(count, 1);
    assert!(left.is_empty());
    let (count, left) = corner_partition_step(&cells, (0, 0), 2);
    assert_eq!(count, 0);
    assert_eq!(left, vec![(1, (0, 0))]);
    let (count, left) = corner_partition_step(&cells, (1, 1), 2);
    assert_eq!(count, 1);
    assert!(left.is_empty());
    let requests = side_partition_step(&cells, (0, 0, 0), (2, 1));
    assert_eq!(requests, vec![(0, Some((1, (0, 0))), None)]);
    let requests = side_partition_step(&cells, (0, 0, 5), (2, 1));
    assert!(requests.is_empty());
}

#[test]
fn glyph_block_of_a_character() {
    assert_eq!(application::font::glyph_block('A'), (0, 0x100));
    assert_eq!(application::font::glyph_block('\u{0416}'), (0x400, 0x500));
}
