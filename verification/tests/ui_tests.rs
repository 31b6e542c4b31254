use am4::console::{ConsoleState, Level};
use am4::picker::{first_selectable, highlight_down, highlight_up, Picker};

#[test]
fn console_numbers_entries() {
    let mut c = ConsoleState::new();
    c.record(10, Level::Info, "hello".to_string());
    c.record(20, Level::Error, "oops".to_string());
    assert_eq!(c.history.len(), 2);
    assert_eq!(c.history[0].id, 0);
    assert_eq!(c.history[1].id, 1);
    assert_eq!(c.history[1].message, "oops");
    assert_eq!(Level::Success.label(), "OK");
    assert_eq!(Level::default().label(), "DEBUG");
}

#[test]
fn select_respects_limit_and_duplicates() {
    let mut p = Picker::new();
    assert!(p.select(1, true, None));
    assert!(p.select(2, true, None));
    assert!(p.select(1, true, None));
    assert_eq!(p.selected, vec![1, 2]);
    assert!(!p.select(3, false, None));
    assert_eq!(p.selected, vec![1, 2]);

    let mut one = Picker::new();
    one.select(5, true, Some(1));
    one.select(6, true, Some(1));
    assert_eq!(one.selected, vec![6]);
}

#[test]
fn remove_keeps_cursor_on_items() {
    let mut p = Picker::new();
    for k in [1, 2, 3] {
        p.select(k, true, None);
    }
    p.cursor = Some(2);
    p.pinned = Some(3);
    p.active = Some(3);
    p.remove(3);
    assert_eq!(p.selected, vec![1, 2]);
    assert_eq!(p.cursor, Some(1));
    assert_eq!(p.pinned, None);
    assert_eq!(p.active, None);
}

#[test]
fn keyboard_moves_and_deletes() {
    let mut p = Picker::new();
    for k in [10, 20, 30] {
        p.select(k, true, None);
    }
    assert!(p.arrow_left(false));
    assert_eq!(p.cursor, Some(2));
    assert_eq!(p.active, Some(30));
    assert!(p.arrow_left(true));
    assert_eq!(p.range, Some((1, 1)));
    assert_eq!(p.anchor, Some(1));
    assert!(p.arrow_left(true));
    assert_eq!(p.range, Some((0, 1)));
    assert_eq!(p.copy_keys(true), vec![10, 20]);
    p.backspace();
    assert_eq!(p.selected, vec![30]);
    assert_eq!(p.cursor, None);
    assert!(p.arrow_right(false));
    assert_eq!(p.cursor, None);
    p.backspace();
    assert!(p.selected.is_empty());
    assert!(!p.arrow_left(false));
}

#[test]
fn select_all_and_copy() {
    let mut p = Picker::new();
    assert!(!p.select_all());
    for k in [4, 5] {
        p.select(k, true, None);
    }
    assert!(p.select_all());
    assert_eq!(p.range, Some((0, 1)));
    assert_eq!(p.cursor, Some(1));
    assert_eq!(p.active, Some(5));
    p.range = None;
    assert_eq!(p.copy_keys(true), vec![4, 5]);
    assert!(p.copy_keys(false).is_empty());
}

#[test]
fn pill_click_pins() {
    let mut p = Picker::new();
    p.select(9, true, None);
    p.pill_click(9);
    assert_eq!(p.pinned, Some(9));
    assert_eq!(p.active, Some(9));
    p.pill_click(9);
    assert_eq!(p.pinned, None);
}

#[test]
fn suggestion_highlight_skips_unselectable() {
    let flags = vec![false, true, false, true];
    assert_eq!(first_selectable(&flags), 1);
    assert_eq!(first_selectable(&vec![false, false]), 0);
    assert_eq!(highlight_down(1, &flags), 3);
    assert_eq!(highlight_down(3, &flags), 3);
    assert_eq!(highlight_up(3, &flags), 1);
    assert_eq!(highlight_up(1, &flags), 1);
    assert_eq!(highlight_up(0, &flags), 0);
}
