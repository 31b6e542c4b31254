use am4::aircraft::{ACSelection, Modification, Modifier};
use am4::paging::{page_range, total_pages};
use am4::picker::Picker;
use am4::query::{csv_tokens, join_with_commas, trim_text};
use am4::settings::{read_price, SettingsInputError, Training};

#[test]
fn training_levels() {
    assert_eq!(Training::Fuel.read_level("3"), Ok(3));
    assert_eq!(Training::Fuel.read_level("4"), Err(SettingsInputError::InvalidTraining(Training::Fuel)));
    assert_eq!(Training::Heavy.read_level("6"), Ok(6));
    assert_eq!(Training::Co2.read_level("x"), Err(SettingsInputError::InvalidTraining(Training::Co2)));
    assert_eq!(Training::Wear.max_level(), 5);
}

#[test]
fn prices() {
    assert_eq!(read_price("800"), Ok(800));
    assert_eq!(read_price("65535"), Ok(65535));
    assert_eq!(read_price("65536"), Err(SettingsInputError::InvalidInteger));
    assert_eq!(read_price("-1"), Err(SettingsInputError::InvalidInteger));
}

#[test]
fn pages() {
    assert_eq!(total_pages(0, 10), 1);
    assert_eq!(total_pages(10, 10), 1);
    assert_eq!(total_pages(11, 10), 2);
    assert_eq!(page_range(0, 10, 25), (0, 10));
    assert_eq!(page_range(2, 10, 25), (20, 25));
    assert_eq!(page_range(3, 10, 25), (0, 0));
}

#[test]
fn trimming() {
    assert_eq!(trim_text("  hnd \t"), "hnd");
    assert_eq!(trim_text("   "), "");
    assert_eq!(trim_text("a b"), "a b");
    assert_eq!(trim_text("\u{3000}x\u{a0}"), "x");
}

#[test]
fn typed_tokens() {
    assert_eq!(csv_tokens("hnd"), None);
    let (tokens, tail) = csv_tokens(" hnd, lhr ,,jf").unwrap();
    assert_eq!(tokens, vec!["hnd".to_string(), "lhr".to_string()]);
    assert_eq!(tail, "jf");
    let (tokens, tail) = csv_tokens("a,b,").unwrap();
    assert_eq!(tokens, vec!["a".to_string(), "b".to_string()]);
    assert_eq!(tail, "");
    assert_eq!(join_with_commas(&vec!["x".to_string(), "y".to_string()]), "x,y");
    assert_eq!(join_with_commas(&vec![]), "");
}

#[test]
fn token_items() {
    let mut p = Picker::new();
    assert!(p.add_token_item(Some(1), true, Some(2)));
    assert!(!p.add_token_item(Some(1), true, Some(2)));
    assert!(!p.add_token_item(None, true, Some(2)));
    assert!(!p.add_token_item(Some(2), false, Some(2)));
    assert!(p.add_token_item(Some(3), true, Some(2)));
    assert!(p.add_token_item(Some(4), true, Some(2)));
    assert_eq!(p.selected, vec![1, 4]);
}

#[test]
fn typed_tokens_applied() {
    let mut p = Picker::new();
    p.selected.push(7);
    p.cursor = Some(0);
    let tokens = vec!["a".to_string(), "b".to_string(), "c".to_string(), "d".to_string()];
    let items = vec![Some(1), None, Some(7), Some(2)];
    let oks = vec![true, false, true, false];
    let text = p.apply_typed_tokens(tokens, &items, &oks, "jf".to_string(), Some(3));
    assert_eq!(text, "b,c,d,jf");
    assert_eq!(p.selected, vec![7, 1]);
    assert_eq!(p.cursor, None);
    let text = p.apply_typed_tokens(vec!["x".to_string()], &vec![Some(9)], &vec![true], String::new(), Some(2));
    assert_eq!(text, "");
    assert_eq!(p.selected, vec![7, 9]);
}

#[test]
fn selection_rows() {
    let m = Modification::parse("1").unwrap().unwrap();
    let row = ACSelection::Variant("a", m);
    assert_eq!(*row.aircraft(), "a");
    let row = row.toggle(Modifier::Speed, true);
    assert!(row.modification().unwrap().mods.speed);
    assert_eq!(row.modification().unwrap().engine.get(), 1);
    let header: ACSelection<&str> = ACSelection::Header("b");
    assert!(header.modification().is_none());
    assert!(header.toggle(Modifier::Fuel, true).modification().is_none());
}

#[test]
fn picked_items_stay_distinct_and_within_limit() {
    let mut p = Picker::new();
    let max = Some(3);
    assert!(p.select(1, true, max));
    assert!(p.select(2, true, max));
    assert!(!p.select(9, false, max));
    assert!(p.select(2, true, max));
    let text = p.apply_typed_tokens(
        vec!["a".to_string(), "b".to_string(), "c".to_string()],
        &vec![Some(3), Some(4), Some(1)],
        &vec![true, true, true],
        String::new(),
        max,
    );
    assert_eq!(text, "c");
    assert_eq!(p.selected, vec![1, 2, 4]);
    p.remove(2);
    p.backspace();
    assert_eq!(p.selected, vec![1]);
    assert!(p.select(5, true, max));
    assert!(p.select(6, true, max));
    assert!(p.select(7, true, max));
    assert_eq!(p.selected, vec![1, 5, 7]);
    assert!(!p.selected.contains(&9));
}

#[test]
fn whitespace_matches_std() {
    for c in (0u32..=0x10FFFF).filter_map(char::from_u32) {
        assert_eq!(trim_text(&c.to_string()).is_empty(), c.is_whitespace(), "{:?}", c);
    }
}
