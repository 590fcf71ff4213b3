use cube_skyline::focus::FocusState;

#[test]
fn nothing_is_in_focus_at_first() {
    let focus = FocusState::new();
    assert_eq!(focus.selected, None);
    assert!(!focus.is_focused(&"A".to_string()));
}

#[test]
fn picking_an_entry_puts_it_in_focus() {
    let mut focus = FocusState::new();
    focus.select("A".to_string());
    assert_eq!(focus.selected, Some("A".to_string()));
    assert!(focus.is_focused(&"A".to_string()));
    assert!(!focus.is_focused(&"B".to_string()));
}

#[test]
fn picking_the_same_entry_twice_clears_focus() {
    let mut focus = FocusState::new();
    focus.select("A".to_string());
    focus.select("A".to_string());
    assert_eq!(focus.selected, None);
    assert!(!focus.is_focused(&"A".to_string()));
}

#[test]
fn picking_another_entry_moves_focus() {
    let mut focus = FocusState::new();
    focus.select("A".to_string());
    focus.select("B".to_string());
    assert_eq!(focus.selected, Some("B".to_string()));
    assert!(focus.is_focused(&"B".to_string()));
    assert!(!focus.is_focused(&"A".to_string()));
}

#[test]
fn third_pick_of_the_same_entry_focuses_it_again() {
    let mut focus = FocusState::new();
    focus.select("A".to_string());
    focus.select("A".to_string());
    focus.select("A".to_string());
    assert_eq!(focus.selected, Some("A".to_string()));
}

#[test]
fn names_are_compared_whole() {
    let mut focus = FocusState::new();
    focus.select("alpha".to_string());
    assert!(!focus.is_focused(&"alph".to_string()));
    assert!(!focus.is_focused(&"".to_string()));
    focus.select("".to_string());
    assert!(focus.is_focused(&"".to_string()));
}
