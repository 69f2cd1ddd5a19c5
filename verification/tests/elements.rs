use sol_ui::element::dropdown::{
    filtered_options, first_type_ahead_match, handle_char, handle_key, indices_containing,
    options_from_values, selected_option, type_ahead, DropdownOption, DropdownState,
};
use sol_ui::element::list::{action_button_id, item_background, ItemBackground, ListState, SelectionMode};
use sol_ui::interaction::ElementId;
use sol_ui::element::text_input::{blink_step, handle_key_input, TextInputState, BLINK_FRAMES};
use sol_ui::layer::{Key, Modifiers};

fn opts() -> Vec<DropdownOption<&'static str>> {
    vec![
        DropdownOption::new("Apple"),
        DropdownOption::new("Banana").disabled(),
        DropdownOption::new("Cherry"),
        DropdownOption::new("x").label("Date"),
    ]
}

#[test]
fn dropdown_state_toggle_close_select() {
    let mut s = DropdownState::new();
    s.selected_index = Some(2);
    s.toggle();
    assert!(s.is_open);
    assert_eq!(s.highlighted_index, Some(2));
    s.search_text.push('q');
    s.toggle();
    assert!(!s.is_open);
    assert!(s.search_text.is_empty());
    s.select(3);
    assert_eq!(s.selected_index, Some(3));
    assert!(!s.is_open);
}

#[test]
fn dropdown_opens_on_space() {
    let options = opts();
    let mut s = DropdownState::new();
    assert_eq!(handle_key(&options, Key::Down, &mut s), None);
    assert!(!s.is_open);
    assert_eq!(handle_key(&options, Key::Space, &mut s), None);
    assert!(s.is_open);
}

#[test]
fn dropdown_navigation_skips_disabled() {
    let options = opts();
    let mut s = DropdownState::new();
    s.is_open = true;
    s.highlighted_index = Some(0);
    handle_key(&options, Key::Down, &mut s);
    assert_eq!(s.highlighted_index, Some(2));
    handle_key(&options, Key::Up, &mut s);
    assert_eq!(s.highlighted_index, Some(0));
    handle_key(&options, Key::Up, &mut s);
    assert_eq!(s.highlighted_index, Some(0));
    handle_key(&options, Key::End, &mut s);
    assert_eq!(s.highlighted_index, Some(3));
    handle_key(&options, Key::Down, &mut s);
    assert_eq!(s.highlighted_index, Some(3));
    handle_key(&options, Key::Home, &mut s);
    assert_eq!(s.highlighted_index, Some(0));
}

#[test]
fn dropdown_return_selects_enabled_only() {
    let options = opts();
    let mut s = DropdownState::new();
    s.is_open = true;
    s.highlighted_index = Some(1);
    assert_eq!(handle_key(&options, Key::Return, &mut s), None);
    assert!(s.is_open);
    s.highlighted_index = Some(2);
    assert_eq!(handle_key(&options, Key::Return, &mut s), Some(2));
    assert!(!s.is_open);
    assert_eq!(s.selected_index, Some(2));
    assert_eq!(selected_option(&options, &s).unwrap().value, "Cherry");
    s.is_open = true;
    handle_key(&options, Key::Escape, &mut s);
    assert!(!s.is_open);
}

#[test]
fn dropdown_type_ahead() {
    let options = opts();
    let mut s = DropdownState::new();
    handle_char(&options, 'c', &mut s);
    assert!(s.search_text.is_empty());
    s.is_open = true;
    handle_char(&options, 'c', &mut s);
    assert_eq!(s.search_text, "c");
    assert_eq!(s.highlighted_index, Some(2));
    handle_char(&options, 'h', &mut s);
    assert_eq!(s.search_text, "ch");
    assert_eq!(s.highlighted_index, Some(2));
}

#[test]
fn dropdown_type_ahead_uses_labels_and_skips_disabled() {
    let options = opts();
    let mut s = DropdownState::new();
    s.is_open = true;
    handle_char(&options, 'D', &mut s);
    assert_eq!(s.highlighted_index, Some(3));
    let mut s = DropdownState::new();
    s.is_open = true;
    s.highlighted_index = Some(0);
    handle_char(&options, 'b', &mut s);
    assert_eq!(s.highlighted_index, Some(0));
}

#[test]
fn dropdown_filter() {
    let options = opts();
    let all: Vec<usize> = filtered_options(&options, "").iter().map(|(i, _)| *i).collect();
    assert_eq!(all, vec![0, 1, 2, 3]);
    let an: Vec<usize> = filtered_options(&options, "AN").iter().map(|(i, _)| *i).collect();
    assert_eq!(an, vec![1]);
    let e: Vec<usize> = filtered_options(&options, "e").iter().map(|(i, _)| *i).collect();
    assert_eq!(e, vec![0, 2, 3]);
}

#[test]
fn dropdown_helpers() {
    let texts = vec!["apple".to_string(), "grape".to_string()];
    assert_eq!(indices_containing(&texts, "ap"), vec![0, 1]);
    assert_eq!(indices_containing(&texts, "gr"), vec![1]);
    let options = options_from_values(vec![1, 2]);
    assert_eq!(options.len(), 2);
    assert_eq!(options[1].value, 2);
    assert!(!options[1].disabled);
    assert_eq!(first_type_ahead_match(&options, &["one".to_string(), "two".to_string()], "t"), Some(1));
    assert_eq!(options[0].display_text(), "1");
    let o = DropdownOption::new(5).label("five").group("numbers");
    assert_eq!(o.display_text(), "five");
    assert_eq!(o.group.as_deref(), Some("numbers"));
}

#[test]
fn list_selection_modes() {
    let mut s = ListState::new();
    s.toggle_selection(1, SelectionMode::NoSelection);
    assert!(!s.is_selected(1));
    s.toggle_selection(1, SelectionMode::Single);
    s.toggle_selection(2, SelectionMode::Single);
    assert!(!s.is_selected(1));
    assert!(s.is_selected(2));
    s.toggle_selection(2, SelectionMode::Single);
    assert!(!s.is_selected(2));
    s.toggle_selection(3, SelectionMode::Multi);
    s.toggle_selection(4, SelectionMode::Multi);
    assert!(s.is_selected(3) && s.is_selected(4));
    s.toggle_selection(3, SelectionMode::Multi);
    assert!(!s.is_selected(3));
    s.select(5, SelectionMode::Single);
    assert!(s.is_selected(5) && !s.is_selected(4));
    s.select(6, SelectionMode::Multi);
    assert!(s.is_selected(5) && s.is_selected(6));
    s.deselect(5);
    assert!(!s.is_selected(5));
    s.clear_selection();
    assert!(s.selected.is_empty());
    assert_eq!(SelectionMode::default(), SelectionMode::NoSelection);
}

fn no_mods() -> Modifiers {
    Modifiers::default()
}

#[test]
fn text_input_typing_and_editing() {
    let mut s = TextInputState::with_text("helo");
    assert_eq!(s.cursor, 4);
    s.move_left(false);
    s.insert("l");
    assert_eq!(s.text, "hello");
    assert_eq!(s.cursor, 4);
    s.move_to_end(false);
    s.backspace();
    assert_eq!(s.text, "hell");
    s.move_to_start(false);
    s.delete();
    assert_eq!(s.text, "ell");
    assert_eq!(s.cursor, 0);
}

#[test]
fn text_input_selection() {
    let mut s = TextInputState::with_text("hello world");
    s.move_to_start(false);
    for _ in 0..5 {
        s.move_right(true);
    }
    assert_eq!(s.selection_range(), Some((0, 5)));
    assert_eq!(s.selected_text(), Some("hello"));
    s.insert("bye");
    assert_eq!(s.text, "bye world");
    assert_eq!(s.cursor, 3);
    assert_eq!(s.selection_range(), None);
    s.select_all();
    assert_eq!(s.delete_selection(), Some("bye world".to_string()));
    assert_eq!(s.text, "");
    assert_eq!(s.delete_selection(), None);
}

#[test]
fn text_input_arrow_collapses_selection() {
    let mut s = TextInputState::with_text("abcdef");
    s.move_left(true);
    s.move_left(true);
    assert_eq!(s.selection_range(), Some((4, 6)));
    s.move_left(false);
    assert_eq!(s.cursor, 4);
    assert_eq!(s.selection_start, None);
    s.move_right(true);
    s.move_right(false);
    assert_eq!(s.cursor, 5);
    s.clear_selection();
    assert_eq!(s.cursor, 5);
}

#[test]
fn text_input_counts_characters() {
    let mut s = TextInputState::with_text("héllo");
    assert_eq!(s.cursor, 5);
    s.move_to_start(false);
    s.move_right(false);
    s.delete();
    assert_eq!(s.text, "hllo");
}

#[test]
fn text_input_keys() {
    let mut s = TextInputState::default();
    let out = handle_key_input(&mut s, Key::A, no_mods(), Some('a'));
    assert!(out.text_changed);
    assert!(!out.submitted);
    handle_key_input(&mut s, Key::B, no_mods(), Some('b'));
    assert_eq!(s.text, "ab");
    let cmd = Modifiers { cmd: true, ..Default::default() };
    let out = handle_key_input(&mut s, Key::A, cmd, Some('a'));
    assert!(!out.text_changed);
    assert_eq!(s.selection_range(), Some((0, 2)));
    let out = handle_key_input(&mut s, Key::Backspace, no_mods(), None);
    assert!(out.text_changed);
    assert_eq!(s.text, "");
    let out = handle_key_input(&mut s, Key::Return, no_mods(), None);
    assert!(out.submitted);
    assert!(!out.text_changed);
    let ctrl = Modifiers { ctrl: true, ..Default::default() };
    let out = handle_key_input(&mut s, Key::X, ctrl, Some('x'));
    assert!(!out.text_changed);
    assert_eq!(s.text, "");
    assert!(s.cursor_visible);
    assert_eq!(s.blink_counter, 0);
}

#[test]
fn typing_then_backspace_gives_back_the_text() {
    let mut s = TextInputState::with_text("abc");
    s.move_left(false);
    let before = s.clone();
    handle_key_input(&mut s, Key::X, no_mods(), Some('x'));
    assert_eq!(s.text, "abxc");
    handle_key_input(&mut s, Key::Backspace, no_mods(), None);
    assert_eq!(s.text, before.text);
    assert_eq!(s.cursor, before.cursor);
}

#[test]
fn multi_toggle_twice_restores_selection() {
    let mut s = ListState::new();
    s.select(1, SelectionMode::Multi);
    s.toggle_selection(2, SelectionMode::Multi);
    s.toggle_selection(2, SelectionMode::Multi);
    assert!(s.is_selected(1));
    assert!(!s.is_selected(2));
    assert_eq!(s.selected.len(), 1);
}

#[test]
fn type_ahead_restarts_after_a_pause() {
    let options = opts();
    let mut s = DropdownState::new();
    s.is_open = true;
    let t = std::time::Instant::now();
    type_ahead(&options, 'c', &mut s, t, None);
    assert_eq!(s.search_text, "c");
    assert_eq!(s.highlighted_index, Some(2));
    assert_eq!(s.last_search_time, Some(t));
    type_ahead(&options, 'h', &mut s, t, Some(500));
    assert_eq!(s.search_text, "ch");
    assert_eq!(s.highlighted_index, Some(2));
    type_ahead(&options, 'a', &mut s, t, Some(501));
    assert_eq!(s.search_text, "a");
    assert_eq!(s.highlighted_index, Some(0));
}

#[test]
fn type_ahead_on_closed_dropdown_does_nothing() {
    let options = opts();
    let mut s = DropdownState::new();
    type_ahead(&options, 'c', &mut s, std::time::Instant::now(), Some(10));
    assert!(s.search_text.is_empty());
    assert_eq!(s.highlighted_index, None);
    assert_eq!(s.last_search_time, None);
}

#[test]
fn text_input_movement_keys() {
    let shift = Modifiers { shift: true, ..Default::default() };
    let mut s = TextInputState::with_text("abcd");
    handle_key_input(&mut s, Key::Left, no_mods(), None);
    assert_eq!(s.cursor, 3);
    handle_key_input(&mut s, Key::Left, shift, None);
    assert_eq!(s.cursor, 2);
    assert_eq!(s.selection_range(), Some((2, 3)));
    handle_key_input(&mut s, Key::Right, no_mods(), None);
    assert_eq!(s.cursor, 3);
    assert_eq!(s.selection_start, None);
    handle_key_input(&mut s, Key::Home, shift, None);
    assert_eq!(s.selection_range(), Some((0, 3)));
    handle_key_input(&mut s, Key::End, no_mods(), None);
    assert_eq!(s.cursor, 4);
    assert_eq!(s.selection_start, None);
    handle_key_input(&mut s, Key::Home, no_mods(), None);
    handle_key_input(&mut s, Key::Delete, no_mods(), None);
    assert_eq!(s.text, "bcd");
    assert_eq!(s.cursor, 0);
    handle_key_input(&mut s, Key::Backspace, no_mods(), None);
    assert_eq!(s.text, "bcd");
    assert_eq!(s.cursor, 0);
}

#[test]
fn cursor_blinks_every_thirty_focused_frames() {
    let mut s = TextInputState::with_text("ab");
    assert_eq!(BLINK_FRAMES, 30);
    for _ in 0..29 {
        blink_step(&mut s, true);
    }
    assert!(s.cursor_visible);
    assert_eq!(s.blink_counter, 29);
    blink_step(&mut s, true);
    assert!(!s.cursor_visible);
    assert_eq!(s.blink_counter, 0);
    blink_step(&mut s, true);
    blink_step(&mut s, false);
    assert!(s.cursor_visible);
    assert_eq!(s.blink_counter, 0);
    assert_eq!(s.text, "ab");
}

#[test]
fn list_item_backgrounds_and_action_ids() {
    let mut s = ListState::new();
    s.select(1, SelectionMode::Multi);
    s.hovered = Some(1);
    assert_eq!(item_background(&s, 1), ItemBackground::Selected);
    s.hovered = Some(2);
    assert_eq!(item_background(&s, 2), ItemBackground::Hovered);
    assert_eq!(item_background(&s, 3), ItemBackground::Plain);
    assert_eq!(action_button_id(ElementId(5), 2), ElementId(1007));
    assert_eq!(action_button_id(ElementId(u64::MAX), 0), ElementId(999));
}
