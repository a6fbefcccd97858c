use code_assistant::editor::{Editor, EditorTab};

fn chars(s: &str) -> Vec<char> {
    s.chars().collect()
}

#[test]
fn new_tab_is_untitled_and_empty() {
    let tab = EditorTab::new();
    assert!(tab.file_path.is_none());
    assert_eq!(tab.file_name, "Untitled");
    assert_eq!(tab.lines.len(), 1);
    assert!(tab.lines[0].is_empty());
    assert!(!tab.is_modified);
}

#[test]
fn from_content_splits_lines() {
    let tab = EditorTab::from_content(
        "/w/a.txt".to_string(),
        "a.txt".to_string(),
        "one\ntwo\n".to_string(),
    );
    assert_eq!(tab.lines.len(), 2);
    assert_eq!(tab.lines[0], chars("one"));
    assert_eq!(tab.lines[1], chars("two"));
    assert_eq!(tab.file_path.as_deref(), Some("/w/a.txt"));
}

#[test]
fn insert_and_backspace_edit_the_line() {
    let mut tab = EditorTab::new();
    tab.insert_char('h');
    tab.insert_char('i');
    assert_eq!(tab.lines[0], chars("hi"));
    assert_eq!(tab.cursor_col, 2);
    assert!(tab.is_modified);
    tab.backspace();
    assert_eq!(tab.lines[0], chars("h"));
    assert_eq!(tab.cursor_col, 1);
}

#[test]
fn newline_splits_and_backspace_rejoins() {
    let mut tab = EditorTab::new();
    tab.insert_char('a');
    tab.insert_char('b');
    tab.move_cursor_left();
    tab.insert_newline();
    assert_eq!(tab.lines.len(), 2);
    assert_eq!(tab.lines[0], chars("a"));
    assert_eq!(tab.lines[1], chars("b"));
    assert_eq!((tab.cursor_line, tab.cursor_col), (1, 0));
    tab.backspace();
    assert_eq!(tab.lines.len(), 1);
    assert_eq!(tab.lines[0], chars("ab"));
    assert_eq!((tab.cursor_line, tab.cursor_col), (0, 1));
}

#[test]
fn cursor_clamps_to_shorter_lines() {
    let mut tab = EditorTab::from_content(
        "/w/t".to_string(),
        "t".to_string(),
        "long line\nab".to_string(),
    );
    tab.cursor_col = 9;
    tab.move_cursor_down();
    assert_eq!((tab.cursor_line, tab.cursor_col), (1, 2));
    tab.move_cursor_up();
    assert_eq!((tab.cursor_line, tab.cursor_col), (0, 2));
}

#[test]
fn save_joins_lines_and_clears_the_flag() {
    let mut tab = EditorTab::from_content(
        "/w/t".to_string(),
        "t".to_string(),
        "one\ntwo".to_string(),
    );
    tab.insert_char('!');
    assert!(tab.is_modified);
    let (path, content) = tab.save().unwrap();
    assert_eq!(path, "/w/t");
    assert_eq!(content, "!one\ntwo");
    assert!(!tab.is_modified);
    assert_eq!(tab.content, "!one\ntwo");
}

#[test]
fn editor_opens_and_switches_tabs() {
    let mut ed = Editor::new();
    assert!(!ed.has_open_files());
    ed.open_file("/w/a".to_string(), "a".to_string(), "A".to_string());
    ed.open_file("/w/b".to_string(), "b".to_string(), "B".to_string());
    assert_eq!(ed.get_tab_count(), 2);
    assert_eq!(ed.get_active_tab_index(), 1);
    // Opening an already-open path only switches to it.
    ed.open_file("/w/a".to_string(), "a".to_string(), "A".to_string());
    assert_eq!(ed.get_tab_count(), 2);
    assert_eq!(ed.get_active_tab_index(), 0);
    assert_eq!(ed.get_current_file_info().as_deref(), Some("a"));
}

#[test]
fn editor_close_keeps_active_index_in_range() {
    let mut ed = Editor::new();
    ed.new_file();
    ed.new_file();
    ed.new_file();
    assert_eq!(ed.get_active_tab_index(), 2);
    ed.close_current_file();
    assert_eq!(ed.get_tab_count(), 2);
    assert_eq!(ed.get_active_tab_index(), 1);
    ed.close_tab_by_index(0);
    assert_eq!(ed.get_tab_count(), 1);
    assert_eq!(ed.get_active_tab_index(), 0);
}

#[test]
fn editor_close_by_id_follows_the_tab() {
    let mut ed = Editor::new();
    ed.new_file();
    ed.new_file();
    let first = ed.get_tab_id_at_index(0).unwrap();
    assert_eq!(ed.get_tab_index_by_id(first), Some(0));
    ed.close_tab_by_id(first);
    assert_eq!(ed.get_tab_count(), 1);
    assert_eq!(ed.get_active_tab_index(), 0);
}

#[test]
fn editor_reorder_follows_active_tab() {
    let mut ed = Editor::new();
    ed.open_file("/1".to_string(), "1".to_string(), String::new());
    ed.open_file("/2".to_string(), "2".to_string(), String::new());
    ed.open_file("/3".to_string(), "3".to_string(), String::new());
    ed.switch_to_tab(0);
    ed.reorder_tabs(0, 2);
    assert_eq!(ed.get_active_tab_index(), 2);
    assert_eq!(ed.get_current_file_info().as_deref(), Some("1"));
}

#[test]
fn editor_cycles_through_tabs() {
    let mut ed = Editor::new();
    ed.new_file();
    ed.new_file();
    ed.switch_to_tab(1);
    ed.switch_to_next_tab();
    assert_eq!(ed.get_active_tab_index(), 0);
    ed.switch_to_previous_tab();
    assert_eq!(ed.get_active_tab_index(), 1);
}

#[test]
fn editor_cursor_position_is_one_based() {
    let mut ed = Editor::new();
    assert_eq!(ed.get_cursor_position(), (0, 0));
    ed.new_file();
    ed.insert_char('x');
    assert_eq!(ed.get_cursor_position(), (1, 2));
    assert!(ed.is_current_file_modified());
}

#[test]
fn editor_scrolls_within_bounds() {
    let mut text = String::new();
    for i in 0..40 {
        text.push_str(&format!("line {}\n", i));
    }
    let mut ed = Editor::new();
    ed.open_file("/w/big".to_string(), "big".to_string(), text);
    ed.scroll_up();
    assert_eq!(ed.get_current_tab().unwrap().scroll_offset, 0);
    ed.scroll_down();
    assert_eq!(ed.get_current_tab().unwrap().scroll_offset, 1);
    ed.scroll_down_by_visible(38);
    assert_eq!(ed.get_current_tab().unwrap().scroll_offset, 2);
    ed.scroll_down_by_visible(40);
    assert_eq!(ed.get_current_tab().unwrap().scroll_offset, 2);
    ed.scroll_up_by_visible(10);
    assert_eq!(ed.get_current_tab().unwrap().scroll_offset, 1);
}

#[test]
fn tab_info_mirrors_names_and_flags() {
    let mut ed = Editor::new();
    ed.open_file("/w/a".to_string(), "a".to_string(), String::new());
    ed.new_file();
    ed.insert_char('x');
    let info = ed.get_tab_info();
    assert_eq!(info.len(), 2);
    assert_eq!(info[0].file_name, "a");
    assert!(!info[0].is_modified);
    assert_eq!(info[1].file_name, "Untitled");
    assert!(info[1].is_modified);
}
