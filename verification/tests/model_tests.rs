use code_assistant::api::{GroqMessage, MessageContent};
use code_assistant::app::LayoutState;
use code_assistant::conversation::Conversation;
use code_assistant::explorer::FileNode;
use code_assistant::layout::get_file_icon;

fn text_message(role: &str, text: &str) -> GroqMessage {
    GroqMessage { role: role.to_string(), content: MessageContent::Text(text.to_string()) }
}

#[test]
fn conversation_counts_and_clears() {
    let mut conv = Conversation::new();
    assert_eq!(conv.message_count(), 0);
    conv.add_message(text_message("user", "hi"));
    assert_eq!(conv.message_count(), 1);
    conv.clear();
    assert_eq!(conv.message_count(), 0);
}

#[test]
fn conversation_trims_oldest_but_keeps_system() {
    let mut conv = Conversation::new();
    conv.add_system_message("rules".to_string());
    for i in 0..55 {
        conv.add_message(text_message("user", &format!("m{}", i)));
    }
    assert_eq!(conv.message_count(), 50);
    let msgs = conv.get_messages();
    assert_eq!(msgs[0].role, "system");
    // One system message survives, so 49 recent user messages remain:
    // m6 through m54.
    match &msgs[1].content {
        MessageContent::Text(t) => assert_eq!(t, "m6"),
        _ => panic!("expected plain text"),
    }
    match &msgs[49].content {
        MessageContent::Text(t) => assert_eq!(t, "m54"),
        _ => panic!("expected plain text"),
    }
}

#[test]
fn conversation_finds_last_messages_by_role() {
    let mut conv = Conversation::new();
    conv.add_message(text_message("user", "first"));
    conv.add_message(text_message("assistant", "reply"));
    conv.add_message(text_message("user", "second"));
    let last_user = conv.get_last_user_message().unwrap();
    match &last_user.content {
        MessageContent::Text(t) => assert_eq!(t, "second"),
        _ => panic!("expected plain text"),
    }
    let last_assistant = conv.get_last_assistant_message().unwrap();
    match &last_assistant.content {
        MessageContent::Text(t) => assert_eq!(t, "reply"),
        _ => panic!("expected plain text"),
    }
    conv.clear();
    assert!(conv.get_last_user_message().is_none());
}

#[test]
fn file_icons_follow_extensions() {
    assert_eq!(get_file_icon("main.rs"), "\u{1F980}");
    assert_eq!(get_file_icon("notes.md"), "\u{1F4C4}");
    assert_eq!(get_file_icon("conf.yml"), "\u{2699}\u{FE0F}");
    assert_eq!(get_file_icon("no_extension"), "\u{1F4C4}");
    assert_eq!(get_file_icon(".hidden"), "\u{1F4C4}");
}

#[test]
fn layout_defaults() {
    let layout = LayoutState::default();
    assert_eq!(layout.sidebar_width, 30);
    assert_eq!(layout.chat_height, 12);
    assert_eq!(layout.min_sidebar_width, 20);
    assert_eq!(layout.max_sidebar_width, 60);
    assert_eq!(layout.min_chat_height, 8);
}

fn leaf(path: &str, name: &str) -> FileNode {
    FileNode {
        path: path.to_string(),
        name: name.to_string(),
        is_dir: false,
        is_expanded: false,
        depth: 1,
        children: Vec::new(),
    }
}

fn sample_tree(expanded: bool) -> FileNode {
    FileNode {
        path: "/r".to_string(),
        name: "r".to_string(),
        is_dir: true,
        is_expanded: expanded,
        depth: 0,
        children: vec![leaf("/r/a.rs", "a.rs"), leaf("/r/b.txt", "b.txt")],
    }
}

#[test]
fn flat_list_shows_children_only_when_expanded() {
    let closed = sample_tree(false);
    assert_eq!(closed.get_flat_list().len(), 1);
    let open = sample_tree(true);
    let flat = open.get_flat_list();
    assert_eq!(flat.len(), 3);
    assert_eq!(flat[1].name, "a.rs");
    assert_eq!(flat[2].name, "b.txt");
}

#[test]
fn find_node_at_index_walks_the_flat_list() {
    let open = sample_tree(true);
    assert_eq!(open.find_node_at_index(0).unwrap().name, "r");
    assert_eq!(open.find_node_at_index(2).unwrap().name, "b.txt");
    assert!(open.find_node_at_index(3).is_none());
}

#[test]
fn find_node_by_path_respects_expansion() {
    let open = sample_tree(true);
    let hit = open.find_node_by_path(&"/r/b.txt".to_string()).unwrap();
    assert_eq!(hit.name, "b.txt");
    let closed = sample_tree(false);
    assert!(closed.find_node_by_path_read_only(&"/r/b.txt".to_string()).is_none());
}

#[test]
fn display_name_marks_directories_and_files() {
    let open = sample_tree(true);
    assert_eq!(open.get_display_name(), "\u{25BC} \u{1F4C2} r");
    let mut closed = sample_tree(false);
    assert_eq!(closed.get_display_name(), "\u{25B6} \u{1F4C1} r");
    closed.toggle_expand();
    assert!(closed.is_expanded);
    let file = leaf("/r/a.rs", "a.rs");
    assert_eq!(file.get_display_name(), "    \u{1F980} a.rs");
}

#[test]
fn wrap_text_packs_words_within_the_width() {
    let got = code_assistant::chat::wrap_text("hello world foo", 10);
    assert_eq!(got, vec!["hello", "world foo"]);
    let exact = code_assistant::chat::wrap_text("ab cd", 5);
    assert_eq!(exact, vec!["ab cd"]);
}

#[test]
fn wrap_text_gives_long_words_their_own_line() {
    let got = code_assistant::chat::wrap_text("abcdef gh", 3);
    assert_eq!(got, vec!["abcdef", "gh"]);
}

#[test]
fn wrap_text_returns_wordless_text_whole() {
    let got = code_assistant::chat::wrap_text("", 5);
    assert_eq!(got, vec![""]);
    let ws = code_assistant::chat::wrap_text("   ", 5);
    assert_eq!(ws, vec!["   "]);
}
