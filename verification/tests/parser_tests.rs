use code_assistant::agent::AgentAction;
use code_assistant::parser::AgentActionParser;

#[test]
fn test_parse_natural_language_actions() {
    let response = "I need to read the file src/main.rs and then create a new file called test.txt";
    let actions = AgentActionParser::parse_agent_response(response);

    assert_eq!(actions.len(), 2);

    match &actions[0] {
        AgentAction::ReadFile { path } => {
            assert_eq!(path, "src/main.rs");
        }
        _ => panic!("Expected ReadFile action"),
    }

    match &actions[1] {
        AgentAction::WriteFile { path, .. } => {
            assert_eq!(path, "test.txt");
        }
        _ => panic!("Expected WriteFile action"),
    }
}

#[test]
fn parse_structured_block_single_action() {
    let text = "Apply this:\n```json\n{\"ReadFile\": {\"path\": \"x.txt\"}}\n```\nthanks";
    let actions = AgentActionParser::parse_agent_response(text);
    assert_eq!(actions.len(), 1);
    match &actions[0] {
        AgentAction::ReadFile { path } => assert_eq!(path, "x.txt"),
        _ => panic!("Expected ReadFile action"),
    }
}

#[test]
fn parse_structured_block_action_array() {
    let text = "```json\n[{\"ReadFile\":{\"path\":\"a\"}},{\"DeleteFile\":{\"path\":\"b\"}}]\n```";
    let actions = AgentActionParser::parse_agent_response(text);
    assert_eq!(actions.len(), 2);
    match &actions[0] {
        AgentAction::ReadFile { path } => assert_eq!(path, "a"),
        _ => panic!("Expected ReadFile action"),
    }
    match &actions[1] {
        AgentAction::DeleteFile { path } => assert_eq!(path, "b"),
        _ => panic!("Expected DeleteFile action"),
    }
}

#[test]
fn parse_structured_block_multi_line_content_is_not_matched() {
    // The fenced-block content may not cross a line feed, so pretty-printed
    // structured text yields nothing.
    let text = "```json\n{\n  \"ReadFile\": {\"path\": \"x.txt\"}\n}\n```";
    let actions = AgentActionParser::parse_agent_response(text);
    assert_eq!(actions.len(), 0);
}

#[test]
fn parse_first_parsable_block_wins() {
    let text = "```json\nnot valid\n```\nthen ```json\n{\"DeleteFile\":{\"path\":\"z\"}}\n``` end";
    let actions = AgentActionParser::parse_agent_response(text);
    assert_eq!(actions.len(), 1);
    match &actions[0] {
        AgentAction::DeleteFile { path } => assert_eq!(path, "z"),
        _ => panic!("Expected DeleteFile action"),
    }
}

#[test]
fn parse_structured_then_heuristic_concatenated() {
    let text = "```json\n{\"ListDirectory\":{\"path\":\"src\"}}\n```\nplease delete the file old.log";
    let actions = AgentActionParser::parse_agent_response(text);
    assert_eq!(actions.len(), 2);
    assert!(matches!(&actions[0], AgentAction::ListDirectory { .. }));
    assert!(matches!(&actions[1], AgentAction::DeleteFile { .. }));
}

#[test]
fn parse_execute_and_run_commands() {
    let text = "execute `ls -la` or run cargo build";
    let actions = AgentActionParser::parse_agent_response(text);
    assert_eq!(actions.len(), 2);
    match &actions[0] {
        AgentAction::ExecuteCommand { command, working_dir } => {
            assert_eq!(command, "ls -la");
            assert!(working_dir.is_none());
        }
        _ => panic!("Expected ExecuteCommand action"),
    }
    match &actions[1] {
        AgentAction::ExecuteCommand { command, .. } => {
            assert_eq!(command, "cargo build");
        }
        _ => panic!("Expected ExecuteCommand action"),
    }
}

#[test]
fn parse_quoted_targets_are_trimmed_of_quotes() {
    let text = "please read the file `notes.md` now";
    let actions = AgentActionParser::parse_agent_response(text);
    assert_eq!(actions.len(), 1);
    match &actions[0] {
        AgentAction::ReadFile { path } => assert_eq!(path, "notes.md"),
        _ => panic!("Expected ReadFile action"),
    }
}

#[test]
fn parse_overlapping_categories_yield_duplicates() {
    // "save" is a write-type category of its own: one sentence can yield
    // several actions, and duplicates are expected, not removed.
    let text = "save to out.txt";
    let actions = AgentActionParser::parse_agent_response(text);
    assert_eq!(actions.len(), 1);
    match &actions[0] {
        AgentAction::WriteFile { path, .. } => assert_eq!(path, "out.txt"),
        _ => panic!("Expected WriteFile action"),
    }
}

#[test]
fn parse_list_directory_phrases() {
    let text = "list the files in directory src";
    let actions = AgentActionParser::parse_agent_response(text);
    assert_eq!(actions.len(), 1);
    match &actions[0] {
        AgentAction::ListDirectory { path } => assert_eq!(path, "src"),
        _ => panic!("Expected ListDirectory action"),
    }
}

#[test]
fn parse_write_content_from_nearby_code_block() {
    let text = "create a new file called hello.py\n```python\nprint(1)\n```";
    let actions = AgentActionParser::parse_agent_response(text);
    assert_eq!(actions.len(), 1);
    match &actions[0] {
        AgentAction::WriteFile { path, content } => {
            assert_eq!(path, "hello.py");
            assert_eq!(content, "print(1)");
        }
        _ => panic!("Expected WriteFile action"),
    }
}

#[test]
fn parse_write_content_placeholder_without_code_block() {
    let text = "create a new file called empty.txt";
    let actions = AgentActionParser::parse_agent_response(text);
    assert_eq!(actions.len(), 1);
    match &actions[0] {
        AgentAction::WriteFile { content, .. } => {
            assert_eq!(content, "// TODO: Add content");
        }
        _ => panic!("Expected WriteFile action"),
    }
}

#[test]
fn parse_unmatched_text_yields_nothing() {
    let actions = AgentActionParser::parse_agent_response("hello there, how are you?");
    assert_eq!(actions.len(), 0);
}

#[test]
fn parse_structured_unknown_kind_is_refused() {
    let text = "```json\n{\"FormatDisk\": {\"path\": \"/\"}}\n```";
    let actions = AgentActionParser::parse_agent_response(text);
    assert_eq!(actions.len(), 0);
}

#[test]
fn parse_structured_optional_fields() {
    let text = "```json\n{\"ExecuteCommand\": {\"command\": \"ls\", \"working_dir\": null}}\n```";
    let actions = AgentActionParser::parse_agent_response(text);
    assert_eq!(actions.len(), 1);
    match &actions[0] {
        AgentAction::ExecuteCommand { command, working_dir } => {
            assert_eq!(command, "ls");
            assert!(working_dir.is_none());
        }
        _ => panic!("Expected ExecuteCommand action"),
    }
}

#[test]
fn parse_structured_ignores_unknown_fields() {
    let text = "```json\n{\"ReadFile\": {\"path\": \"a.txt\", \"extra\": [1, true, {\"x\": 2.5e3}]}}\n```";
    let actions = AgentActionParser::parse_agent_response(text);
    assert_eq!(actions.len(), 1);
    assert!(matches!(&actions[0], AgentAction::ReadFile { .. }));
}

#[test]
fn parse_structured_string_escapes() {
    let text = "```json\n{\"WriteFile\": {\"path\": \"e.txt\", \"content\": \"a\\nb\\u0041\"}}\n```";
    let actions = AgentActionParser::parse_agent_response(text);
    assert_eq!(actions.len(), 1);
    match &actions[0] {
        AgentAction::WriteFile { content, .. } => assert_eq!(content, "a\nbA"),
        _ => panic!("Expected WriteFile action"),
    }
}
