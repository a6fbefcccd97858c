use code_assistant::agent::AgentResponse;
use code_assistant::format::format_agent_responses;

#[test]
fn format_empty_batch() {
    let out = format_agent_responses(&Vec::new());
    assert_eq!(out, "No actions were executed.");
}

#[test]
fn format_two_numbered_entries_round_trip() {
    let responses = vec![
        AgentResponse::success("ok".to_string(), None),
        AgentResponse::error("bad".to_string(), "why".to_string()),
    ];
    let out = format_agent_responses(&responses);
    assert_eq!(
        out,
        "\u{1F916} Agent Actions Executed:\n\n1. \u{2705} ok\n\n2. \u{274C} bad\n   Error: why\n\n"
    );
    let numbered: Vec<&str> = out.lines().filter(|l| l.starts_with(|c: char| c.is_ascii_digit())).collect();
    assert_eq!(numbered.len(), 2);
    assert!(numbered[0].contains('\u{2705}'));
    assert!(numbered[1].contains('\u{274C}'));
    assert!(out.contains("Error: why"));
}

#[test]
fn format_indents_data_lines() {
    let responses = vec![AgentResponse::success(
        "read".to_string(),
        Some("line one\nline two".to_string()),
    )];
    let out = format_agent_responses(&responses);
    assert!(out.contains("   Output:\n   line one\n   line two\n"));
    assert!(!out.contains("truncated"));
}

#[test]
fn format_truncates_after_ten_lines() {
    let data = "1\n2\n3\n4\n5\n6\n7\n8\n9\n10\n11\n12";
    let responses = vec![AgentResponse::success("many".to_string(), Some(data.to_string()))];
    let out = format_agent_responses(&responses);
    assert!(out.contains("   10\n"));
    assert!(!out.contains("   11\n"));
    assert!(out.contains("   ... (output truncated)\n"));
}

#[test]
fn format_skips_empty_data() {
    let responses = vec![AgentResponse::success("quiet".to_string(), Some(String::new()))];
    let out = format_agent_responses(&responses);
    assert!(!out.contains("Output:"));
}
