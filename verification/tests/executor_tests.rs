use code_assistant::agent::{AgentAction, AgentCapabilities, AgentResponse};
use code_assistant::executor::{
    combined_output, command_response, delete_missing_response, delete_response,
    file_info_response, list_directory_response, parent_of, search_response, CommandOutput,
    DefaultAgentExecutor, DirEntry, ExecStep, FileMeta, FsReply, FsRequest, PathKind,
};

fn exec_at(cwd: &str) -> DefaultAgentExecutor {
    DefaultAgentExecutor::new(cwd.to_string())
}

#[test]
fn denied_command_yields_not_permitted_and_no_request() {
    // Command execution is disabled by default: the very first step is the
    // finished denial response, so nothing can be touched.
    let ex = exec_at("/work");
    let action = AgentAction::ExecuteCommand { command: "echo hi".to_string(), working_dir: None };
    assert!(!ex.is_safe_action(&action));
    match ex.begin(&action) {
        ExecStep::Done(resp) => {
            assert!(!resp.success);
            assert_eq!(resp.message, "Action not permitted");
            assert_eq!(
                resp.error.as_deref(),
                Some("This action is restricted by the current capabilities")
            );
            assert!(resp.data.is_none());
        }
        ExecStep::Pending(_) => panic!("a denied action must not issue a request"),
    }
}

#[test]
fn denied_restricted_path_yields_not_permitted() {
    let ex = exec_at("/work");
    let action = AgentAction::ReadFile { path: "/etc/passwd".to_string() };
    assert!(!ex.is_safe_action(&action));
    match ex.begin(&action) {
        ExecStep::Done(resp) => {
            assert!(!resp.success);
            assert_eq!(resp.message, "Action not permitted");
        }
        ExecStep::Pending(_) => panic!("a denied action must not issue a request"),
    }
}

#[test]
fn restricted_prefix_is_component_wise_not_substring() {
    let ex = exec_at("/work");
    // `/etcetera` is not under `/etc`.
    assert!(ex.is_safe_action(&AgentAction::ReadFile { path: "/etcetera/x".to_string() }));
    assert!(!ex.is_safe_action(&AgentAction::ReadFile { path: "/etc/x".to_string() }));
    assert!(!ex.is_safe_action(&AgentAction::ReadFile { path: "/etc".to_string() }));
}

#[test]
fn resolve_joins_relative_paths_only() {
    let ex = exec_at("/work");
    assert_eq!(ex.resolve_path(&"a/b.txt".to_string()), "/work/a/b.txt");
    assert_eq!(ex.resolve_path(&"/abs.txt".to_string()), "/abs.txt");
}

#[test]
fn write_file_creates_parents_then_writes() {
    let ex = exec_at("/work");
    let action = AgentAction::WriteFile { path: "a/b/c.txt".to_string(), content: "x".to_string() };
    let req1 = match ex.begin(&action) {
        ExecStep::Pending(q) => q,
        ExecStep::Done(_) => panic!("expected the parent-directory request first"),
    };
    match &req1 {
        FsRequest::CreateDirAll { path } => assert_eq!(path, "/work/a/b"),
        _ => panic!("expected the parent-directory request first"),
    }
    let req2 = match ex.proceed(&action, &req1, FsReply::Unit(Ok(()))) {
        ExecStep::Pending(q) => q,
        ExecStep::Done(_) => panic!("expected the write request second"),
    };
    match &req2 {
        FsRequest::WriteAll { path, content } => {
            assert_eq!(path, "/work/a/b/c.txt");
            assert_eq!(content, "x");
        }
        _ => panic!("expected the write request second"),
    }
    match ex.proceed(&action, &req2, FsReply::Unit(Ok(()))) {
        ExecStep::Done(resp) => {
            assert!(resp.success);
            assert_eq!(resp.message, "Successfully wrote file: /work/a/b/c.txt");
        }
        ExecStep::Pending(_) => panic!("expected the finished response"),
    }
}

#[test]
fn delete_missing_path_is_reported_distinctly() {
    let ex = exec_at("/work");
    let action = AgentAction::DeleteFile { path: "gone.txt".to_string() };
    let req = match ex.begin(&action) {
        ExecStep::Pending(q) => q,
        ExecStep::Done(_) => panic!("expected the stat request"),
    };
    assert!(matches!(&req, FsRequest::StatKind { .. }));
    match ex.proceed(&action, &req, FsReply::Kind(PathKind::Missing)) {
        ExecStep::Done(resp) => {
            assert!(!resp.success);
            assert_eq!(resp.message, "Path does not exist");
            let err = resp.error.unwrap();
            assert!(err.contains("does not exist"));
            // Distinct in text from a generic removal error.
            let removal = delete_response(&"/work/gone.txt".to_string(), Err("io".to_string()));
            assert_ne!(removal.message, resp.message);
        }
        ExecStep::Pending(_) => panic!("a missing path must not be removed"),
    }
}

#[test]
fn delete_dispatches_on_path_kind() {
    let ex = exec_at("/work");
    let action = AgentAction::DeleteFile { path: "x".to_string() };
    let req = match ex.begin(&action) {
        ExecStep::Pending(q) => q,
        ExecStep::Done(_) => panic!("expected the stat request"),
    };
    assert!(matches!(
        ex.proceed(&action, &req, FsReply::Kind(PathKind::File)),
        ExecStep::Pending(FsRequest::RemoveFile { .. })
    ));
    assert!(matches!(
        ex.proceed(&action, &req, FsReply::Kind(PathKind::Directory)),
        ExecStep::Pending(FsRequest::RemoveDirAll { .. })
    ));
}

#[test]
fn command_success_mirrors_exit_status() {
    let cmd = "echo hi".to_string();
    let ok = command_response(
        &cmd,
        Ok(CommandOutput {
            exit_success: true,
            stdout: "hi\n".to_string(),
            stderr: String::new(),
        }),
    );
    assert!(ok.success);
    let data = ok.data.unwrap();
    assert!(data.contains("hi"));
    assert!(!data.contains("STDOUT:"));
    assert!(!data.contains("STDERR:"));

    let bad = command_response(
        &cmd,
        Ok(CommandOutput {
            exit_success: false,
            stdout: "out".to_string(),
            stderr: "boom".to_string(),
        }),
    );
    assert!(!bad.success);
    assert_eq!(bad.message, "Command failed: echo hi");
    assert_eq!(bad.error.as_deref(), Some("STDOUT:\nout\n\nSTDERR:\nboom"));
}

#[test]
fn combined_output_labels_only_with_stderr() {
    assert_eq!(combined_output(&"a".to_string(), &String::new()), "a");
    assert_eq!(
        combined_output(&"a".to_string(), &"e".to_string()),
        "STDOUT:\na\n\nSTDERR:\ne"
    );
}

#[test]
fn listing_sorts_rendered_strings_not_kinds() {
    let entries = vec![
        DirEntry { name: "b.txt".to_string(), is_dir: false },
        DirEntry { name: "a".to_string(), is_dir: true },
        DirEntry { name: "c.txt".to_string(), is_dir: false },
    ];
    let resp = list_directory_response(&"/d".to_string(), Ok(entries));
    assert!(resp.success);
    assert_eq!(resp.message, "Listed directory: /d");
    assert_eq!(resp.data.unwrap(), "DIR    a\nFILE   b.txt\nFILE   c.txt");
}

#[test]
fn listing_interleaves_directories_and_files() {
    // The sort key is the rendered "TYPE  name" line, so directories sort
    // before files only because "DIR" sorts before "FILE".
    let entries = vec![
        DirEntry { name: "z".to_string(), is_dir: true },
        DirEntry { name: "a".to_string(), is_dir: false },
    ];
    let resp = list_directory_response(&"/d".to_string(), Ok(entries));
    assert_eq!(resp.data.unwrap(), "DIR    z\nFILE   a");
}

#[test]
fn search_swallows_listing_failure() {
    let resp = search_response(
        &"/d".to_string(),
        &"log".to_string(),
        Err("denied".to_string()),
    );
    assert!(resp.success);
    assert_eq!(resp.message, "Found 0 matches for pattern 'log'");
    assert_eq!(resp.data.as_deref(), Some(""));
}

#[test]
fn search_matches_names_by_substring() {
    let entries = vec![
        DirEntry { name: "app.log".to_string(), is_dir: false },
        DirEntry { name: "readme".to_string(), is_dir: false },
        DirEntry { name: "logs".to_string(), is_dir: true },
    ];
    let resp = search_response(&"/d".to_string(), &"log".to_string(), Ok(entries));
    assert!(resp.success);
    assert_eq!(resp.message, "Found 2 matches for pattern 'log'");
    assert_eq!(resp.data.unwrap(), "/d/app.log\n/d/logs");
}

#[test]
fn replace_in_file_writes_back_replaced_text() {
    let ex = exec_at("/w");
    let action = AgentAction::ReplaceInFile {
        path: "f.txt".to_string(),
        old: "aa".to_string(),
        new: "b".to_string(),
    };
    let req = match ex.begin(&action) {
        ExecStep::Pending(q) => q,
        ExecStep::Done(_) => panic!("expected the read request"),
    };
    let req2 = match ex.proceed(&action, &req, FsReply::Text(Ok("xaaaay".to_string()))) {
        ExecStep::Pending(q) => q,
        ExecStep::Done(_) => panic!("expected the write-back request"),
    };
    match &req2 {
        FsRequest::WriteAll { content, .. } => assert_eq!(content, "xbby"),
        _ => panic!("expected the write-back request"),
    }
    match ex.proceed(&action, &req2, FsReply::Unit(Ok(()))) {
        ExecStep::Done(resp) => {
            assert_eq!(resp.message, "Successfully replaced text in: /w/f.txt");
        }
        ExecStep::Pending(_) => panic!("expected the finished response"),
    }
}

#[test]
fn file_info_reports_type_size_and_readonly() {
    let meta = FileMeta { is_dir: false, is_file: true, size: 42, readonly: false };
    let resp = file_info_response(&"/w/f".to_string(), Ok(meta));
    assert!(resp.success);
    assert_eq!(resp.message, "File info for: /w/f");
    assert_eq!(
        resp.data.unwrap(),
        "Path: /w/f\nType: File\nSize: 42 bytes\nReadonly: false"
    );
    let dir = FileMeta { is_dir: true, is_file: false, size: 0, readonly: true };
    let resp2 = file_info_response(&"/w/d".to_string(), Ok(dir));
    assert_eq!(
        resp2.data.unwrap(),
        "Path: /w/d\nType: Directory\nSize: N/A\nReadonly: true"
    );
}

#[test]
fn read_file_carries_content_or_error() {
    let ex = exec_at("/w");
    let action = AgentAction::ReadFile { path: "r.txt".to_string() };
    let req = match ex.begin(&action) {
        ExecStep::Pending(q) => q,
        ExecStep::Done(_) => panic!("expected the read request"),
    };
    match ex.proceed(&action, &req, FsReply::Text(Ok("hello".to_string()))) {
        ExecStep::Done(resp) => {
            assert!(resp.success);
            assert_eq!(resp.message, "Successfully read file: /w/r.txt");
            assert_eq!(resp.data.as_deref(), Some("hello"));
            assert!(resp.error.is_none());
        }
        ExecStep::Pending(_) => panic!("expected the finished response"),
    }
    let req_b = match ex.begin(&action) {
        ExecStep::Pending(q) => q,
        ExecStep::Done(_) => panic!("expected the read request"),
    };
    match ex.proceed(&action, &req_b, FsReply::Text(Err("denied".to_string()))) {
        ExecStep::Done(resp) => {
            assert!(!resp.success);
            assert_eq!(resp.message, "Failed to read file: /w/r.txt");
            assert_eq!(resp.error.as_deref(), Some("denied"));
            assert!(resp.data.is_none());
        }
        ExecStep::Pending(_) => panic!("expected the finished response"),
    }
}

#[test]
fn search_uses_session_directory_when_none_given() {
    let ex = exec_at("/work");
    let action = AgentAction::SearchFiles { pattern: "x".to_string(), directory: None };
    match ex.begin(&action) {
        ExecStep::Pending(FsRequest::ReadDirEntries { path }) => assert_eq!(path, "/work"),
        _ => panic!("expected the directory-listing request"),
    }
}

#[test]
fn capabilities_default_is_fail_safe() {
    let caps = AgentCapabilities::default();
    assert!(caps.can_read_files);
    assert!(caps.can_write_files);
    assert!(!caps.can_execute_commands);
    assert!(caps.can_modify_filesystem);
    assert_eq!(caps.restricted_paths, vec!["/etc", "/root", "/sys", "/proc"]);
}

#[test]
fn with_capabilities_enables_commands() {
    let mut caps = AgentCapabilities::default();
    caps.can_execute_commands = true;
    let ex = exec_at("/w").with_capabilities(caps);
    let action = AgentAction::ExecuteCommand { command: "true".to_string(), working_dir: None };
    assert!(ex.is_safe_action(&action));
    match ex.begin(&action) {
        ExecStep::Pending(FsRequest::RunCommand { command, working_dir }) => {
            assert_eq!(command, "true");
            assert_eq!(working_dir, "/w");
        }
        _ => panic!("expected the run request"),
    }
}

#[test]
fn write_gate_blocks_when_disabled() {
    let mut caps = AgentCapabilities::default();
    caps.can_write_files = false;
    let ex = exec_at("/w").with_capabilities(caps);
    let action = AgentAction::WriteFile { path: "a.txt".to_string(), content: String::new() };
    assert!(!ex.is_safe_action(&action));
    let denial = match ex.begin(&action) {
        ExecStep::Done(resp) => resp,
        ExecStep::Pending(_) => panic!("a denied action must not issue a request"),
    };
    assert!(!denial.success);
}

#[test]
fn parent_of_logical_paths() {
    assert_eq!(parent_of(&"/a/b/c.txt".to_string()), Some("/a/b".to_string()));
    assert_eq!(parent_of(&"/a".to_string()), Some("/".to_string()));
    assert_eq!(parent_of(&"a.txt".to_string()), Some(String::new()));
    assert_eq!(parent_of(&"/".to_string()), None);
}

#[test]
fn responses_keep_the_polarity_invariant() {
    let ok = AgentResponse::success("m".to_string(), Some("d".to_string()));
    assert!(ok.error.is_none());
    let bad = AgentResponse::error("m".to_string(), "e".to_string());
    assert!(bad.data.is_none());
    let missing = delete_missing_response(&"/x".to_string());
    assert!(missing.data.is_none() && missing.error.is_some());
}

struct CountingExecutor {
    calls: usize,
}

impl code_assistant::agent::AgentExecutor for CountingExecutor {
    fn execute_action(&mut self, action: AgentAction) -> AgentResponse {
        self.calls += 1;
        match action {
            AgentAction::ReadFile { path } => AgentResponse::success(path, None),
            _ => AgentResponse::error("unhandled".to_string(), "stub".to_string()),
        }
    }

    fn is_safe_action(&self, _action: &AgentAction) -> bool {
        true
    }
}

#[test]
fn batch_yields_one_response_per_action_in_order() {
    let mut ex = CountingExecutor { calls: 0 };
    let text = "read the file a.txt and read the file b.txt then delete the file c.txt";
    let responses = code_assistant::parser::process_agent_message(text, &mut ex);
    assert_eq!(responses.len(), 3);
    assert_eq!(ex.calls, 3);
    assert_eq!(responses[0].message, "a.txt");
    assert_eq!(responses[1].message, "b.txt");
    assert!(!responses[2].success);
}
