//! The action taxonomy, the capability policy, and the response model.
//!
//! An `AgentAction` is one discrete file or process operation requested by
//! the assistant, drawn from a fixed closed set of kinds.  Paths are logical
//! text (possibly relative) until the executor resolves them.

use vstd::prelude::*;

verus! {

/// One discrete operation requested by the assistant.
#[derive(Debug, Clone)]
pub enum AgentAction {
    ReadFile { path: String },
    WriteFile { path: String, content: String },
    CreateDirectory { path: String },
    DeleteFile { path: String },
    ExecuteCommand { command: String, working_dir: Option<String> },
    SearchFiles { pattern: String, directory: Option<String> },
    ReplaceInFile { path: String, old: String, new: String },
    ListDirectory { path: String },
    GetFileInfo { path: String },
}

/// The mathematical model of an action: the same closed set of kinds, with
/// every piece of text seen as its character sequence.
pub enum ActionModel {
    Read { path: Seq<char> },
    Write { path: Seq<char>, content: Seq<char> },
    CreateDir { path: Seq<char> },
    Delete { path: Seq<char> },
    Execute { command: Seq<char>, working_dir: Option<Seq<char>> },
    Search { pattern: Seq<char>, directory: Option<Seq<char>> },
    Replace { path: Seq<char>, old: Seq<char>, new: Seq<char> },
    List { path: Seq<char> },
    Info { path: Seq<char> },
}

impl View for AgentAction {
    type V = ActionModel;

    open spec fn view(&self) -> ActionModel {
        match self {
            AgentAction::ReadFile { path } => ActionModel::Read { path: path@ },
            AgentAction::WriteFile { path, content } => ActionModel::Write {
                path: path@,
                content: content@,
            },
            AgentAction::CreateDirectory { path } => ActionModel::CreateDir { path: path@ },
            AgentAction::DeleteFile { path } => ActionModel::Delete { path: path@ },
            AgentAction::ExecuteCommand { command, working_dir } => ActionModel::Execute {
                command: command@,
                working_dir: match working_dir {
                    Some(d) => Some(d@),
                    None => None,
                },
            },
            AgentAction::SearchFiles { pattern, directory } => ActionModel::Search {
                pattern: pattern@,
                directory: match directory {
                    Some(d) => Some(d@),
                    None => None,
                },
            },
            AgentAction::ReplaceInFile { path, old, new } => ActionModel::Replace {
                path: path@,
                old: old@,
                new: new@,
            },
            AgentAction::ListDirectory { path } => ActionModel::List { path: path@ },
            AgentAction::GetFileInfo { path } => ActionModel::Info { path: path@ },
        }
    }
}

/// The structured outcome of one executed action.
///
/// Invariant: a successful response never carries an error and a failed
/// response never carries data (`wf`).
#[derive(Debug, Clone)]
pub struct AgentResponse {
    pub success: bool,
    pub message: String,
    pub data: Option<String>,
    pub error: Option<String>,
}

impl AgentResponse {
    /// Well-formedness: outcome polarity determines which side is populated.
    pub open spec fn wf(self) -> bool {
        &&& self.success ==> self.error is None
        &&& !self.success ==> self.data is None
    }

    pub fn success(message: String, data: Option<String>) -> (r: AgentResponse)
        ensures
            r.success == true,
            r.message == message,
            r.data == data,
            r.error is None,
            r.wf(),
    {
        AgentResponse { success: true, message, data, error: None }
    }

    pub fn error(message: String, error: String) -> (r: AgentResponse)
        ensures
            r.success == false,
            r.message == message,
            r.data is None,
            r.error == Some(error),
            r.wf(),
    {
        AgentResponse { success: false, message, data: None, error: Some(error) }
    }
}

/// The permission configuration an executor is constructed with: four
/// independent capability switches and an ordered set of restricted path
/// prefixes that are denied regardless of the switches.
#[derive(Debug, Clone)]
pub struct AgentCapabilities {
    pub can_read_files: bool,
    pub can_write_files: bool,
    pub can_execute_commands: bool,
    pub can_modify_filesystem: bool,
    pub restricted_paths: Vec<String>,
}

impl Default for AgentCapabilities {
    /// Command execution is disabled by default: it is the most dangerous
    /// capability.
    fn default() -> (r: AgentCapabilities)
        ensures
            r.can_read_files == true,
            r.can_write_files == true,
            r.can_execute_commands == false,
            r.can_modify_filesystem == true,
            r.restricted_paths@.len() == 4,
            r.restricted_paths@[0]@ == "/etc"@,
            r.restricted_paths@[1]@ == "/root"@,
            r.restricted_paths@[2]@ == "/sys"@,
            r.restricted_paths@[3]@ == "/proc"@,
    {
        let mut restricted_paths: Vec<String> = Vec::new();
        restricted_paths.push(String::from_str("/etc"));
        restricted_paths.push(String::from_str("/root"));
        restricted_paths.push(String::from_str("/sys"));
        restricted_paths.push(String::from_str("/proc"));
        AgentCapabilities {
            can_read_files: true,
            can_write_files: true,
            can_execute_commands: false,
            can_modify_filesystem: true,
            restricted_paths,
        }
    }
}

/// The executor interface: one response per action, in order, with the
/// safety gate separately inspectable.  Implementations that touch the real
/// filesystem or a host shell live outside the verified library; they drive
/// the step machine of `DefaultAgentExecutor`.
pub trait AgentExecutor {
    fn execute_action(&mut self, action: AgentAction) -> AgentResponse;

    fn is_safe_action(&self, action: &AgentAction) -> bool;
}

} // verus!
