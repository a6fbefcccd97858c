//! The executor: authorizes one action against the capability policy and
//! the restricted-path list, then performs it as a small, pure step
//! machine.  The executor itself never touches a resource: it hands out
//! `FsRequest` values describing the one filesystem or process operation to
//! perform next, and turns the host's `FsReply` into the next step.  A
//! driver loop outside the library performs the requests; every decision
//! stands here, verified.

use vstd::prelude::*;
use vstd::string::*;
use vstd::pervasive::unreached;
use crate::agent::{AgentAction, AgentCapabilities, AgentResponse};
use crate::text::{
    check_at, contains_sub, dec_chars, join_nl, lemma_lex_leq_total_ordering, lemma_sorted_unique,
    lex_leq, rfind_char, replace_chars, sort_strings, spec_contains, spec_dec, spec_join_nl,
    spec_rfind_char, spec_replace, string_from_chars, to_chars, views_of,
};

verus! {

/// A relative path appended to a directory after a `/` separator; no
/// separator is added when the directory already ends with one, and an
/// empty directory contributes nothing.
pub open spec fn spec_resolve_under(cwd: Seq<char>, p: Seq<char>) -> Seq<char> {
    if cwd.len() == 0 {
        p
    } else if cwd[cwd.len() - 1] == '/' {
        cwd + p
    } else {
        cwd + "/"@ + p
    }
}

/// The session executor: an immutable policy and an immutable working
/// directory, fixed for the executor's lifetime.
pub struct DefaultAgentExecutor {
    pub capabilities: AgentCapabilities,
    pub current_directory: String,
}

/// Whether a path is absolute (logical paths: text starting with `/`).
pub open spec fn spec_is_absolute(p: Seq<char>) -> bool {
    p.len() > 0 && p[0] == '/'
}

/// A possibly-relative path joined onto the working directory: an absolute
/// path is returned unchanged, a relative one is appended after a `/`
/// separator (none is added when the directory already ends with one or is
/// empty).
pub open spec fn spec_resolve(cwd: Seq<char>, p: Seq<char>) -> Seq<char> {
    if spec_is_absolute(p) {
        p
    } else {
        spec_resolve_under(cwd, p)
    }
}

/// Whether restricted prefix `r` covers path `p`: `r` must be a literal
/// prefix of `p` ending on a path-component boundary, not merely a
/// substring.
pub open spec fn spec_prefix_restricts(r: Seq<char>, p: Seq<char>) -> bool {
    &&& r.len() <= p.len()
    &&& p.subrange(0, r.len() as int) == r
    &&& (p.len() == r.len() || p[r.len() as int] == '/' || (r.len() > 0 && r[r.len() - 1]
        == '/'))
}

/// Whether any configured restricted prefix covers `p`.
pub open spec fn spec_is_restricted(caps: AgentCapabilities, p: Seq<char>) -> bool {
    exists|k: int|
        0 <= k < caps.restricted_paths@.len() && spec_prefix_restricts(
            #[trigger] caps.restricted_paths@[k]@,
            p,
        )
}

/// The authorization gate, per action kind: read-type actions need
/// `can_read_files`, write-type actions `can_write_files`, filesystem
/// structure changes `can_modify_filesystem`, command execution
/// `can_execute_commands` (and no path check: the restricted list does not
/// apply to commands); a search is gated only by the restricted list, on
/// the named directory or else the working directory.  Every path-gated
/// action is denied when its resolved path falls under a restricted prefix.
pub open spec fn spec_authorized(
    caps: AgentCapabilities,
    cwd: Seq<char>,
    action: AgentAction,
) -> bool {
    match action {
        AgentAction::ReadFile { path } => caps.can_read_files && !spec_is_restricted(
            caps,
            spec_resolve(cwd, path@),
        ),
        AgentAction::WriteFile { path, content } => caps.can_write_files && !spec_is_restricted(
            caps,
            spec_resolve(cwd, path@),
        ),
        AgentAction::CreateDirectory { path } => caps.can_modify_filesystem
            && !spec_is_restricted(caps, spec_resolve(cwd, path@)),
        AgentAction::DeleteFile { path } => caps.can_modify_filesystem && !spec_is_restricted(
            caps,
            spec_resolve(cwd, path@),
        ),
        AgentAction::ExecuteCommand { command, working_dir } => caps.can_execute_commands,
        AgentAction::SearchFiles { pattern, directory } => match directory {
            Some(d) => !spec_is_restricted(caps, spec_resolve(cwd, d@)),
            None => !spec_is_restricted(caps, cwd),
        },
        AgentAction::ReplaceInFile { path, old, new } => caps.can_write_files
            && !spec_is_restricted(caps, spec_resolve(cwd, path@)),
        AgentAction::ListDirectory { path } => caps.can_read_files && !spec_is_restricted(
            caps,
            spec_resolve(cwd, path@),
        ),
        AgentAction::GetFileInfo { path } => caps.can_read_files && !spec_is_restricted(
            caps,
            spec_resolve(cwd, path@),
        ),
    }
}

impl DefaultAgentExecutor {
    /// An executor over `current_directory` with the default (fail-safe)
    /// capabilities.
    pub fn new(current_directory: String) -> (r: DefaultAgentExecutor)
        ensures
            r.current_directory == current_directory,
            r.capabilities.can_read_files == true,
            r.capabilities.can_write_files == true,
            r.capabilities.can_execute_commands == false,
            r.capabilities.can_modify_filesystem == true,
            r.capabilities.restricted_paths@.len() == 4,
            r.capabilities.restricted_paths@[0]@ == "/etc"@,
            r.capabilities.restricted_paths@[1]@ == "/root"@,
            r.capabilities.restricted_paths@[2]@ == "/sys"@,
            r.capabilities.restricted_paths@[3]@ == "/proc"@,
    {
        DefaultAgentExecutor { capabilities: AgentCapabilities::default(), current_directory }
    }

    /// The same executor with the policy replaced.
    pub fn with_capabilities(self, capabilities: AgentCapabilities) -> (r: DefaultAgentExecutor)
        ensures
            r.capabilities == capabilities,
            r.current_directory == self.current_directory,
    {
        DefaultAgentExecutor { capabilities, ..self }
    }

    /// Joins a possibly-relative path onto the session working directory;
    /// an absolute path is returned unchanged.
    pub fn resolve_path(&self, path: &String) -> (r: String)
        ensures
            r@ == spec_resolve(self.current_directory@, path@),
    {
        let p = to_chars(path.as_str());
        if p.len() > 0 && p[0] == '/' {
            return path.clone();
        }
        let cwd = to_chars(self.current_directory.as_str());
        let mut out = self.current_directory.clone();
        if cwd.len() > 0 && cwd[cwd.len() - 1] == '/' {
            out.append(path.as_str());
        } else if cwd.len() == 0 {
            out = path.clone();
        } else {
            out.append("/");
            out.append(path.as_str());
        }
        out
    }

    /// Whether the (resolved) path falls under any restricted prefix.
    pub fn is_path_restricted(&self, path: &String) -> (r: bool)
        ensures
            r == spec_is_restricted(self.capabilities, path@),
    {
        let p = to_chars(path.as_str());
        let n = self.capabilities.restricted_paths.len();
        let mut k: usize = 0;
        while k < n
            invariant
                k <= n,
                n == self.capabilities.restricted_paths@.len(),
                p@ == path@,
                forall|m: int|
                    0 <= m < k ==> !spec_prefix_restricts(
                        #[trigger] self.capabilities.restricted_paths@[m]@,
                        path@,
                    ),
            decreases n - k,
        {
            let rp = to_chars(self.capabilities.restricted_paths[k].as_str());
            if check_at(&p, 0, &rp) {
                if p.len() == rp.len() {
                    proof {
                        assert(spec_prefix_restricts(
                            self.capabilities.restricted_paths@[k as int]@,
                            path@,
                        ));
                    }
                    return true;
                }
                if p[rp.len()] == '/' {
                    proof {
                        assert(spec_prefix_restricts(
                            self.capabilities.restricted_paths@[k as int]@,
                            path@,
                        ));
                    }
                    return true;
                }
                if rp.len() > 0 && rp[rp.len() - 1] == '/' {
                    proof {
                        assert(spec_prefix_restricts(
                            self.capabilities.restricted_paths@[k as int]@,
                            path@,
                        ));
                    }
                    return true;
                }
            }
            proof {
                assert(!spec_prefix_restricts(self.capabilities.restricted_paths@[k as int]@, path@));
            }
            k += 1;
        }
        false
    }

    /// The first step of executing one action: the denial response when the
    /// gate refuses it (no request is issued, so a denied action has no
    /// side effect at all), otherwise the single filesystem or process
    /// request the dispatch begins with.
    pub fn begin(&self, action: &AgentAction) -> (r: ExecStep)
        ensures
            spec_begin_post(self.capabilities, self.current_directory@, *action, r),
    {
        if !self.is_safe_action(action) {
            return ExecStep::Done(not_permitted_response());
        }
        match action {
            AgentAction::ReadFile { path } => ExecStep::Pending(
                FsRequest::ReadToString { path: self.resolve_path(path) },
            ),
            AgentAction::WriteFile { path, content } => {
                let resolved = self.resolve_path(path);
                match parent_of(&resolved) {
                    Some(parent) => ExecStep::Pending(FsRequest::CreateDirAll { path: parent }),
                    None => ExecStep::Pending(
                        FsRequest::WriteAll { path: resolved, content: content.clone() },
                    ),
                }
            },
            AgentAction::CreateDirectory { path } => ExecStep::Pending(
                FsRequest::CreateDirAll { path: self.resolve_path(path) },
            ),
            AgentAction::DeleteFile { path } => ExecStep::Pending(
                FsRequest::StatKind { path: self.resolve_path(path) },
            ),
            AgentAction::ExecuteCommand { command, working_dir } => {
                let wd = match working_dir {
                    Some(d) => d.clone(),
                    None => self.current_directory.clone(),
                };
                ExecStep::Pending(FsRequest::RunCommand { command: command.clone(), working_dir: wd })
            },
            AgentAction::SearchFiles { pattern, directory } => {
                let dir = match directory {
                    Some(d) => d.clone(),
                    None => self.current_directory.clone(),
                };
                ExecStep::Pending(FsRequest::ReadDirEntries { path: self.resolve_path(&dir) })
            },
            AgentAction::ReplaceInFile { path, .. } => ExecStep::Pending(
                FsRequest::ReadToString { path: self.resolve_path(path) },
            ),
            AgentAction::ListDirectory { path } => ExecStep::Pending(
                FsRequest::ReadDirEntries { path: self.resolve_path(path) },
            ),
            AgentAction::GetFileInfo { path } => ExecStep::Pending(
                FsRequest::StatMeta { path: self.resolve_path(path) },
            ),
        }
    }

    /// The next step after the host answered `request` with `reply`: either
    /// the finished response for this action, or the follow-up request (a
    /// write after the parent directories exist, the removal matching what
    /// the path turned out to be, the write-back of replaced text).
    pub fn proceed(&self, action: &AgentAction, request: &FsRequest, reply: FsReply) -> (r:
        ExecStep)
        requires
            spec_continues(*action, *request, reply),
        ensures
            spec_proceed_post(self.current_directory@, *action, *request, reply, r),
    {
        match action {
            AgentAction::ReadFile { path } => {
                let resolved = self.resolve_path(path);
                match reply {
                    FsReply::Text(outcome) => ExecStep::Done(read_file_response(&resolved, outcome)),
                    _ => unreached(),
                }
            },
            AgentAction::WriteFile { path, content } => {
                let resolved = self.resolve_path(path);
                match (request, reply) {
                    (FsRequest::CreateDirAll { .. }, FsReply::Unit(outcome)) => match outcome {
                        Ok(_) => ExecStep::Pending(
                            FsRequest::WriteAll { path: resolved, content: content.clone() },
                        ),
                        Err(e) => ExecStep::Done(parent_failure_response(e)),
                    },
                    (FsRequest::WriteAll { .. }, FsReply::Unit(outcome)) => ExecStep::Done(
                        write_file_response(&resolved, outcome),
                    ),
                    _ => unreached(),
                }
            },
            AgentAction::CreateDirectory { path } => {
                let resolved = self.resolve_path(path);
                match reply {
                    FsReply::Unit(outcome) => ExecStep::Done(
                        create_directory_response(&resolved, outcome),
                    ),
                    _ => unreached(),
                }
            },
            AgentAction::DeleteFile { path } => {
                let resolved = self.resolve_path(path);
                match (request, reply) {
                    (FsRequest::StatKind { .. }, FsReply::Kind(kind)) => match kind {
                        PathKind::File => ExecStep::Pending(
                            FsRequest::RemoveFile { path: resolved },
                        ),
                        PathKind::Directory => ExecStep::Pending(
                            FsRequest::RemoveDirAll { path: resolved },
                        ),
                        PathKind::Missing => ExecStep::Done(delete_missing_response(&resolved)),
                        PathKind::Other => ExecStep::Done(delete_missing_response(&resolved)),
                    },
                    (FsRequest::RemoveFile { .. }, FsReply::Unit(outcome)) => ExecStep::Done(
                        delete_response(&resolved, outcome),
                    ),
                    (FsRequest::RemoveDirAll { .. }, FsReply::Unit(outcome)) => ExecStep::Done(
                        delete_response(&resolved, outcome),
                    ),
                    _ => unreached(),
                }
            },
            AgentAction::ExecuteCommand { command, .. } => {
                match reply {
                    FsReply::Ran(outcome) => ExecStep::Done(command_response(command, outcome)),
                    _ => unreached(),
                }
            },
            AgentAction::SearchFiles { pattern, directory } => {
                let dir = match directory {
                    Some(d) => d.clone(),
                    None => self.current_directory.clone(),
                };
                let resolved = self.resolve_path(&dir);
                match reply {
                    FsReply::Entries(outcome) => ExecStep::Done(
                        search_response(&resolved, pattern, outcome),
                    ),
                    _ => unreached(),
                }
            },
            AgentAction::ReplaceInFile { path, old, new } => {
                let resolved = self.resolve_path(path);
                match (request, reply) {
                    (FsRequest::ReadToString { .. }, FsReply::Text(outcome)) => match outcome {
                        Ok(content) => {
                            let content_chars = to_chars(content.as_str());
                            let old_chars = to_chars(old.as_str());
                            let new_chars = to_chars(new.as_str());
                            let replaced = string_from_chars(
                                &replace_chars(&content_chars, &old_chars, &new_chars),
                            );
                            ExecStep::Pending(
                                FsRequest::WriteAll { path: resolved, content: replaced },
                            )
                        },
                        Err(e) => ExecStep::Done(read_failure_response(&resolved, e)),
                    },
                    (FsRequest::WriteAll { .. }, FsReply::Unit(outcome)) => ExecStep::Done(
                        replace_write_response(&resolved, outcome),
                    ),
                    _ => unreached(),
                }
            },
            AgentAction::ListDirectory { path } => {
                let resolved = self.resolve_path(path);
                match reply {
                    FsReply::Entries(outcome) => ExecStep::Done(
                        list_directory_response(&resolved, outcome),
                    ),
                    _ => unreached(),
                }
            },
            AgentAction::GetFileInfo { path } => {
                let resolved = self.resolve_path(path);
                match reply {
                    FsReply::Meta(outcome) => ExecStep::Done(file_info_response(&resolved, outcome)),
                    _ => unreached(),
                }
            },
        }
    }

    /// The authorization gate (`spec_authorized`), exactly.
    pub fn is_safe_action(&self, action: &AgentAction) -> (r: bool)
        ensures
            r == spec_authorized(self.capabilities, self.current_directory@, *action),
    {
        match action {
            AgentAction::ReadFile { path } => self.capabilities.can_read_files
                && !self.is_path_restricted(&self.resolve_path(path)),
            AgentAction::WriteFile { path, .. } => self.capabilities.can_write_files
                && !self.is_path_restricted(&self.resolve_path(path)),
            AgentAction::CreateDirectory { path } => self.capabilities.can_modify_filesystem
                && !self.is_path_restricted(&self.resolve_path(path)),
            AgentAction::DeleteFile { path } => self.capabilities.can_modify_filesystem
                && !self.is_path_restricted(&self.resolve_path(path)),
            AgentAction::ExecuteCommand { .. } => self.capabilities.can_execute_commands,
            AgentAction::SearchFiles { directory, .. } => {
                match directory {
                    Some(d) => !self.is_path_restricted(&self.resolve_path(d)),
                    None => !self.is_path_restricted(&self.current_directory),
                }
            },
            AgentAction::ReplaceInFile { path, .. } => self.capabilities.can_write_files
                && !self.is_path_restricted(&self.resolve_path(path)),
            AgentAction::ListDirectory { path } => self.capabilities.can_read_files
                && !self.is_path_restricted(&self.resolve_path(path)),
            AgentAction::GetFileInfo { path } => self.capabilities.can_read_files
                && !self.is_path_restricted(&self.resolve_path(path)),
        }
    }
}

/// What a path turned out to be when inspected.
#[derive(Debug, Clone, Copy, PartialEq, Eq, Structural)]
pub enum PathKind {
    File,
    Directory,
    Missing,
    Other,
}

/// What a finished child process produced.
#[derive(Debug, Clone)]
pub struct CommandOutput {
    pub exit_success: bool,
    pub stdout: String,
    pub stderr: String,
}

/// One immediate entry of a directory.
#[derive(Debug, Clone)]
pub struct DirEntry {
    pub name: String,
    pub is_dir: bool,
}

/// What a stat call reported of a path.
#[derive(Debug, Clone)]
pub struct FileMeta {
    pub is_dir: bool,
    pub is_file: bool,
    pub size: u64,
    pub readonly: bool,
}

/// One filesystem or process operation the executor asks the host to
/// perform.  Every error is reported back as the operating system's error
/// text.
#[derive(Debug, Clone)]
pub enum FsRequest {
    ReadToString { path: String },
    WriteAll { path: String, content: String },
    CreateDirAll { path: String },
    StatKind { path: String },
    RemoveFile { path: String },
    RemoveDirAll { path: String },
    RunCommand { command: String, working_dir: String },
    ReadDirEntries { path: String },
    StatMeta { path: String },
}

/// The host's answer to one request.
#[derive(Debug)]
pub enum FsReply {
    Text(Result<String, String>),
    Unit(Result<(), String>),
    Kind(PathKind),
    Ran(Result<CommandOutput, String>),
    Entries(Result<Vec<DirEntry>, String>),
    Meta(Result<FileMeta, String>),
}

/// One step of executing an action: finished with a response, or waiting
/// for the host to perform a request.
#[derive(Debug, Clone)]
pub enum ExecStep {
    Done(AgentResponse),
    Pending(FsRequest),
}

/// The parent of a logical path, as text: trailing separators are ignored,
/// the root and the empty path have no parent, and a bare name's parent is
/// the empty path.
pub open spec fn spec_strip_trailing_slashes(p: Seq<char>) -> Seq<char>
    decreases p.len(),
{
    if p.len() > 1 && p[p.len() - 1] == '/' {
        spec_strip_trailing_slashes(p.drop_last())
    } else {
        p
    }
}

pub open spec fn spec_parent(p: Seq<char>) -> Option<Seq<char>> {
    let q = spec_strip_trailing_slashes(p);
    if q.len() == 0 || (q.len() == 1 && q[0] == '/') {
        None
    } else {
        match spec_rfind_char(q, '/') {
            None => Some(Seq::empty()),
            Some(k) => if k == 0 {
                Some(seq!['/'])
            } else {
                Some(q.take(k))
            },
        }
    }
}

/// The parent directory of `path` (`spec_parent`), exactly.
pub fn parent_of(path: &String) -> (r: Option<String>)
    ensures
        match r {
            Some(p) => spec_parent(path@) == Some(p@),
            None => spec_parent(path@) is None,
        },
{
    let chars = to_chars(path.as_str());
    let mut end: usize = chars.len();
    proof {
        assert(path@.take(end as int) =~= path@);
    }
    while end > 1 && chars[end - 1] == '/'
        invariant
            end <= chars@.len(),
            chars@ == path@,
            spec_strip_trailing_slashes(path@) == spec_strip_trailing_slashes(
                path@.take(end as int),
            ),
        decreases end,
    {
        proof {
            assert(path@.take(end as int).drop_last() =~= path@.take(end - 1));
        }
        end -= 1;
    }
    let q = crate::text::subvec(&chars, 0, end);
    proof {
        assert(path@.take(end as int) =~= q@);
        assert(spec_strip_trailing_slashes(q@) == q@);
    }
    if q.len() == 0 || (q.len() == 1 && q[0] == '/') {
        return None;
    }
    match rfind_char(&q, '/') {
        None => Some(String::new()),
        Some(k) => {
            proof {
                crate::text::lemma_rfind_char_bounds(q@, '/');
            }
            if k == 0 {
                let mut root: Vec<char> = Vec::new();
                root.push('/');
                proof {
                    assert(root@ =~= seq!['/']);
                }
                Some(string_from_chars(&root))
            } else {
                Some(string_from_chars(&crate::text::subvec(&q, 0, k)))
            }
        },
    }
}

/// A directory-entry name appended under its directory.
pub fn join_under(dir: &String, name: &String) -> (r: String)
    ensures
        r@ == spec_resolve_under(dir@, name@),
{
    let d = to_chars(dir.as_str());
    if d.len() == 0 {
        return name.clone();
    }
    let mut out = dir.clone();
    if d[d.len() - 1] == '/' {
        out.append(name.as_str());
    } else {
        out.append("/");
        out.append(name.as_str());
        proof {
            reveal_strlit("/");
            assert(out@ =~= dir@ + seq!['/'] + name@);
        }
    }
    out
}

/// The response every denied action gets, whatever its kind.
pub open spec fn spec_denied(resp: AgentResponse) -> bool {
    &&& resp.success == false
    &&& resp.message@ == "Action not permitted"@
    &&& resp.data is None
    &&& resp.error matches Some(e) && e@ == "This action is restricted by the current capabilities"@
}

pub fn not_permitted_response() -> (r: AgentResponse)
    ensures
        spec_denied(r),
        r.wf(),
{
    AgentResponse::error(
        String::from_str("Action not permitted"),
        String::from_str("This action is restricted by the current capabilities"),
    )
}

/// The combined output of a child process: stdout alone when stderr is
/// empty, both under explicit labels otherwise.
pub open spec fn spec_combined_output(stdout: Seq<char>, stderr: Seq<char>) -> Seq<char> {
    if stderr.len() == 0 {
        stdout
    } else {
        "STDOUT:\n"@ + stdout + "\n\nSTDERR:\n"@ + stderr
    }
}

pub fn combined_output(stdout: &String, stderr: &String) -> (r: String)
    ensures
        r@ == spec_combined_output(stdout@, stderr@),
{
    if stderr.as_str().unicode_len() == 0 {
        stdout.clone()
    } else {
        let mut r = String::from_str("STDOUT:\n");
        r.append(stdout.as_str());
        r.append("\n\nSTDERR:\n");
        r.append(stderr.as_str());
        r
    }
}

fn msg2(prefix: &str, rest: &str) -> (r: String)
    ensures
        r@ == prefix@ + rest@,
{
    let mut r = String::from_str(prefix);
    r.append(rest);
    r
}

pub fn read_file_response(resolved: &String, outcome: Result<String, String>) -> (r: AgentResponse)
    ensures
        r.wf(),
        match outcome {
            Ok(content) => r.success && r.message@ == "Successfully read file: "@ + resolved@
                && r.data == Some(content),
            Err(e) => !r.success && r.message@ == "Failed to read file: "@ + resolved@ && r.error
                == Some(e),
        },
{
    match outcome {
        Ok(content) => AgentResponse::success(
            msg2("Successfully read file: ", resolved.as_str()),
            Some(content),
        ),
        Err(e) => AgentResponse::error(msg2("Failed to read file: ", resolved.as_str()), e),
    }
}

pub fn read_failure_response(resolved: &String, e: String) -> (r: AgentResponse)
    ensures
        r.wf(),
        !r.success,
        r.message@ == "Failed to read file: "@ + resolved@,
        r.error == Some(e),
{
    AgentResponse::error(msg2("Failed to read file: ", resolved.as_str()), e)
}

pub fn parent_failure_response(e: String) -> (r: AgentResponse)
    ensures
        r.wf(),
        !r.success,
        r.message@ == "Failed to create parent directories"@,
        r.error == Some(e),
{
    AgentResponse::error(String::from_str("Failed to create parent directories"), e)
}

pub fn write_file_response(resolved: &String, outcome: Result<(), String>) -> (r: AgentResponse)
    ensures
        r.wf(),
        match outcome {
            Ok(u) => r.success && r.message@ == "Successfully wrote file: "@ + resolved@ && r.data
                is None,
            Err(e) => !r.success && r.message@ == "Failed to write file: "@ + resolved@ && r.error
                == Some(e),
        },
{
    match outcome {
        Ok(_) => AgentResponse::success(msg2("Successfully wrote file: ", resolved.as_str()), None),
        Err(e) => AgentResponse::error(msg2("Failed to write file: ", resolved.as_str()), e),
    }
}

pub fn create_directory_response(resolved: &String, outcome: Result<(), String>) -> (r:
    AgentResponse)
    ensures
        r.wf(),
        match outcome {
            Ok(u) => r.success && r.message@ == "Successfully created directory: "@ + resolved@
                && r.data is None,
            Err(e) => !r.success && r.message@ == "Failed to create directory: "@ + resolved@
                && r.error == Some(e),
        },
{
    match outcome {
        Ok(_) => AgentResponse::success(
            msg2("Successfully created directory: ", resolved.as_str()),
            None,
        ),
        Err(e) => AgentResponse::error(msg2("Failed to create directory: ", resolved.as_str()), e),
    }
}

/// The distinct report for deleting a path that is not there: not an
/// operating-system removal error.
pub fn delete_missing_response(resolved: &String) -> (r: AgentResponse)
    ensures
        r.wf(),
        !r.success,
        r.message@ == "Path does not exist"@,
        r.error matches Some(e) && e@ == "Path "@ + resolved@ + " does not exist"@,
{
    let mut e = String::from_str("Path ");
    e.append(resolved.as_str());
    e.append(" does not exist");
    AgentResponse::error(String::from_str("Path does not exist"), e)
}

pub fn delete_response(resolved: &String, outcome: Result<(), String>) -> (r: AgentResponse)
    ensures
        r.wf(),
        match outcome {
            Ok(u) => r.success && r.message@ == "Successfully deleted: "@ + resolved@ && r.data
                is None,
            Err(e) => !r.success && r.message@ == "Failed to delete: "@ + resolved@ && r.error
                == Some(e),
        },
{
    match outcome {
        Ok(_) => AgentResponse::success(msg2("Successfully deleted: ", resolved.as_str()), None),
        Err(e) => AgentResponse::error(msg2("Failed to delete: ", resolved.as_str()), e),
    }
}

/// Success mirrors the child's exit status, never the output's content.
pub fn command_response(command: &String, outcome: Result<CommandOutput, String>) -> (r:
    AgentResponse)
    ensures
        r.wf(),
        match outcome {
            Ok(out) => {
                let combined = spec_combined_output(out.stdout@, out.stderr@);
                if out.exit_success {
                    r.success && r.message@ == "Command executed successfully: "@ + command@ && (
                    r.data matches Some(d) && d@ == combined)
                } else {
                    !r.success && r.message@ == "Command failed: "@ + command@ && (r.error
                        matches Some(e) && e@ == combined)
                }
            },
            Err(e) => !r.success && r.message@ == "Failed to execute command: "@ + command@
                && r.error == Some(e),
        },
{
    match outcome {
        Ok(out) => {
            let combined = combined_output(&out.stdout, &out.stderr);
            if out.exit_success {
                AgentResponse::success(
                    msg2("Command executed successfully: ", command.as_str()),
                    Some(combined),
                )
            } else {
                AgentResponse::error(msg2("Command failed: ", command.as_str()), combined)
            }
        },
        Err(e) => AgentResponse::error(msg2("Failed to execute command: ", command.as_str()), e),
    }
}

/// The full paths of the entries whose names contain the pattern.
pub open spec fn spec_search_matches(
    entries: Seq<DirEntry>,
    dir: Seq<char>,
    pattern: Seq<char>,
) -> Seq<Seq<char>> {
    entries.filter_map(
        |e: DirEntry|
            if spec_contains(e.name@, pattern) {
                Some(spec_resolve_under(dir, e.name@))
            } else {
                None
            },
    )
}

/// A listing failure is swallowed: the search then reports zero matches as
/// a success, never an error.
pub fn search_response(
    resolved_dir: &String,
    pattern: &String,
    outcome: Result<Vec<DirEntry>, String>,
) -> (r: AgentResponse)
    ensures
        r.wf(),
        r.success,
        ({
            let found = match outcome {
                Ok(entries) => spec_search_matches(entries@, resolved_dir@, pattern@),
                Err(e) => Seq::empty(),
            };
            r.message@ == "Found "@ + spec_dec(found.len()) + " matches for pattern '"@ + pattern@
                + "'"@ && (r.data matches Some(d) && d@ == spec_join_nl(found))
        }),
{
    let pat = to_chars(pattern.as_str());
    let mut found: Vec<Vec<char>> = Vec::new();
    let ghost fm = |e: DirEntry|
        if spec_contains(e.name@, pattern@) {
            Some(spec_resolve_under(resolved_dir@, e.name@))
        } else {
            None
        };
    match &outcome {
        Ok(entries) => {
            let mut i: usize = 0;
            proof {
                assert(entries@.take(0).filter_map(fm) =~= views_of(found@));
            }
            while i < entries.len()
                invariant
                    i <= entries@.len(),
                    pat@ == pattern@,
                    views_of(found@) == entries@.take(i as int).filter_map(fm),
                    fm == (|e: DirEntry|
                        if spec_contains(e.name@, pattern@) {
                            Some(spec_resolve_under(resolved_dir@, e.name@))
                        } else {
                            None
                        }),
                decreases entries@.len() - i,
            {
                let ghost pre = views_of(found@);
                let name_chars = to_chars(entries[i].name.as_str());
                if contains_sub(&name_chars, &pat) {
                    let full = join_under(resolved_dir, &entries[i].name);
                    found.push(to_chars(full.as_str()));
                    proof {
                        assert(views_of(found@) =~= pre.push(
                            spec_resolve_under(resolved_dir@, entries@[i as int].name@),
                        ));
                    }
                }
                proof {
                    assert(entries@.take(i + 1).drop_last() =~= entries@.take(i as int));
                    assert(entries@.take(i + 1).last() == entries@[i as int]);
                    assert(views_of(found@) =~= entries@.take(i + 1).filter_map(fm));
                }
                i += 1;
            }
            proof {
                assert(entries@.take(entries@.len() as int) =~= entries@);
            }
        },
        Err(_) => {
            proof {
                assert(views_of(found@) =~= Seq::<Seq<char>>::empty());
            }
        },
    }
    let n: u64 = found.len() as u64;
    let mut message = String::from_str("Found ");
    message.append(string_from_chars(&dec_chars(n)).as_str());
    message.append(" matches for pattern '");
    message.append(pattern.as_str());
    message.append("'");
    let data = string_from_chars(&join_nl(&found));
    AgentResponse::success(message, Some(data))
}

/// One rendered listing line: the entry type padded left, then the name.
pub open spec fn spec_entry_line(e: DirEntry) -> Seq<char> {
    (if e.is_dir {
        "DIR    "@
    } else {
        "FILE   "@
    }) + e.name@
}

/// The listing text: each entry rendered, then the rendered strings sorted
/// lexicographically (so directories and files interleave), joined by line
/// feeds.
pub open spec fn spec_listing(entries: Seq<DirEntry>) -> Seq<char> {
    spec_join_nl(entries.map_values(|e: DirEntry| spec_entry_line(e)).sort_by(lex_leq()))
}

pub fn list_directory_response(resolved: &String, outcome: Result<Vec<DirEntry>, String>) -> (r:
    AgentResponse)
    ensures
        r.wf(),
        match outcome {
            Ok(entries) => r.success && r.message@ == "Listed directory: "@ + resolved@ && (
            r.data matches Some(d) && d@ == spec_listing(entries@)),
            Err(e) => !r.success && r.message@ == "Failed to list directory: "@ + resolved@
                && r.error == Some(e),
        },
{
    match outcome {
        Ok(entries) => {
            let ghost line_of = |e: DirEntry| spec_entry_line(e);
            let mut lines: Vec<Vec<char>> = Vec::new();
            let mut i: usize = 0;
            proof {
                assert(views_of(lines@) =~= entries@.take(0).map_values(line_of));
            }
            while i < entries.len()
                invariant
                    i <= entries@.len(),
                    views_of(lines@) == entries@.take(i as int).map_values(line_of),
                    line_of == (|e: DirEntry| spec_entry_line(e)),
                decreases entries@.len() - i,
            {
                let ghost pre = views_of(lines@);
                let mut line = if entries[i].is_dir {
                    String::from_str("DIR    ")
                } else {
                    String::from_str("FILE   ")
                };
                line.append(entries[i].name.as_str());
                lines.push(to_chars(line.as_str()));
                proof {
                    assert(views_of(lines@) =~= pre.push(spec_entry_line(entries@[i as int])));
                    assert(views_of(lines@) =~= entries@.take(i + 1).map_values(line_of));
                }
                i += 1;
            }
            proof {
                assert(entries@.take(entries@.len() as int) =~= entries@);
            }
            let ghost rendered = entries@.map_values(line_of);
            sort_strings(&mut lines);
            proof {
                lemma_lex_leq_total_ordering();
                rendered.lemma_sort_by_ensures(lex_leq());
                lemma_sorted_unique(views_of(lines@), rendered.sort_by(lex_leq()));
            }
            let data = string_from_chars(&join_nl(&lines));
            AgentResponse::success(msg2("Listed directory: ", resolved.as_str()), Some(data))
        },
        Err(e) => AgentResponse::error(msg2("Failed to list directory: ", resolved.as_str()), e),
    }
}

/// The stat report, rendered: type, size in bytes (`N/A` for anything but a
/// regular file), and the read-only flag.
pub open spec fn spec_file_info(p: Seq<char>, m: FileMeta) -> Seq<char> {
    "Path: "@ + p + "\nType: "@ + (if m.is_dir {
        "Directory"@
    } else if m.is_file {
        "File"@
    } else {
        "Other"@
    }) + "\nSize: "@ + (if m.is_file {
        spec_dec(m.size as nat) + " bytes"@
    } else {
        "N/A"@
    }) + "\nReadonly: "@ + (if m.readonly {
        "true"@
    } else {
        "false"@
    })
}

pub fn file_info_response(resolved: &String, outcome: Result<FileMeta, String>) -> (r:
    AgentResponse)
    ensures
        r.wf(),
        match outcome {
            Ok(m) => r.success && r.message@ == "File info for: "@ + resolved@ && (r.data
                matches Some(d) && d@ == spec_file_info(resolved@, m)),
            Err(e) => !r.success && r.message@ == "Failed to get file info: "@ + resolved@
                && r.error == Some(e),
        },
{
    match outcome {
        Ok(m) => {
            let mut info = String::from_str("Path: ");
            info.append(resolved.as_str());
            info.append("\nType: ");
            if m.is_dir {
                info.append("Directory");
            } else if m.is_file {
                info.append("File");
            } else {
                info.append("Other");
            }
            info.append("\nSize: ");
            if m.is_file {
                info.append(string_from_chars(&dec_chars(m.size)).as_str());
                info.append(" bytes");
            } else {
                info.append("N/A");
            }
            info.append("\nReadonly: ");
            if m.readonly {
                info.append("true");
            } else {
                info.append("false");
            }
            AgentResponse::success(msg2("File info for: ", resolved.as_str()), Some(info))
        },
        Err(e) => AgentResponse::error(msg2("Failed to get file info: ", resolved.as_str()), e),
    }
}

pub fn replace_write_response(resolved: &String, outcome: Result<(), String>) -> (r: AgentResponse)
    ensures
        r.wf(),
        match outcome {
            Ok(u) => r.success && r.message@ == "Successfully replaced text in: "@ + resolved@
                && r.data is None,
            Err(e) => !r.success && r.message@ == "Failed to write file: "@ + resolved@ && r.error
                == Some(e),
        },
{
    match outcome {
        Ok(_) => AgentResponse::success(
            msg2("Successfully replaced text in: ", resolved.as_str()),
            None,
        ),
        Err(e) => AgentResponse::error(msg2("Failed to write file: ", resolved.as_str()), e),
    }
}

/// What `begin` promises: a denied action is finished at once with the
/// fixed denial response and no request (no side effect can follow); an
/// authorized one is pending on exactly the request its kind begins with.
pub open spec fn spec_begin_post(
    caps: AgentCapabilities,
    cwd: Seq<char>,
    action: AgentAction,
    r: ExecStep,
) -> bool {
    if !spec_authorized(caps, cwd, action) {
        r matches ExecStep::Done(resp) && spec_denied(resp)
    } else {
        match action {
            AgentAction::ReadFile { path } => r matches ExecStep::Pending(
                FsRequest::ReadToString { path: p },
            ) && p@ == spec_resolve(cwd, path@),
            AgentAction::WriteFile { path, content } => {
                let resolved = spec_resolve(cwd, path@);
                match spec_parent(resolved) {
                    Some(parent) => r matches ExecStep::Pending(FsRequest::CreateDirAll { path: p })
                        && p@ == parent,
                    None => r matches ExecStep::Pending(FsRequest::WriteAll { path: p, content: c })
                        && p@ == resolved && c == content,
                }
            },
            AgentAction::CreateDirectory { path } => r matches ExecStep::Pending(
                FsRequest::CreateDirAll { path: p },
            ) && p@ == spec_resolve(cwd, path@),
            AgentAction::DeleteFile { path } => r matches ExecStep::Pending(
                FsRequest::StatKind { path: p },
            ) && p@ == spec_resolve(cwd, path@),
            AgentAction::ExecuteCommand { command, working_dir } => r matches ExecStep::Pending(
                FsRequest::RunCommand { command: c, working_dir: w },
            ) && c == command && w@ == (match working_dir {
                Some(d) => d@,
                None => cwd,
            }),
            AgentAction::SearchFiles { pattern, directory } => r matches ExecStep::Pending(
                FsRequest::ReadDirEntries { path: p },
            ) && p@ == spec_resolve(
                cwd,
                match directory {
                    Some(d) => d@,
                    None => cwd,
                },
            ),
            AgentAction::ReplaceInFile { path, old, new } => r matches ExecStep::Pending(
                FsRequest::ReadToString { path: p },
            ) && p@ == spec_resolve(cwd, path@),
            AgentAction::ListDirectory { path } => r matches ExecStep::Pending(
                FsRequest::ReadDirEntries { path: p },
            ) && p@ == spec_resolve(cwd, path@),
            AgentAction::GetFileInfo { path } => r matches ExecStep::Pending(
                FsRequest::StatMeta { path: p },
            ) && p@ == spec_resolve(cwd, path@),
        }
    }
}

/// A denied action has no effect: whenever authorization fails for an
/// action, because its capability is disabled or its resolved path is
/// restricted, the first step is already the finished denial response
/// (success is false, the message fixed), and no filesystem or process
/// request is ever issued, so no side effect can occur.
pub proof fn lemma_denied_action_is_inert(
    caps: AgentCapabilities,
    cwd: Seq<char>,
    action: AgentAction,
    r: ExecStep,
)
    requires
        !spec_authorized(caps, cwd, action),
        spec_begin_post(caps, cwd, action, r),
    ensures
        r matches ExecStep::Done(resp) && spec_denied(resp),
        !(r matches ExecStep::Pending(q)),
{
}

/// Which replies legally continue which action: the reply's shape must
/// match a request that the action's dispatch can be waiting on.
pub open spec fn spec_continues(action: AgentAction, request: FsRequest, reply: FsReply) -> bool {
    match action {
        AgentAction::ReadFile { .. } => request matches FsRequest::ReadToString { .. } && reply
            matches FsReply::Text(_),
        AgentAction::WriteFile { .. } => (request matches FsRequest::CreateDirAll { .. } || request
            matches FsRequest::WriteAll { .. }) && reply matches FsReply::Unit(_),
        AgentAction::CreateDirectory { .. } => request matches FsRequest::CreateDirAll { .. }
            && reply matches FsReply::Unit(_),
        AgentAction::DeleteFile { .. } => (request matches FsRequest::StatKind { .. } && reply
            matches FsReply::Kind(_)) || ((request matches FsRequest::RemoveFile { .. } || request
            matches FsRequest::RemoveDirAll { .. }) && reply matches FsReply::Unit(_)),
        AgentAction::ExecuteCommand { .. } => request matches FsRequest::RunCommand { .. } && reply
            matches FsReply::Ran(_),
        AgentAction::SearchFiles { .. } => request matches FsRequest::ReadDirEntries { .. } && reply
            matches FsReply::Entries(_),
        AgentAction::ReplaceInFile { .. } => (request matches FsRequest::ReadToString { .. } && reply
            matches FsReply::Text(_)) || (request matches FsRequest::WriteAll { .. } && reply
            matches FsReply::Unit(_)),
        AgentAction::ListDirectory { .. } => request matches FsRequest::ReadDirEntries { .. }
            && reply matches FsReply::Entries(_),
        AgentAction::GetFileInfo { .. } => request matches FsRequest::StatMeta { .. } && reply
            matches FsReply::Meta(_),
    }
}

/// What `proceed` promises, per action kind, over the resolved path, the
/// request answered and the host's reply.
pub open spec fn spec_proceed_post(
    cwd: Seq<char>,
    action: AgentAction,
    request: FsRequest,
    reply: FsReply,
    r: ExecStep,
) -> bool {
    match action {
        AgentAction::ReadFile { path } => {
            let rp = spec_resolve(cwd, path@);
            reply matches FsReply::Text(outcome) && (match outcome {
                Ok(content) => r matches ExecStep::Done(resp) && resp.wf() && resp.success
                    && resp.message@ == "Successfully read file: "@ + rp && resp.data == Some(
                    content,
                ),
                Err(e) => r matches ExecStep::Done(resp) && resp.wf() && !resp.success
                    && resp.message@ == "Failed to read file: "@ + rp && resp.error == Some(e),
            })
        },
        AgentAction::WriteFile { path, content } => {
            let rp = spec_resolve(cwd, path@);
            reply matches FsReply::Unit(outcome) && (match request {
                FsRequest::CreateDirAll { .. } => match outcome {
                    Ok(u) => r matches ExecStep::Pending(FsRequest::WriteAll { path: p, content: c })
                        && p@ == rp && c == content,
                    Err(e) => r matches ExecStep::Done(resp) && resp.wf() && !resp.success
                        && resp.message@ == "Failed to create parent directories"@ && resp.error
                        == Some(e),
                },
                _ => match outcome {
                    Ok(u) => r matches ExecStep::Done(resp) && resp.wf() && resp.success
                        && resp.message@ == "Successfully wrote file: "@ + rp && resp.data is None,
                    Err(e) => r matches ExecStep::Done(resp) && resp.wf() && !resp.success
                        && resp.message@ == "Failed to write file: "@ + rp && resp.error == Some(e),
                },
            })
        },
        AgentAction::CreateDirectory { path } => {
            let rp = spec_resolve(cwd, path@);
            reply matches FsReply::Unit(outcome) && (match outcome {
                Ok(u) => r matches ExecStep::Done(resp) && resp.wf() && resp.success
                    && resp.message@ == "Successfully created directory: "@ + rp && resp.data
                    is None,
                Err(e) => r matches ExecStep::Done(resp) && resp.wf() && !resp.success
                    && resp.message@ == "Failed to create directory: "@ + rp && resp.error == Some(
                    e,
                ),
            })
        },
        AgentAction::DeleteFile { path } => {
            let rp = spec_resolve(cwd, path@);
            match request {
                FsRequest::StatKind { .. } => reply matches FsReply::Kind(kind) && (match kind {
                    PathKind::File => r matches ExecStep::Pending(FsRequest::RemoveFile { path: p })
                        && p@ == rp,
                    PathKind::Directory => r matches ExecStep::Pending(
                        FsRequest::RemoveDirAll { path: p },
                    ) && p@ == rp,
                    _ => r matches ExecStep::Done(resp) && resp.wf() && !resp.success
                        && resp.message@ == "Path does not exist"@ && (resp.error matches Some(e)
                        && e@ == "Path "@ + rp + " does not exist"@),
                }),
                _ => reply matches FsReply::Unit(outcome) && (match outcome {
                    Ok(u) => r matches ExecStep::Done(resp) && resp.wf() && resp.success
                        && resp.message@ == "Successfully deleted: "@ + rp && resp.data is None,
                    Err(e) => r matches ExecStep::Done(resp) && resp.wf() && !resp.success
                        && resp.message@ == "Failed to delete: "@ + rp && resp.error == Some(e),
                }),
            }
        },
        AgentAction::ExecuteCommand { command, .. } => reply matches FsReply::Ran(outcome)
            && (match outcome {
            Ok(out) => {
                let combined = spec_combined_output(out.stdout@, out.stderr@);
                if out.exit_success {
                    r matches ExecStep::Done(resp) && resp.wf() && resp.success && resp.message@
                        == "Command executed successfully: "@ + command@ && (resp.data
                        matches Some(d) && d@ == combined)
                } else {
                    r matches ExecStep::Done(resp) && resp.wf() && !resp.success && resp.message@
                        == "Command failed: "@ + command@ && (resp.error matches Some(e) && e@
                        == combined)
                }
            },
            Err(e) => r matches ExecStep::Done(resp) && resp.wf() && !resp.success && resp.message@
                == "Failed to execute command: "@ + command@ && resp.error == Some(e),
        }),
        AgentAction::SearchFiles { pattern, directory } => {
            let dir = spec_resolve(
                cwd,
                match directory {
                    Some(d) => d@,
                    None => cwd,
                },
            );
            reply matches FsReply::Entries(outcome) && {
                let found = match outcome {
                    Ok(entries) => spec_search_matches(entries@, dir, pattern@),
                    Err(e) => Seq::empty(),
                };
                r matches ExecStep::Done(resp) && resp.wf() && resp.success && resp.message@
                    == "Found "@ + spec_dec(found.len()) + " matches for pattern '"@ + pattern@
                    + "'"@ && (resp.data matches Some(d) && d@ == spec_join_nl(found))
            }
        },
        AgentAction::ReplaceInFile { path, old, new } => {
            let rp = spec_resolve(cwd, path@);
            match request {
                FsRequest::ReadToString { .. } => reply matches FsReply::Text(outcome) && (match
                    outcome {
                    Ok(content) => r matches ExecStep::Pending(
                        FsRequest::WriteAll { path: p, content: c },
                    ) && p@ == rp && c@ == spec_replace(content@, old@, new@),
                    Err(e) => r matches ExecStep::Done(resp) && resp.wf() && !resp.success
                        && resp.message@ == "Failed to read file: "@ + rp && resp.error == Some(e),
                }),
                _ => reply matches FsReply::Unit(outcome) && (match outcome {
                    Ok(u) => r matches ExecStep::Done(resp) && resp.wf() && resp.success
                        && resp.message@ == "Successfully replaced text in: "@ + rp && resp.data
                        is None,
                    Err(e) => r matches ExecStep::Done(resp) && resp.wf() && !resp.success
                        && resp.message@ == "Failed to write file: "@ + rp && resp.error == Some(e),
                }),
            }
        },
        AgentAction::ListDirectory { path } => {
            let rp = spec_resolve(cwd, path@);
            reply matches FsReply::Entries(outcome) && (match outcome {
                Ok(entries) => r matches ExecStep::Done(resp) && resp.wf() && resp.success
                    && resp.message@ == "Listed directory: "@ + rp && (resp.data matches Some(d)
                    && d@ == spec_listing(entries@)),
                Err(e) => r matches ExecStep::Done(resp) && resp.wf() && !resp.success
                    && resp.message@ == "Failed to list directory: "@ + rp && resp.error == Some(e),
            })
        },
        AgentAction::GetFileInfo { path } => {
            let rp = spec_resolve(cwd, path@);
            reply matches FsReply::Meta(outcome) && (match outcome {
                Ok(m) => r matches ExecStep::Done(resp) && resp.wf() && resp.success
                    && resp.message@ == "File info for: "@ + rp && (resp.data matches Some(d) && d@
                    == spec_file_info(rp, m)),
                Err(e) => r matches ExecStep::Done(resp) && resp.wf() && !resp.success
                    && resp.message@ == "Failed to get file info: "@ + rp && resp.error == Some(e),
            })
        },
    }
}

} // verus!
