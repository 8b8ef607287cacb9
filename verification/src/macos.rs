//! The macOS glove: six native tools (file system, processes, AppleScript).
//!
//! The glove's decisions are made here: which tool a call names, which
//! parameters it carries, what a dry run answers, and how the output of a
//! file or process operation becomes a tool result. The operations themselves
//! (reading and writing files, listing directories, running commands) are
//! performed by the caller, who hands their outcome back.
use vstd::prelude::*;
use crate::glove::{
    CapabilityDomain, DomainView, EcoGlove, GloveError, GloveErrorView, ParamView, Platform, RiskLevel,
    ToolDefView, ToolDefinition, ToolResult, ToolResultView, new_tool_view, param, param_view,
    tools_view, validation_of, success_view, failure_view, strings_view,
};
use crate::json::{JsonValue, JsonView, array_of, i32_value, members_view, object_of, usize_value, value_get};
use crate::text::{
    append_chars, append_str, chars_eq, chars_of, i32_decimal_chars, lines_chars, lines_seq,
    parse_i32, parses_as_i32, signed_value, signed_decimal, string_of, trim_chars, trim_seq,
    trim_start_chars, trim_start_seq,
};

verus! {

/// The macOS glove.
pub struct MacOSGlove;

impl MacOSGlove {
    /// A macOS glove.
    pub fn new() -> Self {
        MacOSGlove
    }
}

impl Default for MacOSGlove {
    fn default() -> Self {
        MacOSGlove
    }
}

/// The version of the macOS glove.
pub const MACOS_GLOVE_VERSION: &'static str = "0.1.0";

/// The six tools of the macOS glove.
pub open spec fn macos_tools() -> Seq<ToolDefView> {
    seq![
        ToolDefView {
            parameters: seq![param_view("path"@, "File path to read"@, "string"@, true)],
            return_description: "File content as string"@,
            supports_dry_run: true,
            ..new_tool_view("macos.fs.read_file"@, "Read a file from the macOS filesystem"@, DomainView::FileSystem, RiskLevel::Low)
        },
        ToolDefView {
            parameters: seq![
                param_view("path"@, "File path to write"@, "string"@, true),
                param_view("content"@, "Content to write"@, "string"@, true),
            ],
            return_description: "Write result confirmation"@,
            supports_dry_run: true,
            ..new_tool_view("macos.fs.write_file"@, "Write content to a file on the macOS filesystem"@, DomainView::FileSystem, RiskLevel::Medium)
        },
        ToolDefView {
            parameters: seq![param_view("directory"@, "Directory path to list"@, "string"@, true)],
            return_description: "List of file names in the directory"@,
            supports_dry_run: true,
            ..new_tool_view("macos.fs.list_directory"@, "List files in a directory on macOS"@, DomainView::FileSystem, RiskLevel::Low)
        },
        ToolDefView {
            parameters: seq![
                param_view("command"@, "Command to execute"@, "string"@, true),
                param_view("args"@, "Command arguments"@, "array"@, false),
            ],
            return_description: "Command output (stdout + stderr) and exit code"@,
            supports_dry_run: false,
            ..new_tool_view("macos.process.execute"@, "Execute a shell command on macOS"@, DomainView::Process, RiskLevel::Critical)
        },
        ToolDefView {
            parameters: Seq::empty(),
            return_description: "List of running processes (PID + command name)"@,
            supports_dry_run: true,
            ..new_tool_view("macos.process.list"@, "List running processes on macOS"@, DomainView::Process, RiskLevel::Low)
        },
        ToolDefView {
            parameters: seq![param_view("script"@, "AppleScript code to execute"@, "string"@, true)],
            return_description: "AppleScript execution result"@,
            supports_dry_run: false,
            ..new_tool_view("macos.script.applescript"@, "Execute an AppleScript on macOS"@, DomainView::Script, RiskLevel::Critical)
        },
    ]
}

impl EcoGlove for MacOSGlove {
    open spec fn spec_tools(&self) -> Seq<ToolDefView> {
        macos_tools()
    }

    open spec fn spec_host_os(&self) -> Seq<Seq<char>> {
        seq!["macos"@]
    }

    open spec fn spec_platform(&self) -> Platform {
        Platform::MacOS
    }

    open spec fn spec_name(&self) -> Seq<char> {
        "macos-glove"@
    }

    fn platform(&self) -> Platform {
        Platform::MacOS
    }

    fn host_os(&self) -> (r: Vec<&'static str>) {
        let mut v: Vec<&'static str> = Vec::new();
        v.push("macos");
        assert(v@.map_values(|s: &'static str| s@) =~= seq!["macos"@]);
        v
    }

    fn version(&self) -> (r: &'static str)
        ensures
            r@ == MACOS_GLOVE_VERSION@,
    {
        MACOS_GLOVE_VERSION
    }

    fn name(&self) -> &'static str {
        "macos-glove"
    }

    fn description(&self) -> (r: &'static str)
        ensures
            r@ == "Native macOS system tools: filesystem, process, AppleScript"@,
    {
        "Native macOS system tools: filesystem, process, AppleScript"
    }

    fn tools(&self) -> (r: Vec<ToolDefinition>) {
        let mut v: Vec<ToolDefinition> = Vec::new();
        v.push(
            ToolDefinition::new("macos.fs.read_file", "Read a file from the macOS filesystem", CapabilityDomain::FileSystem, RiskLevel::Low)
                .with_parameter(param("path", "File path to read", "string", true))
                .with_return_description("File content as string")
                .with_dry_run(true),
        );
        v.push(
            ToolDefinition::new("macos.fs.write_file", "Write content to a file on the macOS filesystem", CapabilityDomain::FileSystem, RiskLevel::Medium)
                .with_parameter(param("path", "File path to write", "string", true))
                .with_parameter(param("content", "Content to write", "string", true))
                .with_return_description("Write result confirmation")
                .with_dry_run(true),
        );
        v.push(
            ToolDefinition::new("macos.fs.list_directory", "List files in a directory on macOS", CapabilityDomain::FileSystem, RiskLevel::Low)
                .with_parameter(param("directory", "Directory path to list", "string", true))
                .with_return_description("List of file names in the directory")
                .with_dry_run(true),
        );
        v.push(
            ToolDefinition::new("macos.process.execute", "Execute a shell command on macOS", CapabilityDomain::Process, RiskLevel::Critical)
                .with_parameter(param("command", "Command to execute", "string", true))
                .with_parameter(param("args", "Command arguments", "array", false))
                .with_return_description("Command output (stdout + stderr) and exit code")
                .with_dry_run(false),
        );
        v.push(
            ToolDefinition::new("macos.process.list", "List running processes on macOS", CapabilityDomain::Process, RiskLevel::Low)
                .with_return_description("List of running processes (PID + command name)")
                .with_dry_run(true),
        );
        v.push(
            ToolDefinition::new("macos.script.applescript", "Execute an AppleScript on macOS", CapabilityDomain::Script, RiskLevel::Critical)
                .with_parameter(param("script", "AppleScript code to execute", "string", true))
                .with_return_description("AppleScript execution result")
                .with_dry_run(false),
        );
        proof {
            let t = tools_view(v@);
            let m = macos_tools();
            assert(t[0].parameters =~= m[0].parameters);
            assert(t[1].parameters =~= m[1].parameters);
            assert(t[2].parameters =~= m[2].parameters);
            assert(t[3].parameters =~= m[3].parameters);
            assert(t[4].parameters =~= m[4].parameters);
            assert(t[5].parameters =~= m[5].parameters);
            assert(t =~= m);
        }
        v
    }
}

// ============================================================================
// Planning a call
// ============================================================================

/// An operation the caller performs for a tool call.
#[derive(Debug, Clone, PartialEq, Eq)]
pub enum ToolAction {
    /// Read the file at `path` as text.
    ReadFile { path: String },
    /// Write `content` to the file at `path`.
    WriteFile { path: String, content: String },
    /// List the entries of `directory`.
    ListDirectory { directory: String },
    /// Run `command` with `args`.
    ExecuteCommand { command: String, args: Vec<String> },
    /// Run `ps -axo pid,comm`.
    ListProcesses,
    /// Run `osascript -e script`.
    RunAppleScript { script: String },
}

/// The mathematical content of a [`ToolAction`].
pub enum ActionView {
    ReadFile(Seq<char>),
    WriteFile(Seq<char>, Seq<char>),
    ListDirectory(Seq<char>),
    ExecuteCommand(Seq<char>, Seq<Seq<char>>),
    ListProcesses,
    RunAppleScript(Seq<char>),
}

impl View for ToolAction {
    type V = ActionView;

    open spec fn view(&self) -> ActionView {
        match self {
            ToolAction::ReadFile { path } => ActionView::ReadFile(path@),
            ToolAction::WriteFile { path, content } => ActionView::WriteFile(path@, content@),
            ToolAction::ListDirectory { directory } => ActionView::ListDirectory(directory@),
            ToolAction::ExecuteCommand { command, args } => ActionView::ExecuteCommand(command@, strings_view(args@)),
            ToolAction::ListProcesses => ActionView::ListProcesses,
            ToolAction::RunAppleScript { script } => ActionView::RunAppleScript(script@),
        }
    }
}

/// What a call comes to: a result known at once (a dry run), or an
/// operation to perform.
#[derive(Debug, Clone, PartialEq, Eq)]
pub enum ExecutionPlan {
    /// The result, with nothing to perform.
    Done(ToolResult),
    /// The operation to perform.
    Perform(ToolAction),
}

/// The mathematical content of an [`ExecutionPlan`].
pub enum PlanView {
    Done(ToolResultView),
    Perform(ActionView),
}

impl View for ExecutionPlan {
    type V = PlanView;

    open spec fn view(&self) -> PlanView {
        match self {
            ExecutionPlan::Done(r) => PlanView::Done(r@),
            ExecutionPlan::Perform(a) => PlanView::Perform(a@),
        }
    }
}

/// The text of parameter `name`, when present as a string.
pub open spec fn str_param(params: JsonView, name: Seq<char>) -> Option<Seq<char>> {
    match value_get(params, name) {
        Some(JsonView::Str(s)) => Some(s),
        _ => None,
    }
}

/// The string elements of an array, in order (others are skipped).
pub open spec fn string_items(items: Seq<JsonView>) -> Seq<Seq<char>>
    decreases items.len(),
{
    if items.len() == 0 {
        Seq::empty()
    } else {
        match items.last() {
            JsonView::Str(s) => string_items(items.drop_last()).push(s),
            _ => string_items(items.drop_last()),
        }
    }
}

/// The command arguments: the string elements of `args` when it is an array, none otherwise.
pub open spec fn args_param(params: JsonView) -> Seq<Seq<char>> {
    match value_get(params, "args"@) {
        Some(JsonView::Arr(items)) => string_items(items),
        _ => Seq::empty(),
    }
}

/// The UTF-8 length of a text in bytes.
pub open spec fn text_bytes(s: Seq<char>) -> u64 {
    vstd::utf8::encode_utf8(s).len() as u64
}

/// A dry-run answer carrying `data`.
pub open spec fn dry_view(data: Seq<(Seq<char>, JsonView)>) -> ToolResultView {
    ToolResultView { is_dry_run: true, ..success_view(JsonView::Obj(data)) }
}

pub open spec fn dry_read_file(path: Seq<char>) -> ToolResultView {
    dry_view(seq![("dry_run"@, JsonView::Bool(true)), ("action"@, JsonView::Str("read_file"@)), ("path"@, JsonView::Str(path)), ("message"@, JsonView::Str("Would read file"@))])
}

pub open spec fn dry_write_file(path: Seq<char>, content: Seq<char>) -> ToolResultView {
    dry_view(seq![("dry_run"@, JsonView::Bool(true)), ("action"@, JsonView::Str("write_file"@)), ("path"@, JsonView::Str(path)), ("content_size"@, JsonView::PosInt(text_bytes(content))), ("message"@, JsonView::Str("Would write file"@))])
}

pub open spec fn dry_list_directory(directory: Seq<char>) -> ToolResultView {
    dry_view(seq![("dry_run"@, JsonView::Bool(true)), ("action"@, JsonView::Str("list_directory"@)), ("directory"@, JsonView::Str(directory)), ("message"@, JsonView::Str("Would list directory"@))])
}

pub open spec fn dry_execute_command(command: Seq<char>, args: Seq<Seq<char>>) -> ToolResultView {
    dry_view(seq![("dry_run"@, JsonView::Bool(true)), ("action"@, JsonView::Str("execute_command"@)), ("command"@, JsonView::Str(command)), ("args"@, JsonView::Arr(args.map_values(|s: Seq<char>| JsonView::Str(s)))), ("message"@, JsonView::Str("Would execute command (dry_run not supported for process.execute)"@))])
}

pub open spec fn dry_list_processes() -> ToolResultView {
    dry_view(seq![("dry_run"@, JsonView::Bool(true)), ("action"@, JsonView::Str("list_processes"@)), ("message"@, JsonView::Str("Would list running processes"@))])
}

pub open spec fn dry_applescript(script: Seq<char>) -> ToolResultView {
    dry_view(seq![("dry_run"@, JsonView::Bool(true)), ("action"@, JsonView::Str("run_applescript"@)), ("script_length"@, JsonView::PosInt(text_bytes(script))), ("message"@, JsonView::Str("Would execute AppleScript (dry_run not supported for script.applescript)"@))])
}

/// The plan for a string parameter `name` that the tool needs.
pub open spec fn with_param(params: JsonView, name: Seq<char>, f: spec_fn(Seq<char>) -> PlanView) -> Result<PlanView, GloveErrorView> {
    match str_param(params, name) {
        None => Err(GloveErrorView::MissingParameter(name)),
        Some(v) => Ok(f(v)),
    }
}

/// What a call of `tool` with `params` comes to: the parameters are
/// validated first; then a dry run is answered at once and any other call
/// names the operation to perform.
pub open spec fn plan_of(tool: Seq<char>, params: JsonView, dry_run: bool) -> Result<PlanView, GloveErrorView> {
    match validation_of(macos_tools(), tool, params) {
        Err(e) => Err(e),
        Ok(()) => if tool == "macos.fs.read_file"@ {
            with_param(params, "path"@, |p: Seq<char>| if dry_run { PlanView::Done(dry_read_file(p)) } else { PlanView::Perform(ActionView::ReadFile(p)) })
        } else if tool == "macos.fs.write_file"@ {
            match str_param(params, "path"@) {
                None => Err(GloveErrorView::MissingParameter("path"@)),
                Some(p) => with_param(params, "content"@, |c: Seq<char>| if dry_run { PlanView::Done(dry_write_file(p, c)) } else { PlanView::Perform(ActionView::WriteFile(p, c)) }),
            }
        } else if tool == "macos.fs.list_directory"@ {
            with_param(params, "directory"@, |d: Seq<char>| if dry_run { PlanView::Done(dry_list_directory(d)) } else { PlanView::Perform(ActionView::ListDirectory(d)) })
        } else if tool == "macos.process.execute"@ {
            with_param(params, "command"@, |c: Seq<char>| if dry_run { PlanView::Done(dry_execute_command(c, args_param(params))) } else { PlanView::Perform(ActionView::ExecuteCommand(c, args_param(params))) })
        } else if tool == "macos.process.list"@ {
            Ok(if dry_run { PlanView::Done(dry_list_processes()) } else { PlanView::Perform(ActionView::ListProcesses) })
        } else if tool == "macos.script.applescript"@ {
            with_param(params, "script"@, |s: Seq<char>| if dry_run { PlanView::Done(dry_applescript(s)) } else { PlanView::Perform(ActionView::RunAppleScript(s)) })
        } else {
            Err(GloveErrorView::ToolNotFound(tool))
        },
    }
}

fn eq_lit(v: &Vec<char>, s: &str) -> (r: bool)
    ensures
        r == (v@ == s@),
{
    let l = chars_of(s);
    chars_eq(v, &l)
}

fn text(s: &str) -> (r: String)
    ensures
        r@ == s@,
{
    string_of(&chars_of(s))
}

fn str_param_exec(params: &JsonValue, name: &str) -> (r: Option<String>)
    ensures
        match str_param(params@, name@) {
            Some(v) => r matches Some(s) && s@ == v,
            None => r is None,
        },
{
    match params.get(name) {
        Some(v) => match v.as_str() {
            Some(s) => Some(text(s)),
            None => None,
        },
        None => None,
    }
}

fn args_param_exec(params: &JsonValue) -> (r: Vec<String>)
    ensures
        strings_view(r@) == args_param(params@),
{
    let mut out: Vec<String> = Vec::new();
    assert(strings_view(out@) =~= Seq::<Seq<char>>::empty());
    match params.get("args") {
        Some(v) => match v.as_array() {
            Some(items) => {
                let ghost iv = items@.map_values(|x: JsonValue| x@);
                let mut i: usize = 0;
                assert(iv.take(0) =~= Seq::<JsonView>::empty());
                while i < items.len()
                    invariant
                        iv == items@.map_values(|x: JsonValue| x@),
                        i <= items.len(),
                        strings_view(out@) == string_items(iv.take(i as int)),
                    decreases items.len() - i,
                {
                    assert(iv.take(i + 1).drop_last() =~= iv.take(i as int));
                    assert(iv.take(i + 1).last() == items@[i as int]@);
                    match items[i].as_str() {
                        Some(s) => {
                            let ghost before = strings_view(out@);
                            out.push(text(s));
                            assert(strings_view(out@) =~= before.push(s@));
                        },
                        None => {},
                    }
                    i = i + 1;
                }
                assert(iv.take(items.len() as int) =~= iv);
            },
            None => {},
        },
        None => {},
    }
    out
}

fn member(k: &str, v: JsonValue) -> (r: (String, JsonValue))
    ensures
        r.0@ == k@,
        r.1 == v,
{
    (text(k), v)
}

fn str_json(s: &str) -> (r: JsonValue)
    ensures
        r@ == JsonView::Str(s@),
{
    JsonValue::String(text(s))
}

fn dry(members: Vec<(String, JsonValue)>) -> (r: ToolResult)
    ensures
        r@ == dry_view(members_view(members@)),
{
    ToolResult::success(object_of(members)).as_dry_run()
}

fn text_bytes_exec(s: &str) -> (n: u64)
    ensures
        n == text_bytes(s@),
{
    s.as_bytes().len() as u64
}

fn strings_json(v: &Vec<String>) -> (r: JsonValue)
    ensures
        r@ == JsonView::Arr(strings_view(v@).map_values(|s: Seq<char>| JsonView::Str(s))),
{
    let mut out: Vec<JsonValue> = Vec::new();
    let mut i: usize = 0;
    while i < v.len()
        invariant
            i <= v.len(),
            out@.len() == i,
            forall|k: int| 0 <= k < i ==> (#[trigger] out@[k])@ == JsonView::Str(v@[k]@),
        decreases v.len() - i,
    {
        out.push(str_json(v[i].as_str()));
        i = i + 1;
    }
    let r = array_of(out);
    assert(out@.map_values(|x: JsonValue| x@) =~= strings_view(v@).map_values(|s: Seq<char>| JsonView::Str(s)));
    r
}

impl MacOSGlove {
    /// Plans a call: validates the parameters against the tool's definition,
    /// then answers a dry run at once or names the operation to perform.
    pub fn plan_execution(&self, tool: &str, params: &JsonValue, dry_run: bool) -> (r: Result<ExecutionPlan, GloveError>)
        ensures
            r is Ok <==> plan_of(tool@, params@, dry_run) is Ok,
            r matches Ok(p) ==> plan_of(tool@, params@, dry_run) == Ok::<PlanView, GloveErrorView>(p@),
            r matches Err(e) ==> plan_of(tool@, params@, dry_run) == Err::<PlanView, GloveErrorView>(e@),
    {
        match self.validate_parameters(tool, params) {
            Err(e) => {
                return Err(e);
            },
            Ok(()) => {},
        }
        let t = chars_of(tool);
        if eq_lit(&t, "macos.fs.read_file") {
            let path = match str_param_exec(params, "path") {
                Some(p) => p,
                None => {
                    return Err(GloveError::MissingParameter(text("path")));
                },
            };
            if dry_run {
                let mut m: Vec<(String, JsonValue)> = Vec::new();
                m.push(member("dry_run", JsonValue::Bool(true)));
                m.push(member("action", str_json("read_file")));
                m.push(member("path", str_json(path.as_str())));
                m.push(member("message", str_json("Would read file")));
                let r = dry(m);
                assert(r@ == dry_read_file(path@)) by {
                    assert(members_view(m@) =~= seq![("dry_run"@, JsonView::Bool(true)), ("action"@, JsonView::Str("read_file"@)), ("path"@, JsonView::Str(path@)), ("message"@, JsonView::Str("Would read file"@))]);
                }
                Ok(ExecutionPlan::Done(r))
            } else {
                Ok(ExecutionPlan::Perform(ToolAction::ReadFile { path }))
            }
        } else if eq_lit(&t, "macos.fs.write_file") {
            let path = match str_param_exec(params, "path") {
                Some(p) => p,
                None => {
                    return Err(GloveError::MissingParameter(text("path")));
                },
            };
            let content = match str_param_exec(params, "content") {
                Some(p) => p,
                None => {
                    return Err(GloveError::MissingParameter(text("content")));
                },
            };
            if dry_run {
                let mut m: Vec<(String, JsonValue)> = Vec::new();
                m.push(member("dry_run", JsonValue::Bool(true)));
                m.push(member("action", str_json("write_file")));
                m.push(member("path", str_json(path.as_str())));
                m.push(member("content_size", JsonValue::Number(crate::json::JsonNumber::PosInt(text_bytes_exec(content.as_str())))));
                m.push(member("message", str_json("Would write file")));
                let r = dry(m);
                assert(r@ == dry_write_file(path@, content@)) by {
                    assert(members_view(m@) =~= seq![("dry_run"@, JsonView::Bool(true)), ("action"@, JsonView::Str("write_file"@)), ("path"@, JsonView::Str(path@)), ("content_size"@, JsonView::PosInt(text_bytes(content@))), ("message"@, JsonView::Str("Would write file"@))]);
                }
                Ok(ExecutionPlan::Done(r))
            } else {
                Ok(ExecutionPlan::Perform(ToolAction::WriteFile { path, content }))
            }
        } else if eq_lit(&t, "macos.fs.list_directory") {
            let directory = match str_param_exec(params, "directory") {
                Some(p) => p,
                None => {
                    return Err(GloveError::MissingParameter(text("directory")));
                },
            };
            if dry_run {
                let mut m: Vec<(String, JsonValue)> = Vec::new();
                m.push(member("dry_run", JsonValue::Bool(true)));
                m.push(member("action", str_json("list_directory")));
                m.push(member("directory", str_json(directory.as_str())));
                m.push(member("message", str_json("Would list directory")));
                let r = dry(m);
                assert(r@ == dry_list_directory(directory@)) by {
                    assert(members_view(m@) =~= seq![("dry_run"@, JsonView::Bool(true)), ("action"@, JsonView::Str("list_directory"@)), ("directory"@, JsonView::Str(directory@)), ("message"@, JsonView::Str("Would list directory"@))]);
                }
                Ok(ExecutionPlan::Done(r))
            } else {
                Ok(ExecutionPlan::Perform(ToolAction::ListDirectory { directory }))
            }
        } else if eq_lit(&t, "macos.process.execute") {
            let command = match str_param_exec(params, "command") {
                Some(p) => p,
                None => {
                    return Err(GloveError::MissingParameter(text("command")));
                },
            };
            let args = args_param_exec(params);
            if dry_run {
                let mut m: Vec<(String, JsonValue)> = Vec::new();
                m.push(member("dry_run", JsonValue::Bool(true)));
                m.push(member("action", str_json("execute_command")));
                m.push(member("command", str_json(command.as_str())));
                m.push(member("args", strings_json(&args)));
                m.push(member("message", str_json("Would execute command (dry_run not supported for process.execute)")));
                let r = dry(m);
                assert(r@ == dry_execute_command(command@, args_param(params@))) by {
                    assert(members_view(m@) =~= seq![("dry_run"@, JsonView::Bool(true)), ("action"@, JsonView::Str("execute_command"@)), ("command"@, JsonView::Str(command@)), ("args"@, JsonView::Arr(args_param(params@).map_values(|s: Seq<char>| JsonView::Str(s)))), ("message"@, JsonView::Str("Would execute command (dry_run not supported for process.execute)"@))]);
                }
                Ok(ExecutionPlan::Done(r))
            } else {
                Ok(ExecutionPlan::Perform(ToolAction::ExecuteCommand { command, args }))
            }
        } else if eq_lit(&t, "macos.process.list") {
            if dry_run {
                let mut m: Vec<(String, JsonValue)> = Vec::new();
                m.push(member("dry_run", JsonValue::Bool(true)));
                m.push(member("action", str_json("list_processes")));
                m.push(member("message", str_json("Would list running processes")));
                let r = dry(m);
                assert(r@ == dry_list_processes()) by {
                    assert(members_view(m@) =~= seq![("dry_run"@, JsonView::Bool(true)), ("action"@, JsonView::Str("list_processes"@)), ("message"@, JsonView::Str("Would list running processes"@))]);
                }
                Ok(ExecutionPlan::Done(r))
            } else {
                Ok(ExecutionPlan::Perform(ToolAction::ListProcesses))
            }
        } else if eq_lit(&t, "macos.script.applescript") {
            let script = match str_param_exec(params, "script") {
                Some(p) => p,
                None => {
                    return Err(GloveError::MissingParameter(text("script")));
                },
            };
            if dry_run {
                let mut m: Vec<(String, JsonValue)> = Vec::new();
                m.push(member("dry_run", JsonValue::Bool(true)));
                m.push(member("action", str_json("run_applescript")));
                m.push(member("script_length", JsonValue::Number(crate::json::JsonNumber::PosInt(text_bytes_exec(script.as_str())))));
                m.push(member("message", str_json("Would execute AppleScript (dry_run not supported for script.applescript)")));
                let r = dry(m);
                assert(r@ == dry_applescript(script@)) by {
                    assert(members_view(m@) =~= seq![("dry_run"@, JsonView::Bool(true)), ("action"@, JsonView::Str("run_applescript"@)), ("script_length"@, JsonView::PosInt(text_bytes(script@))), ("message"@, JsonView::Str("Would execute AppleScript (dry_run not supported for script.applescript)"@))]);
                }
                Ok(ExecutionPlan::Done(r))
            } else {
                Ok(ExecutionPlan::Perform(ToolAction::RunAppleScript { script }))
            }
        } else {
            Err(GloveError::ToolNotFound(text(tool)))
        }
    }
}

// ============================================================================
// Turning an operation's outcome into a result
// ============================================================================

/// The result of reading `content` from `path`.
pub open spec fn read_file_view(path: Seq<char>, content: Seq<char>) -> ToolResultView {
    success_view(JsonView::Obj(seq![("path"@, JsonView::Str(path)), ("content"@, JsonView::Str(content)), ("size"@, JsonView::PosInt(text_bytes(content)))]))
}

/// The result of writing `content` to `path`.
pub open spec fn write_file_view(path: Seq<char>, content: Seq<char>) -> ToolResultView {
    success_view(JsonView::Obj(seq![("path"@, JsonView::Str(path)), ("bytes_written"@, JsonView::PosInt(text_bytes(content))), ("message"@, JsonView::Str("File written successfully"@))]))
}

/// The listed name of a directory entry: its name, with `/` after a directory.
pub open spec fn entry_name(name: Seq<char>, is_dir: bool) -> Seq<char> {
    if is_dir {
        name.push('/')
    } else {
        name
    }
}

/// The result of listing `directory` with these entries (name, is a directory).
pub open spec fn list_directory_view(directory: Seq<char>, entries: Seq<(Seq<char>, bool)>) -> ToolResultView {
    let files = entries.map_values(|e: (Seq<char>, bool)| JsonView::Str(entry_name(e.0, e.1)));
    success_view(JsonView::Obj(seq![("directory"@, JsonView::Str(directory)), ("files"@, JsonView::Arr(files)), ("count"@, JsonView::PosInt(entries.len() as u64))]))
}

/// The JSON number of an `i32`.
pub open spec fn i32_view(n: i32) -> JsonView {
    if n >= 0 {
        JsonView::PosInt(n as u64)
    } else {
        JsonView::NegInt(n as i64)
    }
}

/// The result of a finished command: its output on success, a failure
/// `E_COMMAND_FAILED` naming the exit code (`-1` when there is none) and
/// stderr (stdout when stderr is empty) otherwise.
pub open spec fn command_view(
    command: Seq<char>,
    args: Seq<Seq<char>>,
    stdout: Seq<char>,
    stderr: Seq<char>,
    exit_code: Option<i32>,
    succeeded: bool,
) -> ToolResultView {
    let code: i32 = match exit_code {
        Some(c) => c,
        None => -1i32,
    };
    if succeeded {
        success_view(JsonView::Obj(seq![("command"@, JsonView::Str(command)), ("args"@, JsonView::Arr(args.map_values(|s: Seq<char>| JsonView::Str(s)))), ("stdout"@, JsonView::Str(stdout)), ("stderr"@, JsonView::Str(stderr)), ("exit_code"@, i32_view(code))]))
    } else {
        failure_view("Command failed with exit code "@ + signed_decimal(code as int) + ": "@ + (if stderr.len() == 0 {
            stdout
        } else {
            stderr
        }), "E_COMMAND_FAILED"@)
    }
}

/// The index of the first space in `s` (or `s.len()`).
pub open spec fn first_space_from(s: Seq<char>, i: int) -> int
    decreases s.len() - i,
{
    if i < 0 || i >= s.len() {
        s.len() as int
    } else if s[i] == ' ' {
        i
    } else {
        first_space_from(s, i + 1)
    }
}

/// One `ps` line as (pid, command): the leading blanks removed (`ps`
/// right-aligns the pid column), then split at the first space, the first
/// part parsed as `i32`, the trimmed rest as the command; `None` when there
/// is no space or the pid does not parse.
pub open spec fn process_entry(line: Seq<char>) -> Option<(i32, Seq<char>)> {
    let t = trim_start_seq(line);
    let k = first_space_from(t, 0);
    if k >= t.len() {
        None
    } else {
        let pid = trim_seq(t.subrange(0, k));
        if parses_as_i32(pid) {
            Some((signed_value(pid) as i32, trim_seq(t.subrange(k + 1, t.len() as int))))
        } else {
            None
        }
    }
}

/// The process entries of `ps` lines, in order.
pub open spec fn process_entries(lines: Seq<Seq<char>>) -> Seq<(i32, Seq<char>)>
    decreases lines.len(),
{
    if lines.len() == 0 {
        Seq::empty()
    } else {
        match process_entry(lines.last()) {
            Some(e) => process_entries(lines.drop_last()).push(e),
            None => process_entries(lines.drop_last()),
        }
    }
}

/// The processes listed by `ps -axo pid,comm` output (the header line skipped).
pub open spec fn ps_processes(stdout: Seq<char>) -> Seq<(i32, Seq<char>)> {
    let lines = lines_seq(stdout);
    if lines.len() == 0 {
        Seq::empty()
    } else {
        process_entries(lines.drop_first())
    }
}

/// The result of listing processes from `ps` output.
pub open spec fn list_processes_view(stdout: Seq<char>) -> ToolResultView {
    let ps = ps_processes(stdout);
    let items = ps.map_values(|e: (i32, Seq<char>)| JsonView::Obj(seq![("pid"@, i32_view(e.0)), ("command"@, JsonView::Str(e.1))]));
    success_view(JsonView::Obj(seq![("processes"@, JsonView::Arr(items)), ("count"@, JsonView::PosInt(ps.len() as u64))]))
}

/// The result of a finished AppleScript: its output on success, a failure
/// `E_APPLESCRIPT_FAILED` with stderr (or a fixed message when stderr is empty) otherwise.
pub open spec fn applescript_view(stdout: Seq<char>, stderr: Seq<char>, succeeded: bool) -> ToolResultView {
    if succeeded {
        success_view(JsonView::Obj(seq![("result"@, JsonView::Str(stdout)), ("stderr"@, JsonView::Str(stderr))]))
    } else {
        failure_view(if stderr.len() == 0 {
            "AppleScript execution failed"@
        } else {
            stderr
        }, "E_APPLESCRIPT_FAILED"@)
    }
}

/// The error of an operation that could not be performed.
pub open spec fn action_error(action: ActionView, reason: Seq<char>) -> GloveErrorView {
    match action {
        ActionView::ReadFile(p) => GloveErrorView::ExecutionFailed("Failed to read file '"@ + p + "': "@ + reason),
        ActionView::WriteFile(p, _) => GloveErrorView::ExecutionFailed("Failed to write file '"@ + p + "': "@ + reason),
        ActionView::ListDirectory(d) => GloveErrorView::ExecutionFailed("Failed to list directory '"@ + d + "': "@ + reason),
        ActionView::ExecuteCommand(c, _) => GloveErrorView::ExecutionFailed("Failed to execute command '"@ + c + "': "@ + reason),
        ActionView::ListProcesses => GloveErrorView::ExecutionFailed("Failed to list processes: "@ + reason),
        ActionView::RunAppleScript(_) => GloveErrorView::ExecutionFailed("Failed to execute AppleScript: "@ + reason),
    }
}

/// The result of reading `content` from `path`: path, content and size in bytes.
pub fn read_file_result(path: &str, content: &str) -> (r: ToolResult)
    ensures
        r@ == read_file_view(path@, content@),
{
    let mut m: Vec<(String, JsonValue)> = Vec::new();
    m.push(member("path", str_json(path)));
    m.push(member("content", str_json(content)));
    m.push(member("size", JsonValue::Number(crate::json::JsonNumber::PosInt(text_bytes_exec(content)))));
    assert(members_view(m@) =~= seq![("path"@, JsonView::Str(path@)), ("content"@, JsonView::Str(content@)), ("size"@, JsonView::PosInt(text_bytes(content@)))]);
    ToolResult::success(object_of(m))
}

/// The result of writing `content` to `path`: path, bytes written, confirmation.
pub fn write_file_result(path: &str, content: &str) -> (r: ToolResult)
    ensures
        r@ == write_file_view(path@, content@),
{
    let mut m: Vec<(String, JsonValue)> = Vec::new();
    m.push(member("path", str_json(path)));
    m.push(member("bytes_written", JsonValue::Number(crate::json::JsonNumber::PosInt(text_bytes_exec(content)))));
    m.push(member("message", str_json("File written successfully")));
    assert(members_view(m@) =~= seq![("path"@, JsonView::Str(path@)), ("bytes_written"@, JsonView::PosInt(text_bytes(content@))), ("message"@, JsonView::Str("File written successfully"@))]);
    ToolResult::success(object_of(m))
}

/// The result of listing `directory`: the entry names (directories with a
/// trailing `/`), in the order given, and their number.
pub fn list_directory_result(directory: &str, entries: &Vec<(String, bool)>) -> (r: ToolResult)
    ensures
        r@ == list_directory_view(directory@, entries@.map_values(|e: (String, bool)| (e.0@, e.1))),
{
    let ghost ev = entries@.map_values(|e: (String, bool)| (e.0@, e.1));
    let mut files: Vec<JsonValue> = Vec::new();
    let mut i: usize = 0;
    while i < entries.len()
        invariant
            ev == entries@.map_values(|e: (String, bool)| (e.0@, e.1)),
            i <= entries.len(),
            files@.len() == i,
            forall|k: int| 0 <= k < i ==> (#[trigger] files@[k])@ == JsonView::Str(entry_name(ev[k].0, ev[k].1)),
        decreases entries.len() - i,
    {
        let mut name = chars_of(entries[i].0.as_str());
        if entries[i].1 {
            name.push('/');
        }
        files.push(JsonValue::String(string_of(&name)));
        i = i + 1;
    }
    let count = files.len();
    let arr = array_of(files);
    assert(files@.map_values(|x: JsonValue| x@) =~= ev.map_values(|e: (Seq<char>, bool)| JsonView::Str(entry_name(e.0, e.1))));
    let mut m: Vec<(String, JsonValue)> = Vec::new();
    m.push(member("directory", str_json(directory)));
    m.push(member("files", arr));
    m.push(member("count", usize_value(count)));
    assert(members_view(m@) =~= seq![("directory"@, JsonView::Str(directory@)), ("files"@, JsonView::Arr(ev.map_values(|e: (Seq<char>, bool)| JsonView::Str(entry_name(e.0, e.1))))), ("count"@, JsonView::PosInt(ev.len() as u64))]);
    ToolResult::success(object_of(m))
}

/// The result of a finished command (see [`command_view`]).
pub fn command_result(
    command: &str,
    args: &Vec<String>,
    stdout: &str,
    stderr: &str,
    exit_code: Option<i32>,
    succeeded: bool,
) -> (r: ToolResult)
    ensures
        r@ == command_view(command@, strings_view(args@), stdout@, stderr@, exit_code, succeeded),
{
    let code: i32 = match exit_code {
        Some(c) => c,
        None => -1,
    };
    if succeeded {
        let mut m: Vec<(String, JsonValue)> = Vec::new();
        m.push(member("command", str_json(command)));
        m.push(member("args", strings_json(args)));
        m.push(member("stdout", str_json(stdout)));
        m.push(member("stderr", str_json(stderr)));
        m.push(member("exit_code", i32_value(code)));
        assert(members_view(m@) =~= seq![("command"@, JsonView::Str(command@)), ("args"@, JsonView::Arr(strings_view(args@).map_values(|s: Seq<char>| JsonView::Str(s)))), ("stdout"@, JsonView::Str(stdout@)), ("stderr"@, JsonView::Str(stderr@)), ("exit_code"@, i32_view(code))]);
        ToolResult::success(object_of(m))
    } else {
        let mut msg = chars_of("Command failed with exit code ");
        append_chars(&mut msg, &i32_decimal_chars(code));
        append_str(&mut msg, ": ");
        let err = chars_of(stderr);
        if err.len() == 0 {
            append_str(&mut msg, stdout);
        } else {
            append_chars(&mut msg, &err);
        }
        let text_msg = string_of(&msg);
        ToolResult::failure(text_msg.as_str(), "E_COMMAND_FAILED")
    }
}

fn first_space(s: &Vec<char>) -> (k: usize)
    ensures
        k == first_space_from(s@, 0),
{
    let mut i: usize = 0;
    while i < s.len()
        invariant
            i <= s.len(),
            first_space_from(s@, 0) == first_space_from(s@, i as int),
        decreases s.len() - i,
    {
        if s[i] == ' ' {
            return i;
        }
        i = i + 1;
    }
    i
}

fn process_entry_exec(line: &Vec<char>) -> (r: Option<(i32, Vec<char>)>)
    ensures
        match process_entry(line@) {
            Some(e) => r matches Some(x) && x.0 == e.0 && x.1@ == e.1,
            None => r is None,
        },
{
    let t = trim_start_chars(line);
    let k = first_space(&t);
    if k >= t.len() {
        return None;
    }
    let head = crate::text::slice_chars(&t, 0, k);
    let pid = trim_chars(&head);
    match parse_i32(&pid) {
        None => None,
        Some(n) => {
            let rest = crate::text::slice_chars(&t, k + 1, t.len());
            Some((n, trim_chars(&rest)))
        },
    }
}

/// The processes of `ps -axo pid,comm` output: the header line skipped, each
/// other line, without its leading blanks, split at its first space into a
/// pid and a command, lines whose pid does not parse left out.
pub fn parse_ps_output(stdout: &str) -> (r: Vec<(i32, String)>)
    ensures
        r@.map_values(|e: (i32, String)| (e.0, e.1@)) == ps_processes(stdout@),
{
    let text_chars = chars_of(stdout);
    let lines = lines_chars(&text_chars);
    let ghost ls = lines_seq(stdout@);
    let mut out: Vec<(i32, String)> = Vec::new();
    assert(out@.map_values(|e: (i32, String)| (e.0, e.1@)) =~= Seq::<(i32, Seq<char>)>::empty());
    if lines.len() == 0 {
        return out;
    }
    let ghost body = ls.drop_first();
    let mut i: usize = 1;
    assert(body.take(0) =~= Seq::<Seq<char>>::empty());
    while i < lines.len()
        invariant
            ls == lines_seq(stdout@),
            lines@.len() == ls.len(),
            ls.len() > 0,
            body == ls.drop_first(),
            forall|k: int| 0 <= k < ls.len() ==> #[trigger] lines@[k]@ == ls[k],
            1 <= i <= lines.len(),
            out@.map_values(|e: (i32, String)| (e.0, e.1@)) == process_entries(body.take(i - 1)),
        decreases lines.len() - i,
    {
        assert(body.take(i as int).drop_last() =~= body.take(i - 1));
        assert(body.take(i as int).last() == lines@[i as int]@);
        match process_entry_exec(&lines[i]) {
            Some((pid, comm)) => {
                let ghost before = out@.map_values(|e: (i32, String)| (e.0, e.1@));
                let c = string_of(&comm);
                out.push((pid, c));
                assert(out@.map_values(|e: (i32, String)| (e.0, e.1@)) =~= before.push((pid, comm@)));
            },
            None => {},
        }
        i = i + 1;
    }
    assert(body.take(lines.len() - 1) =~= body);
    out
}

/// The result of listing processes from `ps -axo pid,comm` output.
pub fn list_processes_result(stdout: &str) -> (r: ToolResult)
    ensures
        r@ == list_processes_view(stdout@),
{
    let ps = parse_ps_output(stdout);
    let ghost pv = ps@.map_values(|e: (i32, String)| (e.0, e.1@));
    let mut items: Vec<JsonValue> = Vec::new();
    let mut i: usize = 0;
    while i < ps.len()
        invariant
            pv == ps@.map_values(|e: (i32, String)| (e.0, e.1@)),
            i <= ps.len(),
            items@.len() == i,
            forall|k: int| 0 <= k < i ==> (#[trigger] items@[k])@ == JsonView::Obj(seq![("pid"@, i32_view(pv[k].0)), ("command"@, JsonView::Str(pv[k].1))]),
        decreases ps.len() - i,
    {
        let mut m: Vec<(String, JsonValue)> = Vec::new();
        m.push(member("pid", i32_value(ps[i].0)));
        m.push(member("command", str_json(ps[i].1.as_str())));
        assert(members_view(m@) =~= seq![("pid"@, i32_view(pv[i as int].0)), ("command"@, JsonView::Str(pv[i as int].1))]);
        items.push(object_of(m));
        i = i + 1;
    }
    let count = items.len();
    let arr = array_of(items);
    assert(items@.map_values(|x: JsonValue| x@) =~= pv.map_values(|e: (i32, Seq<char>)| JsonView::Obj(seq![("pid"@, i32_view(e.0)), ("command"@, JsonView::Str(e.1))])));
    let mut m: Vec<(String, JsonValue)> = Vec::new();
    m.push(member("processes", arr));
    m.push(member("count", usize_value(count)));
    assert(members_view(m@) =~= seq![("processes"@, JsonView::Arr(pv.map_values(|e: (i32, Seq<char>)| JsonView::Obj(seq![("pid"@, i32_view(e.0)), ("command"@, JsonView::Str(e.1))])))), ("count"@, JsonView::PosInt(pv.len() as u64))]);
    ToolResult::success(object_of(m))
}

/// The result of a finished AppleScript (see [`applescript_view`]).
pub fn applescript_result(stdout: &str, stderr: &str, succeeded: bool) -> (r: ToolResult)
    ensures
        r@ == applescript_view(stdout@, stderr@, succeeded),
{
    if succeeded {
        let mut m: Vec<(String, JsonValue)> = Vec::new();
        m.push(member("result", str_json(stdout)));
        m.push(member("stderr", str_json(stderr)));
        assert(members_view(m@) =~= seq![("result"@, JsonView::Str(stdout@)), ("stderr"@, JsonView::Str(stderr@))]);
        ToolResult::success(object_of(m))
    } else if stderr.is_empty() {
        ToolResult::failure("AppleScript execution failed", "E_APPLESCRIPT_FAILED")
    } else {
        ToolResult::failure(stderr, "E_APPLESCRIPT_FAILED")
    }
}

/// The error of an operation that could not be performed, with the reason.
pub fn action_failed(action: &ToolAction, reason: &str) -> (e: GloveError)
    ensures
        e@ == action_error(action@, reason@),
{
    let mut m: Vec<char> = match action {
        ToolAction::ReadFile { path } => {
            let mut m = chars_of("Failed to read file '");
            append_str(&mut m, path.as_str());
            append_str(&mut m, "': ");
            m
        },
        ToolAction::WriteFile { path, .. } => {
            let mut m = chars_of("Failed to write file '");
            append_str(&mut m, path.as_str());
            append_str(&mut m, "': ");
            m
        },
        ToolAction::ListDirectory { directory } => {
            let mut m = chars_of("Failed to list directory '");
            append_str(&mut m, directory.as_str());
            append_str(&mut m, "': ");
            m
        },
        ToolAction::ExecuteCommand { command, .. } => {
            let mut m = chars_of("Failed to execute command '");
            append_str(&mut m, command.as_str());
            append_str(&mut m, "': ");
            m
        },
        ToolAction::ListProcesses => chars_of("Failed to list processes: "),
        ToolAction::RunAppleScript { .. } => chars_of("Failed to execute AppleScript: "),
    };
    append_str(&mut m, reason);
    GloveError::ExecutionFailed(string_of(&m))
}

} // verus!
