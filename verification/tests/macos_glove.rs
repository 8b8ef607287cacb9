use helix_eco_glove::glove::{EcoGlove, GloveError, Platform, RiskLevel};
use helix_eco_glove::json::{JsonNumber, JsonValue};
use helix_eco_glove::macos::{
    action_failed, applescript_result, command_result, list_directory_result,
    list_processes_result, parse_ps_output, read_file_result, write_file_result, ExecutionPlan,
    MacOSGlove, ToolAction,
};

fn s(x: &str) -> JsonValue {
    JsonValue::String(x.to_string())
}

fn n(x: u64) -> JsonValue {
    JsonValue::Number(JsonNumber::PosInt(x))
}

fn obj(members: Vec<(&str, JsonValue)>) -> JsonValue {
    JsonValue::Object(members.into_iter().map(|(k, v)| (k.to_string(), v)).collect())
}

#[test]
fn test_macos_glove_metadata() {
    let glove = MacOSGlove::new();
    assert_eq!(glove.platform(), Platform::MacOS);
    assert_eq!(glove.host_os(), vec!["macos"]);
    assert_eq!(glove.name(), "macos-glove");
    assert!(!glove.version().is_empty());
}

#[test]
fn test_macos_glove_tools_count() {
    let glove = MacOSGlove::new();
    assert_eq!(glove.tools().len(), 6);
}

#[test]
fn test_macos_glove_tool_names() {
    let glove = MacOSGlove::new();
    let tools = glove.tools();
    let names: Vec<&str> = tools.iter().map(|t| t.name.as_str()).collect();

    assert!(names.contains(&"macos.fs.read_file"));
    assert!(names.contains(&"macos.fs.write_file"));
    assert!(names.contains(&"macos.fs.list_directory"));
    assert!(names.contains(&"macos.process.execute"));
    assert!(names.contains(&"macos.process.list"));
    assert!(names.contains(&"macos.script.applescript"));
}

#[test]
fn test_macos_glove_risk_levels() {
    let glove = MacOSGlove::new();
    let tools = glove.tools();

    let read_file = tools.iter().find(|t| t.name == "macos.fs.read_file").unwrap();
    assert_eq!(read_file.risk_level, RiskLevel::Low);

    let write_file = tools.iter().find(|t| t.name == "macos.fs.write_file").unwrap();
    assert_eq!(write_file.risk_level, RiskLevel::Medium);

    let execute = tools.iter().find(|t| t.name == "macos.process.execute").unwrap();
    assert_eq!(execute.risk_level, RiskLevel::Critical);
    assert!(execute.risk_level.requires_confirmation());
}

#[test]
fn test_macos_glove_capabilities() {
    let glove = MacOSGlove::new();
    let capabilities = glove.capabilities();

    assert!(capabilities.iter().any(|c| c.as_str() == "file_system"));
    assert!(capabilities.iter().any(|c| c.as_str() == "process"));
    assert!(capabilities.iter().any(|c| c.as_str() == "script"));
}

#[test]
fn test_is_supported_on_current_platform() {
    let glove = MacOSGlove::new();
    for current in [Platform::MacOS, Platform::Linux, Platform::Windows, Platform::Generic] {
        if current == Platform::MacOS {
            assert!(glove.is_supported_on(current));
        } else {
            assert!(!glove.is_supported_on(current));
        }
    }
}

// ---------------------------------------------------------------------------
// Planning calls
// ---------------------------------------------------------------------------

fn done(plan: Result<ExecutionPlan, GloveError>) -> helix_eco_glove::glove::ToolResult {
    match plan {
        Ok(ExecutionPlan::Done(r)) => r,
        other => panic!("expected an immediate answer, got {other:?}"),
    }
}

fn perform(plan: Result<ExecutionPlan, GloveError>) -> ToolAction {
    match plan {
        Ok(ExecutionPlan::Perform(a)) => a,
        other => panic!("expected an operation, got {other:?}"),
    }
}

#[test]
fn read_file_dry_run_is_answered_at_once() {
    let glove = MacOSGlove::new();
    let result = done(glove.plan_execution(
        "macos.fs.read_file",
        &obj(vec![("path", s("/tmp/nonexistent.txt"))]),
        true,
    ));
    assert!(result.success);
    assert!(result.is_dry_run);
    let data = result.data.unwrap();
    assert_eq!(data.get("action"), Some(&s("read_file")));
    assert_eq!(data.get("path"), Some(&s("/tmp/nonexistent.txt")));
    assert_eq!(data.get("dry_run"), Some(&JsonValue::Bool(true)));
}

#[test]
fn every_tool_answers_a_dry_run_without_acting() {
    let glove = MacOSGlove::new();
    let cases = vec![
        ("macos.fs.read_file", obj(vec![("path", s("/a"))]), "read_file"),
        ("macos.fs.write_file", obj(vec![("path", s("/a")), ("content", s("héllo"))]), "write_file"),
        ("macos.fs.list_directory", obj(vec![("directory", s("/"))]), "list_directory"),
        ("macos.process.execute", obj(vec![("command", s("rm")), ("args", JsonValue::Array(vec![s("-rf"), n(1), s("/")]))]), "execute_command"),
        ("macos.process.list", obj(vec![]), "list_processes"),
        ("macos.script.applescript", obj(vec![("script", s("beep"))]), "run_applescript"),
    ];
    for (tool, params, action) in cases {
        let r = done(glove.plan_execution(tool, &params, true));
        assert!(r.is_dry_run, "{tool}");
        assert_eq!(r.data.as_ref().unwrap().get("action"), Some(&s(action)), "{tool}");
    }
    let w = done(glove.plan_execution(
        "macos.fs.write_file",
        &obj(vec![("path", s("/a")), ("content", s("héllo"))]),
        true,
    ));
    assert_eq!(w.data.unwrap().get("content_size"), Some(&n(6)));
    let e = done(glove.plan_execution(
        "macos.process.execute",
        &obj(vec![("command", s("rm")), ("args", JsonValue::Array(vec![s("-rf"), n(1), s("/")]))]),
        true,
    ));
    assert_eq!(
        e.data.unwrap().get("args"),
        Some(&JsonValue::Array(vec![s("-rf"), s("/")]))
    );
}

#[test]
fn calls_name_the_operation_to_perform() {
    let glove = MacOSGlove::new();
    assert_eq!(
        perform(glove.plan_execution("macos.fs.read_file", &obj(vec![("path", s("/etc/hosts"))]), false)),
        ToolAction::ReadFile { path: "/etc/hosts".to_string() }
    );
    assert_eq!(
        perform(glove.plan_execution(
            "macos.fs.write_file",
            &obj(vec![("path", s("/tmp/x")), ("content", s("Hello macOS Glove!"))]),
            false
        )),
        ToolAction::WriteFile { path: "/tmp/x".to_string(), content: "Hello macOS Glove!".to_string() }
    );
    assert_eq!(
        perform(glove.plan_execution(
            "macos.process.execute",
            &obj(vec![("command", s("echo")), ("args", JsonValue::Array(vec![s("Hello World")]))]),
            false
        )),
        ToolAction::ExecuteCommand { command: "echo".to_string(), args: vec!["Hello World".to_string()] }
    );
    assert_eq!(
        perform(glove.plan_execution("macos.process.list", &obj(vec![]), false)),
        ToolAction::ListProcesses
    );
    assert_eq!(
        perform(glove.plan_execution("macos.script.applescript", &obj(vec![("script", s("beep"))]), false)),
        ToolAction::RunAppleScript { script: "beep".to_string() }
    );
}

#[test]
fn unknown_tool_and_missing_parameter_are_refused() {
    let glove = MacOSGlove::new();
    assert_eq!(
        glove.plan_execution("nonexistent.tool", &obj(vec![]), false),
        Err(GloveError::ToolNotFound("nonexistent.tool".to_string()))
    );
    assert_eq!(
        glove.plan_execution("macos.fs.read_file", &obj(vec![]), false),
        Err(GloveError::MissingParameter("path".to_string()))
    );
    assert_eq!(
        glove.plan_execution("macos.fs.read_file", &obj(vec![]), true),
        Err(GloveError::MissingParameter("path".to_string()))
    );
    assert_eq!(
        glove.plan_execution("macos.fs.read_file", &obj(vec![("path", n(7))]), false),
        Err(GloveError::ParameterTypeError(
            "Parameter 'path' expected type 'string', got 'integer'".to_string()
        ))
    );
    assert_eq!(
        glove.plan_execution("macos.process.execute", &obj(vec![("command", s("ls")), ("args", s("-l"))]), false),
        Err(GloveError::ParameterTypeError(
            "Parameter 'args' expected type 'array', got 'string'".to_string()
        ))
    );
}

// ---------------------------------------------------------------------------
// Results of performed operations
// ---------------------------------------------------------------------------

#[test]
fn read_and_write_results() {
    let r = read_file_result("/tmp/t.txt", "Hello macOS Glove!");
    assert!(r.success);
    let d = r.data.unwrap();
    assert_eq!(d.get("content"), Some(&s("Hello macOS Glove!")));
    assert_eq!(d.get("size"), Some(&n(18)));

    let w = write_file_result("/tmp/t.txt", "Hello macOS Glove!");
    let d = w.data.unwrap();
    assert_eq!(d.get("bytes_written"), Some(&n(18)));
    assert_eq!(d.get("message"), Some(&s("File written successfully")));
}

#[test]
fn list_directory_result_marks_directories() {
    let entries = vec![("file1.txt".to_string(), false), ("sub".to_string(), true)];
    let r = list_directory_result("/tmp/d", &entries);
    let d = r.data.unwrap();
    assert_eq!(d.get("count"), Some(&n(2)));
    assert_eq!(d.get("files"), Some(&JsonValue::Array(vec![s("file1.txt"), s("sub/")])));
    assert_eq!(d.get("directory"), Some(&s("/tmp/d")));
}

#[test]
fn command_results() {
    let ok = command_result("echo", &vec!["Hello World".to_string()], "Hello World\n", "", Some(0), true);
    assert!(ok.success);
    let d = ok.data.unwrap();
    assert_eq!(d.get("stdout"), Some(&s("Hello World\n")));
    assert_eq!(d.get("exit_code"), Some(&n(0)));

    let failed = command_result("false", &vec![], "out", "", Some(1), false);
    assert!(!failed.success);
    assert_eq!(failed.error.as_deref(), Some("Command failed with exit code 1: out"));
    assert_eq!(failed.error_code.as_deref(), Some("E_COMMAND_FAILED"));

    let killed = command_result("sleep", &vec![], "", "terminated", None, false);
    assert_eq!(killed.error.as_deref(), Some("Command failed with exit code -1: terminated"));
}

#[test]
fn ps_output_is_parsed_as_the_glove_reads_it() {
    let out = "PID COMM\n1 /sbin/launchd\n 88 /usr/libexec/logd\nabc not-a-pid\n423 /Applications/App Name\n";
    let ps = parse_ps_output(out);
    assert_eq!(
        ps,
        vec![
            (1, "/sbin/launchd".to_string()),
            (88, "/usr/libexec/logd".to_string()),
            (423, "/Applications/App Name".to_string())
        ]
    );
    let r = list_processes_result(out);
    let d = r.data.unwrap();
    assert_eq!(d.get("count"), Some(&n(3)));
    let first = d.get("processes").unwrap().get_index(0).unwrap();
    assert_eq!(first.get("pid"), Some(&n(1)));
    assert_eq!(first.get("command"), Some(&s("/sbin/launchd")));
    assert!(parse_ps_output("").is_empty());
}

#[test]
fn right_aligned_pid_column_is_read() {
    let out = "  PID COMM\n    1 /sbin/launchd\n12345 /usr/bin/foo\n";
    assert_eq!(
        parse_ps_output(out),
        vec![(1, "/sbin/launchd".to_string()), (12345, "/usr/bin/foo".to_string())]
    );
    let d = list_processes_result(out).data.unwrap();
    assert_eq!(d.get("count"), Some(&n(2)));
}

#[test]
fn applescript_results() {
    let ok = applescript_result("done\n", "", true);
    assert_eq!(ok.data.unwrap().get("result"), Some(&s("done\n")));
    let failed = applescript_result("", "", false);
    assert_eq!(failed.error.as_deref(), Some("AppleScript execution failed"));
    assert_eq!(failed.error_code.as_deref(), Some("E_APPLESCRIPT_FAILED"));
    let failed = applescript_result("", "syntax error", false);
    assert_eq!(failed.error.as_deref(), Some("syntax error"));
}

#[test]
fn failed_operations_name_what_failed() {
    assert_eq!(
        action_failed(&ToolAction::ReadFile { path: "/x".to_string() }, "No such file"),
        GloveError::ExecutionFailed("Failed to read file '/x': No such file".to_string())
    );
    assert_eq!(
        action_failed(&ToolAction::ListProcesses, "denied"),
        GloveError::ExecutionFailed("Failed to list processes: denied".to_string())
    );
    assert_eq!(
        action_failed(&ToolAction::RunAppleScript { script: "x".to_string() }, "gone"),
        GloveError::ExecutionFailed("Failed to execute AppleScript: gone".to_string())
    );
}
