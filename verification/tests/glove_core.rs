use helix_eco_glove::glove::{
    param, param_with_default, param_with_enum, value_type_name, CapabilityDomain, EcoGlove,
    GloveError, Platform, RiskLevel, ToolDefinition, ToolResult,
};
use helix_eco_glove::json::{JsonNumber, JsonValue};

fn s(x: &str) -> JsonValue {
    JsonValue::String(x.to_string())
}

fn obj(members: Vec<(&str, JsonValue)>) -> JsonValue {
    JsonValue::Object(members.into_iter().map(|(k, v)| (k.to_string(), v)).collect())
}

struct TestGlove;

impl EcoGlove for TestGlove {
    fn platform(&self) -> Platform {
        Platform::Generic
    }

    fn host_os(&self) -> Vec<&'static str> {
        vec!["macos", "linux", "windows"]
    }

    fn version(&self) -> &'static str {
        "0.1.0"
    }

    fn name(&self) -> &'static str {
        "test-glove"
    }

    fn tools(&self) -> Vec<ToolDefinition> {
        vec![ToolDefinition::new(
            "test.echo",
            "Echo back the input",
            CapabilityDomain::Generic,
            RiskLevel::Low,
        )
        .with_parameter(param("message", "Message to echo", "string", true))
        .with_return_description("Echoed message")]
    }
}

#[test]
fn test_platform_from_str() {
    assert_eq!(Platform::from_str("macos"), Some(Platform::MacOS));
    assert_eq!(Platform::from_str("darwin"), Some(Platform::MacOS));
    assert_eq!(Platform::from_str("linux"), Some(Platform::Linux));
    assert_eq!(Platform::from_str("windows"), Some(Platform::Windows));
    assert_eq!(Platform::from_str("harmony"), Some(Platform::Harmony));
    assert_eq!(Platform::from_str("unknown"), None);
}

#[test]
fn test_risk_level_requires_confirmation() {
    assert!(!RiskLevel::Low.requires_confirmation());
    assert!(!RiskLevel::Medium.requires_confirmation());
    assert!(RiskLevel::Critical.requires_confirmation());
    assert!(RiskLevel::Catastrophic.requires_confirmation());
}

#[test]
fn test_tool_definition_builder() {
    let tool = ToolDefinition::new(
        "macos.fs.read_file",
        "Read a file",
        CapabilityDomain::FileSystem,
        RiskLevel::Low,
    )
    .with_parameter(param("path", "File path", "string", true))
    .with_return_description("File content")
    .with_dry_run(true);

    assert_eq!(tool.name, "macos.fs.read_file");
    assert_eq!(tool.parameters.len(), 1);
    assert_eq!(tool.parameters[0].name, "path");
    assert!(tool.supports_dry_run);
}

#[test]
fn test_tool_definition_json_schema() {
    let tool = ToolDefinition::new("test.tool", "Test tool", CapabilityDomain::Generic, RiskLevel::Low)
        .with_parameter(param("name", "Name", "string", true))
        .with_parameter(param("count", "Count", "integer", false));

    let schema = tool.parameters_json_schema();
    assert_eq!(schema.get("type"), Some(&s("object")));
    assert!(schema.get("properties").unwrap().get("name").unwrap().is_object());
    assert_eq!(schema.get("required").unwrap().get_index(0), Some(&s("name")));
}

#[test]
fn test_tool_result_success() {
    let result = ToolResult::success(obj(vec![("key", s("value"))]));
    assert!(result.success);
    assert_eq!(result.data.unwrap().get("key"), Some(&s("value")));
    assert!(!result.is_dry_run);
}

#[test]
fn test_tool_result_failure() {
    let result = ToolResult::failure("Something went wrong", "E_INTERNAL");
    assert!(!result.success);
    assert_eq!(result.error.unwrap(), "Something went wrong");
    assert_eq!(result.error_code.unwrap(), "E_INTERNAL");
}

#[test]
fn test_glove_error_display() {
    let error = GloveError::ToolNotFound("test.tool".to_string());
    assert_eq!(error.to_string(), "Tool not found: test.tool");
}

#[test]
fn test_ecoglove_capabilities() {
    let glove = TestGlove;
    let capabilities = glove.capabilities();
    assert_eq!(capabilities.len(), 1);
    assert_eq!(capabilities[0].as_str(), "generic");
}

#[test]
fn test_ecoglove_get_tool() {
    let glove = TestGlove;
    let tool = glove.get_tool("test.echo");
    assert!(tool.is_some());
    assert_eq!(tool.unwrap().name, "test.echo");

    assert!(glove.get_tool("nonexistent").is_none());
}

// ---------------------------------------------------------------------------
// Further cases
// ---------------------------------------------------------------------------

#[test]
fn platform_parse_is_case_insensitive_and_knows_aliases() {
    assert_eq!(Platform::from_str("MacOS"), Some(Platform::MacOS));
    assert_eq!(Platform::from_str("MAC"), Some(Platform::MacOS));
    assert_eq!(Platform::from_str("HarmonyOS"), Some(Platform::Harmony));
    assert_eq!(Platform::from_str("win"), Some(Platform::Windows));
    assert_eq!(Platform::from_str("ROS2"), Some(Platform::Robot));
    assert_eq!(Platform::from_str("universal"), Some(Platform::Generic));
    assert_eq!(Platform::from_str("ios"), Some(Platform::IOS));
    assert_eq!(Platform::from_str("android"), Some(Platform::Android));
    assert_eq!(Platform::from_str(""), None);
    assert_eq!(Platform::from_str(" macos"), None);
}

#[test]
fn platform_identifier_parses_back() {
    for p in [
        Platform::MacOS,
        Platform::IOS,
        Platform::Harmony,
        Platform::Linux,
        Platform::Windows,
        Platform::Android,
        Platform::Robot,
        Platform::Generic,
    ] {
        assert_eq!(Platform::from_str(p.as_str()), Some(p));
    }
}

#[test]
fn platform_of_target_os() {
    assert_eq!(Platform::from_os("macos"), Platform::MacOS);
    assert_eq!(Platform::from_os("linux"), Platform::Linux);
    assert_eq!(Platform::from_os("windows"), Platform::Windows);
    assert_eq!(Platform::from_os("freebsd"), Platform::Generic);
    assert_ne!(Platform::from_os("linux").as_str(), "");
}

#[test]
fn risk_level_identifiers() {
    assert_eq!(RiskLevel::Low.as_str(), "LOW");
    assert_eq!(RiskLevel::Medium.as_str(), "MEDIUM");
    assert_eq!(RiskLevel::Critical.as_str(), "CRITICAL");
    assert_eq!(RiskLevel::Catastrophic.as_str(), "CATASTROPHIC");
}

#[test]
fn capability_domain_identifiers() {
    assert_eq!(CapabilityDomain::FileSystem.as_str(), "file_system");
    assert_eq!(CapabilityDomain::SystemInfo.as_str(), "system_info");
    assert_eq!(CapabilityDomain::Custom("drone".to_string()).as_str(), "drone");
}

#[test]
fn new_tool_definition_defaults() {
    let tool = ToolDefinition::new("a.b", "desc", CapabilityDomain::Network, RiskLevel::Medium);
    assert_eq!(tool.version, "1.0.0");
    assert!(tool.parameters.is_empty());
    assert_eq!(tool.return_description, "");
    assert!(!tool.supports_dry_run);
    assert!(tool.metadata.is_empty());
}

#[test]
fn json_schema_without_required_has_no_required_key() {
    let tool = ToolDefinition::new("t", "d", CapabilityDomain::Generic, RiskLevel::Low)
        .with_parameter(param("opt", "Optional", "string", false));
    let schema = tool.parameters_json_schema();
    assert!(schema.get("required").is_none());
    let prop = schema.get("properties").unwrap().get("opt").unwrap();
    assert_eq!(prop.get("type"), Some(&s("string")));
    assert_eq!(prop.get("description"), Some(&s("Optional")));
}

#[test]
fn json_schema_carries_default_and_enum() {
    let tool = ToolDefinition::new("t", "d", CapabilityDomain::Generic, RiskLevel::Low)
        .with_parameter(param_with_default(
            "n",
            "Count",
            "integer",
            false,
            JsonValue::Number(JsonNumber::PosInt(3)),
        ))
        .with_parameter(param_with_enum(
            "mode",
            "Mode",
            "string",
            true,
            vec!["fast".to_string(), "slow".to_string()],
        ));
    let schema = tool.parameters_json_schema();
    let props = schema.get("properties").unwrap();
    assert_eq!(
        props.get("n").unwrap().get("default"),
        Some(&JsonValue::Number(JsonNumber::PosInt(3)))
    );
    let modes = props.get("mode").unwrap().get("enum").unwrap();
    assert_eq!(modes.get_index(0), Some(&s("fast")));
    assert_eq!(modes.get_index(1), Some(&s("slow")));
    assert_eq!(schema.get("required").unwrap().get_index(0), Some(&s("mode")));
    assert_eq!(schema.get("required").unwrap().get_index(1), None);
}

#[test]
fn tool_result_duration_and_dry_run() {
    let r = ToolResult::success(JsonValue::Null).with_duration(42).as_dry_run();
    assert_eq!(r.duration_ms, 42);
    assert!(r.is_dry_run);
    assert!(r.success);
    assert_eq!(r.data, Some(JsonValue::Null));
    assert_eq!(r.error, None);
}

#[test]
fn glove_error_texts() {
    assert_eq!(
        GloveError::MissingParameter("path".to_string()).to_string(),
        "Missing required parameter: path"
    );
    assert_eq!(
        GloveError::ParameterTypeError("x".to_string()).to_string(),
        "Parameter type error: x"
    );
    assert_eq!(GloveError::NotInitialized.to_string(), "Glove not initialized");
    assert_eq!(GloveError::Other("plain".to_string()).to_string(), "plain");
    assert_eq!(
        GloveError::ExecutionFailed("boom".to_string()).to_string(),
        "Execution failed: boom"
    );
}

#[test]
fn ecoglove_validate_parameters() {
    let glove = TestGlove;
    assert_eq!(
        glove.validate_parameters("test.echo", &obj(vec![])),
        Err(GloveError::MissingParameter("message".to_string()))
    );
    assert_eq!(
        glove.validate_parameters("nonexistent.tool", &obj(vec![])),
        Err(GloveError::ToolNotFound("nonexistent.tool".to_string()))
    );
    assert_eq!(
        glove.validate_parameters("test.echo", &obj(vec![("message", JsonValue::Bool(true))])),
        Err(GloveError::ParameterTypeError(
            "Parameter 'message' expected type 'string', got 'boolean'".to_string()
        ))
    );
    assert_eq!(glove.validate_parameters("test.echo", &obj(vec![("message", s("hello"))])), Ok(()));
    assert_eq!(glove.initialize(), Ok(()));
    assert_eq!(glove.shutdown(), Ok(()));
}

#[test]
fn ecoglove_host_os_gate() {
    let glove = TestGlove;
    assert!(glove.is_supported_on(Platform::Linux));
    assert!(glove.is_supported_on(Platform::MacOS));
    assert!(!glove.is_supported_on(Platform::Android));
    assert!(!glove.is_supported_on(Platform::Generic));
    assert_eq!(glove.description(), "");
}

#[test]
fn json_type_names() {
    assert_eq!(value_type_name(&JsonValue::Null), "null");
    assert_eq!(value_type_name(&JsonValue::Bool(false)), "boolean");
    assert_eq!(value_type_name(&JsonValue::Number(JsonNumber::NegInt(-3))), "integer");
    assert_eq!(value_type_name(&JsonValue::Number(JsonNumber::Float("1.5".to_string()))), "number");
    assert_eq!(value_type_name(&s("x")), "string");
    assert_eq!(value_type_name(&JsonValue::Array(vec![])), "array");
    assert_eq!(value_type_name(&obj(vec![])), "object");
}

struct MixedGlove;

impl EcoGlove for MixedGlove {
    fn platform(&self) -> Platform {
        Platform::Linux
    }

    fn host_os(&self) -> Vec<&'static str> {
        vec!["linux"]
    }

    fn version(&self) -> &'static str {
        "1.0.0"
    }

    fn name(&self) -> &'static str {
        "mixed"
    }

    fn tools(&self) -> Vec<ToolDefinition> {
        vec![
            ToolDefinition::new("a", "a", CapabilityDomain::FileSystem, RiskLevel::Low),
            ToolDefinition::new("b", "b", CapabilityDomain::FileSystem, RiskLevel::Low),
            ToolDefinition::new("c", "c", CapabilityDomain::Process, RiskLevel::Low),
            ToolDefinition::new("d", "d", CapabilityDomain::FileSystem, RiskLevel::Low),
        ]
    }
}

#[test]
fn capabilities_collapse_consecutive_repeats_only() {
    let caps = MixedGlove.capabilities();
    assert_eq!(caps.len(), 3);
    assert_eq!(caps[0], CapabilityDomain::FileSystem);
    assert_eq!(caps[1], CapabilityDomain::Process);
    assert_eq!(caps[2], CapabilityDomain::FileSystem);
}
