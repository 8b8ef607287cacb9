use std::sync::Arc;

use helix_eco_glove::adapter::{
    risk_to_security, tool_definition_to_manifest, tool_result_to_output, AdapterError, GloveAdapter,
    GloveTool, SecurityLevel, GLOVE_TOOL_TIMEOUT_MS,
};
use helix_eco_glove::glove::{EcoGlove, GloveError, Platform, RiskLevel, ToolResult};
use helix_eco_glove::json::JsonValue;
use helix_eco_glove::macos::MacOSGlove;

fn test_glove() -> Arc<MacOSGlove> {
    Arc::new(MacOSGlove::new())
}

#[test]
fn test_risk_to_security() {
    assert_eq!(risk_to_security(&RiskLevel::Low), SecurityLevel::Normal);
    assert_eq!(risk_to_security(&RiskLevel::Medium), SecurityLevel::Normal);
    assert_eq!(risk_to_security(&RiskLevel::Critical), SecurityLevel::Critical);
    assert_eq!(risk_to_security(&RiskLevel::Catastrophic), SecurityLevel::Critical);
}

#[test]
fn test_tool_definition_to_manifest() {
    let glove = test_glove();
    let tools = glove.tools();
    let tool = tools.first().unwrap();
    let manifest = tool_definition_to_manifest(tool, glove.as_ref());

    assert_eq!(manifest.name, tool.name);
    assert_eq!(manifest.version, tool.version);
    assert_eq!(manifest.description, tool.description);
    assert!(!manifest.tags.is_empty());
    assert_eq!(manifest.platform, glove.platform().as_str());
}

#[test]
fn test_glove_adapter_manifests() {
    let adapter = GloveAdapter::new(test_glove());
    let manifests = adapter.manifests();
    assert_eq!(manifests.len(), 6);
    for manifest in &manifests {
        assert!(!manifest.platform.is_empty());
    }
}

#[test]
fn test_glove_adapter_tools() {
    let adapter = GloveAdapter::new(test_glove());
    let tools = adapter.tools().unwrap();
    assert_eq!(tools.len(), 6);
}

#[test]
fn test_glove_adapter_tool() {
    let adapter = GloveAdapter::new(test_glove());

    let tool = adapter.tool("macos.fs.read_file").unwrap();
    assert_eq!(tool.name(), "macos.fs.read_file");

    match adapter.tool("nonexistent.tool") {
        Err(AdapterError::ToolNotFound(_)) => {}
        Err(_) => panic!("Expected ToolNotFound, got other error"),
        Ok(_) => panic!("Expected error, got Ok"),
    }
}

// ---------------------------------------------------------------------------
// Further cases
// ---------------------------------------------------------------------------

#[test]
fn manifest_fields_are_carried_over() {
    let glove = test_glove();
    let tools = glove.tools();
    let exec = tools.iter().find(|t| t.name == "macos.process.execute").unwrap();
    let m = tool_definition_to_manifest(exec, glove.as_ref());
    assert_eq!(m.author.as_deref(), Some("macos-glove"));
    assert_eq!(m.tags, vec!["macos".to_string(), "process".to_string(), "CRITICAL".to_string()]);
    assert_eq!(m.executable, "glove://macos-glove/macos.process.execute");
    assert_eq!(m.security_level, SecurityLevel::Critical);
    assert_eq!(m.timeout_ms, GLOVE_TOOL_TIMEOUT_MS);
    assert_eq!(m.timeout_ms, 30000);
    assert_eq!(m.host_os, vec!["macos".to_string()]);
    assert_eq!(m.parameters_schema, exec.parameters_json_schema());
}

#[test]
fn glove_tool_keeps_glove_and_manifest() {
    let glove = test_glove();
    let tool = GloveTool::new(glove.clone(), "macos.fs.write_file").unwrap();
    assert_eq!(tool.name(), "macos.fs.write_file");
    assert_eq!(tool.manifest().security_level, SecurityLevel::Normal);
    assert_eq!(tool.glove().name(), "macos-glove");
    match GloveTool::new(glove, "missing") {
        Err(e) => {
            assert_eq!(e, AdapterError::ToolNotFound("missing".to_string()));
            assert_eq!(e.to_string(), "Tool not found: missing");
        }
        Ok(_) => panic!("expected ToolNotFound"),
    }
}

#[test]
fn adapter_tools_are_in_tool_order() {
    let adapter = GloveAdapter::new(test_glove());
    let names: Vec<String> = adapter.tools().unwrap().iter().map(|t| t.name().to_string()).collect();
    let expected: Vec<String> = adapter.glove().tools().iter().map(|t| t.name.clone()).collect();
    assert_eq!(names, expected);
}

#[test]
fn adapter_registers_only_on_supported_platforms() {
    let adapter = GloveAdapter::new(test_glove());
    assert!(adapter.registers_on(Platform::MacOS));
    assert!(!adapter.registers_on(Platform::Linux));
    assert!(!adapter.registers_on(Platform::Windows));
}

#[test]
fn tool_results_become_outputs() {
    let ok = tool_result_to_output(ToolResult::success(JsonValue::Bool(true)).with_duration(7));
    assert!(ok.ok);
    assert_eq!(ok.data, Some(JsonValue::Bool(true)));
    assert_eq!(ok.error, None);
    assert_eq!(ok.duration_ms, Some(7));

    let mut no_data = ToolResult::success(JsonValue::Null);
    no_data.data = None;
    assert_eq!(tool_result_to_output(no_data).data, Some(JsonValue::Null));

    let failed = tool_result_to_output(ToolResult::failure("boom", "E_X").with_duration(3));
    assert!(!failed.ok);
    assert_eq!(failed.error.as_deref(), Some("boom"));
    assert_eq!(failed.data, None);
    assert_eq!(failed.duration_ms, Some(3));

    let mut silent = ToolResult::failure("x", "E_X");
    silent.error = None;
    assert_eq!(tool_result_to_output(silent).error.as_deref(), Some("Unknown error"));
}

#[test]
fn adapter_error_texts() {
    assert_eq!(
        AdapterError::from_glove_error(GloveError::MissingParameter("path".to_string())),
        AdapterError::GloveError("Missing required parameter: path".to_string())
    );
    assert_eq!(
        AdapterError::RegistryError("dup".to_string()).to_string(),
        "Registry error: dup"
    );
    assert_eq!(
        AdapterError::GloveError("x".to_string()).to_string(),
        "Glove execution error: x"
    );
}
