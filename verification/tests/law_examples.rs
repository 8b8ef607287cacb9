use helix_eco_glove::adapter::GloveAdapter;
use helix_eco_glove::glove::Platform;
use helix_eco_glove::macos::MacOSGlove;
use helix_eco_glove::registry_parse::{parse, rust_str, validate};
use helix_eco_glove::reviewer::classify_risk_level;
use helix_eco_glove::vocabulary::REGISTRY_BLOCK;
use helix_eco_glove::adapter::{risk_to_security, SecurityLevel};
use helix_eco_glove::glove::RiskLevel;
use helix_eco_glove::json::{members_insert_exec, JsonNumber, JsonValue};
use helix_eco_glove::reviewer::{
    classify_in, Disposition, Severity, StaticReviewer, ToolManifest,
};
use helix_eco_glove::vocabulary::{risk_vocabulary, RiskVocabRow};

fn vocab_row(value: &'static str, class: &'static str, code: &'static str, level: &'static str) -> RiskVocabRow {
    RiskVocabRow {
        value,
        class,
        code,
        level,
        meaning: "m",
        consequence: "c",
        high_risk: false,
        owner: "CI-144",
    }
}

fn manifest(risk_level: &str, description: &str) -> ToolManifest {
    ToolManifest {
        name: "linux.fs.stat".to_string(),
        version: "2.0.1".to_string(),
        description: description.to_string(),
        parameters_schema: JsonValue::Object(vec![
            ("type".to_string(), JsonValue::String("object".to_string())),
            ("properties".to_string(), JsonValue::Object(vec![])),
        ]),
        risk_level: risk_level.to_string(),
        platform: "linux".to_string(),
        host_os: vec!["linux".to_string()],
        tags: vec![],
    }
}

#[test]
fn a_value_added_to_the_vocabulary_is_accepted() {
    let mut vocab = risk_vocabulary();
    assert_eq!(classify_in(&vocab, "elevated", &"elevated".chars().collect()).disposition, Disposition::Rejected);
    vocab.insert(0, vocab_row("elevated", "value", "-", "-"));
    let v = classify_in(&vocab, " Elevated ", &"elevated".chars().collect());
    assert_eq!(v.disposition, Disposition::Accepted);
    assert_eq!(v.class, "value");
    assert_eq!(v.code, None);
    assert_eq!(v.raw, " Elevated ");
}

#[test]
fn confirmation_matches_critical_security() {
    for r in [RiskLevel::Low, RiskLevel::Medium, RiskLevel::Critical, RiskLevel::Catastrophic] {
        assert_eq!(r.requires_confirmation(), risk_to_security(&r) == SecurityLevel::Critical);
    }
}

#[test]
fn passed_exactly_when_no_errors() {
    let reviewer = StaticReviewer::new();
    for (risk, description) in [
        ("low", "Stat a path on the local file system"),
        ("critical", "tiny"),
        ("", "Stat a path on the local file system"),
        ("unknown", "Stat a path on the local file system"),
    ] {
        let report = reviewer.review(&manifest(risk, description));
        assert_eq!(report.passed(), report.errors().is_empty(), "{risk:?}");
    }
}

#[test]
fn report_shows_the_verdict_once() {
    let reviewer = StaticReviewer::new();
    let accepted = reviewer.review(&manifest("medium", "Stat a path on the local file system"));
    assert!(accepted.risk_dispositions().is_empty());
    assert!(accepted.codes().is_empty());

    let rejected = reviewer.review(&manifest("nope", "tiny"));
    assert_eq!(rejected.risk_dispositions(), vec![Disposition::Rejected]);
    assert_eq!(rejected.codes().len(), 1);
    assert_eq!(rejected.codes().get("E-RISK-ILLEGAL"), Some(&1));
    let r005 = rejected.findings.iter().find(|f| f.rule_id == "R005").unwrap();
    assert_eq!(r005.severity, Severity::Error);
}

#[test]
fn insert_then_read_back() {
    let mut members = vec![
        ("a".to_string(), JsonValue::Bool(true)),
        ("b".to_string(), JsonValue::Null),
    ];
    members_insert_exec(&mut members, "b".to_string(), JsonValue::Number(JsonNumber::PosInt(2)));
    members_insert_exec(&mut members, "c".to_string(), JsonValue::String("x".to_string()));
    let obj = JsonValue::Object(members);
    assert_eq!(obj.get("b"), Some(&JsonValue::Number(JsonNumber::PosInt(2))));
    assert_eq!(obj.get("c"), Some(&JsonValue::String("x".to_string())));
    assert_eq!(obj.get("a"), Some(&JsonValue::Bool(true)));
    assert_eq!(obj.as_object().unwrap().len(), 3);
    assert_eq!(obj.as_object().unwrap()[1].0, "b");
    assert!(obj.contains_key("c"));
    assert!(!obj.contains_key("d"));
}

#[test]
fn silence_is_exactly_an_empty_trimmed_input() {
    assert_eq!(classify_risk_level("\u{3000}\t ").class, "silence");
    assert_eq!(classify_risk_level("É").class, "illegal");
    assert_eq!(classify_risk_level(" Ω ").class, "illegal");
    assert_eq!(classify_risk_level("").class, "silence");
}

#[test]
fn rust_literal_shape() {
    let input = "a\"b\\c\nd\te";
    let out = rust_str(input);
    assert_eq!(out.chars().count(), input.chars().count() + 2 + 4);
    assert!(out.starts_with('"') && out.ends_with('"'));
    assert!(!out.contains('\n') && !out.contains('\t') && !out.contains('\r'));
}

#[test]
fn registration_follows_the_host_os_gate() {
    let adapter = GloveAdapter::new(std::sync::Arc::new(MacOSGlove::new()));
    assert_eq!(adapter.tools_to_register(Platform::MacOS).unwrap().len(), 6);
    assert!(adapter.tools_to_register(Platform::Linux).unwrap().is_empty());
}

#[test]
fn validate_accepts_the_built_in_vocabulary() {
    let rows = parse(REGISTRY_BLOCK).unwrap();
    assert_eq!(validate(&rows), Ok(()));
}

#[test]
fn findings_come_in_rule_order_with_codes_only_on_r005() {
    let reviewer = StaticReviewer::new();
    let mut m = manifest("", "tiny");
    m.name = "x".to_string();
    m.version = "1".to_string();
    m.platform = "mars".to_string();
    m.host_os = vec!["beos".to_string()];
    m.parameters_schema = JsonValue::Null;
    let report = reviewer.review(&m);
    let ids: Vec<&str> = report.findings.iter().map(|f| f.rule_id.as_str()).collect();
    let mut sorted = ids.clone();
    sorted.sort();
    assert_eq!(ids, sorted);
    for f in &report.findings {
        assert_eq!(f.code.is_some(), f.rule_id == "R005");
    }
    let info = report.summary().get("INFO").copied().unwrap_or(0);
    let warning = report.summary().get("WARNING").copied().unwrap_or(0);
    let error = report.summary().get("ERROR").copied().unwrap_or(0);
    assert_eq!(info + warning + error, report.findings.len());
    let coded: usize = report.findings.iter().filter(|f| f.code.is_some()).count();
    assert_eq!(report.codes().get("E-RISK-MISSING"), Some(&coded));
}

#[test]
fn a_plain_line_inside_the_block_changes_nothing() {
    let original = parse(REGISTRY_BLOCK).unwrap();
    let mut lines: Vec<&str> = REGISTRY_BLOCK.lines().collect();
    lines.insert(3, "A remark inside the block.");
    let longer = lines.join("\n");
    let rows = parse(&longer).unwrap();
    assert_eq!(rows, original);
}
