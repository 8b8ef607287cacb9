use helix_eco_glove::json::JsonValue;
use helix_eco_glove::reviewer::{
    classify_risk_level, high_risk_values, Disposition, ReviewReport, Severity, StaticReviewer,
    ToolManifest, RULES_VERSION,
};
use helix_eco_glove::vocabulary::risk_vocabulary;

fn s(x: &str) -> JsonValue {
    JsonValue::String(x.to_string())
}

fn obj(members: Vec<(&str, JsonValue)>) -> JsonValue {
    JsonValue::Object(members.into_iter().map(|(k, v)| (k.to_string(), v)).collect())
}

fn valid_manifest() -> ToolManifest {
    ToolManifest {
        name: "macos.fs.read_file".to_string(),
        version: "1.0.0".to_string(),
        description: "Read a file from the filesystem and return its content".to_string(),
        parameters_schema: obj(vec![
            ("type", s("object")),
            (
                "properties",
                obj(vec![(
                    "path",
                    obj(vec![("type", s("string")), ("description", s("File path to read"))]),
                )]),
            ),
            ("required", JsonValue::Array(vec![s("path")])),
        ]),
        risk_level: "low".to_string(),
        platform: "macos".to_string(),
        host_os: vec!["macos".to_string()],
        tags: vec!["filesystem".to_string(), "read".to_string()],
    }
}

fn manifest_with(risk_level: &str) -> ToolManifest {
    let mut m = valid_manifest();
    m.risk_level = risk_level.to_string();
    m
}

fn r005_severity(risk_level: &str) -> Option<Severity> {
    let report = StaticReviewer::new().review(&manifest_with(risk_level));
    report.findings.iter().find(|f| f.rule_id == "R005").map(|f| f.severity)
}

fn r005_message(risk_level: &str) -> Option<String> {
    let report = StaticReviewer::new().review(&manifest_with(risk_level));
    report.findings.iter().find(|f| f.rule_id == "R005").map(|f| f.message.clone())
}

fn rank(s: Severity) -> u8 {
    match s {
        Severity::Info => 0,
        Severity::Warning => 1,
        Severity::Error => 2,
    }
}

fn rank_opt(s: Option<Severity>) -> u8 {
    match s {
        None => 0,
        Some(x) => rank(x),
    }
}

fn codes_of(report: &ReviewReport, code: &str) -> Option<usize> {
    report.codes().get(code).copied()
}

#[test]
fn test_valid_manifest_passes() {
    let reviewer = StaticReviewer::new();
    let report = reviewer.review(&valid_manifest());
    assert!(report.passed(), "Valid manifest should pass: {:?}", report.findings);
}

#[test]
fn test_empty_name_fails() {
    let reviewer = StaticReviewer::new();
    let mut manifest = valid_manifest();
    manifest.name = String::new();
    let report = reviewer.review(&manifest);
    assert!(!report.passed());
    assert!(report.errors().iter().any(|f| f.rule_id == "R001"));
}

#[test]
fn test_empty_description_fails() {
    let reviewer = StaticReviewer::new();
    let mut manifest = valid_manifest();
    manifest.description = String::new();
    let report = reviewer.review(&manifest);
    assert!(!report.passed());
    assert!(report.errors().iter().any(|f| f.rule_id == "R003"));
}

#[test]
fn test_invalid_risk_level_fails() {
    let reviewer = StaticReviewer::new();
    let mut manifest = valid_manifest();
    manifest.risk_level = "extreme".to_string();
    let report = reviewer.review(&manifest);
    assert!(!report.passed());
    assert!(report.errors().iter().any(|f| f.rule_id == "R005"));
}

#[test]
fn test_high_risk_requires_details() {
    let reviewer = StaticReviewer::new();
    let mut manifest = valid_manifest();
    manifest.risk_level = "critical".to_string();
    manifest.description = "short".to_string();
    let report = reviewer.review(&manifest);
    assert!(!report.passed());
    assert!(report.errors().iter().any(|f| f.rule_id == "R008"));
}

#[test]
fn test_non_namespace_name_warns() {
    let reviewer = StaticReviewer::new();
    let mut manifest = valid_manifest();
    manifest.name = "readfile".to_string();
    let report = reviewer.review(&manifest);
    assert!(report.passed());
    assert!(report.warnings().iter().any(|f| f.rule_id == "R009"));
}

#[test]
fn test_invalid_version_warns() {
    let reviewer = StaticReviewer::new();
    let mut manifest = valid_manifest();
    manifest.version = "v1".to_string();
    let report = reviewer.review(&manifest);
    assert!(report.passed());
    assert!(report.warnings().iter().any(|f| f.rule_id == "R002"));
}

#[test]
fn test_report_summary() {
    let reviewer = StaticReviewer::new();
    let report = reviewer.review(&valid_manifest());
    let summary = report.summary();
    assert_eq!(summary.get("ERROR"), None);
    assert_eq!(summary.get("WARNING"), None);
}

#[test]
fn test_batch_review() {
    let reviewer = StaticReviewer::new();
    let manifests = vec![valid_manifest(), valid_manifest()];
    let reports = reviewer.review_batch(&manifests);
    assert_eq!(reports.len(), 2);
    assert!(reports.iter().all(|r| r.passed()));
}

#[test]
fn test_no_parameters_schema_is_info() {
    let reviewer = StaticReviewer::new();
    let mut manifest = valid_manifest();
    manifest.parameters_schema = JsonValue::Null;
    let report = reviewer.review(&manifest);
    assert!(report.passed());
    assert!(report.findings.iter().any(|f| f.rule_id == "R004" && f.severity == Severity::Info));
}

#[test]
fn c3_every_registry_value_is_accepted_with_no_r005_code_change() {
    let vocabulary = risk_vocabulary();
    let values: Vec<_> = vocabulary.iter().filter(|r| r.class == "value").collect();
    assert!(!values.is_empty());
    for row in values {
        let verdict = classify_risk_level(row.value);
        assert_eq!(verdict.disposition, Disposition::Accepted, "{:?}", row.value);
        let report = StaticReviewer::new().review(&manifest_with(row.value));
        assert!(!report.findings.iter().any(|f| f.rule_id == "R005"), "{:?}", row.value);
    }
    for row in vocabulary.iter().filter(|r| r.code != "-") {
        let probe = match row.class {
            "unknown" => row.value.to_string(),
            "reserved" => format!("{}PROBE", row.value),
            "silence" => String::new(),
            _ => "definitely-not-in-the-registry".to_string(),
        };
        let verdict = classify_risk_level(&probe);
        assert_eq!(verdict.code, Some(row.code), "{:?}", row.class);
    }
}

#[test]
fn test_high_risk_set_is_derived_from_registry() {
    let derived = high_risk_values();
    let expected: Vec<&str> =
        risk_vocabulary().iter().filter(|r| r.high_risk).map(|r| r.value).collect();
    assert_eq!(derived, expected);
    assert!(derived.contains(&"critical") && derived.contains(&"catastrophic"));
    assert!(derived.contains(&"unknown"));
    assert!(!derived.contains(&"low") && !derived.contains(&"medium"));
}

#[test]
fn test_quarantine_is_countable_and_coded() {
    let reviewer = StaticReviewer::new();
    let report = reviewer.review(&manifest_with("UNKNOWN"));

    assert_eq!(report.risk_dispositions(), vec![Disposition::Quarantine]);
    assert_eq!(codes_of(&report, "W-RISK-UNKNOWN"), Some(1));
    assert_eq!(report.warnings().len(), 1);
    assert_eq!(report.errors().len(), 0);

    let report = reviewer.review(&manifest_with(""));
    assert_eq!(report.risk_dispositions(), vec![Disposition::Rejected]);
    assert_eq!(codes_of(&report, "E-RISK-MISSING"), Some(1));
}

#[test]
fn criterion_1_new_value_is_quarantined_not_dropped_not_conflated_with_silence() {
    let unknown = r005_severity("UNKNOWN").expect("a declared unknown leaves a finding");
    assert_eq!(unknown, Severity::Warning);

    let silent = r005_severity("").expect("silence leaves a finding");
    assert_ne!(Some(unknown), Some(silent));

    let um = r005_message("UNKNOWN").unwrap();
    let sm = r005_message("").unwrap();
    assert_ne!(um, sm);
    assert!(um.contains("UNKNOWN"), "{um}");
    assert!(sm.contains("unknown"), "{sm}");
}

#[test]
fn criterion_1b_reserved_segment_is_carried_not_rejected() {
    let x = r005_severity("X-PROBE").expect("a reserved value leaves a finding");
    assert_eq!(x, Severity::Warning);
    let msg = r005_message("X-PROBE").unwrap();
    assert!(msg.contains("X-PROBE"), "{msg}");
}

#[test]
fn criterion_4_empty_field_is_not_lighter_than_unknown() {
    let unknown = r005_severity("UNKNOWN").expect("unknown leaves a finding");
    let empty = r005_severity("").expect("an empty field leaves a finding");
    assert!(rank(empty) >= rank(unknown), "{empty:?} vs {unknown:?}");
}

#[test]
fn criterion_4b_uncertainty_ladder_is_monotonic() {
    let ladder: [&str; 4] = ["low", "UNKNOWN", "", "banana"];
    let ranks: Vec<(String, u8)> = ladder
        .iter()
        .map(|input| {
            let sev = r005_severity(input);
            (format!("{input:?} => {sev:?}"), rank_opt(sev))
        })
        .collect();
    for pair in ranks.windows(2) {
        assert!(pair[1].1 >= pair[0].1, "{ranks:?}");
    }
}

#[test]
fn control_out_of_registry_value_is_still_rejected() {
    assert_eq!(r005_severity("extreme"), Some(Severity::Error));
}

#[test]
fn control_registry_values_produce_no_r005_finding() {
    for v in ["low", "medium", "critical", "catastrophic", "LOW", "Medium"] {
        assert_eq!(r005_severity(v), None, "{v:?}");
    }
}

// ---------------------------------------------------------------------------
// Further cases
// ---------------------------------------------------------------------------

#[test]
fn review_is_replayable() {
    let reviewer = StaticReviewer::new();
    let first = reviewer.review(&manifest_with("UNKNOWN"));
    let again = reviewer.review(&manifest_with("UNKNOWN"));
    assert_eq!(first.findings, again.findings);
    assert_eq!(first.risk_dispositions(), again.risk_dispositions());
    assert_eq!(codes_of(&first, "W-RISK-UNKNOWN"), codes_of(&again, "W-RISK-UNKNOWN"));
}

#[test]
fn reserved_code_is_kept_on_the_finding() {
    let report = StaticReviewer::new().review(&manifest_with("X-PROBE"));
    let f = report.findings.iter().find(|f| f.rule_id == "R005").unwrap();
    assert_eq!(f.code.as_deref(), Some("W-RISK-RESERVED"));
    assert_eq!(f.field.as_deref(), Some("risk_level"));
    assert_eq!(codes_of(&report, "W-RISK-RESERVED"), Some(1));
    assert_eq!(report.risk_dispositions(), vec![Disposition::Quarantine]);
}

#[test]
fn classify_table() {
    let v = classify_risk_level("  Critical ");
    assert_eq!(v.class, "value");
    assert_eq!(v.disposition, Disposition::Accepted);
    assert_eq!(v.severity, None);
    assert_eq!(v.code, None);
    assert!(v.high_risk);
    assert_eq!(v.raw, "  Critical ");

    let v = classify_risk_level("unknown");
    assert_eq!(v.class, "unknown");
    assert_eq!(v.disposition, Disposition::Quarantine);
    assert_eq!(v.severity, Some(Severity::Warning));
    assert_eq!(v.code, Some("W-RISK-UNKNOWN"));
    assert!(v.high_risk);

    let v = classify_risk_level("   ");
    assert_eq!(v.class, "silence");
    assert_eq!(v.disposition, Disposition::Rejected);
    assert_eq!(v.severity, Some(Severity::Error));
    assert_eq!(v.code, Some("E-RISK-MISSING"));
    assert!(!v.high_risk);

    let v = classify_risk_level("x-grease");
    assert_eq!(v.class, "reserved");
    assert_eq!(v.code, Some("W-RISK-RESERVED"));

    let v = classify_risk_level("banana");
    assert_eq!(v.class, "illegal");
    assert_eq!(v.disposition, Disposition::Rejected);
    assert_eq!(v.code, Some("E-RISK-ILLEGAL"));
}

#[test]
fn disposition_ranks_and_texts() {
    assert_eq!(Disposition::Accepted.acceptance_rank(), 0);
    assert_eq!(Disposition::Quarantine.acceptance_rank(), 1);
    assert_eq!(Disposition::Rejected.acceptance_rank(), 2);
    assert_eq!(Disposition::Quarantine.to_string(), "QUARANTINE");
    assert_eq!(Severity::Warning.to_string(), "WARNING");
    assert_eq!(Severity::default(), Severity::Info);
}

#[test]
fn report_header_fields() {
    let reviewer = StaticReviewer::new();
    assert_eq!(reviewer.rules_version(), RULES_VERSION);
    let report = reviewer.review_at(&valid_manifest(), 1_700_000_000);
    assert_eq!(report.tool_name, "macos.fs.read_file");
    assert_eq!(report.tool_version, "1.0.0");
    assert_eq!(report.rules_version, "1.0.0");
    assert_eq!(report.reviewed_at, "1700000000");
    let now = reviewer.review(&valid_manifest());
    assert!(!now.reviewed_at.is_empty());
    assert!(now.reviewed_at.chars().all(|c| c.is_ascii_digit()));
}

#[test]
fn schema_shape_findings() {
    let reviewer = StaticReviewer::new();
    let mut m = valid_manifest();
    m.parameters_schema = obj(vec![("title", s("x"))]);
    let report = reviewer.review(&m);
    let r004: Vec<_> = report.findings.iter().filter(|f| f.rule_id == "R004").collect();
    assert_eq!(r004.len(), 2);
    assert!(r004.iter().all(|f| f.severity == Severity::Warning));

    m.parameters_schema = s("not an object");
    let report = reviewer.review(&m);
    assert!(!report.passed());
    assert!(report.errors().iter().any(|f| f.rule_id == "R004"));

    m.parameters_schema = obj(vec![("type", s("array")), ("items", obj(vec![]))]);
    let report = reviewer.review(&m);
    assert!(!report.findings.iter().any(|f| f.rule_id == "R004"));
}

#[test]
fn description_length_is_counted_in_characters() {
    let reviewer = StaticReviewer::new();
    let mut m = valid_manifest();
    m.description = "读取文件内容".to_string();
    let report = reviewer.review(&m);
    let r003: Vec<_> = report.findings.iter().filter(|f| f.rule_id == "R003").collect();
    assert_eq!(r003.len(), 1);
    assert_eq!(r003[0].severity, Severity::Warning);
    assert!(report.passed());
    m.description = "short".to_string();
    let report = reviewer.review(&m);
    assert!(report.warnings().iter().any(|f| f.rule_id == "R003"));
    m.description = "读取本地文件系统中的文件".to_string();
    assert!(!reviewer.review(&m).findings.iter().any(|f| f.rule_id == "R003"));
}

#[test]
fn high_risk_description_length_is_counted_in_characters() {
    let reviewer = StaticReviewer::new();
    let mut m = manifest_with("critical");
    m.description = "读取本地文件系统中的文件内容".to_string();
    let report = reviewer.review(&m);
    assert!(report.errors().iter().any(|f| f.rule_id == "R008"));
    m.description = "读取本地文件系统中的文件内容并返回其全部文本".to_string();
    assert!(!reviewer.review(&m).findings.iter().any(|f| f.rule_id == "R008"));
}

#[test]
fn platform_and_host_os_findings() {
    let reviewer = StaticReviewer::new();
    let mut m = valid_manifest();
    m.platform = String::new();
    let report = reviewer.review(&m);
    assert!(report.findings.iter().any(|f| f.rule_id == "R006" && f.severity == Severity::Info));
    m.platform = "Cloud".to_string();
    assert!(!reviewer.review(&m).findings.iter().any(|f| f.rule_id == "R006"));
    m.platform = "mars".to_string();
    assert!(reviewer.review(&m).warnings().iter().any(|f| f.rule_id == "R006"));

    m.platform = "macos".to_string();
    m.host_os = vec!["macos".to_string(), "beos".to_string(), "FreeBSD".to_string(), "plan9".to_string()];
    let report = reviewer.review(&m);
    let r007: Vec<_> = report.findings.iter().filter(|f| f.rule_id == "R007").collect();
    assert_eq!(r007.len(), 2);
    assert!(r007[0].message.contains("beos"));
    assert!(r007[1].message.contains("plan9"));
}

#[test]
fn semver_shapes() {
    let reviewer = StaticReviewer::new();
    for (v, ok) in [("1.2.3", true), ("0.0.0", true), ("1.2", false), ("1.2.x", false), ("", false), ("1.2.3.4", false)] {
        let mut m = valid_manifest();
        m.version = v.to_string();
        let report = reviewer.review(&m);
        assert_eq!(!report.findings.iter().any(|f| f.rule_id == "R002"), ok, "{v:?}");
    }
}

#[test]
fn high_risk_without_schema_is_an_error() {
    let reviewer = StaticReviewer::new();
    let mut m = manifest_with("catastrophic");
    m.parameters_schema = JsonValue::Null;
    let report = reviewer.review(&m);
    let r008: Vec<_> = report.errors().into_iter().filter(|f| f.rule_id == "R008").collect();
    assert_eq!(r008.len(), 1);
    assert_eq!(r008[0].field.as_deref(), Some("parameters_schema"));
    let summary = report.summary();
    assert_eq!(summary.get("ERROR"), Some(&1));
    assert_eq!(summary.get("INFO"), Some(&1));
}

#[test]
fn illegal_value_suggestion_lists_known_values() {
    let report = StaticReviewer::new().review(&manifest_with("banana"));
    let f = report.findings.iter().find(|f| f.rule_id == "R005").unwrap();
    let suggestion = f.suggestion.clone().unwrap();
    assert!(suggestion.contains("low / medium / critical / catastrophic"), "{suggestion}");
    assert!(suggestion.contains("banana"));
    assert_eq!(codes_of(&report, "E-RISK-ILLEGAL"), Some(1));
}
