//! L1 static review of tool manifests.
//!
//! Nine rules (R001–R009) check a manifest's format, risk level, parameter
//! schema and platform data. R005 classifies the declared risk level against
//! the registry vocabulary: a known value is accepted, a declared `unknown`
//! or a reserved probe is quarantined, silence and values outside the
//! vocabulary are rejected — and silence is never treated more leniently than
//! a declared `unknown`.
use vstd::prelude::*;
use vstd::hash_map::StringHashMap;
use crate::json::{JsonValue, JsonView, has_member};
use crate::registry_parse::{RowView, first_of_class, first_of_class_from, vocabulary_wf, lemma_first_of_class_found, class_count};
use crate::text::{
    all_ascii, append_chars, append_str, ascii_lowercase, chars_eq, chars_of, decimal, has_prefix,
    lowercase_of, parse_u32, parses_as_u32, split_chars, split_seq, starts_with_chars, string_of,
    to_lowercase, trim_chars, trim_seq, decimal_chars,
};
use crate::vocabulary::{RiskVocabRow, registry_vocabulary, risk_vocabulary, vocab_view, lemma_registry_vocabulary_wf};

verus! {

// ============================================================================
// Verdict types
// ============================================================================

/// Severity of a review finding.
#[derive(Debug, Clone, Copy, PartialEq, Eq, Structural)]
pub enum Severity {
    /// Informational, does not block.
    Info,
    /// Warning, does not block but should be fixed.
    Warning,
    /// Error, blocks.
    Error,
}

/// The display text of a severity.
pub open spec fn severity_text(s: Severity) -> Seq<char> {
    match s {
        Severity::Info => "INFO"@,
        Severity::Warning => "WARNING"@,
        Severity::Error => "ERROR"@,
    }
}

impl Severity {
    /// The display text: `INFO`, `WARNING` or `ERROR`.
    pub fn to_string(&self) -> (r: String)
        ensures
            r@ == severity_text(*self),
    {
        match self {
            Severity::Info => string_of(&chars_of("INFO")),
            Severity::Warning => string_of(&chars_of("WARNING")),
            Severity::Error => string_of(&chars_of("ERROR")),
        }
    }
}

impl Default for Severity {
    fn default() -> (r: Severity)
        ensures
            r == Severity::Info,
    {
        Severity::Info
    }
}

/// The outcome for a risk value: accepted, quarantined for manual inspection
/// (`staging/`), or rejected (`rejected/`, which also keeps the manifest).
#[derive(Debug, Clone, Copy, PartialEq, Eq, Structural)]
pub enum Disposition {
    /// The value is a known level of the vocabulary.
    Accepted,
    /// Quarantined for manual inspection.
    Quarantine,
    /// Rejected.
    Rejected,
}

/// Acceptance order: the smaller, the more lenient.
pub open spec fn rank_of(d: Disposition) -> u8 {
    match d {
        Disposition::Accepted => 0,
        Disposition::Quarantine => 1,
        Disposition::Rejected => 2,
    }
}

/// The display text of a disposition.
pub open spec fn disposition_text(d: Disposition) -> Seq<char> {
    match d {
        Disposition::Accepted => "ACCEPTED"@,
        Disposition::Quarantine => "QUARANTINE"@,
        Disposition::Rejected => "REJECTED"@,
    }
}

impl Disposition {
    /// Acceptance rank: `Accepted` 0 < `Quarantine` 1 < `Rejected` 2.
    pub fn acceptance_rank(&self) -> (r: u8)
        ensures
            r == rank_of(*self),
    {
        match self {
            Disposition::Accepted => 0,
            Disposition::Quarantine => 1,
            Disposition::Rejected => 2,
        }
    }

    /// The display text: `ACCEPTED`, `QUARANTINE` or `REJECTED`.
    pub fn to_string(&self) -> (r: String)
        ensures
            r@ == disposition_text(*self),
    {
        match self {
            Disposition::Accepted => string_of(&chars_of("ACCEPTED")),
            Disposition::Quarantine => string_of(&chars_of("QUARANTINE")),
            Disposition::Rejected => string_of(&chars_of("REJECTED")),
        }
    }
}

/// The complete verdict on one `risk_level` input: the class it falls in,
/// the disposition, and the raw input carried unchanged.
#[derive(Debug, Clone, PartialEq, Eq)]
pub struct RiskVerdict {
    /// The input, unchanged.
    pub raw: String,
    /// The registry class: `value` / `unknown` / `silence` / `illegal` / `reserved`.
    pub class: &'static str,
    /// The disposition.
    pub disposition: Disposition,
    /// The severity of the finding it produces (`None` when accepted).
    pub severity: Option<Severity>,
    /// The registry diagnostic code (`None` when accepted).
    pub code: Option<&'static str>,
    /// The registry's deterministic consequence.
    pub consequence: &'static str,
    /// Whether the value requires the high-risk details of R008.
    pub high_risk: bool,
}

/// The mathematical content of a [`RiskVerdict`].
pub struct VerdictView {
    pub raw: Seq<char>,
    pub class: Seq<char>,
    pub disposition: Disposition,
    pub severity: Option<Severity>,
    pub code: Option<Seq<char>>,
    pub consequence: Seq<char>,
    pub high_risk: bool,
}

impl View for RiskVerdict {
    type V = VerdictView;

    open spec fn view(&self) -> VerdictView {
        VerdictView {
            raw: self.raw@,
            class: self.class@,
            disposition: self.disposition,
            severity: self.severity,
            code: match self.code {
                Some(c) => Some(c@),
                None => None,
            },
            consequence: self.consequence@,
            high_risk: self.high_risk,
        }
    }
}

// ============================================================================
// Classification (specification)
// ============================================================================

/// The lower-cased form of `s` as `str::to_lowercase` gives it: the ASCII
/// mapping on ASCII text, the named result otherwise.
pub open spec fn str_lower(s: Seq<char>) -> Seq<char> {
    if all_ascii(s) {
        ascii_lowercase(s)
    } else {
        lowercase_of(s)
    }
}

/// The text R005 compares: trimmed, then lower-cased.
pub open spec fn risk_probe(raw: Seq<char>) -> Seq<char> {
    str_lower(trim_seq(raw))
}

/// The first row at or after `i` of class `class` whose lower-cased value is `probe`.
pub open spec fn matching_row_from(v: Seq<RowView>, class: Seq<char>, probe: Seq<char>, i: int) -> int
    decreases v.len() - i,
{
    if i < 0 || i >= v.len() {
        v.len() as int
    } else if v[i].class == class && str_lower(v[i].value) == probe {
        i
    } else {
        matching_row_from(v, class, probe, i + 1)
    }
}

/// The first row of class `class` whose lower-cased value is `probe` (or `v.len()`).
pub open spec fn matching_row(v: Seq<RowView>, class: Seq<char>, probe: Seq<char>) -> int {
    matching_row_from(v, class, probe, 0)
}

/// The row R005 lands on for `probe`: silence for an empty probe, then the
/// first matching `value` row, then the `unknown` row, then the reserved
/// prefix, and the `illegal` row for everything else.
pub open spec fn verdict_row(v: Seq<RowView>, probe: Seq<char>) -> int {
    let reserved = first_of_class(v, "reserved"@);
    if probe.len() == 0 {
        first_of_class(v, "silence"@)
    } else if matching_row(v, "value"@, probe) < v.len() {
        matching_row(v, "value"@, probe)
    } else if matching_row(v, "unknown"@, probe) < v.len() {
        matching_row(v, "unknown"@, probe)
    } else if v[reserved].value.len() > 0 && has_prefix(probe, str_lower(v[reserved].value)) {
        reserved
    } else {
        first_of_class(v, "illegal"@)
    }
}

/// The disposition of a class.
pub open spec fn disposition_of_class(class: Seq<char>) -> Disposition {
    if class == "value"@ {
        Disposition::Accepted
    } else if class == "unknown"@ || class == "reserved"@ {
        Disposition::Quarantine
    } else {
        Disposition::Rejected
    }
}

/// The severity of a disposition's finding.
pub open spec fn severity_of(d: Disposition) -> Option<Severity> {
    match d {
        Disposition::Accepted => None,
        Disposition::Quarantine => Some(Severity::Warning),
        Disposition::Rejected => Some(Severity::Error),
    }
}

/// The verdict on `raw` whose probe is `probe`, against vocabulary `v`.
pub open spec fn verdict_of(v: Seq<RowView>, raw: Seq<char>, probe: Seq<char>) -> VerdictView {
    let row = v[verdict_row(v, probe)];
    let d = disposition_of_class(row.class);
    VerdictView {
        raw,
        class: row.class,
        disposition: d,
        severity: severity_of(d),
        code: if d == Disposition::Accepted {
            None
        } else {
            Some(row.code)
        },
        consequence: row.consequence,
        high_risk: row.high_risk,
    }
}

/// The verdict R005 gives on `raw`.
pub open spec fn risk_verdict(raw: Seq<char>) -> VerdictView {
    verdict_of(registry_vocabulary(), raw, risk_probe(raw))
}

// ============================================================================
// Classification (implementation)
// ============================================================================

/// Lower-cases `s` (as `str::to_lowercase`).
fn lower_chars(s: &Vec<char>) -> (r: Vec<char>)
    ensures
        r@ == str_lower(s@),
        s@.len() > 0 ==> r@.len() > 0,
{
    let st = string_of(s);
    let l = to_lowercase(st.as_str());
    chars_of(l.as_str())
}

fn eq_lit(v: &Vec<char>, s: &str) -> (r: bool)
    ensures
        r == (v@ == s@),
{
    let l = chars_of(s);
    chars_eq(v, &l)
}

/// `matching_row_from` finds the first matching row at or after `i`.
pub proof fn lemma_matching_row_from(v: Seq<RowView>, class: Seq<char>, probe: Seq<char>, i: int)
    requires
        0 <= i <= v.len(),
    ensures
        i <= matching_row_from(v, class, probe, i) <= v.len(),
        matching_row_from(v, class, probe, i) < v.len() ==> v[matching_row_from(v, class, probe, i)].class
            == class && str_lower(v[matching_row_from(v, class, probe, i)].value) == probe,
        forall|j: int|
            i <= j < matching_row_from(v, class, probe, i) ==> !(v[j].class == class && str_lower(
                #[trigger] v[j].value,
            ) == probe),
    decreases v.len() - i,
{
    if i < v.len() && !(v[i].class == class && str_lower(v[i].value) == probe) {
        lemma_matching_row_from(v, class, probe, i + 1);
    }
}

fn matching_row_exec(vocab: &Vec<RiskVocabRow>, class: &str, probe: &Vec<char>) -> (k: usize)
    ensures
        k == matching_row(vocab_view(vocab@), class@, probe@),
{
    let ghost v = vocab_view(vocab@);
    let mut i: usize = 0;
    while i < vocab.len()
        invariant
            v == vocab_view(vocab@),
            i <= vocab.len(),
            matching_row(v, class@, probe@) == matching_row_from(v, class@, probe@, i as int),
        decreases vocab.len() - i,
    {
        let c = chars_of(vocab[i].class);
        let cl = chars_of(class);
        if chars_eq(&c, &cl) {
            let lv = lower_chars(&chars_of(vocab[i].value));
            if chars_eq(&lv, probe) {
                return i;
            }
        }
        i = i + 1;
    }
    i
}

fn first_of_class_vocab(vocab: &Vec<RiskVocabRow>, class: &str) -> (k: usize)
    ensures
        k == first_of_class(vocab_view(vocab@), class@),
{
    let ghost v = vocab_view(vocab@);
    let mut i: usize = 0;
    while i < vocab.len()
        invariant
            v == vocab_view(vocab@),
            i <= vocab.len(),
            first_of_class(v, class@) == first_of_class_from(v, class@, i as int),
        decreases vocab.len() - i,
    {
        let c = chars_of(vocab[i].class);
        let cl = chars_of(class);
        if chars_eq(&c, &cl) {
            return i;
        }
        i = i + 1;
    }
    i
}

/// The row of class `class`: the first one, in a vocabulary where the class
/// occurs (validation makes every exit class occur exactly once).
pub fn row_of_class<'a>(vocab: &'a Vec<RiskVocabRow>, class: &str) -> (r: &'a RiskVocabRow)
    requires
        class_count(vocab_view(vocab@), class@) >= 1,
    ensures
        r@ == vocab_view(vocab@)[first_of_class(vocab_view(vocab@), class@)],
        r.class@ == class@,
{
    proof {
        lemma_first_of_class_found(vocab_view(vocab@), class@);
    }
    let k = first_of_class_vocab(vocab, class);
    &vocab[k]
}

/// The verdict on `raw` whose probe (trimmed, lower-cased input) is `probe`,
/// against a validated vocabulary.
pub fn classify_in(vocab: &Vec<RiskVocabRow>, raw: &str, probe: &Vec<char>) -> (r: RiskVerdict)
    requires
        vocabulary_wf(vocab_view(vocab@)),
    ensures
        r@ == verdict_of(vocab_view(vocab@), raw@, probe@),
{
    let ghost v = vocab_view(vocab@);
    proof {
        lemma_first_of_class_found(v, "silence"@);
        lemma_first_of_class_found(v, "reserved"@);
        lemma_first_of_class_found(v, "illegal"@);
        lemma_matching_row_from(v, "value"@, probe@, 0);
        lemma_matching_row_from(v, "unknown"@, probe@, 0);
    }
    let k: usize = if probe.len() == 0 {
        first_of_class_vocab(vocab, "silence")
    } else {
        let mv = matching_row_exec(vocab, "value", probe);
        if mv < vocab.len() {
            mv
        } else {
            let mu = matching_row_exec(vocab, "unknown", probe);
            if mu < vocab.len() {
                mu
            } else {
                let reserved = first_of_class_vocab(vocab, "reserved");
                let rv = chars_of(vocab[reserved].value);
                let lowered = lower_chars(&rv);
                if rv.len() > 0 && starts_with_chars(probe, &lowered) {
                    reserved
                } else {
                    first_of_class_vocab(vocab, "illegal")
                }
            }
        }
    };
    let row = vocab[k];
    let class_chars = chars_of(row.class);
    let disposition = if eq_lit(&class_chars, "value") {
        Disposition::Accepted
    } else if eq_lit(&class_chars, "unknown") || eq_lit(&class_chars, "reserved") {
        Disposition::Quarantine
    } else {
        Disposition::Rejected
    };
    let (severity, code) = match disposition {
        Disposition::Accepted => (None, None),
        Disposition::Quarantine => (Some(Severity::Warning), Some(row.code)),
        Disposition::Rejected => (Some(Severity::Error), Some(row.code)),
    };
    RiskVerdict {
        raw: string_of(&chars_of(raw)),
        class: row.class,
        disposition,
        severity,
        code,
        consequence: row.consequence,
        high_risk: row.high_risk,
    }
}

/// The R005 verdict on `raw` once its probe is known: `probe` is the trimmed,
/// lower-cased input.
pub fn classify_probe(raw: &str, probe: &str) -> (r: RiskVerdict)
    ensures
        r@ == verdict_of(registry_vocabulary(), raw@, probe@),
{
    let vocab = risk_vocabulary();
    proof {
        lemma_registry_vocabulary_wf();
    }
    classify_in(&vocab, raw, &chars_of(probe))
}

/// Classifies a `risk_level` input by the registry vocabulary (§1.2): the
/// input is trimmed and lower-cased; empty is silence (rejected), a
/// vocabulary value is accepted, `unknown` and the reserved prefix are
/// quarantined, anything else is illegal (rejected).
pub fn classify_risk_level(raw: &str) -> (r: RiskVerdict)
    ensures
        r@ == risk_verdict(raw@),
        r@.class == "silence"@ <==> trim_seq(raw@).len() == 0,
{
    let trimmed = trim_chars(&chars_of(raw));
    let probe = lower_chars(&trimmed);
    proof {
        crate::risk_laws::law_r005_table(raw@);
        reveal_strlit("silence");
        reveal_strlit("value");
        reveal_strlit("unknown");
        reveal_strlit("reserved");
        reveal_strlit("illegal");
        assert("value"@[0] != "silence"@[0]);
        assert("unknown"@[0] != "silence"@[0]);
        assert("reserved"@[0] != "silence"@[0]);
        assert("illegal"@[0] != "silence"@[0]);
    }
    let probe_text = string_of(&probe);
    classify_probe(raw, probe_text.as_str())
}

/// The values whose rows ask for the high-risk details of R008.
pub open spec fn high_risk_values_spec(v: Seq<RowView>) -> Seq<Seq<char>>
    decreases v.len(),
{
    if v.len() == 0 {
        Seq::empty()
    } else if v.last().high_risk {
        high_risk_values_spec(v.drop_last()).push(v.last().value)
    } else {
        high_risk_values_spec(v.drop_last())
    }
}

/// The values that require the high-risk details of R008, in registry order
/// (derived from the vocabulary's `high_risk` column).
pub fn high_risk_values() -> (r: Vec<&'static str>)
    ensures
        r@.map_values(|s: &'static str| s@) == high_risk_values_spec(registry_vocabulary()),
{
    let vocab = risk_vocabulary();
    let ghost v = vocab_view(vocab@);
    let mut r: Vec<&'static str> = Vec::new();
    let mut i: usize = 0;
    assert(v.take(0) =~= Seq::<RowView>::empty());
    assert(r@.map_values(|s: &'static str| s@) =~= Seq::<Seq<char>>::empty());
    while i < vocab.len()
        invariant
            v == vocab_view(vocab@),
            i <= vocab.len(),
            r@.map_values(|s: &'static str| s@) == high_risk_values_spec(v.take(i as int)),
        decreases vocab.len() - i,
    {
        assert(v.take(i + 1).drop_last() =~= v.take(i as int));
        if vocab[i].high_risk {
            let ghost before = r@.map_values(|s: &'static str| s@);
            r.push(vocab[i].value);
            assert(r@.map_values(|s: &'static str| s@) =~= before.push(vocab[i as int].value@));
        }
        i = i + 1;
    }
    assert(v.take(vocab.len() as int) =~= v);
    r
}

// ============================================================================
// Findings and reports
// ============================================================================

/// One review finding.
#[derive(Debug, Clone, PartialEq, Eq)]
pub struct ReviewFinding {
    /// Rule id (such as `R001`).
    pub rule_id: String,
    /// Severity.
    pub severity: Severity,
    /// What was found.
    pub message: String,
    /// The registry diagnostic code; `None` for rules that have no registered code.
    pub code: Option<String>,
    /// The manifest field concerned.
    pub field: Option<String>,
    /// How to fix it.
    pub suggestion: Option<String>,
}

/// The mathematical content of a [`ReviewFinding`].
pub struct FindingView {
    pub rule_id: Seq<char>,
    pub severity: Severity,
    pub message: Seq<char>,
    pub code: Option<Seq<char>>,
    pub field: Option<Seq<char>>,
    pub suggestion: Option<Seq<char>>,
}

/// The characters of an optional string.
pub open spec fn opt_view(o: Option<String>) -> Option<Seq<char>> {
    match o {
        Some(s) => Some(s@),
        None => None,
    }
}

impl View for ReviewFinding {
    type V = FindingView;

    open spec fn view(&self) -> FindingView {
        FindingView {
            rule_id: self.rule_id@,
            severity: self.severity,
            message: self.message@,
            code: opt_view(self.code),
            field: opt_view(self.field),
            suggestion: opt_view(self.suggestion),
        }
    }
}

/// The views of a sequence of findings.
pub open spec fn findings_view(fs: Seq<ReviewFinding>) -> Seq<FindingView> {
    fs.map_values(|f: ReviewFinding| f@)
}

/// A finding on field `field`.
pub open spec fn finding(
    rule: Seq<char>,
    severity: Severity,
    message: Seq<char>,
    code: Option<Seq<char>>,
    field: Seq<char>,
    suggestion: Option<Seq<char>>,
) -> FindingView {
    FindingView { rule_id: rule, severity, message, code, field: Some(field), suggestion }
}

/// The minimal subset of a tool manifest that the review reads.
#[derive(Debug, Clone, PartialEq, Eq)]
pub struct ToolManifest {
    /// Tool name (dot namespace `<platform>.<domain>.<action>`).
    pub name: String,
    /// Tool version (SemVer).
    pub version: String,
    /// Tool description.
    pub description: String,
    /// Parameter schema (JSON Schema).
    pub parameters_schema: JsonValue,
    /// Risk level (`low` / `medium` / `critical` / `catastrophic`).
    pub risk_level: String,
    /// Platform identifier (`macos` / `linux` / `generic` …).
    pub platform: String,
    /// Supported host OSes (empty: every platform).
    pub host_os: Vec<String>,
    /// Tags.
    pub tags: Vec<String>,
}

impl Default for ToolManifest {
    /// An empty manifest: empty texts and lists, no parameter schema (`null`).
    fn default() -> (r: Self)
        ensures
            r.name@.len() == 0,
            r.version@.len() == 0,
            r.description@.len() == 0,
            r.parameters_schema@ == JsonView::Null,
            r.risk_level@.len() == 0,
            r.platform@.len() == 0,
            r.host_os@.len() == 0,
            r.tags@.len() == 0,
    {
        ToolManifest {
            name: String::new(),
            version: String::new(),
            description: String::new(),
            parameters_schema: JsonValue::Null,
            risk_level: String::new(),
            platform: String::new(),
            host_os: Vec::new(),
            tags: Vec::new(),
        }
    }
}

/// R001: the name is not empty.
pub open spec fn r001_findings(m: ToolManifest) -> Seq<FindingView> {
    if m.name@.len() == 0 {
        seq![finding("R001"@, Severity::Error, "工具名称不能为空"@, None, "name"@, Some("提供一个描述性的工具名称"@))]
    } else {
        Seq::empty()
    }
}

/// A SemVer-shaped version: three dot-separated parts, each a `u32`.
pub open spec fn version_ok(v: Seq<char>) -> bool {
    let parts = split_seq(v, '.');
    parts.len() == 3 && forall|i: int| 0 <= i < 3 ==> parses_as_u32(#[trigger] parts[i])
}

/// R002: the version is present and SemVer-shaped (warnings).
pub open spec fn r002_findings(m: ToolManifest) -> Seq<FindingView> {
    if m.version@.len() == 0 {
        seq![finding("R002"@, Severity::Warning, "工具版本为空"@, None, "version"@, Some("使用 SemVer 格式，如 1.0.0"@))]
    } else if !version_ok(m.version@) {
        seq![finding("R002"@, Severity::Warning, "版本 '"@ + m.version@ + "' 不符合 SemVer 格式"@, None, "version"@, Some("使用 X.Y.Z 格式，如 1.0.0"@))]
    } else {
        Seq::empty()
    }
}

/// R003: the description is present (error) and at least 10 characters long (warning).
pub open spec fn r003_findings(m: ToolManifest) -> Seq<FindingView> {
    if m.description@.len() == 0 {
        seq![finding("R003"@, Severity::Error, "工具描述不能为空"@, None, "description"@, Some("提供工具功能的清晰描述"@))]
    } else if m.description@.len() < 10 {
        seq![finding("R003"@, Severity::Warning, "工具描述过短（少于 10 字符）"@, None, "description"@, Some("提供更详细的功能描述"@))]
    } else {
        Seq::empty()
    }
}

/// R004: the parameter schema is absent (info), an object with `type` and
/// `properties`/`items` (warnings when missing), or malformed (error).
pub open spec fn r004_findings(m: ToolManifest) -> Seq<FindingView> {
    match m.parameters_schema@ {
        JsonView::Null => seq![finding("R004"@, Severity::Info, "工具没有参数 Schema（无参数工具）"@, None, "parameters_schema"@, None)],
        JsonView::Obj(members) => (if !has_member(members, "type"@) {
            seq![finding("R004"@, Severity::Warning, "参数 Schema 缺少 'type' 字段"@, None, "parameters_schema"@, Some("添加 \"type\": \"object\" 或其他合法类型"@))]
        } else {
            Seq::empty()
        }) + (if !has_member(members, "properties"@) && !has_member(members, "items"@) {
            seq![finding("R004"@, Severity::Warning, "参数 Schema 缺少 'properties' 或 'items' 字段"@, None, "parameters_schema"@, Some("定义参数的属性结构"@))]
        } else {
            Seq::empty()
        }),
        _ => seq![finding("R004"@, Severity::Error, "参数 Schema 不是合法的 JSON 对象"@, None, "parameters_schema"@, Some("使用 JSON Schema 格式定义参数"@))],
    }
}

/// The values of the `value` rows, in order.
pub open spec fn value_values(v: Seq<RowView>) -> Seq<Seq<char>>
    decreases v.len(),
{
    if v.len() == 0 {
        Seq::empty()
    } else if v.last().class == "value"@ {
        value_values(v.drop_last()).push(v.last().value)
    } else {
        value_values(v.drop_last())
    }
}

/// The texts of `list` joined with `sep` between them.
pub open spec fn join_with(list: Seq<Seq<char>>, sep: Seq<char>) -> Seq<char>
    decreases list.len(),
{
    if list.len() == 0 {
        Seq::empty()
    } else if list.len() == 1 {
        list[0]
    } else {
        join_with(list.drop_last(), sep) + sep + list.last()
    }
}

/// The R005 message for a verdict that produces a finding.
pub open spec fn r005_message(vd: VerdictView) -> Seq<char> {
    if vd.class == "unknown"@ {
        "风险等级 '"@ + vd.raw + "' 是**声明不知道**：已隔离待人工复核（"@ + vd.consequence + "）—— 不是拒绝，也不是沉默"@
    } else if vd.class == "silence"@ {
        "风险等级**缺失或为空**（沉默）：已拒绝（"@ + vd.consequence + "）—— 沉默不是一种声明，它比显式写 unknown 信息更少，因此不得更轻"@
    } else if vd.class == "reserved"@ {
        let v = registry_vocabulary();
        "风险等级 '"@ + vd.raw + "' 落在保留段 `"@ + v[first_of_class(v, "reserved"@)].value + "`（永不赋予语义）：已隔离（"@ + vd.consequence + "）"@
    } else {
        "风险等级 '"@ + vd.raw + "' 不在注册表词表内（"@ + vd.consequence + "）：已拒绝"@
    }
}

/// The R005 suggestion for a verdict that produces a finding.
pub open spec fn r005_suggestion(vd: VerdictView) -> Seq<char> {
    let v = registry_vocabulary();
    if vd.class == "unknown"@ {
        "人工复核后改判；或修正 manifest 后重放 review()（判定是确定性的）。注意：把字段留空/删掉不是更好的选择 —— 沉默会被拒绝。"@
    } else if vd.class == "silence"@ {
        "补上风险等级；若确实判不出，**显式写 `"@ + v[first_of_class(v, "unknown"@)].value + "`**（会被隔离复核，不会被拒）。已保留原值：'"@ + vd.raw + "'"@
    } else if vd.class == "reserved"@ {
        "保留段值是 grease 探针用的：本版本不认识它，但必须容得下它。请人工确认这是探针还是写错了。"@
    } else {
        "使用注册表 §1.2 里的值（当前已知："@ + join_with(value_values(v), " / "@) + "）；或先在 `CI-144_码注册表.md` §1.2 登记新值。已保留原值：'"@ + vd.raw + "'"@
    }
}

/// R005: the risk level's verdict, when it is not accepted.
pub open spec fn r005_findings(m: ToolManifest) -> Seq<FindingView> {
    let vd = risk_verdict(m.risk_level@);
    match vd.severity {
        None => Seq::empty(),
        Some(sev) => seq![finding("R005"@, sev, r005_message(vd), vd.code, "risk_level"@, Some(r005_suggestion(vd)))],
    }
}

/// A platform identifier the review knows.
pub open spec fn known_platform(p: Seq<char>) -> bool {
    p == "macos"@ || p == "linux"@ || p == "windows"@ || p == "harmony"@ || p == "android"@ || p == "ios"@
        || p == "robot"@ || p == "generic"@ || p == "web"@ || p == "cloud"@
}

/// A host OS identifier the review knows.
pub open spec fn known_host_os(p: Seq<char>) -> bool {
    p == "macos"@ || p == "linux"@ || p == "windows"@ || p == "ios"@ || p == "android"@ || p == "freebsd"@
}

/// R006: the platform is given (info) and known (warning), compared lower-cased.
pub open spec fn r006_findings(m: ToolManifest) -> Seq<FindingView> {
    if m.platform@.len() == 0 {
        seq![finding("R006"@, Severity::Info, "平台标识未指定（默认为通用工具）"@, None, "platform"@, None)]
    } else if !known_platform(str_lower(m.platform@)) {
        seq![finding("R006"@, Severity::Warning, "平台标识 '"@ + m.platform@ + "' 不在已知列表中"@, None, "platform"@, Some("使用已知平台标识，或确认这是新平台"@))]
    } else {
        Seq::empty()
    }
}

/// R007: one warning per unknown host OS, in list order.
pub open spec fn r007_findings(oses: Seq<String>) -> Seq<FindingView>
    decreases oses.len(),
{
    if oses.len() == 0 {
        Seq::empty()
    } else {
        r007_findings(oses.drop_last()) + if !known_host_os(str_lower(oses.last()@)) {
            seq![finding("R007"@, Severity::Warning, "host_os '"@ + oses.last()@ + "' 不在已知列表中"@, None, "host_os"@, Some("使用已知 OS 标识"@))]
        } else {
            Seq::empty()
        }
    }
}

/// R008: a high-risk level needs a description of at least 20 characters and a schema.
pub open spec fn r008_findings(m: ToolManifest) -> Seq<FindingView> {
    if !risk_verdict(m.risk_level@).high_risk {
        Seq::empty()
    } else {
        (if m.description@.len() < 20 {
            seq![finding("R008"@, Severity::Error, "高风险工具必须有详细描述（至少 20 字符）"@, None, "description"@, Some("详细说明工具的用途、风险和安全措施"@))]
        } else {
            Seq::empty()
        }) + (if m.parameters_schema@ is Null {
            seq![finding("R008"@, Severity::Error, "高风险工具必须定义参数 Schema"@, None, "parameters_schema"@, Some("定义所有输入参数的类型和约束"@))]
        } else {
            Seq::empty()
        })
    }
}

/// R009: a non-empty name follows the dot namespace (warning).
pub open spec fn r009_findings(m: ToolManifest) -> Seq<FindingView> {
    if m.name@.len() > 0 && split_seq(m.name@, '.').len() < 2 {
        seq![finding("R009"@, Severity::Warning, "工具名称 '"@ + m.name@ + "' 不符合点分命名空间规范（建议：<platform>.<domain>.<action>）"@, None, "name"@, Some("例如：macos.fs.read_file"@))]
    } else {
        Seq::empty()
    }
}

/// All findings of a review, rule by rule in the order R001, R002, R003,
/// R004, R005, R006, R007, R008, R009.
pub open spec fn review_findings(m: ToolManifest) -> Seq<FindingView> {
    r001_findings(m) + r002_findings(m) + r003_findings(m) + r004_findings(m) + r005_findings(m)
        + r006_findings(m) + r007_findings(m.host_os@) + r008_findings(m) + r009_findings(m)
}

// ============================================================================
// Rules (implementation)
// ============================================================================

fn lit(s: &str) -> (r: Vec<char>)
    ensures
        r@ == s@,
{
    chars_of(s)
}

fn opt_string(o: Option<Vec<char>>) -> (r: Option<String>)
    ensures
        opt_view(r) == match o {
            Some(v) => Some(v@),
            None => None::<Seq<char>>,
        },
{
    match o {
        Some(v) => Some(string_of(&v)),
        None => None,
    }
}

fn make_finding(
    rule: &str,
    severity: Severity,
    message: Vec<char>,
    code: Option<Vec<char>>,
    field: &str,
    suggestion: Option<Vec<char>>,
) -> (f: ReviewFinding)
    ensures
        f@ == finding(
            rule@,
            severity,
            message@,
            match code {
                Some(v) => Some(v@),
                None => None,
            },
            field@,
            match suggestion {
                Some(v) => Some(v@),
                None => None,
            },
        ),
{
    ReviewFinding {
        rule_id: string_of(&lit(rule)),
        severity,
        message: string_of(&message),
        code: opt_string(code),
        field: Some(string_of(&lit(field))),
        suggestion: opt_string(suggestion),
    }
}

fn push_finding(findings: &mut Vec<ReviewFinding>, f: ReviewFinding)
    ensures
        findings_view(final(findings)@) == findings_view(old(findings)@).push(f@),
{
    let ghost before = findings_view(findings@);
    findings.push(f);
    assert(findings_view(findings@) =~= before.push(f@));
}

/// The number of characters of a string.
fn char_count(s: &String) -> (n: usize)
    ensures
        n == s@.len(),
{
    chars_of(s.as_str()).len()
}

fn is_known_platform(p: &Vec<char>) -> (r: bool)
    ensures
        r == known_platform(p@),
{
    eq_lit(p, "macos") || eq_lit(p, "linux") || eq_lit(p, "windows") || eq_lit(p, "harmony")
        || eq_lit(p, "android") || eq_lit(p, "ios") || eq_lit(p, "robot") || eq_lit(p, "generic")
        || eq_lit(p, "web") || eq_lit(p, "cloud")
}

fn is_known_host_os(p: &Vec<char>) -> (r: bool)
    ensures
        r == known_host_os(p@),
{
    eq_lit(p, "macos") || eq_lit(p, "linux") || eq_lit(p, "windows") || eq_lit(p, "ios")
        || eq_lit(p, "android") || eq_lit(p, "freebsd")
}

fn value_values_exec(vocab: &Vec<RiskVocabRow>) -> (r: Vec<&'static str>)
    ensures
        r@.map_values(|x: &'static str| x@) == value_values(vocab_view(vocab@)),
{
    let ghost v = vocab_view(vocab@);
    let mut out: Vec<&'static str> = Vec::new();
    let mut i: usize = 0;
    assert(v.take(0) =~= Seq::<RowView>::empty());
    assert(out@.map_values(|x: &'static str| x@) =~= Seq::<Seq<char>>::empty());
    while i < vocab.len()
        invariant
            v == vocab_view(vocab@),
            i <= vocab.len(),
            out@.map_values(|x: &'static str| x@) == value_values(v.take(i as int)),
        decreases vocab.len() - i,
    {
        assert(v.take(i + 1).drop_last() =~= v.take(i as int));
        let class = chars_of(vocab[i].class);
        if eq_lit(&class, "value") {
            let ghost before = out@.map_values(|x: &'static str| x@);
            out.push(vocab[i].value);
            assert(out@.map_values(|x: &'static str| x@) =~= before.push(vocab[i as int].value@));
        }
        i = i + 1;
    }
    assert(v.take(vocab.len() as int) =~= v);
    out
}

fn join_exec(list: &Vec<&'static str>, sep: &str) -> (r: Vec<char>)
    ensures
        r@ == join_with(list@.map_values(|x: &'static str| x@), sep@),
{
    let ghost l = list@.map_values(|x: &'static str| x@);
    let mut out: Vec<char> = Vec::new();
    let mut i: usize = 0;
    assert(l.take(0) =~= Seq::<Seq<char>>::empty());
    while i < list.len()
        invariant
            l == list@.map_values(|x: &'static str| x@),
            i <= list.len(),
            out@ == join_with(l.take(i as int), sep@),
        decreases list.len() - i,
    {
        assert(l.take(i + 1).drop_last() =~= l.take(i as int));
        if i > 0 {
            append_str(&mut out, sep);
        }
        append_str(&mut out, list[i]);
        i = i + 1;
    }
    assert(l.take(list.len() as int) =~= l);
    out
}

fn join_values_exec(vocab: &Vec<RiskVocabRow>, sep: &str) -> (r: Vec<char>)
    ensures
        r@ == join_with(value_values(vocab_view(vocab@)), sep@),
{
    let values = value_values_exec(vocab);
    join_exec(&values, sep)
}

/// The R005 message and suggestion for a verdict that produces a finding.
fn r005_texts(vd: &RiskVerdict) -> (r: (Vec<char>, Vec<char>))
    ensures
        r.0@ == r005_message(vd@),
        r.1@ == r005_suggestion(vd@),
{
    let vocab = risk_vocabulary();
    proof {
        lemma_registry_vocabulary_wf();
        lemma_first_of_class_found(registry_vocabulary(), "unknown"@);
        lemma_first_of_class_found(registry_vocabulary(), "reserved"@);
    }
    let class = chars_of(vd.class);
    let raw = chars_of(vd.raw.as_str());
    let consequence = chars_of(vd.consequence);
    if eq_lit(&class, "unknown") {
        let mut m = lit("风险等级 '");
        append_chars(&mut m, &raw);
        append_str(&mut m, "' 是**声明不知道**：已隔离待人工复核（");
        append_chars(&mut m, &consequence);
        append_str(&mut m, "）—— 不是拒绝，也不是沉默");
        let s = lit("人工复核后改判；或修正 manifest 后重放 review()（判定是确定性的）。注意：把字段留空/删掉不是更好的选择 —— 沉默会被拒绝。");
        (m, s)
    } else if eq_lit(&class, "silence") {
        let mut m = lit("风险等级**缺失或为空**（沉默）：已拒绝（");
        append_chars(&mut m, &consequence);
        append_str(&mut m, "）—— 沉默不是一种声明，它比显式写 unknown 信息更少，因此不得更轻");
        let unknown = row_of_class(&vocab, "unknown");
        let mut s = lit("补上风险等级；若确实判不出，**显式写 `");
        append_str(&mut s, unknown.value);
        append_str(&mut s, "`**（会被隔离复核，不会被拒）。已保留原值：'");
        append_chars(&mut s, &raw);
        append_str(&mut s, "'");
        (m, s)
    } else if eq_lit(&class, "reserved") {
        let reserved = row_of_class(&vocab, "reserved");
        let mut m = lit("风险等级 '");
        append_chars(&mut m, &raw);
        append_str(&mut m, "' 落在保留段 `");
        append_str(&mut m, reserved.value);
        append_str(&mut m, "`（永不赋予语义）：已隔离（");
        append_chars(&mut m, &consequence);
        append_str(&mut m, "）");
        let s = lit("保留段值是 grease 探针用的：本版本不认识它，但必须容得下它。请人工确认这是探针还是写错了。");
        (m, s)
    } else {
        let mut m = lit("风险等级 '");
        append_chars(&mut m, &raw);
        append_str(&mut m, "' 不在注册表词表内（");
        append_chars(&mut m, &consequence);
        append_str(&mut m, "）：已拒绝");
        let mut s = lit("使用注册表 §1.2 里的值（当前已知：");
        append_chars(&mut s, &join_values_exec(&vocab, " / "));
        append_str(&mut s, "）；或先在 `CI-144_码注册表.md` §1.2 登记新值。已保留原值：'");
        append_chars(&mut s, &raw);
        append_str(&mut s, "'");
        (m, s)
    }
}

/// Whether a version text is SemVer-shaped (three dot-separated `u32` parts).
fn version_is_semver(v: &Vec<char>) -> (r: bool)
    ensures
        r == version_ok(v@),
{
    let parts = split_chars(v, '.');
    if parts.len() != 3 {
        return false;
    }
    let mut i: usize = 0;
    while i < 3
        invariant
            parts@.len() == 3,
            parts@.len() == split_seq(v@, '.').len(),
            forall|k: int| 0 <= k < parts@.len() ==> #[trigger] parts@[k]@ == split_seq(v@, '.')[k],
            i <= 3,
            forall|k: int| 0 <= k < i ==> parses_as_u32(#[trigger] split_seq(v@, '.')[k]),
        decreases 3 - i,
    {
        if parse_u32(&parts[i]).is_none() {
            assert(!parses_as_u32(split_seq(v@, '.')[i as int]));
            return false;
        }
        i = i + 1;
    }
    true
}

/// `std::time::SystemTime`, carried through opaquely.
#[verifier::external_type_specification]
#[verifier::external_body]
pub struct ExSystemTime(std::time::SystemTime);

/// `SystemTime::now`: the system clock's current reading. Nothing is stated
/// of it: it depends on the moment of the call.
#[verifier::external_body]
fn system_now() -> std::time::SystemTime {
    std::time::SystemTime::now()
}

/// `SystemTime::duration_since(UNIX_EPOCH)`: the time elapsed since the Unix
/// epoch, `None` where the clock reads earlier than the epoch. Nothing is
/// stated of the duration: the clock's reading is not a value Verus sees.
#[verifier::external_body]
fn since_unix_epoch(t: &std::time::SystemTime) -> Option<std::time::Duration> {
    t.duration_since(std::time::UNIX_EPOCH).ok()
}

/// `Duration::as_secs`: the whole seconds of a duration. Nothing is stated:
/// a `Duration` is opaque here.
#[verifier::external_body]
fn whole_seconds(d: &std::time::Duration) -> u64 {
    d.as_secs()
}

/// The current Unix time in whole seconds; 0 when the clock reads earlier
/// than the epoch.
fn unix_now_secs() -> (secs: u64) {
    let now = system_now();
    match since_unix_epoch(&now) {
        Some(d) => whole_seconds(&d),
        None => 0,
    }
}

/// The decimal text of a Unix time in seconds.
pub fn timestamp_text(secs: u64) -> (r: String)
    ensures
        r@ == decimal(secs as nat),
{
    let d = decimal_digits_u64(secs);
    string_of(&d)
}

fn decimal_digits_u64(n: u64) -> (r: Vec<char>)
    ensures
        r@ == decimal(n as nat),
    decreases n,
{
    if n < 10 {
        decimal_chars(n as usize)
    } else {
        let mut v = decimal_digits_u64(n / 10);
        let last = decimal_chars((n % 10) as usize);
        assert(last@ == decimal((n % 10) as nat));
        assert(decimal((n % 10) as nat) == seq![crate::text::digit_char((n % 10) as nat)]);
        v.push(last[0]);
        v
    }
}

/// The rules version of the L1 static audit.
pub const RULES_VERSION: &'static str = "1.0.0";

/// The L1 static auditor.
pub struct StaticReviewer {
    rules_version: String,
}

impl StaticReviewer {
    /// The auditor's rules version.
    pub closed spec fn spec_rules_version(&self) -> Seq<char> {
        self.rules_version@
    }

    /// An auditor with the current rules version.
    pub fn new() -> (r: Self)
        ensures
            r.spec_rules_version() == RULES_VERSION@,
    {
        StaticReviewer { rules_version: string_of(&chars_of(RULES_VERSION)) }
    }

    /// The rules version this auditor stamps its reports with.
    pub fn rules_version(&self) -> (r: String)
        ensures
            r@ == self.spec_rules_version(),
    {
        self.rules_version.clone()
    }

    fn check_name(&self, manifest: &ToolManifest, findings: &mut Vec<ReviewFinding>)
        ensures
            findings_view(final(findings)@) == findings_view(old(findings)@) + r001_findings(*manifest),
    {
        let ghost before = findings_view(findings@);
        if manifest.name.as_str().is_empty() {
            push_finding(
                findings,
                make_finding("R001", Severity::Error, lit("工具名称不能为空"), None, "name", Some(lit("提供一个描述性的工具名称"))),
            );
        }
        assert(findings_view(findings@) =~= before + r001_findings(*manifest));
    }

    fn check_name_namespace(&self, manifest: &ToolManifest, findings: &mut Vec<ReviewFinding>)
        ensures
            findings_view(final(findings)@) == findings_view(old(findings)@) + r009_findings(*manifest),
    {
        let ghost before = findings_view(findings@);
        let name = chars_of(manifest.name.as_str());
        if name.len() > 0 {
            let parts = split_chars(&name, '.');
            if parts.len() < 2 {
                let mut m = lit("工具名称 '");
                append_chars(&mut m, &name);
                append_str(&mut m, "' 不符合点分命名空间规范（建议：<platform>.<domain>.<action>）");
                push_finding(
                    findings,
                    make_finding("R009", Severity::Warning, m, None, "name", Some(lit("例如：macos.fs.read_file"))),
                );
            }
        }
        assert(findings_view(findings@) =~= before + r009_findings(*manifest));
    }

    fn check_version(&self, manifest: &ToolManifest, findings: &mut Vec<ReviewFinding>)
        ensures
            findings_view(final(findings)@) == findings_view(old(findings)@) + r002_findings(*manifest),
    {
        let ghost before = findings_view(findings@);
        let version = chars_of(manifest.version.as_str());
        if version.len() == 0 {
            push_finding(
                findings,
                make_finding("R002", Severity::Warning, lit("工具版本为空"), None, "version", Some(lit("使用 SemVer 格式，如 1.0.0"))),
            );
        } else if !version_is_semver(&version) {
            let mut m = lit("版本 '");
            append_chars(&mut m, &version);
            append_str(&mut m, "' 不符合 SemVer 格式");
            push_finding(
                findings,
                make_finding("R002", Severity::Warning, m, None, "version", Some(lit("使用 X.Y.Z 格式，如 1.0.0"))),
            );
        }
        assert(findings_view(findings@) =~= before + r002_findings(*manifest));
    }

    fn check_description(&self, manifest: &ToolManifest, findings: &mut Vec<ReviewFinding>)
        ensures
            findings_view(final(findings)@) == findings_view(old(findings)@) + r003_findings(*manifest),
    {
        let ghost before = findings_view(findings@);
        if manifest.description.as_str().is_empty() {
            push_finding(
                findings,
                make_finding("R003", Severity::Error, lit("工具描述不能为空"), None, "description", Some(lit("提供工具功能的清晰描述"))),
            );
        } else if char_count(&manifest.description) < 10 {
            push_finding(
                findings,
                make_finding("R003", Severity::Warning, lit("工具描述过短（少于 10 字符）"), None, "description", Some(lit("提供更详细的功能描述"))),
            );
        }
        assert(findings_view(findings@) =~= before + r003_findings(*manifest));
    }

    fn check_parameters_schema(&self, manifest: &ToolManifest, findings: &mut Vec<ReviewFinding>)
        ensures
            findings_view(final(findings)@) == findings_view(old(findings)@) + r004_findings(*manifest),
    {
        let ghost before = findings_view(findings@);
        let schema = &manifest.parameters_schema;
        if schema.is_null() {
            push_finding(
                findings,
                make_finding("R004", Severity::Info, lit("工具没有参数 Schema（无参数工具）"), None, "parameters_schema", None),
            );
            assert(findings_view(findings@) =~= before + r004_findings(*manifest));
            return;
        }
        if schema.is_object() {
            let ghost mid = findings_view(findings@);
            if !schema.contains_key("type") {
                push_finding(
                    findings,
                    make_finding("R004", Severity::Warning, lit("参数 Schema 缺少 'type' 字段"), None, "parameters_schema", Some(lit("添加 \"type\": \"object\" 或其他合法类型"))),
                );
            }
            let ghost mid2 = findings_view(findings@);
            if !schema.contains_key("properties") && !schema.contains_key("items") {
                push_finding(
                    findings,
                    make_finding("R004", Severity::Warning, lit("参数 Schema 缺少 'properties' 或 'items' 字段"), None, "parameters_schema", Some(lit("定义参数的属性结构"))),
                );
            }
            assert(findings_view(findings@) =~= before + r004_findings(*manifest));
        } else {
            push_finding(
                findings,
                make_finding("R004", Severity::Error, lit("参数 Schema 不是合法的 JSON 对象"), None, "parameters_schema", Some(lit("使用 JSON Schema 格式定义参数"))),
            );
            assert(findings_view(findings@) =~= before + r004_findings(*manifest));
        }
    }

    fn check_risk_level(&self, manifest: &ToolManifest, findings: &mut Vec<ReviewFinding>)
        ensures
            findings_view(final(findings)@) == findings_view(old(findings)@) + r005_findings(*manifest),
    {
        let ghost before = findings_view(findings@);
        let verdict = classify_risk_level(manifest.risk_level.as_str());
        match verdict.severity {
            None => {
                assert(findings_view(findings@) =~= before + r005_findings(*manifest));
            },
            Some(severity) => {
                let (message, suggestion) = r005_texts(&verdict);
                let code = match verdict.code {
                    Some(c) => Some(chars_of(c)),
                    None => None,
                };
                push_finding(
                    findings,
                    make_finding("R005", severity, message, code, "risk_level", Some(suggestion)),
                );
                assert(findings_view(findings@) =~= before + r005_findings(*manifest));
            },
        }
    }

    fn check_platform(&self, manifest: &ToolManifest, findings: &mut Vec<ReviewFinding>)
        ensures
            findings_view(final(findings)@) == findings_view(old(findings)@) + r006_findings(*manifest),
    {
        let ghost before = findings_view(findings@);
        let platform = chars_of(manifest.platform.as_str());
        if platform.len() == 0 {
            push_finding(
                findings,
                make_finding("R006", Severity::Info, lit("平台标识未指定（默认为通用工具）"), None, "platform", None),
            );
        } else if !is_known_platform(&lower_chars(&platform)) {
            let mut m = lit("平台标识 '");
            append_chars(&mut m, &platform);
            append_str(&mut m, "' 不在已知列表中");
            push_finding(
                findings,
                make_finding("R006", Severity::Warning, m, None, "platform", Some(lit("使用已知平台标识，或确认这是新平台"))),
            );
        }
        assert(findings_view(findings@) =~= before + r006_findings(*manifest));
    }

    fn check_host_os(&self, manifest: &ToolManifest, findings: &mut Vec<ReviewFinding>)
        ensures
            findings_view(final(findings)@) == findings_view(old(findings)@) + r007_findings(manifest.host_os@),
    {
        let ghost before = findings_view(findings@);
        let oses = &manifest.host_os;
        let mut i: usize = 0;
        assert(oses@.take(0) =~= Seq::<String>::empty());
        assert(findings_view(findings@) =~= before + r007_findings(oses@.take(0)));
        while i < oses.len()
            invariant
                i <= oses.len(),
                findings_view(findings@) == before + r007_findings(oses@.take(i as int)),
            decreases oses.len() - i,
        {
            assert(oses@.take(i + 1).drop_last() =~= oses@.take(i as int));
            let ghost mid = findings_view(findings@);
            let os = chars_of(oses[i].as_str());
            if !is_known_host_os(&lower_chars(&os)) {
                let mut m = lit("host_os '");
                append_chars(&mut m, &os);
                append_str(&mut m, "' 不在已知列表中");
                push_finding(
                    findings,
                    make_finding("R007", Severity::Warning, m, None, "host_os", Some(lit("使用已知 OS 标识"))),
                );
            }
            assert(findings_view(findings@) =~= before + r007_findings(oses@.take(i + 1)));
            i = i + 1;
        }
        assert(oses@.take(oses.len() as int) =~= oses@);
    }

    fn check_high_risk_details(&self, manifest: &ToolManifest, findings: &mut Vec<ReviewFinding>)
        ensures
            findings_view(final(findings)@) == findings_view(old(findings)@) + r008_findings(*manifest),
    {
        let ghost before = findings_view(findings@);
        let verdict = classify_risk_level(manifest.risk_level.as_str());
        if !verdict.high_risk {
            assert(findings_view(findings@) =~= before + r008_findings(*manifest));
            return;
        }
        if char_count(&manifest.description) < 20 {
            push_finding(
                findings,
                make_finding("R008", Severity::Error, lit("高风险工具必须有详细描述（至少 20 字符）"), None, "description", Some(lit("详细说明工具的用途、风险和安全措施"))),
            );
        }
        if manifest.parameters_schema.is_null() {
            push_finding(
                findings,
                make_finding("R008", Severity::Error, lit("高风险工具必须定义参数 Schema"), None, "parameters_schema", Some(lit("定义所有输入参数的类型和约束"))),
            );
        }
        assert(findings_view(findings@) =~= before + r008_findings(*manifest));
    }

    /// Reviews a manifest with all nine rules, in rule order, at Unix time
    /// `now_secs`: the report carries the manifest's name and version, the
    /// rules version, the findings and `now_secs` in decimal.
    pub fn review_at(&self, manifest: &ToolManifest, now_secs: u64) -> (r: ReviewReport)
        ensures
            r.tool_name@ == manifest.name@,
            r.tool_version@ == manifest.version@,
            r.rules_version@ == self.spec_rules_version(),
            findings_view(r.findings@) == review_findings(*manifest),
            r.reviewed_at@ == decimal(now_secs as nat),
    {
        let mut findings: Vec<ReviewFinding> = Vec::new();
        assert(findings_view(findings@) =~= Seq::<FindingView>::empty());
        self.check_name(manifest, &mut findings);
        self.check_version(manifest, &mut findings);
        self.check_description(manifest, &mut findings);
        self.check_parameters_schema(manifest, &mut findings);
        self.check_risk_level(manifest, &mut findings);
        self.check_platform(manifest, &mut findings);
        self.check_host_os(manifest, &mut findings);
        self.check_high_risk_details(manifest, &mut findings);
        self.check_name_namespace(manifest, &mut findings);
        assert(findings_view(findings@) =~= review_findings(*manifest));
        ReviewReport {
            tool_name: manifest.name.clone(),
            tool_version: manifest.version.clone(),
            rules_version: self.rules_version.clone(),
            findings,
            reviewed_at: timestamp_text(now_secs),
        }
    }

    /// Reviews a manifest with all nine rules, in rule order, stamped with
    /// the current Unix time (see [`StaticReviewer::review_at`]).
    pub fn review(&self, manifest: &ToolManifest) -> (r: ReviewReport)
        ensures
            r.tool_name@ == manifest.name@,
            r.tool_version@ == manifest.version@,
            r.rules_version@ == self.spec_rules_version(),
            findings_view(r.findings@) == review_findings(*manifest),
            exists|secs: u64| r.reviewed_at@ == decimal(secs as nat),
    {
        let now = unix_now_secs();
        self.review_at(manifest, now)
    }

    /// Reviews several manifests, one report per manifest, in order.
    pub fn review_batch(&self, manifests: &[ToolManifest]) -> (r: Vec<ReviewReport>)
        ensures
            r@.len() == manifests@.len(),
            forall|i: int| 0 <= i < r@.len() ==> {
                &&& (#[trigger] r@[i]).tool_name@ == manifests@[i].name@
                &&& r@[i].tool_version@ == manifests@[i].version@
                &&& r@[i].rules_version@ == self.spec_rules_version()
                &&& findings_view(r@[i].findings@) == review_findings(manifests@[i])
            },
    {
        let mut out: Vec<ReviewReport> = Vec::new();
        let mut i: usize = 0;
        while i < manifests.len()
            invariant
                i <= manifests@.len(),
                out@.len() == i,
                forall|k: int| 0 <= k < i ==> {
                    &&& (#[trigger] out@[k]).tool_name@ == manifests@[k].name@
                    &&& out@[k].tool_version@ == manifests@[k].version@
                    &&& out@[k].rules_version@ == self.spec_rules_version()
                    &&& findings_view(out@[k].findings@) == review_findings(manifests@[k])
                },
            decreases manifests.len() - i,
        {
            let report = self.review(&manifests[i]);
            out.push(report);
            i = i + 1;
        }
        out
    }
}

impl Default for StaticReviewer {
    fn default() -> (r: Self)
        ensures
            r.spec_rules_version() == RULES_VERSION@,
    {
        Self::new()
    }
}

/// A review report.
#[derive(Debug, Clone)]
pub struct ReviewReport {
    /// Name of the reviewed tool.
    pub tool_name: String,
    /// Version of the reviewed tool.
    pub tool_version: String,
    /// Rules version of the auditor.
    pub rules_version: String,
    /// The findings, in rule order.
    pub findings: Vec<ReviewFinding>,
    /// Review time (Unix seconds).
    pub reviewed_at: String,
}

/// Some finding is an error.
pub open spec fn has_error(fs: Seq<FindingView>) -> bool {
    exists|i: int| 0 <= i < fs.len() && (#[trigger] fs[i]).severity == Severity::Error
}

/// The findings of severity `sev`, in order.
pub open spec fn of_severity(fs: Seq<FindingView>, sev: Severity) -> Seq<FindingView>
    decreases fs.len(),
{
    if fs.len() == 0 {
        Seq::empty()
    } else if fs.last().severity == sev {
        of_severity(fs.drop_last(), sev).push(fs.last())
    } else {
        of_severity(fs.drop_last(), sev)
    }
}

/// The number of findings per registry code (findings without a code are not counted).
pub open spec fn code_counts(fs: Seq<FindingView>) -> Map<Seq<char>, usize>
    decreases fs.len(),
{
    if fs.len() == 0 {
        Map::empty()
    } else {
        let m = code_counts(fs.drop_last());
        match fs.last().code {
            Some(c) => m.insert(
                c,
                (if m.contains_key(c) {
                    m[c] + 1
                } else {
                    1
                }) as usize,
            ),
            None => m,
        }
    }
}

/// The number of findings per severity text (`INFO` / `WARNING` / `ERROR`).
pub open spec fn severity_counts(fs: Seq<FindingView>) -> Map<Seq<char>, usize>
    decreases fs.len(),
{
    if fs.len() == 0 {
        Map::empty()
    } else {
        let m = severity_counts(fs.drop_last());
        let k = severity_text(fs.last().severity);
        m.insert(
            k,
            (if m.contains_key(k) {
                m[k] + 1
            } else {
                1
            }) as usize,
        )
    }
}

/// The disposition an R005 finding's severity stands for.
pub open spec fn disposition_of_severity(s: Severity) -> Disposition {
    match s {
        Severity::Warning => Disposition::Quarantine,
        Severity::Error => Disposition::Rejected,
        Severity::Info => Disposition::Accepted,
    }
}

/// The dispositions of the R005 findings, in order.
pub open spec fn r005_dispositions(fs: Seq<FindingView>) -> Seq<Disposition>
    decreases fs.len(),
{
    if fs.len() == 0 {
        Seq::empty()
    } else if fs.last().rule_id == "R005"@ {
        r005_dispositions(fs.drop_last()).push(disposition_of_severity(fs.last().severity))
    } else {
        r005_dispositions(fs.drop_last())
    }
}

proof fn lemma_code_counts_bounded(fs: Seq<FindingView>)
    requires
        fs.len() <= usize::MAX,
    ensures
        forall|c: Seq<char>| #[trigger] code_counts(fs).contains_key(c) ==> code_counts(fs)[c] <= fs.len(),
    decreases fs.len(),
{
    if fs.len() > 0 {
        let p = fs.drop_last();
        lemma_code_counts_bounded(p);
        let m = code_counts(p);
        assert forall|c: Seq<char>| #[trigger] code_counts(fs).contains_key(c) implies code_counts(fs)[c] <= fs.len() by {
            if m.contains_key(c) {
                assert(m[c] <= p.len());
            }
        }
    }
}

proof fn lemma_severity_counts_bounded(fs: Seq<FindingView>)
    requires
        fs.len() <= usize::MAX,
    ensures
        forall|c: Seq<char>| #[trigger] severity_counts(fs).contains_key(c) ==> severity_counts(fs)[c] <= fs.len(),
    decreases fs.len(),
{
    if fs.len() > 0 {
        let p = fs.drop_last();
        lemma_severity_counts_bounded(p);
        let m = severity_counts(p);
        assert forall|c: Seq<char>| #[trigger] severity_counts(fs).contains_key(c) implies severity_counts(fs)[c] <= fs.len() by {
            if m.contains_key(c) {
                assert(m[c] <= p.len());
            }
        }
    }
}

impl Default for ReviewReport {
    /// An empty report: no name, version, rules version, findings or time.
    fn default() -> (r: Self)
        ensures
            r.tool_name@.len() == 0,
            r.tool_version@.len() == 0,
            r.rules_version@.len() == 0,
            r.findings@.len() == 0,
            r.reviewed_at@.len() == 0,
    {
        ReviewReport {
            tool_name: String::new(),
            tool_version: String::new(),
            rules_version: String::new(),
            findings: Vec::new(),
            reviewed_at: String::new(),
        }
    }
}

impl ReviewReport {
    /// Passed: no finding is an error.
    pub fn passed(&self) -> (r: bool)
        ensures
            r == !has_error(findings_view(self.findings@)),
    {
        let ghost fv = findings_view(self.findings@);
        let mut i: usize = 0;
        while i < self.findings.len()
            invariant
                fv == findings_view(self.findings@),
                i <= self.findings.len(),
                forall|k: int| 0 <= k < i ==> (#[trigger] fv[k]).severity != Severity::Error,
            decreases self.findings.len() - i,
        {
            if self.findings[i].severity == Severity::Error {
                assert(fv[i as int].severity == Severity::Error);
                return false;
            }
            i = i + 1;
        }
        true
    }

    fn with_severity(&self, sev: Severity) -> (r: Vec<&ReviewFinding>)
        ensures
            r@.map_values(|f: &ReviewFinding| f@) == of_severity(findings_view(self.findings@), sev),
    {
        let ghost fv = findings_view(self.findings@);
        let mut out: Vec<&ReviewFinding> = Vec::new();
        let mut i: usize = 0;
        assert(fv.take(0) =~= Seq::<FindingView>::empty());
        assert(out@.map_values(|f: &ReviewFinding| f@) =~= Seq::<FindingView>::empty());
        while i < self.findings.len()
            invariant
                fv == findings_view(self.findings@),
                i <= self.findings.len(),
                out@.map_values(|f: &ReviewFinding| f@) == of_severity(fv.take(i as int), sev),
            decreases self.findings.len() - i,
        {
            assert(fv.take(i + 1).drop_last() =~= fv.take(i as int));
            if self.findings[i].severity == sev {
                let ghost before = out@.map_values(|f: &ReviewFinding| f@);
                out.push(&self.findings[i]);
                assert(out@.map_values(|f: &ReviewFinding| f@) =~= before.push(fv[i as int]));
            }
            i = i + 1;
        }
        assert(fv.take(self.findings.len() as int) =~= fv);
        out
    }

    /// The error findings, in order.
    pub fn errors(&self) -> (r: Vec<&ReviewFinding>)
        ensures
            r@.map_values(|f: &ReviewFinding| f@) == of_severity(findings_view(self.findings@), Severity::Error),
    {
        self.with_severity(Severity::Error)
    }

    /// The warning findings, in order.
    pub fn warnings(&self) -> (r: Vec<&ReviewFinding>)
        ensures
            r@.map_values(|f: &ReviewFinding| f@) == of_severity(findings_view(self.findings@), Severity::Warning),
    {
        self.with_severity(Severity::Warning)
    }

    /// The number of findings per registry code.
    pub fn codes(&self) -> (r: StringHashMap<usize>)
        ensures
            r@ == code_counts(findings_view(self.findings@)),
    {
        let ghost fv = findings_view(self.findings@);
        let mut map: StringHashMap<usize> = StringHashMap::new();
        let mut i: usize = 0;
        assert(fv.take(0) =~= Seq::<FindingView>::empty());
        while i < self.findings.len()
            invariant
                fv == findings_view(self.findings@),
                i <= self.findings.len(),
                map@ == code_counts(fv.take(i as int)),
            decreases self.findings.len() - i,
        {
            assert(fv.take(i + 1).drop_last() =~= fv.take(i as int));
            proof {
                lemma_code_counts_bounded(fv.take(i as int));
            }
            match &self.findings[i].code {
                Some(code) => {
                    let n = match map.get(code.as_str()) {
                        Some(n) => *n + 1,
                        None => 1,
                    };
                    map.insert(code.clone(), n);
                },
                None => {},
            }
            i = i + 1;
        }
        assert(fv.take(self.findings.len() as int) =~= fv);
        map
    }

    /// The number of findings per severity text.
    pub fn summary(&self) -> (r: StringHashMap<usize>)
        ensures
            r@ == severity_counts(findings_view(self.findings@)),
    {
        let ghost fv = findings_view(self.findings@);
        let mut map: StringHashMap<usize> = StringHashMap::new();
        let mut i: usize = 0;
        assert(fv.take(0) =~= Seq::<FindingView>::empty());
        while i < self.findings.len()
            invariant
                fv == findings_view(self.findings@),
                i <= self.findings.len(),
                map@ == severity_counts(fv.take(i as int)),
            decreases self.findings.len() - i,
        {
            assert(fv.take(i + 1).drop_last() =~= fv.take(i as int));
            proof {
                lemma_severity_counts_bounded(fv.take(i as int));
            }
            let key = self.findings[i].severity.to_string();
            let n = match map.get(key.as_str()) {
                Some(n) => *n + 1,
                None => 1,
            };
            map.insert(key, n);
            i = i + 1;
        }
        assert(fv.take(self.findings.len() as int) =~= fv);
        map
    }

    /// The dispositions of the R005 findings, in order (`Accepted` produces no
    /// finding and so never appears).
    pub fn risk_dispositions(&self) -> (r: Vec<Disposition>)
        ensures
            r@ == r005_dispositions(findings_view(self.findings@)),
    {
        let ghost fv = findings_view(self.findings@);
        let mut out: Vec<Disposition> = Vec::new();
        let mut i: usize = 0;
        assert(fv.take(0) =~= Seq::<FindingView>::empty());
        while i < self.findings.len()
            invariant
                fv == findings_view(self.findings@),
                i <= self.findings.len(),
                out@ == r005_dispositions(fv.take(i as int)),
            decreases self.findings.len() - i,
        {
            assert(fv.take(i + 1).drop_last() =~= fv.take(i as int));
            let rule = chars_of(self.findings[i].rule_id.as_str());
            if eq_lit(&rule, "R005") {
                let d = match self.findings[i].severity {
                    Severity::Warning => Disposition::Quarantine,
                    Severity::Error => Disposition::Rejected,
                    Severity::Info => Disposition::Accepted,
                };
                out.push(d);
            }
            i = i + 1;
        }
        assert(fv.take(self.findings.len() as int) =~= fv);
        out
    }
}

} // verus!
