//! The `RiskLevel` vocabulary of the CI-144 code registry (§1.2): the single
//! source of the R005 verdicts and of the R008 high-risk set.
//!
//! [`REGISTRY_BLOCK`] is the registry's machine-readable block; the rows of
//! [`risk_vocabulary`] are the rows that [`crate::registry_parse::parse`]
//! reads from it, in the same order.
use vstd::prelude::*;
use crate::registry_parse::{RowView, class_count, first_of_class, first_of_class_from, class_rank, level_rank, vocabulary_wf};
use crate::text::{has_prefix, has_suffix};

verus! {

/// The registry's §1.2 block.
pub const REGISTRY_BLOCK: &'static str = "<!-- BEGIN CI144-RISK-VOCABULARY (registry §1.2, machine-readable) -->
| value | class | code | level | 含义 | 确定性后果 | high_risk | 归属 |
|---|---|---|---|---|---|---|---|
| `low` | value | - | - | 只读操作 | 通过 | no | CI-144 |
| `medium` | value | - | - | 写操作 | 通过 | no | CI-144 |
| `critical` | value | - | - | 可能影响系统稳定性 | 通过（须附 R008 高风险细节） | yes | CI-144 |
| `catastrophic` | value | - | - | 可能造成不可逆损害 | 通过（须附 R008 高风险细节） | yes | CI-144 |
| `unknown` | unknown | W-RISK-UNKNOWN | 警告 | 显式声明判不出 | 隔离 → staging/，人工复核 | yes | CI-144 |
| - | silence | E-RISK-MISSING | 错误 | 字段缺失或为空 | 拒绝 → rejected/ | no | CI-144 |
| - | illegal | E-RISK-ILLEGAL | 错误 | 不在词表内 | 拒绝 → rejected/ | no | CI-144 |
| `X-` | reserved | W-RISK-RESERVED | 警告 | 保留段（grease 探针），永不赋予语义 | 隔离 → staging/，原样携带 | no | CI-144 |
<!-- END CI144-RISK-VOCABULARY -->
";

/// One vocabulary row, columns in registry order.
#[derive(Debug, Clone, Copy, PartialEq, Eq)]
pub struct RiskVocabRow {
    /// The level value (a prefix for `reserved`; `-` for `silence` / `illegal`).
    pub value: &'static str,
    /// `value` / `unknown` / `silence` / `illegal` / `reserved`.
    pub class: &'static str,
    /// Registry diagnostic code; `-` when the class produces no finding.
    pub code: &'static str,
    /// Diagnostic level: `警告` / `错误` / `-`.
    pub level: &'static str,
    /// Meaning (for people).
    pub meaning: &'static str,
    /// Deterministic consequence (for machines).
    pub consequence: &'static str,
    /// Whether the value requires the high-risk details of R008.
    pub high_risk: bool,
    /// Who owns the definition.
    pub owner: &'static str,
}

impl View for RiskVocabRow {
    type V = RowView;

    open spec fn view(&self) -> RowView {
        RowView {
            value: self.value@,
            class: self.class@,
            code: self.code@,
            level: self.level@,
            meaning: self.meaning@,
            consequence: self.consequence@,
            high_risk: self.high_risk,
            owner: self.owner@,
        }
    }
}

/// The views of a sequence of vocabulary rows.
pub open spec fn vocab_view(rows: Seq<RiskVocabRow>) -> Seq<RowView> {
    rows.map_values(|r: RiskVocabRow| r@)
}

pub open spec fn vrow(
    value: &'static str,
    class: &'static str,
    code: &'static str,
    level: &'static str,
    meaning: &'static str,
    consequence: &'static str,
    high_risk: bool,
) -> RowView {
    RowView {
        value: value@,
        class: class@,
        code: code@,
        level: level@,
        meaning: meaning@,
        consequence: consequence@,
        high_risk,
        owner: "CI-144"@,
    }
}

/// The vocabulary, row by row.
pub open spec fn registry_vocabulary() -> Seq<RowView> {
    seq![
        vrow("low", "value", "-", "-", "只读操作", "通过", false),
        vrow("medium", "value", "-", "-", "写操作", "通过", false),
        vrow("critical", "value", "-", "-", "可能影响系统稳定性", "通过（须附 R008 高风险细节）", true),
        vrow("catastrophic", "value", "-", "-", "可能造成不可逆损害", "通过（须附 R008 高风险细节）", true),
        vrow("unknown", "unknown", "W-RISK-UNKNOWN", "警告", "显式声明判不出", "隔离 → staging/，人工复核", true),
        vrow("-", "silence", "E-RISK-MISSING", "错误", "字段缺失或为空", "拒绝 → rejected/", false),
        vrow("-", "illegal", "E-RISK-ILLEGAL", "错误", "不在词表内", "拒绝 → rejected/", false),
        vrow("X-", "reserved", "W-RISK-RESERVED", "警告", "保留段（grease 探针），永不赋予语义", "隔离 → staging/，原样携带", false),
    ]
}

fn row(
    value: &'static str,
    class: &'static str,
    code: &'static str,
    level: &'static str,
    meaning: &'static str,
    consequence: &'static str,
    high_risk: bool,
) -> (r: RiskVocabRow)
    ensures
        r@ == vrow(value, class, code, level, meaning, consequence, high_risk),
{
    RiskVocabRow { value, class, code, level, meaning, consequence, high_risk, owner: "CI-144" }
}

/// The `RiskLevel` vocabulary, in registry order.
pub fn risk_vocabulary() -> (v: Vec<RiskVocabRow>)
    ensures
        vocab_view(v@) == registry_vocabulary(),
{
    let mut v: Vec<RiskVocabRow> = Vec::new();
    v.push(row("low", "value", "-", "-", "只读操作", "通过", false));
    v.push(row("medium", "value", "-", "-", "写操作", "通过", false));
    v.push(row("critical", "value", "-", "-", "可能影响系统稳定性", "通过（须附 R008 高风险细节）", true));
    v.push(row("catastrophic", "value", "-", "-", "可能造成不可逆损害", "通过（须附 R008 高风险细节）", true));
    v.push(row("unknown", "unknown", "W-RISK-UNKNOWN", "警告", "显式声明判不出", "隔离 → staging/，人工复核", true));
    v.push(row("-", "silence", "E-RISK-MISSING", "错误", "字段缺失或为空", "拒绝 → rejected/", false));
    v.push(row("-", "illegal", "E-RISK-ILLEGAL", "错误", "不在词表内", "拒绝 → rejected/", false));
    v.push(row("X-", "reserved", "W-RISK-RESERVED", "警告", "保留段（grease 探针），永不赋予语义", "隔离 → staging/，原样携带", false));
    assert(vocab_view(v@) =~= registry_vocabulary());
    v
}

/// The vocabulary passes the registry's structural validation.
pub proof fn lemma_registry_vocabulary_wf()
    ensures
        vocabulary_wf(registry_vocabulary()),
{
    reveal_strlit("value");
    reveal_strlit("unknown");
    reveal_strlit("silence");
    reveal_strlit("illegal");
    reveal_strlit("reserved");
    reveal_strlit("-");
    reveal_strlit("X-");
    reveal_strlit("E-");
    reveal_strlit("W-");
    reveal_strlit("警告");
    reveal_strlit("错误");
    reveal_strlit("W-RISK-UNKNOWN");
    reveal_strlit("E-RISK-MISSING");
    reveal_strlit("E-RISK-ILLEGAL");
    reveal_strlit("W-RISK-RESERVED");
    let v = registry_vocabulary();
    reveal_with_fuel(class_count, 9);
    reveal_with_fuel(first_of_class_from, 9);
    assert(v.drop_last().drop_last().drop_last().drop_last().drop_last().drop_last().drop_last().drop_last().len() == 0);
    assert(has_prefix("W-RISK-UNKNOWN"@, "W-"@)) by {
        assert("W-RISK-UNKNOWN"@.subrange(0, 2) =~= "W-"@);
    }
    assert(has_prefix("W-RISK-RESERVED"@, "W-"@)) by {
        assert("W-RISK-RESERVED"@.subrange(0, 2) =~= "W-"@);
    }
    assert(has_prefix("E-RISK-MISSING"@, "E-"@)) by {
        assert("E-RISK-MISSING"@.subrange(0, 2) =~= "E-"@);
    }
    assert(has_prefix("E-RISK-ILLEGAL"@, "E-"@)) by {
        assert("E-RISK-ILLEGAL"@.subrange(0, 2) =~= "E-"@);
    }
    assert(has_suffix("X-"@, "-"@)) by {
        assert("X-"@.subrange(1, 2) =~= "-"@);
    }
    assert forall|k: int| 0 < k <= 8 implies #[trigger] v.take(k).drop_last() == v.take(k - 1) by {
        assert(v.take(k).drop_last() =~= v.take(k - 1));
    }
    assert(v.take(8) =~= v);
    assert(v.take(0).len() == 0);
    assert("silence"@[0] != "unknown"@[0]);
    assert("illegal"@[0] != "unknown"@[0]);
    assert("illegal"@[0] != "silence"@[0]);
    assert("警告"@[0] != "错误"@[0]);
    assert("reserved"@[0] != "value"@[0]);
    assert("reserved"@[0] != "unknown"@[0]);
    assert("reserved"@[0] != "silence"@[0]);
    assert("reserved"@[0] != "illegal"@[0]);
    assert("value"@[0] != "unknown"@[0]);
    assert("value"@[0] != "silence"@[0]);
    assert("value"@[0] != "illegal"@[0]);
    lemma_counts_step(v, "value"@);
    lemma_counts_step(v, "unknown"@);
    lemma_counts_step(v, "silence"@);
    lemma_counts_step(v, "illegal"@);
    lemma_counts_step(v, "reserved"@);
    assert(level_rank("警告"@) == 1);
    assert(level_rank("错误"@) == 2);
    assert(class_count(v, "value"@) >= 1);
    assert(class_count(v, "unknown"@) == 1);
    assert(class_count(v, "silence"@) == 1);
    assert(class_count(v, "illegal"@) == 1);
    assert(class_count(v, "reserved"@) == 1);
    assert(first_of_class(v, "reserved"@) == 7);
    assert(first_of_class(v, "unknown"@) == 4);
    assert(first_of_class(v, "silence"@) == 5);
    assert(first_of_class(v, "illegal"@) == 6);
    assert(class_rank(v, "silence"@) > class_rank(v, "unknown"@));
}

proof fn lemma_counts_step(v: Seq<RowView>, c: Seq<char>)
    requires
        v.len() == 8,
        forall|k: int| 0 < k <= 8 ==> #[trigger] v.take(k).drop_last() == v.take(k - 1),
        v.take(8) == v,
    ensures
        class_count(v, c) == (if v[0].class == c { 1nat } else { 0nat }) + (if v[1].class == c { 1nat } else { 0nat }) + (if v[2].class == c { 1nat } else { 0nat }) + (if v[3].class == c { 1nat } else { 0nat }) + (if v[4].class == c { 1nat } else { 0nat }) + (if v[5].class == c { 1nat } else { 0nat }) + (if v[6].class == c { 1nat } else { 0nat }) + (if v[7].class == c { 1nat } else { 0nat }),
{
    assert(class_count(v.take(0), c) == 0);
    assert(class_count(v.take(1), c) == class_count(v.take(0), c) + (if v[0].class == c { 1nat } else { 0nat }));
    assert(class_count(v.take(2), c) == class_count(v.take(1), c) + (if v[1].class == c { 1nat } else { 0nat }));
    assert(class_count(v.take(3), c) == class_count(v.take(2), c) + (if v[2].class == c { 1nat } else { 0nat }));
    assert(class_count(v.take(4), c) == class_count(v.take(3), c) + (if v[3].class == c { 1nat } else { 0nat }));
    assert(class_count(v.take(5), c) == class_count(v.take(4), c) + (if v[4].class == c { 1nat } else { 0nat }));
    assert(class_count(v.take(6), c) == class_count(v.take(5), c) + (if v[5].class == c { 1nat } else { 0nat }));
    assert(class_count(v.take(7), c) == class_count(v.take(6), c) + (if v[6].class == c { 1nat } else { 0nat }));
    assert(class_count(v.take(8), c) == class_count(v.take(7), c) + (if v[7].class == c { 1nat } else { 0nat }));
}

} // verus!
