//! Laws of the R005 classification over the registry vocabulary.
use vstd::prelude::*;
use crate::registry_parse::{RowView, first_of_class, first_of_class_from};
use crate::json::JsonView;
use crate::reviewer::{of_severity, 
    Disposition, FindingView, Severity, ToolManifest, code_counts, has_error, r001_findings, r002_findings, r003_findings,
    r004_findings, r005_dispositions, r005_findings, r006_findings, r007_findings, r008_findings,
    r009_findings, review_findings, risk_probe, risk_verdict, str_lower, matching_row,
    matching_row_from, verdict_of, verdict_row, rank_of, lemma_matching_row_from,
};
use crate::text::{has_infix, all_ascii, ascii_lowercase, ascii_lower_char, has_prefix};
use crate::vocabulary::{registry_vocabulary, vrow};

verus! {

/// One of the four known levels of the registry.
pub open spec fn is_registry_value(p: Seq<char>) -> bool {
    p == "low"@ || p == "medium"@ || p == "critical"@ || p == "catastrophic"@
}

proof fn lemma_lower_identity(s: Seq<char>)
    requires
        forall|i: int| 0 <= i < s.len() ==> ('a' <= #[trigger] s[i] && s[i] <= 'z') || s[i] == '-',
    ensures
        str_lower(s) == s,
{
    assert(all_ascii(s));
    assert(ascii_lowercase(s) =~= s);
}

proof fn lemma_vocab_lower()
    ensures
        str_lower("low"@) == "low"@,
        str_lower("medium"@) == "medium"@,
        str_lower("critical"@) == "critical"@,
        str_lower("catastrophic"@) == "catastrophic"@,
        str_lower("unknown"@) == "unknown"@,
        str_lower("-"@) == "-"@,
        str_lower("X-"@) == "x-"@,
{
    reveal_strlit("low");
    reveal_strlit("medium");
    reveal_strlit("critical");
    reveal_strlit("catastrophic");
    reveal_strlit("unknown");
    reveal_strlit("-");
    reveal_strlit("X-");
    reveal_strlit("x-");
    lemma_lower_identity("low"@);
    lemma_lower_identity("medium"@);
    lemma_lower_identity("critical"@);
    lemma_lower_identity("catastrophic"@);
    lemma_lower_identity("unknown"@);
    lemma_lower_identity("-"@);
    assert(all_ascii("X-"@));
    assert(('X' as u32) == 88);
    assert((120u32 as char) == 'x');
    assert(ascii_lower_char('X') == 'x');
    assert(ascii_lower_char('-') == '-');
    assert(ascii_lowercase("X-"@) =~= "x-"@);
}

/// The class R005 assigns to a probe (the trimmed, lower-cased input).
pub open spec fn r005_class(p: Seq<char>) -> Seq<char> {
    if p.len() == 0 {
        "silence"@
    } else if is_registry_value(p) {
        "value"@
    } else if p == "unknown"@ {
        "unknown"@
    } else if has_prefix(p, "x-"@) {
        "reserved"@
    } else {
        "illegal"@
    }
}

/// The disposition R005 gives a probe.
pub open spec fn r005_disposition(p: Seq<char>) -> Disposition {
    if p.len() == 0 {
        Disposition::Rejected
    } else if is_registry_value(p) {
        Disposition::Accepted
    } else if p == "unknown"@ {
        Disposition::Quarantine
    } else if has_prefix(p, "x-"@) {
        Disposition::Quarantine
    } else {
        Disposition::Rejected
    }
}

/// The registry code R005 attaches to a probe's finding.
pub open spec fn r005_code(p: Seq<char>) -> Option<Seq<char>> {
    if p.len() == 0 {
        Some("E-RISK-MISSING"@)
    } else if is_registry_value(p) {
        None
    } else if p == "unknown"@ {
        Some("W-RISK-UNKNOWN"@)
    } else if has_prefix(p, "x-"@) {
        Some("W-RISK-RESERVED"@)
    } else {
        Some("E-RISK-ILLEGAL"@)
    }
}

/// R005 over the registry vocabulary, case by case: an empty input is
/// silence (rejected, `E-RISK-MISSING`); `low` / `medium` / `critical` /
/// `catastrophic` in any case are accepted with no code; `unknown` is
/// quarantined (`W-RISK-UNKNOWN`); anything with the reserved prefix `X-` is
/// quarantined (`W-RISK-RESERVED`); everything else is rejected
/// (`E-RISK-ILLEGAL`). The raw input is carried unchanged, and exactly
/// `critical`, `catastrophic` and `unknown` ask for the R008 details.
pub proof fn law_r005_table(raw: Seq<char>)
    ensures
        risk_verdict(raw).raw == raw,
        risk_verdict(raw).class == r005_class(risk_probe(raw)),
        risk_verdict(raw).disposition == r005_disposition(risk_probe(raw)),
        risk_verdict(raw).code == r005_code(risk_probe(raw)),
        risk_verdict(raw).high_risk == (risk_probe(raw) == "critical"@ || risk_probe(raw)
            == "catastrophic"@ || risk_probe(raw) == "unknown"@),
{
    let v = registry_vocabulary();
    let p = risk_probe(raw);
    lemma_vocab_lower();
    reveal_strlit("low");
    reveal_strlit("medium");
    reveal_strlit("critical");
    reveal_strlit("catastrophic");
    reveal_strlit("unknown");
    reveal_strlit("value");
    reveal_strlit("silence");
    reveal_strlit("illegal");
    reveal_strlit("reserved");
    reveal_strlit("-");
    reveal_strlit("X-");
    reveal_strlit("x-");
    assert("silence"@[0] != "unknown"@[0]);
    assert("illegal"@[0] != "unknown"@[0]);
    assert("illegal"@[0] != "silence"@[0]);
    assert("reserved"@[0] != "value"@[0]);
    assert("reserved"@[0] != "unknown"@[0]);
    assert("reserved"@[0] != "silence"@[0]);
    assert("reserved"@[0] != "illegal"@[0]);
    assert("value"@[0] != "unknown"@[0]);
    assert("value"@[0] != "silence"@[0]);
    assert("value"@[0] != "illegal"@[0]);
    reveal_with_fuel(matching_row_from, 9);
    reveal_with_fuel(first_of_class_from, 9);
    assert(first_of_class(v, "silence"@) == 5);
    assert(first_of_class(v, "illegal"@) == 6);
    assert(first_of_class(v, "reserved"@) == 7);
    if p.len() > 0 {
        if p == "low"@ {
            assert(matching_row(v, "value"@, p) == 0);
        } else if p == "medium"@ {
            assert(matching_row(v, "value"@, p) == 1);
        } else if p == "critical"@ {
            assert(matching_row(v, "value"@, p) == 2);
        } else if p == "catastrophic"@ {
            assert(matching_row(v, "value"@, p) == 3);
        } else {
            assert(matching_row(v, "value"@, p) == 8);
            if p == "unknown"@ {
                assert(matching_row(v, "unknown"@, p) == 4);
            } else {
                assert(matching_row(v, "unknown"@, p) == 8);
            }
        }
    }
}

/// Monotonicity of R005: more uncertainty never gets a more lenient
/// disposition — a known level is accepted, a declared `unknown` is
/// quarantined, silence is rejected (strictly harsher than `unknown`), and a
/// value outside the vocabulary is rejected (not more lenient than silence).
pub proof fn law_r005_monotonic(known: Seq<char>, declared: Seq<char>, silent: Seq<char>, other: Seq<char>)
    requires
        is_registry_value(risk_probe(known)),
        risk_probe(declared) == "unknown"@,
        risk_probe(silent).len() == 0,
        risk_probe(other).len() > 0,
        !is_registry_value(risk_probe(other)),
        risk_probe(other) != "unknown"@,
        !has_prefix(risk_probe(other), "x-"@),
    ensures
        rank_of(risk_verdict(known).disposition) < rank_of(risk_verdict(declared).disposition),
        rank_of(risk_verdict(declared).disposition) < rank_of(risk_verdict(silent).disposition),
        rank_of(risk_verdict(silent).disposition) <= rank_of(risk_verdict(other).disposition),
        risk_verdict(silent).code != risk_verdict(declared).code,
{
    law_r005_table(known);
    law_r005_table(declared);
    law_r005_table(silent);
    law_r005_table(other);
    reveal_strlit("unknown");
    reveal_strlit("low");
    reveal_strlit("medium");
    reveal_strlit("critical");
    reveal_strlit("catastrophic");
    assert(!is_registry_value("unknown"@));
    reveal_strlit("E-RISK-MISSING");
    reveal_strlit("W-RISK-UNKNOWN");
    assert("E-RISK-MISSING"@[0] != "W-RISK-UNKNOWN"@[0]);
}

/// The verdict does not hang on a fixed list of levels: against any
/// vocabulary, an input whose trimmed, lower-cased form is the lower-cased
/// value of one of its `value` rows is accepted, with no severity and no
/// code. Adding a `value` row to the registry makes that value accepted
/// without touching the classifier.
pub proof fn law_value_rows_accepted(v: Seq<RowView>, i: int, raw: Seq<char>)
    requires
        0 <= i < v.len(),
        v[i].class == "value"@,
        risk_probe(raw) == str_lower(v[i].value),
        risk_probe(raw).len() > 0,
    ensures
        verdict_of(v, raw, risk_probe(raw)).class == "value"@,
        verdict_of(v, raw, risk_probe(raw)).disposition == Disposition::Accepted,
        verdict_of(v, raw, risk_probe(raw)).severity is None,
        verdict_of(v, raw, risk_probe(raw)).code is None,
        verdict_of(v, raw, risk_probe(raw)).raw == raw,
{
    let p = risk_probe(raw);
    lemma_matching_row_from(v, "value"@, p, 0);
    assert(v[i].class == "value"@ && str_lower(v[i].value) == p);
    assert(matching_row(v, "value"@, p) <= i);
    assert(verdict_row(v, p) == matching_row(v, "value"@, p));
}

/// Findings that carry no registry code and do not come from R005.
pub open spec fn uncoded(fs: Seq<FindingView>) -> bool {
    forall|i: int| 0 <= i < fs.len() ==> (#[trigger] fs[i]).code is None && fs[i].rule_id != "R005"@
}

proof fn lemma_code_counts_uncoded(a: Seq<FindingView>)
    requires
        uncoded(a),
    ensures
        code_counts(a) == Map::<Seq<char>, usize>::empty(),
    decreases a.len(),
{
    if a.len() > 0 {
        assert(a[a.len() - 1].code is None);
        lemma_code_counts_uncoded(a.drop_last());
    }
}

proof fn lemma_code_counts_prefix(a: Seq<FindingView>, b: Seq<FindingView>)
    requires
        uncoded(a),
    ensures
        code_counts(a + b) == code_counts(b),
    decreases b.len(),
{
    if b.len() == 0 {
        assert(a + b =~= a);
        lemma_code_counts_uncoded(a);
    } else {
        lemma_code_counts_prefix(a, b.drop_last());
        assert((a + b).drop_last() =~= a + b.drop_last());
        assert((a + b).last() == b.last());
    }
}

proof fn lemma_code_counts_suffix(a: Seq<FindingView>, b: Seq<FindingView>)
    requires
        uncoded(b),
    ensures
        code_counts(a + b) == code_counts(a),
    decreases b.len(),
{
    if b.len() == 0 {
        assert(a + b =~= a);
    } else {
        assert(b[b.len() - 1].code is None);
        lemma_code_counts_suffix(a, b.drop_last());
        assert((a + b).drop_last() =~= a + b.drop_last());
        assert((a + b).last() == b.last());
    }
}

proof fn lemma_dispositions_concat(a: Seq<FindingView>, b: Seq<FindingView>)
    ensures
        r005_dispositions(a + b) == r005_dispositions(a) + r005_dispositions(b),
    decreases b.len(),
{
    if b.len() == 0 {
        assert(a + b =~= a);
        assert(r005_dispositions(a) + r005_dispositions(b) =~= r005_dispositions(a));
    } else {
        lemma_dispositions_concat(a, b.drop_last());
        assert((a + b).drop_last() =~= a + b.drop_last());
        assert((a + b).last() == b.last());
        assert(r005_dispositions(a) + r005_dispositions(b.drop_last()).push(
            crate::reviewer::disposition_of_severity(b.last().severity),
        ) =~= (r005_dispositions(a) + r005_dispositions(b.drop_last())).push(
            crate::reviewer::disposition_of_severity(b.last().severity),
        ));
    }
}

proof fn lemma_dispositions_uncoded(a: Seq<FindingView>)
    requires
        uncoded(a),
    ensures
        r005_dispositions(a) == Seq::<Disposition>::empty(),
    decreases a.len(),
{
    if a.len() > 0 {
        assert(a[a.len() - 1].rule_id != "R005"@);
        lemma_dispositions_uncoded(a.drop_last());
    }
}

proof fn lemma_uncoded_concat(a: Seq<FindingView>, b: Seq<FindingView>)
    requires
        uncoded(a),
        uncoded(b),
    ensures
        uncoded(a + b),
{
    assert forall|i: int| 0 <= i < (a + b).len() implies (#[trigger] (a + b)[i]).code is None && (a
        + b)[i].rule_id != "R005"@ by {
        if i < a.len() {
            assert((a + b)[i] == a[i]);
        } else {
            assert((a + b)[i] == b[i - a.len()]);
        }
    }
}

proof fn lemma_rule_ids_distinct()
    ensures
        "R001"@ != "R005"@,
        "R002"@ != "R005"@,
        "R003"@ != "R005"@,
        "R004"@ != "R005"@,
        "R006"@ != "R005"@,
        "R007"@ != "R005"@,
        "R008"@ != "R005"@,
        "R009"@ != "R005"@,
{
    reveal_strlit("R001");
    reveal_strlit("R002");
    reveal_strlit("R003");
    reveal_strlit("R004");
    reveal_strlit("R005");
    reveal_strlit("R006");
    reveal_strlit("R007");
    reveal_strlit("R008");
    reveal_strlit("R009");
    assert("R001"@[3] != "R005"@[3]);
    assert("R002"@[3] != "R005"@[3]);
    assert("R003"@[3] != "R005"@[3]);
    assert("R004"@[3] != "R005"@[3]);
    assert("R006"@[3] != "R005"@[3]);
    assert("R007"@[3] != "R005"@[3]);
    assert("R008"@[3] != "R005"@[3]);
    assert("R009"@[3] != "R005"@[3]);
}

proof fn lemma_r007_uncoded(oses: Seq<String>)
    ensures
        uncoded(r007_findings(oses)),
    decreases oses.len(),
{
    lemma_rule_ids_distinct();
    if oses.len() > 0 {
        lemma_r007_uncoded(oses.drop_last());
        let tail = if !crate::reviewer::known_host_os(str_lower(oses.last()@)) {
            seq![crate::reviewer::finding("R007"@, crate::reviewer::Severity::Warning, "host_os '"@ + oses.last()@ + "' 不在已知列表中"@, None, "host_os"@, Some("使用已知 OS 标识"@))]
        } else {
            Seq::empty()
        };
        assert(r007_findings(oses) == r007_findings(oses.drop_last()) + tail);
        lemma_uncoded_concat(r007_findings(oses.drop_last()), tail);
    }
}

/// The findings of every rule but R005 carry no code and are not R005's.
proof fn lemma_other_rules_uncoded(m: ToolManifest)
    ensures
        uncoded(r001_findings(m) + r002_findings(m) + r003_findings(m) + r004_findings(m)),
        uncoded(r006_findings(m)),
        uncoded(r007_findings(m.host_os@)),
        uncoded(r008_findings(m)),
        uncoded(r009_findings(m)),
{
    lemma_rule_ids_distinct();
    lemma_r007_uncoded(m.host_os@);
    assert(uncoded(r001_findings(m)));
    assert(uncoded(r002_findings(m)));
    assert(uncoded(r003_findings(m)));
    assert(uncoded(r004_findings(m)));
    lemma_uncoded_concat(r001_findings(m), r002_findings(m));
    lemma_uncoded_concat(r001_findings(m) + r002_findings(m), r003_findings(m));
    lemma_uncoded_concat(r001_findings(m) + r002_findings(m) + r003_findings(m), r004_findings(m));
    assert(uncoded(r006_findings(m)));
    assert(uncoded(r008_findings(m)));
    assert(uncoded(r009_findings(m)));
}

/// What a report says of R005: its R005 dispositions are exactly the
/// verdict's (none when the risk level is accepted), and the only registry
/// code it counts is the verdict's, once. A quarantined or rejected risk
/// level is always visible and countable in the report.
pub proof fn law_report_shows_verdict(m: ToolManifest)
    ensures
        risk_verdict(m.risk_level@).disposition == Disposition::Accepted ==> r005_dispositions(
            review_findings(m),
        ) == Seq::<Disposition>::empty() && code_counts(review_findings(m)) == Map::<
            Seq<char>,
            usize,
        >::empty(),
        risk_verdict(m.risk_level@).disposition != Disposition::Accepted ==> r005_dispositions(
            review_findings(m),
        ) == seq![risk_verdict(m.risk_level@).disposition] && risk_verdict(m.risk_level@).code
            is Some && code_counts(review_findings(m)) == Map::<Seq<char>, usize>::empty().insert(
            risk_verdict(m.risk_level@).code->0,
            1,
        ),
{
    lemma_other_rules_uncoded(m);
    let a = r001_findings(m) + r002_findings(m) + r003_findings(m) + r004_findings(m);
    let f = r005_findings(m);
    let b6 = r006_findings(m);
    let b7 = r007_findings(m.host_os@);
    let b8 = r008_findings(m);
    let b9 = r009_findings(m);
    assert(review_findings(m) == a + f + b6 + b7 + b8 + b9);
    // codes
    lemma_code_counts_prefix(a, f);
    lemma_code_counts_suffix(a + f, b6);
    lemma_code_counts_suffix(a + f + b6, b7);
    lemma_code_counts_suffix(a + f + b6 + b7, b8);
    lemma_code_counts_suffix(a + f + b6 + b7 + b8, b9);
    // dispositions
    lemma_dispositions_concat(a, f);
    lemma_dispositions_concat(a + f, b6);
    lemma_dispositions_concat(a + f + b6, b7);
    lemma_dispositions_concat(a + f + b6 + b7, b8);
    lemma_dispositions_concat(a + f + b6 + b7 + b8, b9);
    lemma_dispositions_uncoded(a);
    lemma_dispositions_uncoded(b6);
    lemma_dispositions_uncoded(b7);
    lemma_dispositions_uncoded(b8);
    lemma_dispositions_uncoded(b9);
    reveal_strlit("R005");
    let vd = risk_verdict(m.risk_level@);
    if vd.disposition == Disposition::Accepted {
        assert(f == Seq::<FindingView>::empty());
        assert(code_counts(f) == Map::<Seq<char>, usize>::empty());
    } else {
        assert(vd.severity == crate::reviewer::severity_of(vd.disposition));
        let sev = vd.severity->0;
        assert(f.len() == 1);
        assert(f.drop_last() =~= Seq::<FindingView>::empty());
        assert(f.last() == f[0]);
        assert(f[0].rule_id == "R005"@);
        assert(f[0].severity == sev);
        assert(f[0].code == vd.code);
        assert(crate::reviewer::disposition_of_severity(sev) == vd.disposition);
        assert(r005_dispositions(f.drop_last()) == Seq::<Disposition>::empty());
        assert(code_counts(f.drop_last()) == Map::<Seq<char>, usize>::empty());
        assert(r005_dispositions(f) == seq![vd.disposition]);
        assert(code_counts(f) == Map::<Seq<char>, usize>::empty().insert(vd.code->0, 1));
    }
    assert(r005_dispositions(a) + r005_dispositions(f) + r005_dispositions(b6) + r005_dispositions(b7)
        + r005_dispositions(b8) + r005_dispositions(b9) =~= r005_dispositions(f));
}

proof fn lemma_r007_same_views(a: Seq<String>, b: Seq<String>)
    requires
        a.len() == b.len(),
        forall|i: int| 0 <= i < a.len() ==> (#[trigger] a[i])@ == b[i]@,
    ensures
        r007_findings(a) == r007_findings(b),
    decreases a.len(),
{
    if a.len() > 0 {
        lemma_r007_same_views(a.drop_last(), b.drop_last());
        assert(a.last()@ == b.last()@);
    }
}

/// Replay: a review's findings depend on the manifest's content alone, so
/// reviewing a manifest again, or a copy of it read back from storage, gives
/// the same findings, hence the same codes and the same dispositions.
pub proof fn law_review_replay(m1: ToolManifest, m2: ToolManifest)
    requires
        m1.name@ == m2.name@,
        m1.version@ == m2.version@,
        m1.description@ == m2.description@,
        m1.parameters_schema@ == m2.parameters_schema@,
        m1.risk_level@ == m2.risk_level@,
        m1.platform@ == m2.platform@,
        m1.host_os@.len() == m2.host_os@.len(),
        forall|i: int| 0 <= i < m1.host_os@.len() ==> (#[trigger] m1.host_os@[i])@ == m2.host_os@[i]@,
    ensures
        review_findings(m1) == review_findings(m2),
        code_counts(review_findings(m1)) == code_counts(review_findings(m2)),
        r005_dispositions(review_findings(m1)) == r005_dispositions(review_findings(m2)),
{
    lemma_r007_same_views(m1.host_os@, m2.host_os@);
    assert(r001_findings(m1) == r001_findings(m2));
    assert(r002_findings(m1) == r002_findings(m2));
    assert(r003_findings(m1) == r003_findings(m2));
    assert(r004_findings(m1) == r004_findings(m2));
    assert(r005_findings(m1) == r005_findings(m2));
    assert(r006_findings(m1) == r006_findings(m2));
    assert(r008_findings(m1) == r008_findings(m2));
    assert(r009_findings(m1) == r009_findings(m2));
}

/// A tool whose risk level asks for the high-risk details (`critical`,
/// `catastrophic`, `unknown`) never passes without them: a description
/// shorter than 20 characters, or no parameter schema, is an error.
pub proof fn law_high_risk_needs_details(m: ToolManifest)
    requires
        risk_verdict(m.risk_level@).high_risk,
        m.description@.len() < 20 || m.parameters_schema@ is Null,
    ensures
        has_error(review_findings(m)),
{
    let x = r001_findings(m) + r002_findings(m) + r003_findings(m) + r004_findings(m) + r005_findings(m)
        + r006_findings(m) + r007_findings(m.host_os@);
    let f8 = r008_findings(m);
    let all = review_findings(m);
    assert(all == x + f8 + r009_findings(m));
    assert(f8.len() >= 1);
    assert(f8[0].severity == Severity::Error);
    assert(all[x.len() as int] == f8[0]);
}

/// The findings of rule `id`, in order.
pub open spec fn of_rule(fs: Seq<FindingView>, id: Seq<char>) -> Seq<FindingView>
    decreases fs.len(),
{
    if fs.len() == 0 {
        Seq::empty()
    } else if fs.last().rule_id == id {
        of_rule(fs.drop_last(), id).push(fs.last())
    } else {
        of_rule(fs.drop_last(), id)
    }
}

proof fn lemma_of_rule_concat(a: Seq<FindingView>, b: Seq<FindingView>, id: Seq<char>)
    ensures
        of_rule(a + b, id) == of_rule(a, id) + of_rule(b, id),
    decreases b.len(),
{
    if b.len() == 0 {
        assert(a + b =~= a);
        assert(of_rule(a, id) + of_rule(b, id) =~= of_rule(a, id));
    } else {
        lemma_of_rule_concat(a, b.drop_last(), id);
        assert((a + b).drop_last() =~= a + b.drop_last());
        assert((a + b).last() == b.last());
        assert(of_rule(a, id) + of_rule(b.drop_last(), id).push(b.last()) =~= (of_rule(a, id)
            + of_rule(b.drop_last(), id)).push(b.last()));
    }
}

proof fn lemma_of_rule_uncoded(a: Seq<FindingView>)
    requires
        uncoded(a),
    ensures
        of_rule(a, "R005"@) == Seq::<FindingView>::empty(),
    decreases a.len(),
{
    if a.len() > 0 {
        assert(a[a.len() - 1].rule_id != "R005"@);
        lemma_of_rule_uncoded(a.drop_last());
    }
}

/// The report's R005 entry: no R005 finding when the risk level is
/// accepted; otherwise exactly one, on field `risk_level`, carrying the
/// verdict's severity and registry code and a suggestion.
pub proof fn law_r005_entry(m: ToolManifest)
    ensures
        risk_verdict(m.risk_level@).disposition == Disposition::Accepted ==> of_rule(
            review_findings(m),
            "R005"@,
        ).len() == 0,
        risk_verdict(m.risk_level@).disposition != Disposition::Accepted ==> {
            let fs = of_rule(review_findings(m), "R005"@);
            &&& fs.len() == 1
            &&& Some(fs[0].severity) == risk_verdict(m.risk_level@).severity
            &&& fs[0].code == risk_verdict(m.risk_level@).code
            &&& fs[0].code is Some
            &&& fs[0].field == Some("risk_level"@)
            &&& fs[0].suggestion is Some
        },
{
    lemma_other_rules_uncoded(m);
    let a = r001_findings(m) + r002_findings(m) + r003_findings(m) + r004_findings(m);
    let f = r005_findings(m);
    let b6 = r006_findings(m);
    let b7 = r007_findings(m.host_os@);
    let b8 = r008_findings(m);
    let b9 = r009_findings(m);
    let id = "R005"@;
    assert(review_findings(m) == a + f + b6 + b7 + b8 + b9);
    lemma_of_rule_concat(a, f, id);
    lemma_of_rule_concat(a + f, b6, id);
    lemma_of_rule_concat(a + f + b6, b7, id);
    lemma_of_rule_concat(a + f + b6 + b7, b8, id);
    lemma_of_rule_concat(a + f + b6 + b7 + b8, b9, id);
    lemma_of_rule_uncoded(a);
    lemma_of_rule_uncoded(b6);
    lemma_of_rule_uncoded(b7);
    lemma_of_rule_uncoded(b8);
    lemma_of_rule_uncoded(b9);
    let vd = risk_verdict(m.risk_level@);
    if vd.disposition == Disposition::Accepted {
        assert(f == Seq::<FindingView>::empty());
    } else {
        assert(vd.severity == crate::reviewer::severity_of(vd.disposition));
        assert(f.len() == 1);
        assert(f.drop_last() =~= Seq::<FindingView>::empty());
        reveal_strlit("R005");
        assert(f.last() == f[0]);
        assert(f[0].rule_id == id);
        assert(of_rule(f.drop_last(), id) == Seq::<FindingView>::empty());
        assert(of_rule(f, id) =~= seq![f[0]]);
    }
    assert(of_rule(a, id) + of_rule(f, id) + of_rule(b6, id) + of_rule(b7, id) + of_rule(b8, id)
        + of_rule(b9, id) =~= of_rule(f, id));
}

proof fn lemma_has_error_concat(a: Seq<FindingView>, b: Seq<FindingView>)
    ensures
        has_error(a + b) <==> has_error(a) || has_error(b),
{
    if has_error(a) {
        let i = choose|i: int| 0 <= i < a.len() && (#[trigger] a[i]).severity == Severity::Error;
        assert((a + b)[i] == a[i]);
    }
    if has_error(b) {
        let i = choose|i: int| 0 <= i < b.len() && (#[trigger] b[i]).severity == Severity::Error;
        assert((a + b)[a.len() + i] == b[i]);
    }
    if has_error(a + b) {
        let i = choose|i: int| 0 <= i < (a + b).len() && (#[trigger] (a + b)[i]).severity == Severity::Error;
        if i < a.len() {
            assert(a[i] == (a + b)[i]);
        } else {
            assert(b[i - a.len()] == (a + b)[i]);
        }
    }
}

proof fn lemma_r007_no_error(oses: Seq<String>)
    ensures
        !has_error(r007_findings(oses)),
    decreases oses.len(),
{
    if oses.len() > 0 {
        lemma_r007_no_error(oses.drop_last());
        let tail = if !crate::reviewer::known_host_os(str_lower(oses.last()@)) {
            seq![crate::reviewer::finding("R007"@, Severity::Warning, "host_os '"@ + oses.last()@ + "' 不在已知列表中"@, None, "host_os"@, Some("使用已知 OS 标识"@))]
        } else {
            Seq::empty()
        };
        assert(r007_findings(oses) == r007_findings(oses.drop_last()) + tail);
        lemma_has_error_concat(r007_findings(oses.drop_last()), tail);
        if has_error(tail) {
            let i = choose|i: int| 0 <= i < tail.len() && (#[trigger] tail[i]).severity == Severity::Error;
            assert(tail[i].severity == Severity::Warning);
        }
    }
}

/// A review reports an error exactly when the name is empty, the
/// description is empty, the parameter schema is present but not an object,
/// the risk level is rejected (silence or outside the vocabulary), or a
/// high-risk level comes without a description of 20 characters or without
/// a schema. A report passes exactly when none of these holds.
pub proof fn law_review_error_iff(m: ToolManifest)
    ensures
        has_error(review_findings(m)) <==> {
            ||| m.name@.len() == 0
            ||| m.description@.len() == 0
            ||| !(m.parameters_schema@ is Null) && !(m.parameters_schema@ is Obj)
            ||| risk_verdict(m.risk_level@).disposition == Disposition::Rejected
            ||| risk_verdict(m.risk_level@).high_risk && (m.description@.len() < 20
                || m.parameters_schema@ is Null)
        },
{
    let r1 = r001_findings(m);
    let r2 = r002_findings(m);
    let r3 = r003_findings(m);
    let r4 = r004_findings(m);
    let r5 = r005_findings(m);
    let r6 = r006_findings(m);
    let r7 = r007_findings(m.host_os@);
    let r8 = r008_findings(m);
    let r9 = r009_findings(m);
    assert(review_findings(m) == r1 + r2 + r3 + r4 + r5 + r6 + r7 + r8 + r9);
    lemma_has_error_concat(r1, r2);
    lemma_has_error_concat(r1 + r2, r3);
    lemma_has_error_concat(r1 + r2 + r3, r4);
    lemma_has_error_concat(r1 + r2 + r3 + r4, r5);
    lemma_has_error_concat(r1 + r2 + r3 + r4 + r5, r6);
    lemma_has_error_concat(r1 + r2 + r3 + r4 + r5 + r6, r7);
    lemma_has_error_concat(r1 + r2 + r3 + r4 + r5 + r6 + r7, r8);
    lemma_has_error_concat(r1 + r2 + r3 + r4 + r5 + r6 + r7 + r8, r9);
    lemma_r007_no_error(m.host_os@);
    // R001
    if m.name@.len() == 0 {
        assert(r1[0].severity == Severity::Error);
    } else {
        assert(r1.len() == 0);
    }
    // R002 and R009 carry warnings only
    if has_error(r2) {
        let i = choose|i: int| 0 <= i < r2.len() && (#[trigger] r2[i]).severity == Severity::Error;
        assert(r2[i].severity == Severity::Warning);
    }
    if has_error(r9) {
        let i = choose|i: int| 0 <= i < r9.len() && (#[trigger] r9[i]).severity == Severity::Error;
        assert(r9[i].severity == Severity::Warning);
    }
    // R003
    if m.description@.len() == 0 {
        assert(r3[0].severity == Severity::Error);
    } else if has_error(r3) {
        let i = choose|i: int| 0 <= i < r3.len() && (#[trigger] r3[i]).severity == Severity::Error;
        assert(r3[i].severity == Severity::Warning);
    }
    // R004
    match m.parameters_schema@ {
        JsonView::Null => {
            if has_error(r4) {
                let i = choose|i: int| 0 <= i < r4.len() && (#[trigger] r4[i]).severity == Severity::Error;
                assert(r4[i].severity == Severity::Info);
            }
        },
        JsonView::Obj(members) => {
            if has_error(r4) {
                let i = choose|i: int| 0 <= i < r4.len() && (#[trigger] r4[i]).severity == Severity::Error;
                assert(r4[i].severity == Severity::Warning);
            }
        },
        _ => {
            assert(r4[0].severity == Severity::Error);
        },
    }
    // R005
    let vd = risk_verdict(m.risk_level@);
    assert(vd.severity == crate::reviewer::severity_of(vd.disposition));
    if vd.disposition == Disposition::Rejected {
        assert(r5[0].severity == Severity::Error);
    } else if has_error(r5) {
        let i = choose|i: int| 0 <= i < r5.len() && (#[trigger] r5[i]).severity == Severity::Error;
        assert(r5[i].severity == Severity::Warning);
    }
    // R006
    if has_error(r6) {
        let i = choose|i: int| 0 <= i < r6.len() && (#[trigger] r6[i]).severity == Severity::Error;
        assert(r6[i].severity == Severity::Info || r6[i].severity == Severity::Warning);
    }
    // R008
    if vd.high_risk {
        let d = if m.description@.len() < 20 {
            seq![crate::reviewer::finding("R008"@, Severity::Error, "高风险工具必须有详细描述（至少 20 字符）"@, None, "description"@, Some("详细说明工具的用途、风险和安全措施"@))]
        } else {
            Seq::empty()
        };
        let n = if m.parameters_schema@ is Null {
            seq![crate::reviewer::finding("R008"@, Severity::Error, "高风险工具必须定义参数 Schema"@, None, "parameters_schema"@, Some("定义所有输入参数的类型和约束"@))]
        } else {
            Seq::empty()
        };
        assert(r8 == d + n);
        lemma_has_error_concat(d, n);
        if m.description@.len() < 20 {
            assert(d[0].severity == Severity::Error);
        }
        if m.parameters_schema@ is Null {
            assert(n[0].severity == Severity::Error);
        }
    } else {
        assert(r8.len() == 0);
    }
}

/// The number of findings whose registry code is `c`.
pub open spec fn code_occurrences(fs: Seq<FindingView>, c: Seq<char>) -> nat
    decreases fs.len(),
{
    if fs.len() == 0 {
        0
    } else {
        code_occurrences(fs.drop_last(), c) + if fs.last().code == Some(c) {
            1nat
        } else {
            0nat
        }
    }
}

/// The number of findings whose severity reads `k` (`INFO`, `WARNING`, `ERROR`).
pub open spec fn severity_occurrences(fs: Seq<FindingView>, k: Seq<char>) -> nat
    decreases fs.len(),
{
    if fs.len() == 0 {
        0
    } else {
        severity_occurrences(fs.drop_last(), k) + if crate::reviewer::severity_text(fs.last().severity)
            == k {
            1nat
        } else {
            0nat
        }
    }
}

/// The code counts of a report: a code is a key exactly when some finding
/// carries it, and its value is the number of findings that carry it;
/// findings without a code are not counted.
pub proof fn law_code_counts(fs: Seq<FindingView>, c: Seq<char>)
    requires
        fs.len() <= usize::MAX,
    ensures
        code_counts(fs).contains_key(c) <==> code_occurrences(fs, c) > 0,
        code_counts(fs).contains_key(c) ==> code_counts(fs)[c] == code_occurrences(fs, c),
    decreases fs.len(),
{
    if fs.len() > 0 {
        law_code_counts(fs.drop_last(), c);
        assert(code_occurrences(fs.drop_last(), c) <= fs.drop_last().len()) by {
            lemma_code_occurrences_bounded(fs.drop_last(), c);
        }
    }
}

proof fn lemma_code_occurrences_bounded(fs: Seq<FindingView>, c: Seq<char>)
    ensures
        code_occurrences(fs, c) <= fs.len(),
    decreases fs.len(),
{
    if fs.len() > 0 {
        lemma_code_occurrences_bounded(fs.drop_last(), c);
    }
}

proof fn lemma_severity_occurrences_bounded(fs: Seq<FindingView>, k: Seq<char>)
    ensures
        severity_occurrences(fs, k) <= fs.len(),
    decreases fs.len(),
{
    if fs.len() > 0 {
        lemma_severity_occurrences_bounded(fs.drop_last(), k);
    }
}

/// The severity summary of a report: a severity text is a key exactly when
/// some finding has that severity, and its value is the number of such
/// findings.
pub proof fn law_severity_counts(fs: Seq<FindingView>, k: Seq<char>)
    requires
        fs.len() <= usize::MAX,
    ensures
        crate::reviewer::severity_counts(fs).contains_key(k) <==> severity_occurrences(fs, k) > 0,
        crate::reviewer::severity_counts(fs).contains_key(k) ==> crate::reviewer::severity_counts(fs)[k]
            == severity_occurrences(fs, k),
    decreases fs.len(),
{
    if fs.len() > 0 {
        law_severity_counts(fs.drop_last(), k);
        lemma_severity_occurrences_bounded(fs.drop_last(), k);
    }
}

/// The position of a rule in the review order (`R001` is 1, … `R009` is 9; 0 otherwise).
pub open spec fn rule_rank(id: Seq<char>) -> int {
    if id == "R001"@ {
        1
    } else if id == "R002"@ {
        2
    } else if id == "R003"@ {
        3
    } else if id == "R004"@ {
        4
    } else if id == "R005"@ {
        5
    } else if id == "R006"@ {
        6
    } else if id == "R007"@ {
        7
    } else if id == "R008"@ {
        8
    } else if id == "R009"@ {
        9
    } else {
        0
    }
}

/// The severities a rule's findings may have: R001 and R008 errors; R002,
/// R007 and R009 warnings; R003 and R005 errors or warnings; R006 warnings
/// or information; R004 any of the three.
pub open spec fn severity_allowed(id: Seq<char>, sev: Severity) -> bool {
    if id == "R001"@ || id == "R008"@ {
        sev == Severity::Error
    } else if id == "R002"@ || id == "R007"@ || id == "R009"@ {
        sev == Severity::Warning
    } else if id == "R003"@ || id == "R005"@ {
        sev == Severity::Error || sev == Severity::Warning
    } else if id == "R006"@ {
        sev == Severity::Warning || sev == Severity::Info
    } else {
        id == "R004"@
    }
}

/// Every finding of `fs` is one of rule `id`'s, with a severity the rule
/// allows, and carries a registry code exactly when the rule is R005.
pub open spec fn all_of_rule(fs: Seq<FindingView>, id: Seq<char>) -> bool {
    forall|i: int|
        0 <= i < fs.len() ==> (#[trigger] fs[i]).rule_id == id && severity_allowed(id, fs[i].severity)
            && (fs[i].code is Some <==> id == "R005"@)
}

/// Findings in rule order, each with a severity its rule allows and a code
/// exactly on R005, and no rule later than `k`.
pub open spec fn ordered_upto(fs: Seq<FindingView>, k: int) -> bool {
    &&& forall|i: int, j: int|
        0 <= i < j < fs.len() ==> rule_rank((#[trigger] fs[i]).rule_id) <= rule_rank((#[trigger] fs[j]).rule_id)
    &&& forall|i: int|
        0 <= i < fs.len() ==> 1 <= rule_rank((#[trigger] fs[i]).rule_id) <= k && severity_allowed(
            fs[i].rule_id,
            fs[i].severity,
        ) && (fs[i].code is Some <==> fs[i].rule_id == "R005"@)
}

proof fn lemma_rule_ranks()
    ensures
        rule_rank("R001"@) == 1,
        rule_rank("R002"@) == 2,
        rule_rank("R003"@) == 3,
        rule_rank("R004"@) == 4,
        rule_rank("R005"@) == 5,
        rule_rank("R006"@) == 6,
        rule_rank("R007"@) == 7,
        rule_rank("R008"@) == 8,
        rule_rank("R009"@) == 9,
        "R001"@ != "R002"@,
        "R001"@ != "R003"@,
        "R001"@ != "R004"@,
        "R001"@ != "R005"@,
        "R001"@ != "R006"@,
        "R001"@ != "R007"@,
        "R001"@ != "R008"@,
        "R001"@ != "R009"@,
        "R002"@ != "R003"@,
        "R002"@ != "R004"@,
        "R002"@ != "R005"@,
        "R002"@ != "R006"@,
        "R002"@ != "R007"@,
        "R002"@ != "R008"@,
        "R002"@ != "R009"@,
        "R003"@ != "R004"@,
        "R003"@ != "R005"@,
        "R003"@ != "R006"@,
        "R003"@ != "R007"@,
        "R003"@ != "R008"@,
        "R003"@ != "R009"@,
        "R004"@ != "R005"@,
        "R004"@ != "R006"@,
        "R004"@ != "R007"@,
        "R004"@ != "R008"@,
        "R004"@ != "R009"@,
        "R005"@ != "R006"@,
        "R005"@ != "R007"@,
        "R005"@ != "R008"@,
        "R005"@ != "R009"@,
        "R006"@ != "R007"@,
        "R006"@ != "R008"@,
        "R006"@ != "R009"@,
        "R007"@ != "R008"@,
        "R007"@ != "R009"@,
        "R008"@ != "R009"@,
{
    reveal_strlit("R001");
    reveal_strlit("R002");
    reveal_strlit("R003");
    reveal_strlit("R004");
    reveal_strlit("R005");
    reveal_strlit("R006");
    reveal_strlit("R007");
    reveal_strlit("R008");
    reveal_strlit("R009");
    assert("R001"@[3] != "R002"@[3]);
    assert("R001"@[3] != "R003"@[3]);
    assert("R001"@[3] != "R004"@[3]);
    assert("R001"@[3] != "R005"@[3]);
    assert("R001"@[3] != "R006"@[3]);
    assert("R001"@[3] != "R007"@[3]);
    assert("R001"@[3] != "R008"@[3]);
    assert("R001"@[3] != "R009"@[3]);
    assert("R002"@[3] != "R003"@[3]);
    assert("R002"@[3] != "R004"@[3]);
    assert("R002"@[3] != "R005"@[3]);
    assert("R002"@[3] != "R006"@[3]);
    assert("R002"@[3] != "R007"@[3]);
    assert("R002"@[3] != "R008"@[3]);
    assert("R002"@[3] != "R009"@[3]);
    assert("R003"@[3] != "R004"@[3]);
    assert("R003"@[3] != "R005"@[3]);
    assert("R003"@[3] != "R006"@[3]);
    assert("R003"@[3] != "R007"@[3]);
    assert("R003"@[3] != "R008"@[3]);
    assert("R003"@[3] != "R009"@[3]);
    assert("R004"@[3] != "R005"@[3]);
    assert("R004"@[3] != "R006"@[3]);
    assert("R004"@[3] != "R007"@[3]);
    assert("R004"@[3] != "R008"@[3]);
    assert("R004"@[3] != "R009"@[3]);
    assert("R005"@[3] != "R006"@[3]);
    assert("R005"@[3] != "R007"@[3]);
    assert("R005"@[3] != "R008"@[3]);
    assert("R005"@[3] != "R009"@[3]);
    assert("R006"@[3] != "R007"@[3]);
    assert("R006"@[3] != "R008"@[3]);
    assert("R006"@[3] != "R009"@[3]);
    assert("R007"@[3] != "R008"@[3]);
    assert("R007"@[3] != "R009"@[3]);
    assert("R008"@[3] != "R009"@[3]);
}

proof fn lemma_ordered_step(a: Seq<FindingView>, b: Seq<FindingView>, id: Seq<char>, k: int)
    requires
        ordered_upto(a, k - 1),
        all_of_rule(b, id),
        rule_rank(id) == k,
    ensures
        ordered_upto(a + b, k),
{
    let c = a + b;
    assert forall|i: int| 0 <= i < c.len() implies 1 <= rule_rank((#[trigger] c[i]).rule_id) <= k
        && severity_allowed(c[i].rule_id, c[i].severity) && (c[i].code is Some <==> c[i].rule_id
        == "R005"@) by {
        if i < a.len() {
            assert(c[i] == a[i]);
        } else {
            assert(c[i] == b[i - a.len()]);
        }
    }
    assert forall|i: int, j: int| 0 <= i < j < c.len() implies rule_rank((#[trigger] c[i]).rule_id)
        <= rule_rank((#[trigger] c[j]).rule_id) by {
        if j < a.len() {
            assert(c[i] == a[i] && c[j] == a[j]);
        } else if i < a.len() {
            assert(c[i] == a[i] && c[j] == b[j - a.len()]);
        } else {
            assert(c[i] == b[i - a.len()] && c[j] == b[j - a.len()]);
        }
    }
}

proof fn lemma_r007_all_of_rule(oses: Seq<String>)
    ensures
        all_of_rule(r007_findings(oses), "R007"@),
    decreases oses.len(),
{
    lemma_rule_ranks();
    if oses.len() > 0 {
        lemma_r007_all_of_rule(oses.drop_last());
        let p = r007_findings(oses.drop_last());
        let tail = if !crate::reviewer::known_host_os(str_lower(oses.last()@)) {
            seq![crate::reviewer::finding("R007"@, Severity::Warning, "host_os '"@ + oses.last()@ + "' 不在已知列表中"@, None, "host_os"@, Some("使用已知 OS 标识"@))]
        } else {
            Seq::empty()
        };
        assert(r007_findings(oses) == p + tail);
        let c = p + tail;
        assert forall|i: int| 0 <= i < c.len() implies (#[trigger] c[i]).rule_id == "R007"@
            && severity_allowed("R007"@, c[i].severity) && (c[i].code is Some <==> "R007"@ == "R005"@) by {
            if i < p.len() {
                assert(c[i] == p[i]);
            } else {
                assert(c[i] == tail[i - p.len()]);
            }
        }
    }
}

proof fn lemma_parts_of_rule(m: ToolManifest)
    ensures
        all_of_rule(r001_findings(m), "R001"@),
        all_of_rule(r002_findings(m), "R002"@),
        all_of_rule(r003_findings(m), "R003"@),
        all_of_rule(r004_findings(m), "R004"@),
        all_of_rule(r005_findings(m), "R005"@),
        all_of_rule(r006_findings(m), "R006"@),
        all_of_rule(r007_findings(m.host_os@), "R007"@),
        all_of_rule(r008_findings(m), "R008"@),
        all_of_rule(r009_findings(m), "R009"@),
{
    lemma_rule_ids_distinct();
    lemma_rule_ranks();
    lemma_r007_all_of_rule(m.host_os@);
    let vd = risk_verdict(m.risk_level@);
    assert(vd.severity == crate::reviewer::severity_of(vd.disposition));
    let r8 = r008_findings(m);
    if vd.high_risk {
        assert forall|i: int| 0 <= i < r8.len() implies (#[trigger] r8[i]).rule_id == "R008"@
            && severity_allowed("R008"@, r8[i].severity) && (r8[i].code is Some <==> "R008"@ == "R005"@) by {
            let d = if m.description@.len() < 20 {
                seq![crate::reviewer::finding("R008"@, Severity::Error, "高风险工具必须有详细描述（至少 20 字符）"@, None, "description"@, Some("详细说明工具的用途、风险和安全措施"@))]
            } else {
                Seq::empty()
            };
            let n = if m.parameters_schema@ is Null {
                seq![crate::reviewer::finding("R008"@, Severity::Error, "高风险工具必须定义参数 Schema"@, None, "parameters_schema"@, Some("定义所有输入参数的类型和约束"@))]
            } else {
                Seq::empty()
            };
            assert(r8 == d + n);
            if i < d.len() {
                assert(r8[i] == d[i]);
            } else {
                assert(r8[i] == n[i - d.len()]);
            }
        }
    }
    let r4 = r004_findings(m);
    if m.parameters_schema@ is Obj {
        let members = m.parameters_schema@->Obj_0;
        let t = if !crate::json::has_member(members, "type"@) {
            seq![crate::reviewer::finding("R004"@, Severity::Warning, "参数 Schema 缺少 'type' 字段"@, None, "parameters_schema"@, Some("添加 \"type\": \"object\" 或其他合法类型"@))]
        } else {
            Seq::empty()
        };
        let q = if !crate::json::has_member(members, "properties"@) && !crate::json::has_member(members, "items"@) {
            seq![crate::reviewer::finding("R004"@, Severity::Warning, "参数 Schema 缺少 'properties' 或 'items' 字段"@, None, "parameters_schema"@, Some("定义参数的属性结构"@))]
        } else {
            Seq::empty()
        };
        assert(r4 == t + q);
        assert forall|i: int| 0 <= i < r4.len() implies (#[trigger] r4[i]).rule_id == "R004"@
            && severity_allowed("R004"@, r4[i].severity) && (r4[i].code is Some <==> "R004"@ == "R005"@) by {
            if i < t.len() {
                assert(r4[i] == t[i]);
            } else {
                assert(r4[i] == q[i - t.len()]);
            }
        }
    }
}

proof fn lemma_of_rule_none(fs: Seq<FindingView>, id: Seq<char>)
    requires
        forall|i: int| 0 <= i < fs.len() ==> (#[trigger] fs[i]).rule_id != id,
    ensures
        of_rule(fs, id).len() == 0,
    decreases fs.len(),
{
    if fs.len() > 0 {
        assert(fs[fs.len() - 1].rule_id != id);
        lemma_of_rule_none(fs.drop_last(), id);
    }
}

proof fn lemma_of_rule_all(fs: Seq<FindingView>, id: Seq<char>)
    requires
        forall|i: int| 0 <= i < fs.len() ==> (#[trigger] fs[i]).rule_id == id,
    ensures
        of_rule(fs, id) == fs,
    decreases fs.len(),
{
    if fs.len() > 0 {
        assert(fs[fs.len() - 1].rule_id == id);
        lemma_of_rule_all(fs.drop_last(), id);
        assert(fs.drop_last().push(fs.last()) =~= fs);
    }
}

proof fn lemma_of_rule_review(m: ToolManifest, id: Seq<char>)
    ensures
        of_rule(review_findings(m), id) == of_rule(r001_findings(m), id) + of_rule(r002_findings(m), id)
            + of_rule(r003_findings(m), id) + of_rule(r004_findings(m), id) + of_rule(r005_findings(m), id)
            + of_rule(r006_findings(m), id) + of_rule(r007_findings(m.host_os@), id) + of_rule(
            r008_findings(m),
            id,
        ) + of_rule(r009_findings(m), id),
{
    let p1 = r001_findings(m);
    let p2 = r002_findings(m);
    let p3 = r003_findings(m);
    let p4 = r004_findings(m);
    let p5 = r005_findings(m);
    let p6 = r006_findings(m);
    let p7 = r007_findings(m.host_os@);
    let p8 = r008_findings(m);
    let p9 = r009_findings(m);
    lemma_of_rule_concat(p1, p2, id);
    lemma_of_rule_concat(p1 + p2, p3, id);
    lemma_of_rule_concat(p1 + p2 + p3, p4, id);
    lemma_of_rule_concat(p1 + p2 + p3 + p4, p5, id);
    lemma_of_rule_concat(p1 + p2 + p3 + p4 + p5, p6, id);
    lemma_of_rule_concat(p1 + p2 + p3 + p4 + p5 + p6, p7, id);
    lemma_of_rule_concat(p1 + p2 + p3 + p4 + p5 + p6 + p7, p8, id);
    lemma_of_rule_concat(p1 + p2 + p3 + p4 + p5 + p6 + p7 + p8, p9, id);
}

proof fn lemma_of_rule_part(part: Seq<FindingView>, pid: Seq<char>, id: Seq<char>)
    requires
        all_of_rule(part, pid),
    ensures
        of_rule(part, id) == (if pid == id {
            part
        } else {
            Seq::<FindingView>::empty()
        }),
{
    if pid == id {
        lemma_of_rule_all(part, id);
    } else {
        lemma_of_rule_none(part, id);
        assert(of_rule(part, id) =~= Seq::<FindingView>::empty());
    }
}

proof fn lemma_rule_parts(m: ToolManifest, id: Seq<char>)
    ensures
        of_rule(r001_findings(m), id) == (if id == "R001"@ { r001_findings(m) } else { Seq::<FindingView>::empty() }),
        of_rule(r002_findings(m), id) == (if id == "R002"@ { r002_findings(m) } else { Seq::<FindingView>::empty() }),
        of_rule(r003_findings(m), id) == (if id == "R003"@ { r003_findings(m) } else { Seq::<FindingView>::empty() }),
        of_rule(r004_findings(m), id) == (if id == "R004"@ { r004_findings(m) } else { Seq::<FindingView>::empty() }),
        of_rule(r005_findings(m), id) == (if id == "R005"@ { r005_findings(m) } else { Seq::<FindingView>::empty() }),
        of_rule(r006_findings(m), id) == (if id == "R006"@ { r006_findings(m) } else { Seq::<FindingView>::empty() }),
        of_rule(r007_findings(m.host_os@), id) == (if id == "R007"@ { r007_findings(m.host_os@) } else { Seq::<FindingView>::empty() }),
        of_rule(r008_findings(m), id) == (if id == "R008"@ { r008_findings(m) } else { Seq::<FindingView>::empty() }),
        of_rule(r009_findings(m), id) == (if id == "R009"@ { r009_findings(m) } else { Seq::<FindingView>::empty() }),
{
    lemma_parts_of_rule(m);
    lemma_of_rule_part(r001_findings(m), "R001"@, id);
    lemma_of_rule_part(r002_findings(m), "R002"@, id);
    lemma_of_rule_part(r003_findings(m), "R003"@, id);
    lemma_of_rule_part(r004_findings(m), "R004"@, id);
    lemma_of_rule_part(r005_findings(m), "R005"@, id);
    lemma_of_rule_part(r006_findings(m), "R006"@, id);
    lemma_of_rule_part(r007_findings(m.host_os@), "R007"@, id);
    lemma_of_rule_part(r008_findings(m), "R008"@, id);
    lemma_of_rule_part(r009_findings(m), "R009"@, id);
}

/// The findings of a review come in rule order R001 … R009; every finding
/// has a severity its rule allows (R001 and R008 errors; R002, R007, R009
/// warnings; R003 and R005 errors or warnings; R006 warnings or
/// information; R004 any); a finding carries a registry code exactly when
/// it is R005's; and R001, R002, R003, R005, R006 and R009 give at most one
/// finding each.
pub proof fn law_findings_in_rule_order(m: ToolManifest)
    ensures
        ordered_upto(review_findings(m), 9),
        of_rule(review_findings(m), "R001"@).len() <= 1,
        of_rule(review_findings(m), "R002"@).len() <= 1,
        of_rule(review_findings(m), "R003"@).len() <= 1,
        of_rule(review_findings(m), "R005"@).len() <= 1,
        of_rule(review_findings(m), "R006"@).len() <= 1,
        of_rule(review_findings(m), "R009"@).len() <= 1,
{
    lemma_parts_of_rule(m);
    lemma_rule_ranks();
    let p1 = r001_findings(m);
    let p2 = r002_findings(m);
    let p3 = r003_findings(m);
    let p4 = r004_findings(m);
    let p5 = r005_findings(m);
    let p6 = r006_findings(m);
    let p7 = r007_findings(m.host_os@);
    let p8 = r008_findings(m);
    let p9 = r009_findings(m);
    assert(ordered_upto(Seq::<FindingView>::empty(), 0));
    assert(Seq::<FindingView>::empty() + p1 =~= p1);
    lemma_ordered_step(Seq::<FindingView>::empty(), p1, "R001"@, 1);
    lemma_ordered_step(p1, p2, "R002"@, 2);
    lemma_ordered_step(p1 + p2, p3, "R003"@, 3);
    lemma_ordered_step(p1 + p2 + p3, p4, "R004"@, 4);
    lemma_ordered_step(p1 + p2 + p3 + p4, p5, "R005"@, 5);
    lemma_ordered_step(p1 + p2 + p3 + p4 + p5, p6, "R006"@, 6);
    lemma_ordered_step(p1 + p2 + p3 + p4 + p5 + p6, p7, "R007"@, 7);
    lemma_ordered_step(p1 + p2 + p3 + p4 + p5 + p6 + p7, p8, "R008"@, 8);
    lemma_ordered_step(p1 + p2 + p3 + p4 + p5 + p6 + p7 + p8, p9, "R009"@, 9);
    assert(review_findings(m) == p1 + p2 + p3 + p4 + p5 + p6 + p7 + p8 + p9);
    assert(of_rule(review_findings(m), "R001"@).len() <= 1) by {
        lemma_of_rule_review(m, "R001"@);
        lemma_rule_parts(m, "R001"@);
        assert(of_rule(review_findings(m), "R001"@) =~= p1);
    }
    assert(of_rule(review_findings(m), "R002"@).len() <= 1) by {
        lemma_of_rule_review(m, "R002"@);
        lemma_rule_parts(m, "R002"@);
        assert(of_rule(review_findings(m), "R002"@) =~= p2);
    }
    assert(of_rule(review_findings(m), "R003"@).len() <= 1) by {
        lemma_of_rule_review(m, "R003"@);
        lemma_rule_parts(m, "R003"@);
        assert(of_rule(review_findings(m), "R003"@) =~= p3);
    }
    assert(of_rule(review_findings(m), "R005"@).len() <= 1) by {
        lemma_of_rule_review(m, "R005"@);
        lemma_rule_parts(m, "R005"@);
        assert(of_rule(review_findings(m), "R005"@) =~= p5);
    }
    assert(of_rule(review_findings(m), "R006"@).len() <= 1) by {
        lemma_of_rule_review(m, "R006"@);
        lemma_rule_parts(m, "R006"@);
        assert(of_rule(review_findings(m), "R006"@) =~= p6);
    }
    assert(of_rule(review_findings(m), "R009"@).len() <= 1) by {
        lemma_of_rule_review(m, "R009"@);
        lemma_rule_parts(m, "R009"@);
        assert(of_rule(review_findings(m), "R009"@) =~= p9);
    }
}

proof fn lemma_infix_middle(a: Seq<char>, b: Seq<char>, c: Seq<char>)
    ensures
        has_infix(a + b + c, b),
{
    let t = a + b + c;
    assert(t.subrange(a.len() as int, (a.len() + b.len()) as int) =~= b);
}

/// The per-rule entries of R002, R004, R005 and R006, each finding with no
/// registry code unless it is R005's:
/// - R002: at most one finding, a warning on `version`, exactly when the
///   version is empty or not three dot-separated `u32` parts;
/// - R004: on `parameters_schema`; no schema gives one information finding,
///   an object one warning per missing `type` and per missing
///   `properties`/`items`, anything else one error;
/// - R005: a finding that is not about silence quotes the raw value in its
///   message; the silence finding's suggestion names the `unknown` value;
/// - R006: on `platform`; an empty platform gives one information finding,
///   a known platform (any case) none, any other one warning.
pub proof fn law_rule_entries(m: ToolManifest)
    ensures
        r002_findings(m).len() <= 1,
        r002_findings(m).len() == 1 <==> (m.version@.len() == 0 || !crate::reviewer::version_ok(m.version@)),
        r002_findings(m).len() == 1 ==> r002_findings(m)[0].severity == Severity::Warning
            && r002_findings(m)[0].code is None && r002_findings(m)[0].field == Some("version"@),
        forall|i: int| 0 <= i < r004_findings(m).len() ==> (#[trigger] r004_findings(m)[i]).rule_id == "R004"@
            && r004_findings(m)[i].code is None && r004_findings(m)[i].field == Some("parameters_schema"@),
        m.parameters_schema@ is Null ==> r004_findings(m).len() == 1 && r004_findings(m)[0].severity
            == Severity::Info,
        m.parameters_schema@ matches JsonView::Obj(ms) ==> {
            &&& r004_findings(m).len() == (if crate::json::has_member(ms, "type"@) { 0int } else { 1int })
                + (if crate::json::has_member(ms, "properties"@) || crate::json::has_member(ms, "items"@) {
                0int
            } else {
                1int
            })
            &&& forall|i: int| 0 <= i < r004_findings(m).len() ==> (#[trigger] r004_findings(m)[i]).severity
                == Severity::Warning
        },
        !(m.parameters_schema@ is Null) && !(m.parameters_schema@ is Obj) ==> r004_findings(m).len() == 1
            && r004_findings(m)[0].severity == Severity::Error,
        r005_findings(m).len() == 1 && risk_verdict(m.risk_level@).class != "silence"@ ==> has_infix(
            r005_findings(m)[0].message,
            m.risk_level@,
        ),
        r005_findings(m).len() == 1 && risk_verdict(m.risk_level@).class == "silence"@ ==> has_infix(
            r005_findings(m)[0].suggestion->0,
            "unknown"@,
        ),
        r006_findings(m).len() <= 1,
        forall|i: int| 0 <= i < r006_findings(m).len() ==> (#[trigger] r006_findings(m)[i]).code is None
            && r006_findings(m)[i].field == Some("platform"@),
        m.platform@.len() == 0 ==> r006_findings(m).len() == 1 && r006_findings(m)[0].severity == Severity::Info,
        m.platform@.len() > 0 && crate::reviewer::known_platform(str_lower(m.platform@)) ==> r006_findings(m).len() == 0,
        m.platform@.len() > 0 && !crate::reviewer::known_platform(str_lower(m.platform@)) ==> r006_findings(m).len()
            == 1 && r006_findings(m)[0].severity == Severity::Warning,
{
    let r4 = r004_findings(m);
    if m.parameters_schema@ is Obj {
        let ms = m.parameters_schema@->Obj_0;
        let t = if !crate::json::has_member(ms, "type"@) {
            seq![crate::reviewer::finding("R004"@, Severity::Warning, "参数 Schema 缺少 'type' 字段"@, None, "parameters_schema"@, Some("添加 \"type\": \"object\" 或其他合法类型"@))]
        } else {
            Seq::empty()
        };
        let q = if !crate::json::has_member(ms, "properties"@) && !crate::json::has_member(ms, "items"@) {
            seq![crate::reviewer::finding("R004"@, Severity::Warning, "参数 Schema 缺少 'properties' 或 'items' 字段"@, None, "parameters_schema"@, Some("定义参数的属性结构"@))]
        } else {
            Seq::empty()
        };
        assert(r4 == t + q);
        assert forall|i: int| 0 <= i < r4.len() implies (#[trigger] r4[i]).rule_id == "R004"@ && r4[i].code is None
            && r4[i].field == Some("parameters_schema"@) && r4[i].severity == Severity::Warning by {
            if i < t.len() {
                assert(r4[i] == t[i]);
            } else {
                assert(r4[i] == q[i - t.len()]);
            }
        }
    }
    let vd = risk_verdict(m.risk_level@);
    reveal_strlit("unknown");
    reveal_strlit("silence");
    reveal_strlit("reserved");
    assert("unknown"@[0] != "silence"@[0]);
    assert("reserved"@[0] != "silence"@[0]);
    if r005_findings(m).len() == 1 {
        let f = r005_findings(m)[0];
        assert(vd.raw == m.risk_level@);
        if vd.class == "unknown"@ {
            lemma_infix_middle("风险等级 '"@, vd.raw, "' 是**声明不知道**：已隔离待人工复核（"@ + vd.consequence + "）—— 不是拒绝，也不是沉默"@);
            assert(f.message == "风险等级 '"@ + vd.raw + ("' 是**声明不知道**：已隔离待人工复核（"@ + vd.consequence + "）—— 不是拒绝，也不是沉默"@));
        } else if vd.class == "silence"@ {
            let v = crate::vocabulary::registry_vocabulary();
            reveal_strlit("unknown");
            reveal_with_fuel(crate::registry_parse::first_of_class_from, 6);
            reveal_strlit("value");
            assert("value"@[0] != "unknown"@[0]);
            assert(crate::registry_parse::first_of_class(v, "unknown"@) == 4);
            let pre = "补上风险等级；若确实判不出，**显式写 `"@;
            let post = "`**（会被隔离复核，不会被拒）。已保留原值：'"@ + vd.raw + "'"@;
            lemma_infix_middle(pre, "unknown"@, post);
            assert(v[4].value == "unknown"@);
            assert(f.suggestion == Some(crate::reviewer::r005_suggestion(vd)));
            assert(crate::reviewer::r005_suggestion(vd) =~= pre + "unknown"@ + post);
            assert(f.suggestion->0 =~= pre + "unknown"@ + post);
        } else if vd.class == "reserved"@ {
            let v = crate::vocabulary::registry_vocabulary();
            let post = "' 落在保留段 `"@ + v[crate::registry_parse::first_of_class(v, "reserved"@)].value + "`（永不赋予语义）：已隔离（"@ + vd.consequence + "）"@;
            lemma_infix_middle("风险等级 '"@, vd.raw, post);
            assert(f.message == "风险等级 '"@ + vd.raw + post);
        } else {
            let post = "' 不在注册表词表内（"@ + vd.consequence + "）：已拒绝"@;
            lemma_infix_middle("风险等级 '"@, vd.raw, post);
            assert(f.message == "风险等级 '"@ + vd.raw + post);
        }
    }
}

/// The number of findings that carry a registry code.
pub open spec fn coded_findings(fs: Seq<FindingView>) -> nat
    decreases fs.len(),
{
    if fs.len() == 0 {
        0
    } else {
        coded_findings(fs.drop_last()) + if fs.last().code is Some {
            1nat
        } else {
            0nat
        }
    }
}

/// The registry codes of `fs`, each once, in order of first occurrence.
pub open spec fn codes_in_order(fs: Seq<FindingView>) -> Seq<Seq<char>>
    decreases fs.len(),
{
    if fs.len() == 0 {
        Seq::empty()
    } else {
        let p = codes_in_order(fs.drop_last());
        match fs.last().code {
            Some(c) => if p.contains(c) {
                p
            } else {
                p.push(c)
            },
            None => p,
        }
    }
}

/// The sum of the values of `m` at `keys`.
pub open spec fn sum_at(m: Map<Seq<char>, usize>, keys: Seq<Seq<char>>) -> int
    decreases keys.len(),
{
    if keys.len() == 0 {
        0
    } else {
        sum_at(m, keys.drop_last()) + m[keys.last()] as int
    }
}

proof fn lemma_sum_at_same(m1: Map<Seq<char>, usize>, m2: Map<Seq<char>, usize>, keys: Seq<Seq<char>>)
    requires
        forall|i: int| 0 <= i < keys.len() ==> m1[#[trigger] keys[i]] == m2[keys[i]],
    ensures
        sum_at(m1, keys) == sum_at(m2, keys),
    decreases keys.len(),
{
    if keys.len() > 0 {
        assert(m1[keys[keys.len() - 1]] == m2[keys[keys.len() - 1]]);
        lemma_sum_at_same(m1, m2, keys.drop_last());
    }
}

proof fn lemma_sum_at_bump(m1: Map<Seq<char>, usize>, m2: Map<Seq<char>, usize>, keys: Seq<Seq<char>>, c: Seq<char>)
    requires
        keys.no_duplicates(),
        keys.contains(c),
        m2[c] == m1[c] + 1,
        forall|i: int| 0 <= i < keys.len() && keys[i] != c ==> m1[#[trigger] keys[i]] == m2[keys[i]],
    ensures
        sum_at(m2, keys) == sum_at(m1, keys) + 1,
    decreases keys.len(),
{
    let p = keys.drop_last();
    if keys.last() == c {
        assert(!p.contains(c)) by {
            if p.contains(c) {
                let j = choose|j: int| 0 <= j < p.len() && p[j] == c;
                assert(keys[j] == keys[keys.len() - 1]);
            }
        }
        assert forall|i: int| 0 <= i < p.len() implies m1[#[trigger] p[i]] == m2[p[i]] by {
            assert(p[i] == keys[i]);
            assert(p[i] != c);
        }
        lemma_sum_at_same(m1, m2, p);
    } else {
        let j = choose|j: int| 0 <= j < keys.len() && keys[j] == c;
        assert(j < keys.len() - 1);
        assert(p[j] == c);
        assert(p.no_duplicates());
        assert forall|i: int| 0 <= i < p.len() && p[i] != c implies m1[#[trigger] p[i]] == m2[p[i]] by {
            assert(p[i] == keys[i]);
        }
        lemma_sum_at_bump(m1, m2, p, c);
        assert(m1[keys[keys.len() - 1]] == m2[keys[keys.len() - 1]]);
    }
}

/// The code counts of a report add up to the number of findings that carry
/// a code: their keys are exactly the codes that occur (each once, in order
/// of first occurrence), and their values sum to that number.
pub proof fn law_code_counts_sum(fs: Seq<FindingView>)
    requires
        fs.len() <= usize::MAX,
    ensures
        codes_in_order(fs).no_duplicates(),
        forall|c: Seq<char>| code_counts(fs).contains_key(c) <==> #[trigger] codes_in_order(fs).contains(c),
        sum_at(code_counts(fs), codes_in_order(fs)) == coded_findings(fs),
    decreases fs.len(),
{
    if fs.len() > 0 {
        let p = fs.drop_last();
        law_code_counts_sum(p);
        law_code_counts(p, fs.last().code->0);
        lemma_code_occurrences_bounded(p, fs.last().code->0);
        let m = code_counts(p);
        let k = codes_in_order(p);
        match fs.last().code {
            Some(c) => {
                let m2 = code_counts(fs);
                if k.contains(c) {
                    assert forall|i: int| 0 <= i < k.len() && k[i] != c implies m[#[trigger] k[i]] == m2[k[i]] by {}
                    lemma_sum_at_bump(m, m2, k, c);
                } else {
                    let k2 = k.push(c);
                    assert(k2.drop_last() =~= k);
                    assert forall|i: int| 0 <= i < k.len() implies m[#[trigger] k[i]] == m2[k[i]] by {
                        assert(k[i] != c);
                    }
                    lemma_sum_at_same(m, m2, k);
                    assert(!m.contains_key(c));
                    assert forall|i: int, j: int| 0 <= i < j < k2.len() implies k2[i] != k2[j] by {
                        if j == k.len() {
                            assert(k2[i] == k[i]);
                        } else {
                            assert(k2[i] == k[i] && k2[j] == k[j]);
                        }
                    }
                    assert forall|d: Seq<char>| m2.contains_key(d) <==> #[trigger] k2.contains(d) by {
                        if d == c {
                            assert(k2[k.len() as int] == c);
                        } else if k.contains(d) {
                            let j = choose|j: int| 0 <= j < k.len() && k[j] == d;
                            assert(k2[j] == d);
                        } else if k2.contains(d) {
                            let j = choose|j: int| 0 <= j < k2.len() && k2[j] == d;
                            assert(j < k.len());
                            assert(k[j] == d);
                        }
                    }
                }
            },
            None => {},
        }
    }
}

/// The severity summary of a report adds up to the number of findings:
/// its keys are among `INFO`, `WARNING` and `ERROR`, and the values at those
/// three keys (a missing key counting 0) sum to the number of findings.
pub proof fn law_severity_counts_sum(fs: Seq<FindingView>)
    requires
        fs.len() <= usize::MAX,
    ensures
        forall|k: Seq<char>| #[trigger] crate::reviewer::severity_counts(fs).contains_key(k) ==> k == "INFO"@
            || k == "WARNING"@ || k == "ERROR"@,
        severity_occurrences(fs, "INFO"@) + severity_occurrences(fs, "WARNING"@) + severity_occurrences(
            fs,
            "ERROR"@,
        ) == fs.len(),
        (if crate::reviewer::severity_counts(fs).contains_key("INFO"@) {
            crate::reviewer::severity_counts(fs)["INFO"@] as int
        } else {
            0int
        }) + (if crate::reviewer::severity_counts(fs).contains_key("WARNING"@) {
            crate::reviewer::severity_counts(fs)["WARNING"@] as int
        } else {
            0int
        }) + (if crate::reviewer::severity_counts(fs).contains_key("ERROR"@) {
            crate::reviewer::severity_counts(fs)["ERROR"@] as int
        } else {
            0int
        }) == fs.len(),
    decreases fs.len(),
{
    reveal_strlit("INFO");
    reveal_strlit("WARNING");
    reveal_strlit("ERROR");
    assert("INFO"@[0] != "WARNING"@[0]);
    assert("INFO"@[0] != "ERROR"@[0]);
    assert("WARNING"@[0] != "ERROR"@[0]);
    law_severity_counts(fs, "INFO"@);
    law_severity_counts(fs, "WARNING"@);
    law_severity_counts(fs, "ERROR"@);
    if fs.len() > 0 {
        law_severity_counts_sum(fs.drop_last());
    }
}

/// The number of host OS names, lower-cased, that are none of `macos`,
/// `linux`, `windows`, `ios`, `android`, `freebsd`.
pub open spec fn unlisted_host_os_count(oses: Seq<String>) -> nat
    decreases oses.len(),
{
    if oses.len() == 0 {
        0
    } else {
        let n = str_lower(oses.last()@);
        unlisted_host_os_count(oses.drop_last()) + if n == "macos"@ || n == "linux"@ || n == "windows"@
            || n == "ios"@ || n == "android"@ || n == "freebsd"@ {
            0nat
        } else {
            1nat
        }
    }
}

proof fn lemma_r007_count(oses: Seq<String>)
    ensures
        r007_findings(oses).len() == unlisted_host_os_count(oses),
        forall|i: int| 0 <= i < r007_findings(oses).len() ==> (#[trigger] r007_findings(oses)[i]).severity
            == Severity::Warning && r007_findings(oses)[i].field == Some("host_os"@),
    decreases oses.len(),
{
    if oses.len() > 0 {
        lemma_r007_count(oses.drop_last());
        let p = r007_findings(oses.drop_last());
        let tail = if !crate::reviewer::known_host_os(str_lower(oses.last()@)) {
            seq![crate::reviewer::finding("R007"@, Severity::Warning, "host_os '"@ + oses.last()@ + "' 不在已知列表中"@, None, "host_os"@, Some("使用已知 OS 标识"@))]
        } else {
            Seq::empty()
        };
        assert(r007_findings(oses) == p + tail);
        assert forall|i: int| 0 <= i < (p + tail).len() implies (#[trigger] (p + tail)[i]).severity
            == Severity::Warning && (p + tail)[i].field == Some("host_os"@) by {
            if i < p.len() {
                assert((p + tail)[i] == p[i]);
            } else {
                assert((p + tail)[i] == tail[i - p.len()]);
            }
        }
    }
}

/// R007 accepts exactly the host OSes `macos`, `linux`, `windows`, `ios`,
/// `android` and `freebsd`, in any case: a review gives one R007 warning on
/// `host_os` per listed name that is none of these (lower-cased), and no
/// other R007 finding.
pub proof fn law_host_os_warnings(m: ToolManifest)
    ensures
        of_rule(review_findings(m), "R007"@).len() == unlisted_host_os_count(m.host_os@),
        forall|i: int| 0 <= i < of_rule(review_findings(m), "R007"@).len() ==> (#[trigger] of_rule(
            review_findings(m),
            "R007"@,
        )[i]).severity == Severity::Warning && of_rule(review_findings(m), "R007"@)[i].field == Some(
            "host_os"@,
        ),
{
    lemma_of_rule_review(m, "R007"@);
    lemma_rule_parts(m, "R007"@);
    lemma_rule_ranks();
    lemma_r007_count(m.host_os@);
    assert(of_rule(review_findings(m), "R007"@) =~= r007_findings(m.host_os@));
}

/// The number of findings of severity `sev`.
pub open spec fn severity_count(fs: Seq<FindingView>, sev: Severity) -> nat
    decreases fs.len(),
{
    if fs.len() == 0 {
        0
    } else {
        severity_count(fs.drop_last(), sev) + if fs.last().severity == sev {
            1nat
        } else {
            0nat
        }
    }
}

/// Selecting the findings of one severity (`errors()`, `warnings()`) gives
/// only findings of that severity, all of them, each taken from the report
/// in report order.
pub proof fn law_of_severity_selects(fs: Seq<FindingView>, sev: Severity)
    ensures
        forall|i: int| 0 <= i < of_severity(fs, sev).len() ==> (#[trigger] of_severity(fs, sev)[i]).severity == sev,
        of_severity(fs, sev).len() == severity_count(fs, sev),
        forall|i: int| 0 <= i < of_severity(fs, sev).len() ==> fs.contains(#[trigger] of_severity(fs, sev)[i]),
    decreases fs.len(),
{
    if fs.len() > 0 {
        let p = fs.drop_last();
        law_of_severity_selects(p, sev);
        let q = of_severity(p, sev);
        assert forall|i: int| 0 <= i < of_severity(fs, sev).len() implies (#[trigger] of_severity(fs, sev)[i]).severity
            == sev && fs.contains(of_severity(fs, sev)[i]) by {
            if i < q.len() {
                assert(of_severity(fs, sev)[i] == q[i]);
                assert(p.contains(q[i]));
                let k = choose|k: int| 0 <= k < p.len() && p[k] == q[i];
                assert(fs[k] == p[k]);
            } else {
                assert(of_severity(fs, sev)[i] == fs.last());
                assert(fs[fs.len() - 1] == fs.last());
            }
        }
    }
}

} // verus!
