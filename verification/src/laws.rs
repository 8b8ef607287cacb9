//! Laws of the glove interface and of the L1 audit that relate several
//! functions or hold of every input.
use vstd::prelude::*;
use crate::adapter::{SecurityLevel, security_of};
use crate::glove::{
    DomainView, GloveErrorView, ParamView, dedup_consecutive, domains_of, parameters_schema_of,
    required_names, Platform, RiskLevel, ToolDefView, check_params_from, lemma_tool_index,
    needs_confirmation, platform_name, platform_of_lower, risk_rank, tool_index, type_matches,
    validation_of,
};
use crate::json::{JsonView, key_index_from, value_get};
use crate::macos::{ActionView, PlanView, args_param, macos_tools, plan_of, str_param};
use crate::reviewer::{FindingView, Severity, has_error, of_severity, str_lower};
use crate::text::{all_ascii, ascii_lowercase};

verus! {

/// Lower-casing leaves a text of lower-case ASCII letters alone.
proof fn lemma_lower_fixed(s: Seq<char>)
    requires
        forall|i: int| 0 <= i < s.len() ==> 'a' <= #[trigger] s[i] && s[i] <= 'z',
    ensures
        str_lower(s) == s,
{
    assert(all_ascii(s));
    assert(ascii_lowercase(s) =~= s);
}

/// Parsing a platform's own identifier gives the platform back:
/// `Platform::from_str(p.as_str()) == Some(p)` for every platform.
pub proof fn law_platform_roundtrip(p: Platform)
    ensures
        platform_of_lower(str_lower(platform_name(p))) == Some(p),
{
    reveal_strlit("macos");
    reveal_strlit("mac");
    reveal_strlit("darwin");
    reveal_strlit("ios");
    reveal_strlit("harmony");
    reveal_strlit("harmonyos");
    reveal_strlit("linux");
    reveal_strlit("windows");
    reveal_strlit("win");
    reveal_strlit("android");
    reveal_strlit("robot");
    reveal_strlit("ros");
    reveal_strlit("ros2");
    reveal_strlit("generic");
    reveal_strlit("universal");
    lemma_lower_fixed(platform_name(p));
    assert("ios"@[0] != "mac"@[0]);
    assert("linux"@[0] != "macos"@[0]);
    assert("windows"@[0] != "harmony"@[0]);
    assert("android"@[0] != "harmony"@[0]);
    assert("android"@[0] != "windows"@[0]);
    assert("robot"@[0] != "macos"@[0]);
    assert("robot"@[0] != "linux"@[0]);
    assert("generic"@[0] != "harmony"@[0]);
    assert("generic"@[0] != "windows"@[0]);
    assert("generic"@[0] != "android"@[0]);
}

/// A risk level needs human confirmation exactly when it is `Critical` or
/// above, and exactly then the adapter gives its tool the `Critical`
/// security level: the risk is carried over, not softened.
pub proof fn law_confirmation_is_critical(r: RiskLevel)
    ensures
        needs_confirmation(r) <==> risk_rank(r) >= 2,
        needs_confirmation(r) <==> security_of(r) == SecurityLevel::Critical,
{
}

/// A report passes exactly when its list of error findings is empty.
pub proof fn law_passed_iff_no_errors(fs: Seq<FindingView>)
    ensures
        !has_error(fs) <==> of_severity(fs, Severity::Error).len() == 0,
    decreases fs.len(),
{
    if fs.len() > 0 {
        let p = fs.drop_last();
        law_passed_iff_no_errors(p);
        if has_error(p) {
            let i = choose|i: int| 0 <= i < p.len() && (#[trigger] p[i]).severity == Severity::Error;
            assert(fs[i] == p[i]);
        }
        if has_error(fs) && fs.last().severity != Severity::Error {
            let i = choose|i: int| 0 <= i < fs.len() && (#[trigger] fs[i]).severity == Severity::Error;
            assert(p[i] == fs[i]);
        }
        if !has_error(fs) {
            assert forall|i: int| 0 <= i < p.len() implies (#[trigger] p[i]).severity != Severity::Error by {
                assert(fs[i] == p[i]);
            }
        }
        if fs.last().severity == Severity::Error {
            assert(fs[fs.len() - 1].severity == Severity::Error);
        }
    }
}

/// The macOS glove checks a call against the tool's definition before
/// anything else: a call that fails validation fails with the validation's
/// error, dry run or not.
pub proof fn law_validation_comes_first(tool: Seq<char>, params: JsonView, dry_run: bool)
    requires
        validation_of(macos_tools(), tool, params) is Err,
    ensures
        plan_of(tool, params, dry_run) == Err::<PlanView, GloveErrorView>(
            validation_of(macos_tools(), tool, params)->Err_0,
        ),
{
}

/// A dry run performs nothing: whatever the tool and parameters, a dry-run
/// call is answered at once with a result marked as a dry run, or refused.
/// A call that is not a dry run and is not refused names an operation to
/// perform.
pub proof fn law_dry_run_performs_nothing(tool: Seq<char>, params: JsonView)
    ensures
        plan_of(tool, params, true) matches Ok(p) ==> (p matches PlanView::Done(r) && r.is_dry_run
            && r.success && r.error is None && r.error_code is None && value_get(r.data->0, "dry_run"@)
            == Some(JsonView::Bool(true))),
        plan_of(tool, params, false) matches Ok(p) ==> p is Perform,
{
    reveal_strlit("dry_run");
    if plan_of(tool, params, true) is Ok {
        let r = plan_of(tool, params, true)->Ok_0->Done_0;
        let ms = r.data->0->Obj_0;
        assert(ms[0].0 == "dry_run"@);
        assert(key_index_from(ms, "dry_run"@, 0) == 0);
    }
}

/// Every parameter from index `i` on is acceptable in `params`.
pub open spec fn params_acceptable_from(ps: Seq<ParamView>, params: JsonView, i: int) -> bool {
    forall|j: int| i <= j < ps.len() ==> {
        &&& (#[trigger] ps[j]).required ==> value_get(params, ps[j].name) is Some
        &&& value_get(params, ps[j].name) matches Some(v) ==> type_matches(ps[j].param_type, v)
    }
}

proof fn lemma_check_params_from(ps: Seq<ParamView>, params: JsonView, i: int)
    requires
        0 <= i <= ps.len(),
    ensures
        check_params_from(ps, params, i) is Ok <==> params_acceptable_from(ps, params, i),
    decreases ps.len() - i,
{
    if i < ps.len() {
        lemma_check_params_from(ps, params, i + 1);
        if params_acceptable_from(ps, params, i) {
            assert(params_acceptable_from(ps, params, i + 1));
        }
    }
}

/// Parameter validation accepts a call exactly when the tool exists, every
/// required parameter is present and every present parameter has its
/// declared type (checked in declaration order; an undeclared type name
/// accepts anything).
pub proof fn law_validation_accepts_exactly(ts: Seq<ToolDefView>, tool: Seq<char>, params: JsonView)
    ensures
        validation_of(ts, tool, params) is Ok <==> (exists|k: int|
            0 <= k < ts.len() && (#[trigger] ts[k]).name == tool)
            && params_acceptable_from(ts[tool_index(ts, tool)].parameters, params, 0),
{
    lemma_tool_index(ts, tool);
    let k = tool_index(ts, tool);
    if k < ts.len() {
        lemma_check_params_from(ts[k].parameters, params, 0);
    } else {
        if exists|j: int| 0 <= j < ts.len() && (#[trigger] ts[j]).name == tool {
            let j = choose|j: int| 0 <= j < ts.len() && (#[trigger] ts[j]).name == tool;
            assert(ts[j].name != tool);
        }
    }
}

/// Collapsing consecutive repeats keeps exactly the same elements, and
/// leaves no two equal neighbours.
proof fn lemma_dedup_same_elements(s: Seq<DomainView>)
    ensures
        forall|x: DomainView| dedup_consecutive(s).contains(x) <==> s.contains(x),
        forall|i: int|
            0 <= i < dedup_consecutive(s).len() - 1 ==> #[trigger] dedup_consecutive(s)[i] != dedup_consecutive(
                s,
            )[i + 1],
        dedup_consecutive(s).len() > 0 ==> dedup_consecutive(s).last() == s.last(),
    decreases s.len(),
{
    if s.len() > 0 {
        let p = s.drop_last();
        lemma_dedup_same_elements(p);
        let d = dedup_consecutive(p);
        assert forall|x: DomainView| dedup_consecutive(s).contains(x) <==> s.contains(x) by {
            if s.contains(x) {
                let i = choose|i: int| 0 <= i < s.len() && s[i] == x;
                if i < s.len() - 1 {
                    assert(p[i] == x);
                    assert(p.contains(x));
                    let j = choose|j: int| 0 <= j < d.len() && d[j] == x;
                    assert(dedup_consecutive(s)[j] == x);
                } else {
                    if d.len() > 0 && d.last() == s.last() {
                        assert(dedup_consecutive(s)[d.len() - 1] == x);
                    } else {
                        assert(dedup_consecutive(s)[d.len() as int] == x);
                    }
                }
            }
            if dedup_consecutive(s).contains(x) {
                let j = choose|j: int| 0 <= j < dedup_consecutive(s).len() && dedup_consecutive(s)[j] == x;
                if j < d.len() {
                    assert(d[j] == x);
                    assert(d.contains(x));
                    assert(dedup_consecutive(p).contains(x));
                    assert(p.contains(x));
                    let i = choose|i: int| 0 <= i < p.len() && p[i] == x;
                    assert(s[i] == p[i]);
                    assert(s.contains(x));
                } else {
                    assert(s[s.len() - 1] == x);
                }
            }
        }
    }
}

/// The capabilities a glove declares are exactly the domains of its tools:
/// every tool's domain is among them and each of them is some tool's domain,
/// with no capability listed twice in a row.
pub proof fn law_capabilities_are_tool_domains(ts: Seq<ToolDefView>)
    ensures
        forall|x: DomainView| dedup_consecutive(domains_of(ts)).contains(x) <==> domains_of(ts).contains(x),
        forall|i: int|
            0 <= i < dedup_consecutive(domains_of(ts)).len() - 1 ==> #[trigger] dedup_consecutive(
                domains_of(ts),
            )[i] != dedup_consecutive(domains_of(ts))[i + 1],
{
    lemma_dedup_same_elements(domains_of(ts));
}

/// A validated `macos.process.execute` call that is not a dry run runs
/// exactly the `command` parameter with the string elements of `args` (other
/// elements skipped); a dry run answers at once with the same command and
/// arguments. What the run produces is then described by `command_view`.
pub proof fn law_execute_command_plan(params: JsonView, command: Seq<char>)
    requires
        validation_of(macos_tools(), "macos.process.execute"@, params) is Ok,
        str_param(params, "command"@) == Some(command),
    ensures
        plan_of("macos.process.execute"@, params, false) == Ok::<PlanView, GloveErrorView>(
            PlanView::Perform(ActionView::ExecuteCommand(command, args_param(params))),
        ),
        plan_of("macos.process.execute"@, params, true) == Ok::<PlanView, GloveErrorView>(
            PlanView::Done(crate::macos::dry_execute_command(command, args_param(params))),
        ),
{
    reveal_strlit("macos.process.execute");
    reveal_strlit("macos.fs.read_file");
    reveal_strlit("macos.fs.write_file");
    reveal_strlit("macos.fs.list_directory");
    assert("macos.process.execute"@[6] != "macos.fs.read_file"@[6]);
    assert("macos.process.execute"@.len() != "macos.fs.write_file"@.len());
    assert("macos.process.execute"@[6] != "macos.fs.list_directory"@[6]);
}

/// Platform names are read without regard to ASCII case: two ASCII names
/// that differ only in case name the same platform (or none), and an ASCII
/// name is looked up, aliases included, in its ASCII lower-case form.
pub proof fn law_platform_case_insensitive(s: Seq<char>, t: Seq<char>)
    requires
        all_ascii(s),
        all_ascii(t),
        ascii_lowercase(s) == ascii_lowercase(t),
    ensures
        platform_of_lower(str_lower(s)) == platform_of_lower(str_lower(t)),
        platform_of_lower(str_lower(s)) == platform_of_lower(ascii_lowercase(s)),
{
}

proof fn lemma_string_param_present(params: JsonView, p: ParamView)
    requires
        p.required,
        p.param_type == "string"@,
        value_get(params, p.name) is Some,
        value_get(params, p.name) matches Some(v) ==> type_matches(p.param_type, v),
    ensures
        str_param(params, p.name) is Some,
{
}

/// A dry run of a call that passes validation always succeeds: every
/// macOS tool answers it at once with a successful dry-run result.
pub proof fn law_validated_dry_run_answers(tool: Seq<char>, params: JsonView)
    requires
        validation_of(macos_tools(), tool, params) is Ok,
    ensures
        plan_of(tool, params, true) matches Ok(p) && (p matches PlanView::Done(r) && r.is_dry_run
            && r.success),
{
    let ts = macos_tools();
    law_validation_accepts_exactly(ts, tool, params);
    lemma_tool_index(ts, tool);
    let k = tool_index(ts, tool);
    assert(k < ts.len());
    let ps = ts[k].parameters;
    assert(params_acceptable_from(ps, params, 0));
    reveal_strlit("string");
    reveal_strlit("macos.fs.read_file");
    reveal_strlit("macos.fs.write_file");
    reveal_strlit("macos.fs.list_directory");
    reveal_strlit("macos.process.execute");
    reveal_strlit("macos.process.list");
    reveal_strlit("macos.script.applescript");
    assert("macos.fs.write_file"@[9] != "macos.fs.read_file"@[9]);
    assert("macos.fs.list_directory"@[9] != "macos.fs.read_file"@[9]);
    assert("macos.fs.list_directory"@[9] != "macos.fs.write_file"@[9]);
    assert("macos.process.execute"@[6] != "macos.fs.read_file"@[6]);
    assert("macos.process.list"@[6] != "macos.fs.read_file"@[6]);
    assert("macos.process.list"@[6] != "macos.fs.write_file"@[6]);
    assert("macos.process.list"@[6] != "macos.fs.list_directory"@[6]);
    assert("macos.process.list"@[14] != "macos.process.execute"@[14]);
    assert("macos.script.applescript"@[6] != "macos.fs.read_file"@[6]);
    assert("macos.script.applescript"@[6] != "macos.fs.write_file"@[6]);
    assert("macos.script.applescript"@[6] != "macos.fs.list_directory"@[6]);
    assert("macos.script.applescript"@[6] != "macos.process.execute"@[6]);
    assert("macos.script.applescript"@[6] != "macos.process.list"@[6]);
    if k == 0 || k == 2 || k == 5 {
        assert(ps[0].required && ps[0].param_type == "string"@);
        lemma_string_param_present(params, ps[0]);
    } else if k == 1 {
        assert(ps[0].required && ps[0].param_type == "string"@);
        assert(ps[1].required && ps[1].param_type == "string"@);
        lemma_string_param_present(params, ps[0]);
        lemma_string_param_present(params, ps[1]);
    } else if k == 3 {
        assert(ps[0].required && ps[0].param_type == "string"@);
        lemma_string_param_present(params, ps[0]);
    }
}

/// The number of required parameters.
pub open spec fn count_required(ps: Seq<ParamView>) -> nat
    decreases ps.len(),
{
    if ps.len() == 0 {
        0
    } else {
        count_required(ps.drop_last()) + if ps.last().required {
            1nat
        } else {
            0nat
        }
    }
}

/// `n` is the name of a required parameter of `ps`.
pub open spec fn is_required_name(ps: Seq<ParamView>, n: Seq<char>) -> bool {
    exists|i: int| 0 <= i < ps.len() && (#[trigger] ps[i]).required && ps[i].name == n
}

proof fn lemma_required_names(ps: Seq<ParamView>)
    ensures
        required_names(ps).len() == count_required(ps),
        forall|i: int| 0 <= i < ps.len() && (#[trigger] ps[i]).required ==> required_names(ps).contains(ps[i].name),
        forall|j: int| 0 <= j < required_names(ps).len() ==> is_required_name(ps, #[trigger] required_names(ps)[j]),
    decreases ps.len(),
{
    if ps.len() > 0 {
        let p = ps.drop_last();
        lemma_required_names(p);
        let r = required_names(p);
        assert forall|i: int| 0 <= i < ps.len() && (#[trigger] ps[i]).required implies required_names(ps).contains(ps[i].name) by {
            if i < p.len() {
                assert(p[i] == ps[i]);
                assert(r.contains(ps[i].name));
                let k = choose|k: int| 0 <= k < r.len() && r[k] == ps[i].name;
                assert(required_names(ps)[k] == ps[i].name);
            } else {
                assert(required_names(ps)[r.len() as int] == ps[i].name);
            }
        }
        assert forall|j: int| 0 <= j < required_names(ps).len() implies is_required_name(ps, #[trigger] required_names(ps)[j]) by {
            if j < r.len() {
                assert(required_names(ps) == r || required_names(ps) == r.push(ps.last().name));
                assert(required_names(ps)[j] == r[j]);
                assert(is_required_name(p, r[j]));
                let i = choose|i: int| 0 <= i < p.len() && (#[trigger] p[i]).required && p[i].name == r[j];
                assert(ps[i] == p[i]);
                assert(0 <= i < ps.len() && ps[i].required && ps[i].name == required_names(ps)[j]);
            } else {
                assert(ps.last().required);
                assert(required_names(ps) == r.push(ps.last().name));
                assert(required_names(ps)[j] == ps.last().name);
                let i = ps.len() - 1;
                assert(ps[i] == ps.last());
                assert(0 <= i < ps.len() && ps[i].required && ps[i].name == required_names(ps)[j]);
            }
        }
    }
}

/// The schema's `required` list names exactly the required parameters: it
/// is absent when no parameter is required; otherwise it holds one string
/// per required parameter, every required parameter's name is in it, and
/// every name in it is a required parameter's.
pub proof fn law_schema_required_list(ps: Seq<ParamView>)
    ensures
        count_required(ps) == 0 ==> value_get(parameters_schema_of(ps), "required"@) is None,
        count_required(ps) > 0 ==> (value_get(parameters_schema_of(ps), "required"@) matches Some(
            JsonView::Arr(items),
        ) && items.len() == count_required(ps) && (forall|i: int|
            0 <= i < ps.len() && (#[trigger] ps[i]).required ==> items.contains(JsonView::Str(ps[i].name)))
            && (forall|j: int|
            0 <= j < items.len() ==> exists|i: int|
                0 <= i < ps.len() && (#[trigger] ps[i]).required && #[trigger] items[j] == JsonView::Str(
                    ps[i].name,
                ))),
{
    lemma_required_names(ps);
    reveal_strlit("type");
    reveal_strlit("properties");
    reveal_strlit("required");
    assert("type"@[0] != "required"@[0]);
    assert("properties"@[0] != "required"@[0]);
    let req = required_names(ps);
    let base = seq![("type"@, JsonView::Str("object"@)), ("properties"@, JsonView::Obj(crate::glove::properties_of(ps)))];
    if req.len() == 0 {
        assert(key_index_from(base, "required"@, 2) == 2);
        assert(key_index_from(base, "required"@, 1) == 2);
        assert(key_index_from(base, "required"@, 0) == 2);
    } else {
        let items = req.map_values(|s: Seq<char>| JsonView::Str(s));
        let ms = base.push(("required"@, JsonView::Arr(items)));
        assert(key_index_from(ms, "required"@, 2) == 2);
        assert(key_index_from(ms, "required"@, 1) == 2);
        assert(key_index_from(ms, "required"@, 0) == 2);
        assert forall|i: int| 0 <= i < ps.len() && (#[trigger] ps[i]).required implies items.contains(
            JsonView::Str(ps[i].name),
        ) by {
            let k = choose|k: int| 0 <= k < req.len() && req[k] == ps[i].name;
            assert(items[k] == JsonView::Str(ps[i].name));
        }
        assert forall|j: int| 0 <= j < items.len() implies exists|i: int|
            0 <= i < ps.len() && (#[trigger] ps[i]).required && #[trigger] items[j] == JsonView::Str(
                ps[i].name,
            ) by {
            assert(items[j] == JsonView::Str(req[j]));
            assert(is_required_name(ps, req[j]));
            let i = choose|i: int| 0 <= i < ps.len() && (#[trigger] ps[i]).required && ps[i].name == req[j];
            assert(ps[i].required && items[j] == JsonView::Str(ps[i].name));
        }
    }
}

/// What a declared parameter type accepts: `string` exactly strings,
/// `number` exactly numbers of every kind (non-negative, negative and
/// fractional), `integer` exactly whole numbers, `boolean` exactly booleans,
/// `array` exactly arrays, `object` exactly objects; any other type name
/// accepts every value.
pub proof fn law_type_acceptance(t: Seq<char>, v: JsonView)
    ensures
        t == "string"@ ==> (type_matches(t, v) <==> v is Str),
        t == "number"@ ==> (type_matches(t, v) <==> (v is PosInt || v is NegInt || v is Float)),
        t == "integer"@ ==> (type_matches(t, v) <==> (v is PosInt || v is NegInt)),
        t == "boolean"@ ==> (type_matches(t, v) <==> v is Bool),
        t == "array"@ ==> (type_matches(t, v) <==> v is Arr),
        t == "object"@ ==> (type_matches(t, v) <==> v is Obj),
        t != "string"@ && t != "number"@ && t != "integer"@ && t != "boolean"@ && t != "array"@ && t
            != "object"@ ==> type_matches(t, v),
{
    reveal_strlit("string");
    reveal_strlit("number");
    reveal_strlit("integer");
    reveal_strlit("boolean");
    reveal_strlit("array");
    reveal_strlit("object");
    assert("string"@[0] != "number"@[0]);
    assert("string"@[0] != "integer"@[0]);
    assert("string"@[0] != "boolean"@[0]);
    assert("string"@[0] != "array"@[0]);
    assert("string"@[0] != "object"@[0]);
    assert("number"@[0] != "integer"@[0]);
    assert("number"@[0] != "boolean"@[0]);
    assert("number"@[0] != "array"@[0]);
    assert("number"@[0] != "object"@[0]);
    assert("integer"@[0] != "boolean"@[0]);
    assert("integer"@[0] != "array"@[0]);
    assert("integer"@[0] != "object"@[0]);
    assert("boolean"@[0] != "array"@[0]);
    assert("boolean"@[0] != "object"@[0]);
    assert("array"@[0] != "object"@[0]);
}

/// A call gives a parameter declared `number` a fractional or negative
/// value: validation accepts it exactly as it accepts a non-negative whole
/// number, so no number is refused for its kind.
pub proof fn law_numbers_validate_alike(ps: Seq<ParamView>, params: JsonView, j: int, v: JsonView)
    requires
        0 <= j < ps.len(),
        ps[j].param_type == "number"@,
        value_get(params, ps[j].name) == Some(v),
        v is PosInt || v is NegInt || v is Float,
    ensures
        type_matches(ps[j].param_type, v),
{
    law_type_acceptance(ps[j].param_type, v);
}

} // verus!
