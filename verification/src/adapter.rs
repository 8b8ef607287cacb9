//! Adapting a glove to the Helix-Tentacle tool model: each tool definition
//! becomes a manifest record (name, version, tags, `glove://` executable,
//! parameter schema, security level, platform support), and a tool result
//! becomes a tool output.
use vstd::prelude::*;
use std::sync::Arc;
use crate::glove::{
    EcoGlove, GloveError, GloveErrorView, Platform, RiskLevel, ToolDefView, ToolDefinition,
    ToolResult, domain_name, error_text, lemma_tool_index, parameters_schema_of, platform_name,
    risk_name, tool_index,
    tools_view,
};
use crate::json::{JsonValue, JsonView};
use crate::text::{append_str, chars_of, string_of};

verus! {

/// Adapter errors.
#[derive(Debug, PartialEq, Eq)]
pub enum AdapterError {
    /// No tool of that name.
    ToolNotFound(String),
    /// The glove reported an error (its display text).
    GloveError(String),
    /// The registry refused a tool (its display text).
    RegistryError(String),
}

/// The mathematical content of an [`AdapterError`].
pub enum AdapterErrorView {
    ToolNotFound(Seq<char>),
    GloveError(Seq<char>),
    RegistryError(Seq<char>),
}

impl View for AdapterError {
    type V = AdapterErrorView;

    open spec fn view(&self) -> AdapterErrorView {
        match self {
            AdapterError::ToolNotFound(s) => AdapterErrorView::ToolNotFound(s@),
            AdapterError::GloveError(s) => AdapterErrorView::GloveError(s@),
            AdapterError::RegistryError(s) => AdapterErrorView::RegistryError(s@),
        }
    }
}

/// The display text of an adapter error.
pub open spec fn adapter_error_text(e: AdapterErrorView) -> Seq<char> {
    match e {
        AdapterErrorView::ToolNotFound(s) => "Tool not found: "@ + s,
        AdapterErrorView::GloveError(s) => "Glove execution error: "@ + s,
        AdapterErrorView::RegistryError(s) => "Registry error: "@ + s,
    }
}

fn prefixed(prefix: &str, s: &String) -> (r: String)
    ensures
        r@ == prefix@ + s@,
{
    let mut v = chars_of(prefix);
    append_str(&mut v, s.as_str());
    string_of(&v)
}

impl AdapterError {
    /// The display text, such as `Tool not found: x`.
    pub fn to_string(&self) -> (r: String)
        ensures
            r@ == adapter_error_text(self@),
    {
        match self {
            AdapterError::ToolNotFound(s) => prefixed("Tool not found: ", s),
            AdapterError::GloveError(s) => prefixed("Glove execution error: ", s),
            AdapterError::RegistryError(s) => prefixed("Registry error: ", s),
        }
    }

    /// The adapter error of a glove error: the glove error's display text.
    pub fn from_glove_error(e: GloveError) -> (r: Self)
        ensures
            r@ == AdapterErrorView::GloveError(error_text(e@)),
    {
        AdapterError::GloveError(e.to_string())
    }
}

/// Tentacle's security level of a tool.
#[derive(Debug, Clone, Copy, PartialEq, Eq, Structural)]
pub enum SecurityLevel {
    /// No confirmation needed.
    Normal,
    /// Needs confirmation.
    Critical,
}

/// The security level of a risk level: `Low` and `Medium` are `Normal`,
/// `Critical` and `Catastrophic` are `Critical`.
pub open spec fn security_of(r: RiskLevel) -> SecurityLevel {
    match r {
        RiskLevel::Low | RiskLevel::Medium => SecurityLevel::Normal,
        RiskLevel::Critical | RiskLevel::Catastrophic => SecurityLevel::Critical,
    }
}

/// The security level of a risk level (risk is a physical fact and is kept).
pub fn risk_to_security(risk: &RiskLevel) -> (r: SecurityLevel)
    ensures
        r == security_of(*risk),
{
    match risk {
        RiskLevel::Low | RiskLevel::Medium => SecurityLevel::Normal,
        RiskLevel::Critical | RiskLevel::Catastrophic => SecurityLevel::Critical,
    }
}

/// What the adapter fills in of a Tentacle manifest for one glove tool.
#[derive(Debug, Clone, PartialEq, Eq)]
pub struct GloveManifest {
    /// The tool's name.
    pub name: String,
    /// The tool's version.
    pub version: String,
    /// The tool's description.
    pub description: String,
    /// The glove's name.
    pub author: Option<String>,
    /// Platform, domain and risk level identifiers, in that order.
    pub tags: Vec<String>,
    /// `glove://<glove name>/<tool name>`.
    pub executable: String,
    /// The tool's parameter schema.
    pub parameters_schema: JsonValue,
    /// The security level of the tool's risk level.
    pub security_level: SecurityLevel,
    /// Timeout in milliseconds.
    pub timeout_ms: u64,
    /// The glove's platform identifier.
    pub platform: String,
    /// The glove's host OSes.
    pub host_os: Vec<String>,
}

/// The timeout the adapter gives every glove tool.
pub const GLOVE_TOOL_TIMEOUT_MS: u64 = 30000;

/// The manifest record of tool `t` of a glove with this name, platform and host OSes.
pub open spec fn manifest_matches(
    m: GloveManifest,
    t: ToolDefView,
    glove_name: Seq<char>,
    platform: Platform,
    host_os: Seq<Seq<char>>,
) -> bool {
    &&& m.name@ == t.name
    &&& m.version@ == t.version
    &&& m.description@ == t.description
    &&& m.author matches Some(a) && a@ == glove_name
    &&& m.tags@.map_values(|s: String| s@) == seq![platform_name(platform), domain_name(t.domain), risk_name(t.risk_level)]
    &&& m.executable@ == "glove://"@ + glove_name + "/"@ + t.name
    &&& m.parameters_schema@ == parameters_schema_of(t.parameters)
    &&& m.security_level == security_of(t.risk_level)
    &&& m.timeout_ms == GLOVE_TOOL_TIMEOUT_MS
    &&& m.platform@ == platform_name(platform)
    &&& m.host_os@.map_values(|s: String| s@) == host_os
}

fn text(s: &str) -> (r: String)
    ensures
        r@ == s@,
{
    string_of(&chars_of(s))
}

/// The manifest record of a glove's tool.
pub fn tool_definition_to_manifest<G: EcoGlove>(tool: &ToolDefinition, glove: &G) -> (m: GloveManifest)
    ensures
        manifest_matches(m, tool@, glove.spec_name(), glove.spec_platform(), glove.spec_host_os()),
{
    let glove_name = glove.name();
    let platform = glove.platform();
    let mut tags: Vec<String> = Vec::new();
    tags.push(text(platform.as_str()));
    tags.push(text(tool.domain.as_str()));
    tags.push(text(tool.risk_level.as_str()));
    assert(tags@.map_values(|s: String| s@) =~= seq![platform_name(platform), domain_name(tool@.domain), risk_name(tool.risk_level)]);
    let mut exe = chars_of("glove://");
    append_str(&mut exe, glove_name);
    append_str(&mut exe, "/");
    append_str(&mut exe, tool.name.as_str());
    let oses = glove.host_os();
    let mut host_os: Vec<String> = Vec::new();
    let mut i: usize = 0;
    while i < oses.len()
        invariant
            i <= oses.len(),
            host_os@.len() == i,
            forall|k: int| 0 <= k < i ==> (#[trigger] host_os@[k])@ == oses@[k]@,
        decreases oses.len() - i,
    {
        host_os.push(text(oses[i]));
        i = i + 1;
    }
    assert(host_os@.map_values(|s: String| s@) =~= oses@.map_values(|s: &'static str| s@));
    GloveManifest {
        name: tool.name.clone(),
        version: tool.version.clone(),
        description: tool.description.clone(),
        author: Some(text(glove_name)),
        tags,
        executable: string_of(&exe),
        parameters_schema: tool.parameters_json_schema(),
        security_level: risk_to_security(&tool.risk_level),
        timeout_ms: GLOVE_TOOL_TIMEOUT_MS,
        platform: text(platform.as_str()),
        host_os,
    }
}

/// A glove tool as a Tentacle tool: the glove and the tool's manifest record.
pub struct GloveTool<G: EcoGlove> {
    glove: Arc<G>,
    manifest: GloveManifest,
}

impl<G: EcoGlove> GloveTool<G> {
    /// The manifest record of this tool.
    pub closed spec fn spec_manifest(&self) -> GloveManifest {
        self.manifest
    }

    /// The glove.
    pub closed spec fn spec_glove(&self) -> G {
        *self.glove
    }

    /// Wraps the glove's tool `tool_name`; `ToolNotFound` when the glove has no such tool.
    pub fn new(glove: Arc<G>, tool_name: &str) -> (r: Result<Self, AdapterError>)
        ensures
            tool_index((*glove).spec_tools(), tool_name@) >= (*glove).spec_tools().len() ==> (r matches Err(e) && e@ == AdapterErrorView::ToolNotFound(tool_name@)),
            tool_index((*glove).spec_tools(), tool_name@) < (*glove).spec_tools().len() ==> (r matches Ok(t) && t.spec_glove() == *glove && manifest_matches(
                t.spec_manifest(),
                (*glove).spec_tools()[tool_index((*glove).spec_tools(), tool_name@)],
                (*glove).spec_name(),
                (*glove).spec_platform(),
                (*glove).spec_host_os(),
            )),
    {
        let def = match glove.get_tool(tool_name) {
            Some(d) => d,
            None => {
                return Err(AdapterError::ToolNotFound(text(tool_name)));
            },
        };
        let manifest = tool_definition_to_manifest(&def, &*glove);
        Ok(GloveTool { glove, manifest })
    }

    /// The glove.
    pub fn glove(&self) -> (r: &G)
        ensures
            *r == self.spec_glove(),
    {
        &self.glove
    }

    /// The tool's name.
    pub fn name(&self) -> (r: &str)
        ensures
            r@ == self.spec_manifest().name@,
    {
        self.manifest.name.as_str()
    }

    /// The tool's manifest record.
    pub fn manifest(&self) -> (r: &GloveManifest)
        ensures
            *r == self.spec_manifest(),
    {
        &self.manifest
    }
}

/// What a Tentacle tool output carries of a glove result.
#[derive(Debug, Clone, PartialEq, Eq)]
pub struct GloveToolOutput {
    /// Whether the tool succeeded.
    pub ok: bool,
    /// The data of a success (`null` when the result had none).
    pub data: Option<JsonValue>,
    /// The message of a failure (`Unknown error` when the result had none).
    pub error: Option<String>,
    /// The run time in milliseconds.
    pub duration_ms: Option<u64>,
}

/// The output of a glove result: a success carries the result's data
/// (`null` when absent), a failure its message (`Unknown error` when absent);
/// both carry the run time.
pub open spec fn output_matches(o: GloveToolOutput, r: ToolResult) -> bool {
    &&& o.ok == r.success
    &&& o.duration_ms == Some(r.duration_ms)
    &&& if r.success {
        &&& o.error is None
        &&& o.data matches Some(d) && d@ == (match r.data {
            Some(x) => x@,
            None => JsonView::Null,
        })
    } else {
        &&& o.data is None
        &&& o.error matches Some(e) && e@ == (match r.error {
            Some(x) => x@,
            None => "Unknown error"@,
        })
    }
}

/// The output of a glove result (see [`output_matches`]).
pub fn tool_result_to_output(result: ToolResult) -> (o: GloveToolOutput)
    ensures
        output_matches(o, result),
{
    let duration = result.duration_ms;
    if result.success {
        let data = match result.data {
            Some(d) => d,
            None => JsonValue::Null,
        };
        GloveToolOutput { ok: true, data: Some(data), error: None, duration_ms: Some(duration) }
    } else {
        let err = match result.error {
            Some(e) => e,
            None => text("Unknown error"),
        };
        GloveToolOutput { ok: false, data: None, error: Some(err), duration_ms: Some(duration) }
    }
}

/// The adapter of one glove.
pub struct GloveAdapter<G: EcoGlove> {
    glove: Arc<G>,
}

impl<G: EcoGlove> GloveAdapter<G> {
    /// The glove.
    pub closed spec fn spec_glove(&self) -> G {
        *self.glove
    }

    /// An adapter of `glove`.
    pub fn new(glove: Arc<G>) -> (r: Self)
        ensures
            r.spec_glove() == *glove,
    {
        GloveAdapter { glove }
    }

    /// The glove.
    pub fn glove(&self) -> (r: &G)
        ensures
            *r == self.spec_glove(),
    {
        &self.glove
    }

    /// The manifest records of all the glove's tools, in tool order.
    pub fn manifests(&self) -> (r: Vec<GloveManifest>)
        ensures
            r@.len() == self.spec_glove().spec_tools().len(),
            forall|i: int| 0 <= i < r@.len() ==> manifest_matches(
                #[trigger] r@[i],
                self.spec_glove().spec_tools()[i],
                self.spec_glove().spec_name(),
                self.spec_glove().spec_platform(),
                self.spec_glove().spec_host_os(),
            ),
    {
        let g: &G = &self.glove;
        let tools = g.tools();
        let ghost tv = tools_view(tools@);
        let mut out: Vec<GloveManifest> = Vec::new();
        let mut i: usize = 0;
        while i < tools.len()
            invariant
                tv == tools_view(tools@),
                tv == self.spec_glove().spec_tools(),
                *g == self.spec_glove(),
                i <= tools.len(),
                out@.len() == i,
                forall|k: int| 0 <= k < i ==> manifest_matches(
                    #[trigger] out@[k],
                    tv[k],
                    self.spec_glove().spec_name(),
                    self.spec_glove().spec_platform(),
                    self.spec_glove().spec_host_os(),
                ),
            decreases tools.len() - i,
        {
            out.push(tool_definition_to_manifest(&tools[i], g));
            i = i + 1;
        }
        out
    }

    /// The Tentacle tools of all the glove's tools, in tool order; each
    /// carries the manifest of the first tool with its name.
    pub fn tools(&self) -> (r: Result<Vec<GloveTool<G>>, AdapterError>)
        ensures
            r matches Ok(v) && v@.len() == self.spec_glove().spec_tools().len() && (forall|i: int|
                0 <= i < v@.len() ==> {
                    let ts = self.spec_glove().spec_tools();
                    &&& (#[trigger] v@[i]).spec_glove() == self.spec_glove()
                    &&& manifest_matches(
                        v@[i].spec_manifest(),
                        ts[tool_index(ts, ts[i].name)],
                        self.spec_glove().spec_name(),
                        self.spec_glove().spec_platform(),
                        self.spec_glove().spec_host_os(),
                    )
                }),
    {
        let g: &G = &self.glove;
        let defs = g.tools();
        let ghost ts = self.spec_glove().spec_tools();
        let mut out: Vec<GloveTool<G>> = Vec::new();
        let mut i: usize = 0;
        while i < defs.len()
            invariant
                ts == tools_view(defs@),
                ts == self.spec_glove().spec_tools(),
                *g == self.spec_glove(),
                *self.glove == self.spec_glove(),
                i <= defs.len(),
                out@.len() == i,
                forall|k: int| 0 <= k < i ==> {
                    &&& (#[trigger] out@[k]).spec_glove() == self.spec_glove()
                    &&& manifest_matches(
                        out@[k].spec_manifest(),
                        ts[tool_index(ts, ts[k].name)],
                        self.spec_glove().spec_name(),
                        self.spec_glove().spec_platform(),
                        self.spec_glove().spec_host_os(),
                    )
                },
            decreases defs.len() - i,
        {
            proof {
                lemma_tool_index(ts, ts[i as int].name);
            }
            assert(ts[i as int].name == defs[i as int].name@);
            let t = GloveTool::new(self.glove.clone(), defs[i].name.as_str());
            match t {
                Ok(t) => {
                    out.push(t);
                },
                Err(e) => {
                    return Err(e);
                },
            }
            i = i + 1;
        }
        Ok(out)
    }

    /// The Tentacle tool of the glove's tool `tool_name`.
    pub fn tool(&self, tool_name: &str) -> (r: Result<GloveTool<G>, AdapterError>)
        ensures
            tool_index(self.spec_glove().spec_tools(), tool_name@) >= self.spec_glove().spec_tools().len() ==> (r matches Err(e) && e@ == AdapterErrorView::ToolNotFound(tool_name@)),
            tool_index(self.spec_glove().spec_tools(), tool_name@) < self.spec_glove().spec_tools().len() ==> (r matches Ok(t) && manifest_matches(
                t.spec_manifest(),
                self.spec_glove().spec_tools()[tool_index(self.spec_glove().spec_tools(), tool_name@)],
                self.spec_glove().spec_name(),
                self.spec_glove().spec_platform(),
                self.spec_glove().spec_host_os(),
            )),
    {
        GloveTool::new(self.glove.clone(), tool_name)
    }

    /// The tools to register on platform `current`: all of the glove's tools,
    /// in tool order, when the glove supports `current`; none otherwise.
    pub fn tools_to_register(&self, current: Platform) -> (r: Result<Vec<GloveTool<G>>, AdapterError>)
        ensures
            !self.spec_glove().spec_host_os().contains(platform_name(current)) ==> (r matches Ok(v)
                && v@.len() == 0),
            self.spec_glove().spec_host_os().contains(platform_name(current)) ==> (r matches Ok(v)
                && v@.len() == self.spec_glove().spec_tools().len() && (forall|i: int|
                0 <= i < v@.len() ==> {
                    let ts = self.spec_glove().spec_tools();
                    &&& (#[trigger] v@[i]).spec_glove() == self.spec_glove()
                    &&& manifest_matches(
                        v@[i].spec_manifest(),
                        ts[tool_index(ts, ts[i].name)],
                        self.spec_glove().spec_name(),
                        self.spec_glove().spec_platform(),
                        self.spec_glove().spec_host_os(),
                    )
                })),
    {
        if !self.registers_on(current) {
            return Ok(Vec::new());
        }
        self.tools()
    }

    /// Whether the glove's tools are registered on platform `current`: only
    /// when the glove supports it.
    pub fn registers_on(&self, current: Platform) -> (r: bool)
        ensures
            r == self.spec_glove().spec_host_os().contains(platform_name(current)),
    {
        let g: &G = &self.glove;
        g.is_supported_on(current)
    }
}

} // verus!
