//! The standard interface of all ECO gloves: platforms, risk levels,
//! capability domains, tool definitions, tool results, errors, the
//! `EcoGlove` trait and its parameter validation.
use vstd::prelude::*;
use crate::json::{
    JsonNumber, JsonValue, JsonView, json_clone, keys_distinct, members_insert, members_insert_exec,
    members_view, value_get, is_integer_view, is_number_view, type_name_of, lemma_object_view,
    lemma_array_view,
};
use crate::reviewer::str_lower;
use crate::text::{append_chars, append_str, chars_eq, chars_of, string_of, to_lowercase};

verus! {

// ============================================================================
// Platform
// ============================================================================

/// Platform identifier (a physical fact of the glove).
#[derive(Debug, Clone, Copy, PartialEq, Eq, Hash, Structural)]
pub enum Platform {
    /// macOS
    MacOS,
    /// iOS
    IOS,
    /// HarmonyOS
    Harmony,
    /// Linux
    Linux,
    /// Windows
    Windows,
    /// Android
    Android,
    /// ROS 2 robot
    Robot,
    /// Not bound to a platform
    Generic,
}

/// The identifier text of a platform.
pub open spec fn platform_name(p: Platform) -> Seq<char> {
    match p {
        Platform::MacOS => "macos"@,
        Platform::IOS => "ios"@,
        Platform::Harmony => "harmony"@,
        Platform::Linux => "linux"@,
        Platform::Windows => "windows"@,
        Platform::Android => "android"@,
        Platform::Robot => "robot"@,
        Platform::Generic => "generic"@,
    }
}

/// The platform a lower-cased name or alias stands for.
pub open spec fn platform_of_lower(s: Seq<char>) -> Option<Platform> {
    if s == "macos"@ || s == "mac"@ || s == "darwin"@ {
        Some(Platform::MacOS)
    } else if s == "ios"@ {
        Some(Platform::IOS)
    } else if s == "harmony"@ || s == "harmonyos"@ {
        Some(Platform::Harmony)
    } else if s == "linux"@ {
        Some(Platform::Linux)
    } else if s == "windows"@ || s == "win"@ {
        Some(Platform::Windows)
    } else if s == "android"@ {
        Some(Platform::Android)
    } else if s == "robot"@ || s == "ros"@ || s == "ros2"@ {
        Some(Platform::Robot)
    } else if s == "generic"@ || s == "universal"@ {
        Some(Platform::Generic)
    } else {
        None
    }
}

/// The platform of a target OS name (`std::env::consts::OS`).
pub open spec fn platform_of_os(os: Seq<char>) -> Platform {
    if os == "macos"@ {
        Platform::MacOS
    } else if os == "ios"@ {
        Platform::IOS
    } else if os == "linux"@ {
        Platform::Linux
    } else if os == "windows"@ {
        Platform::Windows
    } else if os == "android"@ {
        Platform::Android
    } else {
        Platform::Generic
    }
}

fn eq_lit(v: &Vec<char>, s: &str) -> (r: bool)
    ensures
        r == (v@ == s@),
{
    let l = chars_of(s);
    chars_eq(v, &l)
}

impl Platform {
    /// The identifier text of the platform.
    pub fn as_str(&self) -> (r: &'static str)
        ensures
            r@ == platform_name(*self),
    {
        match self {
            Platform::MacOS => "macos",
            Platform::IOS => "ios",
            Platform::Harmony => "harmony",
            Platform::Linux => "linux",
            Platform::Windows => "windows",
            Platform::Android => "android",
            Platform::Robot => "robot",
            Platform::Generic => "generic",
        }
    }

    /// The platform a lower-cased name or alias stands for.
    pub fn from_lowercase(s: &str) -> (r: Option<Self>)
        ensures
            r == platform_of_lower(s@),
    {
        let v = chars_of(s);
        if eq_lit(&v, "macos") || eq_lit(&v, "mac") || eq_lit(&v, "darwin") {
            Some(Platform::MacOS)
        } else if eq_lit(&v, "ios") {
            Some(Platform::IOS)
        } else if eq_lit(&v, "harmony") || eq_lit(&v, "harmonyos") {
            Some(Platform::Harmony)
        } else if eq_lit(&v, "linux") {
            Some(Platform::Linux)
        } else if eq_lit(&v, "windows") || eq_lit(&v, "win") {
            Some(Platform::Windows)
        } else if eq_lit(&v, "android") {
            Some(Platform::Android)
        } else if eq_lit(&v, "robot") || eq_lit(&v, "ros") || eq_lit(&v, "ros2") {
            Some(Platform::Robot)
        } else if eq_lit(&v, "generic") || eq_lit(&v, "universal") {
            Some(Platform::Generic)
        } else {
            None
        }
    }

    /// Parses a platform name or alias, case-insensitively.
    pub fn from_str(s: &str) -> (r: Option<Self>)
        ensures
            r == platform_of_lower(str_lower(s@)),
    {
        let lower = to_lowercase(s);
        Self::from_lowercase(lower.as_str())
    }

    /// The platform of a target OS name as `std::env::consts::OS` spells it
    /// (anything unlisted is `Generic`).
    pub fn from_os(os: &str) -> (r: Self)
        ensures
            r == platform_of_os(os@),
    {
        let v = chars_of(os);
        if eq_lit(&v, "macos") {
            Platform::MacOS
        } else if eq_lit(&v, "ios") {
            Platform::IOS
        } else if eq_lit(&v, "linux") {
            Platform::Linux
        } else if eq_lit(&v, "windows") {
            Platform::Windows
        } else if eq_lit(&v, "android") {
            Platform::Android
        } else {
            Platform::Generic
        }
    }
}

// ============================================================================
// Risk level
// ============================================================================

/// Risk level (aligned with the CI-144 physical feature protocol).
#[derive(Debug, Clone, Copy, PartialEq, Eq, PartialOrd, Ord, Hash, Structural)]
pub enum RiskLevel {
    /// Read-only operations.
    Low,
    /// Write operations.
    Medium,
    /// May affect system stability.
    Critical,
    /// May cause irreversible damage.
    Catastrophic,
}

/// The identifier text of a risk level.
pub open spec fn risk_name(r: RiskLevel) -> Seq<char> {
    match r {
        RiskLevel::Low => "LOW"@,
        RiskLevel::Medium => "MEDIUM"@,
        RiskLevel::Critical => "CRITICAL"@,
        RiskLevel::Catastrophic => "CATASTROPHIC"@,
    }
}

/// The position of a risk level in the order `Low < Medium < Critical < Catastrophic`.
pub open spec fn risk_rank(r: RiskLevel) -> nat {
    match r {
        RiskLevel::Low => 0,
        RiskLevel::Medium => 1,
        RiskLevel::Critical => 2,
        RiskLevel::Catastrophic => 3,
    }
}

/// A level that needs human confirmation.
pub open spec fn needs_confirmation(r: RiskLevel) -> bool {
    r == RiskLevel::Critical || r == RiskLevel::Catastrophic
}

impl RiskLevel {
    /// The identifier text: `LOW`, `MEDIUM`, `CRITICAL`, `CATASTROPHIC`.
    pub fn as_str(&self) -> (r: &'static str)
        ensures
            r@ == risk_name(*self),
    {
        match self {
            RiskLevel::Low => "LOW",
            RiskLevel::Medium => "MEDIUM",
            RiskLevel::Critical => "CRITICAL",
            RiskLevel::Catastrophic => "CATASTROPHIC",
        }
    }

    /// Whether a human must confirm: `Critical` and `Catastrophic`.
    pub fn requires_confirmation(&self) -> (r: bool)
        ensures
            r == needs_confirmation(*self),
    {
        match self {
            RiskLevel::Critical | RiskLevel::Catastrophic => true,
            _ => false,
        }
    }
}

// ============================================================================
// Capability domain
// ============================================================================

/// Capability domain (tool grouping and permission control).
#[derive(Debug, Clone, PartialEq, Eq, Hash)]
pub enum CapabilityDomain {
    /// File system
    FileSystem,
    /// Process management
    Process,
    /// Network
    Network,
    /// System information
    SystemInfo,
    /// Window management
    Window,
    /// Notifications
    Notification,
    /// Sensors
    Sensor,
    /// Hardware control
    Hardware,
    /// Script execution
    Script,
    /// Generic
    Generic,
    /// A custom domain
    Custom(String),
}

/// The mathematical content of a [`CapabilityDomain`].
pub enum DomainView {
    FileSystem,
    Process,
    Network,
    SystemInfo,
    Window,
    Notification,
    Sensor,
    Hardware,
    Script,
    Generic,
    Custom(Seq<char>),
}

impl View for CapabilityDomain {
    type V = DomainView;

    open spec fn view(&self) -> DomainView {
        match self {
            CapabilityDomain::FileSystem => DomainView::FileSystem,
            CapabilityDomain::Process => DomainView::Process,
            CapabilityDomain::Network => DomainView::Network,
            CapabilityDomain::SystemInfo => DomainView::SystemInfo,
            CapabilityDomain::Window => DomainView::Window,
            CapabilityDomain::Notification => DomainView::Notification,
            CapabilityDomain::Sensor => DomainView::Sensor,
            CapabilityDomain::Hardware => DomainView::Hardware,
            CapabilityDomain::Script => DomainView::Script,
            CapabilityDomain::Generic => DomainView::Generic,
            CapabilityDomain::Custom(s) => DomainView::Custom(s@),
        }
    }
}

/// The identifier text of a domain.
pub open spec fn domain_name(d: DomainView) -> Seq<char> {
    match d {
        DomainView::FileSystem => "file_system"@,
        DomainView::Process => "process"@,
        DomainView::Network => "network"@,
        DomainView::SystemInfo => "system_info"@,
        DomainView::Window => "window"@,
        DomainView::Notification => "notification"@,
        DomainView::Sensor => "sensor"@,
        DomainView::Hardware => "hardware"@,
        DomainView::Script => "script"@,
        DomainView::Generic => "generic"@,
        DomainView::Custom(s) => s,
    }
}

impl CapabilityDomain {
    /// The identifier text (`file_system`, … ; a custom domain's own name).
    pub fn as_str(&self) -> (r: &str)
        ensures
            r@ == domain_name(self@),
    {
        match self {
            CapabilityDomain::FileSystem => "file_system",
            CapabilityDomain::Process => "process",
            CapabilityDomain::Network => "network",
            CapabilityDomain::SystemInfo => "system_info",
            CapabilityDomain::Window => "window",
            CapabilityDomain::Notification => "notification",
            CapabilityDomain::Sensor => "sensor",
            CapabilityDomain::Hardware => "hardware",
            CapabilityDomain::Script => "script",
            CapabilityDomain::Generic => "generic",
            CapabilityDomain::Custom(s) => s.as_str(),
        }
    }

    /// A copy of the domain.
    pub fn copy(&self) -> (r: Self)
        ensures
            r@ == self@,
    {
        match self {
            CapabilityDomain::FileSystem => CapabilityDomain::FileSystem,
            CapabilityDomain::Process => CapabilityDomain::Process,
            CapabilityDomain::Network => CapabilityDomain::Network,
            CapabilityDomain::SystemInfo => CapabilityDomain::SystemInfo,
            CapabilityDomain::Window => CapabilityDomain::Window,
            CapabilityDomain::Notification => CapabilityDomain::Notification,
            CapabilityDomain::Sensor => CapabilityDomain::Sensor,
            CapabilityDomain::Hardware => CapabilityDomain::Hardware,
            CapabilityDomain::Script => CapabilityDomain::Script,
            CapabilityDomain::Generic => CapabilityDomain::Generic,
            CapabilityDomain::Custom(s) => CapabilityDomain::Custom(s.clone()),
        }
    }

    /// Whether two domains are the same.
    pub fn same(&self, other: &Self) -> (r: bool)
        ensures
            r == (self@ == other@),
    {
        match (self, other) {
            (CapabilityDomain::FileSystem, CapabilityDomain::FileSystem) => true,
            (CapabilityDomain::Process, CapabilityDomain::Process) => true,
            (CapabilityDomain::Network, CapabilityDomain::Network) => true,
            (CapabilityDomain::SystemInfo, CapabilityDomain::SystemInfo) => true,
            (CapabilityDomain::Window, CapabilityDomain::Window) => true,
            (CapabilityDomain::Notification, CapabilityDomain::Notification) => true,
            (CapabilityDomain::Sensor, CapabilityDomain::Sensor) => true,
            (CapabilityDomain::Hardware, CapabilityDomain::Hardware) => true,
            (CapabilityDomain::Script, CapabilityDomain::Script) => true,
            (CapabilityDomain::Generic, CapabilityDomain::Generic) => true,
            (CapabilityDomain::Custom(a), CapabilityDomain::Custom(b)) => {
                let x = chars_of(a.as_str());
                let y = chars_of(b.as_str());
                chars_eq(&x, &y)
            },
            _ => false,
        }
    }
}

// ============================================================================
// Tool definitions
// ============================================================================

/// A tool parameter.
#[derive(Debug, Clone, PartialEq, Eq)]
pub struct ToolParameter {
    /// Parameter name.
    pub name: String,
    /// Parameter description.
    pub description: String,
    /// JSON Schema type: string / number / integer / boolean / array / object.
    pub param_type: String,
    /// Whether it must be given.
    pub required: bool,
    /// Default value.
    pub default: Option<JsonValue>,
    /// Allowed values.
    pub enum_values: Option<Vec<String>>,
}

/// The characters of each string of a vector.
pub open spec fn strings_view(v: Seq<String>) -> Seq<Seq<char>> {
    v.map_values(|s: String| s@)
}

/// The mathematical content of a [`ToolParameter`].
pub struct ParamView {
    pub name: Seq<char>,
    pub description: Seq<char>,
    pub param_type: Seq<char>,
    pub required: bool,
    pub default: Option<JsonView>,
    pub enum_values: Option<Seq<Seq<char>>>,
}

impl View for ToolParameter {
    type V = ParamView;

    open spec fn view(&self) -> ParamView {
        ParamView {
            name: self.name@,
            description: self.description@,
            param_type: self.param_type@,
            required: self.required,
            default: match self.default {
                Some(d) => Some(d@),
                None => None,
            },
            enum_values: match self.enum_values {
                Some(v) => Some(strings_view(v@)),
                None => None,
            },
        }
    }
}

/// The views of a sequence of parameters.
pub open spec fn params_view(ps: Seq<ToolParameter>) -> Seq<ParamView> {
    ps.map_values(|p: ToolParameter| p@)
}

/// A tool definition.
#[derive(Debug, Clone, PartialEq, Eq)]
pub struct ToolDefinition {
    /// Tool name (dot namespace `<platform>.<domain>.<action>`).
    pub name: String,
    /// Tool description.
    pub description: String,
    /// Capability domain.
    pub domain: CapabilityDomain,
    /// Risk level.
    pub risk_level: RiskLevel,
    /// Parameters.
    pub parameters: Vec<ToolParameter>,
    /// What the tool returns.
    pub return_description: String,
    /// Whether the tool supports a side-effect-free dry run.
    pub supports_dry_run: bool,
    /// Tool version (SemVer).
    pub version: String,
    /// Extra metadata (key, value), keys distinct.
    pub metadata: Vec<(String, String)>,
}

/// The mathematical content of a [`ToolDefinition`].
pub struct ToolDefView {
    pub name: Seq<char>,
    pub description: Seq<char>,
    pub domain: DomainView,
    pub risk_level: RiskLevel,
    pub parameters: Seq<ParamView>,
    pub return_description: Seq<char>,
    pub supports_dry_run: bool,
    pub version: Seq<char>,
    pub metadata: Seq<(Seq<char>, Seq<char>)>,
}

impl View for ToolDefinition {
    type V = ToolDefView;

    open spec fn view(&self) -> ToolDefView {
        ToolDefView {
            name: self.name@,
            description: self.description@,
            domain: self.domain@,
            risk_level: self.risk_level,
            parameters: params_view(self.parameters@),
            return_description: self.return_description@,
            supports_dry_run: self.supports_dry_run,
            version: self.version@,
            metadata: self.metadata@.map_values(|kv: (String, String)| (kv.0@, kv.1@)),
        }
    }
}

/// The views of a sequence of tool definitions.
pub open spec fn tools_view(ts: Seq<ToolDefinition>) -> Seq<ToolDefView> {
    ts.map_values(|t: ToolDefinition| t@)
}

/// A fresh definition: no parameters, empty return description, no dry run,
/// version `1.0.0`, no metadata.
pub open spec fn new_tool_view(
    name: Seq<char>,
    description: Seq<char>,
    domain: DomainView,
    risk_level: RiskLevel,
) -> ToolDefView {
    ToolDefView {
        name,
        description,
        domain,
        risk_level,
        parameters: Seq::empty(),
        return_description: Seq::empty(),
        supports_dry_run: false,
        version: "1.0.0"@,
        metadata: Seq::empty(),
    }
}

/// The JSON Schema property of one parameter: its type and description, its
/// default and its allowed values when given.
pub open spec fn param_property(p: ParamView) -> JsonView {
    let base = seq![("type"@, JsonView::Str(p.param_type)), ("description"@, JsonView::Str(p.description))];
    let with_default = match p.default {
        Some(d) => base.push(("default"@, d)),
        None => base,
    };
    let with_enum = match p.enum_values {
        Some(vs) => with_default.push(("enum"@, JsonView::Arr(vs.map_values(|s: Seq<char>| JsonView::Str(s))))),
        None => with_default,
    };
    JsonView::Obj(with_enum)
}

/// The `properties` members: each parameter's property set under its name,
/// in parameter order (a later parameter of the same name replaces the earlier one).
pub open spec fn properties_of(ps: Seq<ParamView>) -> Seq<(Seq<char>, JsonView)>
    decreases ps.len(),
{
    if ps.len() == 0 {
        Seq::empty()
    } else {
        members_insert(properties_of(ps.drop_last()), ps.last().name, param_property(ps.last()))
    }
}

/// The names of the required parameters, in order.
pub open spec fn required_names(ps: Seq<ParamView>) -> Seq<Seq<char>>
    decreases ps.len(),
{
    if ps.len() == 0 {
        Seq::empty()
    } else if ps.last().required {
        required_names(ps.drop_last()).push(ps.last().name)
    } else {
        required_names(ps.drop_last())
    }
}

/// The JSON Schema of a parameter list: an object schema with the
/// properties, and the required names when there are any.
pub open spec fn parameters_schema_of(ps: Seq<ParamView>) -> JsonView {
    let base = seq![("type"@, JsonView::Str("object"@)), ("properties"@, JsonView::Obj(properties_of(ps)))];
    let req = required_names(ps);
    if req.len() == 0 {
        JsonView::Obj(base)
    } else {
        JsonView::Obj(base.push(("required"@, JsonView::Arr(req.map_values(|s: Seq<char>| JsonView::Str(s))))))
    }
}

fn str_value(s: &String) -> (r: JsonValue)
    ensures
        r@ == JsonView::Str(s@),
{
    JsonValue::String(s.clone())
}

fn str_array(v: &Vec<String>) -> (r: JsonValue)
    ensures
        r@ == JsonView::Arr(strings_view(v@).map_values(|s: Seq<char>| JsonView::Str(s))),
{
    let mut out: Vec<JsonValue> = Vec::new();
    let mut i: usize = 0;
    while i < v.len()
        invariant
            i <= v.len(),
            out@.len() == i,
            forall|k: int| 0 <= k < i ==> (#[trigger] out@[k])@ == JsonView::Str(v@[k]@),
        decreases v.len() - i,
    {
        out.push(str_value(&v[i]));
        i = i + 1;
    }
    let r = JsonValue::Array(out);
    proof {
        lemma_array_view(r);
        assert(out@.map_values(|x: JsonValue| x@) =~= strings_view(v@).map_values(|s: Seq<char>| JsonView::Str(s)));
    }
    r
}

fn object_of(entries: Vec<(String, JsonValue)>) -> (r: JsonValue)
    ensures
        r@ == JsonView::Obj(members_view(entries@)),
{
    let r = JsonValue::Object(entries);
    proof {
        lemma_object_view(r);
    }
    r
}

fn key(s: &str) -> (r: String)
    ensures
        r@ == s@,
{
    string_of(&chars_of(s))
}

fn param_property_exec(p: &ToolParameter) -> (r: JsonValue)
    ensures
        r@ == param_property(p@),
{
    let mut m: Vec<(String, JsonValue)> = Vec::new();
    m.push((key("type"), str_value(&p.param_type)));
    m.push((key("description"), str_value(&p.description)));
    let ghost base = members_view(m@);
    assert(base =~= seq![("type"@, JsonView::Str(p@.param_type)), ("description"@, JsonView::Str(p@.description))]);
    match &p.default {
        Some(d) => {
            m.push((key("default"), json_clone(d)));
            assert(members_view(m@) =~= base.push(("default"@, d@)));
        },
        None => {},
    }
    let ghost with_default = members_view(m@);
    match &p.enum_values {
        Some(vs) => {
            m.push((key("enum"), str_array(vs)));
            assert(members_view(m@) =~= with_default.push(("enum"@, JsonView::Arr(strings_view(vs@).map_values(|s: Seq<char>| JsonView::Str(s))))));
        },
        None => {},
    }
    object_of(m)
}

impl ToolDefinition {
    /// A new definition with the given name, description, domain and risk
    /// level; no parameters, empty return description, no dry run, version
    /// `1.0.0`, no metadata.
    pub fn new(name: &str, description: &str, domain: CapabilityDomain, risk_level: RiskLevel) -> (r: Self)
        ensures
            r@ == new_tool_view(name@, description@, domain@, risk_level),
    {
        let r = ToolDefinition {
            name: key(name),
            description: key(description),
            domain,
            risk_level,
            parameters: Vec::new(),
            return_description: String::new(),
            supports_dry_run: false,
            version: key("1.0.0"),
            metadata: Vec::new(),
        };
        assert(r@.parameters =~= Seq::<ParamView>::empty());
        assert(r@.metadata =~= Seq::<(Seq<char>, Seq<char>)>::empty());
        r
    }

    /// The same definition with `param` appended to the parameters.
    pub fn with_parameter(self, param: ToolParameter) -> (r: Self)
        ensures
            r@ == (ToolDefView { parameters: self@.parameters.push(param@), ..self@ }),
    {
        let ghost before = self@;
        let mut t = self;
        let ghost pv = param@;
        t.parameters.push(param);
        assert(params_view(t.parameters@) =~= before.parameters.push(pv));
        t
    }

    /// The same definition with the given return description.
    pub fn with_return_description(self, desc: &str) -> (r: Self)
        ensures
            r@ == (ToolDefView { return_description: desc@, ..self@ }),
    {
        let mut t = self;
        t.return_description = key(desc);
        t
    }

    /// The same definition with dry-run support set to `supports`.
    pub fn with_dry_run(self, supports: bool) -> (r: Self)
        ensures
            r@ == (ToolDefView { supports_dry_run: supports, ..self@ }),
    {
        let mut t = self;
        t.supports_dry_run = supports;
        t
    }

    /// The parameters as a JSON Schema object: `type` `object`, the
    /// `properties` (type, description, default, enum of each parameter) and,
    /// when some parameter is required, the `required` names in order.
    pub fn parameters_json_schema(&self) -> (r: JsonValue)
        ensures
            r@ == parameters_schema_of(self@.parameters),
    {
        let ghost ps = params_view(self.parameters@);
        let mut properties: Vec<(String, JsonValue)> = Vec::new();
        let mut required: Vec<String> = Vec::new();
        let mut i: usize = 0;
        assert(ps.take(0) =~= Seq::<ParamView>::empty());
        assert(members_view(properties@) =~= Seq::<(Seq<char>, JsonView)>::empty());
        assert(strings_view(required@) =~= Seq::<Seq<char>>::empty());
        while i < self.parameters.len()
            invariant
                ps == params_view(self.parameters@),
                i <= self.parameters.len(),
                members_view(properties@) == properties_of(ps.take(i as int)),
                keys_distinct(members_view(properties@)),
                strings_view(required@) == required_names(ps.take(i as int)),
            decreases self.parameters.len() - i,
        {
            assert(ps.take(i + 1).drop_last() =~= ps.take(i as int));
            let p = &self.parameters[i];
            let prop = param_property_exec(p);
            members_insert_exec(&mut properties, p.name.clone(), prop);
            if p.required {
                let ghost before = strings_view(required@);
                required.push(p.name.clone());
                assert(strings_view(required@) =~= before.push(p.name@));
            }
            i = i + 1;
        }
        assert(ps.take(self.parameters.len() as int) =~= ps);
        let mut schema: Vec<(String, JsonValue)> = Vec::new();
        schema.push((key("type"), JsonValue::String(key("object"))));
        schema.push((key("properties"), object_of(properties)));
        let ghost base = members_view(schema@);
        assert(base =~= seq![("type"@, JsonView::Str("object"@)), ("properties"@, JsonView::Obj(properties_of(ps)))]);
        if required.len() > 0 {
            schema.push((key("required"), str_array(&required)));
            assert(members_view(schema@) =~= base.push(("required"@, JsonView::Arr(strings_view(required@).map_values(|s: Seq<char>| JsonView::Str(s))))));
        }
        object_of(schema)
    }
}

// ============================================================================
// Tool results
// ============================================================================

/// The result of running a tool.
#[derive(Debug, Clone, PartialEq, Eq)]
pub struct ToolResult {
    /// Whether the run succeeded.
    pub success: bool,
    /// Result data (on success).
    pub data: Option<JsonValue>,
    /// Error message (on failure).
    pub error: Option<String>,
    /// Error code (on failure).
    pub error_code: Option<String>,
    /// Run time in milliseconds.
    pub duration_ms: u64,
    /// Whether this is a dry-run result.
    pub is_dry_run: bool,
}

/// The mathematical content of a [`ToolResult`].
pub struct ToolResultView {
    pub success: bool,
    pub data: Option<JsonView>,
    pub error: Option<Seq<char>>,
    pub error_code: Option<Seq<char>>,
    pub duration_ms: u64,
    pub is_dry_run: bool,
}

impl View for ToolResult {
    type V = ToolResultView;

    open spec fn view(&self) -> ToolResultView {
        ToolResultView {
            success: self.success,
            data: match self.data {
                Some(d) => Some(d@),
                None => None,
            },
            error: match self.error {
                Some(e) => Some(e@),
                None => None,
            },
            error_code: match self.error_code {
                Some(e) => Some(e@),
                None => None,
            },
            duration_ms: self.duration_ms,
            is_dry_run: self.is_dry_run,
        }
    }
}

/// A successful result carrying `data`.
pub open spec fn success_view(data: JsonView) -> ToolResultView {
    ToolResultView {
        success: true,
        data: Some(data),
        error: None,
        error_code: None,
        duration_ms: 0,
        is_dry_run: false,
    }
}

/// A failed result with a message and a code.
pub open spec fn failure_view(error: Seq<char>, code: Seq<char>) -> ToolResultView {
    ToolResultView {
        success: false,
        data: None,
        error: Some(error),
        error_code: Some(code),
        duration_ms: 0,
        is_dry_run: false,
    }
}

impl ToolResult {
    /// A successful result carrying `data` (no error, 0 ms, not a dry run).
    pub fn success(data: JsonValue) -> (r: Self)
        ensures
            r@ == success_view(data@),
    {
        ToolResult { success: true, data: Some(data), error: None, error_code: None, duration_ms: 0, is_dry_run: false }
    }

    /// A failed result with a message and an error code (no data, 0 ms, not a dry run).
    pub fn failure(error: &str, error_code: &str) -> (r: Self)
        ensures
            r@ == failure_view(error@, error_code@),
    {
        ToolResult {
            success: false,
            data: None,
            error: Some(key(error)),
            error_code: Some(key(error_code)),
            duration_ms: 0,
            is_dry_run: false,
        }
    }

    /// The same result with the run time set.
    pub fn with_duration(self, ms: u64) -> (r: Self)
        ensures
            r@ == (ToolResultView { duration_ms: ms, ..self@ }),
    {
        let mut t = self;
        t.duration_ms = ms;
        t
    }

    /// The same result marked as a dry run.
    pub fn as_dry_run(self) -> (r: Self)
        ensures
            r@ == (ToolResultView { is_dry_run: true, ..self@ }),
    {
        let mut t = self;
        t.is_dry_run = true;
        t
    }
}

// ============================================================================
// Errors
// ============================================================================

/// Glove errors.
#[derive(Debug, PartialEq, Eq)]
pub enum GloveError {
    /// No tool of that name.
    ToolNotFound(String),
    /// Parameter validation failed.
    ParameterValidationFailed(String),
    /// A required parameter is missing.
    MissingParameter(String),
    /// A parameter has the wrong type.
    ParameterTypeError(String),
    /// The platform is not supported.
    PlatformNotSupported(String),
    /// Permission denied.
    PermissionDenied(String),
    /// Execution failed.
    ExecutionFailed(String),
    /// Initialization failed.
    InitializationFailed(String),
    /// The glove is not initialized.
    NotInitialized,
    /// Anything else.
    Other(String),
}

/// The mathematical content of a [`GloveError`].
pub enum GloveErrorView {
    ToolNotFound(Seq<char>),
    ParameterValidationFailed(Seq<char>),
    MissingParameter(Seq<char>),
    ParameterTypeError(Seq<char>),
    PlatformNotSupported(Seq<char>),
    PermissionDenied(Seq<char>),
    ExecutionFailed(Seq<char>),
    InitializationFailed(Seq<char>),
    NotInitialized,
    Other(Seq<char>),
}

impl View for GloveError {
    type V = GloveErrorView;

    open spec fn view(&self) -> GloveErrorView {
        match self {
            GloveError::ToolNotFound(s) => GloveErrorView::ToolNotFound(s@),
            GloveError::ParameterValidationFailed(s) => GloveErrorView::ParameterValidationFailed(s@),
            GloveError::MissingParameter(s) => GloveErrorView::MissingParameter(s@),
            GloveError::ParameterTypeError(s) => GloveErrorView::ParameterTypeError(s@),
            GloveError::PlatformNotSupported(s) => GloveErrorView::PlatformNotSupported(s@),
            GloveError::PermissionDenied(s) => GloveErrorView::PermissionDenied(s@),
            GloveError::ExecutionFailed(s) => GloveErrorView::ExecutionFailed(s@),
            GloveError::InitializationFailed(s) => GloveErrorView::InitializationFailed(s@),
            GloveError::NotInitialized => GloveErrorView::NotInitialized,
            GloveError::Other(s) => GloveErrorView::Other(s@),
        }
    }
}

/// The display text of an error.
pub open spec fn error_text(e: GloveErrorView) -> Seq<char> {
    match e {
        GloveErrorView::ToolNotFound(s) => "Tool not found: "@ + s,
        GloveErrorView::ParameterValidationFailed(s) => "Parameter validation failed: "@ + s,
        GloveErrorView::MissingParameter(s) => "Missing required parameter: "@ + s,
        GloveErrorView::ParameterTypeError(s) => "Parameter type error: "@ + s,
        GloveErrorView::PlatformNotSupported(s) => "Platform not supported: "@ + s,
        GloveErrorView::PermissionDenied(s) => "Permission denied: "@ + s,
        GloveErrorView::ExecutionFailed(s) => "Execution failed: "@ + s,
        GloveErrorView::InitializationFailed(s) => "Initialization failed: "@ + s,
        GloveErrorView::NotInitialized => "Glove not initialized"@,
        GloveErrorView::Other(s) => s,
    }
}

fn prefixed(prefix: &str, s: &String) -> (r: String)
    ensures
        r@ == prefix@ + s@,
{
    let mut v = chars_of(prefix);
    append_str(&mut v, s.as_str());
    string_of(&v)
}

impl GloveError {
    /// The display text, such as `Tool not found: test.tool`.
    pub fn to_string(&self) -> (r: String)
        ensures
            r@ == error_text(self@),
    {
        match self {
            GloveError::ToolNotFound(s) => prefixed("Tool not found: ", s),
            GloveError::ParameterValidationFailed(s) => prefixed("Parameter validation failed: ", s),
            GloveError::MissingParameter(s) => prefixed("Missing required parameter: ", s),
            GloveError::ParameterTypeError(s) => prefixed("Parameter type error: ", s),
            GloveError::PlatformNotSupported(s) => prefixed("Platform not supported: ", s),
            GloveError::PermissionDenied(s) => prefixed("Permission denied: ", s),
            GloveError::ExecutionFailed(s) => prefixed("Execution failed: ", s),
            GloveError::InitializationFailed(s) => prefixed("Initialization failed: ", s),
            GloveError::NotInitialized => key("Glove not initialized"),
            GloveError::Other(s) => s.clone(),
        }
    }
}

// ============================================================================
// Tool lookup, capabilities and parameter validation
// ============================================================================

/// The domains of a tool list, in order.
pub open spec fn domains_of(ts: Seq<ToolDefView>) -> Seq<DomainView> {
    ts.map_values(|t: ToolDefView| t.domain)
}

/// The views of a sequence of domains.
pub open spec fn domains_view(ds: Seq<CapabilityDomain>) -> Seq<DomainView> {
    ds.map_values(|d: CapabilityDomain| d@)
}

/// `s` with consecutive repeats collapsed to one (as `Vec::dedup`).
pub open spec fn dedup_consecutive(s: Seq<DomainView>) -> Seq<DomainView>
    decreases s.len(),
{
    if s.len() == 0 {
        Seq::empty()
    } else {
        let d = dedup_consecutive(s.drop_last());
        if d.len() > 0 && d.last() == s.last() {
            d
        } else {
            d.push(s.last())
        }
    }
}

/// The index of the first tool named `name` at or after `i` (or `ts.len()`).
pub open spec fn tool_index_from(ts: Seq<ToolDefView>, name: Seq<char>, i: int) -> int
    decreases ts.len() - i,
{
    if i < 0 || i >= ts.len() {
        ts.len() as int
    } else if ts[i].name == name {
        i
    } else {
        tool_index_from(ts, name, i + 1)
    }
}

/// The index of the first tool named `name` (or `ts.len()` if there is none).
pub open spec fn tool_index(ts: Seq<ToolDefView>, name: Seq<char>) -> int {
    tool_index_from(ts, name, 0)
}

/// Whether a present value has the declared JSON type (an unknown type
/// name accepts anything).
pub open spec fn type_matches(param_type: Seq<char>, v: JsonView) -> bool {
    if param_type == "string"@ {
        v is Str
    } else if param_type == "number"@ {
        is_number_view(v)
    } else if param_type == "integer"@ {
        is_integer_view(v)
    } else if param_type == "boolean"@ {
        v is Bool
    } else if param_type == "array"@ {
        v is Arr
    } else if param_type == "object"@ {
        v is Obj
    } else {
        true
    }
}

/// The message of a parameter type error.
pub open spec fn type_error_message(p: ParamView, v: JsonView) -> Seq<char> {
    "Parameter '"@ + p.name + "' expected type '"@ + p.param_type + "', got '"@ + type_name_of(v) + "'"@
}

/// The check of the parameters from index `i` on: the first missing required
/// parameter or wrongly typed present parameter fails.
pub open spec fn check_params_from(ps: Seq<ParamView>, params: JsonView, i: int) -> Result<(), GloveErrorView>
    decreases ps.len() - i,
{
    if i < 0 || i >= ps.len() {
        Ok(())
    } else {
        let p = ps[i];
        match value_get(params, p.name) {
            None => if p.required {
                Err(GloveErrorView::MissingParameter(p.name))
            } else {
                check_params_from(ps, params, i + 1)
            },
            Some(v) => if !type_matches(p.param_type, v) {
                Err(GloveErrorView::ParameterTypeError(type_error_message(p, v)))
            } else {
                check_params_from(ps, params, i + 1)
            },
        }
    }
}

/// The validation of `params` for tool `tool` among `ts`.
pub open spec fn validation_of(ts: Seq<ToolDefView>, tool: Seq<char>, params: JsonView) -> Result<(), GloveErrorView> {
    let k = tool_index(ts, tool);
    if k >= ts.len() {
        Err(GloveErrorView::ToolNotFound(tool))
    } else {
        check_params_from(ts[k].parameters, params, 0)
    }
}

/// The capability domains of `tools`, consecutive repeats collapsed.
pub fn capabilities_of(tools: &Vec<ToolDefinition>) -> (r: Vec<CapabilityDomain>)
    ensures
        domains_view(r@) == dedup_consecutive(domains_of(tools_view(tools@))),
{
    let ghost ds = domains_of(tools_view(tools@));
    let mut out: Vec<CapabilityDomain> = Vec::new();
    let mut i: usize = 0;
    assert(ds.take(0) =~= Seq::<DomainView>::empty());
    assert(domains_view(out@) =~= Seq::<DomainView>::empty());
    while i < tools.len()
        invariant
            ds == domains_of(tools_view(tools@)),
            i <= tools.len(),
            domains_view(out@) == dedup_consecutive(ds.take(i as int)),
        decreases tools.len() - i,
    {
        assert(ds.take(i + 1).drop_last() =~= ds.take(i as int));
        let d = &tools[i].domain;
        let n = out.len();
        let repeat = n > 0 && out[n - 1].same(d);
        if !repeat {
            let ghost before = domains_view(out@);
            out.push(d.copy());
            assert(domains_view(out@) =~= before.push(ds[i as int]));
        }
        i = i + 1;
    }
    assert(ds.take(tools.len() as int) =~= ds);
    out
}

/// The index of the first tool named `name` (or `tools.len()`).
pub fn tool_index_exec(tools: &Vec<ToolDefinition>, name: &str) -> (k: usize)
    ensures
        k == tool_index(tools_view(tools@), name@),
{
    let ghost ts = tools_view(tools@);
    let n = chars_of(name);
    let mut i: usize = 0;
    while i < tools.len()
        invariant
            ts == tools_view(tools@),
            n@ == name@,
            i <= tools.len(),
            tool_index(ts, name@) == tool_index_from(ts, name@, i as int),
        decreases tools.len() - i,
    {
        let t = chars_of(tools[i].name.as_str());
        if chars_eq(&t, &n) {
            return i;
        }
        i = i + 1;
    }
    i
}

proof fn lemma_tool_index_from(ts: Seq<ToolDefView>, name: Seq<char>, i: int)
    requires
        0 <= i <= ts.len(),
    ensures
        i <= tool_index_from(ts, name, i) <= ts.len(),
        tool_index_from(ts, name, i) < ts.len() ==> ts[tool_index_from(ts, name, i)].name == name,
        forall|k: int| i <= k < tool_index_from(ts, name, i) ==> ts[k].name != name,
    decreases ts.len() - i,
{
    if i < ts.len() && ts[i].name != name {
        lemma_tool_index_from(ts, name, i + 1);
    }
}

/// `tool_index` finds the first tool of that name, and misses only when there is none.
pub proof fn lemma_tool_index(ts: Seq<ToolDefView>, name: Seq<char>)
    ensures
        0 <= tool_index(ts, name) <= ts.len(),
        tool_index(ts, name) < ts.len() ==> ts[tool_index(ts, name)].name == name,
        forall|k: int| 0 <= k < tool_index(ts, name) ==> ts[k].name != name,
{
    lemma_tool_index_from(ts, name, 0);
}

/// The first tool named `name`, taken out of `tools`.
pub fn find_tool(tools: Vec<ToolDefinition>, name: &str) -> (r: Option<ToolDefinition>)
    ensures
        tool_index(tools_view(tools@), name@) < tools@.len() ==> (r matches Some(t) && t@ == tools_view(
            tools@,
        )[tool_index(tools_view(tools@), name@)]),
        tool_index(tools_view(tools@), name@) >= tools@.len() ==> r is None,
{
    let k = tool_index_exec(&tools, name);
    proof {
        lemma_tool_index(tools_view(tools@), name@);
    }
    if k < tools.len() {
        let mut tools = tools;
        Some(tools.swap_remove(k))
    } else {
        None
    }
}

fn param_type_matches(param_type: &Vec<char>, v: &JsonValue) -> (r: bool)
    ensures
        r == type_matches(param_type@, v@),
{
    if eq_lit(param_type, "string") {
        v.is_string()
    } else if eq_lit(param_type, "number") {
        v.is_number()
    } else if eq_lit(param_type, "integer") {
        v.is_integer()
    } else if eq_lit(param_type, "boolean") {
        v.is_boolean()
    } else if eq_lit(param_type, "array") {
        v.is_array()
    } else if eq_lit(param_type, "object") {
        v.is_object()
    } else {
        true
    }
}

/// The JSON type name of a value (`integer` for whole numbers).
pub fn value_type_name(v: &JsonValue) -> (r: &'static str)
    ensures
        r@ == type_name_of(v@),
{
    v.kind_name()
}

/// Checks `params` against the parameter list of tool `tool` among `tools`:
/// the tool must exist, every required parameter must be present, and every
/// present parameter must have its declared type (the first failure is returned).
pub fn validate_parameters_with(tools: &Vec<ToolDefinition>, tool: &str, params: &JsonValue) -> (r: Result<(), GloveError>)
    ensures
        r is Ok <==> validation_of(tools_view(tools@), tool@, params@) is Ok,
        r matches Err(e) ==> validation_of(tools_view(tools@), tool@, params@) == Err::<(), GloveErrorView>(e@),
{
    let ghost ts = tools_view(tools@);
    let k = tool_index_exec(tools, tool);
    if k >= tools.len() {
        return Err(GloveError::ToolNotFound(key(tool)));
    }
    let ps = &tools[k].parameters;
    let ghost pv = params_view(ps@);
    assert(pv == ts[k as int].parameters);
    let mut i: usize = 0;
    while i < ps.len()
        invariant
            ts == tools_view(tools@),
            k == tool_index(ts, tool@),
            k < ts.len(),
            pv == ts[k as int].parameters,
            pv == params_view(ps@),
            i <= ps.len(),
            check_params_from(pv, params@, 0) == check_params_from(pv, params@, i as int),
        decreases ps.len() - i,
    {
        let p = &ps[i];
        assert(p@ == pv[i as int]);
        match params.get(p.name.as_str()) {
            None => {
                if p.required {
                    return Err(GloveError::MissingParameter(p.name.clone()));
                }
            },
            Some(v) => {
                let t = chars_of(p.param_type.as_str());
                if !param_type_matches(&t, v) {
                    let mut m = chars_of("Parameter '");
                    append_str(&mut m, p.name.as_str());
                    append_str(&mut m, "' expected type '");
                    append_str(&mut m, p.param_type.as_str());
                    append_str(&mut m, "', got '");
                    append_str(&mut m, value_type_name(v));
                    append_str(&mut m, "'");
                    return Err(GloveError::ParameterTypeError(string_of(&m)));
                }
            },
        }
        i = i + 1;
    }
    Ok(())
}

// ============================================================================
// The EcoGlove interface
// ============================================================================

/// The interface every glove implements: metadata (platform, host OSes,
/// version, name, description), tool definitions, and the derived
/// capabilities, lookup and parameter validation.
///
/// The four spec functions below describe the glove's metadata for proofs;
/// a glove verified with Verus defines them (the defaults describe a generic
/// glove without name, host OSes or tools, and a verified glove that returns
/// anything else must override them to meet the method contracts).
pub trait EcoGlove: Send + Sync {
    /// The tools the glove defines.
    open spec fn spec_tools(&self) -> Seq<ToolDefView> {
        Seq::empty()
    }

    /// The host OSes the glove supports.
    open spec fn spec_host_os(&self) -> Seq<Seq<char>> {
        Seq::empty()
    }

    /// The glove's platform.
    open spec fn spec_platform(&self) -> Platform {
        Platform::Generic
    }

    /// The glove's name.
    open spec fn spec_name(&self) -> Seq<char> {
        Seq::empty()
    }

    /// Platform identifier.
    fn platform(&self) -> (r: Platform)
        ensures
            r == self.spec_platform(),
    ;

    /// Supported host OSes (the loader's whitelist).
    fn host_os(&self) -> (r: Vec<&'static str>)
        ensures
            r@.map_values(|s: &'static str| s@) == self.spec_host_os(),
    ;

    /// Glove version (SemVer).
    fn version(&self) -> &'static str;

    /// Glove name (such as `macos-glove`).
    fn name(&self) -> (r: &'static str)
        ensures
            r@ == self.spec_name(),
    ;

    /// Glove description (empty unless the glove overrides it).
    fn description(&self) -> (r: &'static str)
        default_ensures
            r@ == ""@,
    {
        ""
    }

    /// Tool definitions.
    fn tools(&self) -> (r: Vec<ToolDefinition>)
        ensures
            tools_view(r@) == self.spec_tools(),
    ;

    /// The capability domains of the tools, consecutive repeats collapsed.
    fn capabilities(&self) -> (r: Vec<CapabilityDomain>)
        ensures
            domains_view(r@) == dedup_consecutive(domains_of(self.spec_tools())),
    {
        let tools = self.tools();
        capabilities_of(&tools)
    }

    /// Whether the glove supports the platform `current` (its name is among the host OSes).
    fn is_supported_on(&self, current: Platform) -> (r: bool)
        ensures
            r == self.spec_host_os().contains(platform_name(current)),
    {
        let oses = self.host_os();
        let ghost hv = oses@.map_values(|s: &'static str| s@);
        let cur = chars_of(current.as_str());
        let mut i: usize = 0;
        while i < oses.len()
            invariant
                hv == oses@.map_values(|s: &'static str| s@),
                hv == self.spec_host_os(),
                cur@ == platform_name(current),
                i <= oses.len(),
                forall|k: int| 0 <= k < i ==> hv[k] != platform_name(current),
            decreases oses.len() - i,
        {
            let o = chars_of(oses[i]);
            if chars_eq(&o, &cur) {
                assert(hv[i as int] == platform_name(current));
                return true;
            }
            i = i + 1;
        }
        false
    }

    /// The first tool named `name`.
    fn get_tool(&self, name: &str) -> (r: Option<ToolDefinition>)
        ensures
            tool_index(self.spec_tools(), name@) < self.spec_tools().len() ==> (r matches Some(t) && t@
                == self.spec_tools()[tool_index(self.spec_tools(), name@)]),
            tool_index(self.spec_tools(), name@) >= self.spec_tools().len() ==> r is None,
    {
        let tools = self.tools();
        find_tool(tools, name)
    }

    /// Checks tool parameters: the tool exists, required parameters are
    /// present, present parameters have their declared types.
    fn validate_parameters(&self, tool: &str, params: &JsonValue) -> (r: Result<(), GloveError>)
        ensures
            r is Ok <==> validation_of(self.spec_tools(), tool@, params@) is Ok,
            r matches Err(e) ==> validation_of(self.spec_tools(), tool@, params@) == Err::<(), GloveErrorView>(e@),
    {
        let tools = self.tools();
        validate_parameters_with(&tools, tool, params)
    }

    /// Initializes the glove (does nothing unless the glove overrides it).
    fn initialize(&self) -> (r: Result<(), GloveError>)
        default_ensures
            r is Ok,
    {
        Ok(())
    }

    /// Shuts the glove down (does nothing unless the glove overrides it).
    fn shutdown(&self) -> (r: Result<(), GloveError>)
        default_ensures
            r is Ok,
    {
        Ok(())
    }
}

/// A parameter without default or allowed values.
pub open spec fn param_view(name: Seq<char>, description: Seq<char>, param_type: Seq<char>, required: bool) -> ParamView {
    ParamView { name, description, param_type, required, default: None, enum_values: None }
}

/// A parameter with the given name, description, type and requiredness,
/// without default or allowed values.
pub fn param(name: &str, description: &str, param_type: &str, required: bool) -> (r: ToolParameter)
    ensures
        r@ == param_view(name@, description@, param_type@, required),
{
    ToolParameter {
        name: key(name),
        description: key(description),
        param_type: key(param_type),
        required,
        default: None,
        enum_values: None,
    }
}

/// A parameter with a default value.
pub fn param_with_default(name: &str, description: &str, param_type: &str, required: bool, default: JsonValue) -> (r: ToolParameter)
    ensures
        r@ == (ParamView { default: Some(default@), ..param_view(name@, description@, param_type@, required) }),
{
    ToolParameter {
        name: key(name),
        description: key(description),
        param_type: key(param_type),
        required,
        default: Some(default),
        enum_values: None,
    }
}

/// A parameter restricted to the given values.
pub fn param_with_enum(name: &str, description: &str, param_type: &str, required: bool, values: Vec<String>) -> (r: ToolParameter)
    ensures
        r@ == (ParamView { enum_values: Some(strings_view(values@)), ..param_view(name@, description@, param_type@, required) }),
{
    ToolParameter {
        name: key(name),
        description: key(description),
        param_type: key(param_type),
        required,
        default: None,
        enum_values: Some(values),
    }
}

} // verus!
