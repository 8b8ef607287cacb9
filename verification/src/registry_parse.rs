//! Parser for the machine-readable `RiskLevel` vocabulary block of the CI-144
//! code registry (§1.2).
//!
//! The block sits between a `BEGIN` and an `END` marker line and is a markdown
//! table of eight columns:
//! `value | class | code | level | meaning | consequence | high_risk | owner`.
//!
//! The parser refuses to give a verdict on uncertain input: a missing marker,
//! a wrong column count, an unknown class, an incomplete set of classes, a
//! malformed code or a broken monotonicity between the classes is an `Err`,
//! never an empty table.
use vstd::prelude::*;
use crate::text::{
    append_chars, append_str, chars_eq, chars_of, contains_chars, debug_quoted, debug_str,
    decimal, decimal_chars, ends_with_chars, has_infix, has_prefix, has_suffix, lines_chars,
    lines_seq, split_chars, split_seq, starts_with_chars, string_of, strip_prefix_char,
    strip_prefix_char_chars, strip_suffix_char, strip_suffix_char_chars, trim_chars,
    trim_end_seq, trim_seq, trim_start_chars, trim_start_seq, is_white_space,
};

verus! {

/// The start marker of the vocabulary block (the line starts with it).
pub const BEGIN_MARKER: &'static str = "<!-- BEGIN CI144-RISK-VOCABULARY";

/// The end marker of the vocabulary block (the whole trimmed line equals it).
pub const END_MARKER: &'static str = "<!-- END CI144-RISK-VOCABULARY -->";

/// One row of the vocabulary, columns in registry order.
#[derive(Debug, Clone, PartialEq, Eq)]
pub struct Row {
    /// The level value (a prefix when `class` is `reserved`; `-` for `silence` / `illegal`).
    pub value: String,
    /// One of `value` / `unknown` / `silence` / `illegal` / `reserved`.
    pub class: String,
    /// The registry diagnostic code; `-` when the class produces no finding.
    pub code: String,
    /// Diagnostic level: `警告` / `错误` / `-`.
    pub level: String,
    /// Meaning (for people).
    pub meaning: String,
    /// Deterministic consequence (for machines).
    pub consequence: String,
    /// Whether this value requires the high-risk details of R008.
    pub high_risk: bool,
    /// Who owns the definition.
    pub owner: String,
}

/// The mathematical content of a [`Row`].
pub struct RowView {
    pub value: Seq<char>,
    pub class: Seq<char>,
    pub code: Seq<char>,
    pub level: Seq<char>,
    pub meaning: Seq<char>,
    pub consequence: Seq<char>,
    pub high_risk: bool,
    pub owner: Seq<char>,
}

impl View for Row {
    type V = RowView;

    open spec fn view(&self) -> RowView {
        RowView {
            value: self.value@,
            class: self.class@,
            code: self.code@,
            level: self.level@,
            meaning: self.meaning@,
            consequence: self.consequence@,
            high_risk: self.high_risk,
            owner: self.owner@,
        }
    }
}

/// The views of a sequence of rows.
pub open spec fn rows_view(rows: Seq<Row>) -> Seq<RowView> {
    rows.map_values(|r: Row| r@)
}

// ---------------------------------------------------------------------------
// Specification of a table line
// ---------------------------------------------------------------------------

/// A class name the registry knows.
pub open spec fn is_class(c: Seq<char>) -> bool {
    c == "value"@ || c == "unknown"@ || c == "silence"@ || c == "illegal"@ || c == "reserved"@
}

/// A cell's text: trimmed, one surrounding backtick on each side removed, trimmed again.
pub open spec fn cell_text(raw: Seq<char>) -> Seq<char> {
    trim_seq(strip_suffix_char(strip_prefix_char(trim_seq(raw), '`'), '`'))
}

/// A markdown separator row such as `|---|:--:|`.
pub open spec fn is_separator_cells(cells: Seq<Seq<char>>) -> bool {
    &&& cells.len() > 0
    &&& forall|i: int|
        0 <= i < cells.len() ==> {
            &&& (#[trigger] cells[i]).len() > 0
            &&& forall|j: int| 0 <= j < cells[i].len() ==> cells[i][j] == '-' || cells[i][j] == ':'
        }
}

/// The cells of a table line: the pieces between `|`, without the first and last piece.
pub open spec fn line_cells(line: Seq<char>) -> Seq<Seq<char>> {
    let parts = split_seq(line, '|');
    Seq::new((parts.len() - 2) as nat, |k: int| cell_text(parts[k + 1]))
}

/// The "line N：" prefix of the per-line messages.
pub open spec fn line_prefix(lineno: nat) -> Seq<char> {
    "第 "@ + decimal(lineno)
}

pub open spec fn msg_begin_unclosed(lineno: nat) -> Seq<char> {
    line_prefix(lineno) + " 行：BEGIN 标记未在同一行闭合（缺 `-->`）—— 拒绝解析"@
}

pub open spec fn msg_not_table(lineno: nat, line: Seq<char>) -> Seq<char> {
    line_prefix(lineno) + " 行：不是合法的表格行："@ + line
}

pub open spec fn msg_column_count(lineno: nat, n: nat) -> Seq<char> {
    line_prefix(lineno) + " 行：列数为 "@ + decimal(n)
        + "，应为 8（value|class|code|level|含义|确定性后果|high_risk|归属）"@
}

pub open spec fn msg_unknown_class(lineno: nat, class: Seq<char>) -> Seq<char> {
    line_prefix(lineno) + " 行：class="@ + debug_quoted(class) + " 不认识"@
}

pub open spec fn msg_unknown_high_risk(lineno: nat, other: Seq<char>) -> Seq<char> {
    line_prefix(lineno) + " 行：high_risk="@ + debug_quoted(other) + " 不认识（只认 yes/no）"@
}

pub open spec fn msg_no_begin() -> Seq<char> {
    "正文里找不到起始标记 `<!-- BEGIN CI144-RISK-VOCABULARY` —— 注册表块被删/被改名；拒绝解析（不返回空表）"@
}

pub open spec fn msg_no_end() -> Seq<char> {
    "找到起始标记但找不到结束标记 `<!-- END CI144-RISK-VOCABULARY -->`"@
}

/// What one line inside the block contributes.
pub enum LineOutcome {
    /// Not a data line (no table, separator or header).
    Skip,
    /// A data row.
    Data(RowView),
    /// A malformed line, with the message.
    Fail(Seq<char>),
}

/// The outcome of one line inside the block (`lineno` is 1-based).
pub open spec fn line_outcome(line: Seq<char>, lineno: nat) -> LineOutcome {
    let parts = split_seq(line, '|');
    let cells = line_cells(line);
    if !has_prefix(trim_start_seq(line), "|"@) {
        LineOutcome::Skip
    } else if parts.len() < 3 {
        LineOutcome::Fail(msg_not_table(lineno, line))
    } else if is_separator_cells(cells) {
        LineOutcome::Skip
    } else if cells.len() != 8 {
        if cells.contains("value"@) || cells.contains("class"@) {
            LineOutcome::Skip
        } else {
            LineOutcome::Fail(msg_column_count(lineno, cells.len()))
        }
    } else if cells[0] == "value"@ && cells[1] == "class"@ {
        LineOutcome::Skip
    } else if !is_class(cells[1]) {
        LineOutcome::Fail(msg_unknown_class(lineno, cells[1]))
    } else if cells[6] != "yes"@ && cells[6] != "no"@ {
        LineOutcome::Fail(msg_unknown_high_risk(lineno, cells[6]))
    } else {
        LineOutcome::Data(
            RowView {
                value: cells[0],
                class: cells[1],
                code: cells[2],
                level: cells[3],
                meaning: cells[4],
                consequence: cells[5],
                high_risk: cells[6] == "yes"@,
                owner: cells[7],
            },
        )
    }
}

/// Where the scan of the lines ends: whether the start marker was seen,
/// whether the block is still open, and the rows read.
pub struct ScanEnd {
    pub seen_begin: bool,
    pub inside: bool,
    pub rows: Seq<RowView>,
}

/// The scan of `lines` from index `i` on, in state (`inside`, `seen`, `rows`).
pub open spec fn scan_lines(
    lines: Seq<Seq<char>>,
    i: int,
    inside: bool,
    seen: bool,
    rows: Seq<RowView>,
) -> Result<ScanEnd, Seq<char>>
    decreases lines.len() - i,
{
    if i < 0 || i >= lines.len() {
        Ok(ScanEnd { seen_begin: seen, inside, rows })
    } else {
        let line = lines[i];
        let lineno = (i + 1) as nat;
        if !inside {
            if has_prefix(trim_start_seq(line), BEGIN_MARKER@) {
                if !has_infix(line, "-->"@) {
                    Err(msg_begin_unclosed(lineno))
                } else {
                    scan_lines(lines, i + 1, true, true, rows)
                }
            } else {
                scan_lines(lines, i + 1, inside, seen, rows)
            }
        } else if trim_seq(line) == END_MARKER@ {
            Ok(ScanEnd { seen_begin: seen, inside: false, rows })
        } else {
            match line_outcome(line, lineno) {
                LineOutcome::Skip => scan_lines(lines, i + 1, inside, seen, rows),
                LineOutcome::Data(r) => scan_lines(lines, i + 1, inside, seen, rows.push(r)),
                LineOutcome::Fail(m) => Err(m),
            }
        }
    }
}

// ---------------------------------------------------------------------------
// Specification of the structural validation
// ---------------------------------------------------------------------------

/// The number of rows of class `class`.
pub open spec fn class_count(rows: Seq<RowView>, class: Seq<char>) -> nat
    decreases rows.len(),
{
    if rows.len() == 0 {
        0
    } else {
        class_count(rows.drop_last(), class) + if rows.last().class == class {
            1nat
        } else {
            0nat
        }
    }
}

/// The index of the first row of class `class` at or after `i` (or `rows.len()`).
pub open spec fn first_of_class_from(rows: Seq<RowView>, class: Seq<char>, i: int) -> int
    decreases rows.len() - i,
{
    if i < 0 || i >= rows.len() {
        rows.len() as int
    } else if rows[i].class == class {
        i
    } else {
        first_of_class_from(rows, class, i + 1)
    }
}

/// The index of the first row of class `class` (or `rows.len()` if there is none).
pub open spec fn first_of_class(rows: Seq<RowView>, class: Seq<char>) -> int {
    first_of_class_from(rows, class, 0)
}

/// The Debug form of a row (`Row { value: "…", … }`).
pub open spec fn row_debug(r: RowView) -> Seq<char> {
    "Row { value: "@ + debug_quoted(r.value) + ", class: "@ + debug_quoted(r.class) + ", code: "@
        + debug_quoted(r.code) + ", level: "@ + debug_quoted(r.level) + ", meaning: "@
        + debug_quoted(r.meaning) + ", consequence: "@ + debug_quoted(r.consequence)
        + ", high_risk: "@ + (if r.high_risk {
        "true"@
    } else {
        "false"@
    }) + ", owner: "@ + debug_quoted(r.owner) + " }"@
}

pub open spec fn msg_empty() -> Seq<char> {
    "词表为空 —— 空表会让所有断言'全部通过'，那是最坏的一种绿"@
}

pub open spec fn msg_no_value_rows() -> Seq<char> {
    "class=value 的行数为 0 —— 词表里一个合法等级都没有"@
}

pub open spec fn msg_exit_count(class: Seq<char>, n: nat) -> Seq<char> {
    "class="@ + debug_quoted(class) + " 的行数为 "@ + decimal(n) + "，应为 1（判定出口必须恰好齐全且唯一）"@
}

pub open spec fn msg_value_code(value: Seq<char>, code: Seq<char>) -> Seq<char> {
    "value 行 `"@ + value + "` 的 code 应为 `-`（通过者不产生发现），实为 "@ + debug_quoted(code)
}

pub open spec fn msg_value_empty(r: RowView) -> Seq<char> {
    "value 行为空："@ + row_debug(r)
}

pub open spec fn msg_missing_code(class: Seq<char>) -> Seq<char> {
    "class="@ + class + " 的行必须有注册码（规则 3：新增码 = 先登记后使用）"@
}

pub open spec fn msg_code_namespace(code: Seq<char>) -> Seq<char> {
    "码 "@ + debug_quoted(code) + " 必须落在 E-*/W-* 诊断码命名空间（§0）"@
}

pub open spec fn msg_code_level(code: Seq<char>, level: Seq<char>) -> Seq<char> {
    "码 "@ + debug_quoted(code) + " 的 level="@ + debug_quoted(level) + " 应为 警告/错误"@
}

pub open spec fn msg_duplicate_code(code: Seq<char>) -> Seq<char> {
    "码 "@ + debug_quoted(code) + " 重复登记"@
}

pub open spec fn msg_owner(value: Seq<char>, owner: Seq<char>) -> Seq<char> {
    "行 "@ + debug_quoted(value) + " 的归属为 "@ + debug_quoted(owner)
        + " —— 跨仓消费的码必须有归属（§3.1 第五列）"@
}

pub open spec fn msg_silence_lighter(silence: nat, unknown: nat) -> Seq<char> {
    "单调性被破坏：silence 的 level("@ + decimal(silence) + ") 比 unknown("@ + decimal(unknown)
        + ") 更轻 —— §12.4 的关键一行是「空不得轻于 unknown」"@
}

pub open spec fn msg_conflated(unknown: nat) -> Seq<char> {
    "unknown 与 silence 的 level 相同（都是 "@ + decimal(unknown)
        + "）⇒ **处置相同** —— 两者被混为一谈了（§12.4 + 本表不变量 3：沉默与声明必须可区分）"@
}

pub open spec fn msg_illegal_lighter(illegal: nat, silence: nat) -> Seq<char> {
    "单调性被破坏：illegal("@ + decimal(illegal) + ") 不得比 silence("@ + decimal(silence)
        + ") 轻 —— 「不认」必须至少和「没证据」一样不可接受"@
}

pub open spec fn msg_reserved_heavier(reserved: nat, unknown: nat) -> Seq<char> {
    "保留段("@ + decimal(reserved) + ") 不得比 unknown("@ + decimal(unknown)
        + ") 更重 —— grease 探针必须被容下，不得被拒（§4 规则 1 + §5）"@
}

pub open spec fn msg_reserved_not_prefix(value: Seq<char>) -> Seq<char> {
    "class=reserved 的 value="@ + debug_quoted(value) + " 应为前缀（以 `-` 结尾）"@
}

/// The check of the exit classes: every one of them occurs exactly once and
/// `value` at least once.
pub open spec fn check_class_counts(rows: Seq<RowView>) -> Result<(), Seq<char>> {
    if class_count(rows, "value"@) == 0 {
        Err(msg_no_value_rows())
    } else if class_count(rows, "unknown"@) != 1 {
        Err(msg_exit_count("unknown"@, class_count(rows, "unknown"@)))
    } else if class_count(rows, "silence"@) != 1 {
        Err(msg_exit_count("silence"@, class_count(rows, "silence"@)))
    } else if class_count(rows, "illegal"@) != 1 {
        Err(msg_exit_count("illegal"@, class_count(rows, "illegal"@)))
    } else if class_count(rows, "reserved"@) != 1 {
        Err(msg_exit_count("reserved"@, class_count(rows, "reserved"@)))
    } else {
        Ok(())
    }
}

/// The check of one row, given the codes of the earlier non-`value` rows.
pub open spec fn check_row(r: RowView, codes: Seq<Seq<char>>) -> Result<(), Seq<char>> {
    if r.class == "value"@ && r.code != "-"@ {
        Err(msg_value_code(r.value, r.code))
    } else if r.class == "value"@ && (r.value.len() == 0 || r.value == "-"@) {
        Err(msg_value_empty(r))
    } else if r.class != "value"@ && r.code == "-"@ {
        Err(msg_missing_code(r.class))
    } else if r.class != "value"@ && !(has_prefix(r.code, "E-"@) || has_prefix(r.code, "W-"@)) {
        Err(msg_code_namespace(r.code))
    } else if r.class != "value"@ && r.level != "警告"@ && r.level != "错误"@ {
        Err(msg_code_level(r.code, r.level))
    } else if r.class != "value"@ && codes.contains(r.code) {
        Err(msg_duplicate_code(r.code))
    } else if trim_seq(r.owner).len() == 0 || r.owner == "待定"@ {
        Err(msg_owner(r.value, r.owner))
    } else {
        Ok(())
    }
}

/// The codes of the non-`value` rows among the first `j` rows.
pub open spec fn codes_before(rows: Seq<RowView>, j: int) -> Seq<Seq<char>>
    decreases j,
{
    if j <= 0 || j > rows.len() {
        Seq::empty()
    } else if rows[j - 1].class == "value"@ {
        codes_before(rows, j - 1)
    } else {
        codes_before(rows, j - 1).push(rows[j - 1].code)
    }
}

/// The first row (from index `j` on) that fails its check.
pub open spec fn check_rows_from(rows: Seq<RowView>, j: int) -> Result<(), Seq<char>>
    decreases rows.len() - j,
{
    if j < 0 || j >= rows.len() {
        Ok(())
    } else {
        match check_row(rows[j], codes_before(rows, j)) {
            Err(m) => Err(m),
            Ok(()) => check_rows_from(rows, j + 1),
        }
    }
}

/// The severity rank of a diagnostic level (`警告` 1, `错误` 2, anything else 0).
pub open spec fn level_rank(level: Seq<char>) -> nat {
    if level == "警告"@ {
        1
    } else if level == "错误"@ {
        2
    } else {
        0
    }
}

/// The rank of the (first) row of class `class`.
pub open spec fn class_rank(rows: Seq<RowView>, class: Seq<char>) -> nat {
    level_rank(rows[first_of_class(rows, class)].level)
}

/// The monotonicity checks between the exits and the shape of the reserved prefix.
pub open spec fn check_order(rows: Seq<RowView>) -> Result<(), Seq<char>> {
    let unknown = class_rank(rows, "unknown"@);
    let silence = class_rank(rows, "silence"@);
    let illegal = class_rank(rows, "illegal"@);
    let reserved = class_rank(rows, "reserved"@);
    let reserved_value = rows[first_of_class(rows, "reserved"@)].value;
    if silence < unknown {
        Err(msg_silence_lighter(silence, unknown))
    } else if silence == unknown {
        Err(msg_conflated(unknown))
    } else if illegal < silence {
        Err(msg_illegal_lighter(illegal, silence))
    } else if reserved > unknown {
        Err(msg_reserved_heavier(reserved, unknown))
    } else if !has_suffix(reserved_value, "-"@) {
        Err(msg_reserved_not_prefix(reserved_value))
    } else {
        Ok(())
    }
}

/// The structural validation of a vocabulary, first failing check first.
pub open spec fn validate_spec(rows: Seq<RowView>) -> Result<(), Seq<char>> {
    if rows.len() == 0 {
        Err(msg_empty())
    } else {
        match check_class_counts(rows) {
            Err(m) => Err(m),
            Ok(()) => match check_rows_from(rows, 0) {
                Err(m) => Err(m),
                Ok(()) => check_order(rows),
            },
        }
    }
}

/// What `parse` gives for a registry text.
pub open spec fn parse_spec(text: Seq<char>) -> Result<Seq<RowView>, Seq<char>> {
    match scan_lines(lines_seq(text), 0, false, false, Seq::empty()) {
        Err(m) => Err(m),
        Ok(end) => if !end.seen_begin {
            Err(msg_no_begin())
        } else if end.inside {
            Err(msg_no_end())
        } else {
            match validate_spec(end.rows) {
                Err(m) => Err(m),
                Ok(()) => Ok(end.rows),
            }
        },
    }
}

/// A vocabulary that passed validation: the structural facts the classifier relies on.
pub open spec fn vocabulary_wf(rows: Seq<RowView>) -> bool {
    &&& class_count(rows, "value"@) >= 1
    &&& class_count(rows, "unknown"@) == 1
    &&& class_count(rows, "silence"@) == 1
    &&& class_count(rows, "illegal"@) == 1
    &&& class_count(rows, "reserved"@) == 1
    &&& forall|j: int| 0 <= j < rows.len() ==> (#[trigger] rows[j]).class != "value"@ ==> {
        &&& has_prefix(rows[j].code, "E-"@) || has_prefix(rows[j].code, "W-"@)
        &&& rows[j].level == "警告"@ || rows[j].level == "错误"@
    }
    &&& forall|j: int| 0 <= j < rows.len() ==> (#[trigger] rows[j]).class == "value"@ ==> rows[j].code == "-"@
    &&& class_rank(rows, "silence"@) > class_rank(rows, "unknown"@)
    &&& class_rank(rows, "illegal"@) >= class_rank(rows, "silence"@)
    &&& class_rank(rows, "reserved"@) <= class_rank(rows, "unknown"@)
    &&& has_suffix(rows[first_of_class(rows, "reserved"@)].value, "-"@)
}

// ---------------------------------------------------------------------------
// Message builders
// ---------------------------------------------------------------------------

fn lit(s: &str) -> (r: Vec<char>)
    ensures
        r@ == s@,
{
    chars_of(s)
}

fn eq_lit(v: &Vec<char>, s: &str) -> (r: bool)
    ensures
        r == (v@ == s@),
{
    let l = chars_of(s);
    chars_eq(v, &l)
}

fn dbg(v: &Vec<char>) -> (r: Vec<char>)
    ensures
        r@ == debug_quoted(v@),
{
    let s = string_of(v);
    let d = debug_str(s.as_str());
    chars_of(d.as_str())
}

fn dec(n: usize) -> (r: Vec<char>)
    ensures
        r@ == decimal(n as nat),
{
    decimal_chars(n)
}

fn line_prefix_exec(lineno: usize) -> (r: Vec<char>)
    ensures
        r@ == line_prefix(lineno as nat),
{
    let mut v = lit("第 ");
    append_chars(&mut v, &dec(lineno));
    v
}

// ---------------------------------------------------------------------------
// One line
// ---------------------------------------------------------------------------

/// A cell's text (see [`cell_text`]).
fn strip_cell(raw: &Vec<char>) -> (r: Vec<char>)
    ensures
        r@ == cell_text(raw@),
{
    let t = trim_chars(raw);
    let t = strip_prefix_char_chars(&t, '`');
    let t = strip_suffix_char_chars(&t, '`');
    trim_chars(&t)
}

/// A separator row (see [`is_separator_cells`]).
fn is_separator_row(cells: &Vec<Vec<char>>) -> (r: bool)
    ensures
        r == is_separator_cells(cells@.map_values(|c: Vec<char>| c@)),
{
    let ghost cv = cells@.map_values(|c: Vec<char>| c@);
    if cells.len() == 0 {
        return false;
    }
    let mut i: usize = 0;
    while i < cells.len()
        invariant
            cv == cells@.map_values(|c: Vec<char>| c@),
            i <= cells.len(),
            forall|k: int|
                0 <= k < i ==> {
                    &&& (#[trigger] cv[k]).len() > 0
                    &&& forall|j: int| 0 <= j < cv[k].len() ==> cv[k][j] == '-' || cv[k][j] == ':'
                },
        decreases cells.len() - i,
    {
        let c = &cells[i];
        if c.len() == 0 {
            assert(cv[i as int].len() == 0);
            return false;
        }
        let mut j: usize = 0;
        assert(cv[i as int] == c@);
        while j < c.len()
            invariant
                cv == cells@.map_values(|c: Vec<char>| c@),
                i < cv.len(),
                cv[i as int] == c@,
                j <= c.len(),
                forall|m: int| 0 <= m < j ==> c@[m] == '-' || c@[m] == ':',
            decreases c.len() - j,
        {
            if c[j] != '-' && c[j] != ':' {
                proof {
                    let k = i as int;
                    let m = j as int;
                    assert(cv[k][m] == c@[m]);
                    assert(!(cv[k][m] == '-' || cv[k][m] == ':'));
                    assert(!is_separator_cells(cv)) by {
                        if is_separator_cells(cv) {
                            let x = cv[k];
                            assert(forall|jj: int|
                                0 <= jj < x.len() ==> x[jj] == '-' || x[jj] == ':');
                            assert(x[m] == '-' || x[m] == ':');
                        }
                    }
                }
                return false;
            }
            j = j + 1;
        }
        assert(cv[i as int] == c@);
        i = i + 1;
    }
    true
}

enum StepOutcome {
    Skip,
    Data(Row),
    Fail(Vec<char>),
}

spec fn step_matches(o: StepOutcome, s: LineOutcome) -> bool {
    match (o, s) {
        (StepOutcome::Skip, LineOutcome::Skip) => true,
        (StepOutcome::Data(r), LineOutcome::Data(v)) => r@ == v,
        (StepOutcome::Fail(m), LineOutcome::Fail(v)) => m@ == v,
        _ => false,
    }
}

fn contains_cell(cells: &Vec<Vec<char>>, s: &str) -> (r: bool)
    ensures
        r == cells@.map_values(|c: Vec<char>| c@).contains(s@),
{
    let ghost cv = cells@.map_values(|c: Vec<char>| c@);
    let mut i: usize = 0;
    while i < cells.len()
        invariant
            cv == cells@.map_values(|c: Vec<char>| c@),
            i <= cells.len(),
            forall|k: int| 0 <= k < i ==> cv[k] != s@,
        decreases cells.len() - i,
    {
        if eq_lit(&cells[i], s) {
            assert(cv[i as int] == s@);
            return true;
        }
        i = i + 1;
    }
    false
}

fn line_step(line: &Vec<char>, lineno: usize) -> (r: StepOutcome)
    ensures
        step_matches(r, line_outcome(line@, lineno as nat)),
{
    let ts = trim_start_chars(line);
    let bar = lit("|");
    if !starts_with_chars(&ts, &bar) {
        return StepOutcome::Skip;
    }
    let parts = split_chars(line, '|');
    if parts.len() < 3 {
        let mut m = line_prefix_exec(lineno);
        append_str(&mut m, " 行：不是合法的表格行：");
        append_chars(&mut m, line);
        return StepOutcome::Fail(m);
    }
    let ghost sp = split_seq(line@, '|');
    let ghost spec_cells = line_cells(line@);
    let mut cells: Vec<Vec<char>> = Vec::new();
    let mut k: usize = 1;
    while k + 1 < parts.len()
        invariant
            sp == split_seq(line@, '|'),
            parts@.len() == sp.len(),
            parts@.len() >= 3,
            forall|m: int| 0 <= m < sp.len() ==> #[trigger] parts@[m]@ == sp[m],
            spec_cells == line_cells(line@),
            spec_cells.len() == sp.len() - 2,
            1 <= k <= parts@.len() - 1,
            cells@.len() == k - 1,
            forall|m: int| 0 <= m < cells@.len() ==> #[trigger] cells@[m]@ == spec_cells[m],
        decreases parts.len() - k,
    {
        let c = strip_cell(&parts[k]);
        assert(spec_cells[k - 1] == cell_text(sp[k as int]));
        cells.push(c);
        k = k + 1;
    }
    let ghost cv = cells@.map_values(|c: Vec<char>| c@);
    assert(cv =~= spec_cells);
    if is_separator_row(&cells) {
        return StepOutcome::Skip;
    }
    if cells.len() != 8 {
        if contains_cell(&cells, "value") || contains_cell(&cells, "class") {
            return StepOutcome::Skip;
        }
        let mut m = line_prefix_exec(lineno);
        append_str(&mut m, " 行：列数为 ");
        append_chars(&mut m, &dec(cells.len()));
        append_str(&mut m, "，应为 8（value|class|code|level|含义|确定性后果|high_risk|归属）");
        return StepOutcome::Fail(m);
    }
    if eq_lit(&cells[0], "value") && eq_lit(&cells[1], "class") {
        return StepOutcome::Skip;
    }
    let class = &cells[1];
    if !(eq_lit(class, "value") || eq_lit(class, "unknown") || eq_lit(class, "silence") || eq_lit(
        class,
        "illegal",
    ) || eq_lit(class, "reserved")) {
        let mut m = line_prefix_exec(lineno);
        append_str(&mut m, " 行：class=");
        append_chars(&mut m, &dbg(class));
        append_str(&mut m, " 不认识");
        return StepOutcome::Fail(m);
    }
    let high = &cells[6];
    let high_risk = if eq_lit(high, "yes") {
        true
    } else if eq_lit(high, "no") {
        false
    } else {
        let mut m = line_prefix_exec(lineno);
        append_str(&mut m, " 行：high_risk=");
        append_chars(&mut m, &dbg(high));
        append_str(&mut m, " 不认识（只认 yes/no）");
        return StepOutcome::Fail(m);
    };
    let row = Row {
        value: string_of(&cells[0]),
        class: string_of(&cells[1]),
        code: string_of(&cells[2]),
        level: string_of(&cells[3]),
        meaning: string_of(&cells[4]),
        consequence: string_of(&cells[5]),
        high_risk,
        owner: string_of(&cells[7]),
    };
    StepOutcome::Data(row)
}

// ---------------------------------------------------------------------------
// Validation
// ---------------------------------------------------------------------------

fn class_count_exec(rows: &Vec<Row>, class: &str) -> (n: usize)
    ensures
        n == class_count(rows_view(rows@), class@),
{
    let ghost rv = rows_view(rows@);
    let mut n: usize = 0;
    let mut i: usize = 0;
    assert(rv.take(0) =~= Seq::<RowView>::empty());
    while i < rows.len()
        invariant
            rv == rows_view(rows@),
            i <= rows.len(),
            n <= i,
            n == class_count(rv.take(i as int), class@),
        decreases rows.len() - i,
    {
        assert(rv.take(i + 1).drop_last() =~= rv.take(i as int));
        let c = chars_of(rows[i].class.as_str());
        let l = chars_of(class);
        if chars_eq(&c, &l) {
            n = n + 1;
        }
        i = i + 1;
    }
    assert(rv.take(rows.len() as int) =~= rv);
    n
}

fn first_of_class_exec(rows: &Vec<Row>, class: &str) -> (k: usize)
    ensures
        k == first_of_class(rows_view(rows@), class@),
{
    let ghost rv = rows_view(rows@);
    let mut i: usize = 0;
    while i < rows.len()
        invariant
            rv == rows_view(rows@),
            i <= rows.len(),
            first_of_class(rv, class@) == first_of_class_from(rv, class@, i as int),
        decreases rows.len() - i,
    {
        let c = chars_of(rows[i].class.as_str());
        let l = chars_of(class);
        if chars_eq(&c, &l) {
            return i;
        }
        i = i + 1;
    }
    i
}

fn exit_count_msg(class: &str, n: usize) -> (m: Vec<char>)
    ensures
        m@ == msg_exit_count(class@, n as nat),
{
    let mut m = lit("class=");
    append_chars(&mut m, &dbg(&lit(class)));
    append_str(&mut m, " 的行数为 ");
    append_chars(&mut m, &dec(n));
    append_str(&mut m, "，应为 1（判定出口必须恰好齐全且唯一）");
    m
}

fn check_class_counts_exec(rows: &Vec<Row>) -> (r: Result<(), Vec<char>>)
    ensures
        match (r, check_class_counts(rows_view(rows@))) {
            (Ok(()), Ok(())) => true,
            (Err(m), Err(s)) => m@ == s,
            _ => false,
        },
{
    if class_count_exec(rows, "value") == 0 {
        return Err(lit("class=value 的行数为 0 —— 词表里一个合法等级都没有"));
    }
    let n = class_count_exec(rows, "unknown");
    if n != 1 {
        return Err(exit_count_msg("unknown", n));
    }
    let n = class_count_exec(rows, "silence");
    if n != 1 {
        return Err(exit_count_msg("silence", n));
    }
    let n = class_count_exec(rows, "illegal");
    if n != 1 {
        return Err(exit_count_msg("illegal", n));
    }
    let n = class_count_exec(rows, "reserved");
    if n != 1 {
        return Err(exit_count_msg("reserved", n));
    }
    Ok(())
}

fn contains_code(codes: &Vec<Vec<char>>, code: &Vec<char>) -> (r: bool)
    ensures
        r == codes@.map_values(|c: Vec<char>| c@).contains(code@),
{
    let ghost cv = codes@.map_values(|c: Vec<char>| c@);
    let mut i: usize = 0;
    while i < codes.len()
        invariant
            cv == codes@.map_values(|c: Vec<char>| c@),
            i <= codes.len(),
            forall|k: int| 0 <= k < i ==> cv[k] != code@,
        decreases codes.len() - i,
    {
        if chars_eq(&codes[i], code) {
            assert(cv[i as int] == code@);
            return true;
        }
        i = i + 1;
    }
    false
}

fn row_debug_exec(r: &Row) -> (m: Vec<char>)
    ensures
        m@ == row_debug(r@),
{
    let mut m = lit("Row { value: ");
    append_chars(&mut m, &dbg(&chars_of(r.value.as_str())));
    append_str(&mut m, ", class: ");
    append_chars(&mut m, &dbg(&chars_of(r.class.as_str())));
    append_str(&mut m, ", code: ");
    append_chars(&mut m, &dbg(&chars_of(r.code.as_str())));
    append_str(&mut m, ", level: ");
    append_chars(&mut m, &dbg(&chars_of(r.level.as_str())));
    append_str(&mut m, ", meaning: ");
    append_chars(&mut m, &dbg(&chars_of(r.meaning.as_str())));
    append_str(&mut m, ", consequence: ");
    append_chars(&mut m, &dbg(&chars_of(r.consequence.as_str())));
    append_str(&mut m, ", high_risk: ");
    if r.high_risk {
        append_str(&mut m, "true");
    } else {
        append_str(&mut m, "false");
    }
    append_str(&mut m, ", owner: ");
    append_chars(&mut m, &dbg(&chars_of(r.owner.as_str())));
    append_str(&mut m, " }");
    m
}

fn check_row_exec(r: &Row, codes: &Vec<Vec<char>>) -> (res: Result<(), Vec<char>>)
    ensures
        match (res, check_row(r@, codes@.map_values(|c: Vec<char>| c@))) {
            (Ok(()), Ok(())) => true,
            (Err(m), Err(s)) => m@ == s,
            _ => false,
        },
{
    let value = chars_of(r.value.as_str());
    let class = chars_of(r.class.as_str());
    let code = chars_of(r.code.as_str());
    let level = chars_of(r.level.as_str());
    let owner = chars_of(r.owner.as_str());
    let is_value = eq_lit(&class, "value");
    let dash = eq_lit(&code, "-");
    if is_value && !dash {
        let mut m = lit("value 行 `");
        append_chars(&mut m, &value);
        append_str(&mut m, "` 的 code 应为 `-`（通过者不产生发现），实为 ");
        append_chars(&mut m, &dbg(&code));
        return Err(m);
    }
    if is_value && (value.len() == 0 || eq_lit(&value, "-")) {
        let mut m = lit("value 行为空：");
        append_chars(&mut m, &row_debug_exec(r));
        return Err(m);
    }
    if !is_value && dash {
        let mut m = lit("class=");
        append_chars(&mut m, &class);
        append_str(&mut m, " 的行必须有注册码（规则 3：新增码 = 先登记后使用）");
        return Err(m);
    }
    if !is_value && !(starts_with_chars(&code, &lit("E-")) || starts_with_chars(&code, &lit("W-"))) {
        let mut m = lit("码 ");
        append_chars(&mut m, &dbg(&code));
        append_str(&mut m, " 必须落在 E-*/W-* 诊断码命名空间（§0）");
        return Err(m);
    }
    if !is_value && !eq_lit(&level, "警告") && !eq_lit(&level, "错误") {
        let mut m = lit("码 ");
        append_chars(&mut m, &dbg(&code));
        append_str(&mut m, " 的 level=");
        append_chars(&mut m, &dbg(&level));
        append_str(&mut m, " 应为 警告/错误");
        return Err(m);
    }
    if !is_value && contains_code(codes, &code) {
        let mut m = lit("码 ");
        append_chars(&mut m, &dbg(&code));
        append_str(&mut m, " 重复登记");
        return Err(m);
    }
    let trimmed = trim_chars(&owner);
    if trimmed.len() == 0 || eq_lit(&owner, "待定") {
        let mut m = lit("行 ");
        append_chars(&mut m, &dbg(&value));
        append_str(&mut m, " 的归属为 ");
        append_chars(&mut m, &dbg(&owner));
        append_str(&mut m, " —— 跨仓消费的码必须有归属（§3.1 第五列）");
        return Err(m);
    }
    Ok(())
}

fn check_rows_exec(rows: &Vec<Row>) -> (res: Result<(), Vec<char>>)
    ensures
        match (res, check_rows_from(rows_view(rows@), 0)) {
            (Ok(()), Ok(())) => true,
            (Err(m), Err(s)) => m@ == s,
            _ => false,
        },
{
    let ghost rv = rows_view(rows@);
    let mut codes: Vec<Vec<char>> = Vec::new();
    let mut j: usize = 0;
    while j < rows.len()
        invariant
            rv == rows_view(rows@),
            j <= rows.len(),
            codes@.map_values(|c: Vec<char>| c@) == codes_before(rv, j as int),
            check_rows_from(rv, 0) == check_rows_from(rv, j as int),
        decreases rows.len() - j,
    {
        assert(rows[j as int]@ == rv[j as int]);
        match check_row_exec(&rows[j], &codes) {
            Err(m) => {
                return Err(m);
            },
            Ok(()) => {},
        }
        let class = chars_of(rows[j].class.as_str());
        if !eq_lit(&class, "value") {
            let code = chars_of(rows[j].code.as_str());
            codes.push(code);
        }
        assert(codes@.map_values(|c: Vec<char>| c@) =~= codes_before(rv, j + 1));
        j = j + 1;
    }
    Ok(())
}

fn level_rank_exec(level: &str) -> (n: usize)
    ensures
        n == level_rank(level@),
{
    let l = chars_of(level);
    if eq_lit(&l, "警告") {
        1
    } else if eq_lit(&l, "错误") {
        2
    } else {
        0
    }
}

fn check_order_exec(rows: &Vec<Row>) -> (res: Result<(), Vec<char>>)
    requires
        class_count(rows_view(rows@), "unknown"@) == 1,
        class_count(rows_view(rows@), "silence"@) == 1,
        class_count(rows_view(rows@), "illegal"@) == 1,
        class_count(rows_view(rows@), "reserved"@) == 1,
    ensures
        match (res, check_order(rows_view(rows@))) {
            (Ok(()), Ok(())) => true,
            (Err(m), Err(s)) => m@ == s,
            _ => false,
        },
{
    let ghost rv = rows_view(rows@);
    proof {
        lemma_first_of_class_found(rv, "unknown"@);
        lemma_first_of_class_found(rv, "silence"@);
        lemma_first_of_class_found(rv, "illegal"@);
        lemma_first_of_class_found(rv, "reserved"@);
    }
    let iu = first_of_class_exec(rows, "unknown");
    let is = first_of_class_exec(rows, "silence");
    let ii = first_of_class_exec(rows, "illegal");
    let ir = first_of_class_exec(rows, "reserved");
    let unknown = level_rank_exec(rows[iu].level.as_str());
    let silence = level_rank_exec(rows[is].level.as_str());
    let illegal = level_rank_exec(rows[ii].level.as_str());
    let reserved = level_rank_exec(rows[ir].level.as_str());
    if silence < unknown {
        let mut m = lit("单调性被破坏：silence 的 level(");
        append_chars(&mut m, &dec(silence));
        append_str(&mut m, ") 比 unknown(");
        append_chars(&mut m, &dec(unknown));
        append_str(&mut m, ") 更轻 —— §12.4 的关键一行是「空不得轻于 unknown」");
        return Err(m);
    }
    if silence == unknown {
        let mut m = lit("unknown 与 silence 的 level 相同（都是 ");
        append_chars(&mut m, &dec(unknown));
        append_str(
            &mut m,
            "）⇒ **处置相同** —— 两者被混为一谈了（§12.4 + 本表不变量 3：沉默与声明必须可区分）",
        );
        return Err(m);
    }
    if illegal < silence {
        let mut m = lit("单调性被破坏：illegal(");
        append_chars(&mut m, &dec(illegal));
        append_str(&mut m, ") 不得比 silence(");
        append_chars(&mut m, &dec(silence));
        append_str(&mut m, ") 轻 —— 「不认」必须至少和「没证据」一样不可接受");
        return Err(m);
    }
    if reserved > unknown {
        let mut m = lit("保留段(");
        append_chars(&mut m, &dec(reserved));
        append_str(&mut m, ") 不得比 unknown(");
        append_chars(&mut m, &dec(unknown));
        append_str(&mut m, ") 更重 —— grease 探针必须被容下，不得被拒（§4 规则 1 + §5）");
        return Err(m);
    }
    let rvalue = chars_of(rows[ir].value.as_str());
    if !ends_with_chars(&rvalue, &lit("-")) {
        let mut m = lit("class=reserved 的 value=");
        append_chars(&mut m, &dbg(&rvalue));
        append_str(&mut m, " 应为前缀（以 `-` 结尾）");
        return Err(m);
    }
    Ok(())
}

/// Structural validation of a parsed vocabulary: all classes present (the
/// four exit classes exactly once), codes well-formed and unique, owners
/// given, and the declared order between the exits respected.
pub fn validate(rows: &Vec<Row>) -> (res: Result<(), String>)
    ensures
        res is Ok <==> validate_spec(rows_view(rows@)) is Ok,
        res matches Err(m) ==> validate_spec(rows_view(rows@)) == Err::<(), Seq<char>>(m@),
        res is Ok ==> vocabulary_wf(rows_view(rows@)),
{
    if rows.len() == 0 {
        return Err(string_of(&lit("词表为空 —— 空表会让所有断言'全部通过'，那是最坏的一种绿")));
    }
    match check_class_counts_exec(rows) {
        Err(m) => {
            return Err(string_of(&m));
        },
        Ok(()) => {},
    }
    match check_rows_exec(rows) {
        Err(m) => {
            return Err(string_of(&m));
        },
        Ok(()) => {},
    }
    match check_order_exec(rows) {
        Err(m) => {
            return Err(string_of(&m));
        },
        Ok(()) => {},
    }
    proof {
        lemma_rows_checked_wf(rows_view(rows@));
    }
    Ok(())
}

// ---------------------------------------------------------------------------
// Lemmas
// ---------------------------------------------------------------------------

proof fn lemma_first_of_class_from(rows: Seq<RowView>, class: Seq<char>, i: int)
    requires
        0 <= i <= rows.len(),
    ensures
        i <= first_of_class_from(rows, class, i) <= rows.len(),
        first_of_class_from(rows, class, i) < rows.len() ==> rows[first_of_class_from(rows, class, i)].class == class,
        forall|k: int| i <= k < first_of_class_from(rows, class, i) ==> rows[k].class != class,
    decreases rows.len() - i,
{
    if i < rows.len() && rows[i].class != class {
        lemma_first_of_class_from(rows, class, i + 1);
    }
}

proof fn lemma_class_count_zero(rows: Seq<RowView>, class: Seq<char>)
    requires
        forall|k: int| 0 <= k < rows.len() ==> rows[k].class != class,
    ensures
        class_count(rows, class) == 0,
    decreases rows.len(),
{
    if rows.len() > 0 {
        lemma_class_count_zero(rows.drop_last(), class);
    }
}

/// A class that occurs is found by `first_of_class`.
pub proof fn lemma_first_of_class_found(rows: Seq<RowView>, class: Seq<char>)
    requires
        class_count(rows, class) >= 1,
    ensures
        0 <= first_of_class(rows, class) < rows.len(),
        rows[first_of_class(rows, class)].class == class,
        forall|k: int| 0 <= k < first_of_class(rows, class) ==> rows[k].class != class,
{
    lemma_first_of_class_from(rows, class, 0);
    if first_of_class(rows, class) == rows.len() {
        lemma_class_count_zero(rows, class);
    }
}

proof fn lemma_check_rows_each(rows: Seq<RowView>, j: int)
    requires
        0 <= j <= rows.len(),
        check_rows_from(rows, j) is Ok,
    ensures
        forall|k: int| j <= k < rows.len() ==> check_row(rows[k], codes_before(rows, k)) is Ok,
    decreases rows.len() - j,
{
    if j < rows.len() {
        lemma_check_rows_each(rows, j + 1);
    }
}

proof fn lemma_rows_checked_wf(rows: Seq<RowView>)
    requires
        validate_spec(rows) is Ok,
    ensures
        vocabulary_wf(rows),
{
    lemma_check_rows_each(rows, 0);
    assert forall|j: int| 0 <= j < rows.len() && (#[trigger] rows[j]).class != "value"@ implies {
        &&& has_prefix(rows[j].code, "E-"@) || has_prefix(rows[j].code, "W-"@)
        &&& rows[j].level == "警告"@ || rows[j].level == "错误"@
    } by {
        assert(check_row(rows[j], codes_before(rows, j)) is Ok);
    }
    assert forall|j: int| 0 <= j < rows.len() && (#[trigger] rows[j]).class == "value"@ implies rows[j].code == "-"@ by {
        assert(check_row(rows[j], codes_before(rows, j)) is Ok);
    }
}

// ---------------------------------------------------------------------------
// Parsing
// ---------------------------------------------------------------------------

/// Parses the registry text and returns the §1.2 vocabulary rows, in registry
/// order, or the reason for refusing.
pub fn parse(text: &str) -> (res: Result<Vec<Row>, String>)
    ensures
        res is Ok <==> parse_spec(text@) is Ok,
        res matches Ok(rows) ==> parse_spec(text@) == Ok::<Seq<RowView>, Seq<char>>(rows_view(rows@)),
        res matches Err(m) ==> parse_spec(text@) == Err::<Seq<RowView>, Seq<char>>(m@),
        res matches Ok(rows) ==> vocabulary_wf(rows_view(rows@)),
{
    let chars = chars_of(text);
    let lines = lines_chars(&chars);
    let ghost ls = lines_seq(text@);
    assert(lines@.map_values(|l: Vec<char>| l@) =~= ls);
    let begin = lit(BEGIN_MARKER);
    let end = lit(END_MARKER);
    let arrow = lit("-->");
    let mut inside = false;
    let mut seen = false;
    let mut rows: Vec<Row> = Vec::new();
    let mut i: usize = 0;
    let mut stopped = false;
    assert(rows_view(rows@) =~= Seq::<RowView>::empty());
    while i < lines.len() && !stopped
        invariant
            ls == lines_seq(text@),
            lines@.len() == ls.len(),
            forall|k: int| 0 <= k < ls.len() ==> #[trigger] lines@[k]@ == ls[k],
            begin@ == BEGIN_MARKER@,
            end@ == END_MARKER@,
            arrow@ == "-->"@,
            i <= lines.len(),
            !stopped ==> scan_lines(ls, 0, false, false, Seq::empty()) == scan_lines(
                ls,
                i as int,
                inside,
                seen,
                rows_view(rows@),
            ),
            stopped ==> scan_lines(ls, 0, false, false, Seq::empty()) == Ok::<ScanEnd, Seq<char>>(
                ScanEnd { seen_begin: seen, inside: false, rows: rows_view(rows@) },
            ),
            stopped ==> !inside,
        decreases lines.len() - i, if stopped { 0int } else { 1int },
    {
        let line = &lines[i];
        let lineno = i + 1;
        if !inside {
            let ts = trim_start_chars(line);
            if starts_with_chars(&ts, &begin) {
                seen = true;
                inside = true;
                if !contains_chars(line, &arrow) {
                    let mut m = line_prefix_exec(lineno);
                    append_str(&mut m, " 行：BEGIN 标记未在同一行闭合（缺 `-->`）—— 拒绝解析");
                    return Err(string_of(&m));
                }
            }
            i = i + 1;
        } else {
            let t = trim_chars(line);
            if chars_eq(&t, &end) {
                inside = false;
                stopped = true;
            } else {
                match line_step(line, lineno) {
                    StepOutcome::Skip => {},
                    StepOutcome::Data(r) => {
                        let ghost before = rows_view(rows@);
                        let ghost rv = r@;
                        rows.push(r);
                        assert(rows_view(rows@) =~= before.push(rv));
                    },
                    StepOutcome::Fail(m) => {
                        return Err(string_of(&m));
                    },
                }
                i = i + 1;
            }
        }
    }
    if !seen {
        return Err(string_of(&lit("正文里找不到起始标记 `<!-- BEGIN CI144-RISK-VOCABULARY` —— 注册表块被删/被改名；拒绝解析（不返回空表）")));
    }
    if inside {
        return Err(string_of(&lit("找到起始标记但找不到结束标记 `<!-- END CI144-RISK-VOCABULARY -->`")));
    }
    match validate(&rows) {
        Err(m) => Err(m),
        Ok(()) => Ok(rows),
    }
}

// ---------------------------------------------------------------------------
// Rust string literals
// ---------------------------------------------------------------------------

/// The escape of one character inside a Rust string literal.
pub open spec fn escape_char(c: char) -> Seq<char> {
    if c == '"' {
        seq!['\\', '"']
    } else if c == '\\' {
        seq!['\\', '\\']
    } else if c == '\n' {
        seq!['\\', 'n']
    } else if c == '\r' {
        seq!['\\', 'r']
    } else if c == '\t' {
        seq!['\\', 't']
    } else {
        seq![c]
    }
}

/// The escapes of all characters of `s`, in order.
pub open spec fn escaped(s: Seq<char>) -> Seq<char>
    decreases s.len(),
{
    if s.len() == 0 {
        Seq::empty()
    } else {
        escaped(s.drop_last()) + escape_char(s.last())
    }
}

/// `s` as a Rust string literal (quotes included).
pub open spec fn rust_str_spec(s: Seq<char>) -> Seq<char> {
    seq!['"'] + escaped(s) + seq!['"']
}

/// Writes `s` as a Rust string literal, quotes included: `"` and `\` are
/// escaped with a backslash, newline, carriage return and tab as `\n`, `\r`, `\t`.
pub fn rust_str(s: &str) -> (r: String)
    ensures
        r@ == rust_str_spec(s@),
{
    let cs = chars_of(s);
    let mut out: Vec<char> = Vec::new();
    out.push('"');
    let mut i: usize = 0;
    assert(cs@.take(0) =~= Seq::<char>::empty());
    assert(out@ =~= seq!['"'] + escaped(cs@.take(0)));
    while i < cs.len()
        invariant
            i <= cs.len(),
            out@ == seq!['"'] + escaped(cs@.take(i as int)),
        decreases cs.len() - i,
    {
        let c = cs[i];
        let ghost before = out@;
        if c == '"' {
            out.push('\\');
            out.push('"');
        } else if c == '\\' {
            out.push('\\');
            out.push('\\');
        } else if c == '\n' {
            out.push('\\');
            out.push('n');
        } else if c == '\r' {
            out.push('\\');
            out.push('r');
        } else if c == '\t' {
            out.push('\\');
            out.push('t');
        } else {
            out.push(c);
        }
        assert(out@ =~= before + escape_char(c));
        assert(cs@.take(i + 1).drop_last() =~= cs@.take(i as int));
        i = i + 1;
    }
    out.push('"');
    assert(cs@.take(cs.len() as int) =~= cs@);
    string_of(&out)
}

/// A character that `rust_str` escapes.
pub open spec fn needs_escape(c: char) -> bool {
    c == '"' || c == '\\' || c == '\n' || c == '\r' || c == '\t'
}

/// The number of characters of `s` that `rust_str` escapes.
pub open spec fn escape_count(s: Seq<char>) -> nat
    decreases s.len(),
{
    if s.len() == 0 {
        0
    } else {
        escape_count(s.drop_last()) + if needs_escape(s.last()) {
            1nat
        } else {
            0nat
        }
    }
}

proof fn lemma_escaped_shape(s: Seq<char>)
    ensures
        escaped(s).len() == s.len() + escape_count(s),
        forall|i: int|
            0 <= i < escaped(s).len() ==> #[trigger] escaped(s)[i] != '\n' && escaped(s)[i] != '\r'
                && escaped(s)[i] != '\t',
    decreases s.len(),
{
    if s.len() > 0 {
        let p = s.drop_last();
        lemma_escaped_shape(p);
        let e = escape_char(s.last());
        assert(escaped(s) == escaped(p) + e);
        assert forall|i: int| 0 <= i < escaped(s).len() implies #[trigger] escaped(s)[i] != '\n'
            && escaped(s)[i] != '\r' && escaped(s)[i] != '\t' by {
            if i < escaped(p).len() {
                assert(escaped(s)[i] == escaped(p)[i]);
            } else {
                assert(escaped(s)[i] == e[i - escaped(p).len()]);
            }
        }
    }
}

/// The shape of a Rust string literal written by `rust_str`: it starts and
/// ends with `"`, holds no raw newline, carriage return or tab, and is two
/// characters longer than its input plus one per escaped character.
pub proof fn law_rust_str_shape(s: Seq<char>)
    ensures
        rust_str_spec(s).len() == s.len() + 2 + escape_count(s),
        rust_str_spec(s)[0] == '"',
        rust_str_spec(s).last() == '"',
        forall|i: int|
            0 <= i < rust_str_spec(s).len() ==> #[trigger] rust_str_spec(s)[i] != '\n'
                && rust_str_spec(s)[i] != '\r' && rust_str_spec(s)[i] != '\t',
{
    lemma_escaped_shape(s);
    let r = rust_str_spec(s);
    assert forall|i: int| 0 <= i < r.len() implies #[trigger] r[i] != '\n' && r[i] != '\r' && r[i]
        != '\t' by {
        if 1 <= i < r.len() - 1 {
            assert(r[i] == escaped(s)[i - 1]);
        }
    }
}

/// Every condition `validate` checks: a non-empty vocabulary, the exit
/// classes once each and `value` at least once, codes and levels in their
/// namespaces, `value` rows without code and with a real value, distinct
/// codes, an owner on every row, and the monotone ladder between the exits.
pub open spec fn vocabulary_valid(rows: Seq<RowView>) -> bool {
    &&& rows.len() > 0
    &&& vocabulary_wf(rows)
    &&& forall|j: int|
        0 <= j < rows.len() && (#[trigger] rows[j]).class == "value"@ ==> rows[j].value.len() > 0
            && rows[j].value != "-"@
    &&& forall|j: int|
        0 <= j < rows.len() ==> trim_seq((#[trigger] rows[j]).owner).len() > 0 && rows[j].owner
            != "待定"@
    &&& forall|j: int, k: int|
        0 <= j < k < rows.len() && (#[trigger] rows[j]).class != "value"@ && (#[trigger] rows[k]).class
            != "value"@ ==> rows[j].code != rows[k].code
}

proof fn lemma_codes_before(rows: Seq<RowView>, k: int)
    requires
        0 <= k <= rows.len(),
    ensures
        forall|c: Seq<char>|
            #[trigger] codes_before(rows, k).contains(c) <==> exists|j: int|
                0 <= j < k && (#[trigger] rows[j]).class != "value"@ && rows[j].code == c,
    decreases k,
{
    if k > 0 {
        lemma_codes_before(rows, k - 1);
        let p = codes_before(rows, k - 1);
        assert forall|c: Seq<char>| #[trigger] codes_before(rows, k).contains(c) <==> exists|j: int|
            0 <= j < k && (#[trigger] rows[j]).class != "value"@ && rows[j].code == c by {
            if codes_before(rows, k).contains(c) {
                if rows[k - 1].class != "value"@ && c == rows[k - 1].code {
                    assert(0 <= k - 1 < k && rows[k - 1].class != "value"@ && rows[k - 1].code == c);
                } else {
                    let i = choose|i: int| 0 <= i < codes_before(rows, k).len() && codes_before(rows, k)[i] == c;
                    if rows[k - 1].class != "value"@ {
                        assert(codes_before(rows, k) == p.push(rows[k - 1].code));
                        assert(i < p.len());
                        assert(p[i] == c);
                    }
                    assert(p.contains(c));
                    let j = choose|j: int| 0 <= j < k - 1 && (#[trigger] rows[j]).class != "value"@ && rows[j].code == c;
                    assert(0 <= j < k);
                }
            }
            if exists|j: int| 0 <= j < k && (#[trigger] rows[j]).class != "value"@ && rows[j].code == c {
                let j = choose|j: int| 0 <= j < k && (#[trigger] rows[j]).class != "value"@ && rows[j].code == c;
                if j == k - 1 {
                    assert(codes_before(rows, k) == p.push(rows[k - 1].code));
                    assert(codes_before(rows, k)[p.len() as int] == c);
                } else {
                    assert(p.contains(c));
                    let i = choose|i: int| 0 <= i < p.len() && p[i] == c;
                    if rows[k - 1].class != "value"@ {
                        assert(codes_before(rows, k) == p.push(rows[k - 1].code));
                        assert(codes_before(rows, k)[i] == c);
                    }
                }
            }
        }
    }
}

proof fn lemma_rows_valid_checked(rows: Seq<RowView>, j: int)
    requires
        0 <= j <= rows.len(),
        vocabulary_valid(rows),
    ensures
        check_rows_from(rows, j) is Ok,
    decreases rows.len() - j,
{
    if j < rows.len() {
        lemma_rows_valid_checked(rows, j + 1);
        lemma_codes_before(rows, j);
        let r = rows[j];
        reveal_strlit("-");
        reveal_strlit("E-");
        reveal_strlit("W-");
        if r.class != "value"@ {
            assert(has_prefix(r.code, "E-"@) || has_prefix(r.code, "W-"@));
            assert(r.code != "-"@);
            if codes_before(rows, j).contains(r.code) {
                let i = choose|i: int| 0 <= i < j && (#[trigger] rows[i]).class != "value"@ && rows[i].code == r.code;
                assert(rows[i].code != rows[j].code);
            }
        }
        assert(check_row(r, codes_before(rows, j)) is Ok);
    }
}

/// `validate` accepts a vocabulary exactly when it meets every condition
/// it checks (see [`vocabulary_valid`]).
pub proof fn law_validate_iff_valid(rows: Seq<RowView>)
    ensures
        validate_spec(rows) is Ok <==> vocabulary_valid(rows),
{
    if validate_spec(rows) is Ok {
        lemma_rows_checked_wf(rows);
        lemma_check_rows_each(rows, 0);
        assert forall|j: int| 0 <= j < rows.len() && (#[trigger] rows[j]).class == "value"@ implies rows[j].value.len() > 0
            && rows[j].value != "-"@ by {
            assert(check_row(rows[j], codes_before(rows, j)) is Ok);
        }
        assert forall|j: int| 0 <= j < rows.len() implies trim_seq((#[trigger] rows[j]).owner).len() > 0
            && rows[j].owner != "待定"@ by {
            assert(check_row(rows[j], codes_before(rows, j)) is Ok);
        }
        assert forall|j: int, k: int|
            0 <= j < k < rows.len() && (#[trigger] rows[j]).class != "value"@ && (#[trigger] rows[k]).class
                != "value"@ implies rows[j].code != rows[k].code by {
            lemma_codes_before(rows, k);
            assert(check_row(rows[k], codes_before(rows, k)) is Ok);
            if rows[j].code == rows[k].code {
                assert(codes_before(rows, k).contains(rows[k].code));
            }
        }
    }
    if vocabulary_valid(rows) {
        lemma_rows_valid_checked(rows, 0);
        assert(check_class_counts(rows) is Ok);
        assert(check_order(rows) is Ok);
    }
}

proof fn lemma_fail_inside(lines: Seq<Seq<char>>, i: int, k: int, seen: bool, rows: Seq<RowView>)
    requires
        0 <= i <= k < lines.len(),
        forall|m: int| i <= m <= k ==> trim_seq(#[trigger] lines[m]) != END_MARKER@,
        line_outcome(lines[k], (k + 1) as nat) is Fail,
    ensures
        scan_lines(lines, i, true, seen, rows) is Err,
    decreases k - i,
{
    assert(trim_seq(lines[i]) != END_MARKER@);
    if i < k {
        match line_outcome(lines[i], (i + 1) as nat) {
            LineOutcome::Skip => lemma_fail_inside(lines, i + 1, k, seen, rows),
            LineOutcome::Data(r) => lemma_fail_inside(lines, i + 1, k, seen, rows.push(r)),
            LineOutcome::Fail(_) => {},
        }
    }
}

proof fn lemma_skip_before_begin(lines: Seq<Seq<char>>, i: int, b: int, rows: Seq<RowView>)
    requires
        0 <= i <= b < lines.len(),
        forall|m: int| i <= m < b ==> !has_prefix(trim_start_seq(#[trigger] lines[m]), BEGIN_MARKER@),
    ensures
        scan_lines(lines, i, false, false, rows) == scan_lines(lines, b, false, false, rows),
    decreases b - i,
{
    if i < b {
        assert(!has_prefix(trim_start_seq(lines[i]), BEGIN_MARKER@));
        lemma_skip_before_begin(lines, i + 1, b, rows);
    }
}

/// A malformed line in the vocabulary block always makes `parse` fail: a
/// table line (starting with `|`) with fewer than two `|`, a wrong number of
/// cells that is no header, an unknown class or a `high_risk` cell other
/// than `yes` / `no` (whatever [`line_outcome`] reports as `Fail`), lying
/// after the first start marker and before the end marker.
pub proof fn law_malformed_row_refused(text: Seq<char>, b: int, k: int)
    requires
        0 <= b < k < lines_seq(text).len(),
        forall|m: int| 0 <= m < b ==> !has_prefix(trim_start_seq(#[trigger] lines_seq(text)[m]), BEGIN_MARKER@),
        has_prefix(trim_start_seq(lines_seq(text)[b]), BEGIN_MARKER@),
        forall|m: int| b < m <= k ==> trim_seq(#[trigger] lines_seq(text)[m]) != END_MARKER@,
        line_outcome(lines_seq(text)[k], (k + 1) as nat) is Fail,
    ensures
        parse_spec(text) is Err,
{
    let lines = lines_seq(text);
    lemma_skip_before_begin(lines, 0, b, Seq::empty());
    if has_infix(lines[b], "-->"@) {
        lemma_fail_inside(lines, b + 1, k, true, Seq::empty());
    }
}

/// The outcome of a line does not depend on its number, but for the
/// message of a failure.
proof fn lemma_outcome_lineno(line: Seq<char>, n1: nat, n2: nat)
    ensures
        line_outcome(line, n1) is Skip <==> line_outcome(line, n2) is Skip,
        line_outcome(line, n1) is Fail <==> line_outcome(line, n2) is Fail,
        line_outcome(line, n1) is Data ==> line_outcome(line, n1) == line_outcome(line, n2),
{
}

proof fn lemma_scan_block_shifted(
    big: Seq<Seq<char>>,
    blk: Seq<Seq<char>>,
    off: int,
    i: int,
    rows: Seq<RowView>,
)
    requires
        0 <= off,
        off + blk.len() <= big.len(),
        forall|j: int| 0 <= j < blk.len() ==> big[off + j] == #[trigger] blk[j],
        1 <= i < blk.len(),
        trim_seq(blk.last()) == END_MARKER@,
    ensures
        scan_lines(big, off + i, true, true, rows) is Ok <==> scan_lines(blk, i, true, true, rows) is Ok,
        scan_lines(blk, i, true, true, rows) is Ok ==> scan_lines(big, off + i, true, true, rows)
            == scan_lines(blk, i, true, true, rows),
    decreases blk.len() - i,
{
    assert(big[off + i] == blk[i]);
    if trim_seq(blk[i]) != END_MARKER@ {
        assert(i < blk.len() - 1);
        lemma_outcome_lineno(blk[i], (off + i + 1) as nat, (i + 1) as nat);
        match line_outcome(blk[i], (i + 1) as nat) {
            LineOutcome::Skip => lemma_scan_block_shifted(big, blk, off, i + 1, rows),
            LineOutcome::Data(r) => lemma_scan_block_shifted(big, blk, off, i + 1, rows.push(r)),
            LineOutcome::Fail(_) => {},
        }
    }
}

/// Text around the vocabulary block does not change what `parse` reads:
/// when the lines of `text` are the lines of `block` with lines before it
/// (none of them a start marker) and after it, and `block` runs from a
/// start-marker line to its end-marker line, `parse` accepts `text` exactly
/// when it accepts `block`, and then gives the same rows.
pub proof fn law_surrounding_text_ignored(
    text: Seq<char>,
    block: Seq<char>,
    before: Seq<Seq<char>>,
    after: Seq<Seq<char>>,
)
    requires
        lines_seq(text) == before + lines_seq(block) + after,
        forall|m: int| 0 <= m < before.len() ==> !has_prefix(trim_start_seq(#[trigger] before[m]), BEGIN_MARKER@),
        lines_seq(block).len() >= 2,
        has_prefix(trim_start_seq(lines_seq(block)[0]), BEGIN_MARKER@),
        has_infix(lines_seq(block)[0], "-->"@),
        trim_seq(lines_seq(block).last()) == END_MARKER@,
    ensures
        parse_spec(text) is Ok <==> parse_spec(block) is Ok,
        parse_spec(block) is Ok ==> parse_spec(text) == parse_spec(block),
{
    let big = lines_seq(text);
    let blk = lines_seq(block);
    let off = before.len() as int;
    assert forall|j: int| 0 <= j < blk.len() implies big[off + j] == #[trigger] blk[j] by {
        assert(big[off + j] == (before + blk + after)[off + j]);
    }
    assert forall|m: int| 0 <= m < off implies !has_prefix(trim_start_seq(#[trigger] big[m]), BEGIN_MARKER@) by {
        assert(big[m] == before[m]);
    }
    lemma_skip_before_begin(big, 0, off, Seq::empty());
    assert(big[off] == blk[0]);
    lemma_scan_block_shifted(big, blk, off, 1, Seq::empty());
}

proof fn lemma_scan_rows_classed(
    lines: Seq<Seq<char>>,
    i: int,
    inside: bool,
    seen: bool,
    rows: Seq<RowView>,
)
    requires
        forall|j: int| 0 <= j < rows.len() ==> is_class(#[trigger] rows[j].class),
    ensures
        scan_lines(lines, i, inside, seen, rows) matches Ok(e) ==> forall|j: int|
            0 <= j < e.rows.len() ==> is_class(#[trigger] e.rows[j].class),
    decreases lines.len() - i,
{
    if 0 <= i < lines.len() {
        let line = lines[i];
        if !inside {
            lemma_scan_rows_classed(lines, i + 1, true, true, rows);
            lemma_scan_rows_classed(lines, i + 1, inside, seen, rows);
        } else if trim_seq(line) != END_MARKER@ {
            match line_outcome(line, (i + 1) as nat) {
                LineOutcome::Skip => lemma_scan_rows_classed(lines, i + 1, inside, seen, rows),
                LineOutcome::Data(r) => {
                    assert(is_class(r.class));
                    assert forall|j: int| 0 <= j < rows.push(r).len() implies is_class(
                        #[trigger] rows.push(r)[j].class,
                    ) by {
                        if j < rows.len() {
                            assert(rows.push(r)[j] == rows[j]);
                        }
                    }
                    lemma_scan_rows_classed(lines, i + 1, inside, seen, rows.push(r));
                },
                LineOutcome::Fail(_) => {},
            }
        }
    }
}

/// What `parse` accepts `validate` accepts too: the rows of a successful
/// parse meet every condition of [`vocabulary_valid`], and each row's class
/// is one of the five the registry knows.
pub proof fn law_parse_gives_valid_rows(text: Seq<char>)
    ensures
        parse_spec(text) matches Ok(rows) ==> {
            &&& validate_spec(rows) is Ok
            &&& vocabulary_valid(rows)
            &&& forall|j: int| 0 <= j < rows.len() ==> is_class(#[trigger] rows[j].class)
        },
{
    lemma_scan_rows_classed(lines_seq(text), 0, false, false, Seq::empty());
    if parse_spec(text) is Ok {
        let rows = parse_spec(text)->Ok_0;
        law_validate_iff_valid(rows);
    }
}

proof fn lemma_scan_shift(
    big: Seq<Seq<char>>,
    small: Seq<Seq<char>>,
    d: int,
    i: int,
    inside: bool,
    seen: bool,
    rows: Seq<RowView>,
)
    requires
        0 <= d,
        0 <= i <= small.len(),
        big.len() == small.len() + d,
        forall|j: int| i <= j < small.len() ==> big[j + d] == #[trigger] small[j],
    ensures
        scan_lines(big, i + d, inside, seen, rows) is Ok <==> scan_lines(small, i, inside, seen, rows) is Ok,
        scan_lines(small, i, inside, seen, rows) is Ok ==> scan_lines(big, i + d, inside, seen, rows)
            == scan_lines(small, i, inside, seen, rows),
    decreases small.len() - i,
{
    if i < small.len() {
        let line = small[i];
        assert(big[i + d] == line);
        if !inside {
            lemma_scan_shift(big, small, d, i + 1, true, true, rows);
            lemma_scan_shift(big, small, d, i + 1, inside, seen, rows);
        } else if trim_seq(line) != END_MARKER@ {
            lemma_outcome_lineno(line, (i + d + 1) as nat, (i + 1) as nat);
            match line_outcome(line, (i + 1) as nat) {
                LineOutcome::Skip => lemma_scan_shift(big, small, d, i + 1, inside, seen, rows),
                LineOutcome::Data(r) => lemma_scan_shift(big, small, d, i + 1, inside, seen, rows.push(r)),
                LineOutcome::Fail(_) => {},
            }
        }
    }
}

/// A line that is neither a table line, nor a start or end marker.
pub open spec fn is_plain_line(x: Seq<char>) -> bool {
    &&& !has_prefix(trim_start_seq(x), "|"@)
    &&& !has_prefix(trim_start_seq(x), BEGIN_MARKER@)
    &&& trim_seq(x) != END_MARKER@
}

/// A markdown table separator line such as `|---|:---:|---:|`: a table line
/// with at least one cell, each cell non-empty and made only of `-` and `:`.
pub open spec fn is_separator_line(x: Seq<char>) -> bool {
    &&& has_prefix(trim_start_seq(x), "|"@)
    &&& split_seq(x, '|').len() >= 3
    &&& forall|k: int|
        0 <= k < line_cells(x).len() ==> {
            &&& (#[trigger] line_cells(x)[k]).len() > 0
            &&& forall|j: int|
                0 <= j < line_cells(x)[k].len() ==> line_cells(x)[k][j] == '-' || line_cells(x)[k][j]
                    == ':'
        }
}

/// A separator line of a table, whatever mix of `-` and `:` (alignment
/// markers) its cells hold, is no data row: the parser skips it.
pub proof fn law_separator_line_skipped(x: Seq<char>, lineno: nat)
    requires
        is_separator_line(x),
    ensures
        line_outcome(x, lineno) == LineOutcome::Skip,
{
    let cells = line_cells(x);
    assert(cells.len() > 0);
    assert(is_separator_cells(cells));
}

proof fn lemma_trim_end_keeps_first(s: Seq<char>)
    requires
        s.len() > 0,
        !is_white_space(s[0]),
    ensures
        trim_end_seq(s).len() > 0,
        trim_end_seq(s)[0] == s[0],
    decreases s.len(),
{
    if is_white_space(s.last()) {
        assert(s.len() > 1);
        lemma_trim_end_keeps_first(s.drop_last());
    }
}

/// A line that `parse` passes over wherever it stands: not a start or end
/// marker, and skipped inside the block.
spec fn is_passed_over(x: Seq<char>) -> bool {
    &&& !has_prefix(trim_start_seq(x), BEGIN_MARKER@)
    &&& trim_seq(x) != END_MARKER@
    &&& forall|n: nat| #[trigger] line_outcome(x, n) == LineOutcome::Skip
}

proof fn lemma_plain_passed_over(x: Seq<char>)
    requires
        is_plain_line(x),
    ensures
        is_passed_over(x),
{
    reveal_strlit("|");
}

proof fn lemma_separator_passed_over(x: Seq<char>)
    requires
        is_separator_line(x),
    ensures
        is_passed_over(x),
{
    reveal_strlit("|");
    reveal_strlit("<!-- BEGIN CI144-RISK-VOCABULARY");
    reveal_strlit("<!-- END CI144-RISK-VOCABULARY -->");
    assert(BEGIN_MARKER@[0] == '<');
    assert(END_MARKER@[0] == '<');
    let t = trim_start_seq(x);
    assert("|"@.len() == 1 && "|"@[0] == '|');
    assert(t.subrange(0, 1) == "|"@);
    assert(t.subrange(0, 1)[0] == t[0]);
    assert(t[0] == '|');
    assert(!has_prefix(t, BEGIN_MARKER@)) by {
        if has_prefix(t, BEGIN_MARKER@) {
            assert(t.subrange(0, BEGIN_MARKER@.len() as int)[0] == t[0]);
        }
    }
    lemma_trim_end_keeps_first(t);
    assert(trim_seq(x)[0] == '|');
    assert forall|n: nat| #[trigger] line_outcome(x, n) == LineOutcome::Skip by {
        law_separator_line_skipped(x, n);
    }
}

proof fn lemma_scan_insert(
    longer: Seq<Seq<char>>,
    lines: Seq<Seq<char>>,
    p: int,
    x: Seq<char>,
    i: int,
    inside: bool,
    seen: bool,
    rows: Seq<RowView>,
)
    requires
        0 <= i <= p <= lines.len(),
        longer == lines.insert(p, x),
        is_passed_over(x),
    ensures
        scan_lines(longer, i, inside, seen, rows) is Ok <==> scan_lines(lines, i, inside, seen, rows) is Ok,
        scan_lines(lines, i, inside, seen, rows) is Ok ==> scan_lines(longer, i, inside, seen, rows)
            == scan_lines(lines, i, inside, seen, rows),
    decreases p - i,
{
    if i == p {
        assert(longer[p] == x);
        assert forall|j: int| p <= j < lines.len() implies longer[j + 1] == #[trigger] lines[j] by {}
        lemma_scan_shift(longer, lines, 1, p, inside, seen, rows);
        assert(line_outcome(x, (p + 1) as nat) == LineOutcome::Skip);
        assert(scan_lines(longer, p, inside, seen, rows) == scan_lines(longer, p + 1, inside, seen, rows));
    } else {
        assert(longer[i] == lines[i]);
        let line = lines[i];
        if !inside {
            lemma_scan_insert(longer, lines, p, x, i + 1, true, true, rows);
            lemma_scan_insert(longer, lines, p, x, i + 1, inside, seen, rows);
        } else if trim_seq(line) != END_MARKER@ {
            match line_outcome(line, (i + 1) as nat) {
                LineOutcome::Skip => lemma_scan_insert(longer, lines, p, x, i + 1, inside, seen, rows),
                LineOutcome::Data(r) => lemma_scan_insert(longer, lines, p, x, i + 1, inside, seen, rows.push(r)),
                LineOutcome::Fail(_) => {},
            }
        }
    }
}

/// A plain line (not a table line, not a marker) inserted anywhere, inside
/// the vocabulary block or around it, does not change what `parse` reads:
/// `parse` accepts the longer text exactly when it accepts the shorter one,
/// and then gives the same rows (only the line numbers in error messages
/// may differ).
pub proof fn law_plain_line_ignored(text: Seq<char>, longer_text: Seq<char>, p: int, x: Seq<char>)
    requires
        0 <= p <= lines_seq(text).len(),
        lines_seq(longer_text) == lines_seq(text).insert(p, x),
        is_plain_line(x),
    ensures
        parse_spec(longer_text) is Ok <==> parse_spec(text) is Ok,
        parse_spec(text) is Ok ==> parse_spec(longer_text) == parse_spec(text),
{
    lemma_plain_passed_over(x);
    lemma_scan_insert(lines_seq(longer_text), lines_seq(text), p, x, 0, false, false, Seq::empty());
}

/// A table separator line (cells of `-` and `:` only, alignment markers
/// included) inserted anywhere, inside the vocabulary block or around it,
/// does not change what `parse` reads: `parse` accepts the longer text
/// exactly when it accepts the shorter one, and then gives the same rows.
pub proof fn law_separator_line_ignored(text: Seq<char>, longer_text: Seq<char>, p: int, x: Seq<char>)
    requires
        0 <= p <= lines_seq(text).len(),
        lines_seq(longer_text) == lines_seq(text).insert(p, x),
        is_separator_line(x),
    ensures
        parse_spec(longer_text) is Ok <==> parse_spec(text) is Ok,
        parse_spec(text) is Ok ==> parse_spec(longer_text) == parse_spec(text),
{
    lemma_separator_passed_over(x);
    lemma_scan_insert(lines_seq(longer_text), lines_seq(text), p, x, 0, false, false, Seq::empty());
}

/// Rewriting a table separator line as another one (say `|---|---|` as
/// `|:---|:---:|`) does not change what `parse` reads: it accepts one text
/// exactly when it accepts the other, and then gives the same rows.
pub proof fn law_separator_line_rewritten(text: Seq<char>, other_text: Seq<char>, p: int, y: Seq<char>)
    requires
        0 <= p < lines_seq(text).len(),
        is_separator_line(lines_seq(text)[p]),
        is_separator_line(y),
        lines_seq(other_text) == lines_seq(text).update(p, y),
    ensures
        parse_spec(other_text) is Ok <==> parse_spec(text) is Ok,
        parse_spec(text) is Ok ==> parse_spec(other_text) == parse_spec(text),
{
    let lines = lines_seq(text);
    let x = lines[p];
    let base = lines.remove(p);
    assert(lines == base.insert(p, x));
    assert(lines_seq(other_text) == base.insert(p, y));
    lemma_separator_passed_over(x);
    lemma_separator_passed_over(y);
    lemma_scan_insert(lines, base, p, x, 0, false, false, Seq::empty());
    lemma_scan_insert(lines_seq(other_text), base, p, y, 0, false, false, Seq::empty());
}

/// The character a backslash escape `\\c` stands for in a Rust string literal
/// (`n`, `r`, `t` for newline, carriage return, tab; any other `c` for itself).
pub open spec fn unescape_char(c: char) -> char {
    if c == 'n' {
        '\n'
    } else if c == 'r' {
        '\r'
    } else if c == 't' {
        '\t'
    } else {
        c
    }
}

/// The text a string literal's body stands for, escapes resolved from the front.
pub open spec fn unescaped(t: Seq<char>) -> Seq<char>
    decreases t.len(),
{
    if t.len() == 0 {
        Seq::empty()
    } else if t[0] == '\\' && t.len() >= 2 {
        seq![unescape_char(t[1])] + unescaped(t.subrange(2, t.len() as int))
    } else {
        seq![t[0]] + unescaped(t.drop_first())
    }
}

proof fn lemma_escaped_front(s: Seq<char>)
    requires
        s.len() > 0,
    ensures
        escaped(s) == escape_char(s[0]) + escaped(s.drop_first()),
    decreases s.len(),
{
    if s.len() == 1 {
        assert(s.drop_last() =~= Seq::<char>::empty());
        assert(s.drop_first() =~= Seq::<char>::empty());
        assert(escaped(Seq::<char>::empty()) == Seq::<char>::empty());
        assert(escaped(s.drop_last()) == Seq::<char>::empty());
        assert(s.last() == s[0]);
        assert(escaped(s) =~= escape_char(s[0]));
    } else {
        lemma_escaped_front(s.drop_last());
        assert(s.drop_last().drop_first() =~= s.drop_first().drop_last());
        assert(s.drop_first().last() == s.last());
        assert(escaped(s) =~= escape_char(s[0]) + escaped(s.drop_first()));
    }
}

proof fn lemma_unescape_escaped(s: Seq<char>)
    ensures
        unescaped(escaped(s)) == s,
    decreases s.len(),
{
    if s.len() == 0 {
        assert(escaped(s) =~= Seq::<char>::empty());
    } else {
        lemma_escaped_front(s);
        lemma_unescape_escaped(s.drop_first());
        let e = escape_char(s[0]);
        let rest = escaped(s.drop_first());
        let t = e + rest;
        if needs_escape(s[0]) {
            assert(e.len() == 2);
            assert(t[0] == '\\');
            assert(t.subrange(2, t.len() as int) =~= rest);
            assert(unescape_char(t[1]) == s[0]);
        } else {
            assert(e =~= seq![s[0]]);
            assert(t[0] != '\\');
            assert(t.drop_first() =~= rest);
        }
        assert(seq![s[0]] + s.drop_first() =~= s);
    }
}

/// `rust_str` writes a literal whose value is its input: resolving the
/// escapes of the text between the quotes gives the input back.
pub proof fn law_rust_str_roundtrip(s: Seq<char>)
    ensures
        unescaped(rust_str_spec(s).subrange(1, rust_str_spec(s).len() - 1)) == s,
{
    let r = rust_str_spec(s);
    assert(r.subrange(1, r.len() - 1) =~= escaped(s));
    lemma_unescape_escaped(s);
}

proof fn lemma_first_begin(lines: Seq<Seq<char>>, b: int) -> (b0: int)
    requires
        0 <= b < lines.len(),
        has_prefix(trim_start_seq(lines[b]), BEGIN_MARKER@),
    ensures
        0 <= b0 <= b,
        has_prefix(trim_start_seq(lines[b0]), BEGIN_MARKER@),
        forall|m: int| 0 <= m < b0 ==> !has_prefix(trim_start_seq(#[trigger] lines[m]), BEGIN_MARKER@),
    decreases b,
{
    if exists|m: int| 0 <= m < b && has_prefix(trim_start_seq(#[trigger] lines[m]), BEGIN_MARKER@) {
        let m = choose|m: int| 0 <= m < b && has_prefix(trim_start_seq(#[trigger] lines[m]), BEGIN_MARKER@);
        lemma_first_begin(lines, m)
    } else {
        b
    }
}

/// A malformed line after a start-marker line, with no end-marker line
/// anywhere up to it, always makes `parse` fail (whichever start-marker
/// line it follows).
pub proof fn law_malformed_row_refused_after_any_begin(text: Seq<char>, b: int, k: int)
    requires
        0 <= b < k < lines_seq(text).len(),
        has_prefix(trim_start_seq(lines_seq(text)[b]), BEGIN_MARKER@),
        forall|m: int| 0 <= m <= k ==> trim_seq(#[trigger] lines_seq(text)[m]) != END_MARKER@,
        line_outcome(lines_seq(text)[k], (k + 1) as nat) is Fail,
    ensures
        parse_spec(text) is Err,
{
    let b0 = lemma_first_begin(lines_seq(text), b);
    law_malformed_row_refused(text, b0, k);
}

} // verus!
