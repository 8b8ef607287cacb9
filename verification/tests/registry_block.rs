use helix_eco_glove::registry_parse::{parse, rust_str, validate, Row, BEGIN_MARKER, END_MARKER};
use helix_eco_glove::vocabulary::{risk_vocabulary, REGISTRY_BLOCK};

const HEADER: &str = "| value | class | code | level | 含义 | 确定性后果 | high_risk | 归属 |\n|---|---|---|---|---|---|---|---|\n";

const ROWS: &str = "| `low` | value | - | - | 只读操作 | 通过 | no | CI-144 |
| `unknown` | unknown | W-RISK-UNKNOWN | 警告 | 判不出 | 隔离 | yes | CI-144 |
| - | silence | E-RISK-MISSING | 错误 | 缺失 | 拒绝 | no | CI-144 |
| - | illegal | E-RISK-ILLEGAL | 错误 | 词表外 | 拒绝 | no | CI-144 |
| `X-` | reserved | W-RISK-RESERVED | 警告 | 保留段 | 隔离 | no | CI-144 |
";

fn block(rows: &str) -> String {
    format!("# Registry\n\nintro\n{BEGIN_MARKER} -->\n{HEADER}{rows}{END_MARKER}\ntrailer\n")
}

fn row(value: &str, class: &str, code: &str, level: &str, owner: &str) -> Row {
    Row {
        value: value.to_string(),
        class: class.to_string(),
        code: code.to_string(),
        level: level.to_string(),
        meaning: "m".to_string(),
        consequence: "c".to_string(),
        high_risk: false,
        owner: owner.to_string(),
    }
}

fn good_rows() -> Vec<Row> {
    vec![
        row("low", "value", "-", "-", "CI-144"),
        row("unknown", "unknown", "W-RISK-UNKNOWN", "警告", "CI-144"),
        row("-", "silence", "E-RISK-MISSING", "错误", "CI-144"),
        row("-", "illegal", "E-RISK-ILLEGAL", "错误", "CI-144"),
        row("X-", "reserved", "W-RISK-RESERVED", "警告", "CI-144"),
    ]
}

#[test]
fn test_registry_vocabulary_is_not_stale() {
    let live = parse(REGISTRY_BLOCK).expect("the built-in block parses");
    let built = risk_vocabulary();
    assert_eq!(live.len(), built.len());
    for (a, b) in live.iter().zip(built.iter()) {
        assert_eq!(
            (a.value.as_str(), a.class.as_str(), a.code.as_str(), a.level.as_str(), a.high_risk),
            (b.value, b.class, b.code, b.level, b.high_risk)
        );
        assert_eq!(a.meaning, b.meaning);
        assert_eq!(a.consequence, b.consequence);
        assert_eq!(a.owner, b.owner);
    }
}

#[test]
fn parse_reads_rows_in_order_and_strips_backticks() {
    let rows = parse(&block(ROWS)).unwrap();
    assert_eq!(rows.len(), 5);
    assert_eq!(rows[0].value, "low");
    assert_eq!(rows[0].class, "value");
    assert_eq!(rows[1].value, "unknown");
    assert!(rows[1].high_risk);
    assert_eq!(rows[2].value, "-");
    assert_eq!(rows[4].value, "X-");
    assert_eq!(rows[4].code, "W-RISK-RESERVED");
}

#[test]
fn parse_refuses_text_without_the_block() {
    let err = parse("no block here\n").unwrap_err();
    assert!(err.contains("找不到起始标记"), "{err}");
    assert!(parse("").is_err());
}

#[test]
fn parse_refuses_an_unclosed_begin_marker() {
    let text = format!("{BEGIN_MARKER}\n{HEADER}{ROWS}{END_MARKER}\n");
    let err = parse(&text).unwrap_err();
    assert_eq!(err, "第 1 行：BEGIN 标记未在同一行闭合（缺 `-->`）—— 拒绝解析");
}

#[test]
fn parse_refuses_a_block_without_end() {
    let text = format!("{BEGIN_MARKER} -->\n{HEADER}{ROWS}");
    let err = parse(&text).unwrap_err();
    assert_eq!(err, "找到起始标记但找不到结束标记 `<!-- END CI144-RISK-VOCABULARY -->`");
}

#[test]
fn parse_refuses_a_wrong_column_count() {
    let rows = format!("{ROWS}| `x` | unknown | - | - | m |\n");
    let err = parse(&block(&rows)).unwrap_err();
    assert_eq!(err, "第 12 行：列数为 5，应为 8（value|class|code|level|含义|确定性后果|high_risk|归属）");
}

#[test]
fn parse_refuses_a_broken_table_line() {
    let rows = format!("{ROWS}|x\n");
    let err = parse(&block(&rows)).unwrap_err();
    assert_eq!(err, "第 12 行：不是合法的表格行：|x");
}

#[test]
fn parse_refuses_an_unknown_class() {
    let rows = format!("{ROWS}| `x` | bogus | - | - | m | c | no | CI-144 |\n");
    let err = parse(&block(&rows)).unwrap_err();
    assert_eq!(err, "第 12 行：class=\"bogus\" 不认识");
}

#[test]
fn parse_refuses_an_unknown_high_risk_flag() {
    let rows = format!("{ROWS}| `x` | value | - | - | m | c | maybe | CI-144 |\n");
    let err = parse(&block(&rows)).unwrap_err();
    assert_eq!(err, "第 12 行：high_risk=\"maybe\" 不认识（只认 yes/no）");
}

#[test]
fn parse_skips_prose_inside_the_block() {
    let rows = format!("some prose\n{ROWS}");
    assert_eq!(parse(&block(&rows)).unwrap().len(), 5);
}

#[test]
fn validate_accepts_a_complete_vocabulary() {
    assert_eq!(validate(&good_rows()), Ok(()));
}

#[test]
fn validate_refuses_an_empty_vocabulary() {
    assert_eq!(
        validate(&vec![]),
        Err("词表为空 —— 空表会让所有断言'全部通过'，那是最坏的一种绿".to_string())
    );
}

#[test]
fn validate_refuses_missing_or_doubled_exits() {
    let mut rows = good_rows();
    rows.remove(0);
    assert_eq!(validate(&rows), Err("class=value 的行数为 0 —— 词表里一个合法等级都没有".to_string()));

    let mut rows = good_rows();
    rows.push(row("-", "silence", "E-RISK-OTHER", "错误", "CI-144"));
    assert_eq!(
        validate(&rows),
        Err("class=\"silence\" 的行数为 2，应为 1（判定出口必须恰好齐全且唯一）".to_string())
    );
}

#[test]
fn validate_refuses_bad_rows() {
    let mut rows = good_rows();
    rows[0].code = "W-X".to_string();
    assert_eq!(
        validate(&rows),
        Err("value 行 `low` 的 code 应为 `-`（通过者不产生发现），实为 \"W-X\"".to_string())
    );

    let mut rows = good_rows();
    rows[1].code = "-".to_string();
    assert_eq!(
        validate(&rows),
        Err("class=unknown 的行必须有注册码（规则 3：新增码 = 先登记后使用）".to_string())
    );

    let mut rows = good_rows();
    rows[1].code = "RISK-UNKNOWN".to_string();
    assert_eq!(
        validate(&rows),
        Err("码 \"RISK-UNKNOWN\" 必须落在 E-*/W-* 诊断码命名空间（§0）".to_string())
    );

    let mut rows = good_rows();
    rows[1].level = "提示".to_string();
    assert_eq!(
        validate(&rows),
        Err("码 \"W-RISK-UNKNOWN\" 的 level=\"提示\" 应为 警告/错误".to_string())
    );

    let mut rows = good_rows();
    rows[3].code = "E-RISK-MISSING".to_string();
    assert_eq!(validate(&rows), Err("码 \"E-RISK-MISSING\" 重复登记".to_string()));

    let mut rows = good_rows();
    rows[0].owner = "待定".to_string();
    assert_eq!(
        validate(&rows),
        Err("行 \"low\" 的归属为 \"待定\" —— 跨仓消费的码必须有归属（§3.1 第五列）".to_string())
    );

    let mut rows = good_rows();
    rows[0].value = "-".to_string();
    let err = validate(&rows).unwrap_err();
    assert!(err.starts_with("value 行为空：Row { value: \"-\""), "{err}");
}

#[test]
fn validate_refuses_a_broken_ladder() {
    let mut rows = good_rows();
    rows[2].level = "警告".to_string();
    assert_eq!(
        validate(&rows),
        Err("unknown 与 silence 的 level 相同（都是 1）⇒ **处置相同** —— 两者被混为一谈了（§12.4 + 本表不变量 3：沉默与声明必须可区分）".to_string())
    );

    let mut rows = good_rows();
    rows[1].level = "错误".to_string();
    rows[2].level = "警告".to_string();
    assert_eq!(
        validate(&rows),
        Err("单调性被破坏：silence 的 level(1) 比 unknown(2) 更轻 —— §12.4 的关键一行是「空不得轻于 unknown」".to_string())
    );

    let mut rows = good_rows();
    rows[3].level = "警告".to_string();
    assert_eq!(
        validate(&rows),
        Err("单调性被破坏：illegal(1) 不得比 silence(2) 轻 —— 「不认」必须至少和「没证据」一样不可接受".to_string())
    );

    let mut rows = good_rows();
    rows[4].level = "错误".to_string();
    assert_eq!(
        validate(&rows),
        Err("保留段(2) 不得比 unknown(1) 更重 —— grease 探针必须被容下，不得被拒（§4 规则 1 + §5）".to_string())
    );

    let mut rows = good_rows();
    rows[4].value = "X".to_string();
    assert_eq!(
        validate(&rows),
        Err("class=reserved 的 value=\"X\" 应为前缀（以 `-` 结尾）".to_string())
    );
}

#[test]
fn rust_str_escapes() {
    assert_eq!(rust_str("plain"), "\"plain\"");
    assert_eq!(rust_str("a\"b\\c"), "\"a\\\"b\\\\c\"");
    assert_eq!(rust_str("l1\nl2\r\tx"), "\"l1\\nl2\\r\\tx\"");
    assert_eq!(rust_str(""), "\"\"");
    assert_eq!(rust_str("词表"), "\"词表\"");
}
