use sqlbind::analyze::analyze_sql;
use sqlbind::analyze::AnalyzeError;
use sqlbind::preprocess::preprocess;

fn b(s: &str) -> Vec<u8> {
    s.as_bytes().to_vec()
}

#[test]
fn alias_wins_over_raw_text_order_preserved() {
    let fields = analyze_sql(&b("SELECT a, b AS c FROM t")).unwrap();
    assert_eq!(fields.len(), 2);
    assert_eq!(fields[0].name, b("a"));
    assert_eq!(fields[0].column_index, 0);
    assert_eq!(fields[1].name, b("c"));
    assert_eq!(fields[1].column_index, 1);
}

#[test]
fn limit_placeholder_clause_removed() {
    assert_eq!(
        preprocess(&b("SELECT a FROM t LIMIT $1")),
        b("SELECT a FROM t ")
    );
}

#[test]
fn offset_number_clause_removed() {
    assert_eq!(
        preprocess(&b("SELECT a FROM t OFFSET 5")),
        b("SELECT a FROM t ")
    );
}

#[test]
fn clause_case_insensitive_and_multispace() {
    assert_eq!(
        preprocess(&b("SELECT a FROM t limit   17")),
        b("SELECT a FROM t ")
    );
    assert_eq!(
        preprocess(&b("SELECT a FROM t Offset\t$2")),
        b("SELECT a FROM t ")
    );
}

#[test]
fn clause_without_argument_kept() {
    // `LIMIT` followed by a non-number is not the clause shape: kept as is
    assert_eq!(preprocess(&b("SELECT lim FROM t")), b("SELECT lim FROM t"));
    assert_eq!(
        preprocess(&b("SELECT a FROM t OFFSET x")),
        b("SELECT a FROM t OFFSET x")
    );
}

#[test]
fn field_list_unaffected_by_limit_offset_clause() {
    let with_clause = analyze_sql(&b("SELECT id, name FROM users LIMIT $1")).unwrap();
    let without = analyze_sql(&b("SELECT id, name FROM users")).unwrap();
    assert_eq!(with_clause.len(), without.len());
    for (x, y) in with_clause.iter().zip(without.iter()) {
        assert_eq!(x.name, y.name);
        assert_eq!(x.column_index, y.column_index);
    }
}

#[test]
fn placeholders_quoted_in_where_clause() {
    assert_eq!(
        preprocess(&b("SELECT a FROM t WHERE id = $1 AND x = $23")),
        b("SELECT a FROM t WHERE id = '$1' AND x = '$23'")
    );
}

#[test]
fn quoted_placeholder_text_parses() {
    // the original placeholder syntax is disguised well enough to parse
    let fields = analyze_sql(&b("SELECT id, name FROM users WHERE id = $1")).unwrap();
    assert_eq!(fields.len(), 2);
    assert_eq!(fields[0].name, b("id"));
    assert_eq!(fields[1].name, b("name"));
}

#[test]
fn dollar_without_digits_untouched() {
    assert_eq!(preprocess(&b("a $ b $x $")), b("a $ b $x $"));
}

#[test]
fn placeholder_digit_run_is_maximal() {
    assert_eq!(preprocess(&b("$12x")), b("'$12'x"));
}

#[test]
fn analysis_is_repeatable() {
    let sql = b("SELECT a, b AS c FROM t WHERE x = $1 LIMIT $2");
    let first = analyze_sql(&sql).unwrap();
    let second = analyze_sql(&sql).unwrap();
    assert_eq!(first.len(), second.len());
    for (x, y) in first.iter().zip(second.iter()) {
        assert_eq!(x.name, y.name);
        assert_eq!(x.column_index, y.column_index);
    }
}

#[test]
fn wildcard_yields_one_empty_name() {
    let fields = analyze_sql(&b("SELECT * FROM t")).unwrap();
    assert_eq!(fields.len(), 1);
    assert_eq!(fields[0].name, b(""));
    assert_eq!(fields[0].column_index, 0);
}

#[test]
fn unparseable_sql_is_an_error() {
    let r = analyze_sql(&b("certainly not sql !!!"));
    assert!(matches!(r, Err(AnalyzeError::Unparseable(_))));
}

#[test]
fn empty_text_is_an_error() {
    let r = analyze_sql(&b(""));
    assert!(matches!(r, Err(AnalyzeError::NoStatement)));
}

#[test]
fn non_query_statement_yields_empty_field_list() {
    let fields = analyze_sql(&b("INSERT INTO t (a) VALUES (1)")).unwrap();
    assert_eq!(fields.len(), 0);
}

#[test]
fn set_operation_yields_empty_field_list() {
    let fields = analyze_sql(&b("SELECT a FROM t UNION SELECT b FROM u")).unwrap();
    assert_eq!(fields.len(), 0);
}

#[test]
fn computed_expression_renders_as_its_text() {
    let fields = analyze_sql(&b("SELECT count(id) FROM t")).unwrap();
    assert_eq!(fields.len(), 1);
    assert_eq!(fields[0].name, b("count(id)"));
}
