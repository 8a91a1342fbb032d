use sqlbind::analyze::AnalyzeError;
use sqlbind::generate::many_from;
use sqlbind::generate::one_from;
use sqlbind::request::parse_request;
use sqlbind::request::BindingRequest;
use sqlbind::request::RequestError;
use sqlbind::request::RequestPart;

fn b(s: &str) -> Vec<u8> {
    s.as_bytes().to_vec()
}

fn expr(s: &str) -> RequestPart {
    RequestPart {
        text: b(s),
        string_value: None,
    }
}

fn lit(s: &str) -> RequestPart {
    RequestPart {
        text: b(s),
        string_value: Some(b(s.trim_matches('"'))),
    }
}

fn users_request() -> BindingRequest {
    BindingRequest {
        client: b("client"),
        sql: b("SELECT id, name FROM users WHERE id = $1"),
        args: vec![b("user_id")],
    }
}

#[test]
fn single_row_generation() {
    let code = one_from(&users_request()).unwrap();
    let expected = "{ let res = client.query_opt(\"SELECT id, name FROM users WHERE id = $1\", &[user_id]).await?; return Ok(match res { Some(row) => Some(Self { id: row.get(0usize), name: row.get(1usize) }), None => None }) }";
    assert_eq!(String::from_utf8(code).unwrap(), expected);
}

#[test]
fn many_row_generation() {
    let code = many_from(&users_request()).unwrap();
    let expected = "{ let rows = client.query(\"SELECT id, name FROM users WHERE id = $1\", &[user_id]).await?; return Ok(rows.iter().map(|row| Self { id: row.get(0usize), name: row.get(1usize) }).collect()) }";
    assert_eq!(String::from_utf8(code).unwrap(), expected);
}

#[test]
fn both_shapes_share_the_field_mapping() {
    let one = String::from_utf8(one_from(&users_request()).unwrap()).unwrap();
    let many = String::from_utf8(many_from(&users_request()).unwrap()).unwrap();
    let mapping = "id: row.get(0usize), name: row.get(1usize)";
    assert!(one.contains(mapping));
    assert!(many.contains(mapping));
}

#[test]
fn original_text_embedded_not_rewritten() {
    // the emitted call carries the raw SQL text: placeholder and clause intact
    let req = BindingRequest {
        client: b("db"),
        sql: b("SELECT a FROM t WHERE x = $1 LIMIT $2"),
        args: vec![b("x"), b("n")],
    };
    let code = String::from_utf8(one_from(&req).unwrap()).unwrap();
    assert!(code.contains("\"SELECT a FROM t WHERE x = $1 LIMIT $2\""));
    assert!(!code.contains("'$1'"));
}

#[test]
fn several_args_joined_in_order() {
    let req = BindingRequest {
        client: b("c"),
        sql: b("SELECT a FROM t WHERE x = $1 AND y = $2 AND z = $3"),
        args: vec![b("first"), b("second"), b("third")],
    };
    let code = String::from_utf8(many_from(&req).unwrap()).unwrap();
    assert!(code.contains("&[first, second, third]"));
}

#[test]
fn no_args_emits_empty_list() {
    let req = BindingRequest {
        client: b("c"),
        sql: b("SELECT a FROM t"),
        args: vec![],
    };
    let code = String::from_utf8(one_from(&req).unwrap()).unwrap();
    assert!(code.contains("&[]"));
}

#[test]
fn single_quotes_pass_through_the_literal() {
    let req = BindingRequest {
        client: b("c"),
        sql: b("SELECT a FROM t WHERE s = 'it'"),
        args: vec![],
    };
    let code = String::from_utf8(one_from(&req).unwrap()).unwrap();
    assert!(code.contains("\"SELECT a FROM t WHERE s = 'it'\""));
}

#[test]
fn double_quotes_escaped_in_literal() {
    let req = BindingRequest {
        client: b("c"),
        sql: b("SELECT \"a\" FROM t"),
        args: vec![],
    };
    let code = String::from_utf8(one_from(&req).unwrap()).unwrap();
    assert!(code.contains("(\"SELECT \\\"a\\\" FROM t\", &[])"));
}

#[test]
fn generation_fails_on_unparseable_sql() {
    let req = BindingRequest {
        client: b("c"),
        sql: b("not sql at all !!!"),
        args: vec![],
    };
    assert!(matches!(one_from(&req), Err(AnalyzeError::Unparseable(_))));
    assert!(matches!(many_from(&req), Err(AnalyzeError::Unparseable(_))));
}

#[test]
fn request_without_sql_literal_fails() {
    let parts = vec![expr("client")];
    assert!(matches!(parse_request(&parts), Err(RequestError::MissingSql)));
}

#[test]
fn empty_request_fails() {
    let parts: Vec<RequestPart> = vec![];
    assert!(matches!(parse_request(&parts), Err(RequestError::MissingClient)));
}

#[test]
fn second_piece_must_be_a_string_literal() {
    let parts = vec![expr("client"), expr("some_expr")];
    assert!(matches!(parse_request(&parts), Err(RequestError::SqlNotLiteral)));
}

#[test]
fn well_formed_request_round_trip() {
    let parts = vec![
        expr("self.client"),
        lit("\"SELECT id, name FROM users WHERE id = $1\""),
        expr("user_id"),
    ];
    let req = parse_request(&parts).unwrap();
    assert_eq!(req.client, b("self.client"));
    assert_eq!(req.sql, b("SELECT id, name FROM users WHERE id = $1"));
    assert_eq!(req.args, vec![b("user_id")]);
    let code = String::from_utf8(one_from(&req).unwrap()).unwrap();
    assert!(code.starts_with("{ let res = self.client.query_opt("));
}

#[test]
fn wildcard_generation_degenerates_by_design() {
    // a wildcard projection has no field name; the emitted construction
    // carries the gap through rather than failing here
    let req = BindingRequest {
        client: b("c"),
        sql: b("SELECT * FROM t"),
        args: vec![],
    };
    let code = String::from_utf8(one_from(&req).unwrap()).unwrap();
    assert!(code.contains("Self { : row.get(0usize) }"));
}

#[test]
fn two_digit_column_indices_rendered() {
    let req = BindingRequest {
        client: b("c"),
        sql: b("SELECT c0, c1, c2, c3, c4, c5, c6, c7, c8, c9, c10, c11 FROM t"),
        args: vec![],
    };
    let code = String::from_utf8(many_from(&req).unwrap()).unwrap();
    assert!(code.contains("c9: row.get(9usize), c10: row.get(10usize), c11: row.get(11usize)"));
}

#[test]
fn request_args_kept_in_order() {
    let parts = vec![
        expr("client"),
        lit("\"SELECT a FROM t WHERE x = $1 AND y = $2\""),
        expr("alpha"),
        expr("beta"),
        expr("gamma"),
    ];
    let req = parse_request(&parts).unwrap();
    assert_eq!(req.args, vec![b("alpha"), b("beta"), b("gamma")]);
}

#[test]
fn carriage_return_escaped_in_literal() {
    let req = BindingRequest {
        client: b("c"),
        sql: b("SELECT a\rFROM t"),
        args: vec![],
    };
    let code = String::from_utf8(one_from(&req).unwrap()).unwrap();
    assert!(code.contains("(\"SELECT a\\rFROM t\", &[])"));
    assert!(!code.contains('\r'));
}
