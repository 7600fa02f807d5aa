use inspektor::query::{
    join_statements, render_statements, replace_query, rewrite_parsed, rewrite_query,
};
use sqlparser::ast::Statement;
use sqlparser::dialect::PostgreSqlDialect;
use sqlparser::parser::Parser;

fn keep(statements: Vec<Statement>, _context: &()) -> Result<Vec<Statement>, String> {
    Ok(statements)
}

#[test]
fn each_statement_ends_in_a_semicolon() {
    assert_eq!(join_statements(&vec![]), "");
    assert_eq!(
        join_statements(&vec!["a".to_string(), "b".to_string()]),
        "a;b;"
    );
}

#[test]
fn a_query_is_written_from_its_statements() {
    let mut query = "select  id from users ; select 1".to_string();
    rewrite_query(&mut query, &(), keep).unwrap();
    assert_eq!(query, "SELECT id FROM users;SELECT 1;");
}

#[test]
fn an_empty_query_stays_empty() {
    let mut query = String::new();
    rewrite_query(&mut query, &(), keep).unwrap();
    assert_eq!(query, "");
}

#[test]
fn what_is_no_sql_stays_as_it_is() {
    let mut query = "selec 1 from".to_string();
    let result: Result<(), String> = rewrite_query(&mut query, &(), |_s, _c: &()| {
        panic!("there is nothing to rewrite")
    });
    assert!(result.is_ok());
    assert_eq!(query, "selec 1 from");
}

#[test]
fn a_failed_rewrite_hands_on_its_error_and_keeps_the_query() {
    let mut query = "select 1".to_string();
    let result = rewrite_query(&mut query, &(), |_s, _c: &()| Err("denied".to_string()));
    assert_eq!(result, Err("denied".to_string()));
    assert_eq!(query, "select 1");
}

#[test]
fn the_rewriter_sees_the_statements_and_the_context() {
    let mut query = "select 1; select 2".to_string();
    let result: Result<(), String> = rewrite_query(&mut query, &1usize, |s, keep: &usize| {
        Ok(s.into_iter().take(*keep).collect())
    });
    assert!(result.is_ok());
    assert_eq!(query, "SELECT 1;");
}

#[test]
fn an_outcome_takes_the_place_of_a_query() {
    let parsed = Parser::parse_sql(&PostgreSqlDialect {}, "select 'it''s', \"Q\"").unwrap();
    assert_eq!(render_statements(&parsed), "SELECT 'it''s', \"Q\";");
    let mut query = "select 0".to_string();
    let result: Result<(), String> = replace_query(&mut query, Ok(parsed));
    assert!(result.is_ok());
    assert_eq!(query, "SELECT 'it''s', \"Q\";");
    let result = replace_query(&mut query, Err("no".to_string()));
    assert_eq!(result, Err("no".to_string()));
    assert_eq!(query, "SELECT 'it''s', \"Q\";");
}

#[test]
fn given_statements_are_rewritten_in_place_of_a_query() {
    let parsed = Parser::parse_sql(&PostgreSqlDialect {}, "select 3").unwrap();
    let mut query = "select 0".to_string();
    rewrite_parsed(&mut query, Some(parsed), &(), keep).unwrap();
    assert_eq!(query, "SELECT 3;");
    rewrite_parsed(&mut query, None, &(), keep).unwrap();
    assert_eq!(query, "SELECT 3;");
}
