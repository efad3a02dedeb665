use dump2databend::filter::should_emit;
use dump2databend::parser::{ParseError, Parser, StateChange};

fn feed(parser: &mut Parser, line: &str) -> StateChange {
    parser.parse(line.as_bytes()).expect("parse failed")
}

fn context_of(parser: &Parser) -> String {
    String::from_utf8(parser.output_database_statements()).unwrap()
}

fn content_of(parser: &Parser) -> String {
    String::from_utf8(parser.output_database_content()).unwrap()
}

#[test]
fn create_database_reports_name_and_emits_line_verbatim() {
    let mut p = Parser::new();
    let line = "CREATE DATABASE IF NOT EXISTS `shop`;\n";
    match feed(&mut p, line) {
        StateChange::CreateDatabase(db) => assert_eq!(db, "shop"),
        _ => panic!("expected a database transition"),
    }
    assert_eq!(context_of(&p), line);
    assert_eq!(content_of(&p), "");
}

#[test]
fn use_reports_name_and_emits_line_verbatim() {
    let mut p = Parser::new();
    let line = "USE `shop`;\n";
    match feed(&mut p, line) {
        StateChange::UseDatabase(db) => assert_eq!(db, "shop"),
        _ => panic!("expected a use transition"),
    }
    assert_eq!(context_of(&p), line);
    assert_eq!(content_of(&p), "");
}

#[test]
fn insert_passes_through_unmodified() {
    let mut p = Parser::new();
    let line = "INSERT INTO `orders` VALUES (1,'a');\n";
    assert!(matches!(feed(&mut p, line), StateChange::NoChange));
    assert_eq!(context_of(&p), "");
    assert_eq!(content_of(&p), line);
}

#[test]
fn unrecognized_lines_are_discarded() {
    let mut p = Parser::new();
    for line in [
        "-- MySQL dump 10.13\n",
        "/*!40101 SET NAMES utf8 */;\n",
        "DROP TABLE IF EXISTS `t`;\n",
        "create database `lowercase`;\n",
        "\n",
    ] {
        assert!(matches!(feed(&mut p, line), StateChange::NoChange));
        assert_eq!(context_of(&p), "");
        assert_eq!(content_of(&p), "");
    }
}

#[test]
fn create_table_accumulates_and_rewrites_once_closed() {
    let mut p = Parser::new();
    match feed(&mut p, "CREATE TABLE `orders` (\n") {
        StateChange::Table(t) => assert_eq!(t, "orders"),
        _ => panic!("expected a table transition"),
    }
    // While accumulating, nothing is emittable.
    assert_eq!(context_of(&p), "");
    assert_eq!(content_of(&p), "");
    assert!(matches!(
        feed(&mut p, "  `id` bigint(20) NOT NULL,\n"),
        StateChange::NoChange
    ));
    assert!(matches!(
        feed(&mut p, "  PRIMARY KEY (`id`),\n"),
        StateChange::NoChange
    ));
    assert_eq!(content_of(&p), "");
    assert!(matches!(
        feed(&mut p, ") ENGINE=InnoDB;\n"),
        StateChange::NoChange
    ));
    let out = content_of(&p);
    assert_eq!(out, "CREATE TABLE `orders` (\n  `id` bigint(20) NOT NULL\n);\n");
    assert_eq!(context_of(&p), "");
}

#[test]
fn malformed_identifier_is_a_fatal_error() {
    let mut p = Parser::new();
    assert!(matches!(
        p.parse("USE `unterminated\n".as_bytes()),
        Err(ParseError::MalformedStatement)
    ));
    let mut p = Parser::new();
    assert!(matches!(
        p.parse("CREATE DATABASE shop;\n".as_bytes()),
        Err(ParseError::MalformedStatement)
    ));
    let mut p = Parser::new();
    assert!(matches!(
        p.parse("CREATE TABLE `` (\n".as_bytes()),
        Err(ParseError::MalformedStatement)
    ));
}

#[test]
fn table_filter_suppresses_other_tables() {
    // Tables `orders` and `customers` are defined; the filter keeps only
    // `orders`: content under `customers` must never be emitted, though its
    // header is still classified and the state machine keeps running.
    let filters = vec!["orders".to_string()];
    let mut current_table: Option<String> = None;
    let mut p = Parser::new();
    let mut emitted = String::new();

    let dump = [
        "CREATE TABLE `orders` (\n",
        "  `id` int(11) NOT NULL,\n",
        ");\n",
        "CREATE TABLE `customers` (\n",
        "  `name` varchar(16) NOT NULL,\n",
        ");\n",
        "INSERT INTO `x` VALUES (1);\n",
    ];
    let mut saw_customers_header = false;
    for line in dump {
        match p.parse(line.as_bytes()).unwrap() {
            StateChange::Table(t) => {
                if t == "customers" {
                    saw_customers_header = true;
                }
                current_table = Some(t);
            }
            _ => {}
        }
        if should_emit(&filters, &current_table) {
            emitted.push_str(&String::from_utf8(p.output_database_content()).unwrap());
        }
    }
    assert!(saw_customers_header);
    assert!(emitted.contains("CREATE TABLE `orders`"));
    assert!(!emitted.contains("customers"));
    assert!(!emitted.contains("`name`"));
    // The insert came after `customers` became current: suppressed too.
    assert!(!emitted.contains("INSERT INTO"));
}

#[test]
fn database_filter_allows_until_first_name_is_seen() {
    let filters = vec!["keep".to_string()];
    assert!(should_emit(&filters, &None));
    assert!(should_emit(&filters, &Some("keep".to_string())));
    assert!(!should_emit(&filters, &Some("drop".to_string())));
    let no_filters: Vec<String> = vec![];
    assert!(should_emit(&no_filters, &Some("anything".to_string())));
}
