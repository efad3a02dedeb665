//! One pass over a small but complete dump: context and content statements
//! interleave, a table body accumulates and is rewritten, and the emitted
//! stream comes out in order.

use dump2databend::parser::{Parser, StateChange};

#[test]
fn whole_dump_converts_in_order() {
    let dump = "-- dump header\n\
CREATE DATABASE IF NOT EXISTS `shop`;\n\
USE `shop`;\n\
CREATE TABLE `orders` (\n\
\x20 `Id` bigint(20) NOT NULL,\n\
\x20 `State` varchar(32) COLLATE utf8_bin NOT NULL,\n\
\x20 `note` text,\n\
\x20 `updated` timestamp NULL DEFAULT NULL,\n\
\x20 PRIMARY KEY (`Id`),\n\
\x20 KEY `state` (`State`)\n\
) ENGINE=InnoDB DEFAULT CHARSET=utf8;\n\
INSERT INTO `orders` VALUES (1,'new','x',NULL);\n";

    let mut parser = Parser::new();
    let mut emitted = Vec::new();
    let mut names = Vec::new();
    for line in dump.split_inclusive('\n') {
        match parser.parse(line.as_bytes()).unwrap() {
            StateChange::CreateDatabase(db) => names.push(format!("db:{db}")),
            StateChange::UseDatabase(db) => names.push(format!("use:{db}")),
            StateChange::Table(t) => names.push(format!("table:{t}")),
            StateChange::NoChange => {}
        }
        emitted.extend_from_slice(&parser.output_database_statements());
        emitted.extend_from_slice(&parser.output_database_content());
    }
    assert_eq!(names, ["db:shop", "use:shop", "table:orders"]);

    let expected = "CREATE DATABASE IF NOT EXISTS `shop`;\n\
USE `shop`;\n\
CREATE TABLE `orders` (\n\
\x20 `id` bigint(20) NOT NULL,\n\
\x20 `state` varchar(32)  NOT NULL,\n\
\x20 `note` text NULL,\n\
\x20 `updated` timestamp NULL\n\
);\n\
INSERT INTO `orders` VALUES (1,'new','x',NULL);\n";
    assert_eq!(String::from_utf8(emitted).unwrap(), expected);
}
