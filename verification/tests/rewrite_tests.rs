use dump2databend::rewrite::{convert_to_databend_create_table, lower_case_columns};

#[test]
fn test() {
    let table = r#"CREATE TABLE `moderated_theme` (
            `theme_lid` bigint(20) NOT NULL DEFAULT '0',
            `state` varchar(32) COLLATE utf8_bin NOT NULL,
            `creationDate` timestamp NOT NULL DEFAULT CURRENT_TIMESTAMP ON UPDATE CURRENT_TIMESTAMP,
            `modificationDate` timestamp NOT NULL DEFAULT '0000-00-00 00:00:00',
            `moderator_lid` bigint(20) DEFAULT NULL,
            `reason` text COLLATE utf8_bin,
            `reviewAskedDate` timestamp NULL DEFAULT NULL,
            `reviewUserText` varchar(1024) COLLATE utf8_bin DEFAULT NULL,
            `reviewText` text COLLATE utf8_bin,
            `greyListNotificationEmailSentDate` timestamp NULL DEFAULT NULL,
            `greyListBlockedNotificationEmailSentDate` timestamp NULL DEFAULT NULL,
            PRIMARY KEY (`theme_lid`),
            KEY `state` (`state`,`creationDate`),
            KEY `state_2` (`state`,`modificationDate`),
            KEY `moderator_lid` (`moderator_lid`),
            KEY `theme_lid` (`theme_lid`,`state`),
            CONSTRAINT `spam_account_ibfk_1` FOREIGN KEY (`theme_lid`) REFERENCES `theme` (`lid`) ON DELETE CASCADE,
            CONSTRAINT `spam_account_ibfk_3` FOREIGN KEY (`moderator_lid`) REFERENCES `user` (`lid`) ON DELETE CASCADE"#;
    let mut buf: Vec<u8> = table.as_bytes().iter().copied().collect();
    convert_to_databend_create_table(&mut buf);
    let converted = String::from_utf8(buf).unwrap();

    println!("{converted}");
}

fn convert(input: &str) -> String {
    let mut buf: Vec<u8> = input.as_bytes().to_vec();
    convert_to_databend_create_table(&mut buf);
    String::from_utf8(buf).unwrap()
}

#[test]
fn collation_stripped_identifier_lowered_qualifier_kept() {
    // The collation clause is removed as a substring, the identifier is
    // lower-cased and the explicit qualifier survives.
    let out = convert(
        "CREATE TABLE `t` (\n  `State` varchar(32) COLLATE utf8_bin NOT NULL,\n  `z` int(11) NOT NULL,",
    );
    assert!(out.contains("`state` varchar(32)  NOT NULL,"));
    assert!(!out.contains("COLLATE"));
    assert!(!out.contains("`State`"));
}

#[test]
fn default_null_becomes_bare_null() {
    let out = convert(
        "CREATE TABLE `t` (\n  `moderator_lid` bigint(20) DEFAULT NULL,\n  `z` int(11) NOT NULL,",
    );
    assert!(out.contains("`moderator_lid` bigint(20) NULL,"));
    assert!(!out.contains("DEFAULT NULL"));
}

#[test]
fn implicit_nullable_column_gains_null() {
    let out = convert("CREATE TABLE `t` (\n  `reason` text,\n  `age` int(11),");
    assert!(out.contains("`reason` text NULL,"));
    assert!(out.ends_with("`age` int(11) NULL\n);\n"));
}

#[test]
fn key_and_constraint_lines_never_survive() {
    let out = convert(
        "CREATE TABLE `t` (\n  `id` bigint(20) NOT NULL,\n  PRIMARY KEY (`id`),\n  KEY `id` (`id`),\n  UNIQUE KEY `u` (`id`),\n  CONSTRAINT `c` FOREIGN KEY (`id`) REFERENCES `o` (`id`)",
    );
    assert!(!out.contains("PRIMARY"));
    assert!(!out.contains("KEY"));
    assert!(!out.contains("CONSTRAINT"));
    assert!(!out.contains("UNIQUE"));
    assert!(out.contains("`id` bigint(20) NOT NULL"));
}

#[test]
fn trailing_comma_removed_and_statement_closed() {
    // A body whose surviving rows end in a trailing comma: the comma goes,
    // and the output closes with the delimiter, terminator and newline.
    let out = convert("CREATE TABLE `t` (\n  `a` int(11) NOT NULL,\n  `b` int(11) NOT NULL,");
    assert!(out.ends_with("`b` int(11) NOT NULL\n);\n"));
    assert!(!out.contains(",\n);\n"));
}

#[test]
fn output_always_closed_even_for_empty_body() {
    let out = convert("");
    assert_eq!(out, "\n);\n");
}

#[test]
fn timestamp_default_and_on_update_stripped() {
    let out = convert(
        "CREATE TABLE `t` (\n  `creationDate` timestamp NOT NULL DEFAULT CURRENT_TIMESTAMP ON UPDATE CURRENT_TIMESTAMP,",
    );
    assert!(!out.contains("DEFAULT CURRENT_TIMESTAMP"));
    assert!(!out.contains("ON UPDATE"));
    assert!(out.contains("`creationdate` timestamp NOT NULL"));
}

#[test]
fn character_set_clause_stripped() {
    let out = convert(
        "CREATE TABLE `t` (\n  `name` varchar(16) CHARACTER SET utf8 NOT NULL,\n  `z` int(11) NOT NULL,",
    );
    assert!(!out.contains("CHARACTER SET"));
    assert!(out.contains("`name` varchar(16)  NOT NULL,"));
}

#[test]
fn rewrite_is_not_idempotent() {
    // Running the engine on its own output appends a second terminator:
    // one run closes the statement, a second one closes it again.
    let once = convert("CREATE TABLE `t` (\n  `a` int(11) NOT NULL,");
    let twice = convert(&once);
    assert_ne!(once, twice);
    assert!(twice.ends_with(");\n"));
}

#[test]
fn lower_case_columns_only_touches_identifiers() {
    let mut buf: Vec<u8> = "  `CamelCase` varchar(16) NOT NULL,".as_bytes().to_vec();
    lower_case_columns(&mut buf);
    assert_eq!(
        String::from_utf8(buf).unwrap(),
        "  `camelcase` varchar(16) NOT NULL,"
    );
}

#[test]
fn header_line_passes_through_unchanged() {
    let out = convert("CREATE TABLE `Orders` (\n  `id` int(11) NOT NULL,");
    // The table name is followed by `(` and is no column identifier:
    // it keeps its case.
    assert!(out.starts_with("CREATE TABLE `Orders` (\n"));
}
