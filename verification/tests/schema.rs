use lernspark::schema::{
    extract_columns, extract_table_name, parse_column, parse_create_table,
    parse_data_type_and_constraints, parse_data_type, parse_sql_file, Column, DataType,
    SchemaError, Table,
};

fn column(name: &str, data_type: DataType, constraints: &[&str]) -> Column {
    Column {
        name: name.to_string(),
        data_type,
        constraints: constraints.iter().map(|c| c.to_string()).collect(),
    }
}

#[test]
fn test_parse_create_table() {
    let sql = "CREATE TABLE Foo (
        ID INT AUTO_INCREMENT PRIMARY KEY,
        Bar DATE UNIQUE NOT NULL,
        Jar FLOAT,
        Baz UUID,
        Qux DATETIME,
        Name VARCHAR(255)
    );";

    let expected_table = Table {
        name: "Foo".to_string(),
        columns: vec![
            Column {
                name: "ID".to_string(),
                data_type: DataType::Int,
                constraints: vec![
                    "AUTO_INCREMENT".to_string(),
                    "PRIMARY".to_string(),
                    "KEY".to_string(),
                ],
            },
            Column {
                name: "Bar".to_string(),
                data_type: DataType::DateTime,
                constraints: vec!["UNIQUE".to_string(), "NOT".to_string(), "NULL".to_string()],
            },
            Column {
                name: "Jar".to_string(),
                data_type: DataType::Float,
                constraints: vec![],
            },
            Column {
                name: "Baz".to_string(),
                data_type: DataType::UUID,
                constraints: vec![],
            },
            Column {
                name: "Qux".to_string(),
                data_type: DataType::DateTime,
                constraints: vec![],
            },
            Column {
                name: "Name".to_string(),
                data_type: DataType::VarChar(255),
                constraints: vec![],
            },
        ],
    };

    let parsed_table = parse_create_table(sql);
    assert_eq!(parsed_table, Ok(expected_table));
}

#[test]
fn test_parse_sql_file() {
    let sql_content = r#"-- SQL Database Schema
    CREATE TABLE Lanisters (
        ID INT AUTO_INCREMENT PRIMARY KEY,
        King TEXT UNIQUE,
        Army INT NOT NULL,
        Alias VARCHAR(100)
    );

    CREATE TABLE Starks (
        ID INT AUTO_INCREMENT PRIMARY KEY,
        King TEXT NOT NULL,
        Army INT NOT NULL,
        IS_TRUE_KING BOOLEAN
    );
    "#;

    let expected_tables = vec![
        Table {
            name: "Lanisters".to_string(),
            columns: vec![
                Column {
                    name: "ID".to_string(),
                    data_type: DataType::Int,
                    constraints: vec![
                        "AUTO_INCREMENT".to_string(),
                        "PRIMARY".to_string(),
                        "KEY".to_string(),
                    ],
                },
                Column {
                    name: "King".to_string(),
                    data_type: DataType::String,
                    constraints: vec!["UNIQUE".to_string()],
                },
                Column {
                    name: "Army".to_string(),
                    data_type: DataType::Int,
                    constraints: vec!["NOT".to_string(), "NULL".to_string()],
                },
                Column {
                    name: "Alias".to_string(),
                    data_type: DataType::VarChar(100),
                    constraints: vec![],
                },
            ],
        },
        Table {
            name: "Starks".to_string(),
            columns: vec![
                Column {
                    name: "ID".to_string(),
                    data_type: DataType::Int,
                    constraints: vec![
                        "AUTO_INCREMENT".to_string(),
                        "PRIMARY".to_string(),
                        "KEY".to_string(),
                    ],
                },
                Column {
                    name: "King".to_string(),
                    data_type: DataType::String,
                    constraints: vec!["NOT".to_string(), "NULL".to_string()],
                },
                Column {
                    name: "Army".to_string(),
                    data_type: DataType::Int,
                    constraints: vec!["NOT".to_string(), "NULL".to_string()],
                },
                Column {
                    name: "IS_TRUE_KING".to_string(),
                    data_type: DataType::Boolean,
                    constraints: vec![],
                },
            ],
        },
    ];

    let parsed_tables = parse_sql_file(sql_content);
    assert_eq!(parsed_tables, Ok(expected_tables));
}

#[test]
fn parsing_twice_gives_equal_tables() {
    let text = "CREATE TABLE a (x INT, y TEXT NOT NULL); CREATE TABLE b (z UUID);";
    assert_eq!(parse_sql_file(text), parse_sql_file(text));
}

#[test]
fn one_statement_with_three_plain_columns() {
    let tables =
        parse_sql_file("CREATE TABLE T (id INT, name VARCHAR(50), active BOOLEAN);").unwrap();
    assert_eq!(
        tables,
        vec![Table {
            name: "T".to_string(),
            columns: vec![
                column("id", DataType::Int, &[]),
                column("name", DataType::VarChar(50), &[]),
                column("active", DataType::Boolean, &[]),
            ],
        }]
    );
}

#[test]
fn length_in_parentheses_does_not_split_a_column() {
    let columns = extract_columns("CREATE TABLE t (code VARCHAR(10) NOT NULL)").unwrap();
    assert_eq!(columns, vec![column("code", DataType::VarChar(10), &["NOT", "NULL"])]);
}

#[test]
fn comma_inside_parentheses_does_not_split_a_column() {
    let columns = extract_columns("CREATE TABLE t (a INT CHECK(a,b), c TEXT)").unwrap();
    assert_eq!(
        columns,
        vec![column("a", DataType::Int, &["CHECK(a,b)"]), column("c", DataType::String, &[])]
    );
}

#[test]
fn unsupported_type_fails_the_statement() {
    assert_eq!(
        parse_create_table("CREATE TABLE t (id INT, price MONEY)"),
        Err(SchemaError::UnsupportedType("MONEY".to_string()))
    );
}

#[test]
fn one_bad_statement_fails_the_whole_text() {
    let text = "CREATE TABLE a (x INT); CREATE TABLE b (y MONEY); CREATE TABLE c (z INT);";
    assert_eq!(parse_sql_file(text), Err(SchemaError::UnsupportedType("MONEY".to_string())));
}

#[test]
fn first_error_in_order_is_reported() {
    let text = "CREATE TABLE a (x); CREATE TABLE b (y MONEY);";
    assert_eq!(parse_sql_file(text), Err(SchemaError::Malformed));
    let text = "CREATE TABLE a (x INTEGER, y); CREATE TABLE b (y MONEY);";
    assert_eq!(parse_sql_file(text), Err(SchemaError::UnsupportedType("INTEGER".to_string())));
}

#[test]
fn column_without_type_is_malformed() {
    assert_eq!(parse_column("id"), Err(SchemaError::Malformed));
    assert_eq!(parse_create_table("CREATE TABLE t (id)"), Err(SchemaError::Malformed));
}

#[test]
fn statement_without_name_is_malformed() {
    assert_eq!(parse_create_table("CREATE TABLE"), Err(SchemaError::Malformed));
    assert_eq!(parse_create_table("CREATE TABLE ( (id INT)"), Err(SchemaError::Malformed));
}

#[test]
fn statement_without_parentheses_has_no_columns() {
    assert_eq!(
        parse_create_table("CREATE TABLE lonely"),
        Ok(Table { name: "lonely".to_string(), columns: vec![] })
    );
    assert_eq!(
        parse_create_table("CREATE TABLE open (id INT"),
        Ok(Table { name: "open".to_string(), columns: vec![] })
    );
}

#[test]
fn table_name_is_third_word_without_trailing_parenthesis() {
    assert_eq!(extract_table_name("CREATE TABLE Foo (id INT)"), "Foo");
    assert_eq!(extract_table_name("CREATE TABLE Foo( id INT)"), "Foo");
    assert_eq!(extract_table_name("CREATE TABLE Foo(( id INT)"), "Foo");
    assert_eq!(extract_table_name("  CREATE\n\tTABLE   Bar\n(id INT)"), "Bar");
    assert_eq!(extract_table_name("CREATE TABLE"), "");
    assert_eq!(extract_table_name(""), "");
}

#[test]
fn type_words_are_read_without_regard_to_case() {
    assert_eq!(parse_data_type("int"), Some(DataType::Int));
    assert_eq!(parse_data_type("Float"), Some(DataType::Float));
    assert_eq!(parse_data_type("text"), Some(DataType::String));
    assert_eq!(parse_data_type("date"), Some(DataType::DateTime));
    assert_eq!(parse_data_type("DateTime"), Some(DataType::DateTime));
    assert_eq!(parse_data_type("uuid"), Some(DataType::UUID));
    assert_eq!(parse_data_type("boolean"), Some(DataType::Boolean));
    assert_eq!(parse_data_type("varchar(12)"), Some(DataType::VarChar(12)));
    assert_eq!(parse_data_type("INTEGER"), None);
    assert_eq!(parse_data_type("MONEY"), None);
    assert_eq!(parse_data_type(""), None);
    assert_eq!(parse_data_type("VARCHAR(12"), None);
}

#[test]
fn varchar_length_defaults_to_255() {
    assert_eq!(parse_data_type("VARCHAR"), Some(DataType::VarChar(255)));
    assert_eq!(parse_data_type("VARCHAR()"), Some(DataType::VarChar(255)));
    assert_eq!(parse_data_type("VARCHAR(abc)"), Some(DataType::VarChar(255)));
    assert_eq!(parse_data_type("VARCHAR(-1)"), Some(DataType::VarChar(255)));
    assert_eq!(
        parse_data_type("VARCHAR(99999999999999999999999999999999)"),
        Some(DataType::VarChar(255))
    );
    assert_eq!(parse_data_type("VARCHAR(0)"), Some(DataType::VarChar(0)));
    assert_eq!(parse_data_type("VARCHAR(007)"), Some(DataType::VarChar(7)));
    assert_eq!(
        parse_data_type(&format!("VARCHAR({})", usize::MAX)),
        Some(DataType::VarChar(usize::MAX))
    );
}

#[test]
fn constraints_are_kept_as_written() {
    assert_eq!(
        parse_data_type_and_constraints("INT  auto_increment\tPrimary KEY"),
        Ok((
            DataType::Int,
            vec!["auto_increment".to_string(), "Primary".to_string(), "KEY".to_string()]
        ))
    );
    assert_eq!(parse_data_type_and_constraints("   "), Err(SchemaError::Malformed));
    assert_eq!(
        parse_data_type_and_constraints("MONEY NOT NULL"),
        Err(SchemaError::UnsupportedType("MONEY".to_string()))
    );
}

#[test]
fn comment_line_is_dropped_only_in_front() {
    assert_eq!(parse_sql_file("-- nothing here"), Ok(vec![]));
    assert_eq!(parse_sql_file("   -- note\nCREATE TABLE t (a INT);").unwrap().len(), 1);
    assert_eq!(
        parse_sql_file("-- note; CREATE TABLE hidden (a INT);\nCREATE TABLE t (a INT);")
            .unwrap()
            .len(),
        1
    );
    assert_eq!(
        parse_sql_file("- not a comment"),
        Ok(vec![Table { name: "a".to_string(), columns: vec![] }])
    );
    assert_eq!(
        parse_sql_file("\n-- second line\nCREATE TABLE t (a INT);"),
        Ok(vec![Table {
            name: "line".to_string(),
            columns: vec![column("a", DataType::Int, &[])],
        }])
    );
}

#[test]
fn empty_fragments_are_passed_over() {
    assert_eq!(parse_sql_file(""), Ok(vec![]));
    assert_eq!(parse_sql_file(" ;; \n ; "), Ok(vec![]));
    assert_eq!(
        parse_create_table("CREATE TABLE t (a INT, , b TEXT,)"),
        Ok(Table {
            name: "t".to_string(),
            columns: vec![column("a", DataType::Int, &[]), column("b", DataType::String, &[])],
        })
    );
}

#[test]
fn unicode_white_space_separates_words() {
    assert_eq!(
        parse_column("\u{3000}id\u{a0}INT\u{2003}UNIQUE "),
        Ok(column("id", DataType::Int, &["UNIQUE"]))
    );
}
