use lernspark::dataset::{
    draw_row_count, generate_column, generate_random_table, generate_table, sample_people,
    ColumnValues, RowRange,
};
use lernspark::schema::{parse_create_table, Column, DataType};
use lernspark::storage::{map_sql_to_storage_type, StorageColumnType};

fn plain(name: &str, data_type: DataType) -> Column {
    Column { name: name.to_string(), data_type, constraints: vec![] }
}

fn is_uuid_v4(text: &str) -> bool {
    let chars: Vec<char> = text.chars().collect();
    chars.len() == 36
        && chars[14] == '4'
        && chars.iter().enumerate().all(|(i, c)| {
            if i == 8 || i == 13 || i == 18 || i == 23 {
                *c == '-'
            } else {
                c.is_ascii_digit() || ('a'..='f').contains(c)
            }
        })
}

#[test]
fn every_schema_type_has_one_storage_type() {
    assert_eq!(map_sql_to_storage_type(&DataType::Int), StorageColumnType::Int32);
    assert_eq!(map_sql_to_storage_type(&DataType::Float), StorageColumnType::Float32);
    assert_eq!(map_sql_to_storage_type(&DataType::String), StorageColumnType::Utf8);
    assert_eq!(map_sql_to_storage_type(&DataType::VarChar(7)), StorageColumnType::Utf8);
    assert_eq!(map_sql_to_storage_type(&DataType::DateTime), StorageColumnType::Date32);
    assert_eq!(map_sql_to_storage_type(&DataType::UUID), StorageColumnType::Utf8);
    assert_eq!(map_sql_to_storage_type(&DataType::Boolean), StorageColumnType::Boolean);
}

#[test]
fn row_range_must_hold_a_number() {
    assert_eq!(RowRange::new(3, 9), Some(RowRange { min: 3, max: 9 }));
    assert_eq!(RowRange::new(4, 4), Some(RowRange { min: 4, max: 4 }));
    assert_eq!(RowRange::new(5, 4), None);
    assert_eq!(RowRange::standard(), RowRange { min: 1000, max: 100000 });
}

#[test]
fn row_count_lies_in_the_range() {
    assert_eq!(draw_row_count(&RowRange { min: 7, max: 7 }), 7);
    assert_eq!(draw_row_count(&RowRange { min: 0, max: 0 }), 0);
    let mut seen_low = false;
    let mut seen_high = false;
    for _ in 0..200 {
        let n = draw_row_count(&RowRange { min: 10, max: 12 });
        assert!((10..=12).contains(&n));
        seen_low |= n == 10;
        seen_high |= n == 12;
    }
    assert!(seen_low && seen_high);
}

#[test]
fn integers_and_dates_lie_between_0_and_100() {
    match generate_column(&plain("amount", DataType::Int), 500) {
        ColumnValues::Int32(values) => {
            assert_eq!(values.len(), 500);
            assert!(values.iter().all(|v| (0..=100).contains(v)));
            assert!(values.iter().any(|v| *v != values[0]));
        }
        other => panic!("{:?}", other),
    }
    match generate_column(&plain("born", DataType::DateTime), 500) {
        ColumnValues::Date32(values) => {
            assert_eq!(values.len(), 500);
            assert!(values.iter().all(|v| (0..=100).contains(v)));
        }
        other => panic!("{:?}", other),
    }
}

#[test]
fn booleans_take_both_values() {
    match generate_column(&plain("active", DataType::Boolean), 200) {
        ColumnValues::Boolean(values) => {
            assert_eq!(values.len(), 200);
            assert!(values.iter().any(|v| *v));
            assert!(values.iter().any(|v| !*v));
        }
        other => panic!("{:?}", other),
    }
}

#[test]
fn uuid_columns_hold_fresh_uuids() {
    match generate_column(&plain("key", DataType::UUID), 50) {
        ColumnValues::Utf8(values) => {
            assert_eq!(values.len(), 50);
            assert!(values.iter().all(|v| is_uuid_v4(v)));
            assert_ne!(values[0], values[1]);
        }
        other => panic!("{:?}", other),
    }
}

#[test]
fn text_columns_follow_the_column_name() {
    match generate_column(&plain("email", DataType::String), 5) {
        ColumnValues::Utf8(values) => assert!(values.iter().all(|v| v.contains('@'))),
        other => panic!("{:?}", other),
    }
    match generate_column(&plain("contact_email", DataType::VarChar(80)), 5) {
        ColumnValues::Utf8(values) => assert!(values.iter().all(|v| v.contains('@'))),
        other => panic!("{:?}", other),
    }
}

#[test]
fn float_columns_record_their_rows() {
    assert_eq!(generate_column(&plain("price", DataType::Float), 12), ColumnValues::Float32(12));
    assert_eq!(ColumnValues::Float32(12).len(), 12);
}

#[test]
fn all_columns_of_a_table_have_the_same_number_of_rows() {
    let table = parse_create_table(
        "CREATE TABLE people (id INT, name TEXT, score FLOAT, born DATE, key UUID, \
         active BOOLEAN, city VARCHAR(40))",
    )
    .unwrap();
    let data = generate_table(&table, 37);
    assert_eq!(data.table_name, "people");
    assert_eq!(data.num_rows, 37);
    assert_eq!(data.columns.len(), 7);
    for (made, column) in data.columns.iter().zip(table.columns.iter()) {
        assert_eq!(made.name, column.name);
        assert_eq!(made.storage_type, map_sql_to_storage_type(&column.data_type));
        assert_eq!(made.values.len(), 37);
    }
    let kinds: Vec<StorageColumnType> = data.columns.iter().map(|c| c.storage_type).collect();
    assert_eq!(
        kinds,
        vec![
            StorageColumnType::Int32,
            StorageColumnType::Utf8,
            StorageColumnType::Float32,
            StorageColumnType::Date32,
            StorageColumnType::Utf8,
            StorageColumnType::Boolean,
            StorageColumnType::Utf8,
        ]
    );
}

#[test]
fn table_without_columns_or_rows() {
    let empty = parse_create_table("CREATE TABLE nothing").unwrap();
    let data = generate_table(&empty, 10);
    assert_eq!(data.num_rows, 10);
    assert!(data.columns.is_empty());
    let table = parse_create_table("CREATE TABLE t (a INT, b TEXT)").unwrap();
    let data = generate_table(&table, 0);
    assert!(data.columns.iter().all(|c| c.values.len() == 0));
}

#[test]
fn row_count_is_drawn_once_per_table() {
    let table = parse_create_table("CREATE TABLE t (a INT, b TEXT, c BOOLEAN)").unwrap();
    for _ in 0..10 {
        let data = generate_random_table(&table, &RowRange { min: 20, max: 40 });
        assert!((20..=40).contains(&data.num_rows));
        assert!(data.columns.iter().all(|c| c.values.len() == data.num_rows));
    }
}

#[test]
fn people_are_numbered_from_zero() {
    let people = sample_people(100);
    assert_eq!(people.ids, (0..100).collect::<Vec<i32>>());
    assert_eq!(people.names[0], "Person 0");
    assert_eq!(people.names[9], "Person 9");
    assert_eq!(people.names[10], "Person 10");
    assert_eq!(people.names[99], "Person 99");
    assert_eq!(people.ages.len(), 100);
    assert!(people.ages.iter().all(|a| (18..=65).contains(a)));
    assert!(sample_people(0).ids.is_empty());
}
