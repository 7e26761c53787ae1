//! The table model and the parser that reads it from `CREATE TABLE` statements.
//!
//! A schema text is a run of statements, each ended by `;`, with an optional
//! comment line (`-- ...`) in front of the first. A statement names its table
//! in its third word and lists its columns between its first `(` and its last
//! `)`, separated by the commas that stand outside any further parentheses.
//! A column is a name, a type word and any number of constraint words.

use vstd::prelude::*;
use crate::text::{
    chars_of, decimal, eq_ignore_case, find_first, find_last, first_index, last_index,
    leading_spaces, lemma_words, matches_at, occurs_at, parse_decimal, piece_views,
    same_ignore_case, skip_spaces, split, split_pieces, split_words, strip_end, strip_end_of,
    sub_vec, trim, trimmed, views, words,
};

verus! {

/// The type of a column. Only `VarChar` carries a value: its length.
#[derive(Clone, Copy, Debug, PartialEq, Eq, Structural)]
pub enum DataType {
    Int,
    Float,
    String,
    DateTime,
    UUID,
    Boolean,
    VarChar(usize),
}

/// One column of a table. The constraint words are kept as written.
#[derive(Debug, PartialEq, Eq)]
pub struct Column {
    pub name: String,
    pub data_type: DataType,
    pub constraints: Vec<String>,
}

/// A table: its name and its columns in the order of the statement.
#[derive(Debug, PartialEq, Eq)]
pub struct Table {
    pub name: String,
    pub columns: Vec<Column>,
}

/// Why a schema text was refused.
#[derive(Debug, PartialEq, Eq)]
pub enum SchemaError {
    /// A statement without a table name, or a column without a type word.
    Malformed,
    /// A column whose type word is none of the known ones; holds that word.
    UnsupportedType(String),
}

/// What a [`Column`] holds, as mathematical values.
pub struct ColumnView {
    pub name: Seq<char>,
    pub data_type: DataType,
    pub constraints: Seq<Seq<char>>,
}

/// What a [`Table`] holds, as mathematical values.
pub struct TableView {
    pub name: Seq<char>,
    pub columns: Seq<ColumnView>,
}

/// What a [`SchemaError`] holds, as mathematical values.
pub enum SchemaErrorView {
    Malformed,
    UnsupportedType(Seq<char>),
}

impl View for Column {
    type V = ColumnView;

    open spec fn view(&self) -> ColumnView {
        ColumnView {
            name: self.name@,
            data_type: self.data_type,
            constraints: views(self.constraints@),
        }
    }
}

/// The view of each column of `v`.
pub open spec fn column_views(v: Seq<Column>) -> Seq<ColumnView> {
    Seq::new(v.len(), |i: int| v[i]@)
}

impl View for Table {
    type V = TableView;

    open spec fn view(&self) -> TableView {
        TableView { name: self.name@, columns: column_views(self.columns@) }
    }
}

/// The view of each table of `v`.
pub open spec fn table_views(v: Seq<Table>) -> Seq<TableView> {
    Seq::new(v.len(), |i: int| v[i]@)
}

impl View for SchemaError {
    type V = SchemaErrorView;

    open spec fn view(&self) -> SchemaErrorView {
        match self {
            SchemaError::Malformed => SchemaErrorView::Malformed,
            SchemaError::UnsupportedType(word) => SchemaErrorView::UnsupportedType(word@),
        }
    }
}

impl Column {
    /// Every column has a name.
    pub open spec fn wf(&self) -> bool {
        self.name@.len() > 0
    }
}

impl Table {
    /// Every table has a name, and so has each of its columns.
    pub open spec fn wf(&self) -> bool {
        &&& self.name@.len() > 0
        &&& forall|i: int| 0 <= i < self.columns@.len() ==> (#[trigger] self.columns@[i]).wf()
    }
}

/// The length of a `VARCHAR` whose length is missing or cannot be read.
pub const DEFAULT_VARCHAR_LENGTH: usize = 255;

/// The type that the word `word` names, letter case aside: one of `INT`,
/// `FLOAT`, `TEXT`, `DATE`, `DATETIME`, `UUID`, `BOOLEAN`, `VARCHAR` and
/// `VARCHAR(n)`. Between the parentheses of a `VARCHAR` anything but a run of
/// digits that fits in `usize` gives the default length.
pub open spec fn type_of_word(word: Seq<char>) -> Option<DataType> {
    if eq_ignore_case(word, "INT"@) {
        Some(DataType::Int)
    } else if eq_ignore_case(word, "FLOAT"@) {
        Some(DataType::Float)
    } else if eq_ignore_case(word, "TEXT"@) {
        Some(DataType::String)
    } else if eq_ignore_case(word, "DATE"@) || eq_ignore_case(word, "DATETIME"@) {
        Some(DataType::DateTime)
    } else if eq_ignore_case(word, "UUID"@) {
        Some(DataType::UUID)
    } else if eq_ignore_case(word, "BOOLEAN"@) {
        Some(DataType::Boolean)
    } else if eq_ignore_case(word, "VARCHAR"@) {
        Some(DataType::VarChar(DEFAULT_VARCHAR_LENGTH))
    } else if occurs_at(word, "VARCHAR("@, 0) && word.len() > "VARCHAR("@.len() && word.last()
        == ')' {
        Some(
            DataType::VarChar(
                match decimal(word.subrange("VARCHAR("@.len() as int, word.len() - 1)) {
                    Some(n) => n,
                    None => DEFAULT_VARCHAR_LENGTH,
                },
            ),
        )
    } else {
        None
    }
}

/// Reads a type word: see [`type_of_word`].
pub fn parse_data_type(word: &str) -> (r: Option<DataType>)
    ensures
        r == type_of_word(word@),
{
    let w = chars_of(word);
    if same_ignore_case(&w, &chars_of("INT")) {
        Some(DataType::Int)
    } else if same_ignore_case(&w, &chars_of("FLOAT")) {
        Some(DataType::Float)
    } else if same_ignore_case(&w, &chars_of("TEXT")) {
        Some(DataType::String)
    } else if same_ignore_case(&w, &chars_of("DATE")) || same_ignore_case(
        &w,
        &chars_of("DATETIME"),
    ) {
        Some(DataType::DateTime)
    } else if same_ignore_case(&w, &chars_of("UUID")) {
        Some(DataType::UUID)
    } else if same_ignore_case(&w, &chars_of("BOOLEAN")) {
        Some(DataType::Boolean)
    } else if same_ignore_case(&w, &chars_of("VARCHAR")) {
        Some(DataType::VarChar(DEFAULT_VARCHAR_LENGTH))
    } else {
        let prefix = chars_of("VARCHAR(");
        if matches_at(&w, &prefix, 0) && w.len() > prefix.len() && w[w.len() - 1] == ')' {
            let digits = sub_vec(&w, prefix.len(), w.len() - 1);
            match parse_decimal(&digits) {
                Some(n) => Some(DataType::VarChar(n)),
                None => Some(DataType::VarChar(DEFAULT_VARCHAR_LENGTH)),
            }
        } else {
            None
        }
    }
}

/// The type and the constraints that the words `tail[from..]` give: the first
/// names the type, the others are the constraints.
pub open spec fn type_and_constraints_of(tail: Seq<Seq<char>>) -> Result<
    (DataType, Seq<Seq<char>>),
    SchemaErrorView,
> {
    if tail.len() == 0 {
        Err(SchemaErrorView::Malformed)
    } else {
        match type_of_word(tail[0]) {
            None => Err(SchemaErrorView::UnsupportedType(tail[0])),
            Some(data_type) => Ok((data_type, tail.skip(1))),
        }
    }
}

/// The column that the definition `def` describes: its first word is the
/// name, the others give the type and the constraints.
pub open spec fn column_of(def: Seq<char>) -> Result<ColumnView, SchemaErrorView> {
    let all = words(def);
    if all.len() == 0 {
        Err(SchemaErrorView::Malformed)
    } else {
        match type_and_constraints_of(all.skip(1)) {
            Err(e) => Err(e),
            Ok(found) => Ok(ColumnView { name: all[0], data_type: found.0, constraints: found.1 }),
        }
    }
}

/// The columns that the definitions `defs` describe, in order, or the first
/// error. A definition that holds white space only is passed over.
pub open spec fn columns_of(defs: Seq<Seq<char>>) -> Result<Seq<ColumnView>, SchemaErrorView>
    decreases defs.len(),
{
    if defs.len() == 0 {
        Ok(Seq::empty())
    } else {
        match columns_of(defs.drop_last()) {
            Err(e) => Err(e),
            Ok(columns) => {
                let def = trimmed(defs.last());
                if def.len() == 0 {
                    Ok(columns)
                } else {
                    match column_of(def) {
                        Err(e) => Err(e),
                        Ok(column) => Ok(columns.push(column)),
                    }
                }
            },
        }
    }
}

/// What stands between the first `(` of `statement` and the last `)` after
/// it; empty where either is missing.
pub open spec fn column_block(statement: Seq<char>) -> Seq<char> {
    let open = first_index(statement, '(', 0);
    let close = last_index(statement, ')', open + 1, statement.len() as int);
    if open < statement.len() && open < close {
        statement.subrange(open + 1, close)
    } else {
        Seq::empty()
    }
}

/// The third word of `statement` without the `(` at its end; empty where the
/// statement has fewer than three words.
pub open spec fn table_name(statement: Seq<char>) -> Seq<char> {
    let all = words(statement);
    if all.len() < 3 {
        Seq::empty()
    } else {
        strip_end(all[2], '(')
    }
}

/// The table that `statement` describes.
pub open spec fn table_of(statement: Seq<char>) -> Result<TableView, SchemaErrorView> {
    let name = table_name(statement);
    if name.len() == 0 {
        Err(SchemaErrorView::Malformed)
    } else {
        match columns_of(split(column_block(statement), ',', true)) {
            Err(e) => Err(e),
            Ok(columns) => Ok(TableView { name, columns }),
        }
    }
}

/// The tables that the pieces of a schema text describe, in order, or the
/// first error. A piece that holds white space only is passed over.
pub open spec fn tables_of(pieces: Seq<Seq<char>>) -> Result<Seq<TableView>, SchemaErrorView>
    decreases pieces.len(),
{
    if pieces.len() == 0 {
        Ok(Seq::empty())
    } else {
        match tables_of(pieces.drop_last()) {
            Err(e) => Err(e),
            Ok(tables) => {
                let statement = trimmed(pieces.last());
                if statement.len() == 0 {
                    Ok(tables)
                } else {
                    match table_of(statement) {
                        Err(e) => Err(e),
                        Ok(table) => Ok(tables.push(table)),
                    }
                }
            },
        }
    }
}

/// Whether the first line of `text` is a comment: `--` after white space only.
pub open spec fn starts_with_comment(text: Seq<char>) -> bool {
    let start = skip_spaces(text, 0);
    start + 1 < first_index(text, '\n', 0) && text[start] == '-' && text[start + 1] == '-'
}

/// `text` without its first line where that line is a comment.
pub open spec fn without_leading_comment(text: Seq<char>) -> Seq<char> {
    let end = first_index(text, '\n', 0);
    if !starts_with_comment(text) {
        text
    } else if end < text.len() {
        text.skip(end + 1)
    } else {
        Seq::empty()
    }
}

/// The tables that the schema text `text` describes, or the first error.
pub open spec fn schema_of(text: Seq<char>) -> Result<Seq<TableView>, SchemaErrorView> {
    tables_of(split(without_leading_comment(text), ';', false))
}

/// An error among the first definitions is the error of the whole list.
pub proof fn lemma_column_error_stays(defs: Seq<Seq<char>>, k: int)
    requires
        0 <= k <= defs.len(),
        columns_of(defs.take(k)) is Err,
    ensures
        columns_of(defs) == columns_of(defs.take(k)),
    decreases defs.len() - k,
{
    if k == defs.len() {
        assert(defs.take(k) =~= defs);
    } else {
        assert(defs.drop_last().take(k) =~= defs.take(k));
        lemma_column_error_stays(defs.drop_last(), k);
    }
}

/// An error among the first statements is the error of the whole text.
pub proof fn lemma_table_error_stays(pieces: Seq<Seq<char>>, k: int)
    requires
        0 <= k <= pieces.len(),
        tables_of(pieces.take(k)) is Err,
    ensures
        tables_of(pieces) == tables_of(pieces.take(k)),
    decreases pieces.len() - k,
{
    if k == pieces.len() {
        assert(pieces.take(k) =~= pieces);
    } else {
        assert(pieces.drop_last().take(k) =~= pieces.take(k));
        lemma_table_error_stays(pieces.drop_last(), k);
    }
}

fn type_and_constraints(tokens: &Vec<String>, from: usize) -> (r: Result<
    (DataType, Vec<String>),
    SchemaError,
>)
    requires
        from <= tokens.len(),
    ensures
        match r {
            Ok(found) => type_and_constraints_of(views(tokens@).skip(from as int)) == Ok::<
                _,
                SchemaErrorView,
            >((found.0, views(found.1@))),
            Err(e) => type_and_constraints_of(views(tokens@).skip(from as int)) == Err::<
                (DataType, Seq<Seq<char>>),
                _,
            >(e@),
        },
{
    if from == tokens.len() {
        return Err(SchemaError::Malformed);
    }
    let ghost tail = views(tokens@).skip(from as int);
    assert(tail[0] == tokens@[from as int]@);
    match parse_data_type(tokens[from].as_str()) {
        None => Err(SchemaError::UnsupportedType(tokens[from].clone())),
        Some(data_type) => {
            let mut constraints: Vec<String> = Vec::new();
            let mut i: usize = from + 1;
            while i < tokens.len()
                invariant
                    from < i <= tokens.len(),
                    views(constraints@) == views(tokens@).subrange(from + 1, i as int),
                decreases tokens.len() - i,
            {
                let word = tokens[i].clone();
                proof {
                    assert(views(tokens@)[i as int] == word@);
                    assert(views(constraints@.push(word)) =~= views(constraints@).push(word@));
                    assert(views(constraints@.push(word)) =~= views(tokens@).subrange(
                        from + 1,
                        i + 1,
                    ));
                }
                constraints.push(word);
                i += 1;
            }
            proof {
                assert(views(tokens@).subrange(from + 1, i as int) =~= tail.skip(1));
            }
            Ok((data_type, constraints))
        },
    }
}

/// Reads the type and the constraints of a column from the words that follow
/// its name.
pub fn parse_data_type_and_constraints(input: &str) -> (r: Result<
    (DataType, Vec<String>),
    SchemaError,
>)
    ensures
        match r {
            Ok(found) => type_and_constraints_of(words(input@)) == Ok::<_, SchemaErrorView>(
                (found.0, views(found.1@)),
            ),
            Err(e) => type_and_constraints_of(words(input@)) == Err::<
                (DataType, Seq<Seq<char>>),
                _,
            >(e@),
        },
{
    let tokens = split_words(&chars_of(input));
    proof {
        assert(views(tokens@).skip(0) =~= views(tokens@));
    }
    type_and_constraints(&tokens, 0)
}

fn column_from_chars(def: &Vec<char>) -> (r: Result<Column, SchemaError>)
    ensures
        match r {
            Ok(column) => column_of(def@) == Ok::<_, SchemaErrorView>(column@) && column.wf(),
            Err(e) => column_of(def@) == Err::<ColumnView, _>(e@),
        },
{
    let tokens = split_words(def);
    if tokens.len() == 0 {
        return Err(SchemaError::Malformed);
    }
    proof {
        lemma_words(def@, 0);
        assert(words(def@)[0] == tokens@[0]@);
    }
    match type_and_constraints(&tokens, 1) {
        Err(e) => Err(e),
        Ok(found) => Ok(
            Column { name: tokens[0].clone(), data_type: found.0, constraints: found.1 },
        ),
    }
}

/// Reads one column definition: see [`column_of`].
pub fn parse_column(col_def: &str) -> (r: Result<Column, SchemaError>)
    ensures
        match r {
            Ok(column) => column_of(col_def@) == Ok::<_, SchemaErrorView>(column@) && column.wf(),
            Err(e) => column_of(col_def@) == Err::<ColumnView, _>(e@),
        },
{
    column_from_chars(&chars_of(col_def))
}

fn column_block_of(statement: &Vec<char>) -> (block: Vec<char>)
    ensures
        block@ == column_block(statement@),
{
    let open = find_first(statement, '(');
    if open >= statement.len() {
        return Vec::new();
    }
    match find_last(statement, ')', open + 1) {
        Some(close) => sub_vec(statement, open + 1, close),
        None => Vec::new(),
    }
}

fn columns_from_chars(statement: &Vec<char>) -> (r: Result<Vec<Column>, SchemaError>)
    ensures
        match r {
            Ok(columns) => columns_of(split(column_block(statement@), ',', true)) == Ok::<
                _,
                SchemaErrorView,
            >(column_views(columns@)) && forall|i: int|
                0 <= i < columns@.len() ==> (#[trigger] columns@[i]).wf(),
            Err(e) => columns_of(split(column_block(statement@), ',', true)) == Err::<
                Seq<ColumnView>,
                _,
            >(e@),
        },
{
    let block = column_block_of(statement);
    let defs = split_pieces(&block, ',', true);
    let ghost all = piece_views(defs@);
    let mut columns: Vec<Column> = Vec::new();
    let mut i: usize = 0;
    proof {
        assert(all.take(0) =~= Seq::empty());
        assert(column_views(columns@) =~= Seq::empty());
    }
    while i < defs.len()
        invariant
            i <= defs.len(),
            all == piece_views(defs@),
            all == split(column_block(statement@), ',', true),
            columns_of(all.take(i as int)) == Ok::<_, SchemaErrorView>(column_views(columns@)),
            forall|k: int| 0 <= k < columns@.len() ==> (#[trigger] columns@[k]).wf(),
        decreases defs.len() - i,
    {
        let def = trim(&defs[i]);
        proof {
            assert(all.take(i + 1).drop_last() =~= all.take(i as int));
            assert(all.take(i + 1).last() == defs@[i as int]@);
        }
        if def.len() > 0 {
            match column_from_chars(&def) {
                Err(e) => {
                    proof {
                        assert(columns_of(all.take(i + 1)) == Err::<Seq<ColumnView>, _>(e@));
                        lemma_column_error_stays(all, i + 1);
                    }
                    return Err(e);
                },
                Ok(column) => {
                    proof {
                        assert(column_views(columns@.push(column)) =~= column_views(
                            columns@,
                        ).push(column@));
                    }
                    columns.push(column);
                },
            }
        }
        i += 1;
    }
    proof {
        assert(all.take(i as int) =~= all);
    }
    Ok(columns)
}

/// Reads the columns of a statement: the definitions between its first `(`
/// and its last `)`, separated by the commas outside further parentheses.
pub fn extract_columns(statement: &str) -> (r: Result<Vec<Column>, SchemaError>)
    ensures
        match r {
            Ok(columns) => columns_of(split(column_block(statement@), ',', true)) == Ok::<
                _,
                SchemaErrorView,
            >(column_views(columns@)) && forall|i: int|
                0 <= i < columns@.len() ==> (#[trigger] columns@[i]).wf(),
            Err(e) => columns_of(split(column_block(statement@), ',', true)) == Err::<
                Seq<ColumnView>,
                _,
            >(e@),
        },
{
    columns_from_chars(&chars_of(statement))
}

fn table_name_of(statement: &Vec<char>) -> (name: String)
    ensures
        name@ == table_name(statement@),
{
    let all = split_words(statement);
    if all.len() < 3 {
        String::new()
    } else {
        proof {
            assert(views(all@)[2] == all@[2]@);
        }
        strip_end_of(&chars_of(all[2].as_str()), '(')
    }
}

/// The name of the table that `statement` creates: its third word, without
/// the `(` at its end. Empty where the statement has fewer than three words.
pub fn extract_table_name(statement: &str) -> (name: String)
    ensures
        name@ == table_name(statement@),
{
    table_name_of(&chars_of(statement))
}

fn table_from_chars(statement: &Vec<char>) -> (r: Result<Table, SchemaError>)
    ensures
        match r {
            Ok(table) => table_of(statement@) == Ok::<_, SchemaErrorView>(table@) && table.wf(),
            Err(e) => table_of(statement@) == Err::<TableView, _>(e@),
        },
{
    let name = table_name_of(statement);
    if name.as_str().is_empty() {
        return Err(SchemaError::Malformed);
    }
    match columns_from_chars(statement) {
        Err(e) => Err(e),
        Ok(columns) => Ok(Table { name, columns }),
    }
}

/// Reads one `CREATE TABLE` statement: see [`table_of`].
pub fn parse_create_table(statement: &str) -> (r: Result<Table, SchemaError>)
    ensures
        match r {
            Ok(table) => table_of(statement@) == Ok::<_, SchemaErrorView>(table@) && table.wf(),
            Err(e) => table_of(statement@) == Err::<TableView, _>(e@),
        },
{
    table_from_chars(&chars_of(statement))
}

fn strip_leading_comment(text: &Vec<char>) -> (body: Vec<char>)
    ensures
        body@ == without_leading_comment(text@),
{
    let end = find_first(text, '\n');
    let start = leading_spaces(text);
    if start < end && start + 1 < end && text[start] == '-' && text[start + 1] == '-' {
        if end < text.len() {
            proof {
                assert(text@.subrange(end + 1, text@.len() as int) =~= text@.skip(end + 1));
            }
            sub_vec(text, end + 1, text.len())
        } else {
            Vec::new()
        }
    } else {
        proof {
            assert(text@.subrange(0, text@.len() as int) =~= text@);
        }
        sub_vec(text, 0, text.len())
    }
}

/// Reads a schema text: see [`schema_of`]. One statement that cannot be read
/// fails the whole text.
pub fn parse_sql_file(sql_content: &str) -> (r: Result<Vec<Table>, SchemaError>)
    ensures
        schema_result_view(r) == schema_of(sql_content@),
        r matches Ok(tables) ==> forall|i: int|
            0 <= i < tables@.len() ==> (#[trigger] tables@[i]).wf(),
{
    let body = strip_leading_comment(&chars_of(sql_content));
    let pieces = split_pieces(&body, ';', false);
    let ghost all = piece_views(pieces@);
    let mut tables: Vec<Table> = Vec::new();
    let mut i: usize = 0;
    proof {
        assert(all.take(0) =~= Seq::empty());
        assert(table_views(tables@) =~= Seq::empty());
    }
    while i < pieces.len()
        invariant
            i <= pieces.len(),
            all == piece_views(pieces@),
            all == split(without_leading_comment(sql_content@), ';', false),
            tables_of(all.take(i as int)) == Ok::<_, SchemaErrorView>(table_views(tables@)),
            forall|k: int| 0 <= k < tables@.len() ==> (#[trigger] tables@[k]).wf(),
        decreases pieces.len() - i,
    {
        let statement = trim(&pieces[i]);
        proof {
            assert(all.take(i + 1).drop_last() =~= all.take(i as int));
            assert(all.take(i + 1).last() == pieces@[i as int]@);
        }
        if statement.len() > 0 {
            match table_from_chars(&statement) {
                Err(e) => {
                    proof {
                        assert(tables_of(all.take(i + 1)) == Err::<Seq<TableView>, _>(e@));
                        lemma_table_error_stays(all, i + 1);
                    }
                    return Err(e);
                },
                Ok(table) => {
                    proof {
                        assert(table_views(tables@.push(table)) =~= table_views(tables@).push(
                            table@,
                        ));
                    }
                    tables.push(table);
                },
            }
        }
        i += 1;
    }
    proof {
        assert(all.take(i as int) =~= all);
    }
    Ok(tables)
}

/// What a result of [`parse_sql_file`] holds, as mathematical values.
pub open spec fn schema_result_view(r: Result<Vec<Table>, SchemaError>) -> Result<
    Seq<TableView>,
    SchemaErrorView,
> {
    match r {
        Ok(tables) => Ok(table_views(tables@)),
        Err(e) => Err(e@),
    }
}

/// Reading is a function of the text: two results for the same text hold
/// the same tables, or the same error.
pub proof fn parsing_is_deterministic(
    text: Seq<char>,
    first: Result<Vec<Table>, SchemaError>,
    second: Result<Vec<Table>, SchemaError>,
)
    requires
        schema_result_view(first) == schema_of(text),
        schema_result_view(second) == schema_of(text),
    ensures
        schema_result_view(first) == schema_result_view(second),
{
}

/// A column whose type word is none of the known ones is refused, with that
/// word: no type is put in its place.
pub proof fn unknown_type_word_fails_the_column(def: Seq<char>)
    requires
        words(def).len() >= 2,
        type_of_word(words(def)[1]) is None,
    ensures
        column_of(def) == Err::<ColumnView, _>(SchemaErrorView::UnsupportedType(words(def)[1])),
{
    assert(words(def).skip(1)[0] == words(def)[1]);
}

/// One column that cannot be read fails its statement.
pub proof fn bad_column_fails_the_statement(defs: Seq<Seq<char>>, i: int)
    requires
        0 <= i < defs.len(),
        trimmed(defs[i]).len() > 0,
        column_of(trimmed(defs[i])) is Err,
    ensures
        columns_of(defs) is Err,
{
    assert(defs.take(i + 1).drop_last() =~= defs.take(i));
    assert(defs.take(i + 1).last() == defs[i]);
    assert(columns_of(defs.take(i + 1)) is Err);
    lemma_column_error_stays(defs, i + 1);
}

/// One statement that cannot be read fails the whole text.
pub proof fn bad_statement_fails_the_text(pieces: Seq<Seq<char>>, i: int)
    requires
        0 <= i < pieces.len(),
        trimmed(pieces[i]).len() > 0,
        table_of(trimmed(pieces[i])) is Err,
    ensures
        tables_of(pieces) is Err,
{
    assert(pieces.take(i + 1).drop_last() =~= pieces.take(i));
    assert(pieces.take(i + 1).last() == pieces[i]);
    assert(tables_of(pieces.take(i + 1)) is Err);
    lemma_table_error_stays(pieces, i + 1);
}

} // verus!
