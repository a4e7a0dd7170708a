//! What the endpoints decide: which statement to run with which parameters,
//! and what to answer once the engine has run it. Running it is the caller's
//! part.

use crate::text::debug_quoted;
use crate::text::debug_text;
use crate::text::decimal;
use crate::text::decimal_text;
use crate::text::hex_encode;
use crate::text::hex_text;
use crate::text::signed_decimal;
use crate::text::signed_decimal_text;
use vstd::prelude::*;
use vstd::string::StringExecFns;

verus! {

/// What an endpoint answers when it fails.
#[derive(Debug, Clone, PartialEq, Eq)]
pub enum Error {
    /// The call could not be delivered or was turned down.
    InvalidCanister,
    /// The call failed in the canister; the message says how.
    CanisterError { message: String },
}

/// Why a call to another canister was rejected.
#[derive(Debug, Clone, Copy, PartialEq, Eq, Structural)]
pub enum RejectionCode {
    NoError,
    SysFatal,
    SysTransient,
    DestinationInvalid,
    CanisterReject,
    CanisterError,
    Unknown,
}

impl From<(RejectionCode, String)> for Error {
    fn from(rejection: (RejectionCode, String)) -> (error: Error) {
        match rejection.0 {
            RejectionCode::CanisterError => Error::CanisterError { message: rejection.1 },
            _ => Error::InvalidCanister,
        }
    }
}

impl vstd::std_specs::convert::FromSpecImpl<(RejectionCode, String)> for Error {
    open spec fn obeys_from_spec() -> bool {
        true
    }

    open spec fn from_spec(rejection: (RejectionCode, String)) -> Error {
        match rejection.0 {
            RejectionCode::CanisterError => Error::CanisterError { message: rejection.1 },
            _ => Error::InvalidCanister,
        }
    }
}

/// A failure of the storage, as an endpoint answers it: a failure in the
/// canister whose message is what the failure says of itself.
pub fn storage_failure(error: crate::error::StorageError) -> (answer: Error)
    ensures
        answer matches Error::CanisterError { message } && message@ == crate::error::error_text(
            error,
        ),
{
    Error::CanisterError { message: error.message() }
}

/// One of the two tables that the benchmark works on.
#[derive(Debug, Clone, Copy, PartialEq, Eq, Structural)]
pub enum Table {
    /// Rows of a name, an age and a gender.
    Person,
    /// The same, with a block of data in each row.
    Person2,
}

/// What an endpoint does to its table.
#[derive(Debug, Clone, Copy, PartialEq, Eq, Structural)]
pub enum Operation {
    /// Insert a run of rows, one statement for each.
    InsertMany,
    /// Insert one row.
    InsertOne,
    /// Select the row with a given identifier.
    QueryById,
    /// Select the rows with a given name.
    QueryByName,
    /// Select the rows whose name matches a pattern.
    QueryByLikeName,
    /// Select a window of rows.
    QueryByLimitOffset,
    /// Rename the row with a given identifier.
    UpdateById,
    /// Rename the rows with a given name.
    UpdateByName,
    /// Delete the row with a given identifier.
    DeleteById,
}

/// A value bound to a statement.
#[derive(Debug, Clone, PartialEq, Eq)]
pub enum Parameter {
    /// A count or an identifier.
    Unsigned(u64),
    /// A piece of text.
    Text(String),
}

/// A value bound to a statement, as plain data.
pub enum ParameterModel {
    /// A count or an identifier.
    Unsigned(nat),
    /// A piece of text.
    Text(Seq<char>),
}

impl View for Parameter {
    type V = ParameterModel;

    open spec fn view(&self) -> ParameterModel {
        match self {
            Parameter::Unsigned(n) => ParameterModel::Unsigned(*n as nat),
            Parameter::Text(text) => ParameterModel::Text(text@),
        }
    }
}

/// The views of a list of parameters.
pub open spec fn parameter_views(parameters: Seq<Parameter>) -> Seq<ParameterModel> {
    parameters.map_values(|p: Parameter| p@)
}

/// The identifier of the row that lies `index` rows after `offset`: rows are
/// numbered from one.
pub open spec fn row_id(offset: nat, index: nat) -> nat {
    offset + index + 1
}

/// The age given to the row with identifier `id`.
pub open spec fn person_age(id: nat) -> nat {
    18 + id % 10
}

/// The gender given to the row with identifier `id`.
pub open spec fn person_gender(id: nat) -> nat {
    id % 2
}

/// The word that names of a table's rows start with.
pub open spec fn name_stem(table: Table) -> Seq<char> {
    match table {
        Table::Person => "person"@,
        Table::Person2 => "person2"@,
    }
}

/// The name given to the row with identifier `id`.
pub open spec fn person_name(table: Table, id: nat) -> Seq<char> {
    name_stem(table) + decimal(id)
}

/// Characters in the block of data of a `Person2` row.
pub const DATA_CHARS: usize = 2048;

/// The block of data of every `Person2` row: `0a`, over and over.
pub open spec fn person_data() -> Seq<char> {
    Seq::new(
        DATA_CHARS as nat,
        |i: int|
            if i % 2 == 0 {
                '0'
            } else {
                'a'
            },
    )
}

/// The statement that an operation runs on a table.
pub open spec fn statement_sql(table: Table, operation: Operation) -> Seq<char> {
    match (table, operation) {
        (Table::Person, Operation::InsertMany) => "insert into person (name, age, gender) values (?, ?, ?)"@,
        (Table::Person, Operation::InsertOne) => "insert into person (name, age, gender) values (?1, ?2, ?3);"@,
        (Table::Person, Operation::QueryById) => "select * from person where id=?1"@,
        (Table::Person, Operation::QueryByName) => "select * from person where name=?1"@,
        (Table::Person, Operation::QueryByLikeName) => "select * from person where name like ?1"@,
        (Table::Person, Operation::QueryByLimitOffset) => "select * from person limit ?1 offset ?2"@,
        (Table::Person, Operation::UpdateById) => "update person set name=?1 where id=?2"@,
        (Table::Person, Operation::UpdateByName) => "update person set name=?1 where name=?2"@,
        (Table::Person, Operation::DeleteById) => "delete from person where id=?1"@,
        (Table::Person2, Operation::InsertMany) => "insert into person2 (name, age, gender, data) values (?1, ?2, ?3, ?4);"@,
        (Table::Person2, Operation::InsertOne) => "insert into person2 (name, age, gender, data) values (?1, ?2, ?3, ?4);"@,
        (Table::Person2, Operation::QueryById) => "select * from person2 where id=?1"@,
        (Table::Person2, Operation::QueryByName) => "select * from person2 where name=?1"@,
        (Table::Person2, Operation::QueryByLikeName) => "select * from person2 where name like ?1"@,
        (Table::Person2, Operation::QueryByLimitOffset) => "select * from person2 limit ?1 offset ?2"@,
        (Table::Person2, Operation::UpdateById) => "update person2 set name=?1 where id=?2"@,
        (Table::Person2, Operation::UpdateByName) => "update person2 set name=?1 where name=?2"@,
        (Table::Person2, Operation::DeleteById) => "delete from person2 where id=?1"@,
    }
}

/// The statement that an operation runs on a table.
pub fn statement(table: Table, operation: Operation) -> (sql: String)
    ensures
        sql@ == statement_sql(table, operation),
{
    let text = match (table, operation) {
        (Table::Person, Operation::InsertMany) => "insert into person (name, age, gender) values (?, ?, ?)",
        (Table::Person, Operation::InsertOne) => "insert into person (name, age, gender) values (?1, ?2, ?3);",
        (Table::Person, Operation::QueryById) => "select * from person where id=?1",
        (Table::Person, Operation::QueryByName) => "select * from person where name=?1",
        (Table::Person, Operation::QueryByLikeName) => "select * from person where name like ?1",
        (Table::Person, Operation::QueryByLimitOffset) => "select * from person limit ?1 offset ?2",
        (Table::Person, Operation::UpdateById) => "update person set name=?1 where id=?2",
        (Table::Person, Operation::UpdateByName) => "update person set name=?1 where name=?2",
        (Table::Person, Operation::DeleteById) => "delete from person where id=?1",
        (Table::Person2, Operation::InsertMany) => "insert into person2 (name, age, gender, data) values (?1, ?2, ?3, ?4);",
        (Table::Person2, Operation::InsertOne) => "insert into person2 (name, age, gender, data) values (?1, ?2, ?3, ?4);",
        (Table::Person2, Operation::QueryById) => "select * from person2 where id=?1",
        (Table::Person2, Operation::QueryByName) => "select * from person2 where name=?1",
        (Table::Person2, Operation::QueryByLikeName) => "select * from person2 where name like ?1",
        (Table::Person2, Operation::QueryByLimitOffset) => "select * from person2 limit ?1 offset ?2",
        (Table::Person2, Operation::UpdateById) => "update person2 set name=?1 where id=?2",
        (Table::Person2, Operation::UpdateByName) => "update person2 set name=?1 where name=?2",
        (Table::Person2, Operation::DeleteById) => "delete from person2 where id=?1",
    };
    String::from_str(text)
}

/// The name given to the row with identifier `id`.
pub fn name_of(table: Table, id: u64) -> (name: String)
    ensures
        name@ == person_name(table, id as nat),
{
    let stem = match table {
        Table::Person => "person",
        Table::Person2 => "person2",
    };
    let digits = decimal_text(id);
    String::from_str(stem).concat(digits.as_str())
}

/// The block of data of every `Person2` row.
pub fn data_block() -> (data: String)
    ensures
        data@ == person_data(),
{
    proof {
        reveal_strlit("0a");
    }
    let mut data = String::new();
    let mut pairs: usize = 0;
    while pairs < DATA_CHARS / 2
        invariant
            pairs <= DATA_CHARS / 2,
            data@.len() == 2 * pairs,
            "0a"@ == seq!['0', 'a'],
            forall|i: int|
                0 <= i < data@.len() ==> data@[i] == if i % 2 == 0 {
                    '0'
                } else {
                    'a'
                },
        decreases DATA_CHARS / 2 - pairs,
    {
        data.append("0a");
        pairs = pairs + 1;
    }
    assert(data@ =~= person_data());
    data
}

/// The values of one row of a table, in the order of its insert statement.
pub open spec fn row_values(table: Table, id: nat) -> Seq<ParameterModel> {
    match table {
        Table::Person => seq![
            ParameterModel::Text(person_name(table, id)),
            ParameterModel::Unsigned(person_age(id)),
            ParameterModel::Unsigned(person_gender(id)),
        ],
        Table::Person2 => seq![
            ParameterModel::Text(person_name(table, id)),
            ParameterModel::Unsigned(person_age(id)),
            ParameterModel::Unsigned(person_gender(id)),
            ParameterModel::Text(person_data()),
        ],
    }
}

/// The values of the row that lies `index` rows after `offset`.
pub fn row(table: Table, offset: u64, index: u64) -> (values: Vec<Parameter>)
    requires
        offset + index < u64::MAX,
    ensures
        parameter_views(values@) == row_values(table, row_id(offset as nat, index as nat)),
{
    let id: u64 = offset + index + 1;
    let mut values: Vec<Parameter> = Vec::new();
    values.push(Parameter::Text(name_of(table, id)));
    values.push(Parameter::Unsigned(18 + id % 10));
    values.push(Parameter::Unsigned(id % 2));
    match table {
        Table::Person => {},
        Table::Person2 => {
            values.push(Parameter::Text(data_block()));
        },
    }
    assert(parameter_views(values@) =~= row_values(
        table,
        row_id(offset as nat, index as nat),
    ));
    values
}

/// The values that an operation binds to its statement. Every operation but
/// the window query works on the row just after `offset`; the window query
/// takes `limit` rows from `offset` on.
pub open spec fn bound_values(table: Table, operation: Operation, offset: nat, limit: nat) -> Seq<
    ParameterModel,
> {
    let id = row_id(offset, 0);
    match operation {
        Operation::InsertMany => row_values(table, id),
        Operation::InsertOne => row_values(table, id),
        Operation::QueryById => seq![ParameterModel::Unsigned(id)],
        Operation::QueryByName => seq![ParameterModel::Text(person_name(table, id))],
        Operation::QueryByLikeName => seq![
            ParameterModel::Text(debug_text(person_name(table, id)) + "%"@),
        ],
        Operation::QueryByLimitOffset => seq![
            ParameterModel::Unsigned(limit),
            ParameterModel::Unsigned(offset),
        ],
        Operation::UpdateById => seq![
            ParameterModel::Text(name_stem(table) + "_id"@),
            ParameterModel::Unsigned(id),
        ],
        Operation::UpdateByName => seq![
            ParameterModel::Text(name_stem(table) + "_name"@),
            ParameterModel::Text(decimal(id)),
        ],
        Operation::DeleteById => seq![ParameterModel::Unsigned(id)],
    }
}

/// The values that an operation binds to its statement.
pub fn parameters(table: Table, operation: Operation, offset: u64, limit: u64) -> (values: Vec<
    Parameter,
>)
    requires
        operation == Operation::QueryByLimitOffset || offset < u64::MAX,
    ensures
        parameter_views(values@) == bound_values(table, operation, offset as nat, limit as nat),
{
    let mut values: Vec<Parameter> = Vec::new();
    if let Operation::QueryByLimitOffset = operation {
        values.push(Parameter::Unsigned(limit));
        values.push(Parameter::Unsigned(offset));
        assert(parameter_views(values@) =~= bound_values(
            table,
            operation,
            offset as nat,
            limit as nat,
        ));
        return values;
    }
    let id: u64 = offset + 1;
    let stem = match table {
        Table::Person => "person",
        Table::Person2 => "person2",
    };
    match operation {
        Operation::InsertMany => {
            return row(table, offset, 0);
        },
        Operation::InsertOne => {
            return row(table, offset, 0);
        },
        Operation::QueryById => {
            values.push(Parameter::Unsigned(id));
        },
        Operation::QueryByName => {
            values.push(Parameter::Text(name_of(table, id)));
        },
        Operation::QueryByLikeName => {
            let name = name_of(table, id);
            let pattern = debug_quoted(name.as_str()).concat("%");
            values.push(Parameter::Text(pattern));
        },
        Operation::QueryByLimitOffset => {},
        Operation::UpdateById => {
            values.push(Parameter::Text(String::from_str(stem).concat("_id")));
            values.push(Parameter::Unsigned(id));
        },
        Operation::UpdateByName => {
            values.push(Parameter::Text(String::from_str(stem).concat("_name")));
            values.push(Parameter::Text(decimal_text(id)));
        },
        Operation::DeleteById => {
            values.push(Parameter::Unsigned(id));
        },
    }
    assert(parameter_views(values@) =~= bound_values(
        table,
        operation,
        offset as nat,
        limit as nat,
    ));
    values
}

/// Where the engine was when it failed.
#[derive(Debug, Clone, Copy, PartialEq, Eq, Structural)]
pub enum Stage {
    /// While it compiled the statement.
    Prepare,
    /// While it ran the statement.
    Run,
}

/// How the engine fared with a statement.
#[derive(Debug, Clone, PartialEq, Eq)]
pub enum Outcome {
    /// It ran the statement; `counter` is the host's count of the
    /// instructions spent so far.
    Done { counter: u64 },
    /// It failed at `stage`; `detail` is its own description of the failure.
    Failed { stage: Stage, detail: String },
}

/// What an answer says in front of the instruction count.
pub open spec fn success_label(operation: Operation) -> Seq<char> {
    match operation {
        Operation::InsertMany => ""@,
        Operation::InsertOne => "insert performance_counter: "@,
        Operation::QueryById => "query_by_id performance_counter: "@,
        Operation::QueryByName => "query_by_name performance_counter: "@,
        Operation::QueryByLikeName => "query_by_like_name performance_counter: "@,
        Operation::QueryByLimitOffset => "query_by_limit_offset performance_counter: "@,
        Operation::UpdateById => "update_by_id performance_counter: "@,
        Operation::UpdateByName => "update_by_name performance_counter: "@,
        Operation::DeleteById => "delete performance_counter: "@,
    }
}

/// What a failure says in front of the engine's description.
pub open spec fn failure_label(operation: Operation) -> Seq<char> {
    match operation {
        Operation::InsertMany => "bench2_insert_person2: "@,
        Operation::InsertOne => "insert: "@,
        Operation::QueryById => "query_by_id: "@,
        Operation::QueryByName => "query_by_name: "@,
        Operation::QueryByLikeName => ""@,
        Operation::QueryByLimitOffset => "query_by_limit_offset: "@,
        Operation::UpdateById => ""@,
        Operation::UpdateByName => "update_by_name: "@,
        Operation::DeleteById => "delete: "@,
    }
}

/// What an endpoint answers once its statement has run: for a run of
/// inserts, the fixed word of its table; for every other operation, its
/// label and the instruction count.
pub open spec fn success_text(table: Table, operation: Operation, counter: nat) -> Seq<char> {
    match (table, operation) {
        (Table::Person, Operation::InsertMany) => "bench1_insert_person OK"@,
        (Table::Person2, Operation::InsertMany) => "bench2_insert_person2 OK"@,
        _ => success_label(operation) + decimal(counter),
    }
}

/// What an endpoint answers to an outcome.
pub open spec fn answer(table: Table, operation: Operation, outcome: Outcome) -> Result<
    Seq<char>,
    Seq<char>,
> {
    match outcome {
        Outcome::Done { counter } => Ok(success_text(table, operation, counter as nat)),
        Outcome::Failed { stage, detail } => Err(failure_label(operation) + detail@),
    }
}

/// The answer of a result, as plain data.
pub open spec fn answer_view(result: Result<String, Error>) -> Result<Seq<char>, Seq<char>> {
    match result {
        Ok(text) => Ok(text@),
        Err(Error::CanisterError { message }) => Err(message@),
        Err(Error::InvalidCanister) => Err(Seq::empty()),
    }
}

/// `label`, then the instruction count in decimal.
fn counted(label: &str, counter: u64) -> (text: String)
    ensures
        text@ == label@ + decimal(counter as nat),
{
    let digits = decimal_text(counter);
    String::from_str(label).concat(digits.as_str())
}

/// The failure whose message is `label`, then the engine's description.
fn failed(label: &str, detail: &str) -> (error: Error)
    ensures
        error matches Error::CanisterError { message } && message@ == label@ + detail@,
{
    Error::CanisterError { message: String::from_str(label).concat(detail) }
}

/// What an endpoint answers to the outcome of its statement. A run of
/// inserts into `Person` has no answer to a failure: there the caller stops.
pub fn report(table: Table, operation: Operation, outcome: Outcome) -> (result: Result<
    String,
    Error,
>)
    requires
        !(table == Table::Person && operation == Operation::InsertMany && outcome is Failed),
    ensures
        result is Err ==> result matches Err(Error::CanisterError { .. }),
        answer_view(result) == answer(table, operation, outcome),
{
    match outcome {
        Outcome::Done { counter } => {
            let text = match operation {
                Operation::InsertMany => {
                    match table {
                        Table::Person => String::from_str("bench1_insert_person OK"),
                        Table::Person2 => String::from_str("bench2_insert_person2 OK"),
                    }
                },
                Operation::InsertOne => counted("insert performance_counter: ", counter),
                Operation::QueryById => counted("query_by_id performance_counter: ", counter),
                Operation::QueryByName => counted("query_by_name performance_counter: ", counter),
                Operation::QueryByLikeName => counted(
                    "query_by_like_name performance_counter: ",
                    counter,
                ),
                Operation::QueryByLimitOffset => counted(
                    "query_by_limit_offset performance_counter: ",
                    counter,
                ),
                Operation::UpdateById => counted("update_by_id performance_counter: ", counter),
                Operation::UpdateByName => counted("update_by_name performance_counter: ", counter),
                Operation::DeleteById => counted("delete performance_counter: ", counter),
            };
            Ok(text)
        },
        Outcome::Failed { stage, detail } => {
            let label = match operation {
                Operation::InsertMany => "bench2_insert_person2: ",
                Operation::InsertOne => "insert: ",
                Operation::QueryById => "query_by_id: ",
                Operation::QueryByName => "query_by_name: ",
                Operation::QueryByLikeName => "",
                Operation::QueryByLimitOffset => "query_by_limit_offset: ",
                Operation::UpdateById => "",
                Operation::UpdateByName => "update_by_name: ",
                Operation::DeleteById => "delete: ",
            };
            Err(failed(label, detail.as_str()))
        },
    }
}

/// Answers the endpoint that runs a statement given as text.
pub fn execute(outcome: Outcome) -> (result: Result<String, Error>)
    ensures
        result is Err ==> result matches Err(Error::CanisterError { .. }),
        answer_view(result) == match outcome {
            Outcome::Done { counter } => Ok::<Seq<char>, Seq<char>>(
                "execute performance_counter: "@ + decimal(counter as nat),
            ),
            Outcome::Failed { stage, detail } => Err("execute "@ + detail@),
        },
{
    match outcome {
        Outcome::Done { counter } => Ok(counted("execute performance_counter: ", counter)),
        Outcome::Failed { stage, detail } => Err(failed("execute ", detail.as_str())),
    }
}

/// The statement that counts the rows of the table named `table_name`.
pub fn count_statement(table_name: &str) -> (sql: String)
    ensures
        sql@ == "select count(*) from "@ + debug_text(table_name@),
{
    let quoted = debug_quoted(table_name);
    String::from_str("select count(*) from ").concat(quoted.as_str())
}

/// Answers the endpoint that counts the rows of a table.
pub fn count(outcome: Outcome) -> (result: Result<String, Error>)
    ensures
        result is Err ==> result matches Err(Error::CanisterError { .. }),
        answer_view(result) == match outcome {
            Outcome::Done { counter } => Ok::<Seq<char>, Seq<char>>(
                "count performance_counter: "@ + decimal(counter as nat),
            ),
            Outcome::Failed { stage: Stage::Prepare, detail } => Err(detail@),
            Outcome::Failed { stage: Stage::Run, detail } => Err("count: "@ + detail@),
        },
{
    match outcome {
        Outcome::Done { counter } => Ok(counted("count performance_counter: ", counter)),
        Outcome::Failed { stage, detail } => {
            match stage {
                Stage::Prepare => {
                    proof {
                        reveal_strlit("");
                    }
                    let error = failed("", detail.as_str());
                    assert(""@ + detail@ =~= detail@);
                    Err(error)
                },
                Stage::Run => Err(failed("count: ", detail.as_str())),
            }
        },
    }
}

/// The statement that indexes the names of the `Person` table.
pub fn create_index_statement() -> (sql: String)
    ensures
        sql@ == "create index if not exists name on person(name);"@,
{
    String::from_str("create index if not exists name on person(name);")
}

/// Answers the endpoint that indexes the names of the `Person` table.
pub fn create_index(outcome: Outcome) -> (result: Result<String, Error>)
    ensures
        result is Err ==> result matches Err(Error::CanisterError { .. }),
        answer_view(result) == match outcome {
            Outcome::Done { counter } => Ok::<Seq<char>, Seq<char>>(
                "create_index: "@ + decimal(counter as nat),
            ),
            Outcome::Failed { stage, detail } => Err("create_index error: "@ + detail@),
        },
{
    match outcome {
        Outcome::Done { counter } => Ok(counted("create_index: ", counter)),
        Outcome::Failed { stage, detail } => Err(failed("create_index error: ", detail.as_str())),
    }
}

/// One value of a row that a query returned. A real number comes as the text
/// that stands for it.
#[derive(Debug, Clone, PartialEq, Eq)]
pub enum Cell {
    /// No value.
    Null,
    /// A whole number.
    Integer(i64),
    /// A real number, already written out.
    Real(String),
    /// A piece of text.
    Text(String),
    /// Bytes.
    Blob(Vec<u8>),
}

/// The text that a query's answer shows for a cell: nothing for no value, a
/// number in decimal, text as it is, bytes in hexadecimal.
pub open spec fn cell_text(cell: Cell) -> Seq<char> {
    match cell {
        Cell::Null => Seq::empty(),
        Cell::Integer(number) => signed_decimal(number as int),
        Cell::Real(written) => written@,
        Cell::Text(text) => text@,
        Cell::Blob(bytes) => hex_text(bytes@),
    }
}

/// The text that a query's answer shows for a cell.
pub fn render_cell(cell: &Cell) -> (text: String)
    ensures
        text@ == cell_text(*cell),
{
    match cell {
        Cell::Null => String::new(),
        Cell::Integer(number) => signed_decimal_text(*number),
        Cell::Real(written) => written.clone(),
        Cell::Text(text) => text.clone(),
        Cell::Blob(bytes) => hex_encode(bytes.as_slice()),
    }
}

/// The texts of the cells of one row.
pub fn render_row(row: &Vec<Cell>) -> (texts: Vec<String>)
    ensures
        texts@.len() == row@.len(),
        forall|j: int| 0 <= j < row@.len() ==> (#[trigger] texts@[j])@ == cell_text(row@[j]),
{
    let mut texts: Vec<String> = Vec::new();
    let mut j: usize = 0;
    while j < row.len()
        invariant
            j <= row@.len(),
            texts@.len() == j,
            forall|k: int| 0 <= k < j ==> (#[trigger] texts@[k])@ == cell_text(row@[k]),
        decreases row@.len() - j,
    {
        texts.push(render_cell(&row[j]));
        j = j + 1;
    }
    texts
}

/// Answers the endpoint that runs a query given as text: every row that the
/// engine returned, cell by cell as text, or the engine's description of what
/// stopped it while it stepped through the rows.
pub fn query(rows: Result<Vec<Vec<Cell>>, String>) -> (result: Result<Vec<Vec<String>>, Error>)
    ensures
        match rows {
            Ok(found) => {
                &&& result matches Ok(texts)
                &&& texts@.len() == found@.len()
                &&& forall|i: int|
                    0 <= i < found@.len() ==> (#[trigger] texts@[i])@.len() == found@[i]@.len()
                &&& forall|i: int, j: int|
                    0 <= i < found@.len() && 0 <= j < found@[i]@.len() ==> (#[trigger] texts@[i]@[j])@
                        == cell_text(found@[i]@[j])
            },
            Err(detail) => {
                &&& result matches Err(Error::CanisterError { message })
                &&& message@ == detail@
            },
        },
{
    match rows {
        Ok(found) => {
            let mut texts: Vec<Vec<String>> = Vec::new();
            let mut i: usize = 0;
            while i < found.len()
                invariant
                    i <= found@.len(),
                    texts@.len() == i,
                    forall|k: int|
                        0 <= k < i ==> (#[trigger] texts@[k])@.len() == found@[k]@.len(),
                    forall|k: int, j: int|
                        0 <= k < i && 0 <= j < found@[k]@.len() ==> (#[trigger] texts@[k]@[j])@
                            == cell_text(found@[k]@[j]),
                decreases found@.len() - i,
            {
                texts.push(render_row(&found[i]));
                i = i + 1;
            }
            Ok(texts)
        },
        Err(detail) => Err(Error::CanisterError { message: detail }),
    }
}

/// A statement with the values bound to it.
pub struct Statement {
    /// The text of the statement.
    pub sql: String,
    /// The values for its placeholders, in order.
    pub values: Vec<Parameter>,
}

/// The statement that an operation runs on a table, with its values.
pub fn plan(table: Table, operation: Operation, offset: u64, limit: u64) -> (planned: Statement)
    requires
        operation == Operation::QueryByLimitOffset || offset < u64::MAX,
    ensures
        planned.sql@ == statement_sql(table, operation),
        parameter_views(planned.values@) == bound_values(
            table,
            operation,
            offset as nat,
            limit as nat,
        ),
{
    Statement {
        sql: statement(table, operation),
        values: parameters(table, operation, offset, limit),
    }
}

/// The statement that adds one person of a name, a note and an age to the
/// table of the demonstration.
pub fn add(name: String, data: String, age: u32) -> (planned: Statement)
    ensures
        planned.sql@ == "INSERT INTO person (name, data, age) VALUES (?1, ?2, ?3)"@,
        parameter_views(planned.values@) == seq![
            ParameterModel::Text(name@),
            ParameterModel::Text(data@),
            ParameterModel::Unsigned(age as nat),
        ],
{
    let mut values: Vec<Parameter> = Vec::new();
    values.push(Parameter::Text(name));
    values.push(Parameter::Text(data));
    values.push(Parameter::Unsigned(age as u64));
    assert(parameter_views(values@) =~= seq![
        ParameterModel::Text(name@),
        ParameterModel::Text(data@),
        ParameterModel::Unsigned(age as nat),
    ]);
    Statement {
        sql: String::from_str("INSERT INTO person (name, data, age) VALUES (?1, ?2, ?3)"),
        values,
    }
}

/// The statement that lists every person of the table of the demonstration.
pub fn list() -> (sql: String)
    ensures
        sql@ == "SELECT id, name, data, age FROM person"@,
{
    String::from_str("SELECT id, name, data, age FROM person")
}

/// A run of rows to insert: `count` rows that follow row `offset` of `table`.
#[derive(Debug, Clone, Copy, PartialEq, Eq, Structural)]
pub struct InsertBatch {
    /// The table that the rows go to.
    pub table: Table,
    /// The number of the row before the first.
    pub offset: u64,
    /// How many rows the run has.
    pub count: u64,
}

impl InsertBatch {
    /// The statement that inserts one row of the run.
    pub fn statement(&self) -> (sql: String)
        ensures
            sql@ == statement_sql(self.table, Operation::InsertMany),
    {
        statement(self.table, Operation::InsertMany)
    }

    /// The values of row `index` of the run.
    pub fn row(&self, index: u64) -> (values: Vec<Parameter>)
        requires
            index < self.count,
            self.offset + self.count <= u64::MAX,
        ensures
            parameter_views(values@) == row_values(
                self.table,
                row_id(self.offset as nat, index as nat),
            ),
    {
        row(self.table, self.offset, index)
    }
}

/// The run of rows that fills the `Person` table with its first `count`
/// persons.
pub fn add_persons(count: u64) -> (batch: InsertBatch)
    ensures
        batch == (InsertBatch { table: Table::Person, offset: 0, count }),
{
    InsertBatch { table: Table::Person, offset: 0, count }
}

} // verus!
