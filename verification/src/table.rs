use crate::text::{
    decimal_string, decimal_text, law_decimal_text_is_injective, law_decimal_text_names_its_number,
    names_number, same_text,
};
use vstd::prelude::*;

verus! {

/// The file that holds the database.
pub const DATABASE_FILE: &'static str = "testbench.db";

/// Creates the table of packets, unless it is there.
pub const CREATE_TABLE: &'static str =
    "CREATE TABLE IF NOT EXISTS packets (
            id INTEGER PRIMARY KEY AUTOINCREMENT,
            timestamp TEXT NOT NULL,
            barcode TEXT NOT NULL,
            status TEXT NOT NULL
        )";

/// Switches the journal to write-ahead logging, and answers with the mode
/// that is then in force.
pub const SET_JOURNAL_MODE: &'static str = "PRAGMA journal_mode=WAL;";

/// Adds a row.
pub const INSERT_PACKET: &'static str =
    "INSERT INTO packets (timestamp, barcode, status) VALUES (?1, ?2, ?3)";

/// Finds the latest row of a barcode whose test is under way.
pub const FIND_TEST: &'static str =
    "SELECT id FROM packets WHERE barcode = ?1 AND status = 'TEST' ORDER BY id DESC LIMIT 1";

/// Changes the timestamp and the status of a row.
pub const UPDATE_PACKET: &'static str =
    "UPDATE packets SET timestamp = ?1, status = ?2 WHERE id = ?3";

/// Removes all rows.
pub const DELETE_PACKETS: &'static str = "DELETE FROM packets";

/// Reads all rows.
pub const LIST_PACKETS: &'static str = "SELECT timestamp, barcode, status FROM packets";

/// Counts the rows of each status.
pub const COUNT_STATUSES: &'static str = "SELECT status, COUNT(*) FROM packets GROUP BY status";

/// A statement for the database, with the texts that are bound to its
/// parameters.
#[derive(Debug)]
pub struct Statement {
    pub sql: &'static str,
    pub params: Vec<String>,
}

/// What a statement holds.
pub struct StatementView {
    pub sql: Seq<char>,
    pub params: Seq<Seq<char>>,
}

impl View for Statement {
    type V = StatementView;

    open spec fn view(&self) -> StatementView {
        StatementView { sql: self.sql@, params: self.params@.map_values(|p: String| p@) }
    }
}

/// The statement that adds a row.
pub open spec fn insert_statement(
    timestamp: Seq<char>,
    barcode: Seq<char>,
    status: Seq<char>,
) -> StatementView {
    StatementView { sql: INSERT_PACKET@, params: seq![timestamp, barcode, status] }
}

/// The statement that finds the latest row of a barcode under test.
pub open spec fn find_statement(barcode: Seq<char>) -> StatementView {
    StatementView { sql: FIND_TEST@, params: seq![barcode] }
}

/// The statement that changes the row with number `id`.
pub open spec fn update_statement(
    timestamp: Seq<char>,
    status: Seq<char>,
    id: int,
) -> StatementView {
    StatementView { sql: UPDATE_PACKET@, params: seq![timestamp, status, decimal_text(id)] }
}

/// The statement that removes all rows.
pub open spec fn clear_statement() -> StatementView {
    StatementView { sql: DELETE_PACKETS@, params: Seq::empty() }
}

/// The statement that saves a packet as a new row.
pub fn save_packet(timestamp: &str, barcode: &str, status: &str) -> (s: Statement)
    ensures
        s@ == insert_statement(timestamp@, barcode@, status@),
        s.sql@ == "INSERT INTO packets (timestamp, barcode, status) VALUES (?1, ?2, ?3)"@,
        s.params@.len() == 3,
        s.params@[0]@ == timestamp@,
        s.params@[1]@ == barcode@,
        s.params@[2]@ == status@,
{
    let mut params: Vec<String> = Vec::new();
    params.push(timestamp.to_owned());
    params.push(barcode.to_owned());
    params.push(status.to_owned());
    let s = Statement { sql: INSERT_PACKET, params };
    assert(s@.params =~= seq![timestamp@, barcode@, status@]);
    s
}

/// The statement that empties the table.
pub fn clear_database() -> (s: Statement)
    ensures
        s@ == clear_statement(),
        s.sql@ == "DELETE FROM packets"@,
        s.params@.len() == 0,
{
    let params: Vec<String> = Vec::new();
    let s = Statement { sql: DELETE_PACKETS, params };
    assert(s@.params =~= Seq::empty());
    s
}

/// What came of a search for a row.
#[derive(Debug, Clone, Copy, PartialEq, Eq, Structural)]
pub enum Lookup {
    /// The database reported an error.
    Failed,
    /// There is no such row.
    Missing,
    /// The number of the row.
    Found(i64),
}

/// The database reported an error.
#[derive(Debug, Clone, Copy, PartialEq, Eq, Structural)]
pub struct DatabaseFailed;

/// What to do next for an update.
#[derive(Debug)]
pub enum UpdateStep {
    /// Run this statement.
    Execute(Statement),
    /// The update is over: whether a row was changed, or that an error ended it.
    Finished(Result<bool, DatabaseFailed>),
}

/// The search with which an update begins.
pub fn update_packet(barcode: &str) -> (s: Statement)
    ensures
        s@ == find_statement(barcode@),
        s.sql@
            == "SELECT id FROM packets WHERE barcode = ?1 AND status = 'TEST' ORDER BY id DESC LIMIT 1"@,
        s.params@.len() == 1,
        s.params@[0]@ == barcode@,
{
    let mut params: Vec<String> = Vec::new();
    params.push(barcode.to_owned());
    let s = Statement { sql: FIND_TEST, params };
    assert(s@.params =~= seq![barcode@]);
    s
}

/// Goes on with an update once the search is over.
pub fn update_after_lookup(lookup: Lookup, timestamp: &str, status: &str) -> (step: UpdateStep)
    ensures
        match lookup {
            Lookup::Failed => step == UpdateStep::Finished(Err(DatabaseFailed)),
            Lookup::Missing => step == UpdateStep::Finished(Ok(false)),
            Lookup::Found(id) => step matches UpdateStep::Execute(s) && s@ == update_statement(
                timestamp@,
                status@,
                id as int,
            ),
        },
        step matches UpdateStep::Execute(s) ==> {
            &&& s.sql@ == "UPDATE packets SET timestamp = ?1, status = ?2 WHERE id = ?3"@
            &&& s.params@.len() == 3
            &&& s.params@[0]@ == timestamp@
            &&& s.params@[1]@ == status@
            &&& lookup matches Lookup::Found(id) && names_number(s.params@[2]@, id as int)
        },
{
    match lookup {
        Lookup::Failed => UpdateStep::Finished(Err(DatabaseFailed)),
        Lookup::Missing => UpdateStep::Finished(Ok(false)),
        Lookup::Found(id) => {
            let mut params: Vec<String> = Vec::new();
            params.push(timestamp.to_owned());
            params.push(status.to_owned());
            params.push(decimal_string(id));
            let s = Statement { sql: UPDATE_PACKET, params };
            assert(s@.params =~= seq![timestamp@, status@, decimal_text(id as int)]);
            UpdateStep::Execute(s)
        },
    }
}

/// Ends an update whose statement was run.
pub fn update_after_execute(succeeded: bool) -> (r: Result<bool, DatabaseFailed>)
    ensures
        succeeded ==> r == Ok::<bool, DatabaseFailed>(true),
        !succeeded ==> r == Err::<bool, DatabaseFailed>(DatabaseFailed),
{
    if succeeded {
        Ok(true)
    } else {
        Err(DatabaseFailed)
    }
}

/// Whether the journal mode that the database reports is write-ahead logging.
pub fn is_wal(journal_mode: &str) -> (r: bool)
    ensures
        r == (journal_mode@ == "wal"@),
{
    same_text(journal_mode, "wal")
}

/// Two statements that change a row are the same only if they name the same row
/// and give it the same timestamp and status.
pub proof fn law_update_names_one_row(
    timestamp: Seq<char>,
    status: Seq<char>,
    id: int,
    other_timestamp: Seq<char>,
    other_status: Seq<char>,
    other_id: int,
)
    requires
        update_statement(timestamp, status, id) == update_statement(
            other_timestamp,
            other_status,
            other_id,
        ),
    ensures
        id == other_id,
        timestamp == other_timestamp,
        status == other_status,
{
    let a = update_statement(timestamp, status, id).params;
    let b = update_statement(other_timestamp, other_status, other_id).params;
    assert(a[0] == b[0] && a[1] == b[1] && a[2] == b[2]);
    law_decimal_text_is_injective(id, other_id);
}

/// The statement that adds a row binds the timestamp first, the barcode second
/// and the status third, and nothing else.
pub proof fn law_insert_binds_each_column(
    timestamp: Seq<char>,
    barcode: Seq<char>,
    status: Seq<char>,
)
    ensures
        ({
            let s = insert_statement(timestamp, barcode, status);
            &&& s.sql == "INSERT INTO packets (timestamp, barcode, status) VALUES (?1, ?2, ?3)"@
            &&& s.params.len() == 3
            &&& s.params[0] == timestamp
            &&& s.params[1] == barcode
            &&& s.params[2] == status
        }),
{
}

/// The statement that changes a row binds the timestamp first, the status
/// second, and third the number of that row, in decimal; and nothing else.
pub proof fn law_update_names_its_row(timestamp: Seq<char>, status: Seq<char>, id: int)
    ensures
        ({
            let s = update_statement(timestamp, status, id);
            &&& s.sql == "UPDATE packets SET timestamp = ?1, status = ?2 WHERE id = ?3"@
            &&& s.params.len() == 3
            &&& s.params[0] == timestamp
            &&& s.params[1] == status
            &&& names_number(s.params[2], id)
        }),
{
    law_decimal_text_names_its_number(id);
}

/// The search for a test binds the barcode and nothing else, and emptying the
/// table binds nothing.
pub proof fn law_find_and_clear_bind(barcode: Seq<char>)
    ensures
        find_statement(barcode).sql
            == "SELECT id FROM packets WHERE barcode = ?1 AND status = 'TEST' ORDER BY id DESC LIMIT 1"@,
        find_statement(barcode).params.len() == 1,
        find_statement(barcode).params[0] == barcode,
        clear_statement().sql == "DELETE FROM packets"@,
        clear_statement().params.len() == 0,
{
}

/// The queries behind the list and the report, and what opens the database, are
/// these texts.
pub proof fn law_query_texts()
    ensures
        DATABASE_FILE@ == "testbench.db"@,
        CREATE_TABLE@
            == "CREATE TABLE IF NOT EXISTS packets (
            id INTEGER PRIMARY KEY AUTOINCREMENT,
            timestamp TEXT NOT NULL,
            barcode TEXT NOT NULL,
            status TEXT NOT NULL
        )"@,
        SET_JOURNAL_MODE@ == "PRAGMA journal_mode=WAL;"@,
        LIST_PACKETS@ == "SELECT timestamp, barcode, status FROM packets"@,
        COUNT_STATUSES@ == "SELECT status, COUNT(*) FROM packets GROUP BY status"@,
{
}

/// What is known of a statement is its text and its parameters, each at its
/// place.
pub proof fn law_statement_view(s: Statement)
    ensures
        s@.sql == s.sql@,
        s@.params.len() == s.params@.len(),
        forall|i: int| 0 <= i < s.params@.len() ==> s@.params[i] == (#[trigger] s.params@[i])@,
{
}

} // verus!
