use crate::text::same_text;
use vstd::prelude::*;

verus! {

/// A row of the table of packets.
#[derive(Debug)]
pub struct Packet {
    pub timestamp: String,
    pub barcode: String,
    pub status: String,
}

impl View for Packet {
    type V = (Seq<char>, Seq<char>, Seq<char>);

    /// Timestamp, barcode and status.
    open spec fn view(&self) -> (Seq<char>, Seq<char>, Seq<char>) {
        (self.timestamp@, self.barcode@, self.status@)
    }
}

/// What a query gave.
#[derive(Debug)]
pub enum Fetched<R> {
    /// The database could not be opened.
    OpenFailed,
    /// The statement could not be prepared.
    PrepareFailed,
    /// The query could not be run.
    QueryFailed,
    /// The rows, in the order in which they came.
    Rows(Vec<R>),
}

/// Why a request cannot be answered.
#[derive(Debug, Clone, Copy, PartialEq, Eq, Structural)]
pub enum Failure {
    Database,
    Csv,
}

impl Failure {
    /// The HTTP status of the answer.
    pub fn status(self) -> (code: u16)
        ensures
            code == 500,
    {
        500
    }

    /// The body of the answer.
    pub fn body(self) -> (s: &'static str)
        ensures
            self == Failure::Database ==> s@ == "Database error"@,
            self == Failure::Csv ==> s@ == "CSV error"@,
    {
        match self {
            Failure::Database => "Database error",
            Failure::Csv => "CSV error",
        }
    }
}

/// The packets of rows that could all be read; none if one could not.
pub open spec fn readable_packets(rows: Seq<Option<Packet>>) -> Seq<
    (Seq<char>, Seq<char>, Seq<char>),
> {
    if forall|i: int| 0 <= i < rows.len() ==> #[trigger] rows[i] is Some {
        rows.map_values(|row: Option<Packet>| row->0@)
    } else {
        Seq::empty()
    }
}

/// The packets to list. A row is `None` where it could not be read; then
/// nothing is listed.
pub fn get_packets(fetched: Fetched<Option<Packet>>) -> (r: Result<Vec<Packet>, Failure>)
    ensures
        match fetched {
            Fetched::Rows(rows) => r matches Ok(packets) && packets@.map_values(|p: Packet| p@)
                == readable_packets(rows@),
            _ => r == Err::<Vec<Packet>, Failure>(Failure::Database),
        },
        fetched is Rows ==> r is Ok,
        fetched matches Fetched::Rows(rows) ==> {
            &&& (forall|i: int| 0 <= i < rows@.len() ==> #[trigger] rows@[i] is Some) ==> {
                &&& r->Ok_0@.len() == rows@.len()
                &&& forall|i: int|
                    0 <= i < rows@.len() ==> {
                        &&& (#[trigger] r->Ok_0@[i]).timestamp@ == rows@[i]->0.timestamp@
                        &&& r->Ok_0@[i].barcode@ == rows@[i]->0.barcode@
                        &&& r->Ok_0@[i].status@ == rows@[i]->0.status@
                    }
            }
            &&& (exists|i: int| 0 <= i < rows@.len() && #[trigger] rows@[i] is None)
                ==> r->Ok_0@.len() == 0
        },
{
    let rows = match fetched {
        Fetched::Rows(rows) => rows,
        _ => return Err(Failure::Database),
    };
    let ghost all = rows@;
    let mut packets: Vec<Packet> = Vec::new();
    for row in it: rows
        invariant
            fetched is Rows,
            fetched->Rows_0@ == all,
            it.seq() == all,
            packets@.len() == it.index(),
            forall|i: int| 0 <= i < it.index() ==> #[trigger] all[i] is Some,
            forall|i: int| 0 <= i < it.index() ==> (#[trigger] packets@[i]) == all[i]->0,
    {
        assert(row == all[it.index() as int]);
        match row {
            Some(packet) => packets.push(packet),
            None => {
                let none: Vec<Packet> = Vec::new();
                assert(!(all[it.index() as int] is Some));
                assert(none@.map_values(|p: Packet| p@) =~= readable_packets(all));
                return Ok(none);
            },
        }
    }
    assert(packets@.map_values(|p: Packet| p@) =~= readable_packets(all));
    Ok(packets)
}

/// How many packets passed and failed, and both together.
#[derive(Debug, Clone, Copy, PartialEq, Eq, Structural)]
pub struct Report {
    pub ok_count: i64,
    pub fail_count: i64,
    pub total: i64,
}

/// The number in the last row with the word; zero if there is none.
pub open spec fn count_of(rows: Seq<(String, i64)>, word: Seq<char>) -> i64
    decreases rows.len(),
{
    if rows.len() == 0 {
        0
    } else if rows.last().0@ == word {
        rows.last().1
    } else {
        count_of(rows.drop_last(), word)
    }
}

/// The counts of the two results among `rows` of a status and a number.
pub fn tally(rows: &Vec<(String, i64)>) -> (r: (i64, i64))
    ensures
        r.0 == count_of(rows@, "OK"@),
        r.1 == count_of(rows@, "HATA"@),
        is_count(rows@, "OK"@, r.0),
        is_count(rows@, "HATA"@, r.1),
{
    proof {
        law_count_is_that_of_the_last_row(rows@, "OK"@);
        law_count_is_that_of_the_last_row(rows@, "HATA"@);
    }
    let mut ok_count: i64 = 0;
    let mut fail_count: i64 = 0;
    let n: usize = rows.len();
    proof {
        reveal_strlit("OK");
        reveal_strlit("HATA");
        assert("OK"@.len() != "HATA"@.len());
        assert(rows@.take(0) =~= Seq::empty());
    }
    for i in 0..n
        invariant
            n == rows@.len(),
            "OK"@ != "HATA"@,
            ok_count == count_of(rows@.take(i as int), "OK"@),
            fail_count == count_of(rows@.take(i as int), "HATA"@),
    {
        assert(rows@.take(i + 1).drop_last() =~= rows@.take(i as int));
        let status: &str = rows[i].0.as_str();
        let count: i64 = rows[i].1;
        if same_text(status, "OK") {
            ok_count = count;
        } else if same_text(status, "HATA") {
            fail_count = count;
        }
    }
    assert(rows@.take(n as int) =~= rows@);
    (ok_count, fail_count)
}

/// The report on the rows of a status and a number. The two counts together
/// must fit their type.
pub fn get_report(fetched: Fetched<(String, i64)>) -> (r: Result<Report, Failure>)
    requires
        fetched matches Fetched::Rows(rows) ==> i64::MIN <= count_of(rows@, "OK"@) + count_of(
            rows@,
            "HATA"@,
        ) <= i64::MAX,
    ensures
        match fetched {
            Fetched::Rows(rows) => r matches Ok(report) && report.ok_count == count_of(
                rows@,
                "OK"@,
            ) && report.fail_count == count_of(rows@, "HATA"@) && report.total == report.ok_count
                + report.fail_count,
            _ => r == Err::<Report, Failure>(Failure::Database),
        },
        fetched matches Fetched::Rows(rows) ==> is_count(rows@, "OK"@, r->Ok_0.ok_count)
            && is_count(rows@, "HATA"@, r->Ok_0.fail_count),
{
    match fetched {
        Fetched::Rows(rows) => {
            let (ok_count, fail_count) = tally(&rows);
            Ok(Report { ok_count, fail_count, total: ok_count + fail_count })
        },
        _ => Err(Failure::Database),
    }
}

/// The statuses of the rows are all different.
pub open spec fn distinct_statuses(rows: Seq<(String, i64)>) -> bool {
    forall|i: int, j: int|
        0 <= i < j < rows.len() ==> (#[trigger] rows[i]).0@ != (#[trigger] rows[j]).0@
}

/// Where every status has one row, as a query that groups by status gives
/// them, the order of the rows does not matter: a status counts as its row
/// says, and as zero without a row.
pub proof fn law_count_is_that_of_its_row(rows: Seq<(String, i64)>, word: Seq<char>, i: int)
    requires
        distinct_statuses(rows),
    ensures
        0 <= i < rows.len() && rows[i].0@ == word ==> count_of(rows, word) == rows[i].1,
        (forall|j: int| 0 <= j < rows.len() ==> (#[trigger] rows[j]).0@ != word) ==> count_of(
            rows,
            word,
        ) == 0,
    decreases rows.len(),
{
    if rows.len() > 0 {
        let front = rows.drop_last();
        assert forall|a: int, b: int| 0 <= a < b < front.len() implies (#[trigger] front[a]).0@ != (
        #[trigger] front[b]).0@ by {
            assert(rows[a].0@ != rows[b].0@);
        }
        law_count_is_that_of_its_row(front, word, i);
        let last = rows.len() - 1;
        if 0 <= i < last && rows[i].0@ == word {
            assert(rows[i].0@ != rows[last].0@);
            assert(front[i] == rows[i]);
        }
        if forall|j: int| 0 <= j < rows.len() ==> (#[trigger] rows[j]).0@ != word {
            assert forall|j: int| 0 <= j < front.len() implies (#[trigger] front[j]).0@ != word by {
                assert(front[j] == rows[j]);
            }
        }
    }
}

/// A row with another status changes no count.
pub proof fn law_other_rows_do_not_count(
    rows: Seq<(String, i64)>,
    row: (String, i64),
    word: Seq<char>,
)
    requires
        row.0@ != word,
    ensures
        count_of(rows.push(row), word) == count_of(rows, word),
{
    assert(rows.push(row).drop_last() =~= rows);
}

/// `n` is the number in a row with the word behind which no other row has it,
/// or zero if no row has it.
pub open spec fn is_count(rows: Seq<(String, i64)>, word: Seq<char>, n: i64) -> bool {
    ||| n == 0 && forall|j: int| 0 <= j < rows.len() ==> (#[trigger] rows[j]).0@ != word
    ||| exists|i: int|
        0 <= i < rows.len() && (#[trigger] rows[i]).0@ == word && rows[i].1 == n && forall|j: int|
            i < j < rows.len() ==> (#[trigger] rows[j]).0@ != word
}

/// A status counts as the last of its rows says, and as zero without a row.
pub proof fn law_count_is_that_of_the_last_row(rows: Seq<(String, i64)>, word: Seq<char>)
    ensures
        is_count(rows, word, count_of(rows, word)),
    decreases rows.len(),
{
    if rows.len() > 0 {
        let front = rows.drop_last();
        let last = rows.len() - 1;
        let n = count_of(rows, word);
        if rows[last].0@ != word {
            law_count_is_that_of_the_last_row(front, word);
            if forall|j: int| 0 <= j < front.len() ==> (#[trigger] front[j]).0@ != word {
                assert forall|j: int| 0 <= j < rows.len() implies (#[trigger] rows[j]).0@
                    != word by {
                    if j < last {
                        assert(front[j] == rows[j]);
                    }
                }
                assert(n == 0) by {
                    if n != 0 {
                        let i = choose|i: int|
                            0 <= i < front.len() && (#[trigger] front[i]).0@ == word && front[i].1
                                == n;
                        assert(front[i].0@ != word);
                    }
                }
            } else {
                let i = choose|i: int|
                    0 <= i < front.len() && (#[trigger] front[i]).0@ == word && front[i].1 == n
                        && forall|j: int|
                        i < j < front.len() ==> (#[trigger] front[j]).0@ != word;
                assert(rows[i] == front[i]);
                assert forall|j: int| i < j < rows.len() implies (#[trigger] rows[j]).0@ != word by {
                    if j < last {
                        assert(front[j] == rows[j]);
                    }
                }
            }
        }
    }
}

/// Where every row could be read, the list has as many packets as there are
/// rows, and each has the timestamp, the barcode and the status of its row;
/// where one could not, the list is empty.
pub proof fn law_every_row_is_listed(rows: Seq<Option<Packet>>)
    ensures
        (forall|i: int| 0 <= i < rows.len() ==> #[trigger] rows[i] is Some) ==> {
            &&& readable_packets(rows).len() == rows.len()
            &&& forall|i: int|
                0 <= i < rows.len() ==> {
                    &&& (#[trigger] readable_packets(rows)[i]).0 == rows[i]->0.timestamp@
                    &&& readable_packets(rows)[i].1 == rows[i]->0.barcode@
                    &&& readable_packets(rows)[i].2 == rows[i]->0.status@
                }
        },
        (exists|i: int| 0 <= i < rows.len() && #[trigger] rows[i] is None) ==> readable_packets(
            rows,
        ).len() == 0,
{
}

/// A row that is added to a table whose rows can all be read is listed last,
/// behind what was listed before.
pub proof fn law_new_row_is_listed_last(rows: Seq<Option<Packet>>, row: Packet)
    requires
        forall|i: int| 0 <= i < rows.len() ==> #[trigger] rows[i] is Some,
    ensures
        readable_packets(rows.push(Some(row))) == readable_packets(rows).push(
            (row.timestamp@, row.barcode@, row.status@),
        ),
{
    let more = rows.push(Some(row));
    assert forall|i: int| 0 <= i < more.len() implies #[trigger] more[i] is Some by {
        if i < rows.len() {
            assert(more[i] == rows[i]);
        }
    }
    assert(readable_packets(more) =~= readable_packets(rows).push(
        (row.timestamp@, row.barcode@, row.status@),
    ));
}

} // verus!
