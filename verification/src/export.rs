use crate::replies::{Failure, Fetched, Packet};
use vstd::prelude::*;
use vstd::string::StringExecFns;
use vstd::utf8::encode_utf8;

verus! {

/// The fields of one line of the file.
pub type Line = (Seq<char>, Seq<char>, Seq<char>);

/// Whether a field has to stand between quotation marks.
pub open spec fn needs_quotes(field: Seq<char>) -> bool {
    exists|i: int|
        0 <= i < field.len() && (#[trigger] field[i] == ',' || field[i] == '"' || field[i] == '\n'
            || field[i] == '\r')
}

/// A text with every quotation mark doubled.
pub open spec fn doubled_quotes(s: Seq<char>) -> Seq<char>
    decreases s.len(),
{
    if s.len() == 0 {
        Seq::empty()
    } else if s[0] == '"' {
        seq!['"', '"'] + doubled_quotes(s.skip(1))
    } else {
        seq![s[0]] + doubled_quotes(s.skip(1))
    }
}

/// A field as it stands in the file.
pub open spec fn csv_field(field: Seq<char>) -> Seq<char> {
    if needs_quotes(field) {
        seq!['"'] + doubled_quotes(field) + seq!['"']
    } else {
        field
    }
}

/// A line as it stands in the file.
pub open spec fn csv_line(line: Line) -> Seq<char> {
    csv_field(line.0) + seq![','] + csv_field(line.1) + seq![','] + csv_field(line.2) + seq!['\n']
}

/// All lines as they stand in the file.
pub open spec fn csv_text(lines: Seq<Line>) -> Seq<char>
    decreases lines.len(),
{
    if lines.len() == 0 {
        Seq::empty()
    } else {
        csv_line(lines[0]) + csv_text(lines.skip(1))
    }
}

#[verifier::external_type_specification]
#[verifier::external_body]
pub struct ExCsvError(csv::Error);

/// A `csv::Writer` into memory, with the settings of `csv::WriterBuilder::new`.
/// Only lines of three fields are written to it.
#[verifier::external_body]
pub struct Sheet {
    writer: csv::Writer<Vec<u8>>,
}

/// The lines that were written to a sheet.
pub uninterp spec fn sheet_lines(sheet: Sheet) -> Seq<Line>;

impl Sheet {
    /// Calls `csv::WriterBuilder::from_writer`. Trusted: nothing is written yet.
    #[verifier::external_body]
    fn new() -> (sheet: Sheet)
        ensures
            sheet_lines(sheet) == Seq::<Line>::empty(),
    {
        Sheet { writer: csv::WriterBuilder::new().from_writer(Vec::new()) }
    }

    /// Calls `csv::Writer::write_record`. Trusted: it succeeds, since writing to
    /// memory cannot fail and all lines have equally many fields, and the line
    /// comes behind those written before.
    #[verifier::external_body]
    fn write_line(&mut self, a: &str, b: &str, c: &str) -> (r: Result<(), csv::Error>)
        ensures
            r is Ok,
            sheet_lines(*final(self)) == sheet_lines(*old(self)).push((a@, b@, c@)),
    {
        self.writer.write_record([a, b, c])
    }

    /// Calls `csv::Writer::into_inner`. Trusted: flushing into memory succeeds,
    /// and the bytes are the lines, separated by commas, ended by line feeds and
    /// quoted where it is needed, in UTF-8.
    #[verifier::external_body]
    fn into_bytes(self) -> (r: Result<Vec<u8>, ()>)
        ensures
            r is Ok,
            r->Ok_0@ == encode_utf8(csv_text(sheet_lines(self))),
    {
        match self.writer.into_inner() {
            Ok(bytes) => Ok(bytes),
            Err(_) => Err(()),
        }
    }
}

/// The first line of the file.
pub open spec fn header_line() -> Line {
    ("Zaman"@, "Barkod"@, "Durum"@)
}

/// The lines of the file for `packets`.
pub open spec fn export_lines(packets: Seq<Packet>) -> Seq<Line> {
    seq![header_line()] + packets.map_values(|p: Packet| p@)
}

/// Writes the CSV file of `packets`: a header, then a line for each of them.
pub fn csv_bytes(packets: &Vec<Packet>) -> (r: Result<Vec<u8>, ()>)
    ensures
        r matches Ok(bytes) && bytes@ == encode_utf8(csv_text(export_lines(packets@))),
{
    let mut sheet = Sheet::new();
    sheet.write_line("Zaman", "Barkod", "Durum").unwrap();
    assert(sheet_lines(sheet) =~= export_lines(packets@.take(0)));
    let n: usize = packets.len();
    for i in 0..n
        invariant
            n == packets@.len(),
            sheet_lines(sheet) == export_lines(packets@.take(i as int)),
    {
        let p: &Packet = &packets[i];
        sheet.write_line(p.timestamp.as_str(), p.barcode.as_str(), p.status.as_str()).unwrap();
        assert(packets@.take(i + 1) =~= packets@.take(i as int).push(packets@[i as int]));
        assert(sheet_lines(sheet) =~= export_lines(packets@.take(i + 1)));
    }
    assert(packets@.take(n as int) =~= packets@);
    sheet.into_bytes()
}

/// The media type of the file.
pub const CSV_CONTENT_TYPE: &'static str = "text/csv";

/// An answer that carries a file.
#[derive(Debug)]
pub struct CsvFile {
    /// The value of the `Content-Disposition` header.
    pub disposition: String,
    /// The bytes of the file.
    pub body: Vec<u8>,
}

/// The name of the file that was written at `stamp`.
pub open spec fn file_name_text(stamp: Seq<char>) -> Seq<char> {
    "data_"@ + stamp + ".csv"@
}

/// The header that names the file.
pub open spec fn disposition_text(file_name: Seq<char>) -> Seq<char> {
    "attachment; filename=\""@ + file_name + "\""@
}

/// The name of the file that was written at `stamp`.
pub fn file_name(stamp: &str) -> (s: String)
    ensures
        s@ == file_name_text(stamp@),
        s@ == "data_"@ + stamp@ + ".csv"@,
{
    let mut s = String::from_str("data_");
    s.append(stamp);
    s.append(".csv");
    s
}

/// The header that names the file.
pub fn disposition(file_name: &str) -> (s: String)
    ensures
        s@ == disposition_text(file_name@),
        s@ == "attachment; filename=\""@ + file_name@ + "\""@,
{
    let mut s = String::from_str("attachment; filename=\"");
    s.append(file_name);
    s.append("\"");
    s
}

/// The answer to a request for the file, once its bytes are written at
/// `stamp`, or could not be written.
pub fn file_reply(bytes: Result<Vec<u8>, ()>, stamp: &str) -> (r: Result<CsvFile, Failure>)
    ensures
        match bytes {
            Ok(body) => r matches Ok(file) && file.body@ == body@ && file.disposition@
                == disposition_text(file_name_text(stamp@)),
            Err(_) => r == Err::<CsvFile, Failure>(Failure::Csv),
        },
        r matches Ok(file) ==> file.disposition@ == "attachment; filename=\""@ + ("data_"@ + stamp@
            + ".csv"@) + "\""@,
{
    match bytes {
        Ok(body) => {
            let name = file_name(stamp);
            Ok(CsvFile { disposition: disposition(name.as_str()), body })
        },
        Err(_) => Err(Failure::Csv),
    }
}

/// The answer to a request for the file of all packets, written at `stamp`.
pub fn export_csv(fetched: Fetched<Packet>, stamp: &str) -> (r: Result<CsvFile, Failure>)
    ensures
        match fetched {
            Fetched::Rows(packets) => r matches Ok(file) && file.body@ == encode_utf8(
                csv_text(export_lines(packets@)),
            ) && file.disposition@ == disposition_text(file_name_text(stamp@)),
            _ => r == Err::<CsvFile, Failure>(Failure::Database),
        },
        r matches Ok(file) ==> file.disposition@ == "attachment; filename=\""@ + ("data_"@ + stamp@
            + ".csv"@) + "\""@,
{
    match fetched {
        Fetched::Rows(packets) => file_reply(csv_bytes(&packets), stamp),
        _ => Err(Failure::Database),
    }
}

} // verus!
