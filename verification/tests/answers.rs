use testbench::export::{
    csv_bytes, disposition, export_csv, file_name, file_reply, CSV_CONTENT_TYPE,
};
use testbench::replies::{get_packets, get_report, tally, Failure, Fetched, Packet, Report};

fn packet(timestamp: &str, barcode: &str, status: &str) -> Packet {
    Packet {
        timestamp: timestamp.to_string(),
        barcode: barcode.to_string(),
        status: status.to_string(),
    }
}

fn fields(p: &Packet) -> (&str, &str, &str) {
    (p.timestamp.as_str(), p.barcode.as_str(), p.status.as_str())
}

#[test]
fn failures_have_their_answers() {
    assert_eq!(Failure::Database.status(), 500);
    assert_eq!(Failure::Database.body(), "Database error");
    assert_eq!(Failure::Csv.status(), 500);
    assert_eq!(Failure::Csv.body(), "CSV error");
}

#[test]
fn packets_are_listed_in_order() {
    let rows = vec![Some(packet("t1", "b1", "OK")), Some(packet("t2", "b2", "TEST"))];
    let packets = get_packets(Fetched::Rows(rows)).unwrap();
    assert_eq!(packets.len(), 2);
    assert_eq!(fields(&packets[0]), ("t1", "b1", "OK"));
    assert_eq!(fields(&packets[1]), ("t2", "b2", "TEST"));
}

#[test]
fn one_unreadable_row_empties_the_list() {
    let rows = vec![Some(packet("t1", "b1", "OK")), None, Some(packet("t2", "b2", "TEST"))];
    assert_eq!(get_packets(Fetched::Rows(rows)).unwrap().len(), 0);
    assert_eq!(get_packets(Fetched::Rows(vec![])).unwrap().len(), 0);
}

#[test]
fn a_list_needs_the_database() {
    assert_eq!(get_packets(Fetched::OpenFailed).unwrap_err(), Failure::Database);
    assert_eq!(get_packets(Fetched::PrepareFailed).unwrap_err(), Failure::Database);
    assert_eq!(get_packets(Fetched::QueryFailed).unwrap_err(), Failure::Database);
}

fn counts(rows: &[(&str, i64)]) -> Vec<(String, i64)> {
    rows.iter().map(|r| (r.0.to_string(), r.1)).collect()
}

#[test]
fn a_report_counts_both_results() {
    let rows = counts(&[("HATA", 3), ("OK", 5), ("TEST", 7)]);
    assert_eq!(tally(&rows), (5, 3));
    assert_eq!(
        get_report(Fetched::Rows(rows)),
        Ok(Report { ok_count: 5, fail_count: 3, total: 8 })
    );
}

#[test]
fn a_report_ignores_the_order_of_the_rows() {
    let a = get_report(Fetched::Rows(counts(&[("HATA", 3), ("OK", 5), ("TEST", 7)])));
    let b = get_report(Fetched::Rows(counts(&[("TEST", 7), ("OK", 5), ("HATA", 3)])));
    assert_eq!(a, b);
}

#[test]
fn the_last_row_of_a_status_counts() {
    assert_eq!(tally(&counts(&[("OK", 1), ("OK", 2), ("ok", 9)])), (2, 0));
}

#[test]
fn a_report_without_rows_is_zero() {
    assert_eq!(
        get_report(Fetched::Rows(vec![])),
        Ok(Report { ok_count: 0, fail_count: 0, total: 0 })
    );
    assert_eq!(get_report(Fetched::OpenFailed), Err(Failure::Database));
    assert_eq!(get_report(Fetched::PrepareFailed), Err(Failure::Database));
    assert_eq!(get_report(Fetched::QueryFailed), Err(Failure::Database));
}

#[test]
fn a_file_has_a_header_and_a_line_for_each_packet() {
    let rows = vec![
        packet("2024-01-02 03:04:05", "0A0B0C0D0E0F", "OK"),
        packet("2024-01-02 03:04:06", "010203040506", "HATA"),
    ];
    let file = export_csv(Fetched::Rows(rows), "2024-01-02_03-04-07").unwrap();
    assert_eq!(
        String::from_utf8(file.body).unwrap(),
        "Zaman,Barkod,Durum\n2024-01-02 03:04:05,0A0B0C0D0E0F,OK\n2024-01-02 03:04:06,010203040506,HATA\n"
    );
    assert_eq!(file.disposition, "attachment; filename=\"data_2024-01-02_03-04-07.csv\"");
    assert_eq!(CSV_CONTENT_TYPE, "text/csv");
}

#[test]
fn an_empty_table_gives_the_header() {
    assert_eq!(csv_bytes(&vec![]).unwrap(), b"Zaman,Barkod,Durum\n".to_vec());
}

#[test]
fn fields_are_quoted_where_they_need_it() {
    let rows = vec![
        packet("a,b", "say \"hi\"", "x\ny"),
        packet("", "", ""),
        packet("\"", "c\rd", "çığ"),
    ];
    assert_eq!(
        String::from_utf8(csv_bytes(&rows).unwrap()).unwrap(),
        "Zaman,Barkod,Durum\n\"a,b\",\"say \"\"hi\"\"\",\"x\ny\"\n,,\n\"\"\"\",\"c\rd\",çığ\n"
    );
}

#[test]
fn exported_lines_can_be_read_back() {
    let long = "long \"field\", ".repeat(2000);
    let rows = vec![packet("a,b", "say \"hi\"", "x\ny"), packet("", &long, "çığ")];
    let bytes = csv_bytes(&rows).unwrap();
    let mut reader = csv::Reader::from_reader(&bytes[..]);
    let read: Vec<csv::StringRecord> = reader.records().map(|r| r.unwrap()).collect();
    assert_eq!(read.len(), 2);
    for i in 0..2 {
        assert_eq!((&read[i][0], &read[i][1], &read[i][2]), fields(&rows[i]));
    }
}

#[test]
fn files_of_different_packets_differ() {
    let a = csv_bytes(&vec![packet("a,b", "c", "d")]).unwrap();
    let b = csv_bytes(&vec![packet("a", "b,c", "d")]).unwrap();
    assert_ne!(a, b);
}

#[test]
fn a_file_needs_the_database_and_its_bytes() {
    assert_eq!(export_csv(Fetched::OpenFailed, "x").unwrap_err(), Failure::Database);
    assert_eq!(export_csv(Fetched::PrepareFailed, "x").unwrap_err(), Failure::Database);
    assert_eq!(export_csv(Fetched::QueryFailed, "x").unwrap_err(), Failure::Database);
    assert_eq!(file_reply(Err(()), "x").unwrap_err(), Failure::Csv);
    let file = file_reply(Ok(vec![1, 2]), "x").unwrap();
    assert_eq!(file.body, vec![1, 2]);
    assert_eq!(file.disposition, "attachment; filename=\"data_x.csv\"");
}

#[test]
fn files_are_named_by_their_second() {
    assert_eq!(file_name("2024-01-02_03-04-07"), "data_2024-01-02_03-04-07.csv");
    assert_eq!(disposition("a.csv"), "attachment; filename=\"a.csv\"");
}
