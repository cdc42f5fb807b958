use rusqlite::{params_from_iter, Connection};
use testbench::job::{Action, PacketJob, Reply, BARCODE_KEY, BARCODE_KEY_CLEAR};
use testbench::packet::packet_barcode;
use testbench::table::{
    clear_database, is_wal, save_packet, update_after_execute, update_after_lookup, update_packet,
    DatabaseFailed, Lookup, Statement, UpdateStep, COUNT_STATUSES, CREATE_TABLE, DELETE_PACKETS,
    FIND_TEST, INSERT_PACKET, LIST_PACKETS, SET_JOURNAL_MODE, UPDATE_PACKET,
};

fn wire(barcode: [u8; 6], status: u8) -> Vec<u8> {
    let mut p = vec![0x5A, 0xA5];
    p.extend_from_slice(&barcode);
    p.extend_from_slice(&[0, 0, 0, 0, status]);
    p
}

struct Script {
    cleared: bool,
    lookup: Lookup,
    updated: bool,
    saved: bool,
}

const SMOOTH: Script = Script { cleared: true, lookup: Lookup::Missing, updated: true, saved: true };

fn line(name: &str, s: &Statement) -> String {
    format!("{} {} {:?}", name, s.sql, s.params)
}

/// Runs a packet and writes down what was done.
fn run(packet: &[u8], script: &Script) -> Vec<String> {
    let mut job = PacketJob::start(packet).unwrap();
    let mut log = Vec::new();
    loop {
        let reply = match job.action() {
            Action::Finish => {
                assert!(!job.is_expecting(&Reply::Sent));
                return log;
            }
            Action::Send(m) => {
                log.push(format!("send {}", m));
                Reply::Sent
            }
            Action::Execute(s) => {
                log.push(line("execute", &s));
                Reply::Executed(if s.sql == DELETE_PACKETS {
                    script.cleared
                } else if s.sql == UPDATE_PACKET {
                    script.updated
                } else {
                    script.saved
                })
            }
            Action::Find(s) => {
                log.push(line("find", &s));
                Reply::Found(script.lookup)
            }
            Action::ReadClock => {
                log.push("clock".to_string());
                Reply::Clock("T".to_string())
            }
        };
        assert!(job.is_expecting(&reply));
        job.advance(reply);
    }
}

const B: [u8; 6] = [0xAA, 0, 0, 0, 0, 1];

fn insert(status: &str) -> String {
    format!("execute {} [\"T\", \"AA0000000001\", \"{}\"]", INSERT_PACKET, status)
}

fn announce(status: &str) -> String {
    format!("send {{\"timestamp\": \"T\", \"barcode\": \"AA0000000001\", \"status\": \"{}\"}}", status)
}

fn search() -> String {
    format!("find {} [\"AA0000000001\"]", FIND_TEST)
}

#[test]
fn a_test_packet_is_saved() {
    let found = Script { lookup: Lookup::Found(4), ..SMOOTH };
    assert_eq!(
        run(&wire(B, 4), &found),
        vec!["clock".to_string(), insert("TEST"), announce("TEST")]
    );
}

#[test]
fn a_result_updates_its_test() {
    let found = Script { lookup: Lookup::Found(42), ..SMOOTH };
    assert_eq!(
        run(&wire(B, 2), &found),
        vec![
            "clock".to_string(),
            search(),
            format!("execute {} [\"T\", \"OK\", \"42\"]", UPDATE_PACKET),
            "send {\"action\": \"update\", \"barcode\": \"AA0000000001\", \"timestamp\": \"T\", \"status\": \"OK\"}"
                .to_string(),
        ]
    );
}

#[test]
fn a_result_without_a_test_is_saved() {
    for lookup in [Lookup::Missing, Lookup::Failed] {
        let script = Script { lookup, ..SMOOTH };
        assert_eq!(
            run(&wire(B, 3), &script),
            vec!["clock".to_string(), search(), insert("HATA"), announce("HATA")]
        );
    }
}

#[test]
fn a_result_whose_update_fails_is_saved() {
    let script = Script { lookup: Lookup::Found(1), updated: false, saved: false, ..SMOOTH };
    assert_eq!(
        run(&wire(B, 3), &script),
        vec![
            "clock".to_string(),
            search(),
            format!("execute {} [\"T\", \"HATA\", \"1\"]", UPDATE_PACKET),
            insert("HATA"),
            announce("HATA"),
        ]
    );
}

#[test]
fn other_statuses_are_passed_over() {
    assert!(PacketJob::start(&wire(B, 0)).is_none());
    assert!(PacketJob::start(&wire(B, 5)).is_none());
    assert!(PacketJob::start(&wire(B, 2)[..12]).is_none());
}

#[test]
fn the_export_key_signals_and_is_recorded() {
    let packet = wire([1, 2, 3, 4, 5, 7], 4);
    assert_eq!(packet_barcode(&packet), BARCODE_KEY);
    let log = run(&packet, &SMOOTH);
    assert_eq!(log.len(), 4);
    assert_eq!(log[0], "send {\"action\": \"export_csv\"}");
    assert_eq!(log[1], "clock");
}

#[test]
fn the_clear_key_clears_and_is_recorded() {
    let packet = wire([1, 2, 3, 4, 5, 8], 2);
    assert_eq!(packet_barcode(&packet), BARCODE_KEY_CLEAR);
    let log = run(&packet, &SMOOTH);
    assert_eq!(log.len(), 6);
    assert_eq!(log[0], format!("execute {} []", DELETE_PACKETS));
    assert_eq!(log[1], "send {\"action\": \"clear_database\"}");
    assert_eq!(log[2], "clock");
    let failing = Script { cleared: false, ..SMOOTH };
    let log = run(&packet, &failing);
    assert_eq!(log.len(), 5);
    assert_eq!(log[0], format!("execute {} []", DELETE_PACKETS));
    assert_eq!(log[1], "clock");
}

#[test]
fn a_packet_needs_seven_actions_at_most() {
    let script = Script { lookup: Lookup::Found(1), updated: false, ..SMOOTH };
    assert_eq!(run(&wire([1, 2, 3, 4, 5, 8], 2), &script).len(), 7);
}

#[test]
fn barcodes_next_to_the_keys_signal_nothing() {
    assert_eq!(run(&wire([1, 2, 3, 4, 5, 6], 4), &SMOOTH)[0], "clock");
    assert_eq!(run(&wire([1, 2, 3, 4, 5, 9], 4), &SMOOTH)[0], "clock");
}

#[test]
fn only_the_reply_to_the_action_is_expected() {
    let job = PacketJob::start(&wire(B, 2)).unwrap();
    assert!(job.is_expecting(&Reply::Clock(String::new())));
    assert!(!job.is_expecting(&Reply::Sent));
    assert!(!job.is_expecting(&Reply::Executed(true)));
    assert!(!job.is_expecting(&Reply::Found(Lookup::Missing)));
}

#[test]
fn statements_carry_their_texts() {
    let s = save_packet("t", "b", "s");
    assert_eq!((s.sql, s.params), (INSERT_PACKET, vec!["t".to_string(), "b".to_string(), "s".to_string()]));
    let s = update_packet("b");
    assert_eq!((s.sql, s.params), (FIND_TEST, vec!["b".to_string()]));
    let s = clear_database();
    assert_eq!((s.sql, s.params), (DELETE_PACKETS, vec![]));
}

#[test]
fn an_update_ends_as_its_steps_do() {
    assert!(matches!(
        update_after_lookup(Lookup::Failed, "t", "s"),
        UpdateStep::Finished(Err(DatabaseFailed))
    ));
    assert!(matches!(
        update_after_lookup(Lookup::Missing, "t", "s"),
        UpdateStep::Finished(Ok(false))
    ));
    match update_after_lookup(Lookup::Found(-5), "t", "s") {
        UpdateStep::Execute(s) => {
            assert_eq!(s.sql, UPDATE_PACKET);
            assert_eq!(s.params, vec!["t".to_string(), "s".to_string(), "-5".to_string()]);
        }
        other => panic!("{:?}", other),
    }
    assert_eq!(update_after_execute(true), Ok(true));
    assert_eq!(update_after_execute(false), Err(DatabaseFailed));
}

#[test]
fn only_wal_is_wal() {
    assert!(is_wal("wal"));
    assert!(!is_wal("delete"));
    assert!(!is_wal("WAL"));
    assert!(!is_wal(""));
}

/// Runs a packet on a database.
fn run_on(db: &Connection, packet: &[u8], clock: &str) -> Vec<String> {
    let mut job = PacketJob::start(packet).unwrap();
    let mut sent = Vec::new();
    loop {
        let reply = match job.action() {
            Action::Finish => return sent,
            Action::Send(m) => {
                sent.push(m);
                Reply::Sent
            }
            Action::Execute(s) => {
                Reply::Executed(db.execute(s.sql, params_from_iter(s.params.iter())).is_ok())
            }
            Action::Find(s) => {
                let mut stmt = db.prepare(s.sql).unwrap();
                let mut rows = stmt.query(params_from_iter(s.params.iter())).unwrap();
                Reply::Found(match rows.next().unwrap() {
                    Some(row) => Lookup::Found(row.get(0).unwrap()),
                    None => Lookup::Missing,
                })
            }
            Action::ReadClock => Reply::Clock(clock.to_string()),
        };
        job.advance(reply);
    }
}

fn rows(db: &Connection) -> Vec<(String, String, String)> {
    let mut stmt = db.prepare(LIST_PACKETS).unwrap();
    let found = stmt
        .query_map([], |r| Ok((r.get(0)?, r.get(1)?, r.get(2)?)))
        .unwrap()
        .map(|r| r.unwrap())
        .collect();
    found
}

fn row(t: &str, b: &str, s: &str) -> (String, String, String) {
    (t.to_string(), b.to_string(), s.to_string())
}

#[test]
fn packets_fill_a_database() {
    let db = Connection::open_in_memory().unwrap();
    db.execute(CREATE_TABLE, []).unwrap();
    db.execute(CREATE_TABLE, []).unwrap();
    let _mode: String = db.query_row(SET_JOURNAL_MODE, [], |r| r.get(0)).unwrap();

    run_on(&db, &wire(B, 4), "T1");
    run_on(&db, &wire([2; 6], 4), "T2");
    run_on(&db, &wire(B, 4), "T3");
    let sent = run_on(&db, &wire(B, 3), "T4");
    assert_eq!(sent.len(), 1);
    assert!(sent[0].starts_with("{\"action\": \"update\""));
    assert_eq!(
        rows(&db),
        vec![
            row("T1", "AA0000000001", "TEST"),
            row("T2", "020202020202", "TEST"),
            row("T4", "AA0000000001", "HATA"),
        ]
    );

    run_on(&db, &wire(B, 2), "T5");
    run_on(&db, &wire(B, 2), "T6");
    assert_eq!(
        rows(&db),
        vec![
            row("T5", "AA0000000001", "OK"),
            row("T2", "020202020202", "TEST"),
            row("T4", "AA0000000001", "HATA"),
            row("T6", "AA0000000001", "OK"),
        ]
    );

    let mut stmt = db.prepare(COUNT_STATUSES).unwrap();
    let mut counts: Vec<(String, i64)> =
        stmt.query_map([], |r| Ok((r.get(0)?, r.get(1)?))).unwrap().map(|r| r.unwrap()).collect();
    counts.sort();
    assert_eq!(
        counts,
        vec![("HATA".to_string(), 1), ("OK".to_string(), 2), ("TEST".to_string(), 1)]
    );

    run_on(&db, &wire([1, 2, 3, 4, 5, 8], 4), "T7");
    assert_eq!(rows(&db), vec![row("T7", "010203040508", "TEST")]);
}
