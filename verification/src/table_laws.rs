use crate::job::{first_phase, ActionView, JobView, Phase, BARCODE_KEY, BARCODE_KEY_CLEAR};
use crate::job_laws::{
    closing_actions, law_packet_is_dealt_with_in_order, law_special_barcodes, run, signal_actions,
    update_actions, Answers,
};
use crate::messages::{
    clear_message_text, export_message_text, json_object, law_messages_are_json_objects,
};
use crate::packet::{barcode_of, law_status_is_byte_twelve, law_status_words, status_of};
use crate::table::{
    clear_statement, find_statement, insert_statement, law_find_and_clear_bind,
    law_insert_binds_each_column, law_update_names_its_row, update_statement, Lookup, StatementView,
};
use crate::text::names_number;
use vstd::prelude::*;

verus! {

/// A row of the table of packets.
pub struct TableRow {
    pub id: int,
    pub timestamp: Seq<char>,
    pub barcode: Seq<char>,
    pub status: Seq<char>,
}

/// What a statement makes of the table, by what its text says: it adds a row
/// under a new number, changes the rows with a number, or removes all rows.
pub open spec fn after_statement(table: Seq<TableRow>, s: StatementView, new_id: int) -> Seq<
    TableRow,
> {
    if s.sql == "INSERT INTO packets (timestamp, barcode, status) VALUES (?1, ?2, ?3)"@ {
        table.push(
            TableRow {
                id: new_id,
                timestamp: s.params[0],
                barcode: s.params[1],
                status: s.params[2],
            },
        )
    } else if s.sql == "UPDATE packets SET timestamp = ?1, status = ?2 WHERE id = ?3"@ {
        table.map_values(
            |row: TableRow|
                if names_number(s.params[2], row.id) {
                    TableRow { timestamp: s.params[0], status: s.params[1], ..row }
                } else {
                    row
                },
        )
    } else if s.sql == "DELETE FROM packets"@ {
        Seq::empty()
    } else {
        table
    }
}

/// What actions make of the table, if all their statements succeed.
pub open spec fn after_actions(table: Seq<TableRow>, actions: Seq<ActionView>, new_id: int) -> Seq<
    TableRow,
>
    decreases actions.len(),
{
    if actions.len() == 0 {
        table
    } else {
        let before = after_actions(table, actions.drop_last(), new_id);
        match actions.last() {
            ActionView::Execute(s) => after_statement(before, s, new_id),
            _ => before,
        }
    }
}

proof fn lemma_after_more(
    table: Seq<TableRow>,
    actions: Seq<ActionView>,
    more: Seq<ActionView>,
    new_id: int,
)
    ensures
        after_actions(table, actions + more, new_id) == after_actions(
            after_actions(table, actions, new_id),
            more,
            new_id,
        ),
    decreases more.len(),
{
    if more.len() == 0 {
        assert(actions + more =~= actions);
    } else {
        lemma_after_more(table, actions, more.drop_last(), new_id);
        assert((actions + more).drop_last() =~= actions + more.drop_last());
        assert((actions + more).last() == more.last());
    }
}

proof fn lemma_after_one(table: Seq<TableRow>, action: ActionView, new_id: int)
    ensures
        after_actions(table, seq![action], new_id) == match action {
            ActionView::Execute(s) => after_statement(table, s, new_id),
            _ => table,
        },
{
    assert(seq![action].drop_last() =~= Seq::empty());
    assert(after_actions(table, seq![action].drop_last(), new_id) == table);
}

proof fn lemma_after_two(
    table: Seq<TableRow>,
    first: ActionView,
    second: ActionView,
    new_id: int,
)
    ensures
        after_actions(table, seq![first, second], new_id) == after_actions(
            after_actions(table, seq![first], new_id),
            seq![second],
            new_id,
        ),
{
    lemma_after_more(table, seq![first], seq![second], new_id);
    assert(seq![first] + seq![second] =~= seq![first, second]);
}

proof fn lemma_statements_differ()
    ensures
        "INSERT INTO packets (timestamp, barcode, status) VALUES (?1, ?2, ?3)"@
            != "UPDATE packets SET timestamp = ?1, status = ?2 WHERE id = ?3"@,
        "INSERT INTO packets (timestamp, barcode, status) VALUES (?1, ?2, ?3)"@
            != "DELETE FROM packets"@,
        "UPDATE packets SET timestamp = ?1, status = ?2 WHERE id = ?3"@ != "DELETE FROM packets"@,
{
    reveal_strlit("INSERT INTO packets (timestamp, barcode, status) VALUES (?1, ?2, ?3)");
    reveal_strlit("UPDATE packets SET timestamp = ?1, status = ?2 WHERE id = ?3");
    reveal_strlit("DELETE FROM packets");
    assert("INSERT INTO packets (timestamp, barcode, status) VALUES (?1, ?2, ?3)"@[0] == 'I');
    assert("UPDATE packets SET timestamp = ?1, status = ?2 WHERE id = ?3"@[0] == 'U');
    assert("DELETE FROM packets"@[0] == 'D');
}

proof fn lemma_one_number(s: Seq<char>, a: int, b: int)
    requires
        names_number(s, a),
        names_number(s, b),
    ensures
        a == b,
{
    if a < 0 && b >= 0 {
        assert('0' <= s[0] <= '9');
    }
    if b < 0 && a >= 0 {
        assert('0' <= s[0] <= '9');
    }
}

/// Without the barcode that empties the table, the signals leave the table as
/// it is.
proof fn lemma_signals_keep_the_table(
    packet: Seq<u8>,
    cleared: bool,
    table: Seq<TableRow>,
    new_id: int,
)
    requires
        packet.len() >= 13,
        packet.subrange(2, 8) != seq![1u8, 2, 3, 4, 5, 8],
    ensures
        after_actions(table, signal_actions(barcode_of(packet), cleared), new_id) == table,
{
    law_special_barcodes(packet);
    let barcode = barcode_of(packet);
    let actions = signal_actions(barcode, cleared);
    if barcode == BARCODE_KEY@ {
        lemma_after_one(table, actions[0], new_id);
        assert(actions =~= seq![actions[0]]);
    } else {
        assert(first_phase(barcode) != Phase::Clear);
        assert(actions =~= Seq::empty());
    }
}

/// The table after all that is done for a packet, part by part.
proof fn lemma_after_run(packet: Seq<u8>, answers: Answers, table: Seq<TableRow>, new_id: int)
    ensures
        after_actions(table, run(JobView::start(packet), answers), new_id) == ({
            let (status, barcode) = (status_of(packet), barcode_of(packet));
            let signalled = after_actions(table, signal_actions(barcode, answers.cleared), new_id);
            let updated = after_actions(
                signalled,
                update_actions(status, barcode, answers),
                new_id,
            );
            after_actions(updated, closing_actions(status, barcode, answers), new_id)
        }),
{
    law_packet_is_dealt_with_in_order(packet, answers);
    let (status, barcode) = (status_of(packet), barcode_of(packet));
    let a = signal_actions(barcode, answers.cleared);
    let b = seq![ActionView::ReadClock];
    let c = update_actions(status, barcode, answers);
    let d = closing_actions(status, barcode, answers);
    lemma_after_more(table, a + b + c, d, new_id);
    lemma_after_more(table, a + b, c, new_id);
    lemma_after_more(table, a, b, new_id);
    lemma_after_one(after_actions(table, a, new_id), ActionView::ReadClock, new_id);
}

/// The word that stands for the status byte of a packet.
pub open spec fn result_word(byte: u8) -> Seq<char> {
    if byte == 0x02 {
        "OK"@
    } else if byte == 0x03 {
        "HATA"@
    } else {
        "TEST"@
    }
}

proof fn lemma_result_word(packet: Seq<u8>)
    requires
        packet.len() >= 13,
        packet[12] == 0x02 || packet[12] == 0x03 || packet[12] == 0x04,
    ensures
        status_of(packet).word() == result_word(packet[12]),
        status_of(packet).known(),
        status_of(packet).concludes() <==> packet[12] != 0x04,
{
    law_status_is_byte_twelve(packet);
    law_status_words(status_of(packet), status_of(packet));
}

/// What adding a row does to the table, followed by any message.
proof fn lemma_after_insert(
    table: Seq<TableRow>,
    timestamp: Seq<char>,
    barcode: Seq<char>,
    word: Seq<char>,
    message: Seq<char>,
    new_id: int,
)
    ensures
        after_actions(
            table,
            seq![
                ActionView::Execute(insert_statement(timestamp, barcode, word)),
                ActionView::Send(message),
            ],
            new_id,
        ) == table.push(TableRow { id: new_id, timestamp, barcode, status: word }),
{
    let insert = ActionView::Execute(insert_statement(timestamp, barcode, word));
    let send = ActionView::Send(message);
    law_insert_binds_each_column(timestamp, barcode, word);
    lemma_after_two(table, insert, send, new_id);
    lemma_after_one(table, insert, new_id);
    lemma_after_one(after_actions(table, seq![insert], new_id), send, new_id);
}

/// Searching leaves the table as it is.
proof fn lemma_search_keeps_the_table(table: Seq<TableRow>, barcode: Seq<char>, new_id: int)
    ensures
        after_actions(table, seq![ActionView::Find(find_statement(barcode))], new_id) == table,
{
    lemma_after_one(table, ActionView::Find(find_statement(barcode)), new_id);
}

/// A result changes exactly the row that the search for its test found: that
/// row gets the timestamp of the clock and the word of the status byte, it keeps
/// its number and its barcode, and every other row stays as it is.
pub proof fn law_result_changes_the_found_row(
    packet: Seq<u8>,
    answers: Answers,
    table: Seq<TableRow>,
    new_id: int,
    i: int,
)
    requires
        packet.len() >= 13,
        packet[12] == 0x02 || packet[12] == 0x03,
        packet.subrange(2, 8) != seq![1u8, 2, 3, 4, 5, 8],
        0 <= i < table.len(),
        forall|j: int| 0 <= j < table.len() && j != i ==> (#[trigger] table[j]).id != table[i].id,
        answers.lookup matches Lookup::Found(id) && id as int == table[i].id,
        answers.updated,
    ensures
        ({
            let after = after_actions(table, run(JobView::start(packet), answers), new_id);
            &&& after.len() == table.len()
            &&& after[i].id == table[i].id
            &&& after[i].barcode == table[i].barcode
            &&& after[i].timestamp == answers.timestamp
            &&& packet[12] == 0x02 ==> after[i].status == "OK"@
            &&& packet[12] == 0x03 ==> after[i].status == "HATA"@
            &&& forall|j: int| 0 <= j < table.len() && j != i ==> #[trigger] after[j] == table[j]
        }),
{
    lemma_after_run(packet, answers, table, new_id);
    lemma_signals_keep_the_table(packet, answers.cleared, table, new_id);
    lemma_result_word(packet);
    lemma_statements_differ();
    let (status, barcode) = (status_of(packet), barcode_of(packet));
    let word = status.word();
    let id = table[i].id;
    let s = update_statement(answers.timestamp, word, id);
    law_update_names_its_row(answers.timestamp, word, id);
    let find = ActionView::Find(find_statement(barcode));
    let update = ActionView::Execute(s);
    assert(update_actions(status, barcode, answers) =~= seq![find, update]);
    lemma_after_two(table, find, update, new_id);
    lemma_search_keeps_the_table(table, barcode, new_id);
    lemma_after_one(table, update, new_id);
    let after = after_statement(table, s, new_id);
    let closing = closing_actions(status, barcode, answers);
    assert(closing =~= seq![closing[0]]);
    lemma_after_one(after, closing[0], new_id);
    assert forall|j: int| 0 <= j < table.len() && j != i implies #[trigger] after[j]
        == table[j] by {
        if names_number(s.params[2], table[j].id) {
            lemma_one_number(s.params[2], table[j].id, id);
        }
    }
}

/// A packet that begins a test, or a result whose test is not found, becomes one
/// new row at the end of the table: with the timestamp of the clock, the barcode
/// of the packet and the word of its status byte. All rows before it stay as
/// they are.
pub proof fn law_other_packets_become_a_row(
    packet: Seq<u8>,
    answers: Answers,
    table: Seq<TableRow>,
    new_id: int,
)
    requires
        packet.len() >= 13,
        packet[12] == 0x02 || packet[12] == 0x03 || packet[12] == 0x04,
        packet.subrange(2, 8) != seq![1u8, 2, 3, 4, 5, 8],
        packet[12] == 0x04 || !(answers.lookup is Found),
    ensures
        ({
            let after = after_actions(table, run(JobView::start(packet), answers), new_id);
            &&& after.len() == table.len() + 1
            &&& forall|j: int| 0 <= j < table.len() ==> #[trigger] after[j] == table[j]
            &&& after.last().id == new_id
            &&& after.last().timestamp == answers.timestamp
            &&& after.last().barcode == barcode_of(packet)
            &&& packet[12] == 0x02 ==> after.last().status == "OK"@
            &&& packet[12] == 0x03 ==> after.last().status == "HATA"@
            &&& packet[12] == 0x04 ==> after.last().status == "TEST"@
        }),
{
    lemma_after_run(packet, answers, table, new_id);
    lemma_signals_keep_the_table(packet, answers.cleared, table, new_id);
    lemma_result_word(packet);
    lemma_after_closing(packet, answers, table, new_id);
}

/// The table after the part behind the signals, for a packet that becomes a row.
proof fn lemma_after_closing(
    packet: Seq<u8>,
    answers: Answers,
    table: Seq<TableRow>,
    new_id: int,
)
    requires
        packet.len() >= 13,
        packet[12] == 0x02 || packet[12] == 0x03 || packet[12] == 0x04,
        packet[12] == 0x04 || !(answers.lookup is Found),
    ensures
        ({
            let (status, barcode) = (status_of(packet), barcode_of(packet));
            let updated = after_actions(table, update_actions(status, barcode, answers), new_id);
            after_actions(updated, closing_actions(status, barcode, answers), new_id) == table.push(
                TableRow {
                    id: new_id,
                    timestamp: answers.timestamp,
                    barcode,
                    status: result_word(packet[12]),
                },
            )
        }),
{
    lemma_result_word(packet);
    let (status, barcode) = (status_of(packet), barcode_of(packet));
    let word = status.word();
    let searching = update_actions(status, barcode, answers);
    if packet[12] == 0x04 {
        assert(searching =~= Seq::empty());
    } else {
        assert(searching =~= seq![ActionView::Find(find_statement(barcode))]);
        lemma_search_keeps_the_table(table, barcode, new_id);
    }
    let closing = closing_actions(status, barcode, answers);
    let message = closing[1]->Send_0;
    assert(closing =~= seq![
        ActionView::Execute(insert_statement(answers.timestamp, barcode, word)),
        ActionView::Send(message),
    ]);
    lemma_after_insert(table, answers.timestamp, barcode, word, message, new_id);
}

/// The barcode that empties the table leaves its own packet as the only row.
pub proof fn law_clear_packet_is_the_only_row(
    packet: Seq<u8>,
    answers: Answers,
    table: Seq<TableRow>,
    new_id: int,
)
    requires
        packet.len() >= 13,
        packet[12] == 0x02 || packet[12] == 0x03 || packet[12] == 0x04,
        packet.subrange(2, 8) == seq![1u8, 2, 3, 4, 5, 8],
        answers.cleared,
        packet[12] == 0x04 || !(answers.lookup is Found),
    ensures
        ({
            let after = after_actions(table, run(JobView::start(packet), answers), new_id);
            &&& after.len() == 1
            &&& after[0].timestamp == answers.timestamp
            &&& after[0].barcode == "010203040508"@
            &&& packet[12] == 0x02 ==> after[0].status == "OK"@
            &&& packet[12] == 0x03 ==> after[0].status == "HATA"@
            &&& packet[12] == 0x04 ==> after[0].status == "TEST"@
        }),
{
    lemma_after_run(packet, answers, table, new_id);
    lemma_result_word(packet);
    lemma_statements_differ();
    law_special_barcodes(packet);
    let barcode = barcode_of(packet);
    assert(barcode == BARCODE_KEY_CLEAR@);
    law_find_and_clear_bind(barcode);
    let signals = signal_actions(barcode, true);
    assert(signals =~= seq![ActionView::Execute(clear_statement()), signals[1]]);
    lemma_after_two(table, signals[0], signals[1], new_id);
    lemma_after_one(table, signals[0], new_id);
    let empty = Seq::<TableRow>::empty();
    lemma_after_one(empty, signals[1], new_id);
    lemma_after_closing(packet, answers, empty, new_id);
}

/// The last thing that is done for a packet is to announce it. A changed row is
/// announced as an update, a new one as a row; both tell the barcode, the
/// timestamp of the clock and the word of the status byte.
pub proof fn law_announcement_tells_what_happened(packet: Seq<u8>, answers: Answers)
    requires
        packet.len() >= 13,
        packet[12] == 0x02 || packet[12] == 0x03 || packet[12] == 0x04,
    ensures
        ({
            let last = run(JobView::start(packet), answers).last();
            let word = result_word(packet[12]);
            if packet[12] != 0x04 && answers.lookup is Found && answers.updated {
                last == ActionView::Send(
                    json_object(
                        seq![
                            ("action"@, "update"@),
                            ("barcode"@, barcode_of(packet)),
                            ("timestamp"@, answers.timestamp),
                            ("status"@, word),
                        ],
                    ),
                )
            } else {
                last == ActionView::Send(
                    json_object(
                        seq![
                            ("timestamp"@, answers.timestamp),
                            ("barcode"@, barcode_of(packet)),
                            ("status"@, word),
                        ],
                    ),
                )
            }
        }),
{
    law_packet_is_dealt_with_in_order(packet, answers);
    lemma_result_word(packet);
    law_messages_are_json_objects(
        answers.timestamp,
        barcode_of(packet),
        result_word(packet[12]),
    );
}

/// The action adds a row with these three texts.
pub open spec fn adds_row(
    action: ActionView,
    timestamp: Seq<char>,
    barcode: Seq<char>,
    word: Seq<char>,
) -> bool {
    action matches ActionView::Execute(s) && {
        &&& s.sql == "INSERT INTO packets (timestamp, barcode, status) VALUES (?1, ?2, ?3)"@
        &&& s.params.len() == 3
        &&& s.params[0] == timestamp
        &&& s.params[1] == barcode
        &&& s.params[2] == word
    }
}

/// The action gives the row with number `id` these two texts.
pub open spec fn changes_row(
    action: ActionView,
    timestamp: Seq<char>,
    word: Seq<char>,
    id: int,
) -> bool {
    action matches ActionView::Execute(s) && {
        &&& s.sql == "UPDATE packets SET timestamp = ?1, status = ?2 WHERE id = ?3"@
        &&& s.params.len() == 3
        &&& s.params[0] == timestamp
        &&& s.params[1] == word
        &&& names_number(s.params[2], id)
    }
}

/// The action searches the latest test of a barcode.
pub open spec fn searches_test(action: ActionView, barcode: Seq<char>) -> bool {
    action matches ActionView::Find(s) && {
        &&& s.sql
            == "SELECT id FROM packets WHERE barcode = ?1 AND status = 'TEST' ORDER BY id DESC LIMIT 1"@
        &&& s.params.len() == 1
        &&& s.params[0] == barcode
    }
}

/// How many actions come before the clock is read: one for the barcode that asks
/// for the file, two for the one that empties the table, or one if that fails,
/// and none for any other.
pub open spec fn actions_before_clock(packet: Seq<u8>, cleared: bool) -> int {
    if packet.subrange(2, 8) == seq![1u8, 2, 3, 4, 5, 7] {
        1
    } else if packet.subrange(2, 8) == seq![1u8, 2, 3, 4, 5, 8] {
        if cleared {
            2
        } else {
            1
        }
    } else {
        0
    }
}

/// The signals of a packet, by its barcode bytes: one barcode sends the request
/// for the file, one removes all rows and, if that succeeded, sends the notice of
/// it. Then the clock is read.
pub proof fn law_signals_by_bytes(packet: Seq<u8>, answers: Answers)
    requires
        packet.len() >= 13,
    ensures
        ({
            let actions = run(JobView::start(packet), answers);
            let k = actions_before_clock(packet, answers.cleared);
            &&& actions.len() > k
            &&& actions[k] == ActionView::ReadClock
            &&& packet.subrange(2, 8) == seq![1u8, 2, 3, 4, 5, 7] ==> actions[0]
                == ActionView::Send("{\"action\": \"export_csv\"}"@)
            &&& packet.subrange(2, 8) == seq![1u8, 2, 3, 4, 5, 8] ==> {
                &&& actions[0] matches ActionView::Execute(s) && s.sql == "DELETE FROM packets"@
                    && s.params.len() == 0
                &&& answers.cleared ==> actions[1] == ActionView::Send(
                    "{\"action\": \"clear_database\"}"@,
                )
            }
        }),
{
    lemma_clock_position(packet, answers);
    law_packet_is_dealt_with_in_order(packet, answers);
    law_find_and_clear_bind(barcode_of(packet));
    law_special_barcodes(packet);
    lemma_signal_texts();
    let export = seq![1u8, 2, 3, 4, 5, 7];
    let clear = seq![1u8, 2, 3, 4, 5, 8];
    assert(export[5] != clear[5]);
}

proof fn lemma_signal_texts()
    ensures
        export_message_text() == "{\"action\": \"export_csv\"}"@,
        clear_message_text() == "{\"action\": \"clear_database\"}"@,
        BARCODE_KEY@ != BARCODE_KEY_CLEAR@,
{
    reveal_strlit("010203040507");
    reveal_strlit("010203040508");
    assert("010203040507"@[11] != "010203040508"@[11]);
}

proof fn lemma_clock_position(packet: Seq<u8>, answers: Answers)
    requires
        packet.len() >= 8,
    ensures
        signal_actions(barcode_of(packet), answers.cleared).len() == actions_before_clock(
            packet,
            answers.cleared,
        ),
{
    law_special_barcodes(packet);
    lemma_signal_texts();
}

/// What is done for a packet once the clock is read, one by one, by its status
/// byte and what the database answers. A TEST packet is added and announced. A
/// result is searched; if its test is found, the found row is changed; if that
/// succeeded, the change is announced; in all other cases the result is added
/// and announced.
pub proof fn law_actions_one_by_one(packet: Seq<u8>, answers: Answers)
    requires
        packet.len() >= 13,
        packet[12] == 0x02 || packet[12] == 0x03 || packet[12] == 0x04,
    ensures
        ({
            let actions = run(JobView::start(packet), answers);
            let k = actions_before_clock(packet, answers.cleared);
            let (t, b, w) = (answers.timestamp, barcode_of(packet), result_word(packet[12]));
            if packet[12] == 0x04 {
                &&& actions.len() == k + 3
                &&& adds_row(actions[k + 1], t, b, w)
                &&& actions[k + 2] is Send
            } else {
                &&& searches_test(actions[k + 1], b)
                &&& match answers.lookup {
                    Lookup::Found(id) => {
                        &&& changes_row(actions[k + 2], t, w, id as int)
                        &&& answers.updated ==> actions.len() == k + 4 && actions[k + 3] is Send
                        &&& !answers.updated ==> actions.len() == k + 5 && adds_row(
                            actions[k + 3],
                            t,
                            b,
                            w,
                        ) && actions[k + 4] is Send
                    },
                    _ => {
                        &&& actions.len() == k + 4
                        &&& adds_row(actions[k + 2], t, b, w)
                        &&& actions[k + 3] is Send
                    },
                }
            }
        }),
{
    law_packet_is_dealt_with_in_order(packet, answers);
    lemma_clock_position(packet, answers);
    lemma_result_word(packet);
    let (t, b, w) = (answers.timestamp, barcode_of(packet), result_word(packet[12]));
    law_insert_binds_each_column(t, b, w);
    law_find_and_clear_bind(b);
    if let Lookup::Found(id) = answers.lookup {
        law_update_names_its_row(t, w, id as int);
    }
}

} // verus!
