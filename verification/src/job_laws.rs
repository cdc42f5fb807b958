use crate::clock::{shows, CLOCK_FORMAT};
use crate::clock_laws::{law_clock_stamps_tell_seconds_apart, law_timestamps_are_plain};
use crate::job::{
    first_phase, Action, ActionView, JobView, Phase, Reply, ReplyView, BARCODE_KEY,
    BARCODE_KEY_CLEAR,
};
use crate::messages::{
    clear_message_text, export_message_text, law_packet_message_keeps_its_fields,
    packet_message_text, plain, update_message_text,
};
use crate::packet::{barcode_of, status_of, Status};
use crate::table::{
    clear_statement, find_statement, insert_statement, update_statement, Lookup,
};
use crate::text::{hex_byte, hex_text, is_hex_char, law_hex_text_is_hex, law_hex_text_is_injective};
use vstd::prelude::*;

verus! {

/// What comes of the actions for one packet: whether emptying the table
/// succeeds, what the clock shows, what the search finds, and whether
/// changing and adding a row succeed.
pub struct Answers {
    pub cleared: bool,
    pub timestamp: Seq<char>,
    pub lookup: Lookup,
    pub updated: bool,
    pub saved: bool,
}

impl Answers {
    /// The reply to what has to be done next for `job`.
    pub open spec fn reply(self, job: JobView) -> ReplyView {
        match job.phase {
            Phase::Clear => ReplyView::Executed(self.cleared),
            Phase::Clock => ReplyView::Clock(self.timestamp),
            Phase::Search => ReplyView::Found(self.lookup),
            Phase::Update(_) => ReplyView::Executed(self.updated),
            Phase::Save => ReplyView::Executed(self.saved),
            _ => ReplyView::Sent,
        }
    }

    /// Whether a packet with this status changes the row of its test: it is a
    /// result, the search finds a row, and changing it succeeds.
    pub open spec fn concluded(self, status: Status) -> bool {
        status.concludes() && self.lookup is Found && self.updated
    }
}

/// How many actions a packet can need at most.
pub open spec fn actions_left(phase: Phase) -> nat {
    match phase {
        Phase::Clear => 7,
        Phase::ExportSignal => 6,
        Phase::ClearSignal => 6,
        Phase::Clock => 5,
        Phase::Search => 4,
        Phase::Update(_) => 3,
        Phase::Save => 2,
        Phase::Announce(_) => 1,
        Phase::Done => 0,
    }
}

/// All that is done for a packet from `job` on, in order.
pub open spec fn run(job: JobView, answers: Answers) -> Seq<ActionView>
    decreases actions_left(job.phase),
{
    if job.phase == Phase::Done {
        Seq::empty()
    } else {
        seq![job.action()] + run(job.after(answers.reply(job)), answers)
    }
}

/// What the two special barcodes have done before anything else.
pub open spec fn signal_actions(barcode: Seq<char>, cleared: bool) -> Seq<ActionView> {
    if barcode == BARCODE_KEY@ {
        seq![ActionView::Send(export_message_text())]
    } else if barcode == BARCODE_KEY_CLEAR@ {
        if cleared {
            seq![
                ActionView::Execute(clear_statement()),
                ActionView::Send(clear_message_text()),
            ]
        } else {
            seq![ActionView::Execute(clear_statement())]
        }
    } else {
        Seq::empty()
    }
}

/// What a result does to find and change the row of its test.
pub open spec fn update_actions(
    status: Status,
    barcode: Seq<char>,
    answers: Answers,
) -> Seq<ActionView> {
    if !status.concludes() {
        Seq::empty()
    } else {
        match answers.lookup {
            Lookup::Found(id) => seq![
                ActionView::Find(find_statement(barcode)),
                ActionView::Execute(
                    update_statement(answers.timestamp, status.word(), id as int),
                ),
            ],
            _ => seq![ActionView::Find(find_statement(barcode))],
        }
    }
}

/// What ends the work on a packet: a changed row is announced; otherwise a new
/// row is added and announced.
pub open spec fn closing_actions(
    status: Status,
    barcode: Seq<char>,
    answers: Answers,
) -> Seq<ActionView> {
    let word = status.word();
    if answers.concluded(status) {
        seq![ActionView::Send(update_message_text(barcode, answers.timestamp, word))]
    } else {
        seq![
            ActionView::Execute(insert_statement(answers.timestamp, barcode, word)),
            ActionView::Send(packet_message_text(answers.timestamp, barcode, word)),
        ]
    }
}

/// Whatever comes of the actions, a packet is dealt with in this order: the
/// signal of a special barcode, the clock, the search for the test that it
/// concludes and the change of its row, and at the end the announcement of the
/// changed row, or a new row and its announcement.
pub proof fn law_packet_is_dealt_with_in_order(packet: Seq<u8>, answers: Answers)
    ensures
        run(JobView::start(packet), answers) == signal_actions(barcode_of(packet), answers.cleared)
            + seq![ActionView::ReadClock] + update_actions(
            status_of(packet),
            barcode_of(packet),
            answers,
        ) + closing_actions(status_of(packet), barcode_of(packet), answers),
{
    let job = JobView::start(packet);
    let status = status_of(packet);
    let barcode = barcode_of(packet);
    let at_clock = JobView { phase: Phase::Clock, ..job };
    let dated = JobView { timestamp: answers.timestamp, ..job };
    let announce = JobView { phase: Phase::Announce(answers.concluded(status)), ..dated };
    let done = JobView { phase: Phase::Done, ..dated };
    let save = JobView { phase: Phase::Save, ..dated };
    let search = JobView { phase: Phase::Search, ..dated };

    assert(announce.after(answers.reply(announce)) == done);
    assert(run(done, answers) =~= Seq::empty());
    assert(run(announce, answers) =~= seq![announce.action()]);
    if !answers.concluded(status) {
        assert(save.after(answers.reply(save)) == announce);
        assert(run(save, answers) =~= closing_actions(status, barcode, answers));
    } else {
        assert(run(announce, answers) =~= closing_actions(status, barcode, answers));
    }
    if status.concludes() {
        if let Lookup::Found(id) = answers.lookup {
            let update = JobView { phase: Phase::Update(id), ..dated };
            assert(search.after(answers.reply(search)) == update);
            assert(update.after(answers.reply(update)) == if answers.updated {
                announce
            } else {
                save
            });
            assert(run(update, answers) =~= seq![update.action()] + closing_actions(
                status,
                barcode,
                answers,
            ));
        } else {
            assert(search.after(answers.reply(search)) == save);
        }
        assert(run(search, answers) =~= update_actions(status, barcode, answers)
            + closing_actions(status, barcode, answers));
        assert(at_clock.after(answers.reply(at_clock)) == search);
    } else {
        assert(at_clock.after(answers.reply(at_clock)) == save);
    }
    let from_clock = seq![ActionView::ReadClock] + update_actions(status, barcode, answers)
        + closing_actions(status, barcode, answers);
    assert(run(at_clock, answers) =~= from_clock);
    if job.phase == Phase::Clear {
        let signal = JobView { phase: Phase::ClearSignal, ..job };
        assert(signal.after(answers.reply(signal)) == at_clock);
        if answers.cleared {
            assert(job.after(answers.reply(job)) == signal);
            assert(run(signal, answers) =~= seq![signal.action()] + from_clock);
        } else {
            assert(job.after(answers.reply(job)) == at_clock);
        }
    } else if job.phase == Phase::ExportSignal {
        assert(job.after(answers.reply(job)) == at_clock);
    } else {
        assert(job == at_clock);
    }
    assert(run(job, answers) =~= signal_actions(barcode, answers.cleared) + from_clock);
    assert(signal_actions(barcode, answers.cleared) + from_clock =~= signal_actions(
        barcode,
        answers.cleared,
    ) + seq![ActionView::ReadClock] + update_actions(status, barcode, answers) + closing_actions(
        status,
        barcode,
        answers,
    ));
}

/// Every reply that is expected brings a packet closer to its end, so a packet
/// needs at most as many actions as its phase says, and a reply is expected
/// until it is dealt with.
pub proof fn law_every_reply_makes_progress(job: JobView, reply: ReplyView, answers: Answers)
    ensures
        job.expects(reply) ==> actions_left(job.after(reply).phase) < actions_left(job.phase),
        job.phase != Phase::Done ==> job.expects(answers.reply(job)),
        job.phase == Phase::Done <==> job.action() is Finish,
        run(job, answers).len() <= actions_left(job.phase),
    decreases actions_left(job.phase),
{
    if job.phase != Phase::Done {
        let next = job.after(answers.reply(job));
        law_every_reply_makes_progress(next, reply, answers);
    }
}

/// A packet that begins a test is always added as a new row: no row is
/// searched and none is changed.
pub proof fn law_test_packet_is_added(packet: Seq<u8>, answers: Answers)
    requires
        status_of(packet) == Status::Test,
    ensures
        run(JobView::start(packet), answers) == signal_actions(barcode_of(packet), answers.cleared)
            + seq![
            ActionView::ReadClock,
            ActionView::Execute(
                insert_statement(answers.timestamp, barcode_of(packet), "TEST"@),
            ),
            ActionView::Send(packet_message_text(answers.timestamp, barcode_of(packet), "TEST"@)),
        ],
{
    law_packet_is_dealt_with_in_order(packet, answers);
    assert(run(JobView::start(packet), answers) =~= signal_actions(
        barcode_of(packet),
        answers.cleared,
    ) + seq![
        ActionView::ReadClock,
        ActionView::Execute(insert_statement(answers.timestamp, barcode_of(packet), "TEST"@)),
        ActionView::Send(packet_message_text(answers.timestamp, barcode_of(packet), "TEST"@)),
    ]);
}

/// A result whose test is found and changed adds no row: exactly the row that
/// the search named is changed, and it is announced as changed.
pub proof fn law_found_test_is_concluded(packet: Seq<u8>, answers: Answers, id: i64)
    requires
        status_of(packet).concludes(),
        answers.lookup == Lookup::Found(id),
        answers.updated,
    ensures
        run(JobView::start(packet), answers) == signal_actions(barcode_of(packet), answers.cleared)
            + seq![
            ActionView::ReadClock,
            ActionView::Find(find_statement(barcode_of(packet))),
            ActionView::Execute(
                update_statement(answers.timestamp, status_of(packet).word(), id as int),
            ),
            ActionView::Send(
                update_message_text(
                    barcode_of(packet),
                    answers.timestamp,
                    status_of(packet).word(),
                ),
            ),
        ],
{
    law_packet_is_dealt_with_in_order(packet, answers);
    assert(run(JobView::start(packet), answers) =~= signal_actions(
        barcode_of(packet),
        answers.cleared,
    ) + seq![
        ActionView::ReadClock,
        ActionView::Find(find_statement(barcode_of(packet))),
        ActionView::Execute(
            update_statement(answers.timestamp, status_of(packet).word(), id as int),
        ),
        ActionView::Send(
            update_message_text(barcode_of(packet), answers.timestamp, status_of(packet).word()),
        ),
    ]);
}

/// No result is lost: where the search finds no test, or the search or the
/// change fails, the result is added as a new row and announced as new.
pub proof fn law_unmatched_result_is_added(packet: Seq<u8>, answers: Answers)
    requires
        status_of(packet).known(),
        !answers.concluded(status_of(packet)),
    ensures
        ({
            let actions = run(JobView::start(packet), answers);
            let word = status_of(packet).word();
            &&& actions.len() >= 3
            &&& actions[actions.len() - 2] == ActionView::Execute(
                insert_statement(answers.timestamp, barcode_of(packet), word),
            )
            &&& actions[actions.len() - 1] == ActionView::Send(
                packet_message_text(answers.timestamp, barcode_of(packet), word),
            )
        }),
{
    law_packet_is_dealt_with_in_order(packet, answers);
}

proof fn lemma_key_texts()
    ensures
        hex_text(seq![1u8, 2, 3, 4, 5, 7]) == BARCODE_KEY@,
        hex_text(seq![1u8, 2, 3, 4, 5, 8]) == BARCODE_KEY_CLEAR@,
{
    reveal_strlit("010203040507");
    reveal_strlit("010203040508");
    reveal_with_fuel(hex_text, 7);
    let a = seq![1u8, 2, 3, 4, 5, 7];
    let b = seq![1u8, 2, 3, 4, 5, 8];
    let five = seq![1u8, 2, 3, 4, 5];
    assert(a.drop_last() =~= five);
    assert(b.drop_last() =~= five);
    let four = five.drop_last();
    let three = four.drop_last();
    let two = three.drop_last();
    let one = two.drop_last();
    assert(hex_text(one) =~= hex_byte(1));
    assert(hex_text(two) =~= hex_byte(1) + hex_byte(2));
    assert(hex_text(three) =~= hex_byte(1) + hex_byte(2) + hex_byte(3));
    assert(hex_text(four) =~= hex_byte(1) + hex_byte(2) + hex_byte(3) + hex_byte(4));
    assert(hex_text(a) =~= BARCODE_KEY@);
    assert(hex_text(b) =~= BARCODE_KEY_CLEAR@);
}

/// The export is signalled for exactly one barcode and the table emptied for
/// exactly one other, and they differ in the last of their six bytes.
pub proof fn law_special_barcodes(packet: Seq<u8>)
    requires
        packet.len() >= 8,
    ensures
        first_phase(barcode_of(packet)) == Phase::ExportSignal <==> packet.subrange(2, 8)
            == seq![1u8, 2, 3, 4, 5, 7],
        first_phase(barcode_of(packet)) == Phase::Clear <==> packet.subrange(2, 8)
            == seq![1u8, 2, 3, 4, 5, 8],
{
    lemma_key_texts();
    let bytes = packet.subrange(2, 8);
    let export = seq![1u8, 2, 3, 4, 5, 7];
    let clear = seq![1u8, 2, 3, 4, 5, 8];
    assert(export[5] != clear[5]);
    if hex_text(bytes) == hex_text(export) {
        law_hex_text_is_injective(bytes, export);
    }
    if hex_text(bytes) == hex_text(clear) {
        law_hex_text_is_injective(bytes, clear);
    }
    if hex_text(export) == hex_text(clear) {
        law_hex_text_is_injective(export, clear);
    }
}

/// A barcode has twelve hexadecimal digits, and packets with the same barcode
/// have the same barcode bytes.
pub proof fn law_barcode_names_its_bytes(packet: Seq<u8>, other: Seq<u8>)
    requires
        packet.len() >= 8,
        other.len() >= 8,
    ensures
        barcode_of(packet).len() == 12,
        forall|i: int| 0 <= i < 12 ==> is_hex_char(#[trigger] barcode_of(packet)[i]),
        barcode_of(packet) == barcode_of(other) <==> packet.subrange(2, 8) == other.subrange(2, 8),
{
    law_hex_text_is_hex(packet.subrange(2, 8));
    if barcode_of(packet) == barcode_of(other) {
        law_hex_text_is_injective(packet.subrange(2, 8), other.subrange(2, 8));
    }
}

/// The barcode and the status of a packet need no escapes in a message.
pub proof fn law_packet_fields_are_plain(packet: Seq<u8>)
    ensures
        plain(barcode_of(packet)),
        plain(status_of(packet).word()),
{
    law_hex_text_is_hex(packet.subrange(2, 8));
    reveal_strlit("OK");
    reveal_strlit("HATA");
    reveal_strlit("TEST");
    reveal_strlit("Unknown");
    reveal_strlit("Invalid (too short)");
    assert forall|i: int| 0 <= i < barcode_of(packet).len() implies #[trigger] barcode_of(packet)[i]
        != '"' && barcode_of(packet)[i] != '\\' && barcode_of(packet)[i] as int >= 0x20 by {
        assert(is_hex_char(barcode_of(packet)[i]));
    }
}

/// Two new rows are announced by the same message only if their packets have
/// the same barcode bytes and the same status and were dated in the same
/// second.
pub proof fn law_announcement_names_its_packet(
    packet: Seq<u8>,
    timestamp: Seq<char>,
    local: int,
    other: Seq<u8>,
    other_timestamp: Seq<char>,
    other_local: int,
)
    requires
        status_of(packet).known(),
        status_of(other).known(),
        shows(timestamp, local, CLOCK_FORMAT@),
        shows(other_timestamp, other_local, CLOCK_FORMAT@),
        packet_message_text(timestamp, barcode_of(packet), status_of(packet).word())
            == packet_message_text(other_timestamp, barcode_of(other), status_of(other).word()),
    ensures
        packet.subrange(2, 8) == other.subrange(2, 8),
        status_of(packet) == status_of(other),
        local == other_local,
{
    law_packet_fields_are_plain(packet);
    law_packet_fields_are_plain(other);
    law_timestamps_are_plain(timestamp, local);
    law_timestamps_are_plain(other_timestamp, other_local);
    law_packet_message_keeps_its_fields(
        timestamp,
        barcode_of(packet),
        status_of(packet).word(),
        other_timestamp,
        barcode_of(other),
        status_of(other).word(),
    );
    law_hex_text_is_injective(packet.subrange(2, 8), other.subrange(2, 8));
    law_clock_stamps_tell_seconds_apart(timestamp, local, other_local);
    reveal_strlit("OK");
    reveal_strlit("HATA");
    reveal_strlit("TEST");
    assert("OK"@.len() == 2 && "HATA"@[0] == 'H' && "TEST"@[0] == 'T');
}

/// A reply is expected if and only if it is of the kind that the action brings.
pub proof fn law_reply_fits_its_action(job: JobView, reply: ReplyView)
    ensures
        job.expects(reply) <==> {
            ||| job.action() is Send && reply is Sent
            ||| job.action() is Execute && reply is Executed
            ||| job.action() is Find && reply is Found
            ||| job.action() is ReadClock && reply is Clock
        },
{
}

/// What is known of an action and of a reply is what it holds.
pub proof fn law_action_and_reply_views(action: Action, reply: Reply)
    ensures
        match action {
            Action::Send(s) => action@ == ActionView::Send(s@),
            Action::Execute(s) => action@ == ActionView::Execute(s@),
            Action::Find(s) => action@ == ActionView::Find(s@),
            Action::ReadClock => action@ == ActionView::ReadClock,
            Action::Finish => action@ == ActionView::Finish,
        },
        match reply {
            Reply::Sent => reply@ == ReplyView::Sent,
            Reply::Executed(b) => reply@ == ReplyView::Executed(b),
            Reply::Found(l) => reply@ == ReplyView::Found(l),
            Reply::Clock(s) => reply@ == ReplyView::Clock(s@),
        },
{
}

} // verus!
