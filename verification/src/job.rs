use crate::messages::{
    clear_message, clear_message_text, export_message, export_message_text, packet_message,
    packet_message_text, update_message, update_message_text,
};
use crate::packet::{barcode_of, packet_barcode, packet_status, status_of, Status};
use crate::table::{
    clear_database, clear_statement, find_statement, insert_statement, save_packet,
    update_after_execute, update_after_lookup, update_packet, update_statement, Lookup, Statement,
    StatementView, UpdateStep,
};
use crate::text::same_text;
use vstd::prelude::*;

verus! {

/// The barcode that asks for the CSV file.
pub const BARCODE_KEY: &'static str = "010203040507";

/// The barcode that asks to empty the table.
pub const BARCODE_KEY_CLEAR: &'static str = "010203040508";

/// What has to be done next for a packet.
#[derive(Debug)]
pub enum Action {
    /// Hand this message to the broadcaster.
    Send(String),
    /// Run this statement.
    Execute(Statement),
    /// Run this search.
    Find(Statement),
    /// Read the clock.
    ReadClock,
    /// Nothing: the packet is dealt with.
    Finish,
}

/// What an action holds.
pub enum ActionView {
    Send(Seq<char>),
    Execute(StatementView),
    Find(StatementView),
    ReadClock,
    Finish,
}

impl View for Action {
    type V = ActionView;

    open spec fn view(&self) -> ActionView {
        match *self {
            Action::Send(s) => ActionView::Send(s@),
            Action::Execute(s) => ActionView::Execute(s@),
            Action::Find(s) => ActionView::Find(s@),
            Action::ReadClock => ActionView::ReadClock,
            Action::Finish => ActionView::Finish,
        }
    }
}

/// What came of an action.
#[derive(Debug)]
pub enum Reply {
    /// The message was handed over, or could not be: both end the action.
    Sent,
    /// The statement was run, and whether that succeeded.
    Executed(bool),
    /// The search was run.
    Found(Lookup),
    /// The timestamp that the clock shows.
    Clock(String),
}

/// What a reply holds.
pub enum ReplyView {
    Sent,
    Executed(bool),
    Found(Lookup),
    Clock(Seq<char>),
}

impl View for Reply {
    type V = ReplyView;

    open spec fn view(&self) -> ReplyView {
        match *self {
            Reply::Sent => ReplyView::Sent,
            Reply::Executed(b) => ReplyView::Executed(b),
            Reply::Found(l) => ReplyView::Found(l),
            Reply::Clock(s) => ReplyView::Clock(s@),
        }
    }
}

/// How far a packet is dealt with.
#[derive(Debug, Clone, Copy, PartialEq, Eq, Structural)]
pub enum Phase {
    /// The export is to be signalled.
    ExportSignal,
    /// The table is to be emptied.
    Clear,
    /// It is to be signalled that the table was emptied.
    ClearSignal,
    /// The clock is to be read.
    Clock,
    /// The test that the packet concludes is to be searched.
    Search,
    /// The row with this number is to be changed.
    Update(i64),
    /// A new row is to be added.
    Save,
    /// The row is to be announced, as a changed one or as a new one.
    Announce(bool),
    /// Nothing is left to do.
    Done,
}

/// A packet that is being dealt with.
#[derive(Debug)]
pub struct PacketJob {
    status: Status,
    barcode: String,
    timestamp: String,
    phase: Phase,
}

/// What is known of a packet that is being dealt with.
pub struct JobView {
    pub status: Status,
    pub barcode: Seq<char>,
    pub timestamp: Seq<char>,
    pub phase: Phase,
}

impl View for PacketJob {
    type V = JobView;

    closed spec fn view(&self) -> JobView {
        JobView {
            status: self.status,
            barcode: self.barcode@,
            timestamp: self.timestamp@,
            phase: self.phase,
        }
    }
}

/// What a barcode asks for first.
pub open spec fn first_phase(barcode: Seq<char>) -> Phase {
    if barcode == BARCODE_KEY@ {
        Phase::ExportSignal
    } else if barcode == BARCODE_KEY_CLEAR@ {
        Phase::Clear
    } else {
        Phase::Clock
    }
}

impl JobView {
    /// How a packet is taken up.
    pub open spec fn start(packet: Seq<u8>) -> JobView {
        JobView {
            status: status_of(packet),
            barcode: barcode_of(packet),
            timestamp: Seq::empty(),
            phase: first_phase(barcode_of(packet)),
        }
    }

    /// What has to be done next.
    pub open spec fn action(self) -> ActionView {
        let word = self.status.word();
        match self.phase {
            Phase::ExportSignal => ActionView::Send(export_message_text()),
            Phase::Clear => ActionView::Execute(clear_statement()),
            Phase::ClearSignal => ActionView::Send(clear_message_text()),
            Phase::Clock => ActionView::ReadClock,
            Phase::Search => ActionView::Find(find_statement(self.barcode)),
            Phase::Update(id) => ActionView::Execute(
                update_statement(self.timestamp, word, id as int),
            ),
            Phase::Save => ActionView::Execute(
                insert_statement(self.timestamp, self.barcode, word),
            ),
            Phase::Announce(true) => ActionView::Send(
                update_message_text(self.barcode, self.timestamp, word),
            ),
            Phase::Announce(false) => ActionView::Send(
                packet_message_text(self.timestamp, self.barcode, word),
            ),
            Phase::Done => ActionView::Finish,
        }
    }

    /// Whether `reply` can come of what has to be done next.
    pub open spec fn expects(self, reply: ReplyView) -> bool {
        match self.action() {
            ActionView::Send(_) => reply is Sent,
            ActionView::Execute(_) => reply is Executed,
            ActionView::Find(_) => reply is Found,
            ActionView::ReadClock => reply is Clock,
            ActionView::Finish => false,
        }
    }

    /// How far the packet is dealt with once `reply` came.
    pub open spec fn after(self, reply: ReplyView) -> JobView {
        let phase = match (self.phase, reply) {
            (Phase::Clear, ReplyView::Executed(true)) => Phase::ClearSignal,
            (Phase::Clock, _) => if self.status.concludes() {
                Phase::Search
            } else {
                Phase::Save
            },
            (Phase::Search, ReplyView::Found(Lookup::Found(id))) => Phase::Update(id),
            (Phase::Search, _) => Phase::Save,
            (Phase::Update(_), ReplyView::Executed(true)) => Phase::Announce(true),
            (Phase::Update(_), _) => Phase::Save,
            (Phase::Save, _) => Phase::Announce(false),
            (Phase::Announce(_), _) => Phase::Done,
            (Phase::Done, _) => Phase::Done,
            _ => Phase::Clock,
        };
        let timestamp = match reply {
            ReplyView::Clock(t) => t,
            _ => self.timestamp,
        };
        JobView { phase, timestamp, ..self }
    }
}

impl PacketJob {
    /// Takes up a packet. One whose status is not known is passed over.
    pub fn start(packet: &[u8]) -> (r: Option<PacketJob>)
        ensures
            r is Some <==> status_of(packet@).known(),
            r is Some <==> packet@.len() >= 13 && (packet@[12] == 0x02 || packet@[12] == 0x03
                || packet@[12] == 0x04),
            r matches Some(job) ==> job@ == JobView::start(packet@),
    {
        let status = packet_status(packet);
        if !status.is_known() {
            return None;
        }
        let barcode = packet_barcode(packet);
        let phase = if same_text(barcode.as_str(), BARCODE_KEY) {
            Phase::ExportSignal
        } else if same_text(barcode.as_str(), BARCODE_KEY_CLEAR) {
            Phase::Clear
        } else {
            Phase::Clock
        };
        Some(PacketJob { status, barcode, timestamp: String::new(), phase })
    }

    /// What has to be done next.
    pub fn action(&self) -> (a: Action)
        ensures
            a@ == self@.action(),
    {
        let word: &str = self.status.label();
        let barcode: &str = self.barcode.as_str();
        let timestamp: &str = self.timestamp.as_str();
        match self.phase {
            Phase::ExportSignal => Action::Send(export_message()),
            Phase::Clear => Action::Execute(clear_database()),
            Phase::ClearSignal => Action::Send(clear_message()),
            Phase::Clock => Action::ReadClock,
            Phase::Search => Action::Find(update_packet(barcode)),
            Phase::Update(id) => match update_after_lookup(Lookup::Found(id), timestamp, word) {
                UpdateStep::Execute(s) => Action::Execute(s),
                UpdateStep::Finished(_) => Action::Finish,
            },
            Phase::Save => Action::Execute(save_packet(timestamp, barcode, word)),
            Phase::Announce(updated) => if updated {
                Action::Send(update_message(barcode, timestamp, word))
            } else {
                Action::Send(packet_message(timestamp, barcode, word))
            },
            Phase::Done => Action::Finish,
        }
    }

    /// Whether `reply` can come of what has to be done next.
    pub fn is_expecting(&self, reply: &Reply) -> (r: bool)
        ensures
            r == self@.expects(reply@),
    {
        match (self.phase, reply) {
            (Phase::ExportSignal, Reply::Sent) => true,
            (Phase::ClearSignal, Reply::Sent) => true,
            (Phase::Announce(_), Reply::Sent) => true,
            (Phase::Clear, Reply::Executed(_)) => true,
            (Phase::Update(_), Reply::Executed(_)) => true,
            (Phase::Save, Reply::Executed(_)) => true,
            (Phase::Search, Reply::Found(_)) => true,
            (Phase::Clock, Reply::Clock(_)) => true,
            _ => false,
        }
    }

    /// Goes on with what came of the last action.
    pub fn advance(&mut self, reply: Reply)
        requires
            old(self)@.expects(reply@),
        ensures
            final(self)@ == old(self)@.after(reply@),
    {
        self.phase = match (self.phase, reply) {
            (Phase::Clear, Reply::Executed(true)) => Phase::ClearSignal,
            (Phase::Clock, Reply::Clock(timestamp)) => {
                self.timestamp = timestamp;
                if self.status.is_concluding() {
                    Phase::Search
                } else {
                    Phase::Save
                }
            },
            (Phase::Search, Reply::Found(Lookup::Found(id))) => Phase::Update(id),
            (Phase::Search, _) => Phase::Save,
            (Phase::Update(_), Reply::Executed(succeeded)) => {
                let updated = match update_after_execute(succeeded) {
                    Ok(updated) => updated,
                    Err(_) => false,
                };
                if updated {
                    Phase::Announce(true)
                } else {
                    Phase::Save
                }
            },
            (Phase::Save, _) => Phase::Announce(false),
            (Phase::Announce(_), _) => Phase::Done,
            _ => Phase::Clock,
        };
    }
}

} // verus!
