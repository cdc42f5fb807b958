use crate::text::lemma_same_front;
use vstd::prelude::*;
use vstd::string::StringExecFns;

verus! {

/// The message that announces a new row of the table.
pub open spec fn packet_message_text(
    timestamp: Seq<char>,
    barcode: Seq<char>,
    status: Seq<char>,
) -> Seq<char> {
    "{\"timestamp\": \""@ + timestamp + "\", \"barcode\": \""@ + barcode + "\", \"status\": \""@
        + status + "\"}"@
}

/// The message that announces a changed row of the table.
pub open spec fn update_message_text(
    barcode: Seq<char>,
    timestamp: Seq<char>,
    status: Seq<char>,
) -> Seq<char> {
    "{\"action\": \"update\", \"barcode\": \""@ + barcode + "\", \"timestamp\": \""@ + timestamp
        + "\", \"status\": \""@ + status + "\"}"@
}

/// The message that asks the pages to fetch the CSV file.
pub open spec fn export_message_text() -> Seq<char> {
    "{\"action\": \"export_csv\"}"@
}

/// The message that says that the table was emptied.
pub open spec fn clear_message_text() -> Seq<char> {
    "{\"action\": \"clear_database\"}"@
}

/// Writes the message that announces a new row.
pub fn packet_message(timestamp: &str, barcode: &str, status: &str) -> (s: String)
    ensures
        s@ == packet_message_text(timestamp@, barcode@, status@),
        s@ == json_object(
            seq![("timestamp"@, timestamp@), ("barcode"@, barcode@), ("status"@, status@)],
        ),
{
    proof {
        law_messages_are_json_objects(timestamp@, barcode@, status@);
    }
    let mut s = String::from_str("{\"timestamp\": \"");
    s.append(timestamp);
    s.append("\", \"barcode\": \"");
    s.append(barcode);
    s.append("\", \"status\": \"");
    s.append(status);
    s.append("\"}");
    s
}

/// Writes the message that announces a changed row.
pub fn update_message(barcode: &str, timestamp: &str, status: &str) -> (s: String)
    ensures
        s@ == update_message_text(barcode@, timestamp@, status@),
        s@ == json_object(
            seq![
                ("action"@, "update"@),
                ("barcode"@, barcode@),
                ("timestamp"@, timestamp@),
                ("status"@, status@),
            ],
        ),
{
    proof {
        law_messages_are_json_objects(timestamp@, barcode@, status@);
    }
    let mut s = String::from_str("{\"action\": \"update\", \"barcode\": \"");
    s.append(barcode);
    s.append("\", \"timestamp\": \"");
    s.append(timestamp);
    s.append("\", \"status\": \"");
    s.append(status);
    s.append("\"}");
    s
}

/// Writes the message that asks for the CSV file.
pub fn export_message() -> (s: String)
    ensures
        s@ == export_message_text(),
        s@ == "{\"action\": \"export_csv\"}"@,
{
    String::from_str("{\"action\": \"export_csv\"}")
}

/// Writes the message that says that the table was emptied.
pub fn clear_message() -> (s: String)
    ensures
        s@ == clear_message_text(),
        s@ == "{\"action\": \"clear_database\"}"@,
{
    String::from_str("{\"action\": \"clear_database\"}")
}

/// A text that stands for itself inside a JSON string: no quotation mark, no
/// backslash, no control character.
pub open spec fn plain(s: Seq<char>) -> bool {
    forall|i: int|
        0 <= i < s.len() ==> #[trigger] s[i] != '"' && s[i] != '\\' && s[i] as int >= 0x20
}

/// Plain texts in front of quotation marks can be told apart from what
/// follows.
proof fn lemma_split_at_quote(a: Seq<char>, x: Seq<char>, b: Seq<char>, y: Seq<char>)
    requires
        plain(a),
        plain(b),
        x.len() > 0,
        y.len() > 0,
        x[0] == '"',
        y[0] == '"',
        a + x == b + y,
    ensures
        a == b,
        x == y,
{
    let (s, t) = (a + x, b + y);
    if a.len() < b.len() {
        assert(s[a.len() as int] == '"');
        assert(t[a.len() as int] == b[a.len() as int]);
    }
    if b.len() < a.len() {
        assert(t[b.len() as int] == '"');
        assert(s[b.len() as int] == a[b.len() as int]);
    }
    assert(a =~= s.take(a.len() as int));
    assert(b =~= t.take(b.len() as int));
    assert(x =~= s.skip(a.len() as int));
    assert(y =~= t.skip(b.len() as int));
}

/// Three plain texts between fixed separators that begin with a quotation
/// mark can be read back.
proof fn lemma_three_fields(
    lits: (Seq<char>, Seq<char>, Seq<char>, Seq<char>),
    f: (Seq<char>, Seq<char>, Seq<char>),
    g: (Seq<char>, Seq<char>, Seq<char>),
)
    requires
        lits.1.len() > 0 && lits.1[0] == '"',
        lits.2.len() > 0 && lits.2[0] == '"',
        lits.3.len() > 0 && lits.3[0] == '"',
        plain(f.0) && plain(f.1) && plain(f.2),
        plain(g.0) && plain(g.1) && plain(g.2),
        lits.0 + f.0 + lits.1 + f.1 + lits.2 + f.2 + lits.3 == lits.0 + g.0 + lits.1 + g.1 + lits.2
            + g.2 + lits.3,
    ensures
        f == g,
{
    let fc = lits.2 + (f.2 + lits.3);
    let gc = lits.2 + (g.2 + lits.3);
    let fb = lits.1 + (f.1 + fc);
    let gb = lits.1 + (g.1 + gc);
    assert(lits.0 + (f.0 + fb) =~= lits.0 + f.0 + lits.1 + f.1 + lits.2 + f.2 + lits.3);
    assert(lits.0 + (g.0 + gb) =~= lits.0 + g.0 + lits.1 + g.1 + lits.2 + g.2 + lits.3);
    lemma_same_front(lits.0, f.0 + fb, g.0 + gb);
    lemma_split_at_quote(f.0, fb, g.0, gb);
    lemma_same_front(lits.1, f.1 + fc, g.1 + gc);
    lemma_split_at_quote(f.1, fc, g.1, gc);
    lemma_same_front(lits.2, f.2 + lits.3, g.2 + lits.3);
    lemma_split_at_quote(f.2, lits.3, g.2, lits.3);
}

/// From the message of a new row its three fields can be read back, as long
/// as they are plain.
pub proof fn law_packet_message_keeps_its_fields(
    timestamp: Seq<char>,
    barcode: Seq<char>,
    status: Seq<char>,
    timestamp2: Seq<char>,
    barcode2: Seq<char>,
    status2: Seq<char>,
)
    requires
        plain(timestamp) && plain(barcode) && plain(status),
        plain(timestamp2) && plain(barcode2) && plain(status2),
        packet_message_text(timestamp, barcode, status) == packet_message_text(
            timestamp2,
            barcode2,
            status2,
        ),
    ensures
        timestamp == timestamp2,
        barcode == barcode2,
        status == status2,
{
    reveal_strlit("\", \"barcode\": \"");
    reveal_strlit("\", \"status\": \"");
    reveal_strlit("\"}");
    lemma_three_fields(
        (
            "{\"timestamp\": \""@,
            "\", \"barcode\": \""@,
            "\", \"status\": \""@,
            "\"}"@,
        ),
        (timestamp, barcode, status),
        (timestamp2, barcode2, status2),
    );
}

/// From the message of a changed row its three fields can be read back, as
/// long as they are plain.
pub proof fn law_update_message_keeps_its_fields(
    barcode: Seq<char>,
    timestamp: Seq<char>,
    status: Seq<char>,
    barcode2: Seq<char>,
    timestamp2: Seq<char>,
    status2: Seq<char>,
)
    requires
        plain(timestamp) && plain(barcode) && plain(status),
        plain(timestamp2) && plain(barcode2) && plain(status2),
        update_message_text(barcode, timestamp, status) == update_message_text(
            barcode2,
            timestamp2,
            status2,
        ),
    ensures
        timestamp == timestamp2,
        barcode == barcode2,
        status == status2,
{
    reveal_strlit("\", \"timestamp\": \"");
    reveal_strlit("\", \"status\": \"");
    reveal_strlit("\"}");
    lemma_three_fields(
        (
            "{\"action\": \"update\", \"barcode\": \""@,
            "\", \"timestamp\": \""@,
            "\", \"status\": \""@,
            "\"}"@,
        ),
        (barcode, timestamp, status),
        (barcode2, timestamp2, status2),
    );
}

/// The four kinds of messages are told apart by their first characters,
/// whatever the fields hold.
pub proof fn law_message_kinds_differ(
    timestamp: Seq<char>,
    barcode: Seq<char>,
    status: Seq<char>,
    barcode2: Seq<char>,
    timestamp2: Seq<char>,
    status2: Seq<char>,
)
    ensures
        packet_message_text(timestamp, barcode, status) != update_message_text(
            barcode2,
            timestamp2,
            status2,
        ),
        packet_message_text(timestamp, barcode, status) != export_message_text(),
        packet_message_text(timestamp, barcode, status) != clear_message_text(),
        update_message_text(barcode2, timestamp2, status2) != export_message_text(),
        update_message_text(barcode2, timestamp2, status2) != clear_message_text(),
        export_message_text() != clear_message_text(),
{
    reveal_strlit("{\"timestamp\": \"");
    reveal_strlit("{\"action\": \"update\", \"barcode\": \"");
    reveal_strlit("{\"action\": \"export_csv\"}");
    reveal_strlit("{\"action\": \"clear_database\"}");
    let p = packet_message_text(timestamp, barcode, status);
    let u = update_message_text(barcode2, timestamp2, status2);
    assert(p[2] == 't');
    assert(u[2] == 'a');
    assert(export_message_text()[2] == 'a');
    assert(clear_message_text()[2] == 'a');
    assert(u[12] == 'u');
    assert(export_message_text()[12] == 'e');
    assert(clear_message_text()[12] == 'c');
}

/// A name and a text, as a member of a JSON object.
pub open spec fn json_member(name: Seq<char>, text: Seq<char>) -> Seq<char> {
    seq!['"'] + name + seq!['"', ':', ' ', '"'] + text + seq!['"']
}

/// The members of a JSON object, with a comma and a blank between neighbours.
pub open spec fn json_members(members: Seq<(Seq<char>, Seq<char>)>) -> Seq<char>
    decreases members.len(),
{
    if members.len() == 0 {
        Seq::empty()
    } else if members.len() == 1 {
        json_member(members[0].0, members[0].1)
    } else {
        json_member(members[0].0, members[0].1) + seq![',', ' '] + json_members(members.skip(1))
    }
}

/// A JSON object whose members are texts.
pub open spec fn json_object(members: Seq<(Seq<char>, Seq<char>)>) -> Seq<char> {
    seq!['{'] + json_members(members) + seq!['}']
}

/// Every message is a JSON object of texts: its members are, in this order, the
/// action if there is one, and the fields.
pub proof fn law_messages_are_json_objects(
    timestamp: Seq<char>,
    barcode: Seq<char>,
    status: Seq<char>,
)
    ensures
        packet_message_text(timestamp, barcode, status) == json_object(
            seq![("timestamp"@, timestamp), ("barcode"@, barcode), ("status"@, status)],
        ),
        update_message_text(barcode, timestamp, status) == json_object(
            seq![
                ("action"@, "update"@),
                ("barcode"@, barcode),
                ("timestamp"@, timestamp),
                ("status"@, status),
            ],
        ),
        export_message_text() == json_object(seq![("action"@, "export_csv"@)]),
        clear_message_text() == json_object(seq![("action"@, "clear_database"@)]),
{
    reveal_strlit("timestamp");
    reveal_strlit("barcode");
    reveal_strlit("status");
    reveal_strlit("action");
    reveal_strlit("update");
    reveal_strlit("export_csv");
    reveal_strlit("clear_database");
    reveal_strlit("{\"timestamp\": \"");
    reveal_strlit("\", \"barcode\": \"");
    reveal_strlit("\", \"status\": \"");
    reveal_strlit("\"}");
    reveal_strlit("{\"action\": \"update\", \"barcode\": \"");
    reveal_strlit("\", \"timestamp\": \"");
    reveal_strlit("{\"action\": \"export_csv\"}");
    reveal_strlit("{\"action\": \"clear_database\"}");
    reveal_with_fuel(json_members, 4);
    let t = ("timestamp"@, timestamp);
    let b = ("barcode"@, barcode);
    let s = ("status"@, status);
    let a = ("action"@, "update"@);
    assert(seq![t, b, s].skip(1) =~= seq![b, s]);
    assert(seq![b, s].skip(1) =~= seq![s]);
    assert(packet_message_text(timestamp, barcode, status) =~= json_object(seq![t, b, s]));
    assert(seq![a, b, t, s].skip(1) =~= seq![b, t, s]);
    assert(seq![b, t, s].skip(1) =~= seq![t, s]);
    assert(seq![t, s].skip(1) =~= seq![s]);
    assert(update_message_text(barcode, timestamp, status) =~= json_object(seq![a, b, t, s]));
    assert(export_message_text() =~= json_object(seq![("action"@, "export_csv"@)]));
    assert(clear_message_text() =~= json_object(seq![("action"@, "clear_database"@)]));
}

} // verus!
