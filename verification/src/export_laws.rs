use crate::clock::{shows, FILE_FORMAT};
use crate::clock_laws::law_file_stamps_tell_seconds_apart;
use crate::export::{
    csv_field, csv_line, csv_text, disposition_text, doubled_quotes, export_lines, file_name_text,
    header_line, needs_quotes, Line,
};
use crate::replies::Packet;
use crate::text::lemma_same_front;
use vstd::prelude::*;
use vstd::utf8::{encode_utf8, encode_utf8_decode_utf8};

verus! {

/// A comma or a line feed, as it stands behind a field.
spec fn ends_field(c: char) -> bool {
    c == ',' || c == '\n'
}

/// A text behind a field: it begins with a comma or a line feed.
spec fn field_end(x: Seq<char>) -> bool {
    x.len() > 0 && ends_field(x[0])
}

proof fn lemma_unquoted_field(f: Seq<char>, x: Seq<char>, g: Seq<char>, y: Seq<char>)
    requires
        !needs_quotes(f),
        !needs_quotes(g),
        field_end(x),
        field_end(y),
        f + x == g + y,
    ensures
        f == g,
        x == y,
{
    let (s, t) = (f + x, g + y);
    if f.len() < g.len() {
        assert(s[f.len() as int] == x[0]);
        assert(t[f.len() as int] == g[f.len() as int]);
    }
    if g.len() < f.len() {
        assert(t[g.len() as int] == y[0]);
        assert(s[g.len() as int] == f[g.len() as int]);
    }
    assert(f =~= s.take(f.len() as int));
    assert(g =~= t.take(g.len() as int));
    assert(x =~= s.skip(f.len() as int));
    assert(y =~= t.skip(g.len() as int));
}

proof fn lemma_quoted_field(f: Seq<char>, x: Seq<char>, g: Seq<char>, y: Seq<char>)
    requires
        field_end(x),
        field_end(y),
        doubled_quotes(f) + (seq!['"'] + x) == doubled_quotes(g) + (seq!['"'] + y),
    ensures
        f == g,
        x == y,
    decreases f.len(),
{
    let (s, t) = (doubled_quotes(f) + (seq!['"'] + x), doubled_quotes(g) + (seq!['"'] + y));
    if f.len() == 0 {
        assert(s[0] == '"' && s[1] == x[0]);
        if g.len() > 0 {
            if g[0] == '"' {
                assert(t[1] == '"');
            } else {
                assert(t[0] == g[0]);
            }
            assert(false);
        }
        assert(f =~= g);
        assert(s =~= seq!['"'] + x);
        assert(t =~= seq!['"'] + y);
        lemma_same_front(seq!['"'], x, y);
    } else if g.len() == 0 {
        assert(t[0] == '"' && t[1] == y[0]);
        if f[0] == '"' {
            assert(s[1] == '"');
        } else {
            assert(s[0] == f[0]);
        }
        assert(false);
    } else {
        assert(s[0] == f[0]);
        assert(t[0] == g[0]);
        let (f1, g1) = (f.skip(1), g.skip(1));
        let (s1, t1) = (doubled_quotes(f1) + (seq!['"'] + x), doubled_quotes(g1) + (seq!['"'] + y));
        let front = if f[0] == '"' { seq!['"', '"'] } else { seq![f[0]] };
        assert(s =~= front + s1);
        assert(t =~= front + t1);
        lemma_same_front(front, s1, t1);
        lemma_quoted_field(f1, x, g1, y);
        assert(f =~= seq![f[0]] + f1);
        assert(g =~= seq![g[0]] + g1);
    }
}

/// A field of the file and what follows it can be told apart.
proof fn lemma_field(f: Seq<char>, x: Seq<char>, g: Seq<char>, y: Seq<char>)
    requires
        field_end(x),
        field_end(y),
        csv_field(f) + x == csv_field(g) + y,
    ensures
        f == g,
        x == y,
{
    let (s, t) = (csv_field(f) + x, csv_field(g) + y);
    if needs_quotes(f) {
        assert(s[0] == '"');
    } else if f.len() > 0 {
        assert(s[0] == f[0]);
    } else {
        assert(s[0] == x[0]);
    }
    if needs_quotes(g) {
        assert(t[0] == '"');
    } else if g.len() > 0 {
        assert(t[0] == g[0]);
    } else {
        assert(t[0] == y[0]);
    }
    if needs_quotes(f) {
        assert(needs_quotes(g));
        let (s1, t1) = (doubled_quotes(f) + (seq!['"'] + x), doubled_quotes(g) + (seq!['"'] + y));
        assert(s =~= seq!['"'] + s1);
        assert(t =~= seq!['"'] + t1);
        lemma_same_front(seq!['"'], s1, t1);
        lemma_quoted_field(f, x, g, y);
    } else {
        assert(!needs_quotes(g));
        lemma_unquoted_field(f, x, g, y);
    }
}

/// A line that is taken apart from the front.
proof fn lemma_line_from_front(f: Seq<char>, g: Seq<char>, h: Seq<char>, x: Seq<char>)
    ensures
        f + seq![','] + g + seq![','] + h + seq!['\n'] + x == f + (seq![','] + (g + (seq![','] + (h
            + (seq!['\n'] + x))))),
{
    assert(f + seq![','] + g + seq![','] + h + seq!['\n'] + x =~= f + (seq![','] + (g + (seq![',']
        + (h + (seq!['\n'] + x))))));
}

/// A line of the file and what follows it can be told apart.
proof fn lemma_line(a: Line, x: Seq<char>, b: Line, y: Seq<char>)
    requires
        csv_line(a) + x == csv_line(b) + y,
    ensures
        a == b,
        x == y,
{
    let (a2, b2) = (seq!['\n'] + x, seq!['\n'] + y);
    let (a1, b1) = (seq![','] + (csv_field(a.2) + a2), seq![','] + (csv_field(b.2) + b2));
    let (a0, b0) = (seq![','] + (csv_field(a.1) + a1), seq![','] + (csv_field(b.1) + b1));
    lemma_line_from_front(csv_field(a.0), csv_field(a.1), csv_field(a.2), x);
    lemma_line_from_front(csv_field(b.0), csv_field(b.1), csv_field(b.2), y);
    lemma_field(a.0, a0, b.0, b0);
    lemma_same_front(seq![','], csv_field(a.1) + a1, csv_field(b.1) + b1);
    lemma_field(a.1, a1, b.1, b1);
    lemma_same_front(seq![','], csv_field(a.2) + a2, csv_field(b.2) + b2);
    lemma_field(a.2, a2, b.2, b2);
    lemma_same_front(seq!['\n'], x, y);
}

/// From the text of a file its lines can be read back, whatever characters
/// their fields hold.
pub proof fn law_csv_text_keeps_its_lines(a: Seq<Line>, b: Seq<Line>)
    requires
        csv_text(a) == csv_text(b),
    ensures
        a == b,
    decreases a.len(),
{
    if a.len() == 0 || b.len() == 0 {
        assert(a =~= b);
    } else {
        lemma_line(a[0], csv_text(a.skip(1)), b[0], csv_text(b.skip(1)));
        law_csv_text_keeps_its_lines(a.skip(1), b.skip(1));
        assert(a =~= seq![a[0]] + a.skip(1));
        assert(b =~= seq![b[0]] + b.skip(1));
    }
}

/// From the bytes of an exported file the packets can be read back, in their
/// order and with all their fields.
pub proof fn law_export_keeps_the_packets(a: Seq<Packet>, b: Seq<Packet>)
    requires
        encode_utf8(csv_text(export_lines(a))) == encode_utf8(csv_text(export_lines(b))),
    ensures
        a.map_values(|p: Packet| p@) == b.map_values(|p: Packet| p@),
{
    encode_utf8_decode_utf8(csv_text(export_lines(a)));
    encode_utf8_decode_utf8(csv_text(export_lines(b)));
    law_csv_text_keeps_its_lines(export_lines(a), export_lines(b));
    assert(export_lines(a).skip(1) =~= a.map_values(|p: Packet| p@));
    assert(export_lines(b).skip(1) =~= b.map_values(|p: Packet| p@));
}

/// Every exported file begins with the header, and behind it comes a line for
/// each packet.
pub proof fn law_export_begins_with_the_header(packets: Seq<Packet>)
    ensures
        csv_text(export_lines(packets)) == "Zaman,Barkod,Durum\n"@ + csv_text(
            packets.map_values(|p: Packet| p@),
        ),
{
    reveal_strlit("Zaman");
    reveal_strlit("Barkod");
    reveal_strlit("Durum");
    reveal_strlit("Zaman,Barkod,Durum\n");
    let header = header_line();
    assert(!needs_quotes(header.0));
    assert(!needs_quotes(header.1));
    assert(!needs_quotes(header.2));
    assert(csv_line(header) =~= "Zaman,Barkod,Durum\n"@);
    assert(export_lines(packets).skip(1) =~= packets.map_values(|p: Packet| p@));
}

/// Files that are exported in different seconds have different names.
pub proof fn law_file_names_tell_seconds_apart(
    stamp: Seq<char>,
    local: int,
    other_stamp: Seq<char>,
    other: int,
)
    requires
        shows(stamp, local, FILE_FORMAT@),
        shows(other_stamp, other, FILE_FORMAT@),
        disposition_text(file_name_text(stamp)) == disposition_text(file_name_text(other_stamp)),
    ensures
        local == other,
{
    let (s, t) = (
        disposition_text(file_name_text(stamp)),
        disposition_text(file_name_text(other_stamp)),
    );
    let start = "attachment; filename=\""@.len() + "data_"@.len() as int;
    let end = s.len() - ".csv"@.len() - "\""@.len();
    assert(s.subrange(start, end) =~= stamp);
    assert(t.subrange(start, end) =~= other_stamp);
    law_file_stamps_tell_seconds_apart(stamp, local, other);
}

/// A file has one line more than there are packets: the header, then for each
/// packet, in order, its timestamp, its barcode and its status.
pub proof fn law_every_packet_has_its_line(packets: Seq<Packet>)
    ensures
        export_lines(packets).len() == packets.len() + 1,
        export_lines(packets)[0] == ("Zaman"@, "Barkod"@, "Durum"@),
        forall|i: int|
            0 <= i < packets.len() ==> export_lines(packets)[i + 1] == (
                (#[trigger] packets[i]).timestamp@,
                packets[i].barcode@,
                packets[i].status@,
            ),
{
}

/// A packet whose fields hold no comma, no quotation mark, no line feed and no
/// carriage return has its fields in the file as they are, with commas between
/// them and a line feed behind them.
pub proof fn law_plain_line_is_written_as_it_is(line: Line)
    requires
        forall|i: int|
            0 <= i < line.0.len() ==> #[trigger] line.0[i] != ',' && line.0[i] != '"' && line.0[i]
                != '\n' && line.0[i] != '\r',
        forall|i: int|
            0 <= i < line.1.len() ==> #[trigger] line.1[i] != ',' && line.1[i] != '"' && line.1[i]
                != '\n' && line.1[i] != '\r',
        forall|i: int|
            0 <= i < line.2.len() ==> #[trigger] line.2[i] != ',' && line.2[i] != '"' && line.2[i]
                != '\n' && line.2[i] != '\r',
    ensures
        csv_line(line) == line.0 + seq![','] + line.1 + seq![','] + line.2 + seq!['\n'],
{
    assert(!needs_quotes(line.0));
    assert(!needs_quotes(line.1));
    assert(!needs_quotes(line.2));
}

/// A file name is the stamp between `data_` and `.csv`, and the header is that
/// name between quotation marks.
pub proof fn law_file_name_holds_its_stamp(stamp: Seq<char>)
    ensures
        file_name_text(stamp).len() == stamp.len() + 9,
        file_name_text(stamp).subrange(0, 5) == "data_"@,
        file_name_text(stamp).subrange(5, 5 + stamp.len() as int) == stamp,
        file_name_text(stamp).skip(5 + stamp.len() as int) == ".csv"@,
        disposition_text(stamp).len() == stamp.len() + 23,
        disposition_text(stamp).subrange(0, 22) == "attachment; filename=\""@,
        disposition_text(stamp).subrange(22, 22 + stamp.len() as int) == stamp,
        disposition_text(stamp).last() == '"',
{
    reveal_strlit("data_");
    reveal_strlit(".csv");
    reveal_strlit("attachment; filename=\"");
    reveal_strlit("\"");
    let (f, d) = (file_name_text(stamp), disposition_text(stamp));
    assert(f.subrange(0, 5) =~= "data_"@);
    assert(f.subrange(5, 5 + stamp.len() as int) =~= stamp);
    assert(f.skip(5 + stamp.len() as int) =~= ".csv"@);
    assert(d.subrange(0, 22) =~= "attachment; filename=\""@);
    assert(d.subrange(22, 22 + stamp.len() as int) =~= stamp);
}

} // verus!
