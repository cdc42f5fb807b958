use crate::text::{hex_string, hex_text, is_digit_of, law_hex_text_digits};
use vstd::prelude::*;

verus! {

/// Length in bytes of one packet on the wire.
pub const PACKET_LENGTH: usize = 13;

/// The two bytes that open a packet stand at position `i`.
pub open spec fn marker_at(s: Seq<u8>, i: int) -> bool {
    &&& 0 <= i
    &&& i + 1 < s.len()
    &&& s[i] == 0x5A
    &&& s[i + 1] == 0xA5
}

/// Position `i` is where the opening bytes stand first.
pub open spec fn first_marker_at(s: Seq<u8>, i: int) -> bool {
    &&& marker_at(s, i)
    &&& forall|j: int| 0 <= j < i ==> !#[trigger] marker_at(s, j)
}

/// The opening bytes stand nowhere.
pub open spec fn unmarked(s: Seq<u8>) -> bool {
    forall|i: int| !#[trigger] marker_at(s, i)
}

/// Where the opening bytes stand first, if they stand anywhere.
pub open spec fn first_marker(s: Seq<u8>) -> Option<int> {
    if unmarked(s) {
        None
    } else {
        Some(choose|i: int| first_marker_at(s, i))
    }
}

/// The first packet of a buffer and the position behind it. There is none
/// without opening bytes, and none if the buffer ends within the packet that
/// the first opening bytes begin.
pub open spec fn first_packet(s: Seq<u8>) -> Option<(Seq<u8>, int)> {
    match first_marker(s) {
        Some(i) => if 0 <= i && i + PACKET_LENGTH <= s.len() {
            Some((s.subrange(i, i + PACKET_LENGTH), i + PACKET_LENGTH))
        } else {
            None
        },
        None => None,
    }
}

proof fn lemma_first_marker(s: Seq<u8>, i: int)
    requires
        first_marker_at(s, i),
    ensures
        first_marker(s) == Some(i),
{
    assert(!unmarked(s));
    let k = choose|k: int| first_marker_at(s, k);
    assert(first_marker_at(s, k));
    if k < i {
        assert(!marker_at(s, k));
    }
    if i < k {
        assert(!marker_at(s, i));
    }
}

proof fn lemma_unmarked_bytes(s: Seq<u8>, end: int)
    requires
        end <= s.len(),
        forall|j: int| 0 <= j < end ==> !#[trigger] marker_at(s, j),
    ensures
        forall|j: int|
            0 <= j < end && j + 1 < s.len() ==> !(#[trigger] s[j] == 0x5A && s[j + 1] == 0xA5),
{
    assert forall|j: int| 0 <= j < end && j + 1 < s.len() implies !(#[trigger] s[j] == 0x5A && s[j
        + 1] == 0xA5) by {
        assert(!marker_at(s, j));
    }
}

/// Finds the first packet of `buffer`, and how many bytes of `buffer` end
/// with it.
pub fn extract_packet(buffer: &[u8]) -> (r: Option<(&[u8], usize)>)
    ensures
        match r {
            Some((packet, next_offset)) => {
                &&& 13 <= next_offset <= buffer@.len()
                &&& packet@.len() == 13
                &&& packet@[0] == 0x5A && packet@[1] == 0xA5
                &&& packet@ == buffer@.subrange(next_offset - 13, next_offset as int)
                &&& forall|j: int|
                    0 <= j < next_offset - 13 ==> !(#[trigger] buffer@[j] == 0x5A && buffer@[j + 1]
                        == 0xA5)
            },
            None => forall|i: int|
                0 <= i && i + 13 <= buffer@.len() ==> !(#[trigger] buffer@[i] == 0x5A && buffer@[i
                    + 1] == 0xA5),
        },
        match r {
            Some((packet, next_offset)) => {
                &&& first_marker_at(buffer@, next_offset - PACKET_LENGTH)
                &&& next_offset <= buffer@.len()
                &&& packet@ == buffer@.subrange(next_offset - PACKET_LENGTH, next_offset as int)
                &&& first_packet(buffer@) == Some((packet@, next_offset as int))
            },
            None => {
                &&& forall|i: int|
                    #[trigger] first_marker_at(buffer@, i) ==> buffer@.len() < i + PACKET_LENGTH
                &&& first_packet(buffer@) is None
            },
        },
{
    let n: usize = buffer.len();
    let mut start: usize = 0;
    while start < n && !(n - start >= 2 && buffer[start] == 0x5A && buffer[start + 1] == 0xA5)
        invariant
            n == buffer@.len(),
            start <= n,
            forall|j: int| 0 <= j < start ==> !#[trigger] marker_at(buffer@, j),
        decreases n - start,
    {
        start = start + 1;
    }
    proof {
        lemma_unmarked_bytes(buffer@, start as int);
    }
    if start == n {
        assert(unmarked(buffer@));
        return None;
    }
    proof {
        lemma_first_marker(buffer@, start as int);
    }
    if n - start < PACKET_LENGTH {
        assert forall|i: int| #[trigger] first_marker_at(buffer@, i) implies buffer@.len() < i
            + PACKET_LENGTH by {
            lemma_first_marker(buffer@, i);
        }
        return None;
    }
    let end: usize = start + PACKET_LENGTH;
    Some((vstd::slice::slice_subrange(buffer, start, end), end))
}

/// All packets of a buffer, in order: the first one, then those of what
/// follows it.
pub open spec fn packets_of(s: Seq<u8>) -> Seq<Seq<u8>>
    decreases s.len(),
{
    match first_packet(s) {
        Some((packet, next)) => seq![packet] + packets_of(s.skip(next)),
        None => Seq::empty(),
    }
}

/// How many bytes of a buffer end with its last packet.
pub open spec fn consumed_of(s: Seq<u8>) -> int
    decreases s.len(),
{
    match first_packet(s) {
        Some((_, next)) => next + consumed_of(s.skip(next)),
        None => 0,
    }
}

/// Splits off all packets of `data`, and says how many bytes of `data` end
/// with the last of them.
pub fn split_packets<'a>(data: &'a [u8]) -> (r: (Vec<&'a [u8]>, usize))
    ensures
        r.0@.map_values(|p: &'a [u8]| p@) == packets_of(data@),
        r.1 == consumed_of(data@),
        r.1 <= data@.len(),
{
    let mut packets: Vec<&'a [u8]> = Vec::new();
    let mut offset: usize = 0;
    let n: usize = data.len();
    let ghost view = |p: &'a [u8]| p@;
    let mut rest: &'a [u8] = data;
    assert(packets@.map_values(view) + packets_of(rest@) =~= packets_of(data@));
    loop
        invariant
            n == data@.len(),
            offset <= n,
            rest@.len() == n - offset,
            view == (|p: &'a [u8]| p@),
            packets@.map_values(view) + packets_of(rest@) == packets_of(data@),
            offset + consumed_of(rest@) == consumed_of(data@),
        ensures
            packets@.map_values(view) == packets_of(data@),
            offset == consumed_of(data@),
            offset <= n,
        decreases n - offset,
    {
        match extract_packet(rest) {
            Some((packet, next_offset)) => {
                let ghost before = packets@.map_values(view);
                let ghost tail = rest@.skip(next_offset as int);
                packets.push(packet);
                offset = offset + next_offset;
                rest = vstd::slice::slice_subrange(rest, next_offset, rest.len());
                assert(rest@ =~= tail);
                assert(packets@.map_values(view) =~= before + seq![packet@]);
                assert(before + (seq![packet@] + packets_of(tail)) =~= (before + seq![packet@])
                    + packets_of(tail));
            },
            None => {
                assert(packets@.map_values(view) + Seq::<Seq<u8>>::empty() =~= packets@.map_values(
                    view,
                ));
                break;
            },
        }
    }
    (packets, offset)
}

/// What a packet reports of the device under test.
#[derive(Debug, Clone, Copy, PartialEq, Eq, Structural)]
pub enum Status {
    Pass,
    Fail,
    Test,
    Unknown,
    TooShort,
}

/// Position of the status byte in a packet.
pub const STATUS_POSITION: usize = 12;

/// Position of the first barcode byte in a packet.
pub const BARCODE_START: usize = 2;

/// Position behind the last barcode byte in a packet.
pub const BARCODE_END: usize = 8;

/// The status that a packet reports.
pub open spec fn status_of(packet: Seq<u8>) -> Status {
    if packet.len() <= STATUS_POSITION {
        Status::TooShort
    } else if packet[12] == 0x02 {
        Status::Pass
    } else if packet[12] == 0x03 {
        Status::Fail
    } else if packet[12] == 0x04 {
        Status::Test
    } else {
        Status::Unknown
    }
}

impl Status {
    /// The word that stands for the status in the table and in messages.
    pub open spec fn word(self) -> Seq<char> {
        match self {
            Status::Pass => "OK"@,
            Status::Fail => "HATA"@,
            Status::Test => "TEST"@,
            Status::Unknown => "Unknown"@,
            Status::TooShort => "Invalid (too short)"@,
        }
    }

    /// Whether a packet with this status is recorded.
    pub open spec fn known(self) -> bool {
        self == Status::Pass || self == Status::Fail || self == Status::Test
    }

    /// Whether a packet with this status ends a test that is under way.
    pub open spec fn concludes(self) -> bool {
        self == Status::Pass || self == Status::Fail
    }

    /// The word that stands for the status in the table and in messages.
    pub fn label(self) -> (s: &'static str)
        ensures
            s@ == self.word(),
            self == Status::Pass ==> s@ == "OK"@,
            self == Status::Fail ==> s@ == "HATA"@,
            self == Status::Test ==> s@ == "TEST"@,
            self == Status::Unknown ==> s@ == "Unknown"@,
            self == Status::TooShort ==> s@ == "Invalid (too short)"@,
    {
        match self {
            Status::Pass => "OK",
            Status::Fail => "HATA",
            Status::Test => "TEST",
            Status::Unknown => "Unknown",
            Status::TooShort => "Invalid (too short)",
        }
    }

    /// Whether a packet with this status is recorded.
    pub fn is_known(self) -> (r: bool)
        ensures
            r == self.known(),
            r == !(self == Status::Unknown || self == Status::TooShort),
    {
        match self {
            Status::Pass | Status::Fail | Status::Test => true,
            Status::Unknown | Status::TooShort => false,
        }
    }

    /// Whether a packet with this status ends a test that is under way.
    pub fn is_concluding(self) -> (r: bool)
        ensures
            r == self.concludes(),
            r == (self == Status::Pass || self == Status::Fail),
    {
        match self {
            Status::Pass | Status::Fail => true,
            Status::Test | Status::Unknown | Status::TooShort => false,
        }
    }
}

/// Reads the status that `packet` reports.
pub fn packet_status(packet: &[u8]) -> (s: Status)
    ensures
        s == status_of(packet@),
        s == Status::TooShort <==> packet@.len() < 13,
        s == Status::Pass <==> packet@.len() >= 13 && packet@[12] == 0x02,
        s == Status::Fail <==> packet@.len() >= 13 && packet@[12] == 0x03,
        s == Status::Test <==> packet@.len() >= 13 && packet@[12] == 0x04,
{
    if packet.len() > STATUS_POSITION {
        match packet[STATUS_POSITION] {
            0x02 => Status::Pass,
            0x03 => Status::Fail,
            0x04 => Status::Test,
            _ => Status::Unknown,
        }
    } else {
        Status::TooShort
    }
}

/// The barcode of a packet: its six barcode bytes in hexadecimal.
pub open spec fn barcode_of(packet: Seq<u8>) -> Seq<char> {
    hex_text(packet.subrange(BARCODE_START as int, BARCODE_END as int))
}

/// Reads the barcode of `packet`.
pub fn packet_barcode(packet: &[u8]) -> (s: String)
    requires
        packet@.len() >= BARCODE_END,
    ensures
        s@ == barcode_of(packet@),
        s@.len() == 12,
        forall|k: int|
            0 <= k < 6 ==> is_digit_of(s@[2 * k], #[trigger] packet@[2 + k] as int / 16)
                && is_digit_of(s@[2 * k + 1], packet@[2 + k] as int % 16),
{
    proof {
        law_barcode_digits(packet@);
    }
    hex_string(vstd::slice::slice_subrange(packet, BARCODE_START, BARCODE_END))
}

/// A sequence of bytes that has the form of one packet.
pub open spec fn wire_packet(p: Seq<u8>) -> bool {
    &&& p.len() == 13
    &&& p[0] == 0x5A
    &&& p[1] == 0xA5
}

/// If opening bytes stand anywhere, they stand somewhere first.
proof fn lemma_some_first_marker(s: Seq<u8>, i: int)
    requires
        marker_at(s, i),
    ensures
        exists|k: int| #[trigger] first_marker_at(s, k) && k <= i,
    decreases i,
{
    if first_marker_at(s, i) {
    } else {
        let j = choose|j: int| 0 <= j < i && #[trigger] marker_at(s, j);
        lemma_some_first_marker(s, j);
    }
}

/// Everything that is split off a buffer has the form of a packet.
pub proof fn law_packets_have_packet_form(s: Seq<u8>)
    ensures
        forall|i: int| 0 <= i < packets_of(s).len() ==> wire_packet(#[trigger] packets_of(s)[i]),
    decreases s.len(),
{
    if let Some((packet, next)) = first_packet(s) {
        law_packets_have_packet_form(s.skip(next));
        let k = choose|k: int| marker_at(s, k);
        lemma_some_first_marker(s, k);
        let i = choose|i: int| first_marker_at(s, i);
        assert(first_marker_at(s, i));
        assert(packet =~= s.subrange(i, i + PACKET_LENGTH));
        assert(wire_packet(packet));
        assert forall|j: int| 0 <= j < packets_of(s).len() implies wire_packet(
            #[trigger] packets_of(s)[j],
        ) by {
            if j > 0 {
                assert(packets_of(s)[j] == packets_of(s.skip(next))[j - 1]);
            }
        }
    }
}

/// Splitting a buffer leaves no packet behind: the bytes after the last one
/// hold none, and every packet takes its full length out of the buffer.
pub proof fn law_no_packet_is_left(s: Seq<u8>)
    ensures
        0 <= consumed_of(s) <= s.len(),
        packets_of(s).len() * PACKET_LENGTH <= consumed_of(s),
        first_packet(s.skip(consumed_of(s))) is None,
    decreases s.len(),
{
    if let Some((packet, next)) = first_packet(s) {
        let rest = s.skip(next);
        law_no_packet_is_left(rest);
        assert(rest.skip(consumed_of(rest)) =~= s.skip(consumed_of(s)));
    } else {
        assert(s.skip(0) =~= s);
    }
}

/// Bytes without opening bytes in front of a packet are skipped, and what
/// follows the packet is split as if it stood alone.
pub proof fn law_noise_is_skipped(noise: Seq<u8>, packet: Seq<u8>, rest: Seq<u8>)
    requires
        unmarked(noise),
        wire_packet(packet),
    ensures
        packets_of(noise + packet + rest) == seq![packet] + packets_of(rest),
        consumed_of(noise + packet + rest) == noise.len() + PACKET_LENGTH + consumed_of(rest),
{
    let s = noise + packet + rest;
    let n = noise.len() as int;
    assert(s[n] == packet[0] && s[n + 1] == packet[1]);
    assert forall|j: int| 0 <= j < n implies !#[trigger] marker_at(s, j) by {
        assert(!marker_at(noise, j));
        assert(s[j] == noise[j]);
        if j + 1 < n {
            assert(s[j + 1] == noise[j + 1]);
        }
    }
    assert(first_marker_at(s, n));
    lemma_first_marker(s, n);
    assert(s.subrange(n, n + PACKET_LENGTH) =~= packet);
    assert(s.skip(n + PACKET_LENGTH) =~= rest);
}

/// Packets that are sent one after the other are split into exactly those
/// packets, whatever bytes follow them.
pub proof fn law_sent_packets_are_read(packets: Seq<Seq<u8>>, rest: Seq<u8>)
    requires
        forall|i: int| 0 <= i < packets.len() ==> wire_packet(#[trigger] packets[i]),
    ensures
        packets_of(packets.flatten() + rest) == packets + packets_of(rest),
        consumed_of(packets.flatten() + rest) == packets.len() * PACKET_LENGTH + consumed_of(rest),
    decreases packets.len(),
{
    if packets.len() == 0 {
        assert(packets.flatten() + rest =~= rest);
        assert(packets + packets_of(rest) =~= packets_of(rest));
    } else {
        let tail = packets.drop_first();
        law_sent_packets_are_read(tail, rest);
        let noise = Seq::<u8>::empty();
        law_noise_is_skipped(noise, packets[0], tail.flatten() + rest);
        assert(packets.flatten() + rest =~= noise + packets[0] + (tail.flatten() + rest));
        assert(packets + packets_of(rest) =~= seq![packets[0]] + (tail + packets_of(rest)));
    }
}

/// A buffer that is shorter than a packet holds none: a packet that arrives
/// cut in two is not put together again.
pub proof fn law_cut_packet_is_not_read(s: Seq<u8>)
    requires
        s.len() < PACKET_LENGTH,
    ensures
        packets_of(s) == Seq::<Seq<u8>>::empty(),
        consumed_of(s) == 0,
{
}

/// The two opening bytes stand next to each other nowhere in `s`.
pub open spec fn no_opening_bytes(s: Seq<u8>) -> bool {
    forall|i: int| 0 <= i && i + 1 < s.len() ==> !(#[trigger] s[i] == 0x5A && s[i + 1] == 0xA5)
}

/// No opening bytes in `s` have the length of a packet from them on.
pub open spec fn no_whole_packet(s: Seq<u8>) -> bool {
    forall|i: int| 0 <= i && i + 13 <= s.len() ==> !(#[trigger] s[i] == 0x5A && s[i + 1] == 0xA5)
}

proof fn lemma_unmarked(s: Seq<u8>)
    ensures
        no_opening_bytes(s) <==> unmarked(s),
{
    if no_opening_bytes(s) {
        assert forall|i: int| !#[trigger] marker_at(s, i) by {
            if 0 <= i && i + 1 < s.len() {
                assert(!(s[i] == 0x5A && s[i + 1] == 0xA5));
            }
        }
    }
    if unmarked(s) {
        lemma_unmarked_bytes(s, s.len() as int);
    }
}

/// A buffer holds a packet if and only if opening bytes have the length of a
/// packet from them on. The first packet is thirteen bytes of the buffer that
/// begin with opening bytes, and none stand before it.
pub proof fn law_first_packet(s: Seq<u8>)
    ensures
        match first_packet(s) {
            Some((packet, next)) => {
                &&& 13 <= next <= s.len()
                &&& packet == s.subrange(next - 13, next)
                &&& wire_packet(packet)
                &&& forall|j: int|
                    0 <= j < next - 13 ==> !(#[trigger] s[j] == 0x5A && s[j + 1] == 0xA5)
            },
            None => no_whole_packet(s),
        },
{
    if unmarked(s) {
        lemma_unmarked(s);
    } else {
        let k = choose|k: int| marker_at(s, k);
        lemma_some_first_marker(s, k);
        let i = choose|i: int| first_marker_at(s, i);
        assert(first_marker_at(s, i));
        lemma_first_marker(s, i);
        lemma_unmarked_bytes(s, i);
    }
}

/// A buffer in which no opening bytes have the length of a packet from them on
/// gives no packets.
pub proof fn law_nothing_is_read_without_a_packet(s: Seq<u8>)
    requires
        no_whole_packet(s),
    ensures
        packets_of(s).len() == 0,
        consumed_of(s) == 0,
{
    law_first_packet(s);
    if let Some((packet, next)) = first_packet(s) {
        assert(packet[0] == s[next - 13]);
        assert(packet[1] == s[next - 13 + 1]);
    }
}

/// A buffer that begins with bytes without opening bytes, and then a packet,
/// gives that packet first, then the packets of what follows; and nothing else
/// decides. Together with the law on buffers without a packet this says what
/// every buffer gives.
pub proof fn law_buffer_is_read_from_the_front(noise: Seq<u8>, packet: Seq<u8>, rest: Seq<u8>)
    requires
        no_opening_bytes(noise),
        wire_packet(packet),
    ensures
        packets_of(noise + packet + rest).len() == 1 + packets_of(rest).len(),
        packets_of(noise + packet + rest)[0] == packet,
        forall|i: int|
            0 <= i < packets_of(rest).len() ==> packets_of(noise + packet + rest)[i + 1]
                == #[trigger] packets_of(rest)[i],
        consumed_of(noise + packet + rest) == noise.len() + 13 + consumed_of(rest),
{
    lemma_unmarked(noise);
    law_noise_is_skipped(noise, packet, rest);
}

/// The status of a packet is decided by byte 12 alone.
pub proof fn law_status_is_byte_twelve(packet: Seq<u8>)
    ensures
        status_of(packet) == Status::TooShort <==> packet.len() < 13,
        packet.len() >= 13 ==> {
            &&& status_of(packet) == Status::Pass <==> packet[12] == 0x02
            &&& status_of(packet) == Status::Fail <==> packet[12] == 0x03
            &&& status_of(packet) == Status::Test <==> packet[12] == 0x04
            &&& status_of(packet) == Status::Unknown <==> packet[12] != 0x02 && packet[12] != 0x03
                && packet[12] != 0x04
        },
{
}

/// Two packets with the same byte 12 have the same status, whatever their other
/// bytes hold.
pub proof fn law_status_ignores_other_bytes(packet: Seq<u8>, other: Seq<u8>)
    requires
        packet.len() >= 13,
        other.len() >= 13,
        packet[12] == other[12],
    ensures
        status_of(packet) == status_of(other),
{
}

/// The five statuses have five different words, and these are they.
pub proof fn law_status_words(a: Status, b: Status)
    ensures
        Status::Pass.word() == "OK"@,
        Status::Fail.word() == "HATA"@,
        Status::Test.word() == "TEST"@,
        Status::Unknown.word() == "Unknown"@,
        Status::TooShort.word() == "Invalid (too short)"@,
        a.word() == b.word() ==> a == b,
        a.known() <==> a == Status::Pass || a == Status::Fail || a == Status::Test,
        a.concludes() <==> a == Status::Pass || a == Status::Fail,
{
    reveal_strlit("OK");
    reveal_strlit("HATA");
    reveal_strlit("TEST");
    reveal_strlit("Unknown");
    reveal_strlit("Invalid (too short)");
    assert("OK"@.len() == 2 && "Unknown"@.len() == 7 && "Invalid (too short)"@.len() == 19);
    assert("HATA"@.len() == 4 && "HATA"@[0] == 'H' && "TEST"@.len() == 4 && "TEST"@[0] == 'T');
}

/// The barcode has twelve characters, and each of the bytes 2 to 7 stands in it
/// at twice its place among them: first the digit of its high half, then that of
/// its low half.
pub proof fn law_barcode_digits(packet: Seq<u8>)
    requires
        packet.len() >= 8,
    ensures
        barcode_of(packet).len() == 12,
        forall|k: int|
            0 <= k < 6 ==> is_digit_of(
                barcode_of(packet)[2 * k],
                #[trigger] packet[2 + k] as int / 16,
            ) && is_digit_of(barcode_of(packet)[2 * k + 1], packet[2 + k] as int % 16),
{
    let bytes = packet.subrange(2, 8);
    law_hex_text_digits(bytes);
    assert forall|k: int| 0 <= k < 6 implies is_digit_of(
        barcode_of(packet)[2 * k],
        #[trigger] packet[2 + k] as int / 16,
    ) && is_digit_of(barcode_of(packet)[2 * k + 1], packet[2 + k] as int % 16) by {
        assert(bytes[k] == packet[2 + k]);
    }
}

} // verus!
