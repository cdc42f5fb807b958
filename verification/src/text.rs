use vstd::prelude::*;
use vstd::string::StringExecFns;

verus! {

/// The upper-case hexadecimal digit of a value below sixteen.
pub open spec fn hex_char(n: int) -> char {
    if n < 10 {
        (n + 48) as char
    } else {
        (n + 55) as char
    }
}

/// The two upper-case hexadecimal digits of a byte, the high half first.
pub open spec fn hex_byte(b: u8) -> Seq<char> {
    seq![hex_char(b as int / 16), hex_char(b as int % 16)]
}

/// The two-digit forms of all bytes, one after the other.
pub open spec fn hex_text(bytes: Seq<u8>) -> Seq<char>
    decreases bytes.len(),
{
    if bytes.len() == 0 {
        Seq::empty()
    } else {
        hex_text(bytes.drop_last()) + hex_byte(bytes.last())
    }
}

/// The two-digit forms of all bytes, with one blank between neighbours.
pub open spec fn hex_dump_text(bytes: Seq<u8>) -> Seq<char>
    decreases bytes.len(),
{
    if bytes.len() == 0 {
        Seq::empty()
    } else if bytes.len() == 1 {
        hex_byte(bytes.last())
    } else {
        hex_dump_text(bytes.drop_last()) + seq![' '] + hex_byte(bytes.last())
    }
}

/// The digit of a value below sixteen, as a string of one character.
fn hex_digit(n: u8) -> (d: &'static str)
    requires
        n < 16,
    ensures
        d@ == seq![hex_char(n as int)],
{
    proof {
        reveal_strlit("0");
        reveal_strlit("1");
        reveal_strlit("2");
        reveal_strlit("3");
        reveal_strlit("4");
        reveal_strlit("5");
        reveal_strlit("6");
        reveal_strlit("7");
        reveal_strlit("8");
        reveal_strlit("9");
        reveal_strlit("A");
        reveal_strlit("B");
        reveal_strlit("C");
        reveal_strlit("D");
        reveal_strlit("E");
        reveal_strlit("F");
    }
    match n {
        0 => "0",
        1 => "1",
        2 => "2",
        3 => "3",
        4 => "4",
        5 => "5",
        6 => "6",
        7 => "7",
        8 => "8",
        9 => "9",
        10 => "A",
        11 => "B",
        12 => "C",
        13 => "D",
        14 => "E",
        _ => "F",
    }
}

/// Appends the two digits of `b` to `out`.
fn push_hex(out: &mut String, b: u8)
    ensures
        final(out)@ == old(out)@ + hex_byte(b),
{
    out.append(hex_digit(b / 16));
    out.append(hex_digit(b % 16));
    assert(out@ =~= old(out)@ + hex_byte(b));
}

/// The bytes in upper-case hexadecimal, without separators.
pub fn hex_string(bytes: &[u8]) -> (s: String)
    ensures
        s@ == hex_text(bytes@),
        s@.len() == 2 * bytes@.len(),
        forall|k: int|
            0 <= k < bytes@.len() ==> is_digit_of(s@[2 * k], #[trigger] bytes@[k] as int / 16)
                && is_digit_of(s@[2 * k + 1], bytes@[k] as int % 16),
{
    let mut s = String::new();
    let n: usize = bytes.len();
    assert(bytes@.take(0) =~= Seq::empty());
    for i in 0..n
        invariant
            n == bytes@.len(),
            s@ == hex_text(bytes@.take(i as int)),
    {
        push_hex(&mut s, bytes[i]);
        assert(bytes@.take(i + 1).drop_last() =~= bytes@.take(i as int));
        assert(bytes@.take(i + 1).last() == bytes@[i as int]);
    }
    assert(bytes@.take(n as int) =~= bytes@);
    proof {
        law_hex_text_digits(bytes@);
    }
    s
}

/// The bytes in upper-case hexadecimal, separated by single blanks.
pub fn hex_dump(bytes: &[u8]) -> (s: String)
    ensures
        s@ == hex_dump_text(bytes@),
        s@.len() == if bytes@.len() == 0 { 0 } else { 3 * bytes@.len() - 1 },
        forall|k: int|
            0 <= k < bytes@.len() ==> is_digit_of(s@[3 * k], #[trigger] bytes@[k] as int / 16)
                && is_digit_of(s@[3 * k + 1], bytes@[k] as int % 16) && (k + 1 < bytes@.len()
                ==> s@[3 * k + 2] == ' '),
{
    let mut s = String::new();
    let n: usize = bytes.len();
    assert(bytes@.take(0) =~= Seq::empty());
    proof {
        reveal_strlit(" ");
    }
    assert(" "@ =~= seq![' ']);
    for i in 0..n
        invariant
            n == bytes@.len(),
            " "@ == seq![' '],
            s@ == hex_dump_text(bytes@.take(i as int)),
    {
        assert(bytes@.take(i + 1).drop_last() =~= bytes@.take(i as int));
        assert(bytes@.take(i + 1).last() == bytes@[i as int]);
        if i > 0 {
            s.append(" ");
        }
        push_hex(&mut s, bytes[i]);
        assert(i == 0 ==> s@ =~= hex_byte(bytes@[0]));
    }
    assert(bytes@.take(n as int) =~= bytes@);
    proof {
        law_hex_dump_digits(bytes@);
    }
    s
}

/// Whether two strings hold the same characters.
pub fn same_text(a: &str, b: &str) -> (r: bool)
    ensures
        r == (a@ == b@),
{
    a.to_owned() == b.to_owned()
}

/// The decimal digits of a natural number, without leading zeros.
pub open spec fn decimal_digits(n: nat) -> Seq<char>
    decreases n,
{
    if n < 10 {
        seq![hex_char(n as int)]
    } else {
        decimal_digits(n / 10) + seq![hex_char(n as int % 10)]
    }
}

/// An integer in decimal, with a minus sign in front if it is negative.
pub open spec fn decimal_text(n: int) -> Seq<char> {
    if n < 0 {
        seq!['-'] + decimal_digits((-n) as nat)
    } else {
        decimal_digits(n as nat)
    }
}

/// Appends the decimal digits of `n` to `out`.
fn push_decimal(out: &mut String, n: u64)
    ensures
        final(out)@ == old(out)@ + decimal_digits(n as nat),
    decreases n,
{
    if n >= 10 {
        push_decimal(out, n / 10);
    }
    out.append(hex_digit((n % 10) as u8));
    assert(out@ =~= old(out)@ + decimal_digits(n as nat));
}

/// `n` in decimal.
pub fn decimal_string(n: i64) -> (s: String)
    ensures
        s@ == decimal_text(n as int),
        names_number(s@, n as int),
{
    proof {
        law_decimal_text_names_its_number(n as int);
    }
    let mut s = String::new();
    if n < 0 {
        proof {
            reveal_strlit("-");
        }
        s.append("-");
        let below: i64 = -(n + 1);
        push_decimal(&mut s, below as u64 + 1);
        assert(s@ =~= seq!['-'] + decimal_digits((-n) as nat));
    } else {
        push_decimal(&mut s, n as u64);
        assert(s@ =~= decimal_digits(n as nat));
    }
    s
}

/// The number that decimal digits stand for.
pub open spec fn digits_value(s: Seq<char>) -> int
    decreases s.len(),
{
    if s.len() == 0 {
        0
    } else {
        10 * digits_value(s.drop_last()) + (s.last() as int - '0' as int)
    }
}

pub(crate) proof fn lemma_digits_value(n: nat)
    ensures
        digits_value(decimal_digits(n)) == n,
        decimal_digits(n).len() > 0,
        forall|i: int|
            0 <= i < decimal_digits(n).len() ==> '0' <= #[trigger] decimal_digits(n)[i] <= '9',
    decreases n,
{
    let s = decimal_digits(n);
    if n < 10 {
        assert(s.drop_last() =~= Seq::empty());
        assert(digits_value(s.drop_last()) == 0);
    } else {
        lemma_digits_value(n / 10);
        assert(s.drop_last() =~= decimal_digits(n / 10));
    }
}

/// Different integers have different decimal forms.
pub proof fn law_decimal_text_is_injective(a: int, b: int)
    requires
        decimal_text(a) == decimal_text(b),
    ensures
        a == b,
{
    let na = if a < 0 { (-a) as nat } else { a as nat };
    let nb = if b < 0 { (-b) as nat } else { b as nat };
    lemma_digits_value(na);
    lemma_digits_value(nb);
    if a < 0 {
        assert(decimal_text(a)[0] == '-');
        assert(decimal_text(a).skip(1) =~= decimal_digits(na));
    }
    if b < 0 {
        assert(decimal_text(b)[0] == '-');
        assert(decimal_text(b).skip(1) =~= decimal_digits(nb));
    }
}

/// Equal fronts can be taken off equal texts.
pub(crate) proof fn lemma_same_front(front: Seq<char>, x: Seq<char>, y: Seq<char>)
    requires
        front + x == front + y,
    ensures
        x == y,
{
    assert(x =~= (front + x).skip(front.len() as int));
    assert(y =~= (front + y).skip(front.len() as int));
}

/// A character that `hex_string` can write.
pub open spec fn is_hex_char(c: char) -> bool {
    '0' <= c <= '9' || 'A' <= c <= 'F'
}

/// The hexadecimal form of bytes has two characters for each byte, all of
/// them hexadecimal digits.
pub proof fn law_hex_text_is_hex(bytes: Seq<u8>)
    ensures
        hex_text(bytes).len() == 2 * bytes.len(),
        forall|i: int| 0 <= i < hex_text(bytes).len() ==> is_hex_char(#[trigger] hex_text(bytes)[i]),
    decreases bytes.len(),
{
    if bytes.len() > 0 {
        law_hex_text_is_hex(bytes.drop_last());
    }
}

/// Different bytes have different hexadecimal forms.
pub proof fn law_hex_text_is_injective(a: Seq<u8>, b: Seq<u8>)
    requires
        hex_text(a) == hex_text(b),
    ensures
        a == b,
    decreases a.len(),
{
    law_hex_text_is_hex(a);
    law_hex_text_is_hex(b);
    if a.len() > 0 {
        let (x, y) = (hex_text(a.drop_last()), hex_text(b.drop_last()));
        let n = x.len() as int;
        law_hex_text_is_hex(a.drop_last());
        law_hex_text_is_hex(b.drop_last());
        assert(hex_text(a).take(n) =~= x);
        assert(hex_text(b).take(n) =~= y);
        law_hex_text_is_injective(a.drop_last(), b.drop_last());
        assert(hex_text(a)[n] == hex_char(a.last() as int / 16));
        assert(hex_text(b)[n] == hex_char(b.last() as int / 16));
        assert(hex_text(a)[n + 1] == hex_char(a.last() as int % 16));
        assert(hex_text(b)[n + 1] == hex_char(b.last() as int % 16));
        assert(a =~= a.drop_last().push(a.last()));
        assert(b =~= b.drop_last().push(b.last()));
    } else {
        assert(a =~= b);
    }
}

/// `c` is the upper-case hexadecimal digit of the value `n`.
pub open spec fn is_digit_of(c: char, n: int) -> bool {
    ||| 0 <= n <= 9 && c as int == '0' as int + n
    ||| 10 <= n <= 15 && c as int == 'A' as int + (n - 10)
}

/// In the hexadecimal form of bytes, the two characters at twice the position
/// of a byte are the digit of its high half and the digit of its low half.
pub proof fn law_hex_text_digits(bytes: Seq<u8>)
    ensures
        hex_text(bytes).len() == 2 * bytes.len(),
        forall|k: int|
            0 <= k < bytes.len() ==> is_digit_of(
                hex_text(bytes)[2 * k],
                #[trigger] bytes[k] as int / 16,
            ) && is_digit_of(hex_text(bytes)[2 * k + 1], bytes[k] as int % 16),
    decreases bytes.len(),
{
    if bytes.len() > 0 {
        let front = bytes.drop_last();
        law_hex_text_digits(front);
        let s = hex_text(bytes);
        assert forall|k: int| 0 <= k < bytes.len() implies is_digit_of(
            s[2 * k],
            #[trigger] bytes[k] as int / 16,
        ) && is_digit_of(s[2 * k + 1], bytes[k] as int % 16) by {
            if k < front.len() {
                assert(front[k] == bytes[k]);
                assert(s[2 * k] == hex_text(front)[2 * k]);
                assert(s[2 * k + 1] == hex_text(front)[2 * k + 1]);
            }
        }
    }
}

/// In a dump of bytes, the characters at three times the position of a byte
/// are its two digits and, unless it is the last, a blank.
pub proof fn law_hex_dump_digits(bytes: Seq<u8>)
    ensures
        hex_dump_text(bytes).len() == if bytes.len() == 0 { 0 } else { 3 * bytes.len() - 1 },
        forall|k: int|
            0 <= k < bytes.len() ==> is_digit_of(
                hex_dump_text(bytes)[3 * k],
                #[trigger] bytes[k] as int / 16,
            ) && is_digit_of(hex_dump_text(bytes)[3 * k + 1], bytes[k] as int % 16) && (k + 1
                < bytes.len() ==> hex_dump_text(bytes)[3 * k + 2] == ' '),
    decreases bytes.len(),
{
    if bytes.len() > 0 {
        let front = bytes.drop_last();
        law_hex_dump_digits(front);
        let s = hex_dump_text(bytes);
        let f = hex_dump_text(front);
        assert forall|k: int| 0 <= k < bytes.len() implies is_digit_of(
            s[3 * k],
            #[trigger] bytes[k] as int / 16,
        ) && is_digit_of(s[3 * k + 1], bytes[k] as int % 16) && (k + 1 < bytes.len() ==> s[3 * k
            + 2] == ' ') by {
            if k < front.len() {
                assert(front[k] == bytes[k]);
                assert(s[3 * k] == f[3 * k]);
                assert(s[3 * k + 1] == f[3 * k + 1]);
                if k + 1 < front.len() {
                    assert(s[3 * k + 2] == f[3 * k + 2]);
                } else {
                    assert(s[3 * k + 2] == ' ');
                }
            }
        }
    }
}

/// `s` is a run of decimal digits, without a zero in front of others, that
/// stands for `n`.
pub open spec fn names_natural(s: Seq<char>, n: int) -> bool {
    &&& s.len() > 0
    &&& forall|i: int| 0 <= i < s.len() ==> '0' <= #[trigger] s[i] <= '9'
    &&& s.len() > 1 ==> s[0] != '0'
    &&& digits_value(s) == n
}

/// `s` stands for `n` in decimal: digits, with a minus sign in front if and only
/// if `n` is negative.
pub open spec fn names_number(s: Seq<char>, n: int) -> bool {
    if n < 0 {
        s.len() > 0 && s[0] == '-' && names_natural(s.skip(1), -n)
    } else {
        names_natural(s, n)
    }
}

proof fn lemma_decimal_digits_name(n: nat)
    ensures
        names_natural(decimal_digits(n), n as int),
        n > 0 ==> decimal_digits(n)[0] != '0',
    decreases n,
{
    lemma_digits_value(n);
    if n >= 10 {
        lemma_decimal_digits_name(n / 10);
        assert(decimal_digits(n)[0] == decimal_digits(n / 10)[0]);
    }
}

/// The decimal form of an integer stands for that integer.
pub proof fn law_decimal_text_names_its_number(n: int)
    ensures
        names_number(decimal_text(n), n),
{
    if n < 0 {
        lemma_decimal_digits_name((-n) as nat);
        assert(decimal_text(n).skip(1) =~= decimal_digits((-n) as nat));
    } else {
        lemma_decimal_digits_name(n as nat);
    }
}

} // verus!
