//! Decimal numbers and small string helpers.

use vstd::prelude::*;
use vstd::string::*;

verus! {

/// The decimal digit with value `d`.
pub open spec fn digit(d: nat) -> char {
    (('0' as nat) + d) as char
}

/// `n` in decimal without leading zeros.
pub open spec fn nat_text(n: nat) -> Seq<char>
    decreases n,
{
    if n < 10 {
        seq![digit(n)]
    } else {
        nat_text(n / 10).push(digit(n % 10))
    }
}

/// `v` in decimal, with a minus sign in front of a negative number.
pub open spec fn int_text(v: int) -> Seq<char> {
    if v < 0 {
        seq!['-'] + nat_text((-v) as nat)
    } else {
        nat_text(v as nat)
    }
}

fn digit_str(d: u64) -> (s: &'static str)
    requires
        d < 10,
    ensures
        s@ == seq![digit(d as nat)],
{
    proof {
        reveal_strlit("0");
        reveal_strlit("1");
        reveal_strlit("2");
        reveal_strlit("3");
        reveal_strlit("4");
        reveal_strlit("5");
        reveal_strlit("6");
        reveal_strlit("7");
        reveal_strlit("8");
        reveal_strlit("9");
    }
    let s: &'static str = match d {
        0 => "0",
        1 => "1",
        2 => "2",
        3 => "3",
        4 => "4",
        5 => "5",
        6 => "6",
        7 => "7",
        8 => "8",
        _ => "9",
    };
    assert(s@ =~= seq![digit(d as nat)]);
    s
}

/// Appends `n` in decimal.
pub fn append_u64(out: &mut String, n: u64)
    ensures
        final(out)@ == old(out)@ + nat_text(n as nat),
    decreases n,
{
    if n < 10 {
        out.append(digit_str(n));
    } else {
        append_u64(out, n / 10);
        out.append(digit_str(n % 10));
        assert(out@ =~= old(out)@ + nat_text(n as nat));
    }
}

/// Appends `v` in decimal.
pub fn append_i64(out: &mut String, v: i64)
    ensures
        final(out)@ == old(out)@ + int_text(v as int),
{
    if v < 0 {
        proof {
            reveal_strlit("-");
        }
        out.append("-");
        append_u64(out, (-(v as i128)) as u64);
        assert(out@ =~= old(out)@ + int_text(v as int));
    } else {
        append_u64(out, v as u64);
    }
}

/// Whether `c` occurs in `s`.
pub fn contains_char(s: &str, c: char) -> (r: bool)
    ensures
        r == s@.contains(c),
{
    for x in it: s.chars()
        invariant
            it.seq() == s@,
            forall|j: int| 0 <= j < it.index() ==> s@[j] != c,
    {
        if x == c {
            assert(s@[it.index()] == c);
            return true;
        }
    }
    false
}

/// `a` followed by `b`.
pub fn join(a: &str, b: &str) -> (r: String)
    ensures
        r@ == a@ + b@,
{
    let mut out: String = String::new();
    out.append(a);
    out.append(b);
    assert(out@ =~= a@ + b@);
    out
}

/// `a`, a colon and `port` in decimal.
pub open spec fn address_text(host: Seq<char>, port: int) -> Seq<char> {
    host + seq![':'] + int_text(port)
}

/// `host:port`.
pub fn address(host: &str, port: i32) -> (r: String)
    ensures
        r@ == address_text(host@, port as int),
{
    proof {
        reveal_strlit(":");
    }
    let mut out: String = join(host, ":");
    append_i64(&mut out, port as i64);
    assert(out@ =~= address_text(host@, port as int));
    out
}

/// The key of a shuffle: `app-id`.
pub open spec fn key_text(app_id: Seq<char>, shuffle_id: i32) -> Seq<char> {
    app_id + seq!['-'] + int_text(shuffle_id as int)
}

/// The key of a shuffle.
pub fn shuffle_key(app_id: &str, shuffle_id: i32) -> (r: String)
    ensures
        r@ == key_text(app_id@, shuffle_id),
{
    proof {
        reveal_strlit("-");
    }
    let mut out: String = join(app_id, "-");
    append_i64(&mut out, shuffle_id as i64);
    assert(out@ =~= key_text(app_id@, shuffle_id));
    out
}

/// A hexadecimal digit.
pub open spec fn hex_digit(d: nat) -> char {
    if d < 10 {
        digit(d)
    } else {
        (('A' as nat) + d - 10) as char
    }
}

/// A byte as two upper-case hexadecimal digits.
pub open spec fn hex_text(b: u8) -> Seq<char> {
    seq![hex_digit((b / 16) as nat), hex_digit((b % 16) as nat)]
}

fn hex_str(d: u8) -> (s: &'static str)
    requires
        d < 16,
    ensures
        s@ == seq![hex_digit(d as nat)],
{
    if d < 10 {
        return digit_str(d as u64);
    }
    proof {
        reveal_strlit("A");
        reveal_strlit("B");
        reveal_strlit("C");
        reveal_strlit("D");
        reveal_strlit("E");
        reveal_strlit("F");
    }
    let s: &'static str = match d {
        10 => "A",
        11 => "B",
        12 => "C",
        13 => "D",
        14 => "E",
        _ => "F",
    };
    assert(s@ =~= seq![hex_digit(d as nat)]);
    s
}

/// Appends a byte as two upper-case hexadecimal digits.
pub fn append_hex(out: &mut String, b: u8)
    ensures
        final(out)@ == old(out)@ + hex_text(b),
{
    out.append(hex_str(b / 16));
    out.append(hex_str(b % 16));
    assert(out@ =~= old(out)@ + hex_text(b));
}

/// The part of `s` behind its last `-`.
pub open spec fn last_part(s: Seq<char>) -> Seq<char>
    decreases s.len(),
{
    if s.len() == 0 || s.last() == '-' {
        Seq::<char>::empty()
    } else {
        last_part(s.drop_last()).push(s.last())
    }
}

/// Whether `c` is a decimal digit.
pub open spec fn is_digit(c: char) -> bool {
    '0' <= c <= '9'
}

/// The number that decimal digits stand for.
pub open spec fn digits_value(s: Seq<char>) -> Option<nat>
    decreases s.len(),
{
    if s.len() == 0 {
        Some(0)
    } else {
        match digits_value(s.drop_last()) {
            Some(n) => if is_digit(s.last()) {
                Some((n * 10 + (s.last() as nat - '0' as nat)) as nat)
            } else {
                None
            },
            None => None,
        }
    }
}

/// The digits behind an optional plus sign.
pub open spec fn unsigned_part(s: Seq<char>) -> Seq<char> {
    if s.len() > 0 && s[0] == '+' {
        s.skip(1)
    } else {
        s
    }
}

/// The number that a text without a minus sign stands for.
pub open spec fn parsed(s: Seq<char>) -> Option<i32> {
    if unsigned_part(s).len() == 0 {
        None
    } else {
        match digits_value(unsigned_part(s)) {
            Some(n) => if n <= i32::MAX {
                Some(n as i32)
            } else {
                None
            },
            None => None,
        }
    }
}

/// The shuffle that a key names: the number behind the last `-`, 0 where there is none.
pub open spec fn key_shuffle(key: Seq<char>) -> i32 {
    match parsed(last_part(key)) {
        Some(n) => n,
        None => 0,
    }
}

/// A part of a text that is being read, digit by digit.
struct PartReader {
    /// Whether nothing was read
    empty: bool,
    /// Whether a plus sign was read first
    plus: bool,
    /// Whether digits were read
    some: bool,
    /// Whether only digits were read
    ok: bool,
    /// Whether the number is too large
    big: bool,
    value: u64,
}

impl PartReader {
    /// Whether the reader has read `part`.
    spec fn has_read(&self, part: Seq<char>) -> bool {
        let body = unsigned_part(part);
        &&& self.empty == (part.len() == 0)
        &&& self.plus == (part.len() > 0 && part[0] == '+')
        &&& self.some == (body.len() > 0)
        &&& self.ok == (digits_value(body) is Some)
        &&& self.ok ==> self.big == (digits_value(body)->0 > i32::MAX)
        &&& self.ok && !self.big ==> self.value == digits_value(body)->0
        &&& self.ok && !self.big ==> self.value <= i32::MAX
    }

    fn new() -> (r: Self)
        ensures
            r.has_read(Seq::<char>::empty()),
    {
        PartReader { empty: true, plus: false, some: false, ok: true, big: false, value: 0 }
    }

    /// Reads one character on.
    fn read(&mut self, c: char, Ghost(part): Ghost<Seq<char>>)
        requires
            old(self).has_read(part),
        ensures
            final(self).has_read(part.push(c)),
    {
        let ghost after = part.push(c);
        proof {
            if part.len() == 0 {
                if c != '+' {
                    assert(unsigned_part(after).drop_last() =~= Seq::<char>::empty());
                    assert(unsigned_part(after).last() == c);
                    assert(digits_value(Seq::<char>::empty()) == Some(0nat));
                } else {
                    assert(unsigned_part(after) =~= Seq::<char>::empty());
                }
            } else {
                assert(unsigned_part(after) =~= unsigned_part(part).push(c));
                assert(unsigned_part(after).drop_last() =~= unsigned_part(part));
            }
        }
        if self.empty && c == '+' {
            self.empty = false;
            self.plus = true;
            return;
        }
        self.empty = false;
        self.some = true;
        if '0' <= c && c <= '9' {
            let d: u64 = c as u64 - '0' as u64;
            if self.ok && !self.big {
                self.value = self.value * 10 + d;
                self.big = self.value > i32::MAX as u64;
            }
        } else {
            self.ok = false;
        }
    }

    /// The number that was read.
    fn number(&self, Ghost(part): Ghost<Seq<char>>) -> (r: i32)
        requires
            self.has_read(part),
        ensures
            r == match parsed(part) {
                Some(n) => n,
                None => 0,
            },
    {
        if self.some && self.ok && !self.big {
            self.value as i32
        } else {
            0
        }
    }
}

/// The shuffle that a key names.
pub fn shuffle_of_key(key: &str) -> (r: i32)
    ensures
        r == key_shuffle(key@),
{
    let mut reader: PartReader = PartReader::new();
    assert(last_part(key@.take(0)) =~= Seq::<char>::empty());
    for c in it: key.chars()
        invariant
            it.seq() == key@,
            reader.has_read(last_part(key@.take(it.index() as int))),
            key@.take(key@.len() as int) =~= key@,
    {
        let ghost part = last_part(key@.take(it.index() as int));
        proof {
            let t = key@.take(it.index() + 1);
            assert(c == key@[it.index() as int]);
            assert(t.drop_last() =~= key@.take(it.index() as int));
            assert(t.last() == c);
        }
        if c == '-' {
            reader = PartReader::new();
        } else {
            reader.read(c, Ghost(part));
        }
    }
    reader.number(Ghost(last_part(key@)))
}

/// The decimal digits of a number stand for that number.
pub proof fn lemma_digits(n: nat)
    ensures
        digits_value(nat_text(n)) == Some(n),
        nat_text(n).len() > 0,
        forall|i: int| 0 <= i < nat_text(n).len() ==> is_digit(#[trigger] nat_text(n)[i]),
    decreases n,
{
    let t = nat_text(n);
    if n < 10 {
        assert(t.drop_last() =~= Seq::<char>::empty());
        assert(digits_value(Seq::<char>::empty()) == Some(0nat));
    } else {
        lemma_digits(n / 10);
        assert(t.drop_last() =~= nat_text(n / 10));
        assert(t.last() == digit(n % 10));
    }
}

/// What stands behind the last `-`, if it holds none.
pub proof fn lemma_last_part(head: Seq<char>, tail: Seq<char>)
    requires
        forall|i: int| 0 <= i < tail.len() ==> #[trigger] tail[i] != '-',
    ensures
        last_part(head.push('-') + tail) == tail,
    decreases tail.len(),
{
    let s = head.push('-') + tail;
    if tail.len() == 0 {
        assert(s.last() == '-');
    } else {
        lemma_last_part(head, tail.drop_last());
        assert(s.drop_last() =~= head.push('-') + tail.drop_last());
        assert(s.last() == tail.last());
        assert(tail.drop_last().push(tail.last()) =~= tail);
    }
}

/// A key names the shuffle that it was made for. A negative number comes back without its
/// sign.
pub proof fn law_key_names_its_shuffle(app_id: Seq<char>, shuffle_id: i32)
    requires
        shuffle_id >= 0,
    ensures
        key_shuffle(key_text(app_id, shuffle_id)) == shuffle_id,
{
    let t = nat_text(shuffle_id as nat);
    lemma_digits(shuffle_id as nat);
    assert forall|i: int| 0 <= i < t.len() implies #[trigger] t[i] != '-' by {
        assert(is_digit(t[i]));
    }
    lemma_last_part(app_id, t);
    assert(app_id + seq!['-'] + t =~= app_id.push('-') + t);
    assert(is_digit(t[0]));
}

} // verus!
