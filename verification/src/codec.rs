//! Text building blocks shared by the durable record formats: lower-case hex
//! of UTF-8 bytes, decimal numbers as the standard library reads and writes
//! them, and fields joined by a separator.
use vstd::prelude::*;
use vstd::string::StringExecFns;
use vstd::string::StrSliceExecFns;
use vstd::string::StringSliceAdditionalSpecFns;
use vstd::utf8::{
    decode_utf8, encode_utf8, encode_utf8_decode_utf8, encode_utf8_valid_utf8, valid_utf8,
};

use crate::text::{decimal, decimal_text};

verus! {

/// Why a field could not be read.
#[derive(Debug, Clone, Copy, PartialEq, Eq, Structural)]
pub enum FieldError {
    InvalidHex,
    InvalidUtf8,
}

/// The lower-case hex digit for `d`.
pub open spec fn hex_char(d: nat) -> char {
    if d < 10 {
        ((d + 48) as u32) as char
    } else {
        ((d + 87) as u32) as char
    }
}

/// Lower-case hex of a byte sequence, two digits per byte.
pub open spec fn hex_of(bytes: Seq<u8>) -> Seq<char>
    decreases bytes.len(),
{
    if bytes.len() == 0 {
        Seq::empty()
    } else {
        hex_of(bytes.drop_last()) + seq![
            hex_char((bytes.last() / 16) as nat),
            hex_char((bytes.last() % 16) as nat),
        ]
    }
}

fn hex_digit_text(d: u8) -> (s: &'static str)
    requires
        d < 16,
    ensures
        s@ == seq![hex_char(d as nat)],
{
    proof {
        reveal_strlit("0");
        reveal_strlit("1");
        reveal_strlit("2");
        reveal_strlit("3");
        reveal_strlit("4");
        reveal_strlit("5");
        reveal_strlit("6");
        reveal_strlit("7");
        reveal_strlit("8");
        reveal_strlit("9");
        reveal_strlit("a");
        reveal_strlit("b");
        reveal_strlit("c");
        reveal_strlit("d");
        reveal_strlit("e");
        reveal_strlit("f");
    }
    match d {
        0 => "0",
        1 => "1",
        2 => "2",
        3 => "3",
        4 => "4",
        5 => "5",
        6 => "6",
        7 => "7",
        8 => "8",
        9 => "9",
        10 => "a",
        11 => "b",
        12 => "c",
        13 => "d",
        14 => "e",
        _ => "f",
    }
}

/// Lower-case hex of the UTF-8 bytes of `s`.
pub fn hex_encode(s: &str) -> (r: String)
    ensures
        r@ == hex_of(s.spec_bytes()),
{
    let bytes = s.as_bytes();
    let mut r = String::new();
    let mut i: usize = 0;
    while i < bytes.len()
        invariant
            bytes@ == s.spec_bytes(),
            i <= bytes@.len(),
            r@ == hex_of(bytes@.subrange(0, i as int)),
        decreases bytes@.len() - i,
    {
        let b = bytes[i];
        r.append(hex_digit_text(b / 16));
        r.append(hex_digit_text(b % 16));
        let ghost next = bytes@.subrange(0, i + 1);
        assert(next.drop_last() =~= bytes@.subrange(0, i as int));
        assert(next.last() == b);
        i = i + 1;
    }
    assert(bytes@.subrange(0, bytes@.len() as int) =~= bytes@);
    r
}

/// The value of one hex digit byte, upper or lower case.
pub open spec fn hex_digit_value(b: u8) -> Option<u8> {
    if 48 <= b <= 57 {
        Some((b - 48) as u8)
    } else if 97 <= b <= 102 {
        Some((b - 87) as u8)
    } else if 65 <= b <= 70 {
        Some((b - 55) as u8)
    } else {
        None
    }
}

/// The byte a two-byte chunk names when read as a base-16 number: two hex
/// digits, or a plus sign and one digit.
pub open spec fn hex_pair(a: u8, b: u8) -> Option<u8> {
    if a == 43 {
        hex_digit_value(b)
    } else {
        match (hex_digit_value(a), hex_digit_value(b)) {
            (Some(x), Some(y)) => Some((x * 16 + y) as u8),
            _ => None,
        }
    }
}

/// The bytes an even-length sequence of two-byte chunks names.
pub open spec fn unhex_bytes(s: Seq<u8>) -> Option<Seq<u8>>
    decreases s.len(),
{
    if s.len() == 0 {
        Some(Seq::empty())
    } else if s.len() < 2 {
        None
    } else {
        match (unhex_bytes(s.subrange(0, s.len() - 2)), hex_pair(s[s.len() - 2], s[s.len() - 1])) {
            (Some(prefix), Some(v)) => Some(prefix.push(v)),
            _ => None,
        }
    }
}

/// The text a hex field holds: its chunks name bytes that must be UTF-8.
pub open spec fn unhex_text(s: Seq<u8>) -> Result<Seq<char>, FieldError> {
    match unhex_bytes(s) {
        None => Err(FieldError::InvalidHex),
        Some(bytes) => if valid_utf8(bytes) {
            Ok(decode_utf8(bytes))
        } else {
            Err(FieldError::InvalidUtf8)
        },
    }
}

fn digit_value(b: u8) -> (r: Option<u8>)
    ensures
        r == hex_digit_value(b),
{
    if 48 <= b && b <= 57 {
        Some(b - 48)
    } else if 97 <= b && b <= 102 {
        Some(b - 87)
    } else if 65 <= b && b <= 70 {
        Some(b - 55)
    } else {
        None
    }
}

/// Builds a `String` from bytes that must be UTF-8.
///
/// Calls `String::from_utf8`, which returns the text exactly when the bytes
/// are valid UTF-8; the contract states that the text is their decoding.
#[verifier::external_body]
pub(crate) fn utf8_string(bytes: Vec<u8>) -> (r: Option<String>)
    ensures
        match r {
            Some(s) => valid_utf8(bytes@) && s@ == decode_utf8(bytes@),
            None => !valid_utf8(bytes@),
        },
{
    String::from_utf8(bytes).ok()
}

/// Reads a hex field back into text.
pub fn hex_decode(s: &str) -> (r: Result<String, FieldError>)
    ensures
        match r {
            Ok(text) => unhex_text(s.spec_bytes()) == Ok::<Seq<char>, FieldError>(text@),
            Err(e) => unhex_text(s.spec_bytes()) == Err::<Seq<char>, FieldError>(e),
        },
{
    let input = s.as_bytes();
    let n = input.len();
    if n % 2 != 0 {
        proof {
            lemma_odd_unhex(input@);
        }
        return Err(FieldError::InvalidHex);
    }
    let mut bytes: Vec<u8> = Vec::new();
    let mut i: usize = 0;
    while i < n
        invariant
            input@ == s.spec_bytes(),
            n == input@.len(),
            n % 2 == 0,
            i % 2 == 0,
            i <= n,
            unhex_bytes(input@.subrange(0, i as int)) == Some(bytes@),
        decreases n - i,
    {
        let a = input[i];
        let b = input[i + 1];
        let ghost next = input@.subrange(0, i + 2);
        assert(next.subrange(0, i as int) =~= input@.subrange(0, i as int));
        let value = if a == 43 {
            digit_value(b)
        } else {
            match (digit_value(a), digit_value(b)) {
                (Some(x), Some(y)) => Some(x * 16 + y),
                _ => None,
            }
        };
        match value {
            Some(v) => {
                bytes.push(v);
            },
            None => {
                proof {
                    lemma_unhex_prefix_fails(input@, i + 2);
                }
                return Err(FieldError::InvalidHex);
            },
        }
        i = i + 2;
    }
    assert(input@.subrange(0, n as int) =~= input@);
    match utf8_string(bytes) {
        Some(text) => Ok(text),
        None => Err(FieldError::InvalidUtf8),
    }
}

proof fn lemma_odd_unhex(s: Seq<u8>)
    requires
        s.len() % 2 == 1,
    ensures
        unhex_bytes(s) is None,
    decreases s.len(),
{
    if s.len() >= 2 {
        lemma_odd_unhex(s.subrange(0, s.len() - 2));
    }
}

/// Once an even prefix fails to read, every longer even extension fails.
proof fn lemma_unhex_prefix_fails(s: Seq<u8>, k: int)
    requires
        0 <= k <= s.len(),
        k % 2 == 0,
        s.len() % 2 == 0,
        unhex_bytes(s.subrange(0, k)) is None,
    ensures
        unhex_bytes(s) is None,
    decreases s.len() - k,
{
    if k < s.len() {
        let next = s.subrange(0, k + 2);
        assert(next.subrange(0, k) =~= s.subrange(0, k));
        if k + 2 == s.len() {
            assert(next =~= s);
        } else {
            lemma_unhex_prefix_fails(s, k + 2);
        }
    } else {
        assert(s.subrange(0, k) =~= s);
    }
}

/// The value of a decimal digit character.
pub open spec fn decimal_digit(c: char) -> Option<int> {
    if '0' <= c <= '9' {
        Some(c as int - 48)
    } else {
        None
    }
}

/// The value of a non-empty run of decimal digits.
pub open spec fn digits_value(s: Seq<char>) -> Option<int>
    decreases s.len(),
{
    if s.len() == 0 {
        None
    } else {
        match decimal_digit(s.last()) {
            None => None,
            Some(d) => if s.len() == 1 {
                Some(d)
            } else {
                match digits_value(s.drop_last()) {
                    None => None,
                    Some(v) => Some(v * 10 + d),
                }
            },
        }
    }
}

/// The magnitude an unsigned decimal names: an optional plus sign, then digits.
pub open spec fn unsigned_value(s: Seq<char>) -> Option<int> {
    if s.len() > 0 && s[0] == '+' {
        digits_value(s.drop_first())
    } else {
        digits_value(s)
    }
}

/// The value a signed decimal names: an optional sign, then digits.
pub open spec fn signed_value(s: Seq<char>) -> Option<int> {
    if s.len() > 0 && s[0] == '-' {
        match digits_value(s.drop_first()) {
            Some(v) => Some(-v),
            None => None,
        }
    } else {
        unsigned_value(s)
    }
}

proof fn lemma_digits_nonnegative(s: Seq<char>)
    ensures
        digits_value(s) matches Some(v) ==> v >= 0,
    decreases s.len(),
{
    if s.len() > 1 {
        lemma_digits_nonnegative(s.drop_last());
    }
}

/// Appending digits never lowers the value of a prefix.
proof fn lemma_digits_grow(s: Seq<char>, k: int)
    requires
        1 <= k <= s.len(),
        digits_value(s) is Some,
    ensures
        digits_value(s.subrange(0, k)) is Some,
        digits_value(s.subrange(0, k))->0 <= digits_value(s)->0,
    decreases s.len() - k,
{
    if k == s.len() {
        assert(s.subrange(0, k) =~= s);
    } else {
        let t = s.drop_last();
        assert(s.len() > 1);
        lemma_digits_nonnegative(t);
        assert(t.subrange(0, k) =~= s.subrange(0, k));
        lemma_digits_grow(t, k);
    }
}

/// Reads the digits of `s` from character `from` on as a number no larger
/// than `limit`.
fn read_digits(s: &str, from: usize, limit: u64) -> (r: Option<u64>)
    requires
        from <= s@.len(),
    ensures
        r == match digits_value(s@.subrange(from as int, s@.len() as int)) {
            Some(v) => if v <= limit {
                Some(v as u64)
            } else {
                None::<u64>
            },
            None => None::<u64>,
        },
{
    let n = s.unicode_len();
    if from >= n {
        return None;
    }
    let ghost digits = s@.subrange(from as int, n as int);
    let mut acc: u64 = 0;
    let mut i: usize = from;
    while i < n
        invariant
            n == s@.len(),
            from < n,
            digits == s@.subrange(from as int, n as int),
            from <= i <= n,
            i == from ==> acc == 0,
            i > from ==> digits_value(s@.subrange(from as int, i as int)) == Some(acc as int),
            acc <= limit,
        decreases n - i,
    {
        let c = s.get_char(i);
        let ghost prefix = s@.subrange(from as int, i + 1);
        assert(prefix.drop_last() =~= s@.subrange(from as int, i as int));
        assert(prefix.last() == c);
        if !('0' <= c && c <= '9') {
            proof {
                lemma_digits_prefix_fails(digits, (i - from) as int + 1);
                assert(digits.subrange(0, (i - from) as int + 1) =~= prefix);
            }
            return None;
        }
        let d = (c as u32 - 48) as u64;
        let ghost old_acc = acc;
        let next = match acc.checked_mul(10) {
            Some(m) => m.checked_add(d),
            None => None,
        };
        match next {
            Some(v) if v <= limit => {
                acc = v;
            },
            _ => {
                proof {
                    assert(digits.subrange(0, (i - from) as int + 1) =~= prefix);
                    if i > from {
                        assert(digits_value(prefix) == Some(old_acc * 10 + d));
                    } else {
                        assert(prefix.len() == 1);
                        assert(digits_value(prefix) == Some(d as int));
                    }
                    if digits_value(digits) is Some {
                        lemma_digits_grow(digits, (i - from) as int + 1);
                    }
                }
                return None;
            },
        }
        i = i + 1;
    }
    assert(s@.subrange(from as int, n as int) =~= digits);
    Some(acc)
}

/// A failing prefix of digits makes the whole run fail.
proof fn lemma_digits_prefix_fails(s: Seq<char>, k: int)
    requires
        1 <= k <= s.len(),
        decimal_digit(s[k - 1]) is None,
    ensures
        digits_value(s) is None,
    decreases s.len(),
{
    if k < s.len() {
        let t = s.drop_last();
        assert(t[k - 1] == s[k - 1]);
        lemma_digits_prefix_fails(t, k);
    }
}

/// Reads an unsigned decimal no larger than `limit`, as `str::parse` reads
/// unsigned integers.
pub fn parse_unsigned(s: &str, limit: u64) -> (r: Option<u64>)
    ensures
        r == match unsigned_value(s@) {
            Some(v) => if v <= limit {
                Some(v as u64)
            } else {
                None::<u64>
            },
            None => None::<u64>,
        },
        r matches Some(v) ==> unsigned_value(s@) == Some(v as int),
{
    proof {
        if s@.len() > 0 && s@[0] == '+' {
            lemma_digits_nonnegative(s@.drop_first());
        } else {
            lemma_digits_nonnegative(s@);
        }
    }
    let n = s.unicode_len();
    if n > 0 && s.get_char(0) == '+' {
        assert(s@.subrange(1, s@.len() as int) =~= s@.drop_first());
        read_digits(s, 1, limit)
    } else {
        assert(s@.subrange(0, s@.len() as int) =~= s@);
        read_digits(s, 0, limit)
    }
}

/// Reads a signed decimal in the range of `i64`, as `str::parse` does.
pub fn parse_i64(s: &str) -> (r: Option<i64>)
    ensures
        r == match signed_value(s@) {
            Some(v) => if i64::MIN <= v <= i64::MAX {
                Some(v as i64)
            } else {
                None::<i64>
            },
            None => None::<i64>,
        },
{
    let n = s.unicode_len();
    if n > 0 && s.get_char(0) == '-' {
        assert(s@.subrange(1, s@.len() as int) =~= s@.drop_first());
        match read_digits(s, 1, 0x8000_0000_0000_0000) {
            Some(m) => {
                proof {
                    lemma_digits_nonnegative(s@.drop_first());
                }
                assert(signed_value(s@) == Some(-(m as int)));
                if m == 0x8000_0000_0000_0000 {
                    assert(-(m as int) == i64::MIN);
                    Some(i64::MIN)
                } else {
                    assert(m < 0x8000_0000_0000_0000u64);
                    let v: i64 = m as i64;
                    assert(v == m);
                    Some(-v)
                }
            },
            None => {
                proof {
                    lemma_digits_nonnegative(s@.drop_first());
                    assert(s@[0] == '-');
                }
                None
            },
        }
    } else {
        assert(!(s@.len() > 0 && s@[0] == '-'));
        proof {
            if s@.len() > 0 && s@[0] == '+' {
                lemma_digits_nonnegative(s@.drop_first());
            } else {
                lemma_digits_nonnegative(s@);
            }
        }
        match parse_unsigned(s, 0x7fff_ffff_ffff_ffff) {
            Some(m) => Some(m as i64),
            None => {
                proof {
                    if s@.len() > 0 && s@[0] == '+' {
                        lemma_digits_nonnegative(s@.drop_first());
                    } else {
                        lemma_digits_nonnegative(s@);
                    }
                }
                None
            },
        }
    }
}

/// Decimal notation of an integer, with a minus sign when negative.
pub open spec fn signed_decimal(n: int) -> Seq<char> {
    if n < 0 {
        seq!['-'] + decimal((-n) as nat)
    } else {
        decimal(n as nat)
    }
}

/// Decimal notation of `n`, as `n.to_string()` writes it.
pub fn i64_text(n: i64) -> (s: String)
    ensures
        s@ == signed_decimal(n as int),
{
    if n < 0 {
        let magnitude: u64 = if n == i64::MIN {
            0x8000_0000_0000_0000
        } else {
            (-n) as u64
        };
        proof {
            reveal_strlit("-");
        }
        let mut s = String::from_str("-");
        s.append(decimal_text(magnitude).as_str());
        s
    } else {
        decimal_text(n as u64)
    }
}

/// Fields joined by a separator.
pub open spec fn join_with(fields: Seq<Seq<char>>, sep: Seq<char>) -> Seq<char>
    decreases fields.len(),
{
    if fields.len() == 0 {
        Seq::empty()
    } else if fields.len() == 1 {
        fields[0]
    } else {
        join_with(fields.drop_last(), sep) + sep + fields.last()
    }
}

/// The pieces `s` splits into at every `c`, as `str::split` gives them.
#[verifier::opaque]
pub open spec fn split_char(s: Seq<char>, c: char) -> Seq<Seq<char>>
    decreases s.len(),
{
    if s.len() == 0 {
        seq![Seq::empty()]
    } else {
        let rest = split_char(s.drop_last(), c);
        if s.last() == c {
            rest.push(Seq::empty())
        } else {
            rest.update(rest.len() - 1, rest.last().push(s.last()))
        }
    }
}

/// The pieces of a split hold no separator and join back to the text.
pub proof fn lemma_split_char(s: Seq<char>, c: char)
    ensures
        split_char(s, c).len() >= 1,
        join_with(split_char(s, c), seq![c]) == s,
        forall|k: int| 0 <= k < split_char(s, c).len() ==> !(#[trigger] split_char(s, c)[k]).contains(c),
    decreases s.len(),
{
    reveal(split_char);
    if s.len() > 0 {
        let t = s.drop_last();
        let x = s.last();
        lemma_split_char(t, c);
        let rest = split_char(t, c);
        let p = split_char(s, c);
        if x == c {
            assert(p.drop_last() =~= rest);
            assert(join_with(p, seq![c]) =~= s);
            assert forall|k: int| 0 <= k < p.len() implies !(#[trigger] p[k]).contains(c) by {
                if k < rest.len() {
                    assert(p[k] == rest[k]);
                } else {
                    assert(p[k] =~= Seq::<char>::empty());
                }
            }
        } else {
            let last = rest.last().push(x);
            if rest.len() == 1 {
                assert(join_with(rest, seq![c]) == rest[0]);
                assert(s =~= t.push(x));
                assert(p =~~= seq![last]);
                assert(join_with(seq![last], seq![c]) == last);
                assert(last =~= s);
            } else {
                assert(p.drop_last() =~= rest.drop_last());
                assert(join_with(rest, seq![c]) == join_with(rest.drop_last(), seq![c]) + seq![c]
                    + rest.last());
                assert(join_with(p, seq![c]) == join_with(p.drop_last(), seq![c]) + seq![c]
                    + p.last());
                assert(p.last() == last);
                assert(s =~= t.push(x));
                assert(join_with(p, seq![c]) =~= s);
            }
            assert forall|k: int| 0 <= k < p.len() implies !(#[trigger] p[k]).contains(c) by {
                if k < rest.len() - 1 {
                    assert(p[k] == rest[k]);
                } else {
                    assert(p[k] == last);
                    if last.contains(c) {
                        let j = choose|j: int| 0 <= j < last.len() && last[j] == c;
                        assert(rest.last()[j] == c);
                        assert(rest[rest.len() - 1].contains(c));
                    }
                }
            }
        }
    }
}

/// The pieces that join to a text and hold no separator are its split.
pub proof fn lemma_split_char_unique(s: Seq<char>, c: char, p: Seq<Seq<char>>)
    requires
        p.len() >= 1,
        join_with(p, seq![c]) == s,
        forall|k: int| 0 <= k < p.len() ==> !(#[trigger] p[k]).contains(c),
    ensures
        p == split_char(s, c),
    decreases s.len(),
{
    reveal(split_char);
    if s.len() == 0 {
        if p.len() > 1 {
            assert(join_with(p, seq![c]).len() >= 1);
        }
        assert(p[0].len() == 0);
        assert(p[0] =~= Seq::<char>::empty());
        assert(p =~~= seq![Seq::<char>::empty()]);
    } else {
        let t = s.drop_last();
        let x = s.last();
        if p.len() == 1 {
            assert(p[0] == s);
            assert(p[0][p[0].len() - 1] == x);
            assert(x != c);
            let q = seq![p[0].drop_last()];
            assert(!q[0].contains(c)) by {
                if q[0].contains(c) {
                    let j = choose|j: int| 0 <= j < q[0].len() && q[0][j] == c;
                    assert(p[0][j] == c);
                }
            }
            assert(join_with(q, seq![c]) =~= t);
            lemma_split_char_unique(t, c, q);
            assert(q[0].push(x) =~= p[0]);
            assert(p =~~= q.update(0, q[0].push(x)));
        } else {
            let d = p.drop_last();
            assert(s == join_with(d, seq![c]) + seq![c] + p.last());
            if p.last().len() == 0 {
                assert(x == c);
                assert(join_with(d, seq![c]) =~= t);
                assert forall|k: int| 0 <= k < d.len() implies !(#[trigger] d[k]).contains(c) by {
                    assert(d[k] == p[k]);
                }
                lemma_split_char_unique(t, c, d);
                assert(p.last() =~= Seq::<char>::empty());
                assert(p =~~= d.push(Seq::empty()));
            } else {
                let l = p.last();
                assert(l[l.len() - 1] == x);
                assert(x != c) by {
                    assert(!p[p.len() - 1].contains(c));
                }
                let q = p.update(p.len() - 1, l.drop_last());
                assert(q.drop_last() =~= d);
                assert(join_with(q, seq![c]) =~= t);
                assert forall|k: int| 0 <= k < q.len() implies !(#[trigger] q[k]).contains(c) by {
                    if k < q.len() - 1 {
                        assert(q[k] == p[k]);
                    } else if q[k].contains(c) {
                        let j = choose|j: int| 0 <= j < q[k].len() && q[k][j] == c;
                        assert(l[j] == c);
                        assert(p[p.len() - 1].contains(c));
                    }
                }
                lemma_split_char_unique(t, c, q);
                assert(q.last().push(x) =~= l);
                assert(p =~~= q.update(q.len() - 1, q.last().push(x)));
            }
        }
    }
}

/// Fields that hold no tab.
pub open spec fn tab_free(fields: Seq<Seq<char>>) -> bool {
    forall|k: int| 0 <= k < fields.len() ==> !(#[trigger] fields[k]).contains('\t')
}

/// The characters of each text.
pub open spec fn texts_of(v: Seq<String>) -> Seq<Seq<char>> {
    Seq::new(v.len(), |i: int| v[i]@)
}

/// Joins texts with a separator, as `[..].join(sep)` does.
pub fn join_texts(fields: &Vec<String>, sep: &str) -> (r: String)
    ensures
        r@ == join_with(texts_of(fields@), sep@),
{
    let mut r = String::new();
    let mut i: usize = 0;
    while i < fields.len()
        invariant
            i <= fields@.len(),
            r@ == join_with(texts_of(fields@.subrange(0, i as int)), sep@),
        decreases fields@.len() - i,
    {
        let ghost before = texts_of(fields@.subrange(0, i as int));
        let ghost after = texts_of(fields@.subrange(0, i + 1));
        assert(after.drop_last() =~= before);
        if i > 0 {
            r.append(sep);
        }
        r.append(fields[i].as_str());
        i = i + 1;
    }
    assert(fields@.subrange(0, fields@.len() as int) =~= fields@);
    r
}

/// Splits text at every `sep`, as `str::split` does: the pieces hold no
/// separator and join back to the text.
pub fn split_text(s: &str, sep: char) -> (r: Vec<String>)
    ensures
        r@.len() >= 1,
        texts_of(r@) == split_char(s@, sep),
        join_with(texts_of(r@), seq![sep]) == s@,
        forall|k: int| 0 <= k < r@.len() ==> !(#[trigger] r@[k])@.contains(sep),
{
    let n = s.unicode_len();
    let mut pieces: Vec<String> = Vec::new();
    let mut start: usize = 0;
    let mut i: usize = 0;
    while i < n
        invariant
            n == s@.len(),
            start <= i <= n,
            join_with(texts_of(pieces@).push(s@.subrange(start as int, i as int)), seq![sep])
                == s@.subrange(0, i as int),
            forall|k: int| 0 <= k < pieces@.len() ==> !(#[trigger] pieces@[k])@.contains(sep),
            !s@.subrange(start as int, i as int).contains(sep),
        decreases n - i,
    {
        let c = s.get_char(i);
        let ghost old_pieces = texts_of(pieces@);
        if c == sep {
            let piece = s.substring_char(start, i).to_owned();
            let ghost joined = join_with(old_pieces.push(piece@), seq![sep]);
            pieces.push(piece);
            assert(texts_of(pieces@) =~= old_pieces.push(piece@));
            let ghost next = texts_of(pieces@).push(s@.subrange(i + 1, i + 1));
            assert(next.drop_last() =~= texts_of(pieces@));
            assert(s@.subrange(i + 1, i + 1) =~= Seq::<char>::empty());
            assert(s@.subrange(0, i + 1) =~= s@.subrange(0, i as int) + seq![sep]);
            assert(!s@.subrange(i + 1, i + 1).contains(sep));
            start = i + 1;
        } else {
            let ghost cur = s@.subrange(start as int, i + 1);
            assert(cur =~= s@.subrange(start as int, i as int).push(c));
            let ghost prev = old_pieces.push(s@.subrange(start as int, i as int));
            let ghost next = old_pieces.push(cur);
            assert(next.drop_last() =~= old_pieces);
            assert(prev.drop_last() =~= old_pieces);
            assert(s@.subrange(0, i + 1) =~= s@.subrange(0, i as int).push(c));
            proof {
                if old_pieces.len() == 0 {
                    assert(join_with(next, seq![sep]) == cur);
                    assert(join_with(prev, seq![sep]) == s@.subrange(start as int, i as int));
                } else {
                    assert(join_with(next, seq![sep]) == join_with(old_pieces, seq![sep]) + seq![sep]
                        + cur);
                    assert(join_with(prev, seq![sep]) == join_with(old_pieces, seq![sep]) + seq![sep]
                        + s@.subrange(start as int, i as int));
                }
            }
            assert(!cur.contains(sep)) by {
                if cur.contains(sep) {
                    let k = choose|k: int| 0 <= k < cur.len() && cur[k] == sep;
                    if k < cur.len() - 1 {
                        assert(s@.subrange(start as int, i as int)[k] == sep);
                    }
                }
            }
        }
        i = i + 1;
    }
    let last = s.substring_char(start, n).to_owned();
    let ghost old_pieces = texts_of(pieces@);
    pieces.push(last);
    assert(texts_of(pieces@) =~= old_pieces.push(last@));
    assert(s@.subrange(0, n as int) =~= s@);
    proof {
        assert forall|k: int| 0 <= k < texts_of(pieces@).len() implies !(#[trigger] texts_of(
            pieces@,
        )[k]).contains(sep) by {
            assert(texts_of(pieces@)[k] == pieces@[k]@);
        }
        lemma_split_char_unique(s@, sep, texts_of(pieces@));
    }
    pieces
}


/// `n` lower-case hex digits of `v`, most significant first, zero-padded.
pub open spec fn hex_fixed(v: nat, n: nat) -> Seq<char>
    decreases n,
{
    if n == 0 {
        Seq::empty()
    } else {
        hex_fixed(v / 16, (n - 1) as nat) + seq![hex_char(v % 16)]
    }
}

/// `n` lower-case hex digits of `v`, as `format!("{v:016x}")` writes sixteen.
pub fn hex_fixed_text(v: u64, n: u64) -> (s: String)
    ensures
        s@ == hex_fixed(v as nat, n as nat),
    decreases n,
{
    if n == 0 {
        String::new()
    } else {
        let mut s = hex_fixed_text(v / 16, n - 1);
        s.append(hex_digit_text((v % 16) as u8));
        s
    }
}

/// The value of a hex digit character, upper or lower case.
pub open spec fn hex_char_value(c: char) -> Option<int> {
    if '0' <= c <= '9' {
        Some(c as int - 48)
    } else if 'a' <= c <= 'f' {
        Some(c as int - 87)
    } else if 'A' <= c <= 'F' {
        Some(c as int - 55)
    } else {
        None
    }
}

/// The value of a non-empty run of hex digits.
pub open spec fn hex_digits_value(s: Seq<char>) -> Option<int>
    decreases s.len(),
{
    if s.len() == 0 {
        None
    } else {
        match hex_char_value(s.last()) {
            None => None,
            Some(d) => if s.len() == 1 {
                Some(d)
            } else {
                match hex_digits_value(s.drop_last()) {
                    None => None,
                    Some(v) => Some(v * 16 + d),
                }
            },
        }
    }
}

/// The number a base-16 text names: an optional plus sign, then hex digits.
pub open spec fn hex_number(s: Seq<char>) -> Option<int> {
    if s.len() > 0 && s[0] == '+' {
        hex_digits_value(s.drop_first())
    } else {
        hex_digits_value(s)
    }
}

proof fn lemma_hex_digits_nonnegative(s: Seq<char>)
    ensures
        hex_digits_value(s) matches Some(v) ==> v >= 0,
    decreases s.len(),
{
    if s.len() > 1 {
        lemma_hex_digits_nonnegative(s.drop_last());
    }
}

proof fn lemma_hex_digits_grow(s: Seq<char>, k: int)
    requires
        1 <= k <= s.len(),
        hex_digits_value(s) is Some,
    ensures
        hex_digits_value(s.subrange(0, k)) is Some,
        hex_digits_value(s.subrange(0, k))->0 <= hex_digits_value(s)->0,
    decreases s.len() - k,
{
    if k == s.len() {
        assert(s.subrange(0, k) =~= s);
    } else {
        let t = s.drop_last();
        lemma_hex_digits_nonnegative(t);
        assert(t.subrange(0, k) =~= s.subrange(0, k));
        lemma_hex_digits_grow(t, k);
    }
}

proof fn lemma_hex_digits_prefix_fails(s: Seq<char>, k: int)
    requires
        1 <= k <= s.len(),
        hex_char_value(s[k - 1]) is None,
    ensures
        hex_digits_value(s) is None,
    decreases s.len(),
{
    if k < s.len() {
        let t = s.drop_last();
        assert(t[k - 1] == s[k - 1]);
        lemma_hex_digits_prefix_fails(t, k);
    }
}

fn hex_char_digit(c: char) -> (r: Option<u64>)
    ensures
        r matches Some(d) ==> hex_char_value(c) == Some(d as int) && d < 16,
        r is None ==> hex_char_value(c) is None,
{
    if '0' <= c && c <= '9' {
        Some((c as u32 - 48) as u64)
    } else if 'a' <= c && c <= 'f' {
        Some((c as u32 - 87) as u64)
    } else if 'A' <= c && c <= 'F' {
        Some((c as u32 - 55) as u64)
    } else {
        None
    }
}

/// Reads a base-16 number in the range of `u64`, as `u64::from_str_radix`
/// does with radix 16.
pub fn parse_hex_u64(s: &str) -> (r: Option<u64>)
    ensures
        r == match hex_number(s@) {
            Some(v) => if v <= u64::MAX {
                Some(v as u64)
            } else {
                None::<u64>
            },
            None => None::<u64>,
        },
        r matches Some(v) ==> hex_number(s@) == Some(v as int),
{
    let n = s.unicode_len();
    let from: usize = if n > 0 && s.get_char(0) == '+' {
        1
    } else {
        0
    };
    proof {
        if from == 1 {
            assert(s@.subrange(1, s@.len() as int) =~= s@.drop_first());
        } else {
            assert(s@.subrange(0, s@.len() as int) =~= s@);
        }
    }
    if from >= n {
        return None;
    }
    let ghost digits = s@.subrange(from as int, n as int);
    proof {
        lemma_hex_digits_nonnegative(digits);
    }
    let mut acc: u64 = 0;
    let mut i: usize = from;
    while i < n
        invariant
            n == s@.len(),
            from < n,
            digits == s@.subrange(from as int, n as int),
            hex_number(s@) == hex_digits_value(digits),
            hex_digits_value(digits) matches Some(v) ==> v >= 0,
            from <= i <= n,
            i == from ==> acc == 0,
            i > from ==> hex_digits_value(s@.subrange(from as int, i as int)) == Some(acc as int),
        decreases n - i,
    {
        let c = s.get_char(i);
        let ghost prefix = s@.subrange(from as int, i + 1);
        assert(prefix.drop_last() =~= s@.subrange(from as int, i as int));
        assert(prefix.last() == c);
        assert(digits.subrange(0, (i - from) as int + 1) =~= prefix);
        let d = match hex_char_digit(c) {
            Some(d) => d,
            None => {
                proof {
                    lemma_hex_digits_prefix_fails(digits, (i - from) as int + 1);
                }
                return None;
            },
        };
        let ghost old_acc = acc;
        let next = match acc.checked_mul(16) {
            Some(m) => m.checked_add(d),
            None => None,
        };
        match next {
            Some(v) => {
                acc = v;
            },
            None => {
                proof {
                    if i > from {
                        assert(hex_digits_value(prefix) == Some(old_acc * 16 + d));
                    }
                    if hex_digits_value(digits) is Some {
                        lemma_hex_digits_grow(digits, (i - from) as int + 1);
                    }
                }
                return None;
            },
        }
        i = i + 1;
    }
    assert(s@.subrange(from as int, n as int) =~= digits);
    Some(acc)
}

/// Byte pieces joined by a separator byte.
pub open spec fn join_bytes(pieces: Seq<Seq<u8>>, sep: u8) -> Seq<u8>
    decreases pieces.len(),
{
    if pieces.len() == 0 {
        Seq::empty()
    } else if pieces.len() == 1 {
        pieces[0]
    } else {
        join_bytes(pieces.drop_last(), sep) + seq![sep] + pieces.last()
    }
}

/// The byte contents of each vector.
pub open spec fn bytes_of(v: Seq<Vec<u8>>) -> Seq<Seq<u8>> {
    Seq::new(v.len(), |i: int| v[i]@)
}

/// Splits bytes at every `sep`, as `<[u8]>::split` does: the pieces hold no
/// separator and join back to the bytes.
pub fn split_bytes(bytes: &[u8], upto: usize, sep: u8) -> (r: Vec<Vec<u8>>)
    requires
        upto <= bytes@.len(),
    ensures
        r@.len() >= 1,
        join_bytes(bytes_of(r@), sep) == bytes@.subrange(0, upto as int),
        forall|k: int| 0 <= k < r@.len() ==> !(#[trigger] r@[k])@.contains(sep),
{
    let n = upto;
    let mut pieces: Vec<Vec<u8>> = Vec::new();
    let mut current: Vec<u8> = Vec::new();
    let mut i: usize = 0;
    while i < n
        invariant
            n <= bytes@.len(),
            i <= n,
            join_bytes(bytes_of(pieces@).push(current@), sep) == bytes@.subrange(0, i as int),
            forall|k: int| 0 <= k < pieces@.len() ==> !(#[trigger] pieces@[k])@.contains(sep),
            !current@.contains(sep),
        decreases n - i,
    {
        let b = bytes[i];
        let ghost old_pieces = bytes_of(pieces@);
        assert(bytes@.subrange(0, i + 1) =~= bytes@.subrange(0, i as int).push(b));
        if b == sep {
            let ghost piece = current@;
            pieces.push(current);
            current = Vec::new();
            assert(bytes_of(pieces@) =~= old_pieces.push(piece));
            let ghost next = bytes_of(pieces@).push(current@);
            assert(next.drop_last() =~= bytes_of(pieces@));
            assert(current@ =~= Seq::<u8>::empty());
            assert(join_bytes(next, sep) =~= join_bytes(old_pieces.push(piece), sep) + seq![sep]);
        } else {
            let ghost prev = old_pieces.push(current@);
            current.push(b);
            let ghost next = old_pieces.push(current@);
            assert(next.drop_last() =~= old_pieces);
            assert(prev.drop_last() =~= old_pieces);
            proof {
                if old_pieces.len() > 0 {
                    assert(join_bytes(next, sep) == join_bytes(old_pieces, sep) + seq![sep] + current@);
                    assert(join_bytes(prev, sep) == join_bytes(old_pieces, sep) + seq![sep] + prev.last());
                }
            }
            assert(!current@.contains(sep)) by {
                if current@.contains(sep) {
                    let k = choose|k: int| 0 <= k < current@.len() && current@[k] == sep;
                    if k < current@.len() - 1 {
                        assert(prev.last()[k] == sep);
                    }
                }
            }
        }
        i = i + 1;
    }
    let ghost old_pieces = bytes_of(pieces@);
    let ghost last = current@;
    pieces.push(current);
    assert(bytes_of(pieces@) =~= old_pieces.push(last));
    pieces
}

/// The index of the first `c` in `s`, if any.
pub open spec fn first_index_of(s: Seq<char>, c: char) -> Option<int>
    decreases s.len(),
{
    if s.len() == 0 {
        None
    } else if s[0] == c {
        Some(0)
    } else {
        match first_index_of(s.drop_first(), c) {
            Some(k) => Some(k + 1),
            None => None,
        }
    }
}

proof fn lemma_first_index_of(s: Seq<char>, c: char, k: int)
    requires
        0 <= k <= s.len(),
        forall|j: int| 0 <= j < k ==> s[j] != c,
    ensures
        k < s.len() && s[k] == c ==> first_index_of(s, c) == Some(k),
        k == s.len() ==> first_index_of(s, c) is None,
    decreases k,
{
    if k > 0 && s.len() > 0 {
        let t = s.drop_first();
        assert forall|j: int| 0 <= j < k - 1 implies t[j] != c by {
            assert(t[j] == s[j + 1]);
        }
        lemma_first_index_of(t, c, k - 1);
    } else if k == 0 && s.len() > 0 && s[0] != c {
    }
}

/// Finds the first `c` in `s` at or after character `from`.
pub fn find_char(s: &str, c: char, from: usize) -> (r: Option<usize>)
    requires
        from <= s@.len(),
    ensures
        match r {
            Some(k) => from <= k < s@.len() && first_index_of(
                s@.subrange(from as int, s@.len() as int),
                c,
            ) == Some(k - from),
            None => first_index_of(s@.subrange(from as int, s@.len() as int), c) is None,
        },
{
    let n = s.unicode_len();
    let ghost t = s@.subrange(from as int, n as int);
    let mut i: usize = from;
    while i < n
        invariant
            n == s@.len(),
            t == s@.subrange(from as int, n as int),
            from <= i <= n,
            forall|j: int| 0 <= j < i - from ==> t[j] != c,
        decreases n - i,
    {
        if s.get_char(i) == c {
            proof {
                lemma_first_index_of(t, c, (i - from) as int);
            }
            return Some(i);
        }
        i = i + 1;
    }
    proof {
        lemma_first_index_of(t, c, t.len() as int);
    }
    None
}

/// A lower-case hex digit character.
pub open spec fn hex_digit_char(c: char) -> bool {
    ('0' <= c <= '9') || ('a' <= c <= 'f')
}

/// The byte of a hex digit character.
pub open spec fn hex_digit_byte(d: nat) -> u8 {
    if d < 10 {
        (d + 48) as u8
    } else {
        (d + 87) as u8
    }
}

/// Lower-case hex of a byte sequence, as the bytes of its digits.
pub open spec fn hex_bytes(bytes: Seq<u8>) -> Seq<u8>
    decreases bytes.len(),
{
    if bytes.len() == 0 {
        Seq::empty()
    } else {
        hex_bytes(bytes.drop_last()) + seq![
            hex_digit_byte((bytes.last() / 16) as nat),
            hex_digit_byte((bytes.last() % 16) as nat),
        ]
    }
}

proof fn lemma_low_bits(v: u32)
    requires
        v < 128,
    ensures
        (v & 0x7F) == v,
{
    assert((v & 0x7F) == v) by (bit_vector)
        requires
            v < 128,
    ;
}

/// The UTF-8 encoding of an ASCII character is its code.
proof fn lemma_encode_ascii(c: char)
    requires
        (c as u32) < 128,
    ensures
        encode_utf8(seq![c]) == seq![(c as u32) as u8],
{
    let v = c as u32;
    lemma_low_bits(v);
    assert(seq![c].drop_first() =~= Seq::<char>::empty());
    assert(encode_utf8(Seq::<char>::empty()) =~= Seq::<u8>::empty());
    assert(vstd::utf8::has_width_1_encoding(v));
    assert(vstd::utf8::encode_scalar(v) == seq![vstd::utf8::leading_byte_width_1(v)]);
    assert(vstd::utf8::leading_byte_width_1(v) == (v & 0x7F) as u8);
    assert(encode_utf8(seq![c]) == vstd::utf8::encode_scalar(v) + encode_utf8(seq![c].drop_first()));
    assert(encode_utf8(seq![c]) =~= seq![(c as u32) as u8]);
}

/// UTF-8 encoding distributes over concatenation.
pub proof fn lemma_encode_utf8_concat(a: Seq<char>, b: Seq<char>)
    ensures
        encode_utf8(a + b) == encode_utf8(a) + encode_utf8(b),
    decreases a.len(),
{
    if a.len() == 0 {
        assert(a + b =~= b);
        assert(encode_utf8(a) + encode_utf8(b) =~= encode_utf8(b));
    } else {
        assert((a + b)[0] == a[0]);
        assert((a + b).drop_first() =~= a.drop_first() + b);
        lemma_encode_utf8_concat(a.drop_first(), b);
        assert(encode_utf8(a + b) =~= encode_utf8(a) + encode_utf8(b));
    }
}

/// Hex text is written in hex digit characters.
pub proof fn lemma_hex_chars(bytes: Seq<u8>)
    ensures
        forall|i: int| 0 <= i < hex_of(bytes).len() ==> hex_digit_char(#[trigger] hex_of(bytes)[i]),
        hex_of(bytes).len() == 2 * bytes.len(),
    decreases bytes.len(),
{
    if bytes.len() > 0 {
        lemma_hex_chars(bytes.drop_last());
        let v = bytes.last();
        let h = hex_of(bytes);
        let p = hex_of(bytes.drop_last());
        assert forall|i: int| 0 <= i < h.len() implies hex_digit_char(#[trigger] h[i]) by {
            if i < p.len() {
                assert(h[i] == p[i]);
            } else if i == p.len() {
                assert(h[i] == hex_char((v / 16) as nat));
            } else {
                assert(h[i] == hex_char((v % 16) as nat));
            }
        }
    }
}

/// The UTF-8 encoding of hex text is its digit bytes.
pub proof fn lemma_hex_encoding(bytes: Seq<u8>)
    ensures
        encode_utf8(hex_of(bytes)) == hex_bytes(bytes),
    decreases bytes.len(),
{
    if bytes.len() > 0 {
        let v = bytes.last();
        let hi = hex_char((v / 16) as nat);
        let lo = hex_char((v % 16) as nat);
        lemma_hex_encoding(bytes.drop_last());
        lemma_encode_utf8_concat(hex_of(bytes.drop_last()), seq![hi, lo]);
        assert(seq![hi, lo] =~= seq![hi] + seq![lo]);
        lemma_encode_utf8_concat(seq![hi], seq![lo]);
        lemma_encode_ascii(hi);
        lemma_encode_ascii(lo);
        assert(encode_utf8(hex_of(bytes)) =~= hex_bytes(bytes));
    }
}

/// Hex digit bytes read back as the bytes they were written from.
pub proof fn lemma_unhex_hex_bytes(bytes: Seq<u8>)
    ensures
        unhex_bytes(hex_bytes(bytes)) == Some(bytes),
    decreases bytes.len(),
{
    if bytes.len() > 0 {
        let v = bytes.last();
        let s = hex_bytes(bytes);
        lemma_unhex_hex_bytes(bytes.drop_last());
        assert(s.subrange(0, s.len() - 2) =~= hex_bytes(bytes.drop_last()));
        assert(hex_pair(s[s.len() - 2], s[s.len() - 1]) == Some(v));
        assert(bytes.drop_last().push(v) =~= bytes);
    } else {
        assert(hex_bytes(bytes) =~= Seq::<u8>::empty());
        assert(bytes =~= Seq::<u8>::empty());
    }
}

/// Text written as hex reads back as the same text.
pub proof fn lemma_hex_round_trip(t: Seq<char>)
    ensures
        unhex_text(encode_utf8(hex_of(encode_utf8(t)))) == Ok::<Seq<char>, FieldError>(t),
{
    lemma_hex_encoding(encode_utf8(t));
    lemma_unhex_hex_bytes(encode_utf8(t));
    encode_utf8_valid_utf8(t);
    encode_utf8_decode_utf8(t);
}

/// Decimal notation is written in digits and reads back as its number.
pub proof fn lemma_decimal_round_trip(n: nat)
    ensures
        decimal(n).len() >= 1,
        forall|i: int| 0 <= i < decimal(n).len() ==> '0' <= #[trigger] decimal(n)[i] <= '9',
        digits_value(decimal(n)) == Some(n as int),
        unsigned_value(decimal(n)) == Some(n as int),
    decreases n,
{
    if n >= 10 {
        lemma_decimal_round_trip(n / 10);
        let d = decimal(n);
        let p = decimal(n / 10);
        assert(d.drop_last() =~= p);
        assert forall|i: int| 0 <= i < d.len() implies '0' <= #[trigger] d[i] <= '9' by {
            if i < p.len() {
                assert(d[i] == p[i]);
            }
        }
        assert(n / 10 * 10 + n % 10 == n);
    }
}

/// Signed decimal notation reads back as its number.
pub proof fn lemma_signed_round_trip(v: int)
    ensures
        signed_value(signed_decimal(v)) == Some(v),
        signed_decimal(v).len() >= 1,
        signed_decimal(v) != seq!['-'],
        forall|i: int|
            0 <= i < signed_decimal(v).len() ==> ('0' <= #[trigger] signed_decimal(v)[i] <= '9'
                || signed_decimal(v)[i] == '-'),
{
    if v < 0 {
        let m = (-v) as nat;
        lemma_decimal_round_trip(m);
        let s = signed_decimal(v);
        assert(s.drop_first() =~= decimal(m));
        assert forall|i: int| 0 <= i < s.len() implies ('0' <= #[trigger] s[i] <= '9' || s[i] == '-') by {
            if i > 0 {
                assert(s[i] == decimal(m)[i - 1]);
            }
        }
        assert(s.len() >= 2);
    } else {
        lemma_decimal_round_trip(v as nat);
        assert(signed_decimal(v)[0] != '-');
    }
}

/// Joined fields that hold no separator split back into the same fields.
pub proof fn lemma_split_join(fields: Seq<Seq<char>>, c: char)
    requires
        fields.len() >= 1,
        forall|k: int| 0 <= k < fields.len() ==> !(#[trigger] fields[k]).contains(c),
    ensures
        split_char(join_with(fields, seq![c]), c) == fields,
{
    lemma_split_char_unique(join_with(fields, seq![c]), c, fields);
}

} // verus!
