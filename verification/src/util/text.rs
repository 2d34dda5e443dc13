//! Taking text apart and putting it together.

use vstd::prelude::*;

verus! {

/// The digits of numbers.
pub const DIGITS: &'static str = "0123456789abcdef";

/// The letters, in their order.
pub const LETTERS: &'static str = "abcdefghijklmnopqrstuvwxyz";

/// The characters of a text.
pub fn chars_of(s: &str) -> (r: Vec<char>)
    ensures
        r@ == s@,
{
    let mut out: Vec<char> = Vec::new();
    for c in it: s.chars()
        invariant
            it.seq() == s@,
            out@ == s@.take(it.index() as int),
    {
        out.push(c);
        assert(out@ =~= s@.take(it.index() + 1));
    }
    assert(s@.take(s@.len() as int) =~= s@);
    out
}

/// True when the texts are the same.
pub fn same(a: &str, b: &str) -> (r: bool)
    ensures
        r == (a@ == b@),
{
    let x: Vec<char> = chars_of(a);
    let y: Vec<char> = chars_of(b);
    if x.len() != y.len() {
        return false;
    }
    let mut i: usize = 0;
    while i < x.len()
        invariant
            i <= x@.len(),
            x@.len() == y@.len(),
            x@ == a@,
            y@ == b@,
            forall|k: int| 0 <= k < i ==> x@[k] == y@[k],
        decreases x@.len() - i,
    {
        if x[i] != y[i] {
            return false;
        }
        i = i + 1;
    }
    assert(x@ =~= y@);
    true
}

/// The digit of a number below 16.
pub open spec fn digit_of(n: int) -> char {
    DIGITS@[n]
}

/// The digit of a number below 16.
pub fn digit(n: u8) -> (r: &'static str)
    requires
        n < 16,
    ensures
        r@ == seq![digit_of(n as int)],
{
    proof {
        reveal_strlit("0123456789abcdef");
    }
    let r: &'static str = DIGITS.substring_char(n as usize, n as usize + 1);
    assert(r@ =~= seq![digit_of(n as int)]);
    r
}

/// A number in decimal.
pub open spec fn decimal_of(n: nat) -> Seq<char>
    decreases n,
{
    if n < 10 {
        seq![digit_of(n as int)]
    } else {
        decimal_of(n / 10) + seq![digit_of((n % 10) as int)]
    }
}

/// A number in decimal.
pub fn decimal(n: u64) -> (r: String)
    ensures
        r@ == decimal_of(n as nat),
    decreases n,
{
    if n < 10 {
        String::from_str(digit(n as u8))
    } else {
        let mut out: String = decimal(n / 10);
        out.append(digit((n % 10) as u8));
        out
    }
}

/// The last `width` digits of a number in hexadecimal.
pub open spec fn hex_of(n: nat, width: nat) -> Seq<char>
    decreases width,
{
    if width == 0 {
        Seq::empty()
    } else {
        hex_of(n / 16, (width - 1) as nat) + seq![digit_of((n % 16) as int)]
    }
}

/// The last `width` digits of a number in hexadecimal.
pub fn hex_number(n: u64, width: usize) -> (r: String)
    ensures
        r@ == hex_of(n as nat, width as nat),
    decreases width,
{
    if width == 0 {
        let out: String = String::new();
        assert(out@ =~= Seq::<char>::empty());
        out
    } else {
        let mut out: String = hex_number(n / 16, width - 1);
        out.append(digit((n % 16) as u8));
        out
    }
}

/// Octets in hexadecimal.
pub open spec fn hex_octets(d: Seq<u8>) -> Seq<char>
    decreases d.len(),
{
    if d.len() == 0 {
        Seq::empty()
    } else {
        hex_octets(d.drop_last()) + hex_of(d.last() as nat, 2)
    }
}

/// The value of a hexadecimal digit.
pub open spec fn digit_value(c: char) -> Option<u8> {
    if '0' <= c && c <= '9' {
        Some((c as u32 - 48) as u8)
    } else if 'a' <= c && c <= 'f' {
        Some((c as u32 - 87) as u8)
    } else if 'A' <= c && c <= 'F' {
        Some((c as u32 - 55) as u8)
    } else {
        None
    }
}

/// The value of a hexadecimal digit.
pub fn value_of(c: char) -> (r: Option<u8>)
    ensures
        r == digit_value(c),
        r matches Some(v) ==> v < 16,
{
    let n: u32 = c as u32;
    if '0' <= c && c <= '9' {
        Some((n - 48) as u8)
    } else if 'a' <= c && c <= 'f' {
        Some((n - 87) as u8)
    } else if 'A' <= c && c <= 'F' {
        Some((n - 55) as u8)
    } else {
        None
    }
}

/// The number that digits stand for, unless one of them is no digit of the
/// base or the number does not fit 32 bits.
pub open spec fn number_in(s: Seq<char>, base: int) -> Option<u32>
    decreases s.len(),
{
    if s.len() == 0 {
        Some(0)
    } else {
        match (number_in(s.drop_last(), base), digit_value(s.last())) {
            (Some(n), Some(d)) => if d < base && n * base + d <= u32::MAX {
                Some((n * base + d) as u32)
            } else {
                None
            },
            _ => None,
        }
    }
}

/// The number that a text stands for: at least one digit, with nothing in
/// front of it but one plus sign.
pub open spec fn unsigned_in(s: Seq<char>, base: int) -> Option<u32> {
    let digits = if s.len() > 1 && s[0] == '+' {
        s.skip(1)
    } else {
        s
    };
    if digits.len() == 0 {
        None
    } else {
        number_in(digits, base)
    }
}

/// The prefix of a number that has none does not have one either.
proof fn lemma_no_number(s: Seq<char>, i: int, base: int)
    requires
        0 <= i <= s.len(),
        number_in(s.take(i), base) is None,
    ensures
        number_in(s, base) is None,
    decreases s.len() - i,
{
    if i == s.len() {
        assert(s.take(i) =~= s);
    } else {
        assert(s.take(i + 1).drop_last() =~= s.take(i));
        lemma_no_number(s, i + 1, base);
    }
}

/// The number that a text stands for.
pub fn parse_number(s: &str, base: u32) -> (r: Option<u32>)
    requires
        2 <= base <= 16,
    ensures
        r == unsigned_in(s@, base as int),
{
    let c: Vec<char> = chars_of(s);
    let start: usize = if c.len() > 1 && c[0] == '+' {
        1
    } else {
        0
    };
    let ghost digits = s@.skip(start as int);
    assert(start == 0 ==> digits =~= s@);
    if c.len() == 0 {
        return None;
    }
    let mut n: u32 = 0;
    let mut i: usize = start;
    assert(digits.take(0) =~= Seq::<char>::empty());
    while i < c.len()
        invariant
            start <= i <= c@.len(),
            c@ == s@,
            2 <= base <= 16,
            digits == s@.skip(start as int),
            number_in(digits.take(i - start), base as int) == Some(n),
            digits.len() > 0,
            unsigned_in(s@, base as int) == number_in(digits, base as int),
        decreases c@.len() - i,
    {
        let ghost next = digits.take(i - start + 1);
        proof {
            assert(next.drop_last() =~= digits.take(i - start));
            assert(next.last() == c@[i as int]);
        }
        match value_of(c[i]) {
            None => {
                proof {
                    lemma_no_number(digits, i - start + 1, base as int);
                }
                return None;
            },
            Some(d) => {
                assert(n * base <= 0xFFFF_FFFF * 16) by (nonlinear_arith)
                    requires
                        n <= 0xFFFF_FFFF,
                        base <= 16,
                ;
                let wide: u64 = n as u64 * base as u64 + d as u64;
                if d as u32 >= base || wide > u32::MAX as u64 {
                    proof {
                        lemma_no_number(digits, i - start + 1, base as int);
                    }
                    return None;
                }
                n = wide as u32;
            },
        }
        i = i + 1;
    }
    assert(digits.take(digits.len() as int) =~= digits);
    Some(n)
}

/// The octets that hexadecimal digits stand for, two for each.
pub open spec fn octets_in(s: Seq<char>) -> Option<Seq<u8>>
    decreases s.len(),
{
    if s.len() == 0 {
        Some(Seq::empty())
    } else if s.len() == 1 {
        None
    } else {
        match (
            octets_in(s.take(s.len() - 2)),
            digit_value(s[s.len() - 2]),
            digit_value(s[s.len() - 1]),
        ) {
            (Some(d), Some(a), Some(b)) => Some(d.push((a * 16 + b) as u8)),
            _ => None,
        }
    }
}

/// A text with octets missing at its start has none.
proof fn lemma_no_octets(s: Seq<char>, i: int)
    requires
        0 <= i <= s.len(),
        (s.len() - i) % 2 == 0,
        octets_in(s.take(i)) is None,
    ensures
        octets_in(s) is None,
    decreases s.len() - i,
{
    if i == s.len() {
        assert(s.take(i) =~= s);
    } else {
        let t = s.take(i + 2);
        assert(t.take(t.len() - 2) =~= s.take(i));
        lemma_no_octets(s, i + 2);
    }
}

/// Digits come in pairs.
proof fn lemma_pairs(s: Seq<char>)
    ensures
        s.len() % 2 == 1 ==> octets_in(s) is None,
    decreases s.len(),
{
    if s.len() >= 2 {
        lemma_pairs(s.take(s.len() - 2));
    }
}

/// The octets that hexadecimal digits stand for.
pub fn decode_hex(s: &str) -> (r: Option<Vec<u8>>)
    ensures
        match octets_in(s@) {
            Some(d) => r is Some && r->Some_0@ == d,
            None => r is None,
        },
{
    let c: Vec<char> = chars_of(s);
    proof {
        lemma_pairs(s@);
    }
    if c.len() % 2 != 0 {
        return None;
    }
    let mut out: Vec<u8> = Vec::new();
    let mut i: usize = 0;
    assert(s@.take(0) =~= Seq::<char>::empty());
    assert(out@ =~= Seq::<u8>::empty());
    while i < c.len()
        invariant
            i <= c@.len(),
            c@ == s@,
            c@.len() % 2 == 0,
            i % 2 == 0,
            octets_in(s@.take(i as int)) == Some(out@),
        decreases c@.len() - i,
    {
        let ghost t = s@.take(i + 2);
        proof {
            assert(t.take(t.len() - 2) =~= s@.take(i as int));
        }
        match (value_of(c[i]), value_of(c[i + 1])) {
            (Some(a), Some(b)) => {
                out.push(a * 16 + b);
            },
            _ => {
                proof {
                    lemma_no_octets(s@, i + 2);
                }
                return None;
            },
        }
        i = i + 2;
    }
    assert(s@.take(s@.len() as int) =~= s@);
    Some(out)
}

/// Octets in hexadecimal.
pub fn encode_hex(d: &[u8]) -> (r: String)
    ensures
        r@ == hex_octets(d@),
{
    let mut out: String = String::new();
    let mut i: usize = 0;
    assert(d@.take(0) =~= Seq::<u8>::empty());
    assert(out@ =~= hex_octets(d@.take(0)));
    while i < d.len()
        invariant
            i <= d@.len(),
            out@ == hex_octets(d@.take(i as int)),
        decreases d@.len() - i,
    {
        let two: String = hex_number(d[i] as u64, 2);
        out.append(two.as_str());
        proof {
            let t = d@.take(i + 1);
            assert(t.drop_last() =~= d@.take(i as int));
        }
        i = i + 1;
    }
    assert(d@.take(d@.len() as int) =~= d@);
    out
}

/// True for white space.
pub open spec fn white(c: char) -> bool {
    let n = c as u32;
    9 <= n <= 13 || n == 32 || n == 0x85 || n == 0xA0 || n == 0x1680 || 0x2000 <= n <= 0x200A || n
        == 0x2028 || n == 0x2029 || n == 0x202F || n == 0x205F || n == 0x3000
}

/// True for white space.
pub fn is_white(c: char) -> (r: bool)
    ensures
        r == white(c),
{
    let n: u32 = c as u32;
    (9 <= n && n <= 13) || n == 32 || n == 0x85 || n == 0xA0 || n == 0x1680 || (0x2000 <= n && n
        <= 0x200A) || n == 0x2028 || n == 0x2029 || n == 0x202F || n == 0x205F || n == 0x3000
}

/// The words of a text, and the one that its end may still go on with.
pub open spec fn words_and_rest(s: Seq<char>) -> (Seq<Seq<char>>, Seq<char>)
    decreases s.len(),
{
    if s.len() == 0 {
        (Seq::empty(), Seq::empty())
    } else {
        let (words, rest) = words_and_rest(s.drop_last());
        if !white(s.last()) {
            (words, rest.push(s.last()))
        } else if rest.len() == 0 {
            (words, rest)
        } else {
            (words.push(rest), Seq::empty())
        }
    }
}

/// The words of a text: what stands between white space.
pub open spec fn words_of(s: Seq<char>) -> Seq<Seq<char>> {
    let (words, rest) = words_and_rest(s);
    if rest.len() == 0 {
        words
    } else {
        words.push(rest)
    }
}

/// What texts hold.
pub open spec fn texts(s: Seq<&str>) -> Seq<Seq<char>> {
    s.map_values(|t: &str| t@)
}

/// The words of a text.
pub fn split_words<'a>(s: &'a str) -> (r: Vec<&'a str>)
    ensures
        texts(r@) == words_of(s@),
{
    let c: Vec<char> = chars_of(s);
    let mut out: Vec<&'a str> = Vec::new();
    let mut start: usize = 0;
    let mut i: usize = 0;
    assert(s@.take(0) =~= Seq::<char>::empty());
    assert(texts(out@) =~= words_and_rest(s@.take(0)).0);
    assert(s@.subrange(0, 0) =~= Seq::<char>::empty());
    while i < c.len()
        invariant
            start <= i <= c@.len(),
            c@ == s@,
            words_and_rest(s@.take(i as int)) == (texts(out@), s@.subrange(start as int, i as int)),
        decreases c@.len() - i,
    {
        proof {
            let t = s@.take(i + 1);
            assert(t.drop_last() =~= s@.take(i as int));
            assert(t.last() == s@[i as int]);
        }
        if is_white(c[i]) {
            let ghost before = out@;
            if start < i {
                out.push(s.substring_char(start, i));
                assert(texts(out@) =~= texts(before).push(s@.subrange(start as int, i as int)));
            }
            start = i + 1;
            assert(s@.subrange(start as int, i + 1) =~= Seq::<char>::empty());
        } else {
            assert(s@.subrange(start as int, i + 1) =~= s@.subrange(start as int, i as int).push(
                s@[i as int],
            ));
        }
        i = i + 1;
    }
    assert(s@.take(s@.len() as int) =~= s@);
    if start < i {
        let ghost before = out@;
        out.push(s.substring_char(start, i));
        assert(texts(out@) =~= texts(before).push(s@.subrange(start as int, i as int)));
    }
    out
}

/// Spaces.
pub open spec fn spaces_of(n: nat) -> Seq<char> {
    Seq::new(n, |i: int| ' ')
}

/// A text with spaces behind it up to a width.
pub open spec fn padded(s: Seq<char>, width: nat) -> Seq<char> {
    if s.len() >= width {
        s
    } else {
        s + spaces_of((width - s.len()) as nat)
    }
}

/// A text with spaces in front of it up to a width.
pub open spec fn aligned(s: Seq<char>, width: nat) -> Seq<char> {
    if s.len() >= width {
        s
    } else {
        spaces_of((width - s.len()) as nat) + s
    }
}

/// Spaces.
fn spaces(n: usize) -> (r: String)
    ensures
        r@ == spaces_of(n as nat),
{
    proof {
        reveal_strlit(" ");
    }
    let mut out: String = String::new();
    let mut i: usize = 0;
    assert(out@ =~= spaces_of(0));
    while i < n
        invariant
            i <= n,
            out@ == spaces_of(i as nat),
            " "@ == seq![' '],
        decreases n - i,
    {
        out.append(" ");
        i = i + 1;
        assert(out@ =~= spaces_of(i as nat));
    }
    out
}

/// A text with spaces behind it up to a width.
pub fn pad(s: &str, width: usize) -> (r: String)
    ensures
        r@ == padded(s@, width as nat),
{
    let n: usize = s.unicode_len();
    let mut out: String = String::from_str(s);
    if n < width {
        let fill: String = spaces(width - n);
        out.append(fill.as_str());
    }
    out
}

/// A text with spaces in front of it up to a width.
pub fn align(s: &str, width: usize) -> (r: String)
    ensures
        r@ == aligned(s@, width as nat),
{
    let n: usize = s.unicode_len();
    if n >= width {
        return String::from_str(s);
    }
    let mut out: String = spaces(width - n);
    out.append(s);
    out
}

/// A truth value in words.
pub open spec fn truth_of(b: bool) -> Seq<char> {
    if b {
        "true"@
    } else {
        "false"@
    }
}

/// A truth value in words.
pub fn truth(b: bool) -> (r: &'static str)
    ensures
        r@ == truth_of(b),
{
    if b {
        "true"
    } else {
        "false"
    }
}

/// A letter in its small form.
pub open spec fn small(c: char) -> char {
    if 'A' <= c && c <= 'Z' {
        LETTERS@[c as int - 65]
    } else {
        c
    }
}

/// A text with its letters in their small form.
pub open spec fn lowered(s: Seq<char>) -> Seq<char> {
    s.map_values(|c: char| small(c))
}

/// A text with its letters in their small form.
pub fn lower(s: &str) -> (r: String)
    ensures
        r@ == lowered(s@),
{
    proof {
        reveal_strlit("abcdefghijklmnopqrstuvwxyz");
    }
    let c: Vec<char> = chars_of(s);
    let mut out: String = String::new();
    let mut i: usize = 0;
    assert(out@ =~= lowered(s@.take(0)));
    while i < c.len()
        invariant
            i <= c@.len(),
            c@ == s@,
            LETTERS@.len() == 26,
            out@ == lowered(s@.take(i as int)),
        decreases c@.len() - i,
    {
        if 'A' <= c[i] && c[i] <= 'Z' {
            let k: usize = (c[i] as u32 - 65) as usize;
            out.append(LETTERS.substring_char(k, k + 1));
        } else {
            out.append(s.substring_char(i, i + 1));
        }
        assert(out@ =~= lowered(s@.take(i + 1)));
        i = i + 1;
    }
    assert(s@.take(s@.len() as int) =~= s@);
    out
}

/// Octets come back from their digits.
pub proof fn law_hexadecimal_round_trips(d: Seq<u8>)
    ensures
        octets_in(hex_octets(d)) == Some(d),
    decreases d.len(),
{
    if d.len() == 0 {
        assert(octets_in(hex_octets(d))->Some_0 =~= d);
    } else {
        let before = d.drop_last();
        let x = d.last();
        law_hexadecimal_round_trips(before);
        let s = hex_octets(d);
        let n = s.len();
        reveal_with_fuel(hex_of, 3);
        assert(hex_of(x as nat, 2) =~= seq![digit_of((x / 16) as int), digit_of((x % 16) as int)]);
        assert(s.take(n - 2) =~= hex_octets(before));
        lemma_digit((x / 16) as int);
        lemma_digit((x % 16) as int);
        assert(octets_in(s)->Some_0 =~= before.push(x));
        assert(before.push(x) =~= d);
    }
}

/// The value of a digit is the number that it is the digit of.
proof fn lemma_digit(n: int)
    requires
        0 <= n < 16,
    ensures
        digit_value(digit_of(n)) == Some(n as u8),
{
    reveal_strlit("0123456789abcdef");
}

} // verus!
