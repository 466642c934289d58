//! Character-level helpers shared by the address, configuration and message code:
//! decimal parsing and printing, splitting on `:`, and string building.
use vstd::prelude::*;

verus! {

/// The characters of `s`, in order.
pub fn chars_of(s: &str) -> (v: Vec<char>)
    ensures
        v@ == s@,
{
    let mut v: Vec<char> = Vec::new();
    for c in it: s.chars()
        invariant
            v@ == it.seq().take(it.index() as int),
    {
        v.push(c);
    }
    v
}

/// `String::push` from std: appends one character.
#[verifier::external_body]
pub(crate) fn push_char(s: &mut String, c: char)
    ensures
        final(s)@ == old(s)@.push(c),
{
    s.push(c);
}

/// Builds a `String` holding exactly the characters of `v[from..to]`.
pub fn string_of_range(v: &Vec<char>, from: usize, to: usize) -> (s: String)
    requires
        from <= to <= v.len(),
    ensures
        s@ == v@.subrange(from as int, to as int),
{
    let mut s = String::new();
    let mut i = from;
    while i < to
        invariant
            from <= i <= to <= v.len(),
            s@ == v@.subrange(from as int, i as int),
        decreases to - i,
    {
        push_char(&mut s, v[i]);
        assert(v@.subrange(from as int, i + 1) == v@.subrange(from as int, i as int).push(v@[i as int]));
        i = i + 1;
    }
    s
}

/// Builds a `String` holding exactly the characters of `v`.
pub fn string_of_chars(v: &Vec<char>) -> (s: String)
    ensures
        s@ == v@,
{
    let s = string_of_range(v, 0, v.len());
    assert(v@.subrange(0, v@.len() as int) == v@);
    s
}

/// The text `s` with its characters in reverse order.
pub fn reversed(s: &str) -> (r: String)
    ensures
        r@ == s@.reverse(),
{
    let v = chars_of(s);
    let mut r = String::new();
    let mut i = v.len();
    while i > 0
        invariant
            i <= v.len(),
            v@ == s@,
            r@ == s@.subrange(i as int, s@.len() as int).reverse(),
        decreases i,
    {
        i = i - 1;
        push_char(&mut r, v[i]);
        assert(s@.subrange(i as int, s@.len() as int).reverse()
            == s@.subrange(i + 1, s@.len() as int).reverse().push(s@[i as int]));
    }
    assert(s@.subrange(0, s@.len() as int) == s@);
    r
}

// ---------------------------------------------------------------------------
// Decimal numbers
// ---------------------------------------------------------------------------

/// An ASCII decimal digit.
pub open spec fn is_digit(c: char) -> bool {
    '0' <= c && c <= '9'
}

/// The value of an ASCII decimal digit.
pub open spec fn digit_value(c: char) -> nat {
    (c as nat - '0' as nat) as nat
}

/// All characters are ASCII decimal digits.
pub open spec fn all_digits(s: Seq<char>) -> bool {
    forall|i: int| 0 <= i < s.len() ==> #[trigger] is_digit(s[i])
}

/// The number written by the decimal digits `s` (most significant first).
pub open spec fn digits_value(s: Seq<char>) -> nat
    decreases s.len(),
{
    if s.len() == 0 {
        0
    } else {
        digits_value(s.drop_last()) * 10 + digit_value(s.last())
    }
}

/// What std's `from_str` for an unsigned integer type with maximum `max` yields on `s`:
/// an optional leading `+`, then at least one ASCII digit and nothing else, with a value
/// not above `max`.
pub open spec fn parse_unsigned(s: Seq<char>, max: nat) -> Option<nat> {
    let d = if s.len() > 0 && s[0] == '+' { s.drop_first() } else { s };
    if d.len() > 0 && all_digits(d) && digits_value(d) <= max {
        Some(digits_value(d))
    } else {
        None
    }
}

proof fn lemma_digits_value_push(s: Seq<char>, c: char)
    ensures
        digits_value(s.push(c)) == digits_value(s) * 10 + digit_value(c),
{
    assert(s.push(c).drop_last() == s);
}

proof fn lemma_digits_value_monotone(s: Seq<char>, n: int)
    requires
        0 <= n <= s.len(),
        all_digits(s),
    ensures
        digits_value(s.take(n)) <= digits_value(s),
    decreases s.len() - n,
{
    if n < s.len() {
        lemma_digits_value_monotone(s, n + 1);
        assert(s.take(n + 1) == s.take(n).push(s[n]));
        lemma_digits_value_push(s.take(n), s[n]);
    } else {
        assert(s.take(n) == s);
    }
}

/// Parses the decimal digits in `v[from..]` into a `u64`, failing on a non-digit, on an
/// empty range, or when the value exceeds `max`.
fn parse_digits_up_to(v: &Vec<char>, from: usize, max: u64) -> (r: Option<u64>)
    requires
        from <= v.len(),
    ensures
        ({
            let d = v@.skip(from as int);
            match r {
                Some(n) => d.len() > 0 && all_digits(d) && digits_value(d) <= max
                    && n == digits_value(d),
                None => !(d.len() > 0 && all_digits(d) && digits_value(d) <= max),
            }
        }),
{
    let ghost d = v@.skip(from as int);
    if from == v.len() {
        return None;
    }
    let mut acc: u64 = 0;
    let mut i = from;
    while i < v.len()
        invariant
            from <= i <= v.len(),
            d == v@.skip(from as int),
            all_digits(d.take(i - from)),
            acc == digits_value(d.take(i - from)),
            acc <= max,
        decreases v.len() - i,
    {
        let c = v[i];
        if !('0' <= c && c <= '9') {
            assert(d[i - from] == c);
            assert(!is_digit(d[i - from]));
            return None;
        }
        let dv = (c as u32 - '0' as u32) as u64;
        assert(d.take(i - from + 1) == d.take(i - from).push(c));
        proof {
            lemma_digits_value_push(d.take(i - from), c);
        }
        if dv > max || acc > (max - dv) / 10 {
            proof {
                assert(acc * 10 + dv > max) by (nonlinear_arith)
                    requires dv > max || acc > (max - dv) / 10, dv <= 9, acc >= 0;
                if i + 1 < v.len() {
                    assert(all_digits(d.take(i - from + 1)));
                }
                if all_digits(d) {
                    lemma_digits_value_monotone(d, i - from + 1);
                }
            }
            return None;
        }
        proof {
            assert(acc * 10 + dv <= max) by (nonlinear_arith)
                requires acc <= (max - dv) / 10, dv <= max;
        }
        acc = acc * 10 + dv;
        i = i + 1;
    }
    assert(d.take(i - from) == d);
    Some(acc)
}

/// Parses `s` as std's unsigned `from_str` would, for a type whose maximum is `max`.
pub fn parse_unsigned_up_to(s: &str, max: u64) -> (r: Option<u64>)
    ensures
        match r {
            Some(n) => parse_unsigned(s@, max as nat) == Some(n as nat),
            None => parse_unsigned(s@, max as nat) is None,
        },
{
    let v = chars_of(s);
    if v.len() > 0 && v[0] == '+' {
        assert(v@.skip(1) == s@.drop_first());
        parse_digits_up_to(&v, 1, max)
    } else {
        assert(v@.skip(0) == s@);
        parse_digits_up_to(&v, 0, max)
    }
}

/// `str::parse::<u16>()`: the port number written in `s`, if it is one.
pub fn parse_u16(s: &str) -> (r: Option<u16>)
    ensures
        match r {
            Some(n) => parse_unsigned(s@, 65535) == Some(n as nat),
            None => parse_unsigned(s@, 65535) is None,
        },
{
    match parse_unsigned_up_to(s, 65535) {
        Some(n) => Some(n as u16),
        None => None,
    }
}

/// `str::parse::<usize>()`: the size written in `s`, if it is one.
pub fn parse_usize(s: &str) -> (r: Option<usize>)
    ensures
        match r {
            Some(n) => parse_unsigned(s@, usize::MAX as nat) == Some(n as nat),
            None => parse_unsigned(s@, usize::MAX as nat) is None,
        },
{
    match parse_unsigned_up_to(s, usize::MAX as u64) {
        Some(n) => Some(n as usize),
        None => None,
    }
}

/// The decimal text of `n`, as `u64`'s `Display` writes it (no sign, no leading zeros).
pub open spec fn decimal_text(n: nat) -> Seq<char>
    decreases n,
{
    if n < 10 {
        seq![digit_char(n)]
    } else {
        decimal_text(n / 10).push(digit_char(n % 10))
    }
}

/// The ASCII digit for `d < 10`.
pub open spec fn digit_char(d: nat) -> char {
    (d + '0' as nat) as char
}

/// The decimal text of `m` without a leading `0` for zero: empty for `0`.
spec fn leading_text(m: nat) -> Seq<char> {
    if m == 0 { seq![] } else { decimal_text(m) }
}

/// `u64::to_string`: the decimal text of `n`.
pub fn decimal_string(n: u64) -> (s: String)
    ensures
        s@ == decimal_text(n as nat),
{
    if n == 0 {
        let mut s = String::new();
        push_char(&mut s, '0');
        return s;
    }
    // Collect the digits least significant first, then reverse.
    let mut digits: Vec<char> = Vec::new();
    let mut m = n;
    while m > 0
        invariant
            m <= n,
            n > 0,
            decimal_text(n as nat) == leading_text(m as nat) + digits@.reverse(),
        decreases m,
    {
        let d = m % 10;
        let c = char_of_digit(d);
        let next = m / 10;
        proof {
            assert(decimal_text(m as nat) == leading_text(next as nat).push(c));
            assert(digits@.push(c).reverse() == seq![c] + digits@.reverse());
            assert(leading_text(next as nat).push(c) + digits@.reverse()
                == leading_text(next as nat) + digits@.push(c).reverse());
        }
        digits.push(c);
        m = next;
    }
    assert(leading_text(0) + digits@.reverse() == digits@.reverse());
    let mut s = String::new();
    let mut i = digits.len();
    while i > 0
        invariant
            i <= digits.len(),
            s@ == digits@.subrange(i as int, digits@.len() as int).reverse(),
        decreases i,
    {
        i = i - 1;
        push_char(&mut s, digits[i]);
        assert(digits@.subrange(i as int, digits@.len() as int).reverse()
            == digits@.subrange(i + 1, digits@.len() as int).reverse().push(digits@[i as int]));
    }
    assert(digits@.subrange(0, digits@.len() as int) == digits@);
    s
}

proof fn lemma_decimal_text_digits(n: nat)
    ensures
        decimal_text(n).len() > 0,
        all_digits(decimal_text(n)),
        digits_value(decimal_text(n)) == n,
        decimal_text(n)[0] != '+',
    decreases n,
{
    if n >= 10 {
        lemma_decimal_text_digits(n / 10);
        let t = decimal_text(n / 10);
        let c = digit_char(n % 10);
        lemma_digits_value_push(t, c);
        assert(decimal_text(n) == t.push(c));
        assert forall|i: int| 0 <= i < t.push(c).len() implies #[trigger] is_digit(t.push(c)[i]) by {
            if i < t.len() {
                assert(t.push(c)[i] == t[i]);
            }
        }
        assert(t.push(c)[0] == t[0]);
        assert(digit_value(c) == n % 10);
        assert(n == (n / 10) * 10 + n % 10);
    } else {
        let c = digit_char(n);
        assert(decimal_text(n) == seq![c]);
        assert(digit_value(c) == n);
        assert(seq![c].drop_last() =~= Seq::<char>::empty());
        assert(digits_value(seq![c]) == digits_value(Seq::<char>::empty()) * 10 + digit_value(c));
    }
}

/// The decimal text of a number reads back as that number, wherever the number fits the
/// type it is read as.
pub proof fn lemma_decimal_text_parses_back(n: nat, max: nat)
    requires
        n <= max,
    ensures
        parse_unsigned(decimal_text(n), max) == Some(n),
{
    lemma_decimal_text_digits(n);
}

fn char_of_digit(d: u64) -> (c: char)
    requires
        d < 10,
    ensures
        c == digit_char(d as nat),
{
    if d == 0 { '0' }
    else if d == 1 { '1' }
    else if d == 2 { '2' }
    else if d == 3 { '3' }
    else if d == 4 { '4' }
    else if d == 5 { '5' }
    else if d == 6 { '6' }
    else if d == 7 { '7' }
    else if d == 8 { '8' }
    else { '9' }
}

} // verus!

verus! {

// ---------------------------------------------------------------------------
// Splitting on a separator, as `str::split` then `next()` twice
// ---------------------------------------------------------------------------

/// Index of the first `c` in `s`, or `s.len()` when there is none.
pub open spec fn first_index_of(s: Seq<char>, c: char) -> nat
    decreases s.len(),
{
    if s.len() == 0 {
        0
    } else if s[0] == c {
        0
    } else {
        1 + first_index_of(s.drop_first(), c)
    }
}

/// The first piece of `s.split(sep)`: everything before the first `sep`.
pub open spec fn first_piece(s: Seq<char>, sep: char) -> Seq<char> {
    s.take(first_index_of(s, sep) as int)
}

/// The second piece of `s.split(sep)`, when `s` holds a `sep`: what lies between the first
/// and the second `sep` (or the end).
pub open spec fn second_piece(s: Seq<char>, sep: char) -> Option<Seq<char>> {
    let i = first_index_of(s, sep);
    if i >= s.len() {
        None
    } else {
        let rest = s.skip(i as int + 1);
        Some(rest.take(first_index_of(rest, sep) as int))
    }
}

proof fn lemma_first_index_of_bounds(s: Seq<char>, c: char)
    ensures
        first_index_of(s, c) <= s.len(),
        first_index_of(s, c) < s.len() ==> s[first_index_of(s, c) as int] == c,
        forall|j: int| 0 <= j < first_index_of(s, c) ==> s[j] != c,
    decreases s.len(),
{
    if s.len() > 0 && s[0] != c {
        lemma_first_index_of_bounds(s.drop_first(), c);
        assert forall|j: int| 0 <= j < first_index_of(s, c) implies s[j] != c by {
            if j > 0 {
                assert(s[j] == s.drop_first()[j - 1]);
            }
        }
    }
}

proof fn lemma_first_index_of_char(s: Seq<char>, c: char, i: int)
    requires
        0 <= i <= s.len(),
        i < s.len() ==> s[i] == c,
        forall|j: int| 0 <= j < i ==> s[j] != c,
    ensures
        first_index_of(s, c) == i,
    decreases s.len(),
{
    if s.len() > 0 && i > 0 {
        assert forall|j: int| 0 <= j < i - 1 implies s.drop_first()[j] != c by {
            assert(s.drop_first()[j] == s[j + 1]);
        }
        lemma_first_index_of_char(s.drop_first(), c, i - 1);
    }
}

/// Position of the first `c` in `v[from..]` (absolute), or `v.len()` when there is none.
pub fn find_char_from(v: &Vec<char>, from: usize, c: char) -> (i: usize)
    requires
        from <= v.len(),
    ensures
        from <= i <= v.len(),
        i == from + first_index_of(v@.skip(from as int), c),
{
    let mut i = from;
    while i < v.len()
        invariant
            from <= i <= v.len(),
            forall|j: int| from <= j < i ==> v@[j] != c,
        decreases v.len() - i,
    {
        if v[i] == c {
            proof {
                lemma_first_index_of_char(v@.skip(from as int), c, i - from);
            }
            return i;
        }
        i = i + 1;
    }
    proof {
        lemma_first_index_of_char(v@.skip(from as int), c, i - from);
    }
    i
}

/// The first two pieces of `s.split(sep)`.
pub fn split_two(s: &str, sep: char) -> (r: (String, Option<String>))
    ensures
        r.0@ == first_piece(s@, sep),
        match r.1 {
            Some(p) => second_piece(s@, sep) == Some(p@),
            None => second_piece(s@, sep) is None,
        },
{
    let v = chars_of(s);
    let i = find_char_from(&v, 0, sep);
    assert(v@.skip(0) == s@);
    let first = string_of_range(&v, 0, i);
    if i == v.len() {
        (first, None)
    } else {
        let j = find_char_from(&v, i + 1, sep);
        let second = string_of_range(&v, i + 1, j);
        assert(v@.subrange(i + 1, j as int) == s@.skip(i + 1).take(j - (i + 1)));
        (first, Some(second))
    }
}

} // verus!

verus! {

/// All pieces of `s.split(sep)`, in order.
pub open spec fn pieces(s: Seq<char>, sep: char) -> Seq<Seq<char>>
    decreases s.len(),
{
    let i = first_index_of(s, sep);
    if i >= s.len() {
        seq![s]
    } else {
        seq![s.take(i as int)] + pieces(s.skip(i as int + 1), sep)
    }
}

/// The characters of each vector in `v`.
pub open spec fn char_rows(v: Seq<Vec<char>>) -> Seq<Seq<char>> {
    v.map_values(|x: Vec<char>| x@)
}

fn vec_of_range(v: &Vec<char>, from: usize, to: usize) -> (r: Vec<char>)
    requires
        from <= to <= v.len(),
    ensures
        r@ == v@.subrange(from as int, to as int),
{
    let mut r: Vec<char> = Vec::new();
    let mut i = from;
    while i < to
        invariant
            from <= i <= to <= v.len(),
            r@ == v@.subrange(from as int, i as int),
        decreases to - i,
    {
        r.push(v[i]);
        assert(v@.subrange(from as int, i + 1) == v@.subrange(from as int, i as int).push(v@[i as int]));
        i = i + 1;
    }
    r
}

/// `s.split(sep)` collected: every piece between separators.
pub fn split_all(v: &Vec<char>, sep: char) -> (r: Vec<Vec<char>>)
    ensures
        char_rows(r@) == pieces(v@, sep),
{
    let mut r: Vec<Vec<char>> = Vec::new();
    let mut from: usize = 0;
    proof {
        lemma_first_index_of_bounds(v@, sep);
        assert(v@.skip(0) == v@);
    }
    loop
        invariant
            from <= v.len(),
            char_rows(r@) + pieces(v@.skip(from as int), sep) == pieces(v@, sep),
        decreases v.len() - from,
    {
        let i = find_char_from(v, from, sep);
        let piece = vec_of_range(v, from, i);
        let ghost rest = v@.skip(from as int);
        proof {
            lemma_first_index_of_bounds(rest, sep);
            assert(piece@ == rest.take(i - from));
        }
        if i == v.len() {
            proof {
                assert(rest.take(i - from) == rest);
                assert(pieces(rest, sep) == seq![rest]);
                assert(char_rows(r@.push(piece)) == char_rows(r@).push(piece@));
                assert(char_rows(r@) + seq![rest] == char_rows(r@).push(rest));
            }
            r.push(piece);
            return r;
        }
        proof {
            assert(rest.skip(i - from + 1) == v@.skip(i + 1));
            assert(pieces(rest, sep) == seq![rest.take(i - from)] + pieces(v@.skip(i + 1), sep));
            assert(char_rows(r@.push(piece)) == char_rows(r@).push(piece@));
            assert(char_rows(r@) + (seq![piece@] + pieces(v@.skip(i + 1), sep))
                == char_rows(r@).push(piece@) + pieces(v@.skip(i + 1), sep));
        }
        r.push(piece);
        from = i + 1;
    }
}

// ---------------------------------------------------------------------------
// IPv4 addresses in dotted-decimal text, as std's `Ipv4Addr` parser reads them
// ---------------------------------------------------------------------------

/// One dotted-decimal octet: one to three ASCII digits, no leading zero (except `0`
/// itself), value at most 255.
pub open spec fn octet_text(p: Seq<char>) -> bool {
    &&& 1 <= p.len() <= 3
    &&& all_digits(p)
    &&& (p.len() == 1 || p[0] != '0')
    &&& digits_value(p) <= 255
}

/// The address written by `s` as four dotted-decimal octets, as a 32-bit number (first
/// octet most significant), or `None` when `s` is not such a text.
pub open spec fn ipv4_value(s: Seq<char>) -> Option<u32> {
    let p = pieces(s, '.');
    if p.len() == 4 && octet_text(p[0]) && octet_text(p[1]) && octet_text(p[2]) && octet_text(p[3]) {
        Some((digits_value(p[0]) * 16777216 + digits_value(p[1]) * 65536
            + digits_value(p[2]) * 256 + digits_value(p[3])) as u32)
    } else {
        None
    }
}

fn octet_of(p: &Vec<char>) -> (r: Option<u32>)
    ensures
        match r {
            Some(n) => octet_text(p@) && n == digits_value(p@),
            None => !octet_text(p@),
        },
{
    if p.len() == 0 || p.len() > 3 {
        return None;
    }
    if p.len() > 1 && p[0] == '0' {
        return None;
    }
    let n = parse_digits_up_to(p, 0, 255);
    assert(p@.skip(0) == p@);
    match n {
        Some(n) => Some(n as u32),
        None => None,
    }
}

/// Parses an IPv4 address in dotted-decimal text.
pub fn parse_ipv4(s: &str) -> (r: Option<u32>)
    ensures
        r == ipv4_value(s@),
{
    let v = chars_of(s);
    ipv4_of_chars(&v)
}

fn ipv4_of_chars(v: &Vec<char>) -> (r: Option<u32>)
    ensures
        r == ipv4_value(v@),
{
    let parts = split_all(v, '.');
    let ghost p = pieces(v@, '.');
    if parts.len() != 4 {
        return None;
    }
    assert(parts@[0]@ == p[0] && parts@[1]@ == p[1] && parts@[2]@ == p[2] && parts@[3]@ == p[3]);
    let a = octet_of(&parts[0]);
    let b = octet_of(&parts[1]);
    let c = octet_of(&parts[2]);
    let d = octet_of(&parts[3]);
    match (a, b, c, d) {
        (Some(a), Some(b), Some(c), Some(d)) => {
            Some(a * 16777216 + b * 65536 + c * 256 + d)
        },
        _ => None,
    }
}

} // verus!

verus! {

/// Whether `s` is an IP address text (IPv4 or IPv6), as std's `IpAddr` parser accepts.
pub open spec fn is_ip_text(s: Seq<char>) -> bool {
    ipv4_value(s) is Some || is_ipv6_text(s)
}

// ---------------------------------------------------------------------------
// IPv6 addresses in text, as std's `Ipv6Addr` parser reads them
// ---------------------------------------------------------------------------

/// Whether `c` is an ASCII hexadecimal digit.
pub open spec fn is_hex_digit(c: char) -> bool {
    ('0' <= c && c <= '9') || ('a' <= c && c <= 'f') || ('A' <= c && c <= 'F')
}

/// One group of an IPv6 text: one to four hexadecimal digits.
pub open spec fn hex_group(p: Seq<char>) -> bool {
    &&& 1 <= p.len() <= 4
    &&& forall|i: int| 0 <= i < p.len() ==> is_hex_digit(#[trigger] p[i])
}

/// Whether the first `n` pieces are groups.
pub open spec fn all_hex(p: Seq<Seq<char>>, n: int) -> bool {
    forall|i: int| 0 <= i < n ==> hex_group(#[trigger] p[i])
}

/// The position of the first `::` in `s`, if any.
pub open spec fn first_double_colon(s: Seq<char>) -> Option<int>
    decreases s.len(),
{
    if s.len() < 2 {
        None
    } else if s[0] == ':' && s[1] == ':' {
        Some(0)
    } else {
        match first_double_colon(s.skip(1)) {
            Some(i) => Some(i + 1),
            None => None,
        }
    }
}

/// The pieces of an IPv6 text without `::`: eight groups, or six groups and an IPv4 text.
pub open spec fn full_form(p: Seq<Seq<char>>) -> bool {
    ||| p.len() == 8 && all_hex(p, 8)
    ||| p.len() == 7 && all_hex(p, 6) && ipv4_value(p[6]) is Some
}

/// The number of groups before a `::`: none for an empty text, else its pieces, which must
/// all be groups.
pub open spec fn head_groups(l: Seq<char>) -> Option<nat> {
    if l.len() == 0 {
        Some(0)
    } else {
        let p = pieces(l, ':');
        if all_hex(p, p.len() as int) {
            Some(p.len())
        } else {
            None
        }
    }
}

/// The number of 16-bit groups after a `::`: none for an empty text, else its pieces, which
/// must be groups, except that the last may be an IPv4 text (two groups' worth).
pub open spec fn tail_groups(r: Seq<char>) -> Option<nat> {
    if r.len() == 0 {
        Some(0)
    } else {
        let p = pieces(r, ':');
        if all_hex(p, p.len() as int) {
            Some(p.len())
        } else if all_hex(p, p.len() - 1) && ipv4_value(p[p.len() - 1]) is Some {
            Some(p.len() + 1)
        } else {
            None
        }
    }
}

/// Whether `s` is an IPv6 address text: eight colon-separated groups (the last two may be
/// written as an IPv4 text), or groups before and after one `::` that stands for at least
/// one zero group.
pub open spec fn is_ipv6_text(s: Seq<char>) -> bool {
    match first_double_colon(s) {
        None => full_form(pieces(s, ':')),
        Some(i) => match (head_groups(s.take(i)), tail_groups(s.skip(i + 2))) {
            (Some(a), Some(b)) => a + b <= 7,
            _ => false,
        },
    }
}

fn hex_digit(c: char) -> (b: bool)
    ensures
        b == is_hex_digit(c),
{
    ('0' <= c && c <= '9') || ('a' <= c && c <= 'f') || ('A' <= c && c <= 'F')
}

fn is_hex_group(p: &Vec<char>) -> (b: bool)
    ensures
        b == hex_group(p@),
{
    if p.len() == 0 || p.len() > 4 {
        return false;
    }
    let mut i: usize = 0;
    while i < p.len()
        invariant
            i <= p.len(),
            forall|j: int| 0 <= j < i ==> is_hex_digit(#[trigger] p@[j]),
        decreases p.len() - i,
    {
        if !hex_digit(p[i]) {
            return false;
        }
        i = i + 1;
    }
    true
}

fn all_hex_rows(rows: &Vec<Vec<char>>, n: usize) -> (b: bool)
    requires
        n <= rows.len(),
    ensures
        b == all_hex(char_rows(rows@), n as int),
{
    let mut i: usize = 0;
    while i < n
        invariant
            i <= n <= rows.len(),
            forall|j: int| 0 <= j < i ==> hex_group(#[trigger] char_rows(rows@)[j]),
        decreases n - i,
    {
        if !is_hex_group(&rows[i]) {
            assert(char_rows(rows@)[i as int] == rows@[i as int]@);
            return false;
        }
        i = i + 1;
    }
    true
}

proof fn lemma_first_double_colon(s: Seq<char>, i: int)
    requires
        0 <= i,
        forall|j: int| #![trigger s[j]] 0 <= j < i && j + 1 < s.len() ==> !(s[j] == ':' && s[j + 1] == ':'),
    ensures
        i + 1 < s.len() && s[i] == ':' && s[i + 1] == ':' ==> first_double_colon(s) == Some(i),
        i + 1 >= s.len() ==> first_double_colon(s) is None,
    decreases i,
{
    if s.len() >= 2 && i > 0 {
        let t = s.skip(1);
        assert forall|j: int| #![trigger t[j]] 0 <= j < i - 1 && j + 1 < t.len() implies !(t[j] == ':' && t[j + 1] == ':') by {
            assert(t[j] == s[j + 1] && t[j + 1] == s[j + 2]);
        }
        assert(s[0] == s[0]);
        lemma_first_double_colon(t, i - 1);
        assert(!(s[0] == ':' && s[1] == ':'));
    }
}

fn find_double_colon(v: &Vec<char>) -> (r: Option<usize>)
    ensures
        match r {
            Some(i) => first_double_colon(v@) == Some(i as int) && i + 1 < v@.len(),
            None => first_double_colon(v@) is None,
        },
{
    let mut i: usize = 0;
    if v.len() < 2 {
        proof {
            lemma_first_double_colon(v@, 0);
        }
        return None;
    }
    while i < v.len() - 1
        invariant
            v.len() >= 2,
            i <= v.len() - 1,
            forall|j: int| #![trigger v@[j]] 0 <= j < i && j + 1 < v@.len() ==> !(v@[j] == ':' && v@[j + 1] == ':'),
        decreases v.len() - i,
    {
        if v[i] == ':' && v[i + 1] == ':' {
            proof {
                lemma_first_double_colon(v@, i as int);
            }
            return Some(i);
        }
        i = i + 1;
    }
    proof {
        lemma_first_double_colon(v@, i as int);
    }
    None
}

fn head_count(l: &Vec<char>) -> (r: Option<usize>)
    ensures
        match r {
            Some(n) => head_groups(l@) == Some(n as nat),
            None => head_groups(l@) is None,
        },
{
    if l.len() == 0 {
        return Some(0);
    }
    let p = split_all(l, ':');
    if all_hex_rows(&p, p.len()) {
        Some(p.len())
    } else {
        None
    }
}

fn tail_count(r: &Vec<char>) -> (c: Option<(usize, bool)>)
    ensures
        match c {
            Some((n, v4)) => tail_groups(r@) == Some((n + if v4 { 1int } else { 0int }) as nat),
            None => tail_groups(r@) is None,
        },
{
    if r.len() == 0 {
        return Some((0, false));
    }
    let p = split_all(r, ':');
    let n = p.len();
    if all_hex_rows(&p, n) {
        return Some((n, false));
    }
    if n == 0 {
        return None;
    }
    if all_hex_rows(&p, n - 1) {
        assert(char_rows(p@)[n - 1] == p@[n - 1]@);
        if ipv4_of_chars(&p[n - 1]).is_some() {
            return Some((n, true));
        }
    }
    None
}

fn ipv6_chars(v: &Vec<char>) -> (b: bool)
    ensures
        b == is_ipv6_text(v@),
{
    match find_double_colon(v) {
        None => {
            let p = split_all(v, ':');
            if p.len() == 8 {
                all_hex_rows(&p, 8)
            } else if p.len() == 7 {
                assert(char_rows(p@)[6] == p@[6]@);
                all_hex_rows(&p, 6) && ipv4_of_chars(&p[6]).is_some()
            } else {
                false
            }
        },
        Some(i) => {
            assert(i + 2 <= v.len());
            let l = vec_of_range(v, 0, i);
            let r = vec_of_range(v, i + 2, v.len());
            assert(l@ == v@.take(i as int));
            assert(r@ == v@.skip(i + 2));
            match (head_count(&l), tail_count(&r)) {
                (Some(a), Some((b, v4))) => a <= 7 && b <= 7 - a && (!v4 || b < 7 - a),
                _ => false,
            }
        },
    }
}

// ---------------------------------------------------------------------------
// The value of an IPv6 text
// ---------------------------------------------------------------------------

/// The value of a hexadecimal digit.
pub open spec fn hex_digit_value(c: char) -> nat {
    if '0' <= c && c <= '9' {
        ((c as int) - ('0' as int)) as nat
    } else if 'a' <= c && c <= 'f' {
        ((c as int) - ('a' as int) + 10) as nat
    } else {
        ((c as int) - ('A' as int) + 10) as nat
    }
}

/// The number written by the hexadecimal digits `p` (most significant first).
pub open spec fn hex_value(p: Seq<char>) -> nat
    decreases p.len(),
{
    if p.len() == 0 {
        0
    } else {
        hex_value(p.drop_last()) * 16 + hex_digit_value(p.last())
    }
}

/// The values of groups.
pub open spec fn hex_values(p: Seq<Seq<char>>) -> Seq<nat> {
    p.map_values(|q: Seq<char>| hex_value(q))
}

/// An IPv4 address as the two 16-bit groups it stands for in an IPv6 text.
pub open spec fn v4_groups(v: u32) -> Seq<nat> {
    seq![(v / 65536) as nat, (v % 65536) as nat]
}

/// The group values before a `::`.
pub open spec fn head_values(l: Seq<char>) -> Seq<nat> {
    if l.len() == 0 {
        seq![]
    } else {
        hex_values(pieces(l, ':'))
    }
}

/// The group values after a `::` (an IPv4 text at the end stands for two).
pub open spec fn tail_values(r: Seq<char>) -> Seq<nat> {
    if r.len() == 0 {
        seq![]
    } else {
        let p = pieces(r, ':');
        if all_hex(p, p.len() as int) {
            hex_values(p)
        } else {
            hex_values(p.drop_last()) + v4_groups(ipv4_value(p.last()).unwrap())
        }
    }
}

/// The eight 16-bit groups an IPv6 text stands for, a `::` filled with zero groups.
pub open spec fn ipv6_groups(s: Seq<char>) -> Seq<nat> {
    match first_double_colon(s) {
        None => {
            let p = pieces(s, ':');
            if p.len() == 8 {
                hex_values(p)
            } else {
                hex_values(p.take(6)) + v4_groups(ipv4_value(p[6]).unwrap())
            }
        },
        Some(i) => {
            let h = head_values(s.take(i));
            let t = tail_values(s.skip(i + 2));
            h + Seq::new((8 - h.len() - t.len()) as nat, |k: int| 0nat) + t
        },
    }
}

/// The number that 16-bit groups make, the first most significant.
pub open spec fn groups_value(g: Seq<nat>) -> nat
    decreases g.len(),
{
    if g.len() == 0 {
        0
    } else {
        groups_value(g.drop_last()) * 65536 + g.last()
    }
}

/// The address written by an IPv6 text, as a 128-bit number, or `None` when `s` is not
/// one.
pub open spec fn ipv6_value(s: Seq<char>) -> Option<u128> {
    if is_ipv6_text(s) {
        Some(groups_value(ipv6_groups(s)) as u128)
    } else {
        None
    }
}

spec fn pow16(n: nat) -> nat
    decreases n,
{
    if n == 0 {
        1
    } else {
        16 * pow16((n - 1) as nat)
    }
}

fn hex_digit_of(c: char) -> (d: u32)
    requires
        is_hex_digit(c),
    ensures
        d == hex_digit_value(c),
        d < 16,
{
    if '0' <= c && c <= '9' {
        (c as u32) - ('0' as u32)
    } else if 'a' <= c && c <= 'f' {
        (c as u32) - ('a' as u32) + 10
    } else {
        (c as u32) - ('A' as u32) + 10
    }
}

fn hex_group_value(p: &Vec<char>) -> (v: u32)
    requires
        hex_group(p@),
    ensures
        v == hex_value(p@),
        v < 65536,
{
    let mut acc: u32 = 0;
    let mut i: usize = 0;
    while i < p.len()
        invariant
            i <= p.len() <= 4,
            hex_group(p@),
            acc == hex_value(p@.take(i as int)),
            acc < pow16(i as nat),
            acc < 65536,
        decreases p.len() - i,
    {
        let d = hex_digit_of(p[i]);
        assert(p@.take(i + 1).drop_last() == p@.take(i as int));
        assert(acc * 16 + d < pow16((i + 1) as nat)) by (nonlinear_arith)
            requires
                acc < pow16(i as nat),
                d < 16,
                pow16((i + 1) as nat) == 16 * pow16(i as nat),
        ;
        assert(pow16(4) == 65536) by {
            reveal_with_fuel(pow16, 5);
        }
        assert(pow16((i + 1) as nat) <= 65536) by {
            reveal_with_fuel(pow16, 5);
        }
        acc = acc * 16 + d;
        i = i + 1;
    }
    assert(p@.take(p.len() as int) == p@);
    acc
}

spec fn pow65536(n: nat) -> nat
    decreases n,
{
    if n == 0 {
        1
    } else {
        65536 * pow65536((n - 1) as nat)
    }
}

proof fn lemma_groups_value_bound(g: Seq<nat>)
    requires
        forall|i: int| 0 <= i < g.len() ==> #[trigger] g[i] < 65536,
    ensures
        groups_value(g) < pow65536(g.len()),
    decreases g.len(),
{
    if g.len() > 0 {
        let init = g.drop_last();
        assert forall|i: int| 0 <= i < init.len() implies #[trigger] init[i] < 65536 by {
            assert(init[i] == g[i]);
        }
        lemma_groups_value_bound(init);
        let a = groups_value(init);
        let b = g.last();
        let p = pow65536(init.len());
        assert(a * 65536 + b < 65536 * p) by (nonlinear_arith)
            requires
                a < p,
                b < 65536,
        ;
    }
}

/// The views of 16-bit groups as numbers.
spec fn group_nats(v: Seq<u32>) -> Seq<nat> {
    v.map_values(|x: u32| x as nat)
}

/// All groups fit in 16 bits.
spec fn groups_fit(v: Seq<u32>) -> bool {
    forall|k: int| 0 <= k < v.len() ==> #[trigger] v[k] < 65536
}

fn push_group(out: &mut Vec<u32>, x: u32)
    requires
        groups_fit(old(out)@),
        x < 65536,
    ensures
        groups_fit(final(out)@),
        group_nats(final(out)@) == group_nats(old(out)@).push(x as nat),
{
    out.push(x);
    assert(group_nats(out@) == group_nats(old(out)@).push(x as nat));
}

fn push_groups_of_pieces(out: &mut Vec<u32>, p: &Vec<Vec<char>>, n: usize)
    requires
        n <= p.len(),
        all_hex(char_rows(p@), n as int),
        groups_fit(old(out)@),
    ensures
        groups_fit(final(out)@),
        group_nats(final(out)@) == group_nats(old(out)@) + hex_values(char_rows(p@).take(n as int)),
{
    let ghost start = group_nats(out@);
    let mut i: usize = 0;
    while i < n
        invariant
            n <= p.len(),
            all_hex(char_rows(p@), n as int),
            i <= n,
            groups_fit(out@),
            group_nats(out@) == start + hex_values(char_rows(p@).take(i as int)),
        decreases n - i,
    {
        assert(char_rows(p@)[i as int] == p@[i as int]@);
        assert(hex_group(char_rows(p@)[i as int]));
        let v = hex_group_value(&p[i]);
        push_group(out, v);
        assert(char_rows(p@).take(i + 1) == char_rows(p@).take(i as int).push(char_rows(p@)[i as int]));
        assert(hex_values(char_rows(p@).take(i + 1)) == hex_values(char_rows(p@).take(i as int)).push(
            v as nat,
        ));
        i = i + 1;
    }
}

fn push_v4_groups(out: &mut Vec<u32>, x: u32)
    requires
        groups_fit(old(out)@),
    ensures
        groups_fit(final(out)@),
        group_nats(final(out)@) == group_nats(old(out)@) + v4_groups(x),
{
    push_group(out, x / 65536);
    push_group(out, x % 65536);
    assert(group_nats(out@) == group_nats(old(out)@) + v4_groups(x));
}

fn groups_number(g: &Vec<u32>) -> (r: u128)
    requires
        g.len() == 8,
        groups_fit(g@),
    ensures
        r == groups_value(group_nats(g@)),
{
    let ghost gs = group_nats(g@);
    let mut acc: u128 = 0;
    let mut i: usize = 0;
    while i < 8
        invariant
            g.len() == 8,
            groups_fit(g@),
            gs == group_nats(g@),
            i <= 8,
            acc == groups_value(gs.take(i as int)),
        decreases 8 - i,
    {
        assert(gs.take(i + 1).drop_last() == gs.take(i as int));
        proof {
            assert forall|k: int| 0 <= k < gs.take(i + 1).len() implies #[trigger] gs.take(i + 1)[k] < 65536 by {
                assert(gs.take(i + 1)[k] == g@[k] as nat);
            }
            lemma_groups_value_bound(gs.take(i + 1));
            assert(pow65536((i + 1) as nat) <= pow65536(8)) by {
                lemma_pow65536_monotone((i + 1) as nat, 8);
            }
            assert(pow65536(8) == 0x1_0000_0000_0000_0000_0000_0000_0000_0000) by {
                reveal_with_fuel(pow65536, 9);
            }
        }
        acc = acc * 65536 + g[i] as u128;
        i = i + 1;
    }
    assert(gs.take(8) == gs);
    acc
}

proof fn lemma_pow65536_monotone(a: nat, b: nat)
    requires
        a <= b,
    ensures
        pow65536(a) <= pow65536(b),
    decreases b,
{
    if a < b {
        lemma_pow65536_monotone(a, (b - 1) as nat);
        assert(pow65536(b) == 65536 * pow65536((b - 1) as nat));
    }
}

fn ipv6_of_chars(v: &Vec<char>) -> (r: Option<u128>)
    ensures
        r == ipv6_value(v@),
{
    if !ipv6_chars(v) {
        return None;
    }
    let mut groups: Vec<u32> = Vec::new();
    match find_double_colon(v) {
        None => {
            let p = split_all(v, ':');
            if p.len() == 8 {
                push_groups_of_pieces(&mut groups, &p, 8);
                assert(char_rows(p@).take(8) == char_rows(p@));
            } else {
                assert(char_rows(p@)[6] == p@[6]@);
                push_groups_of_pieces(&mut groups, &p, 6);
                let x = ipv4_of_chars(&p[6]).unwrap();
                push_v4_groups(&mut groups, x);
            }
        },
        Some(i) => {
            assert(i + 2 <= v.len());
            let l = vec_of_range(v, 0, i);
            let r = vec_of_range(v, i + 2, v.len());
            assert(l@ == v@.take(i as int));
            assert(r@ == v@.skip(i + 2));
            if l.len() > 0 {
                let pl = split_all(&l, ':');
                push_groups_of_pieces(&mut groups, &pl, pl.len());
                assert(char_rows(pl@).take(pl.len() as int) == char_rows(pl@));
            }
            assert(group_nats(groups@) == head_values(l@));
            let mut tail: Vec<u32> = Vec::new();
            if r.len() > 0 {
                let pr = split_all(&r, ':');
                let n = pr.len();
                if all_hex_rows(&pr, n) {
                    push_groups_of_pieces(&mut tail, &pr, n);
                    assert(char_rows(pr@).take(n as int) == char_rows(pr@));
                } else {
                    assert(char_rows(pr@)[n - 1] == pr@[n - 1]@);
                    push_groups_of_pieces(&mut tail, &pr, n - 1);
                    assert(char_rows(pr@).take(n - 1) == char_rows(pr@).drop_last());
                    let x = ipv4_of_chars(&pr[n - 1]).unwrap();
                    push_v4_groups(&mut tail, x);
                }
            }
            assert(group_nats(tail@) == tail_values(r@));
            let ghost h = group_nats(groups@);
            let ghost t = group_nats(tail@);
            assert(h.len() + t.len() <= 7);
            let mut z: usize = 0;
            let zeros = 8 - groups.len() - tail.len();
            while z < zeros
                invariant
                    z <= zeros,
                    zeros == 8 - h.len() - t.len(),
                    groups_fit(groups@),
                    group_nats(groups@) == h + Seq::new(z as nat, |k: int| 0nat),
                decreases zeros - z,
            {
                push_group(&mut groups, 0);
                assert(h + Seq::new((z + 1) as nat, |k: int| 0nat) == (h + Seq::new(z as nat, |k: int| 0nat)).push(0nat));
                z = z + 1;
            }
            let mut j: usize = 0;
            let ghost mid = group_nats(groups@);
            while j < tail.len()
                invariant
                    j <= tail.len(),
                    t == group_nats(tail@),
                    groups_fit(tail@),
                    groups_fit(groups@),
                    group_nats(groups@) == mid + t.take(j as int),
                decreases tail.len() - j,
            {
                push_group(&mut groups, tail[j]);
                assert(t.take(j + 1) == t.take(j as int).push(t[j as int]));
                assert(mid + t.take(j + 1) == (mid + t.take(j as int)).push(t[j as int]));
                j = j + 1;
            }
            assert(t.take(tail.len() as int) == t);
        },
    }
    assert(group_nats(groups@) == ipv6_groups(v@));
    Some(groups_number(&groups))
}

} // verus!

verus! {

/// The value of an IP address text: an IPv4 or an IPv6 address.
#[derive(PartialEq, Eq, Structural, Clone, Copy, Debug)]
pub enum IpValue {
    V4(u32),
    V6(u128),
}

/// The address `s` writes, read as IPv4 first and as IPv6 otherwise, as std's `IpAddr`
/// parser reads it; `None` when `s` is neither.
pub open spec fn ip_value(s: Seq<char>) -> Option<IpValue> {
    match ipv4_value(s) {
        Some(v) => Some(IpValue::V4(v)),
        None => match ipv6_value(s) {
            Some(v) => Some(IpValue::V6(v)),
            None => None,
        },
    }
}

/// Parses an IP address text (see [`ip_value`]).
pub fn parse_ip(s: &str) -> (r: Option<IpValue>)
    ensures
        r == ip_value(s@),
{
    let v = chars_of(s);
    match ipv4_of_chars(&v) {
        Some(x) => Some(IpValue::V4(x)),
        None => match ipv6_of_chars(&v) {
            Some(x) => Some(IpValue::V6(x)),
            None => None,
        },
    }
}

/// Checks whether `s` is an IP address text.
pub fn check_ip_text(s: &str) -> (b: bool)
    ensures
        b == is_ip_text(s@),
{
    let v = chars_of(s);
    ipv4_of_chars(&v).is_some() || ipv6_chars(&v)
}

} // verus!
