//! Character sequences: trimming, ASCII case, searching, decimal and
//! hexadecimal digits.
use vstd::prelude::*;

verus! {

/// `String::push` of the standard library: appends one character.
pub assume_specification[ String::push ](s: &mut String, c: char)
    ensures
        final(s)@ == old(s)@.push(c),
;

/// `std::str::from_utf8` of the standard library, with an owned result: the
/// text that these bytes encode in UTF-8, or nothing where they are no UTF-8.
#[verifier::external_body]
pub(crate) fn utf8_text(bytes: &[u8]) -> (r: Option<String>)
    ensures
        r is Some <==> vstd::utf8::valid_utf8(bytes@),
        r matches Some(s) ==> s@ == vstd::utf8::decode_utf8(bytes@),
{
    std::str::from_utf8(bytes).ok().map(|s| s.to_owned())
}

/// The characters with the Unicode property `White_Space`.
pub open spec fn white_space(c: char) -> bool {
    let u = c as u32;
    ||| 0x09 <= u <= 0x0D
    ||| u == 0x20
    ||| u == 0x85
    ||| u == 0xA0
    ||| u == 0x1680
    ||| 0x2000 <= u <= 0x200A
    ||| 0x2028 <= u <= 0x2029
    ||| u == 0x202F
    ||| u == 0x205F
    ||| u == 0x3000
}

/// `s` without its leading white space.
pub open spec fn trimmed_start(s: Seq<char>) -> Seq<char>
    decreases s.len(),
{
    if s.len() > 0 && white_space(s.first()) {
        trimmed_start(s.drop_first())
    } else {
        s
    }
}

/// `s` without its trailing white space.
pub open spec fn trimmed_end(s: Seq<char>) -> Seq<char>
    decreases s.len(),
{
    if s.len() > 0 && white_space(s.last()) {
        trimmed_end(s.drop_last())
    } else {
        s
    }
}

/// `s` without white space at either end.
pub open spec fn trimmed(s: Seq<char>) -> Seq<char> {
    trimmed_end(trimmed_start(s))
}

/// `c`, or its capital where it is a small ASCII letter.
pub open spec fn ascii_upper(c: char) -> char {
    if 'a' <= c <= 'z' {
        (c as u32 - 32) as char
    } else {
        c
    }
}

/// `c`, or its small letter where it is an ASCII capital.
pub open spec fn ascii_lower(c: char) -> char {
    if 'A' <= c <= 'Z' {
        (c as u32 + 32) as char
    } else {
        c
    }
}

/// `s` with every small ASCII letter made a capital.
pub open spec fn upper(s: Seq<char>) -> Seq<char> {
    s.map_values(|c: char| ascii_upper(c))
}

/// `s` with every ASCII capital made small.
pub open spec fn lower(s: Seq<char>) -> Seq<char> {
    s.map_values(|c: char| ascii_lower(c))
}

/// `prefix` stands at the front of `s`.
pub open spec fn begins_with(s: Seq<char>, prefix: Seq<char>) -> bool {
    prefix.len() <= s.len() && s.take(prefix.len() as int) == prefix
}

/// `part` stands in `s` at position `at`.
pub open spec fn stands_at(s: Seq<char>, part: Seq<char>, at: int) -> bool {
    0 <= at && at + part.len() <= s.len() && s.subrange(at, at + part.len() as int) == part
}

/// `part` stands somewhere in `s`.
pub open spec fn has_part(s: Seq<char>, part: Seq<char>) -> bool {
    exists|at: int| stands_at(s, part, at)
}

/// The decimal digit of `n`, for `n` below ten.
pub open spec fn digit(n: nat) -> char {
    ('0' as u32 + n) as char
}

/// `n` in decimal digits, without leading zeros.
pub open spec fn decimal(n: nat) -> Seq<char>
    decreases n,
{
    if n < 10 {
        seq![digit(n)]
    } else {
        decimal(n / 10).push(digit(n % 10))
    }
}

/// `i` in decimal digits, after a minus sign where it is negative.
pub open spec fn signed_decimal(i: int) -> Seq<char> {
    if i < 0 {
        seq!['-'] + decimal((-i) as nat)
    } else {
        decimal(i as nat)
    }
}

/// `s` with zeros put in front until it is `width` characters long.
pub open spec fn zero_padded(s: Seq<char>, width: nat) -> Seq<char> {
    if s.len() < width {
        Seq::new((width - s.len()) as nat, |i: int| '0') + s
    } else {
        s
    }
}

/// The hexadecimal digit of `n` with capital letters, for `n` below sixteen.
pub open spec fn upper_hex_digit(n: nat) -> char {
    if n < 10 {
        ('0' as u32 + n) as char
    } else {
        ('A' as u32 + (n - 10)) as char
    }
}

/// The hexadecimal digit of `n` with small letters, for `n` below sixteen.
pub open spec fn lower_hex_digit(n: nat) -> char {
    if n < 10 {
        ('0' as u32 + n) as char
    } else {
        ('a' as u32 + (n - 10)) as char
    }
}

/// Tells whether a character is Unicode white space.
pub fn is_white_space(c: char) -> (r: bool)
    ensures
        r == white_space(c),
{
    let u: u32 = c as u32;
    (0x09 <= u && u <= 0x0D) || u == 0x20 || u == 0x85 || u == 0xA0 || u == 0x1680 || (0x2000 <= u
        && u <= 0x200A) || (0x2028 <= u && u <= 0x2029) || u == 0x202F || u == 0x205F || u == 0x3000
}

pub(crate) fn char_to_upper(c: char) -> (r: char)
    ensures
        r == ascii_upper(c),
{
    if 'a' <= c && c <= 'z' {
        (c as u8 - 32) as char
    } else {
        c
    }
}

pub(crate) fn char_to_lower(c: char) -> (r: char)
    ensures
        r == ascii_lower(c),
{
    if 'A' <= c && c <= 'Z' {
        (c as u8 + 32) as char
    } else {
        c
    }
}

/// The characters of a string, one after the other.
pub(crate) fn chars_of(s: &str) -> (r: Vec<char>)
    ensures
        r@ == s@,
{
    let mut out: Vec<char> = Vec::new();
    for c in it: s.chars()
        invariant
            out@ == it.seq().take(it.index()),
            it.seq() == s@,
    {
        out.push(c);
    }
    out
}

/// The characters from `from` up to `to` as a string.
pub(crate) fn string_of(chars: &Vec<char>, from: usize, to: usize) -> (r: String)
    requires
        from <= to <= chars@.len(),
    ensures
        r@ == chars@.subrange(from as int, to as int),
{
    let mut out = String::new();
    let mut i: usize = from;
    while i < to
        invariant
            from <= i <= to <= chars@.len(),
            out@ == chars@.subrange(from as int, i as int),
        decreases to - i,
    {
        out.push(chars[i]);
        i += 1;
        assert(out@ == chars@.subrange(from as int, i as int));
    }
    out
}

/// The string without white space at either end.
pub fn trim(s: &str) -> (r: String)
    ensures
        r@ == trimmed(s@),
{
    let chars = chars_of(s);
    let n = chars.len();
    let mut lo: usize = 0;
    assert(chars@.subrange(0, n as int) == s@);
    while lo < n && is_white_space(chars[lo])
        invariant
            0 <= lo <= n == chars@.len(),
            trimmed_start(chars@.subrange(lo as int, n as int)) == trimmed_start(s@),
        decreases n - lo,
    {
        assert(chars@.subrange(lo as int, n as int).drop_first() == chars@.subrange(
            lo as int + 1,
            n as int,
        ));
        lo += 1;
    }
    let mut hi: usize = n;
    while lo < hi && is_white_space(chars[hi - 1])
        invariant
            0 <= lo <= hi <= n == chars@.len(),
            trimmed_end(chars@.subrange(lo as int, hi as int)) == trimmed(s@),
        decreases hi - lo,
    {
        assert(chars@.subrange(lo as int, hi as int).drop_last() == chars@.subrange(
            lo as int,
            hi as int - 1,
        ));
        hi -= 1;
    }
    string_of(&chars, lo, hi)
}

/// The string with every small ASCII letter made a capital.
pub fn to_upper(s: &str) -> (r: String)
    ensures
        r@ == upper(s@),
{
    let mut out = String::new();
    for c in it: s.chars()
        invariant
            out@ == upper(it.seq().take(it.index())),
            it.seq() == s@,
    {
        proof {
            assert(upper(it.seq().take(it.index() + 1)) == upper(it.seq().take(it.index())).push(
                ascii_upper(c),
            ));
        }
        out.push(char_to_upper(c));
    }
    out
}

/// The string with every ASCII capital made small.
pub fn to_lower(s: &str) -> (r: String)
    ensures
        r@ == lower(s@),
{
    let mut out = String::new();
    for c in it: s.chars()
        invariant
            out@ == lower(it.seq().take(it.index())),
            it.seq() == s@,
    {
        proof {
            assert(lower(it.seq().take(it.index() + 1)) == lower(it.seq().take(it.index())).push(
                ascii_lower(c),
            ));
        }
        out.push(char_to_lower(c));
    }
    out
}

/// Tells whether `part` stands in `chars` at position `at`.
pub(crate) fn matches_at(chars: &Vec<char>, part: &Vec<char>, at: usize) -> (r: bool)
    ensures
        r == stands_at(chars@, part@, at as int),
{
    if at > chars.len() || part.len() > chars.len() - at {
        return false;
    }
    let n = part.len();
    let mut i: usize = 0;
    while i < n
        invariant
            0 <= i <= n == part@.len(),
            at + n <= chars.len(),
            forall|k: int| 0 <= k < i ==> chars@[at + k] == part@[k],
        decreases n - i,
    {
        if chars[at + i] != part[i] {
            assert(chars@.subrange(at as int, at + n as int)[i as int] != part@[i as int]);
            return false;
        }
        i += 1;
    }
    assert(chars@.subrange(at as int, at + n as int) == part@);
    true
}

/// Tells whether `s` begins with `prefix`.
pub fn starts_with(s: &str, prefix: &str) -> (r: bool)
    ensures
        r == begins_with(s@, prefix@),
{
    let chars = chars_of(s);
    let part = chars_of(prefix);
    let r = matches_at(&chars, &part, 0);
    assert(prefix@.len() <= s@.len() ==> s@.take(prefix@.len() as int) == s@.subrange(
        0,
        prefix@.len() as int,
    ));
    r
}

/// Tells whether `part` stands anywhere in `s`.
pub fn contains(s: &str, part: &str) -> (r: bool)
    ensures
        r == has_part(s@, part@),
{
    let chars = chars_of(s);
    let wanted = chars_of(part);
    let n = chars.len();
    let mut at: usize = 0;
    while at < n
        invariant
            0 <= at <= n == chars@.len(),
            chars@ == s@,
            wanted@ == part@,
            forall|k: int| 0 <= k < at ==> !stands_at(s@, part@, k),
        decreases n - at,
    {
        if matches_at(&chars, &wanted, at) {
            return true;
        }
        at += 1;
    }
    let r = matches_at(&chars, &wanted, n);
    assert(r == has_part(s@, part@)) by {
        if has_part(s@, part@) {
            let k = choose|k: int| stands_at(s@, part@, k);
            assert(k == n);
        }
    }
    r
}

/// Tells whether two strings hold the same characters.
pub(crate) fn same_text(a: &str, b: &str) -> (r: bool)
    ensures
        r == (a@ == b@),
{
    let left = chars_of(a);
    let right = chars_of(b);
    let r = left.len() == right.len() && matches_at(&left, &right, 0);
    assert(left@.len() == right@.len() ==> left@.subrange(0, right@.len() as int) == left@);
    r
}

/// Tells whether a string holds no character.
pub(crate) fn holds_nothing(s: &str) -> (r: bool)
    ensures
        r == (s@.len() == 0),
{
    chars_of(s).len() == 0
}

/// The decimal digits of `n`.
fn decimal_digits(n: u64) -> (r: Vec<char>)
    ensures
        r@ == decimal(n as nat),
    decreases n,
{
    let mut digits: Vec<char> = if n < 10 {
        Vec::new()
    } else {
        decimal_digits(n / 10)
    };
    digits.push((48u8 + (n % 10) as u8) as char);
    proof {
        assert(digits@ == decimal(n as nat));
    }
    digits
}

/// Appends characters to a string.
fn push_chars(out: &mut String, chars: &Vec<char>)
    ensures
        final(out)@ == old(out)@ + chars@,
{
    let n = chars.len();
    let mut i: usize = 0;
    while i < n
        invariant
            0 <= i <= n == chars@.len(),
            out@ == old(out)@ + chars@.take(i as int),
        decreases n - i,
    {
        out.push(chars[i]);
        i += 1;
        assert(out@ == old(out)@ + chars@.take(i as int));
    }
    assert(chars@.take(n as int) == chars@);
}

/// Appends `n` in decimal.
pub fn push_decimal(out: &mut String, n: u64)
    ensures
        final(out)@ == old(out)@ + decimal(n as nat),
{
    let digits = decimal_digits(n);
    push_chars(out, &digits);
}

/// Appends `i` in decimal, after a minus sign where it is negative.
pub fn push_signed_decimal(out: &mut String, i: i32)
    ensures
        final(out)@ == old(out)@ + signed_decimal(i as int),
{
    if i < 0 {
        out.push('-');
        push_decimal(out, (-(i as i64)) as u64);
        assert(out@ == old(out)@ + signed_decimal(i as int));
    } else {
        push_decimal(out, i as u64);
    }
}

/// Appends `n` in decimal with zeros in front up to `width` digits.
pub fn push_padded_decimal(out: &mut String, n: u64, width: usize)
    ensures
        final(out)@ == old(out)@ + zero_padded(decimal(n as nat), width as nat),
{
    let digits = decimal_digits(n);
    let mut count: usize = digits.len();
    let ghost start = count;
    while count < width
        invariant
            digits@.len() == start,
            start <= count,
            start <= width ==> count <= width,
            start > width ==> count == start,
            out@ == old(out)@ + Seq::new((count - start) as nat, |i: int| '0'),
        decreases width - count,
    {
        out.push('0');
        count += 1;
        assert(out@ == old(out)@ + Seq::new((count - start) as nat, |i: int| '0'));
    }
    push_chars(out, &digits);
    assert(out@ == old(out)@ + zero_padded(decimal(n as nat), width as nat));
}

/// The hexadecimal digit of `n` with capital letters.
pub(crate) fn to_upper_hex_digit(n: u8) -> (r: char)
    requires
        n < 16,
    ensures
        r == upper_hex_digit(n as nat),
{
    if n < 10 {
        (48u8 + n) as char
    } else {
        (65u8 + (n - 10)) as char
    }
}

/// The hexadecimal digit of `n` with small letters.
pub(crate) fn to_lower_hex_digit(n: u8) -> (r: char)
    requires
        n < 16,
    ensures
        r == lower_hex_digit(n as nat),
{
    if n < 10 {
        (48u8 + n) as char
    } else {
        (97u8 + (n - 10)) as char
    }
}

/// The characters are decimal digits.
pub open spec fn all_digits(s: Seq<char>) -> bool {
    forall|i: int| 0 <= i < s.len() ==> '0' <= #[trigger] s[i] <= '9'
}

/// The number that decimal digits spell.
pub open spec fn digits_value(s: Seq<char>) -> nat
    decreases s.len(),
{
    if s.len() == 0 {
        0
    } else {
        10 * digits_value(s.drop_last()) + (s.last() as u32 - '0' as u32) as nat
    }
}

/// The number that one hexadecimal digit spells.
pub open spec fn hex_value(c: char) -> int {
    if '0' <= c <= '9' {
        c as u32 - '0' as u32
    } else if 'A' <= c <= 'F' {
        c as u32 - 'A' as u32 + 10
    } else if 'a' <= c <= 'f' {
        c as u32 - 'a' as u32 + 10
    } else {
        -1
    }
}

/// Decimal digits read back as the number that was written, and have no zero
/// in front that could be left out.
pub proof fn law_decimal_reads_back(n: nat)
    ensures
        decimal(n).len() >= 1,
        all_digits(decimal(n)),
        digits_value(decimal(n)) == n,
        decimal(n).len() > 1 ==> decimal(n)[0] != '0',
    decreases n,
{
    if n < 10 {
        assert(decimal(n) =~= seq![digit(n)]);
        assert(decimal(n).drop_last() =~= Seq::<char>::empty());
        reveal_with_fuel(digits_value, 2);
    } else {
        law_decimal_reads_back(n / 10);
        let front = decimal(n / 10);
        assert(decimal(n) =~= front.push(digit(n % 10)));
        assert(decimal(n).drop_last() =~= front);
        if front.len() == 1 {
            assert(front.drop_last() =~= Seq::<char>::empty());
            reveal_with_fuel(digits_value, 2);
            assert(n / 10 >= 1);
        }
    }
}

/// Zeros in front do not change the number that digits spell.
proof fn lemma_zeros_value(count: nat, s: Seq<char>)
    ensures
        digits_value(Seq::new(count, |i: int| '0') + s) == digits_value(s),
    decreases count + s.len(),
{
    let zeros = Seq::new(count, |i: int| '0');
    let all = zeros + s;
    if s.len() > 0 {
        lemma_zeros_value(count, s.drop_last());
        assert(all.drop_last() =~= zeros + s.drop_last());
    } else if count > 0 {
        let fewer = Seq::new((count - 1) as nat, |i: int| '0');
        lemma_zeros_value((count - 1) as nat, s);
        assert(all.drop_last() =~= fewer + s);
    }
}

/// A padded number has at least the width, reads back as the number, and
/// stands as it is where it is wide enough.
pub proof fn law_padding(n: nat, width: nat)
    ensures
        all_digits(zero_padded(decimal(n), width)),
        digits_value(zero_padded(decimal(n), width)) == n,
        zero_padded(decimal(n), width).len() >= width,
        decimal(n).len() >= width ==> zero_padded(decimal(n), width) == decimal(n),
        decimal(n).len() < width ==> zero_padded(decimal(n), width).len() == width,
{
    law_decimal_reads_back(n);
    if decimal(n).len() < width {
        lemma_zeros_value((width - decimal(n).len()) as nat, decimal(n));
    }
}

/// A number of up to two digits is padded to two, one of up to three to three.
pub proof fn law_padded_width(n: nat)
    ensures
        n < 100 ==> zero_padded(decimal(n), 2).len() == 2,
        n < 1000 ==> zero_padded(decimal(n), 3).len() == 3,
{
    reveal_with_fuel(decimal, 4);
}

/// A number that is not negative is written as its digits alone, a negative
/// one as a minus sign and the digits of its magnitude.
pub proof fn law_signed_reads_back(i: int)
    ensures
        i >= 0 ==> {
            &&& all_digits(signed_decimal(i))
            &&& digits_value(signed_decimal(i)) == i
            &&& signed_decimal(i).len() >= 1
            &&& signed_decimal(i).len() > 1 ==> signed_decimal(i)[0] != '0'
        },
        i < 0 ==> {
            &&& signed_decimal(i).len() >= 2
            &&& signed_decimal(i)[0] == '-'
            &&& all_digits(signed_decimal(i).drop_first())
            &&& digits_value(signed_decimal(i).drop_first()) == -i
            &&& signed_decimal(i)[1] != '0'
        },
{
    if i >= 0 {
        law_decimal_reads_back(i as nat);
    } else {
        let n = (-i) as nat;
        law_decimal_reads_back(n);
        assert(signed_decimal(i).drop_first() =~= decimal(n));
        if decimal(n).len() == 1 {
            assert(decimal(n).drop_last() =~= Seq::<char>::empty());
            reveal_with_fuel(digits_value, 2);
        }
    }
}

/// Hexadecimal digits read back as the number that was written, in capitals
/// or in small letters.
pub proof fn law_hex_digits(n: nat)
    requires
        n < 16,
    ensures
        hex_value(upper_hex_digit(n)) == n,
        hex_value(lower_hex_digit(n)) == n,
        !('a' <= upper_hex_digit(n) <= 'f'),
        !('A' <= lower_hex_digit(n) <= 'F'),
{
}

/// Capitals change nothing but small ASCII letters, and small letters nothing
/// but ASCII capitals, each by the distance between the two alphabets.
pub proof fn law_ascii_case(s: Seq<char>, i: int)
    requires
        0 <= i < s.len(),
    ensures
        upper(s).len() == s.len(),
        lower(s).len() == s.len(),
        'a' <= s[i] <= 'z' ==> upper(s)[i] as u32 + 32 == s[i] as u32,
        !('a' <= s[i] <= 'z') ==> upper(s)[i] == s[i],
        'A' <= s[i] <= 'Z' ==> lower(s)[i] as u32 == s[i] as u32 + 32,
        !('A' <= s[i] <= 'Z') ==> lower(s)[i] == s[i],
{
}

/// A text begins with another exactly where it is that one and something more.
pub proof fn law_begins_with(prefix: Seq<char>, s: Seq<char>, rest: Seq<char>)
    ensures
        begins_with(prefix + rest, prefix),
        begins_with(s, prefix) ==> s == prefix + s.skip(prefix.len() as int),
{
    assert((prefix + rest).take(prefix.len() as int) =~= prefix);
    if begins_with(s, prefix) {
        assert(s =~= s.take(prefix.len() as int) + s.skip(prefix.len() as int));
    }
}

/// A text has a part exactly where the part stands between two texts that
/// make up the rest.
pub proof fn law_has_part(s: Seq<char>, part: Seq<char>, before: Seq<char>, after: Seq<char>)
    ensures
        has_part(before + part + after, part),
        has_part(s, part) ==> exists|at: int|
            0 <= at <= s.len() - part.len() && s == #[trigger] s.take(at) + part + s.skip(
                at + part.len(),
            ),
{
    let whole = before + part + after;
    assert(whole.subrange(before.len() as int, before.len() + part.len() as int) =~= part);
    assert(stands_at(whole, part, before.len() as int));
    if has_part(s, part) {
        let at = choose|at: int| stands_at(s, part, at);
        assert(s =~= s.take(at) + part + s.skip(at + part.len()));
    }
}

/// `t` is what is left of `s` from `a` up to `b`, with nothing but white space
/// before and behind it and none at its own ends.
pub open spec fn trims_to(s: Seq<char>, t: Seq<char>, a: int, b: int) -> bool {
    &&& 0 <= a <= b <= s.len()
    &&& t == s.subrange(a, b)
    &&& forall|i: int| 0 <= i < a ==> white_space(#[trigger] s[i])
    &&& forall|i: int| b <= i < s.len() ==> white_space(#[trigger] s[i])
    &&& t.len() > 0 ==> !white_space(t[0]) && !white_space(t[t.len() - 1])
}

proof fn lemma_start_cut(s: Seq<char>) -> (a: int)
    ensures
        0 <= a <= s.len(),
        trimmed_start(s) == s.skip(a),
        forall|i: int| 0 <= i < a ==> white_space(#[trigger] s[i]),
        a < s.len() ==> !white_space(s[a]),
    decreases s.len(),
{
    if s.len() > 0 && white_space(s.first()) {
        let rest = s.drop_first();
        let a = lemma_start_cut(rest);
        assert(rest.skip(a) =~= s.skip(a + 1));
        assert forall|i: int| 0 <= i < a + 1 implies white_space(#[trigger] s[i]) by {
            if i > 0 {
                assert(rest[i - 1] == s[i]);
            }
        }
        a + 1
    } else {
        assert(s.skip(0) =~= s);
        0
    }
}

proof fn lemma_end_cut(s: Seq<char>) -> (b: int)
    ensures
        0 <= b <= s.len(),
        trimmed_end(s) == s.take(b),
        forall|i: int| b <= i < s.len() ==> white_space(#[trigger] s[i]),
        b > 0 ==> !white_space(s[b - 1]),
    decreases s.len(),
{
    if s.len() > 0 && white_space(s.last()) {
        let rest = s.drop_last();
        let b = lemma_end_cut(rest);
        assert(rest.take(b) =~= s.take(b));
        assert forall|i: int| b <= i < s.len() implies white_space(#[trigger] s[i]) by {
            if i < s.len() - 1 {
                assert(rest[i] == s[i]);
            }
        }
        b
    } else {
        assert(s.take(s.len() as int) =~= s);
        s.len() as int
    }
}

/// Trimming takes away the white space at both ends, all of it, and nothing
/// else.
pub proof fn law_trimmed(s: Seq<char>)
    ensures
        exists|a: int, b: int| trims_to(s, trimmed(s), a, b),
        trimmed(s).len() > 0 <==> exists|i: int| 0 <= i < s.len() && !white_space(#[trigger] s[i]),
{
    let a = lemma_start_cut(s);
    let front = trimmed_start(s);
    let b = lemma_end_cut(front);
    let t = trimmed(s);
    assert(t =~= s.subrange(a, a + b));
    assert forall|i: int| a + b <= i < s.len() implies white_space(#[trigger] s[i]) by {
        assert(front[i - a] == s[i]);
    }
    assert(trims_to(s, t, a, a + b));
    if t.len() > 0 {
        assert(s[a] == t[0]);
    }
    if exists|i: int| 0 <= i < s.len() && !white_space(#[trigger] s[i]) {
        let i = choose|i: int| 0 <= i < s.len() && !white_space(#[trigger] s[i]);
        assert(a <= i < a + b);
    }
}

/// What has white space at neither end is trimmed to itself.
pub proof fn law_trimmed_core(s: Seq<char>, t: Seq<char>, a: int, b: int)
    requires
        trims_to(s, t, a, b),
    ensures
        trimmed(s) == t,
{
    law_trimmed(s);
    let (c, d) = choose|c: int, d: int| trims_to(s, trimmed(s), c, d);
    let u = trimmed(s);
    if t.len() > 0 {
        assert(t[0] == s[a]);
        assert(t[t.len() - 1] == s[b - 1]);
        assert(u.len() > 0);
        assert(u[0] == s[c]);
        assert(u[u.len() - 1] == s[d - 1]);
        assert(a == c && b == d);
    } else {
        if u.len() > 0 {
            assert(u[0] == s[c]);
        }
        assert(u =~= t);
    }
}

} // verus!
