//! Text helpers on strings seen as sequences of characters.

use vstd::prelude::*;
use vstd::utf8::is_ascii_chars;

verus! {

broadcast use vstd::string::group_string_axioms;

/// `String::push` appends one character.
pub assume_specification[ String::push ](s: &mut String, c: char)
    ensures
        final(s)@ == old(s)@.push(c),
;

/// The characters of an optional string.
pub open spec fn opt_view(o: Option<String>) -> Option<Seq<char>> {
    match o {
        Some(s) => Some(s@),
        None => None,
    }
}

/// The characters of every string of a vector.
pub open spec fn views(v: Seq<String>) -> Seq<Seq<char>> {
    v.map_values(|s: String| s@)
}

/// The characters of `s`, one by one.
pub fn chars_of(s: &str) -> (r: Vec<char>)
    ensures
        r@ == s@,
{
    let mut out: Vec<char> = Vec::new();
    for c in it: s.chars()
        invariant
            out@ == s@.take(it.index() as int),
            it.seq() == s@,
    {
        out.push(c);
        assert(out@ =~= s@.take(it.index() as int + 1));
    }
    assert(s@.take(s@.len() as int) =~= s@);
    out
}

/// The string made of the characters `from..to` of `cs`.
pub fn string_of(cs: &Vec<char>, from: usize, to: usize) -> (r: String)
    requires
        from <= to <= cs@.len(),
    ensures
        r@ == cs@.subrange(from as int, to as int),
{
    let mut out: String = String::new();
    let mut i: usize = from;
    while i < to
        invariant
            from <= i <= to <= cs@.len(),
            out@ == cs@.subrange(from as int, i as int),
        decreases to - i,
    {
        out.push(cs[i]);
        i += 1;
        assert(out@ =~= cs@.subrange(from as int, i as int));
    }
    out
}

/// Whether two string slices hold the same characters.
pub fn str_eq(a: &str, b: &str) -> (r: bool)
    ensures
        r == (a@ == b@),
{
    a.to_owned() == b.to_owned()
}

/// Number of bytes that UTF-8 spends on `c`.
pub open spec fn char_width(c: char) -> nat {
    if (c as u32) < 0x80 {
        1
    } else if (c as u32) < 0x800 {
        2
    } else if (c as u32) < 0x10000 {
        3
    } else {
        4
    }
}

/// Number of bytes that UTF-8 spends on the text `s`.
pub open spec fn utf8_len(s: Seq<char>) -> nat
    decreases s.len(),
{
    if s.len() == 0 {
        0
    } else {
        utf8_len(s.drop_last()) + char_width(s.last())
    }
}

/// The longest prefix of `s` that fits in `max` bytes of UTF-8: it ends on a
/// character boundary and no longer prefix fits.
pub open spec fn is_byte_prefix(r: Seq<char>, s: Seq<char>, max: nat) -> bool {
    &&& r.len() <= s.len()
    &&& r == s.take(r.len() as int)
    &&& utf8_len(r) <= max
    &&& r.len() < s.len() ==> utf8_len(s.take(r.len() as int + 1)) > max
}

/// The UTF-8 length of a prefix never exceeds that of a longer one.
pub proof fn utf8_len_monotone(s: Seq<char>, i: int, j: int)
    requires
        0 <= i <= j <= s.len(),
    ensures
        utf8_len(s.take(i)) <= utf8_len(s.take(j)),
    decreases j - i,
{
    if i < j {
        utf8_len_monotone(s, i, j - 1);
        assert(s.take(j).drop_last() =~= s.take(j - 1));
    }
}

/// A text has exactly one longest prefix that fits in `max` bytes.
pub proof fn byte_prefix_unique(a: Seq<char>, b: Seq<char>, s: Seq<char>, max: nat)
    requires
        is_byte_prefix(a, s, max),
        is_byte_prefix(b, s, max),
    ensures
        a == b,
{
    if a.len() < b.len() {
        utf8_len_monotone(s, a.len() as int + 1, b.len() as int);
    }
    if b.len() < a.len() {
        utf8_len_monotone(s, b.len() as int + 1, a.len() as int);
    }
}

/// The longest prefix of `s` that fits in `max` bytes of UTF-8.
pub open spec fn byte_prefix(s: Seq<char>, max: nat) -> Seq<char> {
    choose|r: Seq<char>| is_byte_prefix(r, s, max)
}

/// A text that fits in `max` bytes is its own longest fitting prefix.
pub proof fn byte_prefix_whole(s: Seq<char>, max: nat)
    requires
        utf8_len(s) <= max,
    ensures
        byte_prefix(s, max) == s,
{
    assert(s.take(s.len() as int) =~= s);
    assert(is_byte_prefix(s, s, max));
    byte_prefix_unique(byte_prefix(s, max), s, s, max);
}

/// Every text has a longest prefix that fits in `max` bytes.
pub proof fn byte_prefix_exists(s: Seq<char>, max: nat)
    ensures
        is_byte_prefix(byte_prefix(s, max), s, max),
{
    assert(s.take(0) =~= Seq::<char>::empty());
    byte_prefix_from(s, max, 0);
}

proof fn byte_prefix_from(s: Seq<char>, max: nat, i: int)
    requires
        0 <= i <= s.len(),
        utf8_len(s.take(i)) <= max,
    ensures
        is_byte_prefix(byte_prefix(s, max), s, max),
    decreases s.len() - i,
{
    if i < s.len() && utf8_len(s.take(i + 1)) <= max {
        byte_prefix_from(s, max, i + 1);
    } else {
        assert(is_byte_prefix(s.take(i), s, max));
    }
}

/// The UTF-8 lengths of two texts add up.
pub proof fn utf8_len_concat(a: Seq<char>, b: Seq<char>)
    ensures
        utf8_len(a + b) == utf8_len(a) + utf8_len(b),
    decreases b.len(),
{
    if b.len() == 0 {
        assert(a + b =~= a);
    } else {
        assert((a + b).drop_last() =~= a + b.drop_last());
        utf8_len_concat(a, b.drop_last());
    }
}

/// Cuts `s` to the longest prefix that fits in `max` bytes of UTF-8.
pub fn truncate_bytes(s: &str, max: usize) -> (r: String)
    ensures
        is_byte_prefix(r@, s@, max as nat),
        r@ == byte_prefix(s@, max as nat),
{
    let cs: Vec<char> = chars_of(s);
    let mut out: String = String::new();
    let mut used: usize = 0;
    let mut i: usize = 0;
    assert(s@.take(0) =~= Seq::<char>::empty());
    while i < cs.len()
        invariant
            cs@ == s@,
            i <= cs@.len(),
            out@ == s@.take(i as int),
            used == utf8_len(out@),
            used <= max,
        decreases cs@.len() - i,
    {
        let code: u32 = cs[i] as u32;
        let width: usize = if code < 0x80 {
            1
        } else if code < 0x800 {
            2
        } else if code < 0x10000 {
            3
        } else {
            4
        };
        proof {
            assert(s@.take(i as int + 1).drop_last() =~= s@.take(i as int));
            assert(utf8_len(s@.take(i as int + 1)) == used + width);
        }
        if max - used < width {
            assert(is_byte_prefix(out@, s@, max as nat));
            proof {
                byte_prefix_unique(out@, byte_prefix(s@, max as nat), s@, max as nat);
            }
            return out;
        }
        out.push(cs[i]);
        used += width;
        i += 1;
        assert(out@ =~= s@.take(i as int));
    }
    assert(s@.take(s@.len() as int) =~= s@);
    assert(is_byte_prefix(out@, s@, max as nat));
    proof {
        byte_prefix_unique(out@, byte_prefix(s@, max as nat), s@, max as nat);
    }
    out
}

/// Whether a character has Unicode's `White_Space` property.
pub open spec fn is_white_space(c: char) -> bool {
    let u = c as u32;
    ||| 0x09 <= u <= 0x0D
    ||| u == 0x20
    ||| u == 0x85
    ||| u == 0xA0
    ||| u == 0x1680
    ||| 0x2000 <= u <= 0x200A
    ||| u == 0x2028
    ||| u == 0x2029
    ||| u == 0x202F
    ||| u == 0x205F
    ||| u == 0x3000
}

/// Whether `c` has Unicode's `White_Space` property.
pub fn char_is_white_space(c: char) -> (r: bool)
    ensures
        r == is_white_space(c),
{
    let u: u32 = c as u32;
    (0x09 <= u && u <= 0x0D) || u == 0x20 || u == 0x85 || u == 0xA0 || u == 0x1680 || (0x2000 <= u
        && u <= 0x200A) || u == 0x2028 || u == 0x2029 || u == 0x202F || u == 0x205F || u == 0x3000
}

/// `s` without the white space at its front.
pub open spec fn trim_start(s: Seq<char>) -> Seq<char>
    decreases s.len(),
{
    if s.len() > 0 && is_white_space(s[0]) {
        trim_start(s.drop_first())
    } else {
        s
    }
}

/// `s` without the white space at its end.
pub open spec fn trim_end(s: Seq<char>) -> Seq<char>
    decreases s.len(),
{
    if s.len() > 0 && is_white_space(s.last()) {
        trim_end(s.drop_last())
    } else {
        s
    }
}

/// `s` without the white space at both ends.
pub open spec fn trimmed(s: Seq<char>) -> Seq<char> {
    trim_end(trim_start(s))
}

/// Cuts the white space off both ends of `s`.
pub fn trim(s: &str) -> (r: String)
    ensures
        r@ == trimmed(s@),
{
    let cs: Vec<char> = chars_of(s);
    let mut a: usize = 0;
    assert(s@.skip(0) =~= s@);
    while a < cs.len() && char_is_white_space(cs[a])
        invariant
            cs@ == s@,
            a <= cs@.len(),
            trim_start(s@) == trim_start(s@.skip(a as int)),
        decreases cs@.len() - a,
    {
        assert(s@.skip(a as int).drop_first() =~= s@.skip(a as int + 1));
        a += 1;
    }
    let mut b: usize = cs.len();
    let ghost front = s@.skip(a as int);
    assert(front =~= s@.subrange(a as int, b as int));
    while b > a && char_is_white_space(cs[b - 1])
        invariant
            cs@ == s@,
            a <= b <= cs@.len(),
            trim_end(front) == trim_end(s@.subrange(a as int, b as int)),
        decreases b,
    {
        assert(s@.subrange(a as int, b as int).drop_last() =~= s@.subrange(a as int, b as int - 1));
        b -= 1;
    }
    string_of(&cs, a, b)
}

/// The decimal digit of value `d`.
pub open spec fn digit(d: nat) -> char {
    (48 + d) as char
}

/// The decimal notation of `n`, without leading zeros.
pub open spec fn decimal(n: nat) -> Seq<char>
    decreases n,
{
    if n < 10 {
        seq![digit(n)]
    } else {
        decimal(n / 10).push(digit(n % 10))
    }
}

/// The digit character of `d`.
pub fn digit_char(d: u64) -> (r: char)
    requires
        d < 10,
    ensures
        r == digit(d as nat),
{
    let b: u8 = 48 + d as u8;
    b as char
}

/// Appends the decimal notation of `n` to `out`.
pub fn push_decimal(out: &mut String, n: u128)
    ensures
        final(out)@ == old(out)@ + decimal(n as nat),
    decreases n,
{
    if n >= 10 {
        push_decimal(out, n / 10);
    }
    let c: char = digit_char((n % 10) as u64);
    out.push(c);
    assert(out@ =~= old(out)@ + decimal(n as nat));
}

/// The decimal notation of `n`.
pub fn decimal_string(n: u64) -> (r: String)
    ensures
        r@ == decimal(n as nat),
{
    let mut out: String = String::new();
    push_decimal(&mut out, n as u128);
    assert(out@ =~= decimal(n as nat));
    out
}

/// Whether `c` is an ASCII digit.
pub open spec fn is_digit(c: char) -> bool {
    48 <= c as u32 <= 57
}

/// The value of a sequence of ASCII digits.
pub open spec fn digits_value(s: Seq<char>) -> nat
    decreases s.len(),
{
    if s.len() == 0 {
        0
    } else {
        digits_value(s.drop_last()) * 10 + (s.last() as u32 - 48) as nat
    }
}

/// Whether `s` is one or more ASCII digits.
pub open spec fn all_digits(s: Seq<char>) -> bool {
    s.len() > 0 && forall|i: int| 0 <= i < s.len() ==> is_digit(#[trigger] s[i])
}

/// `s` without one leading plus sign.
pub open spec fn without_plus(s: Seq<char>) -> Seq<char> {
    if s.len() > 0 && s[0] == '+' {
        s.drop_first()
    } else {
        s
    }
}

/// The number that `s` denotes when it is a plus sign at most and then one or
/// more ASCII digits whose value is at most `max`.
pub open spec fn unsigned_value(s: Seq<char>, max: nat) -> Option<nat> {
    let d = without_plus(s);
    if all_digits(d) && digits_value(d) <= max {
        Some(digits_value(d))
    } else {
        None
    }
}

/// Appending digits never makes the value smaller.
pub proof fn digits_value_monotone(s: Seq<char>, i: int, j: int)
    requires
        0 <= i <= j <= s.len(),
    ensures
        digits_value(s.take(i)) <= digits_value(s.take(j)),
    decreases j - i,
{
    if i < j {
        digits_value_monotone(s, i, j - 1);
        assert(s.take(j).drop_last() =~= s.take(j - 1));
    }
}

proof fn digits_value_step(d: Seq<char>, k: int)
    requires
        0 <= k < d.len(),
    ensures
        digits_value(d.take(k + 1)) == digits_value(d.take(k)) * 10 + (d[k] as u32 - 48) as nat,
        digits_value(d.take(k + 1)) <= digits_value(d),
{
    assert(d.take(k + 1).drop_last() =~= d.take(k));
    digits_value_monotone(d, k + 1, d.len() as int);
    assert(d.take(d.len() as int) =~= d);
}

/// Reads an unsigned decimal number that is at most `max`.
pub fn parse_unsigned(s: &str, max: u64) -> (r: Option<u64>)
    ensures
        match r {
            Some(n) => unsigned_value(s@, max as nat) == Some(n as nat),
            None => unsigned_value(s@, max as nat) is None,
        },
{
    let cs: Vec<char> = chars_of(s);
    let start: usize = if cs.len() > 0 && cs[0] == '+' {
        1
    } else {
        0
    };
    let ghost d = without_plus(s@);
    assert(d =~= s@.skip(start as int));
    if start == cs.len() {
        return None;
    }
    let mut i: usize = start;
    let mut n: u64 = 0;
    assert(d.take(0) =~= Seq::<char>::empty());
    while i < cs.len()
        invariant
            start <= i <= cs@.len(),
            d.len() == cs@.len() - start,
            forall|k: int| 0 <= k < d.len() ==> #[trigger] d[k] == cs@[start + k],
            d == without_plus(s@),
            forall|k: int| 0 <= k < i - start ==> is_digit(#[trigger] d[k]),
            n == digits_value(d.take(i - start)),
            n <= max,
        decreases cs@.len() - i,
    {
        let u: u32 = cs[i] as u32;
        if u < 48 || u > 57 {
            assert(!is_digit(d[i - start]));
            return None;
        }
        let v: u64 = (u - 48) as u64;
        proof {
            digits_value_step(d, i - start);
        }
        let next: u128 = n as u128 * 10 + v as u128;
        if next > max as u128 {
            return None;
        }
        n = next as u64;
        i += 1;
    }
    assert(d.take(d.len() as int) =~= d);
    Some(n)
}

/// The first position at which `pat` occurs in `s`, from `from` on.
pub open spec fn find_from(s: Seq<char>, pat: Seq<char>, from: int) -> Option<int>
    decreases s.len() - from + 1,
{
    if from < 0 || from + pat.len() > s.len() {
        None
    } else if s.subrange(from, from + pat.len()) == pat {
        Some(from)
    } else {
        find_from(s, pat, from + 1)
    }
}

/// The first position at which `pat` occurs in `s`.
pub open spec fn find(s: Seq<char>, pat: Seq<char>) -> Option<int> {
    find_from(s, pat, 0)
}

/// Whether `pat` occurs in `s`.
pub open spec fn contains_text(s: Seq<char>, pat: Seq<char>) -> bool {
    exists|i: int|
        0 <= i && i + pat.len() <= s.len() && #[trigger] s.subrange(i, i + pat.len()) == pat
}

/// What `find_from` finds is the first occurrence, and it finds one when
/// there is one.
pub proof fn find_from_first(s: Seq<char>, pat: Seq<char>, from: int)
    requires
        0 <= from,
    ensures
        match find_from(s, pat, from) {
            Some(k) => from <= k && k + pat.len() <= s.len() && s.subrange(k, k + pat.len()) == pat
                && forall|i: int|
                from <= i < k ==> #[trigger] s.subrange(i, i + pat.len()) != pat,
            None => forall|i: int|
                from <= i && i + pat.len() <= s.len() ==> #[trigger] s.subrange(i, i + pat.len())
                    != pat,
        },
    decreases s.len() - from + 1,
{
    if from + pat.len() > s.len() {
    } else if s.subrange(from, from + pat.len()) == pat {
    } else {
        find_from_first(s, pat, from + 1);
    }
}

/// Whether `pat` stands in `cs` at position `at`.
pub fn matches_at(cs: &Vec<char>, pat: &Vec<char>, at: usize) -> (r: bool)
    requires
        at + pat@.len() <= cs@.len(),
    ensures
        r == (cs@.subrange(at as int, at + pat@.len()) == pat@),
{
    let n: usize = cs.len();
    let mut j: usize = 0;
    while j < pat.len()
        invariant
            n == cs@.len(),
            at + pat@.len() <= cs@.len(),
            j <= pat@.len(),
            forall|k: int| 0 <= k < j ==> cs@[at + k] == #[trigger] pat@[k],
        decreases pat@.len() - j,
    {
        if cs[at + j] != pat[j] {
            assert(cs@.subrange(at as int, at + pat@.len())[j as int] != pat@[j as int]);
            return false;
        }
        j += 1;
    }
    assert(cs@.subrange(at as int, at + pat@.len()) =~= pat@);
    true
}

/// The first position at which `pat` occurs in `cs`, from `from` on.
pub fn find_chars(cs: &Vec<char>, pat: &Vec<char>, from: usize) -> (r: Option<usize>)
    ensures
        match r {
            Some(k) => find_from(cs@, pat@, from as int) == Some(k as int) && k + pat@.len()
                <= cs@.len(),
            None => find_from(cs@, pat@, from as int) is None,
        },
{
    let mut i: usize = from;
    while i <= cs.len() && pat.len() <= cs.len() - i
        invariant
            from <= i,
            find_from(cs@, pat@, from as int) == find_from(cs@, pat@, i as int),
        decreases cs@.len() + 1 - i,
    {
        if matches_at(cs, pat, i) {
            return Some(i);
        }
        assert(i < cs@.len()) by {
            if pat@.len() == 0 {
                assert(cs@.subrange(i as int, i as int) =~= pat@);
            }
        }
        i += 1;
    }
    None
}

/// The parts one after the other, with `sep` between them.
pub open spec fn joined(parts: Seq<Seq<char>>, sep: Seq<char>) -> Seq<char>
    decreases parts.len(),
{
    if parts.len() == 0 {
        Seq::empty()
    } else if parts.len() == 1 {
        parts[0]
    } else {
        joined(parts.drop_last(), sep) + sep + parts.last()
    }
}

/// Joins `parts` with `sep` between them.
pub fn join(parts: &Vec<String>, sep: &str) -> (r: String)
    ensures
        r@ == joined(views(parts@), sep@),
{
    let mut out: String = String::new();
    let mut i: usize = 0;
    assert(views(parts@).take(0) =~= Seq::<Seq<char>>::empty());
    while i < parts.len()
        invariant
            i <= parts@.len(),
            out@ == joined(views(parts@).take(i as int), sep@),
        decreases parts@.len() - i,
    {
        let ghost before = views(parts@).take(i as int);
        let ghost after = views(parts@).take(i as int + 1);
        assert(after.drop_last() =~= before);
        if i > 0 {
            out.append(sep);
        }
        out.append(parts[i].as_str());
        proof {
            assert(after.last() == parts@[i as int]@);
            if i == 0 {
                assert(out@ =~= after[0]);
            }
        }
        i += 1;
    }
    assert(views(parts@).take(parts@.len() as int) =~= views(parts@));
    out
}

/// `c` with an ASCII capital made small.
pub open spec fn lower_ascii_char(c: char) -> char {
    if 'A' <= c && c <= 'Z' {
        ((c as u8 + 32) as u8) as char
    } else {
        c
    }
}

/// `s` with its ASCII capitals made small.
pub open spec fn lower_ascii(s: Seq<char>) -> Seq<char> {
    s.map_values(|c: char| lower_ascii_char(c))
}

/// Makes the ASCII capitals of `s` small.
pub fn to_lower_ascii(s: &str) -> (r: String)
    ensures
        r@ == lower_ascii(s@),
{
    let cs: Vec<char> = chars_of(s);
    let mut out: String = String::new();
    let mut i: usize = 0;
    while i < cs.len()
        invariant
            cs@ == s@,
            i <= cs@.len(),
            out@ =~= lower_ascii(s@.take(i as int)),
        decreases cs@.len() - i,
    {
        let c: char = cs[i];
        let low: char = if 'A' <= c && c <= 'Z' {
            (c as u8 + 32) as char
        } else {
            c
        };
        out.push(low);
        i += 1;
        assert(out@ =~= lower_ascii(s@.take(i as int)));
    }
    assert(s@.take(s@.len() as int) =~= s@);
    out
}

/// Decimal notation consists of digits and denotes the number.
pub proof fn decimal_value(n: nat)
    ensures
        all_digits(decimal(n)),
        digits_value(decimal(n)) == n,
    decreases n,
{
    if n < 10 {
        assert(decimal(n).drop_last() =~= Seq::<char>::empty());
        reveal_with_fuel(digits_value, 2);
    } else {
        decimal_value(n / 10);
        let front = decimal(n / 10);
        assert(decimal(n).drop_last() =~= front);
        assert forall|i: int| 0 <= i < decimal(n).len() implies is_digit(#[trigger] decimal(n)[i]) by {
            if i < front.len() {
                assert(decimal(n)[i] == front[i]);
            }
        }
    }
}

/// A text in quotation marks, as Rust's debug format writes it.
pub uninterp spec fn quoted(s: Seq<char>) -> Seq<char>;

/// Whether debug format leaves every character of a text as it is.
pub open spec fn is_plain(s: Seq<char>) -> bool {
    forall|i: int|
        0 <= i < s.len() ==> {
            let c = #[trigger] s[i];
            ' ' <= c && c <= '~' && c != '"' && c != '\\'
        }
}

/// Calls the `Debug` impl of `str`: the text in quotation marks, with escapes
/// where it needs them; a function of the text alone. Printable ASCII other
/// than the quotation mark and the backslash is never escaped.
#[verifier::external_body]
pub(crate) fn quote(s: &str) -> (r: String)
    ensures
        r@ == quoted(s@),
        is_plain(s@) ==> r@ == seq!['"'] + s@ + seq!['"'],
{
    format!("{:?}", s)
}

/// Whether `s` begins with `p`.
pub open spec fn has_prefix(s: Seq<char>, p: Seq<char>) -> bool {
    s.len() >= p.len() && s.take(p.len() as int) == p
}

/// What follows the prefix `p` in `s`.
pub open spec fn after_prefix(s: Seq<char>, p: Seq<char>) -> Option<Seq<char>> {
    if has_prefix(s, p) {
        Some(s.skip(p.len() as int))
    } else {
        None
    }
}

/// Whether `s` ends with `p`.
pub open spec fn has_suffix(s: Seq<char>, p: Seq<char>) -> bool {
    s.len() >= p.len() && s.skip(s.len() - p.len()) == p
}

/// What follows the prefix `p` in `s`.
pub fn strip_prefix(s: &str, p: &str) -> (r: Option<String>)
    ensures
        opt_view(r) == after_prefix(s@, p@),
{
    let cs: Vec<char> = chars_of(s);
    let ps: Vec<char> = chars_of(p);
    if cs.len() >= ps.len() && matches_at(&cs, &ps, 0) {
        assert(cs@.subrange(0, ps@.len() as int) =~= s@.take(p@.len() as int));
        let rest: String = string_of(&cs, ps.len(), cs.len());
        assert(rest@ =~= s@.skip(p@.len() as int));
        Some(rest)
    } else {
        if cs.len() >= ps.len() {
            assert(cs@.subrange(0, ps@.len() as int) =~= s@.take(p@.len() as int));
        }
        None
    }
}

/// Whether `s` begins with `p`.
pub fn starts_with(s: &str, p: &str) -> (r: bool)
    ensures
        r == has_prefix(s@, p@),
{
    strip_prefix(s, p).is_some()
}

/// Whether `s` ends with `p`.
pub fn ends_with(s: &str, p: &str) -> (r: bool)
    ensures
        r == has_suffix(s@, p@),
{
    let cs: Vec<char> = chars_of(s);
    let ps: Vec<char> = chars_of(p);
    if cs.len() >= ps.len() {
        let at: usize = cs.len() - ps.len();
        assert(cs@.subrange(at as int, at + ps@.len()) =~= s@.skip(s@.len() - p@.len()));
        matches_at(&cs, &ps, at)
    } else {
        false
    }
}

/// Whether `s` is one of the strings of `v`.
pub fn contains_string(v: &Vec<String>, s: &str) -> (r: bool)
    ensures
        r == views(v@).contains(s@),
{
    let mut i: usize = 0;
    while i < v.len()
        invariant
            i <= v@.len(),
            forall|k: int| 0 <= k < i ==> #[trigger] views(v@)[k] != s@,
        decreases v@.len() - i,
    {
        if str_eq(v[i].as_str(), s) {
            assert(views(v@)[i as int] == s@);
            return true;
        }
        i += 1;
    }
    false
}

/// A copy of a list of texts.
pub fn clone_strings(v: &Vec<String>) -> (r: Vec<String>)
    ensures
        views(r@) == views(v@),
{
    let mut out: Vec<String> = Vec::new();
    let mut i: usize = 0;
    while i < v.len()
        invariant
            i <= v@.len(),
            views(out@) =~= views(v@).take(i as int),
        decreases v@.len() - i,
    {
        let ghost before = views(out@);
        out.push(v[i].clone());
        assert(views(out@) =~= before.push(v@[i as int]@));
        i += 1;
    }
    assert(views(out@) =~= views(v@));
    out
}

/// A copy of `v` with `s` at its end.
pub fn with_string(v: &Vec<String>, s: &str) -> (r: Vec<String>)
    ensures
        views(r@) == views(v@).push(s@),
{
    let mut out: Vec<String> = Vec::new();
    let mut i: usize = 0;
    while i < v.len()
        invariant
            i <= v@.len(),
            views(out@) =~= views(v@).take(i as int),
        decreases v@.len() - i,
    {
        out.push(v[i].clone());
        assert(views(v@).take(i as int + 1) =~= views(v@).take(i as int).push(v@[i as int]@));
        i += 1;
    }
    assert(views(out@) =~= views(v@));
    out.push(s.to_owned());
    assert(views(out@) =~= views(v@).push(s@));
    out
}

/// The parts of `s` between the separators `sep`.
pub open spec fn split_on(s: Seq<char>, sep: char) -> Seq<Seq<char>>
    decreases s.len(),
{
    if s.len() == 0 {
        seq![s]
    } else {
        let front = split_on(s.drop_last(), sep);
        if s.last() == sep {
            front.push(Seq::empty())
        } else {
            front.update(front.len() - 1, front.last().push(s.last()))
        }
    }
}

/// The parts of `s` between the separators `sep`.
pub fn split(s: &str, sep: char) -> (r: Vec<String>)
    ensures
        views(r@) == split_on(s@, sep),
        r@.len() > 0,
{
    let cs: Vec<char> = chars_of(s);
    let mut done: Vec<String> = Vec::new();
    let mut current: String = String::new();
    let mut i: usize = 0;
    assert(s@.take(0) =~= Seq::<char>::empty());
    assert(views(done@).push(current@) =~= split_on(s@.take(0), sep));
    while i < cs.len()
        invariant
            cs@ == s@,
            i <= cs@.len(),
            views(done@).push(current@) == split_on(s@.take(i as int), sep),
        decreases cs@.len() - i,
    {
        let c: char = cs[i];
        let ghost before = split_on(s@.take(i as int), sep);
        proof {
            assert(s@.take(i as int + 1).drop_last() =~= s@.take(i as int));
            assert(s@.take(i as int + 1).last() == c);
        }
        if c == sep {
            done.push(current);
            current = String::new();
            assert(views(done@) =~= before);
            assert(views(done@).push(current@) =~= before.push(Seq::empty()));
        } else {
            current.push(c);
            assert(views(done@).push(current@) =~= before.update(
                before.len() - 1,
                before.last().push(c),
            ));
        }
        i += 1;
    }
    assert(s@.take(s@.len() as int) =~= s@);
    let ghost last = current@;
    let ghost front = views(done@);
    done.push(current);
    assert(views(done@) =~= front.push(last));
    done
}

/// The position of the first `c` in `s`, from `from` on.
pub open spec fn index_from(s: Seq<char>, c: char, from: int) -> Option<int>
    decreases s.len() - from,
{
    if from < 0 || from >= s.len() {
        None
    } else if s[from] == c {
        Some(from)
    } else {
        index_from(s, c, from + 1)
    }
}

/// The position of the first `c` in `cs`, from `from` on.
pub fn index_of(cs: &Vec<char>, c: char, from: usize) -> (r: Option<usize>)
    ensures
        match r {
            Some(k) => index_from(cs@, c, from as int) == Some(k as int) && from <= k < cs@.len()
                && cs@[k as int] == c,
            None => index_from(cs@, c, from as int) is None,
        },
{
    let mut i: usize = from;
    while i < cs.len()
        invariant
            from <= i,
            index_from(cs@, c, from as int) == index_from(cs@, c, i as int),
        decreases cs@.len() - i,
    {
        if cs[i] == c {
            return Some(i);
        }
        i += 1;
    }
    None
}

/// What `index_from` finds is the first occurrence.
pub proof fn index_from_first(s: Seq<char>, c: char, from: int)
    requires
        0 <= from,
    ensures
        match index_from(s, c, from) {
            Some(k) => from <= k < s.len() && s[k] == c && forall|i: int|
                from <= i < k ==> #[trigger] s[i] != c,
            None => forall|i: int| from <= i < s.len() ==> #[trigger] s[i] != c,
        },
    decreases s.len() - from,
{
    if from < s.len() && s[from] != c {
        index_from_first(s, c, from + 1);
    }
}

/// A text in capital letters, as Unicode defines them.
pub uninterp spec fn upper_case(s: Seq<char>) -> Seq<char>;

/// The ASCII capital letter of a character; any other character as it is.
pub open spec fn upper_ascii_char(c: char) -> char {
    if 'a' <= c && c <= 'z' {
        (c as u32 - 32) as char
    } else {
        c
    }
}

/// A text with its ASCII letters made capital.
pub open spec fn upper_ascii(s: Seq<char>) -> Seq<char> {
    s.map_values(|c: char| upper_ascii_char(c))
}

/// Calls `str::to_uppercase`: the text in capital letters, a function of the
/// text alone. Of an ASCII text exactly the letters `a` to `z` change.
#[verifier::external_body]
pub(crate) fn to_upper(s: &str) -> (r: String)
    ensures
        r@ == upper_case(s@),
        is_ascii_chars(s@) ==> r@ == upper_ascii(s@),
{
    s.to_uppercase()
}

// ── Laws ────────────────────────────────────────────────────────────────────

proof fn trim_start_skips(blank: Seq<char>, rest: Seq<char>)
    requires
        forall|i: int| 0 <= i < blank.len() ==> is_white_space(#[trigger] blank[i]),
        rest.len() == 0 || !is_white_space(rest[0]),
    ensures
        trim_start(blank + rest) == rest,
    decreases blank.len(),
{
    if blank.len() > 0 {
        let whole = blank + rest;
        assert(whole[0] == blank[0]);
        let fewer = blank.drop_first();
        assert forall|i: int| 0 <= i < fewer.len() implies is_white_space(#[trigger] fewer[i]) by {
            assert(fewer[i] == blank[i + 1]);
        }
        assert(whole.drop_first() =~= fewer + rest);
        trim_start_skips(fewer, rest);
    } else {
        assert(blank + rest =~= rest);
    }
}

proof fn trim_end_skips(rest: Seq<char>, blank: Seq<char>)
    requires
        forall|i: int| 0 <= i < blank.len() ==> is_white_space(#[trigger] blank[i]),
        rest.len() == 0 || !is_white_space(rest.last()),
    ensures
        trim_end(rest + blank) == rest,
    decreases blank.len(),
{
    if blank.len() > 0 {
        let whole = rest + blank;
        assert(whole.last() == blank[blank.len() - 1]);
        let fewer = blank.drop_last();
        assert forall|i: int| 0 <= i < fewer.len() implies is_white_space(#[trigger] fewer[i]) by {
            assert(fewer[i] == blank[i]);
        }
        assert(whole.drop_last() =~= rest + fewer);
        trim_end_skips(rest, fewer);
    } else {
        assert(rest + blank =~= rest);
    }
}

/// Trimming takes away the white space at both ends, all of it and nothing else.
pub proof fn trimming_leaves_the_core(front: Seq<char>, core: Seq<char>, back: Seq<char>)
    requires
        forall|i: int| 0 <= i < front.len() ==> is_white_space(#[trigger] front[i]),
        forall|i: int| 0 <= i < back.len() ==> is_white_space(#[trigger] back[i]),
        core.len() > 0,
        !is_white_space(core[0]),
        !is_white_space(core.last()),
    ensures
        trimmed(front + core + back) == core,
        trimmed(front) == Seq::<char>::empty(),
{
    assert(front + core + back =~= front + (core + back));
    assert((core + back)[0] == core[0]);
    trim_start_skips(front, core + back);
    trim_end_skips(core, back);
    trim_start_skips(front, Seq::empty());
    assert(front + Seq::<char>::empty() =~= front);
}

/// The blank, the tab, the line feed and the carriage return are white space;
/// letters, digits and the visible ASCII characters are not.
pub proof fn what_white_space_is(c: char)
    ensures
        c == ' ' || c == '\t' || c == '\n' || c == '\r' ==> is_white_space(c),
        '!' <= c <= '~' ==> !is_white_space(c),
{
}

/// A number in decimal notation is read back, with and without a plus sign, as
/// long as it is not larger than allowed.
pub proof fn decimal_is_read_back(n: nat, max: nat)
    ensures
        unsigned_value(decimal(n), max) == if n <= max {
            Some(n)
        } else {
            None
        },
        unsigned_value(seq!['+'] + decimal(n), max) == if n <= max {
            Some(n)
        } else {
            None
        },
        trimmed(decimal(n)) == decimal(n),
{
    decimal_value(n);
    let d = decimal(n);
    assert(is_digit(d[0]));
    assert(is_digit(d[d.len() - 1]));
    assert(without_plus(d) == d);
    assert((seq!['+'] + d).drop_first() =~= d);
    let none = Seq::<char>::empty();
    trimming_leaves_the_core(none, d, none);
    assert(none + d + none =~= d);
}

/// A text that is not made of digits, after one plus sign at most, is no number.
pub proof fn other_texts_are_no_numbers(s: Seq<char>, i: int, max: nat)
    requires
        s.len() == 0 || (0 <= i < s.len() && !('0' <= s[i] <= '9') && (i > 0 || s[i] != '+')),
    ensures
        unsigned_value(s, max) is None,
{
    if s.len() > 0 {
        let d = without_plus(s);
        if s[0] == '+' {
            assert(d[i - 1] == s[i]);
            digit_characters(d[i - 1]);
            assert(!is_digit(d[i - 1]));
        } else {
            digit_characters(d[i]);
            assert(!is_digit(d[i]));
        }
    }
}

/// The digits are the characters from `0` to `9`.
pub proof fn digit_characters(c: char)
    ensures
        is_digit(c) <==> '0' <= c <= '9',
        c as u32 == c as int,
{
}

/// One part more is appended behind a separator.
pub proof fn joining_appends(parts: Seq<Seq<char>>, part: Seq<char>, sep: Seq<char>)
    ensures
        joined(parts.push(part), sep) == if parts.len() == 0 {
            part
        } else {
            joined(parts, sep) + sep + part
        },
{
    assert(parts.push(part).drop_last() =~= parts);
}

/// Splitting is undone by joining with the separator, and no part holds one.
pub proof fn splitting_is_undone_by_joining(s: Seq<char>, sep: char)
    ensures
        split_on(s, sep).len() > 0,
        joined(split_on(s, sep), seq![sep]) == s,
        forall|i: int|
            0 <= i < split_on(s, sep).len() ==> !(#[trigger] split_on(s, sep)[i]).contains(sep),
    decreases s.len(),
{
    if s.len() > 0 {
        let before = s.drop_last();
        let front = split_on(before, sep);
        splitting_is_undone_by_joining(before, sep);
        let parts = split_on(s, sep);
        assert(s =~= before.push(s.last()));
        if s.last() == sep {
            joining_appends(front, Seq::empty(), seq![sep]);
            assert(joined(front, seq![sep]) + seq![sep] + Seq::<char>::empty() =~= s);
            assert forall|i: int| 0 <= i < parts.len() implies !(#[trigger] parts[i]).contains(
                sep,
            ) by {
                if i < front.len() {
                    assert(parts[i] == front[i]);
                }
            }
        } else {
            let head = front.drop_last();
            let last = front.last();
            assert(front =~= head.push(last));
            assert(parts =~= head.push(last.push(s.last())));
            joining_appends(head, last, seq![sep]);
            joining_appends(head, last.push(s.last()), seq![sep]);
            assert(joined(parts, seq![sep]) =~= s);
            assert forall|i: int| 0 <= i < parts.len() implies !(#[trigger] parts[i]).contains(
                sep,
            ) by {
                if i < head.len() {
                    assert(parts[i] == front[i]);
                } else {
                    assert(!front[front.len() - 1].contains(sep));
                    assert(parts[i] == last.push(s.last()));
                    if parts[i].contains(sep) {
                        let k = choose|k: int| 0 <= k < parts[i].len() && parts[i][k] == sep;
                        assert(last[k] == sep);
                    }
                }
            }
        }
    } else {
        assert(joined(seq![s], seq![sep]) == s);
    }
}

/// Making the capitals of a text small keeps its length, changes nothing but the
/// ASCII capitals, and leaves none of them.
pub proof fn small_letters(s: Seq<char>, i: int)
    requires
        0 <= i < s.len(),
    ensures
        lower_ascii(s).len() == s.len(),
        'A' <= s[i] <= 'Z' ==> lower_ascii(s)[i] as int == s[i] as int + 32,
        !('A' <= s[i] <= 'Z') ==> lower_ascii(s)[i] == s[i],
{
}

/// What stands between two parts of a text occurs in it.
pub proof fn text_stands_at(whole: Seq<char>, before: Seq<char>, part: Seq<char>, after: Seq<char>)
    requires
        whole == before + part + after,
    ensures
        contains_text(whole, part),
{
    let at = before.len() as int;
    assert(whole.subrange(at, at + part.len()) =~= part);
}

/// What occurs in a part of a text occurs in the text.
pub proof fn text_stays_contained(a: Seq<char>, b: Seq<char>, part: Seq<char>)
    ensures
        contains_text(a, part) ==> contains_text(a + b, part),
        contains_text(b, part) ==> contains_text(a + b, part),
        contains_text(part, part),
{
    let whole = a + b;
    if contains_text(a, part) {
        let i = choose|i: int|
            0 <= i && i + part.len() <= a.len() && #[trigger] a.subrange(i, i + part.len()) == part;
        assert(whole.subrange(i, i + part.len()) =~= a.subrange(i, i + part.len()));
    }
    if contains_text(b, part) {
        let i = choose|i: int|
            0 <= i && i + part.len() <= b.len() && #[trigger] b.subrange(i, i + part.len()) == part;
        let at = a.len() + i;
        assert(whole.subrange(at, at + part.len()) =~= b.subrange(i, i + part.len()));
    }
    assert(part.subrange(0, 0int + part.len()) =~= part);
}

/// A part behind one more separator is one more part.
pub proof fn splitting_finds_the_last_part(s: Seq<char>, sep: char, part: Seq<char>)
    requires
        !part.contains(sep),
    ensures
        split_on(s + seq![sep] + part, sep) == split_on(s, sep).push(part),
        split_on(part, sep) == seq![part],
    decreases part.len(),
{
    let whole = s + seq![sep] + part;
    if part.len() == 0 {
        assert(whole.drop_last() =~= s);
        assert(whole.last() == sep);
        assert(part =~= Seq::<char>::empty());
    } else {
        let before = part.drop_last();
        assert(!before.contains(sep)) by {
            if before.contains(sep) {
                let k = choose|k: int| 0 <= k < before.len() && before[k] == sep;
                assert(part[k] == sep);
            }
        }
        splitting_finds_the_last_part(s, sep, before);
        assert(part.contains(part.last())) by {
            assert(part[part.len() - 1] == part.last());
        }
        assert(whole.drop_last() =~= s + seq![sep] + before);
        assert(whole.last() == part.last());
        assert(before.push(part.last()) =~= part);
        let front = split_on(s, sep).push(before);
        assert(front.last() == before);
        assert(front.update(front.len() - 1, before.push(part.last())) =~= split_on(s, sep).push(
            part,
        ));
        let one = seq![before];
        assert(one.update(0, before.push(part.last())) =~= seq![part]);
    }
}

} // verus!
