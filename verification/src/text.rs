//! String helpers with exact contracts over character sequences.

use vstd::prelude::*;
use vstd::string::*;
use vstd::utf8::*;

verus! {

/// Appends one character to a string.
///
/// Trusted: `String::push` appends the given character to the end of the string.
pub assume_specification[ String::push ](s: &mut String, c: char)
    ensures
        final(s)@ == old(s)@.push(c),
;

/// Whether two string slices hold the same characters.
pub fn str_eq(a: &str, b: &str) -> (r: bool)
    ensures
        r == (a@ == b@),
{
    let x: &[u8] = a.as_bytes();
    let y: &[u8] = b.as_bytes();
    proof {
        encode_utf8_decode_utf8(a@);
        encode_utf8_decode_utf8(b@);
    }
    if x.len() != y.len() {
        return false;
    }
    let mut i: usize = 0;
    while i < x.len()
        invariant
            i <= x.len(),
            x@.len() == y@.len(),
            x@ == encode_utf8(a@),
            y@ == encode_utf8(b@),
            forall|j: int| 0 <= j < i ==> x@[j] == y@[j],
        decreases x.len() - i,
    {
        if x[i] != y[i] {
            return false;
        }
        i += 1;
    }
    assert(x@ =~= y@);
    true
}

/// The characters of a string slice.
pub fn chars_of(s: &str) -> (r: Vec<char>)
    ensures
        r@ == s@,
{
    let mut out: Vec<char> = Vec::new();
    for c in it: s.chars()
        invariant
            out@ == s@.take(it.index() as int),
            it.seq() == s@,
    {
        out.push(c);
        assert(s@.take(it.index() as int + 1) =~= s@.take(it.index() as int).push(c));
    }
    assert(s@.take(s@.len() as int) =~= s@);
    out
}

/// The string made of the characters `from .. to` of `chars`.
pub fn string_of(chars: &Vec<char>, from: usize, to: usize) -> (r: String)
    requires
        from <= to <= chars@.len(),
    ensures
        r@ == chars@.subrange(from as int, to as int),
{
    let mut out = String::new();
    let mut i: usize = from;
    while i < to
        invariant
            from <= i <= to <= chars@.len(),
            out@ == chars@.subrange(from as int, i as int),
        decreases to - i,
    {
        out.push(chars[i]);
        i += 1;
        assert(out@ =~= chars@.subrange(from as int, i as int));
    }
    assert(out@ =~= chars@.subrange(from as int, to as int));
    out
}

/// The character for one decimal digit.
pub open spec fn digit_char(d: nat) -> char
    recommends
        d < 10,
{
    ((48 + d) as u32) as char
}

/// The decimal digits of `n`, without leading zeros.
pub open spec fn decimal(n: nat) -> Seq<char>
    decreases n,
{
    if n < 10 {
        seq![digit_char(n)]
    } else {
        decimal(n / 10).push(digit_char(n % 10))
    }
}

/// The decimal text of an integer, with a minus sign when negative.
pub open spec fn decimal_int(n: int) -> Seq<char> {
    if n < 0 {
        seq!['-'] + decimal((-n) as nat)
    } else {
        decimal(n as nat)
    }
}

/// The digit character of `d`.
pub fn digit(d: u128) -> (c: char)
    requires
        d < 10,
    ensures
        c == digit_char(d as nat),
{
    if d == 0 {
        '0'
    } else if d == 1 {
        '1'
    } else if d == 2 {
        '2'
    } else if d == 3 {
        '3'
    } else if d == 4 {
        '4'
    } else if d == 5 {
        '5'
    } else if d == 6 {
        '6'
    } else if d == 7 {
        '7'
    } else if d == 8 {
        '8'
    } else {
        '9'
    }
}

/// The decimal digits of `n`.
pub fn decimal_text(n: u128) -> (r: String)
    ensures
        r@ == decimal(n as nat),
    decreases n,
{
    if n < 10 {
        let mut out = String::new();
        out.push(digit(n));
        assert(out@ =~= seq![digit_char(n as nat)]);
        out
    } else {
        let mut out = decimal_text(n / 10);
        out.push(digit(n % 10));
        out
    }
}

/// The decimal text of a signed integer.
pub fn decimal_int_text(n: i128) -> (r: String)
    ensures
        r@ == decimal_int(n as int),
{
    if n < 0 {
        let magnitude: u128 = (-(n + 1)) as u128 + 1;
        let digits = decimal_text(magnitude);
        let mut out = String::new();
        out.push('-');
        out.append(digits.as_str());
        assert(out@ =~= seq!['-'] + decimal((-n) as nat));
        out
    } else {
        decimal_text(n as u128)
    }
}

/// Whether `needle` occurs in `hay` at position `i`.
pub open spec fn occurs_at(hay: Seq<char>, needle: Seq<char>, i: int) -> bool {
    0 <= i && i + needle.len() <= hay.len() && hay.subrange(i, i + needle.len()) == needle
}

/// Whether `needle` occurs anywhere in `hay`.
pub open spec fn occurs(hay: Seq<char>, needle: Seq<char>) -> bool {
    exists|i: int| occurs_at(hay, needle, i)
}

/// Whether the characters of `hay` from `i` on begin with `needle`.
pub fn matches_at(hay: &Vec<char>, needle: &Vec<char>, i: usize) -> (r: bool)
    requires
        i <= hay@.len(),
    ensures
        r == occurs_at(hay@, needle@, i as int),
{
    if needle.len() > hay.len() - i {
        return false;
    }
    let mut j: usize = 0;
    while j < needle.len()
        invariant
            j <= needle.len(),
            i + needle@.len() <= hay@.len(),
            hay@.len() <= usize::MAX,
            forall|k: int| 0 <= k < j ==> hay@[i + k] == needle@[k],
        decreases needle.len() - j,
    {
        if hay[i + j] != needle[j] {
            assert(hay@.subrange(i as int, i + needle@.len())[j as int] != needle@[j as int]);
            return false;
        }
        j += 1;
    }
    assert(hay@.subrange(i as int, i + needle@.len()) =~= needle@);
    true
}

/// The first position from `from` on at which `needle` occurs in `hay`.
pub fn find_from(hay: &Vec<char>, needle: &Vec<char>, from: usize) -> (r: Option<usize>)
    requires
        from <= hay@.len(),
    ensures
        match r {
            Some(i) => from <= i <= hay@.len() && occurs_at(hay@, needle@, i as int) && forall|j: int|
                from <= j < i ==> !occurs_at(hay@, needle@, j),
            None => forall|j: int| from <= j ==> !occurs_at(hay@, needle@, j),
        },
{
    let mut i: usize = from;
    loop
        invariant
            from <= i <= hay@.len(),
            forall|j: int| from <= j < i ==> !occurs_at(hay@, needle@, j),
        decreases hay@.len() - i,
    {
        if matches_at(hay, needle, i) {
            return Some(i);
        }
        if i == hay.len() {
            return None;
        }
        i += 1;
    }
}

/// Whether `needle` occurs in `hay`.
pub fn contains(hay: &str, needle: &str) -> (r: bool)
    ensures
        r == occurs(hay@, needle@),
{
    let h = chars_of(hay);
    let n = chars_of(needle);
    match find_from(&h, &n, 0) {
        Some(_) => true,
        None => {
            assert forall|i: int| !occurs_at(hay@, needle@, i) by {
                if 0 <= i {
                }
            }
            false
        },
    }
}

/// Whether `s` begins with `prefix`.
pub open spec fn has_prefix(s: Seq<char>, prefix: Seq<char>) -> bool {
    prefix.len() <= s.len() && s.subrange(0, prefix.len() as int) == prefix
}

/// Whether `s` begins with `prefix`.
pub fn starts_with(s: &str, prefix: &str) -> (r: bool)
    ensures
        r == has_prefix(s@, prefix@),
{
    let h = chars_of(s);
    let n = chars_of(prefix);
    matches_at(&h, &n, 0)
}

/// A copy of an optional text.
pub fn copied(s: &Option<String>) -> (r: Option<String>)
    ensures
        r == *s,
{
    match s {
        Some(x) => Some(x.clone()),
        None => None,
    }
}

/// The concatenation of two strings.
pub fn joined(a: &str, b: &str) -> (r: String)
    ensures
        r@ == a@ + b@,
{
    let mut out = a.to_owned();
    out.append(b);
    out
}

/// `prefix`, the decimal digits of `n`, and `suffix`.
pub fn numbered(prefix: &str, n: u64, suffix: &str) -> (r: String)
    ensures
        r@ == prefix@ + decimal(n as nat) + suffix@,
{
    let mut out = prefix.to_owned();
    let digits = decimal_text(n as u128);
    out.append(digits.as_str());
    out.append(suffix);
    out
}

/// The characters of each string of a list.
pub open spec fn texts(v: Seq<String>) -> Seq<Seq<char>> {
    Seq::new(v.len(), |i: int| v[i]@)
}

/// A list of one string.
pub fn list1(a: String) -> (r: Vec<String>)
    ensures
        texts(r@) == seq![a@],
        r@ == seq![a],
{
    let mut out: Vec<String> = Vec::new();
    out.push(a);
    assert(texts(out@) =~= seq![a@]);
    out
}

/// A list of two strings.
pub fn list2(a: String, b: String) -> (r: Vec<String>)
    ensures
        texts(r@) == seq![a@, b@],
        r@ == seq![a, b],
{
    let mut out: Vec<String> = Vec::new();
    out.push(a);
    out.push(b);
    assert(texts(out@) =~= seq![a@, b@]);
    out
}

/// A copy of a list of strings.
pub fn copy_list(v: &Vec<String>) -> (r: Vec<String>)
    ensures
        r@ == v@,
{
    let r = v.clone();
    assert(r@ =~= v@);
    r
}

/// The strings of a list with `sep` between them.
pub open spec fn join(parts: Seq<Seq<char>>, sep: Seq<char>) -> Seq<char>
    decreases parts.len(),
{
    if parts.len() == 0 {
        Seq::empty()
    } else if parts.len() == 1 {
        parts[0]
    } else {
        join(parts.drop_last(), sep) + sep + parts.last()
    }
}

/// The strings of a list with `sep` between them.
pub fn join_list(parts: &Vec<String>, sep: &str) -> (r: String)
    ensures
        r@ == join(texts(parts@), sep@),
{
    let mut out = String::new();
    let mut i: usize = 0;
    while i < parts.len()
        invariant
            i <= parts.len(),
            out@ == join(texts(parts@.take(i as int)), sep@),
        decreases parts.len() - i,
    {
        proof {
            let next = texts(parts@.take(i + 1));
            assert(next.drop_last() =~= texts(parts@.take(i as int)));
            assert(next.last() == parts@[i as int]@);
        }
        if i > 0 {
            out.append(sep);
        }
        out.append(parts[i].as_str());
        i += 1;
        assert(out@ =~= join(texts(parts@.take(i as int)), sep@));
    }
    assert(parts@.take(i as int) =~= parts@);
    out
}

/// Whether `c` is white space, as Unicode has it.
pub open spec fn is_space(c: char) -> bool {
    let n = c as u32;
    ||| 0x9 <= n <= 0xd
    ||| n == 0x20
    ||| n == 0x85
    ||| n == 0xa0
    ||| n == 0x1680
    ||| 0x2000 <= n <= 0x200a
    ||| n == 0x2028
    ||| n == 0x2029
    ||| n == 0x202f
    ||| n == 0x205f
    ||| n == 0x3000
}

/// Whether `c` is white space, as Unicode has it.
pub fn space(c: char) -> (r: bool)
    ensures
        r == is_space(c),
{
    let n: u32 = c as u32;
    (0x9 <= n && n <= 0xd) || n == 0x20 || n == 0x85 || n == 0xa0 || n == 0x1680 || (0x2000 <= n && n
        <= 0x200a) || n == 0x2028 || n == 0x2029 || n == 0x202f || n == 0x205f || n == 0x3000
}

/// `s` without the white space at its start.
pub open spec fn trim_start(s: Seq<char>) -> Seq<char>
    decreases s.len(),
{
    if s.len() > 0 && is_space(s[0]) {
        trim_start(s.subrange(1, s.len() as int))
    } else {
        s
    }
}

/// `s` without the white space at its end.
pub open spec fn trim_end(s: Seq<char>) -> Seq<char>
    decreases s.len(),
{
    if s.len() > 0 && is_space(s.last()) {
        trim_end(s.drop_last())
    } else {
        s
    }
}

/// `s` without the white space at its start and end.
pub open spec fn trim(s: Seq<char>) -> Seq<char> {
    trim_end(trim_start(s))
}

/// The bounds of what is left of `chars[from .. to]` without the white space
/// around it.
pub fn trim_bounds(chars: &Vec<char>, from: usize, to: usize) -> (r: (usize, usize))
    requires
        from <= to <= chars@.len(),
    ensures
        from <= r.0 <= r.1 <= to,
        chars@.subrange(r.0 as int, r.1 as int) == trim(chars@.subrange(from as int, to as int)),
{
    let ghost whole = chars@.subrange(from as int, to as int);
    let mut a: usize = from;
    while a < to && space(chars[a])
        invariant
            from <= a <= to <= chars@.len(),
            whole == chars@.subrange(from as int, to as int),
            trim_start(whole) == trim_start(chars@.subrange(a as int, to as int)),
        decreases to - a,
    {
        let ghost s = chars@.subrange(a as int, to as int);
        assert(s[0] == chars@[a as int]);
        assert(s.subrange(1, s.len() as int) =~= chars@.subrange(a + 1, to as int));
        a += 1;
    }
    let ghost left = chars@.subrange(a as int, to as int);
    assert(trim_start(left) == left) by {
        if left.len() > 0 {
            assert(left[0] == chars@[a as int]);
        }
    }
    let mut b: usize = to;
    while b > a && space(chars[b - 1])
        invariant
            from <= a <= b <= to <= chars@.len(),
            trim_end(left) == trim_end(chars@.subrange(a as int, b as int)),
        decreases b - a,
    {
        let ghost s = chars@.subrange(a as int, b as int);
        assert(s.last() == chars@[b - 1]);
        assert(s.drop_last() =~= chars@.subrange(a as int, b - 1));
        b -= 1;
    }
    let ghost rest = chars@.subrange(a as int, b as int);
    assert(trim_end(rest) == rest) by {
        if rest.len() > 0 {
            assert(rest.last() == chars@[b - 1]);
        }
    }
    (a, b)
}

/// `s` without the white space at its start and end.
pub fn trimmed(s: &str) -> (r: String)
    ensures
        r@ == trim(s@),
{
    let chars = chars_of(s);
    let (a, b) = trim_bounds(&chars, 0, chars.len());
    assert(chars@.subrange(0, chars@.len() as int) =~= s@);
    string_of(&chars, a, b)
}

/// Whether every character of `s` is an ASCII digit.
pub open spec fn all_digits(s: Seq<char>) -> bool {
    forall|i: int| 0 <= i < s.len() ==> '0' <= #[trigger] s[i] <= '9'
}

/// The number that a run of digits denotes.
pub open spec fn digits_value(s: Seq<char>) -> nat
    decreases s.len(),
{
    if s.len() == 0 {
        0
    } else {
        digits_value(s.drop_last()) * 10 + (s.last() as nat - '0' as nat) as nat
    }
}

/// The digits of a number text: all of it, less one leading plus sign.
pub open spec fn unsigned_digits(s: Seq<char>) -> Seq<char> {
    if s.len() > 0 && s[0] == '+' {
        s.subrange(1, s.len() as int)
    } else {
        s
    }
}

/// The number that `s` denotes: at least one digit, nothing but digits, and
/// an optional leading plus sign.
pub open spec fn unsigned_value(s: Seq<char>) -> Option<nat> {
    let d = unsigned_digits(s);
    if d.len() > 0 && all_digits(d) {
        Some(digits_value(d))
    } else {
        None
    }
}

/// A longer run of digits denotes at least as much.
proof fn lemma_digits_grow(s: Seq<char>, n: int)
    requires
        all_digits(s),
        0 <= n <= s.len(),
    ensures
        digits_value(s.take(n)) <= digits_value(s),
    decreases s.len(),
{
    if n == s.len() {
        assert(s.take(n) =~= s);
    } else {
        assert(all_digits(s.drop_last()));
        lemma_digits_grow(s.drop_last(), n);
        assert(s.drop_last().take(n) =~= s.take(n));
    }
}

/// The number that the digits `chars[from ..]` denote, when it is not above
/// `max`. There must be digits, and nothing else.
pub fn parse_digits(chars: &Vec<char>, from: usize, max: u128) -> (r: Option<u128>)
    requires
        from <= chars@.len(),
    ensures
        ({
            let d = chars@.subrange(from as int, chars@.len() as int);
            if d.len() > 0 && all_digits(d) && digits_value(d) <= max {
                r == Some(digits_value(d) as u128)
            } else {
                r is None
            }
        }),
{
    let ghost d = chars@.subrange(from as int, chars@.len() as int);
    if from == chars.len() {
        return None;
    }
    let mut i: usize = from;
    let mut v: u128 = 0;
    let mut fits: bool = true;
    while i < chars.len()
        invariant
            d == chars@.subrange(from as int, chars@.len() as int),
            from <= i <= chars@.len(),
            all_digits(d.take(i - from)),
            fits ==> v == digits_value(d.take(i - from)) && v <= max,
            !fits ==> digits_value(d.take(i - from)) > max,
        decreases chars.len() - i,
    {
        let c = chars[i];
        assert(d[i - from] == c);
        if c < '0' || c > '9' {
            assert(!all_digits(d));
            return None;
        }
        let x: u128 = (c as u32 - '0' as u32) as u128;
        proof {
            assert(d.take(i - from + 1).drop_last() =~= d.take(i - from));
            assert(all_digits(d.take(i - from + 1)));
            lemma_digits_grow(d.take(i - from + 1), i - from);
            assert(d.take(i - from + 1).take(i - from) =~= d.take(i - from));
        }
        if fits {
            if x <= max && v <= (max - x) / 10 {
                v = v * 10 + x;
            } else {
                fits = false;
            }
        }
        i += 1;
    }
    assert(d.take(i - from) =~= d);
    if fits {
        Some(v)
    } else {
        None
    }
}

/// The number that `s` denotes, when it denotes one not above `max`.
pub fn parse_unsigned(s: &str, max: u64) -> (r: Option<u64>)
    ensures
        match unsigned_value(s@) {
            Some(v) => if v <= max {
                r == Some(v as u64)
            } else {
                r is None
            },
            None => r is None,
        },
{
    let all = chars_of(s);
    let from: usize = if all.len() > 0 && all[0] == '+' {
        1
    } else {
        0
    };
    assert(unsigned_digits(s@) =~= all@.subrange(from as int, all@.len() as int));
    match parse_digits(&all, from, max as u128) {
        Some(v) => Some(v as u64),
        None => None,
    }
}

/// The integer that `s` denotes: digits with an optional sign.
pub open spec fn signed_value(s: Seq<char>) -> Option<int> {
    if s.len() > 0 && s[0] == '-' {
        let d = s.subrange(1, s.len() as int);
        if d.len() > 0 && all_digits(d) {
            Some(-(digits_value(d) as int))
        } else {
            None
        }
    } else {
        match unsigned_value(s) {
            Some(v) => Some(v as int),
            None => None,
        }
    }
}

/// The integer that `s` denotes, when it has 128 bits.
pub fn parse_signed(s: &str) -> (r: Option<i128>)
    ensures
        match signed_value(s@) {
            Some(v) => if i128::MIN <= v <= i128::MAX {
                r == Some(v as i128)
            } else {
                r is None
            },
            None => r is None,
        },
{
    let all = chars_of(s);
    if all.len() > 0 && all[0] == '-' {
        match parse_digits(&all, 1, i128::MAX as u128 + 1) {
            Some(v) => if v == i128::MAX as u128 + 1 {
                Some(i128::MIN)
            } else {
                Some(-(v as i128))
            },
            None => None,
        }
    } else {
        let from: usize = if all.len() > 0 && all[0] == '+' {
            1
        } else {
            0
        };
        assert(unsigned_digits(s@) =~= all@.subrange(from as int, all@.len() as int));
        match parse_digits(&all, from, i128::MAX as u128) {
            Some(v) => Some(v as i128),
            None => None,
        }
    }
}

/// The decimal digits of a number are digits, and denote the number.
pub proof fn lemma_decimal_denotes(n: nat)
    ensures
        decimal(n).len() > 0,
        all_digits(decimal(n)),
        digits_value(decimal(n)) == n,
    decreases n,
{
    if n < 10 {
        let s = decimal(n);
        assert(s.drop_last() =~= Seq::<char>::empty());
        assert(s.last() == digit_char(n));
        assert(digits_value(s.drop_last()) == 0);
    } else {
        lemma_decimal_denotes(n / 10);
        let s = decimal(n);
        assert(s.drop_last() =~= decimal(n / 10));
        assert(s.last() == digit_char(n % 10));
    }
}

/// An integer survives being written in decimal and read back.
pub proof fn law_decimal_round_trip(n: int)
    ensures
        signed_value(decimal_int(n)) == Some(n),
{
    let m: nat = if n < 0 {
        (-n) as nat
    } else {
        n as nat
    };
    lemma_decimal_denotes(m);
    let d = decimal(m);
    if n < 0 {
        let s = decimal_int(n);
        assert(s.subrange(1, s.len() as int) =~= d);
    } else {
        assert('0' <= d[0] <= '9');
    }
}

/// Whether `a` comes before `b` in the order of strings: at the first
/// character where they differ, or because it is a beginning of `b`.
pub open spec fn before(a: Seq<char>, b: Seq<char>) -> bool
    decreases a.len(),
{
    if b.len() == 0 {
        false
    } else if a.len() == 0 {
        true
    } else if a[0] != b[0] {
        a[0] < b[0]
    } else {
        before(a.subrange(1, a.len() as int), b.subrange(1, b.len() as int))
    }
}

/// The order of strings is decided by the suffixes behind a common beginning.
proof fn lemma_before_suffix(a: Seq<char>, b: Seq<char>, n: int)
    requires
        0 <= n <= a.len(),
        n <= b.len(),
        a.take(n) == b.take(n),
    ensures
        before(a, b) == before(a.skip(n), b.skip(n)),
    decreases n,
{
    if n == 0 {
        assert(a.skip(0) =~= a);
        assert(b.skip(0) =~= b);
    } else {
        let a1 = a.subrange(1, a.len() as int);
        let b1 = b.subrange(1, b.len() as int);
        assert(a[0] == a.take(n)[0]);
        assert(b[0] == b.take(n)[0]);
        assert(a1.take(n - 1) =~= a.take(n).subrange(1, n));
        assert(b1.take(n - 1) =~= b.take(n).subrange(1, n));
        lemma_before_suffix(a1, b1, n - 1);
        assert(a1.skip(n - 1) =~= a.skip(n));
        assert(b1.skip(n - 1) =~= b.skip(n));
    }
}

/// Whether `a` comes before `b` in the order of strings.
pub fn is_before(a: &str, b: &str) -> (r: bool)
    ensures
        r == before(a@, b@),
{
    let x = chars_of(a);
    let y = chars_of(b);
    let mut i: usize = 0;
    while i < x.len() && i < y.len() && x[i] == y[i]
        invariant
            i <= x.len(),
            i <= y.len(),
            x@.take(i as int) == y@.take(i as int),
        decreases x.len() - i,
    {
        assert(x@.take(i + 1) =~= x@.take(i as int).push(x@[i as int]));
        assert(y@.take(i + 1) =~= y@.take(i as int).push(y@[i as int]));
        i += 1;
    }
    proof {
        lemma_before_suffix(a@, b@, i as int);
    }
    if i == y.len() {
        false
    } else if i == x.len() {
        true
    } else {
        x[i] < y[i]
    }
}

/// No string comes before itself.
pub proof fn lemma_before_irreflexive(a: Seq<char>)
    ensures
        !before(a, a),
    decreases a.len(),
{
    if a.len() > 0 {
        lemma_before_irreflexive(a.subrange(1, a.len() as int));
    }
}

/// Of two different strings one comes before the other.
pub proof fn lemma_before_total(a: Seq<char>, b: Seq<char>)
    ensures
        a != b ==> before(a, b) || before(b, a),
    decreases a.len(),
{
    if a.len() == 0 || b.len() == 0 {
        if a.len() == 0 && b.len() == 0 {
            assert(a =~= b);
        }
    } else if a[0] == b[0] {
        let a1 = a.subrange(1, a.len() as int);
        let b1 = b.subrange(1, b.len() as int);
        lemma_before_total(a1, b1);
        if a1 == b1 {
            assert(a =~= seq![a[0]] + a1);
            assert(b =~= seq![b[0]] + b1);
        }
    }
}

/// The order of strings is transitive.
pub proof fn lemma_before_transitive(a: Seq<char>, b: Seq<char>, c: Seq<char>)
    requires
        before(a, b),
        before(b, c),
    ensures
        before(a, c),
    decreases a.len(),
{
    if a.len() > 0 && b.len() > 0 && c.len() > 0 {
        if a[0] == b[0] && b[0] == c[0] {
            lemma_before_transitive(
                a.subrange(1, a.len() as int),
                b.subrange(1, b.len() as int),
                c.subrange(1, c.len() as int),
            );
        }
    }
}

/// The letter `c` in lower case, when it is an ASCII letter.
pub open spec fn ascii_lower(c: char) -> char {
    if 'A' <= c <= 'Z' {
        ((c as u32 + 32) as u32) as char
    } else {
        c
    }
}

/// Whether two strings are the same but for the case of ASCII letters.
pub open spec fn same_ignoring_case(a: Seq<char>, b: Seq<char>) -> bool {
    a.len() == b.len() && forall|i: int|
        0 <= i < a.len() ==> ascii_lower(#[trigger] a[i]) == ascii_lower(b[i])
}

/// The letter `c` in lower case, when it is an ASCII letter.
fn lower(c: char) -> (r: char)
    ensures
        r == ascii_lower(c),
{
    if 'A' <= c && c <= 'Z' {
        ((c as u8) + 32) as char
    } else {
        c
    }
}

/// Whether two strings are the same but for the case of ASCII letters.
pub fn eq_ignore_case(a: &str, b: &str) -> (r: bool)
    ensures
        r == same_ignoring_case(a@, b@),
{
    let x = chars_of(a);
    let y = chars_of(b);
    if x.len() != y.len() {
        return false;
    }
    let mut i: usize = 0;
    while i < x.len()
        invariant
            i <= x.len(),
            x@ == a@,
            y@ == b@,
            x@.len() == y@.len(),
            forall|j: int| 0 <= j < i ==> ascii_lower(#[trigger] x@[j]) == ascii_lower(y@[j]),
        decreases x.len() - i,
    {
        if lower(x[i]) != lower(y[i]) {
            assert(ascii_lower(a@[i as int]) != ascii_lower(b@[i as int]));
            return false;
        }
        i += 1;
    }
    true
}

/// The position of the first `c` in `s` from `from` on, or the length of `s`.
pub open spec fn first_at(s: Seq<char>, c: char, from: int) -> int
    decreases s.len() - from,
{
    if from >= s.len() || from < 0 {
        s.len() as int
    } else if s[from] == c {
        from
    } else {
        first_at(s, c, from + 1)
    }
}

/// What the first position of a character means.
pub proof fn lemma_first_at(s: Seq<char>, c: char, from: int)
    requires
        0 <= from <= s.len(),
    ensures
        from <= first_at(s, c, from) <= s.len(),
        first_at(s, c, from) < s.len() ==> s[first_at(s, c, from)] == c,
        forall|j: int| from <= j < first_at(s, c, from) ==> s[j] != c,
    decreases s.len() - from,
{
    if from < s.len() && s[from] != c {
        lemma_first_at(s, c, from + 1);
    }
}

/// The position of the first `c` in `chars` from `from` on, or the length.
pub fn position_of(chars: &Vec<char>, c: char, from: usize) -> (r: usize)
    requires
        from <= chars@.len(),
    ensures
        from <= r <= chars@.len(),
        r == first_at(chars@, c, from as int),
{
    let mut i: usize = from;
    while i < chars.len() && chars[i] != c
        invariant
            from <= i <= chars@.len(),
            first_at(chars@, c, from as int) == first_at(chars@, c, i as int),
        decreases chars.len() - i,
    {
        i += 1;
    }
    i
}

/// What stands before the first `c`.
pub open spec fn until(s: Seq<char>, c: char) -> Seq<char> {
    s.take(first_at(s, c, 0))
}

/// The parts of `s` between the occurrences of `c`.
pub open spec fn split_at_each(s: Seq<char>, c: char) -> Seq<Seq<char>>
    decreases s.len(),
{
    let at = first_at(s, c, 0);
    if 0 <= at < s.len() {
        seq![s.take(at)] + split_at_each(s.skip(at + 1), c)
    } else {
        seq![s]
    }
}

/// The parts of `s` between the occurrences of `c`.
pub fn split_list(s: &str, c: char) -> (r: Vec<String>)
    ensures
        texts(r@) == split_at_each(s@, c),
{
    let chars = chars_of(s);
    let mut out: Vec<String> = Vec::new();
    let mut from: usize = 0;
    assert(chars@.skip(0) =~= chars@);
    assert(texts(out@) + split_at_each(s@, c) =~= split_at_each(s@, c));
    loop
        invariant
            chars@ == s@,
            from <= chars@.len(),
            texts(out@) + split_at_each(s@.skip(from as int), c) == split_at_each(s@, c),
        decreases chars@.len() - from,
    {
        let ghost rest = s@.skip(from as int);
        let ghost before = texts(out@);
        let at: usize = position_of(&chars, c, from);
        proof {
            lemma_first_at_skip(s@, c, from as int);
            lemma_first_at(s@, c, from as int);
        }
        let part = string_of(&chars, from, at);
        assert(part@ =~= rest.take(at - from));
        if at == chars.len() {
            assert(rest.take(at - from) =~= rest);
            out.push(part);
            assert(texts(out@) =~= before.push(part@));
            assert(texts(out@) =~= before + seq![rest]);
            return out;
        }
        out.push(part);
        proof {
            assert(texts(out@) =~= before.push(part@));
            assert(rest.skip(at - from + 1) =~= s@.skip(at + 1));
            assert(texts(out@) + split_at_each(s@.skip(at + 1), c) =~= before + (seq![part@]
                + split_at_each(s@.skip(at + 1), c)));
        }
        from = at + 1;
    }
}

/// The first position of a character in the rest of a string.
pub proof fn lemma_first_at_skip(s: Seq<char>, c: char, from: int)
    requires
        0 <= from <= s.len(),
    ensures
        first_at(s.skip(from), c, 0) == first_at(s, c, from) - from,
{
    lemma_first_at(s, c, from);
    let rest = s.skip(from);
    lemma_first_at(rest, c, 0);
    let a = first_at(rest, c, 0);
    let b = first_at(s, c, from) - from;
    if a < b {
        assert(s[from + a] == rest[a]);
    } else if b < a {
        assert(rest[b] == s[from + b]);
    }
}

/// A string with every character in lower case.
pub uninterp spec fn lowercased(s: Seq<char>) -> Seq<char>;

/// Whether a string has only ASCII characters.
pub open spec fn ascii_only(s: Seq<char>) -> bool {
    forall|i: int| 0 <= i < s.len() ==> (#[trigger] s[i] as u32) < 128
}

/// Trusted: `str::to_lowercase` writes every character in lower case, as
/// Unicode defines it. A string of ASCII characters has its capital letters
/// replaced one by one; of other strings only the name of the result is known.
pub assume_specification[ str::to_lowercase ](s: &str) -> (r: String)
    ensures
        r@ == lowercased(s@),
        ascii_only(s@) ==> r@ == s@.map_values(|c: char| ascii_lower(c)),
;

/// A text begins with every text that it extends, and with no longer one.
pub proof fn law_prefix_is_what_comes_first(p: Seq<char>, rest: Seq<char>, s: Seq<char>)
    ensures
        has_prefix(p + rest, p),
        has_prefix(s, p) ==> p + s.skip(p.len() as int) == s,
        s.len() < p.len() ==> !has_prefix(s, p),
{
    assert((p + rest).subrange(0, p.len() as int) =~= p);
    if has_prefix(s, p) {
        assert(s.subrange(0, p.len() as int) + s.skip(p.len() as int) =~= s);
    }
}

/// The order of texts is that of the first characters in which they differ; a
/// text comes before every longer one that begins with it.
pub proof fn law_texts_are_ordered_by_first_difference(
    p: Seq<char>,
    x: char,
    a: Seq<char>,
    y: char,
    b: Seq<char>,
)
    requires
        x < y,
    ensures
        before(p + seq![x] + a, p + seq![y] + b),
        !before(p + seq![y] + b, p + seq![x] + a),
        before(p, p + seq![x] + a),
        !before(p + seq![x] + a, p),
    decreases p.len(),
{
    let l = p + seq![x] + a;
    let r = p + seq![y] + b;
    if p.len() > 0 {
        let q = p.subrange(1, p.len() as int);
        law_texts_are_ordered_by_first_difference(q, x, a, y, b);
        assert(l.subrange(1, l.len() as int) =~= q + seq![x] + a);
        assert(r.subrange(1, r.len() as int) =~= q + seq![y] + b);
    } else {
        assert(l[0] == x && r[0] == y);
    }
}

/// Trimming takes away space at both ends and nothing else: what is left
/// neither begins nor ends with space.
pub proof fn law_trim_removes_outer_space(s: Seq<char>)
    ensures
        trim(s).len() > 0 ==> !is_space(trim(s)[0]) && !is_space(trim(s).last()),
        s.len() > 0 && !is_space(s[0]) && !is_space(s.last()) ==> trim(s) == s,
{
    lemma_trim_start(s);
    lemma_trim_end(trim_start(s));
}

/// A text without its leading space.
proof fn lemma_trim_start(s: Seq<char>)
    ensures
        trim_start(s).len() > 0 ==> !is_space(trim_start(s)[0]),
    decreases s.len(),
{
    if s.len() > 0 && is_space(s[0]) {
        lemma_trim_start(s.subrange(1, s.len() as int));
    }
}

/// A text without its trailing space begins as the text does.
proof fn lemma_trim_end(s: Seq<char>)
    ensures
        trim_end(s).len() > 0 ==> !is_space(trim_end(s).last()) && trim_end(s)[0] == s[0],
    decreases s.len(),
{
    if s.len() > 0 && is_space(s.last()) {
        lemma_trim_end(s.drop_last());
    }
}

/// The parts of a text hold no separator, and joined by the separator they give
/// the text back.
pub proof fn law_parts_make_up_the_text(s: Seq<char>, c: char)
    ensures
        split_at_each(s, c).len() >= 1,
        forall|i: int, j: int|
            0 <= i < split_at_each(s, c).len() && 0 <= j < split_at_each(s, c)[i].len()
                ==> #[trigger] split_at_each(s, c)[i][j] != c,
        joined_by(split_at_each(s, c), c) == s,
    decreases s.len(),
{
    lemma_first_at(s, c, 0);
    let at = first_at(s, c, 0);
    if at < s.len() {
        let rest = s.skip(at + 1);
        law_parts_make_up_the_text(rest, c);
        let parts = split_at_each(s, c);
        let tail = split_at_each(rest, c);
        assert(parts =~= seq![s.take(at)] + tail);
        assert(parts.skip(1) =~= tail);
        assert(s.take(at) + seq![c] + rest =~= s);
        assert forall|i: int, j: int| 0 <= i < parts.len() && 0 <= j < parts[i].len() implies
            #[trigger] parts[i][j] != c by {
            if i > 0 {
                assert(parts[i] == tail[i - 1]);
                assert(tail[i - 1][j] != c);
            }
        }
    }
}

/// Parts with a separator between each two of them.
pub open spec fn joined_by(parts: Seq<Seq<char>>, c: char) -> Seq<char>
    decreases parts.len(),
{
    if parts.len() == 0 {
        Seq::empty()
    } else if parts.len() == 1 {
        parts[0]
    } else {
        parts[0] + seq![c] + joined_by(parts.skip(1), c)
    }
}

/// Case makes no difference to letters of the Latin alphabet, and every other
/// difference counts.
pub proof fn law_case_is_ignored(a: Seq<char>, b: Seq<char>, i: int)
    ensures
        same_ignoring_case(a, a),
        same_ignoring_case(a, b) == same_ignoring_case(b, a),
        a.len() != b.len() ==> !same_ignoring_case(a, b),
        same_ignoring_case(a, b) && 0 <= i < a.len() && a[i] != b[i] ==> {
            ||| 'A' <= a[i] <= 'Z' && b[i] as u32 == a[i] as u32 + 32
            ||| 'A' <= b[i] <= 'Z' && a[i] as u32 == b[i] as u32 + 32
        },
        0 <= i < a.len() && 'a' <= a[i] <= 'z' ==> same_ignoring_case(
            a,
            a.update(i, (a[i] as u32 - 32) as char),
        ),
{
    if 0 <= i < a.len() && 'a' <= a[i] <= 'z' {
        let u = (a[i] as u32 - 32) as char;
        assert('A' <= u <= 'Z');
        assert(ascii_lower(u) == a[i]);
    }
    if same_ignoring_case(a, b) && 0 <= i < a.len() {
        assert(ascii_lower(a[i]) == ascii_lower(b[i]));
    }
}

/// A number is made of digits, with at most a plus sign in front.
pub proof fn law_only_digits_are_a_number(s: Seq<char>, i: int)
    ensures
        unsigned_value(Seq::<char>::empty()) is None,
        unsigned_value(s) is Some && 0 < i < s.len() ==> '0' <= s[i] <= '9',
        unsigned_value(s) is Some ==> s.len() > 0 && ('0' <= s[0] <= '9' || s[0] == '+' && s.len()
            > 1),
{
    if unsigned_value(s) is Some && 0 < i < s.len() {
        let d = unsigned_digits(s);
        if s[0] == '+' {
            assert(d[i - 1] == s[i]);
        }
    }
}

/// A text occurs in every text that is made of it and of what stands around it.
pub proof fn law_part_occurs(a: Seq<char>, b: Seq<char>, c: Seq<char>)
    ensures
        occurs(a + b + c, b),
{
    let s = a + b + c;
    let i = a.len() as int;
    assert(s.subrange(i, i + b.len()) =~= b);
    assert(occurs_at(s, b, i));
}

/// What occurs in one of two texts occurs in the two put together.
pub proof fn law_occurs_in_either(a: Seq<char>, b: Seq<char>, x: Seq<char>)
    ensures
        occurs(a, x) ==> occurs(a + b, x),
        occurs(b, x) ==> occurs(a + b, x),
        occurs(x, x),
{
    if occurs(a, x) {
        let i = choose|i: int| occurs_at(a, x, i);
        assert((a + b).subrange(i, i + x.len()) =~= a.subrange(i, i + x.len()));
        assert(occurs_at(a + b, x, i));
    }
    if occurs(b, x) {
        let i = choose|i: int| occurs_at(b, x, i);
        let j = a.len() + i;
        assert((a + b).subrange(j, j + x.len()) =~= b.subrange(i, i + x.len()));
        assert(occurs_at(a + b, x, j));
    }
    assert(x.subrange(0, x.len() as int) =~= x);
    assert(occurs_at(x, x, 0));
}

/// A list of texts is joined with the separator between each two of them.
pub proof fn law_join_separates(parts: Seq<Seq<char>>, last: Seq<char>, sep: Seq<char>)
    ensures
        join(Seq::<Seq<char>>::empty(), sep).len() == 0,
        join(seq![last], sep) == last,
        parts.len() > 0 ==> join(parts.push(last), sep) == join(parts, sep) + sep + last,
{
    assert(parts.push(last).drop_last() =~= parts);
}

} // verus!
