use vstd::prelude::*;

verus! {

/// The characters with the Unicode `White_Space` property: the whitespace
/// that `str::trim` removes.
pub open spec fn is_white_space(c: char) -> bool {
    let u: u32 = c as u32;
    ||| 0x9 <= u <= 0xD
    ||| u == 0x20
    ||| u == 0x85
    ||| u == 0xA0
    ||| u == 0x1680
    ||| 0x2000 <= u <= 0x200A
    ||| u == 0x2028
    ||| u == 0x2029
    ||| u == 0x202F
    ||| u == 0x205F
    ||| u == 0x3000
}

/// `s` without its leading whitespace.
pub open spec fn trim_start(s: Seq<char>) -> Seq<char>
    decreases s.len(),
{
    if s.len() > 0 && is_white_space(s[0]) {
        trim_start(s.drop_first())
    } else {
        s
    }
}

/// `s` without its trailing whitespace.
pub open spec fn trim_end(s: Seq<char>) -> Seq<char>
    decreases s.len(),
{
    if s.len() > 0 && is_white_space(s.last()) {
        trim_end(s.drop_last())
    } else {
        s
    }
}

/// `s` without its leading and trailing whitespace.
pub open spec fn trim(s: Seq<char>) -> Seq<char> {
    trim_end(trim_start(s))
}

/// Where the leading whitespace of `s` ends.
proof fn lemma_trim_start(s: Seq<char>) -> (i: int)
    ensures
        0 <= i <= s.len(),
        trim_start(s) == s.subrange(i, s.len() as int),
        forall|p: int| 0 <= p < i ==> is_white_space(#[trigger] s[p]),
        i < s.len() ==> !is_white_space(s[i]),
    decreases s.len(),
{
    if s.len() > 0 && is_white_space(s[0]) {
        let i = lemma_trim_start(s.drop_first());
        assert(s.drop_first().subrange(i, s.len() - 1) =~= s.subrange(i + 1, s.len() as int));
        assert forall|p: int| 0 <= p < i + 1 implies is_white_space(#[trigger] s[p]) by {
            if p > 0 {
                assert(s[p] == s.drop_first()[p - 1]);
            }
        }
        i + 1
    } else {
        assert(s.subrange(0, s.len() as int) =~= s);
        0
    }
}

/// Where the trailing whitespace of `s` starts.
proof fn lemma_trim_end(s: Seq<char>) -> (j: int)
    ensures
        0 <= j <= s.len(),
        trim_end(s) == s.subrange(0, j),
        forall|p: int| j <= p < s.len() ==> is_white_space(#[trigger] s[p]),
        j > 0 ==> !is_white_space(s[j - 1]),
    decreases s.len(),
{
    if s.len() > 0 && is_white_space(s.last()) {
        let j = lemma_trim_end(s.drop_last());
        assert(s.drop_last().subrange(0, j) =~= s.subrange(0, j));
        assert forall|p: int| j <= p < s.len() implies is_white_space(#[trigger] s[p]) by {
            if p < s.len() - 1 {
                assert(s[p] == s.drop_last()[p]);
            }
        }
        j
    } else {
        assert(s.subrange(0, s.len() as int) =~= s);
        s.len() as int
    }
}

/// Law: trimming keeps the part of a string between its leading and its
/// trailing whitespace. The result is a run of consecutive characters of
/// the string, everything cut off before and after it is whitespace, and a
/// result that is not empty starts and ends with a character that is not.
pub proof fn lemma_trim_cuts_whitespace_only(s: Seq<char>)
    ensures
        exists|i: int, j: int|
            {
                &&& 0 <= i <= j <= s.len()
                &&& trim(s) == s.subrange(i, j)
                &&& forall|p: int| 0 <= p < i ==> is_white_space(#[trigger] s[p])
                &&& forall|p: int| j <= p < s.len() ==> is_white_space(#[trigger] s[p])
                &&& i < j ==> !is_white_space(s[i]) && !is_white_space(s[j - 1])
            },
{
    let i = lemma_trim_start(s);
    let t = s.subrange(i, s.len() as int);
    let j = lemma_trim_end(t);
    assert(t.subrange(0, j) =~= s.subrange(i, i + j));
    assert forall|p: int| i + j <= p < s.len() implies is_white_space(#[trigger] s[p]) by {
        assert(s[p] == t[p - i]);
    }
    if j > 0 {
        assert(s[i] == t[0]);
        assert(s[i + j - 1] == t[j - 1]);
    }
    assert(0 <= i <= i + j <= s.len());
}

/// Whether a character has the Unicode `White_Space` property.
pub fn char_is_white_space(c: char) -> (r: bool)
    ensures
        r == is_white_space(c),
{
    let u: u32 = c as u32;
    (0x9 <= u && u <= 0xD) || u == 0x20 || u == 0x85 || u == 0xA0 || u == 0x1680 || (0x2000 <= u
        && u <= 0x200A) || u == 0x2028 || u == 0x2029 || u == 0x202F || u == 0x205F || u == 0x3000
}

/// The line without its leading and trailing whitespace, as `str::trim`
/// gives it.
pub fn trim_whitespace(line: &str) -> (trimmed: &str)
    ensures
        trimmed@ == trim(line@),
{
    let n: usize = line.unicode_len();
    let mut i: usize = 0;
    assert(line@.subrange(0, n as int) =~= line@);
    while i < n && char_is_white_space(line.get_char(i))
        invariant
            n == line@.len(),
            0 <= i <= n,
            trim_start(line@) == trim_start(line@.subrange(i as int, n as int)),
        decreases n - i,
    {
        assert(line@.subrange(i as int, n as int).drop_first() =~= line@.subrange(
            i + 1,
            n as int,
        ));
        i += 1;
    }
    assert(trim_start(line@) == line@.subrange(i as int, n as int));
    let mut j: usize = n;
    while j > i && char_is_white_space(line.get_char(j - 1))
        invariant
            n == line@.len(),
            0 <= i <= j <= n,
            trim(line@) == trim_end(line@.subrange(i as int, j as int)),
        decreases j,
    {
        assert(line@.subrange(i as int, j as int).drop_last() =~= line@.subrange(
            i as int,
            j - 1,
        ));
        j -= 1;
    }
    line.substring_char(i, j)
}

/// The value of a string of decimal digits.
pub open spec fn digits_value(s: Seq<char>) -> int
    decreases s.len(),
{
    if s.len() == 0 {
        0
    } else {
        digits_value(s.drop_last()) * 10 + (s.last() as int - '0' as int)
    }
}

/// Every character of `s` is an ASCII decimal digit.
pub open spec fn all_digits(s: Seq<char>) -> bool {
    forall|i: int| 0 <= i < s.len() ==> '0' <= #[trigger] s[i] <= '9'
}

/// The value that `str::parse` gives for an unsigned integer type whose
/// largest value is `max`: an optional `+` sign followed by at least one
/// decimal digit, of value at most `max`.
pub open spec fn parse_decimal(s: Seq<char>, max: int) -> Option<int> {
    let digits = if s.len() > 0 && s[0] == '+' {
        s.drop_first()
    } else {
        s
    };
    if digits.len() > 0 && all_digits(digits) && digits_value(digits) <= max {
        Some(digits_value(digits))
    } else {
        None
    }
}

/// What `s.parse::<u8>()` gives.
pub open spec fn parse_u8(s: Seq<char>) -> Option<u8> {
    match parse_decimal(s, 255) {
        Some(v) => Some(v as u8),
        None => None,
    }
}

/// What `s.parse::<u16>()` gives.
pub open spec fn parse_u16(s: Seq<char>) -> Option<u16> {
    match parse_decimal(s, 65535) {
        Some(v) => Some(v as u16),
        None => None,
    }
}

/// Once the value of a digit string passes `max`, appending digits keeps it
/// above `max`.
proof fn lemma_digits_value_grows(s: Seq<char>, i: int, j: int, max: int)
    requires
        all_digits(s),
        0 <= max,
        0 <= i <= j <= s.len(),
        digits_value(s.subrange(0, i)) > max,
    ensures
        digits_value(s.subrange(0, j)) > max,
    decreases j - i,
{
    if j > i {
        lemma_digits_value_grows(s, i, j - 1, max);
        assert(s.subrange(0, j).drop_last() =~= s.subrange(0, j - 1));
    }
}

/// The characters of `s` from index `from` to its end, read as an unsigned
/// integer of at most `max` the way `str::parse` reads one.
pub(crate) fn parse_decimal_from(s: &str, from: usize, max: u32) -> (r: Option<u32>)
    requires
        from <= s@.len(),
        max <= 65535,
    ensures
        match r {
            Some(v) => parse_decimal(s@.subrange(from as int, s@.len() as int), max as int) == Some(
                v as int,
            ),
            None => parse_decimal(s@.subrange(from as int, s@.len() as int), max as int) is None,
        },
{
    let ghost t = s@.subrange(from as int, s@.len() as int);
    let n: usize = s.unicode_len();
    let mut start: usize = from;
    if start < n && s.get_char(start) == '+' {
        start += 1;
    }
    let ghost digits = s@.subrange(start as int, n as int);
    assert(digits =~= if t.len() > 0 && t[0] == '+' {
        t.drop_first()
    } else {
        t
    });
    if start == n {
        return None;
    }
    let mut value: u32 = 0;
    let mut i: usize = start;
    while i < n
        invariant
            n == s@.len(),
            start <= i <= n,
            max <= 65535,
            digits == s@.subrange(start as int, n as int),
            t == s@.subrange(from as int, n as int),
            digits == (if t.len() > 0 && t[0] == '+' {
                t.drop_first()
            } else {
                t
            }),
            all_digits(digits.subrange(0, i - start)),
            value as int == digits_value(digits.subrange(0, i - start)),
            value <= max,
        decreases n - i,
    {
        let c = s.get_char(i);
        if !('0' <= c && c <= '9') {
            assert(!('0' <= digits[i - start] <= '9'));
            return None;
        }
        assert(digits.subrange(0, i + 1 - start).drop_last() =~= digits.subrange(0, i - start));
        let d: u32 = (c as u32) - ('0' as u32);
        value = value * 10 + d;
        if value > max {
            proof {
                if all_digits(digits) {
                    lemma_digits_value_grows(digits, i + 1 - start, digits.len() as int, max as int);
                    assert(digits.subrange(0, digits.len() as int) =~= digits);
                }
            }
            return None;
        }
        i += 1;
    }
    assert(digits.subrange(0, n - start) =~= digits);
    Some(value)
}

/// The characters of `s` from index `from` to its end, read as a `u8` the
/// way `str::parse::<u8>` reads them.
pub fn parse_u8_from(s: &str, from: usize) -> (r: Option<u8>)
    requires
        from <= s@.len(),
    ensures
        r == parse_u8(s@.subrange(from as int, s@.len() as int)),
{
    match parse_decimal_from(s, from, 255) {
        Some(v) => Some(v as u8),
        None => None,
    }
}

/// The characters of `s` from index `from` to its end, read as a `u16` the
/// way `str::parse::<u16>` reads them.
pub fn parse_u16_from(s: &str, from: usize) -> (r: Option<u16>)
    requires
        from <= s@.len(),
    ensures
        r == parse_u16(s@.subrange(from as int, s@.len() as int)),
{
    match parse_decimal_from(s, from, 65535) {
        Some(v) => Some(v as u16),
        None => None,
    }
}

} // verus!
