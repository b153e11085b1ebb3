//! Text helpers: conversions between strings and character vectors, and
//! decimal numbers written and read as text.
//!
//! Every contract here speaks of a string through its view, the sequence of
//! its characters.
use vstd::prelude::*;

verus! {

/// `String::push` appends one character to the string.
pub assume_specification[ String::push ](s: &mut String, c: char)
    ensures
        final(s)@ == old(s)@.push(c),
;

/// What `str::to_lowercase` returns for a text.
pub uninterp spec fn spec_lowercase(s: Seq<char>) -> Seq<char>;

/// A character with an upper case ASCII letter replaced by its lower case
/// letter.
pub open spec fn ascii_lower_char(c: char) -> char {
    if 'A' <= c <= 'Z' {
        ((c as u8) + 32u8) as char
    } else {
        c
    }
}

/// A text with every upper case ASCII letter replaced by its lower case
/// letter.
pub open spec fn ascii_lower(s: Seq<char>) -> Seq<char> {
    Seq::new(s.len(), |i: int| ascii_lower_char(s[i]))
}

/// True when every character is in the ASCII range.
pub open spec fn all_ascii(s: Seq<char>) -> bool {
    forall|i: int| 0 <= i < s.len() ==> (#[trigger] s[i] as u32) < 128
}

/// The lower case form of a text: for a text of ASCII characters its upper
/// case letters replaced, for any other text what `str::to_lowercase` gives.
pub open spec fn lowercase(s: Seq<char>) -> Seq<char> {
    if all_ascii(s) {
        ascii_lower(s)
    } else {
        spec_lowercase(s)
    }
}

/// Calls `str::to_lowercase`. The result depends on the text alone and is
/// named by `spec_lowercase`.
#[verifier::external_body]
fn unicode_lowercase(s: &str) -> (r: String)
    ensures
        r@ == spec_lowercase(s@),
{
    s.to_lowercase()
}

/// The lower case form of a text.
pub(crate) fn to_lowercase(s: &str) -> (r: String)
    ensures
        r@ == lowercase(s@),
{
    let v = str_to_chars(s);
    let mut lower: Vec<char> = Vec::new();
    let mut i: usize = 0;
    while i < v.len()
        invariant
            i <= v.len(),
            v@ == s@,
            lower@.len() == i,
            forall|k: int| 0 <= k < i ==> (#[trigger] v@[k] as u32) < 128,
            forall|k: int| 0 <= k < i ==> #[trigger] lower@[k] == ascii_lower_char(v@[k]),
        decreases v.len() - i,
    {
        let c = v[i];
        if c as u32 >= 128 {
            return unicode_lowercase(s);
        }
        let l = if 'A' <= c && c <= 'Z' {
            ((c as u8) + 32u8) as char
        } else {
            c
        };
        lower.push(l);
        i += 1;
    }
    proof {
        assert(lower@ =~= ascii_lower(s@));
    }
    let r = chars_to_string(&lower, 0, lower.len());
    proof {
        assert(lower@.subrange(0, lower@.len() as int) =~= lower@);
    }
    r
}

/// The characters of a string, in order.
pub fn str_to_chars(s: &str) -> (v: Vec<char>)
    ensures
        v@ == s@,
{
    let mut v: Vec<char> = Vec::new();
    for c in it: s.chars()
        invariant
            v@ == it.seq().take(it.index() as int),
            it.seq() == s@,
    {
        v.push(c);
    }
    v
}

/// The string made of the characters `v[from..to]`.
pub fn chars_to_string(v: &Vec<char>, from: usize, to: usize) -> (s: String)
    requires
        from <= to <= v.len(),
    ensures
        s@ == v@.subrange(from as int, to as int),
{
    let mut s = String::new();
    let mut i: usize = from;
    while i < to
        invariant
            from <= i <= to <= v.len(),
            s@ == v@.subrange(from as int, i as int),
        decreases to - i,
    {
        s.push(v[i]);
        assert(v@.subrange(from as int, i as int).push(v@[i as int]) =~= v@.subrange(
            from as int,
            i + 1,
        ));
        i += 1;
    }
    s
}

/// The code of a character is at most 0x10FFFF.
pub proof fn lemma_char_range(c: char)
    ensures
        0 <= (c as int) <= 0x10FFFF,
        c as u32 == c as int,
{
}

/// The character at a position of a vector.
pub fn char_at(v: &Vec<char>, i: usize) -> (c: char)
    requires
        i < v.len(),
    ensures
        c == v@[i as int],
        (c as int) <= 0x10FFFF,
{
    let c = v[i];
    proof {
        lemma_char_range(c);
    }
    c
}

/// Whether two texts hold the same characters.
pub fn same_str(a: &str, b: &str) -> (r: bool)
    ensures
        r == (a@ == b@),
{
    a.to_owned() == b.to_owned()
}

/// True for the ten decimal digits.
pub open spec fn is_digit(c: char) -> bool {
    '0' <= c <= '9'
}

/// The number a decimal digit stands for.
pub open spec fn digit_value(c: char) -> int {
    c as int - 48
}

/// The digit that stands for a number below ten.
pub open spec fn digit_of(d: int) -> char {
    ((48 + d) as u8) as char
}

/// True when the text consists of decimal digits only.
pub open spec fn all_digits(s: Seq<char>) -> bool {
    forall|i: int| 0 <= i < s.len() ==> is_digit(#[trigger] s[i])
}

/// The number that a text of decimal digits denotes; zero for the empty text.
pub open spec fn digits_value(s: Seq<char>) -> int
    decreases s.len(),
{
    if s.len() == 0 {
        0
    } else {
        digits_value(s.drop_last()) * 10 + digit_value(s.last())
    }
}

/// The decimal digits of a natural number, without leading zeros.
pub open spec fn decimal_digits(n: nat) -> Seq<char>
    decreases n,
{
    if n < 10 {
        seq![digit_of(n as int)]
    } else {
        decimal_digits(n / 10).push(digit_of((n % 10) as int))
    }
}

/// The decimal text of an integer: a minus sign for a negative number, then
/// its digits.
pub open spec fn decimal_text(i: int) -> Seq<char> {
    if i < 0 {
        seq!['-'] + decimal_digits((-i) as nat)
    } else {
        decimal_digits(i as nat)
    }
}

/// The number that a signed decimal text denotes: an optional `+` or `-`,
/// then at least one digit and nothing else. `None` for any other text.
pub open spec fn signed_decimal_value(s: Seq<char>) -> Option<int> {
    if s.len() > 0 && (s[0] == '+' || s[0] == '-') {
        let body = s.skip(1);
        if body.len() > 0 && all_digits(body) {
            if s[0] == '-' {
                Some(-digits_value(body))
            } else {
                Some(digits_value(body))
            }
        } else {
            None
        }
    } else if s.len() > 0 && all_digits(s) {
        Some(digits_value(s))
    } else {
        None
    }
}

/// What parsing a text as `i32` gives: its signed decimal value where that
/// fits the type.
pub open spec fn spec_parse_i32(s: Seq<char>) -> Option<i32> {
    match signed_decimal_value(s) {
        Some(v) => if i32::MIN <= v <= i32::MAX {
            Some(v as i32)
        } else {
            None
        },
        None => None,
    }
}

/// What parsing a text as `u32` gives: an optional `+`, then digits whose
/// value fits the type. A minus sign is not accepted.
pub open spec fn spec_parse_u32(s: Seq<char>) -> Option<u32> {
    if s.len() > 0 && s[0] == '-' {
        None
    } else {
        match signed_decimal_value(s) {
            Some(v) => if v <= u32::MAX {
                Some(v as u32)
            } else {
                None
            },
            None => None,
        }
    }
}

/// Digits denote a number that is not negative, and a longer text of digits
/// never denotes less than its beginning.
pub proof fn lemma_digits_value_bounds(s: Seq<char>)
    requires
        all_digits(s),
    ensures
        digits_value(s) >= 0,
        s.len() > 0 ==> digits_value(s) >= digits_value(s.drop_last()),
    decreases s.len(),
{
    if s.len() > 0 {
        assert(all_digits(s.drop_last())) by {
            assert forall|i: int| 0 <= i < s.drop_last().len() implies is_digit(
                #[trigger] s.drop_last()[i],
            ) by {
                assert(s.drop_last()[i] == s[i]);
            }
        }
        lemma_digits_value_bounds(s.drop_last());
        assert(is_digit(s.last()));
    }
}

/// The decimal digits of a number are digits, at least one, and denote the
/// number.
pub proof fn lemma_decimal_digits(n: nat)
    ensures
        decimal_digits(n).len() > 0,
        all_digits(decimal_digits(n)),
        digits_value(decimal_digits(n)) == n,
    decreases n,
{
    if n < 10 {
        let s = decimal_digits(n);
        assert(s.len() == 1);
        assert(s[0] == digit_of(n as int));
        assert(s.drop_last().len() == 0);
        assert(digits_value(s.drop_last()) == 0);
        assert(digits_value(s) == digits_value(s.drop_last()) * 10 + digit_value(s.last()));
    } else {
        lemma_decimal_digits(n / 10);
        let p = decimal_digits(n / 10);
        let s = decimal_digits(n);
        assert(s == p.push(digit_of((n % 10) as int)));
        assert(s.drop_last() =~= p);
        assert(s.last() == digit_of((n % 10) as int));
        assert forall|i: int| 0 <= i < s.len() implies is_digit(#[trigger] s[i]) by {
            if i < p.len() {
                assert(s[i] == p[i]);
            }
        }
    }
}

/// Reading the decimal text of an integer gives the integer back.
pub proof fn lemma_decimal_text_round_trip(i: int)
    ensures
        signed_decimal_value(decimal_text(i)) == Some(i),
{
    if i < 0 {
        let d = decimal_digits((-i) as nat);
        lemma_decimal_digits((-i) as nat);
        let s = decimal_text(i);
        assert(s.skip(1) =~= d);
        assert(s[0] == '-');
    } else {
        lemma_decimal_digits(i as nat);
        let s = decimal_text(i);
        assert(is_digit(s[0]));
    }
}

/// Appends the decimal digits of `n` to `out`.
pub fn push_decimal(n: u64, out: &mut Vec<char>)
    ensures
        final(out)@ == old(out)@ + decimal_digits(n as nat),
    decreases n,
{
    if n >= 10 {
        push_decimal(n / 10, out);
    }
    let d: u8 = (n % 10) as u8;
    out.push((48u8 + d) as char);
    proof {
        if n >= 10 {
            assert(final(out)@ =~= old(out)@ + decimal_digits(n as nat));
        } else {
            assert(final(out)@ =~= old(out)@ + decimal_digits(n as nat));
        }
    }
}

/// The decimal text of an unsigned number.
pub fn u64_to_string(n: u64) -> (s: String)
    ensures
        s@ == decimal_text(n as int),
{
    let mut v: Vec<char> = Vec::new();
    push_decimal(n, &mut v);
    let s = chars_to_string(&v, 0, v.len());
    assert(v@.subrange(0, v@.len() as int) =~= v@);
    assert(v@ =~= decimal_digits(n as nat));
    s
}

/// The decimal text of a signed number.
pub fn i64_to_string(i: i64) -> (s: String)
    ensures
        s@ == decimal_text(i as int),
{
    let mut v: Vec<char> = Vec::new();
    if i < 0 {
        v.push('-');
        let m: u64 = if i == i64::MIN {
            9223372036854775808u64
        } else {
            (-i) as u64
        };
        push_decimal(m, &mut v);
        assert(v@ =~= seq!['-'] + decimal_digits((-i) as nat));
    } else {
        push_decimal(i as u64, &mut v);
        assert(v@ =~= decimal_digits(i as nat));
    }
    let s = chars_to_string(&v, 0, v.len());
    assert(v@.subrange(0, v@.len() as int) =~= v@);
    s
}

/// Reads the digits in `v[from..to]`. Returns their value, or `None` when a
/// character is no digit or the value exceeds `limit`.
pub fn read_digits(v: &Vec<char>, from: usize, to: usize, limit: u64) -> (r: Option<u64>)
    requires
        from <= to <= v.len(),
        limit <= 0x1_0000_0000_0000,
    ensures
        r is Some <==> all_digits(v@.subrange(from as int, to as int)) && digits_value(
            v@.subrange(from as int, to as int),
        ) <= limit,
        r is Some ==> r->0 == digits_value(v@.subrange(from as int, to as int)),
{
    let mut value: u64 = 0;
    let mut i: usize = from;
    while i < to
        invariant
            from <= i <= to <= v.len(),
            limit <= 0x1_0000_0000_0000,
            all_digits(v@.subrange(from as int, i as int)),
            value == digits_value(v@.subrange(from as int, i as int)),
            value <= limit,
        decreases to - i,
    {
        let c = v[i];
        let ghost before = v@.subrange(from as int, i as int);
        let ghost after = v@.subrange(from as int, i + 1);
        let ghost whole = v@.subrange(from as int, to as int);
        proof {
            assert(after.drop_last() =~= before);
            assert(after.last() == c);
            assert(whole[i - from] == c);
        }
        if !(c >= '0' && c <= '9') {
            return None;
        }
        let d: u64 = (c as u32 - 48) as u64;
        proof {
            assert forall|k: int| 0 <= k < after.len() implies is_digit(#[trigger] after[k]) by {
                if k < before.len() {
                    assert(after[k] == before[k]);
                }
            }
        }
        if value * 10 + d > limit {
            proof {
                if all_digits(whole) {
                    lemma_digits_prefix_le(whole, i + 1 - from);
                    assert(whole.take(i + 1 - from) =~= after);
                }
            }
            return None;
        }
        value = value * 10 + d;
        i += 1;
    }
    Some(value)
}

/// The value of a beginning of a text of digits is at most the value of the
/// whole text.
pub proof fn lemma_digits_prefix_le(s: Seq<char>, n: int)
    requires
        all_digits(s),
        0 <= n <= s.len(),
    ensures
        digits_value(s.take(n)) <= digits_value(s),
    decreases s.len() - n,
{
    if n == s.len() {
        assert(s.take(n) =~= s);
    } else {
        lemma_digits_prefix_le(s, n + 1);
        let t = s.take(n + 1);
        assert(t.drop_last() =~= s.take(n));
        assert(all_digits(t)) by {
            assert forall|i: int| 0 <= i < t.len() implies is_digit(#[trigger] t[i]) by {
                assert(t[i] == s[i]);
            }
        }
        lemma_digits_value_bounds(t);
    }
}

/// Reads a whole text as a signed decimal number of at most `limit` in
/// absolute value on the positive side and `limit + 1` on the negative side.
fn read_signed(v: &Vec<char>, limit: u64) -> (r: Option<i64>)
    requires
        limit < 0x1_0000_0000_0000,
    ensures
        r is Some <==> (signed_decimal_value(v@) matches Some(x) && -(limit + 1) <= x <= limit),
        r is Some ==> signed_decimal_value(v@) == Some(r->0 as int),
{
    let n = v.len();
    if n == 0 {
        return None;
    }
    let first = v[0];
    let signed = first == '+' || first == '-';
    let start: usize = if signed {
        1
    } else {
        0
    };
    if start == n {
        return None;
    }
    proof {
        if signed {
            assert(v@.skip(1) =~= v@.subrange(1, n as int));
        } else {
            assert(v@ =~= v@.subrange(0, n as int));
        }
    }
    let negative = first == '-';
    let bound: u64 = if negative {
        limit + 1
    } else {
        limit
    };
    match read_digits(v, start, n, bound) {
        Some(m) => {
            if negative {
                Some(-(m as i64))
            } else {
                Some(m as i64)
            }
        },
        None => {
            proof {
                if all_digits(v@.subrange(start as int, n as int)) {
                    lemma_digits_value_bounds(v@.subrange(start as int, n as int));
                }
            }
            None
        },
    }
}

/// Reads a text as `i32`, as `str::parse::<i32>` does.
pub fn parse_i32(s: &str) -> (r: Option<i32>)
    ensures
        r == spec_parse_i32(s@),
{
    let v = str_to_chars(s);
    match read_signed(&v, 0x7fff_ffff) {
        Some(x) => Some(x as i32),
        None => None,
    }
}

/// Reads a text as `u32`, as `str::parse::<u32>` does.
pub fn parse_u32(s: &str) -> (r: Option<u32>)
    ensures
        r == spec_parse_u32(s@),
{
    let v = str_to_chars(s);
    if v.len() > 0 && v[0] == '-' {
        return None;
    }
    match read_signed(&v, 0xffff_ffff) {
        Some(x) => {
            proof {
                if v@.len() > 0 && (v@[0] == '+') {
                    if all_digits(v@.skip(1)) {
                        lemma_digits_value_bounds(v@.skip(1));
                    }
                } else if all_digits(v@) {
                    lemma_digits_value_bounds(v@);
                }
            }
            Some(x as u32)
        },
        None => {
            proof {
                if signed_decimal_value(v@) is Some {
                    if v@[0] == '+' {
                        lemma_digits_value_bounds(v@.skip(1));
                    } else {
                        lemma_digits_value_bounds(v@);
                    }
                }
            }
            None
        },
    }
}

} // verus!
