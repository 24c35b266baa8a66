use vstd::prelude::*;

verus! {

use vstd::std_specs::iter::IteratorSpec;

broadcast use vstd::string::group_string_axioms;

// ---------------------------------------------------------------------------
// Characters of a string, and strings from characters.
// ---------------------------------------------------------------------------

/// Relies on std's String::push: appends one character to the string.
#[verifier::external_body]
pub fn push_char(s: &mut String, c: char)
    ensures
        final(s)@ == old(s)@.push(c),
{
    s.push(c);
}

/// What std's char::is_alphanumeric answers: a function of the character
/// alone (a large Unicode class, not restated here).
pub uninterp spec fn spec_alphanumeric(c: char) -> bool;

/// Relies on std's char::is_alphanumeric.
#[verifier::external_body]
pub fn char_is_alphanumeric(c: char) -> (r: bool)
    ensures
        r == spec_alphanumeric(c),
{
    c.is_alphanumeric()
}

/// The characters of `s`, as a vector.
pub fn chars_of(s: &str) -> (r: Vec<char>)
    ensures
        r@ == s@,
{
    let mut it = s.chars();
    let mut r: Vec<char> = Vec::new();
    loop
        invariant
            r@ + IteratorSpec::remaining(&it) == s@,
            it.obeys_prophetic_iter_laws(),
            IteratorSpec::decrease(&it) is Some,
        ensures
            r@ == s@,
        decreases IteratorSpec::decrease(&it)->0,
    {
        match it.next() {
            Some(c) => {
                r.push(c);
            },
            None => {
                proof {
                    assert(r@ =~= s@);
                }
                break;
            },
        }
    }
    r
}

/// The substring `v[from..to]`, as a fresh string.
pub fn string_from_range(v: &Vec<char>, from: usize, to: usize) -> (r: String)
    requires
        from <= to <= v@.len(),
    ensures
        r@ == v@.subrange(from as int, to as int),
{
    let mut r = String::new();
    let mut i: usize = from;
    while i < to
        invariant
            from <= i <= to <= v@.len(),
            r@ == v@.subrange(from as int, i as int),
        decreases to - i,
    {
        push_char(&mut r, v[i]);
        proof {
            assert(v@.subrange(from as int, i as int).push(v@[i as int]) =~= v@.subrange(
                from as int,
                i + 1 as int,
            ));
        }
        i = i + 1;
    }
    r
}

/// Are the characters of `v` exactly the characters of `s`?
pub fn chars_eq_str(v: &Vec<char>, s: &str) -> (r: bool)
    ensures
        r == (v@ == s@),
{
    let other = chars_of(s);
    if v.len() != other.len() {
        return false;
    }
    let mut i: usize = 0;
    while i < v.len()
        invariant
            i <= v@.len(),
            v@.len() == other@.len(),
            other@ == s@,
            forall|j: int| 0 <= j < i ==> v@[j] == other@[j],
        decreases v@.len() - i,
    {
        if v[i] != other[i] {
            return false;
        }
        i = i + 1;
    }
    proof {
        assert(v@ =~= s@);
    }
    true
}

/// Does `s` start with `p`?
pub open spec fn has_prefix(s: Seq<char>, p: Seq<char>) -> bool {
    p.len() <= s.len() && s.subrange(0, p.len() as int) == p
}

/// The characters after the prefix `p`, or None when `v` does not start
/// with it.
pub fn strip_prefix_chars(v: &Vec<char>, p: &str) -> (r: Option<Vec<char>>)
    ensures
        match r {
            Some(rest) => has_prefix(v@, p@) && rest@ == v@.skip(p@.len() as int),
            None => !has_prefix(v@, p@),
        },
{
    let prefix = chars_of(p);
    if prefix.len() > v.len() {
        return None;
    }
    let mut i: usize = 0;
    while i < prefix.len()
        invariant
            i <= prefix@.len() <= v@.len(),
            prefix@ == p@,
            forall|j: int| 0 <= j < i ==> v@[j] == prefix@[j],
        decreases prefix@.len() - i,
    {
        if v[i] != prefix[i] {
            proof {
                assert(v@.subrange(0, p@.len() as int)[i as int] == v@[i as int]);
            }
            return None;
        }
        i = i + 1;
    }
    let mut rest: Vec<char> = Vec::new();
    let mut k: usize = prefix.len();
    while k < v.len()
        invariant
            prefix@.len() <= k <= v@.len(),
            rest@ == v@.subrange(prefix@.len() as int, k as int),
        decreases v@.len() - k,
    {
        rest.push(v[k]);
        proof {
            assert(v@.subrange(prefix@.len() as int, k as int).push(v@[k as int]) =~= v@.subrange(
                prefix@.len() as int,
                k + 1 as int,
            ));
        }
        k = k + 1;
    }
    proof {
        assert(v@.subrange(0, p@.len() as int) =~= prefix@);
    }
    Some(rest)
}

// ---------------------------------------------------------------------------
// Decimal rendering.
// ---------------------------------------------------------------------------

/// The character of one decimal digit.
pub open spec fn dec_digit(d: nat) -> char {
    ((48 + (d % 10)) as u8) as char
}

/// The decimal digits of `n`, most significant first.
pub open spec fn dec_chars(n: nat) -> Seq<char>
    decreases n,
{
    if n < 10 {
        seq![dec_digit(n)]
    } else {
        dec_chars(n / 10).push(dec_digit(n % 10))
    }
}

/// The decimal rendering of a signed number: a minus sign, then the digits
/// of the magnitude.
pub open spec fn int_chars(n: int) -> Seq<char> {
    if n < 0 {
        seq!['-'] + dec_chars((-n) as nat)
    } else {
        dec_chars(n as nat)
    }
}

/// Appends the decimal digits of `n` to `out`.
pub fn push_u64(out: &mut String, n: u64)
    ensures
        final(out)@ == old(out)@ + dec_chars(n as nat),
    decreases n,
{
    if n >= 10 {
        push_u64(out, n / 10);
    }
    let d: u64 = n % 10;
    push_char(out, ((48 + d) as u8) as char);
    proof {
        if n >= 10 {
            assert((old(out)@ + dec_chars((n / 10) as nat)).push(dec_digit((n % 10) as nat))
                =~= old(out)@ + dec_chars((n / 10) as nat).push(dec_digit((n % 10) as nat)));
        } else {
            assert(old(out)@.push(dec_digit(n as nat)) =~= old(out)@ + seq![dec_digit(n as nat)]);
        }
    }
}

/// The decimal rendering of `n`.
pub fn u64_string(n: u64) -> (r: String)
    ensures
        r@ == dec_chars(n as nat),
{
    let mut r = String::new();
    push_u64(&mut r, n);
    proof {
        assert(Seq::<char>::empty() + dec_chars(n as nat) =~= dec_chars(n as nat));
    }
    r
}

/// Appends the decimal rendering of a signed number to `out`.
pub fn push_i64(out: &mut String, n: i64)
    ensures
        final(out)@ == old(out)@ + int_chars(n as int),
{
    if n < 0 {
        push_char(out, '-');
        let mag: u64 = (-(n as i128)) as u64;
        push_u64(out, mag);
        proof {
            assert(old(out)@.push('-') + dec_chars((-(n as int)) as nat) =~= old(out)@ + (seq!['-']
                + dec_chars((-(n as int)) as nat)));
        }
    } else {
        push_u64(out, n as u64);
    }
}

// ---------------------------------------------------------------------------
// Decimal parsing.
// ---------------------------------------------------------------------------

pub open spec fn is_dec_digit(c: char) -> bool {
    48 <= c as u32 <= 57
}

pub open spec fn all_dec_digits(s: Seq<char>) -> bool {
    forall|i: int| 0 <= i < s.len() ==> is_dec_digit(#[trigger] s[i])
}

/// The value of a digit string, most significant first.
pub open spec fn digits_val(s: Seq<char>) -> int
    decreases s.len(),
{
    if s.len() == 0 {
        0
    } else {
        digits_val(s.drop_last()) * 10 + (s.last() as u32 - 48)
    }
}

/// The number a string of decimal digits denotes, when it is one and fits
/// in a u32.
pub open spec fn spec_parse_u32(s: Seq<char>) -> Option<u32> {
    if s.len() == 0 || !all_dec_digits(s) {
        None
    } else if digits_val(s) > u32::MAX {
        None
    } else {
        Some(digits_val(s) as u32)
    }
}

pub proof fn lemma_digits_val_nonneg(s: Seq<char>)
    requires
        all_dec_digits(s),
    ensures
        digits_val(s) >= 0,
    decreases s.len(),
{
    if s.len() > 0 {
        lemma_digits_val_nonneg(s.drop_last());
    }
}

/// Appending digits never shrinks the value: any digit prefix denotes at
/// most what the whole denotes.
pub proof fn lemma_digits_val_take_le(s: Seq<char>, i: int)
    requires
        all_dec_digits(s),
        0 <= i <= s.len(),
    ensures
        digits_val(s.take(i)) <= digits_val(s),
    decreases s.len() - i,
{
    if i < s.len() {
        assert(s.take(i + 1).drop_last() =~= s.take(i));
        assert(s.take(i + 1).last() == s[i]);
        lemma_digits_val_nonneg(s.take(i));
        lemma_digits_val_take_le(s, i + 1);
    } else {
        assert(s.take(i) =~= s);
    }
}

/// Parses `v[from..to]` as a decimal u32, as std's parse would: at least
/// one digit, digits only, value within range.
pub fn parse_u32_range(v: &Vec<char>, from: usize, to: usize) -> (r: Option<u32>)
    requires
        from <= to <= v@.len(),
    ensures
        r == spec_parse_u32(v@.subrange(from as int, to as int)),
{
    if from == to {
        return None;
    }
    let mut acc: u64 = 0;
    let mut i: usize = from;
    while i < to
        invariant
            from <= i <= to <= v@.len(),
            all_dec_digits(v@.subrange(from as int, to as int).take(i - from)),
            acc as int == digits_val(v@.subrange(from as int, to as int).take(i - from)),
            acc <= u32::MAX,
        decreases to - i,
    {
        let ghost s = v@.subrange(from as int, to as int);
        let c = v[i];
        let cu = c as u32;
        if cu < 48 || cu > 57 {
            proof {
                assert(s[i - from] == v@[i as int]);
                assert(!is_dec_digit(s[i - from]));
            }
            return None;
        }
        let d: u64 = (cu - 48) as u64;
        let next: u64 = acc * 10 + d;
        proof {
            assert(s.take(i - from + 1).drop_last() =~= s.take(i - from));
            assert(s.take(i - from + 1).last() == v@[i as int]);
            assert forall|j: int| 0 <= j < i - from + 1 implies is_dec_digit(
                #[trigger] s.take(i - from + 1)[j],
            ) by {
                if j < i - from {
                    assert(s.take(i - from + 1)[j] == s.take(i - from)[j]);
                } else {
                    assert(s.take(i - from + 1)[j] == v@[i as int]);
                }
            }
        }
        if next > 0xFFFF_FFFF {
            proof {
                if all_dec_digits(s) {
                    lemma_digits_val_take_le(s, i - from + 1);
                }
            }
            return None;
        }
        acc = next;
        i = i + 1;
    }
    proof {
        let s = v@.subrange(from as int, to as int);
        assert(s.take(to - from) =~= s);
    }
    Some(acc as u32)
}

/// The i32 a digit string denotes, with an optional leading minus sign.
pub open spec fn spec_parse_i32(s: Seq<char>) -> Option<i32> {
    if s.len() > 0 && s[0] == '-' {
        match spec_parse_u32(s.skip(1)) {
            Some(m) => if m <= 2147483648u32 {
                Some((-(m as int)) as i32)
            } else {
                None
            },
            None => None,
        }
    } else {
        match spec_parse_u32(s) {
            Some(m) => if m <= 2147483647u32 {
                Some(m as i32)
            } else {
                None
            },
            None => None,
        }
    }
}

/// Parses `v[from..to]` as a decimal i32.
pub fn parse_i32_range(v: &Vec<char>, from: usize, to: usize) -> (r: Option<i32>)
    requires
        from <= to <= v@.len(),
    ensures
        r == spec_parse_i32(v@.subrange(from as int, to as int)),
{
    let ghost s = v@.subrange(from as int, to as int);
    if from < to && v[from] == '-' {
        proof {
            assert(s.skip(1) =~= v@.subrange(from + 1 as int, to as int));
        }
        match parse_u32_range(v, from + 1, to) {
            Some(m) => if m <= 2147483648u32 {
                if m == 2147483648u32 {
                    Some(i32::MIN)
                } else {
                    Some(-(m as i32))
                }
            } else {
                None
            },
            None => None,
        }
    } else {
        match parse_u32_range(v, from, to) {
            Some(m) => if m <= 2147483647u32 {
                Some(m as i32)
            } else {
                None
            },
            None => None,
        }
    }
}

/// The u16 a digit string denotes.
pub open spec fn spec_parse_u16(s: Seq<char>) -> Option<u16> {
    match spec_parse_u32(s) {
        Some(m) => if m <= 65535u32 {
            Some(m as u16)
        } else {
            None
        },
        None => None,
    }
}

/// Parses `v[from..to]` as a decimal u16.
pub fn parse_u16_range(v: &Vec<char>, from: usize, to: usize) -> (r: Option<u16>)
    requires
        from <= to <= v@.len(),
    ensures
        r == spec_parse_u16(v@.subrange(from as int, to as int)),
{
    match parse_u32_range(v, from, to) {
        Some(m) => if m <= 65535u32 {
            Some(m as u16)
        } else {
            None
        },
        None => None,
    }
}

// ---------------------------------------------------------------------------
// Splitting on a separator.
// ---------------------------------------------------------------------------

/// The parts of `s` split on `sep`, as std's split yields them: an empty
/// string has one empty part, and each separator opens a new part.
pub open spec fn split_on(s: Seq<char>, sep: char) -> Seq<Seq<char>>
    decreases s.len(),
{
    if s.len() == 0 {
        seq![Seq::<char>::empty()]
    } else if s.last() == sep {
        split_on(s.drop_last(), sep).push(Seq::<char>::empty())
    } else {
        let rest = split_on(s.drop_last(), sep);
        rest.update(rest.len() - 1, rest.last().push(s.last()))
    }
}

/// Splits the characters of `v` on `sep`.
pub fn split_chars(v: &Vec<char>, sep: char) -> (r: Vec<Vec<char>>)
    ensures
        r@.len() == split_on(v@, sep).len(),
        forall|j: int| 0 <= j < r@.len() ==> #[trigger] r@[j]@ == split_on(v@, sep)[j],
{
    let mut r: Vec<Vec<char>> = Vec::new();
    r.push(Vec::new());
    let mut i: usize = 0;
    while i < v.len()
        invariant
            i <= v@.len(),
            r@.len() == split_on(v@.take(i as int), sep).len(),
            r@.len() >= 1,
            forall|j: int|
                0 <= j < r@.len() ==> #[trigger] r@[j]@ == split_on(v@.take(i as int), sep)[j],
        decreases v@.len() - i,
    {
        let ghost prev = split_on(v@.take(i as int), sep);
        proof {
            assert(v@.take(i + 1 as int).drop_last() =~= v@.take(i as int));
            assert(v@.take(i + 1 as int).last() == v@[i as int]);
        }
        let c = v[i];
        if c == sep {
            r.push(Vec::new());
        } else {
            let last_idx = r.len() - 1;
            let mut tail = match r.pop() {
                Some(t) => t,
                None => Vec::new(),
            };
            tail.push(c);
            r.push(tail);
            proof {
                let cur = split_on(v@.take(i + 1 as int), sep);
                assert(cur == prev.update(prev.len() - 1, prev.last().push(c)));
                assert forall|j: int| 0 <= j < r@.len() implies #[trigger] r@[j]@ == cur[j] by {
                    if j < last_idx {
                        assert(r@[j]@ == prev[j]);
                    }
                }
            }
        }
        i = i + 1;
    }
    proof {
        assert(v@.take(v@.len() as int) =~= v@);
    }
    r
}

} // verus!
