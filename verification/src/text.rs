//! Text as sequences of characters: searching, splitting and number formats.

use vstd::prelude::*;
use vstd::utf8::encode_utf8;
use crate::util::NumberError;

verus! {

/// `String::push` appends the character to the end of the string.
pub assume_specification[ String::push ](s: &mut String, c: char)
    ensures
        final(s)@ == old(s)@.push(c),
;

/// The index of the first `x` in `s`.
pub open spec fn position<T>(s: Seq<T>, x: T) -> Option<int>
    decreases s.len(),
{
    if s.len() == 0 {
        None
    } else if s[0] == x {
        Some(0)
    } else {
        match position(s.drop_first(), x) {
            Some(i) => Some(i + 1),
            None => None,
        }
    }
}

/// The index of the last `x` in `s`.
pub open spec fn last_position<T>(s: Seq<T>, x: T) -> Option<int>
    decreases s.len(),
{
    if s.len() == 0 {
        None
    } else if s.last() == x {
        Some(s.len() - 1)
    } else {
        last_position(s.drop_last(), x)
    }
}

/// What stands before and after the first `x` in `s`.
pub open spec fn split_once<T>(s: Seq<T>, x: T) -> Option<(Seq<T>, Seq<T>)> {
    match position(s, x) {
        Some(i) => Some((s.take(i), s.skip(i + 1))),
        None => None,
    }
}

/// What follows the last `x` in `s`; all of `s` where it holds no `x`.
pub open spec fn after_last<T>(s: Seq<T>, x: T) -> Seq<T> {
    match last_position(s, x) {
        Some(i) => s.skip(i + 1),
        None => s,
    }
}

/// `s` without its items equal to `x`.
pub open spec fn without<T>(s: Seq<T>, x: T) -> Seq<T>
    decreases s.len(),
{
    if s.len() == 0 {
        s
    } else if s.last() == x {
        without(s.drop_last(), x)
    } else {
        without(s.drop_last(), x).push(s.last())
    }
}

/// `pattern` occurs in `s` as a run of neighbouring items.
pub open spec fn contains_run<T>(s: Seq<T>, pattern: Seq<T>) -> bool {
    exists|i: int| occurs_at(s, pattern, i)
}

/// `pattern` occurs in `s` from index `i` on.
pub open spec fn occurs_at<T>(s: Seq<T>, pattern: Seq<T>, i: int) -> bool {
    0 <= i && i + pattern.len() <= s.len() && s.subrange(i, i + pattern.len()) == pattern
}

/// `position` finds the first occurrence and nothing else.
pub proof fn lemma_position<T>(s: Seq<T>, x: T)
    ensures
        match position(s, x) {
            Some(i) => 0 <= i < s.len() && s[i] == x && forall|j: int| 0 <= j < i ==> s[j] != x,
            None => forall|j: int| 0 <= j < s.len() ==> s[j] != x,
        },
    decreases s.len(),
{
    if s.len() > 0 && s[0] != x {
        let t = s.drop_first();
        lemma_position(t, x);
        match position(t, x) {
            Some(i) => {
                assert forall|j: int| 0 <= j < i + 1 implies s[j] != x by {
                    if j > 0 {
                        assert(s[j] == t[j - 1]);
                    }
                }
            },
            None => {
                assert forall|j: int| 0 <= j < s.len() implies s[j] != x by {
                    if j > 0 {
                        assert(s[j] == t[j - 1]);
                    }
                }
            },
        }
    }
}

/// An index that holds `x` with no `x` before it is the one `position` gives.
pub proof fn lemma_position_is<T>(s: Seq<T>, x: T, i: int)
    requires
        0 <= i < s.len(),
        s[i] == x,
        forall|j: int| 0 <= j < i ==> s[j] != x,
    ensures
        position(s, x) == Some(i),
{
    lemma_position(s, x);
}

/// Where no item is `x`, `position` gives nothing.
pub proof fn lemma_position_none<T>(s: Seq<T>, x: T)
    requires
        forall|j: int| 0 <= j < s.len() ==> s[j] != x,
    ensures
        position(s, x) is None,
{
    lemma_position(s, x);
}

/// `last_position` finds the last occurrence and nothing else.
pub proof fn lemma_last_position<T>(s: Seq<T>, x: T)
    ensures
        match last_position(s, x) {
            Some(i) => 0 <= i < s.len() && s[i] == x && forall|j: int|
                i < j < s.len() ==> s[j] != x,
            None => forall|j: int| 0 <= j < s.len() ==> s[j] != x,
        },
    decreases s.len(),
{
    if s.len() > 0 && s.last() != x {
        let t = s.drop_last();
        lemma_last_position(t, x);
        match last_position(t, x) {
            Some(i) => {
                assert forall|j: int| i < j < s.len() implies s[j] != x by {
                    if j < s.len() - 1 {
                        assert(s[j] == t[j]);
                    }
                }
            },
            None => {
                assert forall|j: int| 0 <= j < s.len() implies s[j] != x by {
                    if j < s.len() - 1 {
                        assert(s[j] == t[j]);
                    }
                }
            },
        }
    }
}

/// The characters of a string, one by one.
pub fn chars_of(s: &str) -> (v: Vec<char>)
    ensures
        v@ == s@,
{
    let mut v: Vec<char> = Vec::new();
    for c in it: s.chars()
        invariant
            v@ == it.seq().take(it.index() as int),
            it.seq() == s@,
    {
        v.push(c);
    }
    v
}

/// The string made of the given characters.
pub fn string_of(v: &[char]) -> (s: String)
    ensures
        s@ == v@,
{
    let mut s = String::new();
    let mut i: usize = 0;
    while i < v.len()
        invariant
            i <= v.len(),
            s@ == v@.take(i as int),
        decreases v.len() - i,
    {
        s.push(v[i]);
        i += 1;
    }
    s
}

/// Finds the first `x` among the characters from `from` up to `to`.
pub fn find_in(s: &[char], from: usize, to: usize, x: char) -> (r: Option<usize>)
    requires
        from <= to <= s.len(),
    ensures
        match r {
            Some(i) => position(s@.subrange(from as int, to as int), x) == Some(i - from),
            None => position(s@.subrange(from as int, to as int), x) is None,
        },
        r matches Some(i) ==> from <= i < to,
{
    let ghost t = s@.subrange(from as int, to as int);
    let mut i: usize = from;
    while i < to
        invariant
            from <= i <= to <= s.len(),
            t == s@.subrange(from as int, to as int),
            forall|j: int| 0 <= j < i - from ==> t[j] != x,
        decreases to - i,
    {
        if s[i] == x {
            proof {
                lemma_position_is(t, x, i - from);
            }
            return Some(i);
        }
        i += 1;
    }
    proof {
        lemma_position_none(t, x);
    }
    None
}

/// Finds the first `x`.
pub fn find(s: &[char], x: char) -> (r: Option<usize>)
    ensures
        match r {
            Some(i) => position(s@, x) == Some(i as int),
            None => position(s@, x) is None,
        },
        r matches Some(i) ==> i < s.len(),
{
    assert(s@.subrange(0, s.len() as int) == s@);
    find_in(s, 0, s.len(), x)
}

/// Finds the last `x`.
pub fn find_last(s: &[char], x: char) -> (r: Option<usize>)
    ensures
        match r {
            Some(i) => last_position(s@, x) == Some(i as int),
            None => last_position(s@, x) is None,
        },
        r matches Some(i) ==> i < s.len(),
{
    let mut i: usize = s.len();
    while i > 0
        invariant
            i <= s.len(),
            forall|j: int| i <= j < s.len() ==> s@[j] != x,
        decreases i,
    {
        i -= 1;
        if s[i] == x {
            proof {
                lemma_last_position(s@, x);
            }
            return Some(i);
        }
    }
    proof {
        lemma_last_position(s@, x);
    }
    None
}

/// Copies the characters from `from` up to `to`.
pub fn copy_range(s: &[char], from: usize, to: usize) -> (v: Vec<char>)
    requires
        from <= to <= s.len(),
    ensures
        v@ == s@.subrange(from as int, to as int),
{
    let mut v: Vec<char> = Vec::new();
    let mut i: usize = from;
    while i < to
        invariant
            from <= i <= to <= s.len(),
            v@ == s@.subrange(from as int, i as int),
        decreases to - i,
    {
        v.push(s[i]);
        i += 1;
    }
    v
}

/// Copies the characters from `from` up to `to`, leaving out each `x`.
pub fn copy_range_without(s: &[char], from: usize, to: usize, x: char) -> (v: Vec<char>)
    requires
        from <= to <= s.len(),
    ensures
        v@ == without(s@.subrange(from as int, to as int), x),
{
    let mut v: Vec<char> = Vec::new();
    let mut i: usize = from;
    while i < to
        invariant
            from <= i <= to <= s.len(),
            v@ == without(s@.subrange(from as int, i as int), x),
        decreases to - i,
    {
        proof {
            let next = s@.subrange(from as int, i + 1);
            assert(next.drop_last() == s@.subrange(from as int, i as int));
            assert(next.last() == s@[i as int]);
        }
        if s[i] != x {
            v.push(s[i]);
        }
        i += 1;
    }
    v
}

/// Appends the characters of `tail` to `v`.
pub fn append_chars(v: &mut Vec<char>, tail: &[char])
    ensures
        final(v)@ == old(v)@ + tail@,
{
    let mut i: usize = 0;
    while i < tail.len()
        invariant
            i <= tail.len(),
            v@ == old(v)@ + tail@.take(i as int),
        decreases tail.len() - i,
    {
        v.push(tail[i]);
        i += 1;
    }
}

/// Appends the characters of the string `tail` to `v`.
pub fn append_str(v: &mut Vec<char>, tail: &str)
    ensures
        final(v)@ == old(v)@ + tail@,
{
    let chars = chars_of(tail);
    append_chars(v, chars.as_slice());
}

/// Tells whether two runs of characters are the same.
pub fn same_chars(a: &[char], b: &[char]) -> (r: bool)
    ensures
        r == (a@ == b@),
{
    if a.len() != b.len() {
        return false;
    }
    let mut i: usize = 0;
    while i < a.len()
        invariant
            i <= a.len(),
            a.len() == b.len(),
            a@.take(i as int) == b@.take(i as int),
        decreases a.len() - i,
    {
        if a[i] != b[i] {
            return false;
        }
        proof {
            assert(a@.take(i + 1) == a@.take(i as int).push(a@[i as int]));
            assert(b@.take(i + 1) == b@.take(i as int).push(b@[i as int]));
        }
        i += 1;
    }
    proof {
        assert(a@.take(a.len() as int) == a@);
        assert(b@.take(b.len() as int) == b@);
    }
    true
}

/// Tells whether `pattern` occurs in `s`.
pub fn contains_chars(s: &[char], pattern: &[char]) -> (r: bool)
    ensures
        r == contains_run(s@, pattern@),
{
    if pattern.len() > s.len() {
        return false;
    }
    let last: usize = s.len() - pattern.len();
    let mut i: usize = 0;
    while i <= last
        invariant
            i <= last + 1,
            last == s.len() - pattern.len(),
            forall|k: int| 0 <= k < i ==> !occurs_at(s@, pattern@, k),
        decreases last + 1 - i,
    {
        let mut j: usize = 0;
        while j < pattern.len() && s[i + j] == pattern[j]
            invariant
                i <= last,
                last == s.len() - pattern.len(),
                j <= pattern.len(),
                s@.subrange(i as int, i + j) == pattern@.take(j as int),
            decreases pattern.len() - j,
        {
            proof {
                assert(s@.subrange(i as int, i + j + 1) == s@.subrange(i as int, i + j).push(
                    s@[i + j],
                ));
                assert(pattern@.take(j + 1) == pattern@.take(j as int).push(pattern@[j as int]));
            }
            j += 1;
        }
        if j == pattern.len() {
            proof {
                assert(pattern@.take(j as int) == pattern@);
                assert(occurs_at(s@, pattern@, i as int));
            }
            return true;
        }
        proof {
            let whole = s@.subrange(i as int, i + pattern.len());
            assert(whole[j as int] == s@[i + j]);
        }
        i += 1;
    }
    false
}

/// A line without the carriage return that ended it.
pub open spec fn strip_cr(line: Seq<char>) -> Seq<char> {
    if line.len() > 0 && line.last() == '\r' {
        line.drop_last()
    } else {
        line
    }
}

/// The lines of a text. A newline ends a line, and a carriage return just
/// before it belongs to the line ending; the last line needs no ending.
pub open spec fn lines(s: Seq<char>) -> Seq<Seq<char>>
    decreases s.len(),
{
    if s.len() == 0 {
        Seq::empty()
    } else {
        match position(s, '\n') {
            Some(i) => if 0 <= i < s.len() {
                seq![strip_cr(s.take(i))] + lines(s.skip(i + 1))
            } else {
                seq![s]
            },
            None => seq![s],
        }
    }
}

/// Parts a text into its lines.
pub fn split_lines(s: &[char]) -> (out: Vec<Vec<char>>)
    ensures
        out.deep_view() == lines(s@),
{
    let mut out: Vec<Vec<char>> = Vec::new();
    let mut pos: usize = 0;
    proof {
        assert(s@.skip(0) == s@);
    }
    while pos < s.len()
        invariant
            pos <= s.len(),
            lines(s@) == out.deep_view() + lines(s@.skip(pos as int)),
        decreases s.len() - pos,
    {
        let ghost rest = s@.skip(pos as int);
        let ghost before = out.deep_view();
        proof {
            assert(rest == s@.subrange(pos as int, s.len() as int));
        }
        match find_in(s, pos, s.len(), '\n') {
            Some(end) => {
                let stop = if end > pos && s[end - 1] == '\r' {
                    end - 1
                } else {
                    end
                };
                let line = copy_range(s, pos, stop);
                proof {
                    let raw = rest.take(end - pos);
                    assert(raw == s@.subrange(pos as int, end as int));
                    if end > pos {
                        assert(raw.last() == s@[end - 1]);
                    }
                    assert(strip_cr(raw) == line@);
                    assert(rest.skip(end - pos + 1) == s@.skip(end + 1));
                }
                assert(line.deep_view() =~= line@);
                out.push(line);
                assert(out.deep_view() =~= before.push(line@));
                pos = end + 1;
            },
            None => {
                let line = copy_range(s, pos, s.len());
                assert(line.deep_view() =~= line@);
                out.push(line);
                assert(out.deep_view() =~= before.push(line@));
                pos = s.len();
                assert(lines(s@.skip(pos as int)) == Seq::<Seq<char>>::empty());
            },
        }
    }
    out
}

/// Tells whether two strings hold the same characters.
pub fn same_str(a: &str, b: &str) -> (r: bool)
    ensures
        r == (a@ == b@),
{
    let left = chars_of(a);
    let right = chars_of(b);
    same_chars(left.as_slice(), right.as_slice())
}

/// The character for one digit of a number in a base up to sixteen, with small
/// letters for the digits from ten on.
pub open spec fn digit_char(d: nat) -> char {
    if d < 10 {
        ((d + 48) as u8) as char
    } else {
        ((d + 87) as u8) as char
    }
}

/// The digits of `n` in the base `base`, the most significant first; one
/// digit `0` for zero.
pub open spec fn digits(n: nat, base: nat) -> Seq<char>
    recommends
        2 <= base <= 16,
    decreases n,
{
    if n < base || base < 2 {
        seq![digit_char(n)]
    } else {
        proof {
            assert(n / base < n) by (nonlinear_arith)
                requires
                    n >= base,
                    base >= 2,
            ;
        }
        digits(n / base, base).push(digit_char(n % base))
    }
}

/// `n` in decimal digits.
pub open spec fn decimal_digits(n: nat) -> Seq<char> {
    digits(n, 10)
}

/// `n` in hexadecimal digits, with small letters.
pub open spec fn hex_digits(n: nat) -> Seq<char> {
    digits(n, 16)
}

/// The character of one digit.
fn digit_of(d: u64) -> (c: char)
    requires
        d < 16,
    ensures
        c == digit_char(d as nat),
{
    let code: u8 = if d < 10 {
        (d + 48) as u8
    } else {
        (d + 87) as u8
    };
    code as char
}

/// Writes `n` in the base `base`.
fn to_digits(n: u64, base: u64) -> (out: Vec<char>)
    requires
        2 <= base <= 16,
    ensures
        out@ == digits(n as nat, base as nat),
{
    let mut reversed: Vec<char> = Vec::new();
    let mut rest: u64 = n;
    while rest >= base
        invariant
            2 <= base <= 16,
            digits(n as nat, base as nat) == digits(rest as nat, base as nat) + reversed@.reverse(),
        decreases rest,
    {
        let ghost before = reversed@;
        reversed.push(digit_of(rest % base));
        proof {
            let d = digit_char((rest % base) as nat);
            assert(reversed@.reverse() =~= seq![d] + before.reverse());
            assert(digits(rest as nat, base as nat) == digits(
                (rest / base) as nat,
                base as nat,
            ).push(d));
            assert(digits((rest / base) as nat, base as nat).push(d) + before.reverse() =~= digits(
                (rest / base) as nat,
                base as nat,
            ) + (seq![d] + before.reverse()));
        }
        rest = rest / base;
    }
    let ghost before = reversed@;
    reversed.push(digit_of(rest));
    proof {
        let d = digit_char(rest as nat);
        assert(reversed@.reverse() =~= seq![d] + before.reverse());
        assert(digits(rest as nat, base as nat) == seq![d]);
    }
    let mut out: Vec<char> = Vec::new();
    let mut i: usize = reversed.len();
    while i > 0
        invariant
            i <= reversed.len(),
            out@ == reversed@.reverse().take(reversed.len() - i),
        decreases i,
    {
        i -= 1;
        out.push(reversed[i]);
        proof {
            let r = reversed@.reverse();
            assert(r.take(reversed.len() - i) =~= r.take(reversed.len() - i - 1).push(
                reversed@[i as int],
            ));
        }
    }
    proof {
        assert(reversed@.reverse().take(reversed.len() as int) =~= reversed@.reverse());
    }
    out
}

/// Writes `n` in decimal digits.
pub fn to_decimal(n: u64) -> (out: Vec<char>)
    ensures
        out@ == decimal_digits(n as nat),
{
    to_digits(n, 10)
}

/// Writes `n` in hexadecimal digits.
pub fn to_hex(n: u64) -> (out: Vec<char>)
    ensures
        out@ == hex_digits(n as nat),
{
    to_digits(n, 16)
}

/// Whether the character is a decimal digit.
pub open spec fn is_digit(c: char) -> bool {
    '0' <= c <= '9'
}

/// The number that the digits stand for, read from the left: the first
/// character that is no digit, or with which the number no longer fits 64
/// bits, decides the error.
pub open spec fn digits_value(s: Seq<char>) -> Result<nat, NumberError>
    decreases s.len(),
{
    if s.len() == 0 {
        Ok(0)
    } else {
        match digits_value(s.drop_last()) {
            Err(e) => Err(e),
            Ok(v) => if !is_digit(s.last()) {
                Err(NumberError::InvalidDigit)
            } else if v * 10 + (s.last() as nat - '0' as nat) > u64::MAX {
                Err(NumberError::Overflow)
            } else {
                Ok((v * 10 + (s.last() as nat - '0' as nat)) as nat)
            },
        }
    }
}

/// The unsigned number of 64 bits that a text stands for: decimal digits,
/// with or without a `+` before them.
pub open spec fn number_value(s: Seq<char>) -> Result<nat, NumberError> {
    if s.len() == 0 {
        Err(NumberError::Empty)
    } else if s.len() == 1 && (s[0] == '+' || s[0] == '-') {
        Err(NumberError::InvalidDigit)
    } else if s[0] == '+' {
        digits_value(s.skip(1))
    } else {
        digits_value(s)
    }
}

/// Reads an unsigned decimal number of 64 bits.
pub fn parse_u64(s: &[char]) -> (r: Result<u64, NumberError>)
    ensures
        match r {
            Ok(n) => number_value(s@) == Ok::<nat, NumberError>(n as nat),
            Err(e) => number_value(s@) == Err::<nat, NumberError>(e),
        },
{
    if s.len() == 0 {
        return Err(NumberError::Empty);
    }
    if s.len() == 1 && (s[0] == '+' || s[0] == '-') {
        return Err(NumberError::InvalidDigit);
    }
    let first: usize = if s[0] == '+' {
        1
    } else {
        0
    };
    let ghost text = s@.skip(first as int);
    let mut value: u64 = 0;
    let mut i: usize = first;
    proof {
        if first == 0 {
            assert(text == s@);
        }
    }
    while i < s.len()
        invariant
            first <= i <= s.len(),
            text == s@.skip(first as int),
            number_value(s@) == digits_value(text),
            digits_value(text.take(i - first)) == Ok::<nat, NumberError>(value as nat),
        decreases s.len() - i,
    {
        let c = s[i];
        proof {
            let read = text.take(i - first + 1);
            assert(read.drop_last() == text.take(i - first));
            assert(read.last() == c);
        }
        if !('0' <= c && c <= '9') {
            proof {
                lemma_digits_value_stops(text, i - first + 1);
            }
            return Err(NumberError::InvalidDigit);
        }
        let d: u64 = (c as u32 - '0' as u32) as u64;
        let next = match value.checked_mul(10) {
            Some(m) => m.checked_add(d),
            None => None,
        };
        match next {
            Some(n) => {
                value = n;
            },
            None => {
                proof {
                    lemma_digits_value_stops(text, i - first + 1);
                }
                return Err(NumberError::Overflow);
            },
        }
        i += 1;
    }
    proof {
        assert(text.take(s.len() - first) == text);
    }
    Ok(value)
}

/// An error among the first digits is the error of them all.
pub proof fn lemma_digits_value_stops(s: Seq<char>, n: int)
    requires
        0 <= n <= s.len(),
        digits_value(s.take(n)) is Err,
    ensures
        digits_value(s) == digits_value(s.take(n)),
    decreases s.len() - n,
{
    if n < s.len() {
        assert(s.take(n + 1).drop_last() == s.take(n));
        lemma_digits_value_stops(s, n + 1);
    } else {
        assert(s.take(n) == s);
    }
}

/// The two hexadecimal digits of a byte, with small letters.
pub open spec fn hex_pair(b: u8) -> Seq<char> {
    seq![digit_char((b / 16) as nat), digit_char((b % 16) as nat)]
}

/// The bytes in hexadecimal digits, two for each.
pub open spec fn hex_text(bytes: Seq<u8>) -> Seq<char>
    decreases bytes.len(),
{
    if bytes.len() == 0 {
        Seq::empty()
    } else {
        hex_text(bytes.drop_last()) + hex_pair(bytes.last())
    }
}

/// Appends the bytes in hexadecimal digits, two for each.
pub fn append_hex(out: &mut Vec<char>, bytes: &[u8])
    ensures
        final(out)@ == old(out)@ + hex_text(bytes@),
{
    let mut i: usize = 0;
    while i < bytes.len()
        invariant
            i <= bytes.len(),
            out@ == old(out)@ + hex_text(bytes@.take(i as int)),
        decreases bytes.len() - i,
    {
        let b = bytes[i];
        proof {
            let read = bytes@.take(i + 1);
            assert(read.drop_last() == bytes@.take(i as int));
            assert(read.last() == b);
        }
        let ghost before = out@;
        out.push(digit_of((b / 16) as u64));
        out.push(digit_of((b % 16) as u64));
        proof {
            assert(out@ =~= before + hex_pair(b));
        }
        i += 1;
    }
    proof {
        assert(bytes@.take(bytes.len() as int) == bytes@);
    }
}

/// The bytes of a text in UTF-8.
pub fn utf8_bytes(s: &[char]) -> (bytes: Vec<u8>)
    ensures
        bytes@ == encode_utf8(s@),
{
    let text = string_of(s);
    text.as_str().as_bytes_vec()
}

/// Whether `a` stands before `b`, or is the same, in the order of a
/// dictionary: the first character in which the two differ decides, and a
/// text stands before each one that it begins.
pub open spec fn lex_le(a: Seq<char>, b: Seq<char>) -> bool
    decreases a.len(),
{
    if a.len() == 0 {
        true
    } else if b.len() == 0 {
        false
    } else if a[0] != b[0] {
        a[0] < b[0]
    } else {
        lex_le(a.drop_first(), b.drop_first())
    }
}

/// Of two texts, one stands before the other or is the same.
pub proof fn lemma_lex_le_total(a: Seq<char>, b: Seq<char>)
    ensures
        lex_le(a, b) || lex_le(b, a),
    decreases a.len(),
{
    if a.len() > 0 && b.len() > 0 && a[0] == b[0] {
        lemma_lex_le_total(a.drop_first(), b.drop_first());
    }
}

/// What stands before a text stands before all that the text stands before.
pub proof fn lemma_lex_le_transitive(a: Seq<char>, b: Seq<char>, c: Seq<char>)
    requires
        lex_le(a, b),
        lex_le(b, c),
    ensures
        lex_le(a, c),
    decreases a.len(),
{
    if a.len() > 0 && b.len() > 0 && c.len() > 0 && a[0] == b[0] && b[0] == c[0] {
        lemma_lex_le_transitive(a.drop_first(), b.drop_first(), c.drop_first());
    }
}

/// Two texts of which each stands before the other are the same.
pub proof fn lemma_lex_le_antisymmetric(a: Seq<char>, b: Seq<char>)
    requires
        lex_le(a, b),
        lex_le(b, a),
    ensures
        a == b,
    decreases a.len(),
{
    if a.len() > 0 && b.len() > 0 {
        lemma_lex_le_antisymmetric(a.drop_first(), b.drop_first());
        assert(a =~= seq![a[0]] + a.drop_first());
        assert(b =~= seq![b[0]] + b.drop_first());
    } else {
        assert(a =~= b);
    }
}

/// Tells whether `a` stands before `b`, or is the same, in the order of a
/// dictionary.
pub fn chars_le(a: &[char], b: &[char]) -> (r: bool)
    ensures
        r == lex_le(a@, b@),
{
    let mut i: usize = 0;
    proof {
        assert(a@.skip(0) == a@);
        assert(b@.skip(0) == b@);
    }
    while i < a.len()
        invariant
            i <= a.len(),
            i <= b.len(),
            lex_le(a@, b@) == lex_le(a@.skip(i as int), b@.skip(i as int)),
        decreases a.len() - i,
    {
        if i >= b.len() {
            return false;
        }
        proof {
            assert(a@.skip(i as int)[0] == a@[i as int]);
            assert(b@.skip(i as int)[0] == b@[i as int]);
            assert(a@.skip(i as int).drop_first() == a@.skip(i + 1));
            assert(b@.skip(i as int).drop_first() == b@.skip(i + 1));
        }
        if a[i] != b[i] {
            return a[i] < b[i];
        }
        i += 1;
    }
    true
}

/// Tells whether `s` begins with `prefix`.
pub fn starts_with_chars(s: &[char], prefix: &[char]) -> (r: bool)
    ensures
        r == prefix@.is_prefix_of(s@),
{
    if prefix.len() > s.len() {
        return false;
    }
    let head = copy_range(s, 0, prefix.len());
    proof {
        assert(s@.subrange(0, prefix.len() as int) == s@.take(prefix.len() as int));
    }
    same_chars(head.as_slice(), prefix)
}

} // verus!
