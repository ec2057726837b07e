//! Text primitives: decimal rendering and parsing of integers, UTF-8 byte
//! lengths, and the handful of string searches that the bot's texts need.
use vstd::prelude::*;
use vstd::utf8::*;
use vstd::string::StringSliceAdditionalSpecFns;

verus! {

broadcast use vstd::utf8::group_utf8_lib;

// ---------------------------------------------------------------------------
// Decimal rendering
// ---------------------------------------------------------------------------

/// The character of a decimal digit.
pub open spec fn digit_char(d: nat) -> char {
    if d == 0 {
        '0'
    } else if d == 1 {
        '1'
    } else if d == 2 {
        '2'
    } else if d == 3 {
        '3'
    } else if d == 4 {
        '4'
    } else if d == 5 {
        '5'
    } else if d == 6 {
        '6'
    } else if d == 7 {
        '7'
    } else if d == 8 {
        '8'
    } else {
        '9'
    }
}

/// Decimal digits of `n`, most significant first, without leading zeros.
pub open spec fn dec_nat(n: nat) -> Seq<char>
    decreases n,
{
    if n < 10 {
        seq![digit_char(n)]
    } else {
        dec_nat(n / 10).push(digit_char(n % 10))
    }
}

/// Decimal text of an integer, as Rust's `Display` for integers writes it.
pub open spec fn dec_int(i: int) -> Seq<char> {
    if i < 0 {
        seq!['-'] + dec_nat((-i) as nat)
    } else {
        dec_nat(i as nat)
    }
}

/// Decimal text of `n`, left-padded with zeros to at least two digits (`{:02}`).
pub open spec fn dec_int_pad2(i: int) -> Seq<char> {
    if 0 <= i < 10 {
        seq!['0'] + dec_nat(i as nat)
    } else {
        dec_int(i)
    }
}

/// Calls `String::push`, which (as std documents) appends the character to
/// the end of the string; the contract states exactly that.
#[verifier::external_body]
pub(crate) fn push_char(s: &mut String, c: char)
    ensures
        final(s)@ == old(s)@.push(c),
{
    s.push(c);
}

fn digit(d: u64) -> (c: char)
    requires
        d < 10,
    ensures
        c == digit_char(d as nat),
{
    if d == 0 {
        '0'
    } else if d == 1 {
        '1'
    } else if d == 2 {
        '2'
    } else if d == 3 {
        '3'
    } else if d == 4 {
        '4'
    } else if d == 5 {
        '5'
    } else if d == 6 {
        '6'
    } else if d == 7 {
        '7'
    } else if d == 8 {
        '8'
    } else {
        '9'
    }
}

/// Appends the decimal digits of `n`.
pub fn push_u64(s: &mut String, n: u64)
    ensures
        final(s)@ == old(s)@ + dec_nat(n as nat),
    decreases n,
{
    if n >= 10 {
        push_u64(s, n / 10);
    }
    let ghost mid = s@;
    push_char(s, digit(n % 10));
    if n >= 10 {
        assert(s@ =~= old(s)@ + dec_nat(n as nat));
    } else {
        assert(s@ =~= old(s)@ + dec_nat(n as nat));
    }
}

/// Appends the decimal text of `n` (with a leading `-` when negative).
pub fn push_i64(s: &mut String, n: i64)
    ensures
        final(s)@ == old(s)@ + dec_int(n as int),
{
    if n < 0 {
        push_char(s, '-');
        let m: u64 = ((-(n + 1)) as u64) + 1;
        push_u64(s, m);
        assert(s@ =~= old(s)@ + dec_int(n as int));
    } else {
        push_u64(s, n as u64);
    }
}

/// Appends the decimal text of `n`, zero-padded to two digits.
pub fn push_i64_pad2(s: &mut String, n: i64)
    ensures
        final(s)@ == old(s)@ + dec_int_pad2(n as int),
{
    if 0 <= n && n < 10 {
        push_char(s, '0');
        push_u64(s, n as u64);
        assert(s@ =~= old(s)@ + dec_int_pad2(n as int));
    } else {
        push_i64(s, n);
    }
}

/// The decimal text of `n`, as `n.to_string()` gives it.
pub fn i64_text(n: i64) -> (s: String)
    ensures
        s@ == dec_int(n as int),
{
    let mut s = String::new();
    push_i64(&mut s, n);
    assert(s@ =~= dec_int(n as int));
    s
}

/// The decimal text of `n`, as `n.to_string()` gives it.
pub fn u64_text(n: u64) -> (s: String)
    ensures
        s@ == dec_nat(n as nat),
{
    let mut s = String::new();
    push_u64(&mut s, n);
    assert(s@ =~= dec_nat(n as nat));
    s
}

/// Appends a string slice.
pub fn push_str(s: &mut String, t: &str)
    ensures
        final(s)@ == old(s)@ + t@,
{
    s.append(t);
}

// ---------------------------------------------------------------------------
// Decimal parsing, with the rules of Rust's `i64::from_str`
// ---------------------------------------------------------------------------

pub open spec fn is_digit(c: char) -> bool {
    '0' <= c <= '9'
}

pub open spec fn all_digits(s: Seq<char>) -> bool {
    forall|i: int| 0 <= i < s.len() ==> is_digit(#[trigger] s[i])
}

/// Value of a string of decimal digits.
pub open spec fn digits_value(s: Seq<char>) -> nat
    decreases s.len(),
{
    if s.len() == 0 {
        0
    } else {
        digits_value(s.drop_last()) * 10 + ((s.last() as nat) - ('0' as nat)) as nat
    }
}

/// The number that `i64::from_str` reads from `s`, if it accepts `s`: an optional
/// `+` or `-`, then one or more ASCII digits, with a value that fits in an `i64`.
pub open spec fn parsed_i64(s: Seq<char>) -> Option<i64> {
    let neg = s.len() > 0 && s[0] == '-';
    let body = if s.len() > 0 && (s[0] == '-' || s[0] == '+') {
        s.drop_first()
    } else {
        s
    };
    let v: int = if neg {
        -(digits_value(body) as int)
    } else {
        digits_value(body) as int
    };
    if body.len() > 0 && all_digits(body) && i64::MIN <= v <= i64::MAX {
        Some(v as i64)
    } else {
        None
    }
}

proof fn lemma_digits_value_grows(s: Seq<char>, i: int)
    requires
        0 <= i <= s.len(),
        all_digits(s),
    ensures
        digits_value(s.take(i)) <= digits_value(s),
    decreases s.len() - i,
{
    if i < s.len() {
        lemma_digits_value_grows(s, i + 1);
        assert(s.take(i + 1).drop_last() =~= s.take(i));
        assert(is_digit(s[i]));
    } else {
        assert(s.take(i) =~= s);
    }
}

/// Reads an `i64` from decimal text with the rules of `i64::from_str`.
pub fn parse_i64(s: &str) -> (r: Option<i64>)
    ensures
        r == parsed_i64(s@),
{
    let n = s.unicode_len();
    let ghost sv = s@;
    if n == 0 {
        return None;
    }
    let c0 = s.get_char(0);
    let neg = c0 == '-';
    let start: usize = if c0 == '-' || c0 == '+' { 1 } else { 0 };
    let ghost body = if c0 == '-' || c0 == '+' { sv.drop_first() } else { sv };
    assert(body =~= sv.subrange(start as int, n as int));
    if start == n {
        return None;
    }
    let bound: u128 = 9223372036854775808u128;
    let mut acc: u128 = 0;
    let mut i: usize = start;
    while i < n
        invariant
            n == sv.len(),
            sv == s@,
            start <= i <= n,
            body =~= sv.subrange(start as int, n as int),
            all_digits(body.take(i - start)),
            acc == digits_value(body.take(i - start)),
            acc <= bound,
            bound == 9223372036854775808u128,
            sv.len() > 0,
            body == (if sv.len() > 0 && (sv[0] == '-' || sv[0] == '+') {
                sv.drop_first()
            } else {
                sv
            }),
        decreases n - i,
    {
        let c = s.get_char(i);
        if !('0' <= c && c <= '9') {
            assert(body[i - start] == c);
            assert(!all_digits(body));
            let ghost spec_body = if sv.len() > 0 && (sv[0] == '-' || sv[0] == '+') {
                sv.drop_first()
            } else {
                sv
            };
            assert(spec_body == body);
            assert(parsed_i64(sv) is None);
            return None;
        }
        let d: u128 = ((c as u32) - ('0' as u32)) as u128;
        assert(d <= 9);
        let ghost prev = body.take(i - start);
        assert(acc * 10 <= bound * 10) by (nonlinear_arith)
            requires
                acc <= bound,
        ;
        acc = acc * 10 + d;
        assert(body.take(i + 1 - start).drop_last() =~= prev);
        assert(body.take(i + 1 - start).last() == c);
        i = i + 1;
        assert(all_digits(body.take(i - start))) by {
            assert forall|k: int| 0 <= k < body.take(i - start).len() implies is_digit(
                #[trigger] body.take(i - start)[k],
            ) by {
                if k < i - 1 - start {
                    assert(body.take(i - start)[k] == prev[k]);
                }
            }
        }
        if acc > bound {
            proof {
                assert(body.take(i - start) =~= body.take(i - start));
                if all_digits(body) {
                    lemma_digits_value_grows(body, i - start);
                }
            }
            return None;
        }
    }
    assert(body.take(n - start) =~= body);
    if neg {
        if acc == bound {
            Some(-9223372036854775807i64 - 1)
        } else {
            let m = acc as i64;
            Some(-m)
        }
    } else {
        if acc == bound {
            None
        } else {
            Some(acc as i64)
        }
    }
}

// ---------------------------------------------------------------------------
// UTF-8 byte lengths and cuts
// ---------------------------------------------------------------------------

/// Length in bytes of the UTF-8 encoding of `s` (what `str::len` returns).
pub open spec fn byte_len(s: Seq<char>) -> nat {
    encode_utf8(s).len()
}

/// Whether byte offset `k` of `s`'s encoding falls on a character boundary.
pub open spec fn boundary_at(s: Seq<char>, k: int) -> bool {
    is_char_boundary(encode_utf8(s), k)
}

/// The characters encoded by the first `k` bytes of `s` (what `&s[..k]` holds).
pub open spec fn bytes_prefix(s: Seq<char>, k: int) -> Seq<char> {
    decode_utf8(encode_utf8(s).subrange(0, k))
}

/// `s.len()`: the length of `s` in bytes.
pub fn byte_length(s: &str) -> (n: usize)
    ensures
        n as int == byte_len(s@),
{
    let b = s.as_bytes();
    b.len()
}

pub open spec fn ascii(s: Seq<char>) -> bool {
    is_ascii_chars(s)
}

pub proof fn lemma_ascii_byte_len(s: Seq<char>)
    requires
        ascii(s),
    ensures
        byte_len(s) == s.len(),
{
    is_ascii_chars_encode_utf8(s);
}

/// The bytes of two texts put together are those of the first, then those of
/// the second.
pub proof fn lemma_byte_len_concat(a: Seq<char>, b: Seq<char>)
    ensures
        byte_len(a + b) == byte_len(a) + byte_len(b),
    decreases a.len(),
{
    if a.len() == 0 {
        assert(a + b =~= b);
    } else {
        assert((a + b).drop_first() =~= a.drop_first() + b);
        assert((a + b)[0] == a[0]);
        lemma_byte_len_concat(a.drop_first(), b);
    }
}

/// The first `k` bytes of a text, cut on a character boundary, are `k` bytes long.
pub proof fn lemma_bytes_prefix_len(s: Seq<char>, k: int)
    requires
        0 <= k <= byte_len(s),
        boundary_at(s, k),
    ensures
        byte_len(bytes_prefix(s, k)) == k,
{
    encode_utf8_valid_utf8(s);
    valid_utf8_split(encode_utf8(s), k);
    decode_utf8_encode_utf8(encode_utf8(s).subrange(0, k));
}

/// The first `k` bytes of `s`, which must end on a character boundary.
pub fn prefix_bytes(s: &str, k: usize) -> (r: String)
    requires
        k <= byte_len(s@),
        boundary_at(s@, k as int),
    ensures
        r@ == bytes_prefix(s@, k as int),
{
    let (a, _b) = s.split_at(k);
    proof {
        encode_utf8_valid_utf8(s@);
        decode_utf8_encode_utf8(a.spec_bytes());
        encode_utf8_decode_utf8(a@);
    }
    String::from_str(a)
}

// ---------------------------------------------------------------------------
// Searches
// ---------------------------------------------------------------------------

pub open spec fn starts_with(s: Seq<char>, p: Seq<char>) -> bool {
    p.len() <= s.len() && s.subrange(0, p.len() as int) == p
}

/// Whether `p` occurs in `s` at index `i`.
pub open spec fn occurs_at(s: Seq<char>, p: Seq<char>, i: int) -> bool {
    0 <= i && i + p.len() <= s.len() && s.subrange(i, i + p.len()) == p
}

/// `s` from index `i` on, with every leftmost non-overlapping occurrence of `p`
/// removed: what `str::replace(p, "")` does when `p` is not empty.
pub open spec fn removed_from(s: Seq<char>, p: Seq<char>, i: int) -> Seq<char>
    recommends
        p.len() > 0,
        0 <= i,
    decreases s.len() - i,
{
    if i < 0 || i >= s.len() || p.len() == 0 {
        Seq::empty()
    } else if occurs_at(s, p, i) {
        removed_from(s, p, i + p.len())
    } else {
        seq![s[i]] + removed_from(s, p, i + 1)
    }
}

pub open spec fn remove_all(s: Seq<char>, p: Seq<char>) -> Seq<char> {
    removed_from(s, p, 0)
}

/// The first index at or after `i` where `p` occurs in `s`, or -1.
pub open spec fn find_from(s: Seq<char>, p: Seq<char>, i: int) -> int
    decreases s.len() - i,
{
    if i < 0 || i + p.len() > s.len() || i >= s.len() {
        -1
    } else if occurs_at(s, p, i) {
        i
    } else {
        find_from(s, p, i + 1)
    }
}

/// The text before the first occurrence of `p` (the first piece of `str::split(p)`).
pub open spec fn before_first(s: Seq<char>, p: Seq<char>) -> Seq<char> {
    let k = find_from(s, p, 0);
    if k < 0 {
        s
    } else {
        s.take(k)
    }
}

fn occurs_here(s: &str, n: usize, p: &str, m: usize, i: usize) -> (b: bool)
    requires
        n == s@.len(),
        m == p@.len(),
        i <= n,
    ensures
        b == occurs_at(s@, p@, i as int),
{
    if m > n - i {
        return false;
    }
    let mut j: usize = 0;
    while j < m
        invariant
            n == s@.len(),
            m == p@.len(),
            i + m <= n,
            j <= m,
            forall|k: int| 0 <= k < j ==> s@[i + k] == p@[k],
        decreases m - j,
    {
        if s.get_char(i + j) != p.get_char(j) {
            assert(s@.subrange(i as int, i + m)[j as int] != p@[j as int]);
            return false;
        }
        j = j + 1;
    }
    assert(s@.subrange(i as int, i + m) =~= p@);
    true
}

/// `a == b`.
pub fn text_eq(a: &str, b: &str) -> (r: bool)
    ensures
        r == (a@ == b@),
{
    let r = has_prefix(a, b) && a.unicode_len() == b.unicode_len();
    proof {
        if a@.len() == b@.len() && starts_with(a@, b@) {
            assert(a@ =~= a@.subrange(0, b@.len() as int));
        }
        if a@ == b@ {
            assert(a@.subrange(0, b@.len() as int) =~= b@);
        }
    }
    r
}

/// `s.starts_with(p)`.
pub fn has_prefix(s: &str, p: &str) -> (b: bool)
    ensures
        b == starts_with(s@, p@),
{
    occurs_here(s, s.unicode_len(), p, p.unicode_len(), 0)
}

/// `s.replace(p, "")` for a non-empty pattern `p`.
pub fn remove_occurrences(s: &str, p: &str) -> (r: String)
    requires
        p@.len() > 0,
    ensures
        r@ == remove_all(s@, p@),
{
    let n = s.unicode_len();
    let m = p.unicode_len();
    let mut out = String::new();
    let mut i: usize = 0;
    while i < n
        invariant
            n == s@.len(),
            m == p@.len(),
            m > 0,
            i <= n,
            out@ + removed_from(s@, p@, i as int) == remove_all(s@, p@),
        decreases n - i,
    {
        if occurs_here(s, n, p, m, i) {
            i = i + m;
        } else {
            let c = s.get_char(i);
            let ghost before = out@;
            push_char(&mut out, c);
            assert(before + removed_from(s@, p@, i as int) =~= out@ + removed_from(
                s@,
                p@,
                i + 1,
            ));
            i = i + 1;
        }
    }
    assert(removed_from(s@, p@, n as int) =~= Seq::<char>::empty());
    assert(out@ =~= remove_all(s@, p@));
    out
}

/// The text of `s` before the first occurrence of `p` (`s.split(p).next()`).
pub fn text_before(s: &str, p: &str) -> (r: String)
    requires
        p@.len() > 0,
    ensures
        r@ == before_first(s@, p@),
{
    let n = s.unicode_len();
    let m = p.unicode_len();
    let mut i: usize = 0;
    while i < n && m <= n - i
        invariant
            n == s@.len(),
            m == p@.len(),
            i <= n,
            find_from(s@, p@, 0) == find_from(s@, p@, i as int),
        decreases n - i,
    {
        if occurs_here(s, n, p, m, i) {
            let r = s.substring_char(0, i);
            return String::from_str(r);
        }
        i = i + 1;
    }
    let r = String::from_str(s);
    r
}

// ---------------------------------------------------------------------------
// Splitting on a character
// ---------------------------------------------------------------------------

/// The pieces of `str::split(c)`: `s` cut at every occurrence of `c`.
pub open spec fn split_on(s: Seq<char>, c: char) -> Seq<Seq<char>>
    decreases s.len(),
{
    if s.len() == 0 {
        seq![Seq::<char>::empty()]
    } else {
        let init = split_on(s.drop_last(), c);
        if s.last() == c {
            init.push(Seq::<char>::empty())
        } else {
            init.update(init.len() - 1, init.last().push(s.last()))
        }
    }
}

/// `s.split(c).collect()`.
pub fn split_char(s: &str, c: char) -> (parts: Vec<String>)
    ensures
        parts@.map_values(|t: String| t@) == split_on(s@, c),
{
    let n = s.unicode_len();
    let mut parts: Vec<String> = Vec::new();
    let mut cur = String::new();
    let mut i: usize = 0;
    while i < n
        invariant
            n == s@.len(),
            i <= n,
            parts@.map_values(|t: String| t@).push(cur@) == split_on(s@.take(i as int), c),
        decreases n - i,
    {
        let ch = s.get_char(i);
        let ghost prev = parts@.map_values(|t: String| t@).push(cur@);
        proof {
            assert(s@.take(i + 1).drop_last() =~= s@.take(i as int));
            assert(s@.take(i + 1).last() == ch);
        }
        if ch == c {
            parts.push(cur);
            cur = String::new();
            assert(parts@.map_values(|t: String| t@).push(cur@) =~= prev.push(
                Seq::<char>::empty(),
            ));
        } else {
            let ghost old_cur = cur@;
            push_char(&mut cur, ch);
            assert(parts@.map_values(|t: String| t@).push(cur@) =~= prev.update(
                prev.len() - 1,
                prev.last().push(ch),
            ));
        }
        i = i + 1;
    }
    parts.push(cur);
    assert(s@.take(n as int) =~= s@);
    parts
}

// ---------------------------------------------------------------------------
// Whitespace trimming, with `char::is_whitespace`
// ---------------------------------------------------------------------------

/// The Unicode `White_Space` property, which `char::is_whitespace` tests.
pub open spec fn is_space(c: char) -> bool {
    ('\u{9}' <= c <= '\u{d}') || c == ' ' || c == '\u{85}' || c == '\u{a0}' || c == '\u{1680}'
        || ('\u{2000}' <= c <= '\u{200a}') || c == '\u{2028}' || c == '\u{2029}' || c
        == '\u{202f}' || c == '\u{205f}' || c == '\u{3000}'
}

pub open spec fn trim_start(s: Seq<char>) -> Seq<char>
    decreases s.len(),
{
    if s.len() > 0 && is_space(s[0]) {
        trim_start(s.drop_first())
    } else {
        s
    }
}

pub open spec fn trim_end(s: Seq<char>) -> Seq<char>
    decreases s.len(),
{
    if s.len() > 0 && is_space(s.last()) {
        trim_end(s.drop_last())
    } else {
        s
    }
}

/// `str::trim`: leading and trailing whitespace removed.
pub open spec fn trimmed(s: Seq<char>) -> Seq<char> {
    trim_end(trim_start(s))
}

fn space(c: char) -> (b: bool)
    ensures
        b == is_space(c),
{
    ('\u{9}' <= c && c <= '\u{d}') || c == ' ' || c == '\u{85}' || c == '\u{a0}' || c
        == '\u{1680}' || ('\u{2000}' <= c && c <= '\u{200a}') || c == '\u{2028}' || c
        == '\u{2029}' || c == '\u{202f}' || c == '\u{205f}' || c == '\u{3000}'
}

/// `s.trim()`.
pub fn trim(s: &str) -> (r: String)
    ensures
        r@ == trimmed(s@),
{
    let n = s.unicode_len();
    let mut a: usize = 0;
    assert(s@.subrange(0, n as int) =~= s@);
    while a < n && space(s.get_char(a))
        invariant
            n == s@.len(),
            a <= n,
            trim_start(s@) == trim_start(s@.subrange(a as int, n as int)),
        decreases n - a,
    {
        assert(s@.subrange(a as int, n as int).drop_first() =~= s@.subrange(a + 1, n as int));
        a = a + 1;
    }
    let mut b: usize = n;
    while b > a && space(s.get_char(b - 1))
        invariant
            n == s@.len(),
            a <= b <= n,
            trim_start(s@) == s@.subrange(a as int, n as int),
            trimmed(s@) == trim_end(s@.subrange(a as int, b as int)),
        decreases b,
    {
        assert(s@.subrange(a as int, b as int).drop_last() =~= s@.subrange(a as int, b - 1));
        b = b - 1;
    }
    String::from_str(s.substring_char(a, b))
}

// ---------------------------------------------------------------------------
// Lengths of decimal texts
// ---------------------------------------------------------------------------

pub open spec fn pow10(k: nat) -> nat
    decreases k,
{
    if k == 0 {
        1
    } else {
        10 * pow10((k - 1) as nat)
    }
}

pub proof fn lemma_dec_nat_len(n: nat, k: nat)
    requires
        k >= 1,
        n < pow10(k),
    ensures
        dec_nat(n).len() <= k,
        ascii(dec_nat(n)),
    decreases k,
{
    if n >= 10 {
        assert(k >= 2) by {
            if k == 1 {
                assert(pow10(1) == 10) by {
                    reveal_with_fuel(pow10, 2);
                }
            }
        }
        assert(n / 10 < pow10((k - 1) as nat));
        lemma_dec_nat_len(n / 10, (k - 1) as nat);
        let d = dec_nat(n);
        assert forall|i: int| 0 <= i < d.len() implies '\0' <= #[trigger] d[i] <= '\u{7f}' by {
            if i < d.len() - 1 {
                assert(d[i] == dec_nat(n / 10)[i]);
            }
        }
    }
}

/// Decimal text of an integer between -99 and 99 is ASCII and at most 3 characters long.
pub proof fn lemma_dec_small(i: int)
    requires
        -100 < i < 100,
    ensures
        dec_int(i).len() <= 3,
        ascii(dec_int(i)),
{
    assert(pow10(2) == 100) by {
        reveal_with_fuel(pow10, 3);
    }
    if i < 0 {
        lemma_dec_nat_len((-i) as nat, 2);
        let d = dec_int(i);
        assert forall|j: int| 0 <= j < d.len() implies '\0' <= #[trigger] d[j] <= '\u{7f}' by {
            if j > 0 {
                assert(d[j] == dec_nat((-i) as nat)[j - 1]);
            }
        }
    } else {
        lemma_dec_nat_len(i as nat, 2);
    }
}

/// Decimal text of an `i64` is ASCII and at most 20 characters long.
pub proof fn lemma_dec_i64(i: i64)
    ensures
        dec_int(i as int).len() <= 20,
        ascii(dec_int(i as int)),
{
    assert(pow10(19) == 10000000000000000000) by {
        reveal_with_fuel(pow10, 20);
    }
    if i < 0 {
        lemma_dec_nat_len((-(i as int)) as nat, 19);
        let d = dec_int(i as int);
        assert forall|j: int| 0 <= j < d.len() implies '\0' <= #[trigger] d[j] <= '\u{7f}' by {
            if j > 0 {
                assert(d[j] == dec_nat((-(i as int)) as nat)[j - 1]);
            }
        }
    } else {
        lemma_dec_nat_len(i as nat, 19);
    }
}

// ---------------------------------------------------------------------------
// Integer division as Rust's `/` and `%` compute it (rounding toward zero)
// ---------------------------------------------------------------------------

/// `a / b` on Rust integers, for `b > 0`.
pub open spec fn quot(a: int, b: int) -> int {
    if a >= 0 {
        a / b
    } else {
        -((-a) / b)
    }
}

/// `a % b` on Rust integers, for `b > 0`.
pub open spec fn rem(a: int, b: int) -> int {
    a - b * quot(a, b)
}

/// Whole hours and remaining whole minutes of a number of seconds, as
/// `(s / 3600, (s % 3600) / 60)`.
pub open spec fn hours_minutes_of(s: int) -> (int, int) {
    (quot(s, 3600), quot(rem(s, 3600), 60))
}

/// `(s / 3600, (s % 3600) / 60)` with Rust's integer division.
pub fn hours_minutes(s: i64) -> (r: (i64, i64))
    ensures
        r.0 == hours_minutes_of(s as int).0,
        r.1 == hours_minutes_of(s as int).1,
{
    let w = s as i128;
    let a: u128 = if w >= 0 { w as u128 } else { (-w) as u128 };
    let hq = (a / 3600) as i128;
    let h: i128 = if w >= 0 { hq } else { -hq };
    let r: i128 = w - 3600 * h;
    proof {
        vstd::arithmetic::div_mod::lemma_fundamental_div_mod(a as int, 3600);
        vstd::arithmetic::div_mod::lemma_mod_bound(a as int, 3600);
    }
    let b: u128 = if r >= 0 { r as u128 } else { (-r) as u128 };
    let mq = (b / 60) as i128;
    let m: i128 = if r >= 0 { mq } else { -mq };
    (h as i64, m as i64)
}

// ---------------------------------------------------------------------------
// Shortening a description to a byte budget
// ---------------------------------------------------------------------------

/// `d` itself when its encoding fits in `limit` bytes; else its first `cut`
/// bytes followed by `...`.
pub open spec fn shortened(d: Seq<char>, limit: int, cut: int) -> Seq<char> {
    if byte_len(d) > limit {
        bytes_prefix(d, cut) + "..."@
    } else {
        d
    }
}

/// Whether shortening `d` is defined: the cut (made only when `d` is too long)
/// falls on a character boundary, where slicing a `str` does not panic.
pub open spec fn cut_ok(d: Seq<char>, limit: int, cut: int) -> bool {
    byte_len(d) > limit ==> (0 <= cut <= byte_len(d) && boundary_at(d, cut))
}

/// Decides `cut_ok`.
pub fn cut_fits(d: &str, limit: usize, cut: usize) -> (b: bool)
    ensures
        b == cut_ok(d@, limit as int, cut as int),
{
    let n = byte_length(d);
    if n > limit {
        cut <= n && d.is_char_boundary(cut)
    } else {
        true
    }
}

pub fn shorten(d: &str, limit: usize, cut: usize) -> (r: String)
    requires
        cut_ok(d@, limit as int, cut as int),
    ensures
        r@ == shortened(d@, limit as int, cut as int),
{
    let n = byte_length(d);
    if n > limit {
        let mut s = prefix_bytes(d, cut);
        push_str(&mut s, "...");
        s
    } else {
        String::from_str(d)
    }
}

// ---------------------------------------------------------------------------
// Facts about decimal texts, splits and removals
// ---------------------------------------------------------------------------

pub proof fn lemma_digit_char(d: nat)
    requires
        d < 10,
    ensures
        is_digit(digit_char(d)),
        (digit_char(d) as nat) - ('0' as nat) == d,
{
}

/// Decimal digits read back as the number they print.
pub proof fn lemma_dec_nat_reads_back(m: nat)
    ensures
        dec_nat(m).len() > 0,
        all_digits(dec_nat(m)),
        digits_value(dec_nat(m)) == m,
    decreases m,
{
    let d = dec_nat(m);
    if m < 10 {
        lemma_digit_char(m);
        assert(d.drop_last() =~= Seq::<char>::empty());
        assert(digits_value(d.drop_last()) == 0);
        assert(d.last() == digit_char(m));
        assert(digits_value(d) == digits_value(d.drop_last()) * 10 + ((d.last() as nat) - (
        '0' as nat)) as nat);
    } else {
        lemma_dec_nat_reads_back(m / 10);
        lemma_digit_char(m % 10);
        vstd::arithmetic::div_mod::lemma_fundamental_div_mod(m as int, 10);
        assert(d.drop_last() =~= dec_nat(m / 10));
        assert(d.last() == digit_char(m % 10));
        assert(digits_value(d) == digits_value(d.drop_last()) * 10 + ((d.last() as nat) - (
        '0' as nat)) as nat);
        assert forall|i: int| 0 <= i < d.len() implies is_digit(#[trigger] d[i]) by {
            if i < d.len() - 1 {
                assert(d[i] == dec_nat(m / 10)[i]);
            }
        }
    }
}

/// Printing an integer and reading it back with `i64::from_str` gives it back.
pub proof fn lemma_dec_int_reads_back(n: i64)
    ensures
        parsed_i64(dec_int(n as int)) == Some(n),
{
    let s = dec_int(n as int);
    if n < 0 {
        let m = (-(n as int)) as nat;
        lemma_dec_nat_reads_back(m);
        assert(s.drop_first() =~= dec_nat(m));
    } else {
        lemma_dec_nat_reads_back(n as nat);
        assert(is_digit(s[0]));
    }
}

/// Different integers print differently.
pub proof fn lemma_dec_int_injective(a: i64, b: i64)
    ensures
        dec_int(a as int) == dec_int(b as int) ==> a == b,
{
    lemma_dec_int_reads_back(a);
    lemma_dec_int_reads_back(b);
}

/// A decimal text holds only digits and possibly a leading `-`.
pub proof fn lemma_dec_int_chars(n: i64, i: int)
    requires
        0 <= i < dec_int(n as int).len(),
    ensures
        is_digit(dec_int(n as int)[i]) || dec_int(n as int)[i] == '-',
{
    if n < 0 {
        lemma_dec_nat_reads_back((-(n as int)) as nat);
        if i > 0 {
            assert(dec_int(n as int)[i] == dec_nat((-(n as int)) as nat)[i - 1]);
        }
    } else {
        lemma_dec_nat_reads_back(n as nat);
    }
}

pub proof fn lemma_split_without(s: Seq<char>, c: char)
    requires
        forall|i: int| 0 <= i < s.len() ==> s[i] != c,
    ensures
        split_on(s, c) == seq![s],
    decreases s.len(),
{
    if s.len() > 0 {
        lemma_split_without(s.drop_last(), c);
        assert(s.drop_last().push(s.last()) =~= s);
        assert(split_on(s, c) =~= seq![s]);
    } else {
        assert(s =~= Seq::<char>::empty());
    }
}

pub proof fn lemma_split_after(a: Seq<char>, b: Seq<char>, c: char)
    requires
        forall|i: int| 0 <= i < b.len() ==> b[i] != c,
    ensures
        split_on(a + seq![c] + b, c) == split_on(a, c).push(b),
    decreases b.len(),
{
    let x = a + seq![c] + b;
    if b.len() == 0 {
        assert(x.drop_last() =~= a);
        assert(b =~= Seq::<char>::empty());
    } else {
        lemma_split_after(a, b.drop_last(), c);
        assert(x.drop_last() =~= a + seq![c] + b.drop_last());
        assert(x.last() == b.last());
        assert(b.drop_last().push(b.last()) =~= b);
        assert(split_on(x, c) =~= split_on(a, c).push(b));
    }
}

pub proof fn lemma_removed_rest(s: Seq<char>, p: Seq<char>, i: int)
    requires
        p.len() > 0,
        0 <= i <= s.len(),
        forall|j: int| i <= j < s.len() ==> s[j] != p[0],
    ensures
        removed_from(s, p, i) == s.subrange(i, s.len() as int),
    decreases s.len() - i,
{
    if i < s.len() {
        assert(!occurs_at(s, p, i)) by {
            if occurs_at(s, p, i) {
                assert(s.subrange(i, i + p.len())[0] == p[0]);
            }
        }
        lemma_removed_rest(s, p, i + 1);
        assert(seq![s[i]] + s.subrange(i + 1, s.len() as int) =~= s.subrange(i, s.len() as int));
    } else {
        assert(s.subrange(i, s.len() as int) =~= Seq::<char>::empty());
    }
}

/// Removing a prefix `p` from `p + t` leaves `t` when `t` never holds the
/// first character of `p`.
pub proof fn lemma_remove_prefix(p: Seq<char>, t: Seq<char>)
    requires
        p.len() > 0,
        forall|j: int| 0 <= j < t.len() ==> t[j] != p[0],
    ensures
        remove_all(p + t, p) == t,
{
    let s = p + t;
    assert(occurs_at(s, p, 0)) by {
        assert(s.subrange(0, p.len() as int) =~= p);
    }
    if t.len() == 0 {
        assert(removed_from(s, p, p.len() as int) == s.subrange(p.len() as int, s.len() as int));
    } else {
        lemma_removed_rest(s, p, p.len() as int);
    }
    assert(s.subrange(p.len() as int, s.len() as int) =~= t);
}

} // verus!
