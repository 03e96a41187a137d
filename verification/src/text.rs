//! Decimal text: rendering counters into names, parsing numbers back out of
//! names, and lexicographic comparison of names.
//!
//! Staged frame files encode `(video_index, frame_index)` in their names, so
//! the pipeline's ordering guarantees all reduce to facts proved here: a
//! rendered number parses back to itself, zero padding does not change the
//! parsed value, and the comparison used to sort video lists is a total
//! order on character sequences.

use vstd::prelude::*;
use vstd::string::*;

verus! {

/// `c` is one of `'0'..='9'`.
pub open spec fn is_dec_digit(c: char) -> bool {
    '0' <= c && c <= '9'
}

/// The digit character for `d` (meaningful for `0 <= d <= 9`).
pub open spec fn digit_char(d: int) -> char {
    if d == 0 { '0' }
    else if d == 1 { '1' }
    else if d == 2 { '2' }
    else if d == 3 { '3' }
    else if d == 4 { '4' }
    else if d == 5 { '5' }
    else if d == 6 { '6' }
    else if d == 7 { '7' }
    else if d == 8 { '8' }
    else { '9' }
}

/// Every character of `s` is a decimal digit.
pub open spec fn all_dec_digits(s: Seq<char>) -> bool {
    forall|i: int| 0 <= i < s.len() ==> is_dec_digit(#[trigger] s[i])
}

/// Numeric value of a digit character, zero for anything else.
pub open spec fn char_digit_nat(c: char) -> nat {
    if is_dec_digit(c) {
        (c as int - '0' as int) as nat
    } else {
        0
    }
}

/// The number denoted by a digit sequence (most significant first).
pub open spec fn str_to_nat(s: Seq<char>) -> nat
    decreases s.len(),
{
    if s.len() == 0 {
        0
    } else {
        str_to_nat(s.drop_last()) * 10 + char_digit_nat(s.last())
    }
}

/// The shortest decimal rendering of `n`.
pub open spec fn dec_digits(n: nat) -> Seq<char>
    decreases n,
{
    if n < 10 {
        seq![digit_char(n as int)]
    } else {
        dec_digits(n / 10).push(digit_char((n % 10) as int))
    }
}

/// `n` rendered and left-padded with `'0'` to at least `width` characters.
pub open spec fn dec_digits_padded(n: nat, width: nat) -> Seq<char> {
    if dec_digits(n).len() >= width {
        dec_digits(n)
    } else {
        Seq::new((width - dec_digits(n).len()) as nat, |i: int| '0') + dec_digits(n)
    }
}

/// 10^k.
pub open spec fn pow10(k: nat) -> nat
    decreases k,
{
    if k == 0 { 1 } else { 10 * pow10((k - 1) as nat) }
}

pub proof fn lemma_dec_digits_all_digits(n: nat)
    ensures
        all_dec_digits(dec_digits(n)),
        dec_digits(n).len() >= 1,
    decreases n,
{
    if n >= 10 {
        lemma_dec_digits_all_digits(n / 10);
    }
}

/// Rendering then reading back yields the same number.
pub proof fn lemma_str_to_nat_dec_digits(n: nat)
    ensures
        str_to_nat(dec_digits(n)) == n,
    decreases n,
{
    if n < 10 {
        lemma_digit_char_val(n as int);
        assert(dec_digits(n).drop_last() =~= Seq::<char>::empty());
        assert(str_to_nat(dec_digits(n))
            == str_to_nat(dec_digits(n).drop_last()) * 10
                + char_digit_nat(dec_digits(n).last()));
    } else {
        lemma_str_to_nat_dec_digits(n / 10);
        lemma_digit_char_val((n % 10) as int);
        assert(dec_digits(n).drop_last() =~= dec_digits(n / 10));
        assert(dec_digits(n).last() == digit_char((n % 10) as int));
        assert(str_to_nat(dec_digits(n)) == (n / 10) * 10 + n % 10);
        assert((n / 10) * 10 + n % 10 == n) by (nonlinear_arith);
    }
}

/// `digit_char` and `char_digit_nat` are inverse on single digits.
proof fn lemma_digit_char_val(d: int)
    requires
        0 <= d < 10,
    ensures
        is_dec_digit(digit_char(d)),
        char_digit_nat(digit_char(d)) == d,
{
}

/// Reading a concatenation: the left part is scaled by 10^(length of the right).
pub proof fn lemma_str_to_nat_concat(a: Seq<char>, b: Seq<char>)
    ensures
        str_to_nat(a + b) == str_to_nat(a) * pow10(b.len()) + str_to_nat(b),
    decreases b.len(),
{
    if b.len() == 0 {
        assert(a + b =~= a);
        assert(pow10(0) == 1);
        assert(str_to_nat(b) == 0);
        assert(str_to_nat(a) * 1 == str_to_nat(a)) by (nonlinear_arith);
    } else {
        let x = str_to_nat(a);
        let bl = b.drop_last();
        let p = pow10(bl.len());
        lemma_str_to_nat_concat(a, bl);
        assert((a + b).drop_last() =~= a + bl);
        assert((a + b).last() == b.last());
        assert(str_to_nat(a + b)
            == str_to_nat((a + b).drop_last()) * 10 + char_digit_nat((a + b).last()));
        assert(str_to_nat(a + b)
            == (x * p + str_to_nat(bl)) * 10 + char_digit_nat(b.last()));
        assert(pow10(b.len()) == 10 * p) by {
            assert(b.len() == bl.len() + 1);
        }
        assert((x * p + str_to_nat(bl)) * 10 == x * (10 * p) + str_to_nat(bl) * 10)
            by (nonlinear_arith);
        assert(str_to_nat(b) == str_to_nat(bl) * 10 + char_digit_nat(b.last()));
        assert(str_to_nat(a + b) == x * (10 * p) + str_to_nat(b));
        assert(x * (10 * p) == x * pow10(b.len()));
        assert(str_to_nat(a + b) == x * pow10(b.len()) + str_to_nat(b));
    }
}

/// A run of `'0'` denotes zero.
pub proof fn lemma_str_to_nat_zeros(k: nat)
    ensures
        str_to_nat(Seq::new(k, |i: int| '0')) == 0,
    decreases k,
{
    if k > 0 {
        lemma_str_to_nat_zeros((k - 1) as nat);
        assert(Seq::new(k, |i: int| '0').drop_last() =~= Seq::new(
            (k - 1) as nat,
            |i: int| '0',
        ));
    }
}

/// Zero padding does not change the number a rendering denotes.
pub proof fn lemma_str_to_nat_padded(n: nat, width: nat)
    ensures
        str_to_nat(dec_digits_padded(n, width)) == n,
        all_dec_digits(dec_digits_padded(n, width)),
        dec_digits_padded(n, width).len() >= width,
        dec_digits_padded(n, width).len() >= 1,
{
    lemma_dec_digits_all_digits(n);
    lemma_str_to_nat_dec_digits(n);
    if dec_digits(n).len() < width {
        let z = Seq::new((width - dec_digits(n).len()) as nat, |i: int| '0');
        lemma_str_to_nat_zeros((width - dec_digits(n).len()) as nat);
        lemma_str_to_nat_concat(z, dec_digits(n));
        assert(str_to_nat(z) * pow10(dec_digits(n).len()) == 0) by (nonlinear_arith)
            requires str_to_nat(z) == 0;
    }
}

/// Append the digit character of `d` to `s`.
fn push_digit(s: &mut String, d: u8)
    requires
        d < 10,
    ensures
        final(s)@ == old(s)@.push(digit_char(d as int)),
{
    let t: &str = if d == 0 { "0" }
        else if d == 1 { "1" }
        else if d == 2 { "2" }
        else if d == 3 { "3" }
        else if d == 4 { "4" }
        else if d == 5 { "5" }
        else if d == 6 { "6" }
        else if d == 7 { "7" }
        else if d == 8 { "8" }
        else { "9" };
    proof {
        reveal_strlit("0");
        reveal_strlit("1");
        reveal_strlit("2");
        reveal_strlit("3");
        reveal_strlit("4");
        reveal_strlit("5");
        reveal_strlit("6");
        reveal_strlit("7");
        reveal_strlit("8");
        reveal_strlit("9");
        assert(t@ =~= seq![digit_char(d as int)]);
    }
    s.append(t);
    proof {
        assert(final(s)@ =~= old(s)@.push(digit_char(d as int)));
    }
}

/// Append the decimal rendering of `n` to `s`.
fn push_u64(s: &mut String, n: u64)
    ensures
        final(s)@ == old(s)@ + dec_digits(n as nat),
    decreases n,
{
    if n < 10 {
        push_digit(s, n as u8);
        proof {
            assert(old(s)@.push(digit_char(n as int)) =~= old(s)@ + dec_digits(n as nat));
        }
    } else {
        push_u64(s, n / 10);
        push_digit(s, (n % 10) as u8);
        proof {
            assert((old(s)@ + dec_digits((n / 10) as nat)).push(digit_char((n % 10) as int))
                =~= old(s)@ + dec_digits(n as nat));
        }
    }
}

/// The decimal rendering of `n`.
pub fn u64_to_string(n: u64) -> (r: String)
    ensures
        r@ == dec_digits(n as nat),
{
    let mut s = String::new();
    push_u64(&mut s, n);
    proof {
        assert(s@ =~= dec_digits(n as nat));
    }
    s
}

/// Number of characters in the decimal rendering of `n`.
fn count_digits(n: u64) -> (r: usize)
    ensures
        r == dec_digits(n as nat).len(),
        1 <= r <= 20,
    decreases n,
{
    if n < 10 {
        1
    } else {
        proof {
            lemma_dec_digits_len_bound(n as nat);
        }
        1 + count_digits(n / 10)
    }
}

proof fn lemma_dec_digits_len_bound(n: nat)
    requires
        n <= u64::MAX,
    ensures
        dec_digits(n).len() <= 20,
{
    assert(pow10(20) == 100000000000000000000) by {
        reveal_with_fuel(pow10, 21);
    }
    lemma_dec_digits_len_pow(n, 20);
}

proof fn lemma_dec_digits_len_pow(n: nat, k: nat)
    requires
        k >= 1,
        n < pow10(k),
    ensures
        dec_digits(n).len() <= k,
    decreases n,
{
    if n >= 10 {
        assert(n / 10 < pow10((k - 1) as nat)) by (nonlinear_arith)
            requires n < pow10(k), pow10(k) == 10 * pow10((k - 1) as nat), n >= 10;
        lemma_dec_digits_len_pow(n / 10, (k - 1) as nat);
    }
}

/// The decimal rendering of `n`, left-padded with `'0'` to `width` characters.
pub fn u64_to_padded_string(n: u64, width: usize) -> (r: String)
    ensures
        r@ == dec_digits_padded(n as nat, width as nat),
{
    let len = count_digits(n);
    let mut s = String::new();
    let mut k: usize = len;
    while k < width
        invariant
            len == dec_digits(n as nat).len(),
            len <= k,
            k <= width || k == len,
            s@ =~= Seq::new((k - len) as nat, |i: int| '0'),
        decreases width - k,
    {
        proof {
            reveal_strlit("0");
        }
        s.append("0");
        k = k + 1;
        proof {
            assert(s@ =~= Seq::new((k - len) as nat, |i: int| '0'));
        }
    }
    push_u64(&mut s, n);
    proof {
        assert(s@ =~= dec_digits_padded(n as nat, width as nat));
    }
    s
}

/// The decimal rendering of a possibly negative number.
pub open spec fn int_digits(n: int) -> Seq<char> {
    if n < 0 {
        seq!['-'] + dec_digits((-n) as nat)
    } else {
        dec_digits(n as nat)
    }
}

/// The decimal rendering of `n`, with a leading `'-'` when negative.
pub fn i64_to_string(n: i64) -> (r: String)
    ensures
        r@ == int_digits(n as int),
{
    if n >= 0 {
        u64_to_string(n as u64)
    } else {
        let m: u64 = ((-(n + 1)) as u64) + 1;
        let mut s = String::new();
        proof {
            reveal_strlit("-");
        }
        s.append("-");
        push_u64(&mut s, m);
        proof {
            assert(s@ =~= int_digits(n as int));
        }
        s
    }
}

/// What parsing a digit string yields: the denoted number, if the string is a
/// nonempty run of digits whose value fits in `usize`.
pub open spec fn spec_parse_dec(s: Seq<char>) -> Option<nat> {
    if s.len() > 0 && all_dec_digits(s) && str_to_nat(s) <= usize::MAX {
        Some(str_to_nat(s))
    } else {
        None
    }
}

/// A prefix of a digit run never denotes more than the whole run.
proof fn lemma_str_to_nat_prefix_le(s: Seq<char>, k: int)
    requires
        0 <= k <= s.len(),
    ensures
        str_to_nat(s.take(k)) <= str_to_nat(s),
{
    lemma_str_to_nat_concat(s.take(k), s.skip(k));
    assert(s.take(k) + s.skip(k) =~= s);
    lemma_pow10_pos(s.skip(k).len());
    assert(str_to_nat(s.take(k)) * pow10(s.skip(k).len()) >= str_to_nat(s.take(k)))
        by (nonlinear_arith)
        requires pow10(s.skip(k).len()) >= 1;
}

proof fn lemma_pow10_pos(k: nat)
    ensures
        pow10(k) >= 1,
    decreases k,
{
    if k > 0 {
        lemma_pow10_pos((k - 1) as nat);
    }
}

/// Parse a nonempty run of decimal digits.  Returns `None` on an empty
/// string, a non-digit character, or a value that does not fit in `usize`.
pub fn parse_dec(s: &str) -> (r: Option<usize>)
    ensures
        r matches Some(v) ==> spec_parse_dec(s@) == Some(v as nat),
        r is None ==> spec_parse_dec(s@) is None,
{
    let len = s.unicode_len();
    if len == 0 {
        return None;
    }
    let mut acc: usize = 0;
    let mut i: usize = 0;
    while i < len
        invariant
            len == s@.len(),
            0 <= i <= len,
            all_dec_digits(s@.take(i as int)),
            acc == str_to_nat(s@.take(i as int)),
        decreases len - i,
    {
        let c = s.get_char(i);
        if !(c >= '0' && c <= '9') {
            return None;
        }
        let d: usize = (c as u32 - '0' as u32) as usize;
        if acc > (usize::MAX - d) / 10 {
            proof {
                assert(str_to_nat(s@.take(i + 1)) == acc * 10 + d) by {
                    assert(s@.take(i + 1).drop_last() =~= s@.take(i as int));
                    assert(s@.take(i + 1).last() == s@[i as int]);
                }
                assert(acc * 10 + d > usize::MAX) by (nonlinear_arith)
                    requires
                        acc > (usize::MAX - d) / 10,
                        0 <= d <= usize::MAX,
                ;
                lemma_str_to_nat_prefix_le(s@, i + 1);
            }
            return None;
        }
        proof {
            assert(acc * 10 + d <= usize::MAX) by (nonlinear_arith)
                requires
                    acc <= (usize::MAX - d) / 10,
                    0 <= d <= usize::MAX,
            ;
            assert(s@.take(i + 1).drop_last() =~= s@.take(i as int));
            assert(s@.take(i + 1).last() == s@[i as int]);
        }
        acc = acc * 10 + d;
        i = i + 1;
    }
    proof {
        assert(s@.take(len as int) =~= s@);
    }
    Some(acc)
}

/// Whether two strings hold the same characters.
pub fn strings_equal(a: &String, b: &String) -> (r: bool)
    ensures
        r == (a@ == b@),
{
    a.eq(b)
}

/// Whether two string slices hold the same characters.
pub fn str_equal(a: &str, b: &str) -> (r: bool)
    ensures
        r == (a@ == b@),
{
    let la = a.unicode_len();
    let lb = b.unicode_len();
    if la != lb {
        return false;
    }
    let mut i: usize = 0;
    while i < la
        invariant
            la == a@.len(),
            la == b@.len(),
            0 <= i <= la,
            forall|j: int| 0 <= j < i ==> a@[j] == b@[j],
        decreases la - i,
    {
        if a.get_char(i) != b.get_char(i) {
            return false;
        }
        i = i + 1;
    }
    proof {
        assert(a@ =~= b@);
    }
    true
}

/// Lexicographic order on character sequences (by code point).
pub open spec fn lex_le(a: Seq<char>, b: Seq<char>) -> bool
    decreases a.len(),
{
    if a.len() == 0 {
        true
    } else if b.len() == 0 {
        false
    } else if a[0] != b[0] {
        a[0] < b[0]
    } else {
        lex_le(a.drop_first(), b.drop_first())
    }
}

/// `lex_le` is total.
pub proof fn lemma_lex_le_total(a: Seq<char>, b: Seq<char>)
    ensures
        lex_le(a, b) || lex_le(b, a),
    decreases a.len(),
{
    if a.len() > 0 && b.len() > 0 && a[0] == b[0] {
        lemma_lex_le_total(a.drop_first(), b.drop_first());
    }
}

/// `lex_le` is transitive.
pub proof fn lemma_lex_le_trans(a: Seq<char>, b: Seq<char>, c: Seq<char>)
    requires
        lex_le(a, b),
        lex_le(b, c),
    ensures
        lex_le(a, c),
    decreases a.len(),
{
    if a.len() > 0 && b.len() > 0 && c.len() > 0 {
        if a[0] == b[0] && b[0] == c[0] {
            lemma_lex_le_trans(a.drop_first(), b.drop_first(), c.drop_first());
        }
    }
}

/// Whether `a` sorts at or before `b` in code-point order.
pub fn str_lex_le(a: &str, b: &str) -> (r: bool)
    ensures
        r == lex_le(a@, b@),
{
    let la = a.unicode_len();
    let lb = b.unicode_len();
    let mut i: usize = 0;
    proof {
        assert(a@.skip(0) =~= a@);
        assert(b@.skip(0) =~= b@);
    }
    while i < la && i < lb
        invariant
            la == a@.len(),
            lb == b@.len(),
            0 <= i <= la,
            0 <= i <= lb,
            forall|j: int| 0 <= j < i ==> a@[j] == b@[j],
            lex_le(a@, b@) == lex_le(a@.skip(i as int), b@.skip(i as int)),
        decreases la - i,
    {
        let ca = a.get_char(i);
        let cb = b.get_char(i);
        if ca != cb {
            proof {
                assert(a@.skip(i as int)[0] == a@[i as int]);
                assert(b@.skip(i as int)[0] == b@[i as int]);
            }
            return ca < cb;
        }
        proof {
            assert(a@.skip(i as int).drop_first() =~= a@.skip(i + 1));
            assert(b@.skip(i as int).drop_first() =~= b@.skip(i + 1));
        }
        i = i + 1;
    }
    proof {
        if i >= la {
            assert(a@.skip(i as int).len() == 0);
        } else {
            assert(b@.skip(i as int).len() == 0);
            assert(a@.skip(i as int).len() > 0);
        }
    }
    la <= lb
}

} // verus!
