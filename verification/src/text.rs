//! Text helpers over character sequences.

use vstd::prelude::*;

verus! {

/// Equality of two string slices: both hold the same characters.
pub(crate) fn str_eq(a: &str, b: &str) -> (res: bool)
    ensures
        res == (a@ == b@),
{
    let ac = chars_of(a);
    eq_str(ac.as_slice(), b)
}


/// The characters of a string slice, in order.
///
/// Calls `str::chars` and collects them; the contract claims that the vector
/// holds exactly the characters of the slice.
#[verifier::external_body]
pub(crate) fn chars_of(s: &str) -> (res: Vec<char>)
    ensures
        res@ == s@,
{
    s.chars().collect()
}

/// A string made of the given characters.
///
/// Collects the characters into a `String` (std's `FromIterator<&char>`);
/// the contract claims that the string holds exactly those characters.
#[verifier::external_body]
pub(crate) fn string_of(v: &[char]) -> (res: String)
    ensures
        res@ == v@,
{
    v.iter().collect()
}

/// Append all characters of `tail` to `v`.
pub fn push_all(v: &mut Vec<char>, tail: &[char])
    ensures
        final(v)@ == old(v)@ + tail@,
{
    let mut i: usize = 0;
    while i < tail.len()
        invariant
            i <= tail@.len(),
            v@ == old(v)@ + tail@.subrange(0, i as int),
        decreases tail@.len() - i,
    {
        v.push(tail[i]);
        i = i + 1;
        assert(tail@.subrange(0, i as int) == tail@.subrange(0, i - 1).push(tail@[i - 1]));
    }
    assert(tail@.subrange(0, tail@.len() as int) == tail@);
}

/// Append all characters of a string slice to `v`.
pub fn push_str(v: &mut Vec<char>, s: &str)
    ensures
        final(v)@ == old(v)@ + s@,
{
    let c = chars_of(s);
    push_all(v, c.as_slice());
}

/// The character of a decimal digit.
pub open spec fn digit_char(d: nat) -> char {
    if d == 0 {
        '0'
    } else if d == 1 {
        '1'
    } else if d == 2 {
        '2'
    } else if d == 3 {
        '3'
    } else if d == 4 {
        '4'
    } else if d == 5 {
        '5'
    } else if d == 6 {
        '6'
    } else if d == 7 {
        '7'
    } else if d == 8 {
        '8'
    } else {
        '9'
    }
}

/// The decimal digits of a number, most significant first, without leading
/// zeros (zero is written "0").
pub open spec fn decimal(n: nat) -> Seq<char>
    decreases n,
{
    if n < 10 {
        seq![digit_char(n)]
    } else {
        decimal(n / 10).push(digit_char(n % 10))
    }
}

fn digit(d: u64) -> (c: char)
    requires
        d < 10,
    ensures
        c == digit_char(d as nat),
{
    if d == 0 {
        '0'
    } else if d == 1 {
        '1'
    } else if d == 2 {
        '2'
    } else if d == 3 {
        '3'
    } else if d == 4 {
        '4'
    } else if d == 5 {
        '5'
    } else if d == 6 {
        '6'
    } else if d == 7 {
        '7'
    } else if d == 8 {
        '8'
    } else {
        '9'
    }
}

/// The decimal digits of `n`.
pub fn decimal_chars(n: u64) -> (res: Vec<char>)
    ensures
        res@ == decimal(n as nat),
    decreases n,
{
    if n < 10 {
        let mut v: Vec<char> = Vec::new();
        v.push(digit(n));
        v
    } else {
        let mut v = decimal_chars(n / 10);
        v.push(digit(n % 10));
        v
    }
}

/// `n` zero characters.
pub open spec fn zeros(n: nat) -> Seq<char> {
    Seq::new(n, |i: int| '0')
}

/// `s` padded on the left with zeros to at least `width` characters.
pub open spec fn zero_pad(s: Seq<char>, width: nat) -> Seq<char> {
    if s.len() < width {
        zeros((width - s.len()) as nat) + s
    } else {
        s
    }
}

/// The decimal digits of `n`, padded with zeros on the left to `width`.
pub fn zero_padded_decimal(n: u64, width: usize) -> (res: Vec<char>)
    ensures
        res@ == zero_pad(decimal(n as nat), width as nat),
{
    let d = decimal_chars(n);
    let mut v: Vec<char> = Vec::new();
    if d.len() < width {
        let pad = width - d.len();
        let mut i: usize = 0;
        while i < pad
            invariant
                i <= pad,
                v@ == zeros(i as nat),
            decreases pad - i,
        {
            v.push('0');
            i = i + 1;
            assert(v@ =~= zeros(i as nat));
        }
    }
    push_all(&mut v, d.as_slice());
    proof {
        if d@.len() >= width {
            assert(v@ =~= d@);
        }
    }
    v
}


/// Ten to the power `w`.
pub open spec fn pow10(w: nat) -> nat
    decreases w,
{
    if w == 0 {
        1
    } else {
        10 * pow10((w - 1) as nat)
    }
}

/// The last `w` decimal digits of `n`, most significant first.
pub open spec fn fixed_digits(n: nat, w: nat) -> Seq<char>
    decreases w,
{
    if w == 0 {
        Seq::empty()
    } else {
        fixed_digits(n / 10, (w - 1) as nat).push(digit_char(n % 10))
    }
}

/// Lexicographic order of character sequences, by code point, as `Ord` of
/// `str` orders them.
pub open spec fn chars_lt(a: Seq<char>, b: Seq<char>) -> bool {
    exists|i: int|
        0 <= i <= a.len() && i <= b.len() && #[trigger] a.subrange(0, i) == b.subrange(0, i) && (
        (i < a.len() && i < b.len() && (a[i] as u32) < (b[i] as u32)) || (i == a.len() && i
            < b.len()))
}

proof fn lemma_digit_char_mono(x: nat, y: nat)
    requires
        x < y < 10,
    ensures
        (digit_char(x) as u32) < (digit_char(y) as u32),
{
}

proof fn lemma_div10_bound(n: nat, w: nat)
    requires
        w >= 1,
        n < pow10(w),
    ensures
        n / 10 < pow10((w - 1) as nat),
{
    let p = pow10((w - 1) as nat);
    assert(pow10(w) == 10 * p);
    assert(n / 10 < p) by (nonlinear_arith)
        requires
            n < 10 * p,
    ;
}

proof fn lemma_decimal_len(n: nat, w: nat)
    requires
        w >= 1,
        n < pow10(w),
    ensures
        decimal(n).len() <= w,
    decreases w,
{
    if n >= 10 {
        lemma_div10_bound(n, w);
        if w == 1 {
            assert(pow10(1) == 10 * pow10(0));
        } else {
            lemma_decimal_len(n / 10, (w - 1) as nat);
        }
    }
}

/// Below `10^w`, the zero-padded decimal digits are the last `w` digits.
pub proof fn lemma_zero_pad_fixed(n: nat, w: nat)
    requires
        w >= 1,
        n < pow10(w),
    ensures
        zero_pad(decimal(n), w) == fixed_digits(n, w),
    decreases w,
{
    lemma_div10_bound(n, w);
    if w == 1 {
        assert(pow10(1) == 10 * pow10(0));
        assert(fixed_digits(0, 0) =~= Seq::<char>::empty());
        assert(zero_pad(decimal(n), w) =~= fixed_digits(n, w));
    } else {
        let w1 = (w - 1) as nat;
        lemma_zero_pad_fixed(n / 10, w1);
        lemma_decimal_len(n / 10, w1);
        if n < 10 {
            assert(n / 10 == 0);
            assert(decimal(0) =~= seq!['0']);
            assert(zero_pad(decimal(0), w1) =~= zeros(w1));
            assert(zero_pad(decimal(n), w) =~= zeros(w1).push(digit_char(n % 10)));
        } else {
            let d = decimal(n / 10);
            assert(decimal(n) == d.push(digit_char(n % 10)));
            if d.len() < w1 {
                assert(zero_pad(decimal(n), w) =~= zero_pad(d, w1).push(digit_char(n % 10)));
            } else {
                assert(zero_pad(decimal(n), w) =~= zero_pad(d, w1).push(digit_char(n % 10)));
            }
        }
    }
}

proof fn lemma_fixed_len(n: nat, w: nat)
    ensures
        fixed_digits(n, w).len() == w,
    decreases w,
{
    if w > 0 {
        lemma_fixed_len(n / 10, (w - 1) as nat);
    }
}

/// The last `w` digits of a number are ASCII characters.
pub proof fn lemma_fixed_digits_ascii(n: nat, w: nat)
    ensures
        vstd::utf8::is_ascii_chars(fixed_digits(n, w)),
    decreases w,
{
    if w > 0 {
        lemma_fixed_digits_ascii(n / 10, (w - 1) as nat);
        let f = fixed_digits(n, w);
        let p = fixed_digits(n / 10, (w - 1) as nat);
        assert forall|i: int| 0 <= i < f.len() implies '\0' <= #[trigger] f[i] <= '\u{7f}' by {
            if i < p.len() {
                assert(f[i] == p[i]);
            }
        }
    }
}

/// A decimal digit character.
pub open spec fn is_digit(c: char) -> bool {
    '0' <= c <= '9'
}

/// The number that a sequence of decimal digit characters writes.
pub open spec fn digits_value(s: Seq<char>) -> nat
    decreases s.len(),
{
    if s.len() == 0 {
        0
    } else {
        digits_value(s.drop_last()) * 10 + ((s.last() as u32) - ('0' as u32)) as nat
    }
}

proof fn lemma_pow10_positive(w: nat)
    ensures
        pow10(w) > 0,
    decreases w,
{
    if w > 0 {
        lemma_pow10_positive((w - 1) as nat);
    }
}

/// The last `w` digits of `n` are `w` decimal digits writing `n` modulo
/// `10^w`.
pub proof fn lemma_fixed_digits_value(n: nat, w: nat)
    ensures
        fixed_digits(n, w).len() == w,
        forall|i: int| 0 <= i < w ==> is_digit(#[trigger] fixed_digits(n, w)[i]),
        digits_value(fixed_digits(n, w)) == n % pow10(w),
    decreases w,
{
    if w == 0 {
        assert(n % 1 == 0);
    } else {
        let w1 = (w - 1) as nat;
        lemma_fixed_digits_value(n / 10, w1);
        let f = fixed_digits(n, w);
        let p = fixed_digits(n / 10, w1);
        assert(f.drop_last() =~= p);
        assert forall|i: int| 0 <= i < w implies is_digit(#[trigger] f[i]) by {
            if i < w1 {
                assert(f[i] == p[i]);
            }
        }
        let d = n % 10;
        assert((digit_char(d) as u32) - ('0' as u32) == d);
        lemma_pow10_positive(w1);
        vstd::arithmetic::div_mod::lemma_breakdown(n as int, 10, pow10(w1) as int);
        assert(pow10(w) == 10 * pow10(w1));
        assert(digits_value(f) == (n / 10 % pow10(w1)) * 10 + d);
        assert(n % pow10(w) == 10 * ((n / 10) % pow10(w1)) + n % 10);
    }
}

/// No character sequence orders before itself.
pub proof fn lemma_chars_lt_irreflexive(a: Seq<char>)
    ensures
        !chars_lt(a, a),
{
}

/// Two character sequences never order before each other.
pub proof fn lemma_chars_lt_asymmetric(a: Seq<char>, b: Seq<char>)
    requires
        chars_lt(a, b),
    ensures
        !chars_lt(b, a),
{
    let i = choose|i: int|
        0 <= i <= a.len() && i <= b.len() && #[trigger] a.subrange(0, i) == b.subrange(0, i) && (
        (i < a.len() && i < b.len() && (a[i] as u32) < (b[i] as u32)) || (i == a.len() && i
            < b.len()));
    if chars_lt(b, a) {
        let j = choose|j: int|
            0 <= j <= b.len() && j <= a.len() && #[trigger] b.subrange(0, j) == a.subrange(0, j)
                && ((j < b.len() && j < a.len() && (b[j] as u32) < (a[j] as u32)) || (j == b.len()
                && j < a.len()));
        if i < j {
            assert(a.subrange(0, j)[i] == b.subrange(0, j)[i]);
        } else if j < i {
            assert(a.subrange(0, i)[j] == b.subrange(0, i)[j]);
        }
    }
}

/// Below `10^w`, the last `w` digits order as the numbers do.
pub proof fn lemma_fixed_digits_order(a: nat, b: nat, w: nat)
    requires
        w >= 1,
        a < b < pow10(w),
    ensures
        chars_lt(fixed_digits(a, w), fixed_digits(b, w)),
    decreases w,
{
    let w1 = (w - 1) as nat;
    lemma_div10_bound(a, w);
    lemma_div10_bound(b, w);
    lemma_fixed_len(a / 10, w1);
    lemma_fixed_len(b / 10, w1);
    let fa = fixed_digits(a, w);
    let fb = fixed_digits(b, w);
    let pa = fixed_digits(a / 10, w1);
    let pb = fixed_digits(b / 10, w1);
    assert(fa == pa.push(digit_char(a % 10)));
    assert(fb == pb.push(digit_char(b % 10)));
    if a / 10 == b / 10 {
        assert(a % 10 < b % 10);
        lemma_digit_char_mono(a % 10, b % 10);
        let i = w1 as int;
        assert(fa.subrange(0, i) =~= pa);
        assert(fb.subrange(0, i) =~= pb);
        assert(fa.subrange(0, i) == fb.subrange(0, i));
    } else {
        assert(a / 10 < b / 10);
        if w == 1 {
            assert(pow10(1) == 10 * pow10(0));
            assert(false);
        }
        lemma_fixed_digits_order(a / 10, b / 10, w1);
        let i = choose|i: int|
            0 <= i <= pa.len() && i <= pb.len() && #[trigger] pa.subrange(0, i) == pb.subrange(0, i)
                && ((i < pa.len() && i < pb.len() && (pa[i] as u32) < (pb[i] as u32)) || (i
                == pa.len() && i < pb.len()));
        assert(fa.subrange(0, i) =~= pa.subrange(0, i));
        assert(fb.subrange(0, i) =~= pb.subrange(0, i));
        assert(fa.subrange(0, i) == fb.subrange(0, i));
        assert(fa[i] == pa[i]);
        assert(fb[i] == pb[i]);
    }
}


/// Whether a character is white space: the Unicode `White_Space` property,
/// as `char::is_whitespace` tests it.
pub open spec fn is_ws(c: char) -> bool {
    let u = c as u32;
    (0x9 <= u <= 0xd) || u == 0x20 || u == 0x85 || u == 0xa0 || u == 0x1680 || (0x2000 <= u
        <= 0x200a) || u == 0x2028 || u == 0x2029 || u == 0x202f || u == 0x205f || u == 0x3000
}

/// Whether `c` is white space.
pub fn is_whitespace(c: char) -> (res: bool)
    ensures
        res == is_ws(c),
{
    let u = c as u32;
    (0x9 <= u && u <= 0xd) || u == 0x20 || u == 0x85 || u == 0xa0 || u == 0x1680 || (0x2000 <= u
        && u <= 0x200a) || u == 0x2028 || u == 0x2029 || u == 0x202f || u == 0x205f || u == 0x3000
}

/// `n` occurs in `h` at position `i`.
pub open spec fn occurs_at(h: Seq<char>, n: Seq<char>, i: int) -> bool {
    0 <= i && i + n.len() <= h.len() && h.subrange(i, i + n.len()) == n
}

/// `n` occurs somewhere in `h` (the empty sequence occurs everywhere).
pub open spec fn seq_contains(h: Seq<char>, n: Seq<char>) -> bool {
    exists|i: int| #[trigger] occurs_at(h, n, i)
}

/// `h` begins with `p`.
pub open spec fn seq_starts_with(h: Seq<char>, p: Seq<char>) -> bool {
    occurs_at(h, p, 0)
}

fn matches_at(h: &[char], n: &[char], i: usize) -> (res: bool)
    requires
        i + n@.len() <= h@.len(),
    ensures
        res == occurs_at(h@, n@, i as int),
{
    let hl = h.len();
    let mut j: usize = 0;
    while j < n.len()
        invariant
            hl == h@.len(),
            i + n@.len() <= h@.len(),
            j <= n@.len(),
            forall|k: int| 0 <= k < j ==> h@[i + k] == n@[k],
        decreases n@.len() - j,
    {
        assert(i + j < hl);
        if h[i + j] != n[j] {
            assert(h@.subrange(i as int, i + n@.len())[j as int] != n@[j as int]);
            return false;
        }
        j = j + 1;
    }
    assert(h@.subrange(i as int, i + n@.len()) =~= n@);
    true
}

/// Whether `n` occurs in `h`.
pub fn contains(h: &[char], n: &[char]) -> (res: bool)
    ensures
        res == seq_contains(h@, n@),
{
    if n.len() > h.len() {
        assert forall|i: int| !occurs_at(h@, n@, i) by {}
        return false;
    }
    let last = h.len() - n.len();
    let mut i: usize = 0;
    while i < last
        invariant
            last == h@.len() - n@.len(),
            i <= last,
            forall|k: int| 0 <= k < i ==> !occurs_at(h@, n@, k),
        decreases last - i,
    {
        if matches_at(h, n, i) {
            return true;
        }
        i = i + 1;
    }
    if matches_at(h, n, last) {
        return true;
    }
    assert forall|k: int| !occurs_at(h@, n@, k) by {
        if 0 <= k < i {
        }
    }
    false
}

/// Whether `n` occurs in `h`, `n` given as text.
pub fn contains_str(h: &[char], n: &str) -> (res: bool)
    ensures
        res == seq_contains(h@, n@),
{
    let nc = chars_of(n);
    contains(h, nc.as_slice())
}

/// Whether `h` begins with `p`.
pub fn starts_with(h: &[char], p: &[char]) -> (res: bool)
    ensures
        res == seq_starts_with(h@, p@),
{
    if p.len() > h.len() {
        false
    } else {
        matches_at(h, p, 0)
    }
}

/// The line of `cur` once its newline is read: a carriage return before the
/// newline is dropped.
pub open spec fn strip_cr(cur: Seq<char>) -> Seq<char> {
    if cur.len() > 0 && cur.last() == '\r' {
        cur.drop_last()
    } else {
        cur
    }
}

/// The lines completed so far, and the line being read, after reading `s`.
pub open spec fn lines_acc(s: Seq<char>) -> (Seq<Seq<char>>, Seq<char>)
    decreases s.len(),
{
    if s.len() == 0 {
        (Seq::empty(), Seq::empty())
    } else {
        let (done, cur) = lines_acc(s.drop_last());
        if s.last() == '\n' {
            (done.push(strip_cr(cur)), Seq::empty())
        } else {
            (done, cur.push(s.last()))
        }
    }
}

/// The lines of `s`, as `str::lines` gives them: split at each newline, a
/// carriage return before a newline dropped, and no empty last line after a
/// final newline.
pub open spec fn lines(s: Seq<char>) -> Seq<Seq<char>> {
    let (done, cur) = lines_acc(s);
    if cur.len() == 0 {
        done
    } else {
        done.push(cur)
    }
}

/// The characters of each vector.
pub open spec fn char_vecs(v: Seq<Vec<char>>) -> Seq<Seq<char>> {
    v.map_values(|x: Vec<char>| x@)
}

fn strip_cr_exec(cur: Vec<char>) -> (res: Vec<char>)
    ensures
        res@ == strip_cr(cur@),
{
    let mut cur = cur;
    if cur.len() > 0 && cur[cur.len() - 1] == '\r' {
        cur.pop();
    }
    cur
}

/// The lines of `s`.
pub fn lines_of(s: &[char]) -> (res: Vec<Vec<char>>)
    ensures
        char_vecs(res@) == lines(s@),
{
    let mut done: Vec<Vec<char>> = Vec::new();
    let mut cur: Vec<char> = Vec::new();
    let mut i: usize = 0;
    while i < s.len()
        invariant
            i <= s@.len(),
            (char_vecs(done@), cur@) == lines_acc(s@.subrange(0, i as int)),
        decreases s@.len() - i,
    {
        assert(s@.subrange(0, i + 1).drop_last() =~= s@.subrange(0, i as int));
        if s[i] == '\n' {
            let line = strip_cr_exec(cur);
            done.push(line);
            cur = Vec::new();
            assert(char_vecs(done@) =~= lines_acc(s@.subrange(0, i as int)).0.push(
                strip_cr(lines_acc(s@.subrange(0, i as int)).1),
            ));
        } else {
            cur.push(s[i]);
        }
        i = i + 1;
    }
    assert(s@.subrange(0, s@.len() as int) =~= s@);
    if cur.len() > 0 {
        done.push(cur);
        assert(char_vecs(done@) =~= lines_acc(s@).0.push(lines_acc(s@).1));
    }
    done
}

/// The words found so far, and the word being read, after reading `s`.
pub open spec fn words_acc(s: Seq<char>) -> (Seq<Seq<char>>, Seq<char>)
    decreases s.len(),
{
    if s.len() == 0 {
        (Seq::empty(), Seq::empty())
    } else {
        let (done, cur) = words_acc(s.drop_last());
        if is_ws(s.last()) {
            if cur.len() > 0 {
                (done.push(cur), Seq::empty())
            } else {
                (done, cur)
            }
        } else {
            (done, cur.push(s.last()))
        }
    }
}

/// The words of `s`, as `str::split_whitespace` gives them: the non-empty
/// runs of characters that are not white space.
pub open spec fn words(s: Seq<char>) -> Seq<Seq<char>> {
    let (done, cur) = words_acc(s);
    if cur.len() == 0 {
        done
    } else {
        done.push(cur)
    }
}

/// The words of `s`.
pub fn words_of(s: &[char]) -> (res: Vec<Vec<char>>)
    ensures
        char_vecs(res@) == words(s@),
{
    let mut done: Vec<Vec<char>> = Vec::new();
    let mut cur: Vec<char> = Vec::new();
    let mut i: usize = 0;
    while i < s.len()
        invariant
            i <= s@.len(),
            (char_vecs(done@), cur@) == words_acc(s@.subrange(0, i as int)),
        decreases s@.len() - i,
    {
        assert(s@.subrange(0, i + 1).drop_last() =~= s@.subrange(0, i as int));
        if is_whitespace(s[i]) {
            if cur.len() > 0 {
                done.push(cur);
                cur = Vec::new();
                assert(char_vecs(done@) =~= words_acc(s@.subrange(0, i as int)).0.push(
                    words_acc(s@.subrange(0, i as int)).1,
                ));
            }
        } else {
            cur.push(s[i]);
        }
        i = i + 1;
    }
    assert(s@.subrange(0, s@.len() as int) =~= s@);
    if cur.len() > 0 {
        done.push(cur);
        assert(char_vecs(done@) =~= words_acc(s@).0.push(words_acc(s@).1));
    }
    done
}

/// `s` without its leading white space.
pub open spec fn trim_start(s: Seq<char>) -> Seq<char>
    decreases s.len(),
{
    if s.len() > 0 && is_ws(s[0]) {
        trim_start(s.drop_first())
    } else {
        s
    }
}

/// `s` without its trailing white space.
pub open spec fn trim_end(s: Seq<char>) -> Seq<char>
    decreases s.len(),
{
    if s.len() > 0 && is_ws(s.last()) {
        trim_end(s.drop_last())
    } else {
        s
    }
}

/// `s` without leading and trailing white space, as `str::trim` gives it.
pub open spec fn trim(s: Seq<char>) -> Seq<char> {
    trim_end(trim_start(s))
}

/// `s` without leading and trailing white space.
pub fn trim_chars(s: &[char]) -> (res: Vec<char>)
    ensures
        res@ == trim(s@),
{
    let mut a: usize = 0;
    assert(s@.subrange(0, s@.len() as int) =~= s@);
    while a < s.len() && is_whitespace(s[a])
        invariant
            a <= s@.len(),
            trim_start(s@) == trim_start(s@.subrange(a as int, s@.len() as int)),
        decreases s@.len() - a,
    {
        assert(s@.subrange(a as int, s@.len() as int).drop_first() =~= s@.subrange(
            a + 1,
            s@.len() as int,
        ));
        a = a + 1;
    }
    let ghost st = s@.subrange(a as int, s@.len() as int);
    assert(trim_start(st) == st);
    let mut b: usize = s.len();
    while b > a && is_whitespace(s[b - 1])
        invariant
            a <= b <= s@.len(),
            st == s@.subrange(a as int, s@.len() as int),
            trim_end(st) == trim_end(s@.subrange(a as int, b as int)),
        decreases b - a,
    {
        assert(s@.subrange(a as int, b as int).drop_last() =~= s@.subrange(a as int, b - 1));
        b = b - 1;
    }
    let mut out: Vec<char> = Vec::new();
    push_all(&mut out, &s[a..b]);
    out
}

/// `s` with every NUL character replaced by a space.
pub open spec fn nul_to_space(s: Seq<char>) -> Seq<char> {
    s.map_values(|c: char| if c == '\0' { ' ' } else { c })
}

/// `s` with every NUL character replaced by a space.
pub fn replace_nul(s: &[char]) -> (res: Vec<char>)
    ensures
        res@ == nul_to_space(s@),
{
    let mut out: Vec<char> = Vec::new();
    let mut i: usize = 0;
    while i < s.len()
        invariant
            i <= s@.len(),
            out@ == nul_to_space(s@.subrange(0, i as int)),
        decreases s@.len() - i,
    {
        let c = if s[i] == '\0' {
            ' '
        } else {
            s[i]
        };
        out.push(c);
        i = i + 1;
        assert(out@ =~= nul_to_space(s@.subrange(0, i as int)));
    }
    assert(s@.subrange(0, s@.len() as int) =~= s@);
    out
}

/// What `str::to_lowercase` makes of `s`: each character replaced by its
/// Unicode lowercase mapping.
pub uninterp spec fn lowercase(s: Seq<char>) -> Seq<char>;

/// The ASCII lowercase of `s`: `A` to `Z` become `a` to `z`, every other
/// character stays.
pub open spec fn ascii_lower(s: Seq<char>) -> Seq<char> {
    s.map_values(|c: char| if 'A' <= c <= 'Z' {
        ((c as u32) + 32) as char
    } else {
        c
    })
}

/// `s` in lowercase.
///
/// Calls `str::to_lowercase`. The contract claims that the result is a
/// function of the characters of `s` (std's Unicode tables are fixed for a
/// given std) and that ASCII text lowercases as ASCII does (Unicode's
/// lowercase mapping sends `A` to `Z` to `a` to `z` and leaves the other
/// ASCII characters alone); the mapping of other characters is left
/// unsaid.
#[verifier::external_body]
pub(crate) fn to_lowercase(s: &str) -> (res: String)
    ensures
        res@ == lowercase(s@),
        vstd::utf8::is_ascii_chars(s@) ==> res@ == ascii_lower(s@),
{
    s.to_lowercase()
}

/// The value of a hexadecimal digit (either case).
pub open spec fn hex_digit(c: char) -> Option<nat> {
    let u = c as u32;
    if 0x30 <= u <= 0x39 {
        Some((u - 0x30) as nat)
    } else if 0x61 <= u <= 0x66 {
        Some((u - 0x61 + 10) as nat)
    } else if 0x41 <= u <= 0x46 {
        Some((u - 0x41 + 10) as nat)
    } else {
        None
    }
}

/// The value of a sequence of hexadecimal digits, if all are digits.
pub open spec fn hex_value(s: Seq<char>) -> Option<nat>
    decreases s.len(),
{
    if s.len() == 0 {
        Some(0)
    } else {
        match (hex_value(s.drop_last()), hex_digit(s.last())) {
            (Some(v), Some(d)) => Some(v * 16 + d),
            _ => None,
        }
    }
}

/// What `u16::from_str_radix(s, 16)` gives: an optional `+` sign, then one
/// or more hexadecimal digits whose value fits in 16 bits.
pub open spec fn parse_hex_u16(s: Seq<char>) -> Option<u16> {
    if s.len() == 0 || s == seq!['+'] || s == seq!['-'] {
        None
    } else {
        let digits = if s[0] == '+' {
            s.drop_first()
        } else {
            s
        };
        match hex_value(digits) {
            Some(v) => if v <= 0xffff {
                Some(v as u16)
            } else {
                None
            },
            None => None,
        }
    }
}

fn hex_digit_exec(c: char) -> (res: Option<u32>)
    ensures
        match hex_digit(c) {
            Some(d) => res == Some(d as u32),
            None => res is None,
        },
{
    let u = c as u32;
    if 0x30 <= u && u <= 0x39 {
        Some(u - 0x30)
    } else if 0x61 <= u && u <= 0x66 {
        Some(u - 0x61 + 10)
    } else if 0x41 <= u && u <= 0x46 {
        Some(u - 0x41 + 10)
    } else {
        None
    }
}

proof fn lemma_hex_value_grows(s: Seq<char>, i: int)
    requires
        0 <= i <= s.len(),
        hex_value(s) is Some,
    ensures
        hex_value(s.subrange(0, i)) is Some,
        hex_value(s.subrange(0, i))->0 <= hex_value(s)->0,
    decreases s.len() - i,
{
    if i < s.len() {
        lemma_hex_value_grows(s, i + 1);
        assert(s.subrange(0, i + 1).drop_last() =~= s.subrange(0, i));
    } else {
        assert(s.subrange(0, i) =~= s);
    }
}

/// The 16-bit value of hexadecimal text, as `u16::from_str_radix(s, 16)`
/// reads it.
pub fn parse_hex(s: &[char]) -> (res: Option<u16>)
    ensures
        res == parse_hex_u16(s@),
{
    if s.len() == 0 {
        return None;
    }
    if s.len() == 1 && (s[0] == '+' || s[0] == '-') {
        assert(s@ =~= seq![s@[0]]);
        return None;
    }
    proof {
        if s@ == seq!['+'] || s@ == seq!['-'] {
            assert(s@.len() == 1);
        }
    }
    let start: usize = if s[0] == '+' {
        1
    } else {
        0
    };
    let ghost digits = s@.subrange(start as int, s@.len() as int);
    assert(digits =~= (if s@[0] == '+' {
        s@.drop_first()
    } else {
        s@
    }));
    assert(parse_hex_u16(s@) == match hex_value(digits) {
        Some(v) => if v <= 0xffff {
            Some(v as u16)
        } else {
            None
        },
        None => None,
    });
    let mut v: u32 = 0;
    let mut i: usize = start;
    assert(digits.subrange(0, 0) =~= Seq::<char>::empty());
    while i < s.len()
        invariant
            start <= i <= s@.len(),
            parse_hex_u16(s@) == match hex_value(digits) {
                Some(v) => if v <= 0xffff {
                    Some(v as u16)
                } else {
                    None
                },
                None => None,
            },
            digits == s@.subrange(start as int, s@.len() as int),
            hex_value(digits.subrange(0, i - start)) == Some(v as nat),
            v <= 0xffff,
        decreases s@.len() - i,
    {
        assert(digits.subrange(0, i + 1 - start).drop_last() =~= digits.subrange(0, i - start));
        assert(digits[i - start] == s@[i as int]);
        match hex_digit_exec(s[i]) {
            Some(d) => {
                let next = v * 16 + d;
                assert(hex_value(digits.subrange(0, i + 1 - start)) == Some(next as nat));
                if next > 0xffff {
                    proof {
                        if hex_value(digits) is Some {
                            lemma_hex_value_grows(digits, i + 1 - start);
                        }
                    }
                    return None;
                }
                v = next;
            },
            None => {
                assert(hex_value(digits.subrange(0, i + 1 - start)) is None);
                proof {
                    if hex_value(digits) is Some {
                        lemma_hex_value_grows(digits, i + 1 - start);
                    }
                }
                return None;
            },
        }
        i = i + 1;
    }
    assert(digits.subrange(0, s@.len() - start) =~= digits);
    Some(v as u16)
}


/// Whether `a` holds exactly the characters of `b`.
pub fn eq_str(a: &[char], b: &str) -> (res: bool)
    ensures
        res == (a@ == b@),
{
    let bc = chars_of(b);
    if a.len() != bc.len() {
        return false;
    }
    let r = starts_with(a, bc.as_slice());
    assert(a@.subrange(0, bc@.len() as int) =~= a@);
    r
}


/// The characters of `s` from position `start` on.
pub fn tail_from(s: &[char], start: usize) -> (res: Vec<char>)
    requires
        start <= s@.len(),
    ensures
        res@ == s@.subrange(start as int, s@.len() as int),
{
    let mut out: Vec<char> = Vec::new();
    let mut i: usize = start;
    while i < s.len()
        invariant
            start <= i <= s@.len(),
            out@ == s@.subrange(start as int, i as int),
        decreases s@.len() - i,
    {
        out.push(s[i]);
        i = i + 1;
        assert(out@ =~= s@.subrange(start as int, i as int));
    }
    out
}

} // verus!
