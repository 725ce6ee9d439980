//! Text handling: comparing, splitting, trimming, reading and printing numbers.
//!
//! Strings are modelled by their sequences of characters.

use vstd::arithmetic::power::{lemma_pow1, pow};
use vstd::prelude::*;

verus! {

/// `String::push` appends one character.
pub assume_specification[ String::push ](s: &mut String, c: char)
    ensures
        final(s)@ == old(s)@.push(c),
;

/// The texts that a sequence of strings holds.
pub open spec fn texts(v: Seq<String>) -> Seq<Seq<char>> {
    Seq::new(v.len(), |i: int| v[i]@)
}

/// A vector with the same strings.
pub fn copied_strings(v: &Vec<String>) -> (r: Vec<String>)
    ensures
        r@ == v@,
{
    let mut r: Vec<String> = Vec::new();
    let mut i: usize = 0;
    while i < v.len()
        invariant
            i <= v@.len(),
            r@ =~= v@.take(i as int),
        decreases v@.len() - i,
    {
        r.push(v[i].clone());
        i += 1;
    }
    r
}

/// The text of an optional string.
pub open spec fn opt_text(s: Option<String>) -> Option<Seq<char>> {
    match s {
        Some(t) => Some(t@),
        None => None,
    }
}

/// The position of the first `c` in `s`, or `s.len()` where there is none.
pub open spec fn first_index(s: Seq<char>, c: char) -> nat
    decreases s.len(),
{
    if s.len() == 0 || s[0] == c {
        0
    } else {
        1 + first_index(s.drop_first(), c)
    }
}

/// `s` cut at its first `c`, which is dropped; `None` where `s` holds no `c`.
pub open spec fn cut_once(s: Seq<char>, c: char) -> Option<(Seq<char>, Seq<char>)> {
    if first_index(s, c) < s.len() {
        Some((s.take(first_index(s, c) as int), s.skip(first_index(s, c) as int + 1)))
    } else {
        None
    }
}

/// The pieces of `s` between its `c`s: one more than there are `c`s.
pub open spec fn cut_all(s: Seq<char>, c: char) -> Seq<Seq<char>>
    decreases s.len(),
{
    match cut_once(s, c) {
        Some((head, tail)) => seq![head] + cut_all(tail, c),
        None => seq![s],
    }
}

/// The pieces of `s` between its `c`s, at most `n` of them: the last one keeps
/// the `c`s that follow.
pub open spec fn cut_at_most(s: Seq<char>, c: char, n: nat) -> Seq<Seq<char>>
    decreases n,
{
    if n <= 1 {
        seq![s]
    } else {
        match cut_once(s, c) {
            Some((head, tail)) => seq![head] + cut_at_most(tail, c, (n - 1) as nat),
            None => seq![s],
        }
    }
}

/// `first_index` is the position of the first occurrence.
pub proof fn lemma_first_index(s: Seq<char>, c: char)
    ensures
        first_index(s, c) <= s.len(),
        first_index(s, c) < s.len() ==> s[first_index(s, c) as int] == c,
        forall|i: int| 0 <= i < first_index(s, c) ==> s[i] != c,
        first_index(s, c) < s.len() <==> s.contains(c),
    decreases s.len(),
{
    if s.len() != 0 && s[0] != c {
        let rest = s.drop_first();
        lemma_first_index(rest, c);
        assert forall|i: int| 0 <= i < first_index(s, c) implies s[i] != c by {
            if i > 0 {
                assert(rest[i - 1] == s[i]);
            }
        }
        if s.contains(c) {
            let i = choose|i: int| 0 <= i < s.len() && s[i] == c;
            assert(rest[i - 1] == c);
        }
    }
}

/// A position that holds `c` with no `c` before it is the first one.
proof fn lemma_first_index_is(s: Seq<char>, c: char, k: int)
    requires
        0 <= k <= s.len(),
        forall|i: int| 0 <= i < k ==> s[i] != c,
        k < s.len() ==> s[k] == c,
    ensures
        first_index(s, c) == k,
{
    lemma_first_index(s, c);
    let f = first_index(s, c) as int;
    if f < k {
        assert(s[f] == c);
    }
    if k < f {
        assert(s[k] != c);
    }
}

/// The characters of `s`.
pub fn chars(s: &str) -> (r: Vec<char>)
    ensures
        r@ == s@,
{
    let mut r: Vec<char> = Vec::new();
    for c in it: s.chars()
        invariant
            r@ == it.seq().take(it.index()),
    {
        r.push(c);
    }
    r
}

/// The string of the characters `cs[from..to]`.
pub fn string_of(cs: &Vec<char>, from: usize, to: usize) -> (r: String)
    requires
        from <= to <= cs@.len(),
    ensures
        r@ == cs@.subrange(from as int, to as int),
{
    let mut r = String::new();
    let mut i: usize = from;
    while i < to
        invariant
            from <= i <= to <= cs@.len(),
            r@ == cs@.subrange(from as int, i as int),
        decreases to - i,
    {
        r.push(cs[i]);
        i += 1;
        assert(cs@.subrange(from as int, i as int) =~= cs@.subrange(from as int, i - 1).push(
            cs@[i - 1],
        ));
    }
    r
}

/// Whether two strings hold the same text.
pub fn str_eq(a: &str, b: &str) -> (r: bool)
    ensures
        r == (a@ == b@),
{
    let x = chars(a);
    let y = chars(b);
    if x.len() != y.len() {
        return false;
    }
    let mut i: usize = 0;
    while i < x.len()
        invariant
            x@ == a@,
            y@ == b@,
            x@.len() == y@.len(),
            i <= x@.len(),
            forall|j: int| 0 <= j < i ==> x@[j] == y@[j],
        decreases x@.len() - i,
    {
        if x[i] != y[i] {
            assert(a@[i as int] != b@[i as int]);
            return false;
        }
        i += 1;
    }
    assert(a@ =~= b@);
    true
}

/// `a` followed by `b`.
pub fn cat(a: &str, b: &str) -> (r: String)
    ensures
        r@ == a@ + b@,
{
    let mut r = a.to_owned();
    r.append(b);
    r
}

/// `a`, `b` and `c` in a row.
pub fn cat3(a: &str, b: &str, c: &str) -> (r: String)
    ensures
        r@ == a@ + b@ + c@,
{
    let mut r = a.to_owned();
    r.append(b);
    r.append(c);
    r
}

/// The position of the first `c` at or after `from`, or the length.
fn find_char(cs: &Vec<char>, c: char, from: usize) -> (r: usize)
    requires
        from <= cs@.len(),
    ensures
        from <= r <= cs@.len(),
        r - from == first_index(cs@.skip(from as int), c),
{
    let mut i: usize = from;
    while i < cs.len()
        invariant
            from <= i <= cs@.len(),
            forall|j: int| from <= j < i ==> cs@[j] != c,
        decreases cs@.len() - i,
    {
        if cs[i] == c {
            proof {
                lemma_first_index_is(cs@.skip(from as int), c, i - from);
            }
            return i;
        }
        i += 1;
    }
    proof {
        lemma_first_index_is(cs@.skip(from as int), c, i - from);
    }
    i
}

/// Cuts `s` at its first `c`.
pub fn split_once(s: &str, c: char) -> (r: Option<(String, String)>)
    ensures
        match r {
            Some((head, tail)) => cut_once(s@, c) == Some((head@, tail@)),
            None => cut_once(s@, c) is None,
        },
{
    let cs = chars(s);
    let i = find_char(&cs, c, 0);
    assert(cs@.skip(0) =~= s@);
    if i < cs.len() {
        let head = string_of(&cs, 0, i);
        let tail = string_of(&cs, i + 1, cs.len());
        assert(head@ =~= s@.take(i as int));
        assert(tail@ =~= s@.skip(i + 1));
        Some((head, tail))
    } else {
        None
    }
}

/// Cuts `s` at every `c`, into at most `n` pieces.
pub fn split_at_most(s: &str, c: char, n: usize) -> (r: Vec<String>)
    requires
        n >= 1,
    ensures
        texts(r@) == cut_at_most(s@, c, n as nat),
{
    let cs = chars(s);
    let mut r: Vec<String> = Vec::new();
    let mut from: usize = 0;
    let mut left: usize = n;
    assert(cs@.skip(0) =~= s@);
    assert(texts(r@) + cut_at_most(s@, c, n as nat) =~= cut_at_most(s@, c, n as nat));
    while left > 1
        invariant
            cs@ == s@,
            from <= cs@.len(),
            1 <= left <= n,
            texts(r@) + cut_at_most(cs@.skip(from as int), c, left as nat) == cut_at_most(
                s@,
                c,
                n as nat,
            ),
        decreases left,
    {
        let ghost rest = cs@.skip(from as int);
        let i = find_char(&cs, c, from);
        if i == cs.len() {
            let ghost before = r@;
            let piece = string_of(&cs, from, i);
            assert(piece@ =~= rest);
            r.push(piece);
            assert(texts(r@) =~= texts(before) + seq![rest]);
            return r;
        }
        let ghost before = r@;
        let piece = string_of(&cs, from, i);
        assert(piece@ =~= rest.take(i - from));
        assert(rest.skip(i - from + 1) =~= cs@.skip(i + 1));
        r.push(piece);
        assert(texts(r@) =~= texts(before) + seq![rest.take(i - from)]);
        assert(texts(before) + (seq![rest.take(i - from)] + cut_at_most(
            cs@.skip(i + 1),
            c,
            (left - 1) as nat,
        )) =~= texts(r@) + cut_at_most(cs@.skip(i + 1), c, (left - 1) as nat));
        from = i + 1;
        left -= 1;
    }
    let ghost before = r@;
    let piece = string_of(&cs, from, cs.len());
    assert(piece@ =~= cs@.skip(from as int));
    r.push(piece);
    assert(texts(r@) =~= texts(before) + seq![cs@.skip(from as int)]);
    r
}

/// Cuts `s` at every `c`.
pub fn split(s: &str, c: char) -> (r: Vec<String>)
    ensures
        texts(r@) == cut_all(s@, c),
{
    let cs = chars(s);
    let mut r: Vec<String> = Vec::new();
    let mut from: usize = 0;
    assert(cs@.skip(0) =~= s@);
    assert(texts(r@) + cut_all(s@, c) =~= cut_all(s@, c));
    loop
        invariant
            cs@ == s@,
            from <= cs@.len(),
            texts(r@) + cut_all(cs@.skip(from as int), c) == cut_all(s@, c),
        decreases cs@.len() - from,
    {
        let ghost rest = cs@.skip(from as int);
        let ghost before = r@;
        let i = find_char(&cs, c, from);
        let piece = string_of(&cs, from, i);
        if i == cs.len() {
            assert(piece@ =~= rest);
            r.push(piece);
            assert(texts(r@) =~= texts(before) + seq![rest]);
            return r;
        }
        assert(piece@ =~= rest.take(i - from));
        assert(rest.skip(i - from + 1) =~= cs@.skip(i + 1));
        r.push(piece);
        assert(texts(r@) =~= texts(before) + seq![rest.take(i - from)]);
        assert(texts(before) + (seq![rest.take(i - from)] + cut_all(cs@.skip(i + 1), c))
            =~= texts(r@) + cut_all(cs@.skip(i + 1), c));
        from = i + 1;
    }
}

/// Whether Unicode gives `c` the White_Space property.
pub open spec fn is_space(c: char) -> bool {
    ||| '\u{9}' <= c <= '\u{d}'
    ||| c == ' '
    ||| c == '\u{85}'
    ||| c == '\u{a0}'
    ||| c == '\u{1680}'
    ||| '\u{2000}' <= c <= '\u{200a}'
    ||| c == '\u{2028}'
    ||| c == '\u{2029}'
    ||| c == '\u{202f}'
    ||| c == '\u{205f}'
    ||| c == '\u{3000}'
}

/// `s` without the white space it starts with.
pub open spec fn trim_start(s: Seq<char>) -> Seq<char>
    decreases s.len(),
{
    if s.len() > 0 && is_space(s[0]) {
        trim_start(s.drop_first())
    } else {
        s
    }
}

/// `s` without the white space it ends with.
pub open spec fn trim_end(s: Seq<char>) -> Seq<char>
    decreases s.len(),
{
    if s.len() > 0 && is_space(s.last()) {
        trim_end(s.drop_last())
    } else {
        s
    }
}

/// `s` without the white space around it.
pub open spec fn trimmed(s: Seq<char>) -> Seq<char> {
    trim_end(trim_start(s))
}

fn white_space(c: char) -> (r: bool)
    ensures
        r == is_space(c),
{
    ('\u{9}' <= c && c <= '\u{d}') || c == ' ' || c == '\u{85}' || c == '\u{a0}' || c == '\u{1680}'
        || ('\u{2000}' <= c && c <= '\u{200a}') || c == '\u{2028}' || c == '\u{2029}' || c
        == '\u{202f}' || c == '\u{205f}' || c == '\u{3000}'
}

/// `s` without the white space around it.
pub fn trim(s: &str) -> (r: String)
    ensures
        r@ == trimmed(s@),
{
    let cs = chars(s);
    let mut from: usize = 0;
    assert(cs@.skip(0) =~= s@);
    while from < cs.len() && white_space(cs[from])
        invariant
            from <= cs@.len(),
            trim_start(cs@.skip(from as int)) == trim_start(s@),
        decreases cs@.len() - from,
    {
        assert(cs@.skip(from as int).drop_first() =~= cs@.skip(from + 1));
        from += 1;
    }
    let ghost start = cs@.skip(from as int);
    assert(start == trim_start(s@));
    let mut to: usize = cs.len();
    assert(cs@.subrange(from as int, to as int) =~= start);
    while to > from && white_space(cs[to - 1])
        invariant
            from <= to <= cs@.len(),
            trim_end(cs@.subrange(from as int, to as int)) == trim_end(start),
        decreases to - from,
    {
        assert(cs@.subrange(from as int, to as int).drop_last() =~= cs@.subrange(
            from as int,
            to - 1,
        ));
        to -= 1;
    }
    string_of(&cs, from, to)
}

/// The digit for `d`, which is below 16.
pub open spec fn digit(d: nat) -> char {
    if d < 10 {
        (48 + d) as char
    } else {
        (87 + d) as char
    }
}

/// `n` written in base `base`, without leading zeros.
pub open spec fn radix_text(n: nat, base: nat) -> Seq<char>
    decreases n,
{
    if base < 2 || n < base {
        seq![digit(n)]
    } else {
        proof {
            vstd::arithmetic::div_mod::lemma_div_decreases(n as int, base as int);
        }
        radix_text(n / base, base).push(digit(n % base))
    }
}

/// Different digits look different.
proof fn lemma_digit(a: nat, b: nat)
    requires
        a < 16,
        b < 16,
        digit(a) == digit(b),
    ensures
        a == b,
{
}

/// A number's text is one digit long only below the base.
pub proof fn lemma_radix_text_len(n: nat, base: nat)
    requires
        2 <= base,
    ensures
        radix_text(n, base).len() >= 1,
        radix_text(n, base).len() == 1 <==> n < base,
    decreases n,
{
    if n >= base {
        vstd::arithmetic::div_mod::lemma_div_decreases(n as int, base as int);
        lemma_radix_text_len(n / base, base);
    }
}

/// Different numbers are written differently.
pub proof fn lemma_radix_text_injective(a: nat, b: nat, base: nat)
    requires
        2 <= base <= 16,
        radix_text(a, base) == radix_text(b, base),
    ensures
        a == b,
    decreases a,
{
    lemma_radix_text_len(a, base);
    lemma_radix_text_len(b, base);
    let s = radix_text(a, base);
    if a < base {
        assert(s[0] == digit(a) && s[0] == digit(b));
        lemma_digit(a, b);
    } else {
        vstd::arithmetic::div_mod::lemma_div_decreases(a as int, base as int);
        let x = radix_text(a / base, base);
        let y = radix_text(b / base, base);
        assert(x.push(digit(a % base)).drop_last() =~= x);
        assert(y.push(digit(b % base)).drop_last() =~= y);
        assert(x.push(digit(a % base)).last() == digit(a % base));
        assert(y.push(digit(b % base)).last() == digit(b % base));
        vstd::arithmetic::div_mod::lemma_mod_bound(a as int, base as int);
        vstd::arithmetic::div_mod::lemma_mod_bound(b as int, base as int);
        lemma_digit(a % base, b % base);
        lemma_radix_text_injective(a / base, b / base, base);
        vstd::arithmetic::div_mod::lemma_fundamental_div_mod(a as int, base as int);
        vstd::arithmetic::div_mod::lemma_fundamental_div_mod(b as int, base as int);
    }
}

/// `n` in decimal.
pub open spec fn decimal_text(n: nat) -> Seq<char> {
    radix_text(n, 10)
}

/// `s` with zeros before it up to a length of `width`.
pub open spec fn zero_padded(s: Seq<char>, width: nat) -> Seq<char> {
    if s.len() < width {
        Seq::new((width - s.len()) as nat, |i: int| '0') + s
    } else {
        s
    }
}

/// `n` in lower-case hexadecimal, at least `width` digits long.
pub open spec fn hex_text(n: nat, width: nat) -> Seq<char> {
    zero_padded(radix_text(n, 16), width)
}

/// Only zero is written with a zero in front.
proof fn lemma_radix_text_head(n: nat, base: nat)
    requires
        2 <= base <= 16,
        n > 0,
    ensures
        radix_text(n, base)[0] != '0',
    decreases n,
{
    if n >= base {
        assert(n / base < n && n / base > 0) by (nonlinear_arith)
            requires
                n >= base,
                base >= 2,
        ;
        lemma_radix_text_head(n / base, base);
        lemma_radix_text_len(n / base, base);
    }
}

/// A number below 16 to the power of the width is written with just as many digits.
pub proof fn lemma_hex_len(n: nat, width: nat)
    requires
        n < pow(16, width),
        width >= 1,
    ensures
        hex_text(n, width).len() == width,
{
    lemma_radix_text_fits(n, width);
}

proof fn lemma_radix_text_fits(n: nat, width: nat)
    requires
        n < pow(16, width),
        width >= 1,
    ensures
        radix_text(n, 16).len() <= width,
    decreases width,
{
    lemma_pow1(16);
    if n >= 16 {
        if width > 1 {
            let p = pow(16, (width - 1) as nat);
            assert(pow(16, width) == 16 * p) by {
                reveal(pow);
            }
            assert(n / 16 < p);
            lemma_radix_text_fits(n / 16, (width - 1) as nat);
        }
    }
}

/// Different numbers are written differently.
pub proof fn lemma_hex_injective(a: nat, b: nat, width: nat)
    requires
        hex_text(a, width) == hex_text(b, width),
    ensures
        a == b,
{
    let x = radix_text(a, 16);
    let y = radix_text(b, 16);
    lemma_radix_text_len(a, 16);
    lemma_radix_text_len(b, 16);
    let s = hex_text(a, width);
    if x.len() == y.len() {
        assert(x =~= s.skip(s.len() - x.len()));
        assert(y =~= s.skip(s.len() - y.len()));
        lemma_radix_text_injective(a, b, 16);
    } else if x.len() < y.len() {
        lemma_radix_text_head(b, 16);
        assert(s[s.len() - y.len()] == y[0]);
        assert(s[s.len() - y.len()] == '0');
    } else {
        lemma_radix_text_head(a, 16);
        assert(s[s.len() - x.len()] == x[0]);
        assert(hex_text(b, width)[s.len() - x.len()] == '0');
    }
}

/// A byte in hexadecimal is two lower-case digits.
pub proof fn lemma_hex_byte(b: u8)
    ensures
        hex_text(b as nat, 2).len() == 2,
        forall|i: int|
            0 <= i < 2 ==> ('0' <= #[trigger] hex_text(b as nat, 2)[i] <= '9' || 'a' <= hex_text(
                b as nat,
                2,
            )[i] <= 'f'),
{
    let n = b as nat;
    reveal_with_fuel(radix_text, 3);
    if n < 16 {
        assert(radix_text(n, 16) =~= seq![digit(n)]);
    } else {
        assert(n / 16 < 16);
        assert(radix_text(n, 16) =~= seq![digit(n / 16), digit(n % 16)]);
    }
}

fn digit_of(d: u8) -> (c: char)
    requires
        d < 16,
    ensures
        c == digit(d as nat),
{
    if d < 10 {
        (48 + d) as char
    } else {
        (87 + d) as char
    }
}

/// The digits of `n` in base `base`, the last digit first.
fn digits_reversed(n: u64, base: u64) -> (r: Vec<char>)
    requires
        2 <= base <= 16,
    ensures
        r@.reverse() == radix_text(n as nat, base as nat),
        r@.len() >= 1,
{
    let mut r: Vec<char> = Vec::new();
    let mut k: u64 = n;
    assert(radix_text(n as nat, base as nat) + r@.reverse() =~= radix_text(n as nat, base as nat));
    while k >= base
        invariant
            2 <= base <= 16,
            radix_text(k as nat, base as nat) + r@.reverse() == radix_text(n as nat, base as nat),
        decreases k,
    {
        let ghost before = r@;
        let d = k % base;
        proof {
            vstd::arithmetic::div_mod::lemma_div_decreases(k as int, base as int);
        }
        r.push(digit_of(d as u8));
        assert(r@.reverse() =~= seq![digit(d as nat)] + before.reverse());
        assert(radix_text(k as nat, base as nat) + before.reverse() =~= radix_text(
            (k / base) as nat,
            base as nat,
        ) + r@.reverse());
        k = k / base;
    }
    let ghost before = r@;
    r.push(digit_of(k as u8));
    assert(r@.reverse() =~= seq![digit(k as nat)] + before.reverse());
    r
}

/// Writes `digits` backwards after `width` has been reached with zeros.
fn padded(digits: &Vec<char>, width: usize) -> (r: String)
    ensures
        r@ == zero_padded(digits@.reverse(), width as nat),
{
    let mut r = String::new();
    let mut i: usize = digits.len();
    let ghost zeros = if digits@.len() < width {
        (width - digits@.len()) as nat
    } else {
        0
    };
    while i < width
        invariant
            digits@.len() <= i,
            i <= width || i == digits@.len(),
            r@ == Seq::new((i - digits@.len()) as nat, |j: int| '0'),
        decreases width - i,
    {
        let ghost before = r@;
        r.push('0');
        i += 1;
        assert(r@ =~= Seq::new((i - digits@.len()) as nat, |j: int| '0'));
    }
    let ghost pad = r@;
    let mut k: usize = digits.len();
    while k > 0
        invariant
            k <= digits@.len(),
            r@ == pad + digits@.reverse().take(digits@.len() - k),
        decreases k,
    {
        let ghost before = r@;
        k -= 1;
        r.push(digits[k]);
        assert(digits@.reverse().take(digits@.len() - k) =~= digits@.reverse().take(
            digits@.len() - k - 1,
        ).push(digits@[k as int]));
        assert(r@ =~= pad + digits@.reverse().take(digits@.len() - k));
    }
    assert(digits@.reverse().take(digits@.len() as int) =~= digits@.reverse());
    assert(pad + digits@.reverse() =~= zero_padded(digits@.reverse(), width as nat));
    r
}

/// `n` in decimal.
pub fn decimal(n: u64) -> (r: String)
    ensures
        r@ == decimal_text(n as nat),
{
    let ds = digits_reversed(n, 10);
    padded(&ds, 0)
}

/// `n` in lower-case hexadecimal, at least `width` digits long.
pub fn hex(n: u64, width: usize) -> (r: String)
    ensures
        r@ == hex_text(n as nat, width as nat),
{
    let ds = digits_reversed(n, 16);
    padded(&ds, width)
}

/// Whether `c` is one of the ten decimal digits.
pub open spec fn is_digit(c: char) -> bool {
    '0' <= c <= '9'
}

/// The number that a sequence of decimal digits stands for.
pub open spec fn digits_value(s: Seq<char>) -> nat
    decreases s.len(),
{
    if s.len() == 0 {
        0
    } else {
        10 * digits_value(s.drop_last()) + (s.last() as nat - '0' as nat) as nat
    }
}

/// The number that `s` stands for, if it is one or more decimal digits and
/// nothing else and its value is at most `max`.
pub open spec fn digits_number(s: Seq<char>, max: nat) -> Option<nat> {
    if s.len() > 0 && (forall|i: int| 0 <= i < s.len() ==> is_digit(#[trigger] s[i])) && digits_value(
        s,
    ) <= max {
        Some(digits_value(s))
    } else {
        None
    }
}

/// The unsigned number that `s` stands for: decimal digits, which a `+` may
/// precede.
pub open spec fn unsigned_number(s: Seq<char>, max: nat) -> Option<nat> {
    if s.len() > 0 && s[0] == '+' {
        digits_number(s.drop_first(), max)
    } else {
        digits_number(s, max)
    }
}

/// The signed 32-bit number that `s` stands for: decimal digits, which a `+` or
/// a `-` may precede.
pub open spec fn signed_number(s: Seq<char>) -> Option<int> {
    if s.len() > 0 && s[0] == '-' {
        match digits_number(s.drop_first(), 0x8000_0000) {
            Some(n) => Some(-(n as int)),
            None => None,
        }
    } else {
        match unsigned_number(s, 0x7fff_ffff) {
            Some(n) => Some(n as int),
            None => None,
        }
    }
}

/// A longer run of digits stands for at least as much.
proof fn lemma_digits_value_grows(s: Seq<char>, k: int)
    requires
        0 <= k <= s.len(),
        forall|i: int| 0 <= i < s.len() ==> is_digit(#[trigger] s[i]),
    ensures
        digits_value(s.take(k)) <= digits_value(s),
    decreases s.len(),
{
    if k < s.len() {
        assert(s.drop_last().take(k) =~= s.take(k));
        assert forall|i: int| 0 <= i < s.drop_last().len() implies is_digit(
            #[trigger] s.drop_last()[i],
        ) by {
            assert(is_digit(s[i]));
        }
        lemma_digits_value_grows(s.drop_last(), k);
        assert(is_digit(s[s.len() - 1]));
    } else {
        assert(s.take(k) =~= s);
    }
}

/// Reads the decimal digits `cs[from..]` as a number of at most `max`.
fn parse_digits(cs: &Vec<char>, from: usize, max: u32) -> (r: Option<u32>)
    requires
        from <= cs@.len(),
    ensures
        match r {
            Some(n) => digits_number(cs@.skip(from as int), max as nat) == Some(n as nat),
            None => digits_number(cs@.skip(from as int), max as nat) is None,
        },
{
    let ghost s = cs@.skip(from as int);
    if from == cs.len() {
        return None;
    }
    let mut n: u64 = 0;
    let mut i: usize = from;
    assert(s.take(0) =~= Seq::<char>::empty());
    while i < cs.len()
        invariant
            from <= i <= cs@.len(),
            s == cs@.skip(from as int),
            n <= max,
            n == digits_value(s.take(i - from)),
            forall|j: int| 0 <= j < i - from ==> is_digit(#[trigger] s[j]),
        decreases cs@.len() - i,
    {
        let c = cs[i];
        assert(s[i - from] == c);
        if c < '0' || c > '9' {
            assert(!is_digit(s[i - from]));
            return None;
        }
        let d = c as u32 - '0' as u32;
        n = n * 10 + d as u64;
        i += 1;
        assert(s.take(i - from).drop_last() =~= s.take(i - 1 - from));
        assert(s.take(i - from).last() == c);
        if n > max as u64 {
            proof {
                if forall|j: int| 0 <= j < s.len() ==> is_digit(#[trigger] s[j]) {
                    lemma_digits_value_grows(s, i - from);
                }
            }
            return None;
        }
    }
    assert(s.take(i - from) =~= s);
    Some(n as u32)
}

/// Reads a port number.
pub fn parse_u16(s: &str) -> (r: Option<u16>)
    ensures
        match r {
            Some(n) => unsigned_number(s@, 0xffff) == Some(n as nat),
            None => unsigned_number(s@, 0xffff) is None,
        },
{
    let cs = chars(s);
    assert(cs@.skip(0) =~= s@);
    let from: usize = if cs.len() > 0 && cs[0] == '+' {
        assert(cs@.skip(1) =~= s@.drop_first());
        1
    } else {
        0
    };
    match parse_digits(&cs, from, 0xffff) {
        Some(n) => Some(n as u16),
        None => None,
    }
}

/// Reads a process number.
pub fn parse_i32(s: &str) -> (r: Option<i32>)
    ensures
        match r {
            Some(n) => signed_number(s@) == Some(n as int),
            None => signed_number(s@) is None,
        },
{
    let cs = chars(s);
    assert(cs@.skip(0) =~= s@);
    if cs.len() > 0 && cs[0] == '-' {
        assert(cs@.skip(1) =~= s@.drop_first());
        match parse_digits(&cs, 1, 0x8000_0000) {
            Some(n) => Some((0i64 - n as i64) as i32),
            None => None,
        }
    } else {
        let from: usize = if cs.len() > 0 && cs[0] == '+' {
            assert(cs@.skip(1) =~= s@.drop_first());
            1
        } else {
            0
        };
        match parse_digits(&cs, from, 0x7fff_ffff) {
            Some(n) => Some(n as i32),
            None => None,
        }
    }
}

/// A text is cut at its first `c`: what is before it holds no `c`, and both parts with the
/// `c` between them are the text. It is not cut where it holds none.
pub proof fn law_cut_once(s: Seq<char>, c: char)
    ensures
        match cut_once(s, c) {
            Some((head, tail)) => s == head + seq![c] + tail && !head.contains(c),
            None => !s.contains(c),
        },
{
    lemma_first_index(s, c);
    if let Some((head, tail)) = cut_once(s, c) {
        assert(s =~= head + seq![c] + tail);
    }
}

/// Two parts with a `c` between them are cut into these parts again, if the first holds no
/// `c`.
pub proof fn law_cut_again(head: Seq<char>, c: char, tail: Seq<char>)
    requires
        !head.contains(c),
    ensures
        cut_once(head + seq![c] + tail, c) == Some((head, tail)),
        cut_once(head, c) is None,
        cut_all(head, c) == seq![head],
        cut_all(head + seq![c] + tail, c) == seq![head] + cut_all(tail, c),
{
    let s = head + seq![c] + tail;
    let k = head.len() as int;
    assert forall|i: int| 0 <= i < k implies s[i] != c by {
        assert(s[i] == head[i]);
    }
    lemma_first_index_is(s, c, k);
    assert(s.take(k) =~= head);
    assert(s.skip(k + 1) =~= tail);
    lemma_first_index(head, c);
}

/// The pieces with a `c` between any two that follow each other.
pub open spec fn joined_by(pieces: Seq<Seq<char>>, c: char) -> Seq<char>
    decreases pieces.len(),
{
    if pieces.len() == 0 {
        Seq::empty()
    } else if pieces.len() == 1 {
        pieces[0]
    } else {
        pieces[0] + seq![c] + joined_by(pieces.drop_first(), c)
    }
}

/// A text that is cut at every `c` is its pieces with a `c` between them, and no piece
/// holds a `c`.
pub proof fn law_cut_all(s: Seq<char>, c: char)
    ensures
        cut_all(s, c).len() >= 1,
        joined_by(cut_all(s, c), c) == s,
        forall|i: int| 0 <= i < cut_all(s, c).len() ==> !(#[trigger] cut_all(s, c)[i]).contains(c),
    decreases s.len(),
{
    law_cut_once(s, c);
    match cut_once(s, c) {
        Some((head, tail)) => {
            law_cut_all(tail, c);
            let rest = cut_all(tail, c);
            let all = cut_all(s, c);
            assert(all.drop_first() =~= rest);
            assert forall|i: int| 0 <= i < all.len() implies !(#[trigger] all[i]).contains(c) by {
                if i > 0 {
                    assert(all[i] == rest[i - 1]);
                }
            }
        },
        None => {
            assert(cut_all(s, c) =~= seq![s]);
        },
    }
}

/// The pieces of two parts with a `c` between them are those of the one followed by those
/// of the other.
pub proof fn law_cut_parts(a: Seq<char>, c: char, b: Seq<char>)
    ensures
        cut_all(a + seq![c] + b, c) == cut_all(a, c) + cut_all(b, c),
    decreases a.len(),
{
    let s = a + seq![c] + b;
    law_cut_once(a, c);
    match cut_once(a, c) {
        Some((head, tail)) => {
            assert(s =~= head + seq![c] + (tail + seq![c] + b));
            law_cut_again(head, c, tail + seq![c] + b);
            law_cut_parts(tail, c, b);
            assert(cut_all(s, c) =~= cut_all(a, c) + cut_all(b, c));
        },
        None => {
            law_cut_again(a, c, b);
        },
    }
}

/// Trimming takes white space off both ends and nothing else, and leaves none there.
pub proof fn law_trimmed(s: Seq<char>)
    ensures
        exists|i: int, j: int|
            {
                &&& 0 <= i <= j <= s.len()
                &&& trimmed(s) == #[trigger] s.subrange(i, j)
                &&& forall|k: int| 0 <= k < i ==> is_space(#[trigger] s[k])
                &&& forall|k: int| j <= k < s.len() ==> is_space(#[trigger] s[k])
            },
        trimmed(s).len() > 0 ==> !is_space(trimmed(s)[0]) && !is_space(trimmed(s).last()),
{
    let i = lemma_trim_start(s);
    let t = trim_start(s);
    let n = lemma_trim_end(t);
    let j = i + n;
    assert(trimmed(s) =~= s.subrange(i, j));
    assert forall|k: int| j <= k < s.len() implies is_space(#[trigger] s[k]) by {
        assert(t[k - i] == s[k]);
    }
}

proof fn lemma_trim_start(s: Seq<char>) -> (i: int)
    ensures
        0 <= i <= s.len(),
        trim_start(s) == s.skip(i),
        forall|k: int| 0 <= k < i ==> is_space(#[trigger] s[k]),
        trim_start(s).len() > 0 ==> !is_space(trim_start(s)[0]),
    decreases s.len(),
{
    if s.len() > 0 && is_space(s[0]) {
        let i = lemma_trim_start(s.drop_first());
        assert(s.drop_first().skip(i) =~= s.skip(i + 1));
        assert forall|k: int| 0 <= k < i + 1 implies is_space(#[trigger] s[k]) by {
            if k > 0 {
                assert(s.drop_first()[k - 1] == s[k]);
            }
        }
        i + 1
    } else {
        assert(s.skip(0) =~= s);
        0
    }
}

proof fn lemma_trim_end(s: Seq<char>) -> (j: int)
    ensures
        0 <= j <= s.len(),
        trim_end(s) == s.take(j),
        forall|k: int| j <= k < s.len() ==> is_space(#[trigger] s[k]),
        trim_end(s).len() > 0 ==> !is_space(trim_end(s).last()),
    decreases s.len(),
{
    if s.len() > 0 && is_space(s.last()) {
        let j = lemma_trim_end(s.drop_last());
        assert(s.drop_last().take(j) =~= s.take(j));
        assert forall|k: int| j <= k < s.len() implies is_space(#[trigger] s[k]) by {
            if k < s.len() - 1 {
                assert(s.drop_last()[k] == s[k]);
            }
        }
        j
    } else {
        assert(s.take(s.len() as int) =~= s);
        s.len() as int
    }
}

/// What has no white space at its ends is left as it is.
pub proof fn law_trimmed_stays(s: Seq<char>)
    requires
        s.len() > 0 ==> !is_space(s[0]) && !is_space(s.last()),
    ensures
        trimmed(s) == s,
{
}

/// Of the characters of ASCII, the blank, the tabs, the line ends and the form feed are
/// white space, and no other is.
pub proof fn law_ascii_white_space(c: char)
    requires
        c <= '\u{7f}',
    ensures
        is_space(c) <==> c == ' ' || c == '\t' || c == '\n' || c == '\r' || c == '\u{b}' || c
            == '\u{c}',
{
}

/// A number that is written in decimal is read back as that number, if it is not too
/// large.
pub proof fn law_decimal_reads_back(n: nat, max: nat)
    ensures
        unsigned_number(decimal_text(n), max) == (if n <= max {
            Some(n)
        } else {
            None
        }),
        !decimal_text(n).contains(':'),
{
    lemma_decimal_digits(n);
    let t = decimal_text(n);
    assert(is_digit(t[0]));
}

/// Nothing but decimal digits, which a `+` may precede, is read as a number, and none that
/// is too large.
pub proof fn law_only_digits_are_numbers(s: Seq<char>, max: nat, i: int)
    requires
        unsigned_number(s, max) is Some,
        0 <= i < s.len(),
    ensures
        '0' <= s[i] <= '9' || (i == 0 && s[i] == '+' && s.len() > 1),
        unsigned_number(s, max)->0 <= max,
{
    if s[0] == '+' {
        if i > 0 {
            assert(s.drop_first()[i - 1] == s[i]);
        }
    }
}

/// One more digit makes a number ten times as large, and adds its value.
pub proof fn law_digits_have_places(s: Seq<char>, d: nat)
    requires
        d < 10,
    ensures
        digits_value(s.push(digit(d))) == 10 * digits_value(s) + d,
        digits_value(Seq::<char>::empty()) == 0,
{
    assert(s.push(digit(d)).drop_last() =~= s);
}

proof fn lemma_decimal_digits(n: nat)
    ensures
        decimal_text(n).len() > 0,
        forall|i: int| 0 <= i < decimal_text(n).len() ==> is_digit(#[trigger] decimal_text(n)[i]),
        digits_value(decimal_text(n)) == n,
    decreases n,
{
    let t = radix_text(n, 10);
    if n < 10 {
        reveal_with_fuel(digits_value, 2);
        assert(t.drop_last() =~= Seq::empty());
    } else {
        lemma_decimal_digits(n / 10);
        assert(t.drop_last() =~= radix_text(n / 10, 10));
        assert(t.last() == digit(n % 10));
        assert forall|i: int| 0 <= i < t.len() implies is_digit(#[trigger] t[i]) by {
            if i < t.len() - 1 {
                assert(t.drop_last()[i] == t[i]);
            }
        }
    }
}

/// The texts of strings are theirs, in order.
pub proof fn law_texts(v: Seq<String>, i: int, o: Option<String>)
    ensures
        texts(v).len() == v.len(),
        0 <= i < v.len() ==> texts(v)[i] == v[i]@,
        o matches Some(t) ==> opt_text(o) == Some(t@),
        o is None ==> opt_text(o) is None,
{
}

/// A process number that is written in decimal is read back, with a "-" in front as its
/// negative, if it fits into 32 bits.
pub proof fn law_signed_numbers_read_back(n: nat)
    ensures
        signed_number(decimal_text(n)) == (if n <= 0x7fff_ffff {
            Some(n as int)
        } else {
            None
        }),
        signed_number(seq!['-'] + decimal_text(n)) == (if n <= 0x8000_0000 {
            Some(-(n as int))
        } else {
            None
        }),
{
    lemma_decimal_digits(n);
    law_decimal_reads_back(n, 0x7fff_ffff);
    let t = decimal_text(n);
    assert(is_digit(t[0]));
    assert((seq!['-'] + t).drop_first() =~= t);
}

/// A number in hexadecimal has its digits in their places: the last one is its remainder
/// by 16, and the others are those of its sixteenth. It is filled up with zeros.
pub proof fn law_hex_digits_have_places(n: nat, width: nat)
    ensures
        n >= 16 && width >= 1 ==> hex_text(n, width) == hex_text(n / 16, (width - 1) as nat).push(
            digit(n % 16),
        ),
        n < 10 ==> hex_text(n, 1) == seq![(48 + n) as char],
        10 <= n < 16 ==> hex_text(n, 1) == seq![(87 + n) as char],
        hex_text(n, width).len() >= width,
{
    if n >= 16 && width >= 1 {
        let x = radix_text(n / 16, 16);
        assert(radix_text(n, 16) =~= x.push(digit(n % 16)));
        assert(hex_text(n, width) =~= hex_text(n / 16, (width - 1) as nat).push(digit(n % 16)));
    }
}

/// Beyond ASCII, the next-line character, the blanks of other widths and the separators of
/// lines and paragraphs are white space; a zero-width blank is not.
pub proof fn law_other_white_space(c: char)
    requires
        c > '\u{7f}',
    ensures
        is_space(c) <==> c as u32 == 0x85 || c as u32 == 0xa0 || c as u32 == 0x1680 || 0x2000 <= c as u32
            <= 0x200a || c as u32 == 0x2028 || c as u32 == 0x2029 || c as u32 == 0x202f || c as u32
            == 0x205f || c as u32 == 0x3000,
{
}

/// Joined again, at most `n` pieces of a text are the text. There is a piece, there are no
/// more than `n`, none but the last holds a `c`, and the last holds one only if there are
/// `n`.
pub proof fn law_cut_at_most(s: Seq<char>, c: char, n: nat)
    requires
        n > 0,
    ensures
        joined_by(cut_at_most(s, c, n), c) == s,
        1 <= cut_at_most(s, c, n).len() <= n,
        forall|i: int|
            0 <= i < cut_at_most(s, c, n).len() - 1 ==> !(#[trigger] cut_at_most(
                s,
                c,
                n,
            )[i]).contains(c),
        cut_at_most(s, c, n).len() < n ==> !cut_at_most(s, c, n).last().contains(c),
    decreases n,
{
    law_cut_once(s, c);
    let all = cut_at_most(s, c, n);
    if n > 1 && cut_once(s, c) is Some {
        let (head, tail) = cut_once(s, c)->0;
        law_cut_at_most(tail, c, (n - 1) as nat);
        let rest = cut_at_most(tail, c, (n - 1) as nat);
        assert(all.drop_first() =~= rest);
        assert(all.last() == rest.last());
        assert forall|i: int| 0 <= i < all.len() - 1 implies !(#[trigger] all[i]).contains(c) by {
            if i > 0 {
                assert(all[i] == rest[i - 1]);
            }
        }
    } else {
        assert(all =~= seq![s]);
    }
}

} // verus!
