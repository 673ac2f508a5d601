//! Character-level helpers shared by the rules and the renderers.

use vstd::prelude::*;
use vstd::string::StringExecFns;

verus! {

/// The characters of a string slice, one by one.
pub fn chars_of(s: &str) -> (r: Vec<char>)
    ensures
        r@ == s@,
{
    let mut r: Vec<char> = Vec::new();
    for c in it: s.chars()
        invariant
            r@ == it.seq().take(it.index() as int),
            it.seq() == s@,
    {
        r.push(c);
        assert(r@ == it.seq().take(it.index() as int + 1));
    }
    assert(r@ == s@);
    r
}

/// String equality between an owned string and a slice.
pub fn string_is(a: &String, b: &str) -> (r: bool)
    ensures
        r == (a@ == b@),
{
    let owned = String::from_str(b);
    *a == owned
}


/// The code of `c` after ASCII upper-casing (only `a`..=`z` change).
pub open spec fn upper_code(c: char) -> int {
    if 97 <= char_code(c) <= 122 {
        char_code(c) - 32
    } else {
        char_code(c)
    }
}

/// The Unicode scalar value of `c`.
pub open spec fn char_code(c: char) -> int {
    (c as u32) as int
}

/// The code of `c` after ASCII lower-casing (only `A`..=`Z` change).
pub open spec fn lower_code(c: char) -> int {
    if 65 <= char_code(c) <= 90 {
        char_code(c) + 32
    } else {
        char_code(c)
    }
}

/// `s`, upper-cased in ASCII, equals `target`.
pub open spec fn upper_equals(s: Seq<char>, target: Seq<char>) -> bool {
    &&& s.len() == target.len()
    &&& forall|i: int| 0 <= i < s.len() ==> upper_code(#[trigger] s[i]) == char_code(target[i])
}

/// `s`, upper-cased in ASCII, starts with `prefix`.
pub open spec fn upper_starts_with(s: Seq<char>, prefix: Seq<char>) -> bool {
    &&& prefix.len() <= s.len()
    &&& forall|i: int| 0 <= i < prefix.len() ==> upper_code(#[trigger] s[i]) == char_code(prefix[i])
}

/// `needle` occurs at position `at` of `hay` lower-cased in ASCII.
pub open spec fn lower_occurs_at(hay: Seq<char>, needle: Seq<char>, at: int) -> bool {
    &&& 0 <= at
    &&& at + needle.len() <= hay.len()
    &&& forall|j: int| 0 <= j < needle.len() ==> lower_code(#[trigger] hay[at + j]) == char_code(needle[j])
}

/// `hay`, lower-cased in ASCII, contains `needle`.
pub open spec fn lower_contains(hay: Seq<char>, needle: Seq<char>) -> bool {
    exists|at: int| lower_occurs_at(hay, needle, at)
}

fn upper_code_of(c: char) -> (r: u32)
    ensures
        r as int == upper_code(c),
{
    let code = c as u32;
    if 97 <= code && code <= 122 {
        code - 32
    } else {
        code
    }
}

fn lower_code_of(c: char) -> (r: u32)
    ensures
        r as int == lower_code(c),
{
    let code = c as u32;
    if 65 <= code && code <= 90 {
        code + 32
    } else {
        code
    }
}

/// Whether `s` upper-cased equals `target`.
pub fn upper_is(s: &Vec<char>, target: &Vec<char>) -> (r: bool)
    ensures
        r == upper_equals(s@, target@),
{
    if s.len() != target.len() {
        return false;
    }
    let mut i: usize = 0;
    while i < s.len()
        invariant
            s@.len() == target@.len(),
            i <= s@.len(),
            forall|j: int| 0 <= j < i ==> upper_code(#[trigger] s@[j]) == char_code(target@[j]),
        decreases s@.len() - i,
    {
        if upper_code_of(s[i]) != target[i] as u32 {
            assert(!(upper_code(s@[i as int]) == char_code(target@[i as int])));
            return false;
        }
        i += 1;
    }
    true
}

/// Whether `s` upper-cased starts with `prefix`.
pub fn upper_has_prefix(s: &Vec<char>, prefix: &Vec<char>) -> (r: bool)
    ensures
        r == upper_starts_with(s@, prefix@),
{
    if prefix.len() > s.len() {
        return false;
    }
    let mut i: usize = 0;
    while i < prefix.len()
        invariant
            prefix@.len() <= s@.len(),
            i <= prefix@.len(),
            forall|j: int| 0 <= j < i ==> upper_code(#[trigger] s@[j]) == char_code(prefix@[j]),
        decreases prefix@.len() - i,
    {
        if upper_code_of(s[i]) != prefix[i] as u32 {
            assert(!(upper_code(s@[i as int]) == char_code(prefix@[i as int])));
            return false;
        }
        i += 1;
    }
    true
}

fn lower_matches_at(hay: &Vec<char>, needle: &Vec<char>, at: usize) -> (r: bool)
    requires
        at + needle@.len() <= hay@.len(),
    ensures
        r == lower_occurs_at(hay@, needle@, at as int),
{
    let mut j: usize = 0;
    let hay_len = hay.len();
    while j < needle.len()
        invariant
            at + needle@.len() <= hay@.len(),
            hay@.len() == hay_len,
            j <= needle@.len(),
            forall|k: int| 0 <= k < j ==> lower_code(#[trigger] hay@[at + k]) == char_code(needle@[k]),
        decreases needle@.len() - j,
    {
        if lower_code_of(hay[at + j]) != needle[j] as u32 {
            assert(!(lower_code(hay@[at + j as int]) == char_code(needle@[j as int])));
            return false;
        }
        j += 1;
    }
    true
}

/// Whether `hay` lower-cased contains `needle`.
pub fn lower_has(hay: &Vec<char>, needle: &Vec<char>) -> (r: bool)
    ensures
        r == lower_contains(hay@, needle@),
{
    if needle.len() > hay.len() {
        return false;
    }
    let last = hay.len() - needle.len();
    let mut at: usize = 0;
    while at <= last
        invariant
            last + needle@.len() == hay@.len(),
            hay@.len() <= usize::MAX,
            at <= last + 1,
            forall|k: int| 0 <= k < at ==> !lower_occurs_at(hay@, needle@, k),
        decreases last + 1 - at,
    {
        if lower_matches_at(hay, needle, at) {
            return true;
        }
        at += 1;
    }
    false
}

/// The decimal digit `d` as text.
pub open spec fn digit_text(d: nat) -> Seq<char> {
    if d == 0 { "0"@ }
    else if d == 1 { "1"@ }
    else if d == 2 { "2"@ }
    else if d == 3 { "3"@ }
    else if d == 4 { "4"@ }
    else if d == 5 { "5"@ }
    else if d == 6 { "6"@ }
    else if d == 7 { "7"@ }
    else if d == 8 { "8"@ }
    else { "9"@ }
}

/// `n` written in decimal.
pub open spec fn decimal_text(n: nat) -> Seq<char>
    decreases n,
{
    if n < 10 {
        digit_text(n)
    } else {
        decimal_text(n / 10) + digit_text(n % 10)
    }
}

fn push_digit(out: &mut String, d: usize)
    requires
        d < 10,
    ensures
        final(out)@ == old(out)@ + digit_text(d as nat),
{
    if d == 0 { out.append("0"); }
    else if d == 1 { out.append("1"); }
    else if d == 2 { out.append("2"); }
    else if d == 3 { out.append("3"); }
    else if d == 4 { out.append("4"); }
    else if d == 5 { out.append("5"); }
    else if d == 6 { out.append("6"); }
    else if d == 7 { out.append("7"); }
    else if d == 8 { out.append("8"); }
    else { out.append("9"); }
}

/// Appends `n` in decimal to `out`.
pub fn push_decimal(out: &mut String, n: usize)
    ensures
        final(out)@ == old(out)@ + decimal_text(n as nat),
    decreases n,
{
    if n < 10 {
        push_digit(out, n);
    } else {
        push_decimal(out, n / 10);
        push_digit(out, n % 10);
        assert(old(out)@ + decimal_text((n / 10) as nat) + digit_text((n % 10) as nat)
            == old(out)@ + decimal_text(n as nat));
    }
}


/// Lexicographic order of two texts by code point: -1, 0 or 1. This is the
/// order of `str`, whose UTF-8 bytes compare like the code points they encode.
pub open spec fn seq_order(a: Seq<char>, b: Seq<char>) -> int
    decreases a.len(),
{
    if a.len() == 0 {
        if b.len() == 0 { 0 } else { -1 }
    } else if b.len() == 0 {
        1
    } else if char_code(a[0]) < char_code(b[0]) {
        -1
    } else if char_code(a[0]) > char_code(b[0]) {
        1
    } else {
        seq_order(a.drop_first(), b.drop_first())
    }
}

/// The order is three-way: its value is -1, 0 or 1.
pub proof fn lemma_seq_order_range(a: Seq<char>, b: Seq<char>)
    ensures
        -1 <= seq_order(a, b) <= 1,
    decreases a.len(),
{
    if a.len() > 0 && b.len() > 0 && char_code(a[0]) == char_code(b[0]) {
        lemma_seq_order_range(a.drop_first(), b.drop_first());
    }
}

/// Distinct characters have distinct codes.
pub proof fn lemma_char_code_injective(x: char, y: char)
    ensures
        char_code(x) == char_code(y) ==> x == y,
{
    if char_code(x) == char_code(y) {
        assert(x as u32 == y as u32);
    }
}

/// Swapping the operands negates the order, and only equal texts compare equal.
pub proof fn lemma_seq_order_antisymmetric(a: Seq<char>, b: Seq<char>)
    ensures
        seq_order(a, b) == -seq_order(b, a),
        seq_order(a, b) == 0 <==> a == b,
    decreases a.len(),
{
    if a.len() > 0 && b.len() > 0 {
        lemma_char_code_injective(a[0], b[0]);
        if char_code(a[0]) == char_code(b[0]) {
            lemma_seq_order_antisymmetric(a.drop_first(), b.drop_first());
            if a.drop_first() == b.drop_first() {
                assert(a == seq![a[0]] + a.drop_first());
                assert(b == seq![b[0]] + b.drop_first());
            }
            if a == b {
                assert(a.drop_first() == b.drop_first());
            }
        }
    } else if a.len() == 0 && b.len() == 0 {
        assert(a =~= b);
    }
}

/// The strict order is transitive.
pub proof fn lemma_seq_order_transitive(a: Seq<char>, b: Seq<char>, c: Seq<char>)
    requires
        seq_order(a, b) < 0,
        seq_order(b, c) < 0,
    ensures
        seq_order(a, c) < 0,
    decreases a.len(),
{
    if a.len() > 0 && b.len() > 0 && c.len() > 0 {
        if char_code(a[0]) == char_code(b[0]) && char_code(b[0]) == char_code(c[0]) {
            lemma_seq_order_transitive(a.drop_first(), b.drop_first(), c.drop_first());
        }
    }
}

/// Three-way comparison of two texts in `str` order.
pub fn text_order(a: &str, b: &str) -> (r: i8)
    ensures
        r as int == seq_order(a@, b@),
{
    let x = chars_of(a);
    let y = chars_of(b);
    let mut i: usize = 0;
    assert(x@.skip(0) == x@);
    assert(y@.skip(0) == y@);
    while i < x.len() && i < y.len()
        invariant
            i <= x@.len(),
            i <= y@.len(),
            seq_order(a@, b@) == seq_order(x@.skip(i as int), y@.skip(i as int)),
        decreases x@.len() - i,
    {
        assert(x@.skip(i as int).drop_first() == x@.skip(i + 1));
        assert(y@.skip(i as int).drop_first() == y@.skip(i + 1));
        let cx = x[i] as u32;
        let cy = y[i] as u32;
        if cx < cy {
            return -1;
        }
        if cx > cy {
            return 1;
        }
        i += 1;
    }
    if x.len() == i {
        if y.len() == i { 0 } else { -1 }
    } else {
        1
    }
}

} // verus!
