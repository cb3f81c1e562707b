//! Small verified operations on text that the rest of the library builds on.

use vstd::prelude::*;
use vstd::string::*;

verus! {

/// The concatenation of two pieces of text.
pub fn concat(a: &str, b: &str) -> (s: String)
    ensures
        s@ == a@ + b@,
{
    let mut s = a.to_owned();
    s.append(b);
    s
}

/// The concatenation of three pieces of text.
pub fn concat3(a: &str, b: &str, c: &str) -> (s: String)
    ensures
        s@ == a@ + b@ + c@,
{
    let mut s = a.to_owned();
    s.append(b);
    s.append(c);
    s
}

/// Whether two pieces of text hold the same characters.
pub fn same_text(a: &str, b: &str) -> (r: bool)
    ensures
        r == (a@ == b@),
{
    let x = a.to_owned();
    let y = b.to_owned();
    x == y
}

/// Whether `s` begins with `prefix`.
pub fn starts_with(s: &str, prefix: &str) -> (r: bool)
    ensures
        r == prefix@.is_prefix_of(s@),
{
    let n = s.unicode_len();
    let m = prefix.unicode_len();
    if m > n {
        return false;
    }
    let mut i: usize = 0;
    while i < m
        invariant
            i <= m <= n,
            n == s@.len(),
            m == prefix@.len(),
            forall|j: int| 0 <= j < i ==> s@[j] == prefix@[j],
        decreases m - i,
    {
        if s.get_char(i) != prefix.get_char(i) {
            return false;
        }
        i += 1;
    }
    assert(s@.subrange(0, m as int) =~= prefix@);
    true
}

/// Whether the character `c` occurs in `s`.
pub fn contains_char(s: &str, c: char) -> (r: bool)
    ensures
        r == s@.contains(c),
{
    let n = s.unicode_len();
    let mut i: usize = 0;
    while i < n
        invariant
            i <= n,
            n == s@.len(),
            forall|j: int| 0 <= j < i ==> s@[j] != c,
        decreases n - i,
    {
        if s.get_char(i) == c {
            return true;
        }
        i += 1;
    }
    false
}

/// The decimal digit for a value below ten.
pub open spec fn digit_char(d: nat) -> char {
    if d == 0 {
        '0'
    } else if d == 1 {
        '1'
    } else if d == 2 {
        '2'
    } else if d == 3 {
        '3'
    } else if d == 4 {
        '4'
    } else if d == 5 {
        '5'
    } else if d == 6 {
        '6'
    } else if d == 7 {
        '7'
    } else if d == 8 {
        '8'
    } else {
        '9'
    }
}

/// The numeral of `n` in `width` decimal digits, with zeros in front. Of a
/// number that takes more digits, these are the last `width`.
pub open spec fn padded(n: nat, width: nat) -> Seq<char>
    decreases width,
{
    if width == 0 {
        Seq::empty()
    } else {
        padded(n / 10, (width - 1) as nat).push(digit_char(n % 10))
    }
}

/// Ten to the power of `e`.
pub open spec fn pow10(e: nat) -> nat
    decreases e,
{
    if e == 0 {
        1
    } else {
        10 * pow10((e - 1) as nat)
    }
}

/// Whether `a` and `b` are the same up to place `i`, where `a` has the
/// smaller character.
pub open spec fn differs_first_at(a: Seq<char>, b: Seq<char>, i: int) -> bool {
    &&& 0 <= i < a.len()
    &&& i < b.len()
    &&& a.subrange(0, i) == b.subrange(0, i)
    &&& a[i] < b[i]
}

/// Whether `a` comes before `b` in the order of text, which is the order of
/// `<` on `str`: at the first place where they differ `a` has the smaller
/// character, or `a` ends where `b` goes on.
pub open spec fn text_before(a: Seq<char>, b: Seq<char>) -> bool {
    ||| exists|i: int| differs_first_at(a, b, i)
    ||| (a.len() < b.len() && a == b.subrange(0, a.len() as int))
}

/// A padded numeral has the width asked for.
pub proof fn lemma_padded_len(n: nat, width: nat)
    ensures
        padded(n, width).len() == width,
    decreases width,
{
    if width > 0 {
        lemma_padded_len(n / 10, (width - 1) as nat);
    }
}

/// Of two numbers that fit the width, the smaller has the numeral that comes
/// first: the place is returned at which the numerals first differ.
pub proof fn lemma_padded_order(a: nat, b: nat, width: nat) -> (i: int)
    requires
        a < b < pow10(width),
    ensures
        differs_first_at(padded(a, width), padded(b, width), i),
    decreases width,
{
    lemma_padded_len(a, width);
    lemma_padded_len(b, width);
    if width == 0 {
        0
    } else {
        let w = (width - 1) as nat;
        let x = padded(a / 10, w);
        let y = padded(b / 10, w);
        lemma_padded_len(a / 10, w);
        lemma_padded_len(b / 10, w);
        if a / 10 < b / 10 {
            let i = lemma_padded_order(a / 10, b / 10, w);
            assert(padded(a, width).subrange(0, i) =~= x.subrange(0, i));
            assert(padded(b, width).subrange(0, i) =~= y.subrange(0, i));
            i
        } else {
            assert(a / 10 == b / 10);
            assert(a % 10 < b % 10);
            assert(padded(a, width).subrange(0, w as int) =~= x);
            assert(padded(b, width).subrange(0, w as int) =~= y);
            w as int
        }
    }
}

/// Every character of a padded numeral is a digit.
pub proof fn lemma_padded_digits(n: nat, width: nat)
    ensures
        forall|i: int| 0 <= i < padded(n, width).len() ==> '0' <= #[trigger] padded(n, width)[i] <= '9',
    decreases width,
{
    if width > 0 {
        let rest = padded(n / 10, (width - 1) as nat);
        lemma_padded_digits(n / 10, (width - 1) as nat);
        lemma_padded_len(n / 10, (width - 1) as nat);
        assert forall|i: int| 0 <= i < padded(n, width).len() implies '0' <= #[trigger] padded(
            n,
            width,
        )[i] <= '9' by {
            if i < rest.len() {
                assert(padded(n, width)[i] == rest[i]);
            } else {
                assert(padded(n, width)[i] == digit_char(n % 10));
            }
        }
    }
}

/// What comes first still comes first behind a common beginning.
pub proof fn lemma_before_behind(p: Seq<char>, a: Seq<char>, b: Seq<char>, i: int)
    requires
        differs_first_at(a, b, i),
    ensures
        differs_first_at(p + a, p + b, p.len() + i),
        text_before(p + a, p + b),
{
    let k = p.len() + i;
    assert((p + a).subrange(0, k) =~= p + a.subrange(0, i));
    assert((p + b).subrange(0, k) =~= p + b.subrange(0, i));
}

/// No text comes before itself.
pub proof fn lemma_not_before_itself(a: Seq<char>)
    ensures
        !text_before(a, a),
{
}

fn digit_text(d: u64) -> (s: &'static str)
    requires
        d < 10,
    ensures
        s@ == seq![digit_char(d as nat)],
{
    proof {
        reveal_strlit("0");
        reveal_strlit("1");
        reveal_strlit("2");
        reveal_strlit("3");
        reveal_strlit("4");
        reveal_strlit("5");
        reveal_strlit("6");
        reveal_strlit("7");
        reveal_strlit("8");
        reveal_strlit("9");
    }
    let s = if d == 0 {
        "0"
    } else if d == 1 {
        "1"
    } else if d == 2 {
        "2"
    } else if d == 3 {
        "3"
    } else if d == 4 {
        "4"
    } else if d == 5 {
        "5"
    } else if d == 6 {
        "6"
    } else if d == 7 {
        "7"
    } else if d == 8 {
        "8"
    } else {
        "9"
    };
    assert(s@ =~= seq![digit_char(d as nat)]);
    s
}

/// Writes `n` in `width` decimal digits, with zeros in front.
pub fn u64_to_padded(n: u64, width: usize) -> (s: String)
    ensures
        s@ == padded(n as nat, width as nat),
    decreases width,
{
    if width == 0 {
        String::new()
    } else {
        let mut s = u64_to_padded(n / 10, width - 1);
        s.append(digit_text(n % 10));
        assert(s@ =~= padded((n / 10) as nat, (width - 1) as nat).push(digit_char((n % 10) as nat)));
        s
    }
}

/// Calls `std::str::from_utf8` and copies the text: the text that the bytes
/// encode, where they are UTF-8.
#[verifier::external_body]
pub(crate) fn utf8_to_string(bytes: &[u8]) -> (r: Option<String>)
    ensures
        match r {
            Some(s) => vstd::utf8::valid_utf8(bytes@) && s@ == vstd::utf8::decode_utf8(bytes@),
            None => !vstd::utf8::valid_utf8(bytes@),
        },
{
    std::str::from_utf8(bytes).ok().map(|s| s.to_owned())
}

} // verus!
