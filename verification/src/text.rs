//! Character-level string helpers shared by the other modules.

use vstd::prelude::*;
use vstd::string::*;

verus! {

/// Whether `s` begins with `p`.
pub open spec fn seq_starts_with(s: Seq<char>, p: Seq<char>) -> bool {
    p.len() <= s.len() && s.subrange(0, p.len() as int) == p
}

/// Whether `s` ends with `p`.
pub open spec fn seq_ends_with(s: Seq<char>, p: Seq<char>) -> bool {
    p.len() <= s.len() && s.subrange(s.len() - p.len(), s.len() as int) == p
}

/// Whether `p` occurs at position `i` of `s`.
pub open spec fn occurs_at(s: Seq<char>, p: Seq<char>, i: int) -> bool {
    0 <= i && i + p.len() <= s.len() && s.subrange(i, i + p.len()) == p
}

/// Whether `p` occurs anywhere in `s`.
pub open spec fn seq_contains(s: Seq<char>, p: Seq<char>) -> bool {
    exists|i: int| occurs_at(s, p, i)
}

/// The characters of `s`, in order.
pub fn chars_of(s: &str) -> (v: Vec<char>)
    ensures
        v@ == s@,
{
    let n: usize = s.unicode_len();
    let mut v: Vec<char> = Vec::new();
    let mut i: usize = 0;
    while i < n
        invariant
            n == s@.len(),
            i <= n,
            v@ == s@.take(i as int),
        decreases n - i,
    {
        let c = s.get_char(i);
        v.push(c);
        assert(s@.take(i + 1) == s@.take(i as int).push(c));
        i = i + 1;
    }
    assert(s@.take(n as int) == s@);
    v
}

/// Whether `p` occurs in `s` at position `start`.
pub fn matches_at(s: &Vec<char>, start: usize, p: &Vec<char>) -> (r: bool)
    ensures
        r == occurs_at(s@, p@, start as int),
{
    if start > s.len() || p.len() > s.len() - start {
        return false;
    }
    let mut k: usize = 0;
    while k < p.len()
        invariant
            start + p.len() <= s.len(),
            k <= p.len(),
            forall|j: int| 0 <= j < k ==> s@[start + j] == p@[j],
        decreases p.len() - k,
    {
        if s[start + k] != p[k] {
            assert(s@.subrange(start as int, start + p.len())[k as int] != p@[k as int]);
            return false;
        }
        k = k + 1;
    }
    assert(s@.subrange(start as int, start + p.len()) =~= p@);
    true
}

/// Whether `a` and `b` hold the same characters.
pub fn str_eq(a: &str, b: &str) -> (r: bool)
    ensures
        r == (a@ == b@),
{
    let av = chars_of(a);
    let bv = chars_of(b);
    if av.len() != bv.len() {
        return false;
    }
    let r = matches_at(&av, 0, &bv);
    assert(av@.subrange(0, bv@.len() as int) =~= av@);
    r
}

/// Whether `s` begins with `p`.
pub fn starts_with(s: &str, p: &str) -> (r: bool)
    ensures
        r == seq_starts_with(s@, p@),
{
    let sv = chars_of(s);
    let pv = chars_of(p);
    matches_at(&sv, 0, &pv)
}

/// Whether `s` ends with `p`.
pub fn ends_with(s: &str, p: &str) -> (r: bool)
    ensures
        r == seq_ends_with(s@, p@),
{
    let sv = chars_of(s);
    let pv = chars_of(p);
    if pv.len() > sv.len() {
        return false;
    }
    matches_at(&sv, sv.len() - pv.len(), &pv)
}

/// Whether `p` occurs somewhere in `s`.
pub fn contains(s: &str, p: &str) -> (r: bool)
    ensures
        r == seq_contains(s@, p@),
{
    let sv = chars_of(s);
    let pv = chars_of(p);
    if pv.len() > sv.len() {
        assert forall|i: int| !occurs_at(s@, p@, i) by {}
        return false;
    }
    if pv.len() == 0 {
        assert(s@.subrange(0, 0) =~= p@);
        assert(occurs_at(s@, p@, 0));
        return true;
    }
    let last: usize = sv.len() - pv.len();
    let mut i: usize = 0;
    while i <= last
        invariant
            sv@ == s@,
            pv@ == p@,
            last == sv@.len() - pv@.len(),
            pv@.len() > 0,
            last < sv@.len(),
            sv@.len() <= usize::MAX,
            i <= last + 1,
            forall|j: int| 0 <= j < i ==> !occurs_at(s@, p@, j),
        decreases last + 1 - i,
    {
        if matches_at(&sv, i, &pv) {
            return true;
        }
        i = i + 1;
    }
    assert forall|j: int| !occurs_at(s@, p@, j) by {
        if 0 <= j && j < i {
        }
    }
    false
}

/// Whether `c` has the Unicode `White_Space` property, the property that
/// `char::is_whitespace` and `str::trim` go by: the controls from tab to
/// carriage return, space, next line, no-break space, the ogham space mark,
/// the spaces from en quad to hair space, the line and paragraph
/// separators, the narrow no-break space, the medium mathematical space and
/// the ideographic space.
pub open spec fn unicode_white_space(c: char) -> bool {
    let n = c as u32;
    ||| 0x09 <= n <= 0x0D
    ||| n == 0x20
    ||| n == 0x85
    ||| n == 0xA0
    ||| n == 0x1680
    ||| 0x2000 <= n <= 0x200A
    ||| n == 0x2028
    ||| n == 0x2029
    ||| n == 0x202F
    ||| n == 0x205F
    ||| n == 0x3000
}

/// Whether `c` is white space.
fn is_whitespace(c: char) -> (r: bool)
    ensures
        r == unicode_white_space(c),
{
    let n = c as u32;
    (0x09 <= n && n <= 0x0D) || n == 0x20 || n == 0x85 || n == 0xA0 || n == 0x1680 || (0x2000
        <= n && n <= 0x200A) || n == 0x2028 || n == 0x2029 || n == 0x202F || n == 0x205F || n
        == 0x3000
}

/// `s` without its leading white space.
pub open spec fn trim_start_seq(s: Seq<char>) -> Seq<char>
    decreases s.len(),
{
    if s.len() > 0 && unicode_white_space(s[0]) {
        trim_start_seq(s.drop_first())
    } else {
        s
    }
}

/// `s` without its trailing white space.
pub open spec fn trim_end_seq(s: Seq<char>) -> Seq<char>
    decreases s.len(),
{
    if s.len() > 0 && unicode_white_space(s.last()) {
        trim_end_seq(s.drop_last())
    } else {
        s
    }
}

/// `s` without leading and trailing white space, as `str::trim` gives it.
pub open spec fn trim_seq(s: Seq<char>) -> Seq<char> {
    trim_end_seq(trim_start_seq(s))
}

/// `s` with leading and trailing white space removed.
pub fn trim(s: &str) -> (r: String)
    ensures
        r@ == trim_seq(s@),
{
    let v = chars_of(s);
    let n: usize = v.len();
    let mut i: usize = 0;
    assert(s@.subrange(0, n as int) =~= s@);
    while i < n && is_whitespace(v[i])
        invariant
            v@ == s@,
            n == v@.len(),
            i <= n,
            trim_start_seq(s@) == trim_start_seq(s@.subrange(i as int, n as int)),
        decreases n - i,
    {
        proof {
            let t = s@.subrange(i as int, n as int);
            assert(t.drop_first() =~= s@.subrange(i + 1, n as int));
        }
        i = i + 1;
    }
    proof {
        let t = s@.subrange(i as int, n as int);
        assert(trim_start_seq(t) == t);
    }
    let mut j: usize = n;
    while j > i && is_whitespace(v[j - 1])
        invariant
            v@ == s@,
            n == v@.len(),
            i <= j <= n,
            trim_end_seq(s@.subrange(i as int, n as int)) == trim_end_seq(
                s@.subrange(i as int, j as int),
            ),
        decreases j,
    {
        proof {
            let t = s@.subrange(i as int, j as int);
            assert(t.drop_last() =~= s@.subrange(i as int, j - 1));
        }
        j = j - 1;
    }
    proof {
        let t = s@.subrange(i as int, j as int);
        assert(trim_end_seq(t) == t);
    }
    let piece = s.substring_char(i, j);
    String::from_str(piece)
}


/// The decimal digit `d` (below ten) as a character.
pub open spec fn digit_char(d: nat) -> char {
    (48 + d) as char
}

/// The decimal text of `n`, without leading zeros.
pub open spec fn decimal(n: nat) -> Seq<char>
    decreases n,
{
    if n < 10 {
        seq![digit_char(n)]
    } else {
        decimal(n / 10).push(digit_char(n % 10))
    }
}

/// The number that a text of decimal digits denotes.
pub open spec fn digits_value(s: Seq<char>) -> int
    decreases s.len(),
{
    if s.len() == 0 {
        0
    } else {
        digits_value(s.drop_last()) * 10 + (s.last() as int - 48)
    }
}

/// Reading back a decimal text gives its number; so distinct numbers have
/// distinct texts.
pub proof fn lemma_decimal_value(n: nat)
    ensures
        digits_value(decimal(n)) == n,
    decreases n,
{
    let t = decimal(n);
    if n >= 10 {
        lemma_digit_char(n % 10);
        lemma_decimal_value(n / 10);
        assert(t.drop_last() =~= decimal(n / 10));
        assert(t.last() == digit_char(n % 10));
        assert(n == (n / 10) * 10 + n % 10);
        assert(digits_value(t) == digits_value(t.drop_last()) * 10 + (t.last() as int - 48));
    } else {
        lemma_digit_char(n);
        assert(t.drop_last() =~= Seq::<char>::empty());
        assert(digits_value(t) == digits_value(t.drop_last()) * 10 + (t.last() as int - 48));
    }
}

proof fn lemma_digit_char(d: nat)
    requires
        d < 10,
    ensures
        digit_char(d) as int == 48 + d,
{
    assert(0 <= 48 + d <= 57);
}

/// The one-character text of the digit `d`.
fn digit_str(d: u128) -> (s: &'static str)
    requires
        d < 10,
    ensures
        s@ == seq![digit_char(d as nat)],
{
    proof {
        reveal_strlit("0");
        reveal_strlit("1");
        reveal_strlit("2");
        reveal_strlit("3");
        reveal_strlit("4");
        reveal_strlit("5");
        reveal_strlit("6");
        reveal_strlit("7");
        reveal_strlit("8");
        reveal_strlit("9");
    }
    if d == 0 {
        "0"
    } else if d == 1 {
        "1"
    } else if d == 2 {
        "2"
    } else if d == 3 {
        "3"
    } else if d == 4 {
        "4"
    } else if d == 5 {
        "5"
    } else if d == 6 {
        "6"
    } else if d == 7 {
        "7"
    } else if d == 8 {
        "8"
    } else {
        "9"
    }
}

/// The decimal text of `n`.
pub fn decimal_text(n: u128) -> (s: String)
    ensures
        s@ == decimal(n as nat),
    decreases n,
{
    if n < 10 {
        String::from_str(digit_str(n))
    } else {
        let mut s = decimal_text(n / 10);
        s.append(digit_str(n % 10));
        s
    }
}

} // verus!
