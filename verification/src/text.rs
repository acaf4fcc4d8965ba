//! Text helpers: trimming by Unicode white space, comparing string slices,
//! and writing a count in decimal.

use vstd::prelude::*;
use vstd::string::*;
use vstd::utf8::*;

verus! {

/// Whether `c` carries the Unicode property `White_Space`.
pub open spec fn is_whitespace(c: char) -> bool {
    let n = c as u32;
    ||| 0x09 <= n <= 0x0D
    ||| n == 0x20
    ||| n == 0x85
    ||| n == 0xA0
    ||| n == 0x1680
    ||| 0x2000 <= n <= 0x200A
    ||| n == 0x2028
    ||| n == 0x2029
    ||| n == 0x202F
    ||| n == 0x205F
    ||| n == 0x3000
}

/// `s` without its leading white space.
pub open spec fn trim_start(s: Seq<char>) -> Seq<char>
    decreases s.len(),
{
    if s.len() > 0 && is_whitespace(s.first()) {
        trim_start(s.drop_first())
    } else {
        s
    }
}

/// `s` without its trailing white space.
pub open spec fn trim_end(s: Seq<char>) -> Seq<char>
    decreases s.len(),
{
    if s.len() > 0 && is_whitespace(s.last()) {
        trim_end(s.drop_last())
    } else {
        s
    }
}

/// `s` without its leading and trailing white space.
pub open spec fn trim(s: Seq<char>) -> Seq<char> {
    trim_end(trim_start(s))
}

/// Whether every character of `s` is white space.
pub open spec fn is_blank(s: Seq<char>) -> bool {
    forall|i: int| 0 <= i < s.len() ==> is_whitespace(#[trigger] s[i])
}

/// Trimming the leading white space removes exactly the run before the
/// first visible character.
pub proof fn lemma_trim_start_from(s: Seq<char>, start: int)
    requires
        0 <= start <= s.len(),
        forall|i: int| 0 <= i < start ==> is_whitespace(#[trigger] s[i]),
        start < s.len() ==> !is_whitespace(s[start]),
    ensures
        trim_start(s) == s.subrange(start, s.len() as int),
    decreases s.len(),
{
    if start == 0 {
        assert(s.subrange(0, s.len() as int) =~= s);
    } else {
        let rest = s.drop_first();
        assert forall|i: int| 0 <= i < start - 1 implies is_whitespace(#[trigger] rest[i]) by {
            assert(rest[i] == s[i + 1]);
        }
        lemma_trim_start_from(rest, start - 1);
        assert(rest.subrange(start - 1, rest.len() as int) =~= s.subrange(start, s.len() as int));
    }
}

/// Trimming the trailing white space removes exactly the run after the last
/// visible character.
pub proof fn lemma_trim_end_to(s: Seq<char>, end: int)
    requires
        0 <= end <= s.len(),
        forall|i: int| end <= i < s.len() ==> is_whitespace(#[trigger] s[i]),
        0 < end ==> !is_whitespace(s[end - 1]),
    ensures
        trim_end(s) == s.subrange(0, end),
    decreases s.len(),
{
    if end == s.len() {
        assert(s.subrange(0, end) =~= s);
    } else {
        let rest = s.drop_last();
        lemma_trim_end_to(rest, end);
        assert(rest.subrange(0, end) =~= s.subrange(0, end));
    }
}

/// A text that holds a visible character trims to the span from its first
/// visible character to its last one.
pub proof fn lemma_trim_span(s: Seq<char>, start: int, end: int)
    requires
        0 <= start < end <= s.len(),
        forall|i: int| 0 <= i < start ==> is_whitespace(#[trigger] s[i]),
        forall|i: int| end <= i < s.len() ==> is_whitespace(#[trigger] s[i]),
        !is_whitespace(s[start]),
        !is_whitespace(s[end - 1]),
    ensures
        trim(s) == s.subrange(start, end),
{
    lemma_trim_start_from(s, start);
    let tail = s.subrange(start, s.len() as int);
    assert forall|i: int| end - start <= i < tail.len() implies is_whitespace(
        #[trigger] tail[i],
    ) by {
        assert(tail[i] == s[start + i]);
    }
    assert(tail[end - start - 1] == s[end - 1]);
    lemma_trim_end_to(tail, end - start);
    assert(tail.subrange(0, end - start) =~= s.subrange(start, end));
}

/// A text trims to nothing exactly when it is blank.
pub proof fn lemma_trim_blank(s: Seq<char>)
    ensures
        trim(s).len() == 0 <==> is_blank(s),
        trim(s).len() <= s.len(),
{
    if is_blank(s) {
        lemma_trim_start_from(s, s.len() as int);
        assert(s.subrange(s.len() as int, s.len() as int) =~= Seq::<char>::empty());
    } else {
        let start = choose|i: int| 0 <= i < s.len() && !is_whitespace(s[i]) && forall|j: int|
            0 <= j < i ==> is_whitespace(#[trigger] s[j]);
        let last = choose|i: int| 0 <= i < s.len() && !is_whitespace(s[i]) && forall|j: int|
            i < j < s.len() ==> is_whitespace(#[trigger] s[j]);
        lemma_first_visible(s, 0);
        lemma_last_visible(s, s.len() as int);
        lemma_trim_span(s, start, last + 1);
    }
}

/// Trimming what is trimmed changes nothing.
pub proof fn lemma_trim_twice(s: Seq<char>)
    ensures
        trim(trim(s)) == trim(s),
{
    lemma_trim_blank(s);
    if !is_blank(s) {
        let start = choose|i: int| 0 <= i < s.len() && !is_whitespace(s[i]) && forall|j: int|
            0 <= j < i ==> is_whitespace(#[trigger] s[j]);
        let last = choose|i: int| 0 <= i < s.len() && !is_whitespace(s[i]) && forall|j: int|
            i < j < s.len() ==> is_whitespace(#[trigger] s[j]);
        lemma_first_visible(s, 0);
        lemma_last_visible(s, s.len() as int);
        lemma_trim_span(s, start, last + 1);
        let t = s.subrange(start, last + 1);
        assert(t[0] == s[start]);
        assert(t[t.len() - 1] == s[last]);
        lemma_trim_span(t, 0, t.len() as int);
        assert(t.subrange(0, t.len() as int) =~= t);
    }
}

/// A text that holds a visible character at or after `from` has a first one.
proof fn lemma_first_visible(s: Seq<char>, from: int)
    requires
        0 <= from <= s.len(),
        forall|j: int| 0 <= j < from ==> is_whitespace(#[trigger] s[j]),
        !is_blank(s),
    ensures
        exists|i: int|
            0 <= i < s.len() && !is_whitespace(s[i]) && forall|j: int|
                0 <= j < i ==> is_whitespace(#[trigger] s[j]),
    decreases s.len() - from,
{
    if from < s.len() && is_whitespace(s[from]) {
        lemma_first_visible(s, from + 1);
    } else if from < s.len() {
        assert(!is_whitespace(s[from]) && forall|j: int|
            0 <= j < from ==> is_whitespace(#[trigger] s[j]));
    }
}

/// A text that holds a visible character before `to` has a last one.
proof fn lemma_last_visible(s: Seq<char>, to: int)
    requires
        0 <= to <= s.len(),
        forall|j: int| to <= j < s.len() ==> is_whitespace(#[trigger] s[j]),
        !is_blank(s),
    ensures
        exists|i: int|
            0 <= i < s.len() && !is_whitespace(s[i]) && forall|j: int|
                i < j < s.len() ==> is_whitespace(#[trigger] s[j]),
    decreases to,
{
    if to > 0 && is_whitespace(s[to - 1]) {
        lemma_last_visible(s, to - 1);
    } else if to > 0 {
        let i = to - 1;
        assert(!is_whitespace(s[i]) && forall|j: int|
            i < j < s.len() ==> is_whitespace(#[trigger] s[j]));
    }
}

/// Tells whether `c` is white space.
pub fn char_is_whitespace(c: char) -> (b: bool)
    ensures
        b == is_whitespace(c),
{
    let n: u32 = c as u32;
    (0x09 <= n && n <= 0x0D) || n == 0x20 || n == 0x85 || n == 0xA0 || n == 0x1680 || (0x2000 <= n
        && n <= 0x200A) || n == 0x2028 || n == 0x2029 || n == 0x202F || n == 0x205F || n == 0x3000
}

/// Returns `s` without its leading and trailing white space.
pub fn trimmed(s: &str) -> (r: String)
    ensures
        r@ == trim(s@),
{
    let n: usize = s.unicode_len();
    let mut seen: bool = false;
    let mut start: usize = 0;
    let mut end: usize = 0;
    let mut i: usize = 0;
    for c in it: s.chars()
        invariant
            it.seq() == s@,
            n == s@.len(),
            i == it.index(),
            !seen ==> forall|j: int| 0 <= j < i ==> is_whitespace(#[trigger] s@[j]),
            seen ==> 0 <= start < end <= i,
            seen ==> !is_whitespace(s@[start as int]) && !is_whitespace(s@[end - 1]),
            seen ==> forall|j: int| 0 <= j < start ==> is_whitespace(#[trigger] s@[j]),
            seen ==> forall|j: int| end <= j < i ==> is_whitespace(#[trigger] s@[j]),
    {
        if !char_is_whitespace(c) {
            if !seen {
                start = i;
                seen = true;
            }
            end = i + 1;
        }
        i = i + 1;
    }
    if seen {
        proof {
            lemma_trim_span(s@, start as int, end as int);
        }
        s.substring_char(start, end).to_owned()
    } else {
        proof {
            lemma_trim_blank(s@);
            assert(trim(s@) =~= Seq::<char>::empty());
        }
        String::new()
    }
}

/// Tells whether two string slices hold the same text.
pub fn str_eq(a: &str, b: &str) -> (r: bool)
    ensures
        r == (a@ == b@),
{
    let x = a.as_bytes();
    let y = b.as_bytes();
    proof {
        encode_utf8_decode_utf8(a@);
        encode_utf8_decode_utf8(b@);
    }
    if x.len() != y.len() {
        return false;
    }
    let mut i: usize = 0;
    while i < x.len()
        invariant
            x@ == a.spec_bytes(),
            y@ == b.spec_bytes(),
            x@.len() == y@.len(),
            i <= x@.len(),
            forall|j: int| 0 <= j < i ==> x@[j] == y@[j],
            decode_utf8(a.spec_bytes()) == a@,
            decode_utf8(b.spec_bytes()) == b@,
        decreases x@.len() - i,
    {
        if x[i] != y[i] {
            return false;
        }
        i = i + 1;
    }
    assert(x@ =~= y@);
    true
}

/// The decimal digit `d` as a character.
pub open spec fn digit(d: nat) -> char
    recommends
        d < 10,
{
    if d == 0 {
        '0'
    } else if d == 1 {
        '1'
    } else if d == 2 {
        '2'
    } else if d == 3 {
        '3'
    } else if d == 4 {
        '4'
    } else if d == 5 {
        '5'
    } else if d == 6 {
        '6'
    } else if d == 7 {
        '7'
    } else if d == 8 {
        '8'
    } else {
        '9'
    }
}

/// `n` written in decimal, without leading zeros.
pub open spec fn decimal(n: nat) -> Seq<char>
    decreases n,
{
    if n < 10 {
        seq![digit(n)]
    } else {
        decimal(n / 10).push(digit(n % 10))
    }
}

/// The one-character text of a decimal digit.
fn digit_str(d: usize) -> (r: &'static str)
    requires
        d < 10,
    ensures
        r@ == seq![digit(d as nat)],
{
    proof {
        reveal_strlit("0");
        reveal_strlit("1");
        reveal_strlit("2");
        reveal_strlit("3");
        reveal_strlit("4");
        reveal_strlit("5");
        reveal_strlit("6");
        reveal_strlit("7");
        reveal_strlit("8");
        reveal_strlit("9");
    }
    let r = if d == 0 {
        "0"
    } else if d == 1 {
        "1"
    } else if d == 2 {
        "2"
    } else if d == 3 {
        "3"
    } else if d == 4 {
        "4"
    } else if d == 5 {
        "5"
    } else if d == 6 {
        "6"
    } else if d == 7 {
        "7"
    } else if d == 8 {
        "8"
    } else {
        "9"
    };
    assert(r@ =~= seq![digit(d as nat)]);
    r
}

/// Writes `n` in decimal.
pub fn decimal_string(n: usize) -> (r: String)
    ensures
        r@ == decimal(n as nat),
    decreases n,
{
    if n < 10 {
        String::from_str(digit_str(n))
    } else {
        let mut r = decimal_string(n / 10);
        r.append(digit_str(n % 10));
        assert(r@ =~= decimal((n / 10) as nat).push(digit((n % 10) as nat)));
        r
    }
}

} // verus!
