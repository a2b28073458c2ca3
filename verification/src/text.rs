//! Character-level utilities shared by the parsing, path-safety and
//! formatting code: ASCII case folding, substring search and decimal
//! rendering of integers.

use vstd::prelude::*;

verus! {

/// ASCII lower-casing of a single character; everything outside 'A'..'Z'
/// is left unchanged.
pub open spec fn lower_char(c: char) -> char {
    if 'A' <= c && c <= 'Z' {
        (((c as u8) + 32) as char)
    } else {
        c
    }
}

/// ASCII lower-casing of a whole character sequence.
pub open spec fn lower_chars(s: Seq<char>) -> Seq<char> {
    s.map_values(|c: char| lower_char(c))
}

pub fn lower_char_exec(c: char) -> (r: char)
    ensures
        r == lower_char(c),
{
    if 'A' <= c && c <= 'Z' {
        ((c as u8) + 32) as char
    } else {
        c
    }
}

/// Relies on str::chars of std: the iterator yields exactly the characters
/// of the string, in order.
#[verifier::external_body]
pub fn chars_vec(s: &str) -> (r: Vec<char>)
    ensures
        r@ == s@,
{
    s.chars().collect()
}

/// Relies on the FromIterator impl of String in std: collecting characters
/// builds the string of exactly those characters, in order.
#[verifier::external_body]
pub fn string_from_chars(chars: &Vec<char>) -> (r: String)
    ensures
        r@ == chars@,
{
    chars.iter().collect()
}

/// String equality on slices, decided through owned copies.
pub fn streq(a: &str, b: &str) -> (r: bool)
    ensures
        r == (a@ == b@),
{
    a.to_owned() == b.to_owned()
}

/// ASCII lower-casing of a string slice.
pub fn lowercase(s: &str) -> (r: String)
    ensures
        r@ == lower_chars(s@),
{
    let cs = chars_vec(s);
    let mut out: Vec<char> = Vec::new();
    let mut i: usize = 0;
    while i < cs.len()
        invariant
            i <= cs.len(),
            cs@ == s@,
            out@ == lower_chars(s@.take(i as int)),
        decreases cs.len() - i,
    {
        out.push(lower_char_exec(cs[i]));
        i = i + 1;
        proof {
            assert(out@ =~= lower_chars(s@.take(i as int)));
        }
    }
    proof {
        assert(s@.take(s@.len() as int) =~= s@);
    }
    string_from_chars(&out)
}

/// The pattern `pat` occurs in `s` starting at position `i`.
pub open spec fn matches_at<T>(s: Seq<T>, pat: Seq<T>, i: int) -> bool {
    &&& 0 <= i
    &&& i + pat.len() <= s.len()
    &&& s.subrange(i, i + pat.len()) == pat
}

/// The pattern `pat` occurs somewhere in `s`.
pub open spec fn contains_seq<T>(s: Seq<T>, pat: Seq<T>) -> bool {
    exists|i: int| matches_at(s, pat, i)
}

/// Substring search over character vectors.
pub fn contains_chars(s: &Vec<char>, pat: &Vec<char>) -> (r: bool)
    ensures
        r == contains_seq(s@, pat@),
{
    if pat.len() > s.len() {
        proof {
            assert(forall|i: int| !matches_at(s@, pat@, i));
        }
        return false;
    }
    let mut i: usize = 0;
    while i <= s.len() - pat.len()
        invariant
            pat.len() <= s.len(),
            i <= s@.len() - pat@.len() + 1,
            forall|k: int| 0 <= k < i ==> !matches_at(s@, pat@, k),
        decreases s@.len() - pat@.len() + 1 - i,
    {
        let mut j: usize = 0;
        let mut all: bool = true;
        while j < pat.len()
            invariant
                i + pat.len() <= s.len(),
                j <= pat.len(),
                all <==> (forall|m: int| 0 <= m < j ==> s@[i + m] == pat@[m]),
            decreases pat.len() - j,
        {
            if s[i + j] != pat[j] {
                all = false;
                proof {
                    assert(s@[i + j as int] != pat@[j as int]);
                }
            }
            j = j + 1;
        }
        if all {
            proof {
                assert(s@.subrange(i as int, i + pat@.len()) =~= pat@);
                assert(matches_at(s@, pat@, i as int));
            }
            return true;
        }
        proof {
            assert(!matches_at(s@, pat@, i as int)) by {
                if matches_at(s@, pat@, i as int) {
                    let m = choose|m: int| 0 <= m < pat@.len() && s@[i + m] != pat@[m];
                    assert(s@.subrange(i as int, i + pat@.len())[m] == s@[i + m]);
                }
            }
        }
        i = i + 1;
    }
    proof {
        assert(forall|k: int| 0 <= k < i ==> !matches_at(s@, pat@, k));
        assert(forall|k: int| k >= i ==> !matches_at(s@, pat@, k));
    }
    false
}

/// Substring search over byte slices.
pub fn contains_bytes(s: &[u8], pat: &[u8]) -> (r: bool)
    ensures
        r == contains_seq(s@, pat@),
{
    if pat.len() > s.len() {
        proof {
            assert(forall|i: int| !matches_at(s@, pat@, i));
        }
        return false;
    }
    let mut i: usize = 0;
    while i <= s.len() - pat.len()
        invariant
            pat.len() <= s.len(),
            i <= s@.len() - pat@.len() + 1,
            forall|k: int| 0 <= k < i ==> !matches_at(s@, pat@, k),
        decreases s@.len() - pat@.len() + 1 - i,
    {
        let mut j: usize = 0;
        let mut all: bool = true;
        while j < pat.len()
            invariant
                i + pat.len() <= s.len(),
                j <= pat.len(),
                all <==> (forall|m: int| 0 <= m < j ==> s@[i + m] == pat@[m]),
            decreases pat.len() - j,
        {
            if s[i + j] != pat[j] {
                all = false;
                proof {
                    assert(s@[i + j as int] != pat@[j as int]);
                }
            }
            j = j + 1;
        }
        if all {
            proof {
                assert(s@.subrange(i as int, i + pat@.len()) =~= pat@);
                assert(matches_at(s@, pat@, i as int));
            }
            return true;
        }
        proof {
            assert(!matches_at(s@, pat@, i as int)) by {
                if matches_at(s@, pat@, i as int) {
                    let m = choose|m: int| 0 <= m < pat@.len() && s@[i + m] != pat@[m];
                    assert(s@.subrange(i as int, i + pat@.len())[m] == s@[i + m]);
                }
            }
        }
        i = i + 1;
    }
    proof {
        assert(forall|k: int| 0 <= k < i ==> !matches_at(s@, pat@, k));
        assert(forall|k: int| k >= i ==> !matches_at(s@, pat@, k));
    }
    false
}

/// An element-wise copy of a byte vector.
pub fn copy_bytes(src: &Vec<u8>) -> (r: Vec<u8>)
    ensures
        r@ == src@,
{
    let mut out: Vec<u8> = Vec::new();
    let mut i: usize = 0;
    while i < src.len()
        invariant
            i <= src@.len(),
            out@ == src@.take(i as int),
        decreases src@.len() - i,
    {
        out.push(src[i]);
        i = i + 1;
        proof {
            assert(out@ =~= src@.take(i as int));
        }
    }
    proof {
        assert(src@.take(src@.len() as int) =~= src@);
    }
    out
}

/// The decimal digit character for a value below ten.
pub open spec fn dec_digit(d: int) -> char {
    ((('0' as u8) + d) as char)
}

/// The decimal representation of a natural number, most significant digit
/// first, with no leading zeroes (a single '0' for zero).
pub open spec fn dec_rep(n: nat) -> Seq<char>
    decreases n,
{
    if n < 10 {
        seq![dec_digit(n as int)]
    } else {
        dec_rep(n / 10).push(dec_digit((n % 10) as int))
    }
}

/// Filtering a prefix yields a prefix of the filtered sequence.
pub proof fn lemma_filter_prefix<A>(s: Seq<A>, pred: spec_fn(A) -> bool, i: int)
    requires
        0 <= i <= s.len(),
    ensures
        s.take(i).filter(pred).len() <= s.filter(pred).len(),
        forall|j: int|
            0 <= j < s.take(i).filter(pred).len() ==> #[trigger] s.take(i).filter(pred)[j]
                == s.filter(pred)[j],
    decreases s.len() - i,
{
    reveal(Seq::filter);
    if i == s.len() {
        assert(s.take(i) =~= s);
    } else {
        assert(s.take(i + 1).drop_last() =~= s.take(i));
        assert(s.take(i + 1).last() == s[i]);
        lemma_filter_prefix(s, pred, i + 1);
        let f1 = s.take(i).filter(pred);
        let f2 = s.take(i + 1).filter(pred);
        assert(f2 == if pred(s[i]) {
            f1.push(s[i])
        } else {
            f1
        });
        assert(forall|j: int| 0 <= j < f1.len() ==> #[trigger] f1[j] == f2[j]);
    }
}

/// Every character of a decimal representation is a digit.
pub proof fn lemma_dec_rep_digits(n: nat)
    ensures
        forall|i: int| 0 <= i < dec_rep(n).len() ==> '0' <= #[trigger] dec_rep(n)[i] <= '9',
    decreases n,
{
    if n < 10 {
        assert('0' <= dec_digit(n as int) <= '9');
        assert(dec_rep(n)[0] == dec_digit(n as int));
    } else {
        lemma_dec_rep_digits(n / 10);
        let t = dec_rep(n / 10);
        assert('0' <= dec_digit((n % 10) as int) <= '9');
        assert forall|i: int| 0 <= i < dec_rep(n).len() implies '0' <= #[trigger] dec_rep(n)[i]
            <= '9' by {
            if i < t.len() {
                assert(dec_rep(n)[i] == t[i]);
            } else {
                assert(dec_rep(n)[i] == dec_digit((n % 10) as int));
            }
        }
    }
}

/// Every character of a zero-padded decimal representation is a digit.
pub proof fn lemma_dec_padded_digits(n: nat, width: nat)
    ensures
        forall|i: int| 0 <= i < dec_padded(n, width).len() ==> '0' <= #[trigger] dec_padded(
            n,
            width,
        )[i] <= '9',
        dec_padded(n, width).len() >= width,
        dec_padded(n, width).len() >= 1,
{
    lemma_dec_rep_digits(n);
    lemma_dec_rep_min_len(n);
}

proof fn lemma_dec_rep_min_len(n: nat)
    ensures
        dec_rep(n).len() >= 1,
    decreases n,
{
    if n >= 10 {
        lemma_dec_rep_min_len(n / 10);
    }
}

/// Digit counts of small decimal representations.
pub proof fn lemma_dec_rep_len_bounds(n: nat)
    ensures
        n < 10 ==> dec_rep(n).len() == 1,
        n < 100 ==> dec_rep(n).len() <= 2,
        n < 1000 ==> dec_rep(n).len() <= 3,
        n < 10000 ==> dec_rep(n).len() <= 4,
    decreases n,
{
    if n >= 10 {
        lemma_dec_rep_len_bounds(n / 10);
    }
}

/// A two-element pattern occurs exactly where its two characters are
/// adjacent.
pub proof fn lemma_contains_pair<T>(s: Seq<T>, a: T, b: T)
    ensures
        contains_seq(s, seq![a, b]) <==> exists|i: int|
            0 <= i < s.len() - 1 && #[trigger] s[i] == a && s[i + 1] == b,
{
    if contains_seq(s, seq![a, b]) {
        let i = choose|i: int| matches_at(s, seq![a, b], i);
        assert(s.subrange(i, i + 2)[0] == s[i]);
        assert(s.subrange(i, i + 2)[1] == s[i + 1]);
        assert(0 <= i < s.len() - 1 && s[i] == a && s[i + 1] == b);
    }
    if exists|i: int| 0 <= i < s.len() - 1 && #[trigger] s[i] == a && s[i + 1] == b {
        let i = choose|i: int| 0 <= i < s.len() - 1 && #[trigger] s[i] == a && s[i + 1] == b;
        assert(s.subrange(i, i + 2) =~= seq![a, b]);
        assert(matches_at(s, seq![a, b], i));
    }
}

/// A one-element pattern occurs exactly where its character does.
pub proof fn lemma_contains_single<T>(s: Seq<T>, a: T)
    ensures
        contains_seq(s, seq![a]) <==> exists|i: int| 0 <= i < s.len() && #[trigger] s[i] == a,
{
    if contains_seq(s, seq![a]) {
        let i = choose|i: int| matches_at(s, seq![a], i);
        assert(s.subrange(i, i + 1)[0] == s[i]);
        assert(0 <= i < s.len() && s[i] == a);
    }
    if exists|i: int| 0 <= i < s.len() && #[trigger] s[i] == a {
        let i = choose|i: int| 0 <= i < s.len() && #[trigger] s[i] == a;
        assert(s.subrange(i, i + 1) =~= seq![a]);
        assert(matches_at(s, seq![a], i));
    }
}

/// Relies on the Display impl of u64 in std: `format!` renders the decimal
/// digits of the number, most significant first, with no leading zeroes.
#[verifier::external_body]
pub fn u64_to_dec(n: u64) -> (r: String)
    ensures
        r@ == dec_rep(n as nat),
{
    format!("{}", n)
}

/// `dec_rep(n)` left-padded with '0' to at least `width` characters.
pub open spec fn dec_padded(n: nat, width: nat) -> Seq<char> {
    if dec_rep(n).len() >= width {
        dec_rep(n)
    } else {
        Seq::new((width - dec_rep(n).len()) as nat, |i: int| '0') + dec_rep(n)
    }
}

/// Decimal rendering padded with leading zeroes to at least `width`
/// characters, as "{:0width$}" would print.
pub fn u64_to_dec_padded(n: u64, width: usize) -> (r: String)
    ensures
        r@ == dec_padded(n as nat, width as nat),
{
    let digits = u64_to_dec(n);
    let dv = chars_vec(digits.as_str());
    if dv.len() >= width {
        proof {
            assert(dec_padded(n as nat, width as nat) == dec_rep(n as nat));
        }
        return digits;
    }
    let mut out: Vec<char> = Vec::new();
    let mut i: usize = 0;
    while i < width - dv.len()
        invariant
            dv@ == dec_rep(n as nat),
            dv.len() < width,
            i <= width - dv.len(),
            out@ =~= Seq::new(i as nat, |k: int| '0'),
        decreases width - dv.len() - i,
    {
        out.push('0');
        i = i + 1;
        proof {
            assert(out@ =~= Seq::new(i as nat, |k: int| '0'));
        }
    }
    let mut j: usize = 0;
    while j < dv.len()
        invariant
            dv@ == dec_rep(n as nat),
            dv.len() < width,
            j <= dv.len(),
            out@ =~= Seq::new((width - dv@.len()) as nat, |k: int| '0') + dv@.take(j as int),
        decreases dv.len() - j,
    {
        out.push(dv[j]);
        j = j + 1;
        proof {
            assert(out@ =~= Seq::new((width - dv@.len()) as nat, |k: int| '0') + dv@.take(j as int));
        }
    }
    proof {
        assert(dv@.take(dv@.len() as int) =~= dv@);
    }
    string_from_chars(&out)
}

} // verus!
