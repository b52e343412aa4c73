//! Executable character and string helpers that the widgets build their
//! rendering and search on: conversions between `String` and `Vec<char>`,
//! equality and substring tests, fixed-width padding by character count, and
//! decimal formatting.

use vstd::prelude::*;
use vstd::string::StrSliceExecFns;

verus! {

/// Relies on String::push: appends one character at the end of the string.
pub assume_specification[ String::push ](s: &mut String, c: char)
    ensures
        final(s)@ == old(s)@.push(c),
;

/// The characters of `s`, as a vector.
pub fn chars_of(s: &str) -> (v: Vec<char>)
    ensures
        v@ == s@,
{
    let n: usize = s.unicode_len();
    let mut v: Vec<char> = Vec::new();
    let mut i: usize = 0;
    while i < n
        invariant
            n == s@.len(),
            i <= n,
            v@ == s@.take(i as int),
        decreases n - i,
    {
        let c: char = s.get_char(i);
        v.push(c);
        proof {
            assert(s@.take(i as int).push(s@[i as int]) =~= s@.take(i as int + 1));
        }
        i = i + 1;
    }
    proof {
        assert(s@.take(n as int) =~= s@);
    }
    v
}

/// The string holding exactly the characters of `v`.
pub fn string_of(v: &Vec<char>) -> (s: String)
    ensures
        s@ == v@,
{
    let mut s: String = String::new();
    let mut i: usize = 0;
    while i < v.len()
        invariant
            i <= v.len(),
            s@ == v@.take(i as int),
        decreases v.len() - i,
    {
        s.push(v[i]);
        proof {
            assert(v@.take(i as int).push(v@[i as int]) =~= v@.take(i as int + 1));
        }
        i = i + 1;
    }
    proof {
        assert(v@.take(v@.len() as int) =~= v@);
    }
    s
}

/// Character-for-character equality of two string slices.
pub fn str_eq(a: &str, b: &str) -> (r: bool)
    ensures
        r == (a@ == b@),
{
    let n: usize = a.unicode_len();
    let m: usize = b.unicode_len();
    if n != m {
        return false;
    }
    let mut i: usize = 0;
    while i < n
        invariant
            n == a@.len(),
            n == b@.len(),
            i <= n,
            forall|j: int| 0 <= j < i ==> a@[j] == b@[j],
        decreases n - i,
    {
        if a.get_char(i) != b.get_char(i) {
            return false;
        }
        i = i + 1;
    }
    proof {
        assert(a@ =~= b@);
    }
    true
}

/// `needle` occurs in `hay` as a contiguous run of characters.
pub open spec fn spec_contains_sub(hay: Seq<char>, needle: Seq<char>) -> bool {
    exists|i: int|
        0 <= i && i + needle.len() <= hay.len() && #[trigger] hay.subrange(i, i + needle.len())
            == needle
}

/// Substring search: does `needle` occur contiguously in `hay`?
pub fn str_contains(hay: &str, needle: &str) -> (r: bool)
    ensures
        r == spec_contains_sub(hay@, needle@),
{
    let hv: Vec<char> = chars_of(hay);
    let nv: Vec<char> = chars_of(needle);
    let hl: usize = hv.len();
    let nl: usize = nv.len();
    if nl > hl {
        return false;
    }
    if nl == 0 {
        proof {
            assert(hay@.subrange(0, 0 + needle@.len() as int) =~= needle@);
        }
        return true;
    }
    let mut i: usize = 0;
    while i <= hl - nl
        invariant
            hv@ == hay@,
            nv@ == needle@,
            hl == hay@.len(),
            nl == needle@.len(),
            1 <= nl <= hl,
            i <= hl - nl + 1,
            forall|k: int| 0 <= k < i ==> #[trigger] hay@.subrange(k, k + nl) != needle@,
        decreases hl - nl - i + 1,
    {
        let mut j: usize = 0;
        let mut hit: bool = true;
        while j < nl
            invariant
                hv@ == hay@,
                nv@ == needle@,
                hl == hay@.len(),
                nl == needle@.len(),
                i + nl <= hl,
                j <= nl,
                hit ==> forall|t: int| 0 <= t < j ==> hay@[i + t] == #[trigger] needle@[t],
                !hit ==> hay@.subrange(i as int, i + nl) != needle@,
            decreases nl - j,
        {
            if hv[i + j] != nv[j] {
                proof {
                    assert(hay@.subrange(i as int, i + nl)[j as int] == hay@[i + j]);
                }
                hit = false;
                j = nl;
            } else {
                j = j + 1;
            }
        }
        if hit {
            proof {
                assert(hay@.subrange(i as int, i + nl) =~= needle@);
            }
            return true;
        }
        i = i + 1;
    }
    proof {
        assert(forall|k: int| 0 <= k && k + needle@.len() <= hay@.len() ==> #[trigger] hay@.subrange(k, k + needle@.len()) != needle@);
    }
    false
}

/// A run of `n` spaces.
pub open spec fn spec_spaces(n: nat) -> Seq<char>
    decreases n,
{
    if n == 0 {
        Seq::empty()
    } else {
        spec_spaces((n - 1) as nat).push(' ')
    }
}

/// `s` padded on the right with spaces to at least `w` characters.
pub open spec fn spec_pad_right(s: Seq<char>, w: int) -> Seq<char> {
    if s.len() >= w {
        s
    } else {
        s + spec_spaces((w - s.len()) as nat)
    }
}

/// `s` padded on the left with spaces to at least `w` characters.
pub open spec fn spec_pad_left(s: Seq<char>, w: int) -> Seq<char> {
    if s.len() >= w {
        s
    } else {
        spec_spaces((w - s.len()) as nat) + s
    }
}

/// Append `s` and then spaces up to a field of `w` characters.
pub fn push_padded_right(out: &mut Vec<char>, s: &str, w: usize)
    ensures
        final(out)@ == old(out)@ + spec_pad_right(s@, w as int),
{
    let sv: Vec<char> = chars_of(s);
    let mut i: usize = 0;
    while i < sv.len()
        invariant
            sv@ == s@,
            i <= sv.len(),
            out@ == old(out)@ + s@.take(i as int),
        decreases sv.len() - i,
    {
        out.push(sv[i]);
        proof {
            assert(old(out)@ + s@.take(i as int).push(s@[i as int]) =~= old(out)@ + s@.take(
                i as int + 1,
            ));
        }
        i = i + 1;
    }
    proof {
        assert(s@.take(s@.len() as int) =~= s@);
    }
    let n: usize = sv.len();
    let mut k: usize = n;
    proof {
        assert(old(out)@ + s@ + spec_spaces(0) =~= old(out)@ + s@);
    }
    while k < w
        invariant
            n == s@.len(),
            n <= k,
            k <= w || k == n,
            out@ == old(out)@ + s@ + spec_spaces((k - n) as nat),
        decreases w - k,
    {
        out.push(' ');
        k = k + 1;
    }
    proof {
        if s@.len() >= w {
            assert(out@ =~= old(out)@ + spec_pad_right(s@, w as int));
        } else {
            assert(out@ =~= old(out)@ + spec_pad_right(s@, w as int));
        }
    }
}

/// Append spaces up to a field of `w` characters, then `s`.
pub fn push_padded_left(out: &mut Vec<char>, s: &str, w: usize)
    ensures
        final(out)@ == old(out)@ + spec_pad_left(s@, w as int),
{
    let sv: Vec<char> = chars_of(s);
    let n: usize = sv.len();
    let mut k: usize = 0;
    proof {
        assert(old(out)@ + spec_spaces(0) =~= old(out)@);
    }
    while n + k < w
        invariant
            n == s@.len(),
            n + k <= w || k == 0,
            out@ == old(out)@ + spec_spaces(k as nat),
        decreases w - n - k,
    {
        out.push(' ');
        k = k + 1;
    }
    let mut i: usize = 0;
    proof {
        assert(out@ + s@.take(0) =~= out@);
    }
    while i < n
        invariant
            sv@ == s@,
            n == s@.len(),
            i <= n,
            out@ == old(out)@ + spec_spaces(k as nat) + s@.take(i as int),
        decreases n - i,
    {
        out.push(sv[i]);
        proof {
            assert(old(out)@ + spec_spaces(k as nat) + s@.take(i as int).push(s@[i as int]) =~= old(
                out,
            )@ + spec_spaces(k as nat) + s@.take(i as int + 1));
        }
        i = i + 1;
    }
    proof {
        assert(s@.take(s@.len() as int) =~= s@);
        if s@.len() >= w {
            assert(k == 0);
            assert(spec_spaces(0) =~= Seq::<char>::empty());
            assert(out@ =~= old(out)@ + spec_pad_left(s@, w as int));
        } else {
            assert(out@ =~= old(out)@ + spec_pad_left(s@, w as int));
        }
    }
}

/// The character for one decimal digit.
pub open spec fn spec_digit_char(d: int) -> char {
    if d == 0 {
        '0'
    } else if d == 1 {
        '1'
    } else if d == 2 {
        '2'
    } else if d == 3 {
        '3'
    } else if d == 4 {
        '4'
    } else if d == 5 {
        '5'
    } else if d == 6 {
        '6'
    } else if d == 7 {
        '7'
    } else if d == 8 {
        '8'
    } else {
        '9'
    }
}

/// The decimal digits of `n`, most significant first.
pub open spec fn spec_dec_str(n: nat) -> Seq<char>
    decreases n,
{
    if n < 10 {
        seq![spec_digit_char(n as int)]
    } else {
        spec_dec_str(n / 10).push(spec_digit_char((n % 10) as int))
    }
}

fn digit_char(d: usize) -> (c: char)
    requires
        d < 10,
    ensures
        c == spec_digit_char(d as int),
{
    if d == 0 {
        '0'
    } else if d == 1 {
        '1'
    } else if d == 2 {
        '2'
    } else if d == 3 {
        '3'
    } else if d == 4 {
        '4'
    } else if d == 5 {
        '5'
    } else if d == 6 {
        '6'
    } else if d == 7 {
        '7'
    } else if d == 8 {
        '8'
    } else {
        '9'
    }
}

/// Append the decimal rendering of `n`.
pub fn push_decimal(out: &mut Vec<char>, n: usize)
    ensures
        final(out)@ == old(out)@ + spec_dec_str(n as nat),
{
    // Collect digits from least significant to most significant.
    let mut digits: Vec<char> = Vec::new();
    let mut m: usize = n;
    if m == 0 {
        out.push('0');
        proof {
            assert(old(out)@.push('0') =~= old(out)@ + spec_dec_str(0));
        }
        return ;
    }
    proof {
        assert(spec_dec_str(n as nat) + digits@.reverse() =~= spec_dec_str(n as nat));
    }
    while m > 0
        invariant
            m > 0 ==> spec_dec_str(n as nat) == spec_dec_str(m as nat) + digits@.reverse(),
            m == 0 ==> spec_dec_str(n as nat) == digits@.reverse(),
        decreases m,
    {
        let d: char = digit_char(m % 10);
        digits.push(d);
        proof {
            let dg = digits@;
            assert(dg.reverse() =~= seq![spec_digit_char((m % 10) as int)] + dg.drop_last().reverse());
            if m >= 10 {
                assert(spec_dec_str(m as nat) == spec_dec_str((m / 10) as nat).push(
                    spec_digit_char((m % 10) as int),
                ));
                assert(spec_dec_str((m / 10) as nat) + dg.reverse() =~= spec_dec_str(m as nat)
                    + dg.drop_last().reverse());
            } else {
                assert(spec_dec_str(m as nat) =~= seq![spec_digit_char((m % 10) as int)]);
                assert(dg.reverse() =~= spec_dec_str(m as nat) + dg.drop_last().reverse());
            }
        }
        m = m / 10;
    }
    // Emit in most-significant-first order.
    let mut k: usize = digits.len();
    proof {
        assert(old(out)@ + digits@.reverse().take(0) =~= old(out)@);
    }
    while k > 0
        invariant
            k <= digits.len(),
            out@ == old(out)@ + digits@.reverse().take(digits@.len() - k),
        decreases k,
    {
        k = k - 1;
        out.push(digits[k]);
        proof {
            let r = digits@.reverse();
            assert(r[digits@.len() - k - 1] == digits@[k as int]);
            assert(r.take(digits@.len() - k - 1).push(r[digits@.len() - k - 1]) =~= r.take(
                digits@.len() - k,
            ));
        }
    }
    proof {
        assert(digits@.reverse().take(digits@.len() as int) =~= digits@.reverse());
    }
}

/// Append all of `s`.
pub fn push_str_chars(out: &mut Vec<char>, s: &str)
    ensures
        final(out)@ == old(out)@ + s@,
{
    push_padded_right(out, s, 0);
}

/// `s` padded with spaces, or cut with a trailing ellipsis, to exactly `w`
/// characters.
pub open spec fn spec_pad_trunc_chars(s: Seq<char>, w: int) -> Seq<char> {
    if s.len() <= w {
        s + spec_spaces((w - s.len()) as nat)
    } else if w == 0 {
        Seq::empty()
    } else {
        s.take(w - 1).push('\u{2026}')
    }
}

/// Pad or cut `v` to exactly `w` characters (a trailing ellipsis marks a
/// cut).
pub fn pad_trunc_chars(v: &Vec<char>, w: usize) -> (out: Vec<char>)
    ensures
        out@ == spec_pad_trunc_chars(v@, w as int),
        out@.len() == w,
{
    let n: usize = v.len();
    if n <= w {
        let mut out: Vec<char> = Vec::new();
        let mut i: usize = 0;
        while i < n
            invariant
                n == v@.len(),
                i <= n,
                out@ == v@.take(i as int),
            decreases n - i,
        {
            out.push(v[i]);
            proof {
                assert(v@.take(i as int).push(v@[i as int]) =~= v@.take(i as int + 1));
            }
            i = i + 1;
        }
        proof {
            assert(v@.take(n as int) =~= v@);
            assert(out@ + spec_spaces(0) =~= out@);
        }
        let mut k: usize = n;
        while k < w
            invariant
                n <= k,
                k <= w || k == n,
                out@ == v@ + spec_spaces((k - n) as nat),
            decreases w - k,
        {
            out.push(' ');
            k = k + 1;
        }
        proof {
            lemma_spaces_len((w - n) as nat);
        }
        out
    } else if w == 0 {
        let out: Vec<char> = Vec::new();
        out
    } else {
        let mut out: Vec<char> = Vec::new();
        let mut i: usize = 0;
        while i < w - 1
            invariant
                w - 1 < v@.len(),
                i <= w - 1,
                out@ == v@.take(i as int),
            decreases w - i,
        {
            out.push(v[i]);
            proof {
                assert(v@.take(i as int).push(v@[i as int]) =~= v@.take(i as int + 1));
            }
            i = i + 1;
        }
        out.push('\u{2026}');
        out
    }
}

/// A run of spaces is as long as asked for.
pub proof fn lemma_spaces_len(n: nat)
    ensures
        spec_spaces(n).len() == n,
    decreases n,
{
    if n > 0 {
        lemma_spaces_len((n - 1) as nat);
    }
}

} // verus!
