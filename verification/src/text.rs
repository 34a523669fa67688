//! Character-level text helpers: decimal numbers, suffix tests, equality,
//! concatenation and pattern replacement, each stated over `Seq<char>`.
use vstd::prelude::*;
use vstd::string::*;

verus! {

/// Whether `c` is one of the ASCII digits `'0'..='9'`.
pub open spec fn is_digit(c: char) -> bool {
    '0' <= c && c <= '9'
}

/// The numeric value of an ASCII digit.
pub open spec fn digit_value(c: char) -> nat {
    ((c as int) - ('0' as int)) as nat
}

/// Whether every character of `s` is an ASCII digit.
pub open spec fn all_digits(s: Seq<char>) -> bool {
    forall|i: int| 0 <= i < s.len() ==> #[trigger] is_digit(s[i])
}

/// The value of a run of decimal digits, most significant first.
pub open spec fn digits_value(s: Seq<char>) -> nat
    decreases s.len(),
{
    if s.len() == 0 {
        0
    } else {
        digits_value(s.drop_last()) * 10 + digit_value(s.last())
    }
}

/// The digits that `usize::from_str` reads: the text without one leading `'+'`.
pub open spec fn unsigned_digits(s: Seq<char>) -> Seq<char> {
    if s.len() > 0 && s[0] == '+' {
        s.drop_first()
    } else {
        s
    }
}

/// What `usize::from_str` gives for `s`: an optional `'+'` followed by at
/// least one decimal digit, whose value fits in a `usize`.
pub open spec fn parsed_usize(s: Seq<char>) -> Option<nat> {
    let d = unsigned_digits(s);
    if d.len() > 0 && all_digits(d) && digits_value(d) <= usize::MAX {
        Some(digits_value(d))
    } else {
        None
    }
}

/// The character of a digit value below ten.
pub open spec fn digit_char(d: nat) -> char {
    (('0' as int) + d) as char
}

/// The shortest decimal text of `n`, as `to_string` writes it.
pub open spec fn decimal(n: nat) -> Seq<char>
    decreases n,
{
    if n < 10 {
        seq![digit_char(n)]
    } else {
        decimal(n / 10).push(digit_char(n % 10))
    }
}

/// Whether `suffix` is a suffix of `s`.
pub open spec fn has_suffix(s: Seq<char>, suffix: Seq<char>) -> bool {
    suffix.len() <= s.len() && s.subrange(s.len() - suffix.len(), s.len() as int) == suffix
}

/// `s` with every occurrence of `pat` replaced by `rep`, scanning from the
/// left and never letting two replaced occurrences overlap (as `str::replace`).
/// An empty pattern occurs before each character and at the end.
pub open spec fn replaced(s: Seq<char>, pat: Seq<char>, rep: Seq<char>) -> Seq<char>
    decreases s.len(),
{
    if pat.len() == 0 {
        if s.len() == 0 {
            rep
        } else {
            rep + seq![s[0]] + replaced(s.skip(1), pat, rep)
        }
    } else if s.len() < pat.len() {
        s
    } else if s.take(pat.len() as int) == pat {
        rep + replaced(s.skip(pat.len() as int), pat, rep)
    } else {
        seq![s[0]] + replaced(s.skip(1), pat, rep)
    }
}

/// `String::push`: appends the character `c` to the end of `s`.
#[verifier::external_body]
pub(crate) fn push_char(s: &mut String, c: char)
    ensures
        final(s)@ == old(s)@.push(c),
{
    s.push(c);
}

/// The character of the digit `d`.
fn digit_to_char(d: u8) -> (c: char)
    requires
        d < 10,
    ensures
        c == digit_char(d as nat),
        is_digit(c),
        digit_value(c) == d,
{
    ((48u8 + d) as char)
}

/// The decimal text of `n`.
pub fn format_decimal(n: usize) -> (s: String)
    ensures
        s@ == decimal(n as nat),
    decreases n,
{
    if n < 10 {
        let mut s = String::new();
        push_char(&mut s, digit_to_char(n as u8));
        proof {
            assert(s@ =~= decimal(n as nat));
        }
        s
    } else {
        let mut s = format_decimal(n / 10);
        push_char(&mut s, digit_to_char((n % 10) as u8));
        s
    }
}


/// Reading digits never decreases the value: a run of digits is worth at
/// least as much as any of its prefixes.
proof fn lemma_digits_value_prefix(d: Seq<char>, k: int)
    requires
        all_digits(d),
        0 <= k <= d.len(),
    ensures
        digits_value(d.take(k)) <= digits_value(d),
    decreases d.len(),
{
    if k < d.len() {
        let p = d.drop_last();
        assert(all_digits(p));
        assert(p.take(k) =~= d.take(k));
        lemma_digits_value_prefix(p, k);
    } else {
        assert(d.take(k) =~= d);
    }
}

/// The `usize` that `s` denotes, as `usize::from_str` reads it: `None` exactly
/// where that call fails.
pub fn parse_usize(s: &str) -> (r: Option<usize>)
    ensures
        match r {
            Some(v) => parsed_usize(s@) == Some(v as nat),
            None => parsed_usize(s@) is None,
        },
{
    let n = s.unicode_len();
    let mut start: usize = 0;
    if n > 0 && s.get_char(0) == '+' {
        start = 1;
    }
    let ghost d = unsigned_digits(s@);
    assert(d =~= s@.subrange(start as int, n as int));
    if start >= n {
        return None;
    }
    let mut i: usize = start;
    let mut acc: usize = 0;
    while i < n
        invariant
            n == s@.len(),
            start <= i <= n,
            d == s@.subrange(start as int, n as int),
            d == unsigned_digits(s@),
            d.len() > 0,
            all_digits(d.take(i - start)),
            acc as nat == digits_value(d.take(i - start)),
        decreases n - i,
    {
        let c = s.get_char(i);
        assert(c == d[i - start]);
        if !('0' <= c && c <= '9') {
            assert(!is_digit(d[(i - start) as int]));
            assert(!all_digits(d));
            return None;
        }
        let dv = ((c as u32) - ('0' as u32)) as usize;
        let ghost next = d.take(i - start + 1);
        assert(next.drop_last() =~= d.take(i - start));
        assert(next.last() == c);
        if acc > (usize::MAX - dv) / 10 {
            assert(acc * 10 + dv > usize::MAX) by (nonlinear_arith)
                requires
                    acc > (usize::MAX - dv) / 10,
                    dv <= 9,
            ;
            proof {
                if all_digits(d) {
                    lemma_digits_value_prefix(d, (i - start + 1) as int);
                }
            }
            return None;
        }
        assert(acc * 10 + dv <= usize::MAX) by (nonlinear_arith)
            requires
                acc <= (usize::MAX - dv) / 10,
                dv <= 9,
        ;
        acc = acc * 10 + dv;
        i = i + 1;
    }
    assert(d.take(i - start) =~= d);
    Some(acc)
}


proof fn lemma_digit_char(d: nat)
    requires
        d < 10,
    ensures
        is_digit(digit_char(d)),
        digit_value(digit_char(d)) == d,
        digit_char(d) != '+',
{
}

/// The decimal text of a number is a non-empty run of digits worth that number.
pub proof fn lemma_decimal_digits(n: nat)
    ensures
        decimal(n).len() > 0,
        all_digits(decimal(n)),
        digits_value(decimal(n)) == n,
        decimal(n)[0] != '+',
    decreases n,
{
    if n < 10 {
        lemma_digit_char(n);
        assert(decimal(n).drop_last() =~= Seq::<char>::empty());
        assert(digits_value(Seq::<char>::empty()) == 0);
        assert(decimal(n).last() == digit_char(n));
    } else {
        lemma_decimal_digits(n / 10);
        lemma_digit_char(n % 10);
        let s = decimal(n);
        assert(s.drop_last() =~= decimal(n / 10));
        assert(s.last() == digit_char(n % 10));
        assert(digits_value(s) == digits_value(decimal(n / 10)) * 10 + digit_value(digit_char(n % 10)));
        assert(n == (n / 10) * 10 + n % 10);
        assert forall|i: int| 0 <= i < s.len() implies #[trigger] is_digit(s[i]) by {
            if i < s.len() - 1 {
                assert(s[i] == decimal(n / 10)[i]);
            }
        }
    }
}

/// A port number written out in decimal reads back as the same number: the
/// text that `format_decimal` writes is text that `parse_usize` accepts.
pub proof fn lemma_decimal_parses_back(n: nat)
    requires
        n <= usize::MAX,
    ensures
        parsed_usize(decimal(n)) == Some(n),
{
    lemma_decimal_digits(n);
    assert(unsigned_digits(decimal(n)) == decimal(n));
}


/// Whether the characters of `s` from position `i` on begin with `pat`.
pub(crate) fn matches_at(s: &str, n: usize, i: usize, pat: &str, m: usize) -> (r: bool)
    requires
        n == s@.len(),
        m == pat@.len(),
        i + m <= n,
    ensures
        r == (s@.subrange(i as int, i + m) == pat@),
{
    let mut j: usize = 0;
    while j < m
        invariant
            n == s@.len(),
            m == pat@.len(),
            i + m <= n,
            j <= m,
            s@.subrange(i as int, i + j) == pat@.take(j as int),
        decreases m - j,
    {
        if s.get_char(i + j) != pat.get_char(j) {
            assert(s@.subrange(i as int, i + m)[j as int] != pat@[j as int]);
            return false;
        }
        assert(s@.subrange(i as int, i + j + 1) =~= pat@.take(j + 1));
        j = j + 1;
    }
    assert(pat@.take(m as int) =~= pat@);
    true
}

/// Whether `a` and `b` hold the same characters.
pub fn same_text(a: &str, b: &str) -> (r: bool)
    ensures
        r == (a@ == b@),
{
    let n = a.unicode_len();
    let m = b.unicode_len();
    if n != m {
        return false;
    }
    let r = matches_at(a, n, 0, b, m);
    assert(a@.subrange(0, m as int) =~= a@);
    r
}

/// Whether `s` ends with `suffix`.
pub fn ends_with(s: &str, suffix: &str) -> (r: bool)
    ensures
        r == has_suffix(s@, suffix@),
{
    let n = s.unicode_len();
    let m = suffix.unicode_len();
    if m > n {
        return false;
    }
    matches_at(s, n, n - m, suffix, m)
}

/// `s` with `rep` before each character and at the end: what replacing the
/// empty pattern gives.
fn interleave(s: &str, rep: &str) -> (r: String)
    ensures
        r@ == replaced(s@, Seq::empty(), rep@),
{
    let n = s.unicode_len();
    let mut out = String::new();
    let mut i: usize = 0;
    assert(s@.skip(0) =~= s@);
    while i < n
        invariant
            n == s@.len(),
            i <= n,
            out@ + replaced(s@.skip(i as int), Seq::empty(), rep@) == replaced(s@, Seq::empty(), rep@),
        decreases n - i,
    {
        let ghost rest = s@.skip(i as int);
        let c = s.get_char(i);
        assert(rest[0] == c);
        assert(rest.skip(1) =~= s@.skip(i + 1));
        out.append(rep);
        push_char(&mut out, c);
        assert(out@ + replaced(s@.skip(i + 1), Seq::empty(), rep@) =~= replaced(s@, Seq::empty(), rep@));
        i = i + 1;
    }
    assert(s@.skip(n as int) =~= Seq::<char>::empty());
    out.append(rep);
    out
}

/// `s` with every occurrence of `pat` replaced by `rep`, as `str::replace`
/// does it.
pub fn replace_all(s: &str, pat: &str, rep: &str) -> (r: String)
    ensures
        r@ == replaced(s@, pat@, rep@),
{
    let n = s.unicode_len();
    let m = pat.unicode_len();
    if m == 0 {
        assert(pat@ =~= Seq::<char>::empty());
        return interleave(s, rep);
    }
    let mut out = String::new();
    let mut i: usize = 0;
    assert(s@.skip(0) =~= s@);
    while i < n
        invariant
            n == s@.len(),
            m == pat@.len(),
            m > 0,
            i <= n,
            out@ + replaced(s@.skip(i as int), pat@, rep@) == replaced(s@, pat@, rep@),
        decreases n - i,
    {
        let ghost rest = s@.skip(i as int);
        if m <= n - i && matches_at(s, n, i, pat, m) {
            assert(rest.take(m as int) =~= s@.subrange(i as int, i + m));
            assert(rest.skip(m as int) =~= s@.skip(i + m));
            out.append(rep);
            assert(out@ + replaced(s@.skip(i + m), pat@, rep@) =~= replaced(s@, pat@, rep@));
            i = i + m;
        } else {
            if m <= n - i {
                assert(rest.take(m as int) =~= s@.subrange(i as int, i + m));
            }
            assert(rest.skip(1) =~= s@.skip(i + 1));
            let c = s.get_char(i);
            assert(rest[0] == c);
            proof {
                if rest.len() < m {
                    assert(replaced(rest, pat@, rep@) == rest);
                    assert(replaced(rest.skip(1), pat@, rep@) == rest.skip(1));
                    assert(rest =~= seq![c] + rest.skip(1));
                }
            }
            push_char(&mut out, c);
            assert(out@ + replaced(s@.skip(i + 1), pat@, rep@) =~= replaced(s@, pat@, rep@));
            i = i + 1;
        }
    }
    assert(s@.skip(n as int) =~= Seq::<char>::empty());
    assert(out@ =~= out@ + replaced(s@.skip(n as int), pat@, rep@));
    out
}


/// Whether no proper, non-empty tail of `a` is a head of `pat`: no
/// occurrence of `pat` can begin inside `a` and run past its end.
pub open spec fn no_partial_match_at_end(a: Seq<char>, pat: Seq<char>) -> bool {
    forall|k: int|
        0 < k < pat.len() && k <= a.len() ==> #[trigger] a.skip(a.len() - k) != pat.take(k)
}

/// Whether `pat` occurs nowhere in `s`.
pub open spec fn occurs_nowhere(s: Seq<char>, pat: Seq<char>) -> bool {
    forall|i: int| 0 <= i && i + pat.len() <= s.len() ==> #[trigger] s.subrange(i, i + pat.len()) != pat
}

/// Replacing leaves a text in which the pattern does not occur unchanged.
pub proof fn lemma_replaced_absent(s: Seq<char>, pat: Seq<char>, rep: Seq<char>)
    requires
        pat.len() > 0,
        occurs_nowhere(s, pat),
    ensures
        replaced(s, pat, rep) == s,
    decreases s.len(),
{
    if s.len() >= pat.len() {
        let z: int = 0;
        assert(s.subrange(z, z + pat.len()) != pat);
        assert(s.subrange(z, z + pat.len()) =~= s.take(pat.len() as int));
        assert(occurs_nowhere(s.skip(1), pat)) by {
            assert forall|i: int| 0 <= i && i + pat.len() <= s.skip(1).len() implies #[trigger] s.skip(1).subrange(
                i,
                i + pat.len(),
            ) != pat by {
                assert(s.skip(1).subrange(i, i + pat.len()) =~= s.subrange(i + 1, i + 1 + pat.len()));
            }
        }
        lemma_replaced_absent(s.skip(1), pat, rep);
        assert(seq![s[0]] + s.skip(1) =~= s);
    }
}

/// Replacing works piece by piece: an occurrence of the pattern becomes the
/// replacement wherever in the text it stands, and the text before and after
/// it is replaced on its own, provided no occurrence can begin before it and
/// run into it.
pub proof fn lemma_replaced_concat(a: Seq<char>, b: Seq<char>, pat: Seq<char>, rep: Seq<char>)
    requires
        pat.len() > 0,
        no_partial_match_at_end(a, pat),
    ensures
        replaced(a + pat + b, pat, rep) == replaced(a, pat, rep) + rep + replaced(b, pat, rep),
    decreases a.len(),
{
    let m = pat.len() as int;
    let s = a + pat + b;
    if a.len() == 0 {
        assert(s =~= pat + b);
        assert(s.take(m) =~= pat);
        assert(s.skip(m) =~= b);
        assert(replaced(a, pat, rep) == a);
        assert(rep + replaced(b, pat, rep) =~= a + rep + replaced(b, pat, rep));
    } else if s.take(m) == pat {
        if a.len() >= m {
            assert(a.take(m) =~= s.take(m));
            let a2 = a.skip(m);
            assert(no_partial_match_at_end(a2, pat)) by {
                assert forall|k: int| 0 < k < pat.len() && k <= a2.len() implies #[trigger] a2.skip(
                    a2.len() - k,
                ) != pat.take(k) by {
                    assert(a2.skip(a2.len() - k) =~= a.skip(a.len() - k));
                }
            }
            assert(s.skip(m) =~= a2 + pat + b);
            lemma_replaced_concat(a2, b, pat, rep);
            assert(rep + (replaced(a2, pat, rep) + rep + replaced(b, pat, rep)) =~= (rep + replaced(
                a2,
                pat,
                rep,
            )) + rep + replaced(b, pat, rep));
        } else {
            let k = a.len() as int;
            assert(a.skip(a.len() - k) =~= a);
            assert(a =~= pat.take(k)) by {
                assert forall|i: int| 0 <= i < k implies a[i] == pat.take(k)[i] by {
                    assert(s.take(m)[i] == a[i]);
                }
            }
            assert(false);
        }
    } else {
        let a1 = a.skip(1);
        assert(no_partial_match_at_end(a1, pat)) by {
            assert forall|k: int| 0 < k < pat.len() && k <= a1.len() implies #[trigger] a1.skip(
                a1.len() - k,
            ) != pat.take(k) by {
                assert(a1.skip(a1.len() - k) =~= a.skip(a.len() - k));
            }
        }
        assert(s.skip(1) =~= a1 + pat + b);
        lemma_replaced_concat(a1, b, pat, rep);
        assert(s[0] == a[0]);
        if a.len() >= m {
            assert(a.take(m) =~= s.take(m));
        } else {
            assert(replaced(a, pat, rep) == a);
            assert(replaced(a1, pat, rep) == a1);
        }
        assert(seq![a[0]] + a1 =~= a);
        assert(seq![s[0]] + (replaced(a1, pat, rep) + rep + replaced(b, pat, rep)) =~= (seq![a[0]]
            + replaced(a1, pat, rep)) + rep + replaced(b, pat, rep));
    }
}

/// Replacing one character by another changes exactly the characters equal
/// to it and leaves every other character where it was.
pub proof fn lemma_replaced_char(s: Seq<char>, c: char, d: char)
    ensures
        replaced(s, seq![c], seq![d]) == s.map_values(|x: char| if x == c { d } else { x }),
    decreases s.len(),
{
    if s.len() > 0 {
        lemma_replaced_char(s.skip(1), c, d);
        assert(s.take(1) =~= seq![s[0]]);
        assert(s.map_values(|x: char| if x == c { d } else { x }) =~= seq![
            if s[0] == c {
                d
            } else {
                s[0]
            },
        ] + s.skip(1).map_values(|x: char| if x == c { d } else { x }));
        if s[0] == c {
            assert(s.take(1) == seq![c]);
        } else {
            assert(s.take(1) != seq![c]) by {
                assert(s.take(1)[0] != seq![c][0]);
            }
        }
    } else {
        assert(s.map_values(|x: char| if x == c { d } else { x }) =~= s);
    }
}

/// A number written out in decimal can be read back from the middle of any
/// text: different numbers give different digits.
pub proof fn lemma_decimal_injective(a: nat, b: nat)
    requires
        a <= usize::MAX,
        b <= usize::MAX,
        decimal(a) == decimal(b),
    ensures
        a == b,
{
    lemma_decimal_parses_back(a);
    lemma_decimal_parses_back(b);
}

} // verus!
