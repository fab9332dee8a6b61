//! Character-level text operations: placeholder interpolation, decimal
//! formatting and namespaced keys.

use vstd::prelude::*;

verus! {

// ---------------------------------------------------------------------------
// Specifications
// ---------------------------------------------------------------------------

/// Every non-overlapping occurrence of `pat` in `s`, scanned from the left,
/// replaced by `rep`. Text that a replacement inserts is not scanned again.
pub open spec fn replace_all(s: Seq<char>, pat: Seq<char>, rep: Seq<char>) -> Seq<char>
    decreases s.len(),
{
    if s.len() == 0 {
        Seq::empty()
    } else if 0 < pat.len() <= s.len() && s.take(pat.len() as int) == pat {
        rep + replace_all(s.skip(pat.len() as int), pat, rep)
    } else {
        seq![s[0]] + replace_all(s.skip(1), pat, rep)
    }
}

/// `pat` occurs in `s` starting at position `i`.
pub open spec fn occurs_at(s: Seq<char>, pat: Seq<char>, i: int) -> bool {
    0 <= i && i + pat.len() <= s.len() && s.skip(i).take(pat.len() as int) == pat
}

/// The placeholder that stands for the variable `name`: `{name}`.
pub open spec fn placeholder(name: Seq<char>) -> Seq<char> {
    seq!['{'] + name + seq!['}']
}

/// The template after substituting each variable in turn, first to last:
/// the placeholder of each name is replaced everywhere by its value.
pub open spec fn interpolated(template: Seq<char>, vars: Seq<(Seq<char>, Seq<char>)>) -> Seq<char>
    decreases vars.len(),
{
    if vars.len() == 0 {
        template
    } else {
        replace_all(
            interpolated(template, vars.drop_last()),
            placeholder(vars.last().0),
            vars.last().1,
        )
    }
}

/// The variables as pairs of character sequences.
pub open spec fn vars_view(vars: Seq<(&str, &str)>) -> Seq<(Seq<char>, Seq<char>)> {
    vars.map_values(|p: (&str, &str)| (p.0@, p.1@))
}

/// The decimal digit for `d < 10`.
pub open spec fn digit_char(d: nat) -> char {
    if d == 0 {
        '0'
    } else if d == 1 {
        '1'
    } else if d == 2 {
        '2'
    } else if d == 3 {
        '3'
    } else if d == 4 {
        '4'
    } else if d == 5 {
        '5'
    } else if d == 6 {
        '6'
    } else if d == 7 {
        '7'
    } else if d == 8 {
        '8'
    } else {
        '9'
    }
}

/// The decimal digits of `n`, most significant first, without leading zeros.
pub open spec fn digits_of(n: nat) -> Seq<char>
    decreases n,
{
    if n < 10 {
        seq![digit_char(n)]
    } else {
        digits_of(n / 10).push(digit_char(n % 10))
    }
}

/// The decimal form of `n`: a minus sign for negative numbers, then the digits.
pub open spec fn decimal_of(n: int) -> Seq<char> {
    if n < 0 {
        seq!['-'] + digits_of((-n) as nat)
    } else {
        digits_of(n as nat)
    }
}

/// The key `key` inside the namespace `ns`: `ns.key`.
pub open spec fn namespaced(ns: Seq<char>, key: Seq<char>) -> Seq<char> {
    ns + seq!['.'] + key
}

// ---------------------------------------------------------------------------
// Conversions
// ---------------------------------------------------------------------------

/// The characters of `s`, in order.
pub fn chars_of(s: &str) -> (v: Vec<char>)
    ensures
        v@ == s@,
{
    let mut v: Vec<char> = Vec::new();
    for c in it: s.chars()
        invariant
            v@ == it.seq().take(it.index() as int),
    {
        v.push(c);
    }
    v
}

/// Collects characters into a `String` through std's `FromIterator<char>`
/// for `String` (`Iterator::collect`). Claimed: the string holds exactly
/// these characters, in this order.
#[verifier::external_body]
pub(crate) fn string_of(v: &Vec<char>) -> (s: String)
    ensures
        s@ == v@,
{
    v.iter().collect()
}

/// Whether two strings hold the same characters.
pub fn str_eq(a: &str, b: &str) -> (r: bool)
    ensures
        r == (a@ == b@),
{
    a.to_owned() == b.to_owned()
}

// ---------------------------------------------------------------------------
// Replacement
// ---------------------------------------------------------------------------

pub(crate) fn matches_at(s: &Vec<char>, pat: &Vec<char>, i: usize) -> (r: bool)
    requires
        i <= s.len(),
    ensures
        r == occurs_at(s@, pat@, i as int),
{
    if pat.len() > s.len() - i {
        return false;
    }
    let mut j: usize = 0;
    while j < pat.len()
        invariant
            i + pat.len() <= s.len(),
            j <= pat.len(),
            forall|k: int| 0 <= k < j ==> s@[i + k] == pat@[k],
        decreases pat.len() - j,
    {
        if s[i + j] != pat[j] {
            assert(s@.skip(i as int).take(pat.len() as int)[j as int] != pat@[j as int]);
            return false;
        }
        j = j + 1;
    }
    assert(s@.skip(i as int).take(pat.len() as int) =~= pat@);
    true
}

pub(crate) fn push_all(out: &mut Vec<char>, src: &Vec<char>)
    ensures
        final(out)@ == old(out)@ + src@,
{
    let mut j: usize = 0;
    while j < src.len()
        invariant
            j <= src.len(),
            out@ == old(out)@ + src@.take(j as int),
        decreases src.len() - j,
    {
        out.push(src[j]);
        assert(src@.take(j + 1) =~= src@.take(j as int).push(src@[j as int]));
        j = j + 1;
    }
    assert(src@.take(src.len() as int) =~= src@);
}

/// `s` with every occurrence of `pat` replaced by `rep`, as `str::replace` does
/// for a non-empty pattern.
pub fn replace_chars(s: &Vec<char>, pat: &Vec<char>, rep: &Vec<char>) -> (r: Vec<char>)
    requires
        pat.len() > 0,
    ensures
        r@ == replace_all(s@, pat@, rep@),
{
    let mut out: Vec<char> = Vec::new();
    let mut i: usize = 0;
    assert(s@.skip(0) =~= s@);
    while i < s.len()
        invariant
            i <= s.len(),
            pat.len() > 0,
            out@ + replace_all(s@.skip(i as int), pat@, rep@) == replace_all(s@, pat@, rep@),
        decreases s.len() - i,
    {
        let ghost rest = s@.skip(i as int);
        if matches_at(s, pat, i) {
            assert(rest.skip(pat.len() as int) =~= s@.skip(i + pat.len()));
            assert(replace_all(rest, pat@, rep@) == rep@ + replace_all(
                rest.skip(pat.len() as int),
                pat@,
                rep@,
            ));
            let ghost before = out@;
            push_all(&mut out, rep);
            assert(out@ + replace_all(s@.skip(i + pat.len()), pat@, rep@) =~= before + (rep@
                + replace_all(rest.skip(pat.len() as int), pat@, rep@)));
            i = i + pat.len();
        } else {
            assert(rest.skip(1) =~= s@.skip(i + 1));
            assert(replace_all(rest, pat@, rep@) == seq![rest[0]] + replace_all(
                rest.skip(1),
                pat@,
                rep@,
            ));
            let ghost before = out@;
            out.push(s[i]);
            assert(out@ + replace_all(s@.skip(i + 1), pat@, rep@) =~= before + (seq![rest[0]]
                + replace_all(rest.skip(1), pat@, rep@)));
            i = i + 1;
        }
    }
    assert(s@.skip(s.len() as int) =~= Seq::<char>::empty());
    assert(out@ + Seq::<char>::empty() =~= out@);
    out
}

fn placeholder_chars(name: &str) -> (r: Vec<char>)
    ensures
        r@ == placeholder(name@),
        r.len() > 0,
{
    let mut r: Vec<char> = Vec::new();
    r.push('{');
    let n = chars_of(name);
    push_all(&mut r, &n);
    r.push('}');
    assert(r@ =~= placeholder(name@));
    r
}

/// Substitutes `{name}` placeholders in `template`: for each pair of `vars`,
/// first to last, every `{name}` in the text so far is replaced by the value.
pub fn interpolate(template: &str, vars: &[(&str, &str)]) -> (r: String)
    ensures
        r@ == interpolated(template@, vars_view(vars@)),
{
    let ghost vv = vars_view(vars@);
    let mut result = chars_of(template);
    let mut i: usize = 0;
    assert(vv.take(0) =~= Seq::<(Seq<char>, Seq<char>)>::empty());
    while i < vars.len()
        invariant
            i <= vars.len(),
            vv == vars_view(vars@),
            result@ == interpolated(template@, vv.take(i as int)),
        decreases vars.len() - i,
    {
        let (k, v) = vars[i];
        let pat = placeholder_chars(k);
        let rep = chars_of(v);
        result = replace_chars(&result, &pat, &rep);
        assert(vv.take(i + 1).drop_last() =~= vv.take(i as int));
        assert(vv.take(i + 1).last() == (k@, v@));
        i = i + 1;
    }
    assert(vv.take(vars.len() as int) =~= vv);
    string_of(&result)
}

fn push_digits(m: u64, out: &mut Vec<char>)
    ensures
        final(out)@ == old(out)@ + digits_of(m as nat),
    decreases m,
{
    if m >= 10 {
        push_digits(m / 10, out);
    }
    let d = m % 10;
    let c = if d == 0 {
        '0'
    } else if d == 1 {
        '1'
    } else if d == 2 {
        '2'
    } else if d == 3 {
        '3'
    } else if d == 4 {
        '4'
    } else if d == 5 {
        '5'
    } else if d == 6 {
        '6'
    } else if d == 7 {
        '7'
    } else if d == 8 {
        '8'
    } else {
        '9'
    };
    out.push(c);
    assert(c == digit_char((m % 10) as nat));
    assert(out@ =~= old(out)@ + digits_of(m as nat));
}

/// The decimal form of `n`, as `i64`'s `Display` writes it.
pub fn decimal_string(n: i64) -> (r: String)
    ensures
        r@ == decimal_of(n as int),
{
    let mut out: Vec<char> = Vec::new();
    if n < 0 {
        out.push('-');
        let m: u64 = (0i128 - (n as i128)) as u64;
        push_digits(m, &mut out);
        assert(out@ =~= decimal_of(n as int));
    } else {
        push_digits(n as u64, &mut out);
        assert(out@ =~= decimal_of(n as int));
    }
    string_of(&out)
}

/// The key `key` within the namespace `ns`, written `ns.key`.
pub fn namespaced_key(ns: &str, key: &str) -> (r: String)
    ensures
        r@ == namespaced(ns@, key@),
{
    let mut out = chars_of(ns);
    out.push('.');
    let k = chars_of(key);
    push_all(&mut out, &k);
    assert(out@ =~= namespaced(ns@, key@));
    string_of(&out)
}

} // verus!
