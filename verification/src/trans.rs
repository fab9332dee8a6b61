//! Splitting a translation that holds component placeholders, written
//! `<0>...</0>`, `<1>...</1>`, ..., into text and slot parts.

use vstd::prelude::*;

use crate::text::{chars_of, matches_at, occurs_at, push_all, string_of};

verus! {

// ---------------------------------------------------------------------------
// Searching
// ---------------------------------------------------------------------------

/// The first position at or after `from` where `s` holds `c`.
pub open spec fn find_char(s: Seq<char>, c: char, from: int) -> Option<int>
    decreases s.len() - from,
{
    if from < 0 || from >= s.len() {
        None
    } else if s[from] == c {
        Some(from)
    } else {
        find_char(s, c, from + 1)
    }
}

/// The first position at or after `from` where `pat` occurs in `s`.
pub open spec fn find_seq(s: Seq<char>, pat: Seq<char>, from: int) -> Option<int>
    decreases s.len() + 1 - from,
{
    if from < 0 || from + pat.len() > s.len() {
        None
    } else if occurs_at(s, pat, from) {
        Some(from)
    } else {
        find_seq(s, pat, from + 1)
    }
}

pub proof fn lemma_find_char_bounds(s: Seq<char>, c: char, from: int)
    ensures
        find_char(s, c, from) matches Some(i) ==> from <= i < s.len() && s[i] == c,
    decreases s.len() - from,
{
    if 0 <= from < s.len() && s[from] != c {
        lemma_find_char_bounds(s, c, from + 1);
    }
}

pub proof fn lemma_find_seq_bounds(s: Seq<char>, pat: Seq<char>, from: int)
    ensures
        find_seq(s, pat, from) matches Some(i) ==> from <= i && i + pat.len() <= s.len(),
    decreases s.len() + 1 - from,
{
    if 0 <= from && from + pat.len() <= s.len() && !occurs_at(s, pat, from) {
        lemma_find_seq_bounds(s, pat, from + 1);
    }
}

fn find_char_from(s: &Vec<char>, c: char, from: usize) -> (r: Option<usize>)
    ensures
        match r {
            Some(i) => find_char(s@, c, from as int) == Some(i as int),
            None => find_char(s@, c, from as int) is None,
        },
{
    let mut i = from;
    while i < s.len()
        invariant
            from <= i,
            find_char(s@, c, from as int) == find_char(s@, c, i as int),
        decreases s.len() - i,
    {
        if s[i] == c {
            return Some(i);
        }
        i = i + 1;
    }
    None
}

fn find_seq_from(s: &Vec<char>, pat: &Vec<char>, from: usize) -> (r: Option<usize>)
    requires
        pat.len() > 0,
    ensures
        match r {
            Some(i) => find_seq(s@, pat@, from as int) == Some(i as int),
            None => find_seq(s@, pat@, from as int) is None,
        },
{
    let mut i = from;
    while i < s.len() && pat.len() <= s.len() - i
        invariant
            from <= i,
            find_seq(s@, pat@, from as int) == find_seq(s@, pat@, i as int),
        decreases s.len() - i,
    {
        if matches_at(s, pat, i) {
            return Some(i);
        }
        i = i + 1;
    }
    None
}

// ---------------------------------------------------------------------------
// Slot numbers
// ---------------------------------------------------------------------------

/// Every character of `s` is an ASCII digit.
pub open spec fn all_digits(s: Seq<char>) -> bool {
    forall|i: int| 0 <= i < s.len() ==> '0' <= #[trigger] s[i] <= '9'
}

/// The number that the decimal digits `s` write.
pub open spec fn digits_value(s: Seq<char>) -> nat
    decreases s.len(),
{
    if s.len() == 0 {
        0
    } else {
        digits_value(s.drop_last()) * 10 + ((s.last() as int) - ('0' as int)) as nat
    }
}

/// The `usize` that `s` writes as `str::parse::<usize>` reads it: an optional
/// `+`, then at least one ASCII digit and nothing else, with a value that
/// fits in `usize`.
pub open spec fn parsed_usize(s: Seq<char>) -> Option<usize> {
    let d = if s.len() > 0 && s[0] == '+' {
        s.skip(1)
    } else {
        s
    };
    if d.len() > 0 && all_digits(d) && digits_value(d) <= usize::MAX {
        Some(digits_value(d) as usize)
    } else {
        None
    }
}

proof fn lemma_digits_value_prefix(s: Seq<char>, j: int)
    requires
        all_digits(s),
        0 <= j <= s.len(),
    ensures
        digits_value(s.take(j)) <= digits_value(s),
    decreases s.len(),
{
    if j < s.len() {
        assert(s.drop_last().take(j) =~= s.take(j));
        lemma_digits_value_prefix(s.drop_last(), j);
        assert(all_digits(s.drop_last()));
    } else {
        assert(s.take(j) =~= s);
    }
}

/// Reads the characters `t[a..b]` as `str::parse::<usize>` does.
fn parse_usize_range(t: &Vec<char>, a: usize, b: usize) -> (r: Option<usize>)
    requires
        a <= b <= t.len(),
    ensures
        r == parsed_usize(t@.subrange(a as int, b as int)),
{
    let ghost s = t@.subrange(a as int, b as int);
    let mut start = a;
    if a < b && t[a] == '+' {
        start = a + 1;
    }
    let ghost d = t@.subrange(start as int, b as int);
    assert(d =~= (if s.len() > 0 && s[0] == '+' {
        s.skip(1)
    } else {
        s
    }));
    if start >= b {
        return None;
    }
    let mut val: usize = 0;
    let mut i = start;
    assert(d.take(0) =~= Seq::<char>::empty());
    while i < b
        invariant
            start <= i <= b <= t.len(),
            d == t@.subrange(start as int, b as int),
            s == t@.subrange(a as int, b as int),
            d == (if s.len() > 0 && s[0] == '+' {
                s.skip(1)
            } else {
                s
            }),
            all_digits(d.take(i - start)),
            val as nat == digits_value(d.take(i - start)),
        decreases b - i,
    {
        let c = t[i];
        if !('0' <= c && c <= '9') {
            assert(d[i - start] == c);
            assert(!all_digits(d));
            return None;
        }
        let dv: usize = ((c as u32) - ('0' as u32)) as usize;
        assert(d.take(i - start + 1).drop_last() =~= d.take(i - start));
        assert(d.take(i - start + 1).last() == c);
        assert(all_digits(d.take(i - start + 1)));
        assert(digits_value(d.take(i - start + 1)) == val * 10 + dv);
        if val > (usize::MAX - dv) / 10 {
            proof {
                assert(val * 10 + dv > usize::MAX) by (nonlinear_arith)
                    requires
                        val > (usize::MAX - dv) / 10,
                        dv <= 9,
                ;
                if all_digits(d) {
                    lemma_digits_value_prefix(d, i - start + 1);
                }
            }
            return None;
        }
        proof {
            assert(val * 10 + dv <= usize::MAX) by (nonlinear_arith)
                requires
                    val <= (usize::MAX - dv) / 10,
                    dv <= 9,
            ;
        }
        val = val * 10 + dv;
        i = i + 1;
    }
    assert(d.take(b - start) =~= d);
    Some(val)
}

// ---------------------------------------------------------------------------
// Splitting
// ---------------------------------------------------------------------------

/// A piece of a translation with component placeholders.
#[derive(Debug, PartialEq, Eq)]
pub enum TransPart {
    /// Text to show as it stands.
    Text(String),
    /// The component slot with this index.
    Slot(usize),
}

/// The view of a part.
pub enum TransPartView {
    Text(Seq<char>),
    Slot(usize),
}

impl View for TransPart {
    type V = TransPartView;

    open spec fn view(&self) -> TransPartView {
        match self {
            TransPart::Text(s) => TransPartView::Text(s@),
            TransPart::Slot(i) => TransPartView::Slot(*i),
        }
    }
}

/// The closing tag `</tag>` that matches the tag name `tag`.
pub open spec fn closing_tag(tag: Seq<char>) -> Seq<char> {
    seq!['<', '/'] + tag + seq!['>']
}

/// The parts of `t` from position `pos` on, for `slot_count` slots.
///
/// The text before a `<` is a text part when not empty. A `<` opens a tag
/// `<tag>` up to the next `>`; when `</tag>` follows, the whole element is
/// one part: the slot whose index `tag` writes if such a slot exists, else
/// the text between the tags. A `<` that opens no complete element is a
/// text part `<` of its own. What follows the last `<` is a text part when
/// not empty.
pub open spec fn trans_parts(t: Seq<char>, pos: int, slot_count: usize) -> Seq<TransPartView>
    decreases t.len() - pos,
{
    if pos < 0 || pos >= t.len() {
        Seq::empty()
    } else {
        proof {
            lemma_find_char_bounds(t, '<', pos);
        }
        match find_char(t, '<', pos) {
            None => seq![TransPartView::Text(t.subrange(pos, t.len() as int))],
            Some(start) => {
                let before = if start > pos {
                    seq![TransPartView::Text(t.subrange(pos, start))]
                } else {
                    Seq::empty()
                };
                proof {
                    lemma_find_char_bounds(t, '>', start + 1);
                }
                match find_char(t, '>', start + 1) {
                    Some(end) => {
                        let tag = t.subrange(start + 1, end);
                        let close = closing_tag(tag);
                        proof {
                            lemma_find_seq_bounds(t, close, end + 1);
                        }
                        match find_seq(t, close, end + 1) {
                            Some(ci) => {
                                let part = match parsed_usize(tag) {
                                    Some(idx) => if idx < slot_count {
                                        TransPartView::Slot(idx)
                                    } else {
                                        TransPartView::Text(t.subrange(end + 1, ci))
                                    },
                                    None => TransPartView::Text(t.subrange(end + 1, ci)),
                                };
                                before + seq![part] + trans_parts(t, ci + close.len(), slot_count)
                            },
                            None => before + seq![TransPartView::Text(seq!['<'])] + trans_parts(
                                t,
                                start + 1,
                                slot_count,
                            ),
                        }
                    },
                    None => before + seq![TransPartView::Text(seq!['<'])] + trans_parts(
                        t,
                        start + 1,
                        slot_count,
                    ),
                }
            },
        }
    }
}

/// The views of a list of parts.
pub open spec fn parts_view(parts: Seq<TransPart>) -> Seq<TransPartView> {
    parts.map_values(|p: TransPart| p@)
}

fn text_range(t: &Vec<char>, a: usize, b: usize) -> (r: String)
    requires
        a <= b <= t.len(),
    ensures
        r@ == t@.subrange(a as int, b as int),
{
    let mut v: Vec<char> = Vec::new();
    let mut i = a;
    while i < b
        invariant
            a <= i <= b <= t.len(),
            v@ == t@.subrange(a as int, i as int),
        decreases b - i,
    {
        v.push(t[i]);
        assert(t@.subrange(a as int, i + 1) =~= t@.subrange(a as int, i as int).push(t@[i as int]));
        i = i + 1;
    }
    string_of(&v)
}

fn open_bracket() -> (r: String)
    ensures
        r@ == seq!['<'],
{
    let mut v: Vec<char> = Vec::new();
    v.push('<');
    string_of(&v)
}

fn push_part(parts: &mut Vec<TransPart>, p: TransPart)
    ensures
        parts_view(final(parts)@) == parts_view(old(parts)@).push(p@),
{
    parts.push(p);
    assert(parts_view(parts@) =~= parts_view(old(parts)@).push(p@));
}

/// Splits a translation with component placeholders into parts, for a
/// component with `slot_count` slots.
pub fn split_trans(text: &str, slot_count: usize) -> (r: Vec<TransPart>)
    ensures
        parts_view(r@) == trans_parts(text@, 0, slot_count),
{
    let t = chars_of(text);
    let ghost ts = t@;
    let mut parts: Vec<TransPart> = Vec::new();
    let mut pos: usize = 0;
    assert(parts_view(parts@) =~= Seq::<TransPartView>::empty());
    while pos < t.len()
        invariant
            pos <= t.len(),
            ts == t@,
            parts_view(parts@) + trans_parts(ts, pos as int, slot_count) == trans_parts(
                ts,
                0,
                slot_count,
            ),
        decreases t.len() - pos,
    {
        let ghost before_parts = parts_view(parts@);
        proof {
            lemma_find_char_bounds(ts, '<', pos as int);
        }
        match find_char_from(&t, '<', pos) {
            None => {
                let rest = text_range(&t, pos, t.len());
                push_part(&mut parts, TransPart::Text(rest));
                assert(trans_parts(ts, t.len() as int, slot_count) =~= Seq::<TransPartView>::empty());
                assert(parts_view(parts@) + trans_parts(ts, t.len() as int, slot_count)
                    =~= before_parts + trans_parts(ts, pos as int, slot_count));
                pos = t.len();
            },
            Some(start) => {
                if start > pos {
                    let b = text_range(&t, pos, start);
                    push_part(&mut parts, TransPart::Text(b));
                }
                let ghost with_before = parts_view(parts@);
                proof {
                    lemma_find_char_bounds(ts, '>', start + 1);
                }
                match find_char_from(&t, '>', start + 1) {
                    Some(end) => {
                        let mut close: Vec<char> = Vec::new();
                        close.push('<');
                        close.push('/');
                        let tag = {
                            let mut v: Vec<char> = Vec::new();
                            let mut k = start + 1;
                            while k < end
                                invariant
                                    start + 1 <= k <= end < t.len(),
                                    v@ == t@.subrange(start + 1, k as int),
                                decreases end - k,
                            {
                                v.push(t[k]);
                                assert(t@.subrange(start + 1, k + 1) =~= t@.subrange(
                                    start + 1,
                                    k as int,
                                ).push(t@[k as int]));
                                k = k + 1;
                            }
                            v
                        };
                        push_all(&mut close, &tag);
                        close.push('>');
                        assert(close@ =~= closing_tag(ts.subrange(start + 1, end as int)));
                        proof {
                            lemma_find_seq_bounds(ts, close@, end + 1);
                        }
                        match find_seq_from(&t, &close, end + 1) {
                            Some(ci) => {
                                let part = match parse_usize_range(&t, start + 1, end) {
                                    Some(idx) => if idx < slot_count {
                                        TransPart::Slot(idx)
                                    } else {
                                        TransPart::Text(text_range(&t, end + 1, ci))
                                    },
                                    None => TransPart::Text(text_range(&t, end + 1, ci)),
                                };
                                push_part(&mut parts, part);
                                let next = ci + close.len();
                                assert(parts_view(parts@) + trans_parts(ts, next as int, slot_count)
                                    =~= before_parts + trans_parts(ts, pos as int, slot_count));
                                pos = next;
                            },
                            None => {
                                push_part(&mut parts, TransPart::Text(open_bracket()));
                                assert(parts_view(parts@) + trans_parts(
                                    ts,
                                    start + 1,
                                    slot_count,
                                ) =~= before_parts + trans_parts(ts, pos as int, slot_count));
                                pos = start + 1;
                            },
                        }
                    },
                    None => {
                        push_part(&mut parts, TransPart::Text(open_bracket()));
                        assert(parts_view(parts@) + trans_parts(ts, start + 1, slot_count)
                            =~= before_parts + trans_parts(ts, pos as int, slot_count));
                        pos = start + 1;
                    },
                }
            },
        }
    }
    assert(trans_parts(ts, pos as int, slot_count) =~= Seq::<TransPartView>::empty());
    assert(parts_view(parts@) + Seq::<TransPartView>::empty() =~= parts_view(parts@));
    parts
}

} // verus!
