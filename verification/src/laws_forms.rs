//! Properties that tie plural forms, interpolation, translation files and
//! component placeholders to their inputs.

use vstd::prelude::*;

use crate::json::JsonView;
use crate::loader::{
    flat_fields, flat_value, flattened, forms_of, insert_all, is_plural_object, no_forms,
    well_formed,
};
use crate::plural::{
    category_named, form_of, pick_form, plural_category_of, PluralCategory, PluralFormsView,
};
use crate::resolve::{lookup, resolved_t, resolved_tf, resolved_tp, CatalogView, TranslationValueView};
use crate::text::{
    decimal_of, digit_char, digits_of, interpolated, occurs_at, placeholder, replace_all,
};
use crate::trans::{
    all_digits, closing_tag, digits_value, find_char, find_seq, lemma_find_char_bounds,
    parsed_usize,
    trans_parts, TransPartView,
};

verus! {

// ---------------------------------------------------------------------------
// Plural forms
// ---------------------------------------------------------------------------

/// The form of a category is the field named by that category.
pub proof fn law_form_is_named_field(pf: PluralFormsView)
    ensures
        form_of(pf, PluralCategory::Zero) == pf.zero,
        form_of(pf, PluralCategory::One) == pf.one,
        form_of(pf, PluralCategory::Two) == pf.two,
        form_of(pf, PluralCategory::Few) == pf.few,
        form_of(pf, PluralCategory::Many) == pf.many,
        form_of(pf, PluralCategory::Other) == pf.other,
{
}

/// A category whose field holds a text is given that text; a category
/// whose field is empty is given the `other` text.
pub proof fn law_pick_reads_named_field(pf: PluralFormsView)
    ensures
        pf.zero matches Some(s) ==> pick_form(pf, PluralCategory::Zero) == Some(s),
        pf.one matches Some(s) ==> pick_form(pf, PluralCategory::One) == Some(s),
        pf.two matches Some(s) ==> pick_form(pf, PluralCategory::Two) == Some(s),
        pf.few matches Some(s) ==> pick_form(pf, PluralCategory::Few) == Some(s),
        pf.many matches Some(s) ==> pick_form(pf, PluralCategory::Many) == Some(s),
        pick_form(pf, PluralCategory::Other) == pf.other,
        pf.zero is None ==> pick_form(pf, PluralCategory::Zero) == pf.other,
        pf.one is None ==> pick_form(pf, PluralCategory::One) == pf.other,
        pf.two is None ==> pick_form(pf, PluralCategory::Two) == pf.other,
        pf.few is None ==> pick_form(pf, PluralCategory::Few) == pf.other,
        pf.many is None ==> pick_form(pf, PluralCategory::Many) == pf.other,
{
}

/// A plural translation of the active locale whose count falls in a category
/// with a text gives that text with `{count}` replaced by the count.
pub proof fn law_tp_uses_category_text(
    cat: CatalogView,
    locale: Seq<char>,
    fallback: Option<Seq<char>>,
    key: Seq<char>,
    pf: PluralFormsView,
    count: i64,
    text: Seq<char>,
)
    requires
        lookup(cat, locale, key) == Some(TranslationValueView::Plural(pf)),
        form_of(pf, plural_category_of(locale, count)) == Some(text),
    ensures
        resolved_tp(cat, locale, fallback, key, count) == interpolated(
            text,
            seq![("count"@, decimal_of(count as int))],
        ),
{
}

/// A plain translation given to `tp` gets `{count}` replaced by the count.
pub proof fn law_tp_plain_text(
    cat: CatalogView,
    locale: Seq<char>,
    fallback: Option<Seq<char>>,
    key: Seq<char>,
    count: i64,
    text: Seq<char>,
)
    requires
        lookup(cat, locale, key) == Some(TranslationValueView::Text(text)),
    ensures
        resolved_tp(cat, locale, fallback, key, count) == interpolated(
            text,
            seq![("count"@, decimal_of(count as int))],
        ),
{
}

// ---------------------------------------------------------------------------
// Lookup of `t` and `tf`
// ---------------------------------------------------------------------------

/// The translation `v` of `key` comes from the active locale, or from the
/// fallback locale when the active one lacks the key.
pub open spec fn provides(
    cat: CatalogView,
    locale: Seq<char>,
    fallback: Option<Seq<char>>,
    key: Seq<char>,
    v: TranslationValueView,
) -> bool {
    ||| lookup(cat, locale, key) == Some(v)
    ||| lookup(cat, locale, key) is None && match fallback {
        Some(fb) => lookup(cat, fb, key) == Some(v),
        None => false,
    }
}

/// A plural translation gives `t` its `other` form, whichever locale
/// provides it: the active locale, or the fallback when the active one
/// lacks the key.
pub proof fn law_t_plural_other_from_provider(
    cat: CatalogView,
    locale: Seq<char>,
    fallback: Option<Seq<char>>,
    key: Seq<char>,
    pf: PluralFormsView,
    other: Seq<char>,
)
    requires
        provides(cat, locale, fallback, key, TranslationValueView::Plural(pf)),
        pf.other == Some(other),
    ensures
        resolved_t(cat, locale, fallback, key) == other,
{
}

/// `tf` on a plain translation, from the active locale or from the fallback
/// when the active one lacks the key, substitutes every variable given.
pub proof fn law_tf_substitutes_all_vars(
    cat: CatalogView,
    locale: Seq<char>,
    fallback: Option<Seq<char>>,
    key: Seq<char>,
    text: Seq<char>,
    vars: Seq<(Seq<char>, Seq<char>)>,
)
    requires
        provides(cat, locale, fallback, key, TranslationValueView::Text(text)),
    ensures
        resolved_tf(cat, locale, fallback, key, vars) == interpolated(text, vars),
{
}

/// `tf` on a plural translation with an `other` form substitutes every
/// variable in that form.
pub proof fn law_tf_plural_uses_other(
    cat: CatalogView,
    locale: Seq<char>,
    fallback: Option<Seq<char>>,
    key: Seq<char>,
    pf: PluralFormsView,
    other: Seq<char>,
    vars: Seq<(Seq<char>, Seq<char>)>,
)
    requires
        lookup(cat, locale, key) == Some(TranslationValueView::Plural(pf)),
        pf.other == Some(other),
    ensures
        resolved_tf(cat, locale, fallback, key, vars) == interpolated(other, vars),
{
}

// ---------------------------------------------------------------------------
// Interpolation
// ---------------------------------------------------------------------------

/// Substituting a list of variables is substituting its first part, then
/// its second part in the result.
pub proof fn law_interpolate_in_steps(
    template: Seq<char>,
    a: Seq<(Seq<char>, Seq<char>)>,
    b: Seq<(Seq<char>, Seq<char>)>,
)
    ensures
        interpolated(template, a + b) == interpolated(interpolated(template, a), b),
    decreases b.len(),
{
    if b.len() == 0 {
        assert(a + b =~= a);
    } else {
        law_interpolate_in_steps(template, a, b.drop_last());
        assert((a + b).drop_last() =~= a + b.drop_last());
        assert((a + b).last() == b.last());
    }
}

/// A template that is just the placeholder of a variable becomes the
/// variable's value.
pub proof fn law_placeholder_becomes_value(name: Seq<char>, value: Seq<char>)
    ensures
        interpolated(placeholder(name), seq![(name, value)]) == value,
{
    let p = placeholder(name);
    let vars = seq![(name, value)];
    assert(vars.drop_last() =~= Seq::<(Seq<char>, Seq<char>)>::empty());
    assert(interpolated(p, vars.drop_last()) == p);
    assert(vars.last() == (name, value));
    assert(p.len() > 0);
    assert(p.take(p.len() as int) =~= p);
    assert(replace_all(p, p, value) == value + replace_all(p.skip(p.len() as int), p, value));
    assert(p.skip(p.len() as int) =~= Seq::<char>::empty());
    assert(replace_all(p.skip(p.len() as int), p, value) == Seq::<char>::empty());
    assert(value + Seq::<char>::empty() =~= value);
}

/// Text before a placeholder and after it is kept around the value.
pub proof fn law_replace_keeps_surroundings(
    pre: Seq<char>,
    pat: Seq<char>,
    rep: Seq<char>,
    post: Seq<char>,
)
    requires
        pat.len() > 0,
        !pre.contains(pat[0]),
    ensures
        replace_all(pre + pat + post, pat, rep) == pre + rep + replace_all(post, pat, rep),
    decreases pre.len(),
{
    let s = pre + pat + post;
    if pre.len() == 0 {
        assert(s =~= pat + post);
        assert(s.take(pat.len() as int) =~= pat);
        assert(s.skip(pat.len() as int) =~= post);
        assert(pre + rep =~= rep);
    } else {
        assert(s[0] == pre[0]);
        if pat.len() <= s.len() && s.take(pat.len() as int) == pat {
            assert(s.take(pat.len() as int)[0] == pre[0]);
            assert(pre.contains(pre[0]));
        }
        let pre1 = pre.skip(1);
        assert forall|i: int| 0 <= i < pre1.len() implies pre1[i] != pat[0] by {
            assert(pre1[i] == pre[i + 1]);
            if pre[i + 1] == pat[0] {
                assert(pre.contains(pat[0]));
            }
        }
        law_replace_keeps_surroundings(pre1, pat, rep, post);
        assert(s.skip(1) =~= pre1 + pat + post);
        assert(seq![pre[0]] + (pre1 + rep + replace_all(post, pat, rep)) =~= pre + rep
            + replace_all(post, pat, rep));
    }
}

/// The decimal digits of a number read back as that number, are all ASCII
/// digits, and have no leading zero.
pub proof fn law_digits_read_back(n: nat)
    ensures
        all_digits(digits_of(n)),
        digits_value(digits_of(n)) == n,
        digits_of(n).len() > 1 ==> digits_of(n)[0] != '0',
        digits_of(n).len() >= 1,
    decreases n,
{
    let d = (n % 10) as nat;
    assert(d < 10);
    let c = digit_char(d);
    assert((c as int) - ('0' as int) == d && '0' <= c <= '9') by {
        if d == 0 {
        } else if d == 1 {
        } else if d == 2 {
        } else if d == 3 {
        } else if d == 4 {
        } else if d == 5 {
        } else if d == 6 {
        } else if d == 7 {
        } else if d == 8 {
        } else {
            assert(d == 9);
        }
    }
    if n < 10 {
        let s = digits_of(n);
        assert(s == seq![c]);
        assert(s.drop_last() =~= Seq::<char>::empty());
        assert(digits_value(s.drop_last()) == 0);
        assert(n == d);
    } else {
        law_digits_read_back(n / 10);
        let p = digits_of(n / 10);
        let s = digits_of(n);
        assert(s == p.push(c));
        assert(s.drop_last() =~= p);
        assert(s.last() == c);
        assert(n == (n / 10) * 10 + d) by (nonlinear_arith)
            requires
                d == n % 10,
        ;
        assert(s[0] == p[0]);
        if p.len() == 1 {
            assert(n / 10 >= 1);
            assert(n / 10 < 10) by {
                if n / 10 >= 10 {
                    assert(p == digits_of((n / 10 / 10) as nat).push(digit_char((n / 10 % 10) as nat)));
                    law_digits_read_back(n / 10 / 10);
                }
            }
            assert(p[0] == digit_char((n / 10) as nat));
            assert(p[0] != '0') by {
                let m = (n / 10) as nat;
                if m == 1 {
                } else if m == 2 {
                } else if m == 3 {
                } else if m == 4 {
                } else if m == 5 {
                } else if m == 6 {
                } else if m == 7 {
                } else if m == 8 {
                } else {
                    assert(m == 9);
                }
            }
        }
        assert forall|i: int| 0 <= i < s.len() implies '0' <= #[trigger] s[i] <= '9' by {
            if i < p.len() {
                assert(s[i] == p[i]);
            }
        }
    }
}

/// The decimal form of a number is a minus sign exactly for negative
/// numbers, followed by the digits of its magnitude.
pub proof fn law_decimal_sign(n: int)
    ensures
        (decimal_of(n).len() > 0 && decimal_of(n)[0] == '-') <==> n < 0,
        n < 0 ==> decimal_of(n).skip(1) == digits_of((-n) as nat),
        n >= 0 ==> decimal_of(n) == digits_of(n as nat),
{
    if n < 0 {
        assert((seq!['-'] + digits_of((-n) as nat)).skip(1) =~= digits_of((-n) as nat));
    } else {
        law_digits_read_back(n as nat);
        assert('0' <= decimal_of(n)[0] <= '9');
    }
}

/// A slot tag of decimal digits reads as its number, with or without a
/// leading `+`, when the number fits in `usize`; a tag with any other
/// character, or with no digit, reads as no number.
pub proof fn law_slot_numbers(d: Seq<char>)
    ensures
        d.len() > 0 && all_digits(d) && digits_value(d) <= usize::MAX ==> parsed_usize(d) == Some(
            digits_value(d) as usize,
        ) && parsed_usize(seq!['+'] + d) == Some(digits_value(d) as usize),
        (exists|i: int| 0 <= i < d.len() && #[trigger] d[i] != '+' && !('0' <= d[i] <= '9'))
            ==> parsed_usize(d) is None,
        parsed_usize(Seq::empty()) is None,
        parsed_usize(seq!['+']) is None,
{
    assert((seq!['+'] + d).skip(1) =~= d);
    if d.len() > 0 && all_digits(d) {
        assert(d[0] != '+');
    }
    if exists|i: int| 0 <= i < d.len() && #[trigger] d[i] != '+' && !('0' <= d[i] <= '9') {
        let i = choose|i: int| 0 <= i < d.len() && #[trigger] d[i] != '+' && !('0' <= d[i] <= '9');
        if d.len() > 0 && d[0] == '+' {
            assert(d.skip(1)[i - 1] == d[i]);
        }
    }
    assert(seq!['+'].skip(1) =~= Seq::<char>::empty());
}

// ---------------------------------------------------------------------------
// Translation files
// ---------------------------------------------------------------------------

/// In the plural forms of an object of strings, the field of a category
/// holds the text of the last member named by that category, and stays
/// empty when no member names it.
#[verifier::rlimit(40)]
pub proof fn law_plural_object_fills_named_fields(
    f: Seq<(Seq<char>, JsonView)>,
    c: PluralCategory,
)
    requires
        forall|i: int| 0 <= i < f.len() ==> #[trigger] f[i].1 is Str,
    ensures
        (forall|i: int| 0 <= i < f.len() ==> category_named(#[trigger] f[i].0) != Some(c))
            ==> form_of(forms_of(f), c) is None,
        forall|i: int|
            0 <= i < f.len() && category_named(#[trigger] f[i].0) == Some(c) && (forall|j: int|
                i < j < f.len() ==> category_named(f[j].0) != Some(c)) ==> form_of(
                forms_of(f),
                c,
            ) == Some(f[i].1->Str_0),
    decreases f.len(),
{
    if f.len() > 0 {
        let g = f.drop_last();
        assert forall|i: int| 0 <= i < g.len() implies #[trigger] g[i].1 is Str by {
            assert(g[i] == f[i]);
        }
        law_plural_object_fills_named_fields(g, c);
        let last = f.last();
        assert(last == f[f.len() - 1]);
        assert(last.1 is Str);
        assert forall|i: int|
            0 <= i < f.len() && category_named(#[trigger] f[i].0) == Some(c) && (forall|j: int|
                i < j < f.len() ==> category_named(f[j].0) != Some(c)) implies form_of(
            forms_of(f),
            c,
        ) == Some(f[i].1->Str_0) by {
            if i < f.len() - 1 {
                assert(category_named(f[f.len() - 1].0) != Some(c));
                assert(g[i] == f[i]);
                assert forall|j: int| i < j < g.len() implies category_named(g[j].0) != Some(c) by {
                    assert(g[j] == f[j]);
                }
            }
        }
        if forall|i: int| 0 <= i < f.len() ==> category_named(#[trigger] f[i].0) != Some(c) {
            assert(category_named(f[f.len() - 1].0) != Some(c));
            assert forall|i: int| 0 <= i < g.len() implies category_named(
                #[trigger] g[i].0,
            ) != Some(c) by {
                assert(g[i] == f[i]);
            }
        }
    }
}

/// A plural object with one member gives that member's text in the field of
/// the category the member's name names, and leaves every other field empty.
pub proof fn law_single_plural_member(name: Seq<char>, text: Seq<char>, c: PluralCategory)
    requires
        category_named(name) is Some,
    ensures
        form_of(forms_of(seq![(name, JsonView::Str(text))]), c) == if category_named(name)
            == Some(c) {
            Some(text)
        } else {
            None
        },
{
    let f = seq![(name, JsonView::Str(text))];
    assert(f.drop_last() =~= Seq::<(Seq<char>, JsonView)>::empty());
    assert(forms_of(f.drop_last()) == no_forms());
    assert(f.last() == (name, JsonView::Str(text)));
    match c {
        PluralCategory::Zero => {},
        PluralCategory::One => {},
        PluralCategory::Two => {},
        PluralCategory::Few => {},
        PluralCategory::Many => {},
        PluralCategory::Other => {},
    }
}

/// A file with one string member gives exactly that plain translation.
pub proof fn law_file_single_text(k: Seq<char>, text: Seq<char>)
    ensures
        well_formed(JsonView::Object(seq![(k, JsonView::Str(text))])),
        flattened(JsonView::Object(seq![(k, JsonView::Str(text))])) == map![k => TranslationValueView::Text(text)],
{
    let f = seq![(k, JsonView::Str(text))];
    assert(f.drop_last() =~= Seq::<(Seq<char>, JsonView)>::empty());
    assert(f.last() == (k, JsonView::Str(text)));
    let e = seq![(k, TranslationValueView::Text(text))];
    assert(flat_fields(None, f.drop_last()) == Seq::<(Seq<char>, TranslationValueView)>::empty());
    assert(flat_value(k, JsonView::Str(text)) == e);
    assert(flat_fields(None, f) =~= e);
    assert(e.drop_last() =~= Seq::<(Seq<char>, TranslationValueView)>::empty());
    assert(insert_all(Map::empty(), e.drop_last()) == Map::<Seq<char>, TranslationValueView>::empty());
    assert(crate::loader::fields_ok(f.drop_last()));
    assert(crate::loader::value_ok(JsonView::Str(text)));
    assert(crate::loader::fields_ok(f));
    assert(flattened(JsonView::Object(f)) =~= map![k => TranslationValueView::Text(text)]);
}

/// A member that is an object of one string member, not named by a plural
/// category, gives one plain translation under the dotted key `outer.inner`.
pub proof fn law_file_nested_key(outer: Seq<char>, inner: Seq<char>, text: Seq<char>)
    requires
        category_named(inner) is None,
    ensures
        well_formed(
            JsonView::Object(
                seq![(outer, JsonView::Object(seq![(inner, JsonView::Str(text))]))],
            ),
        ),
        flattened(
            JsonView::Object(
                seq![(outer, JsonView::Object(seq![(inner, JsonView::Str(text))]))],
            ),
        ) == map![outer + seq!['.'] + inner => TranslationValueView::Text(text)],
{
    let g = seq![(inner, JsonView::Str(text))];
    let f = seq![(outer, JsonView::Object(g))];
    assert(g.drop_last() =~= Seq::<(Seq<char>, JsonView)>::empty());
    assert(f.drop_last() =~= Seq::<(Seq<char>, JsonView)>::empty());
    assert(g.last() == (inner, JsonView::Str(text)));
    assert(f.last() == (outer, JsonView::Object(g)));
    assert(!is_plural_object(g)) by {
        assert(category_named(g[0].0) is None);
    }
    let key = outer + seq!['.'] + inner;
    let e = seq![(key, TranslationValueView::Text(text))];
    let none: Seq<(Seq<char>, TranslationValueView)> = Seq::empty();
    assert(flat_fields(Some(outer), g.drop_last()) == none);
    assert(flat_value(key, JsonView::Str(text)) == e);
    assert(flat_fields(Some(outer), g) =~= e);
    assert(flat_value(outer, JsonView::Object(g)) == e);
    assert(flat_fields(None, f.drop_last()) == none);
    assert(flat_fields(None, f) =~= e);
    assert(e.drop_last() =~= none);
    assert(insert_all(Map::empty(), e.drop_last()) == Map::<Seq<char>, TranslationValueView>::empty());
    assert(crate::loader::fields_ok(g.drop_last()));
    assert(crate::loader::fields_ok(f.drop_last()));
    assert(crate::loader::value_ok(JsonView::Str(text)));
    assert(crate::loader::fields_ok(g));
    assert(crate::loader::value_ok(JsonView::Object(g)));
    assert(crate::loader::fields_ok(f));
    assert(flattened(JsonView::Object(f)) =~= map![key => TranslationValueView::Text(text)]);
}

/// A member that is a plural object gives one plural translation under the
/// member's own name.
pub proof fn law_file_plural_member(k: Seq<char>, g: Seq<(Seq<char>, JsonView)>)
    requires
        is_plural_object(g),
    ensures
        well_formed(JsonView::Object(seq![(k, JsonView::Object(g))])),
        flattened(JsonView::Object(seq![(k, JsonView::Object(g))])) == map![k => TranslationValueView::Plural(forms_of(g))],
{
    let f = seq![(k, JsonView::Object(g))];
    assert(f.drop_last() =~= Seq::<(Seq<char>, JsonView)>::empty());
    assert(f.last() == (k, JsonView::Object(g)));
    let e = seq![(k, TranslationValueView::Plural(forms_of(g)))];
    let none: Seq<(Seq<char>, TranslationValueView)> = Seq::empty();
    assert(flat_fields(None, f.drop_last()) == none);
    assert(flat_value(k, JsonView::Object(g)) == e);
    assert(flat_fields(None, f) =~= e);
    assert(e.drop_last() =~= none);
    assert(insert_all(Map::empty(), e.drop_last()) == Map::<Seq<char>, TranslationValueView>::empty());
    assert(crate::loader::fields_ok(f.drop_last()));
    assert(crate::loader::value_ok(JsonView::Object(g)));
    assert(crate::loader::fields_ok(f));
    assert(flattened(JsonView::Object(f)) =~= map![k => TranslationValueView::Plural(forms_of(g))]);
}

/// A file with a member that is neither a string nor an object is refused,
/// and so is a document that is no object.
pub proof fn law_file_refuses_other_values(
    f: Seq<(Seq<char>, JsonView)>,
    i: int,
    v: JsonView,
)
    requires
        0 <= i < f.len(),
        !(f[i].1 is Str) && !(f[i].1 is Object),
        !(v is Object),
    ensures
        !well_formed(JsonView::Object(f)),
        !well_formed(v),
    decreases f.len(),
{
    if i < f.len() - 1 {
        assert(f.drop_last()[i] == f[i]);
        law_file_refuses_other_values(f.drop_last(), i, v);
    } else {
        assert(f.last() == f[i]);
        assert(!crate::loader::value_ok(f[i].1));
    }
}

/// A plural object is a plural translation exactly when it is non-empty and
/// every member is a string named by a plural category.
pub proof fn law_plural_object_shape(f: Seq<(Seq<char>, JsonView)>)
    ensures
        is_plural_object(f) <==> (f.len() > 0 && forall|i: int|
            0 <= i < f.len() ==> category_named(#[trigger] f[i].0) is Some && f[i].1 is Str),
{
}

// ---------------------------------------------------------------------------
// Component placeholders
// ---------------------------------------------------------------------------

proof fn lemma_find_char_first(s: Seq<char>, c: char, from: int, at: int)
    requires
        0 <= from <= at < s.len(),
        s[at] == c,
        forall|k: int| from <= k < at ==> s[k] != c,
    ensures
        find_char(s, c, from) == Some(at),
    decreases at - from,
{
    if from < at {
        lemma_find_char_first(s, c, from + 1, at);
    }
}

proof fn lemma_find_char_none(s: Seq<char>, c: char, from: int)
    requires
        0 <= from,
        forall|k: int| from <= k < s.len() ==> s[k] != c,
    ensures
        find_char(s, c, from) is None,
    decreases s.len() - from,
{
    if from < s.len() {
        lemma_find_char_none(s, c, from + 1);
    }
}

proof fn lemma_find_seq_first(s: Seq<char>, pat: Seq<char>, from: int, at: int)
    requires
        0 <= from <= at,
        occurs_at(s, pat, at),
        forall|k: int| from <= k < at ==> !#[trigger] occurs_at(s, pat, k),
    ensures
        find_seq(s, pat, from) == Some(at),
    decreases at - from,
{
    if from < at {
        lemma_find_seq_first(s, pat, from + 1, at);
    }
}

/// The text before the first `<` from a position is kept, whatever it
/// holds, as the first part.
pub proof fn law_trans_keeps_leading_text(t: Seq<char>, pos: int, start: int, slot_count: usize)
    requires
        0 <= pos < start < t.len(),
        t[start] == '<',
        forall|k: int| pos <= k < start ==> t[k] != '<',
    ensures
        trans_parts(t, pos, slot_count).len() > 0,
        trans_parts(t, pos, slot_count)[0] == TransPartView::Text(t.subrange(pos, start)),
{
    lemma_find_char_first(t, '<', pos, start);
    lemma_find_char_bounds(t, '>', start + 1);
}

/// Text without `<` from a position on is one part holding all of it.
pub proof fn law_trans_keeps_trailing_text(t: Seq<char>, pos: int, slot_count: usize)
    requires
        0 <= pos < t.len(),
        forall|k: int| pos <= k < t.len() ==> t[k] != '<',
    ensures
        trans_parts(t, pos, slot_count) == seq![TransPartView::Text(t.subrange(pos, t.len() as int))],
{
    lemma_find_char_none(t, '<', pos);
}

/// The characters of the text parts, in order (slots give none).
pub open spec fn part_texts(parts: Seq<TransPartView>) -> Seq<char>
    decreases parts.len(),
{
    if parts.len() == 0 {
        Seq::empty()
    } else {
        part_texts(parts.drop_last()) + match parts.last() {
            TransPartView::Text(s) => s,
            TransPartView::Slot(_) => Seq::empty(),
        }
    }
}

proof fn lemma_part_texts_append(a: Seq<TransPartView>, b: Seq<TransPartView>)
    ensures
        part_texts(a + b) == part_texts(a) + part_texts(b),
    decreases b.len(),
{
    if b.len() == 0 {
        assert(a + b =~= a);
        assert(part_texts(a) + Seq::<char>::empty() =~= part_texts(a));
    } else {
        lemma_part_texts_append(a, b.drop_last());
        assert((a + b).drop_last() =~= a + b.drop_last());
        assert((a + b).last() == b.last());
        assert(part_texts(a + b) =~= part_texts(a) + part_texts(b));
    }
}

proof fn lemma_part_texts_single(p: TransPartView)
    ensures
        part_texts(seq![p]) == match p {
            TransPartView::Text(s) => s,
            TransPartView::Slot(_) => Seq::<char>::empty(),
        },
{
    assert(seq![p].drop_last() =~= Seq::<TransPartView>::empty());
    assert(part_texts(seq![p].drop_last()) == Seq::<char>::empty());
    assert(seq![p].last() == p);
    assert(Seq::<char>::empty() + match p {
        TransPartView::Text(s) => s,
        TransPartView::Slot(_) => Seq::<char>::empty(),
    } =~= match p {
        TransPartView::Text(s) => s,
        TransPartView::Slot(_) => Seq::<char>::empty(),
    });
}

/// Without any `>` no element can form: the text parts together give back
/// the text, character for character, and there are no slot parts.
pub proof fn law_trans_loses_no_text(t: Seq<char>, pos: int, slot_count: usize)
    requires
        0 <= pos <= t.len(),
        !t.contains('>'),
    ensures
        part_texts(trans_parts(t, pos, slot_count)) == t.subrange(pos, t.len() as int),
    decreases t.len() - pos,
{
    if pos < t.len() {
        lemma_find_char_bounds(t, '<', pos);
        match find_char(t, '<', pos) {
            None => {
                lemma_part_texts_single(TransPartView::Text(t.subrange(pos, t.len() as int)));
            },
            Some(start) => {
                assert forall|k: int| start + 1 <= k < t.len() implies t[k] != '>' by {
                    if t[k] == '>' {
                        assert(t.contains('>'));
                    }
                }
                lemma_find_char_none(t, '>', start + 1);
                law_trans_loses_no_text(t, start + 1, slot_count);
                let before = if start > pos {
                    seq![TransPartView::Text(t.subrange(pos, start))]
                } else {
                    Seq::empty()
                };
                let lt = seq![TransPartView::Text(seq!['<'])];
                let rest = trans_parts(t, start + 1, slot_count);
                assert(trans_parts(t, pos, slot_count) == before + lt + rest);
                lemma_part_texts_append(before + lt, rest);
                lemma_part_texts_append(before, lt);
                lemma_part_texts_single(TransPartView::Text(seq!['<']));
                if start > pos {
                    lemma_part_texts_single(TransPartView::Text(t.subrange(pos, start)));
                } else {
                    assert(part_texts(before) == Seq::<char>::empty());
                }
                assert(t.subrange(pos, start) + seq!['<'] + t.subrange(start + 1, t.len() as int)
                    =~= t.subrange(pos, t.len() as int));
                assert(part_texts(before) =~= t.subrange(pos, start));
            },
        }
    } else {
        assert(t.subrange(pos, t.len() as int) =~= Seq::<char>::empty());
    }
}

/// An element `<tag>inner</tag>` at a position is one part: the slot the
/// tag numbers when that slot exists, else the inner text.
pub proof fn law_trans_element(
    t: Seq<char>,
    pos: int,
    end: int,
    ci: int,
    slot_count: usize,
)
    requires
        0 <= pos < end < ci,
        t[pos] == '<',
        t[end] == '>',
        forall|k: int| pos < k < end ==> t[k] != '>',
        occurs_at(t, closing_tag(t.subrange(pos + 1, end)), ci),
        forall|k: int|
            end + 1 <= k < ci ==> !#[trigger] occurs_at(t, closing_tag(t.subrange(pos + 1, end)), k),
    ensures
        trans_parts(t, pos, slot_count).len() > 0,
        trans_parts(t, pos, slot_count)[0] == (match parsed_usize(t.subrange(pos + 1, end)) {
            Some(idx) => if idx < slot_count {
                TransPartView::Slot(idx)
            } else {
                TransPartView::Text(t.subrange(end + 1, ci))
            },
            None => TransPartView::Text(t.subrange(end + 1, ci)),
        }),
{
    let close = closing_tag(t.subrange(pos + 1, end));
    assert(ci + close.len() <= t.len());
    lemma_find_char_first(t, '<', pos, pos);
    lemma_find_char_first(t, '>', pos + 1, end);
    lemma_find_seq_first(t, close, end + 1, ci);
    lemma_find_char_bounds(t, '<', pos);
    lemma_find_char_bounds(t, '>', pos + 1);
}

} // verus!
