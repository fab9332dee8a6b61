//! Properties of the library as a whole, stated over the specifications that
//! the functions' contracts use.

use vstd::prelude::*;

use crate::handle::{changed_all, I18nChange, I18nView};
use crate::plural::{
    category_name, cldr_cardinal_category, forms_get, lemma_category_name_roundtrip, pick_form,
    plural_category_of, PluralCategory, PluralFormsView,
};
use crate::resolve::{
    lookup, resolved_t, resolved_tf, resolved_tp, CatalogView, TranslationValueView,
};
use crate::text::{interpolated, placeholder, replace_all};
use crate::trans::{
    find_char, lemma_find_char_bounds, lemma_find_seq_bounds, trans_parts, TransPartView,
};

verus! {

// ---------------------------------------------------------------------------
// Lookup order
// ---------------------------------------------------------------------------

/// A key that the active locale translates with a plain text is
/// translated by that text, whatever the fallback locale holds.
pub proof fn law_active_locale_wins(
    cat: CatalogView,
    locale: Seq<char>,
    fallback: Option<Seq<char>>,
    key: Seq<char>,
    text: Seq<char>,
)
    requires
        lookup(cat, locale, key) == Some(TranslationValueView::Text(text)),
    ensures
        resolved_t(cat, locale, fallback, key) == text,
        resolved_tf(cat, locale, fallback, key, Seq::empty()) == text,
{
}

/// A key that the active locale lacks and the fallback locale translates
/// with a plain text is translated by the fallback's text.
pub proof fn law_fallback_fills_gaps(
    cat: CatalogView,
    locale: Seq<char>,
    fallback: Seq<char>,
    key: Seq<char>,
    text: Seq<char>,
)
    requires
        lookup(cat, locale, key) is None,
        lookup(cat, fallback, key) == Some(TranslationValueView::Text(text)),
    ensures
        resolved_t(cat, locale, Some(fallback), key) == text,
        resolved_tf(cat, locale, Some(fallback), key, Seq::empty()) == text,
{
}

/// A key that neither the active locale nor the fallback locale (if any)
/// translates comes back as the key itself, from `t`, `tp` and `tf` alike.
pub proof fn law_missing_key_is_returned(
    cat: CatalogView,
    locale: Seq<char>,
    fallback: Option<Seq<char>>,
    key: Seq<char>,
    count: i64,
    vars: Seq<(Seq<char>, Seq<char>)>,
)
    requires
        lookup(cat, locale, key) is None,
        fallback matches Some(fb) ==> lookup(cat, fb, key) is None,
    ensures
        resolved_t(cat, locale, fallback, key) == key,
        resolved_tp(cat, locale, fallback, key, count) == key,
        resolved_tf(cat, locale, fallback, key, vars) == key,
{
}

/// Without a fallback locale, a key that the active locale lacks comes back
/// as the key itself, even when another locale translates it.
pub proof fn law_no_fallback_no_borrowing(
    cat: CatalogView,
    locale: Seq<char>,
    key: Seq<char>,
    count: i64,
    vars: Seq<(Seq<char>, Seq<char>)>,
)
    requires
        lookup(cat, locale, key) is None,
    ensures
        resolved_t(cat, locale, None, key) == key,
        resolved_tp(cat, locale, None, key, count) == key,
        resolved_tf(cat, locale, None, key, vars) == key,
{
}

/// A plural translation given to `t` yields its `other` form when it has one.
pub proof fn law_t_plural_gives_other(
    cat: CatalogView,
    locale: Seq<char>,
    fallback: Option<Seq<char>>,
    key: Seq<char>,
    pf: PluralFormsView,
    other: Seq<char>,
)
    requires
        lookup(cat, locale, key) == Some(TranslationValueView::Plural(pf)),
        pf.other == Some(other),
    ensures
        resolved_t(cat, locale, fallback, key) == other,
{
}

/// A plural translation that the fallback locale provides takes its
/// category from the fallback locale's plural rules.
pub proof fn law_plural_rules_follow_provider(
    cat: CatalogView,
    locale: Seq<char>,
    fallback: Seq<char>,
    key: Seq<char>,
    pf: PluralFormsView,
    count: i64,
    text: Seq<char>,
)
    requires
        lookup(cat, locale, key) is None,
        lookup(cat, fallback, key) == Some(TranslationValueView::Plural(pf)),
        pick_form(pf, plural_category_of(fallback, count)) == Some(text),
    ensures
        resolved_tp(cat, locale, Some(fallback), key, count) == interpolated(
            text,
            seq![("count"@, crate::text::decimal_of(count as int))],
        ),
{
}

// ---------------------------------------------------------------------------
// The handle's state
// ---------------------------------------------------------------------------

/// No sequence of locale switches and reloads changes the fallback locale
/// (the other methods take the handle by shared reference).
pub proof fn law_fallback_locale_is_fixed(s: I18nView, cs: Seq<I18nChange>)
    ensures
        changed_all(s, cs).fallback_locale == s.fallback_locale,
    decreases cs.len(),
{
    if cs.len() > 0 {
        law_fallback_locale_is_fixed(s, cs.drop_last());
    }
}

/// After a sequence of changes, the active locale is the one last set.
pub proof fn law_locale_is_last_set(s: I18nView, cs: Seq<I18nChange>, i: int)
    requires
        0 <= i < cs.len(),
        cs[i] is SetLocale,
        forall|j: int| i < j < cs.len() ==> cs[j] is Reload,
    ensures
        changed_all(s, cs).locale == cs[i]->SetLocale_0,
    decreases cs.len(),
{
    if i < cs.len() - 1 {
        law_locale_is_last_set(s, cs.drop_last(), i);
    }
}

// ---------------------------------------------------------------------------
// Plural forms and categories
// ---------------------------------------------------------------------------

/// Asking plural forms by a category's name gives that category's text,
/// or the `other` text when the category has none.
pub proof fn law_forms_get_by_name(pf: PluralFormsView, c: PluralCategory)
    ensures
        forms_get(pf, category_name(c)) == pick_form(pf, c),
{
    lemma_category_name_roundtrip(c);
}

/// A locale that ICU4X cannot serve gets the English category.
pub proof fn law_unknown_locale_is_english(locale: Seq<char>, count: i64)
    requires
        cldr_cardinal_category(locale, count) is None,
    ensures
        plural_category_of(locale, count) == plural_category_of("en"@, count),
{
}

// ---------------------------------------------------------------------------
// Interpolation
// ---------------------------------------------------------------------------

proof fn lemma_replace_absent(s: Seq<char>, pat: Seq<char>, rep: Seq<char>)
    requires
        pat.len() > 0,
        !s.contains(pat[0]),
    ensures
        replace_all(s, pat, rep) == s,
    decreases s.len(),
{
    if s.len() > 0 {
        if pat.len() <= s.len() && s.take(pat.len() as int) == pat {
            assert(s.take(pat.len() as int)[0] == s[0]);
            assert(s.contains(s[0]));
        }
        assert forall|i: int| 0 <= i < s.skip(1).len() implies s.skip(1)[i] != pat[0] by {
            assert(s[i + 1] == s.skip(1)[i]);
            if s[i + 1] == pat[0] {
                assert(s.contains(pat[0]));
            }
        }
        lemma_replace_absent(s.skip(1), pat, rep);
        assert(seq![s[0]] + s.skip(1) =~= s);
    }
}

/// Interpolating without variables leaves the template unchanged.
pub proof fn law_interpolate_no_vars(template: Seq<char>)
    ensures
        interpolated(template, Seq::empty()) == template,
{
}

/// A template without `{` has no placeholders: interpolation leaves it
/// unchanged, whatever the variables.
pub proof fn law_interpolate_without_placeholders(
    template: Seq<char>,
    vars: Seq<(Seq<char>, Seq<char>)>,
)
    requires
        !template.contains('{'),
    ensures
        interpolated(template, vars) == template,
    decreases vars.len(),
{
    if vars.len() > 0 {
        law_interpolate_without_placeholders(template, vars.drop_last());
        let pat = placeholder(vars.last().0);
        assert(pat[0] == '{');
        lemma_replace_absent(template, pat, vars.last().1);
    }
}

// ---------------------------------------------------------------------------
// Component placeholders
// ---------------------------------------------------------------------------

proof fn lemma_find_char_absent(s: Seq<char>, c: char, from: int)
    requires
        0 <= from,
        forall|i: int| from <= i < s.len() ==> s[i] != c,
    ensures
        find_char(s, c, from) is None,
    decreases s.len() - from,
{
    if from < s.len() {
        lemma_find_char_absent(s, c, from + 1);
    }
}

/// A non-empty text without `<` is a single text part.
pub proof fn law_trans_plain_text(t: Seq<char>, slot_count: usize)
    requires
        t.len() > 0,
        !t.contains('<'),
    ensures
        trans_parts(t, 0, slot_count) == seq![TransPartView::Text(t)],
{
    assert forall|i: int| 0 <= i < t.len() implies t[i] != '<' by {
        if t[i] == '<' {
            assert(t.contains('<'));
        }
    }
    lemma_find_char_absent(t, '<', 0);
    assert(t.subrange(0, t.len() as int) =~= t);
}

/// Every slot part names a slot that exists.
pub proof fn law_trans_slots_exist(t: Seq<char>, pos: int, slot_count: usize)
    ensures
        forall|i: int|
            0 <= i < trans_parts(t, pos, slot_count).len() ==> (
            #[trigger] trans_parts(t, pos, slot_count)[i] matches TransPartView::Slot(j) ==> j
                < slot_count),
    decreases t.len() - pos,
{
    if 0 <= pos < t.len() {
        lemma_find_char_bounds(t, '<', pos);
        match find_char(t, '<', pos) {
            None => {},
            Some(start) => {
                lemma_find_char_bounds(t, '>', start + 1);
                match find_char(t, '>', start + 1) {
                    Some(end) => {
                        let close = crate::trans::closing_tag(t.subrange(start + 1, end));
                        lemma_find_seq_bounds(t, close, end + 1);
                        match crate::trans::find_seq(t, close, end + 1) {
                            Some(ci) => {
                                law_trans_slots_exist(t, ci + close.len(), slot_count);
                            },
                            None => {
                                law_trans_slots_exist(t, start + 1, slot_count);
                            },
                        }
                    },
                    None => {
                        law_trans_slots_exist(t, start + 1, slot_count);
                    },
                }
            },
        }
    }
}

} // verus!
