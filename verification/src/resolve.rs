//! Looking translations up: the active locale first, then the fallback
//! locale, then the key itself.

use vstd::prelude::*;

use crate::plural::{
    first_form, opt_as_str, opt_str_chars, plural_category_of, plural_category_value,
    plural_text, render_plural, PluralForms, PluralFormsView,
};
use crate::store::StrMap;
use crate::text::{decimal_of, decimal_string, interpolate, interpolated, vars_view};

verus! {

/// One translation: a plain text, or texts per plural category.
#[derive(Clone, Debug, PartialEq)]
pub enum TranslationValue {
    String(String),
    Plural(PluralForms),
}

/// The view of a translation.
pub enum TranslationValueView {
    Text(Seq<char>),
    Plural(PluralFormsView),
}

impl View for TranslationValue {
    type V = TranslationValueView;

    open spec fn view(&self) -> TranslationValueView {
        match self {
            TranslationValue::String(s) => TranslationValueView::Text(s@),
            TranslationValue::Plural(pf) => TranslationValueView::Plural(pf@),
        }
    }
}

/// The translations of one locale, by key.
pub type Translations = StrMap<TranslationValue>;

/// The translations of every locale, by locale code.
pub type Catalog = StrMap<Translations>;

/// What a catalog holds: locale code to key to translation.
pub type CatalogView = Map<Seq<char>, Map<Seq<char>, TranslationValueView>>;

/// The translation of `key` that the locale `locale` itself holds.
pub open spec fn lookup(cat: CatalogView, locale: Seq<char>, key: Seq<char>) -> Option<
    TranslationValueView,
> {
    if cat.contains_key(locale) && cat[locale].contains_key(key) {
        Some(cat[locale][key])
    } else {
        None
    }
}

/// The translation of `key` in `locale`, else in the fallback locale when
/// one is configured.
pub open spec fn resolved_value(
    cat: CatalogView,
    locale: Seq<char>,
    fallback: Option<Seq<char>>,
    key: Seq<char>,
) -> Option<TranslationValueView> {
    match lookup(cat, locale, key) {
        Some(v) => Some(v),
        None => match fallback {
            Some(fb) => lookup(cat, fb, key),
            None => None,
        },
    }
}

/// The text `t` gives for `key`: a plain translation as it stands; for a
/// plural translation the first form present among `other`, `one`, `few`,
/// `many`, `two`, `zero`; otherwise the key itself.
pub open spec fn resolved_t(
    cat: CatalogView,
    locale: Seq<char>,
    fallback: Option<Seq<char>>,
    key: Seq<char>,
) -> Seq<char> {
    match resolved_value(cat, locale, fallback, key) {
        Some(TranslationValueView::Text(s)) => s,
        Some(TranslationValueView::Plural(pf)) => match first_form(pf) {
            Some(s) => s,
            None => key,
        },
        None => key,
    }
}

/// The locale whose plural rules apply to the translation of `key`: the
/// locale that provided it.
pub open spec fn plural_locale(
    cat: CatalogView,
    locale: Seq<char>,
    fallback: Option<Seq<char>>,
    key: Seq<char>,
) -> Seq<char> {
    if lookup(cat, locale, key) is Some {
        locale
    } else {
        match fallback {
            Some(fb) => fb,
            None => locale,
        }
    }
}

/// The variables that `tp` substitutes: `count` and its decimal form.
pub open spec fn count_vars(count: i64) -> Seq<(Seq<char>, Seq<char>)> {
    seq![("count"@, decimal_of(count as int))]
}

/// The text `tp` gives for `key` and `count`: a plain translation, or the
/// form of the count's plural category (else `other`) in the locale that
/// provided the translation, with `{count}` replaced by the count; the key
/// itself when there is no such text.
pub open spec fn resolved_tp(
    cat: CatalogView,
    locale: Seq<char>,
    fallback: Option<Seq<char>>,
    key: Seq<char>,
    count: i64,
) -> Seq<char> {
    let text = match resolved_value(cat, locale, fallback, key) {
        Some(TranslationValueView::Text(s)) => Some(interpolated(s, count_vars(count))),
        Some(TranslationValueView::Plural(pf)) => plural_text(
            pf,
            plural_category_of(plural_locale(cat, locale, fallback, key), count),
            count,
        ),
        None => None,
    };
    match text {
        Some(t) => t,
        None => key,
    }
}

/// The text `tf` gives for `key`: a plain translation, or the `other` form
/// of a plural one, with the variables substituted; otherwise the key.
pub open spec fn resolved_tf(
    cat: CatalogView,
    locale: Seq<char>,
    fallback: Option<Seq<char>>,
    key: Seq<char>,
    vars: Seq<(Seq<char>, Seq<char>)>,
) -> Seq<char> {
    let template = match resolved_value(cat, locale, fallback, key) {
        Some(TranslationValueView::Text(s)) => Some(s),
        Some(TranslationValueView::Plural(pf)) => pf.other,
        None => None,
    };
    match template {
        Some(t) => interpolated(t, vars),
        None => key,
    }
}

/// An optional translation as its view.
pub open spec fn opt_value(o: Option<&TranslationValue>) -> Option<TranslationValueView> {
    match o {
        Some(v) => Some(v@),
        None => None,
    }
}

fn lookup_in<'a>(translations: &'a Catalog, locale: &str, key: &str) -> (r: Option<
    &'a TranslationValue,
>)
    ensures
        opt_value(r) == lookup(translations@, locale@, key@),
{
    match translations.get(locale) {
        Some(t) => t.get(key),
        None => None,
    }
}

/// The translation of `key` in `locale`, else in `fallback` when given.
pub fn resolve_value<'a>(
    translations: &'a Catalog,
    locale: &str,
    fallback: Option<&str>,
    key: &str,
) -> (r: Option<&'a TranslationValue>)
    ensures
        opt_value(r) == resolved_value(translations@, locale@, opt_str_chars(fallback), key@),
{
    let value = lookup_in(translations, locale, key);
    if value.is_some() {
        return value;
    }
    match fallback {
        Some(fb) => lookup_in(translations, fb, key),
        None => None,
    }
}

/// Translates `key`, trying `locale`, then `fallback`; a plural
/// translation gives its first present form, and a missing one the key.
pub fn resolve_t(translations: &Catalog, locale: &str, fallback: Option<&str>, key: &str) -> (r:
    String)
    ensures
        r@ == resolved_t(translations@, locale@, opt_str_chars(fallback), key@),
{
    match resolve_value(translations, locale, fallback, key) {
        Some(TranslationValue::String(s)) => s.clone(),
        Some(TranslationValue::Plural(pf)) => match pf.first() {
            Some(s) => s.to_owned(),
            None => key.to_owned(),
        },
        None => key.to_owned(),
    }
}

/// Translates `key` for `count`, choosing the plural form by the CLDR rules
/// of the locale that provided the translation and replacing `{count}`.
pub fn resolve_tp(
    translations: &Catalog,
    locale: &str,
    fallback: Option<&str>,
    key: &str,
    count: i64,
) -> (r: String)
    ensures
        r@ == resolved_tp(translations@, locale@, opt_str_chars(fallback), key@, count),
{
    let text = match resolve_value(translations, locale, fallback, key) {
        Some(TranslationValue::String(s)) => {
            let n = decimal_string(count);
            let vars = [("count", n.as_str())];
            assert(vars_view(vars@) =~= count_vars(count));
            Some(interpolate(s.as_str(), vars.as_slice()))
        },
        Some(TranslationValue::Plural(pf)) => {
            let resolved_locale = if lookup_in(translations, locale, key).is_some() {
                locale
            } else {
                match fallback {
                    Some(fb) => fb,
                    None => locale,
                }
            };
            let c = plural_category_value(resolved_locale, count);
            render_plural(pf, c, count)
        },
        None => None,
    };
    match text {
        Some(t) => t,
        None => key.to_owned(),
    }
}

/// Translates `key` and substitutes `{name}` placeholders from `vars`; a
/// plural translation uses its `other` form.
pub fn resolve_tf(
    translations: &Catalog,
    locale: &str,
    fallback: Option<&str>,
    key: &str,
    vars: &[(&str, &str)],
) -> (r: String)
    ensures
        r@ == resolved_tf(
            translations@,
            locale@,
            opt_str_chars(fallback),
            key@,
            vars_view(vars@),
        ),
{
    let template = match resolve_value(translations, locale, fallback, key) {
        Some(TranslationValue::String(s)) => Some(s.as_str()),
        Some(TranslationValue::Plural(pf)) => opt_as_str(&pf.other),
        None => None,
    };
    match template {
        Some(s) => interpolate(s, vars),
        None => key.to_owned(),
    }
}

} // verus!
