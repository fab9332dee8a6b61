//! The i18n state: the active locale, an optional fallback locale and the
//! translations of every locale.

use vstd::prelude::*;

use crate::plural::{opt_as_str, opt_chars};
use crate::resolve::{
    resolve_t, resolve_tf, resolve_tp, resolved_t, resolved_tf, resolved_tp, Catalog, CatalogView,
};
use crate::text::vars_view;

verus! {

/// Handle to the i18n state.
pub struct I18n {
    locale: String,
    fallback_locale: Option<String>,
    translations: Catalog,
}

/// The view of the i18n state.
#[verifier::ext_equal]
pub struct I18nView {
    pub locale: Seq<char>,
    pub fallback_locale: Option<Seq<char>>,
    pub translations: CatalogView,
}

impl View for I18n {
    type V = I18nView;

    closed spec fn view(&self) -> I18nView {
        I18nView {
            locale: self.locale@,
            fallback_locale: opt_chars(self.fallback_locale),
            translations: self.translations@,
        }
    }
}

/// A change that a handle's `&mut self` methods make to the state.
pub enum I18nChange {
    /// `set_locale` with this locale code.
    SetLocale(Seq<char>),
    /// `reload` with these translations, or with none when loading failed.
    Reload(Option<CatalogView>),
}

/// The state after a change.
pub open spec fn changed(s: I18nView, c: I18nChange) -> I18nView {
    match c {
        I18nChange::SetLocale(l) => I18nView {
            locale: l,
            fallback_locale: s.fallback_locale,
            translations: s.translations,
        },
        I18nChange::Reload(Some(d)) => I18nView {
            locale: s.locale,
            fallback_locale: s.fallback_locale,
            translations: d,
        },
        I18nChange::Reload(None) => s,
    }
}

/// The state after the changes `cs`, first to last.
pub open spec fn changed_all(s: I18nView, cs: Seq<I18nChange>) -> I18nView
    decreases cs.len(),
{
    if cs.len() == 0 {
        s
    } else {
        changed(changed_all(s, cs.drop_last()), cs.last())
    }
}

impl I18n {
    /// A handle with the given active locale, fallback locale and translations.
    pub fn new(locale: String, fallback_locale: Option<String>, translations: Catalog) -> (r: Self)
        ensures
            r@.locale == locale@,
            r@.fallback_locale == opt_chars(fallback_locale),
            r@.translations == translations@,
    {
        I18n { locale, fallback_locale, translations }
    }

    /// Translates a key into the current locale.
    ///
    /// If the key or locale is missing, the fallback locale is tried.
    /// If still missing, the key itself is returned.
    /// For plural values, the `other` form is returned (or, lacking it, the
    /// first present of `one`, `few`, `many`, `two`, `zero`).
    pub fn t(&self, key: &str) -> (r: String)
        ensures
            r@ == resolved_t(self@.translations, self@.locale, self@.fallback_locale, key@),
    {
        resolve_t(&self.translations, self.locale.as_str(), opt_as_str(&self.fallback_locale), key)
    }

    /// Translates a key with pluralization: the form is selected by the
    /// Unicode CLDR plural rules and `{count}` is replaced by the count.
    /// Falls back to the fallback locale if the key is missing.
    pub fn tp(&self, key: &str, count: i64) -> (r: String)
        ensures
            r@ == resolved_tp(
                self@.translations,
                self@.locale,
                self@.fallback_locale,
                key@,
                count,
            ),
    {
        resolve_tp(
            &self.translations,
            self.locale.as_str(),
            opt_as_str(&self.fallback_locale),
            key,
            count,
        )
    }

    /// Translates a key and substitutes named `{name}` placeholders.
    /// Falls back to the fallback locale if the key is missing.
    pub fn tf(&self, key: &str, vars: &[(&str, &str)]) -> (r: String)
        ensures
            r@ == resolved_tf(
                self@.translations,
                self@.locale,
                self@.fallback_locale,
                key@,
                vars_view(vars@),
            ),
    {
        resolve_tf(
            &self.translations,
            self.locale.as_str(),
            opt_as_str(&self.fallback_locale),
            key,
            vars,
        )
    }

    /// Switches the active locale.
    pub fn set_locale(&mut self, locale: &str)
        ensures
            final(self)@ == changed(old(self)@, I18nChange::SetLocale(locale@)),
            final(self)@.locale == locale@,
            final(self)@.fallback_locale == old(self)@.fallback_locale,
            final(self)@.translations == old(self)@.translations,
    {
        self.locale = locale.to_owned();
    }

    /// The current locale code.
    pub fn locale(&self) -> (r: String)
        ensures
            r@ == self@.locale,
    {
        self.locale.clone()
    }

    /// The configured fallback locale code, if any.
    pub fn fallback_locale(&self) -> (r: Option<String>)
        ensures
            opt_chars(r) == self@.fallback_locale,
    {
        match &self.fallback_locale {
            Some(s) => Some(s.clone()),
            None => None,
        }
    }

    /// Replaces the translations with freshly loaded ones; when loading
    /// failed (`None`) the translations stay as they were.
    pub fn reload(&mut self, loaded: Option<Catalog>)
        ensures
            final(self)@ == changed(
                old(self)@,
                I18nChange::Reload(
                    match loaded {
                        Some(data) => Some(data@),
                        None => None,
                    },
                ),
            ),
            final(self)@.locale == old(self)@.locale,
            final(self)@.fallback_locale == old(self)@.fallback_locale,
            match loaded {
                Some(data) => final(self)@.translations == data@,
                None => final(self)@.translations == old(self)@.translations,
            },
    {
        match loaded {
            Some(data) => {
                self.translations = data;
            },
            None => {},
        }
    }
}

} // verus!
