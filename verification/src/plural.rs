//! Plural categories and the plural forms of one translation.

use vstd::prelude::*;

use crate::text::{decimal_of, decimal_string, interpolate, interpolated, str_eq};

verus! {

/// The CLDR plural categories.
#[derive(Clone, Copy, Debug, PartialEq, Eq)]
pub enum PluralCategory {
    Zero,
    One,
    Two,
    Few,
    Many,
    Other,
}

/// The CLDR name of a category.
pub open spec fn category_name(c: PluralCategory) -> Seq<char> {
    match c {
        PluralCategory::Zero => "zero"@,
        PluralCategory::One => "one"@,
        PluralCategory::Two => "two"@,
        PluralCategory::Few => "few"@,
        PluralCategory::Many => "many"@,
        PluralCategory::Other => "other"@,
    }
}

/// The category that a CLDR name stands for, if any.
pub open spec fn category_named(s: Seq<char>) -> Option<PluralCategory> {
    if s == "zero"@ {
        Some(PluralCategory::Zero)
    } else if s == "one"@ {
        Some(PluralCategory::One)
    } else if s == "two"@ {
        Some(PluralCategory::Two)
    } else if s == "few"@ {
        Some(PluralCategory::Few)
    } else if s == "many"@ {
        Some(PluralCategory::Many)
    } else if s == "other"@ {
        Some(PluralCategory::Other)
    } else {
        None
    }
}

/// Each category's name names that category and no other.
pub proof fn lemma_category_name_roundtrip(c: PluralCategory)
    ensures
        category_named(category_name(c)) == Some(c),
{
    reveal_strlit("zero");
    reveal_strlit("one");
    reveal_strlit("two");
    reveal_strlit("few");
    reveal_strlit("many");
    reveal_strlit("other");
    assert("zero"@[0] != "one"@[0] && "zero"@[0] != "two"@[0] && "zero"@[0] != "few"@[0]);
    assert("zero"@[0] != "many"@[0] && "zero"@.len() != "other"@.len());
    assert("one"@[0] != "two"@[0] && "one"@[0] != "few"@[0] && "one"@.len() != "many"@.len());
    assert("one"@.len() != "other"@.len() && "two"@[0] != "few"@[0]);
    assert("two"@.len() != "many"@.len() && "two"@.len() != "other"@.len());
    assert("few"@.len() != "many"@.len() && "few"@.len() != "other"@.len());
    assert("many"@.len() != "other"@.len());
}

impl PluralCategory {
    /// The CLDR name of this category.
    pub fn as_str(&self) -> (r: &'static str)
        ensures
            r@ == category_name(*self),
    {
        match self {
            PluralCategory::Zero => "zero",
            PluralCategory::One => "one",
            PluralCategory::Two => "two",
            PluralCategory::Few => "few",
            PluralCategory::Many => "many",
            PluralCategory::Other => "other",
        }
    }
}

/// The category that the Unicode CLDR cardinal plural rules of the locale
/// written `locale` (a BCP 47 identifier) give to `count`; `None` where
/// ICU4X does not parse the identifier or has no rules for it.
pub uninterp spec fn cldr_cardinal_category(locale: Seq<char>, count: i64) -> Option<PluralCategory>;

/// `c` is an ASCII letter.
pub open spec fn is_ascii_letter(c: char) -> bool {
    ('a' <= c <= 'z') || ('A' <= c <= 'Z')
}

/// `s` begins with a language subtag as ICU4X reads one: two or three
/// ASCII letters, followed by the end or by `-`.
pub open spec fn has_language_subtag(s: Seq<char>) -> bool {
    exists|k: int|
        2 <= k <= 3 && k <= s.len() && (forall|i: int| 0 <= i < k ==> is_ascii_letter(#[trigger] s[i]))
            && (k == s.len() || s[k] == '-')
}

/// Calls icu_locale's `Locale` parser (`str::parse::<Locale>`), then
/// icu_plurals' `PluralRules::try_new` for cardinal rules from the compiled
/// data, then `PluralRules::category_for` on `count`.
/// Claimed: the result is a function of the identifier's characters and of
/// `count` alone (the rules are data compiled into the crate), `None` when
/// parsing or construction fails; and the identifier `en` succeeds, since the
/// compiled data holds English; and an identifier that does not begin with
/// a language subtag (two or three ASCII letters up to the first `-`) is
/// rejected by the parser. Which category the rules give is left to the
/// name `cldr_cardinal_category`.
#[verifier::external_body]
fn cardinal_category(locale: &str, count: i64) -> (r: Option<PluralCategory>)
    ensures
        r == cldr_cardinal_category(locale@, count),
        locale@ == "en"@ ==> r is Some,
        !has_language_subtag(locale@) ==> r is None,
{
    let loc: icu_locale::Locale = locale.parse().ok()?;
    let rules = icu_plurals::PluralRules::try_new(
        loc.into(),
        icu_plurals::PluralRuleType::Cardinal.into(),
    ).ok()?;
    Some(
        match rules.category_for(count) {
            icu_plurals::PluralCategory::Zero => PluralCategory::Zero,
            icu_plurals::PluralCategory::One => PluralCategory::One,
            icu_plurals::PluralCategory::Two => PluralCategory::Two,
            icu_plurals::PluralCategory::Few => PluralCategory::Few,
            icu_plurals::PluralCategory::Many => PluralCategory::Many,
            icu_plurals::PluralCategory::Other => PluralCategory::Other,
        },
    )
}

/// The category chosen for a count: the locale's own when ICU4X gives one,
/// else English's.
pub open spec fn chosen_category(
    own: Option<PluralCategory>,
    english: PluralCategory,
) -> PluralCategory {
    match own {
        Some(c) => c,
        None => english,
    }
}

/// The category of `count` under the locale's rules, falling back to
/// English rules when ICU4X gives no category for the identifier.
pub open spec fn plural_category_of(locale: Seq<char>, count: i64) -> PluralCategory {
    chosen_category(
        cldr_cardinal_category(locale, count),
        cldr_cardinal_category("en"@, count).unwrap(),
    )
}

/// Chooses between the locale's own category for a count and English's.
pub fn choose_category(own: Option<PluralCategory>, english: PluralCategory) -> (r:
    PluralCategory)
    ensures
        r == chosen_category(own, english),
{
    match own {
        Some(c) => c,
        None => english,
    }
}

/// The CLDR plural category of `count` in `locale`. An identifier that
/// ICU4X cannot parse or serve gets English rules; ICU4X itself serves a
/// well-formed identifier it has no data for by its own locale fallback.
pub fn plural_category_value(locale: &str, count: i64) -> (r: PluralCategory)
    ensures
        r == plural_category_of(locale@, count),
        !has_language_subtag(locale@) ==> r == plural_category_of("en"@, count),
{
    let own = cardinal_category(locale, count);
    let english = match cardinal_category("en", count) {
        Some(c) => c,
        None => vstd::pervasive::unreached(),
    };
    choose_category(own, english)
}

/// The CLDR plural category of `count` in `locale`, as its name
/// (`zero`, `one`, `two`, `few`, `many` or `other`). An identifier that
/// ICU4X cannot parse or serve gets English rules.
pub fn plural_category(locale: &str, count: i64) -> (r: &'static str)
    ensures
        r@ == category_name(plural_category_of(locale@, count)),
        !has_language_subtag(locale@) ==> r@ == category_name(plural_category_of("en"@, count)),
{
    plural_category_value(locale, count).as_str()
}

// ---------------------------------------------------------------------------
// Plural forms
// ---------------------------------------------------------------------------

/// The texts of a plural translation, one per category, each optional.
#[derive(Clone, Debug, PartialEq)]
pub struct PluralForms {
    pub zero: Option<String>,
    pub one: Option<String>,
    pub two: Option<String>,
    pub few: Option<String>,
    pub many: Option<String>,
    pub other: Option<String>,
}

/// The view of plural forms: each category's text as characters.
pub struct PluralFormsView {
    pub zero: Option<Seq<char>>,
    pub one: Option<Seq<char>>,
    pub two: Option<Seq<char>>,
    pub few: Option<Seq<char>>,
    pub many: Option<Seq<char>>,
    pub other: Option<Seq<char>>,
}

/// An optional string as optional characters.
pub open spec fn opt_chars(o: Option<String>) -> Option<Seq<char>> {
    match o {
        Some(s) => Some(s@),
        None => None,
    }
}

/// An optional string slice as optional characters.
pub open spec fn opt_str_chars(o: Option<&str>) -> Option<Seq<char>> {
    match o {
        Some(s) => Some(s@),
        None => None,
    }
}

impl View for PluralForms {
    type V = PluralFormsView;

    open spec fn view(&self) -> PluralFormsView {
        PluralFormsView {
            zero: opt_chars(self.zero),
            one: opt_chars(self.one),
            two: opt_chars(self.two),
            few: opt_chars(self.few),
            many: opt_chars(self.many),
            other: opt_chars(self.other),
        }
    }
}

/// The text stored for exactly the category `c`.
pub open spec fn form_of(pf: PluralFormsView, c: PluralCategory) -> Option<Seq<char>> {
    match c {
        PluralCategory::Zero => pf.zero,
        PluralCategory::One => pf.one,
        PluralCategory::Two => pf.two,
        PluralCategory::Few => pf.few,
        PluralCategory::Many => pf.many,
        PluralCategory::Other => pf.other,
    }
}

/// The text for category `c`: its own text, else the `other` text.
pub open spec fn pick_form(pf: PluralFormsView, c: PluralCategory) -> Option<Seq<char>> {
    match form_of(pf, c) {
        Some(s) => Some(s),
        None => pf.other,
    }
}

/// The text for the category named `name`: that category's text, else the
/// `other` text (also for a name that is no category).
pub open spec fn forms_get(pf: PluralFormsView, name: Seq<char>) -> Option<Seq<char>> {
    match category_named(name) {
        Some(c) => pick_form(pf, c),
        None => pf.other,
    }
}

/// The first text present among `other`, `one`, `few`, `many`, `two`, `zero`.
pub open spec fn first_form(pf: PluralFormsView) -> Option<Seq<char>> {
    if pf.other is Some {
        pf.other
    } else if pf.one is Some {
        pf.one
    } else if pf.few is Some {
        pf.few
    } else if pf.many is Some {
        pf.many
    } else if pf.two is Some {
        pf.two
    } else {
        pf.zero
    }
}

pub(crate) fn opt_as_str(o: &Option<String>) -> (r: Option<&str>)
    ensures
        opt_str_chars(r) == opt_chars(*o),
{
    match o {
        Some(s) => Some(s.as_str()),
        None => None,
    }
}

/// The category that the CLDR name `name` stands for, if any.
pub fn category_from_name(name: &str) -> (r: Option<PluralCategory>)
    ensures
        r == category_named(name@),
{
    if str_eq(name, "zero") {
        Some(PluralCategory::Zero)
    } else if str_eq(name, "one") {
        Some(PluralCategory::One)
    } else if str_eq(name, "two") {
        Some(PluralCategory::Two)
    } else if str_eq(name, "few") {
        Some(PluralCategory::Few)
    } else if str_eq(name, "many") {
        Some(PluralCategory::Many)
    } else if str_eq(name, "other") {
        Some(PluralCategory::Other)
    } else {
        None
    }
}

impl Default for PluralForms {
    /// Plural forms with no text for any category.
    fn default() -> (r: Self)
        ensures
            r.zero is None,
            r.one is None,
            r.two is None,
            r.few is None,
            r.many is None,
            r.other is None,
    {
        PluralForms { zero: None, one: None, two: None, few: None, many: None, other: None }
    }
}

impl PluralForms {
    /// The text stored for exactly the category `c`.
    pub fn form(&self, c: PluralCategory) -> (r: Option<&str>)
        ensures
            opt_str_chars(r) == form_of(self@, c),
    {
        match c {
            PluralCategory::Zero => opt_as_str(&self.zero),
            PluralCategory::One => opt_as_str(&self.one),
            PluralCategory::Two => opt_as_str(&self.two),
            PluralCategory::Few => opt_as_str(&self.few),
            PluralCategory::Many => opt_as_str(&self.many),
            PluralCategory::Other => opt_as_str(&self.other),
        }
    }

    /// The text for category `c`, falling back to the `other` text.
    pub fn pick(&self, c: PluralCategory) -> (r: Option<&str>)
        ensures
            opt_str_chars(r) == pick_form(self@, c),
    {
        match self.form(c) {
            Some(s) => Some(s),
            None => opt_as_str(&self.other),
        }
    }

    /// The text for the category named `category`, falling back to the
    /// `other` text when that category has none or the name is unknown.
    pub fn get(&self, category: &str) -> (r: Option<&str>)
        ensures
            opt_str_chars(r) == forms_get(self@, category@),
    {
        match category_from_name(category) {
            Some(c) => self.pick(c),
            None => opt_as_str(&self.other),
        }
    }

    /// The first text present among `other`, `one`, `few`, `many`, `two`
    /// and `zero`, in that order.
    pub fn first(&self) -> (r: Option<&str>)
        ensures
            opt_str_chars(r) == first_form(self@),
    {
        if self.other.is_some() {
            opt_as_str(&self.other)
        } else if self.one.is_some() {
            opt_as_str(&self.one)
        } else if self.few.is_some() {
            opt_as_str(&self.few)
        } else if self.many.is_some() {
            opt_as_str(&self.many)
        } else if self.two.is_some() {
            opt_as_str(&self.two)
        } else {
            opt_as_str(&self.zero)
        }
    }
}

/// The text of a plural translation for `count` once its category is known:
/// the category's text (or the `other` text) with `{count}` replaced by
/// the decimal form of `count`; `None` when there is no such text.
pub open spec fn plural_text(pf: PluralFormsView, c: PluralCategory, count: i64) -> Option<
    Seq<char>,
> {
    match pick_form(pf, c) {
        Some(t) => Some(interpolated(t, seq![("count"@, decimal_of(count as int))])),
        None => None,
    }
}

/// Renders the plural translation `pf` for `count` whose category is `c`.
pub fn render_plural(pf: &PluralForms, c: PluralCategory, count: i64) -> (r: Option<String>)
    ensures
        opt_chars(r) == plural_text(pf@, c, count),
{
    match pf.pick(c) {
        Some(t) => {
            let n = decimal_string(count);
            let vars = [("count", n.as_str())];
            let r = interpolate(t, vars.as_slice());
            assert(crate::text::vars_view(vars@) =~= seq![("count"@, decimal_of(count as int))]);
            Some(r)
        },
        None => None,
    }
}

} // verus!
