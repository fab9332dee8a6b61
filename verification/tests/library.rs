use dioxus_i18n_json::plural::{category_from_name, plural_category_value, render_plural};
use dioxus_i18n_json::text::{decimal_string, replace_chars, str_eq};
use dioxus_i18n_json::{
    interpolate, namespaced_key, parse_translation_json, plural_category, resolve_t, resolve_tf, resolve_tp,
    resolve_value, split_trans, Catalog, I18n, PluralCategory, PluralForms, StrMap, TransPart,
    TranslationValue, Translations,
};

fn text(s: &str) -> TranslationValue {
    TranslationValue::String(s.to_string())
}

fn sample_catalog() -> Catalog {
    let mut en = Translations::new();
    en.insert("greeting".to_string(), text("Hello"));
    en.insert("only_en".to_string(), text("English only"));
    en.insert(
        "files".to_string(),
        TranslationValue::Plural(PluralForms {
            one: Some("{count} file".to_string()),
            other: Some("{count} files".to_string()),
            ..Default::default()
        }),
    );
    en.insert("welcome".to_string(), text("Welcome, {name}!"));
    en.insert("messages.inbox".to_string(), text("Inbox"));
    let mut ru = Translations::new();
    ru.insert("greeting".to_string(), text("Привет"));
    ru.insert(
        "files".to_string(),
        TranslationValue::Plural(PluralForms {
            one: Some("{count} файл".to_string()),
            few: Some("{count} файла".to_string()),
            many: Some("{count} файлов".to_string()),
            ..Default::default()
        }),
    );
    ru.insert("count_text".to_string(), text("Всего: {count}"));
    let mut cat = Catalog::new();
    cat.insert("en".to_string(), en);
    cat.insert("ru".to_string(), ru);
    cat
}

#[test]
fn str_map_insert_get_and_overwrite() {
    let mut m: StrMap<TranslationValue> = StrMap::new();
    assert!(m.get("a").is_none());
    m.insert("a".to_string(), text("1"));
    m.insert("b".to_string(), text("2"));
    m.insert("a".to_string(), text("3"));
    match m.get("a") {
        Some(TranslationValue::String(s)) => assert_eq!(s, "3"),
        _ => panic!("expected a text for a"),
    }
    match m.get("b") {
        Some(TranslationValue::String(s)) => assert_eq!(s, "2"),
        _ => panic!("expected a text for b"),
    }
    assert!(m.get("c").is_none());
}

#[test]
fn resolve_value_prefers_active_locale() {
    let cat = sample_catalog();
    match resolve_value(&cat, "ru", Some("en"), "greeting") {
        Some(TranslationValue::String(s)) => assert_eq!(s, "Привет"),
        _ => panic!("expected the Russian greeting"),
    }
    match resolve_value(&cat, "ru", Some("en"), "only_en") {
        Some(TranslationValue::String(s)) => assert_eq!(s, "English only"),
        _ => panic!("expected the English text"),
    }
    assert!(resolve_value(&cat, "ru", None, "only_en").is_none());
    assert!(resolve_value(&cat, "de", None, "greeting").is_none());
}

#[test]
fn resolve_t_plural_gives_other_then_first_present() {
    let cat = sample_catalog();
    assert_eq!(resolve_t(&cat, "en", None, "files"), "{count} files");
    // no `other` form: `one` comes first
    assert_eq!(resolve_t(&cat, "ru", None, "files"), "{count} файл");
    let mut only_zero = Translations::new();
    only_zero.insert(
        "k".to_string(),
        TranslationValue::Plural(PluralForms {
            zero: Some("none".to_string()),
            ..Default::default()
        }),
    );
    let mut empty = Translations::new();
    empty.insert("e".to_string(), TranslationValue::Plural(PluralForms::default()));
    let mut cat2 = Catalog::new();
    cat2.insert("xx".to_string(), only_zero);
    cat2.insert("yy".to_string(), empty);
    assert_eq!(resolve_t(&cat2, "xx", None, "k"), "none");
    assert_eq!(resolve_t(&cat2, "yy", None, "e"), "e");
}

#[test]
fn resolve_tp_uses_locale_rules_and_count() {
    let cat = sample_catalog();
    assert_eq!(resolve_tp(&cat, "en", None, "files", 1), "1 file");
    assert_eq!(resolve_tp(&cat, "en", None, "files", 0), "0 files");
    assert_eq!(resolve_tp(&cat, "ru", None, "files", 3), "3 файла");
    assert_eq!(resolve_tp(&cat, "ru", None, "files", 11), "11 файлов");
    assert_eq!(resolve_tp(&cat, "ru", None, "files", 21), "21 файл");
    // plain text translations get {count} too
    assert_eq!(resolve_tp(&cat, "ru", None, "count_text", -42), "Всего: -42");
    // a plural without the needed form nor `other` gives the key
    let mut only_one = Translations::new();
    only_one.insert(
        "k".to_string(),
        TranslationValue::Plural(PluralForms {
            one: Some("one".to_string()),
            ..Default::default()
        }),
    );
    let mut cat2 = Catalog::new();
    cat2.insert("en".to_string(), only_one);
    assert_eq!(resolve_tp(&cat2, "en", None, "k", 7), "k");
    assert_eq!(resolve_tp(&cat2, "en", None, "k", 1), "one");
}

#[test]
fn resolve_tp_fallback_plural_uses_fallback_rules() {
    let cat = sample_catalog();
    // "ru" lacks "welcome"; a Russian-only plural key reached from "en" uses Russian rules
    let mut only_ru = Catalog::new();
    let mut ru = Translations::new();
    ru.insert(
        "files".to_string(),
        TranslationValue::Plural(PluralForms {
            one: Some("{count} файл".to_string()),
            few: Some("{count} файла".to_string()),
            other: Some("{count} ?".to_string()),
            ..Default::default()
        }),
    );
    only_ru.insert("ru".to_string(), ru);
    only_ru.insert("en".to_string(), Translations::new());
    // English rules would say "other" for 2; Russian rules say "few"
    assert_eq!(resolve_tp(&only_ru, "en", Some("ru"), "files", 2), "2 файла");
    assert_eq!(resolve_tp(&cat, "ru", Some("en"), "only_en", 2), "English only");
}

#[test]
fn resolve_tf_substitutes_and_uses_other_for_plurals() {
    let cat = sample_catalog();
    assert_eq!(
        resolve_tf(&cat, "ru", Some("en"), "welcome", &[("name", "Ann")]),
        "Welcome, Ann!"
    );
    assert_eq!(
        resolve_tf(&cat, "en", None, "files", &[("count", "9")]),
        "9 files"
    );
    // a Russian plural without `other` form gives the key
    assert_eq!(resolve_tf(&cat, "ru", None, "files", &[]), "files");
}

#[test]
fn interpolate_edge_cases() {
    assert_eq!(interpolate("{a}{a}{b}", &[("a", "x"), ("b", "y")]), "xxy");
    // a replacement is not scanned again by the same variable
    assert_eq!(interpolate("{a}", &[("a", "{a}")]), "{a}");
    // but later variables see earlier replacements
    assert_eq!(interpolate("{a}", &[("a", "{b}"), ("b", "z")]), "z");
    assert_eq!(interpolate("{missing}", &[("a", "1")]), "{missing}");
    assert_eq!(interpolate("", &[("a", "1")]), "");
    assert_eq!(interpolate("{{a}}", &[("a", "1")]), "{1}");
    assert_eq!(interpolate("{}", &[("", "e")]), "e");
}

#[test]
fn replace_chars_matches_std_replace() {
    let cases = [("aaaa", "aa", "b"), ("abcabc", "bc", ""), ("xyz", "q", "r"), ("ab", "abc", "z")];
    for (s, p, r) in cases {
        let got: String = replace_chars(
            &s.chars().collect(),
            &p.chars().collect(),
            &r.chars().collect(),
        )
        .into_iter()
        .collect();
        assert_eq!(got, s.replace(p, r));
    }
}

#[test]
fn decimal_string_formats_like_display() {
    for n in [0i64, 7, 10, 99, 100, -1, -10, 123456789, i64::MAX, i64::MIN] {
        assert_eq!(decimal_string(n), n.to_string());
    }
}

#[test]
fn namespaced_key_joins_with_dot() {
    assert_eq!(namespaced_key("messages", "welcome"), "messages.welcome");
    assert_eq!(namespaced_key("", "k"), ".k");
}

#[test]
fn str_eq_compares_characters() {
    assert!(str_eq("abc", "abc"));
    assert!(!str_eq("abc", "abd"));
    assert!(!str_eq("ab", "abc"));
}

#[test]
fn plural_category_unknown_locale_is_english() {
    assert_eq!(plural_category("not a locale!", 1), "one");
    assert_eq!(plural_category("not a locale!", 2), "other");
    assert_eq!(plural_category("", 1), "one");
    assert_eq!(plural_category_value("ru", 3), PluralCategory::Few);
    assert_eq!(plural_category("ar", 0), "zero");
    assert_eq!(plural_category("ar", 2), "two");
    assert_eq!(plural_category("en", -1), "one");
}

#[test]
fn category_names_roundtrip() {
    for c in [
        PluralCategory::Zero,
        PluralCategory::One,
        PluralCategory::Two,
        PluralCategory::Few,
        PluralCategory::Many,
        PluralCategory::Other,
    ] {
        assert_eq!(category_from_name(c.as_str()), Some(c));
    }
    assert_eq!(category_from_name("several"), None);
}

#[test]
fn plural_forms_get_unknown_name_and_missing_other() {
    let pf = PluralForms {
        few: Some("few".to_string()),
        ..Default::default()
    };
    assert_eq!(pf.get("few"), Some("few"));
    assert_eq!(pf.get("one"), None);
    assert_eq!(pf.get("nonsense"), None);
    let pf2 = PluralForms {
        few: Some("few".to_string()),
        other: Some("other".to_string()),
        ..Default::default()
    };
    assert_eq!(pf2.get("nonsense"), Some("other"));
    assert_eq!(pf2.first(), Some("other"));
}

#[test]
fn render_plural_replaces_count() {
    let pf = PluralForms {
        many: Some("{count} many".to_string()),
        other: Some("{count} other".to_string()),
        ..Default::default()
    };
    assert_eq!(render_plural(&pf, PluralCategory::Many, 12), Some("12 many".to_string()));
    assert_eq!(render_plural(&pf, PluralCategory::One, 1), Some("1 other".to_string()));
    assert_eq!(render_plural(&PluralForms::default(), PluralCategory::One, 1), None);
}

#[test]
fn i18n_handle_reads_and_writes() {
    let mut i18n = I18n::new("ru".to_string(), Some("en".to_string()), sample_catalog());
    assert_eq!(i18n.locale(), "ru");
    assert_eq!(i18n.fallback_locale(), Some("en".to_string()));
    assert_eq!(i18n.t("greeting"), "Привет");
    assert_eq!(i18n.t("only_en"), "English only");
    assert_eq!(i18n.tp("files", 5), "5 файлов");
    assert_eq!(i18n.tf("welcome", &[("name", "Bo")]), "Welcome, Bo!");
    i18n.set_locale("en");
    assert_eq!(i18n.locale(), "en");
    assert_eq!(i18n.t("greeting"), "Hello");
    assert_eq!(i18n.tp("files", 1), "1 file");
    // a failed reload keeps the translations
    i18n.reload(None);
    assert_eq!(i18n.t("greeting"), "Hello");
    let mut fresh = Translations::new();
    fresh.insert("greeting".to_string(), text("Hi"));
    let mut cat = Catalog::new();
    cat.insert("en".to_string(), fresh);
    i18n.reload(Some(cat));
    assert_eq!(i18n.t("greeting"), "Hi");
    assert_eq!(i18n.t("only_en"), "only_en");
    assert_eq!(i18n.locale(), "en");
    assert_eq!(i18n.fallback_locale(), Some("en".to_string()));
}

#[test]
fn i18n_without_fallback() {
    let i18n = I18n::new("ru".to_string(), None, sample_catalog());
    assert_eq!(i18n.fallback_locale(), None);
    assert_eq!(i18n.t("only_en"), "only_en");
    assert_eq!(i18n.t(&namespaced_key("messages", "inbox")), "messages.inbox");
}

fn t(s: &str) -> TransPart {
    TransPart::Text(s.to_string())
}

#[test]
fn split_trans_slots_and_text() {
    assert_eq!(
        split_trans("Read the <0>terms</0> and <1>policy</1>.", 2),
        vec![t("Read the "), TransPart::Slot(0), t(" and "), TransPart::Slot(1), t(".")]
    );
    // a slot that does not exist shows the inner text
    assert_eq!(split_trans("<3>three</3>", 2), vec![t("three")]);
    // a tag that is no number shows the inner text
    assert_eq!(split_trans("<b>bold</b>!", 2), vec![t("bold"), t("!")]);
    // `+` is accepted as in `str::parse`
    assert_eq!(split_trans("<+1>x</+1>", 2), vec![TransPart::Slot(1)]);
    assert_eq!(split_trans("<01>x</01>", 2), vec![TransPart::Slot(1)]);
}

#[test]
fn split_trans_malformed_tags() {
    assert_eq!(split_trans("a < b", 1), vec![t("a "), t("<"), t(" b")]);
    assert_eq!(split_trans("<0>open", 1), vec![t("<"), t("0>open")]);
    assert_eq!(split_trans("x<", 1), vec![t("x"), t("<")]);
    assert_eq!(split_trans("", 1), Vec::<TransPart>::new());
    assert_eq!(split_trans("plain", 0), vec![t("plain")]);
    assert_eq!(split_trans("<0></0>", 0), vec![t("")]);
    assert_eq!(
        split_trans("<99999999999999999999999>big</99999999999999999999999>", 5),
        vec![t("big")]
    );
}

#[test]
fn parse_translation_json_rules() {
    let map = parse_translation_json(
        r#"{"a":{"b":{"c":"deep"}},"p":{"few":"f","many":"m"},"mixed":{"one":"1","x":"y"},"empty":{}}"#,
    )
    .unwrap();
    assert_eq!(map.get("a.b.c"), Some(&TranslationValue::String("deep".to_string())));
    match map.get("p") {
        Some(TranslationValue::Plural(pf)) => {
            assert_eq!(pf.few, Some("f".to_string()));
            assert_eq!(pf.many, Some("m".to_string()));
            assert_eq!(pf.other, None);
        }
        other => panic!("expected plural form, got {:?}", other),
    }
    // an object with a name that is no plural category is flattened
    assert_eq!(map.get("mixed.one"), Some(&TranslationValue::String("1".to_string())));
    assert_eq!(map.get("mixed.x"), Some(&TranslationValue::String("y".to_string())));
    assert!(map.get("mixed").is_none());
    assert!(map.get("empty").is_none());
}

#[test]
fn parse_translation_json_errors() {
    assert!(parse_translation_json("not json").is_err());
    assert!(parse_translation_json(r#"["a"]"#).is_err());
    assert!(parse_translation_json(r#""text""#).is_err());
    assert!(parse_translation_json(r#"{"n":1}"#).is_err());
    assert!(parse_translation_json(r#"{"a":{"b":[1]}}"#).is_err());
    assert!(parse_translation_json(r#"{"a":null}"#).is_err());
    assert!(parse_translation_json(r#"{"one":{"other":true}}"#).is_err());
    assert!(parse_translation_json("{}").unwrap().get("x").is_none());
}

#[test]
fn parsed_translations_resolve() {
    let mut cat = Catalog::new();
    cat.insert(
        "en".to_string(),
        parse_translation_json(r#"{"items":{"one":"{count} item","other":"{count} items"}}"#).unwrap(),
    );
    assert_eq!(resolve_tp(&cat, "en", None, "items", 1), "1 item");
    assert_eq!(resolve_tp(&cat, "en", None, "items", 4), "4 items");
}

#[test]
fn unparseable_locale_uses_english_rules() {
    assert_eq!(plural_category("@@@", 1), "one");
    assert_eq!(plural_category("@@@", 2), "other");
    assert_eq!(plural_category("e", 1), "one");
}
