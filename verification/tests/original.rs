use dioxus_i18n_json::{
    interpolate, parse_translation_json, plural_category, resolve_t, resolve_tf, resolve_tp,
    Catalog, PluralForms, TranslationValue, Translations,
};

#[test]
fn test_interpolate() {
    assert_eq!(
        interpolate("Hello, {name}!", &[("name", "Alice")]),
        "Hello, Alice!"
    );
    assert_eq!(
        interpolate("{a} and {b}", &[("a", "1"), ("b", "2")]),
        "1 and 2"
    );
    assert_eq!(interpolate("No placeholders", &[]), "No placeholders");
}

#[test]
fn test_plural_category_english() {
    assert_eq!(plural_category("en", 1), "one");
    assert_eq!(plural_category("en", 0), "other");
    assert_eq!(plural_category("en", 5), "other");
    assert_eq!(plural_category("en", 11), "other");
}

#[test]
fn test_plural_category_russian() {
    // Russian: one → 1, 21, 31...; few → 2-4, 22-24...; many → 0, 5-20, 25-30...
    assert_eq!(plural_category("ru", 1), "one");
    assert_eq!(plural_category("ru", 2), "few");
    assert_eq!(plural_category("ru", 5), "many");
    assert_eq!(plural_category("ru", 11), "many");
    assert_eq!(plural_category("ru", 21), "one");
    assert_eq!(plural_category("ru", 22), "few");
}

#[test]
fn test_parse_translation_json_flattening() {
    let json = r#"{"greeting":"Hello","messages":{"welcome":"Welcome"}}"#;
    let map = parse_translation_json(json).unwrap();
    assert_eq!(
        map.get("greeting"),
        Some(&TranslationValue::String("Hello".to_string()))
    );
    assert_eq!(
        map.get("messages.welcome"),
        Some(&TranslationValue::String("Welcome".to_string()))
    );
}

#[test]
fn test_parse_translation_json_plural_object() {
    let json = r#"{"itemCount":{"one":"1 item","other":"{count} items"}}"#;
    let map = parse_translation_json(json).unwrap();
    match map.get("itemCount") {
        Some(TranslationValue::Plural(pf)) => {
            assert_eq!(pf.one, Some("1 item".to_string()));
            assert_eq!(pf.other, Some("{count} items".to_string()));
        }
        other => panic!("expected plural form, got {:?}", other),
    }
}

#[test]
fn test_plural_forms_get() {
    let pf = PluralForms {
        one: Some("one item".to_string()),
        other: Some("{count} items".to_string()),
        ..Default::default()
    };

    assert_eq!(pf.get("one"), Some("one item"));
    assert_eq!(pf.get("other"), Some("{count} items"));
    assert_eq!(pf.get("few"), Some("{count} items")); // falls back to other
}

#[test]
fn test_fallback_locale_t() {
    let mut translations = Catalog::new();
    let mut en = Translations::new();
    en.insert(
        "greeting".to_string(),
        TranslationValue::String("Hello".to_string()),
    );
    en.insert(
        "missing_in_es".to_string(),
        TranslationValue::String("Fallback".to_string()),
    );

    let mut es = Translations::new();
    es.insert(
        "greeting".to_string(),
        TranslationValue::String("Hola".to_string()),
    );

    translations.insert("en".to_string(), en);
    translations.insert("es".to_string(), es);

    assert_eq!(
        resolve_t(&translations, "es", Some("en"), "greeting"),
        "Hola"
    );
    assert_eq!(
        resolve_t(&translations, "es", Some("en"), "missing_in_es"),
        "Fallback"
    );
    assert_eq!(
        resolve_t(&translations, "es", Some("en"), "missing_everywhere"),
        "missing_everywhere"
    );
    // no fallback configured
    assert_eq!(
        resolve_t(&translations, "es", None, "missing_in_es"),
        "missing_in_es"
    );
}

#[test]
fn test_fallback_locale_tf() {
    let mut translations = Catalog::new();
    let mut en = Translations::new();
    en.insert(
        "hello".to_string(),
        TranslationValue::String("Hello, {name}".to_string()),
    );

    let mut es = Translations::new();
    es.insert(
        "greeting".to_string(),
        TranslationValue::String("Hola".to_string()),
    );

    translations.insert("en".to_string(), en);
    translations.insert("es".to_string(), es);

    assert_eq!(
        resolve_tf(
            &translations,
            "es",
            Some("en"),
            "hello",
            &[("name", "Alice")]
        ),
        "Hello, Alice"
    );
    assert_eq!(
        resolve_tf(&translations, "es", Some("en"), "missing_everywhere", &[]),
        "missing_everywhere"
    );
}

#[test]
fn test_fallback_locale_tp() {
    let mut translations = Catalog::new();
    let en = PluralForms {
        one: Some("1 item".to_string()),
        other: Some("{count} items".to_string()),
        ..Default::default()
    };
    let mut en_map = Translations::new();
    en_map.insert("itemCount".to_string(), TranslationValue::Plural(en));

    translations.insert("en".to_string(), en_map);
    translations.insert("es".to_string(), Translations::new());

    assert_eq!(
        resolve_tp(&translations, "es", Some("en"), "itemCount", 1),
        "1 item"
    );
    assert_eq!(
        resolve_tp(&translations, "es", Some("en"), "itemCount", 5),
        "5 items"
    );
    assert_eq!(
        resolve_tp(&translations, "es", Some("en"), "missing_everywhere", 1),
        "missing_everywhere"
    );
}
