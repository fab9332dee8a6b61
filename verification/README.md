# dioxus-i18n-json

Translations for Dioxus applications, with the lookup logic verified by Verus.

- `src/store.rs`: `StrMap`, a string-keyed map whose view is a `Map` over character sequences.
- `src/text.rs`: `{name}` interpolation (`str::replace` semantics), decimal formatting, namespaced keys.
- `src/plural.rs`: CLDR plural categories (through ICU4X) and plural forms.
- `src/resolve.rs`: lookup with fallback locale for `t`, `tp` and `tf`.
- `src/json.rs`: a plain JSON model, filled by serde_json.
- `src/loader.rs`: translation files (dotted keys from nested objects, plural objects).
- `src/handle.rs`: the i18n state (`I18n`).
- `src/trans.rs`: splitting texts with `<0>...</0>` component placeholders.
- `src/laws.rs`: properties of the library as a whole.
- `app/`: the Dioxus side: signal-backed handle, directory loading, provider, hooks, `Trans` component, file watcher.
