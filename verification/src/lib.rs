//! Internationalization for Dioxus applications: translations by locale and
//! key, a fallback locale, `{name}` interpolation, CLDR plural selection and
//! component placeholders.

pub mod handle;
pub mod json;
pub mod laws;
pub mod laws_forms;
pub mod loader;
pub mod plural;
pub mod resolve;
pub mod store;
pub mod text;
pub mod trans;

pub use handle::I18n;
pub use json::Json;
pub use loader::{parse_translation_json, translations_of};
pub use plural::{plural_category, PluralCategory, PluralForms};
pub use resolve::{
    resolve_t, resolve_tf, resolve_tp, resolve_value, Catalog, TranslationValue, Translations,
};
pub use store::StrMap;
pub use text::{interpolate, namespaced_key};
pub use trans::{split_trans, TransPart};
