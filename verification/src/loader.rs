//! Translation files: a JSON object whose nested objects give dotted keys
//! and whose objects of plural category names give plural translations.

use vstd::prelude::*;

use crate::json::{json_of, parse_json, Json, JsonView};
use crate::plural::{category_from_name, category_named, PluralCategory, PluralForms, PluralFormsView};
use crate::resolve::{TranslationValue, TranslationValueView, Translations};
use crate::store::StrMap;
use crate::text::{chars_of, push_all, string_of};

verus! {

// ---------------------------------------------------------------------------
// Specification
// ---------------------------------------------------------------------------

/// `m` after inserting the pairs of `s` in order.
pub open spec fn insert_all<K, V>(m: Map<K, V>, s: Seq<(K, V)>) -> Map<K, V>
    decreases s.len(),
{
    if s.len() == 0 {
        m
    } else {
        insert_all(m, s.drop_last()).insert(s.last().0, s.last().1)
    }
}

/// The key of member `k` under the path `prefix` (none at the top level).
pub open spec fn key_path(prefix: Option<Seq<char>>, k: Seq<char>) -> Seq<char> {
    match prefix {
        Some(p) => p + seq!['.'] + k,
        None => k,
    }
}

/// An object whose members are all named by plural categories and all
/// strings, and which has at least one member.
pub open spec fn is_plural_object(f: Seq<(Seq<char>, JsonView)>) -> bool {
    &&& f.len() > 0
    &&& forall|i: int|
        0 <= i < f.len() ==> category_named(#[trigger] f[i].0) is Some && f[i].1 is Str
}

/// Plural forms with no text.
pub open spec fn no_forms() -> PluralFormsView {
    PluralFormsView { zero: None, one: None, two: None, few: None, many: None, other: None }
}

/// `pf` with the text of category `c` set to `s`.
pub open spec fn set_form(pf: PluralFormsView, c: PluralCategory, s: Seq<char>) -> PluralFormsView {
    PluralFormsView {
        zero: if c is Zero {
            Some(s)
        } else {
            pf.zero
        },
        one: if c is One {
            Some(s)
        } else {
            pf.one
        },
        two: if c is Two {
            Some(s)
        } else {
            pf.two
        },
        few: if c is Few {
            Some(s)
        } else {
            pf.few
        },
        many: if c is Many {
            Some(s)
        } else {
            pf.many
        },
        other: if c is Other {
            Some(s)
        } else {
            pf.other
        },
    }
}

/// The plural forms that the members of a plural object give, a later
/// member for a category replacing an earlier one.
pub open spec fn forms_of(f: Seq<(Seq<char>, JsonView)>) -> PluralFormsView
    decreases f.len(),
{
    if f.len() == 0 {
        no_forms()
    } else {
        match (category_named(f.last().0), f.last().1) {
            (Some(c), JsonView::Str(s)) => set_form(forms_of(f.drop_last()), c, s),
            _ => forms_of(f.drop_last()),
        }
    }
}

/// The translations that the value `v` at key `path` gives, in order: a
/// string is a plain translation; a plural object is a plural translation;
/// another object gives the translations of its members under `path.`.
pub open spec fn flat_value(path: Seq<char>, v: JsonView) -> Seq<(Seq<char>, TranslationValueView)>
    decreases v,
{
    match v {
        JsonView::Str(s) => seq![(path, TranslationValueView::Text(s))],
        JsonView::Object(f) => if is_plural_object(f) {
            seq![(path, TranslationValueView::Plural(forms_of(f)))]
        } else {
            flat_fields(Some(path), f)
        },
        _ => Seq::empty(),
    }
}

/// The translations that the members `f` of an object under `prefix` give.
pub open spec fn flat_fields(prefix: Option<Seq<char>>, f: Seq<(Seq<char>, JsonView)>) -> Seq<
    (Seq<char>, TranslationValueView),
>
    decreases f,
{
    if f.len() == 0 {
        Seq::empty()
    } else {
        flat_fields(prefix, f.drop_last()) + flat_value(key_path(prefix, f.last().0), f.last().1)
    }
}

/// A value that a translation file may hold: a string, or an object whose
/// members (unless it is a plural object) are such values too.
pub open spec fn value_ok(v: JsonView) -> bool
    decreases v,
{
    match v {
        JsonView::Str(_) => true,
        JsonView::Object(f) => is_plural_object(f) || fields_ok(f),
        _ => false,
    }
}

/// All members of an object are values that a translation file may hold.
pub open spec fn fields_ok(f: Seq<(Seq<char>, JsonView)>) -> bool
    decreases f,
{
    if f.len() == 0 {
        true
    } else {
        fields_ok(f.drop_last()) && value_ok(f.last().1)
    }
}

/// A translation file: an object of values that a translation file may hold.
pub open spec fn well_formed(v: JsonView) -> bool {
    match v {
        JsonView::Object(f) => fields_ok(f),
        _ => false,
    }
}

/// The translations of a file: every translation of its members, a later
/// one for a key replacing an earlier one.
pub open spec fn flattened(v: JsonView) -> Map<Seq<char>, TranslationValueView> {
    match v {
        JsonView::Object(f) => insert_all(Map::empty(), flat_fields(None, f)),
        _ => Map::empty(),
    }
}

proof fn lemma_insert_all_append<K, V>(m: Map<K, V>, a: Seq<(K, V)>, b: Seq<(K, V)>)
    ensures
        insert_all(m, a + b) == insert_all(insert_all(m, a), b),
    decreases b.len(),
{
    if b.len() == 0 {
        assert(a + b =~= a);
    } else {
        lemma_insert_all_append(m, a, b.drop_last());
        assert((a + b).drop_last() =~= a + b.drop_last());
    }
}

// ---------------------------------------------------------------------------
// Implementation
// ---------------------------------------------------------------------------

/// The members of an object as views.
pub open spec fn members_view(o: Seq<(String, Json)>) -> Seq<(Seq<char>, JsonView)> {
    Seq::new(
        o.len(),
        |i: int|
            if 0 <= i < o.len() {
                (o[i].0@, o[i].1@)
            } else {
                (Seq::empty(), JsonView::Null)
            },
    )
}

proof fn lemma_object_view(o: Vec<(String, Json)>)
    ensures
        Json::Object(o)@ == JsonView::Object(members_view(o@)),
{
    assert(members_view(o@) =~= (match Json::Object(o)@ {
        JsonView::Object(f) => f,
        _ => Seq::empty(),
    }));
}

fn is_plural_members(o: &Vec<(String, Json)>) -> (r: bool)
    ensures
        r == is_plural_object(members_view(o@)),
{
    let ghost f = members_view(o@);
    if o.len() == 0 {
        return false;
    }
    let mut i: usize = 0;
    while i < o.len()
        invariant
            i <= o.len(),
            f == members_view(o@),
            forall|j: int| 0 <= j < i ==> category_named(#[trigger] f[j].0) is Some && f[j].1 is Str,
        decreases o.len() - i,
    {
        let c = category_from_name(o[i].0.as_str());
        let is_str = match &o[i].1 {
            Json::Str(_) => true,
            _ => false,
        };
        if c.is_none() || !is_str {
            assert(!(category_named(f[i as int].0) is Some && f[i as int].1 is Str));
            return false;
        }
        i = i + 1;
    }
    true
}

fn forms_from(o: &Vec<(String, Json)>) -> (r: PluralForms)
    ensures
        r@ == forms_of(members_view(o@)),
{
    let ghost f = members_view(o@);
    let mut pf = PluralForms::default();
    let mut i: usize = 0;
    assert(f.take(0) =~= Seq::<(Seq<char>, JsonView)>::empty());
    while i < o.len()
        invariant
            i <= o.len(),
            f == members_view(o@),
            pf@ == forms_of(f.take(i as int)),
        decreases o.len() - i,
    {
        assert(f.take(i + 1).drop_last() =~= f.take(i as int));
        assert(f.take(i + 1).last() == f[i as int]);
        match (category_from_name(o[i].0.as_str()), &o[i].1) {
            (Some(c), Json::Str(s)) => {
                let t = Some(s.clone());
                match c {
                    PluralCategory::Zero => pf.zero = t,
                    PluralCategory::One => pf.one = t,
                    PluralCategory::Two => pf.two = t,
                    PluralCategory::Few => pf.few = t,
                    PluralCategory::Many => pf.many = t,
                    PluralCategory::Other => pf.other = t,
                }
            },
            _ => {},
        }
        i = i + 1;
    }
    assert(f.take(o.len() as int) =~= f);
    pf
}

fn member_path(prefix: Option<&Vec<char>>, k: &str) -> (r: Vec<char>)
    ensures
        r@ == key_path(
            match prefix {
                Some(p) => Some(p@),
                None => None,
            },
            k@,
        ),
{
    match prefix {
        Some(p) => {
            let mut r = p.clone();
            assert(r@ =~= p@);
            r.push('.');
            let kc = chars_of(k);
            push_all(&mut r, &kc);
            assert(r@ =~= p@ + seq!['.'] + k@);
            r
        },
        None => chars_of(k),
    }
}

fn unsupported(path: &Vec<char>) -> String {
    let mut m = chars_of("unsupported translation value at key ");
    push_all(&mut m, path);
    string_of(&m)
}

/// Adds the translations of the value `v` at key `path` to `out`.
fn add_value(out: &mut Translations, path: &Vec<char>, v: &Json) -> (r: Result<(), String>)
    ensures
        r is Ok <==> value_ok(v@),
        r is Ok ==> final(out)@ == insert_all(old(out)@, flat_value(path@, v@)),
    decreases v,
{
    match v {
        Json::Str(s) => {
            let ghost e = (path@, TranslationValueView::Text(s@));
            assert(seq![e].drop_last() =~= Seq::<(Seq<char>, TranslationValueView)>::empty());
            assert(insert_all(out@, seq![e]) == insert_all(out@, Seq::empty()).insert(e.0, e.1));
            assert(v@ == JsonView::Str(s@));
            out.insert(string_of(path), TranslationValue::String(s.clone()));
            Ok(())
        },
        Json::Object(o) => {
            proof {
                lemma_object_view(*o);
            }
            if is_plural_members(o) {
                let pf = forms_from(o);
                let ghost e = (path@, TranslationValueView::Plural(pf@));
                assert(seq![e].drop_last() =~= Seq::<(Seq<char>, TranslationValueView)>::empty());
                assert(insert_all(out@, seq![e]) == insert_all(out@, Seq::empty()).insert(
                    e.0,
                    e.1,
                ));
                out.insert(string_of(path), TranslationValue::Plural(pf));
                Ok(())
            } else {
                add_members(out, Some(path), o)
            }
        },
        _ => Err(unsupported(path)),
    }
}

/// Adds the translations of the members `o` of an object under `prefix`.
fn add_members(out: &mut Translations, prefix: Option<&Vec<char>>, o: &Vec<(String, Json)>) -> (r:
    Result<(), String>)
    ensures
        r is Ok <==> fields_ok(members_view(o@)),
        r is Ok ==> final(out)@ == insert_all(
            old(out)@,
            flat_fields(
                match prefix {
                    Some(p) => Some(p@),
                    None => None,
                },
                members_view(o@),
            ),
        ),
    decreases o,
{
    let ghost f = members_view(o@);
    let ghost pre = match prefix {
        Some(p) => Some(p@),
        None => None,
    };
    let mut i: usize = 0;
    assert(f.take(0) =~= Seq::<(Seq<char>, JsonView)>::empty());
    while i < o.len()
        invariant
            i <= o.len(),
            f == members_view(o@),
            pre == (match prefix {
                Some(p) => Some(p@),
                None => None,
            }),
            fields_ok(f.take(i as int)),
            out@ == insert_all(old(out)@, flat_fields(pre, f.take(i as int))),
        decreases o.len() - i,
    {
        let ghost before = out@;
        assert(f.take(i + 1).drop_last() =~= f.take(i as int));
        assert(f.take(i + 1).last() == f[i as int]);
        let path = member_path(prefix, o[i].0.as_str());
        assert(decreases_to!(o => o@[i as int].1));
        match add_value(out, &path, &o[i].1) {
            Ok(()) => {},
            Err(e) => {
                proof {
                    if fields_ok(f) {
                        lemma_fields_ok_prefix(f, i as int + 1);
                    }
                }
                return Err(e);
            },
        }
        proof {
            lemma_insert_all_append(
                old(out)@,
                flat_fields(pre, f.take(i as int)),
                flat_value(key_path(pre, f[i as int].0), f[i as int].1),
            );
        }
        i = i + 1;
    }
    assert(f.take(o.len() as int) =~= f);
    Ok(())
}

proof fn lemma_fields_ok_prefix(f: Seq<(Seq<char>, JsonView)>, j: int)
    requires
        0 <= j <= f.len(),
        fields_ok(f),
    ensures
        fields_ok(f.take(j)),
    decreases f.len(),
{
    if j < f.len() {
        lemma_fields_ok_prefix(f.drop_last(), j);
        assert(f.drop_last().take(j) =~= f.take(j));
    } else {
        assert(f.take(j) =~= f);
    }
}

proof fn lemma_insert_all_empty<V>(s: Seq<(Seq<char>, V)>)
    ensures
        insert_all(Map::empty(), s) == crate::store::assoc_map(s),
    decreases s.len(),
{
    if s.len() > 0 {
        lemma_insert_all_empty(s.drop_last());
    }
}

/// The translations that the JSON value `v` gives as a translation file:
/// `Err` exactly when `v` is not an object of strings, plural objects and
/// such objects.
pub fn translations_of(v: &Json) -> (r: Result<Translations, String>)
    ensures
        r is Ok <==> well_formed(v@),
        r matches Ok(m) ==> m@ == flattened(v@),
{
    match v {
        Json::Object(o) => {
            proof {
                lemma_object_view(*o);
            }
            let mut out: Translations = StrMap::new();
            match add_members(&mut out, None, o) {
                Ok(()) => Ok(out),
                Err(e) => Err(e),
            }
        },
        _ => {
            let m = chars_of("a translation file must hold a JSON object");
            Err(string_of(&m))
        },
    }
}

/// Reads a translation file: JSON text whose nested objects give dotted
/// keys (`{"a":{"b":"x"}}` gives `a.b`) and whose objects of plural
/// category names give plural translations. `Err` when the text is no JSON,
/// or not an object of strings, plural objects and such objects.
pub fn parse_translation_json(text: &str) -> (r: Result<Translations, String>)
    ensures
        match json_of(text@) {
            Some(j) => (r is Ok <==> well_formed(j)) && (r matches Ok(m) ==> m@ == flattened(j)),
            None => r is Err,
        },
{
    match parse_json(text) {
        Some(j) => translations_of(&j),
        None => {
            let m = chars_of("invalid JSON");
            Err(string_of(&m))
        },
    }
}

} // verus!
