//! JSON values as the library reads and builds them, with parsing and
//! printing done by `serde_json`.

use vstd::prelude::*;

verus! {

/// A JSON value. A number is held as the text `serde_json` prints for it;
/// an object as its entries, in the order `serde_json` gives them.
#[derive(Debug)]
pub enum Json {
    Null,
    Bool(bool),
    Number(String),
    Str(String),
    Array(Vec<Json>),
    Object(Vec<(String, Json)>),
}

/// The mathematical view of a JSON value: strings as character sequences.
pub enum JsonView {
    Null,
    Bool(bool),
    Number(Seq<char>),
    Str(Seq<char>),
    Array(Seq<JsonView>),
    Object(Seq<(Seq<char>, JsonView)>),
}

/// The views of a sequence of values.
pub open spec fn view_items(s: Seq<Json>) -> Seq<JsonView>
    decreases s,
{
    if s.len() == 0 {
        Seq::empty()
    } else {
        view_items(s.drop_last()).push(json_view(s.last()))
    }
}

/// The views of a sequence of object entries.
pub open spec fn view_entries(s: Seq<(String, Json)>) -> Seq<(Seq<char>, JsonView)>
    decreases s,
{
    if s.len() == 0 {
        Seq::empty()
    } else {
        view_entries(s.drop_last()).push((s.last().0@, json_view(s.last().1)))
    }
}

/// The view of a JSON value.
pub open spec fn json_view(j: Json) -> JsonView
    decreases j,
{
    match j {
        Json::Null => JsonView::Null,
        Json::Bool(b) => JsonView::Bool(b),
        Json::Number(t) => JsonView::Number(t@),
        Json::Str(s) => JsonView::Str(s@),
        Json::Array(v) => JsonView::Array(view_items(v@)),
        Json::Object(es) => JsonView::Object(view_entries(es@)),
    }
}

impl View for Json {
    type V = JsonView;

    open spec fn view(&self) -> JsonView {
        json_view(*self)
    }
}

pub proof fn lemma_view_items(s: Seq<Json>)
    ensures
        view_items(s).len() == s.len(),
        forall|i: int| 0 <= i < s.len() ==> #[trigger] view_items(s)[i] == json_view(s[i]),
    decreases s.len(),
{
    if s.len() > 0 {
        lemma_view_items(s.drop_last());
        assert forall|i: int| 0 <= i < s.len() implies #[trigger] view_items(s)[i] == json_view(s[i]) by {
            if i < s.len() - 1 {
                assert(s.drop_last()[i] == s[i]);
            }
        }
    }
}

pub proof fn lemma_view_entries(s: Seq<(String, Json)>)
    ensures
        view_entries(s).len() == s.len(),
        forall|i: int| 0 <= i < s.len() ==> #[trigger] view_entries(s)[i] == (s[i].0@, json_view(s[i].1)),
    decreases s.len(),
{
    if s.len() > 0 {
        lemma_view_entries(s.drop_last());
        assert forall|i: int| 0 <= i < s.len() implies #[trigger] view_entries(s)[i] == (s[i].0@, json_view(s[i].1)) by {
            if i < s.len() - 1 {
                assert(s.drop_last()[i] == s[i]);
            }
        }
    }
}

#[verifier::external_type_specification]
#[verifier::external_body]
pub struct ExValue(serde_json::Value);

/// Turns a `serde_json::Value` into a `Json`, variant for variant (numbers
/// by their printed text).
#[verifier::external_body]
fn json_from_value(v: serde_json::Value) -> Json {
    match v {
        serde_json::Value::Null => Json::Null,
        serde_json::Value::Bool(b) => Json::Bool(b),
        serde_json::Value::Number(n) => Json::Number(n.to_string()),
        serde_json::Value::String(s) => Json::Str(s),
        serde_json::Value::Array(a) => Json::Array(a.into_iter().map(json_from_value).collect()),
        serde_json::Value::Object(o) => Json::Object(o.into_iter().map(|(k, x)| (k, json_from_value(x))).collect()),
    }
}

/// Turns a `Json` into a `serde_json::Value`, variant for variant; a number
/// whose text `serde_json` does not read as a number becomes `null`.
#[verifier::external_body]
pub(crate) fn value_from_json(j: &Json) -> serde_json::Value {
    match j {
        Json::Null => serde_json::Value::Null,
        Json::Bool(b) => serde_json::Value::Bool(*b),
        Json::Number(t) => serde_json::from_str::<serde_json::Number>(t).map_or(serde_json::Value::Null, serde_json::Value::Number),
        Json::Str(s) => serde_json::Value::String(s.clone()),
        Json::Array(a) => serde_json::Value::Array(a.iter().map(value_from_json).collect()),
        Json::Object(o) => serde_json::Value::Object(o.iter().map(|(k, x)| (k.clone(), value_from_json(x))).collect()),
    }
}

/// The value `serde_json::from_str::<serde_json::Value>` reads from `text`;
/// `None` where the text is no JSON.
pub uninterp spec fn json_parse(text: Seq<char>) -> Option<JsonView>;

/// Parses `text` as JSON with `serde_json::from_str`.
#[verifier::external_body]
pub(crate) fn parse_json(text: &str) -> (r: Option<Json>)
    ensures
        r is None <==> json_parse(text@) is None,
        r matches Some(j) ==> json_parse(text@) == Some(j@),
{
    match serde_json::from_str::<serde_json::Value>(text) {
        Ok(v) => Some(json_from_value(v)),
        Err(_) => None,
    }
}

/// The compact text `serde_json` prints (`Value::to_string`) for `j`.
pub uninterp spec fn json_text(j: JsonView) -> Seq<char>;

/// Prints `j` as compact JSON with `serde_json`.
#[verifier::external_body]
pub(crate) fn to_json_text(j: &Json) -> (r: String)
    ensures
        r@ == json_text(j@),
{
    value_from_json(j).to_string()
}

/// Entry `i` is the first of `es` with key `key`.
pub open spec fn first_key_index(es: Seq<(Seq<char>, JsonView)>, key: Seq<char>, i: int) -> bool {
    &&& 0 <= i < es.len()
    &&& es[i].0 == key
    &&& forall|j: int| 0 <= j < i ==> (#[trigger] es[j]).0 != key
}

/// The entry of an object with key `key` (the first, should the key repeat);
/// `None` for a missing key or a value that is no object.
pub open spec fn field(v: JsonView, key: Seq<char>) -> Option<JsonView> {
    match v {
        JsonView::Object(es) => if exists|i: int| first_key_index(es, key, i) {
            Some(es[choose|i: int| first_key_index(es, key, i)].1)
        } else {
            None
        },
        _ => None,
    }
}

/// The string a JSON string holds.
pub open spec fn str_of(v: JsonView) -> Option<Seq<char>> {
    match v {
        JsonView::Str(s) => Some(s),
        _ => None,
    }
}

/// The boolean a JSON boolean holds.
pub open spec fn bool_of(v: JsonView) -> Option<bool> {
    match v {
        JsonView::Bool(b) => Some(b),
        _ => None,
    }
}

/// The items of a JSON array.
pub open spec fn items_of(v: JsonView) -> Option<Seq<JsonView>> {
    match v {
        JsonView::Array(a) => Some(a),
        _ => None,
    }
}

/// The value is a JSON object.
pub open spec fn is_object(v: JsonView) -> bool {
    v is Object
}

pub fn find_key(es: &Vec<(String, Json)>, key: &str) -> (r: Option<usize>)
    ensures
        r is None ==> !exists|i: int| first_key_index(view_entries(es@), key@, i),
        r matches Some(i) ==> first_key_index(view_entries(es@), key@, i as int),
{
    proof {
        lemma_view_entries(es@);
    }
    let n = es.len();
    let mut i: usize = 0;
    while i < n
        invariant
            n == es@.len(),
            i <= n,
            forall|j: int| 0 <= j < i ==> (#[trigger] view_entries(es@)[j]).0 != key@,
            view_entries(es@).len() == n,
            forall|j: int| 0 <= j < n ==> #[trigger] view_entries(es@)[j] == (es@[j].0@, json_view(es@[j].1)),
        decreases n - i,
    {
        if str_eq(es[i].0.as_str(), key) {
            return Some(i);
        }
        i = i + 1;
    }
    None
}

/// Whether the two strings hold the same characters.
pub fn str_eq(a: &str, b: &str) -> (r: bool)
    ensures
        r == (a@ == b@),
{
    let x = crate::text::chars_of(a);
    let y = crate::text::chars_of(b);
    if x.len() != y.len() {
        return false;
    }
    let mut i: usize = 0;
    while i < x.len()
        invariant
            x@ == a@,
            y@ == b@,
            x@.len() == y@.len(),
            i <= x@.len(),
            forall|j: int| 0 <= j < i ==> x@[j] == y@[j],
        decreases x@.len() - i,
    {
        if x[i] != y[i] {
            proof {
                assert(a@[i as int] != b@[i as int]);
            }
            return false;
        }
        i = i + 1;
    }
    proof {
        assert(x@ =~= y@);
    }
    true
}

pub proof fn lemma_field_at(ve: Seq<(Seq<char>, JsonView)>, key: Seq<char>, i: int)
    requires
        first_key_index(ve, key, i),
    ensures
        field(JsonView::Object(ve), key) == Some(ve[i].1),
{
    lemma_first_key_unique(ve, key, i);
}

pub proof fn lemma_first_key_unique(es: Seq<(Seq<char>, JsonView)>, key: Seq<char>, i: int)
    requires
        first_key_index(es, key, i),
    ensures
        (choose|k: int| first_key_index(es, key, k)) == i,
{
    let c = choose|k: int| first_key_index(es, key, k);
    assert(first_key_index(es, key, c));
    if c < i {
        assert(es[c].0 != key);
    }
    if c > i {
        assert(es[i].0 != key);
    }
}

/// The entry of an object with key `key`.
pub fn get_field<'a>(v: &'a Json, key: &str) -> (r: Option<&'a Json>)
    ensures
        r is None <==> field(v@, key@) is None,
        r matches Some(x) ==> field(v@, key@) == Some(x@),
{
    match v {
        Json::Object(es) => match find_key(es, key) {
            Some(i) => {
                proof {
                    lemma_view_entries(es@);
                    assert(v@ == JsonView::Object(view_entries(es@)));
                    lemma_field_at(view_entries(es@), key@, i as int);
                }
                Some(&es[i].1)
            },
            None => {
                proof {
                    assert(v@ == JsonView::Object(view_entries(es@)));
                }
                None
            },
        },
        _ => None,
    }
}

/// Takes the entry with key `key` out of an object, giving its value.
pub fn take_field(v: Json, key: &str) -> (r: Option<Json>)
    ensures
        r is None <==> field(v@, key@) is None,
        r matches Some(x) ==> field(v@, key@) == Some(x@),
{
    match v {
        Json::Object(es) => match find_key(&es, key) {
            Some(i) => {
                proof {
                    lemma_view_entries(es@);
                    assert(v@ == JsonView::Object(view_entries(es@)));
                    lemma_field_at(view_entries(es@), key@, i as int);
                }
                let mut es = es;
                let (_, x) = es.remove(i);
                Some(x)
            },
            None => {
                proof {
                    assert(v@ == JsonView::Object(view_entries(es@)));
                }
                None
            },
        },
        _ => None,
    }
}

/// The string a JSON string holds.
pub fn as_str(v: &Json) -> (r: Option<&String>)
    ensures
        r is None <==> str_of(v@) is None,
        r matches Some(s) ==> str_of(v@) == Some(s@),
{
    match v {
        Json::Str(s) => Some(s),
        _ => None,
    }
}

/// The boolean a JSON boolean holds.
pub fn as_bool(v: &Json) -> (r: Option<bool>)
    ensures
        r == bool_of(v@),
{
    match v {
        Json::Bool(b) => Some(*b),
        _ => None,
    }
}

/// The items of a JSON array.
pub fn as_array(v: &Json) -> (r: Option<&Vec<Json>>)
    ensures
        r is None <==> items_of(v@) is None,
        r matches Some(a) ==> items_of(v@) == Some(view_items(a@)),
{
    match v {
        Json::Array(a) => Some(a),
        _ => None,
    }
}

/// Whether the value is a JSON object.
pub fn is_object_exec(v: &Json) -> (r: bool)
    ensures
        r == is_object(v@),
{
    match v {
        Json::Object(_) => true,
        _ => false,
    }
}

/// A copy of the value.
pub fn json_clone(v: &Json) -> (r: Json)
    ensures
        r@ == v@,
    decreases v,
{
    match v {
        Json::Null => Json::Null,
        Json::Bool(b) => Json::Bool(*b),
        Json::Number(t) => Json::Number(t.clone()),
        Json::Str(t) => Json::Str(t.clone()),
        Json::Array(a) => {
            let mut out: Vec<Json> = Vec::new();
            let n = a.len();
            let mut i: usize = 0;
            while i < n
                invariant
                    *v == Json::Array(*a),
                    n == a@.len(),
                    i <= n,
                    view_items(out@) == view_items(a@.take(i as int)),
                decreases n - i,
            {
                proof {
                    assert(decreases_to!(*v => (*v)->Array_0));
                    assert((*v)->Array_0 == *a);
                    assert(decreases_to!(*a => a@));
                    assert(decreases_to!(a@ => a@[i as int]));
                }
                let x = json_clone(&a[i]);
                let ghost before = out@;
                out.push(x);
                proof {
                    assert(out@.drop_last() =~= before);
                    assert(a@.take(i + 1).drop_last() =~= a@.take(i as int));
                }
                i = i + 1;
            }
            proof {
                assert(a@.take(n as int) =~= a@);
            }
            Json::Array(out)
        },
        Json::Object(es) => {
            let mut out: Vec<(String, Json)> = Vec::new();
            let n = es.len();
            let mut i: usize = 0;
            while i < n
                invariant
                    *v == Json::Object(*es),
                    n == es@.len(),
                    i <= n,
                    view_entries(out@) == view_entries(es@.take(i as int)),
                decreases n - i,
            {
                proof {
                    assert(decreases_to!(*v => (*v)->Object_0));
                    assert((*v)->Object_0 == *es);
                    assert(decreases_to!(*es => es@));
                    assert(decreases_to!(es@ => es@[i as int]));
                    assert(decreases_to!(es@[i as int] => es@[i as int].1));
                }
                let k = es[i].0.clone();
                let x = json_clone(&es[i].1);
                let ghost before = out@;
                out.push((k, x));
                proof {
                    assert(out@.drop_last() =~= before);
                    assert(es@.take(i + 1).drop_last() =~= es@.take(i as int));
                }
                i = i + 1;
            }
            proof {
                assert(es@.take(n as int) =~= es@);
            }
            Json::Object(out)
        },
    }
}

} // verus!
