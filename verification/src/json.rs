//! JSON documents: the shape of every manifest and patch the validator sends.

use crate::text::string_from;
use vstd::prelude::*;
use vstd::string::*;

verus! {

/// A JSON document. Of two fields with one name the later one counts.
#[derive(Debug, PartialEq, Eq)]
pub enum Json {
    Null,
    Bool(bool),
    Number(i128),
    Text(String),
    Array(Vec<Json>),
    Object(Vec<(String, Json)>),
}

/// What a JSON document says: the order of an object's fields is not part of it.
#[verifier::ext_equal]
pub enum JsonView {
    Null,
    Bool(bool),
    Number(int),
    Text(Seq<char>),
    Array(Seq<JsonView>),
    Object(Map<Seq<char>, JsonView>),
}

/// What a document says.
pub open spec fn json_view(json: Json) -> JsonView
    decreases json,
{
    match json {
        Json::Null => JsonView::Null,
        Json::Bool(b) => JsonView::Bool(b),
        Json::Number(n) => JsonView::Number(n as int),
        Json::Text(s) => JsonView::Text(s@),
        Json::Array(items) => JsonView::Array(item_views(items@)),
        Json::Object(fields) => JsonView::Object(field_views(fields@)),
    }
}

/// What the items of an array say.
pub open spec fn item_views(items: Seq<Json>) -> Seq<JsonView>
    decreases items,
{
    if items.len() == 0 {
        Seq::empty()
    } else {
        item_views(items.drop_last()).push(json_view(items.last()))
    }
}

/// What the fields of an object say, by name.
pub open spec fn field_views(fields: Seq<(String, Json)>) -> Map<Seq<char>, JsonView>
    decreases fields,
{
    if fields.len() == 0 {
        Map::empty()
    } else {
        field_views(fields.drop_last()).insert(fields.last().0@, json_view(fields.last().1))
    }
}

impl View for Json {
    type V = JsonView;

    open spec fn view(&self) -> JsonView {
        json_view(*self)
    }
}

impl JsonView {
    /// This document with the field `key` set to `value`; one that is no
    /// object is left as it is.
    pub open spec fn with(self, key: Seq<char>, value: JsonView) -> JsonView {
        match self {
            JsonView::Object(fields) => JsonView::Object(fields.insert(key, value)),
            other => other,
        }
    }

    /// This document without the field `key`.
    pub open spec fn without(self, key: Seq<char>) -> JsonView {
        match self {
            JsonView::Object(fields) => JsonView::Object(fields.remove(key)),
            other => other,
        }
    }

    /// This array with one item more at its end; one that is no array is left
    /// as it is.
    pub open spec fn item(self, value: JsonView) -> JsonView {
        match self {
            JsonView::Array(items) => JsonView::Array(items.push(value)),
            other => other,
        }
    }

    /// The field `key` of an object, where it has one.
    pub open spec fn field(self, key: Seq<char>) -> Option<JsonView> {
        match self {
            JsonView::Object(fields) => if fields.dom().contains(key) {
                Some(fields[key])
            } else {
                None
            },
            _ => None,
        }
    }
}

/// An object with no field.
pub open spec fn empty_object() -> JsonView {
    JsonView::Object(Map::empty())
}

/// An array with no item.
pub open spec fn empty_array() -> JsonView {
    JsonView::Array(Seq::empty())
}

/// Setting the last field called `key` sets what the object says of `key`.
proof fn set_last(fields: Seq<(String, Json)>, at: int, value: Json)
    requires
        0 <= at < fields.len(),
        forall|i: int| at < i < fields.len() ==> (#[trigger] fields[i]).0@ != fields[at].0@,
    ensures
        field_views(fields.update(at, (fields[at].0, value))) == field_views(fields).insert(
            fields[at].0@,
            json_view(value),
        ),
    decreases fields.len(),
{
    let changed = fields.update(at, (fields[at].0, value));
    let before = field_views(fields.drop_last());
    if at == fields.len() - 1 {
        assert(changed.drop_last() =~= fields.drop_last());
        assert(before.insert(fields[at].0@, json_view(value)) =~= before.insert(
            fields[at].0@,
            json_view(fields[at].1),
        ).insert(fields[at].0@, json_view(value)));
    } else {
        assert(changed.drop_last() =~= fields.drop_last().update(at, (fields[at].0, value)));
        set_last(fields.drop_last(), at, value);
        assert(field_views(changed) =~= field_views(fields).insert(
            fields[at].0@,
            json_view(value),
        ));
    }
}

/// What the last field called `key` says is what the object says of `key`.
proof fn read_last(fields: Seq<(String, Json)>, key: Seq<char>, at: int)
    requires
        -1 <= at < fields.len(),
        at >= 0 ==> fields[at].0@ == key,
        forall|i: int| at < i < fields.len() ==> (#[trigger] fields[i]).0@ != key,
    ensures
        field_views(fields).dom().contains(key) == (at >= 0),
        at >= 0 ==> field_views(fields)[key] == json_view(fields[at].1),
    decreases fields.len(),
{
    if fields.len() > 0 && at < fields.len() - 1 {
        read_last(fields.drop_last(), key, at);
        assert(fields.last().0@ != key);
    }
}

impl Json {
    /// An object with no field.
    pub fn object() -> (r: Json)
        ensures
            r@ == empty_object(),
    {
        let fields: Vec<(String, Json)> = Vec::new();
        assert(fields@ =~= Seq::empty());
        Json::Object(fields)
    }

    /// An array with no item.
    pub fn array() -> (r: Json)
        ensures
            r@ == empty_array(),
    {
        let items: Vec<Json> = Vec::new();
        assert(items@ =~= Seq::empty());
        Json::Array(items)
    }

    /// A text.
    pub fn text(s: &str) -> (r: Json)
        ensures
            r@ == JsonView::Text(s@),
    {
        Json::Text(string_from(s))
    }

    /// The position of the last field called `key`.
    fn last_field(fields: &Vec<(String, Json)>, key: &str) -> (r: Option<usize>)
        ensures
            match r {
                Some(at) => {
                    &&& at < fields.len()
                    &&& fields@[at as int].0@ == key@
                    &&& forall|i: int| at < i < fields.len() ==> (#[trigger] fields@[i]).0@ != key@
                },
                None => forall|i: int| 0 <= i < fields.len() ==> (#[trigger] fields@[i]).0@ != key@,
            },
    {
        let wanted = string_from(key);
        let mut i: usize = fields.len();
        while i > 0
            invariant
                i <= fields.len(),
                wanted@ == key@,
                forall|k: int| i <= k < fields.len() ==> (#[trigger] fields@[k]).0@ != key@,
            decreases i,
        {
            i -= 1;
            if fields[i].0 == wanted {
                return Some(i);
            }
        }
        None
    }

    /// This document with the field `key` set to `value`; one that is no
    /// object is left as it is.
    pub fn with(self, key: &str, value: Json) -> (r: Json)
        ensures
            r@ == self@.with(key@, value@),
    {
        match self {
            Json::Object(fields) => {
                let mut fields = fields;
                match Json::last_field(&fields, key) {
                    Some(at) => {
                        proof {
                            set_last(fields@, at as int, value);
                        }
                        let name = fields[at].0.clone();
                        fields[at] = (name, value);
                    },
                    None => {
                        let name = string_from(key);
                        let ghost before = fields@;
                        fields.push((name, value));
                        assert(fields@.drop_last() =~= before);
                    },
                }
                Json::Object(fields)
            },
            other => other,
        }
    }

    /// This array with one item more at its end; one that is no array is left
    /// as it is.
    pub fn item(self, value: Json) -> (r: Json)
        ensures
            r@ == self@.item(value@),
    {
        match self {
            Json::Array(items) => {
                let mut items = items;
                let ghost before = items@;
                items.push(value);
                assert(items@.drop_last() =~= before);
                Json::Array(items)
            },
            other => other,
        }
    }

    /// This document without the field `key`.
    pub fn without(&self, key: &str) -> (r: Json)
        ensures
            r@ == self@.without(key@),
    {
        let fields = match self {
            Json::Object(fields) => fields,
            _ => {
                return self.duplicate();
            },
        };
        let unwanted = string_from(key);
        let mut out: Vec<(String, Json)> = Vec::new();
        let mut i: usize = 0;
        assert(fields@.take(0) =~= Seq::empty());
        assert(field_views(out@) =~= field_views(fields@.take(0)).remove(key@));
        while i < fields.len()
            invariant
                i <= fields.len(),
                unwanted@ == key@,
                field_views(out@) == field_views(fields@.take(i as int)).remove(key@),
            decreases fields.len() - i,
        {
            let ghost seen = field_views(fields@.take(i as int));
            assert(fields@.take(i + 1).drop_last() =~= fields@.take(i as int));
            if fields[i].0 != unwanted {
                let ghost before = out@;
                out.push((fields[i].0.clone(), fields[i].1.duplicate()));
                assert(out@.drop_last() =~= before);
            }
            assert(field_views(out@) =~= field_views(fields@.take(i + 1)).remove(key@));
            i += 1;
        }
        assert(fields@.take(fields.len() as int) =~= fields@);
        Json::Object(out)
    }

    /// The same document once more.
    #[verifier::loop_isolation(false)]
    pub fn duplicate(&self) -> (r: Json)
        ensures
            r@ == self@,
        decreases self,
    {
        match self {
            Json::Null => Json::Null,
            Json::Bool(b) => Json::Bool(*b),
            Json::Number(n) => Json::Number(*n),
            Json::Text(s) => Json::Text(s.clone()),
            Json::Array(items) => {
                let mut out: Vec<Json> = Vec::new();
                let mut i: usize = 0;
                assert(items@.take(0) =~= out@);
                while i < items.len()
                    invariant
                        i <= items.len(),
                        self == Json::Array(*items),
                        item_views(out@) == item_views(items@.take(i as int)),
                    decreases items.len() - i,
                {
                    assert(decreases_to!(*items => items[i as int]));
                    let copy = items[i].duplicate();
                    let ghost before = out@;
                    out.push(copy);
                    assert(out@.drop_last() =~= before);
                    assert(items@.take(i + 1).drop_last() =~= items@.take(i as int));
                    i += 1;
                }
                assert(items@.take(items.len() as int) =~= items@);
                Json::Array(out)
            },
            Json::Object(fields) => {
                let mut out: Vec<(String, Json)> = Vec::new();
                let mut i: usize = 0;
                assert(fields@.take(0) =~= out@);
                while i < fields.len()
                    invariant
                        i <= fields.len(),
                        self == Json::Object(*fields),
                        field_views(out@) == field_views(fields@.take(i as int)),
                    decreases fields.len() - i,
                {
                    assert(decreases_to!(*fields => fields[i as int]));
                    let copy = fields[i].1.duplicate();
                    let ghost before = out@;
                    out.push((fields[i].0.clone(), copy));
                    assert(out@.drop_last() =~= before);
                    assert(fields@.take(i + 1).drop_last() =~= fields@.take(i as int));
                    i += 1;
                }
                assert(fields@.take(fields.len() as int) =~= fields@);
                Json::Object(out)
            },
        }
    }

    /// The field `key` of an object, where it has one.
    pub fn get(&self, key: &str) -> (r: Option<&Json>)
        ensures
            match r {
                Some(value) => self@.field(key@) == Some(value@),
                None => self@.field(key@) is None,
            },
    {
        match self {
            Json::Object(fields) => match Json::last_field(fields, key) {
                Some(at) => {
                    proof {
                        read_last(fields@, key@, at as int);
                    }
                    Some(&fields[at].1)
                },
                None => {
                    proof {
                        read_last(fields@, key@, -1);
                    }
                    None
                },
            },
            _ => None,
        }
    }
}

}
