//! JSON documents as far as merging metadata has to read them.

use vstd::prelude::*;

use crate::moved::Moved;

verus! {

/// A number of a document.
#[derive(Clone, Copy, Debug, PartialEq, Eq)]
pub enum Number {
    PosInt(u64),
    NegInt(i64),
    /// Any other number: the bit pattern of its double.
    Float(u64),
}

/// A JSON value. An object's fields are listed in the order they were added; a key
/// is looked up from the front. `Moved` is a number that something is to be added to.
#[derive(Debug)]
pub enum Json {
    Null,
    Bool(bool),
    Number(Number),
    Moved(Moved<Number>),
    Text(String),
    Array(Vec<Json>),
    Object(Vec<(String, Json)>),
}

/// What a `Json` says, with strings and lists taken as sequences.
#[verifier::ext_equal]
pub enum JsonView {
    Null,
    Bool(bool),
    Number(Number),
    Moved(Moved<Number>),
    Text(Seq<char>),
    Array(Seq<JsonView>),
    Object(Seq<(Seq<char>, JsonView)>),
}

impl View for Json {
    type V = JsonView;

    open spec fn view(&self) -> JsonView {
        json_view(*self)
    }
}

/// What `json` says.
pub open spec fn json_view(json: Json) -> JsonView
    decreases json,
{
    match json {
        Json::Null => JsonView::Null,
        Json::Bool(b) => JsonView::Bool(b),
        Json::Number(n) => JsonView::Number(n),
        Json::Moved(time) => JsonView::Moved(time),
        Json::Text(s) => JsonView::Text(s@),
        Json::Array(items) => JsonView::Array(
            Seq::new(
                items@.len(),
                |i: int|
                    if 0 <= i < items@.len() {
                        json_view(items@[i])
                    } else {
                        JsonView::Null
                    },
            ),
        ),
        Json::Object(fields) => JsonView::Object(
            Seq::new(
                fields@.len(),
                |i: int|
                    if 0 <= i < fields@.len() {
                        (fields@[i].0@, json_view(fields@[i].1))
                    } else {
                        (Seq::empty(), JsonView::Null)
                    },
            ),
        ),
    }
}

/// What each value of a list says.
pub open spec fn views(items: Seq<Json>) -> Seq<JsonView> {
    items.map_values(|item: Json| json_view(item))
}

/// What each field of a list says.
pub open spec fn field_views(fields: Seq<(String, Json)>) -> Seq<(Seq<char>, JsonView)> {
    fields.map_values(|field: (String, Json)| (field.0@, json_view(field.1)))
}

/// The value of the first field called `key`.
pub open spec fn lookup(fields: Seq<(Seq<char>, JsonView)>, key: Seq<char>) -> Option<JsonView>
    decreases fields.len(),
{
    if fields.len() == 0 {
        None
    } else if fields.first().0 == key {
        Some(fields.first().1)
    } else {
        lookup(fields.drop_first(), key)
    }
}

/// `fields` with the first field called `key` set to `value`, or with such a field
/// added at the end.
pub open spec fn with_field(
    fields: Seq<(Seq<char>, JsonView)>,
    key: Seq<char>,
    value: JsonView,
) -> Seq<(Seq<char>, JsonView)>
    decreases fields.len(),
{
    if fields.len() == 0 {
        seq![(key, value)]
    } else if fields.first().0 == key {
        seq![(key, value)] + fields.drop_first()
    } else {
        seq![fields.first()] + with_field(fields.drop_first(), key, value)
    }
}

impl JsonView {
    /// The value of field `key`, where this is an object that has it.
    pub open spec fn get(self, key: Seq<char>) -> Option<JsonView> {
        match self {
            JsonView::Object(fields) => lookup(fields, key),
            _ => None,
        }
    }

    /// The object with field `key` set to `value`; anything else unchanged.
    pub open spec fn with(self, key: Seq<char>, value: JsonView) -> JsonView {
        match self {
            JsonView::Object(fields) => JsonView::Object(with_field(fields, key, value)),
            other => other,
        }
    }

    /// The items of the array in field `key`; none where there is no such array.
    pub open spec fn list(self, key: Seq<char>) -> Seq<JsonView> {
        match self.get(key) {
            Some(JsonView::Array(items)) => items,
            _ => Seq::empty(),
        }
    }
}

proof fn lemma_array_view(items: Vec<Json>)
    ensures
        json_view(Json::Array(items)) == JsonView::Array(views(items@)),
{
    assert(json_view(Json::Array(items))->Array_0 =~= views(items@));
}

proof fn lemma_object_view(fields: Vec<(String, Json)>)
    ensures
        json_view(Json::Object(fields)) == JsonView::Object(field_views(fields@)),
{
    assert(json_view(Json::Object(fields))->Object_0 =~= field_views(fields@));
}

/// The place of the first field called `key`, or the number of fields where there is none.
fn position(fields: &Vec<(String, Json)>, key: &String) -> (r: usize)
    ensures
        r <= fields@.len(),
        r < fields@.len() ==> fields@[r as int].0@ == key@,
        forall|i: int| 0 <= i < r ==> #[trigger] fields@[i].0@ != key@,
{
    let mut i: usize = 0;
    while i < fields.len()
        invariant
            i <= fields@.len(),
            forall|j: int| 0 <= j < i ==> #[trigger] fields@[j].0@ != key@,
        decreases fields@.len() - i,
    {
        if fields[i].0 == *key {
            return i;
        }
        i = i + 1;
    }
    i
}

proof fn lemma_lookup_at(fields: Seq<(Seq<char>, JsonView)>, key: Seq<char>, at: int)
    requires
        0 <= at <= fields.len(),
        at < fields.len() ==> fields[at].0 == key,
        forall|i: int| 0 <= i < at ==> #[trigger] fields[i].0 != key,
    ensures
        lookup(fields, key) == if at < fields.len() {
            Some(fields[at].1)
        } else {
            None
        },
        forall|value: JsonView|
            with_field(fields, key, value) == if at < fields.len() {
                fields.update(at, (key, value))
            } else {
                fields.push((key, value))
            },
    decreases fields.len(),
{
    if fields.len() > 0 {
        let rest = fields.drop_first();
        if at == 0 {
            assert forall|value: JsonView|
                with_field(fields, key, value) == fields.update(0, (key, value)) by {
                assert(seq![(key, value)] + rest =~= fields.update(0, (key, value)));
            }
        } else {
            assert(fields[0].0 != key);
            assert forall|i: int| 0 <= i < at - 1 implies #[trigger] rest[i].0 != key by {
                assert(fields[i + 1].0 != key);
            }
            lemma_lookup_at(rest, key, at - 1);
            assert forall|value: JsonView|
                with_field(fields, key, value) == if at < fields.len() {
                    fields.update(at, (key, value))
                } else {
                    fields.push((key, value))
                } by {
                assert(with_field(fields, key, value) == seq![fields.first()] + with_field(
                    rest,
                    key,
                    value,
                ));
                if at < fields.len() {
                    assert(seq![fields.first()] + rest.update(at - 1, (key, value))
                        =~= fields.update(at, (key, value)));
                } else {
                    assert(seq![fields.first()] + rest.push((key, value)) =~= fields.push(
                        (key, value),
                    ));
                }
            }
        }
    } else {
        assert forall|value: JsonView|
            with_field(fields, key, value) == fields.push((key, value)) by {
            assert(seq![(key, value)] =~= fields.push((key, value)));
        }
    }
}

impl Json {
    /// The array of the items.
    pub fn from_items(items: Vec<Json>) -> (r: Json)
        ensures
            r@ == JsonView::Array(views(items@)),
    {
        proof {
            lemma_array_view(items);
        }
        Json::Array(items)
    }

    /// Whether this is `null`.
    pub fn is_null(&self) -> (r: bool)
        ensures
            r == (self@ is Null),
    {
        match self {
            Json::Null => true,
            _ => false,
        }
    }

    /// The value of field `key`, where this is an object that has it.
    pub fn get(&self, key: &str) -> (r: Option<&Json>)
        ensures
            match self@.get(key@) {
                Some(value) => r matches Some(found) && found@ == value,
                None => r is None,
            },
    {
        match self {
            Json::Object(fields) => {
                let at: usize = position(fields, &key.to_owned());
                proof {
                    lemma_object_view(*fields);
                    lemma_lookup_at(field_views(fields@), key@, at as int);
                }
                if at < fields.len() {
                    Some(&fields[at].1)
                } else {
                    None
                }
            },
            _ => None,
        }
    }

    /// The items, where this is an array.
    pub fn as_array(&self) -> (r: Option<&Vec<Json>>)
        ensures
            match self@ {
                JsonView::Array(items) => r matches Some(found) && views(found@) == items,
                _ => r is None,
            },
    {
        match self {
            Json::Array(items) => {
                proof {
                    lemma_array_view(*items);
                }
                Some(items)
            },
            _ => None,
        }
    }

    /// Sets field `key`, where this is an object; anything else stays as it is.
    pub fn insert(&mut self, key: &str, value: Json)
        ensures
            final(self)@ == old(self)@.with(key@, value@),
    {
        match self {
            Json::Object(fields) => {
                let key: String = key.to_owned();
                let at: usize = position(fields, &key);
                proof {
                    lemma_object_view(*fields);
                    lemma_lookup_at(field_views(fields@), key@, at as int);
                }
                let ghost before = fields@;
                if at < fields.len() {
                    fields[at] = (key, value);
                    assert(field_views(fields@) =~= field_views(before).update(
                        at as int,
                        (key@, value@),
                    ));
                } else {
                    fields.push((key, value));
                    assert(field_views(fields@) =~= field_views(before).push((key@, value@)));
                }
                proof {
                    lemma_object_view(*fields);
                }
            },
            _ => {},
        }
    }

    /// A copy that says the same.
    pub fn duplicate(&self) -> (r: Json)
        ensures
            r@ == self@,
        decreases self,
    {
        match self {
            Json::Null => Json::Null,
            Json::Bool(b) => Json::Bool(*b),
            Json::Number(n) => Json::Number(*n),
            Json::Moved(time) => Json::Moved(*time),
            Json::Text(s) => Json::Text(s.clone()),
            Json::Array(items) => {
                let copies: Vec<Json> = Json::duplicate_all(items);
                proof {
                    lemma_array_view(*items);
                    lemma_array_view(copies);
                }
                Json::Array(copies)
            },
            Json::Object(fields) => {
                let mut copies: Vec<(String, Json)> = Vec::new();
                let mut i: usize = 0;
                while i < fields.len()
                    invariant
                        i <= fields@.len(),
                        *self == Json::Object(*fields),
                        field_views(copies@) == field_views(fields@).take(i as int),
                    decreases fields@.len() - i,
                {
                    let ghost before = copies@;
                    let field: &(String, Json) = &fields[i];
                    assert(decreases_to!(self => self->Object_0));
                    assert(decreases_to!(fields => fields@[i as int]));
                    assert(decreases_to!(fields@[i as int] => fields@[i as int].1));
                    let copy: (String, Json) = (field.0.clone(), field.1.duplicate());
                    copies.push(copy);
                    assert(field_views(copies@) =~= field_views(before).push(
                        field_views(fields@)[i as int],
                    ));
                    i = i + 1;
                }
                assert(field_views(copies@) =~= field_views(fields@));
                proof {
                    lemma_object_view(*fields);
                    lemma_object_view(copies);
                }
                Json::Object(copies)
            },
        }
    }

    /// A copy of each of the values.
    pub fn duplicate_all(items: &Vec<Json>) -> (r: Vec<Json>)
        ensures
            views(r@) == views(items@),
        decreases items,
    {
        let mut copies: Vec<Json> = Vec::new();
        let mut i: usize = 0;
        while i < items.len()
            invariant
                i <= items@.len(),
                views(copies@) == views(items@).take(i as int),
            decreases items@.len() - i,
        {
            let ghost before = copies@;
            assert(decreases_to!(items => items@[i as int]));
            let copy: Json = items[i].duplicate();
            copies.push(copy);
            assert(views(copies@) =~= views(before).push(views(items@)[i as int]));
            i = i + 1;
        }
        assert(views(copies@) =~= views(items@));
        copies
    }
}

/// A value says what it holds: a list says what each of its items says, in order, and an
/// object what each of its fields says, under its name, in order.
pub proof fn law_values_say_what_they_hold(
    b: bool,
    number: Number,
    time: Moved<Number>,
    text: String,
    items: Vec<Json>,
    fields: Vec<(String, Json)>,
    i: int,
)
    ensures
        Json::Null@ is Null,
        Json::Bool(b)@ == JsonView::Bool(b),
        Json::Number(number)@ == JsonView::Number(number),
        Json::Moved(time)@ == JsonView::Moved(time),
        Json::Text(text)@ == JsonView::Text(text@),
        Json::Array(items)@ is Array,
        Json::Array(items)@->Array_0.len() == items@.len(),
        0 <= i < items@.len() ==> Json::Array(items)@->Array_0[i] == items@[i]@,
        Json::Object(fields)@ is Object,
        Json::Object(fields)@->Object_0.len() == fields@.len(),
        0 <= i < fields@.len() ==> Json::Object(fields)@->Object_0[i] == (
            fields@[i].0@,
            fields@[i].1@,
        ),
        views(items@).len() == items@.len(),
        0 <= i < items@.len() ==> views(items@)[i] == items@[i]@,
{
}

/// A field is looked up from the front: `at` is the place of the first one called `key`, or
/// the number of fields where there is none.
pub proof fn law_fields_are_looked_up_from_the_front(
    fields: Seq<(Seq<char>, JsonView)>,
    key: Seq<char>,
    at: int,
)
    requires
        0 <= at <= fields.len(),
        at < fields.len() ==> fields[at].0 == key,
        forall|i: int| 0 <= i < at ==> #[trigger] fields[i].0 != key,
    ensures
        at < fields.len() ==> JsonView::Object(fields).get(key) == Some(fields[at].1),
        at == fields.len() ==> JsonView::Object(fields).get(key) is None,
{
    lemma_lookup_at(fields, key, at);
}

/// Setting a field changes its value where it is, or adds it at the end; no other field
/// changes or moves.
pub proof fn law_fields_are_set_in_place(
    fields: Seq<(Seq<char>, JsonView)>,
    key: Seq<char>,
    value: JsonView,
    at: int,
)
    requires
        0 <= at <= fields.len(),
        at < fields.len() ==> fields[at].0 == key,
        forall|i: int| 0 <= i < at ==> #[trigger] fields[i].0 != key,
    ensures
        at < fields.len() ==> JsonView::Object(fields).with(key, value) == JsonView::Object(
            fields.update(at, (key, value)),
        ),
        at == fields.len() ==> JsonView::Object(fields).with(key, value) == JsonView::Object(
            fields.push((key, value)),
        ),
{
    lemma_lookup_at(fields, key, at);
}

/// What is no object has no fields, and none can be set.
pub proof fn law_only_objects_have_fields(value: JsonView, key: Seq<char>, item: JsonView)
    requires
        !(value is Object),
    ensures
        value.get(key) is None,
        value.with(key, item) == value,
        value.list(key) == Seq::<JsonView>::empty(),
{
}

/// The list in a field is the array it holds; a field that holds anything else, or is not
/// there, lists nothing.
pub proof fn law_lists_are_arrays(value: JsonView, key: Seq<char>, items: Seq<JsonView>)
    ensures
        value.get(key) == Some(JsonView::Array(items)) ==> value.list(key) == items,
        value.get(key) is None ==> value.list(key) == Seq::<JsonView>::empty(),
        value.get(key) is Some && !(value.get(key)->0 is Array) ==> value.list(key) == Seq::<
            JsonView,
        >::empty(),
{
}

} // verus!
