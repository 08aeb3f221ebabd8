use vstd::prelude::*;

verus! {

broadcast use vstd::std_specs::vec::group_vec_axioms;

/// A JSON number as the JSON reader classifies it: a non-negative integer,
/// a negative integer, or a floating-point value kept as its IEEE-754 bits.
#[derive(PartialEq, Eq, Structural, Clone, Copy, Debug)]
pub enum JsonNumber {
    PosInt(u64),
    NegInt(i64),
    Float(u64),
}

/// A JSON document. Object members keep the order in which they were read.
#[derive(Debug)]
pub enum JsonValue {
    Null,
    Bool(bool),
    Number(JsonNumber),
    Str(String),
    Array(Vec<JsonValue>),
    Object(Vec<(String, JsonValue)>),
}

/// The mathematical model of a JSON document.
pub enum Json {
    Null,
    Bool(bool),
    Num(JsonNumber),
    Str(Seq<char>),
    Array(Seq<Json>),
    Object(Seq<(Seq<char>, Json)>),
}

impl JsonValue {
    pub open spec fn model(&self) -> Json
        decreases self,
    {
        match self {
            JsonValue::Null => Json::Null,
            JsonValue::Bool(b) => Json::Bool(*b),
            JsonValue::Number(n) => Json::Num(*n),
            JsonValue::Str(s) => Json::Str(s@),
            JsonValue::Array(v) => Json::Array(
                Seq::new(v@.len(), |i: int| if 0 <= i < v@.len() { v@[i].model() } else { Json::Null }),
            ),
            JsonValue::Object(v) => Json::Object(
                Seq::new(v@.len(), |i: int| if 0 <= i < v@.len() { (v@[i].0@, v@[i].1.model()) } else { (Seq::empty(), Json::Null) }),
            ),
        }
    }
}

impl View for JsonValue {
    type V = Json;

    open spec fn view(&self) -> Json {
        self.model()
    }
}

/// The value of the first member named `key`, if any.
pub open spec fn lookup(m: Seq<(Seq<char>, Json)>, key: Seq<char>) -> Option<Json>
    decreases m.len(),
{
    if m.len() == 0 {
        None
    } else if m[0].0 == key {
        Some(m[0].1)
    } else {
        lookup(m.drop_first(), key)
    }
}

/// The models of a sequence of documents.
pub open spec fn models(v: Seq<JsonValue>) -> Seq<Json> {
    Seq::new(v.len(), |i: int| v[i]@)
}

/// The model of an optional borrowed document.
pub open spec fn opt_model(o: Option<&JsonValue>) -> Option<Json> {
    match o {
        Some(v) => Some(v@),
        None => None,
    }
}

/// The model of an optional borrowed string.
pub open spec fn opt_chars(o: Option<&str>) -> Option<Seq<char>> {
    match o {
        Some(s) => Some(s@),
        None => None,
    }
}

impl Json {
    /// Member lookup; `None` on anything but an object.
    pub open spec fn member(self, key: Seq<char>) -> Option<Json> {
        match self {
            Json::Object(m) => lookup(m, key),
            _ => None,
        }
    }

    pub open spec fn as_str(self) -> Option<Seq<char>> {
        match self {
            Json::Str(s) => Some(s),
            _ => None,
        }
    }

    /// A non-negative integer that fits in `u64`.
    pub open spec fn as_u64(self) -> Option<u64> {
        match self {
            Json::Num(JsonNumber::PosInt(n)) => Some(n),
            _ => None,
        }
    }

    pub open spec fn as_bool(self) -> Option<bool> {
        match self {
            Json::Bool(b) => Some(b),
            _ => None,
        }
    }

    pub open spec fn as_number(self) -> Option<JsonNumber> {
        match self {
            Json::Num(n) => Some(n),
            _ => None,
        }
    }

    pub open spec fn as_array(self) -> Option<Seq<Json>> {
        match self {
            Json::Array(a) => Some(a),
            _ => None,
        }
    }

    pub open spec fn is_null(self) -> bool {
        self is Null
    }

    pub open spec fn is_object(self) -> bool {
        self is Object
    }
}

/// `get` on an optional document, as chained lookups read it.
pub open spec fn opt_get(o: Option<Json>, key: Seq<char>) -> Option<Json> {
    match o {
        Some(j) => j.member(key),
        None => None,
    }
}

pub open spec fn opt_as_str(o: Option<Json>) -> Option<Seq<char>> {
    match o {
        Some(j) => j.as_str(),
        None => None,
    }
}

pub open spec fn opt_as_u64(o: Option<Json>) -> Option<u64> {
    match o {
        Some(j) => j.as_u64(),
        None => None,
    }
}

pub open spec fn opt_as_bool(o: Option<Json>) -> Option<bool> {
    match o {
        Some(j) => j.as_bool(),
        None => None,
    }
}

pub open spec fn opt_as_array(o: Option<Json>) -> Option<Seq<Json>> {
    match o {
        Some(j) => j.as_array(),
        None => None,
    }
}

pub proof fn lemma_lookup_skip(m: Seq<(Seq<char>, Json)>, key: Seq<char>, i: int)
    requires
        0 <= i < m.len(),
        m[i].0 != key,
    ensures
        lookup(m.skip(i), key) == lookup(m.skip(i + 1), key),
{
    assert(m.skip(i).drop_first() =~= m.skip(i + 1));
}

pub proof fn lemma_lookup_found(m: Seq<(Seq<char>, Json)>, key: Seq<char>, i: int)
    requires
        0 <= i < m.len(),
        m[i].0 == key,
    ensures
        lookup(m.skip(i), key) == Some(m[i].1),
{
}

impl JsonValue {
    /// The member named `key` of an object; `None` for other documents.
    #[verifier::loop_isolation(false)]
    pub fn get(&self, key: &str) -> (r: Option<&JsonValue>)
        ensures
            opt_model(r) == self@.member(key@),
    {
        match self {
            JsonValue::Object(v) => {
                let ghost m = self@->Object_0;
                assert(self@ is Object);
                assert(self@.member(key@) == lookup(m, key@));
                let mut i: usize = 0;
                assert(m.skip(0) =~= m);
                while i < v.len()
                    invariant
                        0 <= i <= v@.len(),
                        m.len() == v@.len(),
                        m == self@->Object_0,
                        forall|k: int| 0 <= k < v@.len() ==> #[trigger] m[k] == (v@[k].0@, v@[k].1@),
                        lookup(m, key@) == lookup(m.skip(i as int), key@),
                    decreases v.len() - i,
                {
                    if crate::text::str_eq(v[i].0.as_str(), key) {
                        proof {
                            lemma_lookup_found(m, key@, i as int);
                            assert(lookup(m, key@) == Some(m[i as int].1));
                            assert(self@.member(key@) == lookup(m, key@));
                            assert(m[i as int] == (v@[i as int].0@, v@[i as int].1@));
                        }
                        return Some(&v[i].1);
                    }
                    proof {
                        lemma_lookup_skip(m, key@, i as int);
                    }
                    i = i + 1;
                }
                assert(m.skip(i as int).len() == 0);
                None
            },
            _ => None,
        }
    }

    pub fn as_str(&self) -> (r: Option<&str>)
        ensures
            opt_chars(r) == self@.as_str(),
    {
        match self {
            JsonValue::Str(s) => Some(s.as_str()),
            _ => None,
        }
    }

    pub fn as_u64(&self) -> (r: Option<u64>)
        ensures
            r == self@.as_u64(),
    {
        match self {
            JsonValue::Number(JsonNumber::PosInt(n)) => Some(*n),
            _ => None,
        }
    }

    pub fn as_bool(&self) -> (r: Option<bool>)
        ensures
            r == self@.as_bool(),
    {
        match self {
            JsonValue::Bool(b) => Some(*b),
            _ => None,
        }
    }

    pub fn as_number(&self) -> (r: Option<JsonNumber>)
        ensures
            r == self@.as_number(),
    {
        match self {
            JsonValue::Number(n) => Some(*n),
            _ => None,
        }
    }

    pub fn as_array(&self) -> (r: Option<&Vec<JsonValue>>)
        ensures
            r is Some <==> self@ is Array,
            r matches Some(v) ==> self@ == Json::Array(models(v@)),
    {
        match self {
            JsonValue::Array(v) => {
                assert(self@->Array_0 =~= models(v@));
                Some(v)
            },
            _ => None,
        }
    }

    pub fn is_null(&self) -> (r: bool)
        ensures
            r == self@.is_null(),
    {
        match self {
            JsonValue::Null => true,
            _ => false,
        }
    }

    /// A copy that has the same model.
    #[verifier::loop_isolation(false)]
    pub fn deep_clone(&self) -> (r: JsonValue)
        ensures
            r@ == self@,
        decreases self,
    {
        match self {
            JsonValue::Null => JsonValue::Null,
            JsonValue::Bool(b) => JsonValue::Bool(*b),
            JsonValue::Number(n) => JsonValue::Number(*n),
            JsonValue::Str(s) => JsonValue::Str(s.clone()),
            JsonValue::Array(v) => {
                let mut out: Vec<JsonValue> = Vec::new();
                let mut i: usize = 0;
                while i < v.len()
                    invariant
                        0 <= i <= v@.len(),
                        out@.len() == i,
                        forall|k: int| 0 <= k < i ==> #[trigger] out@[k]@ == v@[k]@,
                    decreases v.len() - i,
                {
                    proof {
                        let ghost sv: JsonValue = *self;
                        assert(sv is Array);
                        assert(sv->Array_0 == *v);
                        assert(decreases_to!(sv => sv->Array_0));
                        assert(decreases_to!(sv->Array_0 => sv->Array_0[i as int]));
                    }
                    let c = v[i].deep_clone();
                    out.push(c);
                    i = i + 1;
                }
                let r = JsonValue::Array(out);
                assert(r@->Array_0.len() == self@->Array_0.len());
                assert forall|k: int| 0 <= k < out@.len() implies r@->Array_0[k] == self@->Array_0[k] by {
                    assert(out@[k]@ == v@[k]@);
                }
                assert(r@->Array_0 =~= self@->Array_0);
                r
            },
            JsonValue::Object(v) => {
                let mut out: Vec<(String, JsonValue)> = Vec::new();
                let mut i: usize = 0;
                while i < v.len()
                    invariant
                        0 <= i <= v@.len(),
                        out@.len() == i,
                        forall|k: int| 0 <= k < i ==> (#[trigger] out@[k]).0@ == v@[k].0@ && out@[k].1@ == v@[k].1@,
                    decreases v.len() - i,
                {
                    proof {
                        assert(decreases_to!(*self => self->Object_0[i as int].1));
                    }
                    let c = v[i].1.deep_clone();
                    out.push((v[i].0.clone(), c));
                    i = i + 1;
                }
                let r = JsonValue::Object(out);
                assert forall|k: int| 0 <= k < out@.len() implies r@->Object_0[k] == self@->Object_0[k] by {
                    let e = out@[k];
                    assert(e.0@ == v@[k].0@ && e.1@ == v@[k].1@);
                }
                assert(r@->Object_0 =~= self@->Object_0);
                r
            },
        }
    }
}

impl JsonValue {
    /// The string member `key`, as `get(key).and_then(as_str)` reads it.
    pub fn get_str(&self, key: &str) -> (r: Option<&str>)
        ensures
            opt_chars(r) == opt_as_str(self@.member(key@)),
    {
        match self.get(key) {
            Some(v) => v.as_str(),
            None => None,
        }
    }

    /// The integer member `key`, as `get(key).and_then(as_u64)` reads it.
    pub fn get_u64(&self, key: &str) -> (r: Option<u64>)
        ensures
            r == opt_as_u64(self@.member(key@)),
    {
        match self.get(key) {
            Some(v) => v.as_u64(),
            None => None,
        }
    }

    /// The boolean member `key`, as `get(key).and_then(as_bool)` reads it.
    pub fn get_bool(&self, key: &str) -> (r: Option<bool>)
        ensures
            r == opt_as_bool(self@.member(key@)),
    {
        match self.get(key) {
            Some(v) => v.as_bool(),
            None => None,
        }
    }

    /// The array member `key`, as `get(key).and_then(as_array)` reads it.
    pub fn get_array(&self, key: &str) -> (r: Option<&Vec<JsonValue>>)
        ensures
            r is Some <==> opt_as_array(self@.member(key@)) is Some,
            r matches Some(v) ==> opt_as_array(self@.member(key@)) == Some(models(v@)),
    {
        match self.get(key) {
            Some(v) => v.as_array(),
            None => None,
        }
    }
}

/// `o` moved by `d`.
pub open spec fn shift(o: Option<int>, d: int) -> Option<int> {
    match o {
        Some(i) => Some(i + d),
        None => None,
    }
}

/// The position of the first member named `key`.
pub open spec fn key_index(m: Seq<(Seq<char>, Json)>, key: Seq<char>) -> Option<int>
    decreases m.len(),
{
    if m.len() == 0 {
        None
    } else if m[0].0 == key {
        Some(0)
    } else {
        match key_index(m.drop_first(), key) {
            Some(i) => Some(i + 1),
            None => None,
        }
    }
}

/// Object members after `insert(key, value)`: an existing member keeps its
/// place and takes the new value; otherwise the member is added at the end.
pub open spec fn obj_insert(m: Seq<(Seq<char>, Json)>, key: Seq<char>, value: Json) -> Seq<(Seq<char>, Json)> {
    match key_index(m, key) {
        Some(i) => m.update(i, (key, value)),
        None => m.push((key, value)),
    }
}

proof fn lemma_key_index_step(m: Seq<(Seq<char>, Json)>, key: Seq<char>, i: int)
    requires
        0 <= i < m.len(),
        key_index(m, key) == shift(key_index(m.skip(i), key), i),
        m[i].0 != key,
    ensures
        key_index(m, key) == shift(key_index(m.skip(i + 1), key), i + 1),
{
    assert(m.skip(i).drop_first() =~= m.skip(i + 1));
    assert(m.skip(i)[0] == m[i]);
}

proof fn lemma_key_index_bounds(m: Seq<(Seq<char>, Json)>, key: Seq<char>)
    ensures
        key_index(m, key) matches Some(i) ==> 0 <= i < m.len() && m[i].0 == key,
    decreases m.len(),
{
    if m.len() > 0 && m[0].0 != key {
        lemma_key_index_bounds(m.drop_first(), key);
    }
}

/// The model of an object's member list.
pub open spec fn members_model(v: Seq<(String, JsonValue)>) -> Seq<(Seq<char>, Json)> {
    Seq::new(v.len(), |i: int| (v[i].0@, v[i].1@))
}

pub proof fn lemma_object_model(v: Vec<(String, JsonValue)>)
    ensures
        JsonValue::Object(v)@ == Json::Object(members_model(v@)),
{
    assert(JsonValue::Object(v)@->Object_0 =~= members_model(v@));
}

pub proof fn lemma_array_model(v: Vec<JsonValue>)
    ensures
        JsonValue::Array(v)@ == Json::Array(models(v@)),
{
    assert(JsonValue::Array(v)@->Array_0 =~= models(v@));
}

/// `insert(key, value)` on a member list: an existing member keeps its place
/// and takes the new value; otherwise the member is appended.
#[verifier::loop_isolation(false)]
pub fn members_insert(v: &mut Vec<(String, JsonValue)>, key: &str, value: JsonValue)
    ensures
        members_model(final(v)@) == obj_insert(members_model(old(v)@), key@, value@),
{
    let ghost m = members_model(v@);
    let mut i: usize = 0;
    assert(m.skip(0) =~= m);
    assert(key_index(m, key@) == shift(key_index(m.skip(0), key@), 0)) by {
        match key_index(m, key@) {
            Some(x) => {},
            None => {},
        }
    }
    let mut found: Option<usize> = None;
    while i < v.len() && found.is_none()
        invariant
            0 <= i <= v@.len(),
            m == members_model(v@),
            match found {
                Some(f) => key_index(m, key@) == Some(f as int) && f < v@.len(),
                None => key_index(m, key@) == shift(key_index(m.skip(i as int), key@), i as int),
            },
        decreases v.len() - i + if found.is_none() { 1int } else { 0int },
    {
        if crate::text::str_eq(v[i].0.as_str(), key) {
            assert(m.skip(i as int)[0] == m[i as int]);
            found = Some(i);
        } else {
            proof {
                lemma_key_index_step(m, key@, i as int);
            }
            i = i + 1;
        }
    }
    let ghost vm = value@;
    match found {
        Some(f) => {
            let old_entry = v.remove(f);
            v.insert(f, (old_entry.0, value));
            proof {
                lemma_key_index_bounds(m, key@);
            }
            assert(members_model(v@) =~= obj_insert(m, key@, vm));
        },
        None => {
            assert(m.skip(i as int).len() == 0);
            v.push((key.to_owned(), value));
            assert(members_model(v@) =~= obj_insert(m, key@, vm));
        },
    }
}

impl JsonValue {
    /// `insert(key, value)` on an object; other documents are left as they are.
    pub fn set_member(&mut self, key: &str, value: JsonValue)
        ensures
            old(self)@ is Object ==> final(self)@ == Json::Object(obj_insert(old(self)@->Object_0, key@, value@)),
            !(old(self)@ is Object) ==> final(self)@ == old(self)@,
    {
        match self {
            JsonValue::Object(v) => {
                proof {
                    lemma_object_model(*v);
                }
                members_insert(v, key, value);
                proof {
                    lemma_object_model(*v);
                }
            },
            _ => {},
        }
    }

    /// An object with no member.
    pub fn new_object() -> (r: JsonValue)
        ensures
            r@ == Json::Object(seq![]),
    {
        let r = JsonValue::Object(Vec::new());
        assert(r@->Object_0 =~= Seq::<(Seq<char>, Json)>::empty());
        r
    }

    /// This object with one more member at the end; other documents are
    /// returned as they are.
    pub fn with(self, key: &str, value: JsonValue) -> (r: JsonValue)
        ensures
            self@ is Object ==> r@ == Json::Object(self@->Object_0.push((key@, value@))),
            !(self@ is Object) ==> r@ == self@,
    {
        match self {
            JsonValue::Object(v) => {
                let ghost before = JsonValue::Object(v)@->Object_0;
                let ghost vm = value@;
                let mut v = v;
                v.push((key.to_owned(), value));
                let r = JsonValue::Object(v);
                assert(r@->Object_0 =~= before.push((key@, vm)));
                r
            },
            other => other,
        }
    }

    /// A string document holding a copy of `s`.
    pub fn string(s: &str) -> (r: JsonValue)
        ensures
            r@ == Json::Str(s@),
    {
        JsonValue::Str(s.to_owned())
    }

    /// An array document of the given elements.
    pub fn array(v: Vec<JsonValue>) -> (r: JsonValue)
        ensures
            r@ == Json::Array(models(v@)),
    {
        let r = JsonValue::Array(v);
        proof {
            lemma_array_model(v);
        }
        r
    }
}


/// A read after an insert gives back what was inserted.
pub proof fn lemma_lookup_insert_same(m: Seq<(Seq<char>, Json)>, key: Seq<char>, value: Json)
    ensures
        lookup(obj_insert(m, key, value), key) == Some(value),
    decreases m.len(),
{
    if m.len() > 0 && m[0].0 != key {
        lemma_lookup_insert_same(m.drop_first(), key, value);
        lemma_insert_drop_first(m, key, value);
    }
}

/// An insert leaves the other keys as they were.
pub proof fn lemma_lookup_insert_other(m: Seq<(Seq<char>, Json)>, key: Seq<char>, value: Json, other: Seq<char>)
    requires
        other != key,
    ensures
        lookup(obj_insert(m, key, value), other) == lookup(m, other),
    decreases m.len(),
{
    if m.len() > 0 && m[0].0 != key {
        lemma_lookup_insert_other(m.drop_first(), key, value, other);
        lemma_insert_drop_first(m, key, value);
    } else if m.len() > 0 {
        assert(key_index(m, key) == Some(0int));
        let n = obj_insert(m, key, value);
        assert(n == m.update(0, (key, value)));
        assert(n[0].0 != other);
        assert(n.drop_first() =~= m.drop_first());
    } else {
        let n = obj_insert(m, key, value);
        assert(n =~= seq![(key, value)]);
        assert(n.drop_first() =~= Seq::<(Seq<char>, Json)>::empty());
        assert(lookup(n.drop_first(), other) is None);
    }
}

proof fn lemma_insert_drop_first(m: Seq<(Seq<char>, Json)>, key: Seq<char>, value: Json)
    requires
        m.len() > 0,
        m[0].0 != key,
    ensures
        obj_insert(m, key, value)[0] == m[0],
        obj_insert(m, key, value).len() > 0,
        obj_insert(m, key, value).drop_first() == obj_insert(m.drop_first(), key, value),
{
    match key_index(m.drop_first(), key) {
        Some(i) => {
            lemma_key_index_bounds(m.drop_first(), key);
            assert(obj_insert(m, key, value).drop_first() =~= obj_insert(m.drop_first(), key, value));
        },
        None => {
            assert(obj_insert(m, key, value).drop_first() =~= obj_insert(m.drop_first(), key, value));
        },
    }
}


/// Copies of the documents, in order.
pub fn clone_all(a: &Vec<JsonValue>) -> (r: Vec<JsonValue>)
    ensures
        models(r@) == models(a@),
{
    let mut out: Vec<JsonValue> = Vec::new();
    let mut i: usize = 0;
    while i < a.len()
        invariant
            0 <= i <= a@.len(),
            models(out@) == models(a@).take(i as int),
        decreases a.len() - i,
    {
        let ghost before = out@;
        let c = a[i].deep_clone();
        out.push(c);
        assert(models(out@) =~= models(before).push(a@[i as int]@));
        assert(models(a@).take(i + 1) =~= models(a@).take(i as int).push(a@[i as int]@));
        i = i + 1;
    }
    assert(models(a@).take(a@.len() as int) =~= models(a@));
    out
}

} // verus!
