//! JSON values as the library reads them, and the reading of JSON text.

use vstd::prelude::*;

verus! {

/// A JSON number: a whole number that is not negative, one that is, or the bits of a
/// floating-point number.
#[derive(Clone, Copy, Debug, PartialEq, Eq, Structural)]
pub enum Number {
    Unsigned(u64),
    Negative(i64),
    Float(u64),
}

/// A JSON value.
#[derive(Debug)]
pub enum Json {
    Null,
    Bool(bool),
    Number(Number),
    Str(String),
    Array(Vec<Json>),
    /// The members of an object; of two with the same name the later one counts.
    Object(Vec<(String, Json)>),
}

/// What a JSON value holds.
pub enum JsonView {
    Null,
    Bool(bool),
    Number(Number),
    Str(Seq<char>),
    Array(Seq<JsonView>),
    Object(Map<Seq<char>, JsonView>),
}

/// The number with negative zero taken as zero.
pub open spec fn number_view(n: Number) -> Number {
    if n == Number::Float(0x8000_0000_0000_0000) {
        Number::Float(0)
    } else {
        n
    }
}

pub open spec fn json_view(j: Json) -> JsonView
    decreases j,
{
    match j {
        Json::Null => JsonView::Null,
        Json::Bool(b) => JsonView::Bool(b),
        Json::Number(n) => JsonView::Number(number_view(n)),
        Json::Str(s) => JsonView::Str(s@),
        Json::Array(v) => JsonView::Array(array_view(v@)),
        Json::Object(m) => JsonView::Object(object_view(m@)),
    }
}

/// The views of the items of an array.
pub open spec fn array_view(s: Seq<Json>) -> Seq<JsonView>
    decreases s,
{
    if s.len() == 0 {
        Seq::empty()
    } else {
        array_view(s.drop_last()).push(json_view(s.last()))
    }
}

/// The members of an object as a map.
pub open spec fn object_view(m: Seq<(String, Json)>) -> Map<Seq<char>, JsonView>
    decreases m,
{
    if m.len() == 0 {
        Map::empty()
    } else {
        object_view(m.drop_last()).insert(m.last().0@, json_view(m.last().1))
    }
}

impl View for Json {
    type V = JsonView;

    open spec fn view(&self) -> JsonView {
        json_view(*self)
    }
}

/// The view of a value that may be missing.
pub open spec fn opt_view(j: Option<&Json>) -> Option<JsonView> {
    match j {
        Some(j) => Some(j@),
        None => None,
    }
}

impl JsonView {
    /// The member of an object with the given name.
    pub open spec fn field(self, name: Seq<char>) -> Option<JsonView> {
        match self {
            JsonView::Object(m) => if m.contains_key(name) {
                Some(m[name])
            } else {
                None
            },
            _ => None,
        }
    }

    /// The characters of a string.
    pub open spec fn text(self) -> Option<Seq<char>> {
        match self {
            JsonView::Str(s) => Some(s),
            _ => None,
        }
    }

    /// The value of a whole number that fits a signed machine word.
    pub open spec fn integer(self) -> Option<i64> {
        match self {
            JsonView::Number(n) => number_integer(n),
            _ => None,
        }
    }

    /// The value of a whole number that is not negative.
    pub open spec fn unsigned(self) -> Option<u64> {
        match self {
            JsonView::Number(Number::Unsigned(n)) => Some(n),
            _ => None,
        }
    }

    /// The value of a truth value.
    pub open spec fn truth(self) -> Option<bool> {
        match self {
            JsonView::Bool(b) => Some(b),
            _ => None,
        }
    }

    /// The items of an array.
    pub open spec fn items(self) -> Option<Seq<JsonView>> {
        match self {
            JsonView::Array(s) => Some(s),
            _ => None,
        }
    }

    /// The object with one more member.
    pub open spec fn with(self, name: Seq<char>, value: JsonView) -> JsonView {
        match self {
            JsonView::Object(m) => JsonView::Object(m.insert(name, value)),
            other => other,
        }
    }

    /// The member with the given name, where it is a string.
    pub open spec fn text_field(self, name: Seq<char>) -> Option<Seq<char>> {
        match self.field(name) {
            Some(v) => v.text(),
            None => None,
        }
    }

    /// The member with the given name, where it is a whole number.
    pub open spec fn integer_field(self, name: Seq<char>) -> Option<i64> {
        match self.field(name) {
            Some(v) => v.integer(),
            None => None,
        }
    }

    /// The member with the given name, where it is a truth value.
    pub open spec fn truth_field(self, name: Seq<char>) -> Option<bool> {
        match self.field(name) {
            Some(v) => v.truth(),
            None => None,
        }
    }

    /// The member with the given name, where it is an array.
    pub open spec fn items_field(self, name: Seq<char>) -> Option<Seq<JsonView>> {
        match self.field(name) {
            Some(v) => v.items(),
            None => None,
        }
    }

    /// The member with the given name, where it is a number.
    pub open spec fn number_field(self, name: Seq<char>) -> Option<Number> {
        match self.field(name) {
            Some(JsonView::Number(n)) => Some(n),
            _ => None,
        }
    }
}

/// The value of a number as a signed machine word, if it has one.
pub open spec fn number_integer(n: Number) -> Option<i64> {
    match n {
        Number::Unsigned(u) => if u <= i64::MAX {
            Some(u as i64)
        } else {
            None
        },
        Number::Negative(i) => Some(i),
        Number::Float(_) => None,
    }
}

/// A whole number as a JSON value.
pub open spec fn whole_view(n: int) -> JsonView {
    if n < 0 {
        JsonView::Number(Number::Negative(n as i64))
    } else {
        JsonView::Number(Number::Unsigned(n as u64))
    }
}

/// An object without members.
pub open spec fn empty_object() -> JsonView {
    JsonView::Object(Map::empty())
}

/// The views of an array's items, one by one.
pub proof fn lemma_array_view(s: Seq<Json>)
    ensures
        array_view(s).len() == s.len(),
        forall|i: int| 0 <= i < s.len() ==> #[trigger] array_view(s)[i] == json_view(s[i]),
    decreases s.len(),
{
    if s.len() > 0 {
        lemma_array_view(s.drop_last());
        assert forall|i: int| 0 <= i < s.len() implies #[trigger] array_view(s)[i] == json_view(
            s[i],
        ) by {
            if i < s.len() - 1 {
                assert(s.drop_last()[i] == s[i]);
            }
        }
    }
}

/// One item more of an array is that item behind those before it.
pub proof fn lemma_array_step(s: Seq<Json>, i: int)
    requires
        0 <= i < s.len(),
    ensures
        array_view(s).subrange(0, i + 1).len() == i + 1,
        array_view(s).subrange(0, i + 1).drop_last() == array_view(s).subrange(0, i),
        array_view(s).subrange(0, i + 1).last() == s[i]@,
{
    lemma_array_view(s);
    assert(array_view(s).subrange(0, i + 1).drop_last() =~= array_view(s).subrange(0, i));
}

/// A name that stands last at `i` among the members has the value that stands there.
proof fn lemma_object_view_at(m: Seq<(String, Json)>, name: Seq<char>, i: int)
    requires
        0 <= i < m.len(),
        m[i].0@ == name,
        forall|k: int| i < k < m.len() ==> #[trigger] m[k].0@ != name,
    ensures
        object_view(m).contains_key(name),
        object_view(m)[name] == json_view(m[i].1),
    decreases m.len(),
{
    if i < m.len() - 1 {
        assert(m[m.len() - 1].0@ != name);
        assert forall|k: int| i < k < m.drop_last().len() implies #[trigger] m.drop_last()[k].0@
            != name by {
            assert(m.drop_last()[k] == m[k]);
        }
        lemma_object_view_at(m.drop_last(), name, i);
    }
}

/// A name that stands nowhere among the members is not in the object.
proof fn lemma_object_view_missing(m: Seq<(String, Json)>, name: Seq<char>)
    requires
        forall|k: int| 0 <= k < m.len() ==> #[trigger] m[k].0@ != name,
    ensures
        !object_view(m).contains_key(name),
    decreases m.len(),
{
    if m.len() > 0 {
        assert(m[m.len() - 1].0@ != name);
        assert forall|k: int| 0 <= k < m.drop_last().len() implies #[trigger] m.drop_last()[k].0@
            != name by {
            assert(m.drop_last()[k] == m[k]);
        }
        lemma_object_view_missing(m.drop_last(), name);
    }
}

/// Every name in an object stands somewhere among its members.
proof fn lemma_object_view_names(m: Seq<(String, Json)>, name: Seq<char>)
    ensures
        object_view(m).contains_key(name) ==> exists|k: int|
            0 <= k < m.len() && #[trigger] m[k].0@ == name,
        object_view(m).dom().finite(),
    decreases m.len(),
{
    if m.len() > 0 {
        lemma_object_view_names(m.drop_last(), name);
        if object_view(m).contains_key(name) {
            if m.last().0@ == name {
                assert(m[m.len() - 1].0@ == name);
            } else {
                let k = choose|k: int|
                    0 <= k < m.drop_last().len() && #[trigger] m.drop_last()[k].0@ == name;
                assert(m[k].0@ == name);
            }
        }
    }
}

impl Json {
    /// The member of an object with the given name; nothing for any other value.
    pub fn get(&self, name: &str) -> (r: Option<&Json>)
        ensures
            opt_view(r) == self@.field(name@),
    {
        match self {
            Json::Object(m) => {
                let mut i: usize = m.len();
                while i > 0
                    invariant
                        i <= m@.len(),
                        *self == Json::Object(*m),
                        forall|k: int| i <= k < m@.len() ==> #[trigger] m@[k].0@ != name@,
                    decreases i,
                {
                    i -= 1;
                    if crate::text::str_eq(m[i].0.as_str(), name) {
                        proof {
                            lemma_object_view_at(m@, name@, i as int);
                        }
                        return Some(&m[i].1);
                    }
                }
                proof {
                    lemma_object_view_missing(m@, name@);
                }
                None
            },
            _ => None,
        }
    }

    /// The characters of a string.
    pub fn as_str(&self) -> (r: Option<&str>)
        ensures
            r is Some <==> self@.text() is Some,
            r matches Some(s) ==> self@.text() == Some(s@),
    {
        match self {
            Json::Str(s) => Some(s.as_str()),
            _ => None,
        }
    }

    /// The value of a whole number that fits a signed machine word.
    pub fn as_i64(&self) -> (r: Option<i64>)
        ensures
            r == self@.integer(),
    {
        match self {
            Json::Number(Number::Unsigned(u)) => if *u <= i64::MAX as u64 {
                Some(*u as i64)
            } else {
                None
            },
            Json::Number(Number::Negative(i)) => Some(*i),
            _ => None,
        }
    }

    /// The value of a whole number that is not negative.
    pub fn as_u64(&self) -> (r: Option<u64>)
        ensures
            r == self@.unsigned(),
    {
        match self {
            Json::Number(Number::Unsigned(u)) => Some(*u),
            _ => None,
        }
    }

    /// The value of a truth value.
    pub fn as_bool(&self) -> (r: Option<bool>)
        ensures
            r == self@.truth(),
    {
        match self {
            Json::Bool(b) => Some(*b),
            _ => None,
        }
    }

    /// The items of an array.
    pub fn as_array(&self) -> (r: Option<&Vec<Json>>)
        ensures
            r is Some <==> self@.items() is Some,
            r matches Some(v) ==> self@.items() == Some(array_view(v@)),
    {
        match self {
            Json::Array(v) => Some(v),
            _ => None,
        }
    }

    /// Whether the value is an object.
    pub fn is_object(&self) -> (r: bool)
        ensures
            r == (self@ is Object),
    {
        matches!(self, Json::Object(_))
    }

    /// Whether the value is a string.
    pub fn is_string(&self) -> (r: bool)
        ensures
            r == (self@ is Str),
    {
        matches!(self, Json::Str(_))
    }

    /// Whether the value is an array.
    pub fn is_array(&self) -> (r: bool)
        ensures
            r == (self@ is Array),
    {
        matches!(self, Json::Array(_))
    }

    /// The member with the given name, where it is a string.
    pub fn get_str(&self, name: &str) -> (r: Option<&str>)
        ensures
            r is Some <==> self@.text_field(name@) is Some,
            r matches Some(s) ==> self@.text_field(name@) == Some(s@),
    {
        match self.get(name) {
            Some(v) => v.as_str(),
            None => None,
        }
    }

    /// The member with the given name, where it is a whole number.
    pub fn get_i64(&self, name: &str) -> (r: Option<i64>)
        ensures
            r == self@.integer_field(name@),
    {
        match self.get(name) {
            Some(v) => v.as_i64(),
            None => None,
        }
    }

    /// The member with the given name, where it is a truth value.
    pub fn get_bool(&self, name: &str) -> (r: Option<bool>)
        ensures
            r == self@.truth_field(name@),
    {
        match self.get(name) {
            Some(v) => v.as_bool(),
            None => None,
        }
    }

    /// The member with the given name, where it is an array.
    pub fn get_array(&self, name: &str) -> (r: Option<&Vec<Json>>)
        ensures
            r is Some <==> self@.items_field(name@) is Some,
            r matches Some(v) ==> self@.items_field(name@) == Some(array_view(v@)),
    {
        match self.get(name) {
            Some(v) => v.as_array(),
            None => None,
        }
    }

    /// The member with the given name, where it is a number.
    pub fn get_number(&self, name: &str) -> (r: Option<Number>)
        ensures
            r == self@.number_field(name@),
    {
        match self.get(name) {
            Some(Json::Number(n)) => Some(canonical(*n)),
            _ => None,
        }
    }

    /// A string.
    pub fn string(s: &str) -> (r: Json)
        ensures
            r@ == JsonView::Str(s@),
    {
        Json::Str(s.to_owned())
    }

    /// A whole number.
    pub fn whole(n: i64) -> (r: Json)
        ensures
            r@ == whole_view(n as int),
    {
        if n < 0 {
            Json::Number(Number::Negative(n))
        } else {
            Json::Number(Number::Unsigned(n as u64))
        }
    }

    /// An array of one item.
    pub fn array1(item: Json) -> (r: Json)
        ensures
            r@ == JsonView::Array(seq![item@]),
    {
        let mut v: Vec<Json> = Vec::new();
        v.push(item);
        proof {
            lemma_array_view(v@);
            assert(array_view(v@) =~= seq![item@]);
        }
        Json::Array(v)
    }

    /// An object without members.
    pub fn object() -> (r: Json)
        ensures
            r is Object,
            r@ == empty_object(),
    {
        Json::Object(Vec::new())
    }

    /// The object with one more member.
    pub fn with(self, name: &str, value: Json) -> (r: Json)
        requires
            self is Object,
        ensures
            r is Object,
            r@ == self@.with(name@, value@),
    {
        match self {
            Json::Object(m) => {
                let mut m = m;
                let ghost before = m@;
                m.push((name.to_owned(), value));
                assert(m@.drop_last() =~= before);
                Json::Object(m)
            },
            other => other,
        }
    }

    /// A copy of the value.
    pub fn copy(&self) -> (r: Json)
        ensures
            r@ == self@,
        decreases self,
    {
        match self {
            Json::Null => Json::Null,
            Json::Bool(b) => Json::Bool(*b),
            Json::Number(n) => Json::Number(*n),
            Json::Str(s) => Json::Str(s.clone()),
            Json::Array(v) => Json::Array(copy_items(v)),
            Json::Object(m) => Json::Object(copy_members(m)),
        }
    }
}

/// The text of the first of two members that is there, or another text.
pub open spec fn first_text(
    v: JsonView,
    name: Seq<char>,
    other: Seq<char>,
    default: Seq<char>,
) -> Seq<char> {
    let found = match v.field(name) {
        Some(x) => Some(x),
        None => v.field(other),
    };
    match found {
        Some(x) => match x.text() {
            Some(s) => s,
            None => default,
        },
        None => default,
    }
}

/// The text of the first of two members that is there, or another text.
pub fn first_text_of(v: &Json, name: &str, other: &str, default: &str) -> (r: String)
    ensures
        r@ == first_text(v@, name@, other@, default@),
{
    let found = match v.get(name) {
        Some(x) => Some(x),
        None => v.get(other),
    };
    match found {
        Some(x) => match x.as_str() {
            Some(s) => s.to_owned(),
            None => default.to_owned(),
        },
        None => default.to_owned(),
    }
}

/// Copies the items of an array.
pub fn copy_items(v: &Vec<Json>) -> (r: Vec<Json>)
    ensures
        array_view(r@) == array_view(v@),
    decreases v,
{
    let mut r: Vec<Json> = Vec::new();
    let mut i: usize = 0;
    while i < v.len()
        invariant
            i <= v@.len(),
            array_view(r@) == array_view(v@.subrange(0, i as int)),
        decreases v@.len() - i,
    {
        let ghost before = r@;
        r.push(v[i].copy());
        proof {
            assert(r@.drop_last() =~= before);
            assert(v@.subrange(0, i + 1).drop_last() =~= v@.subrange(0, i as int));
        }
        i += 1;
    }
    assert(v@.subrange(0, v@.len() as int) =~= v@);
    r
}

fn copy_members(m: &Vec<(String, Json)>) -> (r: Vec<(String, Json)>)
    ensures
        object_view(r@) == object_view(m@),
    decreases m,
{
    let mut r: Vec<(String, Json)> = Vec::new();
    let mut i: usize = 0;
    while i < m.len()
        invariant
            i <= m@.len(),
            object_view(r@) == object_view(m@.subrange(0, i as int)),
        decreases m@.len() - i,
    {
        let ghost before = r@;
        r.push((m[i].0.clone(), m[i].1.copy()));
        proof {
            assert(r@.drop_last() =~= before);
            assert(m@.subrange(0, i + 1).drop_last() =~= m@.subrange(0, i as int));
        }
        i += 1;
    }
    assert(m@.subrange(0, m@.len() as int) =~= m@);
    r
}

/// Whether two values hold the same: numbers of the same kind and value (the two zeros
/// of floating-point numbers are one), objects with the same members in any order.
pub fn json_eq(a: &Json, b: &Json) -> (r: bool)
    ensures
        r == (a@ == b@),
    decreases a,
{
    match (a, b) {
        (Json::Null, Json::Null) => true,
        (Json::Bool(x), Json::Bool(y)) => *x == *y,
        (Json::Number(x), Json::Number(y)) => canonical(*x) == canonical(*y),
        (Json::Str(x), Json::Str(y)) => *x == *y,
        (Json::Array(x), Json::Array(y)) => items_eq(x, y),
        (Json::Object(x), Json::Object(y)) => members_eq(x, y),
        _ => false,
    }
}

fn canonical(n: Number) -> (r: Number)
    ensures
        r == number_view(n),
{
    match n {
        Number::Float(0x8000_0000_0000_0000) => Number::Float(0),
        _ => n,
    }
}

fn items_eq(a: &Vec<Json>, b: &Vec<Json>) -> (r: bool)
    ensures
        r == (array_view(a@) == array_view(b@)),
    decreases a,
{
    proof {
        lemma_array_view(a@);
        lemma_array_view(b@);
    }
    if a.len() != b.len() {
        return false;
    }
    let mut i: usize = 0;
    while i < a.len()
        invariant
            i <= a@.len(),
            a@.len() == b@.len(),
            array_view(a@).len() == a@.len(),
            array_view(b@).len() == b@.len(),
            forall|k: int| 0 <= k < a@.len() ==> #[trigger] array_view(a@)[k] == json_view(a@[k]),
            forall|k: int| 0 <= k < b@.len() ==> #[trigger] array_view(b@)[k] == json_view(b@[k]),
            forall|k: int| 0 <= k < i ==> #[trigger] array_view(a@)[k] == array_view(b@)[k],
        decreases a@.len() - i,
    {
        if !json_eq(&a[i], &b[i]) {
            assert(array_view(a@)[i as int] != array_view(b@)[i as int]);
            return false;
        }
        assert(array_view(a@)[i as int] == array_view(b@)[i as int]);
        i += 1;
    }
    assert(array_view(a@) =~= array_view(b@));
    true
}

/// Finds the member that counts for a name.
fn find_member(m: &Vec<(String, Json)>, name: &str) -> (r: Option<usize>)
    ensures
        r matches Some(i) ==> i < m@.len() && object_view(m@).contains_key(name@)
            && object_view(m@)[name@] == json_view(m@[i as int].1),
        r is None ==> !object_view(m@).contains_key(name@),
{
    let mut i: usize = m.len();
    while i > 0
        invariant
            i <= m@.len(),
            forall|k: int| i <= k < m@.len() ==> #[trigger] m@[k].0@ != name@,
        decreases i,
    {
        i -= 1;
        if crate::text::str_eq(m[i].0.as_str(), name) {
            proof {
                lemma_object_view_at(m@, name@, i as int);
            }
            return Some(i);
        }
    }
    proof {
        lemma_object_view_missing(m@, name@);
    }
    None
}

fn members_eq(a: &Vec<(String, Json)>, b: &Vec<(String, Json)>) -> (r: bool)
    ensures
        r == (object_view(a@) == object_view(b@)),
    decreases a,
{
    let ghost am = object_view(a@);
    let ghost bm = object_view(b@);
    let mut i: usize = 0;
    while i < a.len()
        invariant
            i <= a@.len(),
            am == object_view(a@),
            bm == object_view(b@),
            forall|k: int|
                0 <= k < i ==> am.contains_key(#[trigger] a@[k].0@) && bm.contains_key(a@[k].0@)
                    && am[a@[k].0@] == bm[a@[k].0@],
        decreases a@.len() - i,
    {
        let name = a[i].0.as_str();
        match (find_member(a, name), find_member(b, name)) {
            (Some(x), Some(y)) => {
                if !json_eq(&a[x].1, &b[y].1) {
                    assert(am[name@] != bm[name@]);
                    return false;
                }
            },
            (Some(_), None) => {
                assert(am.contains_key(name@) && !bm.contains_key(name@));
                return false;
            },
            (None, _) => {
                proof {
                    lemma_object_view_occurs(a@, i as int);
                }
                return false;
            },
        }
        i += 1;
    }
    let mut j: usize = 0;
    while j < b.len()
        invariant
            j <= b@.len(),
            am == object_view(a@),
            bm == object_view(b@),
            forall|k: int| 0 <= k < j ==> am.contains_key(#[trigger] b@[k].0@),
        decreases b@.len() - j,
    {
        match find_member(a, b[j].0.as_str()) {
            Some(_) => {},
            None => {
                proof {
                    lemma_object_view_occurs(b@, j as int);
                }
                return false;
            },
        }
        j += 1;
    }
    proof {
        assert forall|name: Seq<char>| am.contains_key(name) == bm.contains_key(name) by {
            lemma_object_view_names(a@, name);
            lemma_object_view_names(b@, name);
        }
        assert forall|name: Seq<char>| am.contains_key(name) implies am[name] == bm[name] by {
            lemma_object_view_names(a@, name);
        }
        assert(am =~= bm);
    }
    true
}

/// The name of every member is in the object.
proof fn lemma_object_view_occurs(m: Seq<(String, Json)>, i: int)
    requires
        0 <= i < m.len(),
    ensures
        object_view(m).contains_key(m[i].0@),
    decreases m.len(),
{
    if i < m.len() - 1 {
        lemma_object_view_occurs(m.drop_last(), i);
        assert(m.drop_last()[i] == m[i]);
    }
}

// ---------------------------------------------------------------------------
// Reading JSON text
// ---------------------------------------------------------------------------

#[verifier::external_type_specification]
#[verifier::external_body]
pub struct ExValue(serde_json::Value);

/// What a `serde_json::Value` holds.
pub uninterp spec fn value_tree(v: serde_json::Value) -> JsonView;

/// What `serde_json::from_str` makes of a text: the value that it writes, or the
/// message of the error.
pub uninterp spec fn json_parse(text: Seq<char>) -> Result<JsonView, Seq<char>>;

/// What came of reading a text.
pub open spec fn read_outcome(r: Result<serde_json::Value, String>) -> Result<
    JsonView,
    Seq<char>,
> {
    match r {
        Ok(v) => Ok(value_tree(v)),
        Err(m) => Err(m@),
    }
}

/// Reads JSON text with `serde_json::from_str`. The contract names the result, which
/// depends on the text alone.
#[verifier::external_body]
fn read_value(text: &str) -> (r: Result<serde_json::Value, String>)
    ensures
        read_outcome(r) == json_parse(text@),
{
    match serde_json::from_str::<serde_json::Value>(text) {
        Ok(v) => Ok(v),
        Err(e) => Err(e.to_string()),
    }
}

/// One level of a `serde_json::Value`.
enum Opened<'a> {
    Null,
    Bool(bool),
    /// The number as `as_u64` and `as_i64` give it, and the bits of what `as_f64` gives.
    Number(Option<u64>, Option<i64>, u64),
    Str(&'a String),
    Array(&'a Vec<serde_json::Value>),
    Object(Vec<(&'a String, &'a serde_json::Value)>),
}

spec fn trees(s: Seq<serde_json::Value>) -> Seq<JsonView> {
    Seq::new(s.len(), |i: int| value_tree(s[i]))
}

spec fn member_trees(m: Seq<(&String, &serde_json::Value)>) -> Map<Seq<char>, JsonView>
    decreases m.len(),
{
    if m.len() == 0 {
        Map::empty()
    } else {
        member_trees(m.drop_last()).insert(m.last().0@, value_tree(*m.last().1))
    }
}

spec fn distinct_names(m: Seq<(&String, &serde_json::Value)>) -> bool {
    forall|j: int, k: int| 0 <= j < k < m.len() ==> #[trigger] m[j].0@ != #[trigger] m[k].0@
}

/// The opened value is one level of the tree. A number is one of three kinds: whole and
/// not negative (`as_u64` gives it), negative and whole (only `as_i64` gives it), or
/// floating-point. The names in an object are distinct.
spec fn opens(o: Opened<'_>, tree: JsonView) -> bool {
    match o {
        Opened::Null => tree is Null,
        Opened::Bool(b) => tree == JsonView::Bool(b),
        Opened::Number(Some(u), _, _) => tree == JsonView::Number(Number::Unsigned(u)),
        Opened::Number(None, Some(i), _) => tree == JsonView::Number(Number::Negative(i)),
        Opened::Number(None, None, bits) => tree == JsonView::Number(
            number_view(Number::Float(bits)),
        ),
        Opened::Str(s) => tree == JsonView::Str(s@),
        Opened::Array(v) => tree == JsonView::Array(trees(v@)),
        Opened::Object(m) => distinct_names(m@) && tree == JsonView::Object(member_trees(m@)),
    }
}

/// Takes one level off a `serde_json::Value`, variant by variant: a number by
/// `Number::as_u64`, `as_i64` and `as_f64`, the members of an object as the map hands
/// them out. The contract says that the parts make up the whole.
#[verifier::external_body]
fn open_value(v: &serde_json::Value) -> (r: Opened<'_>)
    ensures
        opens(r, value_tree(*v)),
{
    match v {
        serde_json::Value::Null => Opened::Null,
        serde_json::Value::Bool(b) => Opened::Bool(*b),
        serde_json::Value::Number(n) => {
            Opened::Number(n.as_u64(), n.as_i64(), n.as_f64().map_or(0, |x| x.to_bits()))
        },
        serde_json::Value::String(s) => Opened::Str(s),
        serde_json::Value::Array(a) => Opened::Array(a),
        serde_json::Value::Object(m) => Opened::Object(m.iter().collect()),
    }
}

/// The tree of a member stands in the map of the members.
proof fn lemma_member_trees(m: Seq<(&String, &serde_json::Value)>, i: int)
    requires
        0 <= i < m.len(),
        distinct_names(m),
    ensures
        member_trees(m).contains_key(m[i].0@),
        member_trees(m)[m[i].0@] == value_tree(*m[i].1),
        member_trees(m).dom().finite(),
    decreases m.len(),
{
    lemma_member_trees_finite(m);
    if i < m.len() - 1 {
        assert(distinct_names(m.drop_last())) by {
            assert forall|j: int, k: int| 0 <= j < k < m.drop_last().len() implies #[trigger] m.drop_last()[j].0@
                != #[trigger] m.drop_last()[k].0@ by {
                assert(m.drop_last()[j] == m[j] && m.drop_last()[k] == m[k]);
            }
        }
        lemma_member_trees(m.drop_last(), i);
        assert(m.drop_last()[i] == m[i]);
        assert(m[i].0@ != m[m.len() - 1].0@);
    }
}

proof fn lemma_member_trees_finite(m: Seq<(&String, &serde_json::Value)>)
    ensures
        member_trees(m).dom().finite(),
    decreases m.len(),
{
    if m.len() > 0 {
        lemma_member_trees_finite(m.drop_last());
    }
}

/// The library's value for a `serde_json::Value`.
fn to_json(v: &serde_json::Value) -> (r: Json)
    ensures
        r@ == value_tree(*v),
    decreases value_tree(*v),
{
    match open_value(v) {
        Opened::Null => Json::Null,
        Opened::Bool(b) => Json::Bool(b),
        Opened::Number(Some(u), _, _) => Json::Number(Number::Unsigned(u)),
        Opened::Number(None, Some(i), _) => Json::Number(Number::Negative(i)),
        Opened::Number(None, None, bits) => Json::Number(Number::Float(bits)),
        Opened::Str(s) => Json::Str(s.clone()),
        Opened::Array(items) => {
            let mut out: Vec<Json> = Vec::new();
            let mut i: usize = 0;
            while i < items.len()
                invariant
                    i <= items@.len(),
                    value_tree(*v) == JsonView::Array(trees(items@)),
                    array_view(out@) == trees(items@.subrange(0, i as int)),
                decreases items@.len() - i,
            {
                let ghost before = out@;
                proof {
                    let whole = value_tree(*v);
                    assert(whole->Array_0[i as int] == value_tree(items@[i as int]));
                    assert(decreases_to!(whole => whole->Array_0));
                    assert(decreases_to!(whole->Array_0 => whole->Array_0[i as int]));
                }
                out.push(to_json(&items[i]));
                proof {
                    assert(out@.drop_last() =~= before);
                    assert(trees(items@.subrange(0, i + 1)) =~= trees(
                        items@.subrange(0, i as int),
                    ).push(value_tree(items@[i as int])));
                }
                i += 1;
            }
            assert(items@.subrange(0, items@.len() as int) =~= items@);
            Json::Array(out)
        },
        Opened::Object(members) => {
            let mut out: Vec<(String, Json)> = Vec::new();
            let mut i: usize = 0;
            while i < members.len()
                invariant
                    i <= members@.len(),
                    distinct_names(members@),
                    value_tree(*v) == JsonView::Object(member_trees(members@)),
                    object_view(out@) == member_trees(members@.subrange(0, i as int)),
                decreases members@.len() - i,
            {
                let ghost before = out@;
                let (name, value) = members[i];
                proof {
                    lemma_member_trees(members@, i as int);
                    let whole = value_tree(*v);
                    assert(whole->Object_0[name@] == value_tree(*value));
                    assert(decreases_to!(whole => whole->Object_0));
                    assert(decreases_to!(whole->Object_0 => whole->Object_0[name@]));
                }
                out.push((name.clone(), to_json(value)));
                proof {
                    assert(out@.drop_last() =~= before);
                    assert(members@.subrange(0, i + 1).drop_last() =~= members@.subrange(
                        0,
                        i as int,
                    ));
                }
                i += 1;
            }
            assert(members@.subrange(0, members@.len() as int) =~= members@);
            Json::Object(out)
        },
    }
}

/// What came of reading a text, in the library's own types.
pub open spec fn parse_outcome(r: Result<Json, String>) -> Result<JsonView, Seq<char>> {
    match r {
        Ok(j) => Ok(j@),
        Err(m) => Err(m@),
    }
}

/// Reads JSON text: the value that it writes, or the message of the error.
pub fn parse(text: &str) -> (r: Result<Json, String>)
    ensures
        parse_outcome(r) == json_parse(text@),
{
    match read_value(text) {
        Ok(v) => Ok(to_json(&v)),
        Err(m) => Err(m),
    }
}

} // verus!
