//! JSON values. [`Json`] is the library's own tree of plain values, which the rest
//! of the library reads and builds; `serde_json` reads it from text and writes it as
//! text.
use crate::text::copy;
use crate::text::same;
use crate::text::tenths_text;
use vstd::prelude::*;
use vstd::string::*;

verus! {

/// `serde_json`'s value, which this library takes apart and puts together.
#[verifier::external_type_specification]
#[verifier::external_body]
pub struct ExValue(serde_json::Value);

/// `serde_json`'s number, carried through where it is not an integer.
#[verifier::external_type_specification]
#[verifier::external_body]
pub struct ExNumber(serde_json::Number);

/// `serde_json`'s object: a map from member names to values.
#[verifier::external_type_specification]
#[verifier::external_body]
#[verifier::reject_recursive_types(K)]
#[verifier::reject_recursive_types(V)]
pub struct ExMembers<K, V>(serde_json::Map<K, V>);

/// What `serde_json` says of a text that is not JSON.
#[verifier::external_type_specification]
#[verifier::external_body]
pub struct ExError(serde_json::Error);

/// What a JSON value is.
pub enum JsonView {
    Null,
    Bool(bool),
    /// An integer that fits in 64 bits, with or without a sign.
    Int(int),
    /// Any other number.
    Real(serde_json::Number),
    Text(Seq<char>),
    List(Seq<JsonView>),
    /// The members by name; JSON gives them no order.
    Object(Map<Seq<char>, JsonView>),
}

/// A JSON value.
pub enum Json {
    Null,
    Bool(bool),
    Uint(u64),
    Int(i64),
    /// A number as it was read.
    Number(serde_json::Number),
    Text(String),
    List(Vec<Json>),
    /// The members; of two with the same name the later one counts.
    Object(Vec<(String, Json)>),
}

/// The values of a list.
pub open spec fn list_view(s: Seq<Json>) -> Seq<JsonView>
    decreases s,
{
    if s.len() == 0 {
        Seq::empty()
    } else {
        list_view(s.drop_last()).push(s.last()@)
    }
}

/// The members of an object by name.
pub open spec fn members_view(s: Seq<(String, Json)>) -> Map<Seq<char>, JsonView>
    decreases s,
{
    if s.len() == 0 {
        Map::empty()
    } else {
        members_view(s.drop_last()).insert(s.last().0@, s.last().1@)
    }
}

impl Json {
    /// What the value is.
    pub open spec fn view(&self) -> JsonView
        decreases self,
    {
        match self {
            Json::Null => JsonView::Null,
            Json::Bool(b) => JsonView::Bool(*b),
            Json::Uint(n) => JsonView::Int(*n as int),
            Json::Int(n) => JsonView::Int(*n as int),
            Json::Number(n) => number_view(*n),
            Json::Text(s) => JsonView::Text(s@),
            Json::List(v) => JsonView::List(list_view(v@)),
            Json::Object(v) => JsonView::Object(members_view(v@)),
        }
    }
}

/// The integer that `serde_json::Number::as_i128` says a number is, if it is one.
pub uninterp spec fn whole(n: serde_json::Number) -> Option<i128>;

/// What a number of `serde_json` is.
pub open spec fn number_view(n: serde_json::Number) -> JsonView {
    match whole(n) {
        Some(i) => JsonView::Int(i as int),
        None => JsonView::Real(n),
    }
}

/// What a value of `serde_json` holds.
pub uninterp spec fn contents(v: serde_json::Value) -> JsonView;

/// What an object of `serde_json` holds: its members by name.
pub uninterp spec fn members(m: serde_json::Map<String, serde_json::Value>) -> Map<
    Seq<char>,
    JsonView,
>;

/// The JSON value that `serde_json::from_str` reads from a text, if the text is one.
pub uninterp spec fn parsed(text: Seq<char>) -> Option<JsonView>;

/// The compact text that `serde_json` writes for a JSON value.
pub uninterp spec fn rendered(j: JsonView) -> Seq<char>;

/// The compact text that `serde_json` writes for an object's members in the order that they
/// are given in.
pub uninterp spec fn rendered_in_order(members: Seq<(Seq<char>, JsonView)>) -> Seq<char>;

/// Whether a value nests at most `depth` deep and holds no number but integers.
pub open spec fn readable(j: JsonView, depth: nat) -> bool
    decreases depth,
{
    match j {
        JsonView::Real(_) => false,
        JsonView::List(s) => depth > 0 && forall|i: int|
            0 <= i < s.len() ==> #[trigger] readable(s[i], (depth - 1) as nat),
        JsonView::Object(m) => depth > 0 && forall|k: Seq<char>| #[trigger]
            m.contains_key(k) ==> readable(m[k], (depth - 1) as nat),
        _ => true,
    }
}

/// How deep a value may nest for `serde_json` to read it back.
pub open spec fn max_depth() -> nat {
    127
}

/// Whether a text begins and ends with braces.
pub open spec fn braced(text: Seq<char>) -> bool {
    text.len() >= 2 && text.first() == '{' && text.last() == '}'
}

/// One level of a value of `serde_json`.
pub enum Shape {
    Null,
    Bool(bool),
    Number(serde_json::Number),
    Text(String),
    List(Vec<serde_json::Value>),
    Object(Vec<(String, serde_json::Value)>),
}

/// The members of an object by name, one level of them taken apart.
pub open spec fn pairs_view(s: Seq<(String, serde_json::Value)>) -> Map<Seq<char>, JsonView>
    decreases s.len(),
{
    if s.len() == 0 {
        Map::empty()
    } else {
        pairs_view(s.drop_last()).insert(s.last().0@, contents(s.last().1))
    }
}

/// What a value is whose first level is `s`.
pub open spec fn shape_view(s: Shape) -> JsonView {
    match s {
        Shape::Null => JsonView::Null,
        Shape::Bool(b) => JsonView::Bool(b),
        Shape::Number(n) => number_view(n),
        Shape::Text(t) => JsonView::Text(t@),
        Shape::List(v) => JsonView::List(v@.map_values(|x: serde_json::Value| contents(x))),
        Shape::Object(v) => JsonView::Object(pairs_view(v@)),
    }
}

/// `serde_json::from_str`, asked for a `serde_json::Value`: whether a text is JSON,
/// and the value it writes, depend on the text alone.
#[verifier::external_body]
fn parse_value(text: &str) -> (r: Result<serde_json::Value, serde_json::Error>)
    ensures
        r is Ok <==> parsed(text@) is Some,
        r matches Ok(v) ==> parsed(text@) == Some(contents(v)),
{
    serde_json::from_str(text)
}

/// `serde_json::Value`'s `to_string`, its compact format: the text depends on what
/// the value holds alone. It has no line feed in it, since the format has no white
/// space and writes control characters in strings as escapes. An object's text begins
/// and ends with its braces. Reading the text gives the value back, unless it holds a number that is no integer or nests deeper than
/// the reader goes.
#[verifier::external_body]
fn render_value(v: &serde_json::Value) -> (r: String)
    ensures
        r@ == rendered(contents(*v)),
        !r@.contains('\n'),
        contents(*v) is Object ==> braced(r@),
        readable(contents(*v), max_depth()) ==> parsed(r@) == Some(contents(*v)),
{
    v.to_string()
}

/// The members in their order, by name and what they hold.
pub open spec fn pairs_list(s: Seq<(String, serde_json::Value)>) -> Seq<(Seq<char>, JsonView)> {
    s.map_values(|p: (String, serde_json::Value)| (p.0@, contents(p.1)))
}

/// `serde::Serializer::collect_map` of `serde_json`'s compact serializer: an object with
/// these members in this order. The text depends on the members and their order alone.
/// Where no name comes twice, reading it gives the object back, under the same limits as
/// for any value.
#[verifier::external_body]
fn render_members(list: Vec<(String, serde_json::Value)>) -> (r: String)
    ensures
        r@ == rendered_in_order(pairs_list(list@)),
        (forall|i: int, j: int|
            0 <= i < j < list@.len() ==> (#[trigger] list@[i]).0@ != (#[trigger] list@[j]).0@)
            && readable(JsonView::Object(pairs_view(list@)), max_depth()) ==> parsed(r@) == Some(
            JsonView::Object(pairs_view(list@)),
        ),
{
    let mut out = serde_json::Serializer::new(Vec::new());
    serde::Serializer::collect_map(&mut out, list).unwrap();
    String::from_utf8(out.into_inner()).unwrap()
}

/// `serde_json::Number::as_i128`: the integer that a number is, none where it is no
/// integer. It depends on the number alone.
#[verifier::external_body]
fn whole_number(n: &serde_json::Number) -> (r: Option<i128>)
    ensures
        r == whole(*n),
{
    n.as_i128()
}

/// Takes one level of a `serde_json::Value` apart by its variants; an object is listed
/// member by member, each name once.
#[verifier::external_body]
fn shape(v: serde_json::Value) -> (s: Shape)
    ensures
        shape_view(s) == contents(v),
        s matches Shape::Object(p) ==> forall|i: int, j: int|
            0 <= i < j < p@.len() ==> (#[trigger] p@[i]).0@ != (#[trigger] p@[j]).0@,
{
    match v {
        serde_json::Value::Null => Shape::Null,
        serde_json::Value::Bool(b) => Shape::Bool(b),
        serde_json::Value::Number(n) => Shape::Number(n),
        serde_json::Value::String(s) => Shape::Text(s),
        serde_json::Value::Array(a) => Shape::List(a),
        serde_json::Value::Object(m) => Shape::Object(m.into_iter().collect()),
    }
}

/// `serde_json::Value::Null`.
#[verifier::external_body]
fn value_null() -> (v: serde_json::Value)
    ensures
        contents(v) == JsonView::Null,
{
    serde_json::Value::Null
}

/// `serde_json::Value::Bool`.
#[verifier::external_body]
fn value_bool(b: bool) -> (v: serde_json::Value)
    ensures
        contents(v) == JsonView::Bool(b),
{
    serde_json::Value::Bool(b)
}

/// `serde_json::Value` from a `u64`: that integer.
#[verifier::external_body]
fn value_uint(n: u64) -> (v: serde_json::Value)
    ensures
        contents(v) == JsonView::Int(n as int),
{
    serde_json::Value::from(n)
}

/// `serde_json::Value` from an `i64`: that integer.
#[verifier::external_body]
fn value_int(n: i64) -> (v: serde_json::Value)
    ensures
        contents(v) == JsonView::Int(n as int),
{
    serde_json::Value::from(n)
}

/// `serde_json::Value::Number`: that number.
#[verifier::external_body]
fn value_number(n: serde_json::Number) -> (v: serde_json::Value)
    ensures
        contents(v) == number_view(n),
{
    serde_json::Value::Number(n)
}

/// `serde_json::Value::String`.
#[verifier::external_body]
fn value_text(s: String) -> (v: serde_json::Value)
    ensures
        contents(v) == JsonView::Text(s@),
{
    serde_json::Value::String(s)
}

/// `serde_json::Value::Array`: the values in their order.
#[verifier::external_body]
fn value_list(items: Vec<serde_json::Value>) -> (v: serde_json::Value)
    ensures
        contents(v) == JsonView::List(items@.map_values(|x: serde_json::Value| contents(x))),
{
    serde_json::Value::Array(items)
}

/// `serde_json::Value::Object`: the members of the map.
#[verifier::external_body]
fn value_object(m: serde_json::Map<String, serde_json::Value>) -> (v: serde_json::Value)
    ensures
        contents(v) == JsonView::Object(members(m)),
{
    serde_json::Value::Object(m)
}

/// `serde_json::Map::new`: a map without members.
#[verifier::external_body]
fn no_members() -> (m: serde_json::Map<String, serde_json::Value>)
    ensures
        (members(m) == Map::<Seq<char>, JsonView>::empty()),
{
    serde_json::Map::new()
}

/// `serde_json::Map::insert`: the name then has this value, whether it had one
/// before or not, and the other members stay.
#[verifier::external_body]
fn insert_member(
    m: &mut serde_json::Map<String, serde_json::Value>,
    name: String,
    value: serde_json::Value,
)
    ensures
        members(*final(m)) == members(*old(m)).insert(name@, contents(value)),
{
    m.insert(name, value);
}

/// With each name once, every pair is a member.
proof fn pairs_are_members(s: Seq<(String, serde_json::Value)>, i: int)
    requires
        0 <= i < s.len(),
        forall|i: int, j: int|
            0 <= i < j < s.len() ==> (#[trigger] s[i]).0@ != (#[trigger] s[j]).0@,
    ensures
        pairs_view(s).contains_key(s[i].0@),
        pairs_view(s)[s[i].0@] == contents(s[i].1),
    decreases s.len(),
{
    if i < s.len() - 1 {
        pairs_are_members(s.drop_last(), i);
        assert(s.drop_last()[i] == s[i]);
        assert(s.last() == s[s.len() - 1]);
    }
}

/// An object has finitely many members.
proof fn pairs_finite(s: Seq<(String, serde_json::Value)>)
    ensures
        pairs_view(s).dom().finite(),
    decreases s.len(),
{
    if s.len() > 0 {
        pairs_finite(s.drop_last());
    }
}

/// Takes a value of `serde_json` over into the library's own tree.
fn from_value(v: serde_json::Value) -> (j: Json)
    ensures
        j@ == contents(v),
    decreases contents(v),
{
    let ghost root = contents(v);
    match shape(v) {
        Shape::Null => Json::Null,
        Shape::Bool(b) => Json::Bool(b),
        Shape::Number(n) => Json::Number(n),
        Shape::Text(t) => Json::Text(t),
        Shape::List(items) => {
            let ghost all = items@.map_values(|x: serde_json::Value| contents(x));
            let mut list: Vec<Json> = Vec::new();
            for x in it: items
                invariant
                    it.seq() == items@,
                    root == contents(v),
                    root == JsonView::List(all),
                    all == items@.map_values(|x: serde_json::Value| contents(x)),
                    list_view(list@) =~= all.take(it.index() as int),
            {
                let ghost before = list@;
                assert(all[it.index() as int] == contents(x));
                assert(decreases_to!(root => root->List_0));
                assert(decreases_to!(root->List_0 => root->List_0[it.index() as int]));
                assert(decreases_to!(root => contents(x)));
                list.push(from_value(x));
                assert(list@.drop_last() =~= before);
            }
            assert(all.take(all.len() as int) =~= all);
            Json::List(list)
        },
        Shape::Object(pairs) => {
            let ghost all = pairs_view(pairs@);
            let mut list: Vec<(String, Json)> = Vec::new();
            assert(pairs@.take(0) =~= Seq::empty());
            for p in it: pairs
                invariant
                    it.seq() == pairs@,
                    root == contents(v),
                    root == JsonView::Object(all),
                    all == pairs_view(pairs@),
                    forall|i: int, j: int|
                        0 <= i < j < pairs@.len() ==> (#[trigger] pairs@[i]).0@ != (
                        #[trigger] pairs@[j]).0@,
                    members_view(list@) =~= pairs_view(pairs@.take(it.index() as int)),
            {
                let ghost before = list@;
                let ghost k = it.index() as int;
                proof {
                    pairs_are_members(pairs@, k);
                    pairs_finite(pairs@);
                    assert(pairs@.take(k + 1).drop_last() =~= pairs@.take(k));
                    assert(decreases_to!(root => root->Object_0));
                    assert(decreases_to!(root->Object_0 => root->Object_0[pairs@[k].0@]));
                    assert(decreases_to!(root => contents(p.1)));
                }
                let (name, value) = p;
                list.push((name, from_value(value)));
                assert(list@.drop_last() =~= before);
            }
            assert(pairs@.take(pairs@.len() as int) =~= pairs@);
            Json::Object(list)
        },
    }
}

/// Puts the library's own tree together as a value of `serde_json`.
fn to_value(j: Json) -> (v: serde_json::Value)
    ensures
        contents(v) == j@,
    decreases j,
{
    match j {
        Json::Null => value_null(),
        Json::Bool(b) => value_bool(b),
        Json::Uint(n) => value_uint(n),
        Json::Int(n) => value_int(n),
        Json::Number(n) => value_number(n),
        Json::Text(s) => value_text(s),
        Json::List(list) => {
            let mut items: Vec<serde_json::Value> = Vec::new();
            assert(list@.take(0) =~= Seq::empty());
            for x in it: list
                invariant
                    it.seq() == list@,
                    j == Json::List(list),
                    items@.map_values(|x: serde_json::Value| contents(x)) =~= list_view(
                        list@.take(it.index() as int),
                    ),
            {
                let ghost k = it.index() as int;
                assert(list@.take(k + 1).drop_last() =~= list@.take(k));
                assert(decreases_to!(j => j->List_0));
                assert(decreases_to!(j->List_0 => j->List_0@));
                assert(decreases_to!(j->List_0@ => j->List_0@[k]));
                items.push(to_value(x));
            }
            assert(list@.take(list@.len() as int) =~= list@);
            value_list(items)
        },
        Json::Object(list) => {
            let mut m = no_members();
            assert(list@.take(0) =~= Seq::empty());
            for p in it: list
                invariant
                    it.seq() == list@,
                    j == Json::Object(list),
                    members(m) =~= members_view(list@.take(it.index() as int)),
            {
                let ghost k = it.index() as int;
                proof {
                    assert(list@.take(k + 1).drop_last() =~= list@.take(k));
                    assert(decreases_to!(j => j->Object_0));
                    assert(decreases_to!(j->Object_0 => j->Object_0@));
                    assert(decreases_to!(j->Object_0@ => j->Object_0@[k]));
                    assert(decreases_to!(j->Object_0@[k] => j->Object_0@[k].1));
                }
                let (name, value) = p;
                insert_member(&mut m, name, to_value(value));
            }
            assert(list@.take(list@.len() as int) =~= list@);
            value_object(m)
        },
    }
}

/// Reads a text as JSON.
pub fn read(text: &str) -> (r: Option<Json>)
    ensures
        r is Some <==> parsed(text@) is Some,
        r matches Some(j) ==> parsed(text@) == Some(j@),
{
    match parse_value(text) {
        Ok(v) => Some(from_value(v)),
        Err(_) => None,
    }
}

/// Writes a value as compact JSON text. The text is one line, and reading it gives
/// the value back where the value is [`readable`].
pub fn to_text(j: Json) -> (r: String)
    ensures
        r@ == rendered(j@),
        !r@.contains('\n'),
        j@ is Object ==> braced(r@),
        readable(j@, max_depth()) ==> parsed(r@) == Some(j@),
{
    render_value(&to_value(j))
}

/// The bytes of a line of JSON: the compact text and a line feed, in UTF-8.
pub open spec fn line_bytes(j: JsonView) -> Seq<u8> {
    vstd::utf8::encode_utf8(rendered(j).push('\n'))
}

/// Writes a value as a line of JSON. The line feed is the last character and no
/// other, and reading the rest gives the value back where the value is [`readable`].
pub fn to_line(j: Json) -> (r: Vec<u8>)
    ensures
        r@ == line_bytes(j@),
        !rendered(j@).contains('\n'),
        j@ is Object ==> braced(rendered(j@)),
        readable(j@, max_depth()) ==> parsed(rendered(j@)) == Some(j@),
{
    let mut text = to_text(j);
    text.push('\n');
    text.as_str().as_bytes_vec()
}

/// The members of an object in their order, by name and value.
pub open spec fn members_list(s: Seq<(String, Json)>) -> Seq<(Seq<char>, JsonView)> {
    s.map_values(|p: (String, Json)| (p.0@, p.1@))
}

/// Writes an object as compact JSON text, its members in the order that they are given in.
/// Where no name comes twice and the object is [`readable`], reading the text gives it back.
pub fn to_text_in_order(list: Vec<(String, Json)>) -> (r: String)
    ensures
        r@ == rendered_in_order(members_list(list@)),
        (forall|i: int, j: int|
            0 <= i < j < list@.len() ==> (#[trigger] list@[i]).0@ != (#[trigger] list@[j]).0@)
            && readable(JsonView::Object(members_view(list@)), max_depth()) ==> parsed(r@) == Some(
            JsonView::Object(members_view(list@)),
        ),
{
    let mut pairs: Vec<(String, serde_json::Value)> = Vec::new();
    assert(list@.take(0) =~= Seq::empty());
    for p in it: list
        invariant
            it.seq() == list@,
            pairs@.len() == it.index(),
            forall|i: int| 0 <= i < pairs@.len() ==> (#[trigger] pairs@[i]).0@ == list@[i].0@,
            pairs_list(pairs@) =~= members_list(list@.take(it.index() as int)),
            pairs_view(pairs@) =~= members_view(list@.take(it.index() as int)),
    {
        let ghost k = it.index() as int;
        let ghost before = pairs@;
        assert(list@.take(k + 1).drop_last() =~= list@.take(k));
        let (name, value) = p;
        pairs.push((name, to_value(value)));
        assert(pairs@.drop_last() =~= before);
        assert(pairs_list(pairs@) =~= pairs_list(before).push((list@[k].0@, list@[k].1@)));
        assert(members_list(list@.take(k + 1)) =~= members_list(list@.take(k)).push(
            (list@[k].0@, list@[k].1@),
        ));
    }
    assert(list@.take(list@.len() as int) =~= list@);
    render_members(pairs)
}

/// The JSON number that `n` tenths are: what reading their decimal notation gives.
pub open spec fn tenths_json(n: nat) -> JsonView {
    match parsed(crate::text::tenths(n)) {
        Some(j) => j,
        None => JsonView::Null,
    }
}

/// A number of tenths as JSON.
pub fn from_tenths(n: u64) -> (j: Json)
    ensures
        j@ == tenths_json(n as nat),
{
    match read(tenths_text(n).as_str()) {
        Some(j) => j,
        None => Json::Null,
    }
}

impl JsonView {
    /// The member of an object with a name.
    pub open spec fn get(self, name: Seq<char>) -> Option<JsonView> {
        match self {
            JsonView::Object(m) => if m.contains_key(name) {
                Some(m[name])
            } else {
                None
            },
            _ => None,
        }
    }

    /// The characters of a text.
    pub open spec fn as_str(self) -> Option<Seq<char>> {
        match self {
            JsonView::Text(s) => Some(s),
            _ => None,
        }
    }

    /// The number, where it is an integer that fits in 64 bits without a sign.
    pub open spec fn as_u64(self) -> Option<u64> {
        match self {
            JsonView::Int(n) => if 0 <= n <= u64::MAX {
                Some(n as u64)
            } else {
                None
            },
            _ => None,
        }
    }

    /// The characters of the text that a member of an object is.
    pub open spec fn text(self, name: Seq<char>) -> Option<Seq<char>> {
        match self.get(name) {
            Some(j) => j.as_str(),
            None => None,
        }
    }

    /// The number that a member of an object is, as [`JsonView::as_u64`] has it.
    pub open spec fn uint(self, name: Seq<char>) -> Option<u64> {
        match self.get(name) {
            Some(j) => j.as_u64(),
            None => None,
        }
    }
}

/// The place of the pair that gives a name its value, if one does.
fn place(list: &Vec<(String, Json)>, name: &str) -> (r: Option<usize>)
    ensures
        r is Some <==> members_view(list@).contains_key(name@),
        r matches Some(i) ==> i < list@.len() && list@[i as int].0@ == name@ && list@[i as int].1@
            == members_view(list@)[name@],
{
    let mut n: usize = list.len();
    assert(list@.take(n as int) =~= list@);
    while n > 0
        invariant
            n <= list@.len(),
            members_view(list@).contains_key(name@) <==> members_view(
                list@.take(n as int),
            ).contains_key(name@),
            members_view(list@).contains_key(name@) ==> members_view(list@)[name@]
                == members_view(list@.take(n as int))[name@],
        decreases n,
    {
        assert(list@.take(n as int).drop_last() =~= list@.take(n - 1));
        assert(list@.take(n as int).last() == list@[n - 1]);
        if same(list[n - 1].0.as_str(), name) {
            return Some(n - 1);
        }
        n = n - 1;
    }
    None
}

impl Json {
    /// A text as JSON.
    pub fn text(s: &str) -> (j: Json)
        ensures
            j@ == JsonView::Text(s@),
    {
        Json::Text(copy(s))
    }

    /// The member of an object with a name; none where there is no such member or the
    /// value is no object.
    pub fn get(&self, name: &str) -> (r: Option<&Json>)
        ensures
            r is Some <==> self@.get(name@) is Some,
            r matches Some(j) ==> self@.get(name@) == Some(j@),
    {
        match self {
            Json::Object(list) => match place(list, name) {
                Some(i) => Some(&list[i].1),
                None => None,
            },
            _ => None,
        }
    }

    /// Takes the member of an object with a name out of it.
    pub fn take(self, name: &str) -> (r: Option<Json>)
        ensures
            r is Some <==> self@.get(name@) is Some,
            r matches Some(j) ==> self@.get(name@) == Some(j@),
    {
        match self {
            Json::Object(list) => match place(&list, name) {
                Some(i) => {
                    let mut list = list;
                    let (_, value) = list.swap_remove(i);
                    Some(value)
                },
                None => None,
            },
            _ => None,
        }
    }

    /// The text, where the value is one.
    pub fn as_str(&self) -> (r: Option<&String>)
        ensures
            r is Some <==> self@.as_str() is Some,
            r matches Some(s) ==> self@.as_str() == Some(s@),
    {
        match self {
            Json::Text(s) => Some(s),
            _ => None,
        }
    }

    /// The number, where the value is an integer that fits in 64 bits without a sign.
    pub fn as_u64(&self) -> (r: Option<u64>)
        ensures
            r == self@.as_u64(),
    {
        match self {
            Json::Uint(n) => Some(*n),
            Json::Int(n) => if *n >= 0 {
                Some(*n as u64)
            } else {
                None
            },
            Json::Number(n) => match whole_number(n) {
                Some(i) => if 0 <= i && i <= u64::MAX as i128 {
                    Some(i as u64)
                } else {
                    None
                },
                None => None,
            },
            _ => None,
        }
    }

    /// Whether the value is `null`.
    pub fn is_null(&self) -> (r: bool)
        ensures
            r == (self@ == JsonView::Null),
    {
        match self {
            Json::Null => true,
            _ => false,
        }
    }

    /// A copy of the text that a member of an object is.
    pub fn text_member(&self, name: &str) -> (r: Option<String>)
        ensures
            r is Some <==> self@.text(name@) is Some,
            r matches Some(s) ==> self@.text(name@) == Some(s@),
    {
        match self.get(name) {
            Some(j) => match j.as_str() {
                Some(s) => Some(copy(s.as_str())),
                None => None,
            },
            None => None,
        }
    }

    /// The number that a member of an object is, as [`Json::as_u64`] has it.
    pub fn uint_member(&self, name: &str) -> (r: Option<u64>)
        ensures
            r == self@.uint(name@),
    {
        match self.get(name) {
            Some(j) => j.as_u64(),
            None => None,
        }
    }
}

/// Gives an object a member, behind the others and in place of one with the same name.
pub fn add_member(list: &mut Vec<(String, Json)>, name: &str, value: Json)
    ensures
        members_view(final(list)@) == members_view(old(list)@).insert(name@, value@),
        members_list(final(list)@) == members_list(old(list)@).push((name@, value@)),
{
    list.push((copy(name), value));
    assert(list@.drop_last() =~= old(list)@);
    assert(members_list(list@) =~= members_list(old(list)@).push((name@, value@)));
}

/// Puts a value at the end of a list.
pub fn add_item(list: &mut Vec<Json>, value: Json)
    ensures
        list_view(final(list)@) == list_view(old(list)@).push(value@),
{
    list.push(value);
    assert(list@.drop_last() =~= old(list)@);
}

}
