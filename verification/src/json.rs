//! JSON values, and the way from text to value and back, which `serde_json` goes.

use vstd::prelude::*;
use crate::text::same;

verus! {

/// A JSON value.
///
/// `Unsigned` is a number that the library writes itself. A number that was read is carried
/// along as it came, and looked into only for the unsigned integer that it may be.
#[derive(Debug)]
pub enum Json {
    Null,
    Bool(bool),
    Unsigned(u64),
    Number(serde_json::Number),
    Text(String),
    List(Vec<Json>),
    Object(Vec<Member>),
}

/// One key of a JSON object with its value.
#[derive(Debug)]
pub struct Member {
    pub key: String,
    pub value: Json,
}

/// What a JSON value is: an object is a map, whatever the order of its members.
pub enum JsonView {
    Null,
    Bool(bool),
    Unsigned(u64),
    Other(serde_json::Number),
    Text(Seq<char>),
    List(Seq<JsonView>),
    Object(Map<Seq<char>, JsonView>),
}

/// A number of `serde_json`.
#[verifier::external_type_specification]
#[verifier::external_body]
pub struct ExNumber(serde_json::Number);

/// A value of `serde_json`.
#[verifier::external_type_specification]
#[verifier::external_body]
pub struct ExValue(serde_json::Value);

impl View for Json {
    type V = JsonView;

    open spec fn view(&self) -> JsonView
        decreases self,
    {
        match self {
            Json::Null => JsonView::Null,
            Json::Bool(b) => JsonView::Bool(*b),
            Json::Unsigned(n) => JsonView::Unsigned(*n),
            Json::Number(n) => number_view(*n),
            Json::Text(s) => JsonView::Text(s@),
            Json::List(v) => JsonView::List(list_view(v@)),
            Json::Object(v) => JsonView::Object(members_view(v@)),
        }
    }
}

/// The members of an object as a map, in which the last of two members with one key counts.
pub open spec fn members_view(v: Seq<Member>) -> Map<Seq<char>, JsonView>
    decreases v,
{
    if v.len() == 0 {
        Map::empty()
    } else {
        members_view(v.drop_last()).insert(v.last().key@, v.last().value@)
    }
}

/// The items of a list.
pub open spec fn list_view(v: Seq<Json>) -> Seq<JsonView>
    decreases v,
{
    Seq::new(v.len(), |i: int| if 0 <= i < v.len() { v[i]@ } else { arbitrary() })
}

impl JsonView {
    /// The value under a key, where this is an object that has the key.
    pub open spec fn field(self, key: Seq<char>) -> Option<JsonView> {
        match self {
            JsonView::Object(m) => if m.dom().contains(key) {
                Some(m[key])
            } else {
                None
            },
            _ => None,
        }
    }

    /// The text under a key.
    pub open spec fn text_field(self, key: Seq<char>) -> Option<Seq<char>> {
        match self.field(key) {
            Some(JsonView::Text(s)) => Some(s),
            _ => None,
        }
    }

    /// The truth value under a key.
    pub open spec fn bool_field(self, key: Seq<char>) -> Option<bool> {
        match self.field(key) {
            Some(JsonView::Bool(b)) => Some(b),
            _ => None,
        }
    }

    /// The unsigned integer under a key.
    pub open spec fn unsigned_field(self, key: Seq<char>) -> Option<u64> {
        match self.field(key) {
            Some(JsonView::Unsigned(n)) => Some(n),
            _ => None,
        }
    }

    /// The list under a key.
    pub open spec fn list_field(self, key: Seq<char>) -> Option<Seq<JsonView>> {
        match self.field(key) {
            Some(JsonView::List(v)) => Some(v),
            _ => None,
        }
    }
}

/// Whether a value nests lists and objects at most `depth` deep and holds no number but
/// unsigned integers.
pub open spec fn plain(j: JsonView, depth: nat) -> bool
    decreases depth,
{
    match j {
        JsonView::Other(_) => false,
        JsonView::List(v) => depth > 0 && forall|i: int|
            0 <= i < v.len() ==> plain(#[trigger] v[i], (depth - 1) as nat),
        JsonView::Object(m) => depth > 0 && forall|k: Seq<char>|
            m.dom().contains(k) ==> plain(#[trigger] m[k], (depth - 1) as nat),
        _ => true,
    }
}

/// The member of an object that counts for a key is the last one with that key.
proof fn lemma_member_counts(v: Seq<Member>, i: int)
    requires
        0 <= i < v.len(),
        forall|k: int| i < k < v.len() ==> v[k].key@ != v[i].key@,
    ensures
        members_view(v).dom().contains(v[i].key@),
        members_view(v)[v[i].key@] == v[i].value@,
    decreases v.len(),
{
    reveal_with_fuel(members_view, 2);
    if i < v.len() - 1 {
        assert(v.last().key@ != v[i].key@);
        lemma_member_counts(v.drop_last(), i);
    }
}

proof fn lemma_no_member(v: Seq<Member>, key: Seq<char>)
    requires
        forall|k: int| 0 <= k < v.len() ==> (#[trigger] v[k]).key@ != key,
    ensures
        !members_view(v).dom().contains(key),
    decreases v.len(),
{
    reveal_with_fuel(members_view, 2);
    if v.len() > 0 {
        assert(v[v.len() - 1].key@ != key);
        assert forall|k: int| 0 <= k < v.drop_last().len() implies (#[trigger] v.drop_last()[k]).key@
            != key by {
            assert(v.drop_last()[k] == v[k]);
        }
        lemma_no_member(v.drop_last(), key);
    }
}

impl Json {
    /// The object without members.
    pub fn object() -> (r: Json)
        ensures
            r@ == JsonView::Object(Map::empty()),
    {
        Json::Object(Vec::new())
    }

    /// The object with one more member.
    pub fn with(self, key: &str, value: Json) -> (r: Json)
        requires
            self@ is Object,
        ensures
            r@ == JsonView::Object(self@->Object_0.insert(key@, value@)),
    {
        let mut members: Vec<Member> = Vec::new();
        if let Json::Object(v) = self {
            members = v;
        }
        let ghost before = members@;
        members.push(Member { key: key.to_owned(), value });
        assert(members@.drop_last() =~= before);
        Json::Object(members)
    }

    /// A text as a value.
    pub fn of_text(s: &str) -> (r: Json)
        ensures
            r@ == JsonView::Text(s@),
    {
        Json::Text(s.to_owned())
    }

    /// The value under a key of an object.
    pub fn get(&self, key: &str) -> (r: Option<&Json>)
        ensures
            r is Some <==> self@.field(key@) is Some,
            r matches Some(j) ==> self@.field(key@) == Some(j@),
    {
        match self {
            Json::Object(v) => {
                let mut i: usize = v.len();
                while i > 0
                    invariant
                        i <= v.len(),
                        forall|k: int| i <= k < v.len() ==> (#[trigger] v[k]).key@ != key@,
                        self@ == JsonView::Object(members_view(v@)),
                    decreases i,
                {
                    i -= 1;
                    if same(v[i].key.as_str(), key) {
                        proof {
                            lemma_member_counts(v@, i as int);
                        }
                        return Some(&v[i].value);
                    }
                }
                proof {
                    lemma_no_member(v@, key@);
                }
                None
            },
            _ => None,
        }
    }

    /// The text under a key of an object.
    pub fn text(&self, key: &str) -> (r: Option<String>)
        ensures
            r is Some <==> self@.text_field(key@) is Some,
            r matches Some(s) ==> self@.text_field(key@) == Some(s@),
    {
        match self.get(key) {
            Some(Json::Text(s)) => Some(s.clone()),
            _ => None,
        }
    }

    /// The truth value under a key of an object.
    pub fn boolean(&self, key: &str) -> (r: Option<bool>)
        ensures
            r == self@.bool_field(key@),
    {
        match self.get(key) {
            Some(Json::Bool(b)) => Some(*b),
            _ => None,
        }
    }

    /// The unsigned integer under a key of an object.
    pub fn unsigned(&self, key: &str) -> (r: Option<u64>)
        ensures
            r == self@.unsigned_field(key@),
    {
        match self.get(key) {
            Some(Json::Unsigned(n)) => Some(*n),
            Some(Json::Number(n)) => number_as_u64(n),
            _ => None,
        }
    }

    /// The list under a key of an object.
    pub fn list(&self, key: &str) -> (r: Option<&Vec<Json>>)
        ensures
            r is Some <==> self@.list_field(key@) is Some,
            r matches Some(v) ==> self@.list_field(key@) == Some(list_view(v@)),
    {
        match self.get(key) {
            Some(Json::List(v)) => Some(v),
            _ => None,
        }
    }
}

/// What a value of `serde_json` holds.
pub uninterp spec fn value_model(v: serde_json::Value) -> JsonView;

/// The unsigned integer that a number of `serde_json` is, where it is one.
pub uninterp spec fn number_model(n: serde_json::Number) -> Option<u64>;

/// The value that `serde_json` reads from a text, where the text is JSON to it.
pub uninterp spec fn parsed_json(text: Seq<char>) -> Option<JsonView>;

/// The text that `serde_json` writes for a value.
pub uninterp spec fn json_text(j: JsonView) -> Seq<char>;

/// The outermost layer of a value of `serde_json`.
pub enum Layer {
    Null,
    Bool(bool),
    Number(serde_json::Number),
    Text(String),
    List(Vec<serde_json::Value>),
    Object(Vec<(String, serde_json::Value)>),
}

/// The entries of an object as a map, in which the last of two entries with one key counts.
pub open spec fn entries_model(v: Seq<(String, serde_json::Value)>) -> Map<Seq<char>, JsonView>
    decreases v.len(),
{
    if v.len() == 0 {
        Map::empty()
    } else {
        entries_model(v.drop_last()).insert(v.last().0@, value_model(v.last().1))
    }
}

/// What a number is.
pub open spec fn number_view(n: serde_json::Number) -> JsonView {
    match number_model(n) {
        Some(u) => JsonView::Unsigned(u),
        None => JsonView::Other(n),
    }
}

/// What the value with this outermost layer holds.
pub open spec fn layer_model(l: Layer) -> JsonView {
    match l {
        Layer::Null => JsonView::Null,
        Layer::Bool(b) => JsonView::Bool(b),
        Layer::Number(n) => number_view(n),
        Layer::Text(s) => JsonView::Text(s@),
        Layer::List(v) => JsonView::List(Seq::new(v@.len(), |i: int| value_model(v@[i]))),
        Layer::Object(v) => JsonView::Object(entries_model(v@)),
    }
}

/// Calls `serde_json::from_str` for a `serde_json::Value`. The contract names the value that
/// comes back; where the call fails, the name says so.
#[verifier::external_body]
fn value_from_text(text: &str) -> (r: Option<serde_json::Value>)
    ensures
        r is Some <==> parsed_json(text@) is Some,
        r matches Some(v) ==> parsed_json(text@) == Some(value_model(v)),
{
    serde_json::from_str::<serde_json::Value>(text).ok()
}

/// Calls `to_string` of `serde_json::Value`. The contract names the text. It also says that
/// `serde_json` reads the same value back from that text, provided that the value is nested
/// no deeper than `serde_json` reads (127 levels) and holds no number but unsigned integers.
#[verifier::external_body]
fn value_to_text(v: &serde_json::Value) -> (r: String)
    ensures
        r@ == json_text(value_model(*v)),
        plain(value_model(*v), 127) ==> parsed_json(r@) == Some(value_model(*v)),
{
    v.to_string()
}

/// Takes the outermost layer off a `serde_json::Value`. The contract says that the layer
/// holds what the value held, and that no key of an object occurs twice.
#[verifier::external_body]
fn open_value(v: serde_json::Value) -> (r: Layer)
    ensures
        layer_model(r) == value_model(v),
        keys_differ(r),
{
    match v {
        serde_json::Value::Null => Layer::Null,
        serde_json::Value::Bool(b) => Layer::Bool(b),
        serde_json::Value::Number(n) => Layer::Number(n),
        serde_json::Value::String(s) => Layer::Text(s),
        serde_json::Value::Array(a) => Layer::List(a),
        serde_json::Value::Object(m) => Layer::Object(m.into_iter().collect()),
    }
}

/// Whether no key of an object occurs twice.
pub open spec fn keys_differ(l: Layer) -> bool {
    l matches Layer::Object(e) ==> distinct_keys(e@)
}

/// Whether no key occurs twice.
pub open spec fn distinct_keys(v: Seq<(String, serde_json::Value)>) -> bool {
    forall|i: int, j: int|
        0 <= i < j < v.len() ==> (#[trigger] v[i]).0@ != (#[trigger] v[j]).0@
}

/// Makes a `serde_json::Value` of its outermost layer, in which no key occurs twice. The
/// contract says that the value holds what the layer held.
#[verifier::external_body]
fn close_value(l: Layer) -> (r: serde_json::Value)
    requires
        keys_differ(l),
    ensures
        value_model(r) == layer_model(l),
{
    match l {
        Layer::Null => serde_json::Value::Null,
        Layer::Bool(b) => serde_json::Value::Bool(b),
        Layer::Number(n) => serde_json::Value::Number(n),
        Layer::Text(s) => serde_json::Value::String(s),
        Layer::List(a) => serde_json::Value::Array(a),
        Layer::Object(m) => serde_json::Value::Object(m.into_iter().collect()),
    }
}

/// Calls `serde_json::Number::as_u64`. The contract names the result.
#[verifier::external_body]
fn number_as_u64(n: &serde_json::Number) -> (r: Option<u64>)
    ensures
        r == number_model(*n),
{
    n.as_u64()
}

/// Makes a `serde_json::Number` from an unsigned integer. The contract says that `as_u64`
/// gives the integer back.
#[verifier::external_body]
fn number_from_u64(u: u64) -> (r: serde_json::Number)
    ensures
        number_model(r) == Some(u),
{
    serde_json::Number::from(u)
}

proof fn lemma_entry_counts(v: Seq<(String, serde_json::Value)>, i: int)
    requires
        0 <= i < v.len(),
        distinct_keys(v),
    ensures
        entries_model(v).dom().contains(v[i].0@),
        entries_model(v)[v[i].0@] == value_model(v[i].1),
    decreases v.len(),
{
    if i < v.len() - 1 {
        assert(v[i].0@ != v[v.len() - 1].0@);
        lemma_entry_counts(v.drop_last(), i);
    }
}

proof fn lemma_entry_replaced(
    v: Seq<(String, serde_json::Value)>,
    i: int,
    entry: (String, serde_json::Value),
)
    requires
        0 <= i < v.len(),
        distinct_keys(v),
        entry.0@ == v[i].0@,
    ensures
        entries_model(v.update(i, entry)) == entries_model(v).insert(
            entry.0@,
            value_model(entry.1),
        ),
    decreases v.len(),
{
    let w = v.update(i, entry);
    let u = v.drop_last();
    if i < v.len() - 1 {
        assert(v[i].0@ != v[v.len() - 1].0@);
        assert(distinct_keys(u)) by {
            assert forall|a: int, b: int| 0 <= a < b < u.len() implies (#[trigger] u[a]).0@ != (
            #[trigger] u[b]).0@ by {
                assert(u[a] == v[a] && u[b] == v[b]);
            }
        }
        lemma_entry_replaced(u, i, entry);
        assert(w.drop_last() =~= u.update(i, entry));
    } else {
        assert(w.drop_last() =~= u);
    }
    assert(entries_model(w) =~= entries_model(v).insert(entry.0@, value_model(entry.1)));
}

/// Puts an entry among others, in place of the one with its key where there is one.
fn put_entry(v: &mut Vec<(String, serde_json::Value)>, key: String, value: serde_json::Value)
    requires
        distinct_keys(old(v)@),
    ensures
        distinct_keys(final(v)@),
        entries_model(final(v)@) == entries_model(old(v)@).insert(key@, value_model(value)),
{
    let ghost before = v@;
    let mut i: usize = 0;
    while i < v.len()
        invariant
            i <= v.len(),
            v@ == before,
            before == old(v)@,
            distinct_keys(before),
            forall|k: int| 0 <= k < i ==> (#[trigger] before[k]).0@ != key@,
        decreases v.len() - i,
    {
        if same(v[i].0.as_str(), key.as_str()) {
            proof {
                lemma_entry_replaced(before, i as int, (key, value));
            }
            v.set(i, (key, value));
            return;
        }
        i += 1;
    }
    v.push((key, value));
    assert(v@.drop_last() =~= before);
}

proof fn lemma_entries_finite(v: Seq<(String, serde_json::Value)>)
    ensures
        entries_model(v).dom().finite(),
    decreases v.len(),
{
    if v.len() > 0 {
        lemma_entries_finite(v.drop_last());
    }
}

/// The library's value for a value of `serde_json`.
pub fn import(v: serde_json::Value) -> (r: Json)
    ensures
        r@ == value_model(v),
    decreases value_model(v),
{
    let ghost model = value_model(v);
    match open_value(v) {
        Layer::Null => Json::Null,
        Layer::Bool(b) => Json::Bool(b),
        Layer::Number(n) => Json::Number(n),
        Layer::Text(s) => Json::Text(s),
        Layer::List(items) => {
            let ghost models = Seq::new(items@.len(), |i: int| value_model(items@[i]));
            assert(model == JsonView::List(models));
            let mut out: Vec<Json> = Vec::new();
            for item in iter: items
                invariant
                    iter.seq() == items@,
                    model == JsonView::List(models),
                    models == Seq::new(items@.len(), |i: int| value_model(items@[i])),
                    out@.len() == iter.index(),
                    forall|i: int| 0 <= i < out@.len() ==> (#[trigger] out@[i])@ == models[i],
                    model == value_model(v),
            {
                assert(models[iter.index()] == value_model(item));
                assert(decreases_to!(model => model->List_0));
                assert(decreases_to!(model->List_0 => model->List_0[iter.index()]));
                out.push(import(item));
            }
            assert(list_view(out@) =~= models);
            Json::List(out)
        },
        Layer::Object(entries) => {
            let mut out: Vec<Member> = Vec::new();
            let ghost map = entries_model(entries@);
            assert(entries@.take(0) =~= Seq::empty());
            for entry in iter: entries
                invariant
                    iter.seq() == entries@,
                    model == JsonView::Object(map),
                    map == entries_model(entries@),
                    members_view(out@) == entries_model(entries@.take(iter.index())),
                    distinct_keys(entries@),
                    model == value_model(v),
            {
                proof {
                    lemma_entry_counts(entries@, iter.index());
                    lemma_entries_finite(entries@);
                    assert(decreases_to!(model => model->Object_0));
                    assert(decreases_to!(model->Object_0 => model->Object_0[entry.0@]));
                    assert(entries@.take(iter.index() + 1).drop_last() =~= entries@.take(
                        iter.index(),
                    ));
                }
                let ghost before = out@;
                let (key, value) = entry;
                out.push(Member { key, value: import(value) });
                assert(out@.drop_last() =~= before);
            }
            assert(entries@.take(entries@.len() as int) =~= entries@);
            Json::Object(out)
        },
    }
}

/// The value of `serde_json` for one of the library's.
pub fn export(j: Json) -> (r: serde_json::Value)
    ensures
        value_model(r) == j@,
    decreases j,
{
    match j {
        Json::Null => close_value(Layer::Null),
        Json::Bool(b) => close_value(Layer::Bool(b)),
        Json::Unsigned(u) => close_value(Layer::Number(number_from_u64(u))),
        Json::Number(n) => close_value(Layer::Number(n)),
        Json::Text(s) => close_value(Layer::Text(s)),
        Json::List(items) => {
            let mut out: Vec<serde_json::Value> = Vec::new();
            for item in iter: items
                invariant
                    iter.seq() == items@,
                    out@.len() == iter.index(),
                    forall|i: int|
                        0 <= i < out@.len() ==> value_model(#[trigger] out@[i]) == items@[i]@,
                    j == Json::List(items),
            {
                assert(decreases_to!(j => j->List_0));
                assert(decreases_to!(j->List_0 => j->List_0@));
                assert(decreases_to!(j->List_0@ => j->List_0@[iter.index()]));
                out.push(export(item));
            }
            assert(Seq::new(out@.len(), |i: int| value_model(out@[i])) =~= list_view(items@));
            close_value(Layer::List(out))
        },
        Json::Object(members) => {
            let mut out: Vec<(String, serde_json::Value)> = Vec::new();
            assert(members@.take(0) =~= Seq::empty());
            for member in iter: members
                invariant
                    iter.seq() == members@,
                    entries_model(out@) == members_view(members@.take(iter.index())),
                    distinct_keys(out@),
                    j == Json::Object(members),
            {
                assert(decreases_to!(j => j->Object_0));
                assert(decreases_to!(j->Object_0 => j->Object_0@));
                assert(decreases_to!(j->Object_0@ => j->Object_0@[iter.index()]));
                assert(decreases_to!(member => member.value));
                assert(members@.take(iter.index() + 1).drop_last() =~= members@.take(iter.index()));
                let value = export(member.value);
                put_entry(&mut out, member.key, value);
            }
            assert(members@.take(members@.len() as int) =~= members@);
            close_value(Layer::Object(out))
        },
    }
}

/// The value that a text is in JSON, where it is one.
pub fn parse(text: &str) -> (r: Option<Json>)
    ensures
        r is Some <==> parsed_json(text@) is Some,
        r matches Some(j) ==> parsed_json(text@) == Some(j@),
{
    match value_from_text(text) {
        Some(v) => Some(import(v)),
        None => None,
    }
}

/// The JSON text of a value, from which a plain value reads back.
pub fn to_text(j: Json) -> (r: String)
    ensures
        r@ == json_text(j@),
        plain(j@, 127) ==> parsed_json(r@) == Some(j@),
{
    value_to_text(&export(j))
}

/// A field of an object is what stands under its key, read only as the kind that it is; an
/// object has no other fields, and what is no object has none.
pub proof fn law_fields(m: Map<Seq<char>, JsonView>, key: Seq<char>, other: JsonView)
    ensures
        ({
            let j = JsonView::Object(m);
            &&& !m.dom().contains(key) ==> j.field(key) is None && j.text_field(key) is None
                && j.bool_field(key) is None && j.unsigned_field(key) is None && j.list_field(
                key,
            ) is None
            &&& m.dom().contains(key) ==> j.field(key) == Some(m[key])
            &&& forall|s: Seq<char>| #[trigger]
                j.text_field(key) == Some(s) <==> m.dom().contains(key) && m[key]
                    == JsonView::Text(s)
            &&& forall|b: bool| #[trigger]
                j.bool_field(key) == Some(b) <==> m.dom().contains(key) && m[key]
                    == JsonView::Bool(b)
            &&& forall|n: u64| #[trigger]
                j.unsigned_field(key) == Some(n) <==> m.dom().contains(key) && m[key]
                    == JsonView::Unsigned(n)
            &&& forall|v: Seq<JsonView>| #[trigger]
                j.list_field(key) == Some(v) <==> m.dom().contains(key) && m[key]
                    == JsonView::List(v)
        }),
        !(other is Object) ==> other.field(key) is None && other.text_field(key) is None
            && other.bool_field(key) is None && other.unsigned_field(key) is None
            && other.list_field(key) is None,
{
}

/// A member of an object is found under its key, in place of any member with that key before
/// it; all others stay.
pub proof fn law_members(v: Seq<Member>, m: Member, key: Seq<char>)
    ensures
        members_view(v.push(m)).dom().contains(m.key@),
        members_view(v.push(m))[m.key@] == m.value@,
        key != m.key@ ==> (members_view(v.push(m)).dom().contains(key) <==> members_view(
            v,
        ).dom().contains(key)),
        key != m.key@ && members_view(v).dom().contains(key) ==> members_view(v.push(m))[key]
            == members_view(v)[key],
        members_view(Seq::empty()) == Map::<Seq<char>, JsonView>::empty(),
{
    reveal_with_fuel(members_view, 2);
    assert(v.push(m).drop_last() =~= v);
}

/// A list holds what its items are, in their order, and no more.
pub proof fn law_lists(v: Seq<Json>, i: int)
    ensures
        list_view(v).len() == v.len(),
        0 <= i < v.len() ==> list_view(v)[i] == v[i]@,
{
}

} // verus!
