//! JSON values.
//!
//! Text is read and written by `serde_json`; the values in between are plain data of this
//! crate. A number is an unsigned integer, a negative integer, or the text of a fraction.

use serde::Serializer;
use vstd::prelude::*;

use crate::text::{opt_text, str_eq};

verus! {

/// A JSON value. Of two members of an object with one name the later counts.
#[derive(Debug, PartialEq, Eq)]
pub enum JsonValue {
    Null,
    Bool(bool),
    Unsigned(u64),
    Negative(i64),
    Fraction(String),
    Text(String),
    Array(Vec<JsonValue>),
    Object(Vec<(String, JsonValue)>),
}

/// The contents of a `JsonValue`.
#[verifier::ext_equal]
pub enum JsonView {
    Null,
    Bool(bool),
    Unsigned(u64),
    Negative(i64),
    Fraction(Seq<char>),
    Text(Seq<char>),
    Array(Seq<JsonView>),
    Object(Map<Seq<char>, JsonView>),
}

/// The members of an object by name; the later of two with one name counts.
pub open spec fn members_map(pairs: Seq<(Seq<char>, JsonView)>) -> Map<Seq<char>, JsonView>
    decreases pairs.len(),
{
    if pairs.len() == 0 {
        Map::empty()
    } else {
        members_map(pairs.drop_last()).insert(pairs.last().0, pairs.last().1)
    }
}

/// The contents of a value.
pub open spec fn json_view(v: JsonValue) -> JsonView
    decreases v,
{
    match v {
        JsonValue::Null => JsonView::Null,
        JsonValue::Bool(b) => JsonView::Bool(b),
        JsonValue::Unsigned(n) => JsonView::Unsigned(n),
        JsonValue::Negative(n) => JsonView::Negative(n),
        JsonValue::Fraction(s) => JsonView::Fraction(s@),
        JsonValue::Text(s) => JsonView::Text(s@),
        JsonValue::Array(items) => JsonView::Array(
            Seq::new(
                items@.len(),
                |i: int|
                    if 0 <= i < items@.len() {
                        json_view(items@[i])
                    } else {
                        JsonView::Null
                    },
            ),
        ),
        JsonValue::Object(entries) => JsonView::Object(members_map(named_views(entries))),
    }
}

/// The names and contents of the members of an object.
pub open spec fn named_views(entries: Vec<(String, JsonValue)>) -> Seq<(Seq<char>, JsonView)>
    decreases entries,
{
    Seq::new(
        entries@.len(),
        |i: int|
            if 0 <= i < entries@.len() {
                (entries@[i].0@, json_view(entries@[i].1))
            } else {
                (Seq::empty(), JsonView::Null)
            },
    )
}

impl View for JsonValue {
    type V = JsonView;

    open spec fn view(&self) -> JsonView {
        json_view(*self)
    }
}

/// The contents of a list of values.
pub open spec fn values_view(items: Seq<JsonValue>) -> Seq<JsonView> {
    Seq::new(items.len(), |i: int| items[i]@)
}

/// The names and contents of a list of members.
pub open spec fn entries_view(entries: Seq<(String, JsonValue)>) -> Seq<(Seq<char>, JsonView)> {
    Seq::new(entries.len(), |i: int| (entries[i].0@, entries[i].1@))
}

/// What an array or an object holds, member by member.
pub broadcast proof fn lemma_json_view(v: JsonValue)
    ensures
        #![trigger v@]
        v matches JsonValue::Array(items) ==> v@ == JsonView::Array(values_view(items@)),
        v matches JsonValue::Object(entries) ==> v@ == JsonView::Object(
            members_map(entries_view(entries@)),
        ),
{
    match v {
        JsonValue::Array(items) => {
            assert(v@->Array_0 =~= values_view(items@));
        },
        JsonValue::Object(entries) => {
            assert(named_views(entries) =~= entries_view(entries@));
        },
        _ => {},
    }
}

impl Clone for JsonValue {
    fn clone(&self) -> (res: Self)
        ensures
            res@ == self@,
        decreases self,
    {
        broadcast use lemma_json_view;

        match self {
            JsonValue::Null => JsonValue::Null,
            JsonValue::Bool(b) => JsonValue::Bool(*b),
            JsonValue::Unsigned(n) => JsonValue::Unsigned(*n),
            JsonValue::Negative(n) => JsonValue::Negative(*n),
            JsonValue::Fraction(s) => JsonValue::Fraction(s.clone()),
            JsonValue::Text(s) => JsonValue::Text(s.clone()),
            JsonValue::Array(items) => {
                let mut out: Vec<JsonValue> = Vec::new();
                let mut i: usize = 0;
                while i < items.len()
                    invariant
                        i <= items@.len(),
                        *self == JsonValue::Array(*items),
                        out@.len() == i,
                        forall|j: int| 0 <= j < i ==> (#[trigger] out@[j])@ == items@[j]@,
                    decreases items@.len() - i,
                {
                    assert(decreases_to!(*self => self->Array_0));
                    assert(decreases_to!(*items => items@[i as int]));
                    out.push(items[i].clone());
                    i += 1;
                }
                assert(values_view(out@) =~= values_view(items@));
                JsonValue::Array(out)
            },
            JsonValue::Object(entries) => {
                let mut out: Vec<(String, JsonValue)> = Vec::new();
                let mut i: usize = 0;
                while i < entries.len()
                    invariant
                        i <= entries@.len(),
                        *self == JsonValue::Object(*entries),
                        out@.len() == i,
                        forall|j: int|
                            0 <= j < i ==> (#[trigger] out@[j]).0@ == entries@[j].0@ && out@[j].1@
                                == entries@[j].1@,
                    decreases entries@.len() - i,
                {
                    assert(decreases_to!(*self => self->Object_0));
                    assert(decreases_to!(*entries => entries@[i as int]));
                    assert(decreases_to!(entries@[i as int] => entries@[i as int].1));
                    out.push((entries[i].0.clone(), entries[i].1.clone()));
                    i += 1;
                }
                assert(entries_view(out@) =~= entries_view(entries@));
                JsonValue::Object(out)
            },
        }
    }
}

/// Whether a value has the shape of a record of `count` fields: an object, or an array that
/// lists the fields in order.
pub open spec fn record_shape(v: JsonView, count: int) -> bool {
    match v {
        JsonView::Object(_) => true,
        JsonView::Array(items) => items.len() <= count,
        _ => false,
    }
}

/// The field of a record: the member with its name, or the item at its position.
pub open spec fn record_field(v: JsonView, name: Seq<char>, position: int) -> Option<JsonView> {
    match v {
        JsonView::Array(items) => if 0 <= position < items.len() {
            Some(items[position])
        } else {
            None
        },
        _ => member(v, name),
    }
}

/// The member of an object with a given name, if the value is an object that has one.
pub open spec fn member(v: JsonView, name: Seq<char>) -> Option<JsonView> {
    match v {
        JsonView::Object(m) => if m.contains_key(name) {
            Some(m[name])
        } else {
            None
        },
        _ => None,
    }
}

/// The text of a text value.
pub open spec fn text_of(v: Option<JsonView>) -> Option<Seq<char>> {
    match v {
        Some(JsonView::Text(s)) => Some(s),
        _ => None,
    }
}

/// Whether the name of one of the members from `from` on is `name`.
proof fn lemma_members_map(pairs: Seq<(Seq<char>, JsonView)>, i: int)
    requires
        0 <= i < pairs.len(),
        forall|j: int| i < j < pairs.len() ==> (#[trigger] pairs[j]).0 != pairs[i].0,
    ensures
        members_map(pairs).contains_key(pairs[i].0),
        members_map(pairs)[pairs[i].0] == pairs[i].1,
    decreases pairs.len(),
{
    if i < pairs.len() - 1 {
        let init = pairs.drop_last();
        assert(pairs[pairs.len() - 1].0 != pairs[i].0);
        assert forall|j: int| i < j < init.len() implies (#[trigger] init[j]).0 != init[i].0 by {
            assert(pairs[j].0 != pairs[i].0);
        }
        lemma_members_map(init, i);
    }
}

proof fn lemma_members_absent(pairs: Seq<(Seq<char>, JsonView)>, name: Seq<char>)
    requires
        forall|j: int| 0 <= j < pairs.len() ==> (#[trigger] pairs[j]).0 != name,
    ensures
        !members_map(pairs).contains_key(name),
    decreases pairs.len(),
{
    if pairs.len() > 0 {
        let init = pairs.drop_last();
        assert(pairs[pairs.len() - 1].0 != name);
        assert forall|j: int| 0 <= j < init.len() implies (#[trigger] init[j]).0 != name by {
            assert(pairs[j].0 != name);
        }
        lemma_members_absent(init, name);
    }
}

/// The contents of an optional value.
pub open spec fn opt_json(v: Option<JsonValue>) -> Option<JsonView> {
    match v {
        Some(x) => Some(x@),
        None => None,
    }
}

/// The contents of an optional borrowed value.
pub open spec fn opt_ref(v: Option<&JsonValue>) -> Option<JsonView> {
    match v {
        Some(x) => Some(x@),
        None => None,
    }
}

/// A copy of an optional value.
pub fn clone_opt_json(v: &Option<JsonValue>) -> (res: Option<JsonValue>)
    ensures
        opt_json(res) == opt_json(*v),
{
    match v {
        Some(x) => Some(x.clone()),
        None => None,
    }
}

impl JsonValue {
    /// The member of an object with a given name, if the value is an object that has one.
    pub fn get(&self, name: &str) -> (res: Option<&JsonValue>)
        ensures
            opt_ref(res) == member(self@, name@),
    {
        broadcast use lemma_json_view;

        match self {
            JsonValue::Object(entries) => {
                let ghost pairs = entries_view(entries@);
                let mut i: usize = entries.len();
                while i > 0
                    invariant
                        i <= entries@.len(),
                        pairs == entries_view(entries@),
                        self@ == JsonView::Object(members_map(pairs)),
                        forall|j: int| i <= j < pairs.len() ==> (#[trigger] pairs[j]).0 != name@,
                    decreases i,
                {
                    i -= 1;
                    if str_eq(entries[i].0.as_str(), name) {
                        proof {
                            assert(pairs[i as int].0 == name@);
                            lemma_members_map(pairs, i as int);
                        }
                        return Some(&entries[i].1);
                    }
                    assert(pairs[i as int].0 != name@);
                }
                proof {
                    lemma_members_absent(pairs, name@);
                }
                None
            },
            _ => None,
        }
    }

    /// Whether the value has the shape of a record of `count` fields.
    pub fn has_record_shape(&self, count: usize) -> (res: bool)
        ensures
            res == record_shape(self@, count as int),
    {
        broadcast use lemma_json_view;

        match self {
            JsonValue::Object(_) => true,
            JsonValue::Array(items) => items.len() <= count,
            _ => false,
        }
    }

    /// The field of a record: the member with its name, or the item at its position.
    pub fn field(&self, name: &str, position: usize) -> (res: Option<&JsonValue>)
        ensures
            opt_ref(res) == record_field(self@, name@, position as int),
    {
        broadcast use lemma_json_view;

        match self {
            JsonValue::Array(items) => if position < items.len() {
                Some(&items[position])
            } else {
                None
            },
            _ => self.get(name),
        }
    }

    /// The text of a text value.
    pub fn as_str(&self) -> (res: Option<&str>)
        ensures
            match res {
                Some(s) => self@ == JsonView::Text(s@),
                None => !(self@ is Text),
            },
    {
        match self {
            JsonValue::Text(s) => Some(s.as_str()),
            _ => None,
        }
    }

    /// The value of an unsigned integer.
    pub fn as_u64(&self) -> (res: Option<u64>)
        ensures
            match res {
                Some(n) => self@ == JsonView::Unsigned(n),
                None => !(self@ is Unsigned),
            },
    {
        match self {
            JsonValue::Unsigned(n) => Some(*n),
            _ => None,
        }
    }

    /// The value of a boolean.
    pub fn as_bool(&self) -> (res: Option<bool>)
        ensures
            match res {
                Some(b) => self@ == JsonView::Bool(b),
                None => !(self@ is Bool),
            },
    {
        match self {
            JsonValue::Bool(b) => Some(*b),
            _ => None,
        }
    }

    /// Whether the value is null.
    pub fn is_null(&self) -> (res: bool)
        ensures
            res == (self@ == JsonView::Null),
    {
        matches!(self, JsonValue::Null)
    }

    /// A text value.
    pub fn text(s: &str) -> (res: Self)
        ensures
            res@ == JsonView::Text(s@),
    {
        JsonValue::Text(s.to_owned())
    }

    /// A text value, or null.
    pub fn opt_text(s: &Option<String>) -> (res: Self)
        ensures
            res@ == text_or_null(opt_text(*s)),
    {
        match s {
            Some(t) => JsonValue::Text(t.clone()),
            None => JsonValue::Null,
        }
    }
}

/// A text value, or null.
pub open spec fn text_or_null(s: Option<Seq<char>>) -> JsonView {
    match s {
        Some(t) => JsonView::Text(t),
        None => JsonView::Null,
    }
}

/// The member name that `serde_json` keeps for itself: an object that starts with it is not
/// read as an object, but as the JSON text that the member holds.
pub open spec fn reserved_name() -> Seq<char> {
    "$serde_json::private::RawValue"@
}

/// Whether a member may have a name without changing how its object is read.
pub open spec fn ordinary_name(name: Seq<char>) -> bool {
    name != reserved_name()
}

/// A name that does not start with a dollar sign is an ordinary one.
pub proof fn lemma_ordinary_name(name: Seq<char>)
    requires
        name.len() == 0 || name[0] != '$',
    ensures
        ordinary_name(name),
{
    reveal_strlit("$serde_json::private::RawValue");
    assert(reserved_name().len() == 30);
    assert(reserved_name()[0] == '$');
}

/// Whether every member of an object is read back as it is written.
pub open spec fn readable_members(m: Map<Seq<char>, JsonView>, depth: nat) -> bool {
    forall|name: Seq<char>| #[trigger]
        m.contains_key(name) ==> ordinary_name(name) && reads_back(m[name], depth)
}

/// Adds a member to an object under construction.
pub fn put(entries: &mut Vec<(String, JsonValue)>, name: &str, value: JsonValue)
    ensures
        members_map(entries_view(final(entries)@)) == members_map(
            entries_view(old(entries)@),
        ).insert(name@, value@),
{
    let ghost before = entries_view(entries@);
    let ghost added = value@;
    entries.push((name.to_owned(), value));
    proof {
        let after = entries_view(entries@);
        assert(after =~= before.push((name@, added)));
        assert(after.drop_last() =~= before);
    }
}

/// An object of the given members.
pub fn object(entries: Vec<(String, JsonValue)>) -> (res: JsonValue)
    ensures
        res@ == JsonView::Object(members_map(entries_view(entries@))),
{
    broadcast use lemma_json_view;

    JsonValue::Object(entries)
}

/// An array of the given values.
pub fn array(items: Vec<JsonValue>) -> (res: JsonValue)
    ensures
        res@ == JsonView::Array(values_view(items@)),
{
    broadcast use lemma_json_view;

    JsonValue::Array(items)
}

/// `serde_json::Value`, the tree that `serde_json` reads and writes.
#[verifier::external_type_specification]
#[verifier::external_body]
pub struct ExSerdeValue(serde_json::Value);

/// Takes a `serde_json::Value` apart, one variant of it into one variant of `JsonValue`; a
/// number that is no 64-bit integer becomes the text that `serde_json` prints for it.
#[verifier::external_body]
fn from_serde(value: serde_json::Value) -> JsonValue {
    match value {
        serde_json::Value::Null => JsonValue::Null,
        serde_json::Value::Bool(b) => JsonValue::Bool(b),
        serde_json::Value::Number(n) => match (n.as_u64(), n.as_i64()) {
            (Some(u), _) => JsonValue::Unsigned(u),
            (None, Some(i)) => JsonValue::Negative(i),
            (None, None) => JsonValue::Fraction(n.to_string()),
        },
        serde_json::Value::String(s) => JsonValue::Text(s),
        serde_json::Value::Array(items) => JsonValue::Array(items.into_iter().map(from_serde).collect()),
        serde_json::Value::Object(m) => JsonValue::Object(m.into_iter().map(|(k, v)| (k, from_serde(v))).collect()),
    }
}

/// Builds a `serde_json::Value`, one variant of `JsonValue` into one variant of it. The text
/// of a fraction is read back as a number; text that is none becomes null.
#[verifier::external_body]
fn to_serde(value: &JsonValue) -> serde_json::Value {
    match value {
        JsonValue::Null => serde_json::Value::Null,
        JsonValue::Bool(b) => serde_json::Value::Bool(*b),
        JsonValue::Unsigned(n) => serde_json::Value::from(*n),
        JsonValue::Negative(n) => serde_json::Value::from(*n),
        JsonValue::Fraction(s) => s.parse().map_or(serde_json::Value::Null, serde_json::Value::Number),
        JsonValue::Text(s) => serde_json::Value::String(s.clone()),
        JsonValue::Array(items) => serde_json::Value::Array(items.iter().map(to_serde).collect()),
        JsonValue::Object(m) => serde_json::Value::Object(m.iter().map(|(k, v)| (k.clone(), to_serde(v))).collect()),
    }
}

/// What `serde_json::from_str` reads from a text, or the message of its error.
pub uninterp spec fn parsed_json(text: Seq<char>) -> Result<JsonView, Seq<char>>;

/// What `serde_json::to_string` writes for a value.
pub uninterp spec fn written_json(value: JsonView) -> Seq<char>;

/// The contents of what was read.
pub open spec fn read_view(res: Result<JsonValue, String>) -> Result<JsonView, Seq<char>> {
    match res {
        Ok(v) => Ok(v@),
        Err(e) => Err(e@),
    }
}

/// The outcome of reading a well-formed text.
pub open spec fn json_ok(v: JsonView) -> Result<JsonView, Seq<char>> {
    Ok(v)
}

/// Whether `serde_json` reads a value back as it was written: it holds no fraction, which may
/// be read with another last digit, its negative numbers are negative, no member has the
/// reserved name, and it is nested at most `depth` deep.
pub open spec fn reads_back(v: JsonView, depth: nat) -> bool
    decreases depth,
{
    match v {
        JsonView::Fraction(_) => false,
        JsonView::Negative(n) => n < 0,
        JsonView::Array(items) => depth > 0 && forall|i: int|
            0 <= i < items.len() ==> reads_back(#[trigger] items[i], (depth - 1) as nat),
        JsonView::Object(m) => depth > 0 && forall|name: Seq<char>| #[trigger]
            m.contains_key(name) ==> ordinary_name(name) && reads_back(m[name], (depth - 1) as nat),
        _ => true,
    }
}

/// `serde_json::from_str` into a `serde_json::Value`: the result depends on the text alone.
#[verifier::external_body]
fn serde_from_str(text: &str) -> (res: Result<JsonValue, String>)
    ensures
        read_view(res) == parsed_json(text@),
{
    serde_json::from_str(text).map(from_serde).map_err(|e: serde_json::Error| e.to_string())
}

/// `serde_json::to_string` on a `serde_json::Value`, which never fails: the text depends on
/// the value alone. A value that `reads_back` admits is read back unchanged.
#[verifier::external_body]
fn serde_to_string(value: &JsonValue) -> (res: String)
    ensures
        res@ == written_json(value@),
        reads_back(value@, 127) ==> parsed_json(res@) == json_ok(value@),
{
    to_serde(value).to_string()
}

/// Reads a JSON text.
pub fn parse_json(text: &str) -> (res: Result<JsonValue, String>)
    ensures
        read_view(res) == parsed_json(text@),
{
    serde_from_str(text)
}

/// Writes a JSON text, members by name.
pub fn write_json(value: &JsonValue) -> (res: String)
    ensures
        res@ == written_json(value@),
        reads_back(value@, 127) ==> parsed_json(res@) == json_ok(value@),
{
    serde_to_string(value)
}

/// What `serde_json::from_slice` reads from bytes, or the message of its error.
pub uninterp spec fn parsed_json_bytes(bytes: Seq<u8>) -> Result<JsonView, Seq<char>>;

/// `serde_json::from_slice` into a `serde_json::Value`: the result depends on the bytes alone.
#[verifier::external_body]
fn serde_from_slice(bytes: &[u8]) -> (res: Result<JsonValue, String>)
    ensures
        read_view(res) == parsed_json_bytes(bytes@),
{
    serde_json::from_slice(bytes).map(from_serde).map_err(|e: serde_json::Error| e.to_string())
}

/// Reads JSON from bytes.
pub fn parse_json_bytes(bytes: &[u8]) -> (res: Result<JsonValue, String>)
    ensures
        read_view(res) == parsed_json_bytes(bytes@),
{
    serde_from_slice(bytes)
}

/// What `serde_json::to_vec_pretty` writes for a value.
pub uninterp spec fn pretty_json_bytes(value: JsonView) -> Seq<u8>;

/// `serde_json::to_vec_pretty` on a `serde_json::Value`, which never fails: the bytes depend
/// on the value alone. A value that `reads_back` admits is read back unchanged.
#[verifier::external_body]
fn serde_to_vec_pretty(value: &JsonValue) -> (res: Vec<u8>)
    ensures
        res@ == pretty_json_bytes(value@),
        reads_back(value@, 127) ==> parsed_json_bytes(res@) == json_ok(value@),
{
    serde_json::to_vec_pretty(&to_serde(value)).unwrap_or_default()
}

/// Writes JSON as indented bytes, members by name.
pub fn write_json_pretty(value: &JsonValue) -> (res: Vec<u8>)
    ensures
        res@ == pretty_json_bytes(value@),
        reads_back(value@, 127) ==> parsed_json_bytes(res@) == json_ok(value@),
{
    serde_to_vec_pretty(value)
}

/// A value to be written. The members of a record are written in order, those of an object
/// inside a value by name.
#[derive(Debug)]
pub enum JsonOut {
    Value(JsonValue),
    List(Vec<JsonOut>),
    Record(Vec<(String, JsonOut)>),
}

/// The contents of a `JsonOut`.
#[verifier::ext_equal]
pub enum OutView {
    Value(JsonView),
    List(Seq<OutView>),
    Record(Seq<(Seq<char>, OutView)>),
}

/// The contents of a value to be written.
pub open spec fn out_view(v: JsonOut) -> OutView
    decreases v,
{
    match v {
        JsonOut::Value(x) => OutView::Value(x@),
        JsonOut::List(items) => OutView::List(
            Seq::new(
                items@.len(),
                |i: int|
                    if 0 <= i < items@.len() {
                        out_view(items@[i])
                    } else {
                        OutView::Value(JsonView::Null)
                    },
            ),
        ),
        JsonOut::Record(members) => OutView::Record(named_outs(members)),
    }
}

/// The names and contents of the members of a record.
pub open spec fn named_outs(members: Vec<(String, JsonOut)>) -> Seq<(Seq<char>, OutView)>
    decreases members,
{
    Seq::new(
        members@.len(),
        |i: int|
            if 0 <= i < members@.len() {
                (members@[i].0@, out_view(members@[i].1))
            } else {
                (Seq::empty(), OutView::Value(JsonView::Null))
            },
    )
}

impl View for JsonOut {
    type V = OutView;

    open spec fn view(&self) -> OutView {
        out_view(*self)
    }
}

/// The contents of a list of values to be written.
pub open spec fn outs_view(items: Seq<JsonOut>) -> Seq<OutView> {
    Seq::new(items.len(), |i: int| items[i]@)
}

/// The names and contents of a list of members to be written.
pub open spec fn out_members_view(members: Seq<(String, JsonOut)>) -> Seq<(Seq<char>, OutView)> {
    Seq::new(members.len(), |i: int| (members[i].0@, members[i].1@))
}

/// What a list or a record holds, member by member.
pub broadcast proof fn lemma_out_view(v: JsonOut)
    ensures
        #![trigger v@]
        v matches JsonOut::Value(x) ==> v@ == OutView::Value(x@),
        v matches JsonOut::List(items) ==> v@ == OutView::List(outs_view(items@)),
        v matches JsonOut::Record(members) ==> v@ == OutView::Record(out_members_view(members@)),
{
    match v {
        JsonOut::List(items) => {
            assert(v@->List_0 =~= outs_view(items@));
        },
        JsonOut::Record(members) => {
            assert(named_outs(members) =~= out_members_view(members@));
        },
        _ => {},
    }
}

/// The JSON value that a value to be written stands for.
pub open spec fn plain(v: OutView) -> JsonView
    decreases v,
{
    match v {
        OutView::Value(x) => x,
        OutView::List(items) => JsonView::Array(
            Seq::new(
                items.len(),
                |i: int|
                    if 0 <= i < items.len() {
                        plain(items[i])
                    } else {
                        JsonView::Null
                    },
            ),
        ),
        OutView::Record(members) => JsonView::Object(members_map(named_plains(members))),
    }
}

/// The names of the members of a record and the JSON values that they stand for.
pub open spec fn named_plains(members: Seq<(Seq<char>, OutView)>) -> Seq<(Seq<char>, JsonView)>
    decreases members,
{
    Seq::new(
        members.len(),
        |i: int|
            if 0 <= i < members.len() {
                (members[i].0, plain(members[i].1))
            } else {
                (Seq::empty(), JsonView::Null)
            },
    )
}

/// The JSON values that the items of a list stand for.
pub open spec fn plain_items(items: Seq<OutView>) -> Seq<JsonView> {
    Seq::new(items.len(), |i: int| plain(items[i]))
}

/// The names of members and the JSON values that they stand for.
pub open spec fn plain_members(members: Seq<(Seq<char>, OutView)>) -> Seq<(Seq<char>, JsonView)> {
    Seq::new(members.len(), |i: int| (members[i].0, plain(members[i].1)))
}

/// What a list or a record stands for, member by member.
pub proof fn lemma_plain(v: OutView)
    ensures
        v matches OutView::Value(x) ==> plain(v) == x,
        v matches OutView::List(items) ==> plain(v) == JsonView::Array(plain_items(items)),
        v matches OutView::Record(members) ==> plain(v) == JsonView::Object(
            members_map(plain_members(members)),
        ),
{
    match v {
        OutView::List(items) => {
            assert(plain(v)->Array_0 =~= plain_items(items));
        },
        OutView::Record(members) => {
            assert(named_plains(members) =~= plain_members(members));
        },
        _ => {},
    }
}

/// Whether `serde_json` reads a value back as it was written in order.
pub open spec fn out_reads_back(v: OutView, depth: nat) -> bool
    decreases depth,
{
    match v {
        OutView::Value(x) => reads_back(x, depth),
        OutView::List(items) => depth > 0 && forall|i: int|
            0 <= i < items.len() ==> out_reads_back(#[trigger] items[i], (depth - 1) as nat),
        OutView::Record(members) => depth > 0 && forall|i: int|
            0 <= i < members.len() ==> ordinary_name((#[trigger] members[i]).0) && out_reads_back(
                members[i].1,
                (depth - 1) as nat,
            ),
    }
}

/// What `serde_json` writes for a value whose records keep the order of their members.
pub uninterp spec fn written_out(value: OutView) -> Seq<char>;

/// What `serde_json`'s compact `Serializer` writes: a value by `Serialize::serialize` of its
/// `serde_json::Value`, a list by `Serializer::collect_seq` and a record by
/// `Serializer::collect_map`, which write items and members as they come. Each of these is
/// handed on as a `RawValue`, the text that was written for it. The text depends on the value
/// alone. A value that `out_reads_back` admits is read back as what it stands for, from the text
/// and from its bytes.
#[verifier::external_body]
fn serde_write_out(value: &JsonOut) -> (res: String)
    ensures
        res@ == written_out(value@),
        out_reads_back(value@, 127) ==> parsed_json(res@) == json_ok(plain(value@)),
        out_reads_back(value@, 127) ==> parsed_json_bytes(vstd::utf8::encode_utf8(res@)) == json_ok(
            plain(value@),
        ),
{
    let raw = |v: &JsonOut| serde_json::value::RawValue::from_string(serde_write_out(v)).ok();
    let mut out = Vec::new();
    let mut serializer = serde_json::Serializer::new(&mut out);
    let _ = match value {
        JsonOut::Value(v) => serde::Serialize::serialize(&to_serde(v), &mut serializer),
        JsonOut::List(items) => serializer.collect_seq(items.iter().map(raw)),
        JsonOut::Record(m) => serializer.collect_map(m.iter().map(|(k, v)| (k, raw(v)))),
    };
    String::from_utf8(out).unwrap_or_default()
}

/// Writes a JSON text, the members of records in order.
pub fn write_out(value: &JsonOut) -> (res: String)
    ensures
        res@ == written_out(value@),
        out_reads_back(value@, 127) ==> parsed_json(res@) == json_ok(plain(value@)),
        out_reads_back(value@, 127) ==> parsed_json_bytes(vstd::utf8::encode_utf8(res@)) == json_ok(
            plain(value@),
        ),
{
    serde_write_out(value)
}

/// What `serde_json` writes, indented, for a record of values.
pub uninterp spec fn pretty_record(members: Seq<(Seq<char>, JsonView)>) -> Seq<u8>;

/// `Serializer::collect_map` of `serde_json`'s indenting `Serializer`: the members as they come,
/// what they hold by name. The bytes depend on the members alone. A record whose members read
/// back is read back as the object of them.
#[verifier::external_body]
fn serde_write_record_pretty(members: &Vec<(String, JsonValue)>) -> (res: Vec<u8>)
    ensures
        res@ == pretty_record(entries_view(members@)),
        readable_entries(entries_view(members@), 126) ==> parsed_json_bytes(res@) == json_ok(
            JsonView::Object(members_map(entries_view(members@))),
        ),
{
    let mut out = Vec::new();
    let mut serializer = serde_json::Serializer::pretty(&mut out);
    let _ = serializer.collect_map(members.iter().map(|(k, v)| (k, to_serde(v))));
    out
}

/// Whether every member of a record is read back as it is written.
pub open spec fn readable_entries(members: Seq<(Seq<char>, JsonView)>, depth: nat) -> bool {
    forall|i: int|
        0 <= i < members.len() ==> ordinary_name((#[trigger] members[i]).0) && reads_back(
            members[i].1,
            depth,
        )
}

/// Writes a record of values as indented bytes, its members in order.
pub fn write_record_pretty(members: &Vec<(String, JsonValue)>) -> (res: Vec<u8>)
    ensures
        res@ == pretty_record(entries_view(members@)),
        readable_entries(entries_view(members@), 126) ==> parsed_json_bytes(res@) == json_ok(
            JsonView::Object(members_map(entries_view(members@))),
        ),
{
    serde_write_record_pretty(members)
}

/// A record without members, to be filled.
pub fn start_record() -> (res: Vec<(String, JsonOut)>)
    ensures
        out_members_view(res@) == Seq::<(Seq<char>, OutView)>::empty(),
{
    let members: Vec<(String, JsonOut)> = Vec::new();
    assert(out_members_view(members@) =~= Seq::<(Seq<char>, OutView)>::empty());
    members
}

/// Adds a member to a record under construction.
pub fn add_member(members: &mut Vec<(String, JsonOut)>, name: &str, value: JsonOut)
    ensures
        out_members_view(final(members)@) == out_members_view(old(members)@).push(
            (name@, value@),
        ),
{
    let ghost before = out_members_view(members@);
    let ghost added = value@;
    members.push((name.to_owned(), value));
    assert(out_members_view(members@) =~= before.push((name@, added)));
}

/// A member, where there is a value for it.
pub open spec fn some_member(name: Seq<char>, value: Option<JsonView>) -> Seq<
    (Seq<char>, OutView),
> {
    match value {
        Some(v) => seq![(name, OutView::Value(v))],
        None => Seq::empty(),
    }
}

/// A member.
pub open spec fn one_member(name: Seq<char>, value: JsonView) -> Seq<(Seq<char>, OutView)> {
    seq![(name, OutView::Value(value))]
}

/// Adds a member.
pub fn add_value(members: &mut Vec<(String, JsonOut)>, name: &str, value: JsonValue)
    ensures
        out_members_view(final(members)@) == out_members_view(old(members)@) + one_member(
            name@,
            value@,
        ),
{
    let ghost before = out_members_view(members@);
    let ghost v = value@;
    add_member(members, name, JsonOut::Value(value));
    assert(out_members_view(members@) =~= before + one_member(name@, v));
}

/// Adds a member, where there is a value for it.
pub fn add_some(
    members: &mut Vec<(String, JsonOut)>,
    name: &str,
    value: Option<JsonValue>,
)
    ensures
        out_members_view(final(members)@) == out_members_view(old(members)@) + some_member(
            name@,
            opt_json(value),
        ),
{
    match value {
        Some(v) => add_value(members, name, v),
        None => {
            assert(out_members_view(members@) + Seq::<(Seq<char>, OutView)>::empty()
                =~= out_members_view(members@));
        },
    }
}

/// A record of the given members.
pub fn record(members: Vec<(String, JsonOut)>) -> (res: JsonOut)
    ensures
        res@ == OutView::Record(out_members_view(members@)),
{
    broadcast use lemma_out_view;

    JsonOut::Record(members)
}

/// A list of the given values.
pub fn list(items: Vec<JsonOut>) -> (res: JsonOut)
    ensures
        res@ == OutView::List(outs_view(items@)),
{
    broadcast use lemma_out_view;

    JsonOut::List(items)
}

/// An object with a member set.
pub open spec fn with_member(v: JsonView, name: Seq<char>, value: JsonView) -> JsonView {
    match v {
        JsonView::Object(m) => JsonView::Object(m.insert(name, value)),
        _ => v,
    }
}

/// An object with a member set; any other value as it is.
pub fn set_member(v: &JsonValue, name: &str, value: JsonValue) -> (res: JsonValue)
    ensures
        res@ == with_member(v@, name@, value@),
{
    broadcast use lemma_json_view;

    match v {
        JsonValue::Object(entries) => {
            let mut out: Vec<(String, JsonValue)> = Vec::new();
            let mut i: usize = 0;
            while i < entries.len()
                invariant
                    i <= entries@.len(),
                    out@.len() == i,
                    forall|j: int|
                        0 <= j < i ==> (#[trigger] out@[j]).0@ == entries@[j].0@ && out@[j].1@
                            == entries@[j].1@,
                decreases entries@.len() - i,
            {
                out.push((entries[i].0.clone(), entries[i].1.clone()));
                i += 1;
            }
            assert(entries_view(out@) =~= entries_view(entries@));
            put(&mut out, name, value);
            object(out)
        },
        _ => v.clone(),
    }
}

/// An object without members.
pub fn empty_object() -> (res: JsonValue)
    ensures
        res@ == JsonView::Object(Map::empty()),
{
    let entries: Vec<(String, JsonValue)> = Vec::new();
    assert(members_map(entries_view(entries@)) =~= Map::<Seq<char>, JsonView>::empty());
    object(entries)
}

/// An array without items.
pub fn empty_array() -> (res: JsonValue)
    ensures
        res@ == JsonView::Array(Seq::empty()),
{
    let items: Vec<JsonValue> = Vec::new();
    assert(values_view(items@) =~= Seq::<JsonView>::empty());
    array(items)
}

/// What a reader of a record finds under a name, if it finds anything.
pub open spec fn found(v: OutView, name: Seq<char>) -> Option<JsonView> {
    member(plain(v), name)
}

/// The members of two lists together are those of both, and those of the second count where a
/// name is in both.
proof fn lemma_members_together(
    a: Seq<(Seq<char>, JsonView)>,
    b: Seq<(Seq<char>, JsonView)>,
    name: Seq<char>,
)
    ensures
        members_map(a + b).contains_key(name) == (members_map(a).contains_key(name) || members_map(
            b,
        ).contains_key(name)),
        members_map(b).contains_key(name) ==> members_map(a + b)[name] == members_map(b)[name],
        !members_map(b).contains_key(name) && members_map(a).contains_key(name) ==> members_map(
            a + b,
        )[name] == members_map(a)[name],
    decreases b.len(),
{
    if b.len() == 0 {
        assert(a + b =~= a);
    } else {
        lemma_members_together(a, b.drop_last(), name);
        assert((a + b).drop_last() =~= a + b.drop_last());
        assert((a + b).last() == b.last());
    }
}

/// In a record of two lists of members a reader finds what it finds in the second, or else what
/// it finds in the first.
pub broadcast proof fn law_found_in_parts(
    a: Seq<(Seq<char>, OutView)>,
    b: Seq<(Seq<char>, OutView)>,
    name: Seq<char>,
)
    ensures
        #[trigger] found(OutView::Record(a + b), name) == match found(OutView::Record(b), name) {
            Some(v) => Some(v),
            None => found(OutView::Record(a), name),
        },
{
    lemma_plain(OutView::Record(a + b));
    lemma_plain(OutView::Record(a));
    lemma_plain(OutView::Record(b));
    assert(plain_members(a + b) =~= plain_members(a) + plain_members(b));
    lemma_members_together(plain_members(a), plain_members(b), name);
}

/// In a record of one member a reader finds the value under its name and nothing under others.
pub broadcast proof fn law_found_by_name(own: Seq<char>, value: OutView, name: Seq<char>)
    ensures
        #[trigger] found(OutView::Record(seq![(own, value)]), name) == if own == name {
            Some(plain(value))
        } else {
            None
        },
{
    let s = seq![(own, value)];
    lemma_plain(OutView::Record(s));
    reveal_with_fuel(members_map, 2);
    assert(plain_members(s).drop_last() =~= Seq::empty());
    assert(plain_members(s).last() == (own, plain(value)));
}

/// In a record without members a reader finds nothing.
pub broadcast proof fn law_nothing_found(name: Seq<char>)
    ensures
        #[trigger] found(OutView::Record(Seq::empty()), name) is None,
{
    lemma_plain(OutView::Record(Seq::empty()));
}

/// In a record of one plain member a reader finds the value under its name.
pub broadcast proof fn law_found_one(own: Seq<char>, value: JsonView, name: Seq<char>)
    ensures
        #[trigger] found(OutView::Record(one_member(own, value)), name) == if own == name {
            Some(value)
        } else {
            None
        },
{
    law_found_by_name(own, OutView::Value(value), name);
    lemma_plain(OutView::Value(value));
}

/// In a record of a member that may be missing a reader finds its value under its name, or
/// nothing where it is missing.
pub broadcast proof fn law_found_some(own: Seq<char>, value: Option<JsonView>, name: Seq<char>)
    ensures
        #[trigger] found(OutView::Record(some_member(own, value)), name) == if own == name {
            value
        } else {
            None
        },
{
    law_nothing_found(name);
    if let Some(v) = value {
        law_found_one(own, v, name);
        assert(some_member(own, value) == one_member(own, v));
    }
}

/// In a list of members put down one after the other a reader finds the last, or else what it
/// finds in the others.
pub broadcast proof fn law_found_last(
    a: Seq<(Seq<char>, OutView)>,
    m: (Seq<char>, OutView),
    name: Seq<char>,
)
    ensures
        #[trigger] found(OutView::Record(a.push(m)), name) == if m.0 == name {
            Some(plain(m.1))
        } else {
            found(OutView::Record(a), name)
        },
{
    law_found_in_parts(a, seq![(m.0, m.1)], name);
    law_found_by_name(m.0, m.1, name);
    assert(a + seq![(m.0, m.1)] =~= a.push(m));
}

/// What readers of records find.
pub broadcast group group_found {
    law_found_in_parts,
    law_found_by_name,
    law_nothing_found,
    law_found_one,
    law_found_some,
    law_found_last,
}

/// Setting a member of an object gives it that value and changes no other; any other value stays as
/// it is.
pub proof fn law_members_are_set(v: JsonView, name: Seq<char>, value: JsonView, other: Seq<char>)
    ensures
        v is Object ==> with_member(v, name, value) is Object,
        v is Object ==> member(with_member(v, name, value), name) == Some(value),
        v is Object && other != name ==> member(with_member(v, name, value), other) == member(
            v,
            other,
        ),
        !(v is Object) ==> with_member(v, name, value) == v,
{
}

/// The members of a list by name: none of an empty list, and one more member counts from then on.
pub proof fn law_members_by_name(
    pairs: Seq<(Seq<char>, JsonView)>,
    own: Seq<char>,
    value: JsonView,
    name: Seq<char>,
)
    ensures
        !members_map(Seq::empty()).contains_key(name),
        members_map(pairs.push((own, value))).contains_key(own),
        members_map(pairs.push((own, value)))[own] == value,
        name != own ==> members_map(pairs.push((own, value))).contains_key(name) == members_map(
            pairs,
        ).contains_key(name),
        name != own && members_map(pairs).contains_key(name) ==> members_map(
            pairs.push((own, value)),
        )[name] == members_map(pairs)[name],
{
    assert(pairs.push((own, value)).drop_last() =~= pairs);
}

/// A member is found under its name in an object, and nothing anywhere else; a field of a record is
/// also found at its place in a list.
pub proof fn law_members_are_found(v: JsonView, name: Seq<char>, position: int)
    ensures
        v matches JsonView::Object(m) ==> (m.contains_key(name) ==> member(v, name) == Some(m[name]))
            && (!m.contains_key(name) ==> member(v, name) is None) && record_field(
            v,
            name,
            position,
        ) == member(v, name),
        !(v is Object) ==> member(v, name) is None,
        v matches JsonView::Array(items) ==> (0 <= position < items.len() ==> record_field(
            v,
            name,
            position,
        ) == Some(items[position])) && (!(0 <= position < items.len()) ==> record_field(
            v,
            name,
            position,
        ) is None),
{
}

} // verus!
