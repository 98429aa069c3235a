//! JSON documents, read and written by the `serde_json` crate.
use vstd::prelude::*;

verus! {

/// A JSON value of `serde_json`, carried through.
#[verifier::external_type_specification]
#[verifier::external_body]
pub struct ExValue(serde_json::Value);

/// A number of `serde_json`, carried through.
#[verifier::external_type_specification]
#[verifier::external_body]
pub struct ExNumber(serde_json::Number);

/// The error of `serde_json`, carried through.
#[verifier::external_type_specification]
#[verifier::external_body]
pub struct ExJsonError(serde_json::Error);

/// A JSON document.
#[derive(Debug, PartialEq, Eq)]
pub enum Json {
    Null,
    Bool(bool),
    /// A number that is a whole number of 64 bits without a sign.
    UInt(u64),
    /// Any other number.
    Number(serde_json::Number),
    Str(String),
    Array(Vec<Json>),
    /// The members of an object, by their keys.
    Object(Vec<(String, Json)>),
}

/// A [`Json`] with its texts and lists as sequences.
pub enum JsonTree {
    Null,
    Bool(bool),
    UInt(u64),
    Number(serde_json::Number),
    Str(Seq<char>),
    Array(Seq<JsonTree>),
    Object(Seq<(Seq<char>, JsonTree)>),
}

impl Json {
    /// The document with its texts and lists as sequences.
    pub open spec fn tree(self) -> JsonTree
        decreases self,
    {
        match self {
            Json::Null => JsonTree::Null,
            Json::Bool(b) => JsonTree::Bool(b),
            Json::UInt(n) => JsonTree::UInt(n),
            Json::Number(n) => JsonTree::Number(n),
            Json::Str(s) => JsonTree::Str(s@),
            Json::Array(items) => JsonTree::Array(
                Seq::new(
                    items@.len(),
                    |i: int|
                        if 0 <= i < items@.len() {
                            items@[i].tree()
                        } else {
                            JsonTree::Null
                        },
                ),
            ),
            Json::Object(members) => JsonTree::Object(
                Seq::new(
                    members@.len(),
                    |i: int|
                        if 0 <= i < members@.len() {
                            (members@[i].0@, members@[i].1.tree())
                        } else {
                            (Seq::empty(), JsonTree::Null)
                        },
                ),
            ),
        }
    }
}

impl JsonTree {
    /// The member of an object with a key: the first one.
    pub open spec fn member(members: Seq<(Seq<char>, JsonTree)>, key: Seq<char>) -> Option<JsonTree>
        decreases members.len(),
    {
        if members.len() == 0 {
            None
        } else if members[0].0 == key {
            Some(members[0].1)
        } else {
            JsonTree::member(members.skip(1), key)
        }
    }

    /// The member with a key, if the document is an object that has one.
    pub open spec fn get(self, key: Seq<char>) -> Option<JsonTree> {
        match self {
            JsonTree::Object(members) => JsonTree::member(members, key),
            _ => None,
        }
    }

    /// The text of a document that is a text.
    pub open spec fn as_str(self) -> Option<Seq<char>> {
        match self {
            JsonTree::Str(s) => Some(s),
            _ => None,
        }
    }

    /// The text of the member with a key.
    pub open spec fn str_at(self, key: Seq<char>) -> Option<Seq<char>> {
        match self.get(key) {
            Some(value) => value.as_str(),
            None => None,
        }
    }

    /// The whole number in the member with a key.
    pub open spec fn u64_at(self, key: Seq<char>) -> Option<u64> {
        match self.get(key) {
            Some(JsonTree::UInt(n)) => Some(n),
            _ => None,
        }
    }

    /// Whether `serde_json` writes the document as [`JsonTree::written`] says: it holds
    /// no number but whole ones without a sign, and the keys of every object ascend.
    pub open spec fn is_plain(self) -> bool
        decreases self,
    {
        match self {
            JsonTree::Number(_) => false,
            JsonTree::Array(items) => forall|i: int|
                0 <= i < items.len() ==> (#[trigger] items[i]).is_plain(),
            JsonTree::Object(members) => {
                &&& forall|i: int| 0 <= i < members.len() ==> (#[trigger] members[i]).1.is_plain()
                &&& forall|i: int, j: int|
                    0 <= i < j < members.len() ==> crate::text::lex_less(
                        (#[trigger] members[i]).0,
                        (#[trigger] members[j]).0,
                    )
            },
            _ => true,
        }
    }

    /// The text of a plain document, without white space.
    pub open spec fn written(self) -> Seq<char>
        decreases self,
    {
        match self {
            JsonTree::Null => "null"@,
            JsonTree::Bool(b) => if b {
                "true"@
            } else {
                "false"@
            },
            JsonTree::UInt(n) => crate::numerals::digits_of(n as nat),
            JsonTree::Number(_) => Seq::empty(),
            JsonTree::Str(s) => quoted(s),
            JsonTree::Array(items) => seq!['['] + JsonTree::written_items(items) + seq![']'],
            JsonTree::Object(members) => seq!['{'] + JsonTree::written_members(members) + seq!['}'],
        }
    }

    /// The texts of some documents, with commas between them.
    pub open spec fn written_items(items: Seq<JsonTree>) -> Seq<char>
        decreases items,
    {
        if items.len() == 0 {
            Seq::empty()
        } else if items.len() == 1 {
            items[0].written()
        } else {
            items[0].written() + seq![','] + JsonTree::written_items(
                items.subrange(1, items.len() as int),
            )
        }
    }

    /// The texts of some members with their keys, with commas between them.
    pub open spec fn written_members(members: Seq<(Seq<char>, JsonTree)>) -> Seq<char>
        decreases members,
    {
        if members.len() == 0 {
            Seq::empty()
        } else {
            let first = quoted(members[0].0) + seq![':'] + members[0].1.written();
            if members.len() == 1 {
                first
            } else {
                first + seq![','] + JsonTree::written_members(
                    members.subrange(1, members.len() as int),
                )
            }
        }
    }
}

/// One of the sixteen digits of a hexadecimal number.
pub open spec fn hex_digit(n: nat) -> char {
    if n < 10 {
        (n + '0' as u32) as char
    } else {
        (n - 10 + 'a' as u32) as char
    }
}

/// A character as it stands between quotation marks.
pub open spec fn escaped(c: char) -> Seq<char> {
    if c == '"' || c == '\\' {
        seq!['\\', c]
    } else if c == '\u{8}' {
        seq!['\\', 'b']
    } else if c == '\t' {
        seq!['\\', 't']
    } else if c == '\n' {
        seq!['\\', 'n']
    } else if c == '\u{c}' {
        seq!['\\', 'f']
    } else if c == '\r' {
        seq!['\\', 'r']
    } else if (c as u32) < 0x20 {
        seq!['\\', 'u', '0', '0', hex_digit(c as nat / 16), hex_digit(c as nat % 16)]
    } else {
        seq![c]
    }
}

/// The characters of a text as they stand between quotation marks.
pub open spec fn escaped_all(s: Seq<char>) -> Seq<char>
    decreases s.len(),
{
    if s.len() == 0 {
        Seq::empty()
    } else {
        escaped_all(s.drop_last()) + escaped(s.last())
    }
}

/// A text between quotation marks.
pub open spec fn quoted(s: Seq<char>) -> Seq<char> {
    seq!['"'] + escaped_all(s) + seq!['"']
}

/// The value that `serde_json::from_str` reads from a text, if it is JSON.
pub uninterp spec fn json_value(text: Seq<char>) -> Option<serde_json::Value>;

/// What a value of `serde_json` holds.
pub uninterp spec fn json_tree(value: serde_json::Value) -> JsonTree;

/// The value of `serde_json` that holds a document.
pub uninterp spec fn json_value_of(tree: JsonTree) -> serde_json::Value;

/// The text of a value of `serde_json`.
pub uninterp spec fn json_text(value: serde_json::Value) -> Seq<char>;

/// The texts that `serde_json::from_str` reads from a text, if it is a JSON array
/// of texts.
pub uninterp spec fn json_strings(text: Seq<char>) -> Option<Seq<Seq<char>>>;

/// Calls `serde_json::from_str` for a value. What comes out depends on the text
/// alone.
#[verifier::external_body]
fn parse_value(text: &str) -> (r: Result<serde_json::Value, serde_json::Error>)
    ensures
        r.ok() == json_value(text@),
{
    serde_json::from_str(text)
}

/// Takes a `serde_json::Value` apart, variant by variant; `Number::as_u64` tells
/// the whole numbers without a sign from the others. The document depends on the
/// value alone.
#[verifier::external_body]
fn to_json(value: serde_json::Value) -> (r: Json)
    ensures
        r.tree() == json_tree(value),
{
    match value {
        serde_json::Value::Null => Json::Null,
        serde_json::Value::Bool(b) => Json::Bool(b),
        serde_json::Value::Number(n) => n.as_u64().map(Json::UInt).unwrap_or(Json::Number(n)),
        serde_json::Value::String(s) => Json::Str(s),
        serde_json::Value::Array(a) => Json::Array(a.into_iter().map(to_json).collect()),
        serde_json::Value::Object(o) => Json::Object(
            o.into_iter().map(|(k, v)| (k, to_json(v))).collect(),
        ),
    }
}

/// Builds a `serde_json::Value`, variant by variant. The value depends on the
/// document alone.
#[verifier::external_body]
fn to_value(json: &Json) -> (r: serde_json::Value)
    ensures
        r == json_value_of(json.tree()),
{
    match json {
        Json::Null => serde_json::Value::Null,
        Json::Bool(b) => serde_json::Value::Bool(*b),
        Json::UInt(n) => serde_json::Value::Number((*n).into()),
        Json::Number(n) => serde_json::Value::Number(n.clone()),
        Json::Str(s) => serde_json::Value::String(s.clone()),
        Json::Array(a) => serde_json::Value::Array(a.iter().map(to_value).collect()),
        Json::Object(o) => serde_json::Value::Object(
            o.iter().map(|(k, v)| (k.clone(), to_value(v))).collect(),
        ),
    }
}

/// Calls `serde_json::Value::to_string`. The text depends on the value alone, and
/// that of a plain document is [`JsonTree::written`]: the compact format, with the
/// members of an object in the order of their keys.
#[verifier::external_body]
fn value_text(value: &serde_json::Value) -> (r: String)
    ensures
        r@ == json_text(*value),
        forall|tree: JsonTree|
            tree.is_plain() && #[trigger] json_value_of(tree) == *value ==> r@ == tree.written(),
{
    value.to_string()
}

/// Calls `serde_json::from_str` for a list of texts. What comes out depends on the
/// text alone; two brackets are the empty list.
#[verifier::external_body]
pub(crate) fn parse_strings(text: &str) -> (r: Option<Vec<String>>)
    ensures
        r.deep_view() == json_strings(text@),
        text@ == "[]"@ ==> r.deep_view() == Some(Seq::<Seq<char>>::empty()),
{
    serde_json::from_str(text).ok()
}

/// The document in a text, if it is JSON.
pub open spec fn document_in(text: Seq<char>) -> Option<JsonTree> {
    match json_value(text) {
        Some(value) => Some(json_tree(value)),
        None => None,
    }
}

/// What an optional document holds.
pub open spec fn tree_of(json: Option<Json>) -> Option<JsonTree> {
    match json {
        Some(document) => Some(document.tree()),
        None => None,
    }
}

/// What an optional document holds.
pub open spec fn borrowed_tree(json: Option<&Json>) -> Option<JsonTree> {
    match json {
        Some(document) => Some(document.tree()),
        None => None,
    }
}

/// What some values of JSON hold.
pub open spec fn trees(values: Seq<Json>) -> Seq<JsonTree> {
    values.map_values(|value: Json| value.tree())
}

/// Reads a JSON document.
pub fn parse_json(text: &str) -> (r: Option<Json>)
    ensures
        tree_of(r) == document_in(text@),
{
    match parse_value(text) {
        Ok(value) => Some(to_json(value)),
        Err(_) => None,
    }
}

/// Writes a JSON document.
pub fn write_json(json: &Json) -> (r: String)
    ensures
        r@ == json_text(json_value_of(json.tree())),
        json.tree().is_plain() ==> r@ == json.tree().written(),
{
    value_text(&to_value(json))
}

impl Json {
    /// The member with a key, if the document is an object that has one.
    pub fn get(&self, key: &str) -> (r: Option<&Json>)
        ensures
            match r {
                Some(value) => self.tree().get(key@) == Some(value.tree()),
                None => self.tree().get(key@) is None,
            },
    {
        match self {
            Json::Object(members) => {
                let mut i: usize = 0;
                let ghost all = self.tree()->Object_0;
                assert(all.skip(0) =~= all);
                while i < members.len()
                    invariant
                        i <= members.len(),
                        self.tree() == JsonTree::Object(all),
                        *self == Json::Object(*members),
                        all.len() == members.len(),
                        JsonTree::member(all, key@) == JsonTree::member(all.skip(i as int), key@),
                    decreases members.len() - i,
                {
                    assert(all[i as int] == (members@[i as int].0@, members@[i as int].1.tree()));
                    if crate::text::same(members[i].0.as_str(), key) {
                        return Some(&members[i].1);
                    }
                    assert(all.skip(i as int).skip(1) =~= all.skip(i + 1));
                    i += 1;
                }
                None
            },
            _ => None,
        }
    }

    /// The text of a document that is a text.
    pub fn as_str(&self) -> (r: Option<&String>)
        ensures
            match r {
                Some(text) => self.tree().as_str() == Some(text@),
                None => self.tree().as_str() is None,
            },
    {
        match self {
            Json::Str(text) => Some(text),
            _ => None,
        }
    }

    /// The text of the member with a key.
    pub fn str_at(&self, key: &str) -> (r: Option<String>)
        ensures
            r.deep_view() == self.tree().str_at(key@),
    {
        match self.get(key) {
            Some(value) => match value.as_str() {
                Some(text) => Some(text.clone()),
                None => None,
            },
            None => None,
        }
    }

    /// The whole number in the member with a key.
    pub fn u64_at(&self, key: &str) -> (r: Option<u64>)
        ensures
            r == self.tree().u64_at(key@),
    {
        match self.get(key) {
            Some(Json::UInt(n)) => Some(*n),
            _ => None,
        }
    }
}

/// What is found under a key is the first member with that key, and nothing if there is
/// none.
pub proof fn the_first_member_is_found(
    members: Seq<(Seq<char>, JsonTree)>,
    key: Seq<char>,
    at: int,
)
    ensures
        (forall|i: int| 0 <= i < members.len() ==> (#[trigger] members[i]).0 != key)
            ==> JsonTree::Object(members).get(key) is None,
        0 <= at < members.len() && members[at].0 == key && (forall|i: int|
            0 <= i < at ==> (#[trigger] members[i]).0 != key) ==> JsonTree::Object(members).get(key)
            == Some(members[at].1),
    decreases members.len(),
{
    if members.len() > 0 {
        let rest = members.skip(1);
        the_first_member_is_found(rest, key, at - 1);
        if forall|i: int| 0 <= i < members.len() ==> (#[trigger] members[i]).0 != key {
            assert(members[0].0 != key);
            assert forall|i: int| 0 <= i < rest.len() implies (#[trigger] rest[i]).0 != key by {
                assert(rest[i] == members[i + 1]);
            }
        }
        if 0 < at < members.len() && members[at].0 == key && (forall|i: int|
            0 <= i < at ==> (#[trigger] members[i]).0 != key) {
            assert(members[0].0 != key);
            assert(rest[at - 1] == members[at]);
            assert forall|i: int| 0 <= i < at - 1 implies (#[trigger] rest[i]).0 != key by {
                assert(rest[i] == members[i + 1]);
            }
        }
    }
}

/// A text under a key is taken as a text and a whole number as a number, as they are;
/// nothing else is either.
pub proof fn members_are_taken_as_they_are(tree: JsonTree, key: Seq<char>)
    ensures
        tree.str_at(key) == match tree.get(key) {
            Some(JsonTree::Str(text)) => Some(text),
            _ => None,
        },
        tree.u64_at(key) == match tree.get(key) {
            Some(JsonTree::UInt(n)) => Some(n),
            _ => None,
        },
        !(tree is Object) ==> tree.get(key) is None,
{
}

/// A document is seen as it is: member by member and item by item, in their order.
pub proof fn documents_are_seen_as_they_are(members: Vec<(String, Json)>, items: Vec<Json>, at: int)
    ensures
        Json::Object(members).tree() matches JsonTree::Object(seen) && seen.len()
            == members@.len() && (0 <= at < seen.len() ==> seen[at] == (
            members@[at].0@,
            members@[at].1.tree(),
        )),
        Json::Array(items).tree() matches JsonTree::Array(seen) && seen.len() == items@.len() && (0
            <= at < seen.len() ==> seen[at] == items@[at].tree()),
{
}

/// What is found in an object under a key is the value of the first member with that key.
pub proof fn members_are_found_by_their_keys(
    document: &Json,
    members: Vec<(String, Json)>,
    key: &str,
    at: int,
    r: Option<&Json>,
)
    requires
        *document == Json::Object(members),
        call_ensures(Json::get, (document, key), r),
    ensures
        0 <= at < members@.len() && members@[at].0@ == key@ && (forall|i: int|
            0 <= i < at ==> (#[trigger] members@[i]).0@ != key@) ==> r is Some && r->0.tree()
            == members@[at].1.tree(),
        (forall|i: int| 0 <= i < members@.len() ==> (#[trigger] members@[i]).0@ != key@)
            ==> r is None,
{
    let seen = document.tree()->Object_0;
    assert forall|i: int| 0 <= i < seen.len() implies #[trigger] seen[i] == (
        members@[i].0@,
        members@[i].1.tree(),
    ) by {}
    the_first_member_is_found(seen, key@, at);
    if forall|i: int| 0 <= i < members@.len() ==> (#[trigger] members@[i]).0@ != key@ {
        assert forall|i: int| 0 <= i < seen.len() implies (#[trigger] seen[i]).0 != key@ by {
            assert(members@[i].0@ != key@);
        }
    }
    if 0 <= at < members@.len() && members@[at].0@ == key@ && (forall|i: int|
        0 <= i < at ==> (#[trigger] members@[i]).0@ != key@) {
        assert forall|i: int| 0 <= i < at implies (#[trigger] seen[i]).0 != key@ by {
            assert(members@[i].0@ != key@);
        }
    }
}

/// A text is written between quotation marks with its characters as they are, but for
/// quotation marks, backslashes and control characters.
pub proof fn plain_texts_are_written_as_they_are(s: Seq<char>)
    requires
        forall|i: int|
            0 <= i < s.len() ==> (#[trigger] s[i]) as u32 >= 0x20 && s[i] != '"' && s[i] != '\\',
    ensures
        JsonTree::Str(s).written() == seq!['"'] + s + seq!['"'],
{
    lemma_nothing_escaped(s);
}

proof fn lemma_nothing_escaped(s: Seq<char>)
    requires
        forall|i: int|
            0 <= i < s.len() ==> (#[trigger] s[i]) as u32 >= 0x20 && s[i] != '"' && s[i] != '\\',
    ensures
        escaped_all(s) == s,
    decreases s.len(),
{
    if s.len() > 0 {
        let rest = s.drop_last();
        let last = s[s.len() - 1];
        assert(last as u32 >= 0x20 && last != '"' && last != '\\');
        assert forall|i: int| 0 <= i < rest.len() implies (#[trigger] rest[i]) as u32 >= 0x20
            && rest[i] != '"' && rest[i] != '\\' by {
            assert(rest[i] == s[i]);
        }
        lemma_nothing_escaped(rest);
        assert(escaped_all(s) =~= s);
    } else {
        assert(escaped_all(s) =~= s);
    }
}

/// A hexadecimal digit counts as its number.
pub proof fn hexadecimal_digits_count(n: nat)
    requires
        n < 16,
    ensures
        ({
            let c = hex_digit(n);
            ||| '0' <= c <= '9' && c as int - 48 == n
            ||| 'a' <= c <= 'f' && c as int - 87 == n
        }),
{
}

} // verus!
