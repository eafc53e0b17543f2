//! JSON values, as the text that they are written as.

use vstd::prelude::*;
use vstd::string::*;

use crate::text;

verus! {

/// A JSON value of `serde_json`.
#[verifier::external_type_specification]
#[verifier::external_body]
pub struct ExValue(serde_json::Value);

/// The compact text of a value. It tells any two values apart.
pub uninterp spec fn json_text(value: serde_json::Value) -> Seq<char>;

/// The text of the value that a text is read as, or `None` where it is no JSON.
pub uninterp spec fn json_parse(text: Seq<char>) -> Option<Seq<char>>;

/// The text of a named member of the value with this text, where that is an object with
/// such a member.
pub uninterp spec fn json_member(text: Seq<char>, name: Seq<char>) -> Option<Seq<char>>;

/// A character of a string value in its text: itself, or an escape.
pub open spec fn escaped_char(c: char) -> Seq<char> {
    if c == '"' {
        seq!['\\', '"']
    } else if c == '\\' {
        seq!['\\', '\\']
    } else if c as u32 == 0x08 {
        seq!['\\', 'b']
    } else if c as u32 == 0x09 {
        seq!['\\', 't']
    } else if c as u32 == 0x0a {
        seq!['\\', 'n']
    } else if c as u32 == 0x0c {
        seq!['\\', 'f']
    } else if c as u32 == 0x0d {
        seq!['\\', 'r']
    } else if (c as u32) < 0x20 {
        seq!['\\', 'u', '0', '0', hex_digit(c as int / 16), hex_digit(c as int % 16)]
    } else {
        seq![c]
    }
}

/// The lower-case hexadecimal digit of a number below sixteen.
pub open spec fn hex_digit(n: int) -> char {
    if n < 10 {
        ('0' as int + n) as char
    } else {
        ('a' as int + (n - 10)) as char
    }
}

/// The characters of a string value in its text, one after another.
pub open spec fn escaped(s: Seq<char>) -> Seq<char>
    decreases s.len(),
{
    if s.len() == 0 {
        seq![]
    } else {
        escaped_char(s[0]) + escaped(s.drop_first())
    }
}

/// The text of a string value: its characters between double quotes.
pub open spec fn json_of_string(s: Seq<char>) -> Seq<char> {
    seq!['"'] + escaped(s) + seq!['"']
}

/// The string that the value with this text is, where it is one: the one that is written so.
pub open spec fn json_as_str(text: Seq<char>) -> Option<Seq<char>> {
    if exists|s: Seq<char>| text == #[trigger] json_of_string(s) {
        Some(choose|s: Seq<char>| text == #[trigger] json_of_string(s))
    } else {
        None
    }
}

/// The integer that the value with this text is, where it is one that fits: the one that is
/// written so in decimal.
pub open spec fn json_as_i64(text: Seq<char>) -> Option<i64> {
    if exists|n: i64| text == #[trigger] text::signed_decimal(n as int) {
        Some(choose|n: i64| text == #[trigger] text::signed_decimal(n as int))
    } else {
        None
    }
}

/// Whether the values with these texts are equal.
pub uninterp spec fn json_equal(a: Seq<char>, b: Seq<char>) -> bool;

/// A JSON value without floating-point numbers.
pub enum Tree {
    Null,
    Bool(bool),
    Int(int),
    Str(Seq<char>),
    Array(Seq<Tree>),
    /// The members, each with its name.
    Object(Seq<(Seq<char>, Tree)>),
}

/// The compact text of a value.
pub open spec fn written(tree: Tree) -> Seq<char>
    decreases tree,
{
    match tree {
        Tree::Null => "null"@,
        Tree::Bool(true) => "true"@,
        Tree::Bool(false) => "false"@,
        Tree::Int(n) => text::signed_decimal(n),
        Tree::Str(s) => json_of_string(s),
        Tree::Array(items) => seq!['['] + written_items(items) + seq![']'],
        Tree::Object(members) => seq!['{'] + written_members(members) + seq!['}'],
    }
}

/// The compact text of the items of an array, with commas between them.
pub open spec fn written_items(items: Seq<Tree>) -> Seq<char>
    decreases items,
{
    if items.len() == 0 {
        seq![]
    } else if items.len() == 1 {
        written(items[0])
    } else {
        written_items(items.drop_last()) + seq![','] + written(items.last())
    }
}

/// The compact text of the members of an object, with commas between them.
pub open spec fn written_members(members: Seq<(Seq<char>, Tree)>) -> Seq<char>
    decreases members,
{
    if members.len() == 0 {
        seq![]
    } else {
        let member = json_of_string(members.last().0) + seq![':'] + written(members.last().1);
        if members.len() == 1 {
            member
        } else {
            written_members(members.drop_last()) + seq![','] + member
        }
    }
}

/// The name of a first member because of which an object is not read as an object.
pub open spec fn raw_value_name() -> Seq<char> {
    "$serde_json::private::RawValue"@
}

/// Whether a value is read back from its text: its integers fit, no more than this many arrays
/// and objects stand around one another, and every object is read as an object.
pub open spec fn readable(tree: Tree, depth: nat) -> bool
    decreases depth,
{
    match tree {
        Tree::Int(n) => i64::MIN <= n <= u64::MAX,
        Tree::Array(items) => depth > 0 && forall|i: int|
            0 <= i < items.len() ==> readable(#[trigger] items[i], (depth - 1) as nat),
        Tree::Object(members) => {
            &&& depth > 0
            &&& members.len() > 0 ==> members[0].0 != raw_value_name()
            &&& forall|i: int|
                0 <= i < members.len() ==> readable((#[trigger] members[i]).1, (depth - 1) as nat)
        },
        _ => true,
    }
}

/// How many arrays and objects may stand around one another in a text that is read.
pub const MAX_DEPTH: u8 = 127;

/// Whether a text is that of a value that is read back from it.
pub open spec fn plain(text: Seq<char>) -> bool {
    exists|tree: Tree| #[trigger] written(tree) == text && readable(tree, MAX_DEPTH as nat)
}

/// Whether the value with this text is read back from it, where the text is plain.
pub open spec fn kept(text: Seq<char>) -> bool {
    plain(text) ==> json_parse(text) == Some(text)
}

/// `serde_json::to_string`: writes a value as compact text. Writing a `Value` does not
/// fail. The text is read back as the same value where that has no floating-point numbers, at
/// most 127 arrays and objects around one another, and no object that begins with the member by
/// which `serde_json` marks a raw value. Nothing is promised of other texts: reading a
/// floating-point number may round it.
#[verifier::external_body]
fn value_to_text(value: &serde_json::Value) -> (r: Option<String>)
    ensures
        r is Some,
        r.unwrap()@ == json_text(*value),
        kept(r.unwrap()@),
{
    serde_json::to_string(value).ok()
}

/// `serde_json::from_str::<Value>`: reads a text as a value.
#[verifier::external_body]
fn value_from_text(text: &str) -> (r: Option<serde_json::Value>)
    ensures
        r matches Some(v) ==> json_parse(text@) == Some(json_text(v)),
        r is None ==> json_parse(text@) is None,
{
    serde_json::from_str::<serde_json::Value>(text).ok()
}

/// `Value::get`: a copy of a named member of an object.
#[verifier::external_body]
fn value_member(value: &serde_json::Value, name: &str) -> (r: Option<serde_json::Value>)
    ensures
        r matches Some(v) ==> json_member(json_text(*value), name@) == Some(json_text(v)),
        r is None ==> json_member(json_text(*value), name@) is None,
{
    value.get(name).cloned()
}

/// `Value::as_str`: a copy of the string that a value is.
#[verifier::external_body]
fn value_as_str(value: &serde_json::Value) -> (r: Option<String>)
    ensures
        crate::database::text_of(r) == json_as_str(json_text(*value)),
{
    value.as_str().map(String::from)
}

/// `Value::as_i64`: the integer that a value is.
#[verifier::external_body]
fn value_as_i64(value: &serde_json::Value) -> (r: Option<i64>)
    ensures
        r == json_as_i64(json_text(*value)),
{
    value.as_i64()
}

/// `Value::eq`: whether two values are equal. Values with the same text are.
#[verifier::external_body]
fn value_equal(a: &serde_json::Value, b: &serde_json::Value) -> (r: bool)
    ensures
        r == json_equal(json_text(*a), json_text(*b)),
        json_text(*a) == json_text(*b) ==> r,
{
    a == b
}

/// `Value::from` of a `String`: a string value, whose text is the string between double quotes,
/// with escapes.
#[verifier::external_body]
fn value_of_string(s: String) -> (r: serde_json::Value)
    ensures
        json_text(r) == json_of_string(s@),
{
    serde_json::Value::from(s)
}

/// `Value::Null`: the null value, whose text is `null`.
#[verifier::external_body]
fn value_null() -> (r: serde_json::Value)
    ensures
        json_text(r) == "null"@,
{
    serde_json::Value::Null
}

/// `Value::from` of an `i64`: an integer value, whose text is the number in decimal.
#[verifier::external_body]
fn value_of_i64(n: i64) -> (r: serde_json::Value)
    ensures
        json_text(r) == text::signed_decimal(n as int),
{
    serde_json::Value::from(n)
}

/// `Value::from` of a `u64`: an integer value, whose text is the number in decimal.
#[verifier::external_body]
fn value_of_u64(n: u64) -> (r: serde_json::Value)
    ensures
        json_text(r) == text::decimal(n as nat),
{
    serde_json::Value::from(n)
}

/// The members of an object of `serde_json`.
#[verifier::external_type_specification]
#[verifier::external_body]
#[verifier::reject_recursive_types(K)]
#[verifier::reject_recursive_types(V)]
pub struct ExMembers<K, V>(serde_json::Map<K, V>);

/// The text of each member of an object, by its name.
pub type MemberTexts = Map<Seq<char>, Seq<char>>;

/// What the members of an object are.
pub uninterp spec fn json_members(members: serde_json::Map<String, serde_json::Value>) -> MemberTexts;

/// `serde_json::Map::new`: no members.
#[verifier::external_body]
fn members_new() -> (r: serde_json::Map<String, serde_json::Value>)
    ensures
        json_members(r) == MemberTexts::empty(),
{
    serde_json::Map::new()
}

/// `serde_json::Map::insert`: sets a member.
#[verifier::external_body]
fn members_insert(
    members: &mut serde_json::Map<String, serde_json::Value>,
    name: String,
    value: serde_json::Value,
)
    ensures
        json_members(*final(members)) == json_members(*old(members)).insert(
            name@,
            json_text(value),
        ),
{
    members.insert(name, value);
}

/// Whether a text is that of an object with these members and no other.
pub open spec fn has_members(text: Seq<char>, members: MemberTexts) -> bool {
    forall|name: Seq<char>| #[trigger]
        json_member(text, name) == crate::database::lookup(members, name)
}

/// `Value::Object`: an object with these members and no other.
#[verifier::external_body]
fn value_of_members(members: serde_json::Map<String, serde_json::Value>) -> (r: serde_json::Value)
    ensures
        has_members(json_text(r), json_members(members)),
{
    serde_json::Value::Object(members)
}

/// A JSON value. Its model is its compact text.
pub struct Json {
    value: serde_json::Value,
}

impl View for Json {
    type V = Seq<char>;

    closed spec fn view(&self) -> Seq<char> {
        json_text(self.value)
    }
}

/// The model of an optional value.
pub open spec fn texts_of(v: Option<Json>) -> Option<Seq<char>> {
    match v {
        Some(v) => Some(v@),
        None => None,
    }
}

impl Json {
    /// Takes over a value.
    pub fn from_value(value: serde_json::Value) -> (r: Self)
        ensures
            r@ == json_text(value),
    {
        Json { value }
    }

    /// Hands the value over.
    pub fn into_value(self) -> (r: serde_json::Value)
        ensures
            json_text(r) == self@,
    {
        self.value
    }

    /// The null value.
    pub fn null() -> (r: Self)
        ensures
            r@ == "null"@,
    {
        Json { value: value_null() }
    }

    /// A string value.
    pub fn string(s: String) -> (r: Self)
        ensures
            r@ == json_of_string(s@),
    {
        Json { value: value_of_string(s) }
    }

    /// An integer value.
    pub fn signed(n: i64) -> (r: Self)
        ensures
            r@ == text::signed_decimal(n as int),
    {
        Json { value: value_of_i64(n) }
    }

    /// An integer value.
    pub fn unsigned(n: u64) -> (r: Self)
        ensures
            r@ == text::decimal(n as nat),
    {
        Json { value: value_of_u64(n) }
    }

    /// Reads a text.
    pub fn parse(text: &str) -> (r: Option<Self>)
        ensures
            texts_of(r) == json_parse(text@),
    {
        match value_from_text(text) {
            Some(value) => Some(Json { value }),
            None => None,
        }
    }

    /// A named member of an object.
    pub fn get(&self, name: &str) -> (r: Option<Self>)
        ensures
            texts_of(r) == json_member(self@, name@),
    {
        match value_member(&self.value, name) {
            Some(value) => Some(Json { value }),
            None => None,
        }
    }

    /// The string that the value is, where it is one.
    pub fn as_str(&self) -> (r: Option<String>)
        ensures
            crate::database::text_of(r) == json_as_str(self@),
    {
        value_as_str(&self.value)
    }

    /// The integer that the value is, where it is one that fits.
    pub fn as_i64(&self) -> (r: Option<i64>)
        ensures
            r == json_as_i64(self@),
    {
        value_as_i64(&self.value)
    }

    /// Whether the values are equal.
    pub fn equals(&self, other: &Self) -> (r: bool)
        ensures
            r == json_equal(self@, other@),
            self@ == other@ ==> r,
    {
        value_equal(&self.value, &other.value)
    }
}

/// A JSON object in the making. Its model is the text of each member, by its name.
pub struct Members {
    members: serde_json::Map<String, serde_json::Value>,
}

impl View for Members {
    type V = MemberTexts;

    closed spec fn view(&self) -> MemberTexts {
        json_members(self.members)
    }
}

impl Members {
    /// No members.
    pub fn new() -> (r: Self)
        ensures
            r@ == MemberTexts::empty(),
    {
        Members { members: members_new() }
    }

    /// Sets a member.
    pub fn insert(&mut self, name: &str, value: Json)
        ensures
            final(self)@ == old(self)@.insert(name@, value@),
    {
        members_insert(&mut self.members, name.to_owned(), value.value);
    }

    /// The object with these members.
    pub fn into_json(self) -> (r: Json)
        ensures
            has_members(r@, self@),
    {
        Json { value: value_of_members(self.members) }
    }
}

/// The text of the value that a stored text stands for: the value that it is read as, or,
/// where it is no JSON, the string that it is.
pub open spec fn decoded(stored: Seq<char>) -> Seq<char> {
    match json_parse(stored) {
        Some(text) => text,
        None => json_of_string(stored),
    }
}

/// Whether a text stands for the value that it is the text of, where the text is plain.
pub open spec fn faithful(text: Seq<char>) -> bool {
    plain(text) ==> decoded(text) == text
}

/// Writes a value as text, which stands for the same value where it is plain.
pub fn encode_json(v: &Json) -> (r: String)
    ensures
        r@ == v@,
        faithful(r@),
{
    match value_to_text(&v.value) {
        Some(text) => text,
        None => "null".to_owned(),
    }
}

/// The value that a stored text was read as or, where it is no JSON, the string that it is.
pub fn or_string(parsed: Option<Json>, s: &str) -> (r: Json)
    ensures
        r@ == match parsed {
            Some(v) => v@,
            None => json_of_string(s@),
        },
        parsed is None ==> json_as_str(r@) == Some(s@),
{
    proof {
        law_strings_are_read_as_themselves(s@);
    }
    match parsed {
        Some(v) => v,
        None => Json::string(s.to_owned()),
    }
}

/// Reads a stored text as a value. A text that is no JSON is read as the string that it is.
pub fn decode_json(s: &str) -> (r: Json)
    ensures
        r@ == decoded(s@),
        json_parse(s@) is None ==> json_as_str(r@) == Some(s@),
{
    or_string(Json::parse(s), s)
}

proof fn lemma_hex_digit_injective(m: int, n: int)
    requires
        0 <= m < 16,
        0 <= n < 16,
        hex_digit(m) == hex_digit(n),
    ensures
        m == n,
{
    assert(hex_digit(m) as int == if m < 10 { 0x30 + m } else { 0x61 + m - 10 });
    assert(hex_digit(n) as int == if n < 10 { 0x30 + n } else { 0x61 + n - 10 });
}

proof fn lemma_escaped_char_injective(a: char, rest_a: Seq<char>, b: char, rest_b: Seq<char>)
    requires
        escaped_char(a) + rest_a == escaped_char(b) + rest_b,
    ensures
        a == b,
        rest_a == rest_b,
{
    let (ea, eb) = (escaped_char(a), escaped_char(b));
    let whole = ea + rest_a;
    assert(whole[0] == ea[0] && whole[0] == eb[0]);
    if ea.len() > 1 && eb.len() > 1 {
        assert(whole[1] == ea[1] && whole[1] == eb[1]);
        if ea[1] == 'u' {
            assert(whole[4] == ea[4] && whole[4] == eb[4]);
            assert(whole[5] == ea[5] && whole[5] == eb[5]);
            lemma_hex_digit_injective(a as int / 16, b as int / 16);
            lemma_hex_digit_injective(a as int % 16, b as int % 16);
        }
    }
    assert(a == b);
    assert(rest_a =~= whole.skip(ea.len() as int));
    assert(rest_b =~= whole.skip(eb.len() as int));
}

proof fn lemma_escaped_injective(a: Seq<char>, b: Seq<char>)
    requires
        escaped(a) + seq!['"'] == escaped(b) + seq!['"'],
    ensures
        a == b,
    decreases a.len(),
{
    let end = seq!['"'];
    if a.len() == 0 || b.len() == 0 {
        if a.len() > 0 {
            assert((escaped(a) + end)[0] == escaped_char(a[0])[0]);
            assert((escaped(b) + end)[0] == '"');
        }
        if b.len() > 0 {
            assert((escaped(b) + end)[0] == escaped_char(b[0])[0]);
            assert((escaped(a) + end)[0] == '"');
        }
        assert(a =~= b);
    } else {
        let (rest_a, rest_b) = (a.drop_first(), b.drop_first());
        assert(escaped(a) + end =~= escaped_char(a[0]) + (escaped(rest_a) + end));
        assert(escaped(b) + end =~= escaped_char(b[0]) + (escaped(rest_b) + end));
        lemma_escaped_char_injective(a[0], escaped(rest_a) + end, b[0], escaped(rest_b) + end);
        lemma_escaped_injective(rest_a, rest_b);
        assert(a =~= seq![a[0]] + rest_a);
        assert(b =~= seq![b[0]] + rest_b);
    }
}

/// Strings with the same text are the same string.
pub proof fn law_texts_tell_strings_apart(a: Seq<char>, b: Seq<char>)
    requires
        json_of_string(a) == json_of_string(b),
    ensures
        a == b,
{
    assert(escaped(a) + seq!['"'] =~= json_of_string(a).skip(1));
    assert(escaped(b) + seq!['"'] =~= json_of_string(b).skip(1));
    lemma_escaped_injective(a, b);
}

/// A string is read as itself.
pub proof fn law_strings_are_read_as_themselves(s: Seq<char>)
    ensures
        json_as_str(json_of_string(s)) == Some(s),
{
    let found = choose|t: Seq<char>| json_of_string(s) == #[trigger] json_of_string(t);
    law_texts_tell_strings_apart(s, found);
}

/// An integer is read as itself.
pub proof fn law_integers_are_read_as_themselves(n: i64)
    ensures
        json_as_i64(text::signed_decimal(n as int)) == Some(n),
{
    let found = choose|m: i64|
        text::signed_decimal(n as int) == #[trigger] text::signed_decimal(m as int);
    text::law_signed_decimals_tell_numbers_apart(n as int, found as int);
}

/// The text of a 64-bit integer, signed or not, is plain.
pub proof fn law_integers_are_plain(n: int)
    requires
        i64::MIN <= n <= u64::MAX,
    ensures
        plain(text::signed_decimal(n)),
{
    let tree = Tree::Int(n);
    assert(written(tree) == text::signed_decimal(n) && readable(tree, MAX_DEPTH as nat));
}

/// The texts of null, of the truth values and of every string are plain.
pub proof fn law_simple_values_are_plain(s: Seq<char>)
    ensures
        plain("null"@),
        plain("true"@),
        plain("false"@),
        plain(json_of_string(s)),
{
    let depth = MAX_DEPTH as nat;
    assert(written(Tree::Null) == "null"@ && readable(Tree::Null, depth));
    assert(written(Tree::Bool(true)) == "true"@ && readable(Tree::Bool(true), depth));
    assert(written(Tree::Bool(false)) == "false"@ && readable(Tree::Bool(false), depth));
    assert(written(Tree::Str(s)) == json_of_string(s) && readable(Tree::Str(s), depth));
}

/// A stored text that is read as a value stands for that value, and one that is not stands for
/// the string that it is.
pub proof fn law_stored_texts_stand_for_values(stored: Seq<char>, value: Seq<char>)
    ensures
        json_parse(stored) == Some(value) ==> decoded(stored) == value,
        json_parse(stored) is None ==> json_as_str(decoded(stored)) == Some(stored),
{
    law_strings_are_read_as_themselves(stored);
}

/// An object has exactly the members that it is said to have.
pub proof fn law_members_are_found(
    text: Seq<char>,
    members: MemberTexts,
    name: Seq<char>,
    value: Seq<char>,
)
    requires
        has_members(text, members.insert(name, value)),
    ensures
        json_member(text, name) == Some(value),
        forall|other: Seq<char>|
            other != name && !members.contains_key(other) ==> json_member(text, other) is None,
        forall|other: Seq<char>|
            other != name && members.contains_key(other) ==> json_member(text, other) == Some(
                members[other],
            ),
{
}

} // verus!
