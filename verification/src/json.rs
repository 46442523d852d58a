//! The greeting record and its JSON form.
//!
//! Reading and writing JSON text is `serde_json`'s work; two functions at the
//! end of this file call it, and their contracts are taken on trust. What makes
//! a document a greeting is decided here, on the members that the parser found.

use vstd::prelude::*;
use crate::text::same_text;

verus! {

/// The two members of a greeting.
#[derive(Clone, Copy, Debug, PartialEq, Eq, Structural)]
pub enum Field {
    Name,
    Greeting,
}

impl Field {
    /// The key under which the member stands in a JSON object.
    pub open spec fn key_text(self) -> Seq<char> {
        match self {
            Field::Name => "name"@,
            Field::Greeting => "greeting"@,
        }
    }

    /// The key under which the member stands in a JSON object.
    pub fn key(&self) -> (key: &'static str)
        ensures
            key@ == self.key_text(),
    {
        match self {
            Field::Name => "name",
            Field::Greeting => "greeting",
        }
    }
}

/// A greeting: who is greeted, and with what words.
#[derive(Clone, Debug, PartialEq, Eq)]
pub struct Greet {
    pub name: String,
    pub greeting: String,
}

/// What a greeting is to the contracts.
pub struct GreetView {
    pub name: Seq<char>,
    pub greeting: Seq<char>,
}

impl View for Greet {
    type V = GreetView;

    open spec fn view(&self) -> GreetView {
        GreetView { name: self.name@, greeting: self.greeting@ }
    }
}

/// Why a text is not a greeting.
#[derive(Clone, Debug, PartialEq, Eq)]
pub enum ParseError {
    /// The text is not a JSON document; the parser's own words say why.
    Syntax(String),
    /// The document is something other than an object.
    NotAnObject,
    /// The object has no member of that name.
    MissingField(Field),
    /// The member of that name is not a string.
    NotAString(Field),
}

/// What a parse error is to the contracts.
pub enum ParseErrorView {
    Syntax(Seq<char>),
    NotAnObject,
    MissingField(Field),
    NotAString(Field),
}

impl View for ParseError {
    type V = ParseErrorView;

    open spec fn view(&self) -> ParseErrorView {
        match self {
            ParseError::Syntax(message) => ParseErrorView::Syntax(message@),
            ParseError::NotAnObject => ParseErrorView::NotAnObject,
            ParseError::MissingField(field) => ParseErrorView::MissingField(*field),
            ParseError::NotAString(field) => ParseErrorView::NotAString(*field),
        }
    }
}

/// The sentence that tells a reader what went wrong.
pub open spec fn message_text(error: ParseErrorView) -> Seq<char> {
    match error {
        ParseErrorView::Syntax(message) => message,
        ParseErrorView::NotAnObject => "invalid type, expected an object"@,
        ParseErrorView::MissingField(field) => "missing field `"@ + field.key_text() + "`"@,
        ParseErrorView::NotAString(field) => "invalid type for field `"@ + field.key_text()
            + "`, expected a string"@,
    }
}

impl ParseError {
    /// The sentence that tells a reader what went wrong.
    pub fn message(&self) -> (message: String)
        ensures
            message@ == message_text(self@),
    {
        match self {
            ParseError::Syntax(message) => message.clone(),
            ParseError::NotAnObject => "invalid type, expected an object".to_owned(),
            ParseError::MissingField(field) => {
                let mut message = "missing field `".to_owned();
                message.append(field.key());
                message.append("`");
                message
            },
            ParseError::NotAString(field) => {
                let mut message = "invalid type for field `".to_owned();
                message.append(field.key());
                message.append("`, expected a string");
                message
            },
        }
    }
}

/// One member of a JSON object, as far as a greeting is read from it: its key,
/// and its text where its value is a string.
#[derive(Clone, Debug, PartialEq, Eq)]
pub struct Member {
    pub key: String,
    pub text: Option<String>,
}

impl View for Member {
    type V = (Seq<char>, Option<Seq<char>>);

    open spec fn view(&self) -> (Seq<char>, Option<Seq<char>>) {
        (
            self.key@,
            match self.text {
                Some(text) => Some(text@),
                None => None,
            },
        )
    }
}

/// A JSON document, as far as a greeting is read from it: the members of an
/// object in the order of the text, or the fact that it is no object.
#[derive(Clone, Debug, PartialEq, Eq)]
pub enum Document {
    Object(Vec<Member>),
    Other,
}

/// What a list of members is to the contracts.
pub open spec fn member_views(members: Seq<Member>) -> Seq<(Seq<char>, Option<Seq<char>>)> {
    members.map_values(|member: Member| member@)
}

/// What the outcome of parsing is to the contracts: the parser's message for a
/// text that is not JSON, `None` for a document that is no object, and else
/// the members.
pub open spec fn parsed_view(parsed: Result<Document, String>) -> Result<
    Option<Seq<(Seq<char>, Option<Seq<char>>)>>,
    Seq<char>,
> {
    match parsed {
        Ok(Document::Object(members)) => Ok(Some(member_views(members@))),
        Ok(Document::Other) => Ok(None),
        Err(message) => Err(message@),
    }
}

/// What the outcome of reading a greeting is to the contracts.
pub open spec fn outcome_view(outcome: Result<Greet, ParseError>) -> Result<
    GreetView,
    ParseErrorView,
> {
    match outcome {
        Ok(greet) => Ok(greet@),
        Err(error) => Err(error@),
    }
}

/// What stands under `key` in a list of members: nothing, or the first member
/// of that key, which is a string or not.
pub open spec fn lookup(members: Seq<(Seq<char>, Option<Seq<char>>)>, key: Seq<char>) -> Option<
    Option<Seq<char>>,
>
    decreases members.len(),
{
    if members.len() == 0 {
        None
    } else if members.first().0 == key {
        Some(members.first().1)
    } else {
        lookup(members.drop_first(), key)
    }
}

/// The text of a field of a greeting, or what is wrong with the field.
pub open spec fn field_in(members: Seq<(Seq<char>, Option<Seq<char>>)>, field: Field) -> Result<
    Seq<char>,
    ParseErrorView,
> {
    match lookup(members, field.key_text()) {
        None => Err(ParseErrorView::MissingField(field)),
        Some(None) => Err(ParseErrorView::NotAString(field)),
        Some(Some(text)) => Ok(text),
    }
}

/// The greeting that a parsed text holds. A text is a greeting where it is a
/// JSON object in which both `name` and `greeting` are strings; whatever else
/// the object holds is passed over. Where both fields are at fault, the error
/// speaks of `name`.
pub open spec fn greeting_in(
    parsed: Result<Option<Seq<(Seq<char>, Option<Seq<char>>)>>, Seq<char>>,
) -> Result<GreetView, ParseErrorView> {
    match parsed {
        Err(message) => Err(ParseErrorView::Syntax(message)),
        Ok(None) => Err(ParseErrorView::NotAnObject),
        Ok(Some(members)) => match field_in(members, Field::Name) {
            Err(error) => Err(error),
            Ok(name) => match field_in(members, Field::Greeting) {
                Err(error) => Err(error),
                Ok(greeting) => Ok(GreetView { name, greeting }),
            },
        },
    }
}

/// The members of the object that a greeting is written as, in the order in
/// which they are written.
pub open spec fn greeting_members(greet: GreetView) -> Seq<(Seq<char>, Seq<char>)> {
    seq![(Field::Name.key_text(), greet.name), (Field::Greeting.key_text(), greet.greeting)]
}

/// Finds the first member with the key `key`.
pub fn find_member<'a>(members: &'a Vec<Member>, key: &str) -> (found: Option<&'a Member>)
    ensures
        match found {
            Some(member) => {
                &&& members@.contains(*member)
                &&& member.key@ == key@
                &&& lookup(member_views(members@), key@) == Some(member@.1)
            },
            None => lookup(member_views(members@), key@) is None,
        },
{
    let mut i: usize = 0;
    assert(member_views(members@).skip(0) =~= member_views(members@));
    while i < members.len()
        invariant
            i <= members.len(),
            lookup(member_views(members@), key@) == lookup(
                member_views(members@).skip(i as int),
                key@,
            ),
        decreases members.len() - i,
    {
        let ghost rest = member_views(members@).skip(i as int);
        assert(rest.first() == members[i as int]@);
        if same_text(members[i].key.as_str(), key) {
            return Some(&members[i]);
        }
        assert(rest.drop_first() =~= member_views(members@).skip(i + 1));
        i += 1;
    }
    assert(member_views(members@).skip(i as int).len() == 0);
    None
}

/// Reads one field of a greeting from the members of an object.
pub fn read_field(members: &Vec<Member>, field: Field) -> (r: Result<String, ParseError>)
    ensures
        match r {
            Ok(text) => field_in(member_views(members@), field) == Ok::<
                Seq<char>,
                ParseErrorView,
            >(text@),
            Err(error) => field_in(member_views(members@), field) == Err::<
                Seq<char>,
                ParseErrorView,
            >(error@),
        },
{
    match find_member(members, field.key()) {
        None => Err(ParseError::MissingField(field)),
        Some(member) => match &member.text {
            None => Err(ParseError::NotAString(field)),
            Some(text) => Ok(text.clone()),
        },
    }
}

/// Reads a greeting from the outcome of parsing a text.
pub fn read_greeting(parsed: Result<Document, String>) -> (outcome: Result<Greet, ParseError>)
    ensures
        outcome_view(outcome) == greeting_in(parsed_view(parsed)),
{
    match parsed {
        Err(message) => Err(ParseError::Syntax(message)),
        Ok(Document::Other) => Err(ParseError::NotAnObject),
        Ok(Document::Object(members)) => {
            let name = match read_field(&members, Field::Name) {
                Ok(text) => text,
                Err(error) => {
                    return Err(error);
                },
            };
            let greeting = match read_field(&members, Field::Greeting) {
                Ok(text) => text,
                Err(error) => {
                    return Err(error);
                },
            };
            Ok(Greet { name, greeting })
        },
    }
}

/// Reads a greeting from JSON text.
pub fn parse_greeting(text: &[u8]) -> (outcome: Result<Greet, ParseError>)
    ensures
        outcome_view(outcome) == greeting_in(json_document(text@)),
{
    read_greeting(parse_document(text))
}

impl Greet {
    /// The greeting as JSON text for a reader: an object of the two members,
    /// `name` first, on lines of their own.
    pub fn to_pretty(&self) -> (text: String)
        ensures
            text@ == json_pretty(greeting_members(self@)),
    {
        let mut members: Vec<(String, String)> = Vec::with_capacity(2);
        members.push((Field::Name.key().to_owned(), self.name.clone()));
        members.push((Field::Greeting.key().to_owned(), self.greeting.clone()));
        assert(members.deep_view() =~= greeting_members(self@));
        pretty_object(&members)
    }
}

/// A lookup finds the first member of the key and no other: what it returns
/// stands under that key at some place before which the key does not occur,
/// and it returns nothing only where the key does not occur at all.
pub proof fn lemma_lookup_finds_first(
    members: Seq<(Seq<char>, Option<Seq<char>>)>,
    key: Seq<char>,
)
    ensures
        match lookup(members, key) {
            Some(value) => exists|i: int|
                {
                    &&& 0 <= i < members.len()
                    &&& #[trigger] members[i] == (key, value)
                    &&& forall|j: int| 0 <= j < i ==> (#[trigger] members[j]).0 != key
                },
            None => forall|j: int| 0 <= j < members.len() ==> (#[trigger] members[j]).0 != key,
        },
    decreases members.len(),
{
    if members.len() == 0 {
    } else if members.first().0 == key {
        assert(members[0] == (key, members.first().1));
    } else {
        let rest = members.drop_first();
        lemma_lookup_finds_first(rest, key);
        match lookup(rest, key) {
            Some(value) => {
                let i = choose|i: int|
                    {
                        &&& 0 <= i < rest.len()
                        &&& #[trigger] rest[i] == (key, value)
                        &&& forall|j: int| 0 <= j < i ==> (#[trigger] rest[j]).0 != key
                    };
                assert(members[i + 1] == rest[i]);
                assert forall|j: int| 0 <= j < i + 1 implies (#[trigger] members[j]).0 != key by {
                    if j > 0 {
                        assert(members[j] == rest[j - 1]);
                    }
                }
            },
            None => {
                assert forall|j: int| 0 <= j < members.len() implies (#[trigger] members[j]).0
                    != key by {
                    if j > 0 {
                        assert(members[j] == rest[j - 1]);
                    }
                }
            },
        }
    }
}

/// An object is a greeting exactly where both `name` and `greeting` stand in
/// it as strings, and the greeting then holds those two texts. A field that is
/// absent or of another type makes the whole reading fail.
pub proof fn lemma_greeting_needs_both_fields(members: Seq<(Seq<char>, Option<Seq<char>>)>)
    ensures
        greeting_in(Ok(Some(members))) is Ok <==> {
            &&& lookup(members, Field::Name.key_text()) matches Some(Some(_))
            &&& lookup(members, Field::Greeting.key_text()) matches Some(Some(_))
        },
        greeting_in(Ok(Some(members))) matches Ok(greet) ==> {
            &&& lookup(members, Field::Name.key_text()) == Some(Some(greet.name))
            &&& lookup(members, Field::Greeting.key_text()) == Some(Some(greet.greeting))
        },
{
}

/// A member under any other key plays no part: put into an object anywhere,
/// it changes neither the greeting that is read nor the error.
pub proof fn lemma_other_members_passed_over(
    members: Seq<(Seq<char>, Option<Seq<char>>)>,
    at: int,
    extra: (Seq<char>, Option<Seq<char>>),
)
    requires
        0 <= at <= members.len(),
        extra.0 != Field::Name.key_text(),
        extra.0 != Field::Greeting.key_text(),
    ensures
        greeting_in(Ok(Some(members.insert(at, extra)))) == greeting_in(Ok(Some(members))),
{
    lemma_lookup_skips_other_keys(members, at, extra, Field::Name.key_text());
    lemma_lookup_skips_other_keys(members, at, extra, Field::Greeting.key_text());
}

/// A lookup passes over a member of another key, wherever it stands.
pub proof fn lemma_lookup_skips_other_keys(
    members: Seq<(Seq<char>, Option<Seq<char>>)>,
    at: int,
    extra: (Seq<char>, Option<Seq<char>>),
    key: Seq<char>,
)
    requires
        0 <= at <= members.len(),
        extra.0 != key,
    ensures
        lookup(members.insert(at, extra), key) == lookup(members, key),
    decreases at,
{
    let longer = members.insert(at, extra);
    if at == 0 {
        assert(longer.first() == extra);
        assert(longer.drop_first() =~= members);
    } else {
        assert(longer.first() == members.first());
        assert(longer.drop_first() =~= members.drop_first().insert(at - 1, extra));
        lemma_lookup_skips_other_keys(members.drop_first(), at - 1, extra, key);
    }
}

/// What `serde_json` reads from a text: its error message where the text is
/// not one JSON document; `None` where the document is not an object; else the
/// object's members in the order of the text, each with its key, and with its
/// text where its value is a string.
pub uninterp spec fn json_document(text: Seq<u8>) -> Result<
    Option<Seq<(Seq<char>, Option<Seq<char>>)>>,
    Seq<char>,
>;

/// The text that `serde_json` writes for an object whose members are all
/// strings, in its indented form.
pub uninterp spec fn json_pretty(members: Seq<(Seq<char>, Seq<char>)>) -> Seq<char>;

/// Parses a text with `serde_json::from_slice`, as a `serde_json::Value`.
///
/// Taken on trust: that the outcome depends on the bytes alone. The contract
/// gives that outcome a name and says nothing of what it is. The body keeps of
/// the parsed value what a greeting is read from, and the parser's message of
/// an error.
#[verifier::external_body]
fn parse_document(text: &[u8]) -> (parsed: Result<Document, String>)
    ensures
        parsed_view(parsed) == json_document(text@),
{
    match serde_json::from_slice::<serde_json::Value>(text) {
        Ok(serde_json::Value::Object(object)) => {
            let mut members = Vec::with_capacity(object.len());
            for (key, value) in object {
                match value {
                    serde_json::Value::String(text) => members.push(Member { key, text: Some(text) }),
                    _ => members.push(Member { key, text: None }),
                }
            }
            Ok(Document::Object(members))
        },
        Ok(_) => Ok(Document::Other),
        Err(error) => Err(error.to_string()),
    }
}

/// Writes an object of string members with `serde_json::to_string_pretty`.
///
/// Taken on trust: that the text depends on the members alone, and that the
/// call succeeds. It writes into memory, and every key and value is a string,
/// so the serializer has nothing to refuse.
#[verifier::external_body]
fn pretty_object(members: &Vec<(String, String)>) -> (text: String)
    ensures
        text@ == json_pretty(members.deep_view()),
{
    let mut object = serde_json::Map::with_capacity(members.len());
    for (key, value) in members {
        object.insert(key.clone(), serde_json::Value::String(value.clone()));
    }
    serde_json::to_string_pretty(&serde_json::Value::Object(object)).unwrap()
}

} // verus!
