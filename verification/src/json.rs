//! JSON values, their canonical form and their text.
use vstd::prelude::*;

use crate::outside::hex_digit;
use crate::text::{
    chars_of, is_text_before, join, lemma_text_before_total, lemma_text_before_transitive,
    push_all, same_text, str_view, string_of, text_before, text_view,
};

verus! {

/// A JSON value. A number is held as the decimal text by which it is written.
#[derive(Debug)]
pub enum JsonValue {
    Null,
    Bool(bool),
    Number(String),
    Text(String),
    Array(Vec<JsonValue>),
    Object(Vec<(String, JsonValue)>),
}

/// What a JSON value holds.
pub enum Json {
    Null,
    Bool(bool),
    Number(Seq<char>),
    Text(Seq<char>),
    Array(Seq<Json>),
    Object(Seq<(Seq<char>, Json)>),
}

/// What a value holds.
pub open spec fn json_of(value: JsonValue) -> Json
    decreases value,
{
    match value {
        JsonValue::Null => Json::Null,
        JsonValue::Bool(b) => Json::Bool(b),
        JsonValue::Number(text) => Json::Number(text@),
        JsonValue::Text(text) => Json::Text(text@),
        JsonValue::Array(items) => Json::Array(json_items(items@)),
        JsonValue::Object(entries) => Json::Object(json_entries(entries@)),
    }
}

/// What a list of values holds.
pub open spec fn json_items(items: Seq<JsonValue>) -> Seq<Json>
    decreases items,
{
    if items.len() == 0 {
        Seq::empty()
    } else {
        json_items(items.drop_last()).push(json_of(items.last()))
    }
}

/// What a list of entries holds.
pub open spec fn json_entries(entries: Seq<(String, JsonValue)>) -> Seq<(Seq<char>, Json)>
    decreases entries,
{
    if entries.len() == 0 {
        Seq::empty()
    } else {
        json_entries(entries.drop_last()).push((entries.last().0@, json_of(entries.last().1)))
    }
}

impl View for JsonValue {
    type V = Json;

    open spec fn view(&self) -> Json {
        json_of(*self)
    }
}

pub proof fn lemma_json_items(items: Seq<JsonValue>)
    ensures
        json_items(items).len() == items.len(),
        forall|i: int|
            0 <= i < items.len() ==> #[trigger] json_items(items)[i] == json_of(items[i]),
    decreases items.len(),
{
    if items.len() > 0 {
        lemma_json_items(items.drop_last());
        assert forall|i: int| 0 <= i < items.len() implies #[trigger] json_items(items)[i]
            == json_of(items[i]) by {
            if i < items.len() - 1 {
                assert(items.drop_last()[i] == items[i]);
            }
        }
    }
}

pub proof fn lemma_json_entries(entries: Seq<(String, JsonValue)>)
    ensures
        json_entries(entries).len() == entries.len(),
        forall|i: int|
            0 <= i < entries.len() ==> #[trigger] json_entries(entries)[i] == (
                entries[i].0@,
                json_of(entries[i].1),
            ),
    decreases entries.len(),
{
    if entries.len() > 0 {
        lemma_json_entries(entries.drop_last());
        assert forall|i: int| 0 <= i < entries.len() implies #[trigger] json_entries(entries)[i]
            == (entries[i].0@, json_of(entries[i].1)) by {
            if i < entries.len() - 1 {
                assert(entries.drop_last()[i] == entries[i]);
            }
        }
    }
}

/// The value of the first entry with a key.
pub open spec fn entry_value(entries: Seq<(Seq<char>, Json)>, key: Seq<char>) -> Option<Json>
    decreases entries.len(),
{
    if entries.len() == 0 {
        None
    } else if entries[0].0 == key {
        Some(entries[0].1)
    } else {
        entry_value(entries.drop_first(), key)
    }
}

impl Json {
    /// The field of an object.
    pub open spec fn field(self, key: Seq<char>) -> Option<Json> {
        match self {
            Json::Object(entries) => entry_value(entries, key),
            _ => None,
        }
    }

    /// The text of a string value.
    pub open spec fn text(self) -> Option<Seq<char>> {
        match self {
            Json::Text(text) => Some(text),
            _ => None,
        }
    }

    /// The text of a field that holds a string.
    pub open spec fn field_text(self, key: Seq<char>) -> Option<Seq<char>> {
        match self.field(key) {
            Some(field) => field.text(),
            None => None,
        }
    }
}

/// What an optional value holds.
pub open spec fn json_view(value: Option<JsonValue>) -> Option<Json> {
    match value {
        Some(value) => Some(value@),
        None => None,
    }
}

/// What an optional reference to a value holds.
pub open spec fn json_ref_view(value: Option<&JsonValue>) -> Option<Json> {
    match value {
        Some(value) => Some(value@),
        None => None,
    }
}

pub proof fn lemma_entry_value(entries: Seq<(Seq<char>, Json)>, key: Seq<char>, at: int)
    requires
        0 <= at <= entries.len(),
        forall|i: int| 0 <= i < at ==> (#[trigger] entries[i]).0 != key,
        at < entries.len() ==> entries[at].0 == key,
    ensures
        entry_value(entries, key) == if at < entries.len() {
            Some(entries[at].1)
        } else {
            None
        },
    decreases entries.len(),
{
    if entries.len() > 0 && at > 0 {
        assert(entries[0].0 != key);
        let rest = entries.drop_first();
        assert forall|i: int| 0 <= i < at - 1 implies (#[trigger] rest[i]).0 != key by {
            assert(rest[i] == entries[i + 1]);
        }
        lemma_entry_value(rest, key, at - 1);
    }
}

/// The value of the first entry with a key.
pub fn find_entry<'a>(entries: &'a Vec<(String, JsonValue)>, key: &str) -> (r: Option<
    &'a JsonValue,
>)
    ensures
        json_ref_view(r) == entry_value(json_entries(entries@), key@),
{
    proof {
        lemma_json_entries(entries@);
    }
    let mut i: usize = 0;
    while i < entries.len()
        invariant
            i <= entries@.len(),
            json_entries(entries@).len() == entries@.len(),
            forall|j: int|
                0 <= j < entries@.len() ==> #[trigger] json_entries(entries@)[j] == (
                    entries@[j].0@,
                    json_of(entries@[j].1),
                ),
            forall|j: int| 0 <= j < i ==> (#[trigger] json_entries(entries@)[j]).0 != key@,
        decreases entries@.len() - i,
    {
        if same_text(entries[i].0.as_str(), key) {
            proof {
                lemma_entry_value(json_entries(entries@), key@, i as int);
            }
            return Some(&entries[i].1);
        }
        i = i + 1;
    }
    proof {
        lemma_entry_value(json_entries(entries@), key@, i as int);
    }
    None
}

impl JsonValue {
    /// The field of an object.
    pub fn get(&self, key: &str) -> (r: Option<&JsonValue>)
        ensures
            json_ref_view(r) == self@.field(key@),
    {
        match self {
            JsonValue::Object(entries) => find_entry(entries, key),
            _ => None,
        }
    }

    /// The text of a string value.
    pub fn as_str(&self) -> (r: Option<&str>)
        ensures
            str_view(r) == self@.text(),
    {
        match self {
            JsonValue::Text(text) => Some(text.as_str()),
            _ => None,
        }
    }

    /// The text of a field that holds a string.
    pub fn get_str(&self, key: &str) -> (r: Option<&str>)
        ensures
            str_view(r) == self@.field_text(key@),
    {
        match self.get(key) {
            Some(field) => field.as_str(),
            None => None,
        }
    }
}

/// Appends an entry to those of an object.
pub fn push_entry(entries: &mut Vec<(String, JsonValue)>, key: &str, value: JsonValue)
    ensures
        json_entries(final(entries)@) == json_entries(old(entries)@).push((key@, value@)),
{
    let ghost before = entries@;
    entries.push((key.to_owned(), value));
    proof {
        assert(entries@.drop_last() =~= before);
    }
}

/// What optional entries hold.
pub open spec fn entries_view(entries: Option<Vec<(String, JsonValue)>>) -> Option<
    Seq<(Seq<char>, Json)>,
> {
    match entries {
        Some(entries) => Some(json_entries(entries@)),
        None => None,
    }
}

/// A copy of optional entries.
pub fn clone_entries(entries: &Option<Vec<(String, JsonValue)>>) -> (r: Option<
    Vec<(String, JsonValue)>,
>)
    ensures
        entries_view(r) == entries_view(*entries),
{
    match entries {
        Some(entries) => {
            let mut out: Vec<(String, JsonValue)> = Vec::new();
            let mut i: usize = 0;
            while i < entries.len()
                invariant
                    i <= entries@.len(),
                    json_entries(out@) == json_entries(entries@.subrange(0, i as int)),
                decreases entries@.len() - i,
            {
                push_entry(&mut out, entries[i].0.as_str(), clone_json(&entries[i].1));
                i = i + 1;
                proof {
                    let upto = entries@.subrange(0, i as int);
                    assert(upto.drop_last() =~= entries@.subrange(0, i - 1));
                    assert(upto.last() == entries@[i - 1]);
                }
            }
            assert(entries@.subrange(0, entries@.len() as int) =~= entries@);
            Some(out)
        },
        None => None,
    }
}

/// A text, or null where there is none.
pub open spec fn optional_text(text: Option<Seq<char>>) -> Json {
    match text {
        Some(text) => Json::Text(text),
        None => Json::Null,
    }
}

/// A text, or null where there is none.
pub fn optional_text_value(text: &Option<String>) -> (r: JsonValue)
    ensures
        r@ == optional_text(text_view(*text)),
{
    match text {
        Some(text) => JsonValue::Text(text.clone()),
        None => JsonValue::Null,
    }
}

/// A copy of a value.
pub fn clone_json(value: &JsonValue) -> (r: JsonValue)
    ensures
        r@ == value@,
    decreases value,
{
    match value {
        JsonValue::Null => JsonValue::Null,
        JsonValue::Bool(b) => JsonValue::Bool(*b),
        JsonValue::Number(text) => JsonValue::Number(text.clone()),
        JsonValue::Text(text) => JsonValue::Text(text.clone()),
        JsonValue::Array(items) => {
            let mut out: Vec<JsonValue> = Vec::new();
            let mut i: usize = 0;
            while i < items.len()
                invariant
                    i <= items@.len(),
                    json_items(out@) == json_items(items@.subrange(0, i as int)),
                    decreases_to!(value => items),
                decreases items@.len() - i,
            {
                let ghost done = out@;
                let ghost upto = items@.subrange(0, i + 1);
                proof {
                    assert(decreases_to!(items => items@));
                    assert(decreases_to!(items@ => items@[i as int]));
                    assert(upto.drop_last() =~= items@.subrange(0, i as int));
                }
                out.push(clone_json(&items[i]));
                proof {
                    assert(out@.drop_last() =~= done);
                }
                i = i + 1;
            }
            proof {
                assert(items@.subrange(0, items@.len() as int) =~= items@);
            }
            JsonValue::Array(out)
        },
        JsonValue::Object(entries) => {
            let mut out: Vec<(String, JsonValue)> = Vec::new();
            let mut i: usize = 0;
            while i < entries.len()
                invariant
                    i <= entries@.len(),
                    json_entries(out@) == json_entries(entries@.subrange(0, i as int)),
                    decreases_to!(value => entries),
                decreases entries@.len() - i,
            {
                let ghost done = out@;
                let ghost upto = entries@.subrange(0, i + 1);
                proof {
                    assert(decreases_to!(entries => entries@));
                    assert(decreases_to!(entries@ => entries@[i as int]));
                    assert(upto.drop_last() =~= entries@.subrange(0, i as int));
                }
                out.push((entries[i].0.clone(), clone_json(&entries[i].1)));
                proof {
                    assert(out@.drop_last() =~= done);
                }
                i = i + 1;
            }
            proof {
                assert(entries@.subrange(0, entries@.len() as int) =~= entries@);
            }
            JsonValue::Object(out)
        },
    }
}

/// How a character stands in a JSON string literal: quotes, backslashes and control characters are
/// escaped.
pub open spec fn escaped_char(c: char) -> Seq<char> {
    if c == '"' {
        seq!['\\', '"']
    } else if c == '\\' {
        seq!['\\', '\\']
    } else if c == '\u{8}' {
        seq!['\\', 'b']
    } else if c == '\u{c}' {
        seq!['\\', 'f']
    } else if c == '\n' {
        seq!['\\', 'n']
    } else if c == '\r' {
        seq!['\\', 'r']
    } else if c == '\t' {
        seq!['\\', 't']
    } else if c <= '\u{1f}' {
        seq!['\\', 'u', '0', '0', hex_digit(c as int / 16), hex_digit(c as int % 16)]
    } else {
        seq![c]
    }
}

/// `escaped_char` on each character.
pub open spec fn escaped(text: Seq<char>) -> Seq<char>
    decreases text.len(),
{
    if text.len() == 0 {
        Seq::empty()
    } else {
        escaped_char(text[0]) + escaped(text.drop_first())
    }
}

/// The JSON string literal of a text, with its quotes.
pub open spec fn json_literal(text: Seq<char>) -> Seq<char> {
    seq!['"'] + escaped(text) + seq!['"']
}

/// `serde_json::to_string` on a string: the text between quotes, with its quotes, backslashes and
/// control characters escaped. Writing a string to memory does not fail.
#[verifier::external_body]
pub(crate) fn json_string(text: &str) -> (r: String)
    ensures
        r@ == json_literal(text@),
{
    serde_json::to_string(text).unwrap_or_default()
}

/// The value of a hexadecimal digit in either case.
pub open spec fn hex_value(c: char) -> Option<int> {
    if '0' <= c <= '9' {
        Some(c as int - '0' as int)
    } else if 'a' <= c <= 'f' {
        Some(c as int - 'a' as int + 10)
    } else if 'A' <= c <= 'F' {
        Some(c as int - 'A' as int + 10)
    } else {
        None
    }
}

/// Whether a character has a code point.
pub open spec fn has_code(c: char, code: int) -> bool {
    c as int == code
}

/// The character of a code point.
pub open spec fn code_char(code: int) -> Option<char> {
    if exists|c: char| has_code(c, code) {
        Some(choose|c: char| has_code(c, code))
    } else {
        None
    }
}

/// The character that an escape at the beginning of a text stands for, and the length of the
/// escape. An escape that is half of a pair of surrogates is not read.
pub open spec fn first_escape(s: Seq<char>) -> Option<(char, int)> {
    if s.len() < 2 || s[0] != '\\' {
        None
    } else if s[1] == '"' || s[1] == '\\' || s[1] == '/' {
        Some((s[1], 2))
    } else if s[1] == 'b' {
        Some(('\u{8}', 2))
    } else if s[1] == 'f' {
        Some(('\u{c}', 2))
    } else if s[1] == 'n' {
        Some(('\n', 2))
    } else if s[1] == 'r' {
        Some(('\r', 2))
    } else if s[1] == 't' {
        Some(('\t', 2))
    } else if s[1] == 'u' && s.len() >= 6 {
        match (hex_value(s[2]), hex_value(s[3]), hex_value(s[4]), hex_value(s[5])) {
            (Some(a), Some(b), Some(c), Some(d)) => match code_char(
                a * 4096 + b * 256 + c * 16 + d,
            ) {
                Some(c) => Some((c, 6)),
                None => None,
            },
            _ => None,
        }
    } else {
        None
    }
}

/// The text that stands between the quotes of a JSON string literal, with its escapes resolved.
pub open spec fn unescaped(s: Seq<char>) -> Option<Seq<char>>
    decreases s.len(),
{
    if s.len() == 0 {
        Some(Seq::empty())
    } else if s[0] == '\\' {
        match first_escape(s) {
            Some((c, length)) => match unescaped(s.subrange(length, s.len() as int)) {
                Some(rest) => Some(seq![c] + rest),
                None => None,
            },
            None => None,
        }
    } else if s[0] == '"' || s[0] <= '\u{1f}' {
        None
    } else {
        match unescaped(s.drop_first()) {
            Some(rest) => Some(seq![s[0]] + rest),
            None => None,
        }
    }
}

/// The text that a JSON string literal stands for.
pub open spec fn literal_text(literal: Seq<char>) -> Option<Seq<char>> {
    if literal.len() >= 2 && literal[0] == '"' && literal.last() == '"' {
        unescaped(literal.subrange(1, literal.len() - 1))
    } else {
        None
    }
}

proof fn lemma_hex_value(value: int)
    requires
        0 <= value < 16,
    ensures
        hex_value(hex_digit(value)) == Some(value),
{
}

proof fn lemma_first_escape(c: char, rest: Seq<char>)
    ensures
        escaped_char(c).len() > 1 ==> first_escape(escaped_char(c) + rest) == Some(
            (c, escaped_char(c).len() as int),
        ),
{
    let s = escaped_char(c) + rest;
    let n = escaped_char(c).len() as int;
    if n > 1 {
        assert(s[0] == '\\' && s[1] == escaped_char(c)[1]);
        if n == 6 {
            lemma_hex_value(c as int / 16);
            lemma_hex_value(c as int % 16);
            assert(s[2] == '0' && s[3] == '0');
            assert(s[4] == hex_digit(c as int / 16));
            assert(s[5] == hex_digit(c as int % 16));
            assert(has_code(c, c as int));
        }
    }
}

proof fn lemma_unescaped(text: Seq<char>)
    ensures
        unescaped(escaped(text)) == Some(text),
    decreases text.len(),
{
    if text.len() > 0 {
        let c = text[0];
        let rest = escaped(text.drop_first());
        let s = escaped(text);
        lemma_unescaped(text.drop_first());
        lemma_first_escape(c, rest);
        assert(text =~= seq![c] + text.drop_first());
        let n = escaped_char(c).len() as int;
        assert(s.subrange(n, s.len() as int) =~= rest);
        assert(s[0] == escaped_char(c)[0]);
        if n == 1 {
            assert(s.drop_first() =~= rest);
        }
    }
}

/// A JSON string literal stands for the text that it was made of.
pub proof fn literal_is_read_back(text: Seq<char>)
    ensures
        literal_text(json_literal(text)) == Some(text),
{
    let literal = json_literal(text);
    assert(literal.subrange(1, literal.len() - 1) =~= escaped(text));
    lemma_unescaped(text);
}

/// The compact text of a value.
pub open spec fn json_text(value: Json) -> Seq<char>
    decreases value,
{
    match value {
        Json::Null => "null"@,
        Json::Bool(true) => "true"@,
        Json::Bool(false) => "false"@,
        Json::Number(text) => text,
        Json::Text(text) => json_literal(text),
        Json::Array(items) => "["@ + items_text(items) + "]"@,
        Json::Object(entries) => "{"@ + entries_text(entries) + "}"@,
    }
}

/// The texts of some values, with commas between them.
pub open spec fn items_text(items: Seq<Json>) -> Seq<char>
    decreases items,
{
    if items.len() == 0 {
        Seq::empty()
    } else if items.len() == 1 {
        json_text(items[0])
    } else {
        items_text(items.drop_last()) + ","@ + json_text(items.last())
    }
}

/// The texts of some entries, with commas between them.
pub open spec fn entries_text(entries: Seq<(Seq<char>, Json)>) -> Seq<char>
    decreases entries,
{
    if entries.len() == 0 {
        Seq::empty()
    } else if entries.len() == 1 {
        entry_text(entries[0].0, json_text(entries[0].1))
    } else {
        entries_text(entries.drop_last()) + ","@ + entry_text(
            entries.last().0,
            json_text(entries.last().1),
        )
    }
}

/// A key and the text of its value.
pub open spec fn entry_text(key: Seq<char>, value: Seq<char>) -> Seq<char> {
    json_literal(key) + ":"@ + value
}

fn push_text(out: &mut Vec<char>, text: &str)
    ensures
        final(out)@ == old(out)@ + text@,
{
    let chars = chars_of(text);
    push_all(out, chars.as_slice());
}

fn write_json(value: &JsonValue, out: &mut Vec<char>)
    ensures
        final(out)@ == old(out)@ + json_text(value@),
    decreases value,
{
    match value {
        JsonValue::Null => push_text(out, "null"),
        JsonValue::Bool(b) => if *b {
            push_text(out, "true")
        } else {
            push_text(out, "false")
        },
        JsonValue::Number(text) => push_text(out, text.as_str()),
        JsonValue::Text(text) => {
            let literal = json_string(text.as_str());
            push_text(out, literal.as_str());
        },
        JsonValue::Array(items) => {
            push_text(out, "[");
            let ghost start = out@;
            let ghost held = json_items(items@);
            let mut i: usize = 0;
            proof {
                lemma_json_items(items@);
                assert(held.subrange(0, 0) =~= Seq::<Json>::empty());
                assert(out@ =~= start + items_text(held.subrange(0, 0)));
            }
            while i < items.len()
                invariant
                    i <= items@.len(),
                    held.len() == items@.len(),
                    forall|j: int| 0 <= j < items@.len() ==> #[trigger] held[j] == json_of(items@[j]),
                    out@ == start + items_text(held.subrange(0, i as int)),
                    decreases_to!(value => items),
                decreases items@.len() - i,
            {
                let ghost upto = held.subrange(0, i + 1);
                proof {
                    assert(upto.drop_last() =~= held.subrange(0, i as int));
                    assert(upto.last() == held[i as int]);
                    assert(decreases_to!(items => items@));
                    assert(decreases_to!(items@ => items@[i as int]));
                }
                if i > 0 {
                    push_text(out, ",");
                }
                write_json(&items[i], out);
                proof {
                    assert(out@ =~= start + items_text(upto));
                }
                i = i + 1;
            }
            proof {
                assert(held.subrange(0, items@.len() as int) =~= held);
            }
            push_text(out, "]");
            proof {
                assert(out@ =~= old(out)@ + ("["@ + items_text(held) + "]"@));
            }
        },
        JsonValue::Object(entries) => {
            push_text(out, "{");
            let ghost start = out@;
            let ghost held = json_entries(entries@);
            let mut i: usize = 0;
            proof {
                lemma_json_entries(entries@);
                assert(held.subrange(0, 0) =~= Seq::<(Seq<char>, Json)>::empty());
                assert(out@ =~= start + entries_text(held.subrange(0, 0)));
            }
            while i < entries.len()
                invariant
                    i <= entries@.len(),
                    held.len() == entries@.len(),
                    forall|j: int|
                        0 <= j < entries@.len() ==> #[trigger] held[j] == (
                            entries@[j].0@,
                            json_of(entries@[j].1),
                        ),
                    out@ == start + entries_text(held.subrange(0, i as int)),
                    decreases_to!(value => entries),
                decreases entries@.len() - i,
            {
                let ghost upto = held.subrange(0, i + 1);
                proof {
                    assert(upto.drop_last() =~= held.subrange(0, i as int));
                    assert(upto.last() == held[i as int]);
                    assert(decreases_to!(entries => entries@));
                    assert(decreases_to!(entries@ => entries@[i as int]));
                }
                if i > 0 {
                    push_text(out, ",");
                }
                let literal = json_string(entries[i].0.as_str());
                push_text(out, literal.as_str());
                push_text(out, ":");
                write_json(&entries[i].1, out);
                proof {
                    assert(out@ =~= start + entries_text(upto));
                }
                i = i + 1;
            }
            proof {
                assert(held.subrange(0, entries@.len() as int) =~= held);
            }
            push_text(out, "}");
            proof {
                assert(out@ =~= old(out)@ + ("{"@ + entries_text(held) + "}"@));
            }
        },
    }
}

/// The compact text of a value.
pub fn json_to_string(value: &JsonValue) -> (r: String)
    ensures
        r@ == json_text(value@),
{
    let mut out: Vec<char> = Vec::new();
    write_json(value, &mut out);
    proof {
        assert(Seq::<char>::empty() + json_text(value@) =~= json_text(value@));
    }
    string_of(out.as_slice())
}

/// Entries in which every key comes before those behind it.
pub open spec fn keys_ascend(entries: Seq<(Seq<char>, Json)>) -> bool {
    forall|i: int, j: int|
        0 <= i < j < entries.len() ==> text_before(
            (#[trigger] entries[i]).0,
            (#[trigger] entries[j]).0,
        )
}

/// Ascending entries with the value of one key set.
pub open spec fn with_entry(
    entries: Seq<(Seq<char>, Json)>,
    key: Seq<char>,
    value: Json,
) -> Seq<(Seq<char>, Json)>
    decreases entries.len(),
{
    if entries.len() == 0 || text_before(key, entries[0].0) {
        seq![(key, value)] + entries
    } else if entries[0].0 == key {
        seq![(key, value)] + entries.drop_first()
    } else {
        seq![entries[0]] + with_entry(entries.drop_first(), key, value)
    }
}

/// A value with the entries of every object in ascending order of their keys.
pub open spec fn canonical(value: Json) -> Json
    decreases value,
{
    match value {
        Json::Array(items) => Json::Array(canonical_items(items)),
        Json::Object(entries) => Json::Object(canonical_entries(entries)),
        _ => value,
    }
}

/// The canonical forms of some values.
pub open spec fn canonical_items(items: Seq<Json>) -> Seq<Json>
    decreases items,
{
    if items.len() == 0 {
        Seq::empty()
    } else {
        canonical_items(items.drop_last()).push(canonical(items.last()))
    }
}

/// The canonical forms of some entries, in ascending order; of a key that occurs twice the later
/// entry counts.
pub open spec fn canonical_entries(entries: Seq<(Seq<char>, Json)>) -> Seq<(Seq<char>, Json)>
    decreases entries,
{
    if entries.len() == 0 {
        Seq::empty()
    } else {
        with_entry(
            canonical_entries(entries.drop_last()),
            entries.last().0,
            canonical(entries.last().1),
        )
    }
}

/// Setting a key keeps the keys ascending, and brings in no other key.
proof fn lemma_with_entry_ascends(entries: Seq<(Seq<char>, Json)>, key: Seq<char>, value: Json)
    requires
        keys_ascend(entries),
    ensures
        keys_ascend(with_entry(entries, key, value)),
        forall|i: int|
            0 <= i < with_entry(entries, key, value).len() ==> (#[trigger] with_entry(
                entries,
                key,
                value,
            )[i]).0 == key || exists|j: int|
                0 <= j < entries.len() && (#[trigger] entries[j]).0 == with_entry(
                    entries,
                    key,
                    value,
                )[i].0,
    decreases entries.len(),
{
    let after = with_entry(entries, key, value);
    if entries.len() == 0 || text_before(key, entries[0].0) {
        assert forall|i: int, j: int| 0 <= i < j < after.len() implies text_before(
            (#[trigger] after[i]).0,
            (#[trigger] after[j]).0,
        ) by {
            assert(after[j] == entries[j - 1]);
            if i == 0 {
                if j > 1 {
                    assert(text_before(entries[0].0, entries[j - 1].0));
                    lemma_text_before_transitive(key, entries[0].0, entries[j - 1].0);
                }
            } else {
                assert(after[i] == entries[i - 1]);
            }
        }
        assert forall|i: int| 0 <= i < after.len() implies (#[trigger] after[i]).0 == key
            || exists|j: int|
            0 <= j < entries.len() && (#[trigger] entries[j]).0 == after[i].0 by {
            if i > 0 {
                assert(entries[i - 1].0 == after[i].0);
            }
        }
    } else if entries[0].0 == key {
        assert forall|i: int, j: int| 0 <= i < j < after.len() implies text_before(
            (#[trigger] after[i]).0,
            (#[trigger] after[j]).0,
        ) by {
            assert(after[j] == entries[j]);
            assert(text_before(entries[i].0, entries[j].0));
        }
        assert forall|i: int| 0 <= i < after.len() implies (#[trigger] after[i]).0 == key
            || exists|j: int|
            0 <= j < entries.len() && (#[trigger] entries[j]).0 == after[i].0 by {
            assert(entries[i].0 == after[i].0);
        }
    } else {
        let rest = entries.drop_first();
        assert(keys_ascend(rest)) by {
            assert forall|i: int, j: int| 0 <= i < j < rest.len() implies text_before(
                (#[trigger] rest[i]).0,
                (#[trigger] rest[j]).0,
            ) by {
                assert(rest[i] == entries[i + 1] && rest[j] == entries[j + 1]);
            }
        }
        lemma_with_entry_ascends(rest, key, value);
        let tail = with_entry(rest, key, value);
        lemma_text_before_total(key, entries[0].0);
        assert forall|i: int, j: int| 0 <= i < j < after.len() implies text_before(
            (#[trigger] after[i]).0,
            (#[trigger] after[j]).0,
        ) by {
            assert(after[j] == tail[j - 1]);
            if i == 0 {
                if tail[j - 1].0 != key {
                    let k = choose|k: int|
                        0 <= k < rest.len() && (#[trigger] rest[k]).0 == tail[j - 1].0;
                    assert(rest[k] == entries[k + 1]);
                    assert(text_before(entries[0].0, entries[k + 1].0));
                }
            } else {
                assert(after[i] == tail[i - 1]);
            }
        }
        assert forall|i: int| 0 <= i < after.len() implies (#[trigger] after[i]).0 == key
            || exists|j: int|
            0 <= j < entries.len() && (#[trigger] entries[j]).0 == after[i].0 by {
            if i == 0 {
                assert(entries[0].0 == after[0].0);
            } else {
                assert(after[i] == tail[i - 1]);
                if tail[i - 1].0 != key {
                    let k = choose|k: int|
                        0 <= k < rest.len() && (#[trigger] rest[k]).0 == tail[i - 1].0;
                    assert(entries[k + 1].0 == after[i].0);
                }
            }
        }
    }
}

/// Whether the keys of every object in a value ascend.
pub open spec fn is_canonical(value: Json) -> bool
    decreases value,
{
    match value {
        Json::Array(items) => all_canonical(items),
        Json::Object(entries) => keys_ascend(entries) && entries_canonical(entries),
        _ => true,
    }
}

/// Whether some values are canonical.
pub open spec fn all_canonical(items: Seq<Json>) -> bool
    decreases items,
{
    items.len() == 0 || (is_canonical(items.last()) && all_canonical(items.drop_last()))
}

/// Whether the values of some entries are canonical.
pub open spec fn entries_canonical(entries: Seq<(Seq<char>, Json)>) -> bool
    decreases entries,
{
    entries.len() == 0 || (is_canonical(entries.last().1) && entries_canonical(
        entries.drop_last(),
    ))
}

proof fn lemma_all_canonical(items: Seq<Json>)
    ensures
        all_canonical(items) <==> forall|i: int|
            0 <= i < items.len() ==> is_canonical(#[trigger] items[i]),
    decreases items.len(),
{
    if items.len() > 0 {
        let front = items.drop_last();
        lemma_all_canonical(front);
        if all_canonical(items) {
            assert forall|i: int| 0 <= i < items.len() implies is_canonical(
                #[trigger] items[i],
            ) by {
                if i < front.len() {
                    assert(front[i] == items[i]);
                }
            }
        }
        if forall|i: int| 0 <= i < items.len() ==> is_canonical(#[trigger] items[i]) {
            assert forall|i: int| 0 <= i < front.len() implies is_canonical(
                #[trigger] front[i],
            ) by {
                assert(front[i] == items[i]);
            }
        }
    }
}

proof fn lemma_entries_canonical(entries: Seq<(Seq<char>, Json)>)
    ensures
        entries_canonical(entries) <==> forall|i: int|
            0 <= i < entries.len() ==> is_canonical((#[trigger] entries[i]).1),
    decreases entries.len(),
{
    if entries.len() > 0 {
        let front = entries.drop_last();
        lemma_entries_canonical(front);
        if entries_canonical(entries) {
            assert forall|i: int| 0 <= i < entries.len() implies is_canonical(
                (#[trigger] entries[i]).1,
            ) by {
                if i < front.len() {
                    assert(front[i] == entries[i]);
                }
            }
        }
        if forall|i: int| 0 <= i < entries.len() ==> is_canonical((#[trigger] entries[i]).1) {
            assert forall|i: int| 0 <= i < front.len() implies is_canonical(
                (#[trigger] front[i]).1,
            ) by {
                assert(front[i] == entries[i]);
            }
        }
    }
}

/// What setting a key gives, by the position of the first key that does not come before it.
proof fn lemma_with_entry_at(
    entries: Seq<(Seq<char>, Json)>,
    key: Seq<char>,
    value: Json,
    at: int,
)
    requires
        0 <= at <= entries.len(),
        forall|i: int|
            0 <= i < at ==> !text_before(key, (#[trigger] entries[i]).0) && entries[i].0 != key,
        at < entries.len() ==> text_before(key, entries[at].0) || entries[at].0 == key,
    ensures
        with_entry(entries, key, value) == if at < entries.len() && entries[at].0 == key {
            entries.update(at, (key, value))
        } else {
            entries.insert(at, (key, value))
        },
    decreases at,
{
    lemma_text_before_total(key, key);
    if at == 0 {
        assert(seq![(key, value)] + entries =~= entries.insert(0, (key, value)));
        if entries.len() > 0 {
            assert(seq![(key, value)] + entries.drop_first() =~= entries.update(0, (key, value)));
        }
    } else {
        let rest = entries.drop_first();
        assert(!text_before(key, entries[0].0) && entries[0].0 != key);
        assert forall|i: int| 0 <= i < at - 1 implies !text_before(key, (#[trigger] rest[i]).0)
            && rest[i].0 != key by {
            assert(rest[i] == entries[i + 1]);
        }
        lemma_with_entry_at(rest, key, value, at - 1);
        if at < entries.len() && entries[at].0 == key {
            assert(seq![entries[0]] + rest.update(at - 1, (key, value)) =~= entries.update(
                at,
                (key, value),
            ));
        } else {
            assert(seq![entries[0]] + rest.insert(at - 1, (key, value)) =~= entries.insert(
                at,
                (key, value),
            ));
        }
    }
}

/// Looking up a key that was set gives its value.
pub proof fn set_entry_is_read_back(
    entries: Seq<(Seq<char>, Json)>,
    key: Seq<char>,
    value: Json,
)
    ensures
        entry_value(with_entry(entries, key, value), key) == Some(value),
    decreases entries.len(),
{
    if entries.len() == 0 || text_before(key, entries[0].0) || entries[0].0 == key {
    } else {
        let rest = with_entry(entries.drop_first(), key, value);
        set_entry_is_read_back(entries.drop_first(), key, value);
        assert((seq![entries[0]] + rest).drop_first() =~= rest);
    }
}

/// Every value that setting a key leaves is the new one or was there.
proof fn lemma_with_entry_values(entries: Seq<(Seq<char>, Json)>, key: Seq<char>, value: Json)
    ensures
        forall|i: int|
            0 <= i < with_entry(entries, key, value).len() ==> (#[trigger] with_entry(
                entries,
                key,
                value,
            )[i]).1 == value || exists|j: int|
                0 <= j < entries.len() && (#[trigger] entries[j]).1 == with_entry(
                    entries,
                    key,
                    value,
                )[i].1,
    decreases entries.len(),
{
    let after = with_entry(entries, key, value);
    let first = entries.len() == 0 || text_before(key, entries[0].0);
    if !first && entries[0].0 != key {
        lemma_with_entry_values(entries.drop_first(), key, value);
    }
    assert forall|i: int| 0 <= i < after.len() implies (#[trigger] after[i]).1 == value || exists|
        j: int,
    |
        0 <= j < entries.len() && (#[trigger] entries[j]).1 == after[i].1 by {
        if first {
            if i > 0 {
                assert(entries[i - 1].1 == after[i].1);
            }
        } else if entries[0].0 == key {
            if i > 0 {
                assert(entries[i].1 == after[i].1);
            }
        } else {
            let rest = entries.drop_first();
            let tail = with_entry(rest, key, value);
            if i == 0 {
                assert(entries[0].1 == after[0].1);
            } else {
                assert(after[i] == tail[i - 1]);
                if tail[i - 1].1 != value {
                    let k = choose|k: int|
                        0 <= k < rest.len() && (#[trigger] rest[k]).1 == tail[i - 1].1;
                    assert(entries[k + 1].1 == after[i].1);
                }
            }
        }
    }
}

/// The canonical form of a value has ascending keys in every object.
pub proof fn canonical_form_is_canonical(value: Json)
    ensures
        is_canonical(canonical(value)),
    decreases value,
{
    match value {
        Json::Array(items) => lemma_canonical_items(items),
        Json::Object(entries) => lemma_canonical_entries(entries),
        _ => {},
    }
}

proof fn lemma_canonical_items(items: Seq<Json>)
    ensures
        all_canonical(canonical_items(items)),
    decreases items,
{
    if items.len() > 0 {
        lemma_canonical_items(items.drop_last());
        canonical_form_is_canonical(items.last());
        let front = canonical_items(items.drop_last());
        let last = canonical(items.last());
        assert(front.push(last).drop_last() =~= front);
    }
}

proof fn lemma_canonical_entries(entries: Seq<(Seq<char>, Json)>)
    ensures
        keys_ascend(canonical_entries(entries)),
        entries_canonical(canonical_entries(entries)),
    decreases entries,
{
    if entries.len() > 0 {
        let front = canonical_entries(entries.drop_last());
        let key = entries.last().0;
        let value = canonical(entries.last().1);
        lemma_canonical_entries(entries.drop_last());
        canonical_form_is_canonical(entries.last().1);
        lemma_with_entry_ascends(front, key, value);
        lemma_with_entry_values(front, key, value);
        lemma_entries_canonical(front);
        let after = with_entry(front, key, value);
        assert forall|i: int| 0 <= i < after.len() implies is_canonical(
            (#[trigger] after[i]).1,
        ) by {
            if after[i].1 != value {
                let j = choose|j: int| 0 <= j < front.len() && (#[trigger] front[j]).1 == after[i].1;
                assert(is_canonical(front[j].1));
            }
        }
        lemma_entries_canonical(after);
    }
}

/// A value whose keys ascend is its own canonical form.
pub proof fn canonical_value_is_its_own_form(value: Json)
    requires
        is_canonical(value),
    ensures
        canonical(value) == value,
    decreases value,
{
    match value {
        Json::Array(items) => {
            lemma_canonical_items_same(items);
        },
        Json::Object(entries) => {
            lemma_canonical_entries_same(entries);
        },
        _ => {},
    }
}

proof fn lemma_canonical_items_same(items: Seq<Json>)
    requires
        all_canonical(items),
    ensures
        canonical_items(items) == items,
    decreases items,
{
    if items.len() > 0 {
        lemma_canonical_items_same(items.drop_last());
        canonical_value_is_its_own_form(items.last());
        assert(items.drop_last().push(items.last()) =~= items);
    } else {
        assert(items =~= Seq::<Json>::empty());
    }
}

proof fn lemma_canonical_entries_same(entries: Seq<(Seq<char>, Json)>)
    requires
        keys_ascend(entries),
        entries_canonical(entries),
    ensures
        canonical_entries(entries) == entries,
    decreases entries,
{
    if entries.len() > 0 {
        let front = entries.drop_last();
        let last = entries.last();
        assert(keys_ascend(front)) by {
            assert forall|i: int, j: int| 0 <= i < j < front.len() implies text_before(
                (#[trigger] front[i]).0,
                (#[trigger] front[j]).0,
            ) by {
                assert(front[i] == entries[i] && front[j] == entries[j]);
            }
        }
        lemma_canonical_entries_same(front);
        canonical_value_is_its_own_form(last.1);
        assert forall|i: int| 0 <= i < front.len() implies !text_before(
            last.0,
            (#[trigger] front[i]).0,
        ) && front[i].0 != last.0 by {
            assert(front[i] == entries[i]);
            assert(text_before(entries[i].0, entries[entries.len() - 1].0));
            lemma_text_before_total(front[i].0, last.0);
        }
        lemma_with_entry_at(front, last.0, last.1, front.len() as int);
        assert(front.insert(front.len() as int, (last.0, last.1)) =~= entries);
    } else {
        assert(entries =~= Seq::<(Seq<char>, Json)>::empty());
    }
}

/// Taking the canonical form twice is taking it once.
pub proof fn canonical_form_is_idempotent(value: Json)
    ensures
        canonical(canonical(value)) == canonical(value),
{
    canonical_form_is_canonical(value);
    canonical_value_is_its_own_form(canonical(value));
}

/// Sets the value of a key in ascending entries.
pub fn set_entry(entries: &mut Vec<(String, JsonValue)>, key: &str, value: JsonValue)
    ensures
        json_entries(final(entries)@) == with_entry(json_entries(old(entries)@), key@, value@),
{
    let ghost before = entries@;
    let ghost held = json_entries(before);
    proof {
        lemma_json_entries(before);
    }
    let mut at: usize = 0;
    while at < entries.len() && !is_text_before(key, entries[at].0.as_str())
        && !same_text(entries[at].0.as_str(), key)
        invariant
            at <= entries@.len(),
            entries@ == before,
            held.len() == before.len(),
            forall|i: int|
                0 <= i < before.len() ==> #[trigger] held[i] == (before[i].0@, json_of(before[i].1)),
            forall|i: int|
                0 <= i < at ==> !text_before(key@, (#[trigger] held[i]).0) && held[i].0 != key@,
        decreases entries@.len() - at,
    {
        at = at + 1;
    }
    let ghost content = value@;
    proof {
        lemma_with_entry_at(held, key@, content, at as int);
    }
    if at < entries.len() && same_text(entries[at].0.as_str(), key) {
        entries[at] = (key.to_owned(), value);
        proof {
            lemma_json_entries(entries@);
            assert(json_entries(entries@) =~= held.update(at as int, (key@, content)));
        }
    } else {
        entries.insert(at, (key.to_owned(), value));
        proof {
            lemma_json_entries(entries@);
            assert(json_entries(entries@) =~= held.insert(at as int, (key@, content)));
        }
    }
}

/// The canonical form of a value.
pub fn canonicalize_json(value: &JsonValue) -> (r: JsonValue)
    ensures
        r@ == canonical(value@),
    decreases value,
{
    match value {
        JsonValue::Null => JsonValue::Null,
        JsonValue::Bool(b) => JsonValue::Bool(*b),
        JsonValue::Number(text) => JsonValue::Number(text.clone()),
        JsonValue::Text(text) => JsonValue::Text(text.clone()),
        JsonValue::Array(items) => {
            let ghost held = json_items(items@);
            let mut out: Vec<JsonValue> = Vec::new();
            let mut i: usize = 0;
            proof {
                lemma_json_items(items@);
                assert(held.subrange(0, 0) =~= Seq::<Json>::empty());
            }
            while i < items.len()
                invariant
                    i <= items@.len(),
                    held.len() == items@.len(),
                    forall|j: int| 0 <= j < items@.len() ==> #[trigger] held[j] == json_of(items@[j]),
                    json_items(out@) == canonical_items(held.subrange(0, i as int)),
                    decreases_to!(value => items),
                decreases items@.len() - i,
            {
                let ghost upto = held.subrange(0, i + 1);
                let ghost done = out@;
                proof {
                    assert(upto.drop_last() =~= held.subrange(0, i as int));
                    assert(upto.last() == held[i as int]);
                    assert(decreases_to!(items => items@));
                    assert(decreases_to!(items@ => items@[i as int]));
                }
                out.push(canonicalize_json(&items[i]));
                proof {
                    assert(out@.drop_last() =~= done);
                }
                i = i + 1;
            }
            proof {
                assert(held.subrange(0, items@.len() as int) =~= held);
            }
            JsonValue::Array(out)
        },
        JsonValue::Object(entries) => {
            let ghost held = json_entries(entries@);
            let mut out: Vec<(String, JsonValue)> = Vec::new();
            let mut i: usize = 0;
            proof {
                lemma_json_entries(entries@);
                assert(held.subrange(0, 0) =~= Seq::<(Seq<char>, Json)>::empty());
            }
            while i < entries.len()
                invariant
                    i <= entries@.len(),
                    held.len() == entries@.len(),
                    forall|j: int|
                        0 <= j < entries@.len() ==> #[trigger] held[j] == (
                            entries@[j].0@,
                            json_of(entries@[j].1),
                        ),
                    json_entries(out@) == canonical_entries(held.subrange(0, i as int)),
                    decreases_to!(value => entries),
                decreases entries@.len() - i,
            {
                let ghost upto = held.subrange(0, i + 1);
                proof {
                    assert(upto.drop_last() =~= held.subrange(0, i as int));
                    assert(upto.last() == held[i as int]);
                    assert(decreases_to!(entries => entries@));
                    assert(decreases_to!(entries@ => entries@[i as int]));
                }
                let entry_value = canonicalize_json(&entries[i].1);
                set_entry(&mut out, entries[i].0.as_str(), entry_value);
                i = i + 1;
            }
            proof {
                assert(held.subrange(0, entries@.len() as int) =~= held);
            }
            JsonValue::Object(out)
        },
    }
}

/// Setting a key leaves the value of every other key.
pub proof fn set_entry_leaves_the_others(
    entries: Seq<(Seq<char>, Json)>,
    key: Seq<char>,
    value: Json,
    other: Seq<char>,
)
    requires
        other != key,
    ensures
        entry_value(with_entry(entries, key, value), other) == entry_value(entries, other),
    decreases entries.len(),
{
    let after = with_entry(entries, key, value);
    if entries.len() == 0 || text_before(key, entries[0].0) {
        assert(after.drop_first() =~= entries);
    } else if entries[0].0 == key {
        assert(after.drop_first() =~= entries.drop_first());
    } else {
        set_entry_leaves_the_others(entries.drop_first(), key, value, other);
        assert(after.drop_first() =~= with_entry(entries.drop_first(), key, value));
    }
}

/// The canonical form of an object has the same fields, each with its value in canonical form: of a
/// key that occurs more than once the last value counts, and no key is added.
pub proof fn canonical_form_keeps_every_field(entries: Seq<(Seq<char>, Json)>, key: Seq<char>, at: int)
    ensures
        0 <= at < entries.len() && entries[at].0 == key && (forall|i: int|
            at < i < entries.len() ==> (#[trigger] entries[i]).0 != key) ==> canonical(
            Json::Object(entries),
        ).field(key) == Some(canonical(entries[at].1)),
        (forall|i: int| 0 <= i < entries.len() ==> (#[trigger] entries[i]).0 != key) ==> canonical(
            Json::Object(entries),
        ).field(key) is None,
    decreases entries.len(),
{
    reveal_with_fuel(canonical, 2);
    if entries.len() > 0 {
        let front = entries.drop_last();
        let last = entries.last();
        canonical_form_keeps_every_field(front, key, at);
        assert(canonical(Json::Object(front)) == Json::Object(canonical_entries(front)));
        assert(entries[entries.len() - 1] == last);
        assert forall|i: int| 0 <= i < front.len() implies #[trigger] front[i] == entries[i] by {}
        if last.0 == key {
            set_entry_is_read_back(canonical_entries(front), key, canonical(last.1));
        } else {
            set_entry_leaves_the_others(canonical_entries(front), last.0, canonical(last.1), key);
        }
    }
}

/// The canonical form of a list has the canonical forms of its items, in their order; what is
/// neither a list nor an object is its own canonical form.
pub proof fn canonical_form_keeps_every_item(items: Seq<Json>, at: int)
    requires
        0 <= at < items.len(),
    ensures
        canonical_items(items).len() == items.len(),
        canonical_items(items)[at] == canonical(items[at]),
        canonical(Json::Array(items)) == Json::Array(canonical_items(items)),
        canonical(Json::Null) == Json::Null,
        forall|text: Seq<char>| #[trigger] canonical(Json::Text(text)) == Json::Text(text),
        forall|text: Seq<char>| #[trigger] canonical(Json::Number(text)) == Json::Number(text),
        forall|value: bool| #[trigger] canonical(Json::Bool(value)) == Json::Bool(value),
    decreases items.len(),
{
    let front = items.drop_last();
    if front.len() > 0 {
        if at < front.len() {
            canonical_form_keeps_every_item(front, at);
            assert(front[at] == items[at]);
        } else {
            canonical_form_keeps_every_item(front, 0);
        }
    } else {
        assert(canonical_items(front) =~= Seq::<Json>::empty());
    }
}

/// A text is written between quotes, character by character. A quote, a backslash and the control
/// characters are escaped, five of these by a letter and the others by their code; every other
/// character stands for itself.
pub proof fn literal_escapes_what_it_has_to(first: Seq<char>, c: char, second: Seq<char>)
    ensures
        json_literal(first + seq![c] + second) == seq!['"'] + escaped(first) + escaped_char(c)
            + escaped(second) + seq!['"'],
        escaped(Seq::empty()) == Seq::<char>::empty(),
        c != '"' && c != '\\' && ' ' <= c ==> escaped_char(c) == seq![c],
        c == '"' || c == '\\' ==> escaped_char(c) == seq!['\\', c],
        c == '\n' ==> escaped_char(c) == seq!['\\', 'n'],
        c == '\r' ==> escaped_char(c) == seq!['\\', 'r'],
        c == '\t' ==> escaped_char(c) == seq!['\\', 't'],
        c == '\u{8}' ==> escaped_char(c) == seq!['\\', 'b'],
        c == '\u{c}' ==> escaped_char(c) == seq!['\\', 'f'],
        c <= '\u{1f}' && c != '\n' && c != '\r' && c != '\t' && c != '\u{8}' && c != '\u{c}' ==> {
            let code = escaped_char(c);
            &&& code.len() == 6
            &&& code.subrange(0, 4) == seq!['\\', 'u', '0', '0']
            &&& hex_value(code[4]) is Some && hex_value(code[5]) is Some
            &&& hex_value(code[4])->0 * 16 + hex_value(code[5])->0 == c as int
        },
{
    lemma_escaped_parts(first, seq![c] + second);
    lemma_escaped_parts(seq![c], second);
    assert(seq![c].drop_first() =~= Seq::<char>::empty());
    assert(escaped(seq![c].drop_first()) =~= Seq::<char>::empty());
    assert(escaped(seq![c]) =~= escaped_char(c));
    assert(first + seq![c] + second =~= first + (seq![c] + second));
    assert(json_literal(first + seq![c] + second) =~= seq!['"'] + escaped(first) + escaped_char(c)
        + escaped(second) + seq!['"']);
    if c <= '\u{1f}' && c != '\n' && c != '\r' && c != '\t' && c != '\u{8}' && c != '\u{c}' {
        lemma_hex_value(c as int / 16);
        lemma_hex_value(c as int % 16);
        assert(escaped_char(c).subrange(0, 4) =~= seq!['\\', 'u', '0', '0']);
    }
}

proof fn lemma_escaped_parts(first: Seq<char>, second: Seq<char>)
    ensures
        escaped(first + second) == escaped(first) + escaped(second),
    decreases first.len(),
{
    if first.len() == 0 {
        assert(first + second =~= second);
        assert(escaped(first) + escaped(second) =~= escaped(second));
    } else {
        lemma_escaped_parts(first.drop_first(), second);
        assert((first + second).drop_first() =~= first.drop_first() + second);
        assert(escaped(first + second) =~= escaped(first) + escaped(second));
    }
}

/// A value is written without blanks: an array as its items between brackets, an object as its
/// fields between braces, each name as a literal with a colon behind it, all with commas between.
pub proof fn values_are_written_compactly(
    items: Seq<Json>,
    entries: Seq<(Seq<char>, Json)>,
    text: Seq<char>,
)
    ensures
        json_text(Json::Null) == "null"@,
        json_text(Json::Bool(true)) == "true"@,
        json_text(Json::Bool(false)) == "false"@,
        json_text(Json::Number(text)) == text,
        json_text(Json::Text(text)) == json_literal(text),
        json_text(Json::Array(items)) == "["@ + join(
            items.map_values(|item: Json| json_text(item)),
            ","@,
        ) + "]"@,
        json_text(Json::Object(entries)) == "{"@ + join(
            entries.map_values(
                |entry: (Seq<char>, Json)| json_literal(entry.0) + ":"@ + json_text(entry.1),
            ),
            ","@,
        ) + "}"@,
{
    lemma_items_text(items);
    lemma_entries_text(entries);
}

proof fn lemma_items_text(items: Seq<Json>)
    ensures
        items_text(items) == join(items.map_values(|item: Json| json_text(item)), ","@),
    decreases items.len(),
{
    let texts = items.map_values(|item: Json| json_text(item));
    if items.len() > 1 {
        lemma_items_text(items.drop_last());
        assert(texts.drop_last() =~= items.drop_last().map_values(|item: Json| json_text(item)));
    }
}

proof fn lemma_entries_text(entries: Seq<(Seq<char>, Json)>)
    ensures
        entries_text(entries) == join(
            entries.map_values(
                |entry: (Seq<char>, Json)| json_literal(entry.0) + ":"@ + json_text(entry.1),
            ),
            ","@,
        ),
    decreases entries.len(),
{
    let texts = entries.map_values(
        |entry: (Seq<char>, Json)| json_literal(entry.0) + ":"@ + json_text(entry.1),
    );
    if entries.len() > 1 {
        lemma_entries_text(entries.drop_last());
        assert(texts.drop_last() =~= entries.drop_last().map_values(
            |entry: (Seq<char>, Json)| json_literal(entry.0) + ":"@ + json_text(entry.1),
        ));
    }
}

/// In the canonical form of an object the names ascend, so that no name comes twice and the order in
/// which the fields were given does not show.
pub proof fn canonical_names_ascend(entries: Seq<(Seq<char>, Json)>, i: int, j: int)
    ensures
        canonical(Json::Object(entries)) is Object,
        0 <= i < j < canonical(Json::Object(entries))->Object_0.len() ==> text_before(
            canonical(Json::Object(entries))->Object_0[i].0,
            canonical(Json::Object(entries))->Object_0[j].0,
        ),
{
    canonical_form_is_canonical(Json::Object(entries));
}

/// A missing text is written as null, and one that is there as itself.
pub proof fn missing_text_is_null(text: Option<Seq<char>>)
    ensures
        optional_text(text) is Null <==> text is None,
        text is Some ==> optional_text(text) == Json::Text(text->0),
        optional_text(text).text() == text,
{
}

/// A field is the first of its name, and only objects have fields.
pub proof fn field_is_the_first_of_its_name(
    entries: Seq<(Seq<char>, Json)>,
    key: Seq<char>,
    at: int,
    items: Seq<Json>,
    text: Seq<char>,
)
    ensures
        0 <= at < entries.len() && entries[at].0 == key && (forall|i: int|
            0 <= i < at ==> (#[trigger] entries[i]).0 != key) ==> Json::Object(entries).field(key)
            == Some(entries[at].1),
        (forall|i: int| 0 <= i < entries.len() ==> (#[trigger] entries[i]).0 != key)
            ==> Json::Object(entries).field(key) is None,
        Json::Array(items).field(key) is None,
        Json::Text(text).field(key) is None,
        Json::Text(text).text() == Some(text),
        Json::Number(text).text() is None,
        Json::Object(entries).text() is None,
{
    if 0 <= at < entries.len() && entries[at].0 == key && (forall|i: int|
        0 <= i < at ==> (#[trigger] entries[i]).0 != key) {
        lemma_entry_value(entries, key, at);
    }
    if forall|i: int| 0 <= i < entries.len() ==> (#[trigger] entries[i]).0 != key {
        lemma_entry_value(entries, key, entries.len() as int);
    }
}

} // verus!
