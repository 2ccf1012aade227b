use vstd::prelude::*;
use num_bigint::BigInt;
use num_bigint::ParseBigIntError;
use serde_json::Value;

verus! {

/// num-bigint's arbitrary-precision signed integer. The bridge stores such
/// values and hands them on; it never looks inside.
#[verifier::external_type_specification]
#[verifier::external_body]
pub struct ExBigInt(BigInt);

/// The error of num-bigint's decimal parser.
#[verifier::external_type_specification]
#[verifier::external_body]
pub struct ExParseBigIntError(ParseBigIntError);

/// A parsed JSON value of serde_json.
#[verifier::external_type_specification]
#[verifier::external_body]
pub struct ExValue(Value);

/// The error of serde_json's parser.
#[verifier::external_type_specification]
#[verifier::external_body]
pub struct ExJsonError(serde_json::Error);

/// The value that serde_json reads from the JSON text `text`, or nothing where
/// the text is not one JSON value.
pub uninterp spec fn json_document(text: Seq<char>) -> Option<Value>;

/// The members of the JSON object `v` in the order in which serde_json walks
/// them, or nothing where `v` is no object.
pub uninterp spec fn json_members(v: Value) -> Option<Seq<(Seq<char>, Value)>>;

/// The text of the JSON string `v`, or nothing where `v` is no string.
pub uninterp spec fn json_text(v: Value) -> Option<Seq<char>>;

/// The items of the JSON array `v`, or nothing where `v` is no array.
pub uninterp spec fn json_items(v: Value) -> Option<Seq<Value>>;

/// The integer that num-bigint reads from the decimal literal `text`, or
/// nothing where it refuses the text.
pub uninterp spec fn decimal_integer(text: Seq<char>) -> Option<BigInt>;

/// No name occurs twice among the first components of `entries`.
pub open spec fn names_distinct<T>(entries: Seq<(Seq<char>, T)>) -> bool {
    forall|i: int, j: int| 0 <= i < j < entries.len() ==> entries[i].0 != entries[j].0
}

/// What a list of borrowed object members holds.
pub open spec fn members_view(ms: Seq<(&String, &Value)>) -> Seq<(Seq<char>, Value)> {
    Seq::new(ms.len(), |i: int| (ms[i].0@, *ms[i].1))
}

/// Parses `text` with `serde_json::from_str` as one JSON value. The result is
/// the value that `json_document` names, or the parser's error where it names
/// none.
#[verifier::external_body]
fn read_json(text: &str) -> (r: Result<Value, serde_json::Error>)
    ensures
        match r {
            Ok(v) => json_document(text@) == Some(v),
            Err(_) => json_document(text@) is None,
        },
{
    serde_json::from_str::<Value>(text)
}

/// Lists the members of an object with `Value::as_object` and `Map::iter`:
/// each key with its value, in the map's own order. A map holds each key once.
/// Nothing comes back where `v` is no object.
#[verifier::external_body]
fn object_members(v: &Value) -> (r: Option<Vec<(&String, &Value)>>)
    ensures
        match r {
            Some(ms) => json_members(*v) == Some(members_view(ms@)) && names_distinct(members_view(ms@)),
            None => json_members(*v) is None,
        },
{
    v.as_object().map(|m| m.iter().collect())
}

/// The text of a JSON string, by `Value::as_str`; nothing for any other value.
#[verifier::external_body]
fn string_text(v: &Value) -> (r: Option<&str>)
    ensures
        match r {
            Some(s) => json_text(*v) == Some(s@),
            None => json_text(*v) is None,
        },
{
    v.as_str()
}

/// The items of a JSON array, by `Value::as_array`; nothing for any other
/// value.
#[verifier::external_body]
fn array_items(v: &Value) -> (r: Option<&Vec<Value>>)
    ensures
        match r {
            Some(items) => json_items(*v) == Some(items@),
            None => json_items(*v) is None,
        },
{
    v.as_array()
}

/// Parses a decimal literal with num-bigint's `FromStr` for `BigInt`. The
/// result is the integer that `decimal_integer` names, or the parser's error
/// where it names none.
#[verifier::external_body]
fn read_decimal(text: &str) -> (r: Result<BigInt, ParseBigIntError>)
    ensures
        match r {
            Ok(b) => decimal_integer(text@) == Some(b),
            Err(_) => decimal_integer(text@) is None,
        },
{
    text.parse::<BigInt>()
}

/// The named inputs of a circuit: each name once, with its values in the
/// order in which they were given.
pub type Inputs = Vec<(String, Vec<BigInt>)>;

/// Named inputs whose values are still decimal literals.
pub type RawInputs = Vec<(String, Vec<String>)>;

/// Named inputs over sequences.
pub type InputsView = Seq<(Seq<char>, Seq<BigInt>)>;

/// Named literals over sequences.
pub type RawInputsView = Seq<(Seq<char>, Seq<Seq<char>>)>;

/// Why an input document was refused.
#[derive(Clone, Copy, Debug, PartialEq, Eq, Structural)]
pub enum InputError {
    /// The text is not one JSON value.
    MalformedJson,
    /// The document is no object, or a member is neither a string nor a list
    /// of strings.
    WrongShape,
    /// A string of the document is no decimal integer.
    NotAnInteger,
}

/// What a list of named inputs holds.
pub open spec fn inputs_view(entries: Seq<(String, Vec<BigInt>)>) -> InputsView {
    Seq::new(entries.len(), |i: int| (entries[i].0@, entries[i].1@))
}

/// What a list of strings holds.
pub open spec fn texts_view(texts: Seq<String>) -> Seq<Seq<char>> {
    Seq::new(texts.len(), |i: int| texts[i]@)
}

/// What a list of named literals holds.
pub open spec fn raw_view(raw: Seq<(String, Vec<String>)>) -> RawInputsView {
    Seq::new(raw.len(), |i: int| (raw[i].0@, texts_view(raw[i].1@)))
}

/// The literals of one member of an input document: the string itself where
/// the member is a string, the strings of the list where it is a list of
/// strings, and nothing for any other shape.
pub open spec fn texts_of_member(v: Value) -> Option<Seq<Seq<char>>> {
    match json_text(v) {
        Some(s) => Some(seq![s]),
        None => match json_items(v) {
            Some(items) => {
                if forall|i: int| 0 <= i < items.len() ==> json_text(#[trigger] items[i]) is Some {
                    Some(Seq::new(items.len(), |i: int| json_text(items[i])->0))
                } else {
                    None
                }
            },
            None => None,
        },
    }
}

/// The named literals of an input document: for each member of the object its
/// name and its literals, in the order of the members; nothing where the
/// document is no object or a member has another shape.
pub open spec fn texts_of_document(doc: Value) -> Option<RawInputsView> {
    match json_members(doc) {
        Some(ms) => {
            if forall|i: int| 0 <= i < ms.len() ==> texts_of_member((#[trigger] ms[i]).1) is Some {
                Some(Seq::new(ms.len(), |i: int| (ms[i].0, texts_of_member(ms[i].1)->0)))
            } else {
                None
            }
        },
        None => None,
    }
}

/// The integers that the literals `texts` stand for, in their order; nothing
/// where one of them is no decimal integer.
pub open spec fn integers_of(texts: Seq<Seq<char>>) -> Option<Seq<BigInt>> {
    if forall|i: int| 0 <= i < texts.len() ==> decimal_integer(#[trigger] texts[i]) is Some {
        Some(Seq::new(texts.len(), |i: int| decimal_integer(texts[i])->0))
    } else {
        None
    }
}

/// The named inputs that the named literals `raw` stand for, in their order;
/// nothing where one literal is no decimal integer.
pub open spec fn inputs_of(raw: RawInputsView) -> Option<InputsView> {
    if forall|i: int| 0 <= i < raw.len() ==> integers_of((#[trigger] raw[i]).1) is Some {
        Some(Seq::new(raw.len(), |i: int| (raw[i].0, integers_of(raw[i].1)->0)))
    } else {
        None
    }
}

/// Turning literals into integers keeps the names and their order, so names
/// that were distinct stay distinct.
pub proof fn lemma_inputs_of_keeps_names(raw: RawInputsView)
    requires
        inputs_of(raw) is Some,
    ensures
        inputs_of(raw)->0.len() == raw.len(),
        forall|i: int| 0 <= i < raw.len() ==> (#[trigger] inputs_of(raw)->0[i]).0 == raw[i].0,
        names_distinct(raw) ==> names_distinct(inputs_of(raw)->0),
{
    let entries = inputs_of(raw)->0;
    assert(entries.len() == raw.len());
    assert forall|i: int| 0 <= i < raw.len() implies (#[trigger] entries[i]).0 == raw[i].0 by {}
    if names_distinct(raw) {
        assert forall|a: int, b: int| 0 <= a < b < entries.len() implies entries[a].0 != entries[b].0 by {
            assert(entries[a].0 == raw[a].0);
            assert(entries[b].0 == raw[b].0);
        }
    }
}

/// What reading the input document `text` gives: the named inputs, or the
/// first of these that applies: the text is no JSON, the document has the
/// wrong shape, a literal is no decimal integer.
pub open spec fn loaded(text: Seq<char>) -> Result<InputsView, InputError> {
    match json_document(text) {
        None => Err(InputError::MalformedJson),
        Some(doc) => match texts_of_document(doc) {
            None => Err(InputError::WrongShape),
            Some(raw) => match inputs_of(raw) {
                None => Err(InputError::NotAnInteger),
                Some(entries) => Ok(entries),
            },
        },
    }
}

/// The literals of one member of an input document.
pub fn read_member(v: &Value) -> (r: Option<Vec<String>>)
    ensures
        match r {
            Some(texts) => texts_of_member(*v) == Some(texts_view(texts@)),
            None => texts_of_member(*v) is None,
        },
{
    match string_text(v) {
        Some(s) => {
            let mut texts: Vec<String> = Vec::new();
            texts.push(s.to_owned());
            assert(texts_view(texts@) =~= seq![s@]);
            Some(texts)
        },
        None => match array_items(v) {
            None => None,
            Some(items) => {
                let mut texts: Vec<String> = Vec::new();
                let mut i: usize = 0;
                while i < items.len()
                    invariant
                        i <= items@.len(),
                        json_text(*v) is None,
                        json_items(*v) == Some(items@),
                        texts@.len() == i,
                        forall|j: int| 0 <= j < i ==> json_text(#[trigger] items@[j]) == Some(texts@[j]@),
                    decreases items@.len() - i,
                {
                    match string_text(&items[i]) {
                        Some(s) => {
                            texts.push(s.to_owned());
                        },
                        None => {
                            assert(json_text(items@[i as int]) is None);
                            return None;
                        },
                    }
                    i = i + 1;
                }
                assert(texts_view(texts@) =~= Seq::new(items@.len(), |i: int| json_text(items@[i])->0));
                Some(texts)
            },
        },
    }
}

/// The named literals of an input document.
pub fn read_document(doc: &Value) -> (r: Option<RawInputs>)
    ensures
        match r {
            Some(raw) => texts_of_document(*doc) == Some(raw_view(raw@)) && names_distinct(raw_view(raw@)),
            None => texts_of_document(*doc) is None,
        },
{
    match object_members(doc) {
        None => None,
        Some(ms) => {
            let ghost members = members_view(ms@);
            let mut raw: RawInputs = Vec::new();
            let mut i: usize = 0;
            while i < ms.len()
                invariant
                    i <= ms@.len(),
                    members == members_view(ms@),
                    json_members(*doc) == Some(members),
                    raw@.len() == i,
                    forall|j: int| 0 <= j < i ==> (#[trigger] raw@[j]).0@ == members[j].0,
                    forall|j: int| 0 <= j < i ==>
                        texts_of_member((#[trigger] members[j]).1) == Some(texts_view(raw@[j].1@)),
                decreases ms@.len() - i,
            {
                assert(members[i as int] == (ms@[i as int].0@, *ms@[i as int].1));
                match read_member(ms[i].1) {
                    Some(texts) => {
                        raw.push((ms[i].0.clone(), texts));
                    },
                    None => {
                        assert(texts_of_member(members[i as int].1) is None);
                        return None;
                    },
                }
                i = i + 1;
            }
            assert(raw_view(raw@) =~= Seq::new(
                members.len(),
                |i: int| (members[i].0, texts_of_member(members[i].1)->0),
            ));
            assert(names_distinct(raw_view(raw@))) by {
                assert forall|a: int, b: int| 0 <= a < b < raw@.len() implies raw_view(raw@)[a].0 != raw_view(raw@)[b].0 by {
                    assert(members[a].0 != members[b].0);
                }
            }
            Some(raw)
        },
    }
}

/// The integers that a list of decimal literals stands for.
pub fn parse_integers(texts: &Vec<String>) -> (r: Option<Vec<BigInt>>)
    ensures
        match r {
            Some(values) => integers_of(texts_view(texts@)) == Some(values@),
            None => integers_of(texts_view(texts@)) is None,
        },
{
    let ghost literals = texts_view(texts@);
    let mut values: Vec<BigInt> = Vec::new();
    let mut i: usize = 0;
    while i < texts.len()
        invariant
            i <= texts@.len(),
            literals == texts_view(texts@),
            values@.len() == i,
            forall|j: int| 0 <= j < i ==> decimal_integer(#[trigger] literals[j]) == Some(values@[j]),
        decreases texts@.len() - i,
    {
        assert(literals[i as int] == texts@[i as int]@);
        match read_decimal(texts[i].as_str()) {
            Ok(b) => {
                values.push(b);
            },
            Err(_) => {
                assert(decimal_integer(literals[i as int]) is None);
                return None;
            },
        }
        i = i + 1;
    }
    assert(values@ =~= Seq::new(literals.len(), |i: int| decimal_integer(literals[i])->0));
    Some(values)
}

/// The named inputs that a list of named literals stands for. Names and
/// their order are kept.
pub fn parse_raw_inputs(raw: &RawInputs) -> (r: Option<Inputs>)
    ensures
        match r {
            Some(entries) => inputs_of(raw_view(raw@)) == Some(inputs_view(entries@)),
            None => inputs_of(raw_view(raw@)) is None,
        },
{
    let ghost named = raw_view(raw@);
    let mut entries: Inputs = Vec::new();
    let mut i: usize = 0;
    while i < raw.len()
        invariant
            i <= raw@.len(),
            named == raw_view(raw@),
            entries@.len() == i,
            forall|j: int| 0 <= j < i ==> (#[trigger] entries@[j]).0@ == named[j].0,
            forall|j: int| 0 <= j < i ==> integers_of((#[trigger] named[j]).1) == Some(entries@[j].1@),
        decreases raw@.len() - i,
    {
        assert(named[i as int] == (raw@[i as int].0@, texts_view(raw@[i as int].1@)));
        match parse_integers(&raw[i].1) {
            Some(values) => {
                entries.push((raw[i].0.clone(), values));
            },
            None => {
                assert(integers_of(named[i as int].1) is None);
                return None;
            },
        }
        i = i + 1;
    }
    assert(inputs_view(entries@) =~= Seq::new(named.len(), |i: int| (named[i].0, integers_of(named[i].1)->0)));
    Some(entries)
}

/// Reads an input document: a JSON object whose members are each a decimal
/// integer written as a string, or a list of such strings.
pub fn parse_inputs(text: &str) -> (r: Result<Inputs, InputError>)
    ensures
        match r {
            Ok(entries) => loaded(text@) == Ok::<InputsView, InputError>(inputs_view(entries@))
                && names_distinct(inputs_view(entries@)),
            Err(e) => loaded(text@) == Err::<InputsView, InputError>(e),
        },
{
    let doc = match read_json(text) {
        Ok(doc) => doc,
        Err(_) => {
            return Err(InputError::MalformedJson);
        },
    };
    let raw = match read_document(&doc) {
        Some(raw) => raw,
        None => {
            return Err(InputError::WrongShape);
        },
    };
    match parse_raw_inputs(&raw) {
        Some(entries) => {
            proof {
                lemma_inputs_of_keeps_names(raw_view(raw@));
            }
            Ok(entries)
        },
        None => Err(InputError::NotAnInteger),
    }
}

/// The names of `entries`, in their order.
pub open spec fn names_of(entries: InputsView) -> Seq<Seq<char>> {
    Seq::new(entries.len(), |i: int| entries[i].0)
}

/// The values given so far under `name`, or nothing where the name has none.
pub open spec fn values_named(entries: InputsView, name: Seq<char>) -> Option<Seq<BigInt>> {
    match names_of(entries).index_of_first(name) {
        Some(i) => Some(entries[i].1),
        None => None,
    }
}

/// `entries` after one more value was given under `name`: the value is
/// appended to the name's values, or the name is added at the end with this
/// one value where it had none.
pub open spec fn pushed(entries: InputsView, name: Seq<char>, value: BigInt) -> InputsView {
    match names_of(entries).index_of_first(name) {
        Some(i) => entries.update(i, (name, entries[i].1.push(value))),
        None => entries.push((name, seq![value])),
    }
}

/// The first position of `name` in `entries` is `i` where the name stands at
/// `i` and nowhere before.
pub proof fn lemma_first_position(entries: InputsView, name: Seq<char>, i: int)
    requires
        0 <= i < entries.len(),
        entries[i].0 == name,
        forall|j: int| 0 <= j < i ==> (#[trigger] entries[j]).0 != name,
    ensures
        names_of(entries).index_of_first(name) == Some(i),
{
    let names = names_of(entries);
    names.index_of_first_ensures(name);
    assert(names[i] == name);
    assert(names.contains(name));
    let k = names.index_of_first(name)->0;
    if k < i {
        assert(entries[k].0 != name);
    }
    if i < k {
        assert(names[i] != name);
    }
}

/// A name that stands nowhere in `entries` has no first position.
pub proof fn lemma_no_position(entries: InputsView, name: Seq<char>)
    requires
        forall|j: int| 0 <= j < entries.len() ==> (#[trigger] entries[j]).0 != name,
    ensures
        names_of(entries).index_of_first(name) is None,
{
    let names = names_of(entries);
    names.index_of_first_ensures(name);
    if names.contains(name) {
        let k = names.index_of_first(name)->0;
        assert(entries[k].0 != name);
    }
}

/// One more value under `name` extends the values of that name by it, creates
/// them where the name had none, and leaves every other name as it was.
pub proof fn lemma_pushed_values(entries: InputsView, name: Seq<char>, value: BigInt, other: Seq<char>)
    ensures
        values_named(pushed(entries, name, value), name) == Some(
            match values_named(entries, name) {
                Some(values) => values.push(value),
                None => seq![value],
            },
        ),
        other != name ==> values_named(pushed(entries, name, value), other) == values_named(entries, other),
{
    let names = names_of(entries);
    let after = pushed(entries, name, value);
    names.index_of_first_ensures(name);
    names.index_of_first_ensures(other);
    match names.index_of_first(name) {
        Some(i) => {
            assert forall|j: int| 0 <= j < i implies (#[trigger] after[j]).0 != name by {
                assert(names[j] != name);
            }
            lemma_first_position(after, name, i);
            if other != name {
                match names.index_of_first(other) {
                    Some(k) => {
                        assert forall|j: int| 0 <= j < k implies (#[trigger] after[j]).0 != other by {
                            assert(names[j] != other);
                        }
                        assert(names[k] == other);
                        lemma_first_position(after, other, k);
                    },
                    None => {
                        assert forall|j: int| 0 <= j < after.len() implies (#[trigger] after[j]).0 != other by {
                            if j != i {
                                assert(names[j] == entries[j].0);
                                assert(!names.contains(other));
                            }
                        }
                        lemma_no_position(after, other);
                    },
                }
            }
        },
        None => {
            let i = entries.len() as int;
            assert forall|j: int| 0 <= j < i implies (#[trigger] after[j]).0 != name by {
                assert(names[j] == entries[j].0);
            }
            lemma_first_position(after, name, i);
            if other != name {
                match names.index_of_first(other) {
                    Some(k) => {
                        assert forall|j: int| 0 <= j < k implies (#[trigger] after[j]).0 != other by {
                            assert(names[j] != other);
                        }
                        assert(names[k] == other);
                        lemma_first_position(after, other, k);
                    },
                    None => {
                        assert forall|j: int| 0 <= j < after.len() implies (#[trigger] after[j]).0 != other by {
                            if j < i {
                                assert(names[j] == entries[j].0);
                            }
                        }
                        lemma_no_position(after, other);
                    },
                }
            }
        },
    }
}

/// One more value leaves no name standing twice where none did.
pub proof fn lemma_pushed_keeps_names_distinct(entries: InputsView, name: Seq<char>, value: BigInt)
    requires
        names_distinct(entries),
    ensures
        names_distinct(pushed(entries, name, value)),
{
    let names = names_of(entries);
    let after = pushed(entries, name, value);
    names.index_of_first_ensures(name);
    match names.index_of_first(name) {
        Some(i) => {
            assert(names[i] == entries[i].0);
            assert forall|a: int, b: int| 0 <= a < b < after.len() implies after[a].0 != after[b].0 by {
                assert(entries[a].0 != entries[b].0);
            }
        },
        None => {
            assert forall|a: int, b: int| 0 <= a < b < after.len() implies after[a].0 != after[b].0 by {
                if b < entries.len() {
                    assert(entries[a].0 != entries[b].0);
                } else {
                    assert(names[a] == entries[a].0);
                    assert(names.contains(entries[a].0));
                }
            }
        },
    }
}

/// Appends `value` to the values of `name`, which gets an entry at the end
/// where it has none.
pub fn push_value(entries: &mut Inputs, name: &str, value: BigInt)
    ensures
        inputs_view(final(entries)@) == pushed(inputs_view(old(entries)@), name@, value),
{
    let ghost before = inputs_view(entries@);
    let owned = name.to_owned();
    let mut i: usize = 0;
    while i < entries.len()
        invariant
            i <= entries@.len(),
            owned@ == name@,
            before == inputs_view(entries@),
            before == inputs_view(old(entries)@),
            forall|j: int| 0 <= j < i ==> (#[trigger] before[j]).0 != name@,
        decreases entries@.len() - i,
    {
        assert(before[i as int].0 == entries@[i as int].0@);
        if entries[i].0 == owned {
            proof {
                lemma_first_position(before, name@, i as int);
            }
            let (entry_name, mut values) = entries.remove(i);
            values.push(value);
            entries.insert(i, (entry_name, values));
            assert(inputs_view(entries@) =~= pushed(before, name@, value));
            return;
        }
        i = i + 1;
    }
    proof {
        lemma_no_position(before, name@);
    }
    let mut values: Vec<BigInt> = Vec::new();
    values.push(value);
    entries.push((owned, values));
    assert(inputs_view(entries@) =~= pushed(before, name@, value));
}

} // verus!
