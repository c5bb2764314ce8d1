//! Property lists: the documents that launchd reads.

use crate::error::SerializationError;
use crate::text::same_text;
use vstd::prelude::*;
use vstd::utf8::{decode_utf8, valid_utf8};

verus! {

/// What a property list says.
pub enum PlistModel {
    String(Seq<char>),
    Boolean(bool),
    Integer(int),
    Array(Seq<PlistModel>),
    /// The entries of a dictionary, each a key and its value, in the order in
    /// which the keys were first given.
    Dictionary(Seq<(Seq<char>, PlistModel)>),
}

/// Whether no key occurs twice among the entries.
pub open spec fn distinct_keys(entries: Seq<(Seq<char>, PlistModel)>) -> bool {
    forall|i: int, j: int|
        0 <= i < j < entries.len() ==> (#[trigger] entries[i]).0 != (#[trigger] entries[j]).0
}

/// The place of `key` among the entries, or their number where it has none.
pub open spec fn position(entries: Seq<(Seq<char>, PlistModel)>, key: Seq<char>) -> int
    decreases entries.len(),
{
    if entries.len() == 0 || entries[0].0 == key {
        0
    } else {
        1 + position(entries.skip(1), key)
    }
}

/// The value that the entries give to `key`, if any.
pub open spec fn lookup(entries: Seq<(Seq<char>, PlistModel)>, key: Seq<char>) -> Option<
    PlistModel,
> {
    let at = position(entries, key);
    if 0 <= at < entries.len() {
        Some(entries[at].1)
    } else {
        None
    }
}

/// The entries after `key` was given `value`: a key that has an entry keeps
/// its place and gets the new value; another key gets a new entry at the end.
pub open spec fn with_entry(
    entries: Seq<(Seq<char>, PlistModel)>,
    key: Seq<char>,
    value: PlistModel,
) -> Seq<(Seq<char>, PlistModel)> {
    let at = position(entries, key);
    if 0 <= at < entries.len() {
        entries.update(at, (key, value))
    } else {
        entries.push((key, value))
    }
}

/// The entries of the dictionary that is given the pairs in their order: of
/// pairs with the same key, the first fixes the place and the last the value.
pub open spec fn dictionary_of(pairs: Seq<(Seq<char>, PlistModel)>) -> Seq<
    (Seq<char>, PlistModel),
>
    decreases pairs.len(),
{
    if pairs.len() == 0 {
        Seq::empty()
    } else {
        with_entry(dictionary_of(pairs.drop_last()), pairs.last().0, pairs.last().1)
    }
}

/// A value of a property list.
#[derive(Debug, PartialEq, Eq)]
pub enum PlistValue {
    String(String),
    Boolean(bool),
    Integer(i64),
    Array(Vec<PlistValue>),
    Dictionary(PlistDictionary),
}

/// A dictionary of a property list: keys with their values, in the order in
/// which the keys were first given. No key occurs twice. It is to the values
/// of this library what `plist::Dictionary` is to those of the `plist` crate:
/// `insert` and `get` do what those of that dictionary do.
#[derive(Debug, PartialEq, Eq)]
pub struct PlistDictionary {
    entries: Vec<(String, PlistValue)>,
}

impl View for PlistValue {
    type V = PlistModel;

    open spec fn view(&self) -> PlistModel
        decreases self,
    {
        match self {
            PlistValue::String(s) => PlistModel::String(s@),
            PlistValue::Boolean(b) => PlistModel::Boolean(*b),
            PlistValue::Integer(n) => PlistModel::Integer(*n as int),
            PlistValue::Array(items) => PlistModel::Array(
                Seq::new(
                    items.len() as nat,
                    |i: int|
                        if 0 <= i < items.len() {
                            items[i].view()
                        } else {
                            PlistModel::Boolean(false)
                        },
                ),
            ),
            PlistValue::Dictionary(d) => PlistModel::Dictionary(d.view()),
        }
    }
}

impl View for PlistDictionary {
    type V = Seq<(Seq<char>, PlistModel)>;

    closed spec fn view(&self) -> Seq<(Seq<char>, PlistModel)>
        decreases self,
    {
        Seq::new(
            self.entries.len() as nat,
            |i: int|
                if 0 <= i < self.entries.len() {
                    (self.entries[i].0@, self.entries[i].1.view())
                } else {
                    (Seq::empty(), PlistModel::Boolean(false))
                },
        )
    }
}

/// A key has a place among the entries exactly if one of them has it, and
/// then its place is that of the first that has it.
pub proof fn lemma_position(entries: Seq<(Seq<char>, PlistModel)>, key: Seq<char>)
    ensures
        0 <= position(entries, key) <= entries.len(),
        position(entries, key) < entries.len() ==> entries[position(entries, key)].0 == key,
        forall|i: int| 0 <= i < position(entries, key) ==> (#[trigger] entries[i]).0 != key,
    decreases entries.len(),
{
    if entries.len() > 0 && entries[0].0 != key {
        let rest = entries.skip(1);
        lemma_position(rest, key);
        assert forall|i: int| 0 <= i < position(entries, key) implies (#[trigger] entries[i]).0
            != key by {
            if i > 0 {
                assert(entries[i] == rest[i - 1]);
            }
        }
    }
}

/// The place of a key is the first place where it stands.
pub proof fn lemma_position_is(entries: Seq<(Seq<char>, PlistModel)>, key: Seq<char>, at: int)
    requires
        0 <= at <= entries.len(),
        at < entries.len() ==> entries[at].0 == key,
        forall|i: int| 0 <= i < at ==> (#[trigger] entries[i]).0 != key,
    ensures
        position(entries, key) == at,
{
    lemma_position(entries, key);
    let found = position(entries, key);
    if found < at {
        assert(entries[found].0 != key);
    } else if found > at {
        assert(entries[at].0 != key);
    }
}

/// Giving a key a value leaves no key twice.
pub proof fn lemma_with_entry_distinct(
    entries: Seq<(Seq<char>, PlistModel)>,
    key: Seq<char>,
    value: PlistModel,
)
    requires
        distinct_keys(entries),
    ensures
        distinct_keys(with_entry(entries, key, value)),
{
    lemma_position(entries, key);
    let at = position(entries, key);
    let after = with_entry(entries, key, value);
    assert forall|i: int, j: int| 0 <= i < j < after.len() implies (#[trigger] after[i]).0 != (
    #[trigger] after[j]).0 by {
        if at < entries.len() {
            assert(after[i].0 == entries[i].0);
            assert(after[j].0 == entries[j].0);
        } else if j < entries.len() {
            assert(after[i] == entries[i]);
            assert(after[j] == entries[j]);
        } else {
            assert(after[i] == entries[i]);
        }
    }
}

/// Among entries whose keys all differ, each key has the value of its entry.
pub proof fn lemma_lookup_at(entries: Seq<(Seq<char>, PlistModel)>, at: int)
    requires
        distinct_keys(entries),
        0 <= at < entries.len(),
    ensures
        lookup(entries, entries[at].0) == Some(entries[at].1),
{
    lemma_position_is(entries, entries[at].0, at);
}

/// A key that no entry has has no value.
pub proof fn lemma_lookup_none(entries: Seq<(Seq<char>, PlistModel)>, key: Seq<char>)
    requires
        forall|i: int| 0 <= i < entries.len() ==> (#[trigger] entries[i]).0 != key,
    ensures
        lookup(entries, key) is None,
{
    lemma_position_is(entries, key, entries.len() as int);
}

/// Pairs whose keys all differ make the dictionary that holds them as they
/// are.
pub proof fn lemma_dictionary_of_distinct(pairs: Seq<(Seq<char>, PlistModel)>)
    requires
        distinct_keys(pairs),
    ensures
        dictionary_of(pairs) == pairs,
    decreases pairs.len(),
{
    if pairs.len() > 0 {
        let front = pairs.drop_last();
        assert forall|i: int, j: int| 0 <= i < j < front.len() implies (#[trigger] front[i]).0 != (
        #[trigger] front[j]).0 by {
            assert(front[i] == pairs[i]);
            assert(front[j] == pairs[j]);
        }
        lemma_dictionary_of_distinct(front);
        assert forall|i: int| 0 <= i < front.len() implies (#[trigger] front[i]).0
            != pairs.last().0 by {
            assert(front[i] == pairs[i]);
            assert(pairs[pairs.len() - 1] == pairs.last());
        }
        lemma_position_is(front, pairs.last().0, front.len() as int);
        assert(front.push(pairs.last()) =~= pairs);
    }
}

impl PlistDictionary {
    #[verifier::type_invariant]
    spec fn keys_are_distinct(&self) -> bool {
        distinct_keys(self@)
    }

    /// The dictionary without entries.
    pub fn new() -> (d: PlistDictionary)
        ensures
            d@ == Seq::<(Seq<char>, PlistModel)>::empty(),
    {
        let d = PlistDictionary { entries: Vec::new() };
        assert(d@ =~= Seq::<(Seq<char>, PlistModel)>::empty());
        d
    }

    /// The number of entries.
    pub fn len(&self) -> (n: usize)
        ensures
            n == self@.len(),
            distinct_keys(self@),
    {
        proof {
            use_type_invariant(self);
        }
        self.entries.len()
    }

    /// The key of the entry at `i`.
    pub fn key_at(&self, i: usize) -> (key: &String)
        requires
            i < self@.len(),
        ensures
            key@ == self@[i as int].0,
    {
        &self.entries[i].0
    }

    /// The value of the entry at `i`.
    pub fn value_at(&self, i: usize) -> (value: &PlistValue)
        requires
            i < self@.len(),
        ensures
            value@ == self@[i as int].1,
    {
        &self.entries[i].1
    }

    /// The place of `key` among the entries, or their number where it has
    /// none.
    fn find(&self, key: &str) -> (at: usize)
        ensures
            at == position(self@, key@),
            at <= self@.len(),
    {
        let mut at: usize = 0;
        while at < self.entries.len()
            invariant
                at <= self.entries.len(),
                forall|i: int| 0 <= i < at ==> (#[trigger] self@[i]).0 != key@,
            decreases self.entries.len() - at,
        {
            if same_text(self.entries[at].0.as_str(), key) {
                proof {
                    lemma_position_is(self@, key@, at as int);
                }
                return at;
            }
            at += 1;
        }
        proof {
            lemma_position_is(self@, key@, at as int);
        }
        at
    }

    /// The value of `key`, if it has one.
    pub fn get(&self, key: &str) -> (value: Option<&PlistValue>)
        ensures
            match value {
                Some(v) => lookup(self@, key@) == Some(v@),
                None => lookup(self@, key@) is None,
            },
    {
        let at = self.find(key);
        if at < self.entries.len() {
            Some(&self.entries[at].1)
        } else {
            None
        }
    }

    /// Gives `key` the value `value`. A key that has a value keeps its place
    /// among the entries; another key comes last.
    pub fn insert(&mut self, key: String, value: PlistValue)
        ensures
            final(self)@ == with_entry(old(self)@, key@, value@),
    {
        proof {
            use_type_invariant(&*self);
            lemma_with_entry_distinct(self@, key@, value@);
        }
        let at = self.find(key.as_str());
        let ghost before = self@;
        let mut taken = PlistDictionary::new();
        core::mem::swap(self, &mut taken);
        let mut entries = taken.entries;
        if at < entries.len() {
            entries[at] = (key, value);
        } else {
            entries.push((key, value));
        }
        proof {
            let rebuilt = PlistDictionary { entries };
            assert(rebuilt@ =~= with_entry(before, key@, value@));
        }
        *self = PlistDictionary { entries };
    }
}

/// A value of a property list as the `plist` crate holds it.
#[verifier::external_type_specification]
#[verifier::external_body]
pub struct ExValue(plist::Value);

/// What went wrong in the `plist` crate.
#[verifier::external_type_specification]
#[verifier::external_body]
pub struct ExError(plist::Error);

/// Why bytes are no text.
#[verifier::external_type_specification]
#[verifier::external_body]
pub struct ExFromUtf8Error(std::string::FromUtf8Error);

/// What a value of the `plist` crate says.
pub uninterp spec fn document_of(value: plist::Value) -> PlistModel;

/// The bytes that the `plist` crate writes for a property list in XML, or
/// `None` where it refuses to write it.
pub uninterp spec fn xml_encoding(document: PlistModel) -> Option<Seq<u8>>;

/// `String::from_utf8` makes a string of bytes that are UTF-8, and refuses
/// others.
pub assume_specification[ std::string::String::from_utf8 ](vec: Vec<u8>) -> (r: Result<
    std::string::String,
    std::string::FromUtf8Error,
>)
    ensures
        r is Ok <==> valid_utf8(vec@),
        match r {
            Ok(s) => s@ == decode_utf8(vec@),
            Err(_) => true,
        },
;

/// `plist::Value::String` holds a copy of the text.
#[verifier::external_body]
fn plist_string(text: &str) -> (value: plist::Value)
    ensures
        document_of(value) == PlistModel::String(text@),
{
    plist::Value::String(text.to_owned())
}

/// `plist::Value::Boolean` holds the flag.
#[verifier::external_body]
fn plist_boolean(flag: bool) -> (value: plist::Value)
    ensures
        document_of(value) == PlistModel::Boolean(flag),
{
    plist::Value::Boolean(flag)
}

/// `plist::Value::Integer` holds the number, which `plist::Integer::from`
/// takes as it is.
#[verifier::external_body]
fn plist_integer(number: i64) -> (value: plist::Value)
    ensures
        document_of(value) == PlistModel::Integer(number as int),
{
    plist::Value::Integer(plist::Integer::from(number))
}

/// `plist::Value::Array` holds the items in their order.
#[verifier::external_body]
fn plist_array(items: Vec<plist::Value>) -> (value: plist::Value)
    ensures
        document_of(value) == PlistModel::Array(
            Seq::new(items@.len(), |i: int| document_of(items@[i])),
        ),
{
    plist::Value::Array(items)
}

/// `plist::Dictionary::from_iter` inserts the entries one by one, so entries
/// with keys that all differ are held in their order, and
/// `plist::Value::Dictionary` holds that dictionary.
#[verifier::external_body]
fn plist_dictionary(entries: Vec<(String, plist::Value)>) -> (value: plist::Value)
    requires
        forall|i: int, j: int|
            0 <= i < j < entries@.len() ==> (#[trigger] entries@[i]).0@ != (
            #[trigger] entries@[j]).0@,
    ensures
        document_of(value) == PlistModel::Dictionary(
            Seq::new(entries@.len(), |i: int| (entries@[i].0@, document_of(entries@[i].1))),
        ),
{
    plist::Value::Dictionary(entries.into_iter().collect())
}

/// `plist::to_writer_xml` writes a value as XML. What it writes is told by
/// the value alone.
#[verifier::external_body]
fn plist_xml(value: &plist::Value) -> (r: Result<Vec<u8>, plist::Error>)
    ensures
        match r {
            Ok(bytes) => xml_encoding(document_of(*value)) == Some(bytes@),
            Err(_) => xml_encoding(document_of(*value)) is None,
        },
{
    let mut bytes = Vec::new();
    plist::to_writer_xml(&mut bytes, value)?;
    Ok(bytes)
}

/// The text of a property list in XML: what the encoder writes for it, read
/// as UTF-8.
pub open spec fn xml_text(document: PlistModel) -> Result<Seq<char>, SerializationError> {
    match xml_encoding(document) {
        Some(bytes) => decoded(bytes),
        None => Err(SerializationError::Refused),
    }
}

/// The text that the bytes are in UTF-8.
pub open spec fn decoded(bytes: Seq<u8>) -> Result<Seq<char>, SerializationError> {
    if valid_utf8(bytes) {
        Ok(decode_utf8(bytes))
    } else {
        Err(SerializationError::NotText)
    }
}

/// Reads what the encoder wrote as text.
pub fn decode(bytes: Vec<u8>) -> (r: Result<String, SerializationError>)
    ensures
        match r {
            Ok(text) => decoded(bytes@) == Ok::<Seq<char>, SerializationError>(text@),
            Err(e) => decoded(bytes@) == Err::<Seq<char>, SerializationError>(e),
        },
{
    match String::from_utf8(bytes) {
        Ok(text) => Ok(text),
        Err(_) => Err(SerializationError::NotText),
    }
}

/// The value of the `plist` crate that says what `value` says.
fn to_outside(value: &PlistValue) -> (outside: plist::Value)
    ensures
        document_of(outside) == value@,
    decreases value@,
{
    match value {
        PlistValue::String(text) => plist_string(text.as_str()),
        PlistValue::Boolean(flag) => plist_boolean(*flag),
        PlistValue::Integer(number) => plist_integer(*number),
        PlistValue::Array(items) => {
            let mut converted: Vec<plist::Value> = Vec::new();
            let mut i: usize = 0;
            while i < items.len()
                invariant
                    i <= items.len(),
                    converted@.len() == i,
                    value@ is Array,
                    value@->Array_0.len() == items.len(),
                    forall|j: int| 0 <= j < items.len() ==> value@->Array_0[j] == items[j]@,
                    forall|j: int| 0 <= j < i ==> document_of(#[trigger] converted@[j]) == items[j]@,
                decreases items.len() - i,
            {
                assert(decreases_to!(value@ => value@->Array_0[i as int]));
                converted.push(to_outside(&items[i]));
                i += 1;
            }
            let outside = plist_array(converted);
            assert(document_of(outside)->Array_0 =~= value@->Array_0);
            outside
        },
        PlistValue::Dictionary(dictionary) => {
            let n = dictionary.len();
            let mut converted: Vec<(String, plist::Value)> = Vec::new();
            let mut i: usize = 0;
            while i < n
                invariant
                    i <= n,
                    n == dictionary@.len(),
                    converted@.len() == i,
                    value@ == PlistModel::Dictionary(dictionary@),
                    forall|j: int|
                        0 <= j < i ==> (#[trigger] converted@[j]).0@ == dictionary@[j].0
                            && document_of(converted@[j].1) == dictionary@[j].1,
                decreases n - i,
            {
                let key = dictionary.key_at(i).clone();
                proof {
                    let entries = dictionary@;
                    let entry = entries[i as int];
                    assert(value@->Dictionary_0 == entries);
                    assert(decreases_to!(value@ => value@->Dictionary_0[i as int]));
                    assert(decreases_to!(entry => entry.1));
                }
                let entry = to_outside(dictionary.value_at(i));
                converted.push((key, entry));
                i += 1;
            }
            let outside = plist_dictionary(converted);
            assert(document_of(outside)->Dictionary_0 =~= dictionary@);
            outside
        },
    }
}

impl PlistValue {
    /// Writes the property list as XML.
    pub fn to_xml(&self) -> (r: Result<String, SerializationError>)
        ensures
            match r {
                Ok(text) => xml_text(self@) == Ok::<Seq<char>, SerializationError>(text@),
                Err(e) => xml_text(self@) == Err::<Seq<char>, SerializationError>(e),
            },
    {
        let outside = to_outside(self);
        match plist_xml(&outside) {
            Ok(bytes) => decode(bytes),
            Err(_) => Err(SerializationError::Refused),
        }
    }
}

} // verus!
