//! The backing document: a JSON array with one object per record, in
//! insertion order. Each object stores the identifier, the name and the
//! email as strings under `id`, `name` and `email`, and the phone number
//! under `phone` as a string, or as null or not at all where there is none.
//! None of the four keys may occur twice in an object. Other members of an
//! object are ignored.

use crate::contact::{Contact, ContactView};
use crate::error::{lemma_keys_differ, Corruption, Field, RecordFault, StoreError};
use crate::protocol::Operation;
use crate::store::{records_of, Store};
use vstd::prelude::*;

verus! {

/// The error type of the `serde_json` crate.
#[verifier::external_type_specification]
#[verifier::external_body]
pub struct ExJsonError(serde_json::Error);

/// A member's value, as far as the format tells values apart.
#[derive(Debug)]
pub enum Cell {
    Null,
    Text(String),
    /// A boolean, a number, an array or an object.
    Other,
}

/// One member of a JSON object.
#[derive(Debug)]
pub struct Member {
    pub key: String,
    pub value: Cell,
}

/// One member of a JSON object that the store writes: a string, or null
/// where `text` is `None`.
#[derive(Debug)]
pub struct Entry {
    pub key: String,
    pub text: Option<String>,
}

/// A member's value as plain data.
pub enum CellView {
    Null,
    Text(Seq<char>),
    Other,
}

/// A member as plain data.
pub struct MemberView {
    pub key: Seq<char>,
    pub value: CellView,
}

impl View for Cell {
    type V = CellView;

    open spec fn view(&self) -> CellView {
        match self {
            Cell::Null => CellView::Null,
            Cell::Text(t) => CellView::Text(t@),
            Cell::Other => CellView::Other,
        }
    }
}

impl View for Member {
    type V = MemberView;

    open spec fn view(&self) -> MemberView {
        MemberView { key: self.key@, value: self.value@ }
    }
}

impl View for Entry {
    type V = MemberView;

    open spec fn view(&self) -> MemberView {
        MemberView {
            key: self.key@,
            value: match self.text {
                Some(t) => CellView::Text(t@),
                None => CellView::Null,
            },
        }
    }
}

/// The object behind a vector of members.
pub open spec fn object_of(members: Seq<Member>) -> Seq<MemberView> {
    members.map_values(|m: Member| m@)
}

/// The document behind a vector of objects.
pub open spec fn document_of(objects: Seq<Vec<Member>>) -> Seq<Seq<MemberView>> {
    objects.map_values(|o: Vec<Member>| object_of(o@))
}

/// The object behind a vector of entries.
pub open spec fn object_of_entries(entries: Seq<Entry>) -> Seq<MemberView> {
    entries.map_values(|e: Entry| e@)
}

/// The document behind a vector of objects to be written.
pub open spec fn document_of_entries(objects: Seq<Vec<Entry>>) -> Seq<Seq<MemberView>> {
    objects.map_values(|o: Vec<Entry>| object_of_entries(o@))
}

/// The value stored under `key`: that of the first member with this key.
pub open spec fn lookup(object: Seq<MemberView>, key: Seq<char>) -> Option<CellView>
    decreases object.len(),
{
    if object.len() == 0 {
        None
    } else if object.first().key == key {
        Some(object.first().value)
    } else {
        lookup(object.drop_first(), key)
    }
}

/// How many members of the object have the key `key`.
pub open spec fn occurrences(object: Seq<MemberView>, key: Seq<char>) -> nat
    decreases object.len(),
{
    if object.len() == 0 {
        0
    } else {
        occurrences(object.drop_last(), key) + if object.last().key == key {
            1nat
        } else {
            0nat
        }
    }
}

/// The text of a field that every record must have: its key occurs exactly
/// once, with a string.
pub open spec fn required_text(object: Seq<MemberView>, field: Field) -> Result<
    Seq<char>,
    RecordFault,
> {
    match lookup(object, field.key()) {
        None => Err(RecordFault::Missing(field)),
        Some(value) => if occurrences(object, field.key()) > 1 {
            Err(RecordFault::Repeated(field))
        } else {
            match value {
                CellView::Text(t) => Ok(t),
                _ => Err(RecordFault::NotText(field)),
            }
        },
    }
}

/// The text of a field that a record may lack: absent and null both mean
/// that there is none. Its key occurs at most once.
pub open spec fn optional_text(object: Seq<MemberView>, field: Field) -> Result<
    Option<Seq<char>>,
    RecordFault,
> {
    match lookup(object, field.key()) {
        None => Ok(None),
        Some(value) => if occurrences(object, field.key()) > 1 {
            Err(RecordFault::Repeated(field))
        } else {
            match value {
                CellView::Text(t) => Ok(Some(t)),
                CellView::Null => Ok(None),
                CellView::Other => Err(RecordFault::NotText(field)),
            }
        },
    }
}

/// The record that an object stores, or the first fault in the order
/// identifier, name, email, phone.
pub open spec fn decoded_record(object: Seq<MemberView>) -> Result<ContactView, RecordFault> {
    match required_text(object, Field::Id) {
        Err(f) => Err(f),
        Ok(id) => match required_text(object, Field::Name) {
            Err(f) => Err(f),
            Ok(name) => match required_text(object, Field::Email) {
                Err(f) => Err(f),
                Ok(email) => match optional_text(object, Field::Phone) {
                    Err(f) => Err(f),
                    Ok(phone) => Ok(ContactView { id, name, email, phone }),
                },
            },
        },
    }
}

/// The records that a document stores, in the document's order, or the
/// position of its first ill-formed object with what is wrong there.
pub open spec fn decoded(document: Seq<Seq<MemberView>>) -> Result<
    Seq<ContactView>,
    (int, RecordFault),
>
    decreases document.len(),
{
    if document.len() == 0 {
        Ok(Seq::empty())
    } else {
        match decoded(document.drop_last()) {
            Err(e) => Err(e),
            Ok(front) => match decoded_record(document.last()) {
                Ok(record) => Ok(front.push(record)),
                Err(fault) => Err((document.len() - 1, fault)),
            },
        }
    }
}

/// The object that stores a record: identifier, name, email and phone, in
/// this order, with null for a phone number that is not there.
pub open spec fn encoded_record(record: ContactView) -> Seq<MemberView> {
    seq![
        MemberView { key: Field::Id.key(), value: CellView::Text(record.id) },
        MemberView { key: Field::Name.key(), value: CellView::Text(record.name) },
        MemberView { key: Field::Email.key(), value: CellView::Text(record.email) },
        MemberView {
            key: Field::Phone.key(),
            value: match record.phone {
                Some(p) => CellView::Text(p),
                None => CellView::Null,
            },
        },
    ]
}

/// The document that stores a collection: one object per record, in order.
pub open spec fn encoded(records: Seq<ContactView>) -> Seq<Seq<MemberView>> {
    records.map_values(|c: ContactView| encoded_record(c))
}

/// The document that the JSON parser reads from a text, where the text is a
/// JSON array of objects; `None` where it is not.
pub uninterp spec fn parsed(text: Seq<char>) -> Option<Seq<Seq<MemberView>>>;

/// The JSON text that the serializer writes for a document, where it writes
/// one.
pub uninterp spec fn rendered(document: Seq<Seq<MemberView>>) -> Option<Seq<char>>;

/// Whether `r` is what loading `text` gives: the records of the document
/// that the text parses to, or the reason why there are none.
pub open spec fn loaded(text: Seq<char>, r: Result<Store, StoreError>) -> bool {
    match parsed(text) {
        None => r is Err && r->Err_0 is Corrupt && r->Err_0->Corrupt_0 is Syntax,
        Some(document) => match decoded(document) {
            Ok(records) => r is Ok && r->Ok_0@ == records,
            Err((index, fault)) => r is Err && r->Err_0 == StoreError::Corrupt(
                Corruption::Record { index: index as usize, fault },
            ),
        },
    }
}

/// Whether `text` holds the collection `records`: it parses, and the
/// document it parses to stores exactly these records.
pub open spec fn reads_back(text: Seq<char>, records: Seq<ContactView>) -> bool {
    parsed(text) matches Some(document) && decoded(document) == Ok::<
        Seq<ContactView>,
        (int, RecordFault),
    >(records)
}

/// `serde_json::from_str`, asked for a vector of `serde_json::Map`s: parses
/// a JSON array of objects. Each object comes back as its members in the
/// order of the text, a string or a null as such and any other value as
/// `Cell::Other`. The parser keeps an object as a map: a key that the text
/// repeats within one object comes back once, with the value given last, so
/// that what is handed on never shows the repetition. Assumed, not
/// proved: whether the call succeeds and what it returns depend on the text
/// alone, which is what the name `parsed` stands for.
#[verifier::external_body]
fn parse(text: &str) -> (r: Result<Vec<Vec<Member>>, serde_json::Error>)
    ensures
        match parsed(text@) {
            Some(document) => r is Ok && document_of(r->Ok_0@) == document,
            None => r is Err,
        },
{
    let objects: Vec<serde_json::Map<String, serde_json::Value>> = serde_json::from_str(text)?;
    Ok(objects.into_iter().map(|object| object.into_iter().map(|(key, value)| Member {
        key,
        value: match value {
            serde_json::Value::Null => Cell::Null,
            serde_json::Value::String(text) => Cell::Text(text),
            serde_json::Value::Bool(_) => Cell::Other,
            serde_json::Value::Number(_) => Cell::Other,
            serde_json::Value::Array(_) => Cell::Other,
            serde_json::Value::Object(_) => Cell::Other,
        },
    }).collect()).collect())
}

/// `serde_json::to_string_pretty`, given a vector of `serde_json::Map`s
/// made of the entries: writes a JSON array of objects, indented, each
/// entry as a string or as null. Assumed, not proved: whether the call
/// succeeds and what it returns depend on the entries alone, which is what
/// the name `rendered` stands for.
#[verifier::external_body]
fn render(document: &Vec<Vec<Entry>>) -> (r: Result<String, serde_json::Error>)
    ensures
        match rendered(document_of_entries(document@)) {
            Some(text) => r is Ok && r->Ok_0@ == text,
            None => r is Err,
        },
{
    let objects: Vec<serde_json::Map<String, serde_json::Value>> = document.iter().map(|object| {
        object.iter().map(|entry| {
            (entry.key.clone(), serde_json::Value::from(entry.text.clone()))
        }).collect()
    }).collect();
    serde_json::to_string_pretty(&objects)
}

/// `Display` of `serde_json::Error`: the diagnostic as text. Nothing is
/// assumed of the text.
#[verifier::external_body]
fn diagnostic(error: &serde_json::Error) -> String {
    error.to_string()
}

/// The value stored under a field's key, if the object has such a member.
pub fn find_cell<'a>(object: &'a Vec<Member>, field: Field) -> (cell: Option<&'a Cell>)
    ensures
        match lookup(object_of(object@), field.key()) {
            Some(v) => cell is Some && cell->0@ == v,
            None => cell is None,
        },
{
    let key: String = field.name().to_owned();
    let ghost whole = object_of(object@);
    let mut i: usize = 0;
    proof {
        assert(whole.skip(0) =~= whole);
    }
    while i < object.len()
        invariant
            i <= object.len(),
            whole == object_of(object@),
            key@ == field.key(),
            lookup(whole, field.key()) == lookup(whole.skip(i as int), field.key()),
        decreases object.len() - i,
    {
        proof {
            assert(whole.skip(i as int).drop_first() =~= whole.skip(i + 1));
            assert(whole.skip(i as int).first() == object@[i as int]@);
        }
        if object[i].key == key {
            return Some(&object[i].value);
        }
        i += 1;
    }
    None
}

/// Whether more than one member of the object has the field's key.
pub fn is_repeated(object: &Vec<Member>, field: Field) -> (b: bool)
    ensures
        b == (occurrences(object_of(object@), field.key()) > 1),
{
    let key: String = field.name().to_owned();
    let ghost whole = object_of(object@);
    let mut seen: usize = 0;
    let mut i: usize = 0;
    proof {
        assert(whole.take(0) =~= Seq::<MemberView>::empty());
    }
    while i < object.len()
        invariant
            i <= object.len(),
            whole == object_of(object@),
            key@ == field.key(),
            seen <= i,
            seen == occurrences(whole.take(i as int), field.key()),
        decreases object.len() - i,
    {
        proof {
            assert(whole.take(i + 1).drop_last() =~= whole.take(i as int));
            assert(whole.take(i + 1).last() == object@[i as int]@);
        }
        if object[i].key == key {
            seen += 1;
        }
        i += 1;
    }
    proof {
        assert(whole.take(object.len() as int) =~= whole);
    }
    seen > 1
}

/// The text of a field that every record must have.
pub fn required(object: &Vec<Member>, field: Field) -> (r: Result<String, RecordFault>)
    ensures
        match required_text(object_of(object@), field) {
            Ok(t) => r is Ok && r->Ok_0@ == t,
            Err(f) => r == Err::<String, RecordFault>(f),
        },
{
    match find_cell(object, field) {
        None => Err(RecordFault::Missing(field)),
        Some(cell) => {
            if is_repeated(object, field) {
                Err(RecordFault::Repeated(field))
            } else {
                match cell {
                    Cell::Text(t) => Ok(t.clone()),
                    _ => Err(RecordFault::NotText(field)),
                }
            }
        },
    }
}

/// The text of a field that a record may lack.
pub fn optional(object: &Vec<Member>, field: Field) -> (r: Result<Option<String>, RecordFault>)
    ensures
        match optional_text(object_of(object@), field) {
            Ok(Some(t)) => r is Ok && r->Ok_0 is Some && r->Ok_0->0@ == t,
            Ok(None) => r is Ok && r->Ok_0 is None,
            Err(f) => r == Err::<Option<String>, RecordFault>(f),
        },
{
    match find_cell(object, field) {
        None => Ok(None),
        Some(cell) => {
            if is_repeated(object, field) {
                Err(RecordFault::Repeated(field))
            } else {
                match cell {
                    Cell::Text(t) => Ok(Some(t.clone())),
                    Cell::Null => Ok(None),
                    Cell::Other => Err(RecordFault::NotText(field)),
                }
            }
        },
    }
}

/// The record that an object stores.
pub fn decode_record(object: &Vec<Member>) -> (r: Result<Contact, RecordFault>)
    ensures
        match decoded_record(object_of(object@)) {
            Ok(record) => r is Ok && r->Ok_0@ == record,
            Err(f) => r == Err::<Contact, RecordFault>(f),
        },
{
    let id = match required(object, Field::Id) {
        Ok(t) => t,
        Err(f) => {
            return Err(f);
        },
    };
    let name = match required(object, Field::Name) {
        Ok(t) => t,
        Err(f) => {
            return Err(f);
        },
    };
    let email = match required(object, Field::Email) {
        Ok(t) => t,
        Err(f) => {
            return Err(f);
        },
    };
    let phone = match optional(object, Field::Phone) {
        Ok(t) => t,
        Err(f) => {
            return Err(f);
        },
    };
    Ok(Contact { id, name, email, phone })
}

/// The records that a document stores, in the document's order. Fails at
/// the first object that is not a well-formed record.
pub fn decode(document: &Vec<Vec<Member>>) -> (r: Result<Vec<Contact>, Corruption>)
    ensures
        match decoded(document_of(document@)) {
            Ok(records) => r is Ok && records_of(r->Ok_0@) == records,
            Err((index, fault)) => r is Err && r->Err_0 == (Corruption::Record {
                index: index as usize,
                fault,
            }),
        },
{
    let ghost whole = document_of(document@);
    let mut contacts: Vec<Contact> = Vec::new();
    let mut i: usize = 0;
    proof {
        assert(whole.take(0) =~= Seq::<Seq<MemberView>>::empty());
        assert(records_of(contacts@) =~= Seq::<ContactView>::empty());
    }
    while i < document.len()
        invariant
            i <= document.len(),
            whole == document_of(document@),
            decoded(whole.take(i as int)) == Ok::<Seq<ContactView>, (int, RecordFault)>(
                records_of(contacts@),
            ),
        decreases document.len() - i,
    {
        proof {
            assert(whole.take(i + 1).drop_last() =~= whole.take(i as int));
            assert(whole.take(i + 1).last() == object_of(document@[i as int]@));
        }
        match decode_record(&document[i]) {
            Ok(contact) => {
                let ghost prior = records_of(contacts@);
                contacts.push(contact);
                assert(records_of(contacts@) =~= prior.push(contact@));
            },
            Err(fault) => {
                proof {
                    lemma_decoded_fails_on(whole, i + 1);
                }
                return Err(Corruption::Record { index: i, fault });
            },
        }
        i += 1;
    }
    proof {
        assert(whole.take(document.len() as int) =~= whole);
    }
    Ok(contacts)
}

/// The object that stores a record.
pub fn encode_record(contact: &Contact) -> (object: Vec<Entry>)
    ensures
        object_of_entries(object@) == encoded_record(contact@),
{
    let mut object: Vec<Entry> = Vec::new();
    object.push(Entry { key: Field::Id.name().to_owned(), text: Some(contact.id.clone()) });
    object.push(Entry { key: Field::Name.name().to_owned(), text: Some(contact.name.clone()) });
    object.push(
        Entry { key: Field::Email.name().to_owned(), text: Some(contact.email.clone()) },
    );
    let phone = match &contact.phone {
        Some(p) => Some(p.clone()),
        None => None,
    };
    object.push(Entry { key: Field::Phone.name().to_owned(), text: phone });
    assert(object_of_entries(object@) =~= encoded_record(contact@));
    object
}

/// The document that stores a collection.
pub fn encode(contacts: &[Contact]) -> (document: Vec<Vec<Entry>>)
    ensures
        document_of_entries(document@) == encoded(records_of(contacts@)),
{
    let mut document: Vec<Vec<Entry>> = Vec::new();
    let mut i: usize = 0;
    proof {
        assert(document_of_entries(document@) =~= encoded(records_of(contacts@.take(0))));
    }
    while i < contacts.len()
        invariant
            i <= contacts.len(),
            document_of_entries(document@) == encoded(records_of(contacts@.take(i as int))),
        decreases contacts.len() - i,
    {
        let object = encode_record(&contacts[i]);
        let ghost prior = document_of_entries(document@);
        document.push(object);
        proof {
            let seen = records_of(contacts@.take(i as int));
            assert(contacts@.take(i + 1) =~= contacts@.take(i as int).push(contacts@[i as int]));
            assert(records_of(contacts@.take(i + 1)) =~= seen.push(contacts@[i as int]@));
            assert(document_of_entries(document@) =~= prior.push(object_of_entries(object@)));
            assert(encoded(seen.push(contacts@[i as int]@)) =~= encoded(seen).push(
                encoded_record(contacts@[i as int]@),
            ));
        }
        i += 1;
    }
    proof {
        assert(contacts@.take(contacts.len() as int) =~= contacts@);
    }
    document
}

impl Store {
    /// The collection behind a backing file: empty where there is no file
    /// yet (`None`), else what the file's text holds.
    pub fn open(contents: Option<&str>) -> (r: Result<Store, StoreError>)
        ensures
            contents is None ==> r is Ok && r->Ok_0@ == Seq::<ContactView>::empty(),
            contents matches Some(text) ==> loaded(text@, r),
    {
        match contents {
            None => Ok(Store::new()),
            Some(text) => Store::from_json(text),
        }
    }

    /// The collection that a JSON text holds. Text that does not parse as an
    /// array of objects, or an object that is not a well-formed record, is
    /// an error. The parser hands each object on as a map, so a key that
    /// the text repeats within one object is read with the value given
    /// last; `decode` refuses a document that still shows the repetition.
    pub fn from_json(text: &str) -> (r: Result<Store, StoreError>)
        ensures
            loaded(text@, r),
    {
        match parse(text) {
            Ok(document) => match decode(&document) {
                Ok(contacts) => Ok(Store { contacts }),
                Err(corruption) => Err(StoreError::Corrupt(corruption)),
            },
            Err(error) => Err(StoreError::Corrupt(Corruption::Syntax(diagnostic(&error)))),
        }
    }

    /// The JSON text that holds the collection: an array with one object
    /// per record, in insertion order. The text is handed out only after it
    /// has been read back: loading it gives this collection again, the same
    /// records in the same order, a missing phone number included. Where
    /// the serializer fails or the text does not read back, the error names
    /// the operation that would have written it.
    pub fn to_json(&self) -> (r: Result<String, StoreError>)
        ensures
            match rendered(encoded(self@)) {
                Some(text) if reads_back(text, self@) => r is Ok && r->Ok_0@ == text,
                _ => r is Err && r->Err_0 is Io && r->Err_0->Io_operation
                    == Operation::WriteContent,
            },
            r matches Ok(text) ==> reads_back(text@, self@),
    {
        let document = encode(self.contacts.as_slice());
        match render(&document) {
            Ok(text) => {
                if self.is_stored_in(text.as_str()) {
                    Ok(text)
                } else {
                    Err(
                        StoreError::Io {
                            operation: Operation::WriteContent,
                            detail: "the JSON text does not read back as the collection".to_owned(),
                        },
                    )
                }
            },
            Err(error) => Err(
                StoreError::Io { operation: Operation::WriteContent, detail: diagnostic(&error) },
            ),
        }
    }

    /// Whether `text` holds this collection: loading it succeeds and gives
    /// the same records in the same order.
    pub fn is_stored_in(&self, text: &str) -> (b: bool)
        ensures
            b == reads_back(text@, self@),
    {
        match Store::from_json(text) {
            Ok(other) => self.same_as(&other),
            Err(_) => false,
        }
    }
}

/// A document whose beginning is ill formed fails as that beginning does.
proof fn lemma_decoded_fails_on(document: Seq<Seq<MemberView>>, n: int)
    requires
        0 <= n <= document.len(),
        decoded(document.take(n)) is Err,
    ensures
        decoded(document) == decoded(document.take(n)),
    decreases document.len(),
{
    if n == document.len() {
        assert(document.take(n) =~= document);
    } else {
        assert(document.drop_last().take(n) =~= document.take(n));
        lemma_decoded_fails_on(document.drop_last(), n);
    }
}

/// What is stored for a record is read back as that record.
pub proof fn lemma_record_round_trip(record: ContactView)
    ensures
        decoded_record(encoded_record(record)) == Ok::<ContactView, RecordFault>(record),
{
    let object = encoded_record(record);
    lemma_keys_differ(Field::Id, Field::Name);
    lemma_keys_differ(Field::Id, Field::Email);
    lemma_keys_differ(Field::Id, Field::Phone);
    lemma_keys_differ(Field::Name, Field::Email);
    lemma_keys_differ(Field::Name, Field::Phone);
    lemma_keys_differ(Field::Email, Field::Phone);
    reveal_with_fuel(lookup, 5);
    reveal_with_fuel(occurrences, 5);
    assert(object.drop_last() =~= seq![object[0], object[1], object[2]]);
    assert(object.drop_last().drop_last() =~= seq![object[0], object[1]]);
    assert(object.drop_last().drop_last().drop_last() =~= seq![object[0]]);
    assert(object.drop_last().drop_last().drop_last().drop_last() =~= Seq::<MemberView>::empty());
    assert(occurrences(object, Field::Id.key()) == 1);
    assert(occurrences(object, Field::Name.key()) == 1);
    assert(occurrences(object, Field::Email.key()) == 1);
    assert(occurrences(object, Field::Phone.key()) == 1);
    assert(object.drop_first() =~= seq![object[1], object[2], object[3]]);
    assert(object.drop_first().drop_first() =~= seq![object[2], object[3]]);
    assert(object.drop_first().drop_first().drop_first() =~= seq![object[3]]);
    assert(lookup(object, Field::Id.key()) == Some(CellView::Text(record.id)));
    assert(lookup(object, Field::Name.key()) == Some(CellView::Text(record.name)));
    assert(lookup(object, Field::Email.key()) == Some(CellView::Text(record.email)));
    assert(lookup(object, Field::Phone.key()) == Some(object[3].value));
}

/// What is stored for a collection is read back as that collection: the same
/// records in the same order, a missing phone number included.
pub proof fn lemma_round_trip(records: Seq<ContactView>)
    ensures
        decoded(encoded(records)) == Ok::<Seq<ContactView>, (int, RecordFault)>(records),
    decreases records.len(),
{
    if records.len() == 0 {
        assert(decoded(encoded(records))->Ok_0 =~= records);
    } else {
        let front = records.drop_last();
        lemma_round_trip(front);
        lemma_record_round_trip(records.last());
        assert(encoded(records).drop_last() =~= encoded(front));
        assert(front.push(records.last()) =~= records);
    }
}

/// Reading a document and storing what was read gives a document that reads
/// as the first did.
pub proof fn lemma_reload_is_stable(document: Seq<Seq<MemberView>>)
    requires
        decoded(document) is Ok,
    ensures
        decoded(encoded(decoded(document)->Ok_0)) == decoded(document),
{
    lemma_round_trip(decoded(document)->Ok_0);
}

/// Loading a text that holds a collection gives that collection.
pub proof fn lemma_stored_text_loads(
    text: Seq<char>,
    records: Seq<ContactView>,
    r: Result<Store, StoreError>,
)
    ensures
        reads_back(text, records) && loaded(text, r) ==> r is Ok && r->Ok_0@ == records,
{
}

} // verus!
