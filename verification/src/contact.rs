//! Contact records and the rules a candidate must meet to become one.

use crate::text::{
    contains, has_substring, is_all_white_space, is_trimmed, lemma_blank, lemma_trimmed,
    lemma_trimmed_idempotent, lowercase, to_lowercase, trim, trimmed,
};
use vstd::prelude::*;
use vstd::string::StrSliceExecFns;

verus! {

/// Most characters a name may have.
pub const MAX_NAME_CHARS: usize = 200;

/// Most characters an email address may have.
pub const MAX_EMAIL_CHARS: usize = 320;

/// Most characters a phone number may have.
pub const MAX_PHONE_CHARS: usize = 50;

/// Why a candidate was refused.
#[derive(Debug, Clone, Copy, PartialEq, Eq, Structural)]
pub enum ValidationError {
    /// The name or the email is empty once surrounding white space is removed.
    EmptyNameOrEmail,
    /// The trimmed name has more than `MAX_NAME_CHARS` characters.
    NameTooLong,
    /// The trimmed email has more than `MAX_EMAIL_CHARS` characters.
    EmailTooLong,
    /// The trimmed phone number has more than `MAX_PHONE_CHARS` characters.
    PhoneTooLong,
}

/// One contact.
#[derive(Debug)]
pub struct Contact {
    /// Opaque identifier, fixed when the record is made.
    pub id: String,
    pub name: String,
    pub email: String,
    pub phone: Option<String>,
}

/// What a contact holds, as plain texts.
pub struct ContactView {
    pub id: Seq<char>,
    pub name: Seq<char>,
    pub email: Seq<char>,
    pub phone: Option<Seq<char>>,
}

impl View for Contact {
    type V = ContactView;

    open spec fn view(&self) -> ContactView {
        ContactView {
            id: self.id@,
            name: self.name@,
            email: self.email@,
            phone: match self.phone {
                Some(p) => Some(p@),
                None => None,
            },
        }
    }
}

impl Clone for Contact {
    fn clone(&self) -> (c: Contact)
        ensures
            c == *self,
    {
        Contact {
            id: self.id.clone(),
            name: self.name.clone(),
            email: self.email.clone(),
            phone: match &self.phone {
                Some(p) => Some(p.clone()),
                None => None,
            },
        }
    }
}

/// The text behind an optional string slice.
pub open spec fn text_of(s: Option<&str>) -> Option<Seq<char>> {
    match s {
        Some(p) => Some(p@),
        None => None,
    }
}

/// The first rule that a candidate breaks, if it breaks one. Every rule is
/// judged on the trimmed texts, which are what a record stores: white space
/// around a text neither counts towards its length nor keeps it from being
/// empty. Emptiness comes first, then the lengths of name, email and phone.
pub open spec fn validation_error(
    name: Seq<char>,
    email: Seq<char>,
    phone: Option<Seq<char>>,
) -> Option<ValidationError> {
    if trimmed(name).len() == 0 || trimmed(email).len() == 0 {
        Some(ValidationError::EmptyNameOrEmail)
    } else if trimmed(name).len() > MAX_NAME_CHARS {
        Some(ValidationError::NameTooLong)
    } else if trimmed(email).len() > MAX_EMAIL_CHARS {
        Some(ValidationError::EmailTooLong)
    } else if phone is Some && trimmed(phone->0).len() > MAX_PHONE_CHARS {
        Some(ValidationError::PhoneTooLong)
    } else {
        None
    }
}

/// An optional text, trimmed where there is one.
pub open spec fn trimmed_option(s: Option<Seq<char>>) -> Option<Seq<char>> {
    match s {
        Some(p) => Some(trimmed(p)),
        None => None,
    }
}

/// The record that an accepted candidate becomes under the identifier `id`.
pub open spec fn accepted(
    id: Seq<char>,
    name: Seq<char>,
    email: Seq<char>,
    phone: Option<Seq<char>>,
) -> ContactView {
    ContactView {
        id,
        name: trimmed(name),
        email: trimmed(email),
        phone: trimmed_option(phone),
    }
}

/// Whether `c` is a lower-case hexadecimal digit.
pub open spec fn is_hex_digit(c: char) -> bool {
    '0' <= c <= '9' || 'a' <= c <= 'f'
}

/// Whether `s` is the hyphenated lower-case text of a random (version 4)
/// UUID: 36 characters in groups of 8, 4, 4, 4 and 12 hexadecimal digits,
/// the third group starting with `4` and the fourth with `8`, `9`, `a` or `b`.
pub open spec fn is_random_id(s: Seq<char>) -> bool {
    &&& s.len() == 36
    &&& forall|i: int|
        0 <= i < 36 ==> if i == 8 || i == 13 || i == 18 || i == 23 {
            #[trigger] s[i] == '-'
        } else {
            is_hex_digit(s[i])
        }
    &&& s[14] == '4'
    &&& (s[19] == '8' || s[19] == '9' || s[19] == 'a' || s[19] == 'b')
}

impl ContactView {
    /// Whether the record keeps the limits of the data model: name and email
    /// trimmed and not empty, the phone trimmed where there is one, and none
    /// longer than its limit.
    pub open spec fn is_valid(self) -> bool {
        &&& 0 < self.name.len() <= MAX_NAME_CHARS
        &&& is_trimmed(self.name)
        &&& 0 < self.email.len() <= MAX_EMAIL_CHARS
        &&& is_trimmed(self.email)
        &&& self.phone matches Some(p) ==> p.len() <= MAX_PHONE_CHARS && is_trimmed(p)
    }

    /// Whether the record answers a query already put in lower case: the
    /// query occurs in the lower-case name or in the lower-case email.
    pub open spec fn matches_lowered(self, needle: Seq<char>) -> bool {
        has_substring(lowercase(self.name), needle) || has_substring(
            lowercase(self.email),
            needle,
        )
    }

    /// Whether the record answers `query`, letter case aside.
    pub open spec fn matches(self, query: Seq<char>) -> bool {
        self.matches_lowered(lowercase(query))
    }
}

/// `Uuid::new_v4` of the `uuid` crate, rendered by its `Display`: a fresh
/// random identifier. Assumed, not proved: the text has the hyphenated
/// lower-case form of a version 4 UUID. Nothing else is known of it, and two
/// calls may return any two texts of that form. The call panics if the
/// operating system cannot supply random bytes.
#[verifier::external_body]
fn fresh_id() -> (id: String)
    ensures
        is_random_id(id@),
{
    uuid::Uuid::new_v4().to_string()
}

/// Judges a candidate: `Ok` if it breaks no rule, else the rule that it
/// breaks first.
pub fn validate(name: &str, email: &str, phone: Option<&str>) -> (r: Result<(), ValidationError>)
    ensures
        match validation_error(name@, email@, text_of(phone)) {
            Some(e) => r == Err::<(), ValidationError>(e),
            None => r is Ok,
        },
{
    let name = trim(name);
    let email = trim(email);
    if name.is_empty() || email.is_empty() {
        return Err(ValidationError::EmptyNameOrEmail);
    }
    if name.unicode_len() > MAX_NAME_CHARS {
        return Err(ValidationError::NameTooLong);
    }
    if email.unicode_len() > MAX_EMAIL_CHARS {
        return Err(ValidationError::EmailTooLong);
    }
    match phone {
        Some(p) => {
            if trim(p).unicode_len() > MAX_PHONE_CHARS {
                return Err(ValidationError::PhoneTooLong);
            }
        },
        None => {},
    }
    Ok(())
}

impl ValidationError {
    /// The refusal in words.
    pub fn message(&self) -> (m: &'static str)
        ensures
            m@ == match *self {
                ValidationError::EmptyNameOrEmail => "name and email must be non-empty"@,
                ValidationError::NameTooLong => "name too long (max 200 chars)"@,
                ValidationError::EmailTooLong => "email too long (max 320 chars)"@,
                ValidationError::PhoneTooLong => "phone too long (max 50 chars)"@,
            },
    {
        match self {
            ValidationError::EmptyNameOrEmail => "name and email must be non-empty",
            ValidationError::NameTooLong => "name too long (max 200 chars)",
            ValidationError::EmailTooLong => "email too long (max 320 chars)",
            ValidationError::PhoneTooLong => "phone too long (max 50 chars)",
        }
    }
}

impl Contact {
    /// Validates a candidate and, if it passes, makes a record of it under a
    /// fresh random identifier. Name, email and phone are stored trimmed.
    pub fn new(name: &str, email: &str, phone: Option<&str>) -> (r: Result<
        Contact,
        ValidationError,
    >)
        ensures
            match validation_error(name@, email@, text_of(phone)) {
                Some(e) => r == Err::<Contact, ValidationError>(e),
                None => r is Ok && is_random_id(r->Ok_0.id@) && r->Ok_0@ == accepted(
                    r->Ok_0.id@,
                    name@,
                    email@,
                    text_of(phone),
                ) && r->Ok_0@.is_valid(),
            },
    {
        match validate(name, email, phone) {
            Err(e) => Err(e),
            Ok(_) => Ok(Contact::assemble(fresh_id(), name, email, phone)),
        }
    }

    /// Validates a candidate and, if it passes, makes a record of it under
    /// the identifier given.
    pub fn with_id(id: String, name: &str, email: &str, phone: Option<&str>) -> (r: Result<
        Contact,
        ValidationError,
    >)
        ensures
            match validation_error(name@, email@, text_of(phone)) {
                Some(e) => r == Err::<Contact, ValidationError>(e),
                None => r is Ok && r->Ok_0@ == accepted(id@, name@, email@, text_of(phone))
                    && r->Ok_0@.is_valid(),
            },
    {
        match validate(name, email, phone) {
            Err(e) => Err(e),
            Ok(_) => Ok(Contact::assemble(id, name, email, phone)),
        }
    }

    /// The record of a candidate that passed validation.
    fn assemble(id: String, name: &str, email: &str, phone: Option<&str>) -> (c: Contact)
        requires
            validation_error(name@, email@, text_of(phone)) is None,
        ensures
            c@ == accepted(id@, name@, email@, text_of(phone)),
            c@.is_valid(),
    {
        proof {
            lemma_trimmed(name@);
            lemma_trimmed(email@);
            if phone is Some {
                lemma_trimmed(phone->0@);
            }
        }
        let stored_phone = match phone {
            Some(p) => Some(trim(p).to_owned()),
            None => None,
        };
        Contact {
            id,
            name: trim(name).to_owned(),
            email: trim(email).to_owned(),
            phone: stored_phone,
        }
    }

    /// Whether the two records hold the same identifier, name, email and
    /// phone number.
    pub fn same_as(&self, other: &Contact) -> (b: bool)
        ensures
            b == (self@ == other@),
    {
        let same_phone = match (&self.phone, &other.phone) {
            (Some(p), Some(q)) => *p == *q,
            (None, None) => true,
            _ => false,
        };
        self.id == other.id && self.name == other.name && self.email == other.email && same_phone
    }

    /// Whether the record answers a query already put in lower case.
    pub fn matches_lowered(&self, needle: &str) -> (b: bool)
        ensures
            b == self@.matches_lowered(needle@),
    {
        let name = to_lowercase(self.name.as_str());
        let email = to_lowercase(self.email.as_str());
        occurs_in_either(name.as_str(), email.as_str(), needle)
    }
}

/// Whether `needle` occurs in `name` or in `email`, the three compared as
/// they are.
pub fn occurs_in_either(name: &str, email: &str, needle: &str) -> (b: bool)
    ensures
        b == (has_substring(name@, needle@) || has_substring(email@, needle@)),
{
    contains(name, needle) || contains(email, needle)
}

/// A candidate whose name or email is empty or white space only is refused
/// as empty, whatever else holds of it.
pub proof fn lemma_blank_is_refused(name: Seq<char>, email: Seq<char>, phone: Option<Seq<char>>)
    requires
        is_all_white_space(name) || is_all_white_space(email),
    ensures
        validation_error(name, email, phone) == Some(ValidationError::EmptyNameOrEmail),
{
    lemma_blank(name);
    lemma_blank(email);
}

/// A candidate whose trimmed name, email or phone number has more
/// characters than its limit allows is refused.
pub proof fn lemma_too_long_is_refused(
    name: Seq<char>,
    email: Seq<char>,
    phone: Option<Seq<char>>,
)
    requires
        trimmed(name).len() > MAX_NAME_CHARS || trimmed(email).len() > MAX_EMAIL_CHARS || (
        phone is Some && trimmed(phone->0).len() > MAX_PHONE_CHARS),
    ensures
        validation_error(name, email, phone) is Some,
{
}

/// A candidate is accepted exactly when its trimmed name and email are not
/// empty and no trimmed field is over its limit; the record made of it
/// holds the three texts trimmed and keeps the limits of the data model.
pub proof fn lemma_accepted_is_valid(
    id: Seq<char>,
    name: Seq<char>,
    email: Seq<char>,
    phone: Option<Seq<char>>,
)
    ensures
        validation_error(name, email, phone) is None <==> {
            &&& 0 < trimmed(name).len() <= MAX_NAME_CHARS
            &&& 0 < trimmed(email).len() <= MAX_EMAIL_CHARS
            &&& phone matches Some(p) ==> trimmed(p).len() <= MAX_PHONE_CHARS
        },
        validation_error(name, email, phone) is None ==> accepted(
            id,
            name,
            email,
            phone,
        ).is_valid(),
{
    lemma_trimmed(name);
    lemma_trimmed(email);
    if phone is Some {
        lemma_trimmed(phone->0);
    }
}

/// White space around a text plays no part in the judgement: a candidate is
/// judged as its trimmed texts are, and becomes the record that they become.
pub proof fn lemma_judged_on_trimmed(
    id: Seq<char>,
    name: Seq<char>,
    email: Seq<char>,
    phone: Option<Seq<char>>,
)
    ensures
        validation_error(name, email, phone) == validation_error(
            trimmed(name),
            trimmed(email),
            trimmed_option(phone),
        ),
        accepted(id, name, email, phone) == accepted(
            id,
            trimmed(name),
            trimmed(email),
            trimmed_option(phone),
        ),
{
    lemma_trimmed_idempotent(name);
    lemma_trimmed_idempotent(email);
    if phone is Some {
        lemma_trimmed_idempotent(phone->0);
    }
}

} // verus!
