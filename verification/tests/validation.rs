use contacts::contact::{
    occurs_in_either, validate, MAX_EMAIL_CHARS, MAX_NAME_CHARS, MAX_PHONE_CHARS,
};
use contacts::{Contact, ValidationError};

const WHITE_SPACE: [char; 25] = [
    '\u{0009}', '\u{000A}', '\u{000B}', '\u{000C}', '\u{000D}', '\u{0020}', '\u{0085}',
    '\u{00A0}', '\u{1680}', '\u{2000}', '\u{2001}', '\u{2002}', '\u{2003}', '\u{2004}',
    '\u{2005}', '\u{2006}', '\u{2007}', '\u{2008}', '\u{2009}', '\u{200A}', '\u{2028}',
    '\u{2029}', '\u{202F}', '\u{205F}', '\u{3000}',
];

#[test]
fn contact_validation() {
    assert!(Contact::new("", "a@b.com", None).is_err());
    assert!(Contact::new("Alice", "", None).is_err());
    let long_name = "x".repeat(201);
    assert!(Contact::new(&long_name, "a@b.com", None).is_err());
    let ok = Contact::new("Alice", "a@b.com", Some("1234")).unwrap();
    assert_eq!(ok.name, "Alice");
}

#[test]
fn empty_name_is_refused_as_empty() {
    let e = Contact::new("", "a@b.com", None).unwrap_err();
    assert_eq!(e, ValidationError::EmptyNameOrEmail);
}

#[test]
fn blank_name_is_refused_as_empty() {
    let e = Contact::new(" \t\r\n ", "a@b.com", None).unwrap_err();
    assert_eq!(e, ValidationError::EmptyNameOrEmail);
}

#[test]
fn empty_email_is_refused_as_empty() {
    let e = Contact::new("Alice", "", None).unwrap_err();
    assert_eq!(e, ValidationError::EmptyNameOrEmail);
}

#[test]
fn blank_email_is_refused_as_empty() {
    let e = Contact::new("Alice", "   ", Some("1")).unwrap_err();
    assert_eq!(e, ValidationError::EmptyNameOrEmail);
}

#[test]
fn every_white_space_character_counts_as_blank() {
    for c in WHITE_SPACE {
        let blank = c.to_string();
        assert_eq!(
            Contact::new(&blank, "a@b.com", None).unwrap_err(),
            ValidationError::EmptyNameOrEmail
        );
    }
}

#[test]
fn name_at_the_limit_is_accepted() {
    let name = "x".repeat(200);
    let c = Contact::new(&name, "a@b.com", None).unwrap();
    assert_eq!(c.name, name);
}

#[test]
fn name_over_the_limit_is_refused() {
    let name = "x".repeat(201);
    assert_eq!(
        Contact::new(&name, "a@b.com", None).unwrap_err(),
        ValidationError::NameTooLong
    );
}

#[test]
fn email_at_the_limit_is_accepted() {
    let email = "e".repeat(320);
    let c = Contact::new("Alice", &email, None).unwrap();
    assert_eq!(c.email, email);
}

#[test]
fn email_over_the_limit_is_refused() {
    let email = "e".repeat(321);
    assert_eq!(
        Contact::new("Alice", &email, None).unwrap_err(),
        ValidationError::EmailTooLong
    );
}

#[test]
fn phone_at_the_limit_is_accepted() {
    let phone = "5".repeat(50);
    let c = Contact::new("Alice", "a@b.com", Some(&phone)).unwrap();
    assert_eq!(c.phone, Some(phone));
}

#[test]
fn phone_over_the_limit_is_refused() {
    let phone = "5".repeat(51);
    assert_eq!(
        Contact::new("Alice", "a@b.com", Some(&phone)).unwrap_err(),
        ValidationError::PhoneTooLong
    );
}

#[test]
fn limits_have_their_values() {
    assert_eq!(MAX_NAME_CHARS, 200);
    assert_eq!(MAX_EMAIL_CHARS, 320);
    assert_eq!(MAX_PHONE_CHARS, 50);
}

#[test]
fn lengths_are_counted_in_characters() {
    let name = "é".repeat(200);
    assert!(name.len() > 200);
    let c = Contact::new(&name, "a@b.com", None).unwrap();
    assert_eq!(c.name, name);
    let longer = "é".repeat(201);
    assert_eq!(
        Contact::new(&longer, "a@b.com", None).unwrap_err(),
        ValidationError::NameTooLong
    );
}

#[test]
fn padded_name_at_the_limit_is_accepted() {
    let name = format!(" {} ", "x".repeat(200));
    assert_eq!(name.len(), 202);
    let c = Contact::new(&name, "a@b.com", None).unwrap();
    assert_eq!(c.name, "x".repeat(200));
}

#[test]
fn padded_name_over_the_limit_is_refused() {
    let name = format!(" {} ", "x".repeat(201));
    assert_eq!(
        Contact::new(&name, "a@b.com", None).unwrap_err(),
        ValidationError::NameTooLong
    );
}

#[test]
fn lengths_are_those_of_the_trimmed_texts() {
    let name = format!("{}Alice\t\n", " ".repeat(500));
    let email = format!("\u{3000}{}\u{2028}", "e".repeat(320));
    let phone = format!("  {}  ", "5".repeat(50));
    let c = Contact::new(&name, &email, Some(&phone)).unwrap();
    assert_eq!(c.name, "Alice");
    assert_eq!(c.email, "e".repeat(320));
    assert_eq!(c.phone, Some("5".repeat(50)));

    let email = format!(" {} ", "e".repeat(321));
    assert_eq!(
        Contact::new("Alice", &email, None).unwrap_err(),
        ValidationError::EmailTooLong
    );
    let phone = format!(" {} ", "5".repeat(51));
    assert_eq!(
        Contact::new("Alice", "a@b.com", Some(&phone)).unwrap_err(),
        ValidationError::PhoneTooLong
    );
    let blank_phone = " ".repeat(51);
    assert_eq!(
        Contact::new("Alice", "a@b.com", Some(&blank_phone)).unwrap().phone.as_deref(),
        Some("")
    );
}

#[test]
fn white_space_inside_a_text_counts() {
    let name = format!("{} {}", "x".repeat(100), "y".repeat(100));
    assert_eq!(
        Contact::new(&name, "a@b.com", None).unwrap_err(),
        ValidationError::NameTooLong
    );
}

#[test]
fn a_candidate_is_judged_as_its_trimmed_texts_are() {
    let cases = [
        ("  Alice ", " a@b.com", Some(" 1 ")),
        (" \t", "a@b.com", None),
        ("Alice", "\n", Some("1")),
    ];
    for (name, email, phone) in cases {
        assert_eq!(
            validate(name, email, phone),
            validate(name.trim(), email.trim(), phone.map(str::trim))
        );
    }
    let long = format!(" {} ", "x".repeat(201));
    assert_eq!(validate(&long, "a@b.com", None), validate(long.trim(), "a@b.com", None));
}

#[test]
fn the_same_candidate_is_accepted_every_time() {
    let name = format!(" {} ", "x".repeat(200));
    let a = Contact::new(&name, " a@b.com ", Some(" 1 ")).unwrap();
    let b = Contact::new(&name, " a@b.com ", Some(" 1 ")).unwrap();
    assert_ne!(a.id, b.id);
    assert_eq!(a.name, b.name);
    assert_eq!(a.email, b.email);
    assert_eq!(a.phone, b.phone);
}

#[test]
fn emptiness_is_judged_before_length() {
    let blank = " ".repeat(500);
    assert_eq!(
        Contact::new(&blank, "a@b.com", None).unwrap_err(),
        ValidationError::EmptyNameOrEmail
    );
    let long_name = "x".repeat(201);
    assert_eq!(
        Contact::new(&long_name, " ", None).unwrap_err(),
        ValidationError::EmptyNameOrEmail
    );
}

#[test]
fn name_is_judged_before_email_and_email_before_phone() {
    let long_name = "x".repeat(201);
    let long_email = "e".repeat(321);
    let long_phone = "5".repeat(51);
    assert_eq!(
        Contact::new(&long_name, &long_email, Some(&long_phone)).unwrap_err(),
        ValidationError::NameTooLong
    );
    assert_eq!(
        Contact::new("Alice", &long_email, Some(&long_phone)).unwrap_err(),
        ValidationError::EmailTooLong
    );
}

#[test]
fn accepted_fields_are_trimmed() {
    let c = Contact::new("  Alice Smith \n", "\ta@b.com ", Some(" 123 456  ")).unwrap();
    assert_eq!(c.name, "Alice Smith");
    assert_eq!(c.email, "a@b.com");
    assert_eq!(c.phone.as_deref(), Some("123 456"));
}

#[test]
fn every_white_space_character_is_trimmed() {
    let around: String = WHITE_SPACE.iter().collect();
    let name = format!("{around}Al ice{around}");
    let c = Contact::new(&name, "a@b.com", None).unwrap();
    assert_eq!(c.name, "Al ice");
}

#[test]
fn other_characters_are_not_trimmed() {
    for c in ['\u{200B}', '\u{180E}', '\u{FEFF}', '\u{001F}', '\u{0008}', '\u{000E}', '_'] {
        let name = format!("{c}Alice{c}");
        let made = Contact::new(&name, "a@b.com", None).unwrap();
        assert_eq!(made.name, name);
    }
}

#[test]
fn absent_phone_stays_absent() {
    let c = Contact::new("Alice", "a@b.com", None).unwrap();
    assert_eq!(c.phone, None);
}

#[test]
fn blank_phone_is_stored_empty() {
    let c = Contact::new("Alice", "a@b.com", Some("   ")).unwrap();
    assert_eq!(c.phone.as_deref(), Some(""));
}

#[test]
fn identifier_is_a_random_uuid_in_hyphenated_lower_case() {
    let c = Contact::new("Alice", "a@b.com", None).unwrap();
    let id: Vec<char> = c.id.chars().collect();
    assert_eq!(id.len(), 36);
    for (i, ch) in id.iter().enumerate() {
        if i == 8 || i == 13 || i == 18 || i == 23 {
            assert_eq!(*ch, '-');
        } else {
            assert!(matches!(*ch, '0'..='9' | 'a'..='f'));
        }
    }
    assert_eq!(id[14], '4');
    assert!(matches!(id[19], '8' | '9' | 'a' | 'b'));
    let parsed = uuid::Uuid::parse_str(&c.id).unwrap();
    assert_eq!(parsed.get_version_num(), 4);
}

#[test]
fn identifiers_differ_between_records() {
    let a = Contact::new("Alice", "a@b.com", None).unwrap();
    let b = Contact::new("Alice", "a@b.com", None).unwrap();
    assert_ne!(a.id, b.id);
}

#[test]
fn with_id_keeps_the_identifier_given() {
    let c = Contact::with_id("abc".to_string(), " Bob ", " bob@x.com ", Some(" 1 ")).unwrap();
    assert_eq!(c.id, "abc");
    assert_eq!(c.name, "Bob");
    assert_eq!(c.email, "bob@x.com");
    assert_eq!(c.phone.as_deref(), Some("1"));
}

#[test]
fn with_id_refuses_what_new_refuses() {
    assert_eq!(
        Contact::with_id("abc".to_string(), "", "bob@x.com", None).unwrap_err(),
        ValidationError::EmptyNameOrEmail
    );
    let long_phone = "5".repeat(51);
    assert_eq!(
        Contact::with_id("abc".to_string(), "Bob", "bob@x.com", Some(&long_phone)).unwrap_err(),
        ValidationError::PhoneTooLong
    );
}

#[test]
fn validate_names_the_first_broken_rule() {
    assert_eq!(validate("Alice", "a@b.com", Some("1")), Ok(()));
    assert_eq!(validate("Alice", "a@b.com", None), Ok(()));
    assert_eq!(validate(" ", "a@b.com", None), Err(ValidationError::EmptyNameOrEmail));
    assert_eq!(
        validate(&"x".repeat(201), "a@b.com", None),
        Err(ValidationError::NameTooLong)
    );
    assert_eq!(
        validate("Alice", &"x".repeat(321), None),
        Err(ValidationError::EmailTooLong)
    );
    assert_eq!(
        validate("Alice", "a@b.com", Some(&"1".repeat(51))),
        Err(ValidationError::PhoneTooLong)
    );
}

#[test]
fn refusals_have_their_messages() {
    assert_eq!(
        ValidationError::EmptyNameOrEmail.message(),
        "name and email must be non-empty"
    );
    assert_eq!(ValidationError::NameTooLong.message(), "name too long (max 200 chars)");
    assert_eq!(ValidationError::EmailTooLong.message(), "email too long (max 320 chars)");
    assert_eq!(ValidationError::PhoneTooLong.message(), "phone too long (max 50 chars)");
}

#[test]
fn clone_copies_every_field() {
    let c = Contact::with_id("id-1".to_string(), "Alice", "a@b.com", Some("12")).unwrap();
    let d = c.clone();
    assert_eq!(d.id, "id-1");
    assert_eq!(d.name, "Alice");
    assert_eq!(d.email, "a@b.com");
    assert_eq!(d.phone.as_deref(), Some("12"));
    let e = Contact::with_id("id-2".to_string(), "Bob", "b@b.com", None).unwrap().clone();
    assert_eq!(e.phone, None);
}

#[test]
fn matching_is_on_name_or_email_and_never_on_phone() {
    let c = Contact::with_id("id-1".to_string(), "Alice Smith", "AS@Example.com", Some("555"))
        .unwrap();
    assert!(c.matches_lowered("alice"));
    assert!(c.matches_lowered("e sm"));
    assert!(c.matches_lowered("as@example"));
    assert!(c.matches_lowered(""));
    assert!(!c.matches_lowered("555"));
    assert!(!c.matches_lowered("id-1"));
    assert!(!c.matches_lowered("bob"));
    assert!(!c.matches_lowered("Alice"));
}

#[test]
fn occurs_in_either_compares_texts_as_they_are() {
    assert!(occurs_in_either("alice smith", "as@x.com", "smith"));
    assert!(occurs_in_either("alice smith", "as@x.com", "@x."));
    assert!(occurs_in_either("alice smith", "as@x.com", ""));
    assert!(occurs_in_either("", "", ""));
    assert!(!occurs_in_either("alice smith", "as@x.com", "Smith"));
    assert!(!occurs_in_either("alice smith", "as@x.com", "smithas"));
    assert!(!occurs_in_either("ab", "cd", "abc"));
}

#[test]
fn white_space_is_exactly_the_unicode_property() {
    for code in 0..=0x10FFFF_u32 {
        let Some(c) = char::from_u32(code) else { continue };
        let blank =
            validate(&c.to_string(), "a@b.com", None) == Err(ValidationError::EmptyNameOrEmail);
        assert_eq!(blank, WHITE_SPACE.contains(&c), "U+{code:04X}");
    }
}
