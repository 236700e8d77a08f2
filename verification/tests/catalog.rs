use salut::catalog::{
    unsupported_language_message, unsupported_profanity_message, GreetError, GreetingData,
};
use salut::decimal::u8_to_dec;
use salut::subst::substitute;

#[test]
fn test_greeting_data_load() {
    let data = GreetingData::load().unwrap();
    assert!(data.has_language("en"));
    assert!(data.has_language("fr"));
    assert!(data.has_language("es"));
    assert!(data.has_language("de"));
}

#[test]
fn test_get_greeting() {
    let data = GreetingData::load().unwrap();

    let greeting = data.get_greeting("en", 0, "Alice").unwrap();
    assert_eq!(greeting, "Hello Alice!");

    let greeting = data.get_greeting("fr", 1, "Bob").unwrap();
    assert_eq!(greeting, "Salut Bob! Putain!");

    let greeting = data.get_greeting("es", 2, "Carol").unwrap();
    assert_eq!(greeting, "Hola Carol y que te jodan!");
}

#[test]
fn test_invalid_language() {
    let data = GreetingData::load().unwrap();
    let result = data.get_greeting("it", 0, "Alice");
    assert!(result.is_err());
}

#[test]
fn test_invalid_profanity() {
    let data = GreetingData::load().unwrap();
    let result = data.get_greeting("en", 3, "Alice");
    assert!(result.is_err());
}

#[test]
fn test_every_language_has_every_level() {
    let data = GreetingData::load().unwrap();
    for language in ["en", "fr", "es", "de"] {
        for level in 0..3u8 {
            assert!(data.get_greeting(language, level, "X").is_ok());
        }
    }
}

#[test]
fn test_error_variants() {
    let data = GreetingData::load().unwrap();
    assert_eq!(
        data.get_greeting("it", 0, "Alice").unwrap_err(),
        GreetError::UnsupportedLanguage
    );
    assert_eq!(
        data.get_greeting("en", 3, "Alice").unwrap_err(),
        GreetError::UnsupportedProfanityLevel
    );
}

#[test]
fn test_resolve_idempotent() {
    let data = GreetingData::load().unwrap();
    let first = data.get_greeting("fr", 2, "Maria").unwrap();
    let second = data.get_greeting("fr", 2, "Maria").unwrap();
    assert_eq!(first, second);
}

#[test]
fn test_substitute_verbatim() {
    assert_eq!(substitute("Hello {name}!", "Alice"), "Hello Alice!");
    assert_eq!(substitute("{name} says hi", "Ann"), "Ann says hi");
    assert_eq!(substitute("no token here", "Ann"), "no token here");
    assert_eq!(substitute("{name}{name}", "ab"), "abab");
    assert_eq!(substitute("x{nam{name}", "Y"), "x{namY");
}

#[test]
fn test_name_with_braces_passes_through() {
    let data = GreetingData::load().unwrap();
    let greeting = data.get_greeting("en", 0, "{name}").unwrap();
    assert_eq!(greeting, "Hello {name}!");
}

#[test]
fn test_u8_to_dec() {
    assert_eq!(u8_to_dec(0), "0");
    assert_eq!(u8_to_dec(2), "2");
    assert_eq!(u8_to_dec(7), "7");
    assert_eq!(u8_to_dec(10), "10");
    assert_eq!(u8_to_dec(42), "42");
    assert_eq!(u8_to_dec(100), "100");
    assert_eq!(u8_to_dec(255), "255");
}

#[test]
fn test_error_messages() {
    assert_eq!(
        unsupported_language_message("it"),
        "Language 'it' not supported. Available: en, fr, es, de"
    );
    assert_eq!(
        unsupported_profanity_message(3),
        "Profanity level '3' not supported. Use 0-2"
    );
}

#[test]
fn test_from_entries_duplicate_language() {
    let entries = vec![
        (
            String::from("en"),
            vec![(String::from("0"), String::from("Hello {name}!"))],
        ),
        (
            String::from("en"),
            vec![(String::from("0"), String::from("Hi {name}!"))],
        ),
    ];
    assert!(GreetingData::from_entries(entries).is_err());
}

#[test]
fn test_from_entries_duplicate_level() {
    let entries = vec![(
        String::from("en"),
        vec![
            (String::from("0"), String::from("Hello {name}!")),
            (String::from("0"), String::from("Hi {name}!")),
        ],
    )];
    assert!(GreetingData::from_entries(entries).is_err());
}

#[test]
fn test_from_entries_lookup() {
    let entries = vec![(
        String::from("nl"),
        vec![(String::from("0"), String::from("Hoi {name}!"))],
    )];
    let data = GreetingData::from_entries(entries).unwrap();
    assert_eq!(data.get_greeting("nl", 0, "Jan").unwrap(), "Hoi Jan!");
    assert_eq!(
        data.get_greeting("nl", 1, "Jan").unwrap_err(),
        GreetError::UnsupportedProfanityLevel
    );
}
