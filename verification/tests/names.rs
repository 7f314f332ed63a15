use rudder::error::ScaffoldError;
use rudder::name::{
    ascii_uppercase, is_acceptable, is_forbidden_char, name_forms, normalize, with_first_replaced,
    StringTrait,
};
use rudder::text::{is_whitespace, join, split, trim};

#[test]
fn pascal_case_capitalizes_every_segment() {
    assert_eq!("user_profile".to_string().to_pascal_case(), "UserProfile");
    assert_eq!("home".to_string().to_pascal_case(), "Home");
    assert_eq!("a_b_c".to_string().to_pascal_case(), "ABC");
}

#[test]
fn pascal_case_leaves_the_rest_of_a_segment() {
    assert_eq!("userProfile_pAGE".to_string().to_pascal_case(), "UserProfilePAGE");
    assert_eq!("2fa_login".to_string().to_pascal_case(), "2faLogin");
}

#[test]
fn pascal_case_drops_every_underscore() {
    assert_eq!("__user__profile__".to_string().to_pascal_case(), "UserProfile");
    assert_eq!("___".to_string().to_pascal_case(), "");
    assert_eq!("".to_string().to_pascal_case(), "");
}

#[test]
fn pascal_case_is_ascii_only() {
    assert_eq!("\u{e9}clair_\u{e0}_la".to_string().to_pascal_case(), "\u{e9}clair\u{e0}La");
}

#[test]
fn pascal_case_twice_is_pascal_case_once() {
    for name in ["user_profile", "home", "_x_", "a__b", "Already", "", "x_\u{e9}"] {
        let once = name.to_string().to_pascal_case();
        assert_eq!(once.clone().to_pascal_case(), once);
    }
}

#[test]
fn capitalize_changes_the_first_character_only() {
    assert_eq!("home".to_string().capitalize(), "Home");
    assert_eq!("user_profile".to_string().capitalize(), "User_profile");
    assert_eq!("Home".to_string().capitalize(), "Home");
    assert_eq!("hOME".to_string().capitalize(), "HOME");
    assert_eq!("".to_string().capitalize(), "");
}

#[test]
fn capitalize_follows_unicode() {
    assert_eq!("\u{e9}clair".to_string().capitalize(), "\u{c9}clair");
    assert_eq!("\u{df}x".to_string().capitalize(), "SSx");
}

#[test]
fn first_character_is_replaced() {
    assert_eq!(with_first_replaced("home", "HH"), "HHome");
    assert_eq!(with_first_replaced("h", ""), "");
    assert_eq!(with_first_replaced("", "H"), "");
}

#[test]
fn ascii_uppercase_touches_ascii_letters_only() {
    assert_eq!(ascii_uppercase('a'), 'A');
    assert_eq!(ascii_uppercase('z'), 'Z');
    assert_eq!(ascii_uppercase('A'), 'A');
    assert_eq!(ascii_uppercase('`'), '`');
    assert_eq!(ascii_uppercase('{'), '{');
    assert_eq!(ascii_uppercase('_'), '_');
    assert_eq!(ascii_uppercase('\u{e9}'), '\u{e9}');
    for c in ['a', 'm', 'z', 'Q', '0', '-', '\u{df}'] {
        assert_eq!(ascii_uppercase(c), c.to_ascii_uppercase());
    }
}

#[test]
fn whitespace_is_what_the_standard_library_calls_whitespace() {
    let mut code: u32 = 0;
    while code <= 0x3100 {
        if let Some(c) = char::from_u32(code) {
            assert_eq!(is_whitespace(c), c.is_whitespace(), "U+{:04X}", code);
        }
        code += 1;
    }
    assert!(!is_whitespace('\u{180e}'));
    assert!(!is_whitespace('\u{200b}'));
    assert!(!is_whitespace('\u{feff}'));
}

#[test]
fn trim_removes_whitespace_at_both_ends() {
    assert_eq!(trim("  home \n"), "home");
    assert_eq!(trim("home"), "home");
    assert_eq!(trim("\thome page\r\n"), "home page");
    assert_eq!(trim("\u{a0}home\u{3000}"), "home");
    assert_eq!(trim(""), "");
    assert_eq!(trim(" \t\n "), "");
    assert_eq!(trim(" a"), "a");
    assert_eq!(trim("a "), "a");
}

#[test]
fn trim_agrees_with_the_standard_library() {
    for text in ["", " ", "a", " a b ", "\n\n", "\u{2003}x\u{2003}y\u{2003}", "x\u{200b} "] {
        assert_eq!(trim(text), text.trim());
    }
}

#[test]
fn split_cuts_at_every_separator() {
    assert_eq!(split("home,profile", ','), vec!["home", "profile"]);
    assert_eq!(split("home, profile", ','), vec!["home", " profile"]);
    assert_eq!(split("home", ','), vec!["home"]);
    assert_eq!(split("", ','), vec![""]);
    assert_eq!(split(",", ','), vec!["", ""]);
    assert_eq!(split("a,,b,", ','), vec!["a", "", "b", ""]);
    assert_eq!(split("user_profile", '_'), vec!["user", "profile"]);
}

#[test]
fn split_agrees_with_the_standard_library() {
    for text in ["", ",", "a", "a,b", ",a,", "a,,", ",,,", "home, profile ,settings"] {
        let expected: Vec<String> = text.split(',').map(|piece| piece.to_string()).collect();
        assert_eq!(split(text, ','), expected);
    }
}

#[test]
fn join_puts_the_separator_between_words() {
    assert_eq!(join(&vec!["a", "b", "c"], " "), "a b c");
    assert_eq!(join(&vec!["a"], ", "), "a");
    assert_eq!(join(&Vec::new(), ", "), "");
    assert_eq!(join(&vec!["", ""], "-"), "-");
    assert_eq!(join(&vec!["a", "b"], ""), "ab");
}

#[test]
fn forbidden_characters() {
    for c in ['"', '/', '\\', ':', '*', '?', '<', '>', '|', '\0', '\n', '\t', '\u{1f}'] {
        assert!(is_forbidden_char(c), "{:?}", c);
    }
    for c in ['a', 'Z', '0', '_', '-', '.', ' ', ',', '\'', '\u{7f}', '\u{e9}'] {
        assert!(!is_forbidden_char(c), "{:?}", c);
    }
}

#[test]
fn texts_that_make_a_name() {
    for name in ["home", "user_profile", "_x", "my feature", ".hidden", "-", "._", "._.", "...", " a", "a ", "_ "] {
        assert!(is_acceptable(name), "{:?}", name);
    }
}

#[test]
fn texts_that_make_no_name() {
    for name in ["", " ", " \t", "_", "___", ".", "..", "\"home\"", "a/b", "a\\b", "a:b", "a\nb", "\ta"] {
        assert!(!is_acceptable(name), "{:?}", name);
    }
}

#[test]
fn forms_of_a_name_as_it_is() {
    let name = name_forms(" a").unwrap();
    assert_eq!(name.name, " a");
    assert_eq!(name.title, " a");
    assert_eq!(name.lower, " a");
    let name = name_forms("user_profile").unwrap();
    assert_eq!(name.name, "user_profile");
    assert_eq!(name.title, "UserProfile");
    assert_eq!(name.lower, "userprofile");
    assert_eq!(name_forms(" ").err(), Some(ScaffoldError::InvalidName));
    assert_eq!(name_forms("..").err(), Some(ScaffoldError::InvalidName));
}

#[test]
fn title_is_capitalized_as_unicode_has_it() {
    let name = normalize("\u{e9}clair").unwrap();
    assert_eq!(name.name, "\u{e9}clair");
    assert_eq!(name.title, "\u{c9}clair");
    assert_eq!(name.lower, "\u{e9}clair");
    let name = normalize("\u{df}x").unwrap();
    assert_eq!(name.title, "SSx");
    assert_eq!(name.lower, "ssx");
    let name = normalize("_\u{e0}_la").unwrap();
    assert_eq!(name.title, "\u{c0}La");
    assert_eq!(name.lower, "\u{e0}la");
}

#[test]
fn normalize_gives_the_three_forms() {
    let name = normalize("user_profile").unwrap();
    assert_eq!(name.name, "user_profile");
    assert_eq!(name.title, "UserProfile");
    assert_eq!(name.lower, "userprofile");
}

#[test]
fn normalize_trims_first() {
    let name = normalize("  home\n").unwrap();
    assert_eq!(name.name, "home");
    assert_eq!(name.title, "Home");
    assert_eq!(name.lower, "home");
}

#[test]
fn normalize_lowers_the_title() {
    let name = normalize("HOME").unwrap();
    assert_eq!(name.name, "HOME");
    assert_eq!(name.title, "HOME");
    assert_eq!(name.lower, "home");
    let name = normalize("\u{c9}t\u{c9}").unwrap();
    assert_eq!(name.lower, "\u{e9}t\u{e9}");
}

#[test]
fn normalize_is_deterministic() {
    let first = normalize("user_profile").unwrap();
    let second = normalize("user_profile").unwrap();
    assert_eq!(first.name, second.name);
    assert_eq!(first.title, second.title);
    assert_eq!(first.lower, second.lower);
}

#[test]
fn normalize_of_a_title_gives_the_title() {
    for raw in ["user_profile", "home", " settings ", "a_b_c", "Already", "x_\u{e9}", "\u{e9}clair", "\u{df}x"] {
        let first = normalize(raw).unwrap();
        let second = normalize(first.title.as_str()).unwrap();
        assert_eq!(second.name, first.title);
        assert_eq!(second.title, first.title);
        assert_eq!(second.lower, first.lower);
    }
}

#[test]
fn normalize_of_a_title_with_a_blank_end_changes_it() {
    let first = normalize("_ a").unwrap();
    assert_eq!(first.title, " a");
    let second = normalize(first.title.as_str()).unwrap();
    assert_eq!(second.title, "A");
}

#[test]
fn empty_name_is_rejected() {
    assert_eq!(normalize("").err(), Some(ScaffoldError::InvalidName));
}

#[test]
fn whitespace_only_name_is_rejected() {
    assert_eq!(normalize(" ").err(), Some(ScaffoldError::InvalidName));
    assert_eq!(normalize(" \t\r\n").err(), Some(ScaffoldError::InvalidName));
    assert_eq!(normalize("\u{a0}\u{2003}").err(), Some(ScaffoldError::InvalidName));
}

#[test]
fn name_with_a_forbidden_character_is_rejected() {
    assert_eq!(normalize("\"home\"").err(), Some(ScaffoldError::InvalidName));
    assert_eq!(normalize("a/b").err(), Some(ScaffoldError::InvalidName));
    assert_eq!(normalize("..\\x").err(), Some(ScaffoldError::InvalidName));
    assert_eq!(normalize("a\0b").err(), Some(ScaffoldError::InvalidName));
}

#[test]
fn name_of_underscores_is_rejected() {
    assert_eq!(normalize("_").err(), Some(ScaffoldError::InvalidName));
    assert_eq!(normalize(" __ ").err(), Some(ScaffoldError::InvalidName));
}

#[test]
fn the_two_names_of_dots_are_rejected() {
    assert_eq!(normalize(".").err(), Some(ScaffoldError::InvalidName));
    assert_eq!(normalize("..").err(), Some(ScaffoldError::InvalidName));
    assert_eq!(normalize(" .. ").err(), Some(ScaffoldError::InvalidName));
}

#[test]
fn other_names_of_dots_and_underscores_are_accepted() {
    let name = normalize("._").unwrap();
    assert_eq!(name.name, "._");
    assert_eq!(name.title, ".");
    assert_eq!(normalize("_.").unwrap().title, ".");
    assert_eq!(normalize("...").unwrap().title, "...");
    assert!(normalize(".env").is_ok());
}

#[test]
fn normalize_of_a_title_of_dots_fails() {
    let first = normalize("_.").unwrap();
    assert_eq!(normalize(first.title.as_str()).err(), Some(ScaffoldError::InvalidName));
}

#[test]
fn title_of_an_accepted_name_is_never_empty() {
    for raw in ["a", "_a", "a_", " x ", "1", "-", "._x"] {
        let name = normalize(raw).unwrap();
        assert!(!name.title.is_empty());
        assert!(!name.title.contains('_'));
    }
}

#[test]
fn error_messages() {
    assert_eq!(
        ScaffoldError::AlreadyExists.message("lib/src folder"),
        "**lib/src folder already exists. Please delete the folder and try again.**"
    );
    assert_eq!(
        ScaffoldError::InvalidName.message("a/b"),
        "Invalid name: 'a/b'. A name must not be blank, `.` or `..`, and must hold a character other than `_` and none of \" / \\ : * ? < > | nor a control character."
    );
    assert_eq!(
        ScaffoldError::Io.message("create the folder lib/src"),
        "Unable to create the folder lib/src"
    );
    assert_eq!(
        ScaffoldError::ProcessLaunch.message("flutter pub add intl"),
        "Failed to run `flutter pub add intl`"
    );
}
