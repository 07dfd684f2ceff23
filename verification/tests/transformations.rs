use slugomatic::input::resolve_input;
use slugomatic::input::InputError;
use slugomatic::process;
use slugomatic::shape::shape_case;
use slugomatic::shape::title_case;
use slugomatic::shape::Shaping;
use slugomatic::slug::slugify;
use slugomatic::slug::unslugify;
use slugomatic::transform;
use slugomatic::Mode;

#[test]
fn slugify_hello_world() {
    assert_eq!(slugify("Hello World!"), "Hello-World");
}

#[test]
fn unslugify_feature_branch() {
    assert_eq!(unslugify("my-feature-branch"), "my feature branch");
}

#[test]
fn slugify_uppercase_some_text() {
    assert_eq!(process("Some Text", Mode::Slugify, Shaping::Uppercase), "SOME-TEXT");
}

#[test]
fn whitespace_only_input_is_rejected() {
    assert_eq!(resolve_input(Some("  ".to_string()), None), Err(InputError::EmptyInput));
    assert_eq!(resolve_input(None, Some("  ".to_string())), Err(InputError::EmptyInput));
    assert_eq!(resolve_input(Some(String::new()), None), Err(InputError::EmptyInput));
}

#[test]
fn empty_stdin_is_rejected() {
    assert_eq!(resolve_input(None, Some(String::new())), Err(InputError::NoInput));
    assert_eq!(resolve_input(None, None), Err(InputError::NoInput));
}

#[test]
fn stdin_loses_trailing_line_terminators() {
    assert_eq!(resolve_input(None, Some("hello\n".to_string())), Ok("hello".to_string()));
    assert_eq!(resolve_input(None, Some("hello\r\n\n".to_string())), Ok("hello".to_string()));
    assert_eq!(
        resolve_input(None, Some("hello\nworld\n".to_string())),
        Ok("hello\nworld".to_string())
    );
}

#[test]
fn argument_is_taken_verbatim() {
    assert_eq!(resolve_input(Some("hello\n".to_string()), None), Ok("hello\n".to_string()));
    assert_eq!(
        resolve_input(Some(" padded ".to_string()), Some("ignored".to_string())),
        Ok(" padded ".to_string())
    );
}

#[test]
fn slug_round_trip_on_slug_form() {
    assert_eq!(slugify(&unslugify("my-feature-branch")), "my-feature-branch");
    assert_eq!(slugify(&unslugify("a")), "a");
    assert_eq!(slugify(&unslugify("snake_case_2024")), "snake_case_2024");
}

#[test]
fn round_trip_fails_outside_slug_form() {
    // Doubled hyphens collapse on the way back, so the round trip is only
    // promised for single hyphens.
    assert_eq!(slugify(&unslugify("a--b")), "a-b");
}

#[test]
fn slug_has_no_whitespace() {
    let out = slugify("  a\tb\u{3000}c \r\n d  ");
    assert!(!out.chars().any(|c| c.is_whitespace()));
    assert_eq!(out, "a-b-c-d");
}

#[test]
fn slug_holds_only_word_characters_and_hyphens() {
    let out = slugify(" h\u{e9}llo, w\u{f6}rld! (2024) [ok] ");
    assert!(out.chars().all(|c| c.is_alphanumeric() || c == '_' || c == '-'));
    assert_eq!(out, "h\u{e9}llo-w\u{f6}rld-2024-ok");
}

#[test]
fn slugify_keeps_existing_hyphens_inside_tokens() {
    assert_eq!(slugify("--a--b--"), "--a--b--");
    assert_eq!(slugify("pre-built binaries"), "pre-built-binaries");
}

#[test]
fn slugify_can_strip_everything() {
    assert_eq!(slugify("!!!"), "");
    assert_eq!(slugify(""), "");
    assert_eq!(slugify("   "), "");
}

#[test]
fn unslugify_is_a_pure_substitution() {
    assert_eq!(unslugify("a--b"), "a  b");
    assert_eq!(unslugify(""), "");
    assert_eq!(unslugify("-"), " ");
    for s in ["a--b", "", "-", "no hyphens here", "x-y-z"] {
        assert_eq!(unslugify(s).chars().count(), s.chars().count());
    }
}

#[test]
fn title_case_capitalizes_tokens() {
    assert_eq!(title_case("hELLo wOrLD"), "Hello World");
    assert_eq!(title_case("  spaced \t out  "), "Spaced Out");
    assert_eq!(title_case(""), "");
}

#[test]
fn title_case_is_idempotent() {
    for s in ["hELLo wOrLD", "  a  b ", "stra\u{df}e here", "one"] {
        let once = title_case(s);
        assert_eq!(title_case(&once), once);
    }
}

#[test]
fn lowercase_and_uppercase_are_idempotent() {
    for s in ["MiXeD Case-Text", "STRA\u{df}E", "\u{130}stanbul"] {
        let low = shape_case(s, Shaping::Lowercase);
        assert_eq!(shape_case(&low, Shaping::Lowercase), low);
        let up = shape_case(s, Shaping::Uppercase);
        assert_eq!(shape_case(&up, Shaping::Uppercase), up);
    }
}

#[test]
fn shape_case_preserve_returns_input() {
    assert_eq!(shape_case("MiXeD-CaSe", Shaping::Preserve), "MiXeD-CaSe");
}

#[test]
fn shape_case_folds_full_unicode() {
    assert_eq!(shape_case("stra\u{df}e", Shaping::Uppercase), "STRASSE");
    assert_eq!(shape_case("HELLO", Shaping::Lowercase), "hello");
}

#[test]
fn transform_selects_mode() {
    assert_eq!(transform("Hello World", Mode::Slugify), "Hello-World");
    assert_eq!(transform("a-b", Mode::Unslugify), "a b");
}

#[test]
fn process_runs_transform_then_shaping() {
    assert_eq!(process("Hello World", Mode::Slugify, Shaping::Lowercase), "hello-world");
    assert_eq!(process("My-Branch", Mode::Unslugify, Shaping::Titlecase), "My Branch");
    assert_eq!(process("Hello World", Mode::Slugify, Shaping::Preserve), "Hello-World");
}
