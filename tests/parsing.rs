use gif_capture::config::{get_binary_input_sequences, get_effective_key_mappings, BinaryConfig, CaptureConfig, ConfigSettings};
use gif_capture::keys::{
    default_button_a, default_button_l, parse_key, parse_raw_key, GbaKeyMappings, Key, SequenceError,
};
use gif_capture::sequence::{parse_input_sequence, InputAction};

fn defaults() -> GbaKeyMappings {
    GbaKeyMappings::default()
}

fn mappings_with_a(a: &str) -> GbaKeyMappings {
    let mut m = GbaKeyMappings::default();
    m.a = a.to_string();
    m
}

#[test]
fn sequence_with_hold_wait_and_click() {
    let actions = parse_input_sequence("A:500,wait:1000,B", &defaults()).unwrap();
    assert_eq!(
        actions,
        vec![
            InputAction::Press { key: Key::Unicode('x'), duration_ms: Some(500) },
            InputAction::Wait { duration_ms: 1000 },
            InputAction::Press { key: Key::Unicode('z'), duration_ms: None },
        ]
    );
}

#[test]
fn unknown_token_is_unsupported_key() {
    let r = parse_input_sequence("Q1:500", &defaults());
    assert_eq!(r, Err(SequenceError::UnsupportedKey("Q1".to_string())));
}

#[test]
fn bad_wait_duration_is_malformed() {
    let r = parse_input_sequence("wait:abc", &defaults());
    assert_eq!(r, Err(SequenceError::MalformedSequence("wait:abc".to_string())));
}

#[test]
fn bad_hold_duration_is_malformed() {
    let r = parse_input_sequence("A:-5", &defaults());
    assert_eq!(r, Err(SequenceError::MalformedSequence("A:-5".to_string())));
}

#[test]
fn duration_that_overflows_is_malformed() {
    let r = parse_input_sequence("wait:18446744073709551616", &defaults());
    assert_eq!(
        r,
        Err(SequenceError::MalformedSequence("wait:18446744073709551616".to_string()))
    );
    let ok = parse_input_sequence("wait:18446744073709551615", &defaults()).unwrap();
    assert_eq!(ok, vec![InputAction::Wait { duration_ms: u64::MAX }]);
}

#[test]
fn empty_and_blank_tokens_are_skipped() {
    assert_eq!(parse_input_sequence("", &defaults()).unwrap(), vec![]);
    let actions = parse_input_sequence(" , right ,, wait:+5 ,\u{3000}up\t", &defaults()).unwrap();
    assert_eq!(
        actions,
        vec![
            InputAction::Press { key: Key::RightArrow, duration_ms: None },
            InputAction::Wait { duration_ms: 5 },
            InputAction::Press { key: Key::UpArrow, duration_ms: None },
        ]
    );
}

#[test]
fn first_bad_token_wins() {
    let r = parse_input_sequence("A,nokey,wait:x", &defaults());
    assert_eq!(r, Err(SequenceError::UnsupportedKey("nokey".to_string())));
}

#[test]
fn symbolic_names_ignore_case_and_have_digit_aliases() {
    let m = defaults();
    assert_eq!(parse_key("a", &m), Ok(Key::Unicode('x')));
    assert_eq!(parse_key("0", &m), Ok(Key::Unicode('x')));
    assert_eq!(parse_key("e", &m), Ok(Key::Backspace));
    assert_eq!(parse_key("3", &m), Ok(Key::Return));
    assert_eq!(parse_key("U", &m), Ok(Key::UpArrow));
    assert_eq!(parse_key("9", &m), Ok(Key::Unicode('a')));
    assert_eq!(parse_key("i", &m), Ok(Key::Unicode('s')));
}

#[test]
fn symbolic_name_takes_priority_over_raw_key() {
    // "s" is the start button, mapped to enter, not the raw key s.
    assert_eq!(parse_key("s", &defaults()), Ok(Key::Return));
}

#[test]
fn raw_names_ignore_case() {
    assert_eq!(parse_raw_key("SPACE"), Ok(Key::Unicode(' ')));
    assert_eq!(parse_raw_key("Arrow_Left"), Ok(Key::LeftArrow));
    assert_eq!(parse_raw_key("ESC"), Ok(Key::Escape));
    assert_eq!(parse_raw_key("Control"), Ok(Key::Control));
    assert_eq!(parse_raw_key("Q"), Ok(Key::Unicode('q')));
    assert_eq!(parse_raw_key("tab"), Ok(Key::Tab));
    assert_eq!(parse_raw_key("shift"), Ok(Key::Shift));
    assert_eq!(parse_raw_key("alt"), Ok(Key::Alt));
    assert_eq!(parse_raw_key("return"), Ok(Key::Return));
    assert_eq!(parse_raw_key("7"), Ok(Key::Unicode('7')));
    assert_eq!(parse_raw_key("f1"), Err(SequenceError::UnsupportedKey("f1".to_string())));
}

#[test]
fn mapped_name_that_is_unknown_is_reported() {
    let m = mappings_with_a("hyper");
    assert_eq!(parse_key("A", &m), Err(SequenceError::UnsupportedKey("hyper".to_string())));
}

#[test]
fn default_mappings_are_the_builtin_ones() {
    let m = defaults();
    assert_eq!(m.a, "x");
    assert_eq!(m.b, "z");
    assert_eq!(m.select, "backspace");
    assert_eq!(m.start, "enter");
    assert_eq!(m.right, "right");
    assert_eq!(m.left, "left");
    assert_eq!(m.up, "up");
    assert_eq!(m.down, "down");
    assert_eq!(m.r_shoulder, "s");
    assert_eq!(m.l_shoulder, "a");
    assert_eq!(default_button_a(), "x");
    assert_eq!(default_button_l(), "a");
}

fn layered_config(target: Option<GbaKeyMappings>, global: Option<GbaKeyMappings>) -> CaptureConfig {
    CaptureConfig {
        settings: Some(ConfigSettings {
            key_mappings: global,
            default: Some(BinaryConfig {
                before_capture: Some("wait:1".to_string()),
                during_capture: None,
                key_mappings: None,
            }),
        }),
        binaries: Some(vec![(
            "game".to_string(),
            BinaryConfig {
                before_capture: Some("A".to_string()),
                during_capture: Some("B".to_string()),
                key_mappings: target,
            },
        )]),
    }
}

#[test]
fn key_mapping_precedence() {
    let all = Some(layered_config(Some(mappings_with_a("t")), Some(mappings_with_a("g"))));
    assert_eq!(get_effective_key_mappings("game", &all).a, "t");
    assert_eq!(get_effective_key_mappings("other", &all).a, "g");
    let global_only = Some(layered_config(None, Some(mappings_with_a("g"))));
    assert_eq!(get_effective_key_mappings("game", &global_only).a, "g");
    let none = Some(layered_config(None, None));
    assert_eq!(get_effective_key_mappings("game", &none).a, "x");
    assert_eq!(get_effective_key_mappings("game", &None).a, "x");
}

#[test]
fn input_sequence_precedence() {
    let c = Some(layered_config(None, None));
    assert_eq!(
        get_binary_input_sequences("game", &c, &None, &None),
        (Some("A".to_string()), Some("B".to_string()))
    );
    assert_eq!(
        get_binary_input_sequences("other", &c, &None, &None),
        (Some("wait:1".to_string()), None)
    );
    assert_eq!(
        get_binary_input_sequences("game", &c, &None, &Some("R".to_string())),
        (None, Some("R".to_string()))
    );
    assert_eq!(get_binary_input_sequences("game", &None, &None, &None), (None, None));
}
