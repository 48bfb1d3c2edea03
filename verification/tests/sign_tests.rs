use unicorn_matrix::animation::{
    handle_matrix_animation, parse_matrix_states, process_matrix_animation, AnimationStep,
    MatrixAnimationData, MatrixAnimationTypes,
};
use unicorn_matrix::message::{decode_message, message_from_members};

#[test]
fn parse_each_state_name() {
    let cases = [
        ("\"text\"", MatrixAnimationTypes::Text),
        ("\"flashRed\"", MatrixAnimationTypes::FlashRed),
        ("\"flashGreen\"", MatrixAnimationTypes::FlashGreen),
        ("\"flashBlue\"", MatrixAnimationTypes::FlashBlue),
        ("\"flashWhite\"", MatrixAnimationTypes::FlashWhite),
        ("\"solidRed\"", MatrixAnimationTypes::SolidRed),
        ("\"solidGreen\"", MatrixAnimationTypes::SolidGreen),
        ("\"solidBlue\"", MatrixAnimationTypes::SolidBlue),
        ("\"solidWhite\"", MatrixAnimationTypes::SolidWhite),
        ("\"empty\"", MatrixAnimationTypes::Empty),
    ];
    for (name, kind) in cases {
        assert_eq!(parse_matrix_states(name.to_string()), kind);
    }
}

#[test]
fn unknown_state_names_select_empty() {
    assert_eq!(parse_matrix_states("text".to_string()), MatrixAnimationTypes::Empty);
    assert_eq!(parse_matrix_states("null".to_string()), MatrixAnimationTypes::Empty);
    assert_eq!(parse_matrix_states(String::new()), MatrixAnimationTypes::Empty);
    assert_eq!(parse_matrix_states("\"FlashRed\"".to_string()), MatrixAnimationTypes::Empty);
}

fn data(kind: MatrixAnimationTypes, text: &str) -> MatrixAnimationData {
    MatrixAnimationData { matrix_animation_state: kind, string_text: text.to_string() }
}

#[test]
fn animation_plans() {
    let hold = AnimationStep::Pause { millis: 300 };
    let dark = AnimationStep::Fill { red: 0, green: 0, blue: 0 };
    assert_eq!(
        process_matrix_animation(&data(MatrixAnimationTypes::Text, "hi")),
        vec![AnimationStep::ScrollText]
    );
    assert_eq!(
        process_matrix_animation(&data(MatrixAnimationTypes::FlashRed, "")),
        vec![AnimationStep::Fill { red: 200, green: 0, blue: 0 }, hold, dark]
    );
    assert_eq!(
        process_matrix_animation(&data(MatrixAnimationTypes::FlashWhite, "")),
        vec![AnimationStep::Fill { red: 90, green: 90, blue: 90 }, hold, dark]
    );
    assert_eq!(
        process_matrix_animation(&data(MatrixAnimationTypes::SolidGreen, "")),
        vec![AnimationStep::Fill { red: 0, green: 200, blue: 0 }, hold]
    );
    assert_eq!(
        process_matrix_animation(&data(MatrixAnimationTypes::SolidBlue, "")),
        vec![AnimationStep::Fill { red: 0, green: 0, blue: 200 }, hold]
    );
    assert_eq!(process_matrix_animation(&data(MatrixAnimationTypes::Empty, "")), vec![dark, hold]);
}

#[test]
fn animation_loop_keeps_selection_on_timeout() {
    let mut latest = MatrixAnimationData::new();
    assert_eq!(latest.matrix_animation_state, MatrixAnimationTypes::Text);
    assert_eq!(latest.string_text, "");
    let steps = handle_matrix_animation(&mut latest, Some(data(MatrixAnimationTypes::SolidRed, "x")));
    assert_eq!(latest.matrix_animation_state, MatrixAnimationTypes::SolidRed);
    assert_eq!(latest.string_text, "x");
    assert_eq!(steps[0], AnimationStep::Fill { red: 200, green: 0, blue: 0 });
    let again = handle_matrix_animation(&mut latest, None);
    assert_eq!(latest.matrix_animation_state, MatrixAnimationTypes::SolidRed);
    assert_eq!(latest.string_text, "x");
    assert_eq!(steps, again);
}

#[test]
fn decode_message_reads_state_and_text() {
    let d = decode_message(br#"{"state":"flashRed","str":"hello"}"#).unwrap();
    assert_eq!(d.matrix_animation_state, MatrixAnimationTypes::FlashRed);
    assert_eq!(d.string_text, "\"hello\"");
}

#[test]
fn decode_message_missing_members_render_null() {
    let d = decode_message(br#"{"state":"solidBlue"}"#).unwrap();
    assert_eq!(d.matrix_animation_state, MatrixAnimationTypes::SolidBlue);
    assert_eq!(d.string_text, "null");
    let e = decode_message(br#"{"str":"abc"}"#).unwrap();
    assert_eq!(e.matrix_animation_state, MatrixAnimationTypes::Empty);
    assert_eq!(e.string_text, "\"abc\"");
}

#[test]
fn decode_message_refuses_what_is_not_json() {
    assert!(decode_message(b"not json").is_none());
    assert!(decode_message(b"").is_none());
    assert!(decode_message(&[0xff, 0xfe, 0x7b]).is_none());
}

#[test]
fn members_build_the_selection() {
    let d = message_from_members(Some("\"solidWhite\"".to_string()), Some("\"a b\"".to_string())).unwrap();
    assert_eq!(d.matrix_animation_state, MatrixAnimationTypes::SolidWhite);
    assert_eq!(d.string_text, "\"a b\"");
    assert!(message_from_members(None, Some("x".to_string())).is_none());
    assert!(message_from_members(Some("x".to_string()), None).is_none());
}

#[test]
fn latest_message_repeats_over_turns() {
    let mut latest = MatrixAnimationData::new();
    let first = handle_matrix_animation(&mut latest, None);
    assert_eq!(first, vec![AnimationStep::ScrollText]);
    assert_eq!(latest.string_text, "");
    handle_matrix_animation(&mut latest, Some(data(MatrixAnimationTypes::FlashBlue, "a")));
    handle_matrix_animation(&mut latest, Some(data(MatrixAnimationTypes::SolidWhite, "b")));
    for _ in 0..3 {
        let steps = handle_matrix_animation(&mut latest, None);
        assert_eq!(latest.matrix_animation_state, MatrixAnimationTypes::SolidWhite);
        assert_eq!(latest.string_text, "b");
        assert_eq!(steps[0], AnimationStep::Fill { red: 90, green: 90, blue: 90 });
    }
}
