use base64::Engine;
use clowbot::custom_id::CustomId;
use clowbot::data::Data;
use clowbot::interaction::{Interaction, InteractionData};

fn name_of(id: &CustomId) -> &str {
    match id {
        CustomId::ButtonClowcardInfo(n) => n,
    }
}

#[test]
fn token_round_trip() {
    for name in ["Fly", "", "Windy", "Ánh sáng", &"x".repeat(300), &"é".repeat(40000)] {
        let token = CustomId::ButtonClowcardInfo(name.to_string()).to_token();
        assert_ne!(token, name);
        let back = CustomId::from_token(&token).unwrap();
        assert_eq!(name_of(&back), name);
    }
}

#[test]
fn token_matches_bincode_layout() {
    for name in ["Fly", &"y".repeat(260)] {
        let bytes = bincode::serde::encode_to_vec((0u32, name), bincode::config::standard()).unwrap();
        let expected = base64::engine::general_purpose::URL_SAFE_NO_PAD.encode(bytes);
        assert_eq!(CustomId::ButtonClowcardInfo(name.to_string()).to_token(), expected);
    }
    assert_eq!(CustomId::ButtonClowcardInfo("Fly".to_string()).to_token(), "AANGbHk");
}

#[test]
fn foreign_tokens_are_refused() {
    assert!(CustomId::from_token("not base64!").is_none());
    assert!(CustomId::from_token("AQNGbHk").is_none());
    assert!(CustomId::from_token("AARGbHk").is_none());
    assert!(CustomId::from_token("").is_none());
}

#[test]
fn component_reads_card_name() {
    let token = CustomId::ButtonClowcardInfo("Shadow".to_string()).to_token();
    let itr = Interaction { author: Some(3), data: Some(InteractionData::MessageComponent { custom_id: token }) };
    match Data::from_interaction(&itr) {
        Data::ClowCardInfo(c) => assert_eq!(c.name, "Shadow"),
        _ => panic!("expected card info"),
    }
    match Data::from_component("%%%") {
        Data::Error(e) => assert_eq!(e.error, "invalid component id"),
        _ => panic!("expected an error"),
    }
}
