//! Effect-specification parsing and text-helper behavior.

use sugoroku::area::{AreaEffect, EffectParseError, NoEffect, PushSelf, SkipSelf};
use sugoroku::area::try_get_key_value_list;
use sugoroku::preferences::Preferences;
use sugoroku::text::{
    parse_u8, parse_usize, remove_whitespace, split_char, split_lines, str_eq, usize_to_string,
};

#[test]
fn parse_skipself_description_mentions_times() {
    let effect = AreaEffect::from_str("SkipSelf: times=3").unwrap();
    match effect {
        AreaEffect::SkipSelf(SkipSelf { num_skip }) => assert_eq!(num_skip, 3),
        other => panic!("unexpected effect: {:?}", other),
    }
    let prefs: Preferences = Default::default();
    let text = effect.effect_text(&prefs);
    assert!(text.contains('3'));
    assert_eq!(text, "プレイヤーの休みを3回追加。");
}

#[test]
fn parse_skipself_duplicate_parameter() {
    let err = AreaEffect::from_str("SkipSelf: times=3, times=4").unwrap_err();
    assert_eq!(err, EffectParseError::DuplicateKey(String::from("times")));
}

#[test]
fn parse_skipself_wrong_parameter() {
    let err = AreaEffect::from_str("SkipSelf: turns=3").unwrap_err();
    assert_eq!(err, EffectParseError::WrongParameter(String::from("turns")));
}

#[test]
fn parse_goto_start() {
    let effect = AreaEffect::from_str("GoToStart:").unwrap();
    assert!(matches!(effect, AreaEffect::GoToStart(_)));
}

#[test]
fn parse_goto_start_rejects_parameters() {
    let err = AreaEffect::from_str("GoToStart: times=1").unwrap_err();
    assert_eq!(err, EffectParseError::UnexpectedParameters);
}

#[test]
fn parse_unknown_effect_name() {
    let err = AreaEffect::from_str("Teleport: num=2").unwrap_err();
    assert_eq!(err, EffectParseError::NotFoundAreaType(String::from("Teleport")));
}

#[test]
fn parse_requires_exactly_one_colon() {
    assert_eq!(AreaEffect::from_str("PushSelf").unwrap_err(), EffectParseError::Format);
    assert_eq!(AreaEffect::from_str("PushSelf: a=1: b=2").unwrap_err(), EffectParseError::Format);
}

#[test]
fn parse_is_whitespace_insensitive() {
    let effect = AreaEffect::from_str("  Push Self :  num =  4  ").unwrap();
    match effect {
        AreaEffect::PushSelf(PushSelf { num_step }) => assert_eq!(num_step, 4),
        other => panic!("unexpected effect: {:?}", other),
    }
}

#[test]
fn parse_every_numeric_variant() {
    assert!(matches!(
        AreaEffect::from_str("PushOthersAll: num=2").unwrap(),
        AreaEffect::PushOthersAll(_)
    ));
    assert!(matches!(
        AreaEffect::from_str("PullSelf: num=1").unwrap(),
        AreaEffect::PullSelf(_)
    ));
    assert!(matches!(
        AreaEffect::from_str("PullOthersAll: num=9").unwrap(),
        AreaEffect::PullOthersAll(_)
    ));
}

#[test]
fn parse_unparsable_value_names_the_format() {
    let err = AreaEffect::from_str("PushSelf: num=abc").unwrap_err();
    assert_eq!(
        err,
        EffectParseError::ParseParameter(
            String::from("num"),
            String::from("`PushSelf: num = <usize>`"),
        )
    );
    let err = AreaEffect::from_str("SkipSelf: times=256").unwrap_err();
    assert_eq!(
        err,
        EffectParseError::ParseParameter(
            String::from("times"),
            String::from("`SkipSelf: times = <u8>`"),
        )
    );
}

#[test]
fn parse_empty_parameter_blob_is_rejected() {
    let err = AreaEffect::from_str("SkipSelf:").unwrap_err();
    assert_eq!(err, EffectParseError::KeyValueFormat);
}

#[test]
fn key_value_list_in_order() {
    let pairs = try_get_key_value_list("a=1,b=2").unwrap();
    assert_eq!(pairs.len(), 2);
    assert_eq!(pairs[0], (String::from("a"), String::from("1")));
    assert_eq!(pairs[1], (String::from("b"), String::from("2")));
}

#[test]
fn key_value_list_rejects_duplicates_and_bad_pairs() {
    assert_eq!(
        try_get_key_value_list("a=1,a=2").unwrap_err(),
        EffectParseError::DuplicateKey(String::from("a"))
    );
    assert_eq!(try_get_key_value_list("a").unwrap_err(), EffectParseError::KeyValueFormat);
    assert_eq!(try_get_key_value_list("").unwrap_err(), EffectParseError::KeyValueFormat);
    assert_eq!(try_get_key_value_list("a=1=2").unwrap_err(), EffectParseError::KeyValueFormat);
}

#[test]
fn usize_rendering_exact() {
    assert_eq!(usize_to_string(0), "0");
    assert_eq!(usize_to_string(7), "7");
    assert_eq!(usize_to_string(10), "10");
    assert_eq!(usize_to_string(5090), "5090");
}

#[test]
fn parse_usize_behaves_like_std() {
    for input in ["0", "42", "+42", "18446744073709551615", "", "12a", "a12", "-3", "99999999999999999999"]
    {
        assert_eq!(parse_usize(input), input.parse::<usize>().ok(), "input {:?}", input);
    }
}

#[test]
fn parse_u8_behaves_like_std() {
    for input in ["0", "255", "256", "+7", "", "x"] {
        assert_eq!(parse_u8(input), input.parse::<u8>().ok(), "input {:?}", input);
    }
}

#[test]
fn whitespace_removal_covers_unicode() {
    assert_eq!(remove_whitespace(" a b\tc\nd "), "abcd");
    assert_eq!(remove_whitespace("а\u{3000}б"), "аб");
    assert_eq!(remove_whitespace(""), "");
}

#[test]
fn split_behaviour() {
    let parts = split_char("a:b:c", ':');
    assert_eq!(parts, vec!["a", "b", "c"]);
    assert_eq!(split_char("", ':'), vec![""]);
    assert_eq!(split_char("x:", ':'), vec!["x", ""]);
    assert_eq!(split_lines("a\nb\n"), vec!["a", "b"]);
    assert_eq!(split_lines("a\r\nb"), vec!["a", "b"]);
    assert_eq!(split_lines(""), Vec::<String>::new());
}

#[test]
fn str_eq_is_character_equality() {
    assert!(str_eq("こんにちは", "こんにちは"));
    assert!(!str_eq("abc", "abd"));
    assert!(!str_eq("abc", "ab"));
}

#[test]
fn no_effect_constructor() {
    let effect = AreaEffect::NoEffect(NoEffect::new());
    let prefs: Preferences = Default::default();
    assert_eq!(effect.effect_text(&prefs), "なし");
    assert!(!effect.need_argument());
}
