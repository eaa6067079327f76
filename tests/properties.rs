use morrobroom::game_object::{
    collect_biped_objects, collect_effects, find_prop, get_color, get_prop, split_words,
    EffectRecord,
};
use morrobroom::material::{
    mat_props_from, BrushAlphaTestFunction, BrushDestinationBlendMode, BrushNiAlphaProps,
    BrushNoSort, BrushSourceBlendMode, BrushUseAlpha,
};
use morrobroom::number::{chars_of, read_i32, read_u8};

fn props(pairs: &[(&str, &str)]) -> Vec<(String, String)> {
    pairs
        .iter()
        .map(|(k, v)| (k.to_string(), v.to_string()))
        .collect()
}

#[test]
fn property_lookup() {
    let p = props(&[("Name", "Door"), ("Script", "open")]);
    assert_eq!(get_prop("Script", &p), "open");
    assert_eq!(get_prop("Missing", &p), "");
}

#[test]
fn colors() {
    assert_eq!(get_color("255 128 0"), Some([255, 128, 0, 255]));
    assert_eq!(get_color("10 20 30 40"), Some([10, 20, 30, 40]));
    assert_eq!(get_color("  abc 300\t7 "), Some([0, 0, 7, 7]));
    assert_eq!(get_color(""), Some([0, 0, 0, 0]));
    assert_eq!(get_color("1 2 3 4 5"), None);
}

#[test]
fn words_split_on_whitespace() {
    let w = split_words(" a  bc\td ");
    let w: Vec<String> = w.iter().map(|v| v.iter().collect()).collect();
    assert_eq!(w, vec!["a", "bc", "d"]);
}

#[test]
fn decimal_reading() {
    assert_eq!(read_u8(&chars_of("255")), Some(255));
    assert_eq!(read_u8(&chars_of("+7")), Some(7));
    assert_eq!(read_u8(&chars_of("256")), None);
    assert_eq!(read_u8(&chars_of("+")), None);
    assert_eq!(read_u8(&chars_of("-1")), None);
    assert_eq!(read_i32("-2147483648"), Some(i32::MIN));
    assert_eq!(read_i32("2147483647"), Some(i32::MAX));
    assert_eq!(read_i32("2147483648"), None);
    assert_eq!(read_i32("-"), None);
    assert_eq!(read_i32("12a"), None);
}

#[test]
fn settings_parse_with_fallback() {
    assert_eq!(BrushUseAlpha::parse("512"), Some(BrushUseAlpha::TestEnable));
    assert_eq!(BrushUseAlpha::parse("1"), Some(BrushUseAlpha::BlendEnable));
    assert_eq!(BrushUseAlpha::parse("7"), Some(BrushUseAlpha::TestEnable));
    assert_eq!(BrushUseAlpha::parse("on"), None);
    assert_eq!(BrushNoSort::parse("8196"), Some(BrushNoSort::ON));
    assert_eq!(
        BrushSourceBlendMode::parse("6"),
        Some(BrushSourceBlendMode::OneMinusSourceColor)
    );
}

#[test]
fn flags_of_unset_props() {
    let p = BrushNiAlphaProps::unset();
    assert_eq!(p.to_flags(), 512 | 12 | 224 | 4096);
}

#[test]
fn flags_of_given_props() {
    let mut p = BrushNiAlphaProps::unset();
    p.use_blend = Some(BrushUseAlpha::BlendEnable);
    p.use_test = Some(BrushUseAlpha::OFF);
    p.blend_source_mode = Some(BrushSourceBlendMode::One);
    p.blend_destination_mode = Some(BrushDestinationBlendMode::Zero);
    p.test_function = Some(BrushAlphaTestFunction::Always);
    p.no_sort = Some(BrushNoSort::ON);
    assert_eq!(p.to_flags(), 1 | 32 | 8196);
}

#[test]
fn material_from_properties() {
    let p = props(&[
        ("Material_Alpha_UseBlend", "1"),
        ("Material_Alpha_TestThreshold", "128"),
        ("Material_Alpha_TestFunction", "bad"),
    ]);
    let m = mat_props_from(&p);
    assert_eq!(m.alpha.use_blend, Some(BrushUseAlpha::BlendEnable));
    assert_eq!(m.alpha.test_threshold, Some(128));
    assert_eq!(m.alpha.test_function, None);
    assert_eq!(m.alpha.no_sort, None);
}

#[test]
fn optional_property_lookup() {
    let p = props(&[("A", "1"), ("A", "2")]);
    assert_eq!(find_prop("A", &p), Some("1".to_string()));
    assert_eq!(find_prop("B", &p), None);
}

#[test]
fn effects_skip_missing_types() {
    let p = props(&[
        ("Effect_1_MagicType", "14"),
        ("Effect_1_Magnitude", "10"),
        ("Effect_1_MagnitudeMin", "3"),
        ("Effect_1_Duration", "30"),
        ("Effect_3_MagicType", "21"),
        ("Effect_3_Skill", "5"),
        ("Effect_3_MagnitudeMin", "2"),
        ("Effect_3_MagnitudeMax", "x"),
        ("Effect_3_Range", "1"),
    ]);
    let e = collect_effects(&p, 4);
    assert_eq!(e.len(), 2);
    assert_eq!(
        e[0],
        EffectRecord {
            magic_effect: 14,
            skill: -1,
            attribute: -1,
            range: 0,
            area: 0,
            duration: 30,
            min_magnitude: 10,
            max_magnitude: 10,
        }
    );
    assert_eq!(
        e[1],
        EffectRecord {
            magic_effect: 21,
            skill: 5,
            attribute: -1,
            range: 1,
            area: 0,
            duration: 0,
            min_magnitude: 2,
            max_magnitude: 0,
        }
    );
}

#[test]
fn effects_read_attributes_and_stop_at_size() {
    let p = props(&[
        ("Effect_1_MagicType", "17"),
        ("Effect_1_Attribute", "3"),
        ("Effect_1_Skill", "9"),
        ("Effect_2_MagicType", "-1"),
        ("Effect_9_MagicType", "1"),
    ]);
    let e = collect_effects(&p, 8);
    assert_eq!(e.len(), 1);
    assert_eq!(e[0].attribute, 3);
    assert_eq!(e[0].skill, -1);
}

#[test]
fn body_part_slots() {
    let p = props(&[
        ("SlotType2", "7"),
        ("male_part2", "m_hand"),
        ("SlotType6", "bad"),
        ("female_part6", "f_foot"),
        ("SlotType7", "1"),
    ]);
    let b = collect_biped_objects(&p);
    assert_eq!(b.len(), 2);
    assert_eq!(b[0].biped_object_type, 7);
    assert_eq!(b[0].male_bodypart, "m_hand");
    assert_eq!(b[0].female_bodypart, "");
    assert_eq!(b[1].biped_object_type, 0);
    assert_eq!(b[1].female_bodypart, "f_foot");
}

#[test]
fn effects_with_two_digit_numbers() {
    let p = props(&[("Effect_10_MagicType", "5"), ("Effect_10_Area", "4")]);
    let e = collect_effects(&p, 12);
    assert_eq!(e.len(), 1);
    assert_eq!(e[0].magic_effect, 5);
    assert_eq!(e[0].area, 4);
    assert!(collect_effects(&p, 9).is_empty());
}
