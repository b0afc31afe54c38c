//! Board construction from configuration records, descriptions, and the
//! document export.

use sugoroku::area::{Area, AreaEffect, EffectParseError, SkipSelf};
use sugoroku::preferences::Preferences;
use sugoroku::tex::tex_document;
use sugoroku::world::{world_from_records, AreaRecord, World};

fn record(description: &str, effects: Option<&[&str]>) -> AreaRecord {
    AreaRecord {
        description: String::from(description),
        effects: effects.map(|list| list.iter().map(|s| String::from(*s)).collect()),
    }
}

#[test]
fn board_gets_synthetic_start_and_goal() {
    let world = world_from_records(
        String::from("t"),
        String::from("o"),
        String::from("start text"),
        String::from("goal text"),
        6,
        &vec![
            record("first", Some(&["PushSelf: num=2"])),
            record("second", None),
        ],
    )
    .unwrap();
    assert_eq!(world.title(), "t");
    assert_eq!(world.opening_msg(), "o");
    assert_eq!(world.dice_max(), 6);
    assert_eq!(world.area_list().len(), 4);
    assert_eq!(world.area_list()[0].description, "start text");
    assert_eq!(world.area_list()[1].description, "first");
    assert_eq!(world.area_list()[2].description, "second");
    assert_eq!(world.area_list()[3].description, "goal text");
    assert!(matches!(world.area_list()[1].effect_list[0], AreaEffect::PushSelf(_)));
    assert!(matches!(world.area_list()[2].effect_list[0], AreaEffect::NoEffect(_)));
}

#[test]
fn board_build_stops_at_the_first_bad_effect() {
    let err = world_from_records(
        String::from("t"),
        String::from("o"),
        String::from("s"),
        String::from("g"),
        6,
        &vec![
            record("ok", Some(&["PushSelf: num=1"])),
            record("bad", Some(&["Nonsense: num=1"])),
        ],
    )
    .unwrap_err();
    assert_eq!(err, EffectParseError::NotFoundAreaType(String::from("Nonsense")));
}

#[test]
fn area_description_lists_effects() {
    let prefs: Preferences = Default::default();
    let area = Area::new(
        String::from("a square"),
        vec![AreaEffect::SkipSelf(SkipSelf { num_skip: 3 })],
    );
    assert_eq!(
        area.area_description(&prefs),
        "a square\n\n効果\n- プレイヤーの休みを3回追加。\n"
    );
}

#[test]
fn start_description_is_the_first_area() {
    let prefs: Preferences = Default::default();
    let world = world_from_records(
        String::from("t"),
        String::from("o"),
        String::from("s"),
        String::from("g"),
        6,
        &Vec::new(),
    )
    .unwrap();
    assert_eq!(world.start_description(&prefs), world.area_list()[0].area_description(&prefs));
}

#[test]
fn world_new_keeps_its_arguments() {
    let areas = vec![
        Area::new(String::from("s"), Vec::new()),
        Area::new(String::from("g"), Vec::new()),
    ];
    let world = World::new(String::from("title"), String::from("msg"), 3, areas);
    assert_eq!(world.title(), "title");
    assert_eq!(world.opening_msg(), "msg");
    assert_eq!(world.dice_max(), 3);
    assert_eq!(world.num_goal_player, 0);
}

#[test]
fn tex_document_exact() {
    let prefs: Preferences = Default::default();
    let world = World::new(
        String::from("Ti"),
        String::from("msg"),
        2,
        vec![
            Area::new(String::from("s"), Vec::new()),
            Area::new(String::from("g"), Vec::new()),
        ],
    );
    let expected = "\\documentclass[11pt,dvipdfmx]{jsarticle}\n\n\\usepackage{tcolorbox}\n\\newtcolorbox{areabox}[2][]{colbacktitle=black,coltitle=white,title={#2}}\n\n\\begin{document}\n\\title{Ti}\n\\author{}\n\\date{}\n\\maketitle\n\n\\begin{areabox}{0}\ns\\\\\n\\\\\n効果\\\\\n\\end{areabox}\n\n\\begin{areabox}{1}\ng\\\\\n\\\\\n効果\\\\\n\\end{areabox}\n\n\\end{document}\n";
    assert_eq!(tex_document(&world, &prefs), expected);
}
