use bbg::osu::{
    fetched_beatmap_info, global_rank_field, grade_colour, mapset_names, parse_identifier,
    pending_beatmap_info, rank_reply, score_card, score_list_limit, scores_with_players,
    score_type_or_default, shown_score_count, BeatmapCredits, ScoreType, GradeColour, MapsetNames, ScoreLine, UserIdentifier,
};

#[test]
fn identifiers_from_values() {
    assert_eq!(UserIdentifier::from(7u32), UserIdentifier::Id(7));
    assert_eq!(UserIdentifier::from("peppy".to_string()), UserIdentifier::Username("peppy".to_string()));
    assert_eq!(UserIdentifier::from("peppy"), UserIdentifier::Username("peppy".to_string()));
}

#[test]
fn identifier_parsing() {
    assert_eq!(parse_identifier("2".to_string()), UserIdentifier::Id(2));
    assert_eq!(parse_identifier("+124493".to_string()), UserIdentifier::Id(124493));
    assert_eq!(parse_identifier("mrekk".to_string()), UserIdentifier::Username("mrekk".to_string()));
    assert_eq!(parse_identifier("99999999999".to_string()), UserIdentifier::Username("99999999999".to_string()));
    assert_eq!(parse_identifier("".to_string()), UserIdentifier::Username(String::new()));
}

#[test]
fn limits_and_counts() {
    assert_eq!(score_list_limit(None), 10);
    assert_eq!(score_list_limit(Some(3)), 3);
    assert_eq!(shown_score_count(None), 3);
    assert_eq!(shown_score_count(Some(1)), 1);
    assert_eq!(shown_score_count(Some(9)), 5);
}

#[test]
fn scores_without_players_are_dropped() {
    let scores = vec![(1, Some("a")), (2, None), (3, Some("c")), (4, Some("d"))];
    assert_eq!(scores_with_players(scores.clone(), 10), vec![(1, "a"), (3, "c"), (4, "d")]);
    assert_eq!(scores_with_players(scores.clone(), 3), vec![(1, "a"), (3, "c")]);
    assert_eq!(scores_with_players(scores, 0), Vec::<(i32, &str)>::new());
}

#[test]
fn grade_colours() {
    assert_eq!(grade_colour("X"), GradeColour::Rgb(255, 215, 0));
    assert_eq!(grade_colour("XH"), GradeColour::Rgb(255, 215, 0));
    assert_eq!(grade_colour("S"), GradeColour::LightGrey);
    assert_eq!(grade_colour("SH"), GradeColour::LightGrey);
    assert_eq!(grade_colour("A"), GradeColour::Kerbal);
    assert_eq!(grade_colour("B"), GradeColour::Rgb(255, 223, 0));
    assert_eq!(grade_colour("C"), GradeColour::Orange);
    assert_eq!(grade_colour("D"), GradeColour::Red);
    assert_eq!(grade_colour("F"), GradeColour::DarkGrey);
    assert_eq!(grade_colour("XX"), GradeColour::DarkGrey);
}

#[test]
fn score_card_fields() {
    let line = ScoreLine {
        score: 1234567,
        max_combo: 800,
        perfect: true,
        mods: "HDDT".to_string(),
        pp_text: Some("727.00".to_string()),
        accuracy_text: "99.12%".to_string(),
        rank: "SH".to_string(),
        beatmap_id: Some(42),
    };
    let card = score_card(0, "whitecat", &line, pending_beatmap_info(line.beatmap_id));
    assert_eq!(card.title, "score #1");
    assert_eq!(card.description, "beatmap id: 42 (fetching details...)");
    let fields: Vec<(&str, &str)> = card.fields.iter().map(|(a, b)| (a.as_str(), b.as_str())).collect();
    assert_eq!(
        fields,
        vec![
            ("player", "whitecat"),
            ("score", "1234567"),
            ("pp", "727.00"),
            ("accuracy", "99.12%"),
            ("combo", "800x 🔥"),
            ("rank", "SH"),
            ("mods", "HDDT"),
        ]
    );
    assert_eq!(card.colour, GradeColour::LightGrey);
    let plain = ScoreLine { perfect: false, pp_text: None, ..line };
    let card = score_card(4, "whitecat", &plain, String::from("x"));
    assert_eq!(card.title, "score #5");
    assert_eq!(card.fields[2].1, "???");
    assert_eq!(card.fields[4].1, "800x");
}

#[test]
fn beatmap_lines() {
    assert_eq!(pending_beatmap_info(None), "unknown beatmap!");
    let credits = BeatmapCredits { artist: "xi".to_string(), title: "FREEDOM DiVE".to_string(), version: "FOUR DIMENSIONS".to_string() };
    assert_eq!(fetched_beatmap_info(Some(129891), Some(&credits)), "xi - FREEDOM DiVE [FOUR DIMENSIONS]");
    assert_eq!(fetched_beatmap_info(Some(129891), None), "beatmap id: 129891 (failed to fetch)");
    assert_eq!(fetched_beatmap_info(None, Some(&credits)), "unknown beatmap!");
}

#[test]
fn global_rank_texts() {
    assert_eq!(global_rank_field(Some(1)), "#1 (1 digit)");
    assert_eq!(global_rank_field(Some(5)), "#5 (1 digits)");
    assert_eq!(global_rank_field(Some(12345)), "#12345 (5 digits)");
    assert_eq!(global_rank_field(None), "#??? (unknown rank...)");
}

#[test]
fn rank_replies() {
    assert_eq!(rank_reply("mrekk", Some("AU"), Some(1), Some(1)), "mrekk's country rank in AU: 1");
    assert_eq!(rank_reply("mrekk", None, Some(1), Some(3)), "mrekk's global rank: 3");
    assert_eq!(rank_reply("nobody", None, None, None), "nobody's global rank: 0");
    assert_eq!(rank_reply("nobody", Some("DE"), None, Some(3)), "nobody's country rank in DE: 0");
}

#[test]
fn mapset_names_default() {
    let names = mapset_names(None);
    assert_eq!((names.artist.as_str(), names.title.as_str(), names.creator.as_str()), ("???", "???", "???"));
    let names = mapset_names(Some(MapsetNames { artist: "a".to_string(), title: "t".to_string(), creator: "c".to_string() }));
    assert_eq!(names.creator, "c");
}

#[test]
fn score_type_default_is_best() {
    assert_eq!(score_type_or_default(None), ScoreType::Best);
    assert_eq!(score_type_or_default(Some(ScoreType::Firsts)), ScoreType::Firsts);
}
