use bbg::tetrio::{
    activity_packet_outcome, leaderboard_row, leaderboard_rows, league_packet_outcome, rank_label,
    user_packet_outcome, LeaderboardEntry, TetraRank,
};

#[test]
fn rank_labels() {
    let cases = [
        (TetraRank::XPlus, "X+"),
        (TetraRank::X, "X"),
        (TetraRank::U, "U"),
        (TetraRank::SS, "SS"),
        (TetraRank::SPlus, "S+"),
        (TetraRank::S, "S"),
        (TetraRank::SMinus, "S-"),
        (TetraRank::APlus, "A+"),
        (TetraRank::A, "A"),
        (TetraRank::AMinus, "A-"),
        (TetraRank::BPlus, "B+"),
        (TetraRank::B, "B"),
        (TetraRank::BMinus, "B-"),
        (TetraRank::CPlus, "C+"),
        (TetraRank::C, "C"),
        (TetraRank::CMinus, "C-"),
        (TetraRank::DPlus, "D+"),
        (TetraRank::D, "D"),
        (TetraRank::Z, "Unranked"),
        (TetraRank::Unknown("q".to_string()), "???"),
    ];
    for (rank, label) in cases {
        assert_eq!(rank_label(Some(&rank)), label);
    }
    assert_eq!(rank_label(None), "???");
}

#[test]
fn packet_with_data_is_ok() {
    assert_eq!(user_packet_outcome(Some(5), Some("ignored".to_string())), Ok(5));
    assert_eq!(league_packet_outcome(Some("x"), None), Ok("x"));
}

#[test]
fn packet_errors() {
    let err = Some("Error { msg: \"no such user\" }".to_string());
    assert_eq!(
        user_packet_outcome::<u8>(None, err.clone()),
        Err("API error!: Error { msg: \"no such user\" }".to_string())
    );
    assert_eq!(user_packet_outcome::<u8>(None, None), Err("unknown error from tetrio API!".to_string()));
    assert_eq!(league_packet_outcome::<u8>(None, err.clone()), Err("API error: Error { msg: \"no such user\" }".to_string()));
    assert_eq!(league_packet_outcome::<u8>(None, None), Err("Unknown error fetching league data".to_string()));
    assert_eq!(activity_packet_outcome::<u8>(None, err), Err("API error: Error { msg: \"no such user\" }".to_string()));
    assert_eq!(activity_packet_outcome::<u8>(None, None), Err("unknown error from tetrio API".to_string()));
}

#[test]
fn leaderboard_row_text() {
    let (heading, line) = leaderboard_row(0, "osk", "25000.00", Some(&TetraRank::XPlus), Some("US"));
    assert_eq!(heading, "#1 osk");
    assert_eq!(line, "tr: 25000.00 | rank: X+ | country: US");
    let (heading, line) = leaderboard_row(9, "anon", "1.50", None, None);
    assert_eq!(heading, "#10 anon");
    assert_eq!(line, "tr: 1.50 | rank: ??? | country: ??");
}

#[test]
fn leaderboard_shows_twenty() {
    let entries: Vec<LeaderboardEntry> = (0..25)
        .map(|i| LeaderboardEntry {
            username: format!("p{}", i),
            tr_text: "1.00".to_string(),
            rank: Some(TetraRank::Z),
            country: None,
        })
        .collect();
    let rows = leaderboard_rows(&entries);
    assert_eq!(rows.len(), 20);
    assert_eq!(rows[19].0, "#20 p19");
    assert_eq!(rows[0].1, "tr: 1.00 | rank: Unranked | country: ??");
    assert_eq!(leaderboard_rows(&entries[..3]).len(), 3);
}
