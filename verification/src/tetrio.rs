//! TETR.IO: rank labels, the outcome of API packets, and leaderboard rows.

use vstd::prelude::*;
use vstd::string::*;
use crate::decimal::{decimal, parse_of_decimal, parse_unsigned, push_decimal};

verus! {

/// A Tetra League rank, as the TETR.IO API names it.
#[derive(Debug, Clone, PartialEq, Eq, Hash)]
pub enum TetraRank {
    XPlus,
    X,
    U,
    SS,
    SPlus,
    S,
    SMinus,
    APlus,
    A,
    AMinus,
    BPlus,
    B,
    BMinus,
    CPlus,
    C,
    CMinus,
    DPlus,
    D,
    Z,
    Unknown(String),
}

/// The label shown for a rank; an unknown or missing rank shows as `???` and
/// rank Z as `Unranked`.
pub open spec fn rank_label_text(rank: Option<TetraRank>) -> Seq<char> {
    match rank {
        Some(TetraRank::XPlus) => "X+"@,
        Some(TetraRank::X) => "X"@,
        Some(TetraRank::U) => "U"@,
        Some(TetraRank::SS) => "SS"@,
        Some(TetraRank::SPlus) => "S+"@,
        Some(TetraRank::S) => "S"@,
        Some(TetraRank::SMinus) => "S-"@,
        Some(TetraRank::APlus) => "A+"@,
        Some(TetraRank::A) => "A"@,
        Some(TetraRank::AMinus) => "A-"@,
        Some(TetraRank::BPlus) => "B+"@,
        Some(TetraRank::B) => "B"@,
        Some(TetraRank::BMinus) => "B-"@,
        Some(TetraRank::CPlus) => "C+"@,
        Some(TetraRank::C) => "C"@,
        Some(TetraRank::CMinus) => "C-"@,
        Some(TetraRank::DPlus) => "D+"@,
        Some(TetraRank::D) => "D"@,
        Some(TetraRank::Z) => "Unranked"@,
        Some(TetraRank::Unknown(_)) => "???"@,
        None => "???"@,
    }
}

/// The label shown for a rank in the leaderboard.
pub fn rank_label(rank: Option<&TetraRank>) -> (res: &'static str)
    ensures
        res@ == rank_label_text(match rank {
            Some(r) => Some(*r),
            None => None,
        }),
{
    match rank {
        Some(TetraRank::XPlus) => "X+",
        Some(TetraRank::X) => "X",
        Some(TetraRank::U) => "U",
        Some(TetraRank::SS) => "SS",
        Some(TetraRank::SPlus) => "S+",
        Some(TetraRank::S) => "S",
        Some(TetraRank::SMinus) => "S-",
        Some(TetraRank::APlus) => "A+",
        Some(TetraRank::A) => "A",
        Some(TetraRank::AMinus) => "A-",
        Some(TetraRank::BPlus) => "B+",
        Some(TetraRank::B) => "B",
        Some(TetraRank::BMinus) => "B-",
        Some(TetraRank::CPlus) => "C+",
        Some(TetraRank::C) => "C",
        Some(TetraRank::CMinus) => "C-",
        Some(TetraRank::DPlus) => "D+",
        Some(TetraRank::D) => "D",
        Some(TetraRank::Z) => "Unranked",
        Some(TetraRank::Unknown(_)) => "???",
        None => "???",
    }
}


/// The error text of a failed request, viewed as characters.
pub open spec fn outcome_view<T>(res: Result<T, String>) -> Result<T, Seq<char>> {
    match res {
        Ok(d) => Ok(d),
        Err(m) => Err(m@),
    }
}

/// What a TETR.IO packet comes to: its data when it has some; otherwise an
/// error made of `prefix` and the debug text of the API's error, or `fallback`
/// when the packet carries no error either.
pub open spec fn packet_outcome<T>(
    data: Option<T>,
    error: Option<Seq<char>>,
    prefix: Seq<char>,
    fallback: Seq<char>,
) -> Result<T, Seq<char>> {
    match data {
        Some(d) => Ok(d),
        None => match error {
            Some(e) => Err(prefix + e),
            None => Err(fallback),
        },
    }
}

/// The string view of an optional string.
pub open spec fn opt_view(s: Option<String>) -> Option<Seq<char>> {
    match s {
        Some(t) => Some(t@),
        None => None,
    }
}

fn settle_packet<T>(data: Option<T>, error: Option<String>, prefix: &str, fallback: &str) -> (res:
    Result<T, String>)
    ensures
        outcome_view(res) == packet_outcome(data, opt_view(error), prefix@, fallback@),
{
    match data {
        Some(d) => Ok(d),
        None => match error {
            Some(e) => {
                let mut m = String::from_str(prefix);
                m.append(e.as_str());
                Err(m)
            },
            None => Err(String::from_str(fallback)),
        },
    }
}

/// The outcome of a user-info packet: the user's data, or the error to report.
/// `error` is the debug text of the API's error, when the packet has one.
pub fn user_packet_outcome<T>(data: Option<T>, error: Option<String>) -> (res: Result<T, String>)
    ensures
        outcome_view(res) == packet_outcome(
            data,
            opt_view(error),
            "API error!: "@,
            "unknown error from tetrio API!"@,
        ),
{
    settle_packet(data, error, "API error!: ", "unknown error from tetrio API!")
}

/// The outcome of a league-summary packet: the summary, or the error to report.
pub fn league_packet_outcome<T>(data: Option<T>, error: Option<String>) -> (res: Result<T, String>)
    ensures
        outcome_view(res) == packet_outcome(
            data,
            opt_view(error),
            "API error: "@,
            "Unknown error fetching league data"@,
        ),
{
    settle_packet(data, error, "API error: ", "Unknown error fetching league data")
}

/// The outcome of a server-activity packet: the activity, or the error to report.
pub fn activity_packet_outcome<T>(data: Option<T>, error: Option<String>) -> (res: Result<
    T,
    String,
>)
    ensures
        outcome_view(res) == packet_outcome(
            data,
            opt_view(error),
            "API error: "@,
            "unknown error from tetrio API"@,
        ),
{
    settle_packet(data, error, "API error: ", "unknown error from tetrio API")
}

/// How many players the leaderboard shows.
pub const LEADERBOARD_ROWS: usize = 20;

/// The country shown for a player, `??` when unknown.
pub open spec fn country_text(country: Option<Seq<char>>) -> Seq<char> {
    match country {
        Some(c) => c,
        None => "??"@,
    }
}

/// One leaderboard row for the player at 0-based `position`: the heading
/// `#<place> <name>` and the line `tr: <tr> | rank: <label> | country: <country>`.
/// `tr_text` is the rating already written with two decimals.
pub fn leaderboard_row(
    position: usize,
    username: &str,
    tr_text: &str,
    rank: Option<&TetraRank>,
    country: Option<&str>,
) -> (res: (String, String))
    requires
        position < usize::MAX,
    ensures
        res.0@ == row_heading(position as int, username@),
        res.1@ == line_text(
            tr_text@,
            match rank {
                Some(r) => Some(*r),
                None => None,
            },
            match country {
                Some(c) => Some(c@),
                None => None,
            },
        ),
        res.0@ == "#"@ + decimal((position + 1) as nat) + " "@ + username@,
        res.1@ == "tr: "@ + tr_text@ + " | rank: "@ + rank_label_text(
            match rank {
                Some(r) => Some(*r),
                None => None,
            },
        ) + " | country: "@ + country_text(
            match country {
                Some(c) => Some(c@),
                None => None,
            },
        ),
{
    let mut heading = String::from_str("#");
    push_decimal(&mut heading, (position + 1) as u64);
    heading.append(" ");
    heading.append(username);
    let mut line = String::from_str("tr: ");
    line.append(tr_text);
    line.append(" | rank: ");
    line.append(rank_label(rank));
    line.append(" | country: ");
    match country {
        Some(c) => line.append(c),
        None => line.append("??"),
    }
    (heading, line)
}


/// A player as the leaderboard lists them; `tr_text` is the rating already
/// written with two decimals.
pub struct LeaderboardEntry {
    pub username: String,
    pub tr_text: String,
    pub rank: Option<TetraRank>,
    pub country: Option<String>,
}

/// The heading of the leaderboard row at 0-based `position`.
pub open spec fn row_heading(position: int, username: Seq<char>) -> Seq<char> {
    "#"@ + decimal((position + 1) as nat) + " "@ + username
}

/// The line of a leaderboard row: rating text, rank label and country.
pub open spec fn line_text(tr_text: Seq<char>, rank: Option<TetraRank>, country: Option<Seq<char>>) -> Seq<
    char,
> {
    "tr: "@ + tr_text + " | rank: "@ + rank_label_text(rank) + " | country: "@ + country_text(
        country,
    )
}

/// The line of a leaderboard row.
pub open spec fn row_line(entry: LeaderboardEntry) -> Seq<char> {
    line_text(entry.tr_text@, entry.rank, opt_view(entry.country))
}

/// How many rows the leaderboard has for this many players: one each, at most 20.
pub open spec fn shown_rows(players: nat) -> nat {
    if players < LEADERBOARD_ROWS {
        players
    } else {
        LEADERBOARD_ROWS as nat
    }
}

/// The rows of the leaderboard for a list of players: heading and line of
/// each of the first 20 players, in order.
pub open spec fn leaderboard_view(entries: Seq<LeaderboardEntry>) -> Seq<(Seq<char>, Seq<char>)> {
    Seq::new(shown_rows(entries.len()), |i: int| (row_heading(i, entries[i].username@), row_line(entries[i])))
}

/// The character views of rows.
pub open spec fn rows_view(rows: Seq<(String, String)>) -> Seq<(Seq<char>, Seq<char>)> {
    rows.map_values(|r: (String, String)| (r.0@, r.1@))
}

/// The rows of the leaderboard embed: one per player, for the first 20 players.
pub fn leaderboard_rows(entries: &[LeaderboardEntry]) -> (res: Vec<(String, String)>)
    ensures
        rows_view(res@) == leaderboard_view(entries@),
        res@.len() == if entries@.len() < LEADERBOARD_ROWS {
            entries@.len()
        } else {
            LEADERBOARD_ROWS as nat
        },
        res@.len() <= LEADERBOARD_ROWS,
        forall|i: int|
            0 <= i < res@.len() ==> (#[trigger] res@[i]).0@ == row_heading(i, entries@[i].username@)
                && res@[i].1@ == row_line(entries@[i]),
{
    let n: usize = if entries.len() < LEADERBOARD_ROWS {
        entries.len()
    } else {
        LEADERBOARD_ROWS
    };
    let mut rows: Vec<(String, String)> = Vec::new();
    let mut i: usize = 0;
    while i < n
        invariant
            i <= n,
            n <= entries@.len(),
            n <= LEADERBOARD_ROWS,
            rows@.len() == i,
            forall|k: int|
                0 <= k < i ==> (#[trigger] rows@[k]).0@ == row_heading(k, entries@[k].username@)
                    && rows@[k].1@ == row_line(entries@[k]),
        decreases n - i,
    {
        let e = &entries[i];
        let country = match &e.country {
            Some(c) => Some(c.as_str()),
            None => None,
        };
        let row = leaderboard_row(i, e.username.as_str(), e.tr_text.as_str(), e.rank.as_ref(), country);
        rows.push(row);
        i = i + 1;
    }
    assert(rows_view(rows@) =~= leaderboard_view(entries@));
    rows
}


/// Each leaderboard row shows its own player. The heading is `#`, the
/// 1-based place (text that reads back as the place) and the player's name;
/// the line gives the player's rating text, rank label and country: the
/// country given, `??` only when there is none.
pub proof fn leaderboard_row_shows_its_player(position: int, entry: LeaderboardEntry)
    requires
        0 <= position,
    ensures
        exists|place: Seq<char>|
            #[trigger] row_heading(position, entry.username@) == "#"@ + place + " "@
                + entry.username@ && parse_unsigned(place, (position + 1) as nat) == Some(
                (position + 1) as nat,
            ),
        row_line(entry) == "tr: "@ + entry.tr_text@ + " | rank: "@ + rank_label_text(entry.rank)
            + " | country: "@ + (if entry.country is Some {
            entry.country->0@
        } else {
            "??"@
        }),
        forall|tr: Seq<char>, rank: Option<TetraRank>, country: Option<Seq<char>>|
            #[trigger] line_text(tr, rank, country) == "tr: "@ + tr + " | rank: "@ + rank_label_text(
                rank,
            ) + " | country: "@ + (if country is Some {
                country->0
            } else {
                "??"@
            }),
{
    parse_of_decimal((position + 1) as nat, (position + 1) as nat);
    let place = decimal((position + 1) as nat);
    assert(row_heading(position, entry.username@) == "#"@ + place + " "@ + entry.username@);
}

/// The leaderboard lists the first 20 players (all of them when fewer), in
/// order, row `i` made from player `i` alone: two lists that agree on a
/// player give that player's row alike.
pub proof fn leaderboard_rows_follow_players(
    entries: Seq<LeaderboardEntry>,
    others: Seq<LeaderboardEntry>,
    i: int,
)
    ensures
        leaderboard_view(entries).len() == if entries.len() < 20 { entries.len() } else { 20 },
        0 <= i < leaderboard_view(entries).len() ==> leaderboard_view(entries)[i] == (
            row_heading(i, entries[i].username@),
            row_line(entries[i]),
        ),
        0 <= i < leaderboard_view(entries).len() && 0 <= i < leaderboard_view(others).len()
            && entries[i] == others[i] ==> leaderboard_view(entries)[i] == leaderboard_view(
            others,
        )[i],
{
}


/// A packet that carries data gives that data, whatever error it also
/// carries; a packet without data is always an error, whose message begins
/// with the prefix and ends with the API's error text when there is one, and
/// is the fallback message otherwise.
pub proof fn packet_data_wins<T>(
    data: Option<T>,
    error: Option<Seq<char>>,
    other_error: Option<Seq<char>>,
    prefix: Seq<char>,
    fallback: Seq<char>,
)
    ensures
        data is Some ==> packet_outcome(data, error, prefix, fallback) == Ok::<T, Seq<char>>(
            data->0,
        ),
        data is Some ==> packet_outcome(data, error, prefix, fallback) == packet_outcome(
            data,
            other_error,
            prefix,
            fallback,
        ),
        data is None ==> packet_outcome(data, error, prefix, fallback) is Err,
        data is None && error is Some ==> (packet_outcome(data, error, prefix, fallback) matches Err(
            m,
        ) && m.take(prefix.len() as int) == prefix && m.skip(prefix.len() as int) == error->0),
        data is None && error is None ==> packet_outcome(data, error, prefix, fallback) == Err::<
            T,
            Seq<char>,
        >(fallback),
{
    if data is None && error is Some {
        let m = prefix + error->0;
        assert(m.take(prefix.len() as int) =~= prefix);
        assert(m.skip(prefix.len() as int) =~= error->0);
    }
}

} // verus!
