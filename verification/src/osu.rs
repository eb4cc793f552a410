//! osu!: naming a player, choosing and describing scores, and rank replies.

use vstd::prelude::*;
use vstd::string::*;
use crate::decimal::{
    decimal, decimal_length_bounds, parse_decimal, parse_of_decimal, parse_unsigned, pow10,
    push_decimal,
};
use crate::text::same_text;

verus! {

/// How a player is looked up: by numeric id or by name.
#[derive(Debug, Clone, PartialEq, Eq, Hash)]
pub enum UserIdentifier {
    Id(u32),
    Username(String),
}

impl From<u32> for UserIdentifier {
    fn from(id: u32) -> (res: Self) {
        UserIdentifier::Id(id)
    }
}

impl vstd::std_specs::convert::FromSpecImpl<u32> for UserIdentifier {
    open spec fn obeys_from_spec() -> bool {
        true
    }

    open spec fn from_spec(v: u32) -> Self {
        UserIdentifier::Id(v)
    }
}

impl From<String> for UserIdentifier {
    fn from(username: String) -> (res: Self) {
        UserIdentifier::Username(username)
    }
}

impl vstd::std_specs::convert::FromSpecImpl<String> for UserIdentifier {
    open spec fn obeys_from_spec() -> bool {
        true
    }

    open spec fn from_spec(v: String) -> Self {
        UserIdentifier::Username(v)
    }
}

impl<'a> From<&'a str> for UserIdentifier {
    fn from(username: &'a str) -> (res: Self)
        ensures
            res matches UserIdentifier::Username(name) && name@ == username@,
    {
        UserIdentifier::Username(String::from_str(username))
    }
}

/// A name taken from a `&str` is a fresh `String`, which spec code cannot
/// build; what `from` gives is stated in its own `ensures` instead.
impl<'a> vstd::std_specs::convert::FromSpecImpl<&'a str> for UserIdentifier {
    open spec fn obeys_from_spec() -> bool {
        false
    }

    open spec fn from_spec(v: &'a str) -> Self {
        arbitrary()
    }
}

/// How the bot reads what a user typed: text that parses as a `u32` is an id,
/// anything else a name.
pub fn parse_identifier(text: String) -> (res: UserIdentifier)
    ensures
        match parse_unsigned(text@, u32::MAX as nat) {
            Some(v) => res == UserIdentifier::Id(v as u32),
            None => res matches UserIdentifier::Username(name) && name@ == text@,
        },
{
    match parse_decimal(text.as_str(), u32::MAX as u64) {
        Some(v) => UserIdentifier::Id(v as u32),
        None => UserIdentifier::Username(text),
    }
}


/// The kinds of score lists a player has.
#[derive(Debug, Clone, Copy, PartialEq, Eq, Structural)]
pub enum ScoreType {
    Best,
    Recent,
    Firsts,
}

/// The score list the score command shows: the one asked for, best scores
/// when none is.
pub fn score_type_or_default(score_type: Option<ScoreType>) -> (res: ScoreType)
    ensures
        res == match score_type {
            Some(t) => t,
            None => ScoreType::Best,
        },
{
    match score_type {
        Some(t) => t,
        None => ScoreType::Best,
    }
}

/// The scores that name their player, in order, each paired with that player.
pub open spec fn with_players<S, U>(items: Seq<(S, Option<U>)>) -> Seq<(S, U)>
    decreases items.len(),
{
    if items.len() == 0 {
        Seq::empty()
    } else {
        let rest = with_players(items.drop_last());
        match items.last().1 {
            Some(u) => rest.push((items.last().0, u)),
            None => rest,
        }
    }
}

/// Converting a score list drops scores but never adds or reorders them: the
/// result is no longer than the list, and each kept score stands, with its
/// player, at a position no later than in the list.
pub proof fn with_players_keeps_order_and_players<S, U>(items: Seq<(S, Option<U>)>)
    ensures
        with_players(items).len() <= items.len(),
        forall|k: int|
            0 <= k < with_players(items).len() ==> exists|j: int|
                k <= j < items.len() && items[j].0 == (#[trigger] with_players(items)[k]).0
                    && items[j].1 == Some(with_players(items)[k].1),
    decreases items.len(),
{
    if items.len() > 0 {
        let rest = items.drop_last();
        with_players_keeps_order_and_players(rest);
        let out = with_players(items);
        assert forall|k: int| 0 <= k < out.len() implies exists|j: int|
            k <= j < items.len() && items[j].0 == (#[trigger] out[k]).0 && items[j].1 == Some(
                out[k].1,
            ) by {
            if k < with_players(rest).len() {
                assert(out[k] == with_players(rest)[k]);
                let j = choose|j: int|
                    k <= j < rest.len() && rest[j].0 == (#[trigger] with_players(rest)[k]).0
                        && rest[j].1 == Some(with_players(rest)[k].1);
                assert(items[j] == rest[j]);
            } else {
                let j = items.len() - 1;
                assert(items[j].0 == out[k].0);
            }
        }
    }
}

/// The smaller of two lengths.
pub open spec fn min_len(a: int, b: int) -> int {
    if a < b { a } else { b }
}

/// Of the first `limit` scores, those that name their player, in order; the
/// others are dropped, as the API conversion of score lists does.
pub fn scores_with_players<S, U>(scores: Vec<(S, Option<U>)>, limit: usize) -> (res: Vec<(S, U)>)
    ensures
        res@ == with_players(scores@.take(min_len(limit as int, scores@.len() as int))),
        res@.len() <= limit,
{
    let ghost all = scores@;
    let mut scores = scores;
    if limit < scores.len() {
        scores.truncate(limit);
    }
    let ghost kept = scores@;
    assert(kept =~= all.take(min_len(limit as int, all.len() as int)));
    let mut res: Vec<(S, U)> = Vec::new();
    for item in it: scores.into_iter()
        invariant
            it.seq() == kept,
            res@ == with_players(kept.take(it.index() as int)),
    {
        let ghost i = it.index();
        assert(kept.take(i + 1).drop_last() =~= kept.take(i as int));
        let (score, player) = item;
        match player {
            Some(p) => res.push((score, p)),
            None => {},
        }
    }
    assert(kept.take(kept.len() as int) =~= kept);
    proof {
        with_players_keeps_order_and_players(kept);
    }
    res
}


/// How many scores a score list fetches when no limit is given.
pub const DEFAULT_SCORE_LIMIT: usize = 10;

/// The limit of a score-list request: the one given, or 10.
pub fn score_list_limit(limit: Option<usize>) -> (res: usize)
    ensures
        res as int == list_limit(limit),
        res == match limit {
            Some(l) => l,
            None => DEFAULT_SCORE_LIMIT,
        },
{
    match limit {
        Some(l) => l,
        None => DEFAULT_SCORE_LIMIT,
    }
}

/// The limit of a score-list request.
pub open spec fn list_limit(limit: Option<usize>) -> int {
    match limit {
        Some(l) => l as int,
        None => DEFAULT_SCORE_LIMIT as int,
    }
}

/// How many scores the score command shows for the count asked for.
pub open spec fn shown_count(count: Option<usize>) -> int {
    min_len(
        match count {
            Some(c) => c as int,
            None => 3,
        },
        5,
    )
}

/// A score list fetches as many scores as asked, 10 when not asked; the
/// score command shows the count asked for when it is at most 5, never more
/// than 5 (exactly 5 for any larger count), and 3 when none is asked.
pub proof fn score_counts_are_bounded(c: usize)
    ensures
        list_limit(Some(c)) == c,
        list_limit(None) == 10,
        shown_count(None) == 3,
        c <= 5 ==> shown_count(Some(c)) == c,
        c > 5 ==> shown_count(Some(c)) == 5,
        0 <= shown_count(Some(c)) <= 5,
        shown_count(Some(c)) <= c,
{
}

/// How many scores the score command shows: the count asked for (3 when none
/// is), at most 5.
pub fn shown_score_count(count: Option<usize>) -> (res: usize)
    ensures
        res as int == shown_count(count),
        res == min_len(
            match count {
                Some(c) => c as int,
                None => 3,
            },
            5,
        ),
        res <= 5,
{
    let asked: usize = match count {
        Some(c) => c,
        None => 3,
    };
    if asked < 5 {
        asked
    } else {
        5
    }
}

/// The colour of a score's embed, by grade.
#[derive(Debug, Clone, Copy, PartialEq, Eq, Structural)]
pub enum GradeColour {
    /// An explicit colour.
    Rgb(u8, u8, u8),
    /// Serenity's `LIGHT_GREY`.
    LightGrey,
    /// Serenity's `KERBAL`.
    Kerbal,
    /// Serenity's `ORANGE`.
    Orange,
    /// Serenity's `RED`.
    Red,
    /// Serenity's `DARK_GREY`.
    DarkGrey,
}

/// The colour for a grade: gold for X and XH, light grey for S and SH, then
/// A, B, C and D in their own colours, dark grey for anything else.
pub open spec fn grade_colour_of(rank: Seq<char>) -> GradeColour {
    if rank == "X"@ || rank == "XH"@ {
        GradeColour::Rgb(255, 215, 0)
    } else if rank == "S"@ || rank == "SH"@ {
        GradeColour::LightGrey
    } else if rank == "A"@ {
        GradeColour::Kerbal
    } else if rank == "B"@ {
        GradeColour::Rgb(255, 223, 0)
    } else if rank == "C"@ {
        GradeColour::Orange
    } else if rank == "D"@ {
        GradeColour::Red
    } else {
        GradeColour::DarkGrey
    }
}

/// The colour of the embed of a score with this grade.
pub fn grade_colour(rank: &str) -> (res: GradeColour)
    ensures
        res == grade_colour_of(rank@),
{
    if same_text(rank, "X") || same_text(rank, "XH") {
        GradeColour::Rgb(255, 215, 0)
    } else if same_text(rank, "S") || same_text(rank, "SH") {
        GradeColour::LightGrey
    } else if same_text(rank, "A") {
        GradeColour::Kerbal
    } else if same_text(rank, "B") {
        GradeColour::Rgb(255, 223, 0)
    } else if same_text(rank, "C") {
        GradeColour::Orange
    } else if same_text(rank, "D") {
        GradeColour::Red
    } else {
        GradeColour::DarkGrey
    }
}

/// One score as the score command shows it. Numbers with decimals arrive
/// already written: `pp_text` with two decimals (none when the score has no
/// pp), `accuracy_text` with two decimals and a percent sign.
pub struct ScoreLine {
    pub score: u32,
    pub max_combo: u32,
    pub perfect: bool,
    pub mods: String,
    pub pp_text: Option<String>,
    pub accuracy_text: String,
    pub rank: String,
    pub beatmap_id: Option<u32>,
}

/// An embed for one score: title, description, named fields in order, colour.
pub struct ScoreCard {
    pub title: String,
    pub description: String,
    pub fields: Vec<(String, String)>,
    pub colour: GradeColour,
}

/// The character views of named fields.
pub open spec fn field_views(fields: Seq<(String, String)>) -> Seq<(Seq<char>, Seq<char>)> {
    fields.map_values(|f: (String, String)| (f.0@, f.1@))
}

/// The pp shown for a score: its value, or `???` when it has none.
pub open spec fn pp_shown(pp_text: Option<String>) -> Seq<char> {
    match pp_text {
        Some(t) => t@,
        None => "???"@,
    }
}

/// The combo shown for a score: `<combo>x`, with a flame for a full combo.
pub open spec fn combo_shown(max_combo: u32, perfect: bool) -> Seq<char> {
    decimal(max_combo as nat) + "x"@ + if perfect { " 🔥"@ } else { ""@ }
}

/// The fields of a score's embed, in the order the score command adds them.
pub open spec fn score_fields(player: Seq<char>, line: ScoreLine) -> Seq<(Seq<char>, Seq<char>)> {
    seq![
        ("player"@, player),
        ("score"@, decimal(line.score as nat)),
        ("pp"@, pp_shown(line.pp_text)),
        ("accuracy"@, line.accuracy_text@),
        ("combo"@, combo_shown(line.max_combo, line.perfect)),
        ("rank"@, line.rank@),
        ("mods"@, line.mods@),
    ]
}

/// The title of the embed of the score at 0-based `index`.
pub open spec fn card_title(index: int) -> Seq<char> {
    "score #"@ + decimal((index + 1) as nat)
}

/// A score's embed is titled with its 1-based place and lists, in order, the
/// player, the score (text reading back as the score), the pp (`???` when
/// there are none), the accuracy, the combo (text reading back as the combo,
/// then `x`, with a flame exactly for a full combo), the grade and the mods.
pub proof fn score_card_shows_the_score(index: nat, player: Seq<char>, line: ScoreLine)
    ensures
        exists|t: Seq<char>|
            #[trigger] card_title(index as int) == "score #"@ + t && parse_unsigned(
                t,
                index + 1,
            ) == Some(index + 1),
        score_fields(player, line).len() == 7,
        score_fields(player, line)[0] == ("player"@, player),
        score_fields(player, line)[1].0 == "score"@ && parse_unsigned(
            score_fields(player, line)[1].1,
            u32::MAX as nat,
        ) == Some(line.score as nat),
        score_fields(player, line)[2] == ("pp"@, if line.pp_text is Some {
            line.pp_text->0@
        } else {
            "???"@
        }),
        score_fields(player, line)[3] == ("accuracy"@, line.accuracy_text@),
        score_fields(player, line)[4].0 == "combo"@,
        exists|t: Seq<char>|
            #[trigger] score_fields(player, line)[4].1 == t + "x"@ + (if line.perfect {
                " 🔥"@
            } else {
                ""@
            }) && parse_unsigned(t, u32::MAX as nat) == Some(line.max_combo as nat),
        score_fields(player, line)[5] == ("rank"@, line.rank@),
        score_fields(player, line)[6] == ("mods"@, line.mods@),
{
    parse_of_decimal(index + 1, index + 1);
    parse_of_decimal(line.score as nat, u32::MAX as nat);
    parse_of_decimal(line.max_combo as nat, u32::MAX as nat);
    let t = decimal(line.max_combo as nat);
    assert(score_fields(player, line)[4].1 == t + "x"@ + (if line.perfect {
        " 🔥"@
    } else {
        ""@
    }));
    assert(card_title(index as int) == "score #"@ + decimal(index + 1));
}

/// The beatmap line names the beatmap as it should: without an id the
/// beatmap is unknown whatever was fetched; while fetching, and after a failed
/// fetch, the line carries the id (text reading back as the id); after a
/// successful fetch it is `artist - title [version]`, whatever the id.
pub proof fn beatmap_lines_name_the_beatmap(id: u32, other_id: u32, details: Option<BeatmapCredits>)
    ensures
        pending_info_text(None) == "unknown beatmap!"@,
        fetched_info_text(None, details) == "unknown beatmap!"@,
        exists|t: Seq<char>|
            #[trigger] pending_info_text(Some(id)) == "beatmap id: "@ + t
                + " (fetching details...)"@ && parse_unsigned(t, u32::MAX as nat) == Some(id as nat),
        exists|t: Seq<char>|
            #[trigger] fetched_info_text(Some(id), None) == "beatmap id: "@ + t
                + " (failed to fetch)"@ && parse_unsigned(t, u32::MAX as nat) == Some(id as nat),
        details matches Some(d) ==> fetched_info_text(Some(id), details) == d.artist@ + " - "@
            + d.title@ + " ["@ + d.version@ + "]"@,
        details is Some ==> fetched_info_text(Some(id), details) == fetched_info_text(
            Some(other_id),
            details,
        ),
{
    parse_of_decimal(id as nat, u32::MAX as nat);
    assert(pending_info_text(Some(id)) == "beatmap id: "@ + decimal(id as nat)
        + " (fetching details...)"@);
    assert(fetched_info_text(Some(id), None) == "beatmap id: "@ + decimal(id as nat)
        + " (failed to fetch)"@);
}

/// The embed for the score at 0-based `index` of `player`'s list, with the
/// given beatmap line as description.
pub fn score_card(index: usize, player: &str, line: &ScoreLine, beatmap_info: String) -> (res:
    ScoreCard)
    requires
        index < usize::MAX,
    ensures
        res.title@ == card_title(index as int),
        res.title@ == "score #"@ + decimal((index + 1) as nat),
        res.description@ == beatmap_info@,
        field_views(res.fields@) == score_fields(player@, *line),
        res.colour == grade_colour_of(line.rank@),
{
    let mut title = String::from_str("score #");
    push_decimal(&mut title, (index + 1) as u64);
    let mut fields: Vec<(String, String)> = Vec::new();
    fields.push((String::from_str("player"), String::from_str(player)));
    let mut score = String::new();
    push_decimal(&mut score, line.score as u64);
    fields.push((String::from_str("score"), score));
    let pp = match &line.pp_text {
        Some(t) => t.clone(),
        None => String::from_str("???"),
    };
    fields.push((String::from_str("pp"), pp));
    fields.push((String::from_str("accuracy"), line.accuracy_text.clone()));
    let mut combo = String::new();
    push_decimal(&mut combo, line.max_combo as u64);
    combo.append("x");
    if line.perfect {
        combo.append(" 🔥");
    }
    proof {
        reveal_strlit("");
    }
    fields.push((String::from_str("combo"), combo));
    fields.push((String::from_str("rank"), line.rank.clone()));
    fields.push((String::from_str("mods"), line.mods.clone()));
    let colour = grade_colour(line.rank.as_str());
    assert(field_views(fields@) =~= score_fields(player@, *line));
    ScoreCard { title, description: beatmap_info, fields, colour }
}

/// The beatmap line while details are still being fetched.
pub open spec fn pending_info_text(beatmap_id: Option<u32>) -> Seq<char> {
    match beatmap_id {
        Some(id) => "beatmap id: "@ + decimal(id as nat) + " (fetching details...)"@,
        None => "unknown beatmap!"@,
    }
}

/// The beatmap line shown before the beatmap's details arrive.
pub fn pending_beatmap_info(beatmap_id: Option<u32>) -> (res: String)
    ensures
        res@ == pending_info_text(beatmap_id),
{
    match beatmap_id {
        Some(id) => {
            let mut s = String::from_str("beatmap id: ");
            push_decimal(&mut s, id as u64);
            s.append(" (fetching details...)");
            s
        },
        None => String::from_str("unknown beatmap!"),
    }
}

/// Artist, title and difficulty name of a beatmap.
pub struct BeatmapCredits {
    pub artist: String,
    pub title: String,
    pub version: String,
}

/// The beatmap line once the fetch is done: `artist - title [version]`, or a
/// note that the fetch failed.
pub open spec fn fetched_info_text(beatmap_id: Option<u32>, details: Option<BeatmapCredits>) -> Seq<
    char,
> {
    match beatmap_id {
        Some(id) => match details {
            Some(d) => d.artist@ + " - "@ + d.title@ + " ["@ + d.version@ + "]"@,
            None => "beatmap id: "@ + decimal(id as nat) + " (failed to fetch)"@,
        },
        None => "unknown beatmap!"@,
    }
}

/// The beatmap line shown once the details of the score's beatmap are fetched
/// (`details` is `None` when the fetch failed).
pub fn fetched_beatmap_info(beatmap_id: Option<u32>, details: Option<&BeatmapCredits>) -> (res:
    String)
    ensures
        res@ == fetched_info_text(
            beatmap_id,
            match details {
                Some(d) => Some(*d),
                None => None,
            },
        ),
{
    match beatmap_id {
        Some(id) => match details {
            Some(d) => {
                let mut s = d.artist.clone();
                s.append(" - ");
                s.append(d.title.as_str());
                s.append(" [");
                s.append(d.version.as_str());
                s.append("]");
                s
            },
            None => {
                let mut s = String::from_str("beatmap id: ");
                push_decimal(&mut s, id as u64);
                s.append(" (failed to fetch)");
                s
            },
        },
        None => String::from_str("unknown beatmap!"),
    }
}


/// How the user command shows a global rank: `#<rank> (<n> digits)`, where
/// rank 1 reads "1 digit"; `#??? (unknown rank...)` when the player has none.
pub open spec fn global_rank_text(rank: Option<u32>) -> Seq<char> {
    match rank {
        Some(r) => "#"@ + decimal(r as nat) + " ("@ + if r == 1 {
            "1 digit"@
        } else {
            decimal(decimal(r as nat).len()) + " digits"@
        } + ")"@,
        None => "#??? (unknown rank...)"@,
    }
}

/// The global-rank field of the user command.
pub fn global_rank_field(rank: Option<u32>) -> (res: String)
    ensures
        res@ == global_rank_text(rank),
{
    match rank {
        Some(r) => {
            let rank_text = crate::decimal::u64_text(r as u64);
            let mut s = String::from_str("#");
            s.append(rank_text.as_str());
            s.append(" (");
            if r == 1 {
                s.append("1 digit");
            } else {
                let digits = rank_text.as_str().unicode_len();
                push_decimal(&mut s, digits as u64);
                s.append(" digits");
            }
            s.append(")");
            s
        },
        None => String::from_str("#??? (unknown rank...)"),
    }
}

/// The reply of the rank command: the country rank when a country was given,
/// the global rank otherwise; a missing rank reads 0.
pub open spec fn rank_reply_text(
    username: Seq<char>,
    country: Option<Seq<char>>,
    country_rank: Option<u32>,
    global_rank: Option<u32>,
) -> Seq<char> {
    match country {
        Some(c) => username + "'s country rank in "@ + c + ": "@ + decimal(
            match country_rank {
                Some(r) => r as nat,
                None => 0,
            },
        ),
        None => username + "'s global rank: "@ + decimal(
            match global_rank {
                Some(r) => r as nat,
                None => 0,
            },
        ),
    }
}

/// The reply of the rank command.
pub fn rank_reply(
    username: &str,
    country: Option<&str>,
    country_rank: Option<u32>,
    global_rank: Option<u32>,
) -> (res: String)
    ensures
        res@ == rank_reply_text(
            username@,
            match country {
                Some(c) => Some(c@),
                None => None,
            },
            country_rank,
            global_rank,
        ),
{
    let mut s = String::from_str(username);
    match country {
        Some(c) => {
            s.append("'s country rank in ");
            s.append(c);
            s.append(": ");
            let r: u32 = match country_rank {
                Some(r) => r,
                None => 0,
            };
            push_decimal(&mut s, r as u64);
        },
        None => {
            s.append("'s global rank: ");
            let r: u32 = match global_rank {
                Some(r) => r,
                None => 0,
            };
            push_decimal(&mut s, r as u64);
        },
    }
    s
}

/// Artist, title and mapper of a beatmap set.
pub struct MapsetNames {
    pub artist: String,
    pub title: String,
    pub creator: String,
}

/// The names a beatmap shows: those of its beatmap set, or `???` for each
/// when the set is unknown.
pub fn mapset_names(mapset: Option<MapsetNames>) -> (res: MapsetNames)
    ensures
        match mapset {
            Some(m) => res == m,
            None => res.artist@ == "???"@ && res.title@ == "???"@ && res.creator@ == "???"@,
        },
{
    match mapset {
        Some(m) => m,
        None => MapsetNames {
            artist: String::from_str("???"),
            title: String::from_str("???"),
            creator: String::from_str("???"),
        },
    }
}


/// The global-rank field names the rank and its number of decimal digits:
/// for every rank other than 1 the field is `#<rank> (<n> digits)` where `n`
/// is the digit count of the rank (`10^(n-1) <= rank < 10^n`); rank 1 reads
/// `#1 (1 digit)`, and a player without a rank gets `#??? (unknown rank...)`.
/// The rank written back parses as the rank.
pub proof fn global_rank_counts_digits(r: u32)
    ensures
        r != 1 ==> exists|n: nat|
            n >= 1 && r < pow10(n) && (n > 1 ==> pow10((n - 1) as nat) <= r) && #[trigger]
                global_rank_text(Some(r)) == "#"@ + decimal(r as nat) + " ("@ + decimal(n)
                + " digits)"@,
        global_rank_text(Some(1)) == "#1 (1 digit)"@,
        global_rank_text(None) == "#??? (unknown rank...)"@,
        parse_unsigned(decimal(r as nat), u32::MAX as nat) == Some(r as nat),
{
    reveal_strlit(" digits");
    reveal_strlit(")");
    reveal_strlit(" digits)");
    reveal_strlit("#");
    reveal_strlit(" (");
    reveal_strlit("1 digit");
    reveal_strlit("#1 (1 digit)");
    parse_of_decimal(r as nat, u32::MAX as nat);
    assert(decimal(1) == seq!['1']);
    assert(global_rank_text(Some(1)) =~= "#1 (1 digit)"@);
    if r != 1 {
        decimal_length_bounds(r as nat);
        let n = decimal(r as nat).len();
        assert(global_rank_text(Some(r)) =~= "#"@ + decimal(r as nat) + " ("@ + decimal(n)
            + " digits)"@);
    }
}

/// The rank command answers with the country rank when a country is given
/// (0 when the player has none), whatever the global rank, and otherwise with
/// the global rank (0 when none), whatever the country rank; the country code
/// is only repeated.
pub proof fn rank_reply_picks_the_asked_rank(
    username: Seq<char>,
    country: Seq<char>,
    country_rank: Option<u32>,
    global_rank: Option<u32>,
    other_country_rank: Option<u32>,
    other_global_rank: Option<u32>,
)
    ensures
        rank_reply_text(username, Some(country), country_rank, global_rank) == rank_reply_text(
            username,
            Some(country),
            country_rank,
            other_global_rank,
        ),
        rank_reply_text(username, None, country_rank, global_rank) == rank_reply_text(
            username,
            None,
            other_country_rank,
            global_rank,
        ),
        rank_reply_text(username, Some(country), country_rank, global_rank) == username
            + "'s country rank in "@ + country + ": "@ + decimal(
            if country_rank is Some {
                country_rank->0 as nat
            } else {
                0
            },
        ),
        rank_reply_text(username, None, country_rank, global_rank) == username
            + "'s global rank: "@ + decimal(
            if global_rank is Some {
                global_rank->0 as nat
            } else {
                0
            },
        ),
{
}


/// Converting a score list keeps every score that names its player: each
/// such score appears, with that player, in the result.
pub proof fn with_players_keeps_every_named_score<S, U>(items: Seq<(S, Option<U>)>, j: int)
    requires
        0 <= j < items.len(),
        items[j].1 is Some,
    ensures
        exists|k: int|
            0 <= k < with_players(items).len() && #[trigger] with_players(items)[k] == (
                items[j].0,
                items[j].1->0,
            ),
    decreases items.len(),
{
    let rest = items.drop_last();
    if j == items.len() - 1 {
        let out = with_players(items);
        assert(out[out.len() - 1] == (items[j].0, items[j].1->0));
    } else {
        assert(rest[j] == items[j]);
        with_players_keeps_every_named_score(rest, j);
        let k = choose|k: int|
            0 <= k < with_players(rest).len() && #[trigger] with_players(rest)[k] == (
                rest[j].0,
                rest[j].1->0,
            );
        assert(with_players(items)[k] == with_players(rest)[k]);
    }
}


/// A silver grade shares its grade's colour (XH with X, SH with S), the
/// grades X, S, A, B, C and D each have a colour of their own, and a grade
/// outside these shows dark grey.
pub proof fn grade_colours_tell_grades_apart(rank: Seq<char>)
    ensures
        grade_colour_of("XH"@) == grade_colour_of("X"@),
        grade_colour_of("SH"@) == grade_colour_of("S"@),
        grade_colour_of("X"@) != grade_colour_of("S"@),
        grade_colour_of("X"@) != grade_colour_of("B"@),
        grade_colour_of("S"@) != grade_colour_of("A"@),
        grade_colour_of("A"@) != grade_colour_of("B"@),
        grade_colour_of("B"@) != grade_colour_of("C"@),
        grade_colour_of("C"@) != grade_colour_of("D"@),
        grade_colour_of("D"@) != grade_colour_of("X"@),
        grade_colour_of("D"@) != grade_colour_of("F"@),
        rank != "X"@ && rank != "XH"@ && rank != "S"@ && rank != "SH"@ && rank != "A"@ && rank
            != "B"@ && rank != "C"@ && rank != "D"@ ==> grade_colour_of(rank) == GradeColour::DarkGrey,
        grade_colour_of(rank) != GradeColour::DarkGrey ==> rank.len() <= 2,
{
    reveal_strlit("X");
    reveal_strlit("XH");
    reveal_strlit("S");
    reveal_strlit("SH");
    reveal_strlit("A");
    reveal_strlit("B");
    reveal_strlit("C");
    reveal_strlit("D");
    reveal_strlit("F");
    assert("X"@.len() == 1 && "X"@[0] == 'X');
    assert("XH"@.len() == 2);
    assert("S"@.len() == 1 && "S"@[0] == 'S');
    assert("SH"@.len() == 2 && "SH"@[0] == 'S');
    assert("A"@.len() == 1 && "A"@[0] == 'A');
    assert("B"@.len() == 1 && "B"@[0] == 'B');
    assert("C"@.len() == 1 && "C"@[0] == 'C');
    assert("D"@.len() == 1 && "D"@[0] == 'D');
    assert("F"@.len() == 1 && "F"@[0] == 'F');
    assert("XH"@[0] == 'X');
}

} // verus!
