//! Golf: an event's leaderboard, its name and its state.

use vstd::prelude::*;
use crate::batch::{first_n, gather, lemma_gather_prefix_error, lemma_gather_step};
use crate::clock::{
    hours_apart, hours_between, is_after, lies_after, minute_format, nanos_of, nanos_since_epoch,
    naive_seconds, read_naive_seconds,
};
use crate::error::{Error, ErrorView};
use crate::game::{
    game_views, player_views, ExtraGameData, ExtraView, Game, GameView, GolfPlayer,
    GolfPlayerView,
};
use crate::json::{
    as_array, as_object, as_str, as_u64, as_u64_str, get_array_from_value, get_object,
    get_object_from_value, get_str, get_str_from_value, get_u64, get_u64_str,
    get_u64_str_from_value, yields, Json,
};
use crate::number::{decimal, decimal_chars};
use crate::pattern::{first_match_groups, group_texts, regex_groups};
use crate::scoreboard::{
    competition_of, first_competition, status_code, status_code_of, yields_games,
};
use crate::sport::{code_status, status_of_code, Level, Sport, SportType, Status};
use crate::text::{
    chars_of, concat_chars, contains, contains_text, copy_chars, join_chars, join_text,
    prefix_chars, prefix_text, same_text, split_chars, split_text, string_of,
    texts, to_upper, uppercase,
};

verus! {

/// `r` is the text, or the failure, that `expected` gives.
pub open spec fn yields_string(r: Result<String, Error>, expected: Result<Seq<char>, ErrorView>) -> bool {
    match expected {
        Ok(text) => r matches Ok(got) && got@ == text,
        Err(e) => r matches Err(got) && got@ == e,
    }
}

/// `r` is the leaderboard line, or the failure, that `expected` gives.
pub open spec fn yields_player(
    r: Result<GolfPlayer, Error>,
    expected: Result<GolfPlayerView, ErrorView>,
) -> bool {
    match expected {
        Ok(player) => r matches Ok(got) && got@ == player,
        Err(e) => r matches Err(got) && got@ == e,
    }
}

/// The view of a leaderboard line that may be absent.
pub open spec fn player_view(player: Option<GolfPlayer>) -> Option<GolfPlayerView> {
    match player {
        Some(p) => Some(p@),
        None => None,
    }
}

/// A competitor's score: the display value of the first statistic, or `E`,
/// for even, where there is no statistic.
pub open spec fn score_of(competitor: Json) -> Result<Seq<char>, ErrorView> {
    match as_array(competitor.member("statistics"@), "statistics"@) {
        Err(e) => Err(e),
        Ok(statistics) => if statistics@.len() == 0 {
            Ok("E"@)
        } else {
            as_str(statistics@[0].member("displayValue"@), "displayValue"@)
        },
    }
}

/// A competitor's place on the leaderboard.
pub open spec fn position_of(competitor: Json) -> Result<u64, ErrorView> {
    match as_object(competitor.member("status"@), "status"@) {
        Err(e) => Err(e),
        Ok(status) => match as_object(status.field("position"@), "position"@) {
            Err(e) => Err(e),
            Ok(position) => as_u64_str(position.field("id"@), "id"@),
        },
    }
}

fn score_in(competitor: &Json) -> (r: Result<String, Error>)
    ensures
        yields_string(r, score_of(*competitor)),
{
    let statistics = get_array_from_value(competitor, "statistics")?;
    if statistics.len() == 0 {
        Ok("E".to_owned())
    } else {
        Ok(get_str_from_value(&statistics[0], "displayValue")?.to_owned())
    }
}

fn position_in(competitor: &Json) -> (r: Result<u64, Error>)
    ensures
        yields(r, position_of(*competitor)),
{
    get_u64_str(get_object(get_object_from_value(competitor, "status")?, "position")?, "id")
}

/// The name under which a member of a team's roster enters the team's
/// name: the first five characters of the last name.
pub open spec fn roster_name(player: Json) -> Result<Option<Seq<char>>, ErrorView> {
    match as_object(player.member("athlete"@), "athlete"@) {
        Err(e) => Err(e),
        Ok(athlete) => match as_str(athlete.field("lastName"@), "lastName"@) {
            Err(e) => Err(e),
            Ok(last_name) => Ok(Some(prefix_text(last_name, 5))),
        },
    }
}

/// `roster_name` as a function.
pub open spec fn roster_name_fn() -> spec_fn(Json) -> Result<Option<Seq<char>>, ErrorView> {
    |player: Json| roster_name(player)
}

/// The leaderboard line of a team in team stroke play: the team is named by
/// its members' shortened last names, joined by `/`, in upper case.
pub open spec fn teamstroke_player(competitor: Json) -> Result<GolfPlayerView, ErrorView> {
    match score_of(competitor) {
        Err(e) => Err(e),
        Ok(score) => match as_array(competitor.member("roster"@), "roster"@) {
            Err(e) => Err(e),
            Ok(roster) => match gather(roster@, roster_name_fn()) {
                Err(e) => Err(e),
                Ok(names) => match position_of(competitor) {
                    Err(e) => Err(e),
                    Ok(position) => {
                        let display = uppercase(join_text(names, "/"@));
                        Ok(
                            GolfPlayerView {
                                name: display,
                                display_name: display,
                                score,
                                position,
                            },
                        )
                    },
                },
            },
        },
    }
}

/// The leaderboard line of a team in team stroke play, from the team's
/// roster.
pub fn from_teamstroke(competitor: &Json) -> (r: Result<GolfPlayer, Error>)
    ensures
        yields_player(r, teamstroke_player(*competitor)),
{
    let score = score_in(competitor)?;
    let roster = get_array_from_value(competitor, "roster")?;
    let mut names: Vec<Vec<char>> = Vec::new();
    let mut i: usize = 0;
    assert(roster@.take(0) =~= Seq::<Json>::empty());
    assert(texts(names@) =~= Seq::<Seq<char>>::empty());
    while i < roster.len()
        invariant
            i <= roster.len(),
            gather(roster@.take(i as int), roster_name_fn()) == Ok::<Seq<Seq<char>>, ErrorView>(
                texts(names@),
            ),
            score_of(*competitor) is Ok,
            as_array(competitor.member("roster"@), "roster"@) == Ok::<Vec<Json>, ErrorView>(
                *roster,
            ),
        decreases roster.len() - i,
    {
        let ghost before = texts(names@);
        proof {
            lemma_gather_step(roster@, i as int, roster_name_fn());
            lemma_gather_prefix_error(roster@, i + 1, roster_name_fn());
        }
        let last_name = get_str(get_object_from_value(&roster[i], "athlete")?, "lastName")?;
        names.push(prefix_chars(&chars_of(last_name), 5));
        assert(texts(names@) =~= before.push(prefix_text(last_name@, 5)));
        i += 1;
    }
    assert(roster@.take(roster.len() as int) =~= roster@);
    let joined = string_of(&join_chars(&names, &chars_of("/")));
    let display_name = to_upper(joined.as_str());
    let position: u64 = position_in(competitor)?;
    Ok(GolfPlayer { name: display_name.clone(), display_name, score, position })
}

/// The pattern that a line of a team event's raw leaderboard matches: two
/// names around a `/`, then the score.
pub open spec fn raw_line_pattern() -> Seq<char> {
    ".*\\s([a-zA-z ]+)/([a-zA-z ]+)\\s*([^\\s]+)+"@
}

/// The leaderboard line that the groups of a match give: the two names,
/// each cut to five characters, joined by `/`, and the score. There is none
/// without a match, or where the match has not the pattern's three groups.
pub open spec fn groups_player(groups: Option<Seq<Option<Seq<char>>>>, position: u64) -> Option<
    GolfPlayerView,
> {
    match groups {
        None => None,
        Some(g) => if g.len() == 4 {
            match (g[1], g[2], g[3]) {
                (Some(first), Some(second), Some(score)) => {
                    let display = prefix_text(first, 5) + "/"@ + prefix_text(second, 5);
                    Some(GolfPlayerView { name: display, display_name: display, score, position })
                },
                _ => None,
            }
        } else {
            None
        },
    }
}

/// The leaderboard line that a line of a raw leaderboard gives.
pub open spec fn raw_line_player(line: Seq<char>, position: u64) -> Option<GolfPlayerView> {
    groups_player(regex_groups(raw_line_pattern(), line), position)
}

/// The leaderboard line that the groups of a match give.
pub fn player_from_groups(groups: &Vec<Option<String>>, position: u64) -> (r: Option<GolfPlayer>)
    ensures
        player_view(r) == groups_player(Some(group_texts(groups@)), position),
{
    if groups.len() != 4 {
        return None;
    }
    match (&groups[1], &groups[2], &groups[3]) {
        (Some(first), Some(second), Some(score)) => {
            let left = prefix_chars(&chars_of(first.as_str()), 5);
            let right = prefix_chars(&chars_of(second.as_str()), 5);
            let display = string_of(
                &concat_chars(&concat_chars(&left, &chars_of("/")), &right),
            );
            Some(
                GolfPlayer {
                    name: display.clone(),
                    display_name: display,
                    score: score.clone(),
                    position,
                },
            )
        },
        _ => None,
    }
}

/// The leaderboard line that a line of a raw leaderboard gives, if the line
/// is one of a team and its score.
pub fn from_raw_data(line: &str, position: usize) -> (r: Option<GolfPlayer>)
    ensures
        player_view(r) == raw_line_player(line@, position as u64),
{
    match first_match_groups(".*\\s([a-zA-z ]+)/([a-zA-z ]+)\\s*([^\\s]+)+", line) {
        Some(groups) => player_from_groups(&groups, position as u64),
        None => None,
    }
}

/// Whether a word of a name is a suffix and no part of the surname.
pub open spec fn is_name_suffix(word: Seq<char>) -> bool {
    word == "JR."@ || word == "JR"@ || word == "SR."@ || word == "SR"@ || word == "II"@ || word
        == "III"@ || word == "IV"@ || word == "V"@ || word == "VI"@
}

/// The last of the words that is no suffix.
pub open spec fn last_proper_word(words: Seq<Seq<char>>) -> Option<Seq<char>>
    decreases words.len(),
{
    if words.len() == 0 {
        None
    } else if !is_name_suffix(words.last()) {
        Some(words.last())
    } else {
        last_proper_word(words.drop_last())
    }
}

/// The surname in a full name in upper case: the last of its words, split
/// at single spaces, that is no suffix.
pub open spec fn surname_of(full_name: Seq<char>) -> Option<Seq<char>> {
    last_proper_word(split_text(full_name, ' '))
}

fn is_suffix_word(word: &Vec<char>) -> (r: bool)
    ensures
        r == is_name_suffix(word@),
{
    let text = string_of(word);
    let w = text.as_str();
    same_text(w, "JR.") || same_text(w, "JR") || same_text(w, "SR.") || same_text(w, "SR")
        || same_text(w, "II") || same_text(w, "III") || same_text(w, "IV") || same_text(w, "V")
        || same_text(w, "VI")
}

/// The surname in a full name in upper case, if it has one.
pub fn surname(full_name: &str) -> (r: Option<String>)
    ensures
        match surname_of(full_name@) {
            Some(name) => r matches Some(got) && got@ == name,
            None => r is None,
        },
{
    let words = split_chars(&chars_of(full_name), ' ');
    let mut i: usize = words.len();
    assert(texts(words@).take(i as int) =~= texts(words@));
    while i > 0
        invariant
            i <= words.len(),
            texts(words@) == split_text(full_name@, ' '),
            last_proper_word(texts(words@)) == last_proper_word(texts(words@).take(i as int)),
        decreases i,
    {
        let ghost upto = texts(words@).take(i as int);
        assert(upto.last() == words@[i - 1]@);
        assert(upto.drop_last() =~= texts(words@).take(i - 1));
        if !is_suffix_word(&words[i - 1]) {
            return Some(string_of(&words[i - 1]));
        }
        i -= 1;
    }
    None
}

/// The leaderboard line of a single player: the full name in upper case,
/// and the surname as the name to display.
pub open spec fn competitor_player(competitor: Json) -> Result<GolfPlayerView, ErrorView> {
    match score_of(competitor) {
        Err(e) => Err(e),
        Ok(score) => match as_object(competitor.member("athlete"@), "athlete"@) {
            Err(e) => Err(e),
            Ok(athlete) => match as_str(athlete.field("displayName"@), "displayName"@) {
                Err(e) => Err(e),
                Ok(display) => match surname_of(uppercase(display)) {
                    None => Err(ErrorView::ParseError("displayName holds no surname"@)),
                    Some(last_name) => match position_of(competitor) {
                        Err(e) => Err(e),
                        Ok(position) => Ok(
                            GolfPlayerView {
                                name: uppercase(display),
                                display_name: last_name,
                                score,
                                position,
                            },
                        ),
                    },
                },
            },
        },
    }
}

/// The leaderboard line of a single player. A name that is made of
/// suffixes alone is refused.
pub fn from_competitor(competitor: &Json) -> (r: Result<GolfPlayer, Error>)
    ensures
        yields_player(r, competitor_player(*competitor)),
{
    let score = score_in(competitor)?;
    let display = get_str(get_object_from_value(competitor, "athlete")?, "displayName")?;
    let full_name = to_upper(display);
    let last_name = match surname(full_name.as_str()) {
        Some(name) => name,
        None => {
            return Err(Error::ParseError("displayName holds no surname".to_owned()));
        },
    };
    let position: u64 = position_in(competitor)?;
    Ok(GolfPlayer { name: full_name, display_name: last_name, score, position })
}

/// A sorted run with one more line put in: after every line whose position
/// is not greater than its own.
pub open spec fn insert_by_position(sorted: Seq<GolfPlayerView>, player: GolfPlayerView) -> Seq<
    GolfPlayerView,
>
    decreases sorted.len(),
{
    if sorted.len() == 0 {
        seq![player]
    } else if sorted.last().position <= player.position {
        sorted.push(player)
    } else {
        insert_by_position(sorted.drop_last(), player).push(sorted.last())
    }
}

/// The lines in ascending order of position; lines with the same position
/// keep their order.
pub open spec fn sort_by_position(players: Seq<GolfPlayerView>) -> Seq<GolfPlayerView>
    decreases players.len(),
{
    if players.len() == 0 {
        Seq::<GolfPlayerView>::empty()
    } else {
        insert_by_position(sort_by_position(players.drop_last()), players.last())
    }
}

/// Whether positions never fall along the run.
pub open spec fn ascending(players: Seq<GolfPlayerView>) -> bool {
    forall|i: int, j: int| 0 <= i <= j < players.len() ==> players[i].position <= players[j].position
}

/// Putting a line in at `at` is what `insert_by_position` does, where every
/// line from `at` on has a greater position and the line before `at`, if
/// any, has not.
proof fn lemma_insert_at(sorted: Seq<GolfPlayerView>, player: GolfPlayerView, at: int)
    requires
        0 <= at <= sorted.len(),
        forall|k: int| at <= k < sorted.len() ==> sorted[k].position > player.position,
        at > 0 ==> sorted[at - 1].position <= player.position,
    ensures
        insert_by_position(sorted, player) == sorted.insert(at, player),
    decreases sorted.len() - at,
{
    if at == sorted.len() {
        assert(sorted.insert(at, player) =~= sorted.push(player));
        if sorted.len() == 0 {
            assert(sorted.push(player) =~= seq![player]);
        }
    } else {
        lemma_insert_at(sorted.drop_last(), player, at);
        assert(sorted.drop_last().insert(at, player).push(sorted.last()) =~= sorted.insert(
            at,
            player,
        ));
    }
}

/// Putting a line into an ascending run leaves it ascending, with the same
/// lines and the new one.
pub proof fn lemma_insert_ascending(sorted: Seq<GolfPlayerView>, player: GolfPlayerView)
    requires
        ascending(sorted),
    ensures
        ascending(insert_by_position(sorted, player)),
        insert_by_position(sorted, player).len() == sorted.len() + 1,
        insert_by_position(sorted, player).to_multiset() == sorted.to_multiset().insert(player),
    decreases sorted.len(),
{
    broadcast use vstd::seq_lib::group_to_multiset_ensures;

    let result = insert_by_position(sorted, player);
    if sorted.len() == 0 {
        assert(sorted =~= Seq::<GolfPlayerView>::empty());
        assert(result =~= Seq::<GolfPlayerView>::empty().push(player));
    } else if sorted.last().position <= player.position {
    } else {
        let head = sorted.drop_last();
        lemma_insert_ascending(head, player);
        let inner = insert_by_position(head, player);
        assert(sorted =~= head.push(sorted.last()));
        assert forall|i: int| 0 <= i < inner.len() implies inner[i].position
            <= sorted.last().position by {
            assert(inner.to_multiset().count(inner[i]) > 0);
            if inner[i] != player {
                assert(head.to_multiset().count(inner[i]) > 0);
                let k = choose|k: int| 0 <= k < head.len() && head[k] == inner[i];
                assert(sorted[k] == head[k]);
            }
        }
        assert(result.to_multiset() =~= sorted.to_multiset().insert(player));
    }
}

/// Sorting gives an ascending run of the same lines.
pub proof fn lemma_sort_ascending(players: Seq<GolfPlayerView>)
    ensures
        ascending(sort_by_position(players)),
        sort_by_position(players).len() == players.len(),
        sort_by_position(players).to_multiset() == players.to_multiset(),
    decreases players.len(),
{
    broadcast use vstd::seq_lib::group_to_multiset_ensures;

    if players.len() == 0 {
        assert(players =~= Seq::<GolfPlayerView>::empty());
    } else {
        lemma_sort_ascending(players.drop_last());
        lemma_insert_ascending(sort_by_position(players.drop_last()), players.last());
        assert(players =~= players.drop_last().push(players.last()));
    }
}

/// The lines in ascending order of position; lines with the same position
/// keep their order.
pub fn sort_players(players: &Vec<GolfPlayer>) -> (r: Vec<GolfPlayer>)
    ensures
        player_views(r@) == sort_by_position(player_views(players@)),
{
    let mut sorted: Vec<GolfPlayer> = Vec::new();
    let mut i: usize = 0;
    assert(player_views(players@).take(0) =~= Seq::<GolfPlayerView>::empty());
    assert(player_views(sorted@) =~= Seq::<GolfPlayerView>::empty());
    while i < players.len()
        invariant
            i <= players.len(),
            player_views(sorted@) == sort_by_position(player_views(players@).take(i as int)),
        decreases players.len() - i,
    {
        let player = players[i].clone();
        let ghost before = player_views(sorted@);
        let mut at: usize = sorted.len();
        while at > 0 && sorted[at - 1].position > player.position
            invariant
                at <= sorted.len(),
                forall|k: int| at <= k < sorted.len() ==> sorted@[k].position > player.position,
            decreases at,
        {
            at -= 1;
        }
        proof {
            assert(before.len() == sorted.len());
            assert forall|k: int| at <= k < before.len() implies before[k].position
                > player@.position by {
                assert(before[k] == sorted@[k]@);
            }
            if at > 0 {
                assert(before[at - 1] == sorted@[at - 1]@);
            }
            lemma_insert_at(before, player@, at as int);
            let next = player_views(players@).take(i + 1);
            assert(next.drop_last() =~= player_views(players@).take(i as int));
            assert(next.last() == players@[i as int]@);
        }
        sorted.insert(at, player);
        assert(player_views(sorted@) =~= before.insert(at as int, player@));
        i += 1;
    }
    assert(player_views(players@).take(players.len() as int) =~= player_views(players@));
    sorted
}

/// The first five lines, or all of them where there are fewer.
pub fn top_five(players: Vec<GolfPlayer>) -> (r: Vec<GolfPlayer>)
    ensures
        player_views(r@) == first_n(player_views(players@), 5),
{
    let mut top = players;
    if top.len() > 5 {
        top.truncate(5);
    }
    assert(player_views(top@) =~= first_n(player_views(players@), 5));
    top
}

/// The first lines of an ascending run are ascending, and the first five
/// are at most five.
pub proof fn lemma_top_ascending(players: Seq<GolfPlayerView>)
    requires
        ascending(players),
    ensures
        ascending(first_n(players, 5)),
        first_n(players, 5).len() <= 5,
{
}

/// The time at which a competitor tees off, in seconds since the Unix
/// epoch, where the competitor's status gives one.
pub open spec fn tee_seconds(player: Json) -> Result<Option<i64>, ErrorView> {
    match as_object(player.member("status"@), "status"@) {
        Err(e) => Err(e),
        Ok(status) => match as_str(status.field("teeTime"@), "teeTime"@) {
            Err(_) => Ok(None),
            Ok(text) => match naive_seconds(text, minute_format()) {
                None => Err(ErrorView::TimeParseError(text)),
                Some(seconds) => Ok(Some(seconds)),
            },
        },
    }
}

/// `tee_seconds` as a function.
pub open spec fn tee_seconds_fn() -> spec_fn(Json) -> Result<Option<i64>, ErrorView> {
    |player: Json| tee_seconds(player)
}

/// The least of the times, if there is any.
pub open spec fn minimum(times: Seq<i64>) -> Option<i64>
    decreases times.len(),
{
    if times.len() == 0 {
        None
    } else {
        match minimum(times.drop_last()) {
            None => Some(times.last()),
            Some(least) => if times.last() < least {
                Some(times.last())
            } else {
                Some(least)
            },
        }
    }
}

/// The least of the times is one of them and none is less.
pub proof fn lemma_minimum_least(times: Seq<i64>)
    ensures
        times.len() == 0 <==> minimum(times) is None,
        minimum(times) matches Some(least) ==> times.contains(least) && forall|i: int|
            0 <= i < times.len() ==> least <= times[i],
    decreases times.len(),
{
    if times.len() > 0 {
        let head = times.drop_last();
        lemma_minimum_least(head);
        let least = minimum(times)->0;
        if least == times.last() {
            assert(times[times.len() - 1] == least);
        } else {
            let k = choose|k: int| 0 <= k < head.len() && head[k] == least;
            assert(times[k] == least);
        }
        assert forall|i: int| 0 <= i < times.len() implies least <= times[i] by {
            if i < head.len() {
                assert(head[i] == times[i]);
            }
        }
    }
}

/// The time of an event, in seconds since the Unix epoch: the earliest tee
/// time of its competitors, or the competition's own date where no
/// competitor has a tee time.
pub open spec fn event_seconds(competition: Json, competitors: Seq<Json>) -> Result<i64, ErrorView> {
    match gather(competitors, tee_seconds_fn()) {
        Err(e) => Err(e),
        Ok(times) => match minimum(times) {
            Some(earliest) => Ok(earliest),
            None => match as_str(competition.member("date"@), "date"@) {
                Err(e) => Err(e),
                Ok(date) => match naive_seconds(date, minute_format()) {
                    None => Err(ErrorView::TimeParseError(date)),
                    Some(seconds) => Ok(seconds),
                },
            },
        },
    }
}

/// The least of the times, if there is any.
pub fn earliest(times: &Vec<i64>) -> (r: Option<i64>)
    ensures
        r == minimum(times@),
{
    let mut best: Option<i64> = None;
    let mut i: usize = 0;
    assert(times@.take(0) =~= Seq::<i64>::empty());
    while i < times.len()
        invariant
            i <= times.len(),
            best == minimum(times@.take(i as int)),
        decreases times.len() - i,
    {
        proof {
            let next = times@.take(i + 1);
            assert(next.drop_last() =~= times@.take(i as int));
            assert(next.last() == times@[i as int]);
        }
        let time: i64 = times[i];
        best =
        match best {
            Some(least) => if time < least {
                Some(time)
            } else {
                Some(least)
            },
            None => Some(time),
        };
        i += 1;
    }
    assert(times@.take(times.len() as int) =~= times@);
    best
}

/// The tee times of the competitors that have one, in the competitors'
/// order, in seconds since the Unix epoch. A tee time that cannot be read
/// fails the whole event.
pub fn tee_times(competitors: &Vec<Json>) -> (r: Result<Vec<i64>, Error>)
    ensures
        match gather(competitors@, tee_seconds_fn()) {
            Ok(times) => r matches Ok(got) && got@ == times,
            Err(e) => r matches Err(got) && got@ == e,
        },
{
    let mut times: Vec<i64> = Vec::new();
    let mut i: usize = 0;
    assert(competitors@.take(0) =~= Seq::<Json>::empty());
    while i < competitors.len()
        invariant
            i <= competitors.len(),
            gather(competitors@.take(i as int), tee_seconds_fn()) == Ok::<Seq<i64>, ErrorView>(
                times@,
            ),
        decreases competitors.len() - i,
    {
        proof {
            lemma_gather_step(competitors@, i as int, tee_seconds_fn());
            lemma_gather_prefix_error(competitors@, i + 1, tee_seconds_fn());
        }
        let player_status = get_object_from_value(&competitors[i], "status")?;
        match get_str(player_status, "teeTime") {
            Ok(text) => {
                match read_naive_seconds(text, "%Y-%m-%dT%H:%MZ") {
                    Ok(seconds) => {
                        times.push(seconds);
                    },
                    Err(_) => {
                        return Err(Error::TimeParseError(text.to_owned()));
                    },
                }
            },
            Err(_) => {},
        }
        i += 1;
    }
    assert(competitors@.take(competitors.len() as int) =~= competitors@);
    Ok(times)
}

/// The time of an event, in seconds since the Unix epoch: the earliest tee
/// time, or the competition's own date where there is none.
pub fn event_seconds_of(competition: &Json, competitors: &Vec<Json>) -> (r: Result<i64, Error>)
    ensures
        yields(r, event_seconds(*competition, competitors@)),
{
    let times = tee_times(competitors)?;
    match earliest(&times) {
        Some(earliest) => Ok(earliest),
        None => {
            let date = get_str_from_value(competition, "date")?;
            match read_naive_seconds(date, "%Y-%m-%dT%H:%MZ") {
                Ok(seconds) => Ok(seconds),
                Err(_) => Err(Error::TimeParseError(date.to_owned())),
            }
        },
    }
}

/// The number of a line as a position: the line's index, counted from
/// zero, or the largest number that 64 bits hold where the index is greater.
pub open spec fn line_number(index: int) -> u64 {
    if index <= 0 {
        0
    } else if index <= u64::MAX {
        index as u64
    } else {
        u64::MAX
    }
}

/// The leaderboard lines that the lines of a raw leaderboard give, each
/// with the number of its line as its position.
pub open spec fn raw_players(lines: Seq<Seq<char>>) -> Seq<GolfPlayerView>
    decreases lines.len(),
{
    if lines.len() == 0 {
        Seq::<GolfPlayerView>::empty()
    } else {
        let before = raw_players(lines.drop_last());
        match raw_line_player(lines.last(), line_number(lines.len() - 1)) {
            Some(player) => before.push(player),
            None => before,
        }
    }
}

/// What the first lines of a raw leaderboard give is the beginning of what
/// all of them give.
pub proof fn lemma_raw_players_prefix(lines: Seq<Seq<char>>, k: int)
    requires
        0 <= k <= lines.len(),
    ensures
        raw_players(lines.take(k)).len() <= raw_players(lines).len(),
        raw_players(lines.take(k)) == raw_players(lines).take(
            raw_players(lines.take(k)).len() as int,
        ),
    decreases lines.len(),
{
    if k == lines.len() {
        assert(lines.take(k) =~= lines);
        assert(raw_players(lines).take(raw_players(lines).len() as int) =~= raw_players(lines));
    } else {
        assert(lines.drop_last().take(k) =~= lines.take(k));
        lemma_raw_players_prefix(lines.drop_last(), k);
        let part = raw_players(lines.take(k));
        let most = raw_players(lines.drop_last());
        assert(part =~= raw_players(lines).take(part.len() as int));
    }
}

/// The lines of a raw leaderboard come in rising positions, none greater
/// than the number of the last line.
pub proof fn lemma_raw_players_rising(lines: Seq<Seq<char>>)
    ensures
        forall|i: int|
            0 <= i < raw_players(lines).len() ==> (#[trigger] raw_players(lines)[i]).position
                <= line_number(lines.len() - 1),
        ascending(raw_players(lines)),
    decreases lines.len(),
{
    if lines.len() > 0 {
        lemma_raw_players_rising(lines.drop_last());
        let before = raw_players(lines.drop_last());
        let all = raw_players(lines);
        assert(line_number(lines.len() - 2) <= line_number(lines.len() - 1));
        assert forall|i: int| 0 <= i < all.len() implies (#[trigger] all[i]).position
            <= line_number(lines.len() - 1) by {
            if i < before.len() {
                assert(all[i] == before[i]);
            }
        }
        assert forall|i: int, j: int| 0 <= i <= j < all.len() implies all[i].position
            <= all[j].position by {
            if i < before.len() {
                assert(all[i] == before[i]);
            }
            if j < before.len() {
                assert(all[j] == before[j]);
            }
        }
    }
}

/// The first five leaderboard lines of a raw leaderboard.
pub fn raw_leaderboard(raw: &str) -> (r: Vec<GolfPlayer>)
    ensures
        player_views(r@) == first_n(raw_players(split_text(raw@, '\n')), 5),
{
    let lines = split_chars(&chars_of(raw), '\n');
    let mut players: Vec<GolfPlayer> = Vec::new();
    let mut i: usize = 0;
    assert(texts(lines@).take(0) =~= Seq::<Seq<char>>::empty());
    assert(player_views(players@) =~= Seq::<GolfPlayerView>::empty());
    while i < lines.len() && players.len() < 5
        invariant
            i <= lines.len(),
            players.len() <= 5,
            player_views(players@) == raw_players(texts(lines@).take(i as int)),
        decreases lines.len() - i,
    {
        let ghost before = player_views(players@);
        proof {
            let next = texts(lines@).take(i + 1);
            assert(next.drop_last() =~= texts(lines@).take(i as int));
            assert(next.last() == lines@[i as int]@);
            assert(line_number(next.len() - 1) == i as u64);
        }
        let line = string_of(&lines[i]);
        match from_raw_data(line.as_str(), i) {
            Some(player) => {
                players.push(player);
                assert(player_views(players@) =~= before.push(player@));
            },
            None => {},
        }
        i += 1;
    }
    proof {
        lemma_raw_players_prefix(texts(lines@), i as int);
        if i == lines.len() {
            assert(texts(lines@).take(i as int) =~= texts(lines@));
        }
    }
    players
}

/// The leaderboard line of a team, as a step of a batch.
pub open spec fn teamstroke_fn() -> spec_fn(Json) -> Result<Option<GolfPlayerView>, ErrorView> {
    |competitor: Json|
        match teamstroke_player(competitor) {
            Ok(player) => Ok(Some(player)),
            Err(e) => Err(e),
        }
}

/// The leaderboard line of a single player, as a step of a batch.
pub open spec fn competitor_fn() -> spec_fn(Json) -> Result<Option<GolfPlayerView>, ErrorView> {
    |competitor: Json|
        match competitor_player(competitor) {
            Ok(player) => Ok(Some(player)),
            Err(e) => Err(e),
        }
}

/// The competitors' leaderboard lines, sorted by position, cut to five.
pub open spec fn ranked(competitors: Seq<Json>, teams: bool) -> Result<
    Seq<GolfPlayerView>,
    ErrorView,
> {
    match gather(
        competitors,
        if teams {
            teamstroke_fn()
        } else {
            competitor_fn()
        },
    ) {
        Err(e) => Err(e),
        Ok(all) => Ok(first_n(sort_by_position(all), 5)),
    }
}

/// `r` is the leaderboard lines, or the failure, that `expected` gives.
pub open spec fn yields_players(
    r: Result<Vec<GolfPlayer>, Error>,
    expected: Result<Seq<GolfPlayerView>, ErrorView>,
) -> bool {
    match expected {
        Ok(players) => r matches Ok(got) && player_views(got@) == players,
        Err(e) => r matches Err(got) && got@ == e,
    }
}

/// The competitors' leaderboard lines, sorted by position, cut to five.
pub fn ranked_players(competitors: &Vec<Json>, teams: bool) -> (r: Result<Vec<GolfPlayer>, Error>)
    ensures
        yields_players(r, ranked(competitors@, teams)),
{
    let mut all: Vec<GolfPlayer> = Vec::new();
    let mut i: usize = 0;
    let ghost each = if teams {
        teamstroke_fn()
    } else {
        competitor_fn()
    };
    assert(competitors@.take(0) =~= Seq::<Json>::empty());
    assert(player_views(all@) =~= Seq::<GolfPlayerView>::empty());
    while i < competitors.len()
        invariant
            i <= competitors.len(),
            each == if teams {
                teamstroke_fn()
            } else {
                competitor_fn()
            },
            gather(competitors@.take(i as int), each) == Ok::<Seq<GolfPlayerView>, ErrorView>(
                player_views(all@),
            ),
        decreases competitors.len() - i,
    {
        let ghost before = player_views(all@);
        proof {
            lemma_gather_step(competitors@, i as int, each);
            lemma_gather_prefix_error(competitors@, i + 1, each);
        }
        let player = if teams {
            from_teamstroke(&competitors[i])?
        } else {
            from_competitor(&competitors[i])?
        };
        all.push(player);
        assert(player_views(all@) =~= before.push(player@));
        i += 1;
    }
    assert(competitors@.take(competitors.len() as int) =~= competitors@);
    Ok(top_five(sort_players(&all)))
}

/// The state of an event and its leaderboard. Team stroke play is read
/// from the competition's raw leaderboard where it has one, and an event
/// being played whose raw leaderboard holds `COMPLETE` has ended; otherwise
/// the leaderboard is made from the competitors.
pub open spec fn leaderboard(
    competition: Json,
    competitors: Seq<Json>,
    system: Seq<char>,
    status: Status,
) -> Result<(Status, Seq<GolfPlayerView>), ErrorView> {
    if system == "Teamstroke"@ {
        match as_str(competition.member("rawData"@), "rawData"@) {
            Ok(raw) => Ok(
                (
                    if status == Status::Active && contains_text(raw, "COMPLETE"@) {
                        Status::End
                    } else {
                        status
                    },
                    first_n(raw_players(split_text(raw, '\n')), 5),
                ),
            ),
            Err(_) => match ranked(competitors, true) {
                Err(e) => Err(e),
                Ok(players) => Ok((status, players)),
            },
        }
    } else {
        match ranked(competitors, false) {
            Err(e) => Err(e),
            Ok(players) => Ok((status, players)),
        }
    }
}

fn leaderboard_of(competition: &Json, competitors: &Vec<Json>, system: &str, status: Status) -> (r:
    Result<(Status, Vec<GolfPlayer>), Error>)
    ensures
        match leaderboard(*competition, competitors@, system@, status) {
            Ok((state, players)) => r matches Ok(got) && got.0 == state && player_views(got.1@)
                == players,
            Err(e) => r matches Err(got) && got@ == e,
        },
{
    if same_text(system, "Teamstroke") {
        match get_str_from_value(competition, "rawData") {
            Ok(raw) => {
                let state = match status {
                    Status::Active => if contains(raw, "COMPLETE") {
                        Status::End
                    } else {
                        status
                    },
                    _ => status,
                };
                Ok((state, raw_leaderboard(raw)))
            },
            Err(_) => {
                let players = ranked_players(competitors, true)?;
                Ok((status, players))
            },
        }
    } else {
        let players = ranked_players(competitors, false)?;
        Ok((status, players))
    }
}

/// The short form of a tournament's name, for the names that have one.
pub open spec fn alias_of(name: Seq<char>) -> Seq<char> {
    if name == "SHRINERS CHILDREN'S OPEN"@ {
        "SHRINERS OPEN"@
    } else if name == "BUTTERFIELD BERMUDA CHAMPIONSHIP"@ {
        "BERMUDA CHAMP"@
    } else if name == "WORLD WIDE TECHNOLOGY CHAMPIONSHIP AT MAYAKOBA"@ {
        "WWT CHAMP"@
    } else if name == "FARMERS INSURANCE OPEN"@ {
        "FARMERS OPEN"@
    } else if name == "SONY OPEN IN HAWAII"@ {
        "SONY OPEN"@
    } else if name == "AT&T PEBBLE BEACH PRO-AM"@ {
        "PEBBLE BEACH"@
    } else if name == "WASTE MANAGEMENT PHOENIX OPEN"@ {
        "WM PHOENIX"@
    } else if name == "CORALES PUNTACANA CHAMPIONSHIP"@ {
        "PUTACANA CHAMP"@
    } else if name == "VALERO TEXAS OPEN"@ {
        "VALERO OPEN"@
    } else if name == "RBC CANADIAN OPEN"@ {
        "RBC CANADIAN"@
    } else if name == "GENESIS SCOTTISH OPEN"@ {
        "SCOTTISH OPEN"@
    } else if name == "THE CJ CUP IN SOUTH CAROLINA"@ {
        "CJ CUP"@
    } else if name == "CADENCE BANK HOUSTON OPEN"@ {
        "HOUSTON OPEN"@
    } else {
        name
    }
}

/// Whether a word of a tournament's name says nothing and is left out.
pub open spec fn is_filler(word: Seq<char>) -> bool {
    word == "TOURNAMENT"@ || word == "CHAMPIONSHIP"@ || word == "CHALLENGE"@ || word == "CLASSIC"@
        || word == "INVITATIONAL"@
}

/// The words that say something, in their order.
pub open spec fn telling_words(words: Seq<Seq<char>>) -> Seq<Seq<char>>
    decreases words.len(),
{
    if words.len() == 0 {
        Seq::<Seq<char>>::empty()
    } else if is_filler(words.last()) {
        telling_words(words.drop_last())
    } else {
        telling_words(words.drop_last()).push(words.last())
    }
}

/// The name under which an event is shown, from the provider's short name
/// in upper case: the name's short form where it has one, without the
/// words that say nothing.
pub open spec fn event_name_text(upper_name: Seq<char>) -> Seq<char> {
    join_text(telling_words(split_text(alias_of(upper_name), ' ')), " "@)
}

fn alias(name: String) -> (r: String)
    ensures
        r@ == alias_of(name@),
{
    let n = name.as_str();
    if same_text(n, "SHRINERS CHILDREN'S OPEN") {
        "SHRINERS OPEN".to_owned()
    } else if same_text(n, "BUTTERFIELD BERMUDA CHAMPIONSHIP") {
        "BERMUDA CHAMP".to_owned()
    } else if same_text(n, "WORLD WIDE TECHNOLOGY CHAMPIONSHIP AT MAYAKOBA") {
        "WWT CHAMP".to_owned()
    } else if same_text(n, "FARMERS INSURANCE OPEN") {
        "FARMERS OPEN".to_owned()
    } else if same_text(n, "SONY OPEN IN HAWAII") {
        "SONY OPEN".to_owned()
    } else if same_text(n, "AT&T PEBBLE BEACH PRO-AM") {
        "PEBBLE BEACH".to_owned()
    } else if same_text(n, "WASTE MANAGEMENT PHOENIX OPEN") {
        "WM PHOENIX".to_owned()
    } else if same_text(n, "CORALES PUNTACANA CHAMPIONSHIP") {
        "PUTACANA CHAMP".to_owned()
    } else if same_text(n, "VALERO TEXAS OPEN") {
        "VALERO OPEN".to_owned()
    } else if same_text(n, "RBC CANADIAN OPEN") {
        "RBC CANADIAN".to_owned()
    } else if same_text(n, "GENESIS SCOTTISH OPEN") {
        "SCOTTISH OPEN".to_owned()
    } else if same_text(n, "THE CJ CUP IN SOUTH CAROLINA") {
        "CJ CUP".to_owned()
    } else if same_text(n, "CADENCE BANK HOUSTON OPEN") {
        "HOUSTON OPEN".to_owned()
    } else {
        name
    }
}

fn is_filler_word(word: &Vec<char>) -> (r: bool)
    ensures
        r == is_filler(word@),
{
    let text = string_of(word);
    let w = text.as_str();
    same_text(w, "TOURNAMENT") || same_text(w, "CHAMPIONSHIP") || same_text(w, "CHALLENGE")
        || same_text(w, "CLASSIC") || same_text(w, "INVITATIONAL")
}

/// The name under which an event is shown, from the provider's short name
/// in upper case.
pub fn event_name(upper_name: &str) -> (r: String)
    ensures
        r@ == event_name_text(upper_name@),
{
    let name = alias(upper_name.to_owned());
    let words = split_chars(&chars_of(name.as_str()), ' ');
    let mut kept: Vec<Vec<char>> = Vec::new();
    let mut i: usize = 0;
    assert(texts(words@).take(0) =~= Seq::<Seq<char>>::empty());
    assert(texts(kept@) =~= Seq::<Seq<char>>::empty());
    while i < words.len()
        invariant
            i <= words.len(),
            texts(kept@) == telling_words(texts(words@).take(i as int)),
        decreases words.len() - i,
    {
        let ghost before = texts(kept@);
        proof {
            let next = texts(words@).take(i + 1);
            assert(next.drop_last() =~= texts(words@).take(i as int));
            assert(next.last() == words@[i as int]@);
        }
        if !is_filler_word(&words[i]) {
            kept.push(copy_chars(&words[i]));
            assert(texts(kept@) =~= before.push(words@[i as int]@));
        }
        i += 1;
    }
    assert(texts(words@).take(words.len() as int) =~= texts(words@));
    string_of(&join_chars(&kept, &chars_of(" ")))
}

/// The sport of every event that a leaderboard lists.
pub open spec fn golf() -> Sport {
    Sport { sport_type: SportType::Golf, level: Level::Professional }
}

/// The name of the scoring system under which a competition is played.
pub open spec fn scoring_system(competition: Json) -> Result<Seq<char>, ErrorView> {
    match as_object(competition.member("scoringSystem"@), "scoringSystem"@) {
        Err(e) => Err(e),
        Ok(system) => as_str(system.field("name"@), "name"@),
    }
}

/// The game that an event which is not left out gives. An event that is
/// being played and whose time lies after `now` has ended for the day.
pub open spec fn golf_game(
    event: Json,
    competition: Json,
    competitors: Seq<Json>,
    status: Status,
    period: u64,
    game_id: u64,
    seconds: i64,
    now: i64,
) -> Result<GameView, ErrorView> {
    match scoring_system(competition) {
        Err(e) => Err(e),
        Ok(system) => match leaderboard(
            competition,
            competitors,
            system,
            if status == Status::Active && is_after(seconds, now) {
                Status::End
            } else {
                status
            },
        ) {
            Err(e) => Err(e),
            Ok((state, players)) => match as_str(event.member("shortName"@), "shortName"@) {
                Err(e) => Err(e),
                Ok(short_name) => match nanos_of(seconds, 0) {
                    None => Err(ErrorView::TimeParseError("start time out of range"@)),
                    Some(start_time) => Ok(
                        GameView {
                            game_id,
                            sport: golf(),
                            home_team: None,
                            away_team: None,
                            home_team_score: 0,
                            away_team_score: 0,
                            period: 0,
                            status: state,
                            ordinal: decimal(period as nat),
                            start_time,
                            extra: Some(
                                ExtraView::Golf {
                                    event_name: event_name_text(uppercase(short_name)),
                                    players,
                                },
                            ),
                        },
                    ),
                },
            },
        },
    }
}

/// What an event of a leaderboard gives at the time `now`: a game, nothing,
/// or a failure. Nothing is given for an event that is postponed or
/// cancelled, and for one more than twenty-four hours away from `now`
/// unless it is being played or has ended.
pub open spec fn golf_event(event: Json, now: i64) -> Result<Option<GameView>, ErrorView> {
    match first_competition(event) {
        Err(e) => Err(e),
        Ok(competition) => match as_array(competition.member("competitors"@), "competitors"@) {
            Err(e) => Err(e),
            Ok(competitors) => match as_object(competition.member("status"@), "status"@) {
                Err(e) => Err(e),
                Ok(status_object) => match status_code(status_object) {
                    Err(e) => Err(e),
                    Ok(code) => match code_status(code) {
                        None => Err(ErrorView::UnknownStatus(code)),
                        Some(status) => if status == Status::Invalid {
                            Ok(None)
                        } else {
                            match as_u64(status_object.field("period"@), "period"@) {
                                Err(e) => Err(e),
                                Ok(period) => match as_u64_str(competition.member("id"@), "id"@) {
                                    Err(e) => Err(e),
                                    Ok(game_id) => match event_seconds(competition, competitors@) {
                                        Err(e) => Err(e),
                                        Ok(seconds) => if hours_between(now, seconds) > 24
                                            && status != Status::Active && status != Status::End {
                                            Ok(None)
                                        } else {
                                            match golf_game(
                                                event,
                                                competition,
                                                competitors@,
                                                status,
                                                period,
                                                game_id,
                                                seconds,
                                                now,
                                            ) {
                                                Err(e) => Err(e),
                                                Ok(game) => Ok(Some(game)),
                                            }
                                        },
                                    },
                                },
                            }
                        },
                    },
                },
            },
        },
    }
}

/// `golf_event` at a given time, as a function.
pub open spec fn golf_event_fn(now: i64) -> spec_fn(Json) -> Result<Option<GameView>, ErrorView> {
    |event: Json| golf_event(event, now)
}

/// The game that an event gives once its state, its period, its id and its
/// time, in seconds since the Unix epoch, are known. `now` is the present
/// in nanoseconds since the Unix epoch.
pub fn golf_game_of(
    event: &Json,
    competition: &Json,
    competitors: &Vec<Json>,
    status: Status,
    period: u64,
    game_id: u64,
    seconds: i64,
    now: i64,
) -> (r: Result<Game, Error>)
    ensures
        match golf_game(*event, *competition, competitors@, status, period, game_id, seconds, now) {
            Ok(game) => r matches Ok(got) && got@ == game,
            Err(e) => r matches Err(got) && got@ == e,
        },
{
    let system = get_str(get_object_from_value(competition, "scoringSystem")?, "name")?;
    let live = match status {
        Status::Active => if lies_after(seconds, now) {
            Status::End
        } else {
            status
        },
        _ => status,
    };
    let (state, players) = leaderboard_of(competition, competitors, system, live)?;
    let short_name = get_str_from_value(event, "shortName")?;
    let upper = to_upper(short_name);
    let start_time: i64 = match nanos_since_epoch(seconds, 0) {
        Some(nanos) => nanos,
        None => {
            return Err(Error::TimeParseError("start time out of range".to_owned()));
        },
    };
    Ok(
        Game {
            game_id,
            sport: Sport { sport_type: SportType::Golf, level: Level::Professional },
            home_team: None,
            away_team: None,
            home_team_score: 0,
            away_team_score: 0,
            period: 0,
            status: state,
            ordinal: string_of(&decimal_chars(period)),
            start_time,
            extra: Some(
                ExtraGameData::Golf { event_name: event_name(upper.as_str()), players },
            ),
        },
    )
}

/// Turns one event of a leaderboard into a game, or leaves it out.
pub fn process_golf_event(event: &Json, now: i64) -> (r: Result<Option<Game>, Error>)
    ensures
        crate::scoreboard::yields_game(r, golf_event(*event, now)),
        r matches Ok(Some(game)) ==> is_ranked_board(game@),
{
    proof {
        lemma_golf_event_game(*event, now);
    }
    let competition = competition_of(event)?;
    let competitors = get_array_from_value(competition, "competitors")?;
    let status_object = get_object_from_value(competition, "status")?;
    let code = status_code_of(status_object)?;
    let status = match status_of_code(code) {
        Some(status) => status,
        None => {
            return Err(Error::UnknownStatus(code.to_owned()));
        },
    };
    match status {
        Status::Invalid => {
            return Ok(None);
        },
        _ => {},
    }
    let period: u64 = get_u64(status_object, "period")?;
    let game_id: u64 = get_u64_str_from_value(competition, "id")?;
    let seconds: i64 = event_seconds_of(competition, competitors)?;
    let settled = match status {
        Status::Active => true,
        Status::End => true,
        _ => false,
    };
    if hours_apart(now, seconds) > 24 && !settled {
        return Ok(None);
    }
    let game = golf_game_of(
        event,
        competition,
        competitors,
        status,
        period,
        game_id,
        seconds,
        now,
    )?;
    Ok(Some(game))
}

/// The games that the events of a leaderboard give at the time `now`, in
/// the events' order. The first event that fails makes the whole batch
/// fail.
pub open spec fn golf_games(events: Seq<Json>, now: i64) -> Result<Seq<GameView>, ErrorView> {
    gather(events, golf_event_fn(now))
}

/// Turns the events of a leaderboard into games.
pub fn process_golf(events: &Vec<Json>, now: i64) -> (r: Result<Vec<Game>, Error>)
    ensures
        yields_games(r, golf_games(events@, now)),
        r matches Ok(games) ==> forall|i: int|
            0 <= i < games@.len() ==> is_ranked_board((#[trigger] games@[i])@),
{
    let mut games: Vec<Game> = Vec::new();
    let mut i: usize = 0;
    assert(events@.take(0) =~= Seq::<Json>::empty());
    assert(game_views(games@) =~= Seq::<GameView>::empty());
    while i < events.len()
        invariant
            i <= events.len(),
            gather(events@.take(i as int), golf_event_fn(now)) == Ok::<Seq<GameView>, ErrorView>(
                game_views(games@),
            ),
        decreases events.len() - i,
    {
        let ghost before = game_views(games@);
        proof {
            lemma_gather_step(events@, i as int, golf_event_fn(now));
            lemma_gather_prefix_error(events@, i + 1, golf_event_fn(now));
        }
        match process_golf_event(&events[i], now) {
            Err(e) => {
                return Err(e);
            },
            Ok(None) => {},
            Ok(Some(game)) => {
                games.push(game);
                assert(game_views(games@) =~= before.push(game@));
            },
        }
        i += 1;
    }
    proof {
        assert(events@.take(events.len() as int) =~= events@);
        lemma_golf_games_ranked(events@, now);
        let views = game_views(games@);
        assert(golf_games(events@, now) == Ok::<Seq<GameView>, ErrorView>(views));
        assert forall|i: int| 0 <= i < games@.len() implies is_ranked_board(
            (#[trigger] games@[i])@,
        ) by {
            let all = golf_games(events@, now)->Ok_0;
            assert(all[i] == games@[i]@);
            assert(is_ranked_board(all[i]));
        }
    }
    Ok(games)
}

/// Whether a competition has a raw leaderboard that holds `COMPLETE`.
pub open spec fn raw_is_complete(competition: Json) -> bool {
    as_str(competition.member("rawData"@), "rawData"@) matches Ok(raw) && contains_text(
        raw,
        "COMPLETE"@,
    )
}

/// A leaderboard never has more than five lines, and their positions never
/// fall from one line to the next.
pub proof fn lemma_leaderboard_ranked(
    competition: Json,
    competitors: Seq<Json>,
    system: Seq<char>,
    status: Status,
)
    ensures
        leaderboard(competition, competitors, system, status) matches Ok((_, players))
            ==> players.len() <= 5 && ascending(players),
{
    match leaderboard(competition, competitors, system, status) {
        Ok((_, players)) => {
            if system == "Teamstroke"@ && as_str(competition.member("rawData"@), "rawData"@) is Ok {
                let raw = as_str(competition.member("rawData"@), "rawData"@)->Ok_0;
                lemma_raw_players_rising(split_text(raw, '\n'));
                lemma_top_ascending(raw_players(split_text(raw, '\n')));
            } else {
                let teams = system == "Teamstroke"@;
                let each = if teams {
                    teamstroke_fn()
                } else {
                    competitor_fn()
                };
                let all = gather(competitors, each)->Ok_0;
                lemma_sort_ascending(all);
                lemma_top_ascending(sort_by_position(all));
            }
        },
        Err(_) => {},
    }
}

/// In team stroke play, an event that is being played and whose raw
/// leaderboard holds `COMPLETE` is reported as ended.
pub proof fn lemma_complete_has_ended(competition: Json, competitors: Seq<Json>)
    requires
        raw_is_complete(competition),
    ensures
        leaderboard(competition, competitors, "Teamstroke"@, Status::Active) matches Ok(
            (state, _),
        ) && state == Status::End,
{
}

/// Whether a game's extra data is a leaderboard of at most five lines whose
/// positions never fall from one line to the next.
pub open spec fn is_ranked_board(game: GameView) -> bool {
    game.extra matches Some(ExtraView::Golf { players, .. }) && players.len() <= 5 && ascending(
        players,
    )
}

/// Every game that a leaderboard's event gives is well formed: it has no
/// teams, its extra data is a leaderboard of at most five lines in
/// ascending order of position, and, in team stroke play with a raw
/// leaderboard that holds `COMPLETE`, it is not reported as being played.
pub proof fn lemma_golf_event_game(event: Json, now: i64)
    ensures
        golf_event(event, now) matches Ok(Some(game)) ==> {
            &&& game.well_formed()
            &&& game.sport == golf()
            &&& is_ranked_board(game)
            &&& raw_is_complete(first_competition(event)->Ok_0) && scoring_system(
                first_competition(event)->Ok_0,
            ) == Ok::<Seq<char>, ErrorView>("Teamstroke"@) ==> game.status != Status::Active
        },
{
    match golf_event(event, now) {
        Ok(Some(game)) => {
            let competition = first_competition(event)->Ok_0;
            let competitors = as_array(competition.member("competitors"@), "competitors"@)->Ok_0;
            let status_object = as_object(competition.member("status"@), "status"@)->Ok_0;
            let code = status_code(status_object)->Ok_0;
            let status = code_status(code)->0;
            let seconds = event_seconds(competition, competitors@)->Ok_0;
            let system = scoring_system(competition)->Ok_0;
            let live = if status == Status::Active && is_after(seconds, now) {
                Status::End
            } else {
                status
            };
            lemma_leaderboard_ranked(competition, competitors@, system, live);
        },
        _ => {},
    }
}

/// Every game of a batch has a leaderboard of at most five lines in
/// ascending order of position, and is well formed.
pub proof fn lemma_golf_games_ranked(events: Seq<Json>, now: i64)
    ensures
        golf_games(events, now) matches Ok(games) ==> forall|i: int|
            0 <= i < games.len() ==> is_ranked_board(#[trigger] games[i]) && games[i].well_formed(),
    decreases events.len(),
{
    if events.len() > 0 {
        lemma_golf_games_ranked(events.drop_last(), now);
        lemma_golf_event_game(events.last(), now);
    }
}

} // verus!
