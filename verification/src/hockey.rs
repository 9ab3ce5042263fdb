//! Hockey: the league's schedule gives the day's games, and each game's
//! line score gives its score, its period and its state.

use vstd::prelude::*;
use crate::batch::{gather, lemma_gather_prefix_error, lemma_gather_step};
use crate::clock::{instant_parts, nanos_of, nanos_since_epoch, read_instant};
use crate::error::{Error, ErrorView};
use crate::game::{game_views, ExtraGameData, ExtraView, Game, GameView};
use crate::json::{
    as_array, as_bool, as_object, as_str, as_u64, get_array, get_array_from_value, get_bool,
    get_object, get_object_from_value, get_str, get_str_from_value, get_u64, get_u64_from_value,
    Json, JsonMap,
};
use crate::number::{decimal, decimal_chars};
use crate::scoreboard::{yields_game, yields_games};
use crate::sport::{Sport, SportType, Status};
use crate::team::{get_team_map, team_map_of, yields_team, Team, TeamTables, TeamView};
use crate::text::{append_text, chars_of, concat_chars, same_text, string_of};

verus! {

/// The address of the league's schedule.
pub open spec fn schedule_url() -> Seq<char> {
    "http://statsapi.web.nhl.com/api/v1/schedule"@
}

/// The address of a game's line score.
pub open spec fn linescore_url(game_id: u64) -> Seq<char> {
    "http://statsapi.web.nhl.com/api/v1/game/"@ + decimal(game_id as nat) + "/linescore"@
}

/// The address of the league's schedule.
pub fn get_schedule_url() -> (url: &'static str)
    ensures
        url@ == schedule_url(),
{
    "http://statsapi.web.nhl.com/api/v1/schedule"
}

/// The address of a game's line score.
pub fn get_linescore_url(game_id: u64) -> (url: String)
    ensures
        url@ == linescore_url(game_id),
{
    let head = chars_of("http://statsapi.web.nhl.com/api/v1/game/");
    let id = decimal_chars(game_id);
    let tail = chars_of("/linescore");
    string_of(&concat_chars(&concat_chars(&head, &id), &tail))
}

/// The failure for a team that the league's table does not hold. `side` is
/// `Away` or `Home`.
pub open spec fn unknown_team(side: Seq<char>, id: u64) -> ErrorView {
    ErrorView::ParseError(side + " team '"@ + decimal(id as nat) + "' not present"@)
}

/// The id of the team on one side of a scheduled game.
pub open spec fn side_id(teams: JsonMap, side: Seq<char>) -> Result<u64, ErrorView> {
    match as_object(teams.field(side), side) {
        Err(e) => Err(e),
        Ok(entry) => match as_object(entry.field("team"@), "team"@) {
            Err(e) => Err(e),
            Ok(team) => as_u64(team.field("id"@), "id"@),
        },
    }
}

/// The team with the given id in the league's table, which must hold it.
pub open spec fn league_team(table: Map<u64, Team>, side: Seq<char>, id: u64) -> Result<
    TeamView,
    ErrorView,
> {
    if table.contains_key(id) {
        Ok(table[id]@)
    } else {
        Err(unknown_team(side, id))
    }
}

/// What the schedule says of a game before its line score is read: its id,
/// its teams and its start. A postponed game is left out. The state is a
/// placeholder until the line score is read.
pub open spec fn scheduled_game(sport: Sport, game: Json, table: Map<u64, Team>) -> Result<
    Option<GameView>,
    ErrorView,
> {
    match as_object(game.member("status"@), "status"@) {
        Err(e) => Err(e),
        Ok(status) => match status.field("detailedState"@) {
            None => Err(ErrorView::ParseError("No detailed state present"@)),
            Some(state) => if state.is_text("Postponed"@) {
                Ok(None)
            } else {
                match as_str(game.member("gameDate"@), "gameDate"@) {
                    Err(e) => Err(e),
                    Ok(date) => match as_u64(game.member("gamePk"@), "gamePk"@) {
                        Err(e) => Err(e),
                        Ok(game_id) => match as_object(game.member("teams"@), "teams"@) {
                            Err(e) => Err(e),
                            Ok(teams) => match side_id(teams, "away"@) {
                                Err(e) => Err(e),
                                Ok(away_id) => match side_id(teams, "home"@) {
                                    Err(e) => Err(e),
                                    Ok(home_id) => match league_team(table, "Away"@, away_id) {
                                        Err(e) => Err(e),
                                        Ok(away_team) => match league_team(
                                            table,
                                            "Home"@,
                                            home_id,
                                        ) {
                                            Err(e) => Err(e),
                                            Ok(home_team) => match start_of(date) {
                                                None => Err(ErrorView::TimeParseError(date)),
                                                Some(start_time) => Ok(
                                                    Some(
                                                        GameView {
                                                            game_id,
                                                            sport,
                                                            home_team: Some(home_team),
                                                            away_team: Some(away_team),
                                                            home_team_score: 0,
                                                            away_team_score: 0,
                                                            period: 0,
                                                            status: Status::Active,
                                                            ordinal: Seq::<char>::empty(),
                                                            start_time,
                                                            extra: None,
                                                        },
                                                    ),
                                                ),
                                            },
                                        },
                                    },
                                },
                            },
                        },
                    },
                }
            },
        },
    }
}

/// The start that a game's date gives, in nanoseconds since the Unix epoch;
/// `None` where the text is no date or the date is too far to count.
pub open spec fn start_of(date: Seq<char>) -> Option<i64> {
    match instant_parts(date) {
        None => None,
        Some((seconds, beyond)) => nanos_of(seconds, beyond),
    }
}

/// `scheduled_game` for a sport and a table, as a function.
pub open spec fn scheduled_game_fn(sport: Sport, table: Map<u64, Team>) -> spec_fn(Json) -> Result<
    Option<GameView>,
    ErrorView,
> {
    |game: Json| scheduled_game(sport, game, table)
}

/// The games of the first day that the schedule lists, in its order; none
/// where it lists no day.
pub open spec fn scheduled_games(sport: Sport, schedule: JsonMap, table: Map<u64, Team>) -> Result<
    Seq<GameView>,
    ErrorView,
> {
    match as_array(schedule.field("dates"@), "dates"@) {
        Err(e) => Err(e),
        Ok(dates) => if dates@.len() == 0 {
            Ok(Seq::<GameView>::empty())
        } else {
            match as_array(dates@[0].member("games"@), "games"@) {
                Err(e) => Err(e),
                Ok(games) => gather(games@, scheduled_game_fn(sport, table)),
            }
        },
    }
}

fn side_id_of(teams: &JsonMap, side: &str) -> (r: Result<u64, Error>)
    ensures
        crate::json::yields(r, side_id(*teams, side@)),
{
    get_u64(get_object(get_object(teams, side)?, "team")?, "id")
}

fn league_team_of(tables: &TeamTables, sport: &Sport, side: &str, id: u64) -> (r: Result<Team, Error>)
    requires
        sport.sport_type == SportType::Hockey,
    ensures
        yields_team(r, league_team(team_map_of(*tables, *sport)@, side@, id)),
{
    match get_team_map(tables, sport).get(&id) {
        Some(team) => Ok(team.clone()),
        None => {
            let head = chars_of(side);
            let middle = chars_of(" team '");
            let number = decimal_chars(id);
            let tail = chars_of("' not present");
            Err(
                Error::ParseError(
                    string_of(
                        &concat_chars(&concat_chars(&concat_chars(&head, &middle), &number), &tail),
                    ),
                ),
            )
        },
    }
}

fn start_of_date(date: &str) -> (r: Option<i64>)
    ensures
        r == start_of(date@),
{
    match read_instant(date) {
        Ok((seconds, beyond)) => nanos_since_epoch(seconds, beyond),
        Err(_) => None,
    }
}

/// Reads one game of the schedule, or leaves it out.
pub fn schedule_game(sport: &Sport, game: &Json, tables: &TeamTables) -> (r: Result<
    Option<Game>,
    Error,
>)
    requires
        sport.sport_type == SportType::Hockey,
    ensures
        yields_game(r, scheduled_game(*sport, *game, team_map_of(*tables, *sport)@)),
{
    let status = get_object_from_value(game, "status")?;
    let state = match status.get("detailedState") {
        Some(state) => state,
        None => {
            return Err(Error::ParseError("No detailed state present".to_owned()));
        },
    };
    if state.equals_text("Postponed") {
        return Ok(None);
    }
    let date = get_str_from_value(game, "gameDate")?;
    let game_id: u64 = get_u64_from_value(game, "gamePk")?;
    let teams = get_object_from_value(game, "teams")?;
    let away_id: u64 = side_id_of(teams, "away")?;
    let home_id: u64 = side_id_of(teams, "home")?;
    let away_team = league_team_of(tables, sport, "Away", away_id)?;
    let home_team = league_team_of(tables, sport, "Home", home_id)?;
    let start_time: i64 = match start_of_date(date) {
        Some(nanos) => nanos,
        None => {
            return Err(Error::TimeParseError(date.to_owned()));
        },
    };
    Ok(
        Some(
            Game {
                game_id,
                sport: *sport,
                home_team: Some(home_team),
                away_team: Some(away_team),
                home_team_score: 0,
                away_team_score: 0,
                period: 0,
                status: Status::Active,
                ordinal: String::new(),
                start_time,
                extra: None,
            },
        ),
    )
}

/// Reads the day's games from the league's schedule. A team that the
/// league's table does not hold makes the batch fail.
pub fn schedule_games(sport: &Sport, schedule: &JsonMap, tables: &TeamTables) -> (r: Result<
    Vec<Game>,
    Error,
>)
    requires
        sport.sport_type == SportType::Hockey,
    ensures
        yields_games(r, scheduled_games(*sport, *schedule, team_map_of(*tables, *sport)@)),
{
    let dates = get_array(schedule, "dates")?;
    let mut out: Vec<Game> = Vec::new();
    assert(game_views(out@) =~= Seq::<GameView>::empty());
    if dates.len() == 0 {
        return Ok(out);
    }
    let games = get_array_from_value(&dates[0], "games")?;
    let ghost each = scheduled_game_fn(*sport, team_map_of(*tables, *sport)@);
    let mut i: usize = 0;
    assert(games@.take(0) =~= Seq::<Json>::empty());
    while i < games.len()
        invariant
            i <= games.len(),
            sport.sport_type == SportType::Hockey,
            each == scheduled_game_fn(*sport, team_map_of(*tables, *sport)@),
            scheduled_games(*sport, *schedule, team_map_of(*tables, *sport)@) == gather(
                games@,
                each,
            ),
            gather(games@.take(i as int), each) == Ok::<Seq<GameView>, ErrorView>(
                game_views(out@),
            ),
        decreases games.len() - i,
    {
        let ghost before = game_views(out@);
        proof {
            lemma_gather_step(games@, i as int, each);
            lemma_gather_prefix_error(games@, i + 1, each);
        }
        match schedule_game(sport, &games[i], tables) {
            Err(e) => {
                return Err(e);
            },
            Ok(None) => {},
            Ok(Some(game)) => {
                out.push(game);
                assert(game_views(out@) =~= before.push(game@));
            },
        }
        i += 1;
    }
    assert(games@.take(games.len() as int) =~= games@);
    Ok(out)
}

/// The number in the member `name`, or `otherwise` where there is none.
pub open spec fn number_or(object: JsonMap, name: Seq<char>, otherwise: u64) -> u64 {
    match as_u64(object.field(name), name) {
        Ok(n) => n,
        Err(_) => otherwise,
    }
}

/// The string in the member `name`, or `otherwise` where there is none.
pub open spec fn text_or(object: JsonMap, name: Seq<char>, otherwise: Seq<char>) -> Seq<char> {
    match as_str(object.field(name), name) {
        Ok(text) => text,
        Err(_) => otherwise,
    }
}

/// The state of a game by the time that its line score says is left in the
/// period, and whether the period's label is marked as an intermission.
/// `Final` ends the game. `END` ends it from the third period on if the
/// scores differ, and is an intermission otherwise. A full clock of `20:00`
/// is an intermission after the first period and play in the first; any
/// other clock means that the game has not begun.
pub open spec fn hockey_state(period: u64, time_remaining: Seq<char>, home_score: u64, away_score: u64) -> (
    Status,
    bool,
) {
    if time_remaining == "Final"@ {
        (Status::End, false)
    } else if time_remaining == "END"@ {
        if period >= 3 && away_score != home_score {
            (Status::End, false)
        } else {
            (Status::Intermission, true)
        }
    } else if time_remaining == "20:00"@ && period > 1 {
        (Status::Intermission, true)
    } else if time_remaining == "20:00"@ && period >= 1 {
        (Status::Active, false)
    } else {
        (Status::Pregame, false)
    }
}

/// The state of a game by the time left in its period, and whether the
/// period's label is marked as an intermission.
pub fn hockey_status(period: u64, time_remaining: &str, home_score: u64, away_score: u64) -> (r: (
    Status,
    bool,
))
    ensures
        r == hockey_state(period, time_remaining@, home_score, away_score),
{
    if same_text(time_remaining, "Final") {
        (Status::End, false)
    } else if same_text(time_remaining, "END") {
        if period >= 3 && away_score != home_score {
            (Status::End, false)
        } else {
            (Status::Intermission, true)
        }
    } else if same_text(time_remaining, "20:00") && period > 1 {
        (Status::Intermission, true)
    } else if same_text(time_remaining, "20:00") && period >= 1 {
        (Status::Active, false)
    } else {
        (Status::Pregame, false)
    }
}

/// A scheduled game with what its line score adds: the score, each side's
/// power play and skaters, the period with its label, and the state. Goals
/// default to zero, skaters to five, the clock to `20:00` and the label to
/// `1st`; the label is taken from the line score only from the first period
/// on.
pub open spec fn with_linescore(game: GameView, linescore: JsonMap) -> Result<GameView, ErrorView> {
    match as_object(linescore.field("teams"@), "teams"@) {
        Err(e) => Err(e),
        Ok(teams) => match as_object(teams.field("away"@), "away"@) {
            Err(e) => Err(e),
            Ok(away) => match as_object(teams.field("home"@), "home"@) {
                Err(e) => Err(e),
                Ok(home) => match as_bool(away.field("powerPlay"@), "powerPlay"@) {
                    Err(e) => Err(e),
                    Ok(away_powerplay) => match as_bool(home.field("powerPlay"@), "powerPlay"@) {
                        Err(e) => Err(e),
                        Ok(home_powerplay) => match as_u64(
                            linescore.field("currentPeriod"@),
                            "currentPeriod"@,
                        ) {
                            Err(e) => Err(e),
                            Ok(period) => {
                                let away_score = number_or(away, "goals"@, 0);
                                let home_score = number_or(home, "goals"@, 0);
                                let clock = text_or(
                                    linescore,
                                    "currentPeriodTimeRemaining"@,
                                    "20:00"@,
                                );
                                let label = if period >= 1 {
                                    text_or(linescore, "currentPeriodOrdinal"@, "1st"@)
                                } else {
                                    game.ordinal
                                };
                                let state = hockey_state(period, clock, home_score, away_score);
                                Ok(
                                    GameView {
                                        home_team_score: home_score,
                                        away_team_score: away_score,
                                        period,
                                        status: state.0,
                                        ordinal: if state.1 {
                                            label + " INT"@
                                        } else {
                                            label
                                        },
                                        extra: Some(
                                            ExtraView::Hockey {
                                                away_powerplay,
                                                home_powerplay,
                                                away_players: number_or(away, "numSkaters"@, 5),
                                                home_players: number_or(home, "numSkaters"@, 5),
                                            },
                                        ),
                                        ..game
                                    },
                                )
                            },
                        },
                    },
                },
            },
        },
    }
}

fn number_in(object: &JsonMap, name: &str, otherwise: u64) -> (r: u64)
    ensures
        r == number_or(*object, name@, otherwise),
{
    match get_u64(object, name) {
        Ok(n) => n,
        Err(_) => otherwise,
    }
}

fn text_in(object: &JsonMap, name: &str, otherwise: &str) -> (r: String)
    ensures
        r@ == text_or(*object, name@, otherwise@),
{
    match get_str(object, name) {
        Ok(text) => text.to_owned(),
        Err(_) => otherwise.to_owned(),
    }
}

/// Completes a scheduled game from its line score.
pub fn hockey_game(game: Game, linescore: &JsonMap) -> (r: Result<Game, Error>)
    ensures
        match with_linescore(game@, *linescore) {
            Ok(done) => r matches Ok(got) && got@ == done,
            Err(e) => r matches Err(got) && got@ == e,
        },
{
    let mut game = game;
    let teams = get_object(linescore, "teams")?;
    let away = get_object(teams, "away")?;
    let home = get_object(teams, "home")?;
    let away_score: u64 = number_in(away, "goals", 0);
    let home_score: u64 = number_in(home, "goals", 0);
    let away_powerplay = get_bool(away, "powerPlay")?;
    let home_powerplay = get_bool(home, "powerPlay")?;
    let away_players: u64 = number_in(away, "numSkaters", 5);
    let home_players: u64 = number_in(home, "numSkaters", 5);
    let period: u64 = get_u64(linescore, "currentPeriod")?;
    let clock = text_in(linescore, "currentPeriodTimeRemaining", "20:00");
    if period >= 1 {
        game.ordinal = text_in(linescore, "currentPeriodOrdinal", "1st");
    }
    let (status, intermission) = hockey_status(period, clock.as_str(), home_score, away_score);
    if intermission {
        game.ordinal = append_text(game.ordinal.as_str(), " INT");
    }
    game.home_team_score = home_score;
    game.away_team_score = away_score;
    game.period = period;
    game.status = status;
    game.extra = Some(
        ExtraGameData::Hockey { away_powerplay, home_powerplay, away_players, home_players },
    );
    Ok(game)
}

/// A game of the schedule, completed from its line score, is well formed:
/// it has both teams, a state that is not `Invalid`, and hockey's extra data.
pub proof fn lemma_hockey_game_well_formed(
    sport: Sport,
    game: Json,
    table: Map<u64, Team>,
    linescore: JsonMap,
)
    requires
        sport.sport_type == SportType::Hockey,
    ensures
        scheduled_game(sport, game, table) matches Ok(Some(listed)) ==> (with_linescore(
            listed,
            linescore,
        ) matches Ok(done) ==> done.well_formed() && done.game_id == listed.game_id
            && done.home_team == listed.home_team && done.away_team == listed.away_team),
{
}

} // verus!
