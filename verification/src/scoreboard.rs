//! The scoreboards of baseball, football and basketball: each event of a
//! provider's document becomes a game, or is left out.

use vstd::prelude::*;
use crate::baseball::{baseball_data, get_baseball_data, yields_extra};
use crate::basketball::get_basketball_data;
use crate::batch::{gather, lemma_gather_prefix_error, lemma_gather_step};
use crate::clock::{
    hours_apart, hours_between, minute_format, nanos_of, nanos_since_epoch, naive_seconds,
    read_naive_seconds,
};
use crate::error::{Error, ErrorView};
use crate::football::{football_data, get_football_data};
use crate::game::{game_views, ExtraGameData, ExtraView, Game, GameView};
use crate::json::{
    as_array, as_object, as_str, as_u64, as_u64_str, get_array_from_value, get_object,
    get_object_from_value, get_str, get_str_from_value, get_u64, get_u64_str,
    get_u64_str_from_value, yields, yields_ref, yields_text, Json, JsonMap,
};
use crate::period::{ordinal_of, ordinal_text};
use crate::sport::{code_status, status_of_code, Level, Sport, SportType, Status};
use crate::team::{lookup_or_create, resolved_team, team_id_of, team_map_of, Team, TeamTables};
use crate::text::{append_text, same_text};

verus! {

/// Whether a sport's games come from a scoreboard of events that two teams
/// contest.
pub open spec fn is_scoreboard_sport(sport: Sport) -> bool {
    sport.sport_type == SportType::Baseball || sport.sport_type == SportType::Football
        || sport.sport_type == SportType::Basketball
}

/// The address of the document that lists a sport's events.
pub open spec fn espn_url(sport: Sport) -> Seq<char> {
    match (sport.sport_type, sport.level) {
        (SportType::Baseball, _) => "http://site.api.espn.com/apis/site/v2/sports/baseball/mlb/scoreboard"@,
        (SportType::Football, Level::Professional) => "http://site.api.espn.com/apis/site/v2/sports/football/nfl/scoreboard"@,
        (SportType::Football, Level::Collegiate) => "http://site.api.espn.com/apis/site/v2/sports/football/college-football/scoreboard?groups=80"@,
        (SportType::Basketball, Level::Professional) => "http://site.api.espn.com/apis/site/v2/sports/basketball/nba/scoreboard"@,
        (SportType::Basketball, Level::Collegiate) => "http://site.api.espn.com/apis/site/v2/sports/basketball/mens-college-basketball/scoreboard?groups=50"@,
        _ => "http://site.api.espn.com/apis/site/v2/sports/golf/leaderboard?league=pga"@,
    }
}

/// The address of the document that lists a sport's events. Hockey has
/// none: its games come from the league's own schedule.
pub fn get_espn_url(sport: &Sport) -> (url: &'static str)
    requires
        sport.sport_type != SportType::Hockey,
    ensures
        url@ == espn_url(*sport),
{
    match (sport.sport_type, sport.level) {
        (SportType::Baseball, _) => "http://site.api.espn.com/apis/site/v2/sports/baseball/mlb/scoreboard",
        (SportType::Football, Level::Professional) => "http://site.api.espn.com/apis/site/v2/sports/football/nfl/scoreboard",
        (SportType::Football, Level::Collegiate) => "http://site.api.espn.com/apis/site/v2/sports/football/college-football/scoreboard?groups=80",
        (SportType::Basketball, Level::Professional) => "http://site.api.espn.com/apis/site/v2/sports/basketball/nba/scoreboard",
        (SportType::Basketball, Level::Collegiate) => "http://site.api.espn.com/apis/site/v2/sports/basketball/mens-college-basketball/scoreboard?groups=50",
        _ => "http://site.api.espn.com/apis/site/v2/sports/golf/leaderboard?league=pga",
    }
}

/// The first competition of an event.
pub open spec fn first_competition(event: Json) -> Result<Json, ErrorView> {
    match as_array(event.member("competitions"@), "competitions"@) {
        Err(e) => Err(e),
        Ok(list) => if list@.len() == 0 {
            Err(ErrorView::ParseError("Missing competitions"@))
        } else {
            Ok(list@[0])
        },
    }
}

/// The provider's code for the state that a status object describes.
pub open spec fn status_code(status_object: JsonMap) -> Result<Seq<char>, ErrorView> {
    match as_object(status_object.field("type"@), "type"@) {
        Err(e) => Err(e),
        Ok(kind) => as_str(kind.field("name"@), "name"@),
    }
}

/// The first competition of an event.
pub fn competition_of<'a>(event: &'a Json) -> (r: Result<&'a Json, Error>)
    ensures
        yields_ref(r, first_competition(*event)),
{
    let list = get_array_from_value(event, "competitions")?;
    if list.len() == 0 {
        Err(Error::ParseError("Missing competitions".to_owned()))
    } else {
        Ok(&list[0])
    }
}

/// The provider's code for the state that a status object describes.
pub fn status_code_of<'a>(status_object: &'a JsonMap) -> (r: Result<&'a str, Error>)
    ensures
        yields_text(r, status_code(*status_object)),
{
    get_str(get_object(status_object, "type")?, "name")
}

/// The label of the period in which a game stands: `HALFTIME` at half time,
/// else the period's ordinal, followed by ` INT` during an intermission.
pub open spec fn period_label(period: u64, status: Status, code: Seq<char>) -> Seq<char> {
    if code == "STATUS_HALFTIME"@ {
        "HALFTIME"@
    } else if status == Status::Intermission {
        ordinal_text(period as nat) + " INT"@
    } else {
        ordinal_text(period as nat)
    }
}

/// The label of the period in which a game stands.
pub fn period_label_of(period: u64, status: Status, code: &str) -> (r: String)
    ensures
        r@ == period_label(period, status, code@),
{
    if same_text(code, "STATUS_HALFTIME") {
        "HALFTIME".to_owned()
    } else {
        let base = ordinal_of(period);
        match status {
            Status::Intermission => append_text(base.as_str(), " INT"),
            _ => base,
        }
    }
}

/// The id of the team that a competitor stands for.
pub open spec fn competitor_id(competitor: Json) -> Result<u64, ErrorView> {
    match as_object(competitor.member("team"@), "team"@) {
        Err(e) => Err(e),
        Ok(team) => team_id_of(team),
    }
}

fn competitor_id_of(competitor: &Json) -> (r: Result<u64, Error>)
    ensures
        yields(r, competitor_id(*competitor)),
{
    let team = get_object_from_value(competitor, "team")?;
    match get_u64(team, "id") {
        Ok(id) => Ok(id),
        Err(_) => get_u64_str(team, "id"),
    }
}

/// The extra data of a game on a scoreboard, by its sport.
pub open spec fn extra_data(competition: Json, game: GameView) -> Result<ExtraView, ErrorView> {
    match game.sport.sport_type {
        SportType::Baseball => baseball_data(competition),
        SportType::Football => football_data(competition, game),
        _ => Ok(ExtraView::Basketball),
    }
}

/// The extra data of a game on a scoreboard, by its sport.
pub fn get_extra_data(competition: &Json, game: &Game) -> (r: Result<ExtraGameData, Error>)
    requires
        is_scoreboard_sport(game.sport),
    ensures
        yields_extra(r, extra_data(*competition, game@)),
{
    match game.sport.sport_type {
        SportType::Baseball => get_baseball_data(competition),
        SportType::Football => get_football_data(competition, game),
        _ => get_basketball_data(competition),
    }
}

/// The game that a competition which is neither dropped nor stale gives: its
/// period and label, its two teams, home first, its id, the score, and the
/// extra data of its sport.
pub open spec fn scheduled_game(
    sport: Sport,
    competition: Json,
    home: Json,
    away: Json,
    status_object: JsonMap,
    status: Status,
    code: Seq<char>,
    date: Seq<char>,
    seconds: i64,
    table: Map<u64, Team>,
) -> Result<GameView, ErrorView> {
    match as_u64(status_object.field("period"@), "period"@) {
        Err(e) => Err(e),
        Ok(period) => match competitor_id(home) {
            Err(e) => Err(e),
            Ok(home_id) => match competitor_id(away) {
                Err(e) => Err(e),
                Ok(away_id) => match resolved_team(table, home_id, home) {
                    Err(e) => Err(e),
                    Ok(home_team) => match resolved_team(table, away_id, away) {
                        Err(e) => Err(e),
                        Ok(away_team) => match as_u64_str(competition.member("id"@), "id"@) {
                            Err(e) => Err(e),
                            Ok(game_id) => match as_u64_str(home.member("score"@), "score"@) {
                                Err(e) => Err(e),
                                Ok(home_score) => match as_u64_str(
                                    away.member("score"@),
                                    "score"@,
                                ) {
                                    Err(e) => Err(e),
                                    Ok(away_score) => match nanos_of(seconds, 0) {
                                        None => Err(ErrorView::TimeParseError(date)),
                                        Some(start_time) => {
                                            let game = GameView {
                                                game_id,
                                                sport,
                                                home_team: Some(home_team),
                                                away_team: Some(away_team),
                                                home_team_score: home_score,
                                                away_team_score: away_score,
                                                period,
                                                status,
                                                ordinal: period_label(period, status, code),
                                                start_time,
                                                extra: None,
                                            };
                                            match extra_data(competition, game) {
                                                Err(e) => Err(e),
                                                Ok(extra) => Ok(
                                                    GameView { extra: Some(extra), ..game },
                                                ),
                                            }
                                        },
                                    },
                                },
                            },
                        },
                    },
                },
            },
        },
    }
}

/// What an event of a scoreboard gives at the time `now`: a game, nothing,
/// or a failure. Nothing is given for an event that is postponed or
/// cancelled, and for one that starts more than twelve hours before or
/// after `now`. An event must have exactly two competitors and a status code
/// that the library knows.
pub open spec fn event_game(sport: Sport, event: Json, now: i64, table: Map<u64, Team>) -> Result<
    Option<GameView>,
    ErrorView,
> {
    match first_competition(event) {
        Err(e) => Err(e),
        Ok(competition) => match as_array(competition.member("competitors"@), "competitors"@) {
            Err(e) => Err(e),
            Ok(competitors) => match as_object(competition.member("status"@), "status"@) {
                Err(e) => Err(e),
                Ok(status_object) => if competitors@.len() != 2 {
                    Err(ErrorView::ParseError("Failed to unwrap home team and away team"@))
                } else {
                    match status_code(status_object) {
                        Err(e) => Err(e),
                        Ok(code) => match code_status(code) {
                            None => Err(ErrorView::UnknownStatus(code)),
                            Some(status) => if status == Status::Invalid {
                                Ok(None)
                            } else {
                                match as_str(competition.member("date"@), "date"@) {
                                    Err(e) => Err(e),
                                    Ok(date) => match naive_seconds(date, minute_format()) {
                                        None => Err(ErrorView::TimeParseError(date)),
                                        Some(seconds) => if hours_between(now, seconds) > 12 {
                                            Ok(None)
                                        } else {
                                            match scheduled_game(
                                                sport,
                                                competition,
                                                competitors@[0],
                                                competitors@[1],
                                                status_object,
                                                status,
                                                code,
                                                date,
                                                seconds,
                                                table,
                                            ) {
                                                Err(e) => Err(e),
                                                Ok(game) => Ok(Some(game)),
                                            }
                                        },
                                    },
                                }
                            },
                        },
                    }
                },
            },
        },
    }
}

/// `r` is the game, the absence of one, or the failure that `expected` gives.
pub open spec fn yields_game(
    r: Result<Option<Game>, Error>,
    expected: Result<Option<GameView>, ErrorView>,
) -> bool {
    match expected {
        Ok(Some(game)) => r matches Ok(Some(got)) && got@ == game,
        Ok(None) => r matches Ok(None),
        Err(e) => r matches Err(got) && got@ == e,
    }
}

/// `r` is the games, or the failure, that `expected` gives.
pub open spec fn yields_games(
    r: Result<Vec<Game>, Error>,
    expected: Result<Seq<GameView>, ErrorView>,
) -> bool {
    match expected {
        Ok(games) => r matches Ok(got) && game_views(got@) == games,
        Err(e) => r matches Err(got) && got@ == e,
    }
}

/// The game that a competition gives once its two competitors, its state
/// and its start, in seconds since the Unix epoch, are known.
pub fn scheduled_game_of(
    sport: &Sport,
    competition: &Json,
    home: &Json,
    away: &Json,
    status_object: &JsonMap,
    status: Status,
    code: &str,
    date: &str,
    seconds: i64,
    tables: &TeamTables,
) -> (r: Result<Game, Error>)
    requires
        is_scoreboard_sport(*sport),
    ensures
        match scheduled_game(
            *sport,
            *competition,
            *home,
            *away,
            *status_object,
            status,
            code@,
            date@,
            seconds,
            team_map_of(*tables, *sport)@,
        ) {
            Ok(game) => r matches Ok(got) && got@ == game,
            Err(e) => r matches Err(got) && got@ == e,
        },
{
    let period: u64 = get_u64(status_object, "period")?;
    let home_id: u64 = competitor_id_of(home)?;
    let away_id: u64 = competitor_id_of(away)?;
    let home_team = lookup_or_create(tables, sport, home_id, home)?;
    let away_team = lookup_or_create(tables, sport, away_id, away)?;
    let game_id: u64 = get_u64_str_from_value(competition, "id")?;
    let home_score: u64 = get_u64_str_from_value(home, "score")?;
    let away_score: u64 = get_u64_str_from_value(away, "score")?;
    let start_time: i64 = match nanos_since_epoch(seconds, 0) {
        Some(nanos) => nanos,
        None => {
            return Err(Error::TimeParseError(date.to_owned()));
        },
    };
    let mut game = Game {
        game_id,
        sport: *sport,
        home_team: Some(home_team),
        away_team: Some(away_team),
        home_team_score: home_score,
        away_team_score: away_score,
        period,
        status,
        ordinal: period_label_of(period, status, code),
        start_time,
        extra: None,
    };
    let extra = get_extra_data(competition, &game)?;
    game.extra = Some(extra);
    Ok(game)
}

/// Turns one event of a scoreboard into a game, or leaves it out.
pub fn process_event(sport: &Sport, event: &Json, now: i64, tables: &TeamTables) -> (r: Result<
    Option<Game>,
    Error,
>)
    requires
        is_scoreboard_sport(*sport),
    ensures
        yields_game(r, event_game(*sport, *event, now, team_map_of(*tables, *sport)@)),
{
    let competition = competition_of(event)?;
    let competitors = get_array_from_value(competition, "competitors")?;
    let status_object = get_object_from_value(competition, "status")?;
    if competitors.len() != 2 {
        return Err(Error::ParseError("Failed to unwrap home team and away team".to_owned()));
    }
    let code = status_code_of(status_object)?;
    let status = match status_of_code(code) {
        Some(status) => status,
        None => {
            return Err(Error::UnknownStatus(code.to_owned()));
        },
    };
    match status {
        Status::Invalid => {
            return Ok(None);
        },
        _ => {},
    }
    let date = get_str_from_value(competition, "date")?;
    let seconds: i64 = match read_naive_seconds(date, "%Y-%m-%dT%H:%MZ") {
        Ok(seconds) => seconds,
        Err(_) => {
            return Err(Error::TimeParseError(date.to_owned()));
        },
    };
    if hours_apart(now, seconds) > 12 {
        return Ok(None);
    }
    let game = scheduled_game_of(
        sport,
        competition,
        &competitors[0],
        &competitors[1],
        status_object,
        status,
        code,
        date,
        seconds,
        tables,
    )?;
    Ok(Some(game))
}

/// `event_game` for a sport, a time and a table, as a function.
pub open spec fn event_game_fn(sport: Sport, now: i64, table: Map<u64, Team>) -> spec_fn(
    Json,
) -> Result<Option<GameView>, ErrorView> {
    |event: Json| event_game(sport, event, now, table)
}

/// The games that the events of a scoreboard give, in the events' order. The
/// first event that fails makes the whole batch fail.
pub open spec fn events_games(sport: Sport, events: Seq<Json>, now: i64, table: Map<u64, Team>) -> Result<
    Seq<GameView>,
    ErrorView,
> {
    gather(events, event_game_fn(sport, now, table))
}

/// Turns the events of a scoreboard into games.
pub fn process_events(sport: &Sport, events: &Vec<Json>, now: i64, tables: &TeamTables) -> (r: Result<
    Vec<Game>,
    Error,
>)
    requires
        is_scoreboard_sport(*sport),
    ensures
        yields_games(r, events_games(*sport, events@, now, team_map_of(*tables, *sport)@)),
{
    let mut games: Vec<Game> = Vec::new();
    let mut i: usize = 0;
    let ghost each = event_game_fn(*sport, now, team_map_of(*tables, *sport)@);
    assert(events@.take(0) =~= Seq::<Json>::empty());
    assert(game_views(games@) =~= Seq::<GameView>::empty());
    while i < events.len()
        invariant
            i <= events.len(),
            is_scoreboard_sport(*sport),
            each == event_game_fn(*sport, now, team_map_of(*tables, *sport)@),
            gather(events@.take(i as int), each) == Ok::<Seq<GameView>, ErrorView>(
                game_views(games@),
            ),
        decreases events.len() - i,
    {
        let ghost so_far = game_views(games@);
        proof {
            lemma_gather_step(events@, i as int, each);
            lemma_gather_prefix_error(events@, i + 1, each);
        }
        match process_event(sport, &events[i], now, tables) {
            Err(e) => {
                return Err(e);
            },
            Ok(None) => {},
            Ok(Some(game)) => {
                games.push(game);
                assert(game_views(games@) =~= so_far.push(game@));
            },
        }
        i += 1;
    }
    assert(events@.take(events.len() as int) =~= events@);
    Ok(games)
}

/// The status code of an event's first competition, where it can be read.
pub open spec fn event_code(event: Json) -> Option<Seq<char>> {
    match first_competition(event) {
        Err(_) => None,
        Ok(competition) => match as_object(competition.member("status"@), "status"@) {
            Err(_) => None,
            Ok(status_object) => match status_code(status_object) {
                Err(_) => None,
                Ok(code) => Some(code),
            },
        },
    }
}

/// The state of a game is the one that its event's status code stands for,
/// and its label is the period's. At half time the game is in an
/// intermission and its label is `HALFTIME`. A postponed or cancelled event
/// gives no game.
pub proof fn lemma_event_status(sport: Sport, event: Json, now: i64, table: Map<u64, Team>)
    ensures
        event_game(sport, event, now, table) matches Ok(Some(game)) ==> {
            &&& event_code(event) matches Some(code) && code_status(code) == Some(game.status)
                && game.ordinal == period_label(game.period, game.status, code)
            &&& event_code(event) == Some("STATUS_HALFTIME"@) ==> game.status
                == Status::Intermission && game.ordinal == "HALFTIME"@
        },
        event_code(event) == Some("STATUS_POSTPONED"@) || event_code(event) == Some(
            "STATUS_CANCELED"@,
        ) ==> !(event_game(sport, event, now, table) matches Ok(Some(_))),
{
    crate::sport::lemma_known_codes();
}

/// Every game that a scoreboard's event gives is well formed: its state is
/// not `Invalid`, it has both teams, and its extra data is of its sport.
pub proof fn lemma_event_game_well_formed(sport: Sport, event: Json, now: i64, table: Map<u64, Team>)
    requires
        is_scoreboard_sport(sport),
    ensures
        event_game(sport, event, now, table) matches Ok(Some(game)) ==> game.well_formed()
            && game.sport == sport && game.home_team is Some,
{
}

} // verus!
