use live_sports::color::{white, Color};
use live_sports::error::Error;
use live_sports::game::{ExtraGameData, Game};
use live_sports::hockey::{
    get_linescore_url, get_schedule_url, hockey_game, hockey_status, schedule_game,
    schedule_games,
};
use live_sports::json::parse_json;
use live_sports::provider::{collect_games, game_from_linescore, games_from_schedule, parse_object};
use live_sports::sport::{new_sport, Level, Sport, SportType, Status};
use live_sports::team::{Team, TeamTables};

fn team(id: u64, name: &str) -> Team {
    Team::new(id, "Somewhere", name, name, "SOM", Color { r: 1, g: 2, b: 3 }, white())
}

fn tables() -> TeamTables {
    TeamTables::new().with_teams(
        &hockey(),
        vec![team(6, "Bruins"), team(10, "Leafs"), team(8, "Canadiens")],
    )
}

fn hockey() -> Sport {
    new_sport(SportType::Hockey, Level::Professional)
}

fn scheduled(id: u64, state: &str, away: u64, home: u64) -> String {
    format!(
        r#"{{"gamePk": {id}, "gameDate": "2023-03-01T00:00:00Z",
            "status": {{"detailedState": "{state}"}},
            "teams": {{"away": {{"team": {{"id": {away}}}}}, "home": {{"team": {{"id": {home}}}}}}}}}"#
    )
}

fn listed() -> Game {
    schedule_game(&hockey(), &parse_json(&scheduled(2022020987, "In Progress", 10, 6)).unwrap(), &tables())
        .unwrap()
        .unwrap()
}

fn linescore(period: u64, clock: &str, home: u64, away: u64) -> String {
    format!(
        r#"{{"currentPeriod": {period}, "currentPeriodOrdinal": "{}", "currentPeriodTimeRemaining": "{clock}",
            "teams": {{"home": {{"goals": {home}, "powerPlay": false, "numSkaters": 5}},
                       "away": {{"goals": {away}, "powerPlay": true, "numSkaters": 4}}}}}}"#,
        ["0th", "1st", "2nd", "3rd", "OT", "SO"][period as usize]
    )
}

fn parse_error<T: std::fmt::Debug>(r: Result<T, Error>) -> String {
    match r {
        Err(Error::ParseError(message)) => message,
        other => panic!("expected a parse error, got {:?}", other),
    }
}

#[test]
fn hockey_addresses() {
    assert_eq!(get_schedule_url(), "http://statsapi.web.nhl.com/api/v1/schedule");
    assert_eq!(get_linescore_url(2022020987), "http://statsapi.web.nhl.com/api/v1/game/2022020987/linescore");
    assert_eq!(get_linescore_url(0), "http://statsapi.web.nhl.com/api/v1/game/0/linescore");
}

#[test]
fn the_state_follows_the_clock() {
    assert_eq!(hockey_status(1, "20:00", 0, 0), (Status::Active, false));
    assert_eq!(hockey_status(2, "20:00", 1, 0), (Status::Intermission, true));
    assert_eq!(hockey_status(3, "20:00", 1, 0), (Status::Intermission, true));
    assert_eq!(hockey_status(3, "END", 3, 2), (Status::End, false));
    assert_eq!(hockey_status(3, "END", 2, 3), (Status::End, false));
    assert_eq!(hockey_status(3, "END", 2, 2), (Status::Intermission, true));
    assert_eq!(hockey_status(4, "END", 2, 2), (Status::Intermission, true));
    assert_eq!(hockey_status(4, "END", 3, 2), (Status::End, false));
    assert_eq!(hockey_status(2, "END", 3, 2), (Status::Intermission, true));
    assert_eq!(hockey_status(1, "END", 0, 0), (Status::Intermission, true));
    assert_eq!(hockey_status(3, "Final", 2, 2), (Status::End, false));
    assert_eq!(hockey_status(0, "Final", 0, 0), (Status::End, false));
    assert_eq!(hockey_status(0, "20:00", 0, 0), (Status::Pregame, false));
    assert_eq!(hockey_status(2, "12:34", 1, 1), (Status::Pregame, false));
    assert_eq!(hockey_status(1, "", 0, 0), (Status::Pregame, false));
    assert_eq!(hockey_status(3, "end", 3, 2), (Status::Pregame, false));
    assert_eq!(hockey_status(3, "FINAL", 3, 2), (Status::Pregame, false));
}

#[test]
fn the_schedule_lists_a_game() {
    let game = listed();
    assert_eq!(game.game_id, 2022020987);
    assert_eq!(game.sport, hockey());
    assert_eq!(game.home_team, Some(team(6, "Bruins")));
    assert_eq!(game.away_team, Some(team(10, "Leafs")));
    assert_eq!(game.home_team_score, 0);
    assert_eq!(game.away_team_score, 0);
    assert_eq!(game.period, 0);
    assert_eq!(game.ordinal, "");
    assert_eq!(game.start_time, 1_677_628_800_000_000_000);
    assert_eq!(game.extra, None);
}

#[test]
fn game_dates_are_read_with_their_offset_and_fraction() {
    let at = |date: &str| {
        let text = scheduled(1, "Scheduled", 10, 6).replace("2023-03-01T00:00:00Z", date);
        schedule_game(&hockey(), &parse_json(&text).unwrap(), &tables())
    };
    assert_eq!(at("2023-03-01T00:00:00.5Z").unwrap().unwrap().start_time, 1_677_628_800_500_000_000);
    assert_eq!(at("2023-02-28T19:00:00-05:00").unwrap().unwrap().start_time, 1_677_628_800_000_000_000);
    assert_eq!(at("2023-03-01 00:00:01Z").unwrap().unwrap().start_time, 1_677_628_801_000_000_000);
    assert_eq!(at("1969-12-31T23:59:59.25Z").unwrap().unwrap().start_time, -750_000_000);
    for bad in ["", "2023-03-01", "2023-03-01T00:00Z", "yesterday", "2023-03-01T00:00:00", "2500-01-01T00:00:00Z"] {
        let r = at(bad);
        assert!(matches!(r, Err(Error::TimeParseError(ref m)) if m == bad), "{:?} gave {:?}", bad, r);
    }
}

#[test]
fn postponed_games_are_left_out() {
    let text = scheduled(5, "Postponed", 10, 6);
    assert_eq!(schedule_game(&hockey(), &parse_json(&text).unwrap(), &tables()).unwrap(), None);
    let odd = r#"{"status": {"detailedState": "Postponed"}}"#;
    assert_eq!(schedule_game(&hockey(), &parse_json(odd).unwrap(), &tables()).unwrap(), None);
    let not_text = r#"{"status": {"detailedState": 7}}"#;
    assert_eq!(parse_error(schedule_game(&hockey(), &parse_json(not_text).unwrap(), &tables())), "gameDate not present");
}

#[test]
fn unknown_hockey_teams_fail() {
    let away = scheduled(5, "Scheduled", 99, 6);
    assert_eq!(parse_error(schedule_game(&hockey(), &parse_json(&away).unwrap(), &tables())), "Away team '99' not present");
    let home = scheduled(5, "Scheduled", 10, 7460);
    assert_eq!(parse_error(schedule_game(&hockey(), &parse_json(&home).unwrap(), &tables())), "Home team '7460' not present");
    let both = scheduled(5, "Scheduled", 98, 99);
    assert_eq!(parse_error(schedule_game(&hockey(), &parse_json(&both).unwrap(), &tables())), "Away team '98' not present");
}

#[test]
fn a_scheduled_game_needs_its_parts() {
    let base = scheduled(5, "Scheduled", 10, 6);
    let failure = |text: String| parse_error(schedule_game(&hockey(), &parse_json(&text).unwrap(), &tables()));
    assert_eq!(failure("{}".to_string()), "status not present");
    assert_eq!(failure(r#"{"status": {}}"#.to_string()), "No detailed state present");
    assert_eq!(failure(base.replace("\"gameDate\"", "\"date\"")), "gameDate not present");
    assert_eq!(failure(base.replace("\"gamePk\": 5", "\"gamePk\": \"5\"")), "gamePk is not an integer");
    assert_eq!(failure(base.replace("\"teams\"", "\"sides\"")), "teams not present");
    assert_eq!(failure(base.replace("\"away\"", "\"guest\"")), "away not present");
    assert_eq!(failure(base.replace("\"home\"", "\"host\"")), "home not present");
    assert_eq!(failure(base.replace("{\"id\": 10}", "{\"id\": \"10\"}")), "id is not an integer");
}

#[test]
fn the_schedule_gives_the_first_day() {
    let body = format!(
        r#"{{"dates": [{{"games": [{}, {}, {}]}}, {{"games": [{}]}}]}}"#,
        scheduled(1, "Final", 10, 6),
        scheduled(2, "Postponed", 8, 6),
        scheduled(3, "Scheduled", 8, 10),
        scheduled(4, "Scheduled", 6, 8),
    );
    let games = games_from_schedule(&hockey(), &body, &tables()).unwrap();
    let ids: Vec<u64> = games.iter().map(|g| g.game_id).collect();
    assert_eq!(ids, vec![1, 3]);
    assert_eq!(schedule_games(&hockey(), &parse_object(&body).unwrap(), &tables()).unwrap(), games);
    assert_eq!(games_from_schedule(&hockey(), r#"{"dates": []}"#, &tables()).unwrap(), vec![]);
    assert_eq!(parse_error(games_from_schedule(&hockey(), "{}", &tables())), "dates not present");
    assert_eq!(parse_error(games_from_schedule(&hockey(), r#"{"dates": [{}]}"#, &tables())), "games not present");
    assert!(matches!(games_from_schedule(&hockey(), "oops", &tables()), Err(Error::DeserializationError(_))));
    let bad = format!(r#"{{"dates": [{{"games": [{}, {}]}}]}}"#, scheduled(1, "Final", 10, 6), scheduled(2, "Final", 1, 6));
    assert_eq!(parse_error(games_from_schedule(&hockey(), &bad, &tables())), "Away team '1' not present");
}

#[test]
fn the_line_score_completes_a_game() {
    let game = game_from_linescore(listed(), &linescore(2, "12:34", 2, 1)).unwrap();
    assert_eq!(game.game_id, 2022020987);
    assert_eq!(game.home_team, Some(team(6, "Bruins")));
    assert_eq!(game.away_team, Some(team(10, "Leafs")));
    assert_eq!(game.home_team_score, 2);
    assert_eq!(game.away_team_score, 1);
    assert_eq!(game.period, 2);
    assert_eq!(game.ordinal, "2nd");
    assert_eq!(game.status, Status::Pregame);
    assert_eq!(game.start_time, 1_677_628_800_000_000_000);
    assert_eq!(
        game.extra,
        Some(ExtraGameData::Hockey {
            away_powerplay: true,
            home_powerplay: false,
            away_players: 4,
            home_players: 5,
        })
    );
}

#[test]
fn the_line_score_drives_the_state() {
    let state = |period, clock: &str, home, away| {
        let game = game_from_linescore(listed(), &linescore(period, clock, home, away)).unwrap();
        (game.status, game.ordinal)
    };
    assert_eq!(state(1, "20:00", 0, 0), (Status::Active, "1st".to_string()));
    assert_eq!(state(2, "20:00", 1, 0), (Status::Intermission, "2nd INT".to_string()));
    assert_eq!(state(3, "20:00", 1, 0), (Status::Intermission, "3rd INT".to_string()));
    assert_eq!(state(3, "END", 3, 2), (Status::End, "3rd".to_string()));
    assert_eq!(state(3, "END", 2, 2), (Status::Intermission, "3rd INT".to_string()));
    assert_eq!(state(3, "Final", 3, 2), (Status::End, "3rd".to_string()));
    assert_eq!(state(4, "Final", 3, 2), (Status::End, "OT".to_string()));
    assert_eq!(state(0, "20:00", 0, 0), (Status::Pregame, String::new()));
    assert_eq!(state(0, "END", 0, 0), (Status::Intermission, " INT".to_string()));
}

#[test]
fn the_line_score_has_defaults() {
    let body = r#"{"currentPeriod": 1, "teams": {"home": {"powerPlay": false}, "away": {"powerPlay": false}}}"#;
    let game = game_from_linescore(listed(), body).unwrap();
    assert_eq!(game.home_team_score, 0);
    assert_eq!(game.away_team_score, 0);
    assert_eq!(game.ordinal, "1st");
    assert_eq!(game.status, Status::Active);
    assert_eq!(
        game.extra,
        Some(ExtraGameData::Hockey {
            away_powerplay: false,
            home_powerplay: false,
            away_players: 5,
            home_players: 5,
        })
    );
    let later = r#"{"currentPeriod": 2, "teams": {"home": {"powerPlay": false, "goals": "3"}, "away": {"powerPlay": false}}}"#;
    let game = game_from_linescore(listed(), later).unwrap();
    assert_eq!(game.ordinal, "1st INT");
    assert_eq!(game.status, Status::Intermission);
    assert_eq!(game.home_team_score, 0);
}

#[test]
fn the_line_score_needs_its_parts() {
    let failure = |text: &str| parse_error(hockey_game(listed(), &parse_object(text).unwrap()));
    assert_eq!(failure("{}"), "teams not present");
    assert_eq!(failure(r#"{"teams": {}}"#), "away not present");
    assert_eq!(failure(r#"{"teams": {"away": {}}}"#), "home not present");
    assert_eq!(failure(r#"{"teams": {"away": {}, "home": {}}}"#), "powerPlay not present");
    assert_eq!(failure(r#"{"teams": {"away": {"powerPlay": true}, "home": {"powerPlay": 1}}}"#), "powerPlay is not a bool");
    assert_eq!(failure(r#"{"teams": {"away": {"powerPlay": true}, "home": {"powerPlay": true}}}"#), "currentPeriod not present");
    assert!(matches!(game_from_linescore(listed(), "[]"), Err(Error::DeserializationError(_))));
    assert!(matches!(game_from_linescore(listed(), ""), Err(Error::DeserializationError(_))));
}

#[test]
fn no_failed_game_is_dropped() {
    let ok = |id: u64| {
        let mut game = listed();
        game.game_id = id;
        Ok(game)
    };
    let games = collect_games(vec![ok(1), ok(2), ok(3)]).unwrap();
    let ids: Vec<u64> = games.iter().map(|g| g.game_id).collect();
    assert_eq!(ids, vec![1, 2, 3]);
    assert_eq!(collect_games(vec![]).unwrap(), vec![]);
    let failed = collect_games(vec![
        ok(1),
        Err(Error::FetchError("first".to_string())),
        ok(3),
        Err(Error::ParseError("second".to_string())),
    ]);
    assert!(matches!(failed, Err(Error::FetchError(m)) if m == "first"));
}
