use live_sports::clock::{hours_apart, lies_after, nanos_since_epoch};
use live_sports::color::{white, Color};
use live_sports::error::Error;
use live_sports::game::{ExtraGameData, Game, Possession};
use live_sports::json::{parse_json, Json};
use live_sports::provider::{games_from_scoreboard, provider_of, Provider};
use live_sports::json::{get_array_from_value, get_object_from_value};
use live_sports::scoreboard::{
    competition_of, get_espn_url, get_extra_data, period_label_of, process_event, process_events,
    scheduled_game_of, status_code_of,
};
use live_sports::sport::{new_sport, Level, Sport, SportType, Status};
use live_sports::team::{Team, TeamTables};

// 2023-03-01T12:00:00Z
const NOON: i64 = 1_677_672_000;
const NOW: i64 = NOON * 1_000_000_000;
const HOUR: i64 = 3_600_000_000_000;

fn team(id: u64, name: &str) -> Team {
    Team::new(id, "Somewhere", name, name, "SOM", Color { r: 1, g: 2, b: 3 }, white())
}

fn tables() -> TeamTables {
    TeamTables::new()
        .with_teams(&baseball(), vec![team(111, "Red Sox"), team(147, "Yankees")])
        .with_teams(&football(), vec![team(17, "Patriots"), team(2, "Bills")])
}

fn baseball() -> Sport {
    new_sport(SportType::Baseball, Level::Professional)
}

fn football() -> Sport {
    new_sport(SportType::Football, Level::Professional)
}

fn event(code: &str, date: &str, period: u64, rest: &str) -> String {
    format!(
        r#"{{"shortName": "NYY @ BOS", "competitions": [{{"id": "401", "date": "{date}",
            "status": {{"period": {period}, "displayClock": "4:32",
                        "type": {{"name": "{code}", "shortDetail": "Top 3rd"}}}},
            "competitors": [
                {{"score": "3", "team": {{"id": "111"}}}},
                {{"score": "2", "team": {{"id": "147"}}}}
            ]{rest}}}]}}"#
    )
}

fn one(sport: &Sport, text: &str) -> Result<Option<Game>, Error> {
    process_event(sport, &parse_json(text).unwrap(), NOW, &tables())
}

fn parse_error<T: std::fmt::Debug>(r: Result<T, Error>) -> String {
    match r {
        Err(Error::ParseError(message)) => message,
        other => panic!("expected a parse error, got {:?}", other),
    }
}

#[test]
fn providers_by_sport() {
    assert_eq!(provider_of(&new_sport(SportType::Hockey, Level::Professional)), Provider::LeagueSchedule);
    assert_eq!(provider_of(&new_sport(SportType::Hockey, Level::Collegiate)), Provider::LeagueSchedule);
    assert_eq!(provider_of(&baseball()), Provider::Scoreboard);
    assert_eq!(provider_of(&new_sport(SportType::Golf, Level::Professional)), Provider::Scoreboard);
}

#[test]
fn scoreboard_addresses() {
    let url = |t, l| get_espn_url(&new_sport(t, l));
    assert_eq!(url(SportType::Baseball, Level::Professional), "http://site.api.espn.com/apis/site/v2/sports/baseball/mlb/scoreboard");
    assert_eq!(url(SportType::Baseball, Level::Collegiate), "http://site.api.espn.com/apis/site/v2/sports/baseball/mlb/scoreboard");
    assert_eq!(url(SportType::Football, Level::Professional), "http://site.api.espn.com/apis/site/v2/sports/football/nfl/scoreboard");
    assert_eq!(url(SportType::Football, Level::Collegiate), "http://site.api.espn.com/apis/site/v2/sports/football/college-football/scoreboard?groups=80");
    assert_eq!(url(SportType::Basketball, Level::Professional), "http://site.api.espn.com/apis/site/v2/sports/basketball/nba/scoreboard");
    assert_eq!(url(SportType::Basketball, Level::Collegiate), "http://site.api.espn.com/apis/site/v2/sports/basketball/mens-college-basketball/scoreboard?groups=50");
    assert_eq!(url(SportType::Golf, Level::Professional), "http://site.api.espn.com/apis/site/v2/sports/golf/leaderboard?league=pga");
}

#[test]
fn hours_are_whole_and_unsigned() {
    assert_eq!(hours_apart(NOW, NOON), 0);
    assert_eq!(hours_apart(NOW + HOUR - 1, NOON), 0);
    assert_eq!(hours_apart(NOW + HOUR, NOON), 1);
    assert_eq!(hours_apart(NOW - HOUR + 1, NOON), 0);
    assert_eq!(hours_apart(NOW - HOUR, NOON), 1);
    assert_eq!(hours_apart(NOW, NOON + 13 * 3600), 13);
    assert_eq!(hours_apart(NOW, NOON - 13 * 3600 + 1), 12);
    assert_eq!(hours_apart(i64::MIN, i64::MAX), 2562047790577263);
    assert_eq!(hours_apart(i64::MAX, i64::MIN), 2562047790577263);
    assert!(lies_after(NOON + 1, NOW));
    assert!(!lies_after(NOON, NOW));
    assert!(!lies_after(NOON, NOW + 1));
}

#[test]
fn nanos_fit_or_do_not() {
    assert_eq!(nanos_since_epoch(0, 0), Some(0));
    assert_eq!(nanos_since_epoch(NOON, 5), Some(NOW + 5));
    assert_eq!(nanos_since_epoch(-1, 999_999_999), Some(-1));
    assert_eq!(nanos_since_epoch(9_223_372_036, 854_775_807), Some(i64::MAX));
    assert_eq!(nanos_since_epoch(9_223_372_036, 854_775_808), None);
    assert_eq!(nanos_since_epoch(-9_223_372_037, 145_224_192), Some(i64::MIN));
    assert_eq!(nanos_since_epoch(-9_223_372_037, 145_224_191), None);
    assert_eq!(nanos_since_epoch(i64::MAX, 0), None);
}

#[test]
fn period_labels() {
    assert_eq!(period_label_of(3, Status::Active, "STATUS_IN_PROGRESS"), "3rd");
    assert_eq!(period_label_of(1, Status::Intermission, "STATUS_END_PERIOD"), "1st INT");
    assert_eq!(period_label_of(2, Status::Intermission, "STATUS_HALFTIME"), "HALFTIME");
    assert_eq!(period_label_of(2, Status::Active, "STATUS_HALFTIME"), "HALFTIME");
    assert_eq!(period_label_of(0, Status::Pregame, "STATUS_SCHEDULED"), "0th");
    assert_eq!(period_label_of(11, Status::End, "STATUS_FINAL"), "11th");
    assert_eq!(period_label_of(22, Status::Intermission, "STATUS_DELAYED"), "22nd INT");
}

#[test]
fn a_game_is_built_from_the_seconds_it_is_given() {
    let text = event("STATUS_END_PERIOD", "2023-03-01T13:05Z", 2, "");
    let json = parse_json(&text).unwrap();
    let competition = competition_of(&json).unwrap();
    let competitors = get_array_from_value(competition, "competitors").unwrap();
    let status_object = get_object_from_value(competition, "status").unwrap();
    let build = |seconds: i64| {
        scheduled_game_of(
            &baseball(),
            competition,
            &competitors[0],
            &competitors[1],
            status_object,
            Status::Intermission,
            "STATUS_END_PERIOD",
            "the date",
            seconds,
            &tables(),
        )
    };
    let game = build(NOON + 7).unwrap();
    assert_eq!(game.start_time, (NOON + 7) * 1_000_000_000);
    assert_eq!(game.status, Status::Intermission);
    assert_eq!(game.ordinal, "2nd INT");
    assert_eq!(game.home_team, Some(team(111, "Red Sox")));
    assert_eq!(game.away_team, Some(team(147, "Yankees")));
    assert_eq!(game.home_team_score, 3);
    assert_eq!(game.away_team_score, 2);
    assert_eq!(build(0).unwrap().start_time, 0);
    assert_eq!(build(-1).unwrap().start_time, -1_000_000_000);
    assert_eq!(build(9_223_372_036).unwrap().start_time, 9_223_372_036_000_000_000);
    for seconds in [9_223_372_037, -9_223_372_037, i64::MAX, i64::MIN] {
        assert!(matches!(build(seconds), Err(Error::TimeParseError(m)) if m == "the date"));
    }
}

#[test]
fn a_baseball_event_becomes_a_game() {
    let text = event(
        "STATUS_IN_PROGRESS",
        "2023-03-01T13:05Z",
        3,
        r#", "situation": {"balls": "2", "strikes": "1", "outs": "2", "onFirst": true, "onThird": true}"#,
    );
    let game = one(&baseball(), &text).unwrap().unwrap();
    assert_eq!(game.game_id, 401);
    assert_eq!(game.sport, baseball());
    assert_eq!(game.home_team, Some(team(111, "Red Sox")));
    assert_eq!(game.away_team, Some(team(147, "Yankees")));
    assert_eq!(game.home_team_score, 3);
    assert_eq!(game.away_team_score, 2);
    assert_eq!(game.period, 3);
    assert_eq!(game.status, Status::Active);
    assert_eq!(game.ordinal, "3rd");
    assert_eq!(game.start_time, (NOON + 3900) * 1_000_000_000);
    assert_eq!(
        game.extra,
        Some(ExtraGameData::Baseball {
            balls: 2,
            outs: 2,
            strikes: 1,
            is_inning_top: true,
            on_first: true,
            on_second: false,
            on_third: true,
        })
    );
}

#[test]
fn baseball_defaults_without_a_situation() {
    let text = event("STATUS_SCHEDULED", "2023-03-01T20:00Z", 0, "").replace("Top 3rd", "7:05 PM");
    let game = one(&baseball(), &text).unwrap().unwrap();
    assert_eq!(game.status, Status::Pregame);
    assert_eq!(game.ordinal, "0th");
    assert_eq!(
        game.extra,
        Some(ExtraGameData::Baseball {
            balls: 0,
            outs: 0,
            strikes: 0,
            is_inning_top: false,
            on_first: false,
            on_second: false,
            on_third: false,
        })
    );
}

#[test]
fn baseball_needs_the_short_detail() {
    let text = event("STATUS_FINAL", "2023-03-01T10:00Z", 9, "").replace("\"shortDetail\"", "\"detail\"");
    assert_eq!(parse_error(one(&baseball(), &text)), "shortDetail not present");
}

#[test]
fn half_time_is_labelled_as_such() {
    let text = event("STATUS_HALFTIME", "2023-03-01T11:00Z", 2, "")
        .replace("\"111\"", "\"17\"")
        .replace("\"147\"", "\"2\"");
    let game = one(&football(), &text).unwrap().unwrap();
    assert_eq!(game.status, Status::Intermission);
    assert_eq!(game.ordinal, "HALFTIME");
    assert_eq!(game.period, 2);
}

#[test]
fn an_intermission_is_marked() {
    let text = event("STATUS_END_PERIOD", "2023-03-01T11:00Z", 1, "");
    let game = one(&baseball(), &text).unwrap().unwrap();
    assert_eq!(game.status, Status::Intermission);
    assert_eq!(game.ordinal, "1st INT");
}

#[test]
fn a_final_game_has_ended() {
    let game = one(&baseball(), &event("STATUS_FINAL", "2023-03-01T09:00Z", 9, "")).unwrap().unwrap();
    assert_eq!(game.status, Status::End);
    assert_eq!(game.ordinal, "9th");
}

#[test]
fn postponed_and_cancelled_events_are_dropped() {
    assert_eq!(one(&baseball(), &event("STATUS_POSTPONED", "2023-03-01T13:00Z", 0, "")).unwrap(), None);
    assert_eq!(one(&baseball(), &event("STATUS_CANCELED", "2023-03-01T13:00Z", 0, "")).unwrap(), None);
    // dropped before its date is read
    assert_eq!(one(&baseball(), &event("STATUS_POSTPONED", "soon", 0, "")).unwrap(), None);
}

#[test]
fn unknown_status_codes_fail_loudly() {
    let r = one(&baseball(), &event("STATUS_RAIN_DELAY", "2023-03-01T13:00Z", 0, ""));
    assert!(matches!(r, Err(Error::UnknownStatus(code)) if code == "STATUS_RAIN_DELAY"));
}

#[test]
fn events_far_from_now_are_dropped() {
    // exactly twelve hours away, to the minute: kept
    assert!(one(&baseball(), &event("STATUS_SCHEDULED", "2023-03-02T00:00Z", 0, "")).unwrap().is_some());
    assert!(one(&baseball(), &event("STATUS_FINAL", "2023-03-01T00:00Z", 9, "")).unwrap().is_some());
    // thirteen hours away: dropped
    assert_eq!(one(&baseball(), &event("STATUS_SCHEDULED", "2023-03-02T01:00Z", 0, "")).unwrap(), None);
    assert_eq!(one(&baseball(), &event("STATUS_FINAL", "2023-02-28T23:00Z", 9, "")).unwrap(), None);
    // twelve hours and fifty-nine minutes count as twelve hours
    assert!(one(&baseball(), &event("STATUS_SCHEDULED", "2023-03-02T00:59Z", 0, "")).unwrap().is_some());
    assert_eq!(one(&baseball(), &event("STATUS_IN_PROGRESS", "1999-01-01T00:00Z", 1, "")).unwrap(), None);
    assert_eq!(one(&baseball(), &event("STATUS_IN_PROGRESS", "9999-12-31T23:59Z", 1, "")).unwrap(), None);
}

#[test]
fn malformed_dates_are_refused() {
    for bad in ["", "tomorrow", "2023-03-01T13:00:00Z", "2023-03-01 13:00Z", "2023-13-01T13:00Z", "2023-02-30T13:00Z", "2023-03-01T24:00Z"] {
        let r = one(&baseball(), &event("STATUS_IN_PROGRESS", bad, 1, ""));
        assert!(matches!(r, Err(Error::TimeParseError(ref m)) if m == bad), "{:?} gave {:?}", bad, r);
    }
}

#[test]
fn an_event_needs_exactly_two_competitors() {
    let three = event("STATUS_IN_PROGRESS", "2023-03-01T13:00Z", 1, "")
        .replace("\"competitors\": [", "\"competitors\": [{\"score\": \"0\", \"team\": {\"id\": \"111\"}},");
    assert_eq!(parse_error(one(&baseball(), &three)), "Failed to unwrap home team and away team");
    let none = r#"{"competitions": [{"competitors": [], "status": {}}]}"#;
    assert_eq!(parse_error(one(&baseball(), none)), "Failed to unwrap home team and away team");
}

#[test]
fn missing_parts_of_an_event_are_named() {
    let cases = [
        (r#"{}"#, "competitions not present"),
        (r#"{"competitions": 1}"#, "competitions is not an array"),
        (r#"{"competitions": []}"#, "Missing competitions"),
        (r#"{"competitions": [{}]}"#, "competitors not present"),
        (r#"{"competitions": [{"competitors": [1, 2]}]}"#, "status not present"),
        (r#"{"competitions": [{"competitors": [1, 2], "status": {}}]}"#, "type not present"),
        (r#"{"competitions": [{"competitors": [1, 2], "status": {"type": {}}}]}"#, "name not present"),
        (r#"{"competitions": [{"competitors": [1, 2], "status": {"type": {"name": "STATUS_FINAL"}}}]}"#, "date not present"),
        (r#"{"competitions": [{"competitors": [1, 2], "date": "2023-03-01T12:00Z", "status": {"type": {"name": "STATUS_FINAL"}}}]}"#, "period not present"),
        (r#"{"competitions": [{"competitors": [1, 2], "date": "2023-03-01T12:00Z", "status": {"period": 1, "type": {"name": "STATUS_FINAL"}}}]}"#, "team not present"),
    ];
    for (text, message) in cases {
        assert_eq!(parse_error(one(&baseball(), text)), message, "{}", text);
    }
    let no_id = event("STATUS_FINAL", "2023-03-01T12:00Z", 9, "").replace("\"id\": \"401\",", "");
    assert_eq!(parse_error(one(&baseball(), &no_id)), "id not present");
    let no_score = event("STATUS_FINAL", "2023-03-01T12:00Z", 9, "").replace("\"score\": \"2\",", "");
    assert_eq!(parse_error(one(&baseball(), &no_score)), "score not present");
    let number_score = event("STATUS_FINAL", "2023-03-01T12:00Z", 9, "").replace("\"score\": \"3\"", "\"score\": 3");
    assert_eq!(parse_error(one(&baseball(), &number_score)), "score is not a string");
}

#[test]
fn unknown_teams_are_made_on_the_spot() {
    let text = event("STATUS_IN_PROGRESS", "2023-03-01T12:00Z", 1, "").replace(
        r#"{"id": "147"}"#,
        r#"{"id": 9001, "location": "North Carolina", "name": "North Carolina State", "abbreviation": "NCS", "color": "cc0000"}"#,
    );
    let game = one(&baseball(), &text).unwrap().unwrap();
    let away = game.away_team.unwrap();
    assert_eq!(away.id, 9001);
    assert_eq!(away.display_name, "N Carolina St");
    assert_eq!(away.secondary_color, white());
    assert_eq!(game.home_team, Some(team(111, "Red Sox")));
}

fn football_event(code: &str, situation: &str) -> String {
    event(code, "2023-03-01T12:00Z", 2, situation)
        .replace("\"111\"", "\"17\"")
        .replace("\"147\"", "\"2\"")
}

#[test]
fn a_football_event_has_clock_down_and_possession() {
    let text = football_event(
        "STATUS_IN_PROGRESS",
        r#", "situation": {"possessionText": "BUF 35", "shortDownDistanceText": "3rd & 7", "possession": "2"}"#,
    );
    let game = one(&football(), &text).unwrap().unwrap();
    assert_eq!(
        game.extra,
        Some(ExtraGameData::Football {
            time_remaining: "4:32".to_string(),
            ball_position: "BUF 35".to_string(),
            down_string: "3rd + 7".to_string(),
            possession: Possession::Away,
        })
    );
    let home = football_event("STATUS_IN_PROGRESS", r#", "situation": {"possession": "17"}"#);
    assert_eq!(
        one(&football(), &home).unwrap().unwrap().extra,
        Some(ExtraGameData::Football {
            time_remaining: "4:32".to_string(),
            ball_position: String::new(),
            down_string: String::new(),
            possession: Possession::Home,
        })
    );
}

#[test]
fn football_possession_defaults_to_neither() {
    for situation in [
        r#", "situation": {"possession": "99"}"#,
        r#", "situation": {"possession": 17}"#,
        r#", "situation": {"possession": "seventeen"}"#,
        r#", "situation": {}"#,
    ] {
        let game = one(&football(), &football_event("STATUS_IN_PROGRESS", situation)).unwrap().unwrap();
        match game.extra {
            Some(ExtraGameData::Football { possession, .. }) => assert_eq!(possession, Possession::Neither),
            other => panic!("{:?}", other),
        }
    }
}

#[test]
fn the_football_clock_runs_only_during_play() {
    let situation = r#", "situation": {"possessionText": "NE 20", "shortDownDistanceText": "1st & 10"}"#;
    for code in ["STATUS_FINAL", "STATUS_SCHEDULED", "STATUS_HALFTIME", "STATUS_END_PERIOD"] {
        let game = one(&football(), &football_event(code, situation)).unwrap().unwrap();
        assert_eq!(
            game.extra,
            Some(ExtraGameData::Football {
                time_remaining: String::new(),
                ball_position: "NE 20".to_string(),
                down_string: "1st + 10".to_string(),
                possession: Possession::Neither,
            })
        );
    }
}

#[test]
fn football_without_a_situation_is_empty() {
    let game = one(&football(), &football_event("STATUS_IN_PROGRESS", "")).unwrap().unwrap();
    assert_eq!(
        game.extra,
        Some(ExtraGameData::Football {
            time_remaining: String::new(),
            ball_position: String::new(),
            down_string: String::new(),
            possession: Possession::Neither,
        })
    );
}

#[test]
fn basketball_has_no_extra_fields() {
    let tables = tables()
        .with_teams(
            &new_sport(SportType::Basketball, Level::Professional),
            vec![team(111, "Celtics"), team(147, "Knicks")],
        )
        .with_teams(
            &new_sport(SportType::Basketball, Level::Collegiate),
            vec![team(111, "Eagles"), team(147, "Orange")],
        );
    for level in [Level::Professional, Level::Collegiate] {
        let sport = new_sport(SportType::Basketball, level);
        let text = event("STATUS_IN_PROGRESS", "2023-03-01T12:00Z", 4, "");
        let game = process_event(&sport, &parse_json(&text).unwrap(), NOW, &tables).unwrap().unwrap();
        assert_eq!(game.sport, sport);
        assert_eq!(game.extra, Some(ExtraGameData::Basketball));
        assert_eq!(game.ordinal, "4th");
    }
}

#[test]
fn extra_data_goes_by_the_sport() {
    let text = event("STATUS_IN_PROGRESS", "2023-03-01T12:00Z", 1, "");
    let json = parse_json(&text).unwrap();
    let competition = competition_of(&json).unwrap();
    let mut game = one(&baseball(), &text).unwrap().unwrap();
    assert!(matches!(get_extra_data(competition, &game), Ok(ExtraGameData::Baseball { .. })));
    game.sport = football();
    assert!(matches!(get_extra_data(competition, &game), Ok(ExtraGameData::Football { .. })));
    game.sport = new_sport(SportType::Basketball, Level::Collegiate);
    assert!(matches!(get_extra_data(competition, &game), Ok(ExtraGameData::Basketball)));
    match competition {
        Json::Object(map) => {
            let status = live_sports::json::get_object(map, "status").unwrap();
            assert_eq!(status_code_of(status).unwrap(), "STATUS_IN_PROGRESS");
        }
        other => panic!("{:?}", other),
    }
}

#[test]
fn a_batch_keeps_the_order_and_drops_what_is_left_out() {
    let body = format!(
        r#"{{"events": [{}, {}, {}, {}]}}"#,
        event("STATUS_FINAL", "2023-03-01T09:00Z", 9, ""),
        event("STATUS_POSTPONED", "2023-03-01T13:00Z", 0, ""),
        event("STATUS_IN_PROGRESS", "2023-03-01T11:00Z", 5, "").replace("\"401\"", "\"402\""),
        event("STATUS_SCHEDULED", "2023-03-05T11:00Z", 0, "").replace("\"401\"", "\"403\""),
    );
    let games = games_from_scoreboard(&baseball(), &body, NOW, &tables()).unwrap();
    let ids: Vec<u64> = games.iter().map(|g| g.game_id).collect();
    assert_eq!(ids, vec![401, 402]);
    assert_eq!(games[0].status, Status::End);
    assert_eq!(games[1].status, Status::Active);
    for game in &games {
        assert_ne!(game.status, Status::Invalid);
        assert!(game.home_team.is_some() && game.away_team.is_some());
    }
    let events = match parse_json(&body).unwrap() {
        Json::Object(map) => match map.get("events") {
            Some(Json::Array(events)) => process_events(&baseball(), events, NOW, &tables()).unwrap(),
            other => panic!("{:?}", other),
        },
        other => panic!("{:?}", other),
    };
    assert_eq!(events, games);
}

#[test]
fn one_bad_event_fails_the_batch() {
    let body = format!(
        r#"{{"events": [{}, {}, {}]}}"#,
        event("STATUS_FINAL", "2023-03-01T09:00Z", 9, ""),
        event("STATUS_IN_PROGRESS", "never", 5, ""),
        event("STATUS_WHAT", "2023-03-01T09:00Z", 9, ""),
    );
    let r = games_from_scoreboard(&baseball(), &body, NOW, &tables());
    assert!(matches!(r, Err(Error::TimeParseError(m)) if m == "never"));
}

#[test]
fn a_scoreboard_body_must_list_events() {
    assert_eq!(games_from_scoreboard(&baseball(), r#"{"events": []}"#, NOW, &tables()).unwrap(), vec![]);
    assert_eq!(parse_error(games_from_scoreboard(&baseball(), "{}", NOW, &tables())), "events not present");
    assert_eq!(parse_error(games_from_scoreboard(&baseball(), r#"{"events": {}}"#, NOW, &tables())), "events is not an array");
    assert!(matches!(games_from_scoreboard(&baseball(), "<html>", NOW, &tables()), Err(Error::DeserializationError(_))));
    assert!(matches!(games_from_scoreboard(&baseball(), "[]", NOW, &tables()), Err(Error::DeserializationError(_))));
}
