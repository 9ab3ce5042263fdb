use live_sports::error::Error;
use live_sports::game::{ExtraGameData, Game, GolfPlayer};
use live_sports::golf::{
    earliest, event_name, event_seconds_of, from_competitor, from_raw_data, from_teamstroke,
    golf_game_of, player_from_groups, process_golf, process_golf_event, ranked_players,
    raw_leaderboard, sort_players, surname, tee_times, top_five,
};
use live_sports::json::{get_array_from_value, parse_json, Json};
use live_sports::scoreboard::competition_of;
use live_sports::provider::games_from_scoreboard;
use live_sports::sport::{new_sport, Level, SportType, Status};
use live_sports::team::TeamTables;
use live_sports::text::to_upper;

// 2023-03-01T12:00:00Z
const NOON: i64 = 1_677_672_000;
const NOW: i64 = NOON * 1_000_000_000;

fn player(name: &str, position: u64) -> GolfPlayer {
    GolfPlayer {
        name: name.to_string(),
        display_name: name.to_string(),
        score: "E".to_string(),
        position,
    }
}

fn names(players: &Vec<GolfPlayer>) -> Vec<&str> {
    players.iter().map(|p| p.display_name.as_str()).collect()
}

fn parse_error<T: std::fmt::Debug>(r: Result<T, Error>) -> String {
    match r {
        Err(Error::ParseError(message)) => message,
        other => panic!("expected a parse error, got {:?}", other),
    }
}

fn competitor(name: &str, position: &str, score: &str, tee: &str) -> String {
    let tee = if tee.is_empty() { String::new() } else { format!(r#", "teeTime": "{tee}""#) };
    format!(
        r#"{{"athlete": {{"displayName": "{name}"}},
            "statistics": [{{"displayValue": "{score}"}}, {{"displayValue": "later"}}],
            "status": {{"position": {{"id": "{position}"}}{tee}}}}}"#
    )
}

fn team_competitor(last_names: &[&str], position: &str, score: &str) -> String {
    let roster: Vec<String> = last_names
        .iter()
        .map(|n| format!(r#"{{"athlete": {{"lastName": "{n}"}}}}"#))
        .collect();
    format!(
        r#"{{"roster": [{}], "statistics": [{{"displayValue": "{score}"}}],
            "status": {{"position": {{"id": "{position}"}}}}}}"#,
        roster.join(", ")
    )
}

fn golf_event(code: &str, date: &str, system: &str, competitors: &[String], rest: &str) -> String {
    format!(
        r#"{{"shortName": "Genesis Invitational", "competitions": [{{"id": "4010", "date": "{date}",
            "status": {{"period": 2, "type": {{"name": "{code}"}}}},
            "scoringSystem": {{"name": "{system}"}},
            "competitors": [{}]{rest}}}]}}"#,
        competitors.join(", ")
    )
}

fn one(text: &str) -> Result<Option<Game>, Error> {
    process_golf_event(&parse_json(text).unwrap(), NOW)
}

fn board(game: &Game) -> (&str, &Vec<GolfPlayer>) {
    match &game.extra {
        Some(ExtraGameData::Golf { event_name, players }) => (event_name.as_str(), players),
        other => panic!("{:?}", other),
    }
}

#[test]
fn earliest_is_the_least_of_the_times() {
    assert_eq!(earliest(&vec![]), None);
    assert_eq!(earliest(&vec![7]), Some(7));
    assert_eq!(earliest(&vec![5, -3, 9, -3, 0]), Some(-3));
    assert_eq!(earliest(&vec![i64::MAX, i64::MIN, 0]), Some(i64::MIN));
    assert_eq!(earliest(&vec![3, 2, 1]), Some(1));
    assert_eq!(earliest(&vec![1, 2, 3]), Some(1));
}

#[test]
fn tee_times_are_read_in_the_competitors_order() {
    let list = [
        competitor("A One", "1", "E", "2023-03-01T15:10Z"),
        competitor("B Two", "2", "E", ""),
        competitor("C Three", "3", "E", "2023-03-01T12:00Z"),
        competitor("D Four", "4", "E", "1970-01-01T00:01Z"),
    ];
    let json = parse_json(&format!("[{}]", list.join(", "))).unwrap();
    let competitors = match &json {
        Json::Array(items) => items,
        other => panic!("{:?}", other),
    };
    assert_eq!(tee_times(competitors).unwrap(), vec![NOON + 190 * 60, NOON, 60]);
    assert_eq!(tee_times(&vec![]).unwrap(), Vec::<i64>::new());
    let competition = parse_json(r#"{"date": "2023-03-01T12:00Z"}"#).unwrap();
    assert_eq!(event_seconds_of(&competition, competitors).unwrap(), 60);
    assert_eq!(event_seconds_of(&competition, &vec![]).unwrap(), NOON);
    let broken = parse_json(r#"[{"status": {"teeTime": "2023-03-01T15:10Z"}}, {}]"#).unwrap();
    match &broken {
        Json::Array(items) => {
            assert_eq!(parse_error(tee_times(items)), "status not present");
            assert_eq!(parse_error(event_seconds_of(&competition, items)), "status not present");
        }
        other => panic!("{:?}", other),
    }
}

#[test]
fn a_golf_game_is_built_from_the_seconds_it_is_given() {
    let competitors = [competitor("Jon Rahm", "1", "-12", "")];
    let text = golf_event("STATUS_IN_PROGRESS", "2023-03-01T08:00Z", "Stroke", &competitors, "");
    let event = parse_json(&text).unwrap();
    let competition = competition_of(&event).unwrap();
    let list = get_array_from_value(competition, "competitors").unwrap();
    let build = |status, seconds: i64| golf_game_of(&event, competition, list, status, 3, 77, seconds, NOW);
    let game = build(Status::Active, NOON - 1).unwrap();
    assert_eq!(game.status, Status::Active);
    assert_eq!(game.start_time, (NOON - 1) * 1_000_000_000);
    assert_eq!(game.game_id, 77);
    assert_eq!(game.ordinal, "3");
    assert_eq!(game.period, 0);
    assert_eq!(names(board(&game).1), vec!["RAHM"]);
    assert_eq!(build(Status::Active, NOON).unwrap().status, Status::Active);
    // a time after now ends the day for an event that is being played, and for no other
    assert_eq!(build(Status::Active, NOON + 1).unwrap().status, Status::End);
    assert_eq!(build(Status::Pregame, NOON + 1).unwrap().status, Status::Pregame);
    assert_eq!(build(Status::Intermission, NOON + 1).unwrap().status, Status::Intermission);
    assert_eq!(build(Status::End, NOON - 1).unwrap().status, Status::End);
    assert_eq!(build(Status::End, 0).unwrap().start_time, 0);
    assert_eq!(build(Status::End, -5).unwrap().start_time, -5_000_000_000);
    for seconds in [9_223_372_037, -9_223_372_037, i64::MAX, i64::MIN] {
        assert!(matches!(
            build(Status::End, seconds),
            Err(Error::TimeParseError(m)) if m == "start time out of range"
        ));
    }
    assert_eq!(build(Status::End, 9_223_372_036).unwrap().start_time, 9_223_372_036_000_000_000);
}

#[test]
fn a_raw_line_gives_a_team_and_its_score() {
    let p = from_raw_data("1 Cantlay/Schauffele -29", 0).unwrap();
    assert_eq!(p.display_name, "Cantl/Schau");
    assert_eq!(p.name, "Cantl/Schau");
    assert_eq!(p.score, "-29");
    assert_eq!(p.position, 0);
    let p = from_raw_data("T2 Sam Burns/Billy Horschel -25", 7).unwrap();
    assert_eq!(p.display_name, "Burns/Billy");
    assert_eq!(p.score, "-25");
    assert_eq!(p.position, 7);
    // the second name runs up to the score, the blank before it included
    let p = from_raw_data("3 Im/An E", 2).unwrap();
    assert_eq!(p.display_name, "Im/An ");
    assert_eq!(p.score, "E");
}

#[test]
fn other_raw_lines_give_nothing() {
    for line in ["", "ROUND 2 - PLAY COMPLETE", "Cantlay/Schauffele -29", "1 Cantlay Schauffele -29", "1 /Schauffele -29", "1 Cantlay/ "] {
        assert_eq!(from_raw_data(line, 0), None, "{:?}", line);
    }
}

#[test]
fn groups_become_a_leaderboard_line() {
    let some = |s: &str| Some(s.to_string());
    let groups = vec![some("whole"), some("Hovland"), some("Åberg"), some("-11")];
    let p = player_from_groups(&groups, 4).unwrap();
    assert_eq!(p, GolfPlayer { name: "Hovla/Åberg".to_string(), display_name: "Hovla/Åberg".to_string(), score: "-11".to_string(), position: 4 });
    assert_eq!(player_from_groups(&vec![some("w"), None, some("b"), some("s")], 0), None);
    assert_eq!(player_from_groups(&vec![some("w"), some("a"), None, some("s")], 0), None);
    assert_eq!(player_from_groups(&vec![some("w"), some("a"), some("b"), None], 0), None);
    assert_eq!(player_from_groups(&vec![some("w"), some("a"), some("b")], 0), None);
    assert_eq!(player_from_groups(&vec![], 0), None);
    let whole_missing = vec![None, some("a"), some("b"), some("1")];
    assert_eq!(player_from_groups(&whole_missing, 9).unwrap().display_name, "a/b");
}

#[test]
fn a_raw_leaderboard_keeps_the_first_five_teams() {
    let raw = "LEADERBOARD\n1 Aaaaaa/Bbbbbb -20\nnot a line\n2 Cc/Dd -19\n3 Ee/Ff -18\n\n4 Gg/Hh -17\n5 Ii/Jj -16\n6 Kk/Ll -15";
    let players = raw_leaderboard(raw);
    assert_eq!(names(&players), vec!["Aaaaa/Bbbbb", "Cc/Dd ", "Ee/Ff ", "Gg/Hh ", "Ii/Jj "]);
    let positions: Vec<u64> = players.iter().map(|p| p.position).collect();
    assert_eq!(positions, vec![1, 3, 4, 6, 7]);
    assert_eq!(raw_leaderboard(""), vec![]);
    assert_eq!(raw_leaderboard("nothing here\nnor here"), vec![]);
    assert_eq!(raw_leaderboard("1 Aa/Bb -1").len(), 1);
}

#[test]
fn surnames_skip_suffixes() {
    assert_eq!(surname("TIGER WOODS"), Some("WOODS".to_string()));
    assert_eq!(surname("DAVIS LOVE III"), Some("LOVE".to_string()));
    assert_eq!(surname("SAMMY DAVIS JR."), Some("DAVIS".to_string()));
    assert_eq!(surname("AL GEIBERGER JR"), Some("GEIBERGER".to_string()));
    assert_eq!(surname("A B SR. II"), Some("B".to_string()));
    for suffix in ["JR.", "JR", "SR.", "SR", "II", "III", "IV", "V", "VI"] {
        assert_eq!(surname(&format!("JOHN SMITH {}", suffix)), Some("SMITH".to_string()));
        assert_eq!(surname(suffix), None);
    }
    assert_eq!(surname("JOHN SMITH VII"), Some("VII".to_string()));
    assert_eq!(surname("John Smith Jr"), Some("Jr".to_string()));
    assert_eq!(surname("CHER"), Some("CHER".to_string()));
    assert_eq!(surname(""), Some(String::new()));
    assert_eq!(surname("WOODS "), Some(String::new()));
    assert_eq!(surname("JR SR"), None);
}

#[test]
fn a_single_player_is_shown_by_surname() {
    let json = parse_json(&competitor("Davis Love III", "12", "-4", "")).unwrap();
    assert_eq!(
        from_competitor(&json).unwrap(),
        GolfPlayer {
            name: "DAVIS LOVE III".to_string(),
            display_name: "LOVE".to_string(),
            score: "-4".to_string(),
            position: 12,
        }
    );
}

#[test]
fn a_player_without_statistics_is_even() {
    let json = parse_json(
        r#"{"athlete": {"displayName": "Rory McIlroy"}, "statistics": [],
            "status": {"position": {"id": "1"}}}"#,
    )
    .unwrap();
    let p = from_competitor(&json).unwrap();
    assert_eq!(p.score, "E");
    assert_eq!(p.display_name, "MCILROY");
}

#[test]
fn a_player_needs_all_its_fields() {
    let cases = [
        (r#"{}"#, "statistics not present"),
        (r#"{"statistics": [{}]}"#, "displayValue not present"),
        (r#"{"statistics": []}"#, "athlete not present"),
        (r#"{"statistics": [], "athlete": {}}"#, "displayName not present"),
        (r#"{"statistics": [], "athlete": {"displayName": "jr"}}"#, "displayName holds no surname"),
        (r#"{"statistics": [], "athlete": {"displayName": "A B"}}"#, "status not present"),
        (r#"{"statistics": [], "athlete": {"displayName": "A B"}, "status": {}}"#, "position not present"),
        (r#"{"statistics": [], "athlete": {"displayName": "A B"}, "status": {"position": {}}}"#, "id not present"),
        (r#"{"statistics": [], "athlete": {"displayName": "A B"}, "status": {"position": {"id": 3}}}"#, "id is not a string"),
    ];
    for (text, message) in cases {
        assert_eq!(parse_error(from_competitor(&parse_json(text).unwrap())), message, "{}", text);
    }
}

#[test]
fn a_team_is_named_by_its_roster() {
    let json = parse_json(&team_competitor(&["Cantlay", "Schauffele"], "1", "-29")).unwrap();
    assert_eq!(
        from_teamstroke(&json).unwrap(),
        GolfPlayer {
            name: "CANTL/SCHAU".to_string(),
            display_name: "CANTL/SCHAU".to_string(),
            score: "-29".to_string(),
            position: 1,
        }
    );
    let short = parse_json(&team_competitor(&["Im", "An", "Højgaard"], "2", "E")).unwrap();
    assert_eq!(from_teamstroke(&short).unwrap().display_name, "IM/AN/HØJGA");
    let nobody = parse_json(&team_competitor(&[], "3", "E")).unwrap();
    assert_eq!(from_teamstroke(&nobody).unwrap().display_name, "");
}

#[test]
fn a_team_needs_all_its_fields() {
    let cases = [
        (r#"{}"#, "statistics not present"),
        (r#"{"statistics": []}"#, "roster not present"),
        (r#"{"statistics": [], "roster": [{}]}"#, "athlete not present"),
        (r#"{"statistics": [], "roster": [{"athlete": {"lastName": "A"}}, {"athlete": {}}]}"#, "lastName not present"),
        (r#"{"statistics": [], "roster": []}"#, "status not present"),
    ];
    for (text, message) in cases {
        assert_eq!(parse_error(from_teamstroke(&parse_json(text).unwrap())), message, "{}", text);
    }
}

#[test]
fn sorting_is_by_position_and_stable() {
    let players = vec![player("c", 3), player("a1", 1), player("b", 2), player("a2", 1), player("z", 0), player("a3", 1)];
    let sorted = sort_players(&players);
    assert_eq!(names(&sorted), vec!["z", "a1", "a2", "a3", "b", "c"]);
    assert_eq!(sort_players(&vec![]), vec![]);
    let mut expected = players.clone();
    expected.sort_by(|a, b| a.position.cmp(&b.position));
    assert_eq!(sorted, expected);
}

#[test]
fn sorting_agrees_with_std() {
    let mut seed: u64 = 12345;
    for round in 0..50 {
        let mut players = Vec::new();
        for i in 0..(round % 13) {
            seed = seed.wrapping_mul(6364136223846793005).wrapping_add(1442695040888963407);
            players.push(player(&format!("golfer{}", i), (seed >> 33) % 5));
        }
        let mut expected = players.clone();
        expected.sort_by(|a, b| a.position.cmp(&b.position));
        assert_eq!(sort_players(&players), expected);
    }
}

#[test]
fn top_five_cuts_the_rest() {
    let six: Vec<GolfPlayer> = (0..6).map(|i| player(&format!("golfer{}", i), i)).collect();
    assert_eq!(names(&top_five(six.clone())), vec!["golfer0", "golfer1", "golfer2", "golfer3", "golfer4"]);
    assert_eq!(top_five(six[..5].to_vec()).len(), 5);
    assert_eq!(top_five(six[..2].to_vec()).len(), 2);
    assert_eq!(top_five(vec![]), vec![]);
}

#[test]
fn ranking_sorts_and_cuts() {
    let list: Vec<String> = [("F Six", "6"), ("A One", "1"), ("C Three", "3"), ("B Two", "2"), ("E Five", "5"), ("D Four", "4"), ("G Tie", "1")]
        .iter()
        .map(|(n, p)| competitor(n, p, "E", ""))
        .collect();
    let json = parse_json(&format!("[{}]", list.join(", "))).unwrap();
    let competitors = match &json {
        Json::Array(items) => items,
        other => panic!("{:?}", other),
    };
    let ranked = ranked_players(competitors, false).unwrap();
    assert_eq!(names(&ranked), vec!["ONE", "TIE", "TWO", "THREE", "FOUR"]);
    assert!(ranked.len() <= 5);
    assert!(ranked.windows(2).all(|w| w[0].position <= w[1].position));
    assert_eq!(parse_error(ranked_players(competitors, true)), "roster not present");
}

#[test]
fn event_names_are_shortened() {
    let name = |s: &str| event_name(&to_upper(s));
    assert_eq!(name("Genesis Invitational"), "GENESIS");
    assert_eq!(name("THE PLAYERS Championship"), "THE PLAYERS");
    assert_eq!(name("Arnold Palmer Invitational Pres. by Mastercard"), "ARNOLD PALMER PRES. BY MASTERCARD");
    assert_eq!(name("Masters Tournament"), "MASTERS");
    assert_eq!(name("Wells Fargo Championship"), "WELLS FARGO");
    assert_eq!(name("RBC Heritage"), "RBC HERITAGE");
    assert_eq!(name("Classic Challenge"), "");
    assert_eq!(name(""), "");
    assert_eq!(name("Tournament of Champions"), "OF CHAMPIONS");
    assert_eq!(name("championships"), "CHAMPIONSHIPS");
    assert_eq!(event_name("Genesis Invitational"), "Genesis Invitational");
}

#[test]
fn known_event_names_have_short_forms() {
    let cases = [
        ("Shriners Children's Open", "SHRINERS OPEN"),
        ("Butterfield Bermuda Championship", "BERMUDA CHAMP"),
        ("World Wide Technology Championship at Mayakoba", "WWT CHAMP"),
        ("Farmers Insurance Open", "FARMERS OPEN"),
        ("Sony Open in Hawaii", "SONY OPEN"),
        ("AT&T Pebble Beach Pro-Am", "PEBBLE BEACH"),
        ("Waste Management Phoenix Open", "WM PHOENIX"),
        ("Corales Puntacana Championship", "PUTACANA CHAMP"),
        ("Valero Texas Open", "VALERO OPEN"),
        ("RBC Canadian Open", "RBC CANADIAN"),
        ("Genesis Scottish Open", "SCOTTISH OPEN"),
        ("THE CJ CUP in South Carolina", "CJ CUP"),
        ("Cadence Bank Houston Open", "HOUSTON OPEN"),
    ];
    for (long, short) in cases {
        assert_eq!(event_name(&to_upper(long)), short);
    }
}

#[test]
fn a_golf_event_becomes_a_game() {
    let competitors = [
        competitor("Max Homa", "2", "-9", "2023-03-01T15:10Z"),
        competitor("Jon Rahm", "1", "-12", "2023-03-01T13:40Z"),
        competitor("Davis Love III", "3", "-8", "2023-03-01T14:00Z"),
    ];
    let text = golf_event("STATUS_IN_PROGRESS", "2023-02-27T08:00Z", "Stroke", &competitors, "");
    let game = one(&text).unwrap().unwrap();
    assert_eq!(game.game_id, 4010);
    assert_eq!(game.sport, new_sport(SportType::Golf, Level::Professional));
    assert_eq!(game.home_team, None);
    assert_eq!(game.away_team, None);
    assert_eq!(game.home_team_score, 0);
    assert_eq!(game.away_team_score, 0);
    assert_eq!(game.period, 0);
    assert_eq!(game.ordinal, "2");
    // the earliest tee time lies after now: the day's play is over
    assert_eq!(game.status, Status::End);
    assert_eq!(game.start_time, (NOON + 100 * 60) * 1_000_000_000);
    let (name, players) = board(&game);
    assert_eq!(name, "GENESIS");
    assert_eq!(names(players), vec!["RAHM", "HOMA", "LOVE"]);
    assert_eq!(players[0].score, "-12");
    assert_eq!(players[0].name, "JON RAHM");
}

#[test]
fn an_event_being_played_stays_active_after_its_tee_time() {
    let competitors = [
        competitor("Max Homa", "2", "-9", "2023-03-01T11:59Z"),
        competitor("Jon Rahm", "1", "-12", "2023-03-01T18:00Z"),
    ];
    let text = golf_event("STATUS_IN_PROGRESS", "2023-03-01T08:00Z", "Stroke", &competitors, "");
    let game = one(&text).unwrap().unwrap();
    assert_eq!(game.status, Status::Active);
    assert_eq!(game.start_time, (NOON - 60) * 1_000_000_000);
}

#[test]
fn without_tee_times_the_date_counts() {
    let competitors = [competitor("Max Homa", "1", "-9", "")];
    let text = golf_event("STATUS_SCHEDULED", "2023-03-02T08:00Z", "Stroke", &competitors, "");
    let game = one(&text).unwrap().unwrap();
    assert_eq!(game.status, Status::Pregame);
    assert_eq!(game.start_time, (NOON + 20 * 3600) * 1_000_000_000);
    let none = golf_event("STATUS_SCHEDULED", "2023-03-02T08:00Z", "Stroke", &[], "");
    assert_eq!(one(&none).unwrap().unwrap().start_time, (NOON + 20 * 3600) * 1_000_000_000);
    let no_date = golf_event("STATUS_SCHEDULED", "2023-03-02T08:00Z", "Stroke", &[], "").replace("\"date\"", "\"day\"");
    assert_eq!(parse_error(one(&no_date)), "date not present");
    let bad_date = golf_event("STATUS_SCHEDULED", "next week", "Stroke", &[], "");
    assert!(matches!(one(&bad_date), Err(Error::TimeParseError(m)) if m == "next week"));
}

#[test]
fn a_malformed_tee_time_fails_the_event() {
    let competitors = [
        competitor("Max Homa", "2", "-9", "2023-03-01T11:59Z"),
        competitor("Jon Rahm", "1", "-12", "noon"),
    ];
    let text = golf_event("STATUS_IN_PROGRESS", "2023-03-01T08:00Z", "Stroke", &competitors, "");
    assert!(matches!(one(&text), Err(Error::TimeParseError(m)) if m == "noon"));
}

#[test]
fn far_events_are_dropped_unless_live_or_over() {
    let far = |code: &str, date: &str| one(&golf_event(code, date, "Stroke", &[], ""));
    assert_eq!(far("STATUS_SCHEDULED", "2023-03-02T13:00Z").unwrap(), None);
    assert_eq!(far("STATUS_DELAYED", "2023-02-28T11:00Z").unwrap(), None);
    assert!(far("STATUS_SCHEDULED", "2023-03-02T12:59Z").unwrap().is_some());
    assert!(far("STATUS_DELAYED", "2023-02-28T12:00Z").unwrap().is_some());
    assert_eq!(far("STATUS_FINAL", "2023-02-20T12:00Z").unwrap().unwrap().status, Status::End);
    assert_eq!(far("STATUS_IN_PROGRESS", "2023-02-20T12:00Z").unwrap().unwrap().status, Status::Active);
    assert_eq!(far("STATUS_IN_PROGRESS", "2023-03-20T12:00Z").unwrap().unwrap().status, Status::End);
    assert_eq!(far("STATUS_POSTPONED", "2023-03-01T12:00Z").unwrap(), None);
    assert!(matches!(far("STATUS_ODD", "2023-03-01T12:00Z"), Err(Error::UnknownStatus(c)) if c == "STATUS_ODD"));
}

#[test]
fn a_start_too_far_to_count_is_refused() {
    let text = golf_event("STATUS_FINAL", "2500-01-01T00:00Z", "Stroke", &[], "");
    assert!(matches!(one(&text), Err(Error::TimeParseError(m)) if m == "start time out of range"));
}

#[test]
fn team_play_reads_the_raw_leaderboard() {
    let raw = r#", "rawData": "POS TEAM SCORE\n1 Cantlay/Schauffele -29\n2 Burns/Horschel -27\n3 a/b -1\n4 c/d -1\n5 e/f E\n6 g/h +1""#;
    let text = golf_event("STATUS_IN_PROGRESS", "2023-03-01T08:00Z", "Teamstroke", &[], raw);
    let game = one(&text).unwrap().unwrap();
    assert_eq!(game.status, Status::Active);
    let (_, players) = board(&game);
    assert_eq!(names(players), vec!["Cantl/Schau", "Burns/Horsc", "a/b ", "c/d ", "e/f "]);
    assert!(players.len() <= 5);
    assert!(players.windows(2).all(|w| w[0].position < w[1].position));
    assert_eq!(players[0].position, 1);
}

#[test]
fn a_complete_raw_leaderboard_ends_an_active_event() {
    let raw = r#", "rawData": "ROUND 4 - PLAY COMPLETE\n1 Cantlay/Schauffele -29""#;
    let active = golf_event("STATUS_IN_PROGRESS", "2023-03-01T08:00Z", "Teamstroke", &[], raw);
    let game = one(&active).unwrap().unwrap();
    assert_eq!(game.status, Status::End);
    assert_eq!(names(board(&game).1), vec!["Cantl/Schau"]);
    let scheduled = golf_event("STATUS_SCHEDULED", "2023-03-01T08:00Z", "Teamstroke", &[], raw);
    assert_eq!(one(&scheduled).unwrap().unwrap().status, Status::Pregame);
    let over = golf_event("STATUS_FINAL", "2023-03-01T08:00Z", "Teamstroke", &[], raw);
    assert_eq!(one(&over).unwrap().unwrap().status, Status::End);
    let other_system = golf_event("STATUS_IN_PROGRESS", "2023-03-01T08:00Z", "Stroke", &[], raw);
    assert_eq!(one(&other_system).unwrap().unwrap().status, Status::Active);
    let lower = r#", "rawData": "play complete""#;
    let not_complete = golf_event("STATUS_IN_PROGRESS", "2023-03-01T08:00Z", "Teamstroke", &[], lower);
    assert_eq!(one(&not_complete).unwrap().unwrap().status, Status::Active);
}

#[test]
fn team_play_without_raw_data_reads_the_rosters() {
    let competitors = [
        team_competitor(&["Burns", "Horschel"], "2", "-27"),
        team_competitor(&["Cantlay", "Schauffele"], "1", "-29"),
    ];
    let text = golf_event("STATUS_FINAL", "2023-03-01T08:00Z", "Teamstroke", &competitors, "");
    let game = one(&text).unwrap().unwrap();
    assert_eq!(names(board(&game).1), vec!["CANTL/SCHAU", "BURNS/HORSC"]);
    let not_text = golf_event("STATUS_FINAL", "2023-03-01T08:00Z", "Teamstroke", &competitors, r#", "rawData": 5"#);
    assert_eq!(names(board(&one(&not_text).unwrap().unwrap()).1), vec!["CANTL/SCHAU", "BURNS/HORSC"]);
}

#[test]
fn a_golf_event_needs_its_parts() {
    let base = golf_event("STATUS_FINAL", "2023-03-01T08:00Z", "Stroke", &[], "");
    assert_eq!(parse_error(one(&base.replace("\"scoringSystem\"", "\"scoring\""))), "scoringSystem not present");
    assert_eq!(parse_error(one(&base.replace("\"shortName\"", "\"name\""))), "shortName not present");
    assert_eq!(parse_error(one(&base.replace("\"period\": 2", "\"period\": \"2\""))), "period is not an integer");
    assert_eq!(parse_error(one(&base.replace("\"id\": \"4010\"", "\"id\": 4010"))), "id is not a string");
    assert_eq!(parse_error(one(&base.replace("\"competitors\": []", "\"competitors\": [{}]"))), "status not present");
    assert_eq!(parse_error(one("{}")), "competitions not present");
}

#[test]
fn golf_batches_keep_order_and_fail_as_a_whole() {
    let a = golf_event("STATUS_FINAL", "2023-03-01T08:00Z", "Stroke", &[], "");
    let b = golf_event("STATUS_SCHEDULED", "2023-03-09T08:00Z", "Stroke", &[], "").replace("4010", "4011");
    let c = golf_event("STATUS_SCHEDULED", "2023-03-01T18:00Z", "Stroke", &[], "").replace("4010", "4012");
    let body = format!(r#"{{"events": [{a}, {b}, {c}]}}"#);
    let golf = new_sport(SportType::Golf, Level::Professional);
    let games = games_from_scoreboard(&golf, &body, NOW, &TeamTables::new()).unwrap();
    let ids: Vec<u64> = games.iter().map(|g| g.game_id).collect();
    assert_eq!(ids, vec![4010, 4012]);
    let events = match parse_json(&format!("[{a}, {b}, {c}, {{}}]")).unwrap() {
        Json::Array(events) => events,
        other => panic!("{:?}", other),
    };
    assert_eq!(parse_error(process_golf(&events, NOW)), "competitions not present");
    assert_eq!(process_golf(&copies(&events[..3]), NOW).unwrap(), games);
}

fn copies(values: &[Json]) -> Vec<Json> {
    values.iter().map(copy_json).collect()
}

fn copy_json(json: &Json) -> Json {
    match json {
        Json::Null => Json::Null,
        Json::Bool(b) => Json::Bool(*b),
        Json::Number(n) => Json::Number(*n),
        Json::Str(s) => Json::Str(s.clone()),
        Json::Array(items) => Json::Array(copies(items)),
        Json::Object(map) => Json::Object(live_sports::json::JsonMap {
            entries: map.entries.iter().map(|(k, v)| (k.clone(), copy_json(v))).collect(),
        }),
    }
}
