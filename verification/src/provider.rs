//! From a provider's answer to games: which provider serves a sport, and
//! what the body of its answer gives.

use vstd::prelude::*;
use crate::cache::{outcome_view, outcome_views};
use crate::error::{Error, ErrorView};
use crate::game::{game_views, Game, GameView};
use crate::golf::{golf_games, process_golf};
use crate::hockey::{hockey_game, schedule_games, scheduled_games, with_linescore};
use crate::json::{as_array, document_json, get_array, parse_json, Json, JsonMap};
use crate::scoreboard::{events_games, process_events, yields_games};
use crate::sport::{Sport, SportType};
use crate::sport_map::SportMap;
use crate::team::{team_map_of, Team, TeamTables};

verus! {

/// Where a sport's games come from.
#[derive(Clone, Copy, Debug, PartialEq, Eq, Hash, Structural)]
pub enum Provider {
    /// The scoreboard that lists events of many sports.
    Scoreboard,
    /// The hockey league's own schedule and line scores.
    LeagueSchedule,
}

/// The provider of a sport: the league's schedule for hockey, the
/// scoreboard for every other sport.
pub fn provider_of(sport: &Sport) -> (provider: Provider)
    ensures
        provider == if sport.sport_type == SportType::Hockey {
            Provider::LeagueSchedule
        } else {
            Provider::Scoreboard
        },
{
    match sport.sport_type {
        SportType::Hockey => Provider::LeagueSchedule,
        _ => Provider::Scoreboard,
    }
}

/// The object that a text holds as a JSON document; `None` where the text
/// is no JSON document or the document is no object.
pub open spec fn document_object(text: Seq<char>) -> Option<JsonMap> {
    match document_json(text) {
        Some(Json::Object(map)) => Some(map),
        _ => None,
    }
}

/// Reads a JSON document that is an object. Any other text is refused with
/// `DeserializationError`.
pub fn parse_object(text: &str) -> (r: Result<JsonMap, Error>)
    ensures
        match document_object(text@) {
            Some(map) => r matches Ok(got) && got == map,
            None => r matches Err(e) && e@ is DeserializationError,
        },
{
    match parse_json(text)? {
        Json::Object(map) => Ok(map),
        _ => Err(Error::DeserializationError("expected an object".to_owned())),
    }
}

/// The games that a scoreboard's document gives at the time `now`: those
/// of its events, read as a leaderboard for golf.
pub open spec fn document_games(sport: Sport, document: JsonMap, now: i64, table: Map<u64, Team>) -> Result<
    Seq<GameView>,
    ErrorView,
> {
    match as_array(document.field("events"@), "events"@) {
        Err(e) => Err(e),
        Ok(events) => if sport.sport_type == SportType::Golf {
            golf_games(events@, now)
        } else {
            events_games(sport, events@, now, table)
        },
    }
}

/// Turns a scoreboard's document into games.
pub fn games_from_document(sport: &Sport, document: &JsonMap, now: i64, tables: &TeamTables) -> (r:
    Result<Vec<Game>, Error>)
    requires
        sport.sport_type != SportType::Hockey,
    ensures
        yields_games(r, document_games(*sport, *document, now, team_map_of(*tables, *sport)@)),
{
    let events = get_array(document, "events")?;
    match sport.sport_type {
        SportType::Golf => process_golf(events, now),
        _ => process_events(sport, events, now, tables),
    }
}

/// Turns the body of a scoreboard's answer into games. `now` is the present
/// in nanoseconds since the Unix epoch.
pub fn games_from_scoreboard(sport: &Sport, body: &str, now: i64, tables: &TeamTables) -> (r:
    Result<Vec<Game>, Error>)
    requires
        sport.sport_type != SportType::Hockey,
    ensures
        match document_object(body@) {
            Some(document) => yields_games(
                r,
                document_games(*sport, document, now, team_map_of(*tables, *sport)@),
            ),
            None => r matches Err(e) && e@ is DeserializationError,
        },
{
    let document = parse_object(body)?;
    games_from_document(sport, &document, now, tables)
}

/// Turns the body of the league schedule's answer into the day's games, as
/// far as the schedule knows them.
pub fn games_from_schedule(sport: &Sport, body: &str, tables: &TeamTables) -> (r: Result<
    Vec<Game>,
    Error,
>)
    requires
        sport.sport_type == SportType::Hockey,
    ensures
        match document_object(body@) {
            Some(schedule) => yields_games(
                r,
                scheduled_games(*sport, schedule, team_map_of(*tables, *sport)@),
            ),
            None => r matches Err(e) && e@ is DeserializationError,
        },
{
    let schedule = parse_object(body)?;
    schedule_games(sport, &schedule, tables)
}

/// Completes a scheduled game from the body of its line score's answer.
pub fn game_from_linescore(game: Game, body: &str) -> (r: Result<Game, Error>)
    ensures
        match document_object(body@) {
            Some(linescore) => match with_linescore(game@, linescore) {
                Ok(done) => r matches Ok(got) && got@ == done,
                Err(e) => r matches Err(got) && got@ == e,
            },
            None => r matches Err(e) && e@ is DeserializationError,
        },
{
    let linescore = parse_object(body)?;
    hockey_game(game, &linescore)
}

/// The outcome of completing one game, with the game as a view.
pub open spec fn completed_view(outcome: Result<Game, Error>) -> Result<GameView, ErrorView> {
    match outcome {
        Ok(game) => Ok(game@),
        Err(e) => Err(e@),
    }
}

/// The games of a batch in which each game was completed on its own: all
/// of them in their order, or the failure of the first that failed.
pub open spec fn completed_games(outcomes: Seq<Result<Game, Error>>) -> Result<
    Seq<GameView>,
    ErrorView,
>
    decreases outcomes.len(),
{
    if outcomes.len() == 0 {
        Ok(Seq::<GameView>::empty())
    } else {
        match completed_games(outcomes.drop_last()) {
            Err(e) => Err(e),
            Ok(games) => match outcomes.last() {
                Ok(game) => Ok(games.push(game@)),
                Err(e) => Err(e@),
            },
        }
    }
}

/// A batch fails with the failure of any of its prefixes.
pub proof fn lemma_completed_prefix_error(outcomes: Seq<Result<Game, Error>>, k: int)
    requires
        0 <= k <= outcomes.len(),
    ensures
        completed_games(outcomes.take(k)) matches Err(e) ==> completed_games(outcomes) == Err::<
            Seq<GameView>,
            ErrorView,
        >(e),
    decreases outcomes.len(),
{
    if k == outcomes.len() {
        assert(outcomes.take(k) =~= outcomes);
    } else {
        assert(outcomes.drop_last().take(k) =~= outcomes.take(k));
        lemma_completed_prefix_error(outcomes.drop_last(), k);
    }
}

/// Joins the games of a batch in which each game was completed on its own.
/// No failure is dropped: the first fails the batch.
pub fn collect_games(outcomes: Vec<Result<Game, Error>>) -> (r: Result<Vec<Game>, Error>)
    ensures
        yields_games(r, completed_games(outcomes@)),
{
    let mut rest = outcomes;
    let mut games: Vec<Game> = Vec::new();
    let ghost all = outcomes@;
    let ghost mut done: int = 0;
    assert(all.take(0) =~= Seq::<Result<Game, Error>>::empty());
    assert(game_views(games@) =~= Seq::<GameView>::empty());
    assert(rest@ =~= all.skip(0));
    while rest.len() > 0
        invariant
            0 <= done <= all.len(),
            rest.len() == all.len() - done,
            rest@ == all.skip(done),
            all == outcomes@,
            completed_games(all.take(done)) == Ok::<Seq<GameView>, ErrorView>(game_views(games@)),
        decreases rest.len(),
    {
        let ghost before = game_views(games@);
        proof {
            let next = all.take(done + 1);
            assert(next.drop_last() =~= all.take(done));
            assert(next.last() == all[done]);
            assert(rest@[0] == all.skip(done)[0]);
            assert(rest@.remove(0) =~= all.skip(done + 1));
            lemma_completed_prefix_error(all, done + 1);
        }
        match rest.remove(0) {
            Ok(game) => {
                games.push(game);
                assert(game_views(games@) =~= before.push(game@));
            },
            Err(e) => {
                return Err(e);
            },
        }
        proof {
            done = done + 1;
        }
    }
    assert(all.take(all.len() as int) =~= all);
    Ok(games)
}

/// The outcome of fetching a sport, with its games as views.
pub open spec fn fetched_view(outcome: Result<Vec<Game>, Error>) -> Result<Seq<GameView>, ErrorView> {
    match outcome {
        Ok(games) => Ok(game_views(games@)),
        Err(e) => Err(e@),
    }
}

/// The outcome filed under each sport, with its games as views.
pub open spec fn fetched_views(outcomes: Map<Sport, Result<Vec<Game>, Error>>) -> Map<
    Sport,
    Result<Seq<GameView>, ErrorView>,
> {
    outcomes.map_values(|outcome: Result<Vec<Game>, Error>| fetched_view(outcome))
}

/// The outcomes of a batch in which each sport was fetched on its own, each
/// filed under its sport: a sport's games where its fetch succeeded, its
/// failure where it did not. A sport fetched twice keeps its later outcome.
pub open spec fn collected_outcomes(outcomes: Seq<(Sport, Result<Seq<GameView>, ErrorView>)>) -> Map<
    Sport,
    Result<Seq<GameView>, ErrorView>,
>
    decreases outcomes.len(),
{
    if outcomes.len() == 0 {
        Map::<Sport, Result<Seq<GameView>, ErrorView>>::empty()
    } else {
        collected_outcomes(outcomes.drop_last()).insert(outcomes.last().0, outcomes.last().1)
    }
}

/// The sports of the joined outcomes are exactly those that were fetched,
/// and each sport's outcome is the one of its last fetch: no sport's failure
/// removes or alters the outcome of another.
pub proof fn lemma_collected_outcomes(outcomes: Seq<(Sport, Result<Seq<GameView>, ErrorView>)>)
    ensures
        forall|sport: Sport|
            collected_outcomes(outcomes).contains_key(sport) <==> exists|i: int|
                0 <= i < outcomes.len() && outcomes[i].0 == sport,
        forall|i: int|
            0 <= i < outcomes.len() && (forall|j: int|
                i < j < outcomes.len() ==> outcomes[j].0 != outcomes[i].0)
                ==> collected_outcomes(outcomes).contains_key(outcomes[i].0)
                && collected_outcomes(outcomes)[outcomes[i].0] == outcomes[i].1,
    decreases outcomes.len(),
{
    if outcomes.len() > 0 {
        let head = outcomes.drop_last();
        let last = outcomes.last();
        lemma_collected_outcomes(head);
        assert forall|sport: Sport|
            collected_outcomes(outcomes).contains_key(sport) <==> exists|i: int|
                0 <= i < outcomes.len() && outcomes[i].0 == sport by {
            if collected_outcomes(outcomes).contains_key(sport) {
                if sport == last.0 {
                    assert(outcomes[outcomes.len() - 1].0 == sport);
                } else {
                    assert(collected_outcomes(head).contains_key(sport));
                    let i = choose|i: int| 0 <= i < head.len() && head[i].0 == sport;
                    assert(outcomes[i].0 == sport);
                }
            }
            if exists|i: int| 0 <= i < outcomes.len() && outcomes[i].0 == sport {
                let i = choose|i: int| 0 <= i < outcomes.len() && outcomes[i].0 == sport;
                if i < head.len() {
                    assert(head[i].0 == sport);
                }
            }
        }
        assert forall|i: int|
            0 <= i < outcomes.len() && (forall|j: int|
                i < j < outcomes.len() ==> outcomes[j].0 != outcomes[i].0) implies collected_outcomes(
            outcomes,
        ).contains_key(outcomes[i].0) && collected_outcomes(outcomes)[outcomes[i].0]
            == outcomes[i].1 by {
            if i < head.len() {
                assert(head[i] == outcomes[i]);
                assert forall|j: int| i < j < head.len() implies head[j].0 != head[i].0 by {
                    assert(head[j] == outcomes[j]);
                }
                assert(outcomes[outcomes.len() - 1].0 != outcomes[i].0);
            }
        }
    }
}

/// What holds of a map that files the outcomes of a batch: its sports are
/// those that were fetched, each with the outcome of its last fetch.
pub proof fn lemma_joined_outcomes(
    outcomes: Seq<(Sport, Result<Vec<Game>, Error>)>,
    joined: Map<Sport, Result<Vec<Game>, Error>>,
)
    requires
        fetched_views(joined) == collected_outcomes(outcome_views(outcomes)),
    ensures
        forall|sport: Sport|
            joined.contains_key(sport) <==> exists|i: int|
                0 <= i < outcomes.len() && outcomes[i].0 == sport,
        forall|i: int|
            0 <= i < outcomes.len() && (forall|j: int|
                i < j < outcomes.len() ==> outcomes[j].0 != outcomes[i].0) ==> joined.contains_key(
                outcomes[i].0,
            ) && fetched_view(joined[outcomes[i].0]) == fetched_view(outcomes[i].1),
{
    let all = outcome_views(outcomes);
    lemma_collected_outcomes(all);
    assert forall|sport: Sport|
        joined.contains_key(sport) <==> exists|i: int|
            0 <= i < outcomes.len() && outcomes[i].0 == sport by {
        assert(joined.contains_key(sport) <==> fetched_views(joined).contains_key(sport));
        if exists|i: int| 0 <= i < all.len() && all[i].0 == sport {
            let i = choose|i: int| 0 <= i < all.len() && all[i].0 == sport;
            assert(outcomes[i].0 == sport);
        }
        if exists|i: int| 0 <= i < outcomes.len() && outcomes[i].0 == sport {
            let i = choose|i: int| 0 <= i < outcomes.len() && outcomes[i].0 == sport;
            assert(all[i].0 == sport);
        }
    }
    assert forall|i: int|
        0 <= i < outcomes.len() && (forall|j: int|
            i < j < outcomes.len() ==> outcomes[j].0 != outcomes[i].0) implies joined.contains_key(
        outcomes[i].0,
    ) && fetched_view(joined[outcomes[i].0]) == fetched_view(outcomes[i].1) by {
        assert(all[i] == outcome_view(outcomes[i]));
        assert forall|j: int| i < j < all.len() implies all[j].0 != all[i].0 by {
            assert(all[j] == outcome_view(outcomes[j]));
        }
        assert(fetched_views(joined).contains_key(outcomes[i].0));
        assert(fetched_views(joined)[outcomes[i].0] == all[i].1);
    }
}

/// Joins the outcomes of a batch in which each sport was fetched on its
/// own: every sport that was fetched is filed with its own outcome, its
/// games or its failure. One sport's failure leaves the others' games as
/// they are.
pub fn collect_outcomes(outcomes: Vec<(Sport, Result<Vec<Game>, Error>)>) -> (r: SportMap<
    Result<Vec<Game>, Error>,
>)
    ensures
        fetched_views(r@) == collected_outcomes(outcome_views(outcomes@)),
        forall|sport: Sport|
            r@.contains_key(sport) <==> exists|i: int|
                0 <= i < outcomes@.len() && outcomes@[i].0 == sport,
        forall|i: int|
            0 <= i < outcomes@.len() && (forall|j: int|
                i < j < outcomes@.len() ==> outcomes@[j].0 != outcomes@[i].0) ==> r@.contains_key(
                outcomes@[i].0,
            ) && fetched_view(r@[outcomes@[i].0]) == fetched_view(outcomes@[i].1),
{
    let mut rest = outcomes;
    let mut joined: SportMap<Result<Vec<Game>, Error>> = SportMap::new();
    let ghost all = outcome_views(outcomes@);
    let ghost mut done: int = 0;
    assert(all.take(0) =~= Seq::<(Sport, Result<Seq<GameView>, ErrorView>)>::empty());
    assert(fetched_views(joined@) =~= Map::<Sport, Result<Seq<GameView>, ErrorView>>::empty());
    assert(outcome_views(rest@) =~= all.skip(0));
    while rest.len() > 0
        invariant
            0 <= done <= all.len(),
            rest.len() == all.len() - done,
            outcome_views(rest@) == all.skip(done),
            fetched_views(joined@) == collected_outcomes(all.take(done)),
        decreases rest.len(),
    {
        let ghost before = joined@;
        proof {
            let next = all.take(done + 1);
            assert(next.drop_last() =~= all.take(done));
            assert(next.last() == all[done]);
            assert(outcome_views(rest@)[0] == all.skip(done)[0]);
            assert forall|j: int| 0 <= j < rest@.remove(0).len() implies outcome_views(
                rest@.remove(0),
            )[j] == all.skip(done + 1)[j] by {
                assert(rest@.remove(0)[j] == rest@[j + 1]);
                assert(outcome_views(rest@)[j + 1] == all.skip(done)[j + 1]);
            }
            assert(outcome_views(rest@.remove(0)) =~= all.skip(done + 1));
        }
        let (sport, outcome) = rest.remove(0);
        joined.insert(sport, outcome);
        proof {
            assert(fetched_views(joined@) =~= fetched_views(before).insert(
                sport,
                fetched_view(outcome),
            ));
            done = done + 1;
        }
    }
    proof {
        assert(all.take(all.len() as int) =~= all);
        lemma_joined_outcomes(outcomes@, joined@);
    }
    joined
}

} // verus!
