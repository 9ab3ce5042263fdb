//! The cache that sits in front of the providers. It keeps, for each sport,
//! the games last fetched, or the mark of a failed fetch, with the time of
//! the fetch, and serves them for sixty seconds.
//!
//! The cache decides and the caller fetches: `lookup` says which sports are
//! served from the cache and which have to be fetched; once the caller has
//! fetched those, `update` records the outcome and makes the response.

use vstd::prelude::*;
use crate::error::{Error, ErrorView};
use crate::game::{clone_games, game_views, Game, GameView};
use crate::sport::Sport;
use crate::sport_map::SportMap;

verus! {

/// For how long an entry is served, in nanoseconds: sixty seconds.
pub const FRESH_NANOS: u64 = 60_000_000_000;

/// What the cache keeps of a sport: the time of the last fetch, on the
/// caller's monotonic clock in nanoseconds, and the games fetched, or
/// `None` where the fetch failed.
pub struct CacheEntry {
    pub last_updated: u64,
    pub snapshot: Option<Vec<Game>>,
}

/// An entry with its games as views.
pub ghost struct EntryView {
    pub last_updated: u64,
    pub snapshot: Option<Seq<GameView>>,
}

impl View for CacheEntry {
    type V = EntryView;

    open spec fn view(&self) -> EntryView {
        EntryView {
            last_updated: self.last_updated,
            snapshot: match self.snapshot {
                Some(games) => Some(game_views(games@)),
                None => None,
            },
        }
    }
}

/// The cache: at most one entry for each sport.
pub struct Cache {
    pub entries: SportMap<CacheEntry>,
}

impl View for Cache {
    type V = Map<Sport, EntryView>;

    open spec fn view(&self) -> Map<Sport, EntryView> {
        self.entries@.map_values(|entry: CacheEntry| entry@)
    }
}

/// The games of each sport, as views.
pub open spec fn score_views(scores: Map<Sport, Vec<Game>>) -> Map<Sport, Seq<GameView>> {
    scores.map_values(|games: Vec<Game>| game_views(games@))
}

/// What a look into the cache gives: the games of the sports that are
/// served from it, and the sports that have to be fetched, in the order in
/// which they were asked for.
pub struct Lookup {
    pub hits: SportMap<Vec<Game>>,
    pub stale: Vec<Sport>,
}

/// A look into the cache, with its games as views.
pub ghost struct LookupView {
    pub hits: Map<Sport, Seq<GameView>>,
    pub stale: Seq<Sport>,
}

impl View for Lookup {
    type V = LookupView;

    open spec fn view(&self) -> LookupView {
        LookupView { hits: score_views(self.hits@), stale: self.stale@ }
    }
}

/// Whether an entry written at `written` is still served at `now`: less
/// than sixty seconds have passed. A clock that reads earlier than the
/// entry counts as no time passed.
pub open spec fn is_fresh(written: u64, now: u64) -> bool {
    now <= written || now - written < FRESH_NANOS
}

/// The failure that a remembered failed fetch gives while it is fresh.
pub open spec fn remembered_failure() -> ErrorView {
    ErrorView::FetchError("the last fetch failed"@)
}

/// What a look into the cache gives at the time `now` for the sports asked
/// for. A sport with a fresh entry is served from it; a fresh mark of a
/// failed fetch fails the whole look; every other sport is to be fetched.
pub open spec fn planned(cache: Map<Sport, EntryView>, sports: Seq<Sport>, now: u64) -> Result<
    LookupView,
    ErrorView,
>
    decreases sports.len(),
{
    if sports.len() == 0 {
        Ok(LookupView { hits: Map::<Sport, Seq<GameView>>::empty(), stale: Seq::<Sport>::empty() })
    } else {
        match planned(cache, sports.drop_last(), now) {
            Err(e) => Err(e),
            Ok(before) => {
                let sport = sports.last();
                if cache.contains_key(sport) && is_fresh(cache[sport].last_updated, now) {
                    match cache[sport].snapshot {
                        Some(games) => Ok(
                            LookupView { hits: before.hits.insert(sport, games), ..before },
                        ),
                        None => Err(remembered_failure()),
                    }
                } else {
                    Ok(LookupView { stale: before.stale.push(sport), ..before })
                }
            },
        }
    }
}

/// A look fails where the look for any of the first sports fails.
pub proof fn lemma_planned_prefix_error(
    cache: Map<Sport, EntryView>,
    sports: Seq<Sport>,
    k: int,
    now: u64,
)
    requires
        0 <= k <= sports.len(),
    ensures
        planned(cache, sports.take(k), now) matches Err(e) ==> planned(cache, sports, now) == Err::<
            LookupView,
            ErrorView,
        >(e),
    decreases sports.len(),
{
    if k == sports.len() {
        assert(sports.take(k) =~= sports);
    } else {
        assert(sports.drop_last().take(k) =~= sports.take(k));
        lemma_planned_prefix_error(cache, sports.drop_last(), k, now);
    }
}

/// The outcome of fetching one sport, with its games as views.
pub open spec fn outcome_view(outcome: (Sport, Result<Vec<Game>, Error>)) -> (
    Sport,
    Result<Seq<GameView>, ErrorView>,
) {
    (
        outcome.0,
        match outcome.1 {
            Ok(games) => Ok(game_views(games@)),
            Err(e) => Err(e@),
        },
    )
}

/// The outcomes of fetching some sports, with their games as views.
pub open spec fn outcome_views(outcomes: Seq<(Sport, Result<Vec<Game>, Error>)>) -> Seq<
    (Sport, Result<Seq<GameView>, ErrorView>),
> {
    outcomes.map_values(|outcome: (Sport, Result<Vec<Game>, Error>)| outcome_view(outcome))
}

/// The cache after the outcomes of fetching at the time `now` are recorded,
/// one after the other: the games where a fetch succeeded, the mark of a
/// failure where it did not.
pub open spec fn refreshed(
    cache: Map<Sport, EntryView>,
    outcomes: Seq<(Sport, Result<Seq<GameView>, ErrorView>)>,
    now: u64,
) -> Map<Sport, EntryView>
    decreases outcomes.len(),
{
    if outcomes.len() == 0 {
        cache
    } else {
        refreshed(cache, outcomes.drop_last(), now).insert(
            outcomes.last().0,
            EntryView {
                last_updated: now,
                snapshot: match outcomes.last().1 {
                    Ok(games) => Some(games),
                    Err(_) => None,
                },
            },
        )
    }
}

/// The games served from the cache together with those of the fetches that
/// succeeded.
pub open spec fn merged(
    hits: Map<Sport, Seq<GameView>>,
    outcomes: Seq<(Sport, Result<Seq<GameView>, ErrorView>)>,
) -> Map<Sport, Seq<GameView>>
    decreases outcomes.len(),
{
    if outcomes.len() == 0 {
        hits
    } else {
        match outcomes.last().1 {
            Ok(games) => merged(hits, outcomes.drop_last()).insert(outcomes.last().0, games),
            Err(_) => merged(hits, outcomes.drop_last()),
        }
    }
}

/// The failure of the last fetch that failed, if any did.
pub open spec fn last_failure(outcomes: Seq<(Sport, Result<Seq<GameView>, ErrorView>)>) -> Option<
    ErrorView,
>
    decreases outcomes.len(),
{
    if outcomes.len() == 0 {
        None
    } else {
        match outcomes.last().1 {
            Ok(_) => last_failure(outcomes.drop_last()),
            Err(e) => Some(e),
        }
    }
}

/// The response to a request: the games of every sport asked for, or, where
/// a fetch failed, the failure of the last one that did.
pub open spec fn response(
    hits: Map<Sport, Seq<GameView>>,
    outcomes: Seq<(Sport, Result<Seq<GameView>, ErrorView>)>,
) -> Result<Map<Sport, Seq<GameView>>, ErrorView> {
    match last_failure(outcomes) {
        Some(e) => Err(e),
        None => Ok(merged(hits, outcomes)),
    }
}

impl Cache {
    /// The cache that holds nothing.
    pub fn new() -> (cache: Self)
        ensures
            cache@ == Map::<Sport, EntryView>::empty(),
    {
        let cache = Cache { entries: SportMap::new() };
        assert(cache@ =~= Map::<Sport, EntryView>::empty());
        cache
    }

    /// Looks the sports up at the time `now`: which are served from the
    /// cache, with copies of their games, and which have to be fetched.
    pub fn lookup(&self, sports: &Vec<Sport>, now: u64) -> (r: Result<Lookup, Error>)
        ensures
            match planned(self@, sports@, now) {
                Ok(plan) => r matches Ok(got) && got@ == plan,
                Err(e) => r matches Err(got) && got@ == e,
            },
    {
        let mut hits: SportMap<Vec<Game>> = SportMap::new();
        let mut stale: Vec<Sport> = Vec::new();
        let mut i: usize = 0;
        assert(sports@.take(0) =~= Seq::<Sport>::empty());
        assert(score_views(hits@) =~= Map::<Sport, Seq<GameView>>::empty());
        while i < sports.len()
            invariant
                i <= sports.len(),
                planned(self@, sports@.take(i as int), now) == Ok::<LookupView, ErrorView>(
                    LookupView { hits: score_views(hits@), stale: stale@ },
                ),
            decreases sports.len() - i,
        {
            let sport = sports[i];
            let ghost before_hits = hits@;
            proof {
                let next = sports@.take(i + 1);
                assert(next.drop_last() =~= sports@.take(i as int));
                assert(next.last() == sport);
                lemma_planned_prefix_error(self@, sports@, i + 1, now);
            }
            match self.entries.get(&sport) {
                Some(entry) => {
                    assert(self@.contains_key(sport) && self@[sport] == entry@);
                    if now <= entry.last_updated || now - entry.last_updated < FRESH_NANOS {
                        match &entry.snapshot {
                            Some(games) => {
                                let copy = clone_games(games);
                                hits.insert(sport, copy);
                                assert(score_views(hits@) =~= score_views(before_hits).insert(
                                    sport,
                                    game_views(games@),
                                ));
                            },
                            None => {
                                return Err(Error::FetchError("the last fetch failed".to_owned()));
                            },
                        }
                    } else {
                        stale.push(sport);
                    }
                },
                None => {
                    assert(!self@.contains_key(sport));
                    stale.push(sport);
                },
            }
            i += 1;
        }
        assert(sports@.take(sports.len() as int) =~= sports@);
        Ok(Lookup { hits, stale })
    }

    /// Records the outcomes of the fetches made at the time `now` and makes
    /// the response from them and from the games that the cache served.
    pub fn update(
        &mut self,
        hits: SportMap<Vec<Game>>,
        outcomes: Vec<(Sport, Result<Vec<Game>, Error>)>,
        now: u64,
    ) -> (r: Result<SportMap<Vec<Game>>, Error>)
        ensures
            final(self)@ == refreshed(old(self)@, outcome_views(outcomes@), now),
            match response(score_views(hits@), outcome_views(outcomes@)) {
                Ok(scores) => r matches Ok(got) && score_views(got@) == scores,
                Err(e) => r matches Err(got) && got@ == e,
            },
    {
        let mut scores = hits;
        let mut rest = outcomes;
        let mut failure: Option<Error> = None;
        let ghost all = outcome_views(outcomes@);
        let ghost mut done: int = 0;
        assert(all.take(0) =~= Seq::<(Sport, Result<Seq<GameView>, ErrorView>)>::empty());
        assert(outcome_views(rest@) =~= all.skip(0));
        while rest.len() > 0
            invariant
                0 <= done <= all.len(),
                rest.len() == all.len() - done,
                outcome_views(rest@) == all.skip(done),
                self@ == refreshed(old(self)@, all.take(done), now),
                score_views(scores@) == merged(score_views(hits@), all.take(done)),
                match failure {
                    Some(e) => last_failure(all.take(done)) == Some(e@),
                    None => last_failure(all.take(done)) is None,
                },
            decreases rest.len(),
        {
            let ghost before_cache = self@;
            let ghost before_scores = scores@;
            let ghost before_entries = self.entries@;
            proof {
                let next = all.take(done + 1);
                assert(next.drop_last() =~= all.take(done));
                assert(next.last() == all[done]);
                assert(outcome_views(rest@)[0] == all.skip(done)[0]);
                assert forall|j: int| 0 <= j < rest@.remove(0).len() implies outcome_views(
                    rest@.remove(0),
                )[j] == all.skip(done + 1)[j] by {
                    assert(rest@.remove(0)[j] == rest@[j + 1]);
                    assert(outcome_views(rest@)[j + 1] == all.skip(done)[j + 1]);
                }
                assert(outcome_views(rest@.remove(0)) =~= all.skip(done + 1));
            }
            let (sport, outcome) = rest.remove(0);
            match outcome {
                Ok(games) => {
                    let kept = clone_games(&games);
                    self.entries.insert(sport, CacheEntry { last_updated: now, snapshot: Some(kept) });
                    scores.insert(sport, games);
                    assert(score_views(scores@) =~= score_views(before_scores).insert(
                        sport,
                        game_views(games@),
                    ));
                    assert(self@ =~= before_cache.insert(
                        sport,
                        EntryView { last_updated: now, snapshot: Some(game_views(games@)) },
                    ));
                },
                Err(e) => {
                    self.entries.insert(sport, CacheEntry { last_updated: now, snapshot: None });
                    assert(self@ =~= before_cache.insert(
                        sport,
                        EntryView { last_updated: now, snapshot: None },
                    ));
                    failure = Some(e);
                },
            }
            proof {
                done = done + 1;
            }
        }
        assert(all.take(all.len() as int) =~= all);
        match failure {
            Some(e) => Err(e),
            None => Ok(scores),
        }
    }
}

/// A sport that the cache does not hold is fetched, once, and the games
/// fetched are the response. Asked for again less than sixty seconds later,
/// the sport is served from the cache: nothing is fetched, and the response
/// holds the same games.
pub proof fn lemma_cache_serves_fresh(
    cache: Map<Sport, EntryView>,
    sport: Sport,
    games: Seq<GameView>,
    first: u64,
    second: u64,
)
    requires
        !cache.contains_key(sport),
        first <= second,
        second - first < FRESH_NANOS,
    ensures
        planned(cache, seq![sport], first) == Ok::<LookupView, ErrorView>(
            LookupView { hits: Map::<Sport, Seq<GameView>>::empty(), stale: seq![sport] },
        ),
        response(
            Map::<Sport, Seq<GameView>>::empty(),
            seq![(sport, Ok::<Seq<GameView>, ErrorView>(games))],
        ) == Ok::<Map<Sport, Seq<GameView>>, ErrorView>(
            Map::<Sport, Seq<GameView>>::empty().insert(sport, games),
        ),
        planned(
            refreshed(cache, seq![(sport, Ok::<Seq<GameView>, ErrorView>(games))], first),
            seq![sport],
            second,
        ) == Ok::<LookupView, ErrorView>(
            LookupView {
                hits: Map::<Sport, Seq<GameView>>::empty().insert(sport, games),
                stale: Seq::<Sport>::empty(),
            },
        ),
        response(
            Map::<Sport, Seq<GameView>>::empty().insert(sport, games),
            Seq::<(Sport, Result<Seq<GameView>, ErrorView>)>::empty(),
        ) == Ok::<Map<Sport, Seq<GameView>>, ErrorView>(
            Map::<Sport, Seq<GameView>>::empty().insert(sport, games),
        ),
{
    let one = seq![sport];
    assert(one.drop_last() =~= Seq::<Sport>::empty());
    assert(one.last() == sport);
    assert(Seq::<Sport>::empty().push(sport) =~= one);
    assert(planned(cache, one.drop_last(), first) == Ok::<LookupView, ErrorView>(
        LookupView {
            hits: Map::<Sport, Seq<GameView>>::empty(),
            stale: Seq::<Sport>::empty(),
        },
    ));
    let outcome = (sport, Ok::<Seq<GameView>, ErrorView>(games));
    let fetched = seq![outcome];
    assert(fetched.drop_last() =~= Seq::<(Sport, Result<Seq<GameView>, ErrorView>)>::empty());
    assert(fetched.last() == outcome);
    let after = refreshed(cache, fetched, first);
    assert(refreshed(cache, fetched.drop_last(), first) == cache);
    assert(after == cache.insert(
        sport,
        EntryView { last_updated: first, snapshot: Some(games) },
    ));
    assert(planned(after, one.drop_last(), second) == Ok::<LookupView, ErrorView>(
        LookupView {
            hits: Map::<Sport, Seq<GameView>>::empty(),
            stale: Seq::<Sport>::empty(),
        },
    ));
    assert(merged(Map::<Sport, Seq<GameView>>::empty(), fetched.drop_last()) == Map::<
        Sport,
        Seq<GameView>,
    >::empty());
    assert(last_failure(fetched.drop_last()) is None);
}

/// An entry is served until sixty seconds have passed and is fetched again
/// after that, whatever it holds.
pub proof fn lemma_stale_entry_is_fetched(cache: Map<Sport, EntryView>, sport: Sport, now: u64)
    requires
        cache.contains_key(sport),
        now >= cache[sport].last_updated,
        now - cache[sport].last_updated >= FRESH_NANOS,
    ensures
        planned(cache, seq![sport], now) == Ok::<LookupView, ErrorView>(
            LookupView { hits: Map::<Sport, Seq<GameView>>::empty(), stale: seq![sport] },
        ),
{
    let one = seq![sport];
    assert(one.drop_last() =~= Seq::<Sport>::empty());
    assert(one.last() == sport);
    assert(Seq::<Sport>::empty().push(sport) =~= one);
    assert(planned(cache, one.drop_last(), now) == Ok::<LookupView, ErrorView>(
        LookupView {
            hits: Map::<Sport, Seq<GameView>>::empty(),
            stale: Seq::<Sport>::empty(),
        },
    ));
}

} // verus!
