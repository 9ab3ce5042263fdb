//! What a football game holds beyond its score: the clock, the down and the
//! side that has the ball.

use vstd::prelude::*;
use crate::baseball::yields_extra;
use crate::error::{Error, ErrorView};
use crate::game::{ExtraGameData, ExtraView, Game, GameView, Possession};
use crate::json::{
    as_object, as_str, as_u64_str, get_object_from_value, get_str, get_u64_str, Json, JsonMap,
};
use crate::sport::Status;
use crate::team::TeamView;
use crate::text::{chars_of, replace_chars, replace_text, string_of};

verus! {

/// The string in the member `name`; the empty text where there is none.
pub open spec fn text_or_empty(object: JsonMap, name: Seq<char>) -> Seq<char> {
    match as_str(object.field(name), name) {
        Ok(text) => text,
        Err(_) => Seq::<char>::empty(),
    }
}

/// The side whose team has the id that the situation gives as in
/// possession; neither side where it gives none, or where a team is absent.
pub open spec fn possession_of(
    situation: JsonMap,
    home: Option<TeamView>,
    away: Option<TeamView>,
) -> Possession {
    match as_u64_str(situation.field("possession"@), "possession"@) {
        Ok(id) => match (home, away) {
            (Some(h), Some(a)) => if h.id == id {
                Possession::Home
            } else if a.id == id {
                Possession::Away
            } else {
                Possession::Neither
            },
            _ => Possession::Neither,
        },
        Err(_) => Possession::Neither,
    }
}

/// The extra data of a football game. The clock is given only while the
/// game is being played; in the down's description `&` is written `+`. A
/// competition without a situation gives empty texts and no possession.
pub open spec fn football_data(competition: Json, game: GameView) -> Result<ExtraView, ErrorView> {
    match as_object(competition.member("status"@), "status"@) {
        Err(e) => Err(e),
        Ok(status_object) => match as_object(competition.member("situation"@), "situation"@) {
            Ok(situation) => Ok(
                ExtraView::Football {
                    time_remaining: if game.status != Status::Active {
                        Seq::<char>::empty()
                    } else {
                        text_or_empty(status_object, "displayClock"@)
                    },
                    ball_position: text_or_empty(situation, "possessionText"@),
                    down_string: replace_text(
                        text_or_empty(situation, "shortDownDistanceText"@),
                        '&',
                        '+',
                    ),
                    possession: possession_of(situation, game.home_team, game.away_team),
                },
            ),
            Err(_) => Ok(
                ExtraView::Football {
                    time_remaining: Seq::<char>::empty(),
                    ball_position: Seq::<char>::empty(),
                    down_string: Seq::<char>::empty(),
                    possession: Possession::Neither,
                },
            ),
        },
    }
}

fn text_in(object: &JsonMap, name: &str) -> (r: String)
    ensures
        r@ == text_or_empty(*object, name@),
{
    match get_str(object, name) {
        Ok(text) => text.to_owned(),
        Err(_) => String::new(),
    }
}

fn possession_in(situation: &JsonMap, game: &Game) -> (r: Possession)
    ensures
        r == possession_of(*situation, game@.home_team, game@.away_team),
{
    match get_u64_str(situation, "possession") {
        Ok(id) => match (&game.home_team, &game.away_team) {
            (Some(home), Some(away)) => if home.id == id {
                Possession::Home
            } else if away.id == id {
                Possession::Away
            } else {
                Possession::Neither
            },
            _ => Possession::Neither,
        },
        Err(_) => Possession::Neither,
    }
}

/// The extra data of a football game, for the game as far as it is known:
/// its state and its two teams.
pub fn get_football_data(competition: &Json, game: &Game) -> (r: Result<ExtraGameData, Error>)
    ensures
        yields_extra(r, football_data(*competition, game@)),
{
    let situation = get_object_from_value(competition, "situation");
    let status_object = get_object_from_value(competition, "status")?;
    let time_remaining = match game.status {
        Status::Active => text_in(status_object, "displayClock"),
        _ => String::new(),
    };
    match situation {
        Ok(situation) => {
            let ball_position = text_in(situation, "possessionText");
            let down = text_in(situation, "shortDownDistanceText");
            let down_string = string_of(&replace_chars(&chars_of(down.as_str()), '&', '+'));
            let possession = possession_in(situation, game);
            Ok(
                ExtraGameData::Football {
                    time_remaining,
                    ball_position,
                    down_string,
                    possession,
                },
            )
        },
        Err(_) => Ok(
            ExtraGameData::Football {
                time_remaining: String::new(),
                ball_position: String::new(),
                down_string: String::new(),
                possession: Possession::Neither,
            },
        ),
    }
}

} // verus!
