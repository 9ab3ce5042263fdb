//! What a baseball game holds beyond its score: the count and the bases.

use vstd::prelude::*;
use crate::error::{Error, ErrorView};
use crate::game::{ExtraGameData, ExtraView};
use crate::json::{
    as_bool, as_object, as_str, as_u64_str, get_bool, get_object, get_object_from_value, get_str,
    get_u64_str, Json, JsonMap,
};
use crate::text::{contains, contains_text};

verus! {

/// The competition's situation, where it has one.
pub open spec fn situation_of(competition: Json) -> Option<JsonMap> {
    match as_object(competition.member("situation"@), "situation"@) {
        Ok(situation) => Some(situation),
        Err(_) => None,
    }
}

/// The number that the member `name` of the situation writes as a string;
/// zero where there is no situation or no such number.
pub open spec fn count_or_zero(situation: Option<JsonMap>, name: Seq<char>) -> u64 {
    match situation {
        Some(s) => match as_u64_str(s.field(name), name) {
            Ok(n) => n,
            Err(_) => 0,
        },
        None => 0,
    }
}

/// The truth value in the member `name` of the situation; false where there
/// is no situation or no such value.
pub open spec fn flag_or_false(situation: Option<JsonMap>, name: Seq<char>) -> bool {
    match situation {
        Some(s) => match as_bool(s.field(name), name) {
            Ok(b) => b,
            Err(_) => false,
        },
        None => false,
    }
}

/// The short description of the competition's state.
pub open spec fn short_detail(competition: Json) -> Result<Seq<char>, ErrorView> {
    match as_object(competition.member("status"@), "status"@) {
        Err(e) => Err(e),
        Ok(status) => match as_object(status.field("type"@), "type"@) {
            Err(e) => Err(e),
            Ok(kind) => as_str(kind.field("shortDetail"@), "shortDetail"@),
        },
    }
}

/// The extra data of a baseball game. The top of an inning is being played
/// where the short description of the state holds `Top`.
pub open spec fn baseball_data(competition: Json) -> Result<ExtraView, ErrorView> {
    let situation = situation_of(competition);
    match short_detail(competition) {
        Err(e) => Err(e),
        Ok(detail) => Ok(
            ExtraView::Baseball {
                balls: count_or_zero(situation, "balls"@),
                outs: count_or_zero(situation, "outs"@),
                strikes: count_or_zero(situation, "strikes"@),
                is_inning_top: contains_text(detail, "Top"@),
                on_first: flag_or_false(situation, "onFirst"@),
                on_second: flag_or_false(situation, "onSecond"@),
                on_third: flag_or_false(situation, "onThird"@),
            },
        ),
    }
}

/// `r` is the extra data, or the failure, that `expected` gives.
pub open spec fn yields_extra(
    r: Result<ExtraGameData, Error>,
    expected: Result<ExtraView, ErrorView>,
) -> bool {
    match expected {
        Ok(extra) => r matches Ok(got) && got@ == extra,
        Err(e) => r matches Err(got) && got@ == e,
    }
}

fn count_in(situation: Option<&JsonMap>, name: &str) -> (r: u64)
    ensures
        r == count_or_zero(
            match situation {
                Some(s) => Some(*s),
                None => None,
            },
            name@,
        ),
{
    match situation {
        Some(s) => match get_u64_str(s, name) {
            Ok(n) => n,
            Err(_) => 0,
        },
        None => 0,
    }
}

fn flag_in(situation: Option<&JsonMap>, name: &str) -> (r: bool)
    ensures
        r == flag_or_false(
            match situation {
                Some(s) => Some(*s),
                None => None,
            },
            name@,
        ),
{
    match situation {
        Some(s) => match get_bool(s, name) {
            Ok(b) => b,
            Err(_) => false,
        },
        None => false,
    }
}

/// The extra data of a baseball game: balls, strikes and outs, and who is on
/// base, each zero or false where the competition says nothing of it.
pub fn get_baseball_data(competition: &Json) -> (r: Result<ExtraGameData, Error>)
    ensures
        yields_extra(r, baseball_data(*competition)),
{
    let situation: Option<&JsonMap> = match get_object_from_value(competition, "situation") {
        Ok(s) => Some(s),
        Err(_) => None,
    };
    let balls: u64 = count_in(situation, "balls");
    let strikes: u64 = count_in(situation, "strikes");
    let outs: u64 = count_in(situation, "outs");
    let on_first = flag_in(situation, "onFirst");
    let on_second = flag_in(situation, "onSecond");
    let on_third = flag_in(situation, "onThird");
    let status_object = get_object_from_value(competition, "status")?;
    let detail = get_str(get_object(status_object, "type")?, "shortDetail")?;
    let is_inning_top = contains(detail, "Top");
    Ok(
        ExtraGameData::Baseball {
            balls,
            outs,
            strikes,
            is_inning_top,
            on_first,
            on_second,
            on_third,
        },
    )
}

} // verus!
