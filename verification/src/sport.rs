//! Sports, their names on the wire, and the states of a game.

use vstd::prelude::*;
use crate::error::{Error, ErrorView};
use crate::text::same_text;

verus! {

/// A family of sports.
#[derive(Clone, Copy, Debug, PartialEq, Eq, Hash, Structural)]
pub enum SportType {
    Hockey,
    Baseball,
    Golf,
    Basketball,
    Football,
}

/// The level at which a competition is played.
#[derive(Clone, Copy, Debug, PartialEq, Eq, Hash, Structural)]
pub enum Level {
    Professional,
    Collegiate,
}

/// A sport at a level: what a request asks for and what the cache is keyed by.
#[derive(Clone, Copy, Debug, PartialEq, Eq, Hash, Structural)]
pub struct Sport {
    pub sport_type: SportType,
    pub level: Level,
}

/// The state of a game. `Invalid` marks a game that is left out of the
/// output; no game that the library returns is in it.
#[derive(Clone, Copy, Debug, PartialEq, Eq, Hash, Structural)]
pub enum Status {
    Pregame,
    Active,
    Intermission,
    End,
    Invalid,
}

/// The sport of the given family and level.
pub fn new_sport(sport_type: SportType, level: Level) -> (sport: Sport)
    ensures
        sport == (Sport { sport_type, level }),
{
    Sport { sport_type, level }
}

/// The sports that the providers cover, in the order in which they are served.
pub open spec fn canonical_sports() -> Seq<Sport> {
    seq![
        Sport { sport_type: SportType::Hockey, level: Level::Professional },
        Sport { sport_type: SportType::Baseball, level: Level::Professional },
        Sport { sport_type: SportType::Golf, level: Level::Professional },
        Sport { sport_type: SportType::Basketball, level: Level::Professional },
        Sport { sport_type: SportType::Basketball, level: Level::Collegiate },
        Sport { sport_type: SportType::Football, level: Level::Professional },
        Sport { sport_type: SportType::Football, level: Level::Collegiate },
    ]
}

/// Whether a sport is one of those that the providers cover.
pub open spec fn is_canonical(sport: Sport) -> bool {
    match (sport.sport_type, sport.level) {
        (SportType::Basketball, _) => true,
        (SportType::Football, _) => true,
        (_, Level::Professional) => true,
        _ => false,
    }
}

/// The sports that the providers cover.
pub fn all_sports() -> (sports: Vec<Sport>)
    ensures
        sports@ == canonical_sports(),
{
    let mut sports: Vec<Sport> = Vec::new();
    sports.push(new_sport(SportType::Hockey, Level::Professional));
    sports.push(new_sport(SportType::Baseball, Level::Professional));
    sports.push(new_sport(SportType::Golf, Level::Professional));
    sports.push(new_sport(SportType::Basketball, Level::Professional));
    sports.push(new_sport(SportType::Basketball, Level::Collegiate));
    sports.push(new_sport(SportType::Football, Level::Professional));
    sports.push(new_sport(SportType::Football, Level::Collegiate));
    assert(sports@ =~= canonical_sports());
    sports
}

/// The name of a sport on the wire; the empty text for a sport that the
/// providers do not cover.
pub open spec fn sport_token(sport: Sport) -> Seq<char> {
    match (sport.sport_type, sport.level) {
        (SportType::Hockey, Level::Professional) => "hockey"@,
        (SportType::Baseball, Level::Professional) => "baseball"@,
        (SportType::Golf, Level::Professional) => "golf"@,
        (SportType::Basketball, Level::Professional) => "basketball"@,
        (SportType::Basketball, Level::Collegiate) => "college-basketball"@,
        (SportType::Football, Level::Professional) => "football"@,
        (SportType::Football, Level::Collegiate) => "college-football"@,
        _ => Seq::<char>::empty(),
    }
}

/// The sport that a name on the wire stands for.
pub open spec fn token_sport(token: Seq<char>) -> Option<Sport> {
    if token == "golf"@ {
        Some(Sport { sport_type: SportType::Golf, level: Level::Professional })
    } else if token == "baseball"@ {
        Some(Sport { sport_type: SportType::Baseball, level: Level::Professional })
    } else if token == "hockey"@ {
        Some(Sport { sport_type: SportType::Hockey, level: Level::Professional })
    } else if token == "football"@ {
        Some(Sport { sport_type: SportType::Football, level: Level::Professional })
    } else if token == "college-football"@ {
        Some(Sport { sport_type: SportType::Football, level: Level::Collegiate })
    } else if token == "basketball"@ {
        Some(Sport { sport_type: SportType::Basketball, level: Level::Professional })
    } else if token == "college-basketball"@ {
        Some(Sport { sport_type: SportType::Basketball, level: Level::Collegiate })
    } else {
        None
    }
}

impl Sport {
    /// The key under which the sport is filed: twice the family's rank plus
    /// the level's. Two sports share a key only if they are the same.
    pub open spec fn spec_key(self) -> u64 {
        let family: u64 = match self.sport_type {
            SportType::Hockey => 0,
            SportType::Baseball => 1,
            SportType::Golf => 2,
            SportType::Basketball => 3,
            SportType::Football => 4,
        };
        let level: u64 = match self.level {
            Level::Professional => 0,
            Level::Collegiate => 1,
        };
        (family * 2 + level) as u64
    }

    /// The key under which the sport is filed.
    #[verifier::when_used_as_spec(spec_key)]
    pub fn key(self) -> (k: u64)
        ensures
            k == self.spec_key(),
            k < 10,
    {
        let family: u64 = match self.sport_type {
            SportType::Hockey => 0,
            SportType::Baseball => 1,
            SportType::Golf => 2,
            SportType::Basketball => 3,
            SportType::Football => 4,
        };
        let level: u64 = match self.level {
            Level::Professional => 0,
            Level::Collegiate => 1,
        };
        family * 2 + level
    }

    /// The name of the sport on the wire.
    pub fn to_string(&self) -> (token: String)
        ensures
            token@ == sport_token(*self),
    {
        let token: &str = match (self.sport_type, self.level) {
            (SportType::Hockey, Level::Professional) => "hockey",
            (SportType::Baseball, Level::Professional) => "baseball",
            (SportType::Golf, Level::Professional) => "golf",
            (SportType::Basketball, Level::Professional) => "basketball",
            (SportType::Basketball, Level::Collegiate) => "college-basketball",
            (SportType::Football, Level::Professional) => "football",
            (SportType::Football, Level::Collegiate) => "college-football",
            _ => "",
        };
        proof {
            reveal_strlit("");
            assert(""@ =~= Seq::<char>::empty());
        }
        token.to_owned()
    }

    /// Reads a sport from its name on the wire. Any other text is refused
    /// with `InvalidSportType`, which carries the text.
    pub fn from_str(s: &str) -> (r: Result<Sport, Error>)
        ensures
            match token_sport(s@) {
                Some(sport) => r matches Ok(got) && got == sport,
                None => r matches Err(e) && e@ == ErrorView::InvalidSportType(s@),
            },
    {
        if same_text(s, "golf") {
            Ok(new_sport(SportType::Golf, Level::Professional))
        } else if same_text(s, "baseball") {
            Ok(new_sport(SportType::Baseball, Level::Professional))
        } else if same_text(s, "hockey") {
            Ok(new_sport(SportType::Hockey, Level::Professional))
        } else if same_text(s, "football") {
            Ok(new_sport(SportType::Football, Level::Professional))
        } else if same_text(s, "college-football") {
            Ok(new_sport(SportType::Football, Level::Collegiate))
        } else if same_text(s, "basketball") {
            Ok(new_sport(SportType::Basketball, Level::Professional))
        } else if same_text(s, "college-basketball") {
            Ok(new_sport(SportType::Basketball, Level::Collegiate))
        } else {
            Err(Error::InvalidSportType(s.to_owned()))
        }
    }
}

impl std::str::FromStr for Sport {
    type Err = Error;

    /// Reads a sport from its name on the wire, as `Sport::from_str` does.
    fn from_str(s: &str) -> (r: Result<Sport, Error>)
        ensures
            match token_sport(s@) {
                Some(sport) => r matches Ok(got) && got == sport,
                None => r matches Err(e) && e@ == ErrorView::InvalidSportType(s@),
            },
    {
        Sport::from_str(s)
    }
}

/// Two sports with the same key are the same sport.
pub proof fn lemma_key_injective(a: Sport, b: Sport)
    requires
        a.spec_key() == b.spec_key(),
    ensures
        a == b,
{
}

/// The names of the sports differ from one another and none is empty.
proof fn lemma_tokens_differ()
    ensures
        "golf"@.len() == 4,
        "hockey"@.len() == 6,
        "baseball"@.len() == 8,
        "football"@.len() == 8,
        "basketball"@.len() == 10,
        "college-football"@.len() == 16,
        "college-basketball"@.len() == 18,
        "baseball"@[0] == 'b',
        "football"@[0] == 'f',
{
    reveal_strlit("golf");
    reveal_strlit("hockey");
    reveal_strlit("baseball");
    reveal_strlit("football");
    reveal_strlit("basketball");
    reveal_strlit("college-football");
    reveal_strlit("college-basketball");
}

/// Writing a covered sport's name and reading it back gives the sport.
pub proof fn lemma_sport_round_trip(sport: Sport)
    requires
        is_canonical(sport),
    ensures
        token_sport(sport_token(sport)) == Some(sport),
{
    lemma_tokens_differ();
}

/// A text is read as a sport only if it is the name of a covered sport, and
/// then it is read as that sport.
pub proof fn lemma_only_tokens_parse(token: Seq<char>)
    ensures
        token_sport(token) matches Some(sport) ==> is_canonical(sport) && sport_token(sport)
            == token,
        token_sport(token) is None ==> forall|sport: Sport|
            is_canonical(sport) ==> sport_token(sport) != token,
{
    lemma_tokens_differ();
    assert forall|sport: Sport| is_canonical(sport) && token_sport(token) is None implies sport_token(
        sport,
    ) != token by {
        lemma_sport_round_trip(sport);
    }
}

/// Every covered sport is one of the seven that `all_sports` lists.
pub proof fn lemma_canonical_listed(sport: Sport)
    ensures
        is_canonical(sport) <==> canonical_sports().contains(sport),
{
    let all = canonical_sports();
    if is_canonical(sport) {
        let i: int = match (sport.sport_type, sport.level) {
            (SportType::Hockey, _) => 0,
            (SportType::Baseball, _) => 1,
            (SportType::Golf, _) => 2,
            (SportType::Basketball, Level::Professional) => 3,
            (SportType::Basketball, Level::Collegiate) => 4,
            (SportType::Football, Level::Professional) => 5,
            (SportType::Football, Level::Collegiate) => 6,
        };
        assert(all[i] == sport);
    }
    if all.contains(sport) {
        let i = choose|i: int| 0 <= i < all.len() && all[i] == sport;
        assert(is_canonical(all[i]));
    }
}

/// The state that a scoreboard's status code stands for; `None` for a code
/// that the library does not know.
pub open spec fn code_status(code: Seq<char>) -> Option<Status> {
    if code == "STATUS_IN_PROGRESS"@ {
        Some(Status::Active)
    } else if code == "STATUS_FINAL"@ || code == "STATUS_PLAY_COMPLETE"@ {
        Some(Status::End)
    } else if code == "STATUS_SCHEDULED"@ {
        Some(Status::Pregame)
    } else if code == "STATUS_END_PERIOD"@ || code == "STATUS_HALFTIME"@ || code
        == "STATUS_DELAYED"@ {
        Some(Status::Intermission)
    } else if code == "STATUS_POSTPONED"@ || code == "STATUS_CANCELED"@ {
        Some(Status::Invalid)
    } else {
        None
    }
}

/// The nine status codes that the library knows, each with its state. Every
/// other text has none.
pub proof fn lemma_known_codes()
    ensures
        code_status("STATUS_SCHEDULED"@) == Some(Status::Pregame),
        code_status("STATUS_IN_PROGRESS"@) == Some(Status::Active),
        code_status("STATUS_HALFTIME"@) == Some(Status::Intermission),
        code_status("STATUS_END_PERIOD"@) == Some(Status::Intermission),
        code_status("STATUS_DELAYED"@) == Some(Status::Intermission),
        code_status("STATUS_FINAL"@) == Some(Status::End),
        code_status("STATUS_PLAY_COMPLETE"@) == Some(Status::End),
        code_status("STATUS_POSTPONED"@) == Some(Status::Invalid),
        code_status("STATUS_CANCELED"@) == Some(Status::Invalid),
        forall|code: Seq<char>|
            code_status(code) is Some <==> (code == "STATUS_SCHEDULED"@ || code
                == "STATUS_IN_PROGRESS"@ || code == "STATUS_HALFTIME"@ || code
                == "STATUS_END_PERIOD"@ || code == "STATUS_DELAYED"@ || code == "STATUS_FINAL"@
                || code == "STATUS_PLAY_COMPLETE"@ || code == "STATUS_POSTPONED"@ || code
                == "STATUS_CANCELED"@),
{
    reveal_strlit("STATUS_SCHEDULED");
    reveal_strlit("STATUS_IN_PROGRESS");
    reveal_strlit("STATUS_HALFTIME");
    reveal_strlit("STATUS_END_PERIOD");
    reveal_strlit("STATUS_DELAYED");
    reveal_strlit("STATUS_FINAL");
    reveal_strlit("STATUS_PLAY_COMPLETE");
    reveal_strlit("STATUS_POSTPONED");
    reveal_strlit("STATUS_CANCELED");
    assert("STATUS_SCHEDULED"@.len() == 16 && "STATUS_SCHEDULED"@[7] == 'S');
    assert("STATUS_IN_PROGRESS"@.len() == 18);
    assert("STATUS_HALFTIME"@.len() == 15 && "STATUS_HALFTIME"@[7] == 'H');
    assert("STATUS_END_PERIOD"@.len() == 17);
    assert("STATUS_DELAYED"@.len() == 14);
    assert("STATUS_FINAL"@.len() == 12);
    assert("STATUS_PLAY_COMPLETE"@.len() == 20);
    assert("STATUS_POSTPONED"@.len() == 16 && "STATUS_POSTPONED"@[7] == 'P');
    assert("STATUS_CANCELED"@.len() == 15 && "STATUS_CANCELED"@[7] == 'C');
}

/// The state that a scoreboard's status code stands for, if the code is known.
pub fn status_of_code(input: &str) -> (r: Option<Status>)
    ensures
        r == code_status(input@),
{
    if same_text(input, "STATUS_IN_PROGRESS") {
        Some(Status::Active)
    } else if same_text(input, "STATUS_FINAL") || same_text(input, "STATUS_PLAY_COMPLETE") {
        Some(Status::End)
    } else if same_text(input, "STATUS_SCHEDULED") {
        Some(Status::Pregame)
    } else if same_text(input, "STATUS_END_PERIOD") || same_text(input, "STATUS_HALFTIME")
        || same_text(input, "STATUS_DELAYED") {
        Some(Status::Intermission)
    } else if same_text(input, "STATUS_POSTPONED") || same_text(input, "STATUS_CANCELED") {
        Some(Status::Invalid)
    } else {
        None
    }
}

/// The state that a known status code stands for.
pub fn from_espn(input: &str) -> (status: Status)
    requires
        code_status(input@) is Some,
    ensures
        code_status(input@) == Some(status),
{
    match status_of_code(input) {
        Some(status) => status,
        None => Status::Invalid,
    }
}

} // verus!
