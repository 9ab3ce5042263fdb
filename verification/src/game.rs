//! The one form in which every provider's games are handed on.

use vstd::prelude::*;
use crate::sport::{Sport, SportType, Status};
use crate::team::{Team, TeamView};

verus! {

/// Which side has the ball, if either.
#[derive(Clone, Copy, Debug, PartialEq, Eq, Hash, Structural)]
pub enum Possession {
    Home,
    Away,
    Neither,
}

/// One line of a golf leaderboard.
#[derive(Debug, PartialEq, Eq)]
pub struct GolfPlayer {
    pub name: String,
    pub display_name: String,
    pub score: String,
    pub position: u64,
}

/// A leaderboard line with its texts as sequences of characters.
pub ghost struct GolfPlayerView {
    pub name: Seq<char>,
    pub display_name: Seq<char>,
    pub score: Seq<char>,
    pub position: u64,
}

impl View for GolfPlayer {
    type V = GolfPlayerView;

    open spec fn view(&self) -> GolfPlayerView {
        GolfPlayerView {
            name: self.name@,
            display_name: self.display_name@,
            score: self.score@,
            position: self.position,
        }
    }
}

/// The views of a run of leaderboard lines.
pub open spec fn player_views(players: Seq<GolfPlayer>) -> Seq<GolfPlayerView> {
    players.map_values(|p: GolfPlayer| p@)
}

/// What a game holds beyond its score, by the family of its sport.
#[derive(Debug, PartialEq, Eq)]
pub enum ExtraGameData {
    Hockey { away_powerplay: bool, home_powerplay: bool, away_players: u64, home_players: u64 },
    Baseball {
        balls: u64,
        outs: u64,
        strikes: u64,
        is_inning_top: bool,
        on_first: bool,
        on_second: bool,
        on_third: bool,
    },
    Basketball,
    Football {
        time_remaining: String,
        ball_position: String,
        down_string: String,
        possession: Possession,
    },
    Golf { event_name: String, players: Vec<GolfPlayer> },
}

/// A game's extra data with its texts as sequences of characters.
pub ghost enum ExtraView {
    Hockey { away_powerplay: bool, home_powerplay: bool, away_players: u64, home_players: u64 },
    Baseball {
        balls: u64,
        outs: u64,
        strikes: u64,
        is_inning_top: bool,
        on_first: bool,
        on_second: bool,
        on_third: bool,
    },
    Basketball,
    Football {
        time_remaining: Seq<char>,
        ball_position: Seq<char>,
        down_string: Seq<char>,
        possession: Possession,
    },
    Golf { event_name: Seq<char>, players: Seq<GolfPlayerView> },
}

impl View for ExtraGameData {
    type V = ExtraView;

    open spec fn view(&self) -> ExtraView {
        match self {
            ExtraGameData::Hockey { away_powerplay, home_powerplay, away_players, home_players } => {
                ExtraView::Hockey {
                    away_powerplay: *away_powerplay,
                    home_powerplay: *home_powerplay,
                    away_players: *away_players,
                    home_players: *home_players,
                }
            },
            ExtraGameData::Baseball {
                balls,
                outs,
                strikes,
                is_inning_top,
                on_first,
                on_second,
                on_third,
            } => ExtraView::Baseball {
                balls: *balls,
                outs: *outs,
                strikes: *strikes,
                is_inning_top: *is_inning_top,
                on_first: *on_first,
                on_second: *on_second,
                on_third: *on_third,
            },
            ExtraGameData::Basketball => ExtraView::Basketball,
            ExtraGameData::Football { time_remaining, ball_position, down_string, possession } => {
                ExtraView::Football {
                    time_remaining: time_remaining@,
                    ball_position: ball_position@,
                    down_string: down_string@,
                    possession: *possession,
                }
            },
            ExtraGameData::Golf { event_name, players } => ExtraView::Golf {
                event_name: event_name@,
                players: player_views(players@),
            },
        }
    }
}

impl ExtraView {
    /// The family of sports that this kind of data belongs to.
    pub open spec fn family(self) -> SportType {
        match self {
            ExtraView::Hockey { .. } => SportType::Hockey,
            ExtraView::Baseball { .. } => SportType::Baseball,
            ExtraView::Basketball => SportType::Basketball,
            ExtraView::Football { .. } => SportType::Football,
            ExtraView::Golf { .. } => SportType::Golf,
        }
    }
}

/// A game, or an event, as it stands at the moment it was fetched.
#[derive(Debug, PartialEq, Eq)]
pub struct Game {
    pub game_id: u64,
    pub sport: Sport,
    pub home_team: Option<Team>,
    pub away_team: Option<Team>,
    pub home_team_score: u64,
    pub away_team_score: u64,
    pub period: u64,
    pub status: Status,
    pub ordinal: String,
    /// Nanoseconds since the Unix epoch.
    pub start_time: i64,
    pub extra: Option<ExtraGameData>,
}

/// A game with its texts as sequences of characters.
pub ghost struct GameView {
    pub game_id: u64,
    pub sport: Sport,
    pub home_team: Option<TeamView>,
    pub away_team: Option<TeamView>,
    pub home_team_score: u64,
    pub away_team_score: u64,
    pub period: u64,
    pub status: Status,
    pub ordinal: Seq<char>,
    pub start_time: i64,
    pub extra: Option<ExtraView>,
}

/// The view of a team that may be absent.
pub open spec fn team_view(team: Option<Team>) -> Option<TeamView> {
    match team {
        Some(t) => Some(t@),
        None => None,
    }
}

/// The view of extra data that may be absent.
pub open spec fn extra_view(extra: Option<ExtraGameData>) -> Option<ExtraView> {
    match extra {
        Some(e) => Some(e@),
        None => None,
    }
}

impl View for Game {
    type V = GameView;

    open spec fn view(&self) -> GameView {
        GameView {
            game_id: self.game_id,
            sport: self.sport,
            home_team: team_view(self.home_team),
            away_team: team_view(self.away_team),
            home_team_score: self.home_team_score,
            away_team_score: self.away_team_score,
            period: self.period,
            status: self.status,
            ordinal: self.ordinal@,
            start_time: self.start_time,
            extra: extra_view(self.extra),
        }
    }
}

/// The views of a run of games.
pub open spec fn game_views(games: Seq<Game>) -> Seq<GameView> {
    games.map_values(|g: Game| g@)
}

impl GameView {
    /// What holds of every game that the library hands out: its state is not
    /// `Invalid`; its two teams are both there or both absent, and absent in
    /// golf; its extra data, if any, is of its sport's family.
    pub open spec fn well_formed(self) -> bool {
        &&& self.status != Status::Invalid
        &&& self.home_team is Some <==> self.away_team is Some
        &&& self.sport.sport_type == SportType::Golf ==> self.home_team is None
        &&& self.extra matches Some(extra) ==> extra.family() == self.sport.sport_type
    }
}

impl Clone for GolfPlayer {
    fn clone(&self) -> (copy: Self)
        ensures
            copy@ == self@,
    {
        GolfPlayer {
            name: self.name.clone(),
            display_name: self.display_name.clone(),
            score: self.score.clone(),
            position: self.position,
        }
    }
}

/// A copy of a run of leaderboard lines.
pub fn clone_players(players: &Vec<GolfPlayer>) -> (copy: Vec<GolfPlayer>)
    ensures
        player_views(copy@) == player_views(players@),
{
    let mut copy: Vec<GolfPlayer> = Vec::new();
    let mut i: usize = 0;
    while i < players.len()
        invariant
            i <= players.len(),
            copy.len() == i,
            forall|j: int| 0 <= j < i ==> copy@[j]@ == players@[j]@,
        decreases players.len() - i,
    {
        copy.push(players[i].clone());
        i += 1;
    }
    assert(player_views(copy@) =~= player_views(players@));
    copy
}

impl Clone for ExtraGameData {
    fn clone(&self) -> (copy: Self)
        ensures
            copy@ == self@,
    {
        match self {
            ExtraGameData::Hockey { away_powerplay, home_powerplay, away_players, home_players } => {
                ExtraGameData::Hockey {
                    away_powerplay: *away_powerplay,
                    home_powerplay: *home_powerplay,
                    away_players: *away_players,
                    home_players: *home_players,
                }
            },
            ExtraGameData::Baseball {
                balls,
                outs,
                strikes,
                is_inning_top,
                on_first,
                on_second,
                on_third,
            } => ExtraGameData::Baseball {
                balls: *balls,
                outs: *outs,
                strikes: *strikes,
                is_inning_top: *is_inning_top,
                on_first: *on_first,
                on_second: *on_second,
                on_third: *on_third,
            },
            ExtraGameData::Basketball => ExtraGameData::Basketball,
            ExtraGameData::Football { time_remaining, ball_position, down_string, possession } => {
                ExtraGameData::Football {
                    time_remaining: time_remaining.clone(),
                    ball_position: ball_position.clone(),
                    down_string: down_string.clone(),
                    possession: *possession,
                }
            },
            ExtraGameData::Golf { event_name, players } => ExtraGameData::Golf {
                event_name: event_name.clone(),
                players: clone_players(players),
            },
        }
    }
}

impl Clone for Game {
    fn clone(&self) -> (copy: Self)
        ensures
            copy@ == self@,
    {
        Game {
            game_id: self.game_id,
            sport: self.sport,
            home_team: match &self.home_team {
                Some(team) => Some(team.clone()),
                None => None,
            },
            away_team: match &self.away_team {
                Some(team) => Some(team.clone()),
                None => None,
            },
            home_team_score: self.home_team_score,
            away_team_score: self.away_team_score,
            period: self.period,
            status: self.status,
            ordinal: self.ordinal.clone(),
            start_time: self.start_time,
            extra: match &self.extra {
                Some(extra) => Some(extra.clone()),
                None => None,
            },
        }
    }
}

/// A copy of a run of games.
pub fn clone_games(games: &Vec<Game>) -> (copy: Vec<Game>)
    ensures
        game_views(copy@) == game_views(games@),
{
    let mut copy: Vec<Game> = Vec::new();
    let mut i: usize = 0;
    while i < games.len()
        invariant
            i <= games.len(),
            copy.len() == i,
            forall|j: int| 0 <= j < i ==> copy@[j]@ == games@[j]@,
        decreases games.len() - i,
    {
        copy.push(games[i].clone());
        i += 1;
    }
    assert(game_views(copy@) =~= game_views(games@));
    copy
}

} // verus!
