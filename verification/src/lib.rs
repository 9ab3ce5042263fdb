//! Normalisation of live game data from several score providers into one
//! `Game` representation, with the short-lived cache that sits in front of
//! the providers.

pub mod error;
pub mod text;
pub mod number;
pub mod color;
pub mod sport;
pub mod json;
pub mod json_source;
pub mod team;
pub mod game;
pub mod clock;
pub mod baseball;
pub mod basketball;
pub mod football;
pub mod period;
pub mod scoreboard;
pub mod batch;
pub mod pattern;
pub mod golf;
pub mod hockey;
pub mod sport_map;
pub mod cache;
pub mod provider;

pub use cache::{Cache, CacheEntry, Lookup};
pub use color::{
    black, get_contrast, get_luminance, get_rgb_from_hex, get_secondary_for_primary, new_color,
    white, Color,
};
pub use error::Error;
pub use game::{ExtraGameData, Game, GolfPlayer, Possession};
pub use json::{Json, JsonMap};
pub use sport::{all_sports, from_espn, new_sport, Level, Sport, SportType, Status};
pub use sport_map::SportMap;
pub use team::{create_team, get_display_name, get_team_map, Team, TeamTables};
