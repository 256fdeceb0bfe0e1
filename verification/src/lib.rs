//! Verified core of the SDKWork game engine services.
use vstd::prelude::*;

pub mod text;
pub mod paging;
pub mod catalog;
pub mod events;
pub mod json;
pub mod rules;
pub mod search;
pub mod points;
pub mod points_ledger;
pub mod modes;
pub mod matchmaking;
pub mod leaderboard;
pub mod sorting;
pub mod events_store;
pub mod matchmaking_store;
pub mod modes_store;
pub mod catalog_store;
pub mod leaderboard_store;
pub mod rooms;
pub mod rooms_store;
