//! Building search queries for a music streaming service out of exported
//! playlists (Tidal JSON exports, raw CSV lists, YouTube playlist dumps),
//! and matching the search results back to the requested artists.

pub mod cli;
pub mod platform;
pub mod text;
pub mod youtube;
pub mod raw;
pub mod tidal;
pub mod search;
