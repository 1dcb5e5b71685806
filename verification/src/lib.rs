//! Data extraction for an old-games catalogue site.
pub mod text;
pub mod float_text;
pub mod dom;
pub mod model;
pub mod pattern;
pub mod collect;
pub mod games_index;
pub mod markup;
pub mod comments;
pub mod game_desc;
pub mod cache;
