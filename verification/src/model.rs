//! The records read from the site's pages, and their views over character sequences.
//!
//! Two fields differ in type from what the serialised form holds: a comment's
//! date is kept as seconds since the Unix epoch (UTC), and the users' average
//! rating is kept as the decimal text the page shows.
#![allow(non_snake_case)]

use vstd::prelude::*;

verus! {

/// A screenshot: the thumbnail's address and the full picture's address.
#[derive(Debug, Clone)]
pub struct TScreenshot {
    pub ThumbUrl: String,
    pub Url: String,
}

/// One link of a game group.
#[derive(Debug, Clone)]
pub struct TGameGroupValue {
    pub Href: String,
    pub Title: String,
    pub Value: String,
}

/// A named group of links shown with a game (genre, theme, and the like).
#[derive(Debug, Clone)]
pub struct TGameGroup {
    pub Name: String,
    pub Values: Vec<TGameGroupValue>,
}

/// A user comment.
#[derive(Debug, Clone)]
pub struct TGameComment {
    pub UserRef: Option<String>,
    pub UserName: String,
    /// Seconds since 1970-01-01 00:00 UTC.
    pub Date: i64,
    pub Stars: i32,
    pub Comment: String,
}

/// A recommended game.
#[derive(Debug, Clone)]
pub struct TGameRecomended {
    pub Name: String,
    pub Id: i32,
}

/// A modification of a game.
#[derive(Debug, Clone)]
pub struct TGameMod {
    pub Name: String,
    pub Href: String,
}

/// A catalogue entry.
#[derive(Debug, Clone)]
pub struct GameInfo {
    pub Id: i32,
    pub Name: String,
    pub Genre: String,
    pub Year: String,
    pub Platform: String,
    pub Publisher: String,
    /// The editor's rating out of 10, or -1 when there is none.
    pub Stars: i32,
}

/// A catalogue entry with the details of the game's own pages.
#[derive(Debug, Clone)]
pub struct GameInfoFull {
    pub Id: i32,
    pub Name: String,
    pub AltName: Option<String>,
    pub CoverImageUrl: Option<String>,
    pub Genre: String,
    pub Year: String,
    pub Platform: String,
    pub Publisher: String,
    pub Stars: i32,
    pub Desc: String,
    /// The users' average rating, as the decimal text the page shows.
    pub UsersStars: String,
    pub UsersStarsSum: i32,
    pub Favorites: i32,
    pub Completed: i32,
    pub Bookmarks: i32,
    pub Recomended: Vec<TGameRecomended>,
    pub Mods: Vec<TGameMod>,
    pub GameGroups: Vec<TGameGroup>,
    pub Comments: Vec<TGameComment>,
    pub CommentsThreadId: Option<String>,
    pub Screenshots: Vec<TScreenshot>,
}

/// View of `TScreenshot`.
pub struct ScreenshotV {
    pub thumb_url: Seq<char>,
    pub url: Seq<char>,
}

/// View of `TGameGroupValue`.
pub struct GroupValueV {
    pub href: Seq<char>,
    pub title: Seq<char>,
    pub value: Seq<char>,
}

/// View of `TGameGroup`.
pub struct GroupV {
    pub name: Seq<char>,
    pub values: Seq<GroupValueV>,
}

/// View of `TGameComment`.
pub struct CommentV {
    pub user_ref: Option<Seq<char>>,
    pub user_name: Seq<char>,
    pub date: i64,
    pub stars: i32,
    pub comment: Seq<char>,
}

/// View of `TGameRecomended`.
pub struct RecommendedV {
    pub name: Seq<char>,
    pub id: i32,
}

/// View of `TGameMod`.
pub struct ModV {
    pub name: Seq<char>,
    pub href: Seq<char>,
}

/// View of `GameInfo`.
pub struct GameInfoV {
    pub id: i32,
    pub name: Seq<char>,
    pub genre: Seq<char>,
    pub year: Seq<char>,
    pub platform: Seq<char>,
    pub publisher: Seq<char>,
    pub stars: i32,
}

/// View of `GameInfoFull`.
pub struct GameInfoFullV {
    pub id: i32,
    pub name: Seq<char>,
    pub alt_name: Option<Seq<char>>,
    pub cover_image_url: Option<Seq<char>>,
    pub genre: Seq<char>,
    pub year: Seq<char>,
    pub platform: Seq<char>,
    pub publisher: Seq<char>,
    pub stars: i32,
    pub desc: Seq<char>,
    pub users_stars: Seq<char>,
    pub users_stars_sum: i32,
    pub favorites: i32,
    pub completed: i32,
    pub bookmarks: i32,
    pub recomended: Seq<RecommendedV>,
    pub mods: Seq<ModV>,
    pub game_groups: Seq<GroupV>,
    pub comments: Seq<CommentV>,
    pub comments_thread_id: Option<Seq<char>>,
    pub screenshots: Seq<ScreenshotV>,
}

/// The view of an optional string.
pub open spec fn opt_view(o: Option<String>) -> Option<Seq<char>> {
    match o {
        Some(s) => Some(s@),
        None => None,
    }
}

impl View for TScreenshot {
    type V = ScreenshotV;

    open spec fn view(&self) -> ScreenshotV {
        ScreenshotV { thumb_url: self.ThumbUrl@, url: self.Url@ }
    }
}

impl View for TGameGroupValue {
    type V = GroupValueV;

    open spec fn view(&self) -> GroupValueV {
        GroupValueV { href: self.Href@, title: self.Title@, value: self.Value@ }
    }
}

impl View for TGameGroup {
    type V = GroupV;

    open spec fn view(&self) -> GroupV {
        GroupV { name: self.Name@, values: self.Values@.map_values(|v: TGameGroupValue| v@) }
    }
}

impl View for TGameComment {
    type V = CommentV;

    open spec fn view(&self) -> CommentV {
        CommentV {
            user_ref: opt_view(self.UserRef),
            user_name: self.UserName@,
            date: self.Date,
            stars: self.Stars,
            comment: self.Comment@,
        }
    }
}

impl View for TGameRecomended {
    type V = RecommendedV;

    open spec fn view(&self) -> RecommendedV {
        RecommendedV { name: self.Name@, id: self.Id }
    }
}

impl View for TGameMod {
    type V = ModV;

    open spec fn view(&self) -> ModV {
        ModV { name: self.Name@, href: self.Href@ }
    }
}

impl View for GameInfo {
    type V = GameInfoV;

    open spec fn view(&self) -> GameInfoV {
        GameInfoV {
            id: self.Id,
            name: self.Name@,
            genre: self.Genre@,
            year: self.Year@,
            platform: self.Platform@,
            publisher: self.Publisher@,
            stars: self.Stars,
        }
    }
}

impl View for GameInfoFull {
    type V = GameInfoFullV;

    open spec fn view(&self) -> GameInfoFullV {
        GameInfoFullV {
            id: self.Id,
            name: self.Name@,
            alt_name: opt_view(self.AltName),
            cover_image_url: opt_view(self.CoverImageUrl),
            genre: self.Genre@,
            year: self.Year@,
            platform: self.Platform@,
            publisher: self.Publisher@,
            stars: self.Stars,
            desc: self.Desc@,
            users_stars: self.UsersStars@,
            users_stars_sum: self.UsersStarsSum,
            favorites: self.Favorites,
            completed: self.Completed,
            bookmarks: self.Bookmarks,
            recomended: self.Recomended@.map_values(|v: TGameRecomended| v@),
            mods: self.Mods@.map_values(|v: TGameMod| v@),
            game_groups: self.GameGroups@.map_values(|v: TGameGroup| v@),
            comments: self.Comments@.map_values(|v: TGameComment| v@),
            comments_thread_id: opt_view(self.CommentsThreadId),
            screenshots: self.Screenshots@.map_values(|v: TScreenshot| v@),
        }
    }
}

/// The views of a sequence of catalogue entries.
pub open spec fn games_view(s: Seq<GameInfo>) -> Seq<GameInfoV> {
    s.map_values(|g: GameInfo| g@)
}

} // verus!
