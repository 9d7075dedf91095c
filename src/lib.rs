//! A client library for a game's player profiles: it reads ranks,
//! endorsement, title, portrait and per-hero statistics out of the career
//! page's markup, ranks out of a secondary ranking site, and search hits out
//! of the search endpoint, resolving their asset ids against the asset
//! catalog. Fetched values are kept in time-windowed caches.
//!
//! Fetching pages is the caller's; every decision about what a page means is
//! made here, and stated in each function's contract.
use vstd::prelude::*;

pub mod asset;
pub mod assoc;
pub mod btag;
pub mod cache;
pub mod catalog;
pub mod checks;
pub mod client;
pub mod collect;
pub mod dom;
pub mod error;
pub mod hero;
pub mod overbuff;
pub mod profile;
pub mod rank;
pub mod stat;
pub mod text;

pub use asset::{
    resolve, resolve_all, Asset, Catalog, Category, ContentType, FoundPlayer, FoundPlayerRaw, Id,
    IdName, LocalizedName, LocalizedText, Rarity, RarityTypes,
};
pub use btag::Battletag;
pub use cache::TimedCache;
pub use catalog::catalog_sections;
pub use client::{after_primary, after_secondary, LookupStep, PlayerProfileReduced};
pub use dom::Page;
pub use error::{ApiError, Error};
pub use hero::{hero_color, heroes, Color, Hero};
pub use overbuff::{overbuff, Overbuff};
pub use profile::{hero_named, profile, HeroEntry, HeroStats, NamedStat, PlayerProfile};
pub use rank::{url_file, url_file_name, Division, Endorsement, Group, Limited, Rank, Role};
pub use stat::{Decimal, Stat};

verus! {

} // verus!
