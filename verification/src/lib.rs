//! Verified core of a Bilibili video downloader: identifiers, cookies,
//! request signing, download planning and the small formats around them.

pub mod text;
pub mod codec;
pub mod bv;
pub mod parallel;
pub mod range;
pub mod job;
pub mod manager;
pub mod cookie;
pub mod profile;
pub mod id;
pub mod safe_url;
pub mod wbi;
pub mod api;
pub mod proto;
pub mod muxer;
pub mod path;
pub mod ratelimit;
pub mod template;
pub mod danmaku;
pub mod login;
pub mod model;
pub mod playurl;
pub mod aria2c;
pub mod extractor;
pub mod plan;
pub mod cli;
pub mod store;
