//! Podcast feeds of video channels: which channels may be asked for, where their
//! videos are, the feeds that are made of them, and what the server answers.
pub mod address;
pub mod atom;
pub mod batches;
pub mod captions;
pub mod configs;
pub mod dates;
pub mod duration;
pub mod episodes;
pub mod feed;
pub mod json;
pub mod markup;
pub mod numerals;
pub mod order;
pub mod paging;
pub mod pattern;
pub mod playlist;
pub mod range;
pub mod rumble;
pub mod server;
pub mod text;
pub mod videos;
pub mod whitelist;
pub mod youtube;
pub mod ytdlp;
