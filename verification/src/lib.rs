//! Grabs page and article titles for lists of URLs: the rules that decide what
//! is fetched, how often a fetch is retried, how titles are read from a page,
//! how embedded permalinks are made canonical, and which rows are reused from
//! an earlier output.
pub mod text;
pub mod shape;
pub mod listing;
pub mod location;
pub mod page;
pub mod record;
pub mod permalink;
pub mod retry;
pub mod dispatch;
pub mod config;

pub use config::{TitleGrabber, CONN_TO, DEF_OUT_PATH, MAX_REDIRECTS, MAX_RETRIES, READ_TO};
pub use record::{Cache, UrlRecord};
pub use text::fix_whitespace;
