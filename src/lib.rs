//! A resumable download engine: URL probing, collision-free naming,
//! recovery from sidecar records and the decisions of the transfer loop.

pub mod namer;
pub mod url;
pub mod task;
pub mod text;

pub use namer::generate_name_on_disk;
pub use text::{decimal, ends_with, parse_decimal};
pub use url::{parse_name_from_url, range_probe_confirms, ParseHeaders, ResponseHeaders, Url, UrlError};
pub use task::{
    select_metadata_files, File2Dl, MetaData, Meter, PAUSE_POLL_MS, PROBE_TIMEOUT_SECS,
    REDIRECT_LIMIT, SIDECAR_EXTENSION, WINDOW_MS,
};
