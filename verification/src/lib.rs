//! Status resolution for a multiplayer game server.
//!
//! The crate probes a server over one of two wire protocols (or races both),
//! falls back to previously cached data when the server cannot be reached,
//! and maintains a rolling multi-day usage history that is summarized into
//! per-day statistics on every call.
//!
//! All decision logic lives here, stated as contracts and verified; the thin
//! host layer performs the actual network and file operations and hands this
//! crate plain values.

pub mod probe;
pub mod week_stats;
pub mod favicon;
pub mod identicon;
pub mod status;
pub mod text;

pub use favicon::{load_cached_favicon, process_favicon, store_cached_favicon, CachedFavicon};
pub use identicon::{make_base64_identicon, IdenticonInput};
pub use probe::{race_outcome, Player, Players, ProbeError, ProtocolType, Response, Version};
pub use status::{
    current_time, prepare_resolution, resolve_from_probe, Favicon, InputError, McInfo,
    OfflineResponse, OnlineResponse, PreparedPaths, ResolveError, ResolveUpdate, ServerStatus,
    UnreachableResponse,
};
pub use week_stats::{determine_week_stats, HistoryEntry, PingStatsOnDisk, RangeStats, WeekStats};
