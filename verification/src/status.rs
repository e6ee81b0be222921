//! The status resolution service.
//!
//! Turns a live probe result (or its absence) into one of three outcomes
//! — online, offline with cached data, or unreachable — and decides what
//! the durable favicon and history records become. The host layer
//! performs the probe and the file reads and writes; every decision is
//! made here, on plain values.

use crate::favicon::{
    load_cached_favicon, spec_decode_favicon, spec_encode_favicon, spec_strip_prefix,
    store_cached_favicon, process_favicon,
};
use crate::identicon::{make_base64_identicon, spec_generated_icon, IdenticonInput};
use crate::probe::{Players, ProbeError, ProtocolType, Response, Version};
use crate::text::{lower_of, to_lowercase};
use crate::week_stats::{
    determine_week_stats, spec_encode_history, spec_stored_history, spec_updated_history,
    week_stats_matches, WeekStats, SECONDS_PER_DAY,
};
use vstd::prelude::*;

verus! {

/// The ways the inputs themselves can be unusable; rejected before any
/// file-system interaction.
#[derive(Debug, Clone, Copy, PartialEq, Eq, Structural)]
pub enum InputError {
    /// The server address was empty.
    EmptyAddress,
    /// The application data root was empty.
    EmptyAppGroupContainer,
}

/// Why a resolution ended in an unreachable outcome, kept distinct by
/// origin until the final boundary.
#[derive(Debug, Clone, PartialEq, Eq)]
pub enum ResolveError {
    /// The inputs were rejected before any I/O.
    InputValidation(InputError),
    /// The live probe failed and no cached data existed.
    Probe(ProbeError),
    /// An unexpected fault creating directories or writing files.
    Storage(String),
    /// Any other unexpected fault caught at the outermost boundary.
    Internal(String),
}

/// What `ResolveError::message` returns for each error.
pub open spec fn spec_error_message(e: ResolveError) -> Seq<char> {
    match e {
        ResolveError::InputValidation(InputError::EmptyAddress) => "empty server address"@,
        ResolveError::InputValidation(InputError::EmptyAppGroupContainer) => "empty app group container path"@,
        ResolveError::Probe(p) => crate::probe::spec_probe_message(p),
        ResolveError::Storage(s) => s@,
        ResolveError::Internal(s) => s@,
    }
}

impl ResolveError {
    /// A human-readable description of the error.
    pub fn message(&self) -> (r: String)
        ensures
            r@ == spec_error_message(*self),
    {
        match self {
            ResolveError::InputValidation(InputError::EmptyAddress) => String::from_str(
                "empty server address",
            ),
            ResolveError::InputValidation(InputError::EmptyAppGroupContainer) => String::from_str(
                "empty app group container path",
            ),
            ResolveError::Probe(p) => p.message(),
            ResolveError::Storage(s) => s.clone(),
            ResolveError::Internal(s) => s.clone(),
        }
    }
}

/// The server's favicon image in a response.
#[derive(Debug, Clone, PartialEq, Eq)]
pub enum Favicon {
    /// The server provided a favicon (held as its bare Base64 payload).
    ServerProvided(String),
    /// A favicon was generated because the server provided none, or the
    /// caller asked for generated icons.
    Generated(String),
    /// There is no favicon image.
    NoFavicon,
}

/// The server status data of a successful resolution.
#[derive(Debug)]
pub struct McInfo {
    /// The protocol type of the successful ping.
    pub protocol_type: ProtocolType,
    /// Latency to the server, in milliseconds.
    pub latency: u64,
    /// Information about the server's version.
    pub version: Version,
    /// Information about online players.
    pub players: Players,
    /// The server's description text.
    pub description: String,
    /// The server's favicon.
    pub favicon: Favicon,
}

/// The server was online and returned a valid ping response.
#[derive(Debug)]
pub struct OnlineResponse {
    /// The data obtained from the server's ping response.
    pub mcinfo: McInfo,
    /// The rolling usage summary, updated with this observation.
    pub week_stats: WeekStats,
}

/// The server could not be reached, but has answered before: cached data
/// stands in.
#[derive(Debug)]
pub struct OfflineResponse {
    /// The server's favicon (a cached copy or a generated one).
    pub favicon: Favicon,
    /// The rolling usage summary, updated with a zero observation.
    pub week_stats: WeekStats,
}

/// The server could not be reached and nothing about it is cached.
#[derive(Debug)]
pub struct UnreachableResponse {
    /// Why the resolution failed.
    pub error: ResolveError,
}

/// The overall status outcome.
#[derive(Debug)]
pub enum ServerStatus {
    /// The server was online and we got a valid ping response.
    Online(OnlineResponse),
    /// The server was offline but cached data was available.
    Offline(OfflineResponse),
    /// The server was offline and nothing was cached; carries the error.
    Unreachable(UnreachableResponse),
}

impl ServerStatus {
    /// The name of the outcome variant.
    pub fn name(&self) -> (r: &'static str)
        ensures
            self is Online ==> r@ == "Online"@,
            self is Offline ==> r@ == "Offline"@,
            self is Unreachable ==> r@ == "Unreachable"@,
    {
        match self {
            ServerStatus::Online(_) => "Online",
            ServerStatus::Offline(_) => "Offline",
            ServerStatus::Unreachable(_) => "Unreachable",
        }
    }
}

/// The per-identity storage locations of a validated resolution request.
#[derive(Debug, Clone)]
pub struct PreparedPaths {
    /// The directory all records of this server identity live in.
    pub server_folder: String,
    /// The favicon cache record's location.
    pub favicon_path: String,
    /// The week-stats history record's location.
    pub stats_path: String,
}

/// The directory a server identity's records live in: the data root, a
/// fixed subdirectory, and the identity key — the lowercased address
/// with the protocol name folded in, so probes of the same host over
/// different protocols do not collide.
pub open spec fn spec_server_folder(
    root: Seq<char>,
    address: Seq<char>,
    protocol: ProtocolType,
) -> Seq<char> {
    root + "/mc_server_data/"@ + lower_of(address) + "_"@ + protocol.spec_tag()
}

/// Address case-insensitivity: two addresses with one lowercase form
/// share one identity — for the same protocol they resolve to the same
/// server folder, hence to the same favicon and history records.
pub proof fn lemma_identity_ignores_address_case(
    root: Seq<char>,
    a: Seq<char>,
    b: Seq<char>,
    protocol: ProtocolType,
)
    requires
        lower_of(a) == lower_of(b),
    ensures
        spec_server_folder(root, a, protocol) == spec_server_folder(root, b, protocol),
{
}

/// Validate the inputs and derive the storage locations.
///
/// An empty address or data root is rejected here, before any
/// file-system interaction can happen.
pub fn prepare_resolution(
    address: &str,
    protocol_type: ProtocolType,
    app_group_container: &str,
) -> (r: Result<PreparedPaths, ResolveError>)
    ensures
        address@.len() == 0 ==> r == Err::<PreparedPaths, ResolveError>(
            ResolveError::InputValidation(InputError::EmptyAddress),
        ),
        address@.len() > 0 && app_group_container@.len() == 0 ==> r == Err::<
            PreparedPaths,
            ResolveError,
        >(ResolveError::InputValidation(InputError::EmptyAppGroupContainer)),
        address@.len() > 0 && app_group_container@.len() > 0 ==> (r matches Ok(p)
            && p.server_folder@ == spec_server_folder(
            app_group_container@,
            address@,
            protocol_type,
        ) && p.favicon_path@ == p.server_folder@ + "/cached_favicon"@ && p.stats_path@
            == p.server_folder@ + "/week_stats"@),
{
    if address.is_empty() {
        return Err(ResolveError::InputValidation(InputError::EmptyAddress));
    }
    if app_group_container.is_empty() {
        return Err(ResolveError::InputValidation(InputError::EmptyAppGroupContainer));
    }
    let mut folder = String::from_str(app_group_container);
    folder.append("/mc_server_data/");
    let lowered = to_lowercase(address);
    folder.append(lowered.as_str());
    folder.append("_");
    folder.append(protocol_type.tag());
    let mut favicon_path = folder.clone();
    favicon_path.append("/cached_favicon");
    let mut stats_path = folder.clone();
    stats_path.append("/week_stats");
    Ok(PreparedPaths { server_folder: folder, favicon_path, stats_path })
}

/// The normalized form of a probe's favicon: the bare Base64 payload, or
/// nothing when the probe carried none.
pub open spec fn spec_normalized_favicon(f: Option<String>) -> Option<Seq<char>> {
    match f {
        None => None,
        Some(s) => Some(spec_strip_prefix(s@)),
    }
}

/// Whether `f` is the favicon the response must carry, given the
/// available source icon (a normalized server or cached favicon): the
/// source is preferred, unless the caller always wants a generated icon
/// or no source exists, in which case the generated icon stands in — or
/// nothing at all when generation fails.
pub open spec fn favicon_matches(
    f: Favicon,
    source: Option<Seq<char>>,
    seed: Seq<char>,
    always_use_identicon: bool,
) -> bool {
    match source {
        Some(v) => if always_use_identicon {
            generated_favicon_matches(f, seed)
        } else {
            f matches Favicon::ServerProvided(s) && s@ == v
        },
        None => generated_favicon_matches(f, seed),
    }
}

/// Whether `f` is the generated stand-in for the seed: the generated
/// icon, or no icon at all when generation fails.
pub open spec fn generated_favicon_matches(f: Favicon, seed: Seq<char>) -> bool {
    match spec_generated_icon(seed) {
        Some(icon) => f matches Favicon::Generated(g) && g@ == icon,
        None => f is NoFavicon,
    }
}

/// Pick the favicon for a response from the available source icon,
/// generating a placeholder when asked to or when there is no source.
fn select_favicon(
    source: Option<String>,
    protocol_type: ProtocolType,
    address: &str,
    always_use_identicon: bool,
) -> (f: Favicon)
    ensures
        favicon_matches(
            f,
            match source {
                None => None,
                Some(s) => Some(s@),
            },
            protocol_type.spec_tag() + address@,
            always_use_identicon,
        ),
{
    match (always_use_identicon, source) {
        (false, Some(s)) => Favicon::ServerProvided(s),
        _ => match make_base64_identicon(IdenticonInput { protocol_type, address }) {
            Some(icon) => Favicon::Generated(icon),
            None => Favicon::NoFavicon,
        },
    }
}

impl McInfo {
    /// Build the response data from a server's ping response and the
    /// address that was pinged: the counts and texts are carried over
    /// unchanged, and the favicon is selected from the normalized
    /// server-provided one and the generated placeholder.
    pub fn new(status: Response, address: &str, always_use_identicon: bool) -> (r: McInfo)
        ensures
            r.protocol_type == status.protocol_type,
            r.latency == status.latency,
            r.version == status.version,
            r.players == status.players,
            r.description == status.motd,
            favicon_matches(
                r.favicon,
                spec_normalized_favicon(status.favicon),
                status.protocol_type.spec_tag() + address@,
                always_use_identicon,
            ),
    {
        let Response { protocol_type, latency, version, players, motd, favicon } = status;
        let normalized: Option<String> = match favicon {
            None => None,
            Some(s) => Some(process_favicon(s.as_str()).to_owned()),
        };
        let icon = select_favicon(normalized, protocol_type, address, always_use_identicon);
        McInfo {
            protocol_type,
            latency,
            version,
            players,
            description: motd,
            favicon: icon,
        }
    }
}

/// Whether the stored favicon file holds a decodable cache record; a
/// missing or corrupt file does not, and then counts as "never answered".
pub open spec fn spec_cache_hit(favicon_file: Option<Vec<u8>>) -> bool {
    match favicon_file {
        None => false,
        Some(b) => spec_decode_favicon(b@) is Some,
    }
}

/// The icon a decodable cache record holds.
pub open spec fn spec_cached_icon(favicon_file: Option<Vec<u8>>) -> Option<Seq<char>> {
    match favicon_file {
        None => None,
        Some(b) => match spec_decode_favicon(b@) {
            None => None,
            Some(v) => v,
        },
    }
}

/// Everything one resolution decides: the outcome handed to the caller,
/// and the records to write back — `None` means the file is left alone.
#[derive(Debug)]
pub struct ResolveUpdate {
    /// The outcome of the resolution.
    pub status: ServerStatus,
    /// The favicon cache record to write, if any.
    pub favicon_file: Option<Vec<u8>>,
    /// The history record to write, if any.
    pub stats_file: Option<Vec<u8>>,
}

/// Resolve the server's status from one live probe result and the stored
/// records.
///
/// On a successful probe the outcome is online: the favicon cache is
/// replaced with exactly what the probe returned (normalized), and the
/// observation is recorded in the history. On a failed probe with a
/// decodable favicon cache the outcome is offline, with the cached icon
/// and a zero observation recorded. On a failed probe without one the
/// outcome is unreachable, carrying the probe's error, and nothing is
/// written.
pub fn resolve_from_probe(
    address: &str,
    protocol_type: ProtocolType,
    always_use_identicon: bool,
    probe_result: Result<Response, ProbeError>,
    favicon_file: Option<Vec<u8>>,
    stats_file: Option<Vec<u8>>,
    now_timestamp: i64,
    seconds_from_midnight: i64,
) -> (r: ResolveUpdate)
    requires
        0 <= seconds_from_midnight < SECONDS_PER_DAY,
        now_timestamp >= i64::MIN + 8 * SECONDS_PER_DAY,
    ensures
        ({
            let seed = protocol_type.spec_tag() + address@;
            match probe_result {
                Ok(resp) => {
                    // A generated icon is keyed on the protocol that
                    // actually answered.
                    let online_seed = resp.protocol_type.spec_tag() + address@;
                    let h = spec_updated_history(
                        spec_stored_history(stats_file),
                        now_timestamp,
                        resp.players.online,
                        resp.players.max,
                    );
                    &&& r.status matches ServerStatus::Online(o) && o.mcinfo.protocol_type
                        == resp.protocol_type && o.mcinfo.latency == resp.latency
                        && o.mcinfo.version == resp.version && o.mcinfo.players == resp.players
                        && o.mcinfo.description == resp.motd && favicon_matches(
                        o.mcinfo.favicon,
                        spec_normalized_favicon(resp.favicon),
                        online_seed,
                        always_use_identicon,
                    ) && week_stats_matches(
                        h,
                        o.week_stats,
                        now_timestamp as int,
                        seconds_from_midnight as int,
                    )
                    &&& r.favicon_file matches Some(b) && b@ == spec_encode_favicon(
                        spec_normalized_favicon(resp.favicon),
                    )
                    &&& r.stats_file matches Some(b) && b@ == spec_encode_history(h)
                },
                Err(e) => {
                    if spec_cache_hit(favicon_file) {
                        let h = spec_updated_history(
                            spec_stored_history(stats_file),
                            now_timestamp,
                            0,
                            0,
                        );
                        &&& r.status matches ServerStatus::Offline(o) && favicon_matches(
                            o.favicon,
                            spec_cached_icon(favicon_file),
                            seed,
                            always_use_identicon,
                        ) && week_stats_matches(
                            h,
                            o.week_stats,
                            now_timestamp as int,
                            seconds_from_midnight as int,
                        )
                        &&& r.favicon_file is None
                        &&& r.stats_file matches Some(b) && b@ == spec_encode_history(h)
                    } else {
                        &&& r.status matches ServerStatus::Unreachable(u) && u.error
                            == ResolveError::Probe(e)
                        &&& r.favicon_file is None
                        &&& r.stats_file is None
                    }
                },
            }
        }),
{
    match probe_result {
        Ok(resp) => {
            let online = resp.players.online;
            let max = resp.players.max;
            let fav_bytes = store_cached_favicon(
                match &resp.favicon {
                    None => None,
                    Some(s) => Some(s.as_str()),
                },
            );
            let (week, hist_bytes) = determine_week_stats(
                stats_file,
                online,
                max,
                now_timestamp,
                seconds_from_midnight,
            );
            let mcinfo = McInfo::new(resp, address, always_use_identicon);
            ResolveUpdate {
                status: ServerStatus::Online(OnlineResponse { mcinfo, week_stats: week }),
                favicon_file: Some(fav_bytes),
                stats_file: Some(hist_bytes),
            }
        },
        Err(e) => {
            match load_cached_favicon(favicon_file.as_ref()) {
                Some(cached) => {
                    let icon = select_favicon(
                        cached.favicon,
                        protocol_type,
                        address,
                        always_use_identicon,
                    );
                    let (week, hist_bytes) = determine_week_stats(
                        stats_file,
                        0,
                        0,
                        now_timestamp,
                        seconds_from_midnight,
                    );
                    ResolveUpdate {
                        status: ServerStatus::Offline(
                            OfflineResponse { favicon: icon, week_stats: week },
                        ),
                        favicon_file: None,
                        stats_file: Some(hist_bytes),
                    }
                },
                None => ResolveUpdate {
                    status: ServerStatus::Unreachable(
                        UnreachableResponse { error: ResolveError::Probe(e) },
                    ),
                    favicon_file: None,
                    stats_file: None,
                },
            }
        },
    }
}

/// Relies on chrono's `Local::now`: the reading lies within chrono's
/// documented date range (about 262,000 years either side of the common
/// epoch), and `num_seconds_from_midnight` is below one day, as its
/// documentation states.
#[verifier::external_body]
fn clock_now() -> (r: (i64, u32))
    ensures
        -9_000_000_000_000 < r.0 < 9_000_000_000_000,
        r.1 < 86400,
{
    let now = chrono::Local::now();
    (now.timestamp(), chrono::Timelike::num_seconds_from_midnight(&now))
}

/// The current moment: the unix second, and the seconds elapsed since the
/// local midnight, in the shape the week summary takes them.
pub fn current_time() -> (r: (i64, i64))
    ensures
        -9_000_000_000_000 < r.0 < 9_000_000_000_000,
        0 <= r.1 < SECONDS_PER_DAY,
{
    let (ts, sfm) = clock_now();
    (ts, sfm as i64)
}

} // verus!
