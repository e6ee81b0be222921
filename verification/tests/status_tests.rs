//! Tests for the status resolution service: validation, the three
//! outcomes, favicon selection and cache replacement.

use minecraft_status::{
    prepare_resolution, resolve_from_probe, CachedFavicon, Favicon, InputError, PingStatsOnDisk,
    Players, ProbeError, ProtocolType, ResolveError, Response, ServerStatus, Version,
};

/// 2021-02-14 08:12:43 UTC.
const MOMENT: i64 = 1_613_290_363;

/// Seconds elapsed since midnight at `MOMENT`.
const SECONDS_FROM_MIDNIGHT: i64 = 8 * 3600 + 12 * 60 + 43;

fn basic_response() -> Response {
    Response {
        protocol_type: ProtocolType::Java,
        latency: 63,
        version: Version {
            name: "".to_string(),
            protocol: Some(187),
        },
        players: Players {
            max: 200,
            online: 103,
            sample: vec![],
        },
        motd: "".to_string(),
        favicon: None,
    }
}

fn full_response() -> Response {
    let mut response = basic_response();
    response.version.name = "something".to_string();
    response.motd = "hello! description test".to_string();
    response.favicon = Some("abase64string".to_string());
    response.players.sample = vec![
        minecraft_status::Player {
            id: "1".to_string(),
            name: "test1".to_string(),
        },
        minecraft_status::Player {
            id: "2".to_string(),
            name: "test2".to_string(),
        },
    ];
    response
}

fn resolve(
    address: &str,
    probe_result: Result<Response, ProbeError>,
    always_use_identicon: bool,
    favicon_file: Option<Vec<u8>>,
) -> minecraft_status::ResolveUpdate {
    resolve_from_probe(
        address,
        ProtocolType::Java,
        always_use_identicon,
        probe_result,
        favicon_file,
        None,
        MOMENT,
        SECONDS_FROM_MIDNIGHT,
    )
}

#[test]
fn blank_server_address() {
    let r = prepare_resolution("", ProtocolType::Java, "/tmp/data");
    match r {
        Err(e) => {
            assert_eq!(e, ResolveError::InputValidation(InputError::EmptyAddress));
            assert_eq!(e.message(), "empty server address");
        }
        Ok(_) => panic!("an empty address must be rejected"),
    }
}

#[test]
fn blank_app_group_container_path() {
    let r = prepare_resolution("test", ProtocolType::Java, "");
    match r {
        Err(e) => {
            assert_eq!(
                e,
                ResolveError::InputValidation(InputError::EmptyAppGroupContainer)
            );
            assert_eq!(e.message(), "empty app group container path");
        }
        Ok(_) => panic!("an empty data root must be rejected"),
    }
}

#[test]
fn ping_success_basic() {
    let r = resolve("test.server.basic", Ok(basic_response()), false, None);
    match r.status {
        ServerStatus::Online(o) => {
            assert_eq!(o.mcinfo.protocol_type, ProtocolType::Java);
            assert!(matches!(o.mcinfo.favicon, Favicon::Generated(_)));
            assert_eq!(o.mcinfo.latency, 63);
            assert_eq!(o.mcinfo.players.online, 103);
        }
        _ => panic!("a successful probe must resolve to an online status"),
    }
    // Both records are (re)written on success.
    assert!(r.favicon_file.is_some());
    assert!(r.stats_file.is_some());
}

#[test]
fn ping_success_full() {
    let r = resolve("test.server.full", Ok(full_response()), false, None);
    match r.status {
        ServerStatus::Online(o) => {
            assert_eq!(o.mcinfo.protocol_type, ProtocolType::Java);
            assert_eq!(
                o.mcinfo.favicon,
                Favicon::ServerProvided("abase64string".to_string())
            );
            assert_eq!(o.mcinfo.description, "hello! description test");
            assert_eq!(o.mcinfo.players.sample.len(), 2);
        }
        _ => panic!("a successful probe must resolve to an online status"),
    }
}

#[test]
fn ping_failure_dnslookupfails() {
    let r = resolve(
        "test.server.dnslookupfails",
        Err(ProbeError::DnsLookupFailed),
        false,
        None,
    );
    match r.status {
        ServerStatus::Unreachable(u) => {
            assert_eq!(u.error, ResolveError::Probe(ProbeError::DnsLookupFailed));
            assert_eq!(u.error.message(), "DNS lookup for the host provided failed");
        }
        _ => panic!("a failed probe without cache must be unreachable"),
    }
    // Nothing is written: no favicon record, no history record.
    assert!(r.favicon_file.is_none());
    assert!(r.stats_file.is_none());
}

#[test]
fn always_use_identicon() {
    let r = resolve("test.server.full", Ok(full_response()), true, None);
    match r.status {
        ServerStatus::Online(o) => {
            assert_eq!(o.mcinfo.protocol_type, ProtocolType::Java);
            assert!(matches!(o.mcinfo.favicon, Favicon::Generated(_)));
        }
        _ => panic!("a successful probe must resolve to an online status"),
    }
}

#[test]
fn success_replaces_cached_favicon() {
    let old = CachedFavicon {
        favicon: Some("OLDICON".to_string()),
    }
    .to_bytes();

    let mut response = full_response();
    response.favicon = Some("data:image/png;base64,NEWICON".to_string());
    let r = resolve("test.server.full", Ok(response), false, Some(old));

    // The stored record is exactly the normalized favicon of this probe,
    // replacing whatever was cached before.
    let expected = CachedFavicon {
        favicon: Some("NEWICON".to_string()),
    }
    .to_bytes();
    assert_eq!(r.favicon_file, Some(expected));
}

#[test]
fn success_with_no_favicon_overwrites_cache_with_none() {
    let old = CachedFavicon {
        favicon: Some("OLDICON".to_string()),
    }
    .to_bytes();

    let r = resolve("test.server.basic", Ok(basic_response()), false, Some(old));

    let written = r.favicon_file.expect("the record must be rewritten");
    let record = CachedFavicon::from_bytes(&written).unwrap();
    assert_eq!(record.favicon, None);
}

#[test]
fn offline_uses_cached_favicon_and_records_zeros() {
    let cached = CachedFavicon {
        favicon: Some("cachedicon".to_string()),
    }
    .to_bytes();

    let r = resolve(
        "test.server.full",
        Err(ProbeError::DnsLookupFailed),
        false,
        Some(cached),
    );
    match r.status {
        ServerStatus::Offline(o) => {
            assert_eq!(o.favicon, Favicon::ServerProvided("cachedicon".to_string()));
        }
        _ => panic!("a failed probe with a cache must be offline"),
    }
    // The favicon cache is left alone, but the history gains a
    // zero-online / zero-max entry at "now".
    assert!(r.favicon_file.is_none());
    let stored = PingStatsOnDisk::from_bytes(&r.stats_file.unwrap()).unwrap();
    let entry = stored.get(MOMENT).unwrap();
    assert_eq!(entry.online, 0);
    assert_eq!(entry.max, 0);
}

#[test]
fn offline_generates_identicon_when_cache_holds_none() {
    let cached = CachedFavicon { favicon: None }.to_bytes();

    let r = resolve(
        "test.server.full",
        Err(ProbeError::DnsLookupFailed),
        false,
        Some(cached),
    );
    match r.status {
        ServerStatus::Offline(o) => {
            assert!(matches!(o.favicon, Favicon::Generated(_)));
        }
        _ => panic!("a failed probe with a cache must be offline"),
    }
}

#[test]
fn offline_with_identicon_flag_ignores_cached_icon() {
    let cached = CachedFavicon {
        favicon: Some("cachedicon".to_string()),
    }
    .to_bytes();

    let r = resolve(
        "test.server.full",
        Err(ProbeError::DnsLookupFailed),
        true,
        Some(cached),
    );
    match r.status {
        ServerStatus::Offline(o) => {
            assert!(matches!(o.favicon, Favicon::Generated(_)));
        }
        _ => panic!("a failed probe with a cache must be offline"),
    }
}

#[test]
fn corrupt_favicon_cache_counts_as_absent() {
    let r = resolve(
        "test.server.full",
        Err(ProbeError::DnsLookupFailed),
        false,
        Some(b"not a record".to_vec()),
    );
    assert!(matches!(r.status, ServerStatus::Unreachable(_)));
    assert!(r.favicon_file.is_none());
    assert!(r.stats_file.is_none());
}

#[test]
fn addresses_differing_in_case_share_identity() {
    let a = prepare_resolution("MC.Example.COM", ProtocolType::Java, "/data").unwrap();
    let b = prepare_resolution("mc.example.com", ProtocolType::Java, "/data").unwrap();
    assert_eq!(a.server_folder, b.server_folder);
    assert_eq!(a.favicon_path, b.favicon_path);
    assert_eq!(a.stats_path, b.stats_path);
    assert_eq!(a.server_folder, "/data/mc_server_data/mc.example.com_Java");
}

#[test]
fn protocols_do_not_share_identity() {
    let java = prepare_resolution("mc.example.com", ProtocolType::Java, "/data").unwrap();
    let bedrock = prepare_resolution("mc.example.com", ProtocolType::Bedrock, "/data").unwrap();
    assert_ne!(java.server_folder, bedrock.server_folder);
}

#[test]
fn error_messages_stay_distinct() {
    assert_eq!(
        ResolveError::Probe(ProbeError::InvalidAddress).message(),
        "an invalid address was provided"
    );
    assert_eq!(
        ResolveError::Probe(ProbeError::Io("connection timed out".to_string())).message(),
        "connection timed out"
    );
    assert_eq!(
        ResolveError::Probe(ProbeError::Protocol("bad packet".to_string())).message(),
        "bad packet"
    );
    assert_eq!(
        ResolveError::Storage("cannot create folder".to_string()).message(),
        "cannot create folder"
    );
    assert_eq!(
        ResolveError::Internal("caught a panic".to_string()).message(),
        "caught a panic"
    );
}

#[test]
fn status_names() {
    let r = resolve("test.server.basic", Ok(basic_response()), false, None);
    assert_eq!(r.status.name(), "Online");
    let r = resolve(
        "test.server.basic",
        Err(ProbeError::DnsLookupFailed),
        false,
        None,
    );
    assert_eq!(r.status.name(), "Unreachable");
    let cached = CachedFavicon { favicon: None }.to_bytes();
    let r = resolve(
        "test.server.basic",
        Err(ProbeError::DnsLookupFailed),
        false,
        Some(cached),
    );
    assert_eq!(r.status.name(), "Offline");
}

#[test]
fn current_time_is_sane() {
    let (ts, sfm) = minecraft_status::current_time();
    // After 2020, and a plausible second-of-day.
    assert!(ts > 1_577_836_800);
    assert!((0..86400).contains(&sfm));
}
