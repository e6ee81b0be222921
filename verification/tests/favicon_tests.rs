//! Tests for favicon normalization, the favicon cache codec, the
//! generated identicon, and the two-probe race rule.

use minecraft_status::{
    load_cached_favicon, make_base64_identicon, process_favicon, race_outcome,
    store_cached_favicon, CachedFavicon, IdenticonInput, Players, ProbeError, ProtocolType,
    Response, Version,
};

#[test]
fn favicon_prefix_is_stripped() {
    assert_eq!(
        process_favicon("data:image/png;base64,SOMEDATA"),
        "SOMEDATA"
    );
    assert_eq!(process_favicon("SOMEDATA"), "SOMEDATA");
    assert_eq!(process_favicon(""), "");
    // Repeated prefixes are all stripped.
    assert_eq!(
        process_favicon("data:image/png;base64,data:image/png;base64,X"),
        "X"
    );
    // A prefix not at the start stays.
    assert_eq!(
        process_favicon("Xdata:image/png;base64,"),
        "Xdata:image/png;base64,"
    );
}

#[test]
fn favicon_codec_round_trips() {
    let some = CachedFavicon {
        favicon: Some("iVBORw0KGgo=".to_string()),
    };
    let back = CachedFavicon::from_bytes(&some.to_bytes()).unwrap();
    assert_eq!(back, some);

    let none = CachedFavicon { favicon: None };
    let back = CachedFavicon::from_bytes(&none.to_bytes()).unwrap();
    assert_eq!(back, none);
}

#[test]
fn favicon_codec_round_trips_non_ascii() {
    let record = CachedFavicon {
        favicon: Some("ünïcödé-päylöad ✓".to_string()),
    };
    let back = CachedFavicon::from_bytes(&record.to_bytes()).unwrap();
    assert_eq!(back, record);
}

#[test]
fn corrupt_favicon_record_loads_as_absent() {
    assert!(CachedFavicon::from_bytes(&b"garbage".to_vec()).is_none());
    assert!(CachedFavicon::from_bytes(&Vec::new()).is_none());
    assert!(load_cached_favicon(Some(&b"garbage".to_vec())).is_none());
    assert!(load_cached_favicon(None).is_none());

    // A present-favicon record whose payload is not UTF-8 is corrupt.
    let mut bad = CachedFavicon {
        favicon: Some("x".to_string()),
    }
    .to_bytes();
    let last = bad.len() - 1;
    bad[last] = 0xFF;
    assert!(CachedFavicon::from_bytes(&bad).is_none());
}

#[test]
fn store_normalizes_before_persisting() {
    let bytes = store_cached_favicon(Some("data:image/png;base64,PAYLOAD"));
    let record = CachedFavicon::from_bytes(&bytes).unwrap();
    assert_eq!(record.favicon, Some("PAYLOAD".to_string()));

    let bytes = store_cached_favicon(None);
    let record = CachedFavicon::from_bytes(&bytes).unwrap();
    assert_eq!(record.favicon, None);
}

#[test]
fn identicon_is_a_base64_png() {
    let icon = make_base64_identicon(IdenticonInput {
        protocol_type: ProtocolType::Java,
        address: "test.server.basic",
    })
    .expect("generation must succeed for an ordinary seed");
    // A Base64-encoded PNG always opens with the encoding of the PNG
    // signature bytes.
    assert!(icon.starts_with("iVBORw0KGg"), "got: {}", icon);
}

#[test]
fn identicon_is_deterministic_and_keyed() {
    let input = |protocol_type, address| IdenticonInput {
        protocol_type,
        address,
    };
    let a = make_base64_identicon(input(ProtocolType::Java, "some.server")).unwrap();
    let b = make_base64_identicon(input(ProtocolType::Java, "some.server")).unwrap();
    assert_eq!(a, b);

    let other_protocol = make_base64_identicon(input(ProtocolType::Bedrock, "some.server")).unwrap();
    let other_address = make_base64_identicon(input(ProtocolType::Java, "other.server")).unwrap();
    assert_ne!(a, other_protocol);
    assert_ne!(a, other_address);
}

fn sample_response(protocol_type: ProtocolType) -> Response {
    Response {
        protocol_type,
        latency: 10,
        version: Version {
            name: "v".to_string(),
            protocol: None,
        },
        players: Players {
            max: 10,
            online: 1,
            sample: vec![],
        },
        motd: "m".to_string(),
        favicon: None,
    }
}

#[test]
fn identicon_seed_is_protocol_then_address() {
    let input = IdenticonInput {
        protocol_type: ProtocolType::Bedrock,
        address: "try.ok.game.org",
    };
    assert_eq!(input.to_string(), "Bedrocktry.ok.game.org");
}

#[test]
fn race_first_success_wins() {
    let java = sample_response(ProtocolType::Java);
    let r = race_outcome(Ok(java.clone()), Err(ProbeError::DnsLookupFailed));
    assert_eq!(r.unwrap().protocol_type, ProtocolType::Java);

    // The order is completion order: whichever protocol finished first
    // with a success wins.
    let bedrock = sample_response(ProtocolType::Bedrock);
    let r = race_outcome(Ok(bedrock), Err(ProbeError::DnsLookupFailed));
    assert_eq!(r.unwrap().protocol_type, ProtocolType::Bedrock);
}

#[test]
fn race_waits_out_a_first_failure() {
    let java = sample_response(ProtocolType::Java);
    let r = race_outcome(Err(ProbeError::DnsLookupFailed), Ok(java));
    assert_eq!(r.unwrap().protocol_type, ProtocolType::Java);
}

#[test]
fn race_aggregates_two_failures() {
    let r = race_outcome(
        Err(ProbeError::DnsLookupFailed),
        Err(ProbeError::Io("timed out".to_string())),
    );
    match r {
        Err(ProbeError::Io(msg)) => {
            assert_eq!(msg, "neither probe returned a valid response");
        }
        _ => panic!("two failures must aggregate into one failure"),
    }
}
