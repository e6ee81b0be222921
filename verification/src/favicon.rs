//! The durable favicon cache: one optional favicon string per server
//! identity, normalized to a bare Base64 payload, with corrupt-file
//! recovery.

use vstd::prelude::*;
use vstd::utf8::{decode_utf8, encode_utf8, valid_utf8};

verus! {

/// The media-type prefix a server-provided favicon may carry.
pub open spec fn spec_icon_prefix() -> Seq<char> {
    "data:image/png;base64,"@
}

/// The favicon string with every leading media-type prefix removed, so
/// stored values are always bare Base64 payloads.
pub open spec fn spec_strip_prefix(s: Seq<char>) -> Seq<char>
    decreases s.len(),
{
    if s.len() >= 22 && s.subrange(0, 22) == spec_icon_prefix() {
        spec_strip_prefix(s.skip(22))
    } else {
        s
    }
}

/// Whether the string starts with the favicon media-type prefix.
fn has_icon_prefix(s: &str) -> (b: bool)
    ensures
        b == (s@.len() >= 22 && s@.subrange(0, 22) == spec_icon_prefix()),
{
    let p: &str = "data:image/png;base64,";
    proof {
        reveal_strlit("data:image/png;base64,");
    }
    if s.unicode_len() < 22 {
        return false;
    }
    let mut i: usize = 0;
    while i < 22
        invariant
            0 <= i <= 22,
            s@.len() >= 22,
            p@ == spec_icon_prefix(),
            p@.len() == 22,
            forall|j: int| 0 <= j < i ==> s@[j] == spec_icon_prefix()[j],
        decreases 22 - i,
    {
        if s.get_char(i) != p.get_char(i) {
            proof {
                assert(s@.subrange(0, 22)[i as int] != spec_icon_prefix()[i as int]);
            }
            return false;
        }
        i = i + 1;
    }
    proof {
        assert(s@.subrange(0, 22) =~= spec_icon_prefix());
    }
    true
}

/// Trim off the non-Base64 media-type part of the favicon string, so the
/// stored and returned values hold the bare image payload.
pub fn process_favicon(favicon: &str) -> (r: &str)
    ensures
        r@ == spec_strip_prefix(favicon@),
{
    let mut s: &str = favicon;
    while has_icon_prefix(s)
        invariant
            spec_strip_prefix(s@) == spec_strip_prefix(favicon@),
        decreases s@.len(),
    {
        let len = s.unicode_len();
        let rest = s.substring_char(22, len);
        proof {
            assert(rest@ =~= s@.skip(22));
        }
        s = rest;
    }
    s
}

/// The format in which a favicon is cached durably: one optional,
/// already-normalized favicon string.
#[derive(Debug, Clone, PartialEq, Eq)]
pub struct CachedFavicon {
    /// The normalized favicon, or `None` when the server sent none.
    pub favicon: Option<String>,
}

impl View for CachedFavicon {
    type V = Option<Seq<char>>;

    open spec fn view(&self) -> Option<Seq<char>> {
        match self.favicon {
            None => None,
            Some(s) => Some(s@),
        }
    }
}

/// The magic bytes opening a serialized favicon record.
pub open spec fn spec_favicon_magic() -> Seq<u8> {
    seq![77u8, 67u8, 70u8, 49u8]
}

/// The serialization of a favicon record: the magic bytes, then a tag
/// byte, then (for a present favicon) the string's UTF-8 bytes.
pub open spec fn spec_encode_favicon(v: Option<Seq<char>>) -> Seq<u8> {
    match v {
        None => spec_favicon_magic() + seq![0u8],
        Some(s) => spec_favicon_magic() + seq![1u8] + encode_utf8(s),
    }
}

/// Parse a serialized favicon record; `None` when the bytes are not a
/// valid record, which is treated as corruption.
pub open spec fn spec_decode_favicon(b: Seq<u8>) -> Option<Option<Seq<char>>> {
    if b.len() < 5 || b.subrange(0, 4) != spec_favicon_magic() {
        None
    } else if b[4] == 0 && b.len() == 5 {
        Some(None)
    } else if b[4] == 1 && valid_utf8(b.skip(5)) {
        Some(Some(decode_utf8(b.skip(5))))
    } else {
        None
    }
}

/// Relies on `String::from_utf8`: it succeeds exactly on valid UTF-8
/// input and returns the string whose UTF-8 encoding is that input.
#[verifier::external_body]
fn bytes_to_string(v: Vec<u8>) -> (r: Option<String>)
    ensures
        r matches Some(s) ==> encode_utf8(s@) == v@,
        valid_utf8(v@) ==> r is Some,
{
    String::from_utf8(v).ok()
}

impl CachedFavicon {
    /// Serialize the record for durable storage.
    pub fn to_bytes(&self) -> (r: Vec<u8>)
        ensures
            r@ == spec_encode_favicon(self@),
    {
        let mut out: Vec<u8> = Vec::new();
        out.push(77);
        out.push(67);
        out.push(70);
        out.push(49);
        proof {
            assert(out@ =~= spec_favicon_magic());
        }
        match &self.favicon {
            None => {
                out.push(0);
                proof {
                    assert(out@ =~= spec_favicon_magic() + seq![0u8]);
                }
            },
            Some(s) => {
                out.push(1);
                let mut payload = s.as_str().as_bytes_vec();
                out.append(&mut payload);
                proof {
                    assert(out@ =~= spec_favicon_magic() + seq![1u8] + encode_utf8(s@));
                }
            },
        }
        out
    }

    /// Deserialize a stored favicon record; `None` when the bytes are
    /// not a valid record.
    pub fn from_bytes(bytes: &Vec<u8>) -> (r: Option<CachedFavicon>)
        ensures
            r is Some <==> spec_decode_favicon(bytes@) is Some,
            r matches Some(c) ==> spec_decode_favicon(bytes@) == Some(c@),
    {
        if bytes.len() < 5 || bytes[0] != 77 || bytes[1] != 67 || bytes[2] != 70 || bytes[3] != 49 {
            proof {
                if bytes@.len() >= 5 {
                    assert(bytes@.subrange(0, 4) != spec_favicon_magic()) by {
                        if bytes@.subrange(0, 4) == spec_favicon_magic() {
                            assert(bytes@.subrange(0, 4)[0] == 77u8);
                            assert(bytes@.subrange(0, 4)[1] == 67u8);
                            assert(bytes@.subrange(0, 4)[2] == 70u8);
                            assert(bytes@.subrange(0, 4)[3] == 49u8);
                        }
                    }
                }
            }
            return None;
        }
        proof {
            assert(bytes@.subrange(0, 4) =~= spec_favicon_magic());
        }
        if bytes[4] == 0 {
            if bytes.len() == 5 {
                Some(CachedFavicon { favicon: None })
            } else {
                None
            }
        } else if bytes[4] == 1 {
            let payload = vstd::slice::slice_to_vec(
                vstd::slice::slice_subrange(bytes.as_slice(), 5, bytes.len()),
            );
            proof {
                assert(payload@ =~= bytes@.skip(5));
            }
            match bytes_to_string(payload) {
                None => {
                    proof {
                        // Were the payload valid UTF-8, the conversion
                        // would have succeeded.
                        assert(!valid_utf8(bytes@.skip(5)));
                    }
                    None
                },
                Some(s) => {
                    proof {
                        broadcast use vstd::utf8::encode_utf8_valid_utf8;
                        broadcast use vstd::utf8::encode_utf8_decode_utf8;

                        assert(valid_utf8(bytes@.skip(5)));
                        assert(decode_utf8(bytes@.skip(5)) == s@);
                    }
                    Some(CachedFavicon { favicon: Some(s) })
                },
            }
        } else {
            None
        }
    }
}

/// The favicon codec round-trips losslessly: decoding an encoded record
/// yields exactly that record.
pub proof fn lemma_favicon_round_trip(v: Option<Seq<char>>)
    ensures
        spec_decode_favicon(spec_encode_favicon(v)) == Some(v),
{
    broadcast use vstd::utf8::encode_utf8_valid_utf8;
    broadcast use vstd::utf8::encode_utf8_decode_utf8;

    let b = spec_encode_favicon(v);
    match v {
        None => {
            assert(b.subrange(0, 4) =~= spec_favicon_magic());
            assert(b.len() == 5);
            assert(b[4] == 0);
        },
        Some(s) => {
            assert(b.subrange(0, 4) =~= spec_favicon_magic());
            assert(b[4] == 1);
            assert(b.skip(5) =~= encode_utf8(s));
        },
    }
}

/// Load the cached favicon record from the stored file contents: an
/// absent or corrupt file yields no record, never an error.
pub fn load_cached_favicon(stored: Option<&Vec<u8>>) -> (r: Option<CachedFavicon>)
    ensures
        match stored {
            None => r is None,
            Some(b) => match spec_decode_favicon(b@) {
                None => r is None,
                Some(v) => r matches Some(c) && c@ == v,
            },
        },
{
    match stored {
        None => None,
        Some(bytes) => CachedFavicon::from_bytes(bytes),
    }
}

/// Build the bytes that replace the cache record after a successful live
/// probe: whatever favicon the probe returned, normalized, also when that
/// overwrites a previously cached icon with "no icon".
pub fn store_cached_favicon(favicon: Option<&str>) -> (r: Vec<u8>)
    ensures
        r@ == spec_encode_favicon(
            match favicon {
                None => None,
                Some(f) => Some(spec_strip_prefix(f@)),
            },
        ),
{
    let record = CachedFavicon {
        favicon: match favicon {
            None => None,
            Some(f) => Some(process_favicon(f).to_owned()),
        },
    };
    record.to_bytes()
}

} // verus!
