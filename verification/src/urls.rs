//! Request paths of the catalog API, query encoding, and MIME type / file
//! extension mapping.
use vstd::prelude::*;
use vstd::string::StringSliceAdditionalSpecFns;

use crate::text::{append_str, decimal, push_char, push_decimal, same_text};
use crate::types::SearchKind;

verus! {

/// Lower-case hexadecimal digit for `d < 16`.
pub open spec fn hex_char(d: nat) -> char {
    if d == 0 { '0' } else if d == 1 { '1' } else if d == 2 { '2' } else if d == 3 { '3' }
    else if d == 4 { '4' } else if d == 5 { '5' } else if d == 6 { '6' } else if d == 7 { '7' }
    else if d == 8 { '8' } else if d == 9 { '9' } else if d == 10 { 'a' } else if d == 11 { 'b' }
    else if d == 12 { 'c' } else if d == 13 { 'd' } else if d == 14 { 'e' } else { 'f' }
}

fn hex_digit(d: u8) -> (c: char)
    requires
        d < 16,
    ensures
        c == hex_char(d as nat),
{
    if d == 0 { '0' } else if d == 1 { '1' } else if d == 2 { '2' } else if d == 3 { '3' }
    else if d == 4 { '4' } else if d == 5 { '5' } else if d == 6 { '6' } else if d == 7 { '7' }
    else if d == 8 { '8' } else if d == 9 { '9' } else if d == 10 { 'a' } else if d == 11 { 'b' }
    else if d == 12 { 'c' } else if d == 13 { 'd' } else if d == 14 { 'e' } else { 'f' }
}

/// Bytes that pass through unencoded: ASCII letters, digits, `-`, `_`, `.`, `~`.
pub open spec fn is_unreserved(b: u8) -> bool {
    (65 <= b <= 90) || (97 <= b <= 122) || (48 <= b <= 57) || b == 45 || b == 95 || b == 46 || b
        == 126
}

/// The encoding of one byte: itself if unreserved, `+` for a space, otherwise
/// `%` and two lower-case hexadecimal digits.
pub open spec fn encode_byte(b: u8) -> Seq<char> {
    if is_unreserved(b) {
        seq![b as char]
    } else if b == 32 {
        seq!['+']
    } else {
        seq!['%', hex_char((b / 16) as nat), hex_char((b % 16) as nat)]
    }
}

/// The encoding of a byte sequence, byte by byte.
pub open spec fn encode_bytes(bs: Seq<u8>) -> Seq<char>
    decreases bs.len(),
{
    if bs.len() == 0 {
        Seq::empty()
    } else {
        encode_bytes(bs.drop_last()) + encode_byte(bs.last())
    }
}

/// Percent-encode the UTF-8 bytes of `s` for a query string.
pub fn url_encode(s: &str) -> (r: String)
    ensures
        r@ == encode_bytes(s.spec_bytes()),
{
    let bytes = s.as_bytes();
    let mut out = String::new();
    let mut i: usize = 0;
    while i < bytes.len()
        invariant
            i <= bytes@.len(),
            bytes@ == s.spec_bytes(),
            out@ == encode_bytes(bytes@.take(i as int)),
        decreases bytes@.len() - i,
    {
        let b = bytes[i];
        if (65 <= b && b <= 90) || (97 <= b && b <= 122) || (48 <= b && b <= 57) || b == 45 || b
            == 95 || b == 46 || b == 126 {
            push_char(&mut out, b as char);
        } else if b == 32 {
            push_char(&mut out, '+');
        } else {
            let hi = b / 16;
            let lo = b % 16;
            push_char(&mut out, '%');
            push_char(&mut out, hex_digit(hi));
            push_char(&mut out, hex_digit(lo));
        }
        proof {
            assert(bytes@.take(i as int + 1).drop_last() == bytes@.take(i as int));
            assert(bytes@.take(i as int + 1).last() == b);
        }
        i = i + 1;
    }
    assert(bytes@.take(i as int) == bytes@);
    out
}

/// The query parameter a search kind uses.
pub open spec fn search_param(kind: SearchKind) -> Seq<char> {
    match kind {
        SearchKind::Tracks => seq!['s'],
        SearchKind::Albums => seq!['a', 'l'],
        SearchKind::Artists => seq!['a'],
    }
}

/// `/search/?{param}={encoded query}&limit={limit}&offset={offset}`.
pub open spec fn search_path_spec(query: Seq<u8>, kind: SearchKind, limit: u32, offset: u32) -> Seq<char> {
    seq!['/', 's', 'e', 'a', 'r', 'c', 'h', '/', '?'] + search_param(kind) + seq!['='] + encode_bytes(query)
        + seq!['&', 'l', 'i', 'm', 'i', 't', '='] + decimal(limit as nat) + seq![
        '&',
        'o',
        'f',
        'f',
        's',
        'e',
        't',
        '=',
    ] + decimal(offset as nat)
}

/// The request path of a search.
pub fn search_path(query: &str, kind: SearchKind, limit: u32, offset: u32) -> (r: String)
    ensures
        r@ == search_path_spec(query.spec_bytes(), kind, limit, offset),
{
    let mut out = String::new();
    for c in it: vec!['/', 's', 'e', 'a', 'r', 'c', 'h', '/', '?']
        invariant
            out@ == seq!['/', 's', 'e', 'a', 'r', 'c', 'h', '/', '?'].take(it.index() as int),
            it.seq() == seq!['/', 's', 'e', 'a', 'r', 'c', 'h', '/', '?'],
    {
        push_char(&mut out, c);
        proof {
            assert(it.seq().take(it.index() as int + 1) == it.seq().take(it.index() as int).push(c));
        }
    }
    proof {
        assert(seq!['/', 's', 'e', 'a', 'r', 'c', 'h', '/', '?'].take(9) == seq!['/', 's', 'e', 'a', 'r', 'c', 'h', '/', '?']);
    }
    let ghost p0 = out@;
    match kind {
        SearchKind::Tracks => {
            push_char(&mut out, 's');
        },
        SearchKind::Albums => {
            push_char(&mut out, 'a');
            push_char(&mut out, 'l');
        },
        SearchKind::Artists => {
            push_char(&mut out, 'a');
        },
    }
    assert(out@ == p0 + search_param(kind));
    push_char(&mut out, '=');
    let enc = url_encode(query);
    append_str(&mut out, enc.as_str());
    let ghost p1 = out@;
    push_char(&mut out, '&');
    push_char(&mut out, 'l');
    push_char(&mut out, 'i');
    push_char(&mut out, 'm');
    push_char(&mut out, 'i');
    push_char(&mut out, 't');
    push_char(&mut out, '=');
    assert(out@ == p1 + seq!['&', 'l', 'i', 'm', 'i', 't', '=']);
    push_decimal(&mut out, limit as u64);
    let ghost p2 = out@;
    push_char(&mut out, '&');
    push_char(&mut out, 'o');
    push_char(&mut out, 'f');
    push_char(&mut out, 'f');
    push_char(&mut out, 's');
    push_char(&mut out, 'e');
    push_char(&mut out, 't');
    push_char(&mut out, '=');
    assert(out@ == p2 + seq!['&', 'o', 'f', 'f', 's', 'e', 't', '=']);
    push_decimal(&mut out, offset as u64);
    out
}

/// `{prefix}{id}`: a path that ends in a numeric ID.
pub fn id_path(prefix: &str, id: u64) -> (r: String)
    ensures
        r@ == prefix@ + decimal(id as nat),
{
    let mut out = String::new();
    append_str(&mut out, prefix);
    push_decimal(&mut out, id);
    assert(Seq::<char>::empty() + prefix@ == prefix@);
    out
}

/// `/info/?id={id}`: track metadata.
pub fn info_path(id: u64) -> (r: String)
    ensures
        r@ == "/info/?id="@ + decimal(id as nat),
{
    id_path("/info/?id=", id)
}

/// `/album/?id={id}`: album metadata and listing.
pub fn album_path(id: u64) -> (r: String)
    ensures
        r@ == "/album/?id="@ + decimal(id as nat),
{
    id_path("/album/?id=", id)
}

/// `/artist/?id={id}`: artist information.
pub fn artist_path(id: u64) -> (r: String)
    ensures
        r@ == "/artist/?id="@ + decimal(id as nat),
{
    id_path("/artist/?id=", id)
}

/// `/lyrics/?id={id}`: lyrics of a track.
pub fn lyrics_path(id: u64) -> (r: String)
    ensures
        r@ == "/lyrics/?id="@ + decimal(id as nat),
{
    id_path("/lyrics/?id=", id)
}

/// `/recommendations/?id={id}`: tracks like a track.
pub fn recommendations_path(id: u64) -> (r: String)
    ensures
        r@ == "/recommendations/?id="@ + decimal(id as nat),
{
    id_path("/recommendations/?id=", id)
}

/// `/cover/?id={id}`: cover art of a track.
pub fn cover_path(id: u64) -> (r: String)
    ensures
        r@ == "/cover/?id="@ + decimal(id as nat),
{
    id_path("/cover/?id=", id)
}

/// `/track/?id={id}&quality={quality}`: stream manifest of a track.
pub fn stream_path(id: u64, quality: &str) -> (r: String)
    ensures
        r@ == "/track/?id="@ + decimal(id as nat) + "&quality="@ + quality@,
{
    let mut out = id_path("/track/?id=", id);
    append_str(&mut out, "&quality=");
    append_str(&mut out, quality);
    out
}

/// The full request URL: the base URL followed by the path.
pub fn request_url(base_url: &str, path: &str) -> (r: String)
    ensures
        r@ == base_url@ + path@,
{
    let mut out = String::new();
    append_str(&mut out, base_url);
    append_str(&mut out, path);
    assert(Seq::<char>::empty() + base_url@ == base_url@);
    out
}

/// The file extension for an audio MIME type (`audio` when unknown).
pub open spec fn mime_ext_spec(mime: Seq<char>) -> Seq<char> {
    if mime == "audio/flac"@ {
        "flac"@
    } else if mime == "audio/mp4"@ || mime == "audio/m4a"@ {
        "m4a"@
    } else if mime == "audio/mpeg"@ {
        "mp3"@
    } else if mime == "audio/ogg"@ {
        "ogg"@
    } else if mime == "audio/webm"@ {
        "webm"@
    } else {
        "audio"@
    }
}

/// Map MIME type to a file extension.
pub fn mime_to_ext(mime: &str) -> (r: String)
    ensures
        r@ == mime_ext_spec(mime@),
{
    if same_text(mime, "audio/flac") {
        "flac".to_owned()
    } else if same_text(mime, "audio/mp4") || same_text(mime, "audio/m4a") {
        "m4a".to_owned()
    } else if same_text(mime, "audio/mpeg") {
        "mp3".to_owned()
    } else if same_text(mime, "audio/ogg") {
        "ogg".to_owned()
    } else if same_text(mime, "audio/webm") {
        "webm".to_owned()
    } else {
        "audio".to_owned()
    }
}

/// The content type served for a file extension (`application/octet-stream`
/// when unknown or absent).
pub open spec fn ext_mime_spec(ext: Option<Seq<char>>) -> Seq<char> {
    match ext {
        Some(e) => if e == "flac"@ {
            "audio/flac"@
        } else if e == "m4a"@ || e == "aac"@ {
            "audio/mp4"@
        } else if e == "mp3"@ {
            "audio/mpeg"@
        } else if e == "ogg"@ {
            "audio/ogg"@
        } else if e == "wav"@ {
            "audio/wav"@
        } else {
            "application/octet-stream"@
        },
        None => "application/octet-stream"@,
    }
}

/// Map a file extension to the content type served for it.
pub fn mime_from_ext(ext: Option<&str>) -> (r: String)
    ensures
        r@ == ext_mime_spec(match ext {
            Some(e) => Some(e@),
            None => None,
        }),
{
    match ext {
        Some(e) => if same_text(e, "flac") {
            "audio/flac".to_owned()
        } else if same_text(e, "m4a") || same_text(e, "aac") {
            "audio/mp4".to_owned()
        } else if same_text(e, "mp3") {
            "audio/mpeg".to_owned()
        } else if same_text(e, "ogg") {
            "audio/ogg".to_owned()
        } else if same_text(e, "wav") {
            "audio/wav".to_owned()
        } else {
            "application/octet-stream".to_owned()
        },
        None => "application/octet-stream".to_owned(),
    }
}


/// The characters an encoded query may contain.
pub open spec fn is_query_safe(c: char) -> bool {
    ('A' <= c <= 'Z') || ('a' <= c <= 'z') || ('0' <= c <= '9') || c == '-' || c == '_' || c == '.'
        || c == '~' || c == '+' || c == '%'
}

proof fn lemma_hex_safe(d: nat)
    ensures
        is_query_safe(hex_char(d)),
{
}

/// An encoded query only holds unreserved characters, `+` and `%` escapes,
/// and it is never shorter than the bytes it encodes.
pub proof fn law_encoding_is_query_safe(bs: Seq<u8>)
    ensures
        forall|i: int| 0 <= i < encode_bytes(bs).len() ==> is_query_safe(#[trigger] encode_bytes(bs)[i]),
        encode_bytes(bs).len() >= bs.len(),
    decreases bs.len(),
{
    if bs.len() > 0 {
        law_encoding_is_query_safe(bs.drop_last());
        let b = bs.last();
        lemma_hex_safe((b / 16) as nat);
        lemma_hex_safe((b % 16) as nat);
        let prev = encode_bytes(bs.drop_last());
        let e = encode_byte(b);
        if is_unreserved(b) {
            assert(is_query_safe(b as char)) by {
                assert((b as char) as u8 == b);
            }
        }
        assert forall|i: int| 0 <= i < e.len() implies is_query_safe(#[trigger] e[i]) by {}
        assert forall|i: int| 0 <= i < (prev + e).len() implies is_query_safe(#[trigger] (prev + e)[i]) by {
            if i >= prev.len() {
                assert((prev + e)[i] == e[i - prev.len()]);
            }
        }
    }
}

} // verus!
