//! Static assets: validators, conditional requests and compression.
//!
//! The validator of an asset is a digest of its bytes, so that it changes whenever they do. A
//! request whose validator is current is answered without a body.

use crate::http::codec::{gzip, gzip_of, sha256, sha256_digest};
use crate::http::reply::{Reply, ReplyView};
use crate::text::{
    a_separator_parts_the_pieces, lemma_first_place, same_text, split, split_text, texts, trim,
    trimmed, trimmed_start,
};
use vstd::prelude::*;

verus! {

/// What an optional string slice denotes.
pub open spec fn optional_view(text: Option<&str>) -> Option<Seq<char>> {
    match text {
        Some(inner) => Some(inner@),
        None => None,
    }
}

/// Whether an entry of a comma-separated list is a given word, whitespace aside.
pub open spec fn lists(list: Seq<char>, word: Seq<char>) -> bool {
    exists|i: int|
        0 <= i < split(list, ',').len() && trimmed(#[trigger] split(list, ',')[i]) == word
}

/// Whether an optional comma-separated list names a word.
pub open spec fn optional_lists(list: Option<Seq<char>>, word: Seq<char>) -> bool {
    list matches Some(list) && lists(list, word)
}

/// Whether an entry of a comma-separated list is a given word, whitespace aside.
fn list_names(list: &str, word: &str) -> (yes: bool)
    ensures
        yes == lists(list@, word@),
{
    let pieces = split_text(list, ',');
    let ghost parts = split(list@, ',');
    let mut i: usize = 0;
    while i < pieces.len()
        invariant
            i <= pieces.len(),
            parts == split(list@, ','),
            texts(pieces@) == parts,
            forall|j: int| 0 <= j < i ==> trimmed(#[trigger] parts[j]) != word@,
        decreases pieces.len() - i,
    {
        assert(parts[i as int] == pieces@[i as int]@);
        if same_text(trim(pieces[i].as_str()).as_str(), word) {
            return true;
        }
        i = i + 1;
    }
    assert(pieces@.len() == parts.len());
    false
}

/// `If-None-Match` comparison: whether the client's copy is current.
pub fn etag_matches(if_none_match: Option<&str>, etag: &str) -> (current: bool)
    ensures
        current == optional_lists(optional_view(if_none_match), etag@),
{
    match if_none_match {
        Some(value) => list_names(value, etag),
        None => false,
    }
}

/// Whether the request advertises gzip via `Accept-Encoding`.
pub fn accepts_gzip(accept_encoding: Option<&str>) -> (accepts: bool)
    ensures
        accepts == optional_lists(optional_view(accept_encoding), "gzip"@),
{
    match accept_encoding {
        Some(value) => list_names(value, "gzip"),
        None => false,
    }
}

/// Gzips bytes at best compression.
pub fn gzip_bytes(raw: &[u8]) -> (compressed: Vec<u8>)
    ensures
        compressed@ == gzip_of(raw@),
{
    gzip(raw)
}

/// The lower-case hexadecimal digit of a value below sixteen.
pub open spec fn hex_digit(value: int) -> char {
    if value < 10 {
        ('0' as int + value) as char
    } else {
        ('a' as int + (value - 10)) as char
    }
}

/// Bytes in lower-case hexadecimal, two digits each.
pub open spec fn hex(bytes: Seq<u8>) -> Seq<char>
    decreases bytes.len(),
{
    if bytes.len() == 0 {
        Seq::empty()
    } else {
        hex(bytes.drop_last()).push(hex_digit(bytes.last() as int / 16)).push(
            hex_digit(bytes.last() as int % 16),
        )
    }
}

fn hex_char(value: u8) -> (c: char)
    requires
        value < 16,
    ensures
        c == hex_digit(value as int),
{
    if value < 10 {
        (48 + value) as char
    } else {
        (87 + value) as char
    }
}

/// Bytes in lower-case hexadecimal.
pub fn hex_text(bytes: &[u8]) -> (text: String)
    ensures
        text@ == hex(bytes@),
{
    let mut text = String::new();
    let mut i: usize = 0;
    assert(hex(bytes@.take(0)) =~= Seq::<char>::empty());
    while i < bytes.len()
        invariant
            i <= bytes.len(),
            text@ == hex(bytes@.take(i as int)),
        decreases bytes.len() - i,
    {
        assert(bytes@.take(i + 1).drop_last() =~= bytes@.take(i as int));
        text.push(hex_char(bytes[i] / 16));
        text.push(hex_char(bytes[i] % 16));
        i = i + 1;
    }
    assert(bytes@.take(i as int) =~= bytes@);
    text
}

/// The strong validator of a fingerprint: its SHA-256 digest in hexadecimal, quoted.
pub open spec fn etag_of(fingerprint: Seq<u8>) -> Seq<char> {
    "\""@ + hex(sha256_digest(fingerprint)) + "\""@
}

/// A quoted validator.
pub fn quoted(text: &str) -> (quoted: String)
    ensures
        quoted@ == "\""@ + text@ + "\""@,
{
    let mut quoted = "\"".to_owned();
    quoted.append(text);
    quoted.append("\"");
    quoted
}

/// The strong validator of a fingerprint.
pub fn etag_from_fingerprint(fingerprint: &[u8]) -> (etag: String)
    ensures
        etag@ == etag_of(fingerprint@),
{
    quoted(hex_text(sha256(fingerprint).as_slice()).as_str())
}

/// The validator of bytes that are about to be served.
pub fn content_etag(bytes: &[u8]) -> (etag: String)
    ensures
        etag@ == etag_of(bytes@),
{
    etag_from_fingerprint(bytes)
}

/// The reply that carries bytes: compressed where the client accepts it.
pub open spec fn content_reply(
    bytes: Seq<u8>,
    content_type: Seq<char>,
    etag: Seq<char>,
    accept_encoding: Option<Seq<char>>,
) -> ReplyView {
    if optional_lists(accept_encoding, "gzip"@) {
        ReplyView::plain(200, gzip_of(bytes)).with("content-type"@, content_type).with(
            "etag"@,
            etag,
        ).with("content-encoding"@, "gzip"@)
    } else {
        ReplyView::plain(200, bytes).with("content-type"@, content_type).with("etag"@, etag)
    }
}

/// The reply that tells a client its copy is current: no body, and the validator.
pub open spec fn not_modified(etag: Seq<char>) -> ReplyView {
    ReplyView::plain(304, Seq::empty()).with("etag"@, etag)
}

/// The reply that carries bytes, compressed where the client accepts it.
pub fn serve_content(
    bytes: Vec<u8>,
    content_type: &str,
    etag: &str,
    accept_encoding: Option<&str>,
) -> (reply: Reply)
    ensures
        reply@ == content_reply(bytes@, content_type@, etag@, optional_view(accept_encoding)),
{
    if accepts_gzip(accept_encoding) {
        Reply::new(200, gzip_bytes(bytes.as_slice())).with("content-type", content_type).with(
            "etag",
            etag,
        ).with("content-encoding", "gzip")
    } else {
        Reply::new(200, bytes).with("content-type", content_type).with("etag", etag)
    }
}

/// The reply that tells a client its copy is current.
pub fn serve_not_modified(etag: &str) -> (reply: Reply)
    ensures
        reply@ == not_modified(etag@),
{
    let body: Vec<u8> = Vec::new();
    Reply::new(304, body).with("etag", etag)
}

/// A static asset with a strong validator over its exact bytes and a compressed twin, both made
/// once and reused by every request.
#[derive(Debug)]
pub struct CompressedAsset {
    raw: Vec<u8>,
    compressed: Vec<u8>,
    etag: String,
}

impl CompressedAsset {
    /// The bytes of the asset.
    pub closed spec fn bytes(&self) -> Seq<u8> {
        self.raw@
    }

    #[verifier::type_invariant]
    spec fn prepared(self) -> bool {
        &&& self.compressed@ == gzip_of(self.raw@)
        &&& self.etag@ == etag_of(self.raw@)
    }

    /// An asset of the given bytes.
    pub fn new(raw: Vec<u8>) -> (asset: Self)
        ensures
            asset.bytes() == raw@,
    {
        let compressed = gzip_bytes(raw.as_slice());
        let etag = content_etag(raw.as_slice());
        CompressedAsset { raw, compressed, etag }
    }

    /// The validator.
    pub fn etag(&self) -> (etag: &str)
        ensures
            etag@ == etag_of(self.bytes()),
    {
        proof {
            use_type_invariant(self);
        }
        self.etag.as_str()
    }

    /// Serves the asset, honouring `Accept-Encoding` and `If-None-Match`. A current copy wins over
    /// compression: there is no body to encode.
    pub fn serve(
        &self,
        accept_encoding: Option<&str>,
        if_none_match: Option<&str>,
        content_type: &str,
    ) -> (reply: Reply)
        ensures
            reply@ == (if optional_lists(optional_view(if_none_match), etag_of(self.bytes())) {
                not_modified(etag_of(self.bytes()))
            } else {
                content_reply(
                    self.bytes(),
                    content_type@,
                    etag_of(self.bytes()),
                    optional_view(accept_encoding),
                )
            }),
    {
        let etag = self.etag();
        if etag_matches(if_none_match, etag) {
            return serve_not_modified(etag);
        }
        proof {
            use_type_invariant(self);
        }
        if accepts_gzip(accept_encoding) {
            Reply::new(200, copy_bytes(self.compressed.as_slice())).with(
                "content-type",
                content_type,
            ).with("etag", etag).with("content-encoding", "gzip")
        } else {
            Reply::new(200, copy_bytes(self.raw.as_slice())).with(
                "content-type",
                content_type,
            ).with("etag", etag)
        }
    }
}

/// A copy of some bytes.
pub fn copy_bytes(bytes: &[u8]) -> (copy: Vec<u8>)
    ensures
        copy@ == bytes@,
{
    vstd::slice::slice_to_vec(bytes)
}

/// Hexadecimal text holds hexadecimal digits only.
proof fn lemma_hex_digits(bytes: Seq<u8>)
    ensures
        forall|i: int|
            0 <= i < hex(bytes).len() ==> ('0' <= #[trigger] hex(bytes)[i] <= '9' || 'a' <= hex(
                bytes,
            )[i] <= 'f'),
    decreases bytes.len(),
{
    if bytes.len() > 0 {
        let rest = hex(bytes.drop_last());
        lemma_hex_digits(bytes.drop_last());
        assert forall|i: int| 0 <= i < hex(bytes).len() implies ('0' <= #[trigger] hex(bytes)[i]
            <= '9' || 'a' <= hex(bytes)[i] <= 'f') by {
            if i < rest.len() {
                assert(hex(bytes)[i] == rest[i]);
            } else if i == rest.len() {
                assert(hex(bytes)[i] == hex_digit(bytes.last() as int / 16));
            } else {
                assert(hex(bytes)[i] == hex_digit(bytes.last() as int % 16));
            }
        }
    }
}

/// A validator sent back as it was given is recognised as current.
pub proof fn lemma_an_etag_lists_itself(fingerprint: Seq<u8>)
    ensures
        optional_lists(Some(etag_of(fingerprint)), etag_of(fingerprint)),
{
    reveal_strlit("\"");
    let etag = etag_of(fingerprint);
    let digits = hex(sha256_digest(fingerprint));
    lemma_hex_digits(sha256_digest(fingerprint));
    assert(etag.len() == digits.len() + 2);
    assert forall|i: int| 0 <= i < etag.len() implies #[trigger] etag[i] != ',' by {
        if 0 < i < etag.len() - 1 {
            assert(etag[i] == digits[i - 1]);
        }
    }
    lemma_first_place(etag, ',');
    assert(!etag.contains(','));
    assert(split(etag, ',') =~= seq![etag]);
    assert(etag[0] == '"');
    assert(etag.last() == '"');
    assert(trimmed_start(etag) == etag);
    assert(trimmed(etag) == etag);
    assert(trimmed(split(etag, ',')[0]) == etag);
}

/// A list names a word exactly when one of its parts does; a part without a comma names what it is
/// without the whitespace around it.
pub proof fn a_list_names_what_its_parts_name(a: Seq<char>, b: Seq<char>, word: Seq<char>)
    ensures
        lists(a + seq![','] + b, word) <==> lists(a, word) || lists(b, word),
        !a.contains(',') ==> (lists(a, word) <==> trimmed(a) == word),
        !optional_lists(None, word),
        optional_lists(Some(a), word) <==> lists(a, word),
{
    a_separator_parts_the_pieces(a, b, ',');
    let all = split(a + seq![','] + b, ',');
    let first = split(a, ',');
    let second = split(b, ',');
    if lists(a, word) {
        let i = choose|i: int| 0 <= i < first.len() && trimmed(#[trigger] first[i]) == word;
        assert(all[i] == first[i]);
    }
    if lists(b, word) {
        let i = choose|i: int| 0 <= i < second.len() && trimmed(#[trigger] second[i]) == word;
        assert(all[first.len() + i] == second[i]);
    }
    if lists(a + seq![','] + b, word) {
        let i = choose|i: int| 0 <= i < all.len() && trimmed(#[trigger] all[i]) == word;
        if i < first.len() {
            assert(first[i] == all[i]);
        } else {
            assert(second[i - first.len()] == all[i]);
        }
    }
    if !a.contains(',') {
        assert(first == seq![a]);
        assert(first[0] == a);
    }
}

/// The value of a lower-case hexadecimal digit.
pub open spec fn hex_value(c: char) -> int {
    if '0' <= c <= '9' {
        c as int - 48
    } else {
        c as int - 87
    }
}

/// Hexadecimal text gives its bytes back, the high digit of each before the low one, so that
/// different bytes have different texts.
pub proof fn hexadecimal_denotes_its_bytes(bytes: Seq<u8>, at: int)
    requires
        0 <= at < bytes.len(),
    ensures
        hex(bytes).len() == 2 * bytes.len(),
        16 * hex_value(hex(bytes)[2 * at]) + hex_value(hex(bytes)[2 * at + 1]) == bytes[at],
        0 <= hex_value(hex(bytes)[2 * at]) < 16,
        0 <= hex_value(hex(bytes)[2 * at + 1]) < 16,
    decreases bytes.len(),
{
    let rest = bytes.drop_last();
    let last = bytes.last() as int;
    lemma_hex_length(bytes);
    lemma_hex_length(rest);
    if at < rest.len() {
        hexadecimal_denotes_its_bytes(rest, at);
        assert(hex(bytes)[2 * at] == hex(rest)[2 * at]);
        assert(hex(bytes)[2 * at + 1] == hex(rest)[2 * at + 1]);
    } else {
        assert(hex(bytes)[2 * at] == hex_digit(last / 16));
        assert(hex(bytes)[2 * at + 1] == hex_digit(last % 16));
        assert(0 <= last / 16 < 16 && 0 <= last % 16 < 16);
        lemma_hex_digit(last / 16);
        lemma_hex_digit(last % 16);
        assert(16 * (last / 16) + last % 16 == last);
    }
}

proof fn lemma_hex_digit(value: int)
    requires
        0 <= value < 16,
    ensures
        hex_value(hex_digit(value)) == value,
{
}

proof fn lemma_hex_length(bytes: Seq<u8>)
    ensures
        hex(bytes).len() == 2 * bytes.len(),
    decreases bytes.len(),
{
    if bytes.len() > 0 {
        lemma_hex_length(bytes.drop_last());
    }
}

/// Two validators are the same exactly when the digests that they were made of are: a validator
/// tells contents apart as far as the digest does.
pub proof fn a_validator_is_as_good_as_its_digest(a: Seq<u8>, b: Seq<u8>)
    ensures
        etag_of(a) == etag_of(b) <==> sha256_digest(a) == sha256_digest(b),
        etag_of(a).len() == 2 * sha256_digest(a).len() + 2,
        etag_of(a)[0] == '"' && etag_of(a).last() == '"',
{
    reveal_strlit("\"");
    let x = sha256_digest(a);
    let y = sha256_digest(b);
    lemma_hex_length(x);
    lemma_hex_length(y);
    if etag_of(a) == etag_of(b) {
        assert(etag_of(a).subrange(1, etag_of(a).len() - 1) =~= hex(x));
        assert(etag_of(b).subrange(1, etag_of(b).len() - 1) =~= hex(y));
        assert(x.len() == y.len());
        assert forall|i: int| 0 <= i < x.len() implies x[i] == y[i] by {
            hexadecimal_denotes_its_bytes(x, i);
            hexadecimal_denotes_its_bytes(y, i);
        }
        assert(x =~= y);
    }
}

/// Whether a reply has a header.
pub open spec fn has_header(reply: ReplyView, name: Seq<char>, value: Seq<char>) -> bool {
    reply.headers.contains((name, value))
}

/// Bytes are sent compressed only to a client that accepts it, and then say so; either way the
/// reply carries the content type and the validator.
pub proof fn only_accepted_compression_is_sent(
    bytes: Seq<u8>,
    content_type: Seq<char>,
    etag: Seq<char>,
    accept_encoding: Option<Seq<char>>,
)
    ensures
        ({
            let reply = content_reply(bytes, content_type, etag, accept_encoding);
            let accepts = optional_lists(accept_encoding, "gzip"@);
            &&& reply.status == 200
            &&& has_header(reply, "content-type"@, content_type)
            &&& has_header(reply, "etag"@, etag)
            &&& accepts ==> reply.body == gzip_of(bytes) && has_header(
                reply,
                "content-encoding"@,
                "gzip"@,
            )
            &&& !accepts ==> reply.body == bytes && reply.headers.len() == 2
            &&& accept_encoding is None ==> reply.body == bytes
        }),
        not_modified(etag).status == 304,
        not_modified(etag).body.len() == 0,
        has_header(not_modified(etag), "etag"@, etag),
{
    let reply = content_reply(bytes, content_type, etag, accept_encoding);
    assert(reply.headers[0] == ("content-type"@, content_type));
    assert(reply.headers[1] == ("etag"@, etag));
    if optional_lists(accept_encoding, "gzip"@) {
        assert(reply.headers[2] == ("content-encoding"@, "gzip"@));
    }
    assert(not_modified(etag).headers[0] == ("etag"@, etag));
}

} // verus!
