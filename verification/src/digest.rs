//! The digest that identifies a source definition: the SHA-256 hash of a
//! canonical byte encoding of the source, written in lowercase hexadecimal.
//!
//! The encoding is injective, so the hashed bytes determine the source; the
//! name under which a source is declared takes no part in it.
use vstd::prelude::*;
use vstd::bytes::{lemma_auto_spec_u64_to_from_le_bytes, spec_u64_from_le_bytes, spec_u64_to_le_bytes, u64_to_le_bytes};
use vstd::string::StringSliceAdditionalSpecFns;
use vstd::utf8::{encode_utf8, encode_utf8_decode_utf8, decode_utf8};

use crate::source::{GitReference, GitReferenceModel, Source, SourceModel};

verus! {

/// The SHA-256 hash of a byte sequence.
pub uninterp spec fn sha256(data: Seq<u8>) -> Seq<u8>;

/// Hashes bytes with `sha2::Sha256`.
///
/// Trusted: the result is `sha256` of the input, and is 32 bytes long as the
/// algorithm's output always is.
#[verifier::external_body]
fn sha256_bytes(data: &[u8]) -> (r: Vec<u8>)
    ensures
        r@ == sha256(data@),
        r@.len() == 32,
{
    <sha2::Sha256 as sha2::Digest>::digest(data).to_vec()
}

// ---------------------------------------------------------------------------
// Canonical encoding.
// ---------------------------------------------------------------------------

/// A text field: the byte length of its UTF-8 form (8 bytes, little endian),
/// then that form.
pub open spec fn encode_text(s: Seq<char>) -> Seq<u8> {
    spec_u64_to_le_bytes(encode_utf8(s).len() as u64) + encode_utf8(s)
}

/// Whether a text's UTF-8 form is short enough for its length to be encoded.
pub open spec fn text_fits(s: Seq<char>) -> bool {
    encode_utf8(s).len() <= u64::MAX
}

pub open spec fn encode_reference(r: Option<GitReferenceModel>) -> Seq<u8> {
    match r {
        None => seq![0u8],
        Some(GitReferenceModel::Branch(b)) => seq![1u8] + encode_text(b),
        Some(GitReferenceModel::Tag(t)) => seq![2u8] + encode_text(t),
        Some(GitReferenceModel::Rev(v)) => seq![3u8] + encode_text(v),
    }
}

pub open spec fn reference_fits(r: Option<GitReferenceModel>) -> bool {
    match r {
        None => true,
        Some(GitReferenceModel::Branch(b)) => text_fits(b),
        Some(GitReferenceModel::Tag(t)) => text_fits(t),
        Some(GitReferenceModel::Rev(v)) => text_fits(v),
    }
}

/// The canonical bytes of a source definition.
pub open spec fn source_encoding(s: SourceModel) -> Seq<u8> {
    match s {
        SourceModel::Tar(u) => seq![0u8] + encode_text(u),
        SourceModel::Git(g) => seq![1u8] + encode_text(g.url) + encode_reference(g.reference)
            + seq![if g.recursive { 1u8 } else { 0u8 }],
    }
}

/// Whether every text of a source can be encoded (always true of the texts a
/// program holds in memory).
pub open spec fn source_fits(s: SourceModel) -> bool {
    match s {
        SourceModel::Tar(u) => text_fits(u),
        SourceModel::Git(g) => text_fits(g.url) && reference_fits(g.reference),
    }
}

/// A lowercase hexadecimal digit.
pub open spec fn hex_char(d: u8) -> char {
    if d < 10 {
        (('0' as u8) + d) as char
    } else {
        (('a' as u8) + d - 10) as char
    }
}

/// Two lowercase hexadecimal digits per byte, high digit first.
pub open spec fn hex_text(bytes: Seq<u8>) -> Seq<char>
    decreases bytes.len(),
{
    if bytes.len() == 0 {
        Seq::empty()
    } else {
        hex_text(bytes.drop_last()) + seq![hex_char(bytes.last() / 16), hex_char(bytes.last() % 16)]
    }
}

proof fn lemma_hex_text_len(bytes: Seq<u8>)
    ensures
        hex_text(bytes).len() == 2 * bytes.len(),
    decreases bytes.len(),
{
    if bytes.len() > 0 {
        lemma_hex_text_len(bytes.drop_last());
    }
}

/// The digest of a source definition.
pub open spec fn source_digest(s: SourceModel) -> Seq<char> {
    hex_text(sha256(source_encoding(s)))
}

// ---------------------------------------------------------------------------
// The encoding determines the source.
// ---------------------------------------------------------------------------

/// A text field can be read back from the front of any byte sequence that
/// starts with it.
pub proof fn lemma_encode_text_prefix(a: Seq<char>, b: Seq<char>, rest_a: Seq<u8>, rest_b: Seq<u8>)
    requires
        text_fits(a),
        text_fits(b),
        encode_text(a) + rest_a == encode_text(b) + rest_b,
    ensures
        a == b,
        rest_a == rest_b,
{
    lemma_auto_spec_u64_to_from_le_bytes();
    let la = encode_utf8(a).len() as u64;
    let lb = encode_utf8(b).len() as u64;
    let x = encode_text(a) + rest_a;
    let y = encode_text(b) + rest_b;
    assert(x.subrange(0, 8) =~= spec_u64_to_le_bytes(la));
    assert(y.subrange(0, 8) =~= spec_u64_to_le_bytes(lb));
    assert(spec_u64_from_le_bytes(spec_u64_to_le_bytes(la)) == la);
    assert(spec_u64_from_le_bytes(spec_u64_to_le_bytes(lb)) == lb);
    assert(la == lb);
    let n = la as int;
    assert(x.subrange(8, 8 + n) =~= encode_utf8(a));
    assert(y.subrange(8, 8 + n) =~= encode_utf8(b));
    encode_utf8_decode_utf8(a);
    encode_utf8_decode_utf8(b);
    assert(decode_utf8(encode_utf8(a)) == a);
    assert(decode_utf8(encode_utf8(b)) == b);
    assert(x.subrange(8 + n, x.len() as int) =~= rest_a);
    assert(y.subrange(8 + n, y.len() as int) =~= rest_b);
}

proof fn lemma_encode_reference_prefix(a: Option<GitReferenceModel>, b: Option<GitReferenceModel>, rest_a: Seq<u8>, rest_b: Seq<u8>)
    requires
        reference_fits(a),
        reference_fits(b),
        encode_reference(a) + rest_a == encode_reference(b) + rest_b,
    ensures
        a == b,
        rest_a == rest_b,
{
    let x = encode_reference(a) + rest_a;
    assert(x[0] == encode_reference(a)[0]);
    assert(x[0] == encode_reference(b)[0]);
    match a {
        None => {
            assert(rest_a =~= x.drop_first());
            match b {
                None => { assert(rest_b =~= x.drop_first()); },
                _ => {},
            }
        },
        Some(GitReferenceModel::Branch(ta)) => {
            assert(x.drop_first() =~= encode_text(ta) + rest_a);
            match b {
                Some(GitReferenceModel::Branch(tb)) => {
                    assert(x.drop_first() =~= encode_text(tb) + rest_b);
                    lemma_encode_text_prefix(ta, tb, rest_a, rest_b);
                },
                _ => {},
            }
        },
        Some(GitReferenceModel::Tag(ta)) => {
            assert(x.drop_first() =~= encode_text(ta) + rest_a);
            match b {
                Some(GitReferenceModel::Tag(tb)) => {
                    assert(x.drop_first() =~= encode_text(tb) + rest_b);
                    lemma_encode_text_prefix(ta, tb, rest_a, rest_b);
                },
                _ => {},
            }
        },
        Some(GitReferenceModel::Rev(ta)) => {
            assert(x.drop_first() =~= encode_text(ta) + rest_a);
            match b {
                Some(GitReferenceModel::Rev(tb)) => {
                    assert(x.drop_first() =~= encode_text(tb) + rest_b);
                    lemma_encode_text_prefix(ta, tb, rest_a, rest_b);
                },
                _ => {},
            }
        },
    }
}

/// Two source definitions with the same canonical bytes are the same
/// definition: the digest is computed from the definition alone and loses
/// nothing of it before hashing.
pub proof fn lemma_source_encoding_injective(a: SourceModel, b: SourceModel)
    requires
        source_fits(a),
        source_fits(b),
        source_encoding(a) == source_encoding(b),
    ensures
        a == b,
{
    let x = source_encoding(a);
    assert(x[0] == source_encoding(b)[0]);
    match a {
        SourceModel::Tar(ua) => {
            match b {
                SourceModel::Tar(ub) => {
                    assert(x.drop_first() =~= encode_text(ua) + Seq::<u8>::empty());
                    assert(x.drop_first() =~= encode_text(ub) + Seq::<u8>::empty());
                    lemma_encode_text_prefix(ua, ub, Seq::empty(), Seq::empty());
                },
                _ => {},
            }
        },
        SourceModel::Git(ga) => {
            match b {
                SourceModel::Git(gb) => {
                    let ra = encode_reference(ga.reference) + seq![if ga.recursive { 1u8 } else { 0u8 }];
                    let rb = encode_reference(gb.reference) + seq![if gb.recursive { 1u8 } else { 0u8 }];
                    assert(x.drop_first() =~= encode_text(ga.url) + ra);
                    assert(x.drop_first() =~= encode_text(gb.url) + rb);
                    lemma_encode_text_prefix(ga.url, gb.url, ra, rb);
                    lemma_encode_reference_prefix(ga.reference, gb.reference,
                        seq![if ga.recursive { 1u8 } else { 0u8 }], seq![if gb.recursive { 1u8 } else { 0u8 }]);
                    assert(seq![if ga.recursive { 1u8 } else { 0u8 }][0] == seq![if gb.recursive { 1u8 } else { 0u8 }][0]);
                },
                _ => {},
            }
        },
    }
}

proof fn lemma_hex_char_injective(d: u8, e: u8)
    requires
        d < 16,
        e < 16,
        hex_char(d) == hex_char(e),
    ensures
        d == e,
{
    assert(hex_char(d) as u32 == if d < 10 { 48 + d } else { 87 + d });
    assert(hex_char(e) as u32 == if e < 10 { 48 + e } else { 87 + e });
}

/// Hexadecimal text determines the bytes it was written from.
proof fn lemma_hex_text_injective(a: Seq<u8>, b: Seq<u8>)
    requires
        hex_text(a) == hex_text(b),
    ensures
        a == b,
    decreases a.len(),
{
    lemma_hex_text_len(a);
    lemma_hex_text_len(b);
    if a.len() > 0 {
        let n = hex_text(a).len() as int;
        lemma_hex_text_len(a.drop_last());
        lemma_hex_text_len(b.drop_last());
        assert(hex_text(a.drop_last()) =~= hex_text(a).subrange(0, n - 2));
        assert(hex_text(b.drop_last()) =~= hex_text(b).subrange(0, n - 2));
        lemma_hex_text_injective(a.drop_last(), b.drop_last());
        assert(hex_text(a)[n - 2] == hex_char(a.last() / 16));
        assert(hex_text(b)[n - 2] == hex_char(b.last() / 16));
        assert(hex_text(a)[n - 1] == hex_char(a.last() % 16));
        assert(hex_text(b)[n - 1] == hex_char(b.last() % 16));
        lemma_hex_char_injective(a.last() / 16, b.last() / 16);
        lemma_hex_char_injective(a.last() % 16, b.last() % 16);
        assert(a.last() == b.last());
        assert(a =~= a.drop_last().push(a.last()));
        assert(b =~= b.drop_last().push(b.last()));
    }
}

proof fn lemma_hex_text_has_no_slash(bytes: Seq<u8>)
    ensures
        forall|i: int| 0 <= i < hex_text(bytes).len() ==> hex_text(bytes)[i] != '/',
    decreases bytes.len(),
{
    if bytes.len() > 0 {
        let prev = bytes.drop_last();
        lemma_hex_text_has_no_slash(prev);
        let b = bytes.last();
        let hi = hex_char(b / 16);
        let lo = hex_char(b % 16);
        assert(hi as u32 == if b / 16 < 10 { 48 + b / 16 } else { 87 + b / 16 });
        assert(lo as u32 == if b % 16 < 10 { 48 + b % 16 } else { 87 + b % 16 });
        let t = hex_text(bytes);
        assert(t == hex_text(prev) + seq![hi, lo]);
        assert forall|i: int| 0 <= i < t.len() implies t[i] != '/' by {
            if i < hex_text(prev).len() {
                assert(t[i] == hex_text(prev)[i]);
            }
        }
    }
}

/// A digest holds no `/`: it names a single directory.
pub proof fn lemma_digest_has_no_slash(s: SourceModel)
    ensures
        forall|i: int| 0 <= i < source_digest(s).len() ==> source_digest(s)[i] != '/',
{
    lemma_hex_text_has_no_slash(sha256(source_encoding(s)));
}

/// Two different source definitions share a digest, and so a cache
/// directory, only if SHA-256 hashes their encodings (which differ) to the
/// same value.
pub proof fn law_shared_digest_needs_hash_collision(a: SourceModel, b: SourceModel)
    requires
        source_fits(a),
        source_fits(b),
        a != b,
        source_digest(a) == source_digest(b),
    ensures
        source_encoding(a) != source_encoding(b),
        sha256(source_encoding(a)) == sha256(source_encoding(b)),
{
    if source_encoding(a) == source_encoding(b) {
        lemma_source_encoding_injective(a, b);
    }
    lemma_hex_text_injective(sha256(source_encoding(a)), sha256(source_encoding(b)));
}

// ---------------------------------------------------------------------------
// Computing the digest.
// ---------------------------------------------------------------------------

/// The digest of a source definition, in lowercase hexadecimal.
#[derive(Debug, Clone, PartialEq, Eq, PartialOrd, Ord, Hash)]
pub struct Digest(pub String);

impl View for Digest {
    type V = Seq<char>;

    open spec fn view(&self) -> Seq<char> {
        self.0@
    }
}

impl Digest {
    /// The digest's text.
    pub fn as_str(&self) -> (r: &str)
        ensures
            r@ == self@,
    {
        self.0.as_str()
    }
}

fn append_bytes(out: &mut Vec<u8>, bytes: &[u8])
    ensures
        final(out)@ == old(out)@ + bytes@,
{
    let mut i: usize = 0;
    while i < bytes.len()
        invariant
            i <= bytes@.len(),
            out@ == old(out)@ + bytes@.subrange(0, i as int),
        decreases bytes@.len() - i,
    {
        out.push(bytes[i]);
        assert(bytes@.subrange(0, i + 1) =~= bytes@.subrange(0, i as int).push(bytes@[i as int]));
        i = i + 1;
    }
    assert(bytes@.subrange(0, bytes@.len() as int) =~= bytes@);
}

fn append_text(out: &mut Vec<u8>, text: &str)
    ensures
        final(out)@ == old(out)@ + encode_text(text@),
        text_fits(text@),
{
    let bytes = text.as_bytes();
    let len: usize = bytes.len();
    let prefix = u64_to_le_bytes(len as u64);
    append_bytes(out, prefix.as_slice());
    append_bytes(out, bytes);
    assert(old(out)@ + prefix@ + bytes@ =~= old(out)@ + encode_text(text@));
}

fn encode_reference_into(out: &mut Vec<u8>, reference: &Option<GitReference>)
    ensures
        final(out)@ == old(out)@ + encode_reference(crate::source::reference_model(*reference)),
        reference_fits(crate::source::reference_model(*reference)),
{
    match reference {
        None => {
            out.push(0u8);
            assert(old(out)@.push(0u8) =~= old(out)@ + seq![0u8]);
        },
        Some(GitReference::Branch(b)) => {
            out.push(1u8);
            let ghost mid = out@;
            append_text(out, b.as_str());
            assert(out@ =~= old(out)@ + (seq![1u8] + encode_text(b@)));
        },
        Some(GitReference::Tag(t)) => {
            out.push(2u8);
            append_text(out, t.as_str());
            assert(out@ =~= old(out)@ + (seq![2u8] + encode_text(t@)));
        },
        Some(GitReference::Rev(v)) => {
            out.push(3u8);
            append_text(out, v.as_str());
            assert(out@ =~= old(out)@ + (seq![3u8] + encode_text(v@)));
        },
    }
}

/// The canonical bytes of a source definition.
pub fn source_bytes(source: &Source) -> (r: Vec<u8>)
    ensures
        r@ == source_encoding(source@),
        source_fits(source@),
{
    let mut out: Vec<u8> = Vec::new();
    match source {
        Source::Tar(t) => {
            out.push(0u8);
            append_text(&mut out, t.url.as_str());
            assert(out@ =~= seq![0u8] + encode_text(t.url@));
        },
        Source::Git(g) => {
            out.push(1u8);
            append_text(&mut out, g.url.as_str());
            encode_reference_into(&mut out, &g.reference);
            let flag: u8 = if g.recursive { 1u8 } else { 0u8 };
            out.push(flag);
            assert(out@ =~= seq![1u8] + encode_text(g.url@) + encode_reference(crate::source::reference_model(g.reference))
                + seq![flag]);
        },
    }
    out
}

fn hex_digit(d: u8) -> (c: char)
    requires
        d < 16,
    ensures
        c == hex_char(d),
{
    if d < 10 {
        ((48u8 + d) as char)
    } else {
        ((97u8 + d - 10) as char)
    }
}

/// Lowercase hexadecimal text of bytes.
pub fn hex_string(bytes: &[u8]) -> (r: String)
    ensures
        r@ == hex_text(bytes@),
{
    let mut r = String::new();
    let mut i: usize = 0;
    assert(bytes@.subrange(0, 0) =~= Seq::<u8>::empty());
    while i < bytes.len()
        invariant
            i <= bytes@.len(),
            r@ == hex_text(bytes@.subrange(0, i as int)),
        decreases bytes@.len() - i,
    {
        let b = bytes[i];
        crate::text::push_char(&mut r, hex_digit(b / 16));
        crate::text::push_char(&mut r, hex_digit(b % 16));
        assert(bytes@.subrange(0, i + 1).drop_last() =~= bytes@.subrange(0, i as int));
        assert(r@ =~= hex_text(bytes@.subrange(0, i + 1)));
        i = i + 1;
    }
    assert(bytes@.subrange(0, bytes@.len() as int) =~= bytes@);
    r
}

impl Source {
    /// The digest that identifies this source definition in a cache.
    pub fn digest(&self) -> (r: Digest)
        ensures
            r@ == source_digest(self@),
            r@.len() == 64,
            source_fits(self@),
    {
        let bytes = source_bytes(self);
        let hash = sha256_bytes(bytes.as_slice());
        proof {
            lemma_hex_text_len(hash@);
        }
        Digest(hex_string(hash.as_slice()))
    }
}

} // verus!
