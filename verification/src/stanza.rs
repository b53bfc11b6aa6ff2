//! The stanza codec: turns a generic header stanza (tag, arguments, body,
//! already tokenized by the surrounding header reader) into this recipient
//! type's typed line, and lays a typed line back out in the canonical wire
//! format.

use vstd::prelude::*;
use crate::b64::{b64_decode, b64_encode, lemma_b64_round_trip, spec_b64, spec_b64_decode};
use crate::bytes::{bytes_eq, concat_bytes, copy_bytes};
use crate::recipient::RecipientLine;

verus! {

/// One structured line of a file-encryption header: a tag naming a recipient
/// type, its textual arguments, and its already-decoded binary body.
pub struct Stanza {
    pub tag: Vec<u8>,
    pub args: Vec<Vec<u8>>,
    pub body: Vec<u8>,
}

impl Stanza {
    /// The arguments as a sequence of byte strings.
    pub open spec fn args_view(&self) -> Seq<Seq<u8>> {
        self.args.deep_view()
    }
}

/// The fixed identifier of this recipient type: the bytes of "X25519".
pub open spec fn x25519_tag() -> Seq<u8> {
    seq![88u8, 50u8, 53u8, 53u8, 49u8, 57u8]
}

/// The tag as bytes.
pub fn x25519_tag_bytes() -> (r: Vec<u8>)
    ensures
        r@ == x25519_tag(),
{
    let mut v: Vec<u8> = Vec::new();
    v.push(88u8);
    v.push(50u8);
    v.push(53u8);
    v.push(53u8);
    v.push(49u8);
    v.push(57u8);
    proof {
        assert(v@ =~= x25519_tag());
    }
    v
}

/// What parsing a tokenized stanza yields: the ephemeral public key and the
/// sealed file key, when and only when the tag is "X25519", there is exactly
/// one argument, it decodes to exactly 32 bytes, and the body is exactly 32
/// bytes; nothing ("not applicable") otherwise.
pub open spec fn spec_parse(tag: Seq<u8>, args: Seq<Seq<u8>>, body: Seq<u8>) -> Option<
    (Seq<u8>, Seq<u8>),
> {
    if tag == x25519_tag() && args.len() == 1 && spec_b64_decode(args[0]) is Some
        && spec_b64_decode(args[0])->Some_0.len() == 32 && body.len() == 32 {
        Some((spec_b64_decode(args[0])->Some_0, body))
    } else {
        None
    }
}

/// The canonical wire layout of a line: the tag, a space, the base64 of the
/// ephemeral public key, a newline, and the base64 of the sealed file key.
pub open spec fn spec_serialize(epk: Seq<u8>, ct: Seq<u8>) -> Seq<u8> {
    x25519_tag() + seq![32u8] + spec_b64(epk) + seq![10u8] + spec_b64(ct)
}

/// Parses a tokenized stanza into this recipient type's line, exactly as
/// `spec_parse` says: every malformed or foreign stanza yields nothing,
/// never a hard failure.
pub fn parse_stanza(stanza: &Stanza) -> (r: Option<RecipientLine>)
    ensures
        r is Some ==> spec_parse(stanza.tag@, stanza.args_view(), stanza.body@) is Some
            && r->Some_0.wf() && r->Some_0.epk@ == spec_parse(
            stanza.tag@,
            stanza.args_view(),
            stanza.body@,
        )->Some_0.0 && r->Some_0.encrypted_file_key@ == spec_parse(
            stanza.tag@,
            stanza.args_view(),
            stanza.body@,
        )->Some_0.1,
        r is None ==> spec_parse(stanza.tag@, stanza.args_view(), stanza.body@) is None,
{
    let tag = x25519_tag_bytes();
    if !bytes_eq(&stanza.tag, &tag) {
        return None;
    }
    if stanza.args.len() != 1 {
        return None;
    }
    proof {
        assert(stanza.args_view().len() == 1);
        assert(stanza.args_view()[0] =~= stanza.args@[0]@);
    }
    let decoded = b64_decode(&stanza.args[0]);
    match decoded {
        Some(epk) => {
            if epk.len() != 32 {
                return None;
            }
            if stanza.body.len() != 32 {
                return None;
            }
            Some(RecipientLine { epk, encrypted_file_key: copy_bytes(&stanza.body) })
        },
        None => None,
    }
}

/// Lays a line out in the canonical wire format; purely deterministic, with
/// no failure mode.
pub fn serialize_line(line: &RecipientLine) -> (r: Vec<u8>)
    ensures
        r@ == spec_serialize(line.epk@, line.encrypted_file_key@),
{
    let mut out = x25519_tag_bytes();
    out.push(32u8);
    proof {
        assert(out@ =~= x25519_tag() + seq![32u8]);
    }
    let epk_text = b64_encode(&line.epk);
    let mut out = concat_bytes(&out, &epk_text);
    out.push(10u8);
    proof {
        assert(out@ =~= x25519_tag() + seq![32u8] + spec_b64(line.epk@) + seq![10u8]);
    }
    let ct_text = b64_encode(&line.encrypted_file_key);
    let out = concat_bytes(&out, &ct_text);
    proof {
        assert(out@ =~= spec_serialize(line.epk@, line.encrypted_file_key@));
    }
    out
}

/// Parse selectivity: a stanza with any tag other than "X25519" is "not
/// applicable", whatever its arguments and body hold.
pub proof fn lemma_parse_selectivity(tag: Seq<u8>, args: Seq<Seq<u8>>, body: Seq<u8>)
    requires
        tag != x25519_tag(),
    ensures
        spec_parse(tag, args, body) is None,
{
}

/// Parse rejection: a stanza whose key argument does not decode to exactly 32
/// bytes, or whose body is not exactly 32 bytes, is "not applicable" even
/// under the right tag.
pub proof fn lemma_parse_rejection(tag: Seq<u8>, args: Seq<Seq<u8>>, body: Seq<u8>)
    requires
        args.len() == 1 ==> ((spec_b64_decode(args[0]) is Some
            ==> spec_b64_decode(args[0])->Some_0.len() != 32) || body.len() != 32),
    ensures
        spec_parse(tag, args, body) is None,
{
}

/// Serialization exactness: the stanza that the wire layout of a valid line
/// tokenizes back to (its tag, its one base64 argument, its decoded body)
/// parses to that same line, so serializing the parse of a serialization is
/// the serialization itself.
pub proof fn lemma_serialize_parse_round_trip(epk: Seq<u8>, ct: Seq<u8>)
    requires
        epk.len() == 32,
        ct.len() == 32,
    ensures
        spec_parse(x25519_tag(), seq![spec_b64(epk)], ct) == Some((epk, ct)),
        spec_serialize(
            spec_parse(x25519_tag(), seq![spec_b64(epk)], ct)->Some_0.0,
            spec_parse(x25519_tag(), seq![spec_b64(epk)], ct)->Some_0.1,
        ) == spec_serialize(epk, ct),
{
    lemma_b64_round_trip(epk);
}

} // verus!
