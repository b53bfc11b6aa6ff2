use age_x25519::b64::{b64_decode, b64_encode};
use age_x25519::keys::{FileKey, StaticSecret};
use age_x25519::recipient::RecipientLine;
use age_x25519::stanza::{parse_stanza, serialize_line, x25519_tag_bytes, Stanza};

use base64::engine::general_purpose::STANDARD_NO_PAD;
use base64::Engine;

fn stanza(tag: &[u8], args: Vec<Vec<u8>>, body: Vec<u8>) -> Stanza {
    Stanza { tag: tag.to_vec(), args, body }
}

fn sample_line() -> RecipientLine {
    let epk: Vec<u8> = (0u8..32).collect();
    let ct: Vec<u8> = (100u8..132).collect();
    RecipientLine { epk, encrypted_file_key: ct }
}

#[test]
fn serialize_layout() {
    let line = sample_line();
    let wire = serialize_line(&line);
    let mut expected = b"X25519 ".to_vec();
    expected.extend_from_slice(STANDARD_NO_PAD.encode(&line.epk).as_bytes());
    expected.push(b'\n');
    expected.extend_from_slice(STANDARD_NO_PAD.encode(&line.encrypted_file_key).as_bytes());
    assert_eq!(wire, expected);
}

#[test]
fn parse_accepts_own_serialization() {
    let line = sample_line();
    let st = stanza(
        b"X25519",
        vec![b64_encode(&line.epk)],
        line.encrypted_file_key.clone(),
    );
    let parsed = parse_stanza(&st).expect("a well-formed stanza parses");
    assert_eq!(parsed.epk, line.epk);
    assert_eq!(parsed.encrypted_file_key, line.encrypted_file_key);
    assert_eq!(serialize_line(&parsed), serialize_line(&line));
}

#[test]
fn parse_rejects_wrong_key_lengths() {
    for n in [31usize, 33] {
        let key_arg = b64_encode(&vec![1u8; n]);
        let st = stanza(b"X25519", vec![key_arg], vec![0u8; 32]);
        assert!(parse_stanza(&st).is_none());
    }
}

#[test]
fn parse_rejects_wrong_body_lengths() {
    for n in [31usize, 33] {
        let key_arg = b64_encode(&vec![1u8; 32]);
        let st = stanza(b"X25519", vec![key_arg], vec![0u8; n]);
        assert!(parse_stanza(&st).is_none());
    }
}

#[test]
fn parse_rejects_wrong_argument_count() {
    let key_arg = b64_encode(&vec![1u8; 32]);
    let st = stanza(b"X25519", vec![], vec![0u8; 32]);
    assert!(parse_stanza(&st).is_none());
    let st = stanza(
        b"X25519",
        vec![key_arg.clone(), key_arg],
        vec![0u8; 32],
    );
    assert!(parse_stanza(&st).is_none());
}

#[test]
fn parse_rejects_foreign_tags() {
    let key_arg = b64_encode(&vec![1u8; 32]);
    for tag in [&b"scrypt"[..], b"x25519", b"X2551", b"X255199", b""] {
        let st = stanza(tag, vec![key_arg.clone()], vec![0u8; 32]);
        assert!(parse_stanza(&st).is_none());
    }
}

#[test]
fn parse_rejects_bad_base64() {
    let st = stanza(b"X25519", vec![b"!!!!".to_vec()], vec![0u8; 32]);
    assert!(parse_stanza(&st).is_none());
}

#[test]
fn tag_bytes_spell_the_identifier() {
    assert_eq!(x25519_tag_bytes(), b"X25519".to_vec());
}

#[test]
fn base64_known_vectors() {
    let cases: [(&[u8], &[u8]); 6] = [
        (b"", b""),
        (b"f", b"Zg"),
        (b"fo", b"Zm8"),
        (b"foo", b"Zm9v"),
        (b"foob", b"Zm9vYg"),
        (b"fooba", b"Zm9vYmE"),
    ];
    for (plain, encoded) in cases {
        assert_eq!(b64_encode(&plain.to_vec()), encoded.to_vec());
        assert_eq!(b64_decode(&encoded.to_vec()), Some(plain.to_vec()));
    }
}

#[test]
fn base64_matches_reference_engine() {
    let mut bytes: Vec<u8> = Vec::new();
    for i in 0..67u32 {
        assert_eq!(
            b64_encode(&bytes),
            STANDARD_NO_PAD.encode(&bytes).into_bytes(),
            "length {}",
            bytes.len()
        );
        bytes.push((i * 37 + 11) as u8);
    }
}

#[test]
fn base64_decode_round_trips_reference_encoding() {
    let bytes: Vec<u8> = (0u8..=255).collect();
    let encoded = STANDARD_NO_PAD.encode(&bytes).into_bytes();
    assert_eq!(b64_decode(&encoded), Some(bytes));
}

#[test]
fn base64_decode_rejects_junk() {
    assert_eq!(b64_decode(&b"A".to_vec()), None);
    assert_eq!(b64_decode(&b"AAAAA".to_vec()), None);
    assert_eq!(b64_decode(&b"====".to_vec()), None);
    assert_eq!(b64_decode(&b"Zg==".to_vec()), None);
    assert_eq!(b64_decode(&b"Zm9v\n".to_vec()), None);
    // Non-zero trailing bits are not canonical.
    assert_eq!(b64_decode(&b"Zh".to_vec()), None);
    assert_eq!(b64_decode(&b"Zm9".to_vec()), None);
}

#[test]
fn full_pipeline_over_the_wire() {
    let sk = StaticSecret { bytes: vec![23u8; 32] };
    let fk = FileKey { bytes: vec![200u8; 16] };
    let line = RecipientLine::wrap_file_key(&fk, &sk.public_key());

    // Lay the line out, then play the external tokenizer: split the first
    // wire line into tag and argument at the space, and hand the body over
    // base64-decoded, as the generic stanza reader does.
    let wire = serialize_line(&line);
    let text = String::from_utf8(wire).expect("the wire form is ASCII");
    let mut lines = text.lines();
    let first = lines.next().expect("a tag line");
    let body_text = lines.next().expect("a body line");
    assert!(lines.next().is_none());
    let mut words = first.split(' ');
    let tag = words.next().expect("a tag").as_bytes().to_vec();
    let arg = words.next().expect("one argument").as_bytes().to_vec();
    assert!(words.next().is_none());
    let body = STANDARD_NO_PAD.decode(body_text).expect("a base64 body");

    let st = Stanza { tag, args: vec![arg], body };
    let parsed = parse_stanza(&st).expect("our own stanza parses");
    assert_eq!(parsed.epk, line.epk);
    assert_eq!(parsed.encrypted_file_key, line.encrypted_file_key);
    let recovered = parsed.unwrap_file_key(&sk).expect("our own line unwraps");
    assert_eq!(recovered.bytes, fk.bytes);
}
