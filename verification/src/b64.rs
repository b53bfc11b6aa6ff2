//! The recipient type's canonical text encoding: standard base64 without
//! padding, strict on decode (an invalid byte, a lone trailing character or
//! non-zero trailing bits are rejected).

use vstd::prelude::*;

verus! {

/// The sextet value of a base64 alphabet byte, if it is one.
pub open spec fn b64_val_of(c: u8) -> Option<u8> {
    if 65 <= c && c <= 90 {
        Some((c - 65) as u8)
    } else if 97 <= c && c <= 122 {
        Some((c - 71) as u8)
    } else if 48 <= c && c <= 57 {
        Some((c + 4) as u8)
    } else if c == 43 {
        Some(62u8)
    } else if c == 47 {
        Some(63u8)
    } else {
        None
    }
}

/// The alphabet byte that stands for a sextet value.
pub open spec fn b64_char_of(v: u8) -> u8
    recommends
        v < 64,
{
    if v < 26 {
        (v + 65) as u8
    } else if v < 52 {
        (v + 71) as u8
    } else if v < 62 {
        (v - 4) as u8
    } else if v == 62 {
        43u8
    } else {
        47u8
    }
}

/// The padding-free base64 encoding of a byte string: each full 3-byte group
/// becomes 4 alphabet bytes; a 1- or 2-byte remainder becomes 2 or 3, with
/// the unused low bits of the last sextet zero.
pub open spec fn spec_b64(b: Seq<u8>) -> Seq<u8>
    decreases b.len(),
{
    if b.len() == 0 {
        Seq::empty()
    } else if b.len() == 1 {
        seq![b64_char_of(b[0] >> 2), b64_char_of((b[0] & 3) << 4)]
    } else if b.len() == 2 {
        seq![
            b64_char_of(b[0] >> 2),
            b64_char_of(((b[0] & 3) << 4) | (b[1] >> 4)),
            b64_char_of((b[1] & 15) << 2),
        ]
    } else {
        seq![
            b64_char_of(b[0] >> 2),
            b64_char_of(((b[0] & 3) << 4) | (b[1] >> 4)),
            b64_char_of(((b[1] & 15) << 2) | (b[2] >> 6)),
            b64_char_of(b[2] & 63),
        ] + spec_b64(b.skip(3))
    }
}

/// Strict decoding of padding-free base64: the inverse of `spec_b64` where
/// one exists, nothing for any string that is not a canonical encoding.
pub open spec fn spec_b64_decode(s: Seq<u8>) -> Option<Seq<u8>>
    decreases s.len(),
{
    if s.len() == 0 {
        Some(Seq::empty())
    } else if s.len() == 1 {
        None
    } else if s.len() == 2 {
        if b64_val_of(s[0]) is Some && b64_val_of(s[1]) is Some {
            let v0 = b64_val_of(s[0])->Some_0;
            let v1 = b64_val_of(s[1])->Some_0;
            if v1 & 15 == 0 {
                Some(seq![(v0 << 2) | (v1 >> 4)])
            } else {
                None
            }
        } else {
            None
        }
    } else if s.len() == 3 {
        if b64_val_of(s[0]) is Some && b64_val_of(s[1]) is Some && b64_val_of(s[2]) is Some {
            let v0 = b64_val_of(s[0])->Some_0;
            let v1 = b64_val_of(s[1])->Some_0;
            let v2 = b64_val_of(s[2])->Some_0;
            if v2 & 3 == 0 {
                Some(seq![(v0 << 2) | (v1 >> 4), ((v1 & 15) << 4) | (v2 >> 2)])
            } else {
                None
            }
        } else {
            None
        }
    } else {
        if b64_val_of(s[0]) is Some && b64_val_of(s[1]) is Some && b64_val_of(s[2]) is Some
            && b64_val_of(s[3]) is Some {
            let v0 = b64_val_of(s[0])->Some_0;
            let v1 = b64_val_of(s[1])->Some_0;
            let v2 = b64_val_of(s[2])->Some_0;
            let v3 = b64_val_of(s[3])->Some_0;
            match spec_b64_decode(s.skip(4)) {
                Some(rest) => Some(
                    seq![
                        (v0 << 2) | (v1 >> 4),
                        ((v1 & 15) << 4) | (v2 >> 2),
                        ((v2 & 3) << 6) | v3,
                    ] + rest,
                ),
                None => None,
            }
        } else {
            None
        }
    }
}

/// The alphabet map and its inverse agree: decoding the byte that stands for
/// a sextet gives the sextet back.
proof fn lemma_b64_char_val(v: u8)
    requires
        v < 64,
    ensures
        b64_val_of(b64_char_of(v)) == Some(v),
{
}

/// The sextets of a full 3-byte group are in range, and reassembling them
/// gives the group back.
proof fn lemma_group3(b0: u8, b1: u8, b2: u8)
    by (bit_vector)
    ensures
        (b0 >> 2) < 64,
        (((b0 & 3) << 4) | (b1 >> 4)) < 64,
        (((b1 & 15) << 2) | (b2 >> 6)) < 64,
        (b2 & 63) < 64,
        (((b0 >> 2) << 2) | ((((b0 & 3) << 4) | (b1 >> 4)) >> 4)) == b0,
        ((((((b0 & 3) << 4) | (b1 >> 4)) & 15) << 4) | ((((b1 & 15) << 2) | (b2 >> 6)) >> 2))
            == b1,
        ((((((b1 & 15) << 2) | (b2 >> 6)) & 3) << 6) | (b2 & 63)) == b2,
{
}

/// The same for a 1-byte remainder: its second sextet has zero trailing bits.
proof fn lemma_group1(b0: u8)
    by (bit_vector)
    ensures
        (b0 >> 2) < 64,
        ((b0 & 3) << 4) < 64,
        (((b0 & 3) << 4) & 15) == 0,
        (((b0 >> 2) << 2) | (((b0 & 3) << 4) >> 4)) == b0,
{
}

/// The same for a 2-byte remainder: its third sextet has zero trailing bits.
proof fn lemma_group2(b0: u8, b1: u8)
    by (bit_vector)
    ensures
        (b0 >> 2) < 64,
        (((b0 & 3) << 4) | (b1 >> 4)) < 64,
        ((b1 & 15) << 2) < 64,
        (((b1 & 15) << 2) & 3) == 0,
        (((b0 >> 2) << 2) | ((((b0 & 3) << 4) | (b1 >> 4)) >> 4)) == b0,
        ((((((b0 & 3) << 4) | (b1 >> 4)) & 15) << 4) | (((b1 & 15) << 2) >> 2)) == b1,
{
}

/// Decoding inverts encoding: every byte string comes back from its own
/// padding-free base64 encoding.
pub proof fn lemma_b64_round_trip(b: Seq<u8>)
    ensures
        spec_b64_decode(spec_b64(b)) == Some(b),
    decreases b.len(),
{
    if b.len() == 0 {
        assert(b =~= Seq::<u8>::empty());
    } else if b.len() == 1 {
        lemma_group1(b[0]);
        lemma_b64_char_val(b[0] >> 2);
        lemma_b64_char_val((b[0] & 3) << 4);
        assert(spec_b64_decode(spec_b64(b))->Some_0 =~= b);
    } else if b.len() == 2 {
        lemma_group2(b[0], b[1]);
        lemma_b64_char_val(b[0] >> 2);
        lemma_b64_char_val(((b[0] & 3) << 4) | (b[1] >> 4));
        lemma_b64_char_val((b[1] & 15) << 2);
        assert(spec_b64_decode(spec_b64(b))->Some_0 =~= b);
    } else {
        lemma_group3(b[0], b[1], b[2]);
        lemma_b64_char_val(b[0] >> 2);
        lemma_b64_char_val(((b[0] & 3) << 4) | (b[1] >> 4));
        lemma_b64_char_val(((b[1] & 15) << 2) | (b[2] >> 6));
        lemma_b64_char_val(b[2] & 63);
        lemma_b64_round_trip(b.skip(3));
        let s = spec_b64(b);
        assert(s.len() >= 4);
        assert(s.skip(4) =~= spec_b64(b.skip(3)));
        assert(spec_b64_decode(s)->Some_0 =~= b);
    }
}

/// The sextet value of an alphabet byte, or nothing for any other byte.
pub fn b64_val(c: u8) -> (r: Option<u8>)
    ensures
        r == b64_val_of(c),
{
    if 65 <= c && c <= 90 {
        Some(c - 65)
    } else if 97 <= c && c <= 122 {
        Some(c - 71)
    } else if 48 <= c && c <= 57 {
        Some(c + 4)
    } else if c == 43 {
        Some(62u8)
    } else if c == 47 {
        Some(63u8)
    } else {
        None
    }
}

/// The alphabet byte for a sextet value.
pub fn b64_char(v: u8) -> (r: u8)
    requires
        v < 64,
    ensures
        r == b64_char_of(v),
{
    if v < 26 {
        v + 65
    } else if v < 52 {
        v + 71
    } else if v < 62 {
        v - 4
    } else if v == 62 {
        43u8
    } else {
        47u8
    }
}

/// Encodes a byte string as padding-free base64.
pub fn b64_encode(bytes: &Vec<u8>) -> (r: Vec<u8>)
    ensures
        r@ == spec_b64(bytes@),
{
    let mut out: Vec<u8> = Vec::new();
    let mut i: usize = 0;
    proof {
        assert(bytes@.skip(0) =~= bytes@);
        assert(out@ + spec_b64(bytes@.skip(0)) =~= spec_b64(bytes@));
    }
    while bytes.len() - i >= 3
        invariant
            i <= bytes@.len(),
            spec_b64(bytes@) == out@ + spec_b64(bytes@.skip(i as int)),
        decreases bytes@.len() - i,
    {
        let b0 = bytes[i];
        let b1 = bytes[i + 1];
        let b2 = bytes[i + 2];
        proof {
            lemma_group3(b0, b1, b2);
        }
        out.push(b64_char(b0 >> 2));
        out.push(b64_char(((b0 & 3) << 4) | (b1 >> 4)));
        out.push(b64_char(((b1 & 15) << 2) | (b2 >> 6)));
        out.push(b64_char(b2 & 63));
        proof {
            let t = bytes@.skip(i as int);
            assert(t[0] == b0 && t[1] == b1 && t[2] == b2);
            assert(t.skip(3) =~= bytes@.skip(i + 3));
            assert(out@ =~= (out@.subrange(0, out@.len() - 4)) + seq![
                b64_char_of(b0 >> 2),
                b64_char_of(((b0 & 3) << 4) | (b1 >> 4)),
                b64_char_of(((b1 & 15) << 2) | (b2 >> 6)),
                b64_char_of(b2 & 63),
            ]);
            assert(spec_b64(bytes@) == out@ + spec_b64(bytes@.skip(i + 3)));
        }
        i = i + 3;
    }
    if bytes.len() - i == 1 {
        let b0 = bytes[i];
        proof {
            lemma_group1(b0);
        }
        out.push(b64_char(b0 >> 2));
        out.push(b64_char((b0 & 3) << 4));
        proof {
            let t = bytes@.skip(i as int);
            assert(t[0] == b0 && t.len() == 1);
            assert(out@ =~= (out@.subrange(0, out@.len() - 2)) + spec_b64(t));
        }
    } else if bytes.len() - i == 2 {
        let b0 = bytes[i];
        let b1 = bytes[i + 1];
        proof {
            lemma_group2(b0, b1);
        }
        out.push(b64_char(b0 >> 2));
        out.push(b64_char(((b0 & 3) << 4) | (b1 >> 4)));
        out.push(b64_char((b1 & 15) << 2));
        proof {
            let t = bytes@.skip(i as int);
            assert(t[0] == b0 && t[1] == b1 && t.len() == 2);
            assert(out@ =~= (out@.subrange(0, out@.len() - 3)) + spec_b64(t));
        }
    } else {
        proof {
            assert(bytes@.skip(i as int).len() == 0);
            assert(out@ =~= out@ + spec_b64(bytes@.skip(i as int)));
        }
    }
    out
}

/// Decodes strict padding-free base64; nothing for any string that is not a
/// canonical encoding.
pub fn b64_decode(s: &Vec<u8>) -> (r: Option<Vec<u8>>)
    ensures
        r is Some ==> spec_b64_decode(s@) == Some(r->Some_0@),
        r is None ==> spec_b64_decode(s@) is None,
{
    let mut out: Vec<u8> = Vec::new();
    let mut i: usize = 0;
    proof {
        assert(s@.skip(0) =~= s@);
    }
    while s.len() - i >= 4
        invariant
            i <= s@.len(),
            (spec_b64_decode(s@) is Some) == (spec_b64_decode(s@.skip(i as int)) is Some),
            spec_b64_decode(s@) is Some ==> spec_b64_decode(s@)->Some_0 == out@ + spec_b64_decode(
                s@.skip(i as int),
            )->Some_0,
        decreases s@.len() - i,
    {
        proof {
            let t = s@.skip(i as int);
            assert(t[0] == s@[i as int] && t[1] == s@[i + 1] && t[2] == s@[i + 2] && t[3] == s@[i
                + 3]);
            assert(t.skip(4) =~= s@.skip(i + 4));
        }
        let v0 = match b64_val(s[i]) {
            Some(v) => v,
            None => {
                return None;
            },
        };
        let v1 = match b64_val(s[i + 1]) {
            Some(v) => v,
            None => {
                return None;
            },
        };
        let v2 = match b64_val(s[i + 2]) {
            Some(v) => v,
            None => {
                return None;
            },
        };
        let v3 = match b64_val(s[i + 3]) {
            Some(v) => v,
            None => {
                return None;
            },
        };
        out.push((v0 << 2) | (v1 >> 4));
        out.push(((v1 & 15) << 4) | (v2 >> 2));
        out.push(((v2 & 3) << 6) | v3);
        proof {
            let t = s@.skip(i as int);
            if spec_b64_decode(t.skip(4)) is Some {
                assert(out@ =~= (out@.subrange(0, out@.len() - 3)) + seq![
                    (v0 << 2) | (v1 >> 4),
                    ((v1 & 15) << 4) | (v2 >> 2),
                    ((v2 & 3) << 6) | v3,
                ]);
                assert(spec_b64_decode(s@) is Some ==> spec_b64_decode(s@)->Some_0 == out@
                    + spec_b64_decode(s@.skip(i + 4))->Some_0);
            }
        }
        i = i + 4;
    }
    let rem = s.len() - i;
    if rem == 0 {
        proof {
            assert(s@.skip(i as int).len() == 0);
            assert(spec_b64_decode(s@)->Some_0 =~= out@ + spec_b64_decode(s@.skip(i as int))->Some_0);
        }
        Some(out)
    } else if rem == 1 {
        None
    } else if rem == 2 {
        proof {
            let t = s@.skip(i as int);
            assert(t.len() == 2 && t[0] == s@[i as int] && t[1] == s@[i + 1]);
        }
        let v0 = match b64_val(s[i]) {
            Some(v) => v,
            None => {
                return None;
            },
        };
        let v1 = match b64_val(s[i + 1]) {
            Some(v) => v,
            None => {
                return None;
            },
        };
        if v1 & 15 != 0 {
            return None;
        }
        out.push((v0 << 2) | (v1 >> 4));
        proof {
            assert(spec_b64_decode(s@)->Some_0 =~= out@);
        }
        Some(out)
    } else {
        proof {
            let t = s@.skip(i as int);
            assert(t.len() == 3 && t[0] == s@[i as int] && t[1] == s@[i + 1] && t[2] == s@[i + 2]);
        }
        let v0 = match b64_val(s[i]) {
            Some(v) => v,
            None => {
                return None;
            },
        };
        let v1 = match b64_val(s[i + 1]) {
            Some(v) => v,
            None => {
                return None;
            },
        };
        let v2 = match b64_val(s[i + 2]) {
            Some(v) => v,
            None => {
                return None;
            },
        };
        if v2 & 3 != 0 {
            return None;
        }
        out.push((v0 << 2) | (v1 >> 4));
        out.push(((v1 & 15) << 4) | (v2 >> 2));
        proof {
            assert(spec_b64_decode(s@)->Some_0 =~= out@);
        }
        Some(out)
    }
}

} // verus!
