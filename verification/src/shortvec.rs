//! The compact length prefix of the wire format.
//!
//! Element counts are encoded in one to three bytes: each byte carries seven
//! low-order bits of the value, least significant group first, and its top
//! bit says whether another byte follows.  Only canonical encodings are
//! accepted when reading: a continuation may not be followed by a zero byte,
//! a third byte may not continue further, and the value must fit sixteen
//! bits.

use vstd::prelude::*;

verus! {

/// The canonical compact encoding of a sixteen-bit count.
pub open spec fn compact_u16_enc(n: u16) -> Seq<u8> {
    if n < 0x80 {
        seq![n as u8]
    } else if n < 0x4000 {
        seq![((n % 0x80) + 0x80) as u8, (n / 0x80) as u8]
    } else {
        seq![
            ((n % 0x80) + 0x80) as u8,
            (((n / 0x80) % 0x80) + 0x80) as u8,
            (n / 0x4000) as u8,
        ]
    }
}

/// Reads a compact count at offset `i` of `s`; yields the value and the
/// offset just past it.  Rejects truncated input, non-canonical encodings
/// (a zero continuation byte), a third byte that continues further, and
/// values beyond sixteen bits.
pub open spec fn parse_compact_u16(s: Seq<u8>, i: int) -> Option<(u16, int)> {
    if i < 0 || i >= s.len() {
        None
    } else {
        let b0 = s[i];
        if b0 < 0x80 {
            Some((b0 as u16, i + 1))
        } else if i + 1 >= s.len() {
            None
        } else {
            let b1 = s[i + 1];
            if b1 == 0 {
                None
            } else if b1 < 0x80 {
                Some((((b0 as int % 0x80) + (b1 as int) * 0x80) as u16, i + 2))
            } else if i + 2 >= s.len() {
                None
            } else {
                let b2 = s[i + 2];
                if 1 <= b2 && b2 <= 3 {
                    Some((
                        ((b0 as int % 0x80) + (b1 as int % 0x80) * 0x80 + (b2 as int) * 0x4000)
                            as u16,
                        i + 3,
                    ))
                } else {
                    None
                }
            }
        }
    }
}

/// Reading a canonical encoding embedded in a larger sequence yields the
/// encoded value and consumes exactly the encoding.
pub proof fn lemma_parse_compact_u16(s: Seq<u8>, i: int, n: u16)
    requires
        0 <= i,
        i + compact_u16_enc(n).len() <= s.len(),
        s.subrange(i, i + compact_u16_enc(n).len() as int) == compact_u16_enc(n),
    ensures
        parse_compact_u16(s, i) == Some((n, i + compact_u16_enc(n).len() as int)),
{
    let e = compact_u16_enc(n);
    assert forall|k: int| 0 <= k < e.len() implies s[i + k] == e[k] by {
        assert(s.subrange(i, i + e.len() as int)[k] == s[i + k]);
    }
    assert(s[i + 0] == e[0]);
    if n < 0x80 {
        assert(s[i] == n as u8);
    } else if n < 0x4000 {
        assert(s[i + 1] == e[1]);
        assert(s[i] == ((n % 0x80) + 0x80) as u8);
        assert(s[i + 1] == (n / 0x80) as u8);
        assert(n / 0x80 >= 1);
        assert((s[i] as int % 0x80) + (s[i + 1] as int) * 0x80 == n);
    } else {
        assert(s[i + 1] == e[1]);
        assert(s[i + 2] == e[2]);
        assert(s[i] == ((n % 0x80) + 0x80) as u8);
        assert(s[i + 1] == (((n / 0x80) % 0x80) + 0x80) as u8);
        assert(s[i + 2] == (n / 0x4000) as u8);
        assert(1 <= n / 0x4000 && n / 0x4000 <= 3);
        assert((s[i] as int % 0x80) + (s[i + 1] as int % 0x80) * 0x80 + (s[i + 2] as int) * 0x4000
            == n);
    }
}

/// Appends the canonical compact encoding of `n`.
pub fn push_compact_u16(out: &mut Vec<u8>, n: u16)
    ensures
        final(out)@ == old(out)@ + compact_u16_enc(n),
{
    if n < 0x80 {
        out.push(n as u8);
    } else if n < 0x4000 {
        out.push(((n % 0x80) + 0x80) as u8);
        out.push((n / 0x80) as u8);
    } else {
        out.push(((n % 0x80) + 0x80) as u8);
        out.push((((n / 0x80) % 0x80) + 0x80) as u8);
        out.push((n / 0x4000) as u8);
    }
    assert(final(out)@ =~= old(out)@ + compact_u16_enc(n));
}

/// Reads a compact count from `s` below `end`, mirroring
/// `parse_compact_u16` on `s` restricted to `end`.
pub fn read_compact_u16(s: &Vec<u8>, end: usize, i: usize) -> (r: Option<(u16, usize)>)
    requires
        i <= end,
        end <= s@.len(),
    ensures
        match r {
            None => parse_compact_u16(s@.subrange(0, end as int), i as int) is None,
            Some((v, j)) => parse_compact_u16(s@.subrange(0, end as int), i as int) == Some(
                (v, j as int),
            ) && i < j <= end,
        },
{
    let ghost sub = s@.subrange(0, end as int);
    if i >= end {
        return None;
    }
    let b0 = s[i];
    assert(sub[i as int] == b0);
    if b0 < 0x80 {
        Some((b0 as u16, i + 1))
    } else if i + 1 >= end {
        None
    } else {
        let b1 = s[i + 1];
        assert(sub[i as int + 1] == b1);
        if b1 == 0 {
            None
        } else if b1 < 0x80 {
            Some(((b0 % 0x80) as u16 + (b1 as u16) * 0x80, i + 2))
        } else if i + 2 >= end {
            None
        } else {
            let b2 = s[i + 2];
            assert(sub[i as int + 2] == b2);
            if 1 <= b2 && b2 <= 3 {
                Some((
                    (b0 % 0x80) as u16 + ((b1 % 0x80) as u16) * 0x80 + (b2 as u16) * 0x4000,
                    i + 3,
                ))
            } else {
                None
            }
        }
    }
}

} // verus!
