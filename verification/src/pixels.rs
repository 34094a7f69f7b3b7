//! RGBA pixels and the conversions between pixel vectors and their raw
//! byte-per-channel form.

use vstd::prelude::*;

verus! {

/// One pixel, one byte per channel.
#[derive(Clone, Copy, Debug, PartialEq, Eq, Structural)]
pub struct Rgba {
    /// Red channel.
    pub r: u8,
    /// Green channel.
    pub g: u8,
    /// Blue channel.
    pub b: u8,
    /// Alpha channel; zero means fully transparent.
    pub a: u8,
}

/// The fully transparent pixel.
pub open spec fn clear_px() -> Rgba {
    Rgba { r: 0, g: 0, b: 0, a: 0 }
}

/// The raw byte form of a pixel sequence: four bytes per pixel, in r, g, b, a
/// order.
pub open spec fn bytes_of(s: Seq<Rgba>) -> Seq<u8> {
    Seq::new(
        4 * s.len(),
        |i: int|
            if i % 4 == 0 {
                s[i / 4].r
            } else if i % 4 == 1 {
                s[i / 4].g
            } else if i % 4 == 2 {
                s[i / 4].b
            } else {
                s[i / 4].a
            },
    )
}

/// The pixel sequence read out of raw bytes, four bytes per pixel.
pub open spec fn rgba_of(b: Seq<u8>) -> Seq<Rgba> {
    Seq::new(
        b.len() / 4,
        |i: int| Rgba { r: b[4 * i], g: b[4 * i + 1], b: b[4 * i + 2], a: b[4 * i + 3] },
    )
}

/// Flattens pixels into their raw byte form.
pub fn rgba_to_bytes(p: &Vec<Rgba>) -> (out: Vec<u8>)
    ensures
        out@ == bytes_of(p@),
{
    let mut out: Vec<u8> = Vec::new();
    let mut i: usize = 0;
    while i < p.len()
        invariant
            i <= p@.len(),
            out@ == bytes_of(p@.take(i as int)),
        decreases p@.len() - i,
    {
        let px = p[i];
        out.push(px.r);
        out.push(px.g);
        out.push(px.b);
        out.push(px.a);
        proof {
            let t0 = p@.take(i as int);
            let t1 = p@.take(i + 1);
            assert forall|j: int| 0 <= j < 4 * t1.len() implies bytes_of(t1)[j] == bytes_of(
                t0,
            ).push(px.r).push(px.g).push(px.b).push(px.a)[j] by {
                assert(t1[j / 4] == p@[j / 4]);
                if j < 4 * i {
                    assert(t0[j / 4] == p@[j / 4]);
                } else {
                    assert(j / 4 == i as int);
                }
            }
            assert(bytes_of(t1) =~= bytes_of(t0).push(px.r).push(px.g).push(px.b).push(px.a));
        }
        i = i + 1;
    }
    proof {
        assert(p@.take(p@.len() as int) =~= p@);
    }
    out
}

/// Groups raw bytes, four per pixel, back into pixels.
pub fn bytes_to_rgba(b: &Vec<u8>) -> (out: Vec<Rgba>)
    requires
        b@.len() % 4 == 0,
    ensures
        out@ == rgba_of(b@),
        out@.len() * 4 == b@.len(),
{
    let mut out: Vec<Rgba> = Vec::new();
    let mut i: usize = 0;
    while i < b.len()
        invariant
            i <= b@.len(),
            i % 4 == 0,
            out@ == rgba_of(b@.take(i as int)),
            b@.len() % 4 == 0,
        decreases b@.len() - i,
    {
        proof {
            assert(i + 4 <= b@.len()) by {
                assert((b@.len() - i) % 4 == 0);
            }
        }
        let px = Rgba { r: b[i], g: b[i + 1], b: b[i + 2], a: b[i + 3] };
        out.push(px);
        proof {
            let t0 = b@.take(i as int);
            let t1 = b@.take(i + 4);
            assert(t1.len() / 4 == t0.len() / 4 + 1);
            assert forall|j: int| 0 <= j < t1.len() / 4 implies rgba_of(t1)[j] == rgba_of(
                t0,
            ).push(px)[j] by {
                assert(t1[4 * j] == b@[4 * j]);
                assert(t1[4 * j + 1] == b@[4 * j + 1]);
                assert(t1[4 * j + 2] == b@[4 * j + 2]);
                assert(t1[4 * j + 3] == b@[4 * j + 3]);
                if j < t0.len() / 4 {
                    assert(t0[4 * j] == b@[4 * j]);
                    assert(t0[4 * j + 1] == b@[4 * j + 1]);
                    assert(t0[4 * j + 2] == b@[4 * j + 2]);
                    assert(t0[4 * j + 3] == b@[4 * j + 3]);
                } else {
                    assert(4 * j == i as int);
                }
            }
            assert(rgba_of(t1) =~= rgba_of(t0).push(px));
        }
        i = i + 4;
    }
    proof {
        assert(b@.take(b@.len() as int) =~= b@);
    }
    out
}

} // verus!
