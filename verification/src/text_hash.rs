//! Hashes that key the text-render cache: FNV-1a over the text bytes with
//! the style folded in, finished with the murmur3 64-bit avalanche; and the
//! index of measured text widths keyed by them.

use vstd::prelude::*;

use vstd::string::StringSliceAdditionalSpecFns;

use std::collections::HashMap;

use crate::strs::str_eq;

verus! {

pub open spec fn wmul(a: u64, b: u64) -> u64 {
    ((a as int * b as int) % 0x1_0000_0000_0000_0000) as u64
}

/// murmur3 fmix64.
pub open spec fn spec_mix(h0: u64) -> u64 {
    let h1 = h0 ^ (h0 >> 33u64);
    let h2 = wmul(h1, 0xff51_afd7_ed55_8ccd);
    let h3 = h2 ^ (h2 >> 33u64);
    let h4 = wmul(h3, 0xc4ce_b9fe_1a85_ec53);
    h4 ^ (h4 >> 33u64)
}

pub const FNV_OFFSET: u64 = 0xcbf2_9ce4_8422_2325;

pub const FNV_PRIME: u64 = 0x0000_0100_0000_01b3;

/// FNV-1a over `bytes`, starting from `h`.
pub open spec fn fnv1a(h: u64, bytes: Seq<u8>) -> u64
    decreases bytes.len(),
{
    if bytes.len() == 0 {
        h
    } else {
        fnv1a(wmul(h ^ (bytes[0] as u64), FNV_PRIME), bytes.drop_first())
    }
}

/// Hash of a glyph run: FNV-1a of the UTF-8 bytes, then the style bits
/// `size << 1 | bold` folded in, then the avalanche.
pub open spec fn spec_hash_run(bytes: Seq<u8>, size: u16, bold: bool) -> u64 {
    let h = fnv1a(FNV_OFFSET, bytes);
    let style = ((size as u64) << 1u64) | (if bold { 1u64 } else { 0u64 });
    spec_mix(wmul(h ^ style, FNV_PRIME))
}

/// Texture key: the run hash combined with the big-endian RGBA colour.
pub open spec fn spec_hash_key(run: u64, color: (u8, u8, u8, u8)) -> u64 {
    let c = (color.0 as u64) * 0x100_0000 + (color.1 as u64) * 0x1_0000 + (color.2 as u64) * 0x100
        + (color.3 as u64);
    spec_mix(run ^ wmul(c as u64, 0x9e37_79b9_7f4a_7c15))
}

/// Final avalanche (murmur3 fmix64) so the low bits used for bucket
/// selection are well distributed.
pub fn mix(h: u64) -> (r: u64)
    ensures
        r == spec_mix(h),
{
    let mut h = h;
    h = h ^ (h >> 33);
    h = h.wrapping_mul(0xff51_afd7_ed55_8ccd);
    h = h ^ (h >> 33);
    h = h.wrapping_mul(0xc4ce_b9fe_1a85_ec53);
    h ^ (h >> 33)
}

/// Hash of a glyph run: (text, size, bold). Colour-independent, so it
/// doubles as the width-index key.
pub fn hash_run(text: &str, size: u16, bold: bool) -> (r: u64)
    ensures
        r == spec_hash_run(text.spec_bytes(), size, bold),
{
    let bytes = text.as_bytes();
    let mut h: u64 = FNV_OFFSET;
    let mut i: usize = 0;
    assert(bytes@.skip(0) =~= bytes@);
    while i < bytes.len()
        invariant
            bytes@ == text.spec_bytes(),
            i <= bytes@.len(),
            fnv1a(FNV_OFFSET, bytes@) == fnv1a(h, bytes@.skip(i as int)),
        decreases bytes@.len() - i,
    {
        proof {
            assert(bytes@.skip(i as int)[0] == bytes@[i as int]);
            assert(bytes@.skip(i as int).drop_first() =~= bytes@.skip(i as int + 1));
        }
        h = h ^ (bytes[i] as u64);
        h = h.wrapping_mul(FNV_PRIME);
        i += 1;
    }
    assert(bytes@.skip(i as int).len() == 0);
    h = h ^ (((size as u64) << 1) | (bold as u64));
    h = h.wrapping_mul(FNV_PRIME);
    mix(h)
}

/// Texture key: the run hash combined with the colour.
pub fn hash_key(run: u64, color: (u8, u8, u8, u8)) -> (r: u64)
    ensures
        r == spec_hash_key(run, color),
{
    let c = (color.0 as u64) * 0x100_0000 + (color.1 as u64) * 0x1_0000 + (color.2 as u64) * 0x100
        + (color.3 as u64);
    mix(run ^ c.wrapping_mul(0x9e37_79b9_7f4a_7c15))
}

/// Entries the width index holds before it is dropped and rebuilt.
pub const MAX_WIDTH_ENTRIES: usize = 2048;

/// A measured width, with the full key kept to tell hash collisions apart.
#[derive(Debug)]
pub struct CachedWidth {
    pub width: u32,
    pub text: String,
    pub size: u16,
    pub bold: bool,
}

/// Widths of measured glyph runs, keyed by [`hash_run`]. It learns every
/// string measured, drawn or not; when full it is simply emptied.
pub struct WidthIndex {
    widths: HashMap<u64, CachedWidth>,
}

impl View for WidthIndex {
    type V = Map<u64, CachedWidth>;

    closed spec fn view(&self) -> Map<u64, CachedWidth> {
        self.widths@
    }
}

/// The entry under `run` is for this very run.
pub open spec fn entry_matches(e: CachedWidth, text: Seq<char>, size: u16, bold: bool) -> bool {
    e.size == size && e.bold == bold && e.text@ == text
}

impl WidthIndex {
    /// An empty index.
    pub fn new() -> (w: Self)
        ensures
            w@ == Map::<u64, CachedWidth>::empty(),
    {
        WidthIndex { widths: HashMap::new() }
    }

    /// Runs remembered.
    pub fn len(&self) -> (n: usize)
        ensures
            n == self@.len(),
    {
        broadcast use vstd::std_specs::hash::group_hash_axioms;
        self.widths.len()
    }

    /// The width remembered for this run, if its entry is for the same
    /// text, size and face.
    pub fn lookup(&self, run: u64, text: &str, size: u16, bold: bool) -> (r: Option<u32>)
        ensures
            r == (if self@.contains_key(run) && entry_matches(self@[run], text@, size, bold) {
                Some(self@[run].width)
            } else {
                None
            }),
    {
        broadcast use vstd::std_specs::hash::group_hash_axioms;
        match self.widths.get(&run) {
            Some(e) => {
                if e.size == size && e.bold == bold && str_eq(e.text.as_str(), text) {
                    Some(e.width)
                } else {
                    None
                }
            },
            None => None,
        }
    }

    /// Remember a measured width. A run already present keeps its entry;
    /// a full index is emptied first.
    pub fn remember(&mut self, run: u64, text: &str, size: u16, bold: bool, width: u32)
        requires
            old(self)@.len() <= MAX_WIDTH_ENTRIES,
        ensures
            final(self)@.len() <= MAX_WIDTH_ENTRIES,
            old(self)@.contains_key(run) ==> final(self)@ == old(self)@,
            !old(self)@.contains_key(run) ==> {
                let base = if old(self)@.len() >= MAX_WIDTH_ENTRIES {
                    Map::<u64, CachedWidth>::empty()
                } else {
                    old(self)@
                };
                &&& final(self)@.dom() == base.dom().insert(run)
                &&& forall|k: u64| #[trigger] base.contains_key(k) ==> final(self)@[k] == base[k]
                &&& final(self)@[run].width == width
                &&& entry_matches(final(self)@[run], text@, size, bold)
            },
    {
        broadcast use vstd::std_specs::hash::group_hash_axioms;
        if self.widths.contains_key(&run) {
            return;
        }
        if self.widths.len() >= MAX_WIDTH_ENTRIES {
            self.widths.clear();
        }
        let ghost base = self.widths@;
        self.widths.insert(run, CachedWidth { width, text: text.to_owned(), size, bold });
        proof {
            assert(self.widths@ == base.insert(run, self.widths@[run]));
            assert(self.widths@.dom() =~= base.dom().insert(run));
            assert(!base.contains_key(run));
            assert(base.dom().finite());
            assert(self.widths@.len() == base.len() + 1);
        }
    }
}

} // verus!
