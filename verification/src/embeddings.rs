//! The integer side of the deterministic mock embedder: its dimension and
//! model tag, the word tokenizer, the stable FNV-1a hash, and where a hashed
//! feature lands. The floating-point accumulation and normalization are not
//! part of this crate.

use vstd::prelude::*;
use vstd::utf8::encode_utf8;
use crate::text::{chars_of, push_str, string_from_chars, to_lowercase, unicode_lower};

verus! {

/// Deterministic, offline pseudo-embedder: every lowercase word and every
/// character 3-gram of it is hashed into one of `dim` buckets.
#[derive(Debug, Clone)]
pub struct MockEmbedder {
    dim: usize,
}

impl MockEmbedder {
    pub closed spec fn spec_dim(&self) -> usize {
        self.dim
    }

    /// A mock embedder producing `dim`-dimensional vectors; `dim` is clamped
    /// to at least 1.
    pub fn new(dim: usize) -> (r: Self)
        ensures
            r.spec_dim() == if dim >= 1 { dim } else { 1 },
    {
        MockEmbedder { dim: if dim >= 1 { dim } else { 1 } }
    }

    /// Dimensionality of the vectors (never 0).
    pub fn dim(&self) -> (r: usize)
        ensures
            r == self.spec_dim(),
    {
        self.dim
    }

    /// The stable model identifier, `mock-v1/<dim>`.
    pub fn model_tag(&self) -> (r: String)
        ensures
            r@ == "mock-v1/"@ + decimal(self.spec_dim() as nat),
    {
        let mut out: Vec<char> = Vec::new();
        push_str(&mut out, "mock-v1/");
        let d = decimal_chars(self.dim);
        crate::text::push_chars(&mut out, d.as_slice());
        string_from_chars(out.as_slice())
    }
}

impl Default for MockEmbedder {
    /// The default mock embedder: 64 dimensions.
    fn default() -> (r: Self)
        ensures
            r.spec_dim() == 64,
    {
        MockEmbedder::new(64)
    }
}

/// The decimal digits of `n` (no sign, no leading zeros; `0` is "0").
pub open spec fn decimal(n: nat) -> Seq<char>
    decreases n,
{
    if n < 10 {
        seq![digit_char(n)]
    } else {
        decimal(n / 10).push(digit_char(n % 10))
    }
}

pub open spec fn digit_char(d: nat) -> char {
    ((d + 48) as u8) as char
}

pub(crate) fn decimal_chars(n: usize) -> (r: Vec<char>)
    ensures
        r@ == decimal(n as nat),
    decreases n,
{
    if n < 10 {
        let c = ((n as u8) + 48) as char;
        vec![c]
    } else {
        let mut v = decimal_chars(n / 10);
        let c = (((n % 10) as u8) + 48) as char;
        v.push(c);
        v
    }
}

/// The FNV-1a 64-bit offset basis.
pub const FNV_OFFSET: u64 = 0xcbf2_9ce4_8422_2325;

/// The FNV-1a 64-bit prime.
pub const FNV_PRIME: u64 = 0x0000_0100_0000_01b3;

/// FNV-1a over `bytes`: start from the offset basis; for each byte, xor it in
/// and multiply by the prime modulo 2^64.
pub open spec fn fnv1a_spec(bytes: Seq<u8>) -> u64
    decreases bytes.len(),
{
    if bytes.len() == 0 {
        FNV_OFFSET
    } else {
        let h = fnv1a_spec(bytes.drop_last()) ^ (bytes.last() as u64);
        ((h as nat * FNV_PRIME as nat) % 0x1_0000_0000_0000_0000) as u64
    }
}

/// Stable FNV-1a 64-bit hash (fixed constants, reproducible everywhere).
pub fn fnv1a(bytes: &[u8]) -> (r: u64)
    ensures
        r == fnv1a_spec(bytes@),
{
    let mut hash: u64 = FNV_OFFSET;
    let mut i: usize = 0;
    assert(bytes@.take(0) =~= Seq::<u8>::empty());
    while i < bytes.len()
        invariant
            i <= bytes@.len(),
            hash == fnv1a_spec(bytes@.take(i as int)),
        decreases bytes@.len() - i,
    {
        hash = hash ^ (bytes[i] as u64);
        hash = hash.wrapping_mul(FNV_PRIME);
        i = i + 1;
        assert(bytes@.take(i as int).drop_last() =~= bytes@.take(i - 1));
    }
    assert(bytes@.take(bytes@.len() as int) =~= bytes@);
    hash
}

/// Where a hashed feature lands: bucket `hash mod dim`, added with a positive
/// sign when the top bit of the hash is set and a negative one otherwise.
pub fn feature_slot(hash: u64, dim: usize) -> (r: (usize, bool))
    requires
        dim > 0,
    ensures
        r.0 == hash as nat % dim as nat,
        r.1 == (hash >= 0x8000_0000_0000_0000),
{
    let bucket = (hash % (dim as u64)) as usize;
    let positive = (hash >> 63) & 1 == 1;
    assert(((hash >> 63) & 1 == 1) == (hash >= 0x8000_0000_0000_0000)) by (bit_vector);
    (bucket, positive)
}

/// Unicode `Alphabetic` or `Numeric` (`char::is_alphanumeric`), from the
/// Unicode tables.
pub uninterp spec fn unicode_alphanumeric(c: char) -> bool;

/// `char::is_alphanumeric`.
#[verifier::external_body]
fn is_alphanumeric(c: char) -> (r: bool)
    ensures
        r == unicode_alphanumeric(c),
{
    c.is_alphanumeric()
}

/// Tokenizer state: finished words and the word being built.
pub type WordState = (Seq<Seq<char>>, Seq<char>);

/// The words of `s` (maximal runs of alphanumeric characters), before
/// lowercasing.
pub open spec fn word_fold(s: Seq<char>) -> WordState
    decreases s.len(),
{
    if s.len() == 0 {
        (Seq::empty(), Seq::empty())
    } else {
        let st = word_fold(s.drop_last());
        if unicode_alphanumeric(s.last()) {
            (st.0, st.1.push(s.last()))
        } else if st.1.len() > 0 {
            (st.0.push(st.1), Seq::empty())
        } else {
            st
        }
    }
}

/// The lowercase words of `s`.
pub open spec fn words_spec(s: Seq<char>) -> Seq<Seq<char>> {
    let st = word_fold(s);
    let ws = if st.1.len() > 0 {
        st.0.push(st.1)
    } else {
        st.0
    };
    ws.map_values(|w: Seq<char>| unicode_lower(w))
}

/// Split into lowercase alphanumeric word tokens.
pub fn tokenize(text: &str) -> (r: Vec<String>)
    ensures
        r@.map_values(|s: String| s@) == words_spec(text@),
{
    let chars = chars_of(text);
    let mut words: Vec<Vec<char>> = Vec::new();
    let mut current: Vec<char> = Vec::new();
    let mut i: usize = 0;
    assert(chars@.take(0) =~= Seq::<char>::empty());
    assert(words@.map_values(|w: Vec<char>| w@) =~= Seq::<Seq<char>>::empty());
    while i < chars.len()
        invariant
            i <= chars@.len(),
            word_fold(chars@.take(i as int)) == (words@.map_values(|w: Vec<char>| w@), current@),
        decreases chars@.len() - i,
    {
        let c = chars[i];
        assert(chars@.take(i + 1).drop_last() =~= chars@.take(i as int));
        if is_alphanumeric(c) {
            current.push(c);
        } else if current.len() > 0 {
            let ghost before = words@;
            let w = current;
            words.push(w);
            current = Vec::new();
            assert(words@.map_values(|w: Vec<char>| w@) =~= before.map_values(|w: Vec<char>| w@).push(w@));
            assert(current@ =~= Seq::<char>::empty());
        }
        i = i + 1;
    }
    assert(chars@.take(chars@.len() as int) =~= chars@);
    if current.len() > 0 {
        let ghost before = words@;
        let w = current;
        words.push(w);
        assert(words@.map_values(|w: Vec<char>| w@) =~= before.map_values(|w: Vec<char>| w@).push(w@));
    }
    let ghost wv = words@.map_values(|w: Vec<char>| w@);
    let mut out: Vec<String> = Vec::new();
    let mut j: usize = 0;
    assert(out@.map_values(|s: String| s@) =~= wv.take(0).map_values(|w: Seq<char>| unicode_lower(w)));
    while j < words.len()
        invariant
            j <= words@.len(),
            wv == words@.map_values(|w: Vec<char>| w@),
            out@.map_values(|s: String| s@) == wv.take(j as int).map_values(|w: Seq<char>| unicode_lower(w)),
        decreases words@.len() - j,
    {
        let s = string_from_chars(words[j].as_slice());
        let lower = to_lowercase(s.as_str());
        let ghost before = out@;
        out.push(lower);
        j = j + 1;
        assert(out@.map_values(|s: String| s@) =~= before.map_values(|s: String| s@).push(lower@));
        assert(wv.take(j as int).map_values(|w: Seq<char>| unicode_lower(w)) =~= wv.take(j - 1).map_values(|w: Seq<char>| unicode_lower(w)).push(unicode_lower(wv[j - 1])));
    }
    assert(wv.take(words@.len() as int) =~= wv);
    out
}


/// One hashed feature of a text: the bucket it lands in, its sign, and its
/// weight (2 for a whole word, 1 for a character 3-gram of it).
#[derive(Debug, Clone, Copy, PartialEq, Eq, Structural)]
pub struct Feature {
    pub bucket: usize,
    pub positive: bool,
    pub weight: u8,
}

/// The feature of one string: FNV-1a of its UTF-8 bytes, folded into a bucket
/// and a sign.
pub open spec fn feature_spec(g: Seq<char>, dim: usize, weight: u8) -> Feature {
    let h = fnv1a_spec(encode_utf8(g));
    Feature { bucket: (h as nat % dim as nat) as usize, positive: h >= 0x8000_0000_0000_0000, weight }
}

/// The character 3-grams of a word, left to right (none for shorter words).
pub open spec fn trigrams(w: Seq<char>) -> Seq<Seq<char>> {
    if w.len() >= 3 {
        Seq::new((w.len() - 2) as nat, |i: int| w.subrange(i, i + 3))
    } else {
        Seq::empty()
    }
}

/// The features of one word: the word itself, then each of its 3-grams.
pub open spec fn word_features(w: Seq<char>, dim: usize) -> Seq<Feature> {
    seq![feature_spec(w, dim, 2)] + trigrams(w).map_values(|g: Seq<char>| feature_spec(g, dim, 1))
}

/// The features of a text's words, in order.
pub open spec fn features_spec(words: Seq<Seq<char>>, dim: usize) -> Seq<Feature>
    decreases words.len(),
{
    if words.len() == 0 {
        Seq::empty()
    } else {
        features_spec(words.drop_last(), dim) + word_features(words.last(), dim)
    }
}

fn feature_of(g: &str, dim: usize, weight: u8) -> (r: Feature)
    requires
        dim > 0,
    ensures
        r == feature_spec(g@, dim, weight),
{
    let h = fnv1a(g.as_bytes());
    let (bucket, positive) = feature_slot(h, dim);
    Feature { bucket, positive, weight }
}


fn push_trigram_features(out: &mut Vec<Feature>, w: &str, dim: usize)
    requires
        dim > 0,
    ensures
        final(out)@ == old(out)@ + trigrams(w@).map_values(|g: Seq<char>| feature_spec(g, dim, 1)),
{
    let chars = chars_of(w);
    let ghost start = out@;
    let ghost grams = trigrams(w@);
    if chars.len() < 3 {
        assert(grams =~= Seq::<Seq<char>>::empty());
        assert(out@ =~= start + grams.map_values(|g: Seq<char>| feature_spec(g, dim, 1)));
        return;
    }
    let mut k: usize = 0;
    let last = chars.len() - 2;
    assert(grams.take(0).map_values(|g: Seq<char>| feature_spec(g, dim, 1)) =~= Seq::<Feature>::empty());
    while k < last
        invariant
            chars@ == w@,
            chars@.len() >= 3,
            last == chars@.len() - 2,
            k <= last,
            grams == trigrams(w@),
            grams.len() == chars@.len() - 2,
            dim > 0,
            out@ == start + grams.take(k as int).map_values(|g: Seq<char>| feature_spec(g, dim, 1)),
        decreases chars@.len() - k,
    {
        assert(k + 3 <= chars.len());
        let gram = string_from_chars(crate::text::slice_chars(chars.as_slice(), k, k + 3).as_slice());
        let f = feature_of(gram.as_str(), dim, 1);
        proof {
            assert(grams[k as int] == w@.subrange(k as int, k + 3));
            assert(grams.take(k + 1) =~= grams.take(k as int).push(grams[k as int]));
            assert(grams.take(k + 1).map_values(|g: Seq<char>| feature_spec(g, dim, 1)) =~= grams.take(k as int).map_values(
                |g: Seq<char>| feature_spec(g, dim, 1),
            ).push(f));
        }
        out.push(f);
        k = k + 1;
    }
    assert(grams.take(k as int) =~= grams);
}

/// The hashed features of a text for a `dim`-bucket embedding: for every
/// lowercase word, the word (weight 2) and each of its character 3-grams
/// (weight 1). Accumulating the signed weights per bucket and normalizing
/// gives the mock embedding.
pub fn embedding_features(text: &str, dim: usize) -> (r: Vec<Feature>)
    requires
        dim > 0,
    ensures
        r@ == features_spec(words_spec(text@), dim),
{
    let words = tokenize(text);
    let ghost ws = words@.map_values(|s: String| s@);
    let mut out: Vec<Feature> = Vec::new();
    let mut i: usize = 0;
    assert(ws.take(0) =~= Seq::<Seq<char>>::empty());
    while i < words.len()
        invariant
            i <= words@.len(),
            ws == words@.map_values(|s: String| s@),
            dim > 0,
            out@ == features_spec(ws.take(i as int), dim),
        decreases words@.len() - i,
    {
        let w = words[i].as_str();
        let ghost before = out@;
        out.push(feature_of(w, dim, 2));
        push_trigram_features(&mut out, w, dim);
        proof {
            assert(ws.take(i + 1).drop_last() =~= ws.take(i as int));
            assert(ws.take(i + 1).last() == w@);
            assert(out@ =~= features_spec(ws.take(i + 1), dim));
        }
        i = i + 1;
    }
    assert(ws.take(words@.len() as int) =~= ws);
    out
}

} // verus!
