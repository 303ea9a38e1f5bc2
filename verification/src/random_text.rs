//! A pseudo-random generator of human-readable text with multi-byte
//! characters, for stress-testing size- and length-sensitive code.
use vstd::prelude::*;

verus! {

#[verifier::external_type_specification]
#[verifier::external_body]
pub struct ExStdRng(rand::rngs::StdRng);

/// Relies on `rand::SeedableRng::seed_from_u64` for `rand::rngs::StdRng`: a
/// deterministically seeded generator. Nothing is assumed of the values it
/// will produce.
#[verifier::external_body]
fn seeded(seed: u64) -> rand::rngs::StdRng {
    <rand::rngs::StdRng as rand::SeedableRng>::seed_from_u64(seed)
}

/// Relies on `rand::Rng::gen_ratio`: a weighted coin that is true with
/// probability `n` in `d`. It panics only when `d == 0` or `n > d`, which
/// the precondition rules out; nothing is assumed of the outcome.
#[verifier::external_body]
fn coin(rng: &mut rand::rngs::StdRng, n: u32, d: u32) -> bool
    requires
        0 < d,
        n <= d,
{
    rand::Rng::gen_ratio(rng, n, d)
}

/// Relies on `rand::Rng::gen_range` over `lo..hi`: a uniform draw within the
/// half-open range. It panics only on an empty range, which the precondition
/// rules out.
#[verifier::external_body]
fn draw(rng: &mut rand::rngs::StdRng, lo: u32, hi: u32) -> (r: u32)
    requires
        lo < hi,
    ensures
        lo <= r < hi,
{
    rand::Rng::gen_range(rng, lo..hi)
}

pub assume_specification[ char::from_u32 ](i: u32) -> (r: Option<char>)
    ensures
        r is Some <==> (i < 0xd800 || (0xe000 <= i && i <= 0x10ffff)),
        r matches Some(c) ==> c as u32 == i,
;

/// The characters the generator can produce: a newline, a lowercase Greek
/// letter, one of a small set of symbols, one of a small set of pictographs,
/// or a lowercase ASCII letter.
pub open spec fn fixture_char(c: char) -> bool {
    ||| c == '\n'
    ||| (0x3b1 <= c as u32 && c as u32 <= 0x3c9)
    ||| c == '\u{270b}'
    ||| c == '\u{2705}'
    ||| c == '\u{274c}'
    ||| c == '\u{274e}'
    ||| c == '\u{2b50}'
    ||| c == '\u{1f350}'
    ||| c == '\u{1f3c0}'
    ||| c == '\u{1f357}'
    ||| c == '\u{1f389}'
    ||| (0x61 <= c as u32 && c as u32 <= 0x7a)
}

fn char_from_code(n: u32) -> (c: char)
    requires
        n < 0xd800,
    ensures
        c as u32 == n,
{
    char::from_u32(n).unwrap()
}

/// The symbol the generator's third branch selects for each draw.
fn symbol_char(k: u32) -> (c: char)
    requires
        k < 5,
    ensures
        c == seq!['\u{270b}', '\u{2705}', '\u{274c}', '\u{274e}', '\u{2b50}'][k as int],
{
    if k == 0 {
        '\u{270b}'
    } else if k == 1 {
        '\u{2705}'
    } else if k == 2 {
        '\u{274c}'
    } else if k == 3 {
        '\u{274e}'
    } else {
        '\u{2b50}'
    }
}

/// The pictograph the generator's fourth branch selects for each draw.
fn pictograph_char(k: u32) -> (c: char)
    requires
        k < 4,
    ensures
        c == seq!['\u{1f350}', '\u{1f3c0}', '\u{1f357}', '\u{1f389}'][k as int],
{
    if k == 0 {
        '\u{1f350}'
    } else if k == 1 {
        '\u{1f3c0}'
    } else if k == 2 {
        '\u{1f357}'
    } else {
        '\u{1f389}'
    }
}

/// An unbounded source of pseudo-random characters, each drawn independently
/// by a chain of weighted coin-flips, first match winning: a newline with
/// probability one in five; failing that, a lowercase Greek letter (two
/// UTF-8 bytes) with probability one in eight; then one of five symbols
/// (three bytes) with probability one in ten; then one of four pictographs
/// (four bytes) with probability one in twelve; otherwise a lowercase ASCII
/// letter, uniform over the alphabet.
pub struct RandomCharIter {
    rng: rand::rngs::StdRng,
}

impl RandomCharIter {
    /// The random source the generator draws from.
    pub closed spec fn source(&self) -> rand::rngs::StdRng {
        self.rng
    }

    /// Wraps a caller-supplied random source: the generator draws from
    /// exactly the source it is given, so a seeded source makes it
    /// deterministic.
    pub fn new(rng: rand::rngs::StdRng) -> (r: RandomCharIter)
        ensures
            r.source() == rng,
    {
        RandomCharIter { rng }
    }

    /// A generator seeded deterministically, for reproducible fixtures.
    pub fn from_seed(seed: u64) -> RandomCharIter {
        RandomCharIter { rng: seeded(seed) }
    }

    /// Draws the next character. The source never runs dry, and every
    /// character it yields comes from the fixture alphabet.
    pub fn next(&mut self) -> (r: Option<char>)
        ensures
            r is Some,
            r matches Some(c) ==> fixture_char(c),
    {
        if coin(&mut self.rng, 1, 5) {
            Some('\n')
        } else if coin(&mut self.rng, 1, 8) {
            // lowercase Greek letters
            let n: u32 = draw(&mut self.rng, 0x3b1, 0x3ca);
            Some(char_from_code(n))
        } else if coin(&mut self.rng, 1, 10) {
            // three-byte symbols
            let k: u32 = draw(&mut self.rng, 0, 5);
            Some(symbol_char(k))
        } else if coin(&mut self.rng, 1, 12) {
            // four-byte pictographs
            let k: u32 = draw(&mut self.rng, 0, 4);
            Some(pictograph_char(k))
        } else {
            // lowercase ASCII letters
            let n: u32 = draw(&mut self.rng, 0x61, 0x7b);
            Some(char_from_code(n))
        }
    }

    /// Collects the next `len` characters into a string-sized batch.
    pub fn take_chars(&mut self, len: usize) -> (out: Vec<char>)
        ensures
            out@.len() == len,
            forall|i: int| 0 <= i < out@.len() ==> #[trigger] fixture_char(out@[i]),
    {
        let mut out: Vec<char> = Vec::new();
        let mut k: usize = 0;
        while k < len
            invariant
                k <= len,
                out@.len() == k,
                forall|i: int| 0 <= i < out@.len() ==> #[trigger] fixture_char(out@[i]),
            decreases len - k,
        {
            let c = self.next().unwrap();
            out.push(c);
            k = k + 1;
        }
        out
    }
}

} // verus!
