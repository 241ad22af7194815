//! Unbiased integers and shuffles drawn from a supply of random bytes.

use vstd::prelude::*;

verus! {

/// A finite supply of bytes taken from the operating system's randomness
/// source. Bytes are consumed from the front and never handed out twice.
pub struct Entropy {
    bytes: Vec<u8>,
    used: usize,
}

/// Why a random operation could not finish.
#[derive(Debug, Clone, Copy, PartialEq, Eq, Structural)]
pub enum RandomError {
    /// The supply held fewer bytes than the operation had to read.
    Exhausted,
}

impl View for Entropy {
    type V = Seq<u8>;

    /// The bytes not yet consumed, in the order in which they are handed out.
    closed spec fn view(&self) -> Seq<u8> {
        self.bytes@.skip(self.used as int)
    }
}

impl Entropy {
    #[verifier::type_invariant]
    spec fn in_bounds(&self) -> bool {
        self.used <= self.bytes@.len()
    }

    /// Wraps bytes read from the randomness source; none is consumed yet.
    pub fn new(bytes: Vec<u8>) -> (entropy: Entropy)
        ensures
            entropy@ == bytes@,
    {
        let entropy = Entropy { bytes, used: 0 };
        assert(entropy.bytes@.skip(0) =~= entropy.bytes@);
        entropy
    }

    /// How many bytes are left.
    pub fn remaining(&self) -> (n: usize)
        ensures
            n == self@.len(),
    {
        proof {
            use_type_invariant(self);
        }
        self.bytes.len() - self.used
    }
}

/// The 32-bit word spelled by the first four bytes, least significant first.
pub open spec fn word(bytes: Seq<u8>) -> int
    recommends
        bytes.len() >= 4,
{
    bytes[0] as int + 256 * (bytes[1] as int) + 65536 * (bytes[2] as int) + 16777216 * (
    bytes[3] as int)
}

/// The number of words that a draw below `bound` keeps: the words
/// `0 .. limit(bound)`. It is the largest multiple of `bound` that a word can
/// reach, so every remainder has the same number of words behind it.
pub open spec fn limit(bound: int) -> int
    recommends
        0 < bound,
{
    u32::MAX as int - (u32::MAX as int % bound)
}

/// The outcome of drawing an integer below `bound` from `bytes`, and the bytes
/// left afterwards. Words are read four bytes at a time; a word at or above
/// `limit(bound)` is thrown away and the next one read. A bound of zero yields
/// zero and reads nothing. `None` means that the bytes ran out first.
pub open spec fn draw(bound: int, bytes: Seq<u8>) -> (Option<int>, Seq<u8>)
    decreases bytes.len(),
{
    if bound <= 0 {
        (Some(0int), bytes)
    } else if bytes.len() < 4 {
        (None, bytes)
    } else if word(bytes) < limit(bound) {
        (Some(word(bytes) % bound), bytes.skip(4))
    } else {
        draw(bound, bytes.skip(4))
    }
}

/// `s` with the elements at `i` and `j` exchanged.
pub open spec fn swapped<T>(s: Seq<T>, i: int, j: int) -> Seq<T>
    recommends
        0 <= i < s.len(),
        0 <= j < s.len(),
{
    s.update(i, s[j]).update(j, s[i])
}

/// Exchanging two elements keeps every element as often as it was there.
pub proof fn lemma_swapped_keeps_elements<T>(s: Seq<T>, i: int, j: int)
    requires
        0 <= i < s.len(),
        0 <= j < s.len(),
    ensures
        swapped(s, i, j).to_multiset() == s.to_multiset(),
        swapped(s, i, j).len() == s.len(),
{
    broadcast use vstd::multiset::group_multiset_axioms;

    vstd::seq_lib::to_multiset_update(s, i, s[j]);
    vstd::seq_lib::to_multiset_update(s.update(i, s[j]), j, s[i]);
    vstd::seq_lib::to_multiset_contains(s, s[i]);
    vstd::seq_lib::to_multiset_contains(s, s[j]);
    assert(swapped(s, i, j).to_multiset() =~= s.to_multiset());
}

/// The Fisher-Yates passes for positions `i`, `i - 1`, .., 1 over `s`: each
/// draws `j` below its position plus one and exchanges the two elements.
/// Gives whether every pass had its draw, the sequence as the last pass left
/// it, and the bytes left.
pub open spec fn shuffle_down<T>(s: Seq<T>, i: int, bytes: Seq<u8>) -> (bool, Seq<T>, Seq<u8>)
    decreases i,
{
    if i < 1 {
        (true, s, bytes)
    } else {
        let (j, rest) = draw(i + 1, bytes);
        match j {
            Some(j) => shuffle_down(swapped(s, i, j), i - 1, rest),
            None => (false, s, rest),
        }
    }
}

/// A draw yields zero for the bound zero, and a value below any other bound.
pub proof fn lemma_draw_in_range(bound: int, bytes: Seq<u8>)
    requires
        0 <= bound,
    ensures
        draw(bound, bytes).0 matches Some(v) ==> 0 <= v && (v < bound || bound == 0),
        bound == 0 ==> draw(bound, bytes) == (Some(0int), bytes),
    decreases bytes.len(),
{
    if bound > 0 && bytes.len() >= 4 && word(bytes) >= limit(bound) {
        lemma_draw_in_range(bound, bytes.skip(4));
    }
}

/// Whether a draw below `bound` keeps the word `w` and reduces it to `r`.
pub open spec fn yields(bound: int, w: int, r: int) -> bool {
    0 <= w < limit(bound) && w % bound == r
}

/// The `k`-th word, counted from zero, that a draw below `bound` reduces to
/// `r`.
pub open spec fn kept_word(bound: int, r: int, k: int) -> int {
    k * bound + r
}

/// Rejection sampling favours no value: the kept words `0 .. limit(bound)`
/// are `limit(bound) / bound` full rounds of the remainders `0 .. bound`. So
/// the words that yield `r` are the words `kept_word(bound, r, k)` with `k`
/// below that number of rounds, one for each `k`: as many for one `r` as for
/// any other.
pub proof fn lemma_draw_is_unbiased(bound: int, r: int)
    requires
        0 < bound <= u32::MAX,
        0 <= r < bound,
    ensures
        0 < limit(bound) <= u32::MAX,
        limit(bound) % bound == 0,
        forall|k: int|
            0 <= k < limit(bound) / bound ==> yields(bound, #[trigger] kept_word(bound, r, k), r),
        forall|w: int| #[trigger]
            yields(bound, w, r) ==> 0 <= w / bound < limit(bound) / bound && kept_word(
                bound,
                r,
                w / bound,
            ) == w,
        forall|j: int, k: int|
            j != k ==> #[trigger] kept_word(bound, r, j) != #[trigger] kept_word(bound, r, k),
{
    let top = u32::MAX as int;
    let rounds = top / bound;
    assert(top == bound * rounds + top % bound && 0 <= top % bound < bound && rounds >= 1)
        by (nonlinear_arith)
        requires
            0 < bound <= top,
            rounds == top / bound,
    ;
    assert(limit(bound) == bound * rounds);
    assert((bound * rounds) % bound == 0 && (bound * rounds) / bound == rounds)
        by (nonlinear_arith)
        requires
            0 < bound,
    ;
    assert forall|k: int| 0 <= k < limit(bound) / bound implies yields(
        bound,
        #[trigger] kept_word(bound, r, k),
        r,
    ) by {
        assert(0 <= k * bound + r < bound * rounds && (k * bound + r) % bound == r)
            by (nonlinear_arith)
            requires
                0 < bound,
                0 <= r < bound,
                0 <= k < rounds,
        ;
    }
    assert forall|w: int| #[trigger] yields(bound, w, r) implies 0 <= w / bound < limit(bound)
        / bound && kept_word(bound, r, w / bound) == w by {
        assert(w == (w / bound) * bound + w % bound && 0 <= w / bound < rounds)
            by (nonlinear_arith)
            requires
                0 < bound,
                0 <= w < bound * rounds,
        ;
    }
    assert forall|j: int, k: int| j != k implies #[trigger] kept_word(bound, r, j)
        != #[trigger] kept_word(bound, r, k) by {
        assert(j * bound + r != k * bound + r) by (nonlinear_arith)
            requires
                0 < bound,
                j != k,
        ;
    }
}

/// The passes of [`shuffle_down`] only reorder: whatever the bytes, the
/// sequence that comes out holds every element as often as the one that
/// went in.
pub proof fn lemma_shuffle_down_permutes<T>(s: Seq<T>, i: int, bytes: Seq<u8>)
    requires
        i < s.len(),
    ensures
        shuffle_down(s, i, bytes).1.to_multiset() == s.to_multiset(),
        shuffle_down(s, i, bytes).1.len() == s.len(),
    decreases i,
{
    if i >= 1 {
        lemma_draw_in_range(i + 1, bytes);
        let (j, rest) = draw(i + 1, bytes);
        if let Some(j) = j {
            lemma_swapped_keeps_elements(s, i, j);
            lemma_shuffle_down_permutes(swapped(s, i, j), i - 1, rest);
        }
    }
}

/// Exchanges the elements at `i` and `j`.
fn exchange<T>(slice: &mut [T], i: usize, j: usize)
    requires
        j <= i < old(slice)@.len(),
    ensures
        final(slice)@ == swapped(old(slice)@, i as int, j as int),
{
    if i != j {
        let (low, high) = slice.split_at_mut(i);
        core::mem::swap(&mut low[j], &mut high[0]);
    }
    assert(slice@ =~= swapped(old(slice)@, i as int, j as int));
}

/// Stateless sampling routines; all randomness comes from the [`Entropy`]
/// handed to each call.
pub struct SecureRandom;

impl SecureRandom {
    /// Fills `buf` completely with the next bytes of the supply, or fails and
    /// leaves both the buffer and the supply as they were.
    pub fn fill_bytes(buf: &mut [u8], entropy: &mut Entropy) -> (res: Result<(), RandomError>)
        ensures
            res is Ok <==> old(buf)@.len() <= old(entropy)@.len(),
            res is Ok ==> final(buf)@ == old(entropy)@.take(old(buf)@.len() as int)
                && final(entropy)@ == old(entropy)@.skip(old(buf)@.len() as int),
            res is Err ==> final(buf)@ == old(buf)@ && final(entropy)@ == old(entropy)@,
    {
        proof {
            use_type_invariant(&*entropy);
        }
        let n: usize = buf.len();
        if entropy.bytes.len() - entropy.used < n {
            return Err(RandomError::Exhausted);
        }
        let start: usize = entropy.used;
        let mut i: usize = 0;
        while i < n
            invariant
                i <= n,
                n == buf@.len(),
                start == entropy.used,
                start + n <= entropy.bytes.len(),
                *entropy == *old(entropy),
                forall|k: int| 0 <= k < i ==> buf@[k] == entropy.bytes@[start + k],
            decreases n - i,
        {
            buf[i] = entropy.bytes[start + i];
            i += 1;
        }
        assert(buf@ =~= old(entropy)@.take(n as int));
        entropy.used = entropy.used + n;
        assert(entropy@ =~= old(entropy)@.skip(n as int));
        Ok(())
    }

    /// Draws an integer below `max` by rejection sampling, so that no value is
    /// favoured: the result is `draw(max, ..)` of the bytes in the supply.
    /// With `max == 0` the result is zero and no byte is read.
    pub fn random_range(max: usize, entropy: &mut Entropy) -> (res: Result<usize, RandomError>)
        requires
            max <= u32::MAX,
        ensures
            match draw(max as int, old(entropy)@).0 {
                Some(v) => res matches Ok(r) && r == v,
                None => res == Err::<usize, RandomError>(RandomError::Exhausted),
            },
            final(entropy)@ == draw(max as int, old(entropy)@).1,
            res matches Ok(r) ==> r < max || (max == 0 && r == 0),
    {
        if max == 0 {
            return Ok(0);
        }
        let bound: u32 = max as u32;
        let kept: u32 = u32::MAX - (u32::MAX % bound);
        loop
            invariant
                0 < max <= u32::MAX,
                bound == max,
                kept == limit(max as int),
                draw(max as int, entropy@) == draw(max as int, old(entropy)@),
            decreases entropy@.len(),
        {
            let mut buf: [u8; 4] = [0u8; 4];
            match Self::fill_bytes(&mut buf, entropy) {
                Err(e) => {
                    return Err(e);
                },
                Ok(()) => {},
            }
            let value: u32 = buf[0] as u32 + 256 * (buf[1] as u32) + 65536 * (buf[2] as u32)
                + 16777216 * (buf[3] as u32);
            if value < kept {
                return Ok((value % bound) as usize);
            }
        }
    }

    /// Shuffles `slice` in place by the Fisher-Yates passes of
    /// [`shuffle_down`], from the last position down to 1. Whatever the
    /// outcome, the slice holds the same elements as before, each as often.
    /// When the supply runs out, the passes made so far stay.
    pub fn shuffle<T>(slice: &mut [T], entropy: &mut Entropy) -> (res: Result<(), RandomError>)
        requires
            old(slice)@.len() <= u32::MAX,
        ensures
            ({
                let (done, s, rest) = shuffle_down(
                    old(slice)@,
                    old(slice)@.len() - 1,
                    old(entropy)@,
                );
                &&& res == if done {
                    Ok::<(), RandomError>(())
                } else {
                    Err(RandomError::Exhausted)
                }
                &&& final(slice)@ == s
                &&& final(entropy)@ == rest
            }),
            final(slice)@.to_multiset() == old(slice)@.to_multiset(),
            final(slice)@.len() == old(slice)@.len(),
    {
        let len: usize = slice.len();
        if len < 2 {
            return Ok(());
        }
        let mut i: usize = len - 1;
        while i >= 1
            invariant
                i < len,
                len == slice@.len(),
                len == old(slice)@.len(),
                len <= u32::MAX,
                shuffle_down(slice@, i as int, entropy@) == shuffle_down(
                    old(slice)@,
                    len - 1,
                    old(entropy)@,
                ),
                slice@.to_multiset() == old(slice)@.to_multiset(),
            decreases i,
        {
            proof {
                lemma_draw_in_range(i + 1, entropy@);
            }
            let j: usize = match Self::random_range(i + 1, entropy) {
                Ok(j) => j,
                Err(e) => {
                    return Err(e);
                },
            };
            proof {
                lemma_swapped_keeps_elements(slice@, i as int, j as int);
            }
            exchange(slice, i, j);
            i -= 1;
        }
        Ok(())
    }
}

} // verus!
