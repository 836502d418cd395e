//! Readable generated slugs, sampled without bias from fallible entropy.
use crate::error::{publishing_failure, rejected, AppError};
use crate::sites::validate::{reserved, slug_char, valid_slug, Slug};
use crate::status;
use crate::text::{is_lower, push_text, split};
use petname::Petnames;
use rand::rngs::SysRng;
use rand::TryRng;
use vstd::arithmetic::div_mod::{
    lemma_fundamental_div_mod, lemma_fundamental_div_mod_converse, lemma_mod_sub_multiples_vanish,
};
use vstd::prelude::*;

verus! {

/// How often one index is sampled anew.
pub const MAX_SAMPLE_ATTEMPTS: usize = 64;

/// The number of characters behind the words.
pub const SUFFIX_LENGTH: usize = 8;

/// The number of different suffix characters: the small letters and the digits.
pub const SUFFIX_CHARACTERS: usize = 36;

/// The longest word of the dictionaries.
pub const MAX_WORD_LENGTH: usize = 12;

/// One draw from the entropy source.
pub type Draw = Result<u64, AppError>;

/// The number of different 64-bit draws.
pub open spec fn draw_count() -> int {
    0x1_0000_0000_0000_0000
}

/// The draws below this many are discarded: what is left is a whole number of cycles.
pub open spec fn threshold(bound: int) -> int {
    draw_count() % bound
}

/// A draw that is thrown away because it lies in the incomplete cycle.
pub open spec fn discarded(bound: int, draw: Draw) -> bool {
    draw matches Ok(v) && v < threshold(bound)
}

/// The index that a row of draws selects, where the row decides it and holds
/// no draw beyond the deciding one.
pub open spec fn sampling(bound: int, draws: Seq<Draw>) -> Option<Result<int, AppError>> {
    if bound == 0 {
        if draws.len() == 0 {
            Some(Err(publishing_failure()))
        } else {
            None
        }
    } else if 0 < draws.len() <= MAX_SAMPLE_ATTEMPTS && (forall|i: int|
        0 <= i < draws.len() - 1 ==> discarded(bound, #[trigger] draws[i])) {
        match draws.last() {
            Err(error) => Some(Err(error)),
            Ok(v) => if v >= threshold(bound) {
                Some(Ok(v as int % bound))
            } else if draws.len() == MAX_SAMPLE_ATTEMPTS {
                Some(Err(publishing_failure()))
            } else {
                None
            },
        }
    } else {
        None
    }
}

/// Draws are taken until one of them decides, and no further: a row that decides
/// has no shorter beginning that does.
pub proof fn no_draw_is_taken_in_vain(bound: int, draws: Seq<Draw>, shorter: int)
    requires
        sampling(bound, draws) is Some,
        0 <= shorter < draws.len(),
    ensures
        sampling(bound, draws.take(shorter)) is None,
{
    if shorter > 0 {
        assert(draws.take(shorter).last() == draws[shorter - 1]);
        assert(discarded(bound, draws[shorter - 1]));
    }
}

/// Where draws come from.
enum Origin {
    System,
    Row(Vec<Draw>),
}

/// A source of draws, which are taken one after another: the operating system's
/// entropy, or a given row.
pub struct Draws {
    origin: Origin,
    at: usize,
    taken: Ghost<Seq<Draw>>,
}

/// A draw from the operating system: what a call of `system_draw` returns.
pub closed spec fn system_gives(draw: Draw) -> bool {
    call_ensures(system_draw, (), draw)
}

/// What a source gives next after the draws that were taken from it: the next
/// one of a given row, and a failure behind its end.
pub open spec fn gives(row: Option<Seq<Draw>>, taken: Seq<Draw>, draw: Draw) -> bool {
    match row {
        None => system_gives(draw),
        Some(given) => draw == if taken.len() < given.len() {
            given[taken.len() as int]
        } else {
            Err(publishing_failure())
        },
    }
}

/// Whether a source gives these draws, one after another.
pub open spec fn gives_row(row: Option<Seq<Draw>>, taken: Seq<Draw>, next: Seq<Draw>) -> bool {
    forall|i: int|
        0 <= i < next.len() ==> gives(row, taken + next.take(i), #[trigger] next[i])
}

impl Draws {
    #[verifier::type_invariant]
    spec fn in_step(self) -> bool {
        self.origin matches Origin::Row(given) ==> self.at == if self.taken@.len() < given@.len() {
            self.taken@.len() as int
        } else {
            given@.len() as int
        }
    }

    /// The given row, where draws come from one.
    pub closed spec fn row(&self) -> Option<Seq<Draw>> {
        match self.origin {
            Origin::System => None,
            Origin::Row(given) => Some(given@),
        }
    }

    /// The draws that were taken so far.
    pub closed spec fn taken(&self) -> Seq<Draw> {
        self.taken@
    }

    /// Draws from the operating system's entropy.
    pub fn system() -> (r: Self)
        ensures
            r.row() is None,
            r.taken() == Seq::<Draw>::empty(),
    {
        Draws { origin: Origin::System, at: 0, taken: Ghost(Seq::empty()) }
    }

    /// Draws from a given row, and failures behind its end.
    pub fn given(row: Vec<Draw>) -> (r: Self)
        ensures
            r.row() == Some(row@),
            r.taken() == Seq::<Draw>::empty(),
    {
        Draws { origin: Origin::Row(row), at: 0, taken: Ghost(Seq::empty()) }
    }

    /// How many draws of a given row were taken.
    pub fn used(&self) -> (r: usize)
        ensures
            self.row() matches Some(given) ==> r == if self.taken().len() < given.len() {
                self.taken().len() as int
            } else {
                given.len() as int
            },
    {
        proof {
            use_type_invariant(self);
        }
        self.at
    }

    /// Takes the next draw.
    pub fn draw(&mut self) -> (r: Draw)
        ensures
            gives(old(self).row(), old(self).taken(), r),
            final(self).row() == old(self).row(),
            final(self).taken() == old(self).taken().push(r),
    {
        proof {
            use_type_invariant(&*self);
        }
        let mut origin: Origin = Origin::System;
        std::mem::swap(&mut origin, &mut self.origin);
        let mut at: usize = self.at;
        let draw: Draw = match &origin {
            Origin::System => system_draw(),
            Origin::Row(given) => {
                if at < given.len() {
                    at = at + 1;
                    given[at - 1]
                } else {
                    Err(AppError::publishing())
                }
            },
        };
        let ghost taken = self.taken@.push(draw);
        *self = Draws { origin, at, taken: Ghost(taken) };
        draw
    }
}

/// The index inside a result, as a mathematical integer.
pub open spec fn index_of(r: Result<usize, AppError>) -> Result<int, AppError> {
    match r {
        Ok(i) => Ok(i as int),
        Err(error) => Err(error),
    }
}

/// The draws that were taken from a source between two moments.
pub open spec fn between(before: Draws, after: Draws) -> Seq<Draw> {
    after.taken().skip(before.taken().len() as int)
}

/// A source was drawn from and nothing else: the draws in between are those
/// that it gives next.
pub open spec fn drawn_on(before: Draws, after: Draws) -> bool {
    &&& after.row() == before.row()
    &&& after.taken() == before.taken() + between(before, after)
    &&& gives_row(before.row(), before.taken(), between(before, after))
}

/// Drawing on a source and then drawing on it once more is drawing on it.
proof fn drawn_on_further(first: Draws, second: Draws, third: Draws)
    requires
        drawn_on(first, second),
        drawn_on(second, third),
    ensures
        drawn_on(first, third),
        between(first, third) == between(first, second) + between(second, third),
{
    let a = between(first, second);
    let b = between(second, third);
    assert(between(first, third) =~= a + b);
    assert(third.taken() =~= first.taken() + (a + b));
    assert forall|i: int| 0 <= i < (a + b).len() implies gives(
        first.row(),
        first.taken() + (a + b).take(i),
        #[trigger] (a + b)[i],
    ) by {
        if i < a.len() {
            assert((a + b).take(i) =~= a.take(i));
            assert(gives(first.row(), first.taken() + a.take(i), a[i]));
        } else {
            assert(first.taken() + (a + b).take(i) =~= second.taken() + b.take(i - a.len()));
            assert(gives(second.row(), second.taken() + b.take(i - a.len()), b[i - a.len()]));
        }
    }
}

/// Samples a uniform index by discarding the incomplete residue cycle. The
/// index is selected by the first draw that is kept, and no draw beyond it is
/// taken.
pub fn sample_index(length: usize, draws: &mut Draws) -> (r: Result<usize, AppError>)
    ensures
        drawn_on(*old(draws), *final(draws)),
        sampling(length as int, between(*old(draws), *final(draws))) == Some(index_of(r)),
        r matches Ok(i) ==> i < length,
{
    let ghost before = *draws;
    assert(between(before, *draws) =~= Seq::empty());
    assert(before.taken() =~= before.taken() + Seq::empty());
    if length == 0 {
        return Err(AppError::publishing());
    }
    let bound: u64 = length as u64;
    let threshold: u64 = (u64::MAX - bound + 1) % bound;
    proof {
        lemma_mod_sub_multiples_vanish(draw_count(), bound as int);
        assert(draw_count() - bound as int == u64::MAX - bound + 1);
    }
    let mut attempt: usize = 0;
    while attempt < MAX_SAMPLE_ATTEMPTS
        invariant
            attempt <= MAX_SAMPLE_ATTEMPTS,
            length > 0,
            bound == length,
            threshold == self::threshold(bound as int),
            before == *old(draws),
            drawn_on(before, *draws),
            between(before, *draws).len() == attempt,
            forall|i: int|
                0 <= i < attempt ==> discarded(
                    bound as int,
                    #[trigger] between(before, *draws)[i],
                ),
        decreases MAX_SAMPLE_ATTEMPTS - attempt,
    {
        let ghost earlier = *draws;
        let draw: Draw = draws.draw();
        proof {
            let one = between(earlier, *draws);
            assert(one =~= seq![draw]);
            assert(draws.taken() =~= earlier.taken() + one);
            assert(earlier.taken() + one.take(0) =~= earlier.taken());
            assert(gives_row(earlier.row(), earlier.taken(), one));
            drawn_on_further(before, earlier, *draws);
            assert(between(before, *draws) =~= between(before, earlier).push(draw));
        }
        match draw {
            Err(error) => {
                return Err(error);
            },
            Ok(value) => {
                if value >= threshold {
                    return Ok((value % bound) as usize);
                }
            },
        }
        attempt = attempt + 1;
    }
    Err(AppError::publishing())
}

/// How many numbers from `lo` up to but not including `hi` select an index.
pub open spec fn hits(lo: int, hi: int, bound: int, index: int) -> int
    decreases hi - lo,
{
    if hi <= lo {
        0
    } else {
        hits(lo, hi - 1, bound, index) + if (hi - 1) % bound == index {
            1int
        } else {
            0int
        }
    }
}

/// Moving up by one passes an index exactly at the numbers that select it.
proof fn one_step(h: int, bound: int, index: int)
    requires
        0 <= index < bound,
        h >= 0,
    ensures
        (h - index) / bound - (h - 1 - index) / bound == if h % bound == index {
            1int
        } else {
            0int
        },
{
    lemma_fundamental_div_mod(h, bound);
    let q = h / bound;
    let m = h % bound;
    assert(bound * q == q * bound) by (nonlinear_arith);
    if m >= index {
        lemma_fundamental_div_mod_converse(h - index, bound, q, m - index);
        if m > index {
            lemma_fundamental_div_mod_converse(h - 1 - index, bound, q, m - index - 1);
        } else {
            assert(bound * (q - 1) == bound * q - bound) by (nonlinear_arith);
            lemma_fundamental_div_mod_converse(h - 1 - index, bound, q - 1, bound - 1);
        }
    } else {
        assert(bound * (q - 1) == bound * q - bound) by (nonlinear_arith);
        lemma_fundamental_div_mod_converse(h - index, bound, q - 1, m - index + bound);
        lemma_fundamental_div_mod_converse(h - 1 - index, bound, q - 1, m - index + bound - 1);
    }
}

proof fn hits_by_division(lo: int, hi: int, bound: int, index: int)
    requires
        0 <= index < bound,
        0 <= lo <= hi,
    ensures
        hits(lo, hi, bound, index) == (hi - 1 - index) / bound - (lo - 1 - index) / bound,
    decreases hi - lo,
{
    if lo < hi {
        hits_by_division(lo, hi - 1, bound, index);
        one_step(hi - 1, bound, index);
    }
}

/// Sampling is fair: of the draws that are kept, every index is selected by
/// equally many.
pub proof fn sampling_is_uniform(bound: int, index: int)
    requires
        0 <= index < bound <= draw_count(),
    ensures
        hits(threshold(bound), draw_count(), bound, index) == draw_count() / bound,
{
    let t = threshold(bound);
    let q = draw_count() / bound;
    lemma_fundamental_div_mod(draw_count(), bound);
    hits_by_division(t, draw_count(), bound, index);
    let low = t - 1 - index;
    lemma_fundamental_div_mod(low, bound);
    assert(bound * (low / bound + q) == bound * (low / bound) + bound * q) by (nonlinear_arith);
    lemma_fundamental_div_mod_converse(low + bound * q, bound, low / bound + q, low % bound);
}

/// A nonempty row of small letters within the length of a dictionary word.
pub open spec fn word_shape(word: Seq<char>) -> bool {
    &&& 0 < word.len() <= MAX_WORD_LENGTH
    &&& forall|i: int| 0 <= i < word.len() ==> is_lower(#[trigger] word[i])
}

/// The texts of a list of string slices.
pub open spec fn texts(words: Seq<&'static str>) -> Seq<Seq<char>> {
    Seq::new(words.len(), |i: int| words[i]@)
}

/// The texts of three lists of words.
pub open spec fn word_lists(
    lists: (Vec<&'static str>, Vec<&'static str>, Vec<&'static str>),
) -> Seq<Seq<Seq<char>>> {
    seq![texts(lists.0@), texts(lists.1@), texts(lists.2@)]
}

/// `petname::Petnames::medium` returns its three fixed dictionaries: adverbs,
/// adjectives and nouns. None of them is empty, and each of their words is a row
/// of one to twelve small letters.
#[verifier::external_body]
fn medium_dictionaries() -> (r: (Vec<&'static str>, Vec<&'static str>, Vec<&'static str>))
    ensures
        r.0@.len() > 0,
        r.1@.len() > 0,
        r.2@.len() > 0,
        forall|i: int| 0 <= i < r.0@.len() ==> word_shape(#[trigger] texts(r.0@)[i]),
        forall|i: int| 0 <= i < r.1@.len() ==> word_shape(#[trigger] texts(r.1@)[i]),
        forall|i: int| 0 <= i < r.2@.len() ==> word_shape(#[trigger] texts(r.2@)[i]),
{
    let words: Petnames<'static> = Petnames::medium();
    (words.adverbs.into_owned(), words.adjectives.into_owned(), words.nouns.into_owned())
}

/// The words of the dictionaries: what a call of `medium_dictionaries` returns.
pub closed spec fn dictionaries_give(words: Seq<Seq<Seq<char>>>) -> bool {
    exists|lists: (Vec<&'static str>, Vec<&'static str>, Vec<&'static str>)|
        words == word_lists(lists) && #[trigger] call_ensures(medium_dictionaries, (), lists)
}

/// `SysRng::try_next_u64` draws 64 bits from the operating system, or fails.
#[verifier::external_body]
fn system_draw() -> (r: Draw)
    ensures
        r matches Err(error) ==> error == publishing_failure(),
{
    SysRng.try_next_u64().map_err(|_| AppError::publishing())
}

/// The suffix character of an index: letters first, then digits.
pub open spec fn suffix_char(index: int) -> char {
    if index < 26 {
        (97 + index) as char
    } else {
        (48 + index - 26) as char
    }
}

/// The size of the domain of the nth sample of one slug: three lists of words,
/// then the suffix alphabet.
pub open spec fn domain(words: Seq<Seq<Seq<char>>>, n: int) -> int {
    if n < 3 {
        words[n].len() as int
    } else {
        SUFFIX_CHARACTERS as int
    }
}

/// The number of samples that one slug takes.
pub open spec fn sample_total() -> int {
    3 + SUFFIX_LENGTH
}

/// The text of the first samples: each word and a hyphen, then the suffix.
pub open spec fn readable(words: Seq<Seq<Seq<char>>>, indices: Seq<int>) -> Seq<char>
    decreases indices.len(),
{
    if indices.len() == 0 {
        Seq::empty()
    } else {
        let n = indices.len() - 1;
        let front = readable(words, indices.drop_last());
        if n < 3 {
            front + words[n][indices.last()] + seq!['-']
        } else {
            front.push(suffix_char(indices.last()))
        }
    }
}

/// All draws of some samples, in the order of the samples.
pub open spec fn all_draws(samples: Seq<Seq<Draw>>) -> Seq<Draw>
    decreases samples.len(),
{
    if samples.len() == 0 {
        Seq::empty()
    } else {
        all_draws(samples.drop_last()) + samples.last()
    }
}

/// Whether each sample selected the index that stands in its place.
pub open spec fn select(
    words: Seq<Seq<Seq<char>>>,
    samples: Seq<Seq<Draw>>,
    indices: Seq<int>,
) -> bool {
    &&& samples.len() == indices.len()
    &&& forall|n: int|
        0 <= n < samples.len() ==> sampling(domain(words, n), #[trigger] samples[n]) == Some(
            Ok::<int, AppError>(indices[n]),
        ) && 0 <= indices[n] < domain(words, n)
}

/// What generation makes of its samples, whose draws follow one another: all of
/// them selected an index, and the slug is their text where that is one; or the
/// last one that was tried failed.
pub open spec fn generation(
    words: Seq<Seq<Seq<char>>>,
    draws: Seq<Draw>,
    samples: Seq<Seq<Draw>>,
    indices: Seq<int>,
    r: Result<Slug, AppError>,
) -> bool {
    &&& draws == all_draws(samples)
    &&& if samples.len() == indices.len() {
        &&& samples.len() == sample_total()
        &&& select(words, samples, indices)
        &&& match r {
            Ok(slug) => valid_slug(slug@) && slug@ == readable(words, indices),
            Err(error) => !valid_slug(readable(words, indices)) && error == rejected(
                status::BAD_REQUEST,
                "Invalid site slug.",
            ),
        }
    } else {
        &&& 0 < samples.len() <= sample_total()
        &&& select(words, samples.drop_last(), indices)
        &&& r matches Err(error) && sampling(domain(words, samples.len() - 1), samples.last())
            == Some(Err::<int, AppError>(error))
    }
}

/// What generation makes of a row of draws.
pub open spec fn generated(
    words: Seq<Seq<Seq<char>>>,
    draws: Seq<Draw>,
    r: Result<Slug, AppError>,
) -> bool {
    exists|samples: Seq<Seq<Draw>>, indices: Seq<int>| #[trigger]
        generation(words, draws, samples, indices, r)
}

/// The draws of a row alone decide how many of them are taken and what is made
/// of them.
pub proof fn draws_decide_the_slug(
    words: Seq<Seq<Seq<char>>>,
    draws: Seq<Draw>,
    more: Seq<Draw>,
    r: Result<Slug, AppError>,
    s: Result<Slug, AppError>,
)
    requires
        generated(words, draws, r),
        generated(words, more, s),
        draws.len() <= more.len(),
        more.take(draws.len() as int) == draws,
    ensures
        draws == more,
        match (r, s) {
            (Ok(a), Ok(b)) => a@ == b@,
            (Err(a), Err(b)) => a == b,
            _ => false,
        },
{
    let (left, first) = choose|samples: Seq<Seq<Draw>>, indices: Seq<int>| #[trigger]
        generation(words, draws, samples, indices, r);
    let (right, second) = choose|samples: Seq<Seq<Draw>>, indices: Seq<int>| #[trigger]
        generation(words, more, samples, indices, s);
    let n = if left.len() <= right.len() {
        left.len() as int
    } else {
        right.len() as int
    };
    assert forall|i: int| 0 <= i < left.len() implies sampling(
        domain(words, i),
        #[trigger] left[i],
    ) is Some by {
        if i < first.len() && first.len() != left.len() {
            assert(left.drop_last()[i] == left[i]);
        }
    }
    assert forall|i: int| 0 <= i < right.len() implies sampling(
        domain(words, i),
        #[trigger] right[i],
    ) is Some by {
        if i < second.len() && second.len() != right.len() {
            assert(right.drop_last()[i] == right[i]);
        }
    }
    same_samples(words, left, right, n);
    assert forall|i: int| 0 <= i < n implies #[trigger] left[i] == right[i] by {
        assert(left.take(n)[i] == right.take(n)[i]);
    }
    assert forall|i: int| 0 <= i < first.len() implies sampling(
        domain(words, i),
        #[trigger] left[i],
    ) == Some(Ok::<int, AppError>(first[i])) by {
        if first.len() != left.len() {
            assert(left.drop_last()[i] == left[i]);
        }
    }
    assert forall|i: int| 0 <= i < second.len() implies sampling(
        domain(words, i),
        #[trigger] right[i],
    ) == Some(Ok::<int, AppError>(second[i])) by {
        if second.len() != right.len() {
            assert(right.drop_last()[i] == right[i]);
        }
    }
    assert(left[n - 1] == right[n - 1]);
    assert(left.len() == right.len());
    assert(left =~= right);
    assert(first.len() == second.len());
    assert forall|i: int| 0 <= i < first.len() implies #[trigger] first[i] == second[i] by {
        assert(left[i] == right[i]);
    }
    assert(first =~= second);
}

/// Samples whose draws begin in the same way are the same samples.
proof fn same_samples(
    words: Seq<Seq<Seq<char>>>,
    left: Seq<Seq<Draw>>,
    right: Seq<Seq<Draw>>,
    n: int,
)
    requires
        0 <= n <= left.len(),
        n <= right.len(),
        all_draws(left).len() <= all_draws(right).len(),
        all_draws(right).take(all_draws(left).len() as int) == all_draws(left),
        forall|i: int|
            0 <= i < left.len() ==> sampling(domain(words, i), #[trigger] left[i]) is Some,
        forall|i: int|
            0 <= i < right.len() ==> sampling(domain(words, i), #[trigger] right[i]) is Some,
    ensures
        left.take(n) == right.take(n),
    decreases n,
{
    if n > 0 {
        same_samples(words, left, right, n - 1);
        let before = all_draws(left.take(n - 1));
        let a = left[n - 1];
        let b = right[n - 1];
        all_draws_begin(left, n);
        all_draws_begin(right, n);
        assert(left.take(n).drop_last() =~= left.take(n - 1));
        assert(right.take(n).drop_last() =~= right.take(n - 1));
        let p = before.len() as int;
        assert(all_draws(left.take(n)) == before + a);
        assert(all_draws(right.take(n)) == before + b);
        let shared = if a.len() <= b.len() {
            a.len() as int
        } else {
            b.len() as int
        };
        assert forall|i: int| 0 <= i < shared implies #[trigger] a[i] == b[i] by {
            assert((before + a)[p + i] == a[i]);
            assert((before + b)[p + i] == b[i]);
            assert(all_draws(left)[p + i] == (before + a)[p + i]);
            assert(all_draws(right)[p + i] == (before + b)[p + i]);
            assert(all_draws(right).take(all_draws(left).len() as int)[p + i] == all_draws(
                left,
            )[p + i]);
        }
        if a.len() < b.len() {
            no_draw_is_taken_in_vain(domain(words, n - 1), b, shared);
            assert(b.take(shared) =~= a);
        } else if b.len() < a.len() {
            no_draw_is_taken_in_vain(domain(words, n - 1), a, shared);
            assert(a.take(shared) =~= b);
        }
        assert(a =~= b);
        assert(left.take(n) =~= left.take(n - 1).push(a));
        assert(right.take(n) =~= right.take(n - 1).push(b));
    } else {
        assert(left.take(n) =~= right.take(n));
    }
}

/// The draws of the first samples are the first draws.
proof fn all_draws_begin(samples: Seq<Seq<Draw>>, n: int)
    requires
        0 <= n <= samples.len(),
    ensures
        all_draws(samples.take(n)).len() <= all_draws(samples).len(),
        all_draws(samples).take(all_draws(samples.take(n)).len() as int) == all_draws(
            samples.take(n),
        ),
        forall|i: int|
            0 <= i < all_draws(samples.take(n)).len() ==> #[trigger] all_draws(samples)[i]
                == all_draws(samples.take(n))[i],
    decreases samples.len(),
{
    if n == samples.len() {
        assert(samples.take(n) =~= samples);
    } else {
        all_draws_begin(samples.drop_last(), n);
        assert(samples.drop_last().take(n) =~= samples.take(n));
    }
}

/// Three lists whose words all have the shape of a word.
pub open spec fn shaped(words: Seq<Seq<Seq<char>>>) -> bool {
    &&& words.len() == 3
    &&& forall|n: int, i: int|
        0 <= n < 3 && 0 <= i < words[n].len() ==> word_shape(#[trigger] words[n][i])
}

/// A row without separators added to a text adds no part to it.
proof fn split_plain(s: Seq<char>, row: Seq<char>, sep: char)
    requires
        !row.contains(sep),
    ensures
        split(s + row, sep).len() == split(s, sep).len(),
    decreases row.len(),
{
    crate::text::split_nonempty(s + row.drop_last(), sep);
    if row.len() == 0 {
        assert(s + row =~= s);
    } else {
        assert(row.contains(row.last()));
        assert forall|c: char| row.drop_last().contains(c) implies row.contains(c) by {
            let i = choose|i: int| 0 <= i < row.drop_last().len() && row.drop_last()[i] == c;
            assert(row[i] == c);
        }
        split_plain(s, row.drop_last(), sep);
        assert((s + row).drop_last() =~= s + row.drop_last());
    }
}

/// The shape of the text of the first samples.
proof fn readable_shape(words: Seq<Seq<Seq<char>>>, indices: Seq<int>)
    requires
        shaped(words),
        indices.len() <= sample_total(),
        forall|n: int| 0 <= n < indices.len() ==> 0 <= #[trigger] indices[n] < domain(words, n),
    ensures
        forall|i: int|
            0 <= i < readable(words, indices).len() ==> slug_char(#[trigger] readable(words, indices)[i]),
        indices.len() > 0 ==> readable(words, indices).len() > 0 && readable(words, indices)[0] != '-',
        indices.len() > 3 ==> readable(words, indices).last() != '-',
        indices.len() <= 3 ==> 2 * indices.len() <= readable(words, indices).len() <= 13 * indices.len(),
        indices.len() >= 3 ==> 3 + indices.len() <= readable(words, indices).len() <= 36 + indices.len(),
        split(readable(words, indices), '-').len() == 1 + if indices.len() < 3 {
            indices.len() as int
        } else {
            3int
        },
    decreases indices.len(),
{
    if indices.len() == 0 {
        reveal_with_fuel(split, 1);
    } else {
        let front = indices.drop_last();
        readable_shape(words, front);
        let n = indices.len() - 1;
        let index = indices.last();
        let before = readable(words, front);
        if n < 3 {
            let word = words[n][index];
            assert(word_shape(word));
            assert(!word.contains('-'));
            split_plain(before, word, '-');
            assert((before + word + seq!['-']).drop_last() =~= before + word);
        } else {
            let one = seq![suffix_char(index)];
            assert(before.push(suffix_char(index)) =~= before + one);
            split_plain(before, one, '-');
        }
    }
}

proof fn readable_is_slug(words: Seq<Seq<Seq<char>>>, indices: Seq<int>)
    requires
        shaped(words),
        indices.len() == sample_total(),
        forall|n: int| 0 <= n < indices.len() ==> 0 <= #[trigger] indices[n] < domain(words, n),
    ensures
        valid_slug(readable(words, indices)),
        split(readable(words, indices), '-').len() == 4,
{
    readable_shape(words, indices);
    reveal_strlit("api");
    reveal_strlit("static");
    reveal_strlit("login");
    reveal_strlit("logout");
    reveal_strlit("new");
    reveal_strlit("s");
    reveal_strlit("health");
    assert(!reserved(readable(words, indices)));
}

fn suffix(index: usize) -> (r: char)
    requires
        index < SUFFIX_CHARACTERS,
    ensures
        r == suffix_char(index as int),
{
    if index < 26 {
        (97 + index as u8) as char
    } else {
        (48 + (index as u8 - 26)) as char
    }
}

/// The word that a sample selected, with its hyphen.
fn push_word(value: &mut String, words: &Vec<&'static str>, index: usize)
    requires
        index < words@.len(),
    ensures
        final(value)@ == old(value)@ + texts(words@)[index as int] + seq!['-'],
{
    push_text(value, words[index]);
    value.push('-');
    assert(value@ =~= old(value)@ + texts(words@)[index as int] + seq!['-']);
}

/// Builds a readable slug from three lists of words and a source of draws: a
/// word of each list and a suffix of eight characters, between hyphens. Each
/// sample takes the draws behind those of the sample before it.
pub fn generate_from(
    lists: &(Vec<&'static str>, Vec<&'static str>, Vec<&'static str>),
    draws: &mut Draws,
) -> (r: Result<Slug, AppError>)
    ensures
        drawn_on(*old(draws), *final(draws)),
        generated(word_lists(*lists), between(*old(draws), *final(draws)), r),
{
    let ghost words = word_lists(*lists);
    let ghost before = *draws;
    let ghost mut samples: Seq<Seq<Draw>> = Seq::empty();
    let ghost mut indices: Seq<int> = Seq::empty();
    let mut value = String::new();
    let mut n: usize = 0;
    proof {
        assert(between(before, *draws) =~= Seq::empty());
        assert(before.taken() =~= before.taken() + Seq::empty());
        assert(value@ =~= readable(words, indices));
    }
    while n < 3 + SUFFIX_LENGTH
        invariant
            n <= 3 + SUFFIX_LENGTH,
            words == word_lists(*lists),
            before == *old(draws),
            drawn_on(before, *draws),
            between(before, *draws) == all_draws(samples),
            samples.len() == n,
            select(words, samples, indices),
            value@ == readable(words, indices),
        decreases 3 + SUFFIX_LENGTH - n,
    {
        let length: usize = if n == 0 {
            lists.0.len()
        } else if n == 1 {
            lists.1.len()
        } else if n == 2 {
            lists.2.len()
        } else {
            SUFFIX_CHARACTERS
        };
        assert(length == domain(words, n as int));
        let ghost earlier = *draws;
        let sample: Result<usize, AppError> = sample_index(length, draws);
        let ghost one = between(earlier, *draws);
        let ghost all = samples.push(one);
        proof {
            drawn_on_further(before, earlier, *draws);
            assert(all.drop_last() =~= samples);
        }
        let index: usize = match sample {
            Ok(index) => index,
            Err(error) => {
                assert(generation(
                    words,
                    between(before, *draws),
                    all,
                    indices,
                    Err::<Slug, AppError>(error),
                ));
                return Err(error);
            },
        };
        let ghost chosen = indices.push(index as int);
        proof {
            assert(chosen.drop_last() =~= indices);
            assert(select(words, all, chosen));
        }
        if n == 0 {
            push_word(&mut value, &lists.0, index);
        } else if n == 1 {
            push_word(&mut value, &lists.1, index);
        } else if n == 2 {
            push_word(&mut value, &lists.2, index);
        } else {
            value.push(suffix(index));
        }
        proof {
            samples = all;
            indices = chosen;
        }
        n = n + 1;
    }
    let r: Result<Slug, AppError> = Slug::parse(value.as_str());
    assert(generation(words, between(before, *draws), samples, indices, r));
    r
}

/// Builds a readable slug of the dictionaries from independent, fallible random
/// samples.
pub fn generate_with(draws: &mut Draws) -> (r: Result<Slug, AppError>)
    ensures
        drawn_on(*old(draws), *final(draws)),
        made_of_dictionaries(between(*old(draws), *final(draws)), r),
        r matches Ok(slug) ==> split(slug@, '-').len() == 4,
{
    let lists = medium_dictionaries();
    let ghost words = word_lists(lists);
    let ghost before = *draws;
    assert(dictionaries_give(words));
    let r: Result<Slug, AppError> = generate_from(&lists, draws);
    proof {
        let row = between(before, *draws);
        let (samples, indices) = choose|samples: Seq<Seq<Draw>>, indices: Seq<int>| #[trigger]
            generation(words, row, samples, indices, r);
        assert(shaped(words));
        if samples.len() == indices.len() {
            assert forall|n: int| 0 <= n < indices.len() implies 0 <= #[trigger] indices[n]
                < domain(words, n) by {
                assert(sampling(domain(words, n), samples[n]) is Some);
            }
            readable_is_slug(words, indices);
        }
    }
    r
}

/// What generation makes of the dictionaries and a row of draws.
pub open spec fn made_of_dictionaries(draws: Seq<Draw>, r: Result<Slug, AppError>) -> bool {
    exists|words: Seq<Seq<Seq<char>>>| #[trigger]
        dictionaries_give(words) && shaped(words) && generated(words, draws, r)
}

/// A slug or a failure that the operating system's draws led to.
pub open spec fn from_system(r: Result<Slug, AppError>) -> bool {
    exists|draws: Seq<Draw>|
        gives_row(None, Seq::empty(), draws) && #[trigger] made_of_dictionaries(draws, r)
}

impl Slug {
    /// Samples medium dictionaries and eight independent suffix characters
    /// from the operating system's entropy. A failure is one of the entropy
    /// source or of the sampling.
    pub fn generate() -> (r: Result<Self, AppError>)
        ensures
            from_system(r),
            r matches Ok(slug) ==> split(slug@, '-').len() == 4,
            r matches Err(error) ==> error == publishing_failure(),
    {
        let mut draws: Draws = Draws::system();
        let ghost before = draws;
        let r: Result<Slug, AppError> = generate_with(&mut draws);
        proof {
            let row = between(before, draws);
            assert(from_system(r));
            if r is Err {
                failures_are_operational(row, r);
            }
        }
        r
    }
}

/// Draws of the operating system fail with nothing but an operational failure.
proof fn failures_are_operational(row: Seq<Draw>, r: Result<Slug, AppError>)
    requires
        gives_row(None, Seq::empty(), row),
        made_of_dictionaries(row, r),
        r is Err,
    ensures
        r == Err::<Slug, AppError>(publishing_failure()),
{
    let words = choose|words: Seq<Seq<Seq<char>>>| #[trigger]
        dictionaries_give(words) && shaped(words) && generated(words, row, r);
    let (samples, indices) = choose|samples: Seq<Seq<Draw>>, indices: Seq<int>| #[trigger]
        generation(words, row, samples, indices, r);
    if samples.len() == indices.len() {
        assert forall|n: int| 0 <= n < indices.len() implies 0 <= #[trigger] indices[n] < domain(
            words,
            n,
        ) by {
            assert(sampling(domain(words, n), samples[n]) is Some);
        }
        readable_is_slug(words, indices);
    } else {
        let last = samples.last();
        if last.len() > 0 {
            let at = row.len() - 1;
            assert(row == all_draws(samples.drop_last()) + last);
            assert(row[at] == last.last());
            assert(gives(None, Seq::<Draw>::empty() + row.take(at), row[at]));
            assert(system_gives(last.last()));
        }
    }
}

}
