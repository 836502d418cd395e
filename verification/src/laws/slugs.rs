//! How a slug is made up where none was asked for.
use crate::error::{AppError, ErrorKind};
use crate::sites::generate::{domain, generated, generation, gives, readable, sampling, suffix_char, Draw};
use crate::sites::validate::Slug;
use vstd::prelude::*;

verus! {

/// The characters that end a generated slug: small letters, then digits.
pub open spec fn alphabet() -> Seq<char> {
    seq![
        'a',
        'b',
        'c',
        'd',
        'e',
        'f',
        'g',
        'h',
        'i',
        'j',
        'k',
        'l',
        'm',
        'n',
        'o',
        'p',
        'q',
        'r',
        's',
        't',
        'u',
        'v',
        'w',
        'x',
        'y',
        'z',
        '0',
        '1',
        '2',
        '3',
        '4',
        '5',
        '6',
        '7',
        '8',
        '9',
    ]
}

/// A generated slug is three words with a hyphen behind each, one from every
/// list in turn, and eight characters of the alphabet, each as it was drawn.
pub proof fn slugs_are_three_words_and_a_suffix(
    words: Seq<Seq<Seq<char>>>,
    indices: Seq<int>,
    k: int,
)
    requires
        words.len() == 3,
        indices.len() == 11,
        forall|i: int| 3 <= i < 11 ==> 0 <= #[trigger] indices[i] < 36,
        0 <= k < 8,
    ensures
        ({
            let head = words[0][indices[0]] + seq!['-'] + words[1][indices[1]] + seq!['-']
                + words[2][indices[2]] + seq!['-'];
            let slug = readable(words, indices);
            &&& slug.len() == head.len() + 8
            &&& slug.take(head.len() as int) == head
            &&& slug[head.len() + k] == alphabet()[indices[3 + k]]
        }),
{
    let head = words[0][indices[0]] + seq!['-'] + words[1][indices[1]] + seq!['-']
        + words[2][indices[2]] + seq!['-'];
    words_come_first(words, indices);
    suffix_follows(words, indices, 8);
    let slug = readable(words, indices.take(11));
    assert(indices.take(11) =~= indices);
    assert(slug.take(head.len() as int) =~= head);
    assert(slug[head.len() + k] == suffix_char(indices[3 + k]));
    drawn_characters(indices[3 + k]);
}

/// The characters of a suffix are those of the alphabet in its order, so no two
/// draws give the same one.
pub proof fn drawn_characters(index: int)
    requires
        0 <= index < 36,
    ensures
        suffix_char(index) == alphabet()[index],
{
}

proof fn words_come_first(words: Seq<Seq<Seq<char>>>, indices: Seq<int>)
    requires
        words.len() == 3,
        indices.len() == 11,
    ensures
        readable(words, indices.take(3)) == words[0][indices[0]] + seq!['-'] + words[1][indices[1]]
            + seq!['-'] + words[2][indices[2]] + seq!['-'],
{
    assert(indices.take(1).drop_last() =~= Seq::empty());
    assert(indices.take(2).drop_last() =~= indices.take(1));
    assert(indices.take(3).drop_last() =~= indices.take(2));
    assert(readable(words, Seq::empty()) =~= Seq::empty());
    assert(readable(words, indices.take(1)) =~= words[0][indices[0]] + seq!['-']);
    assert(readable(words, indices.take(2)) =~= words[0][indices[0]] + seq!['-']
        + words[1][indices[1]] + seq!['-']);
    assert(readable(words, indices.take(3)) =~= words[0][indices[0]] + seq!['-']
        + words[1][indices[1]] + seq!['-'] + words[2][indices[2]] + seq!['-']);
}

proof fn suffix_follows(words: Seq<Seq<Seq<char>>>, indices: Seq<int>, n: int)
    requires
        words.len() == 3,
        indices.len() == 11,
        0 <= n <= 8,
    ensures
        ({
            let head = readable(words, indices.take(3));
            let slug = readable(words, indices.take(3 + n));
            &&& slug.len() == head.len() + n
            &&& slug.take(head.len() as int) == head
            &&& forall|k: int|
                0 <= k < n ==> #[trigger] slug[head.len() + k] == suffix_char(indices[3 + k])
        }),
    decreases n,
{
    let head = readable(words, indices.take(3));
    if n == 0 {
        assert(head.take(head.len() as int) =~= head);
    } else {
        suffix_follows(words, indices, n - 1);
        assert(indices.take(3 + n).drop_last() =~= indices.take(2 + n));
        let slug = readable(words, indices.take(3 + n));
        let front = readable(words, indices.take(2 + n));
        assert(slug == front.push(suffix_char(indices[2 + n])));
        assert(slug.take(head.len() as int) =~= front.take(head.len() as int));
        assert forall|k: int| 0 <= k < n implies #[trigger] slug[head.len() + k] == suffix_char(
            indices[3 + k],
        ) by {
            if k < n - 1 {
                assert(slug[head.len() + k] == front[head.len() + k]);
            }
        }
    }
}

/// A draw decides by its remainder where it is not among the few that would make
/// some remainders likelier; those are drawn again, at most 64 times in all. A
/// draw that fails is a failure, and there is nothing to choose from nothing.
pub proof fn draws_decide_by_their_remainder(bound: int, draw: u64, error: AppError)
    requires
        0 < bound <= 0x1_0000_0000_0000_0000,
    ensures
        ({
            let unfair = 0x1_0000_0000_0000_0000int % bound;
            &&& draw >= unfair ==> sampling(bound, seq![Ok::<u64, AppError>(draw)]) == Some(
                Ok::<int, AppError>(draw as int % bound),
            )
            &&& draw < unfair ==> sampling(bound, seq![Ok::<u64, AppError>(draw)]) is None
            &&& draw < unfair ==> sampling(bound, Seq::new(64, |i: int| Ok::<u64, AppError>(draw)))
                == Some(Err::<int, AppError>(AppError { kind: ErrorKind::Publishing }))
            &&& draw < unfair ==> sampling(bound, Seq::new(63, |i: int| Ok::<u64, AppError>(draw)))
                is None
            &&& sampling(bound, seq![Err::<u64, AppError>(error)]) == Some(
                Err::<int, AppError>(error),
            )
            &&& sampling(0, Seq::empty()) == Some(
                Err::<int, AppError>(AppError { kind: ErrorKind::Publishing }),
            )
        }),
{
}

/// A draw that is discarded makes no difference to what is drawn after it.
pub proof fn discarded_draws_make_no_difference(bound: int, first: u64, next: Draw)
    requires
        0 < bound <= 0x1_0000_0000_0000_0000,
        first < 0x1_0000_0000_0000_0000int % bound,
    ensures
        sampling(bound, seq![Ok::<u64, AppError>(first), next]) == sampling(bound, seq![next]),
{
    let both = seq![Ok::<u64, AppError>(first), next];
    assert(crate::sites::generate::discarded(bound, both[0]));
    assert forall|i: int| 0 <= i < both.len() - 1 implies crate::sites::generate::discarded(
        bound,
        #[trigger] both[i],
    ) by {
        assert(i == 0);
    }
}

/// What generation gives is such a slug, of eleven draws that each decided within
/// its list: one word of every list, and eight of the 36 characters.
pub proof fn generated_slugs_have_that_form(
    words: Seq<Seq<Seq<char>>>,
    draws: Seq<Draw>,
    slug: Slug,
)
    requires
        words.len() == 3,
        generated(words, draws, Ok(slug)),
    ensures
        exists|indices: Seq<int>|
            slug@ == #[trigger] readable(words, indices) && indices.len() == 11 && chosen_within(
                words,
                indices,
            ),
{
    let (samples, indices) = choose|samples: Seq<Seq<Draw>>, indices: Seq<int>| #[trigger]
        generation(words, draws, samples, indices, Ok(slug));
    assert forall|i: int| 0 <= i < 11 implies 0 <= #[trigger] indices[i] < if i < 3 {
        words[i].len() as int
    } else {
        36
    } by {
        assert(sampling(domain(words, i), samples[i]) is Some);
    }
    assert(chosen_within(words, indices));
    assert(slug@ == readable(words, indices));
}

/// Each index lies within what it chooses from.
pub open spec fn chosen_within(words: Seq<Seq<Seq<char>>>, indices: Seq<int>) -> bool {
    forall|i: int|
        0 <= i < indices.len() ==> 0 <= #[trigger] indices[i] < if i < 3 {
            words[i].len() as int
        } else {
            36
        }
}

/// A given row of draws is taken from its front, one after the other, and fails
/// behind its end.
pub proof fn given_draws_are_taken_in_order(row: Seq<Draw>, taken: Seq<Draw>, draw: Draw)
    ensures
        taken.len() < row.len() ==> (gives(Some(row), taken, draw) <==> draw
            == row[taken.len() as int]),
        taken.len() >= row.len() ==> (gives(Some(row), taken, draw) <==> draw == Err::<
            u64,
            AppError,
        >(AppError { kind: ErrorKind::Publishing })),
{
}

}
