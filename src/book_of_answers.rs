//! The book of answers: a fixed table of quotes.
use crate::rng::{random_index, seeded_index, std_rng_index};
use crate::seed::{answer_seed, SeedGenerator};
use vstd::prelude::*;

verus! {

/// The quotes, loaded once; never empty, and few enough to index with `u32`.
pub struct BookOfAnswers {
    pub quotes: Vec<String>,
}

impl BookOfAnswers {
    pub open spec fn wf(&self) -> bool {
        self.quotes@.len() > 0 && self.quotes@.len() <= u32::MAX
    }

    /// A book of these quotes; `None` when there is none, or more than
    /// `u32::MAX`.
    pub fn new(quotes: Vec<String>) -> (r: Option<BookOfAnswers>)
        ensures
            0 < quotes@.len() <= u32::MAX ==> (r matches Some(b) && b.quotes@ == quotes@ && b.wf()),
            !(0 < quotes@.len() <= u32::MAX) ==> r is None,
    {
        if quotes.len() == 0 || quotes.len() > u32::MAX as usize {
            None
        } else {
            Some(BookOfAnswers { quotes })
        }
    }

    /// The index of the quote for `author` at unix time `now`: the same for a
    /// prompt within one minute, a fresh draw without one.
    pub fn draw_index(&self, prompt: Option<&str>, author: u64, now: u64) -> (r: usize)
        requires
            self.wf(),
        ensures
            r < self.quotes@.len(),
            prompt matches Some(p) ==> r == std_rng_index(
                answer_seed(now, author, p@),
                self.quotes@.len() as u32,
            ) as usize,
    {
        match prompt {
            Some(p) => seeded_index(SeedGenerator::answer_seed(now, author, p), self.quotes.len() as u32) as usize,
            None => random_index(self.quotes.len()),
        }
    }

    /// The quote for `author` at unix time `now`.
    pub fn draw(&self, prompt: Option<&str>, author: u64, now: u64) -> (r: &String)
        requires
            self.wf(),
        ensures
            exists|i: int| 0 <= i < self.quotes@.len() && r == self.quotes@[i],
            prompt matches Some(p) ==> r == self.quotes@[std_rng_index(
                answer_seed(now, author, p@),
                self.quotes@.len() as u32,
            ) as int],
    {
        let i = self.draw_index(prompt, author, now);
        &self.quotes[i]
    }
}

/// Two book-of-answers draws with the same user and prompt in the same minute
/// give the same quote.
pub proof fn lemma_answer_stable(book: BookOfAnswers, t1: u64, t2: u64, author: u64, prompt: Seq<char>)
    requires
        crate::seed::bucket_index(t1 as nat, crate::seed::TimeHash::Minute) == crate::seed::bucket_index(
            t2 as nat,
            crate::seed::TimeHash::Minute,
        ),
    ensures
        std_rng_index(answer_seed(t1, author, prompt), book.quotes@.len() as u32) == std_rng_index(
            answer_seed(t2, author, prompt),
            book.quotes@.len() as u32,
        ),
{
    crate::seed::lemma_answer_seed_stable(t1, t2, author, prompt);
}

} // verus!
