//! The Clow card catalogue: lookup by name and reproducible draws.
use crate::custom_id::{token_of, CustomId};
use crate::format::{decimal, push_decimal};
use crate::response_data::{Button, Embed, PRIMARY};
use crate::rng::{seeded_sample, std_rng_sample};
use crate::seed::{draw_seed, opt_text, SeedGenerator};
use vstd::prelude::*;

verus! {

/// One card of the catalogue.
#[derive(Debug)]
pub struct ClowCard {
    pub name: String,
    pub meaning: String,
    pub img_id: u64,
    /// The card's full text.
    pub full: String,
}

/// `a` comes before `b` in the order of `str`'s `Ord`, character by character.
pub open spec fn lex_lt(a: Seq<char>, b: Seq<char>) -> bool
    decreases a.len(),
{
    if a.len() == 0 {
        b.len() > 0
    } else if b.len() == 0 {
        false
    } else if a[0] != b[0] {
        a[0] < b[0]
    } else {
        lex_lt(a.drop_first(), b.drop_first())
    }
}

proof fn lemma_lex_trans(a: Seq<char>, b: Seq<char>, c: Seq<char>)
    requires
        lex_lt(a, b),
        lex_lt(b, c),
    ensures
        lex_lt(a, c),
    decreases a.len(),
{
    if a.len() > 0 && b.len() > 0 && c.len() > 0 && a[0] == b[0] && b[0] == c[0] {
        lemma_lex_trans(a.drop_first(), b.drop_first(), c.drop_first());
    }
}

proof fn lemma_lex_irrefl(a: Seq<char>, b: Seq<char>)
    requires
        lex_lt(a, b),
    ensures
        a != b,
        !lex_lt(b, a),
    decreases a.len(),
{
    if a.len() > 0 && b.len() > 0 && a[0] == b[0] {
        lemma_lex_irrefl(a.drop_first(), b.drop_first());
    }
}

proof fn lemma_lex_total(a: Seq<char>, b: Seq<char>)
    ensures
        a == b || lex_lt(a, b) || lex_lt(b, a),
    decreases a.len(),
{
    if a.len() > 0 && b.len() > 0 && a[0] == b[0] {
        lemma_lex_total(a.drop_first(), b.drop_first());
        if a.drop_first() == b.drop_first() {
            assert(a =~= seq![a[0]] + a.drop_first());
            assert(b =~= seq![b[0]] + b.drop_first());
        }
    } else if a.len() == 0 && b.len() == 0 {
        assert(a =~= b);
    }
}

/// Compares two names: negative, zero or positive.
fn compare(a: &str, b: &str) -> (r: i8)
    ensures
        r < 0 <==> lex_lt(a@, b@),
        r == 0 <==> a@ == b@,
        r > 0 <==> lex_lt(b@, a@),
{
    let n = a.unicode_len();
    let m = b.unicode_len();
    let mut i: usize = 0;
    proof {
        lemma_lex_total(a@, b@);
        if lex_lt(a@, b@) {
            lemma_lex_irrefl(a@, b@);
        }
        if lex_lt(b@, a@) {
            lemma_lex_irrefl(b@, a@);
        }
    }
    assert(a@.skip(0) =~= a@);
    assert(b@.skip(0) =~= b@);
    while i < n && i < m && a.get_char(i) == b.get_char(i)
        invariant
            n == a@.len(),
            m == b@.len(),
            0 <= i <= n,
            i <= m,
            lex_lt(a@, b@) == lex_lt(a@.skip(i as int), b@.skip(i as int)),
            lex_lt(b@, a@) == lex_lt(b@.skip(i as int), a@.skip(i as int)),
            a@ == b@ <==> a@.skip(i as int) == b@.skip(i as int),
        decreases n - i,
    {
        let ghost x = a@.skip(i as int);
        let ghost y = b@.skip(i as int);
        assert(x.drop_first() =~= a@.skip(i + 1));
        assert(y.drop_first() =~= b@.skip(i + 1));
        assert(x =~= seq![x[0]] + x.drop_first());
        assert(y =~= seq![y[0]] + y.drop_first());
        i = i + 1;
    }
    let ghost x = a@.skip(i as int);
    let ghost y = b@.skip(i as int);
    if i == n && i == m {
        assert(x =~= y);
        0
    } else if i == n {
        -1
    } else if i == m {
        1
    } else {
        let c = a.get_char(i);
        let d = b.get_char(i);
        assert(x[0] == c && y[0] == d);
        if c < d {
            -1
        } else {
            1
        }
    }
}

/// The catalogue, in ascending order of names.
pub struct ClowCardDeck {
    pub cards: Vec<ClowCard>,
}

pub open spec fn names_sorted(cards: Seq<ClowCard>) -> bool {
    forall|i: int, j: int| 0 <= i < j < cards.len() ==> lex_lt(cards[i].name@, cards[j].name@)
}

/// What a button of a drawn card carries.
pub open spec fn card_button(card: ClowCard, b: Button) -> bool {
    &&& b.custom_id@ == token_of(card.name@)
    &&& b.label@ == "The "@ + card.name@
    &&& b.emoji == MAGIC_BOOK
}

/// The picture of a card.
pub open spec fn card_image_url(card: ClowCard) -> Seq<char> {
    "https://cdn.discordapp.com/attachments/953801841412538368/"@ + decimal(card.img_id as nat) + "/The"@
        + card.name@ + ".jpg"@
}

/// What the block of a drawn card holds.
pub open spec fn card_embed(card: ClowCard, e: Embed) -> bool {
    &&& e.title matches Some(t) && t@ == "The "@ + card.name@
    &&& e.description matches Some(d) && d@ == card.meaning@
    &&& e.thumbnail matches Some(u) && u@ == card_image_url(card)
    &&& e.color == PRIMARY
}

impl ClowCardDeck {
    pub open spec fn wf(&self) -> bool {
        names_sorted(self.cards@)
    }

    /// A deck of these cards, which must come in ascending order of names with
    /// no name twice; `None` otherwise.
    pub fn new(cards: Vec<ClowCard>) -> (r: Option<ClowCardDeck>)
        ensures
            names_sorted(cards@) ==> (r matches Some(d) && d.cards@ == cards@),
            r matches Some(d) ==> d.cards@ == cards@ && d.wf(),
    {
        let mut k: usize = 1;
        while k < cards.len()
            invariant
                1 <= k,
                k <= cards.len() || cards.len() == 0,
                forall|i: int, j: int|
                    0 <= i < j < k && j < cards@.len() ==> lex_lt(cards@[i].name@, cards@[j].name@),
            decreases cards.len() - k,
        {
            if compare(cards[k - 1].name.as_str(), cards[k].name.as_str()) >= 0 {
                proof {
                    if lex_lt(cards@[k - 1].name@, cards@[k as int].name@) {
                        lemma_lex_irrefl(cards@[k - 1].name@, cards@[k as int].name@);
                    }
                }
                return None;
            }
            proof {
                assert forall|i: int, j: int|
                    0 <= i < j < k + 1 && j < cards@.len() implies lex_lt(
                    cards@[i].name@,
                    cards@[j].name@,
                ) by {
                    if j == k && i < k - 1 {
                        lemma_lex_trans(cards@[i].name@, cards@[k - 1].name@, cards@[j].name@);
                    }
                }
            }
            k = k + 1;
        }
        Some(ClowCardDeck { cards })
    }

    /// The full text of a card.
    pub fn long(card: &ClowCard) -> (r: &str)
        ensures
            r@ == card.full@,
    {
        card.full.as_str()
    }

    /// The full text of the card of this exact name, found by binary search.
    pub fn long_by_name(&self, name: &str) -> (r: Option<&str>)
        requires
            self.wf(),
        ensures
            r is Some <==> exists|i: int| 0 <= i < self.cards@.len() && self.cards@[i].name@ == name@,
            r matches Some(t) ==> exists|i: int|
                0 <= i < self.cards@.len() && self.cards@[i].name@ == name@ && t@
                    == self.cards@[i].full@,
    {
        let mut lo: usize = 0;
        let mut hi: usize = self.cards.len();
        while lo < hi
            invariant
                self.wf(),
                0 <= lo <= hi <= self.cards@.len(),
                forall|j: int| 0 <= j < lo ==> lex_lt(#[trigger] self.cards@[j].name@, name@),
                forall|j: int| hi <= j < self.cards@.len() ==> lex_lt(name@, #[trigger] self.cards@[j].name@),
            decreases hi - lo,
        {
            let mid = lo + (hi - lo) / 2;
            let c = compare(self.cards[mid].name.as_str(), name);
            if c == 0 {
                return Some(Self::long(&self.cards[mid]));
            } else if c < 0 {
                proof {
                    assert forall|j: int| 0 <= j < mid + 1 implies lex_lt(#[trigger] self.cards@[j].name@, name@) by {
                        if j < mid {
                            lemma_lex_trans(self.cards@[j].name@, self.cards@[mid as int].name@, name@);
                        }
                    }
                }
                lo = mid + 1;
            } else {
                proof {
                    assert forall|j: int| mid <= j < self.cards@.len() implies lex_lt(name@, #[trigger] self.cards@[j].name@) by {
                        if j > mid {
                            lemma_lex_trans(name@, self.cards@[mid as int].name@, self.cards@[j].name@);
                        }
                    }
                }
                hi = mid;
            }
        }
        proof {
            assert forall|i: int| 0 <= i < self.cards@.len() implies self.cards@[i].name@ != name@ by {
                if i < lo {
                    lemma_lex_irrefl(self.cards@[i].name@, name@);
                } else {
                    lemma_lex_irrefl(name@, self.cards@[i].name@);
                }
            }
        }
        None
    }

    /// The number of cards a draw shows: `amount` (1 when absent), or the
    /// whole deck when it is smaller.
    pub open spec fn draw_count(&self, amount: Option<usize>) -> usize {
        let want = match amount {
            Some(a) => a,
            None => 1,
        };
        if want <= self.cards@.len() {
            want
        } else {
            self.cards@.len() as usize
        }
    }

    /// The catalogue positions that a draw shows.
    pub open spec fn drawn(&self, now: u64, prompt: Option<Seq<char>>, author: u64, amount: Option<usize>) -> Seq<usize> {
        std_rng_sample(draw_seed(now, author, prompt, amount), self.cards@.len() as usize, self.draw_count(amount))
    }

    /// The catalogue positions of the cards that a draw shows, all distinct.
    pub fn draw_indices(&self, now: u64, prompt: Option<&str>, author: u64, amount: Option<usize>) -> (r: Vec<usize>)
        ensures
            r@ == self.drawn(now, opt_text(prompt), author, amount),
            r@.len() == self.draw_count(amount),
            forall|i: int| 0 <= i < r@.len() ==> r@[i] < self.cards@.len(),
            forall|i: int, j: int| 0 <= i < j < r@.len() ==> r@[i] != r@[j],
    {
        let want = match amount {
            Some(a) => a,
            None => 1,
        };
        let n = if want <= self.cards.len() {
            want
        } else {
            self.cards.len()
        };
        let seed = SeedGenerator::draw_seed(now, author, prompt, amount);
        seeded_sample(seed, self.cards.len(), n)
    }

    /// The summary and the button of one card.
    fn short(card: &ClowCard) -> (r: (Embed, Button))
        ensures
            card_button(*card, r.1),
            card_embed(*card, r.0),
    {
        let mut title = String::from_str("The ");
        title.append(card.name.as_str());
        let mut url = String::from_str("https://cdn.discordapp.com/attachments/953801841412538368/");
        push_decimal(&mut url, card.img_id);
        url.append("/The");
        url.append(card.name.as_str());
        url.append(".jpg");
        assert(url@ =~= card_image_url(*card));
        let id = CustomId::ButtonClowcardInfo(card.name.clone());
        assert(id.name() == card.name@);
        let custom_id = id.to_token();
        let embed = Embed {
            title: Some(title.clone()),
            description: Some(card.meaning.clone()),
            thumbnail: Some(url),
            color: PRIMARY,
        };
        let button = Button { custom_id, label: title, emoji: MAGIC_BOOK };
        (embed, button)
    }

    /// Draws cards for `author` at unix time `now`: one summary and one button
    /// for each card that `draw_indices` picks, in the same order.
    pub fn draw(&self, now: u64, prompt: Option<&str>, author: u64, amount: Option<usize>) -> (r: (Vec<Embed>, Vec<Button>))
        ensures
            ({
                let idx = self.drawn(now, opt_text(prompt), author, amount);
                &&& r.0@.len() == idx.len()
                &&& r.1@.len() == idx.len()
                &&& idx.len() == self.draw_count(amount)
                &&& forall|i: int| 0 <= i < idx.len() ==> idx[i] < self.cards@.len()
                &&& forall|i: int, j: int| 0 <= i < j < idx.len() ==> idx[i] != idx[j]
                &&& forall|i: int|
                    0 <= i < idx.len() ==> #[trigger] card_button(self.cards@[idx[i] as int], r.1@[i])
                &&& forall|i: int|
                    0 <= i < idx.len() ==> #[trigger] card_embed(self.cards@[idx[i] as int], r.0@[i])
            }),
    {
        let idx = self.draw_indices(now, prompt, author, amount);
        let mut embeds: Vec<Embed> = Vec::new();
        let mut buttons: Vec<Button> = Vec::new();
        let mut i: usize = 0;
        while i < idx.len()
            invariant
                0 <= i <= idx@.len(),
                embeds@.len() == i,
                buttons@.len() == i,
                forall|k: int| 0 <= k < idx@.len() ==> idx@[k] < self.cards@.len(),
                forall|k: int| 0 <= k < i ==> #[trigger] card_button(self.cards@[idx@[k] as int], buttons@[k]),
                forall|k: int| 0 <= k < i ==> #[trigger] card_embed(self.cards@[idx@[k] as int], embeds@[k]),
            decreases idx@.len() - i,
        {
            let card = &self.cards[idx[i]];
            let (e, b) = Self::short(card);
            embeds.push(e);
            buttons.push(b);
            i = i + 1;
        }
        assert(forall|k: int| 0 <= k < idx@.len() ==> #[trigger] card_button(self.cards@[idx@[k] as int], buttons@[k]));
        assert(forall|k: int| 0 <= k < idx@.len() ==> #[trigger] card_embed(self.cards@[idx@[k] as int], embeds@[k]));
        (embeds, buttons)
    }
}

/// Two draws with the same inputs at times in the same bucket show the same
/// cards in the same order.
pub proof fn lemma_draw_stable(
    deck: ClowCardDeck,
    t1: u64,
    t2: u64,
    prompt: Option<Seq<char>>,
    author: u64,
    amount: Option<usize>,
)
    requires
        crate::seed::bucket_index(t1 as nat, crate::seed::draw_granularity(prompt is Some, amount is Some))
            == crate::seed::bucket_index(t2 as nat, crate::seed::draw_granularity(prompt is Some, amount is Some)),
    ensures
        deck.drawn(t1, prompt, author, amount) == deck.drawn(t2, prompt, author, amount),
{
    crate::seed::lemma_draw_seed_stable(t1, t2, author, prompt, amount);
}

/// In a well-formed deck, cards at distinct positions have distinct names, so
/// a draw never shows one card twice.
pub proof fn lemma_drawn_names_distinct(deck: ClowCardDeck, idx: Seq<usize>)
    requires
        deck.wf(),
        forall|i: int| 0 <= i < idx.len() ==> idx[i] < deck.cards@.len(),
        forall|i: int, j: int| 0 <= i < j < idx.len() ==> idx[i] != idx[j],
    ensures
        forall|i: int, j: int|
            0 <= i < j < idx.len() ==> deck.cards@[idx[i] as int].name@ != deck.cards@[idx[j] as int].name@,
{
    assert forall|i: int, j: int| 0 <= i < j < idx.len() implies deck.cards@[idx[i] as int].name@
        != deck.cards@[idx[j] as int].name@ by {
        let a = idx[i] as int;
        let b = idx[j] as int;
        if a < b {
            lemma_lex_irrefl(deck.cards@[a].name@, deck.cards@[b].name@);
        } else {
            lemma_lex_irrefl(deck.cards@[b].name@, deck.cards@[a].name@);
        }
    }
}

/// The emoji of the buttons of drawn cards.
pub const MAGIC_BOOK: u64 = 1312304913455517737;

} // verus!
