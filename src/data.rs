//! The typed command model, and how each input surface is read into it.
use crate::commands::{marker_of, Marker};
use crate::text::{
    find, find_char, parse_bounded, parse_unsigned, pieces, split_ascii_whitespace, split_on,
    str_eq, strip_non_digits, strip_non_digits_of, trim, trim_of, trim_start, trim_start_of,
    views, ws_tokens,
};
use vstd::prelude::*;

verus! {

/// The most cards one draw may show.
pub const MAX_CLOW: usize = 5;

/// A text-surface argument list that a command cannot take.
#[derive(Debug)]
pub struct ParseCommandError;

/// Choose one of several options.
#[derive(Debug)]
pub struct RandomPick {
    pub choices: Vec<String>,
    pub show_prompt: bool,
}

/// A quote from the book of answers.
#[derive(Debug)]
pub struct BookOfAnswers {
    pub prompt: Option<String>,
    pub author: Option<u64>,
    pub show_prompt: bool,
}

/// Roll `amount` dice.
#[derive(Debug)]
pub struct Dice {
    pub amount: u32,
}

/// Draw one or more Clow cards.
#[derive(Debug)]
pub struct DrawClowcard {
    pub prompt: Option<String>,
    pub author: Option<u64>,
    pub amount: Option<usize>,
    pub show_prompt: bool,
}

/// The full text of one card.
#[derive(Debug)]
pub struct ClowCardInfo {
    pub name: String,
}

/// The relationship between two users, by their ids.
#[derive(Debug)]
pub struct RelationshipCalculator {
    pub targets: Vec<u64>,
}

/// A request that gets an error message.
#[derive(Debug)]
pub struct Error {
    pub error: String,
}

/// What the bot is.
#[derive(Debug)]
pub struct About;

/// A command, whatever surface it came from.
#[derive(Debug)]
pub enum Data {
    RandomPick(RandomPick),
    BookOfAnswers(BookOfAnswers),
    DrawClowcard(DrawClowcard),
    ClowCardInfo(ClowCardInfo),
    Dice(Dice),
    LoveCalculator(RelationshipCalculator),
    About(About),
    Nothing,
    Error(Error),
}

/// The mathematical value of a `Data`.
#[allow(inconsistent_fields)]
pub enum Command {
    RandomPick { choices: Seq<Seq<char>>, show_prompt: bool },
    BookOfAnswers { prompt: Option<Seq<char>>, author: Option<u64>, show_prompt: bool },
    DrawClowcard {
        prompt: Option<Seq<char>>,
        author: Option<u64>,
        amount: Option<usize>,
        show_prompt: bool,
    },
    ClowCardInfo { name: Seq<char> },
    Dice { amount: u32 },
    LoveCalculator { targets: Seq<u64> },
    About,
    Nothing,
    Error { message: Seq<char> },
}

pub open spec fn strings(v: Seq<String>) -> Seq<Seq<char>> {
    v.map_values(|s: String| s@)
}

pub open spec fn opt_string(o: Option<String>) -> Option<Seq<char>> {
    match o {
        Some(s) => Some(s@),
        None => None,
    }
}

impl View for RandomPick {
    type V = Command;

    open spec fn view(&self) -> Command {
        Command::RandomPick { choices: strings(self.choices@), show_prompt: self.show_prompt }
    }
}

impl View for BookOfAnswers {
    type V = Command;

    open spec fn view(&self) -> Command {
        Command::BookOfAnswers {
            prompt: opt_string(self.prompt),
            author: self.author,
            show_prompt: self.show_prompt,
        }
    }
}

impl View for DrawClowcard {
    type V = Command;

    open spec fn view(&self) -> Command {
        Command::DrawClowcard {
            prompt: opt_string(self.prompt),
            author: self.author,
            amount: self.amount,
            show_prompt: self.show_prompt,
        }
    }
}

impl View for Dice {
    type V = Command;

    open spec fn view(&self) -> Command {
        Command::Dice { amount: self.amount }
    }
}

impl View for RelationshipCalculator {
    type V = Command;

    open spec fn view(&self) -> Command {
        Command::LoveCalculator { targets: self.targets@ }
    }
}

impl View for Data {
    type V = Command;

    open spec fn view(&self) -> Command {
        match self {
            Data::RandomPick(x) => x@,
            Data::BookOfAnswers(x) => x@,
            Data::DrawClowcard(x) => x@,
            Data::ClowCardInfo(x) => Command::ClowCardInfo { name: x.name@ },
            Data::Dice(x) => x@,
            Data::LoveCalculator(x) => x@,
            Data::About(_) => Command::About,
            Data::Nothing => Command::Nothing,
            Data::Error(e) => Command::Error { message: e.error@ },
        }
    }
}

// ----- the text surface -----

pub open spec fn nonempty(s: Seq<char>) -> Option<Seq<char>> {
    if s.len() == 0 {
        None
    } else {
        Some(s)
    }
}

/// Each piece, trimmed.
pub open spec fn trimmed(ps: Seq<Seq<char>>) -> Seq<Seq<char>> {
    ps.map_values(|p: Seq<char>| trim_of(p))
}

/// How many of the entries are not empty.
pub open spec fn count_nonempty(cs: Seq<Seq<char>>) -> nat
    decreases cs.len(),
{
    if cs.len() == 0 {
        0
    } else {
        count_nonempty(cs.drop_last()) + if cs.last().len() > 0 {
            1nat
        } else {
            0nat
        }
    }
}

/// The choices of a text-surface pick: every `;`-separated entry, trimmed,
/// in order.
pub open spec fn pick_choices(s: Seq<char>) -> Seq<Seq<char>> {
    trimmed(pieces(s, ';'))
}

/// A text-surface pick needs at least two entries that are not empty.
pub open spec fn pick_ok(s: Seq<char>) -> bool {
    count_nonempty(pick_choices(s)) >= 2
}

/// The amount that the first word of a text-surface draw gives, if any.
pub open spec fn draw_amount(s: Seq<char>) -> Option<usize> {
    match parse_bounded(s.take(find_char(s, ' ') as int), usize::MAX as nat) {
        Some(v) => if v != 0 {
            Some(v as usize)
        } else {
            None
        },
        None => None,
    }
}

/// The prompt of a text-surface draw: the rest after an amount, else the whole.
pub open spec fn draw_prompt(s: Seq<char>) -> Option<Seq<char>> {
    let k = find_char(s, ' ');
    if draw_amount(s) is None {
        nonempty(s)
    } else if k < s.len() {
        nonempty(s.skip(k as int + 1))
    } else {
        None
    }
}

/// The dice count of the text surface: 1 unless the text is a number in 1..=100.
pub open spec fn dice_amount(s: Seq<char>) -> u32 {
    match parse_bounded(s, u32::MAX as nat) {
        Some(v) => if 1 <= v <= 100 {
            v as u32
        } else {
            1
        },
        None => 1,
    }
}

/// The user id that a word gives: its digits once the non-digits at both ends
/// are dropped, read as a nonzero 64-bit number.
pub open spec fn user_id_of(t: Seq<char>) -> Option<u64> {
    match parse_bounded(strip_non_digits_of(t), u64::MAX as nat) {
        Some(v) => if v != 0 {
            Some(v as u64)
        } else {
            None
        },
        None => None,
    }
}

/// The user ids that the words give, in order.
pub open spec fn ids_in(ts: Seq<Seq<char>>) -> Seq<u64>
    decreases ts.len(),
{
    if ts.len() == 0 {
        seq![]
    } else {
        match user_id_of(ts[0]) {
            Some(v) => seq![v] + ids_in(ts.drop_first()),
            None => ids_in(ts.drop_first()),
        }
    }
}

/// The first two user ids of a text-surface argument list.
pub open spec fn text_targets(s: Seq<char>) -> Seq<u64> {
    let ids = ids_in(ws_tokens(s));
    if ids.len() <= 2 {
        ids
    } else {
        ids.take(2)
    }
}

/// The targets filled up to two with the invoking user, in ascending order.
pub open spec fn pair_of(ids: Seq<u64>, author: u64) -> Seq<u64> {
    let a = if ids.len() > 0 {
        ids[0]
    } else {
        author
    };
    let b = if ids.len() > 1 {
        ids[1]
    } else {
        author
    };
    if a <= b {
        seq![a, b]
    } else {
        seq![b, a]
    }
}

/// An amount, when there is one, brought into `1..=MAX_CLOW`.
pub open spec fn clamp_amount(a: Option<usize>) -> Option<usize> {
    match a {
        Some(v) => Some(if v < 1 {
            1
        } else if v <= MAX_CLOW {
            v
        } else {
            MAX_CLOW
        }),
        None => None,
    }
}

/// The command name and the arguments of a chat message, once the prefix `~`
/// is gone.
pub open spec fn command_name(c: Seq<char>) -> Seq<char> {
    c.take(find_char(c, ' ') as int)
}

pub open spec fn command_args(c: Seq<char>) -> Seq<char> {
    let k = find_char(c, ' ');
    if k < c.len() {
        trim_start_of(c.skip(k as int + 1))
    } else {
        seq![]
    }
}

/// What a chat message asks for.
pub open spec fn message_command(content: Seq<char>, author: u64) -> Command {
    if content.len() == 0 || content[0] != '~' {
        Command::Nothing
    } else {
        let c = trim_start_of(content.drop_first());
        let args = command_args(c);
        match marker_of(command_name(c)) {
            None => Command::Nothing,
            Some(Marker::RandomPick) => if pick_ok(args) {
                Command::RandomPick { choices: pick_choices(args), show_prompt: false }
            } else {
                Command::Nothing
            },
            Some(Marker::DrawClowcard) => Command::DrawClowcard {
                prompt: draw_prompt(args),
                author: Some(author),
                amount: clamp_amount(draw_amount(args)),
                show_prompt: false,
            },
            Some(Marker::RelationshipCalculator) => Command::LoveCalculator {
                targets: pair_of(text_targets(args), author),
            },
            Some(Marker::BookOfAnswers) => Command::BookOfAnswers {
                prompt: nonempty(args),
                author: Some(author),
                show_prompt: false,
            },
            Some(Marker::Dice) => Command::Dice { amount: dice_amount(args) },
            Some(Marker::About) => Command::About,
        }
    }
}

fn owned_nonempty(s: &str) -> (r: Option<String>)
    ensures
        opt_string(r) == nonempty(s@),
{
    if s.unicode_len() == 0 {
        None
    } else {
        Some(String::from_str(s))
    }
}

impl RandomPick {
    /// Reads `a; b; c`: every entry, trimmed; at least two must not be empty.
    pub fn from_text(value: &str) -> (r: Result<RandomPick, ParseCommandError>)
        ensures
            pick_ok(value@) ==> (r matches Ok(p) && p@ == Command::RandomPick {
                choices: pick_choices(value@),
                show_prompt: false,
            }),
            !pick_ok(value@) ==> r is Err,
    {
        let ps = split_on(value, ';');
        let mut choices: Vec<String> = Vec::new();
        let mut filled: usize = 0;
        let mut i: usize = 0;
        while i < ps.len()
            invariant
                0 <= i <= ps.len(),
                filled <= i,
                views(ps@) == pieces(value@, ';'),
                strings(choices@) == trimmed(views(ps@).take(i as int)),
                filled == count_nonempty(strings(choices@)),
            decreases ps.len() - i,
        {
            let t = trim(ps[i]);
            let ghost before = choices@;
            assert(views(ps@).take(i + 1) =~= views(ps@).take(i as int).push(ps@[i as int]@));
            choices.push(String::from_str(t));
            assert(strings(choices@) =~= strings(before).push(t@));
            assert(strings(choices@).drop_last() =~= strings(before));
            if t.unicode_len() > 0 {
                filled = filled + 1;
            }
            i = i + 1;
        }
        assert(views(ps@).take(ps.len() as int) =~= views(ps@));
        if filled >= 2 {
            Ok(RandomPick { choices, show_prompt: false })
        } else {
            Err(ParseCommandError)
        }
    }
}

impl BookOfAnswers {
    /// Reads the rest of the line as the prompt; an empty one is no prompt.
    pub fn from_text(value: &str) -> (r: BookOfAnswers)
        ensures
            r@ == (Command::BookOfAnswers { prompt: nonempty(value@), author: None, show_prompt: false }),
    {
        BookOfAnswers { prompt: owned_nonempty(value), author: None, show_prompt: false }
    }
}

impl DrawClowcard {
    /// Reads `[amount] [prompt]`: a first word that is a nonzero number is the
    /// amount and the rest the prompt; otherwise the whole is the prompt.
    pub fn from_text(value: &str) -> (r: DrawClowcard)
        ensures
            r@ == (Command::DrawClowcard {
                prompt: draw_prompt(value@),
                author: None,
                amount: draw_amount(value@),
                show_prompt: false,
            }),
    {
        let n = value.unicode_len();
        let k = find(value, ' ');
        let first = value.substring_char(0, k);
        let amount: Option<usize> = match parse_unsigned(first, usize::MAX as u64) {
            Some(v) => if v != 0 {
                Some(v as usize)
            } else {
                None
            },
            None => None,
        };
        let prompt = if amount.is_none() {
            owned_nonempty(value)
        } else if k < n {
            owned_nonempty(value.substring_char(k + 1, n))
        } else {
            None
        };
        assert(value@.skip(k + 1) =~= value@.subrange(k + 1, n as int));
        DrawClowcard { prompt, author: None, amount, show_prompt: false }
    }

    /// Brings the amount into `1..=MAX_CLOW`.
    pub fn clamp(&mut self)
        ensures
            final(self).amount == clamp_amount(old(self).amount),
            final(self).prompt == old(self).prompt,
            final(self).author == old(self).author,
            final(self).show_prompt == old(self).show_prompt,
    {
        self.amount = match self.amount {
            Some(v) => Some(if v < 1 {
                1
            } else if v <= MAX_CLOW {
                v
            } else {
                MAX_CLOW
            }),
            None => None,
        };
    }
}

impl Dice {
    /// Reads the dice count; anything but a number in 1..=100 gives 1.
    pub fn from_text(value: &str) -> (r: Dice)
        ensures
            r.amount == dice_amount(value@),
    {
        let amount = match parse_unsigned(value, u32::MAX as u64) {
            Some(v) => if 1 <= v && v <= 100 {
                v as u32
            } else {
                1
            },
            None => 1,
        };
        Dice { amount }
    }
}

impl RelationshipCalculator {
    /// Reads up to two user ids from the words of the text, such as mentions.
    pub fn from_text(value: &str) -> (r: RelationshipCalculator)
        ensures
            r.targets@ == text_targets(value@),
    {
        let ts = split_ascii_whitespace(value);
        let mut found: Vec<u64> = Vec::new();
        let mut i: usize = 0;
        assert(views(ts@).skip(0) =~= views(ts@));
        assert(found@ + ids_in(views(ts@)) =~= ids_in(views(ts@)));
        while i < ts.len() && found.len() < 2
            invariant
                0 <= i <= ts.len(),
                views(ts@) == ws_tokens(value@),
                found@.len() <= 2,
                ids_in(views(ts@)) == found@ + ids_in(views(ts@).skip(i as int)),
            decreases ts.len() - i,
        {
            let ghost rest = views(ts@).skip(i as int);
            assert(rest.drop_first() =~= views(ts@).skip(i + 1));
            assert(rest[0] == ts@[i as int]@);
            let digits = strip_non_digits(ts[i]);
            match parse_unsigned(digits, u64::MAX) {
                Some(v) => {
                    if v != 0 {
                        found.push(v);
                        assert(found@ + ids_in(views(ts@).skip(i + 1)) =~= (found@.drop_last() + (
                        seq![v] + ids_in(rest.drop_first()))));
                    }
                },
                None => {},
            }
            i = i + 1;
        }
        proof {
            let ids = ids_in(views(ts@));
            if found@.len() == 2 {
                assert(ids.take(2) =~= found@);
            } else {
                assert(views(ts@).skip(i as int) =~= Seq::<Seq<char>>::empty());
                assert(ids =~= found@);
            }
        }
        RelationshipCalculator { targets: found }
    }

    /// Fills the free places with the invoking user and sorts the pair.
    pub fn fill(&mut self, author: u64)
        requires
            old(self).targets@.len() <= 2,
        ensures
            final(self).targets@ == pair_of(old(self).targets@, author),
    {
        let a = if self.targets.len() > 0 {
            self.targets[0]
        } else {
            author
        };
        let b = if self.targets.len() > 1 {
            self.targets[1]
        } else {
            author
        };
        self.targets = if a <= b {
            vec![a, b]
        } else {
            vec![b, a]
        };
    }
}

impl Data {
    /// Reads a chat message `~name args` from the user `author`. Anything that
    /// is not a command, or a pick with fewer than two choices, is `None`.
    pub fn from_message(content: &str, author: u64) -> (r: Data)
        ensures
            r@ == message_command(content@, author),
    {
        let n = content.unicode_len();
        if n == 0 || content.get_char(0) != '~' {
            return Data::Nothing;
        }
        let c = trim_start(content.substring_char(1, n));
        assert(content@.subrange(1, n as int) =~= content@.drop_first());
        let m = c.unicode_len();
        let k = find(c, ' ');
        let cmd = c.substring_char(0, k);
        let args = if k < m {
            trim_start(c.substring_char(k + 1, m))
        } else {
            ""
        };
        assert(c@.skip(k + 1) =~= c@.subrange(k + 1, m as int));
        proof {
            reveal_strlit("");
        }
        assert(args@ == command_args(c@));
        let name = match Marker::from_name(cmd) {
            Some(name) => name,
            None => return Data::Nothing,
        };
        match name {
            Marker::RandomPick => match RandomPick::from_text(args) {
                Ok(p) => Data::RandomPick(p),
                Err(_) => Data::Nothing,
            },
            Marker::DrawClowcard => {
                let mut dc = DrawClowcard::from_text(args);
                dc.clamp();
                dc.author = Some(author);
                Data::DrawClowcard(dc)
            },
            Marker::RelationshipCalculator => {
                let mut lc = RelationshipCalculator::from_text(args);
                lc.fill(author);
                Data::LoveCalculator(lc)
            },
            Marker::BookOfAnswers => {
                let mut boa = BookOfAnswers::from_text(args);
                boa.author = Some(author);
                Data::BookOfAnswers(boa)
            },
            Marker::Dice => Data::Dice(Dice::from_text(args)),
            Marker::About => Data::About(About),
        }
    }
}

/// The pair does not depend on the order in which the two users are named.
pub proof fn lemma_pair_order_free(a: u64, b: u64, author: u64)
    ensures
        pair_of(seq![a, b], author) == pair_of(seq![b, a], author),
        pair_of(seq![a, b], author)[0] <= pair_of(seq![a, b], author)[1],
{
}

/// A card draw read from either surface asks for at most five cards.
pub proof fn lemma_draw_at_most_five(content: Seq<char>, author: u64)
    ensures
        message_command(content, author) matches Command::DrawClowcard { amount: Some(v), .. } ==> v
            <= MAX_CLOW,
{
}

/// A message that opens with the bot's mention, rewritten to open with the
/// command prefix: `~` and a space for each other character of the mention.
pub open spec fn normalized(content: Seq<char>, mention: Seq<char>) -> Seq<char> {
    if mention.len() > 0 && mention.len() <= content.len() && content.take(mention.len() as int) == mention {
        seq!['~'] + Seq::new((mention.len() - 1) as nat, |i: int| ' ') + content.skip(mention.len() as int)
    } else {
        content
    }
}

/// Rewrites a leading mention of the bot into the command prefix.
pub fn normalize_mention(content: &str, mention: &str) -> (r: String)
    ensures
        r@ == normalized(content@, mention@),
{
    let n = content.unicode_len();
    let m = mention.unicode_len();
    if m == 0 || m > n || !str_eq(content.substring_char(0, m), mention) {
        return String::from_str(content);
    }
    let mut out = String::from_str("~");
    proof {
        reveal_strlit("~");
        reveal_strlit(" ");
    }
    let mut i: usize = 1;
    assert("~"@ =~= seq!['~']);
    assert(out@ =~= seq!['~'] + Seq::new(0, |k: int| ' '));
    while i < m
        invariant
            1 <= i <= m,
            out@ == seq!['~'] + Seq::new((i - 1) as nat, |k: int| ' '),
        decreases m - i,
    {
        let ghost before = out@;
        out.append(" ");
        proof {
            reveal_strlit(" ");
        }
        assert(" "@ =~= seq![' ']);
        assert(out@ =~= before + seq![' ']);
        assert(out@ =~= seq!['~'] + Seq::new(i as nat, |k: int| ' '));
        i = i + 1;
    }
    out.append(content.substring_char(m, n));
    assert(content@.skip(m as int) =~= content@.subrange(m as int, n as int));
    out
}

} // verus!
