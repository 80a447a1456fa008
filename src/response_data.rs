//! What is sent back: text, rich blocks and buttons, and whether only the
//! requester sees it.
use crate::book_of_answers::BookOfAnswers as Quotes;
use crate::clow_cards::{card_button, card_embed, ClowCardDeck};
use crate::data::{BookOfAnswers, ClowCardInfo, Data, Dice, DrawClowcard, Error, RandomPick, RelationshipCalculator};
use crate::format::{date_mention, decimal, emoji_mention, push_date_mention, push_decimal, push_emoji, push_user_mention, user_mention};
use crate::relationship_level::{
    bar, bar_of, relationship_levels, tier_bound, tier_color, tier_description, tier_index,
    tier_thumbnail, tier_title,
};
use crate::rng::random_index;
use crate::seed::{bucket_start, bucket_start_of, TimeHash};
use vstd::prelude::*;

verus! {

pub const PRIMARY: u32 = 0xccff77;
pub const ERROR: u32 = 0xff3355;

/// A rich content block.
#[derive(Debug)]
pub struct Embed {
    pub title: Option<String>,
    pub description: Option<String>,
    pub thumbnail: Option<String>,
    pub color: u32,
}

/// A button that sends its identifier back when pressed.
#[derive(Debug)]
pub struct Button {
    pub custom_id: String,
    pub label: String,
    pub emoji: u64,
}

/// A response: text, rich blocks, a row of buttons, and whether only the
/// requester sees it.
#[derive(Debug)]
pub struct ResponseData {
    pub content: String,
    pub embeds: Vec<Embed>,
    pub components: Vec<Button>,
    pub ephemeral: bool,
}

/// The percentage of a relationship, drawn as a real number in `[0, 100)`:
/// its ceiling, its rounding, and its text with two decimals.
#[derive(Debug)]
pub struct Percent {
    pub ceil: u32,
    pub round: u32,
    pub text: String,
}

/// The faces of the dice: six faces, three pictures of each.
pub const NUM_FACES: usize = 18;

pub open spec fn dice_faces_spec() -> Seq<u64> {
    seq![
        1322123824287711242,
        1322123836774289418,
        1322123899114094652,
        1322123914792538163,
        1322123925227831296,
        1322123940767731812,
        1322123948812537970,
        1322123957859782738,
        1322123970840887399,
        1322123979741331487,
        1322123988956348426,
        1322124002109689927,
        1322124013547425792,
        1322124022925758564,
        1322124031612289055,
        1322124040051232798,
        1322124049245012049,
        1322124059869184021,
    ]
}

pub fn dice_faces() -> (r: Vec<u64>)
    ensures
        r@ == dice_faces_spec(),
        r@.len() == NUM_FACES,
{
    vec![
        1322123824287711242,
        1322123836774289418,
        1322123899114094652,
        1322123914792538163,
        1322123925227831296,
        1322123940767731812,
        1322123948812537970,
        1322123957859782738,
        1322123970840887399,
        1322123979741331487,
        1322123988956348426,
        1322124002109689927,
        1322124013547425792,
        1322124022925758564,
        1322124031612289055,
        1322124040051232798,
        1322124049245012049,
        1322124059869184021,
    ]
}

/// Some choice is longer than 40 characters.
pub open spec fn any_long(cs: Seq<Seq<char>>) -> bool {
    exists|i: int| 0 <= i < cs.len() && (#[trigger] cs[i]).len() > 40
}

/// The choices as a numbered list, one per line, or inline, `;`-separated.
pub open spec fn prompt_list(cs: Seq<Seq<char>>, lines: bool) -> Seq<char>
    decreases cs.len(),
{
    if cs.len() == 0 {
        seq![]
    } else if lines {
        prompt_list(cs.drop_last(), lines) + "\n1. "@ + cs.last()
    } else if cs.len() == 1 {
        " "@ + cs[0]
    } else {
        prompt_list(cs.drop_last(), lines) + "; "@ + cs.last()
    }
}

/// The text of a pick of `chosen` among `cs`.
pub open spec fn pick_content(cs: Seq<Seq<char>>, chosen: Seq<char>, show_prompt: bool) -> Seq<char> {
    (if show_prompt {
        "**Prompt:**"@ + prompt_list(cs, any_long(cs)) + "\n\n"@
    } else {
        seq![]
    }) + "**Em chọn:**"@ + (if chosen.contains('\n') {
        "\n"@
    } else {
        " "@
    }) + chosen
}

/// The text of a book-of-answers reply.
pub open spec fn answer_content(prompt: Option<Seq<char>>, show_prompt: bool, quote: Seq<char>) -> Seq<char> {
    match prompt {
        Some(p) => if show_prompt {
            "**Prompt:** "@ + p + "\n>>> "@ + quote
        } else {
            quote
        },
        None => quote,
    }
}

/// The headline of a card draw.
pub open spec fn draw_content(
    prompt: Option<Seq<char>>,
    amount: Option<usize>,
    show_prompt: bool,
    author: u64,
    now: u64,
) -> Seq<char> {
    if prompt is None && amount is None {
        "Thẻ bài Clow của "@ + user_mention(author) + " hôm nay ("@ + date_mention(
            bucket_start(now as nat, TimeHash::Day) as u64,
        ) + ")"@
    } else if prompt is Some && show_prompt {
        "**Prompt:** "@ + prompt->0
    } else {
        user_mention(author) + " vừa rút ngẫu nhiên "@ + decimal(
            (match amount {
                Some(a) => a,
                None => 1,
            }) as nat,
        ) + " thẻ bài"@
    }
}

/// The text of a roll that shows these faces.
pub open spec fn dice_content(faces: Seq<u64>) -> Seq<char>
    decreases faces.len(),
{
    if faces.len() == 0 {
        seq![]
    } else {
        dice_content(faces.drop_last()) + emoji_mention(faces.last()) + " "@
    }
}

/// The headline of a relationship.
pub open spec fn relationship_content(user1: u64, user2: u64) -> Seq<char> {
    "Mối quan hệ giữa "@ + user_mention(user1) + " và "@ + user_mention(user2) + " hiện đang là.."@
}

/// The thumbnail of a tier.
pub open spec fn tier_thumbnail_url(t: int) -> Seq<char> {
    "https://cdn.discordapp.com/emojis/"@ + decimal(tier_thumbnail(t) as nat) + ".webp"@
}

/// The block of a relationship: the tier's description, then the bar and the
/// percentage.
pub open spec fn relationship_description(description: Seq<char>, p: Percent) -> Seq<char> {
    description + "\n```css\n["@ + bar_of(p.round) + "] "@ + p.text@ + "%\n```"@
}

/// The blocks and buttons of a card draw: one of each per drawn card, in the
/// order drawn, with distinct cards.
pub open spec fn drawn_blocks(deck: ClowCardDeck, now: u64, value: DrawClowcard, r: ResponseData) -> bool {
    let idx = deck.drawn(now, crate::data::opt_string(value.prompt), value.author->0, value.amount);
    &&& r.embeds@.len() == idx.len()
    &&& r.components@.len() == idx.len()
    &&& idx.len() == deck.draw_count(value.amount)
    &&& forall|i: int| 0 <= i < idx.len() ==> idx[i] < deck.cards@.len()
    &&& forall|i: int, j: int| 0 <= i < j < idx.len() ==> idx[i] != idx[j]
    &&& forall|i: int|
        0 <= i < idx.len() ==> #[trigger] card_button(deck.cards@[idx[i] as int], r.components@[i])
    &&& forall|i: int|
        0 <= i < idx.len() ==> #[trigger] card_embed(deck.cards@[idx[i] as int], r.embeds@[i])
}

/// The block of a relationship: that of the first tier whose bound is at least
/// the percentage.
pub open spec fn relationship_block(percent: Percent, e: Embed) -> bool {
    exists|t: int|
        0 <= t < 5 && percent.ceil <= tier_bound(t) && (forall|j: int| 0 <= j < t ==> tier_bound(j) < percent.ceil)
            && e.color == tier_color(t) && (e.description matches Some(d) && d@
            == relationship_description(tier_description(t), percent)) && (e.title matches Some(x) && x@
            == tier_title(t)) && (e.thumbnail matches Some(u) && u@ == tier_thumbnail_url(t))
}

/// The full text of the card of that name, or nothing where no card has it.
pub open spec fn card_text(deck: ClowCardDeck, name: Seq<char>, content: Seq<char>) -> bool {
    &&& (exists|i: int| 0 <= i < deck.cards@.len() && deck.cards@[i].name@ == name) ==> exists|i: int|
        0 <= i < deck.cards@.len() && deck.cards@[i].name@ == name && content == deck.cards@[i].full@
    &&& !(exists|i: int| 0 <= i < deck.cards@.len() && deck.cards@[i].name@ == name) ==> content.len() == 0
}

/// The block about the bot.
pub open spec fn about_block(about: Seq<char>, r: ResponseData) -> bool {
    &&& r.embeds@.len() == 1
    &&& r.embeds@[0].description matches Some(d) && d@ == about
    &&& r.embeds@[0].title matches Some(t) && t@ == "About"@
}

fn contains_newline(s: &str) -> (r: bool)
    ensures
        r == s@.contains('\n'),
{
    let n = s.unicode_len();
    let mut i: usize = 0;
    while i < n
        invariant
            n == s@.len(),
            0 <= i <= n,
            forall|k: int| 0 <= k < i ==> s@[k] != '\n',
        decreases n - i,
    {
        if s.get_char(i) == '\n' {
            return true;
        }
        i = i + 1;
    }
    false
}

fn text_only(content: String) -> (r: ResponseData)
    ensures
        r.content@ == content@,
        r.embeds@.len() == 0,
        r.components@.len() == 0,
        !r.ephemeral,
{
    ResponseData { content, embeds: Vec::new(), components: Vec::new(), ephemeral: false }
}

impl ResponseData {
    /// The empty response.
    pub fn empty() -> (r: ResponseData)
        ensures
            r.content@.len() == 0,
            r.embeds@.len() == 0,
            r.components@.len() == 0,
            !r.ephemeral,
    {
        text_only(String::new())
    }

    /// A pick of one of the choices at random, after the list of them when it
    /// is shown; nothing without choices.
    pub fn from_random_pick(value: &RandomPick) -> (r: ResponseData)
        ensures
            value.choices@.len() == 0 ==> r.content@.len() == 0,
            value.choices@.len() > 0 ==> exists|i: int|
                0 <= i < value.choices@.len() && r.content@ == pick_content(
                    crate::data::strings(value.choices@),
                    value.choices@[i]@,
                    value.show_prompt,
                ),
            r.embeds@.len() == 0,
            r.components@.len() == 0,
            !r.ephemeral,
    {
        let n = value.choices.len();
        if n == 0 {
            return Self::empty();
        }
        let chosen = random_index(n);
        let ghost cs = crate::data::strings(value.choices@);
        let mut lines = false;
        let mut i: usize = 0;
        while i < n
            invariant
                0 <= i <= n,
                n == value.choices@.len(),
                cs == crate::data::strings(value.choices@),
                lines == exists|k: int| 0 <= k < i && (#[trigger] cs[k]).len() > 40,
            decreases n - i,
        {
            assert(cs[i as int] == value.choices@[i as int]@);
            if value.choices[i].as_str().unicode_len() > 40 {
                lines = true;
            }
            i = i + 1;
        }
        assert(lines == any_long(cs));
        let mut content = String::new();
        if value.show_prompt {
            content.append("**Prompt:**");
            let mut j: usize = 0;
            while j < n
                invariant
                    0 <= j <= n,
                    n == value.choices@.len(),
                    cs == crate::data::strings(value.choices@),
                    lines == any_long(cs),
                    content@ == "**Prompt:**"@ + prompt_list(cs.take(j as int), lines),
                decreases n - j,
            {
                let c = value.choices[j].as_str();
                assert(cs.take(j + 1).drop_last() =~= cs.take(j as int));
                assert(cs.take(j + 1).last() == c@);
                if lines {
                    content.append("\n1. ");
                    content.append(c);
                } else {
                    if j == 0 {
                        content.append(" ");
                        content.append(c);
                        assert(cs.take(1)[0] == c@);
                    } else {
                        content.append("; ");
                        content.append(c);
                    }
                }
                assert(content@ =~= "**Prompt:**"@ + prompt_list(cs.take(j + 1), lines));
                j = j + 1;
            }
            assert(cs.take(n as int) =~= cs);
            content.append("\n\n");
        }
        let ghost head = content@;
        let the_one = value.choices[chosen].as_str();
        content.append("**Em chọn:**");
        if contains_newline(the_one) {
            content.append("\n");
        } else {
            content.append(" ");
        }
        content.append(the_one);
        assert(content@ =~= pick_content(cs, value.choices@[chosen as int]@, value.show_prompt));
        text_only(content)
    }

    /// A quote, after the prompt when it is shown.
    pub fn from_book_of_answers(value: &BookOfAnswers, book: &Quotes, now: u64) -> (r: ResponseData)
        requires
            book.wf(),
            value.author is Some,
        ensures
            exists|i: int|
                0 <= i < book.quotes@.len() && r.content@ == answer_content(
                    crate::data::opt_string(value.prompt),
                    value.show_prompt,
                    book.quotes@[i]@,
                ),
            value.prompt matches Some(p) ==> r.content@ == answer_content(
                Some(p@),
                value.show_prompt,
                book.quotes@[crate::rng::std_rng_index(
                    crate::seed::answer_seed(now, value.author->0, p@),
                    book.quotes@.len() as u32,
                ) as int]@,
            ),
            r.embeds@.len() == 0,
            r.components@.len() == 0,
            !r.ephemeral,
    {
        let author = match value.author {
            Some(a) => a,
            None => 0,
        };
        let prompt: Option<&str> = match &value.prompt {
            Some(p) => Some(p.as_str()),
            None => None,
        };
        let quote = book.draw(prompt, author, now);
        let content = match prompt {
            Some(p) => if value.show_prompt {
                let mut c = String::from_str("**Prompt:** ");
                c.append(p);
                c.append("\n>>> ");
                c.append(quote.as_str());
                c
            } else {
                quote.clone()
            },
            None => quote.clone(),
        };
        text_only(content)
    }

    /// A card draw: the headline, one block and one button per card.
    pub fn from_draw_clowcard(value: &DrawClowcard, deck: &ClowCardDeck, now: u64) -> (r: ResponseData)
        requires
            value.author is Some,
        ensures
            r.content@ == draw_content(
                crate::data::opt_string(value.prompt),
                value.amount,
                value.show_prompt,
                value.author->0,
                now,
            ),
            drawn_blocks(*deck, now, *value, r),
            r.embeds@.len() <= (match value.amount {
                Some(a) => a,
                None => 1,
            }),
            !r.ephemeral,
    {
        let author = match value.author {
            Some(a) => a,
            None => 0,
        };
        let prompt: Option<&str> = match &value.prompt {
            Some(p) => Some(p.as_str()),
            None => None,
        };
        let mut content = String::new();
        if prompt.is_none() && value.amount.is_none() {
            content.append("Thẻ bài Clow của ");
            push_user_mention(&mut content, author);
            content.append(" hôm nay (");
            push_date_mention(&mut content, bucket_start_of(now, TimeHash::Day));
            content.append(")");
        } else if prompt.is_some() && value.show_prompt {
            content.append("**Prompt:** ");
            match prompt {
                Some(p) => content.append(p),
                None => {},
            }
        } else {
            push_user_mention(&mut content, author);
            content.append(" vừa rút ngẫu nhiên ");
            let n: usize = match value.amount {
                Some(a) => a,
                None => 1,
            };
            push_decimal(&mut content, n as u64);
            content.append(" thẻ bài");
        }
        assert(content@ =~= draw_content(
            crate::data::opt_string(value.prompt),
            value.amount,
            value.show_prompt,
            author,
            now,
        ));
        assert(crate::seed::opt_text(prompt) == crate::data::opt_string(value.prompt));
        let (embeds, components) = deck.draw(now, prompt, author, value.amount);
        ResponseData { content, embeds, components, ephemeral: false }
    }

    /// The full text of the card, seen by the requester alone; empty for a
    /// name that no card has.
    pub fn from_clow_card_info(value: &ClowCardInfo, deck: &ClowCardDeck) -> (r: ResponseData)
        requires
            deck.wf(),
        ensures
            r.ephemeral,
            card_text(*deck, value.name@, r.content@),
            r.embeds@.len() == 0,
            r.components@.len() == 0,
    {
        let content = match deck.long_by_name(value.name.as_str()) {
            Some(t) => String::from_str(t),
            None => String::new(),
        };
        ResponseData { content, embeds: Vec::new(), components: Vec::new(), ephemeral: true }
    }

    /// `amount` faces drawn at random.
    pub fn from_dice(value: &Dice) -> (r: ResponseData)
        ensures
            exists|faces: Seq<u64>|
                faces.len() == value.amount && (forall|i: int| 0 <= i < faces.len() ==> dice_faces_spec().contains(#[trigger] faces[i]))
                    && r.content@ == dice_content(faces),
            r.embeds@.len() == 0,
            r.components@.len() == 0,
            !r.ephemeral,
    {
        let table = dice_faces();
        let mut content = String::new();
        let ghost mut faces: Seq<u64> = seq![];
        let mut i: u32 = 0;
        while i < value.amount
            invariant
                0 <= i <= value.amount,
                table@ == dice_faces_spec(),
                table@.len() == NUM_FACES,
                faces.len() == i,
                forall|k: int| 0 <= k < faces.len() ==> dice_faces_spec().contains(#[trigger] faces[k]),
                content@ == dice_content(faces),
            decreases value.amount - i,
        {
            let f = table[random_index(NUM_FACES)];
            push_emoji(&mut content, f);
            content.append(" ");
            proof {
                let old_faces = faces;
                faces = faces.push(f);
                assert(faces.drop_last() =~= old_faces);
                assert(dice_faces_spec().contains(f));
            }
            i = i + 1;
        }
        text_only(content)
    }

    /// The relationship of the pair: the headline, and a block with the tier of
    /// the percentage and its bar.
    pub fn from_relationship(value: &RelationshipCalculator, percent: &Percent) -> (r: ResponseData)
        requires
            value.targets@.len() == 2,
            percent.ceil <= 100,
            percent.round <= 100,
        ensures
            r.content@ == relationship_content(value.targets@[0], value.targets@[1]),
            r.embeds@.len() == 1,
            relationship_block(*percent, r.embeds@[0]),
            r.components@.len() == 0,
            !r.ephemeral,
    {
        let u1 = value.targets[0];
        let u2 = value.targets[1];
        let mut content = String::from_str("Mối quan hệ giữa ");
        push_user_mention(&mut content, u1);
        content.append(" và ");
        push_user_mention(&mut content, u2);
        content.append(" hiện đang là..");
        assert(content@ =~= relationship_content(u1, u2));
        let t = tier_index(percent.ceil);
        let levels = relationship_levels();
        let level = levels[t];
        let mut description = String::from_str(level.description);
        description.append("\n```css\n[");
        let b = bar(percent.round);
        description.append(b.as_str());
        description.append("] ");
        description.append(percent.text.as_str());
        description.append("%\n```");
        let mut thumbnail = String::from_str("https://cdn.discordapp.com/emojis/");
        push_decimal(&mut thumbnail, level.thumbnail);
        thumbnail.append(".webp");
        assert(thumbnail@ =~= tier_thumbnail_url(t as int));
        assert(description@ =~= relationship_description(level.description@, *percent));
        let embed = Embed {
            title: Some(String::from_str(level.title)),
            description: Some(description),
            thumbnail: Some(thumbnail),
            color: level.color,
        };
        let mut embeds: Vec<Embed> = Vec::new();
        embeds.push(embed);
        ResponseData { content, embeds, components: Vec::new(), ephemeral: false }
    }

    /// The text about the bot, in a block.
    pub fn from_about(about: &str) -> (r: ResponseData)
        ensures
            about_block(about@, r),
            !r.ephemeral,
    {
        let mut embeds: Vec<Embed> = Vec::new();
        embeds.push(
            Embed {
                title: Some(String::from_str("About")),
                description: Some(String::from_str(about)),
                thumbnail: None,
                color: PRIMARY,
            },
        );
        ResponseData { content: String::new(), embeds, components: Vec::new(), ephemeral: false }
    }

    /// The error message in a block, seen by the requester alone.
    pub fn from_error(value: &Error) -> (r: ResponseData)
        ensures
            r.embeds@.len() == 1,
            r.embeds@[0].description matches Some(d) && d@ == value.error@,
            r.embeds@[0].color == ERROR,
            r.ephemeral,
    {
        let mut embeds: Vec<Embed> = Vec::new();
        embeds.push(
            Embed {
                title: None,
                description: Some(value.error.clone()),
                thumbnail: None,
                color: ERROR,
            },
        );
        ResponseData { content: String::new(), embeds, components: Vec::new(), ephemeral: true }
    }

    /// The response to a command. Only errors and card texts are seen by the
    /// requester alone; nothing comes of `Nothing`.
    pub fn from_data(
        data: &Data,
        now: u64,
        deck: &ClowCardDeck,
        book: &Quotes,
        about: &str,
        percent: Option<&Percent>,
    ) -> (r: ResponseData)
        requires
            deck.wf(),
            book.wf(),
            data matches Data::BookOfAnswers(b) ==> b.author is Some,
            data matches Data::DrawClowcard(d) ==> d.author is Some,
            data matches Data::LoveCalculator(lc) ==> lc.targets@.len() == 2 && (percent matches Some(p)
                && p.ceil <= 100 && p.round <= 100),
        ensures
            r.ephemeral <==> (data is Error || data is ClowCardInfo),
            data is Nothing ==> r.content@.len() == 0 && r.embeds@.len() == 0 && r.components@.len() == 0,
            data matches Data::Error(e) ==> r.embeds@.len() == 1 && (r.embeds@[0].description matches Some(d) && d@ == e.error@),
            data matches Data::RandomPick(p) ==> (p.choices@.len() > 0 ==> exists|i: int|
                0 <= i < p.choices@.len() && r.content@ == pick_content(
                    crate::data::strings(p.choices@),
                    p.choices@[i]@,
                    p.show_prompt,
                )),
            data matches Data::BookOfAnswers(b) ==> exists|i: int|
                0 <= i < book.quotes@.len() && r.content@ == answer_content(
                    crate::data::opt_string(b.prompt),
                    b.show_prompt,
                    book.quotes@[i]@,
                ),
            data matches Data::ClowCardInfo(c) ==> card_text(*deck, c.name@, r.content@),
            data is About ==> about_block(about@, r),
            data matches Data::Dice(d) ==> exists|faces: Seq<u64>|
                faces.len() == d.amount && r.content@ == dice_content(faces),
            data matches Data::LoveCalculator(lc) ==> r.content@ == relationship_content(
                lc.targets@[0],
                lc.targets@[1],
            ) && r.embeds@.len() == 1 && relationship_block(*percent->0, r.embeds@[0]),
            data matches Data::DrawClowcard(dc) ==> r.content@ == draw_content(
                crate::data::opt_string(dc.prompt),
                dc.amount,
                dc.show_prompt,
                dc.author->0,
                now,
            ) && drawn_blocks(*deck, now, *dc, r),
    {
        match data {
            Data::RandomPick(p) => Self::from_random_pick(p),
            Data::BookOfAnswers(b) => Self::from_book_of_answers(b, book, now),
            Data::DrawClowcard(d) => Self::from_draw_clowcard(d, deck, now),
            Data::ClowCardInfo(c) => Self::from_clow_card_info(c, deck),
            Data::Dice(d) => Self::from_dice(d),
            Data::LoveCalculator(lc) => match percent {
                Some(p) => Self::from_relationship(lc, p),
                None => Self::empty(),
            },
            Data::About(_) => Self::from_about(about),
            Data::Nothing => Self::empty(),
            Data::Error(e) => Self::from_error(e),
        }
    }
}

} // verus!
