use clowbot::book_of_answers::BookOfAnswers as Quotes;
use clowbot::clow_cards::{ClowCard, ClowCardDeck};
use clowbot::custom_id::CustomId;
use clowbot::data::{BookOfAnswers, ClowCardInfo, Data, Dice, DrawClowcard, Error, RandomPick, RelationshipCalculator};
use clowbot::format::decimal_string;
use clowbot::relationship_level::{bar, tier_index};
use clowbot::response_data::{Percent, ResponseData};
use clowbot::seed::{bucket_start_of, SeedGenerator, TimeHash};

fn card(name: &str) -> ClowCard {
    ClowCard {
        name: name.to_string(),
        meaning: format!("meaning of {name}"),
        img_id: 7,
        full: format!("full text of {name}"),
    }
}

fn deck() -> ClowCardDeck {
    let names = ["Arrow", "Big", "Dark", "Fly", "Light", "Shadow", "Sword", "Windy"];
    ClowCardDeck::new(names.iter().map(|n| card(n)).collect()).unwrap()
}

fn quotes() -> Quotes {
    Quotes::new(vec!["yes".to_string(), "no".to_string(), "maybe".to_string()]).unwrap()
}

#[test]
fn buckets() {
    assert_eq!(bucket_start_of(1_000_000, TimeHash::Second), 1_000_000);
    assert_eq!(bucket_start_of(1_000_059, TimeHash::Minute), 1_000_020);
    // 1_000_000 + 7h = 1_025_200, which is 74_800 into its day
    assert_eq!(bucket_start_of(1_000_000, TimeHash::Day), 1_000_000 - 74_800);
    assert_eq!(bucket_start_of(100, TimeHash::Day), 0);
}

#[test]
fn seeds_stable_within_bucket() {
    let a = SeedGenerator::draw_seed(1_000_000, 5, None, None);
    let b = SeedGenerator::draw_seed(1_000_000 + 3600, 5, None, None);
    assert_eq!(a, b);
    let c = SeedGenerator::draw_seed(1_000_000 + 86_400, 5, None, None);
    assert_ne!(a, c);
    let p = SeedGenerator::answer_seed(1_000_020, 5, "why");
    assert_eq!(p, SeedGenerator::answer_seed(1_000_079, 5, "why"));
    assert_ne!(p, SeedGenerator::answer_seed(1_000_020, 5, "why not"));
    assert_eq!(SeedGenerator::pair_seed(1_000_000, 3, 9), SeedGenerator::pair_seed(1_000_000, 9, 3));
    assert_ne!(SeedGenerator::pair_seed(1_000_000, 3, 9), SeedGenerator::pair_seed(1_000_000, 3, 8));
}

#[test]
fn deck_lookup() {
    let d = deck();
    assert_eq!(d.long_by_name("Fly"), Some("full text of Fly"));
    assert_eq!(d.long_by_name("Windy"), Some("full text of Windy"));
    assert_eq!(d.long_by_name("Arrow"), Some("full text of Arrow"));
    assert_eq!(d.long_by_name("fly"), None);
    assert_eq!(ClowCardDeck::long(&card("Big")), "full text of Big");
    assert!(ClowCardDeck::new(vec![card("B"), card("A")]).is_none());
    assert!(ClowCardDeck::new(vec![card("A"), card("A")]).is_none());
}

#[test]
fn draw_distinct_and_bounded() {
    let d = deck();
    for amount in [None, Some(1), Some(3), Some(5), Some(50)] {
        let idx = d.draw_indices(1_000_000, Some("q"), 5, amount);
        let want = amount.unwrap_or(1).min(d.cards.len());
        assert_eq!(idx.len(), want);
        let mut seen = idx.clone();
        seen.sort();
        seen.dedup();
        assert_eq!(seen.len(), idx.len());
        let (embeds, buttons) = d.draw(1_000_000, Some("q"), 5, amount);
        assert_eq!(embeds.len(), want);
        assert_eq!(buttons.len(), want);
        for (k, b) in buttons.iter().enumerate() {
            let id = CustomId::from_token(&b.custom_id).unwrap();
            let CustomId::ButtonClowcardInfo(name) = id;
            assert_eq!(name, d.cards[idx[k]].name);
            assert_eq!(b.label, format!("The {name}"));
            assert_eq!(embeds[k].title.as_deref(), Some(b.label.as_str()));
            assert_eq!(embeds[k].description.as_deref(), Some(format!("meaning of {name}").as_str()));
            assert_eq!(
                embeds[k].thumbnail.as_deref(),
                Some(format!("https://cdn.discordapp.com/attachments/953801841412538368/7/The{name}.jpg").as_str())
            );
            assert_eq!(b.emoji, clowbot::clow_cards::MAGIC_BOOK);
        }
    }
    assert_eq!(
        d.draw_indices(1_000_000, None, 5, None),
        d.draw_indices(1_000_000 + 600, None, 5, None)
    );
}

#[test]
fn tiers_and_bar() {
    assert_eq!(tier_index(0), 0);
    assert_eq!(tier_index(20), 0);
    assert_eq!(tier_index(21), 1);
    assert_eq!(tier_index(50), 1);
    assert_eq!(tier_index(75), 2);
    assert_eq!(tier_index(76), 3);
    assert_eq!(tier_index(91), 4);
    assert_eq!(tier_index(100), 4);
    assert_eq!(bar(0), "▢".repeat(20));
    assert_eq!(bar(100), "▣".repeat(20));
    assert_eq!(bar(37), format!("{}{}", "▣".repeat(7), "▢".repeat(13)));
}

#[test]
fn decimals() {
    assert_eq!(decimal_string(0), "0");
    assert_eq!(decimal_string(1322123824287711242), "1322123824287711242");
    assert_eq!(decimal_string(u64::MAX), u64::MAX.to_string());
}

#[test]
fn pick_response_text() {
    let p = RandomPick { choices: vec!["a".to_string(), "b".to_string()], show_prompt: true };
    let r = ResponseData::from_random_pick(&p);
    assert!(r.content == "**Prompt:** a; b\n\n**Em chọn:** a" || r.content == "**Prompt:** a; b\n\n**Em chọn:** b");
    let long = "x".repeat(41);
    let p = RandomPick { choices: vec![long.clone(), long.clone()], show_prompt: true };
    let r = ResponseData::from_random_pick(&p);
    assert_eq!(r.content, format!("**Prompt:**\n1. {long}\n1. {long}\n\n**Em chọn:** {long}"));
    let p = RandomPick { choices: vec!["l1\nl2".to_string(), "l1\nl2".to_string()], show_prompt: false };
    assert_eq!(ResponseData::from_random_pick(&p).content, "**Em chọn:**\nl1\nl2");
    let p = RandomPick { choices: vec![], show_prompt: false };
    assert_eq!(ResponseData::from_random_pick(&p).content, "");
}

#[test]
fn answer_response_text() {
    let q = quotes();
    let b = BookOfAnswers { prompt: Some("rain?".to_string()), author: Some(5), show_prompt: true };
    let r = ResponseData::from_book_of_answers(&b, &q, 1_000_000);
    assert!(r.content.starts_with("**Prompt:** rain?\n>>> "));
    let again = ResponseData::from_book_of_answers(&b, &q, 1_000_010);
    assert_eq!(r.content, again.content);
    let b = BookOfAnswers { prompt: None, author: Some(5), show_prompt: false };
    let r = ResponseData::from_book_of_answers(&b, &q, 1_000_000);
    assert!(["yes", "no", "maybe"].contains(&r.content.as_str()));
}

#[test]
fn draw_response_text() {
    let d = deck();
    let dc = DrawClowcard { prompt: None, author: Some(5), amount: None, show_prompt: false };
    let r = ResponseData::from_draw_clowcard(&dc, &d, 1_000_000);
    assert_eq!(r.content, "Thẻ bài Clow của <@5> hôm nay (<t:925200:d>)");
    assert_eq!(r.embeds.len(), 1);
    let dc = DrawClowcard { prompt: None, author: Some(5), amount: Some(3), show_prompt: false };
    let r = ResponseData::from_draw_clowcard(&dc, &d, 1_000_000);
    assert_eq!(r.content, "<@5> vừa rút ngẫu nhiên 3 thẻ bài");
    assert_eq!(r.components.len(), 3);
    let dc = DrawClowcard { prompt: Some("p".to_string()), author: Some(5), amount: None, show_prompt: true };
    assert_eq!(ResponseData::from_draw_clowcard(&dc, &d, 1_000_000).content, "**Prompt:** p");
}

#[test]
fn other_responses() {
    let d = deck();
    let r = ResponseData::from_clow_card_info(&ClowCardInfo { name: "Fly".to_string() }, &d);
    assert_eq!(r.content, "full text of Fly");
    assert!(r.ephemeral);
    let r = ResponseData::from_clow_card_info(&ClowCardInfo { name: "Nope".to_string() }, &d);
    assert_eq!(r.content, "");
    assert!(r.ephemeral);
    let r = ResponseData::from_dice(&Dice { amount: 3 });
    assert_eq!(r.content.matches("<a:a:").count(), 3);
    assert!(r.content.ends_with("> "));
    let r = ResponseData::from_error(&Error { error: "oops".to_string() });
    assert!(r.ephemeral);
    assert_eq!(r.embeds[0].description.as_deref(), Some("oops"));
    let lc = RelationshipCalculator { targets: vec![3, 9] };
    let p = Percent { ceil: 43, round: 42, text: "42.42".to_string() };
    let r = ResponseData::from_relationship(&lc, &p);
    assert_eq!(r.content, "Mối quan hệ giữa <@3> và <@9> hiện đang là..");
    assert_eq!(r.embeds[0].title.as_deref(), Some("[ Social Snackers ]"));
    assert_eq!(
        r.embeds[0].thumbnail.as_deref(),
        Some("https://cdn.discordapp.com/emojis/1323551714887991296.webp")
    );
    assert_eq!(
        r.embeds[0].description.as_deref(),
        Some("Friendly, light connection, often in social settings.\n```css\n[▣▣▣▣▣▣▣▣▢▢▢▢▢▢▢▢▢▢▢▢] 42.42%\n```")
    );
    let q = quotes();
    let r = ResponseData::from_data(&Data::Nothing, 0, &d, &q, "about", None);
    assert_eq!(r.content, "");
    assert!(r.embeds.is_empty());
    let r = ResponseData::from_data(&Data::About(clowbot::data::About), 0, &d, &q, "about text", None);
    assert_eq!(r.embeds[0].description.as_deref(), Some("about text"));
    assert!(!r.ephemeral);
}
