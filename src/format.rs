//! Decimal numbers and the mention forms of the chat platform.
use vstd::prelude::*;

verus! {

pub open spec fn digit_char(d: nat) -> char {
    if d == 0 {
        '0'
    } else if d == 1 {
        '1'
    } else if d == 2 {
        '2'
    } else if d == 3 {
        '3'
    } else if d == 4 {
        '4'
    } else if d == 5 {
        '5'
    } else if d == 6 {
        '6'
    } else if d == 7 {
        '7'
    } else if d == 8 {
        '8'
    } else {
        '9'
    }
}

/// The decimal digits of `x`, without leading zeros.
pub open spec fn decimal(x: nat) -> Seq<char>
    decreases x,
{
    if x < 10 {
        seq![digit_char(x)]
    } else {
        decimal(x / 10).push(digit_char(x % 10))
    }
}

fn digit_str(d: u64) -> (r: &'static str)
    requires
        d < 10,
    ensures
        r@ == seq![digit_char(d as nat)],
{
    proof {
        reveal_strlit("0");
        reveal_strlit("1");
        reveal_strlit("2");
        reveal_strlit("3");
        reveal_strlit("4");
        reveal_strlit("5");
        reveal_strlit("6");
        reveal_strlit("7");
        reveal_strlit("8");
        reveal_strlit("9");
    }
    let r = if d == 0 {
        "0"
    } else if d == 1 {
        "1"
    } else if d == 2 {
        "2"
    } else if d == 3 {
        "3"
    } else if d == 4 {
        "4"
    } else if d == 5 {
        "5"
    } else if d == 6 {
        "6"
    } else if d == 7 {
        "7"
    } else if d == 8 {
        "8"
    } else {
        "9"
    };
    assert(r@ =~= seq![digit_char(d as nat)]);
    r
}

/// Appends the decimal digits of `x`.
pub fn push_decimal(out: &mut String, x: u64)
    ensures
        final(out)@ == old(out)@ + decimal(x as nat),
    decreases x,
{
    if x < 10 {
        out.append(digit_str(x));
    } else {
        push_decimal(out, x / 10);
        out.append(digit_str(x % 10));
        assert(old(out)@ + decimal(x as nat) =~= old(out)@ + decimal((x / 10) as nat) + seq![
            digit_char((x % 10) as nat),
        ]);
    }
}

/// The decimal digits of `x`.
pub fn decimal_string(x: u64) -> (r: String)
    ensures
        r@ == decimal(x as nat),
{
    let mut s = String::new();
    push_decimal(&mut s, x);
    assert(s@ =~= decimal(x as nat));
    s
}

/// `<@id>`, the mention of a user.
pub open spec fn user_mention(id: u64) -> Seq<char> {
    "<@"@ + decimal(id as nat) + ">"@
}

pub fn push_user_mention(out: &mut String, id: u64)
    ensures
        final(out)@ == old(out)@ + user_mention(id),
{
    out.append("<@");
    push_decimal(out, id);
    out.append(">");
    assert(final(out)@ =~= old(out)@ + user_mention(id));
}

/// `<t:unix:d>`, a date shown in the reader's time zone.
pub open spec fn date_mention(unix: u64) -> Seq<char> {
    "<t:"@ + decimal(unix as nat) + ":d>"@
}

pub fn push_date_mention(out: &mut String, unix: u64)
    ensures
        final(out)@ == old(out)@ + date_mention(unix),
{
    out.append("<t:");
    push_decimal(out, unix);
    out.append(":d>");
    assert(final(out)@ =~= old(out)@ + date_mention(unix));
}

/// `<a:a:id>`, an animated emoji.
pub open spec fn emoji_mention(id: u64) -> Seq<char> {
    "<a:a:"@ + decimal(id as nat) + ">"@
}

pub fn push_emoji(out: &mut String, id: u64)
    ensures
        final(out)@ == old(out)@ + emoji_mention(id),
{
    out.append("<a:a:");
    push_decimal(out, id);
    out.append(">");
    assert(final(out)@ =~= old(out)@ + emoji_mention(id));
}

} // verus!
