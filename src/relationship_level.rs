//! The five tiers of a relationship and the bar that shows its percentage.
use vstd::prelude::*;

verus! {

/// One tier: it holds the percentages up to `upperbound`.
#[derive(Debug, Clone, Copy)]
pub struct RelationshipLevel {
    pub title: &'static str,
    pub description: &'static str,
    pub thumbnail: u64,
    pub color: u32,
    pub upperbound: u32,
}

/// The upper bounds of the tiers, in ascending order.
pub open spec fn tier_bound(i: int) -> u32 {
    if i == 0 {
        20
    } else if i == 1 {
        50
    } else if i == 2 {
        75
    } else if i == 3 {
        90
    } else {
        100
    }
}

/// The accent colours of the tiers.
pub open spec fn tier_color(i: int) -> u32 {
    if i == 0 {
        0xD3D3D3
    } else if i == 1 {
        0xF1E2A7
    } else if i == 2 {
        0x5D9BEC
    } else if i == 3 {
        0xFF6F61
    } else {
        0x9B4D96
    }
}

/// The titles of the tiers.
pub open spec fn tier_title(i: int) -> Seq<char> {
    if i == 0 {
        "[ Strangers in the Night ]"@
    } else if i == 1 {
        "[ Social Snackers ]"@
    } else if i == 2 {
        "[ Besties ]"@
    } else if i == 3 {
        "[ Partners in Crime ]"@
    } else {
        "[ Soulmates Forever ]"@
    }
}

/// The emoji ids of the tiers' thumbnails.
pub open spec fn tier_thumbnail(i: int) -> u64 {
    if i == 0 {
        1323549313430851594
    } else if i == 1 {
        1323551714887991296
    } else if i == 2 {
        1323551637075398700
    } else if i == 3 {
        1323547947601891370
    } else {
        1323550264824827924
    }
}

/// The descriptions of the tiers.
pub open spec fn tier_description(i: int) -> Seq<char> {
    if i == 0 {
        "Casual, brief encounter, no real connection."@
    } else if i == 1 {
        "Friendly, light connection, often in social settings."@
    } else if i == 2 {
        "Solid friends, trust and fun, but not yet deeply emotional."@
    } else if i == 3 {
        "Strong bond, loyal and inseparable, lots of shared experiences."@
    } else {
        "Deep connection, unspoken understanding, and long-term commitment."@
    }
}

pub const NUM_LEVELS: usize = 5;

/// The tiers, from the weakest bond to the strongest.
pub fn relationship_levels() -> (r: Vec<RelationshipLevel>)
    ensures
        r@.len() == NUM_LEVELS,
        forall|i: int| 0 <= i < NUM_LEVELS ==> (#[trigger] r@[i]).upperbound == tier_bound(i),
        forall|i: int| 0 <= i < NUM_LEVELS ==> (#[trigger] r@[i]).color == tier_color(i),
        forall|i: int| 0 <= i < NUM_LEVELS ==> (#[trigger] r@[i]).description@ == tier_description(i),
        forall|i: int| 0 <= i < NUM_LEVELS ==> (#[trigger] r@[i]).title@ == tier_title(i),
        forall|i: int| 0 <= i < NUM_LEVELS ==> (#[trigger] r@[i]).thumbnail == tier_thumbnail(i),
{
    vec![
        RelationshipLevel {
            title: "[ Strangers in the Night ]",
            description: "Casual, brief encounter, no real connection.",
            thumbnail: 1323549313430851594,
            color: 0xD3D3D3,
            upperbound: 20,
        },
        RelationshipLevel {
            title: "[ Social Snackers ]",
            description: "Friendly, light connection, often in social settings.",
            thumbnail: 1323551714887991296,
            color: 0xF1E2A7,
            upperbound: 50,
        },
        RelationshipLevel {
            title: "[ Besties ]",
            description: "Solid friends, trust and fun, but not yet deeply emotional.",
            thumbnail: 1323551637075398700,
            color: 0x5D9BEC,
            upperbound: 75,
        },
        RelationshipLevel {
            title: "[ Partners in Crime ]",
            description: "Strong bond, loyal and inseparable, lots of shared experiences.",
            thumbnail: 1323547947601891370,
            color: 0xFF6F61,
            upperbound: 90,
        },
        RelationshipLevel {
            title: "[ Soulmates Forever ]",
            description: "Deep connection, unspoken understanding, and long-term commitment.",
            thumbnail: 1323550264824827924,
            color: 0x9B4D96,
            upperbound: 100,
        },
    ]
}

/// The tier of a percentage `p` in `[0, 100)`, given as `ceil(p)`: the first
/// whose upper bound is at least `p`. A real `p` is at most an integer bound
/// exactly when its ceiling is.
pub fn tier_index(ceil_percent: u32) -> (r: usize)
    requires
        ceil_percent <= 100,
    ensures
        r < NUM_LEVELS,
        ceil_percent <= tier_bound(r as int),
        forall|j: int| 0 <= j < r ==> tier_bound(j) < ceil_percent,
{
    let levels = relationship_levels();
    let mut i: usize = 0;
    while i < NUM_LEVELS - 1 && levels[i].upperbound < ceil_percent
        invariant
            0 <= i < NUM_LEVELS,
            levels@.len() == NUM_LEVELS,
            forall|k: int| 0 <= k < NUM_LEVELS ==> (#[trigger] levels@[k]).upperbound == tier_bound(k),
            forall|j: int| 0 <= j < i ==> tier_bound(j) < ceil_percent,
        decreases NUM_LEVELS - i,
    {
        i = i + 1;
    }
    i
}

pub const NUM_BOXES: u32 = 20;

/// `n` copies of `c`.
pub open spec fn repeat(c: char, n: nat) -> Seq<char> {
    Seq::new(n, |i: int| c)
}

/// The bar of a percentage rounded to `rounded`: one filled box for each 5%.
pub open spec fn bar_of(rounded: u32) -> Seq<char> {
    let filled = (rounded / 5) as nat;
    repeat('▣', filled) + repeat('▢', (NUM_BOXES - filled) as nat)
}

/// Appends `n` copies of the one-character text `c`.
fn push_repeat(out: &mut String, c: &str, n: u32)
    requires
        c@.len() == 1,
    ensures
        final(out)@ == old(out)@ + repeat(c@[0], n as nat),
{
    let mut i: u32 = 0;
    while i < n
        invariant
            0 <= i <= n,
            c@.len() == 1,
            out@ == old(out)@ + repeat(c@[0], i as nat),
        decreases n - i,
    {
        out.append(c);
        assert(repeat(c@[0], (i + 1) as nat) =~= repeat(c@[0], i as nat) + c@);
        i = i + 1;
    }
}

/// The 20-box bar of a percentage rounded to `rounded`.
pub fn bar(rounded: u32) -> (r: String)
    requires
        rounded <= 100,
    ensures
        r@ == bar_of(rounded),
{
    let filled = rounded / 5;
    let mut s = String::new();
    proof {
        reveal_strlit("▣");
        reveal_strlit("▢");
    }
    push_repeat(&mut s, "▣", filled);
    push_repeat(&mut s, "▢", NUM_BOXES - filled);
    assert(s@ =~= bar_of(rounded));
    s
}

} // verus!
