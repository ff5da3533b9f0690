//! What is shown: signs, colors and numbers.

use crate::render::{decimal, number};
use crate::text::{same, Text};
use crate::types::{health_of_sign, of_emoji, Health};
use vstd::prelude::*;

verus! {

// ANSI color codes
pub const GREEN: &'static str = "\x1b[32m";

pub const YELLOW: &'static str = "\x1b[33m";

pub const RED: &'static str = "\x1b[31m";

pub const GRAY: &'static str = "\x1b[90m";

pub const BOLD: &'static str = "\x1b[1m";

pub const RESET: &'static str = "\x1b[0m";

// ── Signs and colors ─────────────────────────────────────────────────

/// The color in which a state of health is shown.
pub open spec fn color_of(h: Health) -> Text {
    match h {
        Health::Healthy => GREEN@,
        Health::Warning => YELLOW@,
        Health::Inactive => RED@,
        Health::Dead => RED@,
        Health::Hijack => GRAY@,
        Health::Unknown => GRAY@,
    }
}

/// The signs of the states of health that are worth a look.
pub open spec fn stale_sign(emoji: Text) -> bool {
    emoji == "🪦"@ || emoji == "🔴"@ || emoji == "⚠️"@ || emoji == "❓"@
}

/// The color in which the sign `health` is shown.
pub fn health_color(health: &str) -> (r: &'static str)
    ensures
        r@ == color_of(of_emoji(health@)),
{
    match health_of_sign(health) {
        Health::Healthy => GREEN,
        Health::Warning => YELLOW,
        Health::Inactive => RED,
        Health::Dead => RED,
        Health::Hijack => GRAY,
        Health::Unknown => GRAY,
    }
}

/// Whether the sign `health` is that of a package worth a look: dead,
/// inactive, stale or unknown.
pub fn is_stale(health: &str) -> (r: bool)
    ensures
        r == stale_sign(health@),
{
    same(health, "🪦") || same(health, "🔴") || same(health, "⚠️") || same(health, "❓")
}

/// The signs that are worth a look are those of every health but the best
/// one and the risk of a hijack.
pub proof fn law_stale_signs(h: Health)
    ensures
        stale_sign(h.emoji()) <==> h != Health::Healthy && h != Health::Hijack,
{
    reveal_strlit("✅");
    reveal_strlit("⚠️");
    reveal_strlit("🚩");
    reveal_strlit("🔴");
    reveal_strlit("🪦");
    reveal_strlit("❓");
    assert("✅"@[0] == '✅');
    assert("⚠️"@.len() == 2);
    assert("🚩"@[0] == '🚩');
    assert("🔴"@[0] == '🔴');
    assert("🪦"@[0] == '🪦');
    assert("❓"@[0] == '❓');
}

// ── Numbers ──────────────────────────────────────────────────────────

/// `n` over `unit` to one decimal, a half rounded up.
pub open spec fn one_decimal(n: nat, unit: nat) -> Text {
    let tenths = (10 * n + unit / 2) / unit;
    decimal(tenths / 10) + "."@ + decimal(tenths % 10)
}

/// A number of downloads, in millions or thousands where there are that many.
pub open spec fn downloads_text(n: nat) -> Text {
    if n >= 1_000_000 {
        one_decimal(n, 1_000_000) + "M"@
    } else if n >= 1_000 {
        one_decimal(n, 1_000) + "K"@
    } else {
        decimal(n)
    }
}

/// A number of tenths, to one decimal.
fn of_tenths(tenths: u64) -> (r: String)
    ensures
        r@ == decimal((tenths / 10) as nat) + "."@ + decimal((tenths % 10) as nat),
{
    let mut text = number(tenths / 10);
    text.append(".");
    text.append(number(tenths % 10).as_str());
    text
}

/// A number of downloads, in millions or thousands where there are that many.
pub fn fmt_downloads(n: u64) -> (r: String)
    ensures
        r@ == downloads_text(n as nat),
{
    if n >= 1_000_000 {
        let extra: u64 = if n % 100_000 >= 50_000 {
            1
        } else {
            0
        };
        let tenths = n / 100_000 + extra;
        assert(tenths == (10 * n + 500_000) / 1_000_000);
        let mut text = of_tenths(tenths);
        text.append("M");
        text
    } else if n >= 1_000 {
        let extra: u64 = if n % 100 >= 50 {
            1
        } else {
            0
        };
        let tenths = n / 100 + extra;
        assert(tenths == (10 * n + 500) / 1_000);
        let mut text = of_tenths(tenths);
        text.append("K");
        text
    } else {
        number(n)
    }
}

} // verus!
