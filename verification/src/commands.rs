//! The unauthenticated commands: building the channel replies for jokes,
//! cookies, quotes and dice rolls. Content fetching is external; each builder
//! takes the fetched value (or nothing, on a fetch failure) and degrades to a
//! canned default.

use crate::command::DiceRoll;
use crate::messages::OutgoingMessage;
use crate::text;
use vstd::prelude::*;

verus! {

/// The canned fallback when the joke service fails.
pub open spec fn spec_default_chuck() -> Seq<char> {
    "No one really knows Chuck Norris. Not even Chuck Norris!"@
}

/// The canned fallback when the cookie service fails.
pub open spec fn spec_default_cookie() -> Seq<char> {
    "Man who run in front of car get tired. Man who run behind car get exhausted."@
}

/// The canned fallback when the quote service fails.
pub open spec fn spec_default_quote() -> Seq<char> {
    "Talk low, talk slow, and don't say too much. -John Wayne"@
}

/// The joke reply: the fetched joke, or the canned default.
pub fn chuck(channel: &str, joke: Option<String>) -> (r: OutgoingMessage)
    ensures
        r matches OutgoingMessage::ChannelMessage { channel: ch, content } && ch@ == channel@
            && content@ == (match joke {
            Option::Some(j) => j@,
            Option::None => spec_default_chuck(),
        }),
{
    let content = match joke {
        Some(j) => j,
        None => "No one really knows Chuck Norris. Not even Chuck Norris!".to_owned(),
    };
    OutgoingMessage::ChannelMessage { channel: channel.to_owned(), content }
}

/// The fortune-cookie reply: the fetched text, or the canned default.
pub fn cookie(channel: &str, fortune: Option<String>) -> (r: OutgoingMessage)
    ensures
        r matches OutgoingMessage::ChannelMessage { channel: ch, content } && ch@ == channel@
            && content@ == (match fortune {
            Option::Some(f) => f@,
            Option::None => spec_default_cookie(),
        }),
{
    let content = match fortune {
        Some(f) => f,
        None => "Man who run in front of car get tired. Man who run behind car get exhausted.".to_owned(),
    };
    OutgoingMessage::ChannelMessage { channel: channel.to_owned(), content }
}

/// The quote reply: "`quote` -`author`", or the canned default.
pub fn quote(channel: &str, fetched: Option<(String, String)>) -> (r: OutgoingMessage)
    ensures
        r matches OutgoingMessage::ChannelMessage { channel: ch, content } && ch@ == channel@
            && content@ == (match fetched {
            Option::Some(qa) => qa.0@ + " -"@ + qa.1@,
            Option::None => spec_default_quote(),
        }),
{
    let content = match fetched {
        Some((q, a)) => {
            let mut c = q;
            c.append(" -");
            c.append(a.as_str());
            c
        },
        None => "Talk low, talk slow, and don't say too much. -John Wayne".to_owned(),
    };
    OutgoingMessage::ChannelMessage { channel: channel.to_owned(), content }
}

/// The help line listing the public commands.
pub fn list_commands(channel: &str) -> (r: OutgoingMessage)
    ensures
        r matches OutgoingMessage::ChannelMessage { channel: ch, content } && ch@ == channel@
            && content@ == ".chuck .cookie .quote .quote <category> .roll <1d6>"@,
{
    OutgoingMessage::ChannelMessage {
        channel: channel.to_owned(),
        content: ".chuck .cookie .quote .quote <category> .roll <1d6>".to_owned(),
    }
}

/// The known quote categories.
pub fn list_quote_categories(channel: &str) -> (r: OutgoingMessage)
    ensures
        r matches OutgoingMessage::ChannelMessage { channel: ch, content } && ch@ == channel@
            && content@ == "inspire, management, sports, life, funny, love, art, students"@,
{
    OutgoingMessage::ChannelMessage {
        channel: channel.to_owned(),
        content: "inspire, management, sports, life, funny, love, art, students".to_owned(),
    }
}

/// Relies on `rand::random_range`: a value drawn uniformly from the inclusive
/// range; nothing more is assumed of it than its bounds.
#[verifier::external_body]
fn random_in_range(lo: u32, hi: u32) -> (r: u32)
    requires
        lo <= hi,
    ensures
        lo <= r <= hi,
{
    rand::random_range(lo..=hi)
}

/// The comma-separated rendering of the rolled values; a single value stands
/// alone.
pub open spec fn spec_fmt_values(values: Seq<u32>) -> Seq<char>
    decreases values.len(),
{
    if values.len() == 0 {
        Seq::empty()
    } else if values.len() == 1 {
        text::spec_dec(values[0] as int)
    } else {
        spec_fmt_values(values.drop_last()) + ", "@ + text::spec_dec(values.last() as int)
    }
}

/// Renders the rolled values for the reply line.
pub fn format_dice_results(values: &Vec<u32>) -> (r: String)
    ensures
        r@ == spec_fmt_values(values@),
{
    let mut r = String::new();
    let mut i: usize = 0;
    while i < values.len()
        invariant
            i <= values@.len(),
            r@ == spec_fmt_values(values@.take(i as int)),
        decreases values@.len() - i,
    {
        proof {
            assert(values@.take(i + 1).drop_last() =~= values@.take(i as int));
            assert(values@.take(i + 1).last() == values@[i as int]);
        }
        if i > 0 {
            r.append(", ");
        }
        let digits = text::dec_u128(values[i] as u128);
        text::append_chars(&mut r, &digits);
        i = i + 1;
    }
    proof {
        assert(values@.take(values@.len() as int) =~= values@);
    }
    r
}

/// The sum of the rolled values.
pub open spec fn spec_sum(values: Seq<u32>) -> int
    decreases values.len(),
{
    if values.len() == 0 {
        0
    } else {
        spec_sum(values.drop_last()) + values.last()
    }
}

fn sum_values(values: &Vec<u32>) -> (s: u128)
    ensures
        s == spec_sum(values@),
{
    let mut s: u128 = 0;
    let mut i: usize = 0;
    while i < values.len()
        invariant
            i <= values@.len(),
            s == spec_sum(values@.take(i as int)),
            s <= i * 0xffff_ffff,
        decreases values@.len() - i,
    {
        proof {
            assert(values@.take(i + 1).drop_last() =~= values@.take(i as int));
            assert(values@.take(i + 1).last() == values@[i as int]);
            assert(i * 0xffff_ffff + 0xffff_ffff == (i + 1) * 0xffff_ffff) by (nonlinear_arith);
            assert(i + 1 <= usize::MAX);
            assert((i + 1) * 0xffff_ffff <= usize::MAX * 0xffff_ffff) by (nonlinear_arith)
                requires
                    i + 1 <= usize::MAX,
            ;
        }
        s = s + (values[i] as u128);
        i = i + 1;
    }
    proof {
        assert(values@.take(values@.len() as int) =~= values@);
    }
    s
}

/// What any roll outcome satisfies, die by die: for each requested die, in
/// order, exactly `count` values, each between one and that die's face count.
pub open spec fn spec_dice_values_ok(values: Seq<u32>, dice: Seq<DiceRoll>) -> bool
    decreases dice.len(),
{
    if dice.len() == 0 {
        values.len() == 0
    } else {
        let c = dice.last().count as int;
        &&& values.len() >= c
        &&& spec_dice_values_ok(values.take(values.len() - c), dice.drop_last())
        &&& forall|k: int|
            values.len() - c <= k < values.len() ==> 1 <= values[k] && values[k] <= dice.last().sides
    }
}

/// The roll reply line for the rolled values.
pub open spec fn spec_roll_text(sender: Seq<char>, values: Seq<u32>) -> Seq<char> {
    sender + " rolled "@ + spec_fmt_values(values) + " ("@ + text::spec_dec(spec_sum(values))
        + ")"@
}

/// What the roll reply promises: it reports some outcome of the requested
/// dice, formatted with the values and their sum.
pub open spec fn spec_roll_reply(sender: Seq<char>, dice: Seq<DiceRoll>, content: Seq<char>) -> bool {
    exists|values: Seq<u32>|
        #[trigger] spec_dice_values_ok(values, dice) && content == spec_roll_text(sender, values)
}

proof fn lemma_sum_nonneg(values: Seq<u32>)
    ensures
        spec_sum(values) >= 0,
    decreases values.len(),
{
    if values.len() > 0 {
        lemma_sum_nonneg(values.drop_last());
    }
}

/// Rolls the dice and builds the reply line "`sender` rolled `values`
/// (`sum`)". The values are drawn from the thread's random number generator;
/// only their count and bounds are promised.
pub fn roll(channel: &str, sender: &str, dice: &Vec<DiceRoll>) -> (r: OutgoingMessage)
    requires
        forall|i: int| 0 <= i < dice@.len() ==> dice@[i].sides >= 1,
    ensures
        r matches OutgoingMessage::ChannelMessage { channel: ch, content } && ch@ == channel@
            && spec_roll_reply(sender@, dice@, content@),
{
    let mut values: Vec<u32> = Vec::new();
    let mut i: usize = 0;
    while i < dice.len()
        invariant
            i <= dice@.len(),
            forall|j: int| 0 <= j < dice@.len() ==> dice@[j].sides >= 1,
            spec_dice_values_ok(values@, dice@.take(i as int)),
        decreases dice@.len() - i,
    {
        let d = dice[i];
        proof {
            assert(dice@.take(i + 1).drop_last() =~= dice@.take(i as int));
            assert(dice@.take(i + 1).last() == dice@[i as int]);
        }
        let ghost base = values@;
        let mut k: u32 = 0;
        while k < d.count
            invariant
                k <= d.count,
                d == dice@[i as int],
                i < dice@.len(),
                d.sides >= 1,
                spec_dice_values_ok(base, dice@.take(i as int)),
                values@.len() == base.len() + k,
                values@.take(base.len() as int) == base,
                forall|k2: int|
                    base.len() <= k2 < values@.len() ==> 1 <= values@[k2] && values@[k2] <= d.sides,
            decreases d.count - k,
        {
            let ghost before = values@;
            values.push(random_in_range(1, d.sides));
            proof {
                assert(values@.take(base.len() as int) =~= before.take(base.len() as int));
            }
            k = k + 1;
        }
        proof {
            assert(spec_dice_values_ok(values@, dice@.take(i + 1)));
        }
        i = i + 1;
    }
    proof {
        assert(dice@.take(dice@.len() as int) =~= dice@);
    }
    let total = sum_values(&values);
    let formatted = format_dice_results(&values);
    let mut content = sender.to_owned();
    content.append(" rolled ");
    content.append(formatted.as_str());
    content.append(" (");
    proof {
        lemma_sum_nonneg(values@);
    }
    let sum_digits = text::dec_u128(total);
    text::append_chars(&mut content, &sum_digits);
    content.append(")");
    proof {
        assert(content@ =~= spec_roll_text(sender@, values@));
        assert(spec_dice_values_ok(values@, dice@));
    }
    OutgoingMessage::ChannelMessage { channel: channel.to_owned(), content }
}

} // verus!
