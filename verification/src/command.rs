//! Typed chat commands and their tokenizer. A line starting with the command
//! marker `.` is split on whitespace; the first word selects the variant and
//! the remaining words are its arguments. Unknown keywords or a wrong
//! argument count yield no command (not an error).

use crate::text;
use vstd::prelude::*;

verus! {

/// A dice request: roll `count` dice of `sides` faces each, written
/// `<count>d<sides>`.
#[derive(Clone, Copy, Debug, PartialEq, Eq, Structural)]
pub struct DiceRoll {
    pub count: u32,
    pub sides: u32,
}

/// A parsed command line.
pub enum Command {
    Chuck,
    Cookie,
    Quote(Option<String>),
    Roll(Vec<DiceRoll>),
    SetNick(String),
    SetDebug(bool),
    JoinChannel(String),
    LeaveChannel(String),
    SetTopic(String),
    SetGreeting(String),
    ListMessages,
    Kill,
}

/// The shape of a command at the specification level, with strings as
/// character sequences.
pub enum CommandModel {
    Chuck,
    Cookie,
    Quote(Option<Seq<char>>),
    Roll(Seq<DiceRoll>),
    SetNick(Seq<char>),
    SetDebug(bool),
    JoinChannel(Seq<char>),
    LeaveChannel(Seq<char>),
    SetTopic(Seq<char>),
    SetGreeting(Seq<char>),
    ListMessages,
    Kill,
}

impl View for Command {
    type V = CommandModel;

    open spec fn view(&self) -> CommandModel {
        match self {
            Command::Chuck => CommandModel::Chuck,
            Command::Cookie => CommandModel::Cookie,
            Command::Quote(c) => CommandModel::Quote(
                match c {
                    Option::None => Option::None,
                    Option::Some(s) => Option::Some(s@),
                },
            ),
            Command::Roll(d) => CommandModel::Roll(d@),
            Command::SetNick(s) => CommandModel::SetNick(s@),
            Command::SetDebug(b) => CommandModel::SetDebug(*b),
            Command::JoinChannel(s) => CommandModel::JoinChannel(s@),
            Command::LeaveChannel(s) => CommandModel::LeaveChannel(s@),
            Command::SetTopic(s) => CommandModel::SetTopic(s@),
            Command::SetGreeting(s) => CommandModel::SetGreeting(s@),
            Command::ListMessages => CommandModel::ListMessages,
            Command::Kill => CommandModel::Kill,
        }
    }
}

/// The position of the first `d` in a dice word.
pub open spec fn spec_find_d(s: Seq<char>) -> Option<nat>
    decreases s.len(),
{
    if s.len() == 0 {
        Option::None
    } else if s[0] == 'd' {
        Option::Some(0)
    } else {
        match spec_find_d(s.drop_first()) {
            Option::None => Option::None,
            Option::Some(i) => Option::Some((i + 1) as nat),
        }
    }
}

proof fn lemma_find_d_exact(s: Seq<char>, i: int)
    requires
        0 <= i < s.len(),
        s[i] == 'd',
        forall|j: int| 0 <= j < i ==> s[j] != 'd',
    ensures
        spec_find_d(s) == Option::Some(i as nat),
    decreases i,
{
    if i > 0 {
        lemma_find_d_exact(s.drop_first(), i - 1);
    }
}

proof fn lemma_find_d_absent(s: Seq<char>)
    requires
        forall|j: int| 0 <= j < s.len() ==> s[j] != 'd',
    ensures
        spec_find_d(s) is None,
    decreases s.len(),
{
    if s.len() > 0 {
        lemma_find_d_absent(s.drop_first());
    }
}

/// A well-formed dice word is `<count>d<sides>` with both numerals in `u32`
/// range and at least one.
pub open spec fn spec_dice(s: Seq<char>) -> Option<DiceRoll> {
    match spec_find_d(s) {
        Option::None => Option::None,
        Option::Some(i) => {
            let count_part = s.take(i as int);
            let sides_part = s.skip(i + 1int);
            if text::spec_is_u32_numeral(count_part) && text::spec_is_u32_numeral(sides_part)
                && text::spec_num_val(count_part) >= 1 && text::spec_num_val(sides_part) >= 1 {
                Option::Some(
                    DiceRoll {
                        count: text::spec_num_val(count_part) as u32,
                        sides: text::spec_num_val(sides_part) as u32,
                    },
                )
            } else {
                Option::None
            }
        },
    }
}

/// Parses one dice word.
pub fn parse_dice(s: &str) -> (r: Option<DiceRoll>)
    ensures
        r == spec_dice(s@),
{
    let n = s.unicode_len();
    let mut i: usize = 0;
    while i < n && s.get_char(i) != 'd'
        invariant
            n == s@.len(),
            i <= n,
            forall|j: int| 0 <= j < i ==> s@[j] != 'd',
        decreases n - i,
    {
        i = i + 1;
    }
    if i == n {
        proof {
            lemma_find_d_absent(s@);
        }
        return None;
    }
    proof {
        lemma_find_d_exact(s@, i as int);
    }
    let count_part = s.substring_char(0, i);
    let sides_part = s.substring_char(i + 1, n);
    proof {
        assert(count_part@ =~= s@.take(i as int));
        assert(sides_part@ =~= s@.skip(i + 1));
    }
    match (text::parse_u32(count_part), text::parse_u32(sides_part)) {
        (Some(count), Some(sides)) => {
            if count >= 1 && sides >= 1 {
                Some(DiceRoll { count, sides })
            } else {
                None
            }
        },
        _ => None,
    }
}

/// The dice words among the arguments that parse, in order.
pub open spec fn spec_dice_list(toks: Seq<Seq<char>>) -> Seq<DiceRoll>
    decreases toks.len(),
{
    if toks.len() == 0 {
        Seq::empty()
    } else {
        match spec_dice(toks[0]) {
            Option::Some(d) => seq![d] + spec_dice_list(toks.drop_first()),
            Option::None => spec_dice_list(toks.drop_first()),
        }
    }
}

/// The dice a roll command uses: every argument that parses as a dice word;
/// one six-sided die when none does.
pub open spec fn spec_create_dice(toks: Seq<Seq<char>>) -> Seq<DiceRoll> {
    if spec_dice_list(toks).len() == 0 {
        seq![DiceRoll { count: 1, sides: 6 }]
    } else {
        spec_dice_list(toks)
    }
}

/// Collects the dice of the argument words `toks[start..]`, falling back to
/// one six-sided die when no word parses.
pub fn create_dice(toks: &Vec<String>, start: usize) -> (r: Vec<DiceRoll>)
    requires
        start <= toks@.len(),
    ensures
        r@ == spec_create_dice(toks@.map_values(|t: String| t@).skip(start as int)),
{
    let ghost all = toks@.map_values(|t: String| t@).skip(start as int);
    let mut dice: Vec<DiceRoll> = Vec::new();
    let mut i: usize = start;
    proof {
        assert(all.skip(0) =~= all);
    }
    while i < toks.len()
        invariant
            start <= i <= toks@.len(),
            all == toks@.map_values(|t: String| t@).skip(start as int),
            spec_dice_list(all) == dice@ + spec_dice_list(all.skip(i - start)),
        decreases toks@.len() - i,
    {
        let ghost rest = all.skip(i - start);
        proof {
            assert(rest[0] == toks@[i as int]@);
            assert(rest.drop_first() =~= all.skip(i + 1 - start));
        }
        match parse_dice(toks[i].as_str()) {
            Some(d) => {
                dice.push(d);
                proof {
                    assert(dice@ + spec_dice_list(all.skip(i + 1 - start)) =~= dice@.drop_last()
                        + (seq![d] + spec_dice_list(all.skip(i + 1 - start))));
                }
            },
            None => {},
        }
        i = i + 1;
    }
    proof {
        assert(all.skip(toks@.len() - start) =~= Seq::<Seq<char>>::empty());
        assert(dice@ + spec_dice_list(Seq::<Seq<char>>::empty()) =~= dice@);
    }
    if dice.len() == 0 {
        let mut one: Vec<DiceRoll> = Vec::new();
        one.push(DiceRoll { count: 1, sides: 6 });
        proof {
            assert(one@ =~= seq![DiceRoll { count: 1, sides: 6 }]);
        }
        one
    } else {
        dice
    }
}

/// What a command line means: `None` for anything that is not a known
/// command with the right argument count.
pub open spec fn spec_parse(line: Seq<char>) -> Option<CommandModel> {
    let toks = text::spec_tokens(line);
    if toks.len() == 0 {
        Option::None
    } else if toks[0] == ".chuck"@ {
        if toks.len() == 1 {
            Option::Some(CommandModel::Chuck)
        } else {
            Option::None
        }
    } else if toks[0] == ".cookie"@ {
        if toks.len() == 1 {
            Option::Some(CommandModel::Cookie)
        } else {
            Option::None
        }
    } else if toks[0] == ".quote"@ {
        if toks.len() == 1 {
            Option::Some(CommandModel::Quote(Option::None))
        } else if toks.len() == 2 {
            Option::Some(CommandModel::Quote(Option::Some(toks[1])))
        } else {
            Option::None
        }
    } else if toks[0] == ".roll"@ {
        Option::Some(CommandModel::Roll(spec_create_dice(toks.skip(1))))
    } else if toks[0] == ".debug"@ {
        if toks.len() == 2 {
            Option::Some(CommandModel::SetDebug(toks[1] == "true"@))
        } else {
            Option::None
        }
    } else if toks[0] == ".nick"@ {
        if toks.len() == 2 {
            Option::Some(CommandModel::SetNick(toks[1]))
        } else {
            Option::None
        }
    } else if toks[0] == ".join"@ {
        if toks.len() == 2 {
            Option::Some(CommandModel::JoinChannel(toks[1]))
        } else {
            Option::None
        }
    } else if toks[0] == ".leave"@ {
        if toks.len() == 2 {
            Option::Some(CommandModel::LeaveChannel(toks[1]))
        } else {
            Option::None
        }
    } else if toks[0] == ".topic"@ {
        Option::Some(CommandModel::SetTopic(text::spec_replace(line, ".topic "@, ""@)))
    } else if toks[0] == ".greet"@ {
        Option::Some(CommandModel::SetGreeting(text::spec_replace(line, ".greet "@, ""@)))
    } else if toks[0] == ".list-messages"@ || toks[0] == ".listmessages"@ || toks[0]
        == ".messages"@ {
        if toks.len() == 1 {
            Option::Some(CommandModel::ListMessages)
        } else {
            Option::None
        }
    } else if toks[0] == ".kill"@ {
        if toks.len() == 1 {
            Option::Some(CommandModel::Kill)
        } else {
            Option::None
        }
    } else {
        Option::None
    }
}

impl Command {
    /// Parses a line into a command; anything unrecognized is no command.
    pub fn from_str(s: &str) -> (r: Option<Command>)
        ensures
            r matches Some(c) ==> spec_parse(s@) == Option::Some(c@),
            r is None ==> spec_parse(s@) is None,
    {
        let tokens = text::tokenize(s);
        let ghost toks = text::spec_tokens(s@);
        if tokens.len() == 0 {
            return None;
        }
        proof {
            assert(toks[0] == tokens@[0]@);
        }
        let t0 = tokens[0].as_str();
        if text::str_eq(t0, ".chuck") {
            if tokens.len() == 1 {
                Some(Command::Chuck)
            } else {
                None
            }
        } else if text::str_eq(t0, ".cookie") {
            if tokens.len() == 1 {
                Some(Command::Cookie)
            } else {
                None
            }
        } else if text::str_eq(t0, ".quote") {
            if tokens.len() == 1 {
                Some(Command::Quote(None))
            } else if tokens.len() == 2 {
                proof {
                    assert(toks[1] == tokens@[1]@);
                }
                Some(Command::Quote(Some(tokens[1].clone())))
            } else {
                None
            }
        } else if text::str_eq(t0, ".roll") {
            let dice = create_dice(&tokens, 1);
            proof {
                assert(tokens@.map_values(|t: String| t@).skip(1) =~= toks.skip(1));
            }
            Some(Command::Roll(dice))
        } else if text::str_eq(t0, ".debug") {
            if tokens.len() == 2 {
                proof {
                    assert(toks[1] == tokens@[1]@);
                }
                Some(Command::SetDebug(text::str_eq(tokens[1].as_str(), "true")))
            } else {
                None
            }
        } else if text::str_eq(t0, ".nick") {
            if tokens.len() == 2 {
                proof {
                    assert(toks[1] == tokens@[1]@);
                }
                Some(Command::SetNick(tokens[1].clone()))
            } else {
                None
            }
        } else if text::str_eq(t0, ".join") {
            if tokens.len() == 2 {
                proof {
                    assert(toks[1] == tokens@[1]@);
                }
                Some(Command::JoinChannel(tokens[1].clone()))
            } else {
                None
            }
        } else if text::str_eq(t0, ".leave") {
            if tokens.len() == 2 {
                proof {
                    assert(toks[1] == tokens@[1]@);
                }
                Some(Command::LeaveChannel(tokens[1].clone()))
            } else {
                None
            }
        } else if text::str_eq(t0, ".topic") {
            Some(Command::SetTopic(text::replace(s, ".topic ", "")))
        } else if text::str_eq(t0, ".greet") {
            Some(Command::SetGreeting(text::replace(s, ".greet ", "")))
        } else if text::str_eq(t0, ".list-messages") || text::str_eq(t0, ".listmessages")
            || text::str_eq(t0, ".messages") {
            if tokens.len() == 1 {
                Some(Command::ListMessages)
            } else {
                None
            }
        } else if text::str_eq(t0, ".kill") {
            if tokens.len() == 1 {
                Some(Command::Kill)
            } else {
                None
            }
        } else {
            None
        }
    }
}


/// Every die a roll command produces has at least one face and is rolled at
/// least once: parsed dice words demand it, and so does the fallback die.
pub proof fn lemma_created_dice_positive(toks: Seq<Seq<char>>)
    ensures
        forall|i: int|
            0 <= i < spec_create_dice(toks).len() ==> spec_create_dice(toks)[i].sides >= 1
                && spec_create_dice(toks)[i].count >= 1,
{
    lemma_dice_list_positive(toks);
}

proof fn lemma_dice_list_positive(toks: Seq<Seq<char>>)
    ensures
        forall|i: int|
            0 <= i < spec_dice_list(toks).len() ==> spec_dice_list(toks)[i].sides >= 1
                && spec_dice_list(toks)[i].count >= 1,
    decreases toks.len(),
{
    if toks.len() > 0 {
        lemma_dice_list_positive(toks.drop_first());
        match spec_dice(toks[0]) {
            Option::Some(d) => {
                assert(d.sides >= 1 && d.count >= 1);
                assert forall|i: int|
                    0 <= i < spec_dice_list(toks).len() implies spec_dice_list(toks)[i].sides >= 1
                    && spec_dice_list(toks)[i].count >= 1 by {
                    if i > 0 {
                        assert(spec_dice_list(toks)[i] == spec_dice_list(toks.drop_first())[i - 1]);
                    }
                }
            },
            Option::None => {},
        }
    }
}

} // verus!
