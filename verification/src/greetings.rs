//! Greeting rules and the lazy rule-chain that selects which greetings a
//! newly joined participant receives. Each rule carries an optional regular
//! expression filter over the participant's name, a message template with a
//! `{nick}` placeholder, and a passthrough flag: a matching rule yields its
//! message and, unless passthrough is set, stops the walk.

use crate::text;
use vstd::prelude::*;

verus! {

/// Whether `pattern` is a valid regular expression, i.e. whether
/// `regex::Regex::new` accepts it. A function of the pattern alone.
pub uninterp spec fn regex_valid(pattern: Seq<char>) -> bool;

/// Whether the regular expression `pattern` matches anywhere in `text`. A
/// function of pattern and text alone. Meaningful only for valid patterns.
pub uninterp spec fn regex_match(pattern: Seq<char>, text: Seq<char>) -> bool;

/// Relies on `regex::Regex::new`: whether it returns `Ok` is a function of
/// the pattern string alone.
#[verifier::external_body]
fn regex_pattern_valid(pattern: &str) -> (r: bool)
    ensures
        r == regex_valid(pattern@),
{
    regex::Regex::new(pattern).is_ok()
}

/// Relies on `regex::Regex::new` and `regex::Regex::is_match`: for a valid
/// pattern, whether the compiled expression matches anywhere in the text; an
/// invalid pattern matches nothing.
#[verifier::external_body]
fn regex_is_match(pattern: &str, text: &str) -> (r: bool)
    ensures
        r == (regex_valid(pattern@) && regex_match(pattern@, text@)),
{
    match regex::Regex::new(pattern) {
        Ok(re) => re.is_match(text),
        Err(_) => false,
    }
}

/// One greeting rule: an optional name filter, a passthrough flag, and a
/// message template containing a `{nick}` placeholder.
pub struct Greeting {
    pub passthru: bool,
    pub filter: Option<String>,
    pub message: String,
}

/// Whether a rule applies to a participant: no filter matches everyone; a
/// filter applies exactly when it is a valid pattern that matches the name.
pub open spec fn spec_applies(g: Greeting, nick: Seq<char>) -> bool {
    match g.filter {
        Option::None => true,
        Option::Some(p) => regex_valid(p@) && regex_match(p@, nick),
    }
}

/// The rendered message of a rule for a participant: the template with every
/// `{nick}` placeholder replaced by the name.
pub open spec fn spec_message(g: Greeting, nick: Seq<char>) -> Seq<char> {
    text::spec_replace(g.message@, "{nick}"@, nick)
}

impl Clone for Greeting {
    fn clone(&self) -> (r: Self)
        ensures
            r == *self,
    {
        Greeting {
            passthru: self.passthru,
            filter: match &self.filter {
                Option::None => Option::None,
                Option::Some(p) => Option::Some(p.clone()),
            },
            message: self.message.clone(),
        }
    }
}

/// An element-wise copy of a rule list.
pub fn clone_greetings(v: &Vec<Greeting>) -> (r: Vec<Greeting>)
    ensures
        r@ == v@,
{
    let mut r: Vec<Greeting> = Vec::new();
    let mut i: usize = 0;
    while i < v.len()
        invariant
            i <= v@.len(),
            r@ == v@.take(i as int),
        decreases v@.len() - i,
    {
        r.push(v[i].clone());
        proof {
            assert(v@.take(i as int).push(v@[i as int]) =~= v@.take(i + 1));
        }
        i = i + 1;
    }
    proof {
        assert(v@.take(v@.len() as int) =~= v@);
    }
    r
}

impl Greeting {
    pub fn new(passthru: bool, filter: Option<String>, message: String) -> (g: Greeting)
        ensures
            g.passthru == passthru,
            g.filter == filter,
            g.message == message,
    {
        Greeting { passthru, filter, message }
    }

    /// The rule's message with the `{nick}` placeholder substituted.
    pub fn message(&self, nick: &str) -> (r: String)
        ensures
            r@ == spec_message(*self, nick@),
    {
        text::replace(self.message.as_str(), "{nick}", nick)
    }

    /// Whether this rule's filter, if any, is a valid pattern; rules without
    /// a filter always are.
    pub fn filter_valid(&self) -> (r: bool)
        ensures
            r == (self.filter matches Option::Some(p) ==> regex_valid(p@)),
    {
        match &self.filter {
            Option::None => true,
            Option::Some(p) => regex_pattern_valid(p.as_str()),
        }
    }

    /// Whether this rule applies to the given participant name.
    pub fn is_valid(&self, nick: &str) -> (r: bool)
        ensures
            r == spec_applies(*self, nick@),
    {
        match &self.filter {
            Option::None => true,
            Option::Some(p) => regex_is_match(p.as_str(), nick),
        }
    }
}

/// The rules the chain yields for a participant, in declaration order: skip
/// rules that do not apply; yield an applying rule; stop after it unless its
/// passthrough flag is set.
pub open spec fn spec_chain(rules: Seq<Greeting>, nick: Seq<char>) -> Seq<Greeting>
    decreases rules.len(),
{
    if rules.len() == 0 {
        Seq::empty()
    } else if spec_applies(rules[0], nick) {
        if rules[0].passthru {
            seq![rules[0]] + spec_chain(rules.drop_first(), nick)
        } else {
            seq![rules[0]]
        }
    } else {
        spec_chain(rules.drop_first(), nick)
    }
}

/// A lazy cursor over the rules that apply to one participant. It owns its
/// snapshot of the rules and is not restartable: each applying rule is handed
/// out once, and a non-passthrough match ends the walk.
pub struct GreetingsForUser {
    pub user: String,
    pub greetings: Vec<Greeting>,
    pub idx: usize,
    pub take: bool,
}

impl GreetingsForUser {
    /// The rules this cursor will still yield.
    pub open spec fn spec_remaining(self) -> Seq<Greeting> {
        if self.take {
            spec_chain(self.greetings@.skip(self.idx as int), self.user@)
        } else {
            Seq::empty()
        }
    }

    pub open spec fn wf(self) -> bool {
        self.idx <= self.greetings@.len()
    }

    /// Yields the next applying rule, or `None` once the walk has ended.
    pub fn next(&mut self) -> (r: Option<Greeting>)
        requires
            old(self).wf(),
        ensures
            final(self).wf(),
            final(self).user == old(self).user,
            final(self).greetings == old(self).greetings,
            r matches Some(g) ==> old(self).spec_remaining() == seq![g]
                + final(self).spec_remaining(),
            r is None ==> old(self).spec_remaining() == Seq::<Greeting>::empty()
                && final(self).spec_remaining() == Seq::<Greeting>::empty(),
    {
        if !self.take {
            return None;
        }
        loop
            invariant
                self.wf(),
                self.take,
                self.user == old(self).user,
                self.greetings == old(self).greetings,
                old(self).spec_remaining() == spec_chain(
                    self.greetings@.skip(self.idx as int),
                    self.user@,
                ),
            decreases self.greetings@.len() - self.idx,
        {
            if self.idx >= self.greetings.len() {
                return None;
            }
            let ghost rest = self.greetings@.skip(self.idx as int);
            proof {
                assert(rest[0] == self.greetings@[self.idx as int]);
                assert(rest.drop_first() =~= self.greetings@.skip(self.idx + 1));
            }
            let g = self.greetings[self.idx].clone();
            self.idx = self.idx + 1;
            if g.is_valid(self.user.as_str()) {
                self.take = g.passthru;
                return Some(g);
            }
        }
    }
}

/// Whether every filter in a rule list is a valid regular expression.
pub open spec fn spec_filters_valid(rules: Seq<Greeting>) -> bool {
    forall|i: int|
        0 <= i < rules.len() ==> (#[trigger] rules[i].filter matches Option::Some(p)
            ==> regex_valid(p@))
}

/// The fail-fast startup check: every configured greeting filter must be a
/// valid pattern, or the configuration is rejected before the bot starts.
pub fn filters_valid(rules: &Vec<Greeting>) -> (r: bool)
    ensures
        r == spec_filters_valid(rules@),
{
    let mut i: usize = 0;
    while i < rules.len()
        invariant
            i <= rules@.len(),
            forall|j: int|
                0 <= j < i ==> (#[trigger] rules@[j].filter matches Option::Some(p)
                    ==> regex_valid(p@)),
        decreases rules@.len() - i,
    {
        if !rules[i].filter_valid() {
            return false;
        }
        i = i + 1;
    }
    true
}

/// The entry point of the rule-chain: an ordered rule list evaluated lazily
/// for one participant.
pub trait Greetings {
    /// The rule sequence this value holds, in declaration order.
    spec fn spec_rules(&self) -> Seq<Greeting>;

    fn for_user(&self, user: &str) -> (it: GreetingsForUser)
        ensures
            it.wf(),
            it.user@ == user@,
            it.spec_remaining() == spec_chain(self.spec_rules(), user@),
    ;
}

impl Greetings for Vec<Greeting> {
    open spec fn spec_rules(&self) -> Seq<Greeting> {
        self@
    }

    fn for_user(&self, user: &str) -> (it: GreetingsForUser)
    {
        let it = GreetingsForUser {
            user: user.to_owned(),
            greetings: clone_greetings(self),
            idx: 0,
            take: true,
        };
        proof {
            assert(it.greetings@.skip(0) =~= self@);
        }
        it
    }
}

} // verus!
