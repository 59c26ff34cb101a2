//! The watcher: the bot's state and its event/command dispatch. Every event
//! handler is a pure decision from state and event to the next state and the
//! outgoing protocol actions; performing the actions is the surrounding
//! program's job.

use crate::config::{ChannelModel, Config, ServerChannel, User};
use crate::greetings::{self, Greeting};
use crate::messages::OutgoingMessage;
use crate::notifications::{
    NotificationFailure, NotificationResult, NotificationService, NotificationSink,
};
use crate::text;
use crate::throttle::ThrottleWindow;
use vstd::prelude::*;

verus! {

/// The watcher's state as the specifications see it.
pub struct WatcherModel {
    pub admins: Seq<Seq<char>>,
    pub nick: Seq<char>,
    pub username: Seq<char>,
    pub realname: Seq<char>,
    pub channels: Seq<ChannelModel>,
    pub greetings: Seq<Greeting>,
    pub watch: Seq<Seq<char>>,
    pub sent: Seq<(Seq<char>, u64)>,
    pub frequency: u64,
    pub window: ThrottleWindow,
    pub recipient: Seq<char>,
    pub log_path: Option<Seq<char>>,
    pub debug: bool,
}

/// The configuration entry for a channel name, if the watcher knows it
/// (first entry wins on a duplicated name).
pub open spec fn spec_chan_lookup(chs: Seq<ChannelModel>, name: Seq<char>) -> Option<ChannelModel>
    decreases chs.len(),
{
    if chs.len() == 0 {
        Option::None
    } else if chs[0].name == name {
        Option::Some(chs[0])
    } else {
        spec_chan_lookup(chs.drop_first(), name)
    }
}

/// The channel list with the first entry of the given name removed.
pub open spec fn spec_remove_chan(chs: Seq<ChannelModel>, name: Seq<char>) -> Seq<ChannelModel>
    decreases chs.len(),
{
    if chs.len() == 0 {
        chs
    } else if chs[0].name == name {
        chs.drop_first()
    } else {
        seq![chs[0]] + spec_remove_chan(chs.drop_first(), name)
    }
}

/// Whether a name is flagged as an admin channel.
pub open spec fn spec_admin_channel(m: WatcherModel, channel: Seq<char>) -> bool {
    spec_chan_lookup(m.channels, channel) matches Option::Some(c) && c.admin
}

/// Holds the bot's identity and policy state, receives protocol events, and
/// decides whether to greet, notify or act, consulting the notification
/// gateway and the greeting rules.
pub struct Watcher<T: NotificationSink> {
    admin: Vec<String>,
    identity: User,
    channels: Vec<ServerChannel>,
    greetings: Vec<Greeting>,
    watch_list: Vec<String>,
    messaging: NotificationService<T>,
    log_path: Option<String>,
    debug: bool,
}

impl<T: NotificationSink> Watcher<T> {
    pub closed spec fn model(self) -> WatcherModel {
        WatcherModel {
            admins: self.admin@.map_values(|s: String| s@),
            nick: self.identity.nick@,
            username: self.identity.user@,
            realname: self.identity.real@,
            channels: self.channels@.map_values(|c: ServerChannel| c@),
            greetings: self.greetings@,
            watch: self.watch_list@.map_values(|s: String| s@),
            sent: self.messaging.entries(),
            frequency: self.messaging.spec_frequency(),
            window: self.messaging.spec_window(),
            recipient: self.messaging.spec_recipient(),
            log_path: match self.log_path {
                Option::None => Option::None,
                Option::Some(ref p) => Option::Some(p@),
            },
            debug: self.debug,
        }
    }

    pub open spec fn wf(self) -> bool {
        crate::notifications::spec_keys_distinct(self.model().sent)
    }

    /// Builds the watcher from loaded configuration and the sink the
    /// notification gateway forwards to.
    pub fn from_config(config: &Config, sink: T) -> (w: Watcher<T>)
        ensures
            w.wf(),
            w.model() == (WatcherModel {
                admins: config.bot.admin@.map_values(|s: String| s@),
                nick: config.user.nick@,
                username: config.user.user@,
                realname: config.user.real@,
                channels: config.server.channels@.map_values(|c: ServerChannel| c@),
                greetings: config.server.greetings@,
                watch: config.bot.watch_list@.map_values(|s: String| s@),
                sent: Seq::<(Seq<char>, u64)>::empty(),
                frequency: config.bot.message_frequency,
                window: ThrottleWindow {
                    period: crate::notifications::DEFAULT_WINDOW_PERIOD,
                    max_count: crate::notifications::DEFAULT_WINDOW_MAX,
                },
                recipient: config.twilio.recipient@,
                log_path: match config.logging {
                    Option::None => Option::<Seq<char>>::None,
                    Option::Some(ref l) => Option::Some(l.path@),
                },
                debug: false,
            }),
    {
        let w = Watcher {
            admin: crate::config::clone_strings(&config.bot.admin),
            identity: config.user.clone(),
            channels: crate::config::clone_channels(&config.server.channels),
            greetings: greetings::clone_greetings(&config.server.greetings),
            watch_list: crate::config::clone_strings(&config.bot.watch_list),
            messaging: NotificationService::new(
                sink,
                config.twilio.recipient.clone(),
                config.bot.message_frequency,
            ),
            log_path: match &config.logging {
                Option::None => Option::None,
                Option::Some(l) => Option::Some(l.path.clone()),
            },
            debug: false,
        };
        w
    }

    /// Whether a nick is a recognized administrator.
    pub fn is_admin(&self, nick: &str) -> (r: bool)
        ensures
            r == self.model().admins.contains(nick@),
    {
        contains_name(&self.admin, nick)
    }

    /// Whether a nick is on the watch list.
    pub fn watching(&self, nick: &str) -> (r: bool)
        ensures
            r == self.model().watch.contains(nick@),
    {
        contains_name(&self.watch_list, nick)
    }

    fn find_channel(&self, name: &str) -> (r: Option<usize>)
        ensures
            r matches Some(i) ==> i < self.model().channels.len() && self.model().channels[
                i as int
            ].name == name@ && (forall|j: int|
                0 <= j < i ==> self.model().channels[j].name != name@),
            r is None ==> forall|j: int|
                0 <= j < self.model().channels.len() ==> self.model().channels[j].name != name@,
    {
        let mut i: usize = 0;
        while i < self.channels.len()
            invariant
                i <= self.channels@.len(),
                forall|j: int| 0 <= j < i ==> self.model().channels[j].name != name@,
            decreases self.channels@.len() - i,
        {
            if text::str_eq(self.channels[i].name.as_str(), name) {
                return Some(i);
            }
            i = i + 1;
        }
        None
    }

    /// Whether the named channel is configured with elevated behaviour.
    pub fn admin_channel(&self, channel: &str) -> (r: bool)
        ensures
            r == spec_admin_channel(self.model(), channel@),
    {
        match self.find_channel(channel) {
            None => {
                proof {
                    lemma_chan_lookup_absent(self.model().channels, channel@);
                }
                false
            },
            Some(i) => {
                proof {
                    lemma_chan_lookup_found(self.model().channels, channel@, i as int);
                }
                self.channels[i].admin
            },
        }
    }

    /// Whether the watcher knows a channel of this name at all.
    pub fn knows_channel(&self, channel: &str) -> (r: bool)
        ensures
            r == (spec_chan_lookup(self.model().channels, channel@) is Some),
    {
        match self.find_channel(channel) {
            None => {
                proof {
                    lemma_chan_lookup_absent(self.model().channels, channel@);
                }
                false
            },
            Some(i) => {
                proof {
                    lemma_chan_lookup_found(self.model().channels, channel@, i as int);
                }
                true
            },
        }
    }

    /// Whether chat logging is configured at all.
    pub fn logging(&self) -> (r: bool)
        ensures
            r == (self.model().log_path is Some),
    {
        match &self.log_path {
            Option::None => false,
            Option::Some(_) => true,
        }
    }

    /// Whether a message in the named channel should be written to the log:
    /// a log path is configured and the channel's log flag is on.
    pub fn should_log(&self, channel: &str) -> (r: bool)
        ensures
            r == (self.model().log_path is Some && (spec_chan_lookup(
                self.model().channels,
                channel@,
            ) matches Option::Some(c) && c.log_chat)),
    {
        if !self.logging() {
            return false;
        }
        match self.find_channel(channel) {
            None => {
                proof {
                    lemma_chan_lookup_absent(self.model().channels, channel@);
                }
                false
            },
            Some(i) => {
                proof {
                    lemma_chan_lookup_found(self.model().channels, channel@, i as int);
                }
                self.channels[i].log_chat
            },
        }
    }

    /// The bot's current nick.
    pub fn nick(&self) -> (r: &String)
        ensures
            r@ == self.model().nick,
    {
        &self.identity.nick
    }

    /// Whether debug echoing is on.
    pub fn debug(&self) -> (r: bool)
        ensures
            r == self.model().debug,
    {
        self.debug
    }

    /// The recorded notification history, for display.
    pub fn sent_records(&self) -> (r: &Vec<(String, u64)>)
        ensures
            r@.map_values(|e: (String, u64)| (e.0@, e.1)) == self.model().sent,
    {
        self.messaging.sent()
    }

    /// The composed greeting for a joining participant: the rendered messages
    /// of every rule the chain yields, joined by single spaces; nothing when
    /// no rule matches.
    pub fn greet_user(&self, user: &str) -> (r: Option<String>)
        ensures
            r matches Some(t) ==> greetings::spec_chain(self.model().greetings, user@).len() > 0
                && t@ == spec_greeting_text(self.model().greetings, user@),
            r is None ==> greetings::spec_chain(self.model().greetings, user@).len() == 0,
    {
        let ghost full = greetings::spec_chain(self.greetings@, user@);
        let mut out = String::new();
        let ghost mut yielded = Seq::<Greeting>::empty();
        let mut any = false;
        let mut keep = true;
        let mut i: usize = 0;
        proof {
            assert(self.greetings@.skip(0) =~= self.greetings@);
            assert(yielded + full =~= full);
        }
        while keep && i < self.greetings.len()
            invariant
                i <= self.greetings@.len(),
                full == greetings::spec_chain(self.greetings@, user@),
                keep ==> full == yielded + greetings::spec_chain(
                    self.greetings@.skip(i as int),
                    user@,
                ),
                !keep ==> full == yielded,
                out@ == spec_joined(yielded, user@),
                any == (yielded.len() > 0),
            decreases self.greetings@.len() - i,
        {
            let ghost rest = self.greetings@.skip(i as int);
            proof {
                assert(rest[0] == self.greetings@[i as int]);
                assert(rest.drop_first() =~= self.greetings@.skip(i + 1));
            }
            let g = &self.greetings[i];
            if g.is_valid(user) {
                let msg = g.message(user);
                if any {
                    text::push_char(&mut out, ' ');
                }
                out.append(msg.as_str());
                any = true;
                keep = g.passthru;
                proof {
                    assert(yielded.push(*g).drop_last() =~= yielded);
                    assert(yielded.push(*g).last() == *g);
                    if keep {
                        assert(yielded.push(*g) + greetings::spec_chain(
                            self.greetings@.skip(i + 1),
                            user@,
                        ) =~= yielded + (seq![*g] + greetings::spec_chain(
                            self.greetings@.skip(i + 1),
                            user@,
                        )));
                    } else {
                        assert(yielded.push(*g) =~= yielded + seq![*g]);
                    }
                    yielded = yielded.push(*g);
                }
                i = i + 1;
            } else {
                i = i + 1;
            }
        }
        proof {
            if keep {
                assert(self.greetings@.skip(self.greetings@.len() as int) =~= Seq::<
                    Greeting,
                >::empty());
                assert(yielded + Seq::<Greeting>::empty() =~= yielded);
            }
        }
        if any {
            Some(out)
        } else {
            None
        }
    }
}

/// The joined greeting text of the yielded rules, separated by single spaces.
pub open spec fn spec_joined(gs: Seq<Greeting>, user: Seq<char>) -> Seq<char>
    decreases gs.len(),
{
    if gs.len() == 0 {
        Seq::empty()
    } else if gs.len() == 1 {
        greetings::spec_message(gs[0], user)
    } else {
        spec_joined(gs.drop_last(), user) + seq![' '] + greetings::spec_message(gs.last(), user)
    }
}

/// The full composed greeting for a participant.
pub open spec fn spec_greeting_text(rules: Seq<Greeting>, user: Seq<char>) -> Seq<char> {
    spec_joined(greetings::spec_chain(rules, user), user)
}

/// Whether a name list contains a name.
fn contains_name(v: &Vec<String>, name: &str) -> (r: bool)
    ensures
        r == v@.map_values(|s: String| s@).contains(name@),
{
    let ghost names = v@.map_values(|s: String| s@);
    let mut i: usize = 0;
    while i < v.len()
        invariant
            i <= v@.len(),
            names == v@.map_values(|s: String| s@),
            forall|j: int| 0 <= j < i ==> names[j] != name@,
        decreases v@.len() - i,
    {
        if text::str_eq(v[i].as_str(), name) {
            proof {
                assert(names[i as int] == name@);
            }
            return true;
        }
        i = i + 1;
    }
    proof {
        assert(!names.contains(name@));
    }
    false
}

proof fn lemma_chan_lookup_found(chs: Seq<ChannelModel>, name: Seq<char>, i: int)
    requires
        0 <= i < chs.len(),
        chs[i].name == name,
        forall|j: int| 0 <= j < i ==> chs[j].name != name,
    ensures
        spec_chan_lookup(chs, name) == Option::Some(chs[i]),
    decreases i,
{
    if i > 0 {
        lemma_chan_lookup_found(chs.drop_first(), name, i - 1);
    }
}

proof fn lemma_chan_lookup_absent(chs: Seq<ChannelModel>, name: Seq<char>)
    requires
        forall|j: int| 0 <= j < chs.len() ==> chs[j].name != name,
    ensures
        spec_chan_lookup(chs, name) is None,
    decreases chs.len(),
{
    if chs.len() > 0 {
        lemma_chan_lookup_absent(chs.drop_first(), name);
    }
}

/// What an administrative command does to the watcher's state: nothing at
/// all unless the sender is a recognized administrator; unauthorized and
/// unknown commands are silently dropped.
pub open spec fn spec_apply_command(m: WatcherModel, sender: Seq<char>, line: Seq<char>) -> WatcherModel {
    match crate::command::spec_parse(line) {
        Option::None => m,
        Option::Some(cmd) => match cmd {
            crate::command::CommandModel::SetNick(n) => if m.admins.contains(sender) {
                (WatcherModel { nick: n, ..m })
            } else {
                m
            },
            crate::command::CommandModel::SetDebug(b) => if m.admins.contains(sender) {
                (WatcherModel { debug: b, ..m })
            } else {
                m
            },
            crate::command::CommandModel::JoinChannel(c) => if m.admins.contains(sender)
                && spec_chan_lookup(m.channels, c) is None {
                (WatcherModel {
                    channels: m.channels.push(
                        ChannelModel {
                            name: c,
                            topic: Option::None,
                            admin: false,
                            log_chat: true,
                        },
                    ),
                    ..m
                })
            } else {
                m
            },
            crate::command::CommandModel::LeaveChannel(c) => if m.admins.contains(sender)
                && spec_chan_lookup(m.channels, c) is Some {
                (WatcherModel { channels: spec_remove_chan(m.channels, c), ..m })
            } else {
                m
            },
            _ => m,
        },
    }
}

/// The private acknowledgement of a debug toggle.
pub open spec fn spec_debug_text(enabled: bool) -> Seq<char> {
    if enabled {
        "debug mode set to true"@
    } else {
        "debug mode set to false"@
    }
}

/// What the dispatch outcome of a command line must look like, given the
/// state the command arrived in.
pub open spec fn spec_dispatch_ok(
    m: WatcherModel,
    sender: Seq<char>,
    channel: Seq<char>,
    line: Seq<char>,
    d: crate::messages::Dispatch,
) -> bool {
    match crate::command::spec_parse(line) {
        Option::None => d is Silent,
        Option::Some(cmd) => match cmd {
            crate::command::CommandModel::Chuck => d is FetchChuck,
            crate::command::CommandModel::Cookie => d is FetchCookie,
            crate::command::CommandModel::Quote(c) => d matches
                crate::messages::Dispatch::FetchQuote(cat) && crate::messages::spec_opt_view(cat)
                == c,
            crate::command::CommandModel::Roll(dice) => d matches crate::messages::Dispatch::Reply(
                OutgoingMessage::ChannelMessage { channel: ch, content },
            ) && ch@ == channel && crate::commands::spec_roll_reply(sender, dice, content@),
            crate::command::CommandModel::SetNick(n) => if m.admins.contains(sender) {
                d matches crate::messages::Dispatch::Reply(OutgoingMessage::Nick(s)) && s@ == n
            } else {
                d is Silent
            },
            crate::command::CommandModel::SetDebug(b) => if m.admins.contains(sender) {
                d matches crate::messages::Dispatch::Reply(
                    OutgoingMessage::PrivateMessage { recipient, content },
                ) && recipient@ == sender && content@ == spec_debug_text(b)
            } else {
                d is Silent
            },
            crate::command::CommandModel::JoinChannel(c) => if m.admins.contains(sender)
                && spec_chan_lookup(m.channels, c) is None {
                d matches crate::messages::Dispatch::Reply(OutgoingMessage::Join(s)) && s@ == c
            } else {
                d is Silent
            },
            crate::command::CommandModel::LeaveChannel(c) => if m.admins.contains(sender)
                && spec_chan_lookup(m.channels, c) is Some {
                d matches crate::messages::Dispatch::Reply(OutgoingMessage::Part(s)) && s@ == c
            } else {
                d is Silent
            },
            crate::command::CommandModel::SetTopic(t) => if m.admins.contains(sender) {
                d matches crate::messages::Dispatch::Reply(
                    OutgoingMessage::Topic { channel: ch, topic },
                ) && ch@ == channel && topic@ == t
            } else {
                d is Silent
            },
            crate::command::CommandModel::SetGreeting(_) => d is Silent,
            crate::command::CommandModel::ListMessages => d is ShowSent,
            crate::command::CommandModel::Kill => d is Silent,
        },
    }
}

/// Changes the bot's nick, for administrators; otherwise a silent no-op.
pub fn set_nick<T: NotificationSink>(watcher: &mut Watcher<T>, sender: &str, nick: String) -> (r:
    Option<OutgoingMessage>)
    ensures
        old(watcher).model().admins.contains(sender@) ==> final(watcher).model() == (WatcherModel {
            nick: nick@,
            ..old(watcher).model()
        }) && (r matches Some(OutgoingMessage::Nick(s)) && s@ == nick@),
        !old(watcher).model().admins.contains(sender@) ==> final(watcher).model() == old(
            watcher,
        ).model() && r is None,
{
    if watcher.is_admin(sender) {
        watcher.identity.nick = nick.clone();
        Some(OutgoingMessage::Nick(nick))
    } else {
        None
    }
}

/// Toggles debug echoing, for administrators; otherwise a silent no-op.
pub fn set_debug<T: NotificationSink>(watcher: &mut Watcher<T>, sender: &str, enabled: bool) -> (r:
    Option<OutgoingMessage>)
    ensures
        old(watcher).model().admins.contains(sender@) ==> final(watcher).model() == (WatcherModel {
            debug: enabled,
            ..old(watcher).model()
        }) && (r matches Some(OutgoingMessage::PrivateMessage { recipient, content })
            && recipient@ == sender@ && content@ == spec_debug_text(enabled)),
        !old(watcher).model().admins.contains(sender@) ==> final(watcher).model() == old(
            watcher,
        ).model() && r is None,
{
    if watcher.is_admin(sender) {
        watcher.debug = enabled;
        let content = if enabled {
            "debug mode set to true".to_owned()
        } else {
            "debug mode set to false".to_owned()
        };
        Some(OutgoingMessage::PrivateMessage { recipient: sender.to_owned(), content })
    } else {
        None
    }
}

/// Proposes a topic change, for administrators; the watcher stores no topic
/// itself.
pub fn set_topic<T: NotificationSink>(
    watcher: &Watcher<T>,
    sender: &str,
    channel: &str,
    topic: String,
) -> (r: Option<OutgoingMessage>)
    ensures
        watcher.model().admins.contains(sender@) ==> (r matches Some(
            OutgoingMessage::Topic { channel: ch, topic: t },
        ) && ch@ == channel@ && t@ == topic@),
        !watcher.model().admins.contains(sender@) ==> r is None,
{
    if watcher.is_admin(sender) {
        Some(OutgoingMessage::Topic { channel: channel.to_owned(), topic })
    } else {
        None
    }
}

/// Adds a channel to the watcher's list and asks to join it, for
/// administrators and only when the channel is new.
pub fn join_channel<T: NotificationSink>(
    watcher: &mut Watcher<T>,
    sender: &str,
    channel: String,
) -> (r: Option<OutgoingMessage>)
    ensures
        old(watcher).model().admins.contains(sender@) && spec_chan_lookup(
            old(watcher).model().channels,
            channel@,
        ) is None ==> final(watcher).model() == (WatcherModel {
            channels: old(watcher).model().channels.push(
                ChannelModel {
                    name: channel@,
                    topic: Option::None,
                    admin: false,
                    log_chat: true,
                },
            ),
            ..old(watcher).model()
        }) && (r matches Some(OutgoingMessage::Join(s)) && s@ == channel@),
        !(old(watcher).model().admins.contains(sender@) && spec_chan_lookup(
            old(watcher).model().channels,
            channel@,
        ) is None) ==> final(watcher).model() == old(watcher).model() && r is None,
{
    if !watcher.is_admin(sender) {
        return None;
    }
    match watcher.find_channel(channel.as_str()) {
        Some(i) => {
            proof {
                lemma_chan_lookup_found(watcher.model().channels, channel@, i as int);
            }
            None
        },
        None => {
            proof {
                lemma_chan_lookup_absent(watcher.model().channels, channel@);
            }
            let ghost prev = watcher.model().channels;
            watcher.channels.push(
                ServerChannel {
                    name: channel.clone(),
                    topic: Option::None,
                    admin: false,
                    log_chat: true,
                },
            );
            proof {
                assert(watcher.model().channels =~= prev.push(
                    ChannelModel {
                        name: channel@,
                        topic: Option::None,
                        admin: false,
                        log_chat: true,
                    },
                ));
            }
            Some(OutgoingMessage::Join(channel))
        },
    }
}

/// Removes a known channel from the watcher's list and asks to leave it, for
/// administrators.
pub fn leave_channel<T: NotificationSink>(
    watcher: &mut Watcher<T>,
    sender: &str,
    channel: String,
) -> (r: Option<OutgoingMessage>)
    ensures
        old(watcher).model().admins.contains(sender@) && spec_chan_lookup(
            old(watcher).model().channels,
            channel@,
        ) is Some ==> final(watcher).model() == (WatcherModel {
            channels: spec_remove_chan(old(watcher).model().channels, channel@),
            ..old(watcher).model()
        }) && (r matches Some(OutgoingMessage::Part(s)) && s@ == channel@),
        !(old(watcher).model().admins.contains(sender@) && spec_chan_lookup(
            old(watcher).model().channels,
            channel@,
        ) is Some) ==> final(watcher).model() == old(watcher).model() && r is None,
{
    if !watcher.is_admin(sender) {
        return None;
    }
    match watcher.find_channel(channel.as_str()) {
        None => {
            proof {
                lemma_chan_lookup_absent(watcher.model().channels, channel@);
            }
            None
        },
        Some(i) => {
            proof {
                lemma_chan_lookup_found(watcher.model().channels, channel@, i as int);
                lemma_remove_chan_at(watcher.model().channels, channel@, i as int);
            }
            let ghost prev = watcher.model().channels;
            watcher.channels.remove(i);
            proof {
                assert(watcher.model().channels =~= prev.remove(i as int));
            }
            Some(OutgoingMessage::Part(channel))
        },
    }
}

impl<T: NotificationSink> Watcher<T> {
    /// Parses a line and dispatches the command: content commands become
    /// fetch requests, the dice roll is answered at once, administrative
    /// commands check the sender and mutate the state, and everything
    /// unknown or unauthorized is silently dropped.
    pub fn handle_command(&mut self, sender: &str, channel: &str, line: &str) -> (d:
        crate::messages::Dispatch)
        requires
            old(self).wf(),
        ensures
            final(self).wf(),
            final(self).model() == spec_apply_command(old(self).model(), sender@, line@),
            spec_dispatch_ok(old(self).model(), sender@, channel@, line@, d),
    {
        match crate::command::Command::from_str(line) {
            None => crate::messages::Dispatch::Silent,
            Some(cmd) => match cmd {
                crate::command::Command::Chuck => crate::messages::Dispatch::FetchChuck,
                crate::command::Command::Cookie => crate::messages::Dispatch::FetchCookie,
                crate::command::Command::Quote(c) => crate::messages::Dispatch::FetchQuote(c),
                crate::command::Command::Roll(dice) => {
                    proof {
                        crate::command::lemma_created_dice_positive(
                            crate::text::spec_tokens(line@).skip(1),
                        );
                    }
                    crate::messages::Dispatch::Reply(crate::commands::roll(channel, sender, &dice))
                },
                crate::command::Command::SetNick(n) => match set_nick(self, sender, n) {
                    Some(m) => crate::messages::Dispatch::Reply(m),
                    None => crate::messages::Dispatch::Silent,
                },
                crate::command::Command::SetDebug(b) => match set_debug(self, sender, b) {
                    Some(m) => crate::messages::Dispatch::Reply(m),
                    None => crate::messages::Dispatch::Silent,
                },
                crate::command::Command::JoinChannel(c) => match join_channel(self, sender, c) {
                    Some(m) => crate::messages::Dispatch::Reply(m),
                    None => crate::messages::Dispatch::Silent,
                },
                crate::command::Command::LeaveChannel(c) => match leave_channel(self, sender, c) {
                    Some(m) => crate::messages::Dispatch::Reply(m),
                    None => crate::messages::Dispatch::Silent,
                },
                crate::command::Command::SetTopic(t) => match set_topic(self, sender, channel, t) {
                    Some(m) => crate::messages::Dispatch::Reply(m),
                    None => crate::messages::Dispatch::Silent,
                },
                crate::command::Command::SetGreeting(_) => crate::messages::Dispatch::Silent,
                crate::command::Command::ListMessages => crate::messages::Dispatch::ShowSent,
                crate::command::Command::Kill => crate::messages::Dispatch::Silent,
            },
        }
    }
}

/// The raw protocol line that grants operator privileges.
pub open spec fn spec_mode_line(channel: Seq<char>, nick: Seq<char>) -> Seq<char> {
    "MODE "@ + channel + " +o "@ + nick
}

/// Whether a message line is a command for the dispatcher: it starts with
/// the command marker.
pub open spec fn spec_is_command_line(s: Seq<char>) -> bool {
    s.len() > 0 && s[0] == '.'
}

/// What the notification gateway's outcome for a subject can be, given the
/// state the attempt arrived in: the two gating failures are exactly
/// determined; success, or a transport failure with its description, can
/// come only when both gates were open.
pub open spec fn spec_notify_outcome(
    m: WatcherModel,
    nick: Seq<char>,
    now: u64,
    r: NotificationResult,
) -> bool {
    let throttled = !m.window.spec_can_send(crate::notifications::spec_times(m.sent), now);
    let cooling = crate::notifications::spec_lookup(m.sent, nick) matches Option::Some(last)
        && now < last + m.frequency;
    &&& (r matches Err(NotificationFailure::Throttled)) == throttled
    &&& (r matches Err(NotificationFailure::RecentlyNotified)) == (!throttled && cooling)
    &&& (r is Ok ==> !throttled && !cooling)
}

/// What the actions of a welcome must look like: for every configured
/// channel, in order, a join request, followed by a topic request exactly for
/// an admin channel with a configured topic.
pub open spec fn spec_welcome_match(chs: Seq<ChannelModel>, acts: Seq<OutgoingMessage>) -> bool
    decreases chs.len(),
{
    if chs.len() == 0 {
        acts.len() == 0
    } else {
        let c = chs.last();
        if c.admin && c.topic is Some {
            &&& acts.len() >= 2
            &&& spec_welcome_match(chs.drop_last(), acts.take(acts.len() - 2))
            &&& acts[acts.len() - 2] matches OutgoingMessage::Join(n) && n@ == c.name
            &&& acts.last() matches OutgoingMessage::Topic { channel, topic } && channel@ == c.name
                && Option::Some(topic@) == c.topic
        } else {
            &&& acts.len() >= 1
            &&& spec_welcome_match(chs.drop_last(), acts.take(acts.len() - 1))
            &&& acts.last() matches OutgoingMessage::Join(n) && n@ == c.name
        }
    }
}

impl<T: NotificationSink> Watcher<T> {
    /// A participant joined a channel. The bot never reacts to itself; an
    /// administrator joining an admin channel is granted operator
    /// privileges; a join of an admin channel or by a watched participant is
    /// reported to the notification gateway (the second component is that
    /// report's outcome, for debug logging); and a join of an admin channel
    /// runs the greeting chain.
    pub fn user_join(&mut self, channel: &str, nick: &str, now: u64) -> (r: (
        Vec<OutgoingMessage>,
        Option<NotificationResult>,
    ))
        requires
            old(self).wf(),
        ensures
            final(self).wf(),
            final(self).model() == (WatcherModel {
                sent: final(self).model().sent,
                ..old(self).model()
            }),
            nick@ == old(self).model().nick ==> final(self).model() == old(self).model()
                && r.0@.len() == 0 && r.1 is None,
            nick@ != old(self).model().nick ==> ({
                let m0 = old(self).model();
                let acts = r.0@;
                let admin_ch = spec_admin_channel(m0, channel@);
                let notify = admin_ch || m0.watch.contains(nick@);
                let op = admin_ch && m0.admins.contains(nick@);
                let greet = admin_ch && greetings::spec_chain(m0.greetings, nick@).len() > 0;
                &&& final(self).model().sent == if notify {
                    crate::notifications::spec_step(m0.window, m0.frequency, m0.sent, nick@, now)
                } else {
                    m0.sent
                }
                &&& (r.1 is Some) == notify
                &&& (r.1 matches Some(res) ==> spec_notify_outcome(m0, nick@, now, res))
                &&& acts.len() == (if op {
                    1int
                } else {
                    0int
                }) + (if greet {
                    1int
                } else {
                    0int
                })
                &&& (op ==> (acts[0] matches OutgoingMessage::Raw(s) && s@ == spec_mode_line(
                    channel@,
                    nick@,
                )))
                &&& (greet ==> (acts[acts.len() - 1] matches OutgoingMessage::ChannelMessage {
                    channel: ch,
                    content,
                } && ch@ == channel@ && content@ == spec_greeting_text(m0.greetings, nick@)))
            }),
    {
        let mut acts: Vec<OutgoingMessage> = Vec::new();
        if text::str_eq(nick, self.identity.nick.as_str()) {
            return (acts, None);
        }
        let admin_ch = self.admin_channel(channel);
        if admin_ch && self.is_admin(nick) {
            let mut line = "MODE ".to_owned();
            line.append(channel);
            line.append(" +o ");
            line.append(nick);
            proof {
                assert(line@ =~= spec_mode_line(channel@, nick@));
            }
            acts.push(OutgoingMessage::Raw(line));
        }
        let note = if admin_ch || self.watching(nick) {
            Some(self.messaging.notify_channel(nick, channel, now))
        } else {
            None
        };
        if admin_ch {
            match self.greet_user(nick) {
                Some(text) => {
                    acts.push(
                        OutgoingMessage::ChannelMessage {
                            channel: channel.to_owned(),
                            content: text,
                        },
                    );
                },
                None => {},
            }
        }
        (acts, note)
    }

    /// A private message arrived. A disallowed service identity is ignored
    /// entirely; a line starting with the command marker is dispatched with
    /// the sender as both channel and nick context, anything else gets the
    /// away auto-reply; in both of the latter cases the notification gateway
    /// is told about the message (the second component is that report's
    /// outcome, for debug logging).
    pub fn private_message(&mut self, sender: &str, content: &str, now: u64) -> (r: (
        crate::messages::Dispatch,
        Option<NotificationResult>,
    ))
        requires
            old(self).wf(),
        ensures
            final(self).wf(),
            sender@ == "StatServ"@ ==> final(self).model() == old(self).model() && r.0 is Silent
                && r.1 is None,
            sender@ != "StatServ"@ ==> (r.1 matches Some(res) ==> spec_notify_outcome(
                old(self).model(),
                sender@,
                now,
                res,
            )) && r.1 is Some,
            sender@ != "StatServ"@ && spec_is_command_line(content@) ==> ({
                let m1 = spec_apply_command(old(self).model(), sender@, content@);
                &&& final(self).model() == (WatcherModel {
                    sent: crate::notifications::spec_step(
                        m1.window,
                        m1.frequency,
                        m1.sent,
                        sender@,
                        now,
                    ),
                    ..m1
                })
                &&& spec_dispatch_ok(old(self).model(), sender@, sender@, content@, r.0)
            }),
            sender@ != "StatServ"@ && !spec_is_command_line(content@) ==> ({
                let m0 = old(self).model();
                &&& final(self).model() == (WatcherModel {
                    sent: crate::notifications::spec_step(
                        m0.window,
                        m0.frequency,
                        m0.sent,
                        sender@,
                        now,
                    ),
                    ..m0
                })
                &&& (r.0 matches crate::messages::Dispatch::Reply(
                    OutgoingMessage::PrivateMessage { recipient, content: c },
                ) && recipient@ == sender@ && c@ == "AFK"@)
            }),
    {
        if text::str_eq(sender, "StatServ") {
            return (crate::messages::Dispatch::Silent, None);
        }
        let is_command = content.unicode_len() > 0 && content.get_char(0) == '.';
        if is_command {
            let d = self.handle_command(sender, sender, content);
            let note = self.messaging.notify_pm(sender, content, now);
            (d, Some(note))
        } else {
            let note = self.messaging.notify_pm(sender, content, now);
            let d = crate::messages::Dispatch::Reply(
                OutgoingMessage::PrivateMessage {
                    recipient: sender.to_owned(),
                    content: "AFK".to_owned(),
                },
            );
            (d, Some(note))
        }
    }

    /// A channel message arrived: a line starting with the command marker is
    /// tokenized and dispatched, everything else is chat (logged by the
    /// caller when `should_log` says so).
    pub fn channel_message(&mut self, sender: &str, channel: &str, content: &str) -> (d:
        crate::messages::Dispatch)
        requires
            old(self).wf(),
        ensures
            final(self).wf(),
            spec_is_command_line(content@) ==> final(self).model() == spec_apply_command(
                old(self).model(),
                sender@,
                content@,
            ) && spec_dispatch_ok(old(self).model(), sender@, channel@, content@, d),
            !spec_is_command_line(content@) ==> final(self).model() == old(self).model()
                && d is Silent,
    {
        let is_command = content.unicode_len() > 0 && content.get_char(0) == '.';
        if is_command {
            self.handle_command(sender, channel, content)
        } else {
            crate::messages::Dispatch::Silent
        }
    }

    /// The actions on connecting: join every configured channel, and set the
    /// topic of each admin channel that has one.
    pub fn welcome(&self) -> (acts: Vec<OutgoingMessage>)
        ensures
            spec_welcome_match(self.model().channels, acts@),
    {
        let ghost chs = self.model().channels;
        let mut acts: Vec<OutgoingMessage> = Vec::new();
        let mut i: usize = 0;
        while i < self.channels.len()
            invariant
                i <= self.channels@.len(),
                chs == self.model().channels,
                spec_welcome_match(chs.take(i as int), acts@),
            decreases self.channels@.len() - i,
        {
            let c = &self.channels[i];
            proof {
                assert(chs.take(i + 1).drop_last() =~= chs.take(i as int));
                assert(chs.take(i + 1).last() == chs[i as int]);
            }
            let ghost prev = acts@;
            acts.push(OutgoingMessage::Join(c.name.clone()));
            let mut pushed_topic = false;
            if c.admin {
                match &c.topic {
                    Option::Some(t) => {
                        acts.push(
                            OutgoingMessage::Topic { channel: c.name.clone(), topic: t.clone() },
                        );
                        pushed_topic = true;
                    },
                    Option::None => {},
                }
            }
            proof {
                if pushed_topic {
                    assert(acts@.take(acts@.len() - 2) =~= prev);
                } else {
                    assert(acts@.take(acts@.len() - 1) =~= prev);
                }
            }
            i = i + 1;
        }
        proof {
            assert(chs.take(chs.len() as int) =~= chs);
        }
        acts
    }
}

proof fn lemma_remove_chan_at(chs: Seq<ChannelModel>, name: Seq<char>, i: int)
    requires
        0 <= i < chs.len(),
        chs[i].name == name,
        forall|j: int| 0 <= j < i ==> chs[j].name != name,
    ensures
        spec_remove_chan(chs, name) == chs.remove(i),
    decreases i,
{
    if i == 0 {
        assert(chs.drop_first() =~= chs.remove(0));
    } else {
        lemma_remove_chan_at(chs.drop_first(), name, i - 1);
        assert(seq![chs[0]] + chs.drop_first().remove(i - 1) =~= chs.remove(i));
    }
}

} // verus!
