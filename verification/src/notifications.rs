//! The outbound notification gateway: decides, for every candidate event,
//! whether an external notification may be sent. Two independent gates are
//! evaluated in order: the global sliding-window throttle over all recorded
//! sends, then the per-subject cooldown. When both gates open, the send is
//! recorded before the sink is contacted, so a failed transport still spends
//! the subject's cooldown and a window slot.

use crate::throttle::ThrottleWindow;
use vstd::prelude::*;

verus! {

pub type NotificationResult = Result<(), NotificationFailure>;

/// Why a notification was not (or could not be) delivered.
#[derive(Debug)]
pub enum NotificationFailure {
    /// The per-subject cooldown is still active.
    RecentlyNotified,
    /// The global sliding window is full.
    Throttled,
    /// The sink reported a transport error, with its description.
    Failure(String),
}

/// The transport the gateway forwards admitted messages to. Implementations
/// live outside the library; nothing is assumed of their outcome.
pub trait NotificationSink {
    fn send_message(&self, recipient: &str, message: &str) -> Result<(), String>;
}

/// The send history as the specifications see it: subject name and timestamp
/// of the last recorded send, in insertion order, names distinct.
pub open spec fn spec_keys_distinct(entries: Seq<(Seq<char>, u64)>) -> bool {
    forall|i: int, j: int| 0 <= i < j < entries.len() ==> entries[i].0 != entries[j].0
}

/// The last-sent timestamp recorded for `nick`, if any.
pub open spec fn spec_lookup(entries: Seq<(Seq<char>, u64)>, nick: Seq<char>) -> Option<u64>
    decreases entries.len(),
{
    if entries.len() == 0 {
        Option::None
    } else if entries[0].0 == nick {
        Option::Some(entries[0].1)
    } else {
        spec_lookup(entries.drop_first(), nick)
    }
}

/// All recorded timestamps, across every subject.
pub open spec fn spec_times(entries: Seq<(Seq<char>, u64)>) -> Seq<u64> {
    entries.map_values(|e: (Seq<char>, u64)| e.1)
}

/// The history after recording a send for `nick` at `now`: the subject's
/// entry is overwritten in place, or appended if the subject is new.
pub open spec fn spec_record(entries: Seq<(Seq<char>, u64)>, nick: Seq<char>, now: u64) -> Seq<
    (Seq<char>, u64),
>
    decreases entries.len(),
{
    if entries.len() == 0 {
        seq![(nick, now)]
    } else if entries[0].0 == nick {
        seq![(nick, now)] + entries.drop_first()
    } else {
        seq![entries[0]] + spec_record(entries.drop_first(), nick, now)
    }
}

/// How many entries carry the given subject name.
pub open spec fn spec_key_count(entries: Seq<(Seq<char>, u64)>, nick: Seq<char>) -> nat
    decreases entries.len(),
{
    if entries.len() == 0 {
        0
    } else {
        spec_key_count(entries.drop_first(), nick) + if entries[0].0 == nick {
            1nat
        } else {
            0nat
        }
    }
}

/// Whether a notify attempt for `nick` at `now` is blocked by either gate:
/// the full global window always wins; otherwise the subject's cooldown
/// (age strictly under `frequency`) blocks it.
pub open spec fn spec_blocked(
    window: ThrottleWindow,
    frequency: u64,
    entries: Seq<(Seq<char>, u64)>,
    nick: Seq<char>,
    now: u64,
) -> bool {
    !window.spec_can_send(spec_times(entries), now) || (spec_lookup(entries, nick) matches Option::Some(last)
        && now < last + frequency)
}

/// One notify attempt as a pure transition on the history: blocked attempts
/// change nothing; an admitted attempt records `now` for the subject.
pub open spec fn spec_step(
    window: ThrottleWindow,
    frequency: u64,
    entries: Seq<(Seq<char>, u64)>,
    nick: Seq<char>,
    now: u64,
) -> Seq<(Seq<char>, u64)> {
    if spec_blocked(window, frequency, entries, nick, now) {
        entries
    } else {
        spec_record(entries, nick, now)
    }
}

/// Gates and forwards messages about subjects to a pluggable sink, holding
/// the per-subject last-sent table and the global window.
pub struct NotificationService<T: NotificationSink> {
    sink: T,
    sent: Vec<(String, u64)>,
    recipient: String,
    frequency: u64,
    window: ThrottleWindow,
}

/// The window every service starts with: at most thirty sends in any three
/// hours, across all subjects.
pub const DEFAULT_WINDOW_PERIOD: u64 = 10800;

pub const DEFAULT_WINDOW_MAX: usize = 30;

impl<T: NotificationSink> NotificationService<T> {
    /// The send history: subject names and their last recorded timestamps.
    pub closed spec fn entries(self) -> Seq<(Seq<char>, u64)> {
        self.sent@.map_values(|e: (String, u64)| (e.0@, e.1))
    }

    pub closed spec fn spec_frequency(self) -> u64 {
        self.frequency
    }

    pub closed spec fn spec_window(self) -> ThrottleWindow {
        self.window
    }

    pub closed spec fn spec_recipient(self) -> Seq<char> {
        self.recipient@
    }

    pub open spec fn wf(self) -> bool {
        spec_keys_distinct(self.entries())
    }

    /// The global window gate: full when the in-window count has reached the
    /// cap.
    pub open spec fn spec_throttled(self, now: u64) -> bool {
        !self.spec_window().spec_can_send(spec_times(self.entries()), now)
    }

    /// The per-subject cooldown gate: active while the subject's last
    /// recorded send is aged strictly under `frequency`.
    pub open spec fn spec_cooling(self, nick: Seq<char>, now: u64) -> bool {
        spec_lookup(self.entries(), nick) matches Option::Some(last) && now < last
            + self.spec_frequency()
    }

    /// The configuration that a notify call must not touch.
    pub open spec fn same_config(self, other: Self) -> bool {
        &&& self.spec_frequency() == other.spec_frequency()
        &&& self.spec_window() == other.spec_window()
        &&& self.spec_recipient() == other.spec_recipient()
    }

    pub fn new(sink: T, recipient: String, frequency: u64) -> (s: Self)
        ensures
            s.wf(),
            s.entries() == Seq::<(Seq<char>, u64)>::empty(),
            s.spec_frequency() == frequency,
            s.spec_recipient() == recipient@,
            s.spec_window() == (ThrottleWindow {
                period: DEFAULT_WINDOW_PERIOD,
                max_count: DEFAULT_WINDOW_MAX,
            }),
    {
        let s = NotificationService {
            sink,
            sent: Vec::new(),
            recipient,
            frequency,
            window: ThrottleWindow { period: DEFAULT_WINDOW_PERIOD, max_count: DEFAULT_WINDOW_MAX },
        };
        proof {
            assert(s.entries() =~= Seq::<(Seq<char>, u64)>::empty());
        }
        s
    }

    fn times_vec(&self) -> (r: Vec<u64>)
        ensures
            r@ == spec_times(self.entries()),
    {
        let mut r: Vec<u64> = Vec::new();
        let mut i: usize = 0;
        while i < self.sent.len()
            invariant
                i <= self.sent@.len(),
                r@.len() == i,
                forall|j: int| 0 <= j < i ==> r@[j] == self.sent@[j].1,
            decreases self.sent@.len() - i,
        {
            r.push(self.sent[i].1);
            i = i + 1;
        }
        proof {
            assert(r@ =~= spec_times(self.entries()));
        }
        r
    }

    fn find_entry(&self, nick: &str) -> (r: Option<usize>)
        ensures
            r matches Some(i) ==> i < self.entries().len() && self.entries()[i as int].0 == nick@
                && (forall|j: int| 0 <= j < i ==> self.entries()[j].0 != nick@),
            r is None ==> forall|j: int|
                0 <= j < self.entries().len() ==> self.entries()[j].0 != nick@,
    {
        let mut i: usize = 0;
        while i < self.sent.len()
            invariant
                i <= self.sent@.len(),
                forall|j: int| 0 <= j < i ==> self.entries()[j].0 != nick@,
            decreases self.sent@.len() - i,
        {
            if crate::text::str_eq(self.sent[i].0.as_str(), nick) {
                return Some(i);
            }
            i = i + 1;
        }
        None
    }

    /// The admission decision alone: evaluates the window, then the cooldown,
    /// and on success records `now` for the subject before returning.
    pub fn can_send(&mut self, nick: &str, now: u64) -> (r: NotificationResult)
        requires
            old(self).wf(),
        ensures
            final(self).wf(),
            old(self).same_config(*final(self)),
            (r matches Err(NotificationFailure::Throttled)) == old(self).spec_throttled(now),
            (r matches Err(NotificationFailure::RecentlyNotified)) == (!old(self).spec_throttled(
                now,
            ) && old(self).spec_cooling(nick@, now)),
            (r is Ok) == (!old(self).spec_throttled(now) && !old(self).spec_cooling(nick@, now)),
            r is Err ==> final(self).entries() == old(self).entries(),
            r is Ok ==> final(self).entries() == spec_record(old(self).entries(), nick@, now),
    {
        let times = self.times_vec();
        if !self.window.can_send(&times, now) {
            return Err(NotificationFailure::Throttled);
        }
        match self.find_entry(nick) {
            Some(i) => {
                proof {
                    lemma_lookup_found(self.entries(), nick@, i as int);
                }
                let last = self.sent[i].1;
                let cooling = if now < last {
                    true
                } else {
                    now - last < self.frequency
                };
                if cooling {
                    Err(NotificationFailure::RecentlyNotified)
                } else {
                    let ghost prev = self.entries();
                    self.sent[i] = (nick.to_owned(), now);
                    proof {
                        lemma_record_found(prev, nick@, now, i as int);
                        assert(self.entries() =~= prev.update(i as int, (nick@, now)));
                        lemma_record_preserves_distinct(prev, nick@, now);
                    }
                    Ok(())
                }
            },
            None => {
                let ghost prev = self.entries();
                proof {
                    lemma_lookup_absent(prev, nick@);
                    lemma_record_absent(prev, nick@, now);
                }
                self.sent.push((nick.to_owned(), now));
                proof {
                    assert(self.entries() =~= prev.push((nick@, now)));
                    lemma_record_preserves_distinct(prev, nick@, now);
                }
                Ok(())
            },
        }
    }

    /// Notify that a watched subject has joined a channel. The gates decide;
    /// an admitted message reads "`nick` has joined `channel`".
    pub fn notify_channel(&mut self, nick: &str, channel: &str, now: u64) -> (r:
        NotificationResult)
        requires
            old(self).wf(),
        ensures
            final(self).wf(),
            old(self).same_config(*final(self)),
            (r matches Err(NotificationFailure::Throttled)) == old(self).spec_throttled(now),
            (r matches Err(NotificationFailure::RecentlyNotified)) == (!old(self).spec_throttled(
                now,
            ) && old(self).spec_cooling(nick@, now)),
            r is Ok ==> !old(self).spec_throttled(now) && !old(self).spec_cooling(nick@, now),
            final(self).entries() == spec_step(
                old(self).spec_window(),
                old(self).spec_frequency(),
                old(self).entries(),
                nick@,
                now,
            ),
    {
        match self.can_send(nick, now) {
            Err(e) => Err(e),
            Ok(_) => {
                let msg = channel_join_message(nick, channel);
                match self.sink.send_message(self.recipient.as_str(), msg.as_str()) {
                    Ok(_) => Ok(()),
                    Err(desc) => Err(NotificationFailure::Failure(desc)),
                }
            },
        }
    }

    /// Notify that the bot has received a private message. The gates decide;
    /// an admitted message reads "PM from `nick`: `message`".
    pub fn notify_pm(&mut self, nick: &str, message: &str, now: u64) -> (r: NotificationResult)
        requires
            old(self).wf(),
        ensures
            final(self).wf(),
            old(self).same_config(*final(self)),
            (r matches Err(NotificationFailure::Throttled)) == old(self).spec_throttled(now),
            (r matches Err(NotificationFailure::RecentlyNotified)) == (!old(self).spec_throttled(
                now,
            ) && old(self).spec_cooling(nick@, now)),
            r is Ok ==> !old(self).spec_throttled(now) && !old(self).spec_cooling(nick@, now),
            final(self).entries() == spec_step(
                old(self).spec_window(),
                old(self).spec_frequency(),
                old(self).entries(),
                nick@,
                now,
            ),
    {
        match self.can_send(nick, now) {
            Err(e) => Err(e),
            Ok(_) => {
                let msg = pm_message(nick, message);
                match self.sink.send_message(self.recipient.as_str(), msg.as_str()) {
                    Ok(_) => Ok(()),
                    Err(desc) => Err(NotificationFailure::Failure(desc)),
                }
            },
        }
    }

    /// The recorded history, for inspection.
    pub fn sent(&self) -> (r: &Vec<(String, u64)>)
        ensures
            r@.map_values(|e: (String, u64)| (e.0@, e.1)) == self.entries(),
    {
        &self.sent
    }
}

/// The text of a channel-join notification.
pub fn channel_join_message(nick: &str, channel: &str) -> (m: String)
    ensures
        m@ == nick@ + " has joined "@ + channel@,
{
    let mut m = nick.to_owned();
    m.append(" has joined ");
    m.append(channel);
    m
}

/// The text of a private-message notification.
pub fn pm_message(nick: &str, message: &str) -> (m: String)
    ensures
        m@ == "PM from "@ + nick@ + ": "@ + message@,
{
    let mut m = "PM from ".to_owned();
    m.append(nick);
    m.append(": ");
    m.append(message);
    proof {
        assert(m@ =~= "PM from "@ + nick@ + ": "@ + message@);
    }
    m
}

/// If `nick` sits at index `i` and nowhere earlier, the lookup returns its
/// timestamp.
proof fn lemma_lookup_found(entries: Seq<(Seq<char>, u64)>, nick: Seq<char>, i: int)
    requires
        0 <= i < entries.len(),
        entries[i].0 == nick,
        forall|j: int| 0 <= j < i ==> entries[j].0 != nick,
    ensures
        spec_lookup(entries, nick) == Option::Some(entries[i].1),
    decreases i,
{
    if i > 0 {
        lemma_lookup_found(entries.drop_first(), nick, i - 1);
    }
}

/// If no entry carries `nick`, the lookup returns nothing.
proof fn lemma_lookup_absent(entries: Seq<(Seq<char>, u64)>, nick: Seq<char>)
    requires
        forall|j: int| 0 <= j < entries.len() ==> entries[j].0 != nick,
    ensures
        spec_lookup(entries, nick) is None,
    decreases entries.len(),
{
    if entries.len() > 0 {
        lemma_lookup_absent(entries.drop_first(), nick);
    }
}

/// Recording over an existing entry is an in-place update at its index.
proof fn lemma_record_found(entries: Seq<(Seq<char>, u64)>, nick: Seq<char>, now: u64, i: int)
    requires
        0 <= i < entries.len(),
        entries[i].0 == nick,
        forall|j: int| 0 <= j < i ==> entries[j].0 != nick,
    ensures
        spec_record(entries, nick, now) == entries.update(i, (nick, now)),
    decreases i,
{
    if i == 0 {
        assert(seq![(nick, now)] + entries.drop_first() =~= entries.update(0, (nick, now)));
    } else {
        lemma_record_found(entries.drop_first(), nick, now, i - 1);
        assert(seq![entries[0]] + entries.drop_first().update(i - 1, (nick, now))
            =~= entries.update(i, (nick, now)));
    }
}

/// Recording a new subject appends it.
proof fn lemma_record_absent(entries: Seq<(Seq<char>, u64)>, nick: Seq<char>, now: u64)
    requires
        forall|j: int| 0 <= j < entries.len() ==> entries[j].0 != nick,
    ensures
        spec_record(entries, nick, now) == entries.push((nick, now)),
    decreases entries.len(),
{
    if entries.len() == 0 {
        assert(spec_record(entries, nick, now) =~= entries.push((nick, now)));
    } else {
        lemma_record_absent(entries.drop_first(), nick, now);
        assert(seq![entries[0]] + entries.drop_first().push((nick, now)) =~= entries.push(
            (nick, now),
        ));
    }
}

/// Recording keeps subject names distinct.
proof fn lemma_record_preserves_distinct(
    entries: Seq<(Seq<char>, u64)>,
    nick: Seq<char>,
    now: u64,
)
    requires
        spec_keys_distinct(entries),
    ensures
        spec_keys_distinct(spec_record(entries, nick, now)),
    decreases entries.len(),
{
    if entries.len() == 0 {
    } else if entries[0].0 == nick {
        let r = seq![(nick, now)] + entries.drop_first();
        assert forall|i: int, j: int| 0 <= i < j < r.len() implies r[i].0 != r[j].0 by {
            if i == 0 {
                assert(r[j] == entries[j]);
                assert(entries[0].0 != entries[j].0);
            } else {
                assert(r[i] == entries[i] && r[j] == entries[j]);
            }
        }
    } else {
        assert(spec_keys_distinct(entries.drop_first()));
        lemma_record_preserves_distinct(entries.drop_first(), nick, now);
        let rest = spec_record(entries.drop_first(), nick, now);
        let r = seq![entries[0]] + rest;
        lemma_record_keys(entries.drop_first(), nick, now);
        assert forall|i: int, j: int| 0 <= i < j < r.len() implies r[i].0 != r[j].0 by {
            if i == 0 {
                assert(rest[j - 1].0 == nick || (exists|k: int|
                    0 <= k < entries.drop_first().len() && entries.drop_first()[k].0 == rest[j
                        - 1].0));
            }
        }
    }
}

/// Every name in a recorded history is either the recorded subject or was
/// already present.
proof fn lemma_record_keys(entries: Seq<(Seq<char>, u64)>, nick: Seq<char>, now: u64)
    ensures
        forall|j: int|
            0 <= j < spec_record(entries, nick, now).len() ==> (spec_record(
                entries,
                nick,
                now,
            )[j].0 == nick || (exists|k: int|
                0 <= k < entries.len() && entries[k].0 == spec_record(entries, nick, now)[j].0)),
    decreases entries.len(),
{
    if entries.len() == 0 {
    } else if entries[0].0 == nick {
        let r = seq![(nick, now)] + entries.drop_first();
        assert forall|j: int|
            0 <= j < r.len() implies (r[j].0 == nick || (exists|k: int|
            0 <= k < entries.len() && entries[k].0 == r[j].0)) by {
            if j > 0 {
                assert(entries[j] == r[j]);
            }
        }
    } else {
        lemma_record_keys(entries.drop_first(), nick, now);
        let rest = spec_record(entries.drop_first(), nick, now);
        let r = seq![entries[0]] + rest;
        assert forall|j: int|
            0 <= j < r.len() implies (r[j].0 == nick || (exists|k: int|
            0 <= k < entries.len() && entries[k].0 == r[j].0)) by {
            if j == 0 {
                assert(entries[0].0 == r[0].0);
            } else {
                assert(r[j] == rest[j - 1]);
                if rest[j - 1].0 != nick {
                    let k = choose|k: int|
                        0 <= k < entries.drop_first().len() && entries.drop_first()[k].0 == rest[j
                            - 1].0;
                    assert(entries[k + 1].0 == r[j].0);
                }
            }
        }
    }
}

/// After a record, the subject maps to the new timestamp and every other
/// subject is untouched; the subject occurs exactly once.
pub proof fn lemma_record_properties(entries: Seq<(Seq<char>, u64)>, nick: Seq<char>, now: u64)
    requires
        spec_keys_distinct(entries),
    ensures
        spec_lookup(spec_record(entries, nick, now), nick) == Option::Some(now),
        forall|k: Seq<char>|
            k != nick ==> spec_lookup(spec_record(entries, nick, now), k) == spec_lookup(
                entries,
                k,
            ),
        spec_key_count(spec_record(entries, nick, now), nick) == 1,
        spec_record(entries, nick, now).len() == entries.len() + if spec_lookup(
            entries,
            nick,
        ) is Some {
            0int
        } else {
            1int
        },
    decreases entries.len(),
{
    if entries.len() == 0 {
        let r = seq![(nick, now)];
        assert(r.drop_first() =~= Seq::<(Seq<char>, u64)>::empty());
        assert(spec_key_count(Seq::<(Seq<char>, u64)>::empty(), nick) == 0);
        assert(spec_key_count(r, nick) == 1);
        assert forall|k: Seq<char>|
            k != nick implies spec_lookup(r, k) == spec_lookup(entries, k) by {
            assert(r[0].0 == nick);
            assert(spec_lookup(r, k) == spec_lookup(r.drop_first(), k));
        }
    } else if entries[0].0 == nick {
        let r = seq![(nick, now)] + entries.drop_first();
        assert(r.drop_first() =~= entries.drop_first());
        assert(spec_keys_distinct(entries.drop_first()));
        assert(forall|j: int|
            0 <= j < entries.drop_first().len() ==> entries.drop_first()[j].0 != nick);
        lemma_key_count_absent(entries.drop_first(), nick);
        assert(spec_key_count(r, nick) == 1);
        assert forall|k: Seq<char>|
            k != nick implies spec_lookup(r, k) == spec_lookup(entries, k) by {
            assert(r[0].0 == nick);
            assert(spec_lookup(r, k) == spec_lookup(entries.drop_first(), k));
        }
    } else {
        assert(spec_keys_distinct(entries.drop_first()));
        lemma_record_properties(entries.drop_first(), nick, now);
        let rest = spec_record(entries.drop_first(), nick, now);
        let r = seq![entries[0]] + rest;
        assert(r.drop_first() =~= rest);
        assert(r[0] == entries[0]);
        assert(spec_key_count(r, nick) == spec_key_count(rest, nick));
        assert forall|k: Seq<char>|
            k != nick implies spec_lookup(r, k) == spec_lookup(entries, k) by {
            assert(spec_lookup(rest, k) == spec_lookup(entries.drop_first(), k));
            if r[0].0 == k {
            } else {
                assert(spec_lookup(r, k) == spec_lookup(rest, k));
                assert(spec_lookup(entries, k) == spec_lookup(entries.drop_first(), k));
            }
        }
    }
}

/// A name that appears nowhere has count zero.
proof fn lemma_key_count_absent(entries: Seq<(Seq<char>, u64)>, nick: Seq<char>)
    requires
        forall|j: int| 0 <= j < entries.len() ==> entries[j].0 != nick,
    ensures
        spec_key_count(entries, nick) == 0,
    decreases entries.len(),
{
    if entries.len() > 0 {
        lemma_key_count_absent(entries.drop_first(), nick);
    }
}

/// Law: a notify attempt blocked by either gate is a no-op on the history, so
/// retrying after such a failure and succeeding once eligible records exactly
/// one timestamp for the subject, not two; every other subject's record is
/// untouched.
pub proof fn lemma_blocked_retry_records_once(
    window: ThrottleWindow,
    frequency: u64,
    entries: Seq<(Seq<char>, u64)>,
    nick: Seq<char>,
    t1: u64,
    t2: u64,
)
    requires
        spec_keys_distinct(entries),
        spec_blocked(window, frequency, entries, nick, t1),
        !spec_blocked(window, frequency, entries, nick, t2),
    ensures
        spec_step(window, frequency, entries, nick, t1) == entries,
        spec_step(
            window,
            frequency,
            spec_step(window, frequency, entries, nick, t1),
            nick,
            t2,
        ) == spec_record(entries, nick, t2),
        spec_lookup(spec_record(entries, nick, t2), nick) == Option::Some(t2),
        spec_key_count(spec_record(entries, nick, t2), nick) == 1,
        forall|k: Seq<char>|
            k != nick ==> spec_lookup(spec_record(entries, nick, t2), k) == spec_lookup(
                entries,
                k,
            ),
{
    lemma_record_properties(entries, nick, t2);
}

} // verus!
