//! Accessibility event streams.
use vstd::prelude::*;

use crate::text::same_text;
use crate::types::{AxEvent, AxEventTopic, AxSubscription, ALL_TOPICS};

verus! {

/// How many events wait for a subscriber at most.
pub const CHANNEL_CAPACITY: usize = 1024;

/// The notification that stands for a topic.
pub open spec fn notification_name(t: AxEventTopic) -> Seq<char> {
    match t {
        AxEventTopic::ValueChanged => "AXValueChanged"@,
        AxEventTopic::FocusedChanged => "AXFocusedUIElementChanged"@,
        AxEventTopic::WindowCreated => "AXWindowCreated"@,
        AxEventTopic::WindowDestroyed => "AXUIElementDestroyed"@,
        AxEventTopic::SelectionChanged => "AXSelectedTextChanged"@,
    }
}

/// The notification that stands for a topic.
pub fn topic_enum_to_str(t: AxEventTopic) -> (s: &'static str)
    ensures
        s@ == notification_name(t),
{
    match t {
        AxEventTopic::ValueChanged => "AXValueChanged",
        AxEventTopic::FocusedChanged => "AXFocusedUIElementChanged",
        AxEventTopic::WindowCreated => "AXWindowCreated",
        AxEventTopic::WindowDestroyed => "AXUIElementDestroyed",
        AxEventTopic::SelectionChanged => "AXSelectedTextChanged",
    }
}

/// The topic that a notification stands for.
pub fn topic_str_to_enum(s: &str) -> (r: Option<AxEventTopic>)
    ensures
        match r {
            Some(t) => notification_name(t) == s@,
            None => forall|t: AxEventTopic| #[trigger] notification_name(t) != s@,
        },
{
    if same_text(s, "AXValueChanged") {
        Some(AxEventTopic::ValueChanged)
    } else if same_text(s, "AXFocusedUIElementChanged") {
        Some(AxEventTopic::FocusedChanged)
    } else if same_text(s, "AXWindowCreated") {
        Some(AxEventTopic::WindowCreated)
    } else if same_text(s, "AXUIElementDestroyed") {
        Some(AxEventTopic::WindowDestroyed)
    } else if same_text(s, "AXSelectedTextChanged") {
        Some(AxEventTopic::SelectionChanged)
    } else {
        None
    }
}

/// No two topics share a notification.
pub proof fn notifications_tell_topics_apart(a: AxEventTopic, b: AxEventTopic)
    requires
        notification_name(a) == notification_name(b),
    ensures
        a == b,
{
    reveal_strlit("AXValueChanged");
    reveal_strlit("AXFocusedUIElementChanged");
    reveal_strlit("AXWindowCreated");
    reveal_strlit("AXUIElementDestroyed");
    reveal_strlit("AXSelectedTextChanged");
    assert("AXValueChanged"@.len() == 14);
    assert("AXFocusedUIElementChanged"@.len() == 25);
    assert("AXWindowCreated"@.len() == 15);
    assert("AXUIElementDestroyed"@.len() == 20);
    assert("AXSelectedTextChanged"@.len() == 21);
}

/// The topics of the first `k` that were asked for, in their own order.
pub open spec fn chosen(asked: Seq<AxEventTopic>, k: nat) -> Seq<AxEventTopic>
    decreases k,
{
    if k == 0 {
        Seq::empty()
    } else {
        let rest = chosen(asked, (k - 1) as nat);
        if asked.contains(ALL_TOPICS@[k - 1]) {
            rest.push(ALL_TOPICS@[k - 1])
        } else {
            rest
        }
    }
}

/// The topics asked for, each once, in their own order.
pub fn topic_set(asked: &Vec<AxEventTopic>) -> (v: Vec<AxEventTopic>)
    ensures
        v@ == chosen(asked@, 5),
{
    let all = AxEventTopic::all();
    let mut v: Vec<AxEventTopic> = Vec::new();
    let mut i: usize = 0;
    while i < all.len()
        invariant
            i <= all@.len(),
            all@ == ALL_TOPICS@,
            v@ == chosen(asked@, i as nat),
        decreases all@.len() - i,
    {
        let t = all[i];
        let mut k: usize = 0;
        let mut found = false;
        while k < asked.len()
            invariant
                k <= asked@.len(),
                found == asked@.take(k as int).contains(t),
            decreases asked@.len() - k,
        {
            proof {
                let s = asked@.take(k + 1);
                assert(s =~= asked@.take(k as int).push(asked@[k as int]));
                if asked@.take(k as int).contains(t) {
                    let j = choose|j: int|
                        0 <= j < asked@.take(k as int).len() && asked@.take(k as int)[j] == t;
                    assert(s[j] == t);
                }
                if asked@[k as int] == t {
                    assert(s[k as int] == t);
                }
                if s.contains(t) && asked@[k as int] != t {
                    let j = choose|j: int| 0 <= j < s.len() && s[j] == t;
                    assert(asked@.take(k as int)[j] == t);
                }
            }
            if asked[k] == t {
                found = true;
            }
            k += 1;
        }
        assert(asked@.take(asked@.len() as int) =~= asked@);
        if found {
            v.push(t);
        }
        i += 1;
    }
    v
}

/// A subscription to the topics asked for.
pub fn subscription(subscription_id: String, bundle_id: &str, asked: &Vec<AxEventTopic>) -> (s:
    AxSubscription)
    ensures
        s.subscription_id@ == subscription_id@,
        s.bundle_id@ == bundle_id@,
        s.topics@ == chosen(asked@, 5),
{
    AxSubscription { subscription_id, bundle_id: bundle_id.to_owned(), topics: topic_set(asked) }
}

/// What an element said of itself when it sent a notification.
#[derive(Debug)]
pub struct EventSource {
    pub role: Option<String>,
    pub name: Option<String>,
    pub value: Option<String>,
}

/// The event that a notification makes. Once the subscription has ended, and for
/// notifications that stand for no topic, there is none.
pub fn event_of(
    alive: bool,
    notification: &str,
    bundle_id: &str,
    source: EventSource,
    now_ms: u64,
) -> (r: Option<AxEvent>)
    ensures
        match r {
            Some(e) => alive && notification_name(e.topic) == notification@ && e.bundle_id@
                == bundle_id@ && e.timestamp_ms == now_ms && e.element_ref is None && e.role
                == source.role && e.name == source.name && e.value == source.value,
            None => !alive || forall|t: AxEventTopic| #[trigger]
                notification_name(t) != notification@,
        },
{
    if !alive {
        return None;
    }
    match topic_str_to_enum(notification) {
        Some(topic) => Some(
            AxEvent {
                bundle_id: bundle_id.to_owned(),
                topic,
                timestamp_ms: now_ms,
                element_ref: None,
                role: source.role,
                name: source.name,
                value: source.value,
            },
        ),
        None => None,
    }
}

/// The events that wait for a subscriber.
pub struct EventQueue {
    events: Vec<AxEvent>,
}

impl View for EventQueue {
    type V = Seq<AxEvent>;

    closed spec fn view(&self) -> Seq<AxEvent> {
        self.events@
    }
}

impl EventQueue {
    pub closed spec fn wf(self) -> bool {
        self.events@.len() <= CHANNEL_CAPACITY
    }

    pub fn new() -> (q: EventQueue)
        ensures
            q.wf(),
            q@ == Seq::<AxEvent>::empty(),
    {
        EventQueue { events: Vec::new() }
    }

    /// Adds an event. A full queue loses its oldest event; the result says whether it did.
    pub fn push(&mut self, e: AxEvent) -> (dropped: bool)
        requires
            old(self).wf(),
        ensures
            final(self).wf(),
            dropped == (old(self)@.len() == CHANNEL_CAPACITY),
            final(self)@ == (if dropped {
                old(self)@.drop_first().push(e)
            } else {
                old(self)@.push(e)
            }),
    {
        let full = self.events.len() == CHANNEL_CAPACITY;
        if full {
            let _ = self.events.remove(0);
        }
        self.events.push(e);
        assert(self@ =~= (if full {
            old(self)@.drop_first().push(e)
        } else {
            old(self)@.push(e)
        }));
        full
    }

    /// Takes the oldest event.
    pub fn pop(&mut self) -> (r: Option<AxEvent>)
        requires
            old(self).wf(),
        ensures
            final(self).wf(),
            match r {
                Some(e) => old(self)@.len() > 0 && e == old(self)@[0] && final(self)@
                    == old(self)@.drop_first(),
                None => old(self)@.len() == 0 && final(self)@ == old(self)@,
            },
    {
        if self.events.len() == 0 {
            None
        } else {
            let e = self.events.remove(0);
            assert(self@ =~= old(self)@.drop_first());
            Some(e)
        }
    }
}

} // verus!
