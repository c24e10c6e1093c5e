//! Events for the consumers of the bus: commands as they come, and
//! updates together with the state that they replace.
use vstd::prelude::*;
use crate::bus::{Message, MessageView};
use crate::number::{equal_numbers, number_eq};
use crate::table::{
    absent, distinct_keys, first_at, lemma_lookup_absent, lemma_lookup_first, lemma_lookup_push,
    lemma_lookup_update, lookup,
};
use crate::value::{Value, ValueView};

verus! {

/// What happened to an item, or the passing of time.
#[derive(Clone, Debug)]
pub enum Event {
    State { item_name: String, prev_state: Option<Value>, new_state: Value },
    Command { item_name: String, command: Value },
    Time { timestamp: i64 },
}

/// What an `Event` holds.
pub enum EventView {
    State { item_name: Seq<char>, prev_state: Option<ValueView>, new_state: ValueView },
    Command { item_name: Seq<char>, command: ValueView },
    Time { timestamp: i64 },
}

impl View for Event {
    type V = EventView;

    open spec fn view(&self) -> EventView {
        match self {
            Event::State { item_name, prev_state, new_state } => EventView::State {
                item_name: item_name@,
                prev_state: match prev_state {
                    Some(v) => Some(v@),
                    None => None,
                },
                new_state: new_state@,
            },
            Event::Command { item_name, command } => EventView::Command {
                item_name: item_name@,
                command: command@,
            },
            Event::Time { timestamp } => EventView::Time { timestamp: *timestamp },
        }
    }
}

/// A consumer of events.
pub trait EventHandler {
    type Error;

    fn handle_event(event: Event) -> Result<(), Self::Error>;
}

/// Two values are equal: of one form and with equal contents, numbers
/// compared as numbers.
pub open spec fn same_value(a: ValueView, b: ValueView) -> bool {
    match (a, b) {
        (ValueView::Number(x), ValueView::Number(y)) => equal_numbers(x, y),
        (ValueView::Text(x), ValueView::Text(y)) => x == y,
        (ValueView::Raw(x), ValueView::Raw(y)) => x == y,
        (ValueView::Bool(x), ValueView::Bool(y)) => x == y,
        _ => false,
    }
}

fn bytes_eq(a: &Vec<u8>, b: &Vec<u8>) -> (r: bool)
    ensures
        r == (a@ == b@),
{
    if a.len() != b.len() {
        return false;
    }
    let mut i: usize = 0;
    while i < a.len()
        invariant
            i <= a.len(),
            a.len() == b.len(),
            forall|j: int| 0 <= j < i ==> a@[j] == b@[j],
        decreases a.len() - i,
    {
        if a[i] != b[i] {
            return false;
        }
        i += 1;
    }
    assert(a@ =~= b@);
    true
}

/// Compares two values.
pub fn value_eq(a: &Value, b: &Value) -> (r: bool)
    ensures
        r == same_value(a@, b@),
{
    match (a, b) {
        (Value::Number(x), Value::Number(y)) => number_eq(*x, *y),
        (Value::String(x), Value::String(y)) => *x == *y,
        (Value::Raw(x), Value::Raw(y)) => bytes_eq(x, y),
        (Value::Bool(x), Value::Bool(y)) => *x == *y,
        _ => false,
    }
}

/// The event that a message is, given the last state of its item: an
/// update tells the state it replaces where that differs, a command is
/// handed on, metadata is no event.
pub open spec fn event_of(last: Option<ValueView>, m: MessageView) -> Option<EventView> {
    match m {
        MessageView::Update(name, v) => Some(
            EventView::State {
                item_name: name,
                prev_state: match last {
                    Some(s) => if same_value(s, v) {
                        None
                    } else {
                        Some(s)
                    },
                    None => None,
                },
                new_state: v,
            },
        ),
        MessageView::Command(name, v) => Some(EventView::Command { item_name: name, command: v }),
        MessageView::Meta(_, _) => None,
    }
}

/// The name of the item that a message is about.
pub open spec fn subject(m: MessageView) -> Seq<char> {
    match m {
        MessageView::Update(n, _) => n,
        MessageView::Command(n, _) => n,
        MessageView::Meta(n, _) => n,
    }
}

/// Turns the messages of the bus into events, remembering the last
/// state of every item.
pub struct EventSource {
    states: Vec<(String, Value)>,
}

impl EventSource {
    /// The remembered states, as a list of pairs.
    pub closed spec fn states(&self) -> Seq<(Seq<char>, ValueView)> {
        self.states@.map_values(|p: (String, Value)| (p.0@, p.1@))
    }

    /// No item is remembered twice.
    pub closed spec fn wf(&self) -> bool {
        distinct_keys(self.states())
    }

    /// The last state of an item.
    pub open spec fn last_state(&self, name: Seq<char>) -> Option<ValueView> {
        lookup(self.states(), name)
    }

    /// A source that remembers nothing yet.
    pub fn new() -> (r: EventSource)
        ensures
            r.wf(),
            forall|n: Seq<char>| r.last_state(n) is None,
    {
        let r = EventSource { states: Vec::new() };
        assert(r.states() =~= Seq::empty());
        r
    }

    fn find(&self, name: &String) -> (r: Option<usize>)
        ensures
            match r {
                Some(i) => first_at(self.states(), name@, i as int),
                None => absent(self.states(), name@),
            },
    {
        let ghost s = self.states();
        let mut i: usize = 0;
        while i < self.states.len()
            invariant
                i <= self.states.len(),
                s == self.states(),
                forall|j: int| 0 <= j < i ==> (#[trigger] s[j]).0 != name@,
            decreases self.states.len() - i,
        {
            assert(s[i as int] == (self.states@[i as int].0@, self.states@[i as int].1@));
            if self.states[i].0 == *name {
                return Some(i);
            }
            i += 1;
        }
        None
    }

    /// Takes one message: remembers the state of an update, and gives
    /// the event that the message is.
    pub fn next_event(&mut self, msg: &Message) -> (r: Option<Event>)
        requires
            old(self).wf(),
        ensures
            final(self).wf(),
            match event_of(old(self).last_state(subject(msg@)), msg@) {
                Some(e) => r is Some && r->Some_0@ == e,
                None => r is None,
            },
            forall|n: Seq<char>|
                #[trigger] final(self).last_state(n) == match msg@ {
                    MessageView::Update(name, v) => if n == name {
                        Some(v)
                    } else {
                        old(self).last_state(n)
                    },
                    _ => old(self).last_state(n),
                },
    {
        let (name, value) = match msg {
            Message::Update(name, value) => (name.clone(), value.duplicate()),
            Message::Command(name, value) => {
                return Some(Event::Command { item_name: name.clone(), command: value.duplicate() });
            },
            Message::Meta(_, _) => {
                return None;
            },
        };
        let ghost before = self.states();
        let ghost key = name@;
        let ghost content = value@;
        let prev = match self.find(&name) {
            Some(i) => {
                proof {
                    lemma_lookup_first(before, key, i as int);
                }
                let kept = self.states[i].1.duplicate();
                self.states.set(i, (name.clone(), value.duplicate()));
                proof {
                    assert(self.states() =~= before.update(i as int, (key, content)));
                    assert forall|n: Seq<char>| #[trigger]
                        self.last_state(n) == if n == key {
                            Some(content)
                        } else {
                            old(self).last_state(n)
                        } by {
                        lemma_lookup_update(before, i as int, content, n);
                    }
                    lemma_lookup_update(before, i as int, content, key);
                }
                if value_eq(&kept, &value) {
                    None
                } else {
                    Some(kept)
                }
            },
            None => {
                proof {
                    lemma_lookup_absent(before, key);
                }
                self.states.push((name.clone(), value.duplicate()));
                proof {
                    assert(self.states() =~= before.push((key, content)));
                    assert forall|n: Seq<char>| #[trigger]
                        self.last_state(n) == if n == key {
                            Some(content)
                        } else {
                            old(self).last_state(n)
                        } by {
                        lemma_lookup_push(before, key, content, n);
                    }
                    lemma_lookup_push(before, key, content, key);
                }
                None
            },
        };
        Some(Event::State { item_name: name, prev_state: prev, new_state: value })
    }
}

/// The last state that a run of messages gives an item.
pub open spec fn last_update(msgs: Seq<MessageView>, name: Seq<char>) -> Option<ValueView>
    decreases msgs.len(),
{
    if msgs.len() == 0 {
        None
    } else {
        match msgs.last() {
            MessageView::Update(n, v) => if n == name {
                Some(v)
            } else {
                last_update(msgs.drop_last(), name)
            },
            _ => last_update(msgs.drop_last(), name),
        }
    }
}

/// The events of a run of messages: each message is the event that it
/// is after the messages before it.
pub open spec fn events(msgs: Seq<MessageView>) -> Seq<EventView>
    decreases msgs.len(),
{
    if msgs.len() == 0 {
        Seq::empty()
    } else {
        let before = msgs.drop_last();
        match event_of(last_update(before, subject(msgs.last())), msgs.last()) {
            Some(e) => events(before).push(e),
            None => events(before),
        }
    }
}

/// What messages hold, in order.
pub open spec fn message_views(msgs: Seq<Message>) -> Seq<MessageView> {
    msgs.map_values(|m: Message| m@)
}

/// What events hold, in order.
pub open spec fn event_views(events: Seq<Event>) -> Seq<EventView> {
    events.map_values(|e: Event| e@)
}

/// The events of a run of messages, in order.
pub fn to_event_source(messages: &Vec<Message>) -> (r: Vec<Event>)
    ensures
        event_views(r@) == events(message_views(messages@)),
{
    let ghost views = message_views(messages@);
    let mut source = EventSource::new();
    let mut out: Vec<Event> = Vec::new();
    let mut i: usize = 0;
    assert(event_views(out@) =~= events(views.take(0)));
    while i < messages.len()
        invariant
            i <= messages.len(),
            views == message_views(messages@),
            source.wf(),
            event_views(out@) == events(views.take(i as int)),
            forall|n: Seq<char>| #[trigger] source.last_state(n) == last_update(views.take(i as int), n),
        decreases messages.len() - i,
    {
        let ghost before = out@;
        proof {
            assert(views.take(i + 1).drop_last() =~= views.take(i as int));
            assert(views.take(i + 1).last() == messages@[i as int]@);
        }
        match source.next_event(&messages[i]) {
            Some(e) => {
                out.push(e);
                assert(event_views(out@) =~= event_views(before).push(e@));
            },
            None => {},
        }
        i += 1;
    }
    assert(views.take(messages.len() as int) =~= views);
    out
}

} // verus!
