//! The bus side: messages, and the topics that carry them.
use vstd::prelude::*;
use crate::config::{BrokerConfig, MQTT_BASE_DEFAULT};
use crate::item::{Meta, MetaView};
use crate::text::{chars_of, push_str, string_of};
use crate::value::{ingested, text_of, NumberText, Value, ValueView};
use vstd::utf8::{decode_utf8, valid_utf8};

verus! {

/// What travels on the bus, each with the name of its item.
#[derive(Clone, Debug)]
pub enum Message {
    Update(String, Value),
    Command(String, Value),
    Meta(String, Meta),
}

/// What a `Message` holds.
pub enum MessageView {
    Update(Seq<char>, ValueView),
    Command(Seq<char>, ValueView),
    Meta(Seq<char>, MetaView),
}

impl View for Message {
    type V = MessageView;

    open spec fn view(&self) -> MessageView {
        match self {
            Message::Update(n, v) => MessageView::Update(n@, v@),
            Message::Command(n, v) => MessageView::Command(n@, v@),
            Message::Meta(n, m) => MessageView::Meta(n@, m@),
        }
    }
}

/// The classes of messages that a subscription covers.
#[derive(Clone, Copy, Debug, PartialEq, Eq, Structural)]
pub enum SubType {
    Update,
    Command,
    Meta,
    All,
}

/// The last part of the topics of a class of messages.
pub open spec fn suffix(sub: SubType) -> Seq<char> {
    match sub {
        SubType::Update => "state"@,
        SubType::Command => "command"@,
        SubType::Meta => "meta"@,
        SubType::All => "#"@,
    }
}

/// The topic of an item for a class of messages.
pub open spec fn topic(base: Seq<char>, name: Seq<char>, sub: SubType) -> Seq<char> {
    base + "/"@ + name + "/"@ + suffix(sub)
}

/// The base of the topics under a configuration.
pub open spec fn base_of(cfg: BrokerConfig) -> Seq<char> {
    match cfg.item_base {
        Some(b) => b@,
        None => MQTT_BASE_DEFAULT@,
    }
}

pub fn item_base(cfg: &BrokerConfig) -> (r: &str)
    ensures
        r@ == base_of(*cfg),
{
    match &cfg.item_base {
        Some(b) => b.as_str(),
        None => MQTT_BASE_DEFAULT,
    }
}

pub fn suffix_of(sub: SubType) -> (r: &'static str)
    ensures
        r@ == suffix(sub),
{
    match sub {
        SubType::Update => "state",
        SubType::Command => "command",
        SubType::Meta => "meta",
        SubType::All => "#",
    }
}

/// The topic to publish, subscribe or unsubscribe for an item.
pub fn topic_for(base: &str, name: &str, sub: SubType) -> (r: String)
    ensures
        r@ == topic(base@, name@, sub),
{
    let mut out: Vec<char> = Vec::new();
    push_str(&mut out, base);
    push_str(&mut out, "/");
    push_str(&mut out, name);
    push_str(&mut out, "/");
    push_str(&mut out, suffix_of(sub));
    assert(out@ =~= topic(base@, name@, sub));
    string_of(&out)
}

/// What a publication carries: the text of a value, or metadata that
/// the transport writes out as a document.
#[derive(Clone, Debug)]
pub enum Payload {
    Text(String),
    Meta(Meta),
}

/// What a `Payload` holds.
pub enum PayloadView {
    Text(Seq<char>),
    Meta(MetaView),
}

impl View for Payload {
    type V = PayloadView;

    open spec fn view(&self) -> PayloadView {
        match self {
            Payload::Text(s) => PayloadView::Text(s@),
            Payload::Meta(m) => PayloadView::Meta(m@),
        }
    }
}

/// A message as the transport sends it.
#[derive(Clone, Debug)]
pub struct Publication {
    pub topic: String,
    pub payload: Payload,
}

/// The topic of a message.
pub open spec fn message_topic(base: Seq<char>, m: MessageView) -> Seq<char> {
    match m {
        MessageView::Update(n, _) => topic(base, n, SubType::Update),
        MessageView::Command(n, _) => topic(base, n, SubType::Command),
        MessageView::Meta(n, _) => topic(base, n, SubType::Meta),
    }
}

/// The payload of a message, where `rendered` is the decimal text of a number.
pub open spec fn message_payload(m: MessageView, rendered: Seq<char>) -> PayloadView {
    match m {
        MessageView::Update(_, v) => PayloadView::Text(text_of(v, rendered)),
        MessageView::Command(_, v) => PayloadView::Text(text_of(v, rendered)),
        MessageView::Meta(_, meta) => PayloadView::Meta(meta),
    }
}

/// The message as the transport sends it: values travel as their text.
pub fn publication<C: NumberText>(base: &str, message: Message, codec: &C) -> (r: Publication)
    ensures
        r.topic@ == message_topic(base@, message@),
        exists|rendered: Seq<char>| r.payload@ == message_payload(message@, rendered),
{
    match message {
        Message::Update(name, value) => {
            let text = match value.as_string(codec) {
                Ok(t) => t,
                Err(_) => String::new(),
            };
            let ghost rendered = choose|rendered: Seq<char>| text@ == text_of(value@, rendered);
            let r = Publication {
                topic: topic_for(base, name.as_str(), SubType::Update),
                payload: Payload::Text(text),
            };
            assert(r.payload@ == message_payload(message@, rendered));
            r
        },
        Message::Command(name, value) => {
            let text = match value.as_string(codec) {
                Ok(t) => t,
                Err(_) => String::new(),
            };
            let ghost rendered = choose|rendered: Seq<char>| text@ == text_of(value@, rendered);
            let r = Publication {
                topic: topic_for(base, name.as_str(), SubType::Command),
                payload: Payload::Text(text),
            };
            assert(r.payload@ == message_payload(message@, rendered));
            r
        },
        Message::Meta(name, meta) => {
            let r = Publication {
                topic: topic_for(base, name.as_str(), SubType::Meta),
                payload: Payload::Meta(meta),
            };
            assert(r.payload@ == message_payload(message@, Seq::<char>::empty()));
            r
        },
    }
}

/// The place of the last `/` in a text, or -1 where it has none.
pub open spec fn last_slash(s: Seq<char>) -> int
    decreases s.len(),
{
    if s.len() == 0 {
        -1
    } else if s.last() == '/' {
        s.len() - 1
    } else {
        last_slash(s.drop_last())
    }
}

/// The class of messages that the last part of a topic names.
pub open spec fn class_of(part: Seq<char>) -> Option<SubType> {
    if part == "state"@ {
        Some(SubType::Update)
    } else if part == "command"@ {
        Some(SubType::Command)
    } else if part == "meta"@ {
        Some(SubType::Meta)
    } else {
        None
    }
}

/// The item and the class of messages that a topic names: its last two
/// parts. A topic of fewer than two parts, or with an unknown last
/// part, names none.
pub open spec fn parsed_topic(t: Seq<char>) -> Option<(Seq<char>, SubType)> {
    let cut = last_slash(t);
    if cut < 0 {
        None
    } else {
        let head = t.take(cut);
        let name = head.skip(last_slash(head) + 1);
        match class_of(t.skip(cut + 1)) {
            Some(sub) => Some((name, sub)),
            None => None,
        }
    }
}

pub proof fn lemma_last_slash_bound(s: Seq<char>)
    ensures
        -1 <= last_slash(s) < s.len(),
        last_slash(s) >= 0 ==> s[last_slash(s)] == '/',
        forall|j: int| last_slash(s) < j < s.len() ==> #[trigger] s[j] != '/',
    decreases s.len(),
{
    if s.len() > 0 && s.last() != '/' {
        let t = s.drop_last();
        lemma_last_slash_bound(t);
        assert forall|j: int| last_slash(s) < j < s.len() implies #[trigger] s[j] != '/' by {
            if j < t.len() {
                assert(s[j] == t[j]);
            }
        }
    }
}

/// A `/` after which no other follows is the last one.
pub proof fn lemma_last_slash_is(s: Seq<char>, i: int)
    requires
        -1 <= i < s.len(),
        i >= 0 ==> s[i] == '/',
        forall|j: int| i < j < s.len() ==> #[trigger] s[j] != '/',
    ensures
        last_slash(s) == i,
    decreases s.len(),
{
    if s.len() > 0 && i < s.len() - 1 {
        let t = s.drop_last();
        assert(s.last() == s[s.len() - 1]);
        assert forall|j: int| i < j < t.len() implies #[trigger] t[j] != '/' by {
            assert(t[j] == s[j]);
        }
        lemma_last_slash_is(t, i);
    }
}

fn find_last_slash(chars: &Vec<char>, end: usize) -> (r: Option<usize>)
    requires
        end <= chars.len(),
    ensures
        match r {
            Some(i) => i as int == last_slash(chars@.take(end as int)),
            None => last_slash(chars@.take(end as int)) == -1,
        },
{
    let ghost s = chars@.take(end as int);
    let mut i: usize = end;
    while i > 0
        invariant
            i <= end <= chars.len(),
            s == chars@.take(end as int),
            forall|j: int| i <= j < end ==> #[trigger] s[j] != '/',
        decreases i,
    {
        if chars[i - 1] == '/' {
            proof {
                lemma_last_slash_is(s, i - 1);
            }
            return Some(i - 1);
        }
        i -= 1;
    }
    proof {
        lemma_last_slash_is(s, -1);
    }
    None
}

fn copy_range(chars: &Vec<char>, from: usize, to: usize) -> (r: Vec<char>)
    requires
        from <= to <= chars.len(),
    ensures
        r@ == chars@.subrange(from as int, to as int),
{
    let mut out: Vec<char> = Vec::new();
    let mut i: usize = from;
    while i < to
        invariant
            from <= i <= to <= chars.len(),
            out@ == chars@.subrange(from as int, i as int),
        decreases to - i,
    {
        out.push(chars[i]);
        assert(chars@.subrange(from as int, i as int).push(chars@[i as int]) =~= chars@.subrange(
            from as int,
            i + 1,
        ));
        i += 1;
    }
    out
}

fn same_chars(a: &Vec<char>, b: &str) -> (r: bool)
    ensures
        r == (a@ == b@),
{
    let other = chars_of(b);
    if a.len() != other.len() {
        return false;
    }
    let mut i: usize = 0;
    while i < a.len()
        invariant
            i <= a.len(),
            a.len() == other.len(),
            other@ == b@,
            forall|j: int| 0 <= j < i ==> a@[j] == other@[j],
        decreases a.len() - i,
    {
        if a[i] != other[i] {
            return false;
        }
        i += 1;
    }
    assert(a@ =~= other@);
    true
}

/// Reads the item and the class of messages off a topic.
pub fn parse_topic(t: &str) -> (r: Option<(String, SubType)>)
    ensures
        match parsed_topic(t@) {
            Some((name, sub)) => r is Some && r->Some_0.0@ == name && r->Some_0.1 == sub,
            None => r is None,
        },
{
    let chars = chars_of(t);
    let n = chars.len();
    assert(chars@.take(n as int) =~= chars@);
    let cut = match find_last_slash(&chars, n) {
        Some(i) => i,
        None => {
            return None;
        },
    };
    proof {
        lemma_last_slash_bound(chars@);
        lemma_last_slash_bound(chars@.take(cut as int));
    }
    let start = match find_last_slash(&chars, cut) {
        Some(i) => i + 1,
        None => 0,
    };
    let last = copy_range(&chars, cut + 1, n);
    assert(last@ =~= chars@.skip(cut + 1));
    let sub = if same_chars(&last, "state") {
        SubType::Update
    } else if same_chars(&last, "command") {
        SubType::Command
    } else if same_chars(&last, "meta") {
        SubType::Meta
    } else {
        return None;
    };
    let name = copy_range(&chars, start, cut);
    assert(name@ =~= chars@.take(cut as int).skip(start as int));
    Some((string_of(&name), sub))
}

/// What an inbound transport message is: a message of the bus, or the
/// document of metadata, which the transport reads.
#[derive(Clone, Debug)]
pub enum Inbound {
    Message(Message),
    MetaDocument(String, String),
}

/// What an `Inbound` holds.
pub enum InboundView {
    Message(MessageView),
    MetaDocument(Seq<char>, Seq<char>),
}

impl View for Inbound {
    type V = InboundView;

    open spec fn view(&self) -> InboundView {
        match self {
            Inbound::Message(m) => InboundView::Message(m@),
            Inbound::MetaDocument(n, d) => InboundView::MetaDocument(n@, d@),
        }
    }
}

/// What a transport message is taken for, where `parsed` is what the
/// decimal parse of the trimmed payload gave. A malformed topic, or
/// metadata that is no text, is dropped.
pub open spec fn received(t: Seq<char>, payload: Seq<u8>, parsed: Option<u64>) -> Option<
    InboundView,
> {
    match parsed_topic(t) {
        None => None,
        Some((name, sub)) => match sub {
            SubType::Update => Some(
                InboundView::Message(MessageView::Update(name, ingested(payload, parsed))),
            ),
            SubType::Command => Some(
                InboundView::Message(MessageView::Command(name, ingested(payload, parsed))),
            ),
            SubType::Meta => if valid_utf8(payload) {
                Some(InboundView::MetaDocument(name, decode_utf8(payload)))
            } else {
                None
            },
            SubType::All => None,
        },
    }
}

/// An inbound holds what the model says.
pub open spec fn inbound_agrees(r: Option<Inbound>, m: Option<InboundView>) -> bool {
    match m {
        Some(x) => r is Some && r->Some_0@ == x,
        None => r is None,
    }
}

/// Takes a transport message in.
pub fn receive<C: NumberText>(t: &str, payload: &[u8], codec: &C) -> (r: Option<Inbound>)
    ensures
        exists|parsed: Option<u64>| inbound_agrees(r, #[trigger] received(t@, payload@, parsed)),
{
    let (name, sub) = match parse_topic(t) {
        Some(p) => p,
        None => {
            assert(inbound_agrees(None, received(t@, payload@, None)));
            return None;
        },
    };
    match sub {
        SubType::Update => {
            let v = Value::from_raw(payload, codec);
            let ghost parsed = choose|parsed: Option<u64>| v@ == ingested(payload@, parsed);
            let r = Some(Inbound::Message(Message::Update(name, v)));
            assert(inbound_agrees(r, received(t@, payload@, parsed)));
            r
        },
        SubType::Command => {
            let v = Value::from_raw(payload, codec);
            let ghost parsed = choose|parsed: Option<u64>| v@ == ingested(payload@, parsed);
            let r = Some(Inbound::Message(Message::Command(name, v)));
            assert(inbound_agrees(r, received(t@, payload@, parsed)));
            r
        },
        SubType::Meta => {
            let r = match crate::value::utf8_text(payload) {
                Some(text) => Some(Inbound::MetaDocument(name, text)),
                None => None,
            };
            assert(inbound_agrees(r, received(t@, payload@, None)));
            r
        },
        SubType::All => {
            assert(inbound_agrees(None, received(t@, payload@, None)));
            None
        },
    }
}

/// The topic of an item for one class of messages, read back, names
/// that item and that class, as long as the name holds no `/`.
pub proof fn topic_reads_back(base: Seq<char>, name: Seq<char>, sub: SubType)
    requires
        sub != SubType::All,
        forall|j: int| 0 <= j < name.len() ==> name[j] != '/',
    ensures
        parsed_topic(topic(base, name, sub)) == Some((name, sub)),
{
    reveal_strlit("/");
    reveal_strlit("state");
    reveal_strlit("command");
    reveal_strlit("meta");
    let t = topic(base, name, sub);
    let cut = base.len() + 1 + name.len();
    assert(t[cut as int] == '/');
    assert forall|j: int| cut < j < t.len() implies #[trigger] t[j] != '/' by {
        assert(t[j] == suffix(sub)[j - cut - 1]);
    }
    lemma_last_slash_is(t, cut as int);
    let head = t.take(cut as int);
    assert(head =~= base + "/"@ + name);
    assert(head[base.len() as int] == '/');
    assert forall|j: int| base.len() < j < head.len() implies #[trigger] head[j] != '/' by {
        assert(head[j] == name[j - base.len() - 1]);
    }
    lemma_last_slash_is(head, base.len() as int);
    assert(head.skip(base.len() as int + 1) =~= name);
    assert(t.skip(cut as int + 1) =~= suffix(sub));
}

} // verus!
