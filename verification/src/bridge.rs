//! The decisions of the two pumps: what a notification of the binding
//! asks of the bus, and what a message of the bus asks of the binding.
use vstd::prelude::*;
use crate::binding::{
    exposed, life_of_a_value, notification_view, stepped, value_item, DriverEventView, Notification,
};
use crate::config::{resolved_name, DescriptorView, DeviceConfigView};
use crate::bus::{Message, MessageView, SubType};
use crate::device::{native_of, NativeId, DB};
use crate::errors::{DeviceError, DeviceErrorView};
use crate::item::{
    controller_state_of, reading_of, write_of, ControllerState, DriverWrite, DriverWriteView, Item,
    ItemView,
};
use crate::value::{NumberText, Value, ValueView};

verus! {

/// What the pump asks of the bus, or of the driver on behalf of the bus.
#[derive(Clone, Debug)]
pub enum BusAction {
    Publish(Message),
    Subscribe(String, SubType),
    Unsubscribe(String, SubType),
    /// Read the value of the item, and publish it as an update.
    ReadValue(Item),
}

/// What a `BusAction` holds.
pub enum BusActionView {
    Publish(MessageView),
    Subscribe(Seq<char>, SubType),
    Unsubscribe(Seq<char>, SubType),
    ReadValue(ItemView),
}

impl View for BusAction {
    type V = BusActionView;

    open spec fn view(&self) -> BusActionView {
        match self {
            BusAction::Publish(m) => BusActionView::Publish(m@),
            BusAction::Subscribe(n, s) => BusActionView::Subscribe(n@, *s),
            BusAction::Unsubscribe(n, s) => BusActionView::Unsubscribe(n@, *s),
            BusAction::ReadValue(it) => BusActionView::ReadValue(it@),
        }
    }
}

/// What actions hold, in order.
pub open spec fn action_views(actions: Seq<BusAction>) -> Seq<BusActionView> {
    actions.map_values(|a: BusAction| a@)
}

/// What one notification asks for. A new item has its metadata
/// published before its commands are subscribed to; a changed item has
/// its value read and published; an item that is gone has its commands
/// unsubscribed from.
pub open spec fn actions_of(n: Notification<ItemView>) -> Seq<BusActionView> {
    match n {
        Notification::Added(it) => match it.meta() {
            Some(m) => seq![
                BusActionView::Publish(MessageView::Meta(it.name(), m)),
                BusActionView::Subscribe(it.name(), SubType::Command),
            ],
            None => seq![BusActionView::Subscribe(it.name(), SubType::Command)],
        },
        Notification::Changed(it) => seq![BusActionView::ReadValue(it)],
        Notification::Removed(it) => seq![BusActionView::Unsubscribe(it.name(), SubType::Command)],
    }
}

/// What a run of notifications asks for: what each asks for, in the
/// order of the notifications.
pub open spec fn pumped(ns: Seq<Notification<ItemView>>) -> Seq<BusActionView>
    decreases ns.len(),
{
    if ns.len() == 0 {
        Seq::empty()
    } else {
        pumped(ns.drop_last()) + actions_of(ns.last())
    }
}

/// What one notification asks of the bus.
pub fn notification_actions(n: &Notification<Item>) -> (r: Vec<BusAction>)
    ensures
        action_views(r@) == actions_of(notification_view(*n)),
{
    let mut out: Vec<BusAction> = Vec::new();
    match n {
        Notification::Added(it) => {
            match it.get_meta() {
                Some(m) => {
                    out.push(BusAction::Publish(Message::Meta(it.get_name(), m)));
                },
                None => {},
            }
            out.push(BusAction::Subscribe(it.get_name(), SubType::Command));
        },
        Notification::Changed(it) => {
            out.push(BusAction::ReadValue(it.duplicate()));
        },
        Notification::Removed(it) => {
            out.push(BusAction::Unsubscribe(it.get_name(), SubType::Command));
        },
    }
    assert(action_views(out@) =~= actions_of(notification_view(*n)));
    out
}

/// What a run of notifications asks of the bus, in order.
pub fn pump_notifications(ns: &Vec<Notification<Item>>) -> (r: Vec<BusAction>)
    ensures
        action_views(r@) == pumped(ns@.map_values(|n: Notification<Item>| notification_view(n))),
{
    let ghost views = ns@.map_values(|n: Notification<Item>| notification_view(n));
    let mut out: Vec<BusAction> = Vec::new();
    let mut i: usize = 0;
    assert(action_views(out@) =~= pumped(views.take(0)));
    while i < ns.len()
        invariant
            i <= ns.len(),
            views == ns@.map_values(|n: Notification<Item>| notification_view(n)),
            action_views(out@) == pumped(views.take(i as int)),
        decreases ns.len() - i,
    {
        let mut more = notification_actions(&ns[i]);
        let ghost before = out@;
        let ghost added = more@;
        out.append(&mut more);
        proof {
            assert(views.take(i + 1).drop_last() =~= views.take(i as int));
            assert(views.take(i + 1).last() == notification_view(ns@[i as int]));
            assert(action_views(before + added) =~= action_views(before) + action_views(added));
        }
        i += 1;
    }
    assert(views.take(ns.len() as int) =~= views);
    out
}

/// The update that a reading of a changed item is published as; none
/// where there is no reading or it does not fit the item.
pub open spec fn update_of(it: ItemView, reading: Option<ValueView>) -> Option<MessageView> {
    match reading {
        None => None,
        Some(v) => match item_reading(it, v) {
            Ok(w) => Some(MessageView::Update(it.name(), w)),
            Err(_) => None,
        },
    }
}

/// What a reading holds, if there is one.
pub open spec fn reading_view(reading: Option<Value>) -> Option<ValueView> {
    match reading {
        Some(v) => Some(v@),
        None => None,
    }
}

/// The update to publish for a changed item, given what was read.
pub fn update_message(item: &Item, reading: Option<Value>) -> (r: Option<Message>)
    ensures
        match update_of(item@, reading_view(reading)) {
            Some(m) => r is Some && r->Some_0@ == m,
            None => r is None,
        },
{
    let v = match reading {
        Some(v) => v,
        None => {
            return None;
        },
    };
    match item.get_value(v) {
        Ok(w) => Some(Message::Update(item.get_name(), w)),
        Err(_) => None,
    }
}

/// What the pump asks of the binding for a message of the bus.
#[derive(Clone, Debug)]
pub enum BindingAction {
    /// Nothing: no command, or a command for an item that is not there.
    Drop,
    /// Write to the native value.
    Write(NativeId, DriverWrite),
    /// Put the controller of the home in the state.
    Control(u32, ControllerState),
    /// The command cannot be carried out; it is logged and skipped.
    Reject(DeviceError),
}

/// What a `BindingAction` holds.
pub enum BindingActionView {
    Drop,
    Write(NativeId, DriverWriteView),
    Control(u32, ControllerState),
    Reject(DeviceErrorView),
}

impl View for BindingAction {
    type V = BindingActionView;

    open spec fn view(&self) -> BindingActionView {
        match self {
            BindingAction::Drop => BindingActionView::Drop,
            BindingAction::Write(v, w) => BindingActionView::Write(*v, w@),
            BindingAction::Control(h, s) => BindingActionView::Control(*h, *s),
            BindingAction::Reject(e) => BindingActionView::Reject(e@),
        }
    }
}

/// What a command asks of an item, where `parsed` is what the decimal
/// parse of a trimmed text gave and `rendered` the decimal text of a number.
pub open spec fn item_action(
    it: ItemView,
    v: ValueView,
    parsed: Option<u64>,
    rendered: Seq<char>,
) -> BindingActionView {
    match it {
        ItemView::Value(z) => match write_of(z, v, parsed, rendered) {
            Ok(w) => BindingActionView::Write(native_of(z.value), w),
            Err(e) => BindingActionView::Reject(e),
        },
        ItemView::Controller(c) => match controller_state_of(v, rendered) {
            Ok(s) => BindingActionView::Control(c.home_id, s),
            Err(e) => BindingActionView::Reject(e),
        },
    }
}

/// What a message of the bus asks of the binding: only a command for
/// an item of the index asks for anything.
pub open spec fn message_action(
    index: DB,
    m: MessageView,
    parsed: Option<u64>,
    rendered: Seq<char>,
) -> BindingActionView {
    match m {
        MessageView::Command(name, v) => match index.item_of(name) {
            Some(it) => item_action(it, v, parsed, rendered),
            None => BindingActionView::Drop,
        },
        _ => BindingActionView::Drop,
    }
}

/// What a command asks of an item, given the decimal parse and text.
pub fn command_given(item: &Item, value: &Value, parsed: Option<u64>, rendered: String) -> (r:
    BindingAction)
    ensures
        r@ == item_action(item@, value@, parsed, rendered@),
{
    match item {
        Item::Value(z) => match z.write_given(value, parsed, rendered) {
            Ok(w) => BindingAction::Write(z.value.native_id(), w),
            Err(e) => BindingAction::Reject(e),
        },
        Item::Controller(c) => match c.state_given(value, rendered) {
            Ok(s) => BindingAction::Control(c.home_id, s),
            Err(e) => BindingAction::Reject(e),
        },
    }
}

/// What a message of the bus asks of the binding. The index is only
/// read. A message that is no command, and a command for a name that
/// the index does not hold, ask for nothing.
pub fn handle_message<C: NumberText>(index: &DB, message: &Message, codec: &C) -> (r:
    BindingAction)
    ensures
        exists|parsed: Option<u64>, rendered: Seq<char>|
            r@ == #[trigger] message_action(*index, message@, parsed, rendered),
        !(message@ is Command) ==> r@ is Drop,
        message@ matches MessageView::Command(name, _) ==> (index.item_of(name) is None ==> r@
            is Drop),
{
    let (name, value) = match message {
        Message::Command(name, value) => (name, value),
        _ => {
            assert(BindingActionView::Drop == message_action(
                *index,
                message@,
                None,
                Seq::<char>::empty(),
            ));
            return BindingAction::Drop;
        },
    };
    let item = match index.get_item(name) {
        Some(it) => it,
        None => {
            assert(BindingActionView::Drop == message_action(
                *index,
                message@,
                None,
                Seq::<char>::empty(),
            ));
            return BindingAction::Drop;
        },
    };
    let r = item.set_value(value, codec);
    let ghost (parsed, rendered) = choose|parsed: Option<u64>, rendered: Seq<char>|
        r@ == #[trigger] item_action(item@, value@, parsed, rendered);
    assert(r@ == message_action(*index, message@, parsed, rendered));
    r
}

/// What a reading of the driver is worth for an item: for a controller
/// the reading itself, for a device value the reading where its form is
/// that of the native type.
pub open spec fn item_reading(it: ItemView, reading: ValueView) -> Result<ValueView, DeviceErrorView> {
    match it {
        ItemView::Controller(_) => Ok(reading),
        ItemView::Value(z) => reading_of(z, reading),
    }
}

impl Item {
    /// What a reading of the driver is worth on the bus.
    pub fn get_value(&self, reading: Value) -> (r: Result<Value, DeviceError>)
        ensures
            match item_reading(self@, reading@) {
                Ok(v) => r is Ok && r->Ok_0@ == v,
                Err(e) => r is Err && r->Err_0@ == e,
            },
    {
        match self {
            Item::Controller(_) => Ok(reading),
            Item::Value(z) => z.get_value(reading),
        }
    }

    /// What setting the item to a value asks of the driver.
    pub fn set_value<C: NumberText>(&self, value: &Value, codec: &C) -> (r: BindingAction)
        ensures
            exists|parsed: Option<u64>, rendered: Seq<char>|
                r@ == #[trigger] item_action(self@, value@, parsed, rendered),
    {
        match self {
            Item::Value(z) => {
                let w = z.set_value(value, codec);
                let ghost (parsed, rendered) = choose|parsed: Option<u64>, rendered: Seq<char>|
                    crate::item::write_agrees(w, #[trigger] write_of(z@, value@, parsed, rendered));
                let r = match w {
                    Ok(w) => BindingAction::Write(z.value.native_id(), w),
                    Err(e) => BindingAction::Reject(e),
                };
                assert(r@ == item_action(self@, value@, parsed, rendered));
                r
            },
            Item::Controller(c) => {
                let s = c.set_value(value, codec);
                let ghost rendered = choose|rendered: Seq<char>|
                    match #[trigger] controller_state_of(value@, rendered) {
                        Ok(x) => s == Ok::<ControllerState, DeviceError>(x),
                        Err(e) => s is Err && s->Err_0@ == e,
                    };
                let r = match s {
                    Ok(s) => BindingAction::Control(c.home_id, s),
                    Err(e) => BindingAction::Reject(e),
                };
                assert(r@ == item_action(self@, value@, None, rendered));
                r
            },
        }
    }
}

/// Notifications are pumped in order: what two runs ask for, one after
/// the other, is what the whole run asks for.
pub proof fn pumped_in_order(a: Seq<Notification<ItemView>>, b: Seq<Notification<ItemView>>)
    ensures
        pumped(a + b) == pumped(a) + pumped(b),
    decreases b.len(),
{
    if b.len() == 0 {
        assert(a + b =~= a);
        assert(pumped(a) + pumped(b) =~= pumped(a));
    } else {
        assert((a + b).drop_last() =~= a + b.drop_last());
        assert((a + b).last() == b.last());
        pumped_in_order(a, b.drop_last());
        assert(pumped(a + b.drop_last()) + actions_of(b.last()) =~= pumped(a) + (pumped(
            b.drop_last(),
        ) + actions_of(b.last())));
    }
}

/// An item that is added, changes and goes has its metadata published,
/// its commands subscribed to, its value read and published, and its
/// commands unsubscribed from, in this order.
pub proof fn life_on_the_bus(it: ItemView)
    requires
        it.meta() is Some,
    ensures
        pumped(seq![Notification::Added(it), Notification::Changed(it), Notification::Removed(it)])
            == seq![
            BusActionView::Publish(MessageView::Meta(it.name(), it.meta()->Some_0)),
            BusActionView::Subscribe(it.name(), SubType::Command),
            BusActionView::ReadValue(it),
            BusActionView::Unsubscribe(it.name(), SubType::Command),
        ],
{
    let a = seq![Notification::Added(it)];
    let b = seq![Notification::Changed(it)];
    let c = seq![Notification::Removed(it)];
    assert(seq![Notification::Added(it), Notification::Changed(it), Notification::Removed(it)]
        =~= a + b + c);
    pumped_in_order(a + b, c);
    pumped_in_order(a, b);
    lemma_pumped_one(Notification::Added(it));
    lemma_pumped_one(Notification::Changed(it));
    lemma_pumped_one(Notification::Removed(it));
    assert(pumped(a) + pumped(b) + pumped(c) =~= seq![
        BusActionView::Publish(MessageView::Meta(it.name(), it.meta()->Some_0)),
        BusActionView::Subscribe(it.name(), SubType::Command),
        BusActionView::ReadValue(it),
        BusActionView::Unsubscribe(it.name(), SubType::Command),
    ]);
}

/// A native value that the driver reports as added, then changed, then
/// removed has, in this order, its metadata published, its commands
/// subscribed to, its value read and published, and its commands
/// unsubscribed from.
pub proof fn driver_to_bus_in_order(
    start: DB,
    added: DB,
    changed: DB,
    end: DB,
    rules: Seq<DeviceConfigView>,
    expose_unbound: bool,
    d: DescriptorView,
    name: Seq<char>,
    sent_added: Seq<Notification<ItemView>>,
    sent_changed: Seq<Notification<ItemView>>,
    sent_removed: Seq<Notification<ItemView>>,
)
    requires
        exposed(d),
        resolved_name(rules, expose_unbound, d) == Some(name),
        start.item_of(name) is None,
        start.name_of(native_of(d)) is None,
        stepped(start, added, rules, expose_unbound, DriverEventView::ValueAdded(d), sent_added, None, false),
        stepped(
            added,
            changed,
            rules,
            expose_unbound,
            DriverEventView::ValueChanged(d),
            sent_changed,
            None,
            false,
        ),
        stepped(
            changed,
            end,
            rules,
            expose_unbound,
            DriverEventView::ValueRemoved(d),
            sent_removed,
            None,
            false,
        ),
    ensures
        value_item(name, d).meta() is Some,
        pumped(sent_added + sent_changed + sent_removed) == seq![
            BusActionView::Publish(MessageView::Meta(name, value_item(name, d).meta()->Some_0)),
            BusActionView::Subscribe(name, SubType::Command),
            BusActionView::ReadValue(value_item(name, d)),
            BusActionView::Unsubscribe(name, SubType::Command),
        ],
{
    life_of_a_value(
        start,
        added,
        changed,
        end,
        rules,
        expose_unbound,
        d,
        name,
        sent_added,
        sent_changed,
        sent_removed,
    );
    let it = value_item(name, d);
    life_on_the_bus(it);
    assert(sent_added + sent_changed + sent_removed =~= seq![
        Notification::Added(it),
        Notification::Changed(it),
        Notification::Removed(it),
    ]);
}

proof fn lemma_pumped_one(n: Notification<ItemView>)
    ensures
        pumped(seq![n]) == actions_of(n),
{
    let s = seq![n];
    assert(s.drop_last() =~= Seq::empty());
    assert(pumped(s.drop_last()) =~= Seq::empty());
    assert(pumped(s) =~= actions_of(n));
}

/// A command for a name that the index does not hold asks for nothing,
/// whatever it carries.
pub proof fn unknown_command_dropped(
    index: DB,
    name: Seq<char>,
    v: ValueView,
    parsed: Option<u64>,
    rendered: Seq<char>,
)
    requires
        index.item_of(name) is None,
    ensures
        message_action(index, MessageView::Command(name, v), parsed, rendered)
            == BindingActionView::Drop,
{
}

} // verus!
