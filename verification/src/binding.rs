//! The binding side: what the events of the driver do to the device
//! index, and which notifications they raise.
use vstd::prelude::*;
use crate::class::ValueGenre;
use crate::config::{
    resolved_name, rule_views, DescriptorView, DeviceConfigView, ValueDescriptor, ZWaveConfig,
};
use crate::device::{native_of, NativeId, DB};
use crate::item::{ControllerItemView, ControllerState, Item, ItemView, ZWaveItemView};
use crate::text::{decimal, push_decimal, push_str, string_of};

verus! {

/// An event in the life of an item.
#[derive(Clone, Debug)]
pub enum Notification<T> {
    Changed(T),
    Added(T),
    Removed(T),
}

/// How a command of the controller went on.
#[derive(Clone, Copy, Debug, PartialEq, Eq, Structural)]
pub enum CommandOutcome {
    Starting,
    Completed,
    Failed,
    Other,
}

/// What the driver reports.
#[derive(Clone, Debug)]
pub enum DriverEvent {
    DriverReady(u32),
    ValueAdded(ValueDescriptor),
    ValueChanged(ValueDescriptor),
    ValueRemoved(ValueDescriptor),
    ControllerCommand(u32, CommandOutcome),
    DriverRemoved,
    Other,
}

/// What a `DriverEvent` holds.
pub enum DriverEventView {
    DriverReady(u32),
    ValueAdded(DescriptorView),
    ValueChanged(DescriptorView),
    ValueRemoved(DescriptorView),
    ControllerCommand(u32, CommandOutcome),
    DriverRemoved,
    Other,
}

impl View for DriverEvent {
    type V = DriverEventView;

    open spec fn view(&self) -> DriverEventView {
        match self {
            DriverEvent::DriverReady(h) => DriverEventView::DriverReady(*h),
            DriverEvent::ValueAdded(d) => DriverEventView::ValueAdded(d@),
            DriverEvent::ValueChanged(d) => DriverEventView::ValueChanged(d@),
            DriverEvent::ValueRemoved(d) => DriverEventView::ValueRemoved(d@),
            DriverEvent::ControllerCommand(h, o) => DriverEventView::ControllerCommand(*h, *o),
            DriverEvent::DriverRemoved => DriverEventView::DriverRemoved,
            DriverEvent::Other => DriverEventView::Other,
        }
    }
}

/// What one event leads to.
#[derive(Clone, Debug)]
pub struct Step {
    /// The notifications to send, in order.
    pub notifications: Vec<Notification<Item>>,
    /// The state that the controller is now in, where the event changed it.
    pub controller_state: Option<ControllerState>,
    /// The driver is gone, and the process with it.
    pub fatal: bool,
}

/// What a notification holds.
pub open spec fn notification_view(n: Notification<Item>) -> Notification<ItemView> {
    match n {
        Notification::Changed(it) => Notification::Changed(it@),
        Notification::Added(it) => Notification::Added(it@),
        Notification::Removed(it) => Notification::Removed(it@),
    }
}

impl Step {
    /// What the notifications hold, in order.
    pub open spec fn sent(&self) -> Seq<Notification<ItemView>> {
        self.notifications@.map_values(|n: Notification<Item>| notification_view(n))
    }
}

/// A value is exposed where its genre is basic or user and its type is
/// one that can be carried.
pub open spec fn exposed(d: DescriptorView) -> bool {
    (d.genre == ValueGenre::Basic || d.genre == ValueGenre::User) && d.value_type.supported()
}

pub fn should_expose(v: &ValueDescriptor) -> (r: bool)
    ensures
        r == exposed(v@),
{
    match v.genre {
        ValueGenre::Basic | ValueGenre::User => {},
        _ => {
            return false;
        },
    }
    v.value_type.is_supported()
}

/// The name of the item of a controller.
pub open spec fn controller_name(home_id: u32) -> Seq<char> {
    "zwave_"@ + decimal(home_id as nat) + "_Controller"@
}

pub fn make_controller_name(home_id: u32) -> (r: String)
    ensures
        r@ == controller_name(home_id),
{
    let mut out: Vec<char> = Vec::new();
    push_str(&mut out, "zwave_");
    push_decimal(&mut out, home_id as u64);
    push_str(&mut out, "_Controller");
    string_of(&out)
}

/// The item of a device value under a name.
pub open spec fn value_item(name: Seq<char>, d: DescriptorView) -> ItemView {
    ItemView::Value(ZWaveItemView { name, value: d })
}

/// The index after the event holds what the index before it held.
pub open spec fn same_index(pre: DB, post: DB) -> bool {
    &&& forall|v: NativeId| #[trigger] post.name_of(v) == pre.name_of(v)
    &&& forall|n: Seq<char>| #[trigger] post.item_of(n) == pre.item_of(n)
    &&& post.count() == pre.count()
}

/// The item that a name stands for, or the item of the value under
/// that name where it stands for none.
pub open spec fn item_or_fresh(db: DB, name: Seq<char>, d: DescriptorView) -> ItemView {
    match db.item_of(name) {
        Some(it) => it,
        None => value_item(name, d),
    }
}

/// What an event does: the index after it, the notifications that it
/// raises, the state it puts the controller in, and whether it is fatal.
pub open spec fn stepped(
    pre: DB,
    post: DB,
    rules: Seq<DeviceConfigView>,
    expose_unbound: bool,
    event: DriverEventView,
    sent: Seq<Notification<ItemView>>,
    controller_state: Option<ControllerState>,
    fatal: bool,
) -> bool {
    match event {
        DriverEventView::ValueAdded(d) => {
            &&& !fatal
            &&& controller_state is None
            &&& if !exposed(d) {
                same_index(pre, post) && sent == Seq::<Notification<ItemView>>::empty()
            } else {
                match resolved_name(rules, expose_unbound, d) {
                    None => same_index(pre, post) && sent == Seq::<Notification<ItemView>>::empty(),
                    Some(name) => match pre.item_of(name) {
                        Some(existing) => same_index(pre, post) && sent == seq![
                            Notification::Added(existing),
                        ],
                        None => match pre.name_of(native_of(d)) {
                            Some(other) => same_index(pre, post) && sent == seq![
                                Notification::Added(item_or_fresh(pre, other, d)),
                            ],
                            None => {
                                &&& sent == seq![Notification::Added(value_item(name, d))]
                                &&& post.count() == pre.count() + 1
                                &&& forall|v: NativeId|
                                    #[trigger] post.name_of(v) == if v == native_of(d) {
                                        Some(name)
                                    } else {
                                        pre.name_of(v)
                                    }
                                &&& forall|n: Seq<char>|
                                    #[trigger] post.item_of(n) == if n == name {
                                        Some(value_item(name, d))
                                    } else {
                                        pre.item_of(n)
                                    }
                            },
                        },
                    },
                }
            }
        },
        DriverEventView::ValueChanged(d) => {
            &&& !fatal
            &&& controller_state is None
            &&& same_index(pre, post)
            &&& sent == if exposed(d) && pre.name_of(native_of(d)) is Some {
                seq![
                    Notification::Changed(item_or_fresh(pre, pre.name_of(native_of(d))->Some_0, d)),
                ]
            } else {
                Seq::<Notification<ItemView>>::empty()
            }
        },
        DriverEventView::ValueRemoved(d) => {
            &&& !fatal
            &&& controller_state is None
            &&& if exposed(d) && pre.name_of(native_of(d)) is Some {
                let name = pre.name_of(native_of(d))->Some_0;
                &&& sent == seq![Notification::Removed(item_or_fresh(pre, name, d))]
                &&& forall|v: NativeId|
                    #[trigger] post.name_of(v) == if v == native_of(d) {
                        None
                    } else {
                        pre.name_of(v)
                    }
                &&& forall|n: Seq<char>|
                    #[trigger] post.item_of(n) == if n == name {
                        None
                    } else {
                        pre.item_of(n)
                    }
            } else {
                same_index(pre, post) && sent == Seq::<Notification<ItemView>>::empty()
            }
        },
        DriverEventView::DriverReady(home_id) => {
            let name = controller_name(home_id);
            let it = ItemView::Controller(ControllerItemView { name, home_id });
            &&& !fatal
            &&& controller_state == Some(ControllerState::Idle)
            &&& match pre.item_of(name) {
                Some(existing) => same_index(pre, post) && sent == seq![
                    Notification::Added(existing),
                    Notification::Changed(existing),
                ],
                None => {
                    &&& sent == seq![Notification::Added(it), Notification::Changed(it)]
                    &&& post.count() == pre.count() + 1
                    &&& forall|v: NativeId| #[trigger] post.name_of(v) == pre.name_of(v)
                    &&& forall|n: Seq<char>|
                        #[trigger] post.item_of(n) == if n == name {
                            Some(it)
                        } else {
                            pre.item_of(n)
                        }
                },
            }
        },
        DriverEventView::ControllerCommand(home_id, outcome) => {
            &&& !fatal
            &&& same_index(pre, post)
            &&& match pre.item_of(controller_name(home_id)) {
                None => sent == Seq::<Notification<ItemView>>::empty() && controller_state is None,
                Some(it) => match outcome {
                    CommandOutcome::Completed => sent == seq![Notification::Changed(it)]
                        && controller_state == Some(ControllerState::Idle),
                    CommandOutcome::Failed => sent == seq![Notification::Changed(it)]
                        && controller_state == Some(ControllerState::Failed),
                    CommandOutcome::Starting => sent == seq![Notification::Changed(it)]
                        && controller_state is None,
                    CommandOutcome::Other => sent == Seq::<Notification<ItemView>>::empty()
                        && controller_state is None,
                },
            }
        },
        DriverEventView::DriverRemoved => {
            &&& fatal
            &&& controller_state is None
            &&& same_index(pre, post)
            &&& sent == Seq::<Notification<ItemView>>::empty()
        },
        DriverEventView::Other => {
            &&& !fatal
            &&& controller_state is None
            &&& same_index(pre, post)
            &&& sent == Seq::<Notification<ItemView>>::empty()
        },
    }
}

fn quiet() -> (r: Step)
    ensures
        r.sent() == Seq::<Notification<ItemView>>::empty(),
        r.controller_state is None,
        !r.fatal,
{
    let r = Step { notifications: Vec::new(), controller_state: None, fatal: false };
    assert(r.sent() =~= Seq::<Notification<ItemView>>::empty());
    r
}

fn one(n: Notification<Item>, controller_state: Option<ControllerState>) -> (r: Step)
    ensures
        r.sent() == seq![notification_view(n)],
        r.controller_state == controller_state,
        !r.fatal,
{
    let mut notifications: Vec<Notification<Item>> = Vec::new();
    notifications.push(n);
    let r = Step { notifications, controller_state, fatal: false };
    assert(r.sent() =~= seq![notification_view(n)]);
    r
}

fn indexed_or_fresh(index: &DB, name: &String, d: ValueDescriptor) -> (r: Item)
    ensures
        r@ == item_or_fresh(*index, name@, d@),
{
    match index.get_item(name) {
        Some(it) => it.duplicate(),
        None => Item::item(name.as_str(), d),
    }
}

/// Takes one event of the driver: brings the index up to date and says
/// which notifications to send.
pub fn process_event(index: &mut DB, cfg: &ZWaveConfig, event: DriverEvent) -> (r: Step)
    requires
        old(index).wf(),
    ensures
        final(index).wf(),
        stepped(
            *old(index),
            *final(index),
            rule_views(cfg.device@),
            cfg.expose_unbound,
            event@,
            r.sent(),
            r.controller_state,
            r.fatal,
        ),
        old(index).consistent() ==> final(index).consistent(),
{
    match event {
        DriverEvent::DriverReady(home_id) => {
            let name = make_controller_name(home_id);
            let known = match index.get_item(&name) {
                Some(existing) => Some(existing.duplicate()),
                None => None,
            };
            let controller = match known {
                Some(existing) => existing,
                None => {
                    let made = Item::controller(name.as_str(), home_id);
                    index.add_item(name, made.duplicate());
                    made
                },
            };
            let ghost shown = controller@;
            let mut notifications: Vec<Notification<Item>> = Vec::new();
            notifications.push(Notification::Added(controller.duplicate()));
            notifications.push(Notification::Changed(controller));
            let r = Step {
                notifications,
                controller_state: Some(ControllerState::Idle),
                fatal: false,
            };
            assert(r.sent() =~= seq![Notification::Added(shown), Notification::Changed(shown)]);
            r
        },
        DriverEvent::ValueAdded(d) => {
            if !should_expose(&d) {
                return quiet();
            }
            let name = match cfg.resolve_name(&d) {
                Some(n) => n,
                None => {
                    return quiet();
                },
            };
            match index.get_item(&name) {
                Some(existing) => {
                    return one(Notification::Added(existing.duplicate()), None);
                },
                None => {},
            }
            let native = d.native_id();
            let bound = match index.get_name(&native) {
                Some(other) => Some(other.clone()),
                None => None,
            };
            match bound {
                Some(other) => {
                    let it = indexed_or_fresh(index, &other, d);
                    one(Notification::Added(it), None)
                },
                None => {
                    let it = index.add_value(name, d);
                    one(Notification::Added(it), None)
                },
            }
        },
        DriverEvent::ValueChanged(d) => {
            if !should_expose(&d) {
                return quiet();
            }
            let native = d.native_id();
            let name = match index.get_name(&native) {
                Some(n) => n.clone(),
                None => {
                    return quiet();
                },
            };
            let it = indexed_or_fresh(index, &name, d);
            one(Notification::Changed(it), None)
        },
        DriverEvent::ValueRemoved(d) => {
            if !should_expose(&d) {
                return quiet();
            }
            let native = d.native_id();
            let name = match index.get_name(&native) {
                Some(n) => n.clone(),
                None => {
                    return quiet();
                },
            };
            let it = match index.remove_value(&native) {
                Some(it) => it,
                None => Item::item(name.as_str(), d),
            };
            one(Notification::Removed(it), None)
        },
        DriverEvent::ControllerCommand(home_id, outcome) => {
            let name = make_controller_name(home_id);
            let controller = match index.get_item(&name) {
                Some(c) => c.duplicate(),
                None => {
                    return quiet();
                },
            };
            match outcome {
                CommandOutcome::Completed => one(
                    Notification::Changed(controller),
                    Some(ControllerState::Idle),
                ),
                CommandOutcome::Failed => one(
                    Notification::Changed(controller),
                    Some(ControllerState::Failed),
                ),
                CommandOutcome::Starting => one(Notification::Changed(controller), None),
                CommandOutcome::Other => quiet(),
            }
        },
        DriverEvent::DriverRemoved => {
            let r = Step { notifications: Vec::new(), controller_state: None, fatal: true };
            assert(r.sent() =~= Seq::<Notification<ItemView>>::empty());
            r
        },
        DriverEvent::Other => quiet(),
    }
}

/// Two distinct native values that resolve to one name, discovered one
/// after the other, leave one entry in the index: the name stands for
/// the item of the first, and the notification for the second carries
/// that same item.
pub proof fn duplicate_discovery(
    start: DB,
    between: DB,
    end: DB,
    rules: Seq<DeviceConfigView>,
    expose_unbound: bool,
    first: DescriptorView,
    second: DescriptorView,
    name: Seq<char>,
    sent_first: Seq<Notification<ItemView>>,
    sent_second: Seq<Notification<ItemView>>,
)
    requires
        native_of(first) != native_of(second),
        exposed(first),
        exposed(second),
        resolved_name(rules, expose_unbound, first) == Some(name),
        resolved_name(rules, expose_unbound, second) == Some(name),
        start.item_of(name) is None,
        start.name_of(native_of(first)) is None,
        stepped(
            start,
            between,
            rules,
            expose_unbound,
            DriverEventView::ValueAdded(first),
            sent_first,
            None,
            false,
        ),
        stepped(
            between,
            end,
            rules,
            expose_unbound,
            DriverEventView::ValueAdded(second),
            sent_second,
            None,
            false,
        ),
    ensures
        sent_first == seq![Notification::Added(value_item(name, first))],
        sent_second == seq![Notification::Added(value_item(name, first))],
        end.item_of(name) == Some(value_item(name, first)),
        end.name_of(native_of(first)) == Some(name),
        end.name_of(native_of(second)) == start.name_of(native_of(second)),
        end.count() == start.count() + 1,
{
    assert(between.item_of(name) == Some(value_item(name, first)));
    assert(between.name_of(native_of(first)) == Some(name));
    assert(between.name_of(native_of(second)) == start.name_of(native_of(second)));
    assert(end.item_of(name) == between.item_of(name));
    assert(end.name_of(native_of(first)) == between.name_of(native_of(first)));
    assert(end.name_of(native_of(second)) == between.name_of(native_of(second)));
}

/// A native value that is discovered, changes and goes raises `Added`,
/// `Changed` and `Removed` for one and the same item, and leaves the
/// index as it was.
pub proof fn life_of_a_value(
    start: DB,
    added: DB,
    changed: DB,
    end: DB,
    rules: Seq<DeviceConfigView>,
    expose_unbound: bool,
    d: DescriptorView,
    name: Seq<char>,
    sent_added: Seq<Notification<ItemView>>,
    sent_changed: Seq<Notification<ItemView>>,
    sent_removed: Seq<Notification<ItemView>>,
)
    requires
        exposed(d),
        resolved_name(rules, expose_unbound, d) == Some(name),
        start.item_of(name) is None,
        start.name_of(native_of(d)) is None,
        stepped(start, added, rules, expose_unbound, DriverEventView::ValueAdded(d), sent_added, None, false),
        stepped(
            added,
            changed,
            rules,
            expose_unbound,
            DriverEventView::ValueChanged(d),
            sent_changed,
            None,
            false,
        ),
        stepped(
            changed,
            end,
            rules,
            expose_unbound,
            DriverEventView::ValueRemoved(d),
            sent_removed,
            None,
            false,
        ),
    ensures
        sent_added == seq![Notification::Added(value_item(name, d))],
        sent_changed == seq![Notification::Changed(value_item(name, d))],
        sent_removed == seq![Notification::Removed(value_item(name, d))],
        forall|v: NativeId| #[trigger] end.name_of(v) == start.name_of(v),
        forall|n: Seq<char>| #[trigger] end.item_of(n) == start.item_of(n),
{
    assert(added.item_of(name) == Some(value_item(name, d)));
    assert(added.name_of(native_of(d)) == Some(name));
    assert(changed.name_of(native_of(d)) == added.name_of(native_of(d)));
    assert(changed.item_of(name) == added.item_of(name));
    assert forall|v: NativeId| #[trigger] end.name_of(v) == start.name_of(v) by {
        assert(changed.name_of(v) == added.name_of(v));
    }
    assert forall|n: Seq<char>| #[trigger] end.item_of(n) == start.item_of(n) by {
        assert(changed.item_of(n) == added.item_of(n));
    }
}

} // verus!
