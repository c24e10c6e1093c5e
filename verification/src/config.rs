//! The configuration of the bridge, and the resolution of a native
//! device value to the name that the configuration gives it.
use vstd::prelude::*;
use crate::class::{CommandClass, ValueGenre, ValueType};
use crate::text::{
    decimal, eq_ignore_case, push_decimal, push_str, same_ignoring_case, string_of,
};

verus! {

/// The base of every topic where the configuration names none.
pub const MQTT_BASE_DEFAULT: &'static str = "catt/items";

/// The quality of service where the configuration names none.
pub const MQTT_QOS_DEFAULT: u8 = 0;

/// The two halves of a configuration file.
#[derive(Clone, Debug)]
pub struct Config<B, C> {
    pub bus: Option<B>,
    pub binding: Option<C>,
}

/// How to reach the broker.
#[derive(Clone, Debug)]
pub struct BrokerConfig {
    pub broker: String,
    pub item_base: Option<String>,
    pub client_id: Option<String>,
    pub qos: Option<u8>,
    pub tls: Option<bool>,
}

/// The Z-Wave side: the controller, the rules, and whether values that
/// no rule matches are exposed.
#[derive(Clone, Debug)]
pub struct ZWaveConfig {
    pub port: Option<String>,
    pub sys_config: Option<String>,
    pub user_config: Option<String>,
    pub device: Vec<DeviceConfig>,
    pub expose_unbound: bool,
}

/// A rule that gives a name to the values of one node.
#[derive(Clone, Debug)]
pub struct DeviceConfig {
    pub name: String,
    pub id: u64,
    pub command_class: Option<String>,
    pub value_type: Option<String>,
    pub label: Option<String>,
}

impl<B, C> Default for Config<B, C> {
    fn default() -> (r: Config<B, C>)
        ensures
            r.bus is None,
            r.binding is None,
    {
        Config { bus: None, binding: None }
    }
}

impl Default for BrokerConfig {
    fn default() -> (r: BrokerConfig)
        ensures
            r.broker@ == Seq::<char>::empty(),
            r.item_base is None,
            r.client_id is None,
            r.qos is None,
            r.tls is None,
    {
        BrokerConfig {
            broker: String::new(),
            item_base: None,
            client_id: None,
            qos: None,
            tls: None,
        }
    }
}

impl Default for ZWaveConfig {
    /// No rules, and unbound values exposed.
    fn default() -> (r: ZWaveConfig)
        ensures
            r.port is None,
            r.sys_config is None,
            r.user_config is None,
            r.device@ == Seq::<DeviceConfig>::empty(),
            r.expose_unbound,
    {
        ZWaveConfig {
            port: None,
            sys_config: None,
            user_config: None,
            device: Vec::new(),
            expose_unbound: true,
        }
    }
}

impl Default for DeviceConfig {
    fn default() -> (r: DeviceConfig)
        ensures
            r@ == (DeviceConfigView {
                name: Seq::empty(),
                id: 0,
                command_class: None,
                value_type: None,
                label: None,
            }),
    {
        DeviceConfig {
            name: String::new(),
            id: 0,
            command_class: None,
            value_type: None,
            label: None,
        }
    }
}

/// What a rule holds.
pub struct DeviceConfigView {
    pub name: Seq<char>,
    pub id: u64,
    pub command_class: Option<Seq<char>>,
    pub value_type: Option<Seq<char>>,
    pub label: Option<Seq<char>>,
}

impl View for DeviceConfig {
    type V = DeviceConfigView;

    open spec fn view(&self) -> DeviceConfigView {
        DeviceConfigView {
            name: self.name@,
            id: self.id,
            command_class: self.command_class.deep_view(),
            value_type: self.value_type.deep_view(),
            label: self.label.deep_view(),
        }
    }
}

/// What the driver tells of a native device value.
#[derive(Clone, Debug)]
pub struct ValueDescriptor {
    /// The driver's own identifier of the value.
    pub id: u64,
    pub home_id: u32,
    pub node_id: u8,
    pub genre: ValueGenre,
    /// The command class, where it is one that rules can name.
    pub command_class: Option<CommandClass>,
    pub value_type: ValueType,
    pub label: String,
}

/// What a descriptor holds.
pub struct DescriptorView {
    pub id: u64,
    pub home_id: u32,
    pub node_id: u8,
    pub genre: ValueGenre,
    pub command_class: Option<CommandClass>,
    pub value_type: ValueType,
    pub label: Seq<char>,
}

impl View for ValueDescriptor {
    type V = DescriptorView;

    open spec fn view(&self) -> DescriptorView {
        DescriptorView {
            id: self.id,
            home_id: self.home_id,
            node_id: self.node_id,
            genre: self.genre,
            command_class: self.command_class,
            value_type: self.value_type,
            label: self.label@,
        }
    }
}

impl ValueDescriptor {
    /// A copy of the descriptor.
    pub fn duplicate(&self) -> (r: ValueDescriptor)
        ensures
            r@ == self@,
    {
        ValueDescriptor {
            id: self.id,
            home_id: self.home_id,
            node_id: self.node_id,
            genre: self.genre,
            command_class: self.command_class,
            value_type: self.value_type,
            label: self.label.clone(),
        }
    }
}

/// The class that a rule names is the class of the value.
pub open spec fn class_matches(rule: Seq<char>, v: DescriptorView) -> bool {
    CommandClass::named(rule) is Some && CommandClass::named(rule) == v.command_class
}

/// The type that a rule names is the type of the value, integer types
/// taken as one and a decimal as a float.
pub open spec fn type_matches(rule: Seq<char>, v: DescriptorView) -> bool {
    same_ignoring_case(rule, v.value_type.rule_name())
}

/// The label that a rule names is the label of the value.
pub open spec fn label_matches(rule: Seq<char>, v: DescriptorView) -> bool {
    same_ignoring_case(rule, v.label)
}

/// A rule names a field that the value does not match.
pub open spec fn rejects(rule: DeviceConfigView, v: DescriptorView) -> bool {
    ||| rule.command_class matches Some(c) && !class_matches(c, v)
    ||| rule.value_type matches Some(t) && !type_matches(t, v)
    ||| rule.label matches Some(l) && !label_matches(l, v)
}

/// The number of optional fields that a rule names.
pub open spec fn fields_set(rule: DeviceConfigView) -> nat {
    (if rule.command_class is Some { 1nat } else { 0 }) + (if rule.value_type is Some { 1nat } else { 0 })
        + (if rule.label is Some { 1nat } else { 0 })
}

/// How strongly a rule matches a value: 0 where it does not apply or
/// names a field that the value fails, else 1 and 1 more for each field
/// that it names.
pub open spec fn strength(rule: DeviceConfigView, v: DescriptorView) -> nat {
    if v.genre != ValueGenre::User || rule.id != v.node_id as u64 || rejects(rule, v) {
        0
    } else {
        1 + fields_set(rule)
    }
}

/// The first rule of greatest strength among the first `n`, if any of
/// them matches at all.
pub open spec fn best_among(rules: Seq<DeviceConfigView>, v: DescriptorView, n: nat) -> Option<int>
    decreases n,
{
    if n == 0 {
        None
    } else {
        let last = n - 1;
        match best_among(rules, v, last as nat) {
            None => if strength(rules[last], v) > 0 {
                Some(last)
            } else {
                None
            },
            Some(i) => if strength(rules[last], v) > strength(rules[i], v) {
                Some(last)
            } else {
                Some(i)
            },
        }
    }
}

/// The rule that names the value: the first of greatest strength.
pub open spec fn best_rule(rules: Seq<DeviceConfigView>, v: DescriptorView) -> Option<int> {
    best_among(rules, v, rules.len())
}

/// The best rule is the first of greatest strength, and there is one as
/// soon as any rule matches.
pub proof fn lemma_best_among(rules: Seq<DeviceConfigView>, v: DescriptorView, n: nat)
    requires
        n <= rules.len(),
    ensures
        match best_among(rules, v, n) {
            Some(i) => {
                &&& 0 <= i < n
                &&& strength(rules[i], v) > 0
                &&& forall|j: int| 0 <= j < n ==> strength(#[trigger] rules[j], v) <= strength(rules[i], v)
                &&& forall|j: int| 0 <= j < i ==> strength(#[trigger] rules[j], v) < strength(rules[i], v)
            },
            None => forall|j: int| 0 <= j < n ==> strength(#[trigger] rules[j], v) == 0,
        },
    decreases n,
{
    if n > 0 {
        lemma_best_among(rules, v, (n - 1) as nat);
    }
}

/// The name made up for a value that no rule names.
pub open spec fn unbound_name(v: DescriptorView) -> Seq<char> {
    "zwave_"@ + decimal(v.home_id as nat) + "_"@ + decimal(v.node_id as nat) + "_"@ + v.label
}

/// The name of a value under the rules: that of the best rule; without
/// one, a made-up name where unbound values are exposed, else none.
pub open spec fn resolved_name(
    rules: Seq<DeviceConfigView>,
    expose_unbound: bool,
    v: DescriptorView,
) -> Option<Seq<char>> {
    match best_rule(rules, v) {
        Some(i) => Some(rules[i].name),
        None => if expose_unbound {
            Some(unbound_name(v))
        } else {
            None
        },
    }
}

/// The views of the rules, in order.
pub open spec fn rule_views(rules: Seq<DeviceConfig>) -> Seq<DeviceConfigView> {
    rules.map_values(|r: DeviceConfig| r@)
}

impl DeviceConfig {
    /// How strongly the rule matches the value.
    pub fn strength(&self, v: &ValueDescriptor) -> (r: u8)
        ensures
            r == strength(self@, v@),
    {
        if v.genre != ValueGenre::User || self.id != v.node_id as u64 {
            return 0;
        }
        let mut s: u8 = 1;
        match &self.command_class {
            Some(c) => {
                let fits = match (CommandClass::from_str(c.as_str()), v.command_class) {
                    (Some(a), Some(b)) => a == b,
                    _ => false,
                };
                if !fits {
                    return 0;
                }
                s = s + 1;
            },
            None => {},
        }
        match &self.value_type {
            Some(t) => {
                if !eq_ignore_case(t.as_str(), v.value_type.to_rule_name()) {
                    return 0;
                }
                s = s + 1;
            },
            None => {},
        }
        match &self.label {
            Some(l) => {
                if !eq_ignore_case(l.as_str(), v.label.as_str()) {
                    return 0;
                }
                s = s + 1;
            },
            None => {},
        }
        s
    }

    /// The rule matches the value at all.
    pub fn matches(&self, v: &ValueDescriptor) -> (r: bool)
        ensures
            r == (strength(self@, v@) > 0),
    {
        self.strength(v) > 0
    }
}

impl ZWaveConfig {
    /// The name that the best rule gives the value, if any rule matches.
    pub fn lookup_device(&self, v: &ValueDescriptor) -> (r: Option<String>)
        ensures
            r.deep_view() == match best_rule(rule_views(self.device@), v@) {
                Some(i) => Some(self.device@[i].name@),
                None => None,
            },
    {
        let ghost rules = rule_views(self.device@);
        let mut best: Option<usize> = None;
        let mut best_strength: u8 = 0;
        let mut i: usize = 0;
        while i < self.device.len()
            invariant
                i <= self.device.len(),
                rules == rule_views(self.device@),
                rules.len() == self.device.len(),
                best_among(rules, v@, i as nat) == match best {
                    Some(b) => Some(b as int),
                    None => None,
                },
                best matches Some(b) ==> b < i && best_strength == strength(rules[b as int], v@),
                best is None ==> best_strength == 0,
            decreases self.device.len() - i,
        {
            let s = self.device[i].strength(v);
            assert(rules[i as int] == self.device@[i as int]@);
            if s > best_strength {
                best = Some(i);
                best_strength = s;
            }
            i += 1;
        }
        match best {
            Some(b) => Some(self.device[b].name.clone()),
            None => None,
        }
    }

    /// The name of the value under this configuration.
    pub fn resolve_name(&self, v: &ValueDescriptor) -> (r: Option<String>)
        ensures
            r.deep_view() == resolved_name(rule_views(self.device@), self.expose_unbound, v@),
    {
        proof {
            let rules = rule_views(self.device@);
            lemma_best_among(rules, v@, rules.len());
            if let Some(i) = best_rule(rules, v@) {
                assert(rules[i] == self.device@[i]@);
            }
        }
        match self.lookup_device(v) {
            Some(name) => Some(name),
            None => if self.expose_unbound {
                Some(make_unbound_name(v))
            } else {
                None
            },
        }
    }
}

/// The name made up for a value that no rule names.
pub fn make_unbound_name(v: &ValueDescriptor) -> (r: String)
    ensures
        r@ == unbound_name(v@),
{
    let mut out: Vec<char> = Vec::new();
    push_str(&mut out, "zwave_");
    push_decimal(&mut out, v.home_id as u64);
    push_str(&mut out, "_");
    push_decimal(&mut out, v.node_id as u64);
    push_str(&mut out, "_");
    push_str(&mut out, v.label.as_str());
    assert(out@ =~= unbound_name(v@));
    string_of(&out)
}

/// A rule that is stronger than every other rule is the best rule,
/// wherever it stands in the list.
pub proof fn strongest_rule_wins(rules: Seq<DeviceConfigView>, v: DescriptorView, i: int)
    requires
        0 <= i < rules.len(),
        strength(rules[i], v) > 0,
        forall|j: int|
            0 <= j < rules.len() && j != i ==> strength(#[trigger] rules[j], v) < strength(
                rules[i],
                v,
            ),
    ensures
        best_rule(rules, v) == Some(i),
{
    lemma_best_among(rules, v, rules.len());
}

/// Of two rules for the node of a value, one that names nothing but the
/// node and one that also names the command class and the label of the
/// value, the second gives the value its name, in either order.
pub proof fn specific_rule_wins(
    plain: DeviceConfigView,
    specific: DeviceConfigView,
    expose_unbound: bool,
    v: DescriptorView,
)
    requires
        v.genre == ValueGenre::User,
        plain.id == v.node_id,
        specific.id == v.node_id,
        plain.command_class is None && plain.value_type is None && plain.label is None,
        specific.value_type is None,
        specific.command_class matches Some(c) && class_matches(c, v),
        specific.label matches Some(l) && label_matches(l, v),
    ensures
        strength(plain, v) == 1,
        strength(specific, v) == 3,
        best_rule(seq![plain, specific], v) == Some(1int),
        best_rule(seq![specific, plain], v) == Some(0int),
        resolved_name(seq![plain, specific], expose_unbound, v) == Some(specific.name),
        resolved_name(seq![specific, plain], expose_unbound, v) == Some(specific.name),
{
    strongest_rule_wins(seq![plain, specific], v, 1);
    strongest_rule_wins(seq![specific, plain], v, 0);
}

/// A rule that names a field which the value fails has strength 0,
/// whatever else it names.
pub proof fn hard_reject(rule: DeviceConfigView, v: DescriptorView)
    requires
        rejects(rule, v),
    ensures
        strength(rule, v) == 0,
{
}

/// A rule for the type `bool` has strength 0 for a value of an integer
/// type, also where the node matches.
pub proof fn bool_rule_rejects_int(rule: DeviceConfigView, v: DescriptorView)
    requires
        rule.value_type matches Some(t) && same_ignoring_case(t, "bool"@),
        v.value_type is Byte || v.value_type is Short || v.value_type is Int,
    ensures
        v.value_type.rule_name() == "int"@,
        strength(rule, v) == 0,
{
    reveal_strlit("bool");
    reveal_strlit("int");
}

/// Without a matching rule a value gets a name only where unbound
/// values are exposed.
pub proof fn unbound_policy(rules: Seq<DeviceConfigView>, expose_unbound: bool, v: DescriptorView)
    requires
        forall|j: int| 0 <= j < rules.len() ==> strength(#[trigger] rules[j], v) == 0,
    ensures
        resolved_name(rules, expose_unbound, v) == if expose_unbound {
            Some(unbound_name(v))
        } else {
            None
        },
{
    lemma_best_among(rules, v, rules.len());
}

} // verus!
