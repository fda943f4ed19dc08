//! Thunderbolt connection data, read from the JSON that
//! `system_profiler SPNetworkDataType SPThunderboltDataType -json` prints.
//!
//! The JSON text is parsed by `serde_json` and carried into a [`JsonValue`],
//! from which the Thunderbolt data is read.

use vstd::prelude::*;

verus! {

/// A JSON document.
///
/// The entries of an object are meant to have distinct keys; a lookup takes
/// the first entry with the key. A number is kept as its text, which this
/// library never reads.
#[derive(Debug)]
pub enum JsonValue {
    Null,
    Bool(bool),
    Number(String),
    Str(String),
    Array(Vec<JsonValue>),
    Object(Vec<(String, JsonValue)>),
}

/// The value of the first entry named `key` among `entries`.
pub open spec fn field_in(entries: Seq<(String, JsonValue)>, key: Seq<char>) -> Option<JsonValue>
    decreases entries.len(),
{
    if entries.len() == 0 {
        None
    } else if entries[0].0@ == key {
        Some(entries[0].1)
    } else {
        field_in(entries.drop_first(), key)
    }
}

/// The member `key` of `v`: `None` when `v` is not an object or has no such
/// member (where `value[key]` of serde_json gives `null`).
pub open spec fn spec_field(v: JsonValue, key: Seq<char>) -> Option<JsonValue> {
    match v {
        JsonValue::Object(entries) => field_in(entries@, key),
        _ => None,
    }
}

/// The text of `v` when it is a string.
pub open spec fn spec_as_str(v: Option<JsonValue>) -> Option<Seq<char>> {
    match v {
        Some(JsonValue::Str(s)) => Some(s@),
        _ => None,
    }
}

/// The elements of `v` when it is an array.
pub open spec fn spec_as_array(v: Option<JsonValue>) -> Option<Seq<JsonValue>> {
    match v {
        Some(JsonValue::Array(a)) => Some(a@),
        _ => None,
    }
}

/// The JSON value type of `serde_json`, which the parser produces.
#[verifier::external_type_specification]
#[verifier::external_body]
pub struct ExSerdeJsonValue(serde_json::Value);

/// The JSON document that `serde_json::from_slice` reads from `data`, as a
/// [`JsonValue`]; `None` when `serde_json` refuses the bytes.
pub uninterp spec fn json_document(data: Seq<u8>) -> Option<JsonValue>;

/// `serde_json::from_slice::<serde_json::Value>`, with its result carried
/// into a [`JsonValue`]. The parse depends on the bytes alone; its result is
/// named [`json_document`], and nothing more of JSON is stated here.
#[verifier::external_body]
fn parse_json(data: &[u8]) -> (r: Option<JsonValue>)
    ensures
        r == json_document(data@),
{
    serde_json::from_slice::<serde_json::Value>(data).ok().map(json_from_serde)
}

/// Carries a `serde_json::Value` into a [`JsonValue`], variant by variant:
/// a number is kept as its text, and the members of an object in the order
/// in which `serde_json` holds them. Only [`parse_json`] calls it.
#[verifier::external_body]
fn json_from_serde(v: serde_json::Value) -> JsonValue {
    match v {
        serde_json::Value::Null => JsonValue::Null,
        serde_json::Value::Bool(b) => JsonValue::Bool(b),
        serde_json::Value::Number(n) => JsonValue::Number(n.to_string()),
        serde_json::Value::String(t) => JsonValue::Str(t),
        serde_json::Value::Array(a) => JsonValue::Array(a.into_iter().map(json_from_serde).collect()),
        serde_json::Value::Object(o) => JsonValue::Object(o.into_iter().map(|(k, x)| (k, json_from_serde(x))).collect()),
    }
}

/// The member `key` of `v`.
fn field<'a>(v: &'a JsonValue, key: &String) -> (r: Option<&'a JsonValue>)
    ensures
        match r {
            Some(x) => spec_field(*v, key@) == Some(*x),
            None => spec_field(*v, key@) is None,
        },
{
    match v {
        JsonValue::Object(entries) => {
            let mut i: usize = 0;
            assert(entries@.skip(0) =~= entries@);
            while i < entries.len()
                invariant
                    i <= entries@.len(),
                    field_in(entries@, key@) == field_in(entries@.skip(i as int), key@),
                    spec_field(*v, key@) == field_in(entries@, key@),
                decreases entries@.len() - i,
            {
                let ghost rest = entries@.skip(i as int);
                assert(rest[0] == entries@[i as int]);
                if entries[i].0 == *key {
                    assert(rest.len() > 0 && rest[0].0@ == key@);
                    assert(field_in(rest, key@) == Some(rest[0].1));
                    return Some(&entries[i].1);
                }
                assert(rest.drop_first() =~= entries@.skip(i + 1));
                i = i + 1;
            }
            None
        },
        _ => None,
    }
}

/// The text of the member `key` of `v`, when it is a string.
fn str_field(v: &JsonValue, key: &String) -> (r: Option<String>)
    ensures
        match r {
            Some(s) => spec_as_str(spec_field(*v, key@)) == Some(s@),
            None => spec_as_str(spec_field(*v, key@)) is None,
        },
{
    match field(v, key) {
        Some(JsonValue::Str(s)) => Some(s.clone()),
        _ => None,
    }
}

/// The elements of the member `key` of `v`, when it is an array.
fn array_field<'a>(v: &'a JsonValue, key: &String) -> (r: Option<&'a Vec<JsonValue>>)
    ensures
        match r {
            Some(a) => spec_as_array(spec_field(*v, key@)) == Some(a@),
            None => spec_as_array(spec_field(*v, key@)) is None,
        },
{
    match field(v, key) {
        Some(JsonValue::Array(a)) => Some(a),
        _ => None,
    }
}

/// One Thunderbolt domain: a port of this machine or a device on it.
#[derive(Debug)]
pub struct ThunderboltInstance {
    /// Domain UUID of the device, from `domain_uuid_key`.
    pub uuid: String,
    /// Name of the connection, e.g. "thunderboltusb4_bus_2", from `_name`.
    pub name: String,
    /// Human-readable name of the device, e.g. "Mac15,12", from `device_name_key`.
    pub device: String,
}

/// The mathematical content of a [`ThunderboltInstance`].
pub struct ThunderboltInstanceView {
    pub uuid: Seq<char>,
    pub name: Seq<char>,
    pub device: Seq<char>,
}

impl View for ThunderboltInstance {
    type V = ThunderboltInstanceView;

    open spec fn view(&self) -> ThunderboltInstanceView {
        ThunderboltInstanceView { uuid: self.uuid@, name: self.name@, device: self.device@ }
    }
}

/// The instance that a JSON item describes: it needs the three string
/// members `domain_uuid_key`, `_name` and `device_name_key`.
pub open spec fn spec_instance(v: JsonValue) -> Option<ThunderboltInstanceView> {
    let uuid = spec_as_str(spec_field(v, "domain_uuid_key"@));
    let name = spec_as_str(spec_field(v, "_name"@));
    let device = spec_as_str(spec_field(v, "device_name_key"@));
    if uuid is Some && name is Some && device is Some {
        Some(ThunderboltInstanceView { uuid: uuid.unwrap(), name: name.unwrap(), device: device.unwrap() })
    } else {
        None
    }
}

impl Clone for ThunderboltInstance {
    fn clone(&self) -> (r: Self)
        ensures
            r@ == self@,
    {
        ThunderboltInstance { uuid: self.uuid.clone(), name: self.name.clone(), device: self.device.clone() }
    }
}

impl ThunderboltInstance {
    /// Reads an instance from a JSON item of the profile.
    pub fn from_value(value: &JsonValue) -> (r: Option<Self>)
        ensures
            match r {
                Some(x) => spec_instance(*value) == Some(x@),
                None => spec_instance(*value) is None,
            },
    {
        let uuid = str_field(value, &"domain_uuid_key".to_owned())?;
        let name = str_field(value, &"_name".to_owned())?;
        let device = str_field(value, &"device_name_key".to_owned())?;
        Some(ThunderboltInstance { uuid, name, device })
    }
}

/// The views of a list of instances.
pub open spec fn instances_view(v: Seq<ThunderboltInstance>) -> Seq<ThunderboltInstanceView> {
    v.map_values(|x: ThunderboltInstance| x@)
}

/// Thunderbolt connection data of this machine.
#[derive(Debug)]
pub struct ThunderboltData {
    /// IP addresses of the Thunderbolt bridge interface.
    pub ip_addrs: Vec<String>,
    /// Each Thunderbolt port of this machine with the devices connected to it.
    pub instances: Vec<(ThunderboltInstance, Vec<ThunderboltInstance>)>,
}

/// The mathematical content of a [`ThunderboltData`].
pub struct ThunderboltDataView {
    pub ip_addrs: Seq<Seq<char>>,
    pub instances: Seq<(ThunderboltInstanceView, Seq<ThunderboltInstanceView>)>,
}

impl View for ThunderboltData {
    type V = ThunderboltDataView;

    open spec fn view(&self) -> ThunderboltDataView {
        ThunderboltDataView {
            ip_addrs: self.ip_addrs@.map_values(|s: String| s@),
            instances: self.instances@.map_values(
                |p: (ThunderboltInstance, Vec<ThunderboltInstance>)| (p.0@, instances_view(p.1@)),
            ),
        }
    }
}

/// The text of a JSON value that is a string, and nothing otherwise.
pub open spec fn str_text(v: JsonValue) -> Seq<char> {
    match v {
        JsonValue::Str(s) => s@,
        _ => Seq::empty(),
    }
}

/// A list of strings read from `v`, as `serde_json::from_value::<Vec<String>>`
/// followed by `unwrap_or_default` reads it: the strings of an array whose
/// elements are all strings, and the empty list for anything else.
pub open spec fn spec_string_list(v: Option<JsonValue>) -> Seq<Seq<char>> {
    match v {
        Some(JsonValue::Array(a)) => if forall|i: int| 0 <= i < a@.len() ==> (#[trigger] a@[i]) is Str {
            a@.map_values(|x: JsonValue| str_text(x))
        } else {
            Seq::empty()
        },
        _ => Seq::empty(),
    }
}

/// The IP addresses of the first network item named "Thunderbolt Bridge".
pub open spec fn spec_bridge_ips(items: Seq<JsonValue>) -> Seq<Seq<char>>
    decreases items.len(),
{
    if items.len() == 0 {
        Seq::empty()
    } else if spec_as_str(spec_field(items[0], "_name"@)) == Some("Thunderbolt Bridge"@) {
        spec_string_list(spec_field(items[0], "ip_address"@))
    } else {
        spec_bridge_ips(items.drop_first())
    }
}

/// The instances described by the items that describe one, in order.
pub open spec fn spec_instances(items: Seq<JsonValue>) -> Seq<ThunderboltInstanceView>
    decreases items.len(),
{
    if items.len() == 0 {
        Seq::empty()
    } else {
        let rest = spec_instances(items.drop_last());
        match spec_instance(items.last()) {
            Some(x) => rest.push(x),
            None => rest,
        }
    }
}

/// The devices connected to a port: the instances among its `_items`.
pub open spec fn spec_connected(item: JsonValue) -> Seq<ThunderboltInstanceView> {
    match spec_as_array(spec_field(item, "_items"@)) {
        Some(a) => spec_instances(a),
        None => Seq::empty(),
    }
}

/// The ports described by the items that describe an instance, in order,
/// each with its connected devices.
pub open spec fn spec_ports(items: Seq<JsonValue>) -> Seq<(ThunderboltInstanceView, Seq<ThunderboltInstanceView>)>
    decreases items.len(),
{
    if items.len() == 0 {
        Seq::empty()
    } else {
        let rest = spec_ports(items.drop_last());
        match spec_instance(items.last()) {
            Some(x) => rest.push((x, spec_connected(items.last()))),
            None => rest,
        }
    }
}

/// The Thunderbolt data that a system profile describes.
pub open spec fn spec_thunderbolt(json: JsonValue) -> ThunderboltDataView {
    ThunderboltDataView {
        ip_addrs: match spec_as_array(spec_field(json, "SPNetworkDataType"@)) {
            Some(a) => spec_bridge_ips(a),
            None => Seq::empty(),
        },
        instances: match spec_as_array(spec_field(json, "SPThunderboltDataType"@)) {
            Some(a) => spec_ports(a),
            None => Seq::empty(),
        },
    }
}

/// The strings of an array whose elements are all strings.
fn all_strings(a: &Vec<JsonValue>) -> (r: Option<Vec<String>>)
    ensures
        match r {
            Some(out) => (forall|i: int| 0 <= i < a@.len() ==> (#[trigger] a@[i]) is Str)
                && out@.map_values(|s: String| s@) == a@.map_values(|x: JsonValue| str_text(x)),
            None => !(forall|i: int| 0 <= i < a@.len() ==> (#[trigger] a@[i]) is Str),
        },
{
    let mut out: Vec<String> = Vec::new();
    let mut i: usize = 0;
    while i < a.len()
        invariant
            i <= a@.len(),
            forall|j: int| 0 <= j < i ==> (#[trigger] a@[j]) is Str,
            out@.map_values(|s: String| s@) == a@.take(i as int).map_values(|x: JsonValue| str_text(x)),
        decreases a@.len() - i,
    {
        let ghost before = out@;
        match &a[i] {
            JsonValue::Str(s) => {
                let c = s.clone();
                assert(a@[i as int] == JsonValue::Str(*s));
                assert(str_text(a@[i as int]) == c@);
                out.push(c);
                assert(out@ == before.push(c));
                assert(a@.take(i + 1) =~= a@.take(i as int).push(a@[i as int]));
                assert(out@.map_values(|s: String| s@) =~= before.map_values(|s: String| s@).push(c@));
                assert(a@.take(i + 1).map_values(|x: JsonValue| str_text(x))
                    =~= a@.take(i as int).map_values(|x: JsonValue| str_text(x)).push(str_text(a@[i as int])));
            },
            _ => {
                assert(!(a@[i as int] is Str));
                return None;
            },
        }
        i = i + 1;
    }
    assert(a@.take(a@.len() as int) =~= a@);
    Some(out)
}

/// Reads a list of strings as `serde_json::from_value::<Vec<String>>(..).unwrap_or_default()`.
fn string_list(v: Option<&JsonValue>) -> (r: Vec<String>)
    ensures
        r@.map_values(|s: String| s@) == spec_string_list(match v { Some(x) => Some(*x), None => None }),
{
    let empty: Vec<String> = Vec::new();
    assert(empty@.map_values(|s: String| s@) =~= Seq::<Seq<char>>::empty());
    match v {
        Some(JsonValue::Array(a)) => {
            match all_strings(a) {
                Some(out) => out,
                None => empty,
            }
        },
        _ => empty,
    }
}

/// The addresses of the first network item named "Thunderbolt Bridge".
fn bridge_ips(items: &Vec<JsonValue>) -> (r: Vec<String>)
    ensures
        r@.map_values(|s: String| s@) == spec_bridge_ips(items@),
{
    let bridge = "Thunderbolt Bridge".to_owned();
    let name_key = "_name".to_owned();
    let mut i: usize = 0;
    assert(items@.skip(0) =~= items@);
    while i < items.len()
        invariant
            i <= items@.len(),
            bridge@ == "Thunderbolt Bridge"@,
            name_key@ == "_name"@,
            spec_bridge_ips(items@) == spec_bridge_ips(items@.skip(i as int)),
        decreases items@.len() - i,
    {
        let ghost rest = items@.skip(i as int);
        assert(rest[0] == items@[i as int]);
        match str_field(&items[i], &name_key) {
            Some(name) => {
                if name == bridge {
                    return string_list(field(&items[i], &"ip_address".to_owned()));
                }
            },
            None => {},
        }
        assert(rest.drop_first() =~= items@.skip(i + 1));
        i = i + 1;
    }
    let empty: Vec<String> = Vec::new();
    assert(empty@.map_values(|s: String| s@) =~= Seq::<Seq<char>>::empty());
    empty
}

/// Reads the instances among `items`.
fn instances_in(items: &Vec<JsonValue>) -> (r: Vec<ThunderboltInstance>)
    ensures
        instances_view(r@) == spec_instances(items@),
{
    let mut out: Vec<ThunderboltInstance> = Vec::new();
    let mut i: usize = 0;
    while i < items.len()
        invariant
            i <= items@.len(),
            instances_view(out@) == spec_instances(items@.take(i as int)),
        decreases items@.len() - i,
    {
        let ghost before = out@;
        assert(items@.take(i + 1).drop_last() =~= items@.take(i as int));
        match ThunderboltInstance::from_value(&items[i]) {
            Some(x) => {
                let ghost xv = x@;
                out.push(x);
                assert(instances_view(out@) =~= instances_view(before).push(xv));
            },
            None => {},
        }
        i = i + 1;
    }
    assert(items@.take(items@.len() as int) =~= items@);
    out
}

impl Clone for ThunderboltData {
    fn clone(&self) -> (r: Self)
        ensures
            r@ == self@,
    {
        let mut ips: Vec<String> = Vec::new();
        let mut i: usize = 0;
        while i < self.ip_addrs.len()
            invariant
                i <= self.ip_addrs@.len(),
                ips@.map_values(|s: String| s@) == self.ip_addrs@.take(i as int).map_values(|s: String| s@),
            decreases self.ip_addrs@.len() - i,
        {
            let ghost before = ips@;
            let c = self.ip_addrs[i].clone();
            ips.push(c);
            assert(self.ip_addrs@.take(i + 1) =~= self.ip_addrs@.take(i as int).push(self.ip_addrs@[i as int]));
            assert(ips@.map_values(|s: String| s@) =~= before.map_values(|s: String| s@).push(c@));
            assert(ips@.map_values(|s: String| s@) =~= self.ip_addrs@.take(i + 1).map_values(|s: String| s@));
            i = i + 1;
        }
        assert(self.ip_addrs@.take(self.ip_addrs@.len() as int) =~= self.ip_addrs@);
        let mut ports: Vec<(ThunderboltInstance, Vec<ThunderboltInstance>)> = Vec::new();
        let mut j: usize = 0;
        while j < self.instances.len()
            invariant
                j <= self.instances@.len(),
                ports@.map_values(|p: (ThunderboltInstance, Vec<ThunderboltInstance>)| (p.0@, instances_view(p.1@)))
                    == self.instances@.take(j as int).map_values(
                    |p: (ThunderboltInstance, Vec<ThunderboltInstance>)| (p.0@, instances_view(p.1@)),
                ),
            decreases self.instances@.len() - j,
        {
            let ghost before = ports@;
            let port = self.instances[j].0.clone();
            let devices = clone_instances(&self.instances[j].1);
            ports.push((port, devices));
            assert(self.instances@.take(j + 1) =~= self.instances@.take(j as int).push(self.instances@[j as int]));
            assert(ports@.map_values(|p: (ThunderboltInstance, Vec<ThunderboltInstance>)| (p.0@, instances_view(p.1@)))
                =~= before.map_values(|p: (ThunderboltInstance, Vec<ThunderboltInstance>)| (p.0@, instances_view(p.1@))).push(
                (port@, instances_view(devices@))));
            assert(ports@.map_values(|p: (ThunderboltInstance, Vec<ThunderboltInstance>)| (p.0@, instances_view(p.1@)))
                =~= self.instances@.take(j + 1).map_values(
                |p: (ThunderboltInstance, Vec<ThunderboltInstance>)| (p.0@, instances_view(p.1@)),
            ));
            j = j + 1;
        }
        assert(self.instances@.take(self.instances@.len() as int) =~= self.instances@);
        ThunderboltData { ip_addrs: ips, instances: ports }
    }
}

/// A copy of a list of instances.
fn clone_instances(v: &Vec<ThunderboltInstance>) -> (r: Vec<ThunderboltInstance>)
    ensures
        instances_view(r@) == instances_view(v@),
{
    let mut out: Vec<ThunderboltInstance> = Vec::new();
    let mut i: usize = 0;
    while i < v.len()
        invariant
            i <= v@.len(),
            instances_view(out@) == instances_view(v@.take(i as int)),
        decreases v@.len() - i,
    {
        let ghost before = out@;
        let c = v[i].clone();
        out.push(c);
        assert(v@.take(i + 1) =~= v@.take(i as int).push(v@[i as int]));
        assert(instances_view(out@) =~= instances_view(before).push(c@));
        assert(instances_view(out@) =~= instances_view(v@.take(i + 1)));
        i = i + 1;
    }
    assert(v@.take(v@.len() as int) =~= v@);
    out
}

/// The ports of a run of items followed by another run are the ports of the
/// first followed by those of the second; an item that describes an instance
/// is one port, whatever its `_items` member holds (devices when it is an
/// array, none otherwise), and any other item is none. So the ports are the
/// instances among the items, in order, each with its devices.
pub proof fn lemma_ports_of_items(a: Seq<JsonValue>, b: Seq<JsonValue>, item: JsonValue)
    ensures
        spec_ports(a + b) == spec_ports(a) + spec_ports(b),
        spec_ports(seq![item]) == match spec_instance(item) {
            Some(x) => seq![(x, spec_connected(item))],
            None => Seq::empty(),
        },
        spec_as_array(spec_field(item, "_items"@)) is None ==> spec_connected(item) == Seq::<ThunderboltInstanceView>::empty(),
        spec_ports(a).len() == spec_instances(a).len(),
        forall|j: int| 0 <= j < spec_ports(a).len() ==> (#[trigger] spec_ports(a)[j]).0 == spec_instances(a)[j],
    decreases b.len(),
{
    assert(seq![item].drop_last() =~= Seq::<JsonValue>::empty());
    assert(seq![item].last() == item);
    assert(spec_ports(Seq::<JsonValue>::empty()) == Seq::<(ThunderboltInstanceView, Seq<ThunderboltInstanceView>)>::empty());
    match spec_instance(item) {
        Some(x) => {
            assert(spec_ports(seq![item]) == Seq::<(ThunderboltInstanceView, Seq<ThunderboltInstanceView>)>::empty().push((x, spec_connected(item))));
            assert(Seq::<(ThunderboltInstanceView, Seq<ThunderboltInstanceView>)>::empty().push((x, spec_connected(item)))
                =~= seq![(x, spec_connected(item))]);
        },
        None => {},
    }
    lemma_ports_instances(a);
    if b.len() == 0 {
        assert(a + b =~= a);
        assert(spec_ports(a) + spec_ports(b) =~= spec_ports(a));
    } else {
        lemma_ports_of_items(a, b.drop_last(), item);
        assert((a + b).drop_last() =~= a + b.drop_last());
        assert((a + b).last() == b.last());
        match spec_instance(b.last()) {
            Some(x) => {
                assert(spec_ports(a) + spec_ports(b.drop_last()).push((x, spec_connected(b.last())))
                    =~= (spec_ports(a) + spec_ports(b.drop_last())).push((x, spec_connected(b.last()))));
            },
            None => {},
        }
    }
}

/// Each port is the instance of the item it comes from, in the order of
/// the instances.
proof fn lemma_ports_instances(a: Seq<JsonValue>)
    ensures
        spec_ports(a).len() == spec_instances(a).len(),
        forall|j: int| 0 <= j < spec_ports(a).len() ==> (#[trigger] spec_ports(a)[j]).0 == spec_instances(a)[j],
    decreases a.len(),
{
    if a.len() > 0 {
        lemma_ports_instances(a.drop_last());
    }
}

impl ThunderboltData {
    /// Reads the Thunderbolt data from the JSON text of a system profile.
    ///
    /// Gives `None` when the bytes are not a JSON document; the daemon
    /// treats that as fatal and panics, since `system_profiler` always
    /// prints JSON.
    pub fn new_from_slice(data: &[u8]) -> (r: Option<ThunderboltData>)
        ensures
            match json_document(data@) {
                Some(j) => r matches Some(d) && d@ == spec_thunderbolt(j),
                None => r is None,
            },
    {
        match parse_json(data) {
            Some(json) => Some(ThunderboltData::from_json(&json)),
            None => None,
        }
    }

    /// Reads the Thunderbolt data from a system profile: the addresses of
    /// the first network item named "Thunderbolt Bridge", and every
    /// Thunderbolt item that describes an instance, with the instances among
    /// its `_items`.
    pub fn from_json(json: &JsonValue) -> (r: Self)
        ensures
            r@ == spec_thunderbolt(*json),
    {
        let ip_addrs = match array_field(json, &"SPNetworkDataType".to_owned()) {
            Some(items) => bridge_ips(items),
            None => {
                let empty: Vec<String> = Vec::new();
                assert(empty@.map_values(|s: String| s@) =~= Seq::<Seq<char>>::empty());
                empty
            },
        };
        let mut instances: Vec<(ThunderboltInstance, Vec<ThunderboltInstance>)> = Vec::new();
        match array_field(json, &"SPThunderboltDataType".to_owned()) {
            Some(items) => {
                let mut i: usize = 0;
                while i < items.len()
                    invariant
                        i <= items@.len(),
                        instances@.map_values(|p: (ThunderboltInstance, Vec<ThunderboltInstance>)| (p.0@, instances_view(p.1@)))
                            == spec_ports(items@.take(i as int)),
                    decreases items@.len() - i,
                {
                    let ghost before = instances@;
                    assert(items@.take(i + 1).drop_last() =~= items@.take(i as int));
                    match ThunderboltInstance::from_value(&items[i]) {
                        Some(myself) => {
                            let connected = match array_field(&items[i], &"_items".to_owned()) {
                                Some(devices) => instances_in(devices),
                                None => {
                                    let v: Vec<ThunderboltInstance> = Vec::new();
                                    assert(instances_view(v@) =~= Seq::<ThunderboltInstanceView>::empty());
                                    v
                                },
                            };
                            instances.push((myself, connected));
                            assert(instances@.map_values(|p: (ThunderboltInstance, Vec<ThunderboltInstance>)| (p.0@, instances_view(p.1@)))
                                =~= spec_ports(items@.take(i + 1)));
                        },
                        None => {},
                    }
                    i = i + 1;
                }
                assert(items@.take(items@.len() as int) =~= items@);
            },
            None => {},
        }
        let r = ThunderboltData { ip_addrs, instances };
        assert(r@.ip_addrs == spec_thunderbolt(*json).ip_addrs);
        assert(r@.instances == spec_thunderbolt(*json).instances);
        r
    }
}

} // verus!
