use vstd::prelude::*;

use crate::binding_layout::intern;
use crate::device_type::{DeviceType, InputComponentType};
use crate::path_manager::{is_path_string, got_path, IdMap, PathManager};
use crate::path_map::PathMap;
use crate::types::SuPath;

verus! {

/// A device described in the device configuration: vendor, name and the
/// input components of each of its identifiers.
#[derive(Debug, Clone, PartialEq, Eq)]
pub struct Device {
    pub vendor: String,
    pub name: String,
    pub identifiers: Vec<Identifier>,
}

/// A named group of input components of a configured device.
#[derive(Debug, Clone, PartialEq, Eq)]
pub struct Identifier {
    pub name: String,
    pub components: Vec<Component>,
}

/// A configured input or output component, with its name.
#[derive(Debug, Clone, PartialEq, Eq)]
pub enum Component {
    Button(String),
    Trigger(String),
    Joystick(String),
    Cursor(String),
    Move2d(String),
    Gyro(String, bool),
    Accel(String),
    AdaptiveTrigger(String),
    Touchpad(String, u32, bool),
    Led(String),
    PlayerNumber(String, u32, u32),
    HdRumble(String),
    Rumble(String),
}

/// The kind under which a configured component becomes an input component
/// of its device type, with its name; buttons, cursors and two-dimensional
/// movement are taken, the other components are left out.
pub open spec fn spec_component_input(c: Component) -> Option<(InputComponentType, Seq<char>)> {
    match c {
        Component::Button(name) => Some((InputComponentType::Button, name@)),
        Component::Cursor(name) => Some((InputComponentType::Cursor, name@)),
        Component::Move2d(name) => Some((InputComponentType::Move2D, name@)),
        _ => None,
    }
}

/// The kind and name under which `c` becomes an input component of its
/// device type, if it does.
pub fn component_input(c: &Component) -> (r: Option<(InputComponentType, &String)>)
    ensures
        match r {
            Some((ty, name)) => spec_component_input(*c) == Some((ty, name@)),
            None => spec_component_input(*c) is None,
        },
{
    match c {
        Component::Button(name) => Some((InputComponentType::Button, name)),
        Component::Cursor(name) => Some((InputComponentType::Cursor, name)),
        Component::Move2d(name) => Some((InputComponentType::Move2D, name)),
        _ => None,
    }
}

/// Four strings in a row.
fn concat4(a: &str, b: &str, c: &str, d: &str) -> (r: String)
    ensures
        r@ == a@ + b@ + c@ + d@,
{
    let mut r = String::from_str(a);
    r.append(b);
    r.append(c);
    r.append(d);
    r
}

/// The path string of a configured device: `/devices/<vendor>/<name>`.
pub open spec fn device_path_string(device: Device) -> Seq<char> {
    "/devices/"@ + device.vendor@ + "/"@ + device.name@
}

/// The path string of an input component: `/input/<identifier>/<name>`.
pub open spec fn input_path_string(identifier: Seq<char>, name: Seq<char>) -> Seq<char> {
    "/input/"@ + identifier + "/"@ + name
}

/// The input components of one identifier, in order: the path string and
/// kind of each component that becomes an input.
pub open spec fn component_inputs(identifier: Seq<char>, components: Seq<Component>) -> Seq<(Seq<char>, InputComponentType)>
    decreases components.len(),
{
    if components.len() == 0 {
        Seq::empty()
    } else {
        component_inputs(identifier, components.drop_last()) + match spec_component_input(components.last()) {
            Some((ty, name)) => seq![(input_path_string(identifier, name), ty)],
            None => Seq::empty(),
        }
    }
}

/// The input components of a list of identifiers, in order.
pub open spec fn identifier_inputs(identifiers: Seq<Identifier>) -> Seq<(Seq<char>, InputComponentType)>
    decreases identifiers.len(),
{
    if identifiers.len() == 0 {
        Seq::empty()
    } else {
        identifier_inputs(identifiers.drop_last()) + component_inputs(
            identifiers.last().name@,
            identifiers.last().components@,
        )
    }
}

/// The path strings of a device in the order they are interned: the
/// device's own, then those of its input components.
pub open spec fn device_strings(device: Device) -> Seq<Seq<char>> {
    seq![device_path_string(device)] + identifier_inputs(device.identifiers@).map_values(
        |e: (Seq<char>, InputComponentType)| e.0,
    )
}

/// The path strings of a list of devices in the order they are interned.
pub open spec fn config_strings(devices: Seq<Device>) -> Seq<Seq<char>>
    decreases devices.len(),
{
    if devices.len() == 0 {
        Seq::empty()
    } else {
        config_strings(devices.drop_last()) + device_strings(devices.last())
    }
}

/// The interned strings after interning `strings` in order.
pub open spec fn intern_strings(ids: IdMap, strings: Seq<Seq<char>>) -> IdMap
    decreases strings.len(),
{
    if strings.len() == 0 {
        ids
    } else {
        let prev = intern_strings(ids, strings.drop_last());
        if prev.contains_key(strings.last()) {
            prev
        } else {
            prev.insert(strings.last(), SuPath(prev.len() as u32))
        }
    }
}

/// The kind of each input component by path, a later component replacing
/// an earlier one with the same path.
pub open spec fn inputs_map(inputs: Seq<(Seq<char>, InputComponentType)>, ids: IdMap) -> Map<SuPath, InputComponentType>
    decreases inputs.len(),
{
    if inputs.len() == 0 {
        Map::empty()
    } else {
        inputs_map(inputs.drop_last(), ids).insert(ids[inputs.last().0], inputs.last().1)
    }
}

/// Interning keeps every path handed out before.
proof fn lemma_intern_strings_keeps(ids: IdMap, strings: Seq<Seq<char>>, s: Seq<char>)
    requires
        ids.contains_key(s),
    ensures
        intern_strings(ids, strings).contains_key(s),
        intern_strings(ids, strings)[s] == ids[s],
    decreases strings.len(),
{
    if strings.len() > 0 {
        lemma_intern_strings_keeps(ids, strings.drop_last(), s);
    }
}

/// Interning `a` then `b` is interning `a + b`.
proof fn lemma_intern_strings_append(ids: IdMap, a: Seq<Seq<char>>, b: Seq<Seq<char>>)
    ensures
        intern_strings(intern_strings(ids, a), b) == intern_strings(ids, a + b),
    decreases b.len(),
{
    if b.len() == 0 {
        assert(a + b =~= a);
    } else {
        lemma_intern_strings_append(ids, a, b.drop_last());
        assert((a + b).drop_last() =~= a + b.drop_last());
        assert((a + b).last() == b.last());
    }
}

/// The kinds by path stay the same under interned strings that agree on
/// every path string of the inputs.
proof fn lemma_inputs_map_agree(inputs: Seq<(Seq<char>, InputComponentType)>, ids: IdMap, ids2: IdMap)
    requires
        forall|k: int| 0 <= k < inputs.len() ==> ids.contains_key(#[trigger] inputs[k].0) && ids2.contains_key(inputs[k].0)
            && ids2[inputs[k].0] == ids[inputs[k].0],
    ensures
        inputs_map(inputs, ids) == inputs_map(inputs, ids2),
    decreases inputs.len(),
{
    if inputs.len() > 0 {
        assert forall|k: int| 0 <= k < inputs.drop_last().len() implies ids.contains_key(#[trigger] inputs.drop_last()[k].0)
            && ids2.contains_key(inputs.drop_last()[k].0) && ids2[inputs.drop_last()[k].0] == ids[inputs.drop_last()[k].0] by {
            assert(inputs.drop_last()[k] == inputs[k]);
        }
        lemma_inputs_map_agree(inputs.drop_last(), ids, ids2);
        assert(inputs.last() == inputs[inputs.len() - 1]);
    }
}

/// The number of components of a list of identifiers.
pub open spec fn identifiers_size(identifiers: Seq<Identifier>) -> nat
    decreases identifiers.len(),
{
    if identifiers.len() == 0 {
        0
    } else {
        identifiers_size(identifiers.drop_last()) + identifiers.last().components@.len()
    }
}

/// The number of devices and components of a list of devices: a bound on
/// the path strings they give.
pub open spec fn config_size(devices: Seq<Device>) -> nat
    decreases devices.len(),
{
    if devices.len() == 0 {
        0
    } else {
        config_size(devices.drop_last()) + 1 + identifiers_size(devices.last().identifiers@)
    }
}

/// Every path string that the configured devices give is well formed.
pub open spec fn config_valid(devices: Seq<Device>) -> bool {
    &&& forall|i: int| 0 <= i < devices.len() ==> is_path_string(device_path_string(#[trigger] devices[i]))
    &&& forall|i: int, j: int, k: int|
        0 <= i < devices.len() && 0 <= j < devices[i].identifiers@.len()
            && 0 <= k < devices[i].identifiers@[j].components@.len() ==> match spec_component_input(
            #[trigger] devices[i].identifiers@[j].components@[k],
        ) {
            Some((_, name)) => is_path_string(input_path_string(devices[i].identifiers@[j].name@, name)),
            None => true,
        }
}

proof fn lemma_config_size_mono(devices: Seq<Device>, i: int)
    requires
        0 <= i <= devices.len(),
    ensures
        config_size(devices.take(i)) <= config_size(devices),
    decreases devices.len() - i,
{
    if i < devices.len() {
        lemma_config_size_mono(devices.drop_last(), i);
        assert(devices.drop_last().take(i) =~= devices.take(i));
    } else {
        assert(devices.take(i) =~= devices);
    }
}

proof fn lemma_identifiers_size_mono(identifiers: Seq<Identifier>, j: int)
    requires
        0 <= j <= identifiers.len(),
    ensures
        identifiers_size(identifiers.take(j)) <= identifiers_size(identifiers),
    decreases identifiers.len() - j,
{
    if j < identifiers.len() {
        lemma_identifiers_size_mono(identifiers.drop_last(), j);
        assert(identifiers.drop_last().take(j) =~= identifiers.take(j));
    } else {
        assert(identifiers.take(j) =~= identifiers);
    }
}

/// Interning a list of strings interns each of them.
proof fn lemma_intern_strings_contains(ids: IdMap, strings: Seq<Seq<char>>, k: int)
    requires
        0 <= k < strings.len(),
    ensures
        intern_strings(ids, strings).contains_key(strings[k]),
    decreases strings.len(),
{
    if k < strings.len() - 1 {
        lemma_intern_strings_contains(ids, strings.drop_last(), k);
        let prev = intern_strings(ids, strings.drop_last());
        assert(strings.drop_last()[k] == strings[k]);
    }
}

/// The device types of the configured devices: each device's path is
/// `/devices/<vendor>/<name>`, and each of its buttons, cursors and
/// two-dimensional movements becomes an input component at
/// `/input/<identifier>/<name>`, a later one replacing an earlier one with
/// the same path. All paths are interned in order, device by device.
pub fn deserialize(devices: &[Device], paths: &mut PathManager) -> (r: Vec<DeviceType>)
    requires
        old(paths).wf(),
        config_valid(devices@),
        old(paths).count() + config_size(devices@) <= u32::MAX,
    ensures
        final(paths).wf(),
        final(paths).strings() == intern_strings(old(paths).strings(), config_strings(devices@)),
        r@.len() == devices@.len(),
        forall|i: int| 0 <= i < devices@.len() ==> {
            &&& (#[trigger] r@[i]).wf()
            &&& r@[i].id == final(paths).strings()[device_path_string(devices@[i])]
            &&& r@[i].input_components.map() == inputs_map(identifier_inputs(devices@[i].identifiers@), final(paths).strings())
        },
{
    let ghost old_strings = paths.strings();
    let ghost old_count = paths.count();
    let mut out: Vec<DeviceType> = Vec::new();
    let mut i: usize = 0;
    assert(devices@.take(0) =~= Seq::<Device>::empty());
    while i < devices.len()
        invariant
            0 <= i <= devices@.len(),
            paths.wf(),
            config_valid(devices@),
            old_count + config_size(devices@) <= u32::MAX,
            paths.count() <= old_count + config_size(devices@.take(i as int)),
            paths.strings() == intern_strings(old_strings, config_strings(devices@.take(i as int))),
            out@.len() == i,
            forall|m: int| 0 <= m < i ==> device_built(
                (#[trigger] out@[m]),
                devices@[m],
                intern_strings(old_strings, config_strings(devices@.take(m + 1))),
                paths.strings(),
            ),
        decreases devices@.len() - i,
    {
        let device = &devices[i];
        let ghost d = devices@[i as int];
        let ghost base = paths.strings();
        let ghost prefix = config_strings(devices@.take(i as int));
        let ghost identifiers = d.identifiers@;
        proof {
            assert(devices@.take(i + 1).drop_last() =~= devices@.take(i as int));
            assert(devices@.take(i + 1).last() == d);
            lemma_config_size_mono(devices@, i + 1);
            assert(is_path_string(device_path_string(devices@[i as int])));
        }
        let device_string = concat4("/devices/", device.vendor.as_str(), "/", device.name.as_str());
        let id = match paths.get_path(device_string.as_str()) {
            Ok(p) => p,
            Err(_) => {
                assert(false);
                SuPath(0)
            },
        };
        proof {
            assert(prefix.push(device_path_string(d)).drop_last() =~= prefix);
            assert(identifiers.take(0) =~= Seq::<Identifier>::empty());
            assert(identifiers_inputs_strings(identifiers.take(0)) =~= Seq::<Seq<char>>::empty());
            assert(prefix + seq![device_path_string(d)] + identifiers_inputs_strings(identifiers.take(0))
                =~= prefix.push(device_path_string(d)));
            assert(identifier_inputs(identifiers.take(0)) =~= Seq::<(Seq<char>, InputComponentType)>::empty());
        }
        let mut input_components: PathMap<InputComponentType> = PathMap::new();
        let mut j: usize = 0;
        while j < device.identifiers.len()
            invariant
                0 <= j <= identifiers.len(),
                identifiers == device.identifiers@,
                identifiers == d.identifiers@,
                d == *device,
                paths.wf(),
                config_valid(devices@),
                0 <= i < devices@.len(),
                d == devices@[i as int],
                old_count + config_size(devices@) <= u32::MAX,
                config_size(devices@.take(i + 1)) <= config_size(devices@),
                config_size(devices@.take(i + 1)) == config_size(devices@.take(i as int)) + 1 + identifiers_size(identifiers),
                paths.count() <= old_count + config_size(devices@.take(i as int)) + 1 + identifiers_size(identifiers.take(j as int)),
                paths.strings() == intern_strings(old_strings, prefix + seq![device_path_string(d)] + identifiers_inputs_strings(identifiers.take(j as int))),
                paths.strings().contains_key(device_path_string(d)),
                paths.strings()[device_path_string(d)] == id,
                input_components.wf(),
                input_components.map() == inputs_map(identifier_inputs(identifiers.take(j as int)), paths.strings()),
                forall|q: int| 0 <= q < identifier_inputs(identifiers.take(j as int)).len()
                    ==> paths.strings().contains_key(#[trigger] identifier_inputs(identifiers.take(j as int))[q].0),
            decreases identifiers.len() - j,
        {
            let identifier = &device.identifiers[j];
            let ghost ident = identifiers[j as int];
            let ghost name = ident.name@;
            let ghost comps = ident.components@;
            let ghost head = prefix + seq![device_path_string(d)] + identifiers_inputs_strings(identifiers.take(j as int));
            let ghost done0 = identifier_inputs(identifiers.take(j as int));
            proof {
                assert(identifiers.take(j + 1).drop_last() =~= identifiers.take(j as int));
                assert(identifiers.take(j + 1).last() == ident);
                lemma_identifiers_size_mono(identifiers, j + 1);
                assert(comps.take(0) =~= Seq::<Component>::empty());
                assert(component_inputs(name, comps.take(0)) =~= Seq::<(Seq<char>, InputComponentType)>::empty());
                assert(done0 + component_inputs(name, comps.take(0)) =~= done0);
                assert(head + component_strings(name, comps.take(0)) =~= head);
            }
            let mut k: usize = 0;
            while k < identifier.components.len()
                invariant
                    0 <= k <= comps.len(),
                    ident == *identifier,
                    comps == ident.components@,
                    name == ident.name@,
                    identifiers == d.identifiers@,
                    comps == identifier.components@,
                    name == identifier.name@,
                    0 <= j < identifiers.len(),
                    ident == identifiers[j as int],
                    identifiers == device.identifiers@,
                    d == devices@[i as int],
                    0 <= i < devices@.len(),
                    paths.wf(),
                    config_valid(devices@),
                    old_count + config_size(devices@) <= u32::MAX,
                    config_size(devices@.take(i + 1)) <= config_size(devices@),
                    config_size(devices@.take(i + 1)) == config_size(devices@.take(i as int)) + 1 + identifiers_size(identifiers),
                    identifiers_size(identifiers.take(j + 1)) == identifiers_size(identifiers.take(j as int)) + comps.len(),
                    identifiers_size(identifiers.take(j + 1)) <= identifiers_size(identifiers),
                    paths.count() <= old_count + config_size(devices@.take(i as int)) + 1 + identifiers_size(identifiers.take(j as int)) + k,
                    paths.strings() == intern_strings(old_strings, head + component_strings(name, comps.take(k as int))),
                    paths.strings().contains_key(device_path_string(d)),
                    paths.strings()[device_path_string(d)] == id,
                    input_components.wf(),
                    input_components.map() == inputs_map(done0 + component_inputs(name, comps.take(k as int)), paths.strings()),
                    forall|q: int| 0 <= q < (done0 + component_inputs(name, comps.take(k as int))).len()
                        ==> paths.strings().contains_key(#[trigger] (done0 + component_inputs(name, comps.take(k as int)))[q].0),
                decreases comps.len() - k,
            {
                let component = &identifier.components[k];
                let ghost done = done0 + component_inputs(name, comps.take(k as int));
                let ghost strings_before = paths.strings();
                proof {
                    assert(comps.take(k + 1).drop_last() =~= comps.take(k as int));
                    assert(comps.take(k + 1).last() == comps[k as int]);
                }
                match component_input(component) {
                    Some((ty, component_name)) => {
                        let input_string = concat4("/input/", identifier.name.as_str(), "/", component_name.as_str());
                        proof {
                            assert(devices@[i as int].identifiers@[j as int].components@[k as int] == comps[k as int]);
                            assert(is_path_string(input_string@));
                        }
                        let p = match paths.get_path(input_string.as_str()) {
                            Ok(p) => p,
                            Err(_) => {
                                assert(false);
                                SuPath(0)
                            },
                        };
                        proof {
                            let entry = (input_string@, ty);
                            assert(component_inputs(name, comps.take(k + 1)) =~= component_inputs(name, comps.take(k as int)).push(entry));
                            assert(done0 + component_inputs(name, comps.take(k + 1)) =~= done.push(entry));
                            assert(component_strings(name, comps.take(k + 1)) =~= component_strings(name, comps.take(k as int)).push(input_string@));
                            assert((head + component_strings(name, comps.take(k + 1))).drop_last()
                                =~= head + component_strings(name, comps.take(k as int)));
                            assert forall|q: int| 0 <= q < done.len() implies strings_before.contains_key(#[trigger] done[q].0)
                                && paths.strings().contains_key(done[q].0) && paths.strings()[done[q].0] == strings_before[done[q].0] by {
                            }
                            lemma_inputs_map_agree(done, strings_before, paths.strings());
                        }
                        input_components.insert(p, ty);
                        proof {
                            let entry = (input_string@, ty);
                            let done2 = done.push(entry);
                            assert(done2.drop_last() =~= done);
                            assert forall|q: int| 0 <= q < done2.len() implies paths.strings().contains_key(#[trigger] done2[q].0) by {
                                if q < done.len() {
                                    assert(done2[q] == done[q]);
                                }
                            }
                        }
                    },
                    None => {
                        proof {
                            assert(component_inputs(name, comps.take(k + 1)) =~= component_inputs(name, comps.take(k as int)));
                            assert(component_strings(name, comps.take(k + 1)) =~= component_strings(name, comps.take(k as int)));
                        }
                    },
                }
                k = k + 1;
            }
            proof {
                assert(comps.take(comps.len() as int) =~= comps);
                assert(identifier_inputs(identifiers.take(j + 1)) =~= done0 + component_inputs(name, comps));
                assert(identifiers_inputs_strings(identifiers.take(j + 1))
                    =~= identifiers_inputs_strings(identifiers.take(j as int)) + component_strings(name, comps));
                assert(head + component_strings(name, comps)
                    =~= prefix + seq![device_path_string(d)] + identifiers_inputs_strings(identifiers.take(j + 1)));
            }
            j = j + 1;
        }
        proof {
            assert(identifiers.take(identifiers.len() as int) =~= identifiers);
            assert(prefix + seq![device_path_string(d)] + identifiers_inputs_strings(identifiers)
                =~= config_strings(devices@.take(i + 1)));
            lemma_intern_strings_append(old_strings, prefix, device_strings(d));
            assert(prefix + device_strings(d) =~= config_strings(devices@.take(i + 1)));
            assert forall|s: Seq<char>| #[trigger] base.contains_key(s) implies paths.strings().contains_key(s)
                && paths.strings()[s] == base[s] by {
                lemma_intern_strings_keeps(base, device_strings(d), s);
            }
        }
        let built = DeviceType { id, input_components };
        let ghost out_before = out@;
        out.push(built);
        proof {
            assert forall|m: int| 0 <= m < i + 1 implies device_built(
                (#[trigger] out@[m]),
                devices@[m],
                intern_strings(old_strings, config_strings(devices@.take(m + 1))),
                paths.strings(),
            ) by {
                if m == i {
                    assert(out@[m] == built);
                } else {
                    assert(out@[m] == out_before[m]);
                }
            }
        }
        i = i + 1;
    }
    proof {
        assert(devices@.take(devices@.len() as int) =~= devices@);
        assert forall|m: int| 0 <= m < devices@.len() implies {
            &&& (#[trigger] out@[m]).wf()
            &&& out@[m].id == paths.strings()[device_path_string(devices@[m])]
            &&& out@[m].input_components.map() == inputs_map(identifier_inputs(devices@[m].identifiers@), paths.strings())
        } by {
            let sm = intern_strings(old_strings, config_strings(devices@.take(m + 1)));
            assert(device_built(out@[m], devices@[m], sm, paths.strings()));
            let inputs = identifier_inputs(devices@[m].identifiers@);
            assert forall|q: int| 0 <= q < inputs.len() implies sm.contains_key(#[trigger] inputs[q].0)
                && paths.strings().contains_key(inputs[q].0) && paths.strings()[inputs[q].0] == sm[inputs[q].0] by {
            }
            lemma_inputs_map_agree(inputs, sm, paths.strings());
        }
    }
    out
}

/// `built` is the device type of `device` under the interned strings
/// `strings`, which `now` extends.
pub open spec fn device_built(built: DeviceType, device: Device, strings: IdMap, now: IdMap) -> bool {
    let inputs = identifier_inputs(device.identifiers@);
    &&& built.wf()
    &&& strings.contains_key(device_path_string(device))
    &&& built.id == strings[device_path_string(device)]
    &&& built.input_components.map() == inputs_map(inputs, strings)
    &&& forall|q: int| 0 <= q < inputs.len() ==> strings.contains_key(#[trigger] inputs[q].0)
    &&& forall|s: Seq<char>| #[trigger] strings.contains_key(s) ==> now.contains_key(s) && now[s] == strings[s]
}

/// The path strings of the input components of one identifier, in order.
pub open spec fn component_strings(identifier: Seq<char>, components: Seq<Component>) -> Seq<Seq<char>> {
    component_inputs(identifier, components).map_values(|e: (Seq<char>, InputComponentType)| e.0)
}

/// The path strings of the input components of a list of identifiers, in
/// order.
pub open spec fn identifiers_inputs_strings(identifiers: Seq<Identifier>) -> Seq<Seq<char>> {
    identifier_inputs(identifiers).map_values(|e: (Seq<char>, InputComponentType)| e.0)
}

} // verus!
