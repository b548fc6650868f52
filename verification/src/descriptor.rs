//! The descriptor tree of a USB device, as plain values, and the rule that
//! picks the duplex pair of endpoints out of it.

use vstd::prelude::*;

verus! {

/// The direction of an endpoint, seen from the host.
#[derive(Clone, Copy, Debug, PartialEq, Eq, Structural)]
pub enum Direction {
    In,
    Out,
}

/// A class / subclass / protocol triple.
#[derive(Clone, Copy, Debug, PartialEq, Eq, Structural)]
pub struct ClassTriple {
    pub class_code: u8,
    pub sub_class_code: u8,
    pub protocol_code: u8,
}

/// One endpoint of an alternate setting.
#[derive(Clone, Copy, Debug, PartialEq, Eq, Structural)]
pub struct EndpointDescriptor {
    pub address: u8,
    pub direction: Direction,
}

/// One alternate setting of an interface.
#[derive(Clone, Debug)]
pub struct InterfaceDescriptor {
    pub interface_number: u8,
    pub setting_number: u8,
    pub class_code: u8,
    pub sub_class_code: u8,
    pub protocol_code: u8,
    pub endpoints: Vec<EndpointDescriptor>,
}

/// An interface: its alternate settings in descriptor order.
#[derive(Clone, Debug)]
pub struct Interface {
    pub descriptors: Vec<InterfaceDescriptor>,
}

/// A configuration: its interfaces in descriptor order.
#[derive(Clone, Debug)]
pub struct ConfigDescriptor {
    pub number: u8,
    pub interfaces: Vec<Interface>,
}

/// A device: its own class triple and its configurations in descriptor
/// order.
#[derive(Clone, Debug)]
pub struct DeviceDescriptor {
    pub class_code: u8,
    pub sub_class_code: u8,
    pub protocol_code: u8,
    pub configurations: Vec<ConfigDescriptor>,
}

/// An endpoint together with the place it was found at.
#[derive(Clone, Copy, Debug, PartialEq, Eq, Structural)]
pub struct Endpoint {
    pub config: u8,
    pub iface: u8,
    pub setting: u8,
    pub address: u8,
    pub direction: Direction,
}

/// The endpoint bytes are pulled from.
#[derive(Clone, Copy, Debug, PartialEq, Eq, Structural)]
pub struct ReadEndpoint(pub Endpoint);

/// The endpoint bytes are pushed to.
#[derive(Clone, Copy, Debug, PartialEq, Eq, Structural)]
pub struct WriteEndpoint(pub Endpoint);

/// Why no duplex pair was found.
#[derive(Clone, Copy, Debug, PartialEq, Eq, Structural)]
pub enum EndpointDiscoveryError {
    /// No alternate setting carries the wanted class triple.
    NoMatchingInterface,
    /// The first matching setting has fewer than two endpoints.
    InsufficientEndpoints,
    /// Its last two endpoints point the same way.
    ConflictingDirections,
}

/// The result of endpoint discovery.
pub type DuplexPair = Result<(ReadEndpoint, WriteEndpoint), EndpointDiscoveryError>;

/// Whether the device itself carries the triple `target`.
pub open spec fn device_matches(tree: DeviceDescriptor, target: ClassTriple) -> bool {
    tree.class_code == target.class_code && tree.sub_class_code == target.sub_class_code
        && tree.protocol_code == target.protocol_code
}

/// Whether an alternate setting counts as a match: always when the device
/// itself matched, and otherwise when it carries the triple `target`.
pub open spec fn setting_matches(whole: bool, d: InterfaceDescriptor, target: ClassTriple) -> bool {
    whole || (d.class_code == target.class_code && d.sub_class_code == target.sub_class_code
        && d.protocol_code == target.protocol_code)
}

/// The endpoint `e` of setting `d` in configuration `number`.
pub open spec fn located(number: u8, d: InterfaceDescriptor, e: EndpointDescriptor) -> Endpoint {
    Endpoint {
        config: number,
        iface: d.interface_number,
        setting: d.setting_number,
        address: e.address,
        direction: e.direction,
    }
}

/// The pair that setting `d` of configuration `number` yields: its last two
/// endpoints, the inbound one for reading and the outbound one for writing.
pub open spec fn pair_of(number: u8, d: InterfaceDescriptor) -> DuplexPair {
    let n = d.endpoints@.len() as int;
    if n < 2 {
        Err(EndpointDiscoveryError::InsufficientEndpoints)
    } else {
        let a = d.endpoints@[n - 1];
        let b = d.endpoints@[n - 2];
        if a.direction == b.direction {
            Err(EndpointDiscoveryError::ConflictingDirections)
        } else if a.direction == Direction::In {
            Ok((ReadEndpoint(located(number, d, a)), WriteEndpoint(located(number, d, b))))
        } else {
            Ok((ReadEndpoint(located(number, d, b)), WriteEndpoint(located(number, d, a))))
        }
    }
}

/// The first matching setting among `settings[from..]`.
pub open spec fn first_setting(
    settings: Seq<InterfaceDescriptor>,
    from: int,
    whole: bool,
    target: ClassTriple,
) -> Option<InterfaceDescriptor>
    decreases settings.len() - from,
{
    if from < 0 || from >= settings.len() {
        None
    } else if setting_matches(whole, settings[from], target) {
        Some(settings[from])
    } else {
        first_setting(settings, from + 1, whole, target)
    }
}

/// The first matching setting among the interfaces `interfaces[from..]`.
pub open spec fn first_interface(
    interfaces: Seq<Interface>,
    from: int,
    whole: bool,
    target: ClassTriple,
) -> Option<InterfaceDescriptor>
    decreases interfaces.len() - from,
{
    if from < 0 || from >= interfaces.len() {
        None
    } else {
        match first_setting(interfaces[from].descriptors@, 0, whole, target) {
            Some(d) => Some(d),
            None => first_interface(interfaces, from + 1, whole, target),
        }
    }
}

/// The first matching setting among the configurations `configs[from..]`,
/// with the number of the configuration that holds it.
pub open spec fn first_config(
    configs: Seq<ConfigDescriptor>,
    from: int,
    whole: bool,
    target: ClassTriple,
) -> Option<(u8, InterfaceDescriptor)>
    decreases configs.len() - from,
{
    if from < 0 || from >= configs.len() {
        None
    } else {
        match first_interface(configs[from].interfaces@, 0, whole, target) {
            Some(d) => Some((configs[from].number, d)),
            None => first_config(configs, from + 1, whole, target),
        }
    }
}

/// The duplex pair of a device: the pair of the first matching setting in
/// descriptor order. That setting is final: when its endpoints do not form
/// a pair, no later setting is looked at.
pub open spec fn duplex_pair(tree: DeviceDescriptor, target: ClassTriple) -> DuplexPair {
    match first_config(tree.configurations@, 0, device_matches(tree, target), target) {
        None => Err(EndpointDiscoveryError::NoMatchingInterface),
        Some((number, d)) => pair_of(number, d),
    }
}

fn locate(number: u8, d: &InterfaceDescriptor, e: &EndpointDescriptor) -> (r: Endpoint)
    ensures
        r == located(number, *d, *e),
{
    Endpoint {
        config: number,
        iface: d.interface_number,
        setting: d.setting_number,
        address: e.address,
        direction: e.direction,
    }
}

/// Picks the pair out of one setting: `pair_of`.
pub fn select_pair(number: u8, d: &InterfaceDescriptor) -> (r: DuplexPair)
    ensures
        r == pair_of(number, *d),
{
    let n: usize = d.endpoints.len();
    if n < 2 {
        return Err(EndpointDiscoveryError::InsufficientEndpoints);
    }
    let a = &d.endpoints[n - 1];
    let b = &d.endpoints[n - 2];
    match (a.direction, b.direction) {
        (Direction::In, Direction::Out) => Ok(
            (ReadEndpoint(locate(number, d, a)), WriteEndpoint(locate(number, d, b))),
        ),
        (Direction::Out, Direction::In) => Ok(
            (ReadEndpoint(locate(number, d, b)), WriteEndpoint(locate(number, d, a))),
        ),
        _ => Err(EndpointDiscoveryError::ConflictingDirections),
    }
}

fn is_match(whole: bool, d: &InterfaceDescriptor, target: &ClassTriple) -> (r: bool)
    ensures
        r == setting_matches(whole, *d, *target),
{
    whole || (d.class_code == target.class_code && d.sub_class_code == target.sub_class_code
        && d.protocol_code == target.protocol_code)
}

fn search_interface<'a>(iface: &'a Interface, whole: bool, target: &ClassTriple) -> (r: Option<
    &'a InterfaceDescriptor,
>)
    ensures
        r.is_some() == first_setting(iface.descriptors@, 0, whole, *target).is_some(),
        r.is_some() ==> *r.unwrap() == first_setting(iface.descriptors@, 0, whole, *target).unwrap(),
{
    let mut k: usize = 0;
    while k < iface.descriptors.len()
        invariant
            k <= iface.descriptors@.len(),
            first_setting(iface.descriptors@, 0, whole, *target) == first_setting(
                iface.descriptors@,
                k as int,
                whole,
                *target,
            ),
        decreases iface.descriptors@.len() - k,
    {
        let d = &iface.descriptors[k];
        if is_match(whole, d, target) {
            return Some(d);
        }
        k += 1;
    }
    None
}

fn search_config<'a>(config: &'a ConfigDescriptor, whole: bool, target: &ClassTriple) -> (r: Option<
    &'a InterfaceDescriptor,
>)
    ensures
        r.is_some() == first_interface(config.interfaces@, 0, whole, *target).is_some(),
        r.is_some() ==> *r.unwrap() == first_interface(config.interfaces@, 0, whole, *target).unwrap(),
{
    let mut i: usize = 0;
    while i < config.interfaces.len()
        invariant
            i <= config.interfaces@.len(),
            first_interface(config.interfaces@, 0, whole, *target) == first_interface(
                config.interfaces@,
                i as int,
                whole,
                *target,
            ),
        decreases config.interfaces@.len() - i,
    {
        let found = search_interface(&config.interfaces[i], whole, target);
        if found.is_some() {
            return found;
        }
        i += 1;
    }
    None
}

/// Finds the duplex pair of `tree` for the class triple `target`.
///
/// When the device itself carries the triple, every setting matches.
/// Otherwise configurations, interfaces and alternate settings are walked
/// in descriptor order and each setting is tested against the triple. The
/// first match decides: its last two endpoints are the pair, or the error.
pub fn find_duplex_pair(tree: &DeviceDescriptor, target: ClassTriple) -> (r: DuplexPair)
    ensures
        r == duplex_pair(*tree, target),
{
    let whole = tree.class_code == target.class_code && tree.sub_class_code
        == target.sub_class_code && tree.protocol_code == target.protocol_code;
    let mut c: usize = 0;
    while c < tree.configurations.len()
        invariant
            c <= tree.configurations@.len(),
            whole == device_matches(*tree, target),
            first_config(tree.configurations@, 0, whole, target) == first_config(
                tree.configurations@,
                c as int,
                whole,
                target,
            ),
        decreases tree.configurations@.len() - c,
    {
        let config = &tree.configurations[c];
        match search_config(config, whole, &target) {
            Some(d) => {
                return select_pair(config.number, d);
            },
            None => {},
        }
        c += 1;
    }
    Err(EndpointDiscoveryError::NoMatchingInterface)
}

} // verus!
