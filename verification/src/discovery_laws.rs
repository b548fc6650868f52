//! What holds of endpoint discovery on every descriptor tree.

use vstd::prelude::*;
use crate::descriptor::{
    ClassTriple, ConfigDescriptor, DeviceDescriptor, Direction, Interface, InterfaceDescriptor,
    ReadEndpoint, WriteEndpoint, device_matches, duplex_pair, first_config, first_interface,
    first_setting, located, pair_of, setting_matches,
};

verus! {

/// Whether `(c, i, k)` names a setting of the tree: configuration `c`,
/// interface `i` of it, alternate setting `k` of that.
pub open spec fn has_setting(tree: DeviceDescriptor, c: int, i: int, k: int) -> bool {
    &&& 0 <= c < tree.configurations@.len()
    &&& 0 <= i < tree.configurations@[c].interfaces@.len()
    &&& 0 <= k < tree.configurations@[c].interfaces@[i].descriptors@.len()
}

/// The setting at `(c, i, k)`.
pub open spec fn setting_at(tree: DeviceDescriptor, c: int, i: int, k: int) -> InterfaceDescriptor {
    tree.configurations@[c].interfaces@[i].descriptors@[k]
}

/// Whether the tree has a matching setting at `(c, i, k)`.
pub open spec fn matches_at(
    tree: DeviceDescriptor,
    target: ClassTriple,
    c: int,
    i: int,
    k: int,
) -> bool {
    has_setting(tree, c, i, k) && setting_matches(
        device_matches(tree, target),
        setting_at(tree, c, i, k),
        target,
    )
}

/// Whether `(c2, i2, k2)` comes before `(c, i, k)` in descriptor order.
pub open spec fn comes_before(c2: int, i2: int, k2: int, c: int, i: int, k: int) -> bool {
    c2 < c || (c2 == c && i2 < i) || (c2 == c && i2 == i && k2 < k)
}

proof fn lemma_setting_found(
    settings: Seq<InterfaceDescriptor>,
    from: int,
    k: int,
    whole: bool,
    target: ClassTriple,
)
    requires
        0 <= from <= k < settings.len(),
        setting_matches(whole, settings[k], target),
        forall|j: int| from <= j < k ==> !setting_matches(whole, #[trigger] settings[j], target),
    ensures
        first_setting(settings, from, whole, target) == Some(settings[k]),
    decreases k - from,
{
    if from < k {
        lemma_setting_found(settings, from + 1, k, whole, target);
    }
}

proof fn lemma_setting_absent(
    settings: Seq<InterfaceDescriptor>,
    from: int,
    whole: bool,
    target: ClassTriple,
)
    requires
        0 <= from,
        forall|j: int|
            from <= j < settings.len() ==> !setting_matches(whole, #[trigger] settings[j], target),
    ensures
        first_setting(settings, from, whole, target).is_none(),
    decreases settings.len() - from,
{
    if from < settings.len() {
        lemma_setting_absent(settings, from + 1, whole, target);
    }
}

proof fn lemma_interface_found(
    interfaces: Seq<Interface>,
    from: int,
    i: int,
    d: InterfaceDescriptor,
    whole: bool,
    target: ClassTriple,
)
    requires
        0 <= from <= i < interfaces.len(),
        first_setting(interfaces[i].descriptors@, 0, whole, target) == Some(d),
        forall|j: int|
            from <= j < i ==> first_setting(
                (#[trigger] interfaces[j]).descriptors@,
                0,
                whole,
                target,
            ).is_none(),
    ensures
        first_interface(interfaces, from, whole, target) == Some(d),
    decreases i - from,
{
    if from < i {
        lemma_interface_found(interfaces, from + 1, i, d, whole, target);
    }
}

proof fn lemma_interface_absent(
    interfaces: Seq<Interface>,
    from: int,
    whole: bool,
    target: ClassTriple,
)
    requires
        0 <= from,
        forall|j: int|
            from <= j < interfaces.len() ==> first_setting(
                (#[trigger] interfaces[j]).descriptors@,
                0,
                whole,
                target,
            ).is_none(),
    ensures
        first_interface(interfaces, from, whole, target).is_none(),
    decreases interfaces.len() - from,
{
    if from < interfaces.len() {
        lemma_interface_absent(interfaces, from + 1, whole, target);
    }
}

proof fn lemma_config_found(
    configs: Seq<ConfigDescriptor>,
    from: int,
    c: int,
    d: InterfaceDescriptor,
    whole: bool,
    target: ClassTriple,
)
    requires
        0 <= from <= c < configs.len(),
        first_interface(configs[c].interfaces@, 0, whole, target) == Some(d),
        forall|j: int|
            from <= j < c ==> first_interface(
                (#[trigger] configs[j]).interfaces@,
                0,
                whole,
                target,
            ).is_none(),
    ensures
        first_config(configs, from, whole, target) == Some((configs[c].number, d)),
    decreases c - from,
{
    if from < c {
        lemma_config_found(configs, from + 1, c, d, whole, target);
    }
}

/// The first matching setting in descriptor order decides: when the
/// setting at `(c, i, k)` matches and none before it does, discovery yields
/// what that setting yields, whatever comes after it.
pub proof fn lemma_first_match_decides(
    tree: DeviceDescriptor,
    target: ClassTriple,
    c: int,
    i: int,
    k: int,
)
    requires
        matches_at(tree, target, c, i, k),
        forall|c2: int, i2: int, k2: int|
            comes_before(c2, i2, k2, c, i, k) ==> !#[trigger] matches_at(tree, target, c2, i2, k2),
    ensures
        duplex_pair(tree, target) == pair_of(
            tree.configurations@[c].number,
            setting_at(tree, c, i, k),
        ),
{
    let whole = device_matches(tree, target);
    let configs = tree.configurations@;
    let interfaces = configs[c].interfaces@;
    let settings = interfaces[i].descriptors@;
    let d = settings[k];
    assert forall|j: int| 0 <= j < k implies !setting_matches(
        whole,
        #[trigger] settings[j],
        target,
    ) by {
        assert(!matches_at(tree, target, c, i, j));
    }
    lemma_setting_found(settings, 0, k, whole, target);
    assert forall|j: int| 0 <= j < i implies first_setting(
        (#[trigger] interfaces[j]).descriptors@,
        0,
        whole,
        target,
    ).is_none() by {
        let earlier = interfaces[j].descriptors@;
        assert forall|m: int| 0 <= m < earlier.len() implies !setting_matches(
            whole,
            #[trigger] earlier[m],
            target,
        ) by {
            assert(!matches_at(tree, target, c, j, m));
        }
        lemma_setting_absent(earlier, 0, whole, target);
    }
    lemma_interface_found(interfaces, 0, i, d, whole, target);
    assert forall|j: int| 0 <= j < c implies first_interface(
        (#[trigger] configs[j]).interfaces@,
        0,
        whole,
        target,
    ).is_none() by {
        let others = configs[j].interfaces@;
        assert forall|m: int| 0 <= m < others.len() implies first_setting(
            (#[trigger] others[m]).descriptors@,
            0,
            whole,
            target,
        ).is_none() by {
            let earlier = others[m].descriptors@;
            assert forall|n: int| 0 <= n < earlier.len() implies !setting_matches(
                whole,
                #[trigger] earlier[n],
                target,
            ) by {
                assert(!matches_at(tree, target, j, m, n));
            }
            lemma_setting_absent(earlier, 0, whole, target);
        }
        lemma_interface_absent(others, 0, whole, target);
    }
    lemma_config_found(configs, 0, c, d, whole, target);
}

/// A tree with exactly one matching setting, which has exactly two
/// endpoints of opposite directions, yields that setting's inbound endpoint
/// for reading and its outbound endpoint for writing. The pair depends on
/// the tree and the triple alone, so every call yields it.
pub proof fn lemma_single_match_pair(
    tree: DeviceDescriptor,
    target: ClassTriple,
    c: int,
    i: int,
    k: int,
)
    requires
        matches_at(tree, target, c, i, k),
        forall|c2: int, i2: int, k2: int| #[trigger]
            matches_at(tree, target, c2, i2, k2) ==> c2 == c && i2 == i && k2 == k,
        setting_at(tree, c, i, k).endpoints@.len() == 2,
        setting_at(tree, c, i, k).endpoints@[0].direction != setting_at(
            tree,
            c,
            i,
            k,
        ).endpoints@[1].direction,
    ensures
        duplex_pair(tree, target).is_ok(),
        duplex_pair(tree, target).unwrap().0.0.direction == Direction::In,
        duplex_pair(tree, target).unwrap().1.0.direction == Direction::Out,
        ({
            let d = setting_at(tree, c, i, k);
            let number = tree.configurations@[c].number;
            let first = d.endpoints@[0];
            let second = d.endpoints@[1];
            duplex_pair(tree, target) == Ok::<
                (ReadEndpoint, WriteEndpoint),
                crate::descriptor::EndpointDiscoveryError,
            >(
                if first.direction == Direction::In {
                    (
                        ReadEndpoint(located(number, d, first)),
                        WriteEndpoint(located(number, d, second)),
                    )
                } else {
                    (
                        ReadEndpoint(located(number, d, second)),
                        WriteEndpoint(located(number, d, first)),
                    )
                },
            )
        }),
{
    lemma_first_match_decides(tree, target, c, i, k);
}

} // verus!
