//! The local address: handed in by the host, or chosen among the interfaces of the machine.

use vstd::prelude::*;

use crate::address::{ipv4_of, parse_ipv4, Ipv4};
use crate::models::views;
use crate::text::{ascii_lowered, begins_with, chars_of, contains, occurs_in, opt_text, same, starts_with, to_ascii_lower, trim, trimmed};

verus! {

// ---- the address that the host hands in ----

/// The local address as far as it is known.
pub struct LocalAddress {
    /// The address that the host handed in.
    pub handed_in: Option<String>,
    /// The interface that was chosen last.
    pub iface: Option<String>,
}

/// Whether an address that is handed in can be used. `routable_v6` tells whether the trimmed
/// text is an IPv6 address other than the loopback and the unspecified one.
pub open spec fn usable_override(ip: Seq<char>, routable_v6: bool) -> bool {
    let clean = trimmed(ip);
    &&& clean.len() > 0
    &&& !begins_with(clean, "127."@)
    &&& clean != "localhost"@
    &&& match ipv4_of(clean) {
        Some(v4) => !v4.loopback() && !v4.unspecified(),
        None => routable_v6,
    }
}

impl LocalAddress {
    /// Nothing known.
    pub fn new() -> (r: LocalAddress)
        ensures
            r.handed_in is None,
            r.iface is None,
    {
        LocalAddress { handed_in: None, iface: None }
    }
}

/// Takes an address from the host; one that cannot be used clears what was handed in before.
pub fn set_local_ip_override(slot: &mut LocalAddress, ip: &str, routable_v6: bool)
    ensures
        opt_text(final(slot).handed_in) == (if usable_override(ip@, routable_v6) {
            Some(trimmed(ip@))
        } else {
            None
        }),
        final(slot).iface == old(slot).iface,
{
    let clean: String = trim(ip);
    let fits: bool = match parse_ipv4(clean.as_str()) {
        Some(v4) => v4.a != 127 && !(v4.a == 0 && v4.b == 0 && v4.c == 0 && v4.d == 0),
        None => routable_v6,
    };
    let valid: bool = chars_of(clean.as_str()).len() > 0 && !starts_with(clean.as_str(), "127.")
        && !same(clean.as_str(), "localhost") && fits;
    slot.handed_in = if valid {
        Some(clean)
    } else {
        None
    };
}

/// A text that is not empty.
pub open spec fn filled(s: Option<Seq<char>>) -> Option<Seq<char>> {
    match s {
        Some(t) => if t.len() > 0 {
            Some(t)
        } else {
            None
        },
        None => None,
    }
}

fn filled_of(s: &Option<String>) -> (r: Option<String>)
    ensures
        opt_text(r) == filled(opt_text(*s)),
{
    match s {
        Some(t) => if chars_of(t.as_str()).len() > 0 {
            Some(t.clone())
        } else {
            None
        },
        None => None,
    }
}

/// The address that the host handed in.
pub fn local_ip_override(slot: &LocalAddress) -> (r: Option<String>)
    ensures
        opt_text(r) == filled(opt_text(slot.handed_in)),
{
    filled_of(&slot.handed_in)
}

/// Where the local address comes from.
pub open spec fn address_source(handed_in: Option<Seq<char>>, iface: Option<Seq<char>>) -> Option<
    Seq<char>,
> {
    if handed_in is Some {
        Some("wifi(Android注入)"@)
    } else {
        filled(iface)
    }
}

/// Where the local address comes from: the host, or the interface that was chosen last.
pub fn local_ip_iface(slot: &LocalAddress) -> (r: Option<String>)
    ensures
        opt_text(r) == address_source(opt_text(slot.handed_in), opt_text(slot.iface)),
{
    if slot.handed_in.is_some() {
        return Some("wifi(Android注入)".to_string());
    }
    filled_of(&slot.iface)
}

/// The local address; empty where there is none.
pub open spec fn local_address(handed_in: Option<Seq<char>>, enumerated: Option<Seq<char>>) -> Seq<
    char,
> {
    match filled(handed_in) {
        Some(ip) => ip,
        None => match enumerated {
            Some(ip) => ip,
            None => ""@,
        },
    }
}

/// The local address: the one handed in, else the one chosen among the interfaces, else none.
pub fn current_local_ip(slot: &LocalAddress, enumerated: &Option<String>) -> (r: String)
    ensures
        r@ == local_address(opt_text(slot.handed_in), opt_text(*enumerated)),
{
    match local_ip_override(slot) {
        Some(ip) => ip,
        None => match enumerated {
            Some(ip) => ip.clone(),
            None => "".to_string(),
        },
    }
}

// ---- choosing among interfaces ----

/// An address of an interface.
#[derive(Debug)]
pub struct Interface {
    pub ip: Ipv4,
    pub name: String,
}

/// The contents of an [`Interface`].
#[verifier::ext_equal]
pub struct InterfaceV {
    pub ip: Ipv4,
    pub name: Seq<char>,
}

impl View for Interface {
    type V = InterfaceV;

    open spec fn view(&self) -> InterfaceV {
        InterfaceV { ip: self.ip, name: self.name@ }
    }
}

/// How interfaces are named.
#[derive(Debug, Clone, Copy, PartialEq, Eq, Structural)]
pub enum Naming {
    /// Device names such as `wlan0`.
    Unix,
    /// Names for people, such as `Wi-Fi`.
    Windows,
}

/// Whether a name in lower case is that of a tunnel or a virtual interface.
pub open spec fn tunnel(name: Seq<char>, naming: Naming) -> bool {
    match naming {
        Naming::Unix => begins_with(name, "tun"@) || begins_with(name, "ppp"@) || begins_with(
            name,
            "tap"@,
        ) || begins_with(name, "utun"@) || occurs_in("vpn"@, name),
        Naming::Windows => occurs_in("vpn"@, name) || occurs_in("tap"@, name) || occurs_in(
            "tunnel"@,
            name,
        ) || occurs_in("virtual"@, name) || occurs_in("hyper-v"@, name) || occurs_in(
            "virtualbox"@,
            name,
        ) || occurs_in("vmware"@, name),
    }
}

/// Whether a name in lower case is that of a wireless or a wired network.
pub open spec fn favoured(name: Seq<char>, naming: Naming) -> bool {
    match naming {
        Naming::Unix => begins_with(name, "wlan"@) || begins_with(name, "eth"@) || begins_with(
            name,
            "en"@,
        ) || occurs_in("wifi"@, name),
        Naming::Windows => occurs_in("wi-fi"@, name) || occurs_in("wifi"@, name) || occurs_in(
            "wlan"@,
            name,
        ) || occurs_in("ethernet"@, name) || occurs_in("eth"@, name) || occurs_in(
            "local area connection"@,
            name,
        ),
    }
}

/// How likely an address is that of a home network.
pub open spec fn rank(ip: Ipv4) -> int {
    if ip.a == 192 && ip.b == 168 {
        3
    } else if ip.a == 10 {
        2
    } else if ip.a == 172 && 16 <= ip.b <= 31 {
        1
    } else {
        0
    }
}

/// Whether an interface may be chosen, as a favoured one or not.
pub open spec fn eligible(i: InterfaceV, naming: Naming, fav: bool) -> bool {
    let name = ascii_lowered(i.name);
    i.ip.reachable() && !tunnel(name, naming) && favoured(name, naming) == fav
}

/// Among the interfaces that may be chosen, the first of those with the highest rank.
pub open spec fn best(list: Seq<InterfaceV>, naming: Naming, fav: bool) -> Option<InterfaceV>
    decreases list.len(),
{
    if list.len() == 0 {
        None
    } else {
        let b = best(list.drop_last(), naming, fav);
        let x = list.last();
        if !eligible(x, naming, fav) {
            b
        } else {
            match b {
                Some(y) => if rank(x.ip) > rank(y.ip) {
                    Some(x)
                } else {
                    b
                },
                None => Some(x),
            }
        }
    }
}

/// The interface that is chosen: a favoured one where there is one.
pub open spec fn chosen(list: Seq<InterfaceV>, naming: Naming) -> Option<InterfaceV> {
    match best(list, naming, true) {
        Some(i) => Some(i),
        None => best(list, naming, false),
    }
}

fn is_tunnel(name: &str, naming: Naming) -> (r: bool)
    ensures
        r == tunnel(name@, naming),
{
    match naming {
        Naming::Unix => starts_with(name, "tun") || starts_with(name, "ppp") || starts_with(
            name,
            "tap",
        ) || starts_with(name, "utun") || contains(name, "vpn"),
        Naming::Windows => contains(name, "vpn") || contains(name, "tap") || contains(
            name,
            "tunnel",
        ) || contains(name, "virtual") || contains(name, "hyper-v") || contains(
            name,
            "virtualbox",
        ) || contains(name, "vmware"),
    }
}

fn is_favoured(name: &str, naming: Naming) -> (r: bool)
    ensures
        r == favoured(name@, naming),
{
    match naming {
        Naming::Unix => starts_with(name, "wlan") || starts_with(name, "eth") || starts_with(
            name,
            "en",
        ) || contains(name, "wifi"),
        Naming::Windows => contains(name, "wi-fi") || contains(name, "wifi") || contains(
            name,
            "wlan",
        ) || contains(name, "ethernet") || contains(name, "eth") || contains(
            name,
            "local area connection",
        ),
    }
}

fn rank_of(ip: &Ipv4) -> (r: u8)
    ensures
        r == rank(*ip),
{
    if ip.a == 192 && ip.b == 168 {
        3
    } else if ip.a == 10 {
        2
    } else if ip.a == 172 && 16 <= ip.b && ip.b <= 31 {
        1
    } else {
        0
    }
}

fn best_of(list: &Vec<Interface>, naming: Naming, fav: bool) -> (r: Option<usize>)
    ensures
        match r {
            Some(i) => i < list.len() && best(views(list@), naming, fav) == Some(
                views(list@)[i as int],
            ),
            None => best(views(list@), naming, fav) is None,
        },
{
    let ghost all = views(list@);
    let mut b: Option<usize> = None;
    let mut i: usize = 0;
    while i < list.len()
        invariant
            i <= list.len(),
            all == views(list@),
            match b {
                Some(k) => k < i && best(all.take(i as int), naming, fav) == Some(all[k as int]),
                None => best(all.take(i as int), naming, fav) is None,
            },
        decreases list.len() - i,
    {
        let x: &Interface = &list[i];
        proof {
            assert(all.take(i + 1).drop_last() =~= all.take(i as int));
            assert(all.take(i + 1).last() == x@);
        }
        let name: String = to_ascii_lower(x.name.as_str());
        if x.ip.is_reachable() && !is_tunnel(name.as_str(), naming) && is_favoured(
            name.as_str(),
            naming,
        ) == fav {
            match b {
                Some(k) => {
                    if rank_of(&x.ip) > rank_of(&list[k].ip) {
                        b = Some(i);
                    }
                },
                None => {
                    b = Some(i);
                },
            }
        }
        i = i + 1;
    }
    assert(all.take(i as int) =~= all);
    b
}

fn choose_interface(slot: &mut LocalAddress, list: &Vec<Interface>, naming: Naming) -> (r: Option<
    String,
>)
    ensures
        match chosen(views(list@), naming) {
            Some(i) => opt_text(r) == Some(i.ip.dotted()) && opt_text(final(slot).iface) == Some(
                ascii_lowered(i.name),
            ),
            None => r is None && final(slot).iface == old(slot).iface,
        },
        final(slot).handed_in == old(slot).handed_in,
{
    let at: Option<usize> = match best_of(list, naming, true) {
        Some(i) => Some(i),
        None => best_of(list, naming, false),
    };
    match at {
        Some(i) => {
            slot.iface = Some(to_ascii_lower(list[i].name.as_str()));
            Some(list[i].ip.to_text())
        },
        None => None,
    }
}

/// The local address among interfaces with device names; the interface chosen is noted.
pub fn local_ip(slot: &mut LocalAddress, list: &Vec<Interface>) -> (r: Option<String>)
    ensures
        match chosen(views(list@), Naming::Unix) {
            Some(i) => opt_text(r) == Some(i.ip.dotted()) && opt_text(final(slot).iface) == Some(
                ascii_lowered(i.name),
            ),
            None => r is None && final(slot).iface == old(slot).iface,
        },
        final(slot).handed_in == old(slot).handed_in,
{
    choose_interface(slot, list, Naming::Unix)
}

/// A network adapter of Windows.
#[derive(Debug)]
pub struct Adapter {
    /// The type of the interface as the system numbers it.
    pub if_type: u32,
    /// The state of the interface as the system numbers it.
    pub oper_status: i32,
    /// The name that people see.
    pub friendly_name: String,
    /// The IPv4 addresses.
    pub addrs: Vec<Ipv4>,
}

/// The contents of an [`Adapter`].
pub struct AdapterV {
    pub if_type: u32,
    pub oper_status: i32,
    pub friendly_name: Seq<char>,
    pub addrs: Seq<Ipv4>,
}

impl View for Adapter {
    type V = AdapterV;

    open spec fn view(&self) -> AdapterV {
        AdapterV {
            if_type: self.if_type,
            oper_status: self.oper_status,
            friendly_name: self.friendly_name@,
            addrs: self.addrs@,
        }
    }
}

/// Whether an adapter is up and neither the loopback nor a tunnel.
pub open spec fn adapter_usable(a: AdapterV) -> bool {
    a.if_type != 24 && a.if_type != 13 && a.oper_status == 1
}

/// The first `n` addresses of an adapter as interfaces.
pub open spec fn adapter_interfaces(a: AdapterV, n: nat) -> Seq<InterfaceV> {
    Seq::new(n, |i: int| InterfaceV { ip: a.addrs[i], name: a.friendly_name })
}

/// The addresses of the usable adapters among the first `n`, in order.
pub open spec fn interfaces_of(list: Seq<AdapterV>, n: nat) -> Seq<InterfaceV>
    decreases n,
{
    if n == 0 {
        Seq::empty()
    } else {
        let before = interfaces_of(list, (n - 1) as nat);
        let a = list[n - 1];
        if adapter_usable(a) {
            before + adapter_interfaces(a, a.addrs.len())
        } else {
            before
        }
    }
}

fn usable_interfaces(list: &Vec<Adapter>) -> (r: Vec<Interface>)
    ensures
        views(r@) == interfaces_of(views(list@), list@.len()),
{
    let ghost all = views(list@);
    let mut out: Vec<Interface> = Vec::new();
    let mut i: usize = 0;
    assert(views(out@) =~= interfaces_of(all, 0));
    while i < list.len()
        invariant
            i <= list.len(),
            all == views(list@),
            views(out@) == interfaces_of(all, i as nat),
        decreases list.len() - i,
    {
        let a: &Adapter = &list[i];
        assert(all[i as int] == a@);
        if a.if_type != 24 && a.if_type != 13 && a.oper_status == 1 {
            let ghost before = views(out@);
            let mut k: usize = 0;
            assert(before + adapter_interfaces(a@, 0) =~= before);
            while k < a.addrs.len()
                invariant
                    k <= a.addrs.len(),
                    views(out@) == before + adapter_interfaces(a@, k as nat),
                decreases a.addrs.len() - k,
            {
                let x: Interface = Interface { ip: a.addrs[k], name: a.friendly_name.clone() };
                proof {
                    crate::models::lemma_views_push(out@, x);
                    assert((before + adapter_interfaces(a@, k as nat)).push(x@) =~= before
                        + adapter_interfaces(a@, (k + 1) as nat));
                }
                out.push(x);
                k = k + 1;
            }
        }
        i = i + 1;
    }
    out
}

/// The local address among the adapters of Windows; the adapter chosen is noted.
pub fn local_ip_windows(slot: &mut LocalAddress, list: &Vec<Adapter>) -> (r: Option<String>)
    ensures
        match chosen(interfaces_of(views(list@), list@.len()), Naming::Windows) {
            Some(i) => opt_text(r) == Some(i.ip.dotted()) && opt_text(final(slot).iface) == Some(
                ascii_lowered(i.name),
            ),
            None => r is None && final(slot).iface == old(slot).iface,
        },
        final(slot).handed_in == old(slot).handed_in,
{
    let interfaces: Vec<Interface> = usable_interfaces(list);
    choose_interface(slot, &interfaces, Naming::Windows)
}

// ---- laws ----

proof fn lemma_best(list: Seq<InterfaceV>, naming: Naming, fav: bool)
    ensures
        match best(list, naming, fav) {
            Some(x) => list.contains(x) && eligible(x, naming, fav) && forall|i: int|
                0 <= i < list.len() && eligible(list[i], naming, fav) ==> rank(
                    (#[trigger] list[i]).ip,
                ) <= rank(x.ip),
            None => forall|i: int|
                0 <= i < list.len() ==> !eligible(#[trigger] list[i], naming, fav),
        },
    decreases list.len(),
{
    if list.len() > 0 {
        let rest = list.drop_last();
        lemma_best(rest, naming, fav);
        assert(list[list.len() - 1] == list.last());
        assert forall|i: int| 0 <= i < rest.len() implies #[trigger] list[i] == rest[i] by {}
        if best(rest, naming, fav) is Some {
            let b = best(rest, naming, fav)->0;
            let j = choose|j: int| 0 <= j < rest.len() && rest[j] == b;
            assert(list[j] == b);
        }
    }
}

/// The address chosen is never a loopback, unspecified or link-local one and never that of a
/// tunnel; a favoured interface is chosen where there is one, and none of a higher rank was
/// passed over.
pub proof fn law_chosen_interface(list: Seq<InterfaceV>, naming: Naming)
    ensures
        match chosen(list, naming) {
            Some(x) => {
                let fav = favoured(ascii_lowered(x.name), naming);
                &&& list.contains(x)
                &&& x.ip.reachable()
                &&& !tunnel(ascii_lowered(x.name), naming)
                &&& !fav ==> forall|i: int|
                    0 <= i < list.len() ==> !eligible(#[trigger] list[i], naming, true)
                &&& forall|i: int|
                    0 <= i < list.len() && eligible(list[i], naming, fav) ==> rank(
                        (#[trigger] list[i]).ip,
                    ) <= rank(x.ip)
            },
            None => forall|i: int|
                0 <= i < list.len() ==> !eligible(#[trigger] list[i], naming, true) && !eligible(
                    list[i],
                    naming,
                    false,
                ),
        },
{
    lemma_best(list, naming, true);
    lemma_best(list, naming, false);
}

/// Addresses of home networks rank before those of larger ones, these before those of the third
/// private range, and these before all others.
pub proof fn law_ranks_of_networks(x: Ipv4, y: Ipv4)
    ensures
        x.a == 192 && x.b == 168 && !(y.a == 192 && y.b == 168) ==> rank(x) > rank(y),
        x.a == 10 && !(y.a == 192 && y.b == 168) && y.a != 10 ==> rank(x) > rank(y),
        x.a == 172 && 16 <= x.b <= 31 && !(y.a == 192 && y.b == 168) && y.a != 10 && !(y.a == 172
            && 16 <= y.b <= 31) ==> rank(x) > rank(y),
        rank(x) == rank(y) <==> (x.a == 192 && x.b == 168 <==> y.a == 192 && y.b == 168) && (x.a
            == 10 <==> y.a == 10) && (x.a == 172 && 16 <= x.b <= 31 <==> y.a == 172 && 16 <= y.b
            <= 31),
{
}

/// An interface that can be reached and is no tunnel is chosen where there is one at all, and a
/// wireless or wired one before any other, whatever their ranks.
pub proof fn law_reachable_interface_is_chosen(list: Seq<InterfaceV>, naming: Naming, i: int)
    requires
        0 <= i < list.len(),
        list[i].ip.a != 127,
        !(list[i].ip.a == 0 && list[i].ip.b == 0 && list[i].ip.c == 0 && list[i].ip.d == 0),
        !(list[i].ip.a == 169 && list[i].ip.b == 254),
        !tunnel(ascii_lowered(list[i].name), naming),
    ensures
        chosen(list, naming) matches Some(x) && {
            &&& list.contains(x)
            &&& favoured(ascii_lowered(list[i].name), naming) ==> favoured(
                ascii_lowered(x.name),
                naming,
            )
            &&& favoured(ascii_lowered(list[i].name), naming) == favoured(
                ascii_lowered(x.name),
                naming,
            ) ==> rank(x.ip) >= rank(list[i].ip)
        },
{
    law_chosen_interface(list, naming);
    assert(eligible(list[i], naming, favoured(ascii_lowered(list[i].name), naming)));
}

/// The names of tunnels and of favoured interfaces, each by what it begins with or holds.
pub proof fn law_interface_names(name: Seq<char>)
    ensures
        begins_with(name, "tun"@) ==> tunnel(name, Naming::Unix),
        begins_with(name, "ppp"@) ==> tunnel(name, Naming::Unix),
        begins_with(name, "tap"@) ==> tunnel(name, Naming::Unix),
        begins_with(name, "utun"@) ==> tunnel(name, Naming::Unix),
        occurs_in("vpn"@, name) ==> tunnel(name, Naming::Unix) && tunnel(name, Naming::Windows),
        occurs_in("tap"@, name) ==> tunnel(name, Naming::Windows),
        occurs_in("tunnel"@, name) ==> tunnel(name, Naming::Windows),
        occurs_in("virtual"@, name) ==> tunnel(name, Naming::Windows),
        occurs_in("hyper-v"@, name) ==> tunnel(name, Naming::Windows),
        occurs_in("vmware"@, name) ==> tunnel(name, Naming::Windows),
        begins_with(name, "wlan"@) ==> favoured(name, Naming::Unix),
        begins_with(name, "eth"@) ==> favoured(name, Naming::Unix),
        begins_with(name, "en"@) ==> favoured(name, Naming::Unix),
        occurs_in("wifi"@, name) ==> favoured(name, Naming::Unix) && favoured(name, Naming::Windows),
        occurs_in("wi-fi"@, name) ==> favoured(name, Naming::Windows),
        occurs_in("wlan"@, name) ==> favoured(name, Naming::Windows),
        occurs_in("ethernet"@, name) ==> favoured(name, Naming::Windows),
        occurs_in("eth"@, name) ==> favoured(name, Naming::Windows),
        occurs_in("local area connection"@, name) ==> favoured(name, Naming::Windows),
        tunnel(name, Naming::Unix) ==> begins_with(name, "tun"@) || begins_with(name, "ppp"@)
            || begins_with(name, "tap"@) || begins_with(name, "utun"@) || occurs_in("vpn"@, name),
        favoured(name, Naming::Unix) ==> begins_with(name, "wlan"@) || begins_with(name, "eth"@)
            || begins_with(name, "en"@) || occurs_in("wifi"@, name),
{
}

/// The addresses of an adapter that is up and neither the loopback nor a tunnel are among those
/// to choose from, under its name.
pub proof fn law_adapter_is_considered(list: Seq<AdapterV>, n: nat, i: int, k: int)
    requires
        0 <= i < n <= list.len(),
        0 <= k < list[i].addrs.len(),
        list[i].oper_status == 1,
        list[i].if_type != 24,
        list[i].if_type != 13,
    ensures
        interfaces_of(list, n).contains(
            InterfaceV { ip: list[i].addrs[k], name: list[i].friendly_name },
        ),
    decreases n,
{
    let x = InterfaceV { ip: list[i].addrs[k], name: list[i].friendly_name };
    let before = interfaces_of(list, (n - 1) as nat);
    let after = interfaces_of(list, n);
    if i == n - 1 {
        assert(after[before.len() + k] == x);
    } else {
        law_adapter_is_considered(list, (n - 1) as nat, i, k);
        let j = choose|j: int| 0 <= j < before.len() && before[j] == x;
        assert(after[j] == x);
    }
}

/// Every address to choose from is that of an adapter that is up and neither the loopback nor a
/// tunnel.
pub proof fn law_considered_adapter_is_usable(list: Seq<AdapterV>, n: nat, j: int) -> (i: int)
    requires
        n <= list.len(),
        0 <= j < interfaces_of(list, n).len(),
    ensures
        0 <= i < n,
        list[i].oper_status == 1,
        list[i].if_type != 24,
        list[i].if_type != 13,
        interfaces_of(list, n)[j].name == list[i].friendly_name,
        list[i].addrs.contains(interfaces_of(list, n)[j].ip),
    decreases n,
{
    let before = interfaces_of(list, (n - 1) as nat);
    if j < before.len() {
        law_considered_adapter_is_usable(list, (n - 1) as nat, j)
    } else {
        assert(list[n - 1].addrs[j - before.len()] == interfaces_of(list, n)[j].ip);
        n - 1
    }
}

/// An IPv4 address that is handed in, with white space around it or without, can be used unless
/// it is one of the machine itself or stands for none.
pub proof fn law_handed_in_address_counts(ip: Ipv4, text: Seq<char>, routable_v6: bool)
    requires
        trimmed(text) == ip.dotted(),
    ensures
        ip.a == 127 || ip.unspecified() ==> !usable_override(text, routable_v6),
        ip.a != 127 && !ip.unspecified() && !begins_with(ip.dotted(), "127."@) ==> usable_override(
            text,
            routable_v6,
        ),
{
    crate::address::law_dotted_reads_back(ip);
    crate::address::lemma_dotted_begins_with_digit(ip);
    reveal_strlit("localhost");
    assert("localhost"@[0] == 'l');
}

/// A text that is no IPv4 address and that is handed in can be used exactly where it is an IPv6
/// address that others can reach, and is neither empty nor a name of the machine itself.
pub proof fn law_handed_in_text_counts(text: Seq<char>, routable_v6: bool)
    requires
        ipv4_of(trimmed(text)) is None,
    ensures
        usable_override(text, routable_v6) <==> routable_v6 && trimmed(text).len() > 0 && trimmed(
            text,
        ) != "localhost"@ && !begins_with(trimmed(text), "127."@),
{
}

/// Of interfaces that are equally good the first one is chosen.
pub proof fn law_first_interface_is_chosen(list: Seq<InterfaceV>, naming: Naming, fav: bool, i: int)
    requires
        0 <= i < list.len(),
        eligible(list[i], naming, fav),
        forall|j: int|
            0 <= j < list.len() && eligible(list[j], naming, fav) && j != i ==> rank(
                (#[trigger] list[j]).ip,
            ) < rank(list[i].ip) || (j > i && rank(list[j].ip) == rank(list[i].ip)),
        !fav ==> forall|j: int|
            0 <= j < list.len() ==> !eligible(#[trigger] list[j], naming, true),
    ensures
        chosen(list, naming) == Some(list[i]),
{
    lemma_first_best(list, naming, fav, i);
    if !fav {
        lemma_best(list, naming, true);
        if best(list, naming, true) is Some {
            let x = best(list, naming, true)->0;
            let j = choose|j: int| 0 <= j < list.len() && list[j] == x;
            assert(!eligible(list[j], naming, true));
        }
    }
}

proof fn lemma_first_best(list: Seq<InterfaceV>, naming: Naming, fav: bool, i: int)
    requires
        0 <= i < list.len(),
        eligible(list[i], naming, fav),
        forall|j: int|
            0 <= j < list.len() && eligible(list[j], naming, fav) && j != i ==> rank(
                (#[trigger] list[j]).ip,
            ) < rank(list[i].ip) || (j > i && rank(list[j].ip) == rank(list[i].ip)),
    ensures
        best(list, naming, fav) == Some(list[i]),
    decreases list.len(),
{
    let rest = list.drop_last();
    assert forall|j: int| 0 <= j < rest.len() implies #[trigger] rest[j] == list[j] by {}
    if i < rest.len() {
        assert forall|j: int|
            0 <= j < rest.len() && eligible(rest[j], naming, fav) && j != i implies rank(
            (#[trigger] rest[j]).ip,
        ) < rank(rest[i].ip) || (j > i && rank(rest[j].ip) == rank(rest[i].ip)) by {
            assert(rest[j] == list[j]);
        }
        lemma_first_best(rest, naming, fav, i);
        assert(list[list.len() - 1] == list.last());
    } else {
        lemma_best(rest, naming, fav);
        if best(rest, naming, fav) is Some {
            let b = best(rest, naming, fav)->0;
            let j = choose|j: int| 0 <= j < rest.len() && rest[j] == b;
            assert(list[j] == b);
        }
    }
}

/// An address that was handed in goes before one that was chosen, and tells where it comes from;
/// without either there is none.
pub proof fn law_handed_in_address_goes_first(
    ip: Seq<char>,
    enumerated: Option<Seq<char>>,
    iface: Option<Seq<char>>,
    handed_in: Option<Seq<char>>,
)
    ensures
        ip.len() > 0 ==> local_address(Some(ip), enumerated) == ip,
        local_address(None, Some(ip)) == ip,
        local_address(None, None).len() == 0,
        handed_in is Some ==> address_source(handed_in, iface) is Some && address_source(
            handed_in,
            iface,
        ) == address_source(handed_in, None),
        ip.len() > 0 ==> address_source(None, Some(ip)) == Some(ip),
        address_source(None, None) is None,
{
    reveal_strlit("");
}

} // verus!
