//! Which addresses belong to the public internet.

use vstd::arithmetic::power2::pow2;
use vstd::prelude::*;

verus! {

/// An address, by its number.
#[derive(Clone, Copy, Debug, PartialEq, Eq, Structural)]
pub enum IpAddress {
    V4(u32),
    V6(u128),
}

/// The addresses that share the first `prefix` bits of one. An address of the older
/// family is kept in the low bits.
#[derive(Clone, Copy, Debug, PartialEq, Eq, Structural)]
pub struct Network {
    pub address: u128,
    pub prefix: u8,
}

/// A network of addresses of `width` bits.
pub open spec fn is_network(network: Network, width: nat) -> bool {
    network.prefix <= width && network.address < pow2(width)
}

/// An address of `width` bits lies in a network: the first bits agree.
pub open spec fn lies_in(address: int, network: Network, width: nat) -> bool {
    let rest = pow2((width - network.prefix) as nat);
    address / rest as int == network.address as int / rest as int
}

/// `ipnet::Ipv4Net::contains`: whether an address has the first bits of the network.
#[verifier::external_body]
fn ipv4_net_contains(network: u32, prefix: u8, address: u32) -> (r: bool)
    requires
        prefix <= 32,
    ensures
        r == lies_in(address as int, Network { address: network as u128, prefix }, 32),
{
    let host = ipnet::Ipv4Net::new_assert(address.into(), 32).addr();
    ipnet::Ipv4Net::new_assert(network.into(), prefix).contains(&host)
}

/// `ipnet::Ipv6Net::contains`: whether an address has the first bits of the network.
#[verifier::external_body]
fn ipv6_net_contains(network: u128, prefix: u8, address: u128) -> (r: bool)
    requires
        prefix <= 128,
    ensures
        r == lies_in(address as int, Network { address: network, prefix }, 128),
{
    let host = ipnet::Ipv6Net::new_assert(address.into(), 128).addr();
    ipnet::Ipv6Net::new_assert(network.into(), prefix).contains(&host)
}

/// The reserved ranges of the older family.
pub open spec fn private_v4() -> Seq<Network> {
    seq![
        // 0.0.0.0/8
        Network { address: 0x0000_0000, prefix: 8 },
        // 10.0.0.0/8
        Network { address: 0x0a00_0000, prefix: 8 },
        // 100.64.0.0/10
        Network { address: 0x6440_0000, prefix: 10 },
        // 127.0.0.0/8
        Network { address: 0x7f00_0000, prefix: 8 },
        // 169.254.0.0/16
        Network { address: 0xa9fe_0000, prefix: 16 },
        // 172.16.0.0/12
        Network { address: 0xac10_0000, prefix: 12 },
        // 192.0.0.0/29
        Network { address: 0xc000_0000, prefix: 29 },
        // 192.0.2.0/24
        Network { address: 0xc000_0200, prefix: 24 },
        // 192.88.99.0/24
        Network { address: 0xc058_6300, prefix: 24 },
        // 192.168.0.0/16
        Network { address: 0xc0a8_0000, prefix: 16 },
        // 198.18.0.0/15
        Network { address: 0xc612_0000, prefix: 15 },
        // 198.51.100.0/24
        Network { address: 0xc633_6400, prefix: 24 },
        // 224.0.0.0/4
        Network { address: 0xe000_0000, prefix: 4 },
        // 240.0.0.0/4
        Network { address: 0xf000_0000, prefix: 4 },
        // 255.255.255.255/32
        Network { address: 0xffff_ffff, prefix: 32 },
    ]
}

/// The reserved ranges of the newer family: those that stand for the ones above, and
/// its own.
pub open spec fn private_v6() -> Seq<Network> {
    seq![
        // ::ffff:0:0/104
        Network { address: 0x0000_0000_0000_0000_0000_ffff_0000_0000, prefix: 104 },
        // ::ffff:a00:0/104
        Network { address: 0x0000_0000_0000_0000_0000_ffff_0a00_0000, prefix: 104 },
        // ::ffff:6440:0/106
        Network { address: 0x0000_0000_0000_0000_0000_ffff_6440_0000, prefix: 106 },
        // ::ffff:7f00:0/104
        Network { address: 0x0000_0000_0000_0000_0000_ffff_7f00_0000, prefix: 104 },
        // ::ffff:a9fe:0/112
        Network { address: 0x0000_0000_0000_0000_0000_ffff_a9fe_0000, prefix: 112 },
        // ::ffff:ac10:0/108
        Network { address: 0x0000_0000_0000_0000_0000_ffff_ac10_0000, prefix: 108 },
        // ::ffff:c000:0/125
        Network { address: 0x0000_0000_0000_0000_0000_ffff_c000_0000, prefix: 125 },
        // ::ffff:c000:200/120
        Network { address: 0x0000_0000_0000_0000_0000_ffff_c000_0200, prefix: 120 },
        // ::ffff:c058:6300/120
        Network { address: 0x0000_0000_0000_0000_0000_ffff_c058_6300, prefix: 120 },
        // ::ffff:c0a8:0/112
        Network { address: 0x0000_0000_0000_0000_0000_ffff_c0a8_0000, prefix: 112 },
        // ::ffff:c612:0/111
        Network { address: 0x0000_0000_0000_0000_0000_ffff_c612_0000, prefix: 111 },
        // ::ffff:c633:6400/120
        Network { address: 0x0000_0000_0000_0000_0000_ffff_c633_6400, prefix: 120 },
        // ::ffff:e000:0/100
        Network { address: 0x0000_0000_0000_0000_0000_ffff_e000_0000, prefix: 100 },
        // ::ffff:f000:0/100
        Network { address: 0x0000_0000_0000_0000_0000_ffff_f000_0000, prefix: 100 },
        // ::ffff:ffff:ffff/128
        Network { address: 0x0000_0000_0000_0000_0000_ffff_ffff_ffff, prefix: 128 },
        // ::1/128
        Network { address: 0x0000_0000_0000_0000_0000_0000_0000_0001, prefix: 128 },
        // ::ffff:0:0:0/96
        Network { address: 0x0000_0000_0000_0000_ffff_0000_0000_0000, prefix: 96 },
        // 64:ff9b::/96
        Network { address: 0x0064_ff9b_0000_0000_0000_0000_0000_0000, prefix: 96 },
        // 64:ff9b:1::/48
        Network { address: 0x0064_ff9b_0001_0000_0000_0000_0000_0000, prefix: 48 },
        // 100::/64
        Network { address: 0x0100_0000_0000_0000_0000_0000_0000_0000, prefix: 64 },
        // 2001:0000::/32
        Network { address: 0x2001_0000_0000_0000_0000_0000_0000_0000, prefix: 32 },
        // 2001:20::/28
        Network { address: 0x2001_0020_0000_0000_0000_0000_0000_0000, prefix: 28 },
        // 2001:db8::/32
        Network { address: 0x2001_0db8_0000_0000_0000_0000_0000_0000, prefix: 32 },
        // 2002::/16
        Network { address: 0x2002_0000_0000_0000_0000_0000_0000_0000, prefix: 16 },
        // fc00::/7
        Network { address: 0xfc00_0000_0000_0000_0000_0000_0000_0000, prefix: 7 },
        // fe80::/10
        Network { address: 0xfe80_0000_0000_0000_0000_0000_0000_0000, prefix: 10 },
        // ff00::/8
        Network { address: 0xff00_0000_0000_0000_0000_0000_0000_0000, prefix: 8 },
    ]
}

/// The reserved ranges of the older family.
pub fn private_ranges_v4() -> (r: Vec<Network>)
    ensures
        r@ == private_v4(),
        forall|i: int| 0 <= i < r@.len() ==> is_network(#[trigger] r@[i], 32),
{
    let ranges: Vec<Network> = vec![
        // 0.0.0.0/8
        Network { address: 0x0000_0000, prefix: 8 },
        // 10.0.0.0/8
        Network { address: 0x0a00_0000, prefix: 8 },
        // 100.64.0.0/10
        Network { address: 0x6440_0000, prefix: 10 },
        // 127.0.0.0/8
        Network { address: 0x7f00_0000, prefix: 8 },
        // 169.254.0.0/16
        Network { address: 0xa9fe_0000, prefix: 16 },
        // 172.16.0.0/12
        Network { address: 0xac10_0000, prefix: 12 },
        // 192.0.0.0/29
        Network { address: 0xc000_0000, prefix: 29 },
        // 192.0.2.0/24
        Network { address: 0xc000_0200, prefix: 24 },
        // 192.88.99.0/24
        Network { address: 0xc058_6300, prefix: 24 },
        // 192.168.0.0/16
        Network { address: 0xc0a8_0000, prefix: 16 },
        // 198.18.0.0/15
        Network { address: 0xc612_0000, prefix: 15 },
        // 198.51.100.0/24
        Network { address: 0xc633_6400, prefix: 24 },
        // 224.0.0.0/4
        Network { address: 0xe000_0000, prefix: 4 },
        // 240.0.0.0/4
        Network { address: 0xf000_0000, prefix: 4 },
        // 255.255.255.255/32
        Network { address: 0xffff_ffff, prefix: 32 },
    ];
    proof {
        lemma_width_v4();
        assert(ranges@ =~= private_v4());
    }
    ranges
}

/// The reserved ranges of the newer family.
pub fn private_ranges_v6() -> (r: Vec<Network>)
    ensures
        r@ == private_v6(),
        forall|i: int| 0 <= i < r@.len() ==> (#[trigger] r@[i]).prefix <= 128,
{
    let ranges: Vec<Network> = vec![
        // ::ffff:0:0/104
        Network { address: 0x0000_0000_0000_0000_0000_ffff_0000_0000, prefix: 104 },
        // ::ffff:a00:0/104
        Network { address: 0x0000_0000_0000_0000_0000_ffff_0a00_0000, prefix: 104 },
        // ::ffff:6440:0/106
        Network { address: 0x0000_0000_0000_0000_0000_ffff_6440_0000, prefix: 106 },
        // ::ffff:7f00:0/104
        Network { address: 0x0000_0000_0000_0000_0000_ffff_7f00_0000, prefix: 104 },
        // ::ffff:a9fe:0/112
        Network { address: 0x0000_0000_0000_0000_0000_ffff_a9fe_0000, prefix: 112 },
        // ::ffff:ac10:0/108
        Network { address: 0x0000_0000_0000_0000_0000_ffff_ac10_0000, prefix: 108 },
        // ::ffff:c000:0/125
        Network { address: 0x0000_0000_0000_0000_0000_ffff_c000_0000, prefix: 125 },
        // ::ffff:c000:200/120
        Network { address: 0x0000_0000_0000_0000_0000_ffff_c000_0200, prefix: 120 },
        // ::ffff:c058:6300/120
        Network { address: 0x0000_0000_0000_0000_0000_ffff_c058_6300, prefix: 120 },
        // ::ffff:c0a8:0/112
        Network { address: 0x0000_0000_0000_0000_0000_ffff_c0a8_0000, prefix: 112 },
        // ::ffff:c612:0/111
        Network { address: 0x0000_0000_0000_0000_0000_ffff_c612_0000, prefix: 111 },
        // ::ffff:c633:6400/120
        Network { address: 0x0000_0000_0000_0000_0000_ffff_c633_6400, prefix: 120 },
        // ::ffff:e000:0/100
        Network { address: 0x0000_0000_0000_0000_0000_ffff_e000_0000, prefix: 100 },
        // ::ffff:f000:0/100
        Network { address: 0x0000_0000_0000_0000_0000_ffff_f000_0000, prefix: 100 },
        // ::ffff:ffff:ffff/128
        Network { address: 0x0000_0000_0000_0000_0000_ffff_ffff_ffff, prefix: 128 },
        // ::1/128
        Network { address: 0x0000_0000_0000_0000_0000_0000_0000_0001, prefix: 128 },
        // ::ffff:0:0:0/96
        Network { address: 0x0000_0000_0000_0000_ffff_0000_0000_0000, prefix: 96 },
        // 64:ff9b::/96
        Network { address: 0x0064_ff9b_0000_0000_0000_0000_0000_0000, prefix: 96 },
        // 64:ff9b:1::/48
        Network { address: 0x0064_ff9b_0001_0000_0000_0000_0000_0000, prefix: 48 },
        // 100::/64
        Network { address: 0x0100_0000_0000_0000_0000_0000_0000_0000, prefix: 64 },
        // 2001:0000::/32
        Network { address: 0x2001_0000_0000_0000_0000_0000_0000_0000, prefix: 32 },
        // 2001:20::/28
        Network { address: 0x2001_0020_0000_0000_0000_0000_0000_0000, prefix: 28 },
        // 2001:db8::/32
        Network { address: 0x2001_0db8_0000_0000_0000_0000_0000_0000, prefix: 32 },
        // 2002::/16
        Network { address: 0x2002_0000_0000_0000_0000_0000_0000_0000, prefix: 16 },
        // fc00::/7
        Network { address: 0xfc00_0000_0000_0000_0000_0000_0000_0000, prefix: 7 },
        // fe80::/10
        Network { address: 0xfe80_0000_0000_0000_0000_0000_0000_0000, prefix: 10 },
        // ff00::/8
        Network { address: 0xff00_0000_0000_0000_0000_0000_0000_0000, prefix: 8 },
    ];
    proof {
        assert(ranges@ =~= private_v6());
    }
    ranges
}

proof fn lemma_width_v4()
    ensures
        pow2(32) == 0x1_0000_0000,
{
    vstd::arithmetic::power2::lemma2_to64();
}

/// An address lies in one of the networks.
pub open spec fn lies_in_any(address: int, networks: Seq<Network>, width: nat) -> bool {
    exists|i: int| 0 <= i < networks.len() && lies_in(address, #[trigger] networks[i], width)
}

/// An address is reserved: it lies in a reserved range of its family.
pub open spec fn is_private(ip: IpAddress) -> bool {
    match ip {
        IpAddress::V4(address) => lies_in_any(address as int, private_v4(), 32),
        IpAddress::V6(address) => lies_in_any(address as int, private_v6(), 128),
    }
}

/// Whether an address lies in one of the networks.
pub(crate) fn in_any_v4(address: u32, networks: &Vec<Network>) -> (r: bool)
    requires
        forall|i: int| 0 <= i < networks@.len() ==> is_network(#[trigger] networks@[i], 32),
    ensures
        r == lies_in_any(address as int, networks@, 32),
{
    let mut i: usize = 0;
    while i < networks.len()
        invariant
            i <= networks@.len(),
            forall|j: int| 0 <= j < networks@.len() ==> is_network(#[trigger] networks@[j], 32),
            forall|j: int| 0 <= j < i ==> !lies_in(address as int, #[trigger] networks@[j], 32),
        decreases networks.len() - i,
    {
        let network = networks[i];
        proof {
            lemma_width_v4();
            assert(is_network(networks@[i as int], 32));
        }
        if ipv4_net_contains(network.address as u32, network.prefix, address) {
            assert(lies_in(address as int, networks@[i as int], 32));
            return true;
        }
        i = i + 1;
    }
    false
}

/// Whether an address lies in one of the networks.
pub(crate) fn in_any_v6(address: u128, networks: &Vec<Network>) -> (r: bool)
    requires
        forall|i: int| 0 <= i < networks@.len() ==> (#[trigger] networks@[i]).prefix <= 128,
    ensures
        r == lies_in_any(address as int, networks@, 128),
{
    let mut i: usize = 0;
    while i < networks.len()
        invariant
            i <= networks@.len(),
            forall|j: int| 0 <= j < networks@.len() ==> (#[trigger] networks@[j]).prefix <= 128,
            forall|j: int| 0 <= j < i ==> !lies_in(address as int, #[trigger] networks@[j], 128),
        decreases networks.len() - i,
    {
        let network = networks[i];
        if ipv6_net_contains(network.address, network.prefix, address) {
            assert(lies_in(address as int, networks@[i as int], 128));
            return true;
        }
        i = i + 1;
    }
    false
}

/// Whether an address belongs to the public internet.
pub fn is_external_ip(ip: IpAddress) -> (r: bool)
    ensures
        r == !is_private(ip),
{
    match ip {
        IpAddress::V4(address) => !in_any_v4(address, &private_ranges_v4()),
        IpAddress::V6(address) => !in_any_v6(address, &private_ranges_v6()),
    }
}

/// An address of the older family, written in the newer one.
pub open spec fn mapped(address: u32) -> u128 {
    (0xffff_0000_0000 + address) as u128
}

/// Each range of the older family stands in the newer one too.
proof fn lemma_ranges_are_mapped(i: int)
    requires
        0 <= i < private_v4().len(),
    ensures
        private_v4().len() <= private_v6().len(),
        private_v6()[i].address == 0xffff_0000_0000 + private_v4()[i].address,
        private_v6()[i].prefix == 96 + private_v4()[i].prefix,
        private_v4()[i].prefix <= 32,
{
}

/// Whether a range of the newer family that stands for one of the older holds a mapped
/// address is whether the range of the older holds the address.
proof fn lemma_mapped_range(address: u32, i: int)
    requires
        0 <= i < private_v4().len(),
    ensures
        lies_in(address as int, private_v4()[i], 32) <==> lies_in(
            mapped(address) as int,
            private_v6()[i],
            128,
        ),
{
    lemma_ranges_are_mapped(i);
    let prefix = private_v4()[i].prefix;
    let rest = pow2((32 - prefix) as nat) as int;
    vstd::arithmetic::power2::lemma_pow2_adds(prefix as nat, (32 - prefix) as nat);
    vstd::arithmetic::power2::lemma_pow2_pos((32 - prefix) as nat);
    lemma_width_v4();
    let blocks = 0xffff * pow2(prefix as nat);
    assert(0xffff_0000_0000 == blocks * rest) by (nonlinear_arith)
        requires
            pow2(prefix as nat) * rest == 0x1_0000_0000,
            blocks == 0xffff * pow2(prefix as nat),
    ;
    vstd::arithmetic::div_mod::lemma_hoist_over_denominator(
        address as int,
        blocks as int,
        rest as nat,
    );
    vstd::arithmetic::div_mod::lemma_hoist_over_denominator(
        private_v4()[i].address as int,
        blocks as int,
        rest as nat,
    );
}

proof fn lemma_powers()
    ensures
        pow2(0) == 0x1,
        pow2(32) == 0x1_0000_0000,
        pow2(64) == 0x1_0000_0000_0000_0000,
        pow2(80) == 0x1_0000_0000_0000_0000_0000,
        pow2(96) == 0x1_0000_0000_0000_0000_0000_0000,
        pow2(100) == 0x10_0000_0000_0000_0000_0000_0000,
        pow2(112) == 0x1_0000_0000_0000_0000_0000_0000_0000,
        pow2(118) == 0x40_0000_0000_0000_0000_0000_0000_0000,
        pow2(120) == 0x100_0000_0000_0000_0000_0000_0000_0000,
        pow2(121) == 0x200_0000_0000_0000_0000_0000_0000_0000,
{
    vstd::arithmetic::power2::lemma2_to64();
    vstd::arithmetic::power2::lemma2_to64_rest();
    vstd::arithmetic::power2::lemma_pow2_adds(64, 16);
    vstd::arithmetic::power2::lemma_pow2_adds(64, 32);
    vstd::arithmetic::power2::lemma_pow2_adds(64, 36);
    vstd::arithmetic::power2::lemma_pow2_adds(64, 48);
    vstd::arithmetic::power2::lemma_pow2_adds(64, 54);
    vstd::arithmetic::power2::lemma_pow2_adds(64, 56);
    vstd::arithmetic::power2::lemma_pow2_adds(64, 57);
}

/// The ranges of the newer family that stand for none of the older lie beyond all mapped
/// addresses, or before them.
proof fn lemma_own_range(address: u32, i: int)
    requires
        private_v4().len() <= i < private_v6().len(),
    ensures
        !lies_in(mapped(address) as int, private_v6()[i], 128),
{
    let network = private_v6()[i];
    let rest = pow2((128 - network.prefix) as nat) as int;
    lemma_powers();
    if i == 15 {
        assert(mapped(address) as int / rest == mapped(address) as int) by (nonlinear_arith)
            requires
                rest == 1,
        ;
        assert(network.address as int / rest == 1) by (nonlinear_arith)
            requires
                rest == 1,
                network.address == 1,
        ;
    } else {
        assert(mapped(address) + rest <= network.address);
        vstd::arithmetic::div_mod::lemma_div_is_ordered(
            mapped(address) + rest,
            network.address as int,
            rest,
        );
        vstd::arithmetic::div_mod::lemma_div_plus_one(mapped(address) as int, rest);
    }
}

/// An address is reserved iff it is when it is written in the newer family.
pub proof fn law_mapped_addresses_stay_what_they_are(address: u32)
    ensures
        is_private(IpAddress::V4(address)) <==> is_private(IpAddress::V6(mapped(address))),
{
    if is_private(IpAddress::V4(address)) {
        let i = choose|i: int|
            0 <= i < private_v4().len() && lies_in(address as int, #[trigger] private_v4()[i], 32);
        lemma_mapped_range(address, i);
        lemma_ranges_are_mapped(i);
        assert(lies_in(mapped(address) as int, private_v6()[i], 128));
    }
    if is_private(IpAddress::V6(mapped(address))) {
        let i = choose|i: int|
            0 <= i < private_v6().len() && lies_in(
                mapped(address) as int,
                #[trigger] private_v6()[i],
                128,
            );
        if i < private_v4().len() {
            lemma_mapped_range(address, i);
            assert(lies_in(address as int, private_v4()[i], 32));
        } else {
            lemma_own_range(address, i);
        }
    }
}

/// A network whose address ends in zeros holds the addresses from its own on.
proof fn lemma_block(x: int, network: Network, width: nat, rest: int, blocks: int)
    requires
        pow2((width - network.prefix) as nat) == rest,
        rest > 0,
        network.address == blocks * rest,
    ensures
        lies_in(x, network, width) <==> network.address <= x < network.address + rest,
{
    vstd::arithmetic::div_mod::lemma_div_multiples_vanish(blocks, rest);
    assert(blocks * rest == rest * blocks) by (nonlinear_arith);
    vstd::arithmetic::div_mod::lemma_fundamental_div_mod(x, rest);
    vstd::arithmetic::div_mod::lemma_mod_bound(x, rest);
    let q = x / rest;
    assert(q == blocks <==> rest * blocks <= x < rest * blocks + rest) by (nonlinear_arith)
        requires
            rest > 0,
            x == rest * q + x % rest,
            0 <= x % rest < rest,
    ;
}

/// The four parts of an address of the older family, the first one first.
pub open spec fn has_octets(address: u32, a: u8, b: u8, c: u8, d: u8) -> bool {
    address == 0x100_0000 * a + 0x1_0000 * b + 0x100 * c + d
}

/// The parts of an address are those of a reserved one.
pub open spec fn octets_reserved(a: u8, b: u8, c: u8, d: u8) -> bool {
    ||| a == 0 || a == 10 || a == 127 || a >= 224
    ||| a == 100 && 64 <= b <= 127
    ||| a == 169 && b == 254
    ||| a == 172 && 16 <= b <= 31
    ||| a == 192 && b == 0 && c == 0 && d <= 7
    ||| a == 192 && b == 0 && c == 2
    ||| a == 192 && b == 88 && c == 99
    ||| a == 192 && b == 168
    ||| a == 198 && 18 <= b <= 19
    ||| a == 198 && b == 51 && c == 100
}

/// Which addresses of the older family are reserved: those of this network, of private
/// networks, of providers' networks, of the machine itself, of one link, of protocols, of
/// examples, of relays and of measurements, and all from the multicast ones on.
pub proof fn law_reserved_addresses_of_the_older_family(
    address: u32,
    a: u8,
    b: u8,
    c: u8,
    d: u8,
)
    requires
        has_octets(address, a, b, c, d),
    ensures
        is_private(IpAddress::V4(address)) <==> octets_reserved(a, b, c, d),
{
    let x = address as int;
    let v4 = private_v4();
    vstd::arithmetic::power2::lemma2_to64();
    lemma_block(x, v4[0], 32, 0x100_0000, 0x0);
    assert(lies_in(x, v4[0], 32) <==> a == 0);
    lemma_block(x, v4[1], 32, 0x100_0000, 0xa);
    assert(lies_in(x, v4[1], 32) <==> a == 10);
    lemma_block(x, v4[2], 32, 0x40_0000, 0x191);
    assert(lies_in(x, v4[2], 32) <==> a == 100 && 64 <= b <= 127);
    lemma_block(x, v4[3], 32, 0x100_0000, 0x7f);
    assert(lies_in(x, v4[3], 32) <==> a == 127);
    lemma_block(x, v4[4], 32, 0x1_0000, 0xa9fe);
    assert(lies_in(x, v4[4], 32) <==> a == 169 && b == 254);
    lemma_block(x, v4[5], 32, 0x10_0000, 0xac1);
    assert(lies_in(x, v4[5], 32) <==> a == 172 && 16 <= b <= 31);
    lemma_block(x, v4[6], 32, 0x8, 0x1800_0000);
    assert(lies_in(x, v4[6], 32) <==> a == 192 && b == 0 && c == 0 && d <= 7);
    lemma_block(x, v4[7], 32, 0x100, 0xc0_0002);
    assert(lies_in(x, v4[7], 32) <==> a == 192 && b == 0 && c == 2);
    lemma_block(x, v4[8], 32, 0x100, 0xc0_5863);
    assert(lies_in(x, v4[8], 32) <==> a == 192 && b == 88 && c == 99);
    lemma_block(x, v4[9], 32, 0x1_0000, 0xc0a8);
    assert(lies_in(x, v4[9], 32) <==> a == 192 && b == 168);
    lemma_block(x, v4[10], 32, 0x2_0000, 0x6309);
    assert(lies_in(x, v4[10], 32) <==> a == 198 && 18 <= b <= 19);
    lemma_block(x, v4[11], 32, 0x100, 0xc6_3364);
    assert(lies_in(x, v4[11], 32) <==> a == 198 && b == 51 && c == 100);
    lemma_block(x, v4[12], 32, 0x1000_0000, 0xe);
    assert(lies_in(x, v4[12], 32) <==> 224 <= a <= 239);
    lemma_block(x, v4[13], 32, 0x1000_0000, 0xf);
    assert(lies_in(x, v4[13], 32) <==> a >= 240);
    lemma_block(x, v4[14], 32, 0x1, 0xffff_ffff);
    assert(lies_in(x, v4[14], 32) <==> a == 255 && b == 255 && c == 255 && d == 255);
}

/// The eight parts of an address of the newer family, the first one first.
pub open spec fn has_groups(address: u128, g: Seq<u16>) -> bool {
    &&& g.len() == 8
    &&& address == 0x1_0000_0000_0000_0000_0000_0000_0000 * g[0]
        + 0x1_0000_0000_0000_0000_0000_0000 * g[1] + 0x1_0000_0000_0000_0000_0000 * g[2]
        + 0x1_0000_0000_0000_0000 * g[3] + 0x1_0000_0000_0000 * g[4] + 0x1_0000_0000 * g[5]
        + 0x1_0000 * g[6] + g[7]
}

/// The parts of an address are those of one that is reserved in the newer family itself.
pub open spec fn groups_reserved(g: Seq<u16>) -> bool {
    ||| g[0] == 0 && g[1] == 0 && g[2] == 0 && g[3] == 0 && g[4] == 0 && g[5] == 0 && g[6] == 0
        && g[7] == 1
    ||| g[0] == 0 && g[1] == 0 && g[2] == 0 && g[3] == 0 && g[4] == 0xffff && g[5] == 0
    ||| g[0] == 0x64 && g[1] == 0xff9b && g[2] == 0 && g[3] == 0 && g[4] == 0 && g[5] == 0
    ||| g[0] == 0x64 && g[1] == 0xff9b && g[2] == 1
    ||| g[0] == 0x100 && g[1] == 0 && g[2] == 0 && g[3] == 0
    ||| g[0] == 0x2001 && g[1] == 0
    ||| g[0] == 0x2001 && 0x20 <= g[1] <= 0x2f
    ||| g[0] == 0x2001 && g[1] == 0xdb8
    ||| g[0] == 0x2002
    ||| 0xfc00 <= g[0] <= 0xfdff
    ||| 0xfe80 <= g[0] <= 0xfebf
    ||| 0xff00 <= g[0]
}

/// The parts of an address are those of one that stands for a reserved one of the older
/// family.
pub open spec fn groups_mapped(g: Seq<u16>) -> bool {
    &&& g[0] == 0 && g[1] == 0 && g[2] == 0 && g[3] == 0 && g[4] == 0 && g[5] == 0xffff
    &&& octets_reserved(
        (g[6] / 256) as u8,
        (g[6] % 256) as u8,
        (g[7] / 256) as u8,
        (g[7] % 256) as u8,
    )
}

/// Which addresses of the newer family are reserved: those that stand for a reserved one
/// of the older family, the machine itself, translations, the discard prefix, tunnels,
/// identifiers, examples, relays, private networks, one link and multicast.
pub proof fn law_reserved_addresses_of_the_newer_family(address: u128, g: Seq<u16>)
    requires
        has_groups(address, g),
    ensures
        is_private(IpAddress::V6(address)) <==> groups_reserved(g) || groups_mapped(g),
{
    let x = address as int;
    let v6 = private_v6();
    if groups_reserved(g) {
        lemma_own_groups(address, g);
        let i = choose|i: int| 15 <= i < 27 && lies_in(x, #[trigger] v6[i], 128);
        assert(lies_in(x, v6[i], 128));
    }
    if groups_mapped(g) {
        lemma_mapped_groups(address, g);
    }
    if is_private(IpAddress::V6(address)) {
        let i = choose|i: int| 0 <= i < v6.len() && lies_in(x, #[trigger] v6[i], 128);
        if i < 15 {
            lemma_in_mapped_range(address, i, g);
            lemma_mapped_groups(address, g);
        } else {
            lemma_own_groups(address, g);
        }
    }
}

/// An address that stands for one of the older family is as reserved as that.
proof fn lemma_mapped_groups(address: u128, g: Seq<u16>)
    requires
        has_groups(address, g),
        g[0] == 0 && g[1] == 0 && g[2] == 0 && g[3] == 0 && g[4] == 0 && g[5] == 0xffff,
    ensures
        is_private(IpAddress::V6(address)) <==> groups_mapped(g),
{
    let older = (0x1_0000 * g[6] + g[7]) as u32;
    law_mapped_addresses_stay_what_they_are(older);
    law_reserved_addresses_of_the_older_family(
        older,
        (g[6] / 256) as u8,
        (g[6] % 256) as u8,
        (g[7] / 256) as u8,
        (g[7] % 256) as u8,
    );
    assert(mapped(older) == address);
}

/// The ranges that stand for one of the older family hold only addresses that do.
proof fn lemma_in_mapped_range(address: u128, i: int, g: Seq<u16>)
    requires
        has_groups(address, g),
        0 <= i < 15,
        lies_in(address as int, private_v6()[i], 128),
    ensures
        g[0] == 0 && g[1] == 0 && g[2] == 0 && g[3] == 0 && g[4] == 0 && g[5] == 0xffff,
{
    lemma_ranges_are_mapped(i);
    let network = private_v6()[i];
    let prefix = private_v4()[i].prefix;
    let rest = pow2((32 - prefix) as nat) as int;
    let up = pow2(prefix as nat) as int;
    vstd::arithmetic::power2::lemma_pow2_adds(prefix as nat, (32 - prefix) as nat);
    vstd::arithmetic::power2::lemma_pow2_pos((32 - prefix) as nat);
    vstd::arithmetic::power2::lemma_pow2_pos(prefix as nat);
    lemma_width_v4();
    assert(rest * up == 0x1_0000_0000) by (nonlinear_arith)
        requires
            up * rest == 0x1_0000_0000,
    ;
    vstd::arithmetic::div_mod::lemma_div_denominator(address as int, rest, up);
    vstd::arithmetic::div_mod::lemma_div_denominator(network.address as int, rest, up);
    assert(address as int / 0x1_0000_0000 == network.address as int / 0x1_0000_0000);
    assert(network.address as int / 0x1_0000_0000 == 0xffff);
}

/// The own ranges of the newer family, by their parts.
proof fn lemma_own_groups(address: u128, g: Seq<u16>)
    requires
        has_groups(address, g),
    ensures
        groups_reserved(g) <==> exists|i: int|
            15 <= i < 27 && lies_in(address as int, #[trigger] private_v6()[i], 128),
{
    let x = address as int;
    let v6 = private_v6();
    lemma_powers();
    lemma_block(x, v6[15], 128, 0x1, 0x1);
    assert(lies_in(x, v6[15], 128) <==> g[0] == 0 && g[1] == 0 && g[2] == 0 && g[3] == 0 && g[4] == 0 && g[5] == 0 && g[6] == 0
        && g[7] == 1);
    lemma_block(x, v6[16], 128, 0x1_0000_0000, 0xffff_0000);
    assert(lies_in(x, v6[16], 128) <==> g[0] == 0 && g[1] == 0 && g[2] == 0 && g[3] == 0 && g[4] == 0xffff && g[5] == 0);
    lemma_block(x, v6[17], 128, 0x1_0000_0000, 0x64_ff9b_0000_0000_0000_0000);
    assert(lies_in(x, v6[17], 128) <==> g[0] == 0x64 && g[1] == 0xff9b && g[2] == 0 && g[3] == 0 && g[4] == 0 && g[5] == 0);
    lemma_block(x, v6[18], 128, 0x1_0000_0000_0000_0000_0000, 0x64_ff9b_0001);
    assert(lies_in(x, v6[18], 128) <==> g[0] == 0x64 && g[1] == 0xff9b && g[2] == 1);
    lemma_block(x, v6[19], 128, 0x1_0000_0000_0000_0000, 0x100_0000_0000_0000);
    assert(lies_in(x, v6[19], 128) <==> g[0] == 0x100 && g[1] == 0 && g[2] == 0 && g[3] == 0);
    lemma_block(x, v6[20], 128, 0x1_0000_0000_0000_0000_0000_0000, 0x2001_0000);
    assert(lies_in(x, v6[20], 128) <==> g[0] == 0x2001 && g[1] == 0);
    lemma_block(x, v6[21], 128, 0x10_0000_0000_0000_0000_0000_0000, 0x200_1002);
    assert(lies_in(x, v6[21], 128) <==> g[0] == 0x2001 && 0x20 <= g[1] <= 0x2f);
    lemma_block(x, v6[22], 128, 0x1_0000_0000_0000_0000_0000_0000, 0x2001_0db8);
    assert(lies_in(x, v6[22], 128) <==> g[0] == 0x2001 && g[1] == 0xdb8);
    lemma_block(x, v6[23], 128, 0x1_0000_0000_0000_0000_0000_0000_0000, 0x2002);
    assert(lies_in(x, v6[23], 128) <==> g[0] == 0x2002);
    lemma_block(x, v6[24], 128, 0x200_0000_0000_0000_0000_0000_0000_0000, 0x7e);
    assert(lies_in(x, v6[24], 128) <==> 0xfc00 <= g[0] <= 0xfdff);
    lemma_block(x, v6[25], 128, 0x40_0000_0000_0000_0000_0000_0000_0000, 0x3fa);
    assert(lies_in(x, v6[25], 128) <==> 0xfe80 <= g[0] <= 0xfebf);
    lemma_block(x, v6[26], 128, 0x100_0000_0000_0000_0000_0000_0000_0000, 0xff);
    assert(lies_in(x, v6[26], 128) <==> 0xff00 <= g[0]);
}

} // verus!
