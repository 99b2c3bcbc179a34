use uptime_checker::checker::dns_resolution::{external_addresses, RestrictedResolver};
use uptime_checker::checker::ip_filter::{
    is_external_ip, private_ranges_v4, private_ranges_v6, IpAddress, Network,
};

fn v4(a: u8, b: u8, c: u8, d: u8) -> IpAddress {
    IpAddress::V4(u32::from_be_bytes([a, b, c, d]))
}

#[test]
fn reserved_addresses_are_not_external() {
    assert!(is_external_ip(v4(8, 8, 8, 8)));
    assert!(!is_external_ip(v4(127, 0, 0, 1)));
    assert!(!is_external_ip(v4(10, 1, 2, 3)));
    assert!(!is_external_ip(v4(172, 31, 255, 255)));
    assert!(is_external_ip(v4(172, 32, 0, 0)));
    assert!(!is_external_ip(v4(192, 168, 0, 1)));
    assert!(!is_external_ip(v4(255, 255, 255, 255)));
    assert!(!is_external_ip(IpAddress::V6(1)));
    assert!(!is_external_ip(IpAddress::V6(0xffff_0a00_0001)));
    assert!(is_external_ip(IpAddress::V6(0x2606_4700_0000_0000_0000_0000_0000_1111)));
    assert_eq!(private_ranges_v4().len(), 15);
    assert_eq!(private_ranges_v6().len(), 27);
}

#[test]
fn addresses_mapped_to_the_newer_family_stay_reserved() {
    for range in private_ranges_v4() {
        assert!(!is_external_ip(IpAddress::V4(range.address as u32)));
        assert!(!is_external_ip(IpAddress::V6(0xffff_0000_0000 + range.address)));
    }
    for number in (0..=u32::MAX).step_by(0x8_0001) {
        assert_eq!(
            is_external_ip(IpAddress::V4(number)),
            is_external_ip(IpAddress::V6(0xffff_0000_0000 + u128::from(number)))
        );
    }
    assert!(is_external_ip(IpAddress::V6(0xffff_0808_0808)));
}

#[test]
fn only_external_addresses_are_kept() {
    let mixed = vec![v4(10, 0, 0, 1), v4(8, 8, 8, 8), IpAddress::V6(1), v4(1, 1, 1, 1)];
    assert_eq!(external_addresses(&mixed).unwrap(), vec![v4(8, 8, 8, 8), v4(1, 1, 1, 1)]);
    assert_eq!(external_addresses(&vec![v4(10, 0, 0, 1)]).unwrap_err(), "destination is restricted");
    assert!(external_addresses(&Vec::new()).is_err());
}

#[test]
fn a_host_with_a_restricted_address_is_refused() {
    let resolver = RestrictedResolver::new(
        vec![Network { address: 0x0a00_0000, prefix: 8 }],
        vec![Network { address: 0, prefix: 64 }],
    );
    let fine = vec![v4(8, 8, 8, 8), IpAddress::V6(1 << 64)];
    assert_eq!(resolver.resolve(fine.clone()).unwrap(), fine);
    assert_eq!(
        resolver.resolve(vec![v4(8, 8, 8, 8), v4(10, 255, 0, 1)]).unwrap_err(),
        "Host resolved to a restricted address"
    );
    assert!(resolver.resolve(vec![IpAddress::V6(5)]).is_err());
}
