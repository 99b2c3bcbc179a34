//! Which resolved addresses a check may connect to.

use super::ip_filter::{is_external_ip, is_network, is_private, lies_in_any, IpAddress, Network};
use vstd::prelude::*;

verus! {

/// Keeps checks from resolved addresses in restricted ranges.
#[derive(Debug)]
pub struct RestrictedResolver {
    restricted_v4: Vec<Network>,
    restricted_v6: Vec<Network>,
}

impl RestrictedResolver {
    /// The restricted ranges are networks of their family.
    pub closed spec fn wf(self) -> bool {
        &&& forall|i: int|
            0 <= i < self.restricted_v4@.len() ==> is_network(
                #[trigger] self.restricted_v4@[i],
                32,
            )
        &&& forall|i: int|
            0 <= i < self.restricted_v6@.len() ==> (#[trigger] self.restricted_v6@[i]).prefix
                <= 128
    }

    /// An address lies in a restricted range.
    pub closed spec fn restricts(self, ip: IpAddress) -> bool {
        match ip {
            IpAddress::V4(address) => lies_in_any(address as int, self.restricted_v4@, 32),
            IpAddress::V6(address) => lies_in_any(address as int, self.restricted_v6@, 128),
        }
    }

    /// A resolver that restricts the given ranges.
    pub fn new(restricted_v4: Vec<Network>, restricted_v6: Vec<Network>) -> (r: RestrictedResolver)
        requires
            forall|i: int|
                0 <= i < restricted_v4@.len() ==> is_network(#[trigger] restricted_v4@[i], 32),
            forall|i: int|
                0 <= i < restricted_v6@.len() ==> (#[trigger] restricted_v6@[i]).prefix <= 128,
        ensures
            r.wf(),
            forall|address: u32|
                #![trigger r.restricts(IpAddress::V4(address))]
                r.restricts(IpAddress::V4(address)) == lies_in_any(
                    address as int,
                    restricted_v4@,
                    32,
                ),
            forall|address: u128|
                #![trigger r.restricts(IpAddress::V6(address))]
                r.restricts(IpAddress::V6(address)) == lies_in_any(
                    address as int,
                    restricted_v6@,
                    128,
                ),
    {
        RestrictedResolver { restricted_v4, restricted_v6 }
    }

    fn is_restricted(&self, ip: IpAddress) -> (r: bool)
        requires
            self.wf(),
        ensures
            r == self.restricts(ip),
    {
        match ip {
            IpAddress::V4(address) => super::ip_filter::in_any_v4(address, &self.restricted_v4),
            IpAddress::V6(address) => super::ip_filter::in_any_v6(address, &self.restricted_v6),
        }
    }

    /// The addresses that a host was resolved to, unless one of them is restricted.
    pub fn resolve(&self, addrs: Vec<IpAddress>) -> (r: Result<Vec<IpAddress>, String>)
        requires
            self.wf(),
        ensures
            r is Ok <==> forall|i: int|
                0 <= i < addrs@.len() ==> !self.restricts(#[trigger] addrs@[i]),
            match r {
                Ok(admitted) => admitted@ == addrs@,
                Err(e) => e@ == "Host resolved to a restricted address"@,
            },
    {
        let mut i: usize = 0;
        while i < addrs.len()
            invariant
                self.wf(),
                i <= addrs@.len(),
                forall|j: int| 0 <= j < i ==> !self.restricts(#[trigger] addrs@[j]),
            decreases addrs.len() - i,
        {
            if self.is_restricted(addrs[i]) {
                return Err("Host resolved to a restricted address".to_owned());
            }
            i = i + 1;
        }
        Ok(addrs)
    }
}

/// The addresses of a list that belong to the public internet.
pub open spec fn external_only(ips: Seq<IpAddress>) -> Seq<IpAddress> {
    ips.filter(|ip: IpAddress| !is_private(ip))
}

/// The addresses of a host that a check may connect to, in order. A host with none is
/// refused.
pub fn external_addresses(ips: &Vec<IpAddress>) -> (r: Result<Vec<IpAddress>, String>)
    ensures
        r is Ok <==> external_only(ips@).len() > 0,
        match r {
            Ok(kept) => kept@ == external_only(ips@),
            Err(e) => e@ == "destination is restricted"@,
        },
{
    let mut kept: Vec<IpAddress> = Vec::new();
    let mut i: usize = 0;
    while i < ips.len()
        invariant
            i <= ips@.len(),
            kept@ == external_only(ips@.take(i as int)),
        decreases ips.len() - i,
    {
        let ip = ips[i];
        proof {
            let next = ips@.take(i + 1);
            assert(next.drop_last() =~= ips@.take(i as int));
            reveal(Seq::filter);
        }
        if is_external_ip(ip) {
            kept.push(ip);
        }
        i = i + 1;
    }
    proof {
        assert(ips@.take(i as int) =~= ips@);
    }
    if kept.len() == 0 {
        Err("destination is restricted".to_owned())
    } else {
        Ok(kept)
    }
}

/// No check is ever handed a reserved address.
pub proof fn law_no_private_address_is_kept(ips: Seq<IpAddress>, i: int)
    requires
        0 <= i < external_only(ips).len(),
    ensures
        !is_private(external_only(ips)[i]),
        ips.contains(external_only(ips)[i]),
    decreases ips.len(),
{
    reveal(Seq::filter);
    let rest = ips.drop_last();
    if i < external_only(rest).len() {
        law_no_private_address_is_kept(rest, i);
        let j = rest.index_of(external_only(rest)[i]);
        assert(ips[j] == external_only(ips)[i]);
    } else {
        assert(ips[ips.len() - 1] == external_only(ips)[i]);
    }
}

/// The addresses of a host that are not reserved are all kept, in their order: what is
/// kept of two lists is what is kept of the one, and behind it what is kept of the other.
pub proof fn law_public_addresses_are_kept_in_order(
    front: Seq<IpAddress>,
    back: Seq<IpAddress>,
    ip: IpAddress,
)
    ensures
        external_only(front + back) == external_only(front) + external_only(back),
        !is_private(ip) ==> external_only(seq![ip]) == seq![ip],
        is_private(ip) ==> external_only(seq![ip]).len() == 0,
    decreases back.len(),
{
    reveal(Seq::filter);
    let one = seq![ip];
    assert(one.drop_last() =~= Seq::<IpAddress>::empty());
    assert(external_only(one.drop_last()).len() == 0);
    if !is_private(ip) {
        assert(external_only(one) =~= one);
    }
    if back.len() > 0 {
        let fewer = back.drop_last();
        law_public_addresses_are_kept_in_order(front, fewer, ip);
        assert((front + back).drop_last() =~= front + fewer);
        assert(external_only(front + back) =~= external_only(front) + external_only(back));
    } else {
        assert(front + back =~= front);
        assert(external_only(front + back) =~= external_only(front) + external_only(back));
    }
}

} // verus!
