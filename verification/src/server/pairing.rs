//! Choosing the IPv4 endpoint that the pairing QR code advertises.

use vstd::prelude::*;
use crate::transport::pairing::{ipv4_text, pairing_uri_text, push_ipv4, PairingUri};
use crate::text::{decimal_digits, push_decimal, push_str};

verus! {

/// The address that a server socket was asked to bind.
#[derive(Clone, Copy, Debug, PartialEq, Eq)]
pub enum BindAddress {
    V4 { ip: [u8; 4], port: u16 },
    V6 { port: u16 },
}

/// Connection data that is safe to put in a pairing QR code.
#[derive(Clone, Debug)]
pub struct PairingInfo {
    pub host: [u8; 4],
    pub port: u16,
    pub uri: String,
}

#[derive(Clone, Debug, PartialEq, Eq)]
pub enum PairingError {
    /// QR pairing supports IPv4 only.
    Ipv6Bind,
    /// The address is not a usable LAN IPv4 address.
    UnusableAddress { address: [u8; 4] },
    /// The advertised host differs from a specific bind address.
    IncompatibleBind { pairing_host: [u8; 4], bind_host: [u8; 4] },
    /// Enumerating the network adapters failed with this Win32 status.
    AdapterEnumeration { status: u32 },
    /// No usable LAN IPv4 address was found.
    NoCandidate,
    /// Several LAN IPv4 addresses are equally suitable; their dotted forms, comma separated.
    AmbiguousCandidates { addresses: String },
}

/// The text of a pairing error, as its display shows it.
pub open spec fn pairing_error_text(e: PairingError) -> Seq<char> {
    match e {
        PairingError::Ipv6Bind => "QR pairing supports IPv4 only; bind to an IPv4 address or pass --pairing-host <IPv4>"@,
        PairingError::UnusableAddress { address } => ipv4_text(address@)
            + " is not a usable LAN IPv4 address for QR pairing"@,
        PairingError::IncompatibleBind { pairing_host, bind_host } => "--pairing-host "@ + ipv4_text(pairing_host@)
            + " does not match the non-wildcard --bind address "@ + ipv4_text(bind_host@),
        PairingError::AdapterEnumeration { status } => "could not enumerate Windows network adapters (Win32 error "@
            + decimal_digits(status as nat) + ")"@,
        PairingError::NoCandidate => "could not find a usable LAN IPv4 address; pass --pairing-host <IPv4>"@,
        PairingError::AmbiguousCandidates { addresses } => "multiple LAN IPv4 addresses are equally suitable ("@
            + addresses@ + "); pass --pairing-host <IPv4>"@,
    }
}

impl PairingError {
    /// The error's message.
    pub fn message(&self) -> (text: String)
        ensures
            text@ == pairing_error_text(*self),
    {
        let mut text = String::new();
        match self {
            PairingError::Ipv6Bind => push_str(
                &mut text,
                "QR pairing supports IPv4 only; bind to an IPv4 address or pass --pairing-host <IPv4>",
            ),
            PairingError::UnusableAddress { address } => {
                push_ipv4(&mut text, address);
                push_str(&mut text, " is not a usable LAN IPv4 address for QR pairing");
            },
            PairingError::IncompatibleBind { pairing_host, bind_host } => {
                push_str(&mut text, "--pairing-host ");
                push_ipv4(&mut text, pairing_host);
                push_str(&mut text, " does not match the non-wildcard --bind address ");
                push_ipv4(&mut text, bind_host);
            },
            PairingError::AdapterEnumeration { status } => {
                push_str(&mut text, "could not enumerate Windows network adapters (Win32 error ");
                push_decimal(&mut text, *status as u64);
                push_str(&mut text, ")");
            },
            PairingError::NoCandidate => push_str(
                &mut text,
                "could not find a usable LAN IPv4 address; pass --pairing-host <IPv4>",
            ),
            PairingError::AmbiguousCandidates { addresses } => {
                push_str(&mut text, "multiple LAN IPv4 addresses are equally suitable (");
                push_str(&mut text, addresses.as_str());
                push_str(&mut text, "); pass --pairing-host <IPv4>");
            },
        }
        assert(text@ =~= pairing_error_text(*self));
        text
    }
}

pub open spec fn is_unspecified(a: Seq<u8>) -> bool {
    a[0] == 0 && a[1] == 0 && a[2] == 0 && a[3] == 0
}

/// A LAN address a phone can reach: not unspecified, loopback (127/8),
/// multicast (224/4), broadcast or link-local (169.254/16).
pub open spec fn usable_pairing_address(a: Seq<u8>) -> bool {
    &&& !is_unspecified(a)
    &&& a[0] != 127
    &&& !(224 <= a[0] <= 239)
    &&& !(a[0] == 255 && a[1] == 255 && a[2] == 255 && a[3] == 255)
    &&& !(a[0] == 169 && a[1] == 254)
}

/// A private address: 10/8, 172.16/12 or 192.168/16.
pub open spec fn private_ipv4(a: Seq<u8>) -> bool {
    a[0] == 10 || (a[0] == 172 && 16 <= a[1] <= 31) || (a[0] == 192 && a[1] == 168)
}

pub fn is_usable_pairing_address(address: [u8; 4]) -> (usable: bool)
    ensures
        usable == usable_pairing_address(address@),
{
    let unspecified = address[0] == 0 && address[1] == 0 && address[2] == 0 && address[3] == 0;
    let loopback = address[0] == 127;
    let multicast = 224 <= address[0] && address[0] <= 239;
    let broadcast = address[0] == 255 && address[1] == 255 && address[2] == 255 && address[3] == 255;
    let link_local = address[0] == 169 && address[1] == 254;
    !unspecified && !loopback && !multicast && !broadcast && !link_local
}

pub fn is_private_ipv4(address: [u8; 4]) -> (private: bool)
    ensures
        private == private_ipv4(address@),
{
    address[0] == 10 || (address[0] == 172 && 16 <= address[1] && address[1] <= 31) || (address[0] == 192
        && address[1] == 168)
}

pub fn validate_pairing_host(address: [u8; 4]) -> (result: Result<(), PairingError>)
    ensures
        usable_pairing_address(address@) ==> result is Ok,
        !usable_pairing_address(address@) ==> result == Err::<(), PairingError>(
            PairingError::UnusableAddress { address },
        ),
{
    if is_usable_pairing_address(address) {
        Ok(())
    } else {
        Err(PairingError::UnusableAddress { address })
    }
}

/// An explicit pairing host must match a specific IPv4 bind address; a
/// wildcard bind accepts any host, and an IPv6 bind none.
pub fn validate_bind_compatibility(requested_bind: BindAddress, pairing_host: [u8; 4]) -> (result: Result<(), PairingError>)
    ensures
        match requested_bind {
            BindAddress::V4 { ip, .. } => if is_unspecified(ip@) || ip@ == pairing_host@ {
                result is Ok
            } else {
                result == Err::<(), PairingError>(PairingError::IncompatibleBind { pairing_host, bind_host: ip })
            },
            BindAddress::V6 { .. } => result == Err::<(), PairingError>(PairingError::Ipv6Bind),
        },
{
    match requested_bind {
        BindAddress::V4 { ip, .. } => {
            let unspecified = ip[0] == 0 && ip[1] == 0 && ip[2] == 0 && ip[3] == 0;
            let same = ip[0] == pairing_host[0] && ip[1] == pairing_host[1] && ip[2] == pairing_host[2]
                && ip[3] == pairing_host[3];
            if unspecified || same {
                assert(unspecified || ip@ =~= pairing_host@);
                Ok(())
            } else {
                Err(PairingError::IncompatibleBind { pairing_host, bind_host: ip })
            }
        },
        BindAddress::V6 { .. } => Err(PairingError::Ipv6Bind),
    }
}

/// Where the advertised host comes from.
#[derive(Clone, Copy, Debug, PartialEq, Eq)]
pub enum PairingHostChoice {
    /// This address, given or bound explicitly.
    Fixed([u8; 4]),
    /// The wildcard was bound: pick an adapter address.
    Automatic,
}

/// The source of the advertised host, or why there is none.
pub open spec fn pairing_host_choice(
    requested_bind: BindAddress,
    pairing_host: Option<[u8; 4]>,
) -> Result<PairingHostChoice, PairingError> {
    match pairing_host {
        Some(h) => if !usable_pairing_address(h@) {
            Err(PairingError::UnusableAddress { address: h })
        } else {
            match requested_bind {
                BindAddress::V4 { ip, .. } => if is_unspecified(ip@) || ip@ == h@ {
                    Ok(PairingHostChoice::Fixed(h))
                } else {
                    Err(PairingError::IncompatibleBind { pairing_host: h, bind_host: ip })
                },
                BindAddress::V6 { .. } => Err(PairingError::Ipv6Bind),
            }
        },
        None => match requested_bind {
            BindAddress::V4 { ip, .. } => if !is_unspecified(ip@) {
                if usable_pairing_address(ip@) {
                    Ok(PairingHostChoice::Fixed(ip))
                } else {
                    Err(PairingError::UnusableAddress { address: ip })
                }
            } else {
                Ok(PairingHostChoice::Automatic)
            },
            BindAddress::V6 { .. } => Err(PairingError::Ipv6Bind),
        },
    }
}

/// `info` advertises `host` with `port` and the fingerprint.
pub open spec fn advertises(info: PairingInfo, host: [u8; 4], port: u16, fingerprint: [u8; 32]) -> bool {
    &&& info.host == host
    &&& info.port == port
    &&& info.uri@ == pairing_uri_text(host@, port, fingerprint@)
}

/// An explicit pairing host, if any, is one the server can be reached at
/// through its bind: the bind is the IPv4 wildcard or that very address.
pub open spec fn explicit_host_fits_bind(requested_bind: BindAddress, pairing_host: Option<[u8; 4]>) -> bool {
    match pairing_host {
        Some(h) => match requested_bind {
            BindAddress::V4 { ip, .. } => ip@ == seq![0u8, 0u8, 0u8, 0u8] || ip == h,
            BindAddress::V6 { .. } => false,
        },
        None => true,
    }
}

/// Resolves the endpoint embedded in the QR code after QUIC has selected its
/// actual listening port. An explicit pairing host overrides the advertised
/// address without changing the listening socket; a wildcard bind asks
/// `automatic_host` (which scans the adapters) for the address.
pub fn resolve_pairing_info<F: FnOnce() -> Result<[u8; 4], PairingError>>(
    requested_bind: BindAddress,
    actual_port: u16,
    pairing_host: Option<[u8; 4]>,
    fingerprint: [u8; 32],
    automatic_host: F,
) -> (result: Result<PairingInfo, PairingError>)
    requires
        automatic_host.requires(()),
    ensures
        match pairing_host_choice(requested_bind, pairing_host) {
            Err(e) => result == Err::<PairingInfo, PairingError>(e),
            Ok(PairingHostChoice::Fixed(h)) => result matches Ok(info) && advertises(info, h, actual_port, fingerprint),
            Ok(PairingHostChoice::Automatic) => exists|r: Result<[u8; 4], PairingError>| {
                &&& automatic_host.ensures((), r)
                &&& match r {
                    Err(e) => result == Err::<PairingInfo, PairingError>(e),
                    Ok(h) => result matches Ok(info) && advertises(info, h, actual_port, fingerprint),
                }
            },
        },
        result is Ok ==> explicit_host_fits_bind(requested_bind, pairing_host),
{
    proof {
        if let Some(h) = pairing_host {
            match requested_bind {
                BindAddress::V4 { ip, port } => lemma_explicit_host_matches_bind(ip, port, h),
                BindAddress::V6 { port } => lemma_explicit_host_matches_bind(h, port, h),
            }
        }
    }
    let host = match pairing_host {
        Some(host) => {
            if let Err(e) = validate_pairing_host(host) {
                return Err(e);
            }
            if let Err(e) = validate_bind_compatibility(requested_bind, host) {
                return Err(e);
            }
            host
        },
        None => match requested_bind {
            BindAddress::V4 { ip, .. } => {
                let unspecified = ip[0] == 0 && ip[1] == 0 && ip[2] == 0 && ip[3] == 0;
                if !unspecified {
                    if let Err(e) = validate_pairing_host(ip) {
                        return Err(e);
                    }
                    ip
                } else {
                    let r = automatic_host();
                    match r {
                        Ok(h) => h,
                        Err(e) => return Err(e),
                    }
                }
            },
            BindAddress::V6 { .. } => return Err(PairingError::Ipv6Bind),
        },
    };
    let uri = PairingUri::new(host, actual_port, fingerprint).encode();
    Ok(PairingInfo { host, port: actual_port, uri })
}

/// The Win32 status of a successful adapter query.
pub const NO_ERROR_STATUS: u32 = 0;
/// The Win32 status of an adapter query whose buffer was too small.
pub const BUFFER_OVERFLOW_STATUS: u32 = 111;
/// Sized queries tried before giving up on a growing adapter list.
pub const ADAPTER_QUERY_ATTEMPTS: u32 = 3;

/// The next move when listing the network adapters.
#[derive(Clone, Debug, PartialEq, Eq)]
pub enum AdapterQueryStep {
    /// The system reports no adapter at all.
    NoAdapters,
    /// Query again with a buffer of the size the system asked for; `attempt` counts from zero.
    Query { attempt: u32 },
    /// The buffer holds the adapter list: collect the candidates.
    Collect,
    /// Give up with this error.
    Fail(PairingError),
}

/// After asking for the buffer size: no adapters, a sized query, or an error.
pub fn after_size_probe(status: u32) -> (step: AdapterQueryStep)
    ensures
        step == if status == NO_ERROR_STATUS {
            AdapterQueryStep::NoAdapters
        } else if status == BUFFER_OVERFLOW_STATUS {
            AdapterQueryStep::Query { attempt: 0 }
        } else {
            AdapterQueryStep::Fail(PairingError::AdapterEnumeration { status })
        },
{
    if status == NO_ERROR_STATUS {
        AdapterQueryStep::NoAdapters
    } else if status == BUFFER_OVERFLOW_STATUS {
        AdapterQueryStep::Query { attempt: 0 }
    } else {
        AdapterQueryStep::Fail(PairingError::AdapterEnumeration { status })
    }
}

/// After sized query `attempt`: collect on success; on a buffer that became
/// too small, query again up to three times in all; fail otherwise.
pub fn after_adapter_query(attempt: u32, status: u32) -> (step: AdapterQueryStep)
    requires
        attempt < ADAPTER_QUERY_ATTEMPTS,
    ensures
        step == if status == NO_ERROR_STATUS {
            AdapterQueryStep::Collect
        } else if status != BUFFER_OVERFLOW_STATUS {
            AdapterQueryStep::Fail(PairingError::AdapterEnumeration { status })
        } else if attempt + 1 < ADAPTER_QUERY_ATTEMPTS {
            AdapterQueryStep::Query { attempt: (attempt + 1) as u32 }
        } else {
            AdapterQueryStep::Fail(PairingError::AdapterEnumeration { status: BUFFER_OVERFLOW_STATUS })
        },
{
    if status == NO_ERROR_STATUS {
        AdapterQueryStep::Collect
    } else if status != BUFFER_OVERFLOW_STATUS {
        AdapterQueryStep::Fail(PairingError::AdapterEnumeration { status })
    } else if attempt + 1 < ADAPTER_QUERY_ATTEMPTS {
        AdapterQueryStep::Query { attempt: attempt + 1 }
    } else {
        AdapterQueryStep::Fail(PairingError::AdapterEnumeration { status: BUFFER_OVERFLOW_STATUS })
    }
}

/// A reachable IPv4 address of an adapter, with the adapter's rank (lower is better).
#[derive(Clone, Copy, Debug, PartialEq, Eq)]
pub struct AdapterCandidate {
    pub address: [u8; 4],
    pub rank: u8,
}

/// What the server reads of one network adapter.
#[derive(Clone, Debug)]
pub struct AdapterInfo {
    pub oper_status_up: bool,
    pub software_loopback: bool,
    pub tunnel_interface: bool,
    pub tunnel_type_none: bool,
    pub has_gateway: bool,
    /// The adapter's unicast IPv4 addresses, in the order the system lists them.
    pub unicast_ipv4: Vec<[u8; 4]>,
}

/// An adapter that is up and is neither a loopback nor a tunnel.
pub open spec fn adapter_eligible(a: AdapterInfo) -> bool {
    a.oper_status_up && !a.software_loopback && !a.tunnel_interface && a.tunnel_type_none
}

/// Adapters with a gateway rank before those without; then those with a
/// private LAN address before those without.
pub open spec fn spec_adapter_rank(has_gateway: bool, has_private: bool) -> u8 {
    if has_gateway && has_private {
        0
    } else if has_gateway {
        1
    } else if has_private {
        2
    } else {
        3
    }
}

pub fn adapter_rank(has_gateway: bool, has_private: bool) -> (rank: u8)
    ensures
        rank == spec_adapter_rank(has_gateway, has_private),
{
    if has_gateway && has_private {
        0
    } else if has_gateway {
        1
    } else if has_private {
        2
    } else {
        3
    }
}

/// Whether one of the addresses is a usable private LAN address.
pub open spec fn has_private_lan_address(addresses: Seq<[u8; 4]>) -> bool {
    exists|i: int| 0 <= i < addresses.len() && private_ipv4(addresses[i]@) && usable_pairing_address(
        #[trigger] addresses[i]@,
    )
}

/// The usable addresses, in order, as candidates of rank `rank`.
pub open spec fn usable_candidates(addresses: Seq<[u8; 4]>, rank: u8) -> Seq<AdapterCandidate>
    decreases addresses.len(),
{
    if addresses.len() == 0 {
        Seq::empty()
    } else {
        let rest = usable_candidates(addresses.drop_last(), rank);
        if usable_pairing_address(addresses.last()@) {
            rest.push(AdapterCandidate { address: addresses.last(), rank })
        } else {
            rest
        }
    }
}

/// The candidates of one adapter.
pub open spec fn adapter_candidates(a: AdapterInfo) -> Seq<AdapterCandidate> {
    if adapter_eligible(a) {
        usable_candidates(
            a.unicast_ipv4@,
            spec_adapter_rank(a.has_gateway, has_private_lan_address(a.unicast_ipv4@)),
        )
    } else {
        Seq::empty()
    }
}

/// The candidates of all adapters, in order.
pub open spec fn all_candidates(adapters: Seq<AdapterInfo>) -> Seq<AdapterCandidate>
    decreases adapters.len(),
{
    if adapters.len() == 0 {
        Seq::empty()
    } else {
        all_candidates(adapters.drop_last()) + adapter_candidates(adapters.last())
    }
}

fn adapter_has_private_ipv4(addresses: &Vec<[u8; 4]>) -> (found: bool)
    ensures
        found == has_private_lan_address(addresses@),
{
    let n = addresses.len();
    let mut i: usize = 0;
    while i < n
        invariant
            n == addresses@.len(),
            i <= n,
            forall|j: int| 0 <= j < i ==> !(private_ipv4(addresses@[j]@) && usable_pairing_address(
                #[trigger] addresses@[j]@,
            )),
        decreases n - i,
    {
        if is_private_ipv4(addresses[i]) && is_usable_pairing_address(addresses[i]) {
            return true;
        }
        i += 1;
    }
    false
}

/// Lists every usable address of every eligible adapter, with that adapter's rank.
pub fn collect_adapter_candidates(adapters: &Vec<AdapterInfo>) -> (candidates: Vec<AdapterCandidate>)
    ensures
        candidates@ == all_candidates(adapters@),
        forall|k: int| 0 <= k < candidates@.len() ==> exists|i: int| {
            &&& 0 <= i < adapters@.len()
            &&& adapters@[i].oper_status_up
            &&& !adapters@[i].software_loopback
            &&& !adapters@[i].tunnel_interface
            &&& adapters@[i].tunnel_type_none
            &&& adapters@[i].unicast_ipv4@.contains(#[trigger] candidates@[k].address)
            &&& usable_pairing_address(candidates@[k].address@)
        },
{
    proof {
        lemma_candidates_come_from_eligible_adapters(adapters@);
    }
    let mut candidates: Vec<AdapterCandidate> = Vec::new();
    let n = adapters.len();
    let mut i: usize = 0;
    while i < n
        invariant
            n == adapters@.len(),
            i <= n,
            candidates@ == all_candidates(adapters@.take(i as int)),
        decreases n - i,
    {
        let adapter = &adapters[i];
        let ghost before = candidates@;
        if adapter.oper_status_up && !adapter.software_loopback && !adapter.tunnel_interface
            && adapter.tunnel_type_none {
            let rank = adapter_rank(adapter.has_gateway, adapter_has_private_ipv4(&adapter.unicast_ipv4));
            let m = adapter.unicast_ipv4.len();
            let mut j: usize = 0;
            while j < m
                invariant
                    m == adapter.unicast_ipv4@.len(),
                    j <= m,
                    candidates@ == before + usable_candidates(adapter.unicast_ipv4@.take(j as int), rank),
                decreases m - j,
            {
                let address = adapter.unicast_ipv4[j];
                if is_usable_pairing_address(address) {
                    candidates.push(AdapterCandidate { address, rank });
                }
                proof {
                    assert(adapter.unicast_ipv4@.take(j + 1).drop_last() =~= adapter.unicast_ipv4@.take(j as int));
                }
                j += 1;
            }
            assert(adapter.unicast_ipv4@.take(m as int) =~= adapter.unicast_ipv4@);
        } else {
            assert(candidates@ =~= before + Seq::<AdapterCandidate>::empty());
        }
        proof {
            assert(adapters@.take(i + 1).drop_last() =~= adapters@.take(i as int));
        }
        i += 1;
    }
    assert(adapters@.take(n as int) =~= adapters@);
    candidates
}

/// Every candidate is a usable address listed by an adapter that is up, is
/// not a software loopback, is not a tunnel interface and has no tunnel type;
/// an adapter failing any of these contributes nothing.
pub proof fn lemma_candidates_come_from_eligible_adapters(adapters: Seq<AdapterInfo>)
    ensures
        forall|k: int| 0 <= k < all_candidates(adapters).len() ==> exists|i: int| {
            &&& 0 <= i < adapters.len()
            &&& adapters[i].oper_status_up
            &&& !adapters[i].software_loopback
            &&& !adapters[i].tunnel_interface
            &&& adapters[i].tunnel_type_none
            &&& adapters[i].unicast_ipv4@.contains(#[trigger] all_candidates(adapters)[k].address)
            &&& usable_pairing_address(all_candidates(adapters)[k].address@)
        },
    decreases adapters.len(),
{
    if adapters.len() > 0 {
        let init = adapters.drop_last();
        let a = adapters.last();
        lemma_candidates_come_from_eligible_adapters(init);
        let all = all_candidates(adapters);
        let head = all_candidates(init);
        let own = adapter_candidates(a);
        assert(all == head + own);
        if adapter_eligible(a) {
            lemma_usable_candidates_listed(a.unicast_ipv4@, spec_adapter_rank(a.has_gateway, has_private_lan_address(a.unicast_ipv4@)));
        }
        assert forall|k: int| 0 <= k < all.len() implies exists|i: int| {
            &&& 0 <= i < adapters.len()
            &&& adapters[i].oper_status_up
            &&& !adapters[i].software_loopback
            &&& !adapters[i].tunnel_interface
            &&& adapters[i].tunnel_type_none
            &&& adapters[i].unicast_ipv4@.contains(#[trigger] all[k].address)
            &&& usable_pairing_address(all[k].address@)
        } by {
            if k < head.len() {
                assert(all[k] == head[k]);
                let i = choose|i: int| {
                    &&& 0 <= i < init.len()
                    &&& init[i].oper_status_up
                    &&& !init[i].software_loopback
                    &&& !init[i].tunnel_interface
                    &&& init[i].tunnel_type_none
                    &&& init[i].unicast_ipv4@.contains(#[trigger] head[k].address)
                    &&& usable_pairing_address(head[k].address@)
                };
                assert(adapters[i] == init[i]);
            } else {
                assert(all[k] == own[k - head.len()]);
                assert(adapters[adapters.len() - 1] == a);
            }
        }
    }
}

/// Every candidate made from a list of addresses is a usable address of the list.
proof fn lemma_usable_candidates_listed(addresses: Seq<[u8; 4]>, rank: u8)
    ensures
        forall|k: int| 0 <= k < usable_candidates(addresses, rank).len() ==> {
            &&& addresses.contains(#[trigger] usable_candidates(addresses, rank)[k].address)
            &&& usable_pairing_address(usable_candidates(addresses, rank)[k].address@)
        },
    decreases addresses.len(),
{
    if addresses.len() > 0 {
        let init = addresses.drop_last();
        lemma_usable_candidates_listed(init, rank);
        let c = usable_candidates(addresses, rank);
        let r = usable_candidates(init, rank);
        assert forall|k: int| 0 <= k < c.len() implies {
            &&& addresses.contains(#[trigger] c[k].address)
            &&& usable_pairing_address(c[k].address@)
        } by {
            if k < r.len() {
                assert(c[k] == r[k]);
                let j = choose|j: int| 0 <= j < init.len() && init[j] == r[k].address;
                assert(addresses[j] == init[j]);
            } else {
                assert(addresses[addresses.len() - 1] == addresses.last());
            }
        }
    }
}

/// An explicit pairing host is only ever advertised for a wildcard IPv4
/// bind or an IPv4 bind to that very address: with a specific IPv4 bind to
/// another address the answer is `IncompatibleBind`, once the host itself is
/// usable, and an IPv6 bind never advertises it.
pub proof fn lemma_explicit_host_matches_bind(bind_ip: [u8; 4], port: u16, host: [u8; 4])
    ensures
        pairing_host_choice(BindAddress::V4 { ip: bind_ip, port }, Some(host)) is Ok ==> bind_ip@ == seq![
            0u8,
            0u8,
            0u8,
            0u8,
        ] || bind_ip == host,
        pairing_host_choice(BindAddress::V4 { ip: bind_ip, port }, Some(host)) matches Ok(PairingHostChoice::Fixed(h))
            ==> h == host,
        usable_pairing_address(host@) && bind_ip@ != seq![0u8, 0u8, 0u8, 0u8] && bind_ip != host ==> pairing_host_choice(
            BindAddress::V4 { ip: bind_ip, port },
            Some(host),
        ) == Err::<PairingHostChoice, PairingError>(
            PairingError::IncompatibleBind { pairing_host: host, bind_host: bind_ip },
        ),
        pairing_host_choice(BindAddress::V6 { port }, Some(host)) is Err,
{
    if bind_ip@ == host@ {
        assert(bind_ip@[0] == host@[0] && bind_ip@[1] == host@[1] && bind_ip@[2] == host@[2] && bind_ip@[3] == host@[3]);
        assert(bind_ip =~= host);
    }
    if is_unspecified(bind_ip@) {
        assert(bind_ip@ =~= seq![0u8, 0u8, 0u8, 0u8]);
    }
    if bind_ip@ == seq![0u8, 0u8, 0u8, 0u8] {
        assert(is_unspecified(bind_ip@));
    }
    if bind_ip == host {
        assert(bind_ip@ == host@);
    }
}

/// Lexicographic order of addresses, octet by octet.
pub open spec fn address_less(a: Seq<u8>, b: Seq<u8>) -> bool {
    a[0] < b[0] || (a[0] == b[0] && (a[1] < b[1] || (a[1] == b[1] && (a[2] < b[2] || (a[2] == b[2]
        && a[3] < b[3])))))
}

fn address_lt(a: &[u8; 4], b: &[u8; 4]) -> (less: bool)
    ensures
        less == address_less(a@, b@),
{
    a[0] < b[0] || (a[0] == b[0] && (a[1] < b[1] || (a[1] == b[1] && (a[2] < b[2] || (a[2] == b[2]
        && a[3] < b[3])))))
}

/// The lowest rank among the candidates.
pub open spec fn min_rank(c: Seq<AdapterCandidate>) -> u8
    decreases c.len(),
{
    if c.len() <= 1 {
        c[0].rank
    } else {
        let r = min_rank(c.drop_last());
        if c.last().rank < r { c.last().rank } else { r }
    }
}

/// Strictly increasing addresses.
pub open spec fn sorted_addresses(s: Seq<[u8; 4]>) -> bool {
    forall|i: int, j: int| 0 <= i < j < s.len() ==> address_less(s[i]@, s[j]@)
}

/// The addresses of candidates with rank `rank`.
pub open spec fn addresses_of_rank(c: Seq<AdapterCandidate>, rank: u8) -> Set<[u8; 4]> {
    Set::new(|a: [u8; 4]| exists|i: int| 0 <= i < c.len() && c[i].rank == rank && #[trigger] c[i].address == a)
}

/// Addresses joined by ", ".
pub open spec fn joined_addresses(s: Seq<[u8; 4]>) -> Seq<char>
    decreases s.len(),
{
    if s.len() == 0 {
        Seq::empty()
    } else if s.len() == 1 {
        ipv4_text(s[0]@)
    } else {
        joined_addresses(s.drop_last()) + ", "@ + ipv4_text(s.last()@)
    }
}

proof fn lemma_min_rank(c: Seq<AdapterCandidate>)
    requires
        c.len() > 0,
    ensures
        exists|i: int| 0 <= i < c.len() && c[i].rank == min_rank(c),
        forall|i: int| 0 <= i < c.len() ==> min_rank(c) <= #[trigger] c[i].rank,
    decreases c.len(),
{
    if c.len() > 1 {
        lemma_min_rank(c.drop_last());
        let r = min_rank(c.drop_last());
        assert forall|i: int| 0 <= i < c.len() implies min_rank(c) <= #[trigger] c[i].rank by {
            if i < c.len() - 1 {
                assert(c[i] == c.drop_last()[i]);
            }
        }
        if c.last().rank >= r {
            let k = choose|i: int| 0 <= i < c.drop_last().len() && c.drop_last()[i].rank == r;
            assert(c[k] == c.drop_last()[k]);
        } else {
            assert(c[c.len() - 1].rank == min_rank(c));
        }
    } else {
        assert(c[0].rank == min_rank(c));
    }
}

proof fn lemma_addresses_of_rank_push(c: Seq<AdapterCandidate>, x: AdapterCandidate, rank: u8)
    ensures
        addresses_of_rank(c.push(x), rank) == if x.rank == rank {
            addresses_of_rank(c, rank).insert(x.address)
        } else {
            addresses_of_rank(c, rank)
        },
{
    let t = c.push(x);
    let lhs = addresses_of_rank(t, rank);
    let rhs = if x.rank == rank {
        addresses_of_rank(c, rank).insert(x.address)
    } else {
        addresses_of_rank(c, rank)
    };
    assert forall|a: [u8; 4]| lhs.contains(a) == rhs.contains(a) by {
        if lhs.contains(a) {
            let k = choose|k: int| 0 <= k < t.len() && t[k].rank == rank && #[trigger] t[k].address == a;
            if k < c.len() {
                assert(t[k] == c[k]);
                assert(addresses_of_rank(c, rank).contains(a));
            }
        }
        if addresses_of_rank(c, rank).contains(a) {
            let k = choose|k: int| 0 <= k < c.len() && c[k].rank == rank && #[trigger] c[k].address == a;
            assert(t[k] == c[k]);
            assert(lhs.contains(a));
        }
        if x.rank == rank && a == x.address {
            assert(t[c.len() as int] == x);
            assert(lhs.contains(a));
        }
    }
    assert(lhs =~= rhs);
}

proof fn lemma_insert_to_set(s: Seq<[u8; 4]>, pos: int, x: [u8; 4])
    requires
        0 <= pos <= s.len(),
    ensures
        s.insert(pos, x).to_set() == s.to_set().insert(x),
{
    let t = s.insert(pos, x);
    assert forall|a: [u8; 4]| t.to_set().contains(a) == s.to_set().insert(x).contains(a) by {
        if t.to_set().contains(a) {
            let k = choose|k: int| 0 <= k < t.len() && t[k] == a;
            if k < pos {
                assert(s[k] == a);
            } else if k > pos {
                assert(s[k - 1] == a);
            }
        }
        if s.to_set().contains(a) {
            let k = choose|k: int| 0 <= k < s.len() && s[k] == a;
            if k < pos {
                assert(t[k] == a);
            } else {
                assert(t[k + 1] == a);
            }
        }
        if a == x {
            assert(t[pos] == x);
        }
    }
    assert(t.to_set() =~= s.to_set().insert(x));
}

/// Picks the pairing address automatically: the candidates with the best rank
/// must all be one address; several equally ranked addresses are reported,
/// in ascending order, rather than guessed between.
pub fn select_automatic_pairing_host(candidates: &Vec<AdapterCandidate>) -> (result: Result<[u8; 4], PairingError>)
    ensures
        candidates@.len() == 0 ==> result == Err::<[u8; 4], PairingError>(PairingError::NoCandidate),
        candidates@.len() > 0 ==> exists|best: Seq<[u8; 4]>| {
            &&& sorted_addresses(best)
            &&& best.to_set() == addresses_of_rank(candidates@, min_rank(candidates@))
            &&& best.len() == 1 ==> result == Ok::<[u8; 4], PairingError>(best[0])
            &&& best.len() > 1 ==> (result matches Err(PairingError::AmbiguousCandidates { addresses })
                && addresses@ == joined_addresses(best))
        },
{
    let n = candidates.len();
    if n == 0 {
        return Err(PairingError::NoCandidate);
    }
    let mut best_rank: u8 = candidates[0].rank;
    let mut i: usize = 1;
    while i < n
        invariant
            n == candidates@.len(),
            1 <= i <= n,
            best_rank == min_rank(candidates@.take(i as int)),
        decreases n - i,
    {
        proof {
            assert(candidates@.take(i + 1).drop_last() =~= candidates@.take(i as int));
        }
        if candidates[i].rank < best_rank {
            best_rank = candidates[i].rank;
        }
        i += 1;
    }
    assert(candidates@.take(n as int) =~= candidates@);
    proof {
        lemma_min_rank(candidates@);
    }
    let ghost target = addresses_of_rank(candidates@, best_rank);
    let mut best: Vec<[u8; 4]> = Vec::new();
    let mut i: usize = 0;
    while i < n
        invariant
            n == candidates@.len(),
            i <= n,
            sorted_addresses(best@),
            best@.to_set() == addresses_of_rank(candidates@.take(i as int), best_rank),
            best@.len() <= i,
        decreases n - i,
    {
        let ghost before = best@;
        let c = candidates[i];
        if c.rank == best_rank {
            let m = best.len();
            let mut pos: usize = 0;
            while pos < m && address_lt(&best[pos], &c.address)
                invariant
                    m == best@.len(),
                    pos <= m,
                    best@ == before,
                    forall|k: int| 0 <= k < pos ==> address_less(best@[k]@, c.address@),
                decreases m - pos,
            {
                pos += 1;
            }
            let present = pos < m && best[pos][0] == c.address[0] && best[pos][1] == c.address[1]
                && best[pos][2] == c.address[2] && best[pos][3] == c.address[3];
            if !present {
                best.insert(pos, c.address);
            }
            proof {
                let t = candidates@.take(i + 1);
                assert(t =~= candidates@.take(i as int).push(c));
                lemma_addresses_of_rank_push(candidates@.take(i as int), c, best_rank);
                if present {
                    assert(best@[pos as int]@ =~= c.address@);
                    assert(best@[pos as int] == c.address);
                    assert(best@.to_set().contains(c.address));
                    assert(best@.to_set() =~= best@.to_set().insert(c.address));
                } else {
                    assert forall|k: int| pos <= k < before.len() implies address_less(c.address@, #[trigger] before[k]@) by {
                        assert(!address_less(before[pos as int]@, c.address@));
                        if k > pos {
                            assert(address_less(before[pos as int]@, before[k]@));
                        }
                        assert(before[pos as int]@ != c.address@);
                    }
                    lemma_insert_to_set(before, pos as int, c.address);
                }
            }
        } else {
            proof {
                let t = candidates@.take(i + 1);
                assert(t =~= candidates@.take(i as int).push(c));
                lemma_addresses_of_rank_push(candidates@.take(i as int), c, best_rank);
            }
        }
        i += 1;
    }
    assert(candidates@.take(n as int) =~= candidates@);
    if best.len() == 1 {
        return Ok(best[0]);
    }
    let mut text = String::new();
    let m = best.len();
    let mut k: usize = 0;
    while k < m
        invariant
            m == best@.len(),
            k <= m,
            text@ == joined_addresses(best@.take(k as int)),
        decreases m - k,
    {
        if k > 0 {
            push_str(&mut text, ", ");
        }
        push_ipv4(&mut text, &best[k]);
        proof {
            let t = best@.take(k + 1);
            assert(t.drop_last() =~= best@.take(k as int));
            if k == 0 {
                assert(text@ =~= joined_addresses(t));
            } else {
                assert(text@ =~= joined_addresses(t.drop_last()) + ", "@ + ipv4_text(t.last()@));
            }
        }
        k += 1;
    }
    assert(best@.take(m as int) =~= best@);
    proof {
        assert(best@.len() > 0) by {
            let k = choose|i: int| 0 <= i < candidates@.len() && candidates@[i].rank == min_rank(candidates@);
            assert(addresses_of_rank(candidates@, best_rank).contains(candidates@[k].address));
        }
    }
    Err(PairingError::AmbiguousCandidates { addresses: text })
}

} // verus!
