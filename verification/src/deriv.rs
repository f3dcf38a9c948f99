//! Deterministic address derivation from an output descriptor.
//!
//! The cryptographic work — parsing the descriptor, deriving the key at an
//! index, rendering the address and spending script — is done by the
//! descriptor library underneath bdk. Its results are pure functions of
//! descriptor string, index and network; the uninterpreted functions below
//! name them, and everything this module states is relative to those names.

use vstd::prelude::*;
use bdk::miniscript::descriptor::DescriptorTrait;
use crate::types::{AddressInfo, DerivationError, KeychainRole, Network, net_code};

verus! {

/// Whether the descriptor yields a concrete address at this index on this
/// network.
pub uninterp spec fn can_derive(descriptor: Seq<char>, index: int, network: int) -> bool;

/// The address string the descriptor yields at this index on this network.
pub uninterp spec fn derived_address(descriptor: Seq<char>, index: int, network: int) -> Seq<char>;

/// The spending script the descriptor yields at this index on this network.
pub uninterp spec fn derived_script(descriptor: Seq<char>, index: int, network: int) -> Seq<u8>;

/// Relies on miniscript through bdk: `Descriptor::from_str`,
/// `derived_descriptor`, `address` and `script_pubkey` compute pure functions
/// of the descriptor string, the derivation index and the network; whether
/// they succeed is likewise determined by those inputs alone. Indices of
/// `0x8000_0000` and above are kept out because key derivation panics there.
#[verifier::external_body]
fn derive_with_descriptor(descriptor: &str, index: u32, network: &Network) -> (r: Option<
    (String, Vec<u8>),
>)
    requires
        index < 0x8000_0000,
    ensures
        r is Some <==> can_derive(descriptor@, index as int, net_code(*network)),
        r is Some ==> r->Some_0.0@ == derived_address(descriptor@, index as int, net_code(*network)),
        r is Some ==> r->Some_0.1@ == derived_script(descriptor@, index as int, net_code(*network)),
{
    let net = match network {
        Network::Bitcoin => bdk::bitcoin::Network::Bitcoin,
        Network::Testnet => bdk::bitcoin::Network::Testnet,
        Network::Signet => bdk::bitcoin::Network::Signet,
        Network::Regtest => bdk::bitcoin::Network::Regtest,
    };
    let secp = bdk::bitcoin::secp256k1::Secp256k1::verification_only();
    let desc: bdk::miniscript::Descriptor<bdk::miniscript::DescriptorPublicKey> =
        descriptor.parse().ok()?;
    let concrete = desc.derived_descriptor(&secp, index).ok()?;
    let address = concrete.address(net).ok()?;
    Some((address.to_string(), concrete.script_pubkey().to_bytes()))
}

/// What `derive` returns on each input: below the derivable-index bound, the
/// outcome mirrors whether the descriptor yields an address there; at or
/// above it, the index is rejected.
pub open spec fn derive_post(
    descriptor: Seq<char>,
    role: KeychainRole,
    index: u32,
    network: Network,
    r: Result<AddressInfo, DerivationError>,
) -> bool {
    &&& (index >= 0x8000_0000 ==> r == Err::<AddressInfo, DerivationError>(
        DerivationError::IndexOutOfRange,
    ))
    &&& (index < 0x8000_0000 ==> (if can_derive(descriptor, index as int, net_code(network)) {
        &&& r is Ok
        &&& r->Ok_0.index == index
        &&& r->Ok_0.role == role
        &&& r->Ok_0.address@ == derived_address(descriptor, index as int, net_code(network))
        &&& r->Ok_0.script@ == derived_script(descriptor, index as int, net_code(network))
    } else {
        r == Err::<AddressInfo, DerivationError>(DerivationError::Underivable)
    }))
}

/// Derives the address at `index` for one keychain role, without touching any
/// issuance cursor. Peeking the same index twice yields an identical address.
pub fn derive(descriptor: &str, role: KeychainRole, index: u32, network: &Network) -> (r: Result<
    AddressInfo,
    DerivationError,
>)
    ensures
        derive_post(descriptor@, role, index, *network, r),
{
    if index >= 0x8000_0000u32 {
        return Err(DerivationError::IndexOutOfRange);
    }
    match derive_with_descriptor(descriptor, index, network) {
        Some(pair) => {
            let (address, script) = pair;
            Ok(AddressInfo { index, role, address, script })
        },
        None => Err(DerivationError::Underivable),
    }
}

/// Law: derivation is pure. Any two outcomes `derive` can return for one
/// (descriptor, role, index, network) agree — same success or same error, and
/// on success a byte-identical address and script at the same index and role.
pub proof fn lemma_derive_deterministic(
    descriptor: Seq<char>,
    role: KeychainRole,
    index: u32,
    network: Network,
    r1: Result<AddressInfo, DerivationError>,
    r2: Result<AddressInfo, DerivationError>,
)
    requires
        derive_post(descriptor, role, index, network, r1),
        derive_post(descriptor, role, index, network, r2),
    ensures
        r1 is Ok <==> r2 is Ok,
        r1 is Err ==> r1 == r2,
        r1 is Ok ==> {
            &&& r1->Ok_0.index == r2->Ok_0.index
            &&& r1->Ok_0.role == r2->Ok_0.role
            &&& r1->Ok_0.address@ == r2->Ok_0.address@
            &&& r1->Ok_0.script@ == r2->Ok_0.script@
        },
{
}

/// One address entry of a derived window.
pub open spec fn info_matches(
    info: AddressInfo,
    descriptor: Seq<char>,
    role: KeychainRole,
    i: int,
    network: Network,
) -> bool {
    &&& info.index == i
    &&& info.role == role
    &&& info.address@ == derived_address(descriptor, i, net_code(network))
    &&& info.script@ == derived_script(descriptor, i, net_code(network))
}

/// Whether the descriptor yields an address at every index of the window.
pub open spec fn window_derivable(descriptor: Seq<char>, window: u32, network: Network) -> bool {
    forall|i: int| 0 <= i < window ==> can_derive(descriptor, i, net_code(network))
}

/// What `derive_window` returns on each input.
pub open spec fn derive_window_post(
    descriptor: Seq<char>,
    role: KeychainRole,
    window: u32,
    network: Network,
    r: Result<Vec<AddressInfo>, DerivationError>,
) -> bool {
    &&& (window > 0x8000_0000 ==> r == Err::<Vec<AddressInfo>, DerivationError>(
        DerivationError::IndexOutOfRange,
    ))
    &&& (window <= 0x8000_0000 ==> (if window_derivable(descriptor, window, network) {
        &&& r is Ok
        &&& r->Ok_0@.len() == window
        &&& (forall|i: int|
            0 <= i < window ==> info_matches(#[trigger] r->Ok_0@[i], descriptor, role, i, network))
    } else {
        r == Err::<Vec<AddressInfo>, DerivationError>(DerivationError::Underivable)
    }))
}

/// Derives the fixed-size display window of addresses for one role: indices
/// `0 .. window` in order. The window size is an explicit configuration
/// parameter; it must stay within the derivable index range.
pub fn derive_window(
    descriptor: &str,
    role: KeychainRole,
    window: u32,
    network: &Network,
) -> (r: Result<Vec<AddressInfo>, DerivationError>)
    ensures
        derive_window_post(descriptor@, role, window, *network, r),
{
    if window > 0x8000_0000u32 {
        return Err(DerivationError::IndexOutOfRange);
    }
    let mut infos: Vec<AddressInfo> = Vec::new();
    let mut i: u32 = 0;
    while i < window
        invariant
            i <= window,
            window <= 0x8000_0000,
            infos@.len() == i,
            forall|k: int|
                0 <= k < i ==> info_matches(#[trigger] infos@[k], descriptor@, role, k, *network),
            forall|k: int| 0 <= k < i ==> can_derive(descriptor@, k, net_code(*network)),
        decreases window - i,
    {
        match derive(descriptor, role, i, network) {
            Ok(info) => {
                infos.push(info);
            },
            Err(e) => {
                return Err(e);
            },
        }
        i = i + 1;
    }
    Ok(infos)
}

} // verus!
