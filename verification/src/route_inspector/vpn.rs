//! Recognising tunnel interfaces by name.
use vstd::prelude::*;

use crate::text::{ascii_lowercase, chars_of, starts_with, starts_with_str, to_ascii_lowercase};

verus! {

/// An interface name that a VPN client uses: after ASCII lower-casing it
/// starts with `tun`, `tap`, `utun`, `wg`, `tailscale` or `zt`.
pub open spec fn is_vpn_name(name: Seq<char>) -> bool {
    let lower = ascii_lowercase(name);
    ||| starts_with(lower, "tun"@)
    ||| starts_with(lower, "tap"@)
    ||| starts_with(lower, "utun"@)
    ||| starts_with(lower, "wg"@)
    ||| starts_with(lower, "tailscale"@)
    ||| starts_with(lower, "zt"@)
}

pub fn is_vpn_interface_name(name: &str) -> (r: bool)
    ensures
        r == is_vpn_name(name@),
{
    let chars = chars_of(name);
    let lower = to_ascii_lowercase(&chars);
    starts_with_str(&lower, "tun") || starts_with_str(&lower, "tap") || starts_with_str(
        &lower,
        "utun",
    ) || starts_with_str(&lower, "wg") || starts_with_str(&lower, "tailscale")
        || starts_with_str(&lower, "zt")
}

} // verus!
