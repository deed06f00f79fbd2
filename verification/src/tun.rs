//! What passes between the node and the tunnel interface of the kernel:
//! the datagrams that the kernel hands over and the commands that configure
//! the interface.

use vstd::prelude::*;
use vstd::slice::{slice_subrange, slice_to_vec};
use vstd::string::*;
use crate::addr::Ipv4Addr;
use crate::packet::{is_datagram, Ipv4Packet};

verus! {

/// The name pattern of the tunnel interface.
pub const TUN_DEFAULT_PREFIX: &'static str = "loratun%d";

/// The number of bytes that the kernel puts before each datagram.
pub const TUN_PREFIX_LEN: usize = 4;

/// The size of the buffer into which the tunnel is read.
pub const TUN_BUFFER_LEN: usize = 1504;

/// Why what was read from the tunnel is not handed on.
#[derive(Clone, Copy, PartialEq, Eq, Debug, Structural)]
pub enum TunError {
    /// Fewer bytes were read than the kernel's prefix has.
    ShortRead,
    /// What follows the prefix is not an IPv4 datagram.
    NotIpv4,
}

/// The address that anchors the tunnel interface: `10.107.1.3`.
pub open spec fn stub_address() -> Ipv4Addr {
    Ipv4Addr { a: 10, b: 107, c: 1, d: 3 }
}

/// The address that anchors the tunnel interface.
pub fn tunnel_stub_address() -> (addr: Ipv4Addr)
    ensures
        addr == stub_address(),
{
    Ipv4Addr::new(10, 107, 1, 3)
}

/// What the first `size` bytes of `buffer` hold behind the kernel's prefix.
pub open spec fn behind_prefix(buffer: Seq<u8>, size: int) -> Seq<u8>
    recommends
        TUN_PREFIX_LEN <= size <= buffer.len(),
{
    buffer.subrange(TUN_PREFIX_LEN as int, size)
}

/// Takes the datagram out of what was read from the tunnel: the first
/// `size` bytes of `buffer`, without the kernel's prefix.
pub fn tun_datagram(buffer: &Vec<u8>, size: usize) -> (read: Result<Ipv4Packet, TunError>)
    requires
        size <= buffer@.len(),
    ensures
        size < TUN_PREFIX_LEN ==> read == Err::<Ipv4Packet, TunError>(TunError::ShortRead),
        size >= TUN_PREFIX_LEN && !is_datagram(behind_prefix(buffer@, size as int)) ==> read == Err::<
            Ipv4Packet,
            TunError,
        >(TunError::NotIpv4),
        size >= TUN_PREFIX_LEN && is_datagram(behind_prefix(buffer@, size as int)) ==> read.is_ok()
            && read.unwrap()@ == behind_prefix(buffer@, size as int),
{
    if size < TUN_PREFIX_LEN {
        return Err(TunError::ShortRead);
    }
    let bytes = slice_to_vec(slice_subrange(buffer.as_slice(), TUN_PREFIX_LEN, size));
    match Ipv4Packet::new(bytes) {
        Ok(packet) => Ok(packet),
        Err(_) => Err(TunError::NotIpv4),
    }
}

/// The views of a list of words.
pub open spec fn word_views(words: Seq<String>) -> Seq<Seq<char>> {
    words.map_values(|word: String| word@)
}

/// The arguments of `ip` that give the interface an address.
pub open spec fn assign_words(tun: Seq<char>, addr: Ipv4Addr) -> Seq<Seq<char>> {
    seq!["addr"@, "add"@, addr.text(), "dev"@, tun]
}

/// The arguments of `ip` that route `dest` through `via` on the interface.
pub open spec fn route_words(tun: Seq<char>, dest: Ipv4Addr, via: Ipv4Addr) -> Seq<Seq<char>> {
    seq!["route"@, "add"@, dest.text(), "via"@, via.text(), "dev"@, tun]
}

/// The arguments of `ip` that bring the interface up.
pub open spec fn link_up_words(tun: Seq<char>) -> Seq<Seq<char>> {
    seq!["link"@, "set"@, "dev"@, tun, "up"@]
}

/// Kernel assign IP address to interface: the arguments of the command.
pub fn ipassign(tun: &str, addr: &Ipv4Addr) -> (words: Vec<String>)
    ensures
        word_views(words@) == assign_words(tun@, *addr),
{
    let mut words: Vec<String> = Vec::new();
    words.push(String::from_str("addr"));
    words.push(String::from_str("add"));
    words.push(addr.to_string());
    words.push(String::from_str("dev"));
    words.push(String::from_str(tun));
    assert(word_views(words@) =~= assign_words(tun@, *addr));
    words
}

/// Kernel route IP traffic to interface: the arguments of the command.
/// Only a private address is routed into the mesh.
pub fn iproute(tun: &str, dest: &Ipv4Addr, via: &Ipv4Addr) -> (words: Vec<String>)
    requires
        dest.private(),
    ensures
        word_views(words@) == route_words(tun@, *dest, *via),
{
    let mut words: Vec<String> = Vec::new();
    words.push(String::from_str("route"));
    words.push(String::from_str("add"));
    words.push(dest.to_string());
    words.push(String::from_str("via"));
    words.push(via.to_string());
    words.push(String::from_str("dev"));
    words.push(String::from_str(tun));
    assert(word_views(words@) =~= route_words(tun@, *dest, *via));
    words
}

/// Bring the interface up: the arguments of the command.
pub fn iplinkup(tun: &str) -> (words: Vec<String>)
    ensures
        word_views(words@) == link_up_words(tun@),
{
    let mut words: Vec<String> = Vec::new();
    words.push(String::from_str("link"));
    words.push(String::from_str("set"));
    words.push(String::from_str("dev"));
    words.push(String::from_str(tun));
    words.push(String::from_str("up"));
    assert(word_views(words@) =~= link_up_words(tun@));
    words
}

} // verus!
