//! The daemon's clients: how they are addressed and what they ask.

use vstd::prelude::*;

use std::collections::HashSet;

use crate::daemoncomm::{MessageToClient, MessageToServer};

pub mod com;
pub mod session;

verus! {

broadcast use vstd::std_specs::hash::group_hash_axioms;

/// A client's IPv4 address and port in one number.
pub type ClientAddr = u64;

pub open spec fn packed_addr(ip: [u8; 4], port: u16) -> int {
    (((ip@[0] * 256 + ip@[1]) * 256 + ip@[2]) * 256 + ip@[3]) * 65536 + port
}

pub fn pack_addr(ip: [u8; 4], port: u16) -> (addr: ClientAddr)
    ensures
        addr == packed_addr(ip, port),
{
    (((ip[0] as u64 * 256 + ip[1] as u64) * 256 + ip[2] as u64) * 256 + ip[3] as u64) * 65536
        + port as u64
}

/// Different addresses have different numbers.
pub proof fn packed_addr_is_injective(a: [u8; 4], a_port: u16, b: [u8; 4], b_port: u16)
    requires
        packed_addr(a, a_port) == packed_addr(b, b_port),
    ensures
        a == b,
        a_port == b_port,
{
    assert(a =~= b);
}

/// The members of a set, each once, in no particular order.
pub fn members(set: &HashSet<ClientAddr>) -> (addrs: Vec<ClientAddr>)
    ensures
        addrs@.no_duplicates(),
        addrs@.to_set() == set@,
{
    let mut addrs: Vec<ClientAddr> = Vec::new();
    for addr in it: set.iter()
        invariant
            addrs@ == it.seq().unref().take(it.index() as int),
            it.seq().no_duplicates(),
            it.seq().unref().to_set() == set@,
            it.index() == it.seq().len() ==> addrs@.to_set() == set@,
    {
        addrs.push(*addr);
        assert(it.index() + 1 == it.seq().len() ==> addrs@ =~= it.seq().unref());
    }
    addrs
}

/// What reaches the daemon from a client.
#[derive(Debug, Clone, Copy)]
pub struct ClientReq {
    pub addr: ClientAddr,
    pub data: ClientReqData,
}

#[derive(Debug, Clone, Copy)]
pub enum ClientReqData {
    Message(MessageToServer),
    Disconnected,
}

impl ClientReq {
    pub fn new(addr: ClientAddr, msg: MessageToServer) -> (req: Self)
        ensures
            req == (ClientReq { addr, data: ClientReqData::Message(msg) }),
    {
        ClientReq { addr, data: ClientReqData::Message(msg) }
    }
}

/// What the daemon answers a client.
#[derive(Debug)]
pub struct ServerRes {
    pub addr: ClientAddr,
    pub msg: MessageToClient,
}

impl ServerRes {
    pub fn new(addr: ClientAddr, msg: MessageToClient) -> (res: Self)
        ensures
            res == (ServerRes { addr, msg }),
    {
        ServerRes { addr, msg }
    }
}

} // verus!
