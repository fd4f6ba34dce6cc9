//! Plain models of the headers that the gateway handles.
//!
//! Addresses are held as integers in network order: 32 bits for IPv4 and 128
//! bits for IPv6.

use vstd::prelude::*;

verus! {

/// An IP packet header together with the version nibble that selects it.
#[derive(Debug, PartialEq, Eq)]
pub struct IpPacket {
    pub version: u8,
    pub header: IpHeader,
}

/// The version-specific part of an IP header.
#[derive(Debug, PartialEq, Eq)]
pub enum IpHeader {
    Ipv4(Ipv4Header),
    Ipv6(Ipv6Header),
}

/// The fixed part of an IPv4 header.
#[derive(Debug, PartialEq, Eq)]
pub struct Ipv4Header {
    /// Internet header length.
    pub ihl: u8,
    /// Differentiated services code point.
    pub dscp: u8,
    /// Explicit congestion notification.
    pub ecn: u8,
    /// Total length.
    pub length: u16,
    pub identification: u16,
    pub flags: u8,
    /// Fragment offset.
    pub offset: u16,
    /// Time to live.
    pub ttl: u8,
    pub protocol: u8,
    /// Header checksum.
    pub checksum: u16,
    /// Source address.
    pub src: u32,
    /// Destination address.
    pub dst: u32,
}

impl Ipv4Header {
    /// What the header length leaves for options: `ihl - 4`, and zero where
    /// `ihl` is smaller than that.
    pub open spec fn spec_options_size(&self) -> int {
        if self.ihl >= 4 {
            self.ihl - 4
        } else {
            0
        }
    }

    /// What the total length leaves for the payload: `length - ihl`, and zero
    /// where `length` is smaller than `ihl`.
    pub open spec fn spec_payload_size(&self) -> int {
        if self.length >= self.ihl {
            self.length - self.ihl
        } else {
            0
        }
    }

    /// The size of the options, as the header length gives it.
    pub fn options_size(&self) -> (size: usize)
        ensures
            size == self.spec_options_size(),
    {
        self.ihl.saturating_sub(4).into()
    }

    /// The size of the payload, as the total length and the header length
    /// give it.
    pub fn payload_size(&self) -> (size: usize)
        ensures
            size == self.spec_payload_size(),
    {
        self.length.saturating_sub(self.ihl.into()).into()
    }
}

/// The fixed part of an IPv6 header.
#[derive(Debug, PartialEq, Eq)]
pub struct Ipv6Header {
    /// Differentiated services code point.
    pub dscp: u8,
    /// Explicit congestion notification.
    pub ecn: u8,
    /// Flow label.
    pub fl: u32,
    pub length: u16,
    pub protocol: u8,
    /// Hop limit.
    pub hl: u8,
    pub src: u128,
    pub dst: u128,
}

/// The tunnel header that carries a payload under a tunnel endpoint
/// identifier.
#[derive(Debug, PartialEq, Eq)]
pub struct GtpuHeader {
    /// The tunnel endpoint identifier the payload travels under.
    pub teid: u32,
    /// The number of payload bytes that follow the header.
    pub length: usize,
}

impl GtpuHeader {
    /// The header for `payload` sent through the tunnel `teid`.
    pub fn wrap(teid: u32, payload: &[u8]) -> (header: Self)
        ensures
            header.teid == teid,
            header.length == payload@.len(),
    {
        GtpuHeader { teid, length: payload.len() }
    }
}

} // verus!
