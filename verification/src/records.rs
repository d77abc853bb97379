//! The plain record types the sampling pipeline carries between stages.

use vstd::prelude::*;

use crate::addr::IpAddress;
use crate::addr::ip_to_stored_ipv6;
use crate::addr::ipv6_octets;
use crate::addr::spec_v6_mapped;
use crate::addr::spec_v6_octets;

verus! {

/// One sampled packet: its capture timestamp and the raw network-layer
/// packet, so analytics can be switched out downstream.
#[derive(Clone, Debug, Default, PartialEq)]
pub struct PacketSample {
    pub timestamp_ms: u64,
    pub ip_packet_raw: Vec<u8>,
}

/// One scraped reverse-DNS record for an address.
#[derive(Clone, Debug, Default, PartialEq)]
pub struct DnsReverseRecord {
    pub timestamp_seconds: u32,
    /// The address, IPv6-mapped, as sixteen network-order octets.
    pub ip_addr: Vec<u8>,
    pub ptr_records: Vec<String>,
    pub no_record: bool,
}

impl DnsReverseRecord {
    /// A record's address field always holds exactly sixteen octets.
    pub open spec fn wf(self) -> bool {
        self.ip_addr@.len() == 16
    }

    /// Assembles a record for an address, normalizing it to its
    /// IPv6-mapped sixteen-octet form.
    pub fn new(timestamp_seconds: u32, addr: IpAddress, ptr_records: Vec<String>, no_record: bool)
        -> (r: DnsReverseRecord)
        ensures
            r.wf(),
            r.timestamp_seconds == timestamp_seconds,
            r.ip_addr@ == spec_v6_octets(spec_v6_mapped(addr) as u128),
            r.ptr_records == ptr_records,
            r.no_record == no_record,
    {
        DnsReverseRecord {
            timestamp_seconds,
            ip_addr: ipv6_octets(ip_to_stored_ipv6(addr)),
            ptr_records,
            no_record,
        }
    }
}

/// How produced records leave the process.
#[derive(Clone, Copy, PartialEq, Eq, Structural, Debug)]
pub enum ProducerType {
    /// Print in human-readable form to the logger.
    Log,
    /// Write as line-separated JSON documents to a file.
    File,
    /// Send to a message broker.
    Kafka,
}

impl Default for ProducerType {
    fn default() -> (r: Self)
        ensures
            r == ProducerType::File,
    {
        ProducerType::File
    }
}

/// Service options shared by every binary built around the library.
#[derive(Clone, Debug, PartialEq)]
pub struct LibOpts {
    /// Which type of producer to use.
    pub producer_type: ProducerType,
    /// Comma-separated list of bootstrap servers.
    pub kafka_bootstrap_servers: String,
    /// Longest time the producer waits for sending one message.
    pub kafka_message_timeout_ms: u32,
}

impl Default for LibOpts {
    fn default() -> (r: Self)
        ensures
            r.producer_type == ProducerType::File,
            r.kafka_bootstrap_servers@ == "localhost:9094"@,
            r.kafka_message_timeout_ms == 5000,
    {
        LibOpts {
            producer_type: ProducerType::File,
            kafka_bootstrap_servers: String::from_str("localhost:9094"),
            kafka_message_timeout_ms: 5000,
        }
    }
}

} // verus!
