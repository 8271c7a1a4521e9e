//! Nodes: the machines that services run on.

use vstd::prelude::*;
use vstd::std_specs::cmp::PartialEqSpecImpl;
use crate::architecture::Architecture;
use crate::logsource::LogSource;
use crate::settings::{configured_flag, configured_text, flag_setting, text_setting, Setting};

verus! {

/// A physical or virtual machine that services can run on.
#[derive(Debug, Clone)]
pub struct Node {
    pub id: String,
    pub name: String,
    pub tftp_prefix: String,
    pub mac_address: String,
    pub serial_number: String,
    pub ipv4_address: String,
    pub log_inputs: Vec<LogSource>,
    pub architecture: Architecture,
    pub pxe: bool,
}

/// Whether `node` is what the configuration `entries` describes, under the
/// given id and with the given log sources. A setting that is missing, or
/// does not read as what is wanted, has its default.
pub open spec fn is_configured_by(
    node: Node,
    id: String,
    entries: Seq<Setting>,
    log_inputs: Vec<LogSource>,
) -> bool {
    &&& node.id == id
    &&& node.name@ == configured_text(entries, "name"@, "node"@)
    &&& node.tftp_prefix@ == configured_text(entries, "tftp-prefix"@, "00-00-00-00-00-00"@)
    &&& node.mac_address@ == configured_text(entries, "mac-address"@, "00-00-00-00-00-00"@)
    &&& node.serial_number@ == configured_text(entries, "serial-number"@, "00-00-00-00-00-00"@)
    &&& node.ipv4_address@ == configured_text(entries, "ipv4-address"@, "0.0.0.0"@)
    &&& node.log_inputs == log_inputs
    &&& node.architecture == Architecture::spec_parse_or_default(
        configured_text(entries, "architecture"@, "ARM64"@),
    )
    &&& node.pxe == configured_flag(entries, "pxe"@)
}

impl Node {
    /// The node that a configuration describes. It never fails: what is
    /// missing has its default, and an architecture that is not known is
    /// ARM64.
    pub fn from_config(id: String, hash: &Vec<Setting>, log_inputs: Vec<LogSource>) -> (r: Node)
        ensures
            is_configured_by(r, id, hash@, log_inputs),
    {
        let architecture = text_setting(hash, "architecture", "ARM64");
        Node {
            id,
            name: text_setting(hash, "name", "node"),
            tftp_prefix: text_setting(hash, "tftp-prefix", "00-00-00-00-00-00"),
            mac_address: text_setting(hash, "mac-address", "00-00-00-00-00-00"),
            serial_number: text_setting(hash, "serial-number", "00-00-00-00-00-00"),
            ipv4_address: text_setting(hash, "ipv4-address", "0.0.0.0"),
            log_inputs,
            architecture: Architecture::parse_or_default(architecture.as_str()),
            pxe: flag_setting(hash, "pxe"),
        }
    }
}

/// Whether two values stand for the same node: their id, name, TFTP
/// prefix, MAC address and serial number agree. This is what `==` means on
/// nodes.
pub open spec fn same_node(a: Node, b: Node) -> bool {
    &&& a.id@ == b.id@
    &&& a.name@ == b.name@
    &&& a.tftp_prefix@ == b.tftp_prefix@
    &&& a.mac_address@ == b.mac_address@
    &&& a.serial_number@ == b.serial_number@
}

impl PartialEq for Node {
    /// Two nodes are the same node where their id, name, TFTP prefix, MAC
    /// address and serial number agree, whatever their other fields hold.
    fn eq(&self, other: &Self) -> (r: bool) {
        self.id == other.id && self.name == other.name && self.tftp_prefix == other.tftp_prefix
            && self.mac_address == other.mac_address && self.serial_number == other.serial_number
    }
}

impl PartialEqSpecImpl for Node {
    open spec fn obeys_eq_spec() -> bool {
        true
    }

    open spec fn eq_spec(&self, other: &Node) -> bool {
        same_node(*self, *other)
    }
}

/// The node that an empty configuration describes has every default.
pub proof fn lemma_defaults_of_empty_configuration(
    node: Node,
    id: String,
    entries: Seq<Setting>,
    log_inputs: Vec<LogSource>,
)
    requires
        entries.len() == 0,
        is_configured_by(node, id, entries, log_inputs),
    ensures
        node.id == id,
        node.name@ == "node"@,
        node.tftp_prefix@ == "00-00-00-00-00-00"@,
        node.mac_address@ == "00-00-00-00-00-00"@,
        node.serial_number@ == "00-00-00-00-00-00"@,
        node.ipv4_address@ == "0.0.0.0"@,
        node.log_inputs == log_inputs,
        node.architecture == Architecture::ARM64,
        !node.pxe,
{
}

/// Two nodes that differ in nothing but their address, architecture, boot
/// mode and log sources are equal.
pub proof fn lemma_equality_ignores_address(a: Node, b: Node)
    requires
        a.id@ == b.id@,
        a.name@ == b.name@,
        a.tftp_prefix@ == b.tftp_prefix@,
        a.mac_address@ == b.mac_address@,
        a.serial_number@ == b.serial_number@,
    ensures
        same_node(a, b),
{
}

/// Two nodes that differ in their id, name, TFTP prefix, MAC address or
/// serial number are not equal.
pub proof fn lemma_equality_reads_identity(a: Node, b: Node)
    requires
        a.id@ != b.id@ || a.name@ != b.name@ || a.tftp_prefix@ != b.tftp_prefix@ || a.mac_address@
            != b.mac_address@ || a.serial_number@ != b.serial_number@,
    ensures
        !same_node(a, b),
{
}

} // verus!
