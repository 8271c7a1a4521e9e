//! The table row of a node.

use vstd::prelude::*;
use crate::node::Node;
use crate::utils::{
    get_cell_content_of_flag,
    get_cell_content_of_option,
    lemma_placeholder_not_empty,
    option_cell,
    placeholder,
    texts_of,
    yes_or_no,
};

verus! {

/// A node as a table shows it, with what was found out about it.
#[derive(Debug)]
pub struct NodeRow {
    pub id: String,
    pub name: String,
    pub mac_address: String,
    pub tftp_prefix: String,
    pub serial_number: String,
    pub status: Option<bool>,
    pub hostname: Option<String>,
    pub ipv4_address: Option<String>,
    pub usable: bool,
}

/// The word for the state of a node: `up`, `down`, or the placeholder
/// where the state is not known.
pub open spec fn status_cell(status: Option<bool>) -> Seq<char> {
    match status {
        Some(is_up) => if is_up {
            "up"@
        } else {
            "down"@
        },
        None => placeholder(),
    }
}

impl NodeRow {
    /// The row of a node: its identity, and what was found out about its
    /// state, hostname, address and usability.
    pub fn new(
        node: Node,
        status: Option<bool>,
        hostname: Option<String>,
        ipv4_address: Option<String>,
        usable: bool,
    ) -> (r: NodeRow)
        ensures
            r.id == node.id,
            r.name == node.name,
            r.mac_address == node.mac_address,
            r.tftp_prefix == node.tftp_prefix,
            r.serial_number == node.serial_number,
            r.status == status,
            r.hostname == hostname,
            r.ipv4_address == ipv4_address,
            r.usable == usable,
    {
        NodeRow {
            id: node.id,
            name: node.name,
            mac_address: node.mac_address,
            tftp_prefix: node.tftp_prefix,
            serial_number: node.serial_number,
            status,
            hostname,
            ipv4_address,
            usable,
        }
    }

    /// The cells of the row: id, name, MAC address, TFTP prefix, serial
    /// number, state, hostname, address, and `yes` or `no` for whether the
    /// node is usable.
    pub open spec fn spec_cells(&self) -> Seq<Seq<char>> {
        seq![
            self.id@,
            self.name@,
            self.mac_address@,
            self.tftp_prefix@,
            self.serial_number@,
            status_cell(self.status),
            option_cell(self.hostname),
            option_cell(self.ipv4_address),
            yes_or_no(self.usable),
        ]
    }

    /// The cells of the row, in the order of the table's columns.
    pub fn get_cells(&self) -> (r: Vec<String>)
        ensures
            texts_of(r@) == self.spec_cells(),
    {
        let mut cells: Vec<String> = Vec::new();
        cells.push(self.id.clone());
        cells.push(self.name.clone());
        cells.push(self.mac_address.clone());
        cells.push(self.tftp_prefix.clone());
        cells.push(self.serial_number.clone());
        let status = match self.status {
            Some(is_up) => if is_up {
                "up".to_owned()
            } else {
                "down".to_owned()
            },
            None => "\u{2014}".to_owned(),
        };
        cells.push(status);
        cells.push(get_cell_content_of_option(&self.hostname));
        cells.push(get_cell_content_of_option(&self.ipv4_address));
        cells.push(get_cell_content_of_flag(self.usable));
        proof {
            assert(texts_of(cells@) =~= self.spec_cells());
        }
        cells
    }
}

/// What is not known of a node shows as the placeholder, never as an empty
/// cell.
pub proof fn lemma_node_row_placeholders(row: NodeRow)
    ensures
        row.spec_cells().len() == 9,
        row.status is None ==> row.spec_cells()[5] == placeholder(),
        row.hostname is None ==> row.spec_cells()[6] == placeholder(),
        row.ipv4_address is None ==> row.spec_cells()[7] == placeholder(),
        placeholder().len() > 0,
{
    lemma_placeholder_not_empty();
}

} // verus!
