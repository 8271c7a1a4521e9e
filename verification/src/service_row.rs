//! The table row of a service.

use vstd::prelude::*;
use crate::decimal::{decimal, integer_text};
use crate::service::{duplicate_text, Service};
use crate::timestamp::Timestamp;
use crate::utils::{
    date_cell,
    get_cell_content_of_date,
    get_cell_content_of_option,
    lemma_placeholder_not_empty,
    option_cell,
    placeholder,
    texts_of,
};

verus! {

/// A service as a table shows it, with the names of its node and its
/// deployment.
#[derive(Debug)]
pub struct ServiceRow {
    pub id: i64,
    pub name: String,
    pub image: String,
    pub node: String,
    pub deployment: String,
    pub hostname: String,
    pub ipv4_address: Option<String>,
    pub start: Option<Timestamp>,
    pub end: Option<Timestamp>,
    pub replicas: i64,
}

impl ServiceRow {
    /// The row of a service, under the names that its node and its
    /// deployment resolved to. A service without an id shows as 0.
    pub fn new(service: &Service, node: String, deployment: String) -> (r: ServiceRow)
        ensures
            r.id == match service.id {
                Some(id) => id,
                None => 0,
            },
            r.name == service.name,
            r.image == service.image,
            r.node == node,
            r.deployment == deployment,
            r.hostname == service.hostname,
            r.ipv4_address == service.ipv4_address,
            r.start == Some(service.start),
            r.end == service.end,
            r.replicas == service.replicas,
    {
        ServiceRow {
            id: match service.id {
                Some(id) => id,
                None => 0,
            },
            name: service.name.clone(),
            image: service.image.clone(),
            node,
            deployment,
            hostname: service.hostname.clone(),
            ipv4_address: duplicate_text(&service.ipv4_address),
            start: Some(service.start),
            end: service.end,
            replicas: service.replicas,
        }
    }

    /// The cells of the row: id, name, image, node, deployment, hostname,
    /// address, start, and the number of replicas.
    pub open spec fn spec_cells(&self) -> Seq<Seq<char>> {
        seq![
            decimal(self.id as int),
            self.name@,
            self.image@,
            self.node@,
            self.deployment@,
            self.hostname@,
            option_cell(self.ipv4_address),
            date_cell(self.start),
            decimal(self.replicas as int),
        ]
    }

    /// The cells of the row, in the order of the table's columns.
    pub fn get_cells(&self) -> (r: Vec<String>)
        ensures
            texts_of(r@) == self.spec_cells(),
    {
        let mut cells: Vec<String> = Vec::new();
        cells.push(integer_text(self.id));
        cells.push(self.name.clone());
        cells.push(self.image.clone());
        cells.push(self.node.clone());
        cells.push(self.deployment.clone());
        cells.push(self.hostname.clone());
        cells.push(get_cell_content_of_option(&self.ipv4_address));
        cells.push(get_cell_content_of_date(&self.start));
        cells.push(integer_text(self.replicas));
        proof {
            assert(texts_of(cells@) =~= self.spec_cells());
        }
        cells
    }
}

/// What a service lacks shows as the placeholder, never as an empty cell.
pub proof fn lemma_service_row_placeholders(row: ServiceRow)
    ensures
        row.spec_cells().len() == 9,
        row.ipv4_address is None ==> row.spec_cells()[6] == placeholder(),
        row.start is None ==> row.spec_cells()[7] == placeholder(),
        placeholder().len() > 0,
{
    lemma_placeholder_not_empty();
}

} // verus!
