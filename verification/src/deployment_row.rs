//! The table row of a deployment.

use vstd::prelude::*;
use crate::decimal::{count_text, decimal, integer_text};
use crate::deployment::Deployment;
use crate::timestamp::Timestamp;
use crate::utils::{date_cell, get_cell_content_of_date, lemma_placeholder_not_empty, placeholder, texts_of};

verus! {

/// A deployment as a table shows it, with the number of its services where
/// that is known.
#[derive(Debug)]
pub struct DeploymentRow {
    pub id: Option<i64>,
    pub name: String,
    pub start: Option<Timestamp>,
    pub end: Option<Timestamp>,
    pub owner: String,
    pub services: Option<usize>,
}

/// The cell for a number of services: the number in decimal notation, or
/// the placeholder where it is not known.
pub open spec fn count_cell(services: Option<usize>) -> Seq<char> {
    match services {
        Some(number) => decimal(number as int),
        None => placeholder(),
    }
}

/// The id that a table shows: 0 for a deployment without one.
pub open spec fn shown_id(id: Option<i64>) -> int {
    match id {
        Some(id) => id as int,
        None => 0,
    }
}

impl DeploymentRow {
    /// The row of a deployment and the number of its services.
    pub fn new(deployment: Deployment, services: Option<usize>) -> (r: DeploymentRow)
        ensures
            r.id == deployment.id,
            r.name == deployment.name,
            r.start == Some(deployment.start),
            r.end == deployment.end,
            r.owner == deployment.owner,
            r.services == services,
    {
        DeploymentRow {
            id: deployment.id,
            name: deployment.name,
            start: Some(deployment.start),
            end: deployment.end,
            owner: deployment.owner,
            services,
        }
    }

    /// The cells of the row: id, name, start, end, owner, and the number
    /// of services.
    pub open spec fn spec_cells(&self) -> Seq<Seq<char>> {
        seq![
            decimal(shown_id(self.id)),
            self.name@,
            date_cell(self.start),
            date_cell(self.end),
            self.owner@,
            count_cell(self.services),
        ]
    }

    /// The cells of the row, in the order of the table's columns.
    pub fn get_cells(&self) -> (r: Vec<String>)
        ensures
            texts_of(r@) == self.spec_cells(),
    {
        let number = match self.services {
            Some(number) => count_text(number),
            None => "\u{2014}".to_owned(),
        };
        let id: i64 = match self.id {
            Some(id) => id,
            None => 0,
        };
        let mut cells: Vec<String> = Vec::new();
        cells.push(integer_text(id));
        cells.push(self.name.clone());
        cells.push(get_cell_content_of_date(&self.start));
        cells.push(get_cell_content_of_date(&self.end));
        cells.push(self.owner.clone());
        cells.push(number);
        proof {
            assert(texts_of(cells@) =~= self.spec_cells());
        }
        cells
    }
}

/// What a deployment lacks shows as the placeholder, never as an empty
/// cell.
pub proof fn lemma_deployment_row_placeholders(row: DeploymentRow)
    ensures
        row.spec_cells().len() == 6,
        row.start is None ==> row.spec_cells()[2] == placeholder(),
        row.end is None ==> row.spec_cells()[3] == placeholder(),
        row.services is None ==> row.spec_cells()[5] == placeholder(),
        placeholder().len() > 0,
{
    lemma_placeholder_not_empty();
}

} // verus!
