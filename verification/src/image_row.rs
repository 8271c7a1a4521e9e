//! The table row of an image.

use vstd::prelude::*;
use crate::configuration::Configuration;
use crate::utils::{get_cell_content_of_flag, lemma_placeholder_not_empty, placeholder, texts_of, yes_or_no};

verus! {

/// An image file as a table shows it.
#[derive(Debug)]
pub struct ImageRow {
    pub filename: String,
    pub configuration: Option<Configuration>,
}

impl ImageRow {
    /// The row of an image file and what is known of its configuration.
    pub fn new(filename: String, configuration: Option<Configuration>) -> (r: ImageRow)
        ensures
            r.filename == filename,
            r.configuration == configuration,
    {
        ImageRow { filename, configuration }
    }

    /// The cells of the row: the file's name, the architecture's name, and
    /// `yes` or `no` for whether the image is on a device; the placeholder
    /// for both where the image has no configuration.
    pub open spec fn spec_cells(&self) -> Seq<Seq<char>> {
        match self.configuration {
            Some(config) => seq![
                self.filename@,
                config.architecture.spec_name(),
                yes_or_no(config.on_device),
            ],
            None => seq![self.filename@, placeholder(), placeholder()],
        }
    }

    /// The cells of the row, in the order of the table's columns.
    pub fn get_cells(&self) -> (r: Vec<String>)
        ensures
            texts_of(r@) == self.spec_cells(),
    {
        let mut cells: Vec<String> = Vec::new();
        cells.push(self.filename.clone());
        match &self.configuration {
            Some(config) => {
                cells.push(config.architecture.get_name().to_owned());
                cells.push(get_cell_content_of_flag(config.on_device));
            },
            None => {
                cells.push("\u{2014}".to_owned());
                cells.push("\u{2014}".to_owned());
            },
        }
        proof {
            assert(texts_of(cells@) =~= self.spec_cells());
        }
        cells
    }
}

/// An image without a configuration shows the placeholder, never an empty
/// cell, in both columns that a configuration would fill.
pub proof fn lemma_image_row_placeholders(row: ImageRow)
    requires
        row.configuration is None,
    ensures
        row.spec_cells().len() == 3,
        row.spec_cells()[1] == placeholder(),
        row.spec_cells()[2] == placeholder(),
        placeholder().len() > 0,
{
    lemma_placeholder_not_empty();
}

} // verus!
