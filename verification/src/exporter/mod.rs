//! Exporters from the intermediate representation and from API documents.
pub mod clients;
pub mod encoder;
pub mod helpers;
pub mod interfaces;
pub mod protobuf;
pub mod typescript;

use vstd::prelude::*;

verus! {

/// The exports that can be produced.
#[allow(dead_code)]
enum ExistingExports {
    TypescriptHttp,
}

/// Where an export is written.
pub struct ExportOption {
    path: String,
}

impl View for ExportOption {
    type V = Seq<char>;

    /// The path the export is written to.
    closed spec fn view(&self) -> Seq<char> {
        self.path@
    }
}

impl ExportOption {
    /// The option to write to `path`.
    pub fn new(path: String) -> (r: ExportOption)
        ensures
            r@ == path@,
    {
        ExportOption { path }
    }

    /// The partial option with the same path.
    pub fn as_partial(&self) -> (r: PartialExportOption)
        ensures
            r@ == self@,
    {
        PartialExportOption::new(self.path.clone())
    }
}

/// Where an export is written, as given before it is completed.
pub struct PartialExportOption {
    path: String,
}

impl View for PartialExportOption {
    type V = Seq<char>;

    /// The path the export is written to.
    closed spec fn view(&self) -> Seq<char> {
        self.path@
    }
}

impl PartialExportOption {
    /// The partial option to write to `path`.
    pub fn new(path: String) -> (r: PartialExportOption)
        ensures
            r@ == path@,
    {
        PartialExportOption { path }
    }

    /// The full option with the same path.
    pub fn as_full(&self) -> (r: ExportOption)
        ensures
            r@ == self@,
    {
        ExportOption::new(self.path.clone())
    }
}

pub struct Exporter {}

impl Exporter {
    /// Produces nothing yet, whatever the options.
    pub fn export(options: PartialExportOption) {
    }
}

} // verus!
