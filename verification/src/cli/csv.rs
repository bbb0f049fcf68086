//! The values of the CSV command.

use vstd::prelude::*;
use vstd::string::StringExecFns;

verus! {

/// The format that CSV is turned into.
#[derive(Clone, Copy, Debug, PartialEq, Eq, Structural)]
pub enum OutputFormat {
    /// JSON.
    Json,
    /// YAML.
    Yaml,
}

impl OutputFormat {
    /// The name of the format, which is also the ending of its files.
    pub open spec fn name_spec(self) -> Seq<char> {
        match self {
            OutputFormat::Json => "json"@,
            OutputFormat::Yaml => "yaml"@,
        }
    }

    /// The name of the format, which is also the ending of its files.
    pub fn name(&self) -> (name: &'static str)
        ensures
            name@ == self.name_spec(),
    {
        match self {
            OutputFormat::Json => "json",
            OutputFormat::Yaml => "yaml",
        }
    }
}

/// What is converted, and into what.
#[derive(Clone, Debug, PartialEq, Eq)]
pub struct CsvOpts {
    /// The CSV file.
    pub input: String,
    /// The file to write, where one is named.
    pub output: Option<String>,
    /// The format to write.
    pub format: OutputFormat,
    /// The character between two fields.
    pub delimiter: char,
    /// Whether the first line names the fields.
    pub header: bool,
}

impl CsvOpts {
    /// The file that is written: the one named, or else `output.` followed
    /// by the name of the format.
    pub open spec fn output_file_spec(self) -> Seq<char> {
        match self.output {
            Some(named) => named@,
            None => "output."@ + self.format.name_spec(),
        }
    }

    /// The file that is written.
    pub fn output_file(&self) -> (path: String)
        ensures
            path@ == self.output_file_spec(),
    {
        match &self.output {
            Some(named) => named.clone(),
            None => String::from_str("output.").concat(self.format.name()),
        }
    }
}

} // verus!
