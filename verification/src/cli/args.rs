//! The command line's arguments.
use vstd::prelude::*;

verus! {

/// The parsed command line.
#[derive(Debug, Clone)]
pub struct Cli {
    /// Working directory (defaults to current directory).
    pub directory: Option<String>,
    pub command: Option<Commands>,
}

#[derive(Debug, Clone)]
pub enum Commands {
    /// Launch the interactive interface.
    Tui,
    /// Analyze one or more repositories.
    Analyze(AnalyzeArgs),
    /// Compare multiple repositories.
    Compare(CompareArgs),
}

#[derive(Debug, Clone)]
pub struct AnalyzeArgs {
    pub view: AnalyzeView,
    pub repos: Vec<String>,
    pub format: Option<OutputFormat>,
    pub output: Option<String>,
    pub email: Option<String>,
}

#[derive(Debug, Clone)]
pub struct CompareArgs {
    pub repos: Vec<String>,
    pub format: CompareOutputFormat,
    pub output: Option<String>,
}

#[derive(Debug, Clone, Copy, PartialEq, Eq, Structural)]
pub enum AnalyzeView {
    /// Full analysis (JSON or Markdown).
    All,
    /// Per-contributor commit and line statistics.
    Contribution,
    /// Most active days and hours per contributor.
    Activity,
    /// Detailed per-contributor deep-dive.
    UserEffort,
}

#[derive(Debug, Clone, Copy, PartialEq, Eq, Structural)]
pub enum OutputFormat {
    Json,
    Md,
    Table,
}

impl OutputFormat {
    /// JSON for the full analysis, a table for the per-contributor views.
    pub fn default_for_view(view: &AnalyzeView) -> (r: Self)
        ensures
            r == (if *view == AnalyzeView::All {
                OutputFormat::Json
            } else {
                OutputFormat::Table
            }),
    {
        match view {
            AnalyzeView::All => OutputFormat::Json,
            AnalyzeView::Contribution | AnalyzeView::Activity | AnalyzeView::UserEffort => OutputFormat::Table,
        }
    }
}

#[derive(Debug, Clone, Copy, PartialEq, Eq, Structural)]
pub enum CompareOutputFormat {
    Json,
    Md,
}

pub open spec fn spec_format_of_compare(value: CompareOutputFormat) -> OutputFormat {
    match value {
        CompareOutputFormat::Json => OutputFormat::Json,
        CompareOutputFormat::Md => OutputFormat::Md,
    }
}

impl From<CompareOutputFormat> for OutputFormat {
    fn from(value: CompareOutputFormat) -> (r: Self) {
        match value {
            CompareOutputFormat::Json => OutputFormat::Json,
            CompareOutputFormat::Md => OutputFormat::Md,
        }
    }
}

impl vstd::std_specs::convert::FromSpecImpl<CompareOutputFormat> for OutputFormat {
    open spec fn obeys_from_spec() -> bool {
        true
    }

    open spec fn from_spec(value: CompareOutputFormat) -> Self {
        spec_format_of_compare(value)
    }
}

} // verus!
