//! Which output formats each view supports.
use vstd::prelude::*;

use crate::cli::args::{AnalyzeView, OutputFormat};
use crate::text::string_of_str;

verus! {

broadcast use vstd::string::group_string_axioms;

/// The full analysis is written as JSON or Markdown; the per-contributor views as tables.
pub open spec fn format_supported(view: AnalyzeView, format: OutputFormat) -> bool {
    if view == AnalyzeView::All {
        format != OutputFormat::Table
    } else {
        format == OutputFormat::Table
    }
}

/// Checks that `format` suits `view`; the error says which formats to use instead.
pub fn validate_view_format(view: &AnalyzeView, format: &OutputFormat) -> (r: Result<(), String>)
    ensures
        r is Ok <==> format_supported(*view, *format),
        r matches Err(e) ==> e@ == if *view == AnalyzeView::All {
            "'all' view does not support table format; use json or md"@
        } else {
            "analytics views only support table format; use --format table"@
        },
{
    match (view, format) {
        (AnalyzeView::All, OutputFormat::Json) | (AnalyzeView::All, OutputFormat::Md) => Ok(()),
        (AnalyzeView::All, OutputFormat::Table) => Err(
            string_of_str("'all' view does not support table format; use json or md"),
        ),
        (_, OutputFormat::Table) => Ok(()),
        (_, _) => Err(string_of_str("analytics views only support table format; use --format table")),
    }
}

} // verus!
