use repolyze::cli::args::{AnalyzeView, CompareOutputFormat, OutputFormat};
use repolyze::cli::repos::{default_repos, initial_repos};
use repolyze::cli::run::validate_view_format;

#[test]
fn default_format_follows_view() {
    assert_eq!(OutputFormat::default_for_view(&AnalyzeView::All), OutputFormat::Json);
    assert_eq!(OutputFormat::default_for_view(&AnalyzeView::Contribution), OutputFormat::Table);
    assert_eq!(OutputFormat::default_for_view(&AnalyzeView::UserEffort), OutputFormat::Table);
}

#[test]
fn compare_format_converts() {
    assert_eq!(OutputFormat::from(CompareOutputFormat::Json), OutputFormat::Json);
    assert_eq!(OutputFormat::from(CompareOutputFormat::Md), OutputFormat::Md);
}

#[test]
fn view_format_validation() {
    assert!(validate_view_format(&AnalyzeView::All, &OutputFormat::Json).is_ok());
    assert!(validate_view_format(&AnalyzeView::All, &OutputFormat::Md).is_ok());
    assert_eq!(
        validate_view_format(&AnalyzeView::All, &OutputFormat::Table),
        Err("'all' view does not support table format; use json or md".to_string())
    );
    assert!(validate_view_format(&AnalyzeView::Activity, &OutputFormat::Table).is_ok());
    assert_eq!(
        validate_view_format(&AnalyzeView::Contribution, &OutputFormat::Json),
        Err("analytics views only support table format; use --format table".to_string())
    );
}

#[test]
fn initial_repos_prefers_subcommand_flags() {
    assert_eq!(
        initial_repos(vec!["a".to_string()], vec!["b".to_string()]),
        Some(vec!["a".to_string()])
    );
    assert_eq!(initial_repos(vec![], vec!["b".to_string()]), Some(vec!["b".to_string()]));
    assert_eq!(initial_repos(vec![], vec![]), None);
}

#[test]
fn default_repos_is_current_directory() {
    assert_eq!(default_repos(vec![]), vec![".".to_string()]);
    assert_eq!(default_repos(vec!["x".to_string()]), vec!["x".to_string()]);
}
