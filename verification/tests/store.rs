use repolyze::store::path::database_path_from_home;
use repolyze::store::sqlite::{max_index, parameterized_in_clause};

#[test]
fn database_path_defaults_to_repolyze_db_in_home_directory() {
    let path = database_path_from_home("/tmp/test-home");
    assert_eq!(
        std::path::PathBuf::from(path),
        std::path::PathBuf::from("/tmp/test-home/.repolyze/repolyze.db")
    );
}

#[test]
fn database_path_with_trailing_slash() {
    assert_eq!(database_path_from_home("/home/x/"), "/home/x/.repolyze/repolyze.db");
}

#[test]
fn in_clause_placeholders() {
    assert_eq!(parameterized_in_clause(1), "?1");
    assert_eq!(parameterized_in_clause(3), "?1,?2,?3");
}

#[test]
fn max_index_prefers_last_maximum() {
    assert_eq!(max_index(&vec![1, 5, 3, 5]), 3);
    assert_eq!(max_index(&vec![0, 0]), 1);
}
