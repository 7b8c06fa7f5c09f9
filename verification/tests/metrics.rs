use repolyze::metrics::{count_lines, count_lines_in, file_extension, size_metrics_from, WalkEntry};

#[test]
fn count_lines_in_counts_blank_and_non_empty_lines() {
    assert_eq!(count_lines_in(""), (0, 0, 0));
    assert_eq!(count_lines_in("a\n"), (1, 1, 0));
    assert_eq!(count_lines_in("a\n\n  \nb"), (4, 2, 2));
    assert_eq!(count_lines_in("\n"), (1, 0, 1));
    assert_eq!(count_lines_in("x\r\ny\r\n"), (2, 2, 0));
}

#[test]
fn binary_or_invalid_contents_have_no_lines() {
    assert_eq!(count_lines(&vec![b'a', 0, b'\n']), (0, 0, 0));
    assert_eq!(count_lines(&vec![0xff, 0xfe, b'\n']), (0, 0, 0));
    assert_eq!(count_lines(&"fn main() {}\n\n".as_bytes().to_vec()), (2, 1, 1));
}

#[test]
fn file_extension_follows_path_rules() {
    assert_eq!(file_extension("src/main.rs").as_deref(), Some("rs"));
    assert_eq!(file_extension("archive.tar.GZ").as_deref(), Some("GZ"));
    assert_eq!(file_extension(".gitignore"), None);
    assert_eq!(file_extension("dir.d/Makefile"), None);
    assert_eq!(file_extension("notes."), Some(String::new()));
}

fn file(path: &str, size: u64, lines: (u64, u64, u64)) -> WalkEntry {
    WalkEntry::File { path: path.to_string(), size, lines }
}

#[test]
fn extension_totals_are_aggregated() {
    let entries = vec![
        WalkEntry::Directory { path: "src".to_string() },
        file("src/main.rs", 100, (10, 8, 2)),
        file("src/lib.RS", 300, (30, 25, 5)),
        file("README.md", 50, (5, 4, 1)),
        file("Makefile", 20, (2, 2, 0)),
    ];
    let m = size_metrics_from(&entries);
    assert_eq!(m.files, 4);
    assert_eq!(m.directories, 1);
    assert_eq!(m.total_bytes, 470);
    assert_eq!(m.total_lines, 47);
    assert_eq!(m.non_empty_lines, 39);
    assert_eq!(m.blank_lines, 8);
    assert_eq!(m.by_extension, vec![("md".to_string(), 1), ("rs".to_string(), 2)]);
    let largest: Vec<&str> = m.largest_files.iter().map(|f| f.path.as_str()).collect();
    assert_eq!(largest, vec!["src/lib.RS", "src/main.rs", "README.md", "Makefile"]);
    assert_eq!(m.largest_files[0].lines, 30);
}

#[test]
fn largest_files_keep_at_most_ten_in_walk_order_among_equals() {
    let entries: Vec<WalkEntry> = (0..12).map(|i| file(&format!("f{i}.txt"), if i == 11 { 99 } else { 7 }, (1, 1, 0))).collect();
    let m = size_metrics_from(&entries);
    assert_eq!(m.largest_files.len(), 10);
    assert_eq!(m.largest_files[0].path, "f11.txt");
    assert_eq!(m.largest_files[1].path, "f0.txt");
    assert_eq!(m.largest_files[9].path, "f8.txt");
}
