use textedit::features::settings::add_recent_file;

#[test]
fn test_add_recent_file() {
    let mut recent_files: Vec<String> = Vec::new();
    let max_recent_files = 10;

    add_recent_file(&mut recent_files, max_recent_files, "/path/to/file1.txt".to_string());
    add_recent_file(&mut recent_files, max_recent_files, "/path/to/file2.txt".to_string());
    add_recent_file(&mut recent_files, max_recent_files, "/path/to/file1.txt".to_string());

    assert_eq!(recent_files.len(), 2);
    assert_eq!(recent_files[0], "/path/to/file1.txt");
}

#[test]
fn test_max_recent_files() {
    let mut recent_files: Vec<String> = Vec::new();
    let max_recent_files = 3;

    for i in 0..5 {
        add_recent_file(&mut recent_files, max_recent_files, format!("/path/to/file{}.txt", i));
    }

    assert_eq!(recent_files.len(), 3);
}

#[test]
fn recent_files_newest_first_without_copies() {
    let mut recent: Vec<String> = vec!["a".to_string(), "b".to_string(), "a".to_string(), "c".to_string()];
    add_recent_file(&mut recent, 3, "a".to_string());
    assert_eq!(recent, vec!["a".to_string(), "b".to_string(), "c".to_string()]);
    add_recent_file(&mut recent, 2, "d".to_string());
    assert_eq!(recent, vec!["d".to_string(), "a".to_string()]);
    add_recent_file(&mut recent, 0, "e".to_string());
    assert!(recent.is_empty());
}
