use memfs::error::FileError;
use memfs::file::{File, FileSystem};
use memfs::stats::stats;

fn summary(fs: &FileSystem) -> Vec<(u32, String, usize)> {
    fs.list_files()
        .iter()
        .map(|f| (f.id, f.name.clone(), f.size))
        .collect()
}

#[test]
fn scenario_create_delete_and_fresh_ids() {
    let mut fs = FileSystem::new();
    assert_eq!(fs.create_file("a.txt".to_string(), "hello".to_string()), Ok(1));
    assert_eq!(fs.create_file("b".to_string(), "world".to_string()), Ok(2));
    assert_eq!(fs.total_size(), 10);
    assert_eq!(fs.delete_file("a.txt"), Ok(()));
    assert_eq!(summary(&fs), vec![(2, "b".to_string(), 5)]);
    assert_eq!(fs.create_file("c.txt".to_string(), "x".to_string()), Ok(3));
}

#[test]
fn ids_count_up_from_one() {
    let mut fs = FileSystem::new();
    for (k, name) in ["x", "y", "z", "w"].iter().enumerate() {
        assert_eq!(fs.create_file(name.to_string(), String::new()), Ok(k as u32 + 1));
    }
    assert_eq!(fs.next_id(), 5);
}

#[test]
fn create_same_name_twice_fails() {
    let mut fs = FileSystem::new();
    assert_eq!(fs.create_file("notes".to_string(), "one".to_string()), Ok(1));
    assert_eq!(
        fs.create_file("notes".to_string(), "two".to_string()),
        Err(FileError::AlreadyExists("notes".to_string()))
    );
    assert_eq!(fs.file_count(), 1);
    assert_eq!(fs.read_file("notes"), Ok("one"));
    assert_eq!(fs.next_id(), 2);
}

#[test]
fn create_blank_name_fails() {
    let mut fs = FileSystem::new();
    assert!(matches!(
        fs.create_file(String::new(), "x".to_string()),
        Err(FileError::InvalidInput(_))
    ));
    assert!(matches!(
        fs.create_file("   ".to_string(), "x".to_string()),
        Err(FileError::InvalidInput(_))
    ));
    assert!(matches!(
        fs.create_file("\t\n".to_string(), "x".to_string()),
        Err(FileError::InvalidInput(_))
    ));
    assert_eq!(fs.file_count(), 0);
    assert_eq!(fs.next_id(), 1);
}

#[test]
fn write_then_read() {
    let mut fs = FileSystem::new();
    assert_eq!(fs.create_file("doc".to_string(), "old".to_string()), Ok(1));
    let created = fs.get_file("doc").unwrap().created_at;
    assert_eq!(fs.write_file("doc", "brand new".to_string()), Ok(()));
    assert_eq!(fs.read_file("doc"), Ok("brand new"));
    let f = fs.get_file("doc").unwrap();
    assert_eq!(f.size, 9);
    assert_eq!(f.id, 1);
    assert_eq!(f.created_at, created);
    assert_eq!(fs.total_size(), 9);
}

#[test]
fn size_counts_bytes() {
    let mut fs = FileSystem::new();
    assert_eq!(fs.create_file("u".to_string(), "héllo".to_string()), Ok(1));
    assert_eq!(fs.get_file_by_id(1).unwrap().size, 6);
}

#[test]
fn absent_name_or_id_fails_and_changes_nothing() {
    let mut fs = FileSystem::new();
    assert_eq!(fs.create_file("here".to_string(), "abc".to_string()), Ok(1));
    let missing = Err(FileError::NotFound("gone".to_string()));
    assert_eq!(fs.read_file("gone"), missing.clone().map(|()| ""));
    assert_eq!(fs.get_file("gone").map(|f| f.id), missing.clone().map(|()| 0));
    assert_eq!(fs.write_file("gone", "x".to_string()), missing.clone());
    assert_eq!(fs.delete_file("gone"), missing);
    assert_eq!(fs.get_file_by_id(7).map(|f| f.id), Err(FileError::InvalidId(7)));
    assert_eq!(fs.delete_file_by_id(7), Err(FileError::InvalidId(7)));
    assert_eq!(summary(&fs), vec![(1, "here".to_string(), 3)]);
    assert_eq!(fs.next_id(), 2);
}

#[test]
fn deleted_id_is_retired() {
    let mut fs = FileSystem::new();
    assert_eq!(fs.create_file("a".to_string(), "1".to_string()), Ok(1));
    assert_eq!(fs.create_file("b".to_string(), "2".to_string()), Ok(2));
    assert_eq!(fs.delete_file_by_id(2), Ok(()));
    assert_eq!(fs.get_file_by_id(2).map(|f| f.id), Err(FileError::InvalidId(2)));
    assert_eq!(fs.create_file("b".to_string(), "3".to_string()), Ok(3));
    assert_eq!(fs.get_file_by_id(2).map(|f| f.id), Err(FileError::InvalidId(2)));
}

#[test]
fn delete_keeps_order() {
    let mut fs = FileSystem::new();
    for name in ["p", "q", "r", "s"] {
        fs.create_file(name.to_string(), name.to_string()).unwrap();
    }
    assert_eq!(fs.delete_file("q"), Ok(()));
    let names: Vec<String> = fs.list_files().iter().map(|f| f.name.clone()).collect();
    assert_eq!(names, vec!["p", "r", "s"]);
}

#[test]
fn totals_match_listing() {
    let mut fs = FileSystem::new();
    assert_eq!(fs.total_size(), 0);
    assert_eq!(fs.file_count(), 0);
    assert!(fs.list_files().is_empty());
    fs.create_file("one".to_string(), "1234".to_string()).unwrap();
    fs.create_file("two".to_string(), "12".to_string()).unwrap();
    fs.create_file("three".to_string(), "".to_string()).unwrap();
    let sum: usize = fs.list_files().iter().map(|f| f.size).sum();
    assert_eq!(fs.total_size(), sum);
    assert_eq!(fs.total_size(), 6);
    assert_eq!(fs.file_count(), fs.list_files().len());
}

#[test]
fn stats_groups_extensions() {
    let mut fs = FileSystem::new();
    fs.create_file("a.txt".to_string(), "hello".to_string()).unwrap();
    fs.create_file("b.txt".to_string(), "hi".to_string()).unwrap();
    fs.create_file("c".to_string(), "xyz".to_string()).unwrap();
    let st = stats(&fs);
    assert_eq!(st.file_count, 3);
    assert_eq!(st.total_size, 10);
    assert_eq!(st.average_size, Some(3));
    assert_eq!(st.extensions, vec![Some("txt".to_string()), None]);
    assert_eq!(st.extension_counts, vec![2, 1]);
}

#[test]
fn stats_of_empty_store() {
    let st = stats(&FileSystem::new());
    assert_eq!(st.file_count, 0);
    assert_eq!(st.total_size, 0);
    assert_eq!(st.average_size, None);
    assert!(st.extensions.is_empty());
    assert!(st.extension_counts.is_empty());
}

#[test]
fn file_new_and_write_content() {
    assert!(matches!(
        File::new(1, " ".to_string(), "x".to_string()),
        Err(FileError::InvalidInput(_))
    ));
    let mut f = File::new(4, "n".to_string(), "abc".to_string()).unwrap();
    assert_eq!((f.id, f.name.as_str(), f.content.as_str(), f.size), (4, "n", "abc", 3));
    let t = f.created_at;
    f.write_content("longer text".to_string());
    assert_eq!((f.id, f.name.as_str(), f.content.as_str(), f.size), (4, "n", "longer text", 11));
    assert_eq!(f.created_at, t);
}

#[test]
fn extension_after_last_dot() {
    let ext = |name: &str| {
        File::new(1, name.to_string(), String::new())
            .unwrap()
            .extension()
            .map(|e| e.to_string())
    };
    assert_eq!(ext("a.txt"), Some("txt".to_string()));
    assert_eq!(ext("archive.tar.gz"), Some("gz".to_string()));
    assert_eq!(ext("c"), None);
    assert_eq!(ext("trailing."), Some(String::new()));
}

#[test]
fn preview_keeps_fifty_characters() {
    let long = "x".repeat(60);
    let f = File::new(1, "f".to_string(), long).unwrap();
    assert_eq!(f.preview(), "x".repeat(50));
    assert!(f.is_truncated());
    let g = File::new(2, "g".to_string(), "é".repeat(50)).unwrap();
    assert_eq!(g.preview(), "é".repeat(50));
    assert!(!g.is_truncated());
    let h = File::new(3, "h".to_string(), "é".repeat(51)).unwrap();
    assert_eq!(h.preview(), "é".repeat(50));
    assert!(h.is_truncated());
}
