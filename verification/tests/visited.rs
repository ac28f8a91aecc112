use xkbcompose::visited::VisitedFiles;

fn path(parts: &[&str]) -> Vec<Vec<u8>> {
    parts.iter().map(|p| p.as_bytes().to_vec()).collect()
}

#[test]
fn each_file_is_visited_once() {
    let mut v = VisitedFiles::new();
    assert!(v.first_visit(path(&["/", "usr", "share", "Compose"])));
    assert!(v.first_visit(path(&["/", "usr", "share", "extra"])));
    assert!(!v.first_visit(path(&["/", "usr", "share", "Compose"])));
    assert!(!v.first_visit(path(&["/", "usr", "share", "extra"])));
    assert!(v.first_visit(path(&["usr", "share", "Compose"])));
    assert!(v.first_visit(path(&["/", "usr", "shar", "eCompose"])));
    assert!(v.first_visit(vec![vec![0xff, 0x2f]]));
    assert!(!v.first_visit(vec![vec![0xff, 0x2f]]));
}
