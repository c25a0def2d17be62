use macos_wallpaper::current::{
    current_for, current_for_all, get_current, get_from_directory, join_path, latest_index_value,
    DesktopImage, DisplayWallpaper, IndexRow,
};

fn row(rowid: i64, value: &str) -> IndexRow {
    IndexRow { rowid, value: value.to_string() }
}

fn file(path: &str) -> DisplayWallpaper {
    DisplayWallpaper {
        image: Some(DesktopImage { path: path.to_string(), is_directory: false }),
        index_rows: None,
    }
}

fn folder(path: &str, rows: Option<Vec<IndexRow>>) -> DisplayWallpaper {
    DisplayWallpaper {
        image: Some(DesktopImage { path: path.to_string(), is_directory: true }),
        index_rows: rows,
    }
}

fn abc() -> Vec<IndexRow> {
    vec![row(1, "a.jpg"), row(2, "b.jpg"), row(3, "c.jpg")]
}

#[test]
fn latest_row_has_greatest_rowid() {
    assert_eq!(latest_index_value(&abc()), Some("c.jpg".to_string()));
    let shuffled = vec![row(7, "x.png"), row(9, "y.png"), row(8, "z.png")];
    assert_eq!(latest_index_value(&shuffled), Some("y.png".to_string()));
    assert_eq!(latest_index_value(&Vec::new()), None);
}

#[test]
fn join_adds_one_separator() {
    assert_eq!(join_path("/pics/", "c.jpg"), "/pics/c.jpg");
    assert_eq!(join_path("/pics", "c.jpg"), "/pics/c.jpg");
    assert_eq!(join_path("", "c.jpg"), "/c.jpg");
}

#[test]
fn file_path_returned_unchanged() {
    let rows = DisplayWallpaper {
        image: Some(DesktopImage { path: "/a/b.heic".to_string(), is_directory: false }),
        index_rows: Some(abc()),
    };
    assert_eq!(current_for(&rows), Some("/a/b.heic".to_string()));
    assert_eq!(current_for(&file("/x.png")), Some("/x.png".to_string()));
}

#[test]
fn directory_uses_latest_index_entry() {
    assert_eq!(current_for(&folder("/pics/", Some(abc()))), Some("/pics/c.jpg".to_string()));
    assert_eq!(get_from_directory("/pics/", &Some(abc())), Some("/pics/c.jpg".to_string()));
}

#[test]
fn directory_without_index_is_absent() {
    assert_eq!(current_for(&folder("/pics/", None)), None);
    assert_eq!(current_for(&folder("/pics/", Some(Vec::new()))), None);
}

#[test]
fn no_picture_is_absent() {
    let none = DisplayWallpaper { image: None, index_rows: Some(abc()) };
    assert_eq!(current_for(&none), None);
}

#[test]
fn batch_keeps_alignment() {
    let ws = vec![file("/one.png"), folder("/pics/", None), folder("/pics/", Some(abc()))];
    assert_eq!(
        current_for_all(&ws),
        vec![Some("/one.png".to_string()), None, Some("/pics/c.jpg".to_string())]
    );
    assert_eq!(get_current(&ws), vec!["/one.png".to_string(), "/pics/c.jpg".to_string()]);
}
