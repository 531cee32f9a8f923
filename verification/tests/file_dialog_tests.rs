use bevy_rui::widgets::file_dialog::{
    confirm_file_name, created_dir_name, file_extension, file_icon, listing_order, show_selected_file, trim_text,
    FileEntry, FileIcon,
};
use bevy_rui::widgets::textbox::RuiTextBox;

fn entry(name: &str, is_dir: bool) -> FileEntry {
    FileEntry { name: name.to_string(), is_dir }
}

#[test]
fn directories_come_first_then_names() {
    let es = vec![entry("b.txt", false), entry("zeta", true), entry("a.rs", false), entry("alpha", true), entry("B.txt", false)];
    let order = listing_order(&es);
    let names: Vec<&str> = order.iter().map(|&i| es[i].name.as_str()).collect();
    assert_eq!(names, vec!["alpha", "zeta", "B.txt", "a.rs", "b.txt"]);
}

#[test]
fn equal_entries_keep_their_order() {
    let es = vec![entry("x", false), entry("x", false), entry("a", false)];
    assert_eq!(listing_order(&es), vec![2, 0, 1]);
    assert!(listing_order(&vec![]).is_empty());
}

#[test]
fn extensions_like_path() {
    assert_eq!(file_extension("photo.PNG"), Some("PNG".to_string()));
    assert_eq!(file_extension("archive.tar.gz"), Some("gz".to_string()));
    assert_eq!(file_extension(".bashrc"), None);
    assert_eq!(file_extension(".config.json"), Some("json".to_string()));
    assert_eq!(file_extension("README"), None);
    assert_eq!(file_extension("trailing."), Some("".to_string()));
    assert_eq!(file_extension(".."), None);
    assert_eq!(std::path::Path::new("archive.tar.gz").extension().unwrap(), "gz");
}

#[test]
fn icons_by_kind() {
    assert_eq!(file_icon("docs", true), FileIcon::Folder);
    assert_eq!(file_icon("cat.JPEG", false), FileIcon::Image);
    assert_eq!(file_icon("main.rs", false), FileIcon::Code);
    assert_eq!(file_icon("Cargo.toml", false), FileIcon::Code);
    assert_eq!(file_icon("song.Mp3", false), FileIcon::Audio);
    assert_eq!(file_icon("notes.txt", false), FileIcon::File);
    assert_eq!(file_icon("Makefile", false), FileIcon::File);
    assert_eq!(FileIcon::Audio.asset_path(), "icons/audio.png");
    assert_eq!(FileIcon::Folder.asset_path(), "icons/folder.png");
}

#[test]
fn selected_file_goes_to_text_field() {
    let mut tb = RuiTextBox::default();
    show_selected_file(&mut tb, &"año.txt".to_string());
    assert_eq!(tb.text, "año.txt");
    assert_eq!(tb.cursor_index, 7);
}

#[test]
fn confirm_prefers_text_field() {
    let typed = "typed.txt".to_string();
    let picked = "picked.txt".to_string();
    assert_eq!(confirm_file_name(Some(&typed), &picked), Some("typed.txt".to_string()));
    assert_eq!(confirm_file_name(None, &picked), Some("picked.txt".to_string()));
    assert_eq!(confirm_file_name(Some(&String::new()), &picked), None);
}

#[test]
fn new_folder_name_is_trimmed() {
    let name = "  new folder \t".to_string();
    assert_eq!(created_dir_name(Some(&name)), Some("new folder".to_string()));
    assert_eq!(created_dir_name(Some(&"   ".to_string())), None);
    assert_eq!(created_dir_name(None), None);
    assert_eq!(trim_text("\u{3000}x y\u{85}"), "x y");
    assert_eq!(trim_text("\u{3000}x y\u{85}"), "\u{3000}x y\u{85}".trim());
}
