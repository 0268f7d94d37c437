use kasetophono::assets::asset_path;

#[test]
fn the_root_is_the_index_page() {
    assert_eq!(asset_path("/"), Some("index.html".to_string()));
}

#[test]
fn a_path_names_the_file_behind_its_slash() {
    assert_eq!(asset_path("/app.js"), Some("app.js".to_string()));
    assert_eq!(asset_path("/css/style.css"), Some("css/style.css".to_string()));
    assert_eq!(asset_path("//"), Some("/".to_string()));
}

#[test]
fn paths_that_name_no_file() {
    assert_eq!(asset_path(""), None);
    assert_eq!(asset_path("*"), None);
    assert_eq!(asset_path("app.js"), None);
    assert_eq!(asset_path("/../secret"), None);
    assert_eq!(asset_path("/css/../../secret"), None);
    assert_eq!(asset_path("/a..b"), None);
}
