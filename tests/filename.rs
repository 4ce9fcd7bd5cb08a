use upload_server::filename::{derive_filename, new_filename};

const TOKEN: &str = "0123456789abcdef0123456789abcdef";

#[test]
fn client_extension_is_lowercased() {
    assert_eq!(derive_filename(Some("report.PDF"), TOKEN), "report.pdf");
}

#[test]
fn png_extension_is_kept() {
    assert_eq!(derive_filename(Some("photo.png"), TOKEN), "photo.png");
    assert_eq!(derive_filename(Some("Photo.PnG"), TOKEN), "Photo.png");
}

#[test]
fn traversal_is_stripped_to_final_component() {
    assert_eq!(derive_filename(Some("../../etc/passwd"), TOKEN), "passwd.pdf");
    assert_eq!(derive_filename(Some("/abs/dir/img.JPG"), TOKEN), "img.jpg");
}

#[test]
fn missing_filename_uses_token_and_pdf() {
    assert_eq!(derive_filename(None, TOKEN), format!("{}.pdf", TOKEN));
}

#[test]
fn unusable_filenames_fall_back_to_token() {
    let expected = format!("{}.pdf", TOKEN);
    assert_eq!(derive_filename(Some(""), TOKEN), expected);
    assert_eq!(derive_filename(Some("/"), TOKEN), expected);
    assert_eq!(derive_filename(Some("./"), TOKEN), expected);
    assert_eq!(derive_filename(Some("a/.."), TOKEN), expected);
    assert_eq!(derive_filename(Some(".."), TOKEN), expected);
    assert_eq!(derive_filename(Some("../.."), TOKEN), expected);
    assert_eq!(derive_filename(Some("."), TOKEN), expected);
}

#[test]
fn trailing_separators_do_not_hide_the_name() {
    assert_eq!(derive_filename(Some("a.png/"), TOKEN), "a.png");
    assert_eq!(derive_filename(Some("x/photo.PNG//"), TOKEN), "photo.png");
    assert_eq!(derive_filename(Some("x/photo.png/."), TOKEN), "photo.png");
    assert_eq!(derive_filename(Some("dir/"), TOKEN), "dir.pdf");
    assert_eq!(new_filename(Some("a.png/")), "a.png");
}

#[test]
fn names_without_extension_get_pdf() {
    assert_eq!(derive_filename(Some("notes"), TOKEN), "notes.pdf");
    assert_eq!(derive_filename(Some("notes."), TOKEN), "notes.pdf");
    assert_eq!(derive_filename(Some(".bashrc"), TOKEN), ".bashrc.pdf");
}

#[test]
fn only_last_extension_counts() {
    assert_eq!(derive_filename(Some("archive.tar.GZ"), TOKEN), "archive.tar.gz");
}

#[test]
fn generated_name_is_token_with_pdf() {
    let name = new_filename(None);
    assert_eq!(name.len(), 36);
    assert!(name.ends_with(".pdf"));
    assert!(name[..32].chars().all(|c| c.is_ascii_digit() || ('a'..='f').contains(&c)));
}

#[test]
fn generated_names_differ() {
    assert_ne!(new_filename(None), new_filename(None));
}

#[test]
fn colliding_client_names_derive_the_same_name() {
    assert_eq!(new_filename(Some("a/same.txt")), "same.txt");
    assert_eq!(new_filename(Some("b/same.txt")), "same.txt");
}

#[test]
fn stored_names_never_hold_a_separator() {
    for client in ["../../etc/passwd", "a/b/c/", "..", "x/../y.PNG", "/"] {
        let name = derive_filename(Some(client), TOKEN);
        assert!(!name.contains('/'));
        assert!(name != "." && name != ".." && !name.is_empty());
    }
}
