use gif2asm::label::{check_filename, find_last, label_of, name_of, NameError};

#[test]
fn label_is_the_file_stem() {
    assert_eq!(label_of("sprite.gif"), "sprite");
    assert_eq!(label_of("art/tiles/sprite.gif"), "sprite");
    assert_eq!(label_of("/abs/dir.d/sprite.img"), "sprite");
}

#[test]
fn label_drops_only_the_final_extension() {
    assert_eq!(label_of("a.b.gif"), "a.b");
    assert_eq!(label_of("plain"), "plain");
    assert_eq!(label_of(".hidden"), ".hidden");
    assert_eq!(label_of("dir/.hidden.gif"), ".hidden");
    assert_eq!(label_of(""), "");
}

#[test]
fn label_is_not_sanitised() {
    assert_eq!(label_of("my pic-1.gif"), "my pic-1");
    assert_eq!(label_of("b\u{e9}b\u{e9}.gif"), "b\u{e9}b\u{e9}");
}

#[test]
fn file_name_follows_the_last_slash() {
    assert_eq!(name_of("a/b/c.gif"), "c.gif");
    assert_eq!(name_of("c.gif"), "c.gif");
    assert_eq!(name_of("a/"), "");
}

#[test]
fn last_occurrence_is_found() {
    assert_eq!(find_last("a.b.c", '.'), Some(3));
    assert_eq!(find_last("abc", '.'), None);
    assert_eq!(find_last("\u{e9}.x", '.'), Some(1));
}

#[test]
fn gif_extension_in_any_case_is_accepted() {
    assert_eq!(check_filename("pic.gif"), Ok(()));
    assert_eq!(check_filename("pic.GIF"), Ok(()));
    assert_eq!(check_filename("dir.x/pic.GiF"), Ok(()));
    assert_eq!(check_filename("a.png.gif"), Ok(()));
}

#[test]
fn other_extension_is_refused() {
    assert_eq!(check_filename("pic.png"), Err(NameError::NotGif));
    assert_eq!(check_filename("pic.gif.bak"), Err(NameError::NotGif));
    assert_eq!(check_filename("pic.giff"), Err(NameError::NotGif));
    assert_eq!(check_filename("pic."), Err(NameError::NotGif));
}

#[test]
fn missing_extension_is_refused() {
    assert_eq!(check_filename("pic"), Err(NameError::NoExtension));
    assert_eq!(check_filename(".gif"), Err(NameError::NoExtension));
    assert_eq!(check_filename("dir.gif/pic"), Err(NameError::NoExtension));
}
