use icon_enums::icons::{is_valid_icon, remove_extension, sanitize_filename, sanitize_stem};

fn check_mapping(cases: Vec<(&str, Option<&str>)>) {
    for (input, expected) in cases {
        let result = sanitize_filename(input);
        println!("{} -> {:?}", input, result);
        assert_eq!(result.as_deref(), expected);
    }
}

#[test]
fn lib_test_sanitize_basic_mapping() {
    check_mapping(vec![
        ("ch*eck_box.jpg", Some("CheckBox")),
        ("search-icon@2x.svg", Some("SearchIcon2x")),
        ("home page.png", Some("HomePage")),
        ("settings@dark-mode.svg", Some("SettingsDarkMode")),
        ("123-start.svg", Some("_123Start")),
        ("!weird__name!.svg", Some("WeirdName")),
        ("CAPSLOCK.PNG", Some("CAPSLOCK")),
        ("multi   space  name.jpg", Some("MultiSpaceName")),
        ("icon.v1.2.png", Some("IconV12")),
        ("a.png", Some("A")),
        ("2025.png", Some("_2025")),
        ("LICENSE", None),
        (".gitignore", None),
        ("caf\u{e9}-icon.svg", Some("CafeIcon")),
    ]);
}

#[test]
fn tests_test_sanitize_basic_mapping() {
    check_mapping(vec![
        ("ch*eck_box.jpg", Some("CheckBox")),
        ("search-icon@2x.svg", Some("SearchIcon2x")),
        ("home page.png", Some("HomePage")),
        ("settings@dark-mode.svg", Some("SettingsDarkMode")),
        ("123-start.svg", Some("_123Start")),
        ("!weird__name!.svg", Some("WeirdName")),
        ("CAPSLOCK.PNG", Some("CAPSLOCK")),
        ("multi   space  name.jpg", Some("MultiSpaceName")),
        ("icon.v1.2.png", Some("IconV12")),
        ("a.png", Some("A")),
        ("2025.png", Some("_2025")),
        ("LICENSE", None),
        (".gitignore", None),
        ("caf\u{e9}-icon.svg", Some("CafeIcon")),
    ]);
}

#[test]
fn lib_test_remove_extension() {
    assert_eq!(remove_extension("file.txt"), "file");
    assert_eq!(remove_extension("archive.tar.gz"), "archive.tar");
    assert_eq!(remove_extension("no_extension"), "no_extension");
}

#[test]
fn tests_test_remove_extension() {
    assert_eq!(remove_extension("file.txt"), "file");
    assert_eq!(remove_extension("archive.tar.gz"), "archive.tar");
    assert_eq!(remove_extension("no_extension"), "no_extension");
}

#[test]
fn remove_extension_keeps_only_the_stem_of_the_last_component() {
    assert_eq!(remove_extension("assets/icons/a.png"), "a");
    assert_eq!(remove_extension("assets/icons/"), "icons");
    assert_eq!(remove_extension("assets/pic.png/."), "pic");
    assert_eq!(remove_extension(".gitignore"), "");
    assert_eq!(remove_extension("dir/.hidden.png"), ".hidden");
    assert_eq!(remove_extension("..png"), ".");
    assert_eq!(remove_extension("a."), "a");
    assert_eq!(remove_extension(".."), "..");
    assert_eq!(remove_extension("/"), "/");
    assert_eq!(remove_extension(""), "");
}

#[test]
fn extension_check_ignores_case() {
    assert!(is_valid_icon("CAPSLOCK.PNG"));
    assert!(is_valid_icon("photo.JpEg"));
    assert!(is_valid_icon("dir/anim.WEBP"));
    assert_eq!(sanitize_filename("CAPSLOCK.PNG").as_deref(), Some("CAPSLOCK"));
    assert_eq!(sanitize_filename("CAPSLOCK.png").as_deref(), Some("CAPSLOCK"));
}

#[test]
fn non_icons_are_rejected() {
    assert!(!is_valid_icon("LICENSE"));
    assert!(!is_valid_icon(".gitignore"));
    assert!(!is_valid_icon(".png"));
    assert!(!is_valid_icon(".PNG"));
    assert!(!is_valid_icon("   .png"));
    assert!(!is_valid_icon("\u{3000}\t.svg"));
    assert!(!is_valid_icon("anim.gif"));
    assert!(!is_valid_icon("a.png.bak"));
    assert!(!is_valid_icon("a."));
    assert!(!is_valid_icon("pics/.."));
    assert!(!is_valid_icon(""));
    assert_eq!(sanitize_filename("   .png"), None);
    assert_eq!(sanitize_filename("anim.gif"), None);
}

#[test]
fn icon_paths_are_accepted() {
    assert!(is_valid_icon("a.png"));
    assert!(is_valid_icon("assets/icons/home page.svg"));
    assert!(is_valid_icon("pic.png/"));
    assert!(is_valid_icon("..png"));
    assert!(is_valid_icon(" x .jpg"));
}

#[test]
fn leading_digit_gets_an_underscore() {
    assert_eq!(sanitize_filename("9lives.png").as_deref(), Some("_9lives"));
    assert_eq!(sanitize_filename("-7-up.svg").as_deref(), Some("_7Up"));
    assert_eq!(sanitize_filename("x9.svg").as_deref(), Some("X9"));
}

#[test]
fn stem_of_dropped_characters_gives_an_empty_name() {
    assert_eq!(sanitize_filename("***.png").as_deref(), Some(""));
    assert_eq!(sanitize_filename("_-@.png").as_deref(), Some(""));
}

#[test]
fn accented_letters_keep_their_case() {
    assert_eq!(sanitize_filename("\u{e9}clair.png").as_deref(), Some("eClair"));
    assert_eq!(sanitize_filename("\u{c9}cran.png").as_deref(), Some("ECran"));
    assert_eq!(sanitize_filename("na\u{ef}ve-d\u{e9}j\u{e0}.svg").as_deref(), Some("NaiveDeja"));
    assert_eq!(sanitize_filename("caf\u{e9}-icon.svg").as_deref(), Some("CafeIcon"));
    assert_eq!(sanitize_filename("cafe\u{301}-icon.svg").as_deref(), Some("Cafe\u{301}Icon"));
}

#[test]
fn same_stem_gives_same_name() {
    let a = sanitize_filename("one/home page.png");
    let b = sanitize_filename("two/home page.SVG");
    assert_eq!(a, b);
    assert_eq!(a.as_deref(), Some("HomePage"));
    assert_eq!(sanitize_filename("home page.png"), sanitize_filename("home page.png"));
}

#[test]
fn sanitize_stem_uses_the_given_decompositions() {
    let ds = vec![vec!['x'], vec!['-'], vec!['2']];
    assert_eq!(sanitize_stem("x-2", &ds), "X2");
    let ds = vec![vec!['7'], vec!['o', '\u{308}'], vec!['k']];
    assert_eq!(sanitize_stem("7\u{f6}k", &ds), "_7ok");
    let ds = vec![vec!['\u{f6}']];
    assert_eq!(sanitize_stem("\u{f6}", &ds), "");
}
