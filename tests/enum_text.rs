use icon_enums::catalog::Icon;
use icon_enums::enum_text::{assemble_enum_text, create_enum_text, normalize_path};

fn strings(v: &[&str]) -> Vec<String> {
    v.iter().map(|s| s.to_string()).collect()
}

#[test]
fn enum_text_for_mixed_paths() {
    let paths = strings(&["assets/a.png", "LICENSE", "icons\\b.svg"]);
    let text = create_enum_text(&paths).unwrap();
    assert_eq!(
        text,
        "pub enum Icon {A,Iconsb,}impl Icon { pub fn path(&self) -> &'static str { match self {Icon::A => \"assets/a.png\", Icon::Iconsb => \"icons/b.svg\"}}}"
    );
}

#[test]
fn enum_text_for_no_paths() {
    let text = create_enum_text(&Vec::new()).unwrap();
    assert_eq!(
        text,
        "pub enum Icon {}impl Icon { pub fn path(&self) -> &'static str { match self {}}}"
    );
}

#[test]
fn rejected_paths_leave_no_trace() {
    let with = strings(&["a.png", "notes.txt", ".gitignore", "b.svg"]);
    let without = strings(&["a.png", "b.svg"]);
    assert_eq!(create_enum_text(&with).unwrap(), create_enum_text(&without).unwrap());
}

#[test]
fn duplicate_names_are_kept_in_order() {
    let paths = strings(&["z/home.png", "a/home.svg"]);
    let text = create_enum_text(&paths).unwrap();
    assert_eq!(
        text,
        "pub enum Icon {Home,Home,}impl Icon { pub fn path(&self) -> &'static str { match self {Icon::Home => \"z/home.png\", Icon::Home => \"a/home.svg\"}}}"
    );
}

#[test]
fn backslashes_become_forward_slashes() {
    assert_eq!(normalize_path("assets\\icons\\a.png"), "assets/icons/a.png");
    assert_eq!(normalize_path("a/b"), "a/b");
    assert_eq!(normalize_path(""), "");
    let paths = strings(&["C:\\icons\\x.png"]);
    let text = create_enum_text(&paths).unwrap();
    assert!(text.contains("\"C:/icons/x.png\""));
    assert!(!text.contains('\\'));
}

#[test]
fn assemble_uses_the_given_names() {
    let paths = strings(&["p.png", "q.png", "r.png"]);
    let names = vec![Some("First".to_string()), None, Some("Third".to_string())];
    assert_eq!(
        assemble_enum_text(&paths, &names),
        "pub enum Icon {First,Third,}impl Icon { pub fn path(&self) -> &'static str { match self {Icon::First => \"p.png\", Icon::Third => \"r.png\"}}}"
    );
}

#[test]
fn sample_icon_paths() {
    assert_eq!(Icon::CircleHeatSvgrepoCom.path(), "assets/icons/circle-heat-svgrepo-com.svg");
    assert_eq!(Icon::LinkSvgrepoCom1.path(), "assets/icons/link-svgrepo-com(1).svg");
    assert_eq!(Icon::LinkSvgrepoCom.path(), "assets/icons/link-svgrepo-com.svg");
}
