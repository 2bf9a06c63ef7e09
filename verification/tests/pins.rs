use hot_latex::logger::{is_tex_extension, Logger, PathBuffer};
use hot_latex::pin::Pin;
use hot_latex::ui::Key;

fn pin(name: &str, active: bool) -> Pin {
    Pin::from_parts("-shell-escape".to_string(), vec![PathBuffer::new("a.tex".to_string())], name.to_string(), active)
}

#[test]
fn new_pin_is_active_and_unnamed() {
    let p = Pin::new(vec![PathBuffer::new("doc.tex".to_string())]);
    assert!(p.active());
    assert_eq!(p.name(), "");
    assert_eq!(p.args(), "");
    assert_eq!(p.paths().len(), 1);
}

#[test]
fn default_pin_is_inactive() {
    let p = Pin::default();
    assert!(!p.active());
    assert_eq!(p.name(), "");
    assert!(p.paths().is_empty());
}

#[test]
fn setters_set() {
    let mut p = Pin::new(Vec::new());
    p.set_args("-pdf".to_string());
    assert!(!p.offer_name(String::new()));
    assert_eq!(p.name(), "");
    assert!(p.offer_name("thesis".to_string()));
    assert_eq!(p.args(), "-pdf");
    assert_eq!(p.name(), "thesis");
    assert!(p.active());
}

#[test]
fn tex_sources_by_extension() {
    assert!(PathBuffer::new("./notes/paper.tex".to_string()).is_tex_source());
    assert!(PathBuffer::new("b.latex".to_string()).is_tex_source());
    assert!(!PathBuffer::new("paper.txt".to_string()).is_tex_source());
    assert!(!PathBuffer::new("paper.TEX".to_string()).is_tex_source());
    assert!(!PathBuffer::new("tex".to_string()).is_tex_source());
    assert!(!PathBuffer::new(".tex".to_string()).is_tex_source());
    assert!(!PathBuffer::new("dir.tex/..".to_string()).is_tex_source());
}

#[test]
fn tex_extension_check() {
    assert!(is_tex_extension(&Some("tex".to_string())));
    assert!(is_tex_extension(&Some("latex".to_string())));
    assert!(!is_tex_extension(&Some("bib".to_string())));
    assert!(!is_tex_extension(&None));
}

#[test]
fn path_box_marks_tex_files() {
    let paths = vec![
        PathBuffer::new("./a.tex".to_string()),
        PathBuffer::new("./b.png".to_string()),
        PathBuffer::new("./c.latex".to_string()),
    ];
    let mut b = Pin::path_box(paths);
    assert!(b.is_marked(0));
    assert!(!b.is_marked(1));
    assert!(b.is_marked(2));
    assert!(b.on_key(Key::Enter));
    let kept: Vec<String> = b.finish(false).iter().map(|p| p.to_display_string()).collect();
    assert_eq!(kept, vec!["./a.tex".to_string(), "./c.latex".to_string()]);
}

#[test]
fn describe_lists_name_paths_and_args() {
    let p = Pin::from_parts(
        "-pdf".to_string(),
        vec![PathBuffer::new("a.tex".to_string()), PathBuffer::new("b.tex".to_string())],
        "book".to_string(),
        true,
    );
    let text = p.describe();
    let tail = "──\n\t│ a.tex\n\t│ b.tex\n\t┖──\n\tgroup gets applied as latex -pdf [filename]";
    let plain = format!("\n\t┍─book{}", tail);
    let styled = format!("\n\t┍─\x1B[1;34mbook\x1B[0m{}", tail);
    assert!(text == plain || text == styled);
}

#[test]
fn listing_joins_descriptions() {
    let mut l = Logger::new();
    l.add_pin(pin("a", true));
    l.add_pin(pin("b", true));
    let listing = l.pins_listing();
    assert!(listing.starts_with("List of pins: \n\n"));
    let a = l.pins[0].describe();
    let b = l.pins[1].describe();
    assert_eq!(listing, format!("List of pins: \n\n{}{}", a, b));
}

#[test]
fn duplicate_rows_finds_same_names_in_order() {
    let mut l = Logger::new();
    l.add_pin(pin("x", true));
    l.add_pin(pin("y", true));
    l.add_pin(pin("x", false));
    assert_eq!(l.duplicate_rows(&"x".to_string()), vec![0, 2]);
    assert_eq!(l.duplicate_rows(&"y".to_string()), vec![1]);
    assert!(l.duplicate_rows(&"z".to_string()).is_empty());
}

#[test]
fn replacing_keeps_names_unique() {
    let mut l = Logger::new();
    l.add_pin(pin("x", true));
    l.add_pin(pin("y", true));
    let rows = l.duplicate_rows(&"x".to_string());
    assert_eq!(rows, vec![0]);
    let gone = l.remove_pin(rows[0]);
    assert_eq!(gone.name(), "x");
    l.add_pin(pin("x", false));
    let names: Vec<String> = l.pins.iter().map(|p| p.name()).collect();
    assert_eq!(names, vec!["y".to_string(), "x".to_string()]);
    assert!(!l.pins[1].active());
}

#[test]
fn clear_only_when_confirmed() {
    let mut l = Logger::new();
    l.add_pin(pin("x", true));
    l.clear_if_confirmed(false);
    assert_eq!(l.pins.len(), 1);
    l.clear_if_confirmed(true);
    assert!(l.pins.is_empty());
}

#[test]
fn toggle_on_empty_logger_is_none() {
    let mut l = Logger::new();
    assert!(l.open_toggle().is_none());
    assert!(l.pins.is_empty());
}

#[test]
fn toggle_keeps_marked_groups() {
    let mut l = Logger::new();
    l.add_pin(pin("a", true));
    l.add_pin(pin("b", false));
    l.add_pin(pin("c", true));
    let mut b = l.open_toggle().unwrap();
    assert!(l.pins.is_empty());
    assert!(b.is_marked(0));
    assert!(!b.is_marked(1));
    b.on_key(Key::Char('s'));
    assert!(b.on_key(Key::Enter));
    l.close_toggle(b);
    let names: Vec<String> = l.pins.iter().map(|p| p.name()).collect();
    assert_eq!(names, vec!["c".to_string()]);
}

#[test]
fn path_display_is_the_path() {
    assert_eq!(PathBuffer::new("x/y.tex".to_string()).to_display_string(), "x/y.tex");
}
