use xraise::matcher::{
    find_all_names, find_first, properties_for, resolve_class, resolve_name, window_by_class,
    window_by_name, LookupError, PropertyNeeds, WindowProperties,
};
use xraise::query::{parse, AttributeKind, Condition};
use xraise::text::{class_component, decode_legacy, decode_utf8_text};

fn window(id: u32, class: Option<&str>, net_name: Option<&[u8]>, name: Option<&str>) -> WindowProperties {
    WindowProperties {
        window: id,
        wm_class: class.map(|c| format!("inst\0{}\0", c).into_bytes()),
        net_wm_name: net_name.map(|b| b.to_vec()),
        wm_name: name.map(|n| n.as_bytes().to_vec()),
    }
}

#[test]
fn decode_utf8_then_latin1() {
    assert_eq!(decode_legacy(&[0xC3, 0xA9]), "é");
    assert_eq!(decode_legacy(&[0xE9, 0x41]), "éA");
    assert_eq!(decode_legacy(b""), "");
    assert_eq!(decode_utf8_text(&[0xE9]), None);
    assert_eq!(decode_utf8_text("ü".as_bytes()), Some("ü".to_string()));
}

#[test]
fn class_is_second_component() {
    assert_eq!(class_component(b"caprine\0Caprine\0"), Some(b"Caprine".to_vec()));
    assert_eq!(class_component(b"a\0B"), Some(b"B".to_vec()));
    assert_eq!(class_component(b"only"), None);
    assert_eq!(class_component(b""), None);
}

#[test]
fn resolve_attributes() {
    let w = window(1, Some("Caprine"), Some("Chat".as_bytes()), Some("old"));
    assert_eq!(resolve_class(&w), Some("Caprine".to_string()));
    assert_eq!(resolve_name(&w), Some("Chat".to_string()));
    let empty = window(2, Some(""), Some(b""), Some(""));
    assert_eq!(resolve_class(&empty), None);
    assert_eq!(resolve_name(&empty), None);
}

#[test]
fn find_first_in_no_windows() {
    let cond = parse("class = \"Caprine\"").unwrap();
    assert_eq!(find_first(&Vec::new(), &cond), None);
    let cond = parse("name = \"\"").unwrap();
    assert_eq!(find_first(&Vec::new(), &cond), None);
}

#[test]
fn find_first_single_caprine() {
    let windows = vec![
        window(10, Some("Firefox"), Some("Caprine".as_bytes()), None),
        window(11, None, None, None),
        window(12, Some("Caprine"), None, None),
        window(13, Some("caprine"), None, Some("Caprine")),
    ];
    let cond = parse("class = \"Caprine\"").unwrap();
    assert_eq!(find_first(&windows, &cond), Some(12));
    assert_eq!(window_by_class(&windows, "Caprine"), Ok(12));
}

#[test]
fn find_first_takes_earliest() {
    let windows = vec![
        window(5, Some("Term"), None, None),
        window(3, Some("Term"), None, None),
    ];
    let cond = Condition { attribute: AttributeKind::ClassName, value: "Term".to_string() };
    assert_eq!(find_first(&windows, &cond), Some(5));
}

#[test]
fn name_falls_back_to_wm_name() {
    let w = window(7, None, Some(&[0xFF, 0xFE, 0x41]), Some("termite"));
    let cond = parse("name = \"termite\"").unwrap();
    assert!(xraise::matcher::matches(&w, &cond));
    assert_eq!(window_by_name(&vec![w], "termite"), Ok(7));
    let empty_modern = window(8, None, Some(b""), Some("termite"));
    assert_eq!(resolve_name(&empty_modern), Some("termite".to_string()));
}

#[test]
fn all_names_skip_unnamed() {
    let windows = vec![
        window(1, None, Some("b".as_bytes()), None),
        window(2, None, None, None),
        window(3, None, None, Some("a")),
        window(4, None, Some(&[0xFF]), None),
        window(5, None, None, Some("a")),
    ];
    assert_eq!(find_all_names(&windows), vec!["b".to_string(), "a".to_string(), "a".to_string()]);
    assert_eq!(find_all_names(&Vec::new()), Vec::<String>::new());
}

#[test]
fn lookup_errors() {
    let windows = vec![window(1, Some("Term"), None, Some("termite"))];
    assert_eq!(window_by_class(&windows, "Caprine"), Err(LookupError::NoMatchingWindow));
    assert_eq!(window_by_class(&windows, "a\"b"), Err(LookupError::InvalidCondition));
    assert_eq!(window_by_name(&windows, "termite"), Ok(1));
}

#[test]
fn get_all_windows_test() {
    let windows = vec![
        window(1, Some("Caprine"), Some("Caprine".as_bytes()), None),
        window(2, Some("Termite"), None, Some("termite")),
        window(3, None, None, None),
        window(4, Some("Firefox"), Some("Mozilla Firefox".as_bytes()), Some("firefox")),
    ];
    let names = find_all_names(&windows);
    assert_eq!(names.len(), 3);
}

#[test]
fn raise_window_by_class_test() {
    let windows = vec![
        window(1, Some("Termite"), None, Some("termite")),
        window(2, Some("Caprine"), Some("Caprine".as_bytes()), None),
    ];
    assert!(window_by_class(&windows, "Caprine").is_ok());
}

#[test]
fn raise_window_by_name_test() {
    let windows = vec![
        window(1, Some("Caprine"), Some("Caprine".as_bytes()), None),
        window(2, Some("Termite"), None, Some("termite")),
    ];
    assert!(window_by_name(&windows, "termite").is_ok());
}

#[test]
fn properties_needed_per_attribute() {
    assert_eq!(
        properties_for(AttributeKind::ClassName),
        PropertyNeeds { wm_class: true, net_wm_name: false, wm_name: false }
    );
    assert_eq!(
        properties_for(AttributeKind::WindowName),
        PropertyNeeds { wm_class: false, net_wm_name: true, wm_name: true }
    );
    let class_only = window(9, Some("Caprine"), None, None);
    assert_eq!(window_by_class(&vec![class_only], "Caprine"), Ok(9));
}
