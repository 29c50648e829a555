use glade_bindgen::codegen::escape;
use glade_bindgen::codegen::generate_bind;
use glade_bindgen::codegen::generate_mod_source;
use glade_bindgen::codegen::str_lit;
use glade_bindgen::events::extract_objects;
use glade_bindgen::events::find_attr;
use glade_bindgen::events::has_fault;
use glade_bindgen::events::markup_has_fault;
use glade_bindgen::events::UiEvent;
use glade_bindgen::names::bind_struct_name;
use glade_bindgen::names::class_ident;
use glade_bindgen::names::remove_ui_extension;
use glade_bindgen::names::str_eq;

#[test]
fn test_remove_ui_extension() {
    assert_eq!("foo", remove_ui_extension("foo.ui").unwrap());
    assert_eq!("bar", remove_ui_extension("bar.glade").unwrap());
    assert_eq!(None, remove_ui_extension("foo.rs"));
}

#[test]
fn remove_ui_extension_edges() {
    // only a final extension counts
    assert_eq!(None, remove_ui_extension("a.ui.bak"));
    assert_eq!(None, remove_ui_extension("x.glade.y"));
    assert_eq!(None, remove_ui_extension("a.gladeb"));
    assert_eq!(None, remove_ui_extension("foo.uixx"));
    // the bare name may itself look like an extension
    assert_eq!(".ui", remove_ui_extension(".ui.glade").unwrap());
    assert_eq!("", remove_ui_extension(".ui").unwrap());
    assert_eq!(None, remove_ui_extension(""));
    assert_eq!(None, remove_ui_extension("glade.ux"));
}

#[test]
fn strip_inverts_append() {
    let bare = "main_window";
    assert_eq!(bare, remove_ui_extension(&format!("{}.ui", bare)).unwrap());
    assert_eq!(bare, remove_ui_extension(&format!("{}.glade", bare)).unwrap());
    // even a bare name holding a line break round-trips
    assert_eq!("a\nb", remove_ui_extension("a\nb.glade").unwrap());
}

#[test]
fn class_ident_strips_markers() {
    assert_eq!("Button", class_ident("GtkButton"));
    assert_eq!("TreeView", class_ident("GtkTreeView"));
    assert_eq!("Box", class_ident("Box"));
    assert_eq!("", class_ident("Gtk"));
    // removal is a single left-to-right pass, never rescanning
    assert_eq!("GtkButton", class_ident("GtGtkkButton"));
}

#[test]
fn bind_struct_name_is_pascal_cased() {
    assert_eq!("MainWindow", bind_struct_name("main_window.ui").unwrap());
    assert_eq!("Settings", bind_struct_name("settings.glade").unwrap());
    assert_eq!(None, bind_struct_name("build.rs"));
}

#[test]
fn str_eq_compares_characters() {
    assert!(str_eq("object", "object"));
    assert!(!str_eq("object", "objec"));
    assert!(!str_eq("object", "Object"));
    assert!(str_eq("", ""));
}

#[test]
fn escape_quotes_and_backslashes() {
    assert_eq!("a\\\"b\\\\c", escape("a\"b\\c"));
    assert_eq!("plain", escape("plain"));
    assert_eq!("\"a b\"", str_lit("a b"));
    assert_eq!("\"a\\\"b\"", str_lit("a\"b"));
}

#[test]
fn find_attr_takes_the_first_match() {
    let attrs = vec![
        ("class".to_string(), "GtkBox".to_string()),
        ("id".to_string(), "x".to_string()),
        ("id".to_string(), "y".to_string()),
    ];
    assert_eq!(Some("x".to_string()), find_attr(&attrs, "id"));
    assert_eq!(Some("GtkBox".to_string()), find_attr(&attrs, "class"));
    assert_eq!(None, find_attr(&attrs, "name"));
}

#[test]
fn extract_objects_needs_id_and_class() {
    let events = vec![
        UiEvent::Other,
        UiEvent::Start {
            name: "object".to_string(),
            attributes: vec![
                ("id".to_string(), "window".to_string()),
                ("class".to_string(), "GtkWindow".to_string()),
            ],
        },
        UiEvent::Start {
            name: "object".to_string(),
            attributes: vec![("class".to_string(), "GtkLabel".to_string())],
        },
        UiEvent::Start {
            name: "child".to_string(),
            attributes: vec![
                ("id".to_string(), "x".to_string()),
                ("class".to_string(), "GtkBox".to_string()),
            ],
        },
        UiEvent::Other,
    ];
    assert_eq!(
        vec![("window".to_string(), "GtkWindow".to_string())],
        extract_objects(&events)
    );
}

#[test]
fn extract_objects_stops_at_a_fault() {
    let events = vec![
        UiEvent::Start {
            name: "object".to_string(),
            attributes: vec![
                ("id".to_string(), "a".to_string()),
                ("class".to_string(), "GtkBox".to_string()),
            ],
        },
        UiEvent::Fault,
        UiEvent::Start {
            name: "object".to_string(),
            attributes: vec![
                ("id".to_string(), "b".to_string()),
                ("class".to_string(), "GtkBox".to_string()),
            ],
        },
    ];
    assert_eq!(
        vec![("a".to_string(), "GtkBox".to_string())],
        extract_objects(&events)
    );
}

#[test]
fn generate_bind_binds_each_named_widget() {
    let markup = "<interface><object class=\"GtkWindow\" id=\"window\"><child><object class=\"GtkButton\" id=\"button1\"/></child></object><object class=\"GtkLabel\"/></interface>";
    let out = generate_bind("Main", markup.as_bytes(), "main.ui", false);
    let expected = "#[allow(dead_code)]\npub struct Main {\n    pub window: gtk::Window,\n    pub button1: gtk::Button,\n}\n\nimpl Main {\n    pub fn new() -> Self {\n        let builder = gtk::Builder::from_string(include_str!(\"main.ui\"));\n        Self {\n            window: gtk::prelude::BuilderExtManual::object(&builder, \"window\").unwrap(),\n            button1: gtk::prelude::BuilderExtManual::object(&builder, \"button1\").unwrap(),\n        }\n    }\n}\n";
    assert_eq!(expected, out);
}

#[test]
fn generate_bind_with_static_value() {
    let out = generate_bind("App", "<interface/>".as_bytes(), "app.ui", true);
    let expected = "#[allow(dead_code)]\npub struct App {\n}\n\nimpl App {\n    thread_local! {\n        static OBJECTS: std::sync::Mutex<Option<std::rc::Rc<App>>> = std::sync::Mutex::new(None);\n    }\n\n    pub fn get() -> std::rc::Rc<Self> {\n        Self::OBJECTS.with(|objects| {\n            let mut objects = objects.lock().unwrap();\n            if objects.is_none() {\n                objects.replace(std::rc::Rc::new(Self::new()));\n            }\n            objects.as_ref().unwrap().clone()\n        })\n    }\n\n    pub fn new() -> Self {\n        let builder = gtk::Builder::from_string(include_str!(\"app.ui\"));\n        Self {\n        }\n    }\n}\n";
    assert_eq!(expected, out);
}

#[test]
fn generate_bind_keeps_widgets_before_a_parse_error() {
    // the markup breaks off after the first complete widget
    let markup = "<interface><object id=\"a\" class=\"GtkBox\"></object><object";
    let out = generate_bind("Partial", markup.as_bytes(), "partial.ui", false);
    let expected = "#[allow(dead_code)]\npub struct Partial {\n    pub a: gtk::Box,\n}\n\nimpl Partial {\n    pub fn new() -> Self {\n        let builder = gtk::Builder::from_string(include_str!(\"partial.ui\"));\n        Self {\n            a: gtk::prelude::BuilderExtManual::object(&builder, \"a\").unwrap(),\n        }\n    }\n}\n";
    assert_eq!(expected, out);
}

#[test]
fn fault_detection() {
    assert!(markup_has_fault("<interface><object".as_bytes()));
    assert!(!markup_has_fault("<interface/>".as_bytes()));
    assert!(has_fault(&vec![UiEvent::Other, UiEvent::Fault]));
    assert!(!has_fault(&vec![
        UiEvent::Other,
        UiEvent::Start {
            name: "object".to_string(),
            attributes: vec![],
        },
    ]));
}

#[test]
fn generate_mod_source_gathers_modules_and_binds() {
    let modules = vec!["sub".to_string(), "other".to_string()];
    let binds = vec!["BIND_A".to_string(), "BIND_B".to_string()];
    assert_eq!(
        Some("// head\npub mod sub;\npub mod other;\nBIND_ABIND_B".to_string()),
        generate_mod_source(&modules, &binds, "// head\n")
    );
    assert_eq!(
        Some("// head\nBIND_A".to_string()),
        generate_mod_source(&Vec::new(), &vec!["BIND_A".to_string()], "// head\n")
    );
    assert_eq!(None, generate_mod_source(&Vec::new(), &Vec::new(), "// head\n"));
}
