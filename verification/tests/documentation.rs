use variant_bridge::api::{Api, GodotClass};
use variant_bridge::documentation::{
    base_class_docs, class_doc_link, doc_url_of, generate_class_documentation,
    list_base_classes, memory_management_docs, official_doc_url, summary_doc,
};

fn class(name: &str, base_class: &str) -> GodotClass {
    GodotClass {
        name: name.to_string(),
        base_class: base_class.to_string(),
        api_type: "core".to_string(),
        singleton: false,
        is_reference: false,
        instantiable: true,
    }
}

fn api() -> Api {
    Api {
        classes: vec![
            class("Object", ""),
            class("Node", "Object"),
            class("CanvasItem", "Node"),
            class("Node2D", "CanvasItem"),
            GodotClass { is_reference: true, ..class("Reference", "Object") },
            GodotClass { is_reference: true, ..class("Resource", "Reference") },
        ],
    }
}

#[test]
fn a_link_names_the_class_twice() {
    assert_eq!(class_doc_link(&class("Node2D", "CanvasItem")), "[Node2D](struct.Node2D.html)");
    assert_eq!(class_doc_link(&class("", "")), "[](struct..html)");
}

#[test]
fn the_official_address_has_the_name_in_lower_case() {
    assert_eq!(
        official_doc_url(&class("Node2D", "CanvasItem")),
        "https://godot.readthedocs.io/en/latest/classes/class_node2d.html"
    );
    assert_eq!(
        official_doc_url(&class("ARVRServer", "Object")),
        "https://godot.readthedocs.io/en/latest/classes/class_arvrserver.html"
    );
    assert_eq!(
        doc_url_of("MixedCase"),
        "https://godot.readthedocs.io/en/latest/classes/class_MixedCase.html"
    );
}

#[test]
fn a_class_is_reference_counted_by_its_mark_or_its_name() {
    assert!(!class("Node", "Object").is_refcounted());
    assert!(GodotClass { is_reference: true, ..class("Resource", "Reference") }.is_refcounted());
    assert!(class("Reference", "Object").is_refcounted());
}

#[test]
fn the_first_class_of_a_name_is_found() {
    let mut api = api();
    api.classes.push(GodotClass { singleton: true, ..class("Node", "Elsewhere") });
    assert_eq!(api.find_class("Node"), Some(&class("Node", "Object")));
    assert_eq!(api.find_class("node"), None);
    assert_eq!(api.find_class(""), None);
}

#[test]
fn base_classes_are_listed_nearest_first() {
    let mut output = String::from("before\n");
    list_base_classes(&mut output, &api(), "CanvasItem");
    assert_eq!(
        output,
        "before\n - [CanvasItem](struct.CanvasItem.html)\n - [Node](struct.Node.html)\n - [Object](struct.Object.html)\n"
    );
}

#[test]
fn an_unknown_class_has_no_list() {
    let mut output = String::new();
    list_base_classes(&mut output, &api(), "Missing");
    assert_eq!(output, "");
}

#[test]
fn a_list_stops_at_a_base_class_that_the_api_lacks() {
    let api = Api { classes: vec![class("Child", "Parent"), class("Parent", "Lost")] };
    let mut output = String::new();
    list_base_classes(&mut output, &api, "Child");
    assert_eq!(output, " - [Child](struct.Child.html)\n - [Parent](struct.Parent.html)\n");
}

#[test]
fn a_cycle_of_base_classes_ends() {
    let api = Api { classes: vec![class("A", "B"), class("B", "A")] };
    let mut output = String::new();
    list_base_classes(&mut output, &api, "A");
    assert_eq!(
        output,
        " - [A](struct.A.html)\n - [B](struct.B.html)\n - [A](struct.A.html)\n"
    );
}

#[test]
fn the_summary_names_api_type_name_base_class_and_ownership() {
    assert_eq!(
        summary_doc(&class("Node2D", "CanvasItem")),
        "`core class Node2D` inherits `CanvasItem` (unsafe)."
    );
    assert_eq!(
        summary_doc(&GodotClass {
            singleton: true,
            api_type: "tools".to_string(),
            is_reference: true,
            ..class("EditorThing", "Reference")
        }),
        "`tools singleton class EditorThing` inherits `Reference` (reference counted)."
    );
    assert_eq!(summary_doc(&class("Root", "")), "`core class Root` (unsafe).");
    assert_eq!(
        summary_doc(&GodotClass { singleton: true, ..class("Root", "") }),
        "`core singleton class Root` (unsafe)."
    );
}

#[test]
fn the_two_base_classes_have_summaries_of_their_own() {
    assert_eq!(
        summary_doc(&class("Reference", "Object")),
        "Base class of all reference-counted types. Inherits `Object`."
    );
    assert_eq!(summary_doc(&class("Object", "")), "The base class of most Godot classes.");
}

#[test]
fn memory_management_depends_on_how_the_class_is_owned() {
    assert_eq!(
        memory_management_docs(&GodotClass { is_reference: true, ..class("Resource", "Reference") }),
        "## Memory management\n\nThe lifetime of this object is automatically managed through reference counting."
    );
    assert_eq!(
        memory_management_docs(&GodotClass { instantiable: false, ..class("Server", "Object") }),
        ""
    );
    let manual = memory_management_docs(&class("Node", "Object"));
    assert!(manual.starts_with(
        "## Memory management\n\nNon reference counted objects such as the ones of this type are usually owned by the engine.\n\n`Node` is a reference-only type. Persistent references can\nonly exist in the unsafe `Ref<Node>` form.\n\n"
    ));
    assert!(manual.contains("or [`Ref::queue_free`] \nif it is a [`Node`].\n\n"));
    assert!(manual.ends_with(
        "[`Node`]: struct.Node.html\n[`Ref::free`]: ../prelude/struct.Ref.html#method.free\n[`Ref::queue_free`]: ../prelude/struct.Ref.html#method.queue_free"
    ));
    assert_eq!(manual.len(), 672);
}

#[test]
fn the_hierarchy_paragraph_lists_the_base_classes() {
    let api = api();
    assert_eq!(
        base_class_docs(&api, &class("Node2D", "CanvasItem")),
        "\n## Class hierarchy\n\nNode2D inherits methods from:\n - [CanvasItem](struct.CanvasItem.html)\n - [Node](struct.Node.html)\n - [Object](struct.Object.html)\n"
    );
    assert_eq!(base_class_docs(&api, &class("Object", "")), "");
}

#[test]
fn the_documentation_of_a_class_has_six_parts() {
    let api = api();
    let docs = generate_class_documentation(&api, &class("Node", "Object"));
    assert_eq!(docs.summary_doc, "`core class Node` inherits `Object` (unsafe).");
    assert_eq!(
        docs.official_docs,
        "## Official documentation\n\nSee the [documentation of this class](https://godot.readthedocs.io/en/latest/classes/class_node.html) in the Godot engine's official documentation."
    );
    assert_eq!(docs.memory_management_docs, memory_management_docs(&class("Node", "Object")));
    assert_eq!(
        docs.base_class_docs,
        "\n## Class hierarchy\n\nNode inherits methods from:\n - [Object](struct.Object.html)\n"
    );
    assert_eq!(docs.tools_docs, "");
    assert!(docs.safety_doc.starts_with(
        "\n## Safety\n\nAll types in the Godot API have \"interior mutability\" in Rust parlance.\n"
    ));
    assert!(docs.safety_doc.ends_with(
        "[thread-safety]: https://docs.godotengine.org/en/stable/tutorials/threads/thread_safe_apis.html"
    ));
}

#[test]
fn a_class_of_the_tools_has_a_paragraph_for_it() {
    let api = api();
    let tool = GodotClass { api_type: "tools".to_string(), ..class("EditorPlugin", "Node") };
    let docs = generate_class_documentation(&api, &tool);
    assert_eq!(
        docs.tools_docs,
        "\n## Tool\n\nThis class is used to interact with Godot's editor."
    );
}
