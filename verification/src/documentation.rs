//! The documentation of a class of the engine API, as text.

use crate::api::{by_name, Api, GodotClass};
use crate::association::{key_index, lemma_key_index};
use crate::text::text_eq;
use vstd::prelude::*;
use vstd::string::StringExecFns;

verus! {

/// The text in lower case: what `str::to_lowercase` gives for it.
pub uninterp spec fn lowercase(text: Seq<char>) -> Seq<char>;

/// Calls `str::to_lowercase` of the standard library. The result is the
/// lower-case form of the text as that function defines it, by the Unicode
/// rules; nothing else is claimed of it.
#[verifier::external_body]
fn to_lowercase(text: &str) -> (r: String)
    ensures
        r@ == lowercase(text@),
{
    text.to_lowercase()
}

/// The link to the documentation of the class of the given name.
pub open spec fn doc_link(name: Seq<char>) -> Seq<char> {
    "["@ + name + "](struct."@ + name + ".html)"@
}

/// The address of the official documentation of the class whose name, in
/// lower case, is given.
pub open spec fn doc_url(lower_case: Seq<char>) -> Seq<char> {
    "https://godot.readthedocs.io/en/latest/classes/class_"@ + lower_case + ".html"@
}

/// A link to the documentation of the class, by its name.
pub fn class_doc_link(class: &GodotClass) -> (r: String)
    ensures
        r@ == doc_link(class.name@),
{
    let mut r = String::from_str("[");
    r.append(class.name.as_str());
    r.append("](struct.");
    r.append(class.name.as_str());
    r.append(".html)");
    r
}

/// The address of the official documentation of the class whose name, in
/// lower case, is given.
pub fn doc_url_of(lower_case: &str) -> (r: String)
    ensures
        r@ == doc_url(lower_case@),
{
    let mut r = String::from_str("https://godot.readthedocs.io/en/latest/classes/class_");
    r.append(lower_case);
    r.append(".html");
    r
}

/// The address of the official documentation of the class: that of its
/// name in lower case.
pub fn official_doc_url(class: &GodotClass) -> (r: String)
    ensures
        r@ == doc_url(lowercase(class.name@)),
{
    let lower_case = to_lowercase(class.name.as_str());
    doc_url_of(lower_case.as_str())
}

/// The list of the classes that a class inherits from, one line each and
/// the nearest first, starting at the class of the given name. The walk
/// visits at most `steps` base classes after the first.
pub open spec fn base_class_lines(api: Api, parent_name: Seq<char>, steps: nat) -> Seq<char>
    decreases steps,
{
    match api.class_named(parent_name) {
        None => Seq::empty(),
        Some(parent) => {
            let line = " - "@ + doc_link(parent.name@) + "\n"@;
            if parent.base_class@.len() == 0 || steps == 0 {
                line
            } else {
                line + base_class_lines(api, parent.base_class@, (steps - 1) as nat)
            }
        },
    }
}

/// `true` when the walk goes on from the class of the given name: the API
/// has the class, and the class has a base class.
pub open spec fn goes_on(api: Api, name: Seq<char>) -> bool {
    api.class_named(name) is Some && api.class_named(name)->0.base_class@.len() != 0
}

/// The name of the base class of the class of the given name.
pub open spec fn base_of(api: Api, name: Seq<char>) -> Seq<char> {
    api.class_named(name)->0.base_class@
}

/// The name that the walk stands at after `k` steps from `name`.
pub open spec fn ancestor(api: Api, name: Seq<char>, k: nat) -> Seq<char>
    decreases k,
{
    if k == 0 {
        name
    } else {
        ancestor(api, base_of(api, name), (k - 1) as nat)
    }
}

/// `true` when the walk from `name` ends within `steps` steps: it comes to
/// a class without a base class, or to a name that the API has no class
/// for.
pub open spec fn ends_within(api: Api, name: Seq<char>, steps: nat) -> bool
    decreases steps,
{
    !goes_on(api, name) || (steps > 0 && ends_within(api, base_of(api, name), (steps - 1) as nat))
}

/// A walk that ends within some number of steps ends within any greater
/// number, and the list is the same for both.
pub proof fn lemma_walk_stable(api: Api, name: Seq<char>, steps: nat, more: nat)
    requires
        ends_within(api, name, steps),
        steps <= more,
    ensures
        ends_within(api, name, more),
        base_class_lines(api, name, more) == base_class_lines(api, name, steps),
    decreases steps,
{
    if goes_on(api, name) {
        lemma_walk_stable(api, base_of(api, name), (steps - 1) as nat, (more - 1) as nat);
    }
}

/// A walk that cannot go on after `k` steps ends within `k` steps.
proof fn lemma_walk_stops(api: Api, name: Seq<char>, k: nat)
    requires
        !goes_on(api, ancestor(api, name, k)),
    ensures
        ends_within(api, name, k),
    decreases k,
{
    if k > 0 && goes_on(api, name) {
        lemma_walk_stops(api, base_of(api, name), (k - 1) as nat);
    }
}

/// Of a walk that ends within `steps` steps, what is left after `k` steps
/// that went on ends within the steps that are left.
proof fn lemma_walk_rest(api: Api, name: Seq<char>, steps: nat, k: nat)
    requires
        ends_within(api, name, steps),
        k <= steps,
        forall|j: nat| j < k ==> goes_on(api, #[trigger] ancestor(api, name, j)),
    ensures
        ends_within(api, ancestor(api, name, k), (steps - k) as nat),
    decreases k,
{
    if k > 0 {
        assert(goes_on(api, ancestor(api, name, 0)));
        let next = base_of(api, name);
        assert forall|j: nat| j < k - 1 implies goes_on(api, #[trigger] ancestor(api, next, j)) by {
            assert(ancestor(api, name, j + 1) == ancestor(api, next, j));
        }
        lemma_walk_rest(api, next, (steps - 1) as nat, (k - 1) as nat);
    }
}

/// A walk whose rest after `k` steps ends within `rest` steps ends within
/// `k + rest` steps.
proof fn lemma_walk_joined(api: Api, name: Seq<char>, k: nat, rest: nat)
    requires
        ends_within(api, ancestor(api, name, k), rest),
    ensures
        ends_within(api, name, k + rest),
    decreases k,
{
    if k > 0 && goes_on(api, name) {
        lemma_walk_joined(api, base_of(api, name), (k - 1) as nat, rest);
    }
}

/// Numbers that are all different and all below a bound are no more than
/// the bound.
proof fn lemma_distinct_bounded(numbers: Seq<int>, bound: int)
    requires
        0 <= bound,
        forall|i: int| 0 <= i < numbers.len() ==> 0 <= #[trigger] numbers[i] < bound,
        forall|i: int, j: int| 0 <= i < j < numbers.len() ==> numbers[i] != numbers[j],
    ensures
        numbers.len() <= bound,
    decreases bound,
{
    if numbers.len() > 0 {
        assert(0 <= numbers[0] < bound);
        if exists|k: int| 0 <= k < numbers.len() && numbers[k] == bound - 1 {
            let k = choose|k: int| 0 <= k < numbers.len() && numbers[k] == bound - 1;
            let rest = numbers.remove(k);
            assert forall|i: int| 0 <= i < rest.len() implies 0 <= #[trigger] rest[i] < bound
                - 1 by {
                if i < k {
                    assert(rest[i] == numbers[i]);
                } else {
                    assert(rest[i] == numbers[i + 1]);
                }
            }
            assert forall|i: int, j: int| 0 <= i < j < rest.len() implies rest[i] != rest[j] by {
                let i2 = if i < k {
                    i
                } else {
                    i + 1
                };
                let j2 = if j < k {
                    j
                } else {
                    j + 1
                };
                assert(rest[i] == numbers[i2]);
                assert(rest[j] == numbers[j2]);
            }
            lemma_distinct_bounded(rest, bound - 1);
        } else {
            lemma_distinct_bounded(numbers, bound - 1);
        }
    }
}

/// A hierarchy is no deeper than the API has classes: a walk that ends at
/// all ends within as many steps as there are classes, so that the list of
/// base classes is cut nowhere.
pub proof fn lemma_walk_bounded(api: Api, name: Seq<char>, steps: nat)
    requires
        ends_within(api, name, steps),
    ensures
        ends_within(api, name, api.classes@.len()),
        base_class_lines(api, name, steps) == base_class_lines(api, name, api.classes@.len()),
    decreases steps,
{
    let count = api.classes@.len();
    if steps <= count {
        lemma_walk_stable(api, name, steps, count);
    } else if ends_within(api, name, count) {
        lemma_walk_stable(api, name, count, steps);
    } else {
        let classes = by_name(api.classes@);
        assert forall|k: nat| k <= count implies goes_on(api, #[trigger] ancestor(api, name, k)) by {
            if !goes_on(api, ancestor(api, name, k)) {
                lemma_walk_stops(api, name, k);
                lemma_walk_stable(api, name, k, count);
            }
        }
        let places = Seq::new(
            count + 1,
            |k: int| key_index(classes, ancestor(api, name, k as nat)),
        );
        assert forall|i: int| 0 <= i < places.len() implies 0 <= #[trigger] places[i] < count by {
            lemma_key_index(classes, ancestor(api, name, i as nat));
            assert(goes_on(api, ancestor(api, name, i as nat)));
        }
        if forall|i: int, j: int| 0 <= i < j < places.len() ==> places[i] != places[j] {
            lemma_distinct_bounded(places, count as int);
        }
        let (a, b) = choose|a: int, b: int| 0 <= a < b < places.len() && places[a] == places[b];
        let first = ancestor(api, name, a as nat);
        let second = ancestor(api, name, b as nat);
        lemma_key_index(classes, first);
        lemma_key_index(classes, second);
        assert(goes_on(api, first));
        assert(goes_on(api, second));
        assert(places[a] == key_index(classes, first));
        assert(places[b] == key_index(classes, second));
        assert(first == second);
        assert forall|j: nat| j < b as nat implies goes_on(api, #[trigger] ancestor(api, name, j)) by {}
        lemma_walk_rest(api, name, steps, b as nat);
        lemma_walk_joined(api, name, a as nat, (steps - b) as nat);
        let shorter = (a + steps - b) as nat;
        lemma_walk_bounded(api, name, shorter);
        lemma_walk_stable(api, name, shorter, steps);
    }
}

/// Appends the list of base classes, walking at most `steps` of them after
/// the first.
fn list_from(output: &mut String, api: &Api, parent_name: &str, steps: usize)
    ensures
        final(output)@ == old(output)@ + base_class_lines(*api, parent_name@, steps as nat),
    decreases steps,
{
    match api.find_class(parent_name) {
        None => {
            assert(output@ =~= old(output)@ + Seq::<char>::empty());
        },
        Some(parent) => {
            let class_link = class_doc_link(parent);
            let ghost line = " - "@ + doc_link(parent.name@) + "\n"@;
            output.append(" - ");
            output.append(class_link.as_str());
            output.append("\n");
            assert(output@ =~= old(output)@ + line);
            if !parent.base_class.as_str().is_empty() && steps > 0 {
                let ghost before = output@;
                list_from(output, api, parent.base_class.as_str(), steps - 1);
                assert(output@ =~= old(output)@ + (line + base_class_lines(
                    *api,
                    parent.base_class@,
                    (steps - 1) as nat,
                )));
            }
        },
    }
}

/// Appends to `output` the list of the classes that a class inherits from:
/// one line for the class of the given name, then one for its base class,
/// and so on up. Nothing is appended where the API has no class of that
/// name. A hierarchy that ends is no deeper than the API has classes
/// (`lemma_walk_bounded`), so the walk is cut off after that many steps:
/// that loses nothing, and it ends the walk where the base classes form a
/// cycle.
pub fn list_base_classes(output: &mut String, api: &Api, parent_name: &str)
    ensures
        final(output)@ == old(output)@ + base_class_lines(
            *api,
            parent_name@,
            api.classes@.len(),
        ),
{
    list_from(output, api, parent_name, api.classes.len())
}

/// The documentation of a class, part by part.
#[derive(Clone, Debug, PartialEq, Eq)]
pub struct ClassDocumentation {
    pub summary_doc: String,
    pub official_docs: String,
    pub memory_management_docs: String,
    pub base_class_docs: String,
    pub tools_docs: String,
    pub safety_doc: String,
}

/// The word for a singleton, or nothing.
pub open spec fn singleton_word(class: GodotClass) -> Seq<char> {
    if class.singleton {
        "singleton "@
    } else {
        ""@
    }
}

/// How objects of the class are owned.
pub open spec fn ownership_word(class: GodotClass) -> Seq<char> {
    if class.refcounted() {
        "reference counted"@
    } else {
        "unsafe"@
    }
}

/// The first words of the summary: the API type, whether the class is a
/// singleton, and its name.
pub open spec fn summary_head(class: GodotClass) -> Seq<char> {
    "`"@ + class.api_type@ + " "@ + singleton_word(class) + "class "@ + class.name@
}

/// The summary line of a class.
pub open spec fn summary_text(class: GodotClass) -> Seq<char> {
    if class.name@ == "Reference"@ {
        "Base class of all reference-counted types. Inherits `Object`."@
    } else if class.name@ == "Object"@ {
        "The base class of most Godot classes."@
    } else if class.base_class@.len() != 0 {
        summary_head(class) + "` inherits `"@ + class.base_class@ + "` ("@ + ownership_word(class)
            + ")."@
    } else {
        summary_head(class) + "` ("@ + ownership_word(class) + ")."@
    }
}

/// The paragraph that points to the official documentation at the given
/// address.
pub open spec fn official_text(url: Seq<char>) -> Seq<char> {
    "## Official documentation\n\nSee the [documentation of this class]("@
        + url + ") in the Godot engine's official documentation."@
}

/// The paragraph on how objects of the class are managed; empty for a class
/// that is neither reference counted nor instantiable.
pub open spec fn memory_text(class: GodotClass) -> Seq<char> {
    if class.refcounted() {
        "## Memory management\n\nThe lifetime of this object is automatically managed through reference counting."@
    } else if class.instantiable {
        "## Memory management\n\nNon reference counted objects such as the ones of this type are usually owned by the engine.\n\n`"@
            + class.name@
            + "` is a reference-only type. Persistent references can\nonly exist in the unsafe `Ref<"@
            + class.name@
            + ">` form.\n\nIn the cases where Rust code owns an object of this type, for example if the object was just\ncreated on the Rust side and not passed to the engine yet, ownership should be either given\nto the engine or the object must be manually destroyed using [`Ref::free`], or [`Ref::queue_free`] \nif it is a [`Node`].\n\n[`Node`]: struct.Node.html\n[`Ref::free`]: ../prelude/struct.Ref.html#method.free\n[`Ref::queue_free`]: ../prelude/struct.Ref.html#method.queue_free"@
    } else {
        ""@
    }
}

/// The paragraph that lists the base classes; empty for a class without a
/// base class.
pub open spec fn hierarchy_text(api: Api, class: GodotClass) -> Seq<char> {
    if class.base_class@.len() != 0 {
        "\n## Class hierarchy\n\n"@ + class.name@ + " inherits methods from:\n"@
            + base_class_lines(api, class.base_class@, api.classes@.len())
    } else {
        Seq::empty()
    }
}

/// The paragraph for a class of the editor's tools; empty for any other.
pub open spec fn tools_text(class: GodotClass) -> Seq<char> {
    if class.api_type@ == "tools"@ {
        "\n## Tool\n\nThis class is used to interact with Godot's editor."@
    } else {
        ""@
    }
}

/// The paragraph on safety, the same for every class.
pub open spec fn safety_text() -> Seq<char> {
    "\n## Safety\n\nAll types in the Godot API have \"interior mutability\" in Rust parlance.\nTo enforce that the official [thread-safety guidelines][thread-safety] are\nfollowed, the typestate pattern is used in the [`Ref`] and [`TRef`] smart pointers,\nand the [`Instance`] API. The typestate `Access` in these types tracks whether the\naccess is unique, shared, or exclusive to the current thread. For more information,\nsee the type-level documentation on [`Ref`].\n\n[`Ref`]: ../prelude/struct.Ref.html\n[`TRef`]: ../prelude/struct.TRef.html\n[`Instance`]: ../prelude/struct.Instance.html\n[thread-safety]: https://docs.godotengine.org/en/stable/tutorials/threads/thread_safe_apis.html"@
}

/// The summary line of a class.
pub fn summary_doc(class: &GodotClass) -> (r: String)
    ensures
        r@ == summary_text(*class),
{
    let has_parent = !class.base_class.as_str().is_empty();
    let singleton_str = if class.singleton {
        "singleton "
    } else {
        ""
    };
    let ownership_type = if class.is_refcounted() {
        "reference counted"
    } else {
        "unsafe"
    };
    if text_eq(class.name.as_str(), "Reference") {
        String::from_str("Base class of all reference-counted types. Inherits `Object`.")
    } else if text_eq(class.name.as_str(), "Object") {
        String::from_str("The base class of most Godot classes.")
    } else {
        let mut r = String::from_str("`");
        r.append(class.api_type.as_str());
        r.append(" ");
        r.append(singleton_str);
        r.append("class ");
        r.append(class.name.as_str());
        if has_parent {
            r.append("` inherits `");
            r.append(class.base_class.as_str());
        }
        r.append("` (");
        r.append(ownership_type);
        r.append(").");
        r
    }
}

/// The paragraph on how objects of the class are managed.
pub fn memory_management_docs(class: &GodotClass) -> (r: String)
    ensures
        r@ == memory_text(*class),
{
    if class.is_refcounted() {
        String::from_str("## Memory management\n\nThe lifetime of this object is automatically managed through reference counting.")
    } else if class.instantiable {
        let mut r = String::from_str(
            "## Memory management\n\nNon reference counted objects such as the ones of this type are usually owned by the engine.\n\n`",
        );
        r.append(class.name.as_str());
        r.append(
            "` is a reference-only type. Persistent references can\nonly exist in the unsafe `Ref<",
        );
        r.append(class.name.as_str());
        r.append(
            ">` form.\n\nIn the cases where Rust code owns an object of this type, for example if the object was just\ncreated on the Rust side and not passed to the engine yet, ownership should be either given\nto the engine or the object must be manually destroyed using [`Ref::free`], or [`Ref::queue_free`] \nif it is a [`Node`].\n\n[`Node`]: struct.Node.html\n[`Ref::free`]: ../prelude/struct.Ref.html#method.free\n[`Ref::queue_free`]: ../prelude/struct.Ref.html#method.queue_free",
        );
        r
    } else {
        String::from_str("")
    }
}

/// The paragraph that lists the base classes of the class.
pub fn base_class_docs(api: &Api, class: &GodotClass) -> (r: String)
    ensures
        r@ == hierarchy_text(*api, *class),
{
    let mut docs = String::new();
    if !class.base_class.as_str().is_empty() {
        docs.append("\n## Class hierarchy\n\n");
        docs.append(class.name.as_str());
        docs.append(" inherits methods from:\n");
        assert(docs@ =~= "\n## Class hierarchy\n\n"@ + class.name@ + " inherits methods from:\n"@);
        list_base_classes(&mut docs, api, class.base_class.as_str());
    }
    docs
}

/// Writes the documentation of a class: its summary, where its official
/// documentation is, how its objects are managed, what it inherits from,
/// whether it belongs to the editor's tools, and the note on safety.
pub fn generate_class_documentation(api: &Api, class: &GodotClass) -> (r: ClassDocumentation)
    ensures
        r.summary_doc@ == summary_text(*class),
        r.official_docs@ == official_text(doc_url(lowercase(class.name@))),
        r.memory_management_docs@ == memory_text(*class),
        r.base_class_docs@ == hierarchy_text(*api, *class),
        r.tools_docs@ == tools_text(*class),
        r.safety_doc@ == safety_text(),
{
    let mut official_docs = String::from_str(
        "## Official documentation\n\nSee the [documentation of this class](",
    );
    official_docs.append(official_doc_url(class).as_str());
    official_docs.append(") in the Godot engine's official documentation.");
    let tools_docs = if text_eq(class.api_type.as_str(), "tools") {
        "\n## Tool\n\nThis class is used to interact with Godot's editor."
    } else {
        ""
    };
    let safety_doc =
        "\n## Safety\n\nAll types in the Godot API have \"interior mutability\" in Rust parlance.\nTo enforce that the official [thread-safety guidelines][thread-safety] are\nfollowed, the typestate pattern is used in the [`Ref`] and [`TRef`] smart pointers,\nand the [`Instance`] API. The typestate `Access` in these types tracks whether the\naccess is unique, shared, or exclusive to the current thread. For more information,\nsee the type-level documentation on [`Ref`].\n\n[`Ref`]: ../prelude/struct.Ref.html\n[`TRef`]: ../prelude/struct.TRef.html\n[`Instance`]: ../prelude/struct.Instance.html\n[thread-safety]: https://docs.godotengine.org/en/stable/tutorials/threads/thread_safe_apis.html";
    ClassDocumentation {
        summary_doc: summary_doc(class),
        official_docs,
        memory_management_docs: memory_management_docs(class),
        base_class_docs: base_class_docs(api, class),
        tools_docs: String::from_str(tools_docs),
        safety_doc: String::from_str(safety_doc),
    }
}

} // verus!
