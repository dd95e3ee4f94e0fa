//! The description of an engine API that class documentation is written
//! from: classes by name, each with its base class.

use crate::association::{lemma_key_index_is, lookup};
use crate::text::text_eq;
use vstd::prelude::*;

verus! {

/// A class of the engine API.
#[derive(Clone, Debug, PartialEq, Eq)]
pub struct GodotClass {
    pub name: String,
    /// The name of the class that this one inherits from; empty where it
    /// inherits from none.
    pub base_class: String,
    pub api_type: String,
    pub singleton: bool,
    pub is_reference: bool,
    pub instantiable: bool,
}

/// An engine API: its classes.
#[derive(Clone, Debug, PartialEq, Eq)]
pub struct Api {
    pub classes: Vec<GodotClass>,
}

/// The classes, each under its name.
pub open spec fn by_name(classes: Seq<GodotClass>) -> Seq<(Seq<char>, GodotClass)> {
    Seq::new(classes.len(), |i: int| (classes[i].name@, classes[i]))
}

impl GodotClass {
    /// `true` when the class is reference counted.
    pub open spec fn refcounted(self) -> bool {
        self.is_reference || self.name@ == "Reference"@
    }

    /// `true` when the class is reference counted: it is marked so, or it is
    /// the class `Reference` itself.
    pub fn is_refcounted(&self) -> (r: bool)
        ensures
            r == self.refcounted(),
    {
        self.is_reference || text_eq(self.name.as_str(), "Reference")
    }
}

impl Api {
    /// The first class of the given name, if there is one.
    pub open spec fn class_named(self, name: Seq<char>) -> Option<GodotClass> {
        lookup(by_name(self.classes@), name)
    }

    /// The first class of the given name, if there is one.
    pub fn find_class(&self, name: &str) -> (r: Option<&GodotClass>)
        ensures
            match r {
                Some(class) => self.class_named(name@) == Some(*class),
                None => self.class_named(name@) is None,
            },
    {
        let mut i: usize = 0;
        while i < self.classes.len()
            invariant
                0 <= i <= self.classes.len(),
                forall|j: int| 0 <= j < i ==> (#[trigger] by_name(self.classes@)[j]).0 != name@,
            decreases self.classes.len() - i,
        {
            if text_eq(self.classes[i].name.as_str(), name) {
                proof {
                    lemma_key_index_is(by_name(self.classes@), name@, i as int);
                }
                return Some(&self.classes[i]);
            }
            i += 1;
        }
        proof {
            lemma_key_index_is(by_name(self.classes@), name@, i as int);
        }
        None
    }
}

} // verus!
