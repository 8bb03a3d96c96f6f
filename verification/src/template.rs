//! The template string handed to the output layer. The rendering
//! engine itself is an outside collaborator; the library only carries
//! the template text.

use vstd::prelude::*;

verus! {

/// A template string.
pub struct Template(pub String);

impl Template {
    /// Wraps a template string.
    pub fn new(string: String) -> (t: Template)
        ensures
            t.0@ == string@,
    {
        Template(string)
    }
}

} // verus!
