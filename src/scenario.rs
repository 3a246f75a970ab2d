//! A scenario: the template to render and the inputs that feed it.

use vstd::prelude::*;

use crate::inputs::InputTypes;
use crate::path::join_with;

verus! {

/// A scenario represents the template to be rendered and the format of the
/// inputs needed to generate it.
#[derive(Debug)]
pub struct Scenario {
    pub template: Template,
    pub inputs: Vec<InputTypes>,
}

/// The text of a template, whole or as a list of lines.
#[derive(Debug)]
pub enum Template {
    StringTemplate(String),
    StringListTemplate(Vec<String>),
}

/// A borrowed scenario, to be handed on as one value.
pub struct ScenarioAsJson<'a>(pub &'a Scenario);

/// The views of a sequence of strings.
pub open spec fn string_views(s: Seq<String>) -> Seq<Seq<char>> {
    s.map_values(|x: String| x@)
}

impl Template {
    /// The template text: a whole template as it is, a list of lines joined
    /// with a newline between each two.
    pub open spec fn text(&self) -> Seq<char> {
        match self {
            Template::StringTemplate(s) => s@,
            Template::StringListTemplate(ls) => join_with(string_views(ls@), '\n'),
        }
    }

    /// The template text.
    pub fn source(&self) -> (r: String)
        ensures
            r@ == self.text(),
    {
        match self {
            Template::StringTemplate(s) => s.clone(),
            Template::StringListTemplate(ls) => {
                let mut text = String::new();
                let mut i: usize = 0;
                while i < ls.len()
                    invariant
                        i <= ls@.len(),
                        text@ == join_with(string_views(ls@).take(i as int), '\n'),
                    decreases ls@.len() - i,
                {
                    let ghost before = string_views(ls@).take(i as int);
                    let ghost after = string_views(ls@).take(i + 1);
                    assert(after.drop_last() =~= before);
                    if i > 0 {
                        text.append("\n");
                        proof {
                            reveal_strlit("\n");
                        }
                    }
                    text.append(ls[i].as_str());
                    assert(text@ =~= join_with(after, '\n'));
                    i = i + 1;
                }
                assert(string_views(ls@).take(ls@.len() as int) =~= string_views(ls@));
                text
            },
        }
    }
}

} // verus!
