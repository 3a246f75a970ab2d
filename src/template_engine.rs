//! The template engine that renders a document: a Handlebars registry that
//! holds the scenario's template under one name.

use vstd::prelude::*;

use handlebars::{Handlebars, TemplateError};

use crate::scenario::Template;

verus! {

/// Handlebars' template registry, held opaque.
#[verifier::external_type_specification]
#[verifier::external_body]
pub struct ExHandlebars<'reg>(Handlebars<'reg>);

/// Handlebars' error for a template that does not compile, held opaque.
#[verifier::external_type_specification]
#[verifier::external_body]
pub struct ExTemplateError(TemplateError);

/// The names under which a registry holds templates.
pub uninterp spec fn template_names(h: Handlebars<'static>) -> Set<Seq<char>>;

/// Relies on `Handlebars::new`: a new registry holds built-in helpers and no
/// template.
#[verifier::external_body]
fn new_registry() -> (r: Handlebars<'static>)
    ensures
        template_names(r) == Set::<Seq<char>>::empty(),
{
    Handlebars::new()
}

/// Relies on `Handlebars::register_template_string`: it compiles the source;
/// on success the template is held under `name`, replacing any other, and on
/// a compile error the registry is left as it was.
#[verifier::external_body]
fn register_template(h: &mut Handlebars<'static>, name: &str, source: &str) -> (r: Result<(), TemplateError>)
    ensures
        r is Ok ==> template_names(*final(h)) == template_names(*old(h)).insert(name@),
        r is Err ==> template_names(*final(h)) == template_names(*old(h)),
{
    h.register_template_string(name, source)
}

/// Relies on `Handlebars::has_template`: whether a template is held under
/// `name`.
#[verifier::external_body]
fn has_template(h: &Handlebars<'static>, name: &str) -> (r: bool)
    ensures
        r == template_names(*h).contains(name@),
{
    h.has_template(name)
}

/// The name under which the scenario's template is held.
pub const TEMPLATE_NAME: &'static str = "t";

/// Why a template could not be set.
#[derive(Debug)]
pub enum EngineError {
    /// The template does not compile.
    InvalidTemplate(TemplateError),
}

/// Renders documents with Handlebars.
pub struct HandlebarsEngine {
    inner: Handlebars<'static>,
}

impl HandlebarsEngine {
    /// The names under which templates are held.
    pub closed spec fn templates(&self) -> Set<Seq<char>> {
        template_names(self.inner)
    }

    /// An engine with no template yet.
    pub fn new_uninit() -> (r: HandlebarsEngine)
        ensures
            r.templates() == Set::<Seq<char>>::empty(),
    {
        HandlebarsEngine { inner: new_registry() }
    }

    /// An engine with `template` set, if it compiles, and with no template
    /// otherwise.
    pub fn with_template(template: &Template) -> (r: HandlebarsEngine)
        ensures
            r.templates() == Set::<Seq<char>>::empty() || r.templates() == Set::<Seq<char>>::empty().insert(
                TEMPLATE_NAME@,
            ),
    {
        let mut s = Self::new_uninit();
        let _ = s.set_template(template);
        s
    }

    /// Compiles the text of `template` and holds it under `TEMPLATE_NAME`.
    /// On an error the engine is left as it was.
    pub fn set_template(&mut self, template: &Template) -> (r: Result<(), EngineError>)
        ensures
            r is Ok ==> final(self).templates() == old(self).templates().insert(TEMPLATE_NAME@),
            r is Err ==> final(self).templates() == old(self).templates(),
    {
        let source = template.source();
        match register_template(&mut self.inner, TEMPLATE_NAME, source.as_str()) {
            Ok(()) => Ok(()),
            Err(e) => Err(EngineError::InvalidTemplate(e)),
        }
    }

    /// Whether a template has been set.
    pub fn is_initialized(&self) -> (r: bool)
        ensures
            r == self.templates().contains(TEMPLATE_NAME@),
    {
        has_template(&self.inner, TEMPLATE_NAME)
    }

    /// The registry, to render with.
    pub fn registry(&self) -> &Handlebars<'static> {
        &self.inner
    }
}

} // verus!
