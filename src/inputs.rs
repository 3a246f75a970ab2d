//! Descriptors of the inputs of a form: what each one asks for, and where in
//! the document its value goes.

use vstd::prelude::*;

use crate::json::JsonNumber;
use crate::path::Path;

verus! {

/// What every input has: the path of its value, relative to its parent, a
/// label, and an optional help text.
#[derive(Debug)]
pub struct InputInfo {
    pub key: Path,
    pub name: String,
    pub description: Option<String>,
}

/// A free text input.
#[derive(Debug)]
pub struct TextInput {
    pub info: InputInfo,
    pub validate_regex: Option<String>,
}

/// A yes/no input.
#[derive(Debug)]
pub struct BooleanInput {
    pub info: InputInfo,
}

/// A number input, with optional bounds and step.
#[derive(Debug)]
pub struct NumberInput {
    pub info: InputInfo,
    pub min: Option<JsonNumber>,
    pub max: Option<JsonNumber>,
    pub step: Option<JsonNumber>,
}

/// A fixed group of inputs whose values sit below the group's key.
#[derive(Debug)]
pub struct GroupInput {
    pub info: InputInfo,
    pub inputs: Vec<InputTypes>,
    pub show_disable_toggle: bool,
}

/// A list of repeated groups of inputs, of varying length: its value is an
/// array, one item per repetition.
#[derive(Debug)]
pub struct ListInput {
    pub info: InputInfo,
    pub inputs: Vec<InputTypes>,
    pub min_length: Option<u64>,
    pub max_length: Option<u64>,
}

/// Any input.
#[derive(Debug)]
pub enum InputTypes {
    Text(TextInput),
    Boolean(BooleanInput),
    Number(NumberInput),
    Group(GroupInput),
    /// List differs from groups in that the number of inputs can vary, e.g.
    /// it can be used to prompt for a list of persons of unknown size.
    List(ListInput),
}

/// The description text of an input, if it has one.
pub open spec fn description_of(info: InputInfo) -> Option<Seq<char>> {
    match info.description {
        Some(d) => Some(d@),
        None => None,
    }
}

/// What every input answers.
pub trait Input {
    /// The common part of this input.
    spec fn info(&self) -> InputInfo;

    fn key(&self) -> (r: &Path)
        ensures
            *r == self.info().key,
    ;

    fn name(&self) -> (r: &str)
        ensures
            r@ == self.info().name@,
    ;

    fn description(&self) -> (r: Option<&str>)
        ensures
            match r {
                Some(d) => description_of(self.info()) == Some(d@),
                None => description_of(self.info()) is None,
            },
    ;
}

impl InputInfo {
    fn description_str(&self) -> (r: Option<&str>)
        ensures
            match r {
                Some(d) => description_of(*self) == Some(d@),
                None => description_of(*self) is None,
            },
    {
        match &self.description {
            Some(d) => Some(d.as_str()),
            None => None,
        }
    }
}

impl Input for TextInput {
    open spec fn info(&self) -> InputInfo {
        self.info
    }

    fn key(&self) -> (r: &Path) {
        &self.info.key
    }

    fn name(&self) -> (r: &str) {
        self.info.name.as_str()
    }

    fn description(&self) -> (r: Option<&str>) {
        self.info.description_str()
    }
}

impl Input for BooleanInput {
    open spec fn info(&self) -> InputInfo {
        self.info
    }

    fn key(&self) -> (r: &Path) {
        &self.info.key
    }

    fn name(&self) -> (r: &str) {
        self.info.name.as_str()
    }

    fn description(&self) -> (r: Option<&str>) {
        self.info.description_str()
    }
}

impl Input for NumberInput {
    open spec fn info(&self) -> InputInfo {
        self.info
    }

    fn key(&self) -> (r: &Path) {
        &self.info.key
    }

    fn name(&self) -> (r: &str) {
        self.info.name.as_str()
    }

    fn description(&self) -> (r: Option<&str>) {
        self.info.description_str()
    }
}

impl Input for GroupInput {
    open spec fn info(&self) -> InputInfo {
        self.info
    }

    fn key(&self) -> (r: &Path) {
        &self.info.key
    }

    fn name(&self) -> (r: &str) {
        self.info.name.as_str()
    }

    fn description(&self) -> (r: Option<&str>) {
        self.info.description_str()
    }
}

impl Input for ListInput {
    open spec fn info(&self) -> InputInfo {
        self.info
    }

    fn key(&self) -> (r: &Path) {
        &self.info.key
    }

    fn name(&self) -> (r: &str) {
        self.info.name.as_str()
    }

    fn description(&self) -> (r: Option<&str>) {
        self.info.description_str()
    }
}

impl InputTypes {
    /// The common part of the input, whatever its kind.
    pub fn input_info(&self) -> (r: &InputInfo)
        ensures
            *r == self.info(),
    {
        match self {
            InputTypes::Text(i) => &i.info,
            InputTypes::Boolean(i) => &i.info,
            InputTypes::Number(i) => &i.info,
            InputTypes::Group(i) => &i.info,
            InputTypes::List(i) => &i.info,
        }
    }
}

impl Input for InputTypes {
    open spec fn info(&self) -> InputInfo {
        match self {
            InputTypes::Text(i) => i.info,
            InputTypes::Boolean(i) => i.info,
            InputTypes::Number(i) => i.info,
            InputTypes::Group(i) => i.info,
            InputTypes::List(i) => i.info,
        }
    }

    fn key(&self) -> (r: &Path) {
        &self.input_info().key
    }

    fn name(&self) -> (r: &str) {
        self.input_info().name.as_str()
    }

    fn description(&self) -> (r: Option<&str>) {
        self.input_info().description_str()
    }
}

} // verus!
