//! Naming a stack and its element type.
use vstd::prelude::*;
use crate::calc::{lower_of, lowercase};
use crate::index::str_eq;

verus! {

/// The element type of a named stack.
#[derive(Debug, Clone, Copy, PartialEq, Eq, Structural)]
pub enum StackType {
    Int,
    Str,
    Float,
    Spawn,
}

/// The stack type a lower-case name denotes.
pub open spec fn type_named(t: Seq<char>) -> Option<StackType> {
    if t == "int"@ {
        Some(StackType::Int)
    } else if t == "str"@ {
        Some(StackType::Str)
    } else if t == "float"@ {
        Some(StackType::Float)
    } else if t == "spawn"@ {
        Some(StackType::Spawn)
    } else {
        None
    }
}

impl StackType {
    /// The type named `s`, in any letter case.
    pub fn from_str(s: &str) -> (r: Option<StackType>)
        ensures
            r == type_named(lower_of(s@)),
    {
        let lower = lowercase(s);
        StackType::from_lowercase(lower.as_str())
    }

    /// The type named `t`, which is already lower case.
    pub fn from_lowercase(t: &str) -> (r: Option<StackType>)
        ensures
            r == type_named(t@),
    {
        if str_eq(t, "int") {
            Some(StackType::Int)
        } else if str_eq(t, "str") {
            Some(StackType::Str)
        } else if str_eq(t, "float") {
            Some(StackType::Float)
        } else if str_eq(t, "spawn") {
            Some(StackType::Spawn)
        } else {
            None
        }
    }

    /// The lower-case name of the type.
    pub fn to_str(&self) -> (r: &'static str)
        ensures
            r@ == (match *self {
                StackType::Int => "int"@,
                StackType::Str => "str"@,
                StackType::Float => "float"@,
                StackType::Spawn => "spawn"@,
            }),
    {
        match self {
            StackType::Int => "int",
            StackType::Str => "str",
            StackType::Float => "float",
            StackType::Spawn => "spawn",
        }
    }
}

/// A stack chosen by name and element type.
#[derive(Debug, Clone)]
pub struct StackSelector {
    pub name: String,
    pub stack_type: StackType,
}

impl StackSelector {
    pub fn new(name: &str, stack_type: StackType) -> (r: StackSelector)
        ensures
            r.name@ == name@,
            r.stack_type == stack_type,
    {
        StackSelector { name: name.to_owned(), stack_type }
    }
}

} // verus!
