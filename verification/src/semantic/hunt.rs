//! Resolution of a bare identifier: `self`, then the lexical scopes from the
//! innermost outwards, then the global constants.
use vstd::prelude::*;
use vstd::string::*;
use crate::ast::{Type, TypeModel};
use crate::semantic::check_program::{TypeChecker, TypeTable};
use crate::text::same_text;

verus! {

/// The type that the scopes `scopes[..=i]` give `name`, the innermost
/// (highest index) binding first.
pub open spec fn scopes_lookup(scopes: Seq<TypeTable>, name: Seq<char>, i: int) -> Option<TypeModel>
    decreases i + 1,
{
    if i < 0 || i >= scopes.len() {
        None
    } else {
        match scopes[i].lookup(name) {
            Some(t) => Some(t),
            None => scopes_lookup(scopes, name, i - 1),
        }
    }
}

impl TypeChecker {
    /// What a bare identifier `name` denotes: the type of `self` when there
    /// is one, else the nearest scope binding, else a global constant.
    pub open spec fn symbol_type(&self, name: Seq<char>) -> Option<TypeModel> {
        if name == "self"@ && self.current_self_type is Some {
            Some(self.current_self_type.unwrap()@)
        } else {
            match scopes_lookup(self.scopes@, name, self.scopes@.len() - 1) {
                Some(t) => Some(t),
                None => self.consts.lookup(name),
            }
        }
    }

    /// Looks up the type of the identifier `name`; an unknown name is an
    /// error that names it.
    pub fn hunt_symbol(&self, name: &str) -> (r: Result<Type, String>)
        ensures
            match r {
                Ok(t) => self.symbol_type(name@) == Some(t@),
                Err(e) => self.symbol_type(name@) is None && e@ == "undefined variable or constant: "@
                    + name@,
            },
    {
        if same_text(name, "self") {
            if let Some(ty) = &self.current_self_type {
                return Ok(ty.duplicate());
            }
        }
        let mut i: usize = self.scopes.len();
        while i > 0
            invariant
                i <= self.scopes@.len(),
                scopes_lookup(self.scopes@, name@, self.scopes@.len() - 1) == scopes_lookup(
                    self.scopes@,
                    name@,
                    i - 1,
                ),
                !(name@ == "self"@ && self.current_self_type is Some),
            decreases i,
        {
            i -= 1;
            if let Some(ty) = self.scopes[i].get(name) {
                return Ok(ty.duplicate());
            }
        }
        if let Some(ty) = self.consts.get(name) {
            return Ok(ty.duplicate());
        }
        let mut msg = String::from_str("undefined variable or constant: ");
        msg.append(name);
        Err(msg)
    }
}

} // verus!
