//! Decisions behind the interactive prompts: what label to show, and
//! what a reply means. The prompting itself is outside work; these
//! functions decide from plain values.

use vstd::prelude::*;

verus! {

use vstd::string::StringExecFns;

use crate::error::Error;

/// The label asking for the sync user, naming the remembered user when
/// there is one.
pub fn user_prompt(existing: Option<&String>) -> (r: String)
    ensures
        match existing {
            Some(u) => r@ == "User: ["@ + u@ + "]"@,
            None => r@ == "User: "@,
        },
{
    let mut s = String::new();
    match existing {
        Some(u) => {
            s.append("User: [");
            s.append(u.as_str());
            s.append("]");
            proof {
                assert(s@ =~= "User: ["@ + u@ + "]"@);
            }
        },
        None => {
            s.append("User: ");
            proof {
                assert(s@ =~= "User: "@);
            }
        },
    }
    s
}

/// The label for editing one named setting, showing its current value.
pub fn edit_prompt(desc: &str, current: Option<&String>) -> (r: String)
    ensures
        match current {
            Some(v) => r@ == desc@ + ": ["@ + v@ + "] "@,
            None => r@ == desc@ + ": "@,
        },
{
    let mut s = String::new();
    s.append(desc);
    match current {
        Some(v) => {
            s.append(": [");
            s.append(v.as_str());
            s.append("] ");
            proof {
                assert(s@ =~= desc@ + ": ["@ + v@ + "] "@);
            }
        },
        None => {
            s.append(": ");
            proof {
                assert(s@ =~= desc@ + ": "@);
            }
        },
    }
    s
}

/// What a reply to the user prompt resolves to: a typed name stands,
/// an empty reply falls back to the remembered user, and with neither
/// the exchange cannot be authenticated.
pub fn resolve_user(input: String, existing: Option<String>) -> (r: Result<String, Error>)
    ensures
        input@.len() > 0 ==> r is Ok && r->Ok_0@ == input@,
        input@.len() == 0 ==> match existing {
            Some(u) => r is Ok && r->Ok_0@ == u@,
            None => r is Err && r->Err_0 == Error::AuthFailure,
        },
{
    if !input.as_str().is_empty() {
        Ok(input)
    } else {
        match existing {
            Some(u) => Ok(u),
            None => Err(Error::AuthFailure),
        }
    }
}

/// What a reply to an edit prompt means: an empty reply keeps the
/// current value, anything else replaces it.
pub fn apply_edit(current: Option<String>, response: String) -> (r: Option<String>)
    ensures
        response@.len() > 0 ==> r == Some(response),
        response@.len() == 0 ==> r == current,
{
    if !response.as_str().is_empty() {
        Some(response)
    } else {
        current
    }
}

} // verus!
