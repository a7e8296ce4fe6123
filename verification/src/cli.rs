//! Deciding what an invocation should do, before any network work.
//!
//! The decision is a pure function of the argument vector and of whether the
//! API key was found in the environment. The binary reads both, asks for the
//! plan, and only performs the network request when the plan says so; the two
//! error plans are produced without any network access ever being owed.

use vstd::prelude::*;

verus! {

/// What a given invocation must do.
pub enum Plan {
    /// The argument count is wrong: print the usage message to the error
    /// stream and exit non-zero, with no network access.
    Usage,
    /// Three positional arguments were given but the API key is absent:
    /// print a configuration error to the error stream and exit non-zero,
    /// with no network access.
    MissingKey,
    /// Perform the one fetch with these four inputs.
    Fetch { ticker: String, from: String, to: String, api_key: String },
}

/// The usage line printed when the argument count is wrong.
pub fn usage_message() -> (r: &'static str)
    ensures
        r@ == "Usage: cargo run <ticker> <from> <to>"@,
{
    "Usage: cargo run <ticker> <from> <to>"
}

/// The message printed when the API key is absent from the environment.
pub fn missing_key_message() -> (r: &'static str)
    ensures
        r@ == "Error: API_KEY environment variable not set"@,
{
    "Error: API_KEY environment variable not set"
}

/// Decide the plan for one invocation.
///
/// `args` is the full argument vector, program name included, so exactly
/// three positional arguments means `args.len() == 4`. `api_key` is the
/// value of the `API_KEY` environment variable, if it was set. An argument
/// count other than three yields `Usage` whatever the key; a missing key on
/// a well-formed argument list yields `MissingKey`; otherwise the plan is
/// the fetch with the three arguments and the key, verbatim.
pub fn plan_invocation(args: &Vec<String>, api_key: Option<String>) -> (r: Plan)
    ensures
        args@.len() != 4 ==> r is Usage,
        args@.len() == 4 && api_key is None ==> r is MissingKey,
        args@.len() == 4 && api_key is Some ==> (r matches Plan::Fetch {
            ticker,
            from,
            to,
            api_key: key,
        } && ticker@ == args@[1]@ && from@ == args@[2]@ && to@ == args@[3]@ && key@
            == api_key.unwrap()@),
{
    if args.len() != 4 {
        Plan::Usage
    } else {
        match api_key {
            None => Plan::MissingKey,
            Some(key) => Plan::Fetch {
                ticker: args[1].clone(),
                from: args[2].clone(),
                to: args[3].clone(),
                api_key: key,
            },
        }
    }
}

} // verus!
