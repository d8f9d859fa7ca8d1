//! The two commands that only produce a fixed text.

use vstd::prelude::*;
use vstd::string::StringExecFns;

verus! {

/// The greeting for `name`: the fixed wording with the name set into it.
pub open spec fn greeting_text(name: Seq<char>) -> Seq<char> {
    "Hello, "@ + name + "! You've been greeted from Rust!"@
}

/// The text of the answer that [`ping`] gives.
pub open spec fn pong_text() -> Seq<char> {
    "pong"@
}

/// Greets `name`. Every name is accepted as it is, the empty one too.
pub fn greet(name: &str) -> (greeting: String)
    ensures
        greeting@ == greeting_text(name@),
{
    let mut greeting = String::from_str("Hello, ");
    greeting.append(name);
    greeting.append("! You've been greeted from Rust!");
    greeting
}

/// Answers a liveness probe with the fixed word `pong`.
pub fn ping() -> (answer: &'static str)
    ensures
        answer@ == pong_text(),
{
    "pong"
}

} // verus!
