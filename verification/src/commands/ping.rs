use vstd::prelude::*;
use vstd::string::StringExecFns;
use crate::text_utils::{decimal, push_decimal};

verus! {

/// The command that measures how long a reply takes.
#[derive(Default)]
pub struct Ping;

/// What the command shows while it measures.
pub const MEASURING: &'static str = "Measuring\u{2026}";

/// What the command shows for a reply that took `millis` milliseconds.
pub open spec fn ping_text(millis: nat) -> Seq<char> {
    "Ping: "@ + decimal(millis) + "ms"@
}

impl Ping {
    pub fn name(&self) -> (name: &'static str)
        ensures
            name@ == "ping"@,
    {
        "ping"
    }

    /// The text that tells the time a reply took.
    pub fn report(millis: u128) -> (text: String)
        ensures
            text@ == ping_text(millis as nat),
    {
        let mut text = String::new();
        text.append("Ping: ");
        push_decimal(&mut text, millis);
        text.append("ms");
        text
    }
}

} // verus!
