use vstd::prelude::*;
use vstd::string::StringExecFns;
use crate::rate_limit::{RateLimiter, Window};
use crate::text_utils::{decimal, push_decimal};

verus! {

/// The command that asks Google PaLM.
pub struct GooglePalm;

/// Tokens that an answer may have at most.
pub const MAX_OUTPUT_TOKENS: u32 = 256;

/// Why the service held an answer back.
pub struct Filter {
    pub reason: String,
    pub message: Option<String>,
}

/// What the service answered to a request that it took.
pub struct Generated {
    pub filters: Option<Vec<Filter>>,
    /// The texts of the candidates, in order.
    pub candidates: Option<Vec<String>>,
}

/// What the service answered to a request that it refused.
pub struct Refusal {
    pub code: i32,
    pub message: String,
}

/// A whole number in decimal, with a minus sign if it is negative.
pub open spec fn signed_decimal(n: int) -> Seq<char> {
    if n < 0 {
        seq!['-'] + decimal((-n) as nat)
    } else {
        decimal(n as nat)
    }
}

/// How one filter is shown: its reason, and its message if it has one.
pub open spec fn filter_text(filter: Filter) -> Seq<char> {
    match filter.message {
        Some(message) => filter.reason@ + seq![':', ' '] + message@,
        None => filter.reason@,
    }
}

/// The first `n` filters as they are shown, a comma and a blank between
/// two of them.
pub open spec fn filters_text(filters: Seq<Filter>, n: nat) -> Seq<char>
    decreases n,
{
    if n == 0 {
        Seq::<char>::empty()
    } else if n == 1 {
        filter_text(filters[0])
    } else {
        filters_text(filters, (n - 1) as nat) + seq![',', ' '] + filter_text(filters[n - 1])
    }
}

/// Whether an answer can be shown: one that was not filtered has a
/// first candidate.
pub open spec fn can_reply(answer: Result<Generated, Refusal>) -> bool {
    match answer {
        Ok(generated) => generated.filters is Some || (generated.candidates is Some
            && generated.candidates->0@.len() > 0),
        Err(_) => true,
    }
}

/// What the user is told: why the answer was filtered, or the first
/// candidate, or the error that the service gave.
pub open spec fn reply_text(answer: Result<Generated, Refusal>) -> Seq<char> {
    match answer {
        Ok(generated) => match generated.filters {
            Some(filters) => "request filtered by Google: "@ + filters_text(
                filters@,
                filters@.len(),
            ) + seq!['.'],
            None => generated.candidates->0@[0]@,
        },
        Err(refusal) => "error "@ + signed_decimal(refusal.code as int) + seq![':', ' ']
            + refusal.message@,
    }
}

/// Whether an answer can be shown.
pub fn can_answer(answer: &Result<Generated, Refusal>) -> (can: bool)
    ensures
        can == can_reply(*answer),
{
    match answer {
        Ok(generated) => generated.filters.is_some() || match &generated.candidates {
            Some(candidates) => candidates.len() > 0,
            None => false,
        },
        Err(_) => true,
    }
}

impl GooglePalm {
    pub fn command_names(&self) -> (names: &[&'static str])
        ensures
            names@.len() == 2,
            names@[0]@ == "google_palm"@,
            names@[1]@ == "palm"@,
    {
        let names: &'static [&'static str] = &["google_palm", "palm"];
        names
    }

    pub fn description(&self) -> (description: Option<&'static str>)
        ensures
            description is Some,
            description->0@ == "ask Google PaLM"@,
    {
        Some("ask Google PaLM")
    }

    /// The limit on a user's requests: three in forty-five seconds.
    pub fn rate_limit(&self) -> (limiter: RateLimiter)
        ensures
            limiter@.limit == 3,
            limiter@.window == 45,
            limiter@.windows == Map::<i64, Window>::empty(),
    {
        RateLimiter::new(3, 45)
    }

    /// The reply to the user for what the service answered.
    pub fn reply(answer: &Result<Generated, Refusal>) -> (text: String)
        requires
            can_reply(*answer),
        ensures
            text@ == reply_text(*answer),
    {
        let mut text = String::new();
        match answer {
            Ok(generated) => match &generated.filters {
                Some(filters) => {
                    text.append("request filtered by Google: ");
                    let ghost head = text@;
                    let mut i: usize = 0;
                    while i < filters.len()
                        invariant
                            i <= filters.len(),
                            text@ == head + filters_text(filters@, i as nat),
                        decreases filters.len() - i,
                    {
                        if i > 0 {
                            text.push(',');
                            text.push(' ');
                        }
                        text.append(filters[i].reason.as_str());
                        if let Some(message) = &filters[i].message {
                            text.push(':');
                            text.push(' ');
                            text.append(message.as_str());
                        }
                        i = i + 1;
                        assert(text@ =~= head + filters_text(filters@, i as nat));
                    }
                    text.push('.');
                },
                None => match &generated.candidates {
                    Some(candidates) => {
                        text.append(candidates[0].as_str());
                    },
                    None => {},
                },
            },
            Err(refusal) => {
                text.append("error ");
                if refusal.code < 0 {
                    text.push('-');
                    push_decimal(&mut text, (-(refusal.code as i64)) as u128);
                } else {
                    push_decimal(&mut text, refusal.code as u128);
                }
                text.push(':');
                text.push(' ');
                text.append(refusal.message.as_str());
            },
        }
        assert(text@ =~= reply_text(*answer));
        text
    }
}

} // verus!
