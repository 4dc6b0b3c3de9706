use vstd::prelude::*;

use crate::text::{trim_text, trimmed};
use vstd::string::StringExecFns;

verus! {

/// How often a provider call is tried, and how long to wait in between: after
/// the failure of attempt `n` (counted from 1) the wait is `2^(n-1)` time units.
#[derive(Debug, Clone, Copy, PartialEq, Eq, Structural)]
pub struct RetryPolicy {
    pub max_attempts: u32,
}

pub open spec fn pow2(n: nat) -> nat
    decreases n,
{
    if n == 0 {
        1
    } else {
        2 * pow2((n - 1) as nat)
    }
}

impl RetryPolicy {
    /// Three attempts in all.
    pub fn standard() -> (r: RetryPolicy)
        ensures
            r.max_attempts == 3,
    {
        RetryPolicy { max_attempts: 3 }
    }

    /// What to do after attempt `attempt` failed: wait the returned number of
    /// time units and try again, or (`None`) give up and report that failure.
    pub fn after_failure(&self, attempt: u32) -> (r: Option<u64>)
        requires
            1 <= attempt,
            self.max_attempts <= 64,
        ensures
            match r {
                Some(d) => attempt < self.max_attempts && d == pow2((attempt - 1) as nat),
                None => attempt >= self.max_attempts,
            },
    {
        if attempt >= self.max_attempts {
            return None;
        }
        let mut d: u64 = 1;
        let mut k: u32 = 1;
        while k < attempt
            invariant
                1 <= k <= attempt,
                attempt < self.max_attempts <= 64,
                d == pow2((k - 1) as nat),
            decreases attempt - k,
        {
            proof {
                lemma_pow2_bound((k - 1) as nat);
            }
            d = d * 2;
            k += 1;
        }
        Some(d)
    }
}

proof fn lemma_pow2_bound(n: nat)
    requires
        n <= 62,
    ensures
        pow2(n) <= 0x4000_0000_0000_0000,
{
    lemma_pow2_mono(n, 62);
    reveal_with_fuel(pow2, 63);
    assert(pow2(62) == 0x4000_0000_0000_0000);
}

proof fn lemma_pow2_mono(a: nat, b: nat)
    requires
        a <= b,
    ensures
        pow2(a) <= pow2(b),
    decreases b,
{
    if a < b {
        lemma_pow2_mono(a, (b - 1) as nat);
    }
}

pub const PROMPT_HEAD: &'static str = "You are a professional translator. Translate ONLY the text content from English to Japanese.

CRITICAL RULES - Follow these strictly:
- Do NOT add any markdown syntax (no ```, ---, #, *, _, etc.)
- Do NOT add extra paragraphs or line breaks beyond what exists in the original
- Do NOT add code blocks, horizontal rules, or heading markers
- Do NOT add any formatting that wasn't in the original text
- Translate ONLY the plain text content, nothing else
- Keep the exact same structure as the input

INPUT TEXT:
";

pub const PROMPT_TAIL: &'static str = "

OUTPUT (translated text only, no explanations):";

/// The instruction sent to the language model for one text.
pub fn translation_prompt(text: &str) -> (r: String)
    ensures
        r@ == PROMPT_HEAD@ + text@ + PROMPT_TAIL@,
{
    let mut prompt = String::from_str(PROMPT_HEAD);
    prompt.append(text);
    prompt.append(PROMPT_TAIL);
    prompt
}

/// The generation endpoint of a server at `base_url`.
pub fn generate_url(base_url: &str) -> (r: String)
    ensures
        r@ == base_url@ + "/api/generate"@,
{
    let mut url = String::from_str(base_url);
    url.append("/api/generate");
    url
}

/// The translation in a model's answer: the answer without surrounding white space.
pub fn translation_from_response(response: &str) -> (r: String)
    ensures
        r@ == trimmed(response@),
{
    trim_text(response)
}

} // verus!
