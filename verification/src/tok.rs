use vstd::prelude::*;
use crate::errors::Error;
use crate::engine::{Config, Generation, Phase};
use crate::eval::Harness;

verus! {

/// The tokenizer is an external collaborator: its value is opaque here,
/// and what it returns depends on the vocabulary it was loaded with.
#[verifier::external_type_specification]
#[verifier::external_body]
pub struct ExTokenizer(tokenizers::Tokenizer);

/// Relies on tokenizers::Tokenizer::encode with special tokens added: it
/// turns a text into vocabulary ids, and fails only as the tokenizer does.
/// Nothing is assumed of the ids; every caller handles every outcome.
#[verifier::external_body]
fn encode_text(t: &tokenizers::Tokenizer, text: &str) -> (r: Result<Vec<u32>, Error>)
    ensures
        r matches Err(e) ==> e == Error::Encode,
{
    match t.encode(text, true) {
        Ok(enc) => Ok(enc.get_ids().to_vec()),
        Err(_) => Err(Error::Encode),
    }
}

/// Relies on tokenizers::Tokenizer::token_to_id: the id a literal token
/// maps to, if the vocabulary holds it. Nothing is assumed of the id.
#[verifier::external_body]
fn lookup_token(t: &tokenizers::Tokenizer, token: &str) -> Option<u32> {
    t.token_to_id(token)
}

/// Encodes a prompt and starts a generation run over it. An encoding
/// failure is fatal `Encode`; a prompt that encodes to no token is
/// rejected with `EmptyPrompt` before any forward pass is requested.
pub fn begin_text_run(t: &tokenizers::Tokenizer, prompt: &str, cfg: Config) -> (r: Result<
    Generation,
    Error,
>)
    requires
        cfg.valid(),
    ensures
        match r {
            Result::Err(e) => e == Error::Encode || e == Error::EmptyPrompt,
            Result::Ok(g) => {
                &&& g.wf()
                &&& g.cfg == cfg
                &&& g.prompt_len >= 1
                &&& g.generated == 0
                &&& g.rng.state_spec() == cfg.seed
                &&& g.phase == (if cfg.sample_len == 0 {
                    Phase::Terminated
                } else {
                    Phase::Priming
                })
            },
        },
{
    match encode_text(t, prompt) {
        Result::Err(e) => Err(e),
        Result::Ok(tokens) => Generation::new(tokens, cfg),
    }
}

/// Looks up a token the run cannot do without, such as the end-of-sequence
/// marker. A vocabulary that lacks it is a tokenizer/model mismatch: fatal
/// `Configuration`.
pub fn required_token(t: &tokenizers::Tokenizer, token: &str) -> (r: Result<u32, Error>)
    ensures
        r matches Err(e) ==> e == Error::Configuration,
{
    match lookup_token(t, token) {
        Option::Some(id) => Ok(id),
        Option::None => Err(Error::Configuration),
    }
}

/// Builds an evaluation harness from a tokenizer: the four labels must all
/// be in the vocabulary, else the mismatch is fatal `Configuration`.
pub fn harness_from_tokenizer(t: &tokenizers::Tokenizer) -> (r: Result<Harness, Error>)
    ensures
        match r {
            Result::Err(e) => e == Error::Configuration,
            Result::Ok(h) => h.scored == 0 && h.skipped == 0,
        },
{
    let a: Option<u32> = lookup_token(t, "A");
    let b: Option<u32> = lookup_token(t, "B");
    let c: Option<u32> = lookup_token(t, "C");
    let d: Option<u32> = lookup_token(t, "D");
    Harness::new(a, b, c, d)
}

} // verus!
