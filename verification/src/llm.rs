//! The autoregressive generator: the language-model and sampler capabilities
//! it drives, the incremental token-to-text stream that buffers incomplete
//! decodes, and the batch and streaming decode loops.
use vstd::prelude::*;

use crate::error::CoreError;
use crate::model::{ModelEngine, ModelId};
use crate::sampling::{
    apply_repeat_penalty, argmax_token, spec_is_argmax, spec_penalized_seq, spec_scores,
    lemma_penalty_noop, MAX_LOGIT_ABS, MAX_PENALTY_MILLI, PENALTY_DISABLED_MILLI,
};
use crate::util::eos_token;

verus! {

/// Longest token context the model accepts.
pub const MAX_SEQ_LEN: usize = 4096;

/// Settings of one generation session. Temperature, nucleus threshold and
/// repeat penalty are carried in thousandths (`0` disables stochastic
/// sampling, `1000` disables the penalty); the seed feeds the stochastic
/// sampler only.
pub struct TextGenerationSetting {
    pub temperature_milli: u64,
    pub top_p_milli: Option<u64>,
    pub seed: u64,
    pub repeat_penalty_milli: u64,
    pub repeat_last_n: usize,
    pub sample_len: usize,
    pub prompt: String,
}

/// The penalty lies in the range its arithmetic is defined on.
pub open spec fn spec_valid_setting(s: &TextGenerationSetting) -> bool {
    1 <= s.repeat_penalty_milli <= MAX_PENALTY_MILLI
}

/// The language-model capability: an opaque tokenizer and forward pass.
/// Scores returned by `forward` are fixed-point logit surrogates.
pub trait LlmModel {
    fn id(&self) -> ModelId;

    fn engine(&self) -> ModelEngine;

    /// The id of a token given its text, if the vocabulary has it.
    fn token_id_of(&self, token_text: &str) -> Option<u32>;

    /// Tokenizes a prompt.
    fn encode(&self, text: &str) -> Result<Vec<u32>, CoreError>;

    /// Detokenizes a run of token ids.
    fn decode(&self, tokens: &Vec<u32>) -> Result<String, CoreError>;

    /// One forward pass over `tokens` at absolute position `index_pos`,
    /// yielding one score per vocabulary entry.
    fn forward(&mut self, tokens: &Vec<u32>, index_pos: usize) -> Result<Vec<i64>, CoreError>;
}

/// The stochastic sampling capability used when the temperature is not zero.
pub trait Sampler {
    fn sample(&mut self, logits: &Vec<i64>) -> Result<u32, CoreError>;
}

fn vec_range(v: &Vec<u32>, from: usize, to: usize) -> (r: Vec<u32>)
    requires
        from <= to <= v@.len(),
    ensures
        r@ == v@.subrange(from as int, to as int),
{
    let mut out: Vec<u32> = Vec::new();
    let mut i: usize = from;
    while i < to
        invariant
            from <= i <= to <= v@.len(),
            out@ == v@.subrange(from as int, i as int),
        decreases to - i,
    {
        out.push(v[i]);
        proof {
            assert(out@ =~= v@.subrange(from as int, i as int + 1));
        }
        i += 1;
    }
    out
}

fn logits_bounded(logits: &Vec<i64>) -> (r: bool)
    ensures
        r == forall|i: int|
            0 <= i < logits@.len() ==> -MAX_LOGIT_ABS <= #[trigger] logits@[i] <= MAX_LOGIT_ABS,
{
    let n = logits.len();
    let mut i: usize = 0;
    while i < n
        invariant
            0 <= i <= n,
            n == logits@.len(),
            forall|j: int| 0 <= j < i ==> -MAX_LOGIT_ABS <= #[trigger] logits@[j] <= MAX_LOGIT_ABS,
        decreases n - i,
    {
        let l = logits[i];
        if l < -MAX_LOGIT_ABS || l > MAX_LOGIT_ABS {
            return false;
        }
        i += 1;
    }
    true
}

/// Picks the next token from a row of scores: the penalty pass runs first
/// (skipped when disabled), then temperature zero takes the argmax while any
/// other temperature defers to the stochastic sampler.
pub fn choose_next_token<S: Sampler>(
    sampler: &mut S,
    logits: &Vec<i64>,
    temperature_milli: u64,
    penalty_milli: u64,
    window: &Vec<u32>,
) -> (r: Result<u32, CoreError>)
    requires
        1 <= penalty_milli <= MAX_PENALTY_MILLI,
        logits@.len() <= u32::MAX,
        forall|i: int|
            0 <= i < logits@.len() ==> -MAX_LOGIT_ABS <= #[trigger] logits@[i] <= MAX_LOGIT_ABS,
    ensures
        temperature_milli == 0 && logits@.len() > 0 ==> (r matches Ok(t) && spec_is_argmax(
            spec_penalized_seq(logits@, penalty_milli, window@),
            t as int,
        )),
        temperature_milli == 0 && logits@.len() == 0 ==> r is Err,
{
    let penalized: Vec<i64> = if penalty_milli == PENALTY_DISABLED_MILLI {
        let c = logits.clone();
        proof {
            lemma_penalty_noop(logits@, window@, penalty_milli);
            assert(spec_scores(c@) =~= spec_penalized_seq(logits@, penalty_milli, window@));
        }
        c
    } else {
        let p = apply_repeat_penalty(logits, penalty_milli, window);
        proof {
            assert(spec_scores(p@) =~= spec_penalized_seq(logits@, penalty_milli, window@));
        }
        p
    };
    if temperature_milli == 0 {
        if penalized.len() == 0 {
            return Err(CoreError::Engine(String::from_str("empty logits")));
        }
        Ok(argmax_token(&penalized))
    } else {
        sampler.sample(&penalized)
    }
}

/// Buffers decoded text until a complete code point is available: a token may
/// end mid-codepoint, in which case the decoder yields a replacement
/// character that must not be emitted yet.
pub struct TokenOutputStream {
    tokens: Vec<u32>,
    prev_index: usize,
    current_index: usize,
}

impl TokenOutputStream {
    /// The indices into the token buffer stay ordered and in bounds.
    pub closed spec fn wf(&self) -> bool {
        self.prev_index <= self.current_index <= self.tokens@.len()
    }

    /// No token has been pushed yet.
    pub closed spec fn spec_is_empty(&self) -> bool {
        self.tokens@.len() == 0
    }

    pub closed spec fn spec_tokens(&self) -> Seq<u32> {
        self.tokens@
    }

    pub fn new() -> (r: TokenOutputStream)
        ensures
            r.wf(),
            r.spec_is_empty(),
    {
        TokenOutputStream { tokens: Vec::new(), prev_index: 0, current_index: 0 }
    }

    /// Feeds one sampled token; emits the freshly decoded text once it has
    /// grown past what was already accounted for and does not end in an
    /// incomplete sequence.
    pub fn next_token<M: LlmModel>(&mut self, model: &M, token: u32) -> (r: Result<
        Option<String>,
        CoreError,
    >)
        requires
            old(self).wf(),
        ensures
            final(self).wf(),
            final(self).spec_tokens() == old(self).spec_tokens().push(token),
            !final(self).spec_is_empty(),
            r matches Ok(Some(s)) ==> s@.len() > 0,
    {
        self.tokens.push(token);
        let prev_text: String = if self.prev_index == self.current_index {
            String::new()
        } else {
            let range = vec_range(&self.tokens, self.prev_index, self.current_index);
            match model.decode(&range) {
                Ok(t) => t,
                Err(e) => {
                    return Err(e);
                },
            }
        };
        let range = vec_range(&self.tokens, self.prev_index, self.tokens.len());
        let text: String = match model.decode(&range) {
            Ok(t) => t,
            Err(e) => {
                return Err(e);
            },
        };
        let prev_len = prev_text.as_str().unicode_len();
        let text_len = text.as_str().unicode_len();
        if text_len > prev_len && text.as_str().get_char(text_len - 1) != '\u{FFFD}' {
            let out = String::from_str(text.as_str().substring_char(prev_len, text_len));
            self.prev_index = self.current_index;
            self.current_index = self.tokens.len();
            Ok(Some(out))
        } else {
            Ok(None)
        }
    }

    /// Flushes whatever buffered text remains once generation has stopped.
    /// With no tokens ever pushed there is nothing to flush.
    pub fn decode_rest<M: LlmModel>(&self, model: &M) -> (r: Result<Option<String>, CoreError>)
        requires
            self.wf(),
        ensures
            self.spec_is_empty() ==> (r matches Ok(o) && o is None),
            r matches Ok(Some(s)) ==> s@.len() > 0,
    {
        if self.tokens.len() == 0 {
            return Ok(None);
        }
        let prev_text: String = if self.prev_index == self.current_index {
            String::new()
        } else {
            let range = vec_range(&self.tokens, self.prev_index, self.current_index);
            match model.decode(&range) {
                Ok(t) => t,
                Err(e) => {
                    return Err(e);
                },
            }
        };
        let range = vec_range(&self.tokens, self.prev_index, self.tokens.len());
        let text: String = match model.decode(&range) {
            Ok(t) => t,
            Err(e) => {
                return Err(e);
            },
        };
        let prev_len = prev_text.as_str().unicode_len();
        let text_len = text.as_str().unicode_len();
        if text_len > prev_len {
            Ok(Some(String::from_str(text.as_str().substring_char(prev_len, text_len))))
        } else {
            Ok(None)
        }
    }
}

/// One generation session: the model and sampler capabilities, the settings,
/// the append-only token history, and the end-of-sequence token id.
pub struct TextGeneration<M: LlmModel, S: Sampler> {
    pub model: M,
    pub setting: TextGenerationSetting,
    sampler: S,
    token_output_stream: TokenOutputStream,
    all_tokens: Vec<u32>,
    eos_token: u32,
}

impl<M: LlmModel, S: Sampler> TextGeneration<M, S> {
    pub closed spec fn wf(&self) -> bool {
        self.token_output_stream.wf() && spec_valid_setting(&self.setting)
    }

    /// The full token history: prompt tokens then sampled tokens, in order.
    pub closed spec fn spec_all_tokens(&self) -> Seq<u32> {
        self.all_tokens@
    }

    pub closed spec fn spec_setting(&self) -> TextGenerationSetting {
        self.setting
    }

    pub closed spec fn spec_tos(&self) -> TokenOutputStream {
        self.token_output_stream
    }

    pub closed spec fn spec_eos_token(&self) -> u32 {
        self.eos_token
    }

    /// A session that has not decoded anything yet.
    pub closed spec fn spec_fresh(&self) -> bool {
        self.all_tokens@.len() == 0 && self.token_output_stream.spec_is_empty()
    }

    /// Opens a session: resolves the end-of-sequence token of the model's
    /// vocabulary, and fails when the vocabulary lacks it.
    pub fn new(model: M, sampler: S, setting: TextGenerationSetting) -> (r: Result<
        TextGeneration<M, S>,
        CoreError,
    >)
        requires
            spec_valid_setting(&setting),
        ensures
            r matches Ok(g) ==> g.wf() && g.spec_fresh() && g.spec_setting() == setting,
    {
        let eos_str = eos_token(model.id());
        match model.token_id_of(eos_str) {
            Some(id) => Ok(
                TextGeneration {
                    model,
                    setting,
                    sampler,
                    token_output_stream: TokenOutputStream::new(),
                    all_tokens: Vec::new(),
                    eos_token: id,
                },
            ),
            None => Err(CoreError::Engine(String::from_str("get eos_token failed"))),
        }
    }

    /// One decode step: runs the forward pass over the context that starts at
    /// `index_pos`, validates the scores, applies the repeat penalty over the
    /// recent window, and picks the next token by the sampling policy. The
    /// token history is left untouched.
    pub fn forward_token(&mut self, index_pos: usize) -> (r: Result<u32, CoreError>)
        requires
            old(self).wf(),
            index_pos <= old(self).spec_all_tokens().len(),
        ensures
            final(self).wf(),
            final(self).spec_all_tokens() == old(self).spec_all_tokens(),
            final(self).spec_setting() == old(self).spec_setting(),
            final(self).spec_eos_token() == old(self).spec_eos_token(),
            final(self).spec_tos() == old(self).spec_tos(),
    {
        let len = self.all_tokens.len();
        let ctxt = vec_range(&self.all_tokens, index_pos, len);
        let logits = match self.model.forward(&ctxt, index_pos) {
            Ok(l) => l,
            Err(e) => {
                return Err(e);
            },
        };
        if !logits_bounded(&logits) {
            return Err(CoreError::Engine(String::from_str("logit score out of range")));
        }
        if logits.len() > u32::MAX as usize {
            return Err(CoreError::Engine(String::from_str("vocabulary too large")));
        }
        let start_at = if len >= self.setting.repeat_last_n {
            len - self.setting.repeat_last_n
        } else {
            0
        };
        let window = vec_range(&self.all_tokens, start_at, len);
        choose_next_token(
            &mut self.sampler,
            &logits,
            self.setting.temperature_milli,
            self.setting.repeat_penalty_milli,
            &window,
        )
    }

    /// Runs the whole decode loop and returns the generated text in one
    /// piece. The token history only ever grows; a session opened with
    /// `sample_len` zero generates the empty string.
    #[verifier::loop_isolation(false)]
    pub fn generate(&mut self) -> (r: Result<String, CoreError>)
        requires
            old(self).wf(),
        ensures
            final(self).wf(),
            final(self).spec_setting() == old(self).spec_setting(),
            final(self).spec_all_tokens().len() >= old(self).spec_all_tokens().len(),
            final(self).spec_all_tokens().subrange(0, old(self).spec_all_tokens().len() as int)
                == old(self).spec_all_tokens(),
            old(self).spec_fresh() && old(self).spec_setting().sample_len == 0 ==> (r matches Ok(
                s,
            ) ==> s@ == Seq::<char>::empty()),
    {
        let prompt = self.setting.prompt.clone();
        let tokens = match self.model.encode(prompt.as_str()) {
            Ok(t) => t,
            Err(e) => {
                return Err(e);
            },
        };
        let ghost orig: Seq<u32> = self.all_tokens@;
        let mut k: usize = 0;
        while k < tokens.len()
            invariant
                0 <= k <= tokens@.len(),
                self.all_tokens@ == orig + tokens@.subrange(0, k as int),
                self.wf(),
                self.setting == old(self).setting,
                self.token_output_stream == old(self).token_output_stream,
                self.eos_token == old(self).eos_token,
            decreases tokens@.len() - k,
        {
            self.all_tokens.push(tokens[k]);
            proof {
                assert(self.all_tokens@ =~= orig + tokens@.subrange(0, k as int + 1));
            }
            k += 1;
        }
        let mut output = String::new();
        let mut index: usize = 0;
        let sample_len = self.setting.sample_len;
        while index < sample_len
            invariant
                self.wf(),
                self.setting == old(self).setting,
                sample_len == self.setting.sample_len,
                self.spec_eos_token() == old(self).spec_eos_token(),
                self.all_tokens@.len() >= orig.len(),
                self.all_tokens@.subrange(0, orig.len() as int) == orig,
                index > 0 ==> self.all_tokens@.len() > 0,
                old(self).spec_fresh() && sample_len == 0 ==> (output@ == Seq::<char>::empty()
                    && self.token_output_stream.spec_is_empty()),
            decreases sample_len - index,
        {
            let len = self.all_tokens.len();
            let context_size = if index > 0 {
                1usize
            } else {
                len
            };
            let start_pos = len - context_size;
            let next = match self.forward_token(start_pos) {
                Ok(t) => t,
                Err(e) => {
                    return Err(e);
                },
            };
            self.all_tokens.push(next);
            proof {
                assert(self.all_tokens@.subrange(0, orig.len() as int) =~= orig);
            }
            if next == self.eos_token {
                break ;
            }
            match self.token_output_stream.next_token(&self.model, next) {
                Ok(Some(t)) => {
                    output.append(t.as_str());
                },
                Ok(None) => {},
                Err(e) => {
                    return Err(e);
                },
            }
            index += 1;
        }
        match self.token_output_stream.decode_rest(&self.model) {
            Ok(Some(rest)) => {
                output.append(rest.as_str());
            },
            Ok(None) => {},
            Err(e) => {
                return Err(e);
            },
        }
        Ok(output)
    }
}

/// Where a streamed session stands: not yet polled, emitting fragments, ended
/// naturally, or aborted by an engine failure. No transition ever leaves
/// `Done` or `Failed`.
#[derive(Clone, Copy, Debug, PartialEq, Eq, Structural)]
pub enum GenState {
    Ready,
    Decoding,
    Done,
    Failed,
}

/// The prompt, truncated from the front so that prompt and budget fit the
/// model's context window.
pub open spec fn spec_truncated_prompt(ids: Seq<u32>, sample_len: nat) -> Seq<u32> {
    if ids.len() + sample_len > (MAX_SEQ_LEN - 10) as nat {
        let to_remove = ids.len() + sample_len + 10 - MAX_SEQ_LEN as nat;
        if to_remove >= ids.len() {
            ids
        } else {
            ids.subrange(ids.len() - to_remove, ids.len() as int)
        }
    } else {
        ids
    }
}

/// Truncates the encoded prompt to what the context window leaves room for.
pub fn truncate_prompt_tokens(ids: Vec<u32>, sample_len: usize) -> (r: Vec<u32>)
    ensures
        r@ == spec_truncated_prompt(ids@, sample_len as nat),
{
    let total: u128 = ids.len() as u128 + sample_len as u128;
    if total > (MAX_SEQ_LEN - 10) as u128 {
        let to_remove: u128 = total + 10 - MAX_SEQ_LEN as u128;
        if to_remove >= ids.len() as u128 {
            ids
        } else {
            let start: usize = ids.len() - to_remove as usize;
            vec_range(&ids, start, ids.len())
        }
    } else {
        ids
    }
}

/// A lazy generation session: each pull performs exactly one decode step and
/// yields at most one text fragment.
pub struct TextGenerationStream<M: LlmModel, S: Sampler> {
    pub text_gen: TextGeneration<M, S>,
    generated_tokens: usize,
    state: GenState,
}

impl<M: LlmModel, S: Sampler> TextGenerationStream<M, S> {
    pub closed spec fn wf(&self) -> bool {
        self.text_gen.wf()
    }

    pub closed spec fn spec_state(&self) -> GenState {
        self.state
    }

    pub closed spec fn spec_generated(&self) -> nat {
        self.generated_tokens as nat
    }

    pub closed spec fn spec_setting(&self) -> TextGenerationSetting {
        self.text_gen.setting
    }

    pub closed spec fn spec_all_tokens(&self) -> Seq<u32> {
        self.text_gen.all_tokens@
    }

    pub closed spec fn spec_eos_token(&self) -> u32 {
        self.text_gen.eos_token
    }

    /// Where the session stands.
    pub fn state(&self) -> (r: GenState)
        ensures
            r == self.spec_state(),
    {
        self.state
    }

    /// Opens a streamed session: encodes the prompt, truncates it to the
    /// context window, and appends it to the token history.
    #[verifier::loop_isolation(false)]
    pub fn new(text_gen: TextGeneration<M, S>) -> (r: Result<TextGenerationStream<M, S>, CoreError>)
        requires
            text_gen.wf(),
        ensures
            r matches Ok(s) ==> {
                &&& s.wf()
                &&& s.spec_state() is Ready
                &&& s.spec_generated() == 0
                &&& s.spec_setting() == text_gen.spec_setting()
                &&& s.spec_all_tokens().subrange(0, text_gen.spec_all_tokens().len() as int)
                    == text_gen.spec_all_tokens()
                &&& exists|ids: Seq<u32>|
                    s.spec_all_tokens() == text_gen.spec_all_tokens()
                        + #[trigger] spec_truncated_prompt(
                        ids,
                        text_gen.spec_setting().sample_len as nat,
                    )
            },
    {
        let mut text_gen = text_gen;
        let prompt = text_gen.setting.prompt.clone();
        let ids = match text_gen.model.encode(prompt.as_str()) {
            Ok(t) => t,
            Err(e) => {
                return Err(e);
            },
        };
        let ghost idsg: Seq<u32> = ids@;
        let prompt_tokens = truncate_prompt_tokens(ids, text_gen.setting.sample_len);
        let ghost orig: Seq<u32> = text_gen.all_tokens@;
        let ghost setting0 = text_gen.setting;
        let mut k: usize = 0;
        while k < prompt_tokens.len()
            invariant
                0 <= k <= prompt_tokens@.len(),
                text_gen.all_tokens@ == orig + prompt_tokens@.subrange(0, k as int),
                text_gen.wf(),
                text_gen.setting == setting0,
            decreases prompt_tokens@.len() - k,
        {
            text_gen.all_tokens.push(prompt_tokens[k]);
            proof {
                assert(text_gen.all_tokens@ =~= orig + prompt_tokens@.subrange(0, k as int + 1));
            }
            k += 1;
        }
        proof {
            assert(prompt_tokens@.subrange(0, prompt_tokens@.len() as int) =~= prompt_tokens@);
            assert(text_gen.all_tokens@ == orig + spec_truncated_prompt(
                idsg,
                setting0.sample_len as nat,
            ));
            assert(text_gen.all_tokens@.subrange(0, orig.len() as int) =~= orig);
        }
        Ok(TextGenerationStream { text_gen, generated_tokens: 0, state: GenState::Ready })
    }

    /// One pull of the stream: `None` once the session is over — and forever
    /// after — or after the step that ends it: exhausting the budget, the
    /// end-of-sequence token, or an engine failure. Otherwise exactly one
    /// token was sampled and appended, it was not the end-of-sequence token,
    /// and the decoded fragment is returned (empty while text is buffered).
    pub fn next_fragment(&mut self) -> (r: Option<String>)
        requires
            old(self).wf(),
        ensures
            final(self).wf(),
            final(self).spec_setting() == old(self).spec_setting(),
            final(self).spec_eos_token() == old(self).spec_eos_token(),
            old(self).spec_state() is Done ==> r is None && *final(self) == *old(self),
            old(self).spec_state() is Failed ==> r is None && *final(self) == *old(self),
            ({
                let budget = old(self).spec_setting().sample_len;
                &&& old(self).spec_generated() >= budget ==> r is None
                &&& (!(old(self).spec_state() is Done) && !(old(self).spec_state() is Failed)
                    && old(self).spec_generated() >= budget) ==> final(self).spec_state() is Done
                    && final(self).spec_generated() == old(self).spec_generated()
                    && final(self).spec_all_tokens() == old(self).spec_all_tokens()
            }),
            old(self).spec_generated() <= final(self).spec_generated()
                <= old(self).spec_generated() + 1,
            final(self).spec_all_tokens().len() <= old(self).spec_all_tokens().len() + 1,
            final(self).spec_all_tokens().subrange(0, old(self).spec_all_tokens().len() as int)
                == old(self).spec_all_tokens(),
            (final(self).spec_generated() == old(self).spec_generated() + 1)
                <==> (final(self).spec_all_tokens().len() == old(self).spec_all_tokens().len()
                + 1),
            r is None ==> final(self).spec_state() is Done || final(self).spec_state() is Failed,
            r is Some ==> ({
                &&& final(self).spec_state() is Decoding
                &&& final(self).spec_generated() == old(self).spec_generated() + 1
                &&& final(self).spec_all_tokens().len() == old(self).spec_all_tokens().len() + 1
                &&& final(self).spec_all_tokens().last() != old(self).spec_eos_token()
            }),
    {
        match self.state {
            GenState::Done => {
                return None;
            },
            GenState::Failed => {
                return None;
            },
            _ => {},
        }
        if self.generated_tokens >= self.text_gen.setting.sample_len {
            self.state = GenState::Done;
            return None;
        }
        let len = self.text_gen.all_tokens.len();
        let context_size = if self.generated_tokens > 0 {
            1usize
        } else {
            len
        };
        let start_pos = if len >= context_size {
            len - context_size
        } else {
            0
        };
        let next = match self.text_gen.forward_token(start_pos) {
            Ok(t) => t,
            Err(_) => {
                self.state = GenState::Failed;
                return None;
            },
        };
        self.text_gen.all_tokens.push(next);
        self.generated_tokens += 1;
        if next == self.text_gen.eos_token {
            self.state = GenState::Done;
            return None;
        }
        match self.text_gen.token_output_stream.next_token(&self.text_gen.model, next) {
            Ok(Some(t)) => {
                self.state = GenState::Decoding;
                Some(t)
            },
            Ok(None) => {
                self.state = GenState::Decoding;
                Some(String::new())
            },
            Err(_) => {
                self.state = GenState::Failed;
                None
            },
        }
    }
}

} // verus!
