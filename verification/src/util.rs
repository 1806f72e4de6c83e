//! Small verified utilities: decimal rendering, human-readable sizes, the
//! end-of-sequence token per model, and path/line trimming helpers.
use vstd::prelude::*;

use crate::model::{spec_is_mistral, spec_is_zephyr, ModelId};

verus! {

/// The character for a single decimal digit.
pub open spec fn spec_digit_char(d: nat) -> char {
    if d == 0 {
        '0'
    } else if d == 1 {
        '1'
    } else if d == 2 {
        '2'
    } else if d == 3 {
        '3'
    } else if d == 4 {
        '4'
    } else if d == 5 {
        '5'
    } else if d == 6 {
        '6'
    } else if d == 7 {
        '7'
    } else if d == 8 {
        '8'
    } else {
        '9'
    }
}

/// The decimal rendering of a natural number, most significant digit first.
pub open spec fn spec_digits(n: nat) -> Seq<char>
    decreases n,
{
    if n < 10 {
        seq![spec_digit_char(n)]
    } else {
        spec_digits(n / 10) + seq![spec_digit_char(n % 10)]
    }
}

fn digit_str(d: u64) -> (r: &'static str)
    requires
        d < 10,
    ensures
        r@ == seq![spec_digit_char(d as nat)],
{
    proof {
        reveal_strlit("0");
        reveal_strlit("1");
        reveal_strlit("2");
        reveal_strlit("3");
        reveal_strlit("4");
        reveal_strlit("5");
        reveal_strlit("6");
        reveal_strlit("7");
        reveal_strlit("8");
        reveal_strlit("9");
    }
    let r = match d {
        0 => "0",
        1 => "1",
        2 => "2",
        3 => "3",
        4 => "4",
        5 => "5",
        6 => "6",
        7 => "7",
        8 => "8",
        _ => "9",
    };
    proof {
        assert(r@ =~= seq![spec_digit_char(d as nat)]);
    }
    r
}

/// Renders a number in decimal.
pub fn u64_to_string(n: u64) -> (r: String)
    ensures
        r@ == spec_digits(n as nat),
    decreases n,
{
    if n < 10 {
        String::from_str(digit_str(n))
    } else {
        let mut s = u64_to_string(n / 10);
        s.append(digit_str(n % 10));
        s
    }
}

/// Division of `a` by `b` rounded to the nearest integer, ties to even.
pub open spec fn spec_round_half_even(a: nat, b: nat) -> nat
    recommends
        b > 0,
{
    let q = a / b;
    let r = a % b;
    if 2 * r < b {
        q
    } else if 2 * r > b {
        q + 1
    } else if q % 2 == 0 {
        q
    } else {
        q + 1
    }
}

/// `n / d` rendered with exactly two decimal places, nearest, ties to even.
pub open spec fn spec_fixed2(n: nat, d: nat) -> Seq<char>
    recommends
        d > 0,
{
    let h = spec_round_half_even(100 * n, d);
    spec_digits(h / 100) + seq!['.'] + seq![spec_digit_char(h / 10 % 10)] + seq![
        spec_digit_char(h % 10),
    ]
}

/// `size_in_bytes` rendered with a unit suffix: bytes below 1000, otherwise
/// two decimals of KB, MB or GB.
pub open spec fn spec_format_size(n: nat) -> Seq<char> {
    if n < 1000 {
        spec_digits(n) + "B"@
    } else if n < 1000000 {
        spec_fixed2(n, 1000) + "KB"@
    } else if n < 1000000000 {
        spec_fixed2(n, 1000000) + "MB"@
    } else {
        spec_fixed2(n, 1000000000) + "GB"@
    }
}

fn fixed2(n: usize, d: u64) -> (r: String)
    requires
        d > 0,
    ensures
        r@ == spec_fixed2(n as nat, d as nat),
{
    let a: u128 = 100u128 * (n as u128);
    let b: u128 = d as u128;
    let q: u128 = a / b;
    let rem: u128 = a % b;
    let h: u128 = if 2 * rem < b {
        q
    } else if 2 * rem > b {
        q + 1
    } else if q % 2 == 0 {
        q
    } else {
        q + 1
    };
    proof {
        assert(h == spec_round_half_even(100 * n as nat, d as nat));
        assert(h <= a / b + 1);
    }
    let whole: u64 = (h / 100) as u64;
    let mut s = u64_to_string(whole);
    s.append(".");
    proof {
        reveal_strlit(".");
    }
    s.append(digit_str((h / 10 % 10) as u64));
    s.append(digit_str((h % 10) as u64));
    proof {
        assert(s@ =~= spec_fixed2(n as nat, d as nat));
    }
    s
}

/// Human-readable byte size, e.g. `512B`, `1.50KB`, `2.25MB`.
pub fn format_size(size_in_bytes: usize) -> (r: String)
    ensures
        r@ == spec_format_size(size_in_bytes as nat),
{
    if size_in_bytes < 1000 {
        let mut s = u64_to_string(size_in_bytes as u64);
        s.append("B");
        s
    } else if size_in_bytes < 1000000 {
        let mut s = fixed2(size_in_bytes, 1000);
        s.append("KB");
        s
    } else if size_in_bytes < 1000000000 {
        let mut s = fixed2(size_in_bytes, 1000000);
        s.append("MB");
        s
    } else {
        let mut s = fixed2(size_in_bytes, 1000000000);
        s.append("GB");
        s
    }
}

/// The text of the end-of-sequence token that stops generation for a model.
pub fn eos_token(model_id: ModelId) -> (r: &'static str)
    ensures
        model_id is PhiV2 ==> r@ == "<|endoftext|>"@,
        !(model_id is PhiV2) ==> r@ == "</s>"@,
{
    match model_id {
        ModelId::PhiV2 => "<|endoftext|>",
        _ => "</s>",
    }
}

/// Grouped-query-attention factor used when loading legacy weight files.
pub fn default_gqa(model_id: ModelId) -> (r: u64)
    ensures
        r == if spec_is_zephyr(model_id) {
            8u64
        } else {
            1u64
        },
{
    match model_id {
        ModelId::Zephyr7bAlpha | ModelId::Zephyr7bBeta => 8,
        _ => 1,
    }
}

/// `s` with every leading `'.'` or `'/'` removed.
pub open spec fn spec_trim_start(s: Seq<char>) -> Seq<char>
    decreases s.len(),
{
    if s.len() > 0 && (s[0] == '.' || s[0] == '/') {
        spec_trim_start(s.drop_first())
    } else {
        s
    }
}

proof fn lemma_trim_start(s: Seq<char>, k: int)
    requires
        0 <= k <= s.len(),
        forall|j: int| 0 <= j < k ==> (s[j] == '.' || s[j] == '/'),
        k < s.len() ==> !(s[k] == '.' || s[k] == '/'),
    ensures
        spec_trim_start(s) =~= s.subrange(k, s.len() as int),
    decreases k,
{
    if k == 0 {
        assert(spec_trim_start(s) =~= s.subrange(0, s.len() as int));
    } else {
        let t = s.drop_first();
        assert(spec_trim_start(s) == spec_trim_start(t));
        lemma_trim_start(t, k - 1);
        assert(t.subrange(k - 1, t.len() as int) =~= s.subrange(k, s.len() as int));
    }
}

fn first_untrimmed(path: &str) -> (i: usize)
    ensures
        0 <= i <= path@.len(),
        forall|j: int| 0 <= j < i ==> (path@[j] == '.' || path@[j] == '/'),
        i < path@.len() ==> !(path@[i as int] == '.' || path@[i as int] == '/'),
{
    let n = path.unicode_len();
    let mut i: usize = 0;
    while i < n
        invariant
            0 <= i <= n,
            n == path@.len(),
            forall|j: int| 0 <= j < i ==> (path@[j] == '.' || path@[j] == '/'),
        decreases n - i,
    {
        let c = path.get_char(i);
        if !(c == '.' || c == '/') {
            return i;
        }
        i += 1;
    }
    i
}

/// A static asset response: the request path of an embedded file, as it
/// arrived. The transport layer turns it into a response; the path is looked
/// up after normalization by `static_path_of`.
pub struct StaticFile<T>(pub T);

/// The request path with leading `'.'` and `'/'` characters stripped, as used
/// to look up an embedded static asset.
pub fn static_path_of(path: &str) -> (r: String)
    ensures
        r@ == spec_trim_start(path@),
{
    let n = path.unicode_len();
    let i = first_untrimmed(path);
    proof {
        lemma_trim_start(path@, i as int);
    }
    String::from_str(path.substring_char(i, n))
}

/// A line of input with one trailing `"\n"` or `"\r\n"` removed.
pub open spec fn spec_strip_line_ending(s: Seq<char>) -> Seq<char> {
    if s.len() > 0 && s.last() == '\n' {
        let t = s.drop_last();
        if t.len() > 0 && t.last() == '\r' {
            t.drop_last()
        } else {
            t
        }
    } else {
        s
    }
}

/// Removes one trailing newline (and a carriage return before it) from a line
/// read interactively.
pub fn strip_line_ending(s: &str) -> (r: String)
    ensures
        r@ == spec_strip_line_ending(s@),
{
    let n = s.unicode_len();
    if n > 0 && s.get_char(n - 1) == '\n' {
        if n > 1 && s.get_char(n - 2) == '\r' {
            let r = String::from_str(s.substring_char(0, n - 2));
            proof {
                assert(r@ =~= spec_strip_line_ending(s@));
            }
            r
        } else {
            let r = String::from_str(s.substring_char(0, n - 1));
            proof {
                assert(r@ =~= spec_strip_line_ending(s@));
            }
            r
        }
    } else {
        String::from_str(s)
    }
}


/// The prompt text the interactive command line sends for one turn, in the
/// format of the model family: an open-chat turn, a zephyr turn (with the
/// system header on the first turn and in interactive mode), a Mistral
/// instruction, or the raw line.
pub fn cli_prompt_of(
    model_id: ModelId,
    prompt: &String,
    prompt_index: usize,
    is_interactive: bool,
) -> (r: String)
    ensures
        spec_is_zephyr(model_id) && (prompt_index == 0 || is_interactive) ==> r@
            == "<|system|>\n</s>\n<|user|>\n"@ + prompt@ + "</s>\n<|assistant|>"@,
        spec_is_zephyr(model_id) && !(prompt_index == 0 || is_interactive) ==> r@ == "<|user|>\n"@
            + prompt@ + "</s>\n<|assistant|>"@,
        !spec_is_zephyr(model_id) && spec_is_mistral(model_id) ==> r@ == "[INST] "@ + prompt@
            + " [/INST]"@,
        !spec_is_zephyr(model_id) && !spec_is_mistral(model_id) ==> r@ == prompt@,
{
    if model_id.is_open_chat() {
        let mut s = String::from_str("GPT4 Correct User: ");
        s.append(prompt.as_str());
        s.append("<|end_of_turn|>GPT4 Correct Assistant:");
        s
    } else if model_id.is_zephyr() {
        if prompt_index == 0 || is_interactive {
            let mut s = String::from_str("<|system|>\n</s>\n<|user|>\n");
            s.append(prompt.as_str());
            s.append("</s>\n<|assistant|>");
            s
        } else {
            let mut s = String::from_str("<|user|>\n");
            s.append(prompt.as_str());
            s.append("</s>\n<|assistant|>");
            s
        }
    } else if model_id.is_mistral() {
        let mut s = String::from_str("[INST] ");
        s.append(prompt.as_str());
        s.append(" [/INST]");
        s
    } else {
        prompt.clone()
    }
}

} // verus!
