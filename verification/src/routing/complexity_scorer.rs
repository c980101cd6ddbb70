use vstd::prelude::*;
use crate::text::{chars_of, count_occurrences, count_words, occurrences, word_count};

verus! {

/// Programming-language keywords.
pub const CODE_PATTERN: &'static str =
    "(?i)(fn |impl |class |def |function |var |let |const |import |from |=>|async |await)";

/// Arithmetic expressions, mathematical symbols and vocabulary.
pub const MATH_PATTERN: &'static str =
    "[0-9]+\\s*[\\+\\-\\*/]\\s*[0-9]+|\u{2211}|\u{220F}|\u{222B}|\u{221A}|\u{3C0}|equation|formula|calculate|compute|derivative|integral";

/// Connectives of logical reasoning.
pub const LOGIC_PATTERN: &'static str =
    "(?i)(if |then |else |and |or |not |therefore |thus |because |implies |logical|reasoning|inference|deduction)";

/// Vocabulary of creative writing.
pub const CREATIVE_PATTERN: &'static str =
    "(?i)(story|poem|novel|narrative|creative|write|compose|imagine|fictional|character|dialogue|scene)";

/// Vocabulary of data extraction.
pub const DATA_PATTERN: &'static str =
    "(?i)(extract|parse|structure|json|csv|table|database|schema|data|analyze|statistics)";

/// Whether the regular expression `pattern` compiles and has a match in `text`
/// (`regex::Regex::find` returns `Some`).
pub uninterp spec fn regex_finds(pattern: Seq<char>, text: Seq<char>) -> bool;

/// The number of successive non-overlapping matches of the regular expression
/// `pattern` in `text` (`regex::Regex::find_iter(..).count()`); 0 where it does not compile.
pub uninterp spec fn regex_match_count(pattern: Seq<char>, text: Seq<char>) -> nat;

/// Compiles `pattern` with `regex::Regex::new` and calls `Regex::find` on `text`.
/// Claims only that the answer is the named function of the two strings.
#[verifier::external_body]
fn regex_find(pattern: &str, text: &str) -> (r: bool)
    ensures
        r == regex_finds(pattern@, text@),
{
    match regex::Regex::new(pattern) {
        Ok(re) => re.find(text).is_some(),
        Err(_) => false,
    }
}

/// Compiles `pattern` with `regex::Regex::new` and counts `Regex::find_iter` on `text`.
/// Claims only that the answer is the named function of the two strings.
#[verifier::external_body]
fn regex_count(pattern: &str, text: &str) -> (r: usize)
    ensures
        r as nat == regex_match_count(pattern@, text@),
{
    match regex::Regex::new(pattern) {
        Ok(re) => re.find_iter(text).count(),
        Err(_) => 0,
    }
}

/// What the score of a prompt is computed from: its size in bytes and words, which
/// patterns it matches, how often the math pattern matches, and how often it says "and then"
/// and ";".
#[derive(Debug, Clone, Copy)]
pub struct PromptFeatures {
    pub bytes: usize,
    pub words: usize,
    pub has_code: bool,
    pub math_matches: usize,
    pub has_math: bool,
    pub has_logic: bool,
    pub has_creative: bool,
    pub has_data: bool,
    pub and_then_count: usize,
    pub semicolons: usize,
}

/// The unclamped points of a prompt's features, starting from 1.
pub open spec fn raw_score(f: PromptFeatures) -> int {
    1 + length_points(f.bytes as nat) + vocabulary_points(f.words as nat) + (if f.has_code {
        3int
    } else {
        0int
    }) + math_points(f.math_matches as nat) + (if f.has_logic {
        2int
    } else {
        0int
    }) - (if f.has_creative && !f.has_code && !f.has_math {
        1int
    } else {
        0int
    }) + (if f.has_data {
        2int
    } else {
        0int
    }) + (if f.and_then_count > 1 || f.semicolons > 2 {
        2int
    } else {
        0int
    })
}

/// Points clamped to a score from 1 to 10.
pub open spec fn clamp_score(r: int) -> u8 {
    if r < 1 {
        1
    } else if r > 10 {
        10
    } else {
        r as u8
    }
}

/// Scores prompts by how much work they are likely to need.
pub struct ComplexityScorer;

/// The resources a request of some complexity may use.
#[derive(Debug, Clone)]
pub struct ResourceBudget {
    pub max_vram_mb: usize,
    pub max_latency_ms: u64,
    pub preferred_model_size: String,
    pub parallel_models: usize,
}

impl Default for ResourceBudget {
    fn default() -> (b: Self)
        ensures
            b.max_vram_mb == 1024,
            b.max_latency_ms == 500,
            b.preferred_model_size@ == "1B"@,
            b.parallel_models == 1,
    {
        ResourceBudget {
            max_vram_mb: 1024,
            max_latency_ms: 500,
            preferred_model_size: String::from_str("1B"),
            parallel_models: 1,
        }
    }
}

/// The budget of a complexity score, as (VRAM MB, latency ms, model size, parallel models).
pub open spec fn budget_of(score: u8) -> (usize, u64, Seq<char>, usize) {
    if 1 <= score <= 3 {
        (512, 100, "1B"@, 1)
    } else if 4 <= score <= 7 {
        (2048, 500, "3B"@, 2)
    } else if 8 <= score <= 10 {
        (4096, 2000, "7B+"@, 3)
    } else {
        (1024, 500, "1B"@, 1)
    }
}

/// Points for the prompt's length in bytes.
pub open spec fn length_points(bytes: nat) -> int {
    if bytes > 1000 {
        3
    } else if bytes > 500 {
        2
    } else if bytes > 200 {
        1
    } else {
        0
    }
}

/// Points for the prompt's number of words.
pub open spec fn vocabulary_points(words: nat) -> int {
    if words > 200 {
        2
    } else if words > 100 {
        1
    } else {
        0
    }
}

/// Points for the number of mathematical matches.
pub open spec fn math_points(matches: nat) -> int {
    if matches > 5 {
        3
    } else if matches > 0 {
        1
    } else {
        0
    }
}

/// Whether a prompt reads as creative writing and nothing more technical.
pub open spec fn creative_only(p: Seq<char>) -> bool {
    regex_finds(CREATIVE_PATTERN@, p) && !regex_finds(CODE_PATTERN@, p) && !regex_finds(
        MATH_PATTERN@,
        p,
    )
}

/// Whether a prompt chains several tasks.
pub open spec fn multi_step(p: Seq<char>) -> bool {
    occurrences(p, "and then"@) > 1 || occurrences(p, seq![';']) > 2
}

/// The unclamped sum of the points of a prompt `p` of `bytes` bytes, starting from 1.
pub open spec fn raw_complexity(p: Seq<char>, bytes: nat) -> int {
    1 + length_points(bytes) + vocabulary_points(word_count(p)) + (if regex_finds(
        CODE_PATTERN@,
        p,
    ) {
        3int
    } else {
        0int
    }) + math_points(regex_match_count(MATH_PATTERN@, p)) + (if regex_finds(LOGIC_PATTERN@, p) {
        2int
    } else {
        0int
    }) - (if creative_only(p) {
        1int
    } else {
        0int
    }) + (if regex_finds(DATA_PATTERN@, p) {
        2int
    } else {
        0int
    }) + (if multi_step(p) {
        2int
    } else {
        0int
    })
}

/// The complexity score of a prompt `p` of `bytes` bytes: its points clamped to 1..=10.
pub open spec fn complexity_of(p: Seq<char>, bytes: nat) -> u8 {
    clamp_score(raw_complexity(p, bytes))
}

/// The tier name of a complexity score.
pub open spec fn tier_of(score: u8) -> Seq<char> {
    if 1 <= score <= 3 {
        "instant"@
    } else if 4 <= score <= 7 {
        "analytical"@
    } else if 8 <= score <= 10 {
        "expert"@
    } else {
        "unknown"@
    }
}

/// Every prompt scores from 1 to 10.
pub proof fn law_score_in_range(p: Seq<char>, bytes: nat)
    ensures
        1 <= complexity_of(p, bytes) <= 10,
{
}

/// Every score the scorer gives has a tier: instant, analytical or expert.
pub proof fn law_every_score_has_a_tier(p: Seq<char>, bytes: nat)
    ensures
        tier_of(complexity_of(p, bytes)) == "instant"@ || tier_of(complexity_of(p, bytes))
            == "analytical"@ || tier_of(complexity_of(p, bytes)) == "expert"@,
{
}

/// The budget follows the tier: an instant score gets one 1B model with 512 MB and 100 ms,
/// an analytical score two 3B models with 2048 MB and 500 ms, an expert score three 7B+
/// models with 4096 MB and 2000 ms.
pub proof fn law_budget_follows_tier(score: u8)
    ensures
        tier_of(score) == "instant"@ ==> budget_of(score) == (512usize, 100u64, "1B"@, 1usize),
        tier_of(score) == "analytical"@ ==> budget_of(score) == (2048usize, 500u64, "3B"@, 2usize),
        tier_of(score) == "expert"@ ==> budget_of(score) == (4096usize, 2000u64, "7B+"@, 3usize),
        1 <= score <= 3 <==> tier_of(score) == "instant"@,
        4 <= score <= 7 <==> tier_of(score) == "analytical"@,
        8 <= score <= 10 <==> tier_of(score) == "expert"@,
{
    reveal_strlit("instant");
    reveal_strlit("analytical");
    reveal_strlit("expert");
    reveal_strlit("unknown");
    assert("instant"@[0] != "analytical"@[0]);
    assert("instant"@[0] != "expert"@[0]);
    assert("instant"@[0] != "unknown"@[0]);
    assert("analytical"@[0] != "expert"@[0]);
    assert("analytical"@[0] != "unknown"@[0]);
    assert("expert"@[0] != "unknown"@[0]);
}

/// A harder prompt never gets a smaller budget: VRAM, latency and parallel models do not
/// shrink as the score grows.
pub proof fn law_budget_grows_with_score(a: u8, b: u8)
    requires
        1 <= a <= b <= 10,
    ensures
        budget_of(a).0 <= budget_of(b).0,
        budget_of(a).1 <= budget_of(b).1,
        budget_of(a).3 <= budget_of(b).3,
{
}

impl ComplexityScorer {
    /// A complexity score from 1 to 10 for a prompt, from its length, its vocabulary, and
    /// which of the code, math, logic, creative and data patterns it matches.
    pub fn calculate_complexity(prompt: &str) -> (score: u8)
        ensures
            score == complexity_of(prompt@, prompt.len() as nat),
            1 <= score <= 10,
    {
        let chars = chars_of(prompt);
        let and_then = chars_of("and then");
        let semicolon = chars_of(";");
        proof {
            reveal_strlit("and then");
            reveal_strlit(";");
            assert(semicolon@ =~= seq![';']);
        }
        let features = PromptFeatures {
            bytes: prompt.len(),
            words: count_words(&chars),
            has_code: regex_find(CODE_PATTERN, prompt),
            math_matches: regex_count(MATH_PATTERN, prompt),
            has_math: regex_find(MATH_PATTERN, prompt),
            has_logic: regex_find(LOGIC_PATTERN, prompt),
            has_creative: regex_find(CREATIVE_PATTERN, prompt),
            has_data: regex_find(DATA_PATTERN, prompt),
            and_then_count: count_occurrences(&chars, &and_then),
            semicolons: count_occurrences(&chars, &semicolon),
        };
        Self::score_features(&features)
    }

    /// The score of a prompt with these features: 1, plus points for length, vocabulary,
    /// code, math, logic, data and several steps, less one for creative writing alone,
    /// clamped to 1..=10.
    pub fn score_features(f: &PromptFeatures) -> (score: u8)
        ensures
            score == clamp_score(raw_score(*f)),
            1 <= score <= 10,
    {
        let mut score: u8 = 1;
        if f.bytes > 1000 {
            score = score.saturating_add(3);
        } else if f.bytes > 500 {
            score = score.saturating_add(2);
        } else if f.bytes > 200 {
            score = score.saturating_add(1);
        }
        if f.words > 200 {
            score = score.saturating_add(2);
        } else if f.words > 100 {
            score = score.saturating_add(1);
        }
        if f.has_code {
            score = score.saturating_add(3);
        }
        if f.math_matches > 5 {
            score = score.saturating_add(3);
        } else if f.math_matches > 0 {
            score = score.saturating_add(1);
        }
        if f.has_logic {
            score = score.saturating_add(2);
        }
        if f.has_creative && !f.has_code && !f.has_math {
            score = score.saturating_sub(1);
        }
        if f.has_data {
            score = score.saturating_add(2);
        }
        if f.and_then_count > 1 || f.semicolons > 2 {
            score = score.saturating_add(2);
        }
        if score < 1 {
            1
        } else if score > 10 {
            10
        } else {
            score
        }
    }

    /// The resource budget for a complexity score.
    pub fn calculate_resource_budget(score: u8) -> (b: ResourceBudget)
        ensures
            (b.max_vram_mb, b.max_latency_ms, b.preferred_model_size@, b.parallel_models)
                == budget_of(score),
    {
        match score {
            1..=3 => ResourceBudget {
                max_vram_mb: 512,
                max_latency_ms: 100,
                preferred_model_size: String::from_str("1B"),
                parallel_models: 1,
            },
            4..=7 => ResourceBudget {
                max_vram_mb: 2048,
                max_latency_ms: 500,
                preferred_model_size: String::from_str("3B"),
                parallel_models: 2,
            },
            8..=10 => ResourceBudget {
                max_vram_mb: 4096,
                max_latency_ms: 2000,
                preferred_model_size: String::from_str("7B+"),
                parallel_models: 3,
            },
            _ => ResourceBudget::default(),
        }
    }

    /// Whether a score calls for consensus from several models.
    pub fn requires_consensus(score: u8, threshold: u8) -> (r: bool)
        ensures
            r == (score >= threshold),
    {
        score >= threshold
    }

    /// The descriptive tier of a score.
    pub fn get_tier(score: u8) -> (t: &'static str)
        ensures
            t@ == tier_of(score),
    {
        match score {
            1..=3 => "instant",
            4..=7 => "analytical",
            8..=10 => "expert",
            _ => "unknown",
        }
    }
}

} // verus!
