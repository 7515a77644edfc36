//! The evidence-relevance calibration study: provider identities, per-case
//! execution budgets, token usage totals, the lexical baseline's tokenizer and
//! nearest-rank latency percentiles.
use vstd::prelude::*;
use crate::order;
use crate::terms;
use crate::text;
use crate::text::{char_is_alphanumeric, char_to_lowercase, split_whitespace, string_of};

verus! {

/// Model calls one qualification stage may make.
pub const QUALIFICATION_STAGE_MAX_MODEL_CALLS: u32 = 2;
/// Output token budget of Groq's strict JSON text transport.
pub const GROQ_STRICT_JSON_TEXT_MAX_TOKENS: u32 = 512;
/// Cases in the calibration suite.
pub const EXPECTED_CASES: usize = 48;
/// Provider wait allowed per case, in milliseconds.
pub const PROVIDER_WAIT_BUDGET_MS: u64 = 45000;
/// Longest single provider wait, in milliseconds.
pub const MAX_SINGLE_PROVIDER_WAIT_MS: u64 = 30000;
/// Wall-clock bound of one case, in milliseconds.
pub const ABSOLUTE_CASE_BUDGET_MS: u64 = 120000;
/// Consecutive operational provider failures after which a run stops, unless
/// told to continue.
pub const DEFAULT_MAX_CONSECUTIVE_OPERATIONAL_FAILURES: usize = 2;
/// Consecutive capacity failures after which a run stops, unless told to
/// continue.
pub const DEFAULT_MAX_CONSECUTIVE_CAPACITY_FAILURES: usize = 2;

/// Providers the study can run against.
#[derive(Debug, Clone, Copy, PartialEq, Eq, Structural)]
pub enum Provider {
    Mistral,
    Google,
    Nvidia,
    Groq,
}

impl Provider {
    /// The lowercase name of the provider.
    pub open spec fn name_spec(self) -> Seq<char> {
        match self {
            Provider::Mistral => "mistral"@,
            Provider::Google => "google"@,
            Provider::Nvidia => "nvidia"@,
            Provider::Groq => "groq"@,
        }
    }

    /// The lowercase name of the provider.
    pub fn name(self) -> (r: &'static str)
        ensures
            r@ == self.name_spec(),
    {
        match self {
            Provider::Mistral => "mistral",
            Provider::Google => "google",
            Provider::Nvidia => "nvidia",
            Provider::Groq => "groq",
        }
    }
}

/// Token usage reported by one model call; absent counts are unknown.
#[derive(Debug, Clone, Copy, PartialEq, Eq, Structural)]
pub struct ModelUsage {
    pub input_tokens: Option<u64>,
    pub output_tokens: Option<u64>,
    pub total_tokens: Option<u64>,
}

/// Token totals of a case or a study.
#[derive(Debug, Clone, Copy, PartialEq, Eq, Structural)]
pub struct UsageSummary {
    pub input_tokens: u64,
    pub output_tokens: u64,
    pub total_tokens: u64,
}

/// A reported count, zero when unknown.
pub open spec fn known_or_zero(count: Option<u64>) -> u64 {
    match count {
        Some(n) => n,
        None => 0,
    }
}

/// `a + b`, held at the largest `u64`.
pub open spec fn saturating_add_u64(a: u64, b: u64) -> u64 {
    if a + b > u64::MAX {
        u64::MAX
    } else {
        (a + b) as u64
    }
}

impl UsageSummary {
    /// No tokens yet.
    pub fn new() -> (r: Self)
        ensures
            r == (UsageSummary { input_tokens: 0, output_tokens: 0, total_tokens: 0 }),
    {
        UsageSummary { input_tokens: 0, output_tokens: 0, total_tokens: 0 }
    }

    /// Adds a call's reported usage, counting unknown counts as zero.
    pub fn add(&mut self, usage: &ModelUsage)
        requires
            old(self).input_tokens + known_or_zero(usage.input_tokens) <= u64::MAX,
            old(self).output_tokens + known_or_zero(usage.output_tokens) <= u64::MAX,
            old(self).total_tokens + known_or_zero(usage.total_tokens) <= u64::MAX,
        ensures
            final(self).input_tokens == old(self).input_tokens + known_or_zero(usage.input_tokens),
            final(self).output_tokens == old(self).output_tokens + known_or_zero(usage.output_tokens),
            final(self).total_tokens == old(self).total_tokens + known_or_zero(usage.total_tokens),
    {
        let input = match usage.input_tokens {
            Some(n) => n,
            None => 0,
        };
        let output = match usage.output_tokens {
            Some(n) => n,
            None => 0,
        };
        let total = match usage.total_tokens {
            Some(n) => n,
            None => 0,
        };
        self.input_tokens = self.input_tokens + input;
        self.output_tokens = self.output_tokens + output;
        self.total_tokens = self.total_tokens + total;
    }

    /// Adds another summary, each total held at the largest `u64`.
    pub fn add_summary(&mut self, other: &Self)
        ensures
            final(self).input_tokens == saturating_add_u64(old(self).input_tokens, other.input_tokens),
            final(self).output_tokens == saturating_add_u64(old(self).output_tokens, other.output_tokens),
            final(self).total_tokens == saturating_add_u64(old(self).total_tokens, other.total_tokens),
    {
        self.input_tokens = self.input_tokens.saturating_add(other.input_tokens);
        self.output_tokens = self.output_tokens.saturating_add(other.output_tokens);
        self.total_tokens = self.total_tokens.saturating_add(other.total_tokens);
    }
}

/// Time a provider call spent, as its telemetry reports it.
#[derive(Debug, Clone, Copy, PartialEq, Eq, Structural)]
pub struct ExecutionSummary {
    pub provider_attempts_started: u64,
    pub provider_attempts_completed: u64,
    pub active_ms: u64,
    pub wait_ms: u64,
    pub pacing_wait_ms: u64,
    pub retry_wait_ms: u64,
}

/// The limits handed to the provider for one call.
#[derive(Debug, Clone, Copy, PartialEq, Eq, Structural)]
pub struct ModelExecutionBudget {
    pub max_active_ms: u64,
    pub max_wait_ms: u64,
    pub max_single_wait_ms: u64,
}

/// What is left of a case's execution budget. The wall-clock deadline is kept
/// by the caller.
#[derive(Debug, Clone, Copy, PartialEq, Eq, Structural)]
pub struct CaseExecutionBudget {
    pub remaining_active_ms: u64,
    pub remaining_wait_ms: u64,
    pub max_single_wait_ms: u64,
}

/// `a - b`, held at zero.
pub open spec fn saturating_sub_u64(a: u64, b: u64) -> u64 {
    if a >= b {
        (a - b) as u64
    } else {
        0
    }
}

impl CaseExecutionBudget {
    /// A fresh budget: the given active time and the study's wait allowances.
    pub fn new(active_ms: u64) -> (r: Self)
        ensures
            r == (CaseExecutionBudget {
                remaining_active_ms: active_ms,
                remaining_wait_ms: PROVIDER_WAIT_BUDGET_MS,
                max_single_wait_ms: MAX_SINGLE_PROVIDER_WAIT_MS,
            }),
    {
        CaseExecutionBudget {
            remaining_active_ms: active_ms,
            remaining_wait_ms: PROVIDER_WAIT_BUDGET_MS,
            max_single_wait_ms: MAX_SINGLE_PROVIDER_WAIT_MS,
        }
    }

    /// The limits of the next call: what remains, and no single wait longer
    /// than the remaining wait.
    pub fn provider_budget(&self) -> (r: ModelExecutionBudget)
        ensures
            r.max_active_ms == self.remaining_active_ms,
            r.max_wait_ms == self.remaining_wait_ms,
            r.max_single_wait_ms == (if self.max_single_wait_ms <= self.remaining_wait_ms {
                self.max_single_wait_ms
            } else {
                self.remaining_wait_ms
            }),
    {
        let single = if self.max_single_wait_ms <= self.remaining_wait_ms {
            self.max_single_wait_ms
        } else {
            self.remaining_wait_ms
        };
        ModelExecutionBudget {
            max_active_ms: self.remaining_active_ms,
            max_wait_ms: self.remaining_wait_ms,
            max_single_wait_ms: single,
        }
    }

    /// Charges a finished call's active and wait time, never below zero.
    pub fn consume(&mut self, execution: ExecutionSummary)
        ensures
            final(self).remaining_active_ms == saturating_sub_u64(old(self).remaining_active_ms, execution.active_ms),
            final(self).remaining_wait_ms == saturating_sub_u64(old(self).remaining_wait_ms, execution.wait_ms),
            final(self).max_single_wait_ms == old(self).max_single_wait_ms,
    {
        self.remaining_active_ms = self.remaining_active_ms.saturating_sub(execution.active_ms);
        self.remaining_wait_ms = self.remaining_wait_ms.saturating_sub(execution.wait_ms);
    }
}

/// A budget never grows: charging a call leaves at most what was there.
pub proof fn consuming_never_grows_the_budget(before: CaseExecutionBudget, execution: ExecutionSummary)
    ensures
        saturating_sub_u64(before.remaining_active_ms, execution.active_ms) <= before.remaining_active_ms,
        saturating_sub_u64(before.remaining_wait_ms, execution.wait_ms) <= before.remaining_wait_ms,
{
}

// ---------------------------------------------------------------------------
// Lexical tokens.
// ---------------------------------------------------------------------------

/// Every character lowercased with `char::to_lowercase`, in order.
pub open spec fn lowered_chars(s: Seq<char>) -> Seq<char>
    decreases s.len(),
{
    if s.len() == 0 {
        Seq::empty()
    } else {
        lowered_chars(s.drop_last()) + text::unicode_char_lowercase(s.last())
    }
}

/// Non-alphanumeric characters replaced by spaces.
pub open spec fn alphanumeric_or_space(s: Seq<char>) -> Seq<char> {
    Seq::new(s.len(), |i: int| if text::unicode_alphanumeric(s[i]) { s[i] } else { ' ' })
}

/// The lexical tokens of a text: lowercased, split at every character that is
/// not alphanumeric.
pub open spec fn normalized_token_seq(value: Seq<char>) -> Seq<Seq<char>> {
    text::words(alphanumeric_or_space(lowered_chars(value)))
}


/// The lowercase alphanumeric tokens of a text.
pub fn normalized_tokens(value: &str) -> (r: Vec<String>)
    ensures
        terms::strings_view(r@) == normalized_token_seq(value@),
{
    let chars = text::chars_of(value);
    let mut mapped: Vec<char> = Vec::new();
    let mut i: usize = 0;
    while i < chars.len()
        invariant
            i <= chars.len(),
            mapped@ == alphanumeric_or_space(lowered_chars(chars@.subrange(0, i as int))),
        decreases chars.len() - i,
    {
        let lower = char_to_lowercase(chars[i]);
        let ghost before = mapped@;
        let mut k: usize = 0;
        while k < lower.len()
            invariant
                k <= lower.len(),
                mapped@ == before + alphanumeric_or_space(lower@.subrange(0, k as int)),
            decreases lower.len() - k,
        {
            let c = lower[k];
            if char_is_alphanumeric(c) {
                mapped.push(c);
            } else {
                mapped.push(' ');
            }
            k = k + 1;
            assert(mapped@ =~= before + alphanumeric_or_space(lower@.subrange(0, k as int)));
        }
        proof {
            let prefix = chars@.subrange(0, i as int);
            let next = chars@.subrange(0, i + 1);
            assert(next.drop_last() =~= prefix);
            assert(lower@.subrange(0, lower@.len() as int) =~= lower@);
            assert(lowered_chars(next) == lowered_chars(prefix) + lower@);
            assert(alphanumeric_or_space(lowered_chars(prefix) + lower@) =~= alphanumeric_or_space(lowered_chars(prefix))
                + alphanumeric_or_space(lower@));
        }
        i = i + 1;
    }
    assert(chars@.subrange(0, chars.len() as int) =~= chars@);
    let words = split_whitespace(&mapped);
    let mut r: Vec<String> = Vec::new();
    let mut j: usize = 0;
    while j < words.len()
        invariant
            j <= words.len(),
            r@.len() == j,
            words@.len() == text::words(mapped@).len(),
            forall|k: int| 0 <= k < words@.len() ==> #[trigger] words@[k]@ == text::words(mapped@)[k],
            forall|k: int| 0 <= k < j ==> #[trigger] r@[k]@ == text::words(mapped@)[k],
        decreases words.len() - j,
    {
        r.push(string_of(&words[j]));
        j = j + 1;
    }
    assert(terms::strings_view(r@) =~= normalized_token_seq(value@));
    r
}

/// Where a candidate's evidence belongs with respect to the target.
#[derive(Debug, Clone, Copy, PartialEq, Eq, Structural)]
pub enum Disposition {
    Relevant,
    Irrelevant,
    Ambiguous,
}

/// The kind of a candidate's signal, as far as the lexical baseline tells
/// kinds apart.
#[derive(Debug, Clone, Copy, PartialEq, Eq, Structural)]
pub enum SignalKind {
    CanonicalUrl,
    NavigationOrFooter,
    Other,
}

/// One textual signal of a candidate.
#[derive(Debug)]
pub struct Signal {
    pub kind: SignalKind,
    pub text: String,
}

/// The target entity of a relevance policy: its canonical name and aliases.
#[derive(Debug)]
pub struct TargetEntity {
    pub canonical_name: String,
    pub aliases: Vec<String>,
}

/// The names of an entity: the canonical name, then the aliases.
pub open spec fn entity_names(e: TargetEntity) -> Seq<Seq<char>> {
    seq![e.canonical_name@] + terms::strings_view(e.aliases@)
}

/// Every token of the name occurs among the signal's tokens.
pub open spec fn tokens_cover(name: Seq<Seq<char>>, signal: Seq<Seq<char>>) -> bool {
    forall|k: int| 0 <= k < name.len() ==> signal.contains(#[trigger] name[k])
}

/// Signals the baseline reads: neither canonical URLs nor navigation.
pub open spec fn considered(kind: SignalKind) -> bool {
    kind != SignalKind::CanonicalUrl && kind != SignalKind::NavigationOrFooter
}

/// A considered signal whose tokens cover those of some name with tokens.
pub open spec fn signal_names_entity(names: Seq<Seq<char>>, signal: Signal) -> bool {
    &&& considered(signal.kind)
    &&& exists|j: int| 0 <= j < names.len() && (#[trigger] normalized_token_seq(names[j])).len() > 0
        && tokens_cover(normalized_token_seq(names[j]), normalized_token_seq(signal.text@))
}

/// The lexical baseline's disposition: relevant when some considered signal
/// names the target entity, ambiguous otherwise and without an entity.
pub open spec fn lexical_baseline(entity: Option<TargetEntity>, signals: Seq<Signal>) -> Disposition {
    match entity {
        None => Disposition::Ambiguous,
        Some(e) => if exists|i: int| 0 <= i < signals.len() && signal_names_entity(entity_names(e), #[trigger] signals[i]) {
            Disposition::Relevant
        } else {
            Disposition::Ambiguous
        },
    }
}

/// Whether every token of `name` is among `signal`.
fn tokens_covered(name: &Vec<String>, signal: &Vec<String>) -> (r: bool)
    ensures
        r == tokens_cover(terms::strings_view(name@), terms::strings_view(signal@)),
{
    let mut k: usize = 0;
    while k < name.len()
        invariant
            k <= name.len(),
            forall|m: int| 0 <= m < k ==> terms::strings_view(signal@).contains(#[trigger] terms::strings_view(name@)[m]),
        decreases name.len() - k,
    {
        if !terms::contains_string(signal, &name[k]) {
            assert(terms::strings_view(name@)[k as int] == name@[k as int]@);
            return false;
        }
        k = k + 1;
    }
    true
}

/// The disposition of a lexical baseline that only looks for the target's
/// names among the candidate's signals.
pub fn simple_lexical_baseline(entity: &Option<TargetEntity>, signals: &Vec<Signal>) -> (r: Disposition)
    ensures
        r == lexical_baseline(*entity, signals@),
{
    let e = match entity {
        None => {
            return Disposition::Ambiguous;
        },
        Some(e) => e,
    };
    let ghost names = entity_names(*e);
    let mut name_tokens: Vec<Vec<String>> = Vec::new();
    name_tokens.push(normalized_tokens(e.canonical_name.as_str()));
    let mut a: usize = 0;
    while a < e.aliases.len()
        invariant
            a <= e.aliases.len(),
            names == entity_names(*e),
            name_tokens@.len() == a + 1,
            forall|m: int| 0 <= m < a + 1 ==> terms::strings_view((#[trigger] name_tokens@[m])@) == normalized_token_seq(names[m]),
        decreases e.aliases.len() - a,
    {
        name_tokens.push(normalized_tokens(e.aliases[a].as_str()));
        a = a + 1;
    }
    let mut i: usize = 0;
    while i < signals.len()
        invariant
            i <= signals.len(),
            names == entity_names(*e),
            *entity == Some(*e),
            name_tokens@.len() == names.len(),
            forall|m: int| 0 <= m < names.len() ==> terms::strings_view((#[trigger] name_tokens@[m])@) == normalized_token_seq(names[m]),
            forall|k: int| 0 <= k < i ==> !signal_names_entity(names, #[trigger] signals@[k]),
        decreases signals.len() - i,
    {
        let signal = &signals[i];
        let skip = match signal.kind {
            SignalKind::CanonicalUrl | SignalKind::NavigationOrFooter => true,
            SignalKind::Other => false,
        };
        if !skip {
            let signal_tokens = normalized_tokens(signal.text.as_str());
            let mut j: usize = 0;
            while j < name_tokens.len()
                invariant
                    j <= name_tokens@.len(),
                    i < signals@.len(),
                    names == entity_names(*e),
                    *entity == Some(*e),
                    *signal == signals@[i as int],
                    considered(signal.kind),
                    name_tokens@.len() == names.len(),
                    forall|m: int| 0 <= m < names.len() ==> terms::strings_view((#[trigger] name_tokens@[m])@) == normalized_token_seq(names[m]),
                    terms::strings_view(signal_tokens@) == normalized_token_seq(signal.text@),
                    forall|m: int| 0 <= m < j ==> !((#[trigger] normalized_token_seq(names[m])).len() > 0
                        && tokens_cover(normalized_token_seq(names[m]), normalized_token_seq(signal.text@))),
                decreases name_tokens.len() - j,
            {
                let nonempty = name_tokens[j].len() > 0;
                if nonempty && tokens_covered(&name_tokens[j], &signal_tokens) {
                    assert(normalized_token_seq(names[j as int]).len() > 0);
                    assert(signal_names_entity(names, signals@[i as int]));
                    return Disposition::Relevant;
                }
                j = j + 1;
            }
        }
        i = i + 1;
    }
    Disposition::Ambiguous
}

// ---------------------------------------------------------------------------
// Latency percentiles.
// ---------------------------------------------------------------------------

/// A percentile held to 1 through 100.
pub open spec fn clamp_percentile(p: usize) -> usize {
    if p < 1 {
        1
    } else if p > 100 {
        100
    } else {
        p
    }
}

/// The nearest rank of a percentile over `len` samples, as computed with
/// saturating `usize` arithmetic: `ceil(p * len / 100)`.
pub open spec fn nearest_rank(len: usize, p: usize) -> usize {
    let q = clamp_percentile(p);
    let product = if q * len > usize::MAX { usize::MAX } else { (q * len) as usize };
    let padded = if product + 99 > usize::MAX { usize::MAX } else { (product + 99) as usize };
    (padded / 100) as usize
}

/// The nearest-rank percentile of the samples: the sample at that rank in
/// ascending order, none for no samples.
pub open spec fn percentile_latency_spec(values: Seq<u128>, p: usize) -> Option<u128> {
    if values.len() == 0 {
        None
    } else {
        let rank = nearest_rank(values.len() as usize, p);
        let index = if rank == 0 { 0 } else { rank - 1 };
        let sorted = values.sort_by(order::ascending_u128());
        if index < sorted.len() {
            Some(sorted[index])
        } else {
            None
        }
    }
}

/// The nearest-rank percentile of latency samples.
pub fn percentile_latency(values: &[u128], percentile: usize) -> (r: Option<u128>)
    ensures
        r == percentile_latency_spec(values@, percentile),
{
    if values.len() == 0 {
        return None;
    }
    let sorted = order::sort_u128(values);
    proof {
        order::sorted_samples_keep_their_values_u128(values@);
    }
    let p = if percentile < 1 {
        1
    } else if percentile > 100 {
        100
    } else {
        percentile
    };
    let product = match p.checked_mul(sorted.len()) {
        Some(x) => x,
        None => usize::MAX,
    };
    let rank = product.saturating_add(99) / 100;
    let index = rank.saturating_sub(1);
    if index < sorted.len() {
        Some(sorted[index])
    } else {
        None
    }
}

/// A percentile of a non-empty sample is one of the samples.
pub proof fn percentile_is_a_sample(values: Seq<u128>, p: usize)
    requires
        values.len() > 0,
        values.len() <= usize::MAX,
    ensures
        percentile_latency_spec(values, p) is Some,
        values.contains(percentile_latency_spec(values, p)->0),
{
    let n = values.len() as usize;
    let q = clamp_percentile(p);
    order::sorted_samples_keep_their_values_u128(values);
    let sorted = values.sort_by(order::ascending_u128());
    let rank = nearest_rank(n, p);
    assert(rank <= n) by (nonlinear_arith)
        requires
            1 <= q <= 100,
            n >= 1,
            rank == nearest_rank(n, p),
            q == clamp_percentile(p),
            n <= usize::MAX,
    {
        let product = if q * n > usize::MAX { usize::MAX as int } else { q * n };
        if q * n > usize::MAX {
            assert(n > usize::MAX / 100);
        }
    }
    let index = if rank == 0 { 0 } else { rank - 1 };
    broadcast use vstd::seq_lib::group_to_multiset_ensures;
    assert(index < sorted.len());
    assert(sorted.contains(sorted[index as int]));
    assert(sorted.to_multiset().count(sorted[index as int]) > 0);
    assert(values.to_multiset().count(sorted[index as int]) > 0);
}

} // verus!
