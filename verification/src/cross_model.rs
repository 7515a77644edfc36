//! The cross-model semantic-judge stability study: which provider/model
//! sources take part, in what order they run for each fixture and trial, and the
//! decision counts behind its precision, recall and coverage figures.
use vstd::prelude::*;
use crate::terms;
use crate::text;
use crate::text::{chars_eq, chars_eq_str, chars_of, split_once_char, string_of, to_ascii_lowercase, trim_chars};

verus! {

/// Providers a cross-model source can name.
#[derive(Debug, Clone, Copy, PartialEq, Eq, Structural)]
pub enum Provider {
    Mistral,
    Google,
}

/// The study corpora.
#[derive(Debug, Clone, Copy, PartialEq, Eq, Structural)]
pub enum Corpus {
    Calibration,
    HoldoutV4,
}

/// The lowercase name of a provider.
pub open spec fn provider_name_spec(provider: Provider) -> Seq<char> {
    match provider {
        Provider::Mistral => "mistral"@,
        Provider::Google => "google"@,
    }
}

/// The lowercase name of a provider.
pub fn provider_name(provider: Provider) -> (r: &'static str)
    ensures
        r@ == provider_name_spec(provider),
{
    match provider {
        Provider::Mistral => "mistral",
        Provider::Google => "google",
    }
}

/// The report name of a corpus.
pub open spec fn corpus_name_spec(corpus: Corpus) -> Seq<char> {
    match corpus {
        Corpus::Calibration => "calibration"@,
        Corpus::HoldoutV4 => "holdout_v4"@,
    }
}

/// The report name of a corpus.
pub fn corpus_name(corpus: Corpus) -> (r: &'static str)
    ensures
        r@ == corpus_name_spec(corpus),
{
    match corpus {
        Corpus::Calibration => "calibration",
        Corpus::HoldoutV4 => "holdout_v4",
    }
}

/// Where a corpus lives, relative to the checkout.
pub open spec fn corpus_relative_path_spec(corpus: Corpus) -> Seq<char> {
    match corpus {
        Corpus::Calibration => "fixtures/semantic-judges"@,
        Corpus::HoldoutV4 => "fixtures/semantic-judges-holdout-v4"@,
    }
}

/// Where a corpus lives, relative to the checkout.
pub fn corpus_relative_path(corpus: Corpus) -> (r: &'static str)
    ensures
        r@ == corpus_relative_path_spec(corpus),
{
    match corpus {
        Corpus::Calibration => "fixtures/semantic-judges",
        Corpus::HoldoutV4 => "fixtures/semantic-judges-holdout-v4",
    }
}

/// Accepts the study target only where its canonical path is the selected
/// corpus's canonical path in this checkout.
pub fn require_study_corpus(target: &str, expected: &str, corpus: Corpus) -> (r: Result<(), String>)
    ensures
        target@ == expected@ ==> r is Ok,
        target@ != expected@ ==> r is Err && r->Err_0@ == "cross-model study corpus mismatch: --corpus "@
            + corpus_name_spec(corpus) + " requires this checkout's "@ + corpus_relative_path_spec(corpus),
{
    if text::str_eq(target, expected) {
        return Ok(());
    }
    let mut message = String::from_str("cross-model study corpus mismatch: --corpus ");
    message.append(corpus_name(corpus));
    message.append(" requires this checkout's ");
    message.append(corpus_relative_path(corpus));
    Err(message)
}

/// One provider/model source of the study.
#[derive(Debug, PartialEq, Eq)]
pub struct SourceSpec {
    pub provider: Provider,
    pub model: String,
}

impl View for SourceSpec {
    type V = (Provider, Seq<char>);

    open spec fn view(&self) -> (Provider, Seq<char>) {
        (self.provider, self.model@)
    }
}

/// The identity of a source: `provider:model`.
pub open spec fn source_id(source: (Provider, Seq<char>)) -> Seq<char> {
    provider_name_spec(source.0) + ":"@ + source.1
}

/// What a `--source` value gives: a supported provider (trimmed, ASCII case
/// ignored) and a non-blank model (trimmed), separated by the first colon.
pub open spec fn source_outcome(value: Seq<char>) -> Result<(Provider, Seq<char>), Seq<char>> {
    match text::split_once(value, ':') {
        None => Err("invalid --source "@ + text::debug_quoted(value) + "; expected provider:model"@),
        Some((provider, model)) => {
            let name = text::ascii_lowercase(text::trim(provider));
            if name != "mistral"@ && name != "google"@ {
                Err("unsupported cross-model provider: "@ + name)
            } else if text::trim(model).len() == 0 {
                Err("cross-model source model must not be empty"@)
            } else {
                Ok((if name == "mistral"@ { Provider::Mistral } else { Provider::Google }, text::trim(model)))
            }
        },
    }
}

/// A source result by views.
pub open spec fn source_result_view(r: Result<SourceSpec, String>) -> Result<(Provider, Seq<char>), Seq<char>> {
    match r {
        Ok(s) => Ok(s@),
        Err(e) => Err(e@),
    }
}

impl SourceSpec {
    /// Reads a `provider:model` source.
    pub fn parse(value: &str) -> (r: Result<SourceSpec, String>)
        ensures
            source_result_view(r) == source_outcome(value@),
    {
        let chars = chars_of(value);
        let (provider, model) = match split_once_char(&chars, ':') {
            Some(parts) => parts,
            None => {
                let mut message = String::from_str("invalid --source ");
                let quoted = text::debug_str(value);
                message.append(quoted.as_str());
                message.append("; expected provider:model");
                return Err(message);
            },
        };
        let name = to_ascii_lowercase(&trim_chars(&provider));
        let provider = if chars_eq_str(&name, "mistral") {
            Provider::Mistral
        } else if chars_eq_str(&name, "google") {
            Provider::Google
        } else {
            let mut message = String::from_str("unsupported cross-model provider: ");
            let shown = string_of(&name);
            message.append(shown.as_str());
            return Err(message);
        };
        let model = trim_chars(&model);
        if model.len() == 0 {
            return Err(String::from_str("cross-model source model must not be empty"));
        }
        Ok(SourceSpec { provider, model: string_of(&model) })
    }

    /// The identity of the source: `provider:model`.
    pub fn id(&self) -> (r: String)
        ensures
            r@ == source_id(self@),
    {
        let mut out = String::from_str(provider_name(self.provider));
        out.append(":");
        out.append(self.model.as_str());
        out
    }
}

/// A provider's name is its own trimmed ASCII lowercase and holds no colon.
proof fn lemma_provider_name_plain(provider: Provider)
    ensures
        text::trim(provider_name_spec(provider)) == provider_name_spec(provider),
        text::ascii_lowercase(provider_name_spec(provider)) == provider_name_spec(provider),
        !provider_name_spec(provider).contains(':'),
        provider_name_spec(provider).len() > 0,
{
    reveal_strlit("mistral");
    reveal_strlit("google");
    let name = provider_name_spec(provider);
    assert(!text::unicode_whitespace(name[0]));
    assert(!text::unicode_whitespace(name.last()));
    assert(text::trim_start(name) == name);
    assert(text::trim_end(name) == name);
    assert(text::ascii_lowercase(name) =~= name);
}

/// Parsing the identity of a source whose model is trimmed and not empty gives
/// the source back.
pub proof fn source_id_parses_back(provider: Provider, model: Seq<char>)
    requires
        text::trim(model) == model,
        model.len() > 0,
    ensures
        source_outcome(source_id((provider, model))) == Ok::<(Provider, Seq<char>), Seq<char>>((provider, model)),
{
    reveal_strlit(":");
    lemma_provider_name_plain(provider);
    let name = provider_name_spec(provider);
    let id = source_id((provider, model));
    let n = name.len() as int;
    assert(id =~= name + seq![':'] + model);
    assert(id[n] == ':');
    assert(id.contains(':'));
    assert(text::is_first_index(id, ':', n)) by {
        assert forall|j: int| 0 <= j < n implies id[j] != ':' by {
            assert(id[j] == name[j]);
            if id[j] == ':' {
                assert(name.contains(':'));
            }
        }
    }
    let k = text::first_index(id, ':');
    assert(text::is_first_index(id, ':', k));
    assert(k == n) by {
        if k < n {
            assert(id[k] == name[k]);
            assert(name.contains(':'));
        }
    }
    assert(id.subrange(0, n) =~= name);
    assert(id.subrange(n + 1, id.len() as int) =~= model);
    reveal_strlit("mistral");
    reveal_strlit("google");
}

/// All values parsed in order, stopping at the first failure.
pub open spec fn parse_all(values: Seq<Seq<char>>) -> Result<Seq<(Provider, Seq<char>)>, Seq<char>>
    decreases values.len(),
{
    if values.len() == 0 {
        Ok(Seq::empty())
    } else {
        match source_outcome(values[0]) {
            Err(e) => Err(e),
            Ok(s) => match parse_all(values.drop_first()) {
                Err(e) => Err(e),
                Ok(rest) => Ok(seq![s] + rest),
            },
        }
    }
}

/// Already parsed sources put in front of what the rest gives.
pub open spec fn prepend_parsed(
    done: Seq<(Provider, Seq<char>)>,
    rest: Result<Seq<(Provider, Seq<char>)>, Seq<char>>,
) -> Result<Seq<(Provider, Seq<char>)>, Seq<char>> {
    match rest {
        Ok(r) => Ok(done + r),
        Err(e) => Err(e),
    }
}

/// No two sources share an identity.
pub open spec fn distinct_ids(specs: Seq<(Provider, Seq<char>)>) -> bool {
    forall|i: int, j: int| 0 <= i < j < specs.len() ==> source_id(specs[i]) != source_id(specs[j])
}

/// What the `--source` values give: at least two, each valid, all distinct.
pub open spec fn source_specs_outcome(values: Seq<Seq<char>>) -> Result<Seq<(Provider, Seq<char>)>, Seq<char>> {
    if values.len() < 2 {
        Err("R3b cross-model study requires at least two --source values"@)
    } else {
        match parse_all(values) {
            Err(e) => Err(e),
            Ok(specs) => if distinct_ids(specs) {
                Ok(specs)
            } else {
                Err("R3b cross-model study rejects duplicate provider/model sources"@)
            },
        }
    }
}

proof fn lemma_parse_all_step(values: Seq<Seq<char>>, i: int)
    requires
        0 <= i < values.len(),
    ensures
        parse_all(values.subrange(i, values.len() as int)) == match source_outcome(values[i]) {
            Err(e) => Err(e),
            Ok(s) => prepend_parsed(seq![s], parse_all(values.subrange(i + 1, values.len() as int))),
        },
{
    assert(values.subrange(i, values.len() as int).drop_first() =~= values.subrange(i + 1, values.len() as int));
}

/// Reads the study's `--source` values.
pub fn parse_source_specs(values: &[String]) -> (r: Result<Vec<SourceSpec>, String>)
    ensures
        match r {
            Ok(v) => source_specs_outcome(values@.map_values(|s: String| s@)) == Ok::<Seq<(Provider, Seq<char>)>, Seq<char>>(v@.map_values(|s: SourceSpec| s@)),
            Err(e) => source_specs_outcome(values@.map_values(|s: String| s@)) == Err::<Seq<(Provider, Seq<char>)>, Seq<char>>(e@),
        },
{
    let ghost views = values@.map_values(|s: String| s@);
    if values.len() < 2 {
        return Err(String::from_str("R3b cross-model study requires at least two --source values"));
    }
    let n = values.len();
    let mut specs: Vec<SourceSpec> = Vec::new();
    let mut i: usize = 0;
    assert(views.subrange(0, n as int) =~= views);
    while i < n
        invariant
            n == values.len(),
            n >= 2,
            i <= n,
            views == values@.map_values(|s: String| s@),
            parse_all(views) == prepend_parsed(specs@.map_values(|s: SourceSpec| s@), parse_all(views.subrange(i as int, n as int))),
        decreases n - i,
    {
        proof {
            lemma_parse_all_step(views, i as int);
        }
        match SourceSpec::parse(values[i].as_str()) {
            Ok(spec) => {
                let ghost before = specs@.map_values(|s: SourceSpec| s@);
                specs.push(spec);
                proof {
                    assert(specs@.map_values(|s: SourceSpec| s@) =~= before + seq![spec@]);
                    match parse_all(views.subrange(i + 1, n as int)) {
                        Ok(rest) => {
                            assert(before + (seq![spec@] + rest) =~= (before + seq![spec@]) + rest);
                        },
                        Err(e) => {},
                    }
                }
            },
            Err(e) => {
                return Err(e);
            },
        }
        i = i + 1;
    }
    let ghost parsed = specs@.map_values(|s: SourceSpec| s@);
    assert(views.subrange(n as int, n as int) =~= Seq::<Seq<char>>::empty());
    assert(parsed + Seq::<(Provider, Seq<char>)>::empty() =~= parsed);
    let mut ids: Vec<String> = Vec::new();
    let mut k: usize = 0;
    while k < specs.len()
        invariant
            k <= specs.len(),
            values@.len() >= 2,
            views == values@.map_values(|s: String| s@),
            parse_all(views) == Ok::<Seq<(Provider, Seq<char>)>, Seq<char>>(parsed),
            parsed == specs@.map_values(|s: SourceSpec| s@),
            ids@.len() == k,
            forall|m: int| 0 <= m < k ==> #[trigger] ids@[m]@ == source_id(parsed[m]),
        decreases specs.len() - k,
    {
        ids.push(specs[k].id());
        k = k + 1;
    }
    let mut a: usize = 0;
    while a < ids.len()
        invariant
            a <= ids.len(),
            values@.len() >= 2,
            views == values@.map_values(|s: String| s@),
            parse_all(views) == Ok::<Seq<(Provider, Seq<char>)>, Seq<char>>(parsed),
            parsed == specs@.map_values(|s: SourceSpec| s@),
            ids@.len() == parsed.len(),
            forall|m: int| 0 <= m < ids@.len() ==> #[trigger] ids@[m]@ == source_id(parsed[m]),
            forall|x: int, y: int| 0 <= x < y < parsed.len() && x < a ==> source_id(parsed[x]) != source_id(parsed[y]),
        decreases ids.len() - a,
    {
        let mut b: usize = a + 1;
        while b < ids.len()
            invariant
                a < ids.len(),
                values@.len() >= 2,
                views == values@.map_values(|s: String| s@),
                parse_all(views) == Ok::<Seq<(Provider, Seq<char>)>, Seq<char>>(parsed),
                a + 1 <= b <= ids.len(),
                ids@.len() == parsed.len(),
                forall|m: int| 0 <= m < ids@.len() ==> #[trigger] ids@[m]@ == source_id(parsed[m]),
                forall|x: int, y: int| 0 <= x < y < parsed.len() && x < a ==> source_id(parsed[x]) != source_id(parsed[y]),
                forall|y: int| a < y < b ==> source_id(parsed[a as int]) != source_id(parsed[y]),
            decreases ids.len() - b,
        {
            if ids[a] == ids[b] {
                proof {
                    assert(ids@[a as int]@ == source_id(parsed[a as int]));
                    assert(ids@[b as int]@ == source_id(parsed[b as int]));
                    assert(!distinct_ids(parsed));
                }
                return Err(String::from_str("R3b cross-model study rejects duplicate provider/model sources"));
            }
            proof {
                assert(ids@[a as int]@ == source_id(parsed[a as int]));
                assert(ids@[b as int]@ == source_id(parsed[b as int]));
            }
            b = b + 1;
        }
        a = a + 1;
    }
    Ok(specs)
}

/// Positions `0..count` rotated left by `offset`.
pub open spec fn rotation(count: nat, offset: nat) -> Seq<usize> {
    Seq::new(count, |i: int| ((i + offset) % (count as int)) as usize)
}

/// The order in which the sources run for a fixture and a trial: all of them,
/// rotated by the fixture index plus the trial.
pub fn counterbalanced_source_order(source_count: usize, fixture_index: usize, trial: usize) -> (r: Vec<usize>)
    requires
        source_count > 0,
        fixture_index + trial <= usize::MAX,
    ensures
        r@ == rotation(source_count as nat, ((fixture_index + trial) % (source_count as int)) as nat),
{
    let offset = (fixture_index + trial) % source_count;
    let mut r: Vec<usize> = Vec::new();
    let mut i: usize = offset;
    while i < source_count
        invariant
            offset < source_count,
            offset <= i <= source_count,
            r@.len() == i - offset,
            forall|k: int| 0 <= k < r@.len() ==> r@[k] == k + offset,
        decreases source_count - i,
    {
        r.push(i);
        i = i + 1;
    }
    let mut j: usize = 0;
    while j < offset
        invariant
            offset < source_count,
            j <= offset,
            r@.len() == source_count - offset + j,
            forall|k: int| 0 <= k < source_count - offset ==> r@[k] == k + offset,
            forall|k: int| source_count - offset <= k < r@.len() ==> r@[k] == k - (source_count - offset),
        decreases offset - j,
    {
        r.push(j);
        j = j + 1;
    }
    proof {
        let expected = rotation(source_count as nat, offset as nat);
        assert forall|k: int| 0 <= k < source_count implies r@[k] == expected[k] by {
            if k < source_count - offset {
                assert((k + offset) % (source_count as int) == k + offset) by (nonlinear_arith)
                    requires 0 <= k + offset < source_count;
            } else {
                assert((k + offset) % (source_count as int) == k + offset - source_count) by (nonlinear_arith)
                    requires source_count <= k + offset < 2 * source_count;
            }
        }
        assert(r@ =~= expected);
    }
    r
}

/// Every rotation runs each source exactly once.
pub proof fn rotation_runs_each_source_once(count: nat, offset: nat)
    requires
        0 < count <= usize::MAX,
    ensures
        rotation(count, offset).len() == count,
        forall|s: int| 0 <= s < count ==> #[trigger] rotation(count, offset).contains(s as usize),
        forall|i: int, j: int| 0 <= i < j < count ==> rotation(count, offset)[i] != rotation(count, offset)[j],
{
    let r = rotation(count, offset);
    let o = (offset as int) % (count as int);
    assert forall|s: int| 0 <= s < count implies #[trigger] r.contains(s as usize) by {
        let i = if s >= o { s - o } else { s - o + count };
        assert(0 <= i < count);
        assert((i + offset) % (count as int) == s) by (nonlinear_arith)
            requires
                count > 0,
                0 <= s < count,
                o == (offset as int) % (count as int),
                i == (if s >= o { s - o } else { s - o + count }),
                0 <= o < count;
        assert(r[i] == s as usize);
    }
    assert forall|i: int, j: int| 0 <= i < j < count implies r[i] != r[j] by {
        let a = (i + offset) % (count as int);
        let b = (j + offset) % (count as int);
        assert(a != b) by (nonlinear_arith)
            requires
                count > 0,
                0 <= i < j < count,
                a == (i + offset) % (count as int),
                b == (j + offset) % (count as int);
        assert(0 <= a < count && 0 <= b < count);
        assert(r[i] == a as usize && r[j] == b as usize);
    }
}

// ---------------------------------------------------------------------------
// Decision counts.
// ---------------------------------------------------------------------------

/// The reference label of a calibration fixture.
#[derive(Debug, Clone, Copy, PartialEq, Eq, Structural)]
pub enum CalibrationLabel {
    Positive,
    Negative,
    Ambiguous,
}

/// A semantic judge's decision.
#[derive(Debug, Clone, Copy, PartialEq, Eq, Structural)]
pub enum SoftJudgeDecision {
    Finding,
    NoFinding,
    Abstain,
}

/// The counts behind a source's precision, recall and coverage figures.
#[derive(Debug, Clone, Copy, PartialEq, Eq, Structural)]
pub struct DecisionCounts {
    pub true_positives: usize,
    pub false_positives: usize,
    pub false_negatives: usize,
    pub decided: usize,
    pub clear_cases: usize,
    pub clear_decided: usize,
    pub ambiguous: usize,
    pub ambiguous_abstain: usize,
}

/// The number of pairs in `d` that satisfy `p`.
pub open spec fn count_where(d: Seq<(CalibrationLabel, SoftJudgeDecision)>, p: spec_fn((CalibrationLabel, SoftJudgeDecision)) -> bool) -> nat
    decreases d.len(),
{
    if d.len() == 0 {
        0
    } else {
        count_where(d.drop_last(), p) + if p(d.last()) { 1nat } else { 0nat }
    }
}

/// The counts of a sequence of (label, decision) pairs: a positive is found or
/// missed, a finding on a negative is a false positive, an ambiguous case is
/// counted with its abstentions, and anything but an abstention is decided.
pub open spec fn decision_counts(d: Seq<(CalibrationLabel, SoftJudgeDecision)>) -> DecisionCounts {
    DecisionCounts {
        true_positives: count_where(d, |x: (CalibrationLabel, SoftJudgeDecision)| x.0 == CalibrationLabel::Positive && x.1 == SoftJudgeDecision::Finding) as usize,
        false_positives: count_where(d, |x: (CalibrationLabel, SoftJudgeDecision)| x.0 == CalibrationLabel::Negative && x.1 == SoftJudgeDecision::Finding) as usize,
        false_negatives: count_where(d, |x: (CalibrationLabel, SoftJudgeDecision)| x.0 == CalibrationLabel::Positive && x.1 != SoftJudgeDecision::Finding) as usize,
        decided: count_where(d, |x: (CalibrationLabel, SoftJudgeDecision)| x.1 != SoftJudgeDecision::Abstain) as usize,
        clear_cases: count_where(d, |x: (CalibrationLabel, SoftJudgeDecision)| x.0 != CalibrationLabel::Ambiguous) as usize,
        clear_decided: count_where(d, |x: (CalibrationLabel, SoftJudgeDecision)| x.0 != CalibrationLabel::Ambiguous && x.1 != SoftJudgeDecision::Abstain) as usize,
        ambiguous: count_where(d, |x: (CalibrationLabel, SoftJudgeDecision)| x.0 == CalibrationLabel::Ambiguous) as usize,
        ambiguous_abstain: count_where(d, |x: (CalibrationLabel, SoftJudgeDecision)| x.0 == CalibrationLabel::Ambiguous && x.1 == SoftJudgeDecision::Abstain) as usize,
    }
}

proof fn lemma_count_where_bound(d: Seq<(CalibrationLabel, SoftJudgeDecision)>, p: spec_fn((CalibrationLabel, SoftJudgeDecision)) -> bool)
    ensures
        count_where(d, p) <= d.len(),
    decreases d.len(),
{
    if d.len() > 0 {
        lemma_count_where_bound(d.drop_last(), p);
    }
}

/// Counts labelled decisions.
pub fn metrics_from_decisions(decisions: &[(CalibrationLabel, SoftJudgeDecision)]) -> (r: DecisionCounts)
    ensures
        r == decision_counts(decisions@),
{
    let mut r = DecisionCounts {
        true_positives: 0,
        false_positives: 0,
        false_negatives: 0,
        decided: 0,
        clear_cases: 0,
        clear_decided: 0,
        ambiguous: 0,
        ambiguous_abstain: 0,
    };
    let mut i: usize = 0;
    while i < decisions.len()
        invariant
            i <= decisions.len(),
            r == decision_counts(decisions@.subrange(0, i as int)),
        decreases decisions.len() - i,
    {
        let (label, decision) = decisions[i];
        let ghost prefix = decisions@.subrange(0, i as int);
        let ghost next = decisions@.subrange(0, i + 1);
        proof {
            assert(next.drop_last() =~= prefix);
            assert(next.last() == (label, decision));
            lemma_count_where_bound(prefix, |x: (CalibrationLabel, SoftJudgeDecision)| x.1 != SoftJudgeDecision::Abstain);
            lemma_count_where_bound(prefix, |x: (CalibrationLabel, SoftJudgeDecision)| x.0 != CalibrationLabel::Ambiguous);
            lemma_count_where_bound(prefix, |x: (CalibrationLabel, SoftJudgeDecision)| x.0 != CalibrationLabel::Ambiguous && x.1 != SoftJudgeDecision::Abstain);
            lemma_count_where_bound(prefix, |x: (CalibrationLabel, SoftJudgeDecision)| x.0 == CalibrationLabel::Ambiguous);
            lemma_count_where_bound(prefix, |x: (CalibrationLabel, SoftJudgeDecision)| x.0 == CalibrationLabel::Ambiguous && x.1 == SoftJudgeDecision::Abstain);
            lemma_count_where_bound(prefix, |x: (CalibrationLabel, SoftJudgeDecision)| x.0 == CalibrationLabel::Positive && x.1 == SoftJudgeDecision::Finding);
            lemma_count_where_bound(prefix, |x: (CalibrationLabel, SoftJudgeDecision)| x.0 == CalibrationLabel::Negative && x.1 == SoftJudgeDecision::Finding);
            lemma_count_where_bound(prefix, |x: (CalibrationLabel, SoftJudgeDecision)| x.0 == CalibrationLabel::Positive && x.1 != SoftJudgeDecision::Finding);
        }
        if decision != SoftJudgeDecision::Abstain {
            r.decided = r.decided + 1;
        }
        if label != CalibrationLabel::Ambiguous {
            r.clear_cases = r.clear_cases + 1;
            if decision != SoftJudgeDecision::Abstain {
                r.clear_decided = r.clear_decided + 1;
            }
        }
        match label {
            CalibrationLabel::Positive => {
                if decision == SoftJudgeDecision::Finding {
                    r.true_positives = r.true_positives + 1;
                } else {
                    r.false_negatives = r.false_negatives + 1;
                }
            },
            CalibrationLabel::Negative => {
                if decision == SoftJudgeDecision::Finding {
                    r.false_positives = r.false_positives + 1;
                }
            },
            CalibrationLabel::Ambiguous => {
                r.ambiguous = r.ambiguous + 1;
                if decision == SoftJudgeDecision::Abstain {
                    r.ambiguous_abstain = r.ambiguous_abstain + 1;
                }
            },
        }
        i = i + 1;
        assert(r == decision_counts(next));
    }
    assert(decisions@.subrange(0, decisions.len() as int) =~= decisions@);
    r
}

// ---------------------------------------------------------------------------
// Fixture selection.
// ---------------------------------------------------------------------------

/// Why no fixture selection could be made.
#[derive(Debug, PartialEq, Eq)]
pub enum FixtureSelectionError {
    /// A requested fixture id names no fixture.
    NotFound(String),
    /// No fixture is left to run.
    NoneSelected,
}

/// The positions of the fixtures kept by a request: every fixture when
/// nothing is requested, otherwise those whose id is requested, in fixture
/// order.
pub open spec fn kept_positions(ids: Seq<Seq<char>>, requested: Seq<Seq<char>>) -> Seq<int>
    decreases ids.len(),
{
    if ids.len() == 0 {
        Seq::empty()
    } else if requested.len() == 0 || requested.contains(ids.last()) {
        kept_positions(ids.drop_last(), requested).push(ids.len() - 1)
    } else {
        kept_positions(ids.drop_last(), requested)
    }
}

/// The first requested id, from position `k` on, that names no fixture.
pub open spec fn first_missing(ids: Seq<Seq<char>>, requested: Seq<Seq<char>>, k: int) -> Option<Seq<char>>
    decreases requested.len() - k,
{
    if k < 0 || k >= requested.len() {
        None
    } else if !ids.contains(requested[k]) {
        Some(requested[k])
    } else {
        first_missing(ids, requested, k + 1)
    }
}

/// Selects the fixtures a run covers by the requested ids: the kept
/// positions, unless a requested id names no fixture (the first such id is
/// reported) or nothing is kept.
pub fn select_fixtures(fixture_ids: &Vec<String>, requested: &Vec<String>) -> (r: Result<Vec<usize>, FixtureSelectionError>)
    ensures
        ({
            let ids = terms::strings_view(fixture_ids@);
            let req = terms::strings_view(requested@);
            match r {
                Ok(v) => first_missing(ids, req, 0) is None && kept_positions(ids, req).len() > 0
                    && v@.map_values(|i: usize| i as int) == kept_positions(ids, req),
                Err(FixtureSelectionError::NotFound(id)) => first_missing(ids, req, 0) == Some(id@),
                Err(FixtureSelectionError::NoneSelected) => first_missing(ids, req, 0) is None
                    && kept_positions(ids, req).len() == 0,
            }
        }),
{
    let ghost ids = terms::strings_view(fixture_ids@);
    let ghost req = terms::strings_view(requested@);
    let mut kept: Vec<usize> = Vec::new();
    let mut i: usize = 0;
    assert(kept@.map_values(|x: usize| x as int) =~= kept_positions(ids.subrange(0, 0), req));
    while i < fixture_ids.len()
        invariant
            i <= fixture_ids@.len(),
            ids == terms::strings_view(fixture_ids@),
            req == terms::strings_view(requested@),
            kept@.map_values(|x: usize| x as int) == kept_positions(ids.subrange(0, i as int), req),
        decreases fixture_ids.len() - i,
    {
        let ghost before = kept@.map_values(|x: usize| x as int);
        assert(ids.subrange(0, i + 1).drop_last() =~= ids.subrange(0, i as int));
        assert(ids.subrange(0, i + 1).last() == ids[i as int]);
        assert(ids[i as int] == fixture_ids@[i as int]@);
        if requested.len() == 0 || terms::contains_string(requested, &fixture_ids[i]) {
            kept.push(i);
            assert(kept@.map_values(|x: usize| x as int) =~= before.push(i as int));
        }
        i = i + 1;
    }
    assert(ids.subrange(0, ids.len() as int) =~= ids);
    let mut k: usize = 0;
    while k < requested.len()
        invariant
            k <= requested@.len(),
            ids == terms::strings_view(fixture_ids@),
            req == terms::strings_view(requested@),
            first_missing(ids, req, 0) == first_missing(ids, req, k as int),
        decreases requested.len() - k,
    {
        assert(req[k as int] == requested@[k as int]@);
        if !terms::contains_string(fixture_ids, &requested[k]) {
            return Err(FixtureSelectionError::NotFound(requested[k].clone()));
        }
        k = k + 1;
    }
    if kept.len() == 0 {
        return Err(FixtureSelectionError::NoneSelected);
    }
    Ok(kept)
}

} // verus!
