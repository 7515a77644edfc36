//! The MCP identity-context benchmark: query terms and the bounded
//! identity-context search, the typed planner actions, identity qualification
//! of a resolved fact, and the benchmark's outcome accounting.
use vstd::prelude::*;
use crate::counting;
use crate::order;
use crate::terms;
use crate::terms::insert_sorted;
use crate::text;
use vstd::string::StringSliceAdditionalSpecFns;
use crate::text::{char_is_alphanumeric, chars_of, join_chars, str_eq, str_to_lowercase, string_of, trim_chars};

verus! {

/// The identity of the benchmark report's schema.
pub const REPORT_SCHEMA: &'static str = "reason-mcp-identity-context-gate-benchmark-v12";
/// Rounds a sample may take.
pub const MAX_ROUNDS: usize = 6;
/// Planner action repairs allowed per observation.
pub const MAX_ACTION_REPAIRS_PER_OBSERVATION: usize = 2;
/// Tool calls a sample may make.
pub const MAX_TOOL_CALLS: usize = 10;
/// Wall-clock budget of a sample, in milliseconds.
pub const MAX_ELAPSED_MS: u64 = 30000;
/// Model token budget of a sample.
pub const MAX_MODEL_TOKENS: u64 = 8000;
/// Rounds without progress before a sample stops.
pub const NO_PROGRESS_LIMIT: usize = 2;

/// The outcome a case should end with.
#[derive(Debug, Clone, Copy, PartialEq, Eq, Structural)]
pub enum ExpectedOutcome {
    Accept,
    Reject,
    Unknown,
}

/// Whether a final outcome accepts or rejects a fact that should not have
/// been decided that way.
pub open spec fn false_acceptance(expected: ExpectedOutcome, final_outcome: ExpectedOutcome) -> bool {
    match expected {
        ExpectedOutcome::Accept => false,
        ExpectedOutcome::Reject => final_outcome == ExpectedOutcome::Accept,
        ExpectedOutcome::Unknown => final_outcome != ExpectedOutcome::Unknown,
    }
}

/// Whether a final outcome is a false acceptance: an expected rejection
/// accepted, or any fact decision where abstention was expected.
pub fn is_false_acceptance(expected: ExpectedOutcome, final_outcome: ExpectedOutcome) -> (r: bool)
    ensures
        r == false_acceptance(expected, final_outcome),
{
    match expected {
        ExpectedOutcome::Accept => false,
        ExpectedOutcome::Reject => final_outcome == ExpectedOutcome::Accept,
        ExpectedOutcome::Unknown => final_outcome != ExpectedOutcome::Unknown,
    }
}

/// Whether a terminal decision is wrong: decided, and not as expected.
pub fn is_semantic_false_decision(expected: ExpectedOutcome, final_outcome: ExpectedOutcome) -> (r: bool)
    ensures
        r == (final_outcome != ExpectedOutcome::Unknown && final_outcome != expected),
{
    final_outcome != ExpectedOutcome::Unknown && final_outcome != expected
}

/// A wrong terminal decision counts the same whichever way it went, and every
/// false acceptance is a wrong terminal decision.
pub proof fn false_decisions_are_symmetric(a: ExpectedOutcome, b: ExpectedOutcome)
    ensures
        a != ExpectedOutcome::Unknown && b != ExpectedOutcome::Unknown ==> ((b != ExpectedOutcome::Unknown && b != a)
            == (a != ExpectedOutcome::Unknown && a != b)),
        false_acceptance(a, b) ==> b != ExpectedOutcome::Unknown && b != a,
{
}

/// A false acceptance is a fact decision a case does not warrant: the final
/// outcome decides (accepts or rejects), differs from the expectation, and the
/// case did not expect an acceptance. A case expected to accept is never
/// falsely accepted, whatever its final outcome; an expected rejection is
/// falsely accepted only by an acceptance; an expected abstention by any
/// decision.
pub proof fn false_acceptance_is_an_unwarranted_decision(expected: ExpectedOutcome, final_outcome: ExpectedOutcome)
    ensures
        false_acceptance(expected, final_outcome) == (expected != ExpectedOutcome::Accept && final_outcome
            != ExpectedOutcome::Unknown && final_outcome != expected),
        !false_acceptance(ExpectedOutcome::Accept, final_outcome),
        false_acceptance(ExpectedOutcome::Reject, final_outcome) == (final_outcome == ExpectedOutcome::Accept),
        false_acceptance(ExpectedOutcome::Unknown, final_outcome) == (final_outcome != ExpectedOutcome::Unknown),
{
}

/// Why a sample stopped.
#[derive(Debug, Clone, Copy, PartialEq, Eq, Structural)]
pub enum StopReason {
    ResolvedSupported,
    ResolvedRefuted,
    PlannerStop,
    DuplicateQuery,
    NoProgress,
    MaxRounds,
    MaxToolCalls,
    WallClockBudget,
    ModelTokenBudget,
    PlannerProtocolFailure,
    PlannerActionRepairExhausted,
    PlannerProviderFailure,
    ToolTransportFailure,
    ToolProtocolFailure,
}

impl StopReason {
    /// Stops caused by a failing provider or tool.
    pub open spec fn operational_spec(self) -> bool {
        self == StopReason::PlannerProviderFailure || self == StopReason::ToolTransportFailure
            || self == StopReason::ToolProtocolFailure
    }

    /// Stops caused by a spent budget.
    pub open spec fn budget_spec(self) -> bool {
        self == StopReason::MaxRounds || self == StopReason::MaxToolCalls || self == StopReason::WallClockBudget
            || self == StopReason::ModelTokenBudget
    }

    /// Whether the stop was caused by a failing provider or tool.
    pub fn operational(self) -> (r: bool)
        ensures
            r == self.operational_spec(),
    {
        match self {
            StopReason::PlannerProviderFailure | StopReason::ToolTransportFailure | StopReason::ToolProtocolFailure => true,
            _ => false,
        }
    }

    /// Whether the stop was caused by a spent budget.
    pub fn budget(self) -> (r: bool)
        ensures
            r == self.budget_spec(),
    {
        match self {
            StopReason::MaxRounds | StopReason::MaxToolCalls | StopReason::WallClockBudget | StopReason::ModelTokenBudget => true,
            _ => false,
        }
    }
}

/// No stop is both operational and a spent budget.
pub proof fn operational_and_budget_stops_are_disjoint(reason: StopReason)
    ensures
        !(reason.operational_spec() && reason.budget_spec()),
{
}

/// A benchmark case: a fact about a place, the bare surface to search, and the
/// trusted identity context the task states, if any.
#[derive(Debug, Clone, Copy)]
pub struct CaseSpec {
    pub id: &'static str,
    pub task: &'static str,
    pub initial_query: &'static str,
    pub identity_context: Option<&'static str>,
    pub property_id: &'static str,
    pub value_kind: &'static str,
    pub fact_key: &'static str,
    pub target_value: &'static str,
    pub expected: ExpectedOutcome,
}

/// A case by its contents: id, task, bare surface, identity context,
/// property, value kind, fact key, target value and expectation.
pub open spec fn case_view(c: CaseSpec) -> (
    Seq<char>,
    Seq<char>,
    Seq<char>,
    Option<Seq<char>>,
    Seq<char>,
    Seq<char>,
    Seq<char>,
    Seq<char>,
    ExpectedOutcome,
) {
    (
        c.id@,
        c.task@,
        c.initial_query@,
        opt_view(c.identity_context),
        c.property_id@,
        c.value_kind@,
        c.fact_key@,
        c.target_value@,
        c.expected,
    )
}

/// Every field of each development case, in order.
pub open spec fn dev_case_table() -> Seq<
    (Seq<char>, Seq<char>, Seq<char>, Option<Seq<char>>, Seq<char>, Seq<char>, Seq<char>, Seq<char>, ExpectedOutcome),
> {
    seq![
        ("bratislava_country_direct"@, "Determine the country of the city Bratislava using external evidence."@, "Bratislava"@, None, "P17"@, "entity"@, "bratislava.country"@, "Q214"@, ExpectedOutcome::Accept),
        ("lisbon_country_context_agreement"@, "Determine the country of the city Lisbon in Portugal. Use the stated identity context as a required identity constraint."@, "Lisbon"@, Some("Portugal"@), "P17"@, "entity"@, "lisbon.country"@, "Q45"@, ExpectedOutcome::Accept),
        ("newcastle_country_context_conflict"@, "Determine the country of the city Newcastle in Australia. Use the stated identity context as a required identity constraint."@, "Newcastle"@, Some("Australia"@), "P17"@, "entity"@, "newcastle.country"@, "Q408"@, ExpectedOutcome::Accept),
        ("newport_country_ambiguous_context"@, "Determine the country of Newport in Wales. If the bare surface is ambiguous, use only the stated trusted identity context to resolve it."@, "Newport"@, Some("Wales"@), "P17"@, "entity"@, "newport.country"@, "Q145"@, ExpectedOutcome::Accept),
        ("lincoln_ambiguity_abstention"@, "Without adding unstated context, determine the country for the place referred to only as 'Lincoln'. If the referent is ambiguous, abstain."@, "Lincoln"@, None, "P17"@, "entity"@, "lincoln.country"@, "Q30"@, ExpectedOutcome::Unknown),
        ("hamilton_ambiguity_abstention"@, "Without adding unstated context, determine the country for the place referred to only as 'Hamilton'. If the referent is ambiguous, abstain."@, "Hamilton"@, None, "P17"@, "entity"@, "hamilton.country"@, "Q16"@, ExpectedOutcome::Unknown),
        ("hamburg_wrong_country_refutation"@, "Check the claim that Hamburg is in France. Acquire external evidence before deciding whether the claim is supported."@, "Hamburg"@, None, "P17"@, "entity"@, "hamburg.country"@, "Q142"@, ExpectedOutcome::Reject),
        ("zagreb_country_direct"@, "Determine the country of the city Zagreb using external evidence."@, "Zagreb"@, None, "P17"@, "entity"@, "zagreb.country"@, "Q224"@, ExpectedOutcome::Accept),
    ]
}

/// An optional static string by its contents.
pub open spec fn opt_view(o: Option<&'static str>) -> Option<Seq<char>> {
    match o {
        Some(s) => Some(s@),
        None => None,
    }
}

/// The development cases of the benchmark.
pub fn dev_cases() -> (r: [CaseSpec; 8])
    ensures
        r@.len() == 8,
        forall|i: int| 0 <= i < 8 ==> case_view(#[trigger] r@[i]) == dev_case_table()[i],
{
    let r = [
        CaseSpec {
            id: "bratislava_country_direct",
            task: "Determine the country of the city Bratislava using external evidence.",
            initial_query: "Bratislava",
            identity_context: None,
            property_id: "P17",
            value_kind: "entity",
            fact_key: "bratislava.country",
            target_value: "Q214",
            expected: ExpectedOutcome::Accept,
        },
        CaseSpec {
            id: "lisbon_country_context_agreement",
            task: "Determine the country of the city Lisbon in Portugal. Use the stated identity context as a required identity constraint.",
            initial_query: "Lisbon",
            identity_context: Some("Portugal"),
            property_id: "P17",
            value_kind: "entity",
            fact_key: "lisbon.country",
            target_value: "Q45",
            expected: ExpectedOutcome::Accept,
        },
        CaseSpec {
            id: "newcastle_country_context_conflict",
            task: "Determine the country of the city Newcastle in Australia. Use the stated identity context as a required identity constraint.",
            initial_query: "Newcastle",
            identity_context: Some("Australia"),
            property_id: "P17",
            value_kind: "entity",
            fact_key: "newcastle.country",
            target_value: "Q408",
            expected: ExpectedOutcome::Accept,
        },
        CaseSpec {
            id: "newport_country_ambiguous_context",
            task: "Determine the country of Newport in Wales. If the bare surface is ambiguous, use only the stated trusted identity context to resolve it.",
            initial_query: "Newport",
            identity_context: Some("Wales"),
            property_id: "P17",
            value_kind: "entity",
            fact_key: "newport.country",
            target_value: "Q145",
            expected: ExpectedOutcome::Accept,
        },
        CaseSpec {
            id: "lincoln_ambiguity_abstention",
            task: "Without adding unstated context, determine the country for the place referred to only as 'Lincoln'. If the referent is ambiguous, abstain.",
            initial_query: "Lincoln",
            identity_context: None,
            property_id: "P17",
            value_kind: "entity",
            fact_key: "lincoln.country",
            target_value: "Q30",
            expected: ExpectedOutcome::Unknown,
        },
        CaseSpec {
            id: "hamilton_ambiguity_abstention",
            task: "Without adding unstated context, determine the country for the place referred to only as 'Hamilton'. If the referent is ambiguous, abstain.",
            initial_query: "Hamilton",
            identity_context: None,
            property_id: "P17",
            value_kind: "entity",
            fact_key: "hamilton.country",
            target_value: "Q16",
            expected: ExpectedOutcome::Unknown,
        },
        CaseSpec {
            id: "hamburg_wrong_country_refutation",
            task: "Check the claim that Hamburg is in France. Acquire external evidence before deciding whether the claim is supported.",
            initial_query: "Hamburg",
            identity_context: None,
            property_id: "P17",
            value_kind: "entity",
            fact_key: "hamburg.country",
            target_value: "Q142",
            expected: ExpectedOutcome::Reject,
        },
        CaseSpec {
            id: "zagreb_country_direct",
            task: "Determine the country of the city Zagreb using external evidence.",
            initial_query: "Zagreb",
            identity_context: None,
            property_id: "P17",
            value_kind: "entity",
            fact_key: "zagreb.country",
            target_value: "Q224",
            expected: ExpectedOutcome::Accept,
        },
    ];
    assert(r@.len() == 8);
    r
}

/// The summary percentile of elapsed times.
pub fn percentile(values: &[u64], rank_percent: usize) -> (r: u64)
    requires
        values.len() == 0 || (values.len() - 1) * rank_percent + 99 <= usize::MAX,
    ensures
        r == order::benchmark_percentile(values@, rank_percent),
{
    order::benchmark_percentile_of(values, rank_percent)
}

// ---------------------------------------------------------------------------
// Query terms.
// ---------------------------------------------------------------------------

/// The term a piece of a query contributes: the piece trimmed and lowercased,
/// none when it is blank.
pub open spec fn piece_term(piece: Seq<char>) -> Seq<Seq<char>> {
    if text::trim(piece).len() > 0 {
        seq![text::unicode_lowercase(text::trim(piece))]
    } else {
        Seq::empty()
    }
}

/// The terms of `s` after the partially read piece `cur`, pieces being split
/// at every character that is not alphanumeric.
pub open spec fn terms_from(s: Seq<char>, cur: Seq<char>) -> Seq<Seq<char>>
    decreases s.len(),
{
    if s.len() == 0 {
        piece_term(cur)
    } else if !text::unicode_alphanumeric(s[0]) {
        piece_term(cur) + terms_from(s.drop_first(), Seq::empty())
    } else {
        terms_from(s.drop_first(), cur.push(s[0]))
    }
}

/// The set of lowercase terms of a query.
pub open spec fn query_term_set(value: Seq<char>) -> Set<Seq<char>> {
    terms_from(value, Seq::empty()).to_set()
}

proof fn lemma_terms_step(s: Seq<char>, i: int, cur: Seq<char>)
    requires
        0 <= i < s.len(),
    ensures
        terms_from(s.subrange(i, s.len() as int), cur) == if !text::unicode_alphanumeric(s[i]) {
            piece_term(cur) + terms_from(s.subrange(i + 1, s.len() as int), Seq::empty())
        } else {
            terms_from(s.subrange(i + 1, s.len() as int), cur.push(s[i]))
        },
{
    assert(s.subrange(i, s.len() as int).drop_first() =~= s.subrange(i + 1, s.len() as int));
}

/// Adds the term of a piece to a sorted term set.
fn add_piece_term(set: &mut Vec<String>, piece: &Vec<char>)
    requires
        terms::strictly_ascending(terms::strings_view(old(set)@)),
    ensures
        terms::strictly_ascending(terms::strings_view(final(set)@)),
        terms::strings_view(final(set)@).to_set() == terms::strings_view(old(set)@).to_set() + piece_term(piece@).to_set(),
{
    let trimmed = trim_chars(piece);
    if trimmed.len() == 0 {
        assert(piece_term(piece@).to_set() =~= Set::<Seq<char>>::empty());
        assert(terms::strings_view(set@).to_set() + Set::<Seq<char>>::empty() =~= terms::strings_view(set@).to_set());
        return;
    }
    let s = string_of(&trimmed);
    let lower = str_to_lowercase(s.as_str());
    let ghost l = lower@;
    insert_sorted(set, lower);
    assert(piece_term(piece@) =~= seq![l]);
    assert forall|y: Seq<char>| #[trigger] seq![l].to_set().contains(y) <==> y == l by {
        if y == l {
            assert(seq![l][0] == l);
        }
    }
    assert(piece_term(piece@).to_set() =~= Set::<Seq<char>>::empty().insert(l));
    assert(terms::strings_view(old(set)@).to_set().insert(l) =~= terms::strings_view(old(set)@).to_set() + Set::<Seq<char>>::empty().insert(l));
}

/// The distinct lowercase terms of a query, in ascending order.
pub fn query_terms(value: &str) -> (r: Vec<String>)
    ensures
        terms::strictly_ascending(terms::strings_view(r@)),
        terms::strings_view(r@).to_set() == query_term_set(value@),
{
    let chars = chars_of(value);
    let n = chars.len();
    let mut set: Vec<String> = Vec::new();
    let mut cur: Vec<char> = Vec::new();
    let mut i: usize = 0;
    assert(chars@.subrange(0, n as int) =~= chars@);
    assert(terms::strings_view(set@).to_set() =~= Set::<Seq<char>>::empty());
    while i < n
        invariant
            n == chars.len(),
            chars@ == value@,
            i <= n,
            terms::strictly_ascending(terms::strings_view(set@)),
            query_term_set(value@) == terms::strings_view(set@).to_set() + terms_from(chars@.subrange(i as int, n as int), cur@).to_set(),
        decreases n - i,
    {
        proof {
            lemma_terms_step(chars@, i as int, cur@);
        }
        let c = chars[i];
        if !char_is_alphanumeric(c) {
            let ghost before = terms::strings_view(set@).to_set();
            let ghost piece = cur@;
            let ghost rest = terms_from(chars@.subrange(i + 1, n as int), Seq::empty());
            proof {
                vstd::seq_lib::seq_to_set_distributes_over_add(piece_term(cur@), rest);
            }
            add_piece_term(&mut set, &cur);
            cur = Vec::new();
            proof {
                assert(cur@ =~= Seq::<char>::empty());
                assert(before + (piece_term(piece).to_set() + rest.to_set()) =~= (before + piece_term(piece).to_set()) + rest.to_set());
            }
        } else {
            cur.push(c);
        }
        i = i + 1;
    }
    assert(chars@.subrange(n as int, n as int) =~= Seq::<char>::empty());
    add_piece_term(&mut set, &cur);
    set
}

/// The one ascending listing of a query's terms.
pub open spec fn ascending_terms(value: Seq<char>) -> Seq<Seq<char>> {
    choose|s: Seq<Seq<char>>| terms::strictly_ascending(s) && s.to_set() == query_term_set(value)
}

/// The normal form of a query: its distinct lowercase terms in ascending
/// order, joined by single spaces.
pub open spec fn normalized_query(value: Seq<char>) -> Seq<char> {
    text::join(ascending_terms(value), " "@)
}

/// The normal form of a query.
pub fn normalize_query(value: &str) -> (r: String)
    ensures
        r@ == normalized_query(value@),
        terms::strictly_ascending(ascending_terms(value@)),
        ascending_terms(value@).to_set() == query_term_set(value@),
{
    let terms = query_terms(value);
    let mut parts: Vec<Vec<char>> = Vec::new();
    let mut i: usize = 0;
    while i < terms.len()
        invariant
            i <= terms.len(),
            parts@.len() == i,
            forall|k: int| 0 <= k < i ==> #[trigger] parts@[k]@ == terms@[k]@,
        decreases terms.len() - i,
    {
        parts.push(chars_of(terms[i].as_str()));
        i = i + 1;
    }
    let joined = join_chars(&parts, &chars_of(" "));
    proof {
        let listing = terms::strings_view(terms@);
        assert(terms::strictly_ascending(listing) && listing.to_set() == query_term_set(value@));
        let chosen = ascending_terms(value@);
        terms::lemma_ascending_listing_unique(listing, chosen);
        assert(parts@.map_values(|p: Vec<char>| p@) =~= listing);
    }
    string_of(&joined)
}

/// Two queries with the same terms have the same normal form, whatever their
/// order, case or punctuation, so a reordered repeat is a duplicate.
pub proof fn normal_form_depends_only_on_terms(a: Seq<char>, b: Seq<char>)
    requires
        query_term_set(a) == query_term_set(b),
    ensures
        normalized_query(a) == normalized_query(b),
{
}

/// A lowercase ASCII letter or a digit.
pub open spec fn lower_alnum(c: char) -> bool {
    ('a' <= c && c <= 'z') || ('0' <= c && c <= '9')
}

/// A term of an ASCII query: lowercase ASCII letters and digits, not empty.
pub open spec fn ascii_term(t: Seq<char>) -> bool {
    t.len() > 0 && forall|i: int| 0 <= i < t.len() ==> lower_alnum(#[trigger] t[i])
}

/// An ASCII letter or digit is alphanumeric and no whitespace.
proof fn lemma_ascii_alnum_char(c: char)
    requires
        text::is_ascii_alphanumeric(c),
    ensures
        (c as u32) < 128,
        text::unicode_alphanumeric(c),
        !text::unicode_whitespace(c),
        lower_alnum(text::ascii_lower(c)),
{
}

/// The term of a non-empty run of ASCII letters and digits is its ASCII
/// lowercase, which is a term of an ASCII query.
proof fn lemma_ascii_piece_term(cur: Seq<char>)
    requires
        cur.len() > 0,
        forall|i: int| 0 <= i < cur.len() ==> text::is_ascii_alphanumeric(#[trigger] cur[i]),
    ensures
        piece_term(cur) == seq![text::ascii_lowercase(cur)],
        ascii_term(text::ascii_lowercase(cur)),
{
    assert forall|i: int| 0 <= i < cur.len() implies !text::unicode_whitespace(#[trigger] cur[i]) && (cur[i] as u32) < 128
        && lower_alnum(text::ascii_lower(cur[i])) by {
        lemma_ascii_alnum_char(cur[i]);
    }
    assert(text::trim_start(cur) == cur);
    assert(text::trim_end(cur) == cur);
    assert(text::trim(cur) == cur);
    assert(text::is_ascii_seq(cur));
    assert(text::unicode_lowercase(cur) == text::ascii_lowercase(cur));
}

/// Every term read from an ASCII text, after a run of ASCII letters and
/// digits, is a term of an ASCII query.
proof fn lemma_ascii_terms(s: Seq<char>, cur: Seq<char>)
    requires
        text::is_ascii_seq(s),
        forall|i: int| 0 <= i < cur.len() ==> text::is_ascii_alphanumeric(#[trigger] cur[i]),
    ensures
        forall|k: int| 0 <= k < terms_from(s, cur).len() ==> ascii_term(#[trigger] terms_from(s, cur)[k]),
    decreases s.len(),
{
    if cur.len() > 0 {
        lemma_ascii_piece_term(cur);
    } else {
        assert(text::trim(cur) =~= cur);
    }
    assert forall|k: int| 0 <= k < piece_term(cur).len() implies ascii_term(#[trigger] piece_term(cur)[k]) by {
        assert(piece_term(cur)[k] == text::ascii_lowercase(cur));
    }
    if s.len() == 0 {
        assert(terms_from(s, cur) == piece_term(cur));
    } else {
        let c = s[0];
        assert((c as u32) < 128);
        assert(text::is_ascii_seq(s.drop_first())) by {
            assert forall|i: int| 0 <= i < s.drop_first().len() implies (#[trigger] s.drop_first()[i] as u32) < 128 by {
                assert(s.drop_first()[i] == s[i + 1]);
            }
        }
        if !text::unicode_alphanumeric(c) {
            assert(terms_from(s, cur) == piece_term(cur) + terms_from(s.drop_first(), Seq::empty()));
            lemma_ascii_terms(s.drop_first(), Seq::empty());
            let rest = terms_from(s.drop_first(), Seq::empty());
            assert forall|k: int| 0 <= k < terms_from(s, cur).len() implies ascii_term(#[trigger] terms_from(s, cur)[k]) by {
                if k < piece_term(cur).len() {
                    assert(terms_from(s, cur)[k] == piece_term(cur)[k]);
                } else {
                    assert(terms_from(s, cur)[k] == rest[k - piece_term(cur).len()]);
                }
            }
        } else {
            assert(text::is_ascii_alphanumeric(c));
            let next = cur.push(c);
            assert forall|i: int| 0 <= i < next.len() implies text::is_ascii_alphanumeric(#[trigger] next[i]) by {
                if i < cur.len() {
                    assert(next[i] == cur[i]);
                }
            }
            lemma_ascii_terms(s.drop_first(), next);
            assert(terms_from(s, cur) == terms_from(s.drop_first(), next));
        }
    }
}

/// Letters and digits extend the current piece.
proof fn lemma_terms_skip_run(w: Seq<char>, rest: Seq<char>, cur: Seq<char>)
    requires
        forall|i: int| 0 <= i < w.len() ==> lower_alnum(#[trigger] w[i]),
    ensures
        terms_from(w + rest, cur) == terms_from(rest, cur + w),
    decreases w.len(),
{
    if w.len() == 0 {
        assert(w + rest =~= rest);
        assert(cur + w =~= cur);
    } else {
        assert((w + rest)[0] == w[0]);
        assert(lower_alnum(w[0]));
        assert(text::unicode_alphanumeric(w[0]));
        assert((w + rest).drop_first() =~= w.drop_first() + rest);
        assert forall|i: int| 0 <= i < w.drop_first().len() implies lower_alnum(#[trigger] w.drop_first()[i]) by {
            assert(w.drop_first()[i] == w[i + 1]);
        }
        lemma_terms_skip_run(w.drop_first(), rest, cur.push(w[0]));
        assert(cur.push(w[0]) + w.drop_first() =~= cur + w);
    }
}

/// The term of a term of an ASCII query is itself.
proof fn lemma_ascii_term_fixed(w: Seq<char>)
    requires
        ascii_term(w),
    ensures
        piece_term(w) == seq![w],
{
    assert forall|i: int| 0 <= i < w.len() implies text::is_ascii_alphanumeric(#[trigger] w[i]) by {
        assert(lower_alnum(w[i]));
    }
    lemma_ascii_piece_term(w);
    assert(text::ascii_lowercase(w) =~= w);
}

/// Reading the terms of space-joined terms gives the terms back.
proof fn lemma_terms_of_join(ws: Seq<Seq<char>>)
    requires
        forall|k: int| 0 <= k < ws.len() ==> ascii_term(#[trigger] ws[k]),
    ensures
        terms_from(text::join(ws, seq![' ']), Seq::empty()) == ws,
    decreases ws.len(),
{
    if ws.len() == 0 {
        assert(text::trim(Seq::<char>::empty()) =~= Seq::<char>::empty());
        assert(terms_from(Seq::<char>::empty(), Seq::empty()) =~= Seq::<Seq<char>>::empty());
    } else {
        let w = ws[0];
        let rest = ws.drop_first();
        assert(ascii_term(ws[0]));
        assert(ws =~= seq![w] + rest);
        lemma_ascii_term_fixed(w);
        if rest.len() == 0 {
            assert(text::join(ws, seq![' ']) == w);
            lemma_terms_skip_run(w, Seq::empty(), Seq::empty());
            assert(w + Seq::<char>::empty() =~= w);
            assert(Seq::<char>::empty() + w =~= w);
            assert(terms_from(Seq::<char>::empty(), w) == piece_term(w));
        } else {
            assert forall|k: int| 0 <= k < rest.len() implies ascii_term(#[trigger] rest[k]) by {
                assert(rest[k] == ws[k + 1]);
            }
            lemma_terms_of_join(rest);
            text::lemma_join_front(w, rest, seq![' ']);
            let tail = text::join(rest, seq![' ']);
            lemma_terms_skip_run(w, seq![' '] + tail, Seq::empty());
            assert(w + seq![' '] + tail =~= w + (seq![' '] + tail));
            assert(Seq::<char>::empty() + w =~= w);
            assert((seq![' '] + tail)[0] == ' ');
            assert((seq![' '] + tail).drop_first() =~= tail);
            assert(!text::unicode_alphanumeric(' '));
            assert(terms_from(seq![' '] + tail, w) == piece_term(w) + terms_from(tail, Seq::empty()));
            assert(terms_from(text::join(ws, seq![' ']), Seq::empty()) =~= seq![w] + rest);
        }
    }
}

/// Normalizing an ASCII query twice gives what normalizing it once gives:
/// the normal form is a fixed point.
pub proof fn normal_form_is_idempotent(value: Seq<char>)
    requires
        text::is_ascii_seq(value),
    ensures
        normalized_query(normalized_query(value)) == normalized_query(value),
{
    let found = terms_from(value, Seq::empty());
    terms::lemma_ascending_listing_exists(found);
    let a = ascending_terms(value);
    assert(terms::strictly_ascending(a) && a.to_set() == query_term_set(value));
    lemma_ascii_terms(value, Seq::empty());
    assert forall|k: int| 0 <= k < a.len() implies ascii_term(#[trigger] a[k]) by {
        assert(a.to_set().contains(a[k]));
        assert(found.to_set().contains(a[k]));
        let j = choose|j: int| 0 <= j < found.len() && found[j] == a[k];
        assert(ascii_term(found[j]));
    }
    reveal_strlit(" ");
    assert(" "@ =~= seq![' ']);
    let n = normalized_query(value);
    assert(n == text::join(a, seq![' ']));
    lemma_terms_of_join(a);
    assert(query_term_set(n) == query_term_set(value));
    assert(ascending_terms(n) == a);
}

// ---------------------------------------------------------------------------
// Bounded identity-context search.
// ---------------------------------------------------------------------------

/// A search grounded in the trusted identity context: it keeps every term of
/// the bare surface and of the stated context, and adds no other term.
pub open spec fn grounded_search(initial: Seq<char>, context: Option<Seq<char>>, query: Seq<char>) -> bool {
    let initial_terms = query_term_set(initial);
    let proposed = query_term_set(query);
    initial_terms != Set::<Seq<char>>::empty() && initial_terms.subset_of(proposed) && match context {
        None => false,
        Some(c) => {
            let allowed = query_term_set(c);
            allowed != Set::<Seq<char>>::empty() && allowed.subset_of(proposed) && proposed.subset_of(
                initial_terms.union(allowed),
            )
        },
    }
}

/// Whether a search stays within the case's bare surface and trusted context.
pub fn grounded_identity_context_search(case: CaseSpec, query: &str) -> (r: bool)
    ensures
        r == grounded_search(case.initial_query@, opt_view(case.identity_context), query@),
{
    let initial = query_terms(case.initial_query);
    let proposed = query_terms(query);
    proof {
        terms::lemma_empty_listing(terms::strings_view(initial@));
    }
    if initial.len() == 0 || !terms::all_contained(&initial, &proposed) {
        return false;
    }
    let context = match case.identity_context {
        Some(c) => c,
        None => {
            return false;
        },
    };
    let allowed = query_terms(context);
    proof {
        terms::lemma_empty_listing(terms::strings_view(allowed@));
    }
    if allowed.len() == 0 || !terms::all_contained(&allowed, &proposed) {
        return false;
    }
    let mut union = Vec::new();
    proof {
        assert(terms::strings_view(union@).to_set() =~= Set::<Seq<char>>::empty());
    }
    terms::insert_all(&mut union, &initial);
    terms::insert_all(&mut union, &allowed);
    proof {
        let a = terms::strings_view(initial@).to_set();
        let b = terms::strings_view(allowed@).to_set();
        assert(terms::strings_view(union@).to_set() =~= a.union(b));
    }
    terms::all_contained(&proposed, &union)
}

/// A grounded search always names both the bare surface and the context, and
/// nothing the task did not state.
pub proof fn grounded_search_adds_only_stated_terms(initial: Seq<char>, context: Seq<char>, query: Seq<char>)
    requires
        grounded_search(initial, Some(context), query),
    ensures
        query_term_set(initial).subset_of(query_term_set(query)),
        query_term_set(context).subset_of(query_term_set(query)),
        query_term_set(query).subset_of(query_term_set(initial).union(query_term_set(context))),
{
}

/// Without a stated identity context no search is grounded.
pub proof fn no_context_no_grounded_search(initial: Seq<char>, query: Seq<char>)
    ensures
        !grounded_search(initial, None, query),
{
}

/// The progress item a grounded context search earns.
pub fn identity_context_progress_item(case: CaseSpec, query: &str) -> (r: Option<String>)
    ensures
        grounded_search(case.initial_query@, opt_view(case.identity_context), query@) ==> r is Some
            && r->0@ == "trusted_identity_context:"@ + normalized_query(case.identity_context->0@),
        !grounded_search(case.initial_query@, opt_view(case.identity_context), query@) ==> r is None,
{
    if !grounded_identity_context_search(case, query) {
        return None;
    }
    let context = match case.identity_context {
        Some(c) => c,
        None => "",
    };
    let mut item = String::from_str("trusted_identity_context:");
    let normal = normalize_query(context);
    item.append(normal.as_str());
    Some(item)
}

/// The canonical context search: the bare surface, a comma, and the context.
pub open spec fn canonical_query(case: CaseSpec) -> Option<Seq<char>> {
    match case.identity_context {
        Some(c) => Some(case.initial_query@ + ", "@ + c@),
        None => None,
    }
}

/// The canonical context search of a case that states a context.
pub fn canonical_identity_context_query(case: CaseSpec) -> (r: Option<String>)
    ensures
        match r {
            Some(q) => canonical_query(case) == Some(q@),
            None => canonical_query(case) is None,
        },
{
    match case.identity_context {
        Some(context) => {
            let mut q = String::from_str(case.initial_query);
            q.append(", ");
            q.append(context);
            Some(q)
        },
        None => None,
    }
}

/// A separator before the rest of a query ends the current piece: the terms of
/// `a` followed by the separator and `b` are those of `a`, then those of `b`.
proof fn lemma_terms_across_separator(a: Seq<char>, sep: char, b: Seq<char>, cur: Seq<char>)
    requires
        !text::unicode_alphanumeric(sep),
    ensures
        terms_from(a + seq![sep] + b, cur) == terms_from(a, cur) + terms_from(b, Seq::empty()),
    decreases a.len(),
{
    let whole = a + seq![sep] + b;
    if a.len() == 0 {
        assert(whole =~= seq![sep] + b);
        assert(whole.drop_first() =~= b);
    } else {
        let rest = a.drop_first() + seq![sep] + b;
        assert(whole.drop_first() =~= rest);
        assert(whole[0] == a[0]);
        if !text::unicode_alphanumeric(a[0]) {
            lemma_terms_across_separator(a.drop_first(), sep, b, Seq::empty());
            assert(piece_term(cur) + (terms_from(a.drop_first(), Seq::empty()) + terms_from(b, Seq::empty()))
                =~= (piece_term(cur) + terms_from(a.drop_first(), Seq::empty())) + terms_from(b, Seq::empty()));
        } else {
            lemma_terms_across_separator(a.drop_first(), sep, b, cur.push(a[0]));
        }
    }
}

/// The canonical context search of a case whose bare surface and stated
/// context each hold a term always passes the grounding check: its terms are
/// exactly those of the surface and of the context.
pub proof fn canonical_query_is_grounded(case: CaseSpec)
    requires
        case.identity_context is Some,
        query_term_set(case.initial_query@) != Set::<Seq<char>>::empty(),
        query_term_set(case.identity_context->0@) != Set::<Seq<char>>::empty(),
    ensures
        canonical_query(case) is Some,
        query_term_set(canonical_query(case)->0) == query_term_set(case.initial_query@).union(
            query_term_set(case.identity_context->0@),
        ),
        grounded_search(case.initial_query@, opt_view(case.identity_context), canonical_query(case)->0),
{
    let initial = case.initial_query@;
    let context = case.identity_context->0@;
    reveal_strlit(", ");
    let query = canonical_query(case)->0;
    assert(query =~= initial + seq![','] + (seq![' '] + context));
    lemma_terms_across_separator(initial, ',', seq![' '] + context, Seq::empty());
    lemma_terms_across_separator(Seq::<char>::empty(), ' ', context, Seq::empty());
    assert(Seq::<char>::empty() + seq![' '] + context =~= seq![' '] + context);
    assert(text::trim(Seq::<char>::empty()) =~= Seq::<char>::empty());
    assert(piece_term(Seq::<char>::empty()) =~= Seq::<Seq<char>>::empty());
    assert(terms_from(seq![' '] + context, Seq::empty()) =~= terms_from(context, Seq::empty()));
    vstd::seq_lib::seq_to_set_distributes_over_add(terms_from(initial, Seq::empty()), terms_from(context, Seq::empty()));
    assert(query_term_set(query) =~= query_term_set(initial).union(query_term_set(context)));
}

/// Whether the canonical context search has not been tried yet.
pub fn trusted_identity_context_search_remaining(case: CaseSpec, tried_queries: &Vec<String>) -> (r: bool)
    ensures
        r == (canonical_query(case) is Some && !terms::strings_view(tried_queries@).contains(
            normalized_query(canonical_query(case)->0),
        )),
{
    match canonical_identity_context_query(case) {
        Some(q) => {
            let normal = normalize_query(q.as_str());
            !terms::contains_string(tried_queries, &normal)
        },
        None => false,
    }
}

// ---------------------------------------------------------------------------
// Planner actions.
// ---------------------------------------------------------------------------

/// The first Wikipedia candidate of a search.
#[derive(Debug)]
pub struct WikipediaCandidate {
    pub title: Option<String>,
    pub wikibase_item: Option<String>,
    pub disambiguation: Option<bool>,
}

/// The fields of a tool's search state that the identity check reads; a field that is
/// missing or of another JSON type is absent.
#[derive(Debug)]
pub struct SearchState {
    pub is_object: bool,
    pub outcome_kind: Option<String>,
    pub suggested_query: Option<String>,
    pub suggested_query_origin: Option<String>,
    pub resolved_entity: Option<String>,
    pub corroboration_rank: Option<u64>,
    pub corroboration_mode: Option<String>,
    pub direct_wikibase_verified: Option<bool>,
    pub corroboration_entity_label: Option<String>,
    pub corroboration_entity_description: Option<String>,
    pub wikipedia_top: Option<WikipediaCandidate>,
}

/// An optional string by its contents.
pub open spec fn opt_string(o: Option<String>) -> Option<Seq<char>> {
    match o {
        Some(s) => Some(s@),
        None => None,
    }
}

/// The follow-up query the harness itself suggested: only a suggestion of
/// harness-trusted origin counts, trimmed, and not when blank.
pub open spec fn suggestion(state: SearchState) -> Option<Seq<char>> {
    if opt_string(state.suggested_query_origin) != Some("harness_trusted_identity_context"@) {
        None
    } else {
        match state.suggested_query {
            Some(q) => if text::trim(q@).len() > 0 { Some(text::trim(q@)) } else { None },
            None => None,
        }
    }
}

/// The harness-suggested follow-up query of a search state.
pub fn suggested_query(state: &SearchState) -> (r: Option<String>)
    ensures
        opt_string(r) == suggestion(*state),
{
    let trusted = match &state.suggested_query_origin {
        Some(origin) => str_eq(origin.as_str(), "harness_trusted_identity_context"),
        None => false,
    };
    if !trusted {
        return None;
    }
    match &state.suggested_query {
        Some(q) => {
            let t = trim_chars(&chars_of(q.as_str()));
            if t.len() > 0 {
                Some(string_of(&t))
            } else {
                None
            }
        },
        None => None,
    }
}

/// A planner's proposed next action.
#[derive(Debug)]
pub struct PlannerAction {
    pub action: String,
    pub query: Option<String>,
}

/// What a planner action resolves to: the query to run and whether it follows
/// the suggestion, or why the action is refused before any tool call.
pub open spec fn action_resolution(
    case: CaseSpec,
    action: PlannerAction,
    state: SearchState,
    tried: Seq<Seq<char>>,
) -> Result<(Option<Seq<char>>, bool), Seq<char>> {
    if action.action@ == "search"@ {
        if suggestion(state) is Some {
            Err("canonical_suggestion_available_use_follow"@)
        } else {
            match opt_string(action.query) {
                None => Err("missing_search_query"@),
                Some(q) => if text::trim(q).len() == 0 {
                    Err("missing_search_query"@)
                } else if tried.contains(normalized_query(text::trim(q))) {
                    Err("duplicate_search_query"@)
                } else if !grounded_search(case.initial_query@, opt_view(case.identity_context), text::trim(q)) {
                    Err("search_not_grounded_in_trusted_identity_context"@)
                } else {
                    Ok((Some(text::trim(q)), false))
                },
            }
        }
    } else if action.action@ == "follow_suggested_query"@ {
        match suggestion(state) {
            None => Err("missing_suggested_query"@),
            Some(q) => if tried.contains(normalized_query(q)) {
                Err("suggested_query_already_tried"@)
            } else {
                Ok((Some(q), true))
            },
        }
    } else if action.action@ == "stop"@ {
        Ok((None, false))
    } else {
        Err("unknown_action"@)
    }
}

/// A resolution by views.
pub open spec fn resolution_view(r: Result<(Option<String>, bool), &'static str>) -> Result<(Option<Seq<char>>, bool), Seq<char>> {
    match r {
        Ok((q, follow)) => Ok((opt_string(q), follow)),
        Err(e) => Err(e@),
    }
}

/// Resolves a planner action against the current search state and the queries
/// already tried.
pub fn planner_action_resolution(
    case: CaseSpec,
    action: &PlannerAction,
    state: &SearchState,
    tried_queries: &Vec<String>,
) -> (r: Result<(Option<String>, bool), &'static str>)
    ensures
        resolution_view(r) == action_resolution(case, *action, *state, terms::strings_view(tried_queries@)),
{
    if str_eq(action.action.as_str(), "search") {
        if suggested_query(state).is_some() {
            return Err("canonical_suggestion_available_use_follow");
        }
        let query = match &action.query {
            Some(q) => {
                let t = trim_chars(&chars_of(q.as_str()));
                if t.len() == 0 {
                    return Err("missing_search_query");
                }
                string_of(&t)
            },
            None => {
                return Err("missing_search_query");
            },
        };
        let normal = normalize_query(query.as_str());
        if terms::contains_string(tried_queries, &normal) {
            return Err("duplicate_search_query");
        }
        if !grounded_identity_context_search(case, query.as_str()) {
            return Err("search_not_grounded_in_trusted_identity_context");
        }
        Ok((Some(query), false))
    } else if str_eq(action.action.as_str(), "follow_suggested_query") {
        let query = match suggested_query(state) {
            Some(q) => q,
            None => {
                return Err("missing_suggested_query");
            },
        };
        let normal = normalize_query(query.as_str());
        if terms::contains_string(tried_queries, &normal) {
            return Err("suggested_query_already_tried");
        }
        Ok((Some(query), true))
    } else if str_eq(action.action.as_str(), "stop") {
        Ok((None, false))
    } else {
        Err("unknown_action")
    }
}

/// Every query the planner may run is new, and a free-form search is grounded
/// in the trusted identity context and only allowed when the harness offers no
/// suggestion; a follow runs exactly the harness's suggestion.
pub proof fn planner_queries_are_new_and_bounded(case: CaseSpec, action: PlannerAction, state: SearchState, tried: Seq<Seq<char>>)
    ensures
        action_resolution(case, action, state, tried) matches Ok((Some(q), false)) ==> suggestion(state) is None
            && grounded_search(case.initial_query@, opt_view(case.identity_context), q)
            && !tried.contains(normalized_query(q)),
        action_resolution(case, action, state, tried) matches Ok((Some(q), true)) ==> suggestion(state) == Some(q)
            && !tried.contains(normalized_query(q)),
{
}

// ---------------------------------------------------------------------------
// Identity qualification.
// ---------------------------------------------------------------------------

/// The terms the corroborating candidate's metadata offers: its label, its
/// description, and the title of the first Wikipedia candidate.
pub open spec fn metadata_terms(state: SearchState) -> Set<Seq<char>> {
    (match opt_string(state.corroboration_entity_label) {
        Some(l) => query_term_set(l),
        None => Set::empty(),
    }) + (match opt_string(state.corroboration_entity_description) {
        Some(d) => query_term_set(d),
        None => Set::empty(),
    }) + (match state.wikipedia_top {
        Some(top) => match opt_string(top.title) {
            Some(t) => query_term_set(t),
            None => Set::empty(),
        },
        None => Set::empty(),
    })
}

/// The candidate's metadata carries every term of the stated identity context.
pub open spec fn metadata_compatible(case: CaseSpec, state: SearchState) -> bool {
    match case.identity_context {
        None => false,
        Some(c) => query_term_set(c@) != Set::<Seq<char>>::empty() && query_term_set(c@).subset_of(metadata_terms(state)),
    }
}

/// Adds the terms of an optional text to a sorted term set.
fn add_terms_of(set: &mut Vec<String>, text_value: &Option<String>)
    requires
        terms::strictly_ascending(terms::strings_view(old(set)@)),
    ensures
        terms::strictly_ascending(terms::strings_view(final(set)@)),
        terms::strings_view(final(set)@).to_set() == terms::strings_view(old(set)@).to_set() + match opt_string(*text_value) {
            Some(t) => query_term_set(t),
            None => Set::<Seq<char>>::empty(),
        },
{
    match text_value {
        Some(t) => {
            let found = query_terms(t.as_str());
            terms::insert_all(set, &found);
        },
        None => {
            assert(terms::strings_view(set@).to_set() + Set::<Seq<char>>::empty() =~= terms::strings_view(set@).to_set());
        },
    }
}

/// Whether the candidate's metadata carries every term of the stated context.
pub fn trusted_identity_context_metadata_compatible(case: CaseSpec, state: &SearchState) -> (r: bool)
    ensures
        r == metadata_compatible(case, *state),
{
    let context = match case.identity_context {
        Some(c) => c,
        None => {
            return false;
        },
    };
    let required = query_terms(context);
    proof {
        terms::lemma_empty_listing(terms::strings_view(required@));
    }
    if required.len() == 0 {
        return false;
    }
    let mut observed: Vec<String> = Vec::new();
    assert(terms::strings_view(observed@).to_set() =~= Set::<Seq<char>>::empty());
    add_terms_of(&mut observed, &state.corroboration_entity_label);
    add_terms_of(&mut observed, &state.corroboration_entity_description);
    match &state.wikipedia_top {
        Some(top) => {
            add_terms_of(&mut observed, &top.title);
        },
        None => {
            assert(terms::strings_view(observed@).to_set() + Set::<Seq<char>>::empty() =~= terms::strings_view(observed@).to_set());
        },
    }
    proof {
        assert(terms::strings_view(observed@).to_set() =~= metadata_terms(*state));
    }
    terms::all_contained(&required, &observed)
}

/// What happens to the search state's follow-up suggestion.
#[derive(Debug, PartialEq, Eq)]
pub enum SuggestionUpdate {
    /// Suggest the canonical context search and advise following it.
    Suggest(String),
    /// Remove any suggestion and advise stopping.
    ClearAndStop,
    /// Remove any suggestion, leaving the advised action as it is.
    Clear,
    /// Leave the suggestion as it is.
    Unchanged,
}

/// The harness's identity verdict on one tool observation.
#[derive(Debug, PartialEq, Eq)]
pub struct Qualification {
    pub context_required: bool,
    pub context_query_grounded: bool,
    pub context_metadata_compatible: bool,
    pub context_verified: bool,
    /// The upstream tool reported a resolved fact.
    pub fact_resolved: bool,
    /// The search state was not a JSON object, so the fact is withheld as such.
    pub invalid_shape: bool,
    /// Whether the resolved fact is admitted; absent when no fact was resolved.
    pub identity_supported: Option<bool>,
    /// Why an admitted fact was admitted.
    pub identity_reason: Option<&'static str>,
    /// Why a resolved fact was withheld.
    pub reasons: Vec<&'static str>,
    pub suggestion: SuggestionUpdate,
}

/// The reasons a resolved fact is withheld, in the order they are checked.
pub open spec fn withheld_reasons(case: CaseSpec, query: Seq<char>, state: SearchState) -> Seq<Seq<char>> {
    let required = case.identity_context is Some;
    let grounded = required && grounded_search(case.initial_query@, opt_view(case.identity_context), query);
    let compatible = required && metadata_compatible(case, state);
    let resolved = opt_string(state.resolved_entity);
    let missing_entity: Seq<Seq<char>> = if resolved is None || resolved->0.len() == 0 { seq!["missing_resolved_entity"@] } else { Seq::empty() };
    let top_reasons: Seq<Seq<char>> = match state.wikipedia_top {
        None => seq!["missing_wikipedia_top_candidate"@],
        Some(top) => (if top.disambiguation == Some(true) { seq!["wikipedia_top_is_disambiguation"@] } else { Seq::empty() })
            + match opt_string(top.wikibase_item) {
                None => seq!["missing_wikipedia_top_entity"@],
                Some(e) => if e.len() == 0 {
                    seq!["missing_wikipedia_top_entity"@]
                } else if Some(e) != resolved {
                    seq!["resolved_entity_differs_from_wikipedia_top"@]
                } else {
                    Seq::empty()
                },
            },
    };
    let rank1 = state.corroboration_rank == Some(1u64);
    let direct = required && grounded && state.direct_wikibase_verified == Some(true)
        && opt_string(state.corroboration_mode) == Some("wikipedia_wikibase_direct"@);
    let corroboration: Seq<Seq<char>> = if !rank1 && !direct { seq!["cross_source_identity_evidence_insufficient"@] } else { Seq::empty() };
    let context_reasons: Seq<Seq<char>> = if required && !grounded {
        seq!["trusted_identity_context_not_verified_by_query"@]
    } else if required && !compatible {
        seq!["trusted_identity_context_not_supported_by_candidate_metadata"@]
    } else {
        Seq::empty()
    };
    missing_entity + top_reasons + corroboration + context_reasons
}

/// The suggestion to make when the stated context has not been searched yet.
pub open spec fn context_followup(case: CaseSpec) -> Option<Seq<char>> {
    canonical_query(case)
}

/// The suggestion update by views: the suggestion left, and whether the
/// advised action is set with it; nothing for an unchanged state.
pub open spec fn update_view(u: SuggestionUpdate) -> Option<(Option<Seq<char>>, bool)> {
    match u {
        SuggestionUpdate::Suggest(q) => Some((Some(q@), true)),
        SuggestionUpdate::ClearAndStop => Some((None, true)),
        SuggestionUpdate::Clear => Some((None, false)),
        SuggestionUpdate::Unchanged => None,
    }
}

/// The identity verdict on an observation: context flags; for anything but a
/// resolved fact only the follow-up advice changes, and nothing changes in a
/// state that is not an object; a resolved fact is
/// admitted exactly when no reason withholds it.
pub open spec fn qualification_holds(case: CaseSpec, query: Seq<char>, state: SearchState, q: Qualification) -> bool {
    let required = case.identity_context is Some;
    let grounded = required && grounded_search(case.initial_query@, opt_view(case.identity_context), query);
    let compatible = required && metadata_compatible(case, state);
    let kind = opt_string(state.outcome_kind);
    let reasons = withheld_reasons(case, query, state);
    let suggest_context = match context_followup(case) {
        Some(f) => Some((Some(f), true)),
        None => None,
    };
    &&& q.context_required == required
    &&& q.context_query_grounded == grounded
    &&& q.context_metadata_compatible == compatible
    &&& q.fact_resolved == (kind == Some("fact_resolved"@))
    &&& if kind != Some("fact_resolved"@) {
        &&& q.context_verified == (grounded && compatible)
        &&& !q.invalid_shape
        &&& q.identity_supported is None
        &&& q.identity_reason is None
        &&& q.reasons@.len() == 0
        &&& update_view(q.suggestion) == if !state.is_object {
            None
        } else if required && !grounded && kind != Some("invalid_query"@) {
            suggest_context
        } else if grounded {
            Some((None::<Seq<char>>, true))
        } else {
            None
        }
    } else if !state.is_object {
        &&& q.invalid_shape
        &&& !q.context_verified
        &&& q.identity_supported == Some(false)
        &&& q.identity_reason is None
        &&& q.reasons@.map_values(|r: &'static str| r@) == seq!["invalid_search_state_shape"@]
        &&& update_view(q.suggestion) == if required && !grounded { suggest_context } else { Some((None::<Seq<char>>, true)) }
    } else if reasons.len() == 0 {
        &&& !q.invalid_shape
        &&& q.context_verified == (grounded && compatible)
        &&& q.identity_supported == Some(true)
        &&& q.reasons@.len() == 0
        &&& q.identity_reason is Some
        &&& q.identity_reason->0@ == if required && grounded && state.direct_wikibase_verified == Some(true)
            && opt_string(state.corroboration_mode) == Some("wikipedia_wikibase_direct"@) {
            "direct_wikibase_verification_with_trusted_context_metadata"@
        } else if required {
            "rank1_cross_source_agreement_with_trusted_context_metadata"@
        } else {
            "rank1_cross_source_agreement"@
        }
        &&& q.suggestion == SuggestionUpdate::Clear
    } else {
        &&& !q.invalid_shape
        &&& q.context_verified == (grounded && compatible)
        &&& q.identity_supported == Some(false)
        &&& q.identity_reason is None
        &&& q.reasons@.map_values(|r: &'static str| r@) == reasons
        &&& update_view(q.suggestion) == if required && !grounded { suggest_context } else { Some((None::<Seq<char>>, true)) }
    }
}

/// A reason list by views.
pub open spec fn reasons_view(v: Seq<&'static str>) -> Seq<Seq<char>> {
    v.map_values(|r: &'static str| r@)
}

/// Appends a reason.
fn push_reason(v: &mut Vec<&'static str>, reason: &'static str)
    ensures
        reasons_view(final(v)@) == reasons_view(old(v)@).push(reason@),
{
    v.push(reason);
    assert(reasons_view(v@) =~= reasons_view(old(v)@).push(reason@));
}

/// The suggestion update for a context that still needs searching.
fn context_suggestion(case: CaseSpec) -> (r: SuggestionUpdate)
    ensures
        update_view(r) == match context_followup(case) {
            Some(f) => Some((Some(f), true)),
            None => None::<(Option<Seq<char>>, bool)>,
        },
{
    match canonical_identity_context_query(case) {
        Some(q) => SuggestionUpdate::Suggest(q),
        None => SuggestionUpdate::Unchanged,
    }
}

/// Whether an optional string equals a literal.
fn opt_is(o: &Option<String>, lit: &str) -> (r: bool)
    ensures
        r == (opt_string(*o) == Some(lit@)),
{
    match o {
        Some(s) => str_eq(s.as_str(), lit),
        None => false,
    }
}

/// Qualifies the identity behind a tool observation for the query that
/// produced it.
pub fn qualify_identity_for_query(case: CaseSpec, query: &str, state: &SearchState) -> (q: Qualification)
    ensures
        qualification_holds(case, query@, *state, q),
{
    let context_required = case.identity_context.is_some();
    let context_query_grounded = context_required && grounded_identity_context_search(case, query);
    let context_metadata_compatible = context_required && trusted_identity_context_metadata_compatible(case, state);
    let context_verified = context_query_grounded && context_metadata_compatible;
    let fact_resolved = opt_is(&state.outcome_kind, "fact_resolved");
    if !fact_resolved {
        let suggestion = if !state.is_object {
            SuggestionUpdate::Unchanged
        } else if context_required && !context_query_grounded && !opt_is(&state.outcome_kind, "invalid_query") {
            context_suggestion(case)
        } else if context_query_grounded {
            SuggestionUpdate::ClearAndStop
        } else {
            SuggestionUpdate::Unchanged
        };
        return Qualification {
            context_required,
            context_query_grounded,
            context_metadata_compatible,
            context_verified,
            fact_resolved,
            invalid_shape: false,
            identity_supported: None,
            identity_reason: None,
            reasons: Vec::new(),
            suggestion,
        };
    }
    let mut reasons: Vec<&'static str> = Vec::new();
    let ghost r0 = reasons_view(reasons@);
    assert(r0 =~= Seq::<Seq<char>>::empty());
    let missing_entity = match &state.resolved_entity {
        Some(e) => e.as_str().is_empty(),
        None => true,
    };
    if missing_entity {
        push_reason(&mut reasons, "missing_resolved_entity");
    }
    let ghost r1 = reasons_view(reasons@);
    match &state.wikipedia_top {
        None => {
            push_reason(&mut reasons, "missing_wikipedia_top_candidate");
        },
        Some(top) => {
            if top.disambiguation == Some(true) {
                push_reason(&mut reasons, "wikipedia_top_is_disambiguation");
            }
            let ghost r1b = reasons_view(reasons@);
            match &top.wikibase_item {
                None => {
                    push_reason(&mut reasons, "missing_wikipedia_top_entity");
                },
                Some(item) => {
                    if item.as_str().is_empty() {
                        push_reason(&mut reasons, "missing_wikipedia_top_entity");
                    } else {
                        let same = match &state.resolved_entity {
                            Some(e) => *e == *item,
                            None => false,
                        };
                        if !same {
                            push_reason(&mut reasons, "resolved_entity_differs_from_wikipedia_top");
                        } else {
                            assert(reasons_view(reasons@) =~= r1b + Seq::<Seq<char>>::empty());
                        }
                    }
                },
            }
        },
    }
    let ghost r2 = reasons_view(reasons@);
    let rank1 = state.corroboration_rank == Some(1u64);
    let direct = context_required && context_query_grounded && state.direct_wikibase_verified == Some(true)
        && opt_is(&state.corroboration_mode, "wikipedia_wikibase_direct");
    if !rank1 && !direct {
        push_reason(&mut reasons, "cross_source_identity_evidence_insufficient");
    }
    let ghost r3 = reasons_view(reasons@);
    if context_required && !context_query_grounded {
        push_reason(&mut reasons, "trusted_identity_context_not_verified_by_query");
    } else if context_required && !context_metadata_compatible {
        push_reason(&mut reasons, "trusted_identity_context_not_supported_by_candidate_metadata");
    }
    proof {
        let expected = withheld_reasons(case, query@, *state);
        assert(reasons_view(reasons@) =~= expected);
    }
    if !state.is_object {
        let mut only: Vec<&'static str> = Vec::new();
        push_reason(&mut only, "invalid_search_state_shape");
        assert(reasons_view(only@) =~= seq!["invalid_search_state_shape"@]);
        let suggestion = if context_required && !context_query_grounded {
            context_suggestion(case)
        } else {
            SuggestionUpdate::ClearAndStop
        };
        return Qualification {
            context_required,
            context_query_grounded,
            context_metadata_compatible,
            context_verified: false,
            fact_resolved,
            invalid_shape: true,
            identity_supported: Some(false),
            identity_reason: None,
            reasons: only,
            suggestion,
        };
    }
    if reasons.len() == 0 {
        let reason = if direct {
            "direct_wikibase_verification_with_trusted_context_metadata"
        } else if context_required {
            "rank1_cross_source_agreement_with_trusted_context_metadata"
        } else {
            "rank1_cross_source_agreement"
        };
        return Qualification {
            context_required,
            context_query_grounded,
            context_metadata_compatible,
            context_verified,
            fact_resolved,
            invalid_shape: false,
            identity_supported: Some(true),
            identity_reason: Some(reason),
            reasons,
            suggestion: SuggestionUpdate::Clear,
        };
    }
    let suggestion = if context_required && !context_query_grounded {
        context_suggestion(case)
    } else {
        SuggestionUpdate::ClearAndStop
    };
    Qualification {
        context_required,
        context_query_grounded,
        context_metadata_compatible,
        context_verified,
        fact_resolved,
        invalid_shape: false,
        identity_supported: Some(false),
        identity_reason: None,
        reasons,
        suggestion,
    }
}

/// The observation a qualified reply carries: a reply without a resolved fact
/// that is sent to the trusted context says so, a withheld fact says why
/// (the invalid shape, or its reasons joined by commas), each followed by the
/// upstream observation; otherwise the upstream observation stays.
pub open spec fn observation_after(q: Qualification, upstream: Seq<char>) -> Option<Seq<char>> {
    if !q.fact_resolved {
        if q.suggestion is Suggest {
            Some(
                "Harness requires trusted identity context before identity sufficiency; canonical follow-up is available only from Harness-owned context; upstream_observation="@
                    + upstream,
            )
        } else {
            None
        }
    } else if q.invalid_shape {
        Some(
            "Harness identity qualification withheld upstream fact: invalid search-state shape; upstream_observation="@
                + upstream,
        )
    } else if q.identity_supported == Some(false) {
        Some(
            "Harness identity qualification withheld upstream fact: reasons="@ + text::join(reasons_view(q.reasons@), ","@)
                + "; trusted context requires both a bounded context query and deterministic compatibility with corroborating candidate metadata; upstream_observation="@
                + upstream,
        )
    } else {
        None
    }
}

/// The observation a qualified reply carries, `None` when the upstream
/// observation stays.
pub fn qualified_observation(q: &Qualification, upstream: &str) -> (r: Option<String>)
    ensures
        opt_string(r) == observation_after(*q, upstream@),
{
    if !q.fact_resolved {
        return match q.suggestion {
            SuggestionUpdate::Suggest(_) => {
                let mut m = String::from_str(
                    "Harness requires trusted identity context before identity sufficiency; canonical follow-up is available only from Harness-owned context; upstream_observation=",
                );
                m.append(upstream);
                Some(m)
            },
            _ => None,
        };
    }
    if q.invalid_shape {
        let mut m = String::from_str(
            "Harness identity qualification withheld upstream fact: invalid search-state shape; upstream_observation=",
        );
        m.append(upstream);
        return Some(m);
    }
    match q.identity_supported {
        Some(false) => {},
        _ => {
            return None;
        },
    }
    let mut parts: Vec<Vec<char>> = Vec::new();
    let mut i: usize = 0;
    while i < q.reasons.len()
        invariant
            i <= q.reasons.len(),
            parts@.len() == i,
            forall|k: int| 0 <= k < i ==> #[trigger] parts@[k]@ == q.reasons@[k]@,
        decreases q.reasons.len() - i,
    {
        parts.push(chars_of(q.reasons[i]));
        i = i + 1;
    }
    let joined = join_chars(&parts, &chars_of(","));
    proof {
        assert(parts@.map_values(|p: Vec<char>| p@) =~= reasons_view(q.reasons@));
    }
    let mut m = String::from_str("Harness identity qualification withheld upstream fact: reasons=");
    let listed = string_of(&joined);
    m.append(listed.as_str());
    m.append(
        "; trusted context requires both a bounded context query and deterministic compatibility with corroborating candidate metadata; upstream_observation=",
    );
    m.append(upstream);
    Some(m)
}

/// A resolved fact is admitted only with a rank-one corroboration or a direct
/// Wikibase verification reached through a grounded context search, and, where
/// the task states a context, only after a grounded context search whose
/// candidate metadata carries that context.
pub proof fn admitted_facts_are_identity_verified(case: CaseSpec, query: Seq<char>, state: SearchState, q: Qualification)
    requires
        qualification_holds(case, query, state, q),
        q.identity_supported == Some(true),
    ensures
        state.corroboration_rank == Some(1u64) || (case.identity_context is Some && grounded_search(
            case.initial_query@,
            opt_view(case.identity_context),
            query,
        ) && state.direct_wikibase_verified == Some(true)),
        case.identity_context is Some ==> q.context_verified,
        opt_string(state.resolved_entity) is Some,
        state.wikipedia_top is Some,
{
    let reasons = withheld_reasons(case, query, state);
    assert(reasons.len() == 0);
}

// ---------------------------------------------------------------------------
// Sample bookkeeping.
// ---------------------------------------------------------------------------

/// The typed actions the planner is offered for an observation.
#[derive(Debug, Clone, Copy, PartialEq, Eq, Structural)]
pub enum ActionOffer {
    /// Follow the harness's untried suggestion, or stop.
    FollowOrStop,
    /// Search with the stated context, or stop.
    SearchOrStop,
    /// Stop only.
    StopOnly,
}

/// The actions offered: following an untried suggestion first, then an
/// untried canonical context search, otherwise stopping.
pub fn action_offer(case: CaseSpec, state: &SearchState, tried_queries: &Vec<String>) -> (r: ActionOffer)
    ensures
        r == (if suggestion(*state) is Some && !terms::strings_view(tried_queries@).contains(
            normalized_query(suggestion(*state)->0),
        ) {
            ActionOffer::FollowOrStop
        } else if canonical_query(case) is Some && !terms::strings_view(tried_queries@).contains(
            normalized_query(canonical_query(case)->0),
        ) {
            ActionOffer::SearchOrStop
        } else {
            ActionOffer::StopOnly
        }),
{
    let follow = match suggested_query(state) {
        Some(q) => {
            let normal = normalize_query(q.as_str());
            !terms::contains_string(tried_queries, &normal)
        },
        None => false,
    };
    if follow {
        ActionOffer::FollowOrStop
    } else if trusted_identity_context_search_remaining(case, tried_queries) {
        ActionOffer::SearchOrStop
    } else {
        ActionOffer::StopOnly
    }
}

/// Whether the tool may retry titles and fall back to direct Wikibase lookup:
/// only for a grounded context search.
pub fn title_retry_allowed(case: CaseSpec, query: &str) -> (r: bool)
    ensures
        r == (case.identity_context is Some && grounded_search(case.initial_query@, opt_view(case.identity_context), query@)),
{
    case.identity_context.is_some() && grounded_identity_context_search(case, query)
}

/// The stop a failed tool call causes: a transport failure when the tool says
/// so, a protocol failure otherwise.
pub fn tool_failure_kind(operational_kind: Option<&str>) -> (r: StopReason)
    ensures
        r == (if operational_kind is Some && operational_kind->0@ == "transport"@ {
            StopReason::ToolTransportFailure
        } else {
            StopReason::ToolProtocolFailure
        }),
{
    match operational_kind {
        Some(kind) => if str_eq(kind, "transport") {
            StopReason::ToolTransportFailure
        } else {
            StopReason::ToolProtocolFailure
        },
        None => StopReason::ToolProtocolFailure,
    }
}

/// Whether a round may start: within the wall clock and the tool-call budget,
/// and with a query not tried before.
pub fn round_precheck(elapsed_ms: u64, tool_calls: usize, query_already_tried: bool) -> (r: Option<StopReason>)
    ensures
        r == (if elapsed_ms >= MAX_ELAPSED_MS {
            Some(StopReason::WallClockBudget)
        } else if tool_calls >= MAX_TOOL_CALLS {
            Some(StopReason::MaxToolCalls)
        } else if query_already_tried {
            Some(StopReason::DuplicateQuery)
        } else {
            None
        }),
{
    if elapsed_ms >= MAX_ELAPSED_MS {
        Some(StopReason::WallClockBudget)
    } else if tool_calls >= MAX_TOOL_CALLS {
        Some(StopReason::MaxToolCalls)
    } else if query_already_tried {
        Some(StopReason::DuplicateQuery)
    } else {
        None
    }
}

/// The outcome a resolved fact value gives: accepted when it is the target
/// value, refuted otherwise.
pub fn resolved_outcome(case: CaseSpec, value: &str) -> (r: (ExpectedOutcome, StopReason))
    ensures
        value@ == case.target_value@ ==> r == (ExpectedOutcome::Accept, StopReason::ResolvedSupported),
        value@ != case.target_value@ ==> r == (ExpectedOutcome::Reject, StopReason::ResolvedRefuted),
{
    if str_eq(value, case.target_value) {
        (ExpectedOutcome::Accept, StopReason::ResolvedSupported)
    } else {
        (ExpectedOutcome::Reject, StopReason::ResolvedRefuted)
    }
}

/// The no-progress streak after a round: reset by any new progress item.
pub fn next_no_progress_rounds(current: usize, new_progress_items: usize) -> (r: usize)
    ensures
        new_progress_items == 0 ==> r == (if current == usize::MAX { current } else { (current + 1) as usize }),
        new_progress_items > 0 ==> r == 0,
{
    if new_progress_items == 0 {
        current.saturating_add(1)
    } else {
        0
    }
}

/// The sum of the bytes of a case id.
pub open spec fn byte_sum(bytes: Seq<u8>) -> nat
    decreases bytes.len(),
{
    if bytes.len() == 0 {
        0
    } else {
        byte_sum(bytes.drop_last()) + bytes.last() as nat
    }
}

/// `min(x, u64::MAX)`.
pub open spec fn clamp_u64(x: int) -> u64 {
    if x > u64::MAX { u64::MAX } else { x as u64 }
}

/// The planner seed of a trial, round and repair attempt: saturating
/// `trial * 10000 + round + attempt * 100 + sum of the case id's bytes`.
pub open spec fn planner_seed_spec(trial: u64, round: u64, attempt: u64, id_bytes: Seq<u8>) -> u64 {
    let a = clamp_u64(trial * 10000);
    let b = clamp_u64(a + round);
    let c = clamp_u64(b + clamp_u64(attempt * 100));
    clamp_u64(c + clamp_u64(byte_sum(id_bytes) as int))
}

/// The planner seed of a trial, round and repair attempt.
pub fn planner_seed(trial: u64, round: u64, attempt: u64, case_id: &str) -> (r: u64)
    ensures
        r == planner_seed_spec(trial, round, attempt, case_id.spec_bytes()),
{
    let bytes = case_id.as_bytes();
    let mut sum: u64 = 0;
    let mut i: usize = 0;
    while i < bytes.len()
        invariant
            i <= bytes@.len(),
            bytes@ == case_id.spec_bytes(),
            sum == clamp_u64(byte_sum(bytes@.subrange(0, i as int)) as int),
        decreases bytes.len() - i,
    {
        proof {
            assert(bytes@.subrange(0, i + 1).drop_last() =~= bytes@.subrange(0, i as int));
        }
        sum = sum.saturating_add(bytes[i] as u64);
        i = i + 1;
    }
    assert(bytes@.subrange(0, bytes@.len() as int) =~= bytes@);
    let a = match trial.checked_mul(10000) {
        Some(v) => v,
        None => u64::MAX,
    };
    let b = a.saturating_add(round);
    let scaled_attempt = match attempt.checked_mul(100) {
        Some(v) => v,
        None => u64::MAX,
    };
    let c = b.saturating_add(scaled_attempt);
    c.saturating_add(sum)
}

/// How a sample ended, from its stop reason and final outcome.
pub fn sample_result(stop_reason: StopReason, final_outcome: ExpectedOutcome, expected: ExpectedOutcome, invalid_action_observations: usize) -> (r: (bool, bool, bool))
    ensures
        r.0 == stop_reason.operational_spec(),
        r.1 == (!stop_reason.operational_spec() && !stop_reason.budget_spec() && final_outcome == expected),
        r.2 == (invalid_action_observations > 0 && r.1),
{
    let operational_failure = stop_reason.operational();
    let passed = !operational_failure && !stop_reason.budget() && final_outcome == expected;
    (operational_failure, passed, invalid_action_observations > 0 && passed)
}


// ---------------------------------------------------------------------------
// Benchmark totals.
// ---------------------------------------------------------------------------

/// What the totals read of one sample.
#[derive(Debug, Clone, Copy, PartialEq, Eq, Structural)]
pub struct CaseReport {
    pub expected: ExpectedOutcome,
    pub final_outcome: ExpectedOutcome,
    pub stop_reason: StopReason,
    pub passed: bool,
    pub operational_failure: bool,
    pub rounds: usize,
    pub tool_calls: usize,
    pub external_requests: usize,
    pub planner_calls: usize,
    pub model_tokens: u64,
    pub elapsed_ms: u64,
    pub identity_insufficient_observations: usize,
    pub identity_supported_observations: usize,
    pub invalid_action_observations: usize,
    pub invalid_actions_blocked_before_external_request: usize,
    pub follow_suggested_query_actions: usize,
    pub recovered_after_invalid_action: bool,
    pub context_unverified_fact_admissions: usize,
}

/// How many samples ended each way.
#[derive(Debug, Clone, Copy, PartialEq, Eq, Structural)]
pub struct OutcomeCounts {
    pub passed_samples: usize,
    pub false_acceptances: usize,
    pub false_abstentions: usize,
    pub semantic_false_decisions: usize,
    pub operational_unresolved: usize,
    pub planner_failures: usize,
    pub tool_failures: usize,
    pub budget_exhaustions: usize,
    pub no_progress_stops: usize,
    pub duplicate_query_stops: usize,
    pub samples_with_identity_insufficient: usize,
    pub identity_insufficient_accept_cases: usize,
    pub recovered_identity_insufficient_accept_cases: usize,
    pub samples_with_invalid_actions: usize,
    pub recovered_after_invalid_action: usize,
}

/// The totals of the per-sample measures.
#[derive(Debug, Clone, Copy, PartialEq, Eq, Structural)]
pub struct MeasureTotals {
    pub context_unverified_fact_admissions: usize,
    pub identity_insufficient_observations: usize,
    pub identity_supported_observations: usize,
    pub invalid_action_observations: usize,
    pub invalid_actions_blocked_before_external_request: usize,
    pub follow_suggested_query_actions: usize,
    pub external_requests: usize,
    pub rounds: usize,
    pub tool_calls: usize,
    pub planner_calls: usize,
    pub model_tokens: u64,
}

/// The benchmark aggregate; rates and means are the quotients of these
/// counts and totals by the number of samples they are taken over.
#[derive(Debug, Clone, Copy, PartialEq, Eq, Structural)]
pub struct Aggregate {
    pub cases: usize,
    pub trials_per_case: usize,
    pub samples: usize,
    pub counts: OutcomeCounts,
    pub totals: MeasureTotals,
    pub p50_elapsed_ms: u64,
    pub p95_elapsed_ms: u64,
    pub max_elapsed_ms: u64,
}

/// Samples that passed.
pub open spec fn passed_sample() -> spec_fn(CaseReport) -> bool {
    |s: CaseReport| s.passed
}

/// Samples that ended in a false acceptance.
pub open spec fn falsely_accepted() -> spec_fn(CaseReport) -> bool {
    |s: CaseReport| false_acceptance(s.expected, s.final_outcome)
}

/// Expected acceptances that abstained without an operational failure.
pub open spec fn falsely_abstained() -> spec_fn(CaseReport) -> bool {
    |s: CaseReport| s.expected == ExpectedOutcome::Accept && s.final_outcome == ExpectedOutcome::Unknown && !s.operational_failure
}

/// Samples that decided, and not as expected.
pub open spec fn falsely_decided() -> spec_fn(CaseReport) -> bool {
    |s: CaseReport| s.final_outcome != ExpectedOutcome::Unknown && s.final_outcome != s.expected
}

/// Samples with an operational failure.
pub open spec fn operationally_failed() -> spec_fn(CaseReport) -> bool {
    |s: CaseReport| s.operational_failure
}

/// Samples stopped by the planner's protocol, repairs or provider.
pub open spec fn planner_failed() -> spec_fn(CaseReport) -> bool {
    |s: CaseReport| s.stop_reason == StopReason::PlannerProtocolFailure || s.stop_reason == StopReason::PlannerActionRepairExhausted
        || s.stop_reason == StopReason::PlannerProviderFailure
}

/// Samples stopped by the tool's transport or protocol.
pub open spec fn tool_failed() -> spec_fn(CaseReport) -> bool {
    |s: CaseReport| s.stop_reason == StopReason::ToolTransportFailure || s.stop_reason == StopReason::ToolProtocolFailure
}

/// Samples stopped by a spent budget.
pub open spec fn budget_spent() -> spec_fn(CaseReport) -> bool {
    |s: CaseReport| s.stop_reason.budget_spec()
}

/// Samples stopped for want of progress.
pub open spec fn stopped_without_progress() -> spec_fn(CaseReport) -> bool {
    |s: CaseReport| s.stop_reason == StopReason::NoProgress
}

/// Samples stopped on a repeated query.
pub open spec fn stopped_on_duplicate() -> spec_fn(CaseReport) -> bool {
    |s: CaseReport| s.stop_reason == StopReason::DuplicateQuery
}

/// Samples with an identity-insufficient observation.
pub open spec fn saw_identity_insufficient() -> spec_fn(CaseReport) -> bool {
    |s: CaseReport| s.identity_insufficient_observations > 0
}

/// Expected acceptances with an identity-insufficient observation.
pub open spec fn accept_case_saw_identity_insufficient() -> spec_fn(CaseReport) -> bool {
    |s: CaseReport| s.expected == ExpectedOutcome::Accept && s.identity_insufficient_observations > 0
}

/// Those of them that passed with an acceptance.
pub open spec fn recovered_identity_insufficient() -> spec_fn(CaseReport) -> bool {
    |s: CaseReport| s.expected == ExpectedOutcome::Accept && s.identity_insufficient_observations > 0
        && s.final_outcome == ExpectedOutcome::Accept && s.passed
}

/// Samples with an invalid planner action.
pub open spec fn saw_invalid_action() -> spec_fn(CaseReport) -> bool {
    |s: CaseReport| s.invalid_action_observations > 0
}

/// Samples that recovered after an invalid planner action.
pub open spec fn recovered_invalid_action() -> spec_fn(CaseReport) -> bool {
    |s: CaseReport| s.recovered_after_invalid_action
}

/// The outcome counts of the samples.
pub open spec fn outcome_counts(s: Seq<CaseReport>) -> OutcomeCounts {
    OutcomeCounts {
        passed_samples: counting::count(s, passed_sample()) as usize,
        false_acceptances: counting::count(s, falsely_accepted()) as usize,
        false_abstentions: counting::count(s, falsely_abstained()) as usize,
        semantic_false_decisions: counting::count(s, falsely_decided()) as usize,
        operational_unresolved: counting::count(s, operationally_failed()) as usize,
        planner_failures: counting::count(s, planner_failed()) as usize,
        tool_failures: counting::count(s, tool_failed()) as usize,
        budget_exhaustions: counting::count(s, budget_spent()) as usize,
        no_progress_stops: counting::count(s, stopped_without_progress()) as usize,
        duplicate_query_stops: counting::count(s, stopped_on_duplicate()) as usize,
        samples_with_identity_insufficient: counting::count(s, saw_identity_insufficient()) as usize,
        identity_insufficient_accept_cases: counting::count(s, accept_case_saw_identity_insufficient()) as usize,
        recovered_identity_insufficient_accept_cases: counting::count(s, recovered_identity_insufficient()) as usize,
        samples_with_invalid_actions: counting::count(s, saw_invalid_action()) as usize,
        recovered_after_invalid_action: counting::count(s, recovered_invalid_action()) as usize,
    }
}

/// The decision counts count samples one by one: one more sample raises the
/// false acceptances exactly when it decided a case that did not expect an
/// acceptance otherwise than expected, the false abstentions exactly when it
/// abstained on an expected acceptance without an operational failure, the
/// wrong decisions exactly when it decided otherwise than expected, and the
/// passed samples exactly when it passed.
pub proof fn decision_counts_count_each_sample(s: Seq<CaseReport>, c: CaseReport)
    requires
        s.len() < usize::MAX,
    ensures
        outcome_counts(s.push(c)).false_acceptances as int == outcome_counts(s).false_acceptances as int + if c.expected
            != ExpectedOutcome::Accept && c.final_outcome != ExpectedOutcome::Unknown && c.final_outcome != c.expected {
            1int
        } else {
            0int
        },
        outcome_counts(s.push(c)).false_abstentions as int == outcome_counts(s).false_abstentions as int + if c.expected
            == ExpectedOutcome::Accept && c.final_outcome == ExpectedOutcome::Unknown && !c.operational_failure {
            1int
        } else {
            0int
        },
        outcome_counts(s.push(c)).semantic_false_decisions as int == outcome_counts(s).semantic_false_decisions as int
            + if c.final_outcome != ExpectedOutcome::Unknown && c.final_outcome != c.expected {
            1int
        } else {
            0int
        },
        outcome_counts(s.push(c)).passed_samples as int == outcome_counts(s).passed_samples as int + if c.passed {
            1int
        } else {
            0int
        },
        outcome_counts(Seq::empty()).false_acceptances == 0,
{
    assert(s.push(c).drop_last() =~= s);
    counting::lemma_count_bound(s, falsely_accepted());
    counting::lemma_count_bound(s.push(c), falsely_accepted());
    counting::lemma_count_bound(s, falsely_abstained());
    counting::lemma_count_bound(s.push(c), falsely_abstained());
    counting::lemma_count_bound(s, falsely_decided());
    counting::lemma_count_bound(s.push(c), falsely_decided());
    counting::lemma_count_bound(s, passed_sample());
    counting::lemma_count_bound(s.push(c), passed_sample());
}

/// One more sample added to the counts.
pub open spec fn counts_step(r: OutcomeCounts, c: CaseReport) -> OutcomeCounts {
    OutcomeCounts {
        passed_samples: (r.passed_samples + if passed_sample()(c) { 1int } else { 0int }) as usize,
        false_acceptances: (r.false_acceptances + if falsely_accepted()(c) { 1int } else { 0int }) as usize,
        false_abstentions: (r.false_abstentions + if falsely_abstained()(c) { 1int } else { 0int }) as usize,
        semantic_false_decisions: (r.semantic_false_decisions + if falsely_decided()(c) { 1int } else { 0int }) as usize,
        operational_unresolved: (r.operational_unresolved + if operationally_failed()(c) { 1int } else { 0int }) as usize,
        planner_failures: (r.planner_failures + if planner_failed()(c) { 1int } else { 0int }) as usize,
        tool_failures: (r.tool_failures + if tool_failed()(c) { 1int } else { 0int }) as usize,
        budget_exhaustions: (r.budget_exhaustions + if budget_spent()(c) { 1int } else { 0int }) as usize,
        no_progress_stops: (r.no_progress_stops + if stopped_without_progress()(c) { 1int } else { 0int }) as usize,
        duplicate_query_stops: (r.duplicate_query_stops + if stopped_on_duplicate()(c) { 1int } else { 0int }) as usize,
        samples_with_identity_insufficient: (r.samples_with_identity_insufficient + if saw_identity_insufficient()(c) { 1int } else { 0int }) as usize,
        identity_insufficient_accept_cases: (r.identity_insufficient_accept_cases + if accept_case_saw_identity_insufficient()(c) { 1int } else { 0int }) as usize,
        recovered_identity_insufficient_accept_cases: (r.recovered_identity_insufficient_accept_cases + if recovered_identity_insufficient()(c) { 1int } else { 0int }) as usize,
        samples_with_invalid_actions: (r.samples_with_invalid_actions + if saw_invalid_action()(c) { 1int } else { 0int }) as usize,
        recovered_after_invalid_action: (r.recovered_after_invalid_action + if recovered_invalid_action()(c) { 1int } else { 0int }) as usize,
    }
}

/// Every count is at most `n`.
pub open spec fn counts_at_most(r: OutcomeCounts, n: int) -> bool {
    &&& r.passed_samples <= n
    &&& r.false_acceptances <= n
    &&& r.false_abstentions <= n
    &&& r.semantic_false_decisions <= n
    &&& r.operational_unresolved <= n
    &&& r.planner_failures <= n
    &&& r.tool_failures <= n
    &&& r.budget_exhaustions <= n
    &&& r.no_progress_stops <= n
    &&& r.duplicate_query_stops <= n
    &&& r.samples_with_identity_insufficient <= n
    &&& r.identity_insufficient_accept_cases <= n
    &&& r.recovered_identity_insufficient_accept_cases <= n
    &&& r.samples_with_invalid_actions <= n
    &&& r.recovered_after_invalid_action <= n
}

/// The counts of a prefix one sample longer.
proof fn lemma_counts_prefix(s: Seq<CaseReport>, i: int)
    requires
        0 <= i < s.len(),
        s.len() <= usize::MAX,
    ensures
        outcome_counts(s.subrange(0, i + 1)) == counts_step(outcome_counts(s.subrange(0, i)), s[i]),
        counts_at_most(outcome_counts(s.subrange(0, i)), i),
{
    counting::lemma_count_prefix(s, passed_sample(), i);
    counting::lemma_count_prefix(s, falsely_accepted(), i);
    counting::lemma_count_prefix(s, falsely_abstained(), i);
    counting::lemma_count_prefix(s, falsely_decided(), i);
    counting::lemma_count_prefix(s, operationally_failed(), i);
    counting::lemma_count_prefix(s, planner_failed(), i);
    counting::lemma_count_prefix(s, tool_failed(), i);
    counting::lemma_count_prefix(s, budget_spent(), i);
    counting::lemma_count_prefix(s, stopped_without_progress(), i);
    counting::lemma_count_prefix(s, stopped_on_duplicate(), i);
    counting::lemma_count_prefix(s, saw_identity_insufficient(), i);
    counting::lemma_count_prefix(s, accept_case_saw_identity_insufficient(), i);
    counting::lemma_count_prefix(s, recovered_identity_insufficient(), i);
    counting::lemma_count_prefix(s, saw_invalid_action(), i);
    counting::lemma_count_prefix(s, recovered_invalid_action(), i);
}

/// Adds one sample to the counts.
#[verifier::spinoff_prover]
#[verifier::rlimit(40)]
fn add_outcome(r: OutcomeCounts, c: &CaseReport) -> (n: OutcomeCounts)
    requires
        counts_at_most(r, usize::MAX - 1),
    ensures
        n == counts_step(r, *c),
{
    let accept = c.expected == ExpectedOutcome::Accept;
    let insufficient = c.identity_insufficient_observations > 0;
    let mut n = r;
    if c.passed {
        n.passed_samples = n.passed_samples + 1;
    }
    if is_false_acceptance(c.expected, c.final_outcome) {
        n.false_acceptances = n.false_acceptances + 1;
    }
    if accept && c.final_outcome == ExpectedOutcome::Unknown && !c.operational_failure {
        n.false_abstentions = n.false_abstentions + 1;
    }
    if is_semantic_false_decision(c.expected, c.final_outcome) {
        n.semantic_false_decisions = n.semantic_false_decisions + 1;
    }
    if c.operational_failure {
        n.operational_unresolved = n.operational_unresolved + 1;
    }
    match c.stop_reason {
        StopReason::PlannerProtocolFailure | StopReason::PlannerActionRepairExhausted | StopReason::PlannerProviderFailure => {
            n.planner_failures = n.planner_failures + 1;
        },
        StopReason::ToolTransportFailure | StopReason::ToolProtocolFailure => {
            n.tool_failures = n.tool_failures + 1;
        },
        StopReason::NoProgress => {
            n.no_progress_stops = n.no_progress_stops + 1;
        },
        StopReason::DuplicateQuery => {
            n.duplicate_query_stops = n.duplicate_query_stops + 1;
        },
        _ => {},
    }
    if c.stop_reason.budget() {
        n.budget_exhaustions = n.budget_exhaustions + 1;
    }
    if insufficient {
        n.samples_with_identity_insufficient = n.samples_with_identity_insufficient + 1;
        if accept {
            n.identity_insufficient_accept_cases = n.identity_insufficient_accept_cases + 1;
            if c.final_outcome == ExpectedOutcome::Accept && c.passed {
                n.recovered_identity_insufficient_accept_cases = n.recovered_identity_insufficient_accept_cases + 1;
            }
        }
    }
    if c.invalid_action_observations > 0 {
        n.samples_with_invalid_actions = n.samples_with_invalid_actions + 1;
    }
    if c.recovered_after_invalid_action {
        n.recovered_after_invalid_action = n.recovered_after_invalid_action + 1;
    }
    n
}

/// Counts how many samples ended each way.
pub fn count_outcomes(samples: &[CaseReport]) -> (r: OutcomeCounts)
    ensures
        r == outcome_counts(samples@),
{
    let ghost s = samples@;
    let mut r = OutcomeCounts {
        passed_samples: 0,
        false_acceptances: 0,
        false_abstentions: 0,
        semantic_false_decisions: 0,
        operational_unresolved: 0,
        planner_failures: 0,
        tool_failures: 0,
        budget_exhaustions: 0,
        no_progress_stops: 0,
        duplicate_query_stops: 0,
        samples_with_identity_insufficient: 0,
        identity_insufficient_accept_cases: 0,
        recovered_identity_insufficient_accept_cases: 0,
        samples_with_invalid_actions: 0,
        recovered_after_invalid_action: 0,
    };
    assert(r == outcome_counts(s.subrange(0, 0)));
    let mut i: usize = 0;
    while i < samples.len()
        invariant
            s == samples@,
            i <= s.len(),
            r == outcome_counts(s.subrange(0, i as int)),
        decreases s.len() - i,
    {
        proof {
            lemma_counts_prefix(s, i as int);
        }
        r = add_outcome(r, &samples[i]);
        i = i + 1;
    }
    proof {
        counting::lemma_full_prefix(s);
    }
    r
}

/// The `context_unverified_fact_admissions` of a sample.
pub open spec fn measure_context_unverified_fact_admissions() -> spec_fn(CaseReport) -> nat {
    |c: CaseReport| c.context_unverified_fact_admissions as nat
}

/// The `identity_insufficient_observations` of a sample.
pub open spec fn measure_identity_insufficient_observations() -> spec_fn(CaseReport) -> nat {
    |c: CaseReport| c.identity_insufficient_observations as nat
}

/// The `identity_supported_observations` of a sample.
pub open spec fn measure_identity_supported_observations() -> spec_fn(CaseReport) -> nat {
    |c: CaseReport| c.identity_supported_observations as nat
}

/// The `invalid_action_observations` of a sample.
pub open spec fn measure_invalid_action_observations() -> spec_fn(CaseReport) -> nat {
    |c: CaseReport| c.invalid_action_observations as nat
}

/// The `invalid_actions_blocked_before_external_request` of a sample.
pub open spec fn measure_invalid_actions_blocked_before_external_request() -> spec_fn(CaseReport) -> nat {
    |c: CaseReport| c.invalid_actions_blocked_before_external_request as nat
}

/// The `follow_suggested_query_actions` of a sample.
pub open spec fn measure_follow_suggested_query_actions() -> spec_fn(CaseReport) -> nat {
    |c: CaseReport| c.follow_suggested_query_actions as nat
}

/// The `external_requests` of a sample.
pub open spec fn measure_external_requests() -> spec_fn(CaseReport) -> nat {
    |c: CaseReport| c.external_requests as nat
}

/// The `rounds` of a sample.
pub open spec fn measure_rounds() -> spec_fn(CaseReport) -> nat {
    |c: CaseReport| c.rounds as nat
}

/// The `tool_calls` of a sample.
pub open spec fn measure_tool_calls() -> spec_fn(CaseReport) -> nat {
    |c: CaseReport| c.tool_calls as nat
}

/// The `planner_calls` of a sample.
pub open spec fn measure_planner_calls() -> spec_fn(CaseReport) -> nat {
    |c: CaseReport| c.planner_calls as nat
}

/// The `model_tokens` of a sample.
pub open spec fn measure_model_tokens() -> spec_fn(CaseReport) -> nat {
    |c: CaseReport| c.model_tokens as nat
}

/// The totals of the per-sample measures.
pub open spec fn measure_totals(s: Seq<CaseReport>) -> MeasureTotals {
    MeasureTotals {
        context_unverified_fact_admissions: counting::sum(s, measure_context_unverified_fact_admissions()) as usize,
        identity_insufficient_observations: counting::sum(s, measure_identity_insufficient_observations()) as usize,
        identity_supported_observations: counting::sum(s, measure_identity_supported_observations()) as usize,
        invalid_action_observations: counting::sum(s, measure_invalid_action_observations()) as usize,
        invalid_actions_blocked_before_external_request: counting::sum(s, measure_invalid_actions_blocked_before_external_request()) as usize,
        follow_suggested_query_actions: counting::sum(s, measure_follow_suggested_query_actions()) as usize,
        external_requests: counting::sum(s, measure_external_requests()) as usize,
        rounds: counting::sum(s, measure_rounds()) as usize,
        tool_calls: counting::sum(s, measure_tool_calls()) as usize,
        planner_calls: counting::sum(s, measure_planner_calls()) as usize,
        model_tokens: counting::sum(s, measure_model_tokens()) as u64,
    }
}

/// Every total fits its field.
pub open spec fn totals_fit(s: Seq<CaseReport>) -> bool {
    &&& counting::sum(s, measure_context_unverified_fact_admissions()) <= usize::MAX
    &&& counting::sum(s, measure_identity_insufficient_observations()) <= usize::MAX
    &&& counting::sum(s, measure_identity_supported_observations()) <= usize::MAX
    &&& counting::sum(s, measure_invalid_action_observations()) <= usize::MAX
    &&& counting::sum(s, measure_invalid_actions_blocked_before_external_request()) <= usize::MAX
    &&& counting::sum(s, measure_follow_suggested_query_actions()) <= usize::MAX
    &&& counting::sum(s, measure_external_requests()) <= usize::MAX
    &&& counting::sum(s, measure_rounds()) <= usize::MAX
    &&& counting::sum(s, measure_tool_calls()) <= usize::MAX
    &&& counting::sum(s, measure_planner_calls()) <= usize::MAX
    &&& counting::sum(s, measure_model_tokens()) <= u64::MAX
}

/// Each total of `longer` is that of `shorter` plus the measure of `c`.
pub open spec fn totals_extend(shorter: Seq<CaseReport>, longer: Seq<CaseReport>, c: CaseReport) -> bool {
    &&& counting::sum(longer, measure_context_unverified_fact_admissions()) == counting::sum(shorter, measure_context_unverified_fact_admissions()) + c.context_unverified_fact_admissions
    &&& counting::sum(longer, measure_identity_insufficient_observations()) == counting::sum(shorter, measure_identity_insufficient_observations()) + c.identity_insufficient_observations
    &&& counting::sum(longer, measure_identity_supported_observations()) == counting::sum(shorter, measure_identity_supported_observations()) + c.identity_supported_observations
    &&& counting::sum(longer, measure_invalid_action_observations()) == counting::sum(shorter, measure_invalid_action_observations()) + c.invalid_action_observations
    &&& counting::sum(longer, measure_invalid_actions_blocked_before_external_request()) == counting::sum(shorter, measure_invalid_actions_blocked_before_external_request()) + c.invalid_actions_blocked_before_external_request
    &&& counting::sum(longer, measure_follow_suggested_query_actions()) == counting::sum(shorter, measure_follow_suggested_query_actions()) + c.follow_suggested_query_actions
    &&& counting::sum(longer, measure_external_requests()) == counting::sum(shorter, measure_external_requests()) + c.external_requests
    &&& counting::sum(longer, measure_rounds()) == counting::sum(shorter, measure_rounds()) + c.rounds
    &&& counting::sum(longer, measure_tool_calls()) == counting::sum(shorter, measure_tool_calls()) + c.tool_calls
    &&& counting::sum(longer, measure_planner_calls()) == counting::sum(shorter, measure_planner_calls()) + c.planner_calls
    &&& counting::sum(longer, measure_model_tokens()) == counting::sum(shorter, measure_model_tokens()) + c.model_tokens
}

/// The totals of a prefix one sample longer, and that they fit.
proof fn lemma_totals_prefix(s: Seq<CaseReport>, i: int)
    requires
        0 <= i < s.len(),
        totals_fit(s),
    ensures
        totals_extend(s.subrange(0, i), s.subrange(0, i + 1), s[i]),
        totals_fit(s.subrange(0, i)),
        totals_fit(s.subrange(0, i + 1)),
{
    counting::lemma_sum_prefix(s, measure_context_unverified_fact_admissions(), i);
    counting::lemma_sum_prefix_monotone(s, measure_context_unverified_fact_admissions(), i + 1);
    counting::lemma_sum_prefix(s, measure_identity_insufficient_observations(), i);
    counting::lemma_sum_prefix_monotone(s, measure_identity_insufficient_observations(), i + 1);
    counting::lemma_sum_prefix(s, measure_identity_supported_observations(), i);
    counting::lemma_sum_prefix_monotone(s, measure_identity_supported_observations(), i + 1);
    counting::lemma_sum_prefix(s, measure_invalid_action_observations(), i);
    counting::lemma_sum_prefix_monotone(s, measure_invalid_action_observations(), i + 1);
    counting::lemma_sum_prefix(s, measure_invalid_actions_blocked_before_external_request(), i);
    counting::lemma_sum_prefix_monotone(s, measure_invalid_actions_blocked_before_external_request(), i + 1);
    counting::lemma_sum_prefix(s, measure_follow_suggested_query_actions(), i);
    counting::lemma_sum_prefix_monotone(s, measure_follow_suggested_query_actions(), i + 1);
    counting::lemma_sum_prefix(s, measure_external_requests(), i);
    counting::lemma_sum_prefix_monotone(s, measure_external_requests(), i + 1);
    counting::lemma_sum_prefix(s, measure_rounds(), i);
    counting::lemma_sum_prefix_monotone(s, measure_rounds(), i + 1);
    counting::lemma_sum_prefix(s, measure_tool_calls(), i);
    counting::lemma_sum_prefix_monotone(s, measure_tool_calls(), i + 1);
    counting::lemma_sum_prefix(s, measure_planner_calls(), i);
    counting::lemma_sum_prefix_monotone(s, measure_planner_calls(), i + 1);
    counting::lemma_sum_prefix(s, measure_model_tokens(), i);
    counting::lemma_sum_prefix_monotone(s, measure_model_tokens(), i + 1);
    counting::lemma_sum_prefix_monotone(s, measure_context_unverified_fact_admissions(), i);
    counting::lemma_sum_prefix_monotone(s, measure_identity_insufficient_observations(), i);
    counting::lemma_sum_prefix_monotone(s, measure_identity_supported_observations(), i);
    counting::lemma_sum_prefix_monotone(s, measure_invalid_action_observations(), i);
    counting::lemma_sum_prefix_monotone(s, measure_invalid_actions_blocked_before_external_request(), i);
    counting::lemma_sum_prefix_monotone(s, measure_follow_suggested_query_actions(), i);
    counting::lemma_sum_prefix_monotone(s, measure_external_requests(), i);
    counting::lemma_sum_prefix_monotone(s, measure_rounds(), i);
    counting::lemma_sum_prefix_monotone(s, measure_tool_calls(), i);
    counting::lemma_sum_prefix_monotone(s, measure_planner_calls(), i);
    counting::lemma_sum_prefix_monotone(s, measure_model_tokens(), i);
}

/// Totals the per-sample measures.
pub fn total_measures(samples: &[CaseReport]) -> (r: MeasureTotals)
    requires
        totals_fit(samples@),
    ensures
        r == measure_totals(samples@),
{
    let ghost s = samples@;
    let mut r = MeasureTotals {
        context_unverified_fact_admissions: 0,
        identity_insufficient_observations: 0,
        identity_supported_observations: 0,
        invalid_action_observations: 0,
        invalid_actions_blocked_before_external_request: 0,
        follow_suggested_query_actions: 0,
        external_requests: 0,
        rounds: 0,
        tool_calls: 0,
        planner_calls: 0,
        model_tokens: 0,
    };
    assert(r == measure_totals(s.subrange(0, 0)));
    let mut i: usize = 0;
    while i < samples.len()
        invariant
            s == samples@,
            i <= s.len(),
            totals_fit(s),
            totals_fit(s.subrange(0, i as int)),
            r == measure_totals(s.subrange(0, i as int)),
        decreases s.len() - i,
    {
        proof {
            lemma_totals_prefix(s, i as int);
        }
        let c = &samples[i];
        r.context_unverified_fact_admissions = r.context_unverified_fact_admissions + c.context_unverified_fact_admissions;
        r.identity_insufficient_observations = r.identity_insufficient_observations + c.identity_insufficient_observations;
        r.identity_supported_observations = r.identity_supported_observations + c.identity_supported_observations;
        r.invalid_action_observations = r.invalid_action_observations + c.invalid_action_observations;
        r.invalid_actions_blocked_before_external_request = r.invalid_actions_blocked_before_external_request + c.invalid_actions_blocked_before_external_request;
        r.follow_suggested_query_actions = r.follow_suggested_query_actions + c.follow_suggested_query_actions;
        r.external_requests = r.external_requests + c.external_requests;
        r.rounds = r.rounds + c.rounds;
        r.tool_calls = r.tool_calls + c.tool_calls;
        r.planner_calls = r.planner_calls + c.planner_calls;
        r.model_tokens = r.model_tokens + c.model_tokens;
        i = i + 1;
    }
    proof {
        counting::lemma_full_prefix(s);
    }
    r
}

/// The elapsed times of the samples, in order.
pub open spec fn elapsed_times(s: Seq<CaseReport>) -> Seq<u64> {
    s.map_values(|c: CaseReport| c.elapsed_ms)
}

/// The benchmark aggregate of the samples of `cases` cases run `trials` times.
pub open spec fn aggregate_spec(s: Seq<CaseReport>, cases: usize, trials: usize) -> Aggregate {
    Aggregate {
        cases,
        trials_per_case: trials,
        samples: s.len() as usize,
        counts: outcome_counts(s),
        totals: measure_totals(s),
        p50_elapsed_ms: order::benchmark_percentile(elapsed_times(s), 50),
        p95_elapsed_ms: order::benchmark_percentile(elapsed_times(s), 95),
        max_elapsed_ms: match order::max_of(elapsed_times(s)) {
            Some(m) => m,
            None => 0,
        },
    }
}

/// Aggregates the samples of `cases` cases run `trials` times.
pub fn aggregate(samples: &[CaseReport], cases: usize, trials: usize) -> (r: Aggregate)
    requires
        totals_fit(samples@),
        samples.len() * 100 <= usize::MAX,
    ensures
        r == aggregate_spec(samples@, cases, trials),
{
    let mut elapsed: Vec<u64> = Vec::new();
    let mut i: usize = 0;
    while i < samples.len()
        invariant
            i <= samples.len(),
            elapsed@ == elapsed_times(samples@.subrange(0, i as int)),
        decreases samples.len() - i,
    {
        elapsed.push(samples[i].elapsed_ms);
        i = i + 1;
        assert(elapsed@ =~= elapsed_times(samples@.subrange(0, i as int)));
    }
    proof {
        counting::lemma_full_prefix(samples@);
    }
    let max_elapsed_ms = match order::max_u64(elapsed.as_slice()) {
        Some(m) => m,
        None => 0,
    };
    Aggregate {
        cases,
        trials_per_case: trials,
        samples: samples.len(),
        counts: count_outcomes(samples),
        totals: total_measures(samples),
        p50_elapsed_ms: order::benchmark_percentile_of(elapsed.as_slice(), 50),
        p95_elapsed_ms: order::benchmark_percentile_of(elapsed.as_slice(), 95),
        max_elapsed_ms,
    }
}

/// In every aggregate, each false acceptance is also a wrong terminal
/// decision, recovered identity-insufficient acceptances are among the
/// identity-insufficient acceptance cases, which are among the samples with an
/// identity-insufficient observation, and no count exceeds the samples.
pub proof fn aggregate_counts_nest(s: Seq<CaseReport>)
    requires
        s.len() <= usize::MAX,
    ensures
        outcome_counts(s).false_acceptances <= outcome_counts(s).semantic_false_decisions,
        outcome_counts(s).recovered_identity_insufficient_accept_cases <= outcome_counts(s).identity_insufficient_accept_cases,
        outcome_counts(s).identity_insufficient_accept_cases <= outcome_counts(s).samples_with_identity_insufficient,
        outcome_counts(s).samples_with_identity_insufficient <= s.len(),
        outcome_counts(s).passed_samples <= s.len(),
{
    counting::lemma_count_implies(s, falsely_accepted(), falsely_decided());
    counting::lemma_count_implies(s, recovered_identity_insufficient(), accept_case_saw_identity_insufficient());
    counting::lemma_count_implies(s, accept_case_saw_identity_insufficient(), saw_identity_insufficient());
    counting::lemma_count_bound(s, saw_identity_insufficient());
    counting::lemma_count_bound(s, passed_sample());
    counting::lemma_count_bound(s, falsely_accepted());
    counting::lemma_count_bound(s, falsely_decided());
    counting::lemma_count_bound(s, recovered_identity_insufficient());
    counting::lemma_count_bound(s, accept_case_saw_identity_insufficient());
}

// ---------------------------------------------------------------------------
// Progress and novelty.
// ---------------------------------------------------------------------------

/// `prefix` followed by `value`.
fn labelled(prefix: &str, value: &str) -> (r: String)
    ensures
        r@ == prefix@ + value@,
{
    let mut item = String::from_str(prefix);
    item.append(value);
    item
}

/// The labelled items of a list of strings.
pub open spec fn labelled_items(prefix: Seq<char>, values: Seq<String>) -> Set<Seq<char>> {
    Set::new(|x: Seq<char>| exists|i: int| 0 <= i < values.len() && x == prefix + (#[trigger] values[i])@)
}

/// The target progress a round shows: a grounded context search, a
/// harness-suggested follow-up, and, unless identity is insufficient, the
/// resolved entity and the property values found.
pub open spec fn progress_set(case: CaseSpec, query: Seq<char>, state: SearchState, property_values: Seq<String>) -> Set<Seq<char>> {
    let context = if grounded_search(case.initial_query@, opt_view(case.identity_context), query) {
        set!["trusted_identity_context:"@ + normalized_query(case.identity_context->0@)]
    } else {
        Set::empty()
    };
    let suggested = match suggestion(state) {
        Some(q) => set!["suggested_query:"@ + q],
        None => Set::empty(),
    };
    let found = if opt_string(state.outcome_kind) != Some("identity_insufficient"@) {
        let entity = match state.resolved_entity {
            Some(e) => if text::trim(e@).len() > 0 { set!["resolved_entity:"@ + e@] } else { Set::empty() },
            None => Set::empty(),
        };
        entity + labelled_items("property_values:"@, property_values)
    } else {
        Set::empty()
    };
    context + suggested + found
}

/// Inserts every labelled value into a sorted set.
fn insert_labelled(set: &mut Vec<String>, prefix: &str, values: &Vec<String>)
    requires
        terms::strictly_ascending(terms::strings_view(old(set)@)),
    ensures
        terms::strictly_ascending(terms::strings_view(final(set)@)),
        terms::strings_view(final(set)@).to_set() == terms::strings_view(old(set)@).to_set() + labelled_items(prefix@, values@),
{
    let ghost start = terms::strings_view(set@).to_set();
    let mut i: usize = 0;
    while i < values.len()
        invariant
            i <= values.len(),
            terms::strictly_ascending(terms::strings_view(set@)),
            terms::strings_view(set@).to_set() == start + labelled_items(prefix@, values@.subrange(0, i as int)),
        decreases values.len() - i,
    {
        let item = labelled(prefix, values[i].as_str());
        insert_sorted(set, item);
        proof {
            let a = labelled_items(prefix@, values@.subrange(0, i as int));
            let b = labelled_items(prefix@, values@.subrange(0, i + 1));
            assert forall|x: Seq<char>| #[trigger] b.contains(x) <==> a.insert(prefix@ + values@[i as int]@).contains(x) by {
                if b.contains(x) {
                    let k = choose|k: int| 0 <= k < i + 1 && x == prefix@ + (#[trigger] values@.subrange(0, i + 1)[k])@;
                    if k < i {
                        assert(values@.subrange(0, i as int)[k] == values@.subrange(0, i + 1)[k]);
                    }
                }
                if a.contains(x) {
                    let k = choose|k: int| 0 <= k < i && x == prefix@ + (#[trigger] values@.subrange(0, i as int)[k])@;
                    assert(values@.subrange(0, i as int)[k] == values@.subrange(0, i + 1)[k]);
                }
                if x == prefix@ + values@[i as int]@ {
                    assert(values@.subrange(0, i + 1)[i as int] == values@[i as int]);
                }
            }
            assert(b =~= a.insert(prefix@ + values@[i as int]@));
        }
        i = i + 1;
    }
    proof {
        assert(values@.subrange(0, values@.len() as int) =~= values@);
    }
}

/// The target progress items of a round, in ascending order.
pub fn target_progress_items(case: CaseSpec, query: &str, state: &SearchState, property_values: &Vec<String>) -> (r: Vec<String>)
    ensures
        terms::strictly_ascending(terms::strings_view(r@)),
        terms::strings_view(r@).to_set() == progress_set(case, query@, *state, property_values@),
{
    let mut out: Vec<String> = Vec::new();
    proof {
        assert(terms::strings_view(out@) =~= Seq::<Seq<char>>::empty());
        assert(terms::strings_view(out@).to_set() =~= Set::<Seq<char>>::empty());
    }
    let ghost s0 = terms::strings_view(out@).to_set();
    match identity_context_progress_item(case, query) {
        Some(item) => {
            insert_sorted(&mut out, item);
        },
        None => {},
    }
    let ghost s1 = terms::strings_view(out@).to_set();
    match suggested_query(state) {
        Some(value) => {
            insert_sorted(&mut out, labelled("suggested_query:", value.as_str()));
        },
        None => {},
    }
    let ghost s2 = terms::strings_view(out@).to_set();
    let insufficient = match &state.outcome_kind {
        Some(kind) => str_eq(kind.as_str(), "identity_insufficient"),
        None => false,
    };
    if !insufficient {
        match &state.resolved_entity {
            Some(value) => {
                if trim_chars(&chars_of(value.as_str())).len() > 0 {
                    insert_sorted(&mut out, labelled("resolved_entity:", value.as_str()));
                }
            },
            None => {},
        }
        insert_labelled(&mut out, "property_values:", property_values);
    }
    proof {
        assert(terms::strings_view(out@).to_set() =~= progress_set(case, query@, *state, property_values@));
    }
    out
}

/// What the novelty items read of a search state.
#[derive(Debug)]
pub struct NoveltyFields {
    pub wikidata_candidate_ids: Vec<String>,
    pub title_retry_candidate_ids: Vec<String>,
    pub identity_reasons: Vec<String>,
    pub wikipedia_top_entity: Option<String>,
    pub wikipedia_top_title: Option<String>,
    pub outcome_kind: Option<String>,
    pub identity_reason: Option<String>,
    pub validation_reason: Option<String>,
    pub candidate_titles: Vec<String>,
    pub candidate_entities: Vec<String>,
}

/// A labelled optional value.
pub open spec fn labelled_option(prefix: Seq<char>, value: Option<String>) -> Set<Seq<char>> {
    match value {
        Some(v) => set![prefix + v@],
        None => Set::empty(),
    }
}

/// Everything a round saw, labelled by where it was seen: candidate ids,
/// identity reasons, the Wikipedia top result, the outcome and the candidates'
/// titles and entities.
pub open spec fn novelty_set(f: NoveltyFields) -> Set<Seq<char>> {
    labelled_items("wikidata_candidate_ids:"@, f.wikidata_candidate_ids@)
        + labelled_items("title_retry_candidate_ids:"@, f.title_retry_candidate_ids@)
        + labelled_items("identity_reasons:"@, f.identity_reasons@)
        + labelled_option("wikipedia_top_entity:"@, f.wikipedia_top_entity)
        + labelled_option("wikipedia_top_title:"@, f.wikipedia_top_title)
        + labelled_option("outcome_kind:"@, f.outcome_kind)
        + labelled_option("identity_reason:"@, f.identity_reason)
        + labelled_option("validation_reason:"@, f.validation_reason)
        + labelled_items("wikipedia_title:"@, f.candidate_titles@)
        + labelled_items("wikipedia_entity:"@, f.candidate_entities@)
}

/// Inserts a labelled optional value into a sorted set.
fn insert_option(set: &mut Vec<String>, prefix: &str, value: &Option<String>)
    requires
        terms::strictly_ascending(terms::strings_view(old(set)@)),
    ensures
        terms::strictly_ascending(terms::strings_view(final(set)@)),
        terms::strings_view(final(set)@).to_set() == terms::strings_view(old(set)@).to_set() + labelled_option(prefix@, *value),
{
    match value {
        Some(v) => {
            insert_sorted(set, labelled(prefix, v.as_str()));
            proof {
                assert(terms::strings_view(set@).to_set() =~= terms::strings_view(old(set)@).to_set() + labelled_option(prefix@, *value));
            }
        },
        None => {
            assert(terms::strings_view(set@).to_set() =~= terms::strings_view(old(set)@).to_set() + labelled_option(prefix@, *value));
        },
    }
}

/// The novelty items of a round, in ascending order.
pub fn novelty_items(f: &NoveltyFields) -> (r: Vec<String>)
    ensures
        terms::strictly_ascending(terms::strings_view(r@)),
        terms::strings_view(r@).to_set() == novelty_set(*f),
{
    let mut out: Vec<String> = Vec::new();
    proof {
        assert(terms::strings_view(out@) =~= Seq::<Seq<char>>::empty());
        assert(terms::strings_view(out@).to_set() =~= Set::<Seq<char>>::empty());
    }
    insert_labelled(&mut out, "wikidata_candidate_ids:", &f.wikidata_candidate_ids);
    insert_labelled(&mut out, "title_retry_candidate_ids:", &f.title_retry_candidate_ids);
    insert_labelled(&mut out, "identity_reasons:", &f.identity_reasons);
    insert_option(&mut out, "wikipedia_top_entity:", &f.wikipedia_top_entity);
    insert_option(&mut out, "wikipedia_top_title:", &f.wikipedia_top_title);
    insert_option(&mut out, "outcome_kind:", &f.outcome_kind);
    insert_option(&mut out, "identity_reason:", &f.identity_reason);
    insert_option(&mut out, "validation_reason:", &f.validation_reason);
    insert_labelled(&mut out, "wikipedia_title:", &f.candidate_titles);
    insert_labelled(&mut out, "wikipedia_entity:", &f.candidate_entities);
    proof {
        assert(terms::strings_view(out@).to_set() =~= novelty_set(*f));
    }
    out
}

} // verus!
