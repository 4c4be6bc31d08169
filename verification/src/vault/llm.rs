//! Decisions of language models, and the requests that ask for them.
use crate::base::ranks::{R_0_0001, R_0_9999};
use crate::base::scalar::{Scalar, ONE_RANK, INFINITY_RANK};
use crate::base::settings::{kept_pieces, list_items, Environment};
use crate::base::text::{
    ascii_lowercase, ascii_uppercase, cut_at, decimal, decimal_u64, first_chars, integer_value, joined,
    parse_integer, pieces, same, same_ignoring_ascii_case, split, split_once, take_chars, to_ascii_upper,
    trim, trimmed, views,
};
use super::records::text_view;
use vstd::prelude::*;

verus! {

/// The rank of 0.0001.
pub const LEAST_P_TRUE: i64 = 0x3F1A_36E2_EB1C_432D;

/// The rank of 0.9999.
pub const GREATEST_P_TRUE: i64 = 0x3FEF_FF2E_48E8_A71E;

/// How many flags are kept, and how many characters of each.
pub const KEPT_FLAGS: usize = 16;

pub const KEPT_FLAG_CHARS: usize = 32;

/// How many characters of other texts are kept.
pub const KEPT_TEXT_CHARS: usize = 64;

/// How many characters of an error answer are kept.
pub const KEPT_ERROR_CHARS: usize = 800;

#[derive(Clone, Copy, Debug, PartialEq, Eq, Structural)]
pub enum DecisionAction {
    Buy,
    Sell,
    Hold,
}

/// The action that a text names.
pub open spec fn action_of(s: Seq<char>) -> Option<DecisionAction> {
    let t = ascii_uppercase(trimmed(s));
    if t == "BUY"@ {
        Some(DecisionAction::Buy)
    } else if t == "SELL"@ {
        Some(DecisionAction::Sell)
    } else if t == "HOLD"@ {
        Some(DecisionAction::Hold)
    } else {
        None
    }
}

impl DecisionAction {
    /// Reads an action, whatever the case of its letters.
    pub fn parse(s: &str) -> (r: Option<DecisionAction>)
        ensures
            r == action_of(s@),
    {
        let bare = trim(s);
        let t = to_ascii_upper(bare.as_str());
        if same(t.as_str(), "BUY") {
            Some(DecisionAction::Buy)
        } else if same(t.as_str(), "SELL") {
            Some(DecisionAction::Sell)
        } else if same(t.as_str(), "HOLD") {
            Some(DecisionAction::Hold)
        } else {
            None
        }
    }

    /// The name of the action.
    pub open spec fn name(self) -> Seq<char> {
        match self {
            DecisionAction::Buy => "BUY"@,
            DecisionAction::Sell => "SELL"@,
            DecisionAction::Hold => "HOLD"@,
        }
    }

    pub fn as_str(self) -> (r: &'static str)
        ensures
            r@ == self.name(),
    {
        match self {
            DecisionAction::Buy => "BUY",
            DecisionAction::Sell => "SELL",
            DecisionAction::Hold => "HOLD",
        }
    }
}

#[derive(Clone, Copy, Debug, PartialEq, Eq, Structural)]
pub enum DecisionUncertainty {
    Low,
    Med,
    High,
}

/// The uncertainty that a text names.
pub open spec fn uncertainty_of(s: Seq<char>) -> Option<DecisionUncertainty> {
    let t = ascii_uppercase(trimmed(s));
    if t == "LOW"@ {
        Some(DecisionUncertainty::Low)
    } else if t == "MED"@ || t == "MID"@ {
        Some(DecisionUncertainty::Med)
    } else if t == "HIGH"@ {
        Some(DecisionUncertainty::High)
    } else {
        None
    }
}

impl DecisionUncertainty {
    /// Reads an uncertainty, whatever the case of its letters.
    pub fn parse(s: &str) -> (r: Option<DecisionUncertainty>)
        ensures
            r == uncertainty_of(s@),
    {
        let bare = trim(s);
        let t = to_ascii_upper(bare.as_str());
        if same(t.as_str(), "LOW") {
            Some(DecisionUncertainty::Low)
        } else if same(t.as_str(), "MED") || same(t.as_str(), "MID") {
            Some(DecisionUncertainty::Med)
        } else if same(t.as_str(), "HIGH") {
            Some(DecisionUncertainty::High)
        } else {
            None
        }
    }

    /// The name of the uncertainty.
    pub open spec fn name(self) -> Seq<char> {
        match self {
            DecisionUncertainty::Low => "LOW"@,
            DecisionUncertainty::Med => "MED"@,
            DecisionUncertainty::High => "HIGH"@,
        }
    }

    pub fn as_str(self) -> (r: &'static str)
        ensures
            r@ == self.name(),
    {
        match self {
            DecisionUncertainty::Low => "LOW",
            DecisionUncertainty::Med => "MED",
            DecisionUncertainty::High => "HIGH",
        }
    }
}

/// The lines of a decision: numbers are still texts.
#[derive(Debug)]
pub struct DecisionLines {
    pub action: DecisionAction,
    pub outcome_raw: Option<String>,
    pub outcome_index: Option<usize>,
    pub p_true_text: Option<String>,
    pub uncertainty: Option<DecisionUncertainty>,
    pub size_mult_text: Option<String>,
    pub flags: Vec<String>,
    pub rationale_hash: Option<String>,
}

/// A decision.
#[derive(Debug)]
pub struct ParsedDecisionDsl {
    pub action: DecisionAction,
    pub outcome_raw: Option<String>,
    pub outcome_index: Option<usize>,
    pub p_true: Option<Scalar>,
    pub uncertainty: Option<DecisionUncertainty>,
    pub size_mult: Option<Scalar>,
    pub flags: Vec<String>,
    pub rationale_hash: Option<String>,
}

/// Why a text is no decision.
#[derive(Debug)]
pub enum DslError {
    UnknownKey(String),
    MissingAction,
    MissingOutcome,
}

impl DslError {
    pub open spec fn text(self) -> Seq<char> {
        match self {
            DslError::UnknownKey(k) => "unknown key in dsl: "@ + k@,
            DslError::MissingAction => "missing ACTION"@,
            DslError::MissingOutcome => "missing OUTCOME/OUTCOME_INDEX"@,
        }
    }

    pub fn message(&self) -> (r: String)
        ensures
            r@ == self.text(),
    {
        match self {
            DslError::UnknownKey(k) => joined("unknown key in dsl: ", k.as_str()),
            DslError::MissingAction => "missing ACTION".to_owned(),
            DslError::MissingOutcome => "missing OUTCOME/OUTCOME_INDEX".to_owned(),
        }
    }
}

/// What the lines so far have set.
pub struct DslState {
    pub action: Option<DecisionAction>,
    pub outcome_raw: Option<Seq<char>>,
    pub outcome_index: Option<usize>,
    pub p_true: Option<Seq<char>>,
    pub uncertainty: Option<DecisionUncertainty>,
    pub size_mult: Option<Seq<char>>,
    pub flags: Seq<Seq<char>>,
    pub rationale_hash: Option<Seq<char>>,
}

/// No line has set anything.
pub open spec fn nothing_set() -> DslState {
    DslState {
        action: None,
        outcome_raw: None,
        outcome_index: None,
        p_true: None,
        uncertainty: None,
        size_mult: None,
        flags: Seq::empty(),
        rationale_hash: None,
    }
}

/// The index that a text stands for.
pub open spec fn index_of_text(s: Seq<char>) -> Option<usize> {
    match integer_value(s, false) {
        Some(x) => if x <= usize::MAX {
            Some(x as usize)
        } else {
            None
        },
        None => None,
    }
}

/// The flags of a list: the first that are not blank, cut to their length.
pub open spec fn flags_of(s: Seq<char>) -> Seq<Seq<char>> {
    let all = kept_pieces(pieces(s, ','));
    Seq::new(
        if all.len() <= KEPT_FLAGS {
            all.len()
        } else {
            KEPT_FLAGS as nat
        },
        |i: int| first_chars(all[i], KEPT_FLAG_CHARS as nat),
    )
}

/// A text that a line may set: nothing where it is empty, else its beginning.
pub open spec fn kept_or(val: Seq<char>, before: Option<Seq<char>>) -> Option<Seq<char>> {
    if val.len() > 0 {
        Some(first_chars(val, KEPT_TEXT_CHARS as nat))
    } else {
        before
    }
}

/// What a line adds: nothing where it has no `=`; an error where its key is unknown.
pub open spec fn line_step(s: DslState, line: Seq<char>) -> Result<DslState, Seq<char>> {
    match cut_at(trimmed(line), '=') {
        None => Ok(s),
        Some((k, v)) => {
            let key = ascii_uppercase(trimmed(k));
            let val = trimmed(v);
            if key == "ACTION"@ {
                Ok(DslState { action: action_of(val), ..s })
            } else if key == "OUTCOME"@ {
                Ok(DslState { outcome_raw: kept_or(val, s.outcome_raw), ..s })
            } else if key == "OUTCOME_INDEX"@ {
                Ok(DslState { outcome_index: index_of_text(val), ..s })
            } else if key == "P_TRUE"@ {
                Ok(DslState { p_true: Some(val), ..s })
            } else if key == "UNCERTAINTY"@ {
                Ok(DslState { uncertainty: uncertainty_of(val), ..s })
            } else if key == "SIZE_MULT"@ {
                Ok(DslState { size_mult: Some(val), ..s })
            } else if key == "FLAGS"@ {
                Ok(DslState { flags: flags_of(val), ..s })
            } else if key == "RATIONALE_HASH"@ {
                Ok(DslState { rationale_hash: kept_or(val, s.rationale_hash), ..s })
            } else {
                Err(key)
            }
        },
    }
}

/// What all lines set together, or the first unknown key.
pub open spec fn lines_state(lines: Seq<Seq<char>>) -> Result<DslState, Seq<char>>
    decreases lines.len(),
{
    if lines.len() == 0 {
        Ok(nothing_set())
    } else {
        match lines_state(lines.drop_last()) {
            Ok(s) => line_step(s, lines.last()),
            Err(k) => Err(k),
        }
    }
}

struct DslFields {
    action: Option<DecisionAction>,
    outcome_raw: Option<String>,
    outcome_index: Option<usize>,
    p_true: Option<String>,
    uncertainty: Option<DecisionUncertainty>,
    size_mult: Option<String>,
    flags: Vec<String>,
    rationale_hash: Option<String>,
}

impl DslFields {
    closed spec fn state(self) -> DslState {
        DslState {
            action: self.action,
            outcome_raw: text_view(self.outcome_raw),
            outcome_index: self.outcome_index,
            p_true: text_view(self.p_true),
            uncertainty: self.uncertainty,
            size_mult: text_view(self.size_mult),
            flags: views(self.flags@),
            rationale_hash: text_view(self.rationale_hash),
        }
    }
}

fn read_index(s: &str) -> (r: Option<usize>)
    ensures
        r == index_of_text(s@),
{
    match parse_integer(s, false, 0, usize::MAX as i128) {
        Some(x) => Some(x as usize),
        None => None,
    }
}

fn read_flags(val: &str) -> (r: Vec<String>)
    ensures
        views(r@) == flags_of(val@),
{
    let all = list_items(val);
    let mut r: Vec<String> = Vec::new();
    let mut i: usize = 0;
    while i < all.len() && i < KEPT_FLAGS
        invariant
            i <= all.len(),
            i <= KEPT_FLAGS,
            r.len() == i,
            views(all@) == kept_pieces(pieces(val@, ',')),
            forall|j: int| 0 <= j < i ==> (#[trigger] r[j])@ == first_chars(all[j]@, KEPT_FLAG_CHARS as nat),
        decreases all.len() - i,
    {
        r.push(take_chars(all[i].as_str(), KEPT_FLAG_CHARS));
        i = i + 1;
    }
    proof {
        let a = kept_pieces(pieces(val@, ','));
        assert(a.len() == all.len());
        assert forall|j: int| 0 <= j < r.len() implies views(r@)[j] == flags_of(val@)[j] by {
            assert(a[j] == views(all@)[j]);
        }
        assert(views(r@) =~= flags_of(val@));
    }
    r
}

fn read_line(fields: &mut DslFields, line: &str) -> (r: Result<(), String>)
    ensures
        match line_step(old(fields).state(), line@) {
            Ok(s) => r is Ok && final(fields).state() == s,
            Err(k) => r matches Err(e) && e@ == k,
        },
{
    let bare = trim(line);
    let (k, v) = match split_once(bare.as_str(), '=') {
        Some(p) => p,
        None => {
            return Ok(());
        },
    };
    let k = trim(k.as_str());
    let key = to_ascii_upper(k.as_str());
    let val = trim(v.as_str());
    let name = key.as_str();
    if same(name, "ACTION") {
        fields.action = DecisionAction::parse(val.as_str());
    } else if same(name, "OUTCOME") {
        if !val.as_str().is_empty() {
            fields.outcome_raw = Some(take_chars(val.as_str(), KEPT_TEXT_CHARS));
        }
    } else if same(name, "OUTCOME_INDEX") {
        fields.outcome_index = read_index(val.as_str());
    } else if same(name, "P_TRUE") {
        fields.p_true = Some(val);
    } else if same(name, "UNCERTAINTY") {
        fields.uncertainty = DecisionUncertainty::parse(val.as_str());
    } else if same(name, "SIZE_MULT") {
        fields.size_mult = Some(val);
    } else if same(name, "FLAGS") {
        fields.flags = read_flags(val.as_str());
    } else if same(name, "RATIONALE_HASH") {
        if !val.as_str().is_empty() {
            fields.rationale_hash = Some(take_chars(val.as_str(), KEPT_TEXT_CHARS));
        }
    } else {
        return Err(key);
    }
    Ok(())
}

/// The lines of a decision agree with what they set.
pub open spec fn lines_hold(d: DecisionLines, s: DslState) -> bool {
    &&& s.action == Some(d.action)
    &&& text_view(d.outcome_raw) == s.outcome_raw
    &&& d.outcome_index == s.outcome_index
    &&& text_view(d.p_true_text) == s.p_true
    &&& d.uncertainty == s.uncertainty
    &&& text_view(d.size_mult_text) == s.size_mult
    &&& views(d.flags@) == s.flags
    &&& text_view(d.rationale_hash) == s.rationale_hash
}

/// Reads a decision from `KEY=VALUE` lines: the last line of a key counts, lines
/// without `=` are passed over, an unknown key is an error, an action must be
/// named, and an outcome too unless the action is to hold.
pub fn parse_decision_dsl(raw: &str) -> (r: Result<DecisionLines, DslError>)
    ensures
        match lines_state(pieces(raw@, '\n')) {
            Err(k) => r matches Err(DslError::UnknownKey(e)) && e@ == k,
            Ok(s) => match s.action {
                None => r matches Err(DslError::MissingAction),
                Some(a) => if a != DecisionAction::Hold && s.outcome_raw is None && s.outcome_index is None {
                    r matches Err(DslError::MissingOutcome)
                } else {
                    r matches Ok(d) && lines_hold(d, s)
                },
            },
        },
{
    let lines = split(raw, '\n');
    let mut fields = DslFields {
        action: None,
        outcome_raw: None,
        outcome_index: None,
        p_true: None,
        uncertainty: None,
        size_mult: None,
        flags: Vec::new(),
        rationale_hash: None,
    };
    let ghost all = views(lines@);
    assert(fields.state().flags =~= nothing_set().flags);
    let mut i: usize = 0;
    while i < lines.len()
        invariant
            i <= lines.len(),
            all == views(lines@),
            all == pieces(raw@, '\n'),
            lines_state(all.take(i as int)) == Ok::<DslState, Seq<char>>(fields.state()),
        decreases lines.len() - i,
    {
        assert(all.take(i as int + 1).drop_last() =~= all.take(i as int));
        match read_line(&mut fields, lines[i].as_str()) {
            Ok(_) => {},
            Err(key) => {
                proof {
                    lemma_error_stays(all, i as int + 1);
                }
                return Err(DslError::UnknownKey(key));
            },
        }
        i = i + 1;
    }
    assert(all.take(i as int) =~= all);
    let action = match fields.action {
        Some(a) => a,
        None => {
            return Err(DslError::MissingAction);
        },
    };
    if action != DecisionAction::Hold && fields.outcome_raw.is_none() && fields.outcome_index.is_none() {
        return Err(DslError::MissingOutcome);
    }
    Ok(
        DecisionLines {
            action,
            outcome_raw: fields.outcome_raw,
            outcome_index: fields.outcome_index,
            p_true_text: fields.p_true,
            uncertainty: fields.uncertainty,
            size_mult_text: fields.size_mult,
            flags: fields.flags,
            rationale_hash: fields.rationale_hash,
        },
    )
}

proof fn lemma_error_stays(lines: Seq<Seq<char>>, i: int)
    requires
        0 <= i <= lines.len(),
        lines_state(lines.take(i)) is Err,
    ensures
        lines_state(lines) == lines_state(lines.take(i)),
    decreases lines.len() - i,
{
    if i == lines.len() {
        assert(lines.take(i) =~= lines);
    } else {
        assert(lines.take(i + 1).drop_last() =~= lines.take(i));
        lemma_error_stays(lines, i + 1);
    }
}

/// A number that a decision may set, held between two bounds.
pub open spec fn held_between(x: Option<Scalar>, low: i64, high: i64) -> Option<Scalar> {
    match x {
        Some(Scalar::Rank(a)) => if !Scalar::Rank(a).spec_is_finite() {
            None
        } else if a < low {
            Some(Scalar::Rank(low))
        } else if a > high {
            Some(Scalar::Rank(high))
        } else {
            Some(Scalar::Rank(a))
        },
        _ => None,
    }
}

fn hold_between(x: Option<Scalar>, low: i64, high: i64) -> (r: Option<Scalar>)
    ensures
        r == held_between(x, low, high),
{
    match x {
        Some(Scalar::Rank(a)) => if !Scalar::Rank(a).is_finite() {
            None
        } else if a < low {
            Some(Scalar::Rank(low))
        } else if a > high {
            Some(Scalar::Rank(high))
        } else {
            Some(Scalar::Rank(a))
        },
        _ => None,
    }
}

impl DecisionLines {
    /// The decision, with the numbers that its texts stand for: what is not finite is
    /// dropped, the rest is held between its bounds.
    pub fn with_numbers(self, p_true: Option<Scalar>, size_mult: Option<Scalar>) -> (r: ParsedDecisionDsl)
        ensures
            r.action == self.action,
            r.outcome_raw == self.outcome_raw,
            r.outcome_index == self.outcome_index,
            r.p_true == held_between(p_true, LEAST_P_TRUE, GREATEST_P_TRUE),
            r.uncertainty == self.uncertainty,
            r.size_mult == held_between(size_mult, 0, ONE_RANK),
            r.flags == self.flags,
            r.rationale_hash == self.rationale_hash,
    {
        ParsedDecisionDsl {
            action: self.action,
            outcome_raw: self.outcome_raw,
            outcome_index: self.outcome_index,
            p_true: hold_between(p_true, LEAST_P_TRUE, GREATEST_P_TRUE),
            uncertainty: self.uncertainty,
            size_mult: hold_between(size_mult, 0, ONE_RANK),
            flags: self.flags,
            rationale_hash: self.rationale_hash,
        }
    }
}

/// Whether an outcome has a name, up to the case of ASCII letters.
pub open spec fn outcome_named(outcome: Seq<char>, name: Seq<char>, bare: bool) -> bool {
    ascii_lowercase(
        if bare {
            trimmed(outcome)
        } else {
            outcome
        },
    ) == ascii_lowercase(name)
}

/// The first outcome from `i` on that has a name.
pub open spec fn named_from(outcomes: Seq<Seq<char>>, name: Seq<char>, bare: bool, i: int) -> Option<
    usize,
>
    decreases outcomes.len() - i,
{
    if i < 0 || i >= outcomes.len() {
        None
    } else if outcome_named(outcomes[i], name, bare) {
        Some(i as usize)
    } else {
        named_from(outcomes, name, bare, i + 1)
    }
}

/// The index where it is one of the outcomes.
pub open spec fn within(i: usize, n: nat) -> Option<usize> {
    if i < n {
        Some(i)
    } else {
        None
    }
}

/// The outcome that a text names: by its index; by a name that every market knows,
/// which counts by place where no outcome bears it; or by its own name.
pub open spec fn text_outcome(outcomes: Seq<Seq<char>>, raw: Seq<char>) -> Option<usize> {
    let t = trimmed(raw);
    let upper = ascii_uppercase(t);
    let yes = named_from(outcomes, "Yes"@, false, 0);
    let no = named_from(outcomes, "No"@, false, 0);
    let up = named_from(outcomes, "Up"@, false, 0);
    let down = named_from(outcomes, "Down"@, false, 0);
    match index_of_text(t) {
        Some(i) => within(i, outcomes.len()),
        None => if upper == "YES"@ {
            if yes is Some {
                yes
            } else if outcomes.len() >= 2 {
                Some(0)
            } else {
                None
            }
        } else if upper == "NO"@ {
            if no is Some {
                no
            } else if outcomes.len() >= 2 {
                Some(1)
            } else {
                None
            }
        } else if upper == "UP"@ && up is Some {
            up
        } else if upper == "DOWN"@ && down is Some {
            down
        } else {
            named_from(outcomes, t, true, 0)
        },
    }
}

fn find_named(outcomes: &Vec<String>, name: &str, bare: bool) -> (r: Option<usize>)
    ensures
        r == named_from(views(outcomes@), name@, bare, 0),
{
    let mut i: usize = 0;
    while i < outcomes.len()
        invariant
            i <= outcomes.len(),
            named_from(views(outcomes@), name@, bare, 0) == named_from(
                views(outcomes@),
                name@,
                bare,
                i as int,
            ),
        decreases outcomes.len() - i,
    {
        let hit = if bare {
            let o = trim(outcomes[i].as_str());
            same_ignoring_ascii_case(o.as_str(), name)
        } else {
            same_ignoring_ascii_case(outcomes[i].as_str(), name)
        };
        assert(views(outcomes@)[i as int] == outcomes[i as int]@);
        if hit {
            return Some(i);
        }
        i = i + 1;
    }
    None
}

impl ParsedDecisionDsl {
    pub fn is_buy(&self) -> (r: bool)
        ensures
            r == (self.action == DecisionAction::Buy),
    {
        self.action == DecisionAction::Buy
    }

    /// The outcome that the decision names.
    pub open spec fn outcome_in(self, outcomes: Seq<Seq<char>>) -> Option<usize> {
        if outcomes.len() == 0 {
            None
        } else {
            match (self.outcome_index, self.outcome_raw) {
                (Some(i), _) => within(i, outcomes.len()),
                (None, None) => None,
                (None, Some(raw)) => text_outcome(outcomes, raw@),
            }
        }
    }

    /// Finds the outcome that the decision names.
    pub fn map_outcome_index(&self, outcomes: &Vec<String>) -> (r: Option<usize>)
        ensures
            r == self.outcome_in(views(outcomes@)),
    {
        if outcomes.len() == 0 {
            return None;
        }
        match self.outcome_index {
            Some(i) => {
                return if i < outcomes.len() {
                    Some(i)
                } else {
                    None
                };
            },
            None => {},
        }
        let raw = match &self.outcome_raw {
            Some(t) => t,
            None => {
                return None;
            },
        };
        let bare = trim(raw.as_str());
        match read_index(bare.as_str()) {
            Some(i) => {
                return if i < outcomes.len() {
                    Some(i)
                } else {
                    None
                };
            },
            None => {},
        }
        let upper = to_ascii_upper(bare.as_str());
        if same(upper.as_str(), "YES") {
            let hit = find_named(outcomes, "Yes", false);
            if hit.is_some() {
                return hit;
            }
            return if outcomes.len() >= 2 {
                Some(0)
            } else {
                None
            };
        }
        if same(upper.as_str(), "NO") {
            let hit = find_named(outcomes, "No", false);
            if hit.is_some() {
                return hit;
            }
            return if outcomes.len() >= 2 {
                Some(1)
            } else {
                None
            };
        }
        if same(upper.as_str(), "UP") {
            let hit = find_named(outcomes, "Up", false);
            if hit.is_some() {
                return hit;
            }
        }
        if same(upper.as_str(), "DOWN") {
            let hit = find_named(outcomes, "Down", false);
            if hit.is_some() {
                return hit;
            }
        }
        find_named(outcomes, bare.as_str(), true)
    }
}

proof fn lemma_named_within(outcomes: Seq<Seq<char>>, name: Seq<char>, bare: bool, i: int)
    requires
        outcomes.len() <= usize::MAX,
    ensures
        named_from(outcomes, name, bare, i) matches Some(k) ==> k < outcomes.len(),
    decreases outcomes.len() - i,
{
    if 0 <= i < outcomes.len() && !outcome_named(outcomes[i], name, bare) {
        lemma_named_within(outcomes, name, bare, i + 1);
    }
}

/// The outcome that a decision names is one of the outcomes.
pub proof fn law_outcome_is_one_of_them(d: ParsedDecisionDsl, outcomes: Seq<Seq<char>>)
    requires
        outcomes.len() <= usize::MAX,
    ensures
        d.outcome_in(outcomes) matches Some(i) ==> i < outcomes.len(),
{
    lemma_named_within(outcomes, "Yes"@, false, 0);
    lemma_named_within(outcomes, "No"@, false, 0);
    lemma_named_within(outcomes, "Up"@, false, 0);
    lemma_named_within(outcomes, "Down"@, false, 0);
    match d.outcome_raw {
        Some(raw) => {
            lemma_named_within(outcomes, trimmed(raw@), true, 0);
        },
        None => {},
    }
}

/// The chance and the size that a decision sets lie between their bounds.
pub proof fn law_numbers_are_held(x: Option<Scalar>, low: i64, high: i64)
    requires
        -INFINITY_RANK < low <= high < INFINITY_RANK,
    ensures
        held_between(x, low, high) matches Some(y) ==> Scalar::Rank(low).spec_le(y) && y.spec_le(
            Scalar::Rank(high),
        ),
        held_between(held_between(x, low, high), low, high) == held_between(x, low, high),
{
}

/// How many tokens a call used.
#[derive(Clone, Copy, Debug, PartialEq, Eq, Structural)]
pub struct LlmUsage {
    pub prompt_tokens: Option<u64>,
    pub completion_tokens: Option<u64>,
    pub total_tokens: Option<u64>,
}

/// What a call gave.
#[derive(Debug)]
pub struct LlmCallOutput {
    pub model: String,
    pub content: String,
    pub usage: LlmUsage,
    pub latency_ms: u64,
}

/// Who asks the models.
#[derive(Debug)]
pub struct OpenRouterClient {
    pub api_key: String,
    pub referer: Option<String>,
    pub title: Option<String>,
}

/// Why models cannot be asked, or did not answer.
#[derive(Debug)]
pub enum LlmError {
    KeyMissing,
    KeyEmpty,
    Answer(String),
}

#[derive(Debug)]
pub struct ChatMessage {
    pub role: String,
    pub content: String,
}

/// A question to a model.
#[derive(Debug)]
pub struct ChatCompletionRequest {
    pub model: String,
    pub messages: Vec<ChatMessage>,
    pub temperature: Option<Scalar>,
    pub max_tokens: Option<u32>,
}

/// An answer of a model: the content of each choice that has one, and the usage.
#[derive(Debug)]
pub struct ChatCompletionResponse {
    pub choices: Vec<Option<String>>,
    pub usage: Option<LlmUsage>,
}

/// A variable whose text is not blank.
pub open spec fn not_blank(env: Environment, name: Seq<char>) -> Option<Seq<char>> {
    match env.text_of(name) {
        Some(t) => if trimmed(t).len() > 0 {
            Some(t)
        } else {
            None
        },
        None => None,
    }
}

fn text_not_blank(env: &Environment, name: &str) -> (r: Option<String>)
    ensures
        text_view(r) == not_blank(*env, name@),
{
    match env.text(name) {
        Some(t) => {
            let bare = trim(t.as_str());
            if bare.as_str().is_empty() {
                None
            } else {
                Some(t.clone())
            }
        },
        None => None,
    }
}

impl OpenRouterClient {
    /// The client that the variables describe; a key must be set and not blank.
    pub fn from_env(env: &Environment) -> (r: Result<OpenRouterClient, LlmError>)
        ensures
            match env.text_of("OPENROUTER_API_KEY"@) {
                None => r matches Err(LlmError::KeyMissing),
                Some(k) => if trimmed(k).len() == 0 {
                    r matches Err(LlmError::KeyEmpty)
                } else {
                    r matches Ok(c) && c.api_key@ == k && text_view(c.referer) == not_blank(
                        *env,
                        "OPENROUTER_HTTP_REFERER"@,
                    ) && text_view(c.title) == not_blank(*env, "OPENROUTER_APP_TITLE"@)
                },
            },
    {
        let key = match env.text("OPENROUTER_API_KEY") {
            Some(k) => k,
            None => {
                return Err(LlmError::KeyMissing);
            },
        };
        let bare = trim(key.as_str());
        if bare.as_str().is_empty() {
            return Err(LlmError::KeyEmpty);
        }
        Ok(
            OpenRouterClient {
                api_key: key.clone(),
                referer: text_not_blank(env, "OPENROUTER_HTTP_REFERER"),
                title: text_not_blank(env, "OPENROUTER_APP_TITLE"),
            },
        )
    }

    /// The question to a model: what it is told as the system, then as the user.
    pub fn chat_request(
        &self,
        model: &str,
        system: &str,
        user: &str,
        max_tokens: u32,
        temperature: Scalar,
    ) -> (r: ChatCompletionRequest)
        ensures
            r.model@ == model@,
            r.messages.len() == 2,
            r.messages[0].role@ == "system"@ && r.messages[0].content@ == system@,
            r.messages[1].role@ == "user"@ && r.messages[1].content@ == user@,
            r.temperature == Some(temperature),
            r.max_tokens == Some(max_tokens),
    {
        let mut messages: Vec<ChatMessage> = Vec::new();
        messages.push(ChatMessage { role: "system".to_owned(), content: system.to_owned() });
        messages.push(ChatMessage { role: "user".to_owned(), content: user.to_owned() });
        ChatCompletionRequest {
            model: model.to_owned(),
            messages,
            temperature: Some(temperature),
            max_tokens: Some(max_tokens),
        }
    }

    /// The headers of a question.
    pub fn headers(&self) -> (r: Vec<(String, String)>)
        ensures
            r.len() == 2 + (if self.referer is Some {
                1int
            } else {
                0
            }) + (if self.title is Some {
                1int
            } else {
                0
            }),
            r[0].0@ == "Authorization"@ && r[0].1@ == "Bearer "@ + self.api_key@,
            r[1].0@ == "Content-Type"@ && r[1].1@ == "application/json"@,
            self.referer matches Some(v) ==> r[2].0@ == "HTTP-Referer"@ && r[2].1@ == v@,
            self.title matches Some(v) ==> r[r.len() - 1].0@ == "X-Title"@ && r[r.len() - 1].1@ == v@,
    {
        let mut h: Vec<(String, String)> = Vec::new();
        h.push(("Authorization".to_owned(), joined("Bearer ", self.api_key.as_str())));
        h.push(("Content-Type".to_owned(), "application/json".to_owned()));
        match &self.referer {
            Some(v) => {
                h.push(("HTTP-Referer".to_owned(), v.clone()));
            },
            None => {},
        }
        match &self.title {
            Some(v) => {
                h.push(("X-Title".to_owned(), v.clone()));
            },
            None => {},
        }
        h
    }

    /// The error that an answer without success stands for.
    pub fn refusal(&self, status: u16, body: &str) -> (r: LlmError)
        ensures
            r matches LlmError::Answer(m) && m@ == "openrouter "@ + decimal(status as int) + ": "@
                + first_chars(body@, KEPT_ERROR_CHARS as nat),
    {
        let mut m = "openrouter ".to_owned();
        let code = decimal_u64(status as u64);
        m.append(code.as_str());
        m.append(": ");
        let snippet = take_chars(body, KEPT_ERROR_CHARS);
        m.append(snippet.as_str());
        LlmError::Answer(m)
    }

    /// What an answer gives: the content of its first choice, empty where it has none.
    pub fn completion(&self, model: &str, resp: &ChatCompletionResponse, latency_ms: u64) -> (r:
        LlmCallOutput)
        ensures
            r.model@ == model@,
            r.content@ == if resp.choices.len() > 0 && resp.choices[0] is Some {
                resp.choices[0]->0@
            } else {
                Seq::<char>::empty()
            },
            r.usage == match resp.usage {
                Some(u) => u,
                None => LlmUsage { prompt_tokens: None, completion_tokens: None, total_tokens: None },
            },
            r.latency_ms == latency_ms,
    {
        let content = if resp.choices.len() > 0 {
            match &resp.choices[0] {
                Some(c) => c.clone(),
                None => String::new(),
            }
        } else {
            String::new()
        };
        LlmCallOutput {
            model: model.to_owned(),
            content,
            usage: match resp.usage {
                Some(u) => u,
                None => LlmUsage { prompt_tokens: None, completion_tokens: None, total_tokens: None },
            },
            latency_ms,
        }
    }
}

/// Actions and uncertainties are read from their names in any case, and anything else is
/// none; a name that is written is read back.
pub proof fn law_actions_are_read_by_name(
    s: &str,
    a: Option<DecisionAction>,
    u: Option<DecisionUncertainty>,
    x: DecisionAction,
    y: DecisionUncertainty,
    xs: &'static str,
    ys: &'static str,
)
    requires
        call_ensures(DecisionAction::parse, (s,), a),
        call_ensures(DecisionUncertainty::parse, (s,), u),
        call_ensures(DecisionAction::as_str, (x,), xs),
        call_ensures(DecisionUncertainty::as_str, (y,), ys),
    ensures
        ({
            let t = ascii_uppercase(trimmed(s@));
            &&& t == "BUY"@ <==> a == Some(DecisionAction::Buy)
            &&& t == "SELL"@ <==> a == Some(DecisionAction::Sell)
            &&& t == "HOLD"@ <==> a == Some(DecisionAction::Hold)
            &&& t == xs@ ==> a == Some(x)
            &&& t == "LOW"@ <==> u == Some(DecisionUncertainty::Low)
            &&& t == "MED"@ || t == "MID"@ <==> u == Some(DecisionUncertainty::Med)
            &&& t == "HIGH"@ <==> u == Some(DecisionUncertainty::High)
            &&& t == ys@ ==> u == Some(y)
        }),
{
    reveal_strlit("BUY");
    reveal_strlit("SELL");
    reveal_strlit("HOLD");
    reveal_strlit("LOW");
    reveal_strlit("MED");
    reveal_strlit("MID");
    reveal_strlit("HIGH");
    assert("BUY"@.len() != "SELL"@.len());
    assert("BUY"@.len() != "HOLD"@.len());
    assert("SELL"@[0] != "HOLD"@[0]);
    assert("LOW"@[0] != "MED"@[0]);
    assert("LOW"@[0] != "MID"@[0]);
    assert("LOW"@.len() != "HIGH"@.len());
    assert("MED"@.len() != "HIGH"@.len());
    assert("MID"@.len() != "HIGH"@.len());
}

proof fn lemma_keys_differ()
    ensures
        "ACTION"@ != "OUTCOME"@ && "ACTION"@ != "OUTCOME_INDEX"@ && "ACTION"@ != "P_TRUE"@ && "ACTION"@ != "UNCERTAINTY"@
            && "ACTION"@ != "SIZE_MULT"@ && "ACTION"@ != "FLAGS"@ && "ACTION"@ != "RATIONALE_HASH"@,
        "OUTCOME"@ != "OUTCOME_INDEX"@ && "OUTCOME"@ != "P_TRUE"@ && "OUTCOME"@ != "UNCERTAINTY"@ && "OUTCOME"@
            != "SIZE_MULT"@ && "OUTCOME"@ != "FLAGS"@ && "OUTCOME"@ != "RATIONALE_HASH"@,
        "OUTCOME_INDEX"@ != "P_TRUE"@ && "OUTCOME_INDEX"@ != "UNCERTAINTY"@ && "OUTCOME_INDEX"@ != "SIZE_MULT"@
            && "OUTCOME_INDEX"@ != "FLAGS"@ && "OUTCOME_INDEX"@ != "RATIONALE_HASH"@,
        "P_TRUE"@ != "UNCERTAINTY"@ && "P_TRUE"@ != "SIZE_MULT"@ && "P_TRUE"@ != "FLAGS"@ && "P_TRUE"@ != "RATIONALE_HASH"@,
        "UNCERTAINTY"@ != "SIZE_MULT"@ && "UNCERTAINTY"@ != "FLAGS"@ && "UNCERTAINTY"@ != "RATIONALE_HASH"@,
        "SIZE_MULT"@ != "FLAGS"@ && "SIZE_MULT"@ != "RATIONALE_HASH"@ && "FLAGS"@ != "RATIONALE_HASH"@,
{
    reveal_strlit("ACTION");
    reveal_strlit("OUTCOME");
    reveal_strlit("OUTCOME_INDEX");
    reveal_strlit("P_TRUE");
    reveal_strlit("UNCERTAINTY");
    reveal_strlit("SIZE_MULT");
    reveal_strlit("FLAGS");
    reveal_strlit("RATIONALE_HASH");
    assert("ACTION"@.len() == 6 && "OUTCOME"@.len() == 7 && "OUTCOME_INDEX"@.len() == 13 && "P_TRUE"@.len() == 6);
    assert("UNCERTAINTY"@.len() == 11 && "SIZE_MULT"@.len() == 9 && "FLAGS"@.len() == 5 && "RATIONALE_HASH"@.len() == 14);
    assert("ACTION"@[0] != "P_TRUE"@[0]);
}

/// A line more sets what its key names, from what stands behind its sign, and leaves the rest
/// as it was.
pub proof fn law_line_sets_what_its_key_names(
    raw: &str,
    less: &str,
    d: DecisionLines,
    e: DecisionLines,
    k: Seq<char>,
    v: Seq<char>,
)
    requires
        call_ensures(parse_decision_dsl, (raw,), Ok(d)),
        call_ensures(parse_decision_dsl, (less,), Ok(e)),
        pieces(raw@, '\n').len() > 0,
        pieces(less@, '\n') == pieces(raw@, '\n').drop_last(),
        cut_at(trimmed(pieces(raw@, '\n').last()), '=') == Some((k, v)),
    ensures
        ({
            let key = ascii_uppercase(trimmed(k));
            let val = trimmed(v);
            &&& key == "ACTION"@ ==> action_of(val) == Some(d.action)
            &&& key != "ACTION"@ ==> d.action == e.action
            &&& key == "OUTCOME"@ && val.len() > 0 ==> text_view(d.outcome_raw) == Some(first_chars(val, 64))
            &&& key != "OUTCOME"@ || val.len() == 0 ==> text_view(d.outcome_raw) == text_view(e.outcome_raw)
            &&& key == "OUTCOME_INDEX"@ && integer_value(val, false) is Some && integer_value(val, false)->0 <= usize::MAX
                ==> d.outcome_index is Some && d.outcome_index->0 == integer_value(val, false)->0
            &&& key == "OUTCOME_INDEX"@ && integer_value(val, false) is None ==> d.outcome_index is None
            &&& key != "OUTCOME_INDEX"@ ==> d.outcome_index == e.outcome_index
            &&& key == "P_TRUE"@ ==> text_view(d.p_true_text) == Some(val)
            &&& key != "P_TRUE"@ ==> text_view(d.p_true_text) == text_view(e.p_true_text)
            &&& key == "UNCERTAINTY"@ ==> d.uncertainty == uncertainty_of(val)
            &&& key != "UNCERTAINTY"@ ==> d.uncertainty == e.uncertainty
            &&& key == "SIZE_MULT"@ ==> text_view(d.size_mult_text) == Some(val)
            &&& key != "SIZE_MULT"@ ==> text_view(d.size_mult_text) == text_view(e.size_mult_text)
            &&& key == "FLAGS"@ ==> d.flags.len() <= 16 && d.flags.len() <= kept_pieces(pieces(val, ',')).len()
            &&& key == "FLAGS"@ && kept_pieces(pieces(val, ',')).len() <= 16 ==> d.flags.len() == kept_pieces(
                pieces(val, ','),
            ).len()
            &&& key != "FLAGS"@ ==> views(d.flags@) == views(e.flags@)
            &&& key == "RATIONALE_HASH"@ && val.len() > 0 ==> text_view(d.rationale_hash) == Some(first_chars(val, 64))
            &&& key != "RATIONALE_HASH"@ || val.len() == 0 ==> text_view(d.rationale_hash) == text_view(e.rationale_hash)
        }),
{
    lemma_keys_differ();
    assert(views(d.flags@).len() == d.flags.len());
}

/// A flag is the text between commas, cut to its first characters.
pub proof fn law_flags_are_cut(raw: &str, d: DecisionLines, k: Seq<char>, v: Seq<char>, i: int)
    requires
        call_ensures(parse_decision_dsl, (raw,), Ok(d)),
        pieces(raw@, '\n').len() > 0,
        cut_at(trimmed(pieces(raw@, '\n').last()), '=') == Some((k, v)),
        ascii_uppercase(trimmed(k)) == "FLAGS"@,
        0 <= i < d.flags.len(),
    ensures
        d.flags[i]@ == first_chars(kept_pieces(pieces(trimmed(v), ','))[i], 32),
{
    lemma_keys_differ();
    let lines = pieces(raw@, '\n');
    assert(lines_state(lines) is Ok);
    assert(lines_state(lines.drop_last()) is Ok);
    assert(views(d.flags@) == flags_of(trimmed(v)));
    assert(views(d.flags@).len() == d.flags.len());
    assert(views(d.flags@)[i] == d.flags[i]@);
}

/// A decision needs an action, and an outcome unless it is to hold; a line with a key that is
/// not known is an error, and one without a sign is passed over.
pub proof fn law_decision_needs_action_and_outcome(
    raw: &str,
    less: &str,
    r: Result<DecisionLines, DslError>,
    s: Result<DecisionLines, DslError>,
)
    requires
        call_ensures(parse_decision_dsl, (raw,), r),
        call_ensures(parse_decision_dsl, (less,), s),
        pieces(raw@, '\n').len() > 0,
        pieces(less@, '\n') == pieces(raw@, '\n').drop_last(),
    ensures
        ({
            let cut = cut_at(trimmed(pieces(raw@, '\n').last()), '=');
            let key = ascii_uppercase(trimmed((cut->0).0));
            let known = key == "ACTION"@ || key == "OUTCOME"@ || key == "OUTCOME_INDEX"@ || key == "P_TRUE"@ || key
                == "UNCERTAINTY"@ || key == "SIZE_MULT"@ || key == "FLAGS"@ || key == "RATIONALE_HASH"@;
            &&& r is Ok && !(r->Ok_0.action is Hold) ==> r->Ok_0.outcome_raw is Some || r->Ok_0.outcome_index is Some
            &&& cut is Some && !known && !(s is Err && s->Err_0 is UnknownKey) ==> r is Err && r->Err_0 is UnknownKey
                && r->Err_0->UnknownKey_0@ == key
            &&& s is Err && s->Err_0 is UnknownKey ==> r is Err && r->Err_0 is UnknownKey && r->Err_0->UnknownKey_0@
                == s->Err_0->UnknownKey_0@
            &&& cut is None && s is Ok ==> r is Ok && r->Ok_0.action == s->Ok_0.action && r->Ok_0.outcome_index
                == s->Ok_0.outcome_index
            &&& cut is None && s is Err && s->Err_0 is MissingAction ==> r is Err && r->Err_0 is MissingAction
            &&& s is Err && s->Err_0 is MissingAction && key == "ACTION"@ && cut is Some && action_of(
                trimmed((cut->0).1),
            ) == Some(DecisionAction::Hold) ==> r is Ok && r->Ok_0.action is Hold
        }),
{
}

/// A chance is held between one in ten thousand and all but one, a size between zero and one;
/// what is no finite number is dropped.
pub proof fn law_decided_numbers_are_held(
    d: DecisionLines,
    p: Option<Scalar>,
    m: Option<Scalar>,
    r: ParsedDecisionDsl,
)
    requires
        call_ensures(DecisionLines::with_numbers, (d, p, m), r),
    ensures
        r.p_true is Some <==> p is Some && p->0.spec_is_finite(),
        r.p_true is Some ==> Scalar::Rank(R_0_0001).spec_le(r.p_true->0) && r.p_true->0.spec_le(Scalar::Rank(R_0_9999)),
        r.p_true is Some && Scalar::Rank(R_0_0001).spec_le(p->0) && p->0.spec_le(Scalar::Rank(R_0_9999)) ==> r.p_true == p,
        r.size_mult is Some <==> m is Some && m->0.spec_is_finite(),
        r.size_mult is Some ==> Scalar::Rank(0).spec_le(r.size_mult->0) && r.size_mult->0.spec_le(Scalar::Rank(ONE_RANK)),
        r.size_mult is Some && Scalar::Rank(0).spec_le(m->0) && m->0.spec_le(Scalar::Rank(ONE_RANK)) ==> r.size_mult == m,
        r.action == d.action && r.outcome_raw == d.outcome_raw && r.outcome_index == d.outcome_index,
        r.uncertainty == d.uncertainty && r.flags == d.flags && r.rationale_hash == d.rationale_hash,
{
}

proof fn lemma_named_is_first(outcomes: Seq<Seq<char>>, name: Seq<char>, bare: bool, i: int)
    requires
        0 <= i <= outcomes.len(),
        outcomes.len() <= usize::MAX,
    ensures
        named_from(outcomes, name, bare, i) is Some ==> {
            let k = named_from(outcomes, name, bare, i)->0;
            i <= k < outcomes.len() && outcome_named(outcomes[k as int], name, bare) && forall|j: int|
                i <= j < k ==> !outcome_named(#[trigger] outcomes[j], name, bare)
        },
        named_from(outcomes, name, bare, i) is None ==> forall|j: int|
            i <= j < outcomes.len() ==> !outcome_named(#[trigger] outcomes[j], name, bare),
    decreases outcomes.len() - i,
{
    if i < outcomes.len() && !outcome_named(outcomes[i], name, bare) {
        lemma_named_is_first(outcomes, name, bare, i + 1);
    }
}

/// An index names the outcome at its place, if there is one. A name stands for the first
/// outcome that bears it in any case of its letters; yes and no stand for the first and the
/// second outcome where none bears them.
pub proof fn law_outcome_is_the_one_that_is_named(
    d: ParsedDecisionDsl,
    outcomes: Vec<String>,
    r: Option<usize>,
    j: int,
)
    requires
        call_ensures(ParsedDecisionDsl::map_outcome_index, (&d, &outcomes), r),
    ensures
        ({
            let raw = trimmed(d.outcome_raw->0@);
            let upper = ascii_uppercase(raw);
            let named = d.outcome_index is None && d.outcome_raw is Some && integer_value(raw, false) is None;
            let common = upper == "YES"@ || upper == "NO"@ || upper == "UP"@ || upper == "DOWN"@;
            let lower = ascii_lowercase(raw);
            &&& d.outcome_index is Some && d.outcome_index->0 < outcomes.len() ==> r == d.outcome_index
            &&& d.outcome_index is Some && d.outcome_index->0 >= outcomes.len() ==> r is None
            &&& d.outcome_index is None && d.outcome_raw is None ==> r is None
            &&& d.outcome_index is None && d.outcome_raw is Some && integer_value(raw, false) is Some && integer_value(
                raw,
                false,
            )->0 < outcomes.len() ==> r is Some && r->0 == integer_value(raw, false)->0
            &&& named && !common && r is Some ==> ascii_lowercase(trimmed(outcomes[r->0 as int]@)) == lower
            &&& named && !common && 0 <= j < outcomes.len() && ascii_lowercase(trimmed(outcomes[j]@)) == lower ==> r is Some
                && r->0 <= j
            &&& named && upper == "YES"@ && 0 <= j < outcomes.len() && ascii_lowercase(outcomes[j]@) == ascii_lowercase(
                "Yes"@,
            ) ==> r is Some && ascii_lowercase(outcomes[r->0 as int]@) == ascii_lowercase("Yes"@)
            &&& named && upper == "NO"@ && 0 <= j < outcomes.len() && ascii_lowercase(outcomes[j]@) == ascii_lowercase(
                "No"@,
            ) ==> r is Some && ascii_lowercase(outcomes[r->0 as int]@) == ascii_lowercase("No"@)
            &&& named && upper == "UP"@ && 0 <= j < outcomes.len() && ascii_lowercase(outcomes[j]@) == ascii_lowercase(
                "Up"@,
            ) ==> r is Some && ascii_lowercase(outcomes[r->0 as int]@) == ascii_lowercase("Up"@)
            &&& named && upper == "DOWN"@ && 0 <= j < outcomes.len() && ascii_lowercase(outcomes[j]@) == ascii_lowercase(
                "Down"@,
            ) ==> r is Some && ascii_lowercase(outcomes[r->0 as int]@) == ascii_lowercase("Down"@)
        }),
{
    let o = views(outcomes@);
    let raw = trimmed(d.outcome_raw->0@);
    assert(o.len() == outcomes.len());
    assert(forall|i: int| 0 <= i < o.len() ==> #[trigger] o[i] == outcomes[i]@);
    lemma_named_is_first(o, raw, true, 0);
    lemma_named_is_first(o, "Yes"@, false, 0);
    lemma_named_is_first(o, "No"@, false, 0);
    lemma_named_is_first(o, "Up"@, false, 0);
    lemma_named_is_first(o, "Down"@, false, 0);
    reveal_strlit("YES");
    reveal_strlit("NO");
    reveal_strlit("UP");
    reveal_strlit("DOWN");
    assert("YES"@.len() == 3 && "NO"@.len() == 2 && "UP"@.len() == 2 && "DOWN"@.len() == 4);
    assert("NO"@[0] != "UP"@[0]);
    if 0 <= j < o.len() {
        assert(o[j] == outcomes[j]@);
    }
}

/// Yes and no stand for the first and the second outcome where none bears them.
pub proof fn law_yes_and_no_stand_for_places(
    d: ParsedDecisionDsl,
    outcomes: Vec<String>,
    r: Option<usize>,
)
    requires
        call_ensures(ParsedDecisionDsl::map_outcome_index, (&d, &outcomes), r),
        outcomes.len() == 2,
        d.outcome_index is None,
        d.outcome_raw is Some,
        integer_value(trimmed(d.outcome_raw->0@), false) is None,
        forall|j: int|
            0 <= j < 2 ==> ascii_lowercase((#[trigger] outcomes[j])@) != ascii_lowercase("Yes"@) && ascii_lowercase(
                outcomes[j]@,
            ) != ascii_lowercase("No"@),
    ensures
        ascii_uppercase(trimmed(d.outcome_raw->0@)) == "YES"@ ==> r == Some(0usize),
        ascii_uppercase(trimmed(d.outcome_raw->0@)) == "NO"@ ==> r == Some(1usize),
{
    let o = views(outcomes@);
    assert(o.len() == 2 && o[0] == outcomes[0]@ && o[1] == outcomes[1]@);
    lemma_named_is_first(o, "Yes"@, false, 0);
    lemma_named_is_first(o, "No"@, false, 0);
    reveal_strlit("YES");
    reveal_strlit("NO");
    assert("YES"@.len() != "NO"@.len());
}

/// A model is asked as the system first and as the user behind it; it answers with its first
/// choice.
pub proof fn law_model_is_asked_and_answers(
    c: OpenRouterClient,
    model: &str,
    system: &str,
    user: &str,
    max_tokens: u32,
    temperature: Scalar,
    q: ChatCompletionRequest,
    resp: ChatCompletionResponse,
    latency: u64,
    out: LlmCallOutput,
    status: u16,
    body: &str,
    e: LlmError,
)
    requires
        call_ensures(OpenRouterClient::chat_request, (&c, model, system, user, max_tokens, temperature), q),
        call_ensures(OpenRouterClient::completion, (&c, model, &resp, latency), out),
        call_ensures(OpenRouterClient::refusal, (&c, status, body), e),
    ensures
        q.messages.len() == 2,
        q.messages[0].role@ == "system"@ && q.messages[0].content@ == system@,
        q.messages[1].role@ == "user"@ && q.messages[1].content@ == user@,
        q.model@ == model@ && q.temperature == Some(temperature) && q.max_tokens == Some(max_tokens),
        out.model@ == model@ && out.latency_ms == latency,
        resp.choices.len() > 0 && resp.choices[0] is Some ==> out.content@ == resp.choices[0]->0@,
        resp.choices.len() == 0 || resp.choices[0] is None ==> out.content@.len() == 0,
        resp.usage is Some ==> out.usage == resp.usage->0,
        resp.usage is None ==> out.usage.total_tokens is None && out.usage.prompt_tokens is None,
        e is Answer && e->Answer_0@ == "openrouter "@ + decimal(status as int) + ": "@ + first_chars(body@, 800),
{
}

/// Models are asked with a key that is set and not blank.
pub proof fn law_asking_needs_a_key(env: Environment, r: Result<OpenRouterClient, LlmError>)
    requires
        call_ensures(OpenRouterClient::from_env, (&env,), r),
    ensures
        ({
            let k = env.text_of("OPENROUTER_API_KEY"@);
            &&& r is Ok <==> k is Some && trimmed(k->0).len() > 0
            &&& k is None ==> r->Err_0 is KeyMissing
            &&& k is Some && trimmed(k->0).len() == 0 ==> r->Err_0 is KeyEmpty
            &&& r is Ok ==> r->Ok_0.api_key@ == k->0
        }),
{
}

/// An error says what was wrong with a decision, and headers carry the key, and who asks
/// where that is set.
pub proof fn law_headers_carry_the_key(
    c: OpenRouterClient,
    h: Vec<(String, String)>,
    e: DslError,
    m: String,
    d: ParsedDecisionDsl,
    b: bool,
)
    requires
        call_ensures(OpenRouterClient::headers, (&c,), h),
        call_ensures(DslError::message, (&e,), m),
        call_ensures(ParsedDecisionDsl::is_buy, (&d,), b),
    ensures
        h.len() >= 2,
        h[0].0@ == "Authorization"@ && h[0].1@ == "Bearer "@ + c.api_key@,
        h[1].0@ == "Content-Type"@ && h[1].1@ == "application/json"@,
        c.referer is None && c.title is None ==> h.len() == 2,
        c.referer is Some ==> h.len() >= 3 && h[2].0@ == "HTTP-Referer"@ && h[2].1@ == c.referer->0@,
        c.title is Some ==> h.len() >= 3 && h@.last().0@ == "X-Title"@ && h@.last().1@ == c.title->0@,
        e is UnknownKey ==> m@ == "unknown key in dsl: "@ + e->UnknownKey_0@,
        e is MissingAction ==> m@ == "missing ACTION"@,
        e is MissingOutcome ==> m@ == "missing OUTCOME/OUTCOME_INDEX"@,
        b <==> d.action is Buy,
{
}

/// Each rank here is that of the binary64 number nearest to the one it is called after.
pub proof fn law_llm_ranks_are_nearest()
    ensures
        0x3F10_0000_0000_0000 <= LEAST_P_TRUE < 0x3F20_0000_0000_0000,
        -10000 <= 2 * (10000 * (LEAST_P_TRUE - 0x3F00000000000000) - 1 * 0x40000000000000000int) <= 10000,
        0x3FE0_0000_0000_0000 <= GREATEST_P_TRUE < 0x3FF0_0000_0000_0000,
        -10000 <= 2 * (10000 * (GREATEST_P_TRUE - 0x3FD0000000000000) - 9999 * 0x20000000000000int) <= 10000,
{
}

} // verus!
