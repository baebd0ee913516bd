//! Call patterns, per-function pattern sets, the registry of assembled
//! expectations, and the assembler that merges declarations into it.

use vstd::prelude::*;
use vstd::string::StringExecFns;

use crate::counter::CallCounter;
use crate::counter::Exactness;
use crate::counter::counter_exhausted;
use crate::counter::counter_verify_model;
use crate::error::MockError;
use crate::error::MockErrorModel;
use crate::error::errors_model;
use crate::matcher::InputMatcher;
use crate::matcher::InputMatcherModel;
use crate::matcher::matcher_accepts;
use crate::matcher::matches_inputs;
use crate::responder::CallOrderResponder;
use crate::responder::RespStepModel;
use crate::responder::RespondOutcome;
use crate::responder::RespondOutcomeModel;
use crate::responder::active_step;
use crate::responder::find_active_step;
use crate::responder::respond;
use crate::responder::respond_model;
use crate::responder::responders_model;
use crate::value::Value;
use crate::value::ValueModel;
use crate::value::inputs_model;
use crate::value::inputs_text;
use crate::value::render_inputs;

verus! {

/// The stable identity of one mockable function: an opaque numeric id used as
/// the registry key, and a human-readable name used in failure reports.
pub struct FunctionKey {
    pub id: usize,
    pub name: String,
}

impl FunctionKey {
    /// A key from its parts.
    pub fn new(id: usize, name: &str) -> (r: FunctionKey)
        ensures
            r.id == id,
            r.name@ == name@,
    {
        FunctionKey { id, name: name.to_owned() }
    }
}

/// How the patterns declared for one function are matched against calls.
#[derive(Clone, Copy, PartialEq, Eq, Structural, Debug)]
pub enum PatternMatchMode {
    /// Each new call starts at the first call pattern, tries to match it and
    /// then goes on to the next one until success.
    InAnyOrder,
    /// Each new call is routed by the function's call ordinal to the one
    /// pattern whose assigned call-index range contains it.
    InOrder,
}

/// A contiguous half-open interval of call ordinals assigned to one pattern
/// under sequence matching.
#[derive(Clone, Copy, PartialEq, Eq, Structural, Debug)]
pub struct IndexRange {
    pub start: usize,
    pub end: usize,
}

/// The part of a call pattern that does not depend on the matched function's
/// signature: its assigned call-index range and its call counter.
#[derive(Clone, Copy, PartialEq, Eq, Structural, Debug)]
pub struct CallPatternNonGeneric {
    pub call_index_range: IndexRange,
    pub call_counter: CallCounter,
}

/// One call pattern: an input matcher, a responder staircase and a counter.
pub struct CallPattern {
    pub non_generic: CallPatternNonGeneric,
    pub input_matcher: InputMatcher,
    pub responders: Vec<CallOrderResponder>,
}

/// The model of a [`CallPattern`]: its assigned range as unbounded numbers.
#[verifier::ext_equal]
pub struct PatternModel {
    pub matcher: InputMatcherModel,
    pub responders: Seq<RespStepModel>,
    pub range_start: nat,
    pub range_end: nat,
    pub counter: CallCounter,
}

impl View for CallPattern {
    type V = PatternModel;

    open spec fn view(&self) -> PatternModel {
        PatternModel {
            matcher: self.input_matcher@,
            responders: responders_model(self.responders@),
            range_start: self.non_generic.call_index_range.start as nat,
            range_end: self.non_generic.call_index_range.end as nat,
            counter: self.non_generic.call_counter,
        }
    }
}

/// The model of a pattern list.
pub open spec fn patterns_model(ps: Seq<CallPattern>) -> Seq<PatternModel> {
    ps.map_values(|p: CallPattern| p@)
}

impl CallPattern {
    /// A pattern that matches with the given matcher, with no responders yet
    /// and a counter that demands nothing.
    pub fn from_input_matcher(matcher: InputMatcher) -> (r: CallPattern)
        ensures
            r@ == (PatternModel {
                matcher: matcher@,
                responders: Seq::<RespStepModel>::empty(),
                range_start: 0,
                range_end: 0,
                counter: CallCounter { minimum: 0, exactness: Exactness::AtLeast, actual: 0 },
            }),
    {
        let r = CallPattern {
            non_generic: CallPatternNonGeneric {
                call_index_range: IndexRange { start: 0, end: 0 },
                call_counter: CallCounter::new(0, Exactness::AtLeast),
            },
            input_matcher: matcher,
            responders: Vec::new(),
        };
        proof {
            assert(responders_model(r.responders@) =~= Seq::<RespStepModel>::empty());
        }
        r
    }

    /// Appends a responder taking effect at the given response step.
    pub fn add_responder(&mut self, response_index: usize, responder: crate::responder::Responder)
        ensures
            final(self)@ == (PatternModel {
                responders: old(self)@.responders.push(
                    RespStepModel { step: response_index as nat, responder: responder@ },
                ),
                ..old(self)@
            }),
    {
        let ghost rv = responder@;
        self.responders.push(CallOrderResponder { response_index, responder });
        proof {
            assert(responders_model(self.responders@) =~= responders_model(
                old(self).responders@,
            ).push(RespStepModel { step: response_index as nat, responder: rv }));
        }
    }

    /// Raises this pattern's declared minimum, merging the exactness
    /// qualifier as [`crate::counter::merge_exactness`] says.
    pub fn quantify(&mut self, delta: usize, exactness: Exactness)
        requires
            old(self).non_generic.call_counter.minimum + delta <= usize::MAX,
        ensures
            final(self)@ == (PatternModel {
                counter: CallCounter {
                    minimum: (old(self).non_generic.call_counter.minimum + delta) as usize,
                    exactness: crate::counter::merge_exactness(
                        old(self).non_generic.call_counter.exactness,
                        exactness,
                    ),
                    actual: old(self).non_generic.call_counter.actual,
                },
                ..old(self)@
            }),
    {
        self.non_generic.call_counter.add_to_minimum(delta, exactness);
    }
}

impl CallPatternNonGeneric {
    /// Records one invocation of the owning pattern and returns the
    /// pre-increment per-pattern ordinal.
    pub fn increase_call_counter(&mut self) -> (r: usize)
        ensures
            r == old(self).call_counter.actual,
            *final(self) == (CallPatternNonGeneric {
                call_counter: CallCounter {
                    actual: if old(self).call_counter.actual < usize::MAX {
                        (old(self).call_counter.actual + 1) as usize
                    } else {
                        usize::MAX
                    },
                    ..old(self).call_counter
                },
                ..*old(self)
            }),
    {
        self.call_counter.fetch_add()
    }
}

/// The pattern set declared for one function, always non-empty.
pub struct TypedMockImpl {
    key: FunctionKey,
    patterns: Vec<CallPattern>,
}

impl TypedMockImpl {
    /// A pattern set from a stub's list of alternatives.
    pub fn from_stub_patterns(key: FunctionKey, patterns: Vec<CallPattern>) -> (r: TypedMockImpl)
        requires
            patterns@.len() >= 1,
        ensures
            r.key_id() == key.id,
            r.key_name() == key.name@,
            patterns_model(r.patterns_seq()) == patterns_model(patterns@),
    {
        TypedMockImpl { key, patterns }
    }

    /// A pattern set holding a single pattern.
    pub fn from_pattern(key: FunctionKey, pattern: CallPattern) -> (r: TypedMockImpl)
        ensures
            r.key_id() == key.id,
            r.key_name() == key.name@,
            patterns_model(r.patterns_seq()) == patterns_model(seq![pattern]),
    {
        let mut patterns: Vec<CallPattern> = Vec::new();
        patterns.push(pattern);
        proof {
            assert(patterns@ =~= seq![pattern]);
        }
        TypedMockImpl { key, patterns }
    }

    /// The declared patterns, in declaration order.
    pub fn patterns(&self) -> (r: &[CallPattern])
        ensures
            r@ == self.patterns_seq(),
    {
        self.patterns.as_slice()
    }

    /// The registry key of the mocked function.
    pub closed spec fn key_id(&self) -> usize {
        self.key.id
    }

    /// The display name of the mocked function.
    pub closed spec fn key_name(&self) -> Seq<char> {
        self.key.name@
    }

    /// The declared patterns, as a sequence.
    pub closed spec fn patterns_seq(&self) -> Seq<CallPattern> {
        self.patterns@
    }
}

/// The model of one registry entry: one function's assembled pattern set.
#[verifier::ext_equal]
pub struct EntryModel {
    /// The function's registry key.
    pub key: usize,
    /// The function's display name.
    pub name: Seq<char>,
    /// How calls are matched against the patterns.
    pub mode: PatternMatchMode,
    /// Whether any call was ever routed to this function.
    pub applied: bool,
    /// Under sequence matching, how many calls this function has taken.
    pub ordinal: nat,
    /// Under sequence matching, the end of the assigned call-index timeline.
    pub total: nat,
    /// The patterns, in declaration order.
    pub patterns: Seq<PatternModel>,
}

/// One function's pattern set with its match mode and call bookkeeping, as it
/// stands in the registry.
pub struct DynMockImpl {
    pub typed_impl: TypedMockImpl,
    pub pattern_match_mode: PatternMatchMode,
    pub has_applications: bool,
    call_ordinal: usize,
    assembled_total: usize,
}

impl View for DynMockImpl {
    type V = EntryModel;

    closed spec fn view(&self) -> EntryModel {
        EntryModel {
            key: self.typed_impl.key_id(),
            name: self.typed_impl.key_name(),
            mode: self.pattern_match_mode,
            applied: self.has_applications,
            ordinal: self.call_ordinal as nat,
            total: self.assembled_total as nat,
            patterns: patterns_model(self.typed_impl.patterns_seq()),
        }
    }
}

/// The model of the registry.
pub open spec fn registry_model(es: Seq<DynMockImpl>) -> Seq<EntryModel> {
    es.map_values(|e: DynMockImpl| e@)
}

impl DynMockImpl {
    /// A fresh, not yet assembled entry for one function's declaration.
    pub fn new(typed_impl: TypedMockImpl, mode: PatternMatchMode) -> (r: DynMockImpl)
        ensures
            r@ == (EntryModel {
                key: typed_impl.key_id(),
                name: typed_impl.key_name(),
                mode,
                applied: false,
                ordinal: 0,
                total: 0,
                patterns: patterns_model(typed_impl.patterns_seq()),
            }),
    {
        DynMockImpl {
            typed_impl,
            pattern_match_mode: mode,
            has_applications: false,
            call_ordinal: 0,
            assembled_total: 0,
        }
    }
}

/// The index of the first registry entry with the given key.
pub open spec fn find_entry(es: Seq<EntryModel>, key: usize) -> Option<int>
    decreases es.len(),
{
    if es.len() == 0 {
        None
    } else if es[0].key == key {
        Some(0)
    } else {
        match find_entry(es.skip(1), key) {
            Some(i) => Some(i + 1),
            None => None,
        }
    }
}

/// A found registry index is in bounds and holds the key.
pub proof fn lemma_find_entry_in_bounds(es: Seq<EntryModel>, key: usize)
    ensures
        match find_entry(es, key) {
            Some(i) => 0 <= i < es.len() && es[i].key == key,
            None => true,
        },
    decreases es.len(),
{
    if es.len() > 0 && es[0].key != key {
        lemma_find_entry_in_bounds(es.skip(1), key);
    }
}

proof fn lemma_find_entry_shift(es: Seq<EntryModel>, key: usize, i: int)
    requires
        0 <= i <= es.len(),
        forall|j: int| 0 <= j < i ==> (#[trigger] es[j]).key != key,
    ensures
        find_entry(es, key) == match find_entry(es.skip(i), key) {
            Some(n) => Some(n + i),
            None => None::<int>,
        },
    decreases i,
{
    if i > 0 {
        assert(es.len() > 0);
        lemma_find_entry_shift(es.skip(1), key, i - 1);
        assert(es.skip(1).skip(i - 1) =~= es.skip(i));
        assert(forall|j: int| 0 <= j < i - 1 ==> (#[trigger] es.skip(1)[j]).key != key);
    } else {
        assert(es.skip(0) =~= es);
    }
}

/// Finds the first registry slot holding the given key.
pub fn find_impl_index(impls: &Vec<DynMockImpl>, key: usize) -> (r: Option<usize>)
    ensures
        match r {
            Some(i) => 0 <= i < impls.len() && find_entry(registry_model(impls@), key) == Some(
                i as int,
            ) && registry_model(impls@)[i as int].key == key,
            None => find_entry(registry_model(impls@), key) is None,
        },
{
    let ghost em = registry_model(impls@);
    let mut i: usize = 0;
    while i < impls.len()
        invariant
            0 <= i <= impls.len(),
            registry_model(impls@) == em,
            em.len() == impls.len(),
            forall|j: int| 0 <= j < i ==> (#[trigger] em[j]).key != key,
        decreases impls.len() - i,
    {
        if impls[i].typed_impl.key.id == key {
            proof {
                assert(em[i as int] == impls@[i as int]@);
                lemma_find_entry_shift(em, key, i as int);
                assert(em.skip(i as int)[0] == em[i as int]);
            }
            return Some(i);
        }
        proof {
            assert(em[i as int] == impls@[i as int]@);
        }
        i = i + 1;
    }
    proof {
        lemma_find_entry_shift(em, key, em.len() as int);
        assert(em.skip(em.len() as int) =~= Seq::<EntryModel>::empty());
    }
    None
}

/// The errors that verifying the counters of one pattern list contributes,
/// for the first `n` patterns.
pub open spec fn patterns_verify_model(ps: Seq<PatternModel>, name: Seq<char>, n: int) -> Seq<
    MockErrorModel,
>
    decreases n,
{
    if n <= 0 {
        Seq::<MockErrorModel>::empty()
    } else {
        patterns_verify_model(ps, name, n - 1) + counter_verify_model(
            ps[n - 1].counter,
            name,
            (n - 1) as nat,
        )
    }
}

/// The errors that verifying one registry entry contributes: a never-called
/// report when no call was ever routed to the function, then each pattern's
/// counter verification in declaration order.
pub open spec fn entry_verify_model(e: EntryModel) -> Seq<MockErrorModel> {
    (if !e.applied {
        seq![MockErrorModel::MockNeverCalled { name: e.name }]
    } else {
        Seq::<MockErrorModel>::empty()
    }) + patterns_verify_model(e.patterns, e.name, e.patterns.len() as int)
}

impl DynMockImpl {
    /// Checks this entry's contracts at teardown, appending every failure.
    pub fn verify(&self, errors: &mut Vec<MockError>)
        ensures
            errors_model(final(errors)@) == errors_model(old(errors)@) + entry_verify_model(
                self@,
            ),
    {
        let ghost e0 = errors@;
        if !self.has_applications {
            errors.push(
                MockError::MockNeverCalled { name: self.typed_impl.key.name.clone() },
            );
        }
        let ghost head = errors@;
        let ghost pm = patterns_model(self.typed_impl.patterns_seq());
        let name: &str = self.typed_impl.key.name.as_str();
        let mut i: usize = 0;
        while i < self.typed_impl.patterns.len()
            invariant
                0 <= i <= self.typed_impl.patterns.len(),
                patterns_model(self.typed_impl.patterns_seq()) == pm,
                pm.len() == self.typed_impl.patterns.len(),
                name@ == self.typed_impl.key_name(),
                errors_model(errors@) == errors_model(head) + patterns_verify_model(
                    pm,
                    name@,
                    i as int,
                ),
            decreases self.typed_impl.patterns.len() - i,
        {
            self.typed_impl.patterns[i].non_generic.call_counter.verify(name, i, errors);
            proof {
                assert(pm[i as int] == self.typed_impl.patterns_seq()[i as int]@);
                assert(errors_model(errors@) =~= errors_model(head) + patterns_verify_model(
                    pm,
                    name@,
                    i as int + 1,
                ));
            }
            i = i + 1;
        }
        proof {
            assert(errors_model(errors@) =~= errors_model(e0) + entry_verify_model(self@));
        }
    }
}

/// Whether a pattern's counter carries an exact quota, which sequence-mode
/// assembly demands.
pub open spec fn pattern_has_exact(p: PatternModel) -> bool {
    p.counter.exactness is Exact
}

/// The exact quota a pattern contributes to its function's call timeline.
pub open spec fn exact_n(p: PatternModel) -> nat {
    if p.counter.exactness is Exact {
        p.counter.minimum as nat
    } else {
        0
    }
}

/// Whether every pattern of a list carries an exact quota.
pub open spec fn all_exact(ps: Seq<PatternModel>) -> bool {
    forall|i: int| 0 <= i < ps.len() ==> pattern_has_exact(#[trigger] ps[i])
}

/// The summed exact quotas of the first `n` patterns.
pub open spec fn sum_exact(ps: Seq<PatternModel>, n: int) -> nat
    decreases n,
{
    if n <= 0 {
        0
    } else {
        sum_exact(ps, n - 1) + exact_n(ps[n - 1])
    }
}

/// The prefix sums of exact quotas never decrease.
pub proof fn lemma_sum_exact_mono(ps: Seq<PatternModel>, a: int, b: int)
    requires
        a <= b,
    ensures
        sum_exact(ps, a) <= sum_exact(ps, b),
    decreases b - a,
{
    if a < b {
        lemma_sum_exact_mono(ps, a, b - 1);
    }
}

/// The same pattern with its call-index range reassigned.
pub open spec fn with_range(p: PatternModel, start: nat, end: nat) -> PatternModel {
    PatternModel { range_start: start, range_end: end, ..p }
}

/// The patterns with contiguous ranges assigned from `cursor` on, each as
/// wide as its exact quota.
pub open spec fn assigned_patterns(ps: Seq<PatternModel>, cursor: nat) -> Seq<PatternModel> {
    Seq::new(
        ps.len(),
        |i: int| with_range(ps[i], cursor + sum_exact(ps, i), cursor + sum_exact(ps, i + 1)),
    )
}

/// A failure of registry assembly; every one aborts construction before any
/// call is evaluated.
pub enum AssembleError {
    /// One function received pattern sets under both match modes.
    IncompatiblePatternMatchMode {
        name: String,
        old_mode: PatternMatchMode,
        new_mode: PatternMatchMode,
    },
    /// A sequence-matched pattern lacks the exact quota that fixes the width
    /// of its call-index range.
    MockHasNoExactExpectation { name: String },
}

/// The model of an [`AssembleError`].
#[verifier::ext_equal]
pub enum AssembleErrorModel {
    IncompatiblePatternMatchMode {
        name: Seq<char>,
        old_mode: PatternMatchMode,
        new_mode: PatternMatchMode,
    },
    MockHasNoExactExpectation { name: Seq<char> },
}

impl View for AssembleError {
    type V = AssembleErrorModel;

    open spec fn view(&self) -> AssembleErrorModel {
        match self {
            AssembleError::IncompatiblePatternMatchMode { name, old_mode, new_mode } => {
                AssembleErrorModel::IncompatiblePatternMatchMode {
                    name: name@,
                    old_mode: *old_mode,
                    new_mode: *new_mode,
                }
            },
            AssembleError::MockHasNoExactExpectation { name } => {
                AssembleErrorModel::MockHasNoExactExpectation { name: name@ }
            },
        }
    }
}

/// The name a match mode prints under.
pub open spec fn mode_name(m: PatternMatchMode) -> Seq<char> {
    if m is InAnyOrder {
        "InAnyOrder"@
    } else {
        "InOrder"@
    }
}

/// The report an assembly failure prints.
pub open spec fn assemble_error_message(e: AssembleErrorModel) -> Seq<char> {
    match e {
        AssembleErrorModel::IncompatiblePatternMatchMode { name, old_mode, new_mode } => {
            "A clause "@ + name + " has already been registered as a "@ + mode_name(old_mode)
                + ", but got re-registered as a "@ + mode_name(new_mode)
                + ". They cannot be mixed."@
        },
        AssembleErrorModel::MockHasNoExactExpectation { name } => {
            name + " mock has no exact count expectation, which is needed for a mock."@
        },
    }
}

/// Renders a match mode's name.
fn mode_name_str(m: PatternMatchMode) -> (r: &'static str)
    ensures
        r@ == mode_name(m),
{
    match m {
        PatternMatchMode::InAnyOrder => "InAnyOrder",
        PatternMatchMode::InOrder => "InOrder",
    }
}

impl AssembleError {
    /// The human-readable report of this assembly failure.
    pub fn to_string(&self) -> (r: String)
        ensures
            r@ == assemble_error_message(self@),
    {
        match self {
            AssembleError::IncompatiblePatternMatchMode { name, old_mode, new_mode } => {
                let mut s = String::from_str("A clause ");
                s.append(name.as_str());
                s.append(" has already been registered as a ");
                s.append(mode_name_str(*old_mode));
                s.append(", but got re-registered as a ");
                s.append(mode_name_str(*new_mode));
                s.append(". They cannot be mixed.");
                s
            },
            AssembleError::MockHasNoExactExpectation { name } => {
                let mut s = name.clone();
                s.append(" mock has no exact count expectation, which is needed for a mock.");
                s
            },
        }
    }
}

/// What one declaration does to the registry: a fresh function is inserted,
/// a function already present under the same mode has the new patterns
/// appended (with sequence ranges continuing its timeline), and a function
/// present under the other mode is an incompatibility.
pub open spec fn clause_assemble(es: Seq<EntryModel>, c: EntryModel) -> Result<
    Seq<EntryModel>,
    AssembleErrorModel,
> {
    match find_entry(es, c.key) {
        Some(i) => {
            if es[i].mode != c.mode {
                Err(
                    AssembleErrorModel::IncompatiblePatternMatchMode {
                        name: c.name,
                        old_mode: es[i].mode,
                        new_mode: c.mode,
                    },
                )
            } else if c.mode is InOrder && !all_exact(c.patterns) {
                Err(AssembleErrorModel::MockHasNoExactExpectation { name: c.name })
            } else if c.mode is InOrder {
                Ok(
                    es.update(
                        i,
                        EntryModel {
                            patterns: es[i].patterns + assigned_patterns(c.patterns, es[i].total),
                            total: es[i].total + sum_exact(c.patterns, c.patterns.len() as int),
                            ..es[i]
                        },
                    ),
                )
            } else {
                Ok(es.update(i, EntryModel { patterns: es[i].patterns + c.patterns, ..es[i] }))
            }
        },
        None => {
            if c.mode is InOrder && !all_exact(c.patterns) {
                Err(AssembleErrorModel::MockHasNoExactExpectation { name: c.name })
            } else if c.mode is InOrder {
                Ok(
                    es.push(
                        EntryModel {
                            patterns: assigned_patterns(c.patterns, 0),
                            total: sum_exact(c.patterns, c.patterns.len() as int),
                            ..c
                        },
                    ),
                )
            } else {
                Ok(es.push(EntryModel { total: 0, ..c }))
            }
        },
    }
}

/// The registry that assembling a whole declaration list produces, or the
/// first failure.
pub open spec fn assemble_all(cs: Seq<EntryModel>) -> Result<Seq<EntryModel>, AssembleErrorModel>
    decreases cs.len(),
{
    if cs.len() == 0 {
        Ok(Seq::<EntryModel>::empty())
    } else {
        match assemble_all(cs.drop_last()) {
            Ok(es) => clause_assemble(es, cs.last()),
            Err(e) => Err(e),
        }
    }
}

/// Assembling one more declaration folds one more step.
pub proof fn lemma_assemble_take_succ(cs: Seq<EntryModel>, k: int)
    requires
        0 <= k < cs.len(),
    ensures
        assemble_all(cs.take(k + 1)) == match assemble_all(cs.take(k)) {
            Ok(es) => clause_assemble(es, cs[k]),
            Err(e) => Err(e),
        },
{
    assert(cs.take(k + 1).drop_last() =~= cs.take(k));
    assert(cs.take(k + 1).last() == cs[k]);
}

/// A failed prefix fails the whole assembly with the same error.
pub proof fn lemma_assemble_err_propagates(
    cs: Seq<EntryModel>,
    k: int,
    e: AssembleErrorModel,
)
    requires
        0 <= k <= cs.len(),
        assemble_all(cs.take(k)) == Err::<Seq<EntryModel>, AssembleErrorModel>(e),
    ensures
        assemble_all(cs) == Err::<Seq<EntryModel>, AssembleErrorModel>(e),
    decreases cs.len() - k,
{
    if k == cs.len() {
        assert(cs.take(k) =~= cs);
    } else {
        lemma_assemble_take_succ(cs, k);
        lemma_assemble_err_propagates(cs, k + 1, e);
    }
}

/// Whether every assembled timeline stays within the machine's index range.
pub open spec fn totals_bounded(es: Seq<EntryModel>) -> bool {
    forall|i: int| 0 <= i < es.len() ==> (#[trigger] es[i]).total <= usize::MAX
}

/// Whether assembling one more declaration stays within the machine's index
/// range.
pub open spec fn clause_fits(es: Seq<EntryModel>, c: EntryModel) -> bool {
    match clause_assemble(es, c) {
        Ok(r) => totals_bounded(r),
        Err(_) => true,
    }
}

/// Whether assembling a whole declaration list stays within the machine's
/// index range, at every step.
pub open spec fn assemble_fits(cs: Seq<EntryModel>) -> bool {
    forall|k: int| 0 <= k < cs.len() ==> match assemble_all(cs.take(k)) {
        Ok(es) => clause_fits(es, #[trigger] cs[k]),
        Err(_) => true,
    }
}

impl CallPatternNonGeneric {
    /// Assigns this pattern's call-index range from the running cursor of its
    /// function's timeline, as wide as the exact quota; fails when the
    /// counter carries no exact quota.
    pub fn assemble_setup_call_range(
        &mut self,
        assembler_call_index: &mut usize,
        name: &str,
    ) -> (r: Result<(), AssembleError>)
        requires
            old(self).call_counter.exactness is Exact ==> *old(assembler_call_index)
                + old(self).call_counter.minimum <= usize::MAX,
        ensures
            old(self).call_counter.exactness is Exact ==> {
                &&& r is Ok
                &&& *final(self) == (CallPatternNonGeneric {
                    call_index_range: IndexRange {
                        start: *old(assembler_call_index),
                        end: (*old(assembler_call_index) + old(self).call_counter.minimum) as usize,
                    },
                    ..*old(self)
                })
                &&& *final(assembler_call_index) == *old(assembler_call_index)
                    + old(self).call_counter.minimum
            },
            !(old(self).call_counter.exactness is Exact) ==> {
                &&& r matches Err(e) && e@ == (AssembleErrorModel::MockHasNoExactExpectation {
                    name: name@,
                })
                &&& *final(self) == *old(self)
                &&& *final(assembler_call_index) == *old(assembler_call_index)
            },
    {
        let exact_count = match self.call_counter.get_expected_exact_count() {
            Some(n) => n,
            None => {
                return Err(AssembleError::MockHasNoExactExpectation { name: name.to_owned() });
            },
        };
        self.call_index_range.start = *assembler_call_index;
        self.call_index_range.end = *assembler_call_index + exact_count;
        *assembler_call_index = self.call_index_range.end;
        Ok(())
    }
}

impl TypedMockImpl {
    /// Under sequence matching, checks that every pattern carries an exact
    /// quota and assigns contiguous call-index ranges continuing the timeline
    /// at `*assembler_call_index`; under unordered matching, does nothing.
    fn assemble(
        &mut self,
        pattern_match_mode: PatternMatchMode,
        assembler_call_index: &mut usize,
    ) -> (r: Result<(), AssembleError>)
        requires
            pattern_match_mode is InOrder && all_exact(patterns_model(old(self).patterns_seq()))
                ==> *old(assembler_call_index) + sum_exact(
                patterns_model(old(self).patterns_seq()),
                old(self).patterns_seq().len() as int,
            ) <= usize::MAX,
        ensures
            final(self).key_id() == old(self).key_id(),
            final(self).key_name() == old(self).key_name(),
            !(pattern_match_mode is InOrder) ==> r is Ok && final(self).patterns_seq() == old(
                self,
            ).patterns_seq() && *final(assembler_call_index) == *old(assembler_call_index),
            pattern_match_mode is InOrder && !all_exact(patterns_model(old(self).patterns_seq()))
                ==> {
                &&& r matches Err(e) && e@ == (AssembleErrorModel::MockHasNoExactExpectation {
                    name: old(self).key_name(),
                })
                &&& patterns_model(final(self).patterns_seq()) == patterns_model(
                    old(self).patterns_seq(),
                )
                &&& *final(assembler_call_index) == *old(assembler_call_index)
            },
            pattern_match_mode is InOrder && all_exact(patterns_model(old(self).patterns_seq()))
                ==> {
                &&& r is Ok
                &&& patterns_model(final(self).patterns_seq()) == assigned_patterns(
                    patterns_model(old(self).patterns_seq()),
                    *old(assembler_call_index) as nat,
                )
                &&& *final(assembler_call_index) == *old(assembler_call_index) + sum_exact(
                    patterns_model(old(self).patterns_seq()),
                    old(self).patterns_seq().len() as int,
                )
            },
    {
        match pattern_match_mode {
            PatternMatchMode::InAnyOrder => Ok(()),
            PatternMatchMode::InOrder => {
                let ghost pm0 = patterns_model(self.patterns_seq());
                let n = self.patterns.len();
                let mut j: usize = 0;
                while j < n
                    invariant
                        0 <= j <= n,
                        n == self.patterns.len(),
                        pattern_match_mode is InOrder,
                        patterns_model(self.patterns_seq()) == pm0,
                        pm0 == patterns_model(old(self).patterns_seq()),
                        self.key_name() == old(self).key_name(),
                        self.key_id() == old(self).key_id(),
                        *assembler_call_index == *old(assembler_call_index),
                        pm0.len() == n,
                        forall|t: int| 0 <= t < j ==> pattern_has_exact(#[trigger] pm0[t]),
                    decreases n - j,
                {
                    proof {
                        assert(pm0[j as int] == self.patterns_seq()[j as int]@);
                    }
                    if self.patterns[j].non_generic.call_counter.get_expected_exact_count().is_none() {
                        proof {
                            assert(!pattern_has_exact(pm0[j as int]));
                            assert(!all_exact(pm0));
                        }
                        return Err(
                            AssembleError::MockHasNoExactExpectation {
                                name: self.key.name.clone(),
                            },
                        );
                    }
                    j = j + 1;
                }
                assert(all_exact(pm0));
                let ghost c0 = *assembler_call_index;
                let mut j: usize = 0;
                while j < n
                    invariant
                        0 <= j <= n,
                        n == self.patterns.len(),
                        pattern_match_mode is InOrder,
                        all_exact(pm0),
                        pm0 == patterns_model(old(self).patterns_seq()),
                        pm0.len() == n,
                        self.key_name() == old(self).key_name(),
                        self.key_id() == old(self).key_id(),
                        c0 == *old(assembler_call_index),
                        c0 + sum_exact(pm0, n as int) <= usize::MAX,
                        *assembler_call_index == c0 + sum_exact(pm0, j as int),
                        patterns_model(self.patterns_seq()) == Seq::new(
                            pm0.len(),
                            |t: int|
                                if t < j {
                                    assigned_patterns(pm0, c0 as nat)[t]
                                } else {
                                    pm0[t]
                                },
                        ),
                    decreases n - j,
                {
                    let ghost jj = j as int;
                    let ghost pmid = patterns_model(self.patterns_seq());
                    proof {
                        lemma_sum_exact_mono(pm0, jj + 1, n as int);
                        assert(pmid[jj] == pm0[jj]);
                        assert(pmid[jj] == self.patterns_seq()[jj]@);
                        assert(pattern_has_exact(pm0[jj]));
                        assert(exact_n(pm0[jj])
                            == self.patterns@[jj].non_generic.call_counter.minimum as nat);
                        assert(sum_exact(pm0, jj + 1) == sum_exact(pm0, jj) + exact_n(pm0[jj]));
                    }
                    let pattern_name = self.key.name.as_str();
                    let p = &mut self.patterns[j];
                    let res = p.non_generic.assemble_setup_call_range(
                        assembler_call_index,
                        pattern_name,
                    );
                    proof {
                        assert(res is Ok);
                        let newm = patterns_model(self.patterns_seq());
                        assert forall|t: int| 0 <= t < pm0.len() implies newm[t] == (if t < jj + 1 {
                            assigned_patterns(pm0, c0 as nat)[t]
                        } else {
                            pm0[t]
                        }) by {
                            assert(newm[t] == self.patterns@[t]@);
                            if t == jj {
                                assert(newm[t].counter == pm0[t].counter);
                                assert(newm[t].matcher == pm0[t].matcher);
                                assert(newm[t].responders == pm0[t].responders);
                                assert(newm[t].range_start == c0 + sum_exact(pm0, t));
                                assert(newm[t].range_end == c0 + sum_exact(pm0, t + 1));
                                assert(newm[t] =~= assigned_patterns(pm0, c0 as nat)[t]);
                            } else {
                                assert(newm[t] == pmid[t]);
                            }
                        }
                        assert(newm =~= Seq::new(
                            pm0.len(),
                            |t: int|
                                if t < jj + 1 {
                                    assigned_patterns(pm0, c0 as nat)[t]
                                } else {
                                    pm0[t]
                                },
                        ));
                    }
                    j = j + 1;
                }
                proof {
                    assert(patterns_model(self.patterns_seq()) =~= assigned_patterns(
                        pm0,
                        c0 as nat,
                    ));
                }
                Ok(())
            },
        }
    }
}

/// Merges declarations, one function at a time, into the registry that a
/// finished engine evaluates against.
pub struct MockAssembler {
    pub impls: Vec<DynMockImpl>,
}

impl MockAssembler {
    /// An assembler with an empty registry.
    pub fn new() -> (r: MockAssembler)
        ensures
            registry_model(r.impls@) == Seq::<EntryModel>::empty(),
    {
        let r = MockAssembler { impls: Vec::new() };
        proof {
            assert(registry_model(r.impls@) =~= Seq::<EntryModel>::empty());
        }
        r
    }
}

impl DynMockImpl {
    /// Merges this declaration into the assembler's registry, as
    /// [`clause_assemble`] says; on failure the registry is untouched.
    pub fn assemble_into(self, assembler: &mut MockAssembler) -> (r: Result<
        (),
        AssembleError,
    >)
        requires
            clause_fits(registry_model(old(assembler).impls@), self@),
        ensures
            match clause_assemble(registry_model(old(assembler).impls@), self@) {
                Ok(es) => r is Ok && registry_model(final(assembler).impls@) == es,
                Err(e) => {
                    &&& r matches Err(ae) && ae@ == e
                    &&& registry_model(final(assembler).impls@) == registry_model(
                        old(assembler).impls@,
                    )
                },
            },
    {
        let mut this = self;
        let ghost es0 = registry_model(assembler.impls@);
        let ghost c_model = this@;
        match find_impl_index(&assembler.impls, this.typed_impl.key.id) {
            Some(i) => {
                if assembler.impls[i].pattern_match_mode != this.pattern_match_mode {
                    return Err(
                        AssembleError::IncompatiblePatternMatchMode {
                            name: this.typed_impl.key.name,
                            old_mode: assembler.impls[i].pattern_match_mode,
                            new_mode: this.pattern_match_mode,
                        },
                    );
                }
                let mut cursor: usize = assembler.impls[i].assembled_total;
                proof {
                    if this.pattern_match_mode is InOrder && all_exact(c_model.patterns) {
                        assert(clause_assemble(es0, c_model) is Ok);
                        let merged = clause_assemble(es0, c_model)->Ok_0;
                        assert(merged[i as int].total <= usize::MAX);
                    }
                }
                match this.typed_impl.assemble(this.pattern_match_mode, &mut cursor) {
                    Ok(()) => {},
                    Err(e) => {
                        return Err(e);
                    },
                }
                let entry = &mut assembler.impls[i];
                entry.typed_impl.patterns.append(&mut this.typed_impl.patterns);
                entry.assembled_total = cursor;
                proof {
                    assert(patterns_model(entry.typed_impl.patterns_seq()) =~= es0[i as int].patterns
                        + (if c_model.mode is InOrder {
                            assigned_patterns(c_model.patterns, es0[i as int].total)
                        } else {
                            c_model.patterns
                        }));
                    assert(registry_model(assembler.impls@) =~= clause_assemble(
                        es0,
                        c_model,
                    )->Ok_0);
                }
                Ok(())
            },
            None => {
                let mut cursor: usize = 0;
                proof {
                    if this.pattern_match_mode is InOrder && all_exact(c_model.patterns) {
                        assert(clause_assemble(es0, c_model) is Ok);
                        let merged = clause_assemble(es0, c_model)->Ok_0;
                        assert(merged.last().total <= usize::MAX);
                    }
                }
                match this.typed_impl.assemble(this.pattern_match_mode, &mut cursor) {
                    Ok(()) => {},
                    Err(e) => {
                        return Err(e);
                    },
                }
                this.assembled_total = cursor;
                assembler.impls.push(this);
                proof {
                    assert(registry_model(assembler.impls@) =~= clause_assemble(
                        es0,
                        c_model,
                    )->Ok_0);
                }
                Ok(())
            },
        }
    }
}


/// The first pattern, in declaration order, whose matcher accepts the inputs
/// and whose exact quota is not used up, starting the scan at `i`.
pub open spec fn sel_unordered(ps: Seq<PatternModel>, inputs: Seq<ValueModel>, i: int) -> Option<
    int,
>
    decreases ps.len() - i,
{
    if i < 0 || i >= ps.len() {
        None
    } else if matcher_accepts(ps[i].matcher, inputs) && !counter_exhausted(ps[i].counter) {
        Some(i)
    } else {
        sel_unordered(ps, inputs, i + 1)
    }
}

/// Whether a pattern's assigned call-index range contains the ordinal.
pub open spec fn in_pattern_range(p: PatternModel, ordinal: nat) -> bool {
    p.range_start <= ordinal < p.range_end
}

/// The first pattern whose assigned range contains the ordinal, starting the
/// scan at `i`. Under the ranges that assembly produces the hit is unique.
pub open spec fn sel_ordered(ps: Seq<PatternModel>, ordinal: nat, i: int) -> Option<int>
    decreases ps.len() - i,
{
    if i < 0 || i >= ps.len() {
        None
    } else if in_pattern_range(ps[i], ordinal) {
        Some(i)
    } else {
        sel_ordered(ps, ordinal, i + 1)
    }
}

/// A counter after one recorded invocation.
pub open spec fn bump_actual(c: CallCounter) -> CallCounter {
    CallCounter {
        actual: if c.actual < usize::MAX {
            (c.actual + 1) as usize
        } else {
            usize::MAX
        },
        ..c
    }
}

/// A pattern after one recorded invocation.
pub open spec fn bump_pattern(p: PatternModel) -> PatternModel {
    PatternModel { counter: bump_actual(p.counter), ..p }
}

/// What routing one call to pattern `i` of an entry does: the entry is marked
/// applied, the pattern's counter records the invocation (and, under sequence
/// matching, the function's ordinal advances), and the responder active at
/// the pre-increment per-pattern ordinal produces the result.
pub open spec fn pattern_dispatch_model(
    e: EntryModel,
    i: int,
    inputs: Seq<ValueModel>,
    advance: bool,
) -> (EntryModel, Result<RespondOutcomeModel, MockErrorModel>) {
    let p = e.patterns[i];
    let k = p.counter.actual;
    let e2 = EntryModel {
        applied: true,
        ordinal: if advance {
            e.ordinal + 1
        } else {
            e.ordinal
        },
        patterns: e.patterns.update(i, bump_pattern(p)),
        ..e
    };
    match active_step(p.responders, k as nat) {
        None => (
            e2,
            Err(MockErrorModel::NoOutputAvailable { name: e.name, pat_index: i as nat }),
        ),
        Some(ri) => match respond_model(p.responders[ri].responder, inputs) {
            RespondOutcomeModel::Output(v) => (e2, Ok(RespondOutcomeModel::Output(v))),
            RespondOutcomeModel::Delegate => (e2, Ok(RespondOutcomeModel::Delegate)),
            RespondOutcomeModel::Failure(m) => (
                e2,
                Err(MockErrorModel::ExplicitFailure { name: e.name, message: m }),
            ),
        },
    }
}

/// What one call to an entry does. Unordered matching selects the first
/// matching, unexhausted pattern and fails with a no-matching-pattern report
/// when there is none. Sequence matching routes the call ordinal to the
/// pattern whose range contains it, fails out-of-range once the timeline is
/// used up, and fails without skipping when that pattern's matcher rejects
/// the inputs. A failed call leaves the entry untouched.
pub open spec fn entry_dispatch_model(e: EntryModel, inputs: Seq<ValueModel>) -> (
    EntryModel,
    Result<RespondOutcomeModel, MockErrorModel>,
) {
    match e.mode {
        PatternMatchMode::InAnyOrder => match sel_unordered(e.patterns, inputs, 0) {
            None => (
                e,
                Err(
                    MockErrorModel::NoMatchingPattern {
                        name: e.name,
                        inputs_text: inputs_text(inputs),
                    },
                ),
            ),
            Some(i) => pattern_dispatch_model(e, i, inputs, false),
        },
        PatternMatchMode::InOrder => {
            if e.ordinal >= e.total {
                (e, Err(MockErrorModel::SequenceOutOfRange { name: e.name, ordinal: e.ordinal }))
            } else {
                match sel_ordered(e.patterns, e.ordinal, 0) {
                    None => (
                        e,
                        Err(
                            MockErrorModel::SequenceOutOfRange {
                                name: e.name,
                                ordinal: e.ordinal,
                            },
                        ),
                    ),
                    Some(i) => {
                        if !matcher_accepts(e.patterns[i].matcher, inputs) {
                            (
                                e,
                                Err(
                                    MockErrorModel::NoMatchingPattern {
                                        name: e.name,
                                        inputs_text: inputs_text(inputs),
                                    },
                                ),
                            )
                        } else {
                            pattern_dispatch_model(e, i, inputs, true)
                        }
                    },
                }
            }
        },
    }
}

/// Finds the first matching, unexhausted pattern for an unordered call.
fn select_unordered_index(patterns: &Vec<CallPattern>, inputs: &Vec<Value>) -> (r: Option<usize>)
    ensures
        match r {
            Some(i) => 0 <= i < patterns.len() && sel_unordered(
                patterns_model(patterns@),
                inputs_model(inputs@),
                0,
            ) == Some(i as int),
            None => sel_unordered(patterns_model(patterns@), inputs_model(inputs@), 0) is None,
        },
{
    let ghost pm = patterns_model(patterns@);
    let ghost vm = inputs_model(inputs@);
    let mut i: usize = 0;
    while i < patterns.len()
        invariant
            0 <= i <= patterns.len(),
            patterns_model(patterns@) == pm,
            inputs_model(inputs@) == vm,
            pm.len() == patterns.len(),
            sel_unordered(pm, vm, 0) == sel_unordered(pm, vm, i as int),
        decreases patterns.len() - i,
    {
        proof {
            assert(pm[i as int] == patterns@[i as int]@);
        }
        let p = &patterns[i];
        if matches_inputs(&p.input_matcher, inputs) {
            let c = &p.non_generic.call_counter;
            let exhausted = match c.exactness {
                Exactness::Exact => c.actual >= c.minimum,
                _ => false,
            };
            if !exhausted {
                return Some(i);
            }
        }
        i = i + 1;
    }
    None
}

/// Finds the pattern whose assigned range contains the call ordinal.
fn select_ordered_index(patterns: &Vec<CallPattern>, ordinal: usize) -> (r: Option<usize>)
    ensures
        match r {
            Some(i) => 0 <= i < patterns.len() && sel_ordered(
                patterns_model(patterns@),
                ordinal as nat,
                0,
            ) == Some(i as int),
            None => sel_ordered(patterns_model(patterns@), ordinal as nat, 0) is None,
        },
{
    let ghost pm = patterns_model(patterns@);
    let mut i: usize = 0;
    while i < patterns.len()
        invariant
            0 <= i <= patterns.len(),
            patterns_model(patterns@) == pm,
            pm.len() == patterns.len(),
            sel_ordered(pm, ordinal as nat, 0) == sel_ordered(pm, ordinal as nat, i as int),
        decreases patterns.len() - i,
    {
        proof {
            assert(pm[i as int] == patterns@[i as int]@);
        }
        let rg = &patterns[i].non_generic.call_index_range;
        if rg.start <= ordinal && ordinal < rg.end {
            return Some(i);
        }
        i = i + 1;
    }
    None
}

impl DynMockImpl {
    /// Routes one call to pattern `i`, recording it and executing the active
    /// responder.
    fn apply_pattern(&mut self, i: usize, inputs: &Vec<Value>, advance: bool) -> (r: Result<
        RespondOutcome,
        MockError,
    >)
        requires
            i < old(self)@.patterns.len(),
            advance ==> old(self)@.ordinal < old(self)@.total,
        ensures
            ({
                let (e2, rm) = pattern_dispatch_model(
                    old(self)@,
                    i as int,
                    inputs_model(inputs@),
                    advance,
                );
                &&& final(self)@ == e2
                &&& match rm {
                    Ok(om) => r matches Ok(o) && o@ == om,
                    Err(em) => r matches Err(err) && err@ == em,
                }
            }),
    {
        let ghost e0 = self@;
        let ghost pm = patterns_model(self.typed_impl.patterns_seq());
        self.has_applications = true;
        if advance {
            self.call_ordinal = self.call_ordinal + 1;
        }
        proof {
            assert(pm[i as int] == self.typed_impl.patterns_seq()[i as int]@);
        }
        let p = &mut self.typed_impl.patterns[i];
        let k = p.non_generic.increase_call_counter();
        let step = find_active_step(&p.responders, k);
        match step {
            None => {
                proof {
                    assert(patterns_model(self.typed_impl.patterns_seq()) =~= e0.patterns.update(
                        i as int,
                        bump_pattern(e0.patterns[i as int]),
                    ));
                }
                Err(
                    MockError::NoOutputAvailable {
                        name: self.typed_impl.key.name.clone(),
                        pat_index: i,
                    },
                )
            },
            Some(ri) => {
                let out = respond(&p.responders[ri].responder, inputs);
                proof {
                    assert(e0.patterns[i as int].responders[ri as int] == responders_model(
                        p.responders@,
                    )[ri as int]);
                    assert(patterns_model(self.typed_impl.patterns_seq()) =~= e0.patterns.update(
                        i as int,
                        bump_pattern(e0.patterns[i as int]),
                    ));
                }
                match out {
                    RespondOutcome::Failure(m) => Err(
                        MockError::ExplicitFailure {
                            name: self.typed_impl.key.name.clone(),
                            message: m,
                        },
                    ),
                    other => Ok(other),
                }
            },
        }
    }

    /// Evaluates one call against this entry, as [`entry_dispatch_model`]
    /// says.
    pub fn dispatch(&mut self, inputs: &Vec<Value>) -> (r: Result<RespondOutcome, MockError>)
        ensures
            ({
                let (e2, rm) = entry_dispatch_model(old(self)@, inputs_model(inputs@));
                &&& final(self)@ == e2
                &&& match rm {
                    Ok(om) => r matches Ok(o) && o@ == om,
                    Err(em) => r matches Err(err) && err@ == em,
                }
            }),
    {
        match self.pattern_match_mode {
            PatternMatchMode::InAnyOrder => {
                match select_unordered_index(&self.typed_impl.patterns, inputs) {
                    None => Err(
                        MockError::NoMatchingPattern {
                            name: self.typed_impl.key.name.clone(),
                            inputs_text: render_inputs(inputs),
                        },
                    ),
                    Some(i) => self.apply_pattern(i, inputs, false),
                }
            },
            PatternMatchMode::InOrder => {
                if self.call_ordinal >= self.assembled_total {
                    return Err(
                        MockError::SequenceOutOfRange {
                            name: self.typed_impl.key.name.clone(),
                            ordinal: self.call_ordinal,
                        },
                    );
                }
                match select_ordered_index(&self.typed_impl.patterns, self.call_ordinal) {
                    None => Err(
                        MockError::SequenceOutOfRange {
                            name: self.typed_impl.key.name.clone(),
                            ordinal: self.call_ordinal,
                        },
                    ),
                    Some(i) => {
                        if !matches_inputs(&self.typed_impl.patterns[i].input_matcher, inputs) {
                            proof {
                                assert(old(self)@.patterns[i as int] == patterns_model(
                                    self.typed_impl.patterns_seq(),
                                )[i as int]);
                            }
                            return Err(
                                MockError::NoMatchingPattern {
                                    name: self.typed_impl.key.name.clone(),
                                    inputs_text: render_inputs(inputs),
                                },
                            );
                        }
                        proof {
                            assert(old(self)@.patterns[i as int] == patterns_model(
                                self.typed_impl.patterns_seq(),
                            )[i as int]);
                        }
                        self.apply_pattern(i, inputs, true)
                    },
                }
            },
        }
    }
}

} // verus!
