//! A call-expectation engine. Call patterns declared per mockable function
//! are assembled into a registry; incoming invocations are matched against
//! the patterns, a responder is selected per call, invocations are counted,
//! and releasing the engine verifies that every counter's contract was met.
//! Call-time failures are latched into a single-slot mailbox whose first
//! occupant pre-empts every later report.

use vstd::prelude::*;
use vstd::string::StringExecFns;

mod counter;
mod error;
mod laws;
mod matcher;
mod mock_impl;
mod responder;
mod text;
mod value;

pub use counter::CallCounter;
pub use counter::Exactness;
pub use error::MockError;
pub use error::MockErrorModel;
pub use matcher::ArgMatcher;
pub use matcher::InputMatcher;
pub use mock_impl::AssembleError;
pub use mock_impl::CallPattern;
pub use mock_impl::CallPatternNonGeneric;
pub use mock_impl::DynMockImpl;
pub use mock_impl::EntryModel;
pub use mock_impl::FunctionKey;
pub use mock_impl::MockAssembler;
pub use mock_impl::PatternMatchMode;
pub use mock_impl::TypedMockImpl;
pub use laws::entry_ranges_partition;
pub use laws::lemma_assemble_records_modes;
pub use laws::lemma_incompatible_modes_rejected;
pub use laws::modes_recorded;
pub use laws::ordered_clauses_exact;
pub use laws::lemma_assemble_all_partition;
pub use laws::lemma_ordered_out_of_range;
pub use laws::lemma_ordered_routing_unique;
pub use laws::lemma_unordered_reselects_same_pattern;
pub use laws::lemma_unordered_selection_deterministic;
pub use responder::CallOrderResponder;
pub use responder::Responder;
pub use matcher::matches_inputs;
pub use value::Value;
pub use value::ValueModel;
pub use value::duplicate_value;
pub use value::value_eq;

use error::duplicate_error;
use error::error_message;
use error::errors_model;
use mock_impl::assemble_all;
use mock_impl::assemble_fits;
use mock_impl::lemma_assemble_err_propagates;
use mock_impl::lemma_assemble_take_succ;
use mock_impl::clause_assemble;
use mock_impl::clause_fits;
use mock_impl::entry_dispatch_model;
use mock_impl::entry_verify_model;
use mock_impl::find_entry;
use mock_impl::find_impl_index;
use mock_impl::registry_model;
use responder::RespondOutcome;
use responder::RespondOutcomeModel;
use value::inputs_model;

verus! {

/// What a call to a function with no registered patterns does: fail fast, or
/// hand the inputs back so the caller can run the real implementation.
#[derive(Clone, Copy, PartialEq, Eq, Structural, Debug)]
pub enum FallbackMode {
    /// Fail with an unmockable report.
    Error,
    /// Signal delegation to the real implementation.
    Unmock,
}

/// One function's finished call-pattern declaration, ready for registry
/// assembly.
pub struct Clause {
    dyn_impl: DynMockImpl,
}

impl View for Clause {
    type V = EntryModel;

    closed spec fn view(&self) -> EntryModel {
        self.dyn_impl@
    }
}

impl Clause {
    /// Wraps one function's declaration.
    pub fn new(dyn_impl: DynMockImpl) -> (r: Clause)
        ensures
            r@ == dyn_impl@,
    {
        Clause { dyn_impl }
    }
}

/// The model of a declaration list.
pub open spec fn clauses_model(cs: Seq<Clause>) -> Seq<EntryModel> {
    cs.map_values(|c: Clause| c@)
}

/// The registry plus the single-slot cross-thread failure mailbox.
struct SharedState {
    impls: Vec<DynMockImpl>,
    panic_reason: Option<MockError>,
}

/// The engine: an assembled registry whose counters advance per call, a
/// fallback policy, and the failure mailbox.
pub struct Unimock {
    fallback_mode: FallbackMode,
    state: SharedState,
}

/// The model of the engine.
#[verifier::ext_equal]
pub struct UnimockModel {
    pub fallback: FallbackMode,
    pub entries: Seq<EntryModel>,
    pub mailbox: Option<MockErrorModel>,
}

impl View for Unimock {
    type V = UnimockModel;

    closed spec fn view(&self) -> UnimockModel {
        UnimockModel {
            fallback: self.fallback_mode,
            entries: registry_model(self.state.impls@),
            mailbox: match self.state.panic_reason {
                Some(e) => Some(e@),
                None => None,
            },
        }
    }
}

/// The conditional evaluation result of a call.
pub enum ConditionalEval {
    /// The call evaluated to its output.
    Yes(Value),
    /// The call was not evaluated; the inputs come back so the caller can
    /// run the real implementation.
    No(Vec<Value>),
}

/// Builds the engine from a declaration list under the given fallback
/// policy: the registry is what assembling the whole list produces, the
/// mailbox starts empty, and the first assembly failure aborts construction.
pub fn mock_from_iterator(clauses: Vec<Clause>, fallback_mode: FallbackMode) -> (r: Result<
    Unimock,
    AssembleError,
>)
    requires
        assemble_fits(clauses_model(clauses@)),
    ensures
        match assemble_all(clauses_model(clauses@)) {
            Ok(es) => r matches Ok(u) && u@ == (UnimockModel {
                fallback: fallback_mode,
                entries: es,
                mailbox: None,
            }),
            Err(e) => r matches Err(ae) && ae@ == e,
        },
{
    let ghost cm = clauses_model(clauses@);
    let mut assembler = MockAssembler::new();
    let mut rest = clauses;
    proof {
        assert(clauses_model(rest@) =~= cm.skip(0));
        assert(cm.take(0) =~= Seq::<EntryModel>::empty());
    }
    while rest.len() > 0
        invariant
            cm == clauses_model(clauses@),
            rest@.len() <= cm.len(),
            assemble_fits(cm),
            clauses_model(rest@) == cm.skip(cm.len() - rest@.len()),
            assemble_all(cm.take(cm.len() - rest@.len())) == Ok::<
                Seq<EntryModel>,
                mock_impl::AssembleErrorModel,
            >(registry_model(assembler.impls@)),
        decreases rest@.len(),
    {
        let ghost k = cm.len() - rest@.len();
        let ghost rm0 = rest@;
        let c = rest.remove(0);
        proof {
            assert(clauses_model(rm0)[0] == c@);
            assert(cm.skip(k)[0] == cm[k]);
            assert(c@ == cm[k]);
            assert(clauses_model(rest@) =~= clauses_model(rm0).skip(1));
            assert(cm.skip(k).skip(1) =~= cm.skip(k + 1));
            assert(clause_fits(registry_model(assembler.impls@), cm[k]));
        }
        match c.dyn_impl.assemble_into(&mut assembler) {
            Ok(()) => {
                proof {
                    lemma_assemble_take_succ(cm, k);
                }
            },
            Err(e) => {
                proof {
                    lemma_assemble_take_succ(cm, k);
                    lemma_assemble_err_propagates(cm, k + 1, e@);
                }
                return Err(e);
            },
        }
    }
    proof {
        assert(cm.take(cm.len() as int) =~= cm);
    }
    Ok(Unimock { fallback_mode, state: SharedState { impls: assembler.impls, panic_reason: None } })
}

/// Builds an engine that works like a mock or a stub: every call hitting it
/// must be declared in advance as an input clause, or evaluation fails.
pub fn mock(clauses: Vec<Clause>) -> (r: Result<Unimock, AssembleError>)
    requires
        assemble_fits(clauses_model(clauses@)),
    ensures
        match assemble_all(clauses_model(clauses@)) {
            Ok(es) => r matches Ok(u) && u@ == (UnimockModel {
                fallback: FallbackMode::Error,
                entries: es,
                mailbox: None,
            }),
            Err(e) => r matches Err(ae) && ae@ == e,
        },
{
    mock_from_iterator(clauses, FallbackMode::Error)
}

/// Builds an engine that works like a spy: every clause acts as an override
/// over the default behaviour, which is to delegate to real-world code.
pub fn spy(clauses: Vec<Clause>) -> (r: Result<Unimock, AssembleError>)
    requires
        assemble_fits(clauses_model(clauses@)),
    ensures
        match assemble_all(clauses_model(clauses@)) {
            Ok(es) => r matches Ok(u) && u@ == (UnimockModel {
                fallback: FallbackMode::Unmock,
                entries: es,
                mailbox: None,
            }),
            Err(e) => r matches Err(ae) && ae@ == e,
        },
{
    mock_from_iterator(clauses, FallbackMode::Unmock)
}

/// The mailbox after a failure is offered to it: the first occupant wins.
pub open spec fn latch(mb: Option<MockErrorModel>, e: MockErrorModel) -> Option<MockErrorModel> {
    if mb is None {
        Some(e)
    } else {
        mb
    }
}

/// The engine with a failure latched into its mailbox.
pub open spec fn with_mailbox_latched(u: UnimockModel, e: MockErrorModel) -> UnimockModel {
    UnimockModel { mailbox: latch(u.mailbox, e), ..u }
}

/// What resolving one call against the registry does: a missing entry obeys
/// the fallback policy, a present one dispatches as
/// [`mock_impl::entry_dispatch_model`] says.
pub open spec fn registry_dispatch_model(
    u: UnimockModel,
    key: usize,
    kname: Seq<char>,
    inputs: Seq<ValueModel>,
) -> (UnimockModel, Result<RespondOutcomeModel, MockErrorModel>) {
    match find_entry(u.entries, key) {
        None => match u.fallback {
            FallbackMode::Error => (u, Err(MockErrorModel::Unmockable { name: kname })),
            FallbackMode::Unmock => (u, Ok(RespondOutcomeModel::Delegate)),
        },
        Some(i) => {
            let (e2, rm) = entry_dispatch_model(u.entries[i], inputs);
            (UnimockModel { entries: u.entries.update(i, e2), ..u }, rm)
        },
    }
}

/// What a conditional evaluation does: resolve the call, and latch any
/// failure into the mailbox.
pub open spec fn conditional_eval_model(
    u: UnimockModel,
    key: usize,
    kname: Seq<char>,
    inputs: Seq<ValueModel>,
) -> (UnimockModel, Result<RespondOutcomeModel, MockErrorModel>) {
    let (u2, rm) = registry_dispatch_model(u, key, kname, inputs);
    match rm {
        Ok(o) => (u2, Ok(o)),
        Err(e) => (with_mailbox_latched(u2, e), Err(e)),
    }
}

/// What a plain evaluation does: as the conditional one, except that a
/// delegation signal becomes a cannot-unmock failure, latched like any other.
pub open spec fn eval_model(
    u: UnimockModel,
    key: usize,
    kname: Seq<char>,
    inputs: Seq<ValueModel>,
) -> (UnimockModel, Result<ValueModel, MockErrorModel>) {
    let (u2, rm) = registry_dispatch_model(u, key, kname, inputs);
    match rm {
        Ok(RespondOutcomeModel::Output(v)) => (u2, Ok(v)),
        Ok(RespondOutcomeModel::Delegate) => {
            let e = MockErrorModel::CannotUnmock { name: kname };
            (with_mailbox_latched(u2, e), Err(e))
        },
        Ok(RespondOutcomeModel::Failure(m)) => {
            let e = MockErrorModel::ExplicitFailure { name: kname, message: m };
            (with_mailbox_latched(u2, e), Err(e))
        },
        Err(e) => (with_mailbox_latched(u2, e), Err(e)),
    }
}

impl Unimock {
    /// Latches a failure into the mailbox, first occupant winning, and
    /// renders the report it will print.
    pub fn prepare_panic(&mut self, error: MockError) -> (r: String)
        ensures
            final(self)@ == with_mailbox_latched(old(self)@, error@),
            r@ == error_message(error@),
    {
        let msg = error.message();
        if self.state.panic_reason.is_none() {
            self.state.panic_reason = Some(error);
        }
        msg
    }

    /// Conditionally evaluates a call: either it is evaluated against the
    /// registry to an output, or the inputs come back so the caller can run
    /// the real implementation. Failures are returned and latched.
    pub fn conditional_eval(&mut self, key: &FunctionKey, inputs: Vec<Value>) -> (r: Result<
        ConditionalEval,
        MockError,
    >)
        ensures
            ({
                let (u2, rm) = conditional_eval_model(
                    old(self)@,
                    key.id,
                    key.name@,
                    inputs_model(inputs@),
                );
                &&& final(self)@ == u2
                &&& match rm {
                    Ok(RespondOutcomeModel::Output(v)) => r matches Ok(ConditionalEval::Yes(out))
                        && out@ == v,
                    Ok(RespondOutcomeModel::Delegate) => r matches Ok(ConditionalEval::No(ins))
                        && ins == inputs,
                    Ok(RespondOutcomeModel::Failure(_)) => false,
                    Err(em) => r matches Err(e) && e@ == em,
                }
            }),
    {
        match find_impl_index(&self.state.impls, key.id) {
            None => match self.fallback_mode {
                FallbackMode::Unmock => Ok(ConditionalEval::No(inputs)),
                FallbackMode::Error => {
                    let err = MockError::Unmockable { name: key.name.clone() };
                    let _msg = self.prepare_panic(duplicate_error(&err));
                    Err(err)
                },
            },
            Some(i) => {
                let ghost entries0 = registry_model(self.state.impls@);
                let entry = &mut self.state.impls[i];
                let res = entry.dispatch(&inputs);
                proof {
                    assert(registry_model(self.state.impls@) =~= entries0.update(
                        i as int,
                        self.state.impls@[i as int]@,
                    ));
                }
                match res {
                    Ok(RespondOutcome::Output(v)) => Ok(ConditionalEval::Yes(v)),
                    Ok(RespondOutcome::Delegate) => Ok(ConditionalEval::No(inputs)),
                    Ok(RespondOutcome::Failure(m)) => {
                        let err = MockError::ExplicitFailure {
                            name: key.name.clone(),
                            message: m,
                        };
                        let _msg = self.prepare_panic(duplicate_error(&err));
                        Err(err)
                    },
                    Err(err) => {
                        let _msg = self.prepare_panic(duplicate_error(&err));
                        Err(err)
                    },
                }
            },
        }
    }

    /// Evaluates a call to its output. A delegation signal cannot be
    /// honoured here and fails with a cannot-unmock report. Failures are
    /// returned and latched.
    pub fn eval(&mut self, key: &FunctionKey, inputs: Vec<Value>) -> (r: Result<Value, MockError>)
        ensures
            ({
                let (u2, rm) = eval_model(old(self)@, key.id, key.name@, inputs_model(inputs@));
                &&& final(self)@ == u2
                &&& match rm {
                    Ok(v) => r matches Ok(out) && out@ == v,
                    Err(em) => r matches Err(e) && e@ == em,
                }
            }),
    {
        match self.conditional_eval(key, inputs) {
            Ok(ConditionalEval::Yes(v)) => Ok(v),
            Ok(ConditionalEval::No(_inputs)) => {
                let err = MockError::CannotUnmock { name: key.name.clone() };
                let _msg = self.prepare_panic(duplicate_error(&err));
                Err(err)
            },
            Err(e) => Err(e),
        }
    }
}

/// The errors that verifying the first `n` registry entries contributes, in
/// registry order.
pub open spec fn registry_verify_model(es: Seq<EntryModel>, n: int) -> Seq<MockErrorModel>
    decreases n,
{
    if n <= 0 {
        Seq::<MockErrorModel>::empty()
    } else {
        registry_verify_model(es, n - 1) + entry_verify_model(es[n - 1])
    }
}

/// The joined report of an error list, one message per line.
pub open spec fn join_messages(errs: Seq<MockErrorModel>, n: int) -> Seq<char>
    decreases n,
{
    if n <= 0 {
        Seq::<char>::empty()
    } else if n == 1 {
        error_message(errs[0])
    } else {
        join_messages(errs, n - 1) + "\n"@ + error_message(errs[n - 1])
    }
}

/// What releasing the engine reports: a latched failure is replayed verbatim
/// and pre-empts all other checks; otherwise every entry and every counter
/// is verified and the failures, if any, are reported together.
pub open spec fn release_model(u: UnimockModel) -> Result<(), Seq<char>> {
    match u.mailbox {
        Some(e) => Err(error_message(e)),
        None => {
            let errs = registry_verify_model(u.entries, u.entries.len() as int);
            if errs.len() == 0 {
                Ok(())
            } else {
                Err(join_messages(errs, errs.len() as int))
            }
        },
    }
}

impl Unimock {
    /// Releases the engine, verifying every expectation, as
    /// [`release_model`] says. This runs once, on the owning handle.
    pub fn release(self) -> (r: Result<(), String>)
        ensures
            match release_model(self@) {
                Ok(()) => r is Ok,
                Err(m) => r matches Err(s) && s@ == m,
            },
    {
        let ghost entries = registry_model(self.state.impls@);
        let Unimock { fallback_mode: _, state } = self;
        let SharedState { impls, panic_reason } = state;
        match panic_reason {
            Some(e) => {
                return Err(e.message());
            },
            None => {},
        }
        let mut errors: Vec<MockError> = Vec::new();
        proof {
            assert(errors_model(errors@) =~= Seq::<MockErrorModel>::empty());
        }
        let mut i: usize = 0;
        while i < impls.len()
            invariant
                0 <= i <= impls.len(),
                registry_model(impls@) == entries,
                entries.len() == impls.len(),
                errors_model(errors@) == registry_verify_model(entries, i as int),
            decreases impls.len() - i,
        {
            proof {
                assert(entries[i as int] == impls@[i as int]@);
            }
            impls[i].verify(&mut errors);
            i = i + 1;
        }
        if errors.len() == 0 {
            Ok(())
        } else {
            let ghost em = errors_model(errors@);
            let mut s = errors[0].message();
            proof {
                assert(em[0] == errors@[0]@);
                assert(s@ == join_messages(em, 1));
            }
            let mut k: usize = 1;
            while k < errors.len()
                invariant
                    1 <= k <= errors.len(),
                    errors_model(errors@) == em,
                    em.len() == errors.len(),
                    s@ == join_messages(em, k as int),
                decreases errors.len() - k,
            {
                proof {
                    assert(em[k as int] == errors@[k as int]@);
                }
                s.append("\n");
                let m = errors[k].message();
                s.append(m.as_str());
                k = k + 1;
            }
            Err(s)
        }
    }
}


/// A marker for mockable functions that can be unmocked into a unique true
/// implementation, reached when a responder signals delegation.
pub trait Unmock {

}

/// Relies on `Box::leak`: the returned `'static` reference points to the
/// boxed value, which is never deallocated.
#[verifier::external_body]
fn leak_value<T: 'static>(value: T) -> (r: &'static T)
    ensures
        *r == value,
{
    Box::leak(Box::new(value))
}

/// Conveniently leak some value to produce a static reference.
pub trait Leak {
    /// Leaks the value, returning a reference that lives for the rest of the
    /// program.
    fn leak(self) -> (r: &'static Self) where Self: Sized
        ensures
            *r == self,
    ;
}

impl<T: 'static> Leak for T {
    fn leak(self) -> (r: &'static Self)
        ensures
            *r == self,
    {
        leak_value(self)
    }
}

/// Implemented by references, to produce a `&'static T` from the owned `T`
/// by leaking memory.
pub trait LeakInto: Sized {
    /// The owned value a leaked reference is made from.
    type Owned: 'static;

    /// Leaks the owned value and returns the reference.
    fn leak_into(value: Self::Owned) -> Self;
}

impl<T: 'static> LeakInto for &T {
    type Owned = T;

    fn leak_into(value: T) -> Self {
        leak_value(value)
    }
}

/// Convert any type implementing `AsRef<str>` to a `&str`.
///
/// Relies on `AsRef::as_ref`, of which nothing more is assumed than its
/// signature: a cheap reference conversion chosen by the input's type.
#[verifier::external_body]
pub fn as_str_ref<T: AsRef<str>>(input: &T) -> &str {
    input.as_ref()
}

/// A stored response value that can be handed out either by copy or by
/// reference.
pub trait StoredValue<T> {
    /// A boxed copy of the stored value.
    fn box_clone(&self) -> Box<T>;

    /// A borrow of the stored value.
    fn borrow_stored(&self) -> &T;
}

/// A slot holding one stored response value.
pub struct StoredValueSlot<T>(pub T);

impl<T: Clone> StoredValue<T> for StoredValueSlot<T> {
    fn box_clone(&self) -> Box<T> {
        Box::new(self.0.clone())
    }

    fn borrow_stored(&self) -> (r: &T) {
        &self.0
    }
}

} // verus!
