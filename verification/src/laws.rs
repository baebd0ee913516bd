//! Engine-wide laws, proved once and for all: deterministic unordered
//! selection, the partition of sequence-mode call-index ranges, and the
//! rejection of mixed match modes at assembly.

use vstd::prelude::*;

use crate::mock_impl::EntryModel;
use crate::mock_impl::PatternModel;
use crate::mock_impl::all_exact;
use crate::mock_impl::assemble_all;
use crate::mock_impl::assigned_patterns;
use crate::mock_impl::clause_assemble;
use crate::mock_impl::entry_dispatch_model;
use crate::mock_impl::AssembleErrorModel;
use crate::mock_impl::find_entry;
use crate::mock_impl::lemma_assemble_err_propagates;
use crate::mock_impl::lemma_assemble_take_succ;
use crate::mock_impl::lemma_find_entry_in_bounds;
use crate::mock_impl::in_pattern_range;
use crate::mock_impl::bump_pattern;
use crate::mock_impl::sel_ordered;
use crate::mock_impl::sel_unordered;
use crate::mock_impl::sum_exact;
use crate::counter::counter_exhausted;
use crate::error::MockErrorModel;
use crate::matcher::matcher_accepts;
use crate::value::ValueModel;

verus! {

/// Unordered-mode selection is deterministic: with equal pattern states,
/// counters included, and equal inputs, the same pattern is selected.
pub proof fn lemma_unordered_selection_deterministic(
    ps1: Seq<PatternModel>,
    ps2: Seq<PatternModel>,
    inputs1: Seq<ValueModel>,
    inputs2: Seq<ValueModel>,
)
    requires
        ps1 == ps2,
        inputs1 == inputs2,
    ensures
        sel_unordered(ps1, inputs1, 0) == sel_unordered(ps2, inputs2, 0),
{
}

/// Adjacent assigned ranges meet: the range of pattern `i` ends where the
/// range of pattern `i + 1` begins.
pub open spec fn ranges_chained(ps: Seq<PatternModel>, i: int) -> bool {
    ps[i].range_end == ps[i + 1].range_start
}

/// A pattern's assigned range does not run backwards.
pub open spec fn range_ok(ps: Seq<PatternModel>, i: int) -> bool {
    ps[i].range_start <= ps[i].range_end
}

/// A sequence-matched entry whose ranges partition `[0, total)`: the first
/// range starts at zero, each range ends where the next begins, no range
/// runs backwards, and the last range ends at the total.
pub open spec fn entry_ranges_partition(e: EntryModel) -> bool {
    &&& (e.patterns.len() == 0 ==> e.total == 0)
    &&& (e.patterns.len() > 0 ==> e.patterns[0].range_start == 0 && e.patterns[
        e.patterns.len() - 1
    ].range_end == e.total)
    &&& forall|i: int| 0 <= i < e.patterns.len() - 1 ==> #[trigger] ranges_chained(e.patterns, i)
    &&& forall|i: int| 0 <= i < e.patterns.len() ==> #[trigger] range_ok(e.patterns, i)
}

/// Extending a partitioned timeline with freshly assigned ranges keeps it
/// partitioned.
proof fn lemma_partition_extend(e: EntryModel, ps: Seq<PatternModel>, e2: EntryModel)
    requires
        entry_ranges_partition(e),
        e2.patterns == e.patterns + assigned_patterns(ps, e.total),
        e2.total == e.total + sum_exact(ps, ps.len() as int),
    ensures
        entry_ranges_partition(e2),
{
    let n = e.patterns.len() as int;
    let m = ps.len() as int;
    assert(e2.patterns.len() == n + m);
    assert forall|i: int| 0 <= i < n + m - 1 implies #[trigger] ranges_chained(
        e2.patterns,
        i,
    ) by {
        if i < n - 1 {
            assert(ranges_chained(e.patterns, i));
            assert(e2.patterns[i] == e.patterns[i]);
            assert(e2.patterns[i + 1] == e.patterns[i + 1]);
        } else if i == n - 1 {
            assert(e2.patterns[i] == e.patterns[i]);
            assert(e2.patterns[i + 1] == assigned_patterns(ps, e.total)[0]);
            assert(sum_exact(ps, 0) == 0);
        } else {
            assert(e2.patterns[i] == assigned_patterns(ps, e.total)[i - n]);
            assert(e2.patterns[i + 1] == assigned_patterns(ps, e.total)[i + 1 - n]);
            assert(sum_exact(ps, i - n + 1) == sum_exact(ps, i - n) + crate::mock_impl::exact_n(
                ps[i - n],
            ));
        }
    }
    assert forall|i: int| 0 <= i < n + m implies #[trigger] range_ok(e2.patterns, i) by {
        if i < n {
            assert(range_ok(e.patterns, i));
            assert(e2.patterns[i] == e.patterns[i]);
        } else {
            assert(e2.patterns[i] == assigned_patterns(ps, e.total)[i - n]);
            assert(sum_exact(ps, i - n + 1) == sum_exact(ps, i - n) + crate::mock_impl::exact_n(
                ps[i - n],
            ));
        }
    }
    if n + m > 0 {
        if m > 0 {
            assert(e2.patterns[n + m - 1] == assigned_patterns(ps, e.total)[m - 1]);
        } else {
            assert(e2.patterns[n + m - 1] == e.patterns[n - 1]);
        }
        if n > 0 {
            assert(e2.patterns[0] == e.patterns[0]);
        } else {
            assert(e2.patterns[0] == assigned_patterns(ps, e.total)[0]);
            assert(sum_exact(ps, 0) == 0);
        }
    }
}

/// Every registry that assembly produces has, for each sequence-matched
/// function, call-index ranges that partition `[0, total)`.
pub proof fn lemma_assemble_all_partition(cs: Seq<EntryModel>)
    ensures
        assemble_all(cs) matches Ok(es) ==> forall|i: int|
            0 <= i < es.len() ==> ((#[trigger] es[i]).mode is InOrder ==> entry_ranges_partition(
                es[i],
            )),
    decreases cs.len(),
{
    if cs.len() > 0 {
        lemma_assemble_all_partition(cs.drop_last());
        if assemble_all(cs) is Ok {
            let es_prev = assemble_all(cs.drop_last())->Ok_0;
            let c = cs.last();
            let es = assemble_all(cs)->Ok_0;
            assert(clause_assemble(es_prev, c) == Ok::<
                Seq<EntryModel>,
                crate::mock_impl::AssembleErrorModel,
            >(es));
            match find_entry(es_prev, c.key) {
                Some(i) => {
                    assert(find_entry(es_prev, c.key) == Some(i));
                    assert(0 <= i < es_prev.len()) by {
                        crate::mock_impl::lemma_find_entry_in_bounds(es_prev, c.key);
                    }
                    assert(es_prev[i].mode == c.mode);
                    assert(es.len() == es_prev.len());
                    assert forall|t: int| 0 <= t < es.len() implies ((#[trigger] es[t]).mode
                        is InOrder ==> entry_ranges_partition(es[t])) by {
                        if t != i {
                            assert(es[t] == es_prev[t]);
                        } else if c.mode is InOrder {
                            let e0 = es_prev[i];
                            assert(entry_ranges_partition(e0));
                            lemma_partition_extend(e0, c.patterns, es[i]);
                        } else {
                            assert(es[t].mode == es_prev[t].mode);
                        }
                    }
                },
                None => {
                    assert(es.len() == es_prev.len() + 1);
                    assert forall|t: int| 0 <= t < es.len() implies ((#[trigger] es[t]).mode
                        is InOrder ==> entry_ranges_partition(es[t])) by {
                        if t < es_prev.len() {
                            assert(es[t] == es_prev[t]);
                        } else if c.mode is InOrder {
                            let empty_e = EntryModel {
                                patterns: Seq::<PatternModel>::empty(),
                                total: 0,
                                ..c
                            };
                            assert(entry_ranges_partition(empty_e));
                            assert(es[t].patterns =~= empty_e.patterns + assigned_patterns(
                                c.patterns,
                                0,
                            ));
                            lemma_partition_extend(empty_e, c.patterns, es[t]);
                        }
                    }
                },
            }
        }
    }
}

/// Under a partition, an earlier range ends no later than a later one
/// starts.
proof fn lemma_ranges_ordered(e: EntryModel, i: int, j: int)
    requires
        entry_ranges_partition(e),
        0 <= i < j < e.patterns.len(),
    ensures
        e.patterns[i].range_end <= e.patterns[j].range_start,
    decreases j - i,
{
    if j == i + 1 {
        assert(ranges_chained(e.patterns, i));
    } else {
        lemma_ranges_ordered(e, i, j - 1);
        assert(range_ok(e.patterns, j - 1));
        assert(ranges_chained(e.patterns, j - 1));
    }
}

proof fn lemma_ordinal_covered_upto(e: EntryModel, o: nat, n: int)
    requires
        entry_ranges_partition(e),
        0 < n <= e.patterns.len(),
        o < e.patterns[n - 1].range_end,
    ensures
        exists|i: int| 0 <= i < n && #[trigger] in_pattern_range(e.patterns[i], o),
    decreases n,
{
    if o >= e.patterns[n - 1].range_start {
        assert(in_pattern_range(e.patterns[n - 1], o));
    } else {
        assert(n > 1) by {
            if n == 1 {
                assert(e.patterns[0].range_start == 0);
            }
        }
        assert(ranges_chained(e.patterns, n - 2));
        lemma_ordinal_covered_upto(e, o, n - 1);
    }
}

proof fn lemma_sel_ordered_finds(ps: Seq<PatternModel>, o: nat, s: int)
    requires
        0 <= s,
        exists|i: int| s <= i < ps.len() && #[trigger] in_pattern_range(ps[i], o),
    ensures
        sel_ordered(ps, o, s) matches Some(i) && s <= i < ps.len() && in_pattern_range(ps[i], o),
    decreases ps.len() - s,
{
    let w = choose|i: int| s <= i < ps.len() && #[trigger] in_pattern_range(ps[i], o);
    assert(s < ps.len());
    if in_pattern_range(ps[s], o) {
    } else {
        assert(w > s);
        lemma_sel_ordered_finds(ps, o, s + 1);
    }
}

/// Under sequence matching, a call ordinal inside the timeline is routed to
/// the one pattern whose range contains it: routing finds a pattern, that
/// pattern's range contains the ordinal, and no other pattern's range does.
pub proof fn lemma_ordered_routing_unique(e: EntryModel, o: nat)
    requires
        entry_ranges_partition(e),
        o < e.total,
    ensures
        sel_ordered(e.patterns, o, 0) matches Some(i) && 0 <= i < e.patterns.len()
            && in_pattern_range(e.patterns[i], o) && forall|j: int|
            0 <= j < e.patterns.len() && j != i ==> !in_pattern_range(
                #[trigger] e.patterns[j],
                o,
            ),
{
    assert(e.patterns.len() > 0);
    lemma_ordinal_covered_upto(e, o, e.patterns.len() as int);
    lemma_sel_ordered_finds(e.patterns, o, 0);
    let i = sel_ordered(e.patterns, o, 0)->Some_0;
    assert forall|j: int| 0 <= j < e.patterns.len() && j != i implies !in_pattern_range(
        #[trigger] e.patterns[j],
        o,
    ) by {
        if in_pattern_range(e.patterns[j], o) {
            if j < i {
                lemma_ranges_ordered(e, j, i);
            } else {
                lemma_ranges_ordered(e, i, j);
            }
        }
    }
}

/// Under sequence matching, the call whose ordinal has reached the end of
/// the timeline fails out-of-range and changes nothing.
pub proof fn lemma_ordered_out_of_range(e: EntryModel, inputs: Seq<ValueModel>)
    requires
        e.mode is InOrder,
        e.ordinal >= e.total,
    ensures
        entry_dispatch_model(e, inputs) == (
            e,
            Err::<crate::responder::RespondOutcomeModel, MockErrorModel>(
                MockErrorModel::SequenceOutOfRange { name: e.name, ordinal: e.ordinal },
            ),
        ),
{
}


proof fn lemma_find_entry_push(es: Seq<EntryModel>, x: EntryModel, key: usize)
    ensures
        find_entry(es.push(x), key) == match find_entry(es, key) {
            Some(i) => Some(i),
            None => if x.key == key {
                Some(es.len() as int)
            } else {
                None::<int>
            },
        },
    decreases es.len(),
{
    if es.len() == 0 {
        assert(es.push(x)[0] == x);
        assert(es.push(x).skip(1) =~= Seq::<EntryModel>::empty());
    } else {
        assert(es.push(x).len() > 0);
        assert(es.push(x)[0] == es[0]);
        assert(es.push(x).skip(1) =~= es.skip(1).push(x));
        lemma_find_entry_push(es.skip(1), x, key);
        assert(find_entry(es.push(x).skip(1), key) == find_entry(es.skip(1).push(x), key));
        if es[0].key == key {
            assert(find_entry(es, key) == Some(0int));
            assert(find_entry(es.push(x), key) == Some(0int));
        } else {
            assert(es.skip(1).len() as int == es.len() - 1);
            assert(find_entry(es.push(x), key) == match find_entry(es.push(x).skip(1), key) {
                Some(i) => Some(i + 1),
                None => None::<int>,
            });
            assert(find_entry(es, key) == match find_entry(es.skip(1), key) {
                Some(i) => Some(i + 1),
                None => None::<int>,
            });
        }
    }
}

proof fn lemma_find_entry_update_same_key(es: Seq<EntryModel>, i: int, x: EntryModel, key: usize)
    requires
        0 <= i < es.len(),
        x.key == es[i].key,
    ensures
        find_entry(es.update(i, x), key) == find_entry(es, key),
    decreases es.len(),
{
    if i == 0 {
        assert(es.update(0, x)[0] == x);
        assert(es.update(0, x).skip(1) =~= es.skip(1));
    } else {
        assert(es.update(i, x)[0] == es[0]);
        assert(es.update(i, x).skip(1) =~= es.skip(1).update(i - 1, x));
        lemma_find_entry_update_same_key(es.skip(1), i - 1, x, key);
    }
}

/// Every declaration already assembled is found in the registry under its
/// key, with the match mode it declared.
pub open spec fn modes_recorded(cs: Seq<EntryModel>, es: Seq<EntryModel>) -> bool {
    forall|k: int|
        0 <= k < cs.len() ==> match find_entry(es, (#[trigger] cs[k]).key) {
            Some(i) => 0 <= i < es.len() && es[i].mode == cs[k].mode,
            None => false,
        }
}

/// A registry that assembly produces records, for every assembled
/// declaration, its function under its declared match mode.
pub proof fn lemma_assemble_records_modes(cs: Seq<EntryModel>)
    ensures
        assemble_all(cs) matches Ok(es) ==> modes_recorded(cs, es),
    decreases cs.len(),
{
    if cs.len() > 0 {
        lemma_assemble_records_modes(cs.drop_last());
        if assemble_all(cs) is Ok {
            let es_prev = assemble_all(cs.drop_last())->Ok_0;
            let c = cs.last();
            let es = assemble_all(cs)->Ok_0;
            assert(clause_assemble(es_prev, c) == Ok::<Seq<EntryModel>, AssembleErrorModel>(es));
            assert(modes_recorded(cs.drop_last(), es_prev));
            match find_entry(es_prev, c.key) {
                Some(i) => {
                    lemma_find_entry_in_bounds(es_prev, c.key);
                    assert(es_prev[i].mode == c.mode);
                    assert(es[i].key == es_prev[i].key && es[i].mode == es_prev[i].mode);
                    lemma_find_entry_update_same_key(es_prev, i, es[i], c.key);
                    assert forall|k: int| 0 <= k < cs.len() implies match find_entry(
                        es,
                        (#[trigger] cs[k]).key,
                    ) {
                        Some(t) => 0 <= t < es.len() && es[t].mode == cs[k].mode,
                        None => false,
                    } by {
                        lemma_find_entry_update_same_key(es_prev, i, es[i], cs[k].key);
                        if k < cs.len() - 1 {
                            assert(cs.drop_last()[k] == cs[k]);
                            lemma_find_entry_in_bounds(es_prev, cs[k].key);
                            let t = find_entry(es_prev, cs[k].key)->Some_0;
                            if t != i {
                                assert(es[t] == es_prev[t]);
                            }
                        } else {
                            lemma_find_entry_in_bounds(es_prev, c.key);
                        }
                    }
                },
                None => {
                    let x = es.last();
                    assert(es == es_prev.push(x));
                    assert(x.key == c.key && x.mode == c.mode);
                    assert forall|k: int| 0 <= k < cs.len() implies match find_entry(
                        es,
                        (#[trigger] cs[k]).key,
                    ) {
                        Some(t) => 0 <= t < es.len() && es[t].mode == cs[k].mode,
                        None => false,
                    } by {
                        lemma_find_entry_push(es_prev, x, cs[k].key);
                        if k < cs.len() - 1 {
                            assert(cs.drop_last()[k] == cs[k]);
                            lemma_find_entry_in_bounds(es_prev, cs[k].key);
                            let t = find_entry(es_prev, cs[k].key)->Some_0;
                            assert(es[t] == es_prev[t]);
                        } else {
                            assert(es[es_prev.len() as int] == x);
                        }
                    }
                },
            }
        }
    }
}

/// Every sequence-matched declaration carries exact quotas throughout, so
/// assembly cannot fail for a missing exact expectation.
pub open spec fn ordered_clauses_exact(cs: Seq<EntryModel>) -> bool {
    forall|k: int|
        0 <= k < cs.len() ==> ((#[trigger] cs[k]).mode is InOrder ==> all_exact(cs[k].patterns))
}

proof fn lemma_assemble_err_kind(cs: Seq<EntryModel>)
    requires
        ordered_clauses_exact(cs),
    ensures
        assemble_all(cs) matches Err(e) ==> e is IncompatiblePatternMatchMode,
    decreases cs.len(),
{
    if cs.len() > 0 {
        assert(ordered_clauses_exact(cs.drop_last())) by {
            assert forall|k: int| 0 <= k < cs.len() - 1 implies ((#[trigger] cs.drop_last()[
                k
            ]).mode is InOrder ==> all_exact(cs.drop_last()[k].patterns)) by {
                assert(cs.drop_last()[k] == cs[k]);
            }
        }
        lemma_assemble_err_kind(cs.drop_last());
        if assemble_all(cs) is Err && assemble_all(cs.drop_last()) is Ok {
            assert(cs.last() == cs[cs.len() - 1]);
        }
    }
}

/// Two declarations for the same function under different match modes are
/// rejected at assembly with an incompatible-match-mode failure, before any
/// evaluation is attempted. This holds provided no earlier failure pre-empts
/// it, which is what `ordered_clauses_exact` rules out.
pub proof fn lemma_incompatible_modes_rejected(cs: Seq<EntryModel>, a: int, b: int)
    requires
        0 <= a < b < cs.len(),
        cs[a].key == cs[b].key,
        cs[a].mode != cs[b].mode,
        ordered_clauses_exact(cs),
    ensures
        assemble_all(cs) matches Err(e) && e is IncompatiblePatternMatchMode,
{
    if assemble_all(cs.take(b + 1)) is Ok {
        let es_b = match assemble_all(cs.take(b)) {
            Ok(es) => es,
            Err(_) => {
                lemma_assemble_take_succ(cs, b);
                assert(false);
                Seq::<EntryModel>::empty()
            },
        };
        lemma_assemble_take_succ(cs, b);
        lemma_assemble_records_modes(cs.take(b));
        assert(cs.take(b)[a] == cs[a]);
        assert(find_entry(es_b, cs[a].key) matches Some(i) && es_b[i].mode == cs[a].mode);
        assert(clause_assemble(es_b, cs[b]) is Err);
        assert(false);
    }
    let e = assemble_all(cs.take(b + 1))->Err_0;
    lemma_assemble_err_propagates(cs, b + 1, e);
    lemma_assemble_err_kind(cs);
}


proof fn lemma_sel_unordered_hit(ps: Seq<PatternModel>, inputs: Seq<ValueModel>, s: int)
    ensures
        sel_unordered(ps, inputs, s) matches Some(i) ==> s <= i < ps.len() && matcher_accepts(
            ps[i].matcher,
            inputs,
        ) && !counter_exhausted(ps[i].counter),
    decreases ps.len() - s,
{
    if 0 <= s < ps.len() && !(matcher_accepts(ps[s].matcher, inputs) && !counter_exhausted(
        ps[s].counter,
    )) {
        lemma_sel_unordered_hit(ps, inputs, s + 1);
    }
}

proof fn lemma_unordered_reselect_from(
    ps: Seq<PatternModel>,
    ps2: Seq<PatternModel>,
    inputs: Seq<ValueModel>,
    i: int,
    s: int,
)
    requires
        0 <= s <= i < ps.len(),
        ps2 == ps.update(i, bump_pattern(ps[i])),
        sel_unordered(ps, inputs, s) == Some(i),
        !counter_exhausted(ps2[i].counter),
    ensures
        sel_unordered(ps2, inputs, s) == Some(i),
    decreases i - s,
{
    assert(ps2.len() == ps.len());
    assert(ps2[i].matcher == ps[i].matcher);
    if s == i {
        lemma_sel_unordered_hit(ps, inputs, s);
    } else {
        assert(!(matcher_accepts(ps[s].matcher, inputs) && !counter_exhausted(ps[s].counter)));
        assert(ps2[s] == ps[s]);
        lemma_unordered_reselect_from(ps, ps2, inputs, i, s + 1);
    }
}

/// After a call routed to pattern `i` whose quota the call did not use up,
/// the same input selects pattern `i` again: prior calls only ever move
/// unordered selection by exhausting an exact quota.
pub proof fn lemma_unordered_reselects_same_pattern(
    ps: Seq<PatternModel>,
    inputs: Seq<ValueModel>,
    i: int,
)
    requires
        sel_unordered(ps, inputs, 0) == Some(i),
        !counter_exhausted(bump_pattern(ps[i]).counter),
    ensures
        sel_unordered(ps.update(i, bump_pattern(ps[i])), inputs, 0) == Some(i),
{
    lemma_sel_unordered_hit(ps, inputs, 0);
    lemma_unordered_reselect_from(ps, ps.update(i, bump_pattern(ps[i])), inputs, i, 0);
}

} // verus!
