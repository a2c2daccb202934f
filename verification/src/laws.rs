//! Laws of the resolver: properties that hold of every input, proved once
//! and for all over the specification fold.

use vstd::prelude::*;
use crate::holding_structs::{SpecAttack, SpecAtkBonus, SpecSpellList};
use crate::records::{ResolveError, SpecHeader, SpecRecord, SpecRecordData};
use crate::records::ActionKind;
use crate::resolver::{
    al_get, al_has, al_idx, al_set, drain_attacks, find_list_id, lemma_al_idx, lemma_scan_snoc,
    spec_damage_term, spec_finalize, spec_init, spec_insert_rec, spec_resolve, spec_scan,
    spec_sort_recs, spec_step, sorted_by_order, SpecState,
};
use crate::holding_structs::spec_join_dmg;

verus! {

// ---------------------------------------------------------------------------
// The ancestor walk binds to the nearest enclosing spell list.
// ---------------------------------------------------------------------------

/// A spell binds to the nearest enclosing spell list: when the first
/// (nearest) ancestor is a known list id, the walk picks it, whatever
/// stands further out.
pub proof fn lemma_nearest_ancestor_wins(
    dict: Seq<(Seq<char>, SpecSpellList)>,
    ancestors: Seq<Seq<char>>,
)
    requires
        ancestors.len() > 0,
        al_has(dict, ancestors[0]),
    ensures
        find_list_id(dict, ancestors) == ancestors[0],
{
}

/// The ancestor walk yields the first ancestor, in nearest-first order,
/// that the spell list index knows.
pub proof fn lemma_ancestor_walk_finds_first(
    dict: Seq<(Seq<char>, SpecSpellList)>,
    ancestors: Seq<Seq<char>>,
    i: int,
)
    requires
        0 <= i < ancestors.len(),
        al_has(dict, ancestors[i]),
        forall|j: int| 0 <= j < i ==> !al_has(dict, #[trigger] ancestors[j]),
    ensures
        find_list_id(dict, ancestors) == ancestors[i],
    decreases i,
{
    if i > 0 {
        let rest = ancestors.drop_first();
        assert(forall|j: int| 0 <= j < rest.len() ==> #[trigger] rest[j] == ancestors[j + 1]);
        assert(forall|j: int| 0 <= j < i - 1 ==> !al_has(dict, #[trigger] rest[j]));
        lemma_ancestor_walk_finds_first(dict, rest, i - 1);
    }
}

// ---------------------------------------------------------------------------
// Removed records contribute nothing.
// ---------------------------------------------------------------------------

/// The subsequence of records not flagged removed, in order.
pub open spec fn active_records(recs: Seq<SpecRecord>) -> Seq<SpecRecord>
    decreases recs.len(),
{
    if recs.len() == 0 {
        recs
    } else {
        active_records(recs.drop_last()) + (if recs.last().removed {
            Seq::<SpecRecord>::empty()
        } else {
            seq![recs.last()]
        })
    }
}

/// One step of the scan on a removed record changes nothing.
pub proof fn lemma_removed_step_is_skipped(s: SpecState, r: SpecRecord)
    requires
        r.removed,
    ensures
        spec_step(s, r) == s,
{
}

/// Records flagged removed contribute nothing to the scan: scanning a
/// sequence gives the same state as scanning only its active records.
/// In particular a removed spell list never enters the index, so it cannot
/// serve as an ancestor for any spell.
pub proof fn lemma_removed_contribute_nothing(s: SpecState, recs: Seq<SpecRecord>)
    ensures
        spec_scan(s, recs) == spec_scan(s, active_records(recs)),
    decreases recs.len(),
{
    if recs.len() > 0 {
        let dl = recs.drop_last();
        let r = recs.last();
        lemma_removed_contribute_nothing(s, dl);
        assert(dl.push(r) =~= recs);
        lemma_scan_snoc(s, dl, r);
        if r.removed {
            assert(active_records(recs) =~= active_records(dl));
        } else {
            assert(active_records(recs) =~= active_records(dl).push(r));
            lemma_scan_snoc(s, active_records(dl), r);
        }
    }
}

/// The resolve ignores removed records: the model is built by scanning only
/// the active records of the sorted sequence.
pub proof fn lemma_resolve_ignores_removed(
    h: SpecHeader,
    recs: Seq<SpecRecord>,
    lookup: Seq<(Seq<char>, Seq<char>)>,
)
    requires
        h.name is Some,
        h.alignment is Some,
        h.xp is Some,
    ensures
        spec_resolve(h, recs, lookup) == Ok::<_, ResolveError>(
            spec_finalize(
                h,
                spec_scan(spec_init(), active_records(spec_sort_recs(recs))),
                lookup,
            ),
        ),
{
    lemma_removed_contribute_nothing(spec_init(), spec_sort_recs(recs));
}

// ---------------------------------------------------------------------------
// Association list updates touch one key only.
// ---------------------------------------------------------------------------

pub proof fn lemma_al_set_same<V>(m: Seq<(Seq<char>, V)>, k: Seq<char>, v: V)
    ensures
        al_has(al_set(m, k, v), k),
        al_get(al_set(m, k, v), k) == v,
    decreases m.len(),
{
    lemma_al_idx(m, k);
    if al_has(m, k) {
        let i = al_idx(m, k);
        let m2 = m.update(i, (k, v));
        lemma_al_idx(m2, k);
        let i2 = al_idx(m2, k);
        assert(m2[i].0 == k);
        if i2 < i {
            assert(m[i2] == m2[i2]);
        }
        assert(i2 == i);
    } else {
        let m2 = m.push((k, v));
        lemma_al_idx(m2, k);
        let i2 = al_idx(m2, k);
        assert(m2[m.len() as int].0 == k);
        assert(i2 <= m.len());
        if i2 < m.len() {
            assert(m[i2] == m2[i2]);
            assert(al_has(m, k));
        }
        assert(i2 == m.len());
    }
}

pub proof fn lemma_al_set_other<V>(m: Seq<(Seq<char>, V)>, k: Seq<char>, v: V, x: Seq<char>)
    requires
        x != k,
    ensures
        al_has(al_set(m, k, v), x) == al_has(m, x),
        al_has(m, x) ==> al_get(al_set(m, k, v), x) == al_get(m, x),
{
    lemma_al_idx(m, k);
    lemma_al_idx(m, x);
    let m2 = al_set(m, k, v);
    lemma_al_idx(m2, x);
    let ix = al_idx(m, x);
    let i2 = al_idx(m2, x);
    if al_has(m, k) {
        let ik = al_idx(m, k);
        // keys are unchanged by the update, since the updated slot keeps key k
        assert(forall|j: int| 0 <= j < m2.len() ==> (#[trigger] m2[j]).0 == m[j].0);
        if al_has(m, x) {
            assert(m2[ix].0 == x);
            if i2 < ix {
                assert(m[i2].0 == m2[i2].0);
            } else if i2 > ix {
                assert(m2[ix].0 != x);
            }
            assert(i2 == ix);
            assert(ix != ik);
            assert(m2[ix] == m[ix]);
        } else {
            if i2 < m2.len() {
                assert(m2[i2].0 == x);
                assert(m[i2].0 == x);
            }
        }
    } else {
        // a push: the old entries are unchanged, the new key differs from x
        assert(m2 =~= m.push((k, v)));
        if al_has(m, x) {
            assert(m2[ix] == m[ix]);
            assert(m2[ix].0 == x);
            if i2 < ix {
                assert(m[i2].0 == m2[i2].0);
            } else if i2 > ix {
                assert(m2[ix].0 != x);
            }
            assert(i2 == ix);
        } else {
            if i2 < m2.len() {
                assert(m2[i2].0 == x);
                if i2 < m.len() {
                    assert(m[i2].0 == x);
                } else {
                    assert(m2[i2].0 == k);
                }
            }
        }
    }
}

} // verus!

// How the attack index accumulates damage, and why orphans never surface.

verus! {

// ---------------------------------------------------------------------------
// Damage accumulation is commutative by id.
// ---------------------------------------------------------------------------

/// An active damage record contributing to attack id `x`.
pub open spec fn is_damage_for(r: SpecRecord, x: Seq<char>) -> bool {
    &&& !r.removed
    &&& r.data is Damage
    &&& r.parent_id == Some(x)
}

/// The formatted term an active damage record contributes.
pub open spec fn damage_term_of(r: SpecRecord) -> Seq<char>
    recommends
        r.data is Damage,
{
    spec_damage_term(r.data->Damage_calculation, r.data->Damage_bonus, r.data->Damage_damage_type)
}

/// The damage terms contributed to attack id `x`, in scan order.
pub open spec fn damage_terms(recs: Seq<SpecRecord>, x: Seq<char>) -> Seq<Seq<char>>
    decreases recs.len(),
{
    if recs.len() == 0 {
        Seq::empty()
    } else {
        damage_terms(recs.drop_last(), x) + (if is_damage_for(recs.last(), x) {
            seq![damage_term_of(recs.last())]
        } else {
            Seq::<Seq<char>>::empty()
        })
    }
}

/// Terms joined the way the attack's damage string is built: single spaces
/// between terms, no leading space.
pub open spec fn join_terms(ts: Seq<Seq<char>>) -> Seq<char>
    decreases ts.len(),
{
    if ts.len() == 0 {
        Seq::empty()
    } else {
        spec_join_dmg(join_terms(ts.drop_last()), ts.last())
    }
}

/// An active attack-typed action record carrying id `x`.
pub open spec fn is_attack_action_for(r: SpecRecord, x: Seq<char>) -> bool {
    &&& !r.removed
    &&& !r.inactive
    &&& r.data is Action
    &&& r.data->Action_kind == ActionKind::Attack
    &&& r.id == x
}

/// The name and bonus of the last active attack action with id `x`.
pub open spec fn last_attack_header(recs: Seq<SpecRecord>, x: Seq<char>) -> Option<
    (Seq<char>, int),
>
    decreases recs.len(),
{
    if recs.len() == 0 {
        None
    } else if is_attack_action_for(recs.last(), x) {
        Some((recs.last().name, recs.last().data->Action_attack_roll))
    } else {
        last_attack_header(recs.drop_last(), x)
    }
}

/// Damage accumulation is commutative by id.  After the scan, the attack
/// index holds an entry for id `x` exactly when some record contributed to
/// it; the entry's damage string joins every contributed term exactly once,
/// in scan order, no matter where the action record stands relative to its
/// damage records; and the entry's name and bonus come from the last active
/// attack action with that id, the name staying empty when there is none.
pub proof fn lemma_damage_accumulation(recs: Seq<SpecRecord>, x: Seq<char>)
    ensures
        ({
            let d = spec_scan(spec_init(), recs).attacks_dict;
            &&& al_has(d, x) == (damage_terms(recs, x).len() > 0 || last_attack_header(recs, x)
                is Some)
            &&& al_has(d, x) ==> al_get(d, x).damage == join_terms(damage_terms(recs, x))
            &&& al_has(d, x) ==> al_get(d, x).name == (match last_attack_header(recs, x) {
                Some(nb) => nb.0,
                None => Seq::<char>::empty(),
            })
        }),
    decreases recs.len(),
{
    if recs.len() == 0 {
        let d = spec_scan(spec_init(), recs).attacks_dict;
        lemma_al_idx(d, x);
    } else {
        let dl = recs.drop_last();
        let r = recs.last();
        lemma_damage_accumulation(dl, x);
        assert(dl.push(r) =~= recs);
        lemma_scan_snoc(spec_init(), dl, r);
        let st = spec_scan(spec_init(), dl);
        let st2 = spec_step(st, r);
        let ghost old_terms = damage_terms(dl, x);
        let ghost new_terms = damage_terms(recs, x);
        if is_damage_for(r, x) {
            assert(new_terms =~= old_terms.push(damage_term_of(r)));
            assert(new_terms.drop_last() =~= old_terms);
            assert(join_terms(new_terms) == spec_join_dmg(join_terms(old_terms), damage_term_of(r)));
            let term = damage_term_of(r);
            if al_has(st.attacks_dict, x) {
                lemma_al_set_same(
                    st.attacks_dict,
                    x,
                    SpecAttack {
                        damage: spec_join_dmg(al_get(st.attacks_dict, x).damage, term),
                        ..al_get(st.attacks_dict, x)
                    },
                );
            } else {
                lemma_al_set_same(
                    st.attacks_dict,
                    x,
                    SpecAttack { name: Seq::empty(), bonus: SpecAtkBonus::Bonus(0), damage: term },
                );
                assert(old_terms.len() == 0);
                assert(join_terms(old_terms) == Seq::<char>::empty());
            }
        } else if !r.removed && r.data is Damage {
            assert(new_terms =~= old_terms);
            match r.parent_id {
                Some(pid) => {
                    assert(pid != x);
                    if al_has(st.attacks_dict, pid) {
                        lemma_al_set_other(
                            st.attacks_dict,
                            pid,
                            SpecAttack {
                                damage: spec_join_dmg(
                                    al_get(st.attacks_dict, pid).damage,
                                    damage_term_of(r),
                                ),
                                ..al_get(st.attacks_dict, pid)
                            },
                            x,
                        );
                    } else {
                        lemma_al_set_other(
                            st.attacks_dict,
                            pid,
                            SpecAttack {
                                name: Seq::empty(),
                                bonus: SpecAtkBonus::Bonus(0),
                                damage: damage_term_of(r),
                            },
                            x,
                        );
                    }
                },
                None => {
                },
            }
        } else if is_attack_action_for(r, x) {
            assert(new_terms =~= old_terms);
            let dmg = if al_has(st.attacks_dict, x) {
                al_get(st.attacks_dict, x).damage
            } else {
                Seq::<char>::empty()
            };
            lemma_al_set_same(
                st.attacks_dict,
                x,
                SpecAttack {
                    name: r.name,
                    bonus: SpecAtkBonus::Bonus(r.data->Action_attack_roll),
                    damage: dmg,
                },
            );
            if !al_has(st.attacks_dict, x) {
                assert(old_terms.len() == 0);
                assert(join_terms(old_terms) == Seq::<char>::empty());
            }
        } else if !r.removed && !r.inactive && r.data is Action && r.data->Action_kind
            == ActionKind::Attack {
            // an active attack action for another id
            assert(new_terms =~= old_terms);
            assert(r.id != x);
            let dmg = if al_has(st.attacks_dict, r.id) {
                al_get(st.attacks_dict, r.id).damage
            } else {
                Seq::<char>::empty()
            };
            lemma_al_set_other(
                st.attacks_dict,
                r.id,
                SpecAttack {
                    name: r.name,
                    bonus: SpecAtkBonus::Bonus(r.data->Action_attack_roll),
                    damage: dmg,
                },
                x,
            );
        } else {
            // every other record leaves the attack index untouched
            assert(new_terms =~= old_terms);
            assert(st2.attacks_dict == st.attacks_dict);
        }
    }
}

// ---------------------------------------------------------------------------
// Orphan attacks never reach the final list.
// ---------------------------------------------------------------------------

/// Every attack the drain keeps has a non-empty name.
pub proof fn lemma_drain_keeps_named_only(d: Seq<(Seq<char>, SpecAttack)>)
    ensures
        forall|i: int|
            0 <= i < drain_attacks(d).len() ==> (#[trigger] drain_attacks(d)[i]).name.len() > 0,
    decreases d.len(),
{
    if d.len() > 0 {
        lemma_drain_keeps_named_only(d.drop_last());
    }
}

/// An attack whose only contributions are damage records never appears in
/// the final attack list: without an active attack action carrying its id
/// the index entry keeps an empty name, and the drain drops every entry
/// with an empty name.
pub proof fn lemma_orphan_attack_discarded(recs: Seq<SpecRecord>, x: Seq<char>)
    requires
        last_attack_header(recs, x) is None,
    ensures
        ({
            let d = spec_scan(spec_init(), recs).attacks_dict;
            &&& al_has(d, x) ==> al_get(d, x).name.len() == 0
            &&& forall|i: int|
                0 <= i < drain_attacks(d).len() ==> (#[trigger] drain_attacks(d)[i]).name.len() > 0
        }),
{
    lemma_damage_accumulation(recs, x);
    lemma_drain_keeps_named_only(spec_scan(spec_init(), recs).attacks_dict);
}

} // verus!

// Sorting before the scan is idempotent and insensitive to reordering.

verus! {

// ---------------------------------------------------------------------------
// The shape of one insertion step.
// ---------------------------------------------------------------------------

/// Where the stable insertion step puts a record: behind every record whose
/// order does not exceed its own.
pub open spec fn ins_pos(s: Seq<SpecRecord>, r: SpecRecord) -> int
    decreases s.len(),
{
    if s.len() == 0 {
        0
    } else if s.last().order <= r.order {
        s.len() as int
    } else {
        ins_pos(s.drop_last(), r)
    }
}

pub proof fn lemma_ins_pos(s: Seq<SpecRecord>, r: SpecRecord)
    ensures
        0 <= ins_pos(s, r) <= s.len(),
        forall|k: int| ins_pos(s, r) <= k < s.len() ==> (#[trigger] s[k]).order > r.order,
        ins_pos(s, r) > 0 ==> s[ins_pos(s, r) - 1].order <= r.order,
    decreases s.len(),
{
    if s.len() > 0 && s.last().order > r.order {
        lemma_ins_pos(s.drop_last(), r);
        assert forall|k: int| ins_pos(s, r) <= k < s.len() implies (#[trigger] s[k]).order
            > r.order by {
            if k < s.len() - 1 {
                assert(s.drop_last()[k] == s[k]);
                assert(s.drop_last()[k].order > r.order);
            }
        }
    }
}

pub proof fn lemma_insert_keeps_sorted(s: Seq<SpecRecord>, r: SpecRecord)
    requires
        sorted_by_order(s),
    ensures
        sorted_by_order(spec_insert_rec(s, r)),
{
    lemma_ins_pos(s, r);
    let p = ins_pos(s, r);
    crate::resolver::lemma_insert_rec_at(s, r, p);
    let t = s.take(p) + seq![r] + s.skip(p);
    assert forall|i: int, j: int| 0 <= i <= j < t.len() implies (#[trigger] t[i]).order <= (
    #[trigger] t[j]).order by {
        assert(forall|k: int| 0 <= k < p ==> #[trigger] t[k] == s[k]);
        assert(t[p] == r);
        assert(forall|k: int| p < k < t.len() ==> #[trigger] t[k] == s[k - 1]);
        if i < p && j == p {
            assert(s[p - 1].order <= r.order);
            assert(s[i].order <= s[p - 1].order);
        }
        if i == p && j > p {
            assert(s[j - 1].order > r.order);
        }
        if i < p && j > p {
            assert(s[i].order <= s[j - 1].order);
        }
    }
}

pub proof fn lemma_sort_is_sorted(recs: Seq<SpecRecord>)
    ensures
        sorted_by_order(spec_sort_recs(recs)),
    decreases recs.len(),
{
    if recs.len() > 0 {
        lemma_sort_is_sorted(recs.drop_last());
        lemma_insert_keeps_sorted(spec_sort_recs(recs.drop_last()), recs.last());
    }
}

/// Sorting a sequence that is already sorted by order leaves it unchanged.
pub proof fn lemma_sort_of_sorted(recs: Seq<SpecRecord>)
    requires
        sorted_by_order(recs),
    ensures
        spec_sort_recs(recs) == recs,
    decreases recs.len(),
{
    if recs.len() > 0 {
        let dl = recs.drop_last();
        assert(forall|k: int| 0 <= k < dl.len() ==> #[trigger] dl[k] == recs[k]);
        lemma_sort_of_sorted(dl);
        if dl.len() == 0 {
            assert(spec_insert_rec(dl, recs.last()) =~= recs);
        } else {
            assert(dl.last().order <= recs.last().order);
            assert(spec_insert_rec(dl, recs.last()) =~= recs);
        }
    }
}

/// Sorting before the scan is idempotent: a sequence and its order-sorted
/// form resolve to the identical character sheet model.
pub proof fn lemma_resolve_after_sorting(
    h: SpecHeader,
    recs: Seq<SpecRecord>,
    lookup: Seq<(Seq<char>, Seq<char>)>,
)
    ensures
        spec_resolve(h, spec_sort_recs(recs), lookup) == spec_resolve(h, recs, lookup),
{
    lemma_sort_is_sorted(recs);
    lemma_sort_of_sorted(spec_sort_recs(recs));
}

// ---------------------------------------------------------------------------
// Resolving is insensitive to reordering when the order values are distinct.
// ---------------------------------------------------------------------------

/// No two records share an order value.
pub open spec fn distinct_orders(s: Seq<SpecRecord>) -> bool {
    forall|i: int, j: int|
        0 <= i < j < s.len() ==> (#[trigger] s[i]).order != (#[trigger] s[j]).order
}

pub proof fn lemma_insert_multiset(s: Seq<SpecRecord>, r: SpecRecord)
    ensures
        spec_insert_rec(s, r).to_multiset() == s.to_multiset().insert(r),
    decreases s.len(),
{
    broadcast use vstd::seq_lib::group_to_multiset_ensures;
    broadcast use vstd::multiset::group_multiset_axioms;

    if s.len() == 0 {
        assert(seq![r] =~= Seq::<SpecRecord>::empty().push(r));
        assert(spec_insert_rec(s, r).to_multiset() =~= s.to_multiset().insert(r));
    } else if s.last().order <= r.order {
    } else {
        let dl = s.drop_last();
        lemma_insert_multiset(dl, r);
        assert(spec_insert_rec(s, r) == spec_insert_rec(dl, r).push(s.last()));
        assert(dl.push(s.last()) =~= s);
        assert(spec_insert_rec(s, r).to_multiset() =~= dl.to_multiset().insert(r).insert(
            s.last(),
        ));
        assert(dl.to_multiset().insert(r).insert(s.last()) =~= dl.to_multiset().insert(
            s.last(),
        ).insert(r));
    }
}

pub proof fn lemma_sort_multiset(recs: Seq<SpecRecord>)
    ensures
        spec_sort_recs(recs).to_multiset() == recs.to_multiset(),
    decreases recs.len(),
{
    broadcast use vstd::seq_lib::group_to_multiset_ensures;

    if recs.len() > 0 {
        let dl = recs.drop_last();
        lemma_sort_multiset(dl);
        lemma_insert_multiset(spec_sort_recs(dl), recs.last());
        assert(dl.push(recs.last()) =~= recs);
    }
}

/// Two sequences sorted by order, holding the same records, are equal when
/// no two records share an order value.
pub proof fn lemma_sorted_unique_by_order(s1: Seq<SpecRecord>, s2: Seq<SpecRecord>)
    requires
        sorted_by_order(s1),
        sorted_by_order(s2),
        distinct_orders(s1),
        s1.to_multiset() == s2.to_multiset(),
    ensures
        s1 == s2,
    decreases s1.len(),
{
    broadcast use vstd::seq_lib::group_to_multiset_ensures;
    broadcast use vstd::multiset::group_multiset_axioms;

    if s1.len() == 0 || s2.len() == 0 {
        assert(s1.to_multiset().len() == s1.len());
        assert(s2.to_multiset().len() == s2.len());
        assert(s1 =~= s2);
    } else {
        assert(s2.to_multiset().contains(s2[0]));
        assert(s1.to_multiset().contains(s2[0]));
        assert(s1.contains(s2[0]));
        let i = choose|i: int| 0 <= i < s1.len() && s1[i] == s2[0];
        assert(s1.to_multiset().contains(s1[0]));
        assert(s2.to_multiset().contains(s1[0]));
        assert(s2.contains(s1[0]));
        let j = choose|j: int| 0 <= j < s2.len() && s2[j] == s1[0];
        assert(s1[0].order <= s1[i].order);
        assert(s2[0].order <= s2[j].order);
        assert(s1[0].order == s2[0].order);
        assert(i == 0) by {
            if i > 0 {
                assert(s1[0].order != s1[i].order);
            }
        }
        assert(s1[0] == s2[0]);
        let t1 = s1.drop_first();
        let t2 = s2.drop_first();
        assert(t1 =~= s1.remove(0));
        assert(s1.remove(0).to_multiset() == s1.to_multiset().remove(s1[0]));
        assert(t2 =~= s2.remove(0));
        assert(s2.remove(0).to_multiset() == s2.to_multiset().remove(s2[0]));
        assert(forall|k: int| 0 <= k < t1.len() ==> #[trigger] t1[k] == s1[k + 1]);
        assert(forall|k: int| 0 <= k < t2.len() ==> #[trigger] t2[k] == s2[k + 1]);
        lemma_sorted_unique_by_order(t1, t2);
        assert(s1 =~= seq![s1[0]] + t1);
        assert(s2 =~= seq![s2[0]] + t2);
    }
}

/// Resolving is insensitive to the arrival order of the records: an
/// already-sorted sequence and any reordering of the same records, with all
/// order values distinct, resolve to the identical character sheet model.
pub proof fn lemma_resolve_permutation_invariant(
    h: SpecHeader,
    recs1: Seq<SpecRecord>,
    recs2: Seq<SpecRecord>,
    lookup: Seq<(Seq<char>, Seq<char>)>,
)
    requires
        sorted_by_order(recs1),
        distinct_orders(recs1),
        recs1.to_multiset() == recs2.to_multiset(),
    ensures
        spec_resolve(h, recs1, lookup) == spec_resolve(h, recs2, lookup),
{
    lemma_sort_of_sorted(recs1);
    lemma_sort_is_sorted(recs2);
    lemma_sort_multiset(recs2);
    lemma_sorted_unique_by_order(recs1, spec_sort_recs(recs2));
}

} // verus!
