//! Properties of the library that span its operations: what the anaphora memory keeps,
//! how runtime verbs and ordinals behave, how names are chosen, and how targets and escapes
//! are read, and what a template test plan holds; and the English the library writes:
//! verb agreement, pronouns, articles and ordinal words.
use vstd::prelude::*;
use crate::context::{drop_if, evicted, first_unpinned, lemma_evicted, touched};
use crate::engine::{display_choice, held_ordinal, member_keys, named_alike, ordinal_assignment, ordinal_names, unresolved_among};
use crate::permutations::{
    index_cases, permutation_plan, stance_cases, subset_table, table_product, tense_cases, viewer_cases, MAX_COMBINATIONS,
};
use crate::models::{current_ordinal_of, latest_ordinal, member_ordinal, record_ordinal};
use crate::grammar::{
    article_resolution, conjugation, form_for, formatted_verb, is_modal, ordinal_suffix, ordinal_word, pronoun_case, pronoun_forms,
    static_irregular, ArticleFlags,
};
use crate::models::Gender;
use crate::resolve::{is_pronoun, pronoun_fits, pronoun_targets};
use crate::context::entity_for;
use crate::text::{eq_ignore_ascii_case, find, lemma_find_bounds};
use crate::text::char_lowercase;
use crate::models::{name_spec, recent_keys, ActorStance, RecentModel, Tense, TemplateEntity};
use crate::parser::unescaped;
use crate::resolve::{certain_only, has_entity, target_matches, unique_models};
use crate::models::RenderContext;
use crate::template_keys::with_new_keys;
use crate::template::{compiled, indexed_model, scan_end, scan_from, scan_step, text_of, FrameModel, Step, TplModel};
use crate::text::{decimal, first_index, lemma_first_index, lemma_first_index_valid};

verus! {

// ---------------------------------------------------------------------------
// Anaphora memory
// ---------------------------------------------------------------------------

/// An entity pinned in the anaphora memory is still remembered after any entity is
/// mentioned and the memory limit is enforced.
pub proof fn lemma_pinned_entity_is_kept(
    limit: nat,
    rs: Seq<RecentModel>,
    key: Seq<char>,
    e: TemplateEntity,
    viewer: Seq<char>,
    pin: bool,
    last: Option<Seq<char>>,
    active: Option<Seq<char>>,
    pinned_key: Seq<char>,
)
    requires
        exists|j: int| 0 <= j < rs.len() && (#[trigger] rs[j]).key == pinned_key && rs[j].flags.is_pinned,
    ensures
        recent_keys(evicted(limit, touched(rs, key, e, viewer, pin), last, active).0).contains(pinned_key),
{
    let j = choose|j: int| 0 <= j < rs.len() && (#[trigger] rs[j]).key == pinned_key && rs[j].flags.is_pinned;
    let t = touched(rs, key, e, viewer, pin);
    let q: int = match first_index(recent_keys(rs), key) {
        Some(i) => {
            lemma_first_index_valid(recent_keys(rs), key);
            assert(recent_keys(rs)[i] == rs[i].key);
            if i == j {
                t.len() - 1
            } else if j < i {
                j
            } else {
                j - 1
            }
        },
        None => j,
    };
    assert(0 <= q < t.len() && t[q].key == pinned_key && t[q].flags.is_pinned);
    lemma_evicted(limit, t, last, active);
    let out = evicted(limit, t, last, active).0;
    assert(out.contains(t[q]));
    let p = choose|p: int| 0 <= p < out.len() && out[p] == t[q];
    assert(recent_keys(out)[p] == pinned_key);
}

/// The number of unpinned entries.
pub open spec fn unpinned_count(rs: Seq<RecentModel>) -> nat
    decreases rs.len(),
{
    if rs.len() == 0 {
        0
    } else {
        (if rs[0].flags.is_pinned { 0nat } else { 1nat }) + unpinned_count(rs.drop_first())
    }
}

/// The entries left when the `k` oldest unpinned entries are removed, in their order.
pub open spec fn without_oldest_unpinned(rs: Seq<RecentModel>, k: nat) -> Seq<RecentModel>
    decreases rs.len(),
{
    if rs.len() == 0 {
        rs
    } else if k > 0 && !rs[0].flags.is_pinned {
        without_oldest_unpinned(rs.drop_first(), (k - 1) as nat)
    } else {
        seq![rs[0]] + without_oldest_unpinned(rs.drop_first(), k)
    }
}

/// The keys of the `k` oldest unpinned entries, oldest first.
pub open spec fn oldest_unpinned_keys(rs: Seq<RecentModel>, k: nat) -> Seq<Seq<char>>
    decreases rs.len(),
{
    if rs.len() == 0 {
        Seq::<Seq<char>>::empty()
    } else if k > 0 && !rs[0].flags.is_pinned {
        seq![rs[0].key] + oldest_unpinned_keys(rs.drop_first(), (k - 1) as nat)
    } else {
        oldest_unpinned_keys(rs.drop_first(), k)
    }
}

/// A key slot that forgets its key when the key is among `keys`.
pub open spec fn forget_any(slot: Option<Seq<char>>, keys: Seq<Seq<char>>) -> Option<Seq<char>> {
    match slot {
        Some(x) => if keys.contains(x) { None } else { slot },
        None => None,
    }
}

/// How many entries enforcing `limit` evicts: the excess over the limit, but no more
/// than there are unpinned entries.
pub open spec fn eviction_count(limit: nat, rs: Seq<RecentModel>) -> nat {
    let excess: nat = if rs.len() > limit { (rs.len() - limit) as nat } else { 0 };
    if excess <= unpinned_count(rs) { excess } else { unpinned_count(rs) }
}

proof fn lemma_remove_first_unpinned(rs: Seq<RecentModel>, k: nat)
    requires
        first_unpinned(rs) is Some,
    ensures
        0 <= first_unpinned(rs)->0 < rs.len(),
        k > 0 ==> without_oldest_unpinned(rs, k) == without_oldest_unpinned(rs.remove(first_unpinned(rs)->0), (k - 1) as nat),
        k > 0 ==> oldest_unpinned_keys(rs, k) == seq![rs[first_unpinned(rs)->0].key] + oldest_unpinned_keys(rs.remove(first_unpinned(rs)->0), (k - 1) as nat),
        unpinned_count(rs) == unpinned_count(rs.remove(first_unpinned(rs)->0)) + 1,
    decreases rs.len(),
{
    let p = first_unpinned(rs)->0;
    if rs[0].flags.is_pinned {
        let t = rs.drop_first();
        lemma_remove_first_unpinned(t, k);
        let r2 = rs.remove(p);
        assert(p == first_unpinned(t)->0 + 1);
        assert(r2.drop_first() =~= t.remove(p - 1));
        assert(r2[0] == rs[0]);
        assert(rs[p] == t[p - 1]);
    } else {
        assert(p == 0);
        assert(rs.remove(0) =~= rs.drop_first());
    }
}

proof fn lemma_nothing_removed(rs: Seq<RecentModel>, k: nat)
    requires
        k == 0 || first_unpinned(rs) is None,
    ensures
        without_oldest_unpinned(rs, k) == rs,
        oldest_unpinned_keys(rs, k) == Seq::<Seq<char>>::empty(),
        first_unpinned(rs) is None ==> unpinned_count(rs) == 0,
    decreases rs.len(),
{
    if rs.len() > 0 {
        lemma_nothing_removed(rs.drop_first(), k);
        assert(seq![rs[0]] + rs.drop_first() =~= rs);
    }
}

proof fn lemma_forget_step(slot: Option<Seq<char>>, key: Seq<char>, keys: Seq<Seq<char>>)
    ensures
        forget_any(drop_if(slot, key), keys) == forget_any(slot, seq![key] + keys),
{
    let all = seq![key] + keys;
    assert(all[0] == key);
    match slot {
        Some(x) => {
            if x != key {
                if all.contains(x) {
                    let i = choose|i: int| 0 <= i < all.len() && all[i] == x;
                    assert(keys[i - 1] == x);
                }
                if keys.contains(x) {
                    let i = choose|i: int| 0 <= i < keys.len() && keys[i] == x;
                    assert(all[i + 1] == x);
                }
            }
        },
        None => {},
    }
}

/// Enforcing a memory limit (a nonzero one; zero leaves everything as it was) removes
/// exactly the oldest unpinned entries, as many as the memory exceeds the limit by or as
/// there are unpinned entries, whichever is fewer; every other entry stays, in its order,
/// and the last-mentioned and active-subject slots forget a key exactly when an entry
/// under it was removed.
pub proof fn lemma_eviction_closed_form(limit: nat, rs: Seq<RecentModel>, last: Option<Seq<char>>, active: Option<Seq<char>>)
    ensures
        limit == 0 ==> evicted(limit, rs, last, active) == (rs, last, active),
        limit > 0 ==> evicted(limit, rs, last, active) == (
            without_oldest_unpinned(rs, eviction_count(limit, rs)),
            forget_any(last, oldest_unpinned_keys(rs, eviction_count(limit, rs))),
            forget_any(active, oldest_unpinned_keys(rs, eviction_count(limit, rs))),
        ),
    decreases rs.len(),
{
    if limit == 0 || rs.len() <= limit {
        lemma_nothing_removed(rs, 0);
        assert(forget_any(last, Seq::<Seq<char>>::empty()) == last);
        assert(forget_any(active, Seq::<Seq<char>>::empty()) == active);
    } else {
        match first_unpinned(rs) {
            Some(p) => {
                let k = eviction_count(limit, rs);
                lemma_remove_first_unpinned(rs, k);
                let r2 = rs.remove(p);
                assert(eviction_count(limit, r2) == k - 1);
                lemma_eviction_closed_form(limit, r2, drop_if(last, rs[p].key), drop_if(active, rs[p].key));
                let ks2 = oldest_unpinned_keys(r2, (k - 1) as nat);
                lemma_forget_step(last, rs[p].key, ks2);
                lemma_forget_step(active, rs[p].key, ks2);
            },
            None => {
                lemma_nothing_removed(rs, eviction_count(limit, rs));
                assert(forget_any(last, Seq::<Seq<char>>::empty()) == last);
                assert(forget_any(active, Seq::<Seq<char>>::empty()) == active);
            },
        }
    }
}

proof fn lemma_member_found(ms: Seq<(Seq<char>, usize)>, key: Seq<char>, j: int)
    requires
        0 <= j < ms.len(),
        ms[j].0 == key,
    ensures
        member_ordinal(ms, key) is Some,
    decreases ms.len(),
{
    if ms[0].0 != key {
        lemma_member_found(ms.drop_first(), key, j - 1);
    }
}

proof fn lemma_record_found(m: Seq<(Seq<char>, usize, Seq<(Seq<char>, usize)>)>, key: Seq<char>, i: int)
    requires
        0 <= i < m.len(),
        member_ordinal(m[i].2, key) is Some,
    ensures
        record_ordinal(m, key) is Some,
    decreases m.len(),
{
    if member_ordinal(m[0].2, key) is None {
        lemma_record_found(m.drop_first(), key, i - 1);
    }
}

/// After an entity is given its ordinal under a name (and the assignment is recorded in
/// the history), its current ordinal is the one it now holds: the ordinal given, or 1 when
/// its name's record restarted with it.
pub proof fn lemma_current_ordinal_is_latest(
    ms: Seq<(Seq<char>, usize, Seq<(Seq<char>, usize)>)>,
    h: Seq<(Seq<char>, usize)>,
    name: Seq<char>,
    key: Seq<char>,
    collision: bool,
)
    ensures
        current_ordinal_of(
            ordinal_assignment(ms, name, key, collision).0,
            h.push((key, held_ordinal(ordinal_assignment(ms, name, key, collision).1))),
            key,
        ) == Some(held_ordinal(ordinal_assignment(ms, name, key, collision).1)),
{
    let held = held_ordinal(ordinal_assignment(ms, name, key, collision).1);
    let h2 = h.push((key, held));
    assert(h2.last() == (key, held));
    assert(latest_ordinal(h2, key) == Some(held));
    let ms1 = match first_index(ordinal_names(ms), name) {
        Some(_) => ms,
        None => ms.push((name, 1usize, seq![])),
    };
    lemma_first_index_valid(ordinal_names(ms), name);
    if first_index(ordinal_names(ms), name) is None {
        assert(ordinal_names(ms1) =~= ordinal_names(ms).push(name));
        lemma_first_index(ordinal_names(ms1), name, ms.len() as int);
    }
    lemma_first_index_valid(ordinal_names(ms1), name);
    let i = first_index(ordinal_names(ms1), name)->0;
    let st = ms1[i];
    let m2 = ordinal_assignment(ms, name, key, collision).0;
    if collision {
        lemma_first_index_valid(member_keys(st.2), key);
        match first_index(member_keys(st.2), key) {
            Some(j) => {
                assert(member_keys(st.2)[j] == st.2[j].0);
                lemma_member_found(m2[i].2, key, j);
            },
            None => {
                let ms2 = st.2.push((key, st.1));
                assert(m2[i].2 == ms2);
                lemma_member_found(ms2, key, st.2.len() as int);
            },
        }
    } else {
        assert(m2[i].2 == seq![(key, 1usize)]);
        lemma_member_found(seq![(key, 1usize)], key, 0);
    }
    lemma_record_found(m2, key, i);
}

// ---------------------------------------------------------------------------
// Runtime irregular verbs
// ---------------------------------------------------------------------------

/// A verb in the runtime dictionary is conjugated with its dictionary forms for a
/// third-person singular subject in the present and past tenses, whatever the built-in
/// table says ("be" and the auxiliary "do(aux)" keep their own rules).
pub proof fn lemma_runtime_verb_takes_precedence(
    custom: Map<Seq<char>, (Seq<char>, Seq<char>)>,
    base: Seq<char>,
    present: Seq<char>,
    past: Seq<char>,
    written: Seq<char>,
    cap: bool,
    stance: ActorStance,
    tense: Tense,
)
    requires
        tense != Tense::Future,
        base != "be"@,
        base != "do(aux)"@,
    ensures
        conjugation(written, base, cap, false, false, stance, tense, custom.insert(base, (present, past)))
            == formatted_verb(form_for((present, past), tense), cap),
{
}

// ---------------------------------------------------------------------------
// Ordinals
// ---------------------------------------------------------------------------

/// While its name collides, an entity mentioned again keeps the ordinal it was given, and
/// the ordinal records do not change.
pub proof fn lemma_ordinal_is_kept(ms: Seq<(Seq<char>, usize, Seq<(Seq<char>, usize)>)>, name: Seq<char>, key: Seq<char>)
    ensures
        ordinal_assignment(ms, name, key, true).1 is Some,
        ordinal_assignment(ordinal_assignment(ms, name, key, true).0, name, key, true)
            == ordinal_assignment(ms, name, key, true),
{
    let ms1 = match first_index(ordinal_names(ms), name) {
        Some(_) => ms,
        None => ms.push((name, 1usize, seq![])),
    };
    lemma_first_index_valid(ordinal_names(ms), name);
    if first_index(ordinal_names(ms), name) is None {
        assert(ordinal_names(ms1) =~= ordinal_names(ms).push(name));
        lemma_first_index(ordinal_names(ms1), name, ms.len() as int);
    }
    lemma_first_index_valid(ordinal_names(ms1), name);
    let i = first_index(ordinal_names(ms1), name)->0;
    assert(ordinal_names(ms1)[i] == ms1[i].0);
    let st = ms1[i];
    lemma_first_index_valid(member_keys(st.2), key);
    match first_index(member_keys(st.2), key) {
        Some(j) => {
            assert(first_index(ordinal_names(ms1), name) is Some);
        },
        None => {
            let st2 = (st.0, (st.1 + 1) as usize, st.2.push((key, st.1)));
            let ms2 = ms1.update(i, st2);
            assert(ordinal_names(ms2) =~= ordinal_names(ms1));
            assert(first_index(ordinal_names(ms2), name) == Some(i));
            assert(member_keys(st2.2) =~= member_keys(st.2).push(key));
            lemma_first_index(member_keys(st2.2), key, st.2.len() as int);
            assert(ms2.update(i, ms2[i]) =~= ms2);
        },
    }
}

/// The ordinal records are consistent: within a record, member keys differ, their
/// ordinals differ, and every ordinal is positive and below the record's next ordinal.
pub open spec fn ordinal_records_consistent(ms: Seq<(Seq<char>, usize, Seq<(Seq<char>, usize)>)>) -> bool {
    forall|r: int| 0 <= r < ms.len() ==> {
        let st = #[trigger] ms[r];
        &&& 1 <= st.1
        &&& forall|j: int| 0 <= j < st.2.len() ==> 1 <= (#[trigger] st.2[j]).1 < st.1
        &&& forall|j: int, k: int| 0 <= j < st.2.len() && 0 <= k < st.2.len() && j != k
            ==> (#[trigger] st.2[j]).1 != (#[trigger] st.2[k]).1 && st.2[j].0 != st.2[k].0
    }
}

/// Entities that share a name get different ordinals: assigning an ordinal keeps the
/// records consistent (see `ordinal_records_consistent`), while no counter can overflow.
pub proof fn lemma_ordinal_records_stay_consistent(
    ms: Seq<(Seq<char>, usize, Seq<(Seq<char>, usize)>)>,
    name: Seq<char>,
    key: Seq<char>,
    collision: bool,
)
    requires
        ordinal_records_consistent(ms),
        forall|r: int| 0 <= r < ms.len() ==> (#[trigger] ms[r]).1 < usize::MAX,
    ensures
        ordinal_records_consistent(ordinal_assignment(ms, name, key, collision).0),
{
    let ms1 = match first_index(ordinal_names(ms), name) {
        Some(_) => ms,
        None => ms.push((name, 1usize, seq![])),
    };
    lemma_first_index_valid(ordinal_names(ms), name);
    if first_index(ordinal_names(ms), name) is None {
        assert(ordinal_names(ms1) =~= ordinal_names(ms).push(name));
        lemma_first_index(ordinal_names(ms1), name, ms.len() as int);
    }
    assert(ordinal_records_consistent(ms1)) by {
        assert forall|r: int| 0 <= r < ms1.len() implies #[trigger] ms1[r].1 < usize::MAX by {
            if r < ms.len() {
                assert(ms1[r] == ms[r]);
            }
        }
        if first_index(ordinal_names(ms), name) is None {
            assert forall|r: int| 0 <= r < ms1.len() implies {
                let st = #[trigger] ms1[r];
                &&& 1 <= st.1
                &&& forall|j: int| 0 <= j < st.2.len() ==> 1 <= (#[trigger] st.2[j]).1 < st.1
                &&& forall|j: int, k: int| 0 <= j < st.2.len() && 0 <= k < st.2.len() && j != k
                    ==> (#[trigger] st.2[j]).1 != (#[trigger] st.2[k]).1 && st.2[j].0 != st.2[k].0
            } by {
                if r < ms.len() {
                    assert(ms1[r] == ms[r]);
                }
            }
        }
    }
    lemma_first_index_valid(ordinal_names(ms1), name);
    let i = first_index(ordinal_names(ms1), name)->0;
    assert(ordinal_names(ms1)[i] == ms1[i].0);
    let st = ms1[i];
    assert(st.1 < usize::MAX) by {
        if i < ms.len() {
            assert(ms1[i] == ms[i]);
        }
    }
    if collision {
        lemma_first_index_valid(member_keys(st.2), key);
        match first_index(member_keys(st.2), key) {
            Some(j) => {},
            None => {
                let st2 = (st.0, (st.1 + 1) as usize, st.2.push((key, st.1)));
                let ms2 = ms1.update(i, st2);
                assert(st2.1 == st.1 + 1);
                assert(1 <= st.1);
                assert forall|j: int| 0 <= j < st.2.len() implies (#[trigger] st.2[j]).0 != key by {
                    assert(member_keys(st.2)[j] == st.2[j].0);
                }
                assert forall|r: int| 0 <= r < ms2.len() implies {
                    let s = #[trigger] ms2[r];
                    &&& 1 <= s.1
                    &&& forall|j: int| 0 <= j < s.2.len() ==> 1 <= (#[trigger] s.2[j]).1 < s.1
                    &&& forall|j: int, k: int| 0 <= j < s.2.len() && 0 <= k < s.2.len() && j != k
                        ==> (#[trigger] s.2[j]).1 != (#[trigger] s.2[k]).1 && s.2[j].0 != s.2[k].0
                } by {
                    if r != i {
                        assert(ms2[r] == ms1[r]);
                    } else {
                        assert(ms2[r] == st2);
                        assert forall|j: int| 0 <= j < st2.2.len() implies 1 <= (#[trigger] st2.2[j]).1 < st2.1 by {
                            if j < st.2.len() {
                                assert(st2.2[j] == st.2[j]);
                            }
                        }
                        assert forall|j: int, k: int| 0 <= j < st2.2.len() && 0 <= k < st2.2.len() && j != k
                            implies (#[trigger] st2.2[j]).1 != (#[trigger] st2.2[k]).1 && st2.2[j].0 != st2.2[k].0 by {
                            if j < st.2.len() && k < st.2.len() {
                                assert(st2.2[j] == st.2[j] && st2.2[k] == st.2[k]);
                            } else if j < st.2.len() {
                                assert(st2.2[j] == st.2[j]);
                            } else {
                                assert(st2.2[k] == st.2[k]);
                            }
                        }
                    }
                }
            },
        }
    } else {
        let st2 = (st.0, 2usize, seq![(key, 1usize)]);
        let ms2 = ms1.update(i, st2);
        assert forall|r: int| 0 <= r < ms2.len() implies {
            let s = #[trigger] ms2[r];
            &&& 1 <= s.1
            &&& forall|j: int| 0 <= j < s.2.len() ==> 1 <= (#[trigger] s.2[j]).1 < s.1
            &&& forall|j: int, k: int| 0 <= j < s.2.len() && 0 <= k < s.2.len() && j != k
                ==> (#[trigger] s.2[j]).1 != (#[trigger] s.2[k]).1 && s.2[j].0 != s.2[k].0
        } by {
            if r != i {
                assert(ms2[r] == ms1[r]);
            }
        }
    }
}

/// Ordinal words give way to digits above the threshold, so a threshold of 0 always
/// writes the number in digits with its ordinal suffix ("1st", "22nd").
pub proof fn lemma_zero_threshold_uses_digits(n: nat)
    requires
        n > 0,
    ensures
        ordinal_word(n, 0) == decimal(n) + ordinal_suffix(n),
{
}

// ---------------------------------------------------------------------------
// Names
// ---------------------------------------------------------------------------

/// No colliders remain among candidates that do not share the name.
proof fn lemma_no_unresolved(cands: Seq<(Seq<char>, TemplateEntity)>, prefix: Seq<(Seq<char>, TemplateEntity)>, key: Seq<char>, viewer: Seq<char>, name: Seq<char>)
    requires
        forall|i: int| 0 <= i < prefix.len() ==> !((#[trigger] prefix[i]).0 != key && name_spec(prefix[i].1, viewer) == name),
    ensures
        unresolved_among(cands, prefix, key, viewer, name).len() == 0,
    decreases prefix.len(),
{
    if prefix.len() > 0 {
        assert forall|i: int| 0 <= i < prefix.drop_last().len() implies !((#[trigger] prefix.drop_last()[i]).0 != key && name_spec(prefix.drop_last()[i].1, viewer) == name) by {
            assert(prefix.drop_last()[i] == prefix[i]);
        }
        lemma_no_unresolved(cands, prefix.drop_last(), key, viewer, name);
        assert(prefix.last() == prefix[prefix.len() - 1]);
    }
}

/// An entity whose name no other entity in the memory or still to come shares is called by
/// its own name, with no collision (and so, by `ordinal_assignment`, with no ordinal).
pub proof fn lemma_unique_name_is_kept(cands: Seq<(Seq<char>, TemplateEntity)>, e: TemplateEntity, key: Seq<char>, viewer: Seq<char>, limit: nat)
    requires
        named_alike(cands, key, viewer, name_spec(e, viewer)).len() == 0,
    ensures
        display_choice(cands, e, key, viewer, limit) == (name_spec(e, viewer), false),
{
    let name = name_spec(e, viewer);
    assert forall|i: int| 0 <= i < cands.len() implies !((#[trigger] cands[i]).0 != key && name_spec(cands[i].1, viewer) == name) by {
        broadcast use vstd::seq_lib::group_filter_ensures;
        if cands[i].0 != key && name_spec(cands[i].1, viewer) == name {
            assert(named_alike(cands, key, viewer, name).contains(cands[i]));
        }
    }
    lemma_no_unresolved(cands, cands, key, viewer, name);
}

// ---------------------------------------------------------------------------
// Targets and escapes
// ---------------------------------------------------------------------------

/// Strict resolution keeps exactly the certain matches of ordinary resolution, in order:
/// every strict match is a match that is not a guess, and every such match is kept.
pub proof fn lemma_strict_targets_are_certain(ms: Seq<(Seq<char>, TemplateEntity, Option<Seq<char>>, bool)>)
    ensures
        forall|x| #[trigger] certain_only(ms).contains(x) ==> ms.contains(x) && !x.3,
        forall|x| #[trigger] ms.contains(x) && !x.3 ==> certain_only(ms).contains(x),
    decreases ms.len(),
{
    if ms.len() > 0 {
        lemma_strict_targets_are_certain(ms.drop_last());
        let prev = certain_only(ms.drop_last());
        assert forall|x| #[trigger] certain_only(ms).contains(x) implies ms.contains(x) && !x.3 by {
            if prev.contains(x) {
                let i = choose|i: int| 0 <= i < ms.drop_last().len() && ms.drop_last()[i] == x;
                assert(ms[i] == x);
            } else {
                assert(certain_only(ms) == prev.push(ms.last()));
                let i = choose|i: int| 0 <= i < certain_only(ms).len() && certain_only(ms)[i] == x;
                assert(i == prev.len());
                assert(ms[ms.len() - 1] == x);
            }
        }
        assert forall|x| #[trigger] ms.contains(x) && !x.3 implies certain_only(ms).contains(x) by {
            let i = choose|i: int| 0 <= i < ms.len() && ms[i] == x;
            if i < ms.len() - 1 {
                assert(ms.drop_last()[i] == x);
                assert(ms.drop_last().contains(x));
                let k = choose|k: int| 0 <= k < prev.len() && prev[k] == x;
                if !ms.last().3 {
                    assert(certain_only(ms)[k] == x);
                }
            } else {
                assert(certain_only(ms) == prev.push(ms.last()));
                assert(certain_only(ms)[prev.len() as int] == x);
            }
        }
    }
}

/// No entity is reported twice among the candidates that survive deduplication.
proof fn lemma_unique_models_distinct(cs: Seq<(Seq<char>, TemplateEntity, Option<Seq<char>>)>)
    ensures
        forall|i: int, j: int| 0 <= i < unique_models(cs).len() && 0 <= j < unique_models(cs).len() && i != j
            ==> (#[trigger] unique_models(cs)[i]).1.id@ != (#[trigger] unique_models(cs)[j]).1.id@,
    decreases cs.len(),
{
    if cs.len() > 0 {
        lemma_unique_models_distinct(cs.drop_last());
        let prev = unique_models(cs.drop_last());
        let c = cs.last();
        if !has_entity(prev, c.1.id@) {
            let u = unique_models(cs);
            assert(u == prev.push((c.0, c.1, c.2, match c.2 {
                Some(p) => crate::models::path_target(c.1, crate::text::split_on(p, '.')) is None,
                None => false,
            })));
            assert forall|i: int, j: int| 0 <= i < u.len() && 0 <= j < u.len() && i != j
                implies (#[trigger] u[i]).1.id@ != (#[trigger] u[j]).1.id@ by {
                if i < prev.len() && j < prev.len() {
                    assert(u[i] == prev[i] && u[j] == prev[j]);
                } else if i < prev.len() {
                    assert(u[i] == prev[i]);
                    assert(u[j].1 == c.1);
                } else {
                    assert(u[j] == prev[j]);
                    assert(u[i].1 == c.1);
                }
            }
        }
    }
}

/// Target resolution reports each entity at most once.
pub proof fn lemma_targets_name_distinct_entities(ctx: RenderContext, desc: Seq<char>)
    ensures
        forall|i: int, j: int| 0 <= i < target_matches(ctx, desc).len() && 0 <= j < target_matches(ctx, desc).len() && i != j
            ==> (#[trigger] target_matches(ctx, desc)[i]).1.id@ != (#[trigger] target_matches(ctx, desc)[j]).1.id@,
{
    lemma_unique_models_distinct(crate::resolve::candidates(ctx, desc));
}

/// A text without backslashes reads as itself when escapes are resolved.
pub proof fn lemma_plain_text_unescapes_to_itself(s: Seq<char>)
    requires
        !s.contains('\\'),
    ensures
        unescaped(s) == s,
    decreases s.len(),
{
    if s.len() > 0 {
        assert(s[0] != '\\') by {
            if s[0] == '\\' {
                assert(s.contains(s[0]));
            }
        }
        assert(!s.drop_first().contains('\\')) by {
            if s.drop_first().contains('\\') {
                let i = choose|i: int| 0 <= i < s.drop_first().len() && s.drop_first()[i] == '\\';
                assert(s[i + 1] == '\\');
            }
        }
        lemma_plain_text_unescapes_to_itself(s.drop_first());
        assert(seq![s[0]] + s.drop_first() =~= s);
    }
}

// ---------------------------------------------------------------------------
// Template keys
// ---------------------------------------------------------------------------

/// Collecting template keys lists each key once: starting from a list without repeats, the
/// result keeps that list as its beginning, holds every candidate, holds nothing else, and
/// has no repeats.
pub proof fn lemma_template_keys_are_listed_once(acc: Seq<Seq<char>>, cands: Seq<Seq<char>>)
    requires
        acc.no_duplicates(),
    ensures
        with_new_keys(acc, cands).no_duplicates(),
        acc.len() <= with_new_keys(acc, cands).len(),
        with_new_keys(acc, cands).take(acc.len() as int) == acc,
        forall|i: int| 0 <= i < cands.len() ==> with_new_keys(acc, cands).contains(#[trigger] cands[i]),
        forall|k: Seq<char>| with_new_keys(acc, cands).contains(k) ==> acc.contains(k) || cands.contains(k),
    decreases cands.len(),
{
    if cands.len() == 0 {
        assert(acc.take(acc.len() as int) =~= acc);
    } else {
        let prev = with_new_keys(acc, cands.drop_last());
        lemma_template_keys_are_listed_once(acc, cands.drop_last());
        let res = with_new_keys(acc, cands);
        if !prev.contains(cands.last()) {
            assert(res == prev.push(cands.last()));
            assert(res.take(acc.len() as int) =~= prev.take(acc.len() as int));
            assert forall|i: int, j: int| 0 <= i < res.len() && 0 <= j < res.len() && i != j implies res[i] != res[j] by {
                if i < prev.len() && j < prev.len() {
                } else if i == prev.len() {
                    assert(prev[j] == res[j]);
                } else {
                    assert(prev[i] == res[i]);
                }
            }
        }
        assert forall|i: int| 0 <= i < cands.len() implies res.contains(#[trigger] cands[i]) by {
            if i < cands.len() - 1 {
                assert(cands.drop_last()[i] == cands[i]);
                let w = choose|w: int| 0 <= w < prev.len() && prev[w] == cands[i];
                assert(res[w] == cands[i]);
            } else if prev.contains(cands.last()) {
            } else {
                assert(res[prev.len() as int] == cands.last());
            }
        }
        assert forall|k: Seq<char>| res.contains(k) implies acc.contains(k) || cands.contains(k) by {
            let w = choose|w: int| 0 <= w < res.len() && res[w] == k;
            if w < prev.len() {
                assert(prev[w] == k);
                if cands.drop_last().contains(k) {
                    let u = choose|u: int| 0 <= u < cands.drop_last().len() && cands.drop_last()[u] == k;
                    assert(cands[u] == k);
                }
            } else {
                assert(cands[cands.len() - 1] == k);
            }
        }
    }
}


// ---------------------------------------------------------------------------
// Template test plans
// ---------------------------------------------------------------------------

proof fn lemma_index_cases_len(v: Seq<char>, s: ActorStance, t: Tense, n: nat, keys: Seq<Seq<char>>, table: Seq<Seq<TemplateEntity>>, la: bool)
    ensures
        index_cases(v, s, t, n, keys, table, la).len() == n,
    decreases n,
{
    if n > 0 {
        lemma_index_cases_len(v, s, t, (n - 1) as nat, keys, table, la);
    }
}

proof fn lemma_tense_cases_len(v: Seq<char>, s: ActorStance, ts: Seq<Tense>, keys: Seq<Seq<char>>, table: Seq<Seq<TemplateEntity>>, la: bool)
    ensures
        tense_cases(v, s, ts, keys, table, la).len() == ts.len() * table_product(table),
    decreases ts.len(),
{
    if ts.len() > 0 {
        lemma_tense_cases_len(v, s, ts.drop_last(), keys, table, la);
        lemma_index_cases_len(v, s, ts.last(), table_product(table), keys, table, la);
        let p = table_product(table);
        let t = ts.len();
        assert((t - 1) * p + p == t * p) by (nonlinear_arith);
    }
}

proof fn lemma_stance_cases_len(v: Seq<char>, ss: Seq<ActorStance>, ts: Seq<Tense>, keys: Seq<Seq<char>>, table: Seq<Seq<TemplateEntity>>, la: bool)
    ensures
        stance_cases(v, ss, ts, keys, table, la).len() == ss.len() * (ts.len() * table_product(table)),
    decreases ss.len(),
{
    if ss.len() > 0 {
        lemma_stance_cases_len(v, ss.drop_last(), ts, keys, table, la);
        lemma_tense_cases_len(v, ss.last(), ts, keys, table, la);
        let q = ts.len() * table_product(table);
        let n = ss.len();
        assert((n - 1) * q + q == n * q) by (nonlinear_arith);
    }
}

proof fn lemma_viewer_cases_len(vs: Seq<Seq<char>>, ss: Seq<ActorStance>, ts: Seq<Tense>, keys: Seq<Seq<char>>, table: Seq<Seq<TemplateEntity>>, la: bool)
    ensures
        viewer_cases(vs, ss, ts, keys, table, la).len() == vs.len() * (ss.len() * (ts.len() * table_product(table))),
    decreases vs.len(),
{
    if vs.len() > 0 {
        lemma_viewer_cases_len(vs.drop_last(), ss, ts, keys, table, la);
        lemma_stance_cases_len(vs.last(), ss, ts, keys, table, la);
        let q = ss.len() * (ts.len() * table_product(table));
        let n = vs.len();
        assert((n - 1) * q + q == n * q) by (nonlinear_arith);
    }
}

/// A template test plan that succeeds holds one case for each combination of viewer,
/// stance, tense and choice of entities, so never more than `MAX_COMBINATIONS`, when the
/// count of stances times tenses fits in a `usize`.
pub proof fn lemma_plan_counts_every_combination(
    keys: Seq<Seq<char>>,
    viewer_ids: Seq<Seq<char>>,
    stances: Seq<ActorStance>,
    tenses: Seq<Tense>,
    subsets: Map<Seq<char>, Vec<TemplateEntity>>,
    bindings: Map<Seq<char>, String>,
    lookahead: bool,
)
    requires
        stances.len() * tenses.len() <= usize::MAX,
        permutation_plan(keys, viewer_ids, stances, tenses, subsets, bindings, lookahead) is Ok,
    ensures
        permutation_plan(keys, viewer_ids, stances, tenses, subsets, bindings, lookahead)->Ok_0.len()
            == stances.len() * tenses.len() * table_product(subset_table(keys, subsets, bindings)->Ok_0) * viewer_ids.len(),
        permutation_plan(keys, viewer_ids, stances, tenses, subsets, bindings, lookahead)->Ok_0.len() <= MAX_COMBINATIONS,
{
    let table = subset_table(keys, subsets, bindings)->Ok_0;
    lemma_viewer_cases_len(viewer_ids, stances, tenses, keys, table, lookahead);
    let p = table_product(table);
    let (v, s, t) = (viewer_ids.len(), stances.len(), tenses.len());
    assert(v * (s * (t * p)) == s * t * p * v) by (nonlinear_arith);
    if v > 0 {
        assert(s * t * p * v <= MAX_COMBINATIONS);
    } else {
        assert(s * t * p * v == 0) by (nonlinear_arith) requires v == 0;
    }
}

// ---------------------------------------------------------------------------
// Compiling plain text
// ---------------------------------------------------------------------------

/// Scanning text that holds no `{`, `[` or backslash only moves forward, leaving the
/// pending literal and the open blocks as they are.
proof fn lemma_plain_scan(cs: Seq<(usize, char)>, max: nat, i: int, st: Seq<FrameModel>)
    requires
        0 <= i <= cs.len(),
        forall|k: int| 0 <= k < cs.len() ==> cs[k].1 != '{' && cs[k].1 != '[' && cs[k].1 != '\\',
    ensures
        scan_from(cs, max, i, 0, st) == scan_end(cs, 0, st),
    decreases cs.len() - i,
{
    reveal(scan_from);
    if i < cs.len() {
        assert(scan_step(cs, max, i, 0, st) == Step::Next(i + 1, 0, st));
        lemma_plain_scan(cs, max, i + 1, st);
    }
}

/// A text with no `{`, `[` or backslash compiles to itself: one literal, or no token at
/// all when it is empty.
pub proof fn lemma_plain_text_compiles_to_literal(raw: Seq<char>, max: nat)
    requires
        forall|k: int| 0 <= k < raw.len() ==> raw[k] != '{' && raw[k] != '[' && raw[k] != '\\',
    ensures
        compiled(raw, max) == (if raw.len() == 0 {
            Ok::<Seq<TplModel>, Seq<char>>(seq![])
        } else {
            Ok::<Seq<TplModel>, Seq<char>>(seq![TplModel::Literal(raw)])
        }),
{
    let cs = indexed_model(raw);
    let root = seq![FrameModel::Root(seq![])];
    assert forall|k: int| 0 <= k < cs.len() implies cs[k].1 != '{' && cs[k].1 != '[' && cs[k].1 != '\\' by {
        assert(cs[k].1 == raw[k]);
    }
    lemma_plain_scan(cs, max, 0, root);
    assert(text_of(cs, 0, cs.len() as int) =~= raw);
    if raw.len() == 0 {
        assert(scan_end(cs, 0, root) == Ok::<Seq<TplModel>, Seq<char>>(seq![]));
    } else {
        assert(seq![TplModel::Literal(raw)] =~= seq![].push(TplModel::Literal(raw)));
    }
}

// ---------------------------------------------------------------------------
// Verb agreement
// ---------------------------------------------------------------------------

/// "be" agrees with its subject: "am" for a viewer in the first person singular, "are" for
/// any other viewer or a plural subject, "is" otherwise; in the past tense "was" for a
/// singular subject that is not addressed as "you", and "were" otherwise.
pub proof fn lemma_be_agrees_with_subject(
    orig: Seq<char>,
    is_viewer: bool,
    is_plural: bool,
    stance: ActorStance,
    custom: Map<Seq<char>, (Seq<char>, Seq<char>)>,
)
    ensures
        conjugation(orig, "be"@, false, is_viewer, is_plural, stance, Tense::Present, custom) == (if is_viewer
            && stance == ActorStance::FirstPerson && !is_plural {
            "am"@
        } else if is_viewer || is_plural {
            "are"@
        } else {
            "is"@
        }),
        conjugation(orig, "be"@, false, is_viewer, is_plural, stance, Tense::Past, custom) == (if is_plural
            || (is_viewer && stance != ActorStance::FirstPerson) {
            "were"@
        } else {
            "was"@
        }),
{
    reveal_strlit("be");
    reveal_strlit("do(aux)");
    assert("be"@.len() != "do(aux)"@.len());
}

/// In the present tense a verb whose subject is the viewer or plural is written as given
/// (capitalised if asked), whatever the dictionaries hold; "be" and the auxiliary
/// "do(aux)" keep their own rules.
pub proof fn lemma_viewer_or_plural_keeps_verb(
    orig: Seq<char>,
    lower: Seq<char>,
    cap: bool,
    is_viewer: bool,
    is_plural: bool,
    stance: ActorStance,
    custom: Map<Seq<char>, (Seq<char>, Seq<char>)>,
)
    requires
        is_viewer || is_plural,
        lower != "be"@,
        lower != "do(aux)"@,
    ensures
        conjugation(orig, lower, cap, is_viewer, is_plural, stance, Tense::Present, custom)
            == crate::grammar::capitalized_if(orig, cap),
{
}

/// In the future tense a verb that is not a modal is written after "will", with its first
/// letter in lower case; a modal stays as it is.
pub proof fn lemma_future_takes_will(
    orig: Seq<char>,
    lower: Seq<char>,
    is_viewer: bool,
    is_plural: bool,
    stance: ActorStance,
    custom: Map<Seq<char>, (Seq<char>, Seq<char>)>,
)
    requires
        lower != "do(aux)"@,
        orig.len() > 0,
    ensures
        conjugation(orig, lower, false, is_viewer, is_plural, stance, Tense::Future, custom) == (if is_modal(lower) {
            orig
        } else {
            "will "@ + char_lowercase(orig[0]) + orig.drop_first()
        }),
{
}

// ---------------------------------------------------------------------------
// Pronouns
// ---------------------------------------------------------------------------

/// The pronoun cases of a third-person entity, by gender: subject, object, possessive,
/// absolute possessive and reflexive are he/him/his/his/himself,
/// she/her/her/hers/herself, it/it/its/its/itself and they/them/their/theirs/themselves,
/// whatever the stance and number.
pub proof fn lemma_third_person_pronouns(gender: Gender, is_plural: bool, stance: ActorStance)
    ensures
        pronoun_forms(gender, false, is_plural, stance) == match gender {
            Gender::Male => seq!["he"@, "him"@, "his"@, "his"@, "himself"@],
            Gender::Female => seq!["she"@, "her"@, "her"@, "hers"@, "herself"@],
            Gender::Neutral => seq!["it"@, "it"@, "its"@, "its"@, "itself"@],
            Gender::Plural => seq!["they"@, "them"@, "their"@, "theirs"@, "themselves"@],
        },
{
}

/// The pronouns of the viewer: I/me/my/mine/myself (we/us/our/ours/ourselves when plural)
/// in the first person, and you/you/your/yours/yourself (yourselves when plural) otherwise,
/// whatever the gender.
pub proof fn lemma_viewer_pronouns(gender: Gender, is_plural: bool, stance: ActorStance)
    ensures
        pronoun_forms(gender, true, is_plural, stance) == (if stance == ActorStance::FirstPerson {
            if is_plural {
                seq!["we"@, "us"@, "our"@, "ours"@, "ourselves"@]
            } else {
                seq!["I"@, "me"@, "my"@, "mine"@, "myself"@]
            }
        } else if is_plural {
            seq!["you"@, "you"@, "your"@, "yours"@, "yourselves"@]
        } else {
            seq!["you"@, "you"@, "your"@, "yours"@, "yourself"@]
        }),
{
}

/// The absolute possessive of a third-person entity is its possessive, with an "s" added
/// unless the possessive already ends in "s" ("her" -> "hers", "their" -> "theirs",
/// "his" -> "his", "its" -> "its"); the reflexive is built on the object form for a
/// single entity ("him" + "self") and ends in "selves" for a plural one.
pub proof fn lemma_absolute_possessive_extends_possessive(gender: Gender, is_plural: bool, stance: ActorStance)
    ensures
        ({
            let f = pronoun_forms(gender, false, is_plural, stance);
            &&& f.len() == 5
            &&& f[3] == (if f[2].last() == 's' { f[2] } else { f[2] + "s"@ })
            &&& f[4] == (if gender == Gender::Plural { f[1] + "selves"@ } else { f[1] + "self"@ })
        }),
{
    reveal_strlit("his");
    reveal_strlit("her");
    reveal_strlit("hers");
    reveal_strlit("its");
    reveal_strlit("their");
    reveal_strlit("theirs");
    reveal_strlit("s");
    reveal_strlit("him");
    reveal_strlit("it");
    reveal_strlit("them");
    reveal_strlit("himself");
    reveal_strlit("herself");
    reveal_strlit("itself");
    reveal_strlit("themselves");
    reveal_strlit("self");
    reveal_strlit("selves");
    let f = pronoun_forms(gender, false, is_plural, stance);
    match gender {
        Gender::Male => {
            assert(f[4] =~= f[1] + "self"@);
        },
        Gender::Female => {
            assert(f[3] =~= f[2] + "s"@);
            assert(f[4] =~= f[1] + "self"@);
        },
        Gender::Neutral => {
            assert(f[4] =~= f[1] + "self"@);
        },
        Gender::Plural => {
            assert(f[3] =~= f[2] + "s"@);
            assert(f[4] =~= f[1] + "selves"@);
        },
    }
}

/// The five pronoun case names select the five forms in order, and no other name is a case.
pub proof fn lemma_pronoun_case_names(p: Seq<char>)
    ensures
        pronoun_case("subj"@) == Some(0int),
        pronoun_case("obj"@) == Some(1int),
        pronoun_case("poss"@) == Some(2int),
        pronoun_case("abs_poss"@) == Some(3int),
        pronoun_case("reflex"@) == Some(4int),
        p != "subj"@ && p != "obj"@ && p != "poss"@ && p != "abs_poss"@ && p != "reflex"@ ==> pronoun_case(p) is None,
{
    reveal_strlit("subj");
    reveal_strlit("obj");
    reveal_strlit("poss");
    reveal_strlit("abs_poss");
    reveal_strlit("reflex");
    assert("obj"@ != "subj"@) by { assert("obj"@.len() != "subj"@.len()); }
    assert("poss"@ != "subj"@) by { assert("poss"@[0] != "subj"@[0]); }
    assert("poss"@ != "obj"@) by { assert("poss"@.len() != "obj"@.len()); }
    assert("abs_poss"@ != "subj"@) by { assert("abs_poss"@.len() != "subj"@.len()); }
    assert("abs_poss"@ != "obj"@) by { assert("abs_poss"@.len() != "obj"@.len()); }
    assert("abs_poss"@ != "poss"@) by { assert("abs_poss"@.len() != "poss"@.len()); }
    assert("reflex"@ != "subj"@) by { assert("reflex"@.len() != "subj"@.len()); }
    assert("reflex"@ != "obj"@) by { assert("reflex"@.len() != "obj"@.len()); }
    assert("reflex"@ != "poss"@) by { assert("reflex"@.len() != "poss"@.len()); }
    assert("reflex"@ != "abs_poss"@) by { assert("reflex"@.len() != "abs_poss"@.len()); }
}

// ---------------------------------------------------------------------------
// Pronouns in target descriptions
// ---------------------------------------------------------------------------

/// Two words differ in length or in one of their first four characters.
spec fn differ4(a: Seq<char>, b: Seq<char>) -> bool {
    ||| a.len() != b.len()
    ||| (a.len() > 0 && a[0] != b[0])
    ||| (a.len() > 1 && a[1] != b[1])
    ||| (a.len() > 2 && a[2] != b[2])
    ||| (a.len() > 3 && a[3] != b[3])
}

/// "she", "her", "hers" and "herself" are pronouns, and each refers exactly to the
/// remembered entities that are not the viewer, are female and are singular.
pub proof fn lemma_female_pronouns_refer_to_single_females(d: Seq<char>, r: RecentModel)
    requires
        d == "she"@ || d == "her"@ || d == "hers"@ || d == "herself"@,
    ensures
        is_pronoun(d),
        pronoun_fits(d, r) <==> (!r.flags.is_viewer_normal && !r.flags.is_viewer_forced && r.gender == Gender::Female
            && !r.flags.is_plural),
{
    reveal_strlit("he");
    reveal_strlit("him");
    reveal_strlit("his");
    reveal_strlit("himself");
    reveal_strlit("she");
    reveal_strlit("her");
    reveal_strlit("hers");
    reveal_strlit("herself");
    reveal_strlit("it");
    reveal_strlit("its");
    reveal_strlit("itself");
    reveal_strlit("they");
    reveal_strlit("them");
    reveal_strlit("their");
    reveal_strlit("theirs");
    reveal_strlit("themselves");
    reveal_strlit("you");
    reveal_strlit("your");
    reveal_strlit("yours");
    reveal_strlit("yourself");
    reveal_strlit("yourselves");
    reveal_strlit("i");
    reveal_strlit("me");
    reveal_strlit("my");
    reveal_strlit("mine");
    reveal_strlit("myself");
    reveal_strlit("we");
    reveal_strlit("us");
    reveal_strlit("our");
    reveal_strlit("ours");
    reveal_strlit("ourselves");
    assert(crate::resolve::female_pronouns().contains(d)) by {
        if d == "she"@ { assert(crate::resolve::female_pronouns()[0] == d); }
        else if d == "her"@ { assert(crate::resolve::female_pronouns()[1] == d); }
        else if d == "hers"@ { assert(crate::resolve::female_pronouns()[2] == d); }
        else { assert(crate::resolve::female_pronouns()[3] == d); }
    }
    assert(differ4(crate::resolve::male_pronouns()[0], d));
    assert(differ4(crate::resolve::male_pronouns()[1], d));
    assert(differ4(crate::resolve::male_pronouns()[2], d));
    assert(differ4(crate::resolve::male_pronouns()[3], d));
    assert(!crate::resolve::male_pronouns().contains(d));
    assert(differ4(crate::resolve::viewer_pronouns()[0], d));
    assert(differ4(crate::resolve::viewer_pronouns()[1], d));
    assert(differ4(crate::resolve::viewer_pronouns()[2], d));
    assert(differ4(crate::resolve::viewer_pronouns()[3], d));
    assert(differ4(crate::resolve::viewer_pronouns()[4], d));
    assert(differ4(crate::resolve::viewer_pronouns()[5], d));
    assert(differ4(crate::resolve::viewer_pronouns()[6], d));
    assert(differ4(crate::resolve::viewer_pronouns()[7], d));
    assert(differ4(crate::resolve::viewer_pronouns()[8], d));
    assert(differ4(crate::resolve::viewer_pronouns()[9], d));
    assert(differ4(crate::resolve::viewer_pronouns()[10], d));
    assert(differ4(crate::resolve::viewer_pronouns()[11], d));
    assert(differ4(crate::resolve::viewer_pronouns()[12], d));
    assert(differ4(crate::resolve::viewer_pronouns()[13], d));
    assert(differ4(crate::resolve::viewer_pronouns()[14], d));
    assert(!crate::resolve::viewer_pronouns().contains(d));
}

/// "he", "him", "his" and "himself" are pronouns, and each refers exactly to the
/// remembered entities that are not the viewer, are male and are singular.
pub proof fn lemma_male_pronouns_refer_to_single_males(d: Seq<char>, r: RecentModel)
    requires
        d == "he"@ || d == "him"@ || d == "his"@ || d == "himself"@,
    ensures
        is_pronoun(d),
        pronoun_fits(d, r) <==> (!r.flags.is_viewer_normal && !r.flags.is_viewer_forced && r.gender == Gender::Male
            && !r.flags.is_plural),
{
    reveal_strlit("he");
    reveal_strlit("him");
    reveal_strlit("his");
    reveal_strlit("himself");
    reveal_strlit("she");
    reveal_strlit("her");
    reveal_strlit("hers");
    reveal_strlit("herself");
    reveal_strlit("it");
    reveal_strlit("its");
    reveal_strlit("itself");
    reveal_strlit("they");
    reveal_strlit("them");
    reveal_strlit("their");
    reveal_strlit("theirs");
    reveal_strlit("themselves");
    reveal_strlit("you");
    reveal_strlit("your");
    reveal_strlit("yours");
    reveal_strlit("yourself");
    reveal_strlit("yourselves");
    reveal_strlit("i");
    reveal_strlit("me");
    reveal_strlit("my");
    reveal_strlit("mine");
    reveal_strlit("myself");
    reveal_strlit("we");
    reveal_strlit("us");
    reveal_strlit("our");
    reveal_strlit("ours");
    reveal_strlit("ourselves");
    assert(crate::resolve::male_pronouns().contains(d)) by {
        if d == "he"@ { assert(crate::resolve::male_pronouns()[0] == d); }
        else if d == "him"@ { assert(crate::resolve::male_pronouns()[1] == d); }
        else if d == "his"@ { assert(crate::resolve::male_pronouns()[2] == d); }
        else { assert(crate::resolve::male_pronouns()[3] == d); }
    }
    assert(differ4(crate::resolve::viewer_pronouns()[0], d));
    assert(differ4(crate::resolve::viewer_pronouns()[1], d));
    assert(differ4(crate::resolve::viewer_pronouns()[2], d));
    assert(differ4(crate::resolve::viewer_pronouns()[3], d));
    assert(differ4(crate::resolve::viewer_pronouns()[4], d));
    assert(differ4(crate::resolve::viewer_pronouns()[5], d));
    assert(differ4(crate::resolve::viewer_pronouns()[6], d));
    assert(differ4(crate::resolve::viewer_pronouns()[7], d));
    assert(differ4(crate::resolve::viewer_pronouns()[8], d));
    assert(differ4(crate::resolve::viewer_pronouns()[9], d));
    assert(differ4(crate::resolve::viewer_pronouns()[10], d));
    assert(differ4(crate::resolve::viewer_pronouns()[11], d));
    assert(differ4(crate::resolve::viewer_pronouns()[12], d));
    assert(differ4(crate::resolve::viewer_pronouns()[13], d));
    assert(differ4(crate::resolve::viewer_pronouns()[14], d));
    assert(!crate::resolve::viewer_pronouns().contains(d));
}

/// "it", "its" and "itself" are pronouns, and each refers exactly to the remembered
/// entities that are not the viewer, are neutral and are singular.
pub proof fn lemma_neutral_pronouns_refer_to_single_things(d: Seq<char>, r: RecentModel)
    requires
        d == "it"@ || d == "its"@ || d == "itself"@,
    ensures
        is_pronoun(d),
        pronoun_fits(d, r) <==> (!r.flags.is_viewer_normal && !r.flags.is_viewer_forced && r.gender == Gender::Neutral
            && !r.flags.is_plural),
{
    reveal_strlit("he");
    reveal_strlit("him");
    reveal_strlit("his");
    reveal_strlit("himself");
    reveal_strlit("she");
    reveal_strlit("her");
    reveal_strlit("hers");
    reveal_strlit("herself");
    reveal_strlit("it");
    reveal_strlit("its");
    reveal_strlit("itself");
    reveal_strlit("they");
    reveal_strlit("them");
    reveal_strlit("their");
    reveal_strlit("theirs");
    reveal_strlit("themselves");
    reveal_strlit("you");
    reveal_strlit("your");
    reveal_strlit("yours");
    reveal_strlit("yourself");
    reveal_strlit("yourselves");
    reveal_strlit("i");
    reveal_strlit("me");
    reveal_strlit("my");
    reveal_strlit("mine");
    reveal_strlit("myself");
    reveal_strlit("we");
    reveal_strlit("us");
    reveal_strlit("our");
    reveal_strlit("ours");
    reveal_strlit("ourselves");
    assert(crate::resolve::neutral_pronouns().contains(d)) by {
        if d == "it"@ { assert(crate::resolve::neutral_pronouns()[0] == d); }
        else if d == "its"@ { assert(crate::resolve::neutral_pronouns()[1] == d); }
        else { assert(crate::resolve::neutral_pronouns()[2] == d); }
    }
    assert(differ4(crate::resolve::male_pronouns()[0], d));
    assert(differ4(crate::resolve::male_pronouns()[1], d));
    assert(differ4(crate::resolve::male_pronouns()[2], d));
    assert(differ4(crate::resolve::male_pronouns()[3], d));
    assert(!crate::resolve::male_pronouns().contains(d));
    assert(differ4(crate::resolve::female_pronouns()[0], d));
    assert(differ4(crate::resolve::female_pronouns()[1], d));
    assert(differ4(crate::resolve::female_pronouns()[2], d));
    assert(differ4(crate::resolve::female_pronouns()[3], d));
    assert(!crate::resolve::female_pronouns().contains(d));
    assert(differ4(crate::resolve::viewer_pronouns()[0], d));
    assert(differ4(crate::resolve::viewer_pronouns()[1], d));
    assert(differ4(crate::resolve::viewer_pronouns()[2], d));
    assert(differ4(crate::resolve::viewer_pronouns()[3], d));
    assert(differ4(crate::resolve::viewer_pronouns()[4], d));
    assert(differ4(crate::resolve::viewer_pronouns()[5], d));
    assert(differ4(crate::resolve::viewer_pronouns()[6], d));
    assert(differ4(crate::resolve::viewer_pronouns()[7], d));
    assert(differ4(crate::resolve::viewer_pronouns()[8], d));
    assert(differ4(crate::resolve::viewer_pronouns()[9], d));
    assert(differ4(crate::resolve::viewer_pronouns()[10], d));
    assert(differ4(crate::resolve::viewer_pronouns()[11], d));
    assert(differ4(crate::resolve::viewer_pronouns()[12], d));
    assert(differ4(crate::resolve::viewer_pronouns()[13], d));
    assert(differ4(crate::resolve::viewer_pronouns()[14], d));
    assert(!crate::resolve::viewer_pronouns().contains(d));
}

/// "they", "them", "their", "theirs" and "themselves" are pronouns, and each refers exactly
/// to the remembered entities that are not the viewer and are plural (by gender or number).
pub proof fn lemma_plural_pronouns_refer_to_plurals(d: Seq<char>, r: RecentModel)
    requires
        d == "they"@ || d == "them"@ || d == "their"@ || d == "theirs"@ || d == "themselves"@,
    ensures
        is_pronoun(d),
        pronoun_fits(d, r) <==> (!r.flags.is_viewer_normal && !r.flags.is_viewer_forced && (r.gender == Gender::Plural
            || r.flags.is_plural)),
{
    reveal_strlit("he");
    reveal_strlit("him");
    reveal_strlit("his");
    reveal_strlit("himself");
    reveal_strlit("she");
    reveal_strlit("her");
    reveal_strlit("hers");
    reveal_strlit("herself");
    reveal_strlit("it");
    reveal_strlit("its");
    reveal_strlit("itself");
    reveal_strlit("they");
    reveal_strlit("them");
    reveal_strlit("their");
    reveal_strlit("theirs");
    reveal_strlit("themselves");
    reveal_strlit("you");
    reveal_strlit("your");
    reveal_strlit("yours");
    reveal_strlit("yourself");
    reveal_strlit("yourselves");
    reveal_strlit("i");
    reveal_strlit("me");
    reveal_strlit("my");
    reveal_strlit("mine");
    reveal_strlit("myself");
    reveal_strlit("we");
    reveal_strlit("us");
    reveal_strlit("our");
    reveal_strlit("ours");
    reveal_strlit("ourselves");
    assert(crate::resolve::plural_pronouns().contains(d)) by {
        if d == "they"@ { assert(crate::resolve::plural_pronouns()[0] == d); }
        else if d == "them"@ { assert(crate::resolve::plural_pronouns()[1] == d); }
        else if d == "their"@ { assert(crate::resolve::plural_pronouns()[2] == d); }
        else if d == "theirs"@ { assert(crate::resolve::plural_pronouns()[3] == d); }
        else { assert(crate::resolve::plural_pronouns()[4] == d); }
    }
    assert(differ4(crate::resolve::male_pronouns()[0], d));
    assert(differ4(crate::resolve::male_pronouns()[1], d));
    assert(differ4(crate::resolve::male_pronouns()[2], d));
    assert(differ4(crate::resolve::male_pronouns()[3], d));
    assert(!crate::resolve::male_pronouns().contains(d));
    assert(differ4(crate::resolve::female_pronouns()[0], d));
    assert(differ4(crate::resolve::female_pronouns()[1], d));
    assert(differ4(crate::resolve::female_pronouns()[2], d));
    assert(differ4(crate::resolve::female_pronouns()[3], d));
    assert(!crate::resolve::female_pronouns().contains(d));
    assert(differ4(crate::resolve::neutral_pronouns()[0], d));
    assert(differ4(crate::resolve::neutral_pronouns()[1], d));
    assert(differ4(crate::resolve::neutral_pronouns()[2], d));
    assert(!crate::resolve::neutral_pronouns().contains(d));
    assert(differ4(crate::resolve::viewer_pronouns()[0], d));
    assert(differ4(crate::resolve::viewer_pronouns()[1], d));
    assert(differ4(crate::resolve::viewer_pronouns()[2], d));
    assert(differ4(crate::resolve::viewer_pronouns()[3], d));
    assert(differ4(crate::resolve::viewer_pronouns()[4], d));
    assert(differ4(crate::resolve::viewer_pronouns()[5], d));
    assert(differ4(crate::resolve::viewer_pronouns()[6], d));
    assert(differ4(crate::resolve::viewer_pronouns()[7], d));
    assert(differ4(crate::resolve::viewer_pronouns()[8], d));
    assert(differ4(crate::resolve::viewer_pronouns()[9], d));
    assert(differ4(crate::resolve::viewer_pronouns()[10], d));
    assert(differ4(crate::resolve::viewer_pronouns()[11], d));
    assert(differ4(crate::resolve::viewer_pronouns()[12], d));
    assert(differ4(crate::resolve::viewer_pronouns()[13], d));
    assert(differ4(crate::resolve::viewer_pronouns()[14], d));
    assert(!crate::resolve::viewer_pronouns().contains(d));
}

/// The entities a pronoun resolves to are exactly the remembered entities that the pronoun
/// fits and whose key the context holds.
pub proof fn lemma_pronoun_targets_are_the_fitting_entities(
    ctx: RenderContext,
    rs: Seq<RecentModel>,
    d: Seq<char>,
    key: Seq<char>,
    e: TemplateEntity,
)
    ensures
        pronoun_targets(ctx, rs, d).contains((key, e)) <==> exists|i: int|
            0 <= i < rs.len() && #[trigger] rs[i].key == key && pronoun_fits(d, rs[i]) && entity_for(ctx, key) == Some(e),
    decreases rs.len(),
{
    if rs.len() > 0 {
        let prev = rs.drop_last();
        lemma_pronoun_targets_are_the_fitting_entities(ctx, prev, d, key, e);
        let t = pronoun_targets(ctx, rs, d);
        let tp = pronoun_targets(ctx, prev, d);
        let r = rs.last();
        if t.contains((key, e)) {
            if tp.contains((key, e)) {
                let i = choose|i: int| 0 <= i < prev.len() && #[trigger] prev[i].key == key && pronoun_fits(d, prev[i])
                    && entity_for(ctx, key) == Some(e);
                assert(rs[i] == prev[i]);
            } else {
                let j = choose|j: int| 0 <= j < t.len() && t[j] == (key, e);
                assert(j == tp.len());
                assert(rs[rs.len() - 1].key == key);
            }
        }
        if exists|i: int| 0 <= i < rs.len() && #[trigger] rs[i].key == key && pronoun_fits(d, rs[i]) && entity_for(ctx, key)
            == Some(e) {
            let i = choose|i: int| 0 <= i < rs.len() && #[trigger] rs[i].key == key && pronoun_fits(d, rs[i])
                && entity_for(ctx, key) == Some(e);
            if i < rs.len() - 1 {
                assert(prev[i] == rs[i]);
                let k = choose|k: int| 0 <= k < tp.len() && tp[k] == (key, e);
                if entity_for(ctx, r.key) is Some && pronoun_fits(d, r) {
                    assert(t[k] == (key, e));
                }
            } else {
                assert(t[t.len() - 1] == (key, e));
            }
        }
    }
}

// ---------------------------------------------------------------------------
// Articles
// ---------------------------------------------------------------------------

/// Whether the article is to be capitalised: on request, or when the builder wrote it with
/// a capital.
pub open spec fn article_capitalised(article: Seq<char>, flags: ArticleFlags) -> bool {
    flags.is_capitalized || (article.len() > 0 && crate::text::char_has_uppercase_property(article[0]))
}

/// An article written as the capitalised or lower-case form of a word.
pub open spec fn cased(cap: bool, upper: Seq<char>, lower: Seq<char>) -> Seq<char> {
    if cap { upper } else { lower }
}

/// The demonstrative "this" (in any letter case) agrees in number with the entity: "these "
/// before a plural entity and "this " before a single one, when no ordinal is involved and
/// the article is shown at all (not suppressed for a proper noun or after a possessive).
pub proof fn lemma_this_agrees_in_number(
    article: Seq<char>,
    name: Seq<char>,
    coll: Option<Seq<char>>,
    thr: nat,
    flags: ArticleFlags,
)
    requires
        eq_ignore_ascii_case(article, "this"@),
        !flags.is_proper_noun || flags.force_article,
        !flags.after_possessive || flags.force_article,
    ensures
        article_resolution(article, name, None, coll, thr, flags) == Some(
            if flags.is_plural {
                cased(article_capitalised(article, flags), "These "@, "these "@)
            } else {
                cased(article_capitalised(article, flags), "This "@, "this "@)
            },
        ),
{
    reveal_strlit("this");
    reveal_strlit("a");
    reveal_strlit("an");
    reveal_strlit("the");
    assert(article.len() == 4);
    assert(!eq_ignore_ascii_case(article, "a"@));
    assert(!eq_ignore_ascii_case(article, "an"@));
    assert(!eq_ignore_ascii_case(article, "the"@));
}

/// The demonstrative "that" (in any letter case) agrees in number with the entity: "those "
/// before a plural entity and "that " before a single one, under the same conditions.
pub proof fn lemma_that_agrees_in_number(
    article: Seq<char>,
    name: Seq<char>,
    coll: Option<Seq<char>>,
    thr: nat,
    flags: ArticleFlags,
)
    requires
        eq_ignore_ascii_case(article, "that"@),
        !flags.is_proper_noun || flags.force_article,
        !flags.after_possessive || flags.force_article,
    ensures
        article_resolution(article, name, None, coll, thr, flags) == Some(
            if flags.is_plural {
                cased(article_capitalised(article, flags), "Those "@, "those "@)
            } else {
                cased(article_capitalised(article, flags), "That "@, "that "@)
            },
        ),
{
    reveal_strlit("this");
    reveal_strlit("that");
    reveal_strlit("a");
    reveal_strlit("an");
    reveal_strlit("the");
    assert(article.len() == 4);
    assert(!eq_ignore_ascii_case(article, "a"@));
    assert(!eq_ignore_ascii_case(article, "an"@));
    assert(!eq_ignore_ascii_case(article, "the"@));
    assert(!eq_ignore_ascii_case(article, "this"@)) by {
        assert(crate::text::ascii_lower(article[2]) == crate::text::ascii_lower('a'));
    }
}

// ---------------------------------------------------------------------------
// Regular verbs
// ---------------------------------------------------------------------------

/// Whether a verb ends in a hissing sound or an "o": in "s", "x", "z", "o", "ch" or "sh".
pub open spec fn ends_in_sibilant_or_o(v: Seq<char>) -> bool {
    v.len() > 0 && {
        let c = v[v.len() - 1];
        ||| c == 's' || c == 'x' || c == 'z' || c == 'o'
        ||| (c == 'h' && v.len() >= 2 && (v[v.len() - 2] == 'c' || v[v.len() - 2] == 's'))
    }
}

/// A verb that no dictionary knows, a single word other than "be" and "do(aux)".
pub open spec fn regular_single_word(lower: Seq<char>, custom: Map<Seq<char>, (Seq<char>, Seq<char>)>) -> bool {
    &&& lower != "be"@
    &&& lower != "do(aux)"@
    &&& !custom.contains_key(lower)
    &&& static_irregular(lower) is None
    &&& forall|i: int| 0 <= i < lower.len() ==> lower[i] != ' '
}

proof fn lemma_no_space_no_split(lower: Seq<char>)
    requires
        forall|i: int| 0 <= i < lower.len() ==> lower[i] != ' ',
    ensures
        find(lower, seq![' ']) is None,
{
    lemma_find_bounds(lower, seq![' '], 0);
    if find(lower, seq![' ']) is Some {
        let k = find(lower, seq![' '])->0;
        assert(lower.subrange(k, k + 1)[0] == lower[k]);
    }
}

/// A regular verb ending in "s", "x", "z", "o", "ch" or "sh" takes "es" for a single
/// subject that is not the viewer, in the present tense ("relax" -> "relaxes",
/// "watch" -> "watches", "go" -> "goes").
pub proof fn lemma_sibilant_verbs_take_es(
    orig: Seq<char>,
    lower: Seq<char>,
    stance: ActorStance,
    custom: Map<Seq<char>, (Seq<char>, Seq<char>)>,
)
    requires
        regular_single_word(lower, custom),
        ends_in_sibilant_or_o(lower),
    ensures
        conjugation(orig, lower, false, false, false, stance, Tense::Present, custom) == orig + "es"@,
{
    lemma_no_space_no_split(lower);
    reveal_strlit("do(aux)");
    reveal_strlit("be");
    let n = lower.len();
    if lower[n - 1] == 'h' {
        assert(lower.skip(n - 2) =~= seq![lower[n - 2], 'h']);
    }
    assert(lower[n - 1] != 'y');
}

/// A regular verb ending in any other letter than "s", "x", "z", "o", "h" or "y" just takes
/// "s" for a single subject that is not the viewer, in the present tense ("walk" -> "walks").
pub proof fn lemma_other_verbs_take_s(
    orig: Seq<char>,
    lower: Seq<char>,
    stance: ActorStance,
    custom: Map<Seq<char>, (Seq<char>, Seq<char>)>,
)
    requires
        regular_single_word(lower, custom),
        lower.len() > 0,
        ({
            let c = lower[lower.len() - 1];
            c != 's' && c != 'x' && c != 'z' && c != 'o' && c != 'h' && c != 'y'
        }),
    ensures
        conjugation(orig, lower, false, false, false, stance, Tense::Present, custom) == orig + "s"@,
{
    lemma_no_space_no_split(lower);
    reveal_strlit("do(aux)");
    reveal_strlit("be");
    let n = lower.len();
    if n >= 2 {
        assert(lower.skip(n - 2)[1] == lower[n - 1]);
    }
}

// ---------------------------------------------------------------------------
// Ordinal words
// ---------------------------------------------------------------------------

/// The English ordinals of one to nineteen.
pub open spec fn small_ordinal(n: nat) -> Seq<char> {
    if n == 1 { "first"@ }
    else if n == 2 { "second"@ }
    else if n == 3 { "third"@ }
    else if n == 4 { "fourth"@ }
    else if n == 5 { "fifth"@ }
    else if n == 6 { "sixth"@ }
    else if n == 7 { "seventh"@ }
    else if n == 8 { "eighth"@ }
    else if n == 9 { "ninth"@ }
    else if n == 10 { "tenth"@ }
    else if n == 11 { "eleventh"@ }
    else if n == 12 { "twelfth"@ }
    else if n == 13 { "thirteenth"@ }
    else if n == 14 { "fourteenth"@ }
    else if n == 15 { "fifteenth"@ }
    else if n == 16 { "sixteenth"@ }
    else if n == 17 { "seventeenth"@ }
    else if n == 18 { "eighteenth"@ }
    else { "nineteenth"@ }
}

/// The English cardinals of one to nine.
pub open spec fn unit_cardinal(n: nat) -> Seq<char> {
    if n == 1 { "one"@ }
    else if n == 2 { "two"@ }
    else if n == 3 { "three"@ }
    else if n == 4 { "four"@ }
    else if n == 5 { "five"@ }
    else if n == 6 { "six"@ }
    else if n == 7 { "seven"@ }
    else if n == 8 { "eight"@ }
    else { "nine"@ }
}

/// The English cardinals of the decades twenty to ninety, by their tens digit.
pub open spec fn decade_cardinal(d: nat) -> Seq<char> {
    if d == 2 { "twenty"@ }
    else if d == 3 { "thirty"@ }
    else if d == 4 { "forty"@ }
    else if d == 5 { "fifty"@ }
    else if d == 6 { "sixty"@ }
    else if d == 7 { "seventy"@ }
    else if d == 8 { "eighty"@ }
    else { "ninety"@ }
}

/// The English ordinals of the decades twenty to ninety, by their tens digit.
pub open spec fn decade_ordinal(d: nat) -> Seq<char> {
    if d == 2 { "twentieth"@ }
    else if d == 3 { "thirtieth"@ }
    else if d == 4 { "fortieth"@ }
    else if d == 5 { "fiftieth"@ }
    else if d == 6 { "sixtieth"@ }
    else if d == 7 { "seventieth"@ }
    else if d == 8 { "eightieth"@ }
    else { "ninetieth"@ }
}

/// The English ordinal of a number from 1 to 99: "fifth", "twentieth", "twenty-fifth".
pub open spec fn english_ordinal_below_100(n: nat) -> Seq<char> {
    if n < 20 {
        small_ordinal(n)
    } else if n % 10 == 0 {
        decade_ordinal(n / 10)
    } else {
        decade_cardinal(n / 10) + "-"@ + small_ordinal(n % 10)
    }
}

/// The English ordinal of a number from 1 to 999: "fifth", "ninety-ninth",
/// "three hundredth", "one hundred and twenty-fifth".
pub open spec fn english_ordinal_below_1000(n: nat) -> Seq<char> {
    if n < 100 {
        english_ordinal_below_100(n)
    } else if n % 100 == 0 {
        unit_cardinal(n / 100) + " hundredth"@
    } else {
        unit_cardinal(n / 100) + " hundred and "@ + english_ordinal_below_100(n % 100)
    }
}

proof fn lemma_not_ends_at(s: Seq<char>, p: Seq<char>, j: int)
    requires
        1 <= j <= p.len(),
        j <= s.len(),
        s[s.len() - j] != p[p.len() - j],
    ensures
        !crate::text::ends_with(s, p),
{
    if crate::text::ends_with(s, p) {
        assert(s.skip(s.len() - p.len())[p.len() - j] == s[s.len() - j]);
    }
}

proof fn lemma_ends_with_itself(x: Seq<char>, w: Seq<char>)
    ensures
        crate::text::ends_with(x + w, w),
        (x + w).take((x + w).len() - w.len()) == x,
{
    assert((x + w).skip((x + w).len() - w.len()) =~= w);
    assert((x + w).take((x + w).len() - w.len()) =~= x);
}

/// A word whose last letter is none of y, e, o, t takes "th".
proof fn lemma_ordinal_of_plain_word(s: Seq<char>)
    requires
        s.len() > 0,
        s.last() != 'y' && s.last() != 'e' && s.last() != 'o' && s.last() != 't',
    ensures
        crate::grammar::ordinal_of_word(s) == s + "th"@,
{
    reveal_strlit("y");
    reveal_strlit("one");
    reveal_strlit("two");
    reveal_strlit("three");
    reveal_strlit("five");
    reveal_strlit("eight");
    reveal_strlit("nine");
    reveal_strlit("twelve");
    lemma_not_ends_at(s, "y"@, 1);
    lemma_not_ends_at(s, "one"@, 1);
    lemma_not_ends_at(s, "two"@, 1);
    lemma_not_ends_at(s, "three"@, 1);
    lemma_not_ends_at(s, "five"@, 1);
    lemma_not_ends_at(s, "eight"@, 1);
    lemma_not_ends_at(s, "nine"@, 1);
    lemma_not_ends_at(s, "twelve"@, 1);
}

/// The last word of a number, a unit after any prefix, becomes the unit's ordinal.
proof fn lemma_ordinal_of_unit(x: Seq<char>, d: nat)
    requires
        1 <= d <= 9,
    ensures
        crate::grammar::ordinal_of_word(x + crate::grammar::ones_word(d)) == x + small_ordinal(d),
{
    reveal_strlit("y");
    reveal_strlit("one");
    reveal_strlit("two");
    reveal_strlit("three");
    reveal_strlit("four");
    reveal_strlit("five");
    reveal_strlit("six");
    reveal_strlit("seven");
    reveal_strlit("eight");
    reveal_strlit("nine");
    reveal_strlit("twelve");
    reveal_strlit("th");
    reveal_strlit("first");
    reveal_strlit("second");
    reveal_strlit("third");
    reveal_strlit("fourth");
    reveal_strlit("fifth");
    reveal_strlit("sixth");
    reveal_strlit("seventh");
    reveal_strlit("eighth");
    reveal_strlit("ninth");
    let w = crate::grammar::ones_word(d);
    let s = x + w;
    lemma_ends_with_itself(x, w);
    if d == 1 {
        lemma_not_ends_at(s, "y"@, 1);
    } else if d == 2 {
        lemma_not_ends_at(s, "y"@, 1);
        lemma_not_ends_at(s, "one"@, 1);
    } else if d == 3 {
        lemma_not_ends_at(s, "y"@, 1);
        lemma_not_ends_at(s, "one"@, 2);
        lemma_not_ends_at(s, "two"@, 1);
    } else if d == 4 || d == 6 || d == 7 {
        lemma_ordinal_of_plain_word(s);
        assert(s + "th"@ =~= x + small_ordinal(d));
    } else if d == 5 {
        lemma_not_ends_at(s, "y"@, 1);
        lemma_not_ends_at(s, "one"@, 2);
        lemma_not_ends_at(s, "two"@, 1);
        lemma_not_ends_at(s, "three"@, 2);
    } else if d == 8 {
        lemma_not_ends_at(s, "y"@, 1);
        lemma_not_ends_at(s, "one"@, 1);
        lemma_not_ends_at(s, "two"@, 1);
        lemma_not_ends_at(s, "three"@, 1);
        lemma_not_ends_at(s, "five"@, 1);
    } else {
        lemma_not_ends_at(s, "y"@, 1);
        lemma_not_ends_at(s, "one"@, 3);
        lemma_not_ends_at(s, "two"@, 1);
        lemma_not_ends_at(s, "three"@, 2);
        lemma_not_ends_at(s, "five"@, 2);
        lemma_not_ends_at(s, "eight"@, 1);
    }
}

/// Ten to nineteen become their ordinals.
proof fn lemma_ordinal_of_teen(d: nat)
    requires
        d <= 9,
    ensures
        crate::grammar::ordinal_of_word(crate::grammar::teens_word(d)) == small_ordinal(d + 10),
{
    reveal_strlit("y");
    reveal_strlit("one");
    reveal_strlit("two");
    reveal_strlit("three");
    reveal_strlit("five");
    reveal_strlit("eight");
    reveal_strlit("nine");
    reveal_strlit("twelve");
    reveal_strlit("th");
    reveal_strlit("ten");
    reveal_strlit("eleven");
    reveal_strlit("thirteen");
    reveal_strlit("fourteen");
    reveal_strlit("fifteen");
    reveal_strlit("sixteen");
    reveal_strlit("seventeen");
    reveal_strlit("eighteen");
    reveal_strlit("nineteen");
    reveal_strlit("tenth");
    reveal_strlit("eleventh");
    reveal_strlit("twelfth");
    reveal_strlit("thirteenth");
    reveal_strlit("fourteenth");
    reveal_strlit("fifteenth");
    reveal_strlit("sixteenth");
    reveal_strlit("seventeenth");
    reveal_strlit("eighteenth");
    reveal_strlit("nineteenth");
    let w = crate::grammar::teens_word(d);
    if d == 2 {
        lemma_ends_with_itself(seq![], w);
        assert(seq![] + w =~= w);
        lemma_not_ends_at(w, "y"@, 1);
        lemma_not_ends_at(w, "one"@, 2);
        lemma_not_ends_at(w, "two"@, 1);
        lemma_not_ends_at(w, "three"@, 2);
        lemma_not_ends_at(w, "five"@, 3);
        lemma_not_ends_at(w, "eight"@, 1);
        lemma_not_ends_at(w, "nine"@, 2);
        assert(w.take(0) + "twelfth"@ =~= small_ordinal(d + 10));
    } else {
        lemma_ordinal_of_plain_word(w);
        assert(w + "th"@ =~= small_ordinal(d + 10));
    }
}

/// The decades become their ordinals ("twenty" -> "twentieth").
proof fn lemma_ordinal_of_decade(d: nat)
    requires
        2 <= d <= 9,
    ensures
        crate::grammar::ordinal_of_word(crate::grammar::decade_word(d)) == decade_ordinal(d),
{
    reveal_strlit("y");
    reveal_strlit("ieth");
    reveal_strlit("twenty");
    reveal_strlit("thirty");
    reveal_strlit("forty");
    reveal_strlit("fifty");
    reveal_strlit("sixty");
    reveal_strlit("seventy");
    reveal_strlit("eighty");
    reveal_strlit("ninety");
    reveal_strlit("twentieth");
    reveal_strlit("thirtieth");
    reveal_strlit("fortieth");
    reveal_strlit("fiftieth");
    reveal_strlit("sixtieth");
    reveal_strlit("seventieth");
    reveal_strlit("eightieth");
    reveal_strlit("ninetieth");
    let w = crate::grammar::decade_word(d);
    assert(w.skip(w.len() - 1) =~= "y"@);
    assert(w.drop_last() + "ieth"@ =~= decade_ordinal(d));
}

/// The cardinal words of one to nine and of the decades are the English ones.
proof fn lemma_cardinal_words(d: nat)
    ensures
        1 <= d <= 9 ==> crate::grammar::ones_word(d) == unit_cardinal(d),
        2 <= d <= 9 ==> crate::grammar::decade_word(d) == decade_cardinal(d),
{
}

proof fn lemma_small_numbers_have_no_scale(n: nat, k: nat)
    requires
        n < 1000,
        k <= 6,
    ensures
        crate::grammar::scale_parts(n, k) == (Seq::<Seq<char>>::empty(), n),
    decreases 6 - k,
{
    if k < 6 {
        lemma_small_numbers_have_no_scale(n, k + 1);
    }
}

/// The ordinal word of the last two digits, 1 to 99.
proof fn lemma_ordinal_below_100(x: Seq<char>, m: nat)
    requires
        1 <= m <= 99,
    ensures
        ({
            let w = if 10 <= m < 20 {
                crate::grammar::teens_word((m - 10) as nat)
            } else if m / 10 >= 2 {
                if m % 10 > 0 {
                    crate::grammar::decade_word(m / 10) + "-"@ + crate::grammar::ones_word(m % 10)
                } else {
                    crate::grammar::decade_word(m / 10)
                }
            } else {
                crate::grammar::ones_word(m % 10)
            };
            crate::grammar::ordinal_of_word(w) == english_ordinal_below_100(m)
        }),
{
    if 10 <= m < 20 {
        lemma_ordinal_of_teen((m - 10) as nat);
    } else if m / 10 >= 2 {
        lemma_cardinal_words(m / 10);
        if m % 10 > 0 {
            let pre = crate::grammar::decade_word(m / 10) + "-"@;
            lemma_ordinal_of_unit(pre, m % 10);
        } else {
            lemma_ordinal_of_decade(m / 10);
        }
    } else {
        lemma_ordinal_of_unit(seq![], m % 10);
        assert(seq![] + crate::grammar::ones_word(m % 10) =~= crate::grammar::ones_word(m % 10));
        assert(seq![] + small_ordinal(m % 10) =~= small_ordinal(m % 10));
    }
}

proof fn lemma_words_below_100(n: nat)
    requires
        1 <= n < 100,
    ensures
        crate::grammar::words_lt_1000(n, true) == english_ordinal_below_1000(n),
{
    let p = crate::grammar::lt1000_parts(n);
    assert(n % 100 == n);
    lemma_ordinal_below_100(seq![], n);
    assert(p.len() == 1);
    let q = p.update(0, crate::grammar::ordinal_of_word(p[0]));
    assert(q.len() == 1);
    assert(crate::text::join(q, " "@) == q[0]);
}

proof fn lemma_words_round_hundreds(n: nat)
    requires
        100 <= n < 1000,
        n % 100 == 0,
    ensures
        crate::grammar::words_lt_1000(n, true) == english_ordinal_below_1000(n),
{
    reveal_strlit(" hundred");
    reveal_strlit(" hundredth");
    reveal_strlit("th");
    let p = crate::grammar::lt1000_parts(n);
    let h = crate::grammar::ones_word(n / 100) + " hundred"@;
    lemma_cardinal_words(n / 100);
    assert(p =~= seq![h]);
    assert(h.last() == 'd');
    lemma_ordinal_of_plain_word(h);
    assert(h + "th"@ =~= unit_cardinal(n / 100) + " hundredth"@);
    let q = p.update(0, crate::grammar::ordinal_of_word(p[0]));
    assert(q =~= seq![h + "th"@]);
    assert(crate::text::join(q, " "@) == q[0]);
}

proof fn lemma_words_hundreds_and(n: nat)
    requires
        100 <= n < 1000,
        n % 100 != 0,
    ensures
        crate::grammar::words_lt_1000(n, true) == english_ordinal_below_1000(n),
{
    reveal_strlit(" hundred");
    reveal_strlit(" hundred and ");
    reveal_strlit("and");
    reveal_strlit(" ");
    let m = n % 100;
    let p = crate::grammar::lt1000_parts(n);
    let h = crate::grammar::ones_word(n / 100) + " hundred"@;
    lemma_cardinal_words(n / 100);
    lemma_ordinal_below_100(seq![], m);
    assert(p.len() == 3);
    assert(p[0] == h);
    assert(p[1] == "and"@);
    let q = p.update(2, crate::grammar::ordinal_of_word(p[2]));
    assert(q[2] == english_ordinal_below_100(m));
    assert(q.drop_last().drop_last() =~= seq![h]);
    assert(q.drop_last() =~= seq![h, "and"@]);
    assert(crate::text::join(q.drop_last().drop_last(), " "@) == h);
    assert(crate::text::join(q.drop_last(), " "@) == h + " "@ + "and"@);
    assert(crate::text::join(q, " "@) == h + " "@ + "and"@ + " "@ + q[2]);
    assert(h + " "@ + "and"@ + " "@ + english_ordinal_below_100(m) =~= unit_cardinal(n / 100) + " hundred and "@
        + english_ordinal_below_100(m));
}

/// Numbers from 1 to 999 within the threshold are written as their English ordinals:
/// "fifth", "twenty-fifth", "ninetieth", "three hundredth", "one hundred and eleventh".
pub proof fn lemma_ordinal_words_are_english(n: nat, threshold: nat)
    requires
        1 <= n < 1000,
        n <= threshold,
    ensures
        ordinal_word(n, threshold) == english_ordinal_below_1000(n),
{
    lemma_small_numbers_have_no_scale(n, 0);
    let w = crate::grammar::words_lt_1000(n, true);
    assert(Seq::<Seq<char>>::empty().push(w) =~= seq![w]);
    assert(ordinal_word(n, threshold) == w);
    if n < 100 {
        lemma_words_below_100(n);
    } else if n % 100 == 0 {
        lemma_words_round_hundreds(n);
    } else {
        lemma_words_hundreds_and(n);
    }
}

proof fn lemma_scale_rest(rem: nat, k: nat)
    requires
        k <= 5,
    ensures
        crate::grammar::scale_parts(rem, k).1 == rem % 1000,
    decreases 6 - k,
{
    let sv = crate::grammar::scale_value(k);
    let c: int = if k == 0 { 1_000_000_000_000_000 } else if k == 1 { 1_000_000_000_000 } else if k == 2 {
        1_000_000_000
    } else if k == 3 { 1_000_000 } else if k == 4 { 1_000 } else { 1 };
    assert(sv == 1000 * c);
    if rem >= sv {
        assert(crate::grammar::scale_parts(rem, k).1 == crate::grammar::scale_parts(rem % sv, k + 1).1);
        if k < 5 {
            lemma_scale_rest(rem % sv, k + 1);
            vstd::arithmetic::div_mod::lemma_mod_mod(rem as int, 1000, c);
            assert((rem % sv) % 1000 == rem % 1000);
        } else {
            assert(crate::grammar::scale_parts(rem % sv, k + 1).1 == rem % sv);
        }
    } else {
        assert(crate::grammar::scale_parts(rem, k).1 == crate::grammar::scale_parts(rem, k + 1).1);
        if k < 5 {
            lemma_scale_rest(rem, k + 1);
        } else {
            assert(rem < 1000);
            assert(crate::grammar::scale_parts(rem, k + 1).1 == rem);
        }
    }
}

proof fn lemma_ends_with_trans(a: Seq<char>, b: Seq<char>, c: Seq<char>)
    requires
        crate::text::ends_with(a, b),
        crate::text::ends_with(b, c),
    ensures
        crate::text::ends_with(a, c),
{
    assert(a.skip(a.len() - c.len()) =~= b.skip(b.len() - c.len()));
}

proof fn lemma_words_end_in_english(rem: nat)
    requires
        1 <= rem < 1000,
        rem % 100 != 0,
    ensures
        crate::text::ends_with(crate::grammar::words_lt_1000(rem, true), english_ordinal_below_100(rem % 100)),
{
    if rem < 100 {
        lemma_words_below_100(rem);
        lemma_ends_with_itself(seq![], english_ordinal_below_100(rem % 100));
        assert(seq![] + english_ordinal_below_100(rem % 100) =~= english_ordinal_below_100(rem % 100));
    } else {
        lemma_words_hundreds_and(rem);
        lemma_ends_with_itself(unit_cardinal(rem / 100) + " hundred and "@, english_ordinal_below_100(rem % 100));
    }
}

proof fn lemma_join_ends_with_last(p: Seq<Seq<char>>, w: Seq<char>)
    ensures
        crate::text::ends_with(crate::text::join(p.push(w), " "@), w),
{
    let all = p.push(w);
    if p.len() == 0 {
        assert(crate::text::join(all, " "@) == w);
        lemma_ends_with_itself(seq![], w);
        assert(seq![] + w =~= w);
    } else {
        assert(all.drop_last() =~= p);
        assert(crate::text::join(all, " "@) == crate::text::join(p, " "@) + " "@ + w);
        lemma_ends_with_itself(crate::text::join(p, " "@) + " "@, w);
    }
}

/// Whatever its size, a number within the threshold whose last two digits are not both
/// zero ends in the English ordinal of those digits ("... and fifth", "... twenty-fifth").
pub proof fn lemma_ordinal_words_end_in_english(n: nat, threshold: nat)
    requires
        1 <= n <= threshold,
        n % 100 != 0,
    ensures
        crate::text::ends_with(ordinal_word(n, threshold), english_ordinal_below_100(n % 100)),
{
    lemma_scale_rest(n, 0);
    let (parts, rem) = crate::grammar::scale_parts(n, 0);
    vstd::arithmetic::div_mod::lemma_mod_mod(n as int, 100, 10);
    assert(rem % 100 == n % 100);
    let w = crate::grammar::words_lt_1000(rem, true);
    lemma_words_end_in_english(rem);
    let p = if parts.len() > 0 && rem < 100 { parts.push("and"@) } else { parts };
    assert(ordinal_word(n, threshold) == crate::text::join(p.push(w), " "@));
    lemma_join_ends_with_last(p, w);
    lemma_ends_with_trans(ordinal_word(n, threshold), w, english_ordinal_below_100(n % 100));
}

/// The definite article is "the " (or "The "), whatever the entity's number, when it is
/// shown and no ordinal is involved.
pub proof fn lemma_the_article(article: Seq<char>, name: Seq<char>, coll: Option<Seq<char>>, thr: nat, flags: ArticleFlags)
    requires
        eq_ignore_ascii_case(article, "the"@),
        !flags.is_proper_noun || flags.force_article,
        !flags.after_possessive || flags.force_article,
    ensures
        article_resolution(article, name, None, coll, thr, flags) == Some(
            cased(article_capitalised(article, flags), "The "@, "the "@),
        ),
{
    reveal_strlit("the");
    reveal_strlit("a");
    reveal_strlit("an");
    assert(article.len() == 3);
    assert(!eq_ignore_ascii_case(article, "a"@));
    assert(!eq_ignore_ascii_case(article, "an"@));
}

/// "another" agrees in number: "other " before a plural entity and "another " before a
/// single one, when it is shown and no ordinal is involved.
pub proof fn lemma_another_agrees_in_number(
    article: Seq<char>,
    name: Seq<char>,
    coll: Option<Seq<char>>,
    thr: nat,
    flags: ArticleFlags,
)
    requires
        eq_ignore_ascii_case(article, "another"@),
        !flags.is_proper_noun || flags.force_article,
        !flags.after_possessive || flags.force_article,
    ensures
        article_resolution(article, name, None, coll, thr, flags) == Some(
            if flags.is_plural {
                cased(article_capitalised(article, flags), "Other "@, "other "@)
            } else {
                cased(article_capitalised(article, flags), "Another "@, "another "@)
            },
        ),
{
    reveal_strlit("another");
    reveal_strlit("the");
    reveal_strlit("a");
    reveal_strlit("an");
    reveal_strlit("this");
    reveal_strlit("that");
    assert(article.len() == 7);
    assert(!eq_ignore_ascii_case(article, "a"@));
    assert(!eq_ignore_ascii_case(article, "an"@));
    assert(!eq_ignore_ascii_case(article, "the"@));
    assert(!eq_ignore_ascii_case(article, "this"@));
    assert(!eq_ignore_ascii_case(article, "that"@));
}

/// The indefinite article before a plural entity is "some " (or "Some "), when it is shown
/// and no ordinal is involved.
pub proof fn lemma_indefinite_plural_is_some(
    article: Seq<char>,
    name: Seq<char>,
    coll: Option<Seq<char>>,
    thr: nat,
    flags: ArticleFlags,
)
    requires
        eq_ignore_ascii_case(article, "a"@) || eq_ignore_ascii_case(article, "an"@),
        flags.is_plural,
        !flags.is_proper_noun || flags.force_article,
        !flags.after_possessive || flags.force_article,
    ensures
        article_resolution(article, name, None, coll, thr, flags) == Some(
            cased(article_capitalised(article, flags), "Some "@, "some "@),
        ),
{
}

/// In the past tense a regular verb ending in "e" takes "d" ("smile" -> "smiled"), and one
/// ending in any letter but "e" and "y" takes "ed" ("relax" -> "relaxed"), whoever the
/// subject is.
pub proof fn lemma_regular_past_forms(
    orig: Seq<char>,
    lower: Seq<char>,
    is_viewer: bool,
    is_plural: bool,
    stance: ActorStance,
    custom: Map<Seq<char>, (Seq<char>, Seq<char>)>,
)
    requires
        regular_single_word(lower, custom),
        lower.len() > 0,
        lower[lower.len() - 1] != 'y',
    ensures
        conjugation(orig, lower, false, is_viewer, is_plural, stance, Tense::Past, custom) == (if lower[lower.len() - 1]
            == 'e' {
            orig + "d"@
        } else {
            orig + "ed"@
        }),
{
    lemma_no_space_no_split(lower);
    reveal_strlit("do(aux)");
    reveal_strlit("be");
}

/// The viewer's pronouns ("you", "yourself", "I", "me", "my", "we", "ours", ...) refer
/// exactly to the remembered entities that are the viewer.
pub proof fn lemma_viewer_pronouns_refer_to_the_viewer(d: Seq<char>, r: RecentModel)
    requires
        d == "you"@ || d == "your"@ || d == "yours"@ || d == "yourself"@ || d == "yourselves"@ || d == "i"@ || d == "me"@ || d == "my"@ || d == "mine"@ || d == "myself"@ || d == "we"@ || d == "us"@ || d == "our"@ || d == "ours"@ || d == "ourselves"@,
    ensures
        is_pronoun(d),
        pronoun_fits(d, r) <==> (r.flags.is_viewer_normal || r.flags.is_viewer_forced),
{
    reveal_strlit("he");
    reveal_strlit("him");
    reveal_strlit("his");
    reveal_strlit("himself");
    reveal_strlit("she");
    reveal_strlit("her");
    reveal_strlit("hers");
    reveal_strlit("herself");
    reveal_strlit("it");
    reveal_strlit("its");
    reveal_strlit("itself");
    reveal_strlit("they");
    reveal_strlit("them");
    reveal_strlit("their");
    reveal_strlit("theirs");
    reveal_strlit("themselves");
    reveal_strlit("you");
    reveal_strlit("your");
    reveal_strlit("yours");
    reveal_strlit("yourself");
    reveal_strlit("yourselves");
    reveal_strlit("i");
    reveal_strlit("me");
    reveal_strlit("my");
    reveal_strlit("mine");
    reveal_strlit("myself");
    reveal_strlit("we");
    reveal_strlit("us");
    reveal_strlit("our");
    reveal_strlit("ours");
    reveal_strlit("ourselves");
    assert(crate::resolve::viewer_pronouns().contains(d)) by {
        if d == "you"@ { assert(crate::resolve::viewer_pronouns()[0] == d); }
        else if d == "your"@ { assert(crate::resolve::viewer_pronouns()[1] == d); }
        else if d == "yours"@ { assert(crate::resolve::viewer_pronouns()[2] == d); }
        else if d == "yourself"@ { assert(crate::resolve::viewer_pronouns()[3] == d); }
        else if d == "yourselves"@ { assert(crate::resolve::viewer_pronouns()[4] == d); }
        else if d == "i"@ { assert(crate::resolve::viewer_pronouns()[5] == d); }
        else if d == "me"@ { assert(crate::resolve::viewer_pronouns()[6] == d); }
        else if d == "my"@ { assert(crate::resolve::viewer_pronouns()[7] == d); }
        else if d == "mine"@ { assert(crate::resolve::viewer_pronouns()[8] == d); }
        else if d == "myself"@ { assert(crate::resolve::viewer_pronouns()[9] == d); }
        else if d == "we"@ { assert(crate::resolve::viewer_pronouns()[10] == d); }
        else if d == "us"@ { assert(crate::resolve::viewer_pronouns()[11] == d); }
        else if d == "our"@ { assert(crate::resolve::viewer_pronouns()[12] == d); }
        else if d == "ours"@ { assert(crate::resolve::viewer_pronouns()[13] == d); }
        else if d == "ourselves"@ { assert(crate::resolve::viewer_pronouns()[14] == d); }
    }
    assert(differ4(crate::resolve::male_pronouns()[0], d));
    assert(differ4(crate::resolve::male_pronouns()[1], d));
    assert(differ4(crate::resolve::male_pronouns()[2], d));
    assert(differ4(crate::resolve::male_pronouns()[3], d));
    assert(!crate::resolve::male_pronouns().contains(d));
    assert(differ4(crate::resolve::female_pronouns()[0], d));
    assert(differ4(crate::resolve::female_pronouns()[1], d));
    assert(differ4(crate::resolve::female_pronouns()[2], d));
    assert(differ4(crate::resolve::female_pronouns()[3], d));
    assert(!crate::resolve::female_pronouns().contains(d));
    assert(differ4(crate::resolve::neutral_pronouns()[0], d));
    assert(differ4(crate::resolve::neutral_pronouns()[1], d));
    assert(differ4(crate::resolve::neutral_pronouns()[2], d));
    assert(!crate::resolve::neutral_pronouns().contains(d));
    assert(differ4(crate::resolve::plural_pronouns()[0], d));
    assert(differ4(crate::resolve::plural_pronouns()[1], d));
    assert(differ4(crate::resolve::plural_pronouns()[2], d));
    assert(differ4(crate::resolve::plural_pronouns()[3], d));
    assert(differ4(crate::resolve::plural_pronouns()[4], d));
    assert(!crate::resolve::plural_pronouns().contains(d));
}

} // verus!
