//! Planning the combinations of viewer, stance, tense and entities under which a template
//! is tested.
use vstd::prelude::*;
use crate::grammar::string_views;
use crate::keymap::KeyMap;
use crate::models::{name_spec, ActorStance, Tense, TemplateEntity, NULL_VIEWER};
use crate::text::{append_str, decimal, string_of, usize_to_string};

verus! {

/// The most combinations that one plan may hold.
pub const MAX_COMBINATIONS: usize = 100000;

/// One combination of a template test: the viewer, stance and tense it is rendered under,
/// for each template key the index of its entity within the subset the key draws from,
/// and the description that prefixes its output.
#[derive(Debug)]
pub struct PermutationCase {
    pub viewer_id: String,
    pub stance: ActorStance,
    pub tense: Tense,
    pub entity_indices: Vec<usize>,
    pub description: String,
}

/// The plain-value model of a case.
pub open spec fn case_view(c: PermutationCase) -> (Seq<char>, ActorStance, Tense, Seq<usize>, Seq<char>) {
    (c.viewer_id@, c.stance, c.tense, c.entity_indices@, c.description@)
}

/// The models of a list of cases.
pub open spec fn case_views(cs: Seq<PermutationCase>) -> Seq<(Seq<char>, ActorStance, Tense, Seq<usize>, Seq<char>)> {
    cs.map_values(|c: PermutationCase| case_view(c))
}

/// The model of a plan's result.
pub open spec fn plan_view(r: Result<Vec<PermutationCase>, String>) -> Result<Seq<(Seq<char>, ActorStance, Tense, Seq<usize>, Seq<char>)>, Seq<char>> {
    match r {
        Ok(cs) => Ok(case_views(cs@)),
        Err(e) => Err(e@),
    }
}

/// The name of the subset a key is bound to; "actors" for an unbound key.
pub open spec fn bound_subset_name(bindings: Map<Seq<char>, String>, key: Seq<char>) -> Seq<char> {
    if bindings.contains_key(key) {
        bindings[key]@
    } else {
        "actors"@
    }
}

/// The entities a key draws from: the subset it is bound to, else the "actors" subset.
pub open spec fn key_subset(
    subsets: Map<Seq<char>, Vec<TemplateEntity>>,
    bindings: Map<Seq<char>, String>,
    key: Seq<char>,
) -> Option<Seq<TemplateEntity>> {
    let name = bound_subset_name(bindings, key);
    if subsets.contains_key(name) {
        Some(subsets[name]@)
    } else if subsets.contains_key("actors"@) {
        Some(subsets["actors"@]@)
    } else {
        None
    }
}

/// The number of ways to pick one entity from each subset of a table.
pub open spec fn table_product(table: Seq<Seq<TemplateEntity>>) -> nat
    decreases table.len(),
{
    if table.len() == 0 {
        1
    } else {
        table_product(table.drop_last()) * table.last().len()
    }
}

/// The sizes of the subsets of a table.
pub open spec fn table_bounds(table: Seq<Seq<TemplateEntity>>) -> Seq<usize> {
    table.map_values(|s: Seq<TemplateEntity>| s.len() as usize)
}

/// The message for a key whose subset cannot be found.
pub open spec fn subset_missing_message(name: Seq<char>) -> Seq<char> {
    "Subset '"@ + name + "' not found and no 'actors' fallback available."@
}

/// The message for a key whose subset is empty.
pub open spec fn subset_empty_message(name: Seq<char>) -> Seq<char> {
    "Subset '"@ + name + "' is empty."@
}

/// The message for a count of combinations that does not fit in a `usize`.
pub open spec fn overflow_message() -> Seq<char> {
    "Too many combinations: Overflow"@
}

/// The message for a plan with more combinations than `MAX_COMBINATIONS`.
pub open spec fn too_many_message(n: nat) -> Seq<char> {
    "Too many combinations: "@ + decimal(n) + ". Please test the template in smaller segments or with fewer entities."@
}

/// The subset each key draws from, in the order of the keys, or the first error met on
/// the way: a subset that cannot be found, an empty one, or a count of entity choices
/// that no longer fits in a `usize`.
pub open spec fn subset_table(
    keys: Seq<Seq<char>>,
    subsets: Map<Seq<char>, Vec<TemplateEntity>>,
    bindings: Map<Seq<char>, String>,
) -> Result<Seq<Seq<TemplateEntity>>, Seq<char>>
    decreases keys.len(),
{
    if keys.len() == 0 {
        Ok(seq![])
    } else {
        match subset_table(keys.drop_last(), subsets, bindings) {
            Err(e) => Err(e),
            Ok(table) => {
                let name = bound_subset_name(bindings, keys.last());
                match key_subset(subsets, bindings, keys.last()) {
                    None => Err(subset_missing_message(name)),
                    Some(sub) => if sub.len() == 0 {
                        Err(subset_empty_message(name))
                    } else if table_product(table) * sub.len() > usize::MAX {
                        Err(overflow_message())
                    } else {
                        Ok(table.push(sub))
                    },
                }
            },
        }
    }
}

/// The name `Debug` gives a stance.
pub open spec fn stance_label(s: ActorStance) -> Seq<char> {
    match s {
        ActorStance::FirstPerson => "FirstPerson"@,
        ActorStance::SecondPerson => "SecondPerson"@,
        ActorStance::ThirdPerson => "ThirdPerson"@,
    }
}

/// The name `Debug` gives a tense.
pub open spec fn tense_label(t: Tense) -> Seq<char> {
    match t {
        Tense::Present => "Present"@,
        Tense::Past => "Past"@,
        Tense::Future => "Future"@,
    }
}

/// The start of a case's description: "[Viewer: v, Stance, Tense] {", with ", Lookahead"
/// before the bracket when the pre-pass is on.
pub open spec fn case_header(viewer: Seq<char>, s: ActorStance, t: Tense, lookahead: bool) -> Seq<char> {
    "[Viewer: "@ + viewer + ", "@ + stance_label(s) + ", "@ + tense_label(t)
        + (if lookahead { ", Lookahead"@ } else { Seq::<char>::empty() }) + "] {"@
}

/// "key: name" for each key, separated by ", ".
pub open spec fn binding_list(keys: Seq<Seq<char>>, names: Seq<Seq<char>>) -> Seq<char>
    decreases keys.len(),
{
    if keys.len() == 0 {
        Seq::<char>::empty()
    } else {
        binding_list(keys.drop_last(), names) + (if keys.len() > 1 { ", "@ } else { Seq::<char>::empty() })
            + keys.last() + ": "@ + names[keys.len() - 1]
    }
}

/// The digits of `i` in the mixed radix given by `bounds`, least significant first.
pub open spec fn radix_digits(i: usize, bounds: Seq<usize>) -> Seq<usize>
    decreases bounds.len(),
{
    if bounds.len() == 0 {
        Seq::<usize>::empty()
    } else {
        seq![i % bounds[0]] + radix_digits(i / bounds[0], bounds.drop_first())
    }
}

/// The names, as no particular viewer sees them, of the entity each digit picks from its
/// subset.
pub open spec fn chosen_names(table: Seq<Seq<TemplateEntity>>, digits: Seq<usize>) -> Seq<Seq<char>> {
    Seq::new(table.len(), |j: int| name_spec(table[j][digits[j] as int], NULL_VIEWER@))
}

/// The `i`-th entity combination under a viewer, stance and tense.
pub open spec fn case_at(
    viewer: Seq<char>,
    s: ActorStance,
    t: Tense,
    i: usize,
    keys: Seq<Seq<char>>,
    table: Seq<Seq<TemplateEntity>>,
    lookahead: bool,
) -> (Seq<char>, ActorStance, Tense, Seq<usize>, Seq<char>) {
    let d = radix_digits(i, table_bounds(table));
    (viewer, s, t, d, case_header(viewer, s, t, lookahead) + binding_list(keys, chosen_names(table, d)) + "} -> "@)
}

/// The first `n` entity combinations under a viewer, stance and tense.
pub open spec fn index_cases(
    viewer: Seq<char>,
    s: ActorStance,
    t: Tense,
    n: nat,
    keys: Seq<Seq<char>>,
    table: Seq<Seq<TemplateEntity>>,
    lookahead: bool,
) -> Seq<(Seq<char>, ActorStance, Tense, Seq<usize>, Seq<char>)>
    decreases n,
{
    if n == 0 {
        seq![]
    } else {
        index_cases(viewer, s, t, (n - 1) as nat, keys, table, lookahead).push(case_at(viewer, s, t, (n - 1) as usize, keys, table, lookahead))
    }
}

/// The cases under a viewer and stance, tense by tense.
pub open spec fn tense_cases(
    viewer: Seq<char>,
    s: ActorStance,
    tenses: Seq<Tense>,
    keys: Seq<Seq<char>>,
    table: Seq<Seq<TemplateEntity>>,
    lookahead: bool,
) -> Seq<(Seq<char>, ActorStance, Tense, Seq<usize>, Seq<char>)>
    decreases tenses.len(),
{
    if tenses.len() == 0 {
        seq![]
    } else {
        tense_cases(viewer, s, tenses.drop_last(), keys, table, lookahead)
            + index_cases(viewer, s, tenses.last(), table_product(table), keys, table, lookahead)
    }
}

/// The cases under a viewer, stance by stance.
pub open spec fn stance_cases(
    viewer: Seq<char>,
    stances: Seq<ActorStance>,
    tenses: Seq<Tense>,
    keys: Seq<Seq<char>>,
    table: Seq<Seq<TemplateEntity>>,
    lookahead: bool,
) -> Seq<(Seq<char>, ActorStance, Tense, Seq<usize>, Seq<char>)>
    decreases stances.len(),
{
    if stances.len() == 0 {
        seq![]
    } else {
        stance_cases(viewer, stances.drop_last(), tenses, keys, table, lookahead)
            + tense_cases(viewer, stances.last(), tenses, keys, table, lookahead)
    }
}

/// All cases, viewer by viewer.
pub open spec fn viewer_cases(
    viewers: Seq<Seq<char>>,
    stances: Seq<ActorStance>,
    tenses: Seq<Tense>,
    keys: Seq<Seq<char>>,
    table: Seq<Seq<TemplateEntity>>,
    lookahead: bool,
) -> Seq<(Seq<char>, ActorStance, Tense, Seq<usize>, Seq<char>)>
    decreases viewers.len(),
{
    if viewers.len() == 0 {
        seq![]
    } else {
        viewer_cases(viewers.drop_last(), stances, tenses, keys, table, lookahead)
            + stance_cases(viewers.last(), stances, tenses, keys, table, lookahead)
    }
}

/// The plan for testing a template: the subset of each key (`subset_table`); then the
/// count of combinations, stances times tenses (0 when that product does not fit in a
/// `usize`) times entity choices times viewers (one when there are none), which must fit
/// in a `usize` and be at most `MAX_COMBINATIONS`;
/// then every case, by viewer, then stance, then tense, then entity combination.
pub open spec fn permutation_plan(
    keys: Seq<Seq<char>>,
    viewer_ids: Seq<Seq<char>>,
    stances: Seq<ActorStance>,
    tenses: Seq<Tense>,
    subsets: Map<Seq<char>, Vec<TemplateEntity>>,
    bindings: Map<Seq<char>, String>,
    lookahead: bool,
) -> Result<Seq<(Seq<char>, ActorStance, Tense, Seq<usize>, Seq<char>)>, Seq<char>> {
    match subset_table(keys, subsets, bindings) {
        Err(e) => Err(e),
        Ok(table) => {
            let viewer_count: nat = if viewer_ids.len() > 0 { viewer_ids.len() } else { 1 };
            let stance_tense: nat = if stances.len() * tenses.len() > usize::MAX { 0 } else { stances.len() * tenses.len() };
            let n = stance_tense * table_product(table) * viewer_count;
            if n > usize::MAX {
                Err(overflow_message())
            } else if n > MAX_COMBINATIONS {
                Err(too_many_message(n))
            } else {
                Ok(viewer_cases(viewer_ids, stances, tenses, keys, table, lookahead))
            }
        },
    }
}

spec fn ref_views(m: Seq<&Vec<TemplateEntity>>) -> Seq<Seq<TemplateEntity>> {
    m.map_values(|r: &Vec<TemplateEntity>| r@)
}

proof fn lemma_table_error_persists(
    keys: Seq<Seq<char>>,
    n: int,
    subsets: Map<Seq<char>, Vec<TemplateEntity>>,
    bindings: Map<Seq<char>, String>,
)
    requires
        0 <= n <= keys.len(),
        subset_table(keys.take(n), subsets, bindings) is Err,
    ensures
        subset_table(keys, subsets, bindings) == subset_table(keys.take(n), subsets, bindings),
    decreases keys.len(),
{
    if n == keys.len() {
        assert(keys.take(n) =~= keys);
    } else {
        assert(keys.drop_last().take(n) =~= keys.take(n));
        lemma_table_error_persists(keys.drop_last(), n, subsets, bindings);
    }
}

/// The name of the subset a key is bound to, and the subset it draws from.
pub fn subset_for_key<'a>(subsets: &'a KeyMap<Vec<TemplateEntity>>, bindings: &KeyMap<String>, key: &str) -> (r: (String, Option<&'a Vec<TemplateEntity>>))
    ensures
        r.0@ == bound_subset_name(bindings.map(), key@),
        match r.1 {
            Some(s) => key_subset(subsets.map(), bindings.map(), key@) == Some(s@),
            None => key_subset(subsets.map(), bindings.map(), key@) is None,
        },
{
    let name = match bindings.get(key) {
        Some(n) => n.clone(),
        None => String::from_str("actors"),
    };
    match subsets.get(name.as_str()) {
        Some(s) => (name, Some(s)),
        None => {
            let fallback = subsets.get("actors");
            (name, fallback)
        },
    }
}

fn subset_message(name: &str, missing: bool) -> (r: String)
    ensures
        r@ == (if missing { subset_missing_message(name@) } else { subset_empty_message(name@) }),
{
    let mut v: Vec<char> = Vec::new();
    append_str(&mut v, "Subset '");
    append_str(&mut v, name);
    if missing {
        append_str(&mut v, "' not found and no 'actors' fallback available.");
    } else {
        append_str(&mut v, "' is empty.");
    }
    assert(v@ =~= (if missing { subset_missing_message(name@) } else { subset_empty_message(name@) }));
    string_of(&v)
}

fn overflow_text() -> (r: String)
    ensures
        r@ == overflow_message(),
{
    String::from_str("Too many combinations: Overflow")
}

fn too_many_text(n: usize) -> (r: String)
    ensures
        r@ == too_many_message(n as nat),
{
    let mut v: Vec<char> = Vec::new();
    append_str(&mut v, "Too many combinations: ");
    let d = usize_to_string(n);
    append_str(&mut v, d.as_str());
    append_str(&mut v, ". Please test the template in smaller segments or with fewer entities.");
    assert(v@ =~= too_many_message(n as nat));
    string_of(&v)
}

fn stance_text(s: ActorStance) -> (r: &'static str)
    ensures
        r@ == stance_label(s),
{
    match s {
        ActorStance::FirstPerson => "FirstPerson",
        ActorStance::SecondPerson => "SecondPerson",
        ActorStance::ThirdPerson => "ThirdPerson",
    }
}

fn tense_text(t: Tense) -> (r: &'static str)
    ensures
        r@ == tense_label(t),
{
    match t {
        Tense::Present => "Present",
        Tense::Past => "Past",
        Tense::Future => "Future",
    }
}

fn radix_digits_exec(i: usize, bounds: &Vec<usize>) -> (d: Vec<usize>)
    requires
        forall|j: int| 0 <= j < bounds.len() ==> #[trigger] bounds@[j] > 0,
    ensures
        d@ == radix_digits(i, bounds@),
        d.len() == bounds.len(),
        forall|j: int| 0 <= j < d.len() ==> #[trigger] d@[j] < bounds@[j],
{
    let mut d: Vec<usize> = Vec::new();
    let mut temp: usize = i;
    let mut j: usize = 0;
    assert(bounds@.skip(0) =~= bounds@);
    while j < bounds.len()
        invariant
            j <= bounds.len(),
            d.len() == j,
            forall|k: int| 0 <= k < bounds.len() ==> #[trigger] bounds@[k] > 0,
            forall|k: int| 0 <= k < j ==> #[trigger] d@[k] < bounds@[k],
            d@ + radix_digits(temp, bounds@.skip(j as int)) == radix_digits(i, bounds@),
        decreases bounds.len() - j,
    {
        let b = bounds[j];
        let ghost rest = bounds@.skip(j as int);
        assert(rest.drop_first() =~= bounds@.skip(j + 1));
        assert(rest[0] == b);
        let ghost d0 = d@;
        d.push(temp % b);
        assert(d@ + radix_digits(temp / b, bounds@.skip(j + 1)) =~= d0 + radix_digits(temp, rest));
        temp = temp / b;
        j = j + 1;
    }
    assert(bounds@.skip(j as int) =~= Seq::<usize>::empty());
    assert(d@ + Seq::<usize>::empty() =~= d@);
    d
}

fn case_description(
    viewer: &str,
    s: ActorStance,
    t: Tense,
    lookahead: bool,
    keys: &Vec<String>,
    mapped: &Vec<&Vec<TemplateEntity>>,
    digits: &Vec<usize>,
) -> (r: String)
    requires
        keys.len() == mapped.len(),
        digits.len() == mapped.len(),
        forall|j: int| 0 <= j < digits.len() ==> #[trigger] digits@[j] < mapped@[j].len(),
    ensures
        r@ == case_header(viewer@, s, t, lookahead) + binding_list(string_views(keys@), chosen_names(ref_views(mapped@), digits@)) + "} -> "@,
{
    let ghost ks = string_views(keys@);
    let ghost names = chosen_names(ref_views(mapped@), digits@);
    let mut v: Vec<char> = Vec::new();
    append_str(&mut v, "[Viewer: ");
    append_str(&mut v, viewer);
    append_str(&mut v, ", ");
    append_str(&mut v, stance_text(s));
    append_str(&mut v, ", ");
    append_str(&mut v, tense_text(t));
    if lookahead {
        append_str(&mut v, ", Lookahead");
    }
    append_str(&mut v, "] {");
    let ghost header = case_header(viewer@, s, t, lookahead);
    assert(v@ =~= header);
    let mut j: usize = 0;
    assert(ks.take(0) =~= Seq::<Seq<char>>::empty());
    while j < keys.len()
        invariant
            j <= keys.len(),
            keys.len() == mapped.len(),
            digits.len() == mapped.len(),
            forall|k: int| 0 <= k < digits.len() ==> #[trigger] digits@[k] < mapped@[k].len(),
            ks == string_views(keys@),
            names == chosen_names(ref_views(mapped@), digits@),
            v@ == header + binding_list(ks.take(j as int), names),
        decreases keys.len() - j,
    {
        let ghost v0 = v@;
        let ghost pre = ks.take(j + 1);
        assert(pre.drop_last() =~= ks.take(j as int));
        assert(pre.last() == keys@[j as int]@);
        assert(pre.len() - 1 == j);
        if j > 0 {
            append_str(&mut v, ", ");
        }
        append_str(&mut v, keys[j].as_str());
        append_str(&mut v, ": ");
        let sub: &Vec<TemplateEntity> = mapped[j];
        let nm = sub[digits[j]].display_name_for(NULL_VIEWER);
        assert(nm@ == names[j as int]);
        append_str(&mut v, nm.as_str());
        assert(v@ =~= header + binding_list(pre, names));
        j = j + 1;
    }
    assert(ks.take(j as int) =~= ks);
    append_str(&mut v, "} -> ");
    string_of(&v)
}

fn push_index_cases(
    out: &mut Vec<PermutationCase>,
    viewer: &String,
    s: ActorStance,
    t: Tense,
    keys: &Vec<String>,
    mapped: &Vec<&Vec<TemplateEntity>>,
    bounds: &Vec<usize>,
    perms: usize,
    lookahead: bool,
)
    requires
        keys.len() == mapped.len(),
        bounds@ == table_bounds(ref_views(mapped@)),
        forall|j: int| 0 <= j < mapped.len() ==> #[trigger] mapped@[j].len() > 0,
    ensures
        case_views(final(out)@) == case_views(old(out)@) + index_cases(viewer@, s, t, perms as nat, string_views(keys@), ref_views(mapped@), lookahead),
{
    let ghost ks = string_views(keys@);
    let ghost tb = ref_views(mapped@);
    let ghost out0 = case_views(out@);
    let mut i: usize = 0;
    assert(out0 + index_cases(viewer@, s, t, 0, ks, tb, lookahead) =~= out0);
    while i < perms
        invariant
            i <= perms,
            keys.len() == mapped.len(),
            bounds@ == table_bounds(tb),
            tb == ref_views(mapped@),
            ks == string_views(keys@),
            forall|j: int| 0 <= j < mapped.len() ==> #[trigger] mapped@[j].len() > 0,
            case_views(out@) == out0 + index_cases(viewer@, s, t, i as nat, ks, tb, lookahead),
        decreases perms - i,
    {
        assert forall|j: int| 0 <= j < bounds.len() implies #[trigger] bounds@[j] > 0 by {
            assert(bounds@[j] == tb[j].len() as usize);
            assert(mapped@[j].len() > 0);
        }
        let digits = radix_digits_exec(i, bounds);
        assert forall|j: int| 0 <= j < digits.len() implies #[trigger] digits@[j] < mapped@[j].len() by {
            assert(bounds@[j] == tb[j].len() as usize);
        }
        let description = case_description(viewer.as_str(), s, t, lookahead, keys, mapped, &digits);
        let c = PermutationCase { viewer_id: viewer.clone(), stance: s, tense: t, entity_indices: digits, description };
        assert(case_view(c) == case_at(viewer@, s, t, i, ks, tb, lookahead));
        let ghost before = case_views(out@);
        out.push(c);
        assert(case_views(out@) =~= before.push(case_view(c)));
        i = i + 1;
        assert(case_views(out@) =~= out0 + index_cases(viewer@, s, t, i as nat, ks, tb, lookahead));
    }
}

fn push_tense_cases(
    out: &mut Vec<PermutationCase>,
    viewer: &String,
    s: ActorStance,
    tenses: &Vec<Tense>,
    keys: &Vec<String>,
    mapped: &Vec<&Vec<TemplateEntity>>,
    bounds: &Vec<usize>,
    perms: usize,
    lookahead: bool,
)
    requires
        keys.len() == mapped.len(),
        bounds@ == table_bounds(ref_views(mapped@)),
        perms == table_product(ref_views(mapped@)),
        forall|j: int| 0 <= j < mapped.len() ==> #[trigger] mapped@[j].len() > 0,
    ensures
        case_views(final(out)@) == case_views(old(out)@) + tense_cases(viewer@, s, tenses@, string_views(keys@), ref_views(mapped@), lookahead),
{
    let ghost ks = string_views(keys@);
    let ghost tb = ref_views(mapped@);
    let ghost out0 = case_views(out@);
    let mut i: usize = 0;
    assert(tenses@.take(0) =~= Seq::<Tense>::empty());
    assert(out0 + tense_cases(viewer@, s, tenses@.take(0), ks, tb, lookahead) =~= out0);
    while i < tenses.len()
        invariant
            i <= tenses.len(),
            keys.len() == mapped.len(),
            bounds@ == table_bounds(tb),
            perms == table_product(tb),
            tb == ref_views(mapped@),
            ks == string_views(keys@),
            forall|j: int| 0 <= j < mapped.len() ==> #[trigger] mapped@[j].len() > 0,
            case_views(out@) == out0 + tense_cases(viewer@, s, tenses@.take(i as int), ks, tb, lookahead),
        decreases tenses.len() - i,
    {
        let ghost pre = tenses@.take(i + 1);
        assert(pre.drop_last() =~= tenses@.take(i as int));
        assert(pre.last() == tenses@[i as int]);
        let ghost mid = case_views(out@);
        push_index_cases(out, viewer, s, tenses[i], keys, mapped, bounds, perms, lookahead);
        assert(case_views(out@) =~= out0 + tense_cases(viewer@, s, pre, ks, tb, lookahead));
        i = i + 1;
    }
    assert(tenses@.take(i as int) =~= tenses@);
}

fn push_stance_cases(
    out: &mut Vec<PermutationCase>,
    viewer: &String,
    stances: &Vec<ActorStance>,
    tenses: &Vec<Tense>,
    keys: &Vec<String>,
    mapped: &Vec<&Vec<TemplateEntity>>,
    bounds: &Vec<usize>,
    perms: usize,
    lookahead: bool,
)
    requires
        keys.len() == mapped.len(),
        bounds@ == table_bounds(ref_views(mapped@)),
        perms == table_product(ref_views(mapped@)),
        forall|j: int| 0 <= j < mapped.len() ==> #[trigger] mapped@[j].len() > 0,
    ensures
        case_views(final(out)@) == case_views(old(out)@) + stance_cases(viewer@, stances@, tenses@, string_views(keys@), ref_views(mapped@), lookahead),
{
    let ghost ks = string_views(keys@);
    let ghost tb = ref_views(mapped@);
    let ghost out0 = case_views(out@);
    let mut i: usize = 0;
    assert(stances@.take(0) =~= Seq::<ActorStance>::empty());
    assert(out0 + stance_cases(viewer@, stances@.take(0), tenses@, ks, tb, lookahead) =~= out0);
    while i < stances.len()
        invariant
            i <= stances.len(),
            keys.len() == mapped.len(),
            bounds@ == table_bounds(tb),
            perms == table_product(tb),
            tb == ref_views(mapped@),
            ks == string_views(keys@),
            forall|j: int| 0 <= j < mapped.len() ==> #[trigger] mapped@[j].len() > 0,
            case_views(out@) == out0 + stance_cases(viewer@, stances@.take(i as int), tenses@, ks, tb, lookahead),
        decreases stances.len() - i,
    {
        let ghost pre = stances@.take(i + 1);
        assert(pre.drop_last() =~= stances@.take(i as int));
        assert(pre.last() == stances@[i as int]);
        push_tense_cases(out, viewer, stances[i], tenses, keys, mapped, bounds, perms, lookahead);
        assert(case_views(out@) =~= out0 + stance_cases(viewer@, pre, tenses@, ks, tb, lookahead));
        i = i + 1;
    }
    assert(stances@.take(i as int) =~= stances@);
}

fn all_cases(
    viewer_ids: &Vec<String>,
    stances: &Vec<ActorStance>,
    tenses: &Vec<Tense>,
    keys: &Vec<String>,
    mapped: &Vec<&Vec<TemplateEntity>>,
    bounds: &Vec<usize>,
    perms: usize,
    lookahead: bool,
) -> (out: Vec<PermutationCase>)
    requires
        keys.len() == mapped.len(),
        bounds@ == table_bounds(ref_views(mapped@)),
        perms == table_product(ref_views(mapped@)),
        forall|j: int| 0 <= j < mapped.len() ==> #[trigger] mapped@[j].len() > 0,
    ensures
        case_views(out@) == viewer_cases(string_views(viewer_ids@), stances@, tenses@, string_views(keys@), ref_views(mapped@), lookahead),
{
    let ghost ks = string_views(keys@);
    let ghost tb = ref_views(mapped@);
    let ghost vs = string_views(viewer_ids@);
    let mut out: Vec<PermutationCase> = Vec::new();
    let mut i: usize = 0;
    assert(vs.take(0) =~= Seq::<Seq<char>>::empty());
    assert(case_views(out@) =~= viewer_cases(vs.take(0), stances@, tenses@, ks, tb, lookahead));
    while i < viewer_ids.len()
        invariant
            i <= viewer_ids.len(),
            keys.len() == mapped.len(),
            bounds@ == table_bounds(tb),
            perms == table_product(tb),
            tb == ref_views(mapped@),
            ks == string_views(keys@),
            vs == string_views(viewer_ids@),
            forall|j: int| 0 <= j < mapped.len() ==> #[trigger] mapped@[j].len() > 0,
            case_views(out@) == viewer_cases(vs.take(i as int), stances@, tenses@, ks, tb, lookahead),
        decreases viewer_ids.len() - i,
    {
        let ghost pre = vs.take(i + 1);
        assert(pre.drop_last() =~= vs.take(i as int));
        assert(pre.last() == viewer_ids@[i as int]@);
        push_stance_cases(&mut out, &viewer_ids[i], stances, tenses, keys, mapped, bounds, perms, lookahead);
        assert(case_views(out@) =~= viewer_cases(pre, stances@, tenses@, ks, tb, lookahead));
        i = i + 1;
    }
    assert(vs.take(i as int) =~= vs);
    out
}

/// Plans the test of a template under every combination of viewer, stance, tense and
/// entities (see `permutation_plan`): each key draws its entity from the subset its
/// binding names, or from "actors".
pub fn plan_template_permutations(
    keys: &Vec<String>,
    viewer_ids: &Vec<String>,
    stances: &Vec<ActorStance>,
    tenses: &Vec<Tense>,
    subsets: &KeyMap<Vec<TemplateEntity>>,
    bindings: &KeyMap<String>,
    lookahead: bool,
) -> (r: Result<Vec<PermutationCase>, String>)
    ensures
        plan_view(r) == permutation_plan(string_views(keys@), string_views(viewer_ids@), stances@, tenses@, subsets.map(), bindings.map(), lookahead),
{
    let ghost ks = string_views(keys@);
    let ghost sm = subsets.map();
    let ghost bm = bindings.map();
    let mut mapped: Vec<&Vec<TemplateEntity>> = Vec::new();
    let mut bounds: Vec<usize> = Vec::new();
    let mut perms: usize = 1;
    let mut i: usize = 0;
    assert(ks.take(0) =~= Seq::<Seq<char>>::empty());
    assert(ref_views(mapped@) =~= Seq::<Seq<TemplateEntity>>::empty());
    assert(table_bounds(ref_views(mapped@)) =~= bounds@);
    while i < keys.len()
        invariant
            i <= keys.len(),
            ks == string_views(keys@),
            sm == subsets.map(),
            bm == bindings.map(),
            mapped.len() == i,
            subset_table(ks.take(i as int), sm, bm) == Ok::<Seq<Seq<TemplateEntity>>, Seq<char>>(ref_views(mapped@)),
            bounds@ == table_bounds(ref_views(mapped@)),
            perms == table_product(ref_views(mapped@)),
            forall|j: int| 0 <= j < mapped.len() ==> #[trigger] mapped@[j].len() > 0,
        decreases keys.len() - i,
    {
        let ghost tb = ref_views(mapped@);
        let ghost pre = ks.take(i + 1);
        assert(pre.drop_last() =~= ks.take(i as int));
        assert(pre.last() == keys@[i as int]@);
        let (name, found) = subset_for_key(subsets, bindings, keys[i].as_str());
        match found {
            None => {
                proof {
                    lemma_table_error_persists(ks, i + 1, sm, bm);
                }
                return Err(subset_message(name.as_str(), true));
            },
            Some(sub) => {
                if sub.len() == 0 {
                    proof {
                        lemma_table_error_persists(ks, i + 1, sm, bm);
                    }
                    return Err(subset_message(name.as_str(), false));
                }
                match perms.checked_mul(sub.len()) {
                    None => {
                        proof {
                            lemma_table_error_persists(ks, i + 1, sm, bm);
                        }
                        return Err(overflow_text());
                    },
                    Some(p) => {
                        perms = p;
                        mapped.push(sub);
                        bounds.push(sub.len());
                        assert(ref_views(mapped@) =~= tb.push(sub@));
                        assert(ref_views(mapped@).drop_last() =~= tb);
                        assert(table_bounds(ref_views(mapped@)) =~= table_bounds(tb).push(sub@.len() as usize));
                    },
                }
            },
        }
        i = i + 1;
    }
    assert(ks.take(i as int) =~= ks);
    let ghost table = ref_views(mapped@);
    let stance_tense: usize = match stances.len().checked_mul(tenses.len()) {
        Some(x) => x,
        None => 0,
    };
    let viewer_count: usize = if viewer_ids.len() > 0 { viewer_ids.len() } else { 1 };
    let combinations = match stance_tense.checked_mul(perms) {
        None => {
            assert(stance_tense * perms * viewer_count > usize::MAX) by (nonlinear_arith)
                requires
                    stance_tense * perms > usize::MAX,
                    viewer_count >= 1,
            ;
            return Err(overflow_text());
        },
        Some(a) => match a.checked_mul(viewer_count) {
            None => {
                return Err(overflow_text());
            },
            Some(c) => c,
        },
    };
    if combinations > MAX_COMBINATIONS {
        return Err(too_many_text(combinations));
    }
    Ok(all_cases(viewer_ids, stances, tenses, keys, &mapped, &bounds, perms, lookahead))
}

/// The output line of a case: its description, then the rendered text, or "ERROR: " and
/// the error when rendering failed.
pub fn permutation_output(case: &PermutationCase, rendered: Result<String, String>) -> (r: String)
    ensures
        r@ == case.description@ + (match rendered {
            Ok(text) => text@,
            Err(e) => "ERROR: "@ + e@,
        }),
{
    let mut v: Vec<char> = Vec::new();
    append_str(&mut v, case.description.as_str());
    match rendered {
        Ok(text) => {
            append_str(&mut v, text.as_str());
        },
        Err(e) => {
            append_str(&mut v, "ERROR: ");
            append_str(&mut v, e.as_str());
        },
    }
    assert(v@ =~= case.description@ + (match rendered {
        Ok(text) => text@,
        Err(e) => "ERROR: "@ + e@,
    }));
    string_of(&v)
}

/// The start of the description of a fixed context: "[Stance, Tense] {", with
/// ", Lookahead" before the bracket when the pre-pass is on.
pub open spec fn context_header(s: ActorStance, t: Tense, lookahead: bool) -> Seq<char> {
    "["@ + stance_label(s) + ", "@ + tense_label(t)
        + (if lookahead { ", Lookahead"@ } else { Seq::<char>::empty() }) + "] {"@
}

/// "key: name" for each key that the entities hold, separated by ", "; keys they lack are
/// left out.
pub open spec fn found_bindings(keys: Seq<Seq<char>>, entities: Map<Seq<char>, TemplateEntity>) -> Seq<char>
    decreases keys.len(),
{
    if keys.len() == 0 {
        Seq::<char>::empty()
    } else {
        let before = found_bindings(keys.drop_last(), entities);
        if entities.contains_key(keys.last()) {
            before + (if before.len() > 0 { ", "@ } else { Seq::<char>::empty() }) + keys.last() + ": "@
                + name_spec(entities[keys.last()], NULL_VIEWER@)
        } else {
            before
        }
    }
}

/// Describes a fixed context that a template is tested in (see `context_header` and
/// `found_bindings`), ending with " -> ".
pub fn context_description(
    stance: ActorStance,
    tense: Tense,
    lookahead: bool,
    keys: &Vec<String>,
    entities: &KeyMap<TemplateEntity>,
) -> (r: String)
    ensures
        r@ == context_header(stance, tense, lookahead) + found_bindings(string_views(keys@), entities.map()) + "} -> "@,
{
    let ghost ks = string_views(keys@);
    let ghost header = context_header(stance, tense, lookahead);
    let mut v: Vec<char> = Vec::new();
    append_str(&mut v, "[");
    append_str(&mut v, stance_text(stance));
    append_str(&mut v, ", ");
    append_str(&mut v, tense_text(tense));
    if lookahead {
        append_str(&mut v, ", Lookahead");
    }
    append_str(&mut v, "] {");
    assert(v@ =~= header);
    let mut any = false;
    let mut i: usize = 0;
    assert(ks.take(0) =~= Seq::<Seq<char>>::empty());
    while i < keys.len()
        invariant
            i <= keys.len(),
            ks == string_views(keys@),
            v@ == header + found_bindings(ks.take(i as int), entities.map()),
            any == (found_bindings(ks.take(i as int), entities.map()).len() > 0),
        decreases keys.len() - i,
    {
        let ghost pre = ks.take(i + 1);
        assert(pre.drop_last() =~= ks.take(i as int));
        assert(pre.last() == keys@[i as int]@);
        let ghost before = found_bindings(ks.take(i as int), entities.map());
        match entities.get(keys[i].as_str()) {
            Some(e) => {
                if any {
                    append_str(&mut v, ", ");
                }
                append_str(&mut v, keys[i].as_str());
                append_str(&mut v, ": ");
                let nm = e.display_name_for(NULL_VIEWER);
                append_str(&mut v, nm.as_str());
                assert(v@ =~= header + found_bindings(pre, entities.map()));
                proof {
                    reveal_strlit(": ");
                    assert(found_bindings(pre, entities.map()).len() >= ": "@.len());
                }
                any = true;
            },
            None => {
                assert(found_bindings(pre, entities.map()) == before);
            },
        }
        i = i + 1;
    }
    assert(ks.take(i as int) =~= ks);
    append_str(&mut v, "} -> ");
    string_of(&v)
}

} // verus!
