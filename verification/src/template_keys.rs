//! The entity keys that a template's tags name, collected once each in the order in which
//! they first occur, so that rendering can resolve them ahead of time.
use vstd::prelude::*;
use crate::expressions::{cond_model, value_model, CondModel, Condition, ConditionValue, ValueModel};
use crate::parser::{segment_model, TagSegment};
use crate::tags::{opt_segment, TokenModel};
use crate::template::{branches_model, lemma_branches, tokens_model, tpl_model, Token, TplModel};
use crate::text::{chars_of, last_char_index, rfind_char, str_eq, string_of, subrange_of};

verus! {

/// The entity part of a property path: what precedes its last '.', if it has one.
pub open spec fn path_owner(key: Seq<char>) -> Seq<Seq<char>> {
    match last_char_index(key, '.') {
        Some(i) => seq![key.take(i)],
        None => seq![],
    }
}

/// The keys that a segment naming an entity refers to: a literal's text, or the entity
/// part of a variable's property path.
pub open spec fn entity_segment_keys(t: TagSegment) -> Seq<Seq<char>> {
    match t {
        TagSegment::Literal(k) => seq![k@],
        TagSegment::Variable { key, .. } => path_owner(key@),
    }
}

/// The keys that any other segment refers to: the entity part of a variable's property
/// path; a literal refers to none.
pub open spec fn value_segment_keys(t: TagSegment) -> Seq<Seq<char>> {
    match t {
        TagSegment::Literal(_) => seq![],
        TagSegment::Variable { key, .. } => path_owner(key@),
    }
}

/// `f` of an optional segment, or nothing.
pub open spec fn opt_keys(o: Option<TagSegment>, entity: bool) -> Seq<Seq<char>> {
    match o {
        Some(t) => if entity { entity_segment_keys(t) } else { value_segment_keys(t) },
        None => seq![],
    }
}

/// The list after each candidate not yet in it is appended, in order.
pub open spec fn with_new_keys(acc: Seq<Seq<char>>, cands: Seq<Seq<char>>) -> Seq<Seq<char>>
    decreases cands.len(),
{
    if cands.len() == 0 {
        acc
    } else {
        let prev = with_new_keys(acc, cands.drop_last());
        if prev.contains(cands.last()) { prev } else { prev.push(cands.last()) }
    }
}

/// Appends a key unless the list holds it already.
fn push_new_key(keys: &mut Vec<String>, k: &str)
    ensures
        final(keys)@.map_values(|s: String| s@) == (if old(keys)@.map_values(|s: String| s@).contains(k@) {
            old(keys)@.map_values(|s: String| s@)
        } else {
            old(keys)@.map_values(|s: String| s@).push(k@)
        }),
{
    let ghost v = keys@.map_values(|s: String| s@);
    let mut i: usize = 0;
    while i < keys.len()
        invariant
            i <= keys.len(),
            v == keys@.map_values(|s: String| s@),
            forall|j: int| 0 <= j < i ==> v[j] != k@,
        decreases keys.len() - i,
    {
        if str_eq(keys[i].as_str(), k) {
            assert(v[i as int] == k@);
            return;
        }
        i = i + 1;
    }
    keys.push(String::from_str(k));
    assert(keys@.map_values(|s: String| s@) =~= v.push(k@));
}

/// Appends the entity part of a property path (see `path_owner`).
fn push_path_owner(keys: &mut Vec<String>, key: &str)
    ensures
        final(keys)@.map_values(|s: String| s@) == with_new_keys(old(keys)@.map_values(|s: String| s@), path_owner(key@)),
{
    let kc = chars_of(key);
    match rfind_char(&kc, '.') {
        Some(i) => {
            let ent = string_of(&subrange_of(&kc, 0, i));
            assert(kc@.subrange(0, i as int) =~= key@.take(i as int));
            let ghost v = keys@.map_values(|s: String| s@);
            push_new_key(keys, ent.as_str());
            assert(seq![key@.take(i as int)].drop_last() =~= Seq::<Seq<char>>::empty());
            assert(with_new_keys(v, seq![key@.take(i as int)]) == (if v.contains(key@.take(i as int)) { v } else { v.push(key@.take(i as int)) })) by {
                reveal_with_fuel(with_new_keys, 2);
            }
        },
        None => {},
    }
}

/// Appends the keys of a segment (see `entity_segment_keys`, `value_segment_keys`).
fn push_segment_keys(keys: &mut Vec<String>, seg: &TagSegment, entity: bool)
    ensures
        final(keys)@.map_values(|s: String| s@) == with_new_keys(
            old(keys)@.map_values(|s: String| s@),
            if entity { entity_segment_keys(*seg) } else { value_segment_keys(*seg) },
        ),
{
    match seg {
        TagSegment::Literal(k) => {
            if entity {
                let ghost v = keys@.map_values(|s: String| s@);
                push_new_key(keys, k.as_str());
                assert(seq![k@].drop_last() =~= Seq::<Seq<char>>::empty());
                assert(with_new_keys(v, seq![k@]) == (if v.contains(k@) { v } else { v.push(k@) })) by {
                    reveal_with_fuel(with_new_keys, 2);
                }
            }
        },
        TagSegment::Variable { key, .. } => {
            push_path_owner(keys, key.as_str());
        },
    }
}

/// Appending candidates in two runs is appending them all.
proof fn lemma_with_new_keys_concat(acc: Seq<Seq<char>>, a: Seq<Seq<char>>, b: Seq<Seq<char>>)
    ensures
        with_new_keys(with_new_keys(acc, a), b) == with_new_keys(acc, a + b),
    decreases b.len(),
{
    if b.len() == 0 {
        assert(a + b =~= a);
    } else {
        lemma_with_new_keys_concat(acc, a, b.drop_last());
        assert((a + b).drop_last() =~= a + b.drop_last());
        assert((a + b).last() == b.last());
    }
}

/// Appends the keys of an optional segment (see `opt_keys`).
fn push_opt_segment_keys(keys: &mut Vec<String>, seg: &Option<TagSegment>, entity: bool)
    ensures
        final(keys)@.map_values(|s: String| s@) == with_new_keys(old(keys)@.map_values(|s: String| s@), opt_keys(*seg, entity)),
{
    match seg {
        Some(t) => push_segment_keys(keys, t, entity),
        None => {},
    }
}

/// The keys that a segment model refers to (see `entity_segment_keys`, `value_segment_keys`).
pub open spec fn seg_keys(m: Result<Seq<char>, (Seq<char>, Option<Seq<char>>)>, entity: bool) -> Seq<Seq<char>> {
    match m {
        Ok(k) => if entity { seq![k] } else { seq![] },
        Err((key, _)) => path_owner(key),
    }
}

/// The keys of an optional segment model.
pub open spec fn opt_seg_keys(m: Option<Result<Seq<char>, (Seq<char>, Option<Seq<char>>)>>, entity: bool) -> Seq<Seq<char>> {
    match m {
        Some(x) => seg_keys(x, entity),
        None => seq![],
    }
}

/// The keys that a tag refers to, in the order in which they are met: an entity
/// reference's key and owner, then the keys behind its article, pronoun type and
/// adjectives; a verb's subject and the entity of its verb variable; a variable's entity.
pub open spec fn tag_keys(t: TokenModel) -> Seq<Seq<char>> {
    match t {
        TokenModel::Entity { key, article, p_type, owner_key, adjectives, .. } =>
            seg_keys(key, true) + opt_seg_keys(owner_key, true) + opt_seg_keys(article, false) + opt_seg_keys(p_type, false)
                + opt_seg_keys(adjectives, false),
        TokenModel::Verb { subject_key, dynamic_key, .. } => opt_seg_keys(subject_key, true) + match dynamic_key {
            Some(d) => path_owner(d),
            None => seq![],
        },
        TokenModel::Variable { key, .. } => path_owner(key),
        _ => seq![],
    }
}

/// The keys that a condition value refers to: an entity property's entity.
pub open spec fn value_keys(v: ValueModel) -> Seq<Seq<char>> {
    match v {
        ValueModel::EntityProperty(e, _) => seq![e],
        _ => seq![],
    }
}

/// The keys that a condition refers to, left to right.
pub open spec fn cond_keys(c: CondModel) -> Seq<Seq<char>>
    decreases c,
{
    match c {
        CondModel::Value(v) => value_keys(v),
        CondModel::Not(b) => cond_keys(*b),
        CondModel::And(l, r) => cond_keys(*l) + cond_keys(*r),
        CondModel::Or(l, r) => cond_keys(*l) + cond_keys(*r),
        CondModel::Eq(a, b) => value_keys(a) + value_keys(b),
        CondModel::NotEq(a, b) => value_keys(a) + value_keys(b),
        CondModel::Gt(a, b) => value_keys(a) + value_keys(b),
        CondModel::Lt(a, b) => value_keys(a) + value_keys(b),
        CondModel::GtEq(a, b) => value_keys(a) + value_keys(b),
        CondModel::LtEq(a, b) => value_keys(a) + value_keys(b),
    }
}

/// The keys that a template token refers to: a tag's (`tag_keys`); for a conditional block,
/// each branch's condition and then its body, and then the fallback.
pub open spec fn tpl_keys(m: TplModel) -> Seq<Seq<char>>
    decreases m, 0nat,
{
    match m {
        TplModel::Literal(_) => seq![],
        TplModel::Tag(t) => tag_keys(t),
        TplModel::Conditional { branches, fallback } => branch_keys(branches, branches.len()) + match fallback {
            Some(f) => seq_keys(f, f.len()),
            None => seq![],
        },
    }
}

/// The keys of the first `n` tokens, token after token.
pub open spec fn seq_keys(s: Seq<TplModel>, n: nat) -> Seq<Seq<char>>
    decreases s, n,
{
    if n == 0 || n > s.len() {
        seq![]
    } else {
        seq_keys(s, (n - 1) as nat) + tpl_keys(s[n - 1])
    }
}

/// The keys of the first `n` branches: each condition's, then its body's.
pub open spec fn branch_keys(s: Seq<(CondModel, Seq<TplModel>)>, n: nat) -> Seq<Seq<char>>
    decreases s, n,
{
    if n == 0 || n > s.len() {
        seq![]
    } else {
        branch_keys(s, (n - 1) as nat) + cond_keys(s[n - 1].0) + seq_keys(s[n - 1].1, s[n - 1].1.len())
    }
}

/// The keys of a list of template tokens.
pub open spec fn template_token_keys(ms: Seq<TplModel>) -> Seq<Seq<char>> {
    seq_keys(ms, ms.len())
}

/// The size of a template token: one, and for a conditional block the sizes of its bodies.
pub open spec fn tpl_size(m: TplModel) -> nat
    decreases m, 0nat,
{
    match m {
        TplModel::Conditional { branches, fallback } => 1 + branch_size(branches, branches.len()) + match fallback {
            Some(f) => seq_size(f, f.len()),
            None => 0,
        },
        _ => 1,
    }
}

/// The size of the first `n` tokens.
pub open spec fn seq_size(s: Seq<TplModel>, n: nat) -> nat
    decreases s, n,
{
    if n == 0 || n > s.len() { 0 } else { seq_size(s, (n - 1) as nat) + tpl_size(s[n - 1]) }
}

/// The size of the bodies of the first `n` branches.
pub open spec fn branch_size(s: Seq<(CondModel, Seq<TplModel>)>, n: nat) -> nat
    decreases s, n,
{
    if n == 0 || n > s.len() { 0 } else { branch_size(s, (n - 1) as nat) + seq_size(s[n - 1].1, s[n - 1].1.len()) }
}

pub(crate) proof fn lemma_tpl_size_pos(m: TplModel)
    ensures
        tpl_size(m) >= 1,
        m matches TplModel::Conditional { branches, fallback } ==> tpl_size(m) > branch_size(branches, branches.len())
            && (fallback matches Some(f) ==> tpl_size(m) > seq_size(f, f.len())),
{
}

pub(crate) proof fn lemma_seq_size(s: Seq<TplModel>, n: nat, i: int)
    requires
        0 <= i < n <= s.len(),
    ensures
        tpl_size(s[i]) <= seq_size(s, n),
    decreases n,
{
    if i < n - 1 {
        lemma_seq_size(s, (n - 1) as nat, i);
    }
}

pub(crate) proof fn lemma_branch_size(s: Seq<(CondModel, Seq<TplModel>)>, n: nat, i: int)
    requires
        0 <= i < n <= s.len(),
    ensures
        seq_size(s[i].1, s[i].1.len()) <= branch_size(s, n),
    decreases n,
{
    if i < n - 1 {
        lemma_branch_size(s, (n - 1) as nat, i);
    }
}

/// The keys of a segment model are those of the segment.
proof fn lemma_seg_keys(t: TagSegment, entity: bool)
    ensures
        seg_keys(segment_model(t), entity) == (if entity { entity_segment_keys(t) } else { value_segment_keys(t) }),
{
}

/// The keys of an optional segment model are those of the segment.
proof fn lemma_opt_seg_keys(o: Option<TagSegment>, entity: bool)
    ensures
        opt_seg_keys(opt_segment(o), entity) == opt_keys(o, entity),
{
    match o {
        Some(t) => lemma_seg_keys(t, entity),
        None => {},
    }
}

/// The view of a list of keys.
pub open spec fn keys_view(v: Seq<String>) -> Seq<Seq<char>> {
    v.map_values(|s: String| s@)
}

/// Appends the keys of a condition value (see `value_keys`).
fn push_value_keys(keys: &mut Vec<String>, v: &ConditionValue)
    ensures
        keys_view(final(keys)@) == with_new_keys(keys_view(old(keys)@), value_keys(value_model(*v))),
{
    match v {
        ConditionValue::EntityProperty(e, _) => {
            let ghost k0 = keys_view(keys@);
            push_new_key(keys, e.as_str());
            assert(seq![e@].drop_last() =~= Seq::<Seq<char>>::empty());
            assert(with_new_keys(k0, seq![e@]) == (if k0.contains(e@) { k0 } else { k0.push(e@) })) by {
                reveal_with_fuel(with_new_keys, 2);
            }
        },
        _ => {},
    }
}

/// Appends the keys of two condition values.
fn push_pair_keys(keys: &mut Vec<String>, a: &ConditionValue, b: &ConditionValue)
    ensures
        keys_view(final(keys)@) == with_new_keys(keys_view(old(keys)@), value_keys(value_model(*a)) + value_keys(value_model(*b))),
{
    let ghost k0 = keys_view(keys@);
    push_value_keys(keys, a);
    push_value_keys(keys, b);
    proof {
        lemma_with_new_keys_concat(k0, value_keys(value_model(*a)), value_keys(value_model(*b)));
    }
}

/// Appends the keys of a condition (see `cond_keys`).
fn push_cond_keys(keys: &mut Vec<String>, c: &Condition)
    ensures
        keys_view(final(keys)@) == with_new_keys(keys_view(old(keys)@), cond_keys(cond_model(*c))),
    decreases c,
{
    let ghost k0 = keys_view(keys@);
    match c {
        Condition::Value(v) => push_value_keys(keys, v),
        Condition::Not(b) => push_cond_keys(keys, b),
        Condition::And(l, r) => {
            push_cond_keys(keys, l);
            push_cond_keys(keys, r);
            proof {
                lemma_with_new_keys_concat(k0, cond_keys(cond_model(**l)), cond_keys(cond_model(**r)));
            }
        },
        Condition::Or(l, r) => {
            push_cond_keys(keys, l);
            push_cond_keys(keys, r);
            proof {
                lemma_with_new_keys_concat(k0, cond_keys(cond_model(**l)), cond_keys(cond_model(**r)));
            }
        },
        Condition::Eq(a, b) => push_pair_keys(keys, a, b),
        Condition::NotEq(a, b) => push_pair_keys(keys, a, b),
        Condition::Gt(a, b) => push_pair_keys(keys, a, b),
        Condition::Lt(a, b) => push_pair_keys(keys, a, b),
        Condition::GtEq(a, b) => push_pair_keys(keys, a, b),
        Condition::LtEq(a, b) => push_pair_keys(keys, a, b),
    }
}

/// Appends the keys of an entity tag's segments.
fn push_entity_keys(
    keys: &mut Vec<String>,
    key: &TagSegment,
    owner_key: &Option<TagSegment>,
    article: &Option<TagSegment>,
    p_type: &Option<TagSegment>,
    adjectives: &Option<TagSegment>,
)
    ensures
        keys_view(final(keys)@) == with_new_keys(
            keys_view(old(keys)@),
            seg_keys(segment_model(*key), true) + opt_seg_keys(opt_segment(*owner_key), true) + opt_seg_keys(opt_segment(*article), false)
                + opt_seg_keys(opt_segment(*p_type), false) + opt_seg_keys(opt_segment(*adjectives), false),
        ),
{
    let ghost v0 = keys_view(keys@);
    push_segment_keys(keys, key, true);
    push_opt_segment_keys(keys, owner_key, true);
    push_opt_segment_keys(keys, article, false);
    push_opt_segment_keys(keys, p_type, false);
    push_opt_segment_keys(keys, adjectives, false);
    proof {
        lemma_seg_keys(*key, true);
        lemma_opt_seg_keys(*owner_key, true);
        lemma_opt_seg_keys(*article, false);
        lemma_opt_seg_keys(*p_type, false);
        lemma_opt_seg_keys(*adjectives, false);
        let k1 = entity_segment_keys(*key);
        let k2 = opt_keys(*owner_key, true);
        let k3 = opt_keys(*article, false);
        let k4 = opt_keys(*p_type, false);
        let k5 = opt_keys(*adjectives, false);
        lemma_with_new_keys_concat(v0, k1, k2);
        lemma_with_new_keys_concat(v0, k1 + k2, k3);
        lemma_with_new_keys_concat(v0, k1 + k2 + k3, k4);
        lemma_with_new_keys_concat(v0, k1 + k2 + k3 + k4, k5);
    }
}

/// Appends the keys of a template token (see `tpl_keys`).
fn push_token_keys(keys: &mut Vec<String>, t: &Token)
    ensures
        keys_view(final(keys)@) == with_new_keys(keys_view(old(keys)@), tpl_keys(tpl_model(*t))),
    decreases tpl_size(tpl_model(*t)), 0nat,
{
    let ghost v0 = keys_view(keys@);
    match t {
        Token::EntityRef { key, article, p_type, owner_key, adjectives, .. } => {
            push_entity_keys(keys, key, owner_key, article, p_type, adjectives);
        },
        Token::VerbRef { subject_key, dynamic_key, .. } => {
            push_opt_segment_keys(keys, subject_key, true);
            let ghost k2 = match dynamic_key { Some(d) => path_owner(d@), None => Seq::<Seq<char>>::empty() };
            match dynamic_key {
                Some(d) => push_path_owner(keys, d.as_str()),
                None => {},
            }
            proof {
                lemma_opt_seg_keys(*subject_key, true);
                lemma_with_new_keys_concat(v0, opt_keys(*subject_key, true), k2);
            }
        },
        Token::VariableRef { key, .. } => {
            push_path_owner(keys, key.as_str());
        },
        Token::Conditional { branches, fallback } => {
            let ghost bm = branches_model(branches@, branches@.len());
            let mut i: usize = 0;
            proof {
                lemma_branches(branches@, branches@.len());
                lemma_tpl_size_pos(tpl_model(*t));
            }
            while i < branches.len()
                invariant
                    i <= branches.len(),
                    tpl_size(tpl_model(*t)) > branch_size(bm, bm.len()),
                    bm == branches_model(branches@, branches@.len()),
                    bm.len() == branches@.len(),
                    forall|k: int| 0 <= k < branches@.len() ==> #[trigger] bm[k] == (cond_model(branches@[k].condition), tokens_model(branches@[k].body@)),
                    keys_view(keys@) == with_new_keys(v0, branch_keys(bm, i as nat)),
                decreases branches.len() - i,
            {
                let ghost before = keys_view(keys@);
                let br = &branches[i];
                push_cond_keys(keys, &br.condition);
                proof {
                    crate::template::lemma_tpl_seq(br.body@, br.body@.len());
                    assert(bm[i as int].1 == tokens_model(br.body@));
                    lemma_branch_size(bm, bm.len(), i as int);
                    assert(seq_size(tokens_model(br.body@), br.body@.len()) < tpl_size(tpl_model(*t)));
                }
                push_tokens_keys(keys, &br.body);
                proof {
                    assert(bm[i as int] == (cond_model(br.condition), tokens_model(br.body@)));
                    lemma_with_new_keys_concat(v0, branch_keys(bm, i as nat), cond_keys(cond_model(br.condition)));
                    lemma_with_new_keys_concat(v0, branch_keys(bm, i as nat) + cond_keys(cond_model(br.condition)), seq_keys(tokens_model(br.body@), br.body@.len()));
                    crate::template::lemma_tpl_seq(br.body@, br.body@.len());
                    assert(tokens_model(br.body@).len() == br.body@.len());
                }
                i = i + 1;
            }
            match fallback {
                Some(f) => {
                    proof {
                        crate::template::lemma_tpl_seq(f@, f@.len());
                        lemma_tpl_size_pos(tpl_model(*t));
                        assert(seq_size(tokens_model(f@), f@.len()) < tpl_size(tpl_model(*t)));
                    }
                    push_tokens_keys(keys, f);
                    proof {
                        crate::template::lemma_tpl_seq(f@, f@.len());
                        lemma_with_new_keys_concat(v0, branch_keys(bm, bm.len()), seq_keys(tokens_model(f@), f@.len()));
                    }
                },
                None => {
                    assert(branch_keys(bm, bm.len()) + Seq::<Seq<char>>::empty() =~= branch_keys(bm, bm.len()));
                },
            }
        },
        _ => {},
    }
}

/// Appends the keys of a list of template tokens, each only when the list does not hold it
/// yet, in the order in which they are met (see `template_token_keys`, `with_new_keys`).
fn push_tokens_keys(keys: &mut Vec<String>, tokens: &Vec<Token>)
    ensures
        keys_view(final(keys)@) == with_new_keys(keys_view(old(keys)@), template_token_keys(tokens_model(tokens@))),
    decreases seq_size(tokens_model(tokens@), tokens@.len()), 1nat,
{
    let ghost v0 = keys_view(keys@);
    let ghost tm = tokens_model(tokens@);
    proof {
        crate::template::lemma_tpl_seq(tokens@, tokens@.len());
    }
    let mut i: usize = 0;
    while i < tokens.len()
        invariant
            i <= tokens.len(),
            tm == tokens_model(tokens@),
            tm.len() == tokens@.len(),
            forall|k: int| 0 <= k < tokens@.len() ==> #[trigger] tm[k] == tpl_model(tokens@[k]),
            keys_view(keys@) == with_new_keys(v0, seq_keys(tm, i as nat)),
        decreases tokens.len() - i,
    {
        proof {
            lemma_seq_size(tm, tm.len(), i as int);
        }
        push_token_keys(keys, &tokens[i]);
        proof {
            lemma_with_new_keys_concat(v0, seq_keys(tm, i as nat), tpl_keys(tm[i as int]));
        }
        i = i + 1;
    }
}

/// The keys of a template's tokens, once each, in the order in which they are first met.
pub fn extract_keys(tokens: &Vec<Token>) -> (r: Vec<String>)
    ensures
        keys_view(r@) == with_new_keys(seq![], template_token_keys(tokens_model(tokens@))),
{
    let mut keys: Vec<String> = Vec::new();
    assert(keys_view(keys@) =~= Seq::<Seq<char>>::empty());
    push_tokens_keys(&mut keys, tokens);
    keys
}

} // verus!
