//! Properties that relate several operations of an enumeration.
use vstd::prelude::*;
use std::cmp::Ordering;
use crate::codec::decode_spec;
use crate::hash::str_hash;
use crate::schema::{VariantSpec, canonicals};
use crate::str_enum::{StrEnum, Variant, accepts, first_match, lookup_spec};
use crate::table::{value_table_of, split_commas, lemma_split_join, parse_prefix, decode_prefix};
use crate::text::{lex_cmp, utf8_of, text_lt, lemma_lex_cmp_refl, lemma_lex_cmp_antisym};

verus! {

/// At most one variant is the first to accept a string.
pub proof fn lemma_first_match_unique(vs: Seq<VariantSpec>, s: Seq<char>, i: int, j: int)
    requires
        first_match(vs, s, i),
        first_match(vs, s, j),
    ensures
        i == j,
{
    if i < j {
        assert(!accepts(vs[i], s));
    } else if j < i {
        assert(!accepts(vs[j], s));
    }
}

/// Looking up a variant's canonical string gives that variant back, where
/// no earlier variant lists that string as an alias.
pub proof fn lemma_round_trip(e: &StrEnum, v: Variant, r: Option<Variant>)
    requires
        e.wf(),
        e.has(v),
        forall|j: int, k: int|
            0 <= j < v.index && 0 <= k < e.specs()[j].aliases@.len() ==> (
            #[trigger] e.specs()[j].aliases@[k])@ != e.canonical(v.index as int),
        lookup_spec(e.specs(), e.canonical(v.index as int), r),
    ensures
        r == Some(v),
{
    let vs = e.specs();
    let s = e.canonical(v.index as int);
    assert forall|j: int| 0 <= j < v.index implies !accepts(#[trigger] vs[j], s) by {
        assert(vs[j].canonical@ != vs[v.index as int].canonical@);
    }
    assert(first_match(vs, s, v.index as int));
    match r {
        Some(w) => lemma_first_match_unique(vs, s, w.index as int, v.index as int),
        None => assert(!accepts(vs[v.index as int], s)),
    }
}

/// Lookup is exact: a string that is no variant's canonical string nor
/// alias, such as one that differs from them only in case, finds nothing.
pub proof fn lemma_lookup_exact(e: &StrEnum, s: Seq<char>, r: Option<Variant>)
    requires
        forall|j: int| 0 <= j < e.count() ==> e.canonical(j) != s,
        forall|j: int, k: int|
            0 <= j < e.count() && 0 <= k < e.specs()[j].aliases@.len() ==> (
            #[trigger] e.specs()[j].aliases@[k])@ != s,
        lookup_spec(e.specs(), s, r),
    ensures
        r == None::<Variant>,
{
    if let Some(w) = r {
        let vs = e.specs();
        assert(accepts(vs[w.index as int], s));
        assert(e.canonical(w.index as int) != s);
        let k = choose|k: int| 0 <= k < vs[w.index as int].aliases@.len() && #[trigger] vs[w.index as int].aliases@[k]@ == s;
        assert(vs[w.index as int].aliases@[k]@ != s);
    }
}

/// Where the same alias is declared by variant `a` and later by variant `b`,
/// and no variant before `a` accepts it, lookup returns `a`.
pub proof fn lemma_alias_precedence(e: &StrEnum, s: Seq<char>, a: Variant, b: Variant, ka: int, kb: int, r: Option<Variant>)
    requires
        e.has(b),
        a.index < b.index,
        0 <= ka < e.specs()[a.index as int].aliases@.len(),
        0 <= kb < e.specs()[b.index as int].aliases@.len(),
        e.specs()[a.index as int].aliases@[ka]@ == s,
        e.specs()[b.index as int].aliases@[kb]@ == s,
        forall|j: int| 0 <= j < a.index ==> !accepts(#[trigger] e.specs()[j], s),
        lookup_spec(e.specs(), s, r),
    ensures
        r == Some(a),
{
    let vs = e.specs();
    assert(accepts(vs[a.index as int], s));
    assert(first_match(vs, s, a.index as int));
    match r {
        Some(w) => lemma_first_match_unique(vs, s, w.index as int, a.index as int),
        None => assert(!accepts(vs[a.index as int], s)),
    }
}

/// The value table, split on its commas, is the list of canonical strings,
/// where no canonical string holds a comma.
pub proof fn lemma_table_splits_into_values(e: &StrEnum)
    requires
        e.wf(),
        forall|i: int| 0 <= i < e.count() ==> !(#[trigger] e.canonical(i)).contains(','),
    ensures
        split_commas(value_table_of(e.specs())) == canonicals(e.specs()),
        forall|i: int| 0 <= i < e.count() ==> #[trigger] canonicals(e.specs())[i] == e.canonical(i),
{
    let cs = canonicals(e.specs());
    assert forall|i: int| 0 <= i < cs.len() implies !(#[trigger] cs[i]).contains(',') by {
        assert(cs[i] == e.canonical(i));
    }
    lemma_split_join(cs);
}

/// Where the canonical strings increase in declaration order, the order of
/// their text is declaration order.
pub proof fn lemma_order_follows_declaration(e: &StrEnum, a: Variant, b: Variant)
    requires
        e.has(a),
        e.has(b),
        forall|i: int, j: int|
            0 <= i < j < e.count() ==> text_lt(#[trigger] e.canonical(i), #[trigger] e.canonical(j)),
    ensures
        (lex_cmp(utf8_of(e.canonical(a.index as int)), utf8_of(e.canonical(b.index as int)))
            == Ordering::Less) <==> a.index < b.index,
{
    let x = utf8_of(e.canonical(a.index as int));
    let y = utf8_of(e.canonical(b.index as int));
    lemma_lex_cmp_antisym(x, y);
    if a.index == b.index {
        lemma_lex_cmp_refl(x);
    } else if b.index < a.index {
        assert(text_lt(e.canonical(b.index as int), e.canonical(a.index as int)));
        lemma_lex_cmp_antisym(y, x);
    }
}

/// Decoding the encoding of a variant gives it back, under the condition of
/// `lemma_round_trip`; a string that names no variant fails with the decode
/// diagnostic, which differs from the parse diagnostic.
pub proof fn lemma_decode_encode(e: &StrEnum, v: Variant, r: Result<Variant, crate::codec::DecodeError>)
    requires
        e.wf(),
        e.has(v),
        forall|j: int, k: int|
            0 <= j < v.index && 0 <= k < e.specs()[j].aliases@.len() ==> (
            #[trigger] e.specs()[j].aliases@[k])@ != e.canonical(v.index as int),
        decode_spec(e, e.canonical(v.index as int), r),
    ensures
        r matches Ok(w) && w == v,
{
    let l: Option<Variant> = match r {
        Ok(w) => Some(w),
        Err(_) => None,
    };
    lemma_round_trip(e, v, l);
}

/// The decode diagnostic is not the parse diagnostic.
pub proof fn lemma_diagnostics_differ(t: Seq<char>)
    ensures
        decode_prefix() + t != parse_prefix() + t,
{
    let d = decode_prefix() + t;
    let p = parse_prefix() + t;
    assert(d[0] == 'o');
    assert(p[0] == 'e');
}

/// A variant hashes as its canonical string does.
pub proof fn lemma_hash_consistent(e: &StrEnum, v: Variant, hv: u64, hs: u64)
    requires
        e.has(v),
        hv == str_hash(e.canonical(v.index as int)),
        hs == str_hash(e.canonical(v.index as int)),
    ensures
        hv == hs,
{
}

/// A variant and a string are the same key exactly when the string is the
/// variant's canonical string; then they hash alike. Distinct variants are
/// distinct keys. So a table keyed by variants finds by a string the entry
/// of the variant it names.
pub proof fn lemma_same_key(e: &StrEnum, v: Variant, w: Variant, s: Seq<char>)
    requires
        e.wf(),
        e.has(v),
        e.has(w),
        s == e.canonical(v.index as int),
    ensures
        str_hash(s) == str_hash(e.canonical(v.index as int)),
        (e.canonical(w.index as int) == s) <==> w == v,
{
    if w.index < v.index {
        assert(e.specs()[w.index as int].canonical@ != e.specs()[v.index as int].canonical@);
    } else if v.index < w.index {
        assert(e.specs()[v.index as int].canonical@ != e.specs()[w.index as int].canonical@);
    }
}

} // verus!
