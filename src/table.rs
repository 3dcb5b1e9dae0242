//! The value table: the canonical strings joined by commas, and the
//! diagnostic strings derived from it.
use vstd::prelude::*;
use vstd::string::StringExecFns;
use crate::schema::{VariantSpec, canonicals};
use vstd::utf8::{encode_utf8, encode_scalar};
use crate::text::{utf8_of, lemma_utf8_concat};

verus! {

/// The strings of `xs` joined by single commas, with none at the end.
pub open spec fn join_commas(xs: Seq<Seq<char>>) -> Seq<char>
    decreases xs.len(),
{
    if xs.len() == 0 {
        Seq::empty()
    } else if xs.len() == 1 {
        xs[0]
    } else {
        join_commas(xs.drop_last()) + seq![','] + xs.last()
    }
}

/// The index of the last comma in `s`, or -1 where there is none.
pub open spec fn last_comma(s: Seq<char>) -> int
    decreases s.len(),
{
    if s.len() == 0 {
        -1
    } else if s.last() == ',' {
        s.len() - 1
    } else {
        last_comma(s.drop_last())
    }
}

/// The pieces of `s` between its commas, in order.
pub open spec fn split_commas(s: Seq<char>) -> Seq<Seq<char>>
    decreases s.len(),
{
    let k = last_comma(s);
    if k < 0 || k >= s.len() {
        seq![s]
    } else {
        split_commas(s.take(k)).push(s.skip(k + 1))
    }
}

/// The number of bytes in the UTF-8 encodings of all of `xs`.
pub open spec fn total_bytes(xs: Seq<Seq<char>>) -> int
    decreases xs.len(),
{
    if xs.len() == 0 {
        0
    } else {
        total_bytes(xs.drop_last()) + utf8_of(xs.last()).len()
    }
}

/// The byte length of the value table of `xs`.
pub open spec fn table_len(xs: Seq<Seq<char>>) -> int {
    total_bytes(xs) + xs.len() - 1
}

/// The value table of a variant list.
pub open spec fn value_table_of(vs: Seq<VariantSpec>) -> Seq<char> {
    join_commas(canonicals(vs))
}

/// The parse diagnostic's wrapping text.
pub open spec fn parse_prefix() -> Seq<char> {
    seq!['e', 'x', 'p', 'e', 'c', 't', 'e', 'd', ' ', 'o', 'n', 'e', ' ', 'o', 'f', ' ', '[']
}

/// The serialization diagnostic's wrapping text.
pub open spec fn decode_prefix() -> Seq<char> {
    seq!['o', 'n', 'e', ' ', 'o', 'f', ' ', '[']
}

/// The closing text of both diagnostics.
pub open spec fn diagnostic_suffix() -> Seq<char> {
    seq![']']
}

/// Where `t` has no comma, the last comma of `p` , `t` is the one before `t`.
proof fn lemma_last_comma_before(p: Seq<char>, t: Seq<char>)
    requires
        !t.contains(','),
    ensures
        last_comma(p + seq![','] + t) == p.len(),
    decreases t.len(),
{
    let s = p + seq![','] + t;
    if t.len() == 0 {
        assert(s.last() == ',');
    } else {
        assert(t.last() != ',') by {
            assert(t[t.len() - 1] == t.last());
        }
        assert(s.last() == t.last());
        assert(s.drop_last() =~= p + seq![','] + t.drop_last());
        assert(!t.drop_last().contains(',')) by {
            if t.drop_last().contains(',') {
                let k = choose|k: int| 0 <= k < t.drop_last().len() && t.drop_last()[k] == ',';
                assert(t[k] == ',');
            }
        }
        lemma_last_comma_before(p, t.drop_last());
    }
}

/// A string without commas has none to find.
proof fn lemma_last_comma_none(t: Seq<char>)
    requires
        !t.contains(','),
    ensures
        last_comma(t) == -1,
    decreases t.len(),
{
    if t.len() > 0 {
        assert(t.last() != ',') by {
            assert(t[t.len() - 1] == t.last());
        }
        assert(!t.drop_last().contains(',')) by {
            if t.drop_last().contains(',') {
                let k = choose|k: int| 0 <= k < t.drop_last().len() && t.drop_last()[k] == ',';
                assert(t[k] == ',');
            }
        }
        lemma_last_comma_none(t.drop_last());
    }
}

/// Splitting a joined list on its commas gives the list back, where no
/// piece holds a comma.
pub proof fn lemma_split_join(xs: Seq<Seq<char>>)
    requires
        xs.len() >= 1,
        forall|i: int| 0 <= i < xs.len() ==> !(#[trigger] xs[i]).contains(','),
    ensures
        split_commas(join_commas(xs)) == xs,
    decreases xs.len(),
{
    if xs.len() == 1 {
        lemma_last_comma_none(xs[0]);
        assert(seq![xs[0]] =~= xs);
    } else {
        let init = xs.drop_last();
        let p = join_commas(init);
        let s = p + seq![','] + xs.last();
        assert(!xs.last().contains(',')) by {
            assert(xs[xs.len() - 1] == xs.last());
        }
        lemma_last_comma_before(p, xs.last());
        assert(s.take(p.len() as int) =~= p);
        assert(s.skip(p.len() as int + 1) =~= xs.last());
        assert forall|i: int| 0 <= i < init.len() implies !(#[trigger] init[i]).contains(',') by {
            assert(init[i] == xs[i]);
        }
        lemma_split_join(init);
        assert(init.push(xs.last()) =~= xs);
    }
}

/// A comma takes one byte.
proof fn lemma_comma_byte()
    ensures
        utf8_of(seq![',']).len() == 1,
{
    let s = seq![','];
    assert(s.len() == 1 && s[0] == ',');
    assert(s.drop_first() =~= Seq::<char>::empty());
    assert(encode_utf8(s.drop_first()) =~= Seq::<u8>::empty());
    assert((',' as u32) == 44u32);
    assert(encode_scalar(44u32).len() == 1);
}

/// The value table of `xs` has `table_len(xs)` bytes.
pub proof fn lemma_table_len(xs: Seq<Seq<char>>)
    requires
        xs.len() >= 1,
    ensures
        utf8_of(join_commas(xs)).len() == table_len(xs),
    decreases xs.len(),
{
    if xs.len() == 1 {
        assert(xs.drop_last().len() == 0);
        assert(total_bytes(xs.drop_last()) == 0);
        assert(xs.last() == xs[0]);
    } else {
        let init = xs.drop_last();
        lemma_table_len(init);
        lemma_comma_byte();
        lemma_utf8_concat(join_commas(init), seq![',']);
        lemma_utf8_concat(join_commas(init) + seq![','], xs.last());
        assert(join_commas(xs) == join_commas(init) + seq![','] + xs.last());
        assert(total_bytes(xs) == total_bytes(init) + utf8_of(xs.last()).len());
    }
}

proof fn lemma_join_step(xs: Seq<Seq<char>>, i: int)
    requires
        1 <= i < xs.len(),
    ensures
        join_commas(xs.take(i + 1)) == join_commas(xs.take(i)) + seq![','] + xs[i],
{
    assert(xs.take(i + 1).drop_last() =~= xs.take(i));
    assert(xs.take(i + 1).last() == xs[i]);
}

proof fn lemma_total_step(xs: Seq<Seq<char>>, i: int)
    requires
        0 <= i < xs.len(),
    ensures
        total_bytes(xs.take(i + 1)) == total_bytes(xs.take(i)) + utf8_of(xs[i]).len(),
{
    assert(xs.take(i + 1).drop_last() =~= xs.take(i));
    assert(xs.take(i + 1).last() == xs[i]);
}

/// Relies on `String::with_capacity`: the string it returns is empty,
/// whatever room it reserved.
#[verifier::external_body]
fn string_with_capacity(n: usize) -> (r: String)
    requires
        n <= isize::MAX,
    ensures
        r@ == Seq::<char>::empty(),
{
    String::with_capacity(n)
}

/// The byte length of the value table of `vs`, or `None` where it does not
/// fit in a `usize`.
pub fn value_table_len(vs: &Vec<VariantSpec>) -> (r: Option<usize>)
    requires
        vs@.len() >= 1,
    ensures
        match r {
            Some(n) => n == table_len(canonicals(vs@)),
            None => table_len(canonicals(vs@)) > usize::MAX,
        },
{
    let ghost cs = canonicals(vs@);
    let mut total: usize = 0;
    let mut i: usize = 0;
    assert(cs.take(0).len() == 0);
    while i < vs.len()
        invariant
            cs == canonicals(vs@),
            i <= vs@.len(),
            total == total_bytes(cs.take(i as int)),
        decreases vs@.len() - i,
    {
        proof {
            lemma_total_step(cs, i as int);
        }
        let b = vs[i].canonical.as_str().as_bytes().len();
        assert(b == utf8_of(cs[i as int]).len());
        match total.checked_add(b) {
            Some(t) => total = t,
            None => {
                proof {
                    lemma_total_prefix_le(cs, i as int + 1);
                }
                return None;
            },
        }
        i = i + 1;
    }
    assert(cs.take(vs@.len() as int) =~= cs);
    total.checked_add(vs.len() - 1)
}

/// Every prefix of a list has at most the bytes of the whole.
proof fn lemma_total_prefix_le(xs: Seq<Seq<char>>, i: int)
    requires
        0 <= i <= xs.len(),
    ensures
        total_bytes(xs.take(i)) <= total_bytes(xs),
    decreases xs.len() - i,
{
    if i < xs.len() {
        lemma_total_step(xs, i);
        lemma_total_prefix_le(xs, i + 1);
    } else {
        assert(xs.take(i) =~= xs);
    }
}

/// `prefix`, then the canonical strings of `vs` joined by commas, then
/// `suffix`: the value table with its wrapping text. The length is worked
/// out first and the string reserved once.
pub fn wrapped_table(vs: &Vec<VariantSpec>, prefix: &str, suffix: &str) -> (r: String)
    requires
        vs@.len() >= 1,
    ensures
        r@ == prefix@ + value_table_of(vs@) + suffix@,
{
    let ghost cs = canonicals(vs@);
    let cap: usize = match value_table_len(vs) {
        Some(n) => match n.checked_add(prefix.as_bytes().len()) {
            Some(m) => match m.checked_add(suffix.as_bytes().len()) {
                Some(k) => if k <= isize::MAX as usize { k } else { 0 },
                None => 0,
            },
            None => 0,
        },
        None => 0,
    };
    let mut r = string_with_capacity(cap);
    r.append(prefix);
    r.append(vs[0].canonical.as_str());
    proof {
        reveal_strlit(",");
        assert(cs.take(1).len() == 1);
        assert(join_commas(cs.take(1)) == cs[0]);
        assert(r@ =~= prefix@ + join_commas(cs.take(1)));
    }
    let mut i: usize = 1;
    while i < vs.len()
        invariant
            cs == canonicals(vs@),
            1 <= i <= vs@.len(),
            r@ == prefix@ + join_commas(cs.take(i as int)),
            ","@ == seq![','],
        decreases vs@.len() - i,
    {
        proof {
            lemma_join_step(cs, i as int);
        }
        r.append(",");
        r.append(vs[i].canonical.as_str());
        assert(r@ =~= prefix@ + join_commas(cs.take(i + 1)));
        i = i + 1;
    }
    assert(cs.take(vs@.len() as int) =~= cs);
    r.append(suffix);
    r
}

/// The value table of `vs`: its canonical strings, in declaration order,
/// joined by single commas.
pub fn value_table(vs: &Vec<VariantSpec>) -> (r: String)
    requires
        vs@.len() >= 1,
    ensures
        r@ == value_table_of(vs@),
        utf8_of(r@).len() == table_len(canonicals(vs@)),
{
    proof {
        reveal_strlit("");
        lemma_table_len(canonicals(vs@));
    }
    let r = wrapped_table(vs, "", "");
    assert(r@ =~= value_table_of(vs@));
    r
}

/// The diagnostic of a failed parse: `expected one of [`, the value table,
/// `]`.
pub fn parse_diagnostic(vs: &Vec<VariantSpec>) -> (r: String)
    requires
        vs@.len() >= 1,
    ensures
        r@ == parse_prefix() + value_table_of(vs@) + diagnostic_suffix(),
{
    proof {
        reveal_strlit("expected one of [");
        reveal_strlit("]");
    }
    wrapped_table(vs, "expected one of [", "]")
}

/// The diagnostic of a failed decode: `one of [`, the value table, `]`.
pub fn decode_diagnostic(vs: &Vec<VariantSpec>) -> (r: String)
    requires
        vs@.len() >= 1,
    ensures
        r@ == decode_prefix() + value_table_of(vs@) + diagnostic_suffix(),
{
    proof {
        reveal_strlit("one of [");
        reveal_strlit("]");
    }
    wrapped_table(vs, "one of [", "]")
}

} // verus!
