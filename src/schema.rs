//! The schema of one enumeration and its validation.
use vstd::prelude::*;
use crate::text::text_eq;

verus! {

/// The integer type that backs the discriminants of an enumeration.
#[derive(Clone, Copy, Debug, PartialEq, Eq, Structural)]
pub enum ReprType {
    U8,
    U16,
    U32,
    U64,
    I8,
    I16,
    I32,
    I64,
}

impl ReprType {
    /// The least value of the type.
    pub open spec fn min_value(self) -> int {
        match self {
            ReprType::U8 | ReprType::U16 | ReprType::U32 | ReprType::U64 => 0,
            ReprType::I8 => i8::MIN as int,
            ReprType::I16 => i16::MIN as int,
            ReprType::I32 => i32::MIN as int,
            ReprType::I64 => i64::MIN as int,
        }
    }

    /// The greatest value of the type.
    pub open spec fn max_value(self) -> int {
        match self {
            ReprType::U8 => u8::MAX as int,
            ReprType::U16 => u16::MAX as int,
            ReprType::U32 => u32::MAX as int,
            ReprType::U64 => u64::MAX as int,
            ReprType::I8 => i8::MAX as int,
            ReprType::I16 => i16::MAX as int,
            ReprType::I32 => i32::MAX as int,
            ReprType::I64 => i64::MAX as int,
        }
    }

    /// Whether `d` is a value of the type.
    pub fn holds(&self, d: i128) -> (r: bool)
        ensures
            r == (self.min_value() <= d <= self.max_value()),
    {
        match self {
            ReprType::U8 => 0 <= d && d <= u8::MAX as i128,
            ReprType::U16 => 0 <= d && d <= u16::MAX as i128,
            ReprType::U32 => 0 <= d && d <= u32::MAX as i128,
            ReprType::U64 => 0 <= d && d <= u64::MAX as i128,
            ReprType::I8 => i8::MIN as i128 <= d && d <= i8::MAX as i128,
            ReprType::I16 => i16::MIN as i128 <= d && d <= i16::MAX as i128,
            ReprType::I32 => i32::MIN as i128 <= d && d <= i32::MAX as i128,
            ReprType::I64 => i64::MIN as i128 <= d && d <= i64::MAX as i128,
        }
    }
}

/// One variant: its declared name, an optional explicit discriminant, its
/// canonical string and the alias spellings accepted on lookup.
pub struct VariantSpec {
    pub name: String,
    pub discriminant: Option<i128>,
    pub canonical: String,
    pub aliases: Vec<String>,
}

/// The structural capabilities requested for the enumeration.
#[derive(Clone, Copy, Debug, PartialEq, Eq, Structural)]
pub struct Capabilities {
    pub equality: bool,
    pub ordering: bool,
    pub duplication: bool,
    pub debug_text: bool,
}

/// A whole enumeration, its variants in declaration order.
pub struct SchemaSpec {
    pub variants: Vec<VariantSpec>,
    pub repr_type: Option<ReprType>,
    pub error_type_name: Option<String>,
    pub capabilities: Capabilities,
}

/// Why a schema cannot be turned into an enumeration.
#[derive(Clone, Copy, Debug, PartialEq, Eq, Structural)]
pub enum SchemaError {
    /// The schema declares no variant.
    NoVariants,
    /// The variant at this index has an empty canonical string.
    EmptyCanonical(usize),
    /// Two variants, at these indices, share a canonical string.
    DuplicateCanonical(usize, usize),
    /// The variant at this index has a discriminant but no representation
    /// type is declared.
    DiscriminantWithoutRepr(usize),
    /// The discriminant of the variant at this index does not fit the
    /// representation type.
    DiscriminantOutOfRange(usize),
    /// Two variants, at these indices, have the same discriminant.
    DuplicateDiscriminant(usize, usize),
}

/// The canonical strings of a variant list.
pub open spec fn canonicals(vs: Seq<VariantSpec>) -> Seq<Seq<char>> {
    Seq::new(vs.len(), |i: int| vs[i].canonical@)
}

pub open spec fn has_empty_canonical(vs: Seq<VariantSpec>) -> bool {
    exists|i: int| 0 <= i < vs.len() && #[trigger] vs[i].canonical@.len() == 0
}

pub open spec fn canonicals_distinct(vs: Seq<VariantSpec>) -> bool {
    forall|i: int, j: int|
        0 <= i < j < vs.len() ==> #[trigger] vs[i].canonical@ != #[trigger] vs[j].canonical@
}

pub open spec fn has_explicit_discriminant(vs: Seq<VariantSpec>) -> bool {
    exists|i: int| 0 <= i < vs.len() && (#[trigger] vs[i].discriminant).is_some()
}

/// The discriminant that the variant at `i` ends up with: its explicit one,
/// else one more than its predecessor's, else zero.
pub open spec fn effective_discriminant(vs: Seq<VariantSpec>, i: int) -> int
    decreases i,
{
    if 0 <= i < vs.len() && vs[i].discriminant.is_some() {
        vs[i].discriminant.unwrap() as int
    } else if i <= 0 {
        0
    } else {
        effective_discriminant(vs, i - 1) + 1
    }
}

pub open spec fn discriminants_in_range(vs: Seq<VariantSpec>, r: ReprType) -> bool {
    forall|i: int|
        0 <= i < vs.len() ==> r.min_value() <= #[trigger] effective_discriminant(vs, i)
            <= r.max_value()
}

pub open spec fn discriminants_distinct(vs: Seq<VariantSpec>) -> bool {
    forall|i: int, j: int|
        0 <= i < j < vs.len() ==> #[trigger] effective_discriminant(vs, i)
            != #[trigger] effective_discriminant(vs, j)
}

/// What the discriminants of a schema must satisfy.
pub open spec fn discriminants_valid(s: SchemaSpec) -> bool {
    match s.repr_type {
        None => !has_explicit_discriminant(s.variants@),
        Some(r) => discriminants_in_range(s.variants@, r) && discriminants_distinct(s.variants@),
    }
}

/// A schema from which an enumeration can be built.
pub open spec fn schema_valid(s: SchemaSpec) -> bool {
    &&& s.variants@.len() > 0
    &&& !has_empty_canonical(s.variants@)
    &&& canonicals_distinct(s.variants@)
    &&& discriminants_valid(s)
}

/// What the defect that `validate` reports says of the schema. The checks
/// run in the order of the variants of `SchemaError`, and within one check
/// the defect with the least indices is reported.
pub open spec fn reports(s: SchemaSpec, e: SchemaError) -> bool {
    let vs = s.variants@;
    match e {
        SchemaError::NoVariants => vs.len() == 0,
        SchemaError::EmptyCanonical(i) => {
            &&& i < vs.len()
            &&& vs[i as int].canonical@.len() == 0
            &&& forall|k: int| 0 <= k < i ==> #[trigger] vs[k].canonical@.len() > 0
        },
        SchemaError::DuplicateCanonical(i, j) => {
            &&& vs.len() > 0
            &&& !has_empty_canonical(vs)
            &&& i < j < vs.len()
            &&& vs[i as int].canonical@ == vs[j as int].canonical@
            &&& forall|a: int, b: int|
                0 <= a < b < j ==> #[trigger] vs[a].canonical@ != #[trigger] vs[b].canonical@
            &&& forall|a: int| 0 <= a < i ==> #[trigger] vs[a].canonical@ != vs[j as int].canonical@
        },
        SchemaError::DiscriminantWithoutRepr(i) => {
            &&& vs.len() > 0
            &&& !has_empty_canonical(vs)
            &&& canonicals_distinct(vs)
            &&& s.repr_type.is_none()
            &&& i < vs.len()
            &&& vs[i as int].discriminant.is_some()
            &&& forall|k: int| 0 <= k < i ==> (#[trigger] vs[k].discriminant).is_none()
        },
        SchemaError::DiscriminantOutOfRange(i) => {
            &&& vs.len() > 0
            &&& !has_empty_canonical(vs)
            &&& canonicals_distinct(vs)
            &&& s.repr_type.is_some()
            &&& i < vs.len()
            &&& !(s.repr_type.unwrap().min_value() <= effective_discriminant(vs, i as int)
                <= s.repr_type.unwrap().max_value())
            &&& forall|k: int|
                0 <= k < i ==> s.repr_type.unwrap().min_value() <= #[trigger] effective_discriminant(
                    vs,
                    k,
                ) <= s.repr_type.unwrap().max_value()
        },
        SchemaError::DuplicateDiscriminant(i, j) => {
            &&& vs.len() > 0
            &&& !has_empty_canonical(vs)
            &&& canonicals_distinct(vs)
            &&& s.repr_type.is_some()
            &&& discriminants_in_range(vs, s.repr_type.unwrap())
            &&& i < j < vs.len()
            &&& effective_discriminant(vs, i as int) == effective_discriminant(vs, j as int)
            &&& forall|a: int, b: int|
                0 <= a < b < j ==> #[trigger] effective_discriminant(vs, a)
                    != #[trigger] effective_discriminant(vs, b)
            &&& forall|a: int|
                0 <= a < i ==> #[trigger] effective_discriminant(vs, a) != effective_discriminant(
                    vs,
                    j as int,
                )
        },
    }
}

/// Without explicit discriminants the variants count up from zero.
pub proof fn lemma_implicit_discriminants(vs: Seq<VariantSpec>, i: int)
    requires
        0 <= i < vs.len(),
        !has_explicit_discriminant(vs),
    ensures
        effective_discriminant(vs, i) == i,
    decreases i,
{
    assert(vs[i].discriminant.is_none());
    if i > 0 {
        lemma_implicit_discriminants(vs, i - 1);
    }
}

/// Checks a schema. On success returns the discriminant of each variant in
/// declaration order; on failure the first defect found, as `reports`
/// describes it.
pub fn validate(s: &SchemaSpec) -> (r: Result<Vec<i128>, SchemaError>)
    ensures
        r is Ok <==> schema_valid(*s),
        r matches Ok(d) ==> d@.len() == s.variants@.len() && forall|i: int|
            0 <= i < d@.len() ==> #[trigger] d@[i] as int == effective_discriminant(
                s.variants@,
                i,
            ),
        r matches Err(e) ==> reports(*s, e),
{
    let n = s.variants.len();
    if n == 0 {
        return Err(SchemaError::NoVariants);
    }
    let mut i: usize = 0;
    while i < n
        invariant
            n == s.variants@.len(),
            i <= n,
            forall|k: int| 0 <= k < i ==> #[trigger] s.variants@[k].canonical@.len() > 0,
        decreases n - i,
    {
        if s.variants[i].canonical.as_str().is_empty() {
            assert(s.variants@[i as int].canonical@.len() == 0);
            assert(!schema_valid(*s));
            return Err(SchemaError::EmptyCanonical(i));
        }
        i = i + 1;
    }
    let mut j: usize = 0;
    while j < n
        invariant
            n == s.variants@.len(),
            j <= n,
            !has_empty_canonical(s.variants@),
            forall|a: int, b: int|
                0 <= a < b < j ==> #[trigger] s.variants@[a].canonical@ != #[trigger] s.variants@[b].canonical@,
        decreases n - j,
    {
        let mut i: usize = 0;
        while i < j
            invariant
                n == s.variants@.len(),
                i <= j < n,
                !has_empty_canonical(s.variants@),
                forall|a: int, b: int|
                    0 <= a < b < j ==> #[trigger] s.variants@[a].canonical@ != #[trigger] s.variants@[b].canonical@,
                forall|a: int| 0 <= a < i ==> #[trigger] s.variants@[a].canonical@ != s.variants@[j as int].canonical@,
            decreases j - i,
        {
            if text_eq(s.variants[i].canonical.as_str(), s.variants[j].canonical.as_str()) {
                assert(s.variants@[i as int].canonical@ == s.variants@[j as int].canonical@);
                assert(!canonicals_distinct(s.variants@));
                assert(!schema_valid(*s));
                return Err(SchemaError::DuplicateCanonical(i, j));
            }
            i = i + 1;
        }
        j = j + 1;
    }
    match s.repr_type {
        None => {
            let mut d: Vec<i128> = Vec::new();
            let mut i: usize = 0;
            while i < n
                invariant
                    n == s.variants@.len(),
                    i <= n,
                    d@.len() == i,
                    !has_empty_canonical(s.variants@),
                    canonicals_distinct(s.variants@),
                    s.repr_type.is_none(),
                    forall|k: int| 0 <= k < i ==> (#[trigger] s.variants@[k].discriminant).is_none(),
                    forall|k: int| 0 <= k < i ==> #[trigger] d@[k] == k,
                decreases n - i,
            {
                if s.variants[i].discriminant.is_some() {
                    assert(s.variants@[i as int].discriminant.is_some());
                    assert(has_explicit_discriminant(s.variants@));
                    assert(!schema_valid(*s));
                    return Err(SchemaError::DiscriminantWithoutRepr(i));
                }
                d.push(i as i128);
                i = i + 1;
            }
            assert forall|k: int| 0 <= k < d@.len() implies #[trigger] d@[k] as int
                == effective_discriminant(s.variants@, k) by {
                lemma_implicit_discriminants(s.variants@, k);
            }
            Ok(d)
        },
        Some(repr) => {
            let mut d: Vec<i128> = Vec::new();
            let mut i: usize = 0;
            while i < n
                invariant
                    n == s.variants@.len(),
                    i <= n,
                    d@.len() == i,
                    !has_empty_canonical(s.variants@),
                    canonicals_distinct(s.variants@),
                    s.repr_type == Some(repr),
                    forall|k: int| 0 <= k < i ==> #[trigger] d@[k] as int == effective_discriminant(s.variants@, k),
                    forall|k: int| 0 <= k < i ==> repr.min_value() <= #[trigger] effective_discriminant(s.variants@, k) <= repr.max_value(),
                decreases n - i,
            {
                let e: i128 = match s.variants[i].discriminant {
                    Some(x) => x,
                    None => if i == 0 { 0 } else { d[i - 1] + 1 },
                };
                assert(e as int == effective_discriminant(s.variants@, i as int));
                if !repr.holds(e) {
                    assert(!(repr.min_value() <= effective_discriminant(s.variants@, i as int) <= repr.max_value()));
                    assert(!discriminants_in_range(s.variants@, repr));
                    assert(!schema_valid(*s));
                    return Err(SchemaError::DiscriminantOutOfRange(i));
                }
                d.push(e);
                i = i + 1;
            }
            let mut j: usize = 0;
            while j < n
                invariant
                    n == s.variants@.len(),
                    j <= n,
                    d@.len() == n,
                    !has_empty_canonical(s.variants@),
                    canonicals_distinct(s.variants@),
                    s.repr_type == Some(repr),
                    forall|k: int| 0 <= k < n ==> #[trigger] d@[k] as int == effective_discriminant(s.variants@, k),
                    discriminants_in_range(s.variants@, repr),
                    forall|a: int, b: int|
                        0 <= a < b < j ==> #[trigger] effective_discriminant(s.variants@, a)
                            != #[trigger] effective_discriminant(s.variants@, b),
                decreases n - j,
            {
                let mut i: usize = 0;
                while i < j
                    invariant
                        n == s.variants@.len(),
                        i <= j < n,
                        d@.len() == n,
                        !has_empty_canonical(s.variants@),
                        canonicals_distinct(s.variants@),
                        s.repr_type == Some(repr),
                        discriminants_in_range(s.variants@, repr),
                        forall|k: int| 0 <= k < n ==> #[trigger] d@[k] as int == effective_discriminant(s.variants@, k),
                        forall|a: int, b: int|
                            0 <= a < b < j ==> #[trigger] effective_discriminant(s.variants@, a)
                                != #[trigger] effective_discriminant(s.variants@, b),
                        forall|a: int|
                            0 <= a < i ==> #[trigger] effective_discriminant(s.variants@, a)
                                != effective_discriminant(s.variants@, j as int),
                    decreases j - i,
                {
                    if d[i] == d[j] {
                        assert(effective_discriminant(s.variants@, i as int) == effective_discriminant(s.variants@, j as int));
                        assert(!discriminants_distinct(s.variants@));
                        assert(!schema_valid(*s));
                        return Err(SchemaError::DuplicateDiscriminant(i, j));
                    }
                    i = i + 1;
                }
                j = j + 1;
            }
            Ok(d)
        },
    }
}

} // verus!
