//! An enumeration built from a validated schema.
use vstd::prelude::*;
use vstd::string::StringExecFns;
use std::cmp::Ordering;
use crate::error::{ParseError, Utf8EnumError, str_from_utf8};
use crate::schema::{
    VariantSpec, SchemaSpec, SchemaError, ReprType, Capabilities, validate, schema_valid, reports,
    has_empty_canonical, canonicals_distinct, effective_discriminant,
};
use crate::table::{
    value_table, parse_diagnostic, decode_diagnostic, value_table_of, parse_prefix,
    decode_prefix, diagnostic_suffix,
};
use crate::text::{text_eq, compare_text, lex_cmp, utf8_of};

verus! {

/// One variant of an enumeration, by its place in declaration order. The
/// derived order is declaration order.
#[derive(Clone, Copy, Debug, PartialEq, Eq, Structural, PartialOrd, Ord)]
pub struct Variant {
    pub index: usize,
}

/// Whether `v` accepts the text `s` on lookup: as its canonical string or
/// as one of its aliases.
pub open spec fn accepts(v: VariantSpec, s: Seq<char>) -> bool {
    v.canonical@ == s || exists|k: int| 0 <= k < v.aliases@.len() && #[trigger] v.aliases@[k]@ == s
}

/// The variant at `i` is the first in declaration order to accept `s`.
pub open spec fn first_match(vs: Seq<VariantSpec>, s: Seq<char>, i: int) -> bool {
    &&& 0 <= i < vs.len()
    &&& accepts(vs[i], s)
    &&& forall|j: int| 0 <= j < i ==> !accepts(#[trigger] vs[j], s)
}

/// No variant accepts `s`.
pub open spec fn no_match(vs: Seq<VariantSpec>, s: Seq<char>) -> bool {
    forall|j: int| 0 <= j < vs.len() ==> !accepts(#[trigger] vs[j], s)
}

/// What a lookup of `s` may return: the first variant that accepts it, or
/// nothing where none does.
pub open spec fn lookup_spec(vs: Seq<VariantSpec>, s: Seq<char>, r: Option<Variant>) -> bool {
    match r {
        Some(v) => first_match(vs, s, v.index as int),
        None => no_match(vs, s),
    }
}

/// The canonical strings of `vs` at the places of `xs`, one after another.
pub open spec fn concat_canonicals(vs: Seq<VariantSpec>, xs: Seq<Variant>) -> Seq<char>
    decreases xs.len(),
{
    if xs.len() == 0 {
        Seq::empty()
    } else {
        concat_canonicals(vs, xs.drop_last()) + vs[xs.last().index as int].canonical@
    }
}

/// An enumeration: its variants, their discriminants, and the value table
/// and diagnostics, built once from a valid schema.
pub struct StrEnum {
    variants: Vec<VariantSpec>,
    discriminants: Vec<i128>,
    repr_type: Option<ReprType>,
    error_type_name: Option<String>,
    capabilities: Capabilities,
    table: String,
    parse_expected: String,
    decode_expected: String,
}

impl StrEnum {
    /// The variants, in declaration order.
    pub closed spec fn specs(&self) -> Seq<VariantSpec> {
        self.variants@
    }

    pub closed spec fn repr(&self) -> Option<ReprType> {
        self.repr_type
    }

    pub closed spec fn error_name(&self) -> Option<String> {
        self.error_type_name
    }

    pub closed spec fn caps(&self) -> Capabilities {
        self.capabilities
    }

    /// The number of variants.
    pub open spec fn count(&self) -> int {
        self.specs().len() as int
    }

    /// The canonical string of the variant at `i`.
    pub open spec fn canonical(&self, i: int) -> Seq<char> {
        self.specs()[i].canonical@
    }

    /// `v` names a variant of this enumeration.
    pub open spec fn has(&self, v: Variant) -> bool {
        v.index < self.count()
    }

    pub closed spec fn tables_wf(&self) -> bool {
        &&& self.discriminants@.len() == self.variants@.len()
        &&& forall|i: int|
            0 <= i < self.discriminants@.len() ==> #[trigger] self.discriminants@[i] as int
                == effective_discriminant(self.variants@, i)
        &&& self.table@ == value_table_of(self.variants@)
        &&& self.parse_expected@ == parse_prefix() + value_table_of(self.variants@)
            + diagnostic_suffix()
        &&& self.decode_expected@ == decode_prefix() + value_table_of(self.variants@)
            + diagnostic_suffix()
    }

    /// What every enumeration satisfies: at least one variant, canonical
    /// strings non-empty and pairwise distinct.
    pub open spec fn wf(&self) -> bool {
        &&& self.count() >= 1
        &&& !has_empty_canonical(self.specs())
        &&& canonicals_distinct(self.specs())
        &&& self.tables_wf()
    }

    /// Builds the enumeration of a schema, or reports the schema's first
    /// defect.
    pub fn new(schema: SchemaSpec) -> (r: Result<StrEnum, SchemaError>)
        ensures
            r is Ok <==> schema_valid(schema),
            r matches Ok(e) ==> {
                &&& e.wf()
                &&& e.specs() == schema.variants@
                &&& e.repr() == schema.repr_type
                &&& e.error_name() == schema.error_type_name
                &&& e.caps() == schema.capabilities
            },
            r matches Err(x) ==> reports(schema, x),
    {
        let discriminants = match validate(&schema) {
            Ok(d) => d,
            Err(x) => return Err(x),
        };
        let table = value_table(&schema.variants);
        let parse_expected = parse_diagnostic(&schema.variants);
        let decode_expected = decode_diagnostic(&schema.variants);
        Ok(StrEnum {
            variants: schema.variants,
            discriminants,
            repr_type: schema.repr_type,
            error_type_name: schema.error_type_name,
            capabilities: schema.capabilities,
            table,
            parse_expected,
            decode_expected,
        })
    }

    /// The number of variants.
    pub fn num_variants(&self) -> (r: usize)
        ensures
            r == self.count(),
    {
        self.variants.len()
    }

    /// The variant at place `i` in declaration order, if there is one.
    pub fn variant(&self, i: usize) -> (r: Option<Variant>)
        ensures
            r == (if i < self.count() { Some((Variant { index: i })) } else { None::<Variant> }),
    {
        if i < self.variants.len() {
            Some(Variant { index: i })
        } else {
            None
        }
    }

    /// Every variant, in declaration order.
    pub fn all_variants(&self) -> (r: Vec<Variant>)
        ensures
            r@.len() == self.count(),
            forall|i: int| 0 <= i < r@.len() ==> #[trigger] r@[i] == (Variant { index: i as usize }),
    {
        let mut r: Vec<Variant> = Vec::new();
        let mut i: usize = 0;
        while i < self.variants.len()
            invariant
                i <= self.count(),
                r@.len() == i,
                forall|k: int| 0 <= k < i ==> #[trigger] r@[k] == (Variant { index: k as usize }),
            decreases self.count() - i,
        {
            r.push(Variant { index: i });
            i = i + 1;
        }
        r
    }

    /// The canonical string of `v`.
    pub fn as_str(&self, v: Variant) -> (r: &str)
        requires
            self.has(v),
        ensures
            r@ == self.canonical(v.index as int),
    {
        self.variants[v.index].canonical.as_str()
    }

    /// The byte length of `v`'s canonical string.
    pub fn len(&self, v: Variant) -> (r: usize)
        requires
            self.has(v),
        ensures
            r == utf8_of(self.canonical(v.index as int)).len(),
    {
        self.as_str(v).as_bytes().len()
    }

    /// The canonical string of every variant, in declaration order.
    pub fn all_values(&self) -> (r: Vec<&str>)
        ensures
            r@.len() == self.count(),
            forall|i: int| 0 <= i < r@.len() ==> (#[trigger] r@[i])@ == self.canonical(i),
    {
        let mut r: Vec<&str> = Vec::new();
        let mut i: usize = 0;
        while i < self.variants.len()
            invariant
                i <= self.count(),
                r@.len() == i,
                forall|k: int| 0 <= k < i ==> (#[trigger] r@[k])@ == self.canonical(k),
            decreases self.count() - i,
        {
            r.push(self.variants[i].canonical.as_str());
            i = i + 1;
        }
        r
    }

    /// The declared name of `v`, which is also its debug text.
    pub fn name(&self, v: Variant) -> (r: &str)
        requires
            self.has(v),
        ensures
            r@ == self.specs()[v.index as int].name@,
    {
        self.variants[v.index].name.as_str()
    }

    /// The declared name of every variant, in declaration order.
    pub fn variant_names(&self) -> (r: Vec<&str>)
        ensures
            r@.len() == self.count(),
            forall|i: int| 0 <= i < r@.len() ==> (#[trigger] r@[i])@ == self.specs()[i].name@,
    {
        let mut r: Vec<&str> = Vec::new();
        let mut i: usize = 0;
        while i < self.variants.len()
            invariant
                i <= self.count(),
                r@.len() == i,
                forall|k: int| 0 <= k < i ==> (#[trigger] r@[k])@ == self.specs()[k].name@,
            decreases self.count() - i,
        {
            r.push(self.variants[i].name.as_str());
            i = i + 1;
        }
        r
    }

    /// The value table: the canonical strings joined by commas.
    pub fn all_values_str(&self) -> (r: &str)
        requires
            self.wf(),
        ensures
            r@ == value_table_of(self.specs()),
    {
        self.table.as_str()
    }

    /// The parse diagnostic, where the schema asked for an error type.
    pub fn expected_str(&self) -> (r: Option<&str>)
        requires
            self.wf(),
        ensures
            r is Some <==> self.error_name() is Some,
            r matches Some(t) ==> t@ == parse_prefix() + value_table_of(self.specs())
                + diagnostic_suffix(),
    {
        match &self.error_type_name {
            Some(_) => Some(self.parse_expected.as_str()),
            None => None,
        }
    }

    /// The diagnostic of a failed decode.
    pub fn decode_expected_str(&self) -> (r: &str)
        requires
            self.wf(),
        ensures
            r@ == decode_prefix() + value_table_of(self.specs()) + diagnostic_suffix(),
    {
        self.decode_expected.as_str()
    }

    /// Whether the variant at `i` accepts `s`.
    fn accepts_at(&self, i: usize, s: &str) -> (r: bool)
        requires
            i < self.count(),
        ensures
            r == accepts(self.specs()[i as int], s@),
    {
        let v = &self.variants[i];
        if text_eq(v.canonical.as_str(), s) {
            return true;
        }
        let mut k: usize = 0;
        while k < v.aliases.len()
            invariant
                i < self.count(),
                *v == self.specs()[i as int],
                k <= v.aliases@.len(),
                forall|a: int| 0 <= a < k ==> (#[trigger] v.aliases@[a])@ != s@,
            decreases v.aliases@.len() - k,
        {
            if text_eq(v.aliases[k].as_str(), s) {
                assert(v.aliases@[k as int]@ == s@);
                return true;
            }
            k = k + 1;
        }
        false
    }

    /// The first variant, in declaration order, whose canonical string or
    /// one of whose aliases is exactly `s`.
    pub fn try_from_str(&self, s: &str) -> (r: Option<Variant>)
        ensures
            lookup_spec(self.specs(), s@, r),
    {
        let mut i: usize = 0;
        while i < self.variants.len()
            invariant
                i <= self.count(),
                forall|j: int| 0 <= j < i ==> !accepts(#[trigger] self.specs()[j], s@),
            decreases self.count() - i,
        {
            if self.accepts_at(i, s) {
                return Some(Variant { index: i });
            }
            i = i + 1;
        }
        None
    }

    /// Looks `s` up as `try_from_str` does, and reports a failure with the
    /// parse diagnostic. Only an enumeration that declares an error type
    /// offers it.
    pub fn parse<'a>(&'a self, s: &str) -> (r: Result<Variant, ParseError<'a>>)
        requires
            self.wf(),
            self.error_name() is Some,
        ensures
            match r {
                Ok(v) => first_match(self.specs(), s@, v.index as int),
                Err(e) => no_match(self.specs(), s@) && e.expected_text() == parse_prefix()
                    + value_table_of(self.specs()) + diagnostic_suffix(),
            },
    {
        match self.try_from_str(s) {
            Some(v) => Ok(v),
            None => Err(ParseError::wrap(self.parse_expected.as_str())),
        }
    }

    /// Looks up bytes: they must be UTF-8, and the text they hold must name
    /// a variant.
    pub fn parse_bytes<'a>(&'a self, b: &[u8]) -> (r: Result<Variant, Utf8EnumError<ParseError<'a>>>)
        requires
            self.wf(),
            self.error_name() is Some,
        ensures
            match r {
                Ok(v) => vstd::utf8::valid_utf8(b@) && first_match(
                    self.specs(),
                    vstd::utf8::decode_utf8(b@),
                    v.index as int,
                ),
                Err(Utf8EnumError::Utf8(_)) => !vstd::utf8::valid_utf8(b@),
                Err(Utf8EnumError::InvalidVariant(e)) => {
                    &&& vstd::utf8::valid_utf8(b@)
                    &&& no_match(self.specs(), vstd::utf8::decode_utf8(b@))
                    &&& e.expected_text() == parse_prefix() + value_table_of(self.specs())
                        + diagnostic_suffix()
                },
            },
    {
        match str_from_utf8(b) {
            Ok(s) => match self.parse(s) {
                Ok(v) => Ok(v),
                Err(e) => Err(Utf8EnumError::InvalidVariant(e)),
            },
            Err(e) => Err(Utf8EnumError::Utf8(e)),
        }
    }

    /// Whether `s` is exactly `v`'s canonical string.
    pub fn eq_text(&self, v: Variant, s: &str) -> (r: bool)
        requires
            self.has(v),
        ensures
            r == (self.canonical(v.index as int) == s@),
    {
        text_eq(self.as_str(v), s)
    }

    /// Compares `v`'s canonical string with `s` in the order of `str`.
    pub fn cmp_text(&self, v: Variant, s: &str) -> (r: Ordering)
        requires
            self.has(v),
        ensures
            r == lex_cmp(utf8_of(self.canonical(v.index as int)), utf8_of(s@)),
    {
        compare_text(self.as_str(v), s)
    }

    /// Compares two variants by their canonical strings in the order of
    /// `str`.
    pub fn cmp_variants(&self, a: Variant, b: Variant) -> (r: Ordering)
        requires
            self.has(a),
            self.has(b),
        ensures
            r == lex_cmp(utf8_of(self.canonical(a.index as int)), utf8_of(self.canonical(b.index as int))),
    {
        compare_text(self.as_str(a), self.as_str(b))
    }

    /// Appends `v`'s canonical string to `buf`.
    pub fn append_to(&self, buf: &mut String, v: Variant)
        requires
            self.has(v),
        ensures
            final(buf)@ == old(buf)@ + self.canonical(v.index as int),
    {
        buf.append(self.as_str(v));
    }

    /// Appends the canonical strings of `vs`, in order, to `buf`.
    pub fn extend(&self, buf: &mut String, vs: &Vec<Variant>)
        requires
            forall|i: int| 0 <= i < vs@.len() ==> self.has(#[trigger] vs@[i]),
        ensures
            final(buf)@ == old(buf)@ + concat_canonicals(self.specs(), vs@),
    {
        let ghost start = buf@;
        let mut i: usize = 0;
        assert(vs@.take(0) =~= Seq::<Variant>::empty());
        assert(buf@ =~= start + concat_canonicals(self.specs(), vs@.take(0)));
        while i < vs.len()
            invariant
                i <= vs@.len(),
                forall|k: int| 0 <= k < vs@.len() ==> self.has(#[trigger] vs@[k]),
                buf@ == start + concat_canonicals(self.specs(), vs@.take(i as int)),
            decreases vs@.len() - i,
        {
            assert(vs@.take(i + 1).drop_last() =~= vs@.take(i as int));
            assert(vs@.take(i + 1).last() == vs@[i as int]);
            self.append_to(buf, vs[i]);
            assert(buf@ =~= start + concat_canonicals(self.specs(), vs@.take(i + 1)));
            i = i + 1;
        }
        assert(vs@.take(vs@.len() as int) =~= vs@);
    }

    /// The canonical strings of `vs`, one after another.
    pub fn concat(&self, vs: &Vec<Variant>) -> (r: String)
        requires
            forall|i: int| 0 <= i < vs@.len() ==> self.has(#[trigger] vs@[i]),
        ensures
            r@ == concat_canonicals(self.specs(), vs@),
    {
        let mut r = String::new();
        self.extend(&mut r, vs);
        assert(r@ =~= concat_canonicals(self.specs(), vs@));
        r
    }

    /// `v`'s discriminant, where the schema declared a representation type.
    pub fn discriminant(&self, v: Variant) -> (r: Option<i128>)
        requires
            self.wf(),
            self.has(v),
        ensures
            r is Some <==> self.repr() is Some,
            r matches Some(d) ==> d as int == effective_discriminant(self.specs(), v.index as int),
    {
        match self.repr_type {
            Some(_) => Some(self.discriminants[v.index]),
            None => None,
        }
    }
}

} // verus!
