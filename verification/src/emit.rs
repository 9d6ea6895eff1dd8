//! The code emitter: from the finished catalog to the generated source
//! artifact, four blocks in a fixed order — the enumeration, the display
//! logic, the lookup tables inside the inherent impl, and the accessor
//! arms. Emission is a function of the catalog alone, so identical
//! catalogs give byte-identical text; an empty catalog still yields the
//! complete wrapper code with zero generated cases.

use vstd::prelude::*;

use crate::catalog::{
    build_catalog_spec, lemma_rec_find, oid_present, rec_find, Catalog, KindCode, RecModel,
};
use crate::ranges::BuildError;
use crate::text::{chars_to_string, dec_of, str_to_chars, u32_to_dec};

verus! {

// ---------------------------------------------------------------------------
// Shared helpers
// ---------------------------------------------------------------------------

fn append_dec(out: &mut String, n: u32)
    ensures
        final(out)@ == old(out)@ + dec_of(n as int),
{
    let v = u32_to_dec(n);
    let s = chars_to_string(&v);
    out.append(s.as_str());
}

fn append_chars_str(out: &mut String, v: &Vec<char>)
    ensures
        final(out)@ == old(out)@ + v@,
{
    let s = chars_to_string(v);
    out.append(s.as_str());
}

/// The element oid a record carries; meaningful only for array and range
/// records of a well-formed catalog.
pub open spec fn elem_of(r: RecModel) -> u32 {
    match r.element_oid {
        Some(e) => e,
        None => 0,
    }
}

/// The variant label of the record holding oid `k`.
pub open spec fn variant_of_oid(s: Seq<RecModel>, k: u32) -> Seq<char> {
    s[rec_find(s, k, 0)].variant
}

fn find_variant(cat: &Catalog, k: u32) -> (r: String)
    requires
        oid_present(cat@, k),
    ensures
        r@ == variant_of_oid(cat@, k),
{
    proof {
        lemma_rec_find(cat@, k, 0);
    }
    let n = cat.recs.len();
    let mut i: usize = 0;
    while i < n && cat.recs[i].oid != k
        invariant
            n == cat.recs@.len(),
            cat@.len() == n,
            i <= n,
            rec_find(cat@, k, 0) == rec_find(cat@, k, i as int),
            forall|j: int| 0 <= j < n ==> #[trigger] cat@[j] == cat.recs@[j]@,
        decreases n - i,
    {
        i += 1;
    }
    cat.recs[i].variant.clone()
}

// ---------------------------------------------------------------------------
// Header
// ---------------------------------------------------------------------------

pub open spec fn header_spec() -> Seq<char> {
    "// Autogenerated file - DO NOT EDIT\nuse std::fmt;\n\nuse types::{Oid, Kind, Other};\n\n"@
}

/// The fixed header and imports preamble of the artifact.
pub fn make_header() -> (r: String)
    ensures
        r@ == header_spec(),
{
    let mut out = String::new();
    out.append(
        "// Autogenerated file - DO NOT EDIT\nuse std::fmt;\n\nuse types::{Oid, Kind, Other};\n\n",
    );
    out
}

// ---------------------------------------------------------------------------
// The enumeration block
// ---------------------------------------------------------------------------

pub open spec fn enum_case(r: RecModel) -> Seq<char> {
    "    /// "@ + r.doc + "\n    "@ + r.variant + ",\n"@
}

pub open spec fn enum_cases_to(s: Seq<RecModel>, i: int) -> Seq<char>
    decreases i,
{
    if i <= 0 {
        Seq::empty()
    } else {
        enum_cases_to(s, i - 1) + enum_case(s[i - 1])
    }
}

pub open spec fn enum_spec(s: Seq<RecModel>) -> Seq<char> {
    "/// A Postgres type.\n#[derive(PartialEq, Eq, Clone, Debug)]\npub enum Type {\n"@
        + enum_cases_to(s, s.len() as int)
        + "    /// An unknown type.\n    Other(Other),\n}\n\n"@
}

/// The enumeration: one case per record, labeled with its variant and
/// carrying its documentation, plus the fixed case wrapping an unknown
/// type.
pub fn make_enum(cat: &Catalog) -> (r: String)
    ensures
        r@ == enum_spec(cat@),
{
    let ghost s = cat@;
    let mut out = String::new();
    out.append("/// A Postgres type.\n#[derive(PartialEq, Eq, Clone, Debug)]\npub enum Type {\n");
    let ghost head = out@;
    let n = cat.recs.len();
    let mut i: usize = 0;
    while i < n
        invariant
            n == cat.recs@.len(),
            s == cat@,
            s.len() == n,
            i <= n,
            out@ == head + enum_cases_to(s, i as int),
            forall|j: int| 0 <= j < n ==> #[trigger] s[j] == cat.recs@[j]@,
        decreases n - i,
    {
        out.append("    /// ");
        out.append(cat.recs[i].doc.as_str());
        out.append("\n    ");
        out.append(cat.recs[i].variant.as_str());
        out.append(",\n");
        i += 1;
    }
    out.append("    /// An unknown type.\n    Other(Other),\n}\n\n");
    out
}

// ---------------------------------------------------------------------------
// The display block
// ---------------------------------------------------------------------------

pub open spec fn display_impl_spec() -> Seq<char> {
    "impl fmt::Display for Type {\n    fn fmt(&self, fmt: &mut fmt::Formatter) -> fmt::Result {\n        match self.schema() {\n            \"public\" | \"pg_catalog\" => {}\n            schema => write!(fmt, \"{}.\", schema)?,\n        }\n        fmt.write_str(self.name())\n    }\n}\n\n"@
}

/// The fixed display logic of the artifact: the bare name under the two
/// well-known built-in schemas, `schema.name` otherwise.
pub fn make_display_impl() -> (r: String)
    ensures
        r@ == display_impl_spec(),
{
    let mut out = String::new();
    out.append(
        "impl fmt::Display for Type {\n    fn fmt(&self, fmt: &mut fmt::Formatter) -> fmt::Result {\n        match self.schema() {\n            \"public\" | \"pg_catalog\" => {}\n            schema => write!(fmt, \"{}.\", schema)?,\n        }\n        fmt.write_str(self.name())\n    }\n}\n\n",
    );
    out
}

/// The display rule itself, as the generated logic applies it: a type in
/// one of the two well-known built-in schemas renders as its bare name,
/// any other as `schema.name`.
pub open spec fn display_spec(schema: Seq<char>, name: Seq<char>) -> Seq<char> {
    if schema == "public"@ || schema == "pg_catalog"@ {
        name
    } else {
        schema + "."@ + name
    }
}

pub fn rendered_type_name(schema: &str, name: &str) -> (r: String)
    ensures
        r@ == display_spec(schema@, name@),
{
    let sc = str_to_chars(schema);
    if crate::text::eq_chars_str(&sc, "public") || crate::text::eq_chars_str(&sc, "pg_catalog") {
        chars_to_string(&str_to_chars(name))
    } else {
        let mut out = sc;
        out.push('.');
        let nc = str_to_chars(name);
        crate::text::append_chars(&mut out, &nc);
        proof {
            reveal_strlit(".");
            assert(out@ =~= schema@ + "."@ + name@);
        }
        chars_to_string(&out)
    }
}

// ---------------------------------------------------------------------------
// The impl block: lookup tables and accessors
// ---------------------------------------------------------------------------

pub open spec fn from_oid_arm(r: RecModel) -> Seq<char> {
    "            "@ + dec_of(r.oid as int) + " => Some(Type::"@ + r.variant + "),\n"@
}

pub open spec fn from_oid_arms_to(s: Seq<RecModel>, i: int) -> Seq<char>
    decreases i,
{
    if i <= 0 {
        Seq::empty()
    } else {
        from_oid_arms_to(s, i - 1) + from_oid_arm(s[i - 1])
    }
}

pub open spec fn oid_arm(r: RecModel) -> Seq<char> {
    "            Type::"@ + r.variant + " => "@ + dec_of(r.oid as int) + ",\n"@
}

pub open spec fn oid_arms_to(s: Seq<RecModel>, i: int) -> Seq<char>
    decreases i,
{
    if i <= 0 {
        Seq::empty()
    } else {
        oid_arms_to(s, i - 1) + oid_arm(s[i - 1])
    }
}

/// The classification named by a record's arm: `Pseudo` as-is, arrays and
/// ranges resolving their element's variant from the catalog, everything
/// else `Simple`.
pub open spec fn kind_expr(s: Seq<RecModel>, r: RecModel) -> Seq<char> {
    if r.kind == KindCode::Pseudo {
        "Pseudo"@
    } else if r.kind == KindCode::Array {
        "Array(Type::"@ + variant_of_oid(s, elem_of(r)) + ")"@
    } else if r.kind == KindCode::Range {
        "Range(Type::"@ + variant_of_oid(s, elem_of(r)) + ")"@
    } else {
        "Simple"@
    }
}

pub open spec fn kind_arm(s: Seq<RecModel>, r: RecModel) -> Seq<char> {
    "            Type::"@ + r.variant + " => {\n                const V: &'static Kind = &Kind::"@
        + kind_expr(s, r) + ";\n                V\n            }\n"@
}

pub open spec fn kind_arms_to(s: Seq<RecModel>, i: int) -> Seq<char>
    decreases i,
{
    if i <= 0 {
        Seq::empty()
    } else {
        kind_arms_to(s, i - 1) + kind_arm(s, s[i - 1])
    }
}

pub open spec fn name_arm(r: RecModel) -> Seq<char> {
    "            Type::"@ + r.variant + " => \""@ + r.name + "\",\n"@
}

pub open spec fn name_arms_to(s: Seq<RecModel>, i: int) -> Seq<char>
    decreases i,
{
    if i <= 0 {
        Seq::empty()
    } else {
        name_arms_to(s, i - 1) + name_arm(s[i - 1])
    }
}

pub open spec fn impl_head() -> Seq<char> {
    "impl Type {\n    /// Returns the `Type` corresponding to the provided `Oid` if it\n    /// corresponds to a built-in type.\n    pub fn from_oid(oid: Oid) -> Option<Type> {\n        match oid {\n"@
}

pub open spec fn impl_mid_oid() -> Seq<char> {
    "            _ => None,\n        }\n    }\n\n    /// Returns the OID of the `Type`.\n    pub fn oid(&self) -> Oid {\n        match *self {\n"@
}

pub open spec fn impl_mid_kind() -> Seq<char> {
    "            Type::Other(ref u) => u.oid(),\n        }\n    }\n\n    /// Returns the kind of this type.\n    pub fn kind(&self) -> &Kind {\n        match *self {\n"@
}

pub open spec fn impl_mid_name() -> Seq<char> {
    "            Type::Other(ref u) => u.kind(),\n        }\n    }\n\n    /// Returns the schema of this type.\n    pub fn schema(&self) -> &str {\n        match *self {\n            Type::Other(ref u) => u.schema(),\n            _ => \"pg_catalog\",\n        }\n    }\n\n    /// Returns the name of this type.\n    pub fn name(&self) -> &str {\n        match *self {\n"@
}

pub open spec fn impl_tail() -> Seq<char> {
    "            Type::Other(ref u) => u.name(),\n        }\n    }\n}\n"@
}

pub open spec fn impl_spec(s: Seq<RecModel>) -> Seq<char> {
    impl_head() + from_oid_arms_to(s, s.len() as int) + impl_mid_oid() + oid_arms_to(
        s,
        s.len() as int,
    ) + impl_mid_kind() + kind_arms_to(s, s.len() as int) + impl_mid_name() + name_arms_to(
        s,
        s.len() as int,
    ) + impl_tail()
}

/// The inherent impl of the generated enumeration: the oid-to-variant and
/// variant-to-oid tables, the classification accessor resolving array and
/// range elements, and the fixed schema and name accessors, each with its
/// arm delegating to the wrapped unknown type.
pub fn make_impl(cat: &Catalog) -> (r: String)
    requires
        cat.wf(),
    ensures
        r@ == impl_spec(cat@),
{
    let ghost s = cat@;
    let n = cat.recs.len();
    let mut out = String::new();
    out.append(
        "impl Type {\n    /// Returns the `Type` corresponding to the provided `Oid` if it\n    /// corresponds to a built-in type.\n    pub fn from_oid(oid: Oid) -> Option<Type> {\n        match oid {\n",
    );
    let ghost h1 = out@;
    let mut i: usize = 0;
    while i < n
        invariant
            n == cat.recs@.len(),
            s == cat@,
            s.len() == n,
            i <= n,
            out@ == h1 + from_oid_arms_to(s, i as int),
            forall|j: int| 0 <= j < n ==> #[trigger] s[j] == cat.recs@[j]@,
        decreases n - i,
    {
        out.append("            ");
        append_dec(&mut out, cat.recs[i].oid);
        out.append(" => Some(Type::");
        out.append(cat.recs[i].variant.as_str());
        out.append("),\n");
        i += 1;
    }
    out.append(
        "            _ => None,\n        }\n    }\n\n    /// Returns the OID of the `Type`.\n    pub fn oid(&self) -> Oid {\n        match *self {\n",
    );
    let ghost h2 = out@;
    let mut i: usize = 0;
    while i < n
        invariant
            n == cat.recs@.len(),
            s == cat@,
            s.len() == n,
            i <= n,
            out@ == h2 + oid_arms_to(s, i as int),
            forall|j: int| 0 <= j < n ==> #[trigger] s[j] == cat.recs@[j]@,
        decreases n - i,
    {
        out.append("            Type::");
        out.append(cat.recs[i].variant.as_str());
        out.append(" => ");
        append_dec(&mut out, cat.recs[i].oid);
        out.append(",\n");
        i += 1;
    }
    out.append(
        "            Type::Other(ref u) => u.oid(),\n        }\n    }\n\n    /// Returns the kind of this type.\n    pub fn kind(&self) -> &Kind {\n        match *self {\n",
    );
    let ghost h3 = out@;
    let mut i: usize = 0;
    while i < n
        invariant
            n == cat.recs@.len(),
            s == cat@,
            s.len() == n,
            i <= n,
            cat.wf(),
            out@ == h3 + kind_arms_to(s, i as int),
            forall|j: int| 0 <= j < n ==> #[trigger] s[j] == cat.recs@[j]@,
        decreases n - i,
    {
        out.append("            Type::");
        out.append(cat.recs[i].variant.as_str());
        out.append(" => {\n                const V: &'static Kind = &Kind::");
        let is_array = match cat.recs[i].kind {
            KindCode::Array => true,
            _ => false,
        };
        let is_range = match cat.recs[i].kind {
            KindCode::Range => true,
            _ => false,
        };
        if is_array || is_range {
            proof {
                assert(crate::catalog::ref_ok(s, i as int));
            }
            let e = match cat.recs[i].element_oid {
                Some(e) => e,
                None => 0,
            };
            let ev = find_variant(cat, e);
            if is_array {
                out.append("Array(Type::");
            } else {
                out.append("Range(Type::");
            }
            out.append(ev.as_str());
            out.append(")");
        } else {
            let is_pseudo = match cat.recs[i].kind {
                KindCode::Pseudo => true,
                _ => false,
            };
            if is_pseudo {
                out.append("Pseudo");
            } else {
                out.append("Simple");
            }
        }
        out.append(";\n                V\n            }\n");
        i += 1;
    }
    out.append(
        "            Type::Other(ref u) => u.kind(),\n        }\n    }\n\n    /// Returns the schema of this type.\n    pub fn schema(&self) -> &str {\n        match *self {\n            Type::Other(ref u) => u.schema(),\n            _ => \"pg_catalog\",\n        }\n    }\n\n    /// Returns the name of this type.\n    pub fn name(&self) -> &str {\n        match *self {\n",
    );
    let ghost h4 = out@;
    let mut i: usize = 0;
    while i < n
        invariant
            n == cat.recs@.len(),
            s == cat@,
            s.len() == n,
            i <= n,
            out@ == h4 + name_arms_to(s, i as int),
            forall|j: int| 0 <= j < n ==> #[trigger] s[j] == cat.recs@[j]@,
        decreases n - i,
    {
        out.append("            Type::");
        out.append(cat.recs[i].variant.as_str());
        out.append(" => \"");
        out.append(cat.recs[i].name.as_str());
        out.append("\",\n");
        i += 1;
    }
    out.append("            Type::Other(ref u) => u.name(),\n        }\n    }\n}\n");
    out
}

// ---------------------------------------------------------------------------
// The whole artifact
// ---------------------------------------------------------------------------

/// The artifact's full text: header, enumeration, display logic, impl.
pub open spec fn code_spec(s: Seq<RecModel>) -> Seq<char> {
    header_spec() + enum_spec(s) + display_impl_spec() + impl_spec(s)
}

/// Renders the finished catalog into the artifact's text.
pub fn generate_code(cat: &Catalog) -> (r: String)
    requires
        cat.wf(),
    ensures
        r@ == code_spec(cat@),
{
    let mut out = make_header();
    let e = make_enum(cat);
    out.append(e.as_str());
    let d = make_display_impl();
    out.append(d.as_str());
    let im = make_impl(cat);
    out.append(im.as_str());
    out
}

/// The whole pipeline as one function of the two snapshot texts: the
/// catalog built and validated, then rendered; any parse, duplicate or
/// resolution failure is handed out instead of text.
pub open spec fn generate_spec(types_text: Seq<char>, ranges_text: Seq<char>) -> Result<
    Seq<char>,
    BuildError,
> {
    match build_catalog_spec(types_text, ranges_text) {
        Ok(cat) => Ok(code_spec(cat)),
        Err(e) => Err(e),
    }
}

/// Runs the whole pipeline: parses both snapshots, validates the catalog,
/// and renders the generated source text.
pub fn generate(types_text: &str, ranges_text: &str) -> (r: Result<String, BuildError>)
    ensures
        match r {
            Ok(code) => generate_spec(types_text@, ranges_text@) == Ok::<Seq<char>, BuildError>(
                code@,
            ),
            Err(e) => generate_spec(types_text@, ranges_text@) == Err::<Seq<char>, BuildError>(e),
        },
{
    match crate::catalog::build_catalog(types_text, ranges_text) {
        Ok(cat) => Ok(generate_code(&cat)),
        Err(e) => Err(e),
    }
}

/// The fatal path: when the parsed rows carry a cross-reference that does
/// not resolve, the pipeline aborts with the resolution error and hands
/// out no text at all.
pub proof fn lemma_unresolved_aborts(types_text: Seq<char>, ranges_text: Seq<char>)
    requires
        crate::ranges::parse_ranges_spec(ranges_text) is Ok,
        crate::catalog::parse_types_spec(
            types_text,
            crate::ranges::parse_ranges_spec(ranges_text)->Ok_0,
        ) is Ok,
        !crate::catalog::refs_resolved(
            crate::catalog::parse_types_spec(
                types_text,
                crate::ranges::parse_ranges_spec(ranges_text)->Ok_0,
            )->Ok_0,
        ),
    ensures
        generate_spec(types_text, ranges_text) == Err::<Seq<char>, BuildError>(
            BuildError::UnresolvedReference,
        ),
{
}

/// Determinism of the pipeline: identical snapshot texts give identical
/// output, byte for byte.
pub proof fn lemma_generate_deterministic(
    t1: Seq<char>,
    r1: Seq<char>,
    t2: Seq<char>,
    r2: Seq<char>,
)
    requires
        t1 == t2,
        r1 == r2,
    ensures
        generate_spec(t1, r1) == generate_spec(t2, r2),
{
}

} // verus!
