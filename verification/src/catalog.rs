//! The type catalog parser: from the type catalog snapshot's text and the
//! parsed range table to the final ordered catalog of type records.
//!
//! Rows are the lines beginning with the `DATA` marker; over the
//! whitespace-separated fields, counted from zero, the row's oid stands at
//! position 3, its name at position 5, its kind code at position 11 and its
//! static element oid at position 16. Rows whose kind code denotes a
//! composite or enumerated type are dropped: their structure is only
//! knowable at runtime. The element oid of a row listed in the range table
//! comes from that table; otherwise a non-zero static element field names
//! an array's element; otherwise the record has none. A row may be followed
//! by a description line, `DESCR("...")`, whose text joins the record's
//! documentation. Short rows, malformed numerals and duplicate oids abort
//! the run.

use vstd::prelude::*;

use crate::escape::escape_seq;
use crate::names::variant_spec;
use crate::ranges::{
    is_data, is_data_line, range_lookup_spec, BuildError, RangeEntry, RangeTable,
};
use crate::text::{
    append_chars, append_str_chars, chars_to_string, eq_chars_str, fields_of, parse_u32_chars,
    parse_u32_spec, split_fields, split_lines, str_to_chars, subvec, to_upper_char, upper_char,
    views, lines_of,
};

verus! {

// ---------------------------------------------------------------------------
// Kind codes
// ---------------------------------------------------------------------------

#[derive(Clone, Copy, Debug, PartialEq, Eq, Structural)]
pub enum KindCode {
    Pseudo,
    Array,
    Range,
    Composite,
    Enum,
    Simple,
}

/// A kind that has a static representation in the generated catalog.
pub open spec fn static_kind(k: KindCode) -> bool {
    k != KindCode::Composite && k != KindCode::Enum
}

pub open spec fn kind_of_field(f: Seq<char>) -> KindCode {
    if f == "P"@ {
        KindCode::Pseudo
    } else if f == "A"@ {
        KindCode::Array
    } else if f == "R"@ {
        KindCode::Range
    } else if f == "C"@ {
        KindCode::Composite
    } else if f == "E"@ {
        KindCode::Enum
    } else {
        KindCode::Simple
    }
}

pub fn kind_from_field(f: &Vec<char>) -> (k: KindCode)
    ensures
        k == kind_of_field(f@),
{
    if eq_chars_str(f, "P") {
        KindCode::Pseudo
    } else if eq_chars_str(f, "A") {
        KindCode::Array
    } else if eq_chars_str(f, "R") {
        KindCode::Range
    } else if eq_chars_str(f, "C") {
        KindCode::Composite
    } else if eq_chars_str(f, "E") {
        KindCode::Enum
    } else {
        KindCode::Simple
    }
}

// ---------------------------------------------------------------------------
// Description lines
// ---------------------------------------------------------------------------

/// The opening marker `DESCR("` stands at position `i` of the line.
pub open spec fn has_descr_at(l: Seq<char>, i: int) -> bool {
    &&& i >= 0
    &&& i + 7 <= l.len()
    &&& l[i] == 'D'
    &&& l[i + 1] == 'E'
    &&& l[i + 2] == 'S'
    &&& l[i + 3] == 'C'
    &&& l[i + 4] == 'R'
    &&& l[i + 5] == '('
    &&& l[i + 6] == '"'
}

/// The first position at or after `i` where the opening marker stands.
pub open spec fn descr_pos(l: Seq<char>, i: int) -> int
    decreases l.len() - i,
{
    if i < 0 || i >= l.len() {
        i
    } else if has_descr_at(l, i) {
        i
    } else {
        descr_pos(l, i + 1)
    }
}

pub proof fn lemma_descr_pos(l: Seq<char>, i: int)
    requires
        0 <= i <= l.len(),
    ensures
        i <= descr_pos(l, i) <= l.len(),
        descr_pos(l, i) < l.len() ==> has_descr_at(l, descr_pos(l, i)),
    decreases l.len() - i,
{
    if i < l.len() && !has_descr_at(l, i) {
        lemma_descr_pos(l, i + 1);
    }
}

/// The first position at or after `i` holding the character `c`.
pub open spec fn char_pos(l: Seq<char>, c: char, i: int) -> int
    decreases l.len() - i,
{
    if i < 0 || i >= l.len() {
        i
    } else if l[i] == c {
        i
    } else {
        char_pos(l, c, i + 1)
    }
}

pub proof fn lemma_char_pos(l: Seq<char>, c: char, i: int)
    requires
        0 <= i <= l.len(),
    ensures
        i <= char_pos(l, c, i) <= l.len(),
        char_pos(l, c, i) < l.len() ==> l[char_pos(l, c, i)] == c,
    decreases l.len() - i,
{
    if i < l.len() && l[i] != c {
        lemma_char_pos(l, c, i + 1);
    }
}

/// The quoted description carried by the line, if any: the text between the
/// first `DESCR("` marker and the next quote, which must be non-empty and
/// closed by `")`.
pub open spec fn descr_of(l: Seq<char>) -> Option<Seq<char>> {
    let p = descr_pos(l, 0);
    if p >= l.len() {
        None
    } else {
        let q = char_pos(l, '"', p + 7);
        if q < l.len() && p + 7 < q && q + 1 < l.len() && l[q + 1] == ')' {
            Some(l.subrange(p + 7, q))
        } else {
            None
        }
    }
}

pub fn descr_in_line(l: &Vec<char>) -> (r: Option<Vec<char>>)
    ensures
        match r {
            Some(d) => descr_of(l@) == Some(d@),
            None => descr_of(l@) == None::<Seq<char>>,
        },
{
    let n = l.len();
    proof {
        lemma_descr_pos(l@, 0);
    }
    let mut p: usize = 0;
    while p < n && !(n - p >= 7 && l[p] == 'D' && l[p + 1] == 'E' && l[p + 2] == 'S' && l[p + 3]
        == 'C' && l[p + 4] == 'R' && l[p + 5] == '(' && l[p + 6] == '"')
        invariant
            n == l@.len(),
            p <= n,
            descr_pos(l@, 0) == descr_pos(l@, p as int),
        decreases n - p,
    {
        p += 1;
    }
    if p >= n {
        return None;
    }
    proof {
        assert(has_descr_at(l@, p as int));
        lemma_char_pos(l@, '"', p + 7 as int);
    }
    let mut q: usize = p + 7;
    while q < n && l[q] != '"'
        invariant
            n == l@.len(),
            p + 7 <= q <= n,
            char_pos(l@, '"', (p + 7) as int) == char_pos(l@, '"', q as int),
        decreases n - q,
    {
        q += 1;
    }
    if q < n && p + 7 < q && q + 1 < n && l[q + 1] == ')' {
        Some(subvec(l, p + 7, q))
    } else {
        None
    }
}

// ---------------------------------------------------------------------------
// Documentation text
// ---------------------------------------------------------------------------

pub open spec fn upper_acc(s: Seq<char>, i: int, out: Seq<char>) -> Seq<char>
    decreases s.len() - i,
{
    if i < 0 || i >= s.len() {
        out
    } else {
        upper_acc(s, i + 1, out.push(upper_char(s[i])))
    }
}

pub open spec fn upper_seq(s: Seq<char>) -> Seq<char> {
    upper_acc(s, 0, Seq::empty())
}

/// An array name's leading underscore rendered as a trailing `[]`.
pub open spec fn doc_base(name: Seq<char>) -> Seq<char> {
    if name.len() > 0 && name[0] == '_' {
        name.subrange(1, name.len() as int) + "[]"@
    } else {
        name
    }
}

pub open spec fn opt_chars_view(o: Option<Vec<char>>) -> Option<Seq<char>> {
    match o {
        Some(d) => Some(d@),
        None => None,
    }
}

/// The record's documentation: the name with arrays rendered as `NAME[]`,
/// uppercased, the description appended after ` - ` when there is one, and
/// the whole escaped for safe embedding in a generated comment.
pub open spec fn doc_spec(name: Seq<char>, descr: Option<Seq<char>>) -> Seq<char> {
    match descr {
        Some(d) => escape_seq(upper_seq(doc_base(name)) + " - "@ + d),
        None => escape_seq(upper_seq(doc_base(name))),
    }
}

pub fn make_doc(name: &Vec<char>, descr: &Option<Vec<char>>) -> (r: Vec<char>)
    ensures
        r@ == doc_spec(name@, opt_chars_view(*descr)),
{
    let mut base: Vec<char>;
    if name.len() > 0 && name[0] == '_' {
        base = subvec(name, 1, name.len());
        append_str_chars(&mut base, "[]");
    } else {
        base = subvec(name, 0, name.len());
        proof {
            assert(base@ =~= name@);
        }
    }
    let n = base.len();
    let mut up: Vec<char> = Vec::new();
    let mut i: usize = 0;
    proof {
        assert(up@ =~= Seq::<char>::empty());
    }
    while i < n
        invariant
            n == base@.len(),
            i <= n,
            upper_seq(base@) == upper_acc(base@, i as int, up@),
        decreases n - i,
    {
        up.push(to_upper_char(base[i]));
        i += 1;
    }
    match descr {
        Some(d) => {
            append_str_chars(&mut up, " - ");
            append_chars(&mut up, d);
        },
        None => {},
    }
    crate::escape::escape_chars(&up)
}

// ---------------------------------------------------------------------------
// Type records and the catalog
// ---------------------------------------------------------------------------

/// The mathematical content of one type record.
pub struct RecModel {
    pub oid: u32,
    pub name: Seq<char>,
    pub variant: Seq<char>,
    pub kind: KindCode,
    pub element_oid: Option<u32>,
    pub doc: Seq<char>,
}

/// One retained catalog row: the type's oid, its catalog name, its derived
/// variant label, its kind, the element oid of an array or range type, and
/// its documentation text.
#[derive(Debug)]
pub struct TypeRecord {
    pub oid: u32,
    pub name: String,
    pub variant: String,
    pub kind: KindCode,
    pub element_oid: Option<u32>,
    pub doc: String,
}

impl View for TypeRecord {
    type V = RecModel;

    open spec fn view(&self) -> RecModel {
        RecModel {
            oid: self.oid,
            name: self.name@,
            variant: self.variant@,
            kind: self.kind,
            element_oid: self.element_oid,
            doc: self.doc@,
        }
    }
}

pub open spec fn rec_views(s: Seq<TypeRecord>) -> Seq<RecModel> {
    s.map_values(|r: TypeRecord| r@)
}

pub open spec fn oids_sorted(s: Seq<RecModel>) -> bool {
    forall|i: int, j: int| 0 <= i < j < s.len() ==> s[i].oid < s[j].oid
}

pub open spec fn kinds_static(s: Seq<RecModel>) -> bool {
    forall|i: int| 0 <= i < s.len() ==> static_kind(#[trigger] s[i].kind)
}

/// The first position at or after `i` holding the oid `k`.
pub open spec fn rec_find(s: Seq<RecModel>, k: u32, i: int) -> int
    decreases s.len() - i,
{
    if i < 0 || i >= s.len() {
        i
    } else if s[i].oid == k {
        i
    } else {
        rec_find(s, k, i + 1)
    }
}

pub proof fn lemma_rec_find(s: Seq<RecModel>, k: u32, i: int)
    requires
        0 <= i <= s.len(),
    ensures
        i <= rec_find(s, k, i) <= s.len(),
        forall|j: int| i <= j < rec_find(s, k, i) ==> s[j].oid != k,
        rec_find(s, k, i) < s.len() ==> s[rec_find(s, k, i)].oid == k,
    decreases s.len() - i,
{
    if i < s.len() && s[i].oid != k {
        lemma_rec_find(s, k, i + 1);
    }
}

/// The oid `k` names a record of the catalog.
pub open spec fn oid_present(s: Seq<RecModel>, k: u32) -> bool {
    rec_find(s, k, 0) < s.len()
}

/// An array or range record carries an element oid that names a record of
/// the same catalog.
pub open spec fn ref_ok(s: Seq<RecModel>, i: int) -> bool {
    (s[i].kind == KindCode::Array || s[i].kind == KindCode::Range) ==> match s[i].element_oid {
        Some(e) => oid_present(s, e),
        None => false,
    }
}

pub open spec fn refs_resolved(s: Seq<RecModel>) -> bool {
    forall|i: int| 0 <= i < s.len() ==> #[trigger] ref_ok(s, i)
}

pub open spec fn variants_unique(s: Seq<RecModel>) -> bool {
    forall|i: int, j: int| 0 <= i < j < s.len() ==> s[i].variant != s[j].variant
}

/// The finished catalog: records in strictly increasing oid order; in a
/// well-formed catalog every kind is static, cross-references resolve and
/// variant labels are pairwise distinct.
#[derive(Debug)]
pub struct Catalog {
    pub recs: Vec<TypeRecord>,
}

impl View for Catalog {
    type V = Seq<RecModel>;

    open spec fn view(&self) -> Seq<RecModel> {
        rec_views(self.recs@)
    }
}

impl Catalog {
    pub open spec fn wf(self) -> bool {
        &&& oids_sorted(self@)
        &&& kinds_static(self@)
        &&& refs_resolved(self@)
        &&& variants_unique(self@)
    }

    /// The record of the given oid, if the catalog holds one; the returned
    /// record's own oid is that oid.
    pub fn lookup_by_oid(&self, oid: u32) -> (r: Option<&TypeRecord>)
        ensures
            match r {
                Some(rec) => oid_present(self@, oid) && rec@ == self@[rec_find(self@, oid, 0)]
                    && rec@.oid == oid,
                None => !oid_present(self@, oid),
            },
    {
        proof {
            lemma_rec_find(self@, oid, 0);
        }
        let n = self.recs.len();
        let mut i: usize = 0;
        while i < n && self.recs[i].oid != oid
            invariant
                n == self.recs@.len(),
                self@.len() == n,
                i <= n,
                rec_find(self@, oid, 0) == rec_find(self@, oid, i as int),
                forall|j: int| 0 <= j < n ==> #[trigger] self@[j] == self.recs@[j]@,
            decreases n - i,
        {
            i += 1;
        }
        if i < n {
            Some(&self.recs[i])
        } else {
            None
        }
    }
}

// ---------------------------------------------------------------------------
// Ordered insertion with duplicate detection
// ---------------------------------------------------------------------------

pub open spec fn rec_first_ge(s: Seq<RecModel>, k: u32, i: int) -> int
    decreases s.len() - i,
{
    if i < 0 || i >= s.len() {
        i
    } else if s[i].oid >= k {
        i
    } else {
        rec_first_ge(s, k, i + 1)
    }
}

pub proof fn lemma_rec_first_ge(s: Seq<RecModel>, k: u32, i: int)
    requires
        0 <= i <= s.len(),
    ensures
        i <= rec_first_ge(s, k, i) <= s.len(),
        forall|j: int| i <= j < rec_first_ge(s, k, i) ==> s[j].oid < k,
        rec_first_ge(s, k, i) < s.len() ==> s[rec_first_ge(s, k, i)].oid >= k,
    decreases s.len() - i,
{
    if i < s.len() && s[i].oid < k {
        lemma_rec_first_ge(s, k, i + 1);
    }
}

/// Insertion in oid order; a second record with the same oid is a fatal
/// duplicate.
pub open spec fn cat_insert(s: Seq<RecModel>, r: RecModel) -> Result<Seq<RecModel>, BuildError> {
    let i = rec_first_ge(s, r.oid, 0);
    if i < s.len() && s[i].oid == r.oid {
        Err(BuildError::DuplicateKey)
    } else {
        Ok(s.insert(i, r))
    }
}

pub proof fn lemma_cat_insert_sorted(s: Seq<RecModel>, r: RecModel)
    requires
        oids_sorted(s),
        cat_insert(s, r) is Ok,
    ensures
        oids_sorted(cat_insert(s, r)->Ok_0),
{
    lemma_rec_first_ge(s, r.oid, 0);
    let i = rec_first_ge(s, r.oid, 0);
    let t = s.insert(i, r);
    assert forall|p: int, q: int| 0 <= p < q < t.len() implies t[p].oid < t[q].oid by {
        if p < i && q == i {
            assert(t[p] == s[p]);
            assert(t[q] == r);
        } else if p == i && q > i {
            assert(t[p] == r);
            assert(t[q] == s[q - 1]);
            assert(s[q - 1].oid >= s[i].oid);
        } else if p < i && q > i {
            assert(t[p] == s[p]);
            assert(t[q] == s[q - 1]);
        } else if p > i && q > i {
            assert(t[p] == s[p - 1]);
            assert(t[q] == s[q - 1]);
        } else {
            assert(t[p] == s[p]);
            assert(t[q] == s[q]);
        }
    }
}

pub proof fn lemma_kinds_static_insert(s: Seq<RecModel>, i: int, r: RecModel)
    requires
        kinds_static(s),
        0 <= i <= s.len(),
        static_kind(r.kind),
    ensures
        kinds_static(s.insert(i, r)),
{
    let t = s.insert(i, r);
    assert forall|p: int| 0 <= p < t.len() implies static_kind(#[trigger] t[p].kind) by {
        if p < i {
            assert(t[p] == s[p]);
        } else if p == i {
            assert(t[p] == r);
        } else {
            assert(t[p] == s[p - 1]);
        }
    }
}

pub proof fn lemma_rec_views_insert(s: Seq<TypeRecord>, i: int, r: TypeRecord)
    requires
        0 <= i <= s.len(),
    ensures
        rec_views(s.insert(i, r)) =~= rec_views(s).insert(i, r@),
{
}

fn cat_insert_exec(recs: &mut Vec<TypeRecord>, rec: TypeRecord) -> (r: Result<(), BuildError>)
    requires
        oids_sorted(rec_views(old(recs)@)),
    ensures
        match r {
            Ok(_) => {
                &&& cat_insert(rec_views(old(recs)@), rec@) == Ok::<Seq<RecModel>, BuildError>(
                    rec_views(final(recs)@),
                )
                &&& rec_views(final(recs)@) == rec_views(old(recs)@).insert(
                    rec_first_ge(rec_views(old(recs)@), rec@.oid, 0),
                    rec@,
                )
                &&& oids_sorted(rec_views(final(recs)@))
            },
            Err(e) => {
                &&& e == BuildError::DuplicateKey
                &&& cat_insert(rec_views(old(recs)@), rec@) == Err::<Seq<RecModel>, BuildError>(
                    BuildError::DuplicateKey,
                )
            },
        },
{
    let ghost s = rec_views(recs@);
    proof {
        lemma_rec_first_ge(s, rec@.oid, 0);
    }
    let n = recs.len();
    let mut i: usize = 0;
    while i < n && recs[i].oid < rec.oid
        invariant
            n == recs@.len(),
            s == rec_views(recs@),
            s.len() == n,
            i <= n,
            rec_first_ge(s, rec@.oid, 0) == rec_first_ge(s, rec@.oid, i as int),
            forall|j: int| 0 <= j < n ==> #[trigger] s[j] == recs@[j]@,
        decreases n - i,
    {
        i += 1;
    }
    if i < n && recs[i].oid == rec.oid {
        return Err(BuildError::DuplicateKey);
    }
    proof {
        lemma_rec_views_insert(recs@, i as int, rec);
        lemma_cat_insert_sorted(s, rec@);
    }
    recs.insert(i, rec);
    Ok(())
}

// ---------------------------------------------------------------------------
// Parsing the type catalog snapshot
// ---------------------------------------------------------------------------

/// What one line of the snapshot, with its successor line for a possible
/// description, does to the catalog.
pub open spec fn type_row_step(
    cat: Seq<RecModel>,
    ranges: Seq<RangeEntry>,
    l: Seq<char>,
    next: Option<Seq<char>>,
) -> Result<Seq<RecModel>, BuildError> {
    if !is_data_line(l) {
        Ok(cat)
    } else {
        let f = fields_of(l);
        if f.len() < 17 {
            Err(BuildError::StructuralParse)
        } else {
            match parse_u32_spec(f[3]) {
                None => Err(BuildError::StructuralParse),
                Some(oid) => {
                    let kind = kind_of_field(f[11]);
                    if !static_kind(kind) {
                        Ok(cat)
                    } else {
                        let elem_r: Result<Option<u32>, BuildError> = match range_lookup_spec(
                            ranges,
                            oid,
                        ) {
                            Some(e) => Ok(Some(e)),
                            None => match parse_u32_spec(f[16]) {
                                None => Err(BuildError::StructuralParse),
                                Some(z) => Ok(
                                    if z == 0 {
                                        None
                                    } else {
                                        Some(z)
                                    },
                                ),
                            },
                        };
                        match elem_r {
                            Err(e) => Err(e),
                            Ok(element) => cat_insert(
                                cat,
                                RecModel {
                                    oid: oid,
                                    name: f[5],
                                    variant: variant_spec(f[5]),
                                    kind: kind,
                                    element_oid: element,
                                    doc: doc_spec(
                                        f[5],
                                        match next {
                                            Some(l2) => descr_of(l2),
                                            None => None,
                                        },
                                    ),
                                },
                            ),
                        }
                    }
                },
            }
        }
    }
}

pub open spec fn types_from(
    ls: Seq<Seq<char>>,
    i: int,
    ranges: Seq<RangeEntry>,
    cat: Seq<RecModel>,
) -> Result<Seq<RecModel>, BuildError>
    decreases ls.len() - i,
{
    if i < 0 || i >= ls.len() {
        Ok(cat)
    } else {
        let next = if i + 1 < ls.len() {
            Some(ls[i + 1])
        } else {
            None
        };
        match type_row_step(cat, ranges, ls[i], next) {
            Ok(c) => types_from(ls, i + 1, ranges, c),
            Err(e) => Err(e),
        }
    }
}

/// The whole snapshot: every eligible data row folded into the catalog in
/// turn, stopping at the first malformed row or duplicate oid.
pub open spec fn parse_types_spec(text: Seq<char>, ranges: Seq<RangeEntry>) -> Result<
    Seq<RecModel>,
    BuildError,
> {
    types_from(lines_of(text), 0, ranges, Seq::empty())
}

/// Parses the type catalog snapshot against the range table, producing the
/// catalog in oid order with every composite and enumerated row dropped.
pub fn parse_types(text: &str, ranges: &RangeTable) -> (r: Result<Catalog, BuildError>)
    ensures
        match r {
            Ok(c) => {
                &&& parse_types_spec(text@, ranges.entries@) == Ok::<Seq<RecModel>, BuildError>(c@)
                &&& oids_sorted(c@)
                &&& kinds_static(c@)
            },
            Err(e) => parse_types_spec(text@, ranges.entries@) == Err::<Seq<RecModel>, BuildError>(
                e,
            ),
        },
{
    let chars = str_to_chars(text);
    let lines = split_lines(&chars);
    let n = lines.len();
    let ghost ls = lines_of(text@);
    let ghost rgs = ranges.entries@;
    let mut recs: Vec<TypeRecord> = Vec::new();
    let mut i: usize = 0;
    proof {
        assert(rec_views(recs@) =~= Seq::<RecModel>::empty());
    }
    while i < n
        invariant
            n == lines@.len(),
            i <= n,
            ls == views(lines@),
            rgs == ranges.entries@,
            parse_types_spec(text@, rgs) == types_from(ls, i as int, rgs, rec_views(recs@)),
            oids_sorted(rec_views(recs@)),
            kinds_static(rec_views(recs@)),
        decreases n - i,
    {
        proof {
            assert(ls[i as int] == lines@[i as int]@);
        }
        let l = &lines[i];
        if is_data(l) {
            let fields = split_fields(l);
            let ghost fs = fields_of(l@);
            if fields.len() < 17 {
                return Err(BuildError::StructuralParse);
            }
            proof {
                assert(fs[3] == fields@[3]@);
                assert(fs[5] == fields@[5]@);
                assert(fs[11] == fields@[11]@);
                assert(fs[16] == fields@[16]@);
            }
            let oid = match parse_u32_chars(&fields[3]) {
                Some(o) => o,
                None => {
                    return Err(BuildError::StructuralParse);
                },
            };
            let kind = kind_from_field(&fields[11]);
            let keep = match kind {
                KindCode::Composite => false,
                KindCode::Enum => false,
                _ => true,
            };
            if keep {
                let element_oid: Option<u32> = match ranges.lookup(oid) {
                    Some(e) => Some(e),
                    None => {
                        match parse_u32_chars(&fields[16]) {
                            None => {
                                return Err(BuildError::StructuralParse);
                            },
                            Some(z) => {
                                if z == 0 {
                                    None
                                } else {
                                    Some(z)
                                }
                            },
                        }
                    },
                };
                let name = &fields[5];
                let variant = crate::names::variant_name(name);
                let descr: Option<Vec<char>> = if i + 1 < n {
                    proof {
                        assert(ls[i + 1 as int] == lines@[i + 1 as int]@);
                    }
                    descr_in_line(&lines[i + 1])
                } else {
                    None
                };
                let doc = make_doc(name, &descr);
                let rec = TypeRecord {
                    oid: oid,
                    name: chars_to_string(name),
                    variant: chars_to_string(&variant),
                    kind: kind,
                    element_oid: element_oid,
                    doc: chars_to_string(&doc),
                };
                let ghost model_rec = RecModel {
                    oid: oid,
                    name: fs[5],
                    variant: variant_spec(fs[5]),
                    kind: kind_of_field(fs[11]),
                    element_oid: element_oid,
                    doc: doc_spec(
                        fs[5],
                        match (if i + 1 < ls.len() {
                            Some(ls[i + 1])
                        } else {
                            None
                        }) {
                            Some(l2) => descr_of(l2),
                            None => None,
                        },
                    ),
                };
                proof {
                    assert(rec@ == model_rec);
                    lemma_rec_first_ge(rec_views(recs@), rec@.oid, 0);
                    lemma_kinds_static_insert(
                        rec_views(recs@),
                        rec_first_ge(rec_views(recs@), rec@.oid, 0),
                        rec@,
                    );
                }
                match cat_insert_exec(&mut recs, rec) {
                    Ok(_) => {},
                    Err(e) => {
                        return Err(e);
                    },
                }
            }
        }
        i += 1;
    }
    Ok(Catalog { recs })
}

// ---------------------------------------------------------------------------
// Validation of the finished catalog
// ---------------------------------------------------------------------------

fn oid_present_exec(recs: &Vec<TypeRecord>, k: u32) -> (r: bool)
    ensures
        r == oid_present(rec_views(recs@), k),
{
    let ghost s = rec_views(recs@);
    proof {
        lemma_rec_find(s, k, 0);
    }
    let n = recs.len();
    let mut i: usize = 0;
    while i < n && recs[i].oid != k
        invariant
            n == recs@.len(),
            s == rec_views(recs@),
            s.len() == n,
            i <= n,
            rec_find(s, k, 0) == rec_find(s, k, i as int),
            forall|j: int| 0 <= j < n ==> #[trigger] s[j] == recs@[j]@,
        decreases n - i,
    {
        i += 1;
    }
    i < n
}

/// Whether every array or range record's element oid resolves within the
/// catalog.
pub fn check_refs(recs: &Vec<TypeRecord>) -> (r: bool)
    ensures
        r == refs_resolved(rec_views(recs@)),
{
    let ghost s = rec_views(recs@);
    let n = recs.len();
    let mut i: usize = 0;
    while i < n
        invariant
            n == recs@.len(),
            s == rec_views(recs@),
            s.len() == n,
            i <= n,
            forall|j: int| 0 <= j < i ==> #[trigger] ref_ok(s, j),
            forall|j: int| 0 <= j < n ==> #[trigger] s[j] == recs@[j]@,
        decreases n - i,
    {
        let is_ref = match recs[i].kind {
            KindCode::Array => true,
            KindCode::Range => true,
            _ => false,
        };
        if is_ref {
            let ok = match recs[i].element_oid {
                Some(e) => oid_present_exec(recs, e),
                None => false,
            };
            if !ok {
                proof {
                    assert(!ref_ok(s, i as int));
                }
                return false;
            }
        }
        proof {
            assert(ref_ok(s, i as int));
        }
        i += 1;
    }
    true
}

/// Whether the derived variant labels are pairwise distinct.
pub fn check_variants(recs: &Vec<TypeRecord>) -> (r: bool)
    ensures
        r == variants_unique(rec_views(recs@)),
{
    let ghost s = rec_views(recs@);
    let n = recs.len();
    let mut i: usize = 0;
    while i < n
        invariant
            n == recs@.len(),
            s == rec_views(recs@),
            s.len() == n,
            i <= n,
            forall|p: int, q: int| 0 <= p < q < n && p < i ==> s[p].variant != s[q].variant,
            forall|j: int| 0 <= j < n ==> #[trigger] s[j] == recs@[j]@,
        decreases n - i,
    {
        let mut j: usize = i + 1;
        while j < n
            invariant
                n == recs@.len(),
                s == rec_views(recs@),
                s.len() == n,
                i < j <= n,
                i < n,
                forall|q: int| i < q < j ==> s[i as int].variant != s[q].variant,
                forall|q: int| 0 <= q < n ==> #[trigger] s[q] == recs@[q]@,
            decreases n - j,
        {
            if recs[i].variant == recs[j].variant {
                proof {
                    assert(s[i as int].variant == s[j as int].variant);
                }
                return false;
            }
            j += 1;
        }
        i += 1;
    }
    true
}

/// Round trip: for every oid present in the catalog, the record that the
/// lookup finds carries that same oid.
pub proof fn lemma_lookup_round_trip(c: Catalog, oid: u32)
    requires
        oid_present(c@, oid),
    ensures
        c@[rec_find(c@, oid, 0)].oid == oid,
{
    lemma_rec_find(c@, oid, 0);
}

/// No dangling cross-references: every array or range record of a
/// well-formed catalog carries an element oid, and that oid names a record
/// of the same catalog.
pub proof fn lemma_refs_resolved(c: Catalog, i: int)
    requires
        c.wf(),
        0 <= i < c@.len(),
        c@[i].kind == KindCode::Array || c@[i].kind == KindCode::Range,
    ensures
        c@[i].element_oid is Some,
        oid_present(c@, c@[i].element_oid->0),
{
    assert(ref_ok(c@, i));
}

/// Filtering: no record of a well-formed catalog has a composite or
/// enumerated kind; such rows never produce a record, so none of the
/// generated blocks, each a function of the catalog's records alone, can
/// mention one.
pub proof fn lemma_kinds_static(c: Catalog, i: int)
    requires
        c.wf(),
        0 <= i < c@.len(),
    ensures
        c@[i].kind != KindCode::Composite,
        c@[i].kind != KindCode::Enum,
{
    assert(static_kind(c@[i].kind));
}

// ---------------------------------------------------------------------------
// The full catalog build
// ---------------------------------------------------------------------------

/// The finished catalog of both snapshots: ranges parsed, types parsed
/// against them, cross-references and variant uniqueness checked.
pub open spec fn build_catalog_spec(types_text: Seq<char>, ranges_text: Seq<char>) -> Result<
    Seq<RecModel>,
    BuildError,
> {
    match crate::ranges::parse_ranges_spec(ranges_text) {
        Err(e) => Err(e),
        Ok(rt) => match parse_types_spec(types_text, rt) {
            Err(e) => Err(e),
            Ok(cat) => if !refs_resolved(cat) {
                Err(BuildError::UnresolvedReference)
            } else if !variants_unique(cat) {
                Err(BuildError::DuplicateKey)
            } else {
                Ok(cat)
            },
        },
    }
}

/// Builds and validates the whole catalog; on success the catalog is
/// well-formed.
pub fn build_catalog(types_text: &str, ranges_text: &str) -> (r: Result<Catalog, BuildError>)
    ensures
        match r {
            Ok(c) => build_catalog_spec(types_text@, ranges_text@) == Ok::<
                Seq<RecModel>,
                BuildError,
            >(c@) && c.wf(),
            Err(e) => build_catalog_spec(types_text@, ranges_text@) == Err::<
                Seq<RecModel>,
                BuildError,
            >(e),
        },
{
    let rt = match crate::ranges::parse_ranges(ranges_text) {
        Ok(rt) => rt,
        Err(e) => {
            return Err(e);
        },
    };
    let cat = match parse_types(types_text, &rt) {
        Ok(c) => c,
        Err(e) => {
            return Err(e);
        },
    };
    if !check_refs(&cat.recs) {
        return Err(BuildError::UnresolvedReference);
    }
    if !check_variants(&cat.recs) {
        return Err(BuildError::DuplicateKey);
    }
    Ok(cat)
}

} // verus!
