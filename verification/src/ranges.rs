//! The range table parser: from the range catalog snapshot's text to an
//! ordered table mapping each range type's oid to the oid of its element
//! (subtype). Rows are the lines that begin with the `DATA` marker; the
//! row's own oid stands at field position 3 and its element oid at field
//! position 4, counted from zero over the whitespace-separated fields.
//! A malformed numeric field or a short row is a fatal parse error.

use vstd::prelude::*;

use crate::text::{fields_of, lines_of, parse_u32_chars, parse_u32_spec, split_fields,
    split_lines, str_to_chars, views};

verus! {

#[derive(Clone, Copy, Debug, PartialEq, Eq, Structural)]
pub enum BuildError {
    /// A row that does not meet the field grammar: too few fields, or a
    /// numeric field that is not a decimal numeral fitting in `u32`.
    StructuralParse,
    /// Two rows with the same oid, or two rows whose derived variant labels
    /// coincide.
    DuplicateKey,
    /// An array or range record whose element oid names no record of the
    /// catalog.
    UnresolvedReference,
}

/// A data row: the line starts with the `DATA` marker.
pub open spec fn is_data_line(l: Seq<char>) -> bool {
    l.len() >= 4 && l[0] == 'D' && l[1] == 'A' && l[2] == 'T' && l[3] == 'A'
}

pub fn is_data(l: &Vec<char>) -> (r: bool)
    ensures
        r == is_data_line(l@),
{
    l.len() >= 4 && l[0] == 'D' && l[1] == 'A' && l[2] == 'T' && l[3] == 'A'
}

// ---------------------------------------------------------------------------
// The ordered range table
// ---------------------------------------------------------------------------

#[derive(Clone, Copy, Debug, PartialEq, Eq, Structural)]
pub struct RangeEntry {
    pub range_oid: u32,
    pub element_oid: u32,
}

pub open spec fn entries_sorted(s: Seq<RangeEntry>) -> bool {
    forall|i: int, j: int| 0 <= i < j < s.len() ==> s[i].range_oid < s[j].range_oid
}

/// The range table: entries in strictly increasing oid order, one per
/// defined range type.
#[derive(Debug)]
pub struct RangeTable {
    pub entries: Vec<RangeEntry>,
}

impl RangeTable {
    pub open spec fn wf(self) -> bool {
        entries_sorted(self.entries@)
    }
}

/// The first position at or after `i` whose key is at least `k`.
pub open spec fn first_ge_range(s: Seq<RangeEntry>, k: u32, i: int) -> int
    decreases s.len() - i,
{
    if i < 0 || i >= s.len() {
        i
    } else if s[i].range_oid >= k {
        i
    } else {
        first_ge_range(s, k, i + 1)
    }
}

pub proof fn lemma_first_ge_range(s: Seq<RangeEntry>, k: u32, i: int)
    requires
        0 <= i <= s.len(),
    ensures
        i <= first_ge_range(s, k, i) <= s.len(),
        forall|j: int| i <= j < first_ge_range(s, k, i) ==> s[j].range_oid < k,
        first_ge_range(s, k, i) < s.len() ==> s[first_ge_range(s, k, i)].range_oid >= k,
    decreases s.len() - i,
{
    if i < s.len() && s[i].range_oid < k {
        lemma_first_ge_range(s, k, i + 1);
    }
}

/// Insertion in key order; an entry with the same key is replaced.
pub open spec fn range_insert(s: Seq<RangeEntry>, e: RangeEntry) -> Seq<RangeEntry> {
    let i = first_ge_range(s, e.range_oid, 0);
    if i < s.len() && s[i].range_oid == e.range_oid {
        s.update(i, e)
    } else {
        s.insert(i, e)
    }
}

pub proof fn lemma_range_insert_sorted(s: Seq<RangeEntry>, e: RangeEntry)
    requires
        entries_sorted(s),
    ensures
        entries_sorted(range_insert(s, e)),
{
    lemma_first_ge_range(s, e.range_oid, 0);
    let i = first_ge_range(s, e.range_oid, 0);
    if i < s.len() && s[i].range_oid == e.range_oid {
        let t = s.update(i, e);
        assert forall|p: int, q: int| 0 <= p < q < t.len() implies t[p].range_oid
            < t[q].range_oid by {
            assert(s[p].range_oid < s[q].range_oid);
        }
    } else {
        let t = s.insert(i, e);
        assert forall|p: int, q: int| 0 <= p < q < t.len() implies t[p].range_oid
            < t[q].range_oid by {
            if p < i && q == i {
                assert(t[p] == s[p]);
                assert(t[q] == e);
            } else if p == i && q > i {
                assert(t[p] == e);
                assert(t[q] == s[q - 1]);
                assert(s[q - 1].range_oid >= s[i].range_oid);
            } else if p < i && q > i {
                assert(t[p] == s[p]);
                assert(t[q] == s[q - 1]);
            } else if p > i && q > i {
                assert(t[p] == s[p - 1]);
                assert(t[q] == s[q - 1]);
            } else {
                assert(t[p] == s[p]);
                assert(t[q] == s[q]);
            }
        }
    }
}

fn range_insert_exec(entries: &mut Vec<RangeEntry>, e: RangeEntry)
    requires
        entries_sorted(old(entries)@),
    ensures
        final(entries)@ == range_insert(old(entries)@, e),
        entries_sorted(final(entries)@),
{
    proof {
        lemma_first_ge_range(entries@, e.range_oid, 0);
        lemma_range_insert_sorted(entries@, e);
    }
    let n = entries.len();
    let mut i: usize = 0;
    while i < n && entries[i].range_oid < e.range_oid
        invariant
            n == entries@.len(),
            i <= n,
            first_ge_range(entries@, e.range_oid, 0) == first_ge_range(
                entries@,
                e.range_oid,
                i as int,
            ),
        decreases n - i,
    {
        i += 1;
    }
    if i < n && entries[i].range_oid == e.range_oid {
        entries.set(i, e);
    } else {
        entries.insert(i, e);
    }
}

/// The first position at or after `i` holding the key `k`.
pub open spec fn range_find(s: Seq<RangeEntry>, k: u32, i: int) -> int
    decreases s.len() - i,
{
    if i < 0 || i >= s.len() {
        i
    } else if s[i].range_oid == k {
        i
    } else {
        range_find(s, k, i + 1)
    }
}

pub proof fn lemma_range_find(s: Seq<RangeEntry>, k: u32, i: int)
    requires
        0 <= i <= s.len(),
    ensures
        i <= range_find(s, k, i) <= s.len(),
        forall|j: int| i <= j < range_find(s, k, i) ==> s[j].range_oid != k,
        range_find(s, k, i) < s.len() ==> s[range_find(s, k, i)].range_oid == k,
    decreases s.len() - i,
{
    if i < s.len() && s[i].range_oid != k {
        lemma_range_find(s, k, i + 1);
    }
}

/// The element oid recorded for the range type `k`, if any.
pub open spec fn range_lookup_spec(s: Seq<RangeEntry>, k: u32) -> Option<u32> {
    let i = range_find(s, k, 0);
    if i < s.len() {
        Some(s[i].element_oid)
    } else {
        None
    }
}

impl RangeTable {
    /// The recorded element oid of the range type `k`, or `None` when `k`
    /// names no range type.
    pub fn lookup(&self, k: u32) -> (r: Option<u32>)
        ensures
            r == range_lookup_spec(self.entries@, k),
    {
        proof {
            lemma_range_find(self.entries@, k, 0);
        }
        let n = self.entries.len();
        let mut i: usize = 0;
        while i < n && self.entries[i].range_oid != k
            invariant
                n == self.entries@.len(),
                i <= n,
                range_find(self.entries@, k, 0) == range_find(self.entries@, k, i as int),
            decreases n - i,
        {
            i += 1;
        }
        if i < n {
            Some(self.entries[i].element_oid)
        } else {
            None
        }
    }
}

// ---------------------------------------------------------------------------
// Parsing the range catalog snapshot
// ---------------------------------------------------------------------------

/// What one line of the snapshot does to the table.
pub open spec fn range_row_step(tbl: Seq<RangeEntry>, l: Seq<char>) -> Result<
    Seq<RangeEntry>,
    BuildError,
> {
    if !is_data_line(l) {
        Ok(tbl)
    } else {
        let f = fields_of(l);
        if f.len() < 5 {
            Err(BuildError::StructuralParse)
        } else {
            match (parse_u32_spec(f[3]), parse_u32_spec(f[4])) {
                (Some(o), Some(e)) => Ok(
                    range_insert(tbl, RangeEntry { range_oid: o, element_oid: e }),
                ),
                _ => Err(BuildError::StructuralParse),
            }
        }
    }
}

pub open spec fn ranges_from(ls: Seq<Seq<char>>, i: int, tbl: Seq<RangeEntry>) -> Result<
    Seq<RangeEntry>,
    BuildError,
>
    decreases ls.len() - i,
{
    if i < 0 || i >= ls.len() {
        Ok(tbl)
    } else {
        match range_row_step(tbl, ls[i]) {
            Ok(t) => ranges_from(ls, i + 1, t),
            Err(e) => Err(e),
        }
    }
}

/// The whole snapshot: every data row folded into the table in turn,
/// stopping at the first malformed row.
pub open spec fn parse_ranges_spec(text: Seq<char>) -> Result<Seq<RangeEntry>, BuildError> {
    ranges_from(lines_of(text), 0, Seq::empty())
}

/// Parses the range catalog snapshot into the ordered range table.
pub fn parse_ranges(text: &str) -> (r: Result<RangeTable, BuildError>)
    ensures
        match r {
            Ok(t) => parse_ranges_spec(text@) == Ok::<Seq<RangeEntry>, BuildError>(t.entries@)
                && t.wf(),
            Err(e) => parse_ranges_spec(text@) == Err::<Seq<RangeEntry>, BuildError>(e),
        },
{
    let chars = str_to_chars(text);
    let lines = split_lines(&chars);
    let n = lines.len();
    let ghost ls = lines_of(text@);
    let mut entries: Vec<RangeEntry> = Vec::new();
    let mut i: usize = 0;
    proof {
        assert(entries@ =~= Seq::<RangeEntry>::empty());
    }
    while i < n
        invariant
            n == lines@.len(),
            i <= n,
            ls == views(lines@),
            parse_ranges_spec(text@) == ranges_from(ls, i as int, entries@),
            entries_sorted(entries@),
        decreases n - i,
    {
        proof {
            assert(ls[i as int] == lines@[i as int]@);
        }
        let l = &lines[i];
        if is_data(l) {
            let fields = split_fields(l);
            let ghost fs = fields_of(l@);
            if fields.len() < 5 {
                return Err(BuildError::StructuralParse);
            }
            proof {
                assert(fs[3] == fields@[3]@);
                assert(fs[4] == fields@[4]@);
            }
            let o = match parse_u32_chars(&fields[3]) {
                Some(o) => o,
                None => {
                    return Err(BuildError::StructuralParse);
                },
            };
            let e = match parse_u32_chars(&fields[4]) {
                Some(e) => e,
                None => {
                    return Err(BuildError::StructuralParse);
                },
            };
            range_insert_exec(&mut entries, RangeEntry { range_oid: o, element_oid: e });
        }
        i += 1;
    }
    Ok(RangeTable { entries })
}

} // verus!
