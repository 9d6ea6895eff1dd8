use type_gen::catalog::{build_catalog, parse_types, KindCode};
use type_gen::emit::{generate, rendered_type_name};
use type_gen::ranges::{parse_ranges, BuildError};

// A small but complete pair of snapshots: a simple type, its array type,
// and a range type over it, with a description line on the simple type.
fn types_snapshot() -> String {
    let mut s = String::new();
    s.push_str("some prose the parser must ignore\n");
    s.push_str("DATA(insert OID = 23 ( int4 a b c d e b f g h i 0 j\n");
    s.push_str("DESCR(\"a < b\");\n");
    s.push_str("DATA(insert OID = 1007 ( _int4 a b c d e A f g h i 23 j\n");
    s.push_str("DATA(insert OID = 3904 ( int4range a b c d e R f g h i 7777 j\n");
    s
}

fn ranges_snapshot() -> String {
    let mut s = String::new();
    s.push_str("more prose\n");
    s.push_str("DATA(insert ( 0 3904 23 )\n");
    s
}

#[test]
fn range_table_lookup() {
    let t = parse_ranges(&ranges_snapshot()).unwrap();
    assert_eq!(t.lookup(3904), Some(23));
    assert_eq!(t.lookup(23), None);
}

#[test]
fn range_table_malformed_numeral() {
    let r = parse_ranges("DATA(insert ( 0 39x4 23 )\n");
    assert_eq!(r.unwrap_err(), BuildError::StructuralParse);
}

#[test]
fn range_table_short_row() {
    let r = parse_ranges("DATA(insert ( 0\n");
    assert_eq!(r.unwrap_err(), BuildError::StructuralParse);
}

#[test]
fn catalog_records_and_cross_references() {
    let cat = build_catalog(&types_snapshot(), &ranges_snapshot()).unwrap();
    assert_eq!(cat.recs.len(), 3);
    assert_eq!(cat.recs[0].oid, 23);
    assert_eq!(cat.recs[0].name, "int4");
    assert_eq!(cat.recs[0].variant, "Int4");
    assert_eq!(cat.recs[0].kind, KindCode::Simple);
    assert_eq!(cat.recs[0].element_oid, None);
    assert_eq!(cat.recs[0].doc, "INT4 - a &lt; b");
    assert_eq!(cat.recs[1].oid, 1007);
    assert_eq!(cat.recs[1].variant, "Int4Array");
    assert_eq!(cat.recs[1].kind, KindCode::Array);
    assert_eq!(cat.recs[1].element_oid, Some(23));
    assert_eq!(cat.recs[1].doc, "INT4&#91;&#93;");
    assert_eq!(cat.recs[2].oid, 3904);
    assert_eq!(cat.recs[2].kind, KindCode::Range);
    // the range table wins over the static element field
    assert_eq!(cat.recs[2].element_oid, Some(23));
    // every element oid resolves inside the catalog
    for rec in &cat.recs {
        if let Some(e) = rec.element_oid {
            assert!(cat.lookup_by_oid(e).is_some());
        }
    }
}

#[test]
fn lookup_round_trip() {
    let cat = build_catalog(&types_snapshot(), &ranges_snapshot()).unwrap();
    for oid in [23u32, 1007, 3904] {
        let rec = cat.lookup_by_oid(oid).unwrap();
        assert_eq!(rec.oid, oid);
    }
    assert!(cat.lookup_by_oid(99).is_none());
}

#[test]
fn generated_blocks() {
    let code = generate(&types_snapshot(), &ranges_snapshot()).unwrap();
    assert!(code.contains("    /// INT4 - a &lt; b\n    Int4,\n"));
    assert!(code.contains("    /// INT4&#91;&#93;\n    Int4Array,\n"));
    assert!(code.contains("    /// INT4RANGE\n    Int4Range,\n"));
    assert!(code.contains("            23 => Some(Type::Int4),\n"));
    assert!(code.contains("            1007 => Some(Type::Int4Array),\n"));
    assert!(code.contains("            3904 => Some(Type::Int4Range),\n"));
    assert!(code.contains("            Type::Int4 => 23,\n"));
    assert!(code.contains("&Kind::Simple;"));
    assert!(code.contains("&Kind::Array(Type::Int4);"));
    assert!(code.contains("&Kind::Range(Type::Int4);"));
    assert!(code.contains("            Type::Int4Array => \"_int4\",\n"));
    // the oid table lists the records in ascending oid order
    let a = code.find("23 => Some(Type::Int4)").unwrap();
    let b = code.find("1007 => Some(Type::Int4Array)").unwrap();
    let c = code.find("3904 => Some(Type::Int4Range)").unwrap();
    assert!(a < b && b < c);
}

#[test]
fn pseudo_kind_and_special_label() {
    let mut types = types_snapshot();
    types.push_str("DATA(insert OID = 2277 ( anyarray a b c d e P f g h i 0 j\n");
    let cat = build_catalog(&types, &ranges_snapshot()).unwrap();
    let rec = cat.lookup_by_oid(2277).unwrap();
    assert_eq!(rec.variant, "AnyArray");
    assert_eq!(rec.kind, KindCode::Pseudo);
    assert_eq!(rec.element_oid, None);
    let code = generate(&types, &ranges_snapshot()).unwrap();
    assert!(code.contains("            Type::AnyArray => {\n                const V: &'static Kind = &Kind::Pseudo;\n                V\n            }\n"));
    assert!(code.contains("            2277 => Some(Type::AnyArray),\n"));
}

#[test]
fn deterministic_output() {
    let once = generate(&types_snapshot(), &ranges_snapshot()).unwrap();
    let twice = generate(&types_snapshot(), &ranges_snapshot()).unwrap();
    assert_eq!(once.as_bytes(), twice.as_bytes());
}

#[test]
fn empty_catalog_emits_complete_wrapper() {
    let code = generate("no data rows here\n", "none here either\n").unwrap();
    let mut expected = String::new();
    expected.push_str(
        "// Autogenerated file - DO NOT EDIT\nuse std::fmt;\n\nuse types::{Oid, Kind, Other};\n\n",
    );
    expected.push_str(
        "/// A Postgres type.\n#[derive(PartialEq, Eq, Clone, Debug)]\npub enum Type {\n",
    );
    expected.push_str("    /// An unknown type.\n    Other(Other),\n}\n\n");
    expected.push_str(
        "impl fmt::Display for Type {\n    fn fmt(&self, fmt: &mut fmt::Formatter) -> fmt::Result {\n        match self.schema() {\n            \"public\" | \"pg_catalog\" => {}\n            schema => write!(fmt, \"{}.\", schema)?,\n        }\n        fmt.write_str(self.name())\n    }\n}\n\n",
    );
    expected.push_str(
        "impl Type {\n    /// Returns the `Type` corresponding to the provided `Oid` if it\n    /// corresponds to a built-in type.\n    pub fn from_oid(oid: Oid) -> Option<Type> {\n        match oid {\n",
    );
    expected.push_str(
        "            _ => None,\n        }\n    }\n\n    /// Returns the OID of the `Type`.\n    pub fn oid(&self) -> Oid {\n        match *self {\n",
    );
    expected.push_str(
        "            Type::Other(ref u) => u.oid(),\n        }\n    }\n\n    /// Returns the kind of this type.\n    pub fn kind(&self) -> &Kind {\n        match *self {\n",
    );
    expected.push_str(
        "            Type::Other(ref u) => u.kind(),\n        }\n    }\n\n    /// Returns the schema of this type.\n    pub fn schema(&self) -> &str {\n        match *self {\n            Type::Other(ref u) => u.schema(),\n            _ => \"pg_catalog\",\n        }\n    }\n\n    /// Returns the name of this type.\n    pub fn name(&self) -> &str {\n        match *self {\n",
    );
    expected.push_str("            Type::Other(ref u) => u.name(),\n        }\n    }\n}\n");
    assert_eq!(code, expected);
}

#[test]
fn composite_and_enum_rows_are_filtered() {
    let mut types = types_snapshot();
    types.push_str("DATA(insert OID = 600 ( mycomposite a b c d e C f g h i 0 j\n");
    types.push_str("DATA(insert OID = 601 ( myenum a b c d e E f g h i 0 j\n");
    let cat = build_catalog(&types, &ranges_snapshot()).unwrap();
    assert!(cat.lookup_by_oid(600).is_none());
    assert!(cat.lookup_by_oid(601).is_none());
    let code = generate(&types, &ranges_snapshot()).unwrap();
    assert!(!code.contains("Mycomposite"));
    assert!(!code.contains("Myenum"));
    assert!(!code.contains("600"));
    assert!(!code.contains("601"));
}

#[test]
fn display_rule() {
    assert_eq!(rendered_type_name("pg_catalog", "int4"), "int4");
    assert_eq!(rendered_type_name("public", "int4"), "int4");
    assert_eq!(rendered_type_name("myschema", "typename"), "myschema.typename");
}

#[test]
fn malformed_type_oid_aborts() {
    let types = "DATA(insert OID = 2x ( int4 a b c d e b f g h i 0 j\n";
    let r = generate(types, "");
    assert_eq!(r.unwrap_err(), BuildError::StructuralParse);
}

#[test]
fn short_type_row_aborts() {
    let types = "DATA(insert OID = 23 ( int4\n";
    let r = generate(types, "");
    assert_eq!(r.unwrap_err(), BuildError::StructuralParse);
}

#[test]
fn duplicate_oid_aborts() {
    let mut types = String::new();
    types.push_str("DATA(insert OID = 23 ( int4 a b c d e b f g h i 0 j\n");
    types.push_str("DATA(insert OID = 23 ( int8 a b c d e b f g h i 0 j\n");
    let r = generate(&types, "");
    assert_eq!(r.unwrap_err(), BuildError::DuplicateKey);
}

#[test]
fn duplicate_variant_aborts() {
    let mut types = String::new();
    types.push_str("DATA(insert OID = 23 ( int4 a b c d e b f g h i 0 j\n");
    types.push_str("DATA(insert OID = 24 ( int4_array a b c d e b f g h i 0 j\n");
    types.push_str("DATA(insert OID = 25 ( _int4 a b c d e A f g h i 23 j\n");
    let r = generate(&types, "");
    assert_eq!(r.unwrap_err(), BuildError::DuplicateKey);
}

#[test]
fn dangling_range_element_aborts_without_output() {
    // the range row sends oid 3904 to element 23, but no row 23 exists
    let types = "DATA(insert OID = 3904 ( int4range a b c d e R f g h i 0 j\n";
    let r = generate(types, &ranges_snapshot());
    assert_eq!(r.unwrap_err(), BuildError::UnresolvedReference);
}

#[test]
fn dangling_array_element_aborts() {
    let types = "DATA(insert OID = 1007 ( _int4 a b c d e A f g h i 99 j\n";
    let r = generate(types, "");
    assert_eq!(r.unwrap_err(), BuildError::UnresolvedReference);
}

#[test]
fn parse_types_skips_rows_without_marker() {
    let t = parse_ranges("").unwrap();
    let cat = parse_types("int4 23 not a data row\n", &t).unwrap();
    assert_eq!(cat.recs.len(), 0);
}

#[test]
fn empty_description_is_ignored() {
    let mut types = String::new();
    types.push_str("DATA(insert OID = 23 ( int4 a b c d e b f g h i 0 j\n");
    types.push_str("DESCR(\"\");\n");
    let t = parse_ranges("").unwrap();
    let cat = parse_types(&types, &t).unwrap();
    assert_eq!(cat.recs[0].doc, "INT4");
}

#[test]
fn unclosed_description_is_ignored() {
    let mut types = String::new();
    types.push_str("DATA(insert OID = 23 ( int4 a b c d e b f g h i 0 j\n");
    types.push_str("DESCR(\"left open\n");
    let t = parse_ranges("").unwrap();
    let cat = parse_types(&types, &t).unwrap();
    assert_eq!(cat.recs[0].doc, "INT4");
}

#[test]
fn description_only_when_line_follows_immediately() {
    let mut types = String::new();
    types.push_str("DATA(insert OID = 23 ( int4 a b c d e b f g h i 0 j\n");
    types.push_str("some other line\n");
    types.push_str("DESCR(\"late description\");\n");
    let t = parse_ranges("").unwrap();
    let cat = parse_types(&types, &t).unwrap();
    assert_eq!(cat.recs[0].doc, "INT4");
}
