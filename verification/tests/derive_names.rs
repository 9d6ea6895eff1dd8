use type_gen::names::variant_label;

#[test]
fn array_name_defining_case() {
    assert_eq!(variant_label("_int4"), "Int4Array");
}

#[test]
fn range_name_defining_case() {
    assert_eq!(variant_label("int4range"), "Int4Range");
}

#[test]
fn anyarray_special_case() {
    assert_eq!(variant_label("anyarray"), "AnyArray");
}

#[test]
fn vector_suffix_case() {
    assert_eq!(variant_label("tsvector"), "TsVector");
}

#[test]
fn plain_snake_case_name() {
    assert_eq!(variant_label("pg_lsn"), "PgLsn");
}

#[test]
fn array_of_range_name() {
    assert_eq!(variant_label("_int4range"), "Int4RangeArray");
}

#[test]
fn plain_name_unchanged_shape() {
    assert_eq!(variant_label("int4"), "Int4");
    assert_eq!(variant_label("timestamptz"), "Timestamptz");
}

#[test]
fn distinct_names_distinct_labels() {
    let names = [
        "int4", "_int4", "int8", "_int8", "int4range", "_int4range", "anyarray", "anyrange",
        "tsvector", "_tsvector", "pg_lsn", "_pg_lsn", "text", "varchar", "int2vector",
    ];
    for a in names.iter() {
        for b in names.iter() {
            if a != b {
                assert_ne!(variant_label(a), variant_label(b));
            }
        }
    }
}
