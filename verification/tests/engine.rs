use tesseract::detection::detect_cube;
use tesseract::error::Error;
use tesseract::query::{AggregateQueryOpt, Query};
use tesseract::schema::{Cube, CubeMeasure, Database, Dimension, Hierarchy, Level, Schema};

fn empty_opt() -> AggregateQueryOpt {
    AggregateQueryOpt {
        drilldowns: None,
        cuts: None,
        measures: None,
        properties: None,
        filters: None,
        captions: None,
        parents: None,
        top: None,
        top_where: None,
        sort: None,
        limit: None,
        growth: None,
        rca: None,
        rate: None,
        debug: None,
        exclude_default_members: None,
        sparse: None,
    }
}

fn sales_cube() -> Cube {
    Cube {
        name: "sales".to_owned(),
        table: "sales".to_owned(),
        dimensions: vec![Dimension {
            name: "geo".to_owned(),
            hierarchies: vec![Hierarchy {
                name: "country".to_owned(),
                levels: vec![Level {
                    name: "state".to_owned(),
                    key_column: "state".to_owned(),
                }],
            }],
        }],
        measures: vec![CubeMeasure {
            name: "revenue".to_owned(),
            column: "revenue".to_owned(),
            aggregator: "SUM".to_owned(),
        }],
        min_auth_level: 0,
    }
}

fn sales_schema() -> Schema {
    Schema { cubes: vec![sales_cube()] }
}

fn query_of(opt: AggregateQueryOpt) -> Query {
    match Query::try_from(opt) {
        Ok(q) => q,
        Err(_) => panic!("query conversion failed"),
    }
}

#[test]
fn end_to_end_sales() {
    let schema = sales_schema();
    let mut opt = empty_opt();
    opt.drilldowns = Some(vec!["geo.country.state".to_owned()]);
    opt.measures = Some(vec!["revenue".to_owned()]);
    let q = query_of(opt);
    let (sql, headers) = match schema.sql_query("sales", &q, Database::Clickhouse) {
        Ok(p) => p,
        Err(_) => panic!("sql_query failed"),
    };
    assert_eq!(
        sql,
        "SELECT state, SUM(revenue) AS revenue FROM sales GROUP BY state ORDER BY revenue DESC"
    );
    assert_eq!(headers, vec!["state".to_owned(), "revenue".to_owned()]);
}

#[test]
fn sql_query_with_cut() {
    let schema = sales_schema();
    let mut opt = empty_opt();
    opt.cuts = Some(vec!["geo.country.state.CA,NY".to_owned()]);
    opt.measures = Some(vec!["revenue".to_owned()]);
    let q = query_of(opt);
    let (sql, headers) = match schema.sql_query("sales", &q, Database::Clickhouse) {
        Ok(p) => p,
        Err(_) => panic!("sql_query failed"),
    };
    assert_eq!(
        sql,
        "SELECT SUM(revenue) AS revenue FROM sales WHERE state IN (CA, NY) ORDER BY revenue DESC"
    );
    assert_eq!(headers, vec!["revenue".to_owned()]);
}

#[test]
fn sql_query_with_exclusive_cut() {
    let schema = sales_schema();
    let mut opt = empty_opt();
    opt.drilldowns = Some(vec!["geo.country.state".to_owned()]);
    opt.cuts = Some(vec!["geo.country.state.~CA".to_owned()]);
    opt.measures = Some(vec!["revenue".to_owned()]);
    let q = query_of(opt);
    let (sql, _) = match schema.sql_query("sales", &q, Database::Clickhouse) {
        Ok(p) => p,
        Err(_) => panic!("sql_query failed"),
    };
    assert_eq!(
        sql,
        "SELECT state, SUM(revenue) AS revenue FROM sales WHERE state NOT IN (CA) GROUP BY state ORDER BY revenue DESC"
    );
}

#[test]
fn sql_query_with_sort_and_limit() {
    let schema = sales_schema();
    let mut opt = empty_opt();
    opt.drilldowns = Some(vec!["geo.country.state".to_owned()]);
    opt.measures = Some(vec!["revenue".to_owned()]);
    opt.sort = Some("revenue.asc".to_owned());
    opt.limit = Some("50".to_owned());
    let q = query_of(opt);
    let (sql, _) = match schema.sql_query("sales", &q, Database::Clickhouse) {
        Ok(p) => p,
        Err(_) => panic!("sql_query failed"),
    };
    assert_eq!(
        sql,
        "SELECT state, SUM(revenue) AS revenue FROM sales GROUP BY state ORDER BY revenue ASC LIMIT 50"
    );
}

#[test]
fn sql_query_with_having() {
    let schema = sales_schema();
    let mut opt = empty_opt();
    opt.drilldowns = Some(vec!["geo.country.state".to_owned()]);
    opt.measures = Some(vec!["revenue".to_owned()]);
    opt.top_where = Some("revenue > 100".to_owned());
    let q = query_of(opt);
    let (sql, _) = match schema.sql_query("sales", &q, Database::Clickhouse) {
        Ok(p) => p,
        Err(_) => panic!("sql_query failed"),
    };
    assert_eq!(
        sql,
        "SELECT state, SUM(revenue) AS revenue FROM sales GROUP BY state HAVING revenue > 100 ORDER BY revenue DESC"
    );
}

#[test]
fn resolution_errors_name_the_identifier() {
    let schema = sales_schema();
    let mut opt = empty_opt();
    opt.drilldowns = Some(vec!["geo.country.city".to_owned()]);
    opt.measures = Some(vec!["revenue".to_owned()]);
    let q = query_of(opt);
    match schema.sql_query("sales", &q, Database::Clickhouse) {
        Err(Error::Validation(m)) => {
            assert_eq!(m, "could not find drilldown level in cube: geo.country.city")
        },
        _ => panic!("expected a validation error"),
    }

    let mut opt2 = empty_opt();
    opt2.cuts = Some(vec!["geo.region.zone.Z1".to_owned()]);
    opt2.measures = Some(vec!["revenue".to_owned()]);
    let q2 = query_of(opt2);
    match schema.sql_query("sales", &q2, Database::Clickhouse) {
        Err(Error::Validation(m)) => {
            assert_eq!(m, "could not find cut level in cube: geo.region.zone")
        },
        _ => panic!("expected a validation error"),
    }

    let mut opt3 = empty_opt();
    opt3.drilldowns = Some(vec!["geo.country.state".to_owned()]);
    opt3.measures = Some(vec!["profit".to_owned()]);
    let q3 = query_of(opt3);
    match schema.sql_query("sales", &q3, Database::Clickhouse) {
        Err(Error::Validation(m)) => {
            assert_eq!(m, "could not find measure in cube: profit")
        },
        _ => panic!("expected a validation error"),
    }

    let mut opt4 = empty_opt();
    opt4.drilldowns = Some(vec!["geo.country.state".to_owned()]);
    opt4.measures = Some(vec!["revenue".to_owned()]);
    let q4 = query_of(opt4);
    match schema.sql_query("inventory", &q4, Database::Clickhouse) {
        Err(Error::Validation(m)) => {
            assert_eq!(m, "no table found for cube: inventory")
        },
        _ => panic!("expected a validation error"),
    }
}

#[test]
fn detect_cube_failure_names_no_match() {
    let schema = sales_schema();
    let mut opt = empty_opt();
    opt.drilldowns = Some(vec!["prod.cat.item".to_owned()]);
    match detect_cube(&schema, &opt) {
        Err(Error::Validation(m)) => {
            assert_eq!(m, "No cubes found with the requested drilldowns/cuts/measures.")
        },
        _ => panic!("expected a validation error"),
    }
}

#[test]
fn no_measure_fails() {
    let schema = sales_schema();
    let mut opt = empty_opt();
    opt.drilldowns = Some(vec!["geo.country.state".to_owned()]);
    opt.cuts = Some(vec!["geo.country.state.CA".to_owned()]);
    let q = query_of(opt);
    match schema.sql_query("sales", &q, Database::Clickhouse) {
        Err(Error::Validation(m)) => {
            assert_eq!(m, "No measure found; please specify at least one");
        },
        _ => panic!("expected the no-measure validation error"),
    }
}

#[test]
fn no_drilldown_or_cut_fails() {
    let schema = sales_schema();
    let mut opt = empty_opt();
    opt.measures = Some(vec!["revenue".to_owned()]);
    let q = query_of(opt);
    match schema.sql_query("sales", &q, Database::Clickhouse) {
        Err(Error::Validation(m)) => {
            assert_eq!(m, "Either a drilldown or cut is required");
        },
        _ => panic!("expected the drilldown-or-cut validation error"),
    }
}

#[test]
fn unknown_cube_fails() {
    let schema = sales_schema();
    let mut opt = empty_opt();
    opt.drilldowns = Some(vec!["geo.country.state".to_owned()]);
    opt.measures = Some(vec!["revenue".to_owned()]);
    let q = query_of(opt);
    assert!(matches!(
        schema.sql_query("inventory", &q, Database::Clickhouse),
        Err(Error::Validation(_))
    ));
}

#[test]
fn unknown_measure_fails() {
    let schema = sales_schema();
    let mut opt = empty_opt();
    opt.drilldowns = Some(vec!["geo.country.state".to_owned()]);
    opt.measures = Some(vec!["profit".to_owned()]);
    let q = query_of(opt);
    assert!(matches!(
        schema.sql_query("sales", &q, Database::Clickhouse),
        Err(Error::Validation(_))
    ));
}

#[test]
fn unknown_level_fails() {
    let schema = sales_schema();
    let mut opt = empty_opt();
    opt.drilldowns = Some(vec!["geo.country.city".to_owned()]);
    opt.measures = Some(vec!["revenue".to_owned()]);
    let q = query_of(opt);
    assert!(matches!(
        schema.sql_query("sales", &q, Database::Clickhouse),
        Err(Error::Validation(_))
    ));
}

#[test]
fn cube_metadata_first_match() {
    let schema = sales_schema();
    let cube = match schema.cube_metadata("sales") {
        Some(c) => c,
        None => panic!("cube not found"),
    };
    assert_eq!(cube.name, "sales");
    assert_eq!(cube.table, "sales");
    assert_eq!(cube.min_auth_level, 0);
    assert!(schema.cube_metadata("missing").is_none());
}

#[test]
fn cube_table_lookup() {
    let schema = sales_schema();
    assert_eq!(schema.cube_table("sales"), Some("sales".to_owned()));
    assert_eq!(schema.cube_table("missing"), None);
}

#[test]
fn all_level_and_measure_names() {
    let cube = sales_cube();
    let levels = cube.get_all_level_names();
    assert_eq!(levels.len(), 1);
    assert_eq!(levels[0].dimension, "geo");
    assert_eq!(levels[0].hierarchy, "country");
    assert_eq!(levels[0].level, "state");
    let measures = cube.get_all_measure_names();
    assert_eq!(measures.len(), 1);
    assert_eq!(measures[0].0, "revenue");
}

#[test]
fn detect_cube_picks_first_match() {
    let other = Cube {
        name: "inventory".to_owned(),
        table: "inventory".to_owned(),
        dimensions: vec![Dimension {
            name: "wh".to_owned(),
            hierarchies: vec![Hierarchy {
                name: "site".to_owned(),
                levels: vec![Level {
                    name: "bin".to_owned(),
                    key_column: "bin".to_owned(),
                }],
            }],
        }],
        measures: Vec::new(),
        min_auth_level: 0,
    };
    let schema = Schema { cubes: vec![other, sales_cube()] };
    let mut opt = empty_opt();
    opt.drilldowns = Some(vec!["geo.country.state".to_owned()]);
    let name = match detect_cube(&schema, &opt) {
        Ok(n) => n,
        Err(_) => panic!("detection failed"),
    };
    assert_eq!(name, "sales");
}

#[test]
fn detect_cube_is_deterministic() {
    let schema = sales_schema();
    let mut opt = empty_opt();
    opt.drilldowns = Some(vec!["geo.country.state".to_owned()]);
    opt.measures = Some(vec!["revenue".to_owned()]);
    let first = match detect_cube(&schema, &opt) {
        Ok(n) => n,
        Err(_) => panic!("detection failed"),
    };
    let second = match detect_cube(&schema, &opt) {
        Ok(n) => n,
        Err(_) => panic!("detection failed"),
    };
    assert_eq!(first, second);
    assert_eq!(first, "sales");
}

#[test]
fn detect_cube_uses_cut_levels() {
    let schema = sales_schema();
    let mut opt = empty_opt();
    opt.cuts = Some(vec!["geo.country.state.CA".to_owned()]);
    let name = match detect_cube(&schema, &opt) {
        Ok(n) => n,
        Err(_) => panic!("detection failed"),
    };
    assert_eq!(name, "sales");
}

#[test]
fn detect_cube_skips_malformed_entries() {
    let schema = sales_schema();
    let mut opt = empty_opt();
    opt.drilldowns = Some(vec!["not-a-path".to_owned(), "geo.country.state".to_owned()]);
    let name = match detect_cube(&schema, &opt) {
        Ok(n) => n,
        Err(_) => panic!("detection failed"),
    };
    assert_eq!(name, "sales");
}

#[test]
fn detect_cube_ignores_missing_measures() {
    // The engine's acceptance check deliberately never rejects a cube
    // for a missing measure.
    let schema = sales_schema();
    let mut opt = empty_opt();
    opt.drilldowns = Some(vec!["geo.country.state".to_owned()]);
    opt.measures = Some(vec!["profit".to_owned()]);
    let name = match detect_cube(&schema, &opt) {
        Ok(n) => n,
        Err(_) => panic!("detection failed"),
    };
    assert_eq!(name, "sales");
}

#[test]
fn detect_cube_fails_without_match() {
    let schema = sales_schema();
    let mut opt = empty_opt();
    opt.drilldowns = Some(vec!["prod.cat.item".to_owned()]);
    assert!(matches!(detect_cube(&schema, &opt), Err(Error::Validation(_))));
}

#[test]
fn error_messages_carry_through() {
    let e = Error::Connection("pool exhausted".to_owned());
    assert_eq!(e.message(), "pool exhausted");
    let e2 = Error::Execution("syntax error near FROM".to_owned());
    assert_eq!(e2.message(), "syntax error near FROM");
}
