use tesseract::error::Error;
use tesseract::names::{Cut, Drilldown, LevelName, Measure, Property};
use tesseract::query::{
    AggregateQueryOpt, GrowthQuery, LimitQuery, Query, RateQuery, RcaQuery, SortDirection,
    SortQuery, TopQuery,
};
use tesseract::text::{join_strs, split_str};

fn empty_opt() -> AggregateQueryOpt {
    AggregateQueryOpt {
        drilldowns: None,
        cuts: None,
        measures: None,
        properties: None,
        filters: None,
        captions: None,
        parents: None,
        top: None,
        top_where: None,
        sort: None,
        limit: None,
        growth: None,
        rca: None,
        rate: None,
        debug: None,
        exclude_default_members: None,
        sparse: None,
    }
}

#[test]
fn split_on_dots() {
    let parts = split_str("a.b.c", '.');
    assert_eq!(parts, vec!["a".to_owned(), "b".to_owned(), "c".to_owned()]);
    assert_eq!(split_str("", '.'), vec!["".to_owned()]);
    assert_eq!(split_str("a.", '.'), vec!["a".to_owned(), "".to_owned()]);
    assert_eq!(split_str(".b", '.'), vec!["".to_owned(), "b".to_owned()]);
}

#[test]
fn join_with_separator() {
    let parts = vec!["x".to_owned(), "y".to_owned(), "z".to_owned()];
    assert_eq!(join_strs(&parts, ", "), "x, y, z".to_owned());
    assert_eq!(join_strs(&Vec::new(), ", "), "".to_owned());
}

#[test]
fn level_name_from_vec_matches_parse() {
    let segs = vec!["foo".to_owned(), "bar".to_owned(), "baz".to_owned()];
    let from_vec = LevelName::from_vec(&segs).unwrap_or_else(|_| panic!("from_vec failed"));
    let parsed = match LevelName::parse("foo.bar.baz") {
        Ok(ln) => ln,
        Err(_) => panic!("parse failed"),
    };
    assert_eq!(from_vec.dimension, parsed.dimension);
    assert_eq!(from_vec.hierarchy, parsed.hierarchy);
    assert_eq!(from_vec.level, parsed.level);
    assert_eq!(parsed.dimension, "foo");
    assert_eq!(parsed.hierarchy, "bar");
    assert_eq!(parsed.level, "baz");
    assert!(from_vec.matches(&parsed));
}

#[test]
fn level_name_wrong_arity_fails() {
    let two = vec!["foo".to_owned(), "bar".to_owned()];
    assert!(matches!(LevelName::from_vec(&two), Err(Error::Parse(_))));
    let four = vec![
        "a".to_owned(),
        "b".to_owned(),
        "c".to_owned(),
        "d".to_owned(),
    ];
    assert!(matches!(LevelName::from_vec(&four), Err(Error::Parse(_))));
    assert!(matches!(LevelName::parse("a.b"), Err(Error::Parse(_))));
    assert!(matches!(LevelName::parse("a.b.c.d"), Err(Error::Parse(_))));
}

#[test]
fn level_name_empty_segment_fails() {
    let segs = vec!["foo".to_owned(), "".to_owned(), "baz".to_owned()];
    assert!(matches!(LevelName::from_vec(&segs), Err(Error::Parse(_))));
    assert!(matches!(LevelName::parse("a..c"), Err(Error::Parse(_))));
    assert!(matches!(LevelName::parse(""), Err(Error::Parse(_))));
}

#[test]
fn drilldown_parses_level_path() {
    let d = match Drilldown::parse("geo.country.state") {
        Ok(d) => d,
        Err(_) => panic!("parse failed"),
    };
    assert_eq!(d.0.dimension, "geo");
    assert_eq!(d.0.level, "state");
}

#[test]
fn cut_parses_members() {
    let c = match Cut::parse("geo.country.state.CA,NY") {
        Ok(c) => c,
        Err(_) => panic!("parse failed"),
    };
    assert_eq!(c.level_name.dimension, "geo");
    assert_eq!(c.level_name.hierarchy, "country");
    assert_eq!(c.level_name.level, "state");
    assert_eq!(c.members, vec!["CA".to_owned(), "NY".to_owned()]);
    assert!(!c.exclusive);
}

#[test]
fn cut_exclusive_marker() {
    let c = match Cut::parse("geo.country.state.~CA") {
        Ok(c) => c,
        Err(_) => panic!("parse failed"),
    };
    assert!(c.exclusive);
    assert_eq!(c.members, vec!["CA".to_owned()]);
}

#[test]
fn cut_empty_member_fails() {
    assert!(matches!(
        Cut::parse("geo.country.state.CA,,NY"),
        Err(Error::Parse(_))
    ));
    assert!(matches!(Cut::parse("geo.country.state."), Err(Error::Parse(_))));
    assert!(matches!(Cut::parse("geo.country.state.~"), Err(Error::Parse(_))));
    assert!(matches!(Cut::parse("geo.state.CA"), Err(Error::Parse(_))));
}

#[test]
fn measure_parse_is_passthrough() {
    let m = Measure::parse("revenue");
    assert_eq!(m.0, "revenue");
    let odd = Measure::parse("any.string,at all");
    assert_eq!(odd.0, "any.string,at all");
}

#[test]
fn property_parses_four_segments() {
    let p = match Property::parse("geo.country.state.iso_code") {
        Ok(p) => p,
        Err(_) => panic!("parse failed"),
    };
    assert_eq!(p.level_name.level, "state");
    assert_eq!(p.property, "iso_code");
    assert!(matches!(Property::parse("geo.country.state"), Err(Error::Parse(_))));
}

#[test]
fn top_parses() {
    let t = match TopQuery::parse("10,geo.country.state,revenue,desc") {
        Ok(t) => t,
        Err(_) => panic!("parse failed"),
    };
    assert_eq!(t.n, 10);
    assert_eq!(t.by_level.level, "state");
    assert_eq!(t.sort_measure, "revenue");
    assert!(matches!(t.direction, SortDirection::Desc));
    assert!(matches!(
        TopQuery::parse("10,geo.country.state,revenue,down"),
        Err(Error::Parse(_))
    ));
}

#[test]
fn sort_parses() {
    let s = match SortQuery::parse("revenue.asc") {
        Ok(s) => s,
        Err(_) => panic!("parse failed"),
    };
    assert_eq!(s.measure, "revenue");
    assert!(matches!(s.direction, SortDirection::Asc));
    assert!(matches!(SortQuery::parse("revenue"), Err(Error::Parse(_))));
}

#[test]
fn limit_parses_digits_only() {
    let l = match LimitQuery::parse("100") {
        Ok(l) => l,
        Err(_) => panic!("parse failed"),
    };
    assert_eq!(l.n, 100);
    assert_eq!(l.raw, "100");
    assert!(matches!(LimitQuery::parse("abc"), Err(Error::Parse(_))));
    assert!(matches!(LimitQuery::parse(""), Err(Error::Parse(_))));
    assert_eq!(LimitQuery::parse("1234567").map(|l| l.n).unwrap_or(0), 1234567);
    // every 19-digit number fits the 64-bit bound; 20 digits may not
    assert_eq!(
        LimitQuery::parse("9999999999999999999").map(|l| l.n).unwrap_or(0),
        9999999999999999999
    );
    assert!(matches!(
        LimitQuery::parse("12345678901234567890"),
        Err(Error::Parse(_))
    ));
}

#[test]
fn parse_errors_name_the_bad_token() {
    match LevelName::parse("a.b") {
        Err(Error::Parse(m)) => assert_eq!(m, "invalid level name: a.b"),
        _ => panic!("expected a parse error"),
    }
    match Cut::parse("geo.country.state.CA,,NY") {
        Err(Error::Parse(m)) => {
            assert_eq!(m, "cut has an empty member id: geo.country.state.CA,,NY")
        },
        _ => panic!("expected a parse error"),
    }
    match LimitQuery::parse("abc") {
        Err(Error::Parse(m)) => assert_eq!(m, "expected only digits: abc"),
        _ => panic!("expected a parse error"),
    }
    let segs = vec!["foo".to_owned(), "bar".to_owned()];
    match LevelName::from_vec(&segs) {
        Err(Error::Parse(m)) => {
            assert_eq!(m, "level name needs exactly three segments: foo.bar")
        },
        _ => panic!("expected a parse error"),
    }
    let mut opt = empty_opt();
    opt.drilldowns = Some(vec!["geo.country.state".to_owned(), "bad".to_owned()]);
    match Query::try_from(opt) {
        Err(Error::Parse(m)) => assert_eq!(m, "invalid level name: bad"),
        _ => panic!("expected a parse error"),
    }
}

#[test]
fn growth_rca_rate_parse() {
    let g = match GrowthQuery::parse("time.year.year,revenue") {
        Ok(g) => g,
        Err(_) => panic!("growth parse failed"),
    };
    assert_eq!(g.time_level.dimension, "time");
    assert_eq!(g.measure, "revenue");

    let r = match RcaQuery::parse("geo.country.state,prod.cat.item,revenue") {
        Ok(r) => r,
        Err(_) => panic!("rca parse failed"),
    };
    assert_eq!(r.drill1.dimension, "geo");
    assert_eq!(r.drill2.dimension, "prod");
    assert_eq!(r.measure, "revenue");

    let ra = match RateQuery::parse("geo.country.state.CA,NY") {
        Ok(ra) => ra,
        Err(_) => panic!("rate parse failed"),
    };
    assert_eq!(ra.level_name.level, "state");
    assert_eq!(ra.values, vec!["CA".to_owned(), "NY".to_owned()]);

    assert!(matches!(GrowthQuery::parse("revenue"), Err(Error::Parse(_))));
    assert!(matches!(RcaQuery::parse("a.b.c,revenue"), Err(Error::Parse(_))));
}

#[test]
fn try_from_builds_query() {
    let mut opt = empty_opt();
    opt.drilldowns = Some(vec!["geo.country.state".to_owned()]);
    opt.cuts = Some(vec!["time.year.year.2020".to_owned()]);
    opt.measures = Some(vec!["revenue".to_owned()]);
    opt.parents = Some(true);
    opt.limit = Some("50".to_owned());
    let q = match Query::try_from(opt) {
        Ok(q) => q,
        Err(_) => panic!("conversion failed"),
    };
    assert_eq!(q.drilldowns.len(), 1);
    assert_eq!(q.drilldowns[0].0.level, "state");
    assert_eq!(q.cuts.len(), 1);
    assert_eq!(q.cuts[0].members, vec!["2020".to_owned()]);
    assert_eq!(q.measures.len(), 1);
    assert!(q.parents);
    assert!(!q.debug);
    assert!(!q.sparse);
    assert_eq!(q.limit.map(|l| l.n), Some(50));
}

#[test]
fn try_from_defaults_are_empty() {
    let q = match Query::try_from(empty_opt()) {
        Ok(q) => q,
        Err(_) => panic!("conversion failed"),
    };
    assert!(q.drilldowns.is_empty());
    assert!(q.cuts.is_empty());
    assert!(q.measures.is_empty());
    assert!(!q.parents && !q.debug && !q.sparse && !q.exclude_default_members);
    assert!(q.top.is_none() && q.sort.is_none() && q.limit.is_none());
}

#[test]
fn try_from_rejects_malformed_entry() {
    let mut opt = empty_opt();
    opt.drilldowns = Some(vec!["geo.country.state".to_owned(), "bad".to_owned()]);
    assert!(matches!(Query::try_from(opt), Err(Error::Parse(_))));

    let mut opt2 = empty_opt();
    opt2.top = Some("x,geo.country.state,revenue,asc".to_owned());
    assert!(matches!(Query::try_from(opt2), Err(Error::Parse(_))));
}
