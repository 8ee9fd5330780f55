use std::rc::Rc;

use ledger::calendar::Day;
use ledger::calendar::Span;
use ledger::decimal::Decimal;
use ledger::pattern::Pattern;
use ledger::posting::ClearedStatus;
use ledger::query::OrdPlus;
use ledger::predicate::UNBOUNDED_DEPTH;
use ledger::quantity::Quantity;
use ledger::query::account_name_level;
use ledger::query::in_account;
use ledger::query::parse_query;
use ledger::query::same;
use ledger::query::Query;
use ledger::query::QueryOption;

fn pat(source: &str) -> Pattern {
    Pattern::new(source).unwrap()
}

fn desc(source: &str) -> Query {
    Query::Desc(pat(source))
}

fn samples() -> Vec<Query> {
    vec![
        Query::Any,
        Query::Nothing,
        Query::Not(Rc::new(Query::Or(vec![]))),
        Query::And(vec![]),
        Query::Or(vec![]),
        Query::And(vec![desc("a")]),
        Query::Or(vec![desc("a"), desc("a")]),
        Query::And(vec![desc("a"), desc("b")]),
        Query::Or(vec![desc("a"), desc("b")]),
        Query::Or(vec![desc("a"), Query::Nothing, desc("b")]),
        Query::Or(vec![Query::Nothing, desc("a")]),
        Query::Or(vec![Query::Any, desc("a")]),
        Query::Or(vec![Query::And(vec![]), desc("a")]),
        Query::Or(vec![Query::Or(vec![desc("a"), Query::Nothing]), Query::Depth(2)]),
        Query::And(vec![Query::Or(vec![Query::Or(vec![desc("b b")])])]),
        Query::Tag(pat("t"), Some(pat("v"))),
        Query::Amount(OrdPlus::AbsLt, Quantity(Decimal::new(5, 1))),
    ]
}

#[test]
fn it_works() {
}

#[test]
fn simplify_test() {
    let q = Query::And(vec!(Query::Or(vec!(Query::Or(vec!(Query::Desc(Pattern::new("b b").unwrap())))))));
    let sq = q.simplify();

    assert!(sq == Query::Desc(Pattern::new("b b").unwrap()))
}

#[test]
fn simplify_twice_is_simplify_once() {
    for q in samples() {
        let once = q.simplify();
        let twice = once.simplify();
        assert_eq!(twice, once);
    }
}

#[test]
fn simplify_never_grows_a_leaf() {
    assert_eq!(desc("a").simplify(), desc("a"));
    assert_eq!(Query::Depth(3).simplify(), Query::Depth(3));
    assert_eq!(Query::Any.simplify(), Query::Any);
    assert_eq!(Query::Nothing.simplify(), Query::Nothing);
    let not = Query::Not(Rc::new(Query::And(vec![])));
    assert_eq!(not.simplify(), Query::Not(Rc::new(Query::And(vec![]))));
}

#[test]
fn simplify_empty_and_is_any() {
    assert_eq!(Query::And(vec![]).simplify(), Query::Any);
}

#[test]
fn simplify_empty_or_is_any() {
    assert_eq!(Query::Or(vec![]).simplify(), Query::Any);
}

#[test]
fn simplify_single_member_is_the_member_simplified() {
    for x in samples() {
        let expected = x.simplify();
        assert_eq!(Query::And(vec![x.clone()]).simplify(), expected);
        assert_eq!(Query::Or(vec![x.clone()]).simplify(), expected);
    }
}

#[test]
fn simplify_identical_members_is_the_first_simplified() {
    for x in samples() {
        let expected = x.simplify();
        let xs = vec![x.clone(), x.clone(), x.clone()];
        assert_eq!(Query::And(xs.clone()).simplify(), expected);
        assert_eq!(Query::Or(xs).simplify(), expected);
    }
}

#[test]
fn simplify_and_of_differing_members_is_nothing() {
    let q = Query::And(vec![desc("a"), desc("b")]);
    assert_eq!(q.simplify(), Query::Nothing);
    let q = Query::And(vec![desc("a"), Query::Nothing]);
    assert_eq!(q.simplify(), Query::Nothing);
    let q = Query::And(vec![Query::Any, Query::Depth(1)]);
    assert_eq!(q.simplify(), Query::Nothing);
}

#[test]
fn simplify_or_with_any_is_nothing() {
    let q = Query::Or(vec![Query::Any, desc("a")]);
    assert_eq!(q.simplify(), Query::Nothing);
    let q = Query::Or(vec![desc("a"), Query::Nothing, Query::Any]);
    assert_eq!(q.simplify(), Query::Nothing);
}

#[test]
fn simplify_or_drops_nothing_and_simplifies_the_rest() {
    let q = Query::Or(vec![desc("a"), Query::Nothing, desc("b")]);
    assert_eq!(q.simplify(), Query::Or(vec![desc("a"), desc("b")]));
    let q = Query::Or(vec![Query::Nothing, desc("a")]);
    assert_eq!(q.simplify(), desc("a"));
    let q = Query::Or(vec![Query::And(vec![desc("a")]), Query::Depth(2)]);
    assert_eq!(q.simplify(), Query::Or(vec![desc("a"), Query::Depth(2)]));
}

#[test]
fn simplify_or_whose_member_becomes_any_is_nothing() {
    let q = Query::Or(vec![Query::And(vec![]), desc("a")]);
    assert_eq!(q.simplify(), Query::Nothing);
}

#[test]
fn simplify_or_whose_members_become_the_same_is_that_member() {
    let q = Query::Or(vec![Query::And(vec![desc("a")]), desc("a")]);
    assert_eq!(q.simplify(), desc("a"));
}

#[test]
fn queries_are_equal_by_structure_and_order() {
    assert_eq!(desc("a"), desc("a"));
    assert_ne!(desc("a"), desc("b"));
    assert_ne!(desc("a"), Query::Code(pat("a")));
    assert_ne!(Query::Or(vec![desc("a"), desc("b")]), Query::Or(vec![desc("b"), desc("a")]));
    assert_ne!(Query::Or(vec![desc("a")]), Query::Or(vec![desc("a"), desc("a")]));
    assert_ne!(Query::Or(vec![desc("a")]), Query::And(vec![desc("a")]));
    assert_eq!(Query::Tag(pat("t"), None), Query::Tag(pat("t"), None));
    assert_ne!(Query::Tag(pat("t"), None), Query::Tag(pat("t"), Some(pat("v"))));
    assert_eq!(Query::Date(Span::new(60, 0)), Query::Date(Span::new(60, 0)));
    assert_ne!(Query::Date(Span::new(60, 0)), Query::Date2(Span::new(60, 0)));
    assert_ne!(Query::Status(ClearedStatus::Pending), Query::Status(ClearedStatus::Cleared));
    assert_ne!(Query::Real(true), Query::Empty(true));
    assert_ne!(
        Query::Amount(OrdPlus::Lt, Quantity(Decimal::new(1, 0))),
        Query::Amount(OrdPlus::Lt, Quantity(Decimal::new(10, 1)))
    );
    assert_eq!(
        Query::Not(Rc::new(Query::Depth(1))),
        Query::Not(Rc::new(Query::Depth(1)))
    );
}

#[test]
fn a_clone_is_equal() {
    for q in samples() {
        assert_eq!(q.clone(), q);
        assert!(q.same_as(&q.duplicate()));
    }
}

#[test]
fn matches_account_depth_goes_by_the_level() {
    assert_eq!(account_name_level(String::from("a:b:c")), 2);
    assert!(Query::Depth(2).matches_account(String::from("a:b:c")));
    assert!(Query::Depth(3).matches_account(String::from("a:b:c")));
    assert!(!Query::Depth(1).matches_account(String::from("a:b:c")));
    assert!(Query::Depth(0).matches_account(String::from("assets")));
    assert!(!Query::Depth(0).matches_account(String::from("assets:cash")));
}

#[test]
fn matches_account_empty_and_is_true() {
    assert!(Query::And(vec![]).matches_account(String::from("assets:cash")));
    assert!(Query::And(vec![]).matches_account(String::new()));
}

#[test]
fn matches_account_empty_or_is_false() {
    assert!(!Query::Or(vec![]).matches_account(String::from("assets:cash")));
}

#[test]
fn matches_account_tag_is_false() {
    assert!(!Query::Tag(pat("t"), None).matches_account(String::from("assets")));
    assert!(!Query::Tag(pat(".*"), Some(pat(".*"))).matches_account(String::new()));
}

#[test]
fn matches_account_not_does_not_invert() {
    let not_nothing = Query::Not(Rc::new(Query::Nothing));
    assert!(!not_nothing.matches_account(String::from("assets")));
    let not_any = Query::Not(Rc::new(Query::Any));
    assert!(not_any.matches_account(String::from("assets")));
    let not_deep = Query::Not(Rc::new(Query::Depth(0)));
    assert!(!not_deep.matches_account(String::from("assets:cash")));
}

#[test]
fn matches_account_combines_members() {
    let name = || String::from("assets:cash");
    let or = Query::Or(vec![Query::Nothing, Query::Depth(1)]);
    assert!(or.matches_account(name()));
    let or = Query::Or(vec![Query::Nothing, Query::Depth(0)]);
    assert!(!or.matches_account(name()));
    let and = Query::And(vec![Query::Any, Query::Depth(1)]);
    assert!(and.matches_account(name()));
    let and = Query::And(vec![Query::Depth(1), Query::Depth(0)]);
    assert!(!and.matches_account(name()));
}

#[test]
fn matches_account_other_criteria_do_not_exclude() {
    let name = || String::from("assets:cash");
    assert!(Query::Any.matches_account(name()));
    assert!(!Query::Nothing.matches_account(name()));
    assert!(desc("no such text").matches_account(name()));
    assert!(Query::Acct(pat("expenses")).matches_account(name()));
    assert!(Query::Code(pat("x")).matches_account(name()));
    assert!(Query::Symbol(pat("x")).matches_account(name()));
    assert!(Query::Real(false).matches_account(name()));
    assert!(Query::Empty(true).matches_account(name()));
    assert!(Query::Status(ClearedStatus::Cleared).matches_account(name()));
    assert!(Query::Date(Span::new(0, 0)).matches_account(name()));
    assert!(Query::Date2(Span::new(0, 0)).matches_account(name()));
    assert!(Query::Amount(OrdPlus::Gt, Quantity(Decimal::new(0, 0))).matches_account(name()));
}

#[test]
fn matches_level_takes_the_level_itself() {
    assert!(Query::Depth(2).matches_level(2));
    assert!(!Query::Depth(2).matches_level(3));
}

#[test]
fn account_name_level_counts_separators() {
    assert_eq!(account_name_level(String::new()), 0);
    assert_eq!(account_name_level(String::from("assets")), 0);
    assert_eq!(account_name_level(String::from("assets:cash")), 1);
    assert_eq!(account_name_level(String::from("assets:cash:wallet")), 2);
    assert_eq!(account_name_level(String::from("a::b")), 2);
    assert_eq!(account_name_level(String::from("é:ü")), 1);
}

#[test]
fn filter_rejected_leaf_is_any() {
    assert_eq!(desc("a").filter(|_| false), Query::Any);
    assert_eq!(Query::Nothing.filter(|_| false), Query::Any);
    assert_eq!(Query::Depth(1).filter(|q| !q.is_depth()), Query::Any);
    let not = Query::Not(Rc::new(Query::Depth(1)));
    assert_eq!(not.filter(|q| q.is_depth()), Query::Any);
}

#[test]
fn filter_accepted_leaf_is_itself() {
    assert_eq!(desc("a").filter(|_| true), desc("a"));
    assert_eq!(Query::Depth(1).filter(|q| q.is_depth()), Query::Depth(1));
    assert_eq!(Query::Nothing.filter(|_| true), Query::Nothing);
}

#[test]
fn filter_keeps_the_accepted_members() {
    let q = Query::And(vec![Query::Depth(1), desc("a")]);
    assert_eq!(q.filter(|x| x.is_depth()), Query::Depth(1));
    let q = Query::Or(vec![Query::Depth(1), desc("a"), Query::Depth(2)]);
    assert_eq!(
        q.filter(|x| x.is_depth()),
        Query::Or(vec![Query::Depth(1), Query::Depth(2)])
    );
    let q = Query::And(vec![Query::Depth(1), desc("a")]);
    assert_eq!(q.filter(|_| false), Query::Any);
    let q = Query::And(vec![Query::Depth(1), Query::Depth(2)]);
    assert_eq!(q.filter(|_| true), Query::Nothing);
}

#[test]
fn filter_does_not_look_inside_members() {
    let q = Query::And(vec![Query::Or(vec![Query::Depth(1)]), Query::Depth(2)]);
    assert_eq!(q.filter(|x| x.is_depth()), Query::Depth(2));
    let q = Query::Or(vec![Query::And(vec![Query::Depth(1), desc("a")])]);
    assert_eq!(q.filter(|x| x.is_depth()), Query::Any);
}

#[test]
fn depth_without_a_bound_is_unbounded() {
    assert_eq!(UNBOUNDED_DEPTH, 99999);
    assert_eq!(Query::Any.depth(), 99999);
    assert_eq!(desc("a").depth(), 99999);
    assert_eq!(Query::And(vec![]).depth(), 99999);
    assert_eq!(Query::Or(vec![desc("a"), Query::And(vec![Query::Nothing])]).depth(), 99999);
}

#[test]
fn depth_is_the_least_bound_in_the_tree() {
    let q = Query::And(vec![Query::Depth(3), Query::Or(vec![Query::Depth(1), Query::Depth(5)])]);
    assert_eq!(q.depth(), 1);
    assert_eq!(Query::Depth(7).depth(), 7);
    let q = Query::Or(vec![Query::Depth(4), Query::Depth(4)]);
    assert_eq!(q.depth(), 4);
    assert_eq!(Query::Depth(100000).depth(), 100000);
}

#[test]
fn depth_does_not_look_under_a_negation() {
    let q = Query::Not(Rc::new(Query::Depth(3)));
    assert_eq!(q.depth(), 99999);
    let q = Query::And(vec![Query::Not(Rc::new(Query::Depth(3))), Query::Depth(8)]);
    assert_eq!(q.depth(), 8);
}

#[test]
fn in_account_takes_the_first_option() {
    let opts = vec![
        QueryOption::InAccountOnly(String::from("assets")),
        QueryOption::InAccount(String::from("expenses")),
    ];
    assert_eq!(in_account(&opts), Some((String::from("assets"), false)));
    let opts = vec![
        QueryOption::InAccount(String::from("expenses")),
        QueryOption::InAccountOnly(String::from("assets")),
        QueryOption::InAccount(String::from("income")),
    ];
    assert_eq!(in_account(&opts), Some((String::from("expenses"), true)));
}

#[test]
fn in_account_without_options_is_none() {
    assert_eq!(in_account(&vec![]), None);
}

#[test]
fn is_null_knows_the_trivial_queries() {
    assert!(Query::Any.is_null());
    assert!(Query::And(vec![]).is_null());
    assert!(Query::Not(Rc::new(Query::Or(vec![]))).is_null());
    assert!(!Query::Nothing.is_null());
    assert!(!Query::Or(vec![]).is_null());
    assert!(!Query::And(vec![Query::Any]).is_null());
    assert!(!Query::Not(Rc::new(Query::And(vec![]))).is_null());
    assert!(!Query::Not(Rc::new(Query::Or(vec![Query::Any]))).is_null());
    assert!(!desc("a").is_null());
}

#[test]
fn is_depth_looks_at_the_root_only() {
    assert!(Query::Depth(0).is_depth());
    assert!(!Query::And(vec![Query::Depth(0)]).is_depth());
    assert!(!Query::Not(Rc::new(Query::Depth(0))).is_depth());
    assert!(!Query::Any.is_depth());
}

#[test]
fn same_compares_with_the_first() {
    assert!(same(&vec![1, 1, 1]));
    assert!(!same(&vec![1, 1, 2]));
    assert!(!same(&vec![2, 1, 1]));
    assert!(same(&vec![7]));
    assert!(same(&Vec::<u8>::new()));
    assert!(same(&vec![desc("a"), desc("a")]));
    assert!(!same(&vec![desc("a"), desc("b")]));
}

#[test]
fn parse_query_reads_nothing_yet() {
    let (query, opts) = parse_query(Day::new(736000), String::from("desc:a depth:2"));
    assert_eq!(query, Query::Nothing);
    assert!(opts.is_empty());
}

#[test]
fn pattern_keeps_its_source() {
    let p = Pattern::new("b b").unwrap();
    assert_eq!(p.as_str(), "b b");
    assert!(p.same_as(&p.clone()));
    assert!(!p.same_as(&Pattern::new("b  b").unwrap()));
}

#[test]
fn pattern_refuses_what_does_not_compile() {
    assert!(Pattern::new("foo(bar").is_none());
    assert!(Pattern::new("[").is_none());
    assert!(Pattern::new("a{2,1}").is_none());
    assert!(Pattern::new("").is_some());
    assert!(Pattern::new(r"^assets:(cash|bank)$").is_some());
}

#[test]
fn pattern_from_verdict_follows_the_verdict() {
    assert!(Pattern::from_verdict("a", false).is_none());
    assert_eq!(Pattern::from_verdict("a", true).unwrap().as_str(), "a");
}
