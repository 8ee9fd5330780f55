//! Queries: trees of criteria that select transactions, postings and
//! accounts.

use vstd::prelude::*;
use vstd::std_specs::cmp::PartialEqSpec;
use std::rc::Rc;
use crate::calendar::Day;
use crate::calendar::Span;
use crate::pattern::Pattern;
use crate::posting::ClearedStatus;
use crate::predicate::ACCOUNT_SEPARATOR;
use crate::predicate::all_same;
use crate::predicate::depths_of_all;
use crate::predicate::lemma_member_size;
use crate::predicate::lemma_rewrite_shrinks;
use crate::predicate::lemma_simplify_idempotent;
use crate::predicate::lemma_simplify_size;
use crate::predicate::level;
use crate::predicate::Predicate;
use crate::predicate::simplify_kept;
use crate::predicate::total_size;
use crate::predicate::UNBOUNDED_DEPTH;
use crate::quantity::Quantity;
use crate::selection::lemma_select_ignores_later;
use crate::selection::select;

verus! {

/// The relational operators of an amount criterion: the ordinary ones and
/// those that compare absolute values.
#[derive(Clone, Copy, PartialEq, Eq, Debug, Structural)]
pub enum OrdPlus {
    Lt,
    LtEq,
    Gt,
    GtEq,
    Eq,
    AbsLt,
    AbsLtEq,
    AbsGt,
    AbsGtEq,
    AbsEq,
}

/// A criterion, or a boolean combination of criteria.
#[derive(Debug)]
pub enum Query {
    /// Holds of everything.
    Any,
    /// Holds of nothing.
    Nothing,
    /// The negation of a query.
    Not(Rc<Query>),
    /// Holds where one of the members holds.
    Or(Vec<Query>),
    /// Holds where all the members hold.
    And(Vec<Query>),
    /// The code of the transaction matches the pattern.
    Code(Pattern),
    /// The description of the transaction matches the pattern.
    Desc(Pattern),
    /// The name of the account matches the pattern.
    Acct(Pattern),
    /// The date lies in the span, counted from the day of reference.
    Date(Span),
    /// The secondary date lies in the span.
    Date2(Span),
    /// The status is the given one.
    Status(ClearedStatus),
    /// Whether the posting is real is as given.
    Real(bool),
    /// The amount of the posting stands to the quantity as the operator
    /// says.
    Amount(OrdPlus, Quantity),
    /// The symbol of the commodity matches the pattern.
    Symbol(Pattern),
    /// Whether the amount is zero is as given.
    Empty(bool),
    /// The account is at most this deep in the hierarchy.
    Depth(usize),
    /// A tag has a name that matches the first pattern and, where a second
    /// pattern is given, a value that matches it.
    Tag(Pattern, Option<Pattern>),
}

/// A restriction of a query to one account and what lies below it.
#[derive(Clone, PartialEq, Eq, Debug)]
pub enum QueryOption {
    /// The account itself is left out.
    InAccountOnly(String),
    /// The account itself is included.
    InAccount(String),
}

/// What each member of `xs` stands for.
pub open spec fn views(xs: Seq<Query>) -> Seq<Predicate> {
    Seq::new(xs.len(), |i: int| xs[i]@)
}

impl Query {
    /// What the query stands for.
    pub open spec fn view(&self) -> Predicate
        decreases self,
    {
        match self {
            Query::Any => Predicate::Any,
            Query::Nothing => Predicate::Nothing,
            Query::Not(x) => Predicate::Not(Box::new(x.view())),
            Query::Or(xs) => Predicate::Or(
                Seq::new(
                    xs.len() as nat,
                    |i: int|
                        if 0 <= i < xs.len() {
                            xs[i].view()
                        } else {
                            Predicate::Any
                        },
                ),
            ),
            Query::And(xs) => Predicate::And(
                Seq::new(
                    xs.len() as nat,
                    |i: int|
                        if 0 <= i < xs.len() {
                            xs[i].view()
                        } else {
                            Predicate::Any
                        },
                ),
            ),
            Query::Code(r) => Predicate::Code(r@),
            Query::Desc(r) => Predicate::Desc(r@),
            Query::Acct(r) => Predicate::Acct(r@),
            Query::Date(d) => Predicate::Date(*d),
            Query::Date2(d) => Predicate::Date2(*d),
            Query::Status(s) => Predicate::Status(*s),
            Query::Real(b) => Predicate::Real(*b),
            Query::Amount(ord, q) => Predicate::Amount(*ord, *q),
            Query::Symbol(r) => Predicate::Symbol(r@),
            Query::Empty(b) => Predicate::Empty(*b),
            Query::Depth(d) => Predicate::Depth(*d as nat),
            Query::Tag(name, value) => Predicate::Tag(
                name@,
                match value {
                    Some(v) => Some(v@),
                    None => None,
                },
            ),
        }
    }
}

/// A disjunction stands for the disjunction of what its members stand for,
/// and a conjunction likewise.
pub proof fn lemma_view_members(xs: Vec<Query>)
    ensures
        Query::Or(xs)@ == Predicate::Or(views(xs@)),
        Query::And(xs)@ == Predicate::And(views(xs@)),
{
    assert(Query::Or(xs)@->Or_0 =~= views(xs@));
}

/// The members of `ds` as natural numbers.
pub open spec fn as_nats(ds: Seq<usize>) -> Seq<nat> {
    Seq::new(ds.len(), |i: int| ds[i] as nat)
}

/// The scope that a sequence of options asks for: the account of the first
/// option, and whether that account itself is included.
pub open spec fn scope(opts: Seq<QueryOption>) -> Option<(Seq<char>, bool)> {
    if opts.len() == 0 {
        None
    } else {
        match opts[0] {
            QueryOption::InAccountOnly(a) => Some((a@, false)),
            QueryOption::InAccount(a) => Some((a@, true)),
        }
    }
}

/// Only the first option decides the scope: what follows it changes nothing.
pub proof fn lemma_scope_ignores_later(first: QueryOption, later: Seq<QueryOption>)
    ensures
        scope(seq![first] + later) == scope(seq![first]),
{
}

/// Reads a query and its options from text. Nothing is read yet: the answer
/// is the query that holds of nothing, without options.
pub fn parse_query(day: Day, query: String) -> (r: (Query, Vec<QueryOption>))
    ensures
        r.0@ == Predicate::Nothing,
        r.1@.len() == 0,
{
    (Query::Nothing, Vec::new())
}

/// The account that the options restrict the query to, and whether the
/// account itself is included. Only the first option counts.
pub fn in_account(query_opts: &Vec<QueryOption>) -> (r: Option<(String, bool)>)
    ensures
        match r {
            Some((a, inclusive)) => scope(query_opts@) == Some((a@, inclusive)),
            None => scope(query_opts@) is None,
        },
{
    if query_opts.len() == 0 {
        None
    } else {
        match &query_opts[0] {
            QueryOption::InAccountOnly(a) => Some((a.clone(), false)),
            QueryOption::InAccount(a) => Some((a.clone(), true)),
        }
    }
}

/// The level of an account in the hierarchy: the number of separators in its
/// name.
pub fn account_name_level(account_name: String) -> (n: usize)
    ensures
        n == level(account_name@),
{
    let name = account_name.as_str();
    // The count stays below the number of characters, which is a `usize`.
    let len = name.unicode_len();
    let mut n: usize = 0;
    for c in it: name.chars()
        invariant
            it.seq() == name@,
            len == name@.len(),
            n <= it.index(),
            n == level(name@.take(it.index())),
    {
        proof {
            let k = it.index();
            assert(name@.take(k + 1).drop_last() =~= name@.take(k));
        }
        if c == ACCOUNT_SEPARATOR {
            n = n + 1;
        }
    }
    assert(name@.take(name@.len() as int) =~= name@);
    n
}

/// Whether every member of `vec` equals the first one.
pub fn same<T: Eq>(vec: &Vec<T>) -> (r: bool)
    ensures
        T::obeys_eq_spec() ==> r == forall|i: int|
            0 <= i < vec.len() ==> vec[0].eq_spec(&#[trigger] vec[i]),
{
    let mut i: usize = 0;
    while i < vec.len()
        invariant
            i <= vec.len(),
            T::obeys_eq_spec() ==> forall|j: int| 0 <= j < i ==> vec[0].eq_spec(&#[trigger] vec[j]),
        decreases vec.len() - i,
    {
        if !(vec[0] == vec[i]) {
            return false;
        }
        i += 1;
    }
    true
}

impl Query {
    /// The queries that [`Query::filter`] asks about: the members of a
    /// conjunction or disjunction, and else the query itself.
    pub open spec fn asked(&self) -> Seq<Query> {
        match self {
            Query::And(qs) => qs@,
            Query::Or(qs) => qs@,
            _ => seq![*self],
        }
    }

    /// Whether `keep` holds, for each query that [`Query::filter`] asks
    /// about, an answer that `pred` can give for it.
    pub open spec fn answered<F: Fn(&Query) -> bool>(&self, pred: F, keep: Seq<bool>) -> bool {
        &&& keep.len() == self.asked().len()
        &&& forall|i: int|
            0 <= i < keep.len() ==> call_ensures(pred, (&#[trigger] self.asked()[i],), keep[i])
    }

    /// Whether both queries stand for the same tree.
    pub fn same_as(&self, other: &Query) -> (r: bool)
        ensures
            r == (self@ == other@),
        decreases self,
    {
        match (self, other) {
            (Query::Any, Query::Any) => true,
            (Query::Nothing, Query::Nothing) => true,
            (Query::Not(a), Query::Not(b)) => {
                let x: &Query = &**a;
                let y: &Query = &**b;
                x.same_as(y)
            },
            (Query::Or(a), Query::Or(b)) => {
                proof {
                    lemma_view_members(*a);
                    lemma_view_members(*b);
                }
                if a.len() != b.len() {
                    assert(views(a@).len() != views(b@).len());
                    return false;
                }
                let mut i: usize = 0;
                while i < a.len()
                    invariant
                        i <= a.len(),
                        a.len() == b.len(),
                        *self == Query::Or(*a),
                        self@ == Predicate::Or(views(a@)),
                        other@ == Predicate::Or(views(b@)),
                        forall|j: int| 0 <= j < i ==> views(a@)[j] == views(b@)[j],
                    decreases a.len() - i,
                {
                    if !a[i].same_as(&b[i]) {
                        assert(views(a@)[i as int] != views(b@)[i as int]);
                        return false;
                    }
                    i += 1;
                }
                assert(views(a@) =~= views(b@));
                true
            },
            (Query::And(a), Query::And(b)) => {
                proof {
                    lemma_view_members(*a);
                    lemma_view_members(*b);
                }
                if a.len() != b.len() {
                    assert(views(a@).len() != views(b@).len());
                    return false;
                }
                let mut i: usize = 0;
                while i < a.len()
                    invariant
                        i <= a.len(),
                        a.len() == b.len(),
                        *self == Query::And(*a),
                        self@ == Predicate::And(views(a@)),
                        other@ == Predicate::And(views(b@)),
                        forall|j: int| 0 <= j < i ==> views(a@)[j] == views(b@)[j],
                    decreases a.len() - i,
                {
                    if !a[i].same_as(&b[i]) {
                        assert(views(a@)[i as int] != views(b@)[i as int]);
                        return false;
                    }
                    i += 1;
                }
                assert(views(a@) =~= views(b@));
                true
            },
            (Query::Code(a), Query::Code(b)) => a.same_as(b),
            (Query::Desc(a), Query::Desc(b)) => a.same_as(b),
            (Query::Acct(a), Query::Acct(b)) => a.same_as(b),
            (Query::Date(a), Query::Date(b)) => *a == *b,
            (Query::Date2(a), Query::Date2(b)) => *a == *b,
            (Query::Status(a), Query::Status(b)) => *a == *b,
            (Query::Real(a), Query::Real(b)) => *a == *b,
            (Query::Amount(o, q), Query::Amount(p, r)) => *o == *p && *q == *r,
            (Query::Symbol(a), Query::Symbol(b)) => a.same_as(b),
            (Query::Empty(a), Query::Empty(b)) => *a == *b,
            (Query::Depth(a), Query::Depth(b)) => *a == *b,
            (Query::Tag(n, v), Query::Tag(m, w)) => {
                if !n.same_as(m) {
                    return false;
                }
                match (v, w) {
                    (Some(x), Some(y)) => x.same_as(y),
                    (None, None) => true,
                    _ => false,
                }
            },
            _ => false,
        }
    }

    /// Whether the query holds of the account with the given name.
    ///
    /// Only `Nothing`, tags and depth bounds can exclude an account. A
    /// negation holds exactly when what it negates holds: it does not
    /// invert.
    pub fn matches_account(&self, account_name: String) -> (r: bool)
        ensures
            r == self@.matches_account(account_name@),
    {
        let account_level = account_name_level(account_name);
        self.matches_level(account_level)
    }

    /// Whether the query holds of an account at the given level.
    pub fn matches_level(&self, account_level: usize) -> (r: bool)
        ensures
            r == self@.matches_level(account_level as nat),
        decreases self,
    {
        match self {
            Query::Nothing => false,
            Query::Not(x) => {
                let inner: &Query = &**x;
                inner.matches_level(account_level)
            },
            Query::Or(xs) => {
                proof {
                    lemma_view_members(*xs);
                }
                let mut i: usize = 0;
                while i < xs.len()
                    invariant
                        i <= xs.len(),
                        *self == Query::Or(*xs),
                        self@ == Predicate::Or(views(xs@)),
                        forall|j: int|
                            0 <= j < i ==> !(#[trigger] views(xs@)[j]).matches_level(
                                account_level as nat,
                            ),
                    decreases xs.len() - i,
                {
                    if xs[i].matches_level(account_level) {
                        proof {
                            let members = views(xs@);
                            let k = i as int;
                            assert(self@->Or_0 == members);
                            assert(members[k].matches_level(account_level as nat));
                        }
                        return true;
                    }
                    i += 1;
                }
                false
            },
            Query::And(xs) => {
                proof {
                    lemma_view_members(*xs);
                }
                let mut i: usize = 0;
                while i < xs.len()
                    invariant
                        i <= xs.len(),
                        *self == Query::And(*xs),
                        self@ == Predicate::And(views(xs@)),
                        forall|j: int|
                            0 <= j < i ==> (#[trigger] views(xs@)[j]).matches_level(
                                account_level as nat,
                            ),
                    decreases xs.len() - i,
                {
                    if !xs[i].matches_level(account_level) {
                        proof {
                            let members = views(xs@);
                            let k = i as int;
                            assert(self@->And_0 == members);
                            assert(!members[k].matches_level(account_level as nat));
                        }
                        return false;
                    }
                    i += 1;
                }
                true
            },
            Query::Depth(d) => account_level <= *d,
            Query::Tag(_, _) => false,
            _ => true,
        }
    }

    /// Whether the query is trivially true: `Any`, an empty conjunction, or
    /// the negation of an empty disjunction.
    pub fn is_null(&self) -> (r: bool)
        ensures
            r == self@.is_null(),
    {
        match self {
            Query::Any => true,
            Query::And(q) => {
                q.len() == 0
            },
            Query::Not(r) => {
                let inner: &Query = &**r;
                match inner {
                    Query::Or(q) => {
                        q.len() == 0
                    },
                    _ => {
                        assert(!(inner@ is Or));
                        false
                    },
                }
            },
            _ => false,
        }
    }

    /// Whether the query is a depth bound at its root.
    pub fn is_depth(&self) -> (r: bool)
        ensures
            r == (self@ is Depth),
    {
        match self {
            Query::Depth(_) => true,
            _ => false,
        }
    }
}

impl Query {
    /// One rewrite of a conjunction of `xs`.
    ///
    /// A conjunction of two or more members that are not all the same
    /// becomes `Nothing`, whether `Nothing` is among them or not.
    fn simplify_helper_and(xs: &Vec<Query>) -> (r: Query)
        ensures
            r@ == Predicate::And(views(xs@)).rewrite(),
        decreases total_size(views(xs@)) + 1, 0nat,
    {
        if xs.len() == 0 {
            Query::Any
        } else if xs.len() == 1 {
            xs[0].simplify()
        } else if same(xs) {
            proof {
                assert forall|i: int| 0 <= i < views(xs@).len() implies (#[trigger] views(
                    xs@,
                )[i]) == views(xs@)[0] by {
                    assert(xs[0].eq_spec(&xs[i]));
                }
            }
            xs[0].simplify()
        } else {
            proof {
                if all_same(views(xs@)) {
                    assert forall|i: int| 0 <= i < xs.len() implies xs[0].eq_spec(
                        &#[trigger] xs[i],
                    ) by {
                        assert(views(xs@)[i] == views(xs@)[0]);
                    }
                }
            }
            Query::Nothing
        }
    }

    /// One rewrite of a disjunction of `xs`.
    ///
    /// A disjunction of two or more members that are not all the same
    /// becomes `Nothing` if `Any` is among them.
    fn simplify_helper_or(xs: &Vec<Query>) -> (r: Query)
        ensures
            r@ == Predicate::Or(views(xs@)).rewrite(),
        decreases total_size(views(xs@)) + 1, 0nat,
    {
        if xs.len() == 0 {
            return Query::Any;
        }
        if xs.len() == 1 {
            return xs[0].simplify();
        }
        if same(xs) {
            proof {
                assert forall|i: int| 0 <= i < views(xs@).len() implies (#[trigger] views(
                    xs@,
                )[i]) == views(xs@)[0] by {
                    assert(xs[0].eq_spec(&xs[i]));
                }
            }
            return xs[0].simplify();
        }
        proof {
            if all_same(views(xs@)) {
                assert forall|i: int| 0 <= i < xs.len() implies xs[0].eq_spec(
                    &#[trigger] xs[i],
                ) by {
                    assert(views(xs@)[i] == views(xs@)[0]);
                }
            }
        }
        let mut i: usize = 0;
        while i < xs.len()
            invariant
                i <= xs.len(),
                xs.len() >= 2,
                !all_same(views(xs@)),
                forall|j: int| 0 <= j < i ==> (#[trigger] views(xs@)[j]) != Predicate::Any,
            decreases xs.len() - i,
        {
            if xs[i] == Query::Any {
                assert(views(xs@)[i as int] == Predicate::Any);
                return Query::Nothing;
            }
            i += 1;
        }
        let mut kept: Vec<Query> = Vec::new();
        let mut i: usize = 0;
        while i < xs.len()
            invariant
                i <= xs.len(),
                views(kept@) == simplify_kept(views(xs@).take(i as int)),
            decreases xs.len() - i,
        {
            proof {
                lemma_member_size(views(xs@), i as int);
                assert(views(xs@).take(i + 1).drop_last() =~= views(xs@).take(i as int));
            }
            if xs[i] != Query::Nothing {
                let x = xs[i].simplify();
                kept.push(x);
            }
            i += 1;
        }
        proof {
            assert(views(xs@).take(xs.len() as int) =~= views(xs@));
            lemma_view_members(kept);
        }
        Query::Or(kept)
    }

    /// One rewrite at the root.
    fn simplify_helper(query: &Query) -> (r: Query)
        ensures
            r@ == query@.rewrite(),
        decreases query@.size(), 1nat,
    {
        match query {
            Query::And(xs) => {
                proof {
                    lemma_view_members(*xs);
                }
                Query::simplify_helper_and(xs)
            },
            Query::Or(xs) => {
                proof {
                    lemma_view_members(*xs);
                }
                Query::simplify_helper_or(xs)
            },
            q => q.clone(),
        }
    }

    /// Simplify the query as much as possible: the root is rewritten until
    /// it no longer changes.
    ///
    /// A conjunction or disjunction without members becomes `Any`; one with
    /// a single member, or whose members are all the same, becomes that
    /// member simplified. Any other conjunction becomes `Nothing`. Any other
    /// disjunction becomes `Nothing` if `Any` is among its members, and else
    /// loses the members that are `Nothing` and has the others simplified.
    pub fn simplify(&self) -> (r: Query)
        ensures
            r@ == self@.simplify(),
            r@.simplify() == r@,
            r@.size() <= self@.size(),
        decreases self@.size(), 2nat,
    {
        proof {
            lemma_simplify_size(self@);
            lemma_simplify_idempotent(self@);
        }
        let q = Query::simplify_helper(self);
        if *self == q {
            self.clone()
        } else {
            proof {
                lemma_rewrite_shrinks(self@);
            }
            q.simplify()
        }
    }

    /// The members of `qs` that `pred` accepts, and the answers that it
    /// gave.
    fn accepted<F>(qs: &Vec<Query>, pred: F) -> (r: (Vec<Query>, Ghost<Seq<bool>>)) where
        F: Fn(&Query) -> bool,

        requires
            forall|i: int| 0 <= i < qs.len() ==> call_requires(pred, (&#[trigger] qs[i],)),
        ensures
            r.1@.len() == qs.len(),
            forall|i: int| 0 <= i < qs.len() ==> call_ensures(pred, (&#[trigger] qs[i],), r.1@[i]),
            views(r.0@) == select(views(qs@), r.1@),
    {
        let mut kept: Vec<Query> = Vec::new();
        let ghost mut keep: Seq<bool> = Seq::empty();
        let mut i: usize = 0;
        while i < qs.len()
            invariant
                i <= qs.len(),
                keep.len() == i,
                forall|j: int| 0 <= j < qs.len() ==> call_requires(pred, (&#[trigger] qs[j],)),
                forall|j: int| 0 <= j < i ==> call_ensures(pred, (&#[trigger] qs[j],), keep[j]),
                views(kept@) == select(views(qs@).take(i as int), keep),
            decreases qs.len() - i,
        {
            let ghost answers = keep;
            let answer = pred(&qs[i]);
            proof {
                keep = keep.push(answer);
                assert(views(qs@).take(i + 1).drop_last() =~= views(qs@).take(i as int));
                lemma_select_ignores_later(views(qs@).take(i as int), answers, seq![answer]);
                assert(answers + seq![answer] =~= keep);
            }
            if answer {
                let x = qs[i].clone();
                kept.push(x);
            }
            i += 1;
        }
        proof {
            assert(views(qs@).take(qs.len() as int) =~= views(qs@));
        }
        (kept, Ghost(keep))
    }

    /// What is left of the query when only what `pred` accepts is kept,
    /// simplified.
    ///
    /// Of a conjunction or disjunction the members that `pred` accepts are
    /// kept; `pred` is asked once about each member, not about what lies
    /// inside it. Any other query stays if `pred` accepts it, and is
    /// replaced by `Any` if not.
    pub fn filter<F>(&self, pred: F) -> (r: Query) where F: Fn(&Query) -> bool
        requires
            forall|i: int|
                0 <= i < self.asked().len() ==> call_requires(pred, (&#[trigger] self.asked()[i],)),
        ensures
            exists|keep: Seq<bool>| #[trigger] self.answered(pred, keep) && r@ == self@.filter(keep),
    {
        match self {
            Query::And(qs) => {
                let (kept, Ghost(keep)) = Query::accepted(qs, pred);
                proof {
                    lemma_view_members(*qs);
                    lemma_view_members(kept);
                    assert(self.answered(pred, keep));
                }
                Query::And(kept).simplify()
            },
            Query::Or(qs) => {
                let (kept, Ghost(keep)) = Query::accepted(qs, pred);
                proof {
                    lemma_view_members(*qs);
                    lemma_view_members(kept);
                    assert(self.answered(pred, keep));
                }
                Query::Or(kept).simplify()
            },
            _ => {
                assert(self.asked()[0] == *self);
                let answer = pred(self);
                let kept = if answer {
                    self.clone()
                } else {
                    Query::Any
                };
                proof {
                    let keep = seq![answer];
                    assert(self.answered(pred, keep));
                }
                kept.simplify()
            },
        }
    }

    /// The depth bounds in the members of `qs`, in their order.
    fn depths_of_members(qs: &Vec<Query>) -> (v: Vec<usize>)
        ensures
            as_nats(v@) == depths_of_all(views(qs@)),
        decreases qs,
    {
        let mut out: Vec<usize> = Vec::new();
        let mut i: usize = 0;
        while i < qs.len()
            invariant
                i <= qs.len(),
                as_nats(out@) == depths_of_all(views(qs@).take(i as int)),
            decreases qs.len() - i,
        {
            let mut found = Query::depth_helper(&qs[i]);
            out.append(&mut found);
            proof {
                assert(views(qs@).take(i + 1).drop_last() =~= views(qs@).take(i as int));
            }
            i += 1;
        }
        proof {
            assert(views(qs@).take(qs.len() as int) =~= views(qs@));
        }
        out
    }

    /// The depth bounds in the query, found by going through conjunctions
    /// and disjunctions, in their order.
    fn depth_helper(query: &Query) -> (v: Vec<usize>)
        ensures
            as_nats(v@) == query@.depths(),
        decreases query,
    {
        match query {
            Query::Depth(d) => {
                let mut v: Vec<usize> = Vec::new();
                v.push(*d);
                v
            },
            Query::Or(q) => {
                proof {
                    lemma_view_members(*q);
                }
                Query::depths_of_members(q)
            },
            Query::And(q) => {
                proof {
                    lemma_view_members(*q);
                }
                Query::depths_of_members(q)
            },
            _ => {
                let v: Vec<usize> = Vec::new();
                v
            },
        }
    }

    /// The effective depth: the least depth bound found by going through
    /// conjunctions and disjunctions, or [`UNBOUNDED_DEPTH`] where there is
    /// none.
    pub fn depth(&self) -> (d: usize)
        ensures
            self@.has_depth(d as nat),
    {
        let q = Query::depth_helper(self);
        if q.len() == 0 {
            return UNBOUNDED_DEPTH;
        }
        let mut least: usize = q[0];
        let mut i: usize = 1;
        while i < q.len()
            invariant
                1 <= i <= q.len(),
                exists|k: int| 0 <= k < i && q[k] == least,
                forall|k: int| 0 <= k < i ==> least <= #[trigger] q[k],
            decreases q.len() - i,
        {
            if q[i] < least {
                least = q[i];
            }
            i += 1;
        }
        proof {
            let ds = as_nats(q@);
            let k = choose|k: int| 0 <= k < q.len() && q[k] == least;
            assert(ds[k] == least as nat);
        }
        least
    }
}

impl Query {
    /// A copy of the query.
    pub fn duplicate(&self) -> (r: Query)
        ensures
            r@ == self@,
        decreases self,
    {
        match self {
            Query::Any => Query::Any,
            Query::Nothing => Query::Nothing,
            Query::Not(x) => {
                let inner: &Query = &**x;
                Query::Not(Rc::new(inner.duplicate()))
            },
            Query::Or(xs) => {
                let mut out: Vec<Query> = Vec::new();
                let mut i: usize = 0;
                while i < xs.len()
                    invariant
                        i <= xs.len(),
                        *self == Query::Or(*xs),
                        out.len() == i,
                        forall|j: int| 0 <= j < i ==> out[j]@ == xs[j]@,
                    decreases xs.len() - i,
                {
                    assert(self->Or_0 == *xs);
                    let x = xs[i].duplicate();
                    out.push(x);
                    i += 1;
                }
                proof {
                    lemma_view_members(*xs);
                    lemma_view_members(out);
                    assert(views(out@) =~= views(xs@));
                }
                Query::Or(out)
            },
            Query::And(xs) => {
                let mut out: Vec<Query> = Vec::new();
                let mut i: usize = 0;
                while i < xs.len()
                    invariant
                        i <= xs.len(),
                        *self == Query::And(*xs),
                        out.len() == i,
                        forall|j: int| 0 <= j < i ==> out[j]@ == xs[j]@,
                    decreases xs.len() - i,
                {
                    assert(self->And_0 == *xs);
                    let x = xs[i].duplicate();
                    out.push(x);
                    i += 1;
                }
                proof {
                    lemma_view_members(*xs);
                    lemma_view_members(out);
                    assert(views(out@) =~= views(xs@));
                }
                Query::And(out)
            },
            Query::Code(r) => Query::Code(r.clone()),
            Query::Desc(r) => Query::Desc(r.clone()),
            Query::Acct(r) => Query::Acct(r.clone()),
            Query::Date(d) => Query::Date(*d),
            Query::Date2(d) => Query::Date2(*d),
            Query::Status(s) => Query::Status(*s),
            Query::Real(b) => Query::Real(*b),
            Query::Amount(ord, q) => Query::Amount(*ord, *q),
            Query::Symbol(r) => Query::Symbol(r.clone()),
            Query::Empty(b) => Query::Empty(*b),
            Query::Depth(d) => Query::Depth(*d),
            Query::Tag(name, value) => {
                let v = match value {
                    Some(p) => Some(p.clone()),
                    None => None,
                };
                Query::Tag(name.clone(), v)
            },
        }
    }
}

impl Clone for Query {
    fn clone(&self) -> (r: Query)
        ensures
            r@ == self@,
    {
        self.duplicate()
    }
}

impl PartialEq for Query {
    fn eq(&self, other: &Query) -> (r: bool) {
        self.same_as(other)
    }
}

impl Eq for Query {

}

impl vstd::std_specs::cmp::PartialEqSpecImpl for Query {
    open spec fn obeys_eq_spec() -> bool {
        true
    }

    open spec fn eq_spec(&self, other: &Query) -> bool {
        self@ == other@
    }
}

} // verus!
