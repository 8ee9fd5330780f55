//! The mathematical model of a query: a tree of criteria over sequences and
//! natural numbers, and what simplification, matching and depth extraction
//! mean on it.

use vstd::prelude::*;
use crate::calendar::Span;
use crate::posting::ClearedStatus;
use crate::quantity::Quantity;
use crate::query::OrdPlus;
use crate::selection::select;

verus! {

/// What a [`crate::query::Query`] stands for.
pub ghost enum Predicate {
    Any,
    Nothing,
    Not(Box<Predicate>),
    Or(Seq<Predicate>),
    And(Seq<Predicate>),
    Code(Seq<char>),
    Desc(Seq<char>),
    Acct(Seq<char>),
    Date(Span),
    Date2(Span),
    Status(ClearedStatus),
    Real(bool),
    Amount(OrdPlus, Quantity),
    Symbol(Seq<char>),
    Empty(bool),
    Depth(nat),
    Tag(Seq<char>, Option<Seq<char>>),
}

/// What [`crate::query::Query::depth`] answers for a query without a depth
/// criterion.
pub const UNBOUNDED_DEPTH: usize = 99999;

/// The separator between the segments of an account name.
pub const ACCOUNT_SEPARATOR: char = ':';

/// The sum of the sizes of the members of `xs`.
pub open spec fn total_size(xs: Seq<Predicate>) -> nat
    decreases xs,
{
    if xs.len() == 0 {
        0
    } else {
        total_size(xs.drop_last()) + xs.last().size()
    }
}

/// Whether every member of `xs` equals the first one.
pub open spec fn all_same(xs: Seq<Predicate>) -> bool {
    forall|i: int| 0 <= i < xs.len() ==> (#[trigger] xs[i]) == xs[0]
}

/// The members of `xs` other than `Nothing`, each simplified, in their order.
pub open spec fn simplify_kept(xs: Seq<Predicate>) -> Seq<Predicate>
    decreases total_size(xs) + 1, 0nat,
{
    if xs.len() == 0 {
        Seq::empty()
    } else {
        proof {
            lemma_member_size(xs, xs.len() - 1);
        }
        let rest = simplify_kept(xs.drop_last());
        if xs.last() == Predicate::Nothing {
            rest
        } else {
            rest.push(xs.last().simplify())
        }
    }
}

/// The depth bounds found in the members of `xs`, in their order.
pub open spec fn depths_of_all(xs: Seq<Predicate>) -> Seq<nat>
    decreases xs,
{
    if xs.len() == 0 {
        Seq::empty()
    } else {
        depths_of_all(xs.drop_last()) + xs.last().depths()
    }
}

/// The level of an account name in the hierarchy: the number of its segments
/// minus one, which is the number of separators in it.
pub open spec fn level(account_name: Seq<char>) -> nat
    decreases account_name.len(),
{
    if account_name.len() == 0 {
        0
    } else {
        level(account_name.drop_last()) + if account_name.last() == ACCOUNT_SEPARATOR {
            1nat
        } else {
            0nat
        }
    }
}

impl Predicate {
    /// The size of the tree: a combinator counts two, everything else one,
    /// so that an empty combinator is larger than `Any`.
    pub open spec fn size(self) -> nat
        decreases self,
    {
        match self {
            Predicate::Or(xs) => 2 + total_size(xs),
            Predicate::And(xs) => 2 + total_size(xs),
            _ => 1,
        }
    }

    /// One rewrite at the root.
    ///
    /// A combinator without members becomes `Any`; one with a single member,
    /// or whose members are all the same, becomes that member simplified.
    /// Any other conjunction becomes `Nothing`. Any other disjunction becomes
    /// `Nothing` if `Any` is among its members, and else loses the members that
    /// are `Nothing` and has the others simplified. Everything else stays.
    pub open spec fn rewrite(self) -> Predicate
        decreases self.size(), 1nat,
    {
        match self {
            Predicate::And(xs) => {
                if xs.len() == 0 {
                    Predicate::Any
                } else if xs.len() == 1 || all_same(xs) {
                    proof {
                        lemma_member_size(xs, 0);
                    }
                    xs[0].simplify()
                } else {
                    Predicate::Nothing
                }
            },
            Predicate::Or(xs) => {
                if xs.len() == 0 {
                    Predicate::Any
                } else if xs.len() == 1 || all_same(xs) {
                    proof {
                        lemma_member_size(xs, 0);
                    }
                    xs[0].simplify()
                } else if xs.contains(Predicate::Any) {
                    Predicate::Nothing
                } else {
                    Predicate::Or(simplify_kept(xs))
                }
            },
            _ => self,
        }
    }

    /// The simplified form: the root is rewritten until it no longer changes.
    ///
    /// Every rewrite that changes the tree makes it smaller (see
    /// [`lemma_rewrite_shrinks`]), so the last branch is never taken; it is
    /// there to make the recursion well-founded on its face.
    pub open spec fn simplify(self) -> Predicate
        decreases self.size(), 2nat,
    {
        let next = self.rewrite();
        if next == self {
            self
        } else if next.size() < self.size() {
            next.simplify()
        } else {
            next
        }
    }

    /// Whether the criterion holds of an account at the given level.
    ///
    /// Only `Nothing`, tags and depth bounds can exclude an account; a negation
    /// holds exactly when what it negates holds.
    pub open spec fn matches_level(self, account_level: nat) -> bool
        decreases self,
    {
        match self {
            Predicate::Nothing => false,
            Predicate::Not(x) => x.matches_level(account_level),
            Predicate::Or(xs) => exists|i: int|
                0 <= i < xs.len() && (#[trigger] xs[i]).matches_level(account_level),
            Predicate::And(xs) => forall|i: int|
                0 <= i < xs.len() ==> (#[trigger] xs[i]).matches_level(account_level),
            Predicate::Depth(d) => account_level <= d,
            Predicate::Tag(_, _) => false,
            _ => true,
        }
    }

    /// Whether the criterion holds of the account with the given name.
    pub open spec fn matches_account(self, account_name: Seq<char>) -> bool {
        self.matches_level(level(account_name))
    }

    /// The depth bounds in the tree, found by going through conjunctions and
    /// disjunctions, in their order.
    pub open spec fn depths(self) -> Seq<nat>
        decreases self,
    {
        match self {
            Predicate::Depth(d) => seq![d],
            Predicate::Or(xs) => depths_of_all(xs),
            Predicate::And(xs) => depths_of_all(xs),
            _ => Seq::empty(),
        }
    }

    /// Whether `d` is the effective depth: the least depth bound in the tree,
    /// or [`UNBOUNDED_DEPTH`] where there is none.
    pub open spec fn has_depth(self, d: nat) -> bool {
        let ds = self.depths();
        if ds.len() == 0 {
            d == UNBOUNDED_DEPTH
        } else {
            ds.contains(d) && forall|i: int| 0 <= i < ds.len() ==> d <= #[trigger] ds[i]
        }
    }

    /// Whether the criterion is trivially true: `Any`, an empty conjunction,
    /// or the negation of an empty disjunction.
    pub open spec fn is_null(self) -> bool {
        match self {
            Predicate::Any => true,
            Predicate::And(xs) => xs.len() == 0,
            Predicate::Not(x) => *x matches Predicate::Or(xs) && xs.len() == 0,
            _ => false,
        }
    }

    /// What is left of the tree when only what `keep` accepts is kept, before
    /// simplification. A combinator keeps the members whose entry in `keep`
    /// is true; members of members are not looked at. Anything else stays if
    /// the first entry of `keep` is true, and is replaced by `Any` if not.
    pub open spec fn retain(self, keep: Seq<bool>) -> Predicate {
        match self {
            Predicate::And(xs) => Predicate::And(select(xs, keep)),
            Predicate::Or(xs) => Predicate::Or(select(xs, keep)),
            _ => if keep[0] {
                self
            } else {
                Predicate::Any
            },
        }
    }

    /// The tree filtered by `keep`: what [`Predicate::retain`] leaves,
    /// simplified.
    pub open spec fn filter(self, keep: Seq<bool>) -> Predicate {
        self.retain(keep).simplify()
    }

    /// Whether a depth bound occurs anywhere in the tree.
    pub open spec fn mentions_depth(self) -> bool
        decreases self,
    {
        match self {
            Predicate::Depth(_) => true,
            Predicate::Not(x) => x.mentions_depth(),
            Predicate::Or(xs) => exists|i: int|
                0 <= i < xs.len() && (#[trigger] xs[i]).mentions_depth(),
            Predicate::And(xs) => exists|i: int|
                0 <= i < xs.len() && (#[trigger] xs[i]).mentions_depth(),
            _ => false,
        }
    }

    /// Whether the root is a conjunction or a disjunction.
    pub open spec fn is_combinator(self) -> bool {
        self is And || self is Or
    }
}

/// A member of a sequence is no larger than the whole sequence.
pub proof fn lemma_member_size(xs: Seq<Predicate>, i: int)
    requires
        0 <= i < xs.len(),
    ensures
        1 <= xs[i].size() <= total_size(xs),
    decreases xs.len(),
{
    if i < xs.len() - 1 {
        lemma_member_size(xs.drop_last(), i);
    }
}

/// Appending a member adds its size.
pub proof fn lemma_total_size_push(xs: Seq<Predicate>, x: Predicate)
    ensures
        total_size(xs.push(x)) == total_size(xs) + x.size(),
{
    assert(xs.push(x).drop_last() =~= xs);
}

/// What is kept of a sequence is no larger than the sequence, and as large
/// only if nothing changed.
pub proof fn lemma_simplify_kept_size(xs: Seq<Predicate>)
    ensures
        total_size(simplify_kept(xs)) <= total_size(xs),
        total_size(simplify_kept(xs)) == total_size(xs) ==> simplify_kept(xs) == xs,
    decreases total_size(xs) + 1, 0nat,
{
    if xs.len() == 0 {
        assert(simplify_kept(xs) =~= xs);
    } else {
        let init = xs.drop_last();
        let last = xs.last();
        lemma_member_size(xs, xs.len() - 1);
        lemma_simplify_kept_size(init);
        if last != Predicate::Nothing {
            lemma_simplify_size(last);
            lemma_total_size_push(simplify_kept(init), last.simplify());
            if total_size(simplify_kept(xs)) == total_size(xs) {
                assert(init.push(last) =~= xs);
            }
        }
    }
}

/// A rewrite that changes the tree makes it smaller.
pub proof fn lemma_rewrite_shrinks(p: Predicate)
    ensures
        p.rewrite() == p || p.rewrite().size() < p.size(),
    decreases p.size(), 1nat,
{
    match p {
        Predicate::And(xs) => {
            if xs.len() > 0 {
                lemma_member_size(xs, 0);
                lemma_simplify_size(xs[0]);
            }
        },
        Predicate::Or(xs) => {
            if xs.len() > 0 {
                lemma_member_size(xs, 0);
                lemma_simplify_size(xs[0]);
                lemma_simplify_kept_size(xs);
            }
        },
        _ => {},
    }
}

/// Simplification returns a tree that is no larger than the one it was
/// given, and smaller unless it returns that very tree.
pub proof fn lemma_simplify_size(p: Predicate)
    ensures
        p.simplify().size() <= p.size(),
        p.simplify() == p || p.simplify().size() < p.size(),
    decreases p.size(), 2nat,
{
    lemma_rewrite_shrinks(p);
    if p.rewrite() != p {
        lemma_simplify_size(p.rewrite());
    }
}

/// Simplification rewrites the root and, where that changed the tree, starts
/// over on the result.
pub proof fn lemma_simplify_unfold(p: Predicate)
    ensures
        p.simplify() == if p.rewrite() == p {
            p
        } else {
            p.rewrite().simplify()
        },
{
    lemma_rewrite_shrinks(p);
}

/// No rewrite changes a simplified tree.
pub proof fn lemma_simplify_fixed(p: Predicate)
    ensures
        p.simplify().rewrite() == p.simplify(),
    decreases p.size(),
{
    lemma_rewrite_shrinks(p);
    if p.rewrite() != p {
        lemma_simplify_fixed(p.rewrite());
    }
}

/// Simplifying twice gives what simplifying once gives.
pub proof fn lemma_simplify_idempotent(p: Predicate)
    ensures
        p.simplify().simplify() == p.simplify(),
{
    lemma_simplify_fixed(p);
}

/// A conjunction and a disjunction without members both simplify to `Any`.
pub proof fn lemma_simplify_empty()
    ensures
        Predicate::And(Seq::empty()).simplify() == Predicate::Any,
        Predicate::Or(Seq::empty()).simplify() == Predicate::Any,
{
    let a = Predicate::And(Seq::empty());
    let o = Predicate::Or(Seq::empty());
    assert(a.rewrite() == Predicate::Any);
    assert(o.rewrite() == Predicate::Any);
    assert(total_size(Seq::<Predicate>::empty()) == 0);
    assert(Predicate::Any.rewrite() == Predicate::Any);
    assert(Predicate::Any.simplify() == Predicate::Any);
}

/// Where the members of `xs` are all the same, the conjunction and the
/// disjunction of `xs` simplify to the same, and, where there is a first
/// member, to what it simplifies to.
pub proof fn lemma_simplify_all_same(xs: Seq<Predicate>)
    requires
        all_same(xs),
    ensures
        Predicate::And(xs).simplify() == Predicate::Or(xs).simplify(),
        xs.len() > 0 ==> Predicate::And(xs).simplify() == xs[0].simplify(),
{
    if xs.len() == 0 {
        assert(xs =~= Seq::<Predicate>::empty());
        lemma_simplify_empty();
    } else {
        let first = xs[0].simplify();
        lemma_member_size(xs, 0);
        lemma_simplify_size(xs[0]);
        lemma_simplify_idempotent(xs[0]);
        lemma_simplify_unfold(Predicate::And(xs));
        lemma_simplify_unfold(Predicate::Or(xs));
        assert(Predicate::And(xs).rewrite() == first);
        assert(Predicate::Or(xs).rewrite() == first);
    }
}

/// A conjunction or disjunction of one member simplifies to what that member
/// simplifies to.
pub proof fn lemma_simplify_single(x: Predicate)
    ensures
        Predicate::And(seq![x]).simplify() == x.simplify(),
        Predicate::Or(seq![x]).simplify() == x.simplify(),
{
    let xs = seq![x];
    assert(xs[0] == x);
    assert(all_same(xs));
    lemma_simplify_all_same(xs);
}

/// A description criterion wrapped in a conjunction of a disjunction of a
/// disjunction simplifies to the bare criterion.
pub proof fn lemma_simplify_nested_desc(r: Seq<char>)
    ensures
        Predicate::And(
            seq![Predicate::Or(seq![Predicate::Or(seq![Predicate::Desc(r)])])],
        ).simplify() == Predicate::Desc(r),
{
    let leaf = Predicate::Desc(r);
    let inner = Predicate::Or(seq![leaf]);
    let middle = Predicate::Or(seq![inner]);
    lemma_simplify_single(leaf);
    lemma_simplify_single(inner);
    lemma_simplify_single(middle);
    assert(leaf.rewrite() == leaf);
    assert(leaf.simplify() == leaf);
}

/// Simplification leaves everything but conjunctions and disjunctions as it
/// is.
pub proof fn lemma_simplify_leaf(p: Predicate)
    requires
        !p.is_combinator(),
    ensures
        p.simplify() == p,
{
    assert(p.rewrite() == p);
}

/// Filtering something that is neither a conjunction nor a disjunction
/// gives `Any` when it is rejected, and the thing itself when it is accepted.
pub proof fn lemma_filter_leaf(p: Predicate, keep: Seq<bool>)
    requires
        !p.is_combinator(),
        keep.len() == 1,
    ensures
        !keep[0] ==> p.filter(keep) == Predicate::Any,
        keep[0] ==> p.filter(keep) == p,
{
    lemma_simplify_leaf(p);
    lemma_simplify_leaf(Predicate::Any);
}

/// A depth bound holds of exactly the accounts whose level is within it.
pub proof fn lemma_depth_matches(d: nat, account_name: Seq<char>)
    ensures
        Predicate::Depth(d).matches_account(account_name) <==> level(account_name) <= d,
{
}

/// The empty conjunction holds of every account.
pub proof fn lemma_empty_conjunction_matches(account_name: Seq<char>)
    ensures
        Predicate::And(Seq::empty()).matches_account(account_name),
{
}

/// A tag criterion holds of no account.
pub proof fn lemma_tag_never_matches(
    name: Seq<char>,
    value: Option<Seq<char>>,
    account_name: Seq<char>,
)
    ensures
        !Predicate::Tag(name, value).matches_account(account_name),
{
}

/// A tree without a depth bound anywhere in it has no depth bounds to find.
pub proof fn lemma_no_depth_no_depths(p: Predicate)
    requires
        !p.mentions_depth(),
    ensures
        p.depths() == Seq::<nat>::empty(),
    decreases p,
{
    match p {
        Predicate::Or(xs) => {
            lemma_no_depth_in_all(xs);
        },
        Predicate::And(xs) => {
            lemma_no_depth_in_all(xs);
        },
        _ => {},
    }
}

/// Members without a depth bound anywhere in them have no depth bounds to
/// find.
pub proof fn lemma_no_depth_in_all(xs: Seq<Predicate>)
    requires
        forall|i: int| 0 <= i < xs.len() ==> !(#[trigger] xs[i]).mentions_depth(),
    ensures
        depths_of_all(xs) == Seq::<nat>::empty(),
    decreases xs,
{
    if xs.len() > 0 {
        lemma_no_depth_in_all(xs.drop_last());
        assert(!xs[xs.len() - 1].mentions_depth());
        lemma_no_depth_no_depths(xs.last());
        assert(depths_of_all(xs) =~= Seq::<nat>::empty());
    }
}

/// The effective depth of a tree without a depth bound anywhere in it is
/// [`UNBOUNDED_DEPTH`], and nothing else.
pub proof fn lemma_no_depth_unbounded(p: Predicate, d: nat)
    requires
        !p.mentions_depth(),
    ensures
        p.has_depth(d) <==> d == UNBOUNDED_DEPTH,
{
    lemma_no_depth_no_depths(p);
}

} // verus!
