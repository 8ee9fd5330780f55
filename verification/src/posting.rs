//! Postings: the lines of a transaction.

use vstd::prelude::*;
use vstd::string::StringExecFns;
use crate::amount::AmountView;
use crate::amount::MixedAmount;
use crate::transaction::Transaction;
use crate::transaction::TransactionView;

verus! {

/// How far a posting or a transaction has been checked against the bank.
#[derive(Clone, Copy, PartialEq, Eq, Debug, Structural)]
pub enum ClearedStatus {
    Uncleared,
    Pending,
    Cleared,
}

/// A tag: a name and a value.
#[derive(Debug)]
pub struct Tag(String, String);

/// What a [`Tag`] stands for: its name and its value.
pub ghost struct TagView {
    pub name: Seq<char>,
    pub value: Seq<char>,
}

/// Whether a posting moves real money.
#[derive(Clone, Copy, PartialEq, Eq, Debug, Structural)]
pub enum PostingType {
    Regular,
    Virtual,
    BalancedVirtual,
}

/// One line of a transaction.
#[derive(Debug)]
pub struct Posting {
    pub status: ClearedStatus,
    pub amount: MixedAmount,
    pub posting_type: PostingType,
    pub tags: Vec<Tag>,
    pub balance_assertion: Option<MixedAmount>,
    pub transaction: Option<Transaction>,
}

/// What a [`Posting`] stands for.
pub ghost struct PostingView {
    pub status: ClearedStatus,
    pub amount: Seq<AmountView>,
    pub posting_type: PostingType,
    pub tags: Seq<TagView>,
    pub balance_assertion: Option<Seq<AmountView>>,
    pub transaction: Option<Box<TransactionView>>,
}

/// What each tag of `tags` stands for.
pub open spec fn tag_views(tags: Seq<Tag>) -> Seq<TagView> {
    Seq::new(tags.len(), |i: int| tags[i]@)
}

/// What each posting of `postings` stands for.
pub open spec fn posting_views(postings: Seq<Posting>) -> Seq<PostingView> {
    Seq::new(postings.len(), |i: int| postings[i]@)
}

/// The members of `xs` other than `x`, in their order.
pub open spec fn without(xs: Seq<PostingView>, x: PostingView) -> Seq<PostingView>
    decreases xs.len(),
{
    if xs.len() == 0 {
        Seq::empty()
    } else {
        let rest = without(xs.drop_last(), x);
        if xs.last() == x {
            rest
        } else {
            rest.push(xs.last())
        }
    }
}

/// The amounts of the postings of `xs`, one posting after the other.
pub open spec fn all_amounts(xs: Seq<PostingView>) -> Seq<AmountView>
    decreases xs.len(),
{
    if xs.len() == 0 {
        Seq::empty()
    } else {
        all_amounts(xs.drop_last()) + xs.last().amount
    }
}

/// The tags of the postings of `xs`, one posting after the other.
pub open spec fn all_posting_tags(xs: Seq<PostingView>) -> Seq<TagView>
    decreases xs.len(),
{
    if xs.len() == 0 {
        Seq::empty()
    } else {
        all_posting_tags(xs.drop_last()) + xs.last().tags
    }
}

impl ClearedStatus {
    /// The mark of the status: nothing, `!` or `*`.
    pub open spec fn mark(self) -> Seq<char> {
        match self {
            ClearedStatus::Uncleared => ""@,
            ClearedStatus::Pending => "!"@,
            ClearedStatus::Cleared => "*"@,
        }
    }

    /// The mark of the status: nothing, `!` or `*`.
    pub fn to_string(&self) -> (r: String)
        ensures
            r@ == self.mark(),
    {
        match self {
            ClearedStatus::Uncleared => String::from_str(""),
            ClearedStatus::Pending => String::from_str("!"),
            ClearedStatus::Cleared => String::from_str("*"),
        }
    }
}

impl Tag {
    /// What the tag stands for.
    pub closed spec fn view(&self) -> TagView {
        TagView { name: self.0@, value: self.1@ }
    }

    /// The tag with the given name and value.
    pub fn new(name: String, value: String) -> (t: Tag)
        ensures
            t@ == (TagView { name: name@, value: value@ }),
    {
        Tag(name, value)
    }

    /// The name of the tag.
    pub fn name(&self) -> (s: &str)
        ensures
            s@ == self@.name,
    {
        self.0.as_str()
    }

    /// The value of the tag.
    pub fn value(&self) -> (s: &str)
        ensures
            s@ == self@.value,
    {
        self.1.as_str()
    }
}

impl Clone for Tag {
    fn clone(&self) -> (t: Tag)
        ensures
            t@ == self@,
    {
        Tag(self.0.clone(), self.1.clone())
    }
}

impl PartialEq for Tag {
    fn eq(&self, other: &Tag) -> (r: bool) {
        self.0 == other.0 && self.1 == other.1
    }
}

impl Eq for Tag {

}

impl vstd::std_specs::cmp::PartialEqSpecImpl for Tag {
    open spec fn obeys_eq_spec() -> bool {
        true
    }

    open spec fn eq_spec(&self, other: &Tag) -> bool {
        self@ == other@
    }
}

/// A copy of the tags.
pub fn clone_tags(tags: &Vec<Tag>) -> (r: Vec<Tag>)
    ensures
        tag_views(r@) == tag_views(tags@),
{
    tags.clone()
}

/// Whether both vectors hold the same tags in the same order.
pub fn same_tags(a: &Vec<Tag>, b: &Vec<Tag>) -> (r: bool)
    ensures
        r == (tag_views(a@) == tag_views(b@)),
{
    let r = *a == *b;
    proof {
        if r {
            assert(tag_views(a@) =~= tag_views(b@));
        } else if tag_views(a@) == tag_views(b@) {
            assert(tag_views(a@).len() == tag_views(b@).len());
            assert forall|i: int| 0 <= i < a.len() implies a[i]@ == b[i]@ by {
                assert(tag_views(a@)[i] == tag_views(b@)[i]);
            }
        }
    }
    r
}

impl Posting {
    /// What the posting stands for.
    pub open spec fn view(&self) -> PostingView
        decreases self,
    {
        PostingView {
            status: self.status,
            amount: self.amount@,
            posting_type: self.posting_type,
            tags: tag_views(self.tags@),
            balance_assertion: match self.balance_assertion {
                Some(a) => Some(a@),
                None => None,
            },
            transaction: match self.transaction {
                Some(t) => Some(Box::new(t.view())),
                None => None,
            },
        }
    }

    /// A copy of the posting.
    pub fn duplicate(&self) -> (r: Posting)
        ensures
            r@ == self@,
        decreases self,
    {
        Posting {
            status: self.status,
            amount: self.amount.clone(),
            posting_type: self.posting_type,
            tags: clone_tags(&self.tags),
            balance_assertion: match &self.balance_assertion {
                Some(a) => Some(a.clone()),
                None => None,
            },
            transaction: match &self.transaction {
                Some(t) => Some(t.duplicate()),
                None => None,
            },
        }
    }

    /// Whether both postings stand for the same.
    pub fn same_as(&self, other: &Posting) -> (r: bool)
        ensures
            r == (self@ == other@),
        decreases self,
    {
        if self.status != other.status || self.posting_type != other.posting_type {
            return false;
        }
        if !(self.amount == other.amount) {
            return false;
        }
        if !same_tags(&self.tags, &other.tags) {
            return false;
        }
        let assertions = match (&self.balance_assertion, &other.balance_assertion) {
            (Some(a), Some(b)) => *a == *b,
            (None, None) => true,
            _ => false,
        };
        if !assertions {
            return false;
        }
        match (&self.transaction, &other.transaction) {
            (Some(a), Some(b)) => a.same_as(b),
            (None, None) => true,
            _ => false,
        }
    }

    /// Whether the posting moves real money.
    pub fn is_real(&self) -> (r: bool)
        ensures
            r == (self@.posting_type == PostingType::Regular),
    {
        self.posting_type == PostingType::Regular
    }

    /// Whether the posting is virtual and need not balance.
    pub fn is_virtual(&self) -> (r: bool)
        ensures
            r == (self@.posting_type == PostingType::Virtual),
    {
        self.posting_type == PostingType::Virtual
    }

    /// The other postings of the posting's transaction: those that are not
    /// equal to this one, in their order. None where the posting has no
    /// transaction.
    pub fn related_postings(&self) -> (r: Vec<Posting>)
        ensures
            posting_views(r@) == match self@.transaction {
                Some(t) => without(t.postings, self@),
                None => Seq::<PostingView>::empty(),
            },
    {
        let mut out: Vec<Posting> = Vec::new();
        if let Some(t) = &self.transaction {
            proof {
                t.lemma_view_postings();
            }
            let mut i: usize = 0;
            while i < t.postings.len()
                invariant
                    i <= t.postings.len(),
                    posting_views(out@) == without(
                        posting_views(t.postings@).take(i as int),
                        self@,
                    ),
                decreases t.postings.len() - i,
            {
                proof {
                    assert(posting_views(t.postings@).take(i + 1).drop_last() =~= posting_views(
                        t.postings@,
                    ).take(i as int));
                }
                if t.postings[i] != *self {
                    let x = t.postings[i].clone();
                    out.push(x);
                }
                i += 1;
            }
            proof {
                assert(posting_views(t.postings@).take(t.postings.len() as int)
                    =~= posting_views(t.postings@));
            }
        }
        out
    }

    /// The amounts of all the postings, one posting after the other.
    pub fn sum_postings(postings: Vec<Posting>) -> (r: MixedAmount)
        ensures
            r@ == all_amounts(posting_views(postings@)),
    {
        let mut sum = MixedAmount::zero();
        let mut i: usize = 0;
        while i < postings.len()
            invariant
                i <= postings.len(),
                sum@ == all_amounts(posting_views(postings@).take(i as int)),
            decreases postings.len() - i,
        {
            proof {
                assert(posting_views(postings@).take(i + 1).drop_last() =~= posting_views(
                    postings@,
                ).take(i as int));
            }
            let amount = postings[i].amount.clone();
            sum = sum + amount;
            i += 1;
        }
        proof {
            assert(posting_views(postings@).take(postings.len() as int) =~= posting_views(
                postings@,
            ));
        }
        sum
    }

    /// The status of the posting, or that of its transaction where the
    /// posting itself is uncleared.
    pub fn status(&self) -> (r: ClearedStatus)
        ensures
            r == match self@.status {
                ClearedStatus::Uncleared => match self@.transaction {
                    Some(t) => t.status,
                    None => ClearedStatus::Uncleared,
                },
                s => s,
            },
    {
        match self.status {
            ClearedStatus::Uncleared => match &self.transaction {
                Some(t) => t.status,
                None => ClearedStatus::Uncleared,
            },
            s => s,
        }
    }

    /// The tags of the posting, followed by those of its transaction.
    pub fn all_tags(&self) -> (r: Vec<Tag>)
        ensures
            tag_views(r@) == self@.tags + match self@.transaction {
                Some(t) => t.tags,
                None => Seq::<TagView>::empty(),
            },
    {
        let mut out = clone_tags(&self.tags);
        if let Some(t) = &self.transaction {
            let mut more = clone_tags(&t.tags);
            out.append(&mut more);
        }
        out
    }
}

impl Clone for Posting {
    fn clone(&self) -> (r: Posting)
        ensures
            r@ == self@,
    {
        self.duplicate()
    }
}

impl PartialEq for Posting {
    fn eq(&self, other: &Posting) -> (r: bool) {
        self.same_as(other)
    }
}

impl Eq for Posting {

}

impl vstd::std_specs::cmp::PartialEqSpecImpl for Posting {
    open spec fn obeys_eq_spec() -> bool {
        true
    }

    open spec fn eq_spec(&self, other: &Posting) -> bool {
        self@ == other@
    }
}

} // verus!
