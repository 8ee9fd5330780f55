//! Transactions: dated groups of postings.

use vstd::prelude::*;
use crate::calendar::Day;
use crate::posting::all_posting_tags;
use crate::posting::clone_tags;
use crate::posting::posting_views;
use crate::posting::same_tags;
use crate::posting::tag_views;
use crate::posting::ClearedStatus;
use crate::posting::Posting;
use crate::posting::PostingView;
use crate::posting::Tag;
use crate::posting::TagView;

verus! {

/// A place in a source file: the file, the line and the column.
#[derive(Debug)]
pub struct GenericSourcePos(String, usize, usize);

/// What a [`GenericSourcePos`] stands for.
pub ghost struct SourcePosView {
    pub file: Seq<char>,
    pub line: nat,
    pub column: nat,
}

/// A dated group of postings.
#[derive(Debug)]
pub struct Transaction {
    pub index: usize,
    pub source_pos: GenericSourcePos,
    pub date: Day,
    pub date2: Option<Day>,
    pub status: ClearedStatus,
    pub code: String,
    pub description: String,
    pub comment: String,
    pub tags: Vec<Tag>,
    pub postings: Vec<Posting>,
    pub preceding_comment_lines: String,
}

/// What a [`Transaction`] stands for.
pub ghost struct TransactionView {
    pub index: nat,
    pub source_pos: SourcePosView,
    pub date: Day,
    pub date2: Option<Day>,
    pub status: ClearedStatus,
    pub code: Seq<char>,
    pub description: Seq<char>,
    pub comment: Seq<char>,
    pub tags: Seq<TagView>,
    pub postings: Seq<PostingView>,
    pub preceding_comment_lines: Seq<char>,
}

/// A rule that adds postings to the transactions it matches.
#[derive(PartialEq, Eq, Debug)]
pub struct ModifierTransaction {
    pub value_expression: String,
    pub postings: Vec<Posting>,
}

/// A rule that makes transactions at regular intervals.
#[derive(PartialEq, Eq, Debug)]
pub struct PeriodicTransaction {
    pub periodic_expression: String,
    pub postings: Vec<Posting>,
}

/// What a [`ModifierTransaction`] or a [`PeriodicTransaction`] stands for:
/// its expression and its postings.
pub ghost struct RuleView {
    pub expression: Seq<char>,
    pub postings: Seq<PostingView>,
}

/// A copy of the postings.
pub fn clone_postings(postings: &Vec<Posting>) -> (r: Vec<Posting>)
    ensures
        posting_views(r@) == posting_views(postings@),
{
    postings.clone()
}

impl GenericSourcePos {
    /// What the place stands for.
    pub closed spec fn view(&self) -> SourcePosView {
        SourcePosView { file: self.0@, line: self.1 as nat, column: self.2 as nat }
    }

    /// The place in the given file at the given line and column.
    pub fn new(file: String, line: usize, column: usize) -> (r: GenericSourcePos)
        ensures
            r@ == (SourcePosView { file: file@, line: line as nat, column: column as nat }),
    {
        GenericSourcePos(file, line, column)
    }
}

impl Clone for GenericSourcePos {
    fn clone(&self) -> (r: GenericSourcePos)
        ensures
            r@ == self@,
    {
        GenericSourcePos(self.0.clone(), self.1, self.2)
    }
}

impl PartialEq for GenericSourcePos {
    fn eq(&self, other: &GenericSourcePos) -> (r: bool) {
        self.0 == other.0 && self.1 == other.1 && self.2 == other.2
    }
}

impl Eq for GenericSourcePos {

}

impl vstd::std_specs::cmp::PartialEqSpecImpl for GenericSourcePos {
    open spec fn obeys_eq_spec() -> bool {
        true
    }

    open spec fn eq_spec(&self, other: &GenericSourcePos) -> bool {
        self@ == other@
    }
}

impl Transaction {
    /// What the transaction stands for.
    pub open spec fn view(&self) -> TransactionView
        decreases self,
    {
        TransactionView {
            index: self.index as nat,
            source_pos: self.source_pos@,
            date: self.date,
            date2: self.date2,
            status: self.status,
            code: self.code@,
            description: self.description@,
            comment: self.comment@,
            tags: tag_views(self.tags@),
            postings: Seq::new(
                self.postings.len() as nat,
                |i: int|
                    if 0 <= i < self.postings.len() {
                        self.postings[i].view()
                    } else {
                        arbitrary()
                    },
            ),
            preceding_comment_lines: self.preceding_comment_lines@,
        }
    }

    /// The postings of what a transaction stands for are what its postings
    /// stand for.
    pub proof fn lemma_view_postings(&self)
        ensures
            self@.postings == posting_views(self.postings@),
    {
    }

    /// A copy of the transaction.
    pub fn duplicate(&self) -> (r: Transaction)
        ensures
            r@ == self@,
        decreases self,
    {
        let mut postings: Vec<Posting> = Vec::new();
        let mut i: usize = 0;
        while i < self.postings.len()
            invariant
                i <= self.postings.len(),
                postings.len() == i,
                forall|j: int| 0 <= j < i ==> postings[j]@ == self.postings[j]@,
            decreases self.postings.len() - i,
        {
            let p = self.postings[i].duplicate();
            postings.push(p);
            i += 1;
        }
        let r = Transaction {
            index: self.index,
            source_pos: self.source_pos.clone(),
            date: self.date,
            date2: self.date2,
            status: self.status,
            code: self.code.clone(),
            description: self.description.clone(),
            comment: self.comment.clone(),
            tags: clone_tags(&self.tags),
            postings: postings,
            preceding_comment_lines: self.preceding_comment_lines.clone(),
        };
        proof {
            self.lemma_view_postings();
            r.lemma_view_postings();
            assert(posting_views(r.postings@) =~= posting_views(self.postings@));
        }
        r
    }

    /// Whether both transactions stand for the same.
    pub fn same_as(&self, other: &Transaction) -> (r: bool)
        ensures
            r == (self@ == other@),
        decreases self,
    {
        proof {
            self.lemma_view_postings();
        }
        if self.index != other.index || self.date != other.date || self.status != other.status {
            return false;
        }
        let second_dates = match (self.date2, other.date2) {
            (Some(a), Some(b)) => a == b,
            (None, None) => true,
            _ => false,
        };
        if !second_dates {
            return false;
        }
        if !(self.source_pos == other.source_pos) || !(self.code == other.code) || !(
        self.description == other.description) || !(self.comment == other.comment) || !(
        self.preceding_comment_lines == other.preceding_comment_lines) {
            return false;
        }
        if !same_tags(&self.tags, &other.tags) {
            return false;
        }
        if self.postings.len() != other.postings.len() {
            assert(posting_views(self.postings@).len() != posting_views(other.postings@).len());
            return false;
        }
        let mut i: usize = 0;
        while i < self.postings.len()
            invariant
                i <= self.postings.len(),
                self.postings.len() == other.postings.len(),
                self@.postings == posting_views(self.postings@),
                other@.postings == posting_views(other.postings@),
                forall|j: int| 0 <= j < i ==> self.postings[j]@ == other.postings[j]@,
            decreases self.postings.len() - i,
        {
            if !self.postings[i].same_as(&other.postings[i]) {
                assert(posting_views(self.postings@)[i as int] != posting_views(
                    other.postings@,
                )[i as int]);
                return false;
            }
            i += 1;
        }
        assert(posting_views(self.postings@) =~= posting_views(other.postings@));
        true
    }

    /// The tags of the transaction, followed by those of its postings.
    pub fn all_tags(&self) -> (r: Vec<Tag>)
        ensures
            tag_views(r@) == self@.tags + all_posting_tags(self@.postings),
    {
        proof {
            self.lemma_view_postings();
        }
        let mut out = clone_tags(&self.tags);
        let mut i: usize = 0;
        while i < self.postings.len()
            invariant
                i <= self.postings.len(),
                tag_views(out@) == tag_views(self.tags@) + all_posting_tags(
                    posting_views(self.postings@).take(i as int),
                ),
            decreases self.postings.len() - i,
        {
            let ghost before = out@;
            let mut more = clone_tags(&self.postings[i].tags);
            let ghost added = more@;
            out.append(&mut more);
            proof {
                assert(posting_views(self.postings@).take(i + 1).drop_last() =~= posting_views(
                    self.postings@,
                ).take(i as int));
                assert(tag_views(out@) =~= tag_views(before) + tag_views(added));
            }
            i += 1;
        }
        proof {
            assert(posting_views(self.postings@).take(self.postings.len() as int)
                =~= posting_views(self.postings@));
        }
        out
    }
}

impl Clone for Transaction {
    fn clone(&self) -> (r: Transaction)
        ensures
            r@ == self@,
    {
        self.duplicate()
    }
}

impl PartialEq for Transaction {
    fn eq(&self, other: &Transaction) -> (r: bool) {
        self.same_as(other)
    }
}

impl Eq for Transaction {

}

impl vstd::std_specs::cmp::PartialEqSpecImpl for Transaction {
    open spec fn obeys_eq_spec() -> bool {
        true
    }

    open spec fn eq_spec(&self, other: &Transaction) -> bool {
        self@ == other@
    }
}

impl ModifierTransaction {
    /// What the rule stands for.
    pub open spec fn view(&self) -> RuleView {
        RuleView { expression: self.value_expression@, postings: posting_views(self.postings@) }
    }
}

impl Clone for ModifierTransaction {
    fn clone(&self) -> (r: ModifierTransaction)
        ensures
            r@ == self@,
    {
        ModifierTransaction {
            value_expression: self.value_expression.clone(),
            postings: clone_postings(&self.postings),
        }
    }
}

impl PeriodicTransaction {
    /// What the rule stands for.
    pub open spec fn view(&self) -> RuleView {
        RuleView { expression: self.periodic_expression@, postings: posting_views(self.postings@) }
    }
}

impl Clone for PeriodicTransaction {
    fn clone(&self) -> (r: PeriodicTransaction)
        ensures
            r@ == self@,
    {
        PeriodicTransaction {
            periodic_expression: self.periodic_expression.clone(),
            postings: clone_postings(&self.postings),
        }
    }
}

} // verus!
