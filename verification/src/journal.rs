//! The journal: everything that was read from a ledger.

use vstd::prelude::*;
use crate::amount::Amount;
use crate::amount::AmountView;
use crate::calendar::Day;
use crate::commodity::Commodity;
use crate::posting::posting_views;
use crate::posting::Posting;
use crate::posting::PostingView;
use crate::transaction::ModifierTransaction;
use crate::transaction::PeriodicTransaction;
use crate::transaction::RuleView;
use crate::transaction::Transaction;
use crate::transaction::TransactionView;

verus! {

/// What a commodity was worth on a day.
#[derive(PartialEq, Eq, Debug)]
pub struct MarketPrice {
    pub date: Day,
    pub commodity: Commodity,
    pub amount: Amount,
}

/// What a [`MarketPrice`] stands for.
pub ghost struct MarketPriceView {
    pub date: Day,
    pub commodity: Seq<char>,
    pub amount: AmountView,
}

/// A year of the calendar.
#[derive(Clone, Copy, PartialEq, Eq, Debug, Structural)]
pub struct Year(usize);

/// What the reader of a journal keeps in mind from line to line.
#[derive(Clone, Copy, PartialEq, Eq, Debug, Structural)]
pub struct JournalContext {
    year: Option<Year>,
}

/// Represents the complete journal
#[derive(PartialEq, Eq, Debug)]
pub struct Journal {
    pub modifier_transactions: Vec<ModifierTransaction>,
    pub periodic_transactions: Vec<PeriodicTransaction>,
    pub transactions: Vec<Transaction>,
    pub market_prices: Vec<MarketPrice>,
    pub final_comment_lines: String,
    pub context: JournalContext,
}

/// What a [`Journal`] stands for.
pub ghost struct JournalView {
    pub modifier_transactions: Seq<RuleView>,
    pub periodic_transactions: Seq<RuleView>,
    pub transactions: Seq<TransactionView>,
    pub market_prices: Seq<MarketPriceView>,
    pub final_comment_lines: Seq<char>,
    pub context: JournalContext,
}

/// What each rule of `rules` stands for.
pub open spec fn modifier_views(rules: Seq<ModifierTransaction>) -> Seq<RuleView> {
    Seq::new(rules.len(), |i: int| rules[i]@)
}

/// What each rule of `rules` stands for.
pub open spec fn periodic_views(rules: Seq<PeriodicTransaction>) -> Seq<RuleView> {
    Seq::new(rules.len(), |i: int| rules[i]@)
}

/// What each transaction of `transactions` stands for.
pub open spec fn transaction_views(transactions: Seq<Transaction>) -> Seq<TransactionView> {
    Seq::new(transactions.len(), |i: int| transactions[i]@)
}

/// What each market price of `prices` stands for.
pub open spec fn market_price_views(prices: Seq<MarketPrice>) -> Seq<MarketPriceView> {
    Seq::new(prices.len(), |i: int| prices[i]@)
}

/// The postings of the transactions of `xs`, one transaction after the
/// other.
pub open spec fn all_postings(xs: Seq<TransactionView>) -> Seq<PostingView>
    decreases xs.len(),
{
    if xs.len() == 0 {
        Seq::empty()
    } else {
        all_postings(xs.drop_last()) + xs.last().postings
    }
}

impl Year {
    /// The number of the year.
    pub closed spec fn number(self) -> nat {
        self.0 as nat
    }

    /// The year with the given number.
    pub fn new(number: usize) -> (y: Year)
        ensures
            y.number() == number,
    {
        Year(number)
    }
}

impl JournalContext {
    /// The year that dates without a year belong to, if one was given.
    pub closed spec fn year(self) -> Option<Year> {
        self.year
    }

    /// The context at the start of a journal: no year was given.
    pub fn new() -> (c: JournalContext)
        ensures
            c.year() is None,
    {
        JournalContext { year: None }
    }
}

impl MarketPrice {
    /// What the market price stands for.
    pub open spec fn view(&self) -> MarketPriceView {
        MarketPriceView { date: self.date, commodity: self.commodity@, amount: self.amount@ }
    }
}

impl Clone for MarketPrice {
    fn clone(&self) -> (r: MarketPrice)
        ensures
            r@ == self@,
    {
        MarketPrice {
            date: self.date,
            commodity: self.commodity.clone(),
            amount: self.amount.clone(),
        }
    }
}

impl Journal {
    /// What the journal stands for.
    pub open spec fn view(&self) -> JournalView {
        JournalView {
            modifier_transactions: modifier_views(self.modifier_transactions@),
            periodic_transactions: periodic_views(self.periodic_transactions@),
            transactions: transaction_views(self.transactions@),
            market_prices: market_price_views(self.market_prices@),
            final_comment_lines: self.final_comment_lines@,
            context: self.context,
        }
    }

    /// Creates a new empty journal
    pub fn new() -> (j: Journal)
        ensures
            j@.modifier_transactions.len() == 0,
            j@.periodic_transactions.len() == 0,
            j@.transactions.len() == 0,
            j@.market_prices.len() == 0,
            j@.final_comment_lines.len() == 0,
            j@.context.year() is None,
    {
        Journal {
            modifier_transactions: Vec::new(),
            periodic_transactions: Vec::new(),
            transactions: Vec::new(),
            market_prices: Vec::new(),
            final_comment_lines: String::new(),
            context: JournalContext::new(),
        }
    }

    /// Adds a new transaction to the journal
    pub fn add_transaction_mut(&mut self, transaction: Transaction)
        ensures
            final(self)@ == (JournalView {
                transactions: old(self)@.transactions.push(transaction@),
                ..old(self)@
            }),
    {
        self.transactions.push(transaction);
        assert(transaction_views(self.transactions@) =~= transaction_views(
            old(self).transactions@,
        ).push(transaction@));
    }

    /// Adds a new transaction to the journal and returns a copy
    pub fn add_transaction(&self, transaction: Transaction) -> (j: Journal)
        ensures
            j@ == (JournalView {
                transactions: self@.transactions.push(transaction@),
                ..self@
            }),
    {
        let mut x = self.clone();
        x.add_transaction_mut(transaction);
        x
    }

    /// Adds a new modifier transaction to the journal
    pub fn add_modifier_transaction_mut(&mut self, modifier_transaction: ModifierTransaction)
        ensures
            final(self)@ == (JournalView {
                modifier_transactions: old(self)@.modifier_transactions.push(modifier_transaction@),
                ..old(self)@
            }),
    {
        self.modifier_transactions.push(modifier_transaction);
        assert(modifier_views(self.modifier_transactions@) =~= modifier_views(
            old(self).modifier_transactions@,
        ).push(modifier_transaction@));
    }

    /// Adds a new modifier transaction to the journal and returns a copy
    pub fn add_modifier_transaction(&mut self, modifier_transaction: ModifierTransaction) -> (j:
        Journal)
        ensures
            *final(self) == *old(self),
            j@ == (JournalView {
                modifier_transactions: old(self)@.modifier_transactions.push(modifier_transaction@),
                ..old(self)@
            }),
    {
        let mut x = self.clone();
        x.add_modifier_transaction_mut(modifier_transaction);
        x
    }

    /// Adds a new market price to the journal
    pub fn add_market_price_mut(&mut self, market_price: MarketPrice)
        ensures
            final(self)@ == (JournalView {
                market_prices: old(self)@.market_prices.push(market_price@),
                ..old(self)@
            }),
    {
        self.market_prices.push(market_price);
        assert(market_price_views(self.market_prices@) =~= market_price_views(
            old(self).market_prices@,
        ).push(market_price@));
    }

    /// Adds a new market price to the journal and returns a copy
    pub fn add_market_price(&self, market_price: MarketPrice) -> (j: Journal)
        ensures
            j@ == (JournalView {
                market_prices: self@.market_prices.push(market_price@),
                ..self@
            }),
    {
        let mut x = self.clone();
        x.add_market_price_mut(market_price);
        x
    }

    /// Applies the given function to the journal to adds new items
    pub fn add_item<T, F>(&self, f: F, item: T) -> (j: Journal) where F: FnOnce(&mut Journal, T)
        requires
            forall|x: &mut Journal| x@ == self@ ==> call_requires(f, (x, item)),
        ensures
            exists|x: &mut Journal| #[trigger] call_ensures(f, (x, item), ()) && x@ == self@ && final(x)@ == j@,
    {
        let mut x = self.clone();
        f(&mut x, item);
        x
    }

    /// Returns the transaction at the given index, if it is available
    pub fn transaction_at(&self, pos: usize) -> (r: Option<&Transaction>)
        ensures
            match r {
                Some(t) => pos < self.transactions.len() && *t == self.transactions[pos as int],
                None => pos >= self.transactions.len(),
            },
    {
        if pos < self.transactions.len() {
            Some(&self.transactions[pos])
        } else {
            None
        }
    }

    /// The transaction that stands at the index of the given one, if there
    /// is one.
    pub fn next_transaction(&self, transaction: &Transaction) -> (r: Option<&Transaction>)
        ensures
            match r {
                Some(t) => transaction.index < self.transactions.len() && *t
                    == self.transactions[transaction.index as int],
                None => transaction.index >= self.transactions.len(),
            },
    {
        self.transaction_at(transaction.index)
    }

    /// Collects all postings from all transactions and flattens it into a list
    pub fn postings(&self) -> (r: Vec<Posting>)
        ensures
            posting_views(r@) == all_postings(self@.transactions),
    {
        let mut out: Vec<Posting> = Vec::new();
        let mut i: usize = 0;
        while i < self.transactions.len()
            invariant
                i <= self.transactions.len(),
                posting_views(out@) == all_postings(
                    transaction_views(self.transactions@).take(i as int),
                ),
            decreases self.transactions.len() - i,
        {
            let mut more = crate::transaction::clone_postings(&self.transactions[i].postings);
            out.append(&mut more);
            proof {
                self.transactions[i as int].lemma_view_postings();
                assert(transaction_views(self.transactions@).take(i + 1).drop_last()
                    =~= transaction_views(self.transactions@).take(i as int));
            }
            i += 1;
        }
        proof {
            assert(transaction_views(self.transactions@).take(self.transactions.len() as int)
                =~= transaction_views(self.transactions@));
        }
        out
    }
}

impl Clone for Journal {
    fn clone(&self) -> (r: Journal)
        ensures
            r@ == self@,
    {
        let r = Journal {
            modifier_transactions: self.modifier_transactions.clone(),
            periodic_transactions: self.periodic_transactions.clone(),
            transactions: self.transactions.clone(),
            market_prices: self.market_prices.clone(),
            final_comment_lines: self.final_comment_lines.clone(),
            context: self.context,
        };
        proof {
            assert(modifier_views(r.modifier_transactions@) =~= modifier_views(
                self.modifier_transactions@,
            ));
            assert(periodic_views(r.periodic_transactions@) =~= periodic_views(
                self.periodic_transactions@,
            ));
            assert(transaction_views(r.transactions@) =~= transaction_views(self.transactions@));
            assert(market_price_views(r.market_prices@) =~= market_price_views(
                self.market_prices@,
            ));
        }
        r
    }
}

} // verus!
