use ledger::amount::Amount;
use ledger::amount::MixedAmount;
use ledger::calendar::Day;
use ledger::calendar::Span;
use ledger::commodity::Commodity;
use ledger::decimal::Decimal;
use ledger::journal::Journal;
use ledger::journal::JournalContext;
use ledger::journal::MarketPrice;
use ledger::journal::Year;
use ledger::posting::ClearedStatus;
use ledger::posting::Posting;
use ledger::posting::PostingType;
use ledger::posting::Tag;
use ledger::quantity::Quantity;
use ledger::transaction::GenericSourcePos;
use ledger::transaction::ModifierTransaction;
use ledger::transaction::PeriodicTransaction;
use ledger::transaction::Transaction;

fn of(unscaled: i64, commodity: &str) -> Amount {
    let quantity = Quantity(Decimal::new(unscaled, 0));
    Amount::apply_op(
        move |_, _| quantity,
        Amount::new(),
        Amount::new().with_commodity(Commodity::new(String::from(commodity))),
    )
}

fn tag(name: &str, value: &str) -> Tag {
    Tag::new(String::from(name), String::from(value))
}

fn posting(unscaled: i64, tags: Vec<Tag>) -> Posting {
    Posting {
        status: ClearedStatus::Uncleared,
        amount: MixedAmount::from_vec(vec![of(unscaled, "EUR")]),
        posting_type: PostingType::Regular,
        tags: tags,
        balance_assertion: None,
        transaction: None,
    }
}

fn transaction(index: usize, postings: Vec<Posting>) -> Transaction {
    Transaction {
        index: index,
        source_pos: GenericSourcePos::new(String::from("main.journal"), index + 1, 1),
        date: Day::new(736000),
        date2: None,
        status: ClearedStatus::Pending,
        code: String::from("c"),
        description: String::from("groceries"),
        comment: String::new(),
        tags: vec![tag("shop", "corner")],
        postings: postings,
        preceding_comment_lines: String::new(),
    }
}

#[test]
fn days_and_spans_keep_their_numbers() {
    assert_eq!(Day::new(736000).days_from_ce, 736000);
    assert_eq!(Day::new(1), Day::new(1));
    assert_ne!(Day::new(1), Day::new(2));
    let s = Span::new(-5, 999);
    assert_eq!(s.secs, -5);
    assert_eq!(s.nanos, 999);
    assert_ne!(Span::new(1, 0), Span::new(0, 1_000_000_000));
}

#[test]
fn cleared_status_has_its_mark() {
    assert_eq!(ClearedStatus::Uncleared.to_string(), "");
    assert_eq!(ClearedStatus::Pending.to_string(), "!");
    assert_eq!(ClearedStatus::Cleared.to_string(), "*");
}

#[test]
fn tags_are_equal_by_name_and_value() {
    let t = tag("shop", "corner");
    assert_eq!(t.name(), "shop");
    assert_eq!(t.value(), "corner");
    assert_eq!(t, tag("shop", "corner"));
    assert_ne!(t, tag("shop", "market"));
    assert_ne!(t, tag("store", "corner"));
    assert_eq!(t.clone(), t);
}

#[test]
fn posting_is_real_only_when_regular() {
    let mut p = posting(1, vec![]);
    assert!(p.is_real());
    assert!(!p.is_virtual());
    p.posting_type = PostingType::Virtual;
    assert!(!p.is_real());
    assert!(p.is_virtual());
    p.posting_type = PostingType::BalancedVirtual;
    assert!(!p.is_real());
    assert!(!p.is_virtual());
}

#[test]
fn posting_status_falls_back_to_the_transaction() {
    let mut p = posting(1, vec![]);
    assert_eq!(p.status(), ClearedStatus::Uncleared);
    p.transaction = Some(transaction(0, vec![]));
    assert_eq!(p.status(), ClearedStatus::Pending);
    p.status = ClearedStatus::Cleared;
    assert_eq!(p.status(), ClearedStatus::Cleared);
    p.status = ClearedStatus::Pending;
    p.transaction = None;
    assert_eq!(p.status(), ClearedStatus::Pending);
}

#[test]
fn posting_all_tags_adds_those_of_the_transaction() {
    let mut p = posting(1, vec![tag("a", "1"), tag("b", "2")]);
    assert_eq!(p.all_tags(), vec![tag("a", "1"), tag("b", "2")]);
    p.transaction = Some(transaction(0, vec![]));
    assert_eq!(p.all_tags(), vec![tag("a", "1"), tag("b", "2"), tag("shop", "corner")]);
}

#[test]
fn posting_related_postings_are_the_others() {
    let first = posting(1, vec![]);
    let second = posting(2, vec![]);
    let third = posting(3, vec![]);
    let t = transaction(0, vec![first.clone(), second.clone(), third.clone(), second.clone()]);
    let mut p = second.clone();
    assert_eq!(p.related_postings(), vec![]);
    p.transaction = Some(t);
    assert_eq!(
        p.related_postings(),
        vec![first.clone(), second.clone(), third.clone(), second.clone()]
    );
    let mut inside = second.clone();
    inside.transaction = Some(transaction(0, vec![]));
    let t = transaction(0, vec![first.clone(), inside.clone(), third.clone()]);
    let mut q = inside.clone();
    q.transaction = Some(t);
    assert_eq!(q.related_postings(), vec![first.clone(), inside.clone(), third.clone()]);
    assert_eq!(inside.related_postings(), vec![]);
}

#[test]
fn posting_related_postings_leave_out_equal_ones() {
    let first = posting(1, vec![]);
    let second = posting(2, vec![]);
    let t = transaction(0, vec![first.clone(), second.clone(), first.clone()]);
    let looking = Posting {
        status: ClearedStatus::Uncleared,
        amount: MixedAmount::from_vec(vec![of(2, "EUR")]),
        posting_type: PostingType::Regular,
        tags: vec![],
        balance_assertion: None,
        transaction: Some(t),
    };
    assert_eq!(looking.related_postings(), vec![first.clone(), second.clone(), first.clone()]);
    let t = transaction(0, vec![]);
    let mut a = posting(1, vec![]);
    a.transaction = Some(t.clone());
    let mut holder = transaction(1, vec![a.clone(), second.clone(), a.clone()]);
    holder.postings[1].transaction = None;
    let mut b = a.clone();
    b.transaction = Some(t.clone());
    assert!(a == b);
    let mut c = posting(1, vec![]);
    c.transaction = Some(holder);
    assert_eq!(c.related_postings(), vec![a.clone(), second.clone(), a.clone()]);
}

#[test]
fn posting_sum_postings_joins_the_amounts() {
    let mut two = posting(2, vec![]);
    two.amount = MixedAmount::from_vec(vec![of(2, "EUR"), of(5, "USD")]);
    let sum = Posting::sum_postings(vec![posting(1, vec![]), two, posting(3, vec![])]);
    assert_eq!(
        sum,
        MixedAmount::from_vec(vec![of(1, "EUR"), of(2, "EUR"), of(5, "USD"), of(3, "EUR")])
    );
    assert_eq!(Posting::sum_postings(vec![]), MixedAmount::zero());
}

#[test]
fn postings_are_equal_by_all_their_parts() {
    let p = posting(1, vec![tag("a", "1")]);
    assert_eq!(p.clone(), p);
    assert!(p.same_as(&p.duplicate()));
    assert_ne!(p, posting(2, vec![tag("a", "1")]));
    assert_ne!(p, posting(1, vec![]));
    let mut q = p.clone();
    q.balance_assertion = Some(MixedAmount::zero());
    assert_ne!(p, q);
    let mut q = p.clone();
    q.transaction = Some(transaction(0, vec![]));
    assert_ne!(p, q);
    let mut q = p.clone();
    q.status = ClearedStatus::Cleared;
    assert_ne!(p, q);
}

#[test]
fn transaction_all_tags_adds_those_of_its_postings() {
    let t = transaction(
        0,
        vec![posting(1, vec![tag("a", "1")]), posting(2, vec![]), posting(3, vec![tag("b", "2"), tag("c", "3")])],
    );
    assert_eq!(
        t.all_tags(),
        vec![tag("shop", "corner"), tag("a", "1"), tag("b", "2"), tag("c", "3")]
    );
    assert_eq!(transaction(0, vec![]).all_tags(), vec![tag("shop", "corner")]);
}

#[test]
fn transactions_are_equal_by_all_their_parts() {
    let t = transaction(0, vec![posting(1, vec![])]);
    assert_eq!(t.clone(), t);
    assert!(t.same_as(&t.duplicate()));
    assert_ne!(t, transaction(1, vec![posting(1, vec![])]));
    assert_ne!(t, transaction(0, vec![posting(2, vec![])]));
    assert_ne!(t, transaction(0, vec![]));
    let mut u = t.clone();
    u.date2 = Some(Day::new(736001));
    assert_ne!(t, u);
    let mut u = t.clone();
    u.description = String::from("rent");
    assert_ne!(t, u);
    let a = GenericSourcePos::new(String::from("a"), 1, 2);
    assert!(a == GenericSourcePos::new(String::from("a"), 1, 2));
    assert!(a != GenericSourcePos::new(String::from("a"), 2, 1));
    assert!(a.clone() == a);
}

#[test]
fn journal_new_is_empty() {
    let j = Journal::new();
    assert!(j.modifier_transactions.is_empty());
    assert!(j.periodic_transactions.is_empty());
    assert!(j.transactions.is_empty());
    assert!(j.market_prices.is_empty());
    assert_eq!(j.final_comment_lines, "");
    assert_eq!(j.context, JournalContext::new());
    assert!(j.transaction_at(0).is_none());
    assert!(j.postings().is_empty());
}

#[test]
fn journal_add_transaction_mut_adds_at_the_end() {
    let mut j = Journal::new();
    j.add_transaction_mut(transaction(0, vec![]));
    j.add_transaction_mut(transaction(1, vec![posting(1, vec![])]));
    assert_eq!(j.transactions.len(), 2);
    assert_eq!(j.transactions[0], transaction(0, vec![]));
    assert_eq!(j.transactions[1], transaction(1, vec![posting(1, vec![])]));
    assert!(j.market_prices.is_empty());
    assert!(j.modifier_transactions.is_empty());
}

#[test]
fn journal_add_transaction_leaves_the_journal_as_it_was() {
    let mut j = Journal::new();
    j.add_transaction_mut(transaction(0, vec![]));
    let k = j.add_transaction(transaction(1, vec![]));
    assert_eq!(j.transactions.len(), 1);
    assert_eq!(k.transactions.len(), 2);
    assert_eq!(k.transactions[0], transaction(0, vec![]));
    assert_eq!(k.transactions[1], transaction(1, vec![]));
}

#[test]
fn journal_add_modifier_transaction_adds_at_the_end() {
    let mut j = Journal::new();
    j.add_modifier_transaction_mut(ModifierTransaction {
        value_expression: String::from("= groceries"),
        postings: vec![posting(1, vec![])],
    });
    assert_eq!(j.modifier_transactions.len(), 1);
    let k = j.add_modifier_transaction(ModifierTransaction {
        value_expression: String::from("= rent"),
        postings: vec![],
    });
    assert_eq!(j.modifier_transactions.len(), 1);
    assert_eq!(k.modifier_transactions.len(), 2);
    assert_eq!(k.modifier_transactions[0].value_expression, "= groceries");
    assert_eq!(k.modifier_transactions[0].postings, vec![posting(1, vec![])]);
    assert_eq!(k.modifier_transactions[1].value_expression, "= rent");
    let p = PeriodicTransaction { periodic_expression: String::from("~ monthly"), postings: vec![] };
    assert_eq!(p.clone().periodic_expression, "~ monthly");
}

#[test]
fn journal_add_market_price_adds_at_the_end() {
    let mut j = Journal::new();
    j.add_market_price_mut(MarketPrice {
        date: Day::new(736000),
        commodity: Commodity::new(String::from("USD")),
        amount: of(2, "EUR"),
    });
    assert_eq!(j.market_prices.len(), 1);
    let k = j.add_market_price(MarketPrice {
        date: Day::new(736001),
        commodity: Commodity::new(String::from("CHF")),
        amount: of(3, "EUR"),
    });
    assert_eq!(j.market_prices.len(), 1);
    assert_eq!(k.market_prices.len(), 2);
    assert_eq!(k.market_prices[0].date, Day::new(736000));
    assert_eq!(k.market_prices[1].date, Day::new(736001));
    assert_eq!(k.market_prices[1].commodity.symbol(), "CHF");
    assert_eq!(k.market_prices[1].amount, of(3, "EUR"));
}

#[test]
fn journal_add_item_works_on_a_copy() {
    let mut j = Journal::new();
    j.add_transaction_mut(transaction(0, vec![]));
    let k = j.add_item(|s, x| s.add_transaction_mut(x), transaction(1, vec![]));
    assert_eq!(j.transactions.len(), 1);
    assert_eq!(k.transactions.len(), 2);
    assert_eq!(k.transactions[1], transaction(1, vec![]));
    let k = j.add_item(|s, x: String| s.final_comment_lines = x, String::from("; end"));
    assert_eq!(k.final_comment_lines, "; end");
    assert_eq!(j.final_comment_lines, "");
}

#[test]
fn journal_transaction_at_is_by_position() {
    let mut j = Journal::new();
    j.add_transaction_mut(transaction(5, vec![]));
    j.add_transaction_mut(transaction(1, vec![]));
    assert_eq!(j.transaction_at(0), Some(&transaction(5, vec![])));
    assert_eq!(j.transaction_at(1), Some(&transaction(1, vec![])));
    assert_eq!(j.transaction_at(2), None);
}

#[test]
fn journal_next_transaction_is_at_the_index_of_the_given_one() {
    let mut j = Journal::new();
    j.add_transaction_mut(transaction(1, vec![]));
    j.add_transaction_mut(transaction(2, vec![]));
    let first = transaction(1, vec![]);
    assert_eq!(j.next_transaction(&first), Some(&transaction(2, vec![])));
    let second = transaction(2, vec![]);
    assert_eq!(j.next_transaction(&second), None);
    let zeroth = transaction(0, vec![]);
    assert_eq!(j.next_transaction(&zeroth), Some(&transaction(1, vec![])));
}

#[test]
fn journal_postings_are_those_of_all_transactions() {
    let mut j = Journal::new();
    j.add_transaction_mut(transaction(0, vec![posting(1, vec![]), posting(2, vec![])]));
    j.add_transaction_mut(transaction(1, vec![]));
    j.add_transaction_mut(transaction(2, vec![posting(3, vec![])]));
    assert_eq!(
        j.postings(),
        vec![posting(1, vec![]), posting(2, vec![]), posting(3, vec![])]
    );
}

#[test]
fn a_cloned_journal_holds_the_same() {
    let mut j = Journal::new();
    j.add_transaction_mut(transaction(0, vec![posting(1, vec![])]));
    j.final_comment_lines = String::from("; end");
    let k = j.clone();
    assert_eq!(k.transactions, j.transactions);
    assert_eq!(k.final_comment_lines, "; end");
    assert_eq!(Year::new(2016), Year::new(2016));
    assert_ne!(Year::new(2016), Year::new(2017));
}
