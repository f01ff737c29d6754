//! Laws of the two indexes, by payer and by recipient.

use soroban_sdk::Address;
use vstd::prelude::*;

use crate::ledger::{
    Ledger, KEY_PAYER_SUB, KEY_PAYER_SUB_COUNT, KEY_RECIPIENT_SUB, KEY_RECIPIENT_SUB_COUNT,
};
use crate::schedule::{min_of, Subscription};
use crate::subscription::{Readings, MAX_SUBSCRIPTIONS_PAGE};

verus! {

impl Ledger {
    /// Whether an address's index has an id at every position up to its count.
    pub open spec fn complete(
        self,
        symbol: Seq<char>,
        count_symbol: Seq<char>,
        owner: Address,
    ) -> bool {
        forall|i: u32|
            i < self.count(count_symbol, owner) ==> (#[trigger] self.listed(symbol, owner, i)) is Some
    }

    /// The ids in an address's index, in order.
    pub open spec fn ids(self, symbol: Seq<char>, count_symbol: Seq<char>, owner: Address) -> Seq<
        u64,
    > {
        Seq::new(
            self.count(count_symbol, owner) as nat,
            |i: int| self.listed(symbol, owner, i as u32)->0,
        )
    }

    /// The ids of the subscriptions that an address has opened.
    pub open spec fn opened_by(self, payer: Address) -> Seq<u64> {
        self.ids(KEY_PAYER_SUB@, KEY_PAYER_SUB_COUNT@, payer)
    }

    /// The ids of the subscriptions that pay an address.
    pub open spec fn paying_to(self, recipient: Address) -> Seq<u64> {
        self.ids(KEY_RECIPIENT_SUB@, KEY_RECIPIENT_SUB_COUNT@, recipient)
    }

    /// Whether every index is complete.
    pub open spec fn indexes_complete(self) -> bool {
        &&& forall|owner: Address|
            #[trigger] self.complete(KEY_PAYER_SUB@, KEY_PAYER_SUB_COUNT@, owner)
        &&& forall|owner: Address|
            #[trigger] self.complete(KEY_RECIPIENT_SUB@, KEY_RECIPIENT_SUB_COUNT@, owner)
    }
}

/// A new subscription's id goes to the end of its payer's index and of its recipient's,
/// and to no other: every address sees its own subscriptions, in the order in which
/// they were opened.
pub proof fn law_new_id_is_indexed(
    ledger: Ledger,
    sub: Subscription,
    seen: Readings,
    other: Address,
)
    requires
        sub.objection() is None,
        ledger.has_room(sub.payer, sub.recipient),
    ensures
        ({
            let after = ledger.creation(sub, seen).0;
            let id = ledger.next_id();
            &&& after.opened_by(sub.payer) == ledger.opened_by(sub.payer).push(id)
            &&& after.paying_to(sub.recipient) == ledger.paying_to(sub.recipient).push(id)
            &&& other != sub.payer ==> after.opened_by(other) == ledger.opened_by(other)
            &&& other != sub.recipient ==> after.paying_to(other) == ledger.paying_to(other)
            &&& ledger.indexes_complete() ==> after.indexes_complete()
        }),
{
    lemma_index_symbols_differ();
    let after = ledger.creation(sub, seen).0;
    assert(after.opened_by(sub.payer) =~= ledger.opened_by(sub.payer).push(ledger.next_id()));
    assert(after.paying_to(sub.recipient) =~= ledger.paying_to(sub.recipient).push(
        ledger.next_id(),
    ));
    assert(other != sub.payer ==> after.opened_by(other) =~= ledger.opened_by(other));
    assert(other != sub.recipient ==> after.paying_to(other) =~= ledger.paying_to(other));
    if ledger.indexes_complete() {
        assert forall|owner: Address| #[trigger]
            after.complete(KEY_PAYER_SUB@, KEY_PAYER_SUB_COUNT@, owner) by {
            assert(ledger.complete(KEY_PAYER_SUB@, KEY_PAYER_SUB_COUNT@, owner));
            assert forall|i: u32| i < after.count(KEY_PAYER_SUB_COUNT@, owner) implies (
            #[trigger] after.listed(KEY_PAYER_SUB@, owner, i)) is Some by {
                assert(i < ledger.count(KEY_PAYER_SUB_COUNT@, owner) ==> ledger.listed(
                    KEY_PAYER_SUB@,
                    owner,
                    i,
                ) is Some);
            }
        }
        assert forall|owner: Address| #[trigger]
            after.complete(KEY_RECIPIENT_SUB@, KEY_RECIPIENT_SUB_COUNT@, owner) by {
            assert(ledger.complete(KEY_RECIPIENT_SUB@, KEY_RECIPIENT_SUB_COUNT@, owner));
            assert forall|i: u32| i < after.count(KEY_RECIPIENT_SUB_COUNT@, owner) implies (
            #[trigger] after.listed(KEY_RECIPIENT_SUB@, owner, i)) is Some by {
                assert(i < ledger.count(KEY_RECIPIENT_SUB_COUNT@, owner) ==> ledger.listed(
                    KEY_RECIPIENT_SUB@,
                    owner,
                    i,
                ) is Some);
            }
        }
    }
}

/// Nothing but opening a subscription changes an index: a subscription that was cancelled
/// or has reached its cap keeps its place.
pub proof fn law_index_keeps_inactive_subscriptions(
    ledger: Ledger,
    id: u64,
    seen: Readings,
    owner: Address,
)
    ensures
        ledger.cancellation(id).0.opened_by(owner) == ledger.opened_by(owner),
        ledger.cancellation(id).0.paying_to(owner) == ledger.paying_to(owner),
        ledger.execution(id, seen).0.opened_by(owner) == ledger.opened_by(owner),
        ledger.execution(id, seen).0.paying_to(owner) == ledger.paying_to(owner),
        ledger.upkeep(id, seen).0.opened_by(owner) == ledger.opened_by(owner),
        ledger.upkeep(id, seen).0.paying_to(owner) == ledger.paying_to(owner),
        forall|admin: Address, fee_bps: u32, fee_collector: Address| #![trigger
            ledger.initialization(admin, fee_bps, fee_collector)]
            {
                let after = ledger.initialization(admin, fee_bps, fee_collector).0;
                &&& after.opened_by(owner) == ledger.opened_by(owner)
                &&& after.paying_to(owner) == ledger.paying_to(owner)
            },
        forall|fee_bps: u32| #![trigger ledger.fee_change(fee_bps)]
            {
                let after = ledger.fee_change(fee_bps).0;
                &&& after.opened_by(owner) == ledger.opened_by(owner)
                &&& after.paying_to(owner) == ledger.paying_to(owner)
            },
{
    assert(ledger.cancellation(id).0.opened_by(owner) =~= ledger.opened_by(owner));
    assert(ledger.cancellation(id).0.paying_to(owner) =~= ledger.paying_to(owner));
    assert(ledger.execution(id, seen).0.opened_by(owner) =~= ledger.opened_by(owner));
    assert(ledger.execution(id, seen).0.paying_to(owner) =~= ledger.paying_to(owner));
    assert(ledger.upkeep(id, seen).0.opened_by(owner) =~= ledger.opened_by(owner));
    assert(ledger.upkeep(id, seen).0.paying_to(owner) =~= ledger.paying_to(owner));
    assert forall|admin: Address, fee_bps: u32, fee_collector: Address| #![trigger
        ledger.initialization(admin, fee_bps, fee_collector)]
        {
            let after = ledger.initialization(admin, fee_bps, fee_collector).0;
            &&& after.opened_by(owner) == ledger.opened_by(owner)
            &&& after.paying_to(owner) == ledger.paying_to(owner)
        } by {
        let after = ledger.initialization(admin, fee_bps, fee_collector).0;
        assert(after.opened_by(owner) =~= ledger.opened_by(owner));
        assert(after.paying_to(owner) =~= ledger.paying_to(owner));
    }
    assert forall|fee_bps: u32| #![trigger ledger.fee_change(fee_bps)]
        {
            let after = ledger.fee_change(fee_bps).0;
            &&& after.opened_by(owner) == ledger.opened_by(owner)
            &&& after.paying_to(owner) == ledger.paying_to(owner)
        } by {
        let after = ledger.fee_change(fee_bps).0;
        assert(after.opened_by(owner) =~= ledger.opened_by(owner));
        assert(after.paying_to(owner) =~= ledger.paying_to(owner));
    }
}

/// A page of a complete index is the stretch of its ids from `start_index` on, no longer
/// than asked for, than the largest page, or than the index.
pub proof fn law_page_is_a_stretch_of_the_index(
    ledger: Ledger,
    symbol: Seq<char>,
    count_symbol: Seq<char>,
    owner: Address,
    start_index: u32,
    limit: u32,
)
    requires
        ledger.complete(symbol, count_symbol, owner),
    ensures
        ({
            let total = ledger.count(count_symbol, owner);
            let page = ledger.page(symbol, owner, start_index, limit, total);
            let most = min_of(limit as int, MAX_SUBSCRIPTIONS_PAGE as int);
            &&& start_index >= total ==> page.len() == 0
            &&& start_index < total ==> page == ledger.ids(
                symbol,
                count_symbol,
                owner,
            ).subrange(start_index as int, min_of(start_index + most, total as int))
            &&& page.len() <= MAX_SUBSCRIPTIONS_PAGE
            &&& page.len() <= limit
        }),
{
    let total = ledger.count(count_symbol, owner);
    let most = min_of(limit as int, MAX_SUBSCRIPTIONS_PAGE as int);
    if start_index < total {
        lemma_ids_between(
            ledger,
            symbol,
            count_symbol,
            owner,
            start_index as int,
            min_of(start_index + most, total as int),
        );
    }
}

/// Page after page the whole index is read: what is left from `start_index` on is the page
/// that begins there and what is left after it, and a page is empty only where nothing
/// is left.
pub proof fn law_pages_cover_the_index(
    ledger: Ledger,
    symbol: Seq<char>,
    count_symbol: Seq<char>,
    owner: Address,
    start_index: u32,
    limit: u32,
)
    requires
        ledger.complete(symbol, count_symbol, owner),
        start_index <= ledger.count(count_symbol, owner),
        limit > 0,
    ensures
        ({
            let total = ledger.count(count_symbol, owner);
            let ids = ledger.ids(symbol, count_symbol, owner);
            let page = ledger.page(symbol, owner, start_index, limit, total);
            &&& start_index + page.len() <= total
            &&& ids.skip(start_index as int) == page + ids.skip(start_index + page.len())
            &&& page.len() == 0 <==> start_index == total
        }),
{
    law_page_is_a_stretch_of_the_index(ledger, symbol, count_symbol, owner, start_index, limit);
    let total = ledger.count(count_symbol, owner);
    let ids = ledger.ids(symbol, count_symbol, owner);
    let page = ledger.page(symbol, owner, start_index, limit, total);
    assert(ids.skip(start_index as int) =~= page + ids.skip(start_index + page.len()));
}

/// A page is what stands at the positions from `start_index` on, in order and with nothing
/// left out but positions without an entry: as many positions as are asked for, but no more
/// than the largest page has and than there are up to `total`.
pub proof fn law_page_reads_the_positions(
    ledger: Ledger,
    symbol: Seq<char>,
    owner: Address,
    start_index: u32,
    limit: u32,
    total: u32,
    read: nat,
)
    requires
        read <= limit,
        read <= MAX_SUBSCRIPTIONS_PAGE,
        start_index + read <= total || read == 0,
        read == limit || read == MAX_SUBSCRIPTIONS_PAGE || start_index + read >= total,
    ensures
        ledger.page(symbol, owner, start_index, limit, total) == Seq::new(
            read,
            |i: int| ledger.listed(symbol, owner, (start_index + i) as u32),
        ).filter(|entry: Option<u64>| entry is Some).map_values(|entry: Option<u64>| entry->0),
{
    lemma_positions(ledger, symbol, owner, start_index, read);
    let start = start_index as int;
    if start_index >= total {
        assert(ledger.page(symbol, owner, start_index, limit, total) =~= Seq::<u64>::empty());
        assert(ledger.ids_between(symbol, owner, start, start) =~= Seq::<u64>::empty());
    }
}

/// Reading a stretch entry by entry gives the entries at its positions.
proof fn lemma_positions(
    ledger: Ledger,
    symbol: Seq<char>,
    owner: Address,
    start_index: u32,
    read: nat,
)
    ensures
        ledger.ids_between(symbol, owner, start_index as int, start_index + read) == Seq::new(
            read,
            |i: int| ledger.listed(symbol, owner, (start_index + i) as u32),
        ).filter(|entry: Option<u64>| entry is Some).map_values(|entry: Option<u64>| entry->0),
    decreases read,
{
    reveal(Seq::filter);
    let found = |entry: Option<u64>| entry is Some;
    let id = |entry: Option<u64>| entry->0;
    let entries = Seq::new(
        read,
        |i: int| ledger.listed(symbol, owner, (start_index + i) as u32),
    );
    if read > 0 {
        let fewer = (read - 1) as nat;
        lemma_positions(ledger, symbol, owner, start_index, fewer);
        let head = Seq::new(
            fewer,
            |i: int| ledger.listed(symbol, owner, (start_index + i) as u32),
        );
        assert(entries.drop_last() =~= head);
        let last = ledger.listed(symbol, owner, (start_index + read - 1) as u32);
        assert(entries.last() == last);
        if last is Some {
            assert(head.filter(found).push(last).map_values(id) =~= head.filter(found).map_values(
                id,
            ).push(last->0));
        }
    } else {
        assert(entries.filter(found).map_values(id) =~= Seq::<u64>::empty());
    }
}

/// The largest page has fifty ids.
pub proof fn law_largest_page_has_fifty_ids()
    ensures
        MAX_SUBSCRIPTIONS_PAGE == 50,
{
}

/// Two adjoining pages are the one page that spans both, whatever the index holds and
/// however many ids it is said to hold, as long as the one page is not too large.
pub proof fn law_adjoining_pages_are_one_page(
    ledger: Ledger,
    symbol: Seq<char>,
    owner: Address,
    start_index: u32,
    first: u32,
    second: u32,
    total: u32,
)
    requires
        first + second <= MAX_SUBSCRIPTIONS_PAGE,
        start_index + first + second <= u32::MAX,
    ensures
        ledger.page(symbol, owner, start_index, first, total) + ledger.page(
            symbol,
            owner,
            (start_index + first) as u32,
            second,
            total,
        ) == ledger.page(symbol, owner, start_index, (first + second) as u32, total),
{
    let start = start_index as int;
    let end = min_of(start + first + second, total as int);
    if start + first <= end {
        lemma_stretches_adjoin(ledger, symbol, owner, start, start + first, end);
    } else {
        assert(ledger.ids_between(symbol, owner, start + first, end) =~= Seq::<u64>::empty());
        assert(ledger.ids_between(symbol, owner, start, end) + Seq::<u64>::empty()
            =~= ledger.ids_between(symbol, owner, start, end));
    }
}

/// Reading up to a position and then on from it reads the whole stretch.
proof fn lemma_stretches_adjoin(
    ledger: Ledger,
    symbol: Seq<char>,
    owner: Address,
    start: int,
    middle: int,
    end: int,
)
    requires
        start <= middle <= end,
    ensures
        ledger.ids_between(symbol, owner, start, middle) + ledger.ids_between(
            symbol,
            owner,
            middle,
            end,
        ) == ledger.ids_between(symbol, owner, start, end),
    decreases end - middle,
{
    let head = ledger.ids_between(symbol, owner, start, middle);
    if middle < end {
        lemma_stretches_adjoin(ledger, symbol, owner, start, middle, end - 1);
        assert(head + ledger.ids_between(symbol, owner, middle, end) =~= ledger.ids_between(
            symbol,
            owner,
            start,
            end,
        ));
    } else {
        assert(head + Seq::<u64>::empty() =~= head);
    }
}

/// Reading a stretch of a complete index entry by entry gives that stretch of its ids.
proof fn lemma_ids_between(
    ledger: Ledger,
    symbol: Seq<char>,
    count_symbol: Seq<char>,
    owner: Address,
    start: int,
    end: int,
)
    requires
        ledger.complete(symbol, count_symbol, owner),
        0 <= start <= end <= ledger.count(count_symbol, owner),
    ensures
        ledger.ids_between(symbol, owner, start, end) == ledger.ids(
            symbol,
            count_symbol,
            owner,
        ).subrange(start, end),
    decreases end - start,
{
    let ids = ledger.ids(symbol, count_symbol, owner);
    if start < end {
        lemma_ids_between(ledger, symbol, count_symbol, owner, start, end - 1);
        assert(ledger.listed(symbol, owner, (end - 1) as u32) is Some);
        assert(ids.subrange(start, end) =~= ids.subrange(start, end - 1).push(ids[end - 1]));
    } else {
        assert(ids.subrange(start, end) =~= Seq::<u64>::empty());
    }
}

/// Payers and recipients are indexed under different symbols.
pub(crate) proof fn lemma_index_symbols_differ()
    ensures
        KEY_PAYER_SUB@ != KEY_RECIPIENT_SUB@,
        KEY_PAYER_SUB_COUNT@ != KEY_RECIPIENT_SUB_COUNT@,
{
    reveal_strlit("PAY_SUB");
    reveal_strlit("PAY_SUBN");
    reveal_strlit("REC_SUB");
    reveal_strlit("REC_SUBN");
    assert("PAY_SUB"@[0] != "REC_SUB"@[0]);
    assert("PAY_SUBN"@[0] != "REC_SUBN"@[0]);
}

} // verus!
