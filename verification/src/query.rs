//! Filtering and paging over a history of records.
//!
//! A query answers with the records that pass all of its filters, the newest
//! first. Pages are counted from 0. The level filter asks for the exact level
//! name; the keyword filter asks for the keyword to occur in the message, and
//! tells upper case from lower case.

use crate::cache::keep_last;
use crate::record::{records, text_of, LogEntry, Record};
use crate::text::{chars_of, contains_chars, contains_text, text_contains};
use vstd::prelude::*;

verus! {

/// The number of records on a page where the query names none.
pub const DEFAULT_PAGE_SIZE: usize = 50;

/// What to look for in the history, and which part of what was found to hand
/// out. A filter that is absent lets every record pass.
#[derive(Debug)]
pub struct LogQuery {
    pub level: Option<String>,
    pub keyword: Option<String>,
    pub page: Option<usize>,
    pub page_size: Option<usize>,
}

/// What a query holds, as plain values.
pub struct Query {
    pub level: Option<Seq<char>>,
    pub keyword: Option<Seq<char>>,
    pub page: Option<nat>,
    pub page_size: Option<nat>,
}

impl Query {
    /// Whether a record passes the filters of the query.
    pub open spec fn accepts(self, record: Record) -> bool {
        &&& self.level matches Some(level) ==> record.level == level
        &&& self.keyword matches Some(keyword) ==> contains_text(record.message, keyword)
    }

    /// The index of the page asked for: 0 where the query names none.
    pub open spec fn page_index(self) -> nat {
        match self.page {
            Some(page) => page,
            None => 0,
        }
    }

    /// The number of records on a page.
    pub open spec fn size(self) -> nat {
        match self.page_size {
            Some(size) => size,
            None => DEFAULT_PAGE_SIZE as nat,
        }
    }
}

impl View for LogQuery {
    type V = Query;

    open spec fn view(&self) -> Query {
        Query {
            level: text_of(self.level),
            keyword: text_of(self.keyword),
            page: match self.page {
                Some(page) => Some(page as nat),
                None => None,
            },
            page_size: match self.page_size {
                Some(size) => Some(size as nat),
                None => None,
            },
        }
    }
}

impl Default for LogQuery {
    /// The query without filters, for the first page of the default size.
    fn default() -> (query: LogQuery)
        ensures
            query@ == (Query { level: None, keyword: None, page: None, page_size: None }),
    {
        LogQuery { level: None, keyword: None, page: None, page_size: None }
    }
}

/// The filters of a query as a predicate on records.
pub open spec fn accepting(query: Query) -> spec_fn(Record) -> bool {
    |record: Record| query.accepts(record)
}

/// The records of `held` that pass the filters of `query`, in the order in
/// which they are held.
pub open spec fn matching(held: Seq<Record>, query: Query) -> Seq<Record> {
    held.filter(accepting(query))
}

/// Up to `size` items of `items` from position `start` on; nothing where
/// `start` is beyond the last item.
pub open spec fn window<T>(items: Seq<T>, start: nat, size: nat) -> Seq<T> {
    if start >= items.len() {
        Seq::empty()
    } else if start + size >= items.len() {
        items.subrange(start as int, items.len() as int)
    } else {
        items.subrange(start as int, (start + size) as int)
    }
}

/// The answer to `query` over the history `held`, which is ordered from the
/// oldest record to the newest: the matching records from the newest to the
/// oldest, without the first `page_index * size` of them, and no more than
/// `size`.
pub open spec fn answer(held: Seq<Record>, query: Query) -> Seq<Record> {
    window(matching(held, query).reverse(), query.page_index() * query.size(), query.size())
}

/// Filtering a reversed sequence gives the reversed filtered sequence.
proof fn lemma_filter_reverse<T>(s: Seq<T>, p: spec_fn(T) -> bool)
    ensures
        s.reverse().filter(p) == s.filter(p).reverse(),
    decreases s.len(),
{
    reveal(Seq::filter);
    if s.len() > 0 {
        let rest = s.drop_last();
        let x = s.last();
        lemma_filter_reverse(rest, p);
        assert(s.reverse() =~= seq![x] + rest.reverse());
        rest.reverse().lemma_filter_prepend(x, p);
        if p(x) {
            assert(rest.filter(p).push(x).reverse() =~= seq![x] + rest.filter(p).reverse());
        } else {
            assert(Seq::<T>::empty() + rest.filter(p).reverse() =~= rest.filter(p).reverse());
        }
    }
}

/// A query without filters lets every record pass.
pub proof fn lemma_no_filter_matches_all(held: Seq<Record>, query: Query)
    requires
        query.level is None,
        query.keyword is None,
    ensures
        matching(held, query) == held,
    decreases held.len(),
{
    reveal(Seq::filter);
    if held.len() > 0 {
        lemma_no_filter_matches_all(held.drop_last(), query);
        assert(held.drop_last().push(held.last()) =~= held);
    }
}

/// A query without filters for the first page answers with the most recent
/// records, as many as a page holds or all where the history holds fewer, the
/// newest first. That is so for the default page size as for any other.
pub proof fn lemma_unfiltered_first_page_is_latest(held: Seq<Record>, query: Query)
    requires
        query.level is None,
        query.keyword is None,
        query.page_index() == 0,
    ensures
        answer(held, query) == keep_last(held, query.size()).reverse(),
{
    lemma_no_filter_matches_all(held, query);
    assert(query.page_index() * query.size() == 0);
    assert(window(held.reverse(), 0, query.size()) =~= keep_last(held, query.size()).reverse());
}

/// The number of items on the page that starts at `start`, where `found`
/// items are there to be paged and a page holds `size`.
pub open spec fn expected_len(found: nat, start: nat, size: nat) -> nat {
    if start >= found {
        0
    } else if found - start <= size {
        (found - start) as nat
    } else {
        size
    }
}

/// An answer holds what is left of the matching records after the pages
/// before it, and no more than one page.
pub proof fn lemma_answer_len(held: Seq<Record>, query: Query)
    ensures
        answer(held, query).len() == expected_len(
            matching(held, query).len(),
            query.page_index() * query.size(),
            query.size(),
        ),
        answer(held, query).len() <= query.size(),
        answer(held, query).len() <= held.len(),
{
    held.lemma_filter_len(accepting(query));
}

/// Paging loses nothing and shows nothing twice: the matching record at
/// position `at`, counted from the newest, stands on page `at / size` at
/// position `at % size`, whatever page the query itself asks for.
pub proof fn lemma_match_stands_on_its_page(held: Seq<Record>, query: Query, at: int)
    requires
        0 <= at < matching(held, query).len(),
        query.size() > 0,
    ensures
        ({
            let size: int = query.size() as int;
            let page = answer(held, Query { page: Some((at / size) as nat), ..query });
            &&& at % size < page.len()
            &&& page[at % size] == matching(held, query).reverse()[at]
        }),
{
    let size: int = query.size() as int;
    let turned = Query { page: Some((at / size) as nat), ..query };
    vstd::arithmetic::div_mod::lemma_fundamental_div_mod(at, size);
    vstd::arithmetic::div_mod::lemma_div_pos_is_pos(at, size);
    assert(turned.page_index() * turned.size() == size * (at / size)) by (nonlinear_arith)
        requires
            turned.page_index() == at / size,
            turned.size() == size,
    ;
    assert(accepting(turned) == accepting(query)) by {
        assert(forall|record: Record| turned.accepts(record) == query.accepts(record));
        assert(accepting(turned) =~= accepting(query));
    }
}

/// A page that starts at or beyond the number of matching records is empty.
pub proof fn lemma_page_beyond_matches_is_empty(held: Seq<Record>, query: Query)
    requires
        query.page_index() * query.size() >= matching(held, query).len(),
    ensures
        answer(held, query) == Seq::<Record>::empty(),
{
}

/// Every record of an answer is held in the history and passes the filters of
/// the query: where the query names a level the record has that level, and
/// where it names a keyword the message of the record contains it, with upper
/// and lower case told apart.
pub proof fn lemma_answer_passes_filters(held: Seq<Record>, query: Query, i: int)
    requires
        0 <= i < answer(held, query).len(),
    ensures
        held.contains(answer(held, query)[i]),
        query.accepts(answer(held, query)[i]),
{
    let found = matching(held, query);
    let start: nat = query.page_index() * query.size();
    let record = answer(held, query)[i];
    assert(record == found.reverse()[start + i]);
    let at: int = found.len() - 1 - (start + i);
    assert(record == found[at]);
    held.lemma_filter_pred(accepting(query), at);
    assert(found.contains(record));
    held.lemma_filter_contains_rev(accepting(query), record);
}

/// A record that fails a filter of the query is in none of its answers.
pub proof fn lemma_rejected_is_absent(held: Seq<Record>, query: Query, record: Record)
    requires
        !query.accepts(record),
    ensures
        !answer(held, query).contains(record),
{
    if answer(held, query).contains(record) {
        let i = choose|i: int| 0 <= i < answer(held, query).len() && answer(held, query)[i] == record;
        lemma_answer_passes_filters(held, query, i);
    }
}

/// Where no held record passes the filters of a query, as with a level that no
/// record carries or a keyword that occurs in no message, nothing matches and
/// every page of the answer is empty.
pub proof fn lemma_no_match_is_empty(held: Seq<Record>, query: Query)
    requires
        forall|i: int| 0 <= i < held.len() ==> !query.accepts(#[trigger] held[i]),
    ensures
        matching(held, query) == Seq::<Record>::empty(),
        answer(held, query) == Seq::<Record>::empty(),
{
    let found = matching(held, query);
    if found.len() > 0 {
        held.lemma_filter_pred(accepting(query), 0);
        assert(found.contains(found[0]));
        held.lemma_filter_contains_rev(accepting(query), found[0]);
    }
}

/// The keyword of a query as characters, ready for the search.
fn keyword_chars(query: &LogQuery) -> (needle: Option<Vec<char>>)
    ensures
        match needle {
            Some(chars) => query@.keyword == Some(chars@),
            None => query@.keyword is None,
        },
{
    match &query.keyword {
        Some(keyword) => Some(chars_of(keyword.as_str())),
        None => None,
    }
}

/// Whether a record passes the filters of a query whose keyword is `needle`.
fn passes(query: &LogQuery, needle: &Option<Vec<char>>, entry: &LogEntry) -> (passed: bool)
    requires
        match needle {
            Some(chars) => query@.keyword == Some(chars@),
            None => query@.keyword is None,
        },
    ensures
        passed == query@.accepts(entry@),
{
    let level_passes = match &query.level {
        Some(level) => *level == entry.level,
        None => true,
    };
    if !level_passes {
        return false;
    }
    match needle {
        Some(chars) => {
            let message = chars_of(entry.message.as_str());
            contains_chars(&message, chars)
        },
        None => true,
    }
}

impl LogQuery {
    /// Whether a record passes the filters of this query.
    pub fn accepts(&self, entry: &LogEntry) -> (passed: bool)
        ensures
            passed == self@.accepts(entry@),
    {
        let level_passes = match &self.level {
            Some(level) => *level == entry.level,
            None => true,
        };
        let keyword_passes = match &self.keyword {
            Some(keyword) => text_contains(entry.message.as_str(), keyword.as_str()),
            None => true,
        };
        level_passes && keyword_passes
    }
}

/// The number of records in `entries` that pass the filters of `query`,
/// whatever page it asks for.
pub fn count_matches(entries: &Vec<LogEntry>, query: &LogQuery) -> (count: usize)
    ensures
        count == matching(records(entries@), query@).len(),
{
    let needle = keyword_chars(query);
    let ghost held = records(entries@);
    let ghost p = accepting(query@);
    let mut count: usize = 0;
    let mut i: usize = 0;
    while i < entries.len()
        invariant
            held == records(entries@),
            p == accepting(query@),
            match needle {
                Some(chars) => query@.keyword == Some(chars@),
                None => query@.keyword is None,
            },
            i <= entries.len(),
            count <= i,
            count == held.subrange(0, i as int).filter(p).len(),
        decreases entries.len() - i,
    {
        let passed = passes(query, &needle, &entries[i]);
        proof {
            reveal(Seq::filter);
            let now = held.subrange(0, i + 1);
            assert(now.drop_last() =~= held.subrange(0, i as int));
            assert(now.last() == entries@[i as int]@);
        }
        if passed {
            count += 1;
        }
        i += 1;
    }
    proof {
        assert(held.subrange(0, i as int) =~= held);
    }
    count
}

/// Answers `query` over `entries`, which are ordered from the oldest record
/// to the newest. A page beyond the last match is empty, and so is every page
/// of size 0.
pub fn select(entries: &Vec<LogEntry>, query: &LogQuery) -> (page: Vec<LogEntry>)
    ensures
        records(page@) == answer(records(entries@), query@),
{
    let size: usize = match query.page_size {
        Some(size) => size,
        None => DEFAULT_PAGE_SIZE,
    };
    let index: usize = match query.page {
        Some(index) => index,
        None => 0,
    };
    let ghost held = records(entries@);
    let ghost p = accepting(query@);
    let ghost newest_first = held.reverse();
    proof {
        lemma_filter_reverse(held, p);
    }
    let mut page: Vec<LogEntry> = Vec::new();
    let start: usize = match index.checked_mul(size) {
        Some(start) => start,
        None => {
            proof {
                held.lemma_filter_len(p);
                assert(matching(held, query@).reverse().len() <= entries.len());
                assert(query@.page_index() * query@.size() == index * size);
            }
            return page;
        },
    };
    let needle = keyword_chars(query);
    let total: usize = entries.len();
    let mut i: usize = total;
    let mut seen: usize = 0;
    while i > 0 && page.len() < size
        invariant
            held == records(entries@),
            p == accepting(query@),
            newest_first == held.reverse(),
            total == entries.len(),
            match needle {
                Some(chars) => query@.keyword == Some(chars@),
                None => query@.keyword is None,
            },
            i <= total,
            seen <= total - i,
            seen == newest_first.subrange(0, total - i).filter(p).len(),
            records(page@) == window(
                newest_first.subrange(0, total - i).filter(p),
                start as nat,
                size as nat,
            ),
        decreases i,
    {
        i -= 1;
        let entry = &entries[i];
        let passed = passes(query, &needle, entry);
        let ghost before = newest_first.subrange(0, total - i - 1).filter(p);
        let ghost now = newest_first.subrange(0, total - i);
        proof {
            reveal(Seq::filter);
            assert(now.drop_last() =~= newest_first.subrange(0, total - i - 1));
            assert(now.last() == entry@);
            assert(now.filter(p) == if passed {
                before.push(entry@)
            } else {
                before
            });
        }
        if passed {
            if seen >= start {
                let ghost earlier = page@;
                page.push(entry.clone());
                proof {
                    assert(records(page@) =~= records(earlier).push(entry@));
                    assert(window(before.push(entry@), start as nat, size as nat) =~= window(
                        before,
                        start as nat,
                        size as nat,
                    ).push(entry@));
                }
            } else {
                proof {
                    assert(window(before.push(entry@), start as nat, size as nat) =~= window(
                        before,
                        start as nat,
                        size as nat,
                    ));
                }
            }
            seen += 1;
        }
    }
    proof {
        let examined = newest_first.subrange(0, total - i);
        let rest = newest_first.subrange(total - i, total as int);
        assert(examined + rest =~= newest_first);
        Seq::filter_distributes_over_add(examined, rest, p);
        assert(window(examined.filter(p) + rest.filter(p), start as nat, size as nat)
            =~= window(examined.filter(p), start as nat, size as nat)) by {
            if i == 0 {
                assert(rest.filter(p) =~= Seq::<Record>::empty()) by {
                    rest.lemma_filter_len(p);
                }
            }
        }
    }
    page
}

} // verus!
