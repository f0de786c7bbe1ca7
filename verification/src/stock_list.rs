//! The stock list read from the exchange's ISIN pages, kept by stock code.
use vstd::prelude::*;
use crate::codec::{big5_decoded, decode_big5};
use crate::html::{nested_text_nodes_of, selected_nested_text_nodes, selected_outer_html};
use crate::text::{
    byte_len, byte_len_capped, chars_of, concat, concat_chars, is_numeric, numeric_char, split, split_chars, string_of, trim,
    trim_chars, views, views2,
};

verus! {

/// A stock as the ISIN pages list it.
#[derive(Debug)]
pub struct CrawledStock {
    pub code: String,
    pub name: String,
    pub market_type: String,
    pub industry_type: String,
    pub listing_date: String,
    pub international_code: String,
}

/// A listed stock as plain values.
pub struct StockView {
    pub code: Seq<char>,
    pub name: Seq<char>,
    pub market_type: Seq<char>,
    pub industry_type: Seq<char>,
    pub listing_date: Seq<char>,
    pub international_code: Seq<char>,
}

impl View for CrawledStock {
    type V = StockView;

    open spec fn view(&self) -> StockView {
        StockView {
            code: self.code@,
            name: self.name@,
            market_type: self.market_type@,
            industry_type: self.industry_type@,
            listing_date: self.listing_date@,
            international_code: self.international_code@,
        }
    }
}

impl CrawledStock {
    /// A field-by-field copy.
    pub fn copy(&self) -> (res: CrawledStock)
        ensures
            res == *self,
    {
        CrawledStock {
            code: self.code.clone(),
            name: self.name.clone(),
            market_type: self.market_type.clone(),
            industry_type: self.industry_type.clone(),
            listing_date: self.listing_date.clone(),
            international_code: self.international_code.clone(),
        }
    }
}

/// The stocks as plain values.
pub open spec fn stock_views(s: Seq<CrawledStock>) -> Seq<StockView> {
    s.map_values(|x: CrawledStock| x@)
}

/// The stocks, keyed by code: each later stock overrides an earlier one with the same code.
pub open spec fn keyed(s: Seq<StockView>) -> Map<Seq<char>, StockView>
    decreases s.len(),
{
    if s.len() == 0 {
        Map::empty()
    } else {
        keyed(s.drop_last()).insert(s.last().code, s.last())
    }
}

/// No two stocks share a code.
pub open spec fn codes_distinct(s: Seq<StockView>) -> bool {
    forall|i: int, j: int| 0 <= i < j < s.len() ==> s[i].code != s[j].code
}

/// The stocks, by code. No two entries share a code.
pub struct StockTable {
    entries: Vec<CrawledStock>,
}

/// Stocks with distinct codes map each code to its stock.
pub proof fn lemma_keyed_distinct(s: Seq<StockView>)
    requires
        codes_distinct(s),
    ensures
        forall|i: int| 0 <= i < s.len() ==> #[trigger] keyed(s).contains_key(s[i].code) && keyed(s)[s[i].code] == s[i],
        forall|k: Seq<char>| #[trigger] keyed(s).contains_key(k) ==> exists|i: int| 0 <= i < s.len() && s[i].code == k,
        keyed(s).dom().len() == s.len(),
        keyed(s).dom().finite(),
    decreases s.len(),
{
    if s.len() > 0 {
        let t = s.drop_last();
        assert(codes_distinct(t));
        lemma_keyed_distinct(t);
        assert forall|i: int| 0 <= i < t.len() implies s.last().code != t[i].code by {
            assert(t[i] == s[i]);
        }
        if keyed(t).contains_key(s.last().code) {
            let i = choose|i: int| 0 <= i < t.len() && t[i].code == s.last().code;
        }
        assert forall|i: int| 0 <= i < s.len() implies #[trigger] keyed(s).contains_key(s[i].code) && keyed(s)[s[i].code] == s[i] by {
            if i < s.len() - 1 {
                assert(t[i] == s[i]);
            }
        }
        assert forall|k: Seq<char>| #[trigger] keyed(s).contains_key(k) implies exists|i: int| 0 <= i < s.len() && s[i].code == k by {
            if k != s.last().code {
                let i = choose|i: int| 0 <= i < t.len() && t[i].code == k;
                assert(s[i] == t[i]);
            }
        }
    }
}

/// Overwriting the stock of an existing code keys like inserting it.
proof fn lemma_keyed_update(s: Seq<StockView>, i: int, x: StockView)
    requires
        codes_distinct(s),
        0 <= i < s.len(),
        s[i].code == x.code,
    ensures
        keyed(s.update(i, x)) == keyed(s).insert(x.code, x),
        codes_distinct(s.update(i, x)),
    decreases s.len(),
{
    let u = s.update(i, x);
    if i == s.len() - 1 {
        assert(u.drop_last() =~= s.drop_last());
        assert(keyed(s).insert(x.code, x) =~= keyed(s.drop_last()).insert(x.code, x));
    } else {
        assert(codes_distinct(s.drop_last()));
        lemma_keyed_update(s.drop_last(), i, x);
        assert(u.drop_last() =~= s.drop_last().update(i, x));
        assert(s.last().code != x.code);
        assert(keyed(u) =~= keyed(s).insert(x.code, x));
    }
}

impl View for StockTable {
    type V = Map<Seq<char>, StockView>;

    closed spec fn view(&self) -> Map<Seq<char>, StockView> {
        keyed(stock_views(self.entries@))
    }
}

impl StockTable {
    /// No two entries share a code.
    pub closed spec fn wf(&self) -> bool {
        codes_distinct(stock_views(self.entries@))
    }

    /// The entries, in the order the table keeps them.
    pub closed spec fn entries(&self) -> Seq<StockView> {
        stock_views(self.entries@)
    }

    /// The entries hold the table's stocks, each once.
    pub proof fn lemma_entries(&self)
        requires
            self.wf(),
        ensures
            codes_distinct(self.entries()),
            self@ == keyed(self.entries()),
            self@.dom().len() == self.entries().len(),
            forall|i: int| 0 <= i < self.entries().len() ==> #[trigger] self@.contains_key(self.entries()[i].code)
                && self@[self.entries()[i].code] == self.entries()[i],
    {
        lemma_keyed_distinct(self.entries());
    }

    /// The stocks, in the order the table keeps them.
    pub fn stocks(&self) -> (res: &Vec<CrawledStock>)
        ensures
            stock_views(res@) == self.entries(),
    {
        &self.entries
    }

    /// An empty table.
    pub fn new() -> (res: StockTable)
        ensures
            res.wf(),
            res@ == Map::<Seq<char>, StockView>::empty(),
    {
        let t = StockTable { entries: Vec::new() };
        assert(stock_views(t.entries@) =~= Seq::<StockView>::empty());
        t
    }

    /// The number of stocks.
    pub fn len(&self) -> (res: usize)
        requires
            self.wf(),
        ensures
            res == self@.dom().len(),
    {
        proof {
            lemma_keyed_distinct(stock_views(self.entries@));
        }
        self.entries.len()
    }

    /// Puts `stock` under its code, replacing the stock held there.
    pub fn insert(&mut self, stock: CrawledStock)
        requires
            old(self).wf(),
        ensures
            final(self).wf(),
            final(self)@ == old(self)@.insert(stock.code@, stock@),
    {
        let ghost sv = stock_views(self.entries@);
        let mut i: usize = 0;
        let mut found = false;
        while i < self.entries.len()
            invariant
                i <= self.entries.len(),
                sv == stock_views(self.entries@),
                codes_distinct(sv),
                found ==> i < sv.len() && sv[i as int].code == stock.code@,
                !found ==> forall|j: int| 0 <= j < i ==> sv[j].code != stock.code@,
            ensures
                found || i == self.entries.len(),
            decreases self.entries.len() - i,
        {
            if crate::text::equal_str(self.entries[i].code.as_str(), stock.code.as_str()) {
                found = true;
                break;
            }
            i = i + 1;
        }
        let ghost x = stock@;
        if found {
            proof {
                lemma_keyed_update(sv, i as int, x);
            }
            self.entries.set(i, stock);
            assert(stock_views(self.entries@) =~= sv.update(i as int, x));
        } else {
            self.entries.push(stock);
            assert(stock_views(self.entries@) =~= sv.push(x));
            assert forall|a: int, b: int| 0 <= a < b < sv.len() + 1 implies sv.push(x)[a].code != sv.push(x)[b].code by {
                if b == sv.len() {
                    assert(sv.push(x)[a] == sv[a]);
                } else {
                    assert(sv.push(x)[a] == sv[a] && sv.push(x)[b] == sv[b]);
                }
            }
            assert(stock_views(self.entries@).drop_last() =~= sv);
        }
    }

    /// Adds every stock of `other`, each replacing the stock held under its code.
    pub fn extend(&mut self, other: StockTable)
        requires
            old(self).wf(),
            other.wf(),
        ensures
            final(self).wf(),
            final(self)@ == old(self)@.union_prefer_right(other@),
    {
        let ghost ov = stock_views(other.entries@);
        let ghost start = self@;
        let mut rest = other.entries;
        let mut i: usize = 0;
        let ghost total = rest@.len();
        assert(keyed(ov.take(0)) =~= Map::<Seq<char>, StockView>::empty());
        while i < rest.len()
            invariant
                self.wf(),
                i <= rest.len(),
                ov == stock_views(rest@),
                self@ == start.union_prefer_right(keyed(ov.take(i as int))),
            decreases rest.len() - i,
        {
            let s = rest[i].copy();
            self.insert(s);
            assert(ov.take(i + 1).drop_last() =~= ov.take(i as int));
            assert(ov.take(i + 1).last() == ov[i as int]);
            assert(self@ =~= start.union_prefer_right(keyed(ov.take(i + 1))));
            i = i + 1;
        }
        assert(ov.take(rest.len() as int) =~= ov);
    }
}

/// An ordinary share's code: four bytes, every character a number.
pub open spec fn is_ordinary_code(code: Seq<char>) -> bool {
    byte_len(code) == 4 && forall|i: int| 0 <= i < code.len() ==> numeric_char(#[trigger] code[i])
}

/// Whether `code` is an ordinary share's code.
pub fn is_ordinary(code: &str) -> (res: bool)
    ensures
        res == is_ordinary_code(code@),
{
    let c = chars_of(code);
    if byte_len_capped(c.as_slice(), 5) != 4 {
        return false;
    }
    let mut i: usize = 0;
    while i < c.len()
        invariant
            i <= c.len(),
            c@ == code@,
            byte_len(c@) == 4,
            forall|j: int| 0 <= j < i ==> numeric_char(#[trigger] c@[j]),
        decreases c.len() - i,
    {
        if !is_numeric(c[i]) {
            assert(!numeric_char(c@[i as int]));
            return false;
        }
        i = i + 1;
    }
    true
}

/// The stocks of `m` whose codes are ordinary shares' codes.
pub open spec fn ordinary_part(m: Map<Seq<char>, StockView>) -> Map<Seq<char>, StockView> {
    Map::new(|k: Seq<char>| m.contains_key(k) && is_ordinary_code(k), |k: Seq<char>| m[k])
}

/// Only ordinary shares are kept, and all of them: a code is kept exactly when
/// the table holds it and it is four numeric characters, with its stock
/// unchanged.
pub proof fn law_only_ordinary_shares_kept(m: Map<Seq<char>, StockView>, k: Seq<char>)
    ensures
        ordinary_part(m).contains_key(k) <==> (m.contains_key(k) && is_ordinary_code(k)),
        ordinary_part(m).contains_key(k) ==> ordinary_part(m)[k] == m[k],
{
}

impl StockTable {
    /// The ordinary shares of the table.
    pub fn ordinary(&self) -> (res: StockTable)
        requires
            self.wf(),
        ensures
            res.wf(),
            res@ == ordinary_part(self@),
    {
        let ghost ev = stock_views(self.entries@);
        let mut out = StockTable::new();
        let mut i: usize = 0;
        assert(ordinary_part(keyed(ev.take(0))) =~= Map::<Seq<char>, StockView>::empty());
        while i < self.entries.len()
            invariant
                i <= self.entries.len(),
                ev == stock_views(self.entries@),
                out.wf(),
                out@ == ordinary_part(keyed(ev.take(i as int))),
            decreases self.entries.len() - i,
        {
            let e = &self.entries[i];
            assert(ev.take(i + 1).drop_last() =~= ev.take(i as int));
            assert(ev.take(i + 1).last() == e@);
            if is_ordinary(e.code.as_str()) {
                out.insert(e.copy());
            }
            assert(out@ =~= ordinary_part(keyed(ev.take(i + 1))));
            i = i + 1;
        }
        assert(ev.take(self.entries.len() as int) =~= ev);
        out
    }
}

// ---------------------------------------------------------------- ISIN page

/// The stock that a row of the ISIN table lists, given the text nodes of its
/// cells: seven cells, the first holding the code and the name separated by an
/// ideographic space.
pub open spec fn row_stock(cells: Seq<Seq<Seq<char>>>) -> Option<StockView> {
    if cells.len() != 7 {
        None
    } else {
        let parts = split(concat(cells[0]), '\u{3000}');
        if parts.len() != 2 {
            None
        } else {
            Some(StockView {
                code: trim(parts[0]),
                name: trim(parts[1]),
                market_type: trim(concat(cells[3])),
                industry_type: trim(concat(cells[4])),
                listing_date: trim(concat(cells[2])),
                international_code: trim(concat(cells[1])),
            })
        }
    }
}

/// The stocks listed by the rows, each later row overriding an earlier one with the same code.
pub open spec fn rows_map(rows: Seq<Seq<Seq<Seq<char>>>>) -> Map<Seq<char>, StockView>
    decreases rows.len(),
{
    if rows.len() == 0 {
        Map::empty()
    } else {
        let m = rows_map(rows.drop_last());
        match row_stock(rows.last()) {
            Some(s) => m.insert(s.code, s),
            None => m,
        }
    }
}

/// The rows of the first `table.h4` of the page, each as the text nodes of its cells.
pub open spec fn isin_rows(page: Seq<char>) -> Seq<Seq<Seq<Seq<char>>>> {
    let tables = selected_outer_html(page, "table.h4"@);
    if tables.len() == 0 {
        seq![]
    } else {
        selected_nested_text_nodes(tables[0], "tr"@, "td"@)
    }
}

/// The stocks that an ISIN page lists: every row after the heading row.
pub open spec fn isin_stocks(page: Seq<char>) -> Map<Seq<char>, StockView> {
    let rows = isin_rows(page);
    if rows.len() == 0 {
        Map::empty()
    } else {
        rows_map(rows.skip(1))
    }
}

/// The trimmed text of a cell.
fn cell_text(cell: &Vec<Vec<char>>) -> (res: String)
    ensures
        res@ == trim(concat(views(cell@))),
{
    string_of(trim_chars(concat_chars(cell).as_slice()).as_slice())
}

/// The stock that a row of the ISIN table lists.
pub fn row_to_stock(cells: &Vec<Vec<Vec<char>>>) -> (res: Option<CrawledStock>)
    ensures
        match res {
            Some(s) => row_stock(views2(cells@)) == Some(s@),
            None => row_stock(views2(cells@)) is None,
        },
{
    if cells.len() != 7 {
        return None;
    }
    let first = concat_chars(&cells[0]);
    let parts = split_chars(first.as_slice(), '\u{3000}');
    if parts.len() != 2 {
        return None;
    }
    let s = CrawledStock {
        code: string_of(trim_chars(parts[0].as_slice()).as_slice()),
        name: string_of(trim_chars(parts[1].as_slice()).as_slice()),
        market_type: cell_text(&cells[3]),
        industry_type: cell_text(&cells[4]),
        listing_date: cell_text(&cells[2]),
        international_code: cell_text(&cells[1]),
    };
    assert(views(parts@)[0] == parts@[0]@ && views(parts@)[1] == parts@[1]@);
    Some(s)
}

/// The stocks that an ISIN page, already decoded, lists.
pub fn parse_stock_table(page: &str) -> (res: StockTable)
    ensures
        res.wf(),
        res@ == isin_stocks(page@),
{
    let mut out = StockTable::new();
    let tables = crate::html::outer_html_of(page, "table.h4");
    if tables.len() == 0 {
        return out;
    }
    let table = string_of(tables[0].as_slice());
    let rows = nested_text_nodes_of(table.as_str(), "tr", "td");
    let ghost rv = rows@.map_values(|x: Vec<Vec<Vec<char>>>| views2(x@));
    if rows.len() == 0 {
        return out;
    }
    let mut i: usize = 1;
    assert(rows_map(rv.skip(1).take(0)) =~= Map::<Seq<char>, StockView>::empty());
    while i < rows.len()
        invariant
            1 <= i <= rows.len(),
            rv == rows@.map_values(|x: Vec<Vec<Vec<char>>>| views2(x@)),
            out.wf(),
            out@ == rows_map(rv.skip(1).take(i - 1)),
        decreases rows.len() - i,
    {
        assert(rv.skip(1).take(i as int).drop_last() =~= rv.skip(1).take(i - 1));
        assert(rv.skip(1).take(i as int).last() == views2(rows@[i as int]@));
        match row_to_stock(&rows[i]) {
            Some(s) => {
                out.insert(s);
            },
            None => {},
        }
        i = i + 1;
    }
    assert(rv.skip(1).take(rows.len() - 1) =~= rv.skip(1));
    out
}

/// The stocks that an ISIN page lists, from the page's Big5 bytes.
pub fn parse_stock_page(bytes: &[u8]) -> (res: StockTable)
    requires
        bytes@.len() <= usize::MAX / 16,
    ensures
        res.wf(),
        res@ == isin_stocks(big5_decoded(bytes@)),
{
    let page = decode_big5(bytes);
    parse_stock_table(page.as_str())
}

} // verus!
