//! The stock list grouped by industry and market, as HTML and Markdown reports.
use vstd::prelude::*;
use crate::order::{is_permutation, lemma_lex_asymmetric, lemma_lex_total, lex_less, position_of, sort_indices_by_keys, sorted_by_keys};
use crate::stock_list::{codes_distinct, lemma_keyed_distinct, stock_views, CrawledStock, StockTable, StockView};
use crate::text::{append_chars, chars_of, contains, decimal, equal_chars, lemma_contains_middle, push_decimal, views};

verus! {

/// The heading a stock is listed under: its industry, then its market in brackets.
pub open spec fn industry_key(s: StockView) -> Seq<char> {
    s.industry_type + " ("@ + s.market_type + ")"@
}

/// The stocks of one industry heading, ordered by code.
#[derive(Debug)]
pub struct IndustryGroup {
    pub name: String,
    pub stocks: Vec<CrawledStock>,
}

/// An industry group as plain values.
pub struct GroupView {
    pub name: Seq<char>,
    pub stocks: Seq<StockView>,
}

impl View for IndustryGroup {
    type V = GroupView;

    open spec fn view(&self) -> GroupView {
        GroupView { name: self.name@, stocks: stock_views(self.stocks@) }
    }
}

/// The groups as plain values.
pub open spec fn group_views(groups: Seq<IndustryGroup>) -> Seq<GroupView> {
    groups.map_values(|g: IndustryGroup| g@)
}

/// `s` is one of the group's stocks.
pub open spec fn in_group(g: GroupView, s: StockView) -> bool {
    exists|a: int| 0 <= a < g.stocks.len() && g.stocks[a] == s
}

/// `groups` lists the stocks of `m` by industry heading: headings in ascending
/// order, each with at least one stock; each stock under its own heading, the
/// stocks of a heading in ascending order of code; every stock of `m` listed.
pub open spec fn is_industry_grouping(groups: Seq<GroupView>, m: Map<Seq<char>, StockView>) -> bool {
    &&& forall|g: int| 0 <= g < groups.len() ==> #[trigger] groups[g].stocks.len() > 0
    &&& forall|g: int, h: int| 0 <= g < h < groups.len() ==> lex_less(#[trigger] groups[g].name, #[trigger] groups[h].name)
    &&& forall|g: int, a: int|
        0 <= g < groups.len() && 0 <= a < groups[g].stocks.len() ==> industry_key(#[trigger] groups[g].stocks[a])
            == groups[g].name && m.contains_key(groups[g].stocks[a].code) && m[groups[g].stocks[a].code]
            == groups[g].stocks[a]
    &&& forall|g: int, a: int, b: int|
        0 <= g < groups.len() && 0 <= a < b < groups[g].stocks.len() ==> lex_less(
            #[trigger] groups[g].stocks[a].code,
            #[trigger] groups[g].stocks[b].code,
        )
    &&& forall|k: Seq<char>| #[trigger] m.contains_key(k) ==> exists|g: int| 0 <= g < groups.len() && in_group(groups[g], m[k])
}

/// The industry heading of a stock.
fn key_of(s: &CrawledStock) -> (res: Vec<char>)
    ensures
        res@ == industry_key(s@),
{
    let mut k = chars_of(s.industry_type.as_str());
    append_chars(&mut k, chars_of(" (").as_slice());
    append_chars(&mut k, chars_of(s.market_type.as_str()).as_slice());
    append_chars(&mut k, chars_of(")").as_slice());
    k
}

/// Whether `list` holds `k`.
fn list_contains(list: &Vec<Vec<char>>, k: &Vec<char>) -> (res: bool)
    ensures
        res == views(list@).contains(k@),
{
    let mut i: usize = 0;
    while i < list.len()
        invariant
            i <= list.len(),
            forall|j: int| 0 <= j < i ==> views(list@)[j] != k@,
        decreases list.len() - i,
    {
        if equal_chars(list[i].as_slice(), k.as_slice()) {
            assert(views(list@)[i as int] == k@);
            return true;
        }
        i = i + 1;
    }
    false
}

/// The different values of `keys`, each once.
fn distinct_keys(keys: &Vec<Vec<char>>) -> (res: Vec<Vec<char>>)
    ensures
        forall|a: int, b: int| 0 <= a < b < res@.len() ==> views(res@)[a] != views(res@)[b],
        forall|a: int| 0 <= a < res@.len() ==> views(keys@).contains(#[trigger] views(res@)[a]),
        forall|j: int| 0 <= j < keys@.len() ==> views(res@).contains(#[trigger] views(keys@)[j]),
{
    let mut out: Vec<Vec<char>> = Vec::new();
    let mut i: usize = 0;
    while i < keys.len()
        invariant
            i <= keys.len(),
            forall|a: int, b: int| 0 <= a < b < out@.len() ==> views(out@)[a] != views(out@)[b],
            forall|a: int| 0 <= a < out@.len() ==> views(keys@).contains(#[trigger] views(out@)[a]),
            forall|j: int| 0 <= j < i ==> views(out@).contains(#[trigger] views(keys@)[j]),
        decreases keys.len() - i,
    {
        let ghost kv = views(keys@);
        assert(kv[i as int] == keys@[i as int]@);
        if !list_contains(&out, &keys[i]) {
            let ghost before = views(out@);
            let c = crate::text::copy_chars(&keys[i]);
            out.push(c);
            assert(views(out@) =~= before.push(kv[i as int]));
            assert forall|a: int| 0 <= a < out@.len() implies kv.contains(#[trigger] views(out@)[a]) by {
                if a < before.len() {
                    assert(views(out@)[a] == before[a]);
                } else {
                    assert(kv[i as int] == views(out@)[a]);
                }
            }
            assert forall|j: int| 0 <= j < i + 1 implies views(out@).contains(#[trigger] kv[j]) by {
                if j < i {
                    assert(before.contains(kv[j]));
                    let a = choose|a: int| 0 <= a < before.len() && before[a] == kv[j];
                    assert(views(out@)[a] == before[a]);
                } else {
                    assert(views(out@)[before.len() as int] == kv[j]);
                }
            }
        }
        i = i + 1;
    }
    out
}

/// `stocks` are the stocks of `ev` under the heading `name`, each once, in
/// ascending order of code.
pub open spec fn is_heading_members(stocks: Seq<StockView>, ev: Seq<StockView>, name: Seq<char>) -> bool {
    &&& forall|a: int| 0 <= a < stocks.len() ==> industry_key(#[trigger] stocks[a]) == name && ev.contains(stocks[a])
    &&& forall|a: int, b: int| 0 <= a < b < stocks.len() ==> lex_less(#[trigger] stocks[a].code, #[trigger] stocks[b].code)
    &&& forall|j: int| 0 <= j < ev.len() && industry_key(#[trigger] ev[j]) == name ==> stocks.contains(ev[j])
}

/// The codes of the stocks.
pub open spec fn code_views(ev: Seq<StockView>) -> Seq<Seq<char>> {
    ev.map_values(|s: StockView| s.code)
}

/// Keys that never go down along `order` and that differ go strictly up.
proof fn lemma_sorted_distinct_strict(order: Seq<usize>, ks: Seq<Seq<char>>, p: int, q: int)
    requires
        sorted_by_keys(order, ks),
        0 <= p < q < order.len(),
        0 <= order[p] < ks.len(),
        0 <= order[q] < ks.len(),
        ks[order[p] as int] != ks[order[q] as int],
    ensures
        lex_less(ks[order[p] as int], ks[order[q] as int]),
{
    assert(!lex_less(ks[order[q] as int], ks[order[p] as int]));
    lemma_lex_total(ks[order[p] as int], ks[order[q] as int]);
}

/// The stocks under the heading `name`, in ascending order of code.
fn members_of(entries: &Vec<CrawledStock>, keys: &Vec<Vec<char>>, order: &Vec<usize>, name: &Vec<char>) -> (res: Vec<CrawledStock>)
    requires
        keys@.len() == entries@.len(),
        forall|j: int| 0 <= j < keys@.len() ==> #[trigger] views(keys@)[j] == industry_key(stock_views(entries@)[j]),
        is_permutation(order@, entries@.len()),
        sorted_by_keys(order@, code_views(stock_views(entries@))),
        codes_distinct(stock_views(entries@)),
    ensures
        is_heading_members(stock_views(res@), stock_views(entries@), name@),
{
    let ghost ev = stock_views(entries@);
    let ghost cv = code_views(ev);
    let mut out: Vec<CrawledStock> = Vec::new();
    let mut o: usize = 0;
    while o < order.len()
        invariant
            o <= order@.len(),
            ev == stock_views(entries@),
            cv == code_views(ev),
            keys@.len() == entries@.len(),
            forall|j: int| 0 <= j < keys@.len() ==> #[trigger] views(keys@)[j] == industry_key(ev[j]),
            is_permutation(order@, entries@.len()),
            sorted_by_keys(order@, cv),
            codes_distinct(ev),
            forall|a: int| 0 <= a < out@.len() ==> industry_key(#[trigger] stock_views(out@)[a]) == name@ && ev.contains(stock_views(out@)[a]),
            forall|a: int, b: int| 0 <= a < b < out@.len() ==> lex_less(#[trigger] stock_views(out@)[a].code, #[trigger] stock_views(out@)[b].code),
            forall|a: int, q: int| 0 <= a < out@.len() && o <= q < order@.len() ==> lex_less(#[trigger] stock_views(out@)[a].code, #[trigger] cv[order@[q] as int]),
            forall|p: int| 0 <= p < o && industry_key(ev[#[trigger] order@[p] as int]) == name@ ==> stock_views(out@).contains(ev[order@[p] as int]),
        decreases order@.len() - o,
    {
        let j = order[o];
        assert(views(keys@)[j as int] == keys@[j as int]@);
        if equal_chars(keys[j].as_slice(), name.as_slice()) {
            let ghost before = stock_views(out@);
            let s = entries[j].copy();
            out.push(s);
            assert(stock_views(out@) =~= before.push(ev[j as int]));
            assert(cv[j as int] == ev[j as int].code);
            assert forall|a: int| 0 <= a < out@.len() implies industry_key(#[trigger] stock_views(out@)[a]) == name@ && ev.contains(stock_views(out@)[a]) by {
                if a < before.len() {
                    assert(stock_views(out@)[a] == before[a]);
                } else {
                    assert(ev[j as int] == stock_views(out@)[a]);
                }
            }
            assert forall|a: int, b: int| 0 <= a < b < out@.len() implies lex_less(#[trigger] stock_views(out@)[a].code, #[trigger] stock_views(out@)[b].code) by {
                assert(stock_views(out@)[a] == before[a]);
                if b < before.len() {
                    assert(stock_views(out@)[b] == before[b]);
                } else {
                    assert(lex_less(before[a].code, cv[order@[o as int] as int]));
                }
            }
            assert forall|a: int, q: int| 0 <= a < out@.len() && o + 1 <= q < order@.len() implies lex_less(#[trigger] stock_views(out@)[a].code, #[trigger] cv[order@[q] as int]) by {
                if a < before.len() {
                    assert(stock_views(out@)[a] == before[a]);
                } else {
                    assert(order@[o as int] != order@[q]);
                    assert(cv[order@[o as int] as int] == ev[order@[o as int] as int].code);
                    assert(cv[order@[q] as int] == ev[order@[q] as int].code);
                    lemma_sorted_distinct_strict(order@, cv, o as int, q);
                }
            }
            assert forall|p: int| 0 <= p < o + 1 && industry_key(ev[#[trigger] order@[p] as int]) == name@ implies stock_views(out@).contains(ev[order@[p] as int]) by {
                if p < o {
                    let a = choose|a: int| 0 <= a < before.len() && before[a] == ev[order@[p] as int];
                    assert(stock_views(out@)[a] == before[a]);
                } else {
                    assert(stock_views(out@)[before.len() as int] == ev[j as int]);
                }
            }
        }
        o = o + 1;
    }
    proof {
        assert forall|j: int| 0 <= j < ev.len() && industry_key(#[trigger] ev[j]) == name@ implies stock_views(out@).contains(ev[j]) by {
            let p = position_of(order@, j);
            assert(order@[p] == j);
        }
    }
    out
}

/// The stocks of the table grouped by industry heading.
pub fn group_by_industry(table: &StockTable) -> (groups: Vec<IndustryGroup>)
    requires
        table.wf(),
    ensures
        is_industry_grouping(group_views(groups@), table@),
{
    proof {
        table.lemma_entries();
    }
    let entries = table.stocks();
    let ghost ev = stock_views(entries@);
    let mut codes: Vec<Vec<char>> = Vec::new();
    let mut keys: Vec<Vec<char>> = Vec::new();
    let mut i: usize = 0;
    while i < entries.len()
        invariant
            i <= entries.len(),
            ev == stock_views(entries@),
            codes@.len() == i,
            keys@.len() == i,
            forall|j: int| 0 <= j < i ==> #[trigger] views(keys@)[j] == industry_key(ev[j]),
            forall|j: int| 0 <= j < i ==> #[trigger] views(codes@)[j] == ev[j].code,
        decreases entries.len() - i,
    {
        let ghost kb = views(keys@);
        let ghost cb = views(codes@);
        codes.push(chars_of(entries[i].code.as_str()));
        keys.push(key_of(&entries[i]));
        assert(views(keys@) =~= kb.push(industry_key(ev[i as int])));
        assert(views(codes@) =~= cb.push(ev[i as int].code));
        i = i + 1;
    }
    assert(views(codes@) =~= code_views(ev));
    let order = sort_indices_by_keys(&codes);
    assert(codes@.map_values(|k: Vec<char>| k@) =~= code_views(ev));
    let distinct = distinct_keys(&keys);
    let korder = sort_indices_by_keys(&distinct);
    let ghost dv = views(distinct@);
    assert(distinct@.map_values(|k: Vec<char>| k@) =~= dv);
    let mut groups: Vec<IndustryGroup> = Vec::new();
    let mut g: usize = 0;
    while g < korder.len()
        invariant
            g <= korder@.len(),
            ev == stock_views(entries@),
            codes_distinct(ev),
            is_permutation(korder@, distinct@.len()),
            sorted_by_keys(korder@, dv),
            dv == views(distinct@),
            groups@.len() == g,
            forall|h: int| 0 <= h < g ==> #[trigger] group_views(groups@)[h].name == dv[korder@[h] as int],
            forall|h: int| 0 <= h < g ==> is_heading_members(#[trigger] group_views(groups@)[h].stocks, ev, dv[korder@[h] as int]),
            keys@.len() == entries@.len(),
            forall|j: int| 0 <= j < keys@.len() ==> #[trigger] views(keys@)[j] == industry_key(ev[j]),
            is_permutation(order@, entries@.len()),
            sorted_by_keys(order@, code_views(ev)),
        decreases korder@.len() - g,
    {
        let name = &distinct[korder[g]];
        let members = members_of(entries, &keys, &order, name);
        let ghost before = group_views(groups@);
        let grp = IndustryGroup { name: crate::text::string_of(name.as_slice()), stocks: members };
        assert(grp@.name == dv[korder@[g as int] as int]);
        groups.push(grp);
        assert(group_views(groups@) =~= before.push(grp@));
        g = g + 1;
    }
    proof {
        let gv = group_views(groups@);
        let m = table@;
        assert forall|h: int| 0 <= h < gv.len() implies #[trigger] gv[h].stocks.len() > 0 by {
            let name = dv[korder@[h] as int];
            assert(views(keys@).contains(name));
            let j = choose|j: int| 0 <= j < views(keys@).len() && views(keys@)[j] == name;
            assert(is_heading_members(gv[h].stocks, ev, name));
            assert(industry_key(ev[j]) == name);
        }
        assert forall|h: int, k: int| 0 <= h < k < gv.len() implies lex_less(#[trigger] gv[h].name, #[trigger] gv[k].name) by {
            assert(korder@[h] != korder@[k]);
            lemma_sorted_distinct_strict(korder@, dv, h, k);
        }
        assert forall|h: int, a: int| 0 <= h < gv.len() && 0 <= a < gv[h].stocks.len() implies industry_key(#[trigger] gv[h].stocks[a])
            == gv[h].name && m.contains_key(gv[h].stocks[a].code) && m[gv[h].stocks[a].code] == gv[h].stocks[a] by {
            assert(is_heading_members(gv[h].stocks, ev, dv[korder@[h] as int]));
            assert(ev.contains(gv[h].stocks[a]));
            let j = choose|j: int| 0 <= j < ev.len() && ev[j] == gv[h].stocks[a];
        }
        assert forall|h: int, a: int, b: int| 0 <= h < gv.len() && 0 <= a < b < gv[h].stocks.len() implies lex_less(
            #[trigger] gv[h].stocks[a].code,
            #[trigger] gv[h].stocks[b].code,
        ) by {
            assert(is_heading_members(gv[h].stocks, ev, dv[korder@[h] as int]));
        }
        assert forall|k: Seq<char>| #[trigger] m.contains_key(k) implies exists|h: int| 0 <= h < gv.len() && in_group(gv[h], m[k]) by {
            lemma_keyed_distinct(ev);
            let j = choose|j: int| 0 <= j < ev.len() && ev[j].code == k;
            assert(views(keys@)[j] == industry_key(ev[j]));
            assert(dv.contains(views(keys@)[j]));
            let d = choose|d: int| 0 <= d < dv.len() && dv[d] == views(keys@)[j];
            let h = position_of(korder@, d);
            assert(korder@[h] == d);
            assert(is_heading_members(gv[h].stocks, ev, dv[korder@[h] as int]));
            assert(gv[h].stocks.contains(ev[j]));
            let a = choose|a: int| 0 <= a < gv[h].stocks.len() && gv[h].stocks[a] == ev[j];
            assert(in_group(gv[h], m[k]));
        }
    }
    groups
}


/// The Google search for a company's website.
pub open spec fn google_link(s: StockView) -> Seq<char> {
    "https://www.google.com/search?q="@ + s.code + "+"@ + s.name + "+公司"@
}

/// The Yahoo quote page of a stock.
pub open spec fn yahoo_link(s: StockView) -> Seq<char> {
    "https://tw.stock.yahoo.com/quote/"@ + s.code + ".TW"@
}

/// The GoodInfo page of a stock.
pub open spec fn goodinfo_link(s: StockView) -> Seq<char> {
    "https://goodinfo.tw/tw/StockDetail.asp?STOCK_ID="@ + s.code
}

/// The card of a stock in the HTML report.
pub open spec fn stock_card_html(s: StockView) -> Seq<char> {
    "                    <div class=\"stock-card\">\n                        <div class=\"stock-code\">"@ + s.code + "</div>\n                        <div class=\"stock-name\">"@ + s.name + "</div>\n                        <div class=\"stock-info\">上市日期: "@ + s.listing_date + "</div>\n                        <div class=\"stock-info\">國際代碼: "@ + s.international_code + "</div>\n                        <div>\n                            <a href=\""@ + google_link(s) + "\" target=\"_blank\" class=\"stock-link\">🔍 官網</a>\n                            <a href=\""@ + yahoo_link(s) + "\" target=\"_blank\" class=\"stock-link\">📊 Yahoo</a>\n                            <a href=\""@ + goodinfo_link(s) + "\" target=\"_blank\" class=\"stock-link\">📈 GoodInfo</a>\n                        </div>\n                    </div>\n"@
}

/// The cards of the stocks, in order.
pub open spec fn cards_html(ss: Seq<StockView>) -> Seq<char>
    decreases ss.len(),
{
    if ss.len() == 0 {
        seq![]
    } else {
        cards_html(ss.drop_last()) + stock_card_html(ss.last())
    }
}

/// The section of an industry heading in the HTML report.
pub open spec fn group_html(g: GroupView) -> Seq<char> {
    "            <div class=\"industry-section\">\n                <div class=\"industry-header\" onclick=\"toggleIndustry(this)\">\n                    <span>"@ + g.name + "</span>\n                    <span>"@ + decimal(g.stocks.len()) + " 家 ▼</span>\n                </div>\n                <div class=\"stocks-grid\">\n"@ + cards_html(g.stocks) + "                </div>\n            </div>\n"@
}

/// The sections of the industry headings, in order.
pub open spec fn groups_html(gs: Seq<GroupView>) -> Seq<char>
    decreases gs.len(),
{
    if gs.len() == 0 {
        seq![]
    } else {
        groups_html(gs.drop_last()) + group_html(gs.last())
    }
}

/// The HTML report of `total` stocks grouped as `gs`, updated at `updated_at`.
pub open spec fn stock_html(gs: Seq<GroupView>, total: nat, updated_at: Seq<char>) -> Seq<char> {
    "<!DOCTYPE html>\n<html lang=\"zh-TW\">\n<head>\n    <meta charset=\"UTF-8\">\n    <meta name=\"viewport\" content=\"width=device-width, initial-scale=1.0\">\n    <title>台灣股票完整資訊</title>\n    <style>\n        * { margin: 0; padding: 0; box-sizing: border-box; }\n        body {\n            font-family: \"Microsoft JhengHei\", Arial, sans-serif;\n            background: linear-gradient(135deg, #667eea 0%, #764ba2 100%);\n            padding: 20px;\n        }\n        .container {\n            max-width: 1400px;\n            margin: 0 auto;\n            background: white;\n            border-radius: 20px;\n            box-shadow: 0 20px 60px rgba(0, 0, 0, 0.3);\n            overflow: hidden;\n        }\n        header {\n            background: linear-gradient(135deg, #667eea 0%, #764ba2 100%);\n            color: white;\n            padding: 40px;\n            text-align: center;\n        }\n        h1 { font-size: 2.5em; margin-bottom: 10px; }\n        .stats {\n            display: flex;\n            justify-content: center;\n            gap: 40px;\n            margin-top: 20px;\n        }\n        .stat-number { font-size: 2em; font-weight: bold; }\n        .content { padding: 40px; }\n        .industry-section {\n            margin-bottom: 40px;\n            border: 2px solid #e0e0e0;\n            border-radius: 15px;\n            overflow: hidden;\n        }\n        .industry-header {\n            background: linear-gradient(135deg, #667eea 0%, #764ba2 100%);\n            color: white;\n            padding: 20px 30px;\n            cursor: pointer;\n            display: flex;\n            justify-content: space-between;\n        }\n        .stocks-grid {\n            display: grid;\n            grid-template-columns: repeat(auto-fill, minmax(300px, 1fr));\n            gap: 20px;\n            padding: 30px;\n            background: #f8f9fa;\n        }\n        .stock-card {\n            background: white;\n            border-radius: 10px;\n            padding: 20px;\n            box-shadow: 0 2px 10px rgba(0, 0, 0, 0.1);\n            border-left: 4px solid #667eea;\n        }\n        .stock-code { font-size: 1.3em; font-weight: bold; color: #667eea; }\n        .stock-info { margin: 5px 0; font-size: 0.9em; color: #666; }\n        .stock-link {\n            display: inline-block;\n            padding: 6px 12px;\n            background: linear-gradient(135deg, #667eea 0%, #764ba2 100%);\n            color: white;\n            text-decoration: none;\n            border-radius: 5px;\n            font-size: 0.85em;\n            margin: 5px 5px 0 0;\n        }\n        .collapsed .stocks-grid { display: none; }\n        footer { background: #f8f9fa; padding: 20px; text-align: center; }\n    </style>\n    <script>\n        function toggleIndustry(element) {\n            element.closest('.industry-section').classList.toggle('collapsed');\n        }\n    </script>\n</head>\n<body>\n    <div class=\"container\">\n        <header>\n            <h1>🏢 台灣股票完整資訊</h1>\n            <p>Taiwan Stock Market - Complete Information</p>\n            <div class=\"stats\">\n"@ + "                <div class=\"stat-item\">\n                    <span class=\"stat-number\">"@ + decimal(total) + "</span>\n                    <span class=\"stat-label\">家公司</span>\n                </div>\n                <div class=\"stat-item\">\n                    <span class=\"stat-number\">"@ + decimal(gs.len()) + "</span>\n                    <span class=\"stat-label\">個產業</span>\n                </div>\n"@ + "            </div>\n        </header>\n        <div class=\"content\">\n"@ + groups_html(gs)
        + "        </div>\n        <footer>\n            <p>資料來源：台灣證券交易所 ISIN 網站</p>\n            <p>更新時間："@ + updated_at + "</p>\n        </footer>\n    </div>\n</body>\n</html>\n"@
}

/// The industry headings that the stocks of `m` fall under.
pub open spec fn industry_headings(m: Map<Seq<char>, StockView>) -> Set<Seq<char>> {
    Set::new(|h: Seq<char>| exists|k: Seq<char>| #[trigger] m.contains_key(k) && industry_key(m[k]) == h)
}

/// The header statistics of the HTML report: the number of companies, then
/// the number of industries.
pub open spec fn header_stats_html(companies: nat, industries: nat) -> Seq<char> {
    "                <div class=\"stat-item\">\n                    <span class=\"stat-number\">"@ + decimal(companies)
        + "</span>\n                    <span class=\"stat-label\">家公司</span>\n                </div>\n                <div class=\"stat-item\">\n                    <span class=\"stat-number\">"@
        + decimal(industries) + "</span>\n                    <span class=\"stat-label\">個產業</span>\n                </div>\n"@
}

/// A grouping of the stocks of `m` has one group per industry heading: as
/// many groups as there are distinct headings among the stocks.
pub proof fn law_one_group_per_heading(gs: Seq<GroupView>, m: Map<Seq<char>, StockView>)
    requires
        is_industry_grouping(gs, m),
    ensures
        industry_headings(m).finite(),
        industry_headings(m).len() == gs.len(),
        forall|h: Seq<char>| #[trigger] industry_headings(m).contains(h) <==> exists|g: int| 0 <= g < gs.len() && gs[g].name == h,
{
    let names = Seq::new(gs.len(), |g: int| gs[g].name);
    let hs = industry_headings(m);
    assert forall|h: Seq<char>| #[trigger] hs.contains(h) <==> names.to_set().contains(h) by {
        if hs.contains(h) {
            let k = choose|k: Seq<char>| #[trigger] m.contains_key(k) && industry_key(m[k]) == h;
            let g = choose|g: int| 0 <= g < gs.len() && in_group(gs[g], m[k]);
            let a = choose|a: int| 0 <= a < gs[g].stocks.len() && gs[g].stocks[a] == m[k];
            assert(industry_key(gs[g].stocks[a]) == gs[g].name);
            assert(names[g] == h);
        }
        if names.to_set().contains(h) {
            let g = choose|g: int| 0 <= g < names.len() && names[g] == h;
            assert(gs[g].stocks.len() > 0);
            let s = gs[g].stocks[0];
            assert(industry_key(gs[g].stocks[0]) == gs[g].name);
            assert(m.contains_key(s.code) && industry_key(m[s.code]) == h);
        }
    }
    assert(hs =~= names.to_set());
    assert forall|g: int, h: int| 0 <= g < names.len() && 0 <= h < names.len() && g != h implies names[g]
        != names[h] by {
        lemma_lex_asymmetric(names[g], names[h]);
        if g < h {
            assert(lex_less(gs[g].name, gs[h].name));
        } else {
            assert(lex_less(gs[h].name, gs[g].name));
        }
    }
    assert(names.no_duplicates());
    names.unique_seq_to_set();
    assert forall|h: Seq<char>| #[trigger] hs.contains(h) <==> exists|g: int| 0 <= g < gs.len() && gs[g].name == h by {
        if exists|g: int| 0 <= g < gs.len() && gs[g].name == h {
            let g = choose|g: int| 0 <= g < gs.len() && gs[g].name == h;
            assert(names[g] == h);
        }
    }
}

/// The HTML report of a grouping of the stocks of `m` states, in its
/// header, the number of companies and, before 個產業, the number of
/// distinct industry headings among them.
pub proof fn law_stock_html_header_counts(gs: Seq<GroupView>, m: Map<Seq<char>, StockView>, updated_at: Seq<char>)
    requires
        is_industry_grouping(gs, m),
    ensures
        contains(stock_html(gs, m.dom().len(), updated_at), header_stats_html(m.dom().len(), industry_headings(m).len())),
{
    law_one_group_per_heading(gs, m);
    let html = stock_html(gs, m.dom().len(), updated_at);
    let stats = header_stats_html(m.dom().len(), gs.len());
    let head = "<!DOCTYPE html>\n<html lang=\"zh-TW\">\n<head>\n    <meta charset=\"UTF-8\">\n    <meta name=\"viewport\" content=\"width=device-width, initial-scale=1.0\">\n    <title>台灣股票完整資訊</title>\n    <style>\n        * { margin: 0; padding: 0; box-sizing: border-box; }\n        body {\n            font-family: \"Microsoft JhengHei\", Arial, sans-serif;\n            background: linear-gradient(135deg, #667eea 0%, #764ba2 100%);\n            padding: 20px;\n        }\n        .container {\n            max-width: 1400px;\n            margin: 0 auto;\n            background: white;\n            border-radius: 20px;\n            box-shadow: 0 20px 60px rgba(0, 0, 0, 0.3);\n            overflow: hidden;\n        }\n        header {\n            background: linear-gradient(135deg, #667eea 0%, #764ba2 100%);\n            color: white;\n            padding: 40px;\n            text-align: center;\n        }\n        h1 { font-size: 2.5em; margin-bottom: 10px; }\n        .stats {\n            display: flex;\n            justify-content: center;\n            gap: 40px;\n            margin-top: 20px;\n        }\n        .stat-number { font-size: 2em; font-weight: bold; }\n        .content { padding: 40px; }\n        .industry-section {\n            margin-bottom: 40px;\n            border: 2px solid #e0e0e0;\n            border-radius: 15px;\n            overflow: hidden;\n        }\n        .industry-header {\n            background: linear-gradient(135deg, #667eea 0%, #764ba2 100%);\n            color: white;\n            padding: 20px 30px;\n            cursor: pointer;\n            display: flex;\n            justify-content: space-between;\n        }\n        .stocks-grid {\n            display: grid;\n            grid-template-columns: repeat(auto-fill, minmax(300px, 1fr));\n            gap: 20px;\n            padding: 30px;\n            background: #f8f9fa;\n        }\n        .stock-card {\n            background: white;\n            border-radius: 10px;\n            padding: 20px;\n            box-shadow: 0 2px 10px rgba(0, 0, 0, 0.1);\n            border-left: 4px solid #667eea;\n        }\n        .stock-code { font-size: 1.3em; font-weight: bold; color: #667eea; }\n        .stock-info { margin: 5px 0; font-size: 0.9em; color: #666; }\n        .stock-link {\n            display: inline-block;\n            padding: 6px 12px;\n            background: linear-gradient(135deg, #667eea 0%, #764ba2 100%);\n            color: white;\n            text-decoration: none;\n            border-radius: 5px;\n            font-size: 0.85em;\n            margin: 5px 5px 0 0;\n        }\n        .collapsed .stocks-grid { display: none; }\n        footer { background: #f8f9fa; padding: 20px; text-align: center; }\n    </style>\n    <script>\n        function toggleIndustry(element) {\n            element.closest('.industry-section').classList.toggle('collapsed');\n        }\n    </script>\n</head>\n<body>\n    <div class=\"container\">\n        <header>\n            <h1>🏢 台灣股票完整資訊</h1>\n            <p>Taiwan Stock Market - Complete Information</p>\n            <div class=\"stats\">\n"@;
    let tail = "            </div>\n        </header>\n        <div class=\"content\">\n"@ + groups_html(gs)
        + "        </div>\n        <footer>\n            <p>資料來源：台灣證券交易所 ISIN 網站</p>\n            <p>更新時間："@ + updated_at + "</p>\n        </footer>\n    </div>\n</body>\n</html>\n"@;
    assert(html =~= head + stats + tail);
    lemma_contains_middle(head, stats, tail);
}

/// The table row of a stock in the Markdown report.
pub open spec fn stock_row_markdown(s: StockView) -> Seq<char> {
    "| **"@ + s.code + "** | "@ + s.name + " | "@ + s.listing_date + " | "@ + s.international_code + " | [🔍]("@ + google_link(s) + ") | [📊]("@ + yahoo_link(s) + ") | [📈]("@ + goodinfo_link(s) + ") |\n"@
}

/// The table rows of the stocks, in order.
pub open spec fn rows_markdown(ss: Seq<StockView>) -> Seq<char>
    decreases ss.len(),
{
    if ss.len() == 0 {
        seq![]
    } else {
        rows_markdown(ss.drop_last()) + stock_row_markdown(ss.last())
    }
}

/// The section of an industry heading in the Markdown report.
pub open spec fn group_markdown(g: GroupView) -> Seq<char> {
    "### "@ + g.name + "\n\n> 共 "@ + decimal(g.stocks.len()) + " 家公司\n\n| 代號 | 公司名稱 | 上市日期 | 國際代碼 | 官網 | Yahoo | GoodInfo |\n|------|---------|---------|---------|------|-------|----------|\n"@ + rows_markdown(g.stocks) + "\n"@
}

/// The sections of the industry headings, in order.
pub open spec fn groups_markdown(gs: Seq<GroupView>) -> Seq<char>
    decreases gs.len(),
{
    if gs.len() == 0 {
        seq![]
    } else {
        groups_markdown(gs.drop_last()) + group_markdown(gs.last())
    }
}

/// The Markdown report of `total` stocks grouped as `gs`, updated at `updated_at`.
pub open spec fn stock_markdown(gs: Seq<GroupView>, total: nat, updated_at: Seq<char>) -> Seq<char> {
    "# 台灣股票完整資訊\n\n> Taiwan Stock Market - Complete Information\n\n**資料來源**: 台灣證券交易所 ISIN 網站\n\n**更新時間**: "@ + updated_at + "\n\n## 📊 統計資訊\n\n- **總公司數**: "@ + decimal(total) + " 家\n- **產業分類**: "@ + decimal(gs.len()) + " 個\n\n---\n\n## 📈 產業分類\n\n"@ + groups_markdown(gs)
        + "---\n\n*最後更新: "@ + updated_at + "*\n"@
}

/// The statistics of the Markdown report: the number of companies, then the
/// number of industries.
pub open spec fn markdown_stats(companies: nat, industries: nat) -> Seq<char> {
    "\n\n## 📊 統計資訊\n\n- **總公司數**: "@ + decimal(companies) + " 家\n- **產業分類**: "@ + decimal(industries)
        + " 個\n\n---\n\n## 📈 產業分類\n\n"@
}

/// The Markdown report of a grouping of the stocks of `m` states the number
/// of companies and the number of distinct industry headings among them.
pub proof fn law_stock_markdown_counts(gs: Seq<GroupView>, m: Map<Seq<char>, StockView>, updated_at: Seq<char>)
    requires
        is_industry_grouping(gs, m),
    ensures
        contains(stock_markdown(gs, m.dom().len(), updated_at), markdown_stats(m.dom().len(), industry_headings(m).len())),
{
    law_one_group_per_heading(gs, m);
    let md = stock_markdown(gs, m.dom().len(), updated_at);
    let stats = markdown_stats(m.dom().len(), gs.len());
    let head = "# 台灣股票完整資訊\n\n> Taiwan Stock Market - Complete Information\n\n**資料來源**: 台灣證券交易所 ISIN 網站\n\n**更新時間**: "@ + updated_at;
    let tail = groups_markdown(gs) + "---\n\n*最後更新: "@ + updated_at + "*\n"@;
    assert(md =~= head + stats + tail);
    lemma_contains_middle(head, stats, tail);
}

/// The Google search for a company's website.
fn google_link_of(s: &CrawledStock) -> (res: String)
    ensures
        res@ == google_link(s@),
{
    let mut out = String::from_str("https://www.google.com/search?q=");
    out.append(s.code.as_str());
    out.append("+");
    out.append(s.name.as_str());
    out.append("+公司");
    out
}

/// The Yahoo quote page of a stock.
fn yahoo_link_of(s: &CrawledStock) -> (res: String)
    ensures
        res@ == yahoo_link(s@),
{
    let mut out = String::from_str("https://tw.stock.yahoo.com/quote/");
    out.append(s.code.as_str());
    out.append(".TW");
    out
}

/// The GoodInfo page of a stock.
fn goodinfo_link_of(s: &CrawledStock) -> (res: String)
    ensures
        res@ == goodinfo_link(s@),
{
    let mut out = String::from_str("https://goodinfo.tw/tw/StockDetail.asp?STOCK_ID=");
    out.append(s.code.as_str());
    out
}

/// The card of a stock in the HTML report.
fn stock_card(s: &CrawledStock) -> (res: String)
    ensures
        res@ == stock_card_html(s@),
{
    let google = google_link_of(s);
    let yahoo = yahoo_link_of(s);
    let goodinfo = goodinfo_link_of(s);
    let mut out = String::new();
    out.append("                    <div class=\"stock-card\">\n                        <div class=\"stock-code\">");
    out.append(s.code.as_str());
    out.append("</div>\n                        <div class=\"stock-name\">");
    out.append(s.name.as_str());
    out.append("</div>\n                        <div class=\"stock-info\">上市日期: ");
    out.append(s.listing_date.as_str());
    out.append("</div>\n                        <div class=\"stock-info\">國際代碼: ");
    out.append(s.international_code.as_str());
    out.append("</div>\n                        <div>\n                            <a href=\"");
    out.append(google.as_str());
    out.append("\" target=\"_blank\" class=\"stock-link\">🔍 官網</a>\n                            <a href=\"");
    out.append(yahoo.as_str());
    out.append("\" target=\"_blank\" class=\"stock-link\">📊 Yahoo</a>\n                            <a href=\"");
    out.append(goodinfo.as_str());
    out.append("\" target=\"_blank\" class=\"stock-link\">📈 GoodInfo</a>\n                        </div>\n                    </div>\n");
    out
}

/// The section of an industry heading in the HTML report.
fn group_section(g: &IndustryGroup) -> (res: String)
    ensures
        res@ == group_html(g@),
{
    let mut out = String::new();
    out.append("            <div class=\"industry-section\">\n                <div class=\"industry-header\" onclick=\"toggleIndustry(this)\">\n                    <span>");
    out.append(g.name.as_str());
    out.append("</span>\n                    <span>");
    push_decimal(&mut out, g.stocks.len());
    out.append(" 家 ▼</span>\n                </div>\n                <div class=\"stocks-grid\">\n");
    let ghost start = out@;
    let ghost sv = stock_views(g.stocks@);
    let mut i: usize = 0;
    while i < g.stocks.len()
        invariant
            i <= g.stocks.len(),
            sv == stock_views(g.stocks@),
            out@ == start + cards_html(sv.take(i as int)),
        decreases g.stocks.len() - i,
    {
        let card = stock_card(&g.stocks[i]);
        out.append(card.as_str());
        assert(sv.take(i + 1).drop_last() =~= sv.take(i as int));
        assert(sv.take(i + 1).last() == g.stocks@[i as int]@);
        i = i + 1;
    }
    assert(sv.take(g.stocks.len() as int) =~= sv);
    out.append("                </div>\n            </div>\n");
    out
}

/// The HTML report of `total` stocks grouped as `groups`, updated at
/// `updated_at` (written `YYYY-MM-DD HH:MM:SS`).
pub fn render_stock_html(groups: &Vec<IndustryGroup>, total: usize, updated_at: &str) -> (res: String)
    ensures
        res@ == stock_html(group_views(groups@), total as nat, updated_at@),
{
    let mut out = String::from_str("<!DOCTYPE html>\n<html lang=\"zh-TW\">\n<head>\n    <meta charset=\"UTF-8\">\n    <meta name=\"viewport\" content=\"width=device-width, initial-scale=1.0\">\n    <title>台灣股票完整資訊</title>\n    <style>\n        * { margin: 0; padding: 0; box-sizing: border-box; }\n        body {\n            font-family: \"Microsoft JhengHei\", Arial, sans-serif;\n            background: linear-gradient(135deg, #667eea 0%, #764ba2 100%);\n            padding: 20px;\n        }\n        .container {\n            max-width: 1400px;\n            margin: 0 auto;\n            background: white;\n            border-radius: 20px;\n            box-shadow: 0 20px 60px rgba(0, 0, 0, 0.3);\n            overflow: hidden;\n        }\n        header {\n            background: linear-gradient(135deg, #667eea 0%, #764ba2 100%);\n            color: white;\n            padding: 40px;\n            text-align: center;\n        }\n        h1 { font-size: 2.5em; margin-bottom: 10px; }\n        .stats {\n            display: flex;\n            justify-content: center;\n            gap: 40px;\n            margin-top: 20px;\n        }\n        .stat-number { font-size: 2em; font-weight: bold; }\n        .content { padding: 40px; }\n        .industry-section {\n            margin-bottom: 40px;\n            border: 2px solid #e0e0e0;\n            border-radius: 15px;\n            overflow: hidden;\n        }\n        .industry-header {\n            background: linear-gradient(135deg, #667eea 0%, #764ba2 100%);\n            color: white;\n            padding: 20px 30px;\n            cursor: pointer;\n            display: flex;\n            justify-content: space-between;\n        }\n        .stocks-grid {\n            display: grid;\n            grid-template-columns: repeat(auto-fill, minmax(300px, 1fr));\n            gap: 20px;\n            padding: 30px;\n            background: #f8f9fa;\n        }\n        .stock-card {\n            background: white;\n            border-radius: 10px;\n            padding: 20px;\n            box-shadow: 0 2px 10px rgba(0, 0, 0, 0.1);\n            border-left: 4px solid #667eea;\n        }\n        .stock-code { font-size: 1.3em; font-weight: bold; color: #667eea; }\n        .stock-info { margin: 5px 0; font-size: 0.9em; color: #666; }\n        .stock-link {\n            display: inline-block;\n            padding: 6px 12px;\n            background: linear-gradient(135deg, #667eea 0%, #764ba2 100%);\n            color: white;\n            text-decoration: none;\n            border-radius: 5px;\n            font-size: 0.85em;\n            margin: 5px 5px 0 0;\n        }\n        .collapsed .stocks-grid { display: none; }\n        footer { background: #f8f9fa; padding: 20px; text-align: center; }\n    </style>\n    <script>\n        function toggleIndustry(element) {\n            element.closest('.industry-section').classList.toggle('collapsed');\n        }\n    </script>\n</head>\n<body>\n    <div class=\"container\">\n        <header>\n            <h1>🏢 台灣股票完整資訊</h1>\n            <p>Taiwan Stock Market - Complete Information</p>\n            <div class=\"stats\">\n");
    out.append("                <div class=\"stat-item\">\n                    <span class=\"stat-number\">");
    push_decimal(&mut out, total);
    out.append("</span>\n                    <span class=\"stat-label\">家公司</span>\n                </div>\n                <div class=\"stat-item\">\n                    <span class=\"stat-number\">");
    push_decimal(&mut out, groups.len());
    out.append("</span>\n                    <span class=\"stat-label\">個產業</span>\n                </div>\n");
    out.append("            </div>\n        </header>\n        <div class=\"content\">\n");
    let ghost start = out@;
    let ghost gv = group_views(groups@);
    let mut i: usize = 0;
    while i < groups.len()
        invariant
            i <= groups.len(),
            gv == group_views(groups@),
            out@ == start + groups_html(gv.take(i as int)),
        decreases groups.len() - i,
    {
        let sec = group_section(&groups[i]);
        out.append(sec.as_str());
        assert(gv.take(i + 1).drop_last() =~= gv.take(i as int));
        assert(gv.take(i + 1).last() == groups@[i as int]@);
        i = i + 1;
    }
    assert(gv.take(groups.len() as int) =~= gv);
    out.append("        </div>\n        <footer>\n            <p>資料來源：台灣證券交易所 ISIN 網站</p>\n            <p>更新時間：");
    out.append(updated_at);
    out.append("</p>\n        </footer>\n    </div>\n</body>\n</html>\n");
    out
}

/// The HTML report of the stocks of `table`, grouped by industry heading and
/// ordered by heading and code, updated at `updated_at`.
pub fn generate_html(table: &StockTable, updated_at: &str) -> (res: String)
    requires
        table.wf(),
    ensures
        exists|gs: Seq<GroupView>| is_industry_grouping(gs, table@) && res@ == stock_html(gs, table@.dom().len(), updated_at@),
{
    let groups = group_by_industry(table);
    render_stock_html(&groups, table.len(), updated_at)
}

/// The table row of a stock in the Markdown report.
fn stock_row(s: &CrawledStock) -> (res: String)
    ensures
        res@ == stock_row_markdown(s@),
{
    let google = google_link_of(s);
    let yahoo = yahoo_link_of(s);
    let goodinfo = goodinfo_link_of(s);
    let mut out = String::new();
    out.append("| **");
    out.append(s.code.as_str());
    out.append("** | ");
    out.append(s.name.as_str());
    out.append(" | ");
    out.append(s.listing_date.as_str());
    out.append(" | ");
    out.append(s.international_code.as_str());
    out.append(" | [🔍](");
    out.append(google.as_str());
    out.append(") | [📊](");
    out.append(yahoo.as_str());
    out.append(") | [📈](");
    out.append(goodinfo.as_str());
    out.append(") |\n");
    out
}

/// The section of an industry heading in the Markdown report.
fn group_section_markdown(g: &IndustryGroup) -> (res: String)
    ensures
        res@ == group_markdown(g@),
{
    let mut out = String::new();
    out.append("### ");
    out.append(g.name.as_str());
    out.append("\n\n> 共 ");
    push_decimal(&mut out, g.stocks.len());
    out.append(" 家公司\n\n| 代號 | 公司名稱 | 上市日期 | 國際代碼 | 官網 | Yahoo | GoodInfo |\n|------|---------|---------|---------|------|-------|----------|\n");
    let ghost start = out@;
    let ghost sv = stock_views(g.stocks@);
    let mut i: usize = 0;
    while i < g.stocks.len()
        invariant
            i <= g.stocks.len(),
            sv == stock_views(g.stocks@),
            out@ == start + rows_markdown(sv.take(i as int)),
        decreases g.stocks.len() - i,
    {
        let row = stock_row(&g.stocks[i]);
        out.append(row.as_str());
        assert(sv.take(i + 1).drop_last() =~= sv.take(i as int));
        assert(sv.take(i + 1).last() == g.stocks@[i as int]@);
        i = i + 1;
    }
    assert(sv.take(g.stocks.len() as int) =~= sv);
    out.append("\n");
    out
}

/// The Markdown report of `total` stocks grouped as `groups`, updated at
/// `updated_at` (written `YYYY-MM-DD HH:MM:SS`).
pub fn render_stock_markdown(groups: &Vec<IndustryGroup>, total: usize, updated_at: &str) -> (res: String)
    ensures
        res@ == stock_markdown(group_views(groups@), total as nat, updated_at@),
{
    let mut out = String::new();
    out.append("# 台灣股票完整資訊\n\n> Taiwan Stock Market - Complete Information\n\n**資料來源**: 台灣證券交易所 ISIN 網站\n\n**更新時間**: ");
    out.append(updated_at);
    out.append("\n\n## 📊 統計資訊\n\n- **總公司數**: ");
    push_decimal(&mut out, total);
    out.append(" 家\n- **產業分類**: ");
    push_decimal(&mut out, groups.len());
    out.append(" 個\n\n---\n\n## 📈 產業分類\n\n");
    let ghost start = out@;
    let ghost gv = group_views(groups@);
    let mut i: usize = 0;
    while i < groups.len()
        invariant
            i <= groups.len(),
            gv == group_views(groups@),
            out@ == start + groups_markdown(gv.take(i as int)),
        decreases groups.len() - i,
    {
        let sec = group_section_markdown(&groups[i]);
        out.append(sec.as_str());
        assert(gv.take(i + 1).drop_last() =~= gv.take(i as int));
        assert(gv.take(i + 1).last() == groups@[i as int]@);
        i = i + 1;
    }
    assert(gv.take(groups.len() as int) =~= gv);
    out.append("---\n\n*最後更新: ");
    out.append(updated_at);
    out.append("*\n");
    out
}

/// The Markdown report of the stocks of `table`, grouped by industry heading
/// and ordered by heading and code, updated at `updated_at`.
pub fn generate_markdown(table: &StockTable, updated_at: &str) -> (res: String)
    requires
        table.wf(),
    ensures
        exists|gs: Seq<GroupView>| is_industry_grouping(gs, table@) && res@ == stock_markdown(gs, table@.dom().len(), updated_at@),
{
    let groups = group_by_industry(table);
    render_stock_markdown(&groups, table.len(), updated_at)
}

} // verus!
