//! The list of listed and OTC companies with their web sites and products:
//! picked out of the company records, ordered by code, counted, and written
//! out as an HTML table, an HTML report grouped by industry, and CSV.
use vstd::prelude::*;
use crate::codec::{minified, minify};
use crate::html::{chars_of_all, strs};
use vstd::utf8::encode_utf8;
use crate::order::{is_permutation, sort_indices_by_counts_desc, sort_indices_by_keys, sorted_by_keys};
use crate::tally::{count_views, distinct_in_order, distinct_names, law_distinct_names_are_the_names, is_tally, tally, NameCount};
use crate::text::{
    chars_of, contains, decimal, equal_str, join, join_chars, lemma_contains_middle, push_decimal, replace_all, replace_str, string_of, views,
};

verus! {

/// A listed or OTC company with everything known of it.
#[derive(Debug)]
pub struct EnrichedStock {
    pub code: String,
    pub name: String,
    pub english_name: String,
    pub market_type: String,
    pub industry_type: String,
    pub listing_date: String,
    pub international_code: String,
    pub website: String,
    pub product_description: String,
    pub main_products: Vec<String>,
    pub last_updated: String,
}

/// An enriched company as plain values.
pub struct EnrichedView {
    pub code: Seq<char>,
    pub name: Seq<char>,
    pub english_name: Seq<char>,
    pub market_type: Seq<char>,
    pub industry_type: Seq<char>,
    pub listing_date: Seq<char>,
    pub international_code: Seq<char>,
    pub website: Seq<char>,
    pub product_description: Seq<char>,
    pub main_products: Seq<Seq<char>>,
    pub last_updated: Seq<char>,
}

impl View for EnrichedStock {
    type V = EnrichedView;

    open spec fn view(&self) -> EnrichedView {
        EnrichedView {
            code: self.code@,
            name: self.name@,
            english_name: self.english_name@,
            market_type: self.market_type@,
            industry_type: self.industry_type@,
            listing_date: self.listing_date@,
            international_code: self.international_code@,
            website: self.website@,
            product_description: self.product_description@,
            main_products: strs(self.main_products@),
            last_updated: self.last_updated@,
        }
    }
}

/// The companies as plain values.
pub open spec fn enriched_views(s: Seq<EnrichedStock>) -> Seq<EnrichedView> {
    s.map_values(|x: EnrichedStock| x@)
}

/// A copy of a list of strings.
pub fn copy_strings(v: &Vec<String>) -> (res: Vec<String>)
    ensures
        strs(res@) == strs(v@),
{
    let mut out: Vec<String> = Vec::new();
    let mut i: usize = 0;
    while i < v.len()
        invariant
            i <= v@.len(),
            strs(out@) == strs(v@).take(i as int),
        decreases v@.len() - i,
    {
        let ghost before = out@;
        out.push(v[i].clone());
        assert(strs(out@) =~= strs(before).push(v@[i as int]@));
        assert(strs(v@).take(i + 1) =~= strs(v@).take(i as int).push(v@[i as int]@));
        i = i + 1;
    }
    assert(strs(v@).take(v@.len() as int) =~= strs(v@));
    out
}

impl EnrichedStock {
    /// A field-by-field copy.
    pub fn copy(&self) -> (res: EnrichedStock)
        ensures
            res@ == self@,
    {
        EnrichedStock {
            code: self.code.clone(),
            name: self.name.clone(),
            english_name: self.english_name.clone(),
            market_type: self.market_type.clone(),
            industry_type: self.industry_type.clone(),
            listing_date: self.listing_date.clone(),
            international_code: self.international_code.clone(),
            website: self.website.clone(),
            product_description: self.product_description.clone(),
            main_products: copy_strings(&self.main_products),
            last_updated: self.last_updated.clone(),
        }
    }
}

/// A company on the main board (`上市`) or over the counter (`上櫃`).
pub open spec fn is_listed_or_otc(s: EnrichedView) -> bool {
    s.market_type == "上市"@ || s.market_type == "上櫃"@
}

/// The companies of `s` on the main board or over the counter, in order.
pub open spec fn listed_or_otc(s: Seq<EnrichedView>) -> Seq<EnrichedView>
    decreases s.len(),
{
    if s.len() == 0 {
        seq![]
    } else {
        let before = listed_or_otc(s.drop_last());
        if is_listed_or_otc(s.last()) {
            before.push(s.last())
        } else {
            before
        }
    }
}

/// The codes of the companies.
pub open spec fn codes_of(s: Seq<EnrichedView>) -> Seq<Seq<char>> {
    s.map_values(|x: EnrichedView| x.code)
}

/// The companies of `s` in the order `perm`.
pub open spec fn reordered(s: Seq<EnrichedView>, perm: Seq<usize>) -> Seq<EnrichedView> {
    perm.map_values(|i: usize| s[i as int])
}

/// The companies on the main board or over the counter, in ascending order of
/// code (companies of equal code in no promised order).
pub fn enrich_stocks(stocks: &Vec<EnrichedStock>) -> (res: Vec<EnrichedStock>)
    ensures
        exists|perm: Seq<usize>|
            #![trigger reordered(listed_or_otc(enriched_views(stocks@)), perm)]
            is_permutation(perm, listed_or_otc(enriched_views(stocks@)).len()) && sorted_by_keys(
                perm,
                codes_of(listed_or_otc(enriched_views(stocks@))),
            ) && enriched_views(res@) == reordered(listed_or_otc(enriched_views(stocks@)), perm),
{
    let ghost sv = enriched_views(stocks@);
    let mut kept: Vec<EnrichedStock> = Vec::new();
    let mut i: usize = 0;
    while i < stocks.len()
        invariant
            i <= stocks@.len(),
            sv == enriched_views(stocks@),
            enriched_views(kept@) == listed_or_otc(sv.take(i as int)),
        decreases stocks@.len() - i,
    {
        assert(sv.take(i + 1).drop_last() =~= sv.take(i as int));
        assert(sv.take(i + 1).last() == stocks@[i as int]@);
        if equal_str(stocks[i].market_type.as_str(), "上市") || equal_str(stocks[i].market_type.as_str(), "上櫃") {
            let ghost before = kept@;
            kept.push(stocks[i].copy());
            assert(enriched_views(kept@) =~= enriched_views(before).push(stocks@[i as int]@));
        }
        i = i + 1;
    }
    assert(sv.take(stocks@.len() as int) =~= sv);
    let ghost fv = listed_or_otc(sv);
    let mut keys: Vec<Vec<char>> = Vec::new();
    let mut k: usize = 0;
    while k < kept.len()
        invariant
            k <= kept@.len(),
            enriched_views(kept@) == fv,
            views(keys@) == codes_of(fv).take(k as int),
        decreases kept@.len() - k,
    {
        let ghost before = views(keys@);
        let c = chars_of(kept[k].code.as_str());
        let ghost cv = c@;
        keys.push(c);
        assert(views(keys@) =~= before.push(cv));
        assert(codes_of(fv).take(k + 1) =~= codes_of(fv).take(k as int).push(fv[k as int].code));
        k = k + 1;
    }
    assert(codes_of(fv).take(kept@.len() as int) =~= codes_of(fv));
    let perm = sort_indices_by_keys(&keys);
    let mut out: Vec<EnrichedStock> = Vec::new();
    let mut g: usize = 0;
    while g < perm.len()
        invariant
            g <= perm@.len(),
            enriched_views(kept@) == fv,
            is_permutation(perm@, keys@.len()),
            keys@.len() == kept@.len(),
            enriched_views(out@) == reordered(fv, perm@.take(g as int)),
        decreases perm@.len() - g,
    {
        let j = perm[g];
        assert(perm@[g as int] < keys@.len());
        let ghost before = out@;
        out.push(kept[j].copy());
        assert(enriched_views(out@) =~= enriched_views(before).push(fv[j as int]));
        assert(perm@.take(g + 1) =~= perm@.take(g as int).push(j));
        assert(reordered(fv, perm@.take(g + 1)) =~= reordered(fv, perm@.take(g as int)).push(fv[j as int]));
        g = g + 1;
    }
    assert(perm@.take(perm@.len() as int) =~= perm@);
    assert(is_permutation(perm@, fv.len()) && sorted_by_keys(perm@, codes_of(fv)) && enriched_views(out@) == reordered(fv, perm@));
    out
}

/// Every company kept on the enriched list is on the main board or over the
/// counter.
pub proof fn law_enriched_are_listed_or_otc(s: Seq<EnrichedView>, perm: Seq<usize>, i: int)
    requires
        is_permutation(perm, listed_or_otc(s).len()),
        0 <= i < perm.len(),
    ensures
        is_listed_or_otc(reordered(listed_or_otc(s), perm)[i]),
{
    lemma_listed_or_otc_only(s, perm[i] as int);
}

/// Every company that the filter keeps is on the main board or over the counter.
proof fn lemma_listed_or_otc_only(s: Seq<EnrichedView>, j: int)
    requires
        0 <= j < listed_or_otc(s).len(),
    ensures
        is_listed_or_otc(listed_or_otc(s)[j]),
    decreases s.len(),
{
    if s.len() > 0 {
        let before = listed_or_otc(s.drop_last());
        if j < before.len() {
            lemma_listed_or_otc_only(s.drop_last(), j);
            if is_listed_or_otc(s.last()) {
                assert(listed_or_otc(s)[j] == before[j]);
            }
        }
    }
}

/// On a list of main-board and OTC companies, the main-board count and the
/// OTC count add up to the number of companies.
pub proof fn law_markets_add_up(t: Seq<EnrichedView>)
    requires
        forall|i: int| 0 <= i < t.len() ==> is_listed_or_otc(#[trigger] t[i]),
    ensures
        market_count(t, "上市"@) + market_count(t, "上櫃"@) == t.len(),
    decreases t.len(),
{
    if t.len() > 0 {
        assert forall|i: int| 0 <= i < t.drop_last().len() implies is_listed_or_otc(#[trigger] t.drop_last()[i]) by {
            assert(t.drop_last()[i] == t[i]);
        }
        law_markets_add_up(t.drop_last());
        assert(is_listed_or_otc(t[t.len() - 1]));
        assert("上市"@ != "上櫃"@) by {
            reveal_strlit("上市");
            reveal_strlit("上櫃");
            assert("上市"@[1] != "上櫃"@[1]);
        }
    }
}

/// The number of companies of `s` in market `m`.
pub open spec fn market_count(s: Seq<EnrichedView>, m: Seq<char>) -> nat
    decreases s.len(),
{
    if s.len() == 0 {
        0
    } else {
        market_count(s.drop_last(), m) + if s.last().market_type == m { 1nat } else { 0nat }
    }
}

/// The number of companies in market `market`.
pub fn count_in_market(stocks: &Vec<EnrichedStock>, market: &str) -> (res: usize)
    ensures
        res == market_count(enriched_views(stocks@), market@),
{
    let ghost sv = enriched_views(stocks@);
    let mut n: usize = 0;
    let mut i: usize = 0;
    while i < stocks.len()
        invariant
            i <= stocks@.len(),
            sv == enriched_views(stocks@),
            n == market_count(sv.take(i as int), market@),
            n <= i,
        decreases stocks@.len() - i,
    {
        assert(sv.take(i + 1).drop_last() =~= sv.take(i as int));
        assert(sv.take(i + 1).last() == stocks@[i as int]@);
        if equal_str(stocks[i].market_type.as_str(), market) {
            n = n + 1;
        }
        i = i + 1;
    }
    assert(sv.take(stocks@.len() as int) =~= sv);
    n
}

/// The number of companies of `s` with a web site.
pub open spec fn website_count(s: Seq<EnrichedView>) -> nat
    decreases s.len(),
{
    if s.len() == 0 {
        0
    } else {
        website_count(s.drop_last()) + if s.last().website.len() > 0 { 1nat } else { 0nat }
    }
}

/// The number of companies of `s` with a product description.
pub open spec fn description_count(s: Seq<EnrichedView>) -> nat
    decreases s.len(),
{
    if s.len() == 0 {
        0
    } else {
        description_count(s.drop_last()) + if s.last().product_description.len() > 0 { 1nat } else { 0nat }
    }
}

/// The number of companies with a web site.
pub fn count_with_website(stocks: &Vec<EnrichedStock>) -> (res: usize)
    ensures
        res == website_count(enriched_views(stocks@)),
{
    let ghost sv = enriched_views(stocks@);
    let mut n: usize = 0;
    let mut i: usize = 0;
    while i < stocks.len()
        invariant
            i <= stocks@.len(),
            sv == enriched_views(stocks@),
            n == website_count(sv.take(i as int)),
            n <= i,
        decreases stocks@.len() - i,
    {
        assert(sv.take(i + 1).drop_last() =~= sv.take(i as int));
        assert(sv.take(i + 1).last() == stocks@[i as int]@);
        if !stocks[i].website.as_str().is_empty() {
            n = n + 1;
        }
        i = i + 1;
    }
    assert(sv.take(stocks@.len() as int) =~= sv);
    n
}

/// The number of companies with a product description.
pub fn count_with_description(stocks: &Vec<EnrichedStock>) -> (res: usize)
    ensures
        res == description_count(enriched_views(stocks@)),
{
    let ghost sv = enriched_views(stocks@);
    let mut n: usize = 0;
    let mut i: usize = 0;
    while i < stocks.len()
        invariant
            i <= stocks@.len(),
            sv == enriched_views(stocks@),
            n == description_count(sv.take(i as int)),
            n <= i,
        decreases stocks@.len() - i,
    {
        assert(sv.take(i + 1).drop_last() =~= sv.take(i as int));
        assert(sv.take(i + 1).last() == stocks@[i as int]@);
        if !stocks[i].product_description.as_str().is_empty() {
            n = n + 1;
        }
        i = i + 1;
    }
    assert(sv.take(stocks@.len() as int) =~= sv);
    n
}

/// The industries of the companies, in order.
pub open spec fn industries_of(s: Seq<EnrichedView>) -> Seq<Seq<char>> {
    s.map_values(|x: EnrichedView| x.industry_type)
}

/// The industry of each company, as strings.
fn industry_strings(stocks: &Vec<EnrichedStock>) -> (res: Vec<String>)
    ensures
        res@.map_values(|n: String| n@) == industries_of(enriched_views(stocks@)),
{
    let mut names: Vec<String> = Vec::new();
    let mut i: usize = 0;
    while i < stocks.len()
        invariant
            i <= stocks@.len(),
            names@.map_values(|n: String| n@) == industries_of(enriched_views(stocks@)).take(i as int),
        decreases stocks@.len() - i,
    {
        let ghost before = names@.map_values(|n: String| n@);
        names.push(stocks[i].industry_type.clone());
        assert(names@.map_values(|n: String| n@) =~= before.push(stocks@[i as int].industry_type@));
        assert(industries_of(enriched_views(stocks@)).take(i + 1) =~= industries_of(enriched_views(stocks@)).take(
            i as int,
        ).push(stocks@[i as int].industry_type@));
        i = i + 1;
    }
    assert(industries_of(enriched_views(stocks@)).take(stocks@.len() as int) =~= industries_of(
        enriched_views(stocks@),
    ));
    names
}

/// Each industry with its number of companies, the largest first.
pub fn industry_tally(stocks: &Vec<EnrichedStock>) -> (res: Vec<NameCount>)
    ensures
        is_tally(count_views(res@), industries_of(enriched_views(stocks@))),
{
    let names = industry_strings(stocks);
    tally(&names)
}

/// Lines of industry and count.
pub open spec fn distribution_lines(c: Seq<(Seq<char>, nat)>) -> Seq<char>
    decreases c.len(),
{
    if c.len() == 0 {
        seq![]
    } else {
        distribution_lines(c.drop_last()) + "  - "@ + c.last().0 + ": "@ + decimal(c.last().1) + " 家\n"@
    }
}

/// The lines of the ten largest industries of `counts`.
pub fn industry_distribution(counts: &Vec<NameCount>) -> (res: String)
    ensures
        res@ == distribution_lines(if count_views(counts@).len() > 10 {
            count_views(counts@).take(10)
        } else {
            count_views(counts@)
        }),
{
    let ghost cv = count_views(counts@);
    let mut out = String::new();
    let mut i: usize = 0;
    while i < counts.len() && i < 10
        invariant
            i <= counts@.len(),
            i <= 10,
            cv == count_views(counts@),
            out@ == distribution_lines(cv.take(i as int)),
        decreases counts@.len() - i,
    {
        assert(cv.take(i + 1).drop_last() =~= cv.take(i as int));
        assert(cv.take(i + 1).last() == cv[i as int]);
        out.append("  - ");
        out.append(counts[i].name.as_str());
        out.append(": ");
        push_decimal(&mut out, counts[i].count);
        out.append(" 家\n");
        i = i + 1;
    }
    assert(i == counts@.len() ==> cv.take(i as int) =~= cv);
    out
}

/// The products shown for a company: its main products joined with `sep`,
/// or its product description where it has no main products.
pub open spec fn products_text(s: EnrichedView, sep: Seq<char>) -> Seq<char> {
    if s.main_products.len() == 0 {
        s.product_description
    } else {
        join(s.main_products, sep)
    }
}

/// The products shown for `s`, joined with `sep`.
fn products_of(s: &EnrichedStock, sep: &str) -> (res: String)
    ensures
        res@ == products_text(s@, sep@),
{
    if s.main_products.len() == 0 {
        s.product_description.clone()
    } else {
        let pieces = chars_of_all(&s.main_products);
        let sv = chars_of(sep);
        let joined = join_chars(&pieces, sv.as_slice());
        string_of(joined.as_slice())
    }
}

/// The web site cell of the table: a link, or `N/A` where there is no site.
pub open spec fn table_link(s: EnrichedView) -> Seq<char> {
    if s.website.len() == 0 {
        "N/A"@
    } else {
        "<a href=\""@
        + s.website
        + "\" target=\"_blank\">官網</a>"@
    }
}

/// The style class of a company's market: `listed` for the main board,
/// `otc` otherwise.
pub open spec fn market_class(s: EnrichedView) -> Seq<char> {
    if s.market_type == "上市"@ {
        "listed"@
    } else {
        "otc"@
    }
}

/// A row of the table.
pub open spec fn table_row(s: EnrichedView) -> Seq<char> {
    "            <tr>\n                <td>"@
        + s.code
        + "</td>\n                <td>"@
        + s.name
        + "</td>\n                <td>"@
        + s.english_name
        + "</td>\n                <td class=\""@
        + market_class(s)
        + "\">"@
        + s.market_type
        + "</td>\n                <td>"@
        + s.industry_type
        + "</td>\n                <td>"@
        + s.listing_date
        + "</td>\n                <td>"@
        + table_link(s)
        + "</td>\n                <td>"@
        + products_text(s, ", "@)
        + "</td>\n            </tr>\n"@
}

/// The rows of the table.
pub open spec fn table_rows(s: Seq<EnrichedView>) -> Seq<char>
    decreases s.len(),
{
    if s.len() == 0 {
        seq![]
    } else {
        table_rows(s.drop_last()) + table_row(s.last())
    }
}

/// The HTML table of the companies: a summary of the counts, then one row per company.
pub open spec fn table_report(s: Seq<EnrichedView>) -> Seq<char> {
    "<!DOCTYPE html>\n<html lang=\"zh-TW\">\n<head>\n    <meta charset=\"UTF-8\">\n    <meta name=\"viewport\" content=\"width=device-width, initial-scale=1.0\">\n    <title>台灣上市上櫃股票資訊</title>\n    <style>\n        body { font-family: Arial, sans-serif; margin: 20px; background: #f5f5f5; }\n        h1 { color: #333; text-align: center; }\n        .summary { background: white; padding: 15px; border-radius: 5px; margin-bottom: 20px; }\n        table { width: 100%; border-collapse: collapse; background: white; }\n        th { background: #2c3e50; color: white; padding: 10px; text-align: left; }\n        td { padding: 10px; border-bottom: 1px solid #ddd; }\n        tr:hover { background: #f9f9f9; }\n        .listed { color: #27ae60; font-weight: bold; }\n        .otc { color: #e74c3c; font-weight: bold; }\n        a { color: #3498db; text-decoration: none; }\n        a:hover { text-decoration: underline; }\n    </style>\n</head>\n<body>\n    <h1>台灣上市上櫃股票資訊</h1>\n"@ + "    <div class=\"summary\">\n        <p><strong>總計:</strong> "@
        + decimal(s.len())
        + " 筆股票</p>\n        <p><strong>上市:</strong> "@
        + decimal(market_count(s, "上市"@))
        + " 筆 | <strong>上櫃:</strong> "@
        + decimal(market_count(s, "上櫃"@))
        + " 筆</p>\n    </div>\n    <table>\n        <thead>\n            <tr>\n                <th>代碼</th>\n                <th>公司名稱</th>\n                <th>英文名稱</th>\n                <th>市場</th>\n                <th>產業</th>\n                <th>上市日期</th>\n                <th>網站</th>\n                <th>主要產品</th>\n            </tr>\n        </thead>\n        <tbody>\n"@ + table_rows(s) + "        </tbody>\n    </table>\n</body>\n</html>\n"@
}

/// The summary of the HTML table: the number of companies, of main-board
/// companies and of OTC companies.
pub open spec fn table_summary_html(total: nat, listed: nat, otc: nat) -> Seq<char> {
    "    <div class=\"summary\">\n        <p><strong>總計:</strong> "@
        + decimal(total)
        + " 筆股票</p>\n        <p><strong>上市:</strong> "@
        + decimal(listed)
        + " 筆 | <strong>上櫃:</strong> "@
        + decimal(otc)
        + " 筆</p>\n    </div>\n    <table>\n        <thead>\n            <tr>\n                <th>代碼</th>\n                <th>公司名稱</th>\n                <th>英文名稱</th>\n                <th>市場</th>\n                <th>產業</th>\n                <th>上市日期</th>\n                <th>網站</th>\n                <th>主要產品</th>\n            </tr>\n        </thead>\n        <tbody>\n"@
}

/// The HTML table states how many companies it lists, and how many of them
/// are on the main board (上市) and on the OTC market (上櫃).
pub proof fn law_table_report_counts(s: Seq<EnrichedView>)
    ensures
        contains(table_report(s), table_summary_html(s.len(), market_count(s, "上市"@), market_count(s, "上櫃"@))),
{
    let head = "<!DOCTYPE html>\n<html lang=\"zh-TW\">\n<head>\n    <meta charset=\"UTF-8\">\n    <meta name=\"viewport\" content=\"width=device-width, initial-scale=1.0\">\n    <title>台灣上市上櫃股票資訊</title>\n    <style>\n        body { font-family: Arial, sans-serif; margin: 20px; background: #f5f5f5; }\n        h1 { color: #333; text-align: center; }\n        .summary { background: white; padding: 15px; border-radius: 5px; margin-bottom: 20px; }\n        table { width: 100%; border-collapse: collapse; background: white; }\n        th { background: #2c3e50; color: white; padding: 10px; text-align: left; }\n        td { padding: 10px; border-bottom: 1px solid #ddd; }\n        tr:hover { background: #f9f9f9; }\n        .listed { color: #27ae60; font-weight: bold; }\n        .otc { color: #e74c3c; font-weight: bold; }\n        a { color: #3498db; text-decoration: none; }\n        a:hover { text-decoration: underline; }\n    </style>\n</head>\n<body>\n    <h1>台灣上市上櫃股票資訊</h1>\n"@;
    let summary = table_summary_html(s.len(), market_count(s, "上市"@), market_count(s, "上櫃"@));
    let tail = table_rows(s) + "        </tbody>\n    </table>\n</body>\n</html>\n"@;
    assert(table_report(s) =~= head + summary + tail);
    lemma_contains_middle(head, summary, tail);
}

/// Appends the row of `s`.
#[verifier::rlimit(40)]
fn push_table_row(out: &mut String, s: &EnrichedStock)
    ensures
        final(out)@ == old(out)@ + table_row(s@),
{
    let class = if equal_str(s.market_type.as_str(), "上市") { "listed" } else { "otc" };
    let link = if s.website.as_str().is_empty() {
        String::from_str("N/A")
    } else {
        let mut out = String::new();
        out.append("<a href=\"");
        out.append(s.website.as_str());
        out.append("\" target=\"_blank\">官網</a>");
        out
    };
    let products = products_of(s, ", ");
    out.append("            <tr>\n                <td>");
    out.append(s.code.as_str());
    out.append("</td>\n                <td>");
    out.append(s.name.as_str());
    out.append("</td>\n                <td>");
    out.append(s.english_name.as_str());
    out.append("</td>\n                <td class=\"");
    out.append(class);
    out.append("\">");
    out.append(s.market_type.as_str());
    out.append("</td>\n                <td>");
    out.append(s.industry_type.as_str());
    out.append("</td>\n                <td>");
    out.append(s.listing_date.as_str());
    out.append("</td>\n                <td>");
    out.append(link.as_str());
    out.append("</td>\n                <td>");
    out.append(products.as_str());
    out.append("</td>\n            </tr>\n");
}

/// The companies as an HTML table: how many there are on each market, then
/// one row per company with its code, names, market, industry, listing date,
/// web site and products.
pub fn generate_html(stocks: &Vec<EnrichedStock>) -> (res: String)
    ensures
        res@ == table_report(enriched_views(stocks@)),
{
    let ghost s = enriched_views(stocks@);
    let listed = count_in_market(stocks, "上市");
    let otc = count_in_market(stocks, "上櫃");
    let mut out = String::from_str("<!DOCTYPE html>\n<html lang=\"zh-TW\">\n<head>\n    <meta charset=\"UTF-8\">\n    <meta name=\"viewport\" content=\"width=device-width, initial-scale=1.0\">\n    <title>台灣上市上櫃股票資訊</title>\n    <style>\n        body { font-family: Arial, sans-serif; margin: 20px; background: #f5f5f5; }\n        h1 { color: #333; text-align: center; }\n        .summary { background: white; padding: 15px; border-radius: 5px; margin-bottom: 20px; }\n        table { width: 100%; border-collapse: collapse; background: white; }\n        th { background: #2c3e50; color: white; padding: 10px; text-align: left; }\n        td { padding: 10px; border-bottom: 1px solid #ddd; }\n        tr:hover { background: #f9f9f9; }\n        .listed { color: #27ae60; font-weight: bold; }\n        .otc { color: #e74c3c; font-weight: bold; }\n        a { color: #3498db; text-decoration: none; }\n        a:hover { text-decoration: underline; }\n    </style>\n</head>\n<body>\n    <h1>台灣上市上櫃股票資訊</h1>\n");
    out.append("    <div class=\"summary\">\n        <p><strong>總計:</strong> ");
    push_decimal(&mut out, stocks.len());
    out.append(" 筆股票</p>\n        <p><strong>上市:</strong> ");
    push_decimal(&mut out, listed);
    out.append(" 筆 | <strong>上櫃:</strong> ");
    push_decimal(&mut out, otc);
    out.append(" 筆</p>\n    </div>\n    <table>\n        <thead>\n            <tr>\n                <th>代碼</th>\n                <th>公司名稱</th>\n                <th>英文名稱</th>\n                <th>市場</th>\n                <th>產業</th>\n                <th>上市日期</th>\n                <th>網站</th>\n                <th>主要產品</th>\n            </tr>\n        </thead>\n        <tbody>\n");
    let mut i: usize = 0;
    let ghost head = out@;
    while i < stocks.len()
        invariant
            i <= stocks@.len(),
            s == enriched_views(stocks@),
            out@ == head + table_rows(s.take(i as int)),
        decreases stocks@.len() - i,
    {
        assert(s.take(i + 1).drop_last() =~= s.take(i as int));
        assert(s.take(i + 1).last() == stocks@[i as int]@);
        push_table_row(&mut out, &stocks[i]);
        i = i + 1;
    }
    assert(s.take(stocks@.len() as int) =~= s);
    out.append("        </tbody>\n    </table>\n</body>\n</html>\n");
    out
}

/// A line of the CSV file: every field quoted, the quotes inside the
/// products doubled.
pub open spec fn csv_row(s: EnrichedView) -> Seq<char> {
    "\""@ + s.code + "\",\""@ + s.name + "\",\""@ + s.english_name + "\",\""@ + s.market_type + "\",\""@
        + s.industry_type + "\",\""@ + s.listing_date + "\",\""@ + s.website + "\",\""@ + replace_all(
        products_text(s, "; "@),
        "\""@,
        "\"\""@,
    ) + "\"\n"@
}

/// The lines of the CSV file.
pub open spec fn csv_rows(s: Seq<EnrichedView>) -> Seq<char>
    decreases s.len(),
{
    if s.len() == 0 {
        seq![]
    } else {
        csv_rows(s.drop_last()) + csv_row(s.last())
    }
}

/// The CSV file of the companies: a header line, then one line per company.
pub open spec fn csv_report(s: Seq<EnrichedView>) -> Seq<char> {
    "代碼,公司名稱,英文名稱,市場,產業,上市日期,網站,主要產品\n"@ + csv_rows(s)
}

/// Appends the CSV line of `st`.
fn push_csv_row(out: &mut String, st: &EnrichedStock)
    ensures
        final(out)@ == old(out)@ + csv_row(st@),
{
    let products = products_of(st, "; ");
    let pc = chars_of(products.as_str());
    let escaped = replace_str(pc.as_slice(), "\"", "\"\"");
    let es = string_of(escaped.as_slice());
    out.append("\"");
    out.append(st.code.as_str());
    out.append("\",\"");
    out.append(st.name.as_str());
    out.append("\",\"");
    out.append(st.english_name.as_str());
    out.append("\",\"");
    out.append(st.market_type.as_str());
    out.append("\",\"");
    out.append(st.industry_type.as_str());
    out.append("\",\"");
    out.append(st.listing_date.as_str());
    out.append("\",\"");
    out.append(st.website.as_str());
    out.append("\",\"");
    out.append(es.as_str());
    out.append("\"\n");
}

/// The companies as CSV: code, names, market, industry, listing date, web
/// site and products, each quoted.
pub fn generate_csv(stocks: &Vec<EnrichedStock>) -> (res: String)
    ensures
        res@ == csv_report(enriched_views(stocks@)),
{
    let ghost s = enriched_views(stocks@);
    let mut out = String::from_str("代碼,公司名稱,英文名稱,市場,產業,上市日期,網站,主要產品\n");
    let ghost head = out@;
    let mut i: usize = 0;
    while i < stocks.len()
        invariant
            i <= stocks@.len(),
            s == enriched_views(stocks@),
            out@ == head + csv_rows(s.take(i as int)),
        decreases stocks@.len() - i,
    {
        assert(s.take(i + 1).drop_last() =~= s.take(i as int));
        assert(s.take(i + 1).last() == stocks@[i as int]@);
        push_csv_row(&mut out, &stocks[i]);
        i = i + 1;
    }
    assert(s.take(stocks@.len() as int) =~= s);
    out
}

/// The web site link of a card: none where the site is empty or recorded as
/// `no website`.
pub open spec fn card_link(s: EnrichedView) -> Seq<char> {
    if s.website.len() == 0 || s.website == "no website"@ {
        seq![]
    } else {
        "<a href=\""@
        + s.website
        + "\" target=\"_blank\" class=\"stock-link\">🌐 官網</a>"@
    }
}

/// The card of a company in the grouped report.
pub open spec fn card(s: EnrichedView) -> Seq<char> {
    "                    <div class=\"stock-card\">\n                        <div class=\"stock-code\">"@
        + s.code
        + "</div>\n                        <div class=\"stock-name\">"@
        + s.name
        + "</div>\n                        <div class=\"stock-info\">上市日期: "@
        + s.listing_date
        + "</div>\n                        <div class=\"stock-info\">國際代碼: "@
        + s.international_code
        + "</div>\n                        <div class=\"stock-info\" style=\"color: #667eea; font-weight: bold; margin-top: 10px; font-size: 0.85em;\">"@
        + products_text(s, ", "@)
        + "</div>\n                        <div style=\"margin-top: 10px;\">\n                            "@
        + card_link(s)
        + "\n                            <a href=\"https://tw.stock.yahoo.com/quote/"@
        + s.code
        + ".TW\" target=\"_blank\" class=\"stock-link\">📊 Yahoo</a>\n                            <a href=\"https://goodinfo.tw/tw/StockDetail.asp?STOCK_ID="@
        + s.code
        + "\" target=\"_blank\" class=\"stock-link\">📈 GoodInfo</a>\n                        </div>\n                    </div>\n"@
}

/// The cards of the companies.
pub open spec fn cards(s: Seq<EnrichedView>) -> Seq<char>
    decreases s.len(),
{
    if s.len() == 0 {
        seq![]
    } else {
        cards(s.drop_last()) + card(s.last())
    }
}

/// The companies of `s` in market `m`, in order.
pub open spec fn in_market(s: Seq<EnrichedView>, m: Seq<char>) -> Seq<EnrichedView>
    decreases s.len(),
{
    if s.len() == 0 {
        seq![]
    } else {
        let before = in_market(s.drop_last(), m);
        if s.last().market_type == m {
            before.push(s.last())
        } else {
            before
        }
    }
}

/// The companies of `s` in industry `ind`, in order.
pub open spec fn of_industry(s: Seq<EnrichedView>, ind: Seq<char>) -> Seq<EnrichedView>
    decreases s.len(),
{
    if s.len() == 0 {
        seq![]
    } else {
        let before = of_industry(s.drop_last(), ind);
        if s.last().industry_type == ind {
            before.push(s.last())
        } else {
            before
        }
    }
}

/// The section of an industry's main-board companies (empty where it has none).
pub open spec fn listed_section(industry: Seq<char>, members: Seq<EnrichedView>) -> Seq<char> {
    if members.len() == 0 {
        seq![]
    } else {
        "            <div class=\"industry-section\">\n                <div class=\"industry-header\" onclick=\"toggleIndustry(this)\">\n                    <span>"@
        + industry
        + " (上市)</span>\n                    <span>"@
        + decimal(members.len())
        + " 家 ▼</span>\n                </div>\n                <div class=\"stocks-grid\">\n"@ + cards(members) + "                </div>\n            </div>\n"@
    }
}

/// The section of an industry's OTC companies (empty where it has none).
pub open spec fn otc_section(industry: Seq<char>, members: Seq<EnrichedView>) -> Seq<char> {
    if members.len() == 0 {
        seq![]
    } else {
        "            <div class=\"industry-section\">\n                <div class=\"industry-header\" onclick=\"toggleIndustry(this)\">\n                    <span>"@
        + industry
        + " (上櫃)</span>\n                    <span>"@
        + decimal(members.len())
        + " 家 ▼</span>\n                </div>\n                <div class=\"stocks-grid\">\n"@ + cards(members) + "                </div>\n            </div>\n"@
    }
}

/// The two sections of an industry.
pub open spec fn industry_sections(s: Seq<EnrichedView>, industry: Seq<char>) -> Seq<char> {
    listed_section(industry, in_market(of_industry(s, industry), "上市"@)) + otc_section(
        industry,
        in_market(of_industry(s, industry), "上櫃"@),
    )
}

/// The sections of the industries `order`, in that order.
pub open spec fn sections_in_order(s: Seq<EnrichedView>, order: Seq<Seq<char>>) -> Seq<char>
    decreases order.len(),
{
    if order.len() == 0 {
        seq![]
    } else {
        sections_in_order(s, order.drop_last()) + industry_sections(s, order.last())
    }
}

/// The number of main-board companies of an industry.
pub open spec fn listed_in_industry(s: Seq<EnrichedView>, industry: Seq<char>) -> nat {
    in_market(of_industry(s, industry), "上市"@).len()
}

/// The report grouped by industry, with the industries in the order `order`.
pub open spec fn grouped_report(s: Seq<EnrichedView>, order: Seq<Seq<char>>) -> Seq<char> {
    "<!DOCTYPE html>\n<html lang=\"zh-TW\">\n<head>\n    <meta charset=\"UTF-8\">\n    <meta name=\"viewport\" content=\"width=device-width, initial-scale=1.0\">\n    <title>台灣上市上櫃股票資訊</title>\n    <style>\n        * { margin: 0; padding: 0; box-sizing: border-box; }\n        body {\n            font-family: \"Microsoft JhengHei\", Arial, sans-serif;\n            background: linear-gradient(135deg, #667eea 0%, #764ba2 100%);\n            padding: 20px;\n        }\n        .container {\n            max-width: 1400px;\n            margin: 0 auto;\n            background: white;\n            border-radius: 20px;\n            box-shadow: 0 20px 60px rgba(0, 0, 0, 0.3);\n            overflow: hidden;\n        }\n        header {\n            background: linear-gradient(135deg, #667eea 0%, #764ba2 100%);\n            color: white;\n            padding: 40px;\n            text-align: center;\n        }\n        h1 { font-size: 2.5em; margin-bottom: 10px; }\n        .stats {\n            display: flex;\n            justify-content: center;\n            gap: 40px;\n            margin-top: 20px;\n        }\n        .stat-number { font-size: 2em; font-weight: bold; }\n        .content { padding: 40px; }\n        .industry-section {\n            margin-bottom: 40px;\n            border: 2px solid #e0e0e0;\n            border-radius: 15px;\n            overflow: hidden;\n        }\n        .industry-header {\n            background: linear-gradient(135deg, #667eea 0%, #764ba2 100%);\n            color: white;\n            padding: 20px 30px;\n            cursor: pointer;\n            display: flex;\n            justify-content: space-between;\n        }\n        .stocks-grid {\n            display: grid;\n            grid-template-columns: repeat(auto-fill, minmax(300px, 1fr));\n            gap: 20px;\n            padding: 30px;\n            background: #f8f9fa;\n        }\n        .stock-card {\n            background: white;\n            border-radius: 10px;\n            padding: 20px;\n            box-shadow: 0 2px 10px rgba(0, 0, 0, 0.1);\n            border-left: 4px solid #667eea;\n        }\n        .stock-code { font-size: 1.3em; font-weight: bold; color: #667eea; }\n        .stock-name { font-size: 1.1em; font-weight: bold; margin: 5px 0; }\n        .stock-info { margin: 5px 0; font-size: 0.9em; color: #666; }\n        .stock-link {\n            display: inline-block;\n            padding: 6px 12px;\n            background: linear-gradient(135deg, #667eea 0%, #764ba2 100%);\n            color: white;\n            text-decoration: none;\n            border-radius: 5px;\n            font-size: 0.85em;\n            margin: 5px 5px 0 0;\n        }\n        .stock-link:hover { opacity: 0.8; }\n        .collapsed .stocks-grid { display: none; }\n        footer { background: #f8f9fa; padding: 20px; text-align: center; color: #666; }\n    </style>\n    <script>\n        function toggleIndustry(element) {\n            element.closest('.industry-section').classList.toggle('collapsed');\n        }\n    </script>\n</head>\n<body>\n    <div class=\"container\">\n        <header>\n            <h1>🏢 台灣上市上櫃股票資訊</h1>\n            <p>Taiwan Listed & OTC Stocks - Complete Information</p>\n            <div class=\"stats\">\n"@ + "                <div class=\"stat-item\">\n                    <span class=\"stat-number\">"@
        + decimal(s.len())
        + "</span>\n                    <span class=\"stat-label\">家公司</span>\n                </div>\n                <div class=\"stat-item\">\n                    <span class=\"stat-number\">"@
        + decimal(distinct_in_order(industries_of(s)).len())
        + "</span>\n                    <span class=\"stat-label\">個產業</span>\n                </div>\n            </div>\n        </header>\n        <div class=\"content\">\n"@ + sections_in_order(s, order) + "        </div>\n        <footer>\n            <p>資料最後更新時間: 2026-01-29 | 台灣上市上櫃股票完整資訊</p>\n        </footer>\n    </div>\n</body>\n</html>\n"@
}

/// The industries of the companies of `s`.
pub open spec fn industry_set(s: Seq<EnrichedView>) -> Set<Seq<char>> {
    Set::new(|ind: Seq<char>| exists|i: int| 0 <= i < s.len() && #[trigger] s[i].industry_type == ind)
}

/// The header statistics of the grouped report: the number of companies,
/// then the number of industries.
pub open spec fn grouped_stats_html(companies: nat, industries: nat) -> Seq<char> {
    "                <div class=\"stat-item\">\n                    <span class=\"stat-number\">"@ + decimal(companies)
        + "</span>\n                    <span class=\"stat-label\">家公司</span>\n                </div>\n                <div class=\"stat-item\">\n                    <span class=\"stat-number\">"@
        + decimal(industries)
        + "</span>\n                    <span class=\"stat-label\">個產業</span>\n                </div>\n            </div>\n        </header>\n        <div class=\"content\">\n"@
}

/// The grouped report states, in its header, the number of companies and,
/// before 個產業, the number of different industries among them.
pub proof fn law_grouped_report_header_counts(s: Seq<EnrichedView>, order: Seq<Seq<char>>)
    ensures
        industry_set(s).finite(),
        contains(grouped_report(s, order), grouped_stats_html(s.len(), industry_set(s).len())),
{
    let names = industries_of(s);
    law_distinct_names_are_the_names(names);
    assert forall|ind: Seq<char>| #[trigger] industry_set(s).contains(ind) <==> names.to_set().contains(ind) by {
        if industry_set(s).contains(ind) {
            let i = choose|i: int| 0 <= i < s.len() && #[trigger] s[i].industry_type == ind;
            assert(names[i] == ind);
        }
        if names.to_set().contains(ind) {
            let i = choose|i: int| 0 <= i < names.len() && names[i] == ind;
            assert(s[i].industry_type == ind);
        }
    }
    assert(industry_set(s) =~= names.to_set());
    let head = "<!DOCTYPE html>\n<html lang=\"zh-TW\">\n<head>\n    <meta charset=\"UTF-8\">\n    <meta name=\"viewport\" content=\"width=device-width, initial-scale=1.0\">\n    <title>台灣上市上櫃股票資訊</title>\n    <style>\n        * { margin: 0; padding: 0; box-sizing: border-box; }\n        body {\n            font-family: \"Microsoft JhengHei\", Arial, sans-serif;\n            background: linear-gradient(135deg, #667eea 0%, #764ba2 100%);\n            padding: 20px;\n        }\n        .container {\n            max-width: 1400px;\n            margin: 0 auto;\n            background: white;\n            border-radius: 20px;\n            box-shadow: 0 20px 60px rgba(0, 0, 0, 0.3);\n            overflow: hidden;\n        }\n        header {\n            background: linear-gradient(135deg, #667eea 0%, #764ba2 100%);\n            color: white;\n            padding: 40px;\n            text-align: center;\n        }\n        h1 { font-size: 2.5em; margin-bottom: 10px; }\n        .stats {\n            display: flex;\n            justify-content: center;\n            gap: 40px;\n            margin-top: 20px;\n        }\n        .stat-number { font-size: 2em; font-weight: bold; }\n        .content { padding: 40px; }\n        .industry-section {\n            margin-bottom: 40px;\n            border: 2px solid #e0e0e0;\n            border-radius: 15px;\n            overflow: hidden;\n        }\n        .industry-header {\n            background: linear-gradient(135deg, #667eea 0%, #764ba2 100%);\n            color: white;\n            padding: 20px 30px;\n            cursor: pointer;\n            display: flex;\n            justify-content: space-between;\n        }\n        .stocks-grid {\n            display: grid;\n            grid-template-columns: repeat(auto-fill, minmax(300px, 1fr));\n            gap: 20px;\n            padding: 30px;\n            background: #f8f9fa;\n        }\n        .stock-card {\n            background: white;\n            border-radius: 10px;\n            padding: 20px;\n            box-shadow: 0 2px 10px rgba(0, 0, 0, 0.1);\n            border-left: 4px solid #667eea;\n        }\n        .stock-code { font-size: 1.3em; font-weight: bold; color: #667eea; }\n        .stock-name { font-size: 1.1em; font-weight: bold; margin: 5px 0; }\n        .stock-info { margin: 5px 0; font-size: 0.9em; color: #666; }\n        .stock-link {\n            display: inline-block;\n            padding: 6px 12px;\n            background: linear-gradient(135deg, #667eea 0%, #764ba2 100%);\n            color: white;\n            text-decoration: none;\n            border-radius: 5px;\n            font-size: 0.85em;\n            margin: 5px 5px 0 0;\n        }\n        .stock-link:hover { opacity: 0.8; }\n        .collapsed .stocks-grid { display: none; }\n        footer { background: #f8f9fa; padding: 20px; text-align: center; color: #666; }\n    </style>\n    <script>\n        function toggleIndustry(element) {\n            element.closest('.industry-section').classList.toggle('collapsed');\n        }\n    </script>\n</head>\n<body>\n    <div class=\"container\">\n        <header>\n            <h1>🏢 台灣上市上櫃股票資訊</h1>\n            <p>Taiwan Listed & OTC Stocks - Complete Information</p>\n            <div class=\"stats\">\n"@;
    let stats = grouped_stats_html(s.len(), distinct_in_order(names).len());
    let tail = sections_in_order(s, order) + "        </div>\n        <footer>\n            <p>資料最後更新時間: 2026-01-29 | 台灣上市上櫃股票完整資訊</p>\n        </footer>\n    </div>\n</body>\n</html>\n"@;
    assert(grouped_report(s, order) =~= head + stats + tail);
    lemma_contains_middle(head, stats, tail);
}

/// The industries of `s` in the order `perm`.
pub open spec fn industries_in(s: Seq<EnrichedView>, perm: Seq<usize>) -> Seq<Seq<char>> {
    perm.map_values(|g: usize| distinct_in_order(industries_of(s))[g as int])
}

/// The companies of `s` in market `m`.
fn select_market(s: &Vec<EnrichedStock>, m: &str) -> (res: Vec<EnrichedStock>)
    ensures
        enriched_views(res@) == in_market(enriched_views(s@), m@),
{
    let ghost sv = enriched_views(s@);
    let mut out: Vec<EnrichedStock> = Vec::new();
    let mut i: usize = 0;
    while i < s.len()
        invariant
            i <= s@.len(),
            sv == enriched_views(s@),
            enriched_views(out@) == in_market(sv.take(i as int), m@),
        decreases s@.len() - i,
    {
        assert(sv.take(i + 1).drop_last() =~= sv.take(i as int));
        assert(sv.take(i + 1).last() == s@[i as int]@);
        if equal_str(s[i].market_type.as_str(), m) {
            let ghost before = out@;
            out.push(s[i].copy());
            assert(enriched_views(out@) =~= enriched_views(before).push(s@[i as int]@));
        }
        i = i + 1;
    }
    assert(sv.take(s@.len() as int) =~= sv);
    out
}

/// The companies of `s` in industry `ind`.
fn select_industry(s: &Vec<EnrichedStock>, ind: &str) -> (res: Vec<EnrichedStock>)
    ensures
        enriched_views(res@) == of_industry(enriched_views(s@), ind@),
{
    let ghost sv = enriched_views(s@);
    let mut out: Vec<EnrichedStock> = Vec::new();
    let mut i: usize = 0;
    while i < s.len()
        invariant
            i <= s@.len(),
            sv == enriched_views(s@),
            enriched_views(out@) == of_industry(sv.take(i as int), ind@),
        decreases s@.len() - i,
    {
        assert(sv.take(i + 1).drop_last() =~= sv.take(i as int));
        assert(sv.take(i + 1).last() == s@[i as int]@);
        if equal_str(s[i].industry_type.as_str(), ind) {
            let ghost before = out@;
            out.push(s[i].copy());
            assert(enriched_views(out@) =~= enriched_views(before).push(s@[i as int]@));
        }
        i = i + 1;
    }
    assert(sv.take(s@.len() as int) =~= sv);
    out
}

/// Appends the card of `s`.
fn push_card(out: &mut String, s: &EnrichedStock)
    ensures
        final(out)@ == old(out)@ + card(s@),
{
    let link = if s.website.as_str().is_empty() || equal_str(s.website.as_str(), "no website") {
        String::new()
    } else {
        let mut out = String::new();
        out.append("<a href=\"");
        out.append(s.website.as_str());
        out.append("\" target=\"_blank\" class=\"stock-link\">🌐 官網</a>");
        out
    };
    let products = products_of(s, ", ");
    out.append("                    <div class=\"stock-card\">\n                        <div class=\"stock-code\">");
    out.append(s.code.as_str());
    out.append("</div>\n                        <div class=\"stock-name\">");
    out.append(s.name.as_str());
    out.append("</div>\n                        <div class=\"stock-info\">上市日期: ");
    out.append(s.listing_date.as_str());
    out.append("</div>\n                        <div class=\"stock-info\">國際代碼: ");
    out.append(s.international_code.as_str());
    out.append("</div>\n                        <div class=\"stock-info\" style=\"color: #667eea; font-weight: bold; margin-top: 10px; font-size: 0.85em;\">");
    out.append(products.as_str());
    out.append("</div>\n                        <div style=\"margin-top: 10px;\">\n                            ");
    out.append(link.as_str());
    out.append("\n                            <a href=\"https://tw.stock.yahoo.com/quote/");
    out.append(s.code.as_str());
    out.append(".TW\" target=\"_blank\" class=\"stock-link\">📊 Yahoo</a>\n                            <a href=\"https://goodinfo.tw/tw/StockDetail.asp?STOCK_ID=");
    out.append(s.code.as_str());
    out.append("\" target=\"_blank\" class=\"stock-link\">📈 GoodInfo</a>\n                        </div>\n                    </div>\n");
}

/// Appends the cards of `members`.
fn push_cards(out: &mut String, members: &Vec<EnrichedStock>)
    ensures
        final(out)@ == old(out)@ + cards(enriched_views(members@)),
{
    let ghost mv = enriched_views(members@);
    let mut i: usize = 0;
    while i < members.len()
        invariant
            i <= members@.len(),
            mv == enriched_views(members@),
            out@ == old(out)@ + cards(mv.take(i as int)),
        decreases members@.len() - i,
    {
        assert(mv.take(i + 1).drop_last() =~= mv.take(i as int));
        assert(mv.take(i + 1).last() == members@[i as int]@);
        push_card(out, &members[i]);
        i = i + 1;
    }
    assert(mv.take(members@.len() as int) =~= mv);
}

/// Appends the main-board section of industry `industry` with its `members`.
fn push_listed_section(out: &mut String, industry: &str, members: &Vec<EnrichedStock>)
    ensures
        final(out)@ == old(out)@ + listed_section(industry@, enriched_views(members@)),
{
    if members.len() > 0 {
    out.append("            <div class=\"industry-section\">\n                <div class=\"industry-header\" onclick=\"toggleIndustry(this)\">\n                    <span>");
    out.append(industry);
    out.append(" (上市)</span>\n                    <span>");
    push_decimal(out, members.len());
    out.append(" 家 ▼</span>\n                </div>\n                <div class=\"stocks-grid\">\n");
        push_cards(out, members);
        out.append("                </div>\n            </div>\n");
    }
}

/// Appends the OTC section of industry `industry` with its `members`.
fn push_otc_section(out: &mut String, industry: &str, members: &Vec<EnrichedStock>)
    ensures
        final(out)@ == old(out)@ + otc_section(industry@, enriched_views(members@)),
{
    if members.len() > 0 {
    out.append("            <div class=\"industry-section\">\n                <div class=\"industry-header\" onclick=\"toggleIndustry(this)\">\n                    <span>");
    out.append(industry);
    out.append(" (上櫃)</span>\n                    <span>");
    push_decimal(out, members.len());
    out.append(" 家 ▼</span>\n                </div>\n                <div class=\"stocks-grid\">\n");
        push_cards(out, members);
        out.append("                </div>\n            </div>\n");
    }
}

/// Appends the two sections of industry `industry`.
fn push_sections(out: &mut String, stocks: &Vec<EnrichedStock>, industry: &str)
    ensures
        final(out)@ == old(out)@ + industry_sections(enriched_views(stocks@), industry@),
{
    let all = select_industry(stocks, industry);
    let listed = select_market(&all, "上市");
    push_listed_section(out, industry, &listed);
    let otc = select_market(&all, "上櫃");
    push_otc_section(out, industry, &otc);
}

/// The report grouped by industry: the number of companies and industries,
/// then for each industry, the most main-board companies first, a section of
/// its main-board companies and one of its OTC companies (each only where it
/// has some), each company as a card with its links (industries with equal
/// main-board counts in no promised order).
pub fn generate_grouped_html(stocks: &Vec<EnrichedStock>) -> (res: String)
    ensures
        exists|perm: Seq<usize>|
            #![trigger industries_in(enriched_views(stocks@), perm)]
            is_permutation(perm, distinct_in_order(industries_of(enriched_views(stocks@))).len())
                && (forall|a: int, b: int|
                0 <= a < b < perm.len() ==> listed_in_industry(
                    enriched_views(stocks@),
                    #[trigger] industries_in(enriched_views(stocks@), perm)[b],
                ) <= listed_in_industry(enriched_views(stocks@), #[trigger] industries_in(enriched_views(stocks@), perm)[a]))
                && res@ == grouped_report(enriched_views(stocks@), industries_in(enriched_views(stocks@), perm)),
{
    let ghost s = enriched_views(stocks@);
    let names = industry_strings(stocks);
    let industries = distinct_names(&names);
    let ghost dv = distinct_in_order(industries_of(s));
    let mut listed: Vec<usize> = Vec::new();
    let mut k: usize = 0;
    while k < industries.len()
        invariant
            k <= industries@.len(),
            s == enriched_views(stocks@),
            industries@.map_values(|n: String| n@) == dv,
            listed@.len() == k,
            forall|j: int| 0 <= j < k ==> #[trigger] listed@[j] == listed_in_industry(s, dv[j]),
        decreases industries@.len() - k,
    {
        let all = select_industry(stocks, industries[k].as_str());
        let members = select_market(&all, "上市");
        assert(industries@[k as int]@ == dv[k as int]);
        listed.push(members.len());
        k = k + 1;
    }
    let perm = sort_indices_by_counts_desc(&listed);
    let mut out = String::from_str("<!DOCTYPE html>\n<html lang=\"zh-TW\">\n<head>\n    <meta charset=\"UTF-8\">\n    <meta name=\"viewport\" content=\"width=device-width, initial-scale=1.0\">\n    <title>台灣上市上櫃股票資訊</title>\n    <style>\n        * { margin: 0; padding: 0; box-sizing: border-box; }\n        body {\n            font-family: \"Microsoft JhengHei\", Arial, sans-serif;\n            background: linear-gradient(135deg, #667eea 0%, #764ba2 100%);\n            padding: 20px;\n        }\n        .container {\n            max-width: 1400px;\n            margin: 0 auto;\n            background: white;\n            border-radius: 20px;\n            box-shadow: 0 20px 60px rgba(0, 0, 0, 0.3);\n            overflow: hidden;\n        }\n        header {\n            background: linear-gradient(135deg, #667eea 0%, #764ba2 100%);\n            color: white;\n            padding: 40px;\n            text-align: center;\n        }\n        h1 { font-size: 2.5em; margin-bottom: 10px; }\n        .stats {\n            display: flex;\n            justify-content: center;\n            gap: 40px;\n            margin-top: 20px;\n        }\n        .stat-number { font-size: 2em; font-weight: bold; }\n        .content { padding: 40px; }\n        .industry-section {\n            margin-bottom: 40px;\n            border: 2px solid #e0e0e0;\n            border-radius: 15px;\n            overflow: hidden;\n        }\n        .industry-header {\n            background: linear-gradient(135deg, #667eea 0%, #764ba2 100%);\n            color: white;\n            padding: 20px 30px;\n            cursor: pointer;\n            display: flex;\n            justify-content: space-between;\n        }\n        .stocks-grid {\n            display: grid;\n            grid-template-columns: repeat(auto-fill, minmax(300px, 1fr));\n            gap: 20px;\n            padding: 30px;\n            background: #f8f9fa;\n        }\n        .stock-card {\n            background: white;\n            border-radius: 10px;\n            padding: 20px;\n            box-shadow: 0 2px 10px rgba(0, 0, 0, 0.1);\n            border-left: 4px solid #667eea;\n        }\n        .stock-code { font-size: 1.3em; font-weight: bold; color: #667eea; }\n        .stock-name { font-size: 1.1em; font-weight: bold; margin: 5px 0; }\n        .stock-info { margin: 5px 0; font-size: 0.9em; color: #666; }\n        .stock-link {\n            display: inline-block;\n            padding: 6px 12px;\n            background: linear-gradient(135deg, #667eea 0%, #764ba2 100%);\n            color: white;\n            text-decoration: none;\n            border-radius: 5px;\n            font-size: 0.85em;\n            margin: 5px 5px 0 0;\n        }\n        .stock-link:hover { opacity: 0.8; }\n        .collapsed .stocks-grid { display: none; }\n        footer { background: #f8f9fa; padding: 20px; text-align: center; color: #666; }\n    </style>\n    <script>\n        function toggleIndustry(element) {\n            element.closest('.industry-section').classList.toggle('collapsed');\n        }\n    </script>\n</head>\n<body>\n    <div class=\"container\">\n        <header>\n            <h1>🏢 台灣上市上櫃股票資訊</h1>\n            <p>Taiwan Listed & OTC Stocks - Complete Information</p>\n            <div class=\"stats\">\n");
    out.append("                <div class=\"stat-item\">\n                    <span class=\"stat-number\">");
    push_decimal(&mut out, stocks.len());
    out.append("</span>\n                    <span class=\"stat-label\">家公司</span>\n                </div>\n                <div class=\"stat-item\">\n                    <span class=\"stat-number\">");
    push_decimal(&mut out, industries.len());
    out.append("</span>\n                    <span class=\"stat-label\">個產業</span>\n                </div>\n            </div>\n        </header>\n        <div class=\"content\">\n");
    let ghost head = out@;
    let mut g: usize = 0;
    while g < perm.len()
        invariant
            g <= perm@.len(),
            s == enriched_views(stocks@),
            industries@.map_values(|n: String| n@) == dv,
            dv == distinct_in_order(industries_of(s)),
            is_permutation(perm@, listed@.len()),
            listed@.len() == dv.len(),
            out@ == head + sections_in_order(s, industries_in(s, perm@.take(g as int))),
        decreases perm@.len() - g,
    {
        let j = perm[g];
        assert(perm@[g as int] < listed@.len());
        assert(industries@[j as int]@ == dv[j as int]);
        assert(perm@.take(g + 1) =~= perm@.take(g as int).push(j));
        let ghost next = industries_in(s, perm@.take(g + 1));
        assert(next.len() == g + 1);
        assert(perm@.take(g + 1)[g as int] == j);
        assert(next.last() == dv[j as int]);
        assert(next.drop_last() =~= industries_in(s, perm@.take(g as int)));
        push_sections(&mut out, stocks, industries[j].as_str());
        g = g + 1;
    }
    assert(perm@.take(perm@.len() as int) =~= perm@);
    out.append("        </div>\n        <footer>\n            <p>資料最後更新時間: 2026-01-29 | 台灣上市上櫃股票完整資訊</p>\n        </footer>\n    </div>\n</body>\n</html>\n");
    assert forall|a: int, b: int| 0 <= a < b < perm@.len() implies listed_in_industry(
        s,
        #[trigger] industries_in(s, perm@)[b],
    ) <= listed_in_industry(s, #[trigger] industries_in(s, perm@)[a]) by {
        assert(listed@[perm@[b] as int] <= listed@[perm@[a] as int]);
    }
    out
}

/// The report grouped by industry and its minified copy (`minify_html` under
/// its default configuration, applied to the report's UTF-8 bytes).
pub fn generate_grouped_reports(stocks: &Vec<EnrichedStock>) -> (res: (String, Vec<u8>))
    ensures
        res.1@ == minified(encode_utf8(res.0@)),
        exists|perm: Seq<usize>|
            #![trigger industries_in(enriched_views(stocks@), perm)]
            is_permutation(perm, distinct_in_order(industries_of(enriched_views(stocks@))).len())
                && (forall|a: int, b: int|
                0 <= a < b < perm.len() ==> listed_in_industry(
                    enriched_views(stocks@),
                    #[trigger] industries_in(enriched_views(stocks@), perm)[b],
                ) <= listed_in_industry(enriched_views(stocks@), #[trigger] industries_in(enriched_views(stocks@), perm)[a]))
                && res.0@ == grouped_report(enriched_views(stocks@), industries_in(enriched_views(stocks@), perm)),
{
    let html = generate_grouped_html(stocks);
    let small = minify(html.as_str());
    (html, small)
}

} // verus!
