use stock_crawler::company_web::google_search_url;
use stock_crawler::yfinance::profile_from_output;
use stock_crawler::stock_list::{is_ordinary, parse_stock_page, parse_stock_table, CrawledStock, StockTable};
use stock_crawler::stock_report::{generate_html, generate_markdown, group_by_industry};

fn stock(code: &str, name: &str, market: &str, industry: &str) -> CrawledStock {
    CrawledStock {
        code: code.to_string(),
        name: name.to_string(),
        market_type: market.to_string(),
        industry_type: industry.to_string(),
        listing_date: "1994/09/05".to_string(),
        international_code: format!("TW000{}008", code),
    }
}

const ISIN_PAGE: &str = "<html><body><table class=\"h4\">\
<tr><td>有價證券代號及名稱</td><td>國際證券辨識號碼(ISIN Code)</td><td>上市日</td><td>市場別</td><td>產業別</td><td>CFICode</td><td>備註</td></tr>\
<tr><td>2330\u{3000}台積電</td><td>TW0002330008</td><td>1994/09/05</td><td>上市</td><td>半導體業</td><td>ESVUFR</td><td></td></tr>\
<tr><td>2317\u{3000}鴻海</td><td>TW0002317005</td><td>1991/06/20</td><td>上市</td><td>其他電子業</td><td>ESVUFR</td><td></td></tr>\
<tr><td>股票</td></tr>\
<tr><td>00878\u{3000}國泰永續高股息</td><td>TW00000878003</td><td>2020/07/20</td><td>上市</td><td></td><td>CEOGEU</td><td></td></tr>\
</table></body></html>";

#[test]
fn ordinary_codes_are_four_digits() {
    assert!(is_ordinary("2330"));
    assert!(!is_ordinary("00878"));
    assert!(!is_ordinary("233A"));
    assert!(!is_ordinary("233"));
    assert!(!is_ordinary(""));
}

#[test]
fn isin_rows_become_stocks() {
    let table = parse_stock_table(ISIN_PAGE);
    assert_eq!(table.len(), 3);
    let codes: Vec<&str> = table.stocks().iter().map(|s| s.code.as_str()).collect();
    assert_eq!(codes, vec!["2330", "2317", "00878"]);
    let tsmc = &table.stocks()[0];
    assert_eq!(tsmc.name, "台積電");
    assert_eq!(tsmc.market_type, "上市");
    assert_eq!(tsmc.industry_type, "半導體業");
    assert_eq!(tsmc.listing_date, "1994/09/05");
    assert_eq!(tsmc.international_code, "TW0002330008");
}

#[test]
fn only_ordinary_shares_are_kept() {
    let table = parse_stock_table(ISIN_PAGE);
    let ordinary = table.ordinary();
    assert_eq!(ordinary.len(), 2);
    assert!(ordinary.stocks().iter().all(|s| is_ordinary(&s.code)));
}

#[test]
fn a_page_without_the_table_has_no_stocks() {
    assert_eq!(parse_stock_table("<html><body><p>maintenance</p></body></html>").len(), 0);
}

#[test]
fn big5_pages_are_decoded() {
    let (bytes, _, _) = encoding_rs::BIG5.encode(ISIN_PAGE);
    let table = parse_stock_page(&bytes);
    assert_eq!(table.len(), 3);
    assert_eq!(table.stocks()[1].name, "鴻海");
    assert_eq!(parse_stock_page(b"<html><body>plain ascii</body></html>").len(), 0);
}

#[test]
fn insert_replaces_the_stock_of_a_code() {
    let mut t = StockTable::new();
    t.insert(stock("2330", "台積電", "上市", "半導體業"));
    t.insert(stock("2317", "鴻海", "上市", "其他電子業"));
    t.insert(stock("2330", "TSMC", "上市", "半導體業"));
    assert_eq!(t.len(), 2);
    assert_eq!(t.stocks()[0].name, "TSMC");
}

#[test]
fn extend_prefers_the_later_table() {
    let mut a = StockTable::new();
    a.insert(stock("1101", "台泥", "上市", "水泥工業"));
    a.insert(stock("2330", "台積電", "上市", "半導體業"));
    let mut b = StockTable::new();
    b.insert(stock("2330", "台積電新", "上市", "半導體業"));
    b.insert(stock("6488", "環球晶", "上櫃", "半導體業"));
    a.extend(b);
    assert_eq!(a.len(), 3);
    let names: Vec<&str> = a.stocks().iter().map(|s| s.name.as_str()).collect();
    assert!(names.contains(&"台積電新"));
    assert!(!names.contains(&"台積電"));
}

#[test]
fn grouping_orders_headings_and_codes() {
    let mut t = StockTable::new();
    t.insert(stock("2454", "聯發科", "上市", "半導體業"));
    t.insert(stock("2330", "台積電", "上市", "半導體業"));
    t.insert(stock("6488", "環球晶", "上櫃", "半導體業"));
    t.insert(stock("1101", "台泥", "上市", "水泥工業"));
    let groups = group_by_industry(&t);
    let names: Vec<&str> = groups.iter().map(|g| g.name.as_str()).collect();
    assert_eq!(names, vec!["半導體業 (上市)", "半導體業 (上櫃)", "水泥工業 (上市)"]);
    let codes: Vec<&str> = groups[0].stocks.iter().map(|s| s.code.as_str()).collect();
    assert_eq!(codes, vec!["2330", "2454"]);
    let total: usize = groups.iter().map(|g| g.stocks.len()).sum();
    assert_eq!(total, 4);
}

#[test]
fn reports_link_every_stock() {
    let mut t = StockTable::new();
    t.insert(stock("2330", "台積電", "上市", "半導體業"));
    t.insert(stock("1101", "台泥", "上市", "水泥工業"));
    let html = generate_html(&t, "2026-01-26 09:00:00");
    assert!(html.contains("https://www.google.com/search?q=2330+台積電+公司"));
    assert!(html.contains("https://tw.stock.yahoo.com/quote/2330.TW"));
    assert!(html.contains("https://goodinfo.tw/tw/StockDetail.asp?STOCK_ID=1101"));
    assert!(html.contains("2026-01-26 09:00:00"));
    let md = generate_markdown(&t, "2026-01-26 09:00:00");
    assert!(md.contains("2330"));
    assert!(md.contains("台泥"));
}

#[test]
fn url_encoding_is_percent_encoding() {
    assert_eq!(
        google_search_url("a-b_c.d~e", "x"),
        "https://www.google.com/search?q=a-b_c.d~e%20x%20%E5%85%AC%E5%8F%B8%20%E5%AE%98%E7%B6%B2"
    );
}

#[test]
fn lossy_decoding_keeps_valid_text() {
    assert_eq!(profile_from_output("台積電".as_bytes()), Some("台積電".to_string()));
    assert_eq!(profile_from_output(&[0x61, 0xff, 0x62]), Some("a\u{fffd}b".to_string()));
}
