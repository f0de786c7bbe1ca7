use stock_crawler::enricher::{
    count_in_market, count_with_description, count_with_website, enrich_stocks, generate_csv, generate_grouped_html, generate_grouped_reports,
    generate_html, industry_distribution, industry_tally, EnrichedStock,
};
use stock_crawler::tally::{distinct_names, tally};

fn enriched(code: &str, market: &str, industry: &str, website: &str, products: &[&str], description: &str) -> EnrichedStock {
    EnrichedStock {
        code: code.to_string(),
        name: format!("公司{}", code),
        english_name: format!("Company {}", code),
        market_type: market.to_string(),
        industry_type: industry.to_string(),
        listing_date: "2001/07/23".to_string(),
        international_code: format!("TW000{}006", code),
        website: website.to_string(),
        product_description: description.to_string(),
        main_products: products.iter().map(|p| p.to_string()).collect(),
        last_updated: String::new(),
    }
}

fn sample() -> Vec<EnrichedStock> {
    vec![
        enriched("2454", "上市", "半導體業", "https://www.mediatek.com", &["晶片", "SoC"], ""),
        enriched("6488", "上櫃", "半導體業", "no website", &[], "矽晶圓"),
        enriched("7777", "興櫃", "生技醫療業", "", &[], ""),
        enriched("2330", "上市", "半導體業", "", &[], "晶圓\"代工\""),
        enriched("1101", "上市", "水泥工業", "https://www.taiwancement.com", &[], ""),
    ]
}

#[test]
fn enriched_list_is_listed_and_otc_by_code() {
    let out = enrich_stocks(&sample());
    let codes: Vec<&str> = out.iter().map(|s| s.code.as_str()).collect();
    assert_eq!(codes, vec!["1101", "2330", "2454", "6488"]);
}

#[test]
fn market_counts_add_up() {
    let out = enrich_stocks(&sample());
    let listed = count_in_market(&out, "上市");
    let otc = count_in_market(&out, "上櫃");
    assert_eq!((listed, otc), (3, 1));
    assert_eq!(listed + otc, out.len());
    assert_eq!(count_with_website(&out), 3);
    assert_eq!(count_with_description(&out), 2);
}

#[test]
fn industry_distribution_lines() {
    let out = enrich_stocks(&sample());
    let counts = industry_tally(&out);
    assert_eq!(industry_distribution(&counts), "  - 半導體業: 3 家\n  - 水泥工業: 1 家\n");
}

#[test]
fn tally_counts_every_name() {
    let names: Vec<String> = ["b", "a", "b", "c", "b", "a"].iter().map(|s| s.to_string()).collect();
    let t = tally(&names);
    let pairs: Vec<(&str, usize)> = t.iter().map(|c| (c.name.as_str(), c.count)).collect();
    assert_eq!(pairs, vec![("b", 3), ("a", 2), ("c", 1)]);
    assert_eq!(t.iter().map(|c| c.count).sum::<usize>(), names.len());
    assert_eq!(distinct_names(&names), vec!["b".to_string(), "a".to_string(), "c".to_string()]);
}

#[test]
fn csv_quotes_every_field() {
    let out = enrich_stocks(&sample());
    let csv = generate_csv(&out);
    let lines: Vec<&str> = csv.lines().collect();
    assert_eq!(lines[0], "代碼,公司名稱,英文名稱,市場,產業,上市日期,網站,主要產品");
    assert_eq!(
        lines[2],
        "\"2330\",\"公司2330\",\"Company 2330\",\"上市\",\"半導體業\",\"2001/07/23\",\"\",\"晶圓\"\"代工\"\"\""
    );
    assert_eq!(
        lines[3],
        "\"2454\",\"公司2454\",\"Company 2454\",\"上市\",\"半導體業\",\"2001/07/23\",\"https://www.mediatek.com\",\"晶片; SoC\""
    );
    assert_eq!(lines.len(), 5);
}

#[test]
fn html_table_summary_and_rows() {
    let out = enrich_stocks(&sample());
    let html = generate_html(&out);
    assert!(html.starts_with("<!DOCTYPE html>"));
    assert!(html.contains("<p><strong>總計:</strong> 4 筆股票</p>"));
    assert!(html.contains("<p><strong>上市:</strong> 3 筆 | <strong>上櫃:</strong> 1 筆</p>"));
    assert!(html.contains("<td class=\"otc\">上櫃</td>"));
    assert!(html.contains("<td><a href=\"https://www.mediatek.com\" target=\"_blank\">官網</a></td>"));
    assert!(html.contains("<td>N/A</td>"));
    assert!(html.contains("<td>晶片, SoC</td>"));
    assert!(html.ends_with("</html>\n"));
}

#[test]
fn grouped_report_puts_larger_industries_first() {
    let out = enrich_stocks(&sample());
    let html = generate_grouped_html(&out);
    let semi = html.find("<span>半導體業 (上市)</span>").unwrap();
    let semi_otc = html.find("<span>半導體業 (上櫃)</span>").unwrap();
    let cement = html.find("<span>水泥工業 (上市)</span>").unwrap();
    assert!(semi < semi_otc && semi_otc < cement);
    assert!(!html.contains("<span>水泥工業 (上櫃)</span>"));
    assert!(html.contains("<span class=\"stat-number\">4</span>"));
    assert!(html.contains("<span class=\"stat-number\">2</span>"));
    assert!(html.contains("<span>2 家 ▼</span>"));
    assert!(!html.contains("href=\"no website\""));
    assert!(html.contains("https://tw.stock.yahoo.com/quote/6488.TW"));
    assert!(html.contains("https://goodinfo.tw/tw/StockDetail.asp?STOCK_ID=1101"));
}

#[test]
fn minified_report_is_smaller() {
    let out = enrich_stocks(&sample());
    let (html, small) = generate_grouped_reports(&out);
    assert_eq!(html, generate_grouped_html(&out));
    assert!(small.len() < html.len());
    let text = String::from_utf8(small).unwrap();
    assert!(text.contains("半導體業 (上市)"));
}
