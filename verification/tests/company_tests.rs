use stock_crawler::business::{
    business_cut_is_clean, business_of_text, company_business_from_page, fallback_ticker,
    parse_business_to_products, products_defined, profile_url, ticker_for, BusinessError,
};
use stock_crawler::company_db::{is_checkpoint, CompanyDatabase};
use stock_crawler::company_info::{needs_update, StockInfo};
use stock_crawler::company_web::{
    analyst_instructions, choose_ai_provider, google_search_url, is_company_site_url, pick_company_website,
    plain_url_pattern, quoted_url_pattern, summary_from_reply, summary_prompt, website_content,
    AiError, AiProvider,
};
use stock_crawler::yfinance::{
    profile_from_output, profile_script, status_log_line, summary_from_output, summary_script, yfinance_ticker,
};

fn info(code: &str, name: &str, website: Option<&str>, description: Option<&str>) -> StockInfo {
    StockInfo {
        code: code.to_string(),
        name: name.to_string(),
        market_type: "上市".to_string(),
        industry_type: "半導體業".to_string(),
        listing_date: "1994/09/05".to_string(),
        international_code: "TW0002330008".to_string(),
        website: website.map(|s| s.to_string()),
        product_description: description.map(|s| s.to_string()),
        last_updated: None,
    }
}

#[test]
fn needs_update_when_a_detail_is_missing() {
    assert!(needs_update(&info("2330", "台積電", None, None)));
    assert!(needs_update(&info("2330", "台積電", Some("https://www.tsmc.com"), None)));
    assert!(needs_update(&info("2330", "台積電", None, Some("晶圓代工"))));
    assert!(!needs_update(&info("2330", "台積電", Some("https://www.tsmc.com"), Some("晶圓代工"))));
}

#[test]
fn database_reads_back_what_was_put_in() {
    let mut db = CompanyDatabase::new();
    db.insert("2330".to_string(), info("2330", "台積電", None, None));
    db.insert("2317".to_string(), info("2317", "鴻海", None, None));
    assert_eq!(db.len(), 2);
    assert_eq!(db.get("2330").unwrap().name, "台積電");
    db.insert("2330".to_string(), info("2330", "TSMC", None, None));
    assert_eq!(db.len(), 2);
    assert_eq!(db.get("2330").unwrap().name, "TSMC");
    assert!(db.get("9999").is_none());
}

#[test]
fn findings_are_recorded_for_one_company() {
    let mut db = CompanyDatabase::new();
    db.insert("2330".to_string(), info("2330", "台積電", None, None));
    db.insert("2317".to_string(), info("2317", "鴻海", None, None));
    let hit = db.record_findings(
        "2330",
        Some("https://www.tsmc.com".to_string()),
        Some("晶圓代工".to_string()),
        "2026-01-27 10:00:00".to_string(),
    );
    assert!(hit);
    let s = db.get("2330").unwrap();
    assert_eq!(s.website.as_deref(), Some("https://www.tsmc.com"));
    assert_eq!(s.product_description.as_deref(), Some("晶圓代工"));
    assert_eq!(s.last_updated.as_deref(), Some("2026-01-27 10:00:00"));
    assert_eq!(s.name, "台積電");
    assert!(db.get("2317").unwrap().website.is_none());
    assert!(!db.record_findings("9999", None, None, "now".to_string()));
    assert_eq!(db.len(), 2);
}

#[test]
fn website_alone_can_be_recorded() {
    let mut db = CompanyDatabase::new();
    db.insert("2330".to_string(), info("2330", "台積電", None, Some("晶圓代工")));
    assert!(db.record_website("2330", Some("https://www.tsmc.com".to_string()), "t".to_string()));
    let s = db.get("2330").unwrap();
    assert_eq!(s.website.as_deref(), Some("https://www.tsmc.com"));
    assert_eq!(s.product_description.as_deref(), Some("晶圓代工"));
}

#[test]
fn keys_to_visit() {
    let mut db = CompanyDatabase::new();
    db.insert("2330".to_string(), info("2330", "台積電", Some("w"), Some("d")));
    db.insert("2317".to_string(), info("2317", "鴻海", None, Some("d")));
    db.insert("2454".to_string(), info("2454", "聯發科", Some("w"), None));
    assert_eq!(db.keys_needing_update(), vec!["2317".to_string(), "2454".to_string()]);
    assert_eq!(db.keys_missing_website(), vec!["2317".to_string()]);
    let pending = db.pending_descriptions();
    assert_eq!(pending.len(), 1);
    assert_eq!(pending[0].code, "2454");
}

#[test]
fn checkpoints_every_ten() {
    assert!(is_checkpoint(10));
    assert!(is_checkpoint(20));
    assert!(!is_checkpoint(7));
}

#[test]
fn products_are_cut_at_delimiters() {
    assert_eq!(
        parse_business_to_products("晶圓製造、封裝測試及光罩製造"),
        vec!["晶圓製造".to_string(), "封裝測試".to_string(), "光罩製造".to_string()]
    );
    assert_eq!(
        parse_business_to_products("  半導體 ; 電子零件，AB,通訊設備 "),
        vec!["半導體".to_string(), "電子零件".to_string(), "通訊設備".to_string()]
    );
}

#[test]
fn short_pieces_fall_back_to_the_whole_description() {
    assert_eq!(parse_business_to_products("ab,cd"), vec!["ab,cd".to_string()]);
    assert_eq!(parse_business_to_products(""), vec!["N/A".to_string()]);
}

#[test]
fn long_descriptions_are_cut_at_200_bytes() {
    let text = "x".repeat(250);
    let products = parse_business_to_products(&text);
    assert_eq!(products, vec![format!("{}...", "x".repeat(200))]);
    assert!(products_defined(&text));
    let chinese = "半".repeat(100);
    assert!(!products_defined(&chinese));
}

#[test]
fn at_most_ten_products() {
    let text = (0..15).map(|i| format!("產品{:02}", i)).collect::<Vec<_>>().join("、");
    let products = parse_business_to_products(&text);
    assert_eq!(products.len(), 10);
    assert_eq!(products[0], "產品00");
    assert_eq!(products[9], "產品09");
}

#[test]
fn business_is_read_after_its_heading() {
    let text = "公司資料主要經營業務\n  積體電路製造、晶圓代工服務：\n公司地址 新竹";
    assert!(business_cut_is_clean(text));
    assert_eq!(business_of_text(text), Ok("積體電路製造、晶圓代工服務".to_string()));
}

#[test]
fn furniture_lines_are_dropped() {
    let text = "主要經營業務\n2330.TW 台積電\n資料來源 Yahoo Finance\n電子零組件之製造與銷售\n財務資訊";
    assert_eq!(business_of_text(text), Ok("電子零組件之製造與銷售".to_string()));
}

#[test]
fn missing_business_is_not_found() {
    assert_eq!(business_of_text("沒有這個欄位"), Err(BusinessError::NotFound));
    assert_eq!(business_of_text("主要經營業務\nabc\nxy"), Err(BusinessError::NotFound));
    assert_eq!(BusinessError::NotFound.message(), "找不到主要經營業務");
}

#[test]
fn business_from_a_profile_page() {
    let html = "<html><body><div><span>主要經營業務</span><div>半導體晶圓代工、光罩製造</div><span>公司地址</span></div></body></html>";
    assert_eq!(company_business_from_page(html), Some(Ok("半導體晶圓代工、光罩製造".to_string())));
    assert_eq!(
        company_business_from_page("<html><body>nothing</body></html>"),
        Some(Err(BusinessError::NotFound))
    );
}

#[test]
fn tickers_and_profile_addresses() {
    assert_eq!(ticker_for("2330", "上市"), "2330.TW");
    assert_eq!(ticker_for("6488", "上櫃"), "6488.TWO");
    assert_eq!(fallback_ticker("2330", "2330.TW"), Some("2330.TWO".to_string()));
    assert_eq!(fallback_ticker("6488", "6488.TWO"), None);
    assert_eq!(profile_url("2330.TW"), "https://tw.stock.yahoo.com/quote/2330.TW/profile");
}

#[test]
fn search_address_is_encoded() {
    assert_eq!(
        google_search_url("2330", "台積電"),
        "https://www.google.com/search?q=2330%20%E5%8F%B0%E7%A9%8D%E9%9B%BB%20%E5%85%AC%E5%8F%B8%20%E5%AE%98%E7%B6%B2"
    );
}

#[test]
fn company_sites_exclude_known_portals() {
    assert!(is_company_site_url("https://www.tsmc.com"));
    assert!(is_company_site_url("https://www.cht.com.tw/home"));
    assert!(!is_company_site_url("https://www.google.com/maps"));
    assert!(!is_company_site_url("https://zh.wikipedia.org/wiki/x"));
    assert!(!is_company_site_url("https://example.org"));
}

#[test]
fn first_company_link_of_a_results_page() {
    let html = r#"<html><body>
<a href="/search?q=x">more</a>
<a href="/url?q=https://www.youtube.com/watch&sa=U">video</a>
<a href="/url?q=https://www.tsmc.com/chinese&sa=U">TSMC</a>
<a href="https://www.other.com.tw">other</a>
</body></html>"#;
    assert_eq!(
        pick_company_website(html, plain_url_pattern()),
        Some("https://www.tsmc.com/chinese".to_string())
    );
    assert_eq!(pick_company_website("<p>no links</p>", quoted_url_pattern()), None);
}

#[test]
fn page_content_is_tidied_and_cut() {
    let html = "<html><body><h1>台積電</h1>\n<p>  晶圓   代工 </p><p>服務</p></body></html>";
    assert_eq!(website_content(html, 3000), "台積電 晶圓 代工 服務");
    assert_eq!(website_content(html, 3), "台積電");
    assert_eq!(website_content(html, 4), "台積電 ");
    assert_eq!(website_content(html, 5), "台積電 晶");
    assert_eq!(website_content("<p>x</p>", 3000), "x");
    assert_eq!(website_content("<body> a \n b  c </body>", 3), "a b");
}

#[test]
fn content_limit_counts_characters() {
    let html = format!("<html><body><p>{}</p></body></html>", "半".repeat(1001));
    assert_eq!(website_content(&html, 3000), "半".repeat(1001));
    assert_eq!(website_content(&html, 1000), "半".repeat(1000));
}

#[test]
fn openai_is_preferred() {
    let r = choose_ai_provider(Some("k1".to_string()), Some("k2".to_string()));
    assert_eq!(r, Ok((AiProvider::OpenAi, "k1".to_string())));
    let r = choose_ai_provider(None, Some("k2".to_string()));
    assert_eq!(r, Ok((AiProvider::Anthropic, "k2".to_string())));
    assert_eq!(choose_ai_provider(None, None), Err(AiError::MissingKey));
}

#[test]
fn prompts() {
    assert_eq!(
        summary_prompt("台積電", "內容"),
        "請根據以下網站內容,用100字以內歸納「台積電」公司的主要產品或服務:\n\n內容"
    );
    assert!(analyst_instructions().contains("100字以內"));
}

#[test]
fn summaries_are_read_from_replies() {
    let openai = r#"{"choices":[{"message":{"role":"assistant","content":"  晶圓代工  "}}]}"#;
    assert_eq!(summary_from_reply(AiProvider::OpenAi, openai), Ok("晶圓代工".to_string()));
    let anthropic = r#"{"content":[{"type":"text","text":"半導體製造\n"}]}"#;
    assert_eq!(summary_from_reply(AiProvider::Anthropic, anthropic), Ok("半導體製造".to_string()));
    assert_eq!(summary_from_reply(AiProvider::OpenAi, anthropic), Err(AiError::NoSummary));
    assert_eq!(summary_from_reply(AiProvider::Anthropic, "not json"), Err(AiError::InvalidReply));
    assert_eq!(AiError::NoSummary.message(), "無法解析 AI 回應");
}

#[test]
fn yfinance_scripts_name_the_ticker() {
    assert_eq!(yfinance_ticker("2330"), "2330.TW");
    assert!(profile_script("2330.TW").contains("yf.Ticker(\"2330.TW\")"));
    assert!(summary_script("2330.TW").contains("yf.Ticker(\"2330.TW\")"));
    assert!(summary_script("2330.TW").contains("business_summary"));
}

#[test]
fn yfinance_output_is_read() {
    assert_eq!(profile_from_output(b"  Taiwan Semiconductor ...\n"), Some("Taiwan Semiconductor ...".to_string()));
    assert_eq!(profile_from_output(b"\n"), None);
    assert_eq!(
        summary_from_output("{\"sector\": \"Tech\", \"business_summary\": \"晶圓代工\"}\n".as_bytes()),
        Some("晶圓代工".to_string())
    );
    assert_eq!(summary_from_output(b"{\"business_summary\": \"\"}"), None);
    assert_eq!(summary_from_output(b"{\"error\": \"x\"}"), None);
    assert_eq!(summary_from_output(b"oops"), None);
}

#[test]
fn status_lines_are_stamped() {
    assert_eq!(status_log_line("2026-01-29 10:00:00", "開始"), "[2026-01-29 10:00:00] 開始\n");
}
