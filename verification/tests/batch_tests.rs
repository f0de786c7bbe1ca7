use stock_crawler::batch::{
    apply_batch_updates, batch_count, batch_status, generate_batches, industry_counts, industry_members,
    industry_overview, next_batch_index, requested_count, select_by_codes, select_by_industry, select_first_n,
    select_random_n, task_round_count, task_text, AiTask, BatchUpdate,
};
use stock_crawler::company_db::CompanyDatabase;
use stock_crawler::company_info::StockInfo;

fn info(code: &str, name: &str, industry: &str, description: Option<&str>) -> StockInfo {
    StockInfo {
        code: code.to_string(),
        name: name.to_string(),
        market_type: "上市".to_string(),
        industry_type: industry.to_string(),
        listing_date: "2000/01/01".to_string(),
        international_code: format!("TW000{}000", code),
        website: None,
        product_description: description.map(|s| s.to_string()),
        last_updated: None,
    }
}

fn many(n: usize, described: usize) -> Vec<StockInfo> {
    (0..n)
        .map(|i| {
            let d = if i < described { Some("產品") } else { None };
            info(&format!("{}", 1000 + i), &format!("公司{}", i), "電子業", d)
        })
        .collect()
}

#[test]
fn counts_typed_by_a_person() {
    assert_eq!(requested_count(" 5 \n", 10), 5);
    assert_eq!(requested_count("abc", 10), 10);
    assert_eq!(requested_count("+3", 1), 3);
    assert_eq!(requested_count("-1", 7), 7);
    assert_eq!(requested_count("", 4), 4);
}

#[test]
fn first_n_companies() {
    let stocks = many(15, 0);
    assert_eq!(select_first_n(&stocks, "2\n").len(), 2);
    assert_eq!(select_first_n(&stocks, "x").len(), 10);
    assert_eq!(select_first_n(&stocks, "99").len(), 15);
    assert_eq!(select_first_n(&stocks, "1")[0].code, "1000");
}

#[test]
fn companies_of_an_industry() {
    let stocks = vec![
        info("2330", "台積電", "半導體業", None),
        info("2317", "鴻海", "其他電子業", None),
        info("2454", "聯發科", "半導體業", None),
    ];
    let members = industry_members(&stocks, " 半導體業\n").unwrap();
    let codes: Vec<&str> = members.iter().map(|s| s.code.as_str()).collect();
    assert_eq!(codes, vec!["2330", "2454"]);
    assert!(industry_members(&stocks, "航運業").is_none());
    assert_eq!(select_by_industry(&members, "").len(), 2);
    assert_eq!(select_by_industry(&members, "1").len(), 1);
}

#[test]
fn random_companies_are_distinct_and_from_the_list() {
    let stocks = many(20, 0);
    let picked = select_random_n(&stocks, "5");
    assert_eq!(picked.len(), 5);
    let mut codes: Vec<&str> = picked.iter().map(|s| s.code.as_str()).collect();
    assert!(codes.iter().all(|c| stocks.iter().any(|s| s.code == *c)));
    codes.sort();
    codes.dedup();
    assert_eq!(codes.len(), 5);
    assert_eq!(select_random_n(&stocks, "").len(), 10);
    assert_eq!(select_random_n(&stocks, "50").len(), 20);
}

#[test]
fn companies_by_codes() {
    let mut db = CompanyDatabase::new();
    db.insert("2330".to_string(), info("2330", "台積電", "半導體業", None));
    db.insert("2317".to_string(), info("2317", "鴻海", "其他電子業", None));
    let picked = select_by_codes(&db, " 2330, 9999 ,2317 \n");
    let codes: Vec<&str> = picked.iter().map(|s| s.code.as_str()).collect();
    assert_eq!(codes, vec!["2330", "2317"]);
    assert!(select_by_codes(&db, "").is_empty());
}

#[test]
fn batches_of_ten() {
    assert_eq!(batch_count(0), 0);
    assert_eq!(batch_count(10), 1);
    assert_eq!(batch_count(11), 2);
    assert_eq!(batch_count(25), 3);
}

#[test]
fn first_batch_layout() {
    let stocks = vec![info("2330", "台積電", "半導體業", None), info("2317", "鴻海", "其他電子業", None)];
    let rule = format!("{}\n", "=".repeat(80));
    let member = |code: &str| {
        format!(
            "  \"{}\": {{\n    \"website\": \"官網網址\",\n    \"product_description\": \"產品描述\"\n  }},\n",
            code
        )
    };
    let expected = format!(
        "{r}【批次 1/1】\n{r}\n1. 台積電 (2330) - 半導體業\n2. 鴻海 (2317) - 其他電子業\n\n{r}\n💡 請將以上公司資料提供給 Kiro,格式如下:\n\n「請幫我查詢以下公司的官網和主要產品資訊,並用100字以內歸納:\n\n1. 台積電 (2330)\n2. 鴻海 (2317)\n\n請以 JSON 格式回覆:」\n\n{{\n{a}{b}}}\n\n{r}\n📝 處理完第一批次後,執行以下命令查看下一批次:\n   cargo run --release --bin show_next_batch\n",
        r = rule,
        a = member("2330"),
        b = member("2317")
    );
    assert_eq!(generate_batches(&stocks), expected);
}

#[test]
fn first_batch_holds_ten() {
    let text = generate_batches(&many(12, 0));
    assert!(text.contains("【批次 1/2】"));
    assert!(text.contains("10. 公司9 (1009) - 電子業\n"));
    assert!(!text.contains("公司10"));
}

#[test]
fn industries_largest_first() {
    let stocks = vec![
        info("2330", "台積電", "半導體業", None),
        info("2317", "鴻海", "其他電子業", None),
        info("2454", "聯發科", "半導體業", None),
        info("2303", "聯電", "半導體業", None),
    ];
    let counts = industry_counts(&stocks);
    assert_eq!(counts.len(), 2);
    assert_eq!((counts[0].name.as_str(), counts[0].count), ("半導體業", 3));
    assert_eq!((counts[1].name.as_str(), counts[1].count), ("其他電子業", 1));
    assert_eq!(industry_overview(&counts), "  1. 半導體業 - 3 家\n  2. 其他電子業 - 1 家\n");
}

#[test]
fn next_batch_is_the_first_unfinished() {
    assert_eq!(next_batch_index(&many(25, 10)), 1);
    assert_eq!(next_batch_index(&many(25, 3)), 0);
    assert_eq!(next_batch_index(&many(25, 25)), 0);
    assert_eq!(next_batch_index(&many(25, 20)), 2);
}

#[test]
fn batch_status_shows_the_next_batch() {
    let text = batch_status(&many(12, 10));
    assert!(text.starts_with("📦 總共 12 家公司,分成 2 個批次\n\n"));
    assert!(text.contains("【批次 2/2】"));
    assert!(text.contains("  1. 公司10 (1010) - 電子業\n"));
    assert!(text.contains("\n1. 公司10 (1010) - 電子業\n"));
    let done = batch_status(&many(3, 3));
    assert!(done.contains("【批次 1/1】"));
    assert!(done.contains("✓ 1. 公司0 (1000) - 電子業\n"));
    assert_eq!(batch_status(&Vec::new()), "📦 總共 0 家公司,分成 0 個批次\n\n✅ 所有批次都已處理完成!\n");
}

#[test]
fn task_previews_are_cut_at_500_bytes() {
    let task = AiTask {
        code: "2330".to_string(),
        name: "台積電".to_string(),
        website: "https://www.tsmc.com".to_string(),
        content: "a".repeat(600),
    };
    let text = task_text(&task).unwrap();
    assert!(text.starts_with("公司代號: 2330\n公司名稱: 台積電\n官網: https://www.tsmc.com\n網站內容摘要:\n"));
    assert!(text.contains(&format!("\n{}\n\n請用100字以內歸納「台積電」的主要產品或服務。\n", "a".repeat(500))));
    let split = AiTask { content: "半".repeat(200), ..task };
    assert!(task_text(&split).is_none());
    assert_eq!(task_round_count(11), 3);
    assert_eq!(task_round_count(10), 2);
}

#[test]
fn batch_updates_are_recorded() {
    let mut db = CompanyDatabase::new();
    db.insert("2330".to_string(), info("2330", "台積電", "半導體業", None));
    let updates = vec![
        BatchUpdate {
            code: "2330".to_string(),
            website: "https://www.tsmc.com".to_string(),
            product_description: "晶圓代工".to_string(),
        },
        BatchUpdate { code: "9999".to_string(), website: "x".to_string(), product_description: "y".to_string() },
    ];
    let found = apply_batch_updates(&mut db, &updates, "2026-01-29 10:00:00");
    assert_eq!(found, vec![true, false]);
    assert_eq!(db.len(), 1);
    let s = db.get("2330").unwrap();
    assert_eq!(s.website.as_deref(), Some("https://www.tsmc.com"));
    assert_eq!(s.product_description.as_deref(), Some("晶圓代工"));
    assert_eq!(s.last_updated.as_deref(), Some("2026-01-29 10:00:00"));
}
