use stock_crawler::clock::Timestamp;
use stock_crawler::news::{
    cache_fragment, cache_is_usable, cache_path, extract_nsl_id, first_url_in_markdown, is_within_hours, listing_page_url,
    page_outcome, parse_cached_html, parse_news_with_check, should_save_progress, within_cutoff, NewsDetail,
    NewsItem, PageOutcome,
};
use stock_crawler::news_report::convert_html_to_markdown;

fn item(title: &str, url: &str) -> NewsItem {
    NewsItem {
        title: title.to_string(),
        url: url.to_string(),
        date: "2026/1/21".to_string(),
        content: String::new(),
        is_free: false,
        detail_title: String::new(),
        media: String::new(),
        detail_date: String::new(),
        views: String::new(),
        detail_content: String::new(),
    }
}

#[test]
fn nsl_id_is_read_from_the_query() {
    let url = "https://ieknet.iek.org.tw/ieknews/news_more.aspx?actiontype=ieknews&indu_idno=0&nsl_id=2d6e228903aa4876b147cb71eb3ff878";
    assert_eq!(extract_nsl_id(url), Some("2d6e228903aa4876b147cb71eb3ff878".to_string()));
}

#[test]
fn nsl_id_stops_at_the_next_parameter() {
    assert_eq!(extract_nsl_id("news_more.aspx?nsl_id=abc&indu_idno=3"), Some("abc".to_string()));
    assert_eq!(extract_nsl_id("news_more.aspx?nsl_id="), Some(String::new()));
}

#[test]
fn nsl_id_missing_gives_none() {
    assert_eq!(extract_nsl_id("https://ieknet.iek.org.tw/ieknews/Default.aspx"), None);
}

#[test]
fn paragraphs_become_blank_line_separated() {
    assert_eq!(convert_html_to_markdown("<p>Hello</p><p>World</p>"), "Hello\n\nWorld");
}

#[test]
fn headings_and_lists_become_markdown() {
    assert_eq!(
        convert_html_to_markdown("<h1>T</h1><ul><li>a</li><li>b</li></ul>"),
        "### T\n\n- a\n- b"
    );
    assert_eq!(convert_html_to_markdown("<strong>x</strong> <em>y</em>"), "**x** *y*");
}

#[test]
fn markdown_never_keeps_three_line_breaks() {
    let md = convert_html_to_markdown("<p></p><p></p><p>x</p><div></div><div></div><p>y</p>");
    assert!(!md.contains("\n\n\n"));
    assert_eq!(md, "x\n\ny");
    assert_eq!(md.trim(), md);
}

#[test]
fn table_tags_become_spaces() {
    assert_eq!(convert_html_to_markdown("<table><tr><td>a</td><td>b</td></tr></table>"), "a  b");
}

#[test]
fn listing_pages_are_numbered_from_the_second() {
    assert_eq!(listing_page_url(1), "https://ieknet.iek.org.tw/ieknews/Default.aspx");
    assert_eq!(listing_page_url(3), "https://ieknet.iek.org.tw/ieknews/Default.aspx?currentPageIndex=3");
    assert_eq!(listing_page_url(12), "https://ieknet.iek.org.tw/ieknews/Default.aspx?currentPageIndex=12");
}

#[test]
fn only_non_empty_cache_files_are_read() {
    assert!(cache_is_usable(true, 10));
    assert!(!cache_is_usable(true, 0));
    assert!(!cache_is_usable(false, 0));
}

#[test]
fn cache_files_are_named_by_id() {
    assert_eq!(cache_path("abc123"), "news_cache/abc123.html");
}

#[test]
fn first_url_of_a_saved_report() {
    let md = "# IEK 產業情報網新聞\n\n## 1. [第一則](https://ieknet.iek.org.tw/a?nsl_id=1)\n\n## 2. [第二則](https://x/b)\n";
    assert_eq!(first_url_in_markdown(md), Some("https://ieknet.iek.org.tw/a?nsl_id=1".to_string()));
    assert_eq!(first_url_in_markdown("no headings here"), None);
}

#[test]
fn page_outcome_cases() {
    let items = vec![item("a", "https://x/1"), item("b", "https://x/2")];
    let same = Some("https://x/1".to_string());
    let other = Some("https://x/9".to_string());
    assert_eq!(page_outcome(1, &items, false, &same), PageOutcome::AlreadyDownloaded);
    assert_eq!(page_outcome(2, &items, false, &same), PageOutcome::NextPage);
    assert_eq!(page_outcome(1, &items, false, &other), PageOutcome::NextPage);
    assert_eq!(page_outcome(1, &items, true, &other), PageOutcome::Done);
    assert_eq!(page_outcome(1, &Vec::new(), false, &None), PageOutcome::Done);
}

#[test]
fn old_news_ends_the_listing() {
    let items = vec![item("a", "https://x/1")];
    for page in 1..5 {
        assert_ne!(page_outcome(page, &items, true, &None), PageOutcome::NextPage);
    }
}

#[test]
fn progress_is_saved_every_ten_and_at_the_end() {
    assert!(should_save_progress(9, 20));
    assert!(!should_save_progress(3, 20));
    assert!(should_save_progress(19, 20));
    assert!(should_save_progress(4, 5));
}

#[test]
fn cutoff_comparison() {
    let cutoff = Timestamp { secs: 100, nanos: 0 };
    assert!(within_cutoff(Some(Timestamp { secs: 100, nanos: 0 }), cutoff));
    assert!(within_cutoff(Some(Timestamp { secs: 200, nanos: 0 }), cutoff));
    assert!(!within_cutoff(Some(Timestamp { secs: 99, nanos: 999 }), cutoff));
    assert!(!within_cutoff(None, cutoff));
}

#[test]
fn unparsable_dates_are_outside() {
    let cutoff = Timestamp { secs: 0, nanos: 0 };
    assert!(!is_within_hours("not a date", cutoff));
    assert!(is_within_hours("2099/1/2", cutoff));
    assert!(!is_within_hours("1999/1/1", Timestamp { secs: 946684800, nanos: 0 }));
}

const LISTING: &str = r#"<html><body>
<div class="listItem row no-gutters"><article class="col-md listText"><h2><a href="/ieknews/news_more.aspx?nsl_id=abc&amp;x=1" title="新聞一">新聞一</a></h2><ul><li class="date">2099/1/2</li></ul><p>這是一段足夠長的摘要內容，用來當作新聞摘要。</p></article></div>
<div class="listItem row no-gutters"><article class="col-md listText"><h2><a href="news_more.aspx?nsl_id=old" title="舊新聞">舊新聞</a></h2><ul><li class="date">1999/1/1</li></ul><p>Free 舊的內容也很長很長很長很長很長</p></article></div>
</body></html>"#;

#[test]
fn listing_keeps_news_inside_the_window() {
    let cutoff = Timestamp { secs: 946684800, nanos: 0 };
    let (items, has_old) = parse_news_with_check(LISTING, cutoff);
    assert!(has_old);
    assert_eq!(items.len(), 1);
    assert_eq!(items[0].title, "新聞一");
    assert_eq!(items[0].url, "https://ieknet.iek.org.tw/ieknews/news_more.aspx?nsl_id=abc&x=1");
    assert_eq!(items[0].date, "2099/1/2");
    assert!(!items[0].is_free);
}

#[test]
fn listing_with_only_recent_news_has_no_old_news() {
    let cutoff = Timestamp { secs: 0, nanos: 0 };
    let (items, has_old) = parse_news_with_check(LISTING, cutoff);
    assert!(!has_old);
    assert_eq!(items.len(), 2);
    assert_eq!(items[1].url, "https://ieknet.iek.org.tw/news_more.aspx?nsl_id=old");
    assert!(items[1].is_free);
}

#[test]
fn cached_fragment_reads_back() {
    let d = NewsDetail {
        title: "標題".to_string(),
        media: "記者 王小明".to_string(),
        date: "2026/01/21".to_string(),
        views: "123".to_string(),
        content: "<p>內文</p>".to_string(),
    };
    let html = cache_fragment(&d);
    let back = parse_cached_html(&html);
    assert_eq!(back.title, d.title);
    assert_eq!(back.media, d.media);
    assert_eq!(back.date, d.date);
    assert_eq!(back.views, d.views);
    assert_eq!(back.content, d.content);
}

#[test]
fn missing_details_read_as_empty() {
    let back = parse_cached_html("<html><body><p>nothing</p></body></html>");
    assert_eq!(back.title, "");
    assert_eq!(back.media, "");
    assert_eq!(back.content, "");
}

#[test]
fn saved_report_gives_back_its_first_url() {
    let items = vec![item("第一則", "https://ieknet.iek.org.tw/a?nsl_id=1"), item("第二則", "https://x/b")];
    let md = stock_crawler::news_report::render_news_markdown(&items, "2026年01月21日 10:00:00");
    assert_eq!(first_url_in_markdown(&md), Some("https://ieknet.iek.org.tw/a?nsl_id=1".to_string()));
}

#[test]
fn days_long_before_the_cutoff_are_outside() {
    let cutoff = Timestamp { secs: 1768953600, nanos: 0 };
    assert!(!is_within_hours("2026/1/18", cutoff));
    assert!(is_within_hours("2026/1/25", cutoff));
}
