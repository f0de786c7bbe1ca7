//! Reading the news listing and news pages of the industry news site.
use vstd::prelude::*;
use crate::clock::{days_from_civil, local_midnight, near_local_midnight, not_before, parse_date, parsed_date, Timestamp};
use crate::html::{attribute_of, chars_opt, outer_html_of, selected_attribute, selected_outer_html, selected_text_nodes, text_nodes_of};
use crate::pattern::{capture, regex_group, regex_matches, is_match};
use crate::text::{
    append_range, byte_len, byte_len_exceeds, chars_of, concat, concat_chars, contains, contains_chars, contains_str,
    copy_chars, find, find_chars, lemma_find_contains, lines, lines_of, push_chars, replace_all, replace_str, starts_with,
    starts_with_str, string_of, trim, trim_chars, views, views2, decimal, push_decimal, equal_str, ends_with,
};

verus! {

/// One news item of the listing, with what its detail page adds.
#[derive(Debug)]
pub struct NewsItem {
    pub title: String,
    pub url: String,
    pub date: String,
    pub content: String,
    pub is_free: bool,
    pub detail_title: String,
    pub media: String,
    pub detail_date: String,
    pub views: String,
    pub detail_content: String,
}

/// A news item as plain values.
pub struct NewsItemView {
    pub title: Seq<char>,
    pub url: Seq<char>,
    pub date: Seq<char>,
    pub content: Seq<char>,
    pub is_free: bool,
    pub detail_title: Seq<char>,
    pub media: Seq<char>,
    pub detail_date: Seq<char>,
    pub views: Seq<char>,
    pub detail_content: Seq<char>,
}

impl View for NewsItem {
    type V = NewsItemView;

    open spec fn view(&self) -> NewsItemView {
        NewsItemView {
            title: self.title@,
            url: self.url@,
            date: self.date@,
            content: self.content@,
            is_free: self.is_free,
            detail_title: self.detail_title@,
            media: self.media@,
            detail_date: self.detail_date@,
            views: self.views@,
            detail_content: self.detail_content@,
        }
    }
}

/// The news items as plain values.
pub open spec fn item_views(items: Seq<NewsItem>) -> Seq<NewsItemView> {
    items.map_values(|i: NewsItem| i@)
}

// ---------------------------------------------------------------- nsl_id

/// The `nsl_id` query value of a news URL: what follows the first `nsl_id=`,
/// up to the next `&` or the end.
pub open spec fn nsl_id_of(url: Seq<char>) -> Option<Seq<char>> {
    match find(url, "nsl_id="@) {
        Some(k) => {
            let rest = url.skip(k + 7);
            match find(rest, "&"@) {
                Some(e) => Some(rest.take(e)),
                None => Some(rest),
            }
        },
        None => None,
    }
}

/// The news identifier (`nsl_id`) carried by a news URL.
pub fn extract_nsl_id(url: &str) -> (res: Option<String>)
    ensures
        match res {
            Some(id) => nsl_id_of(url@) == Some(id@),
            None => nsl_id_of(url@) is None,
        },
{
    proof {
        reveal_strlit("nsl_id=");
    }
    let u = chars_of(url);
    let key = chars_of("nsl_id=");
    match find_chars(u.as_slice(), key.as_slice()) {
        Some(k) => {
            proof {
                lemma_find_contains(u@, key@);
            }
            assert(key@.len() == 7);
            let n = u.len();
            assert(k + key@.len() <= n);
            let start = k + key.len();
            let mut rest: Vec<char> = Vec::new();
            append_range(&mut rest, u.as_slice(), start, u.len());
            assert(rest@ =~= u@.skip(k + 7));
            let amp = chars_of("&");
            match find_chars(rest.as_slice(), amp.as_slice()) {
                Some(e) => {
                    proof {
                        lemma_find_contains(rest@, amp@);
                    }
                    let mut id: Vec<char> = Vec::new();
                    append_range(&mut id, rest.as_slice(), 0, e);
                    assert(id@ =~= rest@.take(e as int));
                    Some(string_of(id.as_slice()))
                },
                None => Some(string_of(rest.as_slice())),
            }
        },
        None => None,
    }
}

// ---------------------------------------------------------------- dates

/// A listing date such as `2026/1/21` with its slashes turned into dashes.
pub open spec fn dashed(date: Seq<char>) -> Seq<char> {
    replace_all(date, "/"@, "-"@)
}

/// Whether local midnight of a day, where it could be determined, is not
/// earlier than `cutoff`.
pub fn within_cutoff(midnight: Option<Timestamp>, cutoff: Timestamp) -> (res: bool)
    ensures
        res == (midnight matches Some(t) && not_before(t, cutoff)),
{
    match midnight {
        Some(t) => crate::clock::is_not_before(t, cutoff),
        None => false,
    }
}

/// The verdict `v` on whether the day written in `date` (year/month/day)
/// began, in local time, no earlier than `cutoff`: false where the date does
/// not parse; else the test of `within_cutoff` on some local midnight `m` of
/// that day, as `near_local_midnight` bounds it.
pub open spec fn window_verdict(date: Seq<char>, cutoff: Timestamp, v: bool) -> bool {
    match parsed_date(dashed(date), "%Y-%m-%d"@) {
        None => !v,
        Some(d) => exists|m: Option<Timestamp>|
            #![trigger near_local_midnight(d, m)]
            near_local_midnight(d, m) && v == (m matches Some(t) && not_before(t, cutoff)),
    }
}

/// Whether the day written in `date_str` (year/month/day) began, in local time,
/// no earlier than `cutoff`. A date that does not parse is outside the window;
/// for one that parses, the test is made on its local midnight, which lies
/// less than a day from its midnight UTC (which offset applies depends on the
/// machine's time zone).
pub fn is_within_hours(date_str: &str, cutoff: Timestamp) -> (res: bool)
    ensures
        window_verdict(date_str@, cutoff, res),
{
    let d = chars_of(date_str);
    let dashed_date = string_of(replace_str(d.as_slice(), "/", "-").as_slice());
    match parse_date(dashed_date.as_str(), "%Y-%m-%d") {
        Some((y, m, day)) => {
            let midnight = local_midnight(y, m, day);
            let res = within_cutoff(midnight, cutoff);
            assert(dashed_date@ == dashed(date_str@));
            assert(parsed_date(dashed(date_str@), "%Y-%m-%d"@) == Some((y as int, m as int, day as int)));
            let ghost dd = parsed_date(dashed(date_str@), "%Y-%m-%d"@)->0;
            assert(dd == (y as int, m as int, day as int));
            assert(near_local_midnight(dd, midnight) && res == (midnight matches Some(t) && not_before(t, cutoff)));
            res
        },
        None => false,
    }
}

/// News of a day that ended, in UTC, a day or more before the cutoff is
/// outside the window in every time zone, and so is news whose date does not
/// parse.
pub proof fn law_window_far_from_cutoff(date: Seq<char>, cutoff: Timestamp, v: bool)
    requires
        window_verdict(date, cutoff, v),
    ensures
        parsed_date(dashed(date), "%Y-%m-%d"@) matches Some(d) && 86400 * days_from_civil(d.0, d.1, d.2) + 86400
            <= cutoff.secs ==> !v,
        parsed_date(dashed(date), "%Y-%m-%d"@) is None ==> !v,
{
}

// ---------------------------------------------------------------- listing

/// What the crawler reads of one news entry of a listing page.
pub struct ListingEntry {
    /// The link's `href`, or nothing.
    pub href: Vec<char>,
    /// The link's `title`, or nothing.
    pub title: Vec<char>,
    /// The first date found in the entry's date fields, or nothing.
    pub date: Vec<char>,
    /// All the text of the entry.
    pub text: Vec<char>,
}

/// A listing entry as plain values.
pub struct ListingEntryView {
    pub href: Seq<char>,
    pub title: Seq<char>,
    pub date: Seq<char>,
    pub text: Seq<char>,
}

impl View for ListingEntry {
    type V = ListingEntryView;

    open spec fn view(&self) -> ListingEntryView {
        ListingEntryView { href: self.href@, title: self.title@, date: self.date@, text: self.text@ }
    }
}

/// The entries as plain values.
pub open spec fn entry_views(entries: Seq<ListingEntry>) -> Seq<ListingEntryView> {
    entries.map_values(|e: ListingEntry| e@)
}

/// An optional text, or the empty text.
pub open spec fn or_empty(a: Option<Seq<char>>) -> Seq<char> {
    match a {
        Some(s) => s,
        None => seq![],
    }
}

/// The pattern of a listing date: four digits, a slash, one or two digits, a
/// slash, one or two digits.
pub open spec fn date_pattern() -> Seq<char> {
    r"(\d{4}/\d{1,2}/\d{1,2})"@
}

/// The first date found in the texts of the date fields, tried in order; the
/// empty text where none holds one.
pub open spec fn first_date(fields: Seq<Seq<Seq<char>>>) -> Seq<char>
    decreases fields.len(),
{
    if fields.len() == 0 {
        seq![]
    } else {
        match regex_group(date_pattern(), concat(fields[0]), 0) {
            Some(m) => m,
            None => first_date(fields.skip(1)),
        }
    }
}

/// The entry that one listing item yields: none where the item holds no
/// article or the article no headline link.
pub open spec fn entry_for_item(item: Seq<char>) -> Seq<ListingEntryView> {
    let articles = selected_outer_html(item, "article.col-md.listText"@);
    if articles.len() == 0 {
        seq![]
    } else {
        let article = articles[0];
        let hrefs = selected_attribute(article, "h2 a"@, "href"@);
        if hrefs.len() == 0 {
            seq![]
        } else {
            let titles = selected_attribute(article, "h2 a"@, "title"@);
            let texts = selected_text_nodes(article, "article.col-md.listText"@);
            seq![ListingEntryView {
                href: or_empty(hrefs[0]),
                title: if titles.len() > 0 { or_empty(titles[0]) } else { seq![] },
                date: first_date(selected_text_nodes(article, "li.date"@)),
                text: if texts.len() > 0 { concat(texts[0]) } else { seq![] },
            }]
        }
    }
}

/// The entries of the listing items, in order.
pub open spec fn entries_for_items(items: Seq<Seq<char>>) -> Seq<ListingEntryView>
    decreases items.len(),
{
    if items.len() == 0 {
        seq![]
    } else {
        entries_for_items(items.drop_last()) + entry_for_item(items.last())
    }
}

/// The entries of a listing page.
pub open spec fn listing_entries(html: Seq<char>) -> Seq<ListingEntryView> {
    entries_for_items(selected_outer_html(html, "div.listItem.row.no-gutters"@))
}

/// The first date found in the texts of the date fields.
pub fn first_date_of(fields: &Vec<Vec<Vec<char>>>) -> (res: Vec<char>)
    ensures
        res@ == first_date(views2(fields@)),
{
    let mut i: usize = 0;
    assert(views2(fields@).skip(0) =~= views2(fields@));
    while i < fields.len()
        invariant
            i <= fields.len(),
            first_date(views2(fields@)) == first_date(views2(fields@).skip(i as int)),
        decreases fields.len() - i,
    {
        let text = string_of(concat_chars(&fields[i]).as_slice());
        let ghost rest = views2(fields@).skip(i as int);
        assert(rest[0] == views(fields@[i as int]@));
        match capture(r"(\d{4}/\d{1,2}/\d{1,2})", text.as_str(), 0) {
            Some(m) => {
                return m;
            },
            None => {},
        }
        assert(rest.skip(1) =~= views2(fields@).skip(i + 1));
        i = i + 1;
    }
    Vec::new()
}

/// The first text of a list, or the empty text.
fn first_or_empty(v: &Vec<Option<Vec<char>>>) -> (res: Vec<char>)
    ensures
        v@.len() > 0 ==> res@ == or_empty(chars_opt(v@[0])),
        v@.len() == 0 ==> res@ == Seq::<char>::empty(),
{
    if v.len() > 0 {
        match &v[0] {
            Some(a) => copy_chars(a),
            None => Vec::new(),
        }
    } else {
        Vec::new()
    }
}

/// The entry that one listing item yields.
pub fn entry_for(item: &str) -> (res: Option<ListingEntry>)
    ensures
        match res {
            Some(e) => entry_for_item(item@) == seq![e@],
            None => entry_for_item(item@) == Seq::<ListingEntryView>::empty(),
        },
{
    let articles = outer_html_of(item, "article.col-md.listText");
    if articles.len() == 0 {
        return None;
    }
    let article = string_of(articles[0].as_slice());
    assert(article@ == selected_outer_html(item@, "article.col-md.listText"@)[0]);
    let hrefs = attribute_of(article.as_str(), "h2 a", "href");
    if hrefs.len() == 0 {
        return None;
    }
    let titles = attribute_of(article.as_str(), "h2 a", "title");
    let dates = text_nodes_of(article.as_str(), "li.date");
    let texts = text_nodes_of(article.as_str(), "article.col-md.listText");
    let href = first_or_empty(&hrefs);
    let title = first_or_empty(&titles);
    let date = first_date_of(&dates);
    let text = if texts.len() > 0 { concat_chars(&texts[0]) } else { Vec::new() };
    proof {
        assert(chars_opt(hrefs@[0]) == selected_attribute(article@, "h2 a"@, "href"@)[0]);
        if titles@.len() > 0 {
            assert(chars_opt(titles@[0]) == selected_attribute(article@, "h2 a"@, "title"@)[0]);
        }
        if texts@.len() > 0 {
            assert(views(texts@[0]@) == selected_text_nodes(article@, "article.col-md.listText"@)[0]);
        }
    }
    let e = ListingEntry { href, title, date, text };
    assert(entry_for_item(item@) =~= seq![e@]);
    Some(e)
}

/// The entries of a listing page, in order.
pub fn listing_entries_of(html: &str) -> (res: Vec<ListingEntry>)
    ensures
        entry_views(res@) == listing_entries(html@),
{
    let items = outer_html_of(html, "div.listItem.row.no-gutters");
    let ghost iv = views(items@);
    let mut out: Vec<ListingEntry> = Vec::new();
    let mut i: usize = 0;
    while i < items.len()
        invariant
            i <= items.len(),
            iv == views(items@),
            iv == selected_outer_html(html@, "div.listItem.row.no-gutters"@),
            entry_views(out@) == entries_for_items(iv.take(i as int)),
        decreases items.len() - i,
    {
        let item = string_of(items[i].as_slice());
        let ghost before = entry_views(out@);
        assert(iv.take(i + 1).drop_last() =~= iv.take(i as int));
        assert(iv.take(i + 1).last() == item@);
        match entry_for(item.as_str()) {
            Some(e) => {
                out.push(e);
                assert(entry_views(out@) =~= before + entry_for_item(item@));
            },
            None => {
                assert(before + entry_for_item(item@) =~= before);
            },
        }
        i = i + 1;
    }
    assert(iv.take(items.len() as int) =~= iv);
    out
}

/// A link of the listing made absolute on the news site.
pub open spec fn absolute_url(url: Seq<char>) -> Seq<char> {
    if starts_with(url, "http"@) {
        url
    } else if starts_with(url, "/"@) {
        "https://ieknet.iek.org.tw"@ + url
    } else {
        "https://ieknet.iek.org.tw/"@ + url
    }
}

/// A link made absolute keeps the link whole at its end: a link that starts
/// with `http` is kept as it is, and any other is put on the news site with
/// exactly one slash between the host and the path.
pub proof fn law_absolute_url_one_slash(url: Seq<char>)
    ensures
        ends_with(absolute_url(url), url),
        starts_with(url, "http"@) ==> absolute_url(url) == url,
        !starts_with(url, "http"@) ==> absolute_url(url) == "https://ieknet.iek.org.tw/"@ + (if starts_with(url, "/"@) {
            url.skip(1)
        } else {
            url
        }),
{
    reveal_strlit("https://ieknet.iek.org.tw/");
    reveal_strlit("https://ieknet.iek.org.tw");
    reveal_strlit("/");
    let a = absolute_url(url);
    assert(a.skip(a.len() - url.len()) =~= url);
    if !starts_with(url, "http"@) && starts_with(url, "/"@) {
        assert(url.take(1)[0] == url[0]);
        assert("https://ieknet.iek.org.tw"@ + url =~= "https://ieknet.iek.org.tw/"@ + url.skip(1));
    }
}

/// A line of the entry's text that serves as its summary: once trimmed, longer
/// than 20 bytes, without the title and without a date.
pub open spec fn is_summary_line(line: Seq<char>, title: Seq<char>) -> bool {
    let t = trim(line);
    byte_len(t) > 20 && !contains(t, title) && !regex_matches(date_pattern(), t)
}

/// The first summary line, trimmed; the empty text where there is none.
pub open spec fn first_summary(ls: Seq<Seq<char>>, title: Seq<char>) -> Seq<char>
    decreases ls.len(),
{
    if ls.len() == 0 {
        seq![]
    } else if is_summary_line(ls[0], title) {
        trim(ls[0])
    } else {
        first_summary(ls.skip(1), title)
    }
}

/// The news item that a listing entry gives, before its detail page is read.
pub open spec fn item_of_entry(e: ListingEntryView) -> NewsItemView {
    NewsItemView {
        title: e.title,
        url: absolute_url(replace_all(e.href, "&amp;"@, "&"@)),
        date: e.date,
        content: first_summary(lines(e.text), e.title),
        is_free: contains(e.text, "Free"@) || contains(e.text, "免費"@),
        detail_title: seq![],
        media: seq![],
        detail_date: seq![],
        views: seq![],
        detail_content: seq![],
    }
}

/// The entry has a title and a date, so its date is checked against the window.
pub open spec fn has_title_and_date(e: ListingEntryView) -> bool {
    e.title.len() > 0 && e.date.len() > 0
}

/// The items of the entries that have a title and a date inside the window
/// (`inside[i]` tells whether entry `i`'s date is inside), in order.
pub open spec fn collected_news(entries: Seq<ListingEntryView>, inside: Seq<bool>) -> Seq<NewsItemView>
    decreases entries.len(),
{
    if entries.len() == 0 {
        seq![]
    } else {
        let k = entries.len() - 1;
        collected_news(entries.drop_last(), inside) + if has_title_and_date(entries[k]) && inside[k] {
            seq![item_of_entry(entries[k])]
        } else {
            seq![]
        }
    }
}

/// Some entry with a title and a date has its date outside the window.
pub open spec fn saw_old_news(entries: Seq<ListingEntryView>, inside: Seq<bool>) -> bool {
    exists|i: int| 0 <= i < entries.len() && has_title_and_date(entries[i]) && !inside[i]
}

/// Only news inside the window is collected: every item collected from a
/// listing page is the item of an entry that has a title and a date inside
/// the window, and there are never more items than entries.
pub proof fn law_collected_news_inside_window(entries: Seq<ListingEntryView>, inside: Seq<bool>)
    requires
        entries.len() <= inside.len(),
    ensures
        collected_news(entries, inside).len() <= entries.len(),
        forall|k: int|
            0 <= k < collected_news(entries, inside).len() ==> exists|i: int|
                0 <= i < entries.len() && has_title_and_date(entries[i]) && inside[i]
                    && #[trigger] collected_news(entries, inside)[k] == item_of_entry(entries[i]),
    decreases entries.len(),
{
    if entries.len() > 0 {
        let before = entries.drop_last();
        law_collected_news_inside_window(before, inside);
        let c = collected_news(entries, inside);
        let b = collected_news(before, inside);
        let last = entries.len() - 1;
        assert forall|k: int| 0 <= k < c.len() implies exists|i: int|
            0 <= i < entries.len() && has_title_and_date(entries[i]) && inside[i] && #[trigger] c[k]
                == item_of_entry(entries[i]) by {
            if k < b.len() {
                assert(c[k] == b[k]);
                let i = choose|i: int| 0 <= i < before.len() && has_title_and_date(before[i]) && inside[i]
                    && b[k] == item_of_entry(before[i]);
                assert(before[i] == entries[i]);
            } else {
                assert(c[k] == item_of_entry(entries[last]));
            }
        }
    }
}

/// Every entry of the page that has a title and a date inside the window
/// gives a collected item.
pub proof fn law_inside_news_collected(entries: Seq<ListingEntryView>, inside: Seq<bool>, i: int)
    requires
        entries.len() <= inside.len(),
        0 <= i < entries.len(),
        has_title_and_date(entries[i]),
        inside[i],
    ensures
        collected_news(entries, inside).contains(item_of_entry(entries[i])),
    decreases entries.len(),
{
    let before = entries.drop_last();
    let b = collected_news(before, inside);
    let c = collected_news(entries, inside);
    if i < entries.len() - 1 {
        law_inside_news_collected(before, inside, i);
        assert(before[i] == entries[i]);
        let k = choose|k: int| 0 <= k < b.len() && b[k] == item_of_entry(entries[i]);
        assert(c[k] == b[k]);
    } else {
        assert(c[b.len() as int] == item_of_entry(entries[i]));
    }
}

/// Every item collected from a listing page comes from an entry with its
/// title and date, and it is free exactly when that entry's text contains
/// "Free" or contains "免費".
pub proof fn law_collected_news_free_label(entries: Seq<ListingEntryView>, inside: Seq<bool>)
    requires
        entries.len() <= inside.len(),
    ensures
        forall|k: int|
            0 <= k < collected_news(entries, inside).len() ==> exists|i: int|
                0 <= i < entries.len() && has_title_and_date(entries[i]) && inside[i]
                    && #[trigger] collected_news(entries, inside)[k].title == entries[i].title
                    && collected_news(entries, inside)[k].date == entries[i].date
                    && (collected_news(entries, inside)[k].is_free <==> (contains(entries[i].text, "Free"@)
                    || contains(entries[i].text, "免費"@))),
{
    law_collected_news_inside_window(entries, inside);
    let c = collected_news(entries, inside);
    assert forall|k: int| 0 <= k < c.len() implies exists|i: int|
        0 <= i < entries.len() && has_title_and_date(entries[i]) && inside[i] && #[trigger] c[k].title
            == entries[i].title && c[k].date == entries[i].date && (c[k].is_free <==> (contains(
            entries[i].text,
            "Free"@,
        ) || contains(entries[i].text, "免費"@))) by {
        let i = choose|i: int|
            0 <= i < entries.len() && has_title_and_date(entries[i]) && inside[i] && #[trigger] c[k]
                == item_of_entry(entries[i]);
        assert(c[k] == item_of_entry(entries[i]));
    }
}

/// The item of a listing entry is free exactly when the entry's text
/// contains "Free" or contains "免費".
pub proof fn law_free_label(e: ListingEntryView)
    ensures
        item_of_entry(e).is_free <==> (contains(e.text, "Free"@) || contains(e.text, "免費"@)),
        item_of_entry(e).title == e.title,
        item_of_entry(e).date == e.date,
{
}

/// The summary line of an entry's text.
pub fn summary_of(text: &Vec<char>, title: &Vec<char>) -> (res: Vec<char>)
    ensures
        res@ == first_summary(lines(text@), title@),
{
    let ls = lines_of(text.as_slice());
    let ghost lv = views(ls@);
    let mut i: usize = 0;
    assert(lv.skip(0) =~= lv);
    while i < ls.len()
        invariant
            i <= ls.len(),
            lv == views(ls@),
            lv == lines(text@),
            first_summary(lv, title@) == first_summary(lv.skip(i as int), title@),
        decreases ls.len() - i,
    {
        let ghost rest = lv.skip(i as int);
        assert(rest[0] == ls@[i as int]@);
        let t = trim_chars(ls[i].as_slice());
        if byte_len_exceeds(t.as_slice(), 20) && !contains_chars(t.as_slice(), title.as_slice())
            && !is_match(r"(\d{4}/\d{1,2}/\d{1,2})", string_of(t.as_slice()).as_str()) {
            return t;
        }
        assert(rest.skip(1) =~= lv.skip(i + 1));
        i = i + 1;
    }
    Vec::new()
}

/// The news item that a listing entry gives.
pub fn item_of(e: &ListingEntry) -> (res: NewsItem)
    ensures
        res@ == item_of_entry(e@),
{
    let url = replace_str(e.href.as_slice(), "&amp;", "&");
    let full = if starts_with_str(url.as_slice(), "http") {
        string_of(url.as_slice())
    } else if starts_with_str(url.as_slice(), "/") {
        let mut s = String::from_str("https://ieknet.iek.org.tw");
        push_chars(&mut s, url.as_slice());
        s
    } else {
        let mut s = String::from_str("https://ieknet.iek.org.tw/");
        push_chars(&mut s, url.as_slice());
        s
    };
    let is_free = contains_str(e.text.as_slice(), "Free") || contains_str(e.text.as_slice(), "免費");
    NewsItem {
        title: string_of(e.title.as_slice()),
        url: full,
        date: string_of(e.date.as_slice()),
        content: string_of(summary_of(&e.text, &e.title).as_slice()),
        is_free,
        detail_title: String::new(),
        media: String::new(),
        detail_date: String::new(),
        views: String::new(),
        detail_content: String::new(),
    }
}

/// The news items of the entries whose title and date are present and whose
/// date is inside the window (`inside[i]` for entry `i`), and whether some
/// entry with a title and a date fell outside the window.
pub fn collect_news(entries: &Vec<ListingEntry>, inside: &Vec<bool>) -> (res: (Vec<NewsItem>, bool))
    requires
        inside@.len() == entries@.len(),
    ensures
        item_views(res.0@) == collected_news(entry_views(entries@), inside@),
        res.1 == saw_old_news(entry_views(entries@), inside@),
{
    let ghost ev = entry_views(entries@);
    let mut items: Vec<NewsItem> = Vec::new();
    let mut has_old = false;
    let mut i: usize = 0;
    while i < entries.len()
        invariant
            i <= entries.len(),
            inside@.len() == entries@.len(),
            ev == entry_views(entries@),
            item_views(items@) == collected_news(ev.take(i as int), inside@),
            has_old == saw_old_news(ev.take(i as int), inside@),
        decreases entries.len() - i,
    {
        let e = &entries[i];
        let ghost before = item_views(items@);
        assert(ev.take(i + 1).drop_last() =~= ev.take(i as int));
        assert(ev.take(i + 1)[i as int] == e@);
        if e.title.len() > 0 && e.date.len() > 0 {
            if inside[i] {
                let item = item_of(e);
                items.push(item);
                assert(item_views(items@) =~= before + seq![item_of_entry(e@)]);
            } else {
                has_old = true;
                assert(item_views(items@) =~= before + Seq::<NewsItemView>::empty());
            }
        } else {
            assert(item_views(items@) =~= before + Seq::<NewsItemView>::empty());
        }
        proof {
            let t = ev.take(i + 1);
            if has_old {
                if !saw_old_news(ev.take(i as int), inside@) {
                    assert(has_title_and_date(t[i as int]) && !inside@[i as int]);
                }
            }
            if saw_old_news(t, inside@) {
                let j = choose|j: int| 0 <= j < t.len() && has_title_and_date(t[j]) && !inside@[j];
                if j < i {
                    assert(ev.take(i as int)[j] == t[j]);
                }
            }
            if saw_old_news(ev.take(i as int), inside@) {
                let j = choose|j: int| 0 <= j < i && has_title_and_date(ev.take(i as int)[j]) && !inside@[j];
                assert(t[j] == ev.take(i as int)[j]);
            }
        }
        i = i + 1;
    }
    assert(ev.take(entries.len() as int) =~= ev);
    (items, has_old)
}

/// The verdict `v` on a listing entry: an entry without a title or a date is
/// not judged (false); any other is judged by the date's window test.
pub open spec fn entry_verdict(e: ListingEntryView, cutoff: Timestamp, v: bool) -> bool {
    if has_title_and_date(e) {
        window_verdict(e.date, cutoff, v)
    } else {
        !v
    }
}

/// The news items of a listing page that fall inside the window that starts at
/// `cutoff`, and whether the page showed an entry older than that. Each entry
/// with a title and a date is kept exactly when its date, read in local time,
/// is inside the window (the window test of `is_within_hours`).
pub fn parse_news_with_check(html: &str, cutoff: Timestamp) -> (res: (Vec<NewsItem>, bool))
    ensures
        exists|inside: Seq<bool>| {
            &&& inside.len() == listing_entries(html@).len()
            &&& forall|i: int| 0 <= i < inside.len() ==> entry_verdict(listing_entries(html@)[i], cutoff, #[trigger] inside[i])
            &&& item_views(res.0@) == collected_news(listing_entries(html@), inside)
            &&& res.1 == saw_old_news(listing_entries(html@), inside)
        },
{
    let entries = listing_entries_of(html);
    let ghost ev = entry_views(entries@);
    let mut inside: Vec<bool> = Vec::new();
    let mut i: usize = 0;
    while i < entries.len()
        invariant
            i <= entries.len(),
            ev == entry_views(entries@),
            ev == listing_entries(html@),
            inside@.len() == i,
            forall|j: int| 0 <= j < i ==> entry_verdict(ev[j], cutoff, #[trigger] inside@[j]),
        decreases entries.len() - i,
    {
        let e = &entries[i];
        let verdict = if e.title.len() > 0 && e.date.len() > 0 {
            let d = string_of(e.date.as_slice());
            is_within_hours(d.as_str(), cutoff)
        } else {
            false
        };
        assert(ev[i as int] == e@);
        inside.push(verdict);
        i = i + 1;
    }
    let res = collect_news(&entries, &inside);
    assert(inside@.len() == listing_entries(html@).len());
    res
}

// ---------------------------------------------------------------- detail page

/// What a news page (or its cached copy) says of the news.
#[derive(Debug)]
pub struct NewsDetail {
    pub title: String,
    pub media: String,
    pub date: String,
    pub views: String,
    pub content: String,
}

/// The first of the texts, or nothing.
pub open spec fn first_or_nothing(v: Seq<Seq<char>>) -> Seq<char> {
    if v.len() > 0 {
        v[0]
    } else {
        seq![]
    }
}

/// The trimmed inner HTML of the first element that `selector` picks, or nothing.
pub open spec fn first_inner_html(html: Seq<char>, selector: Seq<char>) -> Seq<char> {
    trim(first_or_nothing(crate::html::selected_inner_html(html, selector)))
}

/// The trimmed text of the first element that `selector` picks, or nothing.
pub open spec fn first_text(html: Seq<char>, selector: Seq<char>) -> Seq<char> {
    let nodes = selected_text_nodes(html, selector);
    if nodes.len() > 0 {
        trim(concat(nodes[0]))
    } else {
        seq![]
    }
}

/// The trimmed inner HTML of the first element that `selector` picks in `html`.
fn first_inner_html_of(html: &str, selector: &str) -> (res: String)
    ensures
        res@ == first_inner_html(html@, selector@),
{
    let v = crate::html::inner_html_of(html, selector);
    if v.len() > 0 {
        string_of(trim_chars(v[0].as_slice()).as_slice())
    } else {
        let e: Vec<char> = Vec::new();
        let t = trim_chars(e.as_slice());
        string_of(t.as_slice())
    }
}

/// The trimmed text of the first element that `selector` picks in `html`.
fn first_text_of(html: &str, selector: &str) -> (res: String)
    ensures
        res@ == first_text(html@, selector@),
{
    let v = text_nodes_of(html, selector);
    if v.len() > 0 {
        string_of(trim_chars(concat_chars(&v[0]).as_slice()).as_slice())
    } else {
        String::new()
    }
}

/// What a news page says: its headline, media and reporter, date, view count
/// and article body.
pub open spec fn detail_of(html: Seq<char>) -> (Seq<char>, Seq<char>, Seq<char>, Seq<char>, Seq<char>) {
    (
        first_inner_html(html, "div.headingCh.mt-2#title"@),
        first_text(html, "li.list-inline-item.mr-4[title='媒體、記者']"@),
        first_text(html, "li.list-inline-item.mr-3[title='日期']"@),
        first_text(html, "li.list-inline-item[title='瀏覽數']"@),
        first_inner_html(html, "div.detailContent"@),
    )
}

/// Reads a news page or its cached copy.
pub fn parse_cached_html(html: &str) -> (res: NewsDetail)
    ensures
        (res.title@, res.media@, res.date@, res.views@, res.content@) == detail_of(html@),
{
    NewsDetail {
        title: first_inner_html_of(html, "div.headingCh.mt-2#title"),
        media: first_text_of(html, "li.list-inline-item.mr-4[title='媒體、記者']"),
        date: first_text_of(html, "li.list-inline-item.mr-3[title='日期']"),
        views: first_text_of(html, "li.list-inline-item[title='瀏覽數']"),
        content: first_inner_html_of(html, "div.detailContent"),
    }
}

/// The HTML fragment that keeps a news page's details in the cache.
pub open spec fn cache_fragment_of(d: (Seq<char>, Seq<char>, Seq<char>, Seq<char>, Seq<char>)) -> Seq<char> {
    "<div class=\"cached-news\">\n<div class=\"headingCh mt-2\" id=\"title\">"@ + d.0
        + "</div>\n<ul class=\"list-inline\">\n<li class=\"list-inline-item mr-4\" title=\"媒體、記者\">"@ + d.1
        + "</li>\n<li class=\"list-inline-item mr-3\" title=\"日期\">"@ + d.2
        + "</li>\n<li class=\"list-inline-item\" title=\"瀏覽數\">"@ + d.3
        + "</li>\n</ul>\n<div class=\"detailContent\">"@ + d.4 + "</div>\n</div>"@
}

/// The HTML fragment that keeps a news page's details in the cache.
pub fn cache_fragment(d: &NewsDetail) -> (res: String)
    ensures
        res@ == cache_fragment_of((d.title@, d.media@, d.date@, d.views@, d.content@)),
{
    let mut s = String::from_str("<div class=\"cached-news\">\n<div class=\"headingCh mt-2\" id=\"title\">");
    s.append(d.title.as_str());
    s.append("</div>\n<ul class=\"list-inline\">\n<li class=\"list-inline-item mr-4\" title=\"媒體、記者\">");
    s.append(d.media.as_str());
    s.append("</li>\n<li class=\"list-inline-item mr-3\" title=\"日期\">");
    s.append(d.date.as_str());
    s.append("</li>\n<li class=\"list-inline-item\" title=\"瀏覽數\">");
    s.append(d.views.as_str());
    s.append("</li>\n</ul>\n<div class=\"detailContent\">");
    s.append(d.content.as_str());
    s.append("</div>\n</div>");
    s
}

/// Where the cached copy of the news `id` is kept.
pub fn cache_path(id: &str) -> (res: String)
    ensures
        res@ == "news_cache/"@ + id@ + ".html"@,
{
    let mut s = String::from_str("news_cache/");
    s.append(id);
    s.append(".html");
    s
}

/// Whether the cached copy of a news page is read in place of the page: where
/// the cache file exists and is not empty.
pub fn cache_is_usable(exists: bool, size: u64) -> (res: bool)
    ensures
        res == (exists && size > 0),
{
    exists && size > 0
}

// ---------------------------------------------------------------- crawl steps

/// The pattern of the first news heading of a saved report, `## 1. [title](url)`,
/// with the URL as its group.
pub open spec fn first_heading_pattern() -> Seq<char> {
    r"##\s+1\.\s+\[.+?\]\((.+?)\)"@
}

/// The URL of the first news item of a saved Markdown report.
pub fn first_url_in_markdown(content: &str) -> (res: Option<String>)
    ensures
        match res {
            Some(u) => regex_group(first_heading_pattern(), content@, 1) == Some(u@),
            None => regex_group(first_heading_pattern(), content@, 1) is None,
        },
{
    match capture(r"##\s+1\.\s+\[.+?\]\((.+?)\)", content, 1) {
        Some(u) => Some(string_of(u.as_slice())),
        None => None,
    }
}

/// The address of the listing page `page_index`.
pub open spec fn listing_page_url_of(page_index: nat) -> Seq<char> {
    if page_index == 1 {
        "https://ieknet.iek.org.tw/ieknews/Default.aspx"@
    } else {
        "https://ieknet.iek.org.tw/ieknews/Default.aspx?currentPageIndex="@ + decimal(page_index)
    }
}

/// The address of the listing page `page_index`.
pub fn listing_page_url(page_index: usize) -> (res: String)
    ensures
        res@ == listing_page_url_of(page_index as nat),
{
    if page_index == 1 {
        String::from_str("https://ieknet.iek.org.tw/ieknews/Default.aspx")
    } else {
        let mut s = String::from_str("https://ieknet.iek.org.tw/ieknews/Default.aspx?currentPageIndex=");
        push_decimal(&mut s, page_index);
        s
    }
}

/// What the crawler does after reading a listing page.
#[derive(Debug, PartialEq, Eq, Structural)]
pub enum PageOutcome {
    /// The report of the day already starts with this page's first news: stop without writing.
    AlreadyDownloaded,
    /// Read the next listing page.
    NextPage,
    /// Stop reading listing pages and go on to the news pages.
    Done,
}

/// What follows a listing page: on the first page, a first news item whose URL
/// is the one the saved report starts with means the news is already
/// downloaded; otherwise a page that showed old news, or no news in the window,
/// ends the listing, and any other page leads to the next.
pub open spec fn page_outcome_of(
    page_index: nat,
    items: Seq<NewsItemView>,
    has_old_news: bool,
    existing_first_url: Option<Seq<char>>,
) -> PageOutcome {
    if page_index == 1 && items.len() > 0 && existing_first_url == Some(items[0].url) {
        PageOutcome::AlreadyDownloaded
    } else if has_old_news {
        PageOutcome::Done
    } else if items.len() == 0 {
        PageOutcome::Done
    } else {
        PageOutcome::NextPage
    }
}

/// A listing page that showed news older than the window ends the listing:
/// no next page is read after it.
pub proof fn law_old_news_ends_listing(
    page_index: nat,
    items: Seq<NewsItemView>,
    existing_first_url: Option<Seq<char>>,
)
    ensures
        page_outcome_of(page_index, items, true, existing_first_url) != PageOutcome::NextPage,
{
}

/// Where the saved report of the day starts with the first page's first news,
/// nothing more is read.
pub proof fn law_known_first_news_stops(items: Seq<NewsItemView>, has_old_news: bool)
    requires
        items.len() > 0,
    ensures
        page_outcome_of(1, items, has_old_news, Some(items[0].url)) == PageOutcome::AlreadyDownloaded,
{
}

/// What follows a listing page.
pub fn page_outcome(
    page_index: usize,
    items: &Vec<NewsItem>,
    has_old_news: bool,
    existing_first_url: &Option<String>,
) -> (res: PageOutcome)
    ensures
        res == page_outcome_of(page_index as nat, item_views(items@), has_old_news, crate::html::opt_view(*existing_first_url)),
{
    if page_index == 1 && items.len() > 0 {
        if let Some(existing) = existing_first_url {
            assert(item_views(items@)[0] == items@[0]@);
            let same = equal_str(items[0].url.as_str(), existing.as_str());
            if same {
                return PageOutcome::AlreadyDownloaded;
            }
        }
    }
    if has_old_news {
        PageOutcome::Done
    } else if items.len() == 0 {
        PageOutcome::Done
    } else {
        PageOutcome::NextPage
    }
}

/// Whether the report is written again after the news item `i` of `total`:
/// after every tenth item and after the last one.
pub fn should_save_progress(i: usize, total: usize) -> (res: bool)
    requires
        i < total,
    ensures
        res == ((i + 1) % 10 == 0 || i + 1 == total),
{
    (i + 1) % 10 == 0 || i + 1 == total
}

} // verus!
