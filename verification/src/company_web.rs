//! Finding a company's own web site through a search page, reading the text
//! of that site, and asking a language model to sum up its products.
use vstd::prelude::*;
use vstd::utf8::encode_utf8;
use crate::codec::{percent_encoded, url_encode};
use crate::html::{attribute_of, chars_opt, selected_attribute, selected_text_nodes, text_nodes_of};
use crate::json::{json_string_at, path_view, string_at, JsonStep, JsonStepView};
use crate::pattern::{capture, regex_group};
use crate::text::{
    append_range, chars_of, contains, contains_any, contains_any_of,
    contains_str, join, join_chars, string_of, trim, trim_chars, views, words, words_of,
};

verus! {

/// The pattern that finds an address in a link: `http://` or `https://` and
/// everything up to white space or `&`.
pub fn plain_url_pattern() -> (res: &'static str)
    ensures
        res@ == "https?://[^\\s&]+"@,
{
    "https?://[^\\s&]+"
}

/// The pattern that finds an address in a link and also stops at quotes and
/// angle brackets.
pub fn quoted_url_pattern() -> (res: &'static str)
    ensures
        res@ == "https?://[^\\s&\"'<>]+"@,
{
    "https?://[^\\s&\"'<>]+"
}

/// The text searched for to find a company's web site.
pub open spec fn search_query(code: Seq<char>, name: Seq<char>) -> Seq<char> {
    code + " "@ + name + " 公司 官網"@
}

/// The Google search address for a company's official web site.
pub fn google_search_url(code: &str, name: &str) -> (res: String)
    ensures
        res@ == "https://www.google.com/search?q="@ + percent_encoded(encode_utf8(search_query(code@, name@))),
{
    let mut q = String::from_str(code);
    q.append(" ");
    q.append(name);
    q.append(" 公司 官網");
    let encoded = url_encode(q.as_str());
    let mut u = String::from_str("https://www.google.com/search?q=");
    u.append(encoded.as_str());
    u
}

/// Sites that are never a company's own.
pub open spec fn foreign_sites() -> Seq<Seq<char>> {
    seq!["google.com"@, "youtube.com"@, "facebook.com"@, "wikipedia.org"@, "yahoo.com"@, "goodinfo.tw"@]
}

/// An address that may be a company's own site: none of the foreign sites,
/// and under `.com.tw`, `.tw` or `.com`.
pub open spec fn is_company_site(url: Seq<char>) -> bool {
    !contains_any(url, foreign_sites()) && (contains(url, ".com.tw"@) || contains(url, ".tw"@)
        || contains(url, ".com"@))
}

fn foreign_site_chars() -> (res: Vec<Vec<char>>)
    ensures
        views(res@) == foreign_sites(),
{
    let mut v: Vec<Vec<char>> = Vec::new();
    v.push(chars_of("google.com"));
    v.push(chars_of("youtube.com"));
    v.push(chars_of("facebook.com"));
    v.push(chars_of("wikipedia.org"));
    v.push(chars_of("yahoo.com"));
    v.push(chars_of("goodinfo.tw"));
    assert(views(v@) =~= foreign_sites());
    v
}

/// Whether `url` may be a company's own site.
pub fn is_company_site_url(url: &str) -> (res: bool)
    ensures
        res == is_company_site(url@),
{
    let u = chars_of(url);
    let foreign = foreign_site_chars();
    !contains_any_of(u.as_slice(), &foreign) && (contains_str(u.as_slice(), ".com.tw") || contains_str(
        u.as_slice(),
        ".tw",
    ) || contains_str(u.as_slice(), ".com"))
}

/// The first address, among the links `hrefs` in order, that `pattern` finds
/// and that may be a company's own site.
pub open spec fn first_company_site(hrefs: Seq<Option<Seq<char>>>, pattern: Seq<char>) -> Option<Seq<char>>
    decreases hrefs.len(),
{
    if hrefs.len() == 0 {
        None
    } else {
        let rest = first_company_site(hrefs.skip(1), pattern);
        match hrefs[0] {
            Some(h) => match regex_group(pattern, h, 0) {
                Some(u) => if is_company_site(u) {
                    Some(u)
                } else {
                    rest
                },
                None => rest,
            },
            None => rest,
        }
    }
}

/// The link `h` holds an address in which `pattern` finds `u`.
pub open spec fn link_gives(h: Option<Seq<char>>, pattern: Seq<char>, u: Seq<char>) -> bool {
    match h {
        Some(t) => regex_group(pattern, t, 0) == Some(u),
        None => false,
    }
}

/// The site picked from a results page is never one of the foreign sites and
/// always lies under `.com.tw`, `.tw` or `.com`: it is an address that the
/// pattern found in one of the links.
pub proof fn law_picked_site_is_company_site(hrefs: Seq<Option<Seq<char>>>, pattern: Seq<char>)
    ensures
        first_company_site(hrefs, pattern) matches Some(u) ==> is_company_site(u) && exists|i: int|
            0 <= i < hrefs.len() && #[trigger] link_gives(hrefs[i], pattern, u),
    decreases hrefs.len(),
{
    if hrefs.len() > 0 {
        let rest = hrefs.skip(1);
        law_picked_site_is_company_site(rest, pattern);
        if let Some(u) = first_company_site(rest, pattern) {
            let i = choose|i: int| 0 <= i < rest.len() && #[trigger] link_gives(rest[i], pattern, u);
            assert(hrefs[i + 1] == rest[i]);
            assert(link_gives(hrefs[i + 1], pattern, u));
        }
        if let Some(h) = hrefs[0] {
            if let Some(u) = regex_group(pattern, h, 0) {
                if is_company_site(u) {
                    assert(link_gives(hrefs[0], pattern, u));
                }
            }
        }
    }
}

/// The company site that a search results page points to: the first link
/// (`a` element with an `href`) in which `pattern` finds an address that may
/// be a company's own site.
pub fn pick_company_website(html: &str, pattern: &str) -> (res: Option<String>)
    ensures
        match res {
            Some(u) => first_company_site(selected_attribute(html@, "a"@, "href"@), pattern@) == Some(u@),
            None => first_company_site(selected_attribute(html@, "a"@, "href"@), pattern@) is None,
        },
{
    let hrefs = attribute_of(html, "a", "href");
    let ghost all = hrefs@.map_values(|a: Option<Vec<char>>| chars_opt(a));
    let mut i: usize = 0;
    assert(all.skip(0) =~= all);
    while i < hrefs.len()
        invariant
            i <= hrefs.len(),
            all == hrefs@.map_values(|a: Option<Vec<char>>| chars_opt(a)),
            all == selected_attribute(html@, "a"@, "href"@),
            first_company_site(all, pattern@) == first_company_site(all.skip(i as int), pattern@),
        decreases hrefs.len() - i,
    {
        let ghost rest = all.skip(i as int);
        assert(rest.skip(1) =~= all.skip(i + 1));
        assert(rest[0] == chars_opt(hrefs@[i as int]));
        match &hrefs[i] {
            Some(h) => {
                let hs = string_of(h.as_slice());
                match capture(pattern, hs.as_str(), 0) {
                    Some(u) => {
                        let us = string_of(u.as_slice());
                        if is_company_site_url(us.as_str()) {
                            return Some(us);
                        }
                    },
                    None => {},
                }
            },
            None => {},
        }
        i = i + 1;
    }
    None
}

/// The text of a page's first `body` element: its text nodes joined with
/// spaces (empty where the page has no body).
pub open spec fn body_text(html: Seq<char>) -> Seq<char> {
    let bodies = selected_text_nodes(html, "body"@);
    if bodies.len() > 0 {
        join(bodies[0], " "@)
    } else {
        seq![]
    }
}

/// The content kept of a page's text: its words joined with single spaces,
/// cut to its first `limit` characters.
pub open spec fn content_of(text: Seq<char>, limit: nat) -> Seq<char> {
    let s = join(words(text), " "@);
    if s.len() > limit {
        s.take(limit as int)
    } else {
        s
    }
}

/// The content kept of a page is at most `limit` characters long, and is the
/// start of the page's tidied text.
pub proof fn law_content_within_limit(text: Seq<char>, limit: nat)
    ensures
        content_of(text, limit).len() <= limit,
        content_of(text, limit) == join(words(text), " "@).take(content_of(text, limit).len() as int),
{
    let s = join(words(text), " "@);
    if s.len() <= limit {
        assert(s.take(s.len() as int) =~= s);
    }
}

/// The content of a company's web page: the text of its first `body`, as
/// words joined with single spaces, cut to its first `limit` characters.
pub fn website_content(html: &str, limit: usize) -> (res: String)
    ensures
        res@ == content_of(body_text(html@), limit as nat),
{
    let bodies = text_nodes_of(html, "body");
    let mut text: Vec<char> = Vec::new();
    if bodies.len() > 0 {
        let space = chars_of(" ");
        text = join_chars(&bodies[0], space.as_slice());
    }
    let ws = words_of(text.as_slice());
    let space = chars_of(" ");
    let joined = join_chars(&ws, space.as_slice());
    if joined.len() > limit {
        let mut head: Vec<char> = Vec::new();
        append_range(&mut head, joined.as_slice(), 0, limit);
        assert(head@ =~= joined@.take(limit as int));
        string_of(head.as_slice())
    } else {
        string_of(joined.as_slice())
    }
}

/// The language-model services that can sum up a company's products.
#[derive(Debug, Clone, Copy, PartialEq, Eq, Structural)]
pub enum AiProvider {
    OpenAi,
    Anthropic,
}

/// Why no summary came back.
#[derive(Debug, Clone, Copy, PartialEq, Eq, Structural)]
pub enum AiError {
    /// Neither service has a key.
    MissingKey,
    /// The service's reply is not JSON.
    InvalidReply,
    /// The reply holds no summary where the service puts one.
    NoSummary,
}

impl AiError {
    /// The message that reports this error.
    pub fn message(&self) -> (res: &'static str)
        ensures
            *self == AiError::MissingKey ==> res@ == "未設定 AI API key (OPENAI_API_KEY 或 ANTHROPIC_API_KEY)"@,
            *self == AiError::InvalidReply ==> res@ == "無法讀取 AI 回應"@,
            *self == AiError::NoSummary ==> res@ == "無法解析 AI 回應"@,
    {
        match self {
            AiError::MissingKey => "未設定 AI API key (OPENAI_API_KEY 或 ANTHROPIC_API_KEY)",
            AiError::InvalidReply => "無法讀取 AI 回應",
            AiError::NoSummary => "無法解析 AI 回應",
        }
    }
}

/// Which service to ask, and with which key: OpenAI where it has a key, else
/// Anthropic where it has one.
pub fn choose_ai_provider(openai_key: Option<String>, anthropic_key: Option<String>) -> (res: Result<(AiProvider, String), AiError>)
    ensures
        match openai_key {
            Some(k) => res == Ok::<(AiProvider, String), AiError>((AiProvider::OpenAi, k)),
            None => match anthropic_key {
                Some(k) => res == Ok::<(AiProvider, String), AiError>((AiProvider::Anthropic, k)),
                None => res == Err::<(AiProvider, String), AiError>(AiError::MissingKey),
            },
        },
{
    match openai_key {
        Some(k) => Ok((AiProvider::OpenAi, k)),
        None => match anthropic_key {
            Some(k) => Ok((AiProvider::Anthropic, k)),
            None => Err(AiError::MissingKey),
        },
    }
}

/// What the model is told it is.
pub fn analyst_instructions() -> (res: &'static str)
    ensures
        res@ == "你是一個專業的商業分析師,擅長歸納公司的核心產品和服務。請用繁體中文回答,並控制在100字以內。"@,
{
    "你是一個專業的商業分析師,擅長歸納公司的核心產品和服務。請用繁體中文回答,並控制在100字以內。"
}

/// The request to sum up a company's products from its site's content.
pub fn summary_prompt(company_name: &str, content: &str) -> (res: String)
    ensures
        res@ == "請根據以下網站內容,用100字以內歸納「"@ + company_name@ + "」公司的主要產品或服務:\n\n"@ + content@,
{
    let mut p = String::from_str("請根據以下網站內容,用100字以內歸納「");
    p.append(company_name);
    p.append("」公司的主要產品或服務:\n\n");
    p.append(content);
    p
}

/// Where each service puts the summary in its reply.
pub open spec fn summary_path_of(provider: AiProvider) -> Seq<JsonStepView> {
    match provider {
        AiProvider::OpenAi => seq![
            JsonStepView::Key("choices"@),
            JsonStepView::Index(0),
            JsonStepView::Key("message"@),
            JsonStepView::Key("content"@),
        ],
        AiProvider::Anthropic => seq![
            JsonStepView::Key("content"@),
            JsonStepView::Index(0),
            JsonStepView::Key("text"@),
        ],
    }
}

/// The summary in a service's reply `body`: the string where the service puts
/// it, trimmed; `InvalidReply` where the body is not JSON, `NoSummary` where no
/// string stands there.
pub fn summary_from_reply(provider: AiProvider, body: &str) -> (res: Result<String, AiError>)
    ensures
        match json_string_at(body@, summary_path_of(provider)) {
            Ok(Some(s)) => res matches Ok(t) && t@ == trim(s),
            Ok(None) => res == Err::<String, AiError>(AiError::NoSummary),
            Err(()) => res == Err::<String, AiError>(AiError::InvalidReply),
        },
{
    let mut path: Vec<JsonStep> = Vec::new();
    match provider {
        AiProvider::OpenAi => {
            path.push(JsonStep::Key(String::from_str("choices")));
            path.push(JsonStep::Index(0));
            path.push(JsonStep::Key(String::from_str("message")));
            path.push(JsonStep::Key(String::from_str("content")));
        },
        AiProvider::Anthropic => {
            path.push(JsonStep::Key(String::from_str("content")));
            path.push(JsonStep::Index(0));
            path.push(JsonStep::Key(String::from_str("text")));
        },
    }
    assert(path_view(path@) =~= summary_path_of(provider));
    match string_at(body, &path) {
        Ok(Some(s)) => {
            let c = chars_of(s.as_str());
            let t = trim_chars(c.as_slice());
            Ok(string_of(t.as_slice()))
        },
        Ok(None) => Err(AiError::NoSummary),
        Err(()) => Err(AiError::InvalidReply),
    }
}

} // verus!
