//! A company's main business, as a stock profile page describes it, and the
//! list of products made from that description.
use vstd::prelude::*;
use crate::html::{root_text_nodes, root_text_of, strs};
use crate::text::{
    append_chars, append_range, byte_len, byte_len_capped, byte_len_exceeds, byte_prefix, byte_prefix_chars,
    contains_any, contains_any_of, occurs_at, chars_of, concat, concat_chars, find, find_chars, join,
    join_chars, lemma_find_contains, lines, lines_of, prefix_byte_len_capped, replace_all, replace_str,
    split_any, split_any_chars, string_of, trim, trim_chars, views,
};

verus! {

/// The characters at which a business description is cut into products.
pub open spec fn product_delimiters() -> Seq<char> {
    seq!['、', '，', ',', '；', ';', '及', '和', '與']
}

/// A trimmed piece that counts as a product: more than 2 and fewer than 100
/// bytes long.
pub open spec fn is_product(t: Seq<char>) -> bool {
    t.len() > 0 && 2 < byte_len(t) && byte_len(t) < 100
}

/// The trimmed pieces that count as products, in order.
pub open spec fn product_pieces(pieces: Seq<Seq<char>>) -> Seq<Seq<char>>
    decreases pieces.len(),
{
    if pieces.len() == 0 {
        seq![]
    } else {
        let before = product_pieces(pieces.drop_last());
        let t = trim(pieces.last());
        if is_product(t) {
            before.push(t)
        } else {
            before
        }
    }
}

/// The whole description as a single product: its first 200 bytes and `...`
/// where it is longer than that; `None` where byte 200 falls inside a character.
pub open spec fn whole_description_product(s: Seq<char>) -> Option<Seq<char>> {
    if byte_len(s) > 200 {
        match byte_prefix(s, 200) {
            Some(p) => Some(p + "..."@),
            None => None,
        }
    } else {
        Some(s)
    }
}

/// The product list made from a business description: the pieces between
/// delimiters that count as products, at most 10 of them; where there are
/// none, the whole description; for an empty description, `N/A`. `None`
/// where the whole description would be cut inside a character.
pub open spec fn business_products(s: Seq<char>) -> Option<Seq<Seq<char>>> {
    let found = product_pieces(split_any(s, product_delimiters()));
    if found.len() > 0 {
        Some(if found.len() > 10 { found.take(10) } else { found })
    } else if s.len() == 0 {
        Some(seq!["N/A"@])
    } else {
        match whole_description_product(s) {
            Some(w) => Some(seq![w]),
            None => None,
        }
    }
}

/// A product list holds at least one and at most ten products.
pub proof fn law_product_list_size(s: Seq<char>)
    requires
        business_products(s) is Some,
    ensures
        1 <= business_products(s)->0.len() <= 10,
{
}

fn product_delimiter_chars() -> (res: Vec<char>)
    ensures
        res@ == product_delimiters(),
{
    let v: Vec<char> = vec!['、', '，', ',', '；', ';', '及', '和', '與'];
    assert(v@ =~= product_delimiters());
    v
}

/// The trimmed pieces of `pieces` that count as products.
fn product_pieces_of(pieces: &Vec<Vec<char>>) -> (res: Vec<Vec<char>>)
    ensures
        views(res@) == product_pieces(views(pieces@)),
{
    let mut out: Vec<Vec<char>> = Vec::new();
    let mut i: usize = 0;
    while i < pieces.len()
        invariant
            i <= pieces.len(),
            views(out@) == product_pieces(views(pieces@).take(i as int)),
        decreases pieces.len() - i,
    {
        let t = trim_chars(pieces[i].as_slice());
        let n = byte_len_capped(t.as_slice(), 100);
        assert(views(pieces@).take(i + 1).drop_last() =~= views(pieces@).take(i as int));
        assert(views(pieces@).take(i + 1).last() == pieces@[i as int]@);
        if t.len() > 0 && 2 < n && n < 100 {
            let ghost before = views(out@);
            let ghost tv = t@;
            out.push(t);
            assert(views(out@) =~= before.push(tv));
        }
        i = i + 1;
    }
    assert(views(pieces@).take(pieces.len() as int) =~= views(pieces@));
    out
}

/// Whether `business_products` is defined for `business`, that is, whether
/// making its product list stays clear of cutting a character in two.
pub fn products_defined(business: &str) -> (res: bool)
    ensures
        res == business_products(business@) is Some,
{
    let s = chars_of(business);
    let delims = product_delimiter_chars();
    let pieces = split_any_chars(s.as_slice(), delims.as_slice());
    let found = product_pieces_of(&pieces);
    if found.len() > 0 || s.len() == 0 || !byte_len_exceeds(s.as_slice(), 200) {
        return true;
    }
    byte_prefix_chars(s.as_slice(), 200).is_some()
}

/// Turns a description of a company's main business into a list of products:
/// the description is cut at `、，,；;及和與`, each piece trimmed, and the pieces
/// of more than 2 and fewer than 100 bytes kept, at most 10 of them. Where no
/// piece is kept, the whole description is the one product (its first 200
/// bytes and `...` when it is longer); an empty description gives `N/A`.
pub fn parse_business_to_products(business: &str) -> (res: Vec<String>)
    requires
        business_products(business@) is Some,
    ensures
        business_products(business@) == Some(strs(res@)),
{
    let s = chars_of(business);
    let delims = product_delimiter_chars();
    let pieces = split_any_chars(s.as_slice(), delims.as_slice());
    let found = product_pieces_of(&pieces);
    let mut chosen: Vec<Vec<char>> = Vec::new();
    if found.len() > 0 {
        let mut i: usize = 0;
        while i < found.len() && i < 10
            invariant
                i <= found.len(),
                i <= 10,
                views(chosen@) == views(found@).take(i as int),
            decreases found.len() - i,
        {
            let ghost before = views(chosen@);
            let c = copy_piece(&found[i]);
            let ghost cv = c@;
            chosen.push(c);
            assert(views(chosen@) =~= before.push(cv));
            assert(views(found@).take(i + 1) =~= views(found@).take(i as int).push(found@[i as int]@));
            i = i + 1;
        }
        assert(found.len() <= 10 ==> views(found@).take(found.len() as int) =~= views(found@));
    } else if s.len() == 0 {
        chosen.push(chars_of("N/A"));
    } else if byte_len_exceeds(s.as_slice(), 200) {
        match byte_prefix_chars(s.as_slice(), 200) {
            Some(p) => {
                let mut w = p;
                let dots = chars_of("...");
                append_chars(&mut w, dots.as_slice());
                chosen.push(w);
            },
            None => {},
        }
    } else {
        chosen.push(s);
    }
    assert(business_products(business@) == Some(views(chosen@)));
    strings_of(&chosen)
}

fn copy_piece(v: &Vec<char>) -> (res: Vec<char>)
    ensures
        res@ == v@,
{
    let mut out: Vec<char> = Vec::new();
    append_chars(&mut out, v.as_slice());
    out
}

/// Each character vector as a string.
pub fn strings_of(v: &Vec<Vec<char>>) -> (res: Vec<String>)
    ensures
        strs(res@) == views(v@),
{
    let mut out: Vec<String> = Vec::new();
    let mut i: usize = 0;
    while i < v.len()
        invariant
            i <= v.len(),
            strs(out@) == views(v@).take(i as int),
        decreases v.len() - i,
    {
        let s = string_of(v[i].as_slice());
        let ghost before = out@;
        out.push(s);
        assert(strs(out@) =~= strs(before).push(v@[i as int]@));
        assert(views(v@).take(i + 1) =~= views(v@).take(i as int).push(v@[i as int]@));
        i = i + 1;
    }
    assert(views(v@).take(v.len() as int) =~= views(v@));
    out
}

/// Why no business description could be read from a page.
#[derive(Debug, PartialEq, Eq, Structural)]
pub enum BusinessError {
    /// The page has no main-business section, or what it holds is too short.
    NotFound,
}

impl BusinessError {
    /// The message that reports this error.
    pub fn message(&self) -> (res: &'static str)
        ensures
            res@ == "找不到主要經營業務"@,
    {
        "找不到主要經營業務"
    }
}

/// The heading after which a profile page describes the main business.
pub open spec fn business_heading() -> Seq<char> {
    "主要經營業務"@
}

/// The headings that may follow the business description.
pub open spec fn section_ends() -> Seq<Seq<char>> {
    seq![
        "配股資訊"@,
        "股利所屬期間"@,
        "公司地址"@,
        "市值"@,
        "簽證會計師"@,
        "已發行普通股數"@,
        "董監持股比例"@,
        "所屬集團"@,
        "產業類別"@,
        "財務資訊"@,
        "獲利能力"@,
    ]
}

/// Fragments that mark a line as page furniture rather than description.
pub open spec fn furniture_fragments() -> Seq<Seq<char>> {
    seq![
        "COMPANY_CPA"@,
        "Yahoo Finance"@,
        "服務條款"@,
        "隱私權"@,
        ".TW"@,
        ".TWO"@,
        "台股資料來源"@,
        "臺灣證券交易所"@,
        "財團法人"@,
    ]
}

/// The byte offset at which the description ends: `end`, lowered in turn for
/// each of `heads` to the byte offset of its first occurrence in `after`, where
/// that offset is past byte 5 and before the current end.
pub open spec fn cut_at_headings(after: Seq<char>, heads: Seq<Seq<char>>, end: nat) -> nat
    decreases heads.len(),
{
    if heads.len() == 0 {
        end
    } else {
        let e = cut_at_headings(after, heads.drop_last(), end);
        match find(after, heads.last()) {
            Some(k) => {
                let b = byte_len(after.take(k));
                if b < e && b > 5 {
                    b
                } else {
                    e
                }
            },
            None => e,
        }
    }
}

/// Where the description that follows the heading ends, in bytes: at most
/// 1000 bytes in, and before the first of the following headings.
pub open spec fn description_end(after: Seq<char>) -> nat {
    cut_at_headings(after, section_ends(), if byte_len(after) < 1000 { byte_len(after) } else { 1000 })
}

/// The text after the first business heading, if the text has one.
pub open spec fn after_heading(text: Seq<char>) -> Option<Seq<char>> {
    match find(text, business_heading()) {
        Some(k) => Some(text.skip(k + business_heading().len())),
        None => None,
    }
}

/// Cutting the description out of `text` keeps every character whole (it is
/// `None` exactly where the byte slice of the original would panic).
pub open spec fn description_cut(text: Seq<char>) -> Option<Option<Seq<char>>> {
    match after_heading(text) {
        Some(a) => match byte_prefix(a, description_end(a)) {
            Some(p) => Some(Some(p)),
            None => None,
        },
        None => Some(None),
    }
}

/// A trimmed line that belongs to the description: not empty, free of page
/// furniture, and more than 3 and fewer than 500 bytes long.
pub open spec fn is_description_line(t: Seq<char>) -> bool {
    t.len() > 0 && !contains_any(t, furniture_fragments()) && 3 < byte_len(t) && byte_len(t) < 500
}

/// The trimmed lines that belong to the description, in order.
pub open spec fn description_lines(ls: Seq<Seq<char>>) -> Seq<Seq<char>>
    decreases ls.len(),
{
    if ls.len() == 0 {
        seq![]
    } else {
        let before = description_lines(ls.drop_last());
        let t = trim(ls.last());
        if is_description_line(t) {
            before.push(t)
        } else {
            before
        }
    }
}

/// The description made from the cut text: its lines that belong to it,
/// joined with spaces, with `：`, `:`, `"` and `,` removed, and trimmed.
pub open spec fn description_text(cut: Seq<char>) -> Seq<char> {
    trim(
        replace_all(
            replace_all(
                replace_all(
                    replace_all(join(description_lines(lines(trim(cut))), " "@), "："@, ""@),
                    ":"@,
                    ""@,
                ),
                "\""@,
                ""@,
            ),
            ","@,
            ""@,
        ),
    )
}

/// The main business that `text` describes: the description after the
/// heading, where there is one of more than 5 bytes.
pub open spec fn business_in_text(text: Seq<char>) -> Option<Seq<char>> {
    match description_cut(text) {
        Some(Some(cut)) => {
            let d = description_text(cut);
            if d.len() > 0 && byte_len(d) > 5 {
                Some(d)
            } else {
                None
            }
        },
        _ => None,
    }
}

fn section_end_chars() -> (res: Vec<Vec<char>>)
    ensures
        views(res@) == section_ends(),
{
    let mut v: Vec<Vec<char>> = Vec::new();
    v.push(chars_of("配股資訊"));
    v.push(chars_of("股利所屬期間"));
    v.push(chars_of("公司地址"));
    v.push(chars_of("市值"));
    v.push(chars_of("簽證會計師"));
    v.push(chars_of("已發行普通股數"));
    v.push(chars_of("董監持股比例"));
    v.push(chars_of("所屬集團"));
    v.push(chars_of("產業類別"));
    v.push(chars_of("財務資訊"));
    v.push(chars_of("獲利能力"));
    assert(views(v@) =~= section_ends());
    v
}

fn furniture_chars() -> (res: Vec<Vec<char>>)
    ensures
        views(res@) == furniture_fragments(),
{
    let mut v: Vec<Vec<char>> = Vec::new();
    v.push(chars_of("COMPANY_CPA"));
    v.push(chars_of("Yahoo Finance"));
    v.push(chars_of("服務條款"));
    v.push(chars_of("隱私權"));
    v.push(chars_of(".TW"));
    v.push(chars_of(".TWO"));
    v.push(chars_of("台股資料來源"));
    v.push(chars_of("臺灣證券交易所"));
    v.push(chars_of("財團法人"));
    assert(views(v@) =~= furniture_fragments());
    v
}

/// Where the description that follows the heading ends, in bytes.
fn description_end_of(after: &[char]) -> (res: usize)
    ensures
        res == description_end(after@),
        res <= 1000,
{
    let start = byte_len_capped(after, 1000);
    let mut end = start;
    let heads = section_end_chars();
    let mut i: usize = 0;
    while i < heads.len()
        invariant
            i <= heads.len(),
            views(heads@) == section_ends(),
            end <= 1000,
            start == (if byte_len(after@) < 1000 { byte_len(after@) } else { 1000 }),
            end == cut_at_headings(after@, section_ends().take(i as int), start as nat),
        decreases heads.len() - i,
    {
        assert(section_ends().take(i + 1).drop_last() =~= section_ends().take(i as int));
        assert(section_ends().take(i + 1).last() == heads@[i as int]@);
        match find_chars(after, heads[i].as_slice()) {
            Some(k) => {
                proof {
                    lemma_find_contains(after@, heads@[i as int]@);
                }
                let b = prefix_byte_len_capped(after, k, 1001);
                if b < end && b > 5 {
                    end = b;
                }
            },
            None => {},
        }
        i = i + 1;
    }
    assert(section_ends().take(heads.len() as int) =~= section_ends());
    end
}

/// The trimmed lines of `ls` that belong to the description.
fn description_lines_of(ls: &Vec<Vec<char>>) -> (res: Vec<Vec<char>>)
    ensures
        views(res@) == description_lines(views(ls@)),
{
    let furniture = furniture_chars();
    let mut out: Vec<Vec<char>> = Vec::new();
    let mut i: usize = 0;
    while i < ls.len()
        invariant
            i <= ls.len(),
            views(furniture@) == furniture_fragments(),
            views(out@) == description_lines(views(ls@).take(i as int)),
        decreases ls.len() - i,
    {
        let t = trim_chars(ls[i].as_slice());
        let n = byte_len_capped(t.as_slice(), 500);
        assert(views(ls@).take(i + 1).drop_last() =~= views(ls@).take(i as int));
        assert(views(ls@).take(i + 1).last() == ls@[i as int]@);
        if t.len() > 0 && !contains_any_of(t.as_slice(), &furniture) && 3 < n && n < 500 {
            let ghost before = views(out@);
            let ghost tv = t@;
            out.push(t);
            assert(views(out@) =~= before.push(tv));
        }
        i = i + 1;
    }
    assert(views(ls@).take(ls.len() as int) =~= views(ls@));
    out
}

/// The description made from the cut text.
fn description_text_of(cut: &[char]) -> (res: Vec<char>)
    ensures
        res@ == description_text(cut@),
{
    let trimmed = trim_chars(cut);
    let ls = lines_of(trimmed.as_slice());
    let kept = description_lines_of(&ls);
    let space = chars_of(" ");
    let joined = join_chars(&kept, space.as_slice());
    let a = replace_str(joined.as_slice(), "：", "");
    let b = replace_str(a.as_slice(), ":", "");
    let c = replace_str(b.as_slice(), "\"", "");
    let d = replace_str(c.as_slice(), ",", "");
    trim_chars(d.as_slice())
}

/// The description cut out of `text`: `Some(None)` where `text` has no
/// heading, `None` where the cut would fall inside a character.
fn description_cut_of(text: &[char]) -> (res: Option<Option<Vec<char>>>)
    ensures
        match res {
            Some(Some(c)) => description_cut(text@) == Some(Some(c@)),
            Some(None) => description_cut(text@) == Some(None::<Seq<char>>),
            None => description_cut(text@) is None,
        },
{
    let heading = chars_of("主要經營業務");
    match find_chars(text, heading.as_slice()) {
        None => Some(None),
        Some(k) => {
            proof {
                lemma_find_contains(text@, heading@);
                assert(occurs_at(text@, heading@, k as int));
            }
            let hl = heading.len();
            let n = text.len();
            assert(k + hl <= n);
            let mut after: Vec<char> = Vec::new();
            append_range(&mut after, text, k + hl, n);
            assert(after@ =~= text@.skip(k + heading@.len()));
            let end = description_end_of(after.as_slice());
            match byte_prefix_chars(after.as_slice(), end) {
                Some(p) => Some(Some(p)),
                None => None,
            }
        },
    }
}

/// Whether reading the business description out of `text` keeps every
/// character whole.
pub fn business_cut_is_clean(text: &str) -> (res: bool)
    ensures
        res == description_cut(text@) is Some,
{
    let t = chars_of(text);
    description_cut_of(t.as_slice()).is_some()
}

/// The main business that `text` describes: the text after the heading
/// `主要經營業務`, up to the first following heading or 1000 bytes, kept line
/// by line where a line is not page furniture, joined with spaces and cleaned
/// of `：`, `:`, `"` and `,`. `NotFound` where the heading is missing or the
/// description has at most 5 bytes.
pub fn business_of_text(text: &str) -> (res: Result<String, BusinessError>)
    requires
        description_cut(text@) is Some,
    ensures
        match res {
            Ok(b) => business_in_text(text@) == Some(b@),
            Err(e) => e == BusinessError::NotFound && business_in_text(text@) is None,
        },
{
    let t = chars_of(text);
    match description_cut_of(t.as_slice()) {
        Some(Some(cut)) => {
            let d = description_text_of(cut.as_slice());
            if d.len() > 0 && byte_len_exceeds(d.as_slice(), 5) {
                Ok(string_of(d.as_slice()))
            } else {
                Err(BusinessError::NotFound)
            }
        },
        _ => Err(BusinessError::NotFound),
    }
}

/// The text of a profile page: its text nodes under the root element, one
/// after the other.
pub open spec fn page_text(html: Seq<char>) -> Seq<char> {
    concat(root_text_nodes(html))
}

/// Reads the main business out of a stock profile page: `None` where cutting
/// the description out of the page's text would split a character, else what
/// `business_of_text` gives for that text.
pub fn company_business_from_page(html: &str) -> (res: Option<Result<String, BusinessError>>)
    ensures
        match res {
            None => description_cut(page_text(html@)) is None,
            Some(Ok(b)) => business_in_text(page_text(html@)) == Some(b@),
            Some(Err(e)) => e == BusinessError::NotFound && business_in_text(page_text(html@)) is None,
        },
{
    let nodes = root_text_of(html);
    let text = concat_chars(&nodes);
    let s = string_of(text.as_slice());
    if !business_cut_is_clean(s.as_str()) {
        return None;
    }
    Some(business_of_text(s.as_str()))
}

/// The Yahoo ticker of a stock: `.TW` after the code for a listed company,
/// `.TWO` otherwise.
pub fn ticker_for(code: &str, market_type: &str) -> (res: String)
    ensures
        res@ == code@ + (if market_type@ == "上市"@ { ".TW"@ } else { ".TWO"@ }),
{
    let mut t = String::from_str(code);
    if crate::text::equal_str(market_type, "上市") {
        t.append(".TW");
    } else {
        t.append(".TWO");
    }
    t
}

/// The ticker to try after a failed lookup of `ticker`: the `.TWO` ticker of
/// the code where `ticker` ended in `.TW`, else none.
pub fn fallback_ticker(code: &str, ticker: &str) -> (res: Option<String>)
    ensures
        match res {
            Some(t) => crate::text::ends_with(ticker@, ".TW"@) && t@ == code@ + ".TWO"@,
            None => !crate::text::ends_with(ticker@, ".TW"@),
        },
{
    let tv = chars_of(ticker);
    if crate::text::ends_with_str(tv.as_slice(), ".TW") {
        let mut t = String::from_str(code);
        t.append(".TWO");
        Some(t)
    } else {
        None
    }
}

/// The address of a stock's profile page on Yahoo.
pub fn profile_url(ticker: &str) -> (res: String)
    ensures
        res@ == "https://tw.stock.yahoo.com/quote/"@ + ticker@ + "/profile"@,
{
    let mut u = String::from_str("https://tw.stock.yahoo.com/quote/");
    u.append(ticker);
    u.append("/profile");
    u
}

} // verus!
