//! Reading HTML with the `scraper` crate. Every wrapper parses its input as a
//! whole document and answers with plain values; a selector that `scraper`
//! cannot parse selects nothing.
use vstd::prelude::*;
use crate::text::{chars_of, views, views2};

verus! {

/// The character sequences held by a vector of strings.
pub open spec fn strs(v: Seq<String>) -> Seq<Seq<char>> {
    v.map_values(|s: String| s@)
}

/// The character sequences held by a vector of vectors of strings.
pub open spec fn strs2(v: Seq<Vec<String>>) -> Seq<Seq<Seq<char>>> {
    v.map_values(|x: Vec<String>| strs(x@))
}

/// The serialized HTML (`ElementRef::html`) of every element of the document
/// `html` that matches `selector`, in document order. With `scraper`'s
/// `deterministic` feature, which this crate turns on, attributes keep their
/// source order, so the text depends on the document and the selector alone.
pub uninterp spec fn selected_outer_html(html: Seq<char>, selector: Seq<char>) -> Seq<Seq<char>>;

/// The inner HTML (`ElementRef::inner_html`) of every element of the document
/// `html` that matches `selector`, in document order (attributes in source
/// order, under `scraper`'s `deterministic` feature).
pub uninterp spec fn selected_inner_html(html: Seq<char>, selector: Seq<char>) -> Seq<Seq<char>>;

/// For every element of the document `html` that matches `selector`, in
/// document order, its descendant text nodes (`ElementRef::text`), in order.
pub uninterp spec fn selected_text_nodes(html: Seq<char>, selector: Seq<char>) -> Seq<Seq<Seq<char>>>;

/// For every element of the document `html` that matches `selector`, in
/// document order, the value of its attribute `attr`, if it has one.
pub uninterp spec fn selected_attribute(html: Seq<char>, selector: Seq<char>, attr: Seq<char>) -> Seq<Option<Seq<char>>>;

/// For every element of the document `html` that matches `outer`, in document
/// order, and for every element under it that matches `inner`, in order, the
/// text nodes of that inner element.
pub uninterp spec fn selected_nested_text_nodes(html: Seq<char>, outer: Seq<char>, inner: Seq<char>) -> Seq<Seq<Seq<Seq<char>>>>;

/// The text nodes under the root element of the document `html`, in order.
pub uninterp spec fn root_text_nodes(html: Seq<char>) -> Seq<Seq<char>>;

/// Parses `html` with `scraper::Html::parse_document` and returns
/// `ElementRef::html` of each element that `scraper::Html::select` yields for
/// `selector`. The contract names that result; nothing more of it is stated.
#[verifier::external_body]
fn select_outer_html(html: &str, selector: &str) -> (res: Vec<String>)
    ensures
        strs(res@) == selected_outer_html(html@, selector@),
{
    let doc = scraper::Html::parse_document(html);
    let mut out = Vec::new();
    if let Ok(sel) = scraper::Selector::parse(selector) {
        for el in doc.select(&sel) {
            out.push(el.html());
        }
    }
    out
}

/// Parses `html` with `scraper::Html::parse_document` and returns
/// `ElementRef::inner_html` of each element that `scraper::Html::select`
/// yields for `selector`. The contract names that result.
#[verifier::external_body]
fn select_inner_html(html: &str, selector: &str) -> (res: Vec<String>)
    ensures
        strs(res@) == selected_inner_html(html@, selector@),
{
    let doc = scraper::Html::parse_document(html);
    let mut out = Vec::new();
    if let Ok(sel) = scraper::Selector::parse(selector) {
        for el in doc.select(&sel) {
            out.push(el.inner_html());
        }
    }
    out
}

/// Parses `html` with `scraper::Html::parse_document` and returns, for each
/// element that `scraper::Html::select` yields for `selector`, the text nodes
/// that `ElementRef::text` walks. The contract names that result.
#[verifier::external_body]
fn select_text_nodes(html: &str, selector: &str) -> (res: Vec<Vec<String>>)
    ensures
        strs2(res@) == selected_text_nodes(html@, selector@),
{
    let doc = scraper::Html::parse_document(html);
    let mut out = Vec::new();
    if let Ok(sel) = scraper::Selector::parse(selector) {
        for el in doc.select(&sel) {
            out.push(el.text().map(str::to_string).collect());
        }
    }
    out
}

/// Parses `html` with `scraper::Html::parse_document` and returns, for each
/// element that `scraper::Html::select` yields for `selector`, what
/// `Element::attr` gives for `attr`. The contract names that result.
#[verifier::external_body]
fn select_attribute(html: &str, selector: &str, attr: &str) -> (res: Vec<Option<String>>)
    ensures
        res@.map_values(|a: Option<String>| opt_view(a)) == selected_attribute(html@, selector@, attr@),
{
    let doc = scraper::Html::parse_document(html);
    let mut out = Vec::new();
    if let Ok(sel) = scraper::Selector::parse(selector) {
        for el in doc.select(&sel) {
            out.push(el.value().attr(attr).map(str::to_string));
        }
    }
    out
}

/// The character sequences held by three levels of vectors of strings.
pub open spec fn strs3(v: Seq<Vec<Vec<String>>>) -> Seq<Seq<Seq<Seq<char>>>> {
    v.map_values(|x: Vec<Vec<String>>| strs2(x@))
}

/// Parses `html` with `scraper::Html::parse_document`; for each element that
/// `scraper::Html::select` yields for `outer`, and for each element that
/// `ElementRef::select` yields under it for `inner`, returns the text nodes
/// that `ElementRef::text` walks. The contract names that result.
#[verifier::external_body]
fn select_nested_text_nodes(html: &str, outer: &str, inner: &str) -> (res: Vec<Vec<Vec<String>>>)
    ensures
        strs3(res@) == selected_nested_text_nodes(html@, outer@, inner@),
{
    let doc = scraper::Html::parse_document(html);
    let mut out = Vec::new();
    if let (Ok(o), Ok(i)) = (scraper::Selector::parse(outer), scraper::Selector::parse(inner)) {
        for el in doc.select(&o) {
            let mut cells = Vec::new();
            for cell in el.select(&i) {
                cells.push(cell.text().map(str::to_string).collect());
            }
            out.push(cells);
        }
    }
    out
}

/// Parses `html` with `scraper::Html::parse_document` and returns the text
/// nodes that `ElementRef::text` walks under `Html::root_element`. The
/// contract names that result.
#[verifier::external_body]
fn root_text(html: &str) -> (res: Vec<String>)
    ensures
        strs(res@) == root_text_nodes(html@),
{
    let doc = scraper::Html::parse_document(html);
    doc.root_element().text().map(str::to_string).collect()
}

/// The character sequence of an optional string.
pub open spec fn opt_view(a: Option<String>) -> Option<Seq<char>> {
    match a {
        Some(s) => Some(s@),
        None => None,
    }
}

/// The characters of each string.
pub fn chars_of_all(v: &Vec<String>) -> (res: Vec<Vec<char>>)
    ensures
        views(res@) == strs(v@),
{
    let mut out: Vec<Vec<char>> = Vec::new();
    let mut i: usize = 0;
    while i < v.len()
        invariant
            i <= v.len(),
            views(out@) == strs(v@).take(i as int),
        decreases v.len() - i,
    {
        let c = chars_of(v[i].as_str());
        let ghost before = out@;
        let ghost cv = c@;
        out.push(c);
        assert(out@ == before.push(c));
        assert(views(out@) =~= views(before).push(cv));
        assert(strs(v@).take(i + 1) =~= strs(v@).take(i as int).push(v@[i as int]@));
        i = i + 1;
    }
    assert(strs(v@).take(v.len() as int) =~= strs(v@));
    out
}

/// The serialized HTML of every element of `html` that matches `selector`.
pub fn outer_html_of(html: &str, selector: &str) -> (res: Vec<Vec<char>>)
    ensures
        views(res@) == selected_outer_html(html@, selector@),
{
    let v = select_outer_html(html, selector);
    chars_of_all(&v)
}

/// The inner HTML of every element of `html` that matches `selector`.
pub fn inner_html_of(html: &str, selector: &str) -> (res: Vec<Vec<char>>)
    ensures
        views(res@) == selected_inner_html(html@, selector@),
{
    let v = select_inner_html(html, selector);
    chars_of_all(&v)
}

/// For every element of `html` that matches `selector`, its text nodes.
pub fn text_nodes_of(html: &str, selector: &str) -> (res: Vec<Vec<Vec<char>>>)
    ensures
        views2(res@) == selected_text_nodes(html@, selector@),
{
    let v = select_text_nodes(html, selector);
    let mut out: Vec<Vec<Vec<char>>> = Vec::new();
    let mut i: usize = 0;
    while i < v.len()
        invariant
            i <= v.len(),
            strs2(v@) == selected_text_nodes(html@, selector@),
            out@.map_values(|x: Vec<Vec<char>>| views(x@)) == strs2(v@).take(i as int),
        decreases v.len() - i,
    {
        let c = chars_of_all(&v[i]);
        let ghost before = out@;
        let ghost cv = views(c@);
        out.push(c);
        assert(out@.map_values(|x: Vec<Vec<char>>| views(x@)) =~= before.map_values(
            |x: Vec<Vec<char>>| views(x@),
        ).push(cv));
        assert(strs2(v@).take(i + 1) =~= strs2(v@).take(i as int).push(strs(v@[i as int]@)));
        i = i + 1;
    }
    assert(strs2(v@).take(v.len() as int) =~= strs2(v@));
    out
}

/// For every element of `html` that matches `selector`, its attribute `attr`.
pub fn attribute_of(html: &str, selector: &str, attr: &str) -> (res: Vec<Option<Vec<char>>>)
    ensures
        res@.map_values(|a: Option<Vec<char>>| chars_opt(a)) == selected_attribute(html@, selector@, attr@),
{
    let v = select_attribute(html, selector, attr);
    let mut out: Vec<Option<Vec<char>>> = Vec::new();
    let mut i: usize = 0;
    while i < v.len()
        invariant
            i <= v.len(),
            v@.map_values(|a: Option<String>| opt_view(a)) == selected_attribute(html@, selector@, attr@),
            out@.map_values(|a: Option<Vec<char>>| chars_opt(a)) == v@.map_values(|a: Option<String>| opt_view(a)).take(i as int),
        decreases v.len() - i,
    {
        let item = match &v[i] {
            Some(a) => Some(chars_of(a.as_str())),
            None => None,
        };
        let ghost before = out@;
        let ghost iv = chars_opt(item);
        assert(iv == opt_view(v@[i as int]));
        out.push(item);
        assert(out@.map_values(|a: Option<Vec<char>>| chars_opt(a)) =~= before.map_values(
            |a: Option<Vec<char>>| chars_opt(a),
        ).push(iv));
        assert(v@.map_values(|a: Option<String>| opt_view(a)).take(i + 1) =~= v@.map_values(
            |a: Option<String>| opt_view(a),
        ).take(i as int).push(opt_view(v@[i as int])));
        i = i + 1;
    }
    assert(v@.map_values(|a: Option<String>| opt_view(a)).take(v.len() as int) =~= v@.map_values(
        |a: Option<String>| opt_view(a),
    ));
    out
}

/// The characters of an optional character vector.
pub open spec fn chars_opt(a: Option<Vec<char>>) -> Option<Seq<char>> {
    match a {
        Some(v) => Some(v@),
        None => None,
    }
}

/// The text nodes under the root element of `html`.
pub fn root_text_of(html: &str) -> (res: Vec<Vec<char>>)
    ensures
        views(res@) == root_text_nodes(html@),
{
    let v = root_text(html);
    chars_of_all(&v)
}

/// For every element of `html` that matches `outer`, and every element under
/// it that matches `inner`, the text nodes of that inner element.
pub fn nested_text_nodes_of(html: &str, outer: &str, inner: &str) -> (res: Vec<Vec<Vec<Vec<char>>>>)
    ensures
        res@.map_values(|x: Vec<Vec<Vec<char>>>| views2(x@)) == selected_nested_text_nodes(html@, outer@, inner@),
{
    let v = select_nested_text_nodes(html, outer, inner);
    let mut out: Vec<Vec<Vec<Vec<char>>>> = Vec::new();
    let mut i: usize = 0;
    while i < v.len()
        invariant
            i <= v.len(),
            strs3(v@) == selected_nested_text_nodes(html@, outer@, inner@),
            out@.map_values(|x: Vec<Vec<Vec<char>>>| views2(x@)) == strs3(v@).take(i as int),
        decreases v.len() - i,
    {
        let mut row: Vec<Vec<Vec<char>>> = Vec::new();
        let mut j: usize = 0;
        while j < v[i].len()
            invariant
                i < v.len(),
                j <= v[i as int]@.len(),
                views2(row@) == strs2(v[i as int]@).take(j as int),
            decreases v[i as int]@.len() - j,
        {
            let c = chars_of_all(&v[i][j]);
            let ghost before = row@;
            let ghost cv = views(c@);
            row.push(c);
            assert(views2(row@) =~= views2(before).push(cv));
            assert(strs2(v[i as int]@).take(j + 1) =~= strs2(v[i as int]@).take(j as int).push(strs(v[i as int]@[j as int]@)));
            j = j + 1;
        }
        assert(strs2(v[i as int]@).take(v[i as int]@.len() as int) =~= strs2(v[i as int]@));
        let ghost before = out@;
        let ghost rv = views2(row@);
        out.push(row);
        assert(out@.map_values(|x: Vec<Vec<Vec<char>>>| views2(x@)) =~= before.map_values(
            |x: Vec<Vec<Vec<char>>>| views2(x@),
        ).push(rv));
        assert(strs3(v@).take(i + 1) =~= strs3(v@).take(i as int).push(strs2(v@[i as int]@)));
        i = i + 1;
    }
    assert(strs3(v@).take(v.len() as int) =~= strs3(v@));
    out
}

} // verus!
