//! Turning the collected news into Markdown and HTML reports.
use vstd::prelude::*;
use crate::news::{item_views, NewsItem, NewsItemView};
use crate::text::{
    contains, contains_chars, occurs_at, replace_all, replace_chars, replace_str, lemma_join_lacks, lemma_replace_absent, lemma_replace_head, lemma_replace_keeps_first, lemma_replace_skips, trim, trim_end, trim_start, trim_chars, chars_of,
    string_of, lemma_trim, lemma_contains_subrange, lemma_contains_middle, white_space, append_chars, decimal, join, join_chars,
    push_chars, push_decimal, views,
};

verus! {

/// Three line feeds.
pub open spec fn three_newlines() -> Seq<char> {
    seq!['\n', '\n', '\n']
}

/// Two line feeds.
pub open spec fn two_newlines() -> Seq<char> {
    seq!['\n', '\n']
}

/// Replacing a pattern by something shorter never lengthens the text, and
/// shortens it where the pattern occurs.
pub proof fn lemma_replace_shrinks(s: Seq<char>, p: Seq<char>, r: Seq<char>)
    requires
        r.len() < p.len(),
    ensures
        replace_all(s, p, r).len() <= s.len(),
        contains(s, p) ==> replace_all(s, p, r).len() < s.len(),
    decreases s.len(),
{
    if s.len() < p.len() {
        if contains(s, p) {
            let i = choose|i: int| occurs_at(s, p, i);
        }
    } else if s.take(p.len() as int) == p {
        lemma_replace_shrinks(s.skip(p.len() as int), p, r);
    } else {
        lemma_replace_shrinks(s.skip(1), p, r);
        if contains(s, p) {
            let i = choose|i: int| occurs_at(s, p, i);
            if i == 0 {
                assert(s.subrange(0, p.len() as int) =~= s.take(p.len() as int));
            } else {
                assert(s.skip(1).subrange(i - 1, i - 1 + p.len()) =~= s.subrange(i, i + p.len()));
                assert(occurs_at(s.skip(1), p, i - 1));
            }
        }
    }
}

/// `s` with every run of three or more line feeds cut down to two, by
/// replacing three line feeds with two for as long as there are three.
pub open spec fn collapse_blank_lines(s: Seq<char>) -> Seq<char>
    decreases s.len(),
{
    if contains(s, three_newlines()) {
        proof {
            lemma_replace_shrinks(s, three_newlines(), two_newlines());
        }
        collapse_blank_lines(replace_all(s, three_newlines(), two_newlines()))
    } else {
        s
    }
}

/// After collapsing, no three line feeds follow each other.
pub proof fn lemma_collapse_no_triple(s: Seq<char>)
    ensures
        !contains(collapse_blank_lines(s), three_newlines()),
    decreases s.len(),
{
    if contains(s, three_newlines()) {
        lemma_replace_shrinks(s, three_newlines(), two_newlines());
        lemma_collapse_no_triple(replace_all(s, three_newlines(), two_newlines()));
    }
}

/// `s` with the HTML tags that the converter knows turned into Markdown or
/// into line feeds and spaces, one replacement after the other.
pub open spec fn tags_replaced(s: Seq<char>) -> Seq<char> {
    let s = replace_all(s, "<p>"@, "\n"@);
    let s = replace_all(s, "</p>"@, "\n"@);
    let s = replace_all(s, "<br>"@, "\n"@);
    let s = replace_all(s, "<br/>"@, "\n"@);
    let s = replace_all(s, "<br />"@, "\n"@);
    let s = replace_all(s, "<h1>"@, "\n### "@);
    let s = replace_all(s, "</h1>"@, "\n"@);
    let s = replace_all(s, "<h2>"@, "\n### "@);
    let s = replace_all(s, "</h2>"@, "\n"@);
    let s = replace_all(s, "<h3>"@, "\n#### "@);
    let s = replace_all(s, "</h3>"@, "\n"@);
    let s = replace_all(s, "<h4>"@, "\n#### "@);
    let s = replace_all(s, "</h4>"@, "\n"@);
    let s = replace_all(s, "<strong>"@, "**"@);
    let s = replace_all(s, "</strong>"@, "**"@);
    let s = replace_all(s, "<b>"@, "**"@);
    let s = replace_all(s, "</b>"@, "**"@);
    let s = replace_all(s, "<em>"@, "*"@);
    let s = replace_all(s, "</em>"@, "*"@);
    let s = replace_all(s, "<i>"@, "*"@);
    let s = replace_all(s, "</i>"@, "*"@);
    let s = replace_all(s, "<ul>"@, "\n"@);
    let s = replace_all(s, "</ul>"@, "\n"@);
    let s = replace_all(s, "<ol>"@, "\n"@);
    let s = replace_all(s, "</ol>"@, "\n"@);
    let s = replace_all(s, "<li>"@, "- "@);
    let s = replace_all(s, "</li>"@, "\n"@);
    let s = replace_all(s, "<a "@, "\n["@);
    let s = replace_all(s, "</a>"@, "]"@);
    let s = replace_all(s, "<div>"@, "\n"@);
    let s = replace_all(s, "</div>"@, "\n"@);
    let s = replace_all(s, "<span>"@, ""@);
    let s = replace_all(s, "</span>"@, ""@);
    let s = replace_all(s, "<table>"@, " "@);
    let s = replace_all(s, "</table>"@, " "@);
    let s = replace_all(s, "<tr>"@, " "@);
    let s = replace_all(s, "</tr>"@, " "@);
    let s = replace_all(s, "<td>"@, " "@);
    let s = replace_all(s, "</td>"@, " "@);
    let s = replace_all(s, "<th>"@, " "@);
    let s = replace_all(s, "</th>"@, " "@);
    let s = replace_all(s, "<thead>"@, " "@);
    let s = replace_all(s, "</thead>"@, " "@);
    let s = replace_all(s, "<tbody>"@, " "@);
    let s = replace_all(s, "</tbody>"@, " "@);
    let s = replace_all(s, "<img>"@, " "@);
    let s = replace_all(s, "</img>"@, " "@);
    let s = replace_all(s, "<figure>"@, " "@);
    let s = replace_all(s, "</figure>"@, " "@);
    s
}

/// A tag that the text does not hold leaves it unchanged: the text is
/// `o + x + c` with its only possible starts of the tag at the fronts of `o`
/// and `c`, and the tag starts neither.
pub proof fn lemma_tag_kept(o: Seq<char>, x: Seq<char>, c: Seq<char>, p: Seq<char>, r: Seq<char>, k: int)
    requires
        p.len() > 0,
        o.len() > 0,
        c.len() > 0,
        !o.skip(1).contains(p[0]),
        !x.contains(p[0]),
        !c.skip(1).contains(p[0]),
        0 <= k < p.len(),
        k < o.len(),
        p[k] != o[k],
        p.len() > c.len() || exists|j: int| 0 <= j < p.len() && #[trigger] p[j] != c[j],
    ensures
        replace_all(o + x + c, p, r) == o + x + c,
{
    let t = o + x + c;
    if t.len() >= p.len() && t.take(p.len() as int) == p {
        assert(t.take(p.len() as int)[k] == t[k]);
    }
    lemma_replace_keeps_first(t, p, r);
    let m = o.skip(1) + x;
    assert(t.skip(1) =~= m + c);
    lemma_join_lacks(o.skip(1), x, p[0]);
    lemma_replace_skips(m, c, p, r);
    if c.len() >= p.len() && c.take(p.len() as int) == p {
        let j = choose|j: int| 0 <= j < p.len() && #[trigger] p[j] != c[j];
        assert(c.take(p.len() as int)[j] == c[j]);
    }
    lemma_replace_keeps_first(c, p, r);
    lemma_replace_absent(c.skip(1), p, r);
    assert(seq![c[0]] + c.skip(1) =~= c);
    assert(seq![t[0]] + (m + c) =~= t);
}

/// An opening and a closing tag around a text without tags become the
/// Markdown markers `r1` and `r2` around it.
pub proof fn lemma_tag_pair(o: Seq<char>, x: Seq<char>, c: Seq<char>, r1: Seq<char>, r2: Seq<char>, k: int)
    requires
        o.len() > 0,
        c.len() > 0,
        !x.contains(o[0]),
        !x.contains(c[0]),
        !r1.contains(c[0]),
        !c.skip(1).contains(o[0]),
        0 <= k < o.len(),
        k < c.len(),
        o[k] != c[k],
    ensures
        replace_all(replace_all(o + x + c, o, r1), c, r2) == r1 + x + r2,
{
    assert(o + x + c =~= o + (x + c));
    lemma_replace_head(o, x + c, r1);
    lemma_replace_skips(x, c, o, r1);
    if c.len() >= o.len() && c.take(o.len() as int) == o {
        assert(c.take(o.len() as int)[k] == c[k]);
    }
    lemma_replace_keeps_first(c, o, r1);
    lemma_replace_absent(c.skip(1), o, r1);
    assert(seq![c[0]] + c.skip(1) =~= c);
    assert(r1 + (x + c) =~= (r1 + x) + c);
    lemma_join_lacks(r1, x, c[0]);
    lemma_replace_skips(r1 + x, c, c, r2);
    assert(c + Seq::<char>::empty() =~= c);
    lemma_replace_head(c, Seq::<char>::empty(), r2);
    assert((r1 + x) + (r2 + Seq::<char>::empty()) =~= r1 + x + r2);
}

/// `<b>` and `</b>` around a text without tags become `**` around it.
pub proof fn lemma_bold_tags(x: Seq<char>)
    requires
        !x.contains('<'),
    ensures
        tags_replaced("<b>"@ + x + "</b>"@) == "**"@ + x + "**"@,
{
    reveal_strlit("**");
    reveal_strlit("</a>");
    reveal_strlit("</b>");
    reveal_strlit("</div>");
    reveal_strlit("</em>");
    reveal_strlit("</figure>");
    reveal_strlit("</h1>");
    reveal_strlit("</h2>");
    reveal_strlit("</h3>");
    reveal_strlit("</h4>");
    reveal_strlit("</i>");
    reveal_strlit("</img>");
    reveal_strlit("</li>");
    reveal_strlit("</ol>");
    reveal_strlit("</p>");
    reveal_strlit("</span>");
    reveal_strlit("</strong>");
    reveal_strlit("</table>");
    reveal_strlit("</tbody>");
    reveal_strlit("</td>");
    reveal_strlit("</th>");
    reveal_strlit("</thead>");
    reveal_strlit("</tr>");
    reveal_strlit("</ul>");
    reveal_strlit("<a ");
    reveal_strlit("<b>");
    reveal_strlit("<br />");
    reveal_strlit("<br/>");
    reveal_strlit("<br>");
    reveal_strlit("<div>");
    reveal_strlit("<em>");
    reveal_strlit("<figure>");
    reveal_strlit("<h1>");
    reveal_strlit("<h2>");
    reveal_strlit("<h3>");
    reveal_strlit("<h4>");
    reveal_strlit("<i>");
    reveal_strlit("<img>");
    reveal_strlit("<li>");
    reveal_strlit("<ol>");
    reveal_strlit("<p>");
    reveal_strlit("<span>");
    reveal_strlit("<strong>");
    reveal_strlit("<table>");
    reveal_strlit("<tbody>");
    reveal_strlit("<td>");
    reveal_strlit("<th>");
    reveal_strlit("<thead>");
    reveal_strlit("<tr>");
    reveal_strlit("<ul>");
    assert(!"**"@.contains('<'));
    lemma_join_lacks("**"@, x, '<');
    lemma_join_lacks("**"@ + x, "**"@, '<');
    let t = "<b>"@ + x + "</b>"@;
    let m = "**"@ + x + "**"@;
    assert(replace_all(t, "<p>"@, "\n"@) == t) by {
        assert("<p>"@[1] != "</b>"@[1]);
        lemma_tag_kept("<b>"@, x, "</b>"@, "<p>"@, "\n"@, 1);
    }
    assert(replace_all(t, "</p>"@, "\n"@) == t) by {
        assert("</p>"@[2] != "</b>"@[2]);
        lemma_tag_kept("<b>"@, x, "</b>"@, "</p>"@, "\n"@, 1);
    }
    assert(replace_all(t, "<br>"@, "\n"@) == t) by {
        assert("<br>"@[1] != "</b>"@[1]);
        lemma_tag_kept("<b>"@, x, "</b>"@, "<br>"@, "\n"@, 2);
    }
    assert(replace_all(t, "<br/>"@, "\n"@) == t) by {
        lemma_tag_kept("<b>"@, x, "</b>"@, "<br/>"@, "\n"@, 2);
    }
    assert(replace_all(t, "<br />"@, "\n"@) == t) by {
        lemma_tag_kept("<b>"@, x, "</b>"@, "<br />"@, "\n"@, 2);
    }
    assert(replace_all(t, "<h1>"@, "\n### "@) == t) by {
        assert("<h1>"@[1] != "</b>"@[1]);
        lemma_tag_kept("<b>"@, x, "</b>"@, "<h1>"@, "\n### "@, 1);
    }
    assert(replace_all(t, "</h1>"@, "\n"@) == t) by {
        lemma_tag_kept("<b>"@, x, "</b>"@, "</h1>"@, "\n"@, 1);
    }
    assert(replace_all(t, "<h2>"@, "\n### "@) == t) by {
        assert("<h2>"@[1] != "</b>"@[1]);
        lemma_tag_kept("<b>"@, x, "</b>"@, "<h2>"@, "\n### "@, 1);
    }
    assert(replace_all(t, "</h2>"@, "\n"@) == t) by {
        lemma_tag_kept("<b>"@, x, "</b>"@, "</h2>"@, "\n"@, 1);
    }
    assert(replace_all(t, "<h3>"@, "\n#### "@) == t) by {
        assert("<h3>"@[1] != "</b>"@[1]);
        lemma_tag_kept("<b>"@, x, "</b>"@, "<h3>"@, "\n#### "@, 1);
    }
    assert(replace_all(t, "</h3>"@, "\n"@) == t) by {
        lemma_tag_kept("<b>"@, x, "</b>"@, "</h3>"@, "\n"@, 1);
    }
    assert(replace_all(t, "<h4>"@, "\n#### "@) == t) by {
        assert("<h4>"@[1] != "</b>"@[1]);
        lemma_tag_kept("<b>"@, x, "</b>"@, "<h4>"@, "\n#### "@, 1);
    }
    assert(replace_all(t, "</h4>"@, "\n"@) == t) by {
        lemma_tag_kept("<b>"@, x, "</b>"@, "</h4>"@, "\n"@, 1);
    }
    assert(replace_all(t, "<strong>"@, "**"@) == t) by {
        lemma_tag_kept("<b>"@, x, "</b>"@, "<strong>"@, "**"@, 1);
    }
    assert(replace_all(t, "</strong>"@, "**"@) == t) by {
        lemma_tag_kept("<b>"@, x, "</b>"@, "</strong>"@, "**"@, 1);
    }
    lemma_tag_pair("<b>"@, x, "</b>"@, "**"@, "**"@, 1);
    lemma_replace_absent(m, "<em>"@, "*"@);
    lemma_replace_absent(m, "</em>"@, "*"@);
    lemma_replace_absent(m, "<i>"@, "*"@);
    lemma_replace_absent(m, "</i>"@, "*"@);
    lemma_replace_absent(m, "<ul>"@, "\n"@);
    lemma_replace_absent(m, "</ul>"@, "\n"@);
    lemma_replace_absent(m, "<ol>"@, "\n"@);
    lemma_replace_absent(m, "</ol>"@, "\n"@);
    lemma_replace_absent(m, "<li>"@, "- "@);
    lemma_replace_absent(m, "</li>"@, "\n"@);
    lemma_replace_absent(m, "<a "@, "\n["@);
    lemma_replace_absent(m, "</a>"@, "]"@);
    lemma_replace_absent(m, "<div>"@, "\n"@);
    lemma_replace_absent(m, "</div>"@, "\n"@);
    lemma_replace_absent(m, "<span>"@, ""@);
    lemma_replace_absent(m, "</span>"@, ""@);
    lemma_replace_absent(m, "<table>"@, " "@);
    lemma_replace_absent(m, "</table>"@, " "@);
    lemma_replace_absent(m, "<tr>"@, " "@);
    lemma_replace_absent(m, "</tr>"@, " "@);
    lemma_replace_absent(m, "<td>"@, " "@);
    lemma_replace_absent(m, "</td>"@, " "@);
    lemma_replace_absent(m, "<th>"@, " "@);
    lemma_replace_absent(m, "</th>"@, " "@);
    lemma_replace_absent(m, "<thead>"@, " "@);
    lemma_replace_absent(m, "</thead>"@, " "@);
    lemma_replace_absent(m, "<tbody>"@, " "@);
    lemma_replace_absent(m, "</tbody>"@, " "@);
    lemma_replace_absent(m, "<img>"@, " "@);
    lemma_replace_absent(m, "</img>"@, " "@);
    lemma_replace_absent(m, "<figure>"@, " "@);
    lemma_replace_absent(m, "</figure>"@, " "@);
}

/// `<strong>` and `</strong>` around a text without tags become `**` around it.
pub proof fn lemma_strong_tags(x: Seq<char>)
    requires
        !x.contains('<'),
    ensures
        tags_replaced("<strong>"@ + x + "</strong>"@) == "**"@ + x + "**"@,
{
    reveal_strlit("**");
    reveal_strlit("</a>");
    reveal_strlit("</b>");
    reveal_strlit("</div>");
    reveal_strlit("</em>");
    reveal_strlit("</figure>");
    reveal_strlit("</h1>");
    reveal_strlit("</h2>");
    reveal_strlit("</h3>");
    reveal_strlit("</h4>");
    reveal_strlit("</i>");
    reveal_strlit("</img>");
    reveal_strlit("</li>");
    reveal_strlit("</ol>");
    reveal_strlit("</p>");
    reveal_strlit("</span>");
    reveal_strlit("</strong>");
    reveal_strlit("</table>");
    reveal_strlit("</tbody>");
    reveal_strlit("</td>");
    reveal_strlit("</th>");
    reveal_strlit("</thead>");
    reveal_strlit("</tr>");
    reveal_strlit("</ul>");
    reveal_strlit("<a ");
    reveal_strlit("<b>");
    reveal_strlit("<br />");
    reveal_strlit("<br/>");
    reveal_strlit("<br>");
    reveal_strlit("<div>");
    reveal_strlit("<em>");
    reveal_strlit("<figure>");
    reveal_strlit("<h1>");
    reveal_strlit("<h2>");
    reveal_strlit("<h3>");
    reveal_strlit("<h4>");
    reveal_strlit("<i>");
    reveal_strlit("<img>");
    reveal_strlit("<li>");
    reveal_strlit("<ol>");
    reveal_strlit("<p>");
    reveal_strlit("<span>");
    reveal_strlit("<strong>");
    reveal_strlit("<table>");
    reveal_strlit("<tbody>");
    reveal_strlit("<td>");
    reveal_strlit("<th>");
    reveal_strlit("<thead>");
    reveal_strlit("<tr>");
    reveal_strlit("<ul>");
    assert(!"**"@.contains('<'));
    lemma_join_lacks("**"@, x, '<');
    lemma_join_lacks("**"@ + x, "**"@, '<');
    let t = "<strong>"@ + x + "</strong>"@;
    let m = "**"@ + x + "**"@;
    assert(replace_all(t, "<p>"@, "\n"@) == t) by {
        assert("<p>"@[1] != "</strong>"@[1]);
        lemma_tag_kept("<strong>"@, x, "</strong>"@, "<p>"@, "\n"@, 1);
    }
    assert(replace_all(t, "</p>"@, "\n"@) == t) by {
        assert("</p>"@[2] != "</strong>"@[2]);
        lemma_tag_kept("<strong>"@, x, "</strong>"@, "</p>"@, "\n"@, 1);
    }
    assert(replace_all(t, "<br>"@, "\n"@) == t) by {
        assert("<br>"@[1] != "</strong>"@[1]);
        lemma_tag_kept("<strong>"@, x, "</strong>"@, "<br>"@, "\n"@, 1);
    }
    assert(replace_all(t, "<br/>"@, "\n"@) == t) by {
        assert("<br/>"@[1] != "</strong>"@[1]);
        lemma_tag_kept("<strong>"@, x, "</strong>"@, "<br/>"@, "\n"@, 1);
    }
    assert(replace_all(t, "<br />"@, "\n"@) == t) by {
        assert("<br />"@[1] != "</strong>"@[1]);
        lemma_tag_kept("<strong>"@, x, "</strong>"@, "<br />"@, "\n"@, 1);
    }
    assert(replace_all(t, "<h1>"@, "\n### "@) == t) by {
        assert("<h1>"@[1] != "</strong>"@[1]);
        lemma_tag_kept("<strong>"@, x, "</strong>"@, "<h1>"@, "\n### "@, 1);
    }
    assert(replace_all(t, "</h1>"@, "\n"@) == t) by {
        assert("</h1>"@[2] != "</strong>"@[2]);
        lemma_tag_kept("<strong>"@, x, "</strong>"@, "</h1>"@, "\n"@, 1);
    }
    assert(replace_all(t, "<h2>"@, "\n### "@) == t) by {
        assert("<h2>"@[1] != "</strong>"@[1]);
        lemma_tag_kept("<strong>"@, x, "</strong>"@, "<h2>"@, "\n### "@, 1);
    }
    assert(replace_all(t, "</h2>"@, "\n"@) == t) by {
        assert("</h2>"@[2] != "</strong>"@[2]);
        lemma_tag_kept("<strong>"@, x, "</strong>"@, "</h2>"@, "\n"@, 1);
    }
    assert(replace_all(t, "<h3>"@, "\n#### "@) == t) by {
        assert("<h3>"@[1] != "</strong>"@[1]);
        lemma_tag_kept("<strong>"@, x, "</strong>"@, "<h3>"@, "\n#### "@, 1);
    }
    assert(replace_all(t, "</h3>"@, "\n"@) == t) by {
        assert("</h3>"@[2] != "</strong>"@[2]);
        lemma_tag_kept("<strong>"@, x, "</strong>"@, "</h3>"@, "\n"@, 1);
    }
    assert(replace_all(t, "<h4>"@, "\n#### "@) == t) by {
        assert("<h4>"@[1] != "</strong>"@[1]);
        lemma_tag_kept("<strong>"@, x, "</strong>"@, "<h4>"@, "\n#### "@, 1);
    }
    assert(replace_all(t, "</h4>"@, "\n"@) == t) by {
        assert("</h4>"@[2] != "</strong>"@[2]);
        lemma_tag_kept("<strong>"@, x, "</strong>"@, "</h4>"@, "\n"@, 1);
    }
    lemma_tag_pair("<strong>"@, x, "</strong>"@, "**"@, "**"@, 1);
    lemma_replace_absent(m, "<b>"@, "**"@);
    lemma_replace_absent(m, "</b>"@, "**"@);
    lemma_replace_absent(m, "<em>"@, "*"@);
    lemma_replace_absent(m, "</em>"@, "*"@);
    lemma_replace_absent(m, "<i>"@, "*"@);
    lemma_replace_absent(m, "</i>"@, "*"@);
    lemma_replace_absent(m, "<ul>"@, "\n"@);
    lemma_replace_absent(m, "</ul>"@, "\n"@);
    lemma_replace_absent(m, "<ol>"@, "\n"@);
    lemma_replace_absent(m, "</ol>"@, "\n"@);
    lemma_replace_absent(m, "<li>"@, "- "@);
    lemma_replace_absent(m, "</li>"@, "\n"@);
    lemma_replace_absent(m, "<a "@, "\n["@);
    lemma_replace_absent(m, "</a>"@, "]"@);
    lemma_replace_absent(m, "<div>"@, "\n"@);
    lemma_replace_absent(m, "</div>"@, "\n"@);
    lemma_replace_absent(m, "<span>"@, ""@);
    lemma_replace_absent(m, "</span>"@, ""@);
    lemma_replace_absent(m, "<table>"@, " "@);
    lemma_replace_absent(m, "</table>"@, " "@);
    lemma_replace_absent(m, "<tr>"@, " "@);
    lemma_replace_absent(m, "</tr>"@, " "@);
    lemma_replace_absent(m, "<td>"@, " "@);
    lemma_replace_absent(m, "</td>"@, " "@);
    lemma_replace_absent(m, "<th>"@, " "@);
    lemma_replace_absent(m, "</th>"@, " "@);
    lemma_replace_absent(m, "<thead>"@, " "@);
    lemma_replace_absent(m, "</thead>"@, " "@);
    lemma_replace_absent(m, "<tbody>"@, " "@);
    lemma_replace_absent(m, "</tbody>"@, " "@);
    lemma_replace_absent(m, "<img>"@, " "@);
    lemma_replace_absent(m, "</img>"@, " "@);
    lemma_replace_absent(m, "<figure>"@, " "@);
    lemma_replace_absent(m, "</figure>"@, " "@);
}

/// The Markdown that `convert_html_to_markdown` makes of `html`.
pub open spec fn html_to_markdown(html: Seq<char>) -> Seq<char> {
    trim(collapse_blank_lines(tags_replaced(html)))
}

/// The Markdown made of an HTML fragment never holds three line feeds in a
/// row, and has no white space at its ends.
pub proof fn lemma_markdown_is_tidy(html: Seq<char>)
    ensures
        !contains(html_to_markdown(html), three_newlines()),
        html_to_markdown(html).len() > 0 ==> !white_space(html_to_markdown(html)[0]) && !white_space(
            html_to_markdown(html).last(),
        ),
{
    let c = collapse_blank_lines(tags_replaced(html));
    lemma_collapse_no_triple(tags_replaced(html));
    lemma_trim(c);
    let (a, b) = choose|a: int, b: int| 0 <= a <= b <= c.len() && trim(c) == c.subrange(a, b);
    if contains(trim(c), three_newlines()) {
        lemma_contains_subrange(c, three_newlines(), a, b);
    }
}

/// Bold tags become Markdown bold: for a text `x` without tags, `<b>` and
/// `</b>` around it become `**` around it, as `<strong>` and `</strong>` do,
/// and the Markdown of `<b>x</b>` is `**x**` with only line-feed runs cut
/// and white space at the ends trimmed. Where `x` holds no three line feeds
/// in a row and `*` is not white space, the Markdown is exactly `**x**`.
pub proof fn law_bold_becomes_markdown_bold(x: Seq<char>)
    requires
        !x.contains('<'),
    ensures
        tags_replaced("<b>"@ + x + "</b>"@) == "**"@ + x + "**"@,
        html_to_markdown("<b>"@ + x + "</b>"@) == html_to_markdown("<strong>"@ + x + "</strong>"@),
        html_to_markdown("<b>"@ + x + "</b>"@) == trim(collapse_blank_lines("**"@ + x + "**"@)),
        !contains(x, three_newlines()) ==> html_to_markdown("<b>"@ + x + "</b>"@) == trim("**"@ + x + "**"@),
        !contains(x, three_newlines()) && !white_space('*') ==> html_to_markdown("<b>"@ + x + "</b>"@) == "**"@
            + x + "**"@,
{
    lemma_bold_tags(x);
    lemma_strong_tags(x);
    let m = "**"@ + x + "**"@;
    reveal_strlit("**");
    if !contains(x, three_newlines()) {
        if contains(m, three_newlines()) {
            let i = choose|i: int| occurs_at(m, three_newlines(), i);
            assert(m.subrange(i, i + 3)[0] == m[i]);
            assert(m.subrange(i, i + 3)[2] == m[i + 2]);
            assert(2 <= i && i + 3 <= x.len() + 2);
            assert(x.subrange(i - 2, i + 1) =~= m.subrange(i, i + 3));
            assert(occurs_at(x, three_newlines(), i - 2));
        }
        assert(collapse_blank_lines(m) == m);
        if !white_space('*') {
            assert(m[0] == '*');
            assert(trim_start(m) == m);
            assert(m.last() == '*');
            assert(trim_end(m) == m);
        }
    }
}

/// Turns an HTML fragment into Markdown: paragraphs, breaks, lists, `div`s
/// into line feeds, headings into `###`/`####`, bold and italic into `**`/`*`,
/// links into `[...]`, table and figure tags into spaces, `span` tags dropped;
/// then runs of blank lines cut to one and the ends trimmed.
pub fn convert_html_to_markdown(html: &str) -> (res: String)
    ensures
        res@ == html_to_markdown(html@),
{
    let t = chars_of(html);
    let t = replace_str(t.as_slice(), "<p>", "\n");
    let t = replace_str(t.as_slice(), "</p>", "\n");
    let t = replace_str(t.as_slice(), "<br>", "\n");
    let t = replace_str(t.as_slice(), "<br/>", "\n");
    let t = replace_str(t.as_slice(), "<br />", "\n");
    let t = replace_str(t.as_slice(), "<h1>", "\n### ");
    let t = replace_str(t.as_slice(), "</h1>", "\n");
    let t = replace_str(t.as_slice(), "<h2>", "\n### ");
    let t = replace_str(t.as_slice(), "</h2>", "\n");
    let t = replace_str(t.as_slice(), "<h3>", "\n#### ");
    let t = replace_str(t.as_slice(), "</h3>", "\n");
    let t = replace_str(t.as_slice(), "<h4>", "\n#### ");
    let t = replace_str(t.as_slice(), "</h4>", "\n");
    let t = replace_str(t.as_slice(), "<strong>", "**");
    let t = replace_str(t.as_slice(), "</strong>", "**");
    let t = replace_str(t.as_slice(), "<b>", "**");
    let t = replace_str(t.as_slice(), "</b>", "**");
    let t = replace_str(t.as_slice(), "<em>", "*");
    let t = replace_str(t.as_slice(), "</em>", "*");
    let t = replace_str(t.as_slice(), "<i>", "*");
    let t = replace_str(t.as_slice(), "</i>", "*");
    let t = replace_str(t.as_slice(), "<ul>", "\n");
    let t = replace_str(t.as_slice(), "</ul>", "\n");
    let t = replace_str(t.as_slice(), "<ol>", "\n");
    let t = replace_str(t.as_slice(), "</ol>", "\n");
    let t = replace_str(t.as_slice(), "<li>", "- ");
    let t = replace_str(t.as_slice(), "</li>", "\n");
    let t = replace_str(t.as_slice(), "<a ", "\n[");
    let t = replace_str(t.as_slice(), "</a>", "]");
    let t = replace_str(t.as_slice(), "<div>", "\n");
    let t = replace_str(t.as_slice(), "</div>", "\n");
    let t = replace_str(t.as_slice(), "<span>", "");
    let t = replace_str(t.as_slice(), "</span>", "");
    let t = replace_str(t.as_slice(), "<table>", " ");
    let t = replace_str(t.as_slice(), "</table>", " ");
    let t = replace_str(t.as_slice(), "<tr>", " ");
    let t = replace_str(t.as_slice(), "</tr>", " ");
    let t = replace_str(t.as_slice(), "<td>", " ");
    let t = replace_str(t.as_slice(), "</td>", " ");
    let t = replace_str(t.as_slice(), "<th>", " ");
    let t = replace_str(t.as_slice(), "</th>", " ");
    let t = replace_str(t.as_slice(), "<thead>", " ");
    let t = replace_str(t.as_slice(), "</thead>", " ");
    let t = replace_str(t.as_slice(), "<tbody>", " ");
    let t = replace_str(t.as_slice(), "</tbody>", " ");
    let t = replace_str(t.as_slice(), "<img>", " ");
    let t = replace_str(t.as_slice(), "</img>", " ");
    let t = replace_str(t.as_slice(), "<figure>", " ");
    let t = replace_str(t.as_slice(), "</figure>", " ");
    let nl3: Vec<char> = vec!['\n', '\n', '\n'];
    let nl2: Vec<char> = vec!['\n', '\n'];
    assert(nl3@ == three_newlines());
    assert(nl2@ == two_newlines());
    let mut text = t;
    while contains_chars(text.as_slice(), nl3.as_slice())
        invariant
            nl3@ == three_newlines(),
            nl2@ == two_newlines(),
            collapse_blank_lines(text@) == collapse_blank_lines(tags_replaced(html@)),
        decreases text@.len(),
    {
        proof {
            lemma_replace_shrinks(text@, three_newlines(), two_newlines());
        }
        text = replace_chars(text.as_slice(), nl3.as_slice(), nl2.as_slice());
    }
    string_of(trim_chars(text.as_slice()).as_slice())
}


/// The title shown for a news item: the one of its page, else the one of the listing.
pub open spec fn shown_title(item: NewsItemView) -> Seq<char> {
    if item.detail_title.len() > 0 {
        item.detail_title
    } else {
        item.title
    }
}

/// The body shown for a news item, as Markdown: its page's article, else the
/// listing summary, else nothing.
pub open spec fn shown_body_markdown(item: NewsItemView) -> Seq<char> {
    if item.detail_content.len() > 0 {
        html_to_markdown(item.detail_content)
    } else if item.content.len() > 0 {
        html_to_markdown(item.content)
    } else {
        seq![]
    }
}

/// `[piece]` when `cond` holds, else nothing.
pub open spec fn part_if(cond: bool, piece: Seq<char>) -> Seq<Seq<char>> {
    if cond {
        seq![piece]
    } else {
        seq![]
    }
}

/// The facts shown on a news item's information line.
pub open spec fn info_parts(item: NewsItemView) -> Seq<Seq<char>> {
    seq!["📅 "@ + item.date] + part_if(item.is_free, "🆓 **免費**"@) + part_if(item.media.len() > 0, "📰 "@ + item.media)
        + part_if(item.detail_date.len() > 0, "🕒 "@ + item.detail_date) + part_if(item.views.len() > 0, "👁 "@ + item.views)
}

/// The heading of the news item numbered `i + 1`: `## n. [title](url)`.
pub open spec fn item_heading_markdown(i: nat, item: NewsItemView) -> Seq<char> {
    "## "@ + decimal(i + 1) + ". ["@ + shown_title(item) + "]("@ + item.url + ")\n\n"@
}

/// The Markdown section of the news item numbered `i + 1`.
pub open spec fn item_markdown(i: nat, item: NewsItemView) -> Seq<char> {
    item_heading_markdown(i, item) + join(info_parts(item), " | "@) + "\n\n"@ + shown_body_markdown(item) + "\n\n---\n\n"@
}

/// The Markdown sections of the news items, numbered from 1.
pub open spec fn items_markdown(items: Seq<NewsItemView>) -> Seq<char>
    decreases items.len(),
{
    if items.len() == 0 {
        seq![]
    } else {
        items_markdown(items.drop_last()) + item_markdown((items.len() - 1) as nat, items.last())
    }
}

/// The Markdown report of the news, fetched at the time `fetched_at`.
pub open spec fn news_markdown(items: Seq<NewsItemView>, fetched_at: Seq<char>) -> Seq<char> {
    "# IEK 產業情報網 - 最近 96 小時新聞\n\n"@ + "**抓取時間**: "@ + fetched_at + "\n\n"@ + "**新聞數量**: "@ + decimal(items.len()) + " 則\n\n"@ + "---\n\n"@ + items_markdown(items)
        + "**資料來源**: [IEK 產業情報網](https://ieknet.iek.org.tw/ieknews/Default.aspx)\n"@
}

/// The Markdown sections of the news split around the section of item `i`.
pub proof fn lemma_items_markdown_split(items: Seq<NewsItemView>, i: int) -> (parts: (Seq<char>, Seq<char>))
    requires
        0 <= i < items.len(),
    ensures
        items_markdown(items) == parts.0 + item_markdown(i as nat, items[i]) + parts.1,
    decreases items.len(),
{
    let d = items.drop_last();
    let last = item_markdown((items.len() - 1) as nat, items.last());
    if i == items.len() - 1 {
        assert(items_markdown(items) =~= items_markdown(d) + item_markdown(i as nat, items[i]) + Seq::<char>::empty());
        (items_markdown(d), Seq::<char>::empty())
    } else {
        let (pre, post) = lemma_items_markdown_split(d, i);
        assert(d[i] == items[i]);
        assert(items_markdown(items) =~= pre + item_markdown(i as nat, items[i]) + (post + last));
        (pre, post + last)
    }
}

/// Each news item has its section in the Markdown report: its heading, its
/// information line, then as its body the Markdown of its page's article
/// where that was read, else the Markdown of its listing summary, else nothing.
pub proof fn law_markdown_report_shows_each_item(items: Seq<NewsItemView>, fetched_at: Seq<char>, i: int)
    requires
        0 <= i < items.len(),
    ensures
        items[i].detail_content.len() > 0 ==> contains(
            news_markdown(items, fetched_at),
            item_heading_markdown(i as nat, items[i]) + join(info_parts(items[i]), " | "@) + "\n\n"@
                + html_to_markdown(items[i].detail_content) + "\n\n---\n\n"@,
        ),
        items[i].detail_content.len() == 0 && items[i].content.len() > 0 ==> contains(
            news_markdown(items, fetched_at),
            item_heading_markdown(i as nat, items[i]) + join(info_parts(items[i]), " | "@) + "\n\n"@
                + html_to_markdown(items[i].content) + "\n\n---\n\n"@,
        ),
        items[i].detail_content.len() == 0 && items[i].content.len() == 0 ==> contains(
            news_markdown(items, fetched_at),
            item_heading_markdown(i as nat, items[i]) + join(info_parts(items[i]), " | "@) + "\n\n"@
                + "\n\n---\n\n"@,
        ),
{
    let (pre, post) = lemma_items_markdown_split(items, i);
    let sec = item_markdown(i as nat, items[i]);
    let head = "# IEK 產業情報網 - 最近 96 小時新聞\n\n"@ + "**抓取時間**: "@ + fetched_at + "\n\n"@ + "**新聞數量**: "@
        + decimal(items.len()) + " 則\n\n"@ + "---\n\n"@;
    let foot = "**資料來源**: [IEK 產業情報網](https://ieknet.iek.org.tw/ieknews/Default.aspx)\n"@;
    assert(news_markdown(items, fetched_at) =~= (head + pre) + sec + (post + foot));
    lemma_contains_middle(head + pre, sec, post + foot);
    let lead = item_heading_markdown(i as nat, items[i]) + join(info_parts(items[i]), " | "@) + "\n\n"@;
    if items[i].detail_content.len() == 0 && items[i].content.len() == 0 {
        assert(sec =~= lead + "\n\n---\n\n"@);
    }
}

/// The Markdown report states how many news items it holds.
pub proof fn law_markdown_report_counts_items(items: Seq<NewsItemView>, fetched_at: Seq<char>)
    ensures
        contains(news_markdown(items, fetched_at), "**新聞數量**: "@ + decimal(items.len()) + " 則\n\n"@),
{
    let head = "# IEK 產業情報網 - 最近 96 小時新聞\n\n"@ + "**抓取時間**: "@ + fetched_at + "\n\n"@;
    let count = "**新聞數量**: "@ + decimal(items.len()) + " 則\n\n"@;
    let tail = "---\n\n"@ + items_markdown(items)
        + "**資料來源**: [IEK 產業情報網](https://ieknet.iek.org.tw/ieknews/Default.aspx)\n"@;
    assert(news_markdown(items, fetched_at) =~= head + count + tail);
    lemma_contains_middle(head, count, tail);
}

/// A news item's information line carries the free badge exactly when the
/// item is free.
pub proof fn law_free_badge_in_info_line(item: NewsItemView)
    ensures
        info_parts(item).contains("🆓 **免費**"@) <==> item.is_free,
{
    let badge = "🆓 **免費**"@;
    reveal_strlit("🆓 **免費**");
    reveal_strlit("📅 ");
    reveal_strlit("📰 ");
    reveal_strlit("🕒 ");
    reveal_strlit("👁 ");
    let parts = info_parts(item);
    if item.is_free {
        assert(parts[1] == badge);
    } else {
        assert forall|k: int| 0 <= k < parts.len() implies (#[trigger] parts[k])[0] != '🆓' by {
            let a = seq!["📅 "@ + item.date];
            let b = part_if(item.media.len() > 0, "📰 "@ + item.media);
            let c = part_if(item.detail_date.len() > 0, "🕒 "@ + item.detail_date);
            let d = part_if(item.views.len() > 0, "👁 "@ + item.views);
            assert(part_if(false, badge) =~= Seq::<Seq<char>>::empty());
            assert(parts =~= a + b + c + d);
            if k < a.len() {
                assert(parts[k] == "📅 "@ + item.date);
            } else if k < a.len() + b.len() {
                assert(parts[k] == "📰 "@ + item.media);
            } else if k < a.len() + b.len() + c.len() {
                assert(parts[k] == "🕒 "@ + item.detail_date);
            } else {
                assert(parts[k] == "👁 "@ + item.views);
            }
        }
        if parts.contains(badge) {
            let k = choose|k: int| 0 <= k < parts.len() && parts[k] == badge;
            assert(parts[k][0] != '🆓');
        }
    }
}

/// A news item's heading, in both reports, links its title to its URL: the
/// title of its page where that was read, else the title of the listing.
pub proof fn law_heading_shows_page_title(i: nat, item: NewsItemView)
    ensures
        item.detail_title.len() > 0 ==> item_heading_markdown(i, item) == "## "@ + decimal(i + 1) + ". ["@
            + item.detail_title + "]("@ + item.url + ")\n\n"@,
        item.detail_title.len() == 0 ==> item_heading_markdown(i, item) == "## "@ + decimal(i + 1) + ". ["@
            + item.title + "]("@ + item.url + ")\n\n"@,
        item.detail_title.len() > 0 ==> contains(
            item_html_heading(i, item),
            "\" target=\"_blank\">"@ + item.detail_title + "</a></h2>\n        <div class=\"news-info\">\n            <span>📅 "@,
        ),
        item.detail_title.len() == 0 ==> contains(
            item_html_heading(i, item),
            "\" target=\"_blank\">"@ + item.title + "</a></h2>\n        <div class=\"news-info\">\n            <span>📅 "@,
        ),
{
    let t = if item.detail_title.len() > 0 { item.detail_title } else { item.title };
    let head = "\n    <div class=\"news-item\">\n        <h2>"@ + decimal(i + 1) + ". <a href=\""@ + item.url;
    let mid = "\" target=\"_blank\">"@ + t + "</a></h2>\n        <div class=\"news-info\">\n            <span>📅 "@;
    let tail = item.date + "</span>"@;
    assert(item_html_heading(i, item) =~= head + mid + tail);
    lemma_contains_middle(head, mid, tail);
}

/// `prefix` followed by `text`, as characters.
fn prefixed(prefix: &str, text: &str) -> (res: Vec<char>)
    ensures
        res@ == prefix@ + text@,
{
    let mut v = chars_of(prefix);
    let t = chars_of(text);
    append_chars(&mut v, t.as_slice());
    v
}

/// The facts shown on a news item's information line.
pub fn info_parts_of(item: &NewsItem) -> (res: Vec<Vec<char>>)
    ensures
        views(res@) == info_parts(item@),
{
    let mut parts: Vec<Vec<char>> = Vec::new();
    parts.push(prefixed("📅 ", item.date.as_str()));
    let ghost p0 = views(parts@);
    if item.is_free {
        parts.push(chars_of("🆓 **免費**"));
    }
    let ghost p1 = views(parts@);
    assert(p1 =~= p0 + part_if(item.is_free, "🆓 **免費**"@));
    if !item.media.as_str().is_empty() {
        parts.push(prefixed("📰 ", item.media.as_str()));
    }
    let ghost p2 = views(parts@);
    assert(p2 =~= p1 + part_if(item.media@.len() > 0, "📰 "@ + item.media@));
    if !item.detail_date.as_str().is_empty() {
        parts.push(prefixed("🕒 ", item.detail_date.as_str()));
    }
    let ghost p3 = views(parts@);
    assert(p3 =~= p2 + part_if(item.detail_date@.len() > 0, "🕒 "@ + item.detail_date@));
    if !item.views.as_str().is_empty() {
        parts.push(prefixed("👁 ", item.views.as_str()));
    }
    assert(views(parts@) =~= p3 + part_if(item.views@.len() > 0, "👁 "@ + item.views@));
    parts
}

/// The heading of the news item numbered `i + 1`.
fn item_heading(i: usize, item: &NewsItem) -> (res: String)
    requires
        i < usize::MAX,
    ensures
        res@ == item_heading_markdown(i as nat, item@),
{
    let mut out = String::from_str("## ");
    push_decimal(&mut out, i + 1);
    out.append(". [");
    if !item.detail_title.as_str().is_empty() {
        out.append(item.detail_title.as_str());
    } else {
        out.append(item.title.as_str());
    }
    out.append("](");
    out.append(item.url.as_str());
    out.append(")\n\n");
    out
}

/// The body shown for a news item, as Markdown.
fn body_markdown(item: &NewsItem) -> (res: String)
    ensures
        res@ == shown_body_markdown(item@),
{
    if !item.detail_content.as_str().is_empty() {
        convert_html_to_markdown(item.detail_content.as_str())
    } else if !item.content.as_str().is_empty() {
        convert_html_to_markdown(item.content.as_str())
    } else {
        String::new()
    }
}

/// Appends the Markdown section of the news item numbered `i + 1`.
fn push_item_markdown(out: &mut String, i: usize, item: &NewsItem)
    requires
        i < usize::MAX,
    ensures
        final(out)@ == old(out)@ + item_markdown(i as nat, item@),
{
    let heading = item_heading(i, item);
    let parts = info_parts_of(item);
    let sep = chars_of(" | ");
    let line = join_chars(&parts, sep.as_slice());
    let body = body_markdown(item);
    let ghost o = out@;
    out.append(heading.as_str());
    push_chars(out, line.as_slice());
    out.append("\n\n");
    out.append(body.as_str());
    out.append("\n\n---\n\n");
    assert(out@ =~= o + (heading@ + line@ + "\n\n"@ + body@ + "\n\n---\n\n"@));
}

/// The Markdown report of the news, fetched at the time `fetched_at`
/// (written `YYYY年MM月DD日 HH:MM:SS`).
pub fn render_news_markdown(items: &Vec<NewsItem>, fetched_at: &str) -> (res: String)
    ensures
        res@ == news_markdown(item_views(items@), fetched_at@),
{
    let mut md = String::from_str("# IEK 產業情報網 - 最近 96 小時新聞\n\n");
    md.append("**抓取時間**: ");
    md.append(fetched_at);
    md.append("\n\n");
    md.append("**新聞數量**: ");
    push_decimal(&mut md, items.len());
    md.append(" 則\n\n");
    md.append("---\n\n");
    let ghost start = md@;
    let ghost iv = item_views(items@);
    let mut i: usize = 0;
    while i < items.len()
        invariant
            i <= items.len(),
            iv == item_views(items@),
            md@ == start + items_markdown(iv.take(i as int)),
        decreases items.len() - i,
    {
        push_item_markdown(&mut md, i, &items[i]);
        assert(iv.take(i + 1).drop_last() =~= iv.take(i as int));
        assert(iv.take(i + 1).last() == items@[i as int]@);
        i = i + 1;
    }
    assert(iv.take(items.len() as int) =~= iv);
    md.append("**資料來源**: [IEK 產業情報網](https://ieknet.iek.org.tw/ieknews/Default.aspx)\n");
    md
}


/// `piece` when `cond` holds, else nothing.
pub open spec fn text_if(cond: bool, piece: Seq<char>) -> Seq<char> {
    if cond {
        piece
    } else {
        seq![]
    }
}

/// The heading and date of the news item numbered `i + 1` in the HTML report.
pub open spec fn item_html_heading(i: nat, item: NewsItemView) -> Seq<char> {
    "\n    <div class=\"news-item\">\n        <h2>"@ + decimal(i + 1) + ". <a href=\""@ + item.url + "\" target=\"_blank\">"@ + shown_title(item) + "</a></h2>\n        <div class=\"news-info\">\n            <span>📅 "@ + item.date + "</span>"@
}

/// The badge and facts of a news item in the HTML report.
pub open spec fn item_html_info(item: NewsItemView) -> Seq<char> {
    text_if(item.is_free, "\n            <span class=\"badge badge-free\">免費</span>"@) + text_if(item.media.len() > 0, "\n            <span>📰 "@ + item.media + "</span>"@)
        + text_if(item.detail_date.len() > 0, "\n            <span>🕒 "@ + item.detail_date + "</span>"@)
        + text_if(item.views.len() > 0, "\n            <span>👁 "@ + item.views + "</span>"@)
}

/// The body of a news item in the HTML report: its page's article, else the
/// listing summary, else nothing.
pub open spec fn item_html_body(item: NewsItemView) -> Seq<char> {
    if item.detail_content.len() > 0 {
        "\n        <div class=\"content\">"@ + item.detail_content + "</div>"@
    } else if item.content.len() > 0 {
        "\n        <div class=\"content\">"@ + item.content + "</div>"@
    } else {
        seq![]
    }
}

/// The HTML block of the news item numbered `i + 1`.
pub open spec fn item_html(i: nat, item: NewsItemView) -> Seq<char> {
    item_html_heading(i, item) + item_html_info(item) + "\n        </div>"@ + item_html_body(item) + "\n    </div>"@
}

/// The HTML blocks of the news items, numbered from 1.
pub open spec fn items_html(items: Seq<NewsItemView>) -> Seq<char>
    decreases items.len(),
{
    if items.len() == 0 {
        seq![]
    } else {
        items_html(items.drop_last()) + item_html((items.len() - 1) as nat, items.last())
    }
}

/// The HTML report of the news, fetched at the time `fetched_at`.
pub open spec fn news_html(items: Seq<NewsItemView>, fetched_at: Seq<char>) -> Seq<char> {
    "<!DOCTYPE html>\n<html lang=\"zh-TW\">\n<head>\n    <meta charset=\"UTF-8\">\n    <meta name=\"viewport\" content=\"width=device-width, initial-scale=1.0\">\n    <title>IEK 產業情報網 - 最近 96 小時新聞</title>\n    <style>\n        body {\n            font-family: \"Microsoft JhengHei\", \"微軟正黑體\", Arial, sans-serif;\n            max-width: 1200px;\n            margin: 0 auto;\n            padding: 20px;\n            background-color: #f5f5f5;\n        }\n        h1 {\n            color: #333;\n            border-bottom: 3px solid #0066cc;\n            padding-bottom: 10px;\n        }\n        .meta {\n            color: #666;\n            font-size: 14px;\n            margin-bottom: 30px;\n        }\n        .news-item {\n            background: white;\n            margin-bottom: 20px;\n            padding: 20px;\n            border-radius: 8px;\n            box-shadow: 0 2px 4px rgba(0,0,0,0.1);\n        }\n        .news-item h2 {\n            margin-top: 0;\n            color: #0066cc;\n            font-size: 18px;\n        }\n        .news-item h2 a {\n            color: #0066cc;\n            text-decoration: none;\n        }\n        .news-item h2 a:hover {\n            text-decoration: underline;\n        }\n        .news-info {\n            color: #666;\n            font-size: 14px;\n            margin: 10px 0;\n        }\n        .news-info span {\n            margin-right: 15px;\n        }\n        .badge {\n            display: inline-block;\n            padding: 3px 8px;\n            border-radius: 3px;\n            font-size: 12px;\n            font-weight: bold;\n        }\n        .badge-free {\n            background-color: #28a745;\n            color: white;\n        }\n        .content {\n            color: #333;\n            line-height: 1.6;\n            margin-top: 10px;\n        }\n        .footer {\n            text-align: center;\n            margin-top: 40px;\n            padding-top: 20px;\n            border-top: 1px solid #ddd;\n            color: #666;\n            font-size: 14px;\n        }\n    </style>\n</head>\n<body>\n    <h1>IEK 產業情報網 - 最近 96 小時新聞</h1>\n    <div class=\"meta\">\n        <p>抓取時間: "@ + fetched_at + "</p>\n        <p>新聞數量: "@ + decimal(items.len()) + " 則</p>\n    </div>\n"@ + items_html(items) + "\n    <div class=\"footer\">\n        <p>資料來源: <a href=\"https://ieknet.iek.org.tw/ieknews/Default.aspx\" target=\"_blank\">IEK 產業情報網</a></p>\n    </div>\n</body>\n</html>"@
}

/// The HTML blocks of the news split around the block of item `i`.
pub proof fn lemma_items_html_split(items: Seq<NewsItemView>, i: int) -> (parts: (Seq<char>, Seq<char>))
    requires
        0 <= i < items.len(),
    ensures
        items_html(items) == parts.0 + item_html(i as nat, items[i]) + parts.1,
    decreases items.len(),
{
    let d = items.drop_last();
    let last = item_html((items.len() - 1) as nat, items.last());
    if i == items.len() - 1 {
        assert(items_html(items) =~= items_html(d) + item_html(i as nat, items[i]) + Seq::<char>::empty());
        (items_html(d), Seq::<char>::empty())
    } else {
        let (pre, post) = lemma_items_html_split(d, i);
        assert(d[i] == items[i]);
        assert(items_html(items) =~= pre + item_html(i as nat, items[i]) + (post + last));
        (pre, post + last)
    }
}

/// Each news item has its block in the HTML report: its heading and facts,
/// then as its content its page's article where that was read, else its
/// listing summary, else nothing.
pub proof fn law_html_report_shows_each_item(items: Seq<NewsItemView>, fetched_at: Seq<char>, i: int)
    requires
        0 <= i < items.len(),
    ensures
        items[i].detail_content.len() > 0 ==> contains(
            news_html(items, fetched_at),
            item_html_heading(i as nat, items[i]) + item_html_info(items[i]) + "\n        </div>"@
                + "\n        <div class=\"content\">"@ + items[i].detail_content + "</div>"@ + "\n    </div>"@,
        ),
        items[i].detail_content.len() == 0 && items[i].content.len() > 0 ==> contains(
            news_html(items, fetched_at),
            item_html_heading(i as nat, items[i]) + item_html_info(items[i]) + "\n        </div>"@
                + "\n        <div class=\"content\">"@ + items[i].content + "</div>"@ + "\n    </div>"@,
        ),
        items[i].detail_content.len() == 0 && items[i].content.len() == 0 ==> contains(
            news_html(items, fetched_at),
            item_html_heading(i as nat, items[i]) + item_html_info(items[i]) + "\n        </div>"@ + "\n    </div>"@,
        ),
{
    let (pre, post) = lemma_items_html_split(items, i);
    let block = item_html(i as nat, items[i]);
    let head = "<!DOCTYPE html>\n<html lang=\"zh-TW\">\n<head>\n    <meta charset=\"UTF-8\">\n    <meta name=\"viewport\" content=\"width=device-width, initial-scale=1.0\">\n    <title>IEK 產業情報網 - 最近 96 小時新聞</title>\n    <style>\n        body {\n            font-family: \"Microsoft JhengHei\", \"微軟正黑體\", Arial, sans-serif;\n            max-width: 1200px;\n            margin: 0 auto;\n            padding: 20px;\n            background-color: #f5f5f5;\n        }\n        h1 {\n            color: #333;\n            border-bottom: 3px solid #0066cc;\n            padding-bottom: 10px;\n        }\n        .meta {\n            color: #666;\n            font-size: 14px;\n            margin-bottom: 30px;\n        }\n        .news-item {\n            background: white;\n            margin-bottom: 20px;\n            padding: 20px;\n            border-radius: 8px;\n            box-shadow: 0 2px 4px rgba(0,0,0,0.1);\n        }\n        .news-item h2 {\n            margin-top: 0;\n            color: #0066cc;\n            font-size: 18px;\n        }\n        .news-item h2 a {\n            color: #0066cc;\n            text-decoration: none;\n        }\n        .news-item h2 a:hover {\n            text-decoration: underline;\n        }\n        .news-info {\n            color: #666;\n            font-size: 14px;\n            margin: 10px 0;\n        }\n        .news-info span {\n            margin-right: 15px;\n        }\n        .badge {\n            display: inline-block;\n            padding: 3px 8px;\n            border-radius: 3px;\n            font-size: 12px;\n            font-weight: bold;\n        }\n        .badge-free {\n            background-color: #28a745;\n            color: white;\n        }\n        .content {\n            color: #333;\n            line-height: 1.6;\n            margin-top: 10px;\n        }\n        .footer {\n            text-align: center;\n            margin-top: 40px;\n            padding-top: 20px;\n            border-top: 1px solid #ddd;\n            color: #666;\n            font-size: 14px;\n        }\n    </style>\n</head>\n<body>\n    <h1>IEK 產業情報網 - 最近 96 小時新聞</h1>\n    <div class=\"meta\">\n        <p>抓取時間: "@ + fetched_at + "</p>\n        <p>新聞數量: "@ + decimal(items.len()) + " 則</p>\n    </div>\n"@;
    let foot = "\n    <div class=\"footer\">\n        <p>資料來源: <a href=\"https://ieknet.iek.org.tw/ieknews/Default.aspx\" target=\"_blank\">IEK 產業情報網</a></p>\n    </div>\n</body>\n</html>"@;
    assert(news_html(items, fetched_at) =~= (head + pre) + block + (post + foot));
    lemma_contains_middle(head + pre, block, post + foot);
    let lead = item_html_heading(i as nat, items[i]) + item_html_info(items[i]) + "\n        </div>"@;
    if items[i].detail_content.len() > 0 {
        assert(block =~= lead + "\n        <div class=\"content\">"@ + items[i].detail_content + "</div>"@ + "\n    </div>"@);
    } else if items[i].content.len() > 0 {
        assert(block =~= lead + "\n        <div class=\"content\">"@ + items[i].content + "</div>"@ + "\n    </div>"@);
    } else {
        assert(block =~= lead + "\n    </div>"@);
    }
}

/// The HTML report states how many news items it holds, and shows the free
/// badge for each free item.
pub proof fn law_html_report_counts_items(items: Seq<NewsItemView>, fetched_at: Seq<char>)
    ensures
        contains(news_html(items, fetched_at), "</p>\n        <p>新聞數量: "@ + decimal(items.len()) + " 則</p>\n    </div>\n"@),
{
    let head = "<!DOCTYPE html>\n<html lang=\"zh-TW\">\n<head>\n    <meta charset=\"UTF-8\">\n    <meta name=\"viewport\" content=\"width=device-width, initial-scale=1.0\">\n    <title>IEK 產業情報網 - 最近 96 小時新聞</title>\n    <style>\n        body {\n            font-family: \"Microsoft JhengHei\", \"微軟正黑體\", Arial, sans-serif;\n            max-width: 1200px;\n            margin: 0 auto;\n            padding: 20px;\n            background-color: #f5f5f5;\n        }\n        h1 {\n            color: #333;\n            border-bottom: 3px solid #0066cc;\n            padding-bottom: 10px;\n        }\n        .meta {\n            color: #666;\n            font-size: 14px;\n            margin-bottom: 30px;\n        }\n        .news-item {\n            background: white;\n            margin-bottom: 20px;\n            padding: 20px;\n            border-radius: 8px;\n            box-shadow: 0 2px 4px rgba(0,0,0,0.1);\n        }\n        .news-item h2 {\n            margin-top: 0;\n            color: #0066cc;\n            font-size: 18px;\n        }\n        .news-item h2 a {\n            color: #0066cc;\n            text-decoration: none;\n        }\n        .news-item h2 a:hover {\n            text-decoration: underline;\n        }\n        .news-info {\n            color: #666;\n            font-size: 14px;\n            margin: 10px 0;\n        }\n        .news-info span {\n            margin-right: 15px;\n        }\n        .badge {\n            display: inline-block;\n            padding: 3px 8px;\n            border-radius: 3px;\n            font-size: 12px;\n            font-weight: bold;\n        }\n        .badge-free {\n            background-color: #28a745;\n            color: white;\n        }\n        .content {\n            color: #333;\n            line-height: 1.6;\n            margin-top: 10px;\n        }\n        .footer {\n            text-align: center;\n            margin-top: 40px;\n            padding-top: 20px;\n            border-top: 1px solid #ddd;\n            color: #666;\n            font-size: 14px;\n        }\n    </style>\n</head>\n<body>\n    <h1>IEK 產業情報網 - 最近 96 小時新聞</h1>\n    <div class=\"meta\">\n        <p>抓取時間: "@ + fetched_at;
    let count = "</p>\n        <p>新聞數量: "@ + decimal(items.len()) + " 則</p>\n    </div>\n"@;
    let tail = items_html(items) + "\n    <div class=\"footer\">\n        <p>資料來源: <a href=\"https://ieknet.iek.org.tw/ieknews/Default.aspx\" target=\"_blank\">IEK 產業情報網</a></p>\n    </div>\n</body>\n</html>"@;
    assert(news_html(items, fetched_at) =~= head + count + tail);
    lemma_contains_middle(head, count, tail);
}

/// A free news item's facts in the HTML report start with the free badge.
pub proof fn law_free_badge_in_html(item: NewsItemView)
    ensures
        item.is_free ==> contains(item_html_info(item), "\n            <span class=\"badge badge-free\">免費</span>"@),
{
    if item.is_free {
        let badge = "\n            <span class=\"badge badge-free\">免費</span>"@;
        let rest = text_if(item.media.len() > 0, "\n            <span>📰 "@ + item.media + "</span>"@) + text_if(
            item.detail_date.len() > 0,
            "\n            <span>🕒 "@ + item.detail_date + "</span>"@,
        ) + text_if(item.views.len() > 0, "\n            <span>👁 "@ + item.views + "</span>"@);
        assert(item_html_info(item) =~= Seq::<char>::empty() + badge + rest);
        lemma_contains_middle(Seq::<char>::empty(), badge, rest);
    }
}

/// The heading and date of the news item numbered `i + 1` in the HTML report.
fn item_heading_html(i: usize, item: &NewsItem) -> (res: String)
    requires
        i < usize::MAX,
    ensures
        res@ == item_html_heading(i as nat, item@),
{
    let mut out = String::from_str("\n    <div class=\"news-item\">\n        <h2>");
    push_decimal(&mut out, i + 1);
    out.append(". <a href=\"");
    out.append(item.url.as_str());
    out.append("\" target=\"_blank\">");
    if !item.detail_title.as_str().is_empty() {
        out.append(item.detail_title.as_str());
    } else {
        out.append(item.title.as_str());
    }
    out.append("</a></h2>\n        <div class=\"news-info\">\n            <span>📅 ");
    out.append(item.date.as_str());
    out.append("</span>");
    out
}

/// The badge and facts of a news item in the HTML report.
fn item_info_html(item: &NewsItem) -> (res: String)
    ensures
        res@ == item_html_info(item@),
{
    let mut out = String::new();
    if item.is_free {
        out.append("\n            <span class=\"badge badge-free\">免費</span>");
    }
    let ghost a = out@;
    if !item.media.as_str().is_empty() {
        out.append("\n            <span>📰 ");
        out.append(item.media.as_str());
        out.append("</span>");
    }
    let ghost b = out@;
    assert(b =~= a + text_if(item.media@.len() > 0, "\n            <span>📰 "@ + item.media@ + "</span>"@));
    if !item.detail_date.as_str().is_empty() {
        out.append("\n            <span>🕒 ");
        out.append(item.detail_date.as_str());
        out.append("</span>");
    }
    let ghost c = out@;
    assert(c =~= b + text_if(item.detail_date@.len() > 0, "\n            <span>🕒 "@ + item.detail_date@ + "</span>"@));
    if !item.views.as_str().is_empty() {
        out.append("\n            <span>👁 ");
        out.append(item.views.as_str());
        out.append("</span>");
    }
    assert(out@ =~= c + text_if(item.views@.len() > 0, "\n            <span>👁 "@ + item.views@ + "</span>"@));
    out
}

/// Appends the HTML block of the news item numbered `i + 1`.
fn push_item_html(out: &mut String, i: usize, item: &NewsItem)
    requires
        i < usize::MAX,
    ensures
        final(out)@ == old(out)@ + item_html(i as nat, item@),
{
    let heading = item_heading_html(i, item);
    let info = item_info_html(item);
    let ghost o = out@;
    out.append(heading.as_str());
    out.append(info.as_str());
    out.append("\n        </div>");
    let ghost before_body = out@;
    if !item.detail_content.as_str().is_empty() {
        out.append("\n        <div class=\"content\">");
        out.append(item.detail_content.as_str());
        out.append("</div>");
    } else if !item.content.as_str().is_empty() {
        out.append("\n        <div class=\"content\">");
        out.append(item.content.as_str());
        out.append("</div>");
    }
    assert(out@ =~= before_body + item_html_body(item@));
    out.append("\n    </div>");
    assert(out@ =~= o + (heading@ + info@ + "\n        </div>"@ + item_html_body(item@) + "\n    </div>"@));
}

/// The HTML report of the news, fetched at the time `fetched_at`
/// (written `YYYY年MM月DD日 HH:MM:SS`).
pub fn render_news_html(items: &Vec<NewsItem>, fetched_at: &str) -> (res: String)
    ensures
        res@ == news_html(item_views(items@), fetched_at@),
{
    let mut html = String::from_str("<!DOCTYPE html>\n<html lang=\"zh-TW\">\n<head>\n    <meta charset=\"UTF-8\">\n    <meta name=\"viewport\" content=\"width=device-width, initial-scale=1.0\">\n    <title>IEK 產業情報網 - 最近 96 小時新聞</title>\n    <style>\n        body {\n            font-family: \"Microsoft JhengHei\", \"微軟正黑體\", Arial, sans-serif;\n            max-width: 1200px;\n            margin: 0 auto;\n            padding: 20px;\n            background-color: #f5f5f5;\n        }\n        h1 {\n            color: #333;\n            border-bottom: 3px solid #0066cc;\n            padding-bottom: 10px;\n        }\n        .meta {\n            color: #666;\n            font-size: 14px;\n            margin-bottom: 30px;\n        }\n        .news-item {\n            background: white;\n            margin-bottom: 20px;\n            padding: 20px;\n            border-radius: 8px;\n            box-shadow: 0 2px 4px rgba(0,0,0,0.1);\n        }\n        .news-item h2 {\n            margin-top: 0;\n            color: #0066cc;\n            font-size: 18px;\n        }\n        .news-item h2 a {\n            color: #0066cc;\n            text-decoration: none;\n        }\n        .news-item h2 a:hover {\n            text-decoration: underline;\n        }\n        .news-info {\n            color: #666;\n            font-size: 14px;\n            margin: 10px 0;\n        }\n        .news-info span {\n            margin-right: 15px;\n        }\n        .badge {\n            display: inline-block;\n            padding: 3px 8px;\n            border-radius: 3px;\n            font-size: 12px;\n            font-weight: bold;\n        }\n        .badge-free {\n            background-color: #28a745;\n            color: white;\n        }\n        .content {\n            color: #333;\n            line-height: 1.6;\n            margin-top: 10px;\n        }\n        .footer {\n            text-align: center;\n            margin-top: 40px;\n            padding-top: 20px;\n            border-top: 1px solid #ddd;\n            color: #666;\n            font-size: 14px;\n        }\n    </style>\n</head>\n<body>\n    <h1>IEK 產業情報網 - 最近 96 小時新聞</h1>\n    <div class=\"meta\">\n        <p>抓取時間: ");
    html.append(fetched_at);
    html.append("</p>\n        <p>新聞數量: ");
    push_decimal(&mut html, items.len());
    html.append(" 則</p>\n    </div>\n");
    let ghost start = html@;
    let ghost iv = item_views(items@);
    let mut i: usize = 0;
    while i < items.len()
        invariant
            i <= items.len(),
            iv == item_views(items@),
            html@ == start + items_html(iv.take(i as int)),
        decreases items.len() - i,
    {
        push_item_html(&mut html, i, &items[i]);
        assert(iv.take(i + 1).drop_last() =~= iv.take(i as int));
        assert(iv.take(i + 1).last() == items@[i as int]@);
        i = i + 1;
    }
    assert(iv.take(items.len() as int) =~= iv);
    html.append("\n    <div class=\"footer\">\n        <p>資料來源: <a href=\"https://ieknet.iek.org.tw/ieknews/Default.aspx\" target=\"_blank\">IEK 產業情報網</a></p>\n    </div>\n</body>\n</html>");
    html
}

} // verus!
