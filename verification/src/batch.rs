//! Picking companies that still lack a product description, and laying them
//! out in batches of ten for a person (or an assistant) to look up.
use vstd::prelude::*;
use crate::company_db::{stock_info_views, CompanyDatabase};
use crate::company_info::{StockInfo, StockInfoView};
use crate::order::is_permutation;
use crate::tally::{count_views, is_tally, tally, NameCount};
use crate::text::{
    chars_of, decimal, equal_str, parse_usize, parse_usize_chars, push_decimal, split, split_chars, string_of,
    trim, trim_chars, views,
};

verus! {

/// The count a person asked for: the number in `text` (trimmed), or
/// `default` where `text` holds none.
pub open spec fn requested(text: Seq<char>, default: nat) -> nat {
    match parse_usize(trim(text)) {
        Some(n) => n,
        None => default,
    }
}

/// The first `n` items of `s`, or all of them where there are fewer.
pub open spec fn first_n<A>(s: Seq<A>, n: nat) -> Seq<A> {
    if n < s.len() {
        s.take(n as int)
    } else {
        s
    }
}

/// The count a person asked for in `text`, or `default`.
pub fn requested_count(text: &str, default: usize) -> (res: usize)
    ensures
        res == requested(text@, default as nat),
{
    let t = chars_of(text);
    let trimmed = trim_chars(t.as_slice());
    match parse_usize_chars(trimmed.as_slice()) {
        Some(n) => n,
        None => default,
    }
}

/// The first `n` companies of `stocks`, copied.
fn take_stocks(stocks: &Vec<StockInfo>, n: usize) -> (res: Vec<StockInfo>)
    ensures
        stock_info_views(res@) == first_n(stock_info_views(stocks@), n as nat),
{
    let mut out: Vec<StockInfo> = Vec::new();
    let mut i: usize = 0;
    while i < stocks.len() && i < n
        invariant
            i <= stocks.len(),
            i <= n,
            stock_info_views(out@) == stock_info_views(stocks@).take(i as int),
        decreases stocks.len() - i,
    {
        let ghost before = out@;
        out.push(stocks[i].copy());
        assert(stock_info_views(out@) =~= stock_info_views(before).push(stocks@[i as int]@));
        assert(stock_info_views(stocks@).take(i + 1) =~= stock_info_views(stocks@).take(i as int).push(
            stocks@[i as int]@,
        ));
        i = i + 1;
    }
    assert(i == stocks.len() ==> stock_info_views(stocks@).take(i as int) =~= stock_info_views(stocks@));
    out
}

/// The first companies of `stocks`, as many as `count_text` asks for (10
/// where it asks for no number).
pub fn select_first_n(stocks: &Vec<StockInfo>, count_text: &str) -> (res: Vec<StockInfo>)
    ensures
        stock_info_views(res@) == first_n(stock_info_views(stocks@), requested(count_text@, 10)),
{
    let n = requested_count(count_text, 10);
    take_stocks(stocks, n)
}

/// The companies of `s` in industry `industry`, in order.
pub open spec fn members_of_industry(s: Seq<StockInfoView>, industry: Seq<char>) -> Seq<StockInfoView>
    decreases s.len(),
{
    if s.len() == 0 {
        seq![]
    } else {
        let before = members_of_industry(s.drop_last(), industry);
        if s.last().industry_type == industry {
            before.push(s.last())
        } else {
            before
        }
    }
}

/// The companies of `stocks` in the industry named by `industry` (trimmed),
/// in order; `None` where no company is in it.
pub fn industry_members(stocks: &Vec<StockInfo>, industry: &str) -> (res: Option<Vec<StockInfo>>)
    ensures
        match res {
            Some(m) => stock_info_views(m@) == members_of_industry(stock_info_views(stocks@), trim(industry@))
                && m@.len() > 0,
            None => members_of_industry(stock_info_views(stocks@), trim(industry@)).len() == 0,
        },
{
    let t = chars_of(industry);
    let name_chars = trim_chars(t.as_slice());
    let name = string_of(name_chars.as_slice());
    let mut out: Vec<StockInfo> = Vec::new();
    let mut i: usize = 0;
    while i < stocks.len()
        invariant
            i <= stocks.len(),
            name@ == trim(industry@),
            stock_info_views(out@) == members_of_industry(stock_info_views(stocks@).take(i as int), name@),
        decreases stocks.len() - i,
    {
        let ghost sv = stock_info_views(stocks@);
        assert(sv.take(i + 1).drop_last() =~= sv.take(i as int));
        assert(sv.take(i + 1).last() == stocks@[i as int]@);
        if equal_str(stocks[i].industry_type.as_str(), name.as_str()) {
            let ghost before = out@;
            out.push(stocks[i].copy());
            assert(stock_info_views(out@) =~= stock_info_views(before).push(stocks@[i as int]@));
        }
        i = i + 1;
    }
    assert(stock_info_views(stocks@).take(stocks.len() as int) =~= stock_info_views(stocks@));
    if out.len() == 0 {
        None
    } else {
        Some(out)
    }
}

/// The first companies of an industry's `members`, as many as `count_text`
/// asks for (all of them where it asks for no number).
pub fn select_by_industry(members: &Vec<StockInfo>, count_text: &str) -> (res: Vec<StockInfo>)
    ensures
        stock_info_views(res@) == first_n(stock_info_views(members@), requested(count_text@, members@.len())),
{
    let n = requested_count(count_text, members.len());
    take_stocks(members, n)
}

/// Shuffles `v` in place with `rand::seq::SliceRandom::shuffle` and the
/// thread-local generator. The crate's source swaps elements only, so the
/// result holds the same items, each as often; which order comes out is left
/// open.
#[verifier::external_body]
fn shuffle_indices(v: &mut Vec<usize>)
    ensures
        final(v)@.to_multiset() == old(v)@.to_multiset(),
{
    rand::seq::SliceRandom::shuffle(v.as_mut_slice(), &mut rand::thread_rng());
}

/// The indices `0..n` in order.
fn indices(n: usize) -> (res: Vec<usize>)
    ensures
        res@.len() == n,
        forall|i: int| 0 <= i < n ==> #[trigger] res@[i] == i,
{
    let mut v: Vec<usize> = Vec::new();
    let mut i: usize = 0;
    while i < n
        invariant
            i <= n,
            v@.len() == i,
            forall|j: int| 0 <= j < i ==> #[trigger] v@[j] == j,
        decreases n - i,
    {
        v.push(i);
        i = i + 1;
    }
    v
}

/// A sequence with the same items as `0..n`, each as often, is an order of
/// the indices `0..n`.
proof fn lemma_shuffled_indices(start: Seq<usize>, v: Seq<usize>, n: nat)
    requires
        start.len() == n,
        forall|i: int| 0 <= i < n ==> #[trigger] start[i] == i,
        v.to_multiset() == start.to_multiset(),
    ensures
        is_permutation(v, n),
{
    broadcast use vstd::seq_lib::group_to_multiset_ensures;
    assert(start.no_duplicates());
    start.lemma_multiset_has_no_duplicates();
    v.lemma_multiset_has_no_duplicates_conv();
    vstd::seq_lib::to_multiset_len(v);
    vstd::seq_lib::to_multiset_len(start);
    assert(v.len() == start.len());
    assert forall|i: int| 0 <= i < v.len() implies #[trigger] v[i] < n by {
        assert(v.contains(v[i]));
        assert(start.to_multiset().count(v[i]) > 0);
        assert(start.contains(v[i]));
    }
    assert forall|j: int| 0 <= j < n implies 0 <= #[trigger] crate::order::position_of(v, j) < v.len() && v[crate::order::position_of(v, j)] == j by {
        assert(start[j] == j);
        assert(start.contains(j as usize));
        assert(v.to_multiset().count(j as usize) > 0);
        assert(v.contains(j as usize));
        let q = choose|q: int| 0 <= q < v.len() && v[q] == j as usize;
        assert(v[q] == j);
    }
}

/// The companies of `stocks` in the order `perm`.
pub open spec fn permuted(s: Seq<StockInfoView>, perm: Seq<usize>) -> Seq<StockInfoView> {
    perm.map_values(|i: usize| s[i as int])
}

/// Companies of `stocks` picked at random: the companies shuffled, then as
/// many of the first as `count_text` asks for (10 where it asks for no number).
pub fn select_random_n(stocks: &Vec<StockInfo>, count_text: &str) -> (res: Vec<StockInfo>)
    ensures
        exists|perm: Seq<usize>|
            is_permutation(perm, stocks@.len()) && stock_info_views(res@) == first_n(
                #[trigger] permuted(stock_info_views(stocks@), perm),
                requested(count_text@, 10),
            ),
{
    let n = requested_count(count_text, 10);
    let mut order = indices(stocks.len());
    let ghost initial = order@;
    shuffle_indices(&mut order);
    proof {
        lemma_shuffled_indices(initial, order@, stocks@.len());
    }
    let mut shuffled: Vec<StockInfo> = Vec::new();
    let mut i: usize = 0;
    while i < order.len()
        invariant
            i <= order@.len(),
            is_permutation(order@, stocks@.len()),
            stock_info_views(shuffled@) == permuted(stock_info_views(stocks@), order@).take(i as int),
        decreases order@.len() - i,
    {
        let k = order[i];
        assert(order@[i as int] < stocks@.len());
        let ghost before = shuffled@;
        shuffled.push(stocks[k].copy());
        assert(stock_info_views(shuffled@) =~= stock_info_views(before).push(stocks@[k as int]@));
        assert(permuted(stock_info_views(stocks@), order@).take(i + 1) =~= permuted(
            stock_info_views(stocks@),
            order@,
        ).take(i as int).push(stocks@[k as int]@));
        i = i + 1;
    }
    assert(permuted(stock_info_views(stocks@), order@).take(order@.len() as int) =~= permuted(
        stock_info_views(stocks@),
        order@,
    ));
    let res = take_stocks(&shuffled, n);
    assert(is_permutation(order@, stocks@.len()) && stock_info_views(res@) == first_n(
        permuted(stock_info_views(stocks@), order@),
        requested(count_text@, 10),
    ));
    res
}

/// The companies kept under the codes of `pieces` (each trimmed), in order;
/// codes with no company are passed over.
pub open spec fn found_under(db: Map<Seq<char>, StockInfoView>, pieces: Seq<Seq<char>>) -> Seq<StockInfoView>
    decreases pieces.len(),
{
    if pieces.len() == 0 {
        seq![]
    } else {
        let before = found_under(db, pieces.drop_last());
        let k = trim(pieces.last());
        if db.contains_key(k) {
            before.push(db[k])
        } else {
            before
        }
    }
}

/// The companies under the comma-separated codes of `codes_text`: the text is
/// trimmed, cut at commas, and each code trimmed and looked up.
pub fn select_by_codes(db: &CompanyDatabase, codes_text: &str) -> (res: Vec<StockInfo>)
    requires
        db.wf(),
    ensures
        stock_info_views(res@) == found_under(db@, split(trim(codes_text@), ',')),
{
    let t = chars_of(codes_text);
    let trimmed = trim_chars(t.as_slice());
    let pieces = split_chars(trimmed.as_slice(), ',');
    let mut out: Vec<StockInfo> = Vec::new();
    let mut i: usize = 0;
    while i < pieces.len()
        invariant
            i <= pieces.len(),
            db.wf(),
            views(pieces@) == split(trim(codes_text@), ','),
            stock_info_views(out@) == found_under(db@, views(pieces@).take(i as int)),
        decreases pieces.len() - i,
    {
        let ghost pv = views(pieces@);
        assert(pv.take(i + 1).drop_last() =~= pv.take(i as int));
        assert(pv.take(i + 1).last() == pieces@[i as int]@);
        let code_chars = trim_chars(pieces[i].as_slice());
        let code = string_of(code_chars.as_slice());
        match db.get(code.as_str()) {
            Some(s) => {
                let ghost before = out@;
                out.push(s.copy());
                assert(stock_info_views(out@) =~= stock_info_views(before).push(s@));
            },
            None => {},
        }
        i = i + 1;
    }
    assert(views(pieces@).take(pieces.len() as int) =~= views(pieces@));
    out
}

/// The number of batches of ten that `n` companies make.
pub open spec fn batch_total(n: nat) -> nat {
    (n + 9) / 10
}

/// The number of batches of ten that `n` companies make.
pub fn batch_count(n: usize) -> (res: usize)
    ensures
        res == batch_total(n as nat),
{
    n / 10 + if n % 10 == 0 { 0 } else { 1 }
}

/// A line of eighty `=`.
pub open spec fn rule_line() -> Seq<char> {
    "================================================================================\n"@
}

/// The listing line of the company numbered `n`: number, name, code and industry.
pub open spec fn listing_line(n: nat, s: StockInfoView) -> Seq<char> {
    decimal(n) + ". "@ + s.name + " ("@ + s.code + ") - "@ + s.industry_type + "\n"@
}

/// Appends the listing line of `s`, numbered `n`.
fn push_listing_line(out: &mut String, n: usize, s: &StockInfo)
    ensures
        final(out)@ == old(out)@ + listing_line(n as nat, s@),
{
    push_decimal(out, n);
    out.append(". ");
    out.append(s.name.as_str());
    out.append(" (");
    out.append(s.code.as_str());
    out.append(") - ");
    out.append(s.industry_type.as_str());
    out.append("\n");
}

/// The numbered listing of a batch: number, name, code and industry.
pub open spec fn listing_lines(s: Seq<StockInfoView>) -> Seq<char>
    decreases s.len(),
{
    if s.len() == 0 {
        seq![]
    } else {
        listing_lines(s.drop_last()) + listing_line(s.len(), s.last())
    }
}

/// The request line of the company numbered `n`: number, name and code.
pub open spec fn request_line(n: nat, s: StockInfoView) -> Seq<char> {
    decimal(n) + ". "@ + s.name + " ("@ + s.code + ")\n"@
}

/// Appends the request line of `s`, numbered `n`.
fn push_request_line(out: &mut String, n: usize, s: &StockInfo)
    ensures
        final(out)@ == old(out)@ + request_line(n as nat, s@),
{
    push_decimal(out, n);
    out.append(". ");
    out.append(s.name.as_str());
    out.append(" (");
    out.append(s.code.as_str());
    out.append(")\n");
}

/// The numbered request lines of a batch: number, name and code.
pub open spec fn request_lines(s: Seq<StockInfoView>) -> Seq<char>
    decreases s.len(),
{
    if s.len() == 0 {
        seq![]
    } else {
        request_lines(s.drop_last()) + request_line(s.len(), s.last())
    }
}

/// The reply template of a batch: one JSON member per company.
pub open spec fn reply_template(s: Seq<StockInfoView>) -> Seq<char>
    decreases s.len(),
{
    if s.len() == 0 {
        seq![]
    } else {
        reply_template(s.drop_last()) + "  \""@ + s.last().code
            + "\": {\n    \"website\": \"官網網址\",\n    \"product_description\": \"產品描述\"\n  },\n"@
    }
}

/// The first batch of `stocks` laid out for the person who looks the
/// companies up: the listing, the request and the reply template.
pub open spec fn first_batch_text(s: Seq<StockInfoView>) -> Seq<char> {
    let b = first_n(s, 10);
    rule_line() + "【批次 1/"@ + decimal(batch_total(s.len())) + "】\n"@ + rule_line() + "\n"@ + listing_lines(b)
        + "\n"@ + rule_line() + "\n💡 請將以上公司資料提供給 Kiro,格式如下:\n\n「請幫我查詢以下公司的官網和主要產品資訊,並用100字以內歸納:\n\n"@
        + request_lines(b) + "\n請以 JSON 格式回覆:」\n\n{\n"@ + reply_template(b) + "}\n\n"@ + rule_line()
        + "\n📝 處理完第一批次後,執行以下命令查看下一批次:\n   cargo run --release --bin show_next_batch\n"@
}

/// Appends the listing of `s`.
fn push_listing(out: &mut String, s: &Vec<StockInfo>)
    ensures
        final(out)@ == old(out)@ + listing_lines(stock_info_views(s@)),
{
    let mut i: usize = 0;
    while i < s.len()
        invariant
            i <= s.len(),
            out@ == old(out)@ + listing_lines(stock_info_views(s@).take(i as int)),
        decreases s.len() - i,
    {
        let ghost sv = stock_info_views(s@);
        assert(sv.take(i + 1).drop_last() =~= sv.take(i as int));
        assert(sv.take(i + 1).last() == s@[i as int]@);
        push_listing_line(out, i + 1, &s[i]);
        i = i + 1;
    }
    assert(stock_info_views(s@).take(s.len() as int) =~= stock_info_views(s@));
}

/// Appends the request lines of `s`.
fn push_requests(out: &mut String, s: &Vec<StockInfo>)
    ensures
        final(out)@ == old(out)@ + request_lines(stock_info_views(s@)),
{
    let mut i: usize = 0;
    while i < s.len()
        invariant
            i <= s.len(),
            out@ == old(out)@ + request_lines(stock_info_views(s@).take(i as int)),
        decreases s.len() - i,
    {
        let ghost sv = stock_info_views(s@);
        assert(sv.take(i + 1).drop_last() =~= sv.take(i as int));
        assert(sv.take(i + 1).last() == s@[i as int]@);
        push_request_line(out, i + 1, &s[i]);
        i = i + 1;
    }
    assert(stock_info_views(s@).take(s.len() as int) =~= stock_info_views(s@));
}

/// Appends the reply template of `s`.
fn push_template(out: &mut String, s: &Vec<StockInfo>)
    ensures
        final(out)@ == old(out)@ + reply_template(stock_info_views(s@)),
{
    let mut i: usize = 0;
    while i < s.len()
        invariant
            i <= s.len(),
            out@ == old(out)@ + reply_template(stock_info_views(s@).take(i as int)),
        decreases s.len() - i,
    {
        let ghost sv = stock_info_views(s@);
        assert(sv.take(i + 1).drop_last() =~= sv.take(i as int));
        assert(sv.take(i + 1).last() == s@[i as int]@);
        out.append("  \"");
        out.append(s[i].code.as_str());
        out.append("\": {\n    \"website\": \"官網網址\",\n    \"product_description\": \"產品描述\"\n  },\n");
        i = i + 1;
    }
    assert(stock_info_views(s@).take(s.len() as int) =~= stock_info_views(s@));
}

/// Lays out the first batch of the selected companies: a numbered listing,
/// the request to look them up, and the JSON reply template.
pub fn generate_batches(stocks: &Vec<StockInfo>) -> (res: String)
    requires
        stocks@.len() > 0,
    ensures
        res@ == first_batch_text(stock_info_views(stocks@)),
{
    let first = take_stocks(stocks, 10);
    let rule = "================================================================================\n";
    let mut out = String::from_str(rule);
    out.append("【批次 1/");
    push_decimal(&mut out, batch_count(stocks.len()));
    out.append("】\n");
    out.append(rule);
    out.append("\n");
    push_listing(&mut out, &first);
    out.append("\n");
    out.append(rule);
    out.append("\n💡 請將以上公司資料提供給 Kiro,格式如下:\n\n「請幫我查詢以下公司的官網和主要產品資訊,並用100字以內歸納:\n\n");
    push_requests(&mut out, &first);
    out.append("\n請以 JSON 格式回覆:」\n\n{\n");
    push_template(&mut out, &first);
    out.append("}\n\n");
    out.append(rule);
    out.append("\n📝 處理完第一批次後,執行以下命令查看下一批次:\n   cargo run --release --bin show_next_batch\n");
    out
}

/// The industries of the companies, in order.
pub open spec fn industry_names(s: Seq<StockInfoView>) -> Seq<Seq<char>> {
    s.map_values(|x: StockInfoView| x.industry_type)
}

/// The industries of the companies with the number of companies in each, the
/// largest first (industries of equal size in no promised order).
pub fn industry_counts(stocks: &Vec<StockInfo>) -> (res: Vec<NameCount>)
    ensures
        is_tally(count_views(res@), industry_names(stock_info_views(stocks@))),
{
    let mut names: Vec<String> = Vec::new();
    let mut i: usize = 0;
    while i < stocks.len()
        invariant
            i <= stocks@.len(),
            names@.map_values(|n: String| n@) == industry_names(stock_info_views(stocks@)).take(i as int),
        decreases stocks@.len() - i,
    {
        let ghost before = names@.map_values(|n: String| n@);
        names.push(stocks[i].industry_type.clone());
        assert(names@.map_values(|n: String| n@) =~= before.push(stocks@[i as int].industry_type@));
        assert(industry_names(stock_info_views(stocks@)).take(i + 1) =~= industry_names(stock_info_views(stocks@)).take(
            i as int,
        ).push(stocks@[i as int].industry_type@));
        i = i + 1;
    }
    assert(industry_names(stock_info_views(stocks@)).take(stocks@.len() as int) =~= industry_names(
        stock_info_views(stocks@),
    ));
    tally(&names)
}

/// The overview of the largest industries: up to 20 lines of number,
/// industry and count.
pub open spec fn overview_lines(s: Seq<(Seq<char>, nat)>) -> Seq<char>
    decreases s.len(),
{
    if s.len() == 0 {
        seq![]
    } else {
        overview_lines(s.drop_last()) + "  "@ + decimal(s.len()) + ". "@ + s.last().0 + " - "@ + decimal(s.last().1)
            + " 家\n"@
    }
}

/// The overview of the 20 largest industries of `counts`.
pub fn industry_overview(counts: &Vec<NameCount>) -> (res: String)
    ensures
        res@ == overview_lines(first_n(count_views(counts@), 20)),
{
    let ghost cv = count_views(counts@);
    let mut out = String::new();
    let mut i: usize = 0;
    while i < counts.len() && i < 20
        invariant
            i <= counts@.len(),
            i <= 20,
            cv == count_views(counts@),
            out@ == overview_lines(cv.take(i as int)),
        decreases counts@.len() - i,
    {
        assert(cv.take(i + 1).drop_last() =~= cv.take(i as int));
        assert(cv.take(i + 1).last() == cv[i as int]);
        out.append("  ");
        push_decimal(&mut out, i + 1);
        out.append(". ");
        out.append(counts[i].name.as_str());
        out.append(" - ");
        push_decimal(&mut out, counts[i].count);
        out.append(" 家\n");
        i = i + 1;
    }
    assert(i == counts@.len() ==> cv.take(i as int) =~= cv);
    out
}

/// Batch `b` of ten companies of `s` (the last one may be shorter).
pub open spec fn batch_at(s: Seq<StockInfoView>, b: nat) -> Seq<StockInfoView> {
    let lo = 10 * b;
    let hi = if 10 * b + 10 < s.len() { (10 * b + 10) as int } else { s.len() as int };
    s.subrange(lo as int, hi)
}

/// Every company of `c` has a product description.
pub open spec fn all_described(c: Seq<StockInfoView>) -> bool {
    forall|i: int| 0 <= i < c.len() ==> (#[trigger] c[i]).product_description is Some
}

/// The first batch from `b` on that still has a company without a product
/// description; 0 where every batch is done.
pub open spec fn open_batch_from(s: Seq<StockInfoView>, b: nat) -> nat
    decreases batch_total(s.len()) - b,
{
    if b >= batch_total(s.len()) {
        0
    } else if !all_described(batch_at(s, b)) {
        b
    } else {
        open_batch_from(s, b + 1)
    }
}

/// A batch that exists starts inside the list.
proof fn lemma_batch_start(b: nat, n: nat)
    requires
        b < batch_total(n),
    ensures
        10 * b < n,
{
    assert(10 * b < n) by (nonlinear_arith)
        requires
            b < (n + 9) / 10,
    {
        assert(10 * ((n + 9) / 10) <= n + 9);
    }
}

/// The first `k` batches, one after the other.
pub open spec fn batches_joined(s: Seq<StockInfoView>, k: nat) -> Seq<StockInfoView>
    decreases k,
{
    if k == 0 {
        seq![]
    } else {
        batches_joined(s, (k - 1) as nat) + batch_at(s, (k - 1) as nat)
    }
}

/// The first `k` batches make up the first `10 * k` companies.
proof fn lemma_batches_prefix(s: Seq<StockInfoView>, k: nat)
    requires
        k <= batch_total(s.len()),
    ensures
        batches_joined(s, k) == s.take(if 10 * k < s.len() { (10 * k) as int } else { s.len() as int }),
    decreases k,
{
    if k > 0 {
        lemma_batches_prefix(s, (k - 1) as nat);
        lemma_batch_start((k - 1) as nat, s.len());
        let lo = 10 * (k - 1);
        let hi = if 10 * k < s.len() { (10 * k) as int } else { s.len() as int };
        assert(s.take(lo as int) + s.subrange(lo as int, hi) =~= s.take(hi));
    }
}

/// Cutting the companies into batches of ten loses none and repeats none:
/// the batches, one after the other, give back the whole list.
pub proof fn law_batches_cover_list(s: Seq<StockInfoView>)
    ensures
        batches_joined(s, batch_total(s.len())) == s,
{
    lemma_batches_prefix(s, batch_total(s.len()));
    let n = s.len();
    assert(10 * ((n + 9) / 10) >= n) by (nonlinear_arith);
    assert(s.take(n as int) =~= s);
}

/// From `start` on, the batches before the one `open_batch_from` picks have
/// every product description; where a batch from `start` on lacks one, the
/// one picked is such a batch.
proof fn lemma_open_batch_from(s: Seq<StockInfoView>, start: nat, b: nat)
    ensures
        start <= b < open_batch_from(s, start) ==> all_described(batch_at(s, b)),
        (exists|c: nat| start <= c < batch_total(s.len()) && !all_described(#[trigger] batch_at(s, c))) ==> (start
            <= open_batch_from(s, start) < batch_total(s.len()) && !all_described(
            batch_at(s, open_batch_from(s, start)),
        )),
    decreases batch_total(s.len()) - start,
{
    if start < batch_total(s.len()) && all_described(batch_at(s, start)) {
        lemma_open_batch_from(s, start + 1, b);
        if exists|c: nat| start <= c < batch_total(s.len()) && !all_described(#[trigger] batch_at(s, c)) {
            let c = choose|c: nat| start <= c < batch_total(s.len()) && !all_described(#[trigger] batch_at(s, c));
            assert(c != start);
            assert(start + 1 <= c);
        }
    }
}

/// The batch shown next is the first one with a company still to look up:
/// every batch before it has all its product descriptions, and it has not
/// (where every batch is done, the first batch is shown again).
pub proof fn law_next_batch_is_first_open(s: Seq<StockInfoView>, b: nat)
    ensures
        b < open_batch_from(s, 0) ==> all_described(batch_at(s, b)),
        (exists|c: nat| c < batch_total(s.len()) && !all_described(#[trigger] batch_at(s, c))) ==> (open_batch_from(
            s,
            0,
        ) < batch_total(s.len()) && !all_described(batch_at(s, open_batch_from(s, 0)))),
{
    lemma_open_batch_from(s, 0, b);
}

/// The batch to show next: the first that still has a company without a
/// product description, or the first batch where all are done.
pub fn next_batch_index(stocks: &Vec<StockInfo>) -> (res: usize)
    ensures
        res == open_batch_from(stock_info_views(stocks@), 0),
{
    let ghost sv = stock_info_views(stocks@);
    let total = batch_count(stocks.len());
    let mut b: usize = 0;
    while b < total
        invariant
            total == batch_total(sv.len()),
            sv == stock_info_views(stocks@),
            b <= total,
            open_batch_from(sv, 0) == open_batch_from(sv, b as nat),
        decreases total - b,
    {
        let n = stocks.len();
        proof {
            lemma_batch_start(b as nat, n as nat);
        }
        let lo = 10 * b;
        let hi = if n - lo > 10 { lo + 10 } else { n };
        let mut k: usize = lo;
        let mut done = true;
        while k < hi
            invariant
                b < total,
                lo == 10 * b,
                lo <= hi <= stocks@.len(),
                hi == (if 10 * b + 10 < stocks@.len() { 10 * b + 10 } else { stocks@.len() as int }),
                lo <= k <= hi,
                sv == stock_info_views(stocks@),
                done <==> forall|q: int| lo <= q < k ==> (#[trigger] sv[q]).product_description is Some,
            decreases hi - k,
        {
            assert(sv[k as int] == stocks@[k as int]@);
            if stocks[k].product_description.is_none() {
                done = false;
            }
            k = k + 1;
        }
        let ghost c = batch_at(sv, b as nat);
        assert(done <==> all_described(c)) by {
            assert forall|q: int| 0 <= q < c.len() implies c[q] == sv[lo + q] by {}
            if done {
                assert forall|q: int| 0 <= q < c.len() implies (#[trigger] c[q]).product_description is Some by {
                    assert(sv[lo + q].product_description is Some);
                }
            } else {
                let q = choose|q: int| lo <= q < hi && !((#[trigger] sv[q]).product_description is Some);
                assert(c[q - lo] == sv[q]);
            }
        }
        if !done {
            return b;
        }
        b = b + 1;
    }
    0
}

/// The status lines of a batch: a tick for a company with a product
/// description, then its number, name, code and industry.
pub open spec fn status_lines(c: Seq<StockInfoView>) -> Seq<char>
    decreases c.len(),
{
    if c.len() == 0 {
        seq![]
    } else {
        status_lines(c.drop_last()) + status_line(c.len(), c.last())
    }
}

/// The lines of the companies of a batch still to look up, numbered by their
/// place in the batch.
pub open spec fn open_lines(c: Seq<StockInfoView>) -> Seq<char>
    decreases c.len(),
{
    if c.len() == 0 {
        seq![]
    } else if c.last().product_description is None {
        open_lines(c.drop_last()) + listing_line(c.len(), c.last())
    } else {
        open_lines(c.drop_last())
    }
}

/// The companies of a batch still to look up are exactly those without a
/// product description: the text asking for them is, in the batch's order,
/// the listing line of each company whose product description is missing,
/// numbered by its place in the batch, and nothing for a described one.
pub proof fn law_open_lines_are_undescribed(c: Seq<StockInfoView>)
    ensures
        open_lines(c) == Seq::new(
            c.len(),
            |i: int|
                if c[i].product_description is None {
                    listing_line((i + 1) as nat, c[i])
                } else {
                    Seq::<char>::empty()
                },
        ).flatten(),
    decreases c.len(),
{
    let parts = Seq::new(
        c.len(),
        |i: int|
            if c[i].product_description is None {
                listing_line((i + 1) as nat, c[i])
            } else {
                Seq::<char>::empty()
            },
    );
    parts.lemma_flatten_and_flatten_alt_are_equivalent();
    if c.len() > 0 {
        let d = c.drop_last();
        law_open_lines_are_undescribed(d);
        let before = Seq::new(
            d.len(),
            |i: int|
                if d[i].product_description is None {
                    listing_line((i + 1) as nat, d[i])
                } else {
                    Seq::<char>::empty()
                },
        );
        assert(parts.drop_last() =~= before);
        before.lemma_flatten_and_flatten_alt_are_equivalent();
        if c.last().product_description is None {
            assert(parts.last() == listing_line(c.len(), c.last()));
        } else {
            assert(parts.last() =~= Seq::<char>::empty());
            assert(before.flatten_alt() + Seq::<char>::empty() =~= before.flatten_alt());
        }
    } else {
        assert(parts.flatten_alt() =~= Seq::<char>::empty());
    }
}

/// A batch whose companies all have a product description asks for nothing.
pub proof fn law_described_batch_asks_nothing(c: Seq<StockInfoView>)
    requires
        forall|i: int| 0 <= i < c.len() ==> (#[trigger] c[i]).product_description is Some,
    ensures
        open_lines(c) == Seq::<char>::empty(),
    decreases c.len(),
{
    if c.len() > 0 {
        assert(c.last() == c[c.len() - 1]);
        law_described_batch_asks_nothing(c.drop_last());
    }
}

/// Adding a described company to a batch adds nothing to what is asked for;
/// adding one without a description asks for it, numbered by its place.
pub proof fn law_open_lines_push(c: Seq<StockInfoView>, x: StockInfoView)
    ensures
        x.product_description is Some ==> open_lines(c.push(x)) == open_lines(c),
        x.product_description is None ==> open_lines(c.push(x)) == open_lines(c) + listing_line(c.len() + 1, x),
{
    assert(c.push(x).drop_last() =~= c);
    assert(c.push(x).last() == x);
}

/// What is shown of the batches of `s`: how many companies and batches
/// there are, then the next batch to do with what is still to look up.
pub open spec fn batch_status_text(s: Seq<StockInfoView>) -> Seq<char> {
    let total = batch_total(s.len());
    let head = "📦 總共 "@ + decimal(s.len()) + " 家公司,分成 "@ + decimal(total) + " 個批次\n\n"@;
    let b = open_batch_from(s, 0);
    if b >= total {
        head + "✅ 所有批次都已處理完成!\n"@
    } else {
        let c = batch_at(s, b);
        head + rule_line() + "【批次 "@ + decimal(b + 1) + "/"@ + decimal(total) + "】\n"@ + rule_line() + "\n"@
            + status_lines(c) + "\n"@ + rule_line() + "\n💡 請將以下公司資料提供給 Kiro:\n\n"@ + open_lines(c)
            + "\n請 Kiro 幫忙查詢這些公司的官網和主要產品資訊,並以 JSON 格式回覆。\n\n"@ + rule_line()
    }
}

/// The status line of the company numbered `n`.
pub open spec fn status_line(n: nat, s: StockInfoView) -> Seq<char> {
    (if s.product_description is Some { "✓"@ } else { " "@ }) + " "@ + decimal(n) + ". "@ + s.name + " ("@
        + s.code + ") - "@ + s.industry_type + "\n"@
}

/// Every company of a batch has its status line, in order and numbered by its
/// place in the batch, and the line starts with a tick exactly when the
/// company has a product description.
pub proof fn law_status_lines_tick_described(c: Seq<StockInfoView>)
    ensures
        status_lines(c) == Seq::new(c.len(), |i: int| status_line((i + 1) as nat, c[i])).flatten(),
        forall|i: int|
            0 <= i < c.len() ==> (#[trigger] status_line((i + 1) as nat, c[i])[0] == '✓' <==> c[i].product_description
                is Some),
    decreases c.len(),
{
    let parts = Seq::new(c.len(), |i: int| status_line((i + 1) as nat, c[i]));
    parts.lemma_flatten_and_flatten_alt_are_equivalent();
    reveal_strlit("✓");
    reveal_strlit(" ");
    if c.len() > 0 {
        let d = c.drop_last();
        law_status_lines_tick_described(d);
        let before = Seq::new(d.len(), |i: int| status_line((i + 1) as nat, d[i]));
        assert(parts.drop_last() =~= before);
        before.lemma_flatten_and_flatten_alt_are_equivalent();
        assert(parts.last() == status_line(c.len(), c.last()));
    } else {
        assert(parts.flatten_alt() =~= Seq::<char>::empty());
    }
    assert forall|i: int| 0 <= i < c.len() implies (#[trigger] status_line((i + 1) as nat, c[i])[0] == '✓'
        <==> c[i].product_description is Some) by {
        let mark = if c[i].product_description is Some { "✓"@ } else { " "@ };
        assert(status_line((i + 1) as nat, c[i])[0] == mark[0]);
    }
}

/// Appends the status line of `s`, numbered `n`.
fn push_status_line(out: &mut String, n: usize, s: &StockInfo)
    ensures
        final(out)@ == old(out)@ + status_line(n as nat, s@),
{
    if s.product_description.is_some() {
        out.append("✓");
    } else {
        out.append(" ");
    }
    out.append(" ");
    push_decimal(out, n);
    out.append(". ");
    out.append(s.name.as_str());
    out.append(" (");
    out.append(s.code.as_str());
    out.append(") - ");
    out.append(s.industry_type.as_str());
    out.append("\n");
}

/// Appends the status lines of `c`.
fn push_status_lines(out: &mut String, c: &Vec<StockInfo>)
    ensures
        final(out)@ == old(out)@ + status_lines(stock_info_views(c@)),
{
    let mut i: usize = 0;
    while i < c.len()
        invariant
            i <= c.len(),
            out@ == old(out)@ + status_lines(stock_info_views(c@).take(i as int)),
        decreases c.len() - i,
    {
        let ghost cv = stock_info_views(c@);
        assert(cv.take(i + 1).drop_last() =~= cv.take(i as int));
        assert(cv.take(i + 1).last() == c@[i as int]@);
        push_status_line(out, i + 1, &c[i]);
        i = i + 1;
    }
    assert(stock_info_views(c@).take(c.len() as int) =~= stock_info_views(c@));
}

/// Appends the lines of the companies of `c` still to look up.
fn push_open_lines(out: &mut String, c: &Vec<StockInfo>)
    ensures
        final(out)@ == old(out)@ + open_lines(stock_info_views(c@)),
{
    let mut i: usize = 0;
    while i < c.len()
        invariant
            i <= c.len(),
            out@ == old(out)@ + open_lines(stock_info_views(c@).take(i as int)),
        decreases c.len() - i,
    {
        let ghost cv = stock_info_views(c@);
        assert(cv.take(i + 1).drop_last() =~= cv.take(i as int));
        assert(cv.take(i + 1).last() == c@[i as int]@);
        if c[i].product_description.is_none() {
            push_listing_line(out, i + 1, &c[i]);
        }
        i = i + 1;
    }
    assert(stock_info_views(c@).take(c.len() as int) =~= stock_info_views(c@));
}

/// Companies `lo..hi` of `stocks`, copied.
fn copy_range(stocks: &Vec<StockInfo>, lo: usize, hi: usize) -> (res: Vec<StockInfo>)
    requires
        lo <= hi <= stocks@.len(),
    ensures
        stock_info_views(res@) == stock_info_views(stocks@).subrange(lo as int, hi as int),
{
    let mut out: Vec<StockInfo> = Vec::new();
    let mut k: usize = lo;
    while k < hi
        invariant
            lo <= k <= hi <= stocks@.len(),
            stock_info_views(out@) == stock_info_views(stocks@).subrange(lo as int, k as int),
        decreases hi - k,
    {
        let ghost before = out@;
        out.push(stocks[k].copy());
        assert(stock_info_views(out@) =~= stock_info_views(before).push(stocks@[k as int]@));
        assert(stock_info_views(stocks@).subrange(lo as int, k + 1) =~= stock_info_views(stocks@).subrange(
            lo as int,
            k as int,
        ).push(stocks@[k as int]@));
        k = k + 1;
    }
    out
}

/// The next batch to look up, laid out with how far the batches have got.
pub fn batch_status(stocks: &Vec<StockInfo>) -> (res: String)
    ensures
        res@ == batch_status_text(stock_info_views(stocks@)),
{
    let ghost sv = stock_info_views(stocks@);
    let total = batch_count(stocks.len());
    let mut out = String::from_str("📦 總共 ");
    push_decimal(&mut out, stocks.len());
    out.append(" 家公司,分成 ");
    push_decimal(&mut out, total);
    out.append(" 個批次\n\n");
    let b = next_batch_index(stocks);
    if b >= total {
        out.append("✅ 所有批次都已處理完成!\n");
        return out;
    }
    proof {
        lemma_batch_start(b as nat, stocks@.len());
    }
    let lo = 10 * b;
    let hi = if stocks.len() - lo > 10 { lo + 10 } else { stocks.len() };
    let current = copy_range(stocks, lo, hi);
    let rule = "================================================================================\n";
    out.append(rule);
    out.append("【批次 ");
    push_decimal(&mut out, b + 1);
    out.append("/");
    push_decimal(&mut out, total);
    out.append("】\n");
    out.append(rule);
    out.append("\n");
    push_status_lines(&mut out, &current);
    out.append("\n");
    out.append(rule);
    out.append("\n💡 請將以下公司資料提供給 Kiro:\n\n");
    push_open_lines(&mut out, &current);
    out.append("\n請 Kiro 幫忙查詢這些公司的官網和主要產品資訊,並以 JSON 格式回覆。\n\n");
    out.append(rule);
    out
}

/// A company's web site content waiting to be summed up.
#[derive(Debug)]
pub struct AiTask {
    pub code: String,
    pub name: String,
    pub website: String,
    pub content: String,
}

/// The number of rounds of five tasks.
pub open spec fn task_rounds(n: nat) -> nat {
    (n + 4) / 5
}

/// The number of rounds of five that `n` tasks make.
pub fn task_round_count(n: usize) -> (res: usize)
    ensures
        res == task_rounds(n as nat),
{
    n / 5 + if n % 5 == 0 { 0 } else { 1 }
}

/// The block that asks for one task to be summed up: the company, its site,
/// the first 500 bytes of the content (all of it where shorter) and the
/// request; `None` where byte 500 falls inside a character.
pub open spec fn task_block(code: Seq<char>, name: Seq<char>, website: Seq<char>, content: Seq<char>) -> Option<Seq<char>> {
    match crate::text::byte_prefix(content, 500) {
        Some(p) => Some(
            "公司代號: "@ + code + "\n公司名稱: "@ + name + "\n官網: "@ + website + "\n網站內容摘要:\n"@ + p
                + "\n\n請用100字以內歸納「"@ + name
                + "」的主要產品或服務。\n--------------------------------------------------------------------------------\n"@,
        ),
        None => None,
    }
}

/// The block that asks for `task` to be summed up; `None` where the content
/// would be cut inside a character.
pub fn task_text(task: &AiTask) -> (res: Option<String>)
    ensures
        match res {
            Some(t) => task_block(task.code@, task.name@, task.website@, task.content@) == Some(t@),
            None => task_block(task.code@, task.name@, task.website@, task.content@) is None,
        },
{
    let c = chars_of(task.content.as_str());
    match crate::text::byte_prefix_chars(c.as_slice(), 500) {
        Some(p) => {
            let mut out = String::from_str("公司代號: ");
            out.append(task.code.as_str());
            out.append("\n公司名稱: ");
            out.append(task.name.as_str());
            out.append("\n官網: ");
            out.append(task.website.as_str());
            out.append("\n網站內容摘要:\n");
            let ps = string_of(p.as_slice());
            out.append(ps.as_str());
            out.append("\n\n請用100字以內歸納「");
            out.append(task.name.as_str());
            out.append("」的主要產品或服務。\n--------------------------------------------------------------------------------\n");
            Some(out)
        },
        None => None,
    }
}

/// A company and the findings to record for it.
#[derive(Debug)]
pub struct BatchUpdate {
    pub code: String,
    pub website: String,
    pub product_description: String,
}

/// The database after recording `updates` in order at time `now`; updates for
/// codes the database does not hold are passed over.
pub open spec fn updated_database(
    db: Map<Seq<char>, StockInfoView>,
    updates: Seq<BatchUpdate>,
    now: Seq<char>,
) -> Map<Seq<char>, StockInfoView>
    decreases updates.len(),
{
    if updates.len() == 0 {
        db
    } else {
        let m = updated_database(db, updates.drop_last(), now);
        let u = updates.last();
        if m.contains_key(u.code@) {
            m.insert(
                u.code@,
                crate::company_db::with_findings(m[u.code@], Some(u.website@), Some(u.product_description@), now),
            )
        } else {
            m
        }
    }
}

/// Records each update's website and product description, with the time
/// `now`, for the company of its code. Returns, for each update, whether the
/// database holds its code.
pub fn apply_batch_updates(db: &mut CompanyDatabase, updates: &Vec<BatchUpdate>, now: &str) -> (res: Vec<bool>)
    requires
        old(db).wf(),
    ensures
        final(db).wf(),
        final(db)@ == updated_database(old(db)@, updates@, now@),
        final(db)@.dom() == old(db)@.dom(),
        res@.len() == updates@.len(),
        forall|i: int| 0 <= i < res@.len() ==> #[trigger] res@[i] == old(db)@.contains_key(updates@[i].code@),
{
    let ghost start = db@;
    let mut found: Vec<bool> = Vec::new();
    let mut i: usize = 0;
    while i < updates.len()
        invariant
            i <= updates@.len(),
            db.wf(),
            db@ == updated_database(start, updates@.take(i as int), now@),
            db@.dom() == start.dom(),
            found@.len() == i,
            forall|j: int| 0 <= j < i ==> #[trigger] found@[j] == start.contains_key(updates@[j].code@),
        decreases updates@.len() - i,
    {
        assert(updates@.take(i + 1).drop_last() =~= updates@.take(i as int));
        assert(updates@.take(i + 1).last() == updates@[i as int]);
        let u = &updates[i];
        let ghost before = db@;
        let hit = db.record_findings(
            u.code.as_str(),
            Some(u.website.clone()),
            Some(u.product_description.clone()),
            String::from_str(now),
        );
        if hit {
            assert(db@.dom() =~= before.dom());
        }
        found.push(hit);
        i = i + 1;
    }
    assert(updates@.take(updates@.len() as int) =~= updates@);
    found
}

} // verus!
