//! Company descriptions from the `yfinance` Python package: the scripts that
//! ask it, and what their output is taken to say.
use vstd::prelude::*;
use crate::codec::{lossy_decoded, utf8_lossy};
use crate::json::{json_string_at, path_view, string_at, JsonStep, JsonStepView};
use crate::text::{chars_of, string_of, trim, trim_chars};

verus! {

/// The ticker under which `yfinance` knows a listed stock: its code and `.TW`.
pub fn yfinance_ticker(code: &str) -> (res: String)
    ensures
        res@ == code@ + ".TW"@,
{
    let mut t = String::from_str(code);
    t.append(".TW");
    t
}

/// A Python script that prints the long business summary of `ticker` (its
/// sector where the summary is empty), or an empty line on any failure.
pub open spec fn profile_script_text(ticker: Seq<char>) -> Seq<char> {
    "\nimport yfinance as yf\nimport json\n\ntry:\n    ticker = yf.Ticker(\""@ + ticker
        + "\")\n    info = ticker.info\n    \n    # 優先取得 longBusinessSummary，其次 sector\n    business_summary = info.get('longBusinessSummary', '')\n    if not business_summary:\n        business_summary = info.get('sector', '')\n    \n    print(business_summary if business_summary else '')\nexcept Exception as e:\n    print('')\n"@
}

/// The script that prints the business summary of `ticker`.
pub fn profile_script(ticker: &str) -> (res: String)
    ensures
        res@ == profile_script_text(ticker@),
{
    let mut s = String::from_str("\nimport yfinance as yf\nimport json\n\ntry:\n    ticker = yf.Ticker(\"");
    s.append(ticker);
    s.append("\")\n    info = ticker.info\n    \n    # 優先取得 longBusinessSummary，其次 sector\n    business_summary = info.get('longBusinessSummary', '')\n    if not business_summary:\n        business_summary = info.get('sector', '')\n    \n    print(business_summary if business_summary else '')\nexcept Exception as e:\n    print('')\n");
    s
}

/// A Python script that prints, as JSON, the sector, industry and first 200
/// characters of the business summary of `ticker`, or an `error` member.
pub open spec fn summary_script_text(ticker: Seq<char>) -> Seq<char> {
    "\nimport yfinance as yf\nimport json\n\ntry:\n    ticker = yf.Ticker(\""@ + ticker
        + "\")\n    info = ticker.info\n    \n    # 提取主要業務資訊\n    sector = info.get('sector', '')\n    industry = info.get('industry', '')\n    business_summary = info.get('longBusinessSummary', '')\n    \n    result = {\n        'sector': sector,\n        'industry': industry,\n        'business_summary': business_summary[:200] if business_summary else ''\n    }\n    print(json.dumps(result, ensure_ascii=False))\nexcept Exception as e:\n    print(json.dumps({'error': str(e)}, ensure_ascii=False))\n"@
}

/// The script that prints the summary of `ticker` as JSON.
pub fn summary_script(ticker: &str) -> (res: String)
    ensures
        res@ == summary_script_text(ticker@),
{
    let mut s = String::from_str("\nimport yfinance as yf\nimport json\n\ntry:\n    ticker = yf.Ticker(\"");
    s.append(ticker);
    s.append("\")\n    info = ticker.info\n    \n    # 提取主要業務資訊\n    sector = info.get('sector', '')\n    industry = info.get('industry', '')\n    business_summary = info.get('longBusinessSummary', '')\n    \n    result = {\n        'sector': sector,\n        'industry': industry,\n        'business_summary': business_summary[:200] if business_summary else ''\n    }\n    print(json.dumps(result, ensure_ascii=False))\nexcept Exception as e:\n    print(json.dumps({'error': str(e)}, ensure_ascii=False))\n");
    s
}

/// The profile that the profile script printed: its output read as UTF-8
/// (invalid sequences replaced) and trimmed, where that is not empty.
pub fn profile_from_output(stdout: &[u8]) -> (res: Option<String>)
    ensures
        match res {
            Some(p) => p@ == trim(lossy_decoded(stdout@)) && p@.len() > 0,
            None => trim(lossy_decoded(stdout@)).len() == 0,
        },
{
    let text = utf8_lossy(stdout);
    let t = chars_of(text.as_str());
    let p = trim_chars(t.as_slice());
    if p.len() > 0 {
        Some(string_of(p.as_slice()))
    } else {
        None
    }
}

/// The path to the summary in the summary script's JSON output.
pub open spec fn summary_path() -> Seq<JsonStepView> {
    seq![JsonStepView::Key("business_summary"@)]
}

/// The business summary that the summary script printed: the string member
/// `business_summary` of its output read as JSON, where that is not empty.
pub fn summary_from_output(stdout: &[u8]) -> (res: Option<String>)
    ensures
        match res {
            Some(s) => json_string_at(lossy_decoded(stdout@), summary_path()) == Ok::<Option<Seq<char>>, ()>(
                Some(s@),
            ) && s@.len() > 0,
            None => match json_string_at(lossy_decoded(stdout@), summary_path()) {
                Ok(Some(s)) => s.len() == 0,
                _ => true,
            },
        },
{
    let text = utf8_lossy(stdout);
    let mut path: Vec<JsonStep> = Vec::new();
    path.push(JsonStep::Key(String::from_str("business_summary")));
    assert(path_view(path@) =~= summary_path());
    match string_at(text.as_str(), &path) {
        Ok(Some(s)) => {
            if s.as_str().is_empty() {
                None
            } else {
                Some(s)
            }
        },
        _ => None,
    }
}

/// The line written to the status log: the time in brackets, then the
/// message, trimmed, and a line break.
pub fn status_log_line(timestamp: &str, message: &str) -> (res: String)
    ensures
        res@ == trim("["@ + timestamp@ + "] "@ + message@ + "\n"@) + "\n"@,
{
    let mut line = String::from_str("[");
    line.append(timestamp);
    line.append("] ");
    line.append(message);
    line.append("\n");
    let c = chars_of(line.as_str());
    let t = trim_chars(c.as_slice());
    let mut out = string_of(t.as_slice());
    out.append("\n");
    out
}

} // verus!
