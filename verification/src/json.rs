//! Reading JSON documents through `serde_json`.
use vstd::prelude::*;

verus! {

/// One step into a JSON value: an object member or an array element.
pub enum JsonStep {
    Key(String),
    Index(usize),
}

/// A step into a JSON value, as plain values.
pub enum JsonStepView {
    Key(Seq<char>),
    Index(nat),
}

impl View for JsonStep {
    type V = JsonStepView;

    open spec fn view(&self) -> JsonStepView {
        match self {
            JsonStep::Key(k) => JsonStepView::Key(k@),
            JsonStep::Index(i) => JsonStepView::Index(*i as nat),
        }
    }
}

/// The steps of a path, as plain values.
pub open spec fn path_view(path: Seq<JsonStep>) -> Seq<JsonStepView> {
    path.map_values(|s: JsonStep| s@)
}

/// What reading `text` as a `serde_json::Value` and following `path` gives:
/// `Err(())` when the text is not JSON, `Ok(Some(s))` when the value reached is
/// the string `s`, and `Ok(None)` otherwise.
pub uninterp spec fn json_string_at(text: Seq<char>, path: Seq<JsonStepView>) -> Result<Option<Seq<char>>, ()>;

/// Calls `serde_json::from_str::<serde_json::Value>` on `text`, indexes the
/// value along `path` (`Value[&str]` for a key, `Value[usize]` for an index;
/// both give `Null` where the step is missing) and calls `Value::as_str`. The
/// contract names that result.
#[verifier::external_body]
pub(crate) fn string_at(text: &str, path: &Vec<JsonStep>) -> (res: Result<Option<String>, ()>)
    ensures
        match res {
            Ok(Some(s)) => json_string_at(text@, path_view(path@)) == Ok::<Option<Seq<char>>, ()>(Some(s@)),
            Ok(None) => json_string_at(text@, path_view(path@)) == Ok::<Option<Seq<char>>, ()>(None),
            Err(()) => json_string_at(text@, path_view(path@)) == Err::<Option<Seq<char>>, ()>(()),
        },
{
    let value: serde_json::Value = serde_json::from_str(text).map_err(|_| ())?;
    let mut cur = &value;
    for step in path {
        cur = match step {
            JsonStep::Key(k) => &cur[k.as_str()],
            JsonStep::Index(i) => &cur[*i],
        };
    }
    Ok(cur.as_str().map(str::to_string))
}

} // verus!
