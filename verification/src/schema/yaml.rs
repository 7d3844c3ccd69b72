//! YAML values, and which of them are safe to read as an OpenAPI document.

use vstd::prelude::*;

use crate::json::RESERVED_PREFIX;
use crate::text::{has_prefix, str_eq, strip_prefix};

verus! {

broadcast use vstd::string::group_string_axioms;

/// A YAML value. A number is held as the text that `serde_yaml` writes for it.
#[derive(Debug)]
pub enum Yaml {
    Null,
    Bool(bool),
    Number(String),
    Text(String),
    List(Vec<Yaml>),
    Table(Vec<(Yaml, Yaml)>),
    Tagged(String, Box<Yaml>),
}

/// What a YAML value is, mathematically.
pub enum YamlView {
    Null,
    Bool(bool),
    Number(Seq<char>),
    Text(Seq<char>),
    List(Seq<YamlView>),
    Table(Seq<(YamlView, YamlView)>),
    Tagged(Seq<char>, Box<YamlView>),
}

impl View for Yaml {
    type V = YamlView;

    open spec fn view(&self) -> YamlView {
        self.model()
    }
}

impl Yaml {
    /// What the value is, mathematically.
    pub open spec fn model(self) -> YamlView
        decreases self,
    {
        match self {
            Yaml::Null => YamlView::Null,
            Yaml::Bool(b) => YamlView::Bool(b),
            Yaml::Number(t) => YamlView::Number(t@),
            Yaml::Text(s) => YamlView::Text(s@),
            Yaml::List(v) => YamlView::List(
                Seq::new(
                    v@.len(),
                    |i: int|
                        if 0 <= i < v@.len() {
                            v@[i].model()
                        } else {
                            YamlView::Null
                        },
                ),
            ),
            Yaml::Table(v) => YamlView::Table(
                Seq::new(
                    v@.len(),
                    |i: int|
                        if 0 <= i < v@.len() {
                            (v@[i].0.model(), v@[i].1.model())
                        } else {
                            (YamlView::Null, YamlView::Null)
                        },
                ),
            ),
            Yaml::Tagged(t, inner) => YamlView::Tagged(t@, Box::new(inner.model())),
        }
    }
}

/// Whether the text of a number is that of one that is not finite.
pub open spec fn is_not_finite(t: Seq<char>) -> bool {
    t == ".nan"@ || t == ".inf"@ || t == "-.inf"@
}

/// Whether a key is a text that `serde_json` keeps for its own use.
pub open spec fn is_reserved_key(key: YamlView) -> bool {
    key matches YamlView::Text(s) && has_prefix(s, RESERVED_PREFIX@)
}

/// Whether a JSON value can hold the same thing: every number is finite, and no
/// key is reserved.
pub open spec fn fits_json(y: YamlView) -> bool
    decreases y,
{
    match y {
        YamlView::Number(t) => !is_not_finite(t),
        YamlView::List(v) => forall|i: int| 0 <= i < v.len() ==> fits_json(#[trigger] v[i]),
        YamlView::Table(ms) => forall|i: int|
            0 <= i < ms.len() ==> !is_reserved_key((#[trigger] ms[i]).0) && fits_json(ms[i].0)
                && fits_json(ms[i].1),
        YamlView::Tagged(_, inner) => fits_json(*inner),
        _ => true,
    }
}

/// What `serde_yaml` makes of a sequence of bytes: one YAML value, or the text
/// of the error.
pub uninterp spec fn yaml_of_bytes(bytes: Seq<u8>) -> Result<YamlView, Seq<char>>;

/// What the outcome of reading a YAML value is.
pub open spec fn yaml_result(r: Result<Yaml, String>) -> Result<YamlView, Seq<char>> {
    match r {
        Ok(y) => Ok(y@),
        Err(e) => Err(e@),
    }
}

/// A YAML value of `serde_yaml`.
#[verifier::external_type_specification]
#[verifier::external_body]
pub struct ExYamlValue(serde_yaml::Value);

/// Converts a `serde_yaml::Value`, one for one. A number becomes the text that
/// its `Display` impl writes, which is `.nan`, `.inf` or `-.inf` for one that is
/// not finite.
#[verifier::external_body]
fn yaml_of_value(value: serde_yaml::Value) -> Yaml {
    match value {
        serde_yaml::Value::Null => Yaml::Null,
        serde_yaml::Value::Bool(b) => Yaml::Bool(b),
        serde_yaml::Value::Number(n) => Yaml::Number(n.to_string()),
        serde_yaml::Value::String(s) => Yaml::Text(s),
        serde_yaml::Value::Sequence(v) => Yaml::List(v.into_iter().map(yaml_of_value).collect()),
        serde_yaml::Value::Mapping(m) => Yaml::Table(
            m.into_iter().map(|(k, v)| (yaml_of_value(k), yaml_of_value(v))).collect(),
        ),
        serde_yaml::Value::Tagged(t) => Yaml::Tagged(
            t.tag.to_string(),
            Box::new(yaml_of_value(t.value)),
        ),
    }
}

/// Calls `serde_yaml::from_slice` for a `serde_yaml::Value`: the value that the
/// bytes denote, or the text of the error, both functions of the bytes alone. A
/// mapping that holds a key twice is an error.
#[verifier::external_body]
pub(crate) fn read_yaml(bytes: &[u8]) -> (r: Result<Yaml, String>)
    ensures
        yaml_result(r) == yaml_of_bytes(bytes@),
{
    serde_yaml::from_slice(bytes).map(yaml_of_value).map_err(|e| e.to_string())
}

impl Yaml {
    /// Whether a JSON value can hold the same thing: every number is finite, and
    /// no key is reserved.
    pub fn fits_json(&self) -> (r: bool)
        ensures
            r == fits_json(self@),
        decreases self,
    {
        match self {
            Yaml::Number(t) => !(str_eq(t.as_str(), ".nan") || str_eq(t.as_str(), ".inf") || str_eq(
                t.as_str(),
                "-.inf",
            )),
            Yaml::List(v) => {
                let ghost all = self@->List_0;
                let mut i: usize = 0;
                while i < v.len()
                    invariant
                        self matches Yaml::List(w) && *v == w,
                        self@ is List && self@->List_0 == all,
                        all.len() == v@.len(),
                        i <= v@.len(),
                        forall|k: int| 0 <= k < v@.len() ==> #[trigger] all[k] == v@[k]@,
                        forall|k: int| 0 <= k < i ==> fits_json(#[trigger] all[k]),
                    decreases v@.len() - i,
                {
                    if !v[i].fits_json() {
                        assert(!fits_json(all[i as int]));
                        return false;
                    }
                    i += 1;
                }
                true
            },
            Yaml::Table(ms) => {
                let ghost all = self@->Table_0;
                let mut i: usize = 0;
                assert forall|k: int| 0 <= k < ms@.len() implies #[trigger] all[k] == (
                    ms@[k].0@,
                    ms@[k].1@,
                ) by {}
                while i < ms.len()
                    invariant
                        self matches Yaml::Table(w) && *ms == w,
                        self@ is Table && self@->Table_0 == all,
                        all.len() == ms@.len(),
                        i <= ms@.len(),
                        forall|k: int|
                            0 <= k < ms@.len() ==> #[trigger] all[k] == (ms@[k].0@, ms@[k].1@),
                        forall|k: int|
                            0 <= k < i ==> !is_reserved_key((#[trigger] all[k]).0) && fits_json(
                                all[k].0,
                            ) && fits_json(all[k].1),
                    decreases ms@.len() - i,
                {
                    let reserved: bool = match &ms[i].0 {
                        Yaml::Text(s) => strip_prefix(s.as_str(), RESERVED_PREFIX).is_some(),
                        _ => false,
                    };
                    assert(all[i as int] == (ms@[i as int].0@, ms@[i as int].1@));
                    assert(reserved == is_reserved_key(all[i as int].0));
                    if reserved || !ms[i].0.fits_json() || !ms[i].1.fits_json() {
                        return false;
                    }
                    i += 1;
                }
                true
            },
            Yaml::Tagged(_, inner) => inner.fits_json(),
            _ => true,
        }
    }
}

/// A number that is not finite, and a key that is reserved, keep a value from being
/// JSON wherever they stand in it; texts, finite numbers and what is made of them do
/// not.
pub proof fn what_json_cannot_hold(
    items: Seq<YamlView>,
    ms: Seq<(YamlView, YamlView)>,
    i: int,
    s: Seq<char>,
)
    ensures
        !fits_json(YamlView::Number(".nan"@)),
        !fits_json(YamlView::Number(".inf"@)),
        !fits_json(YamlView::Number("-.inf"@)),
        s.len() > 0 && s[0] != '.' && s[0] != '-' ==> fits_json(YamlView::Number(s)),
        fits_json(YamlView::Text(s)),
        0 <= i < items.len() && !fits_json(items[i]) ==> !fits_json(YamlView::List(items)),
        0 <= i < ms.len() && !fits_json(ms[i].1) ==> !fits_json(YamlView::Table(ms)),
        0 <= i < ms.len() && (ms[i].0 matches YamlView::Text(key) && key.len() >= 22 && key.take(22)
            == "$serde_json::private::"@) ==> !fits_json(YamlView::Table(ms)),
        (forall|k: int| 0 <= k < items.len() ==> fits_json(#[trigger] items[k])) ==> fits_json(
            YamlView::List(items),
        ),
{
    reveal_strlit(".nan");
    reveal_strlit(".inf");
    reveal_strlit("-.inf");
    reveal_strlit("$serde_json::private::");
    assert(".nan"@[0] == '.' && ".inf"@[0] == '.' && "-.inf"@[0] == '-');
    let list = YamlView::List(items);
    let table = YamlView::Table(ms);
    assert(list->List_0 == items);
    assert(table->Table_0 == ms);
    if fits_json(list) && 0 <= i < items.len() {
        assert(fits_json(list->List_0[i]));
    }
    if fits_json(table) && 0 <= i < ms.len() {
        assert(fits_json(table->Table_0[i].1));
        assert(!is_reserved_key(table->Table_0[i].0));
    }
}

} // verus!
