//! Selection of instruments by attribute predicates taken from the configuration.
use vstd::prelude::*;

use crate::float_bits::{float_eq, float_eq_bits};
use crate::text::same_text;

verus! {

/// A JSON number as the exchange metadata holds it.
#[derive(Clone, Copy, Debug)]
pub enum JsonNumber {
    /// A non-negative integer.
    PosInt(u64),
    /// A negative integer.
    NegInt(i64),
    /// A finite binary64 value, as its bit pattern.
    Float(u64),
}

/// One attribute value of an instrument.
#[derive(Debug)]
pub enum AttrValue {
    Null,
    Bool(bool),
    Number(JsonNumber),
    Text(String),
    List(Vec<AttrValue>),
    /// A nested object, as the JSON text that serde_json renders for it. Renderings list
    /// keys in sorted order, so two objects render alike exactly when they hold equal
    /// values, but for float zeros of opposite sign, which render apart.
    Object(String),
}

/// An instrument: its attributes in the order the exchange lists them.
#[derive(Debug)]
pub struct Instrument {
    pub attributes: Vec<(String, AttrValue)>,
}

/// The number that serde_json reads from the text `s`, if it reads one.
pub uninterp spec fn json_number_of(s: Seq<char>) -> Option<JsonNumber>;

/// The rendering by serde_json of the JSON value that it reads from `s`, if it reads one.
pub uninterp spec fn json_text_of(s: Seq<char>) -> Option<Seq<char>>;

/// Relies on `serde_json::Number`'s `FromStr`, and on its accessors to tell the three
/// kinds of number apart: the result depends on the text alone.
#[verifier::external_body]
fn parse_json_number(s: &str) -> (r: Option<JsonNumber>)
    ensures
        r == json_number_of(s@),
{
    match s.parse::<serde_json::Number>() {
        Ok(n) => match (n.as_u64(), n.as_i64(), n.as_f64()) {
            (Some(u), _, _) => Some(JsonNumber::PosInt(u)),
            (None, Some(i), _) => Some(JsonNumber::NegInt(i)),
            (None, None, Some(x)) => Some(JsonNumber::Float(x.to_bits())),
            (None, None, None) => None,
        },
        Err(_) => None,
    }
}

/// Relies on `serde_json::from_str` into a `serde_json::Value`, rendered back to text by
/// its `Display`: the result depends on the text alone.
#[verifier::external_body]
fn render_json_literal(s: &str) -> (r: Option<String>)
    ensures
        match r {
            Some(t) => json_text_of(s@) == Some(t@),
            None => json_text_of(s@) is None,
        },
{
    match serde_json::from_str::<serde_json::Value>(s) {
        Ok(v) => Some(v.to_string()),
        Err(_) => None,
    }
}

/// How `str::parse::<bool>` reads a literal.
pub open spec fn bool_literal_of(s: Seq<char>) -> Option<bool> {
    if s == "true"@ {
        Some(true)
    } else if s == "false"@ {
        Some(false)
    } else {
        None
    }
}

/// Equality of two JSON numbers: same kind, and equal values.
pub open spec fn number_eq(a: JsonNumber, b: JsonNumber) -> bool {
    match (a, b) {
        (JsonNumber::PosInt(x), JsonNumber::PosInt(y)) => x == y,
        (JsonNumber::NegInt(x), JsonNumber::NegInt(y)) => x == y,
        (JsonNumber::Float(x), JsonNumber::Float(y)) => float_eq_bits(x, y),
        _ => false,
    }
}

/// The list holds the string `lit` among its elements.
pub open spec fn list_holds_text(items: Seq<AttrValue>, lit: Seq<char>) -> bool {
    exists|i: int| 0 <= i < items.len() && (#[trigger] items[i] matches AttrValue::Text(s) && s@ == lit)
}

/// The type-aware rule by which one attribute value satisfies one required literal.
pub open spec fn value_matches(v: AttrValue, lit: Seq<char>) -> bool {
    match v {
        AttrValue::Text(s) => s@ == lit,
        AttrValue::List(items) => list_holds_text(items@, lit),
        AttrValue::Number(n) => match json_number_of(lit) {
            Some(m) => number_eq(n, m),
            None => false,
        },
        AttrValue::Bool(b) => bool_literal_of(lit) == Some(b),
        AttrValue::Null => lit == "null"@,
        AttrValue::Object(t) => json_text_of(lit) == Some(t@),
    }
}

/// The value of the first attribute named `key`.
pub open spec fn lookup(attrs: Seq<(String, AttrValue)>, key: Seq<char>) -> Option<AttrValue>
    decreases attrs.len(),
{
    if attrs.len() == 0 {
        None
    } else if attrs[0].0@ == key {
        Some(attrs[0].1)
    } else {
        lookup(attrs.drop_first(), key)
    }
}

/// The instrument satisfies one predicate: the attribute exists and matches the literal.
pub open spec fn satisfies(attrs: Seq<(String, AttrValue)>, key: Seq<char>, lit: Seq<char>) -> bool {
    match lookup(attrs, key) {
        Some(v) => value_matches(v, lit),
        None => false,
    }
}

/// The instrument satisfies every predicate.
pub open spec fn matches_all(attrs: Seq<(String, AttrValue)>, filters: Seq<(String, String)>) -> bool {
    forall|i: int| 0 <= i < filters.len() ==> #[trigger] satisfies(attrs, filters[i].0@, filters[i].1@)
}

/// The attributes without any entry named `key`.
pub open spec fn without_key(attrs: Seq<(String, AttrValue)>, key: Seq<char>) -> Seq<(String, AttrValue)> {
    attrs.filter(named_otherwise(key))
}

/// The entry is named other than `key`.
pub open spec fn named_otherwise(key: Seq<char>) -> spec_fn((String, AttrValue)) -> bool {
    |e: (String, AttrValue)| e.0@ != key
}

proof fn lemma_lookup_absent(attrs: Seq<(String, AttrValue)>, key: Seq<char>)
    requires
        forall|j: int| 0 <= j < attrs.len() ==> (#[trigger] attrs[j]).0@ != key,
    ensures
        lookup(attrs, key) is None,
    decreases attrs.len(),
{
    if attrs.len() > 0 {
        assert(attrs[0].0@ != key);
        assert forall|j: int| 0 <= j < attrs.drop_first().len() implies (#[trigger] attrs.drop_first()[j]).0@ != key by {
            assert(attrs.drop_first()[j] == attrs[j + 1]);
        }
        lemma_lookup_absent(attrs.drop_first(), key);
    }
}

/// Taking away an attribute that a predicate names makes the instrument fail the
/// predicates, whatever else it holds.
pub proof fn lemma_removed_key_fails(attrs: Seq<(String, AttrValue)>, filters: Seq<(String, String)>, i: int)
    requires
        0 <= i < filters.len(),
    ensures
        !matches_all(without_key(attrs, filters[i].0@), filters),
{
    let key = filters[i].0@;
    let rest = without_key(attrs, key);
    assert forall|j: int| 0 <= j < rest.len() implies (#[trigger] rest[j]).0@ != key by {
        attrs.lemma_filter_pred(named_otherwise(key), j);
    }
    lemma_lookup_absent(rest, key);
    assert(!satisfies(rest, filters[i].0@, filters[i].1@));
}

/// How `str::parse::<bool>` reads a literal.
pub fn parse_bool_literal(s: &str) -> (r: Option<bool>)
    ensures
        r == bool_literal_of(s@),
{
    if same_text(s, "true") {
        Some(true)
    } else if same_text(s, "false") {
        Some(false)
    } else {
        None
    }
}

/// Equality of two JSON numbers.
pub fn numbers_equal(a: JsonNumber, b: JsonNumber) -> (r: bool)
    ensures
        r == number_eq(a, b),
{
    match (a, b) {
        (JsonNumber::PosInt(x), JsonNumber::PosInt(y)) => x == y,
        (JsonNumber::NegInt(x), JsonNumber::NegInt(y)) => x == y,
        (JsonNumber::Float(x), JsonNumber::Float(y)) => float_eq(x, y),
        _ => false,
    }
}

/// Whether the value satisfies the literal `lit` by the type-aware rule.
pub fn value_satisfies(v: &AttrValue, lit: &str) -> (r: bool)
    ensures
        r == value_matches(*v, lit@),
{
    match v {
        AttrValue::Text(s) => same_text(s.as_str(), lit),
        AttrValue::List(items) => {
            let mut i: usize = 0;
            while i < items.len()
                invariant
                    *v == AttrValue::List(*items),
                    i <= items@.len(),
                    forall|j: int| 0 <= j < i ==> !(#[trigger] items@[j] matches AttrValue::Text(s) && s@ == lit@),
                decreases items.len() - i,
            {
                if let AttrValue::Text(s) = &items[i] {
                    if same_text(s.as_str(), lit) {
                        assert(items@[i as int] matches AttrValue::Text(s) && s@ == lit@);
                        assert(list_holds_text(items@, lit@));
                        return true;
                    }
                }
                i = i + 1;
            }
            false
        },
        AttrValue::Number(n) => match parse_json_number(lit) {
            Some(m) => numbers_equal(*n, m),
            None => false,
        },
        AttrValue::Bool(b) => match parse_bool_literal(lit) {
            Some(c) => *b == c,
            None => false,
        },
        AttrValue::Null => same_text(lit, "null"),
        AttrValue::Object(t) => match render_json_literal(lit) {
            Some(u) => same_text(u.as_str(), t.as_str()),
            None => false,
        },
    }
}

impl Instrument {
    /// The value of the first attribute named `key`.
    pub fn get(&self, key: &str) -> (r: Option<&AttrValue>)
        ensures
            match r {
                Some(v) => lookup(self.attributes@, key@) == Some(*v),
                None => lookup(self.attributes@, key@) is None,
            },
    {
        let attrs = &self.attributes;
        let mut i: usize = 0;
        assert(attrs@.subrange(0, attrs@.len() as int) =~= attrs@);
        while i < attrs.len()
            invariant
                attrs@ == self.attributes@,
                i <= attrs@.len(),
                lookup(attrs@, key@) == lookup(attrs@.subrange(i as int, attrs@.len() as int), key@),
            decreases attrs.len() - i,
        {
            assert(attrs@.subrange(i as int, attrs@.len() as int)[0] == attrs@[i as int]);
            assert(attrs@.subrange(i as int, attrs@.len() as int).drop_first()
                =~= attrs@.subrange(i + 1, attrs@.len() as int));
            if same_text(attrs[i].0.as_str(), key) {
                assert(lookup(attrs@.subrange(i as int, attrs@.len() as int), key@) == Some(attrs@[i as int].1));
                return Some(&attrs[i].1);
            }
            i = i + 1;
        }
        None
    }
}

/// Whether the instrument satisfies every predicate of `filters`, each a required
/// literal for the attribute it names. A missing attribute fails its predicate.
pub fn matches_filters(symbol: &Instrument, filters: &Vec<(String, String)>) -> (r: bool)
    ensures
        r == matches_all(symbol.attributes@, filters@),
{
    let mut i: usize = 0;
    while i < filters.len()
        invariant
            i <= filters@.len(),
            forall|j: int| 0 <= j < i ==> #[trigger] satisfies(symbol.attributes@, filters@[j].0@, filters@[j].1@),
        decreases filters.len() - i,
    {
        let (key, required) = &filters[i];
        match symbol.get(key.as_str()) {
            Some(v) => {
                if !value_satisfies(v, required.as_str()) {
                    assert(!satisfies(symbol.attributes@, filters@[i as int].0@, filters@[i as int].1@));
                    return false;
                }
            },
            None => {
                assert(!satisfies(symbol.attributes@, filters@[i as int].0@, filters@[i as int].1@));
                return false;
            },
        }
        i = i + 1;
    }
    true
}

/// The instrument passes the predicates.
pub open spec fn passes(filters: Seq<(String, String)>) -> spec_fn(Instrument) -> bool {
    |inst: Instrument| matches_all(inst.attributes@, filters)
}

/// The instruments that satisfy every predicate, in the order given.
pub fn select_matching(instruments: Vec<Instrument>, filters: &Vec<(String, String)>) -> (r: Vec<Instrument>)
    ensures
        r@ == instruments@.filter(passes(filters@)),
{
    let ghost all = instruments@;
    let mut rest = instruments;
    let mut kept: Vec<Instrument> = Vec::new();
    let mut k: usize = 0;
    let n = rest.len();
    assert(all.subrange(0, 0).filter(passes(filters@)) =~= Seq::<Instrument>::empty()) by {
        reveal(Seq::filter);
    }
    assert(all.subrange(0, all.len() as int) =~= all);
    while rest.len() > 0
        invariant
            n == all.len(),
            k <= n,
            rest@ == all.subrange(k as int, n as int),
            kept@ == all.subrange(0, k as int).filter(passes(filters@)),
        decreases rest.len(),
    {
        let inst = rest.remove(0);
        assert(inst == all[k as int]);
        let ok = matches_filters(&inst, filters);
        proof {
            let prefix = all.subrange(0, k + 1);
            assert(prefix.drop_last() =~= all.subrange(0, k as int));
            assert(prefix.last() == inst);
            reveal(Seq::filter);
        }
        if ok {
            kept.push(inst);
        }
        k = k + 1;
        assert(rest@ =~= all.subrange(k as int, n as int));
    }
    assert(all.subrange(0, k as int) =~= all);
    kept
}

/// The string elements of a list, in order.
pub open spec fn texts_in(items: Seq<AttrValue>) -> Seq<Seq<char>>
    decreases items.len(),
{
    if items.len() == 0 {
        Seq::empty()
    } else {
        let rest = texts_in(items.drop_last());
        match items.last() {
            AttrValue::Text(s) => rest.push(s@),
            _ => rest,
        }
    }
}

/// The instrument's symbol: its `symbol` attribute, when that is a string.
pub open spec fn symbol_spec(attrs: Seq<(String, AttrValue)>) -> Option<Seq<char>> {
    match lookup(attrs, "symbol"@) {
        Some(AttrValue::Text(s)) => Some(s@),
        _ => None,
    }
}

/// The instrument's subtype tags: the strings of its `underlyingSubType` list, if any.
pub open spec fn sub_types_spec(attrs: Seq<(String, AttrValue)>) -> Seq<Seq<char>> {
    match lookup(attrs, "underlyingSubType"@) {
        Some(AttrValue::List(items)) => texts_in(items@),
        _ => Seq::empty(),
    }
}

/// The views of a list of strings.
pub open spec fn views_of(v: Seq<String>) -> Seq<Seq<char>> {
    v.map_values(|s: String| s@)
}

impl Instrument {
    /// The symbol that names the instrument in candle requests, when it has one.
    pub fn symbol(&self) -> (r: Option<String>)
        ensures
            match r {
                Some(s) => symbol_spec(self.attributes@) == Some(s@),
                None => symbol_spec(self.attributes@) is None,
            },
    {
        match self.get("symbol") {
            Some(AttrValue::Text(s)) => Some(s.clone()),
            _ => None,
        }
    }

    /// The subtype tags of the instrument; empty when it has none.
    pub fn sub_types(&self) -> (r: Vec<String>)
        ensures
            views_of(r@) == sub_types_spec(self.attributes@),
    {
        let mut r: Vec<String> = Vec::new();
        if let Some(AttrValue::List(items)) = self.get("underlyingSubType") {
            let mut i: usize = 0;
            assert(views_of(r@) =~= texts_in(items@.subrange(0, 0)));
            while i < items.len()
                invariant
                    i <= items@.len(),
                    views_of(r@) == texts_in(items@.subrange(0, i as int)),
                decreases items.len() - i,
            {
                let ghost before = r@;
                proof {
                    let prefix = items@.subrange(0, i + 1);
                    assert(prefix.drop_last() =~= items@.subrange(0, i as int));
                    assert(prefix.last() == items@[i as int]);
                }
                if let AttrValue::Text(s) = &items[i] {
                    r.push(s.clone());
                    assert(views_of(r@) =~= views_of(before).push(s@));
                }
                i = i + 1;
            }
            assert(items@.subrange(0, items@.len() as int) =~= items@);
        }
        r
    }
}

} // verus!
