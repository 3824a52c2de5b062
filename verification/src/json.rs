//! Decoding of the raw catalog text.
//!
//! The text is one JSON document whose expected shape is an object with key
//! "applist" holding an object with key "apps" holding an array of objects,
//! each with an integer "appid" and a string "name". Any structural
//! deviation is an error for the whole document, not a per-entry skip.
//!
//! serde_json does the JSON parsing; its document values are opaque here,
//! so their contents are modeled by [`JVal`], and the few accessors the
//! decoding calls are trusted to agree with that model.

use vstd::prelude::*;
use crate::catalog::CatalogEntry;
use crate::catalog::cat_view;

verus! {

#[verifier::external_type_specification]
#[verifier::external_body]
pub struct ExValue(serde_json::Value);

#[verifier::external_type_specification]
#[verifier::external_body]
pub struct ExJsonError(serde_json::Error);

/// The model of one JSON value, holding only what the decoding reads:
/// objects, arrays, strings, and numbers representable as `u64`. Every
/// other value (null, booleans, other numbers) is `Other`.
pub enum JVal {
    /// A number representable as an unsigned 64-bit integer.
    IntNum(u64),
    /// A string.
    Str(Seq<char>),
    /// An array, in document order.
    Arr(Seq<JVal>),
    /// An object, keyed by its member names.
    Obj(Map<Seq<char>, JVal>),
    /// Any other JSON value.
    Other,
}

/// What a serde_json document value holds, as a [`JVal`].
pub uninterp spec fn jval_of(v: serde_json::Value) -> JVal;

/// What serde_json::from_str returns for the text: the document's model
/// when the text is valid JSON, nothing otherwise. The result depends on
/// the characters alone.
pub uninterp spec fn json_of(s: Seq<char>) -> Option<JVal>;

/// Relies on serde_json::from_str: parses the text as one JSON document;
/// an error is returned exactly when the text is not valid JSON.
#[verifier::external_body]
fn parse_json(s: &str) -> (r: Result<serde_json::Value, serde_json::Error>)
    ensures
        match r {
            Ok(v) => json_of(s@) == Some(jval_of(v)),
            Err(_) => json_of(s@) is None,
        },
{
    serde_json::from_str(s)
}

/// Relies on serde_json::Value::get with a string index: on an object it
/// looks the key up; on a missing key or any other kind of value it
/// returns nothing.
#[verifier::external_body]
fn json_get<'a>(v: &'a serde_json::Value, key: &str) -> (r: Option<&'a serde_json::Value>)
    ensures
        match jval_of(*v) {
            JVal::Obj(m) => {
                if m.contains_key(key@) {
                    r matches Some(w) && jval_of(*w) == m[key@]
                } else {
                    r is None
                }
            },
            _ => r is None,
        },
{
    v.get(key)
}

/// Relies on serde_json::Value::as_array: returns the element vector of an
/// array, nothing for any other kind of value.
#[verifier::external_body]
fn json_as_array(v: &serde_json::Value) -> (r: Option<&Vec<serde_json::Value>>)
    ensures
        match jval_of(*v) {
            JVal::Arr(elems) => r matches Some(a) && a@.len() == elems.len() && (forall|i: int|
                0 <= i < elems.len() ==> #[trigger] jval_of(a@[i]) == elems[i]),
            _ => r is None,
        },
{
    v.as_array()
}

/// Relies on serde_json::Value::as_u64: returns the number when the value
/// is an integer between zero and u64::MAX, nothing otherwise.
#[verifier::external_body]
fn json_as_u64(v: &serde_json::Value) -> (r: Option<u64>)
    ensures
        match jval_of(*v) {
            JVal::IntNum(n) => r == Some(n),
            _ => r is None,
        },
{
    v.as_u64()
}

/// Relies on serde_json::Value::as_str: returns the text of a string
/// value, nothing for any other kind of value.
#[verifier::external_body]
fn json_as_str<'a>(v: &'a serde_json::Value) -> (r: Option<&'a str>)
    ensures
        match jval_of(*v) {
            JVal::Str(t) => r matches Some(s) && s@ == t,
            _ => r is None,
        },
{
    v.as_str()
}

/// The catalog entry one array element encodes: present exactly when the
/// element is an object whose "appid" is an integer fitting `u64` and
/// whose "name" is a string.
pub open spec fn entry_of(j: JVal) -> Option<(u64, Seq<char>)> {
    match j {
        JVal::Obj(m) => if m.contains_key("appid"@) && m.contains_key("name"@) {
            match (m["appid"@], m["name"@]) {
                (JVal::IntNum(n), JVal::Str(s)) => Some((n, s)),
                _ => None,
            }
        } else {
            None
        },
        _ => None,
    }
}

/// The catalog the array elements encode, in document order: present
/// exactly when every element encodes an entry.
pub open spec fn entries_of(elems: Seq<JVal>) -> Option<Seq<(u64, Seq<char>)>>
    decreases elems.len(),
{
    if elems.len() == 0 {
        Some(Seq::empty())
    } else {
        match (entries_of(elems.drop_last()), entry_of(elems.last())) {
            (Some(s), Some(e)) => Some(s.push(e)),
            _ => None,
        }
    }
}

/// The catalog a document encodes: present exactly when the document has
/// the applist/apps shape and every array element encodes an entry.
pub open spec fn catalog_of_doc(j: JVal) -> Option<Seq<(u64, Seq<char>)>> {
    match j {
        JVal::Obj(m) => if m.contains_key("applist"@) {
            match m["applist"@] {
                JVal::Obj(m2) => if m2.contains_key("apps"@) {
                    match m2["apps"@] {
                        JVal::Arr(elems) => entries_of(elems),
                        _ => None,
                    }
                } else {
                    None
                },
                _ => None,
            }
        } else {
            None
        },
        _ => None,
    }
}

/// The catalog the text encodes: present exactly when the text is valid
/// JSON and its document has the expected shape.
pub open spec fn parsed_catalog(s: Seq<char>) -> Option<Seq<(u64, Seq<char>)>> {
    match json_of(s) {
        Some(j) => catalog_of_doc(j),
        None => None,
    }
}

/// Why decoding the catalog text failed.
#[derive(Debug, PartialEq, Eq)]
pub enum ParseError {
    /// The text is not valid JSON.
    Syntax,
    /// The document is valid JSON without the expected applist/apps shape.
    Schema,
}

impl ParseError {
    /// The diagnostic text for this error.
    pub fn message(&self) -> (r: String)
        ensures
            self is Syntax ==> r@ == "unable to parse the app list json"@,
            self is Schema ==> r@ == "the app list json does not have the expected shape"@,
    {
        match self {
            ParseError::Syntax => "unable to parse the app list json".to_owned(),
            ParseError::Schema => "the app list json does not have the expected shape".to_owned(),
        }
    }
}

/// When one array element encodes no entry, the whole array encodes no
/// catalog.
proof fn lemma_entries_of_none(elems: Seq<JVal>, i: int)
    requires
        0 <= i < elems.len(),
        entry_of(elems[i]) is None,
    ensures
        entries_of(elems) is None,
    decreases elems.len(),
{
    if i < elems.len() - 1 {
        lemma_entries_of_none(elems.drop_last(), i);
    }
}

/// Decodes the raw catalog text. Succeeds exactly when the text is valid
/// JSON of the expected shape, returning every encoded entry in document
/// order; otherwise reports whether the JSON itself or its shape is at
/// fault.
pub fn parse_catalog(s: &str) -> (r: Result<Vec<CatalogEntry>, ParseError>)
    ensures
        match r {
            Ok(c) => parsed_catalog(s@) == Some(cat_view(c@)),
            Err(e) => match e {
                ParseError::Syntax => json_of(s@) is None,
                ParseError::Schema => json_of(s@) matches Some(j) && catalog_of_doc(j) is None,
            },
        },
{
    let doc = match parse_json(s) {
        Ok(v) => v,
        Err(_) => {
            return Err(ParseError::Syntax);
        },
    };
    let applist = match json_get(&doc, "applist") {
        Some(v) => v,
        None => {
            return Err(ParseError::Schema);
        },
    };
    let apps = match json_get(applist, "apps") {
        Some(v) => v,
        None => {
            return Err(ParseError::Schema);
        },
    };
    let arr = match json_as_array(apps) {
        Some(a) => a,
        None => {
            return Err(ParseError::Schema);
        },
    };
    let ghost elems = jval_of(*apps)->Arr_0;
    proof {
        assert(catalog_of_doc(jval_of(doc)) == entries_of(elems));
    }
    let mut out: Vec<CatalogEntry> = Vec::new();
    let mut i: usize = 0;
    proof {
        assert(elems.take(0) =~= Seq::<JVal>::empty());
        assert(cat_view(out@) =~= Seq::<(u64, Seq<char>)>::empty());
    }
    while i < arr.len()
        invariant
            i <= arr.len(),
            json_of(s@) == Some(jval_of(doc)),
            catalog_of_doc(jval_of(doc)) == entries_of(elems),
            arr@.len() == elems.len(),
            forall|k: int| 0 <= k < elems.len() ==> #[trigger] jval_of(arr@[k]) == elems[k],
            out@.len() == i,
            entries_of(elems.take(i as int)) == Some(cat_view(out@)),
        decreases arr.len() - i,
    {
        let elem = &arr[i];
        let id = match json_get(elem, "appid") {
            Some(x) => match json_as_u64(x) {
                Some(n) => n,
                None => {
                    proof {
                        lemma_entries_of_none(elems, i as int);
                    }
                    return Err(ParseError::Schema);
                },
            },
            None => {
                proof {
                    lemma_entries_of_none(elems, i as int);
                }
                return Err(ParseError::Schema);
            },
        };
        let name = match json_get(elem, "name") {
            Some(x) => match json_as_str(x) {
                Some(t) => t.to_owned(),
                None => {
                    proof {
                        lemma_entries_of_none(elems, i as int);
                    }
                    return Err(ParseError::Schema);
                },
            },
            None => {
                proof {
                    lemma_entries_of_none(elems, i as int);
                }
                return Err(ParseError::Schema);
            },
        };
        proof {
            assert(entry_of(elems[i as int]) == Some((id, name@)));
        }
        let ghost prev = out@;
        out.push(CatalogEntry { id, name });
        proof {
            assert(elems.take(i + 1).drop_last() =~= elems.take(i as int));
            assert(elems.take(i + 1).last() == elems[i as int]);
            assert(cat_view(out@) =~= cat_view(prev).push((id, name@)));
        }
        i += 1;
    }
    proof {
        assert(elems.take(arr.len() as int) =~= elems);
    }
    Ok(out)
}

} // verus!
