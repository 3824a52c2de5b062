//! Resolution of query keys against the catalog.
//!
//! A key matches an entry when the entry's identifier, written in decimal,
//! equals the key exactly as a string; when several entries match, the last
//! one in catalog order wins. An unmatched key resolves to nothing; the
//! "not found" sentinel text is substituted only at the rendering boundary.

use vstd::prelude::*;
use crate::catalog::CatalogEntry;
use crate::catalog::cat_view;
use crate::catalog::dec_str;
use crate::catalog::u64_to_string;

verus! {

/// The name resolved for `key`: the name of the last entry, in catalog
/// order, whose identifier written in decimal equals `key` exactly;
/// nothing when no entry matches.
pub open spec fn resolve_key(key: Seq<char>, cat: Seq<(u64, Seq<char>)>) -> Option<Seq<char>>
    decreases cat.len(),
{
    if cat.len() == 0 {
        None
    } else if dec_str(cat.last().0 as nat) == key {
        Some(cat.last().1)
    } else {
        resolve_key(key, cat.drop_last())
    }
}

/// Resolves one key by a full scan of the catalog, overwriting the running
/// result on every match, so that the last matching entry wins.
pub fn resolve_one(key: &String, cat: &Vec<CatalogEntry>) -> (r: Option<String>)
    ensures
        match r {
            Some(name) => resolve_key(key@, cat_view(cat@)) == Some(name@),
            None => resolve_key(key@, cat_view(cat@)) is None,
        },
{
    let ghost cv = cat_view(cat@);
    let mut found: Option<String> = None;
    let mut j: usize = 0;
    while j < cat.len()
        invariant
            j <= cat.len(),
            cv == cat_view(cat@),
            cv.len() == cat.len(),
            match found {
                Some(name) => resolve_key(key@, cv.take(j as int)) == Some(name@),
                None => resolve_key(key@, cv.take(j as int)) is None,
            },
        decreases cat.len() - j,
    {
        let s = u64_to_string(cat[j].id);
        if s == *key {
            found = Some(cat[j].name.clone());
        }
        proof {
            assert(cv.take(j + 1).drop_last() =~= cv.take(j as int));
            assert(cv.take(j + 1).last() == cv[j as int]);
            assert(cv[j as int] == cat@[j as int]@);
        }
        j += 1;
    }
    proof {
        assert(cv.take(cat.len() as int) =~= cv);
    }
    found
}

/// Resolves every key of a query list independently against the catalog.
pub fn resolve_ids(keys: &Vec<String>, cat: &Vec<CatalogEntry>) -> (r: Vec<Option<String>>)
    ensures
        r@.len() == keys@.len(),
        forall|i: int| 0 <= i < keys@.len() ==> match #[trigger] r@[i] {
            Some(name) => resolve_key(keys@[i]@, cat_view(cat@)) == Some(name@),
            None => resolve_key(keys@[i]@, cat_view(cat@)) is None,
        },
{
    let mut r: Vec<Option<String>> = Vec::new();
    let mut i: usize = 0;
    while i < keys.len()
        invariant
            i <= keys.len(),
            r@.len() == i,
            forall|k: int| 0 <= k < i ==> match #[trigger] r@[k] {
                Some(name) => resolve_key(keys@[k]@, cat_view(cat@)) == Some(name@),
                None => resolve_key(keys@[k]@, cat_view(cat@)) is None,
            },
        decreases keys.len() - i,
    {
        let one = resolve_one(&keys[i], cat);
        r.push(one);
        i += 1;
    }
    r
}

/// When some entry matches `key`, the resolved name is the name of the
/// last matching entry: later matches overwrite earlier ones.
pub proof fn lemma_last_write_wins(key: Seq<char>, cat: Seq<(u64, Seq<char>)>, j: int)
    requires
        0 <= j < cat.len(),
        dec_str(cat[j].0 as nat) == key,
        forall|k: int| j < k < cat.len() ==> dec_str(#[trigger] cat[k].0 as nat) != key,
    ensures
        resolve_key(key, cat) == Some(cat[j].1),
    decreases cat.len(),
{
    if j == cat.len() - 1 {
        assert(cat.last() == cat[j]);
    } else {
        assert(dec_str(cat.last().0 as nat) != key);
        lemma_last_write_wins(key, cat.drop_last(), j);
    }
}

/// When no entry's identifier written in decimal equals `key`, nothing is
/// resolved for it.
pub proof fn lemma_unmatched_key(key: Seq<char>, cat: Seq<(u64, Seq<char>)>)
    requires
        forall|k: int| 0 <= k < cat.len() ==> dec_str(#[trigger] cat[k].0 as nat) != key,
    ensures
        resolve_key(key, cat) is None,
    decreases cat.len(),
{
    if cat.len() > 0 {
        lemma_unmatched_key(key, cat.drop_last());
    }
}

/// The text of the "not found" sentinel.
pub open spec fn sentinel_view() -> Seq<char> {
    "\x1B[31mNot a valid Steam AppID*!\x1B[0m"@
}

/// The sentinel text shown for a key that no catalog entry matched.
pub fn sentinel_text() -> (r: String)
    ensures
        r@ == sentinel_view(),
{
    "\x1B[31mNot a valid Steam AppID*!\x1B[0m".to_owned()
}

/// The sentinel is a visible message, never the empty string.
pub proof fn lemma_sentinel_nonempty()
    ensures
        sentinel_view().len() > 0,
{
    reveal_strlit("\x1B[31mNot a valid Steam AppID*!\x1B[0m");
}

/// Pairs each key with its resolved name; a key that resolved to nothing
/// gets the sentinel text, never an empty value.
pub fn resolved_rows(keys: &Vec<String>, resolved: &Vec<Option<String>>) -> (r: Vec<(String, String)>)
    requires
        keys@.len() == resolved@.len(),
    ensures
        r@.len() == keys@.len(),
        forall|i: int| 0 <= i < keys@.len() ==> (#[trigger] r@[i]).0@ == keys@[i]@,
        forall|i: int| 0 <= i < keys@.len() ==> (#[trigger] r@[i]).1@ == (match resolved@[i] {
            Some(n) => n@,
            None => sentinel_view(),
        }),
{
    let mut r: Vec<(String, String)> = Vec::new();
    let mut i: usize = 0;
    while i < keys.len()
        invariant
            i <= keys.len(),
            keys@.len() == resolved@.len(),
            r@.len() == i,
            forall|k: int| 0 <= k < i ==> (#[trigger] r@[k]).0@ == keys@[k]@,
            forall|k: int| 0 <= k < i ==> (#[trigger] r@[k]).1@ == (match resolved@[k] {
                Some(n) => n@,
                None => sentinel_view(),
            }),
        decreases keys.len() - i,
    {
        let text = match &resolved[i] {
            Some(n) => n.clone(),
            None => sentinel_text(),
        };
        r.push((keys[i].clone(), text));
        i += 1;
    }
    r
}

/// The term occurs in `s` starting at position `i`.
pub open spec fn match_at(s: Seq<char>, t: Seq<char>, i: int) -> bool {
    0 <= i && i + t.len() <= s.len() && s.subrange(i, i + t.len() as int) == t
}

/// The term occurs somewhere in `s` as a contiguous subsequence.
pub open spec fn has_match(s: Seq<char>, t: Seq<char>) -> bool {
    exists|i: int| match_at(s, t, i)
}

/// Compares the term against the characters of `s` starting at `i`.
fn matches_at(s: &str, t: &str, i: usize, tlen: usize) -> (b: bool)
    requires
        tlen == t@.len(),
        i + tlen <= s@.len(),
        s@.len() <= usize::MAX,
    ensures
        b == match_at(s@, t@, i as int),
{
    let mut j: usize = 0;
    while j < tlen
        invariant
            j <= tlen,
            tlen == t@.len(),
            i + tlen <= s@.len(),
            s@.len() <= usize::MAX,
            forall|k: int| 0 <= k < j ==> s@[i + k] == t@[k],
        decreases tlen - j,
    {
        if s.get_char(i + j) != t.get_char(j) {
            proof {
                assert(s@.subrange(i as int, i + tlen as int)[j as int] != t@[j as int]);
            }
            return false;
        }
        j += 1;
    }
    proof {
        assert(s@.subrange(i as int, i + tlen as int) =~= t@);
    }
    true
}

/// Decides whether `s` contains the term `t` as a case-sensitive substring.
/// Character comparison is exact, so names differing only in letter case do
/// not match each other's terms.
pub fn contains_substr(s: &str, t: &str) -> (b: bool)
    ensures
        b == has_match(s@, t@),
{
    let slen = s.unicode_len();
    let tlen = t.unicode_len();
    if tlen > slen {
        proof {
            assert(forall|i: int| !match_at(s@, t@, i));
        }
        return false;
    }
    let limit = slen - tlen;
    let mut i: usize = 0;
    loop
        invariant
            slen == s@.len(),
            tlen == t@.len(),
            tlen <= slen,
            limit == slen - tlen,
            i <= limit,
            forall|k: int| 0 <= k < i ==> !match_at(s@, t@, k),
        decreases limit - i,
    {
        if matches_at(s, t, i, tlen) {
            proof {
                assert(match_at(s@, t@, i as int));
            }
            return true;
        }
        if i == limit {
            proof {
                assert(forall|k: int| !match_at(s@, t@, k));
            }
            return false;
        }
        i += 1;
    }
}

/// The style marker opening an emphasized stretch of text.
pub open spec fn style_open() -> Seq<char> {
    "\x1B[1m"@
}

/// The style marker closing an emphasized stretch of text.
pub open spec fn style_close() -> Seq<char> {
    "\x1B[0m"@
}

/// `s` with every occurrence of the term emphasized: occurrences are found
/// left to right without overlap, and each is wrapped in the style markers.
/// An empty term leaves `s` unchanged.
pub open spec fn highlight_spec(s: Seq<char>, t: Seq<char>) -> Seq<char>
    decreases s.len(),
{
    if t.len() == 0 || s.len() == 0 {
        s
    } else if match_at(s, t, 0) {
        style_open() + t + style_close() + highlight_spec(s.skip(t.len() as int), t)
    } else {
        seq![s[0]] + highlight_spec(s.skip(1), t)
    }
}

/// Builds a copy of `s` with every occurrence of the term wrapped in the
/// style markers.
pub fn highlight(s: &str, t: &str) -> (r: String)
    ensures
        r@ == highlight_spec(s@, t@),
{
    let slen = s.unicode_len();
    let tlen = t.unicode_len();
    if tlen == 0 {
        return s.to_owned();
    }
    let mut out = String::new();
    let mut i: usize = 0;
    proof {
        assert(s@.skip(0) =~= s@);
        assert(out@ + highlight_spec(s@.skip(0), t@) =~= highlight_spec(s@, t@));
    }
    while i < slen
        invariant
            i <= slen,
            slen == s@.len(),
            tlen == t@.len(),
            tlen > 0,
            highlight_spec(s@, t@) == out@ + highlight_spec(s@.skip(i as int), t@),
        decreases slen - i,
    {
        if tlen <= slen - i && matches_at(s, t, i, tlen) {
            out.append("\x1B[1m");
            out.append(t);
            out.append("\x1B[0m");
            proof {
                assert(s@.skip(i as int).subrange(0, tlen as int) =~= s@.subrange(
                    i as int,
                    i + tlen as int,
                ));
                assert(match_at(s@.skip(i as int), t@, 0));
                assert(s@.skip(i as int).skip(tlen as int) =~= s@.skip(i + tlen));
                assert(highlight_spec(s@, t@) =~= out@ + highlight_spec(s@.skip(i + tlen), t@));
            }
            i += tlen;
        } else {
            out.append(s.substring_char(i, i + 1));
            proof {
                if i + tlen <= slen {
                    assert(s@.skip(i as int).subrange(0, tlen as int) =~= s@.subrange(
                        i as int,
                        i + tlen as int,
                    ));
                }
                assert(!match_at(s@.skip(i as int), t@, 0));
                assert(s@.subrange(i as int, i + 1) =~= seq![s@.skip(i as int)[0]]);
                assert(s@.skip(i as int).skip(1) =~= s@.skip(i + 1));
                assert(highlight_spec(s@, t@) =~= out@ + highlight_spec(s@.skip(i + 1), t@));
            }
            i += 1;
        }
    }
    proof {
        assert(s@.skip(slen as int) =~= Seq::<char>::empty());
        assert(highlight_spec(s@, t@) =~= out@);
    }
    out
}

/// The search records produced by one catalog entry: one record per term
/// occurring in the entry's name, in term order, pairing the emphasized
/// name with the identifier in decimal.
pub open spec fn entry_results(e: (u64, Seq<char>), terms: Seq<Seq<char>>) -> Seq<
    (Seq<char>, Seq<char>),
>
    decreases terms.len(),
{
    if terms.len() == 0 {
        Seq::empty()
    } else {
        entry_results(e, terms.drop_last()) + (if has_match(e.1, terms.last()) {
            seq![(highlight_spec(e.1, terms.last()), dec_str(e.0 as nat))]
        } else {
            Seq::empty()
        })
    }
}

/// The full search output: records grouped by catalog order (outer), with
/// terms scanned in input order within each entry (inner); matches repeated
/// across terms are not deduplicated.
pub open spec fn search_results(cat: Seq<(u64, Seq<char>)>, terms: Seq<Seq<char>>) -> Seq<
    (Seq<char>, Seq<char>),
>
    decreases cat.len(),
{
    if cat.len() == 0 {
        Seq::empty()
    } else {
        search_results(cat.drop_last(), terms) + entry_results(cat.last(), terms)
    }
}

/// The view of one output record.
pub open spec fn row_view(p: (String, String)) -> (Seq<char>, Seq<char>) {
    (p.0@, p.1@)
}

/// The view of a list of output records.
pub open spec fn rows_view(rows: Seq<(String, String)>) -> Seq<(Seq<char>, Seq<char>)> {
    rows.map_values(|p: (String, String)| row_view(p))
}

/// The view of a list of strings.
pub open spec fn strs_view(ts: Seq<String>) -> Seq<Seq<char>> {
    ts.map_values(|t: String| t@)
}

/// Scans the whole catalog for names containing any search term; every
/// occurrence yields one record with the name emphasized and the identifier
/// in decimal.
pub fn search_catalog(terms: &Vec<String>, cat: &Vec<CatalogEntry>) -> (r: Vec<(String, String)>)
    ensures
        rows_view(r@) == search_results(cat_view(cat@), strs_view(terms@)),
{
    let ghost cv = cat_view(cat@);
    let ghost tv = strs_view(terms@);
    let mut r: Vec<(String, String)> = Vec::new();
    let mut i: usize = 0;
    while i < cat.len()
        invariant
            i <= cat.len(),
            cv == cat_view(cat@),
            tv == strs_view(terms@),
            cv.len() == cat.len(),
            tv.len() == terms.len(),
            rows_view(r@) == search_results(cv.take(i as int), tv),
        decreases cat.len() - i,
    {
        let ghost e = cv[i as int];
        let mut j: usize = 0;
        while j < terms.len()
            invariant
                j <= terms.len(),
                i < cat.len(),
                cv == cat_view(cat@),
                tv == strs_view(terms@),
                cv.len() == cat.len(),
                tv.len() == terms.len(),
                e == cv[i as int],
                rows_view(r@) == search_results(cv.take(i as int), tv) + entry_results(
                    e,
                    tv.take(j as int),
                ),
            decreases terms.len() - j,
        {
            let hit = contains_substr(cat[i].name.as_str(), terms[j].as_str());
            proof {
                assert(e.1 == cat@[i as int].name@);
                assert(e.0 == cat@[i as int].id);
                assert(tv[j as int] == terms@[j as int]@);
                assert(hit == has_match(e.1, tv[j as int]));
            }
            if hit {
                let row = (highlight(cat[i].name.as_str(), terms[j].as_str()), u64_to_string(
                    cat[i].id,
                ));
                proof {
                    assert(row_view(row) == (highlight_spec(e.1, tv[j as int]), dec_str(
                        e.0 as nat,
                    )));
                }
                r.push(row);
            }
            proof {
                let add: Seq<(Seq<char>, Seq<char>)> = if has_match(e.1, tv[j as int]) {
                    seq![(highlight_spec(e.1, tv[j as int]), dec_str(e.0 as nat))]
                } else {
                    Seq::empty()
                };
                assert(rows_view(r@) =~= (search_results(cv.take(i as int), tv) + entry_results(
                    e,
                    tv.take(j as int),
                )) + add);
                assert(tv.take(j + 1).drop_last() =~= tv.take(j as int));
                assert(tv.take(j + 1).last() == tv[j as int]);
                assert(entry_results(e, tv.take(j + 1)) == entry_results(e, tv.take(j as int))
                    + add);
                assert(rows_view(r@) =~= search_results(cv.take(i as int), tv) + entry_results(
                    e,
                    tv.take(j + 1),
                ));
            }
            j += 1;
        }
        proof {
            assert(tv.take(terms.len() as int) =~= tv);
            assert(cv.take(i + 1).drop_last() =~= cv.take(i as int));
            assert(cv.take(i + 1).last() == cv[i as int]);
            assert(rows_view(r@) =~= search_results(cv.take(i + 1), tv));
        }
        i += 1;
    }
    proof {
        assert(cv.take(cat.len() as int) =~= cv);
    }
    r
}

} // verus!
