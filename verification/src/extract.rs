//! The service extractor: one record per service that declares an image.

use vstd::prelude::*;

use crate::document::{dict_get, dict_lookup, str_of_key, untag, Yaml};
use crate::errors::{error_view, ErrKind, ScanError, SchemaIssue};
use crate::loader::{load_document, yaml_doc};

verus! {

/// One named service, reduced to its image reference and the path of the
/// manifest that declared it.
#[derive(Debug, Clone)]
pub struct ServiceEntry {
    pub path: String,
    pub service: String,
    pub image: String,
}

/// The image reference a service value declares, if any: the value must be
/// a mapping whose `image` key holds a string.
pub open spec fn image_of(v: Yaml) -> Option<Seq<char>> {
    match untag(v) {
        Yaml::Dict(m) => match dict_get(m@, "image"@) {
            Some(w) => match untag(w) {
                Yaml::Str(s) => Some(s@),
                _ => None,
            },
            None => None,
        },
        _ => None,
    }
}

/// The pairs of the top-level `services` mapping, if the document has one.
pub open spec fn services_of(doc: Yaml) -> Option<Seq<(Yaml, Yaml)>> {
    match untag(doc) {
        Yaml::Dict(m) => match dict_get(m@, "services"@) {
            Some(v) => match untag(v) {
                Yaml::Dict(sv) => Some(sv@),
                _ => None,
            },
            None => None,
        },
        _ => None,
    }
}

/// A services pair that yields an entry: a string-formed key, and a value
/// declaring an image.
pub open spec fn qualifying_pair(p: (Yaml, Yaml)) -> bool {
    str_of_key(p.0) is Some && image_of(p.1) is Some
}

/// The entry a qualifying pair yields, as (path, service, image).
pub open spec fn entry_triple(path: Seq<char>, p: (Yaml, Yaml)) -> (Seq<char>, Seq<char>, Seq<char>)
    recommends
        qualifying_pair(p),
{
    (path, str_of_key(p.0)->Some_0, image_of(p.1)->Some_0)
}

/// What extracting the first `n` services pairs yields: their entries in
/// document order, or an error if any key among them has no string form.
pub open spec fn extract_prefix(path: Seq<char>, pairs: Seq<(Yaml, Yaml)>, n: int) -> Result<
    Seq<(Seq<char>, Seq<char>, Seq<char>)>,
    (),
>
    decreases n,
{
    if n <= 0 {
        Ok(Seq::empty())
    } else {
        match extract_prefix(path, pairs, n - 1) {
            Err(u) => Err(u),
            Ok(acc) => {
                let p = pairs[n - 1];
                match str_of_key(p.0) {
                    None => Err(()),
                    Some(name) => match image_of(p.1) {
                        Some(img) => Ok(acc.push((path, name, img))),
                        None => Ok(acc),
                    },
                }
            },
        }
    }
}

/// What extraction yields for a whole document.
pub open spec fn extract_spec(doc: Yaml, path: Seq<char>) -> Result<
    Seq<(Seq<char>, Seq<char>, Seq<char>)>,
    SchemaIssue,
> {
    match services_of(doc) {
        None => Err(SchemaIssue::MissingServices),
        Some(pairs) => match extract_prefix(path, pairs, pairs.len() as int) {
            Ok(entries) => Ok(entries),
            Err(_) => Err(SchemaIssue::NonStringName),
        },
    }
}

/// `entries` holds exactly the (path, service, image) triples of
/// `spec_entries`, in order.
pub open spec fn entries_match(
    entries: Seq<ServiceEntry>,
    spec_entries: Seq<(Seq<char>, Seq<char>, Seq<char>)>,
) -> bool {
    &&& entries.len() == spec_entries.len()
    &&& forall|i: int|
        0 <= i < entries.len() ==> {
            &&& (#[trigger] entries[i]).path@ == spec_entries[i].0
            &&& entries[i].service@ == spec_entries[i].1
            &&& entries[i].image@ == spec_entries[i].2
        }
}

/// An extraction error for a later prefix stays an error.
proof fn lemma_extract_prefix_err(path: Seq<char>, pairs: Seq<(Yaml, Yaml)>, n: int, m: int)
    requires
        0 <= n <= m,
        extract_prefix(path, pairs, n) is Err,
    ensures
        extract_prefix(path, pairs, m) is Err,
    decreases m - n,
{
    if n < m {
        lemma_extract_prefix_err(path, pairs, n, m - 1);
    }
}

/// The predicate of a qualifying pair, as a function value.
pub open spec fn qualifying_pred() -> spec_fn((Yaml, Yaml)) -> bool {
    |p: (Yaml, Yaml)| qualifying_pair(p)
}

/// The entry a pair yields, as a function value.
pub open spec fn entry_fn(path: Seq<char>) -> spec_fn((Yaml, Yaml)) -> (
    Seq<char>,
    Seq<char>,
    Seq<char>,
) {
    |p: (Yaml, Yaml)| entry_triple(path, p)
}

proof fn lemma_extract_prefix_exact(path: Seq<char>, pairs: Seq<(Yaml, Yaml)>, n: int)
    requires
        0 <= n <= pairs.len(),
        extract_prefix(path, pairs, n) is Ok,
    ensures
        extract_prefix(path, pairs, n)->Ok_0 == pairs.take(n).filter(qualifying_pred()).map_values(
            entry_fn(path),
        ),
    decreases n,
{
    reveal(Seq::<(Yaml, Yaml)>::filter);
    let pred = qualifying_pred();
    let f = entry_fn(path);
    if n == 0 {
        assert(pairs.take(0) =~= Seq::<(Yaml, Yaml)>::empty());
        assert(pairs.take(0).filter(pred).map_values(f) =~= Seq::<
            (Seq<char>, Seq<char>, Seq<char>),
        >::empty());
    } else {
        lemma_extract_prefix_exact(path, pairs, n - 1);
        let t = pairs.take(n);
        let t1 = pairs.take(n - 1);
        let p = pairs[n - 1];
        assert(t.drop_last() =~= t1);
        assert(t.last() == p);
        if qualifying_pair(p) {
            assert(t.filter(pred) == t1.filter(pred).push(p));
            assert(t1.filter(pred).push(p).map_values(f) =~= t1.filter(pred).map_values(f).push(
                f(p),
            ));
        } else {
            assert(t.filter(pred) == t1.filter(pred));
        }
    }
}

/// Law: a successful extraction yields exactly one entry per qualifying
/// pair of the `services` mapping — a string-formed key whose value
/// declares an image — in document order, and no entry for any other pair.
pub proof fn lemma_extract_exact(doc: Yaml, path: Seq<char>)
    requires
        extract_spec(doc, path) is Ok,
    ensures
        services_of(doc) is Some,
        extract_spec(doc, path)->Ok_0 == services_of(doc)->Some_0.filter(
            qualifying_pred(),
        ).map_values(entry_fn(path)),
{
    let pairs = services_of(doc)->Some_0;
    lemma_extract_prefix_exact(path, pairs, pairs.len() as int);
    assert(pairs.take(pairs.len() as int) =~= pairs);
}

/// The string form of a mapping key, by reference.
fn key_str(k: &Yaml) -> (r: Option<&String>)
    ensures
        match r {
            Some(s) => str_of_key(*k) == Some(s@),
            None => str_of_key(*k) is None,
        },
{
    match k.untag_ref() {
        Yaml::Str(s) => Some(s),
        _ => None,
    }
}

/// The image reference a service value declares, by reference.
fn image_lookup(v: &Yaml) -> (r: Option<&String>)
    ensures
        match r {
            Some(s) => image_of(*v) == Some(s@),
            None => image_of(*v) is None,
        },
{
    match v.untag_ref() {
        Yaml::Dict(m) => match dict_lookup(m, "image") {
            Some(w) => match w.untag_ref() {
                Yaml::Str(s) => Some(s),
                _ => None,
            },
            None => None,
        },
        _ => None,
    }
}

/// Walk the services pairs in document order, emitting one entry per
/// qualifying pair and failing on the first key without a string form.
fn extract_pairs(pairs: &Vec<(Yaml, Yaml)>, path: &str) -> (r: Result<Vec<ServiceEntry>, ScanError>)
    ensures
        match r {
            Ok(entries) => {
                &&& extract_prefix(path@, pairs@, pairs@.len() as int) is Ok
                &&& entries_match(entries@, extract_prefix(path@, pairs@, pairs@.len() as int)->Ok_0)
            },
            Err(e) => {
                &&& extract_prefix(path@, pairs@, pairs@.len() as int) is Err
                &&& e matches ScanError::Schema { path: p, issue } && p@ == path@ && issue
                    == SchemaIssue::NonStringName
            },
        },
{
    let mut out: Vec<ServiceEntry> = Vec::new();
    let mut i: usize = 0;
    while i < pairs.len()
        invariant
            i <= pairs.len(),
            extract_prefix(path@, pairs@, i as int) is Ok,
            entries_match(out@, extract_prefix(path@, pairs@, i as int)->Ok_0),
        decreases pairs.len() - i,
    {
        match key_str(&pairs[i].0) {
            None => {
                proof {
                    lemma_extract_prefix_err(path@, pairs@, i as int + 1, pairs@.len() as int);
                }
                return Err(
                    ScanError::Schema {
                        path: path.to_owned(),
                        issue: SchemaIssue::NonStringName,
                    },
                );
            },
            Some(name) => {
                match image_lookup(&pairs[i].1) {
                    Some(img) => {
                        let entry = ServiceEntry {
                            path: path.to_owned(),
                            service: name.clone(),
                            image: img.clone(),
                        };
                        out.push(entry);
                    },
                    None => {},
                }
            },
        }
        i += 1;
    }
    Ok(out)
}

/// Locate the top-level `services` mapping and extract its entries.
///
/// Fails with a schema error when the key is absent or its value is not a
/// mapping, and when a service key has no string form; a service without a
/// usable image reference is silently omitted.
pub fn extract_services(doc: &Yaml, path: &str) -> (r: Result<Vec<ServiceEntry>, ScanError>)
    ensures
        match r {
            Ok(entries) => {
                &&& extract_spec(*doc, path@) is Ok
                &&& entries_match(entries@, extract_spec(*doc, path@)->Ok_0)
            },
            Err(e) => {
                &&& extract_spec(*doc, path@) is Err
                &&& e matches ScanError::Schema { path: p, issue } && p@ == path@ && issue
                    == extract_spec(*doc, path@)->Err_0
            },
        },
{
    match doc.untag_ref() {
        Yaml::Dict(m) => match dict_lookup(m, "services") {
            Some(v) => match v.untag_ref() {
                Yaml::Dict(svcs) => extract_pairs(svcs, path),
                _ => Err(
                    ScanError::Schema {
                        path: path.to_owned(),
                        issue: SchemaIssue::MissingServices,
                    },
                ),
            },
            None => Err(
                ScanError::Schema { path: path.to_owned(), issue: SchemaIssue::MissingServices },
            ),
        },
        _ => Err(ScanError::Schema { path: path.to_owned(), issue: SchemaIssue::MissingServices }),
    }
}

/// What the loader-plus-extractor pipeline yields for one file's text.
pub open spec fn file_spec(path: Seq<char>, text: Seq<char>) -> Result<
    Seq<(Seq<char>, Seq<char>, Seq<char>)>,
    (ErrKind, Seq<char>),
> {
    match yaml_doc(text) {
        None => Err((ErrKind::Parse, path)),
        Some(doc) => match extract_spec(doc, path) {
            Ok(entries) => Ok(entries),
            Err(SchemaIssue::MissingServices) => Err((ErrKind::MissingServices, path)),
            Err(SchemaIssue::NonStringName) => Err((ErrKind::NonStringName, path)),
        },
    }
}

/// Parse one file's text and extract its service entries.
pub fn parse_yaml_text(path: &str, text: &str) -> (r: Result<Vec<ServiceEntry>, ScanError>)
    ensures
        match r {
            Ok(entries) => {
                &&& file_spec(path@, text@) is Ok
                &&& entries_match(entries@, file_spec(path@, text@)->Ok_0)
            },
            Err(e) => {
                &&& file_spec(path@, text@) is Err
                &&& error_view(e) == file_spec(path@, text@)->Err_0
            },
        },
{
    match load_document(path, text) {
        Err(e) => Err(e),
        Ok(doc) => extract_services(&doc, path),
    }
}

} // verus!
