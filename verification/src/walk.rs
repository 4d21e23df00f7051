//! The traversal contract: which entries are scanned, and aggregation.

use vstd::prelude::*;

use crate::errors::{error_view, ErrKind, ScanError};
use crate::extract::{entries_match, file_spec, parse_yaml_text, ServiceEntry};

verus! {

/// Directory levels below the scan root that the walk may visit.
pub const MAX_DEPTH: usize = 10;

/// The characters strictly after the last occurrence of `c`, or `None`
/// when `c` does not occur.
pub open spec fn suffix_after_last(s: Seq<char>, c: char) -> Option<Seq<char>>
    decreases s.len(),
{
    if s.len() == 0 {
        None
    } else if s.last() == c {
        Some(Seq::empty())
    } else {
        match suffix_after_last(s.drop_last(), c) {
            None => None,
            Some(t) => Some(t.push(s.last())),
        }
    }
}

/// The final component of a path: everything after the last separator.
pub open spec fn file_name_of(path: Seq<char>) -> Seq<char> {
    match suffix_after_last(path, '/') {
        None => path,
        Some(t) => t,
    }
}

/// The extension of a path: the part of its final component after the
/// last dot, provided that dot is not the component's first character.
pub open spec fn extension_of(path: Seq<char>) -> Option<Seq<char>> {
    let name = file_name_of(path);
    match suffix_after_last(name, '.') {
        None => None,
        Some(ext) => if ext.len() == name.len() - 1 {
            None
        } else {
            Some(ext)
        },
    }
}

/// A path qualifies for parsing iff its extension is exactly `yaml` or `yml`.
pub open spec fn path_qualifies(path: Seq<char>) -> bool {
    extension_of(path) == Some("yaml"@) || extension_of(path) == Some("yml"@)
}

proof fn lemma_suffix_absent(s: Seq<char>, c: char)
    requires
        forall|t: int| 0 <= t < s.len() ==> s[t] != c,
    ensures
        suffix_after_last(s, c) is None,
    decreases s.len(),
{
    if s.len() > 0 {
        assert(s.last() != c);
        lemma_suffix_absent(s.drop_last(), c);
    }
}

proof fn lemma_suffix_at(s: Seq<char>, c: char, k: int)
    requires
        0 <= k < s.len(),
        s[k] == c,
        forall|t: int| k < t < s.len() ==> s[t] != c,
    ensures
        suffix_after_last(s, c) == Some(s.skip(k + 1)),
    decreases s.len(),
{
    if k == s.len() - 1 {
        assert(s.skip(k + 1) =~= Seq::<char>::empty());
    } else {
        assert(s.last() != c);
        lemma_suffix_at(s.drop_last(), c, k);
        assert(s.drop_last().skip(k + 1).push(s.last()) =~= s.skip(k + 1));
    }
}

/// Decide whether a path's extension is exactly `yaml` or `yml`.
pub fn is_yaml_path(path: &str) -> (r: bool)
    ensures
        r == path_qualifies(path@),
{
    let n: usize = path.unicode_len();
    let mut last_slash: Option<usize> = None;
    let mut last_dot: Option<usize> = None;
    let mut j: usize = 0;
    while j < n
        invariant
            j <= n,
            n == path@.len(),
            match last_slash {
                None => forall|t: int| 0 <= t < j ==> path@[t] != '/',
                Some(k) => k < j && path@[k as int] == '/' && (forall|t: int|
                    k < t < j ==> path@[t] != '/'),
            },
            match last_dot {
                None => forall|t: int| 0 <= t < j ==> path@[t] != '.',
                Some(k) => k < j && path@[k as int] == '.' && (forall|t: int|
                    k < t < j ==> path@[t] != '.'),
            },
        decreases n - j,
    {
        let c = path.get_char(j);
        if c == '/' {
            last_slash = Some(j);
        }
        if c == '.' {
            last_dot = Some(j);
        }
        j += 1;
    }
    let name_start: usize = match last_slash {
        None => 0,
        Some(k) => k + 1,
    };
    let ghost name = path@.skip(name_start as int);
    proof {
        match last_slash {
            None => {
                lemma_suffix_absent(path@, '/');
                assert(path@.skip(0) =~= path@);
            },
            Some(k) => {
                lemma_suffix_at(path@, '/', k as int);
            },
        }
        assert(file_name_of(path@) == name);
    }
    let ext_dot: Option<usize> = match last_dot {
        None => None,
        Some(d) => if d >= name_start {
            Some(d)
        } else {
            None
        },
    };
    match ext_dot {
        None => {
            proof {
                assert(forall|t: int| 0 <= t < name.len() ==> name[t] != '.');
                lemma_suffix_absent(name, '.');
            }
            false
        },
        Some(d) => {
            proof {
                assert(name[d - name_start] == '.');
                assert(forall|t: int| d - name_start < t < name.len() ==> name[t] != '.');
                lemma_suffix_at(name, '.', d - name_start);
                assert(name.skip(d - name_start + 1) =~= path@.skip(d + 1));
            }
            if d == name_start {
                // a leading dot names a hidden file, not an extension
                proof {
                    assert(path@.skip(d + 1).len() == name.len() - 1);
                }
                false
            } else {
                let ghost ext = path@.skip(d + 1);
                proof {
                    assert(ext.len() != name.len() - 1);
                    assert(extension_of(path@) == Some(ext));
                    reveal_strlit("yaml");
                    reveal_strlit("yml");
                }
                let ext_start: usize = d + 1;
                let m: usize = n - ext_start;
                let r = if m == 4 {
                    path.get_char(ext_start) == 'y' && path.get_char(ext_start + 1) == 'a'
                        && path.get_char(ext_start + 2) == 'm' && path.get_char(ext_start + 3)
                        == 'l'
                } else if m == 3 {
                    path.get_char(ext_start) == 'y' && path.get_char(ext_start + 1) == 'm'
                        && path.get_char(ext_start + 2) == 'l'
                } else {
                    false
                };
                proof {
                    if r {
                        if m == 4 {
                            assert(ext =~= "yaml"@);
                        } else {
                            assert(ext =~= "yml"@);
                        }
                    } else {
                        assert(ext.len() == m);
                        if m == 4 {
                            assert(ext[0] == path@[d + 1] && ext[1] == path@[d + 2] && ext[2]
                                == path@[d + 3] && ext[3] == path@[d + 4]);
                        } else if m == 3 {
                            assert(ext[0] == path@[d + 1] && ext[1] == path@[d + 2] && ext[2]
                                == path@[d + 3]);
                        }
                        assert(ext != "yaml"@ && ext != "yml"@);
                    }
                }
                r
            }
        },
    }
}

/// One entry met during the walk: its path and its depth below the root.
#[derive(Debug, Clone)]
pub struct WalkEntry {
    pub path: String,
    pub depth: usize,
}

/// An entry is scanned iff it lies within the depth bound and its
/// extension qualifies.
pub open spec fn entry_selected(e: WalkEntry) -> bool {
    e.depth <= MAX_DEPTH && path_qualifies(e.path@)
}

/// The paths of the selected entries, in traversal order.
pub open spec fn selected_paths(entries: Seq<WalkEntry>) -> Seq<Seq<char>>
    decreases entries.len(),
{
    if entries.len() == 0 {
        Seq::empty()
    } else {
        let rest = selected_paths(entries.drop_last());
        if entry_selected(entries.last()) {
            rest.push(entries.last().path@)
        } else {
            rest
        }
    }
}

/// The selection predicate, as a function value.
pub open spec fn selected_pred() -> spec_fn(WalkEntry) -> bool {
    |e: WalkEntry| entry_selected(e)
}

/// An entry's path, as a function value.
pub open spec fn path_fn() -> spec_fn(WalkEntry) -> Seq<char> {
    |e: WalkEntry| e.path@
}

/// Law: selection keeps exactly the walked entries within the depth bound
/// whose extension is `yaml` or `yml`, in traversal order; an entry beyond
/// the bound, or without a qualifying extension, contributes nothing.
pub proof fn lemma_selection_exact(entries: Seq<WalkEntry>)
    ensures
        selected_paths(entries) == entries.filter(selected_pred()).map_values(path_fn()),
    decreases entries.len(),
{
    reveal(Seq::<WalkEntry>::filter);
    if entries.len() == 0 {
        assert(entries.filter(selected_pred()).map_values(path_fn()) =~= Seq::<Seq<char>>::empty());
    } else {
        lemma_selection_exact(entries.drop_last());
        let e = entries.last();
        if entry_selected(e) {
            assert(entries.filter(selected_pred()) == entries.drop_last().filter(
                selected_pred(),
            ).push(e));
            assert(entries.drop_last().filter(selected_pred()).push(e).map_values(path_fn())
                =~= entries.drop_last().filter(selected_pred()).map_values(path_fn()).push(
                e.path@,
            ));
        }
    }
}

/// Filter walked entries down to the files that will be parsed: those
/// within the depth bound whose extension is exactly `yaml` or `yml`.
/// Entries beyond the depth bound are never selected, whatever their name.
pub fn plan_scan(entries: &Vec<WalkEntry>) -> (r: Vec<String>)
    ensures
        r@.len() == selected_paths(entries@).len(),
        forall|i: int| 0 <= i < r@.len() ==> (#[trigger] r@[i])@ == selected_paths(entries@)[i],
{
    let mut out: Vec<String> = Vec::new();
    let mut i: usize = 0;
    proof {
        assert(entries@.take(0) =~= Seq::<WalkEntry>::empty());
    }
    while i < entries.len()
        invariant
            i <= entries.len(),
            out@.len() == selected_paths(entries@.take(i as int)).len(),
            forall|t: int|
                0 <= t < out@.len() ==> (#[trigger] out@[t])@ == selected_paths(
                    entries@.take(i as int),
                )[t],
        decreases entries.len() - i,
    {
        let e = &entries[i];
        if e.depth <= MAX_DEPTH && is_yaml_path(e.path.as_str()) {
            out.push(e.path.clone());
        }
        proof {
            assert(entries@.take(i as int + 1).drop_last() =~= entries@.take(i as int));
            assert(entries@.take(i as int + 1).last() == entries@[i as int]);
        }
        i += 1;
    }
    proof {
        assert(entries@.take(entries@.len() as int) =~= entries@);
    }
    out
}

/// One selected file handed to the scan: its path, and its content, or
/// `None` when the file could not be read after being selected.
#[derive(Debug, Clone)]
pub struct FileInput {
    pub path: String,
    pub content: Option<String>,
}

/// A file's content reduced to characters.
pub open spec fn content_view(f: FileInput) -> Option<Seq<char>> {
    match f.content {
        None => None,
        Some(t) => Some(t@),
    }
}

/// What one selected file contributes: its entries, an I/O error when it
/// was unreadable, or its pipeline error.
pub open spec fn input_spec(f: FileInput) -> Result<
    Seq<(Seq<char>, Seq<char>, Seq<char>)>,
    (ErrKind, Seq<char>),
> {
    match f.content {
        None => Err((ErrKind::Io, f.path@)),
        Some(text) => file_spec(f.path@, text@),
    }
}

/// What scanning the first `n` selected files yields: their entries
/// concatenated in order, or the first file's error.
pub open spec fn scan_spec(inputs: Seq<FileInput>, n: int) -> Result<
    Seq<(Seq<char>, Seq<char>, Seq<char>)>,
    (ErrKind, Seq<char>),
>
    decreases n,
{
    if n <= 0 {
        Ok(Seq::empty())
    } else {
        match scan_spec(inputs, n - 1) {
            Err(e) => Err(e),
            Ok(acc) => match input_spec(inputs[n - 1]) {
                Err(e) => Err(e),
                Ok(es) => Ok(acc + es),
            },
        }
    }
}

/// The first error stands, whatever follows it.
proof fn lemma_scan_spec_err(inputs: Seq<FileInput>, n: int, m: int)
    requires
        0 <= n <= m,
        scan_spec(inputs, n) is Err,
    ensures
        scan_spec(inputs, m) == scan_spec(inputs, n),
    decreases m - n,
{
    if n < m {
        lemma_scan_spec_err(inputs, n, m - 1);
    }
}

/// Run the loader-plus-extractor pipeline over the selected files in
/// order, aggregating all entries, or failing with the first file's error.
pub fn scan_files(inputs: &Vec<FileInput>) -> (r: Result<Vec<ServiceEntry>, ScanError>)
    ensures
        match r {
            Ok(entries) => {
                &&& scan_spec(inputs@, inputs@.len() as int) is Ok
                &&& entries_match(entries@, scan_spec(inputs@, inputs@.len() as int)->Ok_0)
            },
            Err(e) => {
                &&& scan_spec(inputs@, inputs@.len() as int) is Err
                &&& error_view(e) == scan_spec(inputs@, inputs@.len() as int)->Err_0
            },
        },
{
    let mut out: Vec<ServiceEntry> = Vec::new();
    let mut i: usize = 0;
    while i < inputs.len()
        invariant
            i <= inputs.len(),
            scan_spec(inputs@, i as int) is Ok,
            entries_match(out@, scan_spec(inputs@, i as int)->Ok_0),
        decreases inputs.len() - i,
    {
        let inp = &inputs[i];
        match &inp.content {
            None => {
                proof {
                    lemma_scan_spec_err(inputs@, i as int + 1, inputs@.len() as int);
                }
                return Err(ScanError::Io { path: inp.path.clone() });
            },
            Some(text) => {
                match parse_yaml_text(inp.path.as_str(), text.as_str()) {
                    Err(e) => {
                        proof {
                            lemma_scan_spec_err(inputs@, i as int + 1, inputs@.len() as int);
                        }
                        return Err(e);
                    },
                    Ok(mut entries) => {
                        out.append(&mut entries);
                    },
                }
            },
        }
        i += 1;
    }
    Ok(out)
}

/// Idempotence: two scans over files with the same paths and the same
/// contents yield the same entries, or the same error.
pub proof fn lemma_scan_deterministic(a: Seq<FileInput>, b: Seq<FileInput>, n: int)
    requires
        0 <= n <= a.len(),
        a.len() == b.len(),
        forall|i: int|
            0 <= i < a.len() ==> (#[trigger] a[i]).path@ == b[i].path@ && content_view(a[i])
                == content_view(b[i]),
    ensures
        scan_spec(a, n) == scan_spec(b, n),
    decreases n,
{
    if n > 0 {
        lemma_scan_deterministic(a, b, n - 1);
        assert(input_spec(a[n - 1]) == input_spec(b[n - 1])) by {
            if a[n - 1].content is Some {
                assert(content_view(a[n - 1]) == Some(a[n - 1].content->Some_0@));
            }
        }
    }
}

} // verus!
