//! The compute side of the file-pick request: normalizing extension
//! filters, choosing the picker variant, and collecting picked paths.
//!
//! The dialog itself belongs to the host application; it hands these
//! functions plain values and takes plain values back.

use vstd::prelude::*;
use vstd::string::StrSliceExecFns;
use vstd::utf8::char_u32_cast;

verus! {

/// One extension filter of a pick request.
#[derive(Debug)]
pub struct FileFilter {
    pub name: Option<String>,
    pub extensions: Vec<String>,
}

/// A request to pick files or folders, one or several, through filters.
#[derive(Debug)]
pub struct FilePickRequest {
    pub multiple: bool,
    pub directory: bool,
    pub filters: Vec<FileFilter>,
}

impl Default for FileFilter {
    /// An unnamed filter with no extensions.
    fn default() -> (filter: Self)
        ensures
            filter.name is None,
            filter.extensions@.len() == 0,
    {
        FileFilter { name: None, extensions: Vec::new() }
    }
}

impl Default for FilePickRequest {
    /// A request for one single file with no filters.
    fn default() -> (request: Self)
        ensures
            !request.multiple,
            !request.directory,
            request.filters@.len() == 0,
    {
        FilePickRequest { multiple: false, directory: false, filters: Vec::new() }
    }
}

/// `c` mapped to its ASCII lowercase equivalent; everything but an
/// ASCII capital letter is unchanged.
pub open spec fn lower_ascii_char(c: char) -> char {
    if 'A' <= c && c <= 'Z' {
        (((c as u32) + 32) as u32) as char
    } else {
        c
    }
}

/// `s` with its leading dots removed.
pub open spec fn trim_leading_dots(s: Seq<char>) -> Seq<char>
    decreases s.len(),
{
    if s.len() > 0 && s[0] == '.' {
        trim_leading_dots(s.drop_first())
    } else {
        s
    }
}

/// One extension, normalized: leading dots gone, ASCII lowercased.
pub open spec fn normalized_extension(s: Seq<char>) -> Seq<char> {
    trim_leading_dots(s).map_values(|c: char| lower_ascii_char(c))
}

/// A list of extensions, each normalized, the ones left empty dropped.
pub open spec fn normalized_extensions_of(source: Seq<Seq<char>>) -> Seq<Seq<char>>
    decreases source.len(),
{
    if source.len() == 0 {
        Seq::empty()
    } else {
        let rest = normalized_extensions_of(source.drop_last());
        let entry = normalized_extension(source.last());
        if entry.len() == 0 {
            rest
        } else {
            rest.push(entry)
        }
    }
}

/// Relies on `str::to_ascii_lowercase`: each character of the result is
/// the ASCII lowercase equivalent of the corresponding input character,
/// and non-ASCII characters are unchanged.
#[verifier::external_body]
fn ascii_lowercase(s: &str) -> (r: String)
    ensures
        r@ == s@.map_values(|c: char| lower_ascii_char(c)),
{
    s.to_ascii_lowercase()
}

/// One extension, normalized.
fn normalize_one(ext: &str) -> (r: String)
    ensures
        r@ == normalized_extension(ext@),
{
    let n = ext.unicode_len();
    let mut start: usize = 0;
    proof {
        assert(ext@.skip(0) =~= ext@);
    }
    loop
        invariant
            start <= n,
            n == ext@.len(),
            trim_leading_dots(ext@) == trim_leading_dots(ext@.skip(start as int)),
        ensures
            start <= n,
            n == ext@.len(),
            trim_leading_dots(ext@) == ext@.skip(start as int),
        decreases n - start,
    {
        if start == n {
            proof {
                assert(ext@.skip(start as int).len() == 0);
            }
            break ;
        }
        let c = ext.get_char(start);
        proof {
            assert(ext@.skip(start as int)[0] == ext@[start as int]);
        }
        if c != '.' {
            break ;
        }
        proof {
            assert(ext@.skip(start as int).drop_first() =~= ext@.skip(start as int + 1));
        }
        start = start + 1;
    }
    let trimmed = ext.substring_char(start, n);
    proof {
        assert(trimmed@ =~= ext@.skip(start as int));
    }
    ascii_lowercase(trimmed)
}

/// Normalizes a list of extension spellings: each entry loses its
/// leading dots and is ASCII lowercased; entries with nothing left are
/// dropped.
pub fn normalize_extensions(source: &[String]) -> (r: Vec<String>)
    ensures
        r.deep_view() == normalized_extensions_of(source.deep_view()),
{
    let ghost src = source.deep_view();
    let mut r: Vec<String> = Vec::new();
    proof {
        assert(r.deep_view() =~= Seq::<Seq<char>>::empty());
        assert(src.take(0) =~= Seq::<Seq<char>>::empty());
    }
    let mut i: usize = 0;
    while i < source.len()
        invariant
            i <= source@.len(),
            src == source.deep_view(),
            r.deep_view() == normalized_extensions_of(src.take(i as int)),
        decreases source@.len() - i,
    {
        let entry = normalize_one(source[i].as_str());
        proof {
            assert(src.take(i as int + 1).drop_last() =~= src.take(i as int));
            assert(src.take(i as int + 1).last() == src[i as int]);
        }
        if !entry.as_str().is_empty() {
            let ghost rd = r.deep_view();
            r.push(entry);
            proof {
                assert(r.deep_view() =~= rd.push(entry@));
            }
        }
        i = i + 1;
    }
    proof {
        assert(src.take(source@.len() as int) =~= src);
    }
    r
}

/// The label a filter carries into the dialog: its name, or nothing.
pub open spec fn filter_label(name: Option<String>) -> Seq<char> {
    match name {
        Option::Some(n) => n@,
        Option::None => Seq::empty(),
    }
}

/// The filters worth handing to the dialog: each with its normalized
/// extensions, those normalizing to nothing dropped, in request order.
pub open spec fn cleaned_filter_seq(filters: Seq<FileFilter>) -> Seq<(Seq<char>, Seq<Seq<char>>)>
    decreases filters.len(),
{
    if filters.len() == 0 {
        Seq::empty()
    } else {
        let rest = cleaned_filter_seq(filters.drop_last());
        let exts = normalized_extensions_of(filters.last().extensions.deep_view());
        if exts.len() == 0 {
            rest
        } else {
            rest.push((filter_label(filters.last().name), exts))
        }
    }
}

/// The mathematical reading of prepared filter entries: each label as
/// its characters, each extension list as its character sequences.
pub open spec fn filter_entries_model(entries: Seq<(String, Vec<String>)>) -> Seq<
    (Seq<char>, Seq<Seq<char>>),
> {
    entries.map_values(|entry: (String, Vec<String>)| (entry.0@, entry.1.deep_view()))
}

/// Prepares a request's filters for the dialog: normalizes every
/// filter's extensions, drops filters left without any, and labels each
/// with its name or an empty label.
pub fn cleaned_filters(filters: &Vec<FileFilter>) -> (r: Vec<(String, Vec<String>)>)
    ensures
        filter_entries_model(r@) == cleaned_filter_seq(filters@),
{
    let mut r: Vec<(String, Vec<String>)> = Vec::new();
    proof {
        assert(filter_entries_model(r@) =~= Seq::<(Seq<char>, Seq<Seq<char>>)>::empty());
        assert(filters@.take(0) =~= Seq::<FileFilter>::empty());
    }
    let mut i: usize = 0;
    while i < filters.len()
        invariant
            i <= filters@.len(),
            filter_entries_model(r@) == cleaned_filter_seq(filters@.take(i as int)),
        decreases filters@.len() - i,
    {
        let exts_slice = filters[i].extensions.as_slice();
        let cleaned = normalize_extensions(exts_slice);
        proof {
            assert(exts_slice.deep_view() =~= filters@[i as int].extensions.deep_view());
            assert(filters@.take(i as int + 1).drop_last() =~= filters@.take(i as int));
            assert(filters@.take(i as int + 1).last() == filters@[i as int]);
        }
        if cleaned.len() > 0 {
            let label = match &filters[i].name {
                Option::Some(n) => n.clone(),
                Option::None => String::new(),
            };
            let ghost label_view = label@;
            let ghost cleaned_view = cleaned.deep_view();
            proof {
                assert(label_view == filter_label(filters@[i as int].name));
            }
            let ghost before = filter_entries_model(r@);
            let ghost prev_vec = r@;
            let entry = (label, cleaned);
            let ghost entry_snapshot = entry;
            r.push(entry);
            proof {
                assert(r@ == prev_vec.push(entry_snapshot));
                assert(entry_snapshot.0@ == label_view);
                assert(entry_snapshot.1.deep_view() == cleaned_view);
                assert(filter_entries_model(r@) =~= before.push((label_view, cleaned_view)));
            }
        }
        i = i + 1;
    }
    proof {
        assert(filters@.take(filters@.len() as int) =~= filters@);
    }
    r
}

/// Which picker the host must open for a request.
#[derive(Clone, Copy, Debug, PartialEq, Eq, Structural)]
pub enum PickMode {
    SingleFile,
    MultipleFiles,
    SingleFolder,
    MultipleFolders,
}

/// The picker variant a request calls for.
pub fn pick_mode(directory: bool, multiple: bool) -> (mode: PickMode)
    ensures
        directory && multiple ==> mode == PickMode::MultipleFolders,
        directory && !multiple ==> mode == PickMode::SingleFolder,
        !directory && multiple ==> mode == PickMode::MultipleFiles,
        !directory && !multiple ==> mode == PickMode::SingleFile,
{
    if directory {
        if multiple {
            PickMode::MultipleFolders
        } else {
            PickMode::SingleFolder
        }
    } else if multiple {
        PickMode::MultipleFiles
    } else {
        PickMode::SingleFile
    }
}

/// The collected result of converting picked paths one by one: the
/// first conversion error, or every converted path in order.
pub open spec fn collected_paths(items: Seq<Result<String, String>>) -> Result<
    Seq<Seq<char>>,
    Seq<char>,
>
    decreases items.len(),
{
    if items.len() == 0 {
        Result::Ok(Seq::empty())
    } else {
        match items[0] {
            Result::Err(e) => Result::Err(e@),
            Result::Ok(v) => match collected_paths(items.drop_first()) {
                Result::Err(e) => Result::Err(e),
                Result::Ok(rest) => Result::Ok(seq![v@] + rest),
            },
        }
    }
}

/// Collects the per-path conversion results the host hands back: every
/// path in order when all converted, else the first error.
pub fn paths_to_strings(paths: Vec<Result<String, String>>) -> (r: Result<Vec<String>, String>)
    ensures
        match r {
            Result::Ok(v) => collected_paths(paths@) == Result::Ok::<Seq<Seq<char>>, Seq<char>>(
                v.deep_view(),
            ),
            Result::Err(e) => collected_paths(paths@) == Result::Err::<
                Seq<Seq<char>>,
                Seq<char>,
            >(e@),
        },
    decreases paths@.len(),
{
    let ghost input = paths@;
    let mut paths = paths;
    if paths.len() == 0 {
        let empty: Vec<String> = Vec::new();
        proof {
            assert(empty.deep_view() =~= Seq::<Seq<char>>::empty());
        }
        return Ok(empty);
    }
    let first = paths.remove(0);
    proof {
        assert(paths@ =~= input.drop_first());
    }
    match first {
        Err(e) => Err(e),
        Ok(v) => match paths_to_strings(paths) {
            Err(e) => Err(e),
            Ok(rest) => {
                let ghost tail = rest.deep_view();
                let mut out = rest;
                out.insert(0, v);
                proof {
                    assert(out.deep_view() =~= seq![v@] + tail);
                }
                Ok(out)
            },
        },
    }
}

} // verus!
