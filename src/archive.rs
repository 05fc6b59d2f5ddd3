use vstd::prelude::*;

use crate::error::CoreError;
use crate::text::{join_path, reversed, spec_join_path, split_char, split_on, texts};

verus! {

/// One entry of an archive: its name where it is a safe relative path,
/// whether it is a directory, and its unpacked bytes.
#[derive(Debug, Clone)]
pub struct ArchiveEntry {
    pub name: Option<String>,
    pub is_dir: bool,
    pub data: Vec<u8>,
}

/// An entry to write: its place below the destination, whether it is a
/// directory, and its bytes.
#[derive(Debug, Clone)]
pub struct ExtractedEntry {
    pub path: String,
    pub is_dir: bool,
    pub data: Vec<u8>,
}

/// The entries of a zip archive held in `bytes`, in the archive's order:
/// each one's enclosed name, directory flag and unpacked bytes. Names are
/// judged by the host's path rules, so they are fixed for a given build.
pub uninterp spec fn zip_entries(bytes: Seq<u8>) -> Seq<(Option<Seq<char>>, bool, Seq<u8>)>;

pub open spec fn entry_view(e: ArchiveEntry) -> (Option<Seq<char>>, bool, Seq<u8>) {
    (
        match e.name {
            Some(n) => Some(n@),
            None => None,
        },
        e.is_dir,
        e.data@,
    )
}

pub open spec fn entries_view(es: Seq<ArchiveEntry>) -> Seq<(Option<Seq<char>>, bool, Seq<u8>)> {
    es.map_values(|e: ArchiveEntry| entry_view(e))
}

/// Whether a zip archive held in `bytes` can be read whole.
pub uninterp spec fn zip_readable(bytes: Seq<u8>) -> bool;

/// Relies on `zip::ZipArchive` read from memory: for each entry in order its
/// `enclosed_name` (None for a name holding NUL, a root or a prefix, or one
/// that climbs out of the destination, by the host's path rules), `is_dir`,
/// and the bytes read from it. Whether it succeeds and what it returns depend
/// on the bytes alone, for a given build.
#[verifier::external_body]
fn read_zip(bytes: &[u8]) -> (r: Result<Vec<ArchiveEntry>, zip::result::ZipError>)
    ensures
        r is Ok == zip_readable(bytes@),
        r matches Ok(es) ==> entries_view(es@) == zip_entries(bytes@),
{
    let mut archive = zip::ZipArchive::new(std::io::Cursor::new(bytes))?;
    let mut out = Vec::new();
    for i in 0..archive.len() {
        let mut file = archive.by_index(i)?;
        let name = file.enclosed_name().map(|p| p.to_string_lossy().into_owned());
        let mut data = Vec::new();
        std::io::Read::read_to_end(&mut file, &mut data)?;
        out.push(ArchiveEntry { name, is_dir: file.is_dir(), data });
    }
    Ok(out)
}

/// The components of a relative path: its pieces between `/`, without empty
/// pieces and `.`.
pub open spec fn clean_components(pieces: Seq<Seq<char>>) -> Seq<Seq<char>>
    decreases pieces.len(),
{
    if pieces.len() == 0 {
        seq![]
    } else {
        let rest = clean_components(pieces.drop_last());
        if pieces.last().len() == 0 || pieces.last() == seq!['.'] {
            rest
        } else {
            rest.push(pieces.last())
        }
    }
}

pub open spec fn path_components(p: Seq<char>) -> Seq<Seq<char>> {
    clean_components(split_on(p, '/'))
}

/// Walking the components from the start: the depth reached, and whether it
/// never went above the start.
pub open spec fn climb(comps: Seq<Seq<char>>) -> (int, bool)
    decreases comps.len(),
{
    if comps.len() == 0 {
        (0, true)
    } else {
        let (d, ok) = climb(comps.drop_last());
        if comps.last() == seq!['.', '.'] {
            (d - 1, ok && d - 1 >= 0)
        } else {
            (d + 1, ok)
        }
    }
}

/// A name that stays below the directory it is joined to: no NUL, no leading
/// `/`, and no `..` that climbs above the start.
pub open spec fn safe_name(n: Seq<char>) -> bool {
    &&& forall|i: int| 0 <= i < n.len() ==> n[i] != '\0'
    &&& !(n.len() > 0 && n[0] == '/')
    &&& climb(path_components(n)).1
}

/// `path` is `ex` or lies below it.
pub open spec fn is_under(path: Seq<Seq<char>>, ex: Seq<Seq<char>>) -> bool {
    0 < ex.len() <= path.len() && path.take(ex.len() as int) == ex
}

/// An entry path is excluded where it, or a directory above it, is one of `excludes`.
pub open spec fn excluded(path: Seq<char>, excludes: Seq<Seq<char>>) -> bool {
    exists|i: int|
        0 <= i < excludes.len() && is_under(
            path_components(path),
            path_components(#[trigger] excludes[i]),
        )
}

/// The entries that are written: those with a name that is safe and not excluded.
pub open spec fn kept_entries(
    entries: Seq<(Option<Seq<char>>, bool, Seq<u8>)>,
    excludes: Seq<Seq<char>>,
) -> Seq<(Option<Seq<char>>, bool, Seq<u8>)>
    decreases entries.len(),
{
    if entries.len() == 0 {
        seq![]
    } else {
        let rest = kept_entries(entries.drop_last(), excludes);
        let e = entries.last();
        if e.0 is Some && safe_name(e.0->0) && !excluded(e.0->0, excludes) {
            rest.push(e)
        } else {
            rest
        }
    }
}

/// `o` writes the entry `k` below `dest`, under its safe name.
pub open spec fn written_as(o: ExtractedEntry, k: (Option<Seq<char>>, bool, Seq<u8>), dest: Seq<char>) -> bool {
    &&& k.0 is Some
    &&& safe_name(k.0->0)
    &&& o.path@ == spec_join_path(dest, k.0->0)
    &&& o.is_dir == k.1
    &&& o.data@ == k.2
}

/// `out` writes the entries `kept`, each below `dest`.
pub open spec fn extraction_of(
    out: Seq<ExtractedEntry>,
    kept: Seq<(Option<Seq<char>>, bool, Seq<u8>)>,
    dest: Seq<char>,
) -> bool {
    &&& out.len() == kept.len()
    &&& forall|i: int| 0 <= i < out.len() ==> #[trigger] written_as(out[i], kept[i], dest)
}

fn components(p: &str) -> (r: Vec<String>)
    ensures
        texts(r@) == path_components(p@),
{
    let pieces = split_char(p, '/');
    let mut out: Vec<String> = Vec::new();
    let mut i: usize = 0;
    while i < pieces.len()
        invariant
            i <= pieces@.len(),
            texts(out@) == clean_components(texts(pieces@.take(i as int))),
        decreases pieces.len() - i,
    {
        proof {
            assert(texts(pieces@.take(i as int + 1)).drop_last() == texts(pieces@.take(i as int)));
        }
        let piece = &pieces[i];
        let n = piece.as_str().unicode_len();
        let dot = n == 1 && piece.as_str().get_char(0) == '.';
        if n != 0 && !dot {
            out.push(piece.clone());
            proof {
                if piece@ == seq!['.'] {
                    assert(piece@[0] == '.');
                }
                assert(texts(out@) =~= clean_components(texts(pieces@.take(i as int))).push(piece@));
            }
        } else {
            proof {
                if n == 1 {
                    assert(piece@ =~= seq!['.']);
                }
            }
        }
        i = i + 1;
    }
    proof {
        assert(pieces@.take(pieces@.len() as int) == pieces@);
    }
    out
}

fn starts_with(path: &Vec<String>, ex: &Vec<String>) -> (r: bool)
    ensures
        r == is_under(texts(path@), texts(ex@)),
{
    if ex.len() == 0 || ex.len() > path.len() {
        return false;
    }
    let mut i: usize = 0;
    while i < ex.len()
        invariant
            0 < ex@.len() <= path@.len(),
            i <= ex@.len(),
            forall|j: int| 0 <= j < i ==> path@[j]@ == ex@[j]@,
        decreases ex.len() - i,
    {
        if !(path[i] == ex[i]) {
            proof {
                assert(texts(path@).take(ex@.len() as int)[i as int] != texts(ex@)[i as int]);
            }
            return false;
        }
        i = i + 1;
    }
    proof {
        assert(texts(path@).take(ex@.len() as int) =~= texts(ex@));
    }
    true
}

/// True where `name` stays below the directory it is joined to.
pub fn is_safe_name(name: &str) -> (r: bool)
    ensures
        r == safe_name(name@),
{
    let cs = crate::text::chars_of(name);
    let mut i: usize = 0;
    while i < cs.len()
        invariant
            cs@ == name@,
            i <= cs@.len(),
            forall|j: int| 0 <= j < i ==> cs@[j] != '\0',
        decreases cs.len() - i,
    {
        if cs[i] == '\0' {
            return false;
        }
        i = i + 1;
    }
    if cs.len() > 0 && cs[0] == '/' {
        return false;
    }
    let comps = components(name);
    let mut depth: usize = 0;
    let mut ok = true;
    let mut k: usize = 0;
    while k < comps.len()
        invariant
            k <= comps@.len(),
            depth <= k,
            ok == climb(texts(comps@.take(k as int))).1,
            ok ==> depth == climb(texts(comps@.take(k as int))).0,
        decreases comps.len() - k,
    {
        proof {
            assert(texts(comps@.take(k as int + 1)).drop_last() == texts(comps@.take(k as int)));
            assert(texts(comps@.take(k as int + 1)).last() == comps@[k as int]@);
        }
        let up = comps[k].as_str().unicode_len() == 2 && comps[k].as_str().get_char(0) == '.'
            && comps[k].as_str().get_char(1) == '.';
        proof {
            if up {
                assert(comps@[k as int]@ =~= seq!['.', '.']);
            }
        }
        if up {
            if ok && depth == 0 {
                ok = false;
            } else if ok {
                depth = depth - 1;
            }
        } else if ok {
            depth = depth + 1;
        }
        k = k + 1;
    }
    proof {
        assert(comps@.take(comps@.len() as int) == comps@);
    }
    ok
}

/// True where `path`, or a directory above it, is one of `excludes`.
pub fn is_excluded(path: &str, excludes: &Vec<String>) -> (r: bool)
    ensures
        r == excluded(path@, texts(excludes@)),
{
    let comps = components(path);
    let mut i: usize = 0;
    while i < excludes.len()
        invariant
            i <= excludes@.len(),
            texts(comps@) == path_components(path@),
            forall|j: int|
                0 <= j < i ==> !is_under(
                    path_components(path@),
                    path_components(#[trigger] texts(excludes@)[j]),
                ),
        decreases excludes.len() - i,
    {
        let ex = components(excludes[i].as_str());
        if starts_with(&comps, &ex) {
            proof {
                assert(texts(excludes@)[i as int] == excludes@[i as int]@);
            }
            return true;
        }
        i = i + 1;
    }
    false
}

/// The entries to write below `dest`, in the archive's order: every entry
/// with a safe name, unless it or a directory above it is excluded.
pub fn plan_extraction(entries: Vec<ArchiveEntry>, excludes: &Vec<String>, dest: &str) -> (r: Vec<
    ExtractedEntry,
>)
    ensures
        extraction_of(r@, kept_entries(entries_view(entries@), texts(excludes@)), dest@),
{
    let ghost ex = texts(excludes@);
    let n = entries.len();
    let mut rest = reversed(entries);
    let mut out: Vec<ExtractedEntry> = Vec::new();
    let mut i: usize = 0;
    while rest.len() > 0
        invariant
            n == entries@.len(),
            i + rest@.len() == n,
            ex == texts(excludes@),
            forall|j: int| 0 <= j < rest@.len() ==> rest@[j] == entries@[n - 1 - j],
            extraction_of(out@, kept_entries(entries_view(entries@.take(i as int)), ex), dest@),
        decreases rest.len(),
    {
        let e = rest.pop().unwrap();
        proof {
            assert(entries_view(entries@.take(i as int + 1)).drop_last() == entries_view(
                entries@.take(i as int),
            ));
            assert(entries_view(entries@.take(i as int + 1)).last() == entry_view(e));
        }
        let ghost kept_before = kept_entries(entries_view(entries@.take(i as int)), ex);
        match e.name {
            Some(name) => {
                let safe = is_safe_name(name.as_str());
                if safe && !is_excluded(name.as_str(), excludes) {
                    let path = join_path(dest, name.as_str());
                    let ghost prev = out@;
                    out.push(ExtractedEntry { path, is_dir: e.is_dir, data: e.data });
                    proof {
                        assert(entry_view(e).0 == Some(name@));
                        assert(kept_entries(entries_view(entries@.take(i as int + 1)), ex)
                            == kept_before.push(entry_view(e)));
                        assert(out@.drop_last() == prev);
                        assert(prev.len() == kept_before.len());
                        let kept = kept_before.push(entry_view(e));
                        assert forall|j: int| 0 <= j < out@.len() implies #[trigger] written_as(
                            out@[j],
                            kept[j],
                            dest@,
                        ) by {
                            if j < prev.len() {
                                assert(out@[j] == prev[j]);
                                assert(kept[j] == kept_before[j]);
                                assert(written_as(prev[j], kept_before[j], dest@));
                            }
                        }
                    }
                } else {
                    proof {
                        assert(entry_view(e).0 == Some(name@));
                        assert(kept_entries(entries_view(entries@.take(i as int + 1)), ex)
                            == kept_before);
                    }
                }
            },
            None => {
                proof {
                    assert(kept_entries(entries_view(entries@.take(i as int + 1)), ex)
                        == kept_before);
                }
            },
        }
        i = i + 1;
    }
    proof {
        assert(entries@.take(n as int) == entries@);
    }
    out
}

/// Reads a zip archive of native libraries and decides what to write below
/// `dest`: each entry whose name is safe and is not excluded, nor below an
/// excluded directory. Every path written is `dest` joined with a safe name.
/// An archive that cannot be read gives `ZipError`.
pub fn extract(bytes: &[u8], excludes: &Vec<String>, dest: &str) -> (r: Result<
    Vec<ExtractedEntry>,
    CoreError,
>)
    ensures
        r matches Ok(out) ==> extraction_of(out@, kept_entries(zip_entries(bytes@), texts(excludes@)), dest@),
        r is Ok == zip_readable(bytes@),
        r matches Err(e) ==> e is ZipError,
{
    match read_zip(bytes) {
        Ok(entries) => {
            let out = plan_extraction(entries, excludes, dest);
            proof {
            }
            Ok(out)
        },
        Err(e) => Err(CoreError::ZipError(e)),
    }
}

} // verus!
