//! Native-library archives: reading their entries, refusing entries whose
//! path leaves the target directory, and planning what to write.

use vstd::prelude::*;
use crate::text::chars_of;

verus! {

/// One entry of an archive, read whole.
pub struct ArchiveEntry {
    /// The entry's path inside the archive, `/`-separated.
    pub name: String,
    pub is_dir: bool,
    /// A regular file (neither a directory nor a symbolic link).
    pub is_file: bool,
    pub data: Vec<u8>,
}

/// Why an archive could not be unpacked.
#[derive(PartialEq, Eq, Debug)]
pub enum ArchiveError {
    /// The bytes are not a readable zip archive, or an entry cannot be read.
    Malformed,
    /// An entry's path would land outside the target directory.
    PathEscape(String),
}

/// Something to do on disk to unpack an archive.
pub struct ArchiveEntryView {
    pub name: Seq<char>,
    pub is_dir: bool,
    pub is_file: bool,
    pub data: Seq<u8>,
}

impl View for ArchiveEntry {
    type V = ArchiveEntryView;

    open spec fn view(&self) -> ArchiveEntryView {
        ArchiveEntryView { name: self.name@, is_dir: self.is_dir, is_file: self.is_file, data: self.data@ }
    }
}

pub enum ExtractOp {
    CreateDir(String),
    WriteFile(String, Vec<u8>),
}

pub enum ExtractOpView {
    CreateDir(Seq<char>),
    WriteFile(Seq<char>, Seq<u8>),
}

impl View for ExtractOp {
    type V = ExtractOpView;

    open spec fn view(&self) -> ExtractOpView {
        match self {
            ExtractOp::CreateDir(p) => ExtractOpView::CreateDir(p@),
            ExtractOp::WriteFile(p, d) => ExtractOpView::WriteFile(p@, d@),
        }
    }
}

/// What `zip`'s reader makes of an archive held in memory: every entry in
/// archive order, with its name, kind and decompressed contents; `None`
/// where the bytes are not a readable archive or an entry cannot be read.
pub uninterp spec fn zip_entries_of(bytes: Seq<u8>) -> Option<Seq<ArchiveEntryView>>;

pub open spec fn entry_views(v: Seq<ArchiveEntry>) -> Seq<ArchiveEntryView> {
    v.map_values(|e: ArchiveEntry| e@)
}

/// Relies on `zip::ZipArchive::new`, `len` and `by_index`, and on the
/// `ZipFile` that `by_index` returns (`name`, `is_dir`, `is_file`, and its
/// `Read` impl): reads every entry of an archive held in memory, in order.
/// The result depends on the bytes alone.
#[verifier::external_body]
fn read_zip(bytes: &[u8]) -> (r: Option<Vec<ArchiveEntry>>)
    ensures
        match r {
            Some(v) => zip_entries_of(bytes@) == Some(entry_views(v@)),
            None => zip_entries_of(bytes@) is None,
        },
{
    let mut archive = zip::ZipArchive::new(std::io::Cursor::new(bytes)).ok()?;
    let mut out = Vec::new();
    for i in 0..archive.len() {
        let mut f = archive.by_index(i).ok()?;
        let name = f.name().ok()?.into_owned();
        let mut data = Vec::new();
        std::io::Read::read_to_end(&mut f, &mut data).ok()?;
        out.push(ArchiveEntry { name, is_dir: f.is_dir(), is_file: f.is_file(), data });
    }
    Some(out)
}

/// Reads every entry of a zip archive held in memory, in archive order.
pub fn read_archive(bytes: &[u8]) -> (r: Result<Vec<ArchiveEntry>, ArchiveError>)
    ensures
        match zip_entries_of(bytes@) {
            Some(es) => r matches Ok(v) && entry_views(v@) == es,
            None => r matches Err(e) && e == ArchiveError::Malformed,
        },
{
    match read_zip(bytes) {
        Some(v) => Ok(v),
        None => Err(ArchiveError::Malformed),
    }
}

pub open spec fn is_separator(c: char) -> bool {
    c == '/' || c == '\\'
}

/// The depth below the target directory once segment `seg` is passed:
/// `..` goes up, `.` and an empty segment stay, anything else goes down.
pub open spec fn close_segment(depth: int, seg: Seq<char>) -> int {
    if seg == seq!['.', '.'] {
        depth - 1
    } else if seg.len() == 0 || seg == seq!['.'] {
        depth
    } else {
        depth + 1
    }
}

/// Walks a path character by character: the depth reached by the segments
/// closed so far, the segment being read, and whether the walk ever went
/// above the target directory or met a drive separator `:`.
pub open spec fn walk(name: Seq<char>) -> (int, Seq<char>, bool)
    decreases name.len(),
{
    if name.len() == 0 {
        (0, Seq::empty(), false)
    } else {
        let prev = walk(name.drop_last());
        let c = name.last();
        if is_separator(c) {
            let d = close_segment(prev.0, prev.1);
            (d, Seq::empty(), prev.2 || d < 0)
        } else if c == ':' {
            (prev.0, prev.1.push(c), true)
        } else {
            (prev.0, prev.1.push(c), prev.2)
        }
    }
}

/// A path leaves its target directory: it is absolute, names a drive, or
/// climbs above its start at some point.
pub open spec fn escapes(name: Seq<char>) -> bool {
    (name.len() > 0 && is_separator(name[0])) || walk(name).2 || close_segment(walk(name).0, walk(name).1) < 0
}

proof fn lemma_walk_step(name: Seq<char>, i: int)
    requires
        0 <= i < name.len(),
    ensures
        walk(name.subrange(0, i + 1)) == ({
            let prev = walk(name.subrange(0, i));
            let c = name[i];
            if is_separator(c) {
                let d = close_segment(prev.0, prev.1);
                (d, Seq::empty(), prev.2 || d < 0)
            } else if c == ':' {
                (prev.0, prev.1.push(c), true)
            } else {
                (prev.0, prev.1.push(c), prev.2)
            }
        }),
{
    assert(name.subrange(0, i + 1).drop_last() =~= name.subrange(0, i));
}

proof fn lemma_walk_escaped_stays(name: Seq<char>, k: int)
    requires
        0 <= k <= name.len(),
        walk(name.subrange(0, k)).2,
    ensures
        walk(name).2,
    decreases name.len() - k,
{
    if k == name.len() {
        assert(name.subrange(0, k) =~= name);
    } else {
        lemma_walk_step(name, k);
        lemma_walk_escaped_stays(name, k + 1);
    }
}

/// Whether a path inside an archive would leave the target directory.
pub fn path_escapes(name: &str) -> (r: bool)
    ensures
        r == escapes(name@),
{
    let cs = chars_of(name);
    if cs.len() > 0 && (cs[0] == '/' || cs[0] == '\\') {
        return true;
    }
    let mut depth: usize = 0;
    let mut seg: Vec<char> = Vec::new();
    let mut i: usize = 0;
    while i < cs.len()
        invariant
            cs@ == name@,
            i <= cs@.len(),
            depth <= i,
            walk(name@.subrange(0, i as int)) == (depth as int, seg@, false),
            !(cs@.len() > 0 && is_separator(cs@[0])),
        decreases cs.len() - i,
    {
        proof {
            lemma_walk_step(name@, i as int);
        }
        let c = cs[i];
        if c == '/' || c == '\\' {
            let up = seg.len() == 2 && seg[0] == '.' && seg[1] == '.';
            let stay = seg.len() == 0 || (seg.len() == 1 && seg[0] == '.');
            proof {
                assert(up == (seg@ == seq!['.', '.'])) by {
                    if seg@ == seq!['.', '.'] {
                        assert(seg@[0] == '.' && seg@[1] == '.');
                    }
                    if up {
                        assert(seg@ =~= seq!['.', '.']);
                    }
                }
                assert(stay == (seg@.len() == 0 || seg@ == seq!['.'])) by {
                    if seg@ == seq!['.'] {
                        assert(seg@[0] == '.');
                    }
                    if seg.len() == 1 && seg[0] == '.' {
                        assert(seg@ =~= seq!['.']);
                    }
                }
            }
            if up {
                if depth == 0 {
                    proof {
                        lemma_walk_escaped_stays(name@, i + 1);
                    }
                    return true;
                }
                depth = depth - 1;
            } else if !stay {
                depth = depth + 1;
            }
            seg = Vec::new();
            assert(seg@ =~= Seq::<char>::empty());
        } else if c == ':' {
            proof {
                lemma_walk_escaped_stays(name@, i + 1);
            }
            return true;
        } else {
            seg.push(c);
        }
        i += 1;
    }
    assert(name@.subrange(0, i as int) =~= name@);
    let up = seg.len() == 2 && seg[0] == '.' && seg[1] == '.';
    proof {
        if seg@ == seq!['.', '.'] {
            assert(seg@[0] == '.' && seg@[1] == '.');
        }
        if up {
            assert(seg@ =~= seq!['.', '.']);
        }
    }
    up && depth == 0
}

/// `dir/name`
pub open spec fn target_of(dir: Seq<char>, name: Seq<char>) -> Seq<char> {
    dir + "/"@ + name
}

/// What unpacking one entry does: create a directory, write a regular
/// file, or nothing for anything else.
pub open spec fn entry_ops_of(e: ArchiveEntryView, dir: Seq<char>) -> Seq<ExtractOpView> {
    if e.is_dir {
        seq![ExtractOpView::CreateDir(target_of(dir, e.name))]
    } else if e.is_file {
        seq![ExtractOpView::WriteFile(target_of(dir, e.name), e.data)]
    } else {
        Seq::empty()
    }
}

/// What unpacking the entries into `dir` does, entry by entry; or the name
/// of the first entry whose path leaves `dir`.
pub open spec fn extraction_of(entries: Seq<ArchiveEntryView>, dir: Seq<char>) -> Result<Seq<ExtractOpView>, Seq<char>>
    decreases entries.len(),
{
    if entries.len() == 0 {
        Ok(Seq::empty())
    } else {
        match extraction_of(entries.drop_last(), dir) {
            Err(n) => Err(n),
            Ok(ops) => if escapes(entries.last().name) {
                Err(entries.last().name)
            } else {
                Ok(ops + entry_ops_of(entries.last(), dir))
            },
        }
    }
}

proof fn lemma_extraction_prefix(entries: Seq<ArchiveEntryView>, dir: Seq<char>, k: int, n: Seq<char>)
    requires
        0 <= k <= entries.len(),
        extraction_of(entries.subrange(0, k), dir) == Err::<Seq<ExtractOpView>, Seq<char>>(n),
    ensures
        extraction_of(entries, dir) == Err::<Seq<ExtractOpView>, Seq<char>>(n),
    decreases entries.len() - k,
{
    if k == entries.len() {
        assert(entries.subrange(0, k) =~= entries);
    } else {
        assert(entries.subrange(0, k + 1).drop_last() =~= entries.subrange(0, k));
        lemma_extraction_prefix(entries, dir, k + 1, n);
    }
}

pub open spec fn op_views(ops: Seq<ExtractOp>) -> Seq<ExtractOpView> {
    ops.map_values(|o: ExtractOp| o@)
}

/// Plans the unpacking of `entries` into `dir`. Fails with the name of the
/// first entry whose path leaves `dir`; else lists, entry by entry, the
/// directories to create and the files to write.
pub fn plan_extraction(entries: &Vec<ArchiveEntry>, dir: &str) -> (r: Result<Vec<ExtractOp>, ArchiveError>)
    ensures
        match extraction_of(entry_views(entries@), dir@) {
            Ok(ops) => r matches Ok(x) && op_views(x@) == ops,
            Err(n) => r matches Err(ArchiveError::PathEscape(x)) && x@ == n,
        },
{
    let ghost views = entry_views(entries@);
    let mut ops: Vec<ExtractOp> = Vec::new();
    let mut i: usize = 0;
    assert(op_views(ops@) =~= Seq::<ExtractOpView>::empty());
    assert(views.subrange(0, 0) =~= Seq::<ArchiveEntryView>::empty());
    while i < entries.len()
        invariant
            i <= entries@.len(),
            views == entry_views(entries@),
            extraction_of(views.subrange(0, i as int), dir@) == Ok::<Seq<ExtractOpView>, Seq<char>>(op_views(ops@)),
        decreases entries.len() - i,
    {
        let e = &entries[i];
        proof {
            assert(views.subrange(0, i + 1).drop_last() =~= views.subrange(0, i as int));
            assert(views[i as int] == e@);
        }
        if path_escapes(e.name.as_str()) {
            proof {
                lemma_extraction_prefix(views, dir@, i + 1, e.name@);
            }
            return Err(ArchiveError::PathEscape(e.name.clone()));
        }
        let ghost before = ops@;
        let target = dir.to_string().concat("/").concat(e.name.as_str());
        if e.is_dir {
            ops.push(ExtractOp::CreateDir(target));
        } else if e.is_file {
            let data = e.data.clone();
            assert(data@ =~= e.data@);
            ops.push(ExtractOp::WriteFile(target, data));
        }
        assert(op_views(ops@) =~= op_views(before) + entry_ops_of(e@, dir@));
        i += 1;
    }
    assert(views.subrange(0, i as int) =~= views);
    Ok(ops)
}

/// Reads a zip archive and plans its unpacking into `dir`.
pub fn extract(bytes: &[u8], dir: &str) -> (r: Result<Vec<ExtractOp>, ArchiveError>)
    ensures
        match zip_entries_of(bytes@) {
            None => r matches Err(e) && e == ArchiveError::Malformed,
            Some(es) => match extraction_of(es, dir@) {
                Ok(ops) => r matches Ok(x) && op_views(x@) == ops,
                Err(n) => r matches Err(ArchiveError::PathEscape(x)) && x@ == n,
            },
        },
{
    match read_archive(bytes) {
        Ok(entries) => plan_extraction(&entries, dir),
        Err(e) => Err(e),
    }
}

} // verus!
