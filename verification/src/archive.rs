use std::io::Cursor;
use std::io::Read;

use vstd::prelude::*;

verus! {

/// One entry of a Java runtime archive, as read by the code that walks the
/// archive.
#[derive(Debug, PartialEq, Eq)]
pub struct ArchiveEntry {
    /// The entry's path, split into its components, or `None` where the
    /// archive gives no safe relative path for it.
    pub path: Option<Vec<String>>,
    /// The entry is a directory.
    pub is_dir: bool,
    /// The entry's Unix permission bits, where the archive records them.
    pub mode: Option<u32>,
}

/// What to do with one archive entry. Paths are relative to the directory
/// that the runtime is unpacked into, as lists of components.
#[derive(Debug, PartialEq, Eq)]
pub enum EntryAction {
    /// Leave the entry out.
    Skip,
    /// Create this directory, with any missing parents.
    CreateDir { path: Vec<String> },
    /// Create the parent directories, write the entry's contents to this
    /// file, and where `permissions` is given, set them on the file.
    WriteFile { path: Vec<String>, permissions: Option<u32> },
}

/// An entry to unpack: what to do with it, and its contents.
#[derive(Debug, PartialEq, Eq)]
pub struct PlannedEntry {
    pub action: EntryAction,
    pub contents: Vec<u8>,
}

/// At least one of the owner, group and other execute bits is set.
pub open spec fn has_execute_bit(mode: u32) -> bool {
    mode & 0o111 != 0
}

/// The permissions that an unpacked file is given: the archive's own,
/// where it records them and they make the file executable; else none,
/// which leaves the file as it was created.
pub open spec fn spec_kept_permissions(mode: Option<u32>) -> Option<u32> {
    match mode {
        Some(m) => if has_execute_bit(m) {
            Some(m)
        } else {
            None
        },
        None => None,
    }
}

/// The permissions to set on an unpacked file.
pub fn kept_permissions(mode: Option<u32>) -> (res: Option<u32>)
    ensures
        res == spec_kept_permissions(mode),
{
    match mode {
        Some(m) => if m & 0o111 != 0 {
            Some(m)
        } else {
            None
        },
        None => None,
    }
}

/// The entry paths of an `ArchiveEntry`, as sequences of components.
pub open spec fn path_view(path: Option<Vec<String>>) -> Option<Seq<String>> {
    match path {
        Some(p) => Some(p@),
        None => None,
    }
}

/// `action` is what is done with an entry at `path` (split into components),
/// a directory or not, with permission bits `mode`: the archive's top-level
/// directory is stripped from the path; the top-level directory itself, and
/// an entry without a safe path, are skipped; a file keeps its permissions
/// only where they make it executable.
pub open spec fn is_plan_for(
    action: EntryAction,
    path: Option<Seq<String>>,
    is_dir: bool,
    mode: Option<u32>,
) -> bool {
    match path {
        None => action is Skip,
        Some(parts) => if parts.len() <= 1 {
            action is Skip
        } else if is_dir {
            action matches EntryAction::CreateDir { path } && path@ == parts.drop_first()
        } else {
            action matches EntryAction::WriteFile { path, permissions } && path@
                == parts.drop_first() && permissions == spec_kept_permissions(mode)
        },
    }
}

/// Law: a file entry with a path below the archive's top level is written
/// to that path without its first component, and keeps the permissions the
/// archive records exactly when they hold an execute bit, whichever
/// directory the file lies in (`lib/jspawnhelper` as much as `bin/java`).
pub proof fn law_file_permissions_anywhere(
    action: EntryAction,
    parts: Seq<String>,
    mode: Option<u32>,
)
    requires
        parts.len() >= 2,
        is_plan_for(action, Some(parts), false, mode),
    ensures
        action matches EntryAction::WriteFile { path, permissions } && path@ == parts.drop_first()
            && permissions == match mode {
            Some(m) => if m & 0o111 != 0 {
                Some(m)
            } else {
                None
            },
            None => None,
        },
{
}

/// Law: a directory entry with a path below the archive's top level is
/// created at that path without its first component; an entry at the top
/// level is skipped.
pub proof fn law_directories_and_top_level(
    action: EntryAction,
    parts: Seq<String>,
    is_dir: bool,
    mode: Option<u32>,
)
    requires
        is_plan_for(action, Some(parts), is_dir, mode),
    ensures
        parts.len() <= 1 ==> action is Skip,
        parts.len() >= 2 && is_dir ==> (action matches EntryAction::CreateDir { path }
            && path@ == parts.drop_first()),
{
}

/// Law: an entry without a safe path is skipped.
pub proof fn law_unsafe_entry_skipped(action: EntryAction, is_dir: bool, mode: Option<u32>)
    requires
        is_plan_for(action, None, is_dir, mode),
    ensures
        action is Skip,
{
}

/// Decides what to do with one archive entry. The archive's top-level
/// directory (such as `jdk-21.0.2+13-jre/`) is stripped from every path, so
/// the runtime's own tree lands directly in the target directory.
pub fn plan_entry(entry: ArchiveEntry) -> (action: EntryAction)
    ensures
        is_plan_for(action, path_view(entry.path), entry.is_dir, entry.mode),
{
    let ArchiveEntry { path, is_dir, mode } = entry;
    match path {
        None => EntryAction::Skip,
        Some(parts) => {
            if parts.len() <= 1 {
                return EntryAction::Skip;
            }
            let mut rest = parts;
            let _top = rest.remove(0);
            assert(rest@ =~= parts@.drop_first());
            if is_dir {
                EntryAction::CreateDir { path: rest }
            } else {
                EntryAction::WriteFile { path: rest, permissions: kept_permissions(mode) }
            }
        },
    }
}

/// The type flag of a tar header that marks a directory, `'5'`.
pub open spec fn tar_directory_flag() -> u8 {
    0x35
}

/// `tar::Header::entry_type` followed by `tar::EntryType::is_dir`: the entry
/// type is read from byte 156 of the header block, and it is a directory
/// exactly when that byte is `'5'`.
#[verifier::external_body]
fn tar_header_is_dir(header: &[u8; 512]) -> (res: bool)
    ensures
        res == (header@[156] == tar_directory_flag()),
{
    tar::Header::from_byte_slice(header).entry_type().is_dir()
}

/// The permission bits that `tar::Header::mode` reads from a header block,
/// `None` where it reports an error. The field is octal text; how it is read
/// is tar's.
pub uninterp spec fn tar_header_mode(header: Seq<u8>) -> Option<u32>;

/// `tar::Header::mode`, with an error turned into `None`.
#[verifier::external_body]
fn tar_mode(header: &[u8; 512]) -> (res: Option<u32>)
    ensures
        res == tar_header_mode(header@),
{
    tar::Header::from_byte_slice(header).mode().ok()
}

/// Decides what to do with one entry of a tar archive, from its path (split
/// into components) and its header block: whether it is a directory and
/// what permissions it carries are read from the header by `tar`.
pub fn plan_tar_entry(path: Vec<String>, header: &[u8; 512]) -> (action: EntryAction)
    ensures
        is_plan_for(
            action,
            Some(path@),
            header@[156] == tar_directory_flag(),
            tar_header_mode(header@),
        ),
{
    let is_dir = tar_header_is_dir(header);
    let mode = tar_mode(header);
    plan_entry(ArchiveEntry { path: Some(path), is_dir, mode })
}

// ---------------------------------------------------------------------------
// Reading a gzip-compressed tar archive
// ---------------------------------------------------------------------------

/// A tar archive read through a `flate2` gzip decoder from bytes in
/// memory. `tar::Archive` is bounded by `std::io::Read`, which has no
/// specification here, so the archive is held in an opaque struct.
#[verifier::external_body]
pub struct TarGzArchive {
    archive: tar::Archive<flate2::read::GzDecoder<Cursor<Vec<u8>>>>,
}

/// The `tar::Entries` iterator of a `TarGzArchive`, held in an opaque
/// struct for the same reason.
#[verifier::external_body]
pub struct TarGzEntries<'a> {
    entries: tar::Entries<'a, flate2::read::GzDecoder<Cursor<Vec<u8>>>>,
}

/// What `tar` reads of one entry: its path (split into components, each
/// taken as text, with bytes that are not UTF-8 replaced), its header block
/// and its contents; `None` where the entry, its path or its contents could
/// not be read.
pub type TarItem = Option<(Seq<String>, Seq<u8>, Seq<u8>)>;

/// The entries that `tar::Archive::entries` hands out, in order, for an
/// archive whose gzip-compressed bytes are given, each read to its end;
/// `None` where `entries` fails.
pub uninterp spec fn tar_gz_listing(archive: Seq<u8>) -> Option<Seq<TarItem>>;

/// The entries that an opened tar archive holds, as `tar_gz_listing`.
pub uninterp spec fn tar_archive_listing(a: TarGzArchive) -> Option<Seq<TarItem>>;

/// The entries that an entry iterator has still to hand out, as `tar_next`
/// reads them. Where `tar`'s iterator itself reports an error it hands out
/// nothing more; after an entry whose path or contents could not be read,
/// the rest still follow.
pub uninterp spec fn tar_pending(e: TarGzEntries<'_>) -> Seq<TarItem>;

/// `tar::Archive::new` over a `flate2::read::GzDecoder` of the bytes: the
/// archive holds what the bytes list.
#[verifier::external_body]
fn tar_gz_open(archive: Vec<u8>) -> (a: TarGzArchive)
    ensures
        tar_archive_listing(a) == tar_gz_listing(archive@),
{
    TarGzArchive { archive: tar::Archive::new(flate2::read::GzDecoder::new(Cursor::new(archive))) }
}

/// `tar::Archive::entries`: an iterator over what the archive holds, or
/// `None` where the archive cannot be listed.
#[verifier::external_body]
fn tar_entries<'a>(a: &'a mut TarGzArchive) -> (res: Option<TarGzEntries<'a>>)
    ensures
        match res {
            Some(e) => tar_archive_listing(*old(a)) == Some(tar_pending(e)),
            None => tar_archive_listing(*old(a)) is None,
        },
{
    Some(TarGzEntries { entries: a.archive.entries().ok()? })
}

/// The view of what `tar_next` hands out.
pub open spec fn tar_item_view(item: Option<(Vec<String>, [u8; 512], Vec<u8>)>) -> TarItem {
    match item {
        Some((path, header, data)) => Some((path@, header@, data@)),
        None => None,
    }
}

/// `Iterator::next` on `tar::Entries`, with the entry it hands out turned
/// into plain values: `Entry::path` split into components, the header block
/// of `Entry::header`, and the contents read to the end.
#[verifier::external_body]
fn tar_next(e: &mut TarGzEntries<'_>) -> (res: Option<
    Option<(Vec<String>, [u8; 512], Vec<u8>)>,
>)
    ensures
        tar_pending(*old(e)).len() > 0 ==> (res matches Some(item) && tar_item_view(item)
            == tar_pending(*old(e))[0] && tar_pending(*final(e)) == tar_pending(
            *old(e),
        ).drop_first()),
        tar_pending(*old(e)).len() == 0 ==> res is None,
{
    let Ok(mut entry) = e.entries.next()? else { return Some(None) };
    let Ok(path) = entry.path() else { return Some(None) };
    let path: Vec<String> =
        path.components().map(|c| c.as_os_str().to_string_lossy().into_owned()).collect();
    let header = *entry.header().as_bytes();
    let mut data = Vec::new();
    if entry.read_to_end(&mut data).is_err() {
        return Some(None);
    }
    Some(Some((path, header, data)))
}

/// `planned` is what is done with the tar entry `item`: the plan for its
/// path, with the entry type and permissions that its header records, and
/// its contents.
pub open spec fn is_tar_plan_for(planned: PlannedEntry, item: (Seq<String>, Seq<u8>, Seq<u8>)) -> bool {
    &&& is_plan_for(
        planned.action,
        Some(item.0),
        item.1[156] == tar_directory_flag(),
        tar_header_mode(item.1),
    )
    &&& planned.contents@ == item.2
}

/// Reads a gzip-compressed tar archive and decides what to do with each of
/// its entries, in order; `None` where the archive or one of its entries
/// cannot be read.
pub fn plan_tar_gz(archive: Vec<u8>) -> (res: Option<Vec<PlannedEntry>>)
    ensures
        match tar_gz_listing(archive@) {
            None => res is None,
            Some(items) => if forall|k: int| 0 <= k < items.len() ==> (#[trigger] items[k]) is Some {
                res matches Some(plan) && plan@.len() == items.len() && forall|k: int|
                    0 <= k < items.len() ==> is_tar_plan_for(#[trigger] plan@[k], items[k]->0)
            } else {
                res is None
            },
        },
{
    let ghost listing = tar_gz_listing(archive@);
    let mut a = tar_gz_open(archive);
    let mut entries = match tar_entries(&mut a) {
        Some(e) => e,
        None => return None,
    };
    let ghost items = tar_pending(entries);
    let mut plan: Vec<PlannedEntry> = Vec::new();
    loop
        invariant_except_break
            tar_pending(entries) == items.skip(plan@.len() as int),
        invariant
            listing == tar_gz_listing(archive@),
            listing == Some(items),
            plan@.len() <= items.len(),
            forall|k: int| 0 <= k < plan@.len() ==> (#[trigger] items[k]) is Some,
            forall|k: int|
                0 <= k < plan@.len() ==> is_tar_plan_for(#[trigger] plan@[k], items[k]->0),
        ensures
            plan@.len() == items.len(),
            forall|k: int| 0 <= k < items.len() ==> (#[trigger] items[k]) is Some,
            forall|k: int|
                0 <= k < items.len() ==> is_tar_plan_for(#[trigger] plan@[k], items[k]->0),
        decreases tar_pending(entries).len(),
    {
        let ghost before = tar_pending(entries);
        match tar_next(&mut entries) {
            None => {
                assert(before.len() == items.len() - plan@.len());
                break;
            },
            Some(None) => {
                assert(items[plan@.len() as int] == before[0]);
                return None;
            },
            Some(Some((path, header, data))) => {
                let action = plan_tar_entry(path, &header);
                assert(items[plan@.len() as int] == before[0]);
                plan.push(PlannedEntry { action, contents: data });
                assert(items.skip(plan@.len() as int) =~= before.drop_first());
            },
        }
    }
    Some(plan)
}

// ---------------------------------------------------------------------------
// Reading a zip archive
// ---------------------------------------------------------------------------

#[verifier::external_type_specification]
#[verifier::external_body]
#[verifier::reject_recursive_types(T)]
pub struct ExCursor<T>(Cursor<T>);

#[verifier::external_type_specification]
#[verifier::external_body]
#[verifier::reject_recursive_types(R)]
pub struct ExZipArchive<R>(zip::ZipArchive<R>);

/// What `zip` reads of one entry: first, on opening it, its path made
/// safe by `enclosed_name` (split into components) and whether it is a
/// directory, `None` where it cannot be opened; second, its contents read to
/// the end, `None` where they cannot be read.
pub type ZipItem = (Option<(Option<Seq<String>>, bool)>, Option<Seq<u8>>);

/// The entries that `zip::ZipArchive::new` finds in the bytes of an
/// archive, in order, or `None` where it cannot read the archive.
pub uninterp spec fn zip_listing(archive: Seq<u8>) -> Option<Seq<ZipItem>>;

/// The entries that an opened zip archive holds, in order.
pub uninterp spec fn zip_entries(z: zip::ZipArchive<Cursor<Vec<u8>>>) -> Seq<ZipItem>;

/// `zip::ZipArchive::new` over the archive's bytes: the archive holds the
/// entries that the bytes list, and it fails exactly where they list none.
#[verifier::external_body]
fn zip_open(archive: Vec<u8>) -> (res: Option<zip::ZipArchive<Cursor<Vec<u8>>>>)
    ensures
        match res {
            Some(z) => zip_listing(archive@) == Some(zip_entries(z)),
            None => zip_listing(archive@) is None,
        },
{
    zip::ZipArchive::new(Cursor::new(archive)).ok()
}

/// `zip::ZipArchive::len`: the number of entries.
#[verifier::external_body]
fn zip_len(z: &zip::ZipArchive<Cursor<Vec<u8>>>) -> (n: usize)
    ensures
        n == zip_entries(*z).len(),
{
    z.len()
}

/// The view of what `zip_entry` hands out.
pub open spec fn zip_meta_view(meta: Option<(Option<Vec<String>>, bool)>) -> Option<
    (Option<Seq<String>>, bool),
> {
    match meta {
        Some((path, is_dir)) => Some(
            (
                match path {
                    Some(p) => Some(p@),
                    None => None,
                },
                is_dir,
            ),
        ),
        None => None,
    }
}

/// A path component that names an entry inside its directory: not empty,
/// not `.` or `..`, and holding no separator.
pub open spec fn is_plain_name(name: Seq<char>) -> bool {
    &&& name.len() > 0
    &&& name != "."@
    &&& name != ".."@
    &&& forall|i: int| 0 <= i < name.len() ==> name[i] != '/' && name[i] != '\\'
}

/// Every component of `path` is a plain name, so the path leads below the
/// directory it is joined to.
pub open spec fn all_plain_names(path: Seq<String>) -> bool {
    forall|i: int| 0 <= i < path.len() ==> is_plain_name(#[trigger] path[i]@)
}

/// An action writes nothing outside the directory its paths are joined to.
pub open spec fn stays_inside(action: EntryAction) -> bool {
    match action {
        EntryAction::Skip => true,
        EntryAction::CreateDir { path } => all_plain_names(path@),
        EntryAction::WriteFile { path, .. } => all_plain_names(path@),
    }
}

/// `zip::ZipArchive::by_index`, with the entry it opens turned into plain
/// values: `ZipFile::enclosed_name` split into components, and
/// `ZipFile::is_dir`. Opening an entry leaves the archive's entries as they
/// were. `enclosed_name` rebuilds the name from its normal components alone,
/// each free of separators, and gives none where a `..` would climb above
/// the top, so every component it gives is a plain name.
#[verifier::external_body]
fn zip_entry(z: &mut zip::ZipArchive<Cursor<Vec<u8>>>, i: usize) -> (res: Option<
    (Option<Vec<String>>, bool),
>)
    requires
        i < zip_entries(*old(z)).len(),
    ensures
        zip_entries(*final(z)) == zip_entries(*old(z)),
        zip_meta_view(res) == zip_entries(*old(z))[i as int].0,
        res matches Some((Some(path), _)) ==> all_plain_names(path@),
{
    let file = z.by_index(i).ok()?;
    let path = file.enclosed_name().map(
        |p| p.components().map(|c| c.as_os_str().to_string_lossy().into_owned()).collect(),
    );
    Some((path, file.is_dir()))
}

/// The contents of the entry that `zip::ZipArchive::by_index` opens, read
/// to the end. Reading leaves the archive's entries as they were.
#[verifier::external_body]
fn zip_entry_contents(z: &mut zip::ZipArchive<Cursor<Vec<u8>>>, i: usize) -> (res: Option<Vec<u8>>)
    requires
        i < zip_entries(*old(z)).len(),
    ensures
        zip_entries(*final(z)) == zip_entries(*old(z)),
        match res {
            Some(d) => zip_entries(*old(z))[i as int].1 == Some(d@),
            None => zip_entries(*old(z))[i as int].1 is None,
        },
{
    let mut file = z.by_index(i).ok()?;
    let mut data = Vec::new();
    file.read_to_end(&mut data).ok()?;
    Some(data)
}

/// An entry opened as `meta` is written to a file: it has a path below the
/// archive's top level and is not a directory.
pub open spec fn zip_writes_file(meta: (Option<Seq<String>>, bool)) -> bool {
    match meta.0 {
        Some(p) => p.len() > 1 && !meta.1,
        None => false,
    }
}

/// The zip entry `item` can be unpacked: it opens, and where it is written
/// to a file, its contents can be read.
pub open spec fn zip_item_ok(item: ZipItem) -> bool {
    match item.0 {
        Some(meta) => zip_writes_file(meta) ==> item.1 is Some,
        None => false,
    }
}

/// `planned` is what is done with the zip entry `item`: the plan for its
/// safe path (or a skip, where it has none), with no permissions, and, where
/// a file is written, its contents.
pub open spec fn is_zip_plan_for(planned: PlannedEntry, item: ZipItem) -> bool {
    match item.0 {
        Some(meta) => {
            &&& is_plan_for(planned.action, meta.0, meta.1, None)
            &&& planned.contents@ == if zip_writes_file(meta) {
                item.1->0
            } else {
                Seq::<u8>::empty()
            }
        },
        None => false,
    }
}

/// Reads a zip archive and decides what to do with each of its entries, in
/// order; `None` where the archive or one of its entries cannot be opened,
/// or the contents of an entry to be written cannot be read. No planned path
/// leaves the directory it is joined to.
pub fn plan_zip(archive: Vec<u8>) -> (res: Option<Vec<PlannedEntry>>)
    ensures
        res matches Some(plan) ==> forall|k: int|
            0 <= k < plan@.len() ==> stays_inside(#[trigger] plan@[k].action),
        match zip_listing(archive@) {
            None => res is None,
            Some(items) => if forall|k: int| 0 <= k < items.len() ==> zip_item_ok(#[trigger] items[k]) {
                res matches Some(plan) && plan@.len() == items.len() && forall|k: int|
                    0 <= k < items.len() ==> is_zip_plan_for(#[trigger] plan@[k], items[k])
            } else {
                res is None
            },
        },
{
    let ghost listing = zip_listing(archive@);
    let mut z = match zip_open(archive) {
        Some(z) => z,
        None => return None,
    };
    let ghost items = zip_entries(z);
    let n = zip_len(&z);
    let mut plan: Vec<PlannedEntry> = Vec::new();
    let mut i: usize = 0;
    while i < n
        invariant
            n == items.len(),
            i <= n,
            listing == Some(items),
            listing == zip_listing(archive@),
            zip_entries(z) == items,
            plan@.len() == i,
            forall|k: int| 0 <= k < i ==> zip_item_ok(#[trigger] items[k]),
            forall|k: int| 0 <= k < i ==> is_zip_plan_for(#[trigger] plan@[k], items[k]),
            forall|k: int| 0 <= k < i ==> stays_inside(#[trigger] plan@[k].action),
        decreases n - i,
    {
        match zip_entry(&mut z, i) {
            None => {
                assert(!zip_item_ok(zip_listing(archive@)->0[i as int]));
                return None;
            },
            Some((path, is_dir)) => {
                let writes = match &path {
                    Some(p) => p.len() > 1 && !is_dir,
                    None => false,
                };
                let contents = if writes {
                    match zip_entry_contents(&mut z, i) {
                        Some(d) => d,
                        None => {
                            assert(!zip_item_ok(zip_listing(archive@)->0[i as int]));
                            return None;
                        },
                    }
                } else {
                    Vec::new()
                };
                let action = plan_entry(ArchiveEntry { path, is_dir, mode: None });
                plan.push(PlannedEntry { action, contents });
            },
        }
        i = i + 1;
    }
    Some(plan)
}

} // verus!
