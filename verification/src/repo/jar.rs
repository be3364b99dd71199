//! Reading a published plugin jar: its descriptor, and the resources that
//! the repository keeps beside the jar.

use std::io::Cursor;
use vstd::prelude::*;
use vstd::utf8::{decode_utf8, valid_utf8};
use zip::result::ZipError;
use zip::ZipArchive;
use crate::repo::resource::PluginResourceType;
use crate::text::{chars_equal, chars_of, split_chars, split_on, views};

verus! {

/// An archive read from bytes in memory.
#[verifier::external_type_specification]
#[verifier::external_body]
#[verifier::reject_recursive_types(R)]
pub struct ExZipArchive<R>(ZipArchive<R>);

/// A reader over bytes in memory.
#[verifier::external_type_specification]
#[verifier::external_body]
#[verifier::reject_recursive_types(T)]
pub struct ExCursor<T>(Cursor<T>);

/// Why the zip library could not read an archive or an entry.
#[verifier::external_type_specification]
#[verifier::external_body]
pub struct ExZipError(ZipError);

/// An entry of an archive: its name, which the archive's directory always
/// gives, and what opening it gives: `None` where the archive cannot open
/// it; otherwise whether it is a plain file (no directory, no symbolic
/// link), and its bytes, `None` where they cannot be read.
pub type EntryView = (Seq<char>, Option<(bool, Option<Seq<u8>>)>);

/// The entries of the zip archive that `bytes` hold, in the archive's
/// order; `None` where they hold no readable archive.
pub uninterp spec fn zip_contents(bytes: Seq<u8>) -> Option<Seq<(Seq<char>, Option<(bool, Option<Seq<u8>>)>)>>;

/// The entries of an opened archive, in its order.
pub uninterp spec fn archive_entries(a: ZipArchive<Cursor<Vec<u8>>>) -> Seq<(Seq<char>, Option<(bool, Option<Seq<u8>>)>)>;

/// No two entries have the same name.
pub open spec fn names_distinct(entries: Seq<EntryView>) -> bool {
    forall|i: int, j: int|
        0 <= i < entries.len() && 0 <= j < entries.len() && i != j ==> #[trigger] entries[i].0
            != #[trigger] entries[j].0
}

/// An entry of an archive, read.
pub struct JarEntry {
    pub name: String,
    pub is_file: bool,
    pub content: Option<Vec<u8>>,
}

/// Opens the zip archive in `bytes` (`ZipArchive::new` over a
/// `Cursor`): it succeeds exactly when `zip_contents` gives entries, and the
/// archive then holds those entries, under distinct names (the archive
/// keeps its entries in a map keyed by name).
#[verifier::external_body]
pub(crate) fn open_archive(bytes: Vec<u8>) -> (res: Result<ZipArchive<Cursor<Vec<u8>>>, ZipError>)
    ensures
        res is Ok <==> zip_contents(bytes@) is Some,
        res matches Ok(a) ==> archive_entries(a) == zip_contents(bytes@).unwrap(),
        res matches Ok(a) ==> names_distinct(archive_entries(a)),
{
    ZipArchive::new(Cursor::new(bytes))
}

/// The number of entries of an archive (`ZipArchive::len`).
#[verifier::external_body]
pub(crate) fn archive_len(a: &ZipArchive<Cursor<Vec<u8>>>) -> (res: usize)
    ensures
        res == archive_entries(*a).len(),
{
    a.len()
}

/// Reads entry `i` of an archive (`ZipArchive::by_index`, then the entry's
/// name, whether it is a plain file, and its bytes read to the end); the
/// archive keeps its entries.
#[verifier::external_body]
pub(crate) fn read_entry(a: &mut ZipArchive<Cursor<Vec<u8>>>, i: usize) -> (res: Result<JarEntry, ZipError>)
    requires
        i < archive_entries(*old(a)).len(),
    ensures
        archive_entries(*final(a)) == archive_entries(*old(a)),
        match archive_entries(*old(a))[i as int].1 {
            None => res is Err,
            Some((is_file, content)) => res matches Ok(e) && e.name@ == archive_entries(
                *old(a),
            )[i as int].0 && e.is_file == is_file && match content {
                None => e.content is None,
                Some(c) => e.content matches Some(b) && b@ == c,
            },
        },
{
    let mut file = a.by_index(i)?;
    let mut buf: Vec<u8> = Vec::new();
    let content = match std::io::Read::read_to_end(&mut file, &mut buf) {
        Ok(_) => Some(buf),
        Err(_) => None,
    };
    Ok(JarEntry { name: file.name().to_string(), is_file: file.is_file(), content })
}

/// The index of the entry named `name` (`ZipArchive::index_for_name`),
/// `None` where no entry has that name.
#[verifier::external_body]
pub(crate) fn index_for_name(a: &ZipArchive<Cursor<Vec<u8>>>, name: &str) -> (res: Option<usize>)
    ensures
        match res {
            Some(i) => i < archive_entries(*a).len() && archive_entries(*a)[i as int].0 == name@,
            None => forall|i: int|
                0 <= i < archive_entries(*a).len() ==> #[trigger] archive_entries(*a)[i].0 != name@,
        },
{
    a.index_for_name(name)
}

/// The text that UTF-8 `bytes` encode (`String::from_utf8`), `None` where
/// they are no valid UTF-8.
#[verifier::external_body]
pub(crate) fn utf8_text(bytes: Vec<u8>) -> (res: Option<String>)
    ensures
        res is Some <==> valid_utf8(bytes@),
        res matches Some(s) ==> s@ == decode_utf8(bytes@),
{
    String::from_utf8(bytes).ok()
}

/// The last `/`-separated segment of an entry's name.
pub open spec fn entry_segment(name: Seq<char>) -> Seq<char> {
    split_on(name, '/').last()
}

/// The name of the descriptor file inside a jar.
pub open spec fn data_file_name() -> Seq<char> {
    "plugin-data.json"@
}

/// The name of the icon file inside a jar.
pub open spec fn icon_file_name() -> Seq<char> {
    "plugin-icon.png"@
}

/// The entry is the plugin's descriptor: a plain file named
/// `plugin-data.json` (in any folder) whose bytes read as UTF-8 text.
pub open spec fn is_data_entry(e: EntryView) -> bool {
    e.1 matches Some((is_file, Some(c))) && is_file && entry_segment(e.0) == data_file_name()
        && valid_utf8(c)
}

/// The descriptor text of the first descriptor entry from index `i` on.
pub open spec fn first_data_text(entries: Seq<EntryView>, i: int) -> Option<Seq<char>>
    decreases entries.len() - i,
{
    if i < 0 || i >= entries.len() {
        None
    } else if is_data_entry(entries[i]) {
        match entries[i].1 {
            Some((_, Some(c))) => Some(decode_utf8(c)),
            _ => None,
        }
    } else {
        first_data_text(entries, i + 1)
    }
}

/// The descriptor text found from index `i` on is that of the first
/// descriptor entry there, decoded: no entry before it is a descriptor;
/// and none is found exactly where no entry from `i` on is a descriptor.
pub proof fn lemma_first_data_text(entries: Seq<EntryView>, i: int)
    requires
        0 <= i <= entries.len(),
    ensures
        first_data_text(entries, i) is None <==> forall|j: int|
            i <= j < entries.len() ==> !is_data_entry(#[trigger] entries[j]),
        first_data_text(entries, i) matches Some(t) ==> exists|j: int|
            i <= j < entries.len() && is_data_entry(#[trigger] entries[j]) && t == decode_utf8(
                entries[j].1->Some_0.1->Some_0,
            ) && forall|k: int|
                i <= k < j ==> !is_data_entry(#[trigger] entries[k]),
    decreases entries.len() - i,
{
    if i < entries.len() {
        lemma_first_data_text(entries, i + 1);
    }
}

/// Why a jar could not be read as a plugin.
#[derive(Debug)]
pub enum JarError {
    /// The archive, or one of its entries, cannot be opened.
    Unreadable(ZipError),
    /// The bytes of an entry that is needed cannot be read.
    UnreadableEntry,
    /// The jar has no descriptor.
    NoPluginData,
    /// The jar lacks its icon or its descriptor.
    MissingData,
}

/// The last segment of an entry name, compared with `file`.
fn segment_is(name: &String, file: &str) -> (res: bool)
    ensures
        res == (entry_segment(name@) == file@),
{
    let cs = chars_of(name.as_str());
    let pieces = split_chars(&cs, '/');
    proof {
        crate::text::lemma_split_len(name@, '/');
    }
    let last = &pieces[pieces.len() - 1];
    assert(views(pieces@)[pieces.len() - 1] == last@);
    let wanted = chars_of(file);
    chars_equal(last, &wanted)
}

/// The descriptor text of a plugin jar: that of the first entry that is a
/// plain file named `plugin-data.json` and reads as UTF-8 text, entries that
/// cannot be opened or read being passed over.
pub fn plugin_data_json(jar: &[u8]) -> (res: Result<String, JarError>)
    ensures
        zip_contents(jar@) is None ==> res matches Err(JarError::Unreadable(_)),
        zip_contents(jar@) matches Some(entries) ==> match first_data_text(entries, 0) {
            Some(t) => res matches Ok(s) && s@ == t,
            None => res matches Err(JarError::NoPluginData),
        },
{
    let bytes = vstd::slice::slice_to_vec(jar);
    let mut archive = match open_archive(bytes) {
        Ok(a) => a,
        Err(e) => return Err(JarError::Unreadable(e)),
    };
    let ghost entries = archive_entries(archive);
    let n = archive_len(&archive);
    let mut i: usize = 0;
    while i < n
        invariant
            i <= n,
            n == entries.len(),
            entries == archive_entries(archive),
            zip_contents(jar@) == Some(entries),
            first_data_text(entries, 0) == first_data_text(entries, i as int),
        decreases n - i,
    {
        let entry = match read_entry(&mut archive, i) {
            Ok(e) => e,
            Err(_) => {
                i = i + 1;
                continue;
            },
        };
        if entry.is_file && segment_is(&entry.name, "plugin-data.json") {
            match entry.content {
                Some(b) => match utf8_text(b) {
                    Some(text) => return Ok(text),
                    None => {},
                },
                None => {},
            }
        }
        i = i + 1;
    }
    Err(JarError::NoPluginData)
}

/// The resource that an entry's last name segment stands for: the icon for
/// `plugin-icon.png`, the descriptor for `plugin-data.json`.
pub open spec fn resource_for_segment(seg: Seq<char>) -> Option<PluginResourceType> {
    if seg == icon_file_name() {
        Some(PluginResourceType::Icon)
    } else if seg == data_file_name() {
        Some(PluginResourceType::Data)
    } else {
        None
    }
}

/// An entry named `plugin-icon.png` or `plugin-data.json`, in any folder,
/// stands for the icon or the descriptor.
pub proof fn lemma_resource_for_path(dir: Seq<char>)
    ensures
        resource_for_segment(entry_segment(dir + seq!['/'] + icon_file_name())) == Some(
            PluginResourceType::Icon,
        ),
        resource_for_segment(entry_segment(dir + seq!['/'] + data_file_name())) == Some(
            PluginResourceType::Data,
        ),
        resource_for_segment(entry_segment(icon_file_name())) == Some(PluginResourceType::Icon),
        resource_for_segment(entry_segment(data_file_name())) == Some(PluginResourceType::Data),
{
    reveal_strlit("plugin-icon.png");
    reveal_strlit("plugin-data.json");
    let e = Seq::<char>::empty();
    assert(!icon_file_name().contains('/'));
    assert(!data_file_name().contains('/'));
    let dp = dir.push('/');
    crate::text::lemma_split_len(dir, '/');
    assert(dp.drop_last() == dir);
    assert(split_on(dp, '/') == split_on(dir, '/').push(e));
    crate::text::lemma_split_no_sep(dp, icon_file_name(), '/');
    crate::text::lemma_split_no_sep(dp, data_file_name(), '/');
    assert(dir + seq!['/'] + icon_file_name() =~= dp + icon_file_name());
    assert(dir + seq!['/'] + data_file_name() =~= dp + data_file_name());
    assert(e + icon_file_name() =~= icon_file_name());
    assert(e + data_file_name() =~= data_file_name());
    crate::text::lemma_split_no_sep(e, icon_file_name(), '/');
    crate::text::lemma_split_no_sep(e, data_file_name(), '/');
    assert(split_on(e, '/') =~= seq![e]);
    assert(icon_file_name() != data_file_name()) by {
        assert(icon_file_name()[7] != data_file_name()[7]);
    }
}

/// Why collecting a jar's resources stopped.
pub enum CollectFailure {
    /// An entry cannot be opened.
    EntryUnopenable,
    /// A file that is kept cannot be read.
    ContentUnreadable,
}

/// The resources to keep from the first `n` entries, in order: every plain
/// file entry whose last name segment stands for a resource, with its
/// bytes; the first failure where an entry cannot be opened, or such a
/// file's bytes cannot be read.
pub open spec fn collected_resources(entries: Seq<EntryView>, n: int) -> Result<
    Seq<(PluginResourceType, Seq<u8>)>,
    CollectFailure,
>
    decreases n,
{
    if n <= 0 || n > entries.len() {
        Ok(Seq::empty())
    } else {
        match collected_resources(entries, n - 1) {
            Err(f) => Err(f),
            Ok(prev) => match entries[n - 1].1 {
                None => Err(CollectFailure::EntryUnopenable),
                Some((is_file, content)) => if !is_file || resource_for_segment(
                    entry_segment(entries[n - 1].0),
                ) is None {
                    Ok(prev)
                } else {
                    match content {
                        None => Err(CollectFailure::ContentUnreadable),
                        Some(c) => Ok(
                            prev.push(
                                (resource_for_segment(entry_segment(entries[n - 1].0)).unwrap(), c),
                            ),
                        ),
                    }
                },
            },
        }
    }
}

/// Once collecting fails it stays failed, with the same failure, for
/// longer prefixes.
pub proof fn lemma_collected_failure_stays(entries: Seq<EntryView>, n: int, m: int)
    requires
        0 < n <= m <= entries.len(),
        collected_resources(entries, n) is Err,
    ensures
        collected_resources(entries, m) == collected_resources(entries, n),
    decreases m - n,
{
    if n < m {
        lemma_collected_failure_stays(entries, n, m - 1);
    }
}

/// Collecting keeps whole files: every resource collected from the first
/// `n` entries is the full content of one of them, a readable plain file
/// whose last name segment stands for that resource; and every such entry
/// is collected, with its full content.
pub proof fn lemma_collected_resources_whole(entries: Seq<EntryView>, n: int)
    requires
        0 <= n <= entries.len(),
        collected_resources(entries, n) is Ok,
    ensures
        ({
            let found = collected_resources(entries, n)->Ok_0;
            &&& forall|k: int|
                0 <= k < found.len() ==> exists|j: int|
                    0 <= j < n && entries[j].1 == Some((true, Some(#[trigger] found[k].1)))
                        && resource_for_segment(entry_segment(entries[j].0)) == Some(found[k].0)
            &&& forall|j: int|
                0 <= j < n && (#[trigger] entries[j].1 matches Some((true, Some(c))))
                    && resource_for_segment(entry_segment(entries[j].0)) is Some ==> exists|k: int|
                    0 <= k < found.len() && found[k] == (
                        resource_for_segment(entry_segment(entries[j].0)).unwrap(),
                        entries[j].1->Some_0.1->Some_0,
                    )
        }),
    decreases n,
{
    if n > 0 {
        lemma_collected_resources_whole(entries, n - 1);
        let prev = collected_resources(entries, n - 1)->Ok_0;
        let found = collected_resources(entries, n)->Ok_0;
        let last = entries[n - 1];
        if found != prev {
            let r = resource_for_segment(entry_segment(last.0)).unwrap();
            let c = last.1->Some_0.1->Some_0;
            assert(found == prev.push((r, c)));
            assert forall|k: int| 0 <= k < found.len() implies exists|j: int|
                0 <= j < n && entries[j].1 == Some((true, Some(#[trigger] found[k].1)))
                    && resource_for_segment(entry_segment(entries[j].0)) == Some(found[k].0) by {
                if k < prev.len() {
                    assert(found[k] == prev[k]);
                } else {
                    assert(found[k] == (r, c));
                    assert(entries[n - 1].1 == Some((true, Some(found[k].1))));
                }
            }
            assert forall|j: int|
                0 <= j < n && (#[trigger] entries[j].1 matches Some((true, Some(c))))
                    && resource_for_segment(entry_segment(entries[j].0)) is Some implies exists|k: int|
                0 <= k < found.len() && found[k] == (
                    resource_for_segment(entry_segment(entries[j].0)).unwrap(),
                    entries[j].1->Some_0.1->Some_0,
                ) by {
                if j < n - 1 {
                    let k = choose|k: int|
                        0 <= k < prev.len() && prev[k] == (
                            resource_for_segment(entry_segment(entries[j].0)).unwrap(),
                            entries[j].1->Some_0.1->Some_0,
                        );
                    assert(found[k] == prev[k]);
                } else {
                    assert(found[prev.len() as int] == (r, c));
                }
            }
        } else {
            assert forall|k: int| 0 <= k < found.len() implies exists|j: int|
                0 <= j < n && entries[j].1 == Some((true, Some(#[trigger] found[k].1)))
                    && resource_for_segment(entry_segment(entries[j].0)) == Some(found[k].0) by {
                assert(found[k] == prev[k]);
            }
        }
    }
}

/// The views of collected resources.
pub open spec fn resource_views(v: Seq<(PluginResourceType, Vec<u8>)>) -> Seq<
    (PluginResourceType, Seq<u8>),
> {
    v.map_values(|r: (PluginResourceType, Vec<u8>)| (r.0, r.1@))
}

/// The resources to keep from a plugin jar, in the order of its entries:
/// an error where the archive or a needed entry cannot be read, and
/// `MissingData` unless exactly two entries (the icon and the descriptor)
/// were found.
pub fn jar_resources(jar: &[u8]) -> (res: Result<Vec<(PluginResourceType, Vec<u8>)>, JarError>)
    ensures
        zip_contents(jar@) is None ==> res matches Err(JarError::Unreadable(_)),
        zip_contents(jar@) matches Some(entries) ==> match collected_resources(
            entries,
            entries.len() as int,
        ) {
            Err(CollectFailure::EntryUnopenable) => res matches Err(JarError::Unreadable(_)),
            Err(CollectFailure::ContentUnreadable) => res matches Err(JarError::UnreadableEntry),
            Ok(found) => if found.len() == 2 {
                res matches Ok(v) && resource_views(v@) == found
            } else {
                res matches Err(JarError::MissingData)
            },
        },
{
    let bytes = vstd::slice::slice_to_vec(jar);
    let mut archive = match open_archive(bytes) {
        Ok(a) => a,
        Err(e) => return Err(JarError::Unreadable(e)),
    };
    let ghost entries = archive_entries(archive);
    let n = archive_len(&archive);
    let mut found: Vec<(PluginResourceType, Vec<u8>)> = Vec::new();
    assert(resource_views(found@) =~= Seq::<(PluginResourceType, Seq<u8>)>::empty());
    let mut i: usize = 0;
    while i < n
        invariant
            i <= n,
            n == entries.len(),
            entries == archive_entries(archive),
            zip_contents(jar@) == Some(entries),
            collected_resources(entries, i as int) == Ok::<Seq<(PluginResourceType, Seq<u8>)>, CollectFailure>(resource_views(found@)),
        decreases n - i,
    {
        let entry = match read_entry(&mut archive, i) {
            Ok(e) => e,
            Err(e) => {
                proof {
                    lemma_collected_failure_stays(entries, i + 1, n as int);
                }
                return Err(JarError::Unreadable(e));
            },
        };
        if entry.is_file {
            let kind = if segment_is(&entry.name, "plugin-icon.png") {
                Some(PluginResourceType::Icon)
            } else if segment_is(&entry.name, "plugin-data.json") {
                Some(PluginResourceType::Data)
            } else {
                None
            };
            match kind {
                Some(k) => match entry.content {
                    Some(b) => {
                        let ghost before = found@;
                        found.push((k, b));
                        assert(resource_views(found@) =~= resource_views(before).push((k, b@)));
                        assert(collected_resources(entries, i + 1) == Ok::<
                            Seq<(PluginResourceType, Seq<u8>)>,
                            CollectFailure,
                        >(resource_views(found@)));
                    },
                    None => {
                        proof {
                            lemma_collected_failure_stays(entries, i + 1, n as int);
                        }
                        return Err(JarError::UnreadableEntry);
                    },
                },
                None => {},
            }
        }
        i = i + 1;
    }
    if found.len() != 2 {
        return Err(JarError::MissingData);
    }
    Ok(found)
}

} // verus!
