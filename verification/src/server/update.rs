//! The decisions behind the update endpoints: reading the version out of a
//! build's `pom.properties`, and whether a newer version is available.

use std::cmp::Ordering;
use vstd::prelude::*;
use crate::data::error::Error;
use crate::repo::jar::{
    archive_entries, index_for_name, names_distinct, open_archive, read_entry, utf8_text, zip_contents,
    EntryView,
};
use vstd::utf8::{decode_utf8, valid_utf8};
use zip::result::ZipError;
use crate::data::version::{parse_version, version_order, Version as DataVersion};
use crate::server::version::{release_order, Version};
use crate::text::{
    chars_equal, chars_of, find_char, first_index, split_chars, split_on, string_of, sub_chars,
    trim, trimmed, views,
};

verus! {

/// The key of a `key=value` line: the text before the first `=`.
pub open spec fn line_key(l: Seq<char>) -> Seq<char> {
    l.take(first_index(l, '='))
}

/// The value of a `key=value` line: the text after the first `=`.
pub open spec fn line_value(l: Seq<char>) -> Seq<char> {
    l.skip(first_index(l, '=') + 1)
}

/// The value of `key` among `lines`: the trimmed value of the last line
/// that holds an `=` and whose trimmed key is `key`.
pub open spec fn lookup_property(lines: Seq<Seq<char>>, key: Seq<char>) -> Option<Seq<char>>
    decreases lines.len(),
{
    if lines.len() == 0 {
        None
    } else {
        let l = lines.last();
        if first_index(l, '=') < l.len() && trim(line_key(l)) == key {
            Some(trim(line_value(l)))
        } else {
            lookup_property(lines.drop_last(), key)
        }
    }
}

/// The value of `key` in a properties text: its lines, split on `=` once,
/// with keys and values trimmed, where a later line wins over an earlier.
pub open spec fn property_value(text: Seq<char>, key: Seq<char>) -> Option<Seq<char>> {
    lookup_property(split_on(text, '\n'), key)
}

/// A newline at the end of a properties text changes no property: the
/// last line counts whether or not a newline ends it.
pub proof fn lemma_property_trailing_newline(text: Seq<char>, key: Seq<char>)
    ensures
        property_value(text + seq!['\n'], key) == property_value(text, key),
{
    let t = text + seq!['\n'];
    assert(t.drop_last() =~= text);
    assert(t.last() == '\n');
    let e = Seq::<char>::empty();
    assert(split_on(t, '\n') == split_on(text, '\n').push(e));
    assert(split_on(text, '\n').push(e).drop_last() =~= split_on(text, '\n'));
}

/// The line `k=v` gives the trimmed `v` as the value of the trimmed `k`,
/// on its own and as the last line after any text, where `k` holds no `=`
/// and neither holds a newline.
pub proof fn lemma_property_line(text: Seq<char>, k: Seq<char>, v: Seq<char>)
    requires
        !k.contains('='),
        !k.contains('\n'),
        !v.contains('\n'),
    ensures
        property_value(k + seq!['='] + v, trim(k)) == Some(trim(v)),
        property_value(text + seq!['\n'] + k + seq!['='] + v, trim(k)) == Some(trim(v)),
{
    let l = k + seq!['='] + v;
    assert(!l.contains('\n')) by {
        if l.contains('\n') {
            let i = choose|i: int| 0 <= i < l.len() && l[i] == '\n';
            if i < k.len() {
                assert(k[i] == '\n');
            } else if i > k.len() {
                assert(v[i - k.len() - 1] == '\n');
            }
        }
    }
    assert forall|i: int| 0 <= i < k.len() implies #[trigger] l[i] != '=' by {
        assert(l[i] == k[i]);
    }
    crate::text::lemma_first_index(l, '=', k.len() as int);
    assert(line_key(l) =~= k);
    assert(line_value(l) =~= v);
    let e = Seq::<char>::empty();
    crate::text::lemma_split_no_sep(e, l, '\n');
    assert(e + l == l);
    assert(split_on(e, '\n') =~= seq![e]);
    assert(split_on(l, '\n') =~= seq![l]);
    let p = text + seq!['\n'];
    assert(p.drop_last() =~= text);
    assert(split_on(p, '\n') == split_on(text, '\n').push(e));
    crate::text::lemma_split_no_sep(p, l, '\n');
    assert(text + seq!['\n'] + k + seq!['='] + v =~= p + l);
    let lines = split_on(p + l, '\n');
    assert(lines.last() =~= l);
}

/// The value of `key` in a properties text, by `property_value`.
pub fn find_property(properties: &str, key: &str) -> (res: Option<String>)
    ensures
        match res {
            Some(v) => property_value(properties@, key@) == Some(v@),
            None => property_value(properties@, key@) is None,
        },
{
    let text = chars_of(properties);
    let wanted = chars_of(key);
    let lines = split_chars(&text, '\n');
    let ghost all = views(lines@);
    let mut i: usize = lines.len();
    assert(all.take(lines.len() as int) == all);
    while i > 0
        invariant
            i <= lines.len(),
            all == views(lines@),
            all == split_on(properties@, '\n'),
            lookup_property(all, key@) == lookup_property(all.take(i as int), key@),
            wanted@ == key@,
        decreases i,
    {
        i = i - 1;
        let line = &lines[i];
        assert(all[i as int] == line@);
        assert(all.take(i + 1).last() == line@);
        assert(all.take(i + 1).drop_last() == all.take(i as int));
        let eq = find_char(line, '=');
        if eq < line.len() {
            let k = trimmed(&sub_chars(line, 0, eq));
            assert(line@.subrange(0, eq as int) == line_key(line@));
            if chars_equal(&k, &wanted) {
                let v = trimmed(&sub_chars(line, eq + 1, line.len()));
                assert(line@.subrange(eq + 1, line@.len() as int) == line_value(line@));
                assert(lookup_property(all.take(i + 1), key@) == Some(trim(line_value(line@))));
                let res = string_of(&v);
                return Some(res);
            }
        }
    }
    None
}

/// The `version` property of a build's `pom.properties` text.
pub fn version_from_properties(properties: &str) -> (res: Option<String>)
    ensures
        match res {
            Some(v) => property_value(properties@, "version"@) == Some(v@),
            None => property_value(properties@, "version"@) is None,
        },
{
    find_property(properties, "version")
}

/// The query of an update check: the client's version.
pub struct AvailableVersionQuery {
    pub version: String,
}

/// Whether a client at version `current` can update to `latest`: an error
/// where `current` is no valid version; otherwise whether it lies before
/// `latest`.
pub fn update_available(current: &str, latest: &str) -> (res: Result<bool, Error>)
    requires
        parse_version(latest@) is Ok,
    ensures
        res == match parse_version(current@) {
            Err(e) => Err(e),
            Ok(c) => Ok(version_order(c, parse_version(latest@).unwrap()) == Ordering::Less),
        },
{
    let current = DataVersion::parse(current)?;
    let latest = match DataVersion::parse(latest) {
        Ok(v) => v,
        Err(_) => {
            assert(false);
            return Ok(false);
        },
    };
    Ok(current < latest)
}

/// Whether a plugin at version `version` needs the update to `last`: it
/// does when its version comes before `last`.
pub fn update_needed(version: &str, last: &Version) -> (res: bool)
    ensures
        res == (release_order(version@, last@) == Ordering::Less),
{
    let current = Version::new(version.to_owned());
    match current.cmp(last) {
        Ordering::Less => true,
        _ => false,
    }
}


/// Where a build of the desktop application keeps its Maven properties.
pub const POM_PROPERTIES: &'static str = "META-INF/maven/org.lebastudios.theroundtable/desktop-app/pom.properties";

/// What opening the entry named `name` gives, where an entry has that
/// name.
pub open spec fn entry_named(entries: Seq<EntryView>, name: Seq<char>) -> Option<
    Option<(bool, Option<Seq<u8>>)>,
> {
    if exists|i: int| 0 <= i < entries.len() && #[trigger] entries[i].0 == name {
        Some(entries[choose|i: int| 0 <= i < entries.len() && #[trigger] entries[i].0 == name].1)
    } else {
        None
    }
}

/// Among entries with distinct names, the entry named `name` is the one
/// at the index that holds that name; there is none exactly where no entry
/// holds it.
pub proof fn lemma_entry_named(entries: Seq<EntryView>, name: Seq<char>, j: int)
    requires
        names_distinct(entries),
    ensures
        0 <= j < entries.len() && entries[j].0 == name ==> entry_named(entries, name) == Some(
            entries[j].1,
        ),
        entry_named(entries, name) is None <==> forall|i: int|
            0 <= i < entries.len() ==> #[trigger] entries[i].0 != name,
{
    if 0 <= j < entries.len() && entries[j].0 == name {
        let k = choose|k: int| 0 <= k < entries.len() && #[trigger] entries[k].0 == name;
        assert(k == j);
    }
}

/// Why the version of a build could not be read.
#[derive(Debug)]
pub enum JarVersionError {
    /// The archive, or its properties entry, cannot be opened.
    Unreadable(ZipError),
    /// The archive has no properties entry.
    MissingEntry,
    /// The properties entry cannot be read as UTF-8 text.
    UnreadableEntry,
    /// The properties have no `version`.
    NoVersion,
}

/// The version of a build of the desktop application: the `version`
/// property of the jar's `pom.properties` entry.
pub fn jar_version(jar: &[u8]) -> (res: Result<String, JarVersionError>)
    ensures
        zip_contents(jar@) is None ==> res matches Err(JarVersionError::Unreadable(_)),
        zip_contents(jar@) matches Some(entries) ==> match entry_named(entries, POM_PROPERTIES@) {
            None => res matches Err(JarVersionError::MissingEntry),
            Some(None) => res matches Err(JarVersionError::Unreadable(_)),
            Some(Some((_, None))) => res matches Err(JarVersionError::UnreadableEntry),
            Some(Some((_, Some(c)))) => if !valid_utf8(c) {
                res matches Err(JarVersionError::UnreadableEntry)
            } else {
                match property_value(decode_utf8(c), "version"@) {
                    Some(v) => res matches Ok(s) && s@ == v,
                    None => res matches Err(JarVersionError::NoVersion),
                }
            },
        },
{
    let bytes = vstd::slice::slice_to_vec(jar);
    let mut archive = match open_archive(bytes) {
        Ok(a) => a,
        Err(e) => return Err(JarVersionError::Unreadable(e)),
    };
    let ghost entries = archive_entries(archive);
    let i = match index_for_name(&archive, POM_PROPERTIES) {
        Some(i) => i,
        None => return Err(JarVersionError::MissingEntry),
    };
    proof {
        let k = choose|k: int| 0 <= k < entries.len() && #[trigger] entries[k].0 == POM_PROPERTIES@;
        assert(entries[i as int].0 == POM_PROPERTIES@);
        assert(k == i);
    }
    let entry = match read_entry(&mut archive, i) {
        Ok(e) => e,
        Err(e) => return Err(JarVersionError::Unreadable(e)),
    };
    let bytes = match entry.content {
        Some(b) => b,
        None => return Err(JarVersionError::UnreadableEntry),
    };
    let text = match utf8_text(bytes) {
        Some(t) => t,
        None => return Err(JarVersionError::UnreadableEntry),
    };
    match version_from_properties(text.as_str()) {
        Some(v) => Ok(v),
        None => Err(JarVersionError::NoVersion),
    }
}

} // verus!
