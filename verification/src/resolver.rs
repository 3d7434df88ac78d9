//! The library resolver: turns the directories that the scanner found, and
//! what is known of each on disk, into the list of native library files.

use vstd::prelude::*;
use crate::error::{ErrorView, PipelineError};
use crate::paths::{join, joined};
use crate::platform::HostPlatform;
use crate::scanner::{
    all_tokens, in_section, lemma_flags_before_section_ignored, lemma_flags_in_section_reported,
    names_unit, section_tokens,
};
use crate::text::{
    chars_of, contains_text, distinct, distinct_strings, has_text, lemma_distinct,
    lemma_distinct_absorbs, push_string, same_text, slice_of, strings,
};

verus! {

/// One entry of a directory, as it was found on disk.
#[derive(Debug, Clone, PartialEq, Eq)]
pub struct DirectoryEntry {
    /// The entry's file name.
    pub name: String,
    /// Whether the entry is a regular file.
    pub is_file: bool,
}

/// A `DirectoryEntry` as plain values.
pub struct EntryView {
    pub name: Seq<char>,
    pub is_file: bool,
}

impl View for DirectoryEntry {
    type V = EntryView;

    open spec fn view(&self) -> EntryView {
        EntryView { name: self.name@, is_file: self.is_file }
    }
}

/// What was found on disk where a candidate directory should be.
#[derive(Debug, Clone, PartialEq, Eq)]
pub enum DirectoryProbe {
    /// Nothing is there.
    Missing,
    /// Something is there, and it is no directory.
    NotADirectory,
    /// A directory is there and could not be listed; with the reason.
    Unreadable(String),
    /// A directory is there; with its canonical path, and its entries, not
    /// those of directories in it.
    Entries { canonical: String, entries: Vec<DirectoryEntry> },
}

/// A `DirectoryProbe` as plain values.
pub enum ProbeView {
    Missing,
    NotADirectory,
    Unreadable(Seq<char>),
    Entries { canonical: Seq<char>, entries: Seq<EntryView> },
}

/// The entries of a sequence as plain values.
pub open spec fn entry_views(entries: Seq<DirectoryEntry>) -> Seq<EntryView> {
    entries.map_values(|e: DirectoryEntry| e@)
}

impl View for DirectoryProbe {
    type V = ProbeView;

    open spec fn view(&self) -> ProbeView {
        match self {
            DirectoryProbe::Missing => ProbeView::Missing,
            DirectoryProbe::NotADirectory => ProbeView::NotADirectory,
            DirectoryProbe::Unreadable(reason) => ProbeView::Unreadable(reason@),
            DirectoryProbe::Entries { canonical, entries } => ProbeView::Entries {
                canonical: canonical@,
                entries: entry_views(entries@),
            },
        }
    }
}

/// The probes of a sequence as plain values.
pub open spec fn probe_views(probes: Seq<DirectoryProbe>) -> Seq<ProbeView> {
    probes.map_values(|p: DirectoryProbe| p@)
}

/// The position of the last dot before position `n` of a name; -1 if there
/// is none.
pub open spec fn last_dot(name: Seq<char>, n: int) -> int
    decreases n,
{
    if 0 < n <= name.len() {
        if name[n - 1] == '.' {
            n - 1
        } else {
            last_dot(name, n - 1)
        }
    } else {
        -1
    }
}

/// The extension of a file name: what follows its last dot. A name without a
/// dot has none, and neither has a name whose only dot is its first
/// character.
pub open spec fn extension_of(name: Seq<char>) -> Option<Seq<char>> {
    let dot = last_dot(name, name.len() as int);
    if dot <= 0 {
        None
    } else {
        Some(name.skip(dot + 1))
    }
}

/// Whether an extension marks a native library on a platform.
pub open spec fn is_library_extension(platform: HostPlatform, extension: Seq<char>) -> bool {
    if platform == HostPlatform::Windows {
        extension == seq!['l', 'i', 'b'] || extension == seq!['d', 'l', 'l']
    } else {
        extension == seq!['a'] || extension == seq!['s', 'o']
    }
}

/// The part of a file name that marks a dynamic library wherever it stands
/// in the name.
pub open spec fn dylib_mark() -> Seq<char> {
    seq!['.', 'd', 'y', 'l', 'i', 'b']
}

/// Whether a file name is that of a native library on a platform.
pub open spec fn is_library_name(platform: HostPlatform, name: Seq<char>) -> bool {
    ||| extension_of(name) matches Some(extension) && is_library_extension(platform, extension)
    ||| platform != HostPlatform::Windows && contains_text(name, dylib_mark())
}

/// The native library files among the entries of a directory, as paths.
pub open spec fn entry_files(
    platform: HostPlatform,
    dir: Seq<char>,
    entries: Seq<EntryView>,
) -> Seq<Seq<char>>
    decreases entries.len(),
{
    if entries.len() == 0 {
        Seq::empty()
    } else {
        let before = entry_files(platform, dir, entries.drop_last());
        let entry = entries.last();
        if entry.is_file && is_library_name(platform, entry.name) {
            before.push(joined(platform, dir, entry.name))
        } else {
            before
        }
    }
}

/// The native library files that a probe shows in a directory, as paths
/// below the directory's canonical path.
pub open spec fn probe_files(platform: HostPlatform, probe: ProbeView) -> Seq<Seq<char>> {
    match probe {
        ProbeView::Entries { canonical, entries } => entry_files(platform, canonical, entries),
        _ => Seq::empty(),
    }
}

/// The native library files that the probes show, each as often as it was
/// found.
pub open spec fn found_files(platform: HostPlatform, probes: Seq<ProbeView>) -> Seq<Seq<char>>
    decreases probes.len(),
{
    if probes.len() == 0 {
        Seq::empty()
    } else {
        found_files(platform, probes.drop_last()) + probe_files(platform, probes.last())
    }
}

/// The reason given by the first probe that could not list its directory.
pub open spec fn first_unreadable(probes: Seq<ProbeView>) -> Option<Seq<char>>
    decreases probes.len(),
{
    if probes.len() == 0 {
        None
    } else {
        match first_unreadable(probes.drop_last()) {
            Some(reason) => Some(reason),
            None => match probes.last() {
                ProbeView::Unreadable(reason) => Some(reason),
                _ => None,
            },
        }
    }
}

/// The directory that a probe found where a candidate should be, if it
/// found one: the canonical path of a directory that was listed, and the
/// candidate as it is written for a directory that could not be listed.
pub open spec fn probed_directory(dir: Seq<char>, probe: ProbeView) -> Option<Seq<char>> {
    match probe {
        ProbeView::Entries { canonical, entries: _ } => Some(canonical),
        ProbeView::Unreadable(_) => Some(dir),
        _ => None,
    }
}

/// The directories that the probes found, each as often as it was found.
pub open spec fn probed_directories(dirs: Seq<Seq<char>>, probes: Seq<ProbeView>) -> Seq<
    Seq<char>,
>
    decreases dirs.len(),
{
    if dirs.len() == 0 || probes.len() != dirs.len() {
        Seq::empty()
    } else {
        let before = probed_directories(dirs.drop_last(), probes.drop_last());
        match probed_directory(dirs.last(), probes.last()) {
            Some(dir) => before.push(dir),
            None => before,
        }
    }
}

/// The candidates that are existing directories, each once: a candidate
/// where nothing is, or something that is no directory, is left out, and
/// two candidates that lead to one directory count once.
pub open spec fn existing_directories(dirs: Seq<Seq<char>>, probes: Seq<ProbeView>) -> Seq<
    Seq<char>,
> {
    distinct(probed_directories(dirs, probes))
}

/// The native library files of the directories: each file once, in the
/// order in which it was first found. A file is known by the canonical path
/// of its directory and its name, so a directory that was reached by two
/// spellings gives its files once.
pub open spec fn library_files(platform: HostPlatform, probes: Seq<ProbeView>) -> Seq<
    Seq<char>,
> {
    distinct(found_files(platform, probes))
}

/// Tests whether a file name is that of a native library on a platform.
pub fn is_native_library(platform: HostPlatform, name: &str) -> (is_library: bool)
    ensures
        is_library == is_library_name(platform, name@),
{
    let chars = chars_of(name);
    let mut n: usize = chars.len();
    while n > 0 && chars[n - 1] != '.'
        invariant
            n <= chars.len(),
            last_dot(chars@, chars.len() as int) == last_dot(chars@, n as int),
        decreases n,
    {
        n = n - 1;
    }
    let mut by_extension = false;
    if n > 1 {
        let extension = slice_of(&chars, n, chars.len());
        assert(extension_of(chars@) == Some(extension@));
        match platform {
            HostPlatform::Windows => {
                let lib = vec!['l', 'i', 'b'];
                let dll = vec!['d', 'l', 'l'];
                assert(lib@ =~= seq!['l', 'i', 'b']);
                assert(dll@ =~= seq!['d', 'l', 'l']);
                by_extension = same_text(&extension, &lib) || same_text(&extension, &dll);
            },
            _ => {
                let a = vec!['a'];
                let so = vec!['s', 'o'];
                assert(a@ =~= seq!['a']);
                assert(so@ =~= seq!['s', 'o']);
                by_extension = same_text(&extension, &a) || same_text(&extension, &so);
            },
        }
    } else {
        assert(extension_of(chars@) is None);
    }
    if by_extension {
        return true;
    }
    match platform {
        HostPlatform::Windows => false,
        _ => {
            let mark = vec!['.', 'd', 'y', 'l', 'i', 'b'];
            assert(mark@ =~= dylib_mark());
            has_text(&chars, &mark)
        },
    }
}

/// Appends to `files` the paths of the native library files among the
/// entries of a directory.
pub fn collect_entry_files(
    platform: HostPlatform,
    dir: &str,
    entries: &Vec<DirectoryEntry>,
    files: &mut Vec<String>,
)
    ensures
        strings(final(files)@) == strings(old(files)@) + entry_files(
            platform,
            dir@,
            entry_views(entries@),
        ),
{
    let ghost views = entry_views(entries@);
    let mut i: usize = 0;
    assert(strings(files@) =~= strings(old(files)@) + entry_files(platform, dir@, views.take(0)));
    while i < entries.len()
        invariant
            i <= entries.len(),
            views == entry_views(entries@),
            strings(files@) == strings(old(files)@) + entry_files(
                platform,
                dir@,
                views.take(i as int),
            ),
        decreases entries.len() - i,
    {
        let entry = &entries[i];
        proof {
            assert(views.take(i + 1).drop_last() =~= views.take(i as int));
            assert(views.take(i + 1).last() == entry@);
        }
        if entry.is_file && is_native_library(platform, entry.name.as_str()) {
            let path = join(platform, dir, entry.name.as_str());
            let ghost before = files@;
            files.push(path);
            assert(strings(files@) =~= strings(before).push(path@));
            assert(strings(files@) =~= strings(old(files)@) + entry_files(
                platform,
                dir@,
                views.take(i + 1),
            ));
        }
        i = i + 1;
    }
    assert(views.take(entries.len() as int) =~= views);
}

/// What resolving gives: the native library files of the directories, or
/// why there is no such list. A probe must be there for each directory, and
/// a directory that could not be listed fails the whole resolution.
pub open spec fn resolution(
    platform: HostPlatform,
    dirs: Seq<Seq<char>>,
    probes: Seq<ProbeView>,
) -> Result<Seq<Seq<char>>, ErrorView> {
    if dirs.len() != probes.len() {
        Err(ErrorView::UnexpectedEvent)
    } else {
        match first_unreadable(probes) {
            Some(reason) => Err(ErrorView::FilesystemError { detail: reason }),
            None => Ok(library_files(platform, probes)),
        }
    }
}

/// A probe that could not list its directory decides `first_unreadable` for
/// every longer sequence of probes.
pub proof fn lemma_unreadable_stays(probes: Seq<ProbeView>, n: int)
    requires
        0 <= n <= probes.len(),
        first_unreadable(probes.take(n)) is Some,
    ensures
        first_unreadable(probes) == first_unreadable(probes.take(n)),
    decreases probes.len() - n,
{
    if n < probes.len() {
        assert(probes.take(n + 1).drop_last() =~= probes.take(n));
        lemma_unreadable_stays(probes, n + 1);
    } else {
        assert(probes.take(n) =~= probes);
    }
}

/// The candidates that are existing directories, given a probe of each.
pub fn search_directories(dirs: &Vec<String>, probes: &Vec<DirectoryProbe>) -> (found: Vec<
    String,
>)
    ensures
        strings(found@) == existing_directories(strings(dirs@), probe_views(probes@)),
{
    let mut found: Vec<String> = Vec::new();
    if dirs.len() != probes.len() {
        assert(strings(found@) =~= Seq::<Seq<char>>::empty());
        return distinct_strings(found);
    }
    let ghost dv = strings(dirs@);
    let ghost pv = probe_views(probes@);
    let mut i: usize = 0;
    assert(strings(found@) =~= probed_directories(dv.take(0), pv.take(0)));
    while i < dirs.len()
        invariant
            i <= dirs.len(),
            dirs.len() == probes.len(),
            dv == strings(dirs@),
            pv == probe_views(probes@),
            strings(found@) == probed_directories(dv.take(i as int), pv.take(i as int)),
        decreases dirs.len() - i,
    {
        proof {
            assert(dv.take(i + 1).drop_last() =~= dv.take(i as int));
            assert(pv.take(i + 1).drop_last() =~= pv.take(i as int));
            assert(pv.take(i + 1).last() == probes@[i as int]@);
            assert(dv.take(i + 1).last() == dirs@[i as int]@);
        }
        match &probes[i] {
            DirectoryProbe::Entries { canonical, entries: _ } => {
                push_string(&mut found, canonical.clone());
            },
            DirectoryProbe::Unreadable(_) => {
                push_string(&mut found, dirs[i].clone());
            },
            _ => {},
        }
        i = i + 1;
    }
    assert(dv.take(dirs.len() as int) =~= dv);
    assert(pv.take(dirs.len() as int) =~= pv);
    distinct_strings(found)
}

/// Resolves the directories into native library files: the regular files in
/// them whose names are those of native libraries on the platform, each
/// once, as paths below the canonical paths of the directories.
pub fn resolve_libraries(
    platform: HostPlatform,
    dirs: &Vec<String>,
    probes: &Vec<DirectoryProbe>,
) -> (found: Result<Vec<String>, PipelineError>)
    ensures
        match resolution(platform, strings(dirs@), probe_views(probes@)) {
            Ok(files) => found matches Ok(f) && strings(f@) == files,
            Err(error) => found matches Err(e) && e@ == error,
        },
{
    if dirs.len() != probes.len() {
        return Err(PipelineError::UnexpectedEvent);
    }
    let ghost pv = probe_views(probes@);
    let mut files: Vec<String> = Vec::new();
    let mut i: usize = 0;
    assert(strings(files@) =~= found_files(platform, pv.take(0)));
    while i < dirs.len()
        invariant
            i <= dirs.len(),
            dirs.len() == probes.len(),
            pv == probe_views(probes@),
            first_unreadable(pv.take(i as int)) is None,
            strings(files@) == found_files(platform, pv.take(i as int)),
        decreases dirs.len() - i,
    {
        proof {
            assert(pv.take(i + 1).drop_last() =~= pv.take(i as int));
            assert(pv.take(i + 1).last() == probes@[i as int]@);
        }
        match &probes[i] {
            DirectoryProbe::Unreadable(reason) => {
                proof {
                    lemma_unreadable_stays(pv, i + 1);
                }
                return Err(PipelineError::FilesystemError { detail: reason.clone() });
            },
            DirectoryProbe::Entries { canonical, entries } => {
                collect_entry_files(platform, canonical.as_str(), entries, &mut files);
            },
            _ => {
                assert(strings(files@) + Seq::<Seq<char>>::empty() =~= strings(files@));
            },
        }
        i = i + 1;
    }
    assert(pv.take(dirs.len() as int) =~= pv);
    Ok(distinct_strings(files))
}

/// The native libraries of two builds together, each once.
pub fn merge_libraries(first: Vec<String>, second: Vec<String>) -> (merged: Vec<String>)
    ensures
        strings(merged@) == distinct(strings(first@) + strings(second@)),
{
    let mut all = first;
    let mut rest = second;
    let ghost before = strings(all@);
    let ghost added = strings(rest@);
    all.append(&mut rest);
    assert(strings(all@) =~= before + added);
    distinct_strings(all)
}

/// Whether `file` is a native library among the entries of a directory:
/// the path of a regular file whose name is that of a native library.
pub open spec fn found_in(
    platform: HostPlatform,
    dir: Seq<char>,
    entries: Seq<EntryView>,
    file: Seq<char>,
) -> bool {
    exists|k: int|
        #![trigger entries[k]]
        0 <= k < entries.len() && entries[k].is_file && is_library_name(platform, entries[k].name)
            && file == joined(platform, dir, entries[k].name)
}

/// Whether `file` is a native library in the directory of the `i`-th
/// probe.
pub open spec fn found_at(platform: HostPlatform, probes: Seq<ProbeView>, i: int, file: Seq<char>) -> bool {
    probes[i] matches ProbeView::Entries { canonical, entries } && found_in(
        platform,
        canonical,
        entries,
        file,
    )
}

/// Whether `file` is a native library in one of the directories.
pub open spec fn found_somewhere(
    platform: HostPlatform,
    probes: Seq<ProbeView>,
    file: Seq<char>,
) -> bool {
    exists|i: int| 0 <= i < probes.len() && #[trigger] found_at(platform, probes, i, file)
}

/// The files taken from the entries of a directory are exactly the regular
/// files in it whose names are those of native libraries.
pub proof fn lemma_entry_files(
    platform: HostPlatform,
    dir: Seq<char>,
    entries: Seq<EntryView>,
    file: Seq<char>,
)
    ensures
        entry_files(platform, dir, entries).contains(file) <==> found_in(
            platform,
            dir,
            entries,
            file,
        ),
    decreases entries.len(),
{
    if entries.len() > 0 {
        let front = entries.drop_last();
        let last = entries.last();
        let before = entry_files(platform, dir, front);
        let all = entry_files(platform, dir, entries);
        let taken = last.is_file && is_library_name(platform, last.name);
        lemma_entry_files(platform, dir, front, file);
        if all.contains(file) {
            let j = choose|j: int| 0 <= j < all.len() && all[j] == file;
            if j < before.len() {
                assert(before[j] == file);
                assert(before.contains(file));
                let k = choose|k: int|
                    #![trigger front[k]]
                    0 <= k < front.len() && front[k].is_file && is_library_name(
                        platform,
                        front[k].name,
                    ) && file == joined(platform, dir, front[k].name);
                assert(entries[k] == front[k]);
            } else {
                assert(taken);
                assert(entries[entries.len() - 1] == last);
            }
            assert(found_in(platform, dir, entries, file));
        }
        if found_in(platform, dir, entries, file) {
            let k = choose|k: int|
                #![trigger entries[k]]
                0 <= k < entries.len() && entries[k].is_file && is_library_name(
                    platform,
                    entries[k].name,
                ) && file == joined(platform, dir, entries[k].name);
            if k < front.len() {
                assert(front[k] == entries[k]);
                assert(found_in(platform, dir, front, file));
                let j = choose|j: int| 0 <= j < before.len() && before[j] == file;
                assert(all[j] == file);
            } else {
                assert(all[before.len() as int] == file);
            }
            assert(all.contains(file));
        }
    }
}

/// The files that resolving finds are exactly the native libraries in the
/// directories: nothing whose name does not follow the platform's
/// conventions is among them.
pub proof fn lemma_found_files(platform: HostPlatform, probes: Seq<ProbeView>, file: Seq<char>)
    ensures
        found_files(platform, probes).contains(file) <==> found_somewhere(platform, probes, file),
    decreases probes.len(),
{
    if probes.len() > 0 {
        let front = probes.drop_last();
        let before = found_files(platform, front);
        let here = probe_files(platform, probes.last());
        let all = found_files(platform, probes);
        let n = probes.len() - 1;
        lemma_found_files(platform, front, file);
        match probes.last() {
            ProbeView::Entries { canonical, entries } => {
                lemma_entry_files(platform, canonical, entries, file);
            },
            _ => {},
        }
        assert(here.contains(file) <==> found_at(platform, probes, n, file));
        if all.contains(file) {
            let j = choose|j: int| 0 <= j < all.len() && all[j] == file;
            if j < before.len() {
                assert(before[j] == file);
                assert(before.contains(file));
                let i = choose|i: int|
                    0 <= i < front.len() && #[trigger] found_at(platform, front, i, file);
                assert(front[i] == probes[i]);
                assert(found_at(platform, probes, i, file));
            } else {
                assert(here[j - before.len()] == file);
                assert(here.contains(file));
            }
            assert(found_somewhere(platform, probes, file));
        }
        if found_somewhere(platform, probes, file) {
            let i = choose|i: int|
                0 <= i < probes.len() && #[trigger] found_at(platform, probes, i, file);
            if i < n {
                assert(front[i] == probes[i]);
                assert(found_at(platform, front, i, file));
                let j = choose|j: int| 0 <= j < before.len() && before[j] == file;
                assert(all[j] == file);
            } else {
                let j = choose|j: int| 0 <= j < here.len() && here[j] == file;
                assert(all[before.len() + j] == file);
            }
            assert(all.contains(file));
        }
    }
}

/// The resolver's list holds no file twice, and holds exactly the native
/// libraries in the directories.
pub proof fn lemma_library_files(platform: HostPlatform, probes: Seq<ProbeView>)
    ensures
        library_files(platform, probes).no_duplicates(),
        forall|file: Seq<char>|
            library_files(platform, probes).contains(file) <==> found_somewhere(
                platform,
                probes,
                file,
            ),
{
    lemma_distinct(found_files(platform, probes));
    assert forall|file: Seq<char>|
        library_files(platform, probes).contains(file) <==> found_somewhere(
            platform,
            probes,
            file,
        ) by {
        lemma_found_files(platform, probes, file);
    }
}

/// What the probes show in two runs of directories, one after the other.
pub proof fn lemma_found_files_concat(
    platform: HostPlatform,
    probes: Seq<ProbeView>,
    more: Seq<ProbeView>,
)
    ensures
        found_files(platform, probes + more) == found_files(platform, probes) + found_files(
            platform,
            more,
        ),
    decreases more.len(),
{
    if more.len() == 0 {
        assert(probes + more =~= probes);
        assert(found_files(platform, probes) + Seq::<Seq<char>>::empty() =~= found_files(
            platform,
            probes,
        ));
    } else {
        let all = probes + more;
        assert(all.drop_last() =~= probes + more.drop_last());
        assert(all.last() == more.last());
        lemma_found_files_concat(platform, probes, more.drop_last());
        let here = probe_files(platform, more.last());
        assert((found_files(platform, probes) + found_files(platform, more.drop_last())) + here
            =~= found_files(platform, probes) + (found_files(platform, more.drop_last()) + here));
    }
}

/// Search directories that are given again add nothing: resolving a list of
/// directories written out twice gives what resolving the list gives.
pub proof fn lemma_repeated_directories(platform: HostPlatform, probes: Seq<ProbeView>)
    ensures
        library_files(platform, probes + probes) == library_files(platform, probes),
{
    let once = found_files(platform, probes);
    lemma_found_files_concat(platform, probes, probes);
    assert forall|i: int| 0 <= i < once.len() implies once.contains(#[trigger] once[i]) by {}
    lemma_distinct_absorbs(once, once);
}

/// A directory that is reached by a second spelling adds nothing: a probe
/// that shows the canonical path and the entries of an earlier probe can be
/// left out.
pub proof fn lemma_second_spelling_adds_nothing(
    platform: HostPlatform,
    probes: Seq<ProbeView>,
    i: int,
)
    requires
        0 <= i < probes.len(),
    ensures
        library_files(platform, probes.push(probes[i])) == library_files(platform, probes),
{
    let all = found_files(platform, probes);
    let again = probe_files(platform, probes[i]);
    assert(probes.push(probes[i]).drop_last() =~= probes);
    assert forall|k: int| 0 <= k < again.len() implies all.contains(#[trigger] again[k]) by {
        let file = again[k];
        assert(again.contains(file));
        match probes[i] {
            ProbeView::Entries { canonical, entries } => {
                lemma_entry_files(platform, canonical, entries, file);
            },
            _ => {},
        }
        assert(found_at(platform, probes, i, file));
        lemma_found_files(platform, probes, file);
    }
    lemma_distinct_absorbs(all, again);
}

/// Whether the `i`-th candidate leads to the directory `dir`.
pub open spec fn exists_at(
    dirs: Seq<Seq<char>>,
    probes: Seq<ProbeView>,
    i: int,
    dir: Seq<char>,
) -> bool {
    probed_directory(dirs[i], probes[i]) == Some(dir)
}

/// The directories that the probes found are exactly those that a candidate
/// leads to.
pub proof fn lemma_probed_directories(
    dirs: Seq<Seq<char>>,
    probes: Seq<ProbeView>,
    dir: Seq<char>,
)
    requires
        dirs.len() == probes.len(),
    ensures
        probed_directories(dirs, probes).contains(dir) <==> exists|i: int|
            0 <= i < dirs.len() && #[trigger] exists_at(dirs, probes, i, dir),
    decreases dirs.len(),
{
    if dirs.len() > 0 {
        let dfront = dirs.drop_last();
        let pfront = probes.drop_last();
        let before = probed_directories(dfront, pfront);
        let all = probed_directories(dirs, probes);
        let n = dirs.len() - 1;
        lemma_probed_directories(dfront, pfront, dir);
        if all.contains(dir) {
            let j = choose|j: int| 0 <= j < all.len() && all[j] == dir;
            if j < before.len() {
                assert(before[j] == dir);
                assert(before.contains(dir));
                let i = choose|i: int|
                    0 <= i < dfront.len() && #[trigger] exists_at(dfront, pfront, i, dir);
                assert(exists_at(dirs, probes, i, dir));
            } else {
                assert(exists_at(dirs, probes, n, dir));
            }
        }
        if exists|i: int| 0 <= i < dirs.len() && #[trigger] exists_at(dirs, probes, i, dir) {
            let i = choose|i: int| 0 <= i < dirs.len() && #[trigger] exists_at(dirs, probes, i, dir);
            if i < n {
                assert(exists_at(dfront, pfront, i, dir));
                assert(before.contains(dir));
                let j = choose|j: int| 0 <= j < before.len() && before[j] == dir;
                assert(all[j] == dir);
            } else {
                assert(all[before.len() as int] == dir);
            }
            assert(all.contains(dir));
        }
    }
}

/// The existing directories are exactly those that a candidate leads to:
/// none where nothing is or where something is that is no directory, and
/// none of them twice.
pub proof fn lemma_existing_directories(dirs: Seq<Seq<char>>, probes: Seq<ProbeView>)
    requires
        dirs.len() == probes.len(),
    ensures
        existing_directories(dirs, probes).no_duplicates(),
        forall|dir: Seq<char>|
            existing_directories(dirs, probes).contains(dir) <==> exists|i: int|
                0 <= i < dirs.len() && #[trigger] exists_at(dirs, probes, i, dir),
{
    lemma_distinct(probed_directories(dirs, probes));
    assert forall|dir: Seq<char>|
        existing_directories(dirs, probes).contains(dir) <==> exists|i: int|
            0 <= i < dirs.len() && #[trigger] exists_at(dirs, probes, i, dir) by {
        lemma_probed_directories(dirs, probes, dir);
    }
}

/// What the scanner reports of a stream whose lines are `before` followed
/// by `section`, where the first line of `section` is the first to name the
/// crate's compilation unit: the search flags of `before` are ignored, the
/// directories of `section` are candidates, and of these exactly those that
/// lead to an existing directory are kept, each directory once.
pub proof fn lemma_scanner_reports_section(
    before: Seq<Seq<char>>,
    section: Seq<Seq<char>>,
    name: Seq<char>,
    probes: Seq<ProbeView>,
)
    requires
        !in_section(before, name),
        section.len() > 0,
        names_unit(section[0], name),
        probes.len() == distinct(all_tokens(section)).len(),
    ensures
        ({
            let candidates = distinct(section_tokens(before + section, name));
            let found = existing_directories(candidates, probes);
            &&& candidates == distinct(all_tokens(section))
            &&& found.no_duplicates()
            &&& forall|dir: Seq<char>|
                found.contains(dir) <==> exists|i: int|
                    0 <= i < candidates.len() && #[trigger] exists_at(candidates, probes, i, dir)
        }),
{
    lemma_flags_before_section_ignored(before, section, name);
    lemma_flags_in_section_reported(section, name);
    let candidates = distinct(all_tokens(section));
    lemma_distinct(all_tokens(section));
    lemma_existing_directories(candidates, probes);
}

} // verus!
