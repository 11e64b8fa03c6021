//! The installed languages of the game and the one currently selected.

use vstd::prelude::*;
use crate::text::{join, join_path};

verus! {

/// An installed language: its name and its directory.
pub struct Language {
    pub name: String,
    pub language_dir_path: String,
}

/// The game's language configuration (`Lang/config.json`).
pub struct LangConfig {
    pub lang: String,
    pub title_font: String,
    pub context_font: String,
    pub sampling_point_size: u32,
    pub padding: u32,
}

/// An entry of a directory listing: its file name, its path, and whether it
/// is a directory.
pub struct DirEntryInfo {
    pub name: String,
    pub path: String,
    pub is_dir: bool,
}

/// Where the game's language configuration is: `config.json` in the language directory.
pub fn lang_config_path(language_dir_path: &str) -> (r: String)
    ensures
        r@ == join_path(language_dir_path@, "config.json"@),
{
    join(language_dir_path, "config.json")
}

/// The language the configuration selects, in the directory of that name
/// under the language directory; `None` when there is no readable configuration.
pub fn get_current_lang(language_dir_path: &str, config: Option<&LangConfig>) -> (r: Option<Language>)
    ensures
        match config {
            None => r is None,
            Some(c) => r matches Some(l) && l.name@ == c.lang@ && l.language_dir_path@ == join_path(
                language_dir_path@,
                c.lang@,
            ),
        },
{
    match config {
        None => None,
        Some(c) => Some(
            Language {
                name: c.lang.clone(),
                language_dir_path: join(language_dir_path, c.lang.as_str()),
            },
        ),
    }
}

/// The languages a listing shows: one per readable entry that is a
/// directory, in listing order, named after the entry.
pub open spec fn languages_of(entries: Seq<Option<DirEntryInfo>>) -> Seq<(Seq<char>, Seq<char>)>
    decreases entries.len(),
{
    if entries.len() == 0 {
        Seq::empty()
    } else {
        let init = languages_of(entries.drop_last());
        match entries.last() {
            Some(e) => if e.is_dir {
                init.push((e.name@, e.path@))
            } else {
                init
            },
            None => init,
        }
    }
}

/// The listing entry is a readable directory giving the language `l`.
pub open spec fn lists_language(entry: Option<DirEntryInfo>, l: (Seq<char>, Seq<char>)) -> bool {
    match entry {
        Some(e) => e.is_dir && l == (e.name@, e.path@),
        None => false,
    }
}

/// Only subdirectories become languages, and every readable subdirectory
/// does: each language listed is a readable directory entry with its name and
/// path, and there are as many languages as such entries.
pub proof fn lemma_languages_are_subdirectories(entries: Seq<Option<DirEntryInfo>>)
    ensures
        forall|k: int|
            #![trigger languages_of(entries)[k]]
            0 <= k < languages_of(entries).len() ==> exists|i: int|
                0 <= i < entries.len() && lists_language(#[trigger] entries[i], languages_of(entries)[k]),
        languages_of(entries).len() == dir_entry_count(entries),
    decreases entries.len(),
{
    if entries.len() > 0 {
        let init = entries.drop_last();
        lemma_languages_are_subdirectories(init);
        let ls = languages_of(entries);
        assert forall|k: int| #![trigger ls[k]] 0 <= k < ls.len() implies exists|i: int|
            0 <= i < entries.len() && lists_language(#[trigger] entries[i], ls[k]) by {
            if k < languages_of(init).len() {
                let i: int = choose|i: int|
                    0 <= i < init.len() && lists_language(#[trigger] init[i], languages_of(init)[k]);
                assert(entries[i] == init[i]);
            } else {
                let i: int = entries.len() - 1;
                assert(entries[i] == entries.last());
            }
        }
    }
}

/// The number of readable entries that are directories.
pub open spec fn dir_entry_count(entries: Seq<Option<DirEntryInfo>>) -> nat
    decreases entries.len(),
{
    if entries.len() == 0 {
        0
    } else {
        dir_entry_count(entries.drop_last()) + match entries.last() {
            Some(e) => if e.is_dir {
                1nat
            } else {
                0nat
            },
            None => 0nat,
        }
    }
}

pub open spec fn languages_view(ls: Seq<Language>) -> Seq<(Seq<char>, Seq<char>)> {
    ls.map_values(|l: Language| (l.name@, l.language_dir_path@))
}

/// The installed languages: the subdirectories of the language directory,
/// given its listing (`None` when it could not be read, which lists none;
/// unreadable entries are `None` and skipped).
pub fn get_languages(listing: Option<Vec<Option<DirEntryInfo>>>) -> (r: Vec<Language>)
    ensures
        match listing {
            None => r@.len() == 0,
            Some(entries) => languages_view(r@) == languages_of(entries@),
        },
{
    let entries = match listing {
        None => return Vec::new(),
        Some(e) => e,
    };
    let mut languages: Vec<Language> = Vec::new();
    let mut i: usize = 0;
    assert(entries@.take(0) =~= Seq::<Option<DirEntryInfo>>::empty());
    assert(languages_view(languages@) =~= Seq::<(Seq<char>, Seq<char>)>::empty());
    while i < entries.len()
        invariant
            i <= entries.len(),
            languages_view(languages@) == languages_of(entries@.take(i as int)),
        decreases entries.len() - i,
    {
        assert(entries@.take(i + 1).drop_last() =~= entries@.take(i as int));
        let ghost before = languages@;
        match &entries[i] {
            Some(e) => {
                if e.is_dir {
                    languages.push(
                        Language { name: e.name.clone(), language_dir_path: e.path.clone() },
                    );
                    assert(languages_view(languages@) =~= languages_view(before).push(
                        (e.name@, e.path@),
                    ));
                }
            },
            None => {},
        }
        i = i + 1;
    }
    assert(entries@.take(entries.len() as int) =~= entries@);
    languages
}

} // verus!
