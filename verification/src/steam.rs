//! Finding Limbus Company in a Steam installation: the app ids of the Steam
//! libraries (`libraryfolders.vdf`), the name and install directory of each
//! app (`appmanifest_<id>.acf`), and the game's data directory.

use vstd::prelude::*;
use crate::text::{ascii_lower, join, join_path, lowered_range_equals, str_eq};
use crate::vdf::{
    first_obj, first_obj_of, first_str, first_str_of, obj_get, obj_keys, obj_lookup, parse_vdf,
    parsed_vdf, Vdf, VdfEntry, VdfValue,
};

verus! {

/// The name and install directory that an app manifest gives.
pub struct GameMeta {
    pub name: String,
    pub install_dir: String,
}

/// An installed game: its name and the directory it is installed in.
pub struct Game {
    pub name: String,
    pub install_dir_path: String,
}

/// Why an app manifest gives no game.
pub enum ManifestError {
    /// The text is not a KeyValues document; the parser's message.
    Parse(String),
    /// The document's top-level value is a string, not an object.
    NotAnObject,
    /// No string `name` field.
    MissingName,
    /// No string `installdir` field.
    MissingInstallDir,
}

/// Why `libraryfolders.vdf` gives no app ids.
pub enum LibraryVdfError {
    /// The text is not a KeyValues document; the parser's message.
    Parse(String),
    /// The top-level key is not `libraryfolders`; the key found.
    UnexpectedRootKey(String),
    /// The document's top-level value is a string, not an object.
    NotAnObject,
}

/// The app ids listed by one library folder: the keys of the `apps` object
/// of the folder's (first) object; none when the folder or its `apps` is not
/// an object.
pub open spec fn folder_app_ids(folder: VdfEntry) -> Seq<Seq<char>> {
    match first_obj(folder.values@) {
        Some(fields) => match obj_get(fields, "apps"@) {
            Some(apps) => match first_obj(apps) {
                Some(app_entries) => obj_keys(app_entries),
                None => Seq::empty(),
            },
            None => Seq::empty(),
        },
        None => Seq::empty(),
    }
}

/// The app ids of all library folders, folder by folder.
pub open spec fn library_app_ids(folders: Seq<VdfEntry>) -> Seq<Seq<char>>
    decreases folders.len(),
{
    if folders.len() == 0 {
        Seq::empty()
    } else {
        library_app_ids(folders.drop_last()) + folder_app_ids(folders.last())
    }
}

/// Every library folder counts, whatever the folders around it hold: the app
/// ids of two runs of folders are those of the first run followed by those of
/// the second. In particular a folder without apps adds nothing and hides none
/// of the folders after it.
pub proof fn lemma_library_app_ids_concat(a: Seq<VdfEntry>, b: Seq<VdfEntry>)
    ensures
        library_app_ids(a + b) == library_app_ids(a) + library_app_ids(b),
    decreases b.len(),
{
    if b.len() == 0 {
        assert(a + b =~= a);
        assert(library_app_ids(a) + library_app_ids(b) =~= library_app_ids(a));
    } else {
        lemma_library_app_ids_concat(a, b.drop_last());
        assert((a + b).drop_last() =~= a + b.drop_last());
        assert((a + b).last() == b.last());
        assert(library_app_ids(a + b) =~= library_app_ids(a) + library_app_ids(b));
    }
}

/// A single library folder gives its own app ids.
pub proof fn lemma_library_app_ids_single(f: VdfEntry)
    ensures
        library_app_ids(seq![f]) == folder_app_ids(f),
{
    assert(seq![f].drop_last() =~= Seq::<VdfEntry>::empty());
    assert(seq![f].last() == f);
    assert(library_app_ids(Seq::<VdfEntry>::empty()) == Seq::<Seq<char>>::empty());
    assert(library_app_ids(seq![f]) =~= Seq::<Seq<char>>::empty() + folder_app_ids(f));
}

pub open spec fn strings_view(v: Seq<String>) -> Seq<Seq<char>> {
    v.map_values(|s: String| s@)
}

/// What `libraryfolders.vdf` gives: the app ids, when its key is
/// `libraryfolders` and its value an object.
pub open spec fn library_result(vdf: Vdf) -> Result<Seq<Seq<char>>, ()> {
    if vdf.key@ != "libraryfolders"@ {
        Err(())
    } else {
        match vdf.value {
            VdfValue::Obj(folders) => Ok(library_app_ids(folders@)),
            VdfValue::Str(_) => Err(()),
        }
    }
}

fn folder_ids(folder: &VdfEntry, ids: &mut Vec<String>)
    ensures
        strings_view(final(ids)@) == strings_view(old(ids)@) + folder_app_ids(*folder),
{
    let fields = match first_obj_of(&folder.values) {
        Some(f) => f,
        None => {
            assert(strings_view(ids@) =~= strings_view(ids@) + Seq::<Seq<char>>::empty());
            return;
        },
    };
    proof {
        reveal_strlit("apps");
    }
    let apps = match obj_lookup(fields, "apps") {
        Some(a) => a,
        None => {
            assert(strings_view(ids@) =~= strings_view(ids@) + Seq::<Seq<char>>::empty());
            return;
        },
    };
    let app_entries = match first_obj_of(apps) {
        Some(a) => a,
        None => {
            assert(strings_view(ids@) =~= strings_view(ids@) + Seq::<Seq<char>>::empty());
            return;
        },
    };
    let ghost start = strings_view(ids@);
    let mut j: usize = 0;
    while j < app_entries.len()
        invariant
            j <= app_entries.len(),
            strings_view(ids@) == start + obj_keys(app_entries@).take(j as int),
        decreases app_entries.len() - j,
    {
        let ghost before = ids@;
        let key = app_entries[j].key.clone();
        ids.push(key);
        assert(strings_view(ids@) =~= strings_view(before).push(app_entries@[j as int].key@));
        assert(obj_keys(app_entries@).take(j + 1) =~= obj_keys(app_entries@).take(j as int).push(
            app_entries@[j as int].key@,
        ));
        assert(strings_view(ids@) =~= start + obj_keys(app_entries@).take(j + 1));
        j = j + 1;
    }
    assert(obj_keys(app_entries@).take(app_entries.len() as int) =~= obj_keys(app_entries@));
}

/// The app ids that a parsed `libraryfolders.vdf` lists.
pub fn library_app_ids_of(vdf: &Vdf) -> (r: Result<Vec<String>, LibraryVdfError>)
    ensures
        match r {
            Ok(ids) => library_result(*vdf) == Ok::<Seq<Seq<char>>, ()>(strings_view(ids@)),
            Err(LibraryVdfError::UnexpectedRootKey(k)) => vdf.key@ != "libraryfolders"@ && k@
                == vdf.key@,
            Err(LibraryVdfError::NotAnObject) => vdf.key@ == "libraryfolders"@ && vdf.value is Str,
            Err(LibraryVdfError::Parse(_)) => false,
        },
{
    if !str_eq(vdf.key.as_str(), "libraryfolders") {
        return Err(LibraryVdfError::UnexpectedRootKey(vdf.key.clone()));
    }
    let folders = match &vdf.value {
        VdfValue::Obj(es) => es,
        VdfValue::Str(_) => return Err(LibraryVdfError::NotAnObject),
    };
    let mut ids: Vec<String> = Vec::new();
    let mut i: usize = 0;
    assert(folders@.take(0) =~= Seq::<VdfEntry>::empty());
    while i < folders.len()
        invariant
            i <= folders.len(),
            strings_view(ids@) == library_app_ids(folders@.take(i as int)),
        decreases folders.len() - i,
    {
        folder_ids(&folders[i], &mut ids);
        assert(folders@.take(i + 1).drop_last() =~= folders@.take(i as int));
        i = i + 1;
    }
    assert(folders@.take(folders.len() as int) =~= folders@);
    Ok(ids)
}

/// The app ids that the text of `libraryfolders.vdf` lists.
pub fn parse_library_vdf(contents: &str) -> (r: Result<Vec<String>, LibraryVdfError>)
    ensures
        match parsed_vdf(contents@) {
            Err(msg) => r matches Err(LibraryVdfError::Parse(e)) && e@ == msg,
            Ok(vdf) => match r {
                Ok(ids) => library_result(vdf) == Ok::<Seq<Seq<char>>, ()>(strings_view(ids@)),
                Err(LibraryVdfError::UnexpectedRootKey(k)) => vdf.key@ != "libraryfolders"@ && k@
                    == vdf.key@,
                Err(LibraryVdfError::NotAnObject) => vdf.key@ == "libraryfolders"@
                    && vdf.value is Str,
                Err(LibraryVdfError::Parse(_)) => false,
            },
        },
{
    match parse_vdf(contents) {
        Err(e) => Err(LibraryVdfError::Parse(e)),
        Ok(vdf) => library_app_ids_of(&vdf),
    }
}

/// What an app manifest gives: the string fields `name` and `installdir` of
/// its top-level object.
pub open spec fn manifest_result(vdf: Vdf) -> Result<(Seq<char>, Seq<char>), ManifestError> {
    match vdf.value {
        VdfValue::Str(_) => Err(ManifestError::NotAnObject),
        VdfValue::Obj(es) => match obj_get(es@, "name"@) {
            None => Err(ManifestError::MissingName),
            Some(nv) => match first_str(nv) {
                None => Err(ManifestError::MissingName),
                Some(name) => match obj_get(es@, "installdir"@) {
                    None => Err(ManifestError::MissingInstallDir),
                    Some(dv) => match first_str(dv) {
                        None => Err(ManifestError::MissingInstallDir),
                        Some(dir) => Ok((name, dir)),
                    },
                },
            },
        },
    }
}

pub open spec fn meta_result(r: Result<GameMeta, ManifestError>) -> Result<(Seq<char>, Seq<char>), ManifestError> {
    match r {
        Ok(m) => Ok((m.name@, m.install_dir@)),
        Err(e) => Err(e),
    }
}

/// The name and install directory that a parsed app manifest gives.
pub fn game_info_of(vdf: &Vdf) -> (r: Result<GameMeta, ManifestError>)
    ensures
        meta_result(r) == manifest_result(*vdf),
{
    let fields = match &vdf.value {
        VdfValue::Obj(es) => es,
        VdfValue::Str(_) => return Err(ManifestError::NotAnObject),
    };
    proof {
        reveal_strlit("name");
        reveal_strlit("installdir");
    }
    let name = match obj_lookup(fields, "name") {
        None => return Err(ManifestError::MissingName),
        Some(vs) => match first_str_of(vs) {
            None => return Err(ManifestError::MissingName),
            Some(s) => s.clone(),
        },
    };
    let install_dir = match obj_lookup(fields, "installdir") {
        None => return Err(ManifestError::MissingInstallDir),
        Some(vs) => match first_str_of(vs) {
            None => return Err(ManifestError::MissingInstallDir),
            Some(s) => s.clone(),
        },
    };
    Ok(GameMeta { name, install_dir })
}

/// The name and install directory that the text of an app manifest gives.
pub fn get_game_info(manifest_content: &str) -> (r: Result<GameMeta, ManifestError>)
    ensures
        match parsed_vdf(manifest_content@) {
            Err(msg) => r matches Err(ManifestError::Parse(e)) && e@ == msg,
            Ok(vdf) => meta_result(r) == manifest_result(vdf),
        },
{
    match parse_vdf(manifest_content) {
        Err(e) => Err(ManifestError::Parse(e)),
        Ok(vdf) => game_info_of(&vdf),
    }
}

impl ManifestError {
    /// The message the updater reports for the error.
    pub fn to_string(&self) -> (r: String)
        ensures
            r@ == match self {
                ManifestError::Parse(e) => "Failed to parse appmanifest: "@ + e@,
                ManifestError::NotAnObject => "Called `unwrap_obj` on a `Value::Str` variant"@,
                ManifestError::MissingName => "Missing or invalid `name` field in appmanifest"@,
                ManifestError::MissingInstallDir => "Missing or invalid `installdir` field in appmanifest"@,
            },
    {
        match self {
            ManifestError::Parse(e) => {
                let mut m = String::from_str("Failed to parse appmanifest: ");
                m.append(e.as_str());
                m
            },
            ManifestError::NotAnObject => String::from_str("Called `unwrap_obj` on a `Value::Str` variant"),
            ManifestError::MissingName => String::from_str("Missing or invalid `name` field in appmanifest"),
            ManifestError::MissingInstallDir => String::from_str(
                "Missing or invalid `installdir` field in appmanifest",
            ),
        }
    }
}

/// Where Steam lists its libraries: `steamapps/libraryfolders.vdf` under Steam.
pub fn library_vdf_path(steam_path: &str) -> (r: String)
    ensures
        r@ == join_path(steam_path@, "steamapps/libraryfolders.vdf"@),
{
    join(steam_path, "steamapps/libraryfolders.vdf")
}

/// The manifest of the app `app_id`: `steamapps/appmanifest_<id>.acf` under Steam.
pub fn manifest_path(steam_path: &str, app_id: &str) -> (r: String)
    ensures
        r@ == join_path(join_path(steam_path@, "steamapps"@), "appmanifest_"@ + app_id@ + ".acf"@),
{
    let apps_dir = join(steam_path, "steamapps");
    let mut file = String::from_str("appmanifest_");
    file.append(app_id);
    file.append(".acf");
    join(apps_dir.as_str(), file.as_str())
}

/// The game that a manifest describes, installed under `steamapps/common`.
pub fn game_from_meta(steam_path: &str, meta: GameMeta) -> (r: Game)
    ensures
        r.name@ == meta.name@,
        r.install_dir_path@ == join_path(join_path(steam_path@, "steamapps/common"@), meta.install_dir@),
{
    let common = join(steam_path, "steamapps/common");
    let install_dir_path = join(common.as_str(), meta.install_dir.as_str());
    Game { name: meta.name, install_dir_path }
}

/// The manifest that was read holds a string, not an object, at its top level.
pub open spec fn manifest_not_object(read: Result<String, String>) -> bool {
    match read {
        Ok(text) => match parsed_vdf(text@) {
            Ok(vdf) => vdf.value is Str,
            Err(_) => false,
        },
        Err(_) => false,
    }
}

/// The game that a manifest read gives: its name and install directory under
/// `steamapps/common`; none when the file could not be read, does not parse, or
/// lacks a string `name` or `installdir`.
pub open spec fn manifest_game(steam_path: Seq<char>, read: Result<String, String>) -> Option<
    (Seq<char>, Seq<char>),
> {
    match read {
        Ok(text) => match parsed_vdf(text@) {
            Ok(vdf) => match manifest_result(vdf) {
                Ok((name, dir)) => Some(
                    (name, join_path(join_path(steam_path, "steamapps/common"@), dir)),
                ),
                Err(_) => None,
            },
            Err(_) => None,
        },
        Err(_) => None,
    }
}

/// The games of all manifests read, in order, skipping those that give none.
pub open spec fn games_of(steam_path: Seq<char>, reads: Seq<Result<String, String>>) -> Seq<
    (Seq<char>, Seq<char>),
>
    decreases reads.len(),
{
    if reads.len() == 0 {
        Seq::empty()
    } else {
        let init = games_of(steam_path, reads.drop_last());
        match manifest_game(steam_path, reads.last()) {
            Some(g) => init.push(g),
            None => init,
        }
    }
}

pub open spec fn games_view(games: Seq<Game>) -> Seq<(Seq<char>, Seq<char>)> {
    games.map_values(|g: Game| (g.name@, g.install_dir_path@))
}

/// The installed games, given the result of reading each app's manifest (the
/// text, or why it could not be read). A manifest whose top-level value is a
/// string is refused: the result is the position of the first such manifest.
pub fn games_from_manifests(steam_path: &str, reads: &Vec<Result<String, String>>) -> (r: Result<
    Vec<Game>,
    usize,
>)
    ensures
        match r {
            Ok(games) => {
                &&& forall|i: int| 0 <= i < reads@.len() ==> !manifest_not_object(#[trigger] reads@[i])
                &&& games_view(games@) == games_of(steam_path@, reads@)
            },
            Err(k) => {
                &&& k < reads@.len()
                &&& manifest_not_object(reads@[k as int])
                &&& forall|i: int| 0 <= i < k ==> !manifest_not_object(#[trigger] reads@[i])
            },
        },
{
    let mut games: Vec<Game> = Vec::new();
    let mut i: usize = 0;
    assert(reads@.take(0) =~= Seq::<Result<String, String>>::empty());
    assert(games_view(games@) =~= Seq::<(Seq<char>, Seq<char>)>::empty());
    while i < reads.len()
        invariant
            i <= reads.len(),
            forall|j: int| 0 <= j < i ==> !manifest_not_object(#[trigger] reads@[j]),
            games_view(games@) == games_of(steam_path@, reads@.take(i as int)),
        decreases reads.len() - i,
    {
        assert(reads@.take(i + 1).drop_last() =~= reads@.take(i as int));
        assert(reads@.take(i + 1).last() == reads@[i as int]);
        let ghost before = games@;
        match &reads[i] {
            Err(_) => {},
            Ok(text) => {
                match get_game_info(text.as_str()) {
                    Ok(meta) => {
                        let game = game_from_meta(steam_path, meta);
                        games.push(game);
                        assert(games_view(games@) =~= games_view(before).push(
                            (game.name@, game.install_dir_path@),
                        ));
                    },
                    Err(ManifestError::NotAnObject) => {
                        return Err(i);
                    },
                    Err(_) => {},
                }
            },
        }
        i = i + 1;
    }
    assert(reads@.take(reads.len() as int) =~= reads@);
    Ok(games)
}

/// The first game named `name` among `games`.
pub open spec fn is_first_game_named(games: Seq<Game>, name: Seq<char>, i: int) -> bool {
    &&& 0 <= i < games.len()
    &&& games[i].name@ == name
    &&& forall|j: int| 0 <= j < i ==> games[j].name@ != name
}

/// The data directory of Limbus Company: `LimbusCompany_Data` in the install
/// directory of the first game of that name, if any.
pub fn lbc_data_dir_of(games: &Vec<Game>) -> (r: Option<String>)
    ensures
        match r {
            Some(p) => exists|i: int|
                is_first_game_named(games@, "Limbus Company"@, i) && p@ == join_path(
                    #[trigger] games@[i].install_dir_path@,
                    "LimbusCompany_Data"@,
                ),
            None => forall|i: int| 0 <= i < games@.len() ==> #[trigger] games@[i].name@ != "Limbus Company"@,
        },
{
    let mut i: usize = 0;
    while i < games.len()
        invariant
            i <= games.len(),
            forall|j: int| 0 <= j < i ==> #[trigger] games@[j].name@ != "Limbus Company"@,
        decreases games.len() - i,
    {
        if str_eq(games[i].name.as_str(), "Limbus Company") {
            let p = join(games[i].install_dir_path.as_str(), "LimbusCompany_Data");
            assert(is_first_game_named(games@, "Limbus Company"@, i as int));
            return Some(p);
        }
        i = i + 1;
    }
    None
}

/// The registry's display name is the game's, ignoring ASCII case.
pub fn is_limbus_display_name(display_name: &str) -> (r: bool)
    ensures
        r == (ascii_lower(display_name@) == ascii_lower("Limbus Company"@)),
{
    proof {
        reveal_strlit("Limbus Company");
        reveal_strlit("limbus company");
        assert(ascii_lower("Limbus Company"@) =~= "limbus company"@);
        assert(display_name@.subrange(0, display_name@.len() as int) =~= display_name@);
    }
    let n: usize = display_name.unicode_len();
    lowered_range_equals(display_name, 0, n, "limbus company")
}

/// The value of a sequence of decimal digits.
pub open spec fn decimal_value(d: Seq<char>) -> nat
    decreases d.len(),
{
    if d.len() == 0 {
        0
    } else {
        decimal_value(d.drop_last()) * 10 + ((d.last() as nat) - 48) as nat
    }
}

pub open spec fn is_digit(c: char) -> bool {
    '0' <= c && c <= '9'
}

/// The digits of a number's text: without a leading `+`.
pub open spec fn unsigned_digits(s: Seq<char>) -> Seq<char> {
    if s.len() > 0 && s[0] == '+' {
        s.drop_first()
    } else {
        s
    }
}

/// Every character is a decimal digit.
pub open spec fn all_digits(d: Seq<char>) -> bool {
    forall|i: int| 0 <= i < d.len() ==> is_digit(#[trigger] d[i])
}

/// What `str::parse::<u32>` gives: an optional `+` followed by at least one
/// decimal digit and nothing else, with a value that fits in 32 bits.
pub open spec fn parsed_u32(s: Seq<char>) -> Option<u32> {
    let digits = unsigned_digits(s);
    if digits.len() > 0 && all_digits(digits) && decimal_value(digits) <= u32::MAX {
        Some(decimal_value(digits) as u32)
    } else {
        None
    }
}

proof fn lemma_decimal_grows(d: Seq<char>, k: int)
    requires
        0 <= k <= d.len(),
        all_digits(d),
    ensures
        decimal_value(d.take(k)) <= decimal_value(d),
    decreases d.len() - k,
{
    if k < d.len() {
        let t = d.take(k + 1);
        assert(t.drop_last() =~= d.take(k));
        assert(is_digit(t.last()));
        lemma_decimal_grows(d, k + 1);
    } else {
        assert(d.take(k) =~= d);
    }
}

/// An app id from the name of its registry key.
pub fn parse_app_id(key: &str) -> (r: Option<u32>)
    ensures
        r == parsed_u32(key@),
{
    let n: usize = key.unicode_len();
    let start: usize = if n > 0 && key.get_char(0) == '+' {
        1
    } else {
        0
    };
    let ghost digits = unsigned_digits(key@);
    assert(digits =~= key@.subrange(start as int, n as int));
    if start == n {
        return None;
    }
    let mut i: usize = start;
    while i < n
        invariant
            start <= i <= n,
            n == key@.len(),
            digits == key@.subrange(start as int, n as int),
            digits == unsigned_digits(key@),
            forall|j: int| 0 <= j < i - start ==> is_digit(#[trigger] digits[j]),
        decreases n - i,
    {
        let c = key.get_char(i);
        if !('0' <= c && c <= '9') {
            assert(!is_digit(digits[i - start]));
            assert(!all_digits(digits));
            return None;
        }
        i = i + 1;
    }
    let mut acc: u64 = 0;
    let mut k: usize = start;
    assert(digits.take(0) =~= Seq::<char>::empty());
    while k < n
        invariant
            start <= k <= n,
            n == key@.len(),
            digits == key@.subrange(start as int, n as int),
            digits == unsigned_digits(key@),
            all_digits(digits),
            acc == decimal_value(digits.take(k - start)),
            acc <= u32::MAX,
        decreases n - k,
    {
        let c = key.get_char(k);
        assert(c == digits[k - start]);
        assert(is_digit(c));
        let d: u64 = (c as u32 - 48) as u64;
        assert(digits.take(k - start + 1).drop_last() =~= digits.take(k - start));
        assert(digits.take(k - start + 1).last() == c);
        let next: u64 = acc * 10 + d;
        assert(decimal_value(digits.take(k - start + 1)) == next);
        if next > 4294967295 {
            proof {
                lemma_decimal_grows(digits, k - start + 1);
            }
            assert(decimal_value(digits) > u32::MAX);
            return None;
        }
        acc = next;
        k = k + 1;
    }
    assert(digits.take(n - start) =~= digits);
    Some(acc as u32)
}

/// The game's data directory for an install location found in the registry.
pub fn registry_data_dir(install_location: &str) -> (r: String)
    ensures
        r@ == join_path(install_location@, "LimbusCompany_Data"@),
{
    join(install_location, "LimbusCompany_Data")
}


/// The app ids among the names of the registry's app keys, in order: a key
/// that could not be read (`None`) or whose name is no app id is passed over.
pub open spec fn app_ids_of(keys: Seq<Option<String>>) -> Seq<u32>
    decreases keys.len(),
{
    if keys.len() == 0 {
        Seq::empty()
    } else {
        let rest = app_ids_of(keys.drop_last());
        match keys.last() {
            Some(k) => match parsed_u32(k@) {
                Some(id) => rest.push(id),
                None => rest,
            },
            None => rest,
        }
    }
}

/// The app ids named by the registry's app keys, in the order of the keys.
pub fn registry_app_ids(keys: &Vec<Option<String>>) -> (r: Vec<u32>)
    ensures
        r@ == app_ids_of(keys@),
{
    let mut ids: Vec<u32> = Vec::new();
    let mut i: usize = 0;
    assert(keys@.take(0) =~= Seq::<Option<String>>::empty());
    while i < keys.len()
        invariant
            i <= keys.len(),
            ids@ == app_ids_of(keys@.take(i as int)),
        decreases keys.len() - i,
    {
        assert(keys@.take(i + 1).drop_last() =~= keys@.take(i as int));
        assert(keys@.take(i + 1).last() == keys@[i as int]);
        match &keys[i] {
            Some(k) => {
                if let Some(id) = parse_app_id(k.as_str()) {
                    ids.push(id);
                }
            },
            None => {},
        }
        i = i + 1;
    }
    assert(keys@.take(keys.len() as int) =~= keys@);
    ids
}

/// What the registry holds of one app: whether Steam marks it installed, its
/// display name and install location where they are recorded, and whether
/// that location exists on disk.
pub struct RegistryApp {
    pub installed: bool,
    pub display_name: Option<String>,
    pub install_location: Option<String>,
    pub location_exists: bool,
}

/// The app is the installed game: marked installed, named "Limbus Company"
/// up to ASCII case, with an install location that exists.
pub open spec fn registry_app_matches(a: RegistryApp) -> bool {
    &&& a.installed
    &&& a.display_name matches Some(n) && ascii_lower(n@) == ascii_lower("Limbus Company"@)
    &&& a.install_location is Some
    &&& a.location_exists
}

/// The game's data directory from the registry: `LimbusCompany_Data` in the
/// install location of the first app that is the installed game.
pub fn select_registry_game(apps: &Vec<RegistryApp>) -> (r: Option<String>)
    ensures
        match r {
            Some(p) => exists|i: int|
                0 <= i < apps@.len() && registry_app_matches(#[trigger] apps@[i]) && (forall|j: int|
                    0 <= j < i ==> !registry_app_matches(#[trigger] apps@[j])) && p@ == join_path(
                    apps@[i].install_location->0@,
                    "LimbusCompany_Data"@,
                ),
            None => forall|i: int| 0 <= i < apps@.len() ==> !registry_app_matches(#[trigger] apps@[i]),
        },
{
    let mut i: usize = 0;
    while i < apps.len()
        invariant
            i <= apps.len(),
            forall|j: int| 0 <= j < i ==> !registry_app_matches(#[trigger] apps@[j]),
        decreases apps.len() - i,
    {
        let app = &apps[i];
        if app.installed && app.location_exists {
            match (&app.display_name, &app.install_location) {
                (Some(name), Some(location)) => {
                    if is_limbus_display_name(name.as_str()) {
                        let p = registry_data_dir(location.as_str());
                        assert(registry_app_matches(apps@[i as int]));
                        return Some(p);
                    }
                },
                _ => {},
            }
        }
        i = i + 1;
    }
    None
}

} // verus!
