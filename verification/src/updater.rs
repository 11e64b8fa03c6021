//! The updater's own decisions around downloading and installing: where things
//! go, which directory of an archive holds the languages, how the font archive
//! is installed, what to ask, and how an aborted question ends the run.

use vstd::prelude::*;
use crate::text::{join, join_path, str_eq};

verus! {

/// The paths of one run.
pub struct Paths {
    /// The archive's file name, as the release names it.
    pub archive_file_path: String,
    /// `cache` in the updater's data directory.
    pub app_cache_dir: String,
    /// The game's `LimbusCompany_Data` directory.
    pub lbc_data_dir: String,
    /// `Lang` in the game's data directory.
    pub lbc_lang_dir: String,
}

impl Paths {
    pub fn new(archive_file_path: String, lbc_data_dir: String, appdata_dir: &str) -> (r: Paths)
        ensures
            r.archive_file_path@ == archive_file_path@,
            r.app_cache_dir@ == join_path(appdata_dir@, "cache"@),
            r.lbc_data_dir@ == lbc_data_dir@,
            r.lbc_lang_dir@ == join_path(lbc_data_dir@, "Lang"@),
    {
        let app_cache_dir = join(appdata_dir, "cache");
        let lbc_lang_dir = join(lbc_data_dir.as_str(), "Lang");
        Paths { archive_file_path, app_cache_dir, lbc_data_dir, lbc_lang_dir }
    }

    /// Where the release archive is cached: its file name in the cache directory.
    pub fn download_file_path(&self) -> (r: String)
        ensures
            r@ == join_path(self.app_cache_dir@, self.archive_file_path@),
    {
        join(self.app_cache_dir.as_str(), self.archive_file_path.as_str())
    }
}

/// What follows the answer to "create the missing game data directory?".
pub enum DataDirOutcome {
    /// Create the language directory.
    CreateLangDir(String),
    /// Stop: the directory is required; the message says which.
    Missing(String),
    /// Stop: the question was aborted; the message says why.
    Interrupted(String),
}

/// A yes creates the language directory; a no, or an aborted question, stops
/// the run with a message.
pub fn data_dir_prompt_outcome(paths: &Paths, answer: Result<bool, String>) -> (r: DataDirOutcome)
    ensures
        match answer {
            Ok(true) => r matches DataDirOutcome::CreateLangDir(p) && p@ == paths.lbc_lang_dir@,
            Ok(false) => r matches DataDirOutcome::Missing(m) && m@
                == "Required game data directory was not found: "@ + paths.lbc_data_dir@,
            Err(e) => r matches DataDirOutcome::Interrupted(m) && m@
                == "Data directory creation prompt interrupted: "@ + e@,
        },
{
    match answer {
        Ok(true) => DataDirOutcome::CreateLangDir(paths.lbc_lang_dir.clone()),
        Ok(false) => {
            let mut m = String::from_str("Required game data directory was not found: ");
            m.append(paths.lbc_data_dir.as_str());
            DataDirOutcome::Missing(m)
        },
        Err(e) => {
            let mut m = String::from_str("Data directory creation prompt interrupted: ");
            m.append(e.as_str());
            DataDirOutcome::Interrupted(m)
        },
    }
}

/// Where the game's data is looked for.
pub enum DataDirSource {
    /// A fixed directory, in test mode.
    Fixed(String),
    /// The Steam libraries and app manifests.
    SteamLibraries,
    /// The Windows registry entries that Steam writes.
    Registry,
}

/// `./test/LimbusCompany_Data` in test mode, else the registry on Windows
/// and the Steam libraries elsewhere.
pub fn get_lbc_data_dir(test_mode: bool, windows: bool) -> (r: DataDirSource)
    ensures
        test_mode ==> (r matches DataDirSource::Fixed(p) && p@ == "./test/LimbusCompany_Data"@),
        !test_mode && windows ==> r is Registry,
        !test_mode && !windows ==> r is SteamLibraries,
{
    if test_mode {
        DataDirSource::Fixed(String::from_str("./test/LimbusCompany_Data"))
    } else if windows {
        DataDirSource::Registry
    } else {
        DataDirSource::SteamLibraries
    }
}

/// A question answered with text, with the answer offered by default.
pub struct TextPrompt {
    pub message: String,
    pub default: String,
    pub help: String,
    /// What the question is about, for the message when it is aborted.
    pub context: String,
}

/// The question for the repository to fetch releases from.
pub fn get_repository_url() -> (r: TextPrompt)
    ensures
        r.message@ == "GitHub repository URL to fetch releases from:"@,
        r.default@ == "https://github.com/LocalizeLimbusCompany/LocalizeLimbusCompany"@,
        r.help@ == "Press Enter to use the default LocalizeLimbusCompany repository"@,
        r.context@ == "Repository URL input"@,
{
    TextPrompt {
        message: String::from_str("GitHub repository URL to fetch releases from:"),
        default: String::from_str("https://github.com/LocalizeLimbusCompany/LocalizeLimbusCompany"),
        help: String::from_str("Press Enter to use the default LocalizeLimbusCompany repository"),
        context: String::from_str("Repository URL input"),
    }
}

/// The question for the font archive's URL.
pub fn get_font_url() -> (r: TextPrompt)
    ensures
        r.message@ == "Font asset URL:"@,
        r.default@
            == "https://raw.githubusercontent.com/LocalizeLimbusCompany/LocalizeLimbusCompany/refs/heads/main/Fonts/LLCCN-Font.7z"@,
        r.help@ == "Press Enter to use the source"@,
        r.context@ == "Download URL input"@,
{
    TextPrompt {
        message: String::from_str("Font asset URL:"),
        default: String::from_str(
            "https://raw.githubusercontent.com/LocalizeLimbusCompany/LocalizeLimbusCompany/refs/heads/main/Fonts/LLCCN-Font.7z",
        ),
        help: String::from_str("Press Enter to use the source"),
        context: String::from_str("Download URL input"),
    }
}

/// How a question ended without an answer.
pub enum PromptFailure {
    /// The user cancelled it (Esc).
    Canceled,
    /// The user interrupted it (Ctrl+C).
    Interrupted,
    /// It failed; the error's message.
    Other(String),
}

/// How the run ends after an unanswered question.
pub struct PromptExit {
    pub code: i32,
    pub message: String,
    /// The message goes to standard error rather than standard output.
    pub to_stderr: bool,
}

/// A cancelled or interrupted question ends the run quietly (code 0), a
/// failed one with an error (code 1).
pub fn handle_prompt_error(context: &str, err: PromptFailure) -> (r: PromptExit)
    ensures
        match err {
            PromptFailure::Canceled => r.code == 0 && !r.to_stderr && r.message@ == "\n"@ + context@
                + " canceled by user."@,
            PromptFailure::Interrupted => r.code == 0 && !r.to_stderr && r.message@ == "\n"@
                + context@ + " interrupted (Ctrl+C)."@,
            PromptFailure::Other(e) => r.code == 1 && r.to_stderr && r.message@ == "\n"@ + context@
                + " failed: "@ + e@,
        },
{
    let mut message = String::from_str("\n");
    message.append(context);
    match err {
        PromptFailure::Canceled => {
            message.append(" canceled by user.");
            PromptExit { code: 0, message, to_stderr: false }
        },
        PromptFailure::Interrupted => {
            message.append(" interrupted (Ctrl+C).");
            PromptExit { code: 0, message, to_stderr: false }
        },
        PromptFailure::Other(e) => {
            message.append(" failed: ");
            message.append(e.as_str());
            PromptExit { code: 1, message, to_stderr: true }
        },
    }
}

/// A subdirectory of the font archive's extraction directory, with what it holds.
pub struct SubdirProbe {
    pub path: String,
    /// The directory entry could be read.
    pub readable: bool,
    pub is_dir: bool,
    /// `LimbusCompany_Data/Lang` in it is a directory.
    pub nested_lang_is_dir: bool,
    /// `Lang` in it is a directory.
    pub lang_is_dir: bool,
}

/// The language directory found among the subdirectories, in listing order;
/// the search stops at an unreadable entry.
pub open spec fn lang_root_in(entries: Seq<SubdirProbe>) -> Option<Seq<char>>
    decreases entries.len(),
{
    if entries.len() == 0 {
        None
    } else {
        let e = entries[0];
        if !e.readable {
            None
        } else if e.is_dir && e.nested_lang_is_dir {
            Some(join_path(join_path(e.path@, "LimbusCompany_Data"@), "Lang"@))
        } else if e.is_dir && e.lang_is_dir {
            Some(join_path(e.path@, "Lang"@))
        } else {
            lang_root_in(entries.drop_first())
        }
    }
}

/// A subdirectory holds a language directory: `LimbusCompany_Data/Lang` or `Lang`.
pub open spec fn holds_lang_dir(d: SubdirProbe) -> bool {
    d.is_dir && (d.nested_lang_is_dir || d.lang_is_dir)
}

/// The search goes past subdirectories that hold no language directory: the
/// first readable subdirectory that holds one, preceded only by readable
/// entries that hold none, gives the result, its `LimbusCompany_Data/Lang`
/// when it has one and its `Lang` otherwise.
pub proof fn lemma_lang_root_first_holder(entries: Seq<SubdirProbe>, k: int)
    requires
        0 <= k < entries.len(),
        entries[k].readable,
        holds_lang_dir(entries[k]),
        forall|j: int| 0 <= j < k ==> #[trigger] entries[j].readable && !holds_lang_dir(entries[j]),
    ensures
        lang_root_in(entries) == Some(
            if entries[k].nested_lang_is_dir {
                join_path(join_path(entries[k].path@, "LimbusCompany_Data"@), "Lang"@)
            } else {
                join_path(entries[k].path@, "Lang"@)
            },
        ),
    decreases k,
{
    if k > 0 {
        let rest = entries.drop_first();
        assert(entries[0].readable && !holds_lang_dir(entries[0]));
        assert forall|j: int| 0 <= j < k - 1 implies #[trigger] rest[j].readable && !holds_lang_dir(rest[j]) by {
            assert(rest[j] == entries[j + 1]);
        }
        assert(rest[k - 1] == entries[k]);
        lemma_lang_root_first_holder(rest, k - 1);
    }
}

/// When every subdirectory is readable and none holds a language directory,
/// there is none.
pub proof fn lemma_lang_root_none_without_holder(entries: Seq<SubdirProbe>)
    requires
        forall|j: int| 0 <= j < entries.len() ==> #[trigger] entries[j].readable && !holds_lang_dir(entries[j]),
    ensures
        lang_root_in(entries) is None,
    decreases entries.len(),
{
    if entries.len() > 0 {
        let rest = entries.drop_first();
        assert(entries[0].readable && !holds_lang_dir(entries[0]));
        assert forall|j: int| 0 <= j < rest.len() implies #[trigger] rest[j].readable && !holds_lang_dir(rest[j]) by {
            assert(rest[j] == entries[j + 1]);
        }
        lemma_lang_root_none_without_holder(rest);
    }
}

/// The language directory of an extracted font archive: `LimbusCompany_Data/Lang`,
/// else `Lang`, directly in the extraction directory, else the same in its
/// subdirectories (`None` for the listing when it could not be read).
pub open spec fn extracted_lang_root(
    root: Seq<char>,
    direct_nested_is_dir: bool,
    direct_lang_is_dir: bool,
    entries: Option<Seq<SubdirProbe>>,
) -> Option<Seq<char>> {
    if direct_nested_is_dir {
        Some(join_path(join_path(root, "LimbusCompany_Data"@), "Lang"@))
    } else if direct_lang_is_dir {
        Some(join_path(root, "Lang"@))
    } else {
        match entries {
            Some(es) => lang_root_in(es),
            None => None,
        }
    }
}

pub fn find_extracted_lang_root_dir_path(
    root: &str,
    direct_nested_is_dir: bool,
    direct_lang_is_dir: bool,
    entries: Option<&Vec<SubdirProbe>>,
) -> (r: Option<String>)
    ensures
        crate::text::opt_string_view(r) == extracted_lang_root(
            root@,
            direct_nested_is_dir,
            direct_lang_is_dir,
            match entries {
                Some(es) => Some(es@),
                None => None,
            },
        ),
{
    if direct_nested_is_dir {
        let data = join(root, "LimbusCompany_Data");
        return Some(join(data.as_str(), "Lang"));
    }
    if direct_lang_is_dir {
        return Some(join(root, "Lang"));
    }
    let es = match entries {
        Some(es) => es,
        None => return None,
    };
    let mut i: usize = 0;
    assert(es@.skip(0) =~= es@);
    while i < es.len()
        invariant
            i <= es.len(),
            !direct_nested_is_dir,
            !direct_lang_is_dir,
            entries == Some(es),
            lang_root_in(es@) == lang_root_in(es@.skip(i as int)),
        decreases es.len() - i,
    {
        assert(es@.skip(i as int).drop_first() =~= es@.skip(i + 1));
        assert(es@.skip(i as int)[0] == es@[i as int]);
        let e = &es[i];
        if !e.readable {
            return None;
        }
        if e.is_dir && e.nested_lang_is_dir {
            let data = join(e.path.as_str(), "LimbusCompany_Data");
            return Some(join(data.as_str(), "Lang"));
        }
        if e.is_dir && e.lang_is_dir {
            return Some(join(e.path.as_str(), "Lang"));
        }
        i = i + 1;
    }
    assert(es@.skip(i as int) =~= Seq::<SubdirProbe>::empty());
    None
}

/// Whether the font archive is downloaded: always when it is not cached,
/// otherwise unless the user confirms that the cached one is used.
pub fn should_download_font(archive_cached: bool, use_cached_confirmed: bool) -> (r: bool)
    ensures
        r == (!archive_cached || !use_cached_confirmed),
{
    !archive_cached || !use_cached_confirmed
}

/// A language directory of the extracted font archive, with what it holds and
/// what is at its target.
pub struct FontLangEntry {
    pub path: String,
    /// The entry's file name, when it is text.
    pub name: Option<String>,
    pub is_dir: bool,
    /// `Font` in it is a directory.
    pub font_dir_is_dir: bool,
    /// `<name>/Font` already exists in the game's language directory.
    pub target_font_exists: bool,
}

/// One file-system operation of a font installation.
pub enum FontStep {
    CreateDirAll(String),
    RemoveDirAll(String),
    /// Copy the directory `from`, recursively, to `to`.
    CopyDir { from: String, to: String },
}

pub enum FontStepView {
    CreateDirAll(Seq<char>),
    RemoveDirAll(Seq<char>),
    CopyDir(Seq<char>, Seq<char>),
}

impl View for FontStep {
    type V = FontStepView;

    open spec fn view(&self) -> FontStepView {
        match self {
            FontStep::CreateDirAll(p) => FontStepView::CreateDirAll(p@),
            FontStep::RemoveDirAll(p) => FontStepView::RemoveDirAll(p@),
            FontStep::CopyDir { from, to } => FontStepView::CopyDir(from@, to@),
        }
    }
}

pub open spec fn font_steps_view(steps: Seq<FontStep>) -> Seq<FontStepView> {
    steps.map_values(|s: FontStep| s@)
}

/// An entry takes part when it is a directory holding a `Font` directory.
pub open spec fn installs_font(e: FontLangEntry) -> bool {
    e.is_dir && e.font_dir_is_dir
}

/// The language name of an entry: its file name, or `<unknown>`.
pub open spec fn font_lang_name(e: FontLangEntry) -> Seq<char> {
    match e.name {
        Some(n) => n@,
        None => "<unknown>"@,
    }
}

/// The steps for one entry: create `<lang_dir>/<name>`, remove its old `Font`,
/// copy the archive's `Font` there.
pub open spec fn font_entry_steps(lang_dir: Seq<char>, e: FontLangEntry) -> Seq<FontStepView> {
    if !installs_font(e) {
        Seq::empty()
    } else {
        let target_lang = join_path(lang_dir, font_lang_name(e));
        let target_font = join_path(target_lang, "Font"@);
        let clear = if e.target_font_exists {
            seq![FontStepView::RemoveDirAll(target_font)]
        } else {
            Seq::empty()
        };
        seq![FontStepView::CreateDirAll(target_lang)] + clear + seq![
            FontStepView::CopyDir(join_path(e.path@, "Font"@), target_font),
        ]
    }
}

pub open spec fn font_steps(lang_dir: Seq<char>, entries: Seq<FontLangEntry>) -> Seq<FontStepView>
    decreases entries.len(),
{
    if entries.len() == 0 {
        Seq::empty()
    } else {
        font_steps(lang_dir, entries.drop_last()) + font_entry_steps(lang_dir, entries.last())
    }
}

/// The number of entries that install a font.
pub open spec fn font_count(entries: Seq<FontLangEntry>) -> nat
    decreases entries.len(),
{
    if entries.len() == 0 {
        0
    } else {
        font_count(entries.drop_last()) + if installs_font(entries.last()) {
            1nat
        } else {
            0nat
        }
    }
}

proof fn lemma_font_count_bound(entries: Seq<FontLangEntry>)
    ensures
        font_count(entries) <= entries.len(),
    decreases entries.len(),
{
    if entries.len() > 0 {
        lemma_font_count_bound(entries.drop_last());
    }
}

fn push_font_steps(lang_dir: &str, e: &FontLangEntry, steps: &mut Vec<FontStep>)
    ensures
        font_steps_view(final(steps)@) == font_steps_view(old(steps)@) + font_entry_steps(lang_dir@, *e),
{
    let ghost before = steps@;
    if !(e.is_dir && e.font_dir_is_dir) {
        assert(font_steps_view(steps@) =~= font_steps_view(before) + font_entry_steps(lang_dir@, *e));
        return;
    }
    let name = match &e.name {
        Some(n) => n.clone(),
        None => String::from_str("<unknown>"),
    };
    let target_lang = join(lang_dir, name.as_str());
    let target_font = join(target_lang.as_str(), "Font");
    let from = join(e.path.as_str(), "Font");
    steps.push(FontStep::CreateDirAll(target_lang));
    if e.target_font_exists {
        steps.push(FontStep::RemoveDirAll(target_font.clone()));
    }
    steps.push(FontStep::CopyDir { from, to: target_font });
    assert(font_steps_view(steps@) =~= font_steps_view(before) + font_entry_steps(lang_dir@, *e));
}

/// Plans the installation of the font archive's language directories into
/// the game's language directory; refused when none of them holds a font.
pub fn plan_font_install(lang_dir: &str, entries: &Vec<FontLangEntry>) -> (r: Result<
    (Vec<FontStep>, usize),
    String,
>)
    ensures
        font_count(entries@) == 0 ==> (r matches Err(m) && m@
            == "No font directory was found inside the extracted font archive"@),
        font_count(entries@) > 0 ==> (r matches Ok((steps, n)) && n == font_count(entries@)
            && font_steps_view(steps@) == font_steps(lang_dir@, entries@)),
{
    let mut steps: Vec<FontStep> = Vec::new();
    let mut count: usize = 0;
    let mut i: usize = 0;
    assert(entries@.take(0) =~= Seq::<FontLangEntry>::empty());
    assert(font_steps_view(steps@) =~= Seq::<FontStepView>::empty());
    while i < entries.len()
        invariant
            i <= entries.len(),
            count == font_count(entries@.take(i as int)),
            font_steps_view(steps@) == font_steps(lang_dir@, entries@.take(i as int)),
        decreases entries.len() - i,
    {
        assert(entries@.take(i + 1).drop_last() =~= entries@.take(i as int));
        proof {
            lemma_font_count_bound(entries@.take(i as int));
        }
        push_font_steps(lang_dir, &entries[i], &mut steps);
        if entries[i].is_dir && entries[i].font_dir_is_dir {
            count = count + 1;
        }
        i = i + 1;
    }
    assert(entries@.take(entries.len() as int) =~= entries@);
    if count == 0 {
        return Err(String::from_str("No font directory was found inside the extracted font archive"));
    }
    Ok((steps, count))
}

/// Where the font archive is extracted: `font_extract` in the cache directory.
pub fn font_extract_dir(cache_dir: &str) -> (r: String)
    ensures
        r@ == join_path(cache_dir@, "font_extract"@),
{
    join(cache_dir, "font_extract")
}

/// What the caller reports back while installing the font package: the
/// outcome of the action it was last given.
pub enum FontEvent {
    /// Nothing has been done yet.
    Started,
    /// The answer to "Install font package?".
    InstallAnswered(bool),
    /// Whether the archive is already in the cache, and whether the setting
    /// records a font lock.
    CacheProbed { archive_exists: bool, font_recorded: bool },
    /// The recorded font lock's checksum was recomputed (a failure is only
    /// reported as a warning).
    CachedLockRefreshed,
    /// The answer to "Font archive is cached. Skip download?".
    UseCachedAnswered(bool),
    /// The download finished, or failed with a message.
    Downloaded(Result<(), String>),
    /// The font lock was recorded and the setting written, or writing failed.
    SettingWritten(Result<(), String>),
    /// The archive was extracted into a fresh extraction directory, or not.
    Extracted(Result<(), String>),
    /// The language directory found in the extracted archive, if any.
    LangRootLocated(Option<String>),
    /// The entries of that language directory, or why it could not be listed.
    LanguagesListed(Result<Vec<FontLangEntry>, String>),
    /// The planned file operations were carried out, or one failed.
    FontsInstalled(Result<(), String>),
    /// The extraction directory was removed (a failure is only a warning).
    CleanedUp,
}

/// What the caller does next while installing the font package.
pub enum FontAction {
    AskInstall,
    ProbeCache,
    /// Recompute the checksum of the font lock the setting records.
    RefreshCachedLock,
    AskUseCached,
    Download,
    /// Record a fresh font lock for the archive and write the setting.
    RecordLockAndWriteSetting,
    /// Empty `dir` and extract the archive into it.
    Extract { dir: String },
    /// Look for the language directory under `dir`.
    LocateLangRoot { dir: String },
    /// List the entries of the language directory `root`.
    ListLanguages { root: String },
    /// Carry out `steps`, which install `count` fonts.
    Install { steps: Vec<FontStep>, count: usize },
    /// Remove the extraction directory `dir`.
    CleanUp { dir: String },
    /// Stop: the installation is over, or failed with the message.
    Finish(Result<(), String>),
}

pub enum FontActionView {
    AskInstall,
    ProbeCache,
    RefreshCachedLock,
    AskUseCached,
    Download,
    RecordLockAndWriteSetting,
    Extract(Seq<char>),
    LocateLangRoot(Seq<char>),
    ListLanguages(Seq<char>),
    Install(Seq<FontStepView>, nat),
    CleanUp(Seq<char>),
    Finish(Result<(), Seq<char>>),
}

impl View for FontAction {
    type V = FontActionView;

    open spec fn view(&self) -> FontActionView {
        match self {
            FontAction::AskInstall => FontActionView::AskInstall,
            FontAction::ProbeCache => FontActionView::ProbeCache,
            FontAction::RefreshCachedLock => FontActionView::RefreshCachedLock,
            FontAction::AskUseCached => FontActionView::AskUseCached,
            FontAction::Download => FontActionView::Download,
            FontAction::RecordLockAndWriteSetting => FontActionView::RecordLockAndWriteSetting,
            FontAction::Extract { dir } => FontActionView::Extract(dir@),
            FontAction::LocateLangRoot { dir } => FontActionView::LocateLangRoot(dir@),
            FontAction::ListLanguages { root } => FontActionView::ListLanguages(root@),
            FontAction::Install { steps, count } => FontActionView::Install(
                font_steps_view(steps@),
                *count as nat,
            ),
            FontAction::CleanUp { dir } => FontActionView::CleanUp(dir@),
            FontAction::Finish(r) => FontActionView::Finish(
                match r {
                    Ok(_) => Ok(()),
                    Err(m) => Err(m@),
                },
            ),
        }
    }
}

/// A failure of the installation, with its message.
pub open spec fn font_failure(m: Seq<char>) -> FontActionView {
    FontActionView::Finish(Err(m))
}

/// The font installation, one outcome at a time. Declining the install ends
/// it at once; a cached archive is reused only when the user confirms it (the
/// recorded lock's checksum is refreshed first); the setting is written, with
/// a fresh font lock, after the archive is at hand and before it is
/// extracted; every failure ends the installation with its message; a
/// language directory that installs no font is a failure; at the end the
/// extraction directory is removed.
pub open spec fn font_next(lang_dir: Seq<char>, extract_dir: Seq<char>, e: FontEvent) -> FontActionView {
    match e {
        FontEvent::Started => FontActionView::AskInstall,
        FontEvent::InstallAnswered(yes) => if yes {
            FontActionView::ProbeCache
        } else {
            FontActionView::Finish(Ok(()))
        },
        FontEvent::CacheProbed { archive_exists, font_recorded } => if !archive_exists {
            FontActionView::Download
        } else if font_recorded {
            FontActionView::RefreshCachedLock
        } else {
            FontActionView::AskUseCached
        },
        FontEvent::CachedLockRefreshed => FontActionView::AskUseCached,
        FontEvent::UseCachedAnswered(use_cached) => if use_cached {
            FontActionView::RecordLockAndWriteSetting
        } else {
            FontActionView::Download
        },
        FontEvent::Downloaded(r) => match r {
            Ok(_) => FontActionView::RecordLockAndWriteSetting,
            Err(m) => font_failure(m@),
        },
        FontEvent::SettingWritten(r) => match r {
            Ok(_) => FontActionView::Extract(extract_dir),
            Err(m) => font_failure(m@),
        },
        FontEvent::Extracted(r) => match r {
            Ok(_) => FontActionView::LocateLangRoot(extract_dir),
            Err(m) => font_failure(m@),
        },
        FontEvent::LangRootLocated(root) => match root {
            Some(p) => FontActionView::ListLanguages(p@),
            None => font_failure(
                "Font archive extraction did not contain a Lang directory under "@ + extract_dir,
            ),
        },
        FontEvent::LanguagesListed(r) => match r {
            Err(m) => font_failure(m@),
            Ok(es) => if font_count(es@) == 0 {
                font_failure("No font directory was found inside the extracted font archive"@)
            } else {
                FontActionView::Install(font_steps(lang_dir, es@), font_count(es@))
            },
        },
        FontEvent::FontsInstalled(r) => match r {
            Ok(_) => FontActionView::CleanUp(extract_dir),
            Err(m) => font_failure(m@),
        },
        FontEvent::CleanedUp => FontActionView::Finish(Ok(())),
    }
}

/// The next action of the font installation into the game's language
/// directory `lang_dir`, extracting into `extract_dir`, after `event`.
pub fn next_font_action(lang_dir: &str, extract_dir: &str, event: FontEvent) -> (r: FontAction)
    ensures
        r@ == font_next(lang_dir@, extract_dir@, event),
{
    match event {
        FontEvent::Started => FontAction::AskInstall,
        FontEvent::InstallAnswered(yes) => if yes {
            FontAction::ProbeCache
        } else {
            FontAction::Finish(Ok(()))
        },
        FontEvent::CacheProbed { archive_exists, font_recorded } => if !archive_exists {
            FontAction::Download
        } else if font_recorded {
            FontAction::RefreshCachedLock
        } else {
            FontAction::AskUseCached
        },
        FontEvent::CachedLockRefreshed => FontAction::AskUseCached,
        FontEvent::UseCachedAnswered(use_cached) => if should_download_font(true, use_cached) {
            FontAction::Download
        } else {
            FontAction::RecordLockAndWriteSetting
        },
        FontEvent::Downloaded(r) => match r {
            Ok(_) => FontAction::RecordLockAndWriteSetting,
            Err(m) => FontAction::Finish(Err(m)),
        },
        FontEvent::SettingWritten(r) => match r {
            Ok(_) => FontAction::Extract { dir: extract_dir.to_owned() },
            Err(m) => FontAction::Finish(Err(m)),
        },
        FontEvent::Extracted(r) => match r {
            Ok(_) => FontAction::LocateLangRoot { dir: extract_dir.to_owned() },
            Err(m) => FontAction::Finish(Err(m)),
        },
        FontEvent::LangRootLocated(root) => match root {
            Some(p) => FontAction::ListLanguages { root: p },
            None => {
                let mut m = String::from_str("Font archive extraction did not contain a Lang directory under ");
                m.append(extract_dir);
                FontAction::Finish(Err(m))
            },
        },
        FontEvent::LanguagesListed(r) => match r {
            Err(m) => FontAction::Finish(Err(m)),
            Ok(es) => match plan_font_install(lang_dir, &es) {
                Ok((steps, count)) => FontAction::Install { steps, count },
                Err(m) => FontAction::Finish(Err(m)),
            },
        },
        FontEvent::FontsInstalled(r) => match r {
            Ok(_) => FontAction::CleanUp { dir: extract_dir.to_owned() },
            Err(m) => FontAction::Finish(Err(m)),
        },
        FontEvent::CleanedUp => FontAction::Finish(Ok(())),
    }
}

/// The order of the font installation: the archive is extracted only right
/// after the setting was written; the setting is written only once the archive
/// is at hand (just downloaded, or cached and confirmed); a download happens
/// only when no cached archive is used; and nothing follows a declined install.
pub proof fn lemma_font_install_order(lang_dir: Seq<char>, extract_dir: Seq<char>, e: FontEvent)
    ensures
        font_next(lang_dir, extract_dir, e) is Extract ==> e matches FontEvent::SettingWritten(Ok(_)),
        font_next(lang_dir, extract_dir, e) is RecordLockAndWriteSetting ==> (e matches FontEvent::Downloaded(
            Ok(_),
        ) || e == FontEvent::UseCachedAnswered(true)),
        font_next(lang_dir, extract_dir, e) is Download ==> (e matches FontEvent::CacheProbed {
            archive_exists: false,
            ..
        } || e == FontEvent::UseCachedAnswered(false)),
        e == FontEvent::InstallAnswered(false) ==> font_next(lang_dir, extract_dir, e) == FontActionView::Finish(
            Ok(()),
        ),
{
}

/// A failure reported back ends the installation with the same message.
pub proof fn lemma_font_failure_stops(lang_dir: Seq<char>, extract_dir: Seq<char>, e: FontEvent, m: String)
    requires
        e == FontEvent::Downloaded(Err(m)) || e == FontEvent::SettingWritten(Err(m))
            || e == FontEvent::Extracted(Err(m)) || e == FontEvent::LanguagesListed(Err(m))
            || e == FontEvent::FontsInstalled(Err(m)),
    ensures
        font_next(lang_dir, extract_dir, e) == font_failure(m@),
{
}

/// The archive formats the updater extracts.
pub enum ArchiveKind {
    SevenZ,
    Zip,
}

/// A file name's extension as `Path::extension` gives it: the text after the
/// last `.`, unless there is none, it is the first character, or the name is `..`.
pub open spec fn file_extension(name: Seq<char>) -> Option<Seq<char>> {
    if name == ".."@ {
        None
    } else if exists|i: int| 0 < i < name.len() && name[i] == '.' {
        let i: int = choose|i: int|
            0 < i < name.len() && name[i] == '.' && forall|j: int| i < j < name.len() ==> name[j] != '.';
        Some(name.subrange(i + 1, name.len() as int))
    } else {
        None
    }
}

/// The extension of a file name.
pub fn extension_of(name: &str) -> (r: Option<String>)
    ensures
        crate::text::opt_string_view(r) == file_extension(name@),
{
    proof {
        reveal_strlit("..");
    }
    if str_eq(name, "..") {
        return None;
    }
    let n: usize = name.unicode_len();
    let mut k: usize = n;
    while k > 0 && name.get_char(k - 1) != '.'
        invariant
            n == name@.len(),
            k <= n,
            forall|j: int| k <= j < n ==> name@[j] != '.',
        decreases k,
    {
        k = k - 1;
    }
    if k <= 1 {
        assert(!(exists|i: int| 0 < i < name@.len() && name@[i] == '.')) by {
            if exists|i: int| 0 < i < name@.len() && name@[i] == '.' {
                let i: int = choose|i: int| 0 < i < name@.len() && name@[i] == '.';
                assert(i >= k);
            }
        }
        return None;
    }
    let i: usize = k - 1;
    assert(0 < i < name@.len() && name@[i as int] == '.' && forall|j: int|
        i < j < name@.len() ==> name@[j] != '.');
    let ghost c = choose|c: int|
        0 < c < name@.len() && name@[c] == '.' && forall|j: int| c < j < name@.len() ==> name@[j] != '.';
    assert(c == i as int) by {
        if c < i {
            assert(name@[i as int] != '.');
        } else if c > i {
            assert(name@[c] != '.');
        }
    }
    Some(name.substring_char(k, n).to_owned())
}

/// The format of an archive by its file name's extension: `.7z` or `.zip`,
/// else none the updater handles.
pub open spec fn archive_kind_of(file_name: Option<Seq<char>>) -> Option<ArchiveKind> {
    match file_name {
        Some(n) => match file_extension(n) {
            Some(e) => if e == "7z"@ {
                Some(ArchiveKind::SevenZ)
            } else if e == "zip"@ {
                Some(ArchiveKind::Zip)
            } else {
                None
            },
            None => None,
        },
        None => None,
    }
}

pub fn archive_kind(file_name: Option<&str>) -> (r: Option<ArchiveKind>)
    ensures
        r == archive_kind_of(crate::text::opt_str_view(file_name)),
{
    let name = match file_name {
        Some(n) => n,
        None => return None,
    };
    match extension_of(name) {
        None => None,
        Some(e) => {
            if str_eq(e.as_str(), "7z") {
                Some(ArchiveKind::SevenZ)
            } else if str_eq(e.as_str(), "zip") {
                Some(ArchiveKind::Zip)
            } else {
                None
            }
        },
    }
}

} // verus!
