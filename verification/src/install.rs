//! Installing an extracted language archive: the archive unpacks to
//! `Lang/LimbusCompany_Data/Lang/<language>`, and each entry there is moved up
//! to `Lang/<language>`, replacing what was there, before the wrapper
//! directory is removed.

use vstd::prelude::*;
use crate::text::{join, join_path};

verus! {

/// An entry of the extracted language directory, with what is at its target.
pub struct ExtractedEntry {
    /// The entry's file name.
    pub name: String,
    pub is_dir: bool,
    /// Something already exists at `Lang/<name>`.
    pub target_exists: bool,
    /// What exists at `Lang/<name>` is a directory.
    pub target_is_dir: bool,
}

/// One file-system operation of an installation.
pub enum InstallStep {
    /// Remove a directory and everything in it.
    RemoveDirAll(String),
    /// Remove a file.
    RemoveFile(String),
    /// Move the directory `from` into the directory `into`, keeping its name.
    MoveDirInto { from: String, into: String },
    /// Rename the file `from` to `to`.
    Rename { from: String, to: String },
}

/// What an installation step does, as text.
pub enum StepView {
    RemoveDirAll(Seq<char>),
    RemoveFile(Seq<char>),
    MoveDirInto(Seq<char>, Seq<char>),
    Rename(Seq<char>, Seq<char>),
}

impl View for InstallStep {
    type V = StepView;

    open spec fn view(&self) -> StepView {
        match self {
            InstallStep::RemoveDirAll(p) => StepView::RemoveDirAll(p@),
            InstallStep::RemoveFile(p) => StepView::RemoveFile(p@),
            InstallStep::MoveDirInto { from, into } => StepView::MoveDirInto(from@, into@),
            InstallStep::Rename { from, to } => StepView::Rename(from@, to@),
        }
    }
}

pub open spec fn steps_view(steps: Seq<InstallStep>) -> Seq<StepView> {
    steps.map_values(|s: InstallStep| s@)
}

/// The wrapper directory the archive unpacks: `LimbusCompany_Data` in the language directory.
pub open spec fn extract_root(lang_dir: Seq<char>) -> Seq<char> {
    join_path(lang_dir, "LimbusCompany_Data"@)
}

/// The extracted language directory: `LimbusCompany_Data/Lang` in the language directory.
pub open spec fn extracted_lang_dir(lang_dir: Seq<char>) -> Seq<char> {
    join_path(extract_root(lang_dir), "Lang"@)
}

/// The steps for one extracted entry: clear its target, then move it there.
pub open spec fn entry_steps(lang_dir: Seq<char>, e: ExtractedEntry) -> Seq<StepView> {
    let source = join_path(extracted_lang_dir(lang_dir), e.name@);
    let target = join_path(lang_dir, e.name@);
    let clear = if !e.target_exists {
        Seq::empty()
    } else if e.target_is_dir {
        seq![StepView::RemoveDirAll(target)]
    } else {
        seq![StepView::RemoveFile(target)]
    };
    let place = if e.is_dir {
        StepView::MoveDirInto(source, lang_dir)
    } else {
        StepView::Rename(source, target)
    };
    clear.push(place)
}

/// The steps for the extracted entries, entry by entry in listing order.
pub open spec fn entries_steps(lang_dir: Seq<char>, entries: Seq<ExtractedEntry>) -> Seq<StepView>
    decreases entries.len(),
{
    if entries.len() == 0 {
        Seq::empty()
    } else {
        entries_steps(lang_dir, entries.drop_last()) + entry_steps(lang_dir, entries.last())
    }
}

/// The whole installation: nothing when there is no extracted language
/// directory; otherwise the entries' steps, then the removal of the wrapper
/// directory if it is there.
pub open spec fn install_steps(
    lang_dir: Seq<char>,
    extracted_exists: bool,
    entries: Seq<ExtractedEntry>,
) -> Seq<StepView> {
    if !extracted_exists {
        Seq::empty()
    } else {
        entries_steps(lang_dir, entries).push(StepView::RemoveDirAll(extract_root(lang_dir)))
    }
}

/// The steps of a plan that put an entry in place (a move or a rename), in order.
pub open spec fn placing_steps(steps: Seq<StepView>) -> Seq<StepView>
    decreases steps.len(),
{
    if steps.len() == 0 {
        Seq::empty()
    } else {
        let init = placing_steps(steps.drop_last());
        match steps.last() {
            StepView::MoveDirInto(_, _) => init.push(steps.last()),
            StepView::Rename(_, _) => init.push(steps.last()),
            _ => init,
        }
    }
}

proof fn lemma_placing_steps_concat(a: Seq<StepView>, b: Seq<StepView>)
    ensures
        placing_steps(a + b) == placing_steps(a) + placing_steps(b),
    decreases b.len(),
{
    if b.len() == 0 {
        assert(a + b =~= a);
        assert(placing_steps(a) + placing_steps(b) =~= placing_steps(a));
    } else {
        lemma_placing_steps_concat(a, b.drop_last());
        assert((a + b).drop_last() =~= a + b.drop_last());
        assert((a + b).last() == b.last());
        assert(placing_steps(a + b) =~= placing_steps(a) + placing_steps(b));
    }
}

/// Every extracted entry is put in place by exactly one step, in listing
/// order, whatever exists at its target: a directory is moved from
/// `LimbusCompany_Data/Lang/<name>` into the language directory, and a file is
/// renamed from there to `<lang_dir>/<name>`. The last step removes the
/// wrapper directory `LimbusCompany_Data`.
pub proof fn lemma_install_places_every_entry(lang_dir: Seq<char>, entries: Seq<ExtractedEntry>)
    ensures
        placing_steps(install_steps(lang_dir, true, entries)) == Seq::new(
            entries.len(),
            |i: int|
                {
                    let source = join_path(
                        join_path(join_path(lang_dir, "LimbusCompany_Data"@), "Lang"@),
                        entries[i].name@,
                    );
                    if entries[i].is_dir {
                        StepView::MoveDirInto(source, lang_dir)
                    } else {
                        StepView::Rename(source, join_path(lang_dir, entries[i].name@))
                    }
                },
        ),
        install_steps(lang_dir, true, entries).last() == StepView::RemoveDirAll(
            join_path(lang_dir, "LimbusCompany_Data"@),
        ),
    decreases entries.len(),
{
    let all = install_steps(lang_dir, true, entries);
    let body = entries_steps(lang_dir, entries);
    let last = StepView::RemoveDirAll(join_path(lang_dir, "LimbusCompany_Data"@));
    assert(all == body.push(last));
    assert(all.drop_last() =~= body);
    assert(placing_steps(all) == placing_steps(body));
    lemma_entries_placing(lang_dir, entries);
}

proof fn lemma_entries_placing(lang_dir: Seq<char>, entries: Seq<ExtractedEntry>)
    ensures
        placing_steps(entries_steps(lang_dir, entries)) == Seq::new(
            entries.len(),
            |i: int|
                {
                    let source = join_path(
                        join_path(join_path(lang_dir, "LimbusCompany_Data"@), "Lang"@),
                        entries[i].name@,
                    );
                    if entries[i].is_dir {
                        StepView::MoveDirInto(source, lang_dir)
                    } else {
                        StepView::Rename(source, join_path(lang_dir, entries[i].name@))
                    }
                },
        ),
    decreases entries.len(),
{
    if entries.len() == 0 {
        assert(placing_steps(entries_steps(lang_dir, entries)) =~= Seq::<StepView>::empty());
    } else {
        let init = entries.drop_last();
        let e = entries.last();
        lemma_entries_placing(lang_dir, init);
        lemma_placing_steps_concat(entries_steps(lang_dir, init), entry_steps(lang_dir, e));
        let es = entry_steps(lang_dir, e);
        let clear = es.drop_last();
        let target = join_path(lang_dir, e.name@);
        assert(placing_steps(clear) =~= Seq::<StepView>::empty()) by {
            if !e.target_exists {
                assert(clear =~= Seq::<StepView>::empty());
            } else {
                if e.target_is_dir {
                    assert(clear =~= seq![StepView::RemoveDirAll(target)]);
                } else {
                    assert(clear =~= seq![StepView::RemoveFile(target)]);
                }
                assert(clear.drop_last() =~= Seq::<StepView>::empty());
                assert(placing_steps(Seq::<StepView>::empty()) == Seq::<StepView>::empty());
            }
        }
        assert(es.drop_last() == clear);
        assert(placing_steps(es) =~= seq![es.last()]);
        assert(placing_steps(entries_steps(lang_dir, entries)) =~= Seq::new(
            entries.len(),
            |i: int|
                {
                    let source = join_path(
                        join_path(join_path(lang_dir, "LimbusCompany_Data"@), "Lang"@),
                        entries[i].name@,
                    );
                    if entries[i].is_dir {
                        StepView::MoveDirInto(source, lang_dir)
                    } else {
                        StepView::Rename(source, join_path(lang_dir, entries[i].name@))
                    }
                },
        ));
    }
}

/// The extracted language directory under `lang_dir`.
pub fn get_extracted_lang_dir(lang_dir: &str) -> (r: String)
    ensures
        r@ == extracted_lang_dir(lang_dir@),
{
    let root = join(lang_dir, "LimbusCompany_Data");
    join(root.as_str(), "Lang")
}

fn push_entry_steps(lang_dir: &str, extracted: &str, e: &ExtractedEntry, steps: &mut Vec<InstallStep>)
    requires
        extracted@ == extracted_lang_dir(lang_dir@),
    ensures
        steps_view(final(steps)@) == steps_view(old(steps)@) + entry_steps(lang_dir@, *e),
{
    let ghost before = steps@;
    let source = join(extracted, e.name.as_str());
    let target = join(lang_dir, e.name.as_str());
    if e.target_exists {
        if e.target_is_dir {
            steps.push(InstallStep::RemoveDirAll(target.clone()));
        } else {
            steps.push(InstallStep::RemoveFile(target.clone()));
        }
    }
    if e.is_dir {
        steps.push(InstallStep::MoveDirInto { from: source, into: lang_dir.to_owned() });
    } else {
        steps.push(InstallStep::Rename { from: source, to: target });
    }
    assert(steps_view(steps@) =~= steps_view(before) + entry_steps(lang_dir@, *e));
}

/// Plans the installation of an extracted archive into the language
/// directory `lang_dir`, given whether the extracted language directory
/// exists and its entries.
pub fn install_and_clean(
    lang_dir: &str,
    extracted_exists: bool,
    entries: &Vec<ExtractedEntry>,
) -> (r: Vec<InstallStep>)
    ensures
        steps_view(r@) == install_steps(lang_dir@, extracted_exists, entries@),
{
    let mut steps: Vec<InstallStep> = Vec::new();
    if !extracted_exists {
        assert(steps_view(steps@) =~= Seq::<StepView>::empty());
        return steps;
    }
    let extracted = get_extracted_lang_dir(lang_dir);
    let mut i: usize = 0;
    assert(entries@.take(0) =~= Seq::<ExtractedEntry>::empty());
    assert(steps_view(steps@) =~= Seq::<StepView>::empty());
    while i < entries.len()
        invariant
            i <= entries.len(),
            extracted@ == extracted_lang_dir(lang_dir@),
            steps_view(steps@) == entries_steps(lang_dir@, entries@.take(i as int)),
        decreases entries.len() - i,
    {
        push_entry_steps(lang_dir, extracted.as_str(), &entries[i], &mut steps);
        assert(entries@.take(i + 1).drop_last() =~= entries@.take(i as int));
        i = i + 1;
    }
    assert(entries@.take(entries.len() as int) =~= entries@);
    let ghost before = steps@;
    let root = join(lang_dir, "LimbusCompany_Data");
    steps.push(InstallStep::RemoveDirAll(root));
    assert(steps_view(steps@) =~= steps_view(before).push(StepView::RemoveDirAll(extract_root(lang_dir@))));
    steps
}

} // verus!
