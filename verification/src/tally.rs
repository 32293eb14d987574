//! The running totals of changed lines, one per counted extension.

use vstd::prelude::*;
use vstd::string::*;
use crate::extension::{allowed_extensions, counted_extension, derive_extension, is_allowed};
use crate::model::{FileChange, FileChangeView};

verus! {

/// One line of the tally: an extension and the changes credited to it.
pub struct EntryView {
    pub extension: Seq<char>,
    pub total: nat,
}

/// Whether the tally `t` has a line for `ext`.
pub open spec fn has_entry(t: Seq<EntryView>, ext: Seq<char>) -> bool {
    exists|i: int| 0 <= i < t.len() && (#[trigger] t[i]).extension == ext
}

/// Where the line for `ext` stands in `t`, if it has one.
pub open spec fn entry_index(t: Seq<EntryView>, ext: Seq<char>) -> int {
    choose|i: int| 0 <= i < t.len() && (#[trigger] t[i]).extension == ext
}

/// The changes credited to `ext` in `t`; zero if `t` has no line for it.
pub open spec fn total_of(t: Seq<EntryView>, ext: Seq<char>) -> nat {
    if has_entry(t, ext) {
        t[entry_index(t, ext)].total
    } else {
        0
    }
}

/// Credits `changes` to `ext`.
///
/// An extension seen for the first time gets a new line at the end, and that
/// line starts at `changes` before the credit is added: the first file of an
/// extension counts twice.
pub open spec fn credit(t: Seq<EntryView>, ext: Seq<char>, changes: nat) -> Seq<EntryView> {
    if has_entry(t, ext) {
        let i = entry_index(t, ext);
        t.update(i, EntryView { extension: ext, total: t[i].total + changes })
    } else {
        t.push(EntryView { extension: ext, total: changes + changes })
    }
}

/// The tally after one file: unchanged unless the file's extension is counted.
pub open spec fn record(t: Seq<EntryView>, file: FileChangeView) -> Seq<EntryView> {
    match counted_extension(file.filename) {
        Some(ext) => credit(t, ext, file.changes),
        None => t,
    }
}

/// The tally after a list of files, taken in order.
pub open spec fn record_all(t: Seq<EntryView>, files: Seq<FileChangeView>) -> Seq<EntryView>
    decreases files.len(),
{
    if files.len() == 0 {
        t
    } else {
        record_all(record(t, files.first()), files.drop_first())
    }
}

/// No extension has two lines, and every line is for a counted extension.
pub open spec fn well_formed(t: Seq<EntryView>) -> bool {
    &&& forall|i: int, j: int|
        0 <= i < j < t.len() ==> (#[trigger] t[i]).extension != (#[trigger] t[j]).extension
    &&& forall|i: int| 0 <= i < t.len() ==> allowed_extensions().contains((#[trigger] t[i]).extension)
}

/// Every total can be held in 64 bits.
pub open spec fn fits(t: Seq<EntryView>) -> bool {
    forall|i: int| 0 <= i < t.len() ==> (#[trigger] t[i]).total <= u64::MAX
}

/// `later` continues `earlier`: the lines of `earlier` are still there, in
/// their places, and none has a smaller total.
pub open spec fn extends(later: Seq<EntryView>, earlier: Seq<EntryView>) -> bool {
    &&& earlier.len() <= later.len()
    &&& forall|i: int|
        0 <= i < earlier.len() ==> (#[trigger] later[i]).extension == earlier[i].extension
            && later[i].total >= earlier[i].total
}

/// A credit keeps the tally well formed when the extension is counted, and
/// the new tally continues the old one.
pub proof fn lemma_credit_extends(t: Seq<EntryView>, ext: Seq<char>, changes: nat)
    requires
        well_formed(t),
        allowed_extensions().contains(ext),
    ensures
        well_formed(credit(t, ext, changes)),
        extends(credit(t, ext, changes), t),
        has_entry(credit(t, ext, changes), ext),
{
    let after = credit(t, ext, changes);
    if has_entry(t, ext) {
        let i = entry_index(t, ext);
        assert(after[i].extension == ext);
    } else {
        assert(after[t.len() as int].extension == ext);
    }
}

/// Counting a file never loses a line and never lowers a total.
pub proof fn lemma_record_extends(t: Seq<EntryView>, file: FileChangeView)
    requires
        well_formed(t),
    ensures
        well_formed(record(t, file)),
        extends(record(t, file), t),
{
    match counted_extension(file.filename) {
        Some(ext) => {
            lemma_credit_extends(t, ext, file.changes);
        },
        None => {},
    }
}

/// Counting a list of files never loses a line and never lowers a total.
pub proof fn lemma_record_all_extends(t: Seq<EntryView>, files: Seq<FileChangeView>)
    requires
        well_formed(t),
    ensures
        well_formed(record_all(t, files)),
        extends(record_all(t, files), t),
    decreases files.len(),
{
    if files.len() > 0 {
        lemma_record_extends(t, files.first());
        lemma_record_all_extends(record(t, files.first()), files.drop_first());
    }
}

/// Counting the files of `front` and then those of `back` is counting the
/// files of `front + back`.
pub proof fn lemma_record_all_concat(
    t: Seq<EntryView>,
    front: Seq<FileChangeView>,
    back: Seq<FileChangeView>,
)
    ensures
        record_all(t, front + back) == record_all(record_all(t, front), back),
    decreases front.len(),
{
    if front.len() == 0 {
        assert(front + back =~= back);
    } else {
        assert((front + back).first() == front.first());
        assert((front + back).drop_first() =~= front.drop_first() + back);
        lemma_record_all_concat(record(t, front.first()), front.drop_first(), back);
    }
}

/// A tally that overflowed stays overflowed, whatever is counted after.
pub proof fn lemma_overflow_persists(t: Seq<EntryView>, files: Seq<FileChangeView>)
    requires
        well_formed(t),
        !fits(t),
    ensures
        !fits(record_all(t, files)),
{
    lemma_record_all_extends(t, files);
    let later = record_all(t, files);
    let i = choose|i: int| 0 <= i < t.len() && (#[trigger] t[i]).total > u64::MAX;
    assert(later[i].total >= t[i].total);
}

/// A tally has at most six lines: one for each counted extension.
pub proof fn lemma_tally_is_short(t: Seq<EntryView>)
    requires
        well_formed(t),
    ensures
        t.len() <= 6,
{
    let keys = t.map_values(|entry: EntryView| entry.extension);
    let allowed = allowed_extensions();
    assert(keys.no_duplicates());
    keys.unique_seq_to_set();
    assert(keys.to_set().subset_of(allowed)) by {
        assert forall|key: Seq<char>| keys.to_set().contains(key) implies allowed.contains(key) by {
            let i = choose|i: int| 0 <= i < keys.len() && keys[i] == key;
            assert(t[i].extension == key);
        }
    }
    assert(allowed.finite() && allowed.len() <= 6);
    vstd::set_lib::lemma_len_subset(keys.to_set(), allowed);
}

/// A line of the tally.
#[derive(Debug, Clone, PartialEq, Eq)]
pub struct TallyEntry {
    pub extension: String,
    pub total: u64,
}

impl View for TallyEntry {
    type V = EntryView;

    open spec fn view(&self) -> EntryView {
        EntryView { extension: self.extension@, total: self.total as nat }
    }
}

impl DeepView for TallyEntry {
    type V = EntryView;

    open spec fn deep_view(&self) -> EntryView {
        self@
    }
}

/// A total left the range of 64 bits.
#[derive(Debug, Clone, Copy, PartialEq, Eq, Structural)]
pub struct TallyOverflow;

/// Changed lines per counted extension, in the order in which the extensions
/// were first seen.
#[derive(Debug, Clone, PartialEq, Eq)]
pub struct ExtensionTally {
    pub entries: Vec<TallyEntry>,
}

impl View for ExtensionTally {
    type V = Seq<EntryView>;

    open spec fn view(&self) -> Seq<EntryView> {
        self.entries.deep_view()
    }
}

impl ExtensionTally {
    /// The invariant of a tally: see [`well_formed`].
    pub open spec fn wf(&self) -> bool {
        well_formed(self@)
    }

    /// The empty tally.
    pub fn new() -> (tally: ExtensionTally)
        ensures
            tally@ == Seq::<EntryView>::empty(),
            tally.wf(),
    {
        let tally = ExtensionTally { entries: Vec::new() };
        assert(tally@ =~= Seq::<EntryView>::empty());
        tally
    }

    /// Whether the tally is well formed. A tally that was made by [`new`] and
    /// changed by the functions of this type always is.
    ///
    /// [`new`]: ExtensionTally::new
    pub fn is_well_formed(&self) -> (ok: bool)
        ensures
            ok == self.wf(),
    {
        let n = self.entries.len();
        let mut j: usize = 0;
        while j < n
            invariant
                j <= n,
                n == self@.len(),
                forall|a: int, b: int|
                    0 <= a < b < j ==> (#[trigger] self@[a]).extension != (
                    #[trigger] self@[b]).extension,
                forall|a: int|
                    0 <= a < j ==> allowed_extensions().contains((#[trigger] self@[a]).extension),
            decreases n - j,
        {
            if !is_allowed(self.entries[j].extension.as_str()) {
                assert(!allowed_extensions().contains(self@[j as int].extension));
                return false;
            }
            let mut i: usize = 0;
            while i < j
                invariant
                    i <= j < n,
                    n == self@.len(),
                    forall|a: int|
                        0 <= a < i ==> (#[trigger] self@[a]).extension != self@[j as int].extension,
                decreases j - i,
            {
                if self.entries[i].extension == self.entries[j].extension {
                    assert(self@[i as int].extension == self@[j as int].extension);
                    return false;
                }
                i += 1;
            }
            j += 1;
        }
        true
    }

    /// The number of extensions seen so far.
    pub fn len(&self) -> (n: usize)
        ensures
            n == self@.len(),
    {
        self.entries.len()
    }

    /// The extension of the line at `index`.
    pub fn extension_at(&self, index: usize) -> (ext: &str)
        requires
            index < self@.len(),
        ensures
            ext@ == self@[index as int].extension,
    {
        self.entries[index].extension.as_str()
    }

    /// The total of the line at `index`.
    pub fn total_at(&self, index: usize) -> (total: u64)
        requires
            index < self@.len(),
        ensures
            total == self@[index as int].total,
    {
        self.entries[index].total
    }

    fn find(&self, ext: &String) -> (found: Option<usize>)
        ensures
            match found {
                Some(i) => i < self@.len() && self@[i as int].extension == ext@,
                None => !has_entry(self@, ext@),
            },
    {
        let mut i: usize = 0;
        while i < self.entries.len()
            invariant
                i <= self.entries.len(),
                forall|j: int| 0 <= j < i ==> (#[trigger] self@[j]).extension != ext@,
            decreases self.entries.len() - i,
        {
            if self.entries[i].extension == *ext {
                return Some(i);
            }
            i += 1;
        }
        None
    }

    /// The changes credited to `ext`, if the tally has a line for it.
    pub fn total(&self, ext: &str) -> (total: Option<u64>)
        requires
            self.wf(),
        ensures
            total is Some == has_entry(self@, ext@),
            total matches Some(n) ==> n == total_of(self@, ext@),
    {
        let key = String::from_str(ext);
        match self.find(&key) {
            Some(i) => {
                assert(has_entry(self@, ext@));
                Some(self.entries[i].total)
            },
            None => None,
        }
    }

    /// Counts a list of files, in order.
    ///
    /// The result is the tally that [`record_all`] describes, unless a total
    /// leaves the range of 64 bits on the way.
    pub fn record_all(self, files: &Vec<FileChange>) -> (outcome: Result<
        ExtensionTally,
        TallyOverflow,
    >)
        requires
            self.wf(),
        ensures
            outcome is Ok == fits(record_all(self@, files.deep_view())),
            outcome matches Ok(tally) ==> tally.wf() && tally@ == record_all(
                self@,
                files.deep_view(),
            ),
    {
        let ghost all = files.deep_view();
        let mut tally = self;
        let mut i: usize = 0;
        assert(all.skip(0) =~= all);
        while i < files.len()
            invariant
                i <= files.len(),
                all == files.deep_view(),
                tally.wf(),
                record_all(tally@, all.skip(i as int)) == record_all(self@, all),
            decreases files.len() - i,
        {
            let ghost rest = all.skip(i as int);
            let ghost before = tally@;
            assert(rest.first() == files[i as int]@);
            assert(rest.drop_first() =~= all.skip(i + 1));
            match tally.record(&files[i]) {
                Ok(()) => {},
                Err(overflow) => {
                    proof {
                        lemma_record_extends(before, rest.first());
                        lemma_overflow_persists(record(before, rest.first()), rest.drop_first());
                    }
                    return Err(overflow);
                },
            }
            i += 1;
        }
        assert(all.skip(i as int).len() == 0);
        assert(fits(tally@));
        Ok(tally)
    }

    /// Counts one file.
    ///
    /// The tally changes as [`record`] says, unless a total would leave the
    /// range of 64 bits: then the tally stays as it was and the overflow is
    /// reported.
    pub fn record(&mut self, file: &FileChange) -> (outcome: Result<(), TallyOverflow>)
        requires
            old(self).wf(),
        ensures
            final(self).wf(),
            extends(final(self)@, old(self)@),
            fits(record(old(self)@, file@)) ==> outcome is Ok && final(self)@ == record(
                old(self)@,
                file@,
            ),
            !fits(record(old(self)@, file@)) ==> outcome is Err && final(self)@ == old(self)@,
    {
        let ext = match derive_extension(file.filename.as_str()) {
            Some(ext) => ext,
            None => {
                return Ok(());
            },
        };
        if !is_allowed(ext.as_str()) {
            return Ok(());
        }
        let ghost before = self@;
        let ghost after = record(before, file@);
        assert(after == credit(before, ext@, file@.changes));
        match self.find(&ext) {
            Some(i) => {
                assert(has_entry(before, ext@));
                assert(entry_index(before, ext@) == i);
                match self.entries[i].total.checked_add(file.changes) {
                    Some(total) => {
                        self.entries[i].total = total;
                        assert(self@ =~= after);
                        Ok(())
                    },
                    None => {
                        assert(after[i as int].total > u64::MAX);
                        Err(TallyOverflow)
                    },
                }
            },
            None => {
                match file.changes.checked_add(file.changes) {
                    Some(total) => {
                        self.entries.push(TallyEntry { extension: ext, total });
                        assert(self@ =~= after);
                        Ok(())
                    },
                    None => {
                        assert(after[before.len() as int].total > u64::MAX);
                        Err(TallyOverflow)
                    },
                }
            },
        }
    }
}

} // verus!
