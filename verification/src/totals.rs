//! What a tally adds up to: the laws that tie it to sums over the files.

use vstd::prelude::*;
use vstd::seq_lib::*;
use crate::extension::{
    allowed_extensions,
    counted_extension,
    extension_of,
    lemma_extension_is_suffix_after_last_dot,
};
use crate::model::FileChangeView;
use crate::tally::{
    credit,
    entry_index,
    extends,
    has_entry,
    lemma_credit_extends,
    lemma_record_all_extends,
    lemma_record_extends,
    record,
    record_all,
    total_of,
    well_formed,
    EntryView,
};

verus! {

/// What `file` adds to the sum for `ext`: its changes if it is counted under
/// `ext`, nothing otherwise.
pub open spec fn share(file: FileChangeView, ext: Seq<char>) -> nat {
    if counted_extension(file.filename) == Some(ext) {
        file.changes
    } else {
        0
    }
}

/// The changes of all files of `files` that are counted under `ext`.
pub open spec fn sum_changes(files: Seq<FileChangeView>, ext: Seq<char>) -> nat
    decreases files.len(),
{
    if files.len() == 0 {
        0
    } else {
        share(files.first(), ext) + sum_changes(files.drop_first(), ext)
    }
}

/// Whether some file of `files` is counted under `ext`.
pub open spec fn mentions(files: Seq<FileChangeView>, ext: Seq<char>) -> bool {
    exists|i: int| 0 <= i < files.len() && counted_extension((#[trigger] files[i]).filename) == Some(ext)
}

/// The changes of the first file of `files` that is counted under `ext`;
/// zero if there is none.
pub open spec fn first_changes(files: Seq<FileChangeView>, ext: Seq<char>) -> nat
    decreases files.len(),
{
    if files.len() == 0 {
        0
    } else if counted_extension(files.first().filename) == Some(ext) {
        files.first().changes
    } else {
        first_changes(files.drop_first(), ext)
    }
}

/// What one credit does to the total of every extension.
pub proof fn lemma_total_after_credit(
    t: Seq<EntryView>,
    credited: Seq<char>,
    changes: nat,
    ext: Seq<char>,
)
    requires
        well_formed(t),
        allowed_extensions().contains(credited),
    ensures
        has_entry(credit(t, credited, changes), ext) <==> has_entry(t, ext) || ext == credited,
        ext != credited ==> total_of(credit(t, credited, changes), ext) == total_of(t, ext),
        ext == credited && has_entry(t, ext) ==> total_of(credit(t, credited, changes), ext)
            == total_of(t, ext) + changes,
        ext == credited && !has_entry(t, ext) ==> total_of(credit(t, credited, changes), ext)
            == changes + changes,
{
    let after = credit(t, credited, changes);
    lemma_credit_extends(t, credited, changes);
    if has_entry(t, ext) {
        let i = entry_index(t, ext);
        assert(after[i].extension == ext);
        assert(has_entry(after, ext));
    }
    if has_entry(after, ext) {
        let k = entry_index(after, ext);
        if ext != credited {
            assert(k < t.len());
            assert(t[k].extension == ext);
            assert(entry_index(t, ext) == k);
        } else if has_entry(t, ext) {
            assert(k == entry_index(t, ext));
        } else {
            assert(after[t.len() as int].extension == ext);
            assert(k == t.len());
        }
    }
}

/// The total of an extension is what the tally held for it before, plus the
/// changes of every file counted under it, plus once more the changes of the
/// first such file if the tally had no line for the extension yet.
pub proof fn lemma_total_after_files(
    t: Seq<EntryView>,
    files: Seq<FileChangeView>,
    ext: Seq<char>,
)
    requires
        well_formed(t),
    ensures
        has_entry(record_all(t, files), ext) <==> has_entry(t, ext) || mentions(files, ext),
        total_of(record_all(t, files), ext) == total_of(t, ext) + sum_changes(files, ext) + (
        if has_entry(t, ext) {
            0
        } else {
            first_changes(files, ext)
        }),
    decreases files.len(),
{
    if files.len() > 0 {
        let file = files.first();
        let rest = files.drop_first();
        let next = record(t, file);
        lemma_record_extends(t, file);
        lemma_total_after_files(next, rest, ext);
        match counted_extension(file.filename) {
            Some(credited) => {
                lemma_total_after_credit(t, credited, file.changes, ext);
            },
            None => {},
        }
        if mentions(rest, ext) {
            let i = choose|i: int|
                0 <= i < rest.len() && counted_extension((#[trigger] rest[i]).filename) == Some(
                    ext,
                );
            assert(files[i + 1] == rest[i]);
        }
        if counted_extension(file.filename) == Some(ext) {
            assert(files[0] == file);
        }
        if mentions(files, ext) {
            let i = choose|i: int|
                0 <= i < files.len() && counted_extension((#[trigger] files[i]).filename) == Some(
                    ext,
                );
            if i > 0 {
                assert(rest[i - 1] == files[i]);
            }
        }
    }
}

/// A file touches at most one line of the tally: the line of the extension
/// under which it is counted. Every other extension keeps what it had.
pub proof fn lemma_file_touches_one_line(t: Seq<EntryView>, file: FileChangeView, ext: Seq<char>)
    requires
        well_formed(t),
        counted_extension(file.filename) != Some(ext),
    ensures
        has_entry(record(t, file), ext) == has_entry(t, ext),
        total_of(record(t, file), ext) == total_of(t, ext),
{
    match counted_extension(file.filename) {
        Some(credited) => {
            lemma_total_after_credit(t, credited, file.changes, ext);
        },
        None => {},
    }
}

/// From an empty tally, the total of an extension is the sum of the changes
/// of the files counted under it, plus once more the changes of the first of
/// them.
pub proof fn lemma_total_is_sum_plus_first(files: Seq<FileChangeView>, ext: Seq<char>)
    ensures
        total_of(record_all(Seq::empty(), files), ext) == sum_changes(files, ext) + first_changes(
            files,
            ext,
        ),
        has_entry(record_all(Seq::empty(), files), ext) <==> mentions(files, ext),
{
    lemma_total_after_files(Seq::empty(), files, ext);
}

/// From an empty tally, and where the first file counted under an extension
/// changed no lines, the total of that extension is the sum of the changes of
/// the files counted under it.
pub proof fn lemma_total_is_sum(files: Seq<FileChangeView>, ext: Seq<char>)
    requires
        first_changes(files, ext) == 0,
    ensures
        total_of(record_all(Seq::empty(), files), ext) == sum_changes(files, ext),
{
    lemma_total_is_sum_plus_first(files, ext);
}

/// Taking one file out of a list takes its share out of the sum.
pub proof fn lemma_sum_without(files: Seq<FileChangeView>, at: int, ext: Seq<char>)
    requires
        0 <= at < files.len(),
    ensures
        sum_changes(files, ext) == share(files[at], ext) + sum_changes(files.remove(at), ext),
    decreases at,
{
    if at == 0 {
        assert(files.remove(0) =~= files.drop_first());
    } else {
        let rest = files.drop_first();
        lemma_sum_without(rest, at - 1, ext);
        assert(files.remove(at).first() == files.first());
        assert(files.remove(at).drop_first() =~= rest.remove(at - 1));
    }
}

/// The sum for an extension does not depend on the order of the files.
pub proof fn lemma_sum_ignores_order(
    files: Seq<FileChangeView>,
    shuffled: Seq<FileChangeView>,
    ext: Seq<char>,
)
    requires
        files.to_multiset() == shuffled.to_multiset(),
    ensures
        sum_changes(files, ext) == sum_changes(shuffled, ext),
    decreases files.len(),
{
    broadcast use {to_multiset_len, to_multiset_contains, to_multiset_remove};

    assert(files.len() == shuffled.len()) by {
        assert(files.to_multiset().len() == files.len());
        assert(shuffled.to_multiset().len() == shuffled.len());
    }
    if files.len() > 0 {
        let file = files.first();
        assert(files.contains(file));
        assert(files.to_multiset().count(file) > 0);
        assert(shuffled.contains(file));
        let at = choose|at: int| 0 <= at < shuffled.len() && shuffled[at] == file;
        assert(files.remove(0) =~= files.drop_first());
        assert(files.remove(0).to_multiset() == files.to_multiset().remove(file));
        assert(shuffled.remove(at).to_multiset() == shuffled.to_multiset().remove(file));
        lemma_sum_ignores_order(files.drop_first(), shuffled.remove(at), ext);
        lemma_sum_without(shuffled, at, ext);
    }
}

/// From an empty tally, the total of an extension does not depend on the
/// order of the files, as long as the first file counted under it changed as
/// many lines in the one order as in the other.
pub proof fn lemma_total_ignores_order(
    files: Seq<FileChangeView>,
    shuffled: Seq<FileChangeView>,
    ext: Seq<char>,
)
    requires
        files.to_multiset() == shuffled.to_multiset(),
        first_changes(files, ext) == first_changes(shuffled, ext),
    ensures
        total_of(record_all(Seq::empty(), files), ext) == total_of(
            record_all(Seq::empty(), shuffled),
            ext,
        ),
        has_entry(record_all(Seq::empty(), files), ext) == has_entry(
            record_all(Seq::empty(), shuffled),
            ext,
        ),
{
    lemma_total_is_sum_plus_first(files, ext);
    lemma_total_is_sum_plus_first(shuffled, ext);
    lemma_sum_ignores_order(files, shuffled, ext);
    lemma_mentions_ignores_order(files, shuffled, ext);
    lemma_mentions_ignores_order(shuffled, files, ext);
}

/// Whether an extension is mentioned does not depend on the order of the
/// files.
pub proof fn lemma_mentions_ignores_order(
    files: Seq<FileChangeView>,
    shuffled: Seq<FileChangeView>,
    ext: Seq<char>,
)
    requires
        files.to_multiset() == shuffled.to_multiset(),
    ensures
        mentions(files, ext) ==> mentions(shuffled, ext),
{
    broadcast use to_multiset_contains;

    if mentions(files, ext) {
        let i = choose|i: int|
            0 <= i < files.len() && counted_extension((#[trigger] files[i]).filename) == Some(ext);
        assert(files.contains(files[i]));
        assert(shuffled.to_multiset().count(files[i]) > 0);
        assert(shuffled.contains(files[i]));
        let j = choose|j: int| 0 <= j < shuffled.len() && shuffled[j] == files[i];
        assert(counted_extension(shuffled[j].filename) == Some(ext));
    }
}

/// Whatever the files are called, every line of the tally is for one of the
/// counted extensions, and no extension has two lines.
pub proof fn lemma_only_counted_extensions(files: Seq<FileChangeView>)
    ensures
        well_formed(record_all(Seq::empty(), files)),
        forall|i: int|
            0 <= i < record_all(Seq::empty(), files).len() ==> allowed_extensions().contains(
                (#[trigger] record_all(Seq::empty(), files)[i]).extension,
            ),
{
    lemma_record_all_extends(Seq::empty(), files);
}

/// A file whose name holds no `.`, or ends in one, leaves every tally as it
/// is.
pub proof fn lemma_no_extension_no_credit(t: Seq<EntryView>, file: FileChangeView)
    requires
        !file.filename.contains('.') || (file.filename.len() > 0 && file.filename.last() == '.'),
    ensures
        counted_extension(file.filename) is None,
        record(t, file) == t,
        forall|ext: Seq<char>| share(file, ext) == 0,
{
    lemma_extension_is_suffix_after_last_dot(file.filename);
    if file.filename.contains('.') {
        assert(extension_of(file.filename) == Some(Seq::<char>::empty()));
        assert(!allowed_extensions().contains(Seq::<char>::empty())) by {
            assert(seq!['r', 's'].len() == 2);
            assert(seq!['p', 'y'].len() == 2);
            assert(seq!['l', 'u', 'a'].len() == 3);
            assert(seq!['g', 'o'].len() == 2);
            assert(seq!['t', 's'].len() == 2);
            assert(seq!['v', 'u', 'e'].len() == 3);
        }
    }
}

/// During a run the tally only grows: what was counted stays counted.
pub proof fn lemma_tally_never_shrinks(
    t: Seq<EntryView>,
    files: Seq<FileChangeView>,
    ext: Seq<char>,
)
    requires
        well_formed(t),
    ensures
        extends(record_all(t, files), t),
        has_entry(t, ext) ==> has_entry(record_all(t, files), ext),
        total_of(t, ext) <= total_of(record_all(t, files), ext),
{
    lemma_record_all_extends(t, files);
    lemma_total_after_files(t, files, ext);
}

} // verus!
