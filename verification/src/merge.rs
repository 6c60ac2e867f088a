//! The merge of settings into the text of a settings file, as a function of
//! the file's lines, and what holds of it.

use crate::env::{is_plain, key_names, lemma_key_names, KEY_COUNT};
use crate::text::{
    ends_with_cr, is_one_line, join, lemma_join_is_one_to_one, lemma_lines_are_one_line,
    lemma_lines_of_join, lines, reread, starts_with, strip_cr,
};
use vstd::prelude::*;

verus! {

/// The line that gives `key` the value `value`.
pub open spec fn assignment(key: Seq<char>, value: Seq<char>) -> Seq<char> {
    key.push('=') + value
}

/// Whether `line` gives `key` a value: it begins with the key and `=`.
pub open spec fn assigns(line: Seq<char>, key: Seq<char>) -> bool {
    starts_with(line, key.push('='))
}

/// Whether some line gives `key` a value.
pub open spec fn has_assignment(ls: Seq<Seq<char>>, key: Seq<char>) -> bool {
    exists|i: int| 0 <= i < ls.len() && assigns(#[trigger] ls[i], key)
}

/// Whether line `i` is the first that gives `key` a value.
pub open spec fn is_first_assignment(ls: Seq<Seq<char>>, key: Seq<char>, i: int) -> bool {
    &&& 0 <= i < ls.len()
    &&& assigns(ls[i], key)
    &&& forall|j: int| 0 <= j < i ==> !assigns(#[trigger] ls[j], key)
}

/// Whether line `i` is rewritten for the known key at position `k`: the key
/// has a value and the line is the first that gives it one.
pub open spec fn rewrites(
    ls: Seq<Seq<char>>,
    entries: Map<Seq<char>, Seq<char>>,
    i: int,
    k: int,
) -> bool {
    &&& 0 <= k < KEY_COUNT
    &&& entries.contains_key(key_names()[k])
    &&& is_first_assignment(ls, key_names()[k], i)
}

/// Whether line `i` is rewritten at all.
pub open spec fn is_rewritten(ls: Seq<Seq<char>>, entries: Map<Seq<char>, Seq<char>>, i: int) -> bool {
    exists|k: int| rewrites(ls, entries, i, k)
}

/// Line `i` after the merge: the assignment of the key that it is rewritten
/// for, or the line as it was.
pub open spec fn merged_line(ls: Seq<Seq<char>>, entries: Map<Seq<char>, Seq<char>>, i: int) -> Seq<
    char,
> {
    if is_rewritten(ls, entries, i) {
        let k = choose|k: int| rewrites(ls, entries, i, k);
        assignment(key_names()[k], entries[key_names()[k]])
    } else {
        ls[i]
    }
}

/// The lines of a file after the merge, one for each line that it had.
pub open spec fn rewritten_lines(ls: Seq<Seq<char>>, entries: Map<Seq<char>, Seq<char>>) -> Seq<
    Seq<char>,
> {
    Seq::new(ls.len(), |i: int| merged_line(ls, entries, i))
}

/// The lines that the merge adds for the first `upto` known keys: in the
/// order of the keys, the assignment of each that has a value and that no
/// line gave one.
pub open spec fn added_lines(ls: Seq<Seq<char>>, entries: Map<Seq<char>, Seq<char>>, upto: int) -> Seq<
    Seq<char>,
>
    decreases upto,
{
    if upto <= 0 {
        seq![]
    } else {
        let before = added_lines(ls, entries, upto - 1);
        let key = key_names()[upto - 1];
        if entries.contains_key(key) && !has_assignment(ls, key) {
            before.push(assignment(key, entries[key]))
        } else {
            before
        }
    }
}

/// All the lines after the merge: the rewritten ones, then the added ones.
pub open spec fn merged_lines(ls: Seq<Seq<char>>, entries: Map<Seq<char>, Seq<char>>) -> Seq<
    Seq<char>,
> {
    rewritten_lines(ls, entries) + added_lines(ls, entries, KEY_COUNT as int)
}

/// The text of a settings file after `entries` are merged into `content`:
/// its merged lines with a line feed between each two.
pub open spec fn merge(entries: Map<Seq<char>, Seq<char>>, content: Seq<char>) -> Seq<char> {
    join(merged_lines(lines(content), entries), seq!['\n'])
}

/// A line gives a value to at most one plain key.
pub proof fn lemma_assigns_one_key(line: Seq<char>, a: Seq<char>, b: Seq<char>)
    requires
        is_plain(a),
        is_plain(b),
        assigns(line, a),
        assigns(line, b),
    ensures
        a == b,
{
    let pa = a.push('=');
    let pb = b.push('=');
    if a.len() < b.len() {
        assert(line[a.len() as int] == pa[a.len() as int]);
    } else if b.len() < a.len() {
        assert(line[b.len() as int] == pb[b.len() as int]);
    } else {
        assert(a == pa.drop_last());
    }
}

/// A key is given a value in a list of lines with one more line exactly if
/// it was given one before or the new line gives it one.
pub proof fn lemma_has_assignment_push(ls: Seq<Seq<char>>, line: Seq<char>, key: Seq<char>)
    ensures
        has_assignment(ls.push(line), key) <==> has_assignment(ls, key) || assigns(line, key),
{
    let more = ls.push(line);
    if has_assignment(ls, key) {
        let i = choose|i: int| 0 <= i < ls.len() && assigns(#[trigger] ls[i], key);
        assert(assigns(more[i], key));
    }
    if assigns(line, key) {
        assert(assigns(more[ls.len() as int], key));
    }
}

/// A line is rewritten for at most one known key.
pub proof fn lemma_rewrites_one_key(
    ls: Seq<Seq<char>>,
    entries: Map<Seq<char>, Seq<char>>,
    i: int,
    k: int,
)
    requires
        rewrites(ls, entries, i, k),
    ensures
        is_rewritten(ls, entries, i),
        merged_line(ls, entries, i) == assignment(key_names()[k], entries[key_names()[k]]),
{
    lemma_key_names();
    let other = choose|k: int| rewrites(ls, entries, i, k);
    lemma_assigns_one_key(ls[i], key_names()[k], key_names()[other]);
}

/// Whether the merge adds a line for the known key at position `k`: the key
/// has a value and no line gives it one.
pub open spec fn is_added(ls: Seq<Seq<char>>, entries: Map<Seq<char>, Seq<char>>, k: int) -> bool {
    &&& 0 <= k < KEY_COUNT
    &&& entries.contains_key(key_names()[k])
    &&& !has_assignment(ls, key_names()[k])
}

/// Whether no value of a known key holds a line feed.
pub open spec fn has_one_line_values(entries: Map<Seq<char>, Seq<char>>) -> bool {
    forall|k: int|
        0 <= k < KEY_COUNT && entries.contains_key(#[trigger] key_names()[k]) ==> is_one_line(
            entries[key_names()[k]],
        )
}

/// Whether the merged lines of a file are read back from the merged text as
/// they were written, as far as a second merge can tell: the last merged
/// line is not empty, unless it is the only one, and no line that the merge
/// kept as it was, other than the last of all, ends in a carriage return.
pub open spec fn reads_back(ls: Seq<Seq<char>>, entries: Map<Seq<char>, Seq<char>>) -> bool {
    let merged = merged_lines(ls, entries);
    &&& merged.len() >= 2 ==> merged.last().len() > 0
    &&& forall|i: int|
        0 <= i < ls.len() && i + 1 < merged.len() && !is_rewritten(ls, entries, i)
            ==> !ends_with_cr(#[trigger] ls[i])
}

/// The first line that gives `key` a value, where there is one.
pub proof fn lemma_first_assignment(ls: Seq<Seq<char>>, key: Seq<char>) -> (p: int)
    requires
        has_assignment(ls, key),
    ensures
        is_first_assignment(ls, key, p),
    decreases ls.len(),
{
    let front = ls.drop_last();
    if has_assignment(front, key) {
        let p = lemma_first_assignment(front, key);
        assert forall|j: int| 0 <= j < p implies !assigns(#[trigger] ls[j], key) by {
            assert(ls[j] == front[j]);
        }
        p
    } else {
        let w = choose|i: int| 0 <= i < ls.len() && assigns(#[trigger] ls[i], key);
        assert forall|j: int| 0 <= j < ls.len() - 1 implies !assigns(#[trigger] ls[j], key) by {
            assert(ls[j] == front[j]);
        }
        w
    }
}

/// Taking the carriage return off the end of a line does not change which
/// plain key it gives a value.
pub proof fn lemma_assigns_strip_cr(line: Seq<char>, key: Seq<char>)
    requires
        is_plain(key),
    ensures
        assigns(strip_cr(line), key) == assigns(line, key),
{
    let prefix = key.push('=');
    let m = prefix.len() as int;
    if ends_with_cr(line) {
        let cut = line.drop_last();
        if assigns(line, key) {
            if line.len() == m {
                assert(line.last() == line.take(m)[m - 1]);
            }
            assert(cut.take(m) == line.take(m));
        }
        if assigns(cut, key) {
            assert(line.take(m) == cut.take(m));
        }
    }
}

/// An assignment gives a value to its own key, and to no other plain key.
pub proof fn lemma_assignment_key(key: Seq<char>, value: Seq<char>, other: Seq<char>)
    requires
        is_plain(key),
        is_plain(other),
    ensures
        assigns(assignment(key, value), other) <==> other == key,
{
    let line = assignment(key, value);
    assert(line.take(key.push('=').len() as int) == key.push('='));
    if assigns(line, other) {
        lemma_assigns_one_key(line, key, other);
    }
}

/// The lines that are added for fewer keys begin the lines that are added
/// for more.
pub proof fn lemma_added_grows(
    ls: Seq<Seq<char>>,
    entries: Map<Seq<char>, Seq<char>>,
    fewer: int,
    more: int,
)
    requires
        0 <= fewer <= more,
    ensures
        added_lines(ls, entries, fewer).len() <= added_lines(ls, entries, more).len(),
        added_lines(ls, entries, more).take(added_lines(ls, entries, fewer).len() as int)
            == added_lines(ls, entries, fewer),
    decreases more - fewer,
{
    if fewer < more {
        lemma_added_grows(ls, entries, fewer, more - 1);
    }
}

/// The line that is added for a key stands where the lines added for the
/// keys before it end.
pub proof fn lemma_added_at(ls: Seq<Seq<char>>, entries: Map<Seq<char>, Seq<char>>, k: int)
    requires
        is_added(ls, entries, k),
    ensures
        added_lines(ls, entries, k).len() < added_lines(ls, entries, KEY_COUNT as int).len(),
        added_lines(ls, entries, KEY_COUNT as int)[added_lines(ls, entries, k).len() as int]
            == assignment(key_names()[k], entries[key_names()[k]]),
{
    let before = added_lines(ls, entries, k);
    let with = added_lines(ls, entries, k + 1);
    let all = added_lines(ls, entries, KEY_COUNT as int);
    lemma_added_grows(ls, entries, k + 1, KEY_COUNT as int);
    assert(all.take(with.len() as int)[before.len() as int] == all[before.len() as int]);
}

/// The key for which line `q` of the added lines is added.
pub proof fn lemma_added_from(
    ls: Seq<Seq<char>>,
    entries: Map<Seq<char>, Seq<char>>,
    upto: int,
    q: int,
) -> (k: int)
    requires
        0 <= upto <= KEY_COUNT,
        0 <= q < added_lines(ls, entries, upto).len(),
    ensures
        0 <= k < upto,
        is_added(ls, entries, k),
        added_lines(ls, entries, k).len() == q,
        added_lines(ls, entries, upto)[q] == assignment(key_names()[k], entries[key_names()[k]]),
    decreases upto,
{
    let before = added_lines(ls, entries, upto - 1);
    if q < before.len() {
        let k = lemma_added_from(ls, entries, upto - 1, q);
        lemma_added_grows(ls, entries, upto - 1, upto);
        assert(added_lines(ls, entries, upto).take(before.len() as int)[q] == added_lines(
            ls,
            entries,
            upto,
        )[q]);
        k
    } else {
        upto - 1
    }
}

/// Where no key is added, no line is.
pub proof fn lemma_added_none(ls: Seq<Seq<char>>, entries: Map<Seq<char>, Seq<char>>, upto: int)
    requires
        0 <= upto <= KEY_COUNT,
        forall|k: int| 0 <= k < upto ==> !is_added(ls, entries, k),
    ensures
        added_lines(ls, entries, upto) == Seq::<Seq<char>>::empty(),
    decreases upto,
{
    if upto > 0 {
        lemma_added_none(ls, entries, upto - 1);
        assert(!is_added(ls, entries, upto - 1));
    }
}

/// The merge gives every known key that has a value one line that is the
/// first to assign it, and that line is its assignment.
pub proof fn lemma_written_line(ls: Seq<Seq<char>>, entries: Map<Seq<char>, Seq<char>>, k: int) -> (p:
    int)
    requires
        0 <= k < KEY_COUNT,
        entries.contains_key(key_names()[k]),
    ensures
        is_first_assignment(merged_lines(ls, entries), key_names()[k], p),
        merged_lines(ls, entries)[p] == assignment(key_names()[k], entries[key_names()[k]]),
        p < ls.len() ==> rewrites(ls, entries, p, k),
        p >= ls.len() ==> is_added(ls, entries, k) && p == ls.len() + added_lines(
            ls,
            entries,
            k,
        ).len(),
{
    lemma_key_names();
    let key = key_names()[k];
    let merged = merged_lines(ls, entries);
    assert forall|j: int| 0 <= j < ls.len() && !assigns(ls[j], key) implies !assigns(
        #[trigger] merged[j],
        key,
    ) by {
        if is_rewritten(ls, entries, j) {
            let other = choose|r: int| rewrites(ls, entries, j, r);
            lemma_assignment_key(key_names()[other], entries[key_names()[other]], key);
        }
    }
    if has_assignment(ls, key) {
        let p = lemma_first_assignment(ls, key);
        lemma_rewrites_one_key(ls, entries, p, k);
        lemma_assignment_key(key, entries[key], key);
        p
    } else {
        lemma_added_at(ls, entries, k);
        let q = added_lines(ls, entries, k).len() as int;
        let p = ls.len() + q;
        lemma_assignment_key(key, entries[key], key);
        assert forall|j: int| 0 <= j < p implies !assigns(#[trigger] merged[j], key) by {
            if j >= ls.len() {
                let other = lemma_added_from(ls, entries, KEY_COUNT as int, j - ls.len());
                lemma_assignment_key(key_names()[other], entries[key_names()[other]], key);
            }
        }
        p
    }
}

/// Every merged line is a single line, where the values are.
pub proof fn lemma_merged_lines_are_one_line(content: Seq<char>, entries: Map<Seq<char>, Seq<char>>)
    requires
        has_one_line_values(entries),
    ensures
        forall|i: int|
            0 <= i < merged_lines(lines(content), entries).len() ==> is_one_line(
                #[trigger] merged_lines(lines(content), entries)[i],
            ),
{
    lemma_key_names();
    lemma_lines_are_one_line(content);
    let ls = lines(content);
    let merged = merged_lines(ls, entries);
    assert forall|i: int| 0 <= i < merged.len() implies is_one_line(#[trigger] merged[i]) by {
        if i < ls.len() {
            if is_rewritten(ls, entries, i) {
                let k = choose|k: int| rewrites(ls, entries, i, k);
                lemma_assignment_is_one_line(key_names()[k], entries[key_names()[k]]);
            }
        } else {
            let k = lemma_added_from(ls, entries, KEY_COUNT as int, i - ls.len());
            lemma_assignment_is_one_line(key_names()[k], entries[key_names()[k]]);
        }
    }
}

/// The assignment of a single line to a plain key is a single line.
pub proof fn lemma_assignment_is_one_line(key: Seq<char>, value: Seq<char>)
    requires
        is_plain(key),
        is_one_line(value),
    ensures
        is_one_line(assignment(key, value)),
{
    let line = assignment(key, value);
    assert forall|j: int| 0 <= j < line.len() implies line[j] != '\n' by {}
}

/// Whether line `i` of the merged lines was written by the merge: it is a
/// line that was rewritten, or one that was added.
pub open spec fn is_written(ls: Seq<Seq<char>>, entries: Map<Seq<char>, Seq<char>>, i: int) -> bool {
    i >= ls.len() || is_rewritten(ls, entries, i)
}

/// What a second merge of the same values makes of what is read back from
/// the merged lines: it adds nothing, it writes again every line that the
/// first merge wrote, and it keeps every other line as it was read back.
pub proof fn lemma_second_merge(ls: Seq<Seq<char>>, entries: Map<Seq<char>, Seq<char>>)
    requires
        merged_lines(ls, entries).len() >= 1,
    ensures
        merged_lines(reread(merged_lines(ls, entries)), entries).len() == reread(
            merged_lines(ls, entries),
        ).len(),
        forall|i: int|
            0 <= i < reread(merged_lines(ls, entries)).len() ==> #[trigger] merged_lines(
                reread(merged_lines(ls, entries)),
                entries,
            )[i] == if is_written(ls, entries, i) {
                merged_lines(ls, entries)[i]
            } else {
                reread(merged_lines(ls, entries))[i]
            },
        forall|i: int|
            0 <= i < merged_lines(ls, entries).len() && !is_written(ls, entries, i)
                ==> #[trigger] merged_lines(ls, entries)[i] == ls[i],
{
    lemma_key_names();
    let merged = merged_lines(ls, entries);
    let read = reread(merged);
    let n = merged.len() as int;
    let m = read.len() as int;
    assert forall|i: int, key: Seq<char>| 0 <= i < m && is_plain(key) implies #[trigger] assigns(
        read[i],
        key,
    ) == assigns(merged[i], key) by {
        lemma_assigns_strip_cr(merged[i], key);
    }
    // every key with a value finds its line again
    assert forall|k: int| 0 <= k < KEY_COUNT && entries.contains_key(key_names()[k]) implies exists|
        p: int,
    |
        #[trigger] rewrites(read, entries, p, k) && merged[p] == assignment(
            key_names()[k],
            entries[key_names()[k]],
        ) && is_written(ls, entries, p) by {
        let p = lemma_written_line(ls, entries, k);
        assert forall|j: int| 0 <= j < p implies !assigns(#[trigger] read[j], key_names()[k]) by {}
        assert(rewrites(read, entries, p, k));
    }
    let again = rewritten_lines(read, entries);
    assert forall|i: int| 0 <= i < m implies again[i] == if is_written(ls, entries, i) {
        merged[i]
    } else {
        read[i]
    } by {
        if is_rewritten(read, entries, i) {
            let k = choose|k: int| rewrites(read, entries, i, k);
            let p = choose|p: int|
                #[trigger] rewrites(read, entries, p, k) && merged[p] == assignment(
                    key_names()[k],
                    entries[key_names()[k]],
                ) && is_written(ls, entries, p);
            assert(p == i) by {}
            lemma_rewrites_one_key(read, entries, i, k);
        } else if is_written(ls, entries, i) {
            let k = if i < ls.len() {
                choose|k: int| rewrites(ls, entries, i, k)
            } else {
                lemma_added_from(ls, entries, KEY_COUNT as int, i - ls.len())
            };
            let p = lemma_written_line(ls, entries, k);
            assert forall|j: int| 0 <= j < p implies !assigns(
                #[trigger] read[j],
                key_names()[k],
            ) by {}
        }
    }
    assert forall|k: int| 0 <= k < KEY_COUNT implies !is_added(read, entries, k) by {}
    lemma_added_none(read, entries, KEY_COUNT as int);
    assert forall|i: int| 0 <= i < n && !is_written(ls, entries, i) implies #[trigger] merged[i]
        == ls[i] by {}
}

/// The merge keeps every line that it does not rewrite, where it was and as
/// it was, and rewrites a line only where it is the first to begin with a
/// key that has a value, and `=`. A line that begins so but is not the first
/// to do so stays; so does a line that begins with no known key and `=`, such
/// as a comment. Whatever is added comes after all the lines that were there.
pub proof fn lemma_merge_keeps_lines(entries: Map<Seq<char>, Seq<char>>, content: Seq<char>)
    ensures
        merge(entries, content) == join(merged_lines(lines(content), entries), seq!['\n']),
        merged_lines(lines(content), entries).len() >= lines(content).len(),
        forall|i: int|
            0 <= i < lines(content).len() && !is_rewritten(lines(content), entries, i)
                ==> #[trigger] merged_lines(lines(content), entries)[i] == lines(content)[i],
        forall|i: int, k: int|
            #[trigger] rewrites(lines(content), entries, i, k) ==> merged_lines(
                lines(content),
                entries,
            )[i] == assignment(key_names()[k], entries[key_names()[k]]),
        forall|i: int, j: int, k: int|
            0 <= j < i < lines(content).len() && 0 <= k < KEY_COUNT && #[trigger] assigns(
                lines(content)[j],
                key_names()[k],
            ) && #[trigger] assigns(lines(content)[i], key_names()[k]) ==> merged_lines(
                lines(content),
                entries,
            )[i] == lines(content)[i],
        forall|i: int|
            0 <= i < lines(content).len() && (forall|k: int|
                0 <= k < KEY_COUNT ==> !assigns(lines(content)[i], #[trigger] key_names()[k]))
                ==> #[trigger] merged_lines(lines(content), entries)[i] == lines(content)[i],
{
    lemma_key_names();
    let ls = lines(content);
    let merged = merged_lines(ls, entries);
    assert forall|i: int| 0 <= i < ls.len() implies merged[i] == merged_line(ls, entries, i) by {}
    assert forall|i: int, k: int| #[trigger] rewrites(ls, entries, i, k) implies merged[i]
        == assignment(key_names()[k], entries[key_names()[k]]) by {
        lemma_rewrites_one_key(ls, entries, i, k);
    }
    assert forall|i: int, j: int, k: int|
        0 <= j < i < ls.len() && 0 <= k < KEY_COUNT && #[trigger] assigns(ls[j], key_names()[k])
            && #[trigger] assigns(ls[i], key_names()[k]) implies merged[i] == ls[i] by {
        if is_rewritten(ls, entries, i) {
            let r = choose|r: int| rewrites(ls, entries, i, r);
            lemma_assigns_one_key(ls[i], key_names()[k], key_names()[r]);
        }
    }
    assert forall|i: int|
        0 <= i < ls.len() && (forall|k: int|
            0 <= k < KEY_COUNT ==> !assigns(ls[i], #[trigger] key_names()[k])) implies #[trigger] merged[i]
        == ls[i] by {}
}

/// Where no value holds a line feed, merging the same values a second time,
/// into the text that the first merge gave, changes nothing if the merged
/// lines read back as they were written, and changes something if they do
/// not.
pub proof fn lemma_merge_twice(entries: Map<Seq<char>, Seq<char>>, content: Seq<char>)
    requires
        has_one_line_values(entries),
    ensures
        merge(entries, merge(entries, content)) == merge(entries, content) <==> reads_back(
            lines(content),
            entries,
        ),
{
    let feed = seq!['\n'];
    let ls = lines(content);
    let merged = merged_lines(ls, entries);
    let n = merged.len() as int;
    lemma_merged_lines_are_one_line(content, entries);
    lemma_lines_of_join(merged);
    let read = reread(merged);
    let again = merged_lines(read, entries);
    if n > 0 {
        lemma_second_merge(ls, entries);
        if reads_back(ls, entries) {
            if merged.last().len() == 0 {
                assert(merged[0] =~= Seq::<char>::empty());
            } else {
                assert forall|i: int| 0 <= i < n implies again[i] == merged[i] by {}
                assert(again =~= merged);
            }
        } else {
            assert forall|i: int| 0 <= i < again.len() implies is_one_line(#[trigger] again[i]) by {}
            if merged.last().len() > 0 {
                let i = choose|i: int|
                    0 <= i < ls.len() && i + 1 < merged.len() && !is_rewritten(ls, entries, i)
                        && ends_with_cr(#[trigger] ls[i]);
                assert(again[i] == read[i]);
            }
            if join(again, feed) == join(merged, feed) {
                lemma_join_is_one_to_one(again, merged);
            }
        }
    }
}

} // verus!
