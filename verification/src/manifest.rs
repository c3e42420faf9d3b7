//! The manifest: one line for each file of the reference tree, made of the
//! file's digest, a tab, and the file's path.

use vstd::prelude::*;
use vstd::slice::slice_subrange;

use crate::digest::{content_view, differs, local_digest, local_digest_of, needs_fetch};
use crate::error::PatchError;
use crate::text::{count, find, find_char, from_chars, lemma_count_find, lemma_find, to_chars};

verus! {

/// What one line of a manifest says.
pub struct EntryView {
    pub expected_digest: Seq<char>,
    pub relative_path: Seq<char>,
}

/// One line of a manifest: the digest that a file should have, and the
/// file's path below the root of the tree. The path starts with no `/` and
/// holds no `..` component, so it names nothing outside the tree.
#[derive(Debug, PartialEq, Eq)]
pub struct ChangeEntry {
    expected_digest: String,
    relative_path: String,
}

impl View for ChangeEntry {
    type V = EntryView;

    closed spec fn view(&self) -> EntryView {
        EntryView {
            expected_digest: self.expected_digest@,
            relative_path: self.relative_path@,
        }
    }
}

/// Whether `c` separates the components of a path.
pub open spec fn is_separator(c: char) -> bool {
    c == '/' || c == '\\'
}

/// Whether a `..` component of `path` starts at `i`: two dots with a
/// separator or an end of the path on either side.
pub open spec fn parent_at(path: Seq<char>, i: int) -> bool {
    &&& 0 <= i
    &&& i + 2 <= path.len()
    &&& path[i] == '.'
    &&& path[i + 1] == '.'
    &&& (i == 0 || is_separator(path[i - 1]))
    &&& (i + 2 == path.len() || is_separator(path[i + 2]))
}

/// Whether `path` could lead out of the tree it is relative to: it holds a
/// `..` component.
pub open spec fn escapes(path: Seq<char>) -> bool {
    exists|i: int| parent_at(path, i)
}

/// `path` without the `/` characters it starts with.
pub open spec fn trim_slashes(path: Seq<char>) -> Seq<char>
    decreases path.len(),
{
    if path.len() > 0 && path[0] == '/' {
        trim_slashes(path.drop_first())
    } else {
        path
    }
}

/// Whether `path` names something inside the tree it is relative to: it
/// starts with no slash and does not escape.
pub open spec fn in_tree(path: Seq<char>) -> bool {
    &&& !escapes(path)
    &&& (path.len() > 0 ==> path[0] != '/')
}

/// Whether an entry keeps what every entry promises of its path.
pub open spec fn entry_wf(entry: EntryView) -> bool {
    in_tree(entry.relative_path)
}

/// `line` without the carriage return it ends with, if it ends with one.
pub open spec fn strip_cr(line: Seq<char>) -> Seq<char> {
    if line.len() > 0 && line.last() == '\r' {
        line.drop_last()
    } else {
        line
    }
}

/// The lines of `text`. A line ends at a line feed, or at a carriage return
/// directly followed by one; neither belongs to the line. What follows the
/// last line feed is a line too, unless it is empty.
pub open spec fn split_lines(text: Seq<char>) -> Seq<Seq<char>>
    decreases text.len(),
{
    let end = find(text, '\n');
    if text.len() == 0 {
        Seq::empty()
    } else if 0 <= end < text.len() {
        seq![strip_cr(text.take(end))] + split_lines(text.skip(end + 1))
    } else {
        seq![text]
    }
}

/// What `line` says: an entry where the line holds exactly one tab and the
/// path behind it, once its leading `/` characters are gone, does not
/// escape; nothing otherwise.
pub open spec fn parse_line(line: Seq<char>) -> Option<EntryView> {
    let tab = find(line, '\t');
    let path = trim_slashes(line.skip(tab + 1));
    if count(line, '\t') == 1 && !escapes(path) {
        Some(EntryView { expected_digest: line.take(tab), relative_path: path })
    } else {
        None
    }
}

/// What the lines say together: the entries in the order of the lines where
/// every line is well formed; nothing where one is not.
pub open spec fn parse_lines(lines: Seq<Seq<char>>) -> Option<Seq<EntryView>> {
    if forall|i: int| 0 <= i < lines.len() ==> (#[trigger] parse_line(lines[i])) is Some {
        Some(Seq::new(lines.len(), |i: int| parse_line(lines[i])->0))
    } else {
        None
    }
}

/// What a manifest says.
pub open spec fn parse(text: Seq<char>) -> Option<Seq<EntryView>> {
    parse_lines(split_lines(text))
}

/// The views of `entries`, in order.
pub open spec fn entry_views(entries: Seq<ChangeEntry>) -> Seq<EntryView> {
    entries.map_values(|entry: ChangeEntry| entry@)
}

impl ChangeEntry {
    #[verifier::type_invariant]
    spec fn well_formed(self) -> bool {
        entry_wf(self@)
    }

    /// The digest that the file should have.
    pub fn expected_digest(&self) -> (digest: &String)
        ensures
            digest@ == self@.expected_digest,
    {
        &self.expected_digest
    }

    /// The file's path below the root of the tree.
    pub fn relative_path(&self) -> (path: &String)
        ensures
            path@ == self@.relative_path,
            entry_wf(self@),
    {
        proof {
            use_type_invariant(self);
        }
        &self.relative_path
    }

    /// A copy of this entry.
    pub fn duplicate(&self) -> (copy: ChangeEntry)
        ensures
            copy@ == self@,
    {
        proof {
            use_type_invariant(self);
        }
        ChangeEntry {
            expected_digest: self.expected_digest.clone(),
            relative_path: self.relative_path.clone(),
        }
    }
}

impl Clone for ChangeEntry {
    fn clone(&self) -> (copy: ChangeEntry)
        ensures
            copy@ == self@,
    {
        self.duplicate()
    }
}

/// Trimming takes away exactly the slashes that `path` starts with.
proof fn lemma_trim_slashes(path: Seq<char>, k: int)
    requires
        0 <= k <= path.len(),
        forall|j: int| 0 <= j < k ==> path[j] == '/',
        k < path.len() ==> path[k] != '/',
    ensures
        trim_slashes(path) == path.skip(k),
    decreases k,
{
    if k == 0 {
        assert(path.skip(0) =~= path);
    } else {
        let rest = path.drop_first();
        assert forall|j: int| 0 <= j < k - 1 implies rest[j] == '/' by {
            assert(rest[j] == path[j + 1]);
        }
        lemma_trim_slashes(rest, k - 1);
        assert(rest.skip(k - 1) =~= path.skip(k));
    }
}

/// Whether `path` holds a `..` component.
fn has_parent_component(path: &[char]) -> (found: bool)
    ensures
        found == escapes(path@),
{
    let mut i: usize = 0;
    while i < path.len() && path.len() - i >= 2
        invariant
            i <= path@.len(),
            forall|j: int| 0 <= j < i ==> !parent_at(path@, j),
        decreases path@.len() - i,
    {
        if path[i] == '.' && path[i + 1] == '.' {
            let open = i == 0 || path[i - 1] == '/' || path[i - 1] == '\\';
            let closed = i + 2 == path.len() || path[i + 2] == '/' || path[i + 2] == '\\';
            if open && closed {
                assert(parent_at(path@, i as int));
                return true;
            }
        }
        i = i + 1;
    }
    assert forall|j: int| !parent_at(path@, j) by {
        if 0 <= j < i {
        } else {
        }
    }
    false
}

/// Reads one line of a manifest.
pub fn read_line(line: &[char]) -> (entry: Option<ChangeEntry>)
    ensures
        match entry {
            Some(e) => parse_line(line@) == Some(e@),
            None => parse_line(line@) is None,
        },
{
    let tab = find_char(line, '\t');
    proof {
        lemma_find(line@, '\t');
        lemma_count_find(line@, '\t');
    }
    if tab == line.len() {
        return None;
    }
    let rest = slice_subrange(line, tab + 1, line.len());
    assert(rest@ =~= line@.skip(tab + 1));
    let second = find_char(rest, '\t');
    proof {
        lemma_find(rest@, '\t');
        lemma_count_find(rest@, '\t');
    }
    if second < rest.len() {
        return None;
    }
    let mut start: usize = 0;
    while start < rest.len() && rest[start] == '/'
        invariant
            start <= rest@.len(),
            forall|j: int| 0 <= j < start ==> rest@[j] == '/',
        decreases rest@.len() - start,
    {
        start = start + 1;
    }
    let path = slice_subrange(rest, start, rest.len());
    proof {
        lemma_trim_slashes(rest@, start as int);
        assert(path@ =~= rest@.skip(start as int));
    }
    if has_parent_component(path) {
        return None;
    }
    let digest = slice_subrange(line, 0, tab);
    assert(digest@ =~= line@.take(tab as int));
    Some(ChangeEntry { expected_digest: from_chars(digest), relative_path: from_chars(path) })
}

/// Reads a manifest: its entries in the order of its lines. It fails, and
/// gives no entry at all, where a line is malformed.
pub fn parse_manifest(content: &str) -> (parsed: Result<Vec<ChangeEntry>, PatchError>)
    ensures
        match parsed {
            Ok(entries) => parse(content@) == Some(entry_views(entries@)),
            Err(error) => error == PatchError::Manifest && parse(content@) is None,
        },
{
    let chars = to_chars(content);
    parse_chars(chars.as_slice())
}

/// Reads a manifest that is given by its characters.
pub fn parse_chars(text: &[char]) -> (parsed: Result<Vec<ChangeEntry>, PatchError>)
    ensures
        match parsed {
            Ok(entries) => parse(text@) == Some(entry_views(entries@)),
            Err(error) => error == PatchError::Manifest && parse(text@) is None,
        },
{
    let mut entries: Vec<ChangeEntry> = Vec::new();
    let mut pos: usize = 0;
    let ghost mut lines: Seq<Seq<char>> = Seq::empty();
    assert(text@.skip(0) =~= text@);
    while pos < text.len()
        invariant
            pos <= text@.len(),
            split_lines(text@) == lines + split_lines(text@.skip(pos as int)),
            lines.len() == entries@.len(),
            forall|i: int|
                0 <= i < lines.len() ==> (#[trigger] parse_line(lines[i])) == Some(entries@[i]@),
        decreases text@.len() - pos,
    {
        let rest = slice_subrange(text, pos, text.len());
        assert(rest@ =~= text@.skip(pos as int));
        let end = find_char(rest, '\n');
        proof {
            lemma_find(rest@, '\n');
        }
        let terminated = end < rest.len();
        let stop = if terminated && end > 0 && rest[end - 1] == '\r' {
            end - 1
        } else {
            end
        };
        let line = slice_subrange(rest, 0, stop);
        let step = if terminated {
            end + 1
        } else {
            end
        };
        proof {
            if terminated {
                assert(rest@.take(end as int).len() == end);
                assert(line@ =~= strip_cr(rest@.take(end as int)));
                assert(rest@.skip(end + 1) =~= text@.skip(pos + step));
            } else {
                assert(line@ =~= rest@);
                assert(text@.skip(pos + step).len() == 0);
            }
            assert(split_lines(rest@) =~= seq![line@] + split_lines(text@.skip(pos + step)));
            assert(split_lines(text@) =~= lines.push(line@) + split_lines(text@.skip(pos + step)));
            assert(split_lines(text@)[lines.len() as int] == line@);
        }
        match read_line(line) {
            None => {
                return Err(PatchError::Manifest);
            },
            Some(entry) => {
                entries.push(entry);
            },
        }
        proof {
            lines = lines.push(line@);
        }
        pos = pos + step;
    }
    proof {
        assert(split_lines(text@) =~= lines);
        assert(Seq::new(lines.len(), |i: int| parse_line(lines[i])->0) =~= entry_views(entries@));
    }
    Ok(entries)
}

/// The digest that reading gave for the local file of the `i`-th entry:
/// none where `locals` is too short to hold one.
pub open spec fn local_at(locals: Seq<Option<Seq<char>>>, i: int) -> Option<Seq<char>> {
    if 0 <= i < locals.len() {
        locals[i]
    } else {
        None
    }
}

/// The positions, in rising order, of the entries whose local file is
/// absent or has another digest than the expected one.
pub open spec fn changed_positions(
    entries: Seq<EntryView>,
    locals: Seq<Option<Seq<char>>>,
) -> Seq<int>
    decreases entries.len(),
{
    if entries.len() == 0 {
        Seq::empty()
    } else {
        let last = entries.len() - 1;
        let before = changed_positions(entries.drop_last(), locals);
        if differs(entries[last].expected_digest, local_at(locals, last)) {
            before.push(last)
        } else {
            before
        }
    }
}

/// The change set: the entries at the changed positions, in the order of the
/// manifest.
pub open spec fn change_set(entries: Seq<EntryView>, locals: Seq<Option<Seq<char>>>) -> Seq<
    EntryView,
> {
    changed_positions(entries, locals).map_values(|i: int| entries[i])
}

/// The digests in `locals`, as plain values.
pub open spec fn digest_views(locals: Seq<Option<String>>) -> Seq<Option<Seq<char>>> {
    locals.map_values(
        |digest: Option<String>|
            match digest {
                Some(text) => Some(text@),
                None => None,
            },
    )
}

/// The digests of the files in `files`, each absent where the file is.
pub open spec fn file_digests(files: Seq<Option<Vec<u8>>>) -> Seq<Option<Seq<char>>> {
    files.map_values(|file: Option<Vec<u8>>| local_digest_of(content_view(file)))
}

/// The change set holds exactly the entries that differ from their local
/// file, an absent file included, in the order of the manifest: the changed
/// positions lie within the entries, rise strictly, and are the positions of
/// the entries that differ.
pub proof fn change_set_is_exact(entries: Seq<EntryView>, locals: Seq<Option<Seq<char>>>)
    ensures
        forall|k: int|
            0 <= k < changed_positions(entries, locals).len() ==> {
                let i = #[trigger] changed_positions(entries, locals)[k];
                0 <= i < entries.len() && differs(entries[i].expected_digest, local_at(locals, i))
            },
        forall|k: int, l: int|
            0 <= k < l < changed_positions(entries, locals).len() ==> changed_positions(
                entries,
                locals,
            )[k] < changed_positions(entries, locals)[l],
        forall|i: int|
            0 <= i < entries.len() && differs(
                (#[trigger] entries[i]).expected_digest,
                local_at(locals, i),
            ) ==> changed_positions(entries, locals).contains(i),
    decreases entries.len(),
{
    if entries.len() > 0 {
        let last = entries.len() - 1;
        let front = entries.drop_last();
        let before = changed_positions(front, locals);
        change_set_is_exact(front, locals);
        let all = changed_positions(entries, locals);
        assert forall|i: int|
            0 <= i < entries.len() && differs(
                (#[trigger] entries[i]).expected_digest,
                local_at(locals, i),
            ) implies all.contains(i) by {
            if i < last {
                assert(front[i] == entries[i]);
                assert(before.contains(i));
                let k = choose|k: int| 0 <= k < before.len() && before[k] == i;
                assert(all[k] == i);
            } else {
                assert(all[all.len() - 1] == i);
            }
        }
        assert forall|k: int| 0 <= k < all.len() implies {
            let i = #[trigger] all[k];
            0 <= i < entries.len() && differs(entries[i].expected_digest, local_at(locals, i))
        } by {
            if k < before.len() {
                assert(all[k] == before[k]);
                assert(front[before[k]] == entries[before[k]]);
            }
        }
        assert forall|k: int, l: int| 0 <= k < l < all.len() implies all[k] < all[l] by {
            assert(all[k] == before[k]);
            if l < before.len() {
                assert(all[l] == before[l]);
            }
        }
    }
}

/// The change set of one more entry: that of the entries before it, with
/// the new entry behind them where it differs.
pub proof fn lemma_change_set_push(
    entries: Seq<EntryView>,
    locals: Seq<Option<Seq<char>>>,
    n: int,
)
    requires
        0 <= n < entries.len(),
    ensures
        change_set(entries.take(n + 1), locals) == if differs(
            entries[n].expected_digest,
            local_at(locals, n),
        ) {
            change_set(entries.take(n), locals).push(entries[n])
        } else {
            change_set(entries.take(n), locals)
        },
{
    let front = entries.take(n);
    let more = entries.take(n + 1);
    assert(more.drop_last() =~= front);
    change_set_is_exact(front, locals);
    assert(change_set(more, locals) =~= if differs(
        entries[n].expected_digest,
        local_at(locals, n),
    ) {
        change_set(front, locals).push(entries[n])
    } else {
        change_set(front, locals)
    });
}

/// The change set, given the digest of each entry's local file: `locals`
/// holds them in the order of `entries`, none for a file that is absent or
/// unreadable, and an entry beyond its end counts as absent.
pub fn select_changed(entries: &Vec<ChangeEntry>, locals: &Vec<Option<String>>) -> (changed: Vec<
    ChangeEntry,
>)
    ensures
        entry_views(changed@) == change_set(entry_views(entries@), digest_views(locals@)),
{
    let ghost all = entry_views(entries@);
    let ghost digests = digest_views(locals@);
    let mut changed: Vec<ChangeEntry> = Vec::new();
    let mut i: usize = 0;
    assert(all.take(0) =~= Seq::<EntryView>::empty());
    assert(entry_views(changed@) =~= change_set(all.take(0), digests));
    while i < entries.len()
        invariant
            i <= entries@.len(),
            all == entry_views(entries@),
            digests == digest_views(locals@),
            entry_views(changed@) == change_set(all.take(i as int), digests),
        decreases entries@.len() - i,
    {
        let entry = &entries[i];
        let absent: Option<String> = None;
        let local = if i < locals.len() {
            &locals[i]
        } else {
            &absent
        };
        proof {
            lemma_change_set_push(all, digests, i as int);
        }
        if needs_fetch(entry.expected_digest(), local) {
            let ghost before = changed@;
            changed.push(entry.duplicate());
            assert(entry_views(changed@) =~= entry_views(before).push(entry@));
        }
        i = i + 1;
    }
    assert(all.take(entries@.len() as int) =~= all);
    changed
}

/// The change set, given what reading each entry's local file gave:
/// `files` holds the contents in the order of the manifest's lines, none for
/// a file that is absent or unreadable. It fails where the manifest holds a
/// malformed line.
pub fn get_changed_paths(content: &str, files: &Vec<Option<Vec<u8>>>) -> (changed: Result<
    Vec<ChangeEntry>,
    PatchError,
>)
    ensures
        match changed {
            Ok(entries) => parse(content@) is Some && entry_views(entries@) == change_set(
                parse(content@)->0,
                file_digests(files@),
            ),
            Err(error) => error == PatchError::Manifest && parse(content@) is None,
        },
{
    match parse_manifest(content) {
        Err(error) => Err(error),
        Ok(entries) => {
            let mut locals: Vec<Option<String>> = Vec::new();
            let mut i: usize = 0;
            assert(digest_views(locals@) =~= file_digests(files@.take(0)));
            while i < files.len()
                invariant
                    i <= files@.len(),
                    locals@.len() == i,
                    digest_views(locals@) == file_digests(files@.take(i as int)),
                decreases files@.len() - i,
            {
                let ghost before = locals@;
                let digest = local_digest(&files[i]);
                locals.push(digest);
                assert forall|j: int| 0 <= j <= i implies digest_views(locals@)[j] == file_digests(
                    files@.take(i + 1),
                )[j] by {
                    if j < i {
                        assert(locals@[j] == before[j]);
                        assert(digest_views(before)[j] == file_digests(files@.take(i as int))[j]);
                    }
                }
                assert(digest_views(locals@) =~= file_digests(files@.take(i + 1)));
                i = i + 1;
            }
            assert(files@.take(files@.len() as int) =~= files@);
            Ok(select_changed(&entries, &locals))
        },
    }
}

/// A manifest with a line that does not hold exactly one tab says nothing:
/// reading it fails as a whole.
pub proof fn malformed_line_fails(text: Seq<char>, i: int)
    requires
        0 <= i < split_lines(text).len(),
        count(split_lines(text)[i], '\t') != 1,
    ensures
        parse(text) is None,
{
    assert(parse_line(split_lines(text)[i]) is None);
}

/// A text has no more lines than characters.
pub proof fn lemma_lines_bound(text: Seq<char>)
    ensures
        split_lines(text).len() <= text.len(),
    decreases text.len(),
{
    lemma_find(text, '\n');
    let end = find(text, '\n');
    if text.len() > 0 && end < text.len() {
        lemma_lines_bound(text.skip(end + 1));
    }
}

/// What is left after trimming starts with no slash.
pub proof fn lemma_trimmed(path: Seq<char>)
    ensures
        trim_slashes(path).len() > 0 ==> trim_slashes(path)[0] != '/',
    decreases path.len(),
{
    if path.len() > 0 && path[0] == '/' {
        lemma_trimmed(path.drop_first());
    }
}

/// The path of every entry of a manifest stays inside the tree: it starts
/// with no slash and holds no `..` component.
pub proof fn parsed_paths_stay_in_tree(text: Seq<char>)
    requires
        parse(text) is Some,
    ensures
        forall|i: int| 0 <= i < parse(text)->0.len() ==> entry_wf(#[trigger] parse(text)->0[i]),
{
    let lines = split_lines(text);
    assert forall|i: int| 0 <= i < parse(text)->0.len() implies entry_wf(
        #[trigger] parse(text)->0[i],
    ) by {
        let line = lines[i];
        assert(parse_line(line) is Some);
        lemma_trimmed(line.skip(find(line, '\t') + 1));
    }
}

} // verus!
