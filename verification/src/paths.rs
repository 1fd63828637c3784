//! Slash-separated paths: parents, names and extensions.
use vstd::prelude::*;

use crate::text::{chars_of, slice_text};

verus! {

/// Whether a path ends in a separator, or in a component that only says "here".
pub open spec fn ends_idly(path: Seq<char>) -> bool {
    path.len() > 1 && (path.last() == '/' || (path.last() == '.' && path[path.len() - 2] == '/'))
}

/// The path without the separators at its end, and without components that only say
/// "here". A root stays, and so does a path that is nothing but "here".
pub open spec fn trimmed(path: Seq<char>) -> Seq<char>
    decreases path.len(),
{
    if ends_idly(path) {
        trimmed(path.drop_last())
    } else {
        path
    }
}

/// Where a character last occurs, or -1.
pub open spec fn last_index(text: Seq<char>, wanted: char) -> int
    decreases text.len(),
{
    if text.len() == 0 {
        -1
    } else if text.last() == wanted {
        text.len() - 1
    } else {
        last_index(text.drop_last(), wanted)
    }
}

/// The path without its final component.
pub open spec fn parent(path: Seq<char>) -> Option<Seq<char>> {
    let whole = trimmed(path);
    let at = last_index(whole, '/');
    if whole.len() == 0 || whole == seq!['/'] {
        None
    } else if at < 0 {
        Some(Seq::empty())
    } else if at == 0 {
        Some(seq!['/'])
    } else {
        Some(trimmed(whole.take(at)))
    }
}

/// The final component.
pub open spec fn file_name(path: Seq<char>) -> Seq<char> {
    let whole = trimmed(path);
    whole.skip(last_index(whole, '/') + 1)
}

/// What follows the last dot of the final component, unless the component begins
/// with it.
pub open spec fn extension(path: Seq<char>) -> Option<Seq<char>> {
    let name = file_name(path);
    let dot = last_index(name, '.');
    if dot <= 0 || name == seq!['.', '.'] {
        None
    } else {
        Some(name.skip(dot + 1))
    }
}

/// The bounds of a last occurrence.
pub proof fn lemma_last_index(text: Seq<char>, wanted: char)
    ensures
        -1 <= last_index(text, wanted) < text.len(),
        forall|i: int| last_index(text, wanted) < i < text.len() ==> text[i] != wanted,
        last_index(text, wanted) >= 0 ==> text[last_index(text, wanted)] == wanted,
    decreases text.len(),
{
    if text.len() > 0 && text.last() != wanted {
        lemma_last_index(text.drop_last(), wanted);
        assert forall|i: int| last_index(text, wanted) < i < text.len() implies text[i] != wanted by {
            if i < text.len() - 1 {
                assert(text.drop_last()[i] == text[i]);
            }
        }
    }
}

proof fn lemma_last_index_is(text: Seq<char>, wanted: char, at: int)
    requires
        -1 <= at < text.len(),
        forall|i: int| at < i < text.len() ==> text[i] != wanted,
        at >= 0 ==> text[at] == wanted,
    ensures
        last_index(text, wanted) == at,
{
    lemma_last_index(text, wanted);
}

/// Where the part before trailing separators and idle components ends.
fn trim_end(chars: &Vec<char>, to: usize) -> (end: usize)
    requires
        to <= chars@.len(),
    ensures
        end <= to,
        chars@.take(end as int) == trimmed(chars@.take(to as int)),
{
    let mut end: usize = to;
    while end > 1 && (chars[end - 1] == '/' || (chars[end - 1] == '.' && chars[end - 2] == '/'))
        invariant
            end <= to <= chars@.len(),
            trimmed(chars@.take(end as int)) == trimmed(chars@.take(to as int)),
        decreases end,
    {
        assert(chars@.take(end as int).drop_last() =~= chars@.take(end - 1));
        assert(chars@.take(end as int).last() == chars@[end - 1]);
        assert(chars@.take(end as int)[end - 2] == chars@[end - 2]);
        end = end - 1;
    }
    assert(end > 0 ==> chars@.take(end as int).last() == chars@[end - 1]);
    assert(end > 1 ==> chars@.take(end as int)[end - 2] == chars@[end - 2]);
    end
}

/// The position after the last occurrence before `to`, zero where there is none.
fn after_last(chars: &Vec<char>, from: usize, to: usize, wanted: char) -> (after: usize)
    requires
        from <= to <= chars@.len(),
    ensures
        from <= after <= to,
        after - from == last_index(chars@.subrange(from as int, to as int), wanted) + 1,
{
    let mut after: usize = to;
    while after > from && chars[after - 1] != wanted
        invariant
            from <= after <= to <= chars@.len(),
            forall|i: int| after <= i < to ==> chars@[i] != wanted,
        decreases after,
    {
        after = after - 1;
    }
    proof {
        let part = chars@.subrange(from as int, to as int);
        assert forall|i: int| after - from - 1 < i < part.len() implies part[i] != wanted by {
            assert(part[i] == chars@[from + i]);
        }
        if after > from {
            assert(part[after - from - 1] == wanted);
        }
        lemma_last_index_is(part, wanted, after - from - 1);
    }
    after
}

/// The path without its final component. `None` for a root and for nothing.
pub fn parent_of(path: &str) -> (above: Option<String>)
    ensures
        above is Some <==> parent(path@) is Some,
        above is Some ==> above->0@ == parent(path@)->0,
{
    let chars: Vec<char> = chars_of(path);
    assert(chars@.take(chars@.len() as int) =~= chars@);
    let end: usize = trim_end(&chars, chars.len());
    let ghost whole = trimmed(path@);
    assert(chars@.take(end as int) == whole);
    if end == 0 {
        return None;
    }
    if end == 1 && chars[0] == '/' {
        assert(whole =~= seq!['/']);
        return None;
    }
    proof {
        if whole == seq!['/'] {
            assert(whole.len() == 1);
            assert(whole[0] == chars@[0]);
        }
    }
    let after: usize = after_last(&chars, 0, end, '/');
    assert(chars@.subrange(0, end as int) =~= whole);
    if after == 0 {
        return Some(String::new());
    }
    if after == 1 {
        let mut root: String = String::new();
        root.push('/');
        assert(root@ =~= seq!['/']);
        return Some(root);
    }
    let cut: usize = trim_end(&chars, after - 1);
    assert(chars@.take(after - 1) =~= whole.take(after - 1));
    assert(chars@.subrange(0, cut as int) =~= chars@.take(cut as int));
    Some(slice_text(&chars, 0, cut))
}

/// What follows the last dot of the final component.
pub fn extension_of(path: &str) -> (found: Option<String>)
    ensures
        found is Some <==> extension(path@) is Some,
        found is Some ==> found->0@ == extension(path@)->0,
{
    let chars: Vec<char> = chars_of(path);
    assert(chars@.take(chars@.len() as int) =~= chars@);
    let end: usize = trim_end(&chars, chars.len());
    let ghost whole = trimmed(path@);
    assert(chars@.subrange(0, end as int) =~= whole);
    let start: usize = after_last(&chars, 0, end, '/');
    let ghost name = file_name(path@);
    assert(chars@.subrange(start as int, end as int) =~= name);
    let after: usize = after_last(&chars, start, end, '.');
    if after - start <= 1 {
        return None;
    }
    if end - start == 2 && chars[start] == '.' && chars[start + 1] == '.' {
        assert(name =~= seq!['.', '.']);
        return None;
    }
    proof {
        if name == seq!['.', '.'] {
            assert(name.len() == 2);
            assert(name[0] == chars@[start as int]);
            assert(name[1] == chars@[start + 1]);
        }
        assert(chars@.subrange(after as int, end as int) =~= name.skip(after - start));
    }
    Some(slice_text(&chars, after, end))
}

// ── Laws ────────────────────────────────────────────────────────────────────

/// A name below a directory has that directory for its parent and itself for its file
/// name.
pub proof fn names_lie_in_their_parent(directory: Seq<char>, name: Seq<char>)
    requires
        directory.len() > 0,
        !ends_idly(directory),
        directory != seq!['/'],
        name.len() > 0,
        !name.contains('/'),
        name != seq!['.'],
    ensures
        parent(directory.push('/') + name) == Some(directory),
        file_name(directory.push('/') + name) == name,
{
    let path = directory.push('/') + name;
    let n = directory.len() as int;
    assert(path[n] == '/');
    assert(path.last() == name.last());
    assert(name.contains(name.last()));
    assert forall|i: int| n < i < path.len() implies path[i] != '/' by {
        assert(path[i] == name[i - n - 1]);
        assert(name.contains(name[i - n - 1]));
    }
    if path[path.len() - 2] == '/' {
        assert(name.len() == 1);
        assert(name[0] != '.') by {
            if name[0] == '.' {
                assert(name =~= seq!['.']);
            }
        }
    }
    assert(!ends_idly(path));
    lemma_last_index_is(path, '/', n);
    assert(path != seq!['/']) by {
        assert(path.len() > 1);
    }
    assert(path.take(n) =~= directory);
    assert(path.skip(n + 1) =~= name);
}

/// A name at the root has the root for its parent, a bare name has an empty one, and the
/// root and the empty path have none.
pub proof fn roots_and_bare_names(name: Seq<char>)
    requires
        name.len() > 0,
        !name.contains('/'),
        name != seq!['.'],
    ensures
        parent(seq!['/'] + name) == Some(seq!['/']),
        file_name(seq!['/'] + name) == name,
        parent(name) == Some(Seq::<char>::empty()),
        file_name(name) == name,
        parent(seq!['/']) is None,
        parent(Seq::empty()) is None,
{
    let path = seq!['/'] + name;
    assert(name.contains(name.last()));
    assert(path.last() == name.last());
    assert forall|i: int| 0 <= i < name.len() implies name[i] != '/' by {
        assert(name.contains(name[i]));
    }
    if name.len() > 1 {
        assert(path[path.len() - 2] == name[name.len() - 2]);
    } else {
        assert(name[0] != '.') by {
            if name[0] == '.' {
                assert(name =~= seq!['.']);
            }
        }
    }
    lemma_last_index_is(path, '/', 0);
    assert(path.len() > 1);
    assert(path.skip(1) =~= name);
    lemma_last_index_is(name, '/', -1);
    assert(name.skip(0) =~= name);
    assert(name != seq!['/']) by {
        if name == seq!['/'] {
            assert(name[0] == '/');
        }
    }
}

/// A separator or a "here" at the end of a path changes nothing.
pub proof fn idle_ends_change_nothing(path: Seq<char>)
    requires
        path.len() > 0,
    ensures
        parent(path.push('/')) == parent(path),
        file_name(path.push('/')) == file_name(path),
        extension(path.push('/')) == extension(path),
        parent(path.push('/').push('.')) == parent(path),
        file_name(path.push('/').push('.')) == file_name(path),
{
    let longer = path.push('/');
    assert(longer.drop_last() =~= path);
    assert(trimmed(longer) == trimmed(path));
    let here = longer.push('.');
    assert(here.drop_last() =~= longer);
    assert(here[here.len() - 2] == '/');
    assert(trimmed(here) == trimmed(longer));
}

/// A file's extension is what follows its last dot, where something stands before it; a
/// name without a dot, and one whose only dot is its first character, have none.
pub proof fn extensions_follow_the_last_dot(stem: Seq<char>, ending: Seq<char>)
    requires
        stem.len() > 0,
        !stem.contains('/'),
        !ending.contains('/'),
        !ending.contains('.'),
        ending.len() > 0,
    ensures
        extension(stem.push('.') + ending) == Some(ending),
        extension(ending) is None,
        extension(seq!['.'] + ending) is None,
{
    let name = stem.push('.') + ending;
    let n = stem.len() as int;
    assert forall|i: int| 0 <= i < name.len() implies name[i] != '/' by {
        if i < n {
            assert(stem.contains(stem[i]));
        } else if i > n {
            assert(name[i] == ending[i - n - 1]);
            assert(ending.contains(ending[i - n - 1]));
        }
    }
    assert forall|i: int| n < i < name.len() implies name[i] != '.' by {
        assert(name[i] == ending[i - n - 1]);
        assert(ending.contains(ending[i - n - 1]));
    }
    assert(name.last() == ending.last());
    assert(name[name.len() - 1] != '.');
    lemma_bare(name);
    lemma_last_index_is(name, '.', n);
    assert(name.skip(n + 1) =~= ending);
    assert(name != seq!['.', '.']) by {
        assert(name.len() > 2 || name[1] != '.');
    }
    assert forall|i: int| 0 <= i < ending.len() implies ending[i] != '/' && ending[i] != '.' by {
        assert(ending.contains(ending[i]));
    }
    lemma_bare(ending);
    lemma_last_index_is(ending, '.', -1);
    let hidden = seq!['.'] + ending;
    assert forall|i: int| 0 < i < hidden.len() implies hidden[i] != '/' && hidden[i] != '.' by {
        assert(hidden[i] == ending[i - 1]);
    }
    lemma_bare(hidden);
    lemma_last_index_is(hidden, '.', 0);
}

/// A name without a separator is its own file name.
proof fn lemma_bare(name: Seq<char>)
    requires
        name.len() > 0,
        forall|i: int| 0 <= i < name.len() ==> name[i] != '/',
    ensures
        file_name(name) == name,
{
    assert(!ends_idly(name));
    lemma_last_index_is(name, '/', -1);
    assert(name.skip(0) =~= name);
}

} // verus!
