use crate::text::{chars_of, string_views};
use vstd::prelude::*;
use vstd::string::StrSliceExecFns;

verus! {

/// `p` without the separators at its end, but for one that is all of it.
pub open spec fn trim_end(p: Seq<char>) -> Seq<char>
    decreases p.len(),
{
    if p.len() > 1 && p.last() == '/' {
        trim_end(p.drop_last())
    } else {
        p
    }
}

/// The place of the last `c` in `p`, or -1 where there is none.
pub open spec fn last_index_of(p: Seq<char>, c: char) -> int
    decreases p.len(),
{
    if p.len() == 0 {
        -1
    } else if p.last() == c {
        p.len() - 1
    } else {
        last_index_of(p.drop_last(), c)
    }
}

/// The directory that holds `p`: `p` without its last component. The root
/// and the empty path have none; a single name stands in the empty path.
pub open spec fn parent_of(p: Seq<char>) -> Option<Seq<char>> {
    let t = trim_end(p);
    let i = last_index_of(t, '/');
    if t.len() == 0 || t == seq!['/'] {
        None
    } else if i < 0 {
        Some(Seq::empty())
    } else if i == 0 {
        Some(seq!['/'])
    } else {
        Some(trim_end(t.take(i)))
    }
}

/// The directories above `p`, the nearest first and the root last.
pub open spec fn ancestors_of(p: Seq<char>) -> Seq<Seq<char>>
    decreases p.len(),
{
    match parent_of(p) {
        Some(q) => if q.len() < p.len() {
            seq![q] + ancestors_of(q)
        } else {
            Seq::empty()
        },
        None => Seq::empty(),
    }
}

/// The last component of `p`, where it has one.
pub open spec fn file_name_of(p: Seq<char>) -> Option<Seq<char>> {
    let t = trim_end(p);
    if t.len() == 0 || t == seq!['/'] {
        None
    } else {
        Some(t.skip(last_index_of(t, '/') + 1))
    }
}

/// What follows the last dot of the last component of `p`, where a dot
/// stands in it behind the first character.
pub open spec fn extension_of(p: Seq<char>) -> Option<Seq<char>> {
    match file_name_of(p) {
        Some(name) => if name == seq!['.', '.'] || last_index_of(name, '.') <= 0 {
            None
        } else {
            Some(name.skip(last_index_of(name, '.') + 1))
        },
        None => None,
    }
}

/// Trimming takes characters from the end only.
pub proof fn lemma_trim_end(p: Seq<char>)
    ensures
        trim_end(p).len() <= p.len(),
        trim_end(p) == p.take(trim_end(p).len() as int),
        p.len() > 0 ==> trim_end(p).len() > 0,
    decreases p.len(),
{
    if p.len() > 1 && p.last() == '/' {
        lemma_trim_end(p.drop_last());
        assert(p.drop_last().take(trim_end(p).len() as int) =~= p.take(trim_end(p).len() as int));
    } else {
        assert(p.take(p.len() as int) =~= p);
    }
}

/// The last place of a character lies in the sequence and holds it.
pub proof fn lemma_last_index_of(p: Seq<char>, c: char)
    ensures
        -1 <= last_index_of(p, c) < p.len(),
        last_index_of(p, c) >= 0 ==> p[last_index_of(p, c)] == c,
        forall|k: int| last_index_of(p, c) < k < p.len() ==> p[k] != c,
    decreases p.len(),
{
    if p.len() > 0 && p.last() != c {
        lemma_last_index_of(p.drop_last(), c);
        assert forall|k: int| last_index_of(p, c) < k < p.len() implies p[k] != c by {
            if k < p.len() - 1 {
                assert(p.drop_last()[k] == p[k]);
            }
        }
    }
}

/// A path is longer than the directory that holds it.
pub proof fn lemma_parent_shorter(p: Seq<char>)
    ensures
        parent_of(p) matches Some(q) ==> q.len() < p.len(),
{
    let t = trim_end(p);
    lemma_trim_end(p);
    lemma_last_index_of(t, '/');
    let i = last_index_of(t, '/');
    if i > 0 {
        lemma_trim_end(t.take(i));
    } else if i == 0 && t.len() == 1 {
        assert(t =~= seq!['/']);
    }
}

/// Each directory above a path is shorter than the path, and shorter than
/// the directories below it.
pub proof fn lemma_ancestors_shorter(p: Seq<char>)
    ensures
        forall|i: int|
            0 <= i < ancestors_of(p).len() ==> (#[trigger] ancestors_of(p)[i]).len() < p.len(),
        forall|i: int, j: int|
            0 <= i < j < ancestors_of(p).len() ==> (#[trigger] ancestors_of(p)[j]).len() < (
            #[trigger] ancestors_of(p)[i]).len(),
    decreases p.len(),
{
    lemma_parent_shorter(p);
    match parent_of(p) {
        Some(q) => {
            lemma_ancestors_shorter(q);
            let rest = ancestors_of(q);
            let all = ancestors_of(p);
            assert(all =~= seq![q] + rest);
            assert forall|i: int| 0 <= i < all.len() implies (#[trigger] all[i]).len()
                < p.len() by {
                if i > 0 {
                    assert(all[i] == rest[i - 1]);
                }
            }
            assert forall|i: int, j: int| 0 <= i < j < all.len() implies (#[trigger] all[j]).len()
                < (#[trigger] all[i]).len() by {
                assert(all[j] == rest[j - 1]);
                if i > 0 {
                    assert(all[i] == rest[i - 1]);
                }
            }
        },
        None => {},
    }
}

fn trimmed_len(chars: &Vec<char>, len: usize) -> (n: usize)
    requires
        len <= chars.len(),
    ensures
        n <= len,
        chars@.take(n as int) == trim_end(chars@.take(len as int)),
{
    let mut n = len;
    while n > 1 && chars[n - 1] == '/'
        invariant
            n <= len <= chars.len(),
            trim_end(chars@.take(n as int)) == trim_end(chars@.take(len as int)),
        decreases n,
    {
        assert(chars@.take(n as int).drop_last() =~= chars@.take(n - 1));
        n = n - 1;
    }
    n
}

pub(crate) fn last_index(chars: &Vec<char>, from: usize, len: usize, c: char) -> (r: Option<usize>)
    requires
        from <= len <= chars.len(),
    ensures
        match r {
            Some(i) => from <= i < len && i - from == last_index_of(
                chars@.subrange(from as int, len as int),
                c,
            ),
            None => last_index_of(chars@.subrange(from as int, len as int), c) == -1,
        },
{
    let mut n = len;
    while n > from
        invariant
            from <= n <= len <= chars.len(),
            last_index_of(chars@.subrange(from as int, len as int), c) == last_index_of(
                chars@.subrange(from as int, n as int),
                c,
            ),
        decreases n,
    {
        assert(chars@.subrange(from as int, n as int).drop_last() =~= chars@.subrange(
            from as int,
            n - 1,
        ));
        if chars[n - 1] == c {
            return Some(n - 1);
        }
        n = n - 1;
    }
    None
}

/// The directory that holds `path`.
pub fn parent(path: &str) -> (r: Option<String>)
    ensures
        match parent_of(path@) {
            Some(q) => r is Some && r->Some_0@ == q,
            None => r is None,
        },
{
    let chars = chars_of(path);
    proof {
        assert(chars@.take(chars@.len() as int) =~= chars@);
    }
    let end = trimmed_len(&chars, chars.len());
    let ghost t = chars@.take(end as int);
    if end == 0 || (end == 1 && chars[0] == '/') {
        assert(end == 1 ==> t =~= seq!['/']);
        return None;
    }
    assert(t != seq!['/']) by {
        if t == seq!['/'] {
            assert(t.len() == 1);
            assert(t[0] == '/');
        }
    }
    assert(chars@.subrange(0, end as int) =~= t);
    match last_index(&chars, 0, end, '/') {
        None => {
            let r = path.substring_char(0, 0).to_owned();
            assert(r@ =~= Seq::<char>::empty());
            Some(r)
        },
        Some(at) => {
            proof {
                lemma_last_index_of(t, '/');
            }
            if at == 0 {
                let r = path.substring_char(0, 1).to_owned();
                assert(r@ =~= seq!['/']);
                Some(r)
            } else {
                assert(chars@.take(at as int) =~= t.take(at as int));
                let keep = trimmed_len(&chars, at);
                let r = path.substring_char(0, keep).to_owned();
                assert(r@ =~= chars@.take(keep as int));
                Some(r)
            }
        },
    }
}

/// The directories above `path`, the nearest first and the root last.
pub fn ancestors(path: &str) -> (r: Vec<String>)
    ensures
        string_views(r@) == ancestors_of(path@),
{
    let mut found: Vec<String> = Vec::new();
    let mut current: String = path.to_owned();
    assert(string_views(found@) =~= Seq::<Seq<char>>::empty());
    loop
        invariant
            string_views(found@) + ancestors_of(current@) == ancestors_of(path@),
        ensures
            string_views(found@) == ancestors_of(path@),
        decreases current@.len(),
    {
        proof {
            lemma_parent_shorter(current@);
        }
        match parent(current.as_str()) {
            None => {
                assert(string_views(found@) + Seq::<Seq<char>>::empty() =~= string_views(found@));
                break ;
            },
            Some(q) => {
                let ghost before = found@;
                found.push(q.clone());
                assert(string_views(found@) =~= string_views(before).push(q@));
                assert(string_views(before) + (seq![q@] + ancestors_of(q@)) =~= string_views(
                    before,
                ).push(q@) + ancestors_of(q@));
                current = q;
            },
        }
    }
    found
}

/// What follows the last dot of the last component of `path`.
pub fn extension(path: &str) -> (r: Option<String>)
    ensures
        match extension_of(path@) {
            Some(e) => r is Some && r->Some_0@ == e,
            None => r is None,
        },
{
    let chars = chars_of(path);
    proof {
        assert(chars@.take(chars@.len() as int) =~= chars@);
    }
    let end = trimmed_len(&chars, chars.len());
    let ghost t = chars@.take(end as int);
    if end == 0 || (end == 1 && chars[0] == '/') {
        assert(end == 1 ==> t =~= seq!['/']);
        return None;
    }
    assert(t != seq!['/']) by {
        if t == seq!['/'] {
            assert(t.len() == 1);
            assert(t[0] == '/');
        }
    }
    assert(chars@.subrange(0, end as int) =~= t);
    let start: usize = match last_index(&chars, 0, end, '/') {
        Some(at) => at + 1,
        None => 0,
    };
    let ghost name = t.skip(start as int);
    assert(chars@.subrange(start as int, end as int) =~= name);
    assert(file_name_of(path@) == Some(name));
    if end - start == 2 && chars[start] == '.' && chars[start + 1] == '.' {
        assert(name =~= seq!['.', '.']);
        return None;
    }
    assert(name != seq!['.', '.']) by {
        if name.len() == 2 {
            assert(name[0] == chars@[start as int]);
            assert(name[1] == chars@[start + 1]);
        }
    }
    match last_index(&chars, start, end, '.') {
        None => None,
        Some(dot) => {
            if dot == start {
                None
            } else {
                let r = path.substring_char(dot + 1, end).to_owned();
                assert(r@ =~= name.skip(dot - start + 1));
                Some(r)
            }
        },
    }
}

} // verus!
