//! Base names of paths, and paths as parts to be joined by the platform.

use vstd::prelude::*;
use vstd::string::StrSliceExecFns;
use vstd::string::StringExecFns;
use crate::text::{chars_of, strings_view};

verus! {

/// What follows the last `/` of `s`, or all of `s` when it holds no `/`.
pub open spec fn basename_of(s: Seq<char>) -> Seq<char>
    decreases s.len(),
{
    if s.len() == 0 {
        s
    } else if s.last() == '/' {
        Seq::empty()
    } else {
        basename_of(s.drop_last()).push(s.last())
    }
}

/// A base name holds no `/` and ends the name it was taken from.
pub proof fn lemma_basename_is_slash_free_suffix(s: Seq<char>)
    ensures
        !basename_of(s).contains('/'),
        basename_of(s).len() <= s.len(),
        basename_of(s) == s.subrange(s.len() - basename_of(s).len(), s.len() as int),
    decreases s.len(),
{
    if s.len() > 0 && s.last() != '/' {
        lemma_basename_is_slash_free_suffix(s.drop_last());
        let b = basename_of(s.drop_last());
        assert(s.drop_last().subrange(s.len() - 1 - b.len(), s.len() - 1) == b);
        assert(basename_of(s) =~= s.subrange(s.len() - basename_of(s).len(), s.len() as int));
        assert forall|k: int| 0 <= k < basename_of(s).len() implies basename_of(s)[k] != '/' by {
            if k < b.len() {
                assert(b[k] != '/');
            }
        }
    }
}

/// A name without `/` is its own base name.
pub proof fn lemma_basename_of_slash_free(s: Seq<char>)
    requires
        !s.contains('/'),
    ensures
        basename_of(s) == s,
    decreases s.len(),
{
    if s.len() > 0 {
        assert(s.drop_last().len() < s.len());
        assert forall|k: int| 0 <= k < s.drop_last().len() implies s.drop_last()[k] != '/' by {
            assert(s[k] != '/');
        }
        lemma_basename_of_slash_free(s.drop_last());
        assert(s.last() != '/') by {
            assert(s[s.len() - 1] == s.last());
        }
        assert(s.drop_last().push(s.last()) =~= s);
    }
}

/// Taking the base name twice gives the same as taking it once.
pub proof fn law_basename_idempotent(s: Seq<char>)
    ensures
        basename_of(basename_of(s)) == basename_of(s),
{
    lemma_basename_is_slash_free_suffix(s);
    lemma_basename_of_slash_free(basename_of(s));
}

/// The part of `name` after its last `/` (all of `name` when it has none).
pub fn basename(name: &str) -> (r: &str)
    ensures
        r@ == basename_of(name@),
{
    let v = chars_of(name);
    let n: usize = v.len();
    let mut i: usize = n;
    assert(name@.take(n as int) =~= name@);
    assert(name@.subrange(n as int, n as int) =~= Seq::<char>::empty());
    assert(basename_of(name@) + Seq::<char>::empty() =~= basename_of(name@));
    while i > 0 && v[i - 1] != '/'
        invariant
            i <= n,
            n == v.len(),
            v@ == name@,
            basename_of(name@) == basename_of(name@.take(i as int)) + name@.subrange(
                i as int,
                n as int,
            ),
        decreases i,
    {
        let ghost t = name@.take(i as int);
        assert(t.drop_last() == name@.take(i - 1));
        assert(name@.subrange(i - 1, n as int) == seq![t.last()] + name@.subrange(i as int, n as int));
        i = i - 1;
    }
    assert(basename_of(name@.take(i as int)) == Seq::<char>::empty()) by {
        if i > 0 {
            assert(name@.take(i as int).last() == '/');
        }
    }
    assert(name@.take(n as int) == name@);
    name.substring_char(i, n)
}

/// A path as the program builds it: a starting path and the parts that are
/// joined onto it, one after the other, by the platform's `Path::join`.
pub struct JoinedPath {
    pub start: String,
    pub parts: Vec<String>,
}

impl View for JoinedPath {
    type V = (Seq<char>, Seq<Seq<char>>);

    open spec fn view(&self) -> (Seq<char>, Seq<Seq<char>>) {
        (self.start@, strings_view(self.parts@))
    }
}

/// The characters of each string slice of `v`, in order.
pub open spec fn strs_view(v: Seq<&str>) -> Seq<Seq<char>> {
    v.map_values(|s: &str| s@)
}

/// The path `start` with `parts` joined onto it in order.
pub fn joined_path(start: &str, parts: &[&str]) -> (r: JoinedPath)
    ensures
        r@ == (start@, strs_view(parts@)),
{
    let mut v: Vec<String> = Vec::new();
    let mut i: usize = 0;
    while i < parts.len()
        invariant
            i <= parts.len(),
            strings_view(v@) == strs_view(parts@).take(i as int),
        decreases parts.len() - i,
    {
        let ghost before = v@;
        v.push(String::from_str(parts[i]));
        assert(strings_view(v@) =~= strings_view(before).push(parts@[i as int]@));
        i = i + 1;
        assert(strs_view(parts@).take(i as int) =~= strs_view(parts@).take(i - 1).push(parts@[i - 1]@));
    }
    assert(strs_view(parts@).take(parts.len() as int) =~= strs_view(parts@));
    JoinedPath { start: String::from_str(start), parts: v }
}

} // verus!
