//! Filling the `@NAME@` placeholders of the files that `cargo rbext new` writes.

use vstd::prelude::*;
use case::CaseExt;
use crate::options::Options;
use crate::text::{chars_of, push_all, string_of};

verus! {

/// `s` with every occurrence of `from` replaced by `to`, matches taken from
/// left to right without overlap; an empty `from` matches before every
/// character and at the end, as `str::replace` does.
pub open spec fn replaced(s: Seq<char>, from: Seq<char>, to: Seq<char>) -> Seq<char>
    decreases s.len(),
{
    if s.len() == 0 {
        if from.len() == 0 {
            to
        } else {
            Seq::empty()
        }
    } else if from.len() == 0 {
        to + seq![s[0]] + replaced(s.drop_first(), from, to)
    } else if s.len() >= from.len() && s.take(from.len() as int) == from {
        to + replaced(s.skip(from.len() as int), from, to)
    } else {
        seq![s[0]] + replaced(s.drop_first(), from, to)
    }
}

/// Whether `f` stands in `v` from position `i` on.
fn matches_at(v: &Vec<char>, i: usize, f: &Vec<char>) -> (r: bool)
    requires
        i <= v.len(),
    ensures
        r == (v@.skip(i as int).len() >= f@.len() && v@.skip(i as int).take(f@.len() as int) == f@),
{
    if f.len() > v.len() - i {
        return false;
    }
    let mut k: usize = 0;
    while k < f.len()
        invariant
            i + f.len() <= v.len(),
            k <= f.len(),
            forall|m: int| 0 <= m < k ==> v@[i + m] == f@[m],
        decreases f.len() - k,
    {
        if v[i + k] != f[k] {
            assert(v@.skip(i as int).take(f@.len() as int)[k as int] != f@[k as int]);
            return false;
        }
        k = k + 1;
    }
    assert(v@.skip(i as int).take(f@.len() as int) =~= f@);
    true
}

/// `s` with every occurrence of `from` replaced by `to`, as `str::replace` does.
pub fn replace_all(s: &str, from: &str, to: &str) -> (r: String)
    ensures
        r@ == replaced(s@, from@, to@),
{
    let v = chars_of(s);
    let f = chars_of(from);
    let t = chars_of(to);
    let mut out: Vec<char> = Vec::new();
    let mut i: usize = 0;
    assert(v@.skip(0) =~= v@);
    assert(out@ + replaced(v@, f@, t@) =~= replaced(v@, f@, t@));
    while i < v.len()
        invariant
            i <= v.len(),
            v@ == s@,
            f@ == from@,
            t@ == to@,
            out@ + replaced(v@.skip(i as int), f@, t@) == replaced(v@, f@, t@),
        decreases v.len() - i,
    {
        let ghost rest = v@.skip(i as int);
        let ghost before = out@;
        if f.len() == 0 {
            push_all(&mut out, &t);
            out.push(v[i]);
            assert(rest.drop_first() =~= v@.skip(i + 1));
            assert(out@ + replaced(v@.skip(i + 1), f@, t@) =~= before + replaced(rest, f@, t@));
            i = i + 1;
        } else if matches_at(&v, i, &f) {
            push_all(&mut out, &t);
            assert(rest.skip(f@.len() as int) =~= v@.skip(i + f@.len()));
            assert(out@ + replaced(v@.skip(i + f@.len()), f@, t@) =~= before + replaced(rest, f@, t@));
            i = i + f.len();
        } else {
            out.push(v[i]);
            assert(rest.drop_first() =~= v@.skip(i + 1));
            assert(out@ + replaced(v@.skip(i + 1), f@, t@) =~= before + replaced(rest, f@, t@));
            i = i + 1;
        }
    }
    assert(v@.skip(i as int) =~= Seq::<char>::empty());
    if f.len() == 0 {
        push_all(&mut out, &t);
    } else {
        assert(out@ + Seq::<char>::empty() =~= out@);
    }
    string_of(out.as_slice())
}

/// Whether `from` stands somewhere in `s`.
pub open spec fn occurs_in(s: Seq<char>, from: Seq<char>) -> bool {
    exists|i: int| 0 <= i && i + from.len() <= s.len() && #[trigger] s.subrange(i, i + from.len()) == from
}

/// A text in which the placeholder does not occur is left as it is.
pub proof fn law_replace_absent_is_identity(s: Seq<char>, from: Seq<char>, to: Seq<char>)
    requires
        from.len() > 0,
        !occurs_in(s, from),
    ensures
        replaced(s, from, to) == s,
    decreases s.len(),
{
    if s.len() > 0 {
        if s.len() >= from.len() && s.take(from.len() as int) == from {
            assert(s.subrange(0, 0 + from.len() as int) == s.take(from.len() as int));
        }
        let t = s.drop_first();
        assert forall|i: int| 0 <= i && i + from.len() <= t.len() implies #[trigger] t.subrange(i, i + from.len()) != from by {
            assert(t.subrange(i, i + from.len()) =~= s.subrange(i + 1, i + 1 + from.len()));
        }
        law_replace_absent_is_identity(t, from, to);
        assert(seq![s[0]] + t =~= s);
    }
}

/// A text that is exactly the placeholder becomes its value.
pub proof fn law_replace_whole(from: Seq<char>, to: Seq<char>)
    requires
        from.len() > 0,
    ensures
        replaced(from, from, to) == to,
{
    assert(from.take(from.len() as int) =~= from);
    assert(from.skip(from.len() as int) =~= Seq::<char>::empty());
    assert(replaced(Seq::<char>::empty(), from, to) == Seq::<char>::empty());
    assert(replaced(from, from, to) == to + replaced(from.skip(from.len() as int), from, to));
    assert(to + Seq::<char>::empty() =~= to);
}

/// Replacing in two texts one after the other is replacing in each, when no
/// occurrence of the placeholder straddles the point where they meet: every
/// occurrence is replaced, wherever it stands.
pub proof fn law_replace_concat(a: Seq<char>, b: Seq<char>, from: Seq<char>, to: Seq<char>)
    requires
        from.len() > 0,
        forall|i: int|
            0 <= i < a.len() && a.len() < i + from.len() <= a.len() + b.len() ==> #[trigger] (a
                + b).subrange(i, i + from.len()) != from,
    ensures
        replaced(a + b, from, to) == replaced(a, from, to) + replaced(b, from, to),
    decreases a.len(),
{
    let n = from.len() as int;
    if a.len() == 0 {
        assert(a + b =~= b);
        assert(Seq::<char>::empty() + replaced(b, from, to) =~= replaced(b, from, to));
    } else if (a + b).len() >= n && (a + b).take(n) == from {
        if n > a.len() {
            assert((a + b).subrange(0, 0 + n) == (a + b).take(n));
        }
        assert(a.take(n) =~= (a + b).take(n));
        let a2 = a.skip(n);
        assert((a + b).skip(n) =~= a2 + b);
        assert forall|i: int|
            0 <= i < a2.len() && a2.len() < i + n <= a2.len() + b.len() implies #[trigger] (a2
                + b).subrange(i, i + n) != from by {
            assert((a2 + b).subrange(i, i + n) =~= (a + b).subrange(i + n, i + n + n));
        }
        law_replace_concat(a2, b, from, to);
        assert(to + (replaced(a2, from, to) + replaced(b, from, to)) =~= (to + replaced(a2, from, to))
            + replaced(b, from, to));
    } else {
        if a.len() >= n && a.take(n) == from {
            assert((a + b).take(n) =~= a.take(n));
        }
        let a2 = a.drop_first();
        assert((a + b).drop_first() =~= a2 + b);
        assert((a + b)[0] == a[0]);
        assert forall|i: int|
            0 <= i < a2.len() && a2.len() < i + n <= a2.len() + b.len() implies #[trigger] (a2
                + b).subrange(i, i + n) != from by {
            assert((a2 + b).subrange(i, i + n) =~= (a + b).subrange(i + 1, i + 1 + n));
        }
        law_replace_concat(a2, b, from, to);
        assert(seq![a[0]] + (replaced(a2, from, to) + replaced(b, from, to)) =~= (seq![a[0]]
            + replaced(a2, from, to)) + replaced(b, from, to));
    }
}

/// The placeholder–value pairs as characters.
pub open spec fn pairs_view(kv: Seq<(String, String)>) -> Seq<(Seq<char>, Seq<char>)> {
    kv.map_values(|p: (String, String)| (p.0@, p.1@))
}

/// `content` with each placeholder of `key_values` replaced by its value,
/// one pair after the other, in order.
pub open spec fn substituted(content: Seq<char>, key_values: Seq<(Seq<char>, Seq<char>)>) -> Seq<char>
    decreases key_values.len(),
{
    if key_values.len() == 0 {
        content
    } else {
        replaced(
            substituted(content, key_values.drop_last()),
            key_values.last().0,
            key_values.last().1,
        )
    }
}

/// The text of a file made from the template `content`: each placeholder of
/// `key_values` replaced by its value, one pair after the other.
pub fn fill_template(content: &str, key_values: &[(String, String)]) -> (r: String)
    ensures
        r@ == substituted(content@, pairs_view(key_values@)),
{
    let mut text = string_of(chars_of(content).as_slice());
    let mut i: usize = 0;
    assert(pairs_view(key_values@).take(0) =~= Seq::<(Seq<char>, Seq<char>)>::empty());
    while i < key_values.len()
        invariant
            i <= key_values.len(),
            text@ == substituted(content@, pairs_view(key_values@).take(i as int)),
        decreases key_values.len() - i,
    {
        let kv = &key_values[i];
        text = replace_all(text.as_str(), kv.0.as_str(), kv.1.as_str());
        i = i + 1;
        let ghost taken = pairs_view(key_values@).take(i as int);
        assert(taken.drop_last() =~= pairs_view(key_values@).take(i - 1));
    }
    assert(pairs_view(key_values@).take(key_values.len() as int) =~= pairs_view(key_values@));
    text
}

/// `c` in ASCII upper case: `a` to `z` become `A` to `Z`, anything else stays.
pub open spec fn ascii_upper(c: char) -> char {
    if 'a' <= c && c <= 'z' {
        ((c as u32) - 32) as char
    } else {
        c
    }
}

/// Snake case to camel case: underscores dropped, and the first character
/// of each word (at the start, or after an underscore) in ASCII upper case;
/// `new_word` tells whether the next character starts a word.
pub open spec fn camel_from(s: Seq<char>, new_word: bool) -> Seq<char>
    decreases s.len(),
{
    if s.len() == 0 {
        Seq::empty()
    } else if s[0] == '_' {
        camel_from(s.drop_first(), true)
    } else {
        seq![
            if new_word {
                ascii_upper(s[0])
            } else {
                s[0]
            },
        ] + camel_from(s.drop_first(), false)
    }
}

/// `s` in capitalized camel case.
pub open spec fn camel_case(s: Seq<char>) -> Seq<char> {
    camel_from(s, true)
}

/// `case::CaseExt::to_camel` on a `str`: drops the underscores and puts the
/// first character of each word in ASCII upper case, the first word included.
/// The contract states that behaviour, as the crate's source writes it.
#[verifier::external_body]
fn snake_to_camel(s: &str) -> (r: String)
    ensures
        r@ == camel_case(s@),
{
    s.to_camel()
}

/// A camel-case name holds no underscore.
pub proof fn law_camel_has_no_underscore(s: Seq<char>, new_word: bool)
    ensures
        !camel_from(s, new_word).contains('_'),
    decreases s.len(),
{
    if s.len() > 0 {
        law_camel_has_no_underscore(s.drop_first(), s[0] == '_');
        if s[0] != '_' {
            let c = if new_word {
                ascii_upper(s[0])
            } else {
                s[0]
            };
            let rest = camel_from(s.drop_first(), false);
            assert(c != '_');
            assert forall|k: int| 0 <= k < (seq![c] + rest).len() implies (seq![c] + rest)[k] != '_' by {
                if k > 0 {
                    assert((seq![c] + rest)[k] == rest[k - 1]);
                }
            }
        }
    }
}

/// The placeholders of the template files and their values for `opts`: the
/// package's base name, that name in camel case, and the full extension name.
pub fn template_values(opts: &Options) -> (r: Vec<(String, String)>)
    ensures
        pairs_view(r@) == seq![
            ("@EXT_BASENAME@"@, opts.name_of()),
            ("@EXT_CLASSNAME@"@, camel_case(opts.name_of())),
            ("@EXT_FULLNAME@"@, opts.ext_name_of()),
        ],
{
    let base_name = opts.name();
    let class_name = snake_to_camel(base_name);
    let mut r: Vec<(String, String)> = Vec::new();
    r.push((String::from_str("@EXT_BASENAME@"), String::from_str(base_name)));
    r.push((String::from_str("@EXT_CLASSNAME@"), class_name));
    r.push((String::from_str("@EXT_FULLNAME@"), String::from_str(opts.ext_name())));
    assert(pairs_view(r@) =~= seq![
        ("@EXT_BASENAME@"@, opts.name_of()),
        ("@EXT_CLASSNAME@"@, camel_case(opts.name_of())),
        ("@EXT_FULLNAME@"@, opts.ext_name_of()),
    ]);
    r
}

} // verus!
