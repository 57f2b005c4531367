//! Names and paths of files.

use vstd::prelude::*;
use vstd::string::*;
use crate::paths::is_separator;
use crate::text::chars_of;

verus! {

/// A text without its pairs of dots, taken off from front to back.
pub open spec fn without_pairs(s: Seq<char>) -> Seq<char>
    decreases s.len(),
{
    if s.len() == 0 {
        s
    } else if s.len() >= 2 && s[0] == '.' && s[1] == '.' {
        without_pairs(s.skip(2))
    } else {
        seq![s[0]] + without_pairs(s.skip(1))
    }
}

/// A text without the separators in it.
pub open spec fn without_separators(s: Seq<char>) -> Seq<char> {
    s.filter(|c: char| !is_separator(c))
}

/// The name under which a file that a peer calls `name` is stored: without pairs of dots, and
/// then without separators.
pub open spec fn safe_name(name: Seq<char>) -> Seq<char> {
    without_separators(without_pairs(name))
}

/// The path at which a file that a peer calls `name` is stored.
pub open spec fn download_path(name: Seq<char>) -> Seq<char> {
    "downloads/"@ + safe_name(name)
}

/// Whether two dots stand side by side.
pub open spec fn has_pair(s: Seq<char>) -> bool {
    exists|i: int| 0 <= i < s.len() - 1 && #[trigger] s[i] == '.' && s[i + 1] == '.'
}

/// Whether two dots stand with nothing but separators, and at least one, between them.
pub open spec fn has_split_pair(s: Seq<char>) -> bool {
    exists|i: int, j: int|
        0 <= i && i + 1 < j < s.len() && #[trigger] s[i] == '.' && #[trigger] s[j] == '.' && (
        forall|k: int| i < k < j ==> is_separator(#[trigger] s[k]))
}

fn drop_pairs(v: &Vec<char>) -> (r: Vec<char>)
    ensures
        r@ == without_pairs(v@),
{
    let mut out: Vec<char> = Vec::new();
    let mut i: usize = 0;
    assert(v@.skip(0) =~= v@);
    while i < v.len()
        invariant
            i <= v.len(),
            without_pairs(v@) == out@ + without_pairs(v@.skip(i as int)),
        decreases v.len() - i,
    {
        let ghost rest = v@.skip(i as int);
        if v[i] == '.' && i + 1 < v.len() && v[i + 1] == '.' {
            assert(rest.skip(2) =~= v@.skip(i + 2));
            i += 2;
        } else {
            assert(rest.skip(1) =~= v@.skip(i + 1));
            let ghost before = out@;
            out.push(v[i]);
            i += 1;
            assert(out@ + without_pairs(v@.skip(i as int)) =~= before + (seq![rest[0]]
                + without_pairs(v@.skip(i as int))));
        }
    }
    assert(out@ + without_pairs(v@.skip(i as int)) =~= out@);
    out
}

/// The name under which a file that a peer names is stored.
pub fn make_safe_name(name: &str) -> (r: String)
    ensures
        r@ == safe_name(name@),
{
    let v = drop_pairs(&chars_of(name));
    let ghost keep = |c: char| !is_separator(c);
    let mut r = String::new();
    let mut i: usize = 0;
    proof {
        reveal(Seq::filter);
    }
    while i < v.len()
        invariant
            i <= v.len(),
            keep == (|c: char| !is_separator(c)),
            r@ == v@.take(i as int).filter(keep),
        decreases v.len() - i,
    {
        proof {
            reveal(Seq::filter);
            assert(v@.take(i + 1).drop_last() =~= v@.take(i as int));
        }
        if v[i] != '/' && v[i] != '\\' {
            r.push(v[i]);
        }
        i += 1;
    }
    assert(v@.take(v@.len() as int) =~= v@);
    r
}

/// The path at which a file that a peer names is stored.
pub fn make_download_path(safe: &str) -> (r: String)
    ensures
        r@ == "downloads/"@ + safe@,
{
    "downloads/".to_owned().concat(safe)
}

proof fn lemma_filter_all(s: Seq<char>)
    ensures
        forall|i: int|
            0 <= i < without_separators(s).len() ==> !is_separator(
                #[trigger] without_separators(s)[i],
            ),
    decreases s.len(),
{
    reveal(Seq::filter);
    if s.len() > 0 {
        lemma_filter_all(s.drop_last());
    }
}

/// The name under which a file is stored holds no separator.
pub proof fn law_safe_name_has_no_separator(name: Seq<char>)
    ensures
        forall|i: int| 0 <= i < safe_name(name).len() ==> !is_separator(#[trigger] safe_name(name)[i]),
{
    lemma_filter_all(without_pairs(name));
}

proof fn lemma_without_pairs(s: Seq<char>)
    ensures
        !has_pair(without_pairs(s)),
        s.len() > 0 && without_pairs(s).len() > 0 && s[0] != '.' ==> without_pairs(s)[0] == s[0],
    decreases s.len(),
{
    let t = without_pairs(s);
    if s.len() == 0 {
    } else if s.len() >= 2 && s[0] == '.' && s[1] == '.' {
        lemma_without_pairs(s.skip(2));
    } else {
        let rest = without_pairs(s.skip(1));
        lemma_without_pairs(s.skip(1));
        if has_pair(t) {
            let i = choose|i: int| 0 <= i < t.len() - 1 && #[trigger] t[i] == '.' && t[i + 1] == '.';
            if i == 0 {
                assert(t[1] == rest[0]);
                assert(s.skip(1)[0] == s[1]);
                assert(s[1] != '.');
                assert(rest[0] == s[1]);
            } else {
                assert(t[i] == rest[i - 1]);
                assert(t[i + 1] == rest[i]);
                assert(has_pair(rest));
            }
        }
    }
}

/// Whether the last character that is no separator is a dot.
spec fn ends_in_dot(t: Seq<char>) -> bool {
    exists|i: int|
        0 <= i < t.len() && #[trigger] t[i] == '.' && (forall|k: int|
            i < k < t.len() ==> is_separator(#[trigger] t[k]))
}

proof fn lemma_ends_in_dot(t: Seq<char>)
    ensures
        ends_in_dot(t) <==> (without_separators(t).len() > 0 && without_separators(t).last() == '.'),
    decreases t.len(),
{
    reveal(Seq::filter);
    if t.len() > 0 {
        let u = t.drop_last();
        let c = t.last();
        lemma_ends_in_dot(u);
        if is_separator(c) {
            if ends_in_dot(u) {
                let i = choose|i: int|
                    0 <= i < u.len() && #[trigger] u[i] == '.' && (forall|k: int|
                        i < k < u.len() ==> is_separator(#[trigger] u[k]));
                assert(t[i] == '.');
                assert forall|k: int| i < k < t.len() implies is_separator(#[trigger] t[k]) by {
                    if k < u.len() {
                        assert(u[k] == t[k]);
                    }
                }
            }
            if ends_in_dot(t) {
                let i = choose|i: int|
                    0 <= i < t.len() && #[trigger] t[i] == '.' && (forall|k: int|
                        i < k < t.len() ==> is_separator(#[trigger] t[k]));
                assert(u[i] == '.');
                assert forall|k: int| i < k < u.len() implies is_separator(#[trigger] u[k]) by {
                    assert(u[k] == t[k]);
                }
            }
        } else {
            if c == '.' {
                assert(t[t.len() - 1] == '.');
            }
            if ends_in_dot(t) {
                let i = choose|i: int|
                    0 <= i < t.len() && #[trigger] t[i] == '.' && (forall|k: int|
                        i < k < t.len() ==> is_separator(#[trigger] t[k]));
                if i < t.len() - 1 {
                    assert(is_separator(t[t.len() - 1]));
                }
            }
        }
    }
}

proof fn lemma_pair_comes_from(t: Seq<char>)
    requires
        !has_pair(t),
    ensures
        has_pair(without_separators(t)) <==> has_split_pair(t),
    decreases t.len(),
{
    reveal(Seq::filter);
    let f = without_separators(t);
    if t.len() > 0 {
        let u = t.drop_last();
        let c = t.last();
        let g = without_separators(u);
        if has_pair(u) {
            let i = choose|i: int| 0 <= i < u.len() - 1 && #[trigger] u[i] == '.' && u[i + 1] == '.';
            assert(t[i] == '.' && t[i + 1] == '.');
        }
        lemma_pair_comes_from(u);
        lemma_ends_in_dot(u);
        if has_split_pair(u) {
            let (i, j) = choose|i: int, j: int|
                0 <= i && i + 1 < j < u.len() && #[trigger] u[i] == '.' && #[trigger] u[j] == '.'
                    && (forall|k: int| i < k < j ==> is_separator(#[trigger] u[k]));
            assert(t[i] == '.' && t[j] == '.');
            assert forall|k: int| i < k < j implies is_separator(#[trigger] t[k]) by {
                assert(u[k] == t[k]);
            }
            assert(has_split_pair(t));
        }
        if has_pair(g) {
            let i = choose|i: int| 0 <= i < g.len() - 1 && #[trigger] g[i] == '.' && g[i + 1] == '.';
            assert(f[i] == '.' && f[i + 1] == '.');
        }
        if has_split_pair(t) {
            let (i, j) = choose|i: int, j: int|
                0 <= i && i + 1 < j < t.len() && #[trigger] t[i] == '.' && #[trigger] t[j] == '.'
                    && (forall|k: int| i < k < j ==> is_separator(#[trigger] t[k]));
            if j < u.len() {
                assert(u[i] == '.' && u[j] == '.');
                assert forall|k: int| i < k < j implies is_separator(#[trigger] u[k]) by {
                    assert(u[k] == t[k]);
                }
                assert(has_split_pair(u));
            } else {
                assert(u[i] == '.');
                assert forall|k: int| i < k < u.len() implies is_separator(#[trigger] u[k]) by {
                    assert(u[k] == t[k]);
                }
                assert(ends_in_dot(u));
                assert(f[g.len() - 1] == '.' && f[g.len() as int] == '.');
            }
        }
        if has_pair(f) && !has_pair(g) {
            let i = choose|i: int| 0 <= i < f.len() - 1 && #[trigger] f[i] == '.' && f[i + 1] == '.';
            assert(!is_separator(c));
            if i + 1 < g.len() {
                assert(g[i] == '.' && g[i + 1] == '.');
            }
            assert(c == '.' && g.last() == '.');
            let k0 = choose|i: int|
                0 <= i < u.len() && #[trigger] u[i] == '.' && (forall|k: int|
                    i < k < u.len() ==> is_separator(#[trigger] u[k]));
            let j0 = t.len() - 1;
            assert(t[k0] == '.' && t[j0] == '.');
            if k0 + 1 == j0 {
                assert(t[k0] == '.' && t[k0 + 1] == '.');
                assert(has_pair(t));
            }
            assert forall|k: int| k0 < k < j0 implies is_separator(#[trigger] t[k]) by {
                assert(u[k] == t[k]);
            }
            assert(has_split_pair(t));
        }
    }
}

/// The name under which a file is stored holds two dots side by side exactly where the peer's
/// name, once rid of its pairs of dots, has two dots with only separators between them.
pub proof fn law_safe_name_pairs(name: Seq<char>)
    ensures
        has_pair(safe_name(name)) <==> has_split_pair(without_pairs(name)),
{
    lemma_without_pairs(name);
    lemma_pair_comes_from(without_pairs(name));
}

proof fn lemma_nothing_to_drop(s: Seq<char>)
    requires
        !has_pair(s),
    ensures
        without_pairs(s) == s,
    decreases s.len(),
{
    if s.len() > 0 {
        let t = s.skip(1);
        if has_pair(t) {
            let i = choose|i: int| 0 <= i < t.len() - 1 && #[trigger] t[i] == '.' && t[i + 1] == '.';
            assert(s[i + 1] == '.' && s[i + 2] == '.');
        }
        if s.len() >= 2 {
            assert(!(s[0] == '.' && s[0int + 1] == '.'));
        }
        lemma_nothing_to_drop(t);
        assert(seq![s[0]] + t =~= s);
    }
}

proof fn lemma_nothing_separates(s: Seq<char>)
    requires
        forall|i: int| 0 <= i < s.len() ==> !is_separator(#[trigger] s[i]),
    ensures
        without_separators(s) == s,
    decreases s.len(),
{
    reveal(Seq::filter);
    if s.len() > 0 {
        let t = s.drop_last();
        assert forall|i: int| 0 <= i < t.len() implies !is_separator(#[trigger] t[i]) by {
            assert(t[i] == s[i]);
        }
        assert(!is_separator(s[s.len() - 1]));
        lemma_nothing_separates(t);
        assert(t.push(s.last()) =~= s);
    } else {
        assert(without_separators(s) =~= s);
    }
}

/// A file whose name holds neither a separator nor two dots side by side is stored under that
/// very name.
pub proof fn law_harmless_name_is_kept(name: Seq<char>)
    requires
        !has_pair(name),
        forall|i: int| 0 <= i < name.len() ==> !is_separator(#[trigger] name[i]),
    ensures
        safe_name(name) == name,
{
    lemma_nothing_to_drop(name);
    lemma_nothing_separates(name);
}

/// The characters of a text but for dots and separators.
pub open spec fn letters(s: Seq<char>) -> Seq<char> {
    s.filter(|c: char| c != '.' && c != '/' && c != '\\')
}

proof fn lemma_letters_of_sum(a: Seq<char>, b: Seq<char>)
    ensures
        letters(a + b) == letters(a) + letters(b),
    decreases b.len(),
{
    reveal(Seq::filter);
    if b.len() > 0 {
        lemma_letters_of_sum(a, b.drop_last());
        assert((a + b).drop_last() =~= a + b.drop_last());
        assert((a + b).last() == b.last());
        assert(letters(a + b) =~= letters(a) + letters(b));
    } else {
        assert(a + b =~= a);
        assert(letters(a + b) =~= letters(a) + letters(b));
    }
}

proof fn lemma_pairs_hold_no_letters(s: Seq<char>)
    ensures
        letters(without_pairs(s)) == letters(s),
    decreases s.len(),
{
    if s.len() == 0 {
    } else if s.len() >= 2 && s[0] == '.' && s[1] == '.' {
        lemma_pairs_hold_no_letters(s.skip(2));
        lemma_letters_of_sum(s.take(2), s.skip(2));
        assert(s.take(2) + s.skip(2) =~= s);
        assert(letters(s.take(2)) =~= Seq::empty()) by {
            reveal(Seq::filter);
            reveal_with_fuel(Seq::filter, 3);
            assert(s.take(2).drop_last() =~= seq!['.']);
            assert(seq!['.'].drop_last() =~= Seq::<char>::empty());
        }
    } else {
        lemma_pairs_hold_no_letters(s.skip(1));
        lemma_letters_of_sum(seq![s[0]], s.skip(1));
        lemma_letters_of_sum(seq![s[0]], without_pairs(s.skip(1)));
        assert(seq![s[0]] + s.skip(1) =~= s);
    }
}

proof fn lemma_separators_are_no_letters(s: Seq<char>)
    ensures
        letters(without_separators(s)) == letters(s),
    decreases s.len(),
{
    reveal(Seq::filter);
    if s.len() > 0 {
        lemma_separators_are_no_letters(s.drop_last());
        let w = without_separators(s.drop_last());
        assert(w.push(s.last()).drop_last() =~= w);
    }
}

/// Nothing but dots and separators is lost from the name of a file, and the rest keeps its order.
pub proof fn law_letters_are_kept(name: Seq<char>)
    ensures
        letters(safe_name(name)) == letters(name),
{
    lemma_pairs_hold_no_letters(name);
    lemma_separators_are_no_letters(without_pairs(name));
}

/// A run of dots.
pub open spec fn dots(n: nat) -> Seq<char> {
    Seq::new(n, |i: int| '.')
}

proof fn lemma_pairs_of_sum(front: Seq<char>, rest: Seq<char>)
    requires
        front.len() > 0 ==> front.last() != '.',
    ensures
        without_pairs(front + rest) == without_pairs(front) + without_pairs(rest),
    decreases front.len(),
{
    let s = front + rest;
    if front.len() == 0 {
        assert(s =~= rest);
        assert(without_pairs(front) + without_pairs(rest) =~= without_pairs(rest));
    } else if front.len() >= 2 && front[0] == '.' && front[1] == '.' {
        assert(s[0] == '.' && s[1] == '.');
        assert(s.skip(2) =~= front.skip(2) + rest);
        if front.skip(2).len() > 0 {
            assert(front.skip(2).last() == front.last());
        }
        lemma_pairs_of_sum(front.skip(2), rest);
    } else {
        assert(s[0] == front[0]);
        assert(s.skip(1) =~= front.skip(1) + rest);
        if front.len() >= 2 {
            assert(s[1] == front[1]);
            assert(front.skip(1).last() == front.last());
        }
        lemma_pairs_of_sum(front.skip(1), rest);
        assert(without_pairs(s) =~= without_pairs(front) + without_pairs(rest));
    }
}

proof fn lemma_pairs_of_dots(n: nat, back: Seq<char>)
    requires
        back.len() > 0 ==> back[0] != '.',
    ensures
        without_pairs(dots(n) + back) == dots(n % 2) + without_pairs(back),
    decreases n,
{
    let s = dots(n) + back;
    if n == 0 {
        assert(s =~= back);
        assert(dots(0) + without_pairs(back) =~= without_pairs(back));
    } else if n == 1 {
        assert(s[0] == '.');
        assert(s.skip(1) =~= back);
        if s.len() >= 2 {
            assert(s[1] == back[0]);
        }
        assert(without_pairs(s) =~= dots(1) + without_pairs(back));
    } else {
        assert(s[0] == '.' && s[1] == '.');
        assert(s.skip(2) =~= dots((n - 2) as nat) + back);
        lemma_pairs_of_dots((n - 2) as nat, back);
        assert((n - 2) as nat % 2 == n % 2);
    }
}

/// Dots go in pairs: of each run of dots none is left where their number is even, and one where
/// it is odd; what stands around the run is treated by itself.
pub proof fn law_dots_go_in_pairs(front: Seq<char>, n: nat, back: Seq<char>)
    requires
        front.len() > 0 ==> front.last() != '.',
        back.len() > 0 ==> back[0] != '.',
    ensures
        without_pairs(front + dots(n) + back) == without_pairs(front) + dots(n % 2) + without_pairs(
            back,
        ),
{
    assert(front + dots(n) + back =~= front + (dots(n) + back));
    lemma_pairs_of_sum(front, dots(n) + back);
    lemma_pairs_of_dots(n, back);
    assert(without_pairs(front) + dots(n % 2) + without_pairs(back) =~= without_pairs(front) + (
    dots(n % 2) + without_pairs(back)));
}

/// The name of a file loses its pairs of dots first, and then every slash and every backslash;
/// the file is stored under what is left, among the downloads.
pub proof fn law_making_of_a_safe_name(name: Seq<char>, c: char)
    ensures
        safe_name(name) == without_separators(without_pairs(name)),
        without_separators(Seq::empty()) == Seq::<char>::empty(),
        c == '/' || c == '\\' ==> without_separators(name.push(c)) == without_separators(name),
        c != '/' && c != '\\' ==> without_separators(name.push(c)) == without_separators(
            name,
        ).push(c),
        download_path(name).len() == 10 + safe_name(name).len(),
        download_path(name).take(10) == "downloads/"@,
        download_path(name).skip(10) == safe_name(name),
{
    reveal(Seq::filter);
    reveal_strlit("downloads/");
    assert(name.push(c).drop_last() =~= name);
    assert(download_path(name).take(10) =~= "downloads/"@);
    assert(download_path(name).skip(10) =~= safe_name(name));
}

} // verus!
