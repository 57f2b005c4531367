//! What a client remembers about peers: the names given to them, and the favorites.

use vstd::prelude::*;
use crate::text::same;

verus! {

/// The name that the user has given to a peer.
#[derive(Debug)]
pub struct Alias {
    pub id: String,
    pub name: String,
}

/// What a client remembers about peers.
#[derive(Debug)]
pub struct AppPrefs {
    pub aliases: Vec<Alias>,
    pub favorites: Vec<String>,
}

/// What a client remembers about peers.
pub struct AppPrefsView {
    pub aliases: Map<Seq<char>, Seq<char>>,
    pub favorites: Seq<Seq<char>>,
}

/// Aliases as a map by peer, in which the last of two for one peer counts.
pub open spec fn aliases_view(v: Seq<Alias>) -> Map<Seq<char>, Seq<char>>
    decreases v.len(),
{
    if v.len() == 0 {
        Map::empty()
    } else {
        aliases_view(v.drop_last()).insert(v.last().id@, v.last().name@)
    }
}

impl View for AppPrefs {
    type V = AppPrefsView;

    open spec fn view(&self) -> AppPrefsView {
        AppPrefsView {
            aliases: aliases_view(self.aliases@),
            favorites: self.favorites.deep_view(),
        }
    }
}

/// The favorites but for one peer.
pub open spec fn without(s: Seq<Seq<char>>, id: Seq<char>) -> Seq<Seq<char>> {
    s.filter(|x: Seq<char>| x != id)
}

impl AppPrefsView {
    /// The name under which a peer is shown: the one that the user has given, or else its own.
    pub open spec fn shown_name(self, id: Seq<char>, own: Seq<char>) -> Seq<char> {
        if self.aliases.dom().contains(id) {
            self.aliases[id]
        } else {
            own
        }
    }

    /// What is remembered once a peer has been made a favorite, or is none any more.
    pub open spec fn toggled(self, id: Seq<char>) -> AppPrefsView {
        AppPrefsView {
            favorites: if self.favorites.contains(id) {
                without(self.favorites, id)
            } else {
                self.favorites.push(id)
            },
            ..self
        }
    }

    /// What is remembered once the user has given a peer a name.
    pub open spec fn renamed(self, id: Seq<char>, name: Seq<char>) -> AppPrefsView {
        AppPrefsView { aliases: self.aliases.insert(id, name), ..self }
    }
}

proof fn lemma_alias_counts(v: Seq<Alias>, i: int, name: Alias)
    requires
        0 <= i < v.len(),
        name.id@ == v[i].id@,
        forall|k: int| i < k < v.len() ==> (#[trigger] v[k]).id@ != v[i].id@,
    ensures
        aliases_view(v).dom().contains(v[i].id@),
        aliases_view(v)[v[i].id@] == v[i].name@,
        aliases_view(v.update(i, name)) == aliases_view(v).insert(v[i].id@, name.name@),
    decreases v.len(),
{
    let w = v.update(i, name);
    if i < v.len() - 1 {
        let u = v.drop_last();
        assert(v[v.len() - 1].id@ != v[i].id@);
        assert forall|k: int| i < k < u.len() implies (#[trigger] u[k]).id@ != u[i].id@ by {
            assert(u[k] == v[k]);
        }
        lemma_alias_counts(u, i, name);
        assert(w.drop_last() =~= u.update(i, name));
        assert(aliases_view(w) =~= aliases_view(v).insert(v[i].id@, name.name@));
    } else {
        assert(w.drop_last() =~= v.drop_last());
        assert(aliases_view(w) =~= aliases_view(v).insert(v[i].id@, name.name@));
    }
}

proof fn lemma_no_alias(v: Seq<Alias>, id: Seq<char>)
    requires
        forall|k: int| 0 <= k < v.len() ==> (#[trigger] v[k]).id@ != id,
    ensures
        !aliases_view(v).dom().contains(id),
    decreases v.len(),
{
    if v.len() > 0 {
        assert(v[v.len() - 1].id@ != id);
        assert forall|k: int| 0 <= k < v.drop_last().len() implies (#[trigger] v.drop_last()[k]).id@
            != id by {
            assert(v.drop_last()[k] == v[k]);
        }
        lemma_no_alias(v.drop_last(), id);
    }
}

impl AppPrefs {
    /// Nothing remembered.
    pub fn new() -> (r: AppPrefs)
        ensures
            r@ == (AppPrefsView { aliases: Map::empty(), favorites: Seq::empty() }),
    {
        let r = AppPrefs { aliases: Vec::new(), favorites: Vec::new() };
        assert(r@.favorites =~= Seq::empty());
        r
    }

    /// Where the alias of a peer is.
    fn position(&self, id: &str) -> (r: Option<usize>)
        ensures
            r is Some <==> self@.aliases.dom().contains(id@),
            r matches Some(i) ==> i < self.aliases.len() && self.aliases@[i as int].id@ == id@
                && (forall|k: int|
                i < k < self.aliases.len() ==> (#[trigger] self.aliases@[k]).id@ != id@),
    {
        let mut i: usize = self.aliases.len();
        while i > 0
            invariant
                i <= self.aliases.len(),
                forall|k: int|
                    i <= k < self.aliases.len() ==> (#[trigger] self.aliases@[k]).id@ != id@,
            decreases i,
        {
            i -= 1;
            if same(self.aliases[i].id.as_str(), id) {
                proof {
                    lemma_alias_counts(self.aliases@, i as int, self.aliases@[i as int]);
                }
                return Some(i);
            }
        }
        proof {
            lemma_no_alias(self.aliases@, id@);
        }
        None
    }

    /// The name under which a peer is shown.
    pub fn shown_name(&self, id: &str, own: &str) -> (r: String)
        ensures
            r@ == self@.shown_name(id@, own@),
    {
        match self.position(id) {
            Some(i) => {
                proof {
                    lemma_alias_counts(self.aliases@, i as int, self.aliases@[i as int]);
                }
                self.aliases[i].name.clone()
            },
            None => own.to_owned(),
        }
    }

    /// Remembers the name that the user gives to a peer.
    pub fn rename(&mut self, id: &str, name: String)
        ensures
            final(self)@ == old(self)@.renamed(id@, name@),
    {
        let ghost before = self.aliases@;
        match self.position(id) {
            Some(i) => {
                let alias = Alias { id: id.to_owned(), name };
                proof {
                    lemma_alias_counts(before, i as int, alias);
                }
                self.aliases.set(i, alias);
            },
            None => {
                self.aliases.push(Alias { id: id.to_owned(), name });
                assert(self.aliases@.drop_last() =~= before);
            },
        }
    }

    /// Whether a peer is a favorite.
    pub fn is_favorite(&self, id: &str) -> (r: bool)
        ensures
            r == self@.favorites.contains(id@),
    {
        let mut i: usize = 0;
        while i < self.favorites.len()
            invariant
                i <= self.favorites.len(),
                forall|k: int| 0 <= k < i ==> self@.favorites[k] != id@,
            decreases self.favorites.len() - i,
        {
            if same(self.favorites[i].as_str(), id) {
                assert(self@.favorites[i as int] == id@);
                return true;
            }
            i += 1;
        }
        false
    }

    /// Makes a peer a favorite, or no favorite any more.
    pub fn toggle_favorite(&mut self, id: &str)
        ensures
            final(self)@ == old(self)@.toggled(id@),
    {
        let ghost before = self.favorites.deep_view();
        if !self.is_favorite(id) {
            self.favorites.push(id.to_owned());
            assert(self.favorites.deep_view() =~= before.push(id@));
            return;
        }
        let mut kept: Vec<String> = Vec::new();
        let mut i: usize = 0;
        proof {
            reveal(Seq::filter);
            assert(kept.deep_view() =~= without(before.take(0), id@));
        }
        while i < self.favorites.len()
            invariant
                i <= self.favorites.len(),
                before == self.favorites.deep_view(),
                kept.deep_view() == without(before.take(i as int), id@),
            decreases self.favorites.len() - i,
        {
            let ghost so_far = kept.deep_view();
            proof {
                reveal(Seq::filter);
                assert(before.take(i + 1).drop_last() =~= before.take(i as int));
                assert(before.take(i + 1).last() == self.favorites@[i as int]@);
            }
            if !same(self.favorites[i].as_str(), id) {
                kept.push(self.favorites[i].clone());
                assert(kept.deep_view() =~= so_far.push(before[i as int]));
            }
            i += 1;
        }
        assert(before.take(before.len() as int) =~= before);
        self.favorites = kept;
    }
}

proof fn lemma_filter_without(s: Seq<Seq<char>>, id: Seq<char>)
    ensures
        !without(s, id).contains(id),
        !s.contains(id) ==> without(s, id) == s,
    decreases s.len(),
{
    reveal(Seq::filter);
    let f = without(s, id);
    if s.len() > 0 {
        let t = s.drop_last();
        let g = without(t, id);
        lemma_filter_without(t, id);
        if f.contains(id) {
            let i = choose|i: int| 0 <= i < f.len() && f[i] == id;
            if i < g.len() {
                assert(g[i] == id);
            }
        }
        if !s.contains(id) {
            assert(s[s.len() - 1] != id);
            if t.contains(id) {
                let i = choose|i: int| 0 <= i < t.len() && t[i] == id;
                assert(s[i] == id);
            }
            assert(t.push(s.last()) =~= s);
        }
    }
}

proof fn lemma_without_keeps(s: Seq<Seq<char>>, id: Seq<char>, other: Seq<char>)
    requires
        other != id,
    ensures
        without(s, id).contains(other) <==> s.contains(other),
    decreases s.len(),
{
    reveal(Seq::filter);
    if s.len() > 0 {
        let t = s.drop_last();
        let g = without(t, id);
        lemma_without_keeps(t, id, other);
        if s.contains(other) {
            let i = choose|i: int| 0 <= i < s.len() && s[i] == other;
            if i < t.len() {
                assert(t[i] == other);
                let k = choose|k: int| 0 <= k < g.len() && g[k] == other;
                assert(without(s, id)[k] == other);
            } else {
                assert(without(s, id)[g.len() as int] == other);
            }
        }
        if without(s, id).contains(other) {
            let k = choose|k: int| 0 <= k < without(s, id).len() && without(s, id)[k] == other;
            if k < g.len() {
                assert(g[k] == other);
                let i = choose|i: int| 0 <= i < t.len() && t[i] == other;
                assert(s[i] == other);
            } else {
                assert(s[s.len() - 1] == other);
            }
        }
    }
}

/// Toggling turns a favorite into none and any other peer into one; toggling a peer that was
/// none twice leaves the favorites as they were.
pub proof fn law_toggling_a_favorite(p: AppPrefsView, id: Seq<char>)
    ensures
        p.toggled(id).favorites.contains(id) <==> !p.favorites.contains(id),
        !p.favorites.contains(id) ==> p.toggled(id).toggled(id) == p,
        p.toggled(id).aliases == p.aliases,
{
    lemma_filter_without(p.favorites, id);
    if !p.favorites.contains(id) {
        let q = p.favorites.push(id);
        assert(q[q.len() - 1] == id);
        reveal(Seq::filter);
        assert(q.drop_last() =~= p.favorites);
        assert(p.toggled(id).toggled(id).favorites =~= p.favorites);
    }
}

/// Toggling a favorite changes nothing for any other peer.
pub proof fn law_toggling_leaves_the_others(p: AppPrefsView, id: Seq<char>, other: Seq<char>)
    requires
        other != id,
    ensures
        p.toggled(id).favorites.contains(other) <==> p.favorites.contains(other),
{
    lemma_without_keeps(p.favorites, id, other);
    if p.favorites.contains(other) {
        let i = choose|i: int| 0 <= i < p.favorites.len() && p.favorites[i] == other;
        assert(p.favorites.push(id)[i] == other);
    }
}

/// A name that the user has given is the one that is shown, and changes no other peer's.
pub proof fn law_given_name_is_shown(
    p: AppPrefsView,
    id: Seq<char>,
    name: Seq<char>,
    other: Seq<char>,
    own: Seq<char>,
)
    ensures
        p.renamed(id, name).shown_name(id, own) == name,
        other != id ==> p.renamed(id, name).shown_name(other, own) == p.shown_name(other, own),
{
}

/// A peer is shown under the name that the user has given to its identifier, and else under its
/// own.
pub proof fn law_shown_name(p: AppPrefsView, id: Seq<char>, own: Seq<char>)
    ensures
        p.aliases.dom().contains(id) ==> p.shown_name(id, own) == p.aliases[id],
        !p.aliases.dom().contains(id) ==> p.shown_name(id, own) == own,
{
}

/// Giving a peer a name changes its alias and nothing else.
pub proof fn law_renaming(p: AppPrefsView, id: Seq<char>, name: Seq<char>)
    ensures
        p.renamed(id, name).aliases == p.aliases.insert(id, name),
        p.renamed(id, name).favorites == p.favorites,
{
}

/// A peer that becomes a favorite comes last among them, and one that is none any more leaves
/// the others as they were, in their order.
pub proof fn law_order_of_favorites(p: AppPrefsView, id: Seq<char>, last: Seq<char>)
    ensures
        !p.favorites.contains(id) ==> p.toggled(id).favorites == p.favorites.push(id),
        p.favorites.contains(id) ==> p.toggled(id).favorites == without(p.favorites, id),
        without(p.favorites.push(id), id) == without(p.favorites, id),
        last != id ==> without(p.favorites.push(last), id) == without(p.favorites, id).push(last),
        without(Seq::empty(), id) == Seq::<Seq<char>>::empty(),
{
    reveal(Seq::filter);
    assert(p.favorites.push(id).drop_last() =~= p.favorites);
    assert(p.favorites.push(last).drop_last() =~= p.favorites);
}

/// The alias that was written down last for a peer is the one that counts.
pub proof fn law_last_alias_counts(v: Seq<Alias>, a: Alias, id: Seq<char>)
    ensures
        aliases_view(v.push(a)) == aliases_view(v).insert(a.id@, a.name@),
        !aliases_view(Seq::empty()).dom().contains(id),
{
    assert(v.push(a).drop_last() =~= v);
}

} // verus!
