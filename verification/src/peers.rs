//! Who is on the local network, and with whom a connection stands.

use vstd::prelude::*;
use crate::text::same;

verus! {

/// A peer on the local network: the name that it goes by, its identifier at the signaling
/// server, and its address.
#[derive(Debug)]
pub struct PeerInfo {
    pub hostname: String,
    pub id: String,
    pub ip: String,
}

/// What a peer's record says.
pub struct PeerView {
    pub hostname: Seq<char>,
    pub id: Seq<char>,
    pub ip: Seq<char>,
}

impl View for PeerInfo {
    type V = PeerView;

    open spec fn view(&self) -> PeerView {
        PeerView { hostname: self.hostname@, id: self.id@, ip: self.ip@ }
    }
}

impl DeepView for PeerInfo {
    type V = PeerView;

    open spec fn deep_view(&self) -> PeerView {
        self@
    }
}

/// Whether a hostname is among the records.
pub open spec fn known(s: Seq<PeerView>, hostname: Seq<char>) -> bool {
    exists|i: int| 0 <= i < s.len() && (#[trigger] s[i]).hostname == hostname
}

/// Whether no two records share a hostname.
pub open spec fn distinct(s: Seq<PeerView>) -> bool {
    forall|i: int, j: int|
        0 <= i < j < s.len() ==> (#[trigger] s[i]).hostname != (#[trigger] s[j]).hostname
}

/// The record of a known hostname.
pub open spec fn record_of(s: Seq<PeerView>, hostname: Seq<char>) -> PeerView {
    s[choose|i: int| 0 <= i < s.len() && (#[trigger] s[i]).hostname == hostname]
}

/// The records as a map by hostname.
pub open spec fn by_hostname(s: Seq<PeerView>) -> Map<Seq<char>, PeerView> {
    Map::new(|h: Seq<char>| known(s, h), |h: Seq<char>| record_of(s, h))
}

/// The records after one more has come in: it takes the place of the record with its
/// hostname, or goes to the end.
pub open spec fn recorded(s: Seq<PeerView>, p: PeerView) -> Seq<PeerView> {
    if known(s, p.hostname) {
        s.map_values(
            |q: PeerView|
                if q.hostname == p.hostname {
                    p
                } else {
                    q
                },
        )
    } else {
        s.push(p)
    }
}

/// The identifier that a target stands for: that of the peer with this hostname, or the
/// target itself.
pub open spec fn resolved(s: Seq<PeerView>, target: Seq<char>) -> Seq<char> {
    if known(s, target) {
        record_of(s, target).id
    } else {
        target
    }
}

/// The peers that were heard of on the local network, in the order in which they were first
/// heard of. No hostname occurs twice.
#[derive(Debug)]
pub struct PeerDirectory {
    entries: Vec<PeerInfo>,
}

impl View for PeerDirectory {
    type V = Seq<PeerView>;

    closed spec fn view(&self) -> Seq<PeerView> {
        self.entries.deep_view()
    }
}

impl PeerDirectory {
    /// Whether the directory is as its operations leave it: no hostname occurs twice.
    pub open spec fn wf(self) -> bool {
        distinct(self@)
    }

    /// The directory without peers.
    pub fn new() -> (r: PeerDirectory)
        ensures
            r.wf(),
            r@ == Seq::<PeerView>::empty(),
    {
        let r = PeerDirectory { entries: Vec::new() };
        assert(r@ =~= Seq::<PeerView>::empty());
        r
    }

    /// The number of peers.
    pub fn len(&self) -> (r: usize)
        ensures
            r == self@.len(),
    {
        self.entries.len()
    }

    /// The record at a position.
    pub fn at(&self, i: usize) -> (r: &PeerInfo)
        requires
            i < self@.len(),
        ensures
            r@ == self@[i as int],
    {
        &self.entries[i]
    }

    /// Where the record of a hostname is.
    fn position(&self, hostname: &str) -> (r: Option<usize>)
        ensures
            r is Some <==> known(self@, hostname@),
            r matches Some(i) ==> i < self@.len() && self@[i as int].hostname == hostname@,
    {
        let mut i: usize = 0;
        while i < self.entries.len()
            invariant
                i <= self.entries.len(),
                forall|k: int| 0 <= k < i ==> (#[trigger] self@[k]).hostname != hostname@,
            decreases self.entries.len() - i,
        {
            assert(self@[i as int] == self.entries@[i as int]@);
            if same(self.entries[i].hostname.as_str(), hostname) {
                return Some(i);
            }
            i += 1;
        }
        None
    }

    /// Whether a hostname is known.
    pub fn contains(&self, hostname: &str) -> (r: bool)
        ensures
            r == known(self@, hostname@),
    {
        self.position(hostname).is_some()
    }

    /// The record of a hostname.
    pub fn get(&self, hostname: &str) -> (r: Option<&PeerInfo>)
        requires
            self.wf(),
        ensures
            r is Some <==> known(self@, hostname@),
            r matches Some(p) ==> p@ == record_of(self@, hostname@),
    {
        match self.position(hostname) {
            Some(i) => {
                assert(self@[i as int] == record_of(self@, hostname@));
                Some(&self.entries[i])
            },
            None => None,
        }
    }

    /// Records a peer under its hostname, in place of what was recorded there.
    pub fn insert(&mut self, p: PeerInfo)
        requires
            old(self).wf(),
        ensures
            final(self).wf(),
            final(self)@ == recorded(old(self)@, p@),
    {
        let ghost before = self@;
        match self.position(p.hostname.as_str()) {
            Some(i) => {
                let ghost new = p@;
                self.entries.set(i, p);
                proof {
                    let want = recorded(before, new);
                    assert forall|k: int| 0 <= k < self@.len() implies self@[k] == want[k] by {
                        assert(self@[k] == self.entries@[k]@);
                        assert(before[k].hostname == new.hostname ==> k == i);
                    }
                    assert(self@ =~= want);
                }
            },
            None => {
                self.entries.push(p);
                assert(self@ =~= before.push(p@));
            },
        }
    }

    /// The identifier that a target stands for.
    pub fn resolve(&self, target: &str) -> (r: String)
        requires
            self.wf(),
        ensures
            r@ == resolved(self@, target@),
    {
        match self.get(target) {
            Some(p) => p.id.clone(),
            None => target.to_owned(),
        }
    }
}

/// A directory is a map by hostname: a record that comes in is what its hostname then
/// leads to, and no other hostname leads elsewhere than before.
pub proof fn law_directory_is_a_map(s: Seq<PeerView>, p: PeerView)
    requires
        distinct(s),
    ensures
        by_hostname(recorded(s, p)) == by_hostname(s).insert(p.hostname, p),
{
    let t = recorded(s, p);
    assert forall|h: Seq<char>|
        #![auto]
        by_hostname(t).dom().contains(h) == by_hostname(s).insert(p.hostname, p).dom().contains(
            h,
        ) by {
        if known(t, h) {
            let i = choose|i: int| 0 <= i < t.len() && (#[trigger] t[i]).hostname == h;
            if i < s.len() {
                assert(s[i].hostname == h);
            }
        }
        if known(s, h) {
            let i = choose|i: int| 0 <= i < s.len() && (#[trigger] s[i]).hostname == h;
            assert(t[i].hostname == h);
        }
        if h == p.hostname {
            if known(s, h) {
                let i = choose|i: int| 0 <= i < s.len() && (#[trigger] s[i]).hostname == h;
                assert(t[i].hostname == h);
            } else {
                assert(t[t.len() - 1].hostname == h);
            }
        }
    }
    assert forall|h: Seq<char>| #![auto] by_hostname(t).dom().contains(h) implies by_hostname(t)[h]
        == by_hostname(s).insert(p.hostname, p)[h] by {
        let i = choose|i: int| 0 <= i < t.len() && (#[trigger] t[i]).hostname == h;
        if h != p.hostname {
            assert(s[i].hostname == h);
            assert(known(s, h));
            let k = choose|k: int| 0 <= k < s.len() && (#[trigger] s[k]).hostname == h;
            assert(k == i);
        }
    }
    assert(by_hostname(t) =~= by_hostname(s).insert(p.hostname, p));
}

/// A known hostname resolves to the identifier that was recorded last under it.
pub proof fn law_recorded_peer_resolves(s: Seq<PeerView>, p: PeerView)
    requires
        distinct(s),
    ensures
        resolved(recorded(s, p), p.hostname) == p.id,
{
    law_directory_is_a_map(s, p);
    let t = recorded(s, p);
    assert(by_hostname(t).dom().contains(p.hostname));
    assert(by_hostname(t)[p.hostname] == p);
}

/// A set of names.
#[derive(Debug)]
pub struct NameSet {
    names: Vec<String>,
}

impl View for NameSet {
    type V = Set<Seq<char>>;

    closed spec fn view(&self) -> Set<Seq<char>> {
        self.names.deep_view().to_set()
    }
}

impl NameSet {
    /// The set without names.
    pub fn new() -> (r: NameSet)
        ensures
            r@ == Set::<Seq<char>>::empty(),
    {
        let r = NameSet { names: Vec::new() };
        assert(r@ =~= Set::<Seq<char>>::empty());
        r
    }

    /// Whether a name is in the set.
    pub fn contains(&self, name: &str) -> (r: bool)
        ensures
            r == self@.contains(name@),
    {
        let mut i: usize = 0;
        while i < self.names.len()
            invariant
                i <= self.names.len(),
                forall|k: int| 0 <= k < i ==> self.names.deep_view()[k] != name@,
            decreases self.names.len() - i,
        {
            if same(self.names[i].as_str(), name) {
                assert(self.names.deep_view()[i as int] == name@);
                return true;
            }
            i += 1;
        }
        false
    }

    /// Puts a name into the set.
    pub fn insert(&mut self, name: &str)
        ensures
            final(self)@ == old(self)@.insert(name@),
    {
        let ghost before = self.names.deep_view();
        if !self.contains(name) {
            self.names.push(name.to_owned());
            let ghost after = self.names.deep_view();
            proof {
                assert(after =~= before.push(name@));
                assert forall|x: Seq<char>| after.contains(x) <==> before.contains(x) || x
                    == name@ by {
                    if before.contains(x) {
                        let i = choose|i: int| 0 <= i < before.len() && before[i] == x;
                        assert(after[i] == x);
                    }
                    assert(after[before.len() as int] == name@);
                }
            }
        }
        assert(self@ =~= old(self)@.insert(name@));
    }
}

/// Recording a peer keeps every record of another hostname, adds the peer's, and nothing else.
pub proof fn law_records_are_kept(s: Seq<PeerView>, p: PeerView, q: PeerView)
    requires
        distinct(s),
    ensures
        recorded(s, p).contains(p),
        q.hostname != p.hostname ==> (recorded(s, p).contains(q) <==> s.contains(q)),
        recorded(s, p).contains(q) && q.hostname == p.hostname ==> q == p,
        distinct(recorded(s, p)),
        s.len() <= recorded(s, p).len() <= s.len() + 1,
{
    let t = recorded(s, p);
    if known(s, p.hostname) {
        let i = choose|i: int| 0 <= i < s.len() && (#[trigger] s[i]).hostname == p.hostname;
        assert(t[i] == p);
    } else {
        assert(t[s.len() as int] == p);
    }
    if q.hostname != p.hostname {
        if s.contains(q) {
            let i = choose|i: int| 0 <= i < s.len() && s[i] == q;
            assert(t[i] == q);
        }
        if t.contains(q) {
            let i = choose|i: int| 0 <= i < t.len() && t[i] == q;
            assert(i < s.len());
            assert(s[i] == q);
        }
    } else if t.contains(q) {
        let i = choose|i: int| 0 <= i < t.len() && t[i] == q;
        if i < s.len() && !known(s, p.hostname) {
            assert(s[i].hostname == p.hostname);
        }
    }
}

/// A hostname among the records stands for the identifier beside it, and any other target for
/// itself.
pub proof fn law_targets(s: Seq<PeerView>, i: int, target: Seq<char>)
    requires
        distinct(s),
    ensures
        0 <= i < s.len() ==> resolved(s, s[i].hostname) == s[i].id,
        (forall|k: int| 0 <= k < s.len() ==> (#[trigger] s[k]).hostname != target) ==> resolved(
            s,
            target,
        ) == target,
{
    if 0 <= i < s.len() {
        let h = s[i].hostname;
        assert(known(s, h));
        let k = choose|k: int| 0 <= k < s.len() && (#[trigger] s[k]).hostname == h;
        assert(k == i);
    }
}

} // verus!
