//! Groups of clients whose playback state, volume and mute move together,
//! and the registry that keeps each client in at most one group.
use vstd::prelude::*;
use crate::text::str_eq;

verus! {

/// Playback state of a group.
#[derive(Debug, Clone, Copy, PartialEq, Eq, Structural)]
pub enum PlaybackState {
    /// Not playing anything.
    Stopped,
    /// Currently playing.
    Playing,
    /// Paused.
    Paused,
}

/// The protocol name of a playback state.
pub open spec fn playback_state_name(s: PlaybackState) -> Seq<char> {
    match s {
        PlaybackState::Stopped => "stopped"@,
        PlaybackState::Playing => "playing"@,
        PlaybackState::Paused => "paused"@,
    }
}

impl PlaybackState {
    /// The protocol name of this state.
    pub fn as_str(&self) -> (r: &'static str)
        ensures
            r@ == playback_state_name(*self),
    {
        match self {
            PlaybackState::Stopped => "stopped",
            PlaybackState::Playing => "playing",
            PlaybackState::Paused => "paused",
        }
    }
}

/// No client id occurs twice in `m`.
pub open spec fn distinct_ids(m: Seq<String>) -> bool {
    forall|i: int, j: int| 0 <= i < j < m.len() ==> (#[trigger] m[i])@ != (#[trigger] m[j])@
}

/// A group of synchronized clients.
#[derive(Debug)]
pub struct Group {
    /// Unique group identifier.
    pub id: String,
    /// Human-readable group name.
    pub name: String,
    /// Client ids in this group, each once.
    pub members: Vec<String>,
    /// Current playback state.
    pub playback_state: PlaybackState,
    /// Group volume (0-100).
    pub volume: u8,
    /// Group mute state.
    pub muted: bool,
}

impl Group {
    /// The member list holds each client id once.
    pub open spec fn wf(&self) -> bool {
        distinct_ids(self.members@)
    }

    /// Client `c` is a member.
    pub open spec fn has(&self, c: Seq<char>) -> bool {
        exists|i: int| 0 <= i < self.members@.len() && (#[trigger] self.members@[i])@ == c
    }

    /// The set of member ids.
    pub open spec fn member_set(&self) -> Set<Seq<char>> {
        Set::new(|c: Seq<char>| self.has(c))
    }

    /// Everything but the members is the same in `self` and `o`.
    pub open spec fn same_settings(&self, o: &Group) -> bool {
        &&& self.id@ == o.id@
        &&& self.name@ == o.name@
        &&& self.playback_state == o.playback_state
        &&& self.volume == o.volume
        &&& self.muted == o.muted
    }

    /// Create a new, empty, stopped group at full volume.
    pub fn new(id: &str, name: &str) -> (r: Self)
        ensures
            r.wf(),
            r.id@ == id@,
            r.name@ == name@,
            r.members@.len() == 0,
            r.playback_state == PlaybackState::Stopped,
            r.volume == 100,
            !r.muted,
    {
        Group {
            id: id.to_string(),
            name: name.to_string(),
            members: Vec::new(),
            playback_state: PlaybackState::Stopped,
            volume: 100,
            muted: false,
        }
    }

    /// Add a client to the group; adding a member again changes nothing.
    pub fn add_member(&mut self, client_id: String)
        requires
            old(self).wf(),
        ensures
            final(self).wf(),
            final(self).same_settings(old(self)),
            final(self).member_set() == old(self).member_set().insert(client_id@),
            forall|c: Seq<char>| #[trigger] final(self).has(c) == (old(self).has(c) || c == client_id@),
            final(self).members@.len() == old(self).members@.len() + if old(self).has(client_id@) {
                0int
            } else {
                1int
            },
    {
        if self.has_member(client_id.as_str()) {
            assert(self.member_set() =~= old(self).member_set().insert(client_id@));
            return;
        }
        let ghost c = client_id@;
        self.members.push(client_id);
        assert(self.members@.last()@ == c);
        assert forall|x: Seq<char>| #[trigger] self.has(x) == (old(self).has(x) || x == c) by {
            if old(self).has(x) {
                let i = choose|i: int| 0 <= i < old(self).members@.len() && (#[trigger] old(self).members@[i])@ == x;
                assert(self.members@[i] == old(self).members@[i]);
            }
            if self.has(x) && x != c {
                let i = choose|i: int| 0 <= i < self.members@.len() && (#[trigger] self.members@[i])@ == x;
                assert(old(self).members@[i] == self.members@[i]);
            }
            if x == c {
                assert(self.members@[self.members@.len() - 1]@ == x);
            }
        }
        assert forall|i: int, j: int| 0 <= i < j < self.members@.len() implies (#[trigger] self.members@[i])@ != (#[trigger] self.members@[j])@ by {
            if j == self.members@.len() - 1 {
                assert(old(self).members@[i] == self.members@[i]);
            } else {
                assert(old(self).members@[i] == self.members@[i]);
                assert(old(self).members@[j] == self.members@[j]);
            }
        }
        assert(self.member_set() =~= old(self).member_set().insert(c));
    }

    /// Remove a client from the group; the result tells whether it was a member.
    pub fn remove_member(&mut self, client_id: &str) -> (r: bool)
        requires
            old(self).wf(),
        ensures
            r == old(self).has(client_id@),
            final(self).wf(),
            final(self).same_settings(old(self)),
            final(self).member_set() == old(self).member_set().remove(client_id@),
            forall|c: Seq<char>| #[trigger] final(self).has(c) == (old(self).has(c) && c != client_id@),
            final(self).members@.len() == old(self).members@.len() - if r {
                1int
            } else {
                0int
            },
    {
        let n = self.members.len();
        let mut i: usize = 0;
        while i < n
            invariant
                n == self.members@.len(),
                i <= n,
                self == old(self),
                old(self).wf(),
                forall|k: int| 0 <= k < i ==> (#[trigger] self.members@[k])@ != client_id@,
            decreases n - i,
        {
            if str_eq(self.members[i].as_str(), client_id) {
                let ghost before = self.members@;
                assert(before == old(self).members@);
                let _removed = self.members.remove(i);
                assert forall|x: Seq<char>| #[trigger] self.has(x) == (old(self).has(x) && x != client_id@) by {
                    if old(self).has(x) && x != client_id@ {
                        let k = choose|k: int| 0 <= k < before.len() && (#[trigger] before[k])@ == x;
                        if k < i {
                            assert(self.members@[k] == before[k]);
                        } else {
                            assert(k != i);
                            assert(self.members@[k - 1] == before[k]);
                        }
                    }
                    if self.has(x) {
                        let k = choose|k: int| 0 <= k < self.members@.len() && (#[trigger] self.members@[k])@ == x;
                        if k < i {
                            assert(self.members@[k] == before[k]);
                            assert(before[k]@ != client_id@);
                        } else {
                            assert(self.members@[k] == before[k + 1]);
                            assert(before[i as int]@ == client_id@);
                            assert(before[i as int]@ != before[k + 1]@);
                        }
                        assert(old(self).has(x));
                    }
                }
                assert forall|a: int, b: int| 0 <= a < b < self.members@.len() implies (#[trigger] self.members@[a])@ != (#[trigger] self.members@[b])@ by {
                    let a2 = if a < i { a } else { a + 1 };
                    let b2 = if b < i { b } else { b + 1 };
                    assert(self.members@[a] == before[a2]);
                    assert(self.members@[b] == before[b2]);
                    assert(before[a2]@ != before[b2]@);
                }
                assert(old(self).has(client_id@)) by {
                    assert(before[i as int]@ == client_id@);
                }
                assert(self.member_set() =~= old(self).member_set().remove(client_id@));
                return true;
            }
            i = i + 1;
        }
        assert(self.member_set() =~= old(self).member_set().remove(client_id@));
        false
    }

    /// Whether a client is in this group.
    pub fn has_member(&self, client_id: &str) -> (r: bool)
        ensures
            r == self.has(client_id@),
    {
        let n = self.members.len();
        let mut i: usize = 0;
        while i < n
            invariant
                n == self.members@.len(),
                i <= n,
                forall|k: int| 0 <= k < i ==> (#[trigger] self.members@[k])@ != client_id@,
            decreases n - i,
        {
            if str_eq(self.members[i].as_str(), client_id) {
                return true;
            }
            i = i + 1;
        }
        false
    }

    /// The number of members.
    pub fn member_count(&self) -> (r: usize)
        ensures
            r == self.members@.len(),
    {
        self.members.len()
    }

    /// Whether the group has no members.
    pub fn is_empty(&self) -> (r: bool)
        ensures
            r == (self.members@.len() == 0),
    {
        self.members.len() == 0
    }
}

/// Every group's member list holds each id once.
pub open spec fn all_groups_wf(gs: Seq<Group>) -> bool {
    forall|i: int| 0 <= i < gs.len() ==> (#[trigger] gs[i]).wf()
}

/// No two groups share an id.
pub open spec fn distinct_groups(gs: Seq<Group>) -> bool {
    forall|i: int, j: int| 0 <= i < j < gs.len() ==> (#[trigger] gs[i]).id@ != (#[trigger] gs[j]).id@
}

/// No client is a member of two groups.
pub open spec fn exclusive_membership(gs: Seq<Group>) -> bool {
    forall|i: int, j: int, c: Seq<char>|
        #![trigger gs[i].has(c), gs[j].has(c)]
        0 <= i < gs.len() && 0 <= j < gs.len() && i != j && gs[i].has(c) ==> !gs[j].has(c)
}

/// Group `i` of `gs` has id `id`.
pub open spec fn group_at(gs: Seq<Group>, id: Seq<char>, i: int) -> bool {
    0 <= i < gs.len() && gs[i].id@ == id
}

/// Some group of `gs` has id `id`.
pub open spec fn has_group(gs: Seq<Group>, id: Seq<char>) -> bool {
    exists|i: int| #[trigger] group_at(gs, id, i)
}

/// The group of `gs` with id `id` holds client `c`.
pub open spec fn group_holds(gs: Seq<Group>, id: Seq<char>, c: Seq<char>) -> bool {
    exists|i: int| #[trigger] group_at(gs, id, i) && gs[i].has(c)
}

/// Some group of `gs` holds client `c`.
pub open spec fn in_some_group(gs: Seq<Group>, c: Seq<char>) -> bool {
    exists|i: int| 0 <= i < gs.len() && (#[trigger] gs[i]).has(c)
}

/// The number of memberships over all groups.
pub open spec fn total_members(gs: Seq<Group>) -> int
    decreases gs.len(),
{
    if gs.len() == 0 {
        0
    } else {
        total_members(gs.drop_last()) + gs.last().members@.len()
    }
}

/// A freshly created group with this id and name.
pub open spec fn fresh_group(g: Group, id: Seq<char>, name: Seq<char>) -> bool {
    &&& g.wf()
    &&& g.id@ == id
    &&& g.name@ == name
    &&& g.members@.len() == 0
    &&& g.playback_state == PlaybackState::Stopped
    &&& g.volume == 100
    &&& !g.muted
}

proof fn lemma_total_remove(gs: Seq<Group>, k: int)
    requires
        0 <= k < gs.len(),
    ensures
        total_members(gs.remove(k)) == total_members(gs) - gs[k].members@.len(),
    decreases gs.len(),
{
    if k == gs.len() - 1 {
        assert(gs.remove(k) =~= gs.drop_last());
    } else {
        lemma_total_remove(gs.drop_last(), k);
        assert(gs.remove(k).drop_last() =~= gs.drop_last().remove(k));
        assert(gs.remove(k).last() == gs.last());
    }
}

proof fn lemma_total_update(gs: Seq<Group>, k: int, g: Group)
    requires
        0 <= k < gs.len(),
    ensures
        total_members(gs.update(k, g)) == total_members(gs) - gs[k].members@.len() + g.members@.len(),
    decreases gs.len(),
{
    if k == gs.len() - 1 {
        assert(gs.update(k, g).drop_last() =~= gs.drop_last());
    } else {
        lemma_total_update(gs.drop_last(), k, g);
        assert(gs.update(k, g).drop_last() =~= gs.drop_last().update(k, g));
    }
}

/// Manages all groups; one default group always exists.
#[derive(Debug)]
pub struct GroupManager {
    groups: Vec<Group>,
    default_group_id: String,
}

impl GroupManager {
    /// The groups, in registry order.
    pub closed spec fn spec_groups(&self) -> Seq<Group> {
        self.groups@
    }

    /// The id of the default group.
    pub closed spec fn spec_default_id(&self) -> Seq<char> {
        self.default_group_id@
    }

    /// The registry invariant: distinct ids, the default group present, and
    /// each client in at most one group.
    pub open spec fn wf(&self) -> bool {
        &&& all_groups_wf(self.spec_groups())
        &&& distinct_groups(self.spec_groups())
        &&& has_group(self.spec_groups(), self.spec_default_id())
        &&& exclusive_membership(self.spec_groups())
    }

    /// Create a registry holding only the default group.
    pub fn new() -> (r: Self)
        ensures
            r.wf(),
            r.spec_default_id() == "default"@,
            r.spec_groups().len() == 1,
            fresh_group(r.spec_groups()[0], "default"@, "Default Group"@),
    {
        let default_id = "default".to_string();
        let default_group = Group::new("default", "Default Group");
        let mut groups: Vec<Group> = Vec::new();
        groups.push(default_group);
        let r = GroupManager { groups, default_group_id: default_id };
        assert(group_at(r.spec_groups(), r.spec_default_id(), 0));
        r
    }

    /// The default group's id.
    pub fn default_group_id(&self) -> (r: &str)
        ensures
            r@ == self.spec_default_id(),
    {
        self.default_group_id.as_str()
    }

    fn find_group(&self, group_id: &str) -> (r: Option<usize>)
        ensures
            r matches Some(k) ==> group_at(self.spec_groups(), group_id@, k as int),
            r is None ==> !has_group(self.spec_groups(), group_id@),
    {
        let n = self.groups.len();
        let mut i: usize = 0;
        while i < n
            invariant
                n == self.groups@.len(),
                i <= n,
                forall|k: int| 0 <= k < i ==> !#[trigger] group_at(self.groups@, group_id@, k),
            decreases n - i,
        {
            if str_eq(self.groups[i].id.as_str(), group_id) {
                return Some(i);
            }
            i = i + 1;
        }
        None
    }

    proof fn lemma_default_index(&self) -> (d: int)
        requires
            self.wf(),
        ensures
            group_at(self.spec_groups(), self.spec_default_id(), d),
    {
        choose|d: int| group_at(self.spec_groups(), self.spec_default_id(), d)
    }

    fn find_default(&self) -> (r: usize)
        requires
            self.wf(),
        ensures
            group_at(self.spec_groups(), self.spec_default_id(), r as int),
    {
        match self.find_group(self.default_group_id.as_str()) {
            Some(k) => k,
            None => {
                proof {
                    let d = self.lemma_default_index();
                }
                0
            },
        }
    }

    /// Remove a client from every group.
    pub fn remove_client(&mut self, client_id: &str)
        requires
            old(self).wf(),
        ensures
            final(self).wf(),
            final(self).spec_default_id() == old(self).spec_default_id(),
            final(self).spec_groups().len() == old(self).spec_groups().len(),
            forall|i: int| 0 <= i < old(self).spec_groups().len() ==> (#[trigger] final(self).spec_groups()[i]).same_settings(&old(self).spec_groups()[i]),
            forall|i: int, c: Seq<char>| 0 <= i < old(self).spec_groups().len() ==> (#[trigger] final(self).spec_groups()[i].has(c) == (old(self).spec_groups()[i].has(c) && c != client_id@)),
            !in_some_group(final(self).spec_groups(), client_id@),
    {
        let n = self.groups.len();
        let mut i: usize = 0;
        while i < n
            invariant
                n == self.groups@.len(),
                n == old(self).groups@.len(),
                i <= n,
                self.default_group_id == old(self).default_group_id,
                old(self).wf(),
                all_groups_wf(self.groups@),
                forall|j: int| 0 <= j < n ==> (#[trigger] self.groups@[j]).same_settings(&old(self).groups@[j]),
                forall|j: int, c: Seq<char>| 0 <= j < i ==> (#[trigger] self.groups@[j].has(c) == (old(self).groups@[j].has(c) && c != client_id@)),
                forall|j: int| i <= j < n ==> #[trigger] self.groups@[j] == old(self).groups@[j],
            decreases n - i,
        {
            self.groups[i].remove_member(client_id);
            i = i + 1;
        }
        let ghost gs = self.groups@;
        let ghost os = old(self).groups@;
        assert forall|a: int, b: int| 0 <= a < b < gs.len() implies (#[trigger] gs[a]).id@ != (#[trigger] gs[b]).id@ by {
            assert(gs[a].same_settings(&os[a]));
            assert(gs[b].same_settings(&os[b]));
        }
        assert(has_group(gs, self.default_group_id@)) by {
            let d = old(self).lemma_default_index();
            assert(gs[d].same_settings(&os[d]));
            assert(group_at(gs, self.default_group_id@, d));
        }
        assert forall|a: int, b: int, c: Seq<char>|
            0 <= a < gs.len() && 0 <= b < gs.len() && a != b && #[trigger] gs[a].has(c) implies !#[trigger] gs[b].has(c) by {
            assert(os[a].has(c));
        }
        assert(!in_some_group(gs, client_id@));
    }

    /// Put a client into a group, taking it out of any other first; when the
    /// group does not exist the client goes to the default group and the
    /// result is false.
    pub fn add_to_group(&mut self, client_id: &str, group_id: &str) -> (r: bool)
        requires
            old(self).wf(),
        ensures
            final(self).wf(),
            r == has_group(old(self).spec_groups(), group_id@),
            final(self).spec_default_id() == old(self).spec_default_id(),
            final(self).spec_groups().len() == old(self).spec_groups().len(),
            forall|i: int| 0 <= i < old(self).spec_groups().len() ==> (#[trigger] final(self).spec_groups()[i]).same_settings(&old(self).spec_groups()[i]),
            forall|i: int, c: Seq<char>| 0 <= i < old(self).spec_groups().len() && c != client_id@ ==> (#[trigger] final(self).spec_groups()[i].has(c) == old(self).spec_groups()[i].has(c)),
            forall|i: int| 0 <= i < old(self).spec_groups().len() ==> (#[trigger] final(self).spec_groups()[i].has(client_id@) == (old(self).spec_groups()[i].id@ == if r {
                group_id@
            } else {
                old(self).spec_default_id()
            })),
    {
        self.remove_client(client_id);
        let (k, found) = match self.find_group(group_id) {
            Some(k) => (k, true),
            None => (self.find_default(), false),
        };
        let ghost mid = self.groups@;
        self.groups[k].add_member(client_id.to_string());
        let ghost gs = self.groups@;
        let ghost os = old(self).groups@;
        assert(gs == mid.update(k as int, gs[k as int]));
        assert forall|i: int| 0 <= i < gs.len() implies (#[trigger] gs[i]).same_settings(&os[i]) by {
            assert(mid[i].same_settings(&os[i]));
        }
        assert forall|a: int, b: int| 0 <= a < b < gs.len() implies (#[trigger] gs[a]).id@ != (#[trigger] gs[b]).id@ by {
            assert(gs[a].same_settings(&os[a]));
            assert(gs[b].same_settings(&os[b]));
        }
        assert(has_group(gs, self.default_group_id@)) by {
            let d = old(self).lemma_default_index();
            assert(gs[d].same_settings(&os[d]));
            assert(group_at(gs, self.default_group_id@, d));
        }
        assert forall|i: int| 0 <= i < gs.len() implies (#[trigger] gs[i]).wf() by {
            assert(mid[i].wf());
        }
        assert forall|a: int, b: int, c: Seq<char>|
            0 <= a < gs.len() && 0 <= b < gs.len() && a != b && #[trigger] gs[a].has(c) implies !#[trigger] gs[b].has(c) by {
            if c != client_id@ {
                assert(mid[a].has(c));
                assert(os[a].has(c));
            } else {
                assert(!mid[a].has(c));
                assert(!mid[b].has(c));
            }
        }
        assert(has_group(mid, group_id@) == has_group(os, group_id@)) by {
            if has_group(os, group_id@) {
                let i = choose|i: int| #[trigger] group_at(os, group_id@, i);
                assert(mid[i].same_settings(&os[i]));
                assert(group_at(mid, group_id@, i));
            }
            if has_group(mid, group_id@) {
                let i = choose|i: int| #[trigger] group_at(mid, group_id@, i);
                assert(mid[i].same_settings(&os[i]));
                assert(group_at(os, group_id@, i));
            }
        }
        assert(found == has_group(os, group_id@));
        assert forall|i: int| 0 <= i < os.len() implies (#[trigger] gs[i].has(client_id@) == (os[i].id@ == if found {
            group_id@
        } else {
            self.default_group_id@
        })) by {
            assert(!mid[i].has(client_id@));
            if i != k {
                assert(os[i].id@ != os[k as int].id@ || i == k);
            }
        }
        found
    }

    /// Delete a group, moving its members into the default group; the
    /// result lists the moved members. The default group cannot be deleted,
    /// and deleting an unknown group changes nothing.
    #[verifier::rlimit(60)]
    pub fn delete_group(&mut self, group_id: &str) -> (r: Vec<String>)
        requires
            old(self).wf(),
        ensures
            final(self).wf(),
            final(self).spec_default_id() == old(self).spec_default_id(),
            total_members(final(self).spec_groups()) == total_members(old(self).spec_groups()),
            group_id@ == old(self).spec_default_id() || !has_group(old(self).spec_groups(), group_id@)
                ==> final(self).spec_groups() == old(self).spec_groups() && r@.len() == 0,
            forall|k: int| #[trigger] group_at(old(self).spec_groups(), group_id@, k) && group_id@ != old(self).spec_default_id()
                ==> moved_to_default(old(self).spec_groups(), final(self).spec_groups(), k, old(self).spec_default_id())
                    && r@ == old(self).spec_groups()[k].members@,
    {
        if str_eq(group_id, self.default_group_id.as_str()) {
            return Vec::new();
        }
        let k = match self.find_group(group_id) {
            Some(k) => k,
            None => {
                return Vec::new();
            },
        };
        let ghost os = self.groups@;
        let g = self.groups.remove(k);
        let ghost removed = self.groups@;
        assert(removed == os.remove(k as int));
        let d = match self.find_group(self.default_group_id.as_str()) {
            Some(d) => d,
            None => {
                proof {
                    let d0 = old(self).lemma_default_index();
                    assert(d0 != k);
                    let d1 = if d0 < k { d0 } else { d0 - 1 };
                    assert(removed[d1] == os[d0]);
                    assert(group_at(removed, self.default_group_id@, d1));
                }
                return Vec::new();
            },
        };
        let ghost dk = if d < k { d as int } else { d + 1 };
        assert(removed[d as int] == os[dk]);
        assert(dk != k);
        let mut dg = self.groups.remove(d);
        let ghost dg0 = dg;
        assert(dg0.wf() && g.wf());
        assert forall|c: Seq<char>| g.has(c) implies !dg0.has(c) by {
            assert(os[k as int].has(c));
        }
        let n = g.members.len();
        let mut i: usize = 0;
        while i < n
            invariant
                n == g.members@.len(),
                i <= n,
                g.wf(),
                dg.wf(),
                dg.same_settings(&dg0),
                forall|c: Seq<char>| g.has(c) ==> !dg0.has(c),
                forall|c: Seq<char>| #[trigger] dg.has(c) == (dg0.has(c) || exists|j: int| 0 <= j < i && (#[trigger] g.members@[j])@ == c),
                dg.members@.len() == dg0.members@.len() + i,
            decreases n - i,
        {
            let ghost c = g.members@[i as int]@;
            assert(g.has(c));
            assert(!dg.has(c)) by {
                if dg.has(c) {
                    let j = choose|j: int| 0 <= j < i && (#[trigger] g.members@[j])@ == c;
                    assert(g.members@[j]@ != g.members@[i as int]@);
                }
            }
            dg.add_member(g.members[i].clone());
            assert forall|x: Seq<char>| #[trigger] dg.has(x) == (dg0.has(x) || exists|j: int| 0 <= j < i + 1 && (#[trigger] g.members@[j])@ == x) by {
                if x == c {
                    assert(g.members@[i as int]@ == x);
                }
                if exists|j: int| 0 <= j < i + 1 && (#[trigger] g.members@[j])@ == x {
                    let j = choose|j: int| 0 <= j < i + 1 && (#[trigger] g.members@[j])@ == x;
                    if j < i {
                        assert(exists|j2: int| 0 <= j2 < i && (#[trigger] g.members@[j2])@ == x);
                    }
                }
            }
            i = i + 1;
        }
        let ghost dgf = dg;
        self.groups.insert(d, dg);
        proof {
            let gs = self.groups@;
            assert(gs =~= removed.update(d as int, dgf));
            lemma_total_remove(os, k as int);
            lemma_total_update(removed, d as int, dgf);
            assert forall|c: Seq<char>| #[trigger] dgf.has(c) == (dg0.has(c) || g.has(c)) by {
                if g.has(c) {
                    let j = choose|j: int| 0 <= j < g.members@.len() && (#[trigger] g.members@[j])@ == c;
                    assert(exists|j2: int| 0 <= j2 < n && (#[trigger] g.members@[j2])@ == c);
                }
            }
            assert forall|j: int| 0 <= j < gs.len() implies (#[trigger] gs[j]).wf() by {
                if j != d {
                    assert(gs[j] == removed[j]);
                }
            }
            assert forall|a: int, b: int| 0 <= a < b < gs.len() implies (#[trigger] gs[a]).id@ != (#[trigger] gs[b]).id@ by {
                let a2 = if a < k { a } else { a + 1 };
                let b2 = if b < k { b } else { b + 1 };
                assert(removed[a] == os[a2]);
                assert(removed[b] == os[b2]);
                assert(os[a2].id@ != os[b2].id@);
            }
            assert(group_at(gs, self.default_group_id@, d as int));
            assert forall|a: int, b: int, c: Seq<char>|
                0 <= a < gs.len() && 0 <= b < gs.len() && a != b && #[trigger] gs[a].has(c) implies !#[trigger] gs[b].has(c) by {
                let a2 = if a < k { a } else { a + 1 };
                let b2 = if b < k { b } else { b + 1 };
                assert(removed[a] == os[a2]);
                assert(removed[b] == os[b2]);
                if a == d {
                    if dg0.has(c) {
                        assert(os[dk].has(c));
                    } else {
                        assert(os[k as int].has(c));
                    }
                    assert(!os[b2].has(c));
                } else if b == d {
                    assert(os[a2].has(c));
                    assert(!os[dk].has(c));
                    assert(!os[k as int].has(c));
                } else {
                    assert(os[a2].has(c));
                }
            }
            assert forall|k2: int| #[trigger] group_at(os, group_id@, k2) implies k2 == k by {
                if k2 != k {
                    assert(os[k2].id@ != os[k as int].id@);
                }
            }
        }
        g.members
    }

    /// Create an empty group with the given id and name and return its id;
    /// when a group with this id already exists, nothing changes, so no
    /// client ever loses its group.
    pub fn create_group(&mut self, id: &str, name: &str) -> (r: String)
        requires
            old(self).wf(),
        ensures
            final(self).wf(),
            r@ == id@,
            has_group(final(self).spec_groups(), id@),
            has_group(old(self).spec_groups(), id@) ==> *final(self) == *old(self),
            !has_group(old(self).spec_groups(), id@) ==> final(self).spec_default_id() == old(self).spec_default_id()
                && final(self).spec_groups().len() == old(self).spec_groups().len() + 1
                && final(self).spec_groups().drop_last() == old(self).spec_groups()
                && fresh_group(final(self).spec_groups().last(), id@, name@),
    {
        let ghost os = self.groups@;
        match self.find_group(id) {
            Some(k) => {
                assert(group_at(os, id@, k as int));
            },
            None => {
                let group = Group::new(id, name);
                let ghost ng = group;
                self.groups.push(group);
                proof {
                    let gs = self.groups@;
                    assert(gs == os.push(ng));
                    assert(gs.drop_last() =~= os);
                    assert(group_at(gs, id@, os.len() as int));
                    assert forall|a: int, b: int| 0 <= a < b < gs.len() implies (#[trigger] gs[a]).id@ != (#[trigger] gs[b]).id@ by {
                        if b == os.len() {
                            assert(!group_at(os, id@, a));
                        }
                    }
                    assert(has_group(gs, self.default_group_id@)) by {
                        let d = old(self).lemma_default_index();
                        assert(group_at(gs, self.default_group_id@, d));
                    }
                }
            },
        }
        id.to_string()
    }

    /// The id of the group that holds a client, if any.
    pub fn get_client_group(&self, client_id: &str) -> (r: Option<String>)
        requires
            self.wf(),
        ensures
            r is Some <==> in_some_group(self.spec_groups(), client_id@),
            r matches Some(g) ==> group_holds(self.spec_groups(), g@, client_id@),
    {
        let n = self.groups.len();
        let mut i: usize = 0;
        while i < n
            invariant
                n == self.groups@.len(),
                i <= n,
                forall|k: int| 0 <= k < i ==> !(#[trigger] self.groups@[k]).has(client_id@),
            decreases n - i,
        {
            if self.groups[i].has_member(client_id) {
                let gid = self.groups[i].id.clone();
                assert(group_at(self.spec_groups(), gid@, i as int));
                assert(self.spec_groups()[i as int].has(client_id@));
                let res = Some(gid);
                assert(group_holds(self.spec_groups(), gid@, client_id@));
                return res;
            }
            i = i + 1;
        }
        None
    }

    /// A group's id, name and playback state.
    pub fn get_group(&self, group_id: &str) -> (r: Option<(String, String, PlaybackState)>)
        ensures
            r is Some <==> has_group(self.spec_groups(), group_id@),
            r matches Some(t) ==> exists|i: int| #[trigger] group_at(self.spec_groups(), group_id@, i)
                && t.0@ == group_id@ && t.1@ == self.spec_groups()[i].name@
                && t.2 == self.spec_groups()[i].playback_state,
    {
        match self.find_group(group_id) {
            Some(k) => {
                let g = &self.groups[k];
                Some((g.id.clone(), g.name.clone(), g.playback_state))
            },
            None => None,
        }
    }

    /// A group's playback state.
    pub fn get_playback_state(&self, group_id: &str) -> (r: Option<PlaybackState>)
        ensures
            r is Some <==> has_group(self.spec_groups(), group_id@),
            r matches Some(st) ==> exists|i: int| #[trigger] group_at(self.spec_groups(), group_id@, i)
                && st == self.spec_groups()[i].playback_state,
    {
        match self.find_group(group_id) {
            Some(k) => Some(self.groups[k].playback_state),
            None => None,
        }
    }

    /// The members of a group; empty for an unknown group.
    pub fn get_group_members(&self, group_id: &str) -> (r: Vec<String>)
        requires
            self.wf(),
        ensures
            !has_group(self.spec_groups(), group_id@) ==> r@.len() == 0,
            forall|i: int| #[trigger] group_at(self.spec_groups(), group_id@, i) ==> r@ == self.spec_groups()[i].members@,
    {
        match self.find_group(group_id) {
            Some(k) => {
                proof {
                    assert forall|i: int| #[trigger] group_at(self.groups@, group_id@, i) implies i == k by {
                        self.lemma_unique_id(i, k as int);
                    }
                }
                self.groups[k].members.clone()
            },
            None => Vec::new(),
        }
    }

    /// The ids of all groups, in registry order.
    pub fn group_ids(&self) -> (r: Vec<String>)
        ensures
            r@.len() == self.spec_groups().len(),
            forall|i: int| 0 <= i < r@.len() ==> (#[trigger] r@[i])@ == self.spec_groups()[i].id@,
    {
        let n = self.groups.len();
        let mut out: Vec<String> = Vec::new();
        let mut i: usize = 0;
        while i < n
            invariant
                n == self.groups@.len(),
                i <= n,
                out@.len() == i,
                forall|k: int| 0 <= k < i ==> (#[trigger] out@[k])@ == self.groups@[k].id@,
            decreases n - i,
        {
            out.push(self.groups[i].id.clone());
            i = i + 1;
        }
        out
    }

    proof fn lemma_unique_id(&self, i: int, k: int)
        requires
            distinct_groups(self.spec_groups()),
            0 <= i < self.spec_groups().len(),
            0 <= k < self.spec_groups().len(),
            self.spec_groups()[i].id@ == self.spec_groups()[k].id@,
        ensures
            i == k,
    {
        if i < k {
            assert(self.spec_groups()[i].id@ != self.spec_groups()[k].id@);
        } else if k < i {
            assert(self.spec_groups()[k].id@ != self.spec_groups()[i].id@);
        }
    }

    fn update_settings(&mut self, k: usize, state: PlaybackState, volume: u8, muted: bool)
        requires
            old(self).wf(),
            k < old(self).spec_groups().len(),
        ensures
            final(self).wf(),
            final(self).spec_default_id() == old(self).spec_default_id(),
            final(self).spec_groups().len() == old(self).spec_groups().len(),
            forall|i: int| 0 <= i < old(self).spec_groups().len() && i != k ==> #[trigger] final(self).spec_groups()[i] == old(self).spec_groups()[i],
            final(self).spec_groups()[k as int].id@ == old(self).spec_groups()[k as int].id@,
            final(self).spec_groups()[k as int].name@ == old(self).spec_groups()[k as int].name@,
            final(self).spec_groups()[k as int].members@ == old(self).spec_groups()[k as int].members@,
            final(self).spec_groups()[k as int].playback_state == state,
            final(self).spec_groups()[k as int].volume == volume,
            final(self).spec_groups()[k as int].muted == muted,
    {
        let ghost os = self.groups@;
        let g = &mut self.groups[k];
        g.playback_state = state;
        g.volume = volume;
        g.muted = muted;
        proof {
            let gs = self.groups@;
            assert forall|a: int, b: int| 0 <= a < b < gs.len() implies (#[trigger] gs[a]).id@ != (#[trigger] gs[b]).id@ by {
                assert(os[a].id@ != os[b].id@);
            }
            assert(has_group(gs, self.default_group_id@)) by {
                let d = old(self).lemma_default_index();
                assert(group_at(gs, self.default_group_id@, d));
            }
            assert forall|a: int, b: int, c: Seq<char>|
                0 <= a < gs.len() && 0 <= b < gs.len() && a != b && #[trigger] gs[a].has(c) implies !#[trigger] gs[b].has(c) by {
                assert(gs[a].members@ == os[a].members@);
                assert(gs[b].members@ == os[b].members@);
                assert(os[a].has(c));
                assert(!os[b].has(c));
            }
        }
    }

    proof fn lemma_no_index(&self, id: Seq<char>)
        requires
            !has_group(self.spec_groups(), id),
        ensures
            forall|i: int| 0 <= i < self.spec_groups().len() ==> (#[trigger] self.spec_groups()[i]).id@ != id,
    {
        assert forall|i: int| 0 <= i < self.spec_groups().len() implies (#[trigger] self.spec_groups()[i]).id@ != id by {
            assert(!group_at(self.spec_groups(), id, i));
        }
    }

    /// Set a group's playback state; unknown groups are ignored.
    pub fn set_playback_state(&mut self, group_id: &str, state: PlaybackState)
        requires
            old(self).wf(),
        ensures
            final(self).wf(),
            final(self).spec_default_id() == old(self).spec_default_id(),
            final(self).spec_groups().len() == old(self).spec_groups().len(),
            forall|i: int| 0 <= i < old(self).spec_groups().len() ==> settings_set(
                old(self).spec_groups()[i],
                #[trigger] final(self).spec_groups()[i],
                group_id@,
                state,
                old(self).spec_groups()[i].volume,
                old(self).spec_groups()[i].muted,
            ),
    {
        proof {
            if !has_group(self.spec_groups(), group_id@) {
                self.lemma_no_index(group_id@);
            }
        }
        if let Some(k) = self.find_group(group_id) {
            let g = &self.groups[k];
            let (v, m) = (g.volume, g.muted);
            self.update_settings(k, state, v, m);
            proof { self.lemma_only_index(group_id@, k as int); }
        }
    }

    /// Set a group's volume, capped at 100; unknown groups are ignored.
    pub fn set_volume(&mut self, group_id: &str, volume: u8)
        requires
            old(self).wf(),
        ensures
            final(self).wf(),
            final(self).spec_default_id() == old(self).spec_default_id(),
            final(self).spec_groups().len() == old(self).spec_groups().len(),
            forall|i: int| 0 <= i < old(self).spec_groups().len() ==> settings_set(
                old(self).spec_groups()[i],
                #[trigger] final(self).spec_groups()[i],
                group_id@,
                old(self).spec_groups()[i].playback_state,
                if volume > 100 { 100u8 } else { volume },
                old(self).spec_groups()[i].muted,
            ),
    {
        proof {
            if !has_group(self.spec_groups(), group_id@) {
                self.lemma_no_index(group_id@);
            }
        }
        if let Some(k) = self.find_group(group_id) {
            let g = &self.groups[k];
            let (st, m) = (g.playback_state, g.muted);
            let v = if volume > 100 { 100u8 } else { volume };
            self.update_settings(k, st, v, m);
            proof { self.lemma_only_index(group_id@, k as int); }
        }
    }

    /// Set a group's mute state; unknown groups are ignored.
    pub fn set_muted(&mut self, group_id: &str, muted: bool)
        requires
            old(self).wf(),
        ensures
            final(self).wf(),
            final(self).spec_default_id() == old(self).spec_default_id(),
            final(self).spec_groups().len() == old(self).spec_groups().len(),
            forall|i: int| 0 <= i < old(self).spec_groups().len() ==> settings_set(
                old(self).spec_groups()[i],
                #[trigger] final(self).spec_groups()[i],
                group_id@,
                old(self).spec_groups()[i].playback_state,
                old(self).spec_groups()[i].volume,
                muted,
            ),
    {
        proof {
            if !has_group(self.spec_groups(), group_id@) {
                self.lemma_no_index(group_id@);
            }
        }
        if let Some(k) = self.find_group(group_id) {
            let g = &self.groups[k];
            let (st, v) = (g.playback_state, g.volume);
            self.update_settings(k, st, v, muted);
            proof { self.lemma_only_index(group_id@, k as int); }
        }
    }

    proof fn lemma_only_index(&self, id: Seq<char>, k: int)
        requires
            distinct_groups(self.spec_groups()),
            group_at(self.spec_groups(), id, k),
        ensures
            forall|i: int| 0 <= i < self.spec_groups().len() && i != k ==> (#[trigger] self.spec_groups()[i]).id@ != id,
    {
        assert forall|i: int| 0 <= i < self.spec_groups().len() && i != k implies (#[trigger] self.spec_groups()[i]).id@ != id by {
            if self.spec_groups()[i].id@ == id {
                self.lemma_unique_id(i, k);
            }
        }
    }
}

/// `n` is `o` with playback state, volume and mute set when its id is
/// `id`, and `o` itself otherwise.
pub open spec fn settings_set(o: Group, n: Group, id: Seq<char>, state: PlaybackState, volume: u8, muted: bool) -> bool {
    if o.id@ == id {
        &&& n.id@ == o.id@
        &&& n.name@ == o.name@
        &&& n.members@ == o.members@
        &&& n.playback_state == state
        &&& n.volume == volume
        &&& n.muted == muted
    } else {
        n == o
    }
}

/// `new_gs` is `old_gs` with group `k` taken out and its members added to
/// the default group, every other group unchanged.
pub open spec fn moved_to_default(old_gs: Seq<Group>, new_gs: Seq<Group>, k: int, default_id: Seq<char>) -> bool {
    let removed = old_gs.remove(k);
    &&& new_gs.len() == removed.len()
    &&& forall|j: int| 0 <= j < new_gs.len() ==> (#[trigger] new_gs[j]).same_settings(&removed[j])
    &&& forall|j: int| 0 <= j < new_gs.len() && new_gs[j].id@ != default_id ==> #[trigger] new_gs[j] == removed[j]
    &&& forall|j: int, c: Seq<char>| 0 <= j < new_gs.len() && new_gs[j].id@ == default_id
        ==> (#[trigger] new_gs[j].has(c) == (removed[j].has(c) || old_gs[k].has(c)))
}

/// A client is a member of at most one group of a well-formed registry.
pub proof fn lemma_client_in_one_group(m: &GroupManager, c: Seq<char>, i: int, j: int)
    requires
        m.wf(),
        0 <= i < m.spec_groups().len(),
        0 <= j < m.spec_groups().len(),
        m.spec_groups()[i].has(c),
        m.spec_groups()[j].has(c),
    ensures
        i == j,
{
    if i != j {
        assert(!m.spec_groups()[j].has(c));
    }
}

} // verus!
