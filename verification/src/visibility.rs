//! The profile visibility and ordering manager. Discovered profiles are
//! partitioned into an ordered visible collection and an ordered hidden
//! collection. The visible collection always keeps priority-restricted
//! profiles as a prefix; among the rest, an explicit persisted ranking
//! decides, with unranked profiles after all ranked ones in their
//! previous relative order (the sort is stable).

use vstd::prelude::*;

use vstd::multiset::Multiset;

use crate::config::Config;
use crate::profiles::{CommonBrowserProfile, GenericApp, InstalledBrowser, InstalledBrowserProfile, SupportedApp};
use crate::text::{contains_string, contains_string_exec, str_eq};

verus! {

/// A requested reordering of one visible profile.
#[derive(Clone, Copy, Debug)]
pub enum MoveTo {
    UP,
    DOWN,
    TOP,
    BOTTOM,
}

/// The rank of a profile id in the persisted ranking: its first
/// position, or the ranking's length when it is not ranked.
pub open spec fn rank_of(uid: Seq<char>, order: Seq<String>) -> int
    decreases order.len(),
{
    if order.len() == 0 {
        0
    } else if order[0]@ == uid {
        0
    } else {
        1 + rank_of(uid, order.skip(1))
    }
}

pub proof fn lemma_rank_of_bounds(uid: Seq<char>, order: Seq<String>)
    ensures
        0 <= rank_of(uid, order) <= order.len(),
        rank_of(uid, order) < order.len() ==> order[rank_of(uid, order)]@ == uid,
        forall|k: int| 0 <= k < rank_of(uid, order) ==> order[k]@ != uid,
    decreases order.len(),
{
    if order.len() == 0 {
    } else if order[0]@ == uid {
    } else {
        lemma_rank_of_bounds(uid, order.skip(1));
        assert(forall|k: int| 1 <= k < order.len() ==> order[k] == order.skip(1)[k - 1]);
    }
}

/// An unranked id ranks after everything: its rank is the full length.
pub proof fn lemma_rank_of_absent(uid: Seq<char>, order: Seq<String>)
    requires
        forall|k: int| 0 <= k < order.len() ==> order[k]@ != uid,
    ensures
        rank_of(uid, order) == order.len(),
    decreases order.len(),
{
    if order.len() == 0 {
    } else {
        assert(forall|k: int| 1 <= k < order.len() ==> order[k] == order.skip(1)[k - 1]);
        lemma_rank_of_absent(uid, order.skip(1));
    }
}

/// The two-key comparison the visible collection is sorted by: priority
/// profiles first, then by rank in the persisted ranking.
pub open spec fn key_le(a: CommonBrowserProfile, b: CommonBrowserProfile, order: Seq<String>) -> bool {
    (a.spec_has_priority() && !b.spec_has_priority()) || (a.spec_has_priority()
        == b.spec_has_priority() && rank_of(a.spec_unique_id(), order) <= rank_of(
        b.spec_unique_id(),
        order,
    ))
}

pub open spec fn sorted_by_key(s: Seq<CommonBrowserProfile>, order: Seq<String>) -> bool {
    forall|i: int, j: int| 0 <= i < j < s.len() ==> key_le(s[i], s[j], order)
}

/// Every priority-restricted profile stands before every unrestricted
/// one.
pub open spec fn priority_prefix(s: Seq<CommonBrowserProfile>) -> bool {
    forall|i: int, j: int|
        0 <= i < j < s.len() && s[j].spec_has_priority() ==> s[i].spec_has_priority()
}

/// Insertion after all elements that compare less-or-equal: the stable
/// insertion position.
pub open spec fn insert_by_key(
    p: CommonBrowserProfile,
    s: Seq<CommonBrowserProfile>,
    order: Seq<String>,
) -> Seq<CommonBrowserProfile>
    decreases s.len(),
{
    if s.len() == 0 {
        seq![p]
    } else if key_le(s[0], p, order) {
        seq![s[0]] + insert_by_key(p, s.skip(1), order)
    } else {
        seq![p] + s
    }
}

/// Stable two-key insertion sort: later elements are inserted after
/// earlier elements with an equal key.
pub open spec fn sort_by_key(s: Seq<CommonBrowserProfile>, order: Seq<String>) -> Seq<
    CommonBrowserProfile,
>
    decreases s.len(),
{
    if s.len() == 0 {
        s
    } else {
        insert_by_key(s.last(), sort_by_key(s.drop_last(), order), order)
    }
}

/// First position of the profile with this unique id, or the length.
pub open spec fn index_of_id(s: Seq<CommonBrowserProfile>, id: Seq<char>) -> int
    decreases s.len(),
{
    if s.len() == 0 {
        0
    } else if s[0].spec_unique_id() == id {
        0
    } else {
        1 + index_of_id(s.skip(1), id)
    }
}

pub proof fn lemma_index_of_id_bounds(s: Seq<CommonBrowserProfile>, id: Seq<char>)
    ensures
        0 <= index_of_id(s, id) <= s.len(),
        index_of_id(s, id) < s.len() ==> s[index_of_id(s, id)].spec_unique_id() == id,
        forall|k: int| 0 <= k < index_of_id(s, id) ==> s[k].spec_unique_id() != id,
    decreases s.len(),
{
    if s.len() == 0 {
    } else if s[0].spec_unique_id() == id {
    } else {
        lemma_index_of_id_bounds(s.skip(1), id);
        assert(forall|k: int| 1 <= k < s.len() ==> s[k] == s.skip(1)[k - 1]);
    }
}

/// First position of an unrestricted profile, or the length.
pub open spec fn first_non_priority(s: Seq<CommonBrowserProfile>) -> int
    decreases s.len(),
{
    if s.len() == 0 {
        0
    } else if !s[0].spec_has_priority() {
        0
    } else {
        1 + first_non_priority(s.skip(1))
    }
}

pub proof fn lemma_first_non_priority_bounds(s: Seq<CommonBrowserProfile>)
    ensures
        0 <= first_non_priority(s) <= s.len(),
        first_non_priority(s) < s.len() ==> !s[first_non_priority(s)].spec_has_priority(),
        forall|k: int| 0 <= k < first_non_priority(s) ==> s[k].spec_has_priority(),
    decreases s.len(),
{
    if s.len() == 0 {
    } else if !s[0].spec_has_priority() {
    } else {
        lemma_first_non_priority_bounds(s.skip(1));
        assert(forall|k: int| 1 <= k < s.len() ==> s[k] == s.skip(1)[k - 1]);
    }
}

/// Hiding: the first visible profile with the id moves to the end of the
/// hidden collection; a miss is a no-op.
pub open spec fn hide_spec(
    v: Seq<CommonBrowserProfile>,
    h: Seq<CommonBrowserProfile>,
    id: Seq<char>,
) -> (Seq<CommonBrowserProfile>, Seq<CommonBrowserProfile>) {
    let i = index_of_id(v, id);
    if i == v.len() {
        (v, h)
    } else {
        (v.remove(i), h.push(v[i]))
    }
}

/// Hiding an application: every visible profile of the application moves
/// to hidden, keeping relative order.
pub open spec fn hide_all_spec(
    v: Seq<CommonBrowserProfile>,
    h: Seq<CommonBrowserProfile>,
    app_id: Seq<char>,
) -> (Seq<CommonBrowserProfile>, Seq<CommonBrowserProfile>) {
    (
        v.filter(|p: CommonBrowserProfile| p.spec_unique_app_id() != app_id),
        h + v.filter(|p: CommonBrowserProfile| p.spec_unique_app_id() == app_id),
    )
}

/// Restoring: the first hidden profile with the id is appended to the
/// visible collection, and the ordering invariant is re-applied by the
/// stable two-key sort; a miss is a no-op.
pub open spec fn restore_spec(
    v: Seq<CommonBrowserProfile>,
    h: Seq<CommonBrowserProfile>,
    id: Seq<char>,
    order: Seq<String>,
) -> (Seq<CommonBrowserProfile>, Seq<CommonBrowserProfile>) {
    let i = index_of_id(h, id);
    if i == h.len() {
        (v, h)
    } else {
        (sort_by_key(v.push(h[i]), order), h.remove(i))
    }
}

/// Moving within the non-priority part of the visible collection.
/// Priority profiles are never moved; requests past a boundary are
/// no-ops.
pub open spec fn move_spec(v: Seq<CommonBrowserProfile>, id: Seq<char>, move_to: MoveTo) -> Seq<
    CommonBrowserProfile,
> {
    let i = index_of_id(v, id);
    let f = first_non_priority(v);
    if i == v.len() || f == v.len() {
        v
    } else {
        match move_to {
            MoveTo::UP => if i <= f {
                v
            } else {
                v.remove(i).insert(i - 1, v[i])
            },
            MoveTo::TOP => if i <= f {
                v
            } else {
                v.remove(i).insert(f, v[i])
            },
            MoveTo::DOWN => if i == v.len() - 1 || i < f {
                v
            } else {
                v.remove(i).insert(i + 1, v[i])
            },
            MoveTo::BOTTOM => if i == v.len() - 1 || i < f {
                v
            } else {
                v.remove(i).push(v[i])
            },
        }
    }
}

fn position_in_order(unique_id: &String, profile_order: &Vec<String>) -> (r: usize)
    ensures
        r == rank_of(unique_id@, profile_order@),
{
    proof {
        assert(profile_order@.skip(0) =~= profile_order@);
    }
    let n = profile_order.len();
    let mut i: usize = 0;
    while i < n
        invariant
            n == profile_order@.len(),
            i <= n,
            rank_of(unique_id@, profile_order@) == i + rank_of(
                unique_id@,
                profile_order@.skip(i as int),
            ),
        decreases n - i,
    {
        proof {
            assert(profile_order@.skip(i as int)[0] == profile_order@[i as int]);
            assert(profile_order@.skip(i as int).skip(1) =~= profile_order@.skip(i as int + 1));
        }
        if str_eq(profile_order[i].as_str(), unique_id.as_str()) {
            return i;
        }
        i = i + 1;
    }
    proof {
        assert(profile_order@.skip(i as int).len() == 0);
    }
    n
}

fn profile_key_le(
    a: &CommonBrowserProfile,
    b: &CommonBrowserProfile,
    profile_order: &Vec<String>,
) -> (r: bool)
    ensures
        r == key_le(*a, *b, profile_order@),
{
    let pa = a.has_priority_ordering();
    let pb = b.has_priority_ordering();
    if pa != pb {
        pa
    } else {
        let ida = a.get_unique_id();
        let idb = b.get_unique_id();
        let ra = position_in_order(&ida, profile_order);
        let rb = position_in_order(&idb, profile_order);
        ra <= rb
    }
}

proof fn lemma_insert_at_pos(
    p: CommonBrowserProfile,
    s: Seq<CommonBrowserProfile>,
    j: int,
    order: Seq<String>,
)
    requires
        0 <= j <= s.len(),
        forall|k: int| 0 <= k < j ==> key_le(s[k], p, order),
        j == s.len() || !key_le(s[j], p, order),
    ensures
        s.insert(j, p) == insert_by_key(p, s, order),
    decreases j,
{
    if j == 0 {
        if s.len() == 0 {
            assert(s.insert(0, p) =~= seq![p]);
        } else {
            assert(s.insert(0, p) =~= seq![p] + s);
        }
    } else {
        assert(key_le(s[0], p, order));
        lemma_insert_at_pos(p, s.skip(1), j - 1, order);
        assert(forall|k: int| 1 <= k < s.len() ==> s[k] == s.skip(1)[k - 1]);
        assert(s.insert(j, p) =~= seq![s[0]] + s.skip(1).insert(j - 1, p));
    }
}

/// The stable two-key sort of the visible collection: priority profiles
/// first, then ranked order, unranked profiles after all ranked ones in
/// their previous relative order.
pub fn sort_browser_profiles(
    visible_browser_profiles: &mut Vec<CommonBrowserProfile>,
    profile_order: &Vec<String>,
)
    ensures
        final(visible_browser_profiles)@ == sort_by_key(
            old(visible_browser_profiles)@,
            profile_order@,
        ),
{
    let ghost orig = visible_browser_profiles@;
    let mut sorted: Vec<CommonBrowserProfile> = Vec::new();
    proof {
        assert(orig.skip(0) =~= orig);
        assert(orig.take(0int) =~= Seq::<CommonBrowserProfile>::empty());
    }
    let ghost done: int = 0;
    while visible_browser_profiles.len() > 0
        invariant
            0 <= done <= orig.len(),
            visible_browser_profiles@ == orig.skip(done),
            sorted@ == sort_by_key(orig.take(done), profile_order@),
        decreases visible_browser_profiles@.len(),
    {
        let p = visible_browser_profiles.remove(0);
        proof {
            assert(visible_browser_profiles@ =~= orig.skip(done + 1));
            assert(p == orig[done]);
        }
        // find the stable insertion position for p
        let n = sorted.len();
        let mut j: usize = 0;
        while j < n && profile_key_le(&sorted[j], &p, profile_order)
            invariant
                n == sorted@.len(),
                0 <= j <= n,
                forall|k: int| 0 <= k < j ==> key_le(sorted@[k], p, profile_order@),
            decreases n - j,
        {
            j = j + 1;
        }
        let ghost before = sorted@;
        sorted.insert(j, p);
        proof {
            lemma_insert_at_pos(p, before, j as int, profile_order@);
            assert(orig.take(done + 1).drop_last() =~= orig.take(done));
            assert(orig.take(done + 1).last() == orig[done]);
            done = done + 1;
        }
    }
    proof {
        assert(orig.take(orig.len() as int) =~= orig);
        assert(orig.skip(done).len() == 0);
    }
    *visible_browser_profiles = sorted;
}

/// The two ordered collections that partition the discovered profiles.
pub struct VisibleAndHiddenProfiles {
    pub visible_browser_profiles: Vec<CommonBrowserProfile>,
    pub hidden_browser_profiles: Vec<CommonBrowserProfile>,
}

/// The profile a unique id selects: the first match among the visible
/// profiles, else the first match among the hidden ones.
pub open spec fn lookup_profile(
    v: Seq<CommonBrowserProfile>,
    h: Seq<CommonBrowserProfile>,
    id: Seq<char>,
) -> Option<CommonBrowserProfile> {
    if index_of_id(v, id) < v.len() {
        Some(v[index_of_id(v, id)])
    } else if index_of_id(h, id) < h.len() {
        Some(h[index_of_id(h, id)])
    } else {
        None
    }
}

/// Every profile carries a non-empty launch command template, as the
/// discovery collaborator guarantees.
pub open spec fn profiles_launchable(s: Seq<CommonBrowserProfile>) -> bool {
    forall|k: int| 0 <= k < s.len() ==> (#[trigger] s[k]).app.command@.len() >= 1
}

impl VisibleAndHiddenProfiles {
    /// Look a profile up by its unique id: first among the visible, then
    /// among the hidden profiles.
    pub fn get_browser_profile_by_id(&self, unique_id: &str) -> (r: Option<
        &CommonBrowserProfile,
    >)
        ensures
            match r {
                Some(p) => lookup_profile(
                    self.visible_browser_profiles@,
                    self.hidden_browser_profiles@,
                    unique_id@,
                ) == Some(*p),
                None => lookup_profile(
                    self.visible_browser_profiles@,
                    self.hidden_browser_profiles@,
                    unique_id@,
                ) is None,
            },
    {
        proof {
            lemma_index_of_id_bounds(self.visible_browser_profiles@, unique_id@);
            lemma_index_of_id_bounds(self.hidden_browser_profiles@, unique_id@);
        }
        let vi = find_profile_index(&self.visible_browser_profiles, unique_id);
        if vi < self.visible_browser_profiles.len() {
            return Some(&self.visible_browser_profiles[vi]);
        }
        let hi = find_profile_index(&self.hidden_browser_profiles, unique_id);
        if hi < self.hidden_browser_profiles.len() {
            return Some(&self.hidden_browser_profiles[hi]);
        }
        None
    }

    /// Move the first visible profile with this id to hidden (appended);
    /// a no-op when no visible profile has the id.
    pub fn hide_profile(&mut self, unique_id: &str)
        ensures
            final(self).visible_browser_profiles@ == hide_spec(
                old(self).visible_browser_profiles@,
                old(self).hidden_browser_profiles@,
                unique_id@,
            ).0,
            final(self).hidden_browser_profiles@ == hide_spec(
                old(self).visible_browser_profiles@,
                old(self).hidden_browser_profiles@,
                unique_id@,
            ).1,
    {
        proof {
            lemma_index_of_id_bounds(self.visible_browser_profiles@, unique_id@);
        }
        let i = find_profile_index(&self.visible_browser_profiles, unique_id);
        if i < self.visible_browser_profiles.len() {
            let p = self.visible_browser_profiles.remove(i);
            self.hidden_browser_profiles.push(p);
        }
    }

    /// Move every visible profile of the application to hidden, keeping
    /// their relative order.
    pub fn hide_all_profiles_of_app(&mut self, app_id: &str)
        ensures
            final(self).visible_browser_profiles@ == hide_all_spec(
                old(self).visible_browser_profiles@,
                old(self).hidden_browser_profiles@,
                app_id@,
            ).0,
            final(self).hidden_browser_profiles@ == hide_all_spec(
                old(self).visible_browser_profiles@,
                old(self).hidden_browser_profiles@,
                app_id@,
            ).1,
    {
        let ghost orig = self.visible_browser_profiles@;
        let ghost keep = |p: CommonBrowserProfile| p.spec_unique_app_id() != app_id@;
        let ghost hide = |p: CommonBrowserProfile| p.spec_unique_app_id() == app_id@;
        let mut kept: Vec<CommonBrowserProfile> = Vec::new();
        let ghost done: int = 0;
        proof {
            assert(orig.take(0int) =~= Seq::<CommonBrowserProfile>::empty());
            assert(orig.skip(0) =~= orig);
            reveal_with_fuel(Seq::filter, 2);
            assert(orig.take(0int).filter(keep) =~= Seq::<CommonBrowserProfile>::empty());
            assert(orig.take(0int).filter(hide) =~= Seq::<CommonBrowserProfile>::empty());
        }
        while self.visible_browser_profiles.len() > 0
            invariant
                0 <= done <= orig.len(),
                self.visible_browser_profiles@ == orig.skip(done),
                kept@ == orig.take(done).filter(keep),
                self.hidden_browser_profiles@ == old(self).hidden_browser_profiles@ + orig.take(
                    done,
                ).filter(hide),
                keep == (|p: CommonBrowserProfile| p.spec_unique_app_id() != app_id@),
                hide == (|p: CommonBrowserProfile| p.spec_unique_app_id() == app_id@),
            decreases self.visible_browser_profiles@.len(),
        {
            let p = self.visible_browser_profiles.remove(0);
            proof {
                assert(self.visible_browser_profiles@ =~= orig.skip(done + 1));
                assert(p == orig[done]);
                reveal_with_fuel(Seq::filter, 2);
                assert(orig.take(done + 1).drop_last() =~= orig.take(done));
                assert(orig.take(done + 1).last() == orig[done]);
            }
            let this_app_id = p.get_unique_app_id();
            if str_eq(this_app_id.as_str(), app_id) {
                self.hidden_browser_profiles.push(p);
                proof {
                    assert(self.hidden_browser_profiles@ =~= old(
                        self,
                    ).hidden_browser_profiles@ + orig.take(done + 1).filter(hide));
                }
            } else {
                kept.push(p);
            }
            proof {
                done = done + 1;
            }
        }
        proof {
            assert(orig.take(orig.len() as int) =~= orig);
            assert(orig.skip(done).len() == 0);
        }
        self.visible_browser_profiles = kept;
    }

    /// Move the first hidden profile with this id back to visible and
    /// re-apply the ordering invariant; a no-op when no hidden profile
    /// has the id.
    pub fn restore_profile(&mut self, unique_id: &str, profile_order: &Vec<String>)
        ensures
            final(self).visible_browser_profiles@ == restore_spec(
                old(self).visible_browser_profiles@,
                old(self).hidden_browser_profiles@,
                unique_id@,
                profile_order@,
            ).0,
            final(self).hidden_browser_profiles@ == restore_spec(
                old(self).visible_browser_profiles@,
                old(self).hidden_browser_profiles@,
                unique_id@,
                profile_order@,
            ).1,
    {
        proof {
            lemma_index_of_id_bounds(self.hidden_browser_profiles@, unique_id@);
        }
        let i = find_profile_index(&self.hidden_browser_profiles, unique_id);
        if i < self.hidden_browser_profiles.len() {
            let p = self.hidden_browser_profiles.remove(i);
            self.visible_browser_profiles.push(p);
            sort_browser_profiles(&mut self.visible_browser_profiles, profile_order);
        }
    }
}

fn find_profile_index(v: &Vec<CommonBrowserProfile>, unique_id: &str) -> (r: usize)
    ensures
        r == index_of_id(v@, unique_id@),
{
    proof {
        assert(v@.skip(0) =~= v@);
    }
    let n = v.len();
    let mut i: usize = 0;
    while i < n
        invariant
            n == v@.len(),
            i <= n,
            index_of_id(v@, unique_id@) == i + index_of_id(v@.skip(i as int), unique_id@),
        decreases n - i,
    {
        proof {
            assert(v@.skip(i as int)[0] == v@[i as int]);
            assert(v@.skip(i as int).skip(1) =~= v@.skip(i as int + 1));
        }
        let this_id = v[i].get_unique_id();
        if str_eq(this_id.as_str(), unique_id) {
            return i;
        }
        i = i + 1;
    }
    proof {
        assert(v@.skip(i as int).len() == 0);
    }
    n
}

fn find_first_non_priority(v: &Vec<CommonBrowserProfile>) -> (r: usize)
    ensures
        r == first_non_priority(v@),
{
    proof {
        assert(v@.skip(0) =~= v@);
    }
    let n = v.len();
    let mut i: usize = 0;
    while i < n
        invariant
            n == v@.len(),
            i <= n,
            first_non_priority(v@) == i + first_non_priority(v@.skip(i as int)),
        decreases n - i,
    {
        proof {
            assert(v@.skip(i as int)[0] == v@[i as int]);
            assert(v@.skip(i as int).skip(1) =~= v@.skip(i as int + 1));
        }
        if !v[i].has_priority_ordering() {
            return i;
        }
        i = i + 1;
    }
    proof {
        assert(v@.skip(i as int).len() == 0);
    }
    n
}

/// Reorder one visible profile. Priority profiles are never moved, and a
/// request past the boundary of the non-priority sub-partition is a
/// no-op.
pub fn move_app_profile(
    visible_browser_profiles: &mut Vec<CommonBrowserProfile>,
    unique_id: &str,
    move_to: MoveTo,
)
    ensures
        final(visible_browser_profiles)@ == move_spec(
            old(visible_browser_profiles)@,
            unique_id@,
            move_to,
        ),
{
    proof {
        lemma_index_of_id_bounds(visible_browser_profiles@, unique_id@);
        lemma_first_non_priority_bounds(visible_browser_profiles@);
    }
    let n = visible_browser_profiles.len();
    let i = find_profile_index(visible_browser_profiles, unique_id);
    if i == n {
        return ;
    }
    let f = find_first_non_priority(visible_browser_profiles);
    if f == n {
        return ;
    }
    match move_to {
        MoveTo::UP | MoveTo::TOP => {
            if i <= f {
                return ;
            }
        },
        MoveTo::DOWN | MoveTo::BOTTOM => {
            if i == n - 1 || i < f {
                return ;
            }
        },
    }
    match move_to {
        MoveTo::UP => {
            let p = visible_browser_profiles.remove(i);
            visible_browser_profiles.insert(i - 1, p);
        },
        MoveTo::DOWN => {
            let p = visible_browser_profiles.remove(i);
            visible_browser_profiles.insert(i + 1, p);
        },
        MoveTo::TOP => {
            let p = visible_browser_profiles.remove(i);
            visible_browser_profiles.insert(f, p);
        },
        MoveTo::BOTTOM => {
            let p = visible_browser_profiles.remove(i);
            visible_browser_profiles.push(p);
        },
    }
}

/// The ranking to persist after a mutation: the ids of the non-priority
/// visible profiles, in their current order.
pub open spec fn non_priority_ids(s: Seq<CommonBrowserProfile>) -> Seq<Seq<char>> {
    s.filter(|p: CommonBrowserProfile| !p.spec_has_priority()).map_values(
        |p: CommonBrowserProfile| p.spec_unique_id(),
    )
}

/// Appending a profile appends its id exactly when it is non-priority.
proof fn lemma_non_priority_ids_push(s: Seq<CommonBrowserProfile>, p: CommonBrowserProfile)
    ensures
        non_priority_ids(s.push(p)) == if !p.spec_has_priority() {
            non_priority_ids(s).push(p.spec_unique_id())
        } else {
            non_priority_ids(s)
        },
{
    reveal_with_fuel(Seq::filter, 2);
    let pred = |q: CommonBrowserProfile| !q.spec_has_priority();
    assert(s.push(p).drop_last() =~= s);
    assert(s.push(p).last() == p);
    if !p.spec_has_priority() {
        assert(s.push(p).filter(pred) == s.filter(pred).push(p));
        assert(non_priority_ids(s.push(p)) =~= non_priority_ids(s).push(p.spec_unique_id()));
    }
}

pub fn non_priority_profile_ids(visible_browser_profiles: &Vec<CommonBrowserProfile>) -> (r: Vec<
    String,
>)
    ensures
        crate::text::string_views(r@) == non_priority_ids(visible_browser_profiles@),
{
    let ghost orig = visible_browser_profiles@;
    let mut r: Vec<String> = Vec::new();
    let n = visible_browser_profiles.len();
    let mut i: usize = 0;
    proof {
        assert(orig.take(0int) =~= Seq::<CommonBrowserProfile>::empty());
        reveal_with_fuel(Seq::filter, 2);
        assert(crate::text::string_views(r@) =~= non_priority_ids(orig.take(0int)));
    }
    while i < n
        invariant
            n == visible_browser_profiles@.len(),
            orig == visible_browser_profiles@,
            i <= n,
            crate::text::string_views(r@) == non_priority_ids(orig.take(i as int)),
        decreases n - i,
    {
        let p = vstd::slice::slice_index_get(visible_browser_profiles.as_slice(), i);
        proof {
            assert(*p == orig[i as int]);
            assert(orig.take(i as int + 1) =~= orig.take(i as int).push(orig[i as int]));
            lemma_non_priority_ids_push(orig.take(i as int), orig[i as int]);
        }
        if !p.has_priority_ordering() {
            r.push(p.get_unique_id());
            proof {
                assert(crate::text::string_views(r@) =~= non_priority_ids(orig.take(i as int)).push(
                    orig[i as int].spec_unique_id(),
                ));
            }
        }
        i = i + 1;
    }
    proof {
        assert(orig.take(n as int) =~= orig);
    }
    r
}

/// Whether the configuration hides this profile, either through its
/// application or individually.
pub open spec fn spec_hidden_by_config(p: CommonBrowserProfile, config: Config) -> bool {
    contains_string(config.spec_hidden_apps(), p.spec_unique_app_id()) || contains_string(
        config.spec_hidden_profiles(),
        p.spec_unique_id(),
    )
}

/// How many profiles a discovery pass delivered in all.
pub open spec fn total_profiles(installed: Seq<(InstalledBrowser, SupportedApp)>) -> int
    decreases installed.len(),
{
    if installed.len() == 0 {
        0
    } else {
        installed[0].0.profiles.profiles@.len() + total_profiles(installed.skip(1))
    }
}

/// One discovered profile together with its application context: the
/// unit the partition is stated over, in discovery order.
pub ghost struct DiscoveredProfile {
    pub profile: InstalledBrowserProfile,
    pub browser: InstalledBrowser,
    pub capabilities: SupportedApp,
}

/// The profile descriptors of one discovered application, in order.
pub open spec fn browser_descriptors(b: (InstalledBrowser, SupportedApp)) -> Seq<
    DiscoveredProfile,
> {
    b.0.profiles.profiles@.map_values(
        |d: InstalledBrowserProfile|
            DiscoveredProfile { profile: d, browser: b.0, capabilities: b.1 },
    )
}

/// All discovered profile descriptors, flattened in discovery order.
pub open spec fn flat_descriptors(installed: Seq<(InstalledBrowser, SupportedApp)>) -> Seq<
    DiscoveredProfile,
>
    decreases installed.len(),
{
    if installed.len() == 0 {
        Seq::empty()
    } else {
        browser_descriptors(installed[0]) + flat_descriptors(installed.skip(1))
    }
}

/// The unique id a descriptor determines:
/// `<executable path>#<profile argument>[#<container>]`.
pub open spec fn descriptor_unique_id(d: DiscoveredProfile) -> Seq<char> {
    let base = d.browser.executable_path@ + seq!['#'] + d.profile.profile_cli_arg_value@;
    match d.profile.profile_cli_container_name {
        Some(c) => base + seq!['#'] + c@,
        None => base,
    }
}

/// Whether the configuration hides this descriptor's profile, through
/// its application or individually.
pub open spec fn descriptor_hidden(d: DiscoveredProfile, config: Config) -> bool {
    contains_string(config.spec_hidden_apps(), d.browser.executable_path@) || contains_string(
        config.spec_hidden_profiles(),
        descriptor_unique_id(d),
    )
}

/// The profile built from a descriptor: its own fields copied, its
/// patterns compiled, and its shared record built from its application.
pub open spec fn built_from_descriptor(p: CommonBrowserProfile, d: DiscoveredProfile) -> bool {
    &&& crate::profiles::app_record_matches(*p.app, d.browser, d.capabilities)
    &&& crate::profiles::profile_built_from(p, d.profile, *p.app)
}

/// Pointwise correspondence of built profiles to descriptors.
pub open spec fn profiles_match_descriptors(
    ps: Seq<CommonBrowserProfile>,
    ds: Seq<DiscoveredProfile>,
) -> bool {
    ps.len() == ds.len() && (forall|k: int|
        0 <= k < ps.len() ==> built_from_descriptor(#[trigger] ps[k], ds[k]))
}

/// The descriptors the configuration hides, in discovery order.
pub open spec fn hidden_descriptors(ds: Seq<DiscoveredProfile>, config: Config) -> Seq<
    DiscoveredProfile,
> {
    ds.filter(|d: DiscoveredProfile| descriptor_hidden(d, config))
}

/// The descriptors that stay visible, in discovery order.
pub open spec fn kept_descriptors(ds: Seq<DiscoveredProfile>, config: Config) -> Seq<
    DiscoveredProfile,
> {
    ds.filter(|d: DiscoveredProfile| !descriptor_hidden(d, config))
}

/// A built profile has the ids its descriptor determines, so the
/// configuration hides one exactly when it hides the other.
pub proof fn lemma_built_profile_ids(p: CommonBrowserProfile, d: DiscoveredProfile, config: Config)
    requires
        built_from_descriptor(p, d),
    ensures
        p.spec_unique_app_id() == d.browser.executable_path@,
        p.spec_unique_id() == descriptor_unique_id(d),
        spec_hidden_by_config(p, config) == descriptor_hidden(d, config),
{
}

proof fn lemma_descriptor_filters_push(
    ds: Seq<DiscoveredProfile>,
    d: DiscoveredProfile,
    config: Config,
)
    ensures
        hidden_descriptors(ds.push(d), config) == if descriptor_hidden(d, config) {
            hidden_descriptors(ds, config).push(d)
        } else {
            hidden_descriptors(ds, config)
        },
        kept_descriptors(ds.push(d), config) == if descriptor_hidden(d, config) {
            kept_descriptors(ds, config)
        } else {
            kept_descriptors(ds, config).push(d)
        },
{
    reveal_with_fuel(Seq::filter, 2);
    assert(ds.push(d).drop_last() =~= ds);
    assert(ds.push(d).last() == d);
}

/// Build the visible/hidden partition of all discovered profiles: the
/// hidden collection is exactly the profiles of the config-hidden
/// descriptors in discovery order, the visible collection is the stable
/// two-key sort of the kept descriptors' profiles in discovery order,
/// and every profile carries exactly its descriptor's data.
pub fn generate_all_browser_profiles(
    config: &Config,
    installed_browsers: Vec<(InstalledBrowser, SupportedApp)>,
) -> (r: VisibleAndHiddenProfiles)
    ensures
        r.visible_browser_profiles@.len() + r.hidden_browser_profiles@.len() == total_profiles(
            installed_browsers@,
        ),
        profiles_match_descriptors(
            r.hidden_browser_profiles@,
            hidden_descriptors(flat_descriptors(installed_browsers@), *config),
        ),
        (exists|kept: Seq<CommonBrowserProfile>|
            {
                &&& #[trigger] profiles_match_descriptors(
                    kept,
                    kept_descriptors(flat_descriptors(installed_browsers@), *config),
                )
                &&& r.visible_browser_profiles@ == sort_by_key(kept, config.spec_profile_order())
            }),
        forall|k: int|
            0 <= k < r.visible_browser_profiles@.len() ==> !spec_hidden_by_config(
                #[trigger] r.visible_browser_profiles@[k],
                *config,
            ),
        forall|k: int|
            0 <= k < r.hidden_browser_profiles@.len() ==> spec_hidden_by_config(
                #[trigger] r.hidden_browser_profiles@[k],
                *config,
            ),
        sorted_by_key(r.visible_browser_profiles@, config.spec_profile_order()),
        priority_prefix(r.visible_browser_profiles@),
{
    let ghost orig = installed_browsers@;
    let ghost mut seen: Seq<DiscoveredProfile> = Seq::empty();
    let mut installed_browsers = installed_browsers;
    let mut visible_browser_profiles: Vec<CommonBrowserProfile> = Vec::new();
    let mut hidden_browser_profiles: Vec<CommonBrowserProfile> = Vec::new();
    proof {
        assert(flat_descriptors(orig) =~= seen + flat_descriptors(orig));
        reveal_with_fuel(Seq::filter, 2);
        assert(hidden_descriptors(seen, *config) =~= Seq::<DiscoveredProfile>::empty());
        assert(kept_descriptors(seen, *config) =~= Seq::<DiscoveredProfile>::empty());
    }
    while installed_browsers.len() > 0
        invariant
            visible_browser_profiles@.len() + hidden_browser_profiles@.len() + total_profiles(
                installed_browsers@,
            ) == total_profiles(orig),
            flat_descriptors(orig) == seen + flat_descriptors(installed_browsers@),
            profiles_match_descriptors(
                hidden_browser_profiles@,
                hidden_descriptors(seen, *config),
            ),
            profiles_match_descriptors(visible_browser_profiles@, kept_descriptors(seen, *config)),
            forall|k: int|
                0 <= k < visible_browser_profiles@.len() ==> !spec_hidden_by_config(
                    #[trigger] visible_browser_profiles@[k],
                    *config,
                ),
            forall|k: int|
                0 <= k < hidden_browser_profiles@.len() ==> spec_hidden_by_config(
                    #[trigger] hidden_browser_profiles@[k],
                    *config,
                ),
        decreases installed_browsers@.len(),
    {
        let ghost before = installed_browsers@;
        let (installed_browser, supported_app) = installed_browsers.remove(0);
        let ghost cur: (InstalledBrowser, SupportedApp) = (installed_browser, supported_app);
        let ghost cur_descs = browser_descriptors(cur);
        proof {
            assert(installed_browsers@ =~= before.skip(1));
            assert(cur == before[0]);
            assert(flat_descriptors(before) == cur_descs + flat_descriptors(before.skip(1)));
        }
        let app = GenericApp::new(&installed_browser, supported_app);
        let mut profiles = app.into_profiles();
        let ghost built = profiles@;
        let ghost mut pi: int = 0;
        proof {
            assert(profiles_match_descriptors(built, cur_descs)) by {
                assert forall|k: int| 0 <= k < built.len() implies built_from_descriptor(
                    #[trigger] built[k],
                    cur_descs[k],
                ) by {
                    assert(cur_descs[k] == DiscoveredProfile {
                        profile: installed_browser.profiles.profiles@[k],
                        browser: cur.0,
                        capabilities: cur.1,
                    });
                }
            }
            assert(built.skip(0) =~= built);
            assert(cur_descs.skip(0) =~= cur_descs);
            assert(seen + (cur_descs + flat_descriptors(installed_browsers@)) =~= (seen
                + cur_descs.skip(pi)) + flat_descriptors(installed_browsers@));
        }
        while profiles.len() > 0
            invariant
                visible_browser_profiles@.len() + hidden_browser_profiles@.len()
                    + profiles@.len() + total_profiles(installed_browsers@) == total_profiles(
                    orig,
                ),
                0 <= pi <= built.len(),
                built.len() == cur_descs.len(),
                profiles@ == built.skip(pi),
                profiles_match_descriptors(built, cur_descs),
                flat_descriptors(orig) == (seen + cur_descs.skip(pi)) + flat_descriptors(
                    installed_browsers@,
                ),
                profiles_match_descriptors(
                    hidden_browser_profiles@,
                    hidden_descriptors(seen, *config),
                ),
                profiles_match_descriptors(
                    visible_browser_profiles@,
                    kept_descriptors(seen, *config),
                ),
                forall|k: int|
                    0 <= k < visible_browser_profiles@.len() ==> !spec_hidden_by_config(
                        #[trigger] visible_browser_profiles@[k],
                        *config,
                    ),
                forall|k: int|
                    0 <= k < hidden_browser_profiles@.len() ==> spec_hidden_by_config(
                        #[trigger] hidden_browser_profiles@[k],
                        *config,
                    ),
            decreases profiles@.len(),
        {
            let p = profiles.remove(0);
            let ghost d = cur_descs[pi];
            proof {
                assert(profiles@ =~= built.skip(pi + 1));
                assert(p == built[pi]);
                assert(built_from_descriptor(p, d));
                lemma_built_profile_ids(p, d, *config);
                lemma_descriptor_filters_push(seen, d, *config);
                assert(seen.push(d) + cur_descs.skip(pi + 1) =~= seen + cur_descs.skip(pi));
                assert((seen.push(d) + cur_descs.skip(pi + 1)) + flat_descriptors(
                    installed_browsers@,
                ) =~= (seen + cur_descs.skip(pi)) + flat_descriptors(installed_browsers@));
            }
            let app_id = p.get_unique_app_id();
            if contains_string_exec(config.get_hidden_apps(), app_id.as_str()) {
                hidden_browser_profiles.push(p);
            } else {
                let profile_unique_id = p.get_unique_id();
                if contains_string_exec(config.get_hidden_profiles(), profile_unique_id.as_str()) {
                    hidden_browser_profiles.push(p);
                } else {
                    visible_browser_profiles.push(p);
                }
            }
            proof {
                seen = seen.push(d);
                pi = pi + 1;
            }
        }
        proof {
            assert(cur_descs.skip(pi).len() == 0);
            assert((seen + cur_descs.skip(pi)) =~= seen);
        }
    }
    proof {
        assert(total_profiles(installed_browsers@) == 0);
        assert(flat_descriptors(installed_browsers@) =~= Seq::<DiscoveredProfile>::empty());
        assert(seen + flat_descriptors(installed_browsers@) =~= seen);
        assert(seen == flat_descriptors(orig));
    }
    let ghost before_sort = visible_browser_profiles@;
    sort_browser_profiles(&mut visible_browser_profiles, config.get_profile_order());
    proof {
        broadcast use vstd::seq_lib::group_to_multiset_ensures;

        lemma_sort_by_key_multiset(before_sort, config.spec_profile_order());
        assert(visible_browser_profiles@.to_multiset().len()
            == before_sort.to_multiset().len());
        assert(visible_browser_profiles@.len() == before_sort.len());
        lemma_sort_by_key_sorted(before_sort, config.spec_profile_order());
        lemma_sorted_priority_prefix(visible_browser_profiles@, config.spec_profile_order());
        assert(profiles_match_descriptors(
            before_sort,
            kept_descriptors(flat_descriptors(orig), *config),
        ) && visible_browser_profiles@ == sort_by_key(before_sort, config.spec_profile_order()));
        assert forall|k: int| 0 <= k < visible_browser_profiles@.len() implies !spec_hidden_by_config(
            #[trigger] visible_browser_profiles@[k],
            *config,
        ) by {
            let x = visible_browser_profiles@[k];
            assert(visible_browser_profiles@.contains(x));
            assert(visible_browser_profiles@.to_multiset().count(x) > 0);
            assert(before_sort.to_multiset().count(x) > 0);
            assert(before_sort.contains(x));
            let w = choose|w: int| 0 <= w < before_sort.len() && before_sort[w] == x;
            assert(!spec_hidden_by_config(before_sort[w], *config));
        }
    }
    VisibleAndHiddenProfiles { visible_browser_profiles, hidden_browser_profiles }
}

/// Insertion keeps the multiset of profiles, adding the new one.
pub proof fn lemma_insert_by_key_multiset(
    p: CommonBrowserProfile,
    s: Seq<CommonBrowserProfile>,
    order: Seq<String>,
)
    ensures
        insert_by_key(p, s, order).to_multiset() == s.to_multiset().insert(p),
    decreases s.len(),
{
    broadcast use vstd::seq_lib::group_to_multiset_ensures;

    if s.len() == 0 {
        assert(seq![p] =~= Seq::<CommonBrowserProfile>::empty().push(p));
        assert(insert_by_key(p, s, order).to_multiset() =~= s.to_multiset().insert(p));
    } else if key_le(s[0], p, order) {
        lemma_insert_by_key_multiset(p, s.skip(1), order);
        vstd::seq_lib::lemma_multiset_commutative(seq![s[0]], insert_by_key(p, s.skip(1), order));
        vstd::seq_lib::lemma_multiset_commutative(seq![s[0]], s.skip(1));
        assert(s =~= seq![s[0]] + s.skip(1));
        assert(insert_by_key(p, s, order).to_multiset() =~= s.to_multiset().insert(p));
    } else {
        vstd::seq_lib::lemma_multiset_commutative(seq![p], s);
        assert(seq![p].to_multiset() =~= Multiset::<CommonBrowserProfile>::empty().insert(p));
        assert(insert_by_key(p, s, order).to_multiset() =~= s.to_multiset().insert(p));
    }
}

/// The sort is a permutation: the multiset of profiles is unchanged.
pub proof fn lemma_sort_by_key_multiset(s: Seq<CommonBrowserProfile>, order: Seq<String>)
    ensures
        sort_by_key(s, order).to_multiset() == s.to_multiset(),
    decreases s.len(),
{
    broadcast use vstd::seq_lib::group_to_multiset_ensures;

    if s.len() == 0 {
    } else {
        lemma_sort_by_key_multiset(s.drop_last(), order);
        lemma_insert_by_key_multiset(s.last(), sort_by_key(s.drop_last(), order), order);
        assert(s =~= s.drop_last().push(s.last()));
        assert(s.to_multiset() =~= s.drop_last().to_multiset().insert(s.last()));
    }
}

/// Inserting into a sorted sequence keeps it sorted.
pub proof fn lemma_insert_by_key_sorted(
    p: CommonBrowserProfile,
    s: Seq<CommonBrowserProfile>,
    order: Seq<String>,
)
    requires
        sorted_by_key(s, order),
    ensures
        sorted_by_key(insert_by_key(p, s, order), order),
    decreases s.len(),
{
    if s.len() == 0 {
    } else if key_le(s[0], p, order) {
        assert(sorted_by_key(s.skip(1), order)) by {
            assert(forall|i: int, j: int|
                0 <= i < j < s.skip(1).len() ==> s.skip(1)[i] == s[i + 1] && s.skip(1)[j] == s[j
                    + 1]);
        }
        lemma_insert_by_key_sorted(p, s.skip(1), order);
        let t = insert_by_key(p, s, order);
        let t1 = insert_by_key(p, s.skip(1), order);
        lemma_insert_by_key_multiset(p, s.skip(1), order);
        broadcast use vstd::seq_lib::group_to_multiset_ensures;

        assert forall|i: int, j: int| 0 <= i < j < t.len() implies key_le(t[i], t[j], order) by {
            if i == 0 {
                assert(t[0] == s[0]);
                assert(t[j] == t1[j - 1]);
                // every element of t1 is either p or an element of s.skip(1)
                assert(t1.contains(t1[j - 1]));
                assert(t1.to_multiset().count(t1[j - 1]) > 0);
                if t1[j - 1] == p {
                    assert(key_le(s[0], p, order));
                } else {
                    assert(s.skip(1).to_multiset().insert(p).count(t1[j - 1]) > 0);
                    assert(s.skip(1).to_multiset().count(t1[j - 1]) > 0);
                    assert(s.skip(1).contains(t1[j - 1]));
                    let w = choose|w: int|
                        0 <= w < s.skip(1).len() && s.skip(1)[w] == t1[j - 1];
                    assert(key_le(s[0], s[w + 1], order));
                }
            } else {
                assert(t[i] == t1[i - 1] && t[j] == t1[j - 1]);
            }
        }
    } else {
        // p goes first: p is below every element of s
        let t = insert_by_key(p, s, order);
        assert forall|i: int, j: int| 0 <= i < j < t.len() implies key_le(t[i], t[j], order) by {
            if i == 0 {
                assert(t[0] == p);
                assert(t[j] == s[j - 1]);
                assert(!key_le(s[0], p, order));
                lemma_key_le_total(s[0], p, order);
                assert(key_le(p, s[0], order));
                if j > 1 {
                    assert(key_le(s[0], s[j - 1], order));
                }
                lemma_key_le_trans(p, s[0], s[j - 1], order);
            } else {
                assert(t[i] == s[i - 1] && t[j] == s[j - 1]);
            }
        }
    }
}

/// The comparison is total: one direction always holds.
pub proof fn lemma_key_le_total(
    a: CommonBrowserProfile,
    b: CommonBrowserProfile,
    order: Seq<String>,
)
    ensures
        key_le(a, b, order) || key_le(b, a, order),
{
}

/// The comparison is transitive.
pub proof fn lemma_key_le_trans(
    a: CommonBrowserProfile,
    b: CommonBrowserProfile,
    c: CommonBrowserProfile,
    order: Seq<String>,
)
    requires
        key_le(a, b, order),
        key_le(b, c, order),
    ensures
        key_le(a, c, order),
{
}

/// The sort sorts.
pub proof fn lemma_sort_by_key_sorted(s: Seq<CommonBrowserProfile>, order: Seq<String>)
    ensures
        sorted_by_key(sort_by_key(s, order), order),
    decreases s.len(),
{
    if s.len() == 0 {
    } else {
        lemma_sort_by_key_sorted(s.drop_last(), order);
        lemma_insert_by_key_sorted(s.last(), sort_by_key(s.drop_last(), order), order);
    }
}

/// A sorted visible collection has the priority profiles as a prefix.
pub proof fn lemma_sorted_priority_prefix(s: Seq<CommonBrowserProfile>, order: Seq<String>)
    requires
        sorted_by_key(s, order),
    ensures
        priority_prefix(s),
{
    assert forall|i: int, j: int|
        0 <= i < j < s.len() && s[j].spec_has_priority() implies s[i].spec_has_priority() by {
        assert(key_le(s[i], s[j], order));
    }
}


/// The partition of a state: everything visible and hidden together.
pub open spec fn partition_multiset(
    v: Seq<CommonBrowserProfile>,
    h: Seq<CommonBrowserProfile>,
) -> Multiset<CommonBrowserProfile> {
    v.to_multiset().add(h.to_multiset())
}

proof fn lemma_seq_insert_multiset(s: Seq<CommonBrowserProfile>, j: int, x: CommonBrowserProfile)
    requires
        0 <= j <= s.len(),
    ensures
        s.insert(j, x).to_multiset() == s.to_multiset().insert(x),
{
    broadcast use vstd::seq_lib::group_to_multiset_ensures;

    assert(s.insert(j, x) =~= s.take(j) + (seq![x] + s.skip(j)));
    vstd::seq_lib::lemma_multiset_commutative(s.take(j), seq![x] + s.skip(j));
    vstd::seq_lib::lemma_multiset_commutative(seq![x], s.skip(j));
    assert(s =~= s.take(j) + s.skip(j));
    vstd::seq_lib::lemma_multiset_commutative(s.take(j), s.skip(j));
    assert(seq![x] =~= Seq::<CommonBrowserProfile>::empty().push(x));
    assert(seq![x].to_multiset() =~= Multiset::<CommonBrowserProfile>::empty().insert(x));
    assert(s.insert(j, x).to_multiset() =~= s.to_multiset().insert(x));
}

/// Hiding a profile preserves the priority-first ordering of the visible
/// collection and keeps the visible and hidden collections a partition
/// of the same profiles.
pub proof fn lemma_hide_preserves_invariant(
    v: Seq<CommonBrowserProfile>,
    h: Seq<CommonBrowserProfile>,
    id: Seq<char>,
)
    requires
        priority_prefix(v),
    ensures
        priority_prefix(hide_spec(v, h, id).0),
        partition_multiset(hide_spec(v, h, id).0, hide_spec(v, h, id).1) == partition_multiset(
            v,
            h,
        ),
{
    broadcast use vstd::seq_lib::group_to_multiset_ensures;

    lemma_index_of_id_bounds(v, id);
    let i = index_of_id(v, id);
    if i < v.len() {
        let v2 = v.remove(i);
        v.remove_ensures(i);
        assert forall|a: int, b: int|
            0 <= a < b < v2.len() && v2[b].spec_has_priority() implies v2[a].spec_has_priority()
        by {
            let oa: int = if a < i {
                a
            } else {
                a + 1
            };
            let ob: int = if b < i {
                b
            } else {
                b + 1
            };
            assert(v2[a] == v[oa] && v2[b] == v[ob]);
        }
        assert(v2.to_multiset() == v.to_multiset().remove(v[i]));
        assert(v.contains(v[i]));
        assert(v.to_multiset().count(v[i]) > 0);
        assert(partition_multiset(v2, h.push(v[i])) =~= partition_multiset(v, h));
    }
}

proof fn lemma_filter_keeps_priority_prefix(
    s: Seq<CommonBrowserProfile>,
    pred: spec_fn(CommonBrowserProfile) -> bool,
)
    requires
        priority_prefix(s),
    ensures
        priority_prefix(s.filter(pred)),
    decreases s.len(),
{
    reveal_with_fuel(Seq::filter, 2);
    if s.len() == 0 {
    } else {
        let dl = s.drop_last();
        assert(priority_prefix(dl)) by {
            assert(forall|k: int| 0 <= k < dl.len() ==> dl[k] == s[k]);
        }
        lemma_filter_keeps_priority_prefix(dl, pred);
        let fd = dl.filter(pred);
        if pred(s.last()) {
            assert(s.filter(pred) == fd.push(s.last()));
            if s.last().spec_has_priority() {
                assert forall|k: int| 0 <= k < fd.len() implies fd[k].spec_has_priority() by {
                    assert(fd.contains(fd[k]));
                    dl.lemma_filter_contains_rev(pred, fd[k]);
                    let w = choose|w: int| 0 <= w < dl.len() && dl[w] == fd[k];
                    if w < s.len() - 1 {
                        assert(s[w] == fd[k]);
                        assert(s[s.len() - 1].spec_has_priority());
                    }
                }
            }
            assert forall|a: int, b: int|
                0 <= a < b < s.filter(pred).len() && s.filter(pred)[b].spec_has_priority() implies s.filter(
                pred,
            )[a].spec_has_priority() by {
                if b < fd.len() {
                    assert(s.filter(pred)[a] == fd[a] && s.filter(pred)[b] == fd[b]);
                } else {
                    assert(s.filter(pred)[b] == s.last());
                    assert(s.filter(pred)[a] == fd[a]);
                }
            }
        } else {
            assert(s.filter(pred) == fd);
        }
    }
}

proof fn lemma_filter_partition_multiset(
    s: Seq<CommonBrowserProfile>,
    p: spec_fn(CommonBrowserProfile) -> bool,
    q: spec_fn(CommonBrowserProfile) -> bool,
)
    requires
        forall|x: CommonBrowserProfile| #[trigger] q(x) == !p(x),
    ensures
        s.filter(p).to_multiset().add(s.filter(q).to_multiset()) == s.to_multiset(),
    decreases s.len(),
{
    broadcast use vstd::seq_lib::group_to_multiset_ensures;

    reveal_with_fuel(Seq::filter, 2);
    if s.len() == 0 {
        assert(s.filter(p) =~= s);
        assert(s.filter(q) =~= s);
        assert(s.filter(p).to_multiset().add(s.filter(q).to_multiset()) =~= s.to_multiset());
    } else {
        let dl = s.drop_last();
        lemma_filter_partition_multiset(dl, p, q);
        assert(s =~= dl.push(s.last()));
        assert(s.to_multiset() == dl.to_multiset().insert(s.last()));
        assert(q(s.last()) == !p(s.last()));
        if p(s.last()) {
            assert(s.filter(p) == dl.filter(p).push(s.last()));
            assert(s.filter(q) == dl.filter(q));
        } else {
            assert(s.filter(p) == dl.filter(p));
            assert(s.filter(q) == dl.filter(q).push(s.last()));
        }
        assert(s.filter(p).to_multiset().add(s.filter(q).to_multiset()) =~= s.to_multiset());
    }
}

/// Hiding a whole application preserves the ordering invariant and the
/// partition.
pub proof fn lemma_hide_all_preserves_invariant(
    v: Seq<CommonBrowserProfile>,
    h: Seq<CommonBrowserProfile>,
    app_id: Seq<char>,
)
    requires
        priority_prefix(v),
    ensures
        priority_prefix(hide_all_spec(v, h, app_id).0),
        partition_multiset(hide_all_spec(v, h, app_id).0, hide_all_spec(v, h, app_id).1)
            == partition_multiset(v, h),
{
    broadcast use vstd::seq_lib::group_to_multiset_ensures;

    let keep = |p: CommonBrowserProfile| p.spec_unique_app_id() != app_id;
    let hide = |p: CommonBrowserProfile| p.spec_unique_app_id() == app_id;
    lemma_filter_keeps_priority_prefix(v, keep);
    lemma_filter_partition_multiset(v, keep, hide);
    vstd::seq_lib::lemma_multiset_commutative(h, v.filter(hide));
    assert(partition_multiset(hide_all_spec(v, h, app_id).0, hide_all_spec(v, h, app_id).1)
        =~= partition_multiset(v, h));
}

/// Restoring a profile re-establishes the priority-first ordering and
/// keeps the partition.
pub proof fn lemma_restore_preserves_invariant(
    v: Seq<CommonBrowserProfile>,
    h: Seq<CommonBrowserProfile>,
    id: Seq<char>,
    order: Seq<String>,
)
    requires
        priority_prefix(v),
    ensures
        priority_prefix(restore_spec(v, h, id, order).0),
        partition_multiset(restore_spec(v, h, id, order).0, restore_spec(v, h, id, order).1)
            == partition_multiset(v, h),
{
    broadcast use vstd::seq_lib::group_to_multiset_ensures;

    lemma_index_of_id_bounds(h, id);
    let i = index_of_id(h, id);
    if i < h.len() {
        let p = h[i];
        let v2 = sort_by_key(v.push(p), order);
        lemma_sort_by_key_sorted(v.push(p), order);
        lemma_sorted_priority_prefix(v2, order);
        lemma_sort_by_key_multiset(v.push(p), order);
        h.remove_ensures(i);
        assert(h.contains(p));
        assert(h.to_multiset().count(p) > 0);
        assert(v.push(p).to_multiset() == v.to_multiset().insert(p));
        assert(h.remove(i).to_multiset() == h.to_multiset().remove(p));
        assert(partition_multiset(v2, h.remove(i)) =~= partition_multiset(v, h));
    }
}

/// Moving a profile permutes the visible collection and never disturbs
/// the priority prefix.
pub proof fn lemma_move_preserves_invariant(
    v: Seq<CommonBrowserProfile>,
    id: Seq<char>,
    move_to: MoveTo,
)
    requires
        priority_prefix(v),
    ensures
        priority_prefix(move_spec(v, id, move_to)),
        move_spec(v, id, move_to).to_multiset() == v.to_multiset(),
{
    broadcast use vstd::seq_lib::group_to_multiset_ensures;

    lemma_index_of_id_bounds(v, id);
    lemma_first_non_priority_bounds(v);
    let i = index_of_id(v, id);
    let f = first_non_priority(v);
    let r = move_spec(v, id, move_to);
    if i == v.len() || f == v.len() {
    } else {
        // everything before f is priority, everything from f on is not
        assert forall|k: int| f <= k < v.len() implies !v[k].spec_has_priority() by {
            if k > f {
                assert(!v[f].spec_has_priority());
            }
        }
        let moved = match move_to {
            MoveTo::UP => i > f,
            MoveTo::TOP => i > f,
            MoveTo::DOWN => !(i == v.len() - 1 || i < f),
            MoveTo::BOTTOM => !(i == v.len() - 1 || i < f),
        };
        if moved {
            let rm = v.remove(i);
            v.remove_ensures(i);
            let pos: int = match move_to {
                MoveTo::UP => i - 1,
                MoveTo::TOP => f,
                MoveTo::DOWN => i + 1,
                MoveTo::BOTTOM => rm.len() as int,
            };
            assert(v[i] == v.index(i));
            assert(f <= pos <= rm.len());
            rm.insert_ensures(pos, v[i]);
            assert(r == rm.insert(pos, v[i])) by {
                if move_to is BOTTOM {
                    assert(rm.insert(rm.len() as int, v[i]) =~= rm.push(v[i]));
                }
            }
            assert(v.remove(i).to_multiset() == v.to_multiset().remove(v[i]));
            lemma_seq_insert_multiset(rm, pos, v[i]);
            assert(v.contains(v[i]));
            assert(v.to_multiset().count(v[i]) > 0);
            assert(r.to_multiset() =~= v.to_multiset());
            // the priority prefix is untouched: indices below f map to
            // themselves, everything at or above f stays non-priority
            assert forall|k: int| 0 <= k < r.len() implies (r[k].spec_has_priority() <==> k
                < f) by {
                assert(!v[i].spec_has_priority());
                if k < f {
                    assert(r[k] == rm[k]);
                    assert(rm[k] == v[k]);
                } else {
                    if k < pos {
                        assert(r[k] == rm[k]);
                    } else if k == pos {
                        assert(r[k] == v[i]);
                    } else {
                        assert(r[k] == rm[k - 1]);
                    }
                }
            }
            assert forall|a: int, b: int|
                0 <= a < b < r.len() && r[b].spec_has_priority() implies r[a].spec_has_priority()
            by {}
        }
    }
}

/// `move(id, TOP)` on the first non-priority profile is a no-op.
pub proof fn lemma_move_top_on_first_is_noop(v: Seq<CommonBrowserProfile>, id: Seq<char>)
    requires
        index_of_id(v, id) == first_non_priority(v),
    ensures
        move_spec(v, id, MoveTo::TOP) == v,
{
}

/// `move(id, BOTTOM)` on the last visible profile is a no-op.
pub proof fn lemma_move_bottom_on_last_is_noop(v: Seq<CommonBrowserProfile>, id: Seq<char>)
    requires
        v.len() >= 1,
        index_of_id(v, id) == v.len() - 1,
    ensures
        move_spec(v, id, MoveTo::BOTTOM) == v,
{
}

proof fn lemma_insert_by_key_max(
    p: CommonBrowserProfile,
    s: Seq<CommonBrowserProfile>,
    order: Seq<String>,
)
    requires
        forall|k: int| 0 <= k < s.len() ==> key_le(s[k], p, order),
    ensures
        insert_by_key(p, s, order) == s.push(p),
    decreases s.len(),
{
    if s.len() == 0 {
        assert(insert_by_key(p, s, order) =~= s.push(p));
    } else {
        assert(forall|k: int| 1 <= k < s.len() ==> s[k] == s.skip(1)[k - 1]);
        lemma_insert_by_key_max(p, s.skip(1), order);
        assert(insert_by_key(p, s, order) =~= s.push(p));
    }
}

/// Hiding a visible, unrestricted, unranked profile and then restoring
/// it leaves it visible again, appended after every other visible
/// profile (not necessarily at its original position), and leaves the
/// hidden collection as it was.
pub proof fn lemma_hide_then_restore_appends(
    v: Seq<CommonBrowserProfile>,
    h: Seq<CommonBrowserProfile>,
    id: Seq<char>,
    order: Seq<String>,
)
    requires
        index_of_id(v, id) < v.len(),
        !v[index_of_id(v, id)].spec_has_priority(),
        forall|k: int| 0 <= k < order.len() ==> order[k]@ != id,
        forall|k: int| 0 <= k < h.len() ==> h[k].spec_unique_id() != id,
    ensures
        ({
            let p = v[index_of_id(v, id)];
            let (v1, h1) = hide_spec(v, h, id);
            let (v2, h2) = restore_spec(v1, h1, id, order);
            &&& v2 == sort_by_key(v1, order).push(p)
            &&& v2.len() >= 1 && v2.last().spec_unique_id() == id
            &&& h2 == h
        }),
{
    lemma_index_of_id_bounds(v, id);
    let i = index_of_id(v, id);
    let p = v[i];
    assert(p.spec_unique_id() == id);
    let v1 = v.remove(i);
    let h1 = h.push(p);
    // restore finds p at the end of the hidden collection
    lemma_index_of_id_bounds(h1, id);
    let j = index_of_id(h1, id);
    assert(forall|k: int| 0 <= k < h.len() ==> h1[k] == h[k]);
    assert(h1[h.len() as int] == p);
    assert(j == h.len()) by {
        if j < h.len() {
            assert(h1[j].spec_unique_id() == id);
        }
        if j > h.len() {
            assert(h1[h.len() as int].spec_unique_id() != id);
        }
    }
    assert(h1.remove(h.len() as int) =~= h);
    // p has the greatest key: unrestricted and ranked after everything
    lemma_rank_of_absent(id, order);
    assert forall|x: CommonBrowserProfile| #[trigger] key_le(x, p, order) by {
        lemma_rank_of_bounds(x.spec_unique_id(), order);
    }
    let sv = sort_by_key(v1, order);
    assert(v1.push(p).drop_last() =~= v1);
    assert(v1.push(p).last() == p);
    assert(sort_by_key(v1.push(p), order) == insert_by_key(p, sv, order));
    lemma_insert_by_key_max(p, sv, order);
}

} // verus!
