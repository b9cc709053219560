//! The sidebar's workspace: groups (which may sit inside other groups) and
//! connection profiles (at the root or inside a group), the selection, the
//! inline rename, and where new items go.
//!
//! Groups and profiles are held in two lists. A group names its parent
//! group, which stands earlier in the group list; a profile names the
//! group it sits in. The order of the items inside one group (or at the
//! root) is their order in the list. Writing the workspace to disk is the
//! caller's: the operations that the sidebar saves at once return `true`.

use vstd::prelude::*;

use crate::forms::{ForwardRule, SshAuthChoice};
use crate::ids;
use crate::naming;
use crate::rename_edit::{EditView, RenameEdit, new_view};
use crate::text;

verus! {

#[derive(Debug)]
pub struct Group {
    pub id: u128,
    pub name: String,
    pub collapsed: bool,
    /// The group this one sits in; `None` at the root.
    pub parent: Option<u128>,
}

impl Clone for Group {
    fn clone(&self) -> (c: Self)
        ensures
            c == *self,
    {
        Group { id: self.id, name: self.name.clone(), collapsed: self.collapsed, parent: self.parent }
    }
}

#[derive(Debug)]
pub enum ProfileKind {
    Local { shell: Option<String>, cwd: Option<String> },
    Ssh { host: String, port: u16, user: String, auth: SshAuthChoice },
}

#[derive(Debug)]
pub struct Profile {
    pub id: u128,
    pub name: String,
    pub kind: ProfileKind,
    pub forwards: Vec<ForwardRule>,
}

/// A profile and the group it sits in (`None` at the root).
pub type Placed = (Option<u128>, Profile);

pub struct Workspace {
    pub groups: Vec<Group>,
    pub profiles: Vec<Placed>,
}

#[derive(Clone, Copy, Debug, PartialEq, Eq, Structural)]
pub enum Selection {
    /// Nothing selected.
    Nothing,
    Group(u128),
    Profile(u128),
}

/// Where a new profile or group goes.
#[derive(Clone, Copy, Debug, PartialEq, Eq, Structural)]
pub enum InsertTarget {
    Root,
    Group(u128),
}

pub open spec fn has_group(groups: Seq<Group>, id: u128) -> bool {
    exists|k: int| 0 <= k < groups.len() && (#[trigger] groups[k]).id == id
}

pub open spec fn has_profile(profiles: Seq<Placed>, id: u128) -> bool {
    exists|k: int| 0 <= k < profiles.len() && (#[trigger] profiles[k]).1.id == id
}

/// The workspace invariant: ids are unique, a group's parent stands
/// earlier in the group list, and a profile's group exists.
pub open spec fn ws_wf(groups: Seq<Group>, profiles: Seq<Placed>) -> bool {
    &&& forall|a: int, b: int|
        0 <= a < b < groups.len() ==> (#[trigger] groups[a]).id != (#[trigger] groups[b]).id
    &&& forall|a: int, b: int|
        0 <= a < b < profiles.len() ==> (#[trigger] profiles[a]).1.id != (#[trigger] profiles[b]).1.id
    &&& forall|i: int|
        0 <= i < groups.len() ==> match (#[trigger] groups[i]).parent {
            Some(p) => exists|j: int| 0 <= j < i && (#[trigger] groups[j]).id == p,
            None => true,
        }
    &&& forall|i: int|
        0 <= i < profiles.len() ==> match (#[trigger] profiles[i]).0 {
            Some(g) => has_group(groups, g),
            None => true,
        }
}

/// The group that profile `pid` sits in (`None` at the root or when there
/// is no such profile).
pub open spec fn group_of(profiles: Seq<Placed>, pid: u128) -> Option<u128> {
    if has_profile(profiles, pid) {
        profiles[choose|k: int| 0 <= k < profiles.len() && (#[trigger] profiles[k]).1.id == pid].0
    } else {
        None
    }
}

/// Where new items go for a selection: into the selected group, next to
/// the selected profile, else at the root.
pub open spec fn target_for(sel: Selection, profiles: Seq<Placed>) -> InsertTarget {
    match sel {
        Selection::Group(id) => InsertTarget::Group(id),
        Selection::Profile(pid) => match group_of(profiles, pid) {
            Some(g) => InsertTarget::Group(g),
            None => InsertTarget::Root,
        },
        Selection::Nothing => InsertTarget::Root,
    }
}

/// The names of the groups directly inside `parent`.
pub open spec fn child_group_names(groups: Seq<Group>, parent: Option<u128>) -> Seq<Seq<char>>
    decreases groups.len(),
{
    if groups.len() == 0 {
        Seq::empty()
    } else {
        let rest = child_group_names(groups.drop_last(), parent);
        if groups.last().parent == parent {
            rest.push(groups.last().name@)
        } else {
            rest
        }
    }
}

/// Placement of a new item for a target: the target group when it
/// exists, else the root.
pub open spec fn placement(groups: Seq<Group>, target: InsertTarget) -> Option<u128> {
    match target {
        InsertTarget::Root => None,
        InsertTarget::Group(g) => if has_group(groups, g) {
            Some(g)
        } else {
            None
        },
    }
}

/// `groups` with group `g` expanded.
pub open spec fn expanded(groups: Seq<Group>, g: Option<u128>) -> Seq<Group> {
    groups.map_values(
        |x: Group|
            if Some(x.id) == g {
                Group { collapsed: false, ..x }
            } else {
                x
            },
    )
}

/// The names a new group must differ from: the groups next to it (none
/// when the target group is gone).
pub open spec fn sibling_names(groups: Seq<Group>, target: InsertTarget) -> Seq<Seq<char>> {
    match target {
        InsertTarget::Root => child_group_names(groups, None),
        InsertTarget::Group(g) => if has_group(groups, g) {
            child_group_names(groups, Some(g))
        } else {
            Seq::empty()
        },
    }
}

/// Whether `id` is taken by a group or a profile.
pub open spec fn id_taken(groups: Seq<Group>, profiles: Seq<Placed>, id: u128) -> bool {
    has_group(groups, id) || has_profile(profiles, id)
}

/// Position of the profile `id` (meaningful when it exists).
pub open spec fn profile_index(profiles: Seq<Placed>, id: u128) -> int {
    choose|k: int| 0 <= k < profiles.len() && (#[trigger] profiles[k]).1.id == id
}

/// The profiles after moving profile `pid` right before profile `before`,
/// into `before`'s group (to the end of the root when `before` is gone).
pub open spec fn moved_before(ps: Seq<Placed>, pid: u128, before: u128) -> Seq<Placed> {
    let i = profile_index(ps, pid);
    let q = ps.remove(i);
    if has_profile(q, before) {
        q.insert(profile_index(q, before), (group_of(ps, before), ps[i].1))
    } else {
        q.push((None, ps[i].1))
    }
}

/// The profiles after moving profile `pid` to the end of group `g` (of
/// the root when `g` is gone or `None`).
pub open spec fn moved_to(ps: Seq<Placed>, groups: Seq<Group>, pid: u128, g: Option<u128>) -> Seq<Placed> {
    let i = profile_index(ps, pid);
    let place = match g {
        Some(x) => if has_group(groups, x) {
            Some(x)
        } else {
            None
        },
        None => None,
    };
    ps.remove(i).push((place, ps[i].1))
}

/// Whether group `i` is `root` or sits, directly or not, inside it.
pub open spec fn doomed(groups: Seq<Group>, root: u128, i: int) -> bool
    decreases i,
{
    if i < 0 || i >= groups.len() {
        false
    } else if groups[i].id == root {
        true
    } else {
        match groups[i].parent {
            Some(p) => if exists|j: int| 0 <= j < i && (#[trigger] groups[j]).id == p {
                doomed(groups, root, choose|j: int| 0 <= j < i && (#[trigger] groups[j]).id == p)
            } else {
                false
            },
            None => false,
        }
    }
}

/// The groups of the first `n` that are not in the subtree of `root`.
pub open spec fn kept_groups(groups: Seq<Group>, root: u128, n: int) -> Seq<Group>
    decreases n,
{
    if n <= 0 {
        Seq::empty()
    } else {
        let rest = kept_groups(groups, root, n - 1);
        if doomed(groups, root, n - 1) {
            rest
        } else {
            rest.push(groups[n - 1])
        }
    }
}

/// Ids of the groups in the subtree of `root`.
pub open spec fn subtree_ids(groups: Seq<Group>, root: u128) -> Set<u128> {
    Set::new(|x: u128| exists|j: int| 0 <= j < groups.len() && (#[trigger] groups[j]).id == x && doomed(groups, root, j))
}

/// Whether a placed profile survives removing the groups `gone`.
pub open spec fn survives(p: Placed, gone: Set<u128>) -> bool {
    match p.0 {
        Some(g) => !gone.contains(g),
        None => true,
    }
}

/// The profiles of the first `n` that survive removing the groups `gone`.
pub open spec fn kept_profiles(ps: Seq<Placed>, gone: Set<u128>, n: int) -> Seq<Placed>
    decreases n,
{
    if n <= 0 {
        Seq::empty()
    } else {
        let rest = kept_profiles(ps, gone, n - 1);
        if survives(ps[n - 1], gone) {
            rest.push(ps[n - 1])
        } else {
            rest
        }
    }
}

/// Ids of the profiles of the first `n` removed with the groups `gone`.
pub open spec fn removed_profiles(ps: Seq<Placed>, gone: Set<u128>, n: int) -> Seq<u128>
    decreases n,
{
    if n <= 0 {
        Seq::empty()
    } else {
        let rest = removed_profiles(ps, gone, n - 1);
        if survives(ps[n - 1], gone) {
            rest
        } else {
            rest.push(ps[n - 1].1.id)
        }
    }
}

/// What deleting the selection leaves for the caller: the profiles whose
/// stored passwords to delete, and whether the workspace is now empty
/// (the caller then puts the default workspace in place).
pub struct Deleted {
    pub profiles: Vec<u128>,
    pub emptied: bool,
}

pub struct WorkspaceStore {
    pub workspace: Workspace,
    pub selection: Selection,
    /// The inline rename of the selected item.
    pub rename: Option<RenameEdit>,
    /// Open tabs (profile and title) and the active one, for the next start.
    pub open_tabs: Vec<(u128, Option<String>)>,
    pub active_tab_index: usize,
    /// Changed since the last write.
    pub dirty: bool,
}

impl WorkspaceStore {
    pub open spec fn wf(&self) -> bool {
        ws_wf(self.workspace.groups@, self.workspace.profiles@)
    }

    pub open spec fn is_dirty(&self) -> bool {
        self.dirty
    }

    /// A store over a workspace read from disk.
    pub fn load(workspace: Workspace) -> (s: Self)
        requires
            ws_wf(workspace.groups@, workspace.profiles@),
        ensures
            s.wf(),
            s.workspace == workspace,
            s.selection == Selection::Nothing,
            s.rename is None,
            s.open_tabs@.len() == 0,
            s.active_tab_index == 0,
            !s.is_dirty(),
    {
        WorkspaceStore {
            workspace,
            selection: Selection::Nothing,
            rename: None,
            open_tabs: Vec::new(),
            active_tab_index: 0,
            dirty: false,
        }
    }

    pub fn mark_dirty(&mut self)
        ensures
            final(self).is_dirty(),
            final(self).workspace == old(self).workspace,
            final(self).selection == old(self).selection,
            final(self).rename == old(self).rename,
            final(self).open_tabs == old(self).open_tabs,
            final(self).active_tab_index == old(self).active_tab_index,
    {
        self.dirty = true;
    }

    /// The caller wrote everything to disk.
    pub fn persisted(&mut self)
        ensures
            !final(self).is_dirty(),
            final(self).workspace == old(self).workspace,
            final(self).selection == old(self).selection,
            final(self).rename == old(self).rename,
            final(self).open_tabs == old(self).open_tabs,
            final(self).active_tab_index == old(self).active_tab_index,
    {
        self.dirty = false;
    }

    /// Whether there is anything to write.
    pub fn persist_if_dirty(&self) -> (write: bool)
        ensures
            write == self.is_dirty(),
    {
        self.dirty
    }

    fn group_position(&self, id: u128) -> (k: Option<usize>)
        requires
            self.wf(),
        ensures
            match k {
                Some(i) => i < self.workspace.groups@.len() && self.workspace.groups@[i as int].id == id,
                None => !has_group(self.workspace.groups@, id),
            },
    {
        let mut i: usize = 0;
        while i < self.workspace.groups.len()
            invariant
                0 <= i <= self.workspace.groups@.len(),
                forall|k: int| 0 <= k < i ==> (#[trigger] self.workspace.groups@[k]).id != id,
            decreases self.workspace.groups@.len() - i,
        {
            if self.workspace.groups[i].id == id {
                return Some(i);
            }
            i += 1;
        }
        None
    }

    fn profile_position(&self, id: u128) -> (k: Option<usize>)
        requires
            self.wf(),
        ensures
            match k {
                Some(i) => i < self.workspace.profiles@.len() && self.workspace.profiles@[i as int].1.id
                    == id,
                None => !has_profile(self.workspace.profiles@, id),
            },
    {
        let mut i: usize = 0;
        while i < self.workspace.profiles.len()
            invariant
                0 <= i <= self.workspace.profiles@.len(),
                forall|k: int| 0 <= k < i ==> (#[trigger] self.workspace.profiles@[k]).1.id != id,
            decreases self.workspace.profiles@.len() - i,
        {
            if self.workspace.profiles[i].1.id == id {
                return Some(i);
            }
            i += 1;
        }
        None
    }

    /// The group that profile `pid` sits in.
    pub fn group_id_for_profile(&self, pid: u128) -> (g: Option<u128>)
        requires
            self.wf(),
        ensures
            g == group_of(self.workspace.profiles@, pid),
    {
        match self.profile_position(pid) {
            Some(i) => {
                proof {
                    let c = choose|k: int|
                        0 <= k < self.workspace.profiles@.len() && (#[trigger] self.workspace.profiles@[k]).1.id
                            == pid;
                    if c != i {
                        if c < i {
                            assert(self.workspace.profiles@[c].1.id != self.workspace.profiles@[i as int].1.id);
                        } else {
                            assert(self.workspace.profiles@[i as int].1.id != self.workspace.profiles@[c].1.id);
                        }
                    }
                }
                self.workspace.profiles[i].0
            },
            None => None,
        }
    }

    /// Where "New …" puts its item for the current selection.
    pub fn insert_target(&self) -> (t: InsertTarget)
        requires
            self.wf(),
        ensures
            t == target_for(self.selection, self.workspace.profiles@),
    {
        match self.selection {
            Selection::Group(id) => InsertTarget::Group(id),
            Selection::Profile(pid) => match self.group_id_for_profile(pid) {
                Some(g) => InsertTarget::Group(g),
                None => InsertTarget::Root,
            },
            Selection::Nothing => InsertTarget::Root,
        }
    }

    /// Selecting another item ends its rename.
    pub fn select_group(&mut self, id: u128)
        ensures
            final(self).selection == Selection::Group(id),
            final(self).rename == if old(self).selection == Selection::Group(id) {
                old(self).rename
            } else {
                None
            },
            final(self).workspace == old(self).workspace,
            final(self).open_tabs == old(self).open_tabs,
            final(self).active_tab_index == old(self).active_tab_index,
            final(self).is_dirty() == old(self).is_dirty(),
    {
        if self.selection != Selection::Group(id) {
            self.rename = None;
        }
        self.selection = Selection::Group(id);
    }

    pub fn select_profile(&mut self, id: u128)
        ensures
            final(self).selection == Selection::Profile(id),
            final(self).rename == if old(self).selection == Selection::Profile(id) {
                old(self).rename
            } else {
                None
            },
            final(self).workspace == old(self).workspace,
            final(self).open_tabs == old(self).open_tabs,
            final(self).active_tab_index == old(self).active_tab_index,
            final(self).is_dirty() == old(self).is_dirty(),
    {
        if self.selection != Selection::Profile(id) {
            self.rename = None;
        }
        self.selection = Selection::Profile(id);
    }

    /// Sets the `collapsed` flag of group `i`.
    fn set_collapsed(&mut self, i: usize, collapsed: bool)
        requires
            old(self).wf(),
            i < old(self).workspace.groups@.len(),
        ensures
            final(self).wf(),
            final(self).workspace.groups@ == old(self).workspace.groups@.update(
                i as int,
                Group { collapsed, ..old(self).workspace.groups@[i as int] },
            ),
            final(self).workspace.profiles == old(self).workspace.profiles,
            final(self).selection == old(self).selection,
            final(self).rename == old(self).rename,
            final(self).open_tabs == old(self).open_tabs,
            final(self).active_tab_index == old(self).active_tab_index,
            final(self).is_dirty() == old(self).is_dirty(),
    {
        let g = self.workspace.groups[i].clone();
        self.workspace.groups.set(i, Group { collapsed, ..g });
        proof {
            let og = old(self).workspace.groups@;
            let ng = self.workspace.groups@;
            assert forall|a: int| 0 <= a < ng.len() implies (#[trigger] ng[a]).id == og[a].id && ng[a].parent
                == og[a].parent by {}
            assert forall|x: int| 0 <= x < ng.len() implies match (#[trigger] ng[x]).parent {
                Some(p) => exists|j: int| 0 <= j < x && (#[trigger] ng[j]).id == p,
                None => true,
            } by {
                if let Some(p) = og[x].parent {
                    let j = choose|j: int| 0 <= j < x && (#[trigger] og[j]).id == p;
                    assert(ng[j].id == p);
                }
            }
            assert forall|x: int| 0 <= x < self.workspace.profiles@.len() implies match (
            #[trigger] self.workspace.profiles@[x]).0 {
                Some(g) => has_group(ng, g),
                None => true,
            } by {
                if let Some(gid) = self.workspace.profiles@[x].0 {
                    assert(has_group(og, gid));
                    let j = choose|j: int| 0 <= j < og.len() && (#[trigger] og[j]).id == gid;
                    assert(ng[j].id == gid);
                }
            }
        }
    }

    /// Expands or collapses group `id`; returns whether it exists.
    pub fn toggle_group(&mut self, id: u128) -> (found: bool)
        requires
            old(self).wf(),
        ensures
            final(self).wf(),
            found == has_group(old(self).workspace.groups@, id),
            found ==> final(self).workspace.groups@ == old(self).workspace.groups@.map_values(
                |g: Group|
                    if g.id == id {
                        Group { collapsed: !g.collapsed, ..g }
                    } else {
                        g
                    },
            ) && final(self).is_dirty(),
            !found ==> final(self).workspace.groups == old(self).workspace.groups && final(self).is_dirty()
                == old(self).is_dirty(),
            final(self).workspace.profiles == old(self).workspace.profiles,
            final(self).selection == old(self).selection,
            final(self).rename == old(self).rename,
    {
        match self.group_position(id) {
            None => false,
            Some(i) => {
                let c = self.workspace.groups[i].collapsed;
                self.set_collapsed(i, !c);
                self.dirty = true;
                proof {
                    let og = old(self).workspace.groups@;
                    let f = |g: Group|
                        if g.id == id {
                            Group { collapsed: !g.collapsed, ..g }
                        } else {
                            g
                        };
                    assert forall|a: int| 0 <= a < og.len() implies #[trigger] self.workspace.groups@[a]
                        == og.map_values(f)[a] by {
                        if a != i {
                            if a < i {
                                assert(og[a].id != og[i as int].id);
                            } else {
                                assert(og[i as int].id != og[a].id);
                            }
                        }
                    }
                    assert(self.workspace.groups@ =~= og.map_values(f));
                }
                true
            },
        }
    }

    /// Clears the `collapsed` flag of the group the new item goes into.
    fn expand_placement(&mut self, place: Option<u128>)
        requires
            old(self).wf(),
            place matches Some(g) ==> has_group(old(self).workspace.groups@, g),
        ensures
            final(self).wf(),
            final(self).workspace.groups@ == expanded(old(self).workspace.groups@, place),
            final(self).workspace.profiles == old(self).workspace.profiles,
            final(self).selection == old(self).selection,
            final(self).rename == old(self).rename,
            final(self).open_tabs == old(self).open_tabs,
            final(self).active_tab_index == old(self).active_tab_index,
            final(self).is_dirty() == old(self).is_dirty(),
    {
        let ghost og = self.workspace.groups@;
        match place {
            None => {
                assert(self.workspace.groups@ =~= expanded(og, place));
            },
            Some(g) => {
                match self.group_position(g) {
                    None => {},
                    Some(i) => {
                        self.set_collapsed(i, false);
                        proof {
                            assert forall|a: int| 0 <= a < og.len() implies #[trigger] self.workspace.groups@[a]
                                == expanded(og, place)[a] by {
                                if a != i {
                                    if a < i {
                                        assert(og[a].id != og[i as int].id);
                                    } else {
                                        assert(og[i as int].id != og[a].id);
                                    }
                                }
                            }
                            assert(self.workspace.groups@ =~= expanded(og, place));
                        }
                    },
                }
            },
        }
    }

    /// Where an item for `target` goes (`placement`).
    fn placement_of(&self, target: InsertTarget) -> (p: Option<u128>)
        requires
            self.wf(),
        ensures
            p == placement(self.workspace.groups@, target),
    {
        match target {
            InsertTarget::Root => None,
            InsertTarget::Group(g) => if self.group_position(g).is_some() {
                Some(g)
            } else {
                None
            },
        }
    }

    /// Puts a profile with a new id into `target` (its group expanded),
    /// selects it, and marks the workspace changed.
    fn place_new(&mut self, profile: Profile, target: InsertTarget)
        requires
            old(self).wf(),
            !has_profile(old(self).workspace.profiles@, profile.id),
        ensures
            final(self).wf(),
            final(self).workspace.profiles@ == old(self).workspace.profiles@.push(
                (placement(old(self).workspace.groups@, target), profile),
            ),
            final(self).workspace.groups@ == expanded(
                old(self).workspace.groups@,
                placement(old(self).workspace.groups@, target),
            ),
            final(self).selection == Selection::Profile(profile.id),
            final(self).rename == old(self).rename,
            final(self).open_tabs == old(self).open_tabs,
            final(self).active_tab_index == old(self).active_tab_index,
            final(self).is_dirty(),
    {
        let place = self.placement_of(target);
        let id = profile.id;
        let ghost old_profiles = self.workspace.profiles@;
        self.workspace.profiles.push((place, profile));
        proof {
            let np = self.workspace.profiles@;
            assert forall|a: int, b: int| 0 <= a < b < np.len() implies (#[trigger] np[a]).1.id != (
            #[trigger] np[b]).1.id by {
                if b == np.len() - 1 {
                    assert(np[a] == old_profiles[a]);
                } else {
                    assert(np[a] == old_profiles[a] && np[b] == old_profiles[b]);
                }
            }
            assert forall|x: int| 0 <= x < np.len() implies match (#[trigger] np[x]).0 {
                Some(g) => has_group(self.workspace.groups@, g),
                None => true,
            } by {
                if x < old_profiles.len() {
                    assert(np[x] == old_profiles[x]);
                }
            }
        }
        self.expand_placement(place);
        self.selection = Selection::Profile(id);
        self.dirty = true;
    }

    /// "New Shell": a Local profile named `"Shell {n}"` (the first free
    /// number among all profiles), placed for the selection and selected.
    /// Returns its id; `None` only when the random id is already taken.
    pub fn add_local_profile(&mut self) -> (id: Option<u128>)
        requires
            old(self).wf(),
        ensures
            final(self).wf(),
            match id {
                Some(pid) => {
                    let place = placement(
                        old(self).workspace.groups@,
                        target_for(old(self).selection, old(self).workspace.profiles@),
                    );
                    &&& final(self).workspace.profiles@.len() == old(self).workspace.profiles@.len() + 1
                    &&& final(self).workspace.profiles@.drop_last() == old(self).workspace.profiles@
                    &&& final(self).workspace.profiles@.last().0 == place
                    &&& final(self).workspace.profiles@.last().1.id == pid
                    &&& naming::first_free_name(
                        final(self).workspace.profiles@.last().1.name@,
                        "Shell"@,
                        old(self).workspace.profiles@.map_values(|p: Placed| p.1.name@),
                        1,
                    )
                    &&& final(self).workspace.profiles@.last().1.kind matches ProfileKind::Local {
                        shell: None,
                        cwd: None,
                    }
                    &&& final(self).workspace.profiles@.last().1.forwards@.len() == 0
                    &&& final(self).workspace.groups@ == expanded(old(self).workspace.groups@, place)
                    &&& final(self).selection == Selection::Profile(pid)
                    &&& final(self).is_dirty()
                },
                None => {
                    &&& final(self).workspace == old(self).workspace
                    &&& final(self).selection == old(self).selection
                    &&& exists|x: u128| #[trigger] has_profile(old(self).workspace.profiles@, x)
                },
            },
    {
        let names = self.all_profile_names();
        let name = naming::unique_name("Shell", names.as_slice());
        let id = ids::new_id();
        if self.profile_position(id).is_some() {
            assert(has_profile(self.workspace.profiles@, id));
            return None;
        }
        let target = self.insert_target();
        let profile = Profile {
            id,
            name,
            kind: ProfileKind::Local { shell: None, cwd: None },
            forwards: Vec::new(),
        };
        self.place_new(profile, target);
        assert(self.workspace.profiles@.drop_last() =~= old(self).workspace.profiles@);
        Some(id)
    }

    /// Saves a new SSH profile from the form, placed for the selection and
    /// selected; refused when its id is already taken.
    pub fn add_ssh_profile(&mut self, profile: Profile) -> (added: bool)
        requires
            old(self).wf(),
        ensures
            final(self).wf(),
            added == !has_profile(old(self).workspace.profiles@, profile.id),
            added ==> final(self).workspace.profiles@ == old(self).workspace.profiles@.push(
                (
                    placement(
                        old(self).workspace.groups@,
                        target_for(old(self).selection, old(self).workspace.profiles@),
                    ),
                    profile,
                ),
            ) && final(self).selection == Selection::Profile(profile.id) && final(self).is_dirty(),
            !added ==> final(self).workspace == old(self).workspace && final(self).selection == old(self).selection,
    {
        if self.profile_position(profile.id).is_some() {
            return false;
        }
        let target = self.insert_target();
        self.place_new(profile, target);
        true
    }

    /// Puts a profile into the root or a group ("Save to …"); refused when
    /// its id is already taken.
    pub fn place_profile(&mut self, profile: Profile, target: InsertTarget) -> (id: Option<u128>)
        requires
            old(self).wf(),
        ensures
            final(self).wf(),
            id is Some == !has_profile(old(self).workspace.profiles@, profile.id),
            id is Some ==> id == Some(profile.id) && final(self).workspace.profiles@ == old(self).workspace.profiles@.push((placement(old(self).workspace.groups@, target), profile))
                && final(self).workspace.groups@ == expanded(
                old(self).workspace.groups@,
                placement(old(self).workspace.groups@, target),
            ) && final(self).selection == Selection::Profile(profile.id) && final(self).is_dirty(),
            id is None ==> final(self).workspace == old(self).workspace,
    {
        if self.profile_position(profile.id).is_some() {
            return None;
        }
        let id = profile.id;
        self.place_new(profile, target);
        Some(id)
    }

    /// "New Group": a group named `"Group {n}"` (the first number free
    /// among its siblings), placed for the selection (expanding its parent)
    /// and selected. Returns its id; `None` only when the random id is
    /// already taken.
    pub fn add_group(&mut self) -> (id: Option<u128>)
        requires
            old(self).wf(),
        ensures
            final(self).wf(),
            match id {
                Some(gid) => {
                    let target = target_for(old(self).selection, old(self).workspace.profiles@);
                    let place = placement(old(self).workspace.groups@, target);
                    &&& final(self).workspace.groups@.len() == old(self).workspace.groups@.len() + 1
                    &&& final(self).workspace.groups@.drop_last() == expanded(
                        old(self).workspace.groups@,
                        place,
                    )
                    &&& final(self).workspace.groups@.last().id == gid
                    &&& final(self).workspace.groups@.last().parent == place
                    &&& !final(self).workspace.groups@.last().collapsed
                    &&& naming::first_free_name(
                        final(self).workspace.groups@.last().name@,
                        "Group"@,
                        sibling_names(old(self).workspace.groups@, target),
                        1,
                    )
                    &&& final(self).workspace.profiles == old(self).workspace.profiles
                    &&& final(self).selection == Selection::Group(gid)
                    &&& final(self).is_dirty()
                },
                None => {
                    &&& final(self).workspace == old(self).workspace
                    &&& final(self).selection == old(self).selection
                    &&& exists|x: u128| #[trigger] id_taken(old(self).workspace.groups@, old(self).workspace.profiles@, x)
                },
            },
    {
        let target = self.insert_target();
        let siblings: Vec<String> = match target {
            InsertTarget::Root => self.group_names_in(None),
            InsertTarget::Group(g) => if self.group_position(g).is_some() {
                self.group_names_in(Some(g))
            } else {
                Vec::new()
            },
        };
        proof {
            if let InsertTarget::Group(g) = target {
                if !has_group(self.workspace.groups@, g) {
                    assert(naming::names(siblings@) =~= Seq::<Seq<char>>::empty());
                }
            }
        }
        let name = naming::unique_name("Group", siblings.as_slice());
        let id = ids::new_id();
        if self.group_position(id).is_some() || self.profile_position(id).is_some() {
            assert(id_taken(self.workspace.groups@, self.workspace.profiles@, id));
            return None;
        }
        let place = self.placement_of(target);
        self.expand_placement(place);
        let ghost mid = self.workspace.groups@;
        self.workspace.groups.push(Group { id, name, collapsed: false, parent: place });
        proof {
            let ng = self.workspace.groups@;
            assert(ng.drop_last() =~= mid);
            assert forall|a: int| 0 <= a < mid.len() implies (#[trigger] mid[a]).id == old(self).workspace.groups@[a].id
                && mid[a].parent == old(self).workspace.groups@[a].parent by {}
            assert forall|a: int, b: int| 0 <= a < b < ng.len() implies (#[trigger] ng[a]).id != (
            #[trigger] ng[b]).id by {
                if b == ng.len() - 1 {
                    assert(ng[a] == mid[a]);
                    assert(old(self).workspace.groups@[a].id == ng[a].id);
                } else {
                    assert(ng[a] == mid[a] && ng[b] == mid[b]);
                    assert(old(self).workspace.groups@[a].id != old(self).workspace.groups@[b].id);
                }
            }
            assert forall|x: int| 0 <= x < ng.len() implies match (#[trigger] ng[x]).parent {
                Some(p) => exists|j: int| 0 <= j < x && (#[trigger] ng[j]).id == p,
                None => true,
            } by {
                if x == ng.len() - 1 {
                    if let Some(p) = place {
                        let j = choose|j: int|
                            0 <= j < old(self).workspace.groups@.len() && (#[trigger] old(self).workspace.groups@[j]).id == p;
                        assert(ng[j] == mid[j]);
                        assert(ng[j].id == p);
                    }
                } else {
                    assert(ng[x] == mid[x]);
                    if let Some(p) = old(self).workspace.groups@[x].parent {
                        let j = choose|j: int| 0 <= j < x && (#[trigger] old(self).workspace.groups@[j]).id == p;
                        assert(ng[j] == mid[j]);
                    }
                }
            }
            assert forall|x: int| 0 <= x < self.workspace.profiles@.len() implies match (
            #[trigger] self.workspace.profiles@[x]).0 {
                Some(g) => has_group(ng, g),
                None => true,
            } by {
                if let Some(g) = self.workspace.profiles@[x].0 {
                    assert(has_group(mid, g));
                    let j = choose|j: int| 0 <= j < mid.len() && (#[trigger] mid[j]).id == g;
                    assert(ng[j] == mid[j]);
                }
            }
        }
        self.selection = Selection::Group(id);
        self.dirty = true;
        Some(id)
    }

    /// Takes profile `pid` out of the list.
    fn take_profile(&mut self, pid: u128) -> (taken: Option<Placed>)
        requires
            old(self).wf(),
        ensures
            final(self).wf(),
            taken is Some == has_profile(old(self).workspace.profiles@, pid),
            taken matches Some(t) ==> {
                let i = profile_index(old(self).workspace.profiles@, pid);
                &&& 0 <= i < old(self).workspace.profiles@.len()
                &&& old(self).workspace.profiles@[i].1.id == pid
                &&& t == old(self).workspace.profiles@[i]
                &&& final(self).workspace.profiles@ == old(self).workspace.profiles@.remove(i)
            },
            taken is None ==> final(self).workspace.profiles == old(self).workspace.profiles,
            final(self).workspace.groups == old(self).workspace.groups,
            final(self).selection == old(self).selection,
            final(self).rename == old(self).rename,
            final(self).open_tabs == old(self).open_tabs,
            final(self).active_tab_index == old(self).active_tab_index,
            final(self).is_dirty() == old(self).is_dirty(),
    {
        match self.profile_position(pid) {
            None => None,
            Some(i) => {
                let ghost op = self.workspace.profiles@;
                proof {
                    let c = profile_index(op, pid);
                    assert(op[i as int].1.id == pid);
                    if c != i {
                        if c < i {
                            assert(op[c].1.id != op[i as int].1.id);
                        } else {
                            assert(op[i as int].1.id != op[c].1.id);
                        }
                    }
                }
                let t = self.workspace.profiles.remove(i);
                proof {
                    let np = self.workspace.profiles@;
                    assert forall|a: int, b: int| 0 <= a < b < np.len() implies (#[trigger] np[a]).1.id
                        != (#[trigger] np[b]).1.id by {
                        let oa = if a < i { a } else { a + 1 };
                        let ob = if b < i { b } else { b + 1 };
                        assert(np[a] == op[oa] && np[b] == op[ob]);
                    }
                    assert forall|x: int| 0 <= x < np.len() implies match (#[trigger] np[x]).0 {
                        Some(g) => has_group(self.workspace.groups@, g),
                        None => true,
                    } by {
                        let ox = if x < i { x } else { x + 1 };
                        assert(np[x] == op[ox]);
                    }
                }
                Some(t)
            },
        }
    }

    /// Puts `placed` at position `at` of the profile list.
    fn insert_placed(&mut self, at: usize, placed: Placed)
        requires
            old(self).wf(),
            at <= old(self).workspace.profiles@.len(),
            !has_profile(old(self).workspace.profiles@, placed.1.id),
            placed.0 matches Some(g) ==> has_group(old(self).workspace.groups@, g),
        ensures
            final(self).wf(),
            final(self).workspace.profiles@ == old(self).workspace.profiles@.insert(at as int, placed),
            final(self).workspace.groups == old(self).workspace.groups,
            final(self).selection == old(self).selection,
            final(self).rename == old(self).rename,
            final(self).open_tabs == old(self).open_tabs,
            final(self).active_tab_index == old(self).active_tab_index,
            final(self).is_dirty() == old(self).is_dirty(),
    {
        let ghost op = self.workspace.profiles@;
        self.workspace.profiles.insert(at, placed);
        proof {
            let np = self.workspace.profiles@;
            assert forall|a: int, b: int| 0 <= a < b < np.len() implies (#[trigger] np[a]).1.id != (
            #[trigger] np[b]).1.id by {
                if a == at {
                    assert(np[b] == op[b - 1]);
                } else if b == at {
                    assert(np[a] == op[a]);
                } else {
                    let oa = if a < at { a } else { a - 1 };
                    let ob = if b < at { b } else { b - 1 };
                    assert(np[a] == op[oa] && np[b] == op[ob]);
                }
            }
            assert forall|x: int| 0 <= x < np.len() implies match (#[trigger] np[x]).0 {
                Some(g) => has_group(self.workspace.groups@, g),
                None => true,
            } by {
                if x != at {
                    let ox = if x < at { x } else { x - 1 };
                    assert(np[x] == op[ox]);
                }
            }
        }
    }

    /// Drag of a profile onto a group: moves it to the end of that group
    /// (of the root when the group is gone) and expands the group.
    pub fn move_profile_to_group(&mut self, pid: u128, group: u128) -> (moved: bool)
        requires
            old(self).wf(),
        ensures
            final(self).wf(),
            moved == has_profile(old(self).workspace.profiles@, pid),
            moved ==> final(self).workspace.profiles@ == moved_to(
                old(self).workspace.profiles@,
                old(self).workspace.groups@,
                pid,
                Some(group),
            ) && final(self).workspace.groups@ == expanded(
                old(self).workspace.groups@,
                placement(old(self).workspace.groups@, InsertTarget::Group(group)),
            ) && final(self).is_dirty(),
            !moved ==> final(self).workspace == old(self).workspace,
            final(self).selection == old(self).selection,
    {
        let (_, profile) = match self.take_profile(pid) {
            None => {
                return false;
            },
            Some(t) => t,
        };
        let place = self.placement_of(InsertTarget::Group(group));
        let n = self.workspace.profiles.len();
        self.insert_placed(n, (place, profile));
        self.expand_placement(place);
        self.dirty = true;
        true
    }

    /// Drag of a profile onto the root: moves it to the end of the root and
    /// selects it.
    pub fn move_profile_to_root(&mut self, pid: u128) -> (moved: bool)
        requires
            old(self).wf(),
        ensures
            final(self).wf(),
            moved == has_profile(old(self).workspace.profiles@, pid),
            moved ==> final(self).workspace.profiles@ == moved_to(
                old(self).workspace.profiles@,
                old(self).workspace.groups@,
                pid,
                None,
            ) && final(self).workspace.groups == old(self).workspace.groups && final(self).selection
                == Selection::Profile(pid) && final(self).is_dirty(),
            !moved ==> final(self).workspace == old(self).workspace && final(self).selection == old(self).selection,
    {
        let (_, profile) = match self.take_profile(pid) {
            None => {
                return false;
            },
            Some(t) => t,
        };
        let n = self.workspace.profiles.len();
        self.insert_placed(n, (None, profile));
        self.selection = Selection::Profile(pid);
        self.dirty = true;
        true
    }

    /// Drag of a profile onto another one: it goes right before `before`,
    /// in `before`'s group (expanded), and is selected.
    pub fn move_profile_before(&mut self, pid: u128, before: u128) -> (moved: bool)
        requires
            old(self).wf(),
        ensures
            final(self).wf(),
            moved == (pid != before && has_profile(old(self).workspace.profiles@, pid)),
            moved ==> final(self).workspace.profiles@ == moved_before(
                old(self).workspace.profiles@,
                pid,
                before,
            ) && final(self).workspace.groups@ == expanded(
                old(self).workspace.groups@,
                group_of(old(self).workspace.profiles@, before),
            ) && final(self).selection == Selection::Profile(pid) && final(self).is_dirty(),
            !moved ==> final(self).workspace == old(self).workspace && final(self).selection == old(self).selection,
    {
        if pid == before {
            return false;
        }
        let parent = self.group_id_for_profile(before);
        proof {
            if let Some(g) = parent {
                let k = profile_index(old(self).workspace.profiles@, before);
                assert(old(self).workspace.profiles@[k].0 == Some(g));
            }
        }
        let (_, profile) = match self.take_profile(pid) {
            None => {
                return false;
            },
            Some(t) => t,
        };
        match self.profile_position(before) {
            Some(j) => {
                proof {
                    let q = self.workspace.profiles@;
                    let c = profile_index(q, before);
                    if c != j {
                        if c < j {
                            assert(q[c].1.id != q[j as int].1.id);
                        } else {
                            assert(q[j as int].1.id != q[c].1.id);
                        }
                    }
                }
                self.insert_placed(j, (parent, profile));
            },
            None => {
                let n = self.workspace.profiles.len();
                proof {
                    if has_profile(old(self).workspace.profiles@, before) {
                        let k = profile_index(old(self).workspace.profiles@, before);
                        let i = profile_index(old(self).workspace.profiles@, pid);
                        let q = self.workspace.profiles@;
                        let nk = if k < i { k } else { k - 1 };
                        assert(q[nk] == old(self).workspace.profiles@[k]);
                    }
                }
                self.insert_placed(n, (None, profile));
            },
        }
        self.expand_placement(parent);
        self.selection = Selection::Profile(pid);
        self.dirty = true;
        true
    }

    /// Removes group `root` with the groups and profiles inside it; returns
    /// the ids of the removed profiles.
    fn remove_group_tree(&mut self, root: u128) -> (removed: Vec<u128>)
        requires
            old(self).wf(),
        ensures
            final(self).wf(),
            final(self).workspace.groups@ == kept_groups(
                old(self).workspace.groups@,
                root,
                old(self).workspace.groups@.len() as int,
            ),
            final(self).workspace.profiles@ == kept_profiles(
                old(self).workspace.profiles@,
                subtree_ids(old(self).workspace.groups@, root),
                old(self).workspace.profiles@.len() as int,
            ),
            removed@ == removed_profiles(
                old(self).workspace.profiles@,
                subtree_ids(old(self).workspace.groups@, root),
                old(self).workspace.profiles@.len() as int,
            ),
            final(self).selection == old(self).selection,
            final(self).rename == old(self).rename,
            final(self).open_tabs == old(self).open_tabs,
            final(self).active_tab_index == old(self).active_tab_index,
            final(self).is_dirty() == old(self).is_dirty(),
    {
        let ghost og = self.workspace.groups@;
        let ghost op = self.workspace.profiles@;
        let (kept, gone_ids) = split_groups(&self.workspace.groups, root);
        let mut src: Vec<Placed> = Vec::new();
        std::mem::swap(&mut src, &mut self.workspace.profiles);
        let (kept_ps, removed) = split_profiles(src, &gone_ids, Ghost(subtree_ids(og, root)), Ghost(og));
        proof {
            assert forall|x: int| 0 <= x < kept_ps@.len() implies match (#[trigger] kept_ps@[x]).0 {
                Some(g) => has_group(kept@, g),
                None => true,
            } by {
                if let Some(g) = kept_ps@[x].0 {
                    let c = choose|c: int| 0 <= c < og.len() && (#[trigger] og[c]).id == g;
                    if doomed(og, root, c) {
                        assert(subtree_ids(og, root).contains(g));
                    }
                }
            }
        }
        self.workspace.groups = kept;
        self.workspace.profiles = kept_ps;
        removed
    }

    /// Replaces the profile at `i` by one with the same id.
    fn replace_profile(&mut self, i: usize, p: Profile)
        requires
            old(self).wf(),
            i < old(self).workspace.profiles@.len(),
            p.id == old(self).workspace.profiles@[i as int].1.id,
        ensures
            final(self).wf(),
            final(self).workspace.profiles@ == old(self).workspace.profiles@.update(
                i as int,
                (old(self).workspace.profiles@[i as int].0, p),
            ),
            final(self).workspace.groups == old(self).workspace.groups,
            final(self).selection == old(self).selection,
            final(self).rename == old(self).rename,
            final(self).open_tabs == old(self).open_tabs,
            final(self).active_tab_index == old(self).active_tab_index,
            final(self).is_dirty() == old(self).is_dirty(),
    {
        let ghost op = self.workspace.profiles@;
        let (tag, _old) = self.workspace.profiles.remove(i);
        self.workspace.profiles.insert(i, (tag, p));
        proof {
            let np = self.workspace.profiles@;
            assert(np =~= op.update(i as int, (op[i as int].0, p)));
            assert forall|a: int, b: int| 0 <= a < b < np.len() implies (#[trigger] np[a]).1.id != (
            #[trigger] np[b]).1.id by {
                assert(op[a].1.id != op[b].1.id);
            }
            assert forall|x: int| 0 <= x < np.len() implies match (#[trigger] np[x]).0 {
                Some(g) => has_group(self.workspace.groups@, g),
                None => true,
            } by {
                assert(np[x].0 == op[x].0);
            }
        }
    }

    /// Replaces the group at `i` by one with the same id and parent.
    fn replace_group(&mut self, i: usize, g: Group)
        requires
            old(self).wf(),
            i < old(self).workspace.groups@.len(),
            g.id == old(self).workspace.groups@[i as int].id,
            g.parent == old(self).workspace.groups@[i as int].parent,
        ensures
            final(self).wf(),
            final(self).workspace.groups@ == old(self).workspace.groups@.update(i as int, g),
            final(self).workspace.profiles == old(self).workspace.profiles,
            final(self).selection == old(self).selection,
            final(self).rename == old(self).rename,
            final(self).open_tabs == old(self).open_tabs,
            final(self).active_tab_index == old(self).active_tab_index,
            final(self).is_dirty() == old(self).is_dirty(),
    {
        let ghost og = self.workspace.groups@;
        self.workspace.groups.set(i, g);
        proof {
            let ng = self.workspace.groups@;
            assert forall|a: int| 0 <= a < ng.len() implies (#[trigger] ng[a]).id == og[a].id && ng[a].parent
                == og[a].parent by {}
            assert forall|x: int| 0 <= x < ng.len() implies match (#[trigger] ng[x]).parent {
                Some(p) => exists|j: int| 0 <= j < x && (#[trigger] ng[j]).id == p,
                None => true,
            } by {
                if let Some(p) = og[x].parent {
                    let j = choose|j: int| 0 <= j < x && (#[trigger] og[j]).id == p;
                    assert(ng[j].id == p);
                }
            }
            assert forall|x: int| 0 <= x < self.workspace.profiles@.len() implies match (
            #[trigger] self.workspace.profiles@[x]).0 {
                Some(gid) => has_group(ng, gid),
                None => true,
            } by {
                if let Some(gid) = self.workspace.profiles@[x].0 {
                    let j = choose|j: int| 0 <= j < og.len() && (#[trigger] og[j]).id == gid;
                    assert(ng[j].id == gid);
                }
            }
        }
    }

    /// Delete on the selection: a profile, or a group with everything in
    /// it. Returns the profiles whose stored passwords the caller deletes
    /// and whether the workspace is now empty; `None` without a selection.
    pub fn delete_selection(&mut self) -> (deleted: Option<Deleted>)
        requires
            old(self).wf(),
        ensures
            final(self).wf(),
            match old(self).selection {
                Selection::Nothing => deleted is None && final(self).workspace == old(self).workspace
                    && final(self).selection == old(self).selection,
                Selection::Profile(pid) => deleted matches Some(d) && d.profiles@ == seq![pid]
                    && !d.emptied && final(self).workspace.groups == old(self).workspace.groups
                    && final(self).workspace.profiles@ == (if has_profile(
                    old(self).workspace.profiles@,
                    pid,
                ) {
                    old(self).workspace.profiles@.remove(profile_index(old(self).workspace.profiles@, pid))
                } else {
                    old(self).workspace.profiles@
                }) && final(self).selection == Selection::Nothing && final(self).is_dirty(),
                Selection::Group(gid) => deleted matches Some(d) && final(self).workspace.groups@
                    == kept_groups(old(self).workspace.groups@, gid, old(self).workspace.groups@.len() as int)
                    && final(self).workspace.profiles@ == kept_profiles(
                    old(self).workspace.profiles@,
                    subtree_ids(old(self).workspace.groups@, gid),
                    old(self).workspace.profiles@.len() as int,
                ) && d.profiles@ == removed_profiles(
                    old(self).workspace.profiles@,
                    subtree_ids(old(self).workspace.groups@, gid),
                    old(self).workspace.profiles@.len() as int,
                ) && d.emptied == (final(self).workspace.groups@.len() == 0
                    && final(self).workspace.profiles@.len() == 0) && final(self).selection
                    == Selection::Nothing && final(self).is_dirty(),
            },
    {
        match self.selection {
            Selection::Nothing => None,
            Selection::Profile(pid) => {
                let _ = self.take_profile(pid);
                self.selection = Selection::Nothing;
                self.dirty = true;
                Some(Deleted { profiles: vec![pid], emptied: false })
            },
            Selection::Group(gid) => {
                let removed = self.remove_group_tree(gid);
                let emptied = self.workspace.groups.len() == 0 && self.workspace.profiles.len() == 0;
                self.selection = Selection::Nothing;
                self.dirty = true;
                Some(Deleted { profiles: removed, emptied })
            },
        }
    }

    /// The name of the selected item.
    pub open spec fn selected_name(&self) -> Option<Seq<char>> {
        match self.selection {
            Selection::Profile(id) => if has_profile(self.workspace.profiles@, id) {
                Some(self.workspace.profiles@[profile_index(self.workspace.profiles@, id)].1.name@)
            } else {
                None
            },
            Selection::Group(id) => if has_group(self.workspace.groups@, id) {
                Some(
                    self.workspace.groups@[choose|k: int|
                        0 <= k < self.workspace.groups@.len() && (#[trigger] self.workspace.groups@[k]).id
                            == id].name@,
                )
            } else {
                None
            },
            Selection::Nothing => None,
        }
    }

    /// F2 on the selection: edits its name, all selected.
    pub fn begin_rename(&mut self) -> (started: bool)
        requires
            old(self).wf(),
        ensures
            final(self).wf(),
            started == old(self).selected_name() is Some,
            started ==> (final(self).rename matches Some(e) && e@ == new_view(
                old(self).selected_name()->0,
            )),
            !started ==> final(self).rename == old(self).rename,
            final(self).workspace == old(self).workspace,
            final(self).selection == old(self).selection,
            final(self).is_dirty() == old(self).is_dirty(),
    {
        let name: Option<String> = match self.selection {
            Selection::Profile(id) => match self.profile_position(id) {
                Some(i) => {
                    proof {
                        let c = profile_index(self.workspace.profiles@, id);
                        if c != i {
                            if c < i {
                                assert(self.workspace.profiles@[c].1.id != self.workspace.profiles@[i as int].1.id);
                            } else {
                                assert(self.workspace.profiles@[i as int].1.id != self.workspace.profiles@[c].1.id);
                            }
                        }
                    }
                    Some(self.workspace.profiles[i].1.name.clone())
                },
                None => None,
            },
            Selection::Group(id) => match self.group_position(id) {
                Some(i) => {
                    proof {
                        let c = choose|k: int|
                            0 <= k < self.workspace.groups@.len() && (#[trigger] self.workspace.groups@[k]).id
                                == id;
                        if c != i {
                            if c < i {
                                assert(self.workspace.groups@[c].id != self.workspace.groups@[i as int].id);
                            } else {
                                assert(self.workspace.groups@[i as int].id != self.workspace.groups@[c].id);
                            }
                        }
                    }
                    Some(self.workspace.groups[i].name.clone())
                },
                None => None,
            },
            Selection::Nothing => None,
        };
        match name {
            Some(n) => {
                self.rename = Some(RenameEdit::new(n.as_str()));
                true
            },
            None => false,
        }
    }

    /// Enter in the rename: a non-blank name (trimmed) replaces the
    /// selected item's name and the workspace is written; a blank one only
    /// ends the rename. Returns whether to write.
    pub fn commit_rename(&mut self) -> (write: bool)
        requires
            old(self).wf(),
        ensures
            final(self).wf(),
            final(self).rename is None,
            final(self).selection == old(self).selection,
            match old(self).rename {
                None => !write && final(self).workspace == old(self).workspace,
                Some(e) => {
                    let name = text::spec_trim(e@.text);
                    if name.len() == 0 {
                        !write && final(self).workspace == old(self).workspace
                    } else {
                        &&& write
                        &&& final(self).is_dirty()
                        &&& match old(self).selection {
                            Selection::Profile(id) => final(self).workspace.groups == old(self).workspace.groups && if has_profile(old(self).workspace.profiles@, id) {
                                let i = profile_index(old(self).workspace.profiles@, id);
                                final(self).workspace.profiles@.len() == old(self).workspace.profiles@.len() && final(self).workspace.profiles@[i].1.name@
                                    == name && forall|k: int|
                                    0 <= k < old(self).workspace.profiles@.len() && k != i ==> #[trigger] final(self).workspace.profiles@[k] == old(self).workspace.profiles@[k]
                            } else {
                                final(self).workspace.profiles == old(self).workspace.profiles
                            },
                            Selection::Group(id) => final(self).workspace.profiles == old(self).workspace.profiles && if has_group(old(self).workspace.groups@, id) {
                                final(self).workspace.groups@ == old(self).workspace.groups@.map_values(
                                    |g: Group|
                                        if g.id == id {
                                            Group { name: final(self).workspace.groups@[choose|k: int|
                                                0 <= k < old(self).workspace.groups@.len() && (#[trigger] old(self).workspace.groups@[k]).id == id].name, ..g }
                                        } else {
                                            g
                                        },
                                ) && exists|k: int|
                                    0 <= k < final(self).workspace.groups@.len() && (#[trigger] final(self).workspace.groups@[k]).id == id && final(self).workspace.groups@[k].name@
                                        == name
                            } else {
                                final(self).workspace.groups == old(self).workspace.groups
                            },
                            Selection::Nothing => final(self).workspace == old(self).workspace,
                        }
                    }
                },
            },
    {
        let edit = match self.rename.take() {
            None => {
                return false;
            },
            Some(e) => e,
        };
        let name = text::trim_string(edit.text.as_str());
        if name.as_str().unicode_len() == 0 {
            return false;
        }
        match self.selection {
            Selection::Profile(id) => match self.profile_position(id) {
                Some(i) => {
                    proof {
                        let c = profile_index(self.workspace.profiles@, id);
                        if c != i {
                            if c < i {
                                assert(self.workspace.profiles@[c].1.id != self.workspace.profiles@[i as int].1.id);
                            } else {
                                assert(self.workspace.profiles@[i as int].1.id != self.workspace.profiles@[c].1.id);
                            }
                        }
                    }
                    let (tag2, old_p) = self.workspace.profiles.remove(i);
                    self.workspace.profiles.insert(i, (tag2, Profile { name, ..old_p }));
                    proof {
                        let op = old(self).workspace.profiles@;
                        let np = self.workspace.profiles@;
                        assert(np =~= op.update(i as int, (op[i as int].0, Profile { name: np[i as int].1.name, ..op[i as int].1 })));
                        assert forall|a: int, b: int| 0 <= a < b < np.len() implies (#[trigger] np[a]).1.id
                            != (#[trigger] np[b]).1.id by {
                            assert(op[a].1.id != op[b].1.id);
                        }
                        assert forall|x: int| 0 <= x < np.len() implies match (#[trigger] np[x]).0 {
                            Some(g) => has_group(self.workspace.groups@, g),
                            None => true,
                        } by {
                            assert(np[x].0 == op[x].0);
                        }
                    }
                },
                None => {},
            },
            Selection::Group(id) => match self.group_position(id) {
                Some(i) => {
                    let g = self.workspace.groups[i].clone();
                    self.replace_group(i, Group { name, ..g });
                    proof {
                        let og = old(self).workspace.groups@;
                        let ng = self.workspace.groups@;
                        let c = choose|k: int| 0 <= k < og.len() && (#[trigger] og[k]).id == id;
                        if c != i {
                            if c < i {
                                assert(og[c].id != og[i as int].id);
                            } else {
                                assert(og[i as int].id != og[c].id);
                            }
                        }
                        let f = |g: Group|
                            if g.id == id {
                                Group { name: ng[c].name, ..g }
                            } else {
                                g
                            };
                        assert forall|k: int| 0 <= k < og.len() implies #[trigger] ng[k] == og.map_values(f)[k] by {
                            if k != i {
                                if k < i {
                                    assert(og[k].id != og[i as int].id);
                                } else {
                                    assert(og[i as int].id != og[k].id);
                                }
                            }
                        }
                        assert(ng =~= og.map_values(f));
                        assert(ng[i as int].id == id);
                    }
                },
                None => {},
            },
            Selection::Nothing => {},
        }
        self.dirty = true;
        true
    }

    /// Escape in the rename.
    pub fn cancel_rename(&mut self)
        ensures
            final(self).rename is None,
            final(self).workspace == old(self).workspace,
            final(self).selection == old(self).selection,
            final(self).is_dirty() == old(self).is_dirty(),
    {
        self.rename = None;
    }

    /// A typed character in the rename (replacing its selection); nothing
    /// without a rename.
    pub fn push_rename_char(&mut self, c: char)
        ensures
            match old(self).rename {
                Some(e) => final(self).rename matches Some(f) && (if e@.lo() < usize::MAX {
                    f@ == e@.insert(seq![c])
                } else {
                    f@ == e@
                }),
                None => final(self).rename is None,
            },
            final(self).workspace == old(self).workspace,
            final(self).selection == old(self).selection,
            final(self).is_dirty() == old(self).is_dirty(),
    {
        match &mut self.rename {
            Some(e) => {
                let (lo, _) = e.sel_range();
                if lo < usize::MAX {
                    let mut typed = String::new();
                    text::push_char(&mut typed, c);
                    e.insert(typed.as_str());
                }
            },
            None => {},
        }
    }

    /// Backspace in the rename; nothing without a rename.
    pub fn pop_rename_char(&mut self)
        ensures
            match old(self).rename {
                Some(e) => final(self).rename matches Some(f) && f@ == e@.backspace(),
                None => final(self).rename is None,
            },
            final(self).workspace == old(self).workspace,
            final(self).selection == old(self).selection,
            final(self).is_dirty() == old(self).is_dirty(),
    {
        match &mut self.rename {
            Some(e) => {
                e.backspace();
            },
            None => {},
        }
    }

    /// The caret blink of the rename.
    pub fn toggle_rename_caret(&mut self)
        ensures
            match old(self).rename {
                Some(e) => final(self).rename matches Some(f) && f@ == EditView {
                    caret_visible: !e@.caret_visible,
                    ..e@
                },
                None => final(self).rename is None,
            },
            final(self).workspace == old(self).workspace,
            final(self).selection == old(self).selection,
            final(self).is_dirty() == old(self).is_dirty(),
    {
        match &mut self.rename {
            Some(e) => {
                e.caret_visible = !e.caret_visible;
            },
            None => {},
        }
    }

    /// Saves the connection fields of SSH profile `id` (its id and group
    /// stay); refused for a missing or non-SSH profile.
    pub fn update_ssh_profile(
        &mut self,
        id: u128,
        name: String,
        host: String,
        port: u16,
        user: String,
        auth: SshAuthChoice,
        forwards: Vec<ForwardRule>,
    ) -> (updated: bool)
        requires
            old(self).wf(),
        ensures
            final(self).wf(),
            updated == (has_profile(old(self).workspace.profiles@, id) && old(self).workspace.profiles@[profile_index(
                old(self).workspace.profiles@,
                id,
            )].1.kind is Ssh),
            updated ==> {
                let i = profile_index(old(self).workspace.profiles@, id);
                &&& final(self).workspace.profiles@ == old(self).workspace.profiles@.update(
                    i,
                    (
                        old(self).workspace.profiles@[i].0,
                        Profile { id, name, kind: ProfileKind::Ssh { host, port, user, auth }, forwards },
                    ),
                )
                &&& final(self).selection == Selection::Profile(id)
                &&& final(self).is_dirty()
            },
            !updated ==> final(self).workspace == old(self).workspace && final(self).selection == old(self).selection,
            final(self).workspace.groups == old(self).workspace.groups,
    {
        let i = match self.profile_position(id) {
            None => {
                return false;
            },
            Some(i) => i,
        };
        proof {
            let c = profile_index(self.workspace.profiles@, id);
            if c != i {
                if c < i {
                    assert(self.workspace.profiles@[c].1.id != self.workspace.profiles@[i as int].1.id);
                } else {
                    assert(self.workspace.profiles@[i as int].1.id != self.workspace.profiles@[c].1.id);
                }
            }
        }
        let is_ssh = match &self.workspace.profiles[i].1.kind {
            ProfileKind::Ssh { .. } => true,
            ProfileKind::Local { .. } => false,
        };
        if !is_ssh {
            return false;
        }
        self.replace_profile(
            i,
            Profile { id, name, kind: ProfileKind::Ssh { host, port, user, auth }, forwards },
        );
        self.selection = Selection::Profile(id);
        self.dirty = true;
        true
    }

    /// Remembers the last folder of a Local profile's shell; returns
    /// whether anything changed.
    pub fn update_local_profile_cwd(&mut self, pid: u128, cwd: String) -> (changed: bool)
        requires
            old(self).wf(),
        ensures
            final(self).wf(),
            final(self).workspace.groups == old(self).workspace.groups,
            final(self).selection == old(self).selection,
            changed ==> has_profile(old(self).workspace.profiles@, pid) && final(self).is_dirty() && {
                let i = profile_index(old(self).workspace.profiles@, pid);
                let p = old(self).workspace.profiles@[i].1;
                &&& p.kind matches ProfileKind::Local { cwd: stored, .. } && match stored {
                    Some(s) => s@ != cwd@,
                    None => true,
                }
                &&& final(self).workspace.profiles@.len() == old(self).workspace.profiles@.len()
                &&& final(self).workspace.profiles@[i].0 == old(self).workspace.profiles@[i].0
                &&& final(self).workspace.profiles@[i].1.id == pid
                &&& final(self).workspace.profiles@[i].1.name == p.name
                &&& final(self).workspace.profiles@[i].1.kind matches ProfileKind::Local { cwd: Some(c), shell }
                    && c@ == cwd@ && (p.kind matches ProfileKind::Local { shell: s0, .. } && shell == s0)
                &&& forall|k: int|
                    0 <= k < old(self).workspace.profiles@.len() && k != i ==> #[trigger] final(self).workspace.profiles@[k] == old(self).workspace.profiles@[k]
            },
            changed == (has_profile(old(self).workspace.profiles@, pid) && {
                let p = old(self).workspace.profiles@[profile_index(old(self).workspace.profiles@, pid)].1;
                p.kind matches ProfileKind::Local { cwd: stored, .. } && match stored {
                    Some(s) => s@ != cwd@,
                    None => true,
                }
            }),
            !changed ==> final(self).workspace == old(self).workspace && final(self).is_dirty() == old(self).is_dirty(),
    {
        let i = match self.profile_position(pid) {
            None => {
                return false;
            },
            Some(i) => i,
        };
        proof {
            let c = profile_index(self.workspace.profiles@, pid);
            if c != i {
                if c < i {
                    assert(self.workspace.profiles@[c].1.id != self.workspace.profiles@[i as int].1.id);
                } else {
                    assert(self.workspace.profiles@[i as int].1.id != self.workspace.profiles@[c].1.id);
                }
            }
        }
        let same = match &self.workspace.profiles[i].1.kind {
            ProfileKind::Local { cwd: Some(s), .. } => {
                let a = text::chars_of(s.as_str());
                let b = text::chars_of(cwd.as_str());
                text::chars_eq(a.as_slice(), b.as_slice())
            },
            ProfileKind::Local { cwd: None, .. } => false,
            ProfileKind::Ssh { .. } => {
                return false;
            },
        };
        if same {
            return false;
        }
        let ghost op = self.workspace.profiles@;
        let (tag, p) = self.workspace.profiles.remove(i);
        let shell = match p.kind {
            ProfileKind::Local { shell, .. } => shell,
            ProfileKind::Ssh { .. } => None,
        };
        self.workspace.profiles.insert(
            i,
            (tag, Profile { id: p.id, name: p.name, kind: ProfileKind::Local { shell, cwd: Some(cwd) }, forwards: p.forwards }),
        );
        proof {
            let np = self.workspace.profiles@;
            assert forall|k: int| 0 <= k < np.len() && k != i implies np[k] == op[k] by {}
            assert forall|a: int, b: int| 0 <= a < b < np.len() implies (#[trigger] np[a]).1.id != (
            #[trigger] np[b]).1.id by {
                assert(op[a].1.id != op[b].1.id);
            }
            assert forall|x: int| 0 <= x < np.len() implies match (#[trigger] np[x]).0 {
                Some(g) => has_group(self.workspace.groups@, g),
                None => true,
            } by {
                assert(np[x].0 == op[x].0);
            }
        }
        self.dirty = true;
        true
    }

    /// The kind of profile `id`.
    pub fn profile_kind(&self, id: u128) -> (kind: Option<&ProfileKind>)
        requires
            self.wf(),
        ensures
            match kind {
                Some(k) => has_profile(self.workspace.profiles@, id) && *k == self.workspace.profiles@[profile_index(
                    self.workspace.profiles@,
                    id,
                )].1.kind,
                None => !has_profile(self.workspace.profiles@, id),
            },
    {
        match self.profile_position(id) {
            Some(i) => {
                proof {
                    let c = profile_index(self.workspace.profiles@, id);
                    if c != i {
                        if c < i {
                            assert(self.workspace.profiles@[c].1.id != self.workspace.profiles@[i as int].1.id);
                        } else {
                            assert(self.workspace.profiles@[i as int].1.id != self.workspace.profiles@[c].1.id);
                        }
                    }
                }
                Some(&self.workspace.profiles[i].1.kind)
            },
            None => None,
        }
    }

    /// Remembers the open tabs (profile and title) and the active one.
    pub fn sync_open_tabs(&mut self, tabs: Vec<(u128, Option<String>)>, active: usize)
        ensures
            final(self).open_tabs == tabs,
            final(self).active_tab_index == active,
            final(self).is_dirty(),
            final(self).workspace == old(self).workspace,
            final(self).selection == old(self).selection,
            final(self).rename == old(self).rename,
    {
        self.open_tabs = tabs;
        self.active_tab_index = active;
        self.dirty = true;
    }

    /// The profiles whose tabs are opened again at start, in tab order.
    pub fn restore_profiles(&self) -> (ids: Vec<u128>)
        ensures
            ids@ == restore_list(self.open_tabs@),
    {
        let mut ids: Vec<u128> = Vec::new();
        let mut i: usize = 0;
        while i < self.open_tabs.len()
            invariant
                0 <= i <= self.open_tabs@.len(),
                ids@ == restore_list(self.open_tabs@.subrange(0, i as int)),
            decreases self.open_tabs@.len() - i,
        {
            ids.push(self.open_tabs[i].0);
            i += 1;
            assert(ids@ =~= restore_list(self.open_tabs@.subrange(0, i as int)));
        }
        assert(self.open_tabs@.subrange(0, self.open_tabs@.len() as int) =~= self.open_tabs@);
        ids
    }

    /// After a delete that emptied the workspace (no group and no profile
    /// left), the default workspace `default` takes its place; otherwise
    /// nothing changes. Returns whether it did.
    pub fn reset_if_emptied(&mut self, default: Workspace) -> (reset: bool)
        requires
            old(self).wf(),
            ws_wf(default.groups@, default.profiles@),
        ensures
            final(self).wf(),
            reset == (old(self).workspace.groups@.len() == 0 && old(self).workspace.profiles@.len() == 0),
            reset ==> final(self).workspace == default && final(self).is_dirty(),
            !reset ==> final(self).workspace == old(self).workspace && final(self).is_dirty() == old(
                self,
            ).is_dirty(),
            final(self).selection == old(self).selection,
            final(self).rename == old(self).rename,
    {
        if self.workspace.groups.len() == 0 && self.workspace.profiles.len() == 0 {
            self.workspace = default;
            self.dirty = true;
            true
        } else {
            false
        }
    }

    /// An imported workspace replaces the current one; nothing stays
    /// selected. Returns whether to write (always).
    pub fn replace_workspace(&mut self, workspace: Workspace) -> (write: bool)
        requires
            ws_wf(workspace.groups@, workspace.profiles@),
        ensures
            final(self).wf(),
            write,
            final(self).workspace == workspace,
            final(self).selection == Selection::Nothing,
            final(self).is_dirty(),
    {
        self.workspace = workspace;
        self.selection = Selection::Nothing;
        self.dirty = true;
        true
    }

    /// "Save to …" on a tab that is not bound to a profile: a profile of
    /// the tab's kind (a Local one starts in the shell's current folder
    /// when known) named after the tab (made unique), placed at the root or
    /// in `group`, and selected. Returns its id; `None` only when the
    /// random id is already taken.
    pub fn save_as_profile(&mut self, label: &str, kind: ProfileKind, live_cwd: Option<String>, group: Option<u128>) -> (id: Option<u128>)
        requires
            old(self).wf(),
        ensures
            final(self).wf(),
            match id {
                Some(pid) => {
                    let target = match group {
                        Some(g) => InsertTarget::Group(g),
                        None => InsertTarget::Root,
                    };
                    let p = final(self).workspace.profiles@.last().1;
                    &&& final(self).workspace.profiles@.len() == old(self).workspace.profiles@.len() + 1
                    &&& final(self).workspace.profiles@.drop_last() == old(self).workspace.profiles@
                    &&& final(self).workspace.profiles@.last().0 == placement(old(self).workspace.groups@, target)
                    &&& p.id == pid
                    &&& naming::copy_name_among(
                        p.name@,
                        label@,
                        old(self).workspace.profiles@.map_values(|q: Placed| q.1.name@),
                    )
                    &&& p.kind == match (kind, live_cwd) {
                        (ProfileKind::Local { shell, .. }, Some(c)) => ProfileKind::Local { shell, cwd: Some(c) },
                        (k, _) => k,
                    }
                    &&& p.forwards@.len() == 0
                    &&& final(self).workspace.groups@ == expanded(
                        old(self).workspace.groups@,
                        placement(old(self).workspace.groups@, target),
                    )
                    &&& final(self).selection == Selection::Profile(pid)
                    &&& final(self).is_dirty()
                },
                None => {
                    &&& final(self).workspace == old(self).workspace
                    &&& exists|x: u128| #[trigger] has_profile(old(self).workspace.profiles@, x)
                },
            },
    {
        let names = self.all_profile_names();
        let name = naming::unique_copy_name(label, names.as_slice());
        let kind = match (kind, live_cwd) {
            (ProfileKind::Local { shell, .. }, Some(c)) => ProfileKind::Local { shell, cwd: Some(c) },
            (k, _) => k,
        };
        let id = ids::new_id();
        if self.profile_position(id).is_some() {
            assert(has_profile(self.workspace.profiles@, id));
            return None;
        }
        let target = match group {
            Some(g) => InsertTarget::Group(g),
            None => InsertTarget::Root,
        };
        self.place_new(Profile { id, name, kind, forwards: Vec::new() }, target);
        assert(self.workspace.profiles@.drop_last() =~= old(self).workspace.profiles@);
        Some(id)
    }

    /// Duplicate: `copy` (the profile's copy under a new id) goes right
    /// after profile `id`, in the same group, and is selected. Returns the
    /// copy's id; `None` when `id` is missing or the copy's id is taken.
    pub fn duplicate_profile(&mut self, id: u128, copy: Profile) -> (new_id: Option<u128>)
        requires
            old(self).wf(),
        ensures
            final(self).wf(),
            new_id is Some == (has_profile(old(self).workspace.profiles@, id) && !has_profile(
                old(self).workspace.profiles@,
                copy.id,
            )),
            new_id is Some ==> {
                let i = profile_index(old(self).workspace.profiles@, id);
                &&& new_id == Some(copy.id)
                &&& final(self).workspace.profiles@ == old(self).workspace.profiles@.insert(
                    i + 1,
                    (old(self).workspace.profiles@[i].0, copy),
                )
                &&& final(self).selection == Selection::Profile(copy.id)
                &&& final(self).is_dirty()
            },
            new_id is None ==> final(self).workspace == old(self).workspace && final(self).selection
                == old(self).selection,
            final(self).workspace.groups == old(self).workspace.groups,
    {
        let i = match self.profile_position(id) {
            None => {
                return None;
            },
            Some(i) => i,
        };
        if self.profile_position(copy.id).is_some() {
            return None;
        }
        proof {
            let c = profile_index(self.workspace.profiles@, id);
            if c != i {
                if c < i {
                    assert(self.workspace.profiles@[c].1.id != self.workspace.profiles@[i as int].1.id);
                } else {
                    assert(self.workspace.profiles@[i as int].1.id != self.workspace.profiles@[c].1.id);
                }
            }
        }
        let tag = self.workspace.profiles[i].0;
        let cid = copy.id;
        let n = self.workspace.profiles.len();
        assert(i < n);
        self.insert_placed(i + 1, (tag, copy));
        self.selection = Selection::Profile(cid);
        self.dirty = true;
        Some(cid)
    }

    /// The names of the groups directly inside `parent`.
    fn group_names_in(&self, parent: Option<u128>) -> (names: Vec<String>)
        ensures
            naming::names(names@) == child_group_names(self.workspace.groups@, parent),
    {
        let mut out: Vec<String> = Vec::new();
        let mut i: usize = 0;
        while i < self.workspace.groups.len()
            invariant
                0 <= i <= self.workspace.groups@.len(),
                naming::names(out@) == child_group_names(self.workspace.groups@.subrange(0, i as int), parent),
            decreases self.workspace.groups@.len() - i,
        {
            assert(self.workspace.groups@.subrange(0, i + 1).drop_last() =~= self.workspace.groups@.subrange(
                0,
                i as int,
            ));
            if self.workspace.groups[i].parent == parent {
                let ghost before = out@;
                out.push(self.workspace.groups[i].name.clone());
                assert(naming::names(out@) =~= naming::names(before).push(self.workspace.groups@[i as int].name@));
            }
            i += 1;
        }
        assert(self.workspace.groups@.subrange(0, self.workspace.groups@.len() as int)
            =~= self.workspace.groups@);
        out
    }

    /// Every profile name.
    pub fn all_profile_names(&self) -> (names: Vec<String>)
        ensures
            naming::names(names@) == self.workspace.profiles@.map_values(|p: Placed| p.1.name@),
    {
        let mut out: Vec<String> = Vec::new();
        let mut i: usize = 0;
        while i < self.workspace.profiles.len()
            invariant
                0 <= i <= self.workspace.profiles@.len(),
                naming::names(out@) == self.workspace.profiles@.subrange(0, i as int).map_values(
                    |p: Placed| p.1.name@,
                ),
            decreases self.workspace.profiles@.len() - i,
        {
            let ghost before = out@;
            let ghost i0 = i;
            out.push(self.workspace.profiles[i].1.name.clone());
            i += 1;
            proof {
                let f = |p: Placed| p.1.name@;
                let want = self.workspace.profiles@.subrange(0, i as int).map_values(f);
                let prev = self.workspace.profiles@.subrange(0, i0 as int).map_values(f);
                assert(naming::names(before) == prev);
                assert(naming::names(before).len() == before.len());
                assert(prev.len() == i0);
                assert(before.len() == i0);
                assert forall|k: int| 0 <= k < want.len() implies naming::names(out@)[k] == want[k] by {
                    assert(naming::names(out@)[k] == out@[k]@);
                    if k < i0 {
                        assert(out@[k] == before[k]);
                        assert(naming::names(before)[k] == before[k]@);
                        assert(want[k] == prev[k]);
                    } else {
                        assert(want[k] == self.workspace.profiles@[k].1.name@);
                    }
                }
                assert(naming::names(out@) =~= want);
            }
        }
        assert(self.workspace.profiles@.subrange(0, self.workspace.profiles@.len() as int)
            =~= self.workspace.profiles@);
        out
    }
}

/// Whether `x` is among `v`.
fn contains_id(v: &Vec<u128>, x: u128) -> (b: bool)
    ensures
        b == v@.contains(x),
{
    let mut k: usize = 0;
    while k < v.len()
        invariant
            0 <= k <= v@.len(),
            forall|j: int| 0 <= j < k ==> v@[j] != x,
        decreases v@.len() - k,
    {
        if v[k] == x {
            assert(v@[k as int] == x);
            return true;
        }
        k += 1;
    }
    false
}

/// The group part of the workspace invariant: ids are unique and a
/// group's parent stands earlier.
pub open spec fn groups_wf(groups: Seq<Group>) -> bool {
    &&& forall|a: int, b: int|
        0 <= a < b < groups.len() ==> (#[trigger] groups[a]).id != (#[trigger] groups[b]).id
    &&& forall|i: int|
        0 <= i < groups.len() ==> match (#[trigger] groups[i]).parent {
            Some(p) => exists|j: int| 0 <= j < i && (#[trigger] groups[j]).id == p,
            None => true,
        }
}

/// `gone` holds the ids of the subtree groups among the first `i`.
pub open spec fn gone_tracks(gone: Seq<u128>, og: Seq<Group>, root: u128, i: int) -> bool {
    forall|x: u128|
        gone.contains(x) <==> exists|j: int| 0 <= j < i && (#[trigger] og[j]).id == x && doomed(og, root, j)
}

/// Every kept group among the first `i` is in `kept`, and `kept` holds
/// only groups among the first `i`.
pub open spec fn kept_tracks(kept: Seq<Group>, og: Seq<Group>, root: u128, i: int) -> bool {
    &&& forall|j: int| 0 <= j < i && !doomed(og, root, j) ==> has_group(kept, (#[trigger] og[j]).id)
    &&& forall|k: int| 0 <= k < kept.len() ==> exists|j: int| 0 <= j < i && #[trigger] kept[k] == og[j]
}

proof fn lemma_doomed_via_parent(og: Seq<Group>, root: u128, i: int, c: int)
    requires
        groups_wf(og),
        0 <= c < i < og.len(),
        og[i].id != root,
        og[i].parent == Some(og[c].id),
    ensures
        doomed(og, root, i) == doomed(og, root, c),
{
    let p = og[c].id;
    assert(exists|j: int| 0 <= j < i && (#[trigger] og[j]).id == p);
    let j = choose|j: int| 0 <= j < i && (#[trigger] og[j]).id == p;
    if j != c {
        if j < c {
            assert(og[j].id != og[c].id);
        } else {
            assert(og[c].id != og[j].id);
        }
    }
}

proof fn lemma_in_tree(og: Seq<Group>, root: u128, i: int, gone: Seq<u128>, in_tree: bool)
    requires
        groups_wf(og),
        0 <= i < og.len(),
        gone_tracks(gone, og, root, i),
        in_tree == (og[i].id == root || match og[i].parent {
            Some(p) => gone.contains(p),
            None => false,
        }),
    ensures
        in_tree == doomed(og, root, i),
{
    if og[i].id != root {
        if let Some(p) = og[i].parent {
            let c = choose|j: int| 0 <= j < i && (#[trigger] og[j]).id == p;
            lemma_doomed_via_parent(og, root, i, c);
            if gone.contains(p) {
                let j = choose|j: int| 0 <= j < i && (#[trigger] og[j]).id == p && doomed(og, root, j);
                if j != c {
                    if j < c {
                        assert(og[j].id != og[c].id);
                    } else {
                        assert(og[c].id != og[j].id);
                    }
                }
            } else {
                assert(!doomed(og, root, c));
            }
        }
    }
}

proof fn lemma_gone_step(og: Seq<Group>, root: u128, i: int, gone: Seq<u128>)
    requires
        0 <= i < og.len(),
        gone_tracks(gone, og, root, i),
    ensures
        doomed(og, root, i) ==> gone_tracks(gone.push(og[i].id), og, root, i + 1),
        !doomed(og, root, i) ==> gone_tracks(gone, og, root, i + 1),
{
    if doomed(og, root, i) {
        let g2 = gone.push(og[i].id);
        assert forall|x: u128| g2.contains(x) <==> exists|j: int|
            0 <= j < i + 1 && (#[trigger] og[j]).id == x && doomed(og, root, j) by {
            if g2.contains(x) {
                let w = choose|w: int| 0 <= w < g2.len() && g2[w] == x;
                if w < gone.len() {
                    assert(gone[w] == x);
                    assert(gone.contains(x));
                }
            }
            if exists|j: int| 0 <= j < i + 1 && (#[trigger] og[j]).id == x && doomed(og, root, j) {
                let j = choose|j: int| 0 <= j < i + 1 && (#[trigger] og[j]).id == x && doomed(og, root, j);
                if j < i {
                    assert(gone.contains(x));
                    let w = choose|w: int| 0 <= w < gone.len() && gone[w] == x;
                    assert(g2[w] == x);
                } else {
                    assert(g2[gone.len() as int] == x);
                }
            }
        }
    } else {
        assert forall|x: u128| gone.contains(x) <==> exists|j: int|
            0 <= j < i + 1 && (#[trigger] og[j]).id == x && doomed(og, root, j) by {
            if exists|j: int| 0 <= j < i + 1 && (#[trigger] og[j]).id == x && doomed(og, root, j) {
                let j = choose|j: int| 0 <= j < i + 1 && (#[trigger] og[j]).id == x && doomed(og, root, j);
                assert(j != i);
            }
        }
    }
}

proof fn lemma_kept_step(og: Seq<Group>, root: u128, i: int, kept: Seq<Group>)
    requires
        groups_wf(og),
        0 <= i < og.len(),
        groups_wf(kept),
        kept_tracks(kept, og, root, i),
    ensures
        doomed(og, root, i) ==> kept_tracks(kept, og, root, i + 1),
        !doomed(og, root, i) ==> kept_tracks(kept.push(og[i]), og, root, i + 1) && groups_wf(
            kept.push(og[i]),
        ),
{
    if doomed(og, root, i) {
        assert forall|k: int| 0 <= k < kept.len() implies exists|j: int| 0 <= j < i + 1 && #[trigger] kept[k] == og[j] by {
            let j = choose|j: int| 0 <= j < i && #[trigger] kept[k] == og[j];
        }
    } else {
        let k2 = kept.push(og[i]);
        assert forall|k: int| 0 <= k < k2.len() implies exists|j: int| 0 <= j < i + 1 && #[trigger] k2[k] == og[j] by {
            if k < kept.len() {
                let j = choose|j: int| 0 <= j < i && #[trigger] kept[k] == og[j];
                assert(k2[k] == og[j]);
            } else {
                assert(k2[k] == og[i]);
            }
        }
        assert forall|j: int| 0 <= j < i + 1 && !doomed(og, root, j) implies has_group(k2, (#[trigger] og[j]).id) by {
            if j < i {
                let y = choose|y: int| 0 <= y < kept.len() && (#[trigger] kept[y]).id == og[j].id;
                assert(k2[y] == kept[y]);
            } else {
                assert(k2[kept.len() as int] == og[i]);
            }
        }
        assert forall|a: int, b: int| 0 <= a < b < k2.len() implies (#[trigger] k2[a]).id != (#[trigger] k2[b]).id by {
            if b == kept.len() {
                let j = choose|j: int| 0 <= j < i && #[trigger] kept[a] == og[j];
                assert(k2[a] == og[j]);
                assert(og[j].id != og[i].id);
            } else {
                assert(k2[a] == kept[a] && k2[b] == kept[b]);
            }
        }
        assert forall|x: int| 0 <= x < k2.len() implies match (#[trigger] k2[x]).parent {
            Some(p) => exists|y: int| 0 <= y < x && (#[trigger] k2[y]).id == p,
            None => true,
        } by {
            if x < kept.len() {
                assert(k2[x] == kept[x]);
                if let Some(p) = kept[x].parent {
                    let y = choose|y: int| 0 <= y < x && (#[trigger] kept[y]).id == p;
                    assert(k2[y] == kept[y]);
                }
            } else {
                if let Some(p) = og[i].parent {
                    let c = choose|j: int| 0 <= j < i && (#[trigger] og[j]).id == p;
                    lemma_doomed_via_parent(og, root, i, c);
                    assert(has_group(kept, og[c].id));
                    let y = choose|y: int| 0 <= y < kept.len() && (#[trigger] kept[y]).id == og[c].id;
                    assert(k2[y] == kept[y]);
                }
            }
        }
    }
}

/// Splits the groups into those outside the subtree of `root` and the ids
/// of those inside it.
fn split_groups(groups: &Vec<Group>, root: u128) -> (r: (Vec<Group>, Vec<u128>))
    requires
        groups_wf(groups@),
    ensures
        r.0@ == kept_groups(groups@, root, groups@.len() as int),
        groups_wf(r.0@),
        kept_tracks(r.0@, groups@, root, groups@.len() as int),
        forall|x: u128| r.1@.contains(x) <==> subtree_ids(groups@, root).contains(x),
{
    let ghost og = groups@;
    let mut kept: Vec<Group> = Vec::new();
    let mut gone: Vec<u128> = Vec::new();
    let mut i: usize = 0;
    while i < groups.len()
        invariant
            0 <= i <= og.len(),
            groups@ == og,
            groups_wf(og),
            kept@ == kept_groups(og, root, i as int),
            groups_wf(kept@),
            kept_tracks(kept@, og, root, i as int),
            gone_tracks(gone@, og, root, i as int),
        decreases og.len() - i,
    {
        let gid = groups[i].id;
        let in_tree = gid == root || match groups[i].parent {
            Some(p) => contains_id(&gone, p),
            None => false,
        };
        proof {
            lemma_in_tree(og, root, i as int, gone@, in_tree);
            lemma_gone_step(og, root, i as int, gone@);
            lemma_kept_step(og, root, i as int, kept@);
        }
        if in_tree {
            gone.push(gid);
        } else {
            kept.push(groups[i].clone());
        }
        i += 1;
    }
    proof {
        assert forall|x: u128| gone@.contains(x) <==> subtree_ids(og, root).contains(x) by {}
    }
    (kept, gone)
}

/// Splits the profiles into those that survive removing the groups
/// `gone` (listed in `gone_ids`) and the ids of the others.
fn split_profiles(ps: Vec<Placed>, gone_ids: &Vec<u128>, gone: Ghost<Set<u128>>, groups: Ghost<Seq<Group>>) -> (r: (Vec<Placed>, Vec<u128>))
    requires
        forall|x: u128| gone_ids@.contains(x) <==> gone@.contains(x),
        forall|a: int, b: int| 0 <= a < b < ps@.len() ==> (#[trigger] ps@[a]).1.id != (#[trigger] ps@[b]).1.id,
        forall|j: int| 0 <= j < ps@.len() ==> match (#[trigger] ps@[j]).0 {
            Some(g) => has_group(groups@, g),
            None => true,
        },
    ensures
        r.0@ == kept_profiles(ps@, gone@, ps@.len() as int),
        r.1@ == removed_profiles(ps@, gone@, ps@.len() as int),
        forall|k: int| 0 <= k < r.0@.len() ==> match (#[trigger] r.0@[k]).0 {
            Some(g) => has_group(groups@, g) && !gone@.contains(g),
            None => true,
        },
        forall|a: int, b: int| 0 <= a < b < r.0@.len() ==> (#[trigger] r.0@[a]).1.id != (#[trigger] r.0@[b]).1.id,
{
    let ghost op = ps@;
    let ghost n = op.len();
    let mut src = ps;
    let mut kept: Vec<Placed> = Vec::new();
    let mut removed: Vec<u128> = Vec::new();
    let ghost mut origin: Seq<int> = Seq::empty();
    let mut idx: usize = 0;
    let total = src.len();
    assert(src@ =~= op.subrange(0, n as int));
    while idx < total
        invariant
            total == n,
            n == op.len(),
            0 <= idx <= n,
            src@ == op.subrange(idx as int, n as int),
            forall|x: u128| gone_ids@.contains(x) <==> gone@.contains(x),
            forall|a: int, b: int| 0 <= a < b < op.len() ==> (#[trigger] op[a]).1.id != (#[trigger] op[b]).1.id,
            forall|j: int| 0 <= j < op.len() ==> match (#[trigger] op[j]).0 {
                Some(g) => has_group(groups@, g),
                None => true,
            },
            kept@ == kept_profiles(op, gone@, idx as int),
            removed@ == removed_profiles(op, gone@, idx as int),
            origin.len() == kept@.len(),
            forall|k: int| 0 <= k < kept@.len() ==> 0 <= #[trigger] origin[k] < idx && kept@[k].1.id == op[origin[k]].1.id,
            forall|k: int| 0 <= k < kept@.len() ==> match (#[trigger] kept@[k]).0 {
                Some(g) => has_group(groups@, g) && !gone@.contains(g),
                None => true,
            },
            forall|a: int, b: int| 0 <= a < b < kept@.len() ==> (#[trigger] kept@[a]).1.id != (#[trigger] kept@[b]).1.id,
        decreases n - idx,
    {
        let p = src.remove(0);
        proof {
            assert(p == op[idx as int]);
            assert(src@ =~= op.subrange(idx + 1, n as int));
        }
        let survive = match p.0 {
            None => true,
            Some(g) => !contains_id(gone_ids, g),
        };
        assert(survive == survives(op[idx as int], gone@));
        if survive {
            let ghost before = kept@;
            let ghost before_origin = origin;
            kept.push(p);
            proof {
                origin = origin.push(idx as int);
                assert forall|k: int| 0 <= k < kept@.len() implies 0 <= #[trigger] origin[k] < idx + 1 && kept@[k].1.id
                    == op[origin[k]].1.id by {
                    if k < before.len() {
                        assert(origin[k] == before_origin[k]);
                        assert(kept@[k] == before[k]);
                    }
                }
                assert forall|k: int| 0 <= k < kept@.len() implies match (#[trigger] kept@[k]).0 {
                    Some(g) => has_group(groups@, g) && !gone@.contains(g),
                    None => true,
                } by {
                    if k < before.len() {
                        assert(kept@[k] == before[k]);
                    } else {
                        assert(kept@[k] == op[idx as int]);
                    }
                }
                assert forall|a: int, b: int| 0 <= a < b < kept@.len() implies (#[trigger] kept@[a]).1.id
                    != (#[trigger] kept@[b]).1.id by {
                    if b == before.len() {
                        assert(kept@[a] == before[a]);
                        assert(before_origin[a] < idx);
                        assert(op[before_origin[a]].1.id != op[idx as int].1.id);
                    } else {
                        assert(kept@[a] == before[a] && kept@[b] == before[b]);
                    }
                }
            }
        } else {
            removed.push(p.1.id);
        }
        idx += 1;
    }
    (kept, removed)
}

/// Profile ids are unique.
pub open spec fn profile_ids_distinct(ps: Seq<Placed>) -> bool {
    forall|a: int, b: int| 0 <= a < b < ps.len() ==> (#[trigger] ps[a]).1.id != (#[trigger] ps[b]).1.id
}

proof fn lemma_index_unique(ps: Seq<Placed>, id: u128, k: int)
    requires
        profile_ids_distinct(ps),
        0 <= k < ps.len(),
        ps[k].1.id == id,
    ensures
        has_profile(ps, id),
        profile_index(ps, id) == k,
{
    let c = profile_index(ps, id);
    if c != k {
        if c < k {
            assert(ps[c].1.id != ps[k].1.id);
        } else {
            assert(ps[k].1.id != ps[c].1.id);
        }
    }
}

/// Moving a profile before another puts it in that profile's group, right
/// in front of it.
pub proof fn law_move_before_lands_in_front(ps: Seq<Placed>, pid: u128, before: u128)
    requires
        profile_ids_distinct(ps),
        pid != before,
        has_profile(ps, pid),
        has_profile(ps, before),
    ensures
        ({
            let r = moved_before(ps, pid, before);
            let i = profile_index(r, pid);
            &&& has_profile(r, pid) && has_profile(r, before)
            &&& 0 <= i && i + 1 < r.len()
            &&& r[i + 1].1.id == before
            &&& r[i].0 == group_of(ps, before)
            &&& r[i + 1].0 == group_of(ps, before)
        }),
{
    let i0 = profile_index(ps, pid);
    let k0 = profile_index(ps, before);
    let q = ps.remove(i0);
    let kq = if k0 < i0 { k0 } else { k0 - 1 };
    assert(q[kq] == ps[k0]);
    assert(profile_ids_distinct(q)) by {
        assert forall|a: int, b: int| 0 <= a < b < q.len() implies (#[trigger] q[a]).1.id != (#[trigger] q[b]).1.id by {
            let oa = if a < i0 { a } else { a + 1 };
            let ob = if b < i0 { b } else { b + 1 };
            assert(q[a] == ps[oa] && q[b] == ps[ob]);
        }
    }
    lemma_index_unique(q, before, kq);
    let r = q.insert(kq, (group_of(ps, before), ps[i0].1));
    assert(r == moved_before(ps, pid, before));
    assert(r[kq].1.id == pid);
    assert(r[kq + 1] == q[kq]);
    assert(profile_ids_distinct(r)) by {
        assert forall|a: int, b: int| 0 <= a < b < r.len() implies (#[trigger] r[a]).1.id != (#[trigger] r[b]).1.id by {
            if a == kq {
                let ob = b - 1;
                let oob = if ob < i0 { ob } else { ob + 1 };
                assert(r[b] == q[ob] && q[ob] == ps[oob]);
                assert(oob != i0);
            } else if b == kq {
                let ooa = if a < i0 { a } else { a + 1 };
                assert(r[a] == q[a] && q[a] == ps[ooa]);
                assert(ooa != i0);
            } else {
                let oa = if a < kq { a } else { a - 1 };
                let ob = if b < kq { b } else { b - 1 };
                assert(r[a] == q[oa] && r[b] == q[ob]);
            }
        }
    }
    lemma_index_unique(r, pid, kq);
    lemma_index_unique(ps, before, k0);
    assert(group_of(ps, before) == ps[k0].0);
}

/// Moving a profile keeps every profile: the same ids are present before
/// and after.
pub proof fn law_moves_keep_profiles(ps: Seq<Placed>, groups: Seq<Group>, pid: u128, before: u128, g: Option<u128>, x: u128)
    requires
        profile_ids_distinct(ps),
        has_profile(ps, pid),
    ensures
        has_profile(moved_before(ps, pid, before), x) == has_profile(ps, x),
        has_profile(moved_to(ps, groups, pid, g), x) == has_profile(ps, x),
{
    let i0 = profile_index(ps, pid);
    let q = ps.remove(i0);
    let item = ps[i0].1;
    assert(item.id == pid);
    // Every id of `ps` other than `pid` is in `q`, and `q` holds only ids of `ps`.
    assert(has_profile(q, x) <==> (has_profile(ps, x) && x != pid)) by {
        if has_profile(ps, x) && x != pid {
            let k = choose|k: int| 0 <= k < ps.len() && (#[trigger] ps[k]).1.id == x;
            let kq = if k < i0 { k } else { k - 1 };
            assert(k != i0);
            assert(q[kq] == ps[k]);
        }
        if has_profile(q, x) {
            let k = choose|k: int| 0 <= k < q.len() && (#[trigger] q[k]).1.id == x;
            let ok = if k < i0 { k } else { k + 1 };
            assert(q[k] == ps[ok]);
            assert(ok != i0);
            if x == pid {
                if ok < i0 {
                    assert(ps[ok].1.id != ps[i0].1.id);
                } else {
                    assert(ps[i0].1.id != ps[ok].1.id);
                }
            }
        }
    }
    let r1 = moved_before(ps, pid, before);
    let r2 = moved_to(ps, groups, pid, g);
    assert(r2[q.len() as int].1.id == pid);
    assert(has_profile(r2, x) == has_profile(ps, x)) by {
        if has_profile(r2, x) {
            let k = choose|k: int| 0 <= k < r2.len() && (#[trigger] r2[k]).1.id == x;
            if k < q.len() {
                assert(r2[k] == q[k]);
            }
        }
        if has_profile(ps, x) {
            if x == pid {
            } else {
                let k = choose|k: int| 0 <= k < q.len() && (#[trigger] q[k]).1.id == x;
                assert(r2[k] == q[k]);
            }
        }
    }
    if has_profile(q, before) {
        let kq = profile_index(q, before);
        assert(r1[kq].1.id == pid);
        assert(has_profile(r1, x) == has_profile(ps, x)) by {
            if has_profile(r1, x) {
                let k = choose|k: int| 0 <= k < r1.len() && (#[trigger] r1[k]).1.id == x;
                if k < kq {
                    assert(r1[k] == q[k]);
                } else if k > kq {
                    assert(r1[k] == q[k - 1]);
                }
            }
            if has_profile(ps, x) && x != pid {
                let k = choose|k: int| 0 <= k < q.len() && (#[trigger] q[k]).1.id == x;
                if k < kq {
                    assert(r1[k] == q[k]);
                } else {
                    assert(r1[k + 1] == q[k]);
                }
            }
        }
    } else {
        assert(r1[q.len() as int].1.id == pid);
        assert(has_profile(r1, x) == has_profile(ps, x)) by {
            if has_profile(r1, x) {
                let k = choose|k: int| 0 <= k < r1.len() && (#[trigger] r1[k]).1.id == x;
                if k < q.len() {
                    assert(r1[k] == q[k]);
                }
            }
            if has_profile(ps, x) && x != pid {
                let k = choose|k: int| 0 <= k < q.len() && (#[trigger] q[k]).1.id == x;
                assert(r1[k] == q[k]);
            }
        }
    }
}

proof fn lemma_kept_from(groups: Seq<Group>, root: u128, n: int, w: int)
    requires
        0 <= n <= groups.len(),
        0 <= w < kept_groups(groups, root, n).len(),
    ensures
        exists|j: int| 0 <= j < n && kept_groups(groups, root, n)[w] == groups[j],
    decreases n,
{
    let rest = kept_groups(groups, root, n - 1);
    if w < rest.len() {
        lemma_kept_from(groups, root, n - 1, w);
        let j = choose|j: int| 0 <= j < n - 1 && rest[w] == groups[j];
        assert(kept_groups(groups, root, n)[w] == rest[w]);
    } else {
        assert(kept_groups(groups, root, n)[w] == groups[n - 1]);
    }
}

/// Deleting a group removes exactly the groups inside it (itself
/// included): every group outside the subtree stays, none inside it does.
pub proof fn law_delete_group_removes_subtree(groups: Seq<Group>, root: u128, n: int, k: int)
    requires
        groups_wf(groups),
        0 <= n <= groups.len(),
        0 <= k < n,
    ensures
        doomed(groups, root, k) ==> !kept_groups(groups, root, n).contains(groups[k]),
        !doomed(groups, root, k) ==> kept_groups(groups, root, n).contains(groups[k]),
    decreases n,
{
    let rest = kept_groups(groups, root, n - 1);
    let all = kept_groups(groups, root, n);
    if k < n - 1 {
        law_delete_group_removes_subtree(groups, root, n - 1, k);
        if !doomed(groups, root, k) {
            let w = choose|w: int| 0 <= w < rest.len() && rest[w] == groups[k];
            assert(all[w] == groups[k]);
        } else if all.contains(groups[k]) {
            let w = choose|w: int| 0 <= w < all.len() && all[w] == groups[k];
            if w < rest.len() {
                assert(rest[w] == groups[k]);
            } else {
                assert(all[w] == groups[n - 1]);
                assert(groups[k].id != groups[n - 1].id);
            }
        }
    } else {
        if !doomed(groups, root, k) {
            assert(all[rest.len() as int] == groups[k]);
        } else if all.contains(groups[k]) {
            let w = choose|w: int| 0 <= w < all.len() && all[w] == groups[k];
            assert(all == rest);
            lemma_kept_from(groups, root, n - 1, w);
            let j = choose|j: int| 0 <= j < n - 1 && rest[w] == groups[j];
            assert(groups[j].id != groups[k].id);
        }
    }
}

/// The profile ids of remembered tabs.
pub open spec fn restore_list(tabs: Seq<(u128, Option<String>)>) -> Seq<u128> {
    tabs.map_values(|t: (u128, Option<String>)| t.0)
}

/// The tabs remembered at the last save come back at the next start: when
/// the store holds a snapshot of the open tabs (`snapshot_for_persist`,
/// then `sync_open_tabs`), the profiles reopened (`restore_profiles`) are,
/// tab by tab and in order, those of the tabs' focused panes.
pub proof fn law_saved_tabs_come_back(tabs: Seq<crate::tab_manager::TabSession>, s: WorkspaceStore)
    requires
        crate::tab_manager::is_snapshot(tabs, s.open_tabs@),
    ensures
        restore_list(s.open_tabs@).len() == tabs.len(),
        forall|i: int|
            0 <= i < tabs.len() && (#[trigger] tabs[i]).pane_ids().contains(tabs[i].focused) ==> exists|k: int|
                0 <= k < tabs[i].panes@.len() && tabs[i].panes@[k].id == tabs[i].focused
                    && tabs[i].panes@[k].profile_id == restore_list(s.open_tabs@)[i],
{
    assert forall|i: int|
        0 <= i < tabs.len() && (#[trigger] tabs[i]).pane_ids().contains(tabs[i].focused) implies exists|k: int|
            0 <= k < tabs[i].panes@.len() && tabs[i].panes@[k].id == tabs[i].focused
                && tabs[i].panes@[k].profile_id == restore_list(s.open_tabs@)[i] by {
        assert(restore_list(s.open_tabs@)[i] == s.open_tabs@[i].0);
    }
}

} // verus!
