//! The window registry: open windows grouped by owning application class,
//! groups ordered most-recently-activated first, windows within a group
//! ordered most-recently-focused first.

use vstd::prelude::*;

verus! {

/// Mathematical model of one window entry: its handle and its title.
#[verifier::ext_equal]
pub ghost struct WindowModel {
    pub handle: u64,
    pub title: Seq<char>,
}

/// Mathematical model of one application group: its class name and its
/// windows, most-recently-focused first.
#[verifier::ext_equal]
pub ghost struct GroupModel {
    pub class: Seq<char>,
    pub windows: Seq<WindowModel>,
}

/// One open window: its process-unique handle and its title.
#[derive(Debug)]
pub struct WindowEntry {
    pub handle: u64,
    pub title: String,
}

impl View for WindowEntry {
    type V = WindowModel;

    open spec fn view(&self) -> WindowModel {
        WindowModel { handle: self.handle, title: self.title@ }
    }
}

impl DeepView for WindowEntry {
    type V = WindowModel;

    open spec fn deep_view(&self) -> WindowModel {
        self.view()
    }
}

/// The windows of one application class, most-recently-focused first.
#[derive(Debug)]
pub struct AppGroup {
    pub class: String,
    pub windows: Vec<WindowEntry>,
}

impl View for AppGroup {
    type V = GroupModel;

    open spec fn view(&self) -> GroupModel {
        GroupModel { class: self.class@, windows: self.windows.deep_view() }
    }
}

impl DeepView for AppGroup {
    type V = GroupModel;

    open spec fn deep_view(&self) -> GroupModel {
        self.view()
    }
}

/// True if some window of `g` carries the handle `h`.
pub open spec fn group_has_handle(g: GroupModel, h: u64) -> bool {
    exists|j: int| 0 <= j < g.windows.len() && g.windows[j].handle == h
}

/// True if some window of some group carries the handle `h`.
pub open spec fn has_handle(groups: Seq<GroupModel>, h: u64) -> bool {
    exists|i: int| 0 <= i < groups.len() && group_has_handle(groups[i], h)
}

/// True if some group carries the class name `c`.
pub open spec fn has_class(groups: Seq<GroupModel>, c: Seq<char>) -> bool {
    exists|i: int| 0 <= i < groups.len() && groups[i].class == c
}

/// The index of the group whose class is `c` (meaningful when `has_class`
/// holds and classes are unique).
pub open spec fn class_index(groups: Seq<GroupModel>, c: Seq<char>) -> int {
    choose|i: int| 0 <= i < groups.len() && groups[i].class == c
}

/// The index of the group owning handle `h` (meaningful when `has_handle`
/// holds and handles are unique).
pub open spec fn owner_index(groups: Seq<GroupModel>, h: u64) -> int {
    choose|i: int| 0 <= i < groups.len() && group_has_handle(groups[i], h)
}

/// The position of handle `h` inside group `g` (meaningful when
/// `group_has_handle` holds and handles are unique).
pub open spec fn window_index(g: GroupModel, h: u64) -> int {
    choose|j: int| 0 <= j < g.windows.len() && g.windows[j].handle == h
}

/// A group with zero windows does not exist.
pub open spec fn groups_nonempty(groups: Seq<GroupModel>) -> bool {
    forall|i: int| 0 <= i < groups.len() ==> #[trigger] groups[i].windows.len() > 0
}

/// No two groups share a class name.
pub open spec fn classes_unique(groups: Seq<GroupModel>) -> bool {
    forall|i: int, k: int|
        0 <= i < k < groups.len() ==> #[trigger] groups[i].class != #[trigger] groups[k].class
}

/// Every handle appears in at most one group, at most once.
pub open spec fn handles_unique(groups: Seq<GroupModel>) -> bool {
    forall|i1: int, j1: int, i2: int, j2: int|
        #![trigger groups[i1].windows[j1].handle, groups[i2].windows[j2].handle]
        0 <= i1 < groups.len() && 0 <= j1 < groups[i1].windows.len() && 0 <= i2 < groups.len()
            && 0 <= j2 < groups[i2].windows.len() && !(i1 == i2 && j1 == j2)
            ==> groups[i1].windows[j1].handle != groups[i2].windows[j2].handle
}

/// The registry invariant: non-empty groups, unique classes, unique handles.
pub open spec fn wf_groups(groups: Seq<GroupModel>) -> bool {
    &&& groups_nonempty(groups)
    &&& classes_unique(groups)
    &&& handles_unique(groups)
}

/// The registry after `register(c, h, t)`: the new window is appended to the
/// group of class `c`, or a fresh group of that one window is appended.
pub open spec fn spec_register(
    groups: Seq<GroupModel>,
    c: Seq<char>,
    h: u64,
    t: Seq<char>,
) -> Seq<GroupModel> {
    let w = WindowModel { handle: h, title: t };
    if has_class(groups, c) {
        let i = class_index(groups, c);
        groups.update(i, GroupModel { class: groups[i].class, windows: groups[i].windows.push(w) })
    } else {
        groups.push(GroupModel { class: c, windows: seq![w] })
    }
}

/// The registry after removing the window at position `j` of group `i`;
/// the group disappears with its last window.
pub open spec fn spec_remove_at(groups: Seq<GroupModel>, i: int, j: int) -> Seq<GroupModel> {
    if groups[i].windows.len() == 1 {
        groups.remove(i)
    } else {
        groups.update(i, GroupModel { class: groups[i].class, windows: groups[i].windows.remove(j) })
    }
}

/// The registry after `unregister(h)`: unchanged when `h` is unknown.
pub open spec fn spec_unregister(groups: Seq<GroupModel>, h: u64) -> Seq<GroupModel> {
    if has_handle(groups, h) {
        let i = owner_index(groups, h);
        spec_remove_at(groups, i, window_index(groups[i], h))
    } else {
        groups
    }
}

/// True if `promote(c, h)` finds its target: a group of class `c` holding a
/// window with handle `h`.
pub open spec fn promote_found(groups: Seq<GroupModel>, c: Seq<char>, h: u64) -> bool {
    has_class(groups, c) && group_has_handle(groups[class_index(groups, c)], h)
}

/// The registry after `promote(c, h)`: the window moves to the front of its
/// group and the group to the front of the registry; everything else keeps
/// its relative order. Unchanged when the target is not found.
pub open spec fn spec_promote(groups: Seq<GroupModel>, c: Seq<char>, h: u64) -> Seq<GroupModel> {
    if promote_found(groups, c, h) {
        let i = class_index(groups, c);
        let g = groups[i];
        let j = window_index(g, h);
        let fronted = GroupModel { class: g.class, windows: seq![g.windows[j]] + g.windows.remove(j) };
        seq![fronted] + groups.remove(i)
    } else {
        groups
    }
}

/// A handle that is absent from the registry is absent from every position.
proof fn lemma_fresh_handle(groups: Seq<GroupModel>, h: u64, i: int, j: int)
    requires
        !has_handle(groups, h),
        0 <= i < groups.len(),
        0 <= j < groups[i].windows.len(),
    ensures
        groups[i].windows[j].handle != h,
{
    if groups[i].windows[j].handle == h {
        assert(group_has_handle(groups[i], h));
        assert(has_handle(groups, h));
    }
}

/// A class that is absent from the registry is absent at every position.
proof fn lemma_fresh_class(groups: Seq<GroupModel>, c: Seq<char>, a: int)
    requires
        !has_class(groups, c),
        0 <= a < groups.len(),
    ensures
        groups[a].class != c,
{
    if groups[a].class == c {
        assert(has_class(groups, c));
    }
}

/// Registering a window with a fresh handle preserves the registry invariant.
proof fn lemma_register_wf(groups: Seq<GroupModel>, c: Seq<char>, h: u64, t: Seq<char>)
    requires
        wf_groups(groups),
        !has_handle(groups, h),
    ensures
        wf_groups(spec_register(groups, c, h, t)),
{
    let r = spec_register(groups, c, h, t);
    let w = WindowModel { handle: h, title: t };
    if has_class(groups, c) {
        let i = class_index(groups, c);
        assert(0 <= i < groups.len() && groups[i].class == c);
        let ln = groups[i].windows.len() as int;
        assert(groups_nonempty(r)) by {
            assert forall|k: int| 0 <= k < r.len() implies #[trigger] r[k].windows.len() > 0 by {
                if k != i {
                    assert(r[k] == groups[k]);
                }
            }
        }
        assert(classes_unique(r)) by {
            assert forall|a: int, b: int| 0 <= a < b < r.len() implies #[trigger] r[a].class
                != #[trigger] r[b].class by {
                assert(r[a].class == groups[a].class);
                assert(r[b].class == groups[b].class);
            }
        }
        assert(handles_unique(r)) by {
            assert forall|i1: int, j1: int, i2: int, j2: int|
                #![trigger r[i1].windows[j1].handle, r[i2].windows[j2].handle]
                0 <= i1 < r.len() && 0 <= j1 < r[i1].windows.len() && 0 <= i2 < r.len() && 0 <= j2
                    < r[i2].windows.len() && !(i1 == i2 && j1 == j2) implies r[i1].windows[j1].handle
                != r[i2].windows[j2].handle by {
                if i1 == i && j1 == ln {
                    assert(r[i1].windows[j1] == w);
                    lemma_fresh_handle(groups, h, i2, j2);
                    assert(r[i2].windows[j2] == groups[i2].windows[j2]);
                } else if i2 == i && j2 == ln {
                    assert(r[i2].windows[j2] == w);
                    lemma_fresh_handle(groups, h, i1, j1);
                    assert(r[i1].windows[j1] == groups[i1].windows[j1]);
                } else {
                    assert(r[i1].windows[j1] == groups[i1].windows[j1]);
                    assert(r[i2].windows[j2] == groups[i2].windows[j2]);
                    assert(groups[i1].windows[j1].handle != groups[i2].windows[j2].handle);
                }
            }
        }
    } else {
        let n = groups.len() as int;
        assert(groups_nonempty(r)) by {
            assert forall|k: int| 0 <= k < r.len() implies #[trigger] r[k].windows.len() > 0 by {
                if k != n {
                    assert(r[k] == groups[k]);
                }
            }
        }
        assert(classes_unique(r)) by {
            assert forall|a: int, b: int| 0 <= a < b < r.len() implies #[trigger] r[a].class
                != #[trigger] r[b].class by {
                if b != n {
                    assert(r[a].class == groups[a].class);
                    assert(r[b].class == groups[b].class);
                } else {
                    assert(r[a].class == groups[a].class);
                    lemma_fresh_class(groups, c, a);
                }
            }
        }
        assert(handles_unique(r)) by {
            assert forall|i1: int, j1: int, i2: int, j2: int|
                #![trigger r[i1].windows[j1].handle, r[i2].windows[j2].handle]
                0 <= i1 < r.len() && 0 <= j1 < r[i1].windows.len() && 0 <= i2 < r.len() && 0 <= j2
                    < r[i2].windows.len() && !(i1 == i2 && j1 == j2) implies r[i1].windows[j1].handle
                != r[i2].windows[j2].handle by {
                if i1 == n {
                    assert(r[i1].windows[j1] == w);
                    lemma_fresh_handle(groups, h, i2, j2);
                    assert(r[i2].windows[j2] == groups[i2].windows[j2]);
                } else if i2 == n {
                    assert(r[i2].windows[j2] == w);
                    lemma_fresh_handle(groups, h, i1, j1);
                    assert(r[i1].windows[j1] == groups[i1].windows[j1]);
                } else {
                    assert(r[i1].windows[j1] == groups[i1].windows[j1]);
                    assert(r[i2].windows[j2] == groups[i2].windows[j2]);
                    assert(groups[i1].windows[j1].handle != groups[i2].windows[j2].handle);
                }
            }
        }
    }
}

/// A position that carries handle `h` is the position that `owner_index` and
/// `window_index` name: under the invariant, handles pin their position.
pub proof fn lemma_handle_position(groups: Seq<GroupModel>, h: u64, i: int, j: int)
    requires
        wf_groups(groups),
        0 <= i < groups.len(),
        0 <= j < groups[i].windows.len(),
        groups[i].windows[j].handle == h,
    ensures
        has_handle(groups, h),
        owner_index(groups, h) == i,
        window_index(groups[i], h) == j,
{
    assert(group_has_handle(groups[i], h));
    assert(has_handle(groups, h));
    let i2 = owner_index(groups, h);
    assert(0 <= i2 < groups.len() && group_has_handle(groups[i2], h));
    let j2 = choose|jj: int| 0 <= jj < groups[i2].windows.len() && groups[i2].windows[jj].handle == h;
    assert(groups[i2].windows[j2].handle == h);
    if !(i == i2 && j == j2) {
        assert(groups[i].windows[j].handle != groups[i2].windows[j2].handle);
    }
    let j3 = window_index(groups[i], h);
    assert(0 <= j3 < groups[i].windows.len() && groups[i].windows[j3].handle == h);
    if !(i == i && j == j3) {
        assert(groups[i].windows[j].handle != groups[i].windows[j3].handle);
    }
}

/// A group whose class is `c` sits at the index that `class_index` names:
/// under the invariant, class names pin their group.
pub proof fn lemma_class_position(groups: Seq<GroupModel>, c: Seq<char>, i: int)
    requires
        classes_unique(groups),
        0 <= i < groups.len(),
        groups[i].class == c,
    ensures
        has_class(groups, c),
        class_index(groups, c) == i,
{
    assert(has_class(groups, c));
    let i2 = class_index(groups, c);
    assert(0 <= i2 < groups.len() && groups[i2].class == c);
    if i2 != i {
        assert(groups[i].class != groups[i2].class);
    }
}

/// Removing a whole group preserves the registry invariant.
#[verifier::rlimit(50)]
proof fn lemma_remove_group_wf(groups: Seq<GroupModel>, i: int)
    requires
        wf_groups(groups),
        0 <= i < groups.len(),
    ensures
        wf_groups(groups.remove(i)),
{
    let r = groups.remove(i);
    assert(groups_nonempty(r)) by {
        assert forall|k: int| 0 <= k < r.len() implies #[trigger] r[k].windows.len() > 0 by {
            if k < i {
                assert(r[k] == groups[k]);
            } else {
                assert(r[k] == groups[k + 1]);
            }
        }
    }
    assert(classes_unique(r)) by {
        assert forall|a: int, b: int| 0 <= a < b < r.len() implies #[trigger] r[a].class
            != #[trigger] r[b].class by {
            let a2 = if a < i { a } else { a + 1 };
            let b2 = if b < i { b } else { b + 1 };
            assert(r[a] == groups[a2]);
            assert(r[b] == groups[b2]);
            assert(groups[a2].class != groups[b2].class);
        }
    }
    assert(handles_unique(r)) by {
        assert forall|i1: int, j1: int, i2: int, j2: int|
            #![trigger r[i1].windows[j1].handle, r[i2].windows[j2].handle]
            0 <= i1 < r.len() && 0 <= j1 < r[i1].windows.len() && 0 <= i2 < r.len() && 0 <= j2
                < r[i2].windows.len() && !(i1 == i2 && j1 == j2) implies r[i1].windows[j1].handle
            != r[i2].windows[j2].handle by {
            let a2 = if i1 < i { i1 } else { i1 + 1 };
            let b2 = if i2 < i { i2 } else { i2 + 1 };
            assert(r[i1] == groups[a2]);
            assert(r[i2] == groups[b2]);
            assert(groups[a2].windows[j1].handle != groups[b2].windows[j2].handle);
        }
    }
}

/// Removing one window of a group that keeps others preserves the registry
/// invariant.
#[verifier::rlimit(50)]
proof fn lemma_remove_window_wf(groups: Seq<GroupModel>, i: int, j: int)
    requires
        wf_groups(groups),
        0 <= i < groups.len(),
        0 <= j < groups[i].windows.len(),
        groups[i].windows.len() != 1,
    ensures
        wf_groups(
            groups.update(
                i,
                GroupModel { class: groups[i].class, windows: groups[i].windows.remove(j) },
            ),
        ),
{
    let r = groups.update(
        i,
        GroupModel { class: groups[i].class, windows: groups[i].windows.remove(j) },
    );
    assert(groups_nonempty(r)) by {
        assert forall|k: int| 0 <= k < r.len() implies #[trigger] r[k].windows.len() > 0 by {
            if k != i {
                assert(r[k] == groups[k]);
            }
        }
    }
    assert(classes_unique(r)) by {
        assert forall|a: int, b: int| 0 <= a < b < r.len() implies #[trigger] r[a].class
            != #[trigger] r[b].class by {
            assert(r[a].class == groups[a].class);
            assert(r[b].class == groups[b].class);
        }
    }
    assert(handles_unique(r)) by {
        assert forall|i1: int, j1: int, i2: int, j2: int|
            #![trigger r[i1].windows[j1].handle, r[i2].windows[j2].handle]
            0 <= i1 < r.len() && 0 <= j1 < r[i1].windows.len() && 0 <= i2 < r.len() && 0 <= j2
                < r[i2].windows.len() && !(i1 == i2 && j1 == j2) implies r[i1].windows[j1].handle
            != r[i2].windows[j2].handle by {
            let ja = if i1 == i && j1 >= j { j1 + 1 } else { j1 };
            let jb = if i2 == i && j2 >= j { j2 + 1 } else { j2 };
            assert(r[i1].windows[j1] == groups[i1].windows[ja]);
            assert(r[i2].windows[j2] == groups[i2].windows[jb]);
            assert(groups[i1].windows[ja].handle != groups[i2].windows[jb].handle);
        }
    }
}

/// Removing the window at a valid position preserves the registry invariant.
proof fn lemma_remove_at_wf(groups: Seq<GroupModel>, i: int, j: int)
    requires
        wf_groups(groups),
        0 <= i < groups.len(),
        0 <= j < groups[i].windows.len(),
    ensures
        wf_groups(spec_remove_at(groups, i, j)),
{
    if groups[i].windows.len() == 1 {
        lemma_remove_group_wf(groups, i);
    } else {
        lemma_remove_window_wf(groups, i, j);
    }
}

/// Where a window of the promoted group came from: position `b` of the new
/// front group held position `src_window(j, b)` before the window at `j`
/// moved to the front.
spec fn src_window(j: int, b: int) -> int {
    if b == 0 {
        j
    } else if b <= j {
        b - 1
    } else {
        b
    }
}

/// Where a group of the promoted registry came from: position `a` held
/// position `src_group(i, a)` before the group at `i` moved to the front.
spec fn src_group(i: int, a: int) -> int {
    if a == 0 {
        i
    } else if a <= i {
        a - 1
    } else {
        a
    }
}

/// After a successful promotion every position maps back to an old one,
/// and the registry invariant is preserved.
#[verifier::rlimit(50)]
proof fn lemma_promote_wf(groups: Seq<GroupModel>, c: Seq<char>, h: u64)
    requires
        wf_groups(groups),
        promote_found(groups, c, h),
    ensures
        wf_groups(spec_promote(groups, c, h)),
{
    let i = class_index(groups, c);
    assert(0 <= i < groups.len() && groups[i].class == c);
    let g = groups[i];
    let j = window_index(g, h);
    assert(0 <= j < g.windows.len() && g.windows[j].handle == h);
    let fronted = GroupModel { class: g.class, windows: seq![g.windows[j]] + g.windows.remove(j) };
    let r = spec_promote(groups, c, h);
    assert(r == seq![fronted] + groups.remove(i));
    assert(r.len() == groups.len());
    assert(r[0] == fronted);
    assert(fronted.windows.len() == g.windows.len());
    assert forall|b: int| 0 <= b < fronted.windows.len() implies #[trigger] fronted.windows[b]
        == g.windows[src_window(j, b)] by {
        if b == 0 {
        } else if b <= j {
            assert(fronted.windows[b] == g.windows.remove(j)[b - 1]);
        } else {
            assert(fronted.windows[b] == g.windows.remove(j)[b - 1]);
        }
    }
    assert forall|a: int| 1 <= a < r.len() implies #[trigger] r[a] == groups[src_group(i, a)] by {
        assert(r[a] == groups.remove(i)[a - 1]);
    }
    assert(groups_nonempty(r)) by {
        assert forall|k: int| 0 <= k < r.len() implies #[trigger] r[k].windows.len() > 0 by {
            if k >= 1 {
                assert(r[k] == groups[src_group(i, k)]);
            }
        }
    }
    assert(classes_unique(r)) by {
        assert forall|a: int, b: int| 0 <= a < b < r.len() implies #[trigger] r[a].class
            != #[trigger] r[b].class by {
            if a == 0 {
                let b2 = src_group(i, b);
                assert(r[b].class == groups[b2].class);
                assert(b2 != i);
                assert(groups[i].class != groups[b2].class);
            } else {
                let a2 = src_group(i, a);
                let b2 = src_group(i, b);
                assert(r[a].class == groups[a2].class);
                assert(r[b].class == groups[b2].class);
                assert(a2 != b2);
                assert(groups[a2].class != groups[b2].class);
            }
        }
    }
    assert(handles_unique(r)) by {
        assert forall|i1: int, j1: int, i2: int, j2: int|
            #![trigger r[i1].windows[j1].handle, r[i2].windows[j2].handle]
            0 <= i1 < r.len() && 0 <= j1 < r[i1].windows.len() && 0 <= i2 < r.len() && 0 <= j2
                < r[i2].windows.len() && !(i1 == i2 && j1 == j2) implies r[i1].windows[j1].handle
            != r[i2].windows[j2].handle by {
            let a1 = if i1 == 0 { i } else { src_group(i, i1) };
            let b1 = if i1 == 0 { src_window(j, j1) } else { j1 };
            let a2 = if i2 == 0 { i } else { src_group(i, i2) };
            let b2 = if i2 == 0 { src_window(j, j2) } else { j2 };
            assert(r[i1].windows[j1] == groups[a1].windows[b1]);
            assert(r[i2].windows[j2] == groups[a2].windows[b2]);
            assert(!(a1 == a2 && b1 == b2));
            assert(groups[a1].windows[b1].handle != groups[a2].windows[b2].handle);
        }
    }
}

/// Law: every group in a well-formed registry is non-empty. Since `new`
/// establishes `wf` and `register`, `unregister` and `promote` preserve it,
/// this holds after every sequence of registry operations.
pub proof fn lemma_groups_always_nonempty(groups: Seq<GroupModel>)
    requires
        wf_groups(groups),
    ensures
        forall|i: int| 0 <= i < groups.len() ==> #[trigger] groups[i].windows.len() > 0,
{
}

/// Law: unregistering a handle removes it, so a second `unregister` of the
/// same handle reports "not found" and leaves the registry unchanged.
pub proof fn lemma_unregister_idempotent_failure(groups: Seq<GroupModel>, h: u64)
    requires
        wf_groups(groups),
    ensures
        !has_handle(spec_unregister(groups, h), h),
        spec_unregister(spec_unregister(groups, h), h) == spec_unregister(groups, h),
{
    let r = spec_unregister(groups, h);
    if has_handle(groups, h) {
        let i = owner_index(groups, h);
        assert(0 <= i < groups.len() && group_has_handle(groups[i], h));
        let j = window_index(groups[i], h);
        assert(0 <= j < groups[i].windows.len() && groups[i].windows[j].handle == h);
        if has_handle(r, h) {
            let a = owner_index(r, h);
            assert(0 <= a < r.len() && group_has_handle(r[a], h));
            let b = window_index(r[a], h);
            assert(0 <= b < r[a].windows.len() && r[a].windows[b].handle == h);
            if groups[i].windows.len() == 1 {
                // The whole group at i left; position (a, b) maps to an old
                // position in a group other than i that also carried h.
                let a2 = if a < i { a } else { a + 1 };
                assert(r[a] == groups[a2]);
                assert(groups[a2].windows[b].handle == groups[i].windows[j].handle);
            } else {
                if a != i {
                    assert(r[a] == groups[a]);
                    assert(groups[a].windows[b].handle == groups[i].windows[j].handle);
                } else {
                    let b2 = if b < j { b } else { b + 1 };
                    assert(r[a].windows[b] == groups[i].windows[b2]);
                    assert(groups[i].windows[b2].handle == groups[i].windows[j].handle);
                }
            }
        }
    }
}

/// Law: a successful promotion puts the named group first and the named
/// window first within it, and preserves the relative order of all other
/// groups and of the group's other windows.
pub proof fn lemma_promote_moves_to_front(groups: Seq<GroupModel>, c: Seq<char>, h: u64)
    requires
        wf_groups(groups),
        promote_found(groups, c, h),
    ensures
        spec_promote(groups, c, h).len() == groups.len(),
        spec_promote(groups, c, h)[0].class == c,
        spec_promote(groups, c, h)[0].windows[0].handle == h,
        spec_promote(groups, c, h).skip(1) == groups.remove(class_index(groups, c)),
        spec_promote(groups, c, h)[0].windows.skip(1) == groups[class_index(groups, c)].windows
            .remove(window_index(groups[class_index(groups, c)], h)),
{
    let i = class_index(groups, c);
    assert(0 <= i < groups.len() && groups[i].class == c);
    let g = groups[i];
    let j = window_index(g, h);
    assert(0 <= j < g.windows.len() && g.windows[j].handle == h);
    let fronted = GroupModel { class: g.class, windows: seq![g.windows[j]] + g.windows.remove(j) };
    let r = spec_promote(groups, c, h);
    assert(r == seq![fronted] + groups.remove(i));
    assert(r.skip(1) =~= groups.remove(i));
    assert(r[0].windows.skip(1) =~= g.windows.remove(j));
}

/// An exact copy of one window entry.
fn copy_entry(e: &WindowEntry) -> (r: WindowEntry)
    ensures
        r@ == e@,
{
    WindowEntry { handle: e.handle, title: e.title.clone() }
}

/// An exact copy of one application group.
fn copy_group(g: &AppGroup) -> (r: AppGroup)
    ensures
        r@ == g@,
{
    let n = g.windows.len();
    let mut ws: Vec<WindowEntry> = Vec::new();
    let mut i: usize = 0;
    while i < n
        invariant
            n == g.windows.len(),
            i <= n,
            ws@.len() == i,
            forall|k: int|
                0 <= k < i ==> #[trigger] ws.deep_view()[k] == g.windows.deep_view()[k],
        decreases n - i,
    {
        let ghost ws0 = ws;
        proof {
            assert(g.windows.deep_view()[i as int] == g.windows@[i as int]@);
        }
        ws.push(copy_entry(&g.windows[i]));
        proof {
            assert forall|k: int| 0 <= k < i as int + 1 implies #[trigger] ws.deep_view()[k]
                == g.windows.deep_view()[k] by {
                assert(ws.deep_view()[k] == ws@[k]@);
                if k < i as int {
                    assert(ws@[k] == ws0@[k]);
                    assert(ws0.deep_view()[k] == ws0@[k]@);
                    assert(ws0.deep_view()[k] == g.windows.deep_view()[k]);
                }
            }
        }
        i += 1;
    }
    let r = AppGroup { class: g.class.clone(), windows: ws };
    proof {
        assert(r@.windows =~= g@.windows);
        assert(r@ =~~= g@);
    }
    r
}

/// In-memory model of open windows grouped by application,
/// most-recently-activated group first.
pub struct WindowRegistry {
    groups: Vec<AppGroup>,
}

impl View for WindowRegistry {
    type V = Seq<GroupModel>;

    closed spec fn view(&self) -> Seq<GroupModel> {
        self.groups.deep_view()
    }
}

impl WindowRegistry {
    /// The registry invariant, established by `new` and preserved by every
    /// operation: every group non-empty, classes unique, handles unique.
    pub open spec fn wf(&self) -> bool {
        wf_groups(self@)
    }

    /// An empty registry.
    pub fn new() -> (r: WindowRegistry)
        ensures
            r@ == Seq::<GroupModel>::empty(),
            r.wf(),
    {
        let r = WindowRegistry { groups: Vec::new() };
        proof {
            assert(r@ =~= Seq::<GroupModel>::empty());
        }
        r
    }

    /// The position of the group whose class is `class`, if any.
    fn app_pos(&self, class: &String) -> (r: Option<usize>)
        ensures
            match r {
                Some(i) => 0 <= i < self@.len() && self@[i as int].class == class@,
                None => !has_class(self@, class@),
            },
    {
        let n = self.groups.len();
        let mut i: usize = 0;
        while i < n
            invariant
                n == self.groups.len(),
                i <= n,
                forall|k: int| 0 <= k < i ==> #[trigger] self@[k].class != class@,
            decreases n - i,
        {
            proof {
                assert(self@[i as int] == self.groups@[i as int]@);
            }
            if self.groups[i].class.eq(class) {
                return Some(i);
            }
            i += 1;
        }
        None
    }

    /// The position of the window carrying `handle` inside `windows`, if any.
    fn window_pos(windows: &Vec<WindowEntry>, handle: u64) -> (r: Option<usize>)
        ensures
            match r {
                Some(j) => 0 <= j < windows.deep_view().len() && windows.deep_view()[j as int].handle
                    == handle,
                None => forall|j: int|
                    0 <= j < windows.deep_view().len() ==> #[trigger] windows.deep_view()[j].handle
                        != handle,
            },
    {
        let n = windows.len();
        let mut j: usize = 0;
        while j < n
            invariant
                n == windows.len(),
                j <= n,
                forall|k: int| 0 <= k < j ==> #[trigger] windows.deep_view()[k].handle != handle,
            decreases n - j,
        {
            proof {
                assert(windows.deep_view()[j as int] == windows@[j as int]@);
            }
            if windows[j].handle == handle {
                return Some(j);
            }
            j += 1;
        }
        None
    }

    /// Whether some window of some group carries `handle`.
    pub fn contains_handle(&self, handle: u64) -> (r: bool)
        requires
            self.wf(),
        ensures
            r == has_handle(self@, handle),
    {
        let n = self.groups.len();
        let mut i: usize = 0;
        while i < n
            invariant
                n == self.groups.len(),
                i <= n,
                forall|k: int| 0 <= k < i ==> !group_has_handle(#[trigger] self@[k], handle),
            decreases n - i,
        {
            proof {
                assert(self@[i as int] == self.groups@[i as int]@);
            }
            match Self::window_pos(&self.groups[i].windows, handle) {
                Some(j) => {
                    proof {
                        assert(self@[i as int].windows[j as int].handle == handle);
                        assert(group_has_handle(self@[i as int], handle));
                    }
                    return true;
                },
                None => {
                    proof {
                        if group_has_handle(self@[i as int], handle) {
                            let jw = window_index(self@[i as int], handle);
                            assert(self@[i as int].windows[jw].handle == handle);
                        }
                    }
                    i += 1;
                },
            }
        }
        proof {
            if has_handle(self@, handle) {
                let iw = owner_index(self@, handle);
                assert(group_has_handle(self@[iw], handle));
            }
        }
        false
    }

    /// Removes the window owning `handle` from its group, and the group with
    /// it when that was its last window. Reports whether `handle` was known;
    /// an unknown handle leaves the registry unchanged.
    pub fn unregister(&mut self, handle: u64) -> (found: bool)
        requires
            old(self).wf(),
        ensures
            final(self).wf(),
            found == has_handle(old(self)@, handle),
            final(self)@ == spec_unregister(old(self)@, handle),
    {
        let n = self.groups.len();
        let mut i: usize = 0;
        while i < n
            invariant
                old(self).wf(),
                n == self.groups.len(),
                i <= n,
                *self == *old(self),
                forall|k: int| 0 <= k < i ==> !group_has_handle(#[trigger] self@[k], handle),
            decreases n - i,
        {
            proof {
                assert(self@[i as int] == self.groups@[i as int]@);
            }
            match Self::window_pos(&self.groups[i].windows, handle) {
                Some(j) => {
                    proof {
                        lemma_handle_position(old(self)@, handle, i as int, j as int);
                        lemma_remove_at_wf(old(self)@, i as int, j as int);
                    }
                    if self.groups[i].windows.len() == 1 {
                        self.groups.remove(i);
                    } else {
                        self.groups[i].windows.remove(j);
                    }
                    proof {
                        assert(self@ =~~= spec_unregister(old(self)@, handle));
                    }
                    return true;
                },
                None => {
                    proof {
                        if group_has_handle(self@[i as int], handle) {
                            let jw = window_index(self@[i as int], handle);
                            assert(self@[i as int].windows[jw].handle == handle);
                        }
                    }
                    i += 1;
                },
            }
        }
        proof {
            if has_handle(self@, handle) {
                let iw = owner_index(self@, handle);
                assert(group_has_handle(self@[iw], handle));
            }
        }
        false
    }

    /// Moves the window owning `handle` to the front of the group of `class`
    /// and that group to the front of the registry. Reports whether both were
    /// found; otherwise the registry is unchanged.
    pub fn promote(&mut self, class: &String, handle: u64) -> (found: bool)
        requires
            old(self).wf(),
        ensures
            final(self).wf(),
            found == promote_found(old(self)@, class@, handle),
            final(self)@ == spec_promote(old(self)@, class@, handle),
    {
        match self.app_pos(class) {
            Some(i) => {
                proof {
                    lemma_class_position(self@, class@, i as int);
                }
                match Self::window_pos(&self.groups[i].windows, handle) {
                    Some(j) => {
                        proof {
                            assert(self@[i as int] == self.groups@[i as int]@);
                            lemma_handle_position(self@, handle, i as int, j as int);
                            lemma_promote_wf(self@, class@, handle);
                        }
                        let mut g = self.groups.remove(i);
                        let w = g.windows.remove(j);
                        g.windows.insert(0, w);
                        self.groups.insert(0, g);
                        proof {
                            assert(self@ =~~= spec_promote(old(self)@, class@, handle));
                        }
                        true
                    },
                    None => {
                        proof {
                            assert(self@[i as int] == self.groups@[i as int]@);
                            if group_has_handle(self@[i as int], handle) {
                                let jw = window_index(self@[i as int], handle);
                                assert(self@[i as int].windows[jw].handle == handle);
                            }
                        }
                        false
                    },
                }
            },
            None => false,
        }
    }

    /// A read-only copy of the registry for presentation, reflecting the
    /// current group and window order exactly.
    pub fn snapshot(&self) -> (r: Vec<AppGroup>)
        ensures
            r.deep_view() == self@,
    {
        let n = self.groups.len();
        let mut r: Vec<AppGroup> = Vec::new();
        let mut i: usize = 0;
        while i < n
            invariant
                n == self.groups.len(),
                i <= n,
                r@.len() == i,
                forall|k: int| 0 <= k < i ==> #[trigger] r.deep_view()[k] == self@[k],
            decreases n - i,
        {
            let ghost r0 = r;
            proof {
                assert(self@[i as int] == self.groups@[i as int]@);
            }
            r.push(copy_group(&self.groups[i]));
            proof {
                assert forall|k: int| 0 <= k < i as int + 1 implies #[trigger] r.deep_view()[k]
                    == self@[k] by {
                    assert(r.deep_view()[k] == r@[k]@);
                    if k < i as int {
                        assert(r@[k] == r0@[k]);
                        assert(r0.deep_view()[k] == r0@[k]@);
                        assert(r0.deep_view()[k] == self@[k]);
                    }
                }
            }
            i += 1;
        }
        proof {
            assert(r.deep_view() =~= self@);
        }
        r
    }

    /// Inserts a new window into the group of `class`, creating that group
    /// if it is absent. The caller guarantees the handle is fresh.
    pub fn register(&mut self, class: String, handle: u64, title: String)
        requires
            old(self).wf(),
            !has_handle(old(self)@, handle),
        ensures
            final(self).wf(),
            final(self)@ == spec_register(old(self)@, class@, handle, title@),
    {
        proof {
            lemma_register_wf(old(self)@, class@, handle, title@);
        }
        let entry = WindowEntry { handle, title };
        match self.app_pos(&class) {
            Some(i) => {
                proof {
                    assert(has_class(old(self)@, class@));
                    let ci = class_index(old(self)@, class@);
                    assert(0 <= ci < old(self)@.len() && old(self)@[ci].class == class@);
                    if ci != i {
                        assert(old(self)@[ci].class != old(self)@[i as int].class);
                    }
                }
                self.groups[i].windows.push(entry);
                proof {
                    assert(self@ =~~= spec_register(old(self)@, class@, handle, title@));
                }
            },
            None => {
                let mut ws: Vec<WindowEntry> = Vec::new();
                ws.push(entry);
                self.groups.push(AppGroup { class, windows: ws });
                proof {
                    assert(self@ =~~= spec_register(old(self)@, class@, handle, title@));
                }
            },
        }
    }
}

} // verus!
