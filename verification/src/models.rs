//! Data model of the record store: work-item status, epics, stories, and
//! the snapshot (`DBState`) with its referential-integrity-preserving
//! create/read/update/delete operations.

use std::collections::HashMap;
use vstd::prelude::*;

verus! {

broadcast use vstd::std_specs::hash::group_hash_axioms;

/// An intent produced by a page's input handler and consumed by the
/// navigator.
#[derive(Clone, Copy, Debug, PartialEq, Eq)]
pub enum Action {
    NavigateToEpicDetail { epic_id: u32 },
    NavigateToStoryDetail { epic_id: u32, story_id: u32 },
    NavigateToPreviousPage,
    CreateEpic,
    UpdateEpicStatus { epic_id: u32 },
    DeleteEpic { epic_id: u32 },
    CreateStory { epic_id: u32 },
    UpdateStoryStatus { story_id: u32 },
    DeleteStory { epic_id: u32, story_id: u32 },
    Exit,
}

/// Lifecycle status of an epic or a story.
#[derive(Clone, Copy, Debug, PartialEq, Eq)]
pub enum Status {
    Open,
    InProgress,
    Resolved,
    Closed,
}

/// A top-level work item: metadata plus the ordered list of the
/// identifiers of the stories it contains.
#[derive(Clone, Debug, PartialEq, Eq)]
pub struct Epic {
    pub name: String,
    pub description: String,
    pub status: Status,
    pub stories: Vec<u32>,
}

impl Epic {
    /// A fresh epic: given name and description, status `Open`, no stories.
    pub fn new(name: String, description: String) -> (e: Epic)
        ensures
            e.name == name,
            e.description == description,
            e.status == Status::Open,
            e.stories@ == Seq::<u32>::empty(),
    {
        Epic { name, description, status: Status::Open, stories: Vec::new() }
    }
}

/// A leaf work item belonging to exactly one epic.
#[derive(Clone, Debug, PartialEq, Eq)]
pub struct Story {
    pub name: String,
    pub description: String,
    pub status: Status,
}

impl Story {
    /// A fresh story: given name and description, status `Open`.
    pub fn new(name: String, description: String) -> (s: Story)
        ensures
            s.name == name,
            s.description == description,
            s.status == Status::Open,
    {
        Story { name, description, status: Status::Open }
    }
}

/// The error a store operation reports when a referenced identifier
/// does not resolve.
#[derive(Clone, Copy, Debug, PartialEq, Eq)]
pub enum DbError {
    NotFound,
}

/// The snapshot: the allocation counter and the two identifier-keyed
/// mappings that hold every epic and every story.
#[derive(Clone, Debug, PartialEq)]
pub struct DBState {
    pub last_item_id: u32,
    pub epics: HashMap<u32, Epic>,
    pub stories: HashMap<u32, Story>,
}

impl DBState {
    /// Epic `eid` exists and lists story `sid` in its story sequence.
    pub open spec fn epic_lists(self, eid: u32, sid: u32) -> bool {
        self.epics@.contains_key(eid) && self.epics@[eid].stories@.contains(sid)
    }

    /// Referential integrity of the snapshot:
    /// - every identifier in use is at most `last_item_id`;
    /// - no epic lists the same story twice;
    /// - every listed story identifier is a key of the story mapping;
    /// - every story is listed by exactly one epic.
    pub open spec fn wf(self) -> bool {
        &&& forall|eid: u32| #[trigger] self.epics@.contains_key(eid) ==> eid <= self.last_item_id
        &&& forall|sid: u32| #[trigger] self.stories@.contains_key(sid) ==> sid
            <= self.last_item_id
        &&& forall|eid: u32| #[trigger] self.epics@.contains_key(eid)
            ==> self.epics@[eid].stories@.no_duplicates()
        &&& forall|eid: u32, sid: u32| #[trigger] self.epic_lists(eid, sid)
            ==> self.stories@.contains_key(sid)
        &&& forall|sid: u32| #[trigger] self.stories@.contains_key(sid) ==> exists|eid: u32|
            self.epic_lists(eid, sid)
        &&& forall|e1: u32, e2: u32, sid: u32| #[trigger] self.epic_lists(e1, sid)
            && #[trigger] self.epic_lists(e2, sid) ==> e1 == e2
    }

    /// An empty snapshot: counter at zero, no epics, no stories.
    pub fn new() -> (db: DBState)
        ensures
            db.last_item_id == 0,
            db.epics@ == Map::<u32, Epic>::empty(),
            db.stories@ == Map::<u32, Story>::empty(),
            db.wf(),
    {
        let db = DBState { last_item_id: 0, epics: HashMap::new(), stories: HashMap::new() };
        proof {
            assert(db.wf()) by {
                assert(forall|eid: u32, sid: u32| !(#[trigger] db.epic_lists(eid, sid)));
            }
        }
        db
    }

    /// The identifier the next allocation will return.
    fn next_id(&self) -> (id: u32)
        requires
            self.last_item_id < u32::MAX,
        ensures
            id == self.last_item_id + 1,
    {
        self.last_item_id + 1
    }

    /// Allocates a fresh identifier by bumping the counter.
    fn generate_new_id(&mut self) -> (id: u32)
        requires
            old(self).last_item_id < u32::MAX,
        ensures
            id == old(self).last_item_id + 1,
            final(self).last_item_id == id,
            final(self).epics == old(self).epics,
            final(self).stories == old(self).stories,
    {
        self.last_item_id = self.next_id();
        self.last_item_id
    }
}

/// How `create_epic` relates the snapshot before the call, the snapshot
/// after it, the epic inserted and the identifier returned.
pub open spec fn create_epic_post(pre: DBState, post: DBState, epic: Epic, id: u32) -> bool {
    &&& id == pre.last_item_id + 1
    &&& post.last_item_id == id
    &&& post.epics@ == pre.epics@.insert(id, epic)
    &&& post.stories@ == pre.stories@
}

impl DBState {
    /// Inserts `epic` under a freshly allocated identifier and returns it.
    /// Never fails.
    pub fn create_epic(&mut self, epic: Epic) -> (r: Result<u32, DbError>)
        requires
            old(self).wf(),
            old(self).last_item_id < u32::MAX,
            epic.stories@.len() == 0,
        ensures
            final(self).wf(),
            r is Ok,
            create_epic_post(*old(self), *final(self), epic, r->Ok_0),
            !old(self).epics@.contains_key(r->Ok_0),
            !old(self).stories@.contains_key(r->Ok_0),
    {
        let id = self.generate_new_id();
        self.epics.insert(id, epic);
        proof {
            let pre = *old(self);
            let post = *self;
            assert forall|eid: u32, sid: u32| #[trigger] post.epic_lists(eid, sid) implies pre.epic_lists(
                eid,
                sid,
            ) by {
                if eid == id {
                    assert(post.epics@[id].stories@.len() == 0);
                }
            }
            assert forall|eid: u32, sid: u32| #[trigger] pre.epic_lists(eid, sid) implies post.epic_lists(
                eid,
                sid,
            ) by {}
            assert(post.wf());
        }
        Ok(id)
    }
}

/// How `update_epic_status` relates the snapshots around a successful call.
pub open spec fn update_epic_status_post(
    pre: DBState,
    post: DBState,
    epic_id: u32,
    status: Status,
) -> bool {
    &&& pre.epics@.contains_key(epic_id)
    &&& post.epics@ == pre.epics@.insert(
        epic_id,
        (Epic { status, ..pre.epics@[epic_id] }),
    )
    &&& post.stories@ == pre.stories@
    &&& post.last_item_id == pre.last_item_id
}

/// How `update_story_status` relates the snapshots around a successful call.
pub open spec fn update_story_status_post(
    pre: DBState,
    post: DBState,
    story_id: u32,
    status: Status,
) -> bool {
    &&& pre.stories@.contains_key(story_id)
    &&& post.stories@ == pre.stories@.insert(
        story_id,
        (Story { status, ..pre.stories@[story_id] }),
    )
    &&& post.epics@ == pre.epics@
    &&& post.last_item_id == pre.last_item_id
}

impl DBState {
    /// Read-only lookup of an epic; `NotFound` if the identifier is absent.
    pub fn get_epic_by_id(&self, epic_id: &u32) -> (r: Result<&Epic, DbError>)
        ensures
            self.epics@.contains_key(*epic_id) ==> (r matches Ok(e) && *e == self.epics@[*epic_id]),
            !self.epics@.contains_key(*epic_id) ==> r == Err::<&Epic, DbError>(DbError::NotFound),
    {
        match self.epics.get(epic_id) {
            Some(e) => Ok(e),
            None => Err(DbError::NotFound),
        }
    }

    /// Read-only lookup of a story; `NotFound` if the identifier is absent.
    pub fn get_story_by_id(&self, story_id: &u32) -> (r: Result<&Story, DbError>)
        ensures
            self.stories@.contains_key(*story_id) ==> (r matches Ok(s) && *s == self.stories@[*story_id]),
            !self.stories@.contains_key(*story_id) ==> r == Err::<&Story, DbError>(DbError::NotFound),
    {
        match self.stories.get(story_id) {
            Some(s) => Ok(s),
            None => Err(DbError::NotFound),
        }
    }

    /// Overwrites the status of the epic under `epic_id`; `NotFound`, with
    /// the snapshot unchanged, if the identifier is absent.
    pub fn update_epic_status(&mut self, epic_id: &u32, status: Status) -> (r: Result<
        &Epic,
        DbError,
    >)
        requires
            old(self).wf(),
        ensures
            final(self).wf(),
            old(self).epics@.contains_key(*epic_id) ==> {
                &&& r matches Ok(e)
                &&& *e == final(self).epics@[*epic_id]
                &&& update_epic_status_post(*old(self), *final(self), *epic_id, status)
            },
            !old(self).epics@.contains_key(*epic_id) ==> {
                &&& r matches Err(err) && err == DbError::NotFound
                &&& *final(self) == *old(self)
            },
    {
        if !self.epics.contains_key(epic_id) {
            return Err(DbError::NotFound);
        }
        let mut epic = match self.epics.remove(epic_id) {
            Some(e) => e,
            None => {
                proof {
                    assert(false);
                }
                return Err(DbError::NotFound);
            },
        };
        epic.status = status;
        self.epics.insert(*epic_id, epic);
        proof {
            let pre = *old(self);
            let post = *self;
            assert(post.epics@ =~= pre.epics@.insert(
                *epic_id,
                (Epic { status, ..pre.epics@[*epic_id] }),
            ));
            assert forall|eid: u32, sid: u32| #[trigger] post.epic_lists(eid, sid) implies pre.epic_lists(
                eid,
                sid,
            ) by {}
            assert forall|eid: u32, sid: u32| #[trigger] pre.epic_lists(eid, sid) implies post.epic_lists(
                eid,
                sid,
            ) by {}
            assert(post.wf());
        }
        match self.epics.get(epic_id) {
            Some(e) => Ok(e),
            None => {
                proof {
                    assert(false);
                }
                Err(DbError::NotFound)
            },
        }
    }

    /// Overwrites the status of the story under `story_id`; `NotFound`,
    /// with the snapshot unchanged, if the identifier is absent.
    pub fn update_story_status(&mut self, story_id: &u32, status: Status) -> (r: Result<
        &Story,
        DbError,
    >)
        requires
            old(self).wf(),
        ensures
            final(self).wf(),
            old(self).stories@.contains_key(*story_id) ==> {
                &&& r matches Ok(s)
                &&& *s == final(self).stories@[*story_id]
                &&& update_story_status_post(*old(self), *final(self), *story_id, status)
            },
            !old(self).stories@.contains_key(*story_id) ==> {
                &&& r matches Err(err) && err == DbError::NotFound
                &&& *final(self) == *old(self)
            },
    {
        if !self.stories.contains_key(story_id) {
            return Err(DbError::NotFound);
        }
        let mut story = match self.stories.remove(story_id) {
            Some(s) => s,
            None => {
                proof {
                    assert(false);
                }
                return Err(DbError::NotFound);
            },
        };
        story.status = status;
        self.stories.insert(*story_id, story);
        proof {
            let pre = *old(self);
            let post = *self;
            assert(post.stories@ =~= pre.stories@.insert(
                *story_id,
                (Story { status, ..pre.stories@[*story_id] }),
            ));
            assert forall|eid: u32, sid: u32| #[trigger] post.epic_lists(eid, sid) implies pre.epic_lists(
                eid,
                sid,
            ) by {}
            assert forall|eid: u32, sid: u32| #[trigger] pre.epic_lists(eid, sid) implies post.epic_lists(
                eid,
                sid,
            ) by {}
            assert(post.wf());
        }
        match self.stories.get(story_id) {
            Some(s) => Ok(s),
            None => {
                proof {
                    assert(false);
                }
                Err(DbError::NotFound)
            },
        }
    }
}

/// How `create_story` relates the snapshots around a successful call: the
/// story is inserted under the fresh identifier, and that same identifier
/// is appended to the story list of epic `epic_id`, whose other fields —
/// and every other epic — are untouched.
pub open spec fn create_story_post(
    pre: DBState,
    post: DBState,
    epic_id: u32,
    story: Story,
    id: u32,
) -> bool {
    &&& pre.epics@.contains_key(epic_id)
    &&& id == pre.last_item_id + 1
    &&& post.last_item_id == id
    &&& post.epics@.dom() == pre.epics@.dom()
    &&& post.epics@[epic_id].name == pre.epics@[epic_id].name
    &&& post.epics@[epic_id].description == pre.epics@[epic_id].description
    &&& post.epics@[epic_id].status == pre.epics@[epic_id].status
    &&& post.epics@[epic_id].stories@ == pre.epics@[epic_id].stories@.push(id)
    &&& forall|k: u32| k != epic_id && #[trigger] pre.epics@.contains_key(k) ==> post.epics@[k]
        == pre.epics@[k]
    &&& post.stories@ == pre.stories@.insert(id, story)
}

impl DBState {
    /// Allocates a fresh identifier, appends it to the story list of epic
    /// `epic_id` and inserts `story` under it; `NotFound`, with the
    /// snapshot unchanged, if the epic is absent. The appended entry and
    /// the story-mapping key are the same freshly allocated identifier.
    pub fn create_story(&mut self, epic_id: &u32, story: Story) -> (r: Result<u32, DbError>)
        requires
            old(self).wf(),
            old(self).last_item_id < u32::MAX,
        ensures
            final(self).wf(),
            old(self).epics@.contains_key(*epic_id) ==> {
                &&& r matches Ok(id)
                &&& create_story_post(*old(self), *final(self), *epic_id, story, id)
                &&& !old(self).stories@.contains_key(id)
                &&& !old(self).epics@.contains_key(id)
            },
            !old(self).epics@.contains_key(*epic_id) ==> {
                &&& r matches Err(err) && err == DbError::NotFound
                &&& *final(self) == *old(self)
            },
    {
        if !self.epics.contains_key(epic_id) {
            return Err(DbError::NotFound);
        }
        let id = self.generate_new_id();
        let mut epic = match self.epics.remove(epic_id) {
            Some(e) => e,
            None => {
                proof {
                    assert(false);
                }
                return Err(DbError::NotFound);
            },
        };
        epic.stories.push(id);
        self.epics.insert(*epic_id, epic);
        self.stories.insert(id, story);
        proof {
            let pre = *old(self);
            let post = *self;
            let l = pre.epics@[*epic_id].stories@;
            assert(post.epics@.dom() =~= pre.epics@.dom());
            assert(post.stories@ == pre.stories@.insert(id, story));
            // The fresh identifier is new to every list: listed identifiers
            // are story keys, hence at most the old counter.
            assert forall|eid: u32, sid: u32| #[trigger] post.epic_lists(eid, sid) implies (
            pre.epic_lists(eid, sid) || (eid == *epic_id && sid == id)) by {
                if eid == *epic_id {
                    if sid != id {
                        assert(l.push(id).contains(sid));
                        let i = choose|i: int| 0 <= i < l.push(id).len() && l.push(id)[i] == sid;
                        assert(l[i] == sid);
                        assert(l.contains(sid));
                    }
                }
            }
            assert forall|eid: u32, sid: u32| #[trigger] pre.epic_lists(eid, sid) implies post.epic_lists(
                eid,
                sid,
            ) by {
                if eid == *epic_id {
                    let i = choose|i: int| 0 <= i < l.len() && l[i] == sid;
                    assert(l.push(id)[i] == sid);
                    assert(post.epics@[eid].stories@.contains(sid));
                }
            }
            assert(l.push(id)[l.len() as int] == id);
            assert(post.epic_lists(*epic_id, id));
            assert(post.epics@[*epic_id].stories@.no_duplicates()) by {
                assert forall|i: int, j: int|
                    0 <= i < j < l.push(id).len() implies l.push(id)[i] != l.push(id)[j] by {
                    if j == l.len() as int {
                        assert(l[i] == l.push(id)[i]);
                        assert(l.contains(l[i]));
                        assert(pre.epic_lists(*epic_id, l[i]));
                        assert(pre.stories@.contains_key(l[i]));
                    }
                }
            }
            assert forall|sid: u32| #[trigger] post.stories@.contains_key(sid) implies exists|eid: u32|
                post.epic_lists(eid, sid) by {
                if sid == id {
                    assert(post.epic_lists(*epic_id, id));
                } else {
                    assert(pre.stories@.contains_key(sid));
                    let eid = choose|eid: u32| pre.epic_lists(eid, sid);
                    assert(post.epic_lists(eid, sid));
                }
            }
            assert(post.wf());
        }
        Ok(id)
    }
}

/// Index of the first occurrence of `x` in `v`, if any.
pub(crate) fn find_index(v: &Vec<u32>, x: u32) -> (r: Option<usize>)
    ensures
        match r {
            Some(i) => i < v@.len() && v@[i as int] == x,
            None => !v@.contains(x),
        },
{
    let mut i: usize = 0;
    while i < v.len()
        invariant
            i <= v@.len(),
            forall|j: int| 0 <= j < i ==> v@[j] != x,
        decreases v@.len() - i,
    {
        if v[i] == x {
            return Some(i);
        }
        i += 1;
    }
    None
}

/// The condition under which `delete_story(epic_id, story_id)` succeeds:
/// the epic exists, its story list contains `story_id`, and the story
/// mapping holds `story_id` — three distinct checks.
pub open spec fn delete_story_ok(pre: DBState, epic_id: u32, story_id: u32) -> bool {
    &&& pre.epics@.contains_key(epic_id)
    &&& pre.epics@[epic_id].stories@.contains(story_id)
    &&& pre.stories@.contains_key(story_id)
}

/// How `delete_story` relates the snapshots around a successful call: the
/// story leaves the story mapping, and its identifier leaves the epic's
/// story list with the order of the remaining entries preserved.
pub open spec fn delete_story_post(
    pre: DBState,
    post: DBState,
    epic_id: u32,
    story_id: u32,
    story: Story,
) -> bool {
    &&& delete_story_ok(pre, epic_id, story_id)
    &&& story == pre.stories@[story_id]
    &&& post.epics@.dom() == pre.epics@.dom()
    &&& post.epics@[epic_id].name == pre.epics@[epic_id].name
    &&& post.epics@[epic_id].description == pre.epics@[epic_id].description
    &&& post.epics@[epic_id].status == pre.epics@[epic_id].status
    &&& post.epics@[epic_id].stories@ == pre.epics@[epic_id].stories@.remove_value(story_id)
    &&& forall|k: u32| k != epic_id && #[trigger] pre.epics@.contains_key(k) ==> post.epics@[k]
        == pre.epics@[k]
    &&& post.stories@ == pre.stories@.remove(story_id)
    &&& post.last_item_id == pre.last_item_id
}

impl DBState {
    /// Removes `story_id` from epic `epic_id`'s story list and from the
    /// story mapping; `NotFound`, with the snapshot unchanged, if the epic
    /// is absent, the epic does not list the story, or the story mapping
    /// does not hold it.
    pub fn delete_story(&mut self, epic_id: &u32, story_id: &u32) -> (r: Result<Story, DbError>)
        requires
            old(self).wf(),
        ensures
            final(self).wf(),
            delete_story_ok(*old(self), *epic_id, *story_id) ==> {
                &&& r matches Ok(s)
                &&& delete_story_post(*old(self), *final(self), *epic_id, *story_id, s)
            },
            !delete_story_ok(*old(self), *epic_id, *story_id) ==> {
                &&& r matches Err(err) && err == DbError::NotFound
                &&& *final(self) == *old(self)
            },
    {
        let idx_opt = match self.epics.get(epic_id) {
            Some(e) => find_index(&e.stories, *story_id),
            None => {
                return Err(DbError::NotFound);
            },
        };
        let idx = match idx_opt {
            Some(i) => i,
            None => {
                return Err(DbError::NotFound);
            },
        };
        if !self.stories.contains_key(story_id) {
            return Err(DbError::NotFound);
        }
        let mut epic = match self.epics.remove(epic_id) {
            Some(e) => e,
            None => {
                proof {
                    assert(false);
                }
                return Err(DbError::NotFound);
            },
        };
        let ghost l = epic.stories@;
        epic.stories.remove(idx);
        self.epics.insert(*epic_id, epic);
        let story = match self.stories.remove(story_id) {
            Some(s) => s,
            None => {
                proof {
                    assert(false);
                }
                return Err(DbError::NotFound);
            },
        };
        proof {
            let pre = *old(self);
            let post = *self;
            let sid = *story_id;
            l.remove_ensures(idx as int);
            assert(pre.epic_lists(*epic_id, sid));
            assert(l.no_duplicates());
            // The found index is the only occurrence, so removing there is
            // removing the value.
            assert(l.remove(idx as int) == l.remove_value(sid)) by {
                assert(l.contains(sid));
                l.index_of_first_ensures(sid);
                let i = l.index_of_first(sid)->Some_0;
                assert(l[i] == sid);
                assert(i == idx as int);
            }
            assert(post.epics@.dom() =~= pre.epics@.dom());
            // Every post-state list entry was already listed before.
            assert forall|eid: u32, s: u32| #[trigger] post.epic_lists(eid, s) implies pre.epic_lists(
                eid,
                s,
            ) && !(eid == *epic_id && s == sid) by {
                if eid == *epic_id {
                    let rl = l.remove(idx as int);
                    let j = choose|j: int| 0 <= j < rl.len() && rl[j] == s;
                    if j < idx as int {
                        assert(l[j] == s);
                    } else {
                        assert(l[j + 1] == s);
                    }
                    assert(l.contains(s));
                    if s == sid {
                        if j < idx as int {
                            assert(l[j] == l[idx as int]);
                            assert(false);
                        } else {
                            assert(l[j + 1] == l[idx as int]);
                            assert(false);
                        }
                    }
                }
            }
            // No other epic lists the removed story.
            assert forall|eid: u32, s: u32|
                #[trigger] pre.epic_lists(eid, s) && !(eid == *epic_id && s == sid) implies post.epic_lists(
                eid,
                s,
            ) by {
                if eid == *epic_id {
                    let j = choose|j: int| 0 <= j < l.len() && l[j] == s;
                    assert(j != idx as int);
                    let rl = l.remove(idx as int);
                    if j < idx as int {
                        assert(rl[j] == s);
                    } else {
                        assert(rl[j - 1] == s);
                    }
                    assert(post.epics@[eid].stories@.contains(s));
                }
            }
            assert forall|s: u32| #[trigger] post.stories@.contains_key(s) implies exists|eid: u32|
                post.epic_lists(eid, s) by {
                let eid = choose|eid: u32| pre.epic_lists(eid, s);
                assert(pre.epic_lists(eid, s));
                if eid == *epic_id && s == sid {
                    assert(false);
                }
                assert(post.epic_lists(eid, s));
            }
            assert forall|eid: u32| #[trigger] post.epics@.contains_key(eid) implies post.epics@[eid].stories@.no_duplicates() by {
                if eid == *epic_id {
                    let rl = l.remove(idx as int);
                    assert forall|i: int, j: int| 0 <= i < j < rl.len() implies rl[i] != rl[j] by {
                        let i0: int = if i < idx as int {
                            i
                        } else {
                            i + 1
                        };
                        let j0: int = if j < idx as int {
                            j
                        } else {
                            j + 1
                        };
                        assert(rl[i] == l[i0] && rl[j] == l[j0]);
                    }
                }
            }
            assert(post.wf());
        }
        Ok(story)
    }
}

/// How `delete_epic` relates the snapshots around a successful call: the
/// epic leaves the epic mapping, and every story it listed leaves the
/// story mapping.
pub open spec fn delete_epic_post(pre: DBState, post: DBState, epic_id: u32, epic: Epic) -> bool {
    &&& pre.epics@.contains_key(epic_id)
    &&& epic == pre.epics@[epic_id]
    &&& post.epics@ == pre.epics@.remove(epic_id)
    &&& post.stories@ == pre.stories@.remove_keys(epic.stories@.to_set())
    &&& post.last_item_id == pre.last_item_id
}

impl DBState {
    /// Removes the epic under `epic_id` and cascades: every story listed
    /// by it also leaves the story mapping. `NotFound`, with the snapshot
    /// unchanged, if the identifier is absent.
    pub fn delete_epic(&mut self, epic_id: &u32) -> (r: Result<Epic, DbError>)
        requires
            old(self).wf(),
        ensures
            final(self).wf(),
            old(self).epics@.contains_key(*epic_id) ==> {
                &&& r matches Ok(e)
                &&& delete_epic_post(*old(self), *final(self), *epic_id, e)
            },
            !old(self).epics@.contains_key(*epic_id) ==> {
                &&& r matches Err(err) && err == DbError::NotFound
                &&& *final(self) == *old(self)
            },
    {
        if !self.epics.contains_key(epic_id) {
            return Err(DbError::NotFound);
        }
        let epic = match self.epics.remove(epic_id) {
            Some(e) => e,
            None => {
                proof {
                    assert(false);
                }
                return Err(DbError::NotFound);
            },
        };
        let ghost pre = *old(self);
        let ghost l = epic.stories@;
        let ghost stories0 = self.stories@;
        let mut i: usize = 0;
        while i < epic.stories.len()
            invariant
                i <= l.len(),
                epic.stories@ == l,
                self.epics@ == pre.epics@.remove(*epic_id),
                self.last_item_id == pre.last_item_id,
                self.stories@ == stories0.remove_keys(l.take(i as int).to_set()),
            decreases l.len() - i,
        {
            let sid = epic.stories[i];
            let ghost before = self.stories@;
            self.stories.remove(&sid);
            proof {
                assert(l.take(i + 1) =~= l.take(i as int).push(sid));
                broadcast use vstd::seq_lib::group_seq_properties;

                assert(l.take(i + 1).to_set() =~= l.take(i as int).to_set().insert(sid));
                assert(before.remove(sid) =~= stories0.remove_keys(l.take(i + 1).to_set()));
            }
            i += 1;
        }
        proof {
            assert(l.take(l.len() as int) =~= l);
            let post = *self;
            assert(post.stories@ == stories0.remove_keys(l.to_set()));
            // A story of a surviving epic is not among the cascaded ones:
            // it would have to be listed by the deleted epic as well.
            assert forall|eid: u32, s: u32| #[trigger] post.epic_lists(eid, s) implies pre.epic_lists(
                eid,
                s,
            ) && eid != *epic_id by {}
            assert forall|eid: u32, s: u32|
                #[trigger] pre.epic_lists(eid, s) && eid != *epic_id implies post.epic_lists(
                eid,
                s,
            ) by {}
            assert forall|eid: u32, s: u32| #[trigger] post.epic_lists(eid, s) implies post.stories@.contains_key(
                s,
            ) by {
                assert(pre.epic_lists(eid, s));
                assert(pre.stories@.contains_key(s));
                if l.to_set().contains(s) {
                    assert(l.contains(s));
                    assert(pre.epic_lists(*epic_id, s));
                    assert(eid == *epic_id);
                    assert(false);
                }
            }
            assert forall|s: u32| #[trigger] post.stories@.contains_key(s) implies exists|eid: u32|
                post.epic_lists(eid, s) by {
                assert(pre.stories@.contains_key(s));
                let eid = choose|eid: u32| pre.epic_lists(eid, s);
                assert(pre.epic_lists(eid, s));
                if eid == *epic_id {
                    assert(l.contains(s));
                    assert(l.to_set().contains(s));
                    assert(false);
                }
                assert(post.epic_lists(eid, s));
            }
            assert(post.wf());
        }
        Ok(epic)
    }
}

/// A freshly created epic is retrievable under the identifier that
/// `create_epic` returned, with status `Open` and an empty story list
/// (what `get_epic_by_id` then hands back is exactly this mapping entry).
pub proof fn lemma_created_epic_retrievable(pre: DBState, post: DBState, epic: Epic, id: u32)
    requires
        create_epic_post(pre, post, epic, id),
        epic.status == Status::Open,
        epic.stories@.len() == 0,
    ensures
        post.epics@.contains_key(id),
        post.epics@[id].status == Status::Open,
        post.epics@[id].stories@.len() == 0,
{
}

/// After `create_story` and then `delete_story` of the same identifier,
/// the epic's story list no longer contains it and the story mapping no
/// longer resolves it.
pub proof fn lemma_story_gone_after_delete(
    s0: DBState,
    s1: DBState,
    s2: DBState,
    epic_id: u32,
    story: Story,
    story_id: u32,
    removed: Story,
)
    requires
        s0.wf(),
        create_story_post(s0, s1, epic_id, story, story_id),
        delete_story_post(s1, s2, epic_id, story_id, removed),
    ensures
        !s2.epics@[epic_id].stories@.contains(story_id),
        !s2.stories@.contains_key(story_id),
{
    let l0 = s0.epics@[epic_id].stories@;
    let l1 = s1.epics@[epic_id].stories@;
    assert(l1 == l0.push(story_id));
    // The fresh identifier exceeds every identifier the old snapshot
    // listed, so it occurs exactly once after the push.
    assert forall|j: int| 0 <= j < l0.len() implies l0[j] != story_id by {
        assert(l0.contains(l0[j]));
        assert(s0.epic_lists(epic_id, l0[j]));
        assert(s0.stories@.contains_key(l0[j]));
    }
    l1.index_of_first_ensures(story_id);
    assert(l1.contains(story_id)) by {
        assert(l1[l0.len() as int] == story_id);
    }
    let i = l1.index_of_first(story_id)->Some_0;
    assert(i == l0.len() as int);
    l1.remove_ensures(i);
    let rl = l1.remove(i);
    assert(s2.epics@[epic_id].stories@ == rl);
    assert forall|j: int| 0 <= j < rl.len() implies rl[j] != story_id by {
        assert(rl[j] == l1[j]);
        assert(l1[j] == l0[j]);
    }
}

/// Deleting an epic with N listed stories shrinks the story mapping by
/// exactly N: each listed story leaves it, and nothing else does.
pub proof fn lemma_delete_epic_cascade_count(pre: DBState, post: DBState, epic_id: u32, epic: Epic)
    requires
        pre.wf(),
        pre.stories@.dom().finite(),
        delete_epic_post(pre, post, epic_id, epic),
    ensures
        post.stories@.dom().len() == pre.stories@.dom().len() - epic.stories@.len(),
        forall|j: int| 0 <= j < epic.stories@.len()
            ==> !post.stories@.contains_key(#[trigger] epic.stories@[j]),
        forall|sid: u32| #[trigger] pre.stories@.contains_key(sid) && !epic.stories@.contains(sid)
            ==> post.stories@.contains_key(sid),
{
    broadcast use vstd::seq_lib::seq_to_set_is_finite;

    let l = epic.stories@;
    assert(l.no_duplicates());
    assert forall|sid: u32| #[trigger] l.to_set().contains(sid) implies pre.stories@.contains_key(
        sid,
    ) by {
        assert(l.contains(sid));
        assert(pre.epic_lists(epic_id, sid));
    }
    l.unique_seq_to_set();
    pre.stories@.lemma_remove_keys_len(l.to_set());
    assert forall|j: int| 0 <= j < l.len() implies !post.stories@.contains_key(l[j]) by {
        assert(l.contains(l[j]));
        assert(l.to_set().contains(l[j]));
    }
}

/// Identifier allocation is strictly increasing and never reuses an
/// identifier: creating an epic, deleting it, and creating again yields a
/// strictly larger identifier than the first call did.
pub proof fn lemma_ids_never_reused(
    s0: DBState,
    s1: DBState,
    s2: DBState,
    s3: DBState,
    e1: Epic,
    id1: u32,
    removed: Epic,
    e2: Epic,
    id2: u32,
)
    requires
        create_epic_post(s0, s1, e1, id1),
        delete_epic_post(s1, s2, id1, removed),
        create_epic_post(s2, s3, e2, id2),
    ensures
        id2 > id1,
{
}

} // verus!
