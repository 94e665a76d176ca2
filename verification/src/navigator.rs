//! The navigator: a last-in-first-out stack of pages and the dispatch of
//! actions into page transitions and store mutations. The prompts a
//! transition needs (new fields, a confirmation, a status choice) are
//! collected by the caller beforehand and handed in as a plain reply, so
//! every decision the dispatch takes is verified.

use crate::models::{
    create_story_post, delete_epic_post, delete_story_ok, delete_story_post,
    update_epic_status_post, update_story_status_post, Action, DBState, DbError, Epic, Status,
    Story,
};
use crate::pages::Page;
use vstd::prelude::*;

verus! {

/// Which prompt the caller must run before dispatching an action.
#[derive(Clone, Copy, Debug, PartialEq, Eq)]
pub enum PromptKind {
    CreateEpic,
    CreateStory,
    DeleteEpic,
    DeleteStory,
    UpdateStatus,
    NoPrompt,
}

/// What the prompt for an action yielded, handed to `handle_action` as a
/// plain value.
#[derive(Clone, Debug, PartialEq, Eq)]
pub enum PromptReply {
    EpicFields { name: String, description: String },
    StoryFields { name: String, description: String },
    Confirm { confirmed: bool },
    NewStatus { status: Option<Status> },
    Nothing,
}

/// The prompt kind each action requires.
pub open spec fn prompt_for(action: Action) -> PromptKind {
    match action {
        Action::CreateEpic => PromptKind::CreateEpic,
        Action::CreateStory { .. } => PromptKind::CreateStory,
        Action::DeleteEpic { .. } => PromptKind::DeleteEpic,
        Action::DeleteStory { .. } => PromptKind::DeleteStory,
        Action::UpdateEpicStatus { .. } => PromptKind::UpdateStatus,
        Action::UpdateStoryStatus { .. } => PromptKind::UpdateStatus,
        _ => PromptKind::NoPrompt,
    }
}

/// Whether a reply has the shape the action's prompt yields.
pub open spec fn reply_matches(action: Action, reply: PromptReply) -> bool {
    match prompt_for(action) {
        PromptKind::CreateEpic => reply is EpicFields,
        PromptKind::CreateStory => reply is StoryFields,
        PromptKind::DeleteEpic => reply is Confirm,
        PromptKind::DeleteStory => reply is Confirm,
        PromptKind::UpdateStatus => reply is NewStatus,
        PromptKind::NoPrompt => reply is Nothing,
    }
}

/// Names the prompt the caller must run before dispatching `action`.
pub fn required_prompt(action: &Action) -> (k: PromptKind)
    ensures
        k == prompt_for(*action),
{
    match action {
        Action::CreateEpic => PromptKind::CreateEpic,
        Action::CreateStory { .. } => PromptKind::CreateStory,
        Action::DeleteEpic { .. } => PromptKind::DeleteEpic,
        Action::DeleteStory { .. } => PromptKind::DeleteStory,
        Action::UpdateEpicStatus { .. } => PromptKind::UpdateStatus,
        Action::UpdateStoryStatus { .. } => PromptKind::UpdateStatus,
        _ => PromptKind::NoPrompt,
    }
}

/// The page stack after a pop: one page fewer, or still empty.
pub open spec fn popped(pages: Seq<Page>) -> Seq<Page> {
    if pages.len() > 0 {
        pages.drop_last()
    } else {
        pages
    }
}

/// How one dispatch relates the page stack and the snapshot before the
/// call to those after it, per action and prompt reply. A `NotFound`
/// from the store surfaces as the result, with stack and snapshot
/// otherwise untouched.
pub open spec fn dispatch_post(
    pre_nav: Seq<Page>,
    post_nav: Seq<Page>,
    pre_db: DBState,
    post_db: DBState,
    action: Action,
    reply: PromptReply,
    r: Result<(), DbError>,
) -> bool {
    match action {
        Action::NavigateToEpicDetail { epic_id } => {
            &&& post_nav == pre_nav.push(Page::EpicDetail { epic_id })
            &&& post_db == pre_db
            &&& r is Ok
        },
        Action::NavigateToStoryDetail { epic_id, story_id } => {
            &&& post_nav == pre_nav.push(Page::StoryDetail { epic_id, story_id })
            &&& post_db == pre_db
            &&& r is Ok
        },
        Action::NavigateToPreviousPage => {
            &&& post_nav == popped(pre_nav)
            &&& post_db == pre_db
            &&& r is Ok
        },
        Action::CreateEpic => {
            &&& post_nav == pre_nav
            &&& r is Ok
            &&& (reply matches PromptReply::EpicFields { name, description } ==> {
                let id = (pre_db.last_item_id + 1) as u32;
                &&& post_db.last_item_id == id
                &&& post_db.epics@.contains_key(id)
                &&& post_db.epics@[id].name == name
                &&& post_db.epics@[id].description == description
                &&& post_db.epics@[id].status == Status::Open
                &&& post_db.epics@[id].stories@.len() == 0
                &&& post_db.epics@.remove(id) == pre_db.epics@
                &&& post_db.stories@ == pre_db.stories@
            })
        },
        Action::UpdateEpicStatus { epic_id } => {
            &&& post_nav == pre_nav
            &&& (reply matches PromptReply::NewStatus { status } ==> match status {
                Some(st) => {
                    if pre_db.epics@.contains_key(epic_id) {
                        &&& update_epic_status_post(pre_db, post_db, epic_id, st)
                        &&& r is Ok
                    } else {
                        &&& post_db == pre_db
                        &&& r == Result::<(), DbError>::Err(DbError::NotFound)
                    }
                },
                None => post_db == pre_db && r is Ok,
            })
        },
        Action::DeleteEpic { epic_id } => {
            reply matches PromptReply::Confirm { confirmed } ==> if !confirmed {
                &&& post_nav == pre_nav
                &&& post_db == pre_db
                &&& r is Ok
            } else if pre_db.epics@.contains_key(epic_id) {
                &&& delete_epic_post(pre_db, post_db, epic_id, pre_db.epics@[epic_id])
                &&& post_nav == popped(pre_nav)
                &&& r is Ok
            } else {
                &&& post_nav == pre_nav
                &&& post_db == pre_db
                &&& r == Result::<(), DbError>::Err(DbError::NotFound)
            }
        },
        Action::CreateStory { epic_id } => {
            &&& post_nav == pre_nav
            &&& (reply matches PromptReply::StoryFields { name, description }
                ==> if pre_db.epics@.contains_key(epic_id) {
                let id = (pre_db.last_item_id + 1) as u32;
                &&& post_db.stories@.contains_key(id)
                &&& post_db.stories@[id].name == name
                &&& post_db.stories@[id].description == description
                &&& post_db.stories@[id].status == Status::Open
                &&& (exists|s: Story| create_story_post(pre_db, post_db, epic_id, s, id))
                &&& r is Ok
            } else {
                &&& post_db == pre_db
                &&& r == Result::<(), DbError>::Err(DbError::NotFound)
            })
        },
        Action::UpdateStoryStatus { story_id } => {
            &&& post_nav == pre_nav
            &&& (reply matches PromptReply::NewStatus { status } ==> match status {
                Some(st) => {
                    if pre_db.stories@.contains_key(story_id) {
                        &&& update_story_status_post(pre_db, post_db, story_id, st)
                        &&& r is Ok
                    } else {
                        &&& post_db == pre_db
                        &&& r == Result::<(), DbError>::Err(DbError::NotFound)
                    }
                },
                None => post_db == pre_db && r is Ok,
            })
        },
        Action::DeleteStory { epic_id, story_id } => {
            reply matches PromptReply::Confirm { confirmed } ==> if !confirmed {
                &&& post_nav == pre_nav
                &&& post_db == pre_db
                &&& r is Ok
            } else if delete_story_ok(pre_db, epic_id, story_id) {
                &&& delete_story_post(pre_db, post_db, epic_id, story_id, pre_db.stories@[story_id])
                &&& post_nav == popped(pre_nav)
                &&& r is Ok
            } else {
                &&& post_nav == pre_nav
                &&& post_db == pre_db
                &&& r == Result::<(), DbError>::Err(DbError::NotFound)
            }
        },
        Action::Exit => {
            &&& post_nav == Seq::<Page>::empty()
            &&& post_db == pre_db
            &&& r is Ok
        },
    }
}

/// The stack of open pages; the snapshot itself is owned by the caller
/// and handed to each dispatch.
pub struct Navigator {
    pub pages: Vec<Page>,
}

impl Navigator {
    /// The initial state: a stack holding exactly the home page.
    pub fn new() -> (nav: Navigator)
        ensures
            nav.pages@ == seq![Page::Home],
    {
        let mut pages: Vec<Page> = Vec::new();
        pages.push(Page::Home);
        proof {
            assert(pages@ =~= seq![Page::Home]);
        }
        Navigator { pages }
    }

    /// The page on top of the stack, or nothing once the stack is empty
    /// (the terminal state: the caller should exit).
    pub fn get_current_page(&self) -> (r: Option<Page>)
        ensures
            self.pages@.len() > 0 ==> r == Some(self.pages@.last()),
            self.pages@.len() == 0 ==> r is None,
    {
        if self.pages.len() == 0 {
            None
        } else {
            Some(self.pages[self.pages.len() - 1])
        }
    }

    /// Dispatches one action: performs the page transition and/or store
    /// mutation the action calls for, using `reply` where the action's
    /// prompt was consulted. A `NotFound` from the store is surfaced to
    /// the caller; the stack is popped only after a confirmed, successful
    /// deletion.
    pub fn handle_action(&mut self, db: &mut DBState, action: Action, reply: PromptReply) -> (r:
        Result<(), DbError>)
        requires
            old(db).wf(),
            old(db).last_item_id < u32::MAX,
            reply_matches(action, reply),
        ensures
            final(db).wf(),
            dispatch_post(
                old(self).pages@,
                final(self).pages@,
                *old(db),
                *final(db),
                action,
                reply,
                r,
            ),
    {
        match action {
            Action::NavigateToEpicDetail { epic_id } => {
                self.pages.push(Page::EpicDetail { epic_id });
                Ok(())
            },
            Action::NavigateToStoryDetail { epic_id, story_id } => {
                self.pages.push(Page::StoryDetail { epic_id, story_id });
                Ok(())
            },
            Action::NavigateToPreviousPage => {
                if self.pages.len() > 0 {
                    self.pages.pop();
                }
                Ok(())
            },
            Action::CreateEpic => {
                match reply {
                    PromptReply::EpicFields { name, description } => {
                        let epic = Epic::new(name, description);
                        let ghost pre = *db;
                        let r = db.create_epic(epic);
                        proof {
                            let id = (pre.last_item_id + 1) as u32;
                            assert(db.epics@.remove(id) =~= pre.epics@);
                        }
                        match r {
                            Ok(_) => Ok(()),
                            Err(e) => Err(e),
                        }
                    },
                    _ => {
                        proof {
                            assert(false);
                        }
                        Ok(())
                    },
                }
            },
            Action::UpdateEpicStatus { epic_id } => {
                match reply {
                    PromptReply::NewStatus { status } => {
                        match status {
                            Some(st) => {
                                match db.update_epic_status(&epic_id, st) {
                                    Ok(_) => Ok(()),
                                    Err(e) => Err(e),
                                }
                            },
                            None => Ok(()),
                        }
                    },
                    _ => {
                        proof {
                            assert(false);
                        }
                        Ok(())
                    },
                }
            },
            Action::DeleteEpic { epic_id } => {
                match reply {
                    PromptReply::Confirm { confirmed } => {
                        if confirmed {
                            match db.delete_epic(&epic_id) {
                                Ok(_) => {
                                    if self.pages.len() > 0 {
                                        self.pages.pop();
                                    }
                                    Ok(())
                                },
                                Err(e) => Err(e),
                            }
                        } else {
                            Ok(())
                        }
                    },
                    _ => {
                        proof {
                            assert(false);
                        }
                        Ok(())
                    },
                }
            },
            Action::CreateStory { epic_id } => {
                match reply {
                    PromptReply::StoryFields { name, description } => {
                        let story = Story::new(name, description);
                        match db.create_story(&epic_id, story) {
                            Ok(_) => Ok(()),
                            Err(e) => Err(e),
                        }
                    },
                    _ => {
                        proof {
                            assert(false);
                        }
                        Ok(())
                    },
                }
            },
            Action::UpdateStoryStatus { story_id } => {
                match reply {
                    PromptReply::NewStatus { status } => {
                        match status {
                            Some(st) => {
                                match db.update_story_status(&story_id, st) {
                                    Ok(_) => Ok(()),
                                    Err(e) => Err(e),
                                }
                            },
                            None => Ok(()),
                        }
                    },
                    _ => {
                        proof {
                            assert(false);
                        }
                        Ok(())
                    },
                }
            },
            Action::DeleteStory { epic_id, story_id } => {
                match reply {
                    PromptReply::Confirm { confirmed } => {
                        if confirmed {
                            match db.delete_story(&epic_id, &story_id) {
                                Ok(_) => {
                                    if self.pages.len() > 0 {
                                        self.pages.pop();
                                    }
                                    Ok(())
                                },
                                Err(e) => Err(e),
                            }
                        } else {
                            Ok(())
                        }
                    },
                    _ => {
                        proof {
                            assert(false);
                        }
                        Ok(())
                    },
                }
            },
            Action::Exit => {
                self.pages.clear();
                proof {
                    assert(self.pages@ =~= Seq::<Page>::empty());
                }
                Ok(())
            },
        }
    }
}

} // verus!
