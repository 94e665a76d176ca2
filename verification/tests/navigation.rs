use task_tracker::models::{Action, DBState, DbError, Epic, Status};
use task_tracker::navigator::{Navigator, PromptKind, PromptReply, required_prompt};
use task_tracker::pages::Page;

#[test]
fn navigation_scenario() {
    let mut nav = Navigator::new();
    let mut db = DBState::new();
    assert_eq!(nav.pages, vec![Page::Home]);
    assert_eq!(nav.get_current_page(), Some(Page::Home));

    nav.handle_action(
        &mut db,
        Action::NavigateToEpicDetail { epic_id: 1 },
        PromptReply::Nothing,
    )
    .unwrap();
    assert_eq!(nav.pages, vec![Page::Home, Page::EpicDetail { epic_id: 1 }]);

    nav.handle_action(&mut db, Action::NavigateToPreviousPage, PromptReply::Nothing).unwrap();
    assert_eq!(nav.pages, vec![Page::Home]);

    nav.handle_action(&mut db, Action::Exit, PromptReply::Nothing).unwrap();
    assert!(nav.pages.is_empty());
    assert_eq!(nav.get_current_page(), None);
}

#[test]
fn dispatch_mutates_the_store() {
    let mut nav = Navigator::new();
    let mut db = DBState::new();

    nav.handle_action(
        &mut db,
        Action::CreateEpic,
        PromptReply::EpicFields { name: "A".to_string(), description: "d".to_string() },
    )
    .unwrap();
    let epic = db.get_epic_by_id(&1).unwrap();
    assert_eq!(epic.name, "A");
    assert_eq!(epic.status, Status::Open);

    nav.handle_action(
        &mut db,
        Action::CreateStory { epic_id: 1 },
        PromptReply::StoryFields { name: "S".to_string(), description: "sd".to_string() },
    )
    .unwrap();
    assert_eq!(db.get_epic_by_id(&1).unwrap().stories, vec![2]);
    assert_eq!(db.get_story_by_id(&2).unwrap().name, "S");

    nav.handle_action(
        &mut db,
        Action::UpdateEpicStatus { epic_id: 1 },
        PromptReply::NewStatus { status: Some(Status::Closed) },
    )
    .unwrap();
    assert_eq!(db.get_epic_by_id(&1).unwrap().status, Status::Closed);

    // An unparseable status selection resolves to no action at all.
    nav.handle_action(
        &mut db,
        Action::UpdateStoryStatus { story_id: 2 },
        PromptReply::NewStatus { status: None },
    )
    .unwrap();
    assert_eq!(db.get_story_by_id(&2).unwrap().status, Status::Open);
}

#[test]
fn confirmed_delete_pops_the_stack() {
    let mut nav = Navigator::new();
    let mut db = DBState::new();
    nav.handle_action(
        &mut db,
        Action::CreateEpic,
        PromptReply::EpicFields { name: "A".to_string(), description: String::new() },
    )
    .unwrap();
    nav.handle_action(
        &mut db,
        Action::NavigateToEpicDetail { epic_id: 1 },
        PromptReply::Nothing,
    )
    .unwrap();

    // A declined confirmation changes nothing.
    nav.handle_action(
        &mut db,
        Action::DeleteEpic { epic_id: 1 },
        PromptReply::Confirm { confirmed: false },
    )
    .unwrap();
    assert!(db.get_epic_by_id(&1).is_ok());
    assert_eq!(nav.pages.len(), 2);

    nav.handle_action(
        &mut db,
        Action::DeleteEpic { epic_id: 1 },
        PromptReply::Confirm { confirmed: true },
    )
    .unwrap();
    assert_eq!(db.get_epic_by_id(&1).unwrap_err(), DbError::NotFound);
    assert_eq!(nav.pages, vec![Page::Home]);
}

#[test]
fn failed_store_operation_surfaces_not_found() {
    let mut nav = Navigator::new();
    let mut db = DBState::new();
    let r = nav.handle_action(
        &mut db,
        Action::DeleteEpic { epic_id: 9 },
        PromptReply::Confirm { confirmed: true },
    );
    assert_eq!(r.unwrap_err(), DbError::NotFound);
    assert_eq!(nav.pages, vec![Page::Home]);

    let r = nav.handle_action(
        &mut db,
        Action::UpdateEpicStatus { epic_id: 9 },
        PromptReply::NewStatus { status: Some(Status::Closed) },
    );
    assert_eq!(r.unwrap_err(), DbError::NotFound);
}

#[test]
fn confirmed_delete_story_pops_and_removes() {
    let mut nav = Navigator::new();
    let mut db = DBState::new();
    nav.handle_action(
        &mut db,
        Action::CreateEpic,
        PromptReply::EpicFields { name: "A".to_string(), description: String::new() },
    )
    .unwrap();
    nav.handle_action(
        &mut db,
        Action::CreateStory { epic_id: 1 },
        PromptReply::StoryFields { name: "S".to_string(), description: String::new() },
    )
    .unwrap();
    nav.handle_action(
        &mut db,
        Action::NavigateToStoryDetail { epic_id: 1, story_id: 2 },
        PromptReply::Nothing,
    )
    .unwrap();
    nav.handle_action(
        &mut db,
        Action::DeleteStory { epic_id: 1, story_id: 2 },
        PromptReply::Confirm { confirmed: true },
    )
    .unwrap();
    assert!(db.get_story_by_id(&2).is_err());
    assert!(db.get_epic_by_id(&1).unwrap().stories.is_empty());
    assert_eq!(nav.pages, vec![Page::Home]);
}

#[test]
fn required_prompt_per_action() {
    assert_eq!(required_prompt(&Action::CreateEpic), PromptKind::CreateEpic);
    assert_eq!(required_prompt(&Action::CreateStory { epic_id: 1 }), PromptKind::CreateStory);
    assert_eq!(required_prompt(&Action::DeleteEpic { epic_id: 1 }), PromptKind::DeleteEpic);
    assert_eq!(
        required_prompt(&Action::DeleteStory { epic_id: 1, story_id: 2 }),
        PromptKind::DeleteStory
    );
    assert_eq!(required_prompt(&Action::UpdateEpicStatus { epic_id: 1 }), PromptKind::UpdateStatus);
    assert_eq!(
        required_prompt(&Action::UpdateStoryStatus { story_id: 2 }),
        PromptKind::UpdateStatus
    );
    assert_eq!(required_prompt(&Action::Exit), PromptKind::NoPrompt);
    assert_eq!(required_prompt(&Action::NavigateToPreviousPage), PromptKind::NoPrompt);
    assert_eq!(
        required_prompt(&Action::NavigateToEpicDetail { epic_id: 3 }),
        PromptKind::NoPrompt
    );
}

#[test]
fn create_epic_via_dispatch_allocates_increasing_ids() {
    let mut nav = Navigator::new();
    let mut db = DBState::new();
    for expected in 1..4u32 {
        nav.handle_action(
            &mut db,
            Action::CreateEpic,
            PromptReply::EpicFields { name: format!("e{expected}"), description: String::new() },
        )
        .unwrap();
        assert!(db.get_epic_by_id(&expected).is_ok());
        assert_eq!(db.last_item_id, expected);
    }
}
