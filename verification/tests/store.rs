use task_tracker::models::{DBState, DbError, Epic, Status, Story};

#[test]
fn created_epic_is_retrievable() {
    let mut db = DBState::new();
    let id = db.create_epic(Epic::new("A".to_string(), "d".to_string())).unwrap();
    assert_eq!(id, 1);
    let epic = db.get_epic_by_id(&id).unwrap();
    assert_eq!(epic.name, "A");
    assert_eq!(epic.description, "d");
    assert_eq!(epic.status, Status::Open);
    assert!(epic.stories.is_empty());
}

#[test]
fn create_and_delete_story_scenario() {
    let mut db = DBState::new();
    let epic_id = db.create_epic(Epic::new("A".to_string(), "d".to_string())).unwrap();
    assert_eq!(epic_id, 1);
    let story_id = db
        .create_story(&epic_id, Story::new("S".to_string(), "d".to_string()))
        .unwrap();
    assert_eq!(story_id, 2);
    assert_eq!(db.get_epic_by_id(&epic_id).unwrap().stories, vec![2]);
    let removed = db.delete_story(&epic_id, &story_id).unwrap();
    assert_eq!(removed.name, "S");
    assert!(db.get_epic_by_id(&epic_id).unwrap().stories.is_empty());
    assert_eq!(db.get_story_by_id(&story_id).unwrap_err(), DbError::NotFound);
}

#[test]
fn delete_epic_cascades_exactly_its_stories() {
    let mut db = DBState::new();
    let e1 = db.create_epic(Epic::new("A".to_string(), "".to_string())).unwrap();
    let e2 = db.create_epic(Epic::new("B".to_string(), "".to_string())).unwrap();
    let s1 = db.create_story(&e1, Story::new("s1".to_string(), "".to_string())).unwrap();
    let s2 = db.create_story(&e1, Story::new("s2".to_string(), "".to_string())).unwrap();
    let s3 = db.create_story(&e2, Story::new("s3".to_string(), "".to_string())).unwrap();
    assert_eq!(db.stories.len(), 3);
    let removed = db.delete_epic(&e1).unwrap();
    assert_eq!(removed.stories, vec![s1, s2]);
    assert_eq!(db.stories.len(), 1);
    assert!(db.get_story_by_id(&s1).is_err());
    assert!(db.get_story_by_id(&s2).is_err());
    assert!(db.get_story_by_id(&s3).is_ok());
    assert_eq!(db.get_epic_by_id(&e1).unwrap_err(), DbError::NotFound);
}

#[test]
fn identifiers_are_never_reused() {
    let mut db = DBState::new();
    let first = db.create_epic(Epic::new("A".to_string(), "".to_string())).unwrap();
    assert_eq!(first, 1);
    db.delete_epic(&first).unwrap();
    let second = db.create_epic(Epic::new("B".to_string(), "".to_string())).unwrap();
    assert_eq!(second, 2);
    assert!(second > first);
    let story = db.create_story(&second, Story::new("S".to_string(), "".to_string())).unwrap();
    assert_eq!(story, 3);
    db.delete_story(&second, &story).unwrap();
    let next = db.create_story(&second, Story::new("T".to_string(), "".to_string())).unwrap();
    assert_eq!(next, 4);
}

#[test]
fn update_epic_status_on_missing_id_leaves_snapshot_unchanged() {
    let mut db = DBState::new();
    db.create_epic(Epic::new("A".to_string(), "d".to_string())).unwrap();
    let before = db.clone();
    let r = db.update_epic_status(&99, Status::Closed);
    assert_eq!(r.unwrap_err(), DbError::NotFound);
    assert_eq!(db, before);
}

#[test]
fn update_statuses() {
    let mut db = DBState::new();
    let e = db.create_epic(Epic::new("A".to_string(), "".to_string())).unwrap();
    let s = db.create_story(&e, Story::new("S".to_string(), "".to_string())).unwrap();
    assert_eq!(db.update_epic_status(&e, Status::InProgress).unwrap().status, Status::InProgress);
    assert_eq!(db.update_epic_status(&e, Status::Resolved).unwrap().status, Status::Resolved);
    assert_eq!(db.update_story_status(&s, Status::Closed).unwrap().status, Status::Closed);
    assert_eq!(db.get_story_by_id(&s).unwrap().status, Status::Closed);
    assert_eq!(db.update_story_status(&99, Status::Open).unwrap_err(), DbError::NotFound);
}

#[test]
fn delete_story_distinct_failure_cases() {
    let mut db = DBState::new();
    let e1 = db.create_epic(Epic::new("A".to_string(), "".to_string())).unwrap();
    let e2 = db.create_epic(Epic::new("B".to_string(), "".to_string())).unwrap();
    let s1 = db.create_story(&e1, Story::new("S".to_string(), "".to_string())).unwrap();
    // Epic does not exist.
    assert_eq!(db.delete_story(&99, &s1).unwrap_err(), DbError::NotFound);
    // Epic exists but does not list the story.
    assert_eq!(db.delete_story(&e2, &s1).unwrap_err(), DbError::NotFound);
    // Story identifier resolves to nothing at all.
    assert_eq!(db.delete_story(&e1, &99).unwrap_err(), DbError::NotFound);
    // Nothing was disturbed.
    assert_eq!(db.get_epic_by_id(&e1).unwrap().stories, vec![s1]);
    assert!(db.get_story_by_id(&s1).is_ok());
}

#[test]
fn delete_story_preserves_order_of_the_rest() {
    let mut db = DBState::new();
    let e = db.create_epic(Epic::new("A".to_string(), "".to_string())).unwrap();
    let s1 = db.create_story(&e, Story::new("1".to_string(), "".to_string())).unwrap();
    let s2 = db.create_story(&e, Story::new("2".to_string(), "".to_string())).unwrap();
    let s3 = db.create_story(&e, Story::new("3".to_string(), "".to_string())).unwrap();
    db.delete_story(&e, &s2).unwrap();
    assert_eq!(db.get_epic_by_id(&e).unwrap().stories, vec![s1, s3]);
}

#[test]
fn delete_epic_on_missing_id_fails() {
    let mut db = DBState::new();
    let before = db.clone();
    assert_eq!(db.delete_epic(&7).unwrap_err(), DbError::NotFound);
    assert_eq!(db, before);
}

#[test]
fn create_story_on_missing_epic_fails() {
    let mut db = DBState::new();
    let r = db.create_story(&1, Story::new("S".to_string(), "".to_string()));
    assert_eq!(r.unwrap_err(), DbError::NotFound);
    assert_eq!(db.last_item_id, 0);
    assert!(db.stories.is_empty());
}
