use toic_backend::draft::{ContentRepository, DraftRepository};
use toic_backend::service::DraftService;
use toic_backend::types::{
    Category, Draft, Principal, RepositoryError, SaveDraftArgs, ServiceError, SortBy, SortOrder,
    StoryContent, StoryDetail,
};
use toic_backend::utils::{estimate_read_time, read_time_from_word_count};

fn author() -> Principal {
    Principal { bytes: vec![1, 2, 3] }
}

fn other() -> Principal {
    Principal { bytes: vec![9] }
}

#[test]
fn read_time() {
    let text = "This is a test text with several words.";
    let read_time = estimate_read_time(text);
    assert_eq!(read_time, 1); // 1 minute for less than 220 words
}

#[test]
fn read_time_rounds_up() {
    assert_eq!(estimate_read_time(""), 0);
    assert_eq!(read_time_from_word_count(0), 0);
    assert_eq!(read_time_from_word_count(220), 1);
    assert_eq!(read_time_from_word_count(221), 2);
    let long = "word ".repeat(441);
    assert_eq!(estimate_read_time(&long), 3);
}

#[test]
fn draft_pages_follow_insertion_order() {
    let mut repo = DraftRepository::new();
    for i in 0..5u64 {
        let d = repo.insert(Draft::new(format!("t{}", i), None, author()), 10 + i).unwrap();
        assert_eq!(d.id, i + 1);
        assert_eq!(d.created_at, 10 + i);
    }
    repo.insert(Draft::new("x".to_string(), None, other()), 20).unwrap();
    let first = repo.author_index.find(&author(), None, 2);
    assert_eq!(first, vec![1, 2]);
    let second = repo.author_index.find(&author(), Some(2), 2);
    assert_eq!(second, vec![3, 4]);
    let rest = repo.author_index.find(&author(), Some(4), 2);
    assert_eq!(rest, vec![5]);
    let newest_first: Vec<u64> = repo.get_drafts_by_author(&author()).iter().map(|d| d.id).collect();
    assert_eq!(newest_first, vec![5, 4, 3, 2, 1]);
}

#[test]
fn update_moves_index_and_delete_removes_it() {
    let mut repo = DraftRepository::new();
    let d = repo.insert(Draft::new("a".to_string(), None, author()), 1).unwrap();
    let mut changed = d.clone();
    changed.author = other();
    let u = repo.update(changed, 7).unwrap();
    assert_eq!(u.updated_at, Some(7));
    assert!(repo.author_index.find(&author(), None, 10).is_empty());
    assert_eq!(repo.author_index.find(&other(), None, 10), vec![1]);
    assert_eq!(repo.delete(1), Ok(1));
    assert_eq!(repo.delete(1), Err(RepositoryError::NotFound));
    assert!(repo.author_index.find(&other(), None, 10).is_empty());
    // ids are never reused
    let again = repo.insert(Draft::new("b".to_string(), None, author()), 2).unwrap();
    assert_eq!(again.id, 2);
    let mut missing = again.clone();
    missing.id = 40;
    assert_eq!(repo.update(missing, 3).unwrap_err(), RepositoryError::NotFound);
    assert_eq!(repo.insert(again, 4).unwrap_err(), RepositoryError::Conflict);
}

#[test]
fn failed_content_insert_rolls_back_draft() {
    let mut contents = ContentRepository::new();
    contents.insert(StoryContent::new(1, "taken".to_string(), other())).unwrap();
    let mut service = DraftService::new(DraftRepository::new(), contents);
    let args = SaveDraftArgs {
        title: Some("title".to_string()),
        content: Some("body".to_string()),
        detail: None,
    };
    let result = service.create_draft(args, author(), 5);
    assert_eq!(
        result.unwrap_err(),
        ServiceError::InternalError {
            reason: "Failed to create draft content: Cannot write on existing entity.".to_string()
        }
    );
    assert!(!service.draft_repository.contains(1));
    assert_eq!(service.draft_repository.count(), 0);
    assert_eq!(service.draft_content_repository.get(1).unwrap().content, "taken");
}

#[test]
fn create_draft_stores_draft_and_content() {
    let mut service = DraftService::new(DraftRepository::new(), ContentRepository::new());
    let empty = service.create_draft(SaveDraftArgs::default(), author(), 1);
    assert_eq!(
        empty.unwrap_err(),
        ServiceError::UnprocessableEntity { reason: "Nothing to save".to_string() }
    );
    let detail = StoryDetail::new("d".to_string(), false, Category::Horror);
    let args = SaveDraftArgs { title: None, content: Some("body".to_string()), detail: Some(detail) };
    let d = service.create_draft(args, author(), 2).unwrap();
    assert_eq!(d.id, 1);
    assert_eq!(d.title, "");
    assert_eq!(service.draft_content_repository.get(1).unwrap().content, "body");
    assert_eq!(service.draft_repository.get(1).unwrap().author, author());
}

#[test]
fn sort_order_predicates() {
    let asc = SortOrder::Asc(SortBy::Id);
    let desc = SortOrder::Desc(SortBy::UpdatedAt);
    assert!(asc.is_asc() && !asc.is_desc() && asc.is_sorted_by_id());
    assert!(desc.is_desc() && !desc.is_asc() && !desc.is_sorted_by_id());
    assert_eq!(SortOrder::default_order(), asc);
    assert_eq!(Category::Fantasy.index_key(), vec![1]);
}

#[test]
fn words_are_split_on_unicode_white_space() {
    assert_eq!(toic_backend::utils::word_count("  one\ttwo\u{00A0}three\u{3000} "), 3);
    assert_eq!(toic_backend::utils::word_count(""), 0);
    assert_eq!(toic_backend::utils::word_count("x"), 1);
}
