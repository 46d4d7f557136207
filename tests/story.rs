use toic_backend::api::api_err;
use toic_backend::draft::{ContentRepository, DraftRepository};
use toic_backend::ledger::LedgerService;
use toic_backend::scoring::{
    calculate_basic_scoring, calculate_category_matching_score, calculate_complete_scoring,
    calculate_time_bonus_scoring,
};
use toic_backend::service::DraftService;
use toic_backend::story::StoryRepository;
use toic_backend::story_service::{assistant_reply, StoryService};
use toic_backend::token_types::{Account, CreateTokenArgs, StakeTokenArgs, TransferArg};
use toic_backend::types::{
    Category, OnboardingArgs, Principal, RepositoryError, SaveDraftArgs, ServiceError, SortBy,
    SortOrder, Story, StoryContent, StoryDetail, StoryInteractionArgs, User,
};
use toic_backend::user::{UserRepository, UserService};

fn writer() -> Principal {
    Principal { bytes: vec![7, 7] }
}

fn reader() -> Principal {
    Principal { bytes: vec![8] }
}

fn story(category: Category, author: Principal) -> Story {
    let mut draft = toic_backend::types::Draft::new("title".to_string(), None, author);
    draft.read_time = 3;
    Story::new(draft, StoryDetail::new("about".to_string(), false, category))
}

#[test]
fn category_listing_needs_even_limit() {
    let mut repo = StoryRepository::new();
    for i in 0..4u64 {
        let c = if i % 2 == 0 { Category::Horror } else { Category::Comedy };
        repo.insert(story(c, writer()), i).unwrap();
    }
    let by_id = SortOrder::Desc(SortBy::Id);
    let odd = repo.get_stories_by_categories(
        vec![Category::Horror, Category::Comedy],
        by_id,
        vec![None, None],
        3,
    );
    assert_eq!(
        odd.unwrap_err(),
        RepositoryError::IllegalArgument { reason: "limit size violation".to_string() }
    );
    let mismatched =
        repo.get_stories_by_categories(vec![Category::Horror], by_id, vec![None, None], 2);
    assert!(matches!(mismatched, Err(RepositoryError::IllegalArgument { .. })));
    let unsupported = repo.get_stories_by_categories(
        vec![Category::Horror],
        SortOrder::Asc(SortBy::UpdatedAt),
        vec![None],
        2,
    );
    assert_eq!(unsupported.unwrap_err(), RepositoryError::UnsupportedOperation);
    let both = repo
        .get_stories_by_categories(
            vec![Category::Horror, Category::Comedy],
            by_id,
            vec![None, None],
            2,
        )
        .unwrap();
    let ids: Vec<u64> = both.iter().map(|s| s.id).collect();
    assert_eq!(ids, vec![3, 4]);
    let next = repo
        .get_stories_by_categories(vec![Category::Horror], by_id, vec![Some(3)], 5)
        .unwrap();
    assert_eq!(next.iter().map(|s| s.id).collect::<Vec<u64>>(), vec![1]);
}

#[test]
fn deleting_story_drops_its_supporters() {
    let mut repo = StoryRepository::new();
    repo.insert(story(Category::Crime, writer()), 1).unwrap();
    repo.insert(story(Category::Crime, writer()), 2).unwrap();
    assert_eq!(repo.support_story(1, &reader(), 2, 0), Ok(2));
    assert_eq!(repo.support_story(2, &reader(), 1, 5), Ok(1));
    assert!(matches!(
        repo.support_story(1, &writer(), 0, 0),
        Err(RepositoryError::IllegalArgument { .. })
    ));
    assert_eq!(repo.get_story_supporter_size(1, &reader()), Ok(Some((2, 0))));
    assert_eq!(repo.delete(1), Ok(1));
    assert_eq!(repo.get_story_supporters(1).unwrap_err(), RepositoryError::NotFound);
    assert_eq!(repo.supporter.entries.len(), 1);
    assert_eq!(repo.get_story_supporter_size(2, &reader()), Ok(Some((1, 5))));
    assert_eq!(repo.remove_story_support(2, &reader()), Ok(2));
    assert_eq!(repo.remove_story_support(2, &reader()), Err(RepositoryError::NotFound));
    assert_eq!(repo.get_stories_by_author(&writer(), None, 10).unwrap().len(), 1);
}

#[test]
fn score_listing_is_highest_first() {
    let mut repo = StoryRepository::new();
    for score in [5u64, 50, 20] {
        let mut s = story(Category::Fantasy, writer());
        s.score = score;
        repo.insert(s, 0).unwrap();
    }
    let top = repo.get_stories_by_score(None, 2).unwrap();
    assert_eq!(top.iter().map(|s| s.score).collect::<Vec<u64>>(), vec![50, 20]);
    let rest = repo.get_stories_by_score(Some((20, 3)), 2).unwrap();
    assert_eq!(rest.iter().map(|s| s.score).collect::<Vec<u64>>(), vec![5]);
}

#[test]
fn scoring_formulas() {
    assert_eq!(calculate_time_bonus_scoring(0, 0), 3660);
    assert_eq!(calculate_time_bonus_scoring(0, 259_200 * 1_000_000_000), 3650);
    assert_eq!(calculate_time_bonus_scoring(0, 366 * 259_200 * 1_000_000_000), 0);
    assert_eq!(calculate_time_bonus_scoring(10, 5), 3660);
    assert_eq!(calculate_basic_scoring(3, 2, 100), 330);
    assert_eq!(calculate_basic_scoring(0, u128::MAX, 1), u64::MAX);
    assert_eq!(calculate_complete_scoring(u64::MAX, 0, 0), u64::MAX);
    assert_eq!(calculate_complete_scoring(40, 0, 0), 3700);
    let followed = vec![Category::Horror, Category::Crime];
    assert_eq!(calculate_category_matching_score(&Category::Crime, &followed), 100);
    assert_eq!(calculate_category_matching_score(&Category::SciFi, &followed), 0);
}

fn story_service() -> StoryService {
    let mut ledger = LedgerService::new(Account {
        owner: Principal { bytes: vec![1] },
        subaccount: Some(vec![137; 32]),
    });
    let args = CreateTokenArgs {
        token_name: "T".to_string(),
        token_symbol: "T".to_string(),
        token_logo: String::new(),
        initial_supply: 10_000_000,
        transfer_fee: 100,
    };
    let minter = Principal { bytes: vec![2] };
    ledger.create_token(true, minter.clone(), Some(args), 0).unwrap();
    let fund = TransferArg {
        from_subaccount: None,
        to: Account { owner: reader(), subaccount: None },
        amount: 3_000_000,
        fee: None,
        memo: None,
        created_at_time: None,
    };
    ledger.transfer(minter, fund, 1).unwrap();
    let mut users = UserService::new(UserRepository::new());
    users.register(reader(), 1).unwrap();
    let mut stories = StoryRepository::new();
    stories.insert(story(Category::Horror, writer()), 2).unwrap();
    let mut contents = ContentRepository::new();
    contents.insert(StoryContent::new(1, "body".to_string(), writer())).unwrap();
    StoryService::new(stories, contents, ledger, users)
}

#[test]
fn support_caps_points_and_moves_tips() {
    let mut service = story_service();
    let own = service.support_story(
        StoryInteractionArgs { id: 1, support: Some(1), tip: None },
        &writer(),
        3,
    );
    assert!(matches!(own, Err(ServiceError::UnprocessableEntity { .. })));
    service
        .support_story(StoryInteractionArgs { id: 1, support: Some(7), tip: Some(500) }, &reader(), 4)
        .unwrap();
    service
        .support_story(StoryInteractionArgs { id: 1, support: Some(7), tip: None }, &reader(), 5)
        .unwrap();
    let (s, _) = service.get_story(1).unwrap();
    assert_eq!(s.total_support, 10);
    assert_eq!(s.total_tip_support, 500);
    assert_eq!(s.score, 10 * 10 + 500 * 100);
    let writer_account = Account { owner: writer(), subaccount: None };
    assert_eq!(service.ledger_service.balance_of(&writer_account), 500);
    assert_eq!(service.get_story_supporter(1).unwrap(), vec![reader()]);
    assert_eq!(
        service.support_story(StoryInteractionArgs { id: 9, support: Some(1), tip: None }, &reader(), 6),
        Err(ServiceError::StoryNotFound)
    );
}

#[test]
fn assistant_needs_stake() {
    let mut service = story_service();
    assert!(matches!(
        service.assist_source(1, &reader()),
        Err(ServiceError::UnprocessableEntity { .. })
    ));
    service
        .ledger_service
        .stake(reader(), StakeTokenArgs { from_subaccount: None, amount: 1_000_000 }, 7)
        .unwrap();
    assert_eq!(service.assist_source(1, &reader()), Ok("body".to_string()));
    assert_eq!(service.assist_source(4, &reader()), Err(ServiceError::StoryNotFound));
    assert_eq!(assistant_reply("::FAILED::".to_string(), "no"), Err("no".to_string()));
    assert_eq!(assistant_reply("more".to_string(), "no"), Ok("more".to_string()));
}

#[test]
fn recommended_stories_reorder_by_freshness() {
    let mut service = story_service();
    let mut old_story = story(Category::Comedy, writer());
    old_story.score = 100;
    service.story_repository.insert(old_story, 0).unwrap();
    let now = 100 * 259_200 * 1_000_000_000;
    let mut fresh = story(Category::Comedy, writer());
    fresh.score = 50;
    service.story_repository.insert(fresh, now).unwrap();
    let (next, stories) = service.get_recommended_stories(None, 3, now).unwrap();
    assert_eq!(next, Some((0, 1)));
    assert_eq!(stories.iter().map(|s| s.id).collect::<Vec<u64>>(), vec![3, 2, 1]);
}

#[test]
fn onboarding_and_publishing() {
    let mut users = UserService::new(UserRepository::new());
    assert!(users.register(reader(), 1).is_ok());
    assert!(matches!(users.register(reader(), 2), Err(ServiceError::Conflict { .. })));
    let three = OnboardingArgs {
        name: Some("r".to_string()),
        bio: None,
        categories: vec![Category::Horror, Category::Crime, Category::SciFi],
        referral_code: None,
    };
    let two = OnboardingArgs { categories: vec![Category::Horror], ..three.clone() };
    assert!(matches!(
        users.complete_onboarding(&reader(), two),
        Err(ServiceError::UnprocessableEntity { .. })
    ));
    users.complete_onboarding(&reader(), three.clone()).unwrap();
    let u: &User = users.get_user(&reader()).unwrap();
    assert!(u.onboarded);
    assert_eq!(u.followed_categories.len(), 3);
    assert!(users.complete_onboarding(&reader(), three).is_err());
    let missing = users.get_user(&Principal { bytes: vec![] });
    assert_eq!(
        missing.unwrap_err(),
        ServiceError::IdentityNotFound { identity: "aaaaa-aa".to_string() }
    );

    let mut drafts = DraftService::new(DraftRepository::new(), ContentRepository::new());
    let mut stories = StoryRepository::new();
    let mut contents = ContentRepository::new();
    let args = SaveDraftArgs { title: Some("t".to_string()), content: Some("one two".to_string()), detail: None };
    drafts.create_draft(args, writer(), 1).unwrap();
    let missing_detail = drafts.publish_draft(1, &writer(), &mut stories, &mut contents, 2);
    assert!(matches!(missing_detail, Err(ServiceError::UnprocessableEntity { .. })));
    let detail = SaveDraftArgs {
        title: None,
        content: None,
        detail: Some(StoryDetail::new("d".to_string(), true, Category::Romance)),
    };
    assert!(matches!(
        drafts.update_draft(1, detail.clone(), &reader(), 3),
        Err(ServiceError::IdentityUnauthorized { .. })
    ));
    drafts.update_draft(1, detail, &writer(), 3).unwrap();
    let published = drafts.publish_draft(1, &writer(), &mut stories, &mut contents, 4).unwrap();
    assert_eq!(published.id, 1);
    assert_eq!(published.read_time, 0);
    assert_eq!(contents.get(1).unwrap().content, "one two");
    assert!(drafts.get_draft(1).is_err());
    assert_eq!(stories.count(), 1);
    assert_eq!(drafts.delete_draft(1, &writer()), Err(ServiceError::DraftNotFound));
}

#[test]
fn error_responses() {
    assert_eq!(api_err(ServiceError::DraftNotFound).message, "Draft not found");
    assert_eq!(
        api_err(ServiceError::Conflict { entity: "Story".to_string() }).message,
        "Story already exists"
    );
    assert_eq!(
        api_err(ServiceError::IdentityNotFound { identity: "x".to_string() }).message,
        "User identity x cannot be found."
    );
}

#[test]
fn failed_story_content_rolls_back_story() {
    let mut drafts = DraftService::new(DraftRepository::new(), ContentRepository::new());
    let mut stories = StoryRepository::new();
    let mut contents = ContentRepository::new();
    contents.insert(StoryContent::new(1, "taken".to_string(), reader())).unwrap();
    let args = SaveDraftArgs {
        title: Some("t".to_string()),
        content: Some("body".to_string()),
        detail: Some(StoryDetail::new("d".to_string(), false, Category::Crime)),
    };
    drafts.create_draft(args, writer(), 1).unwrap();
    let r = drafts.publish_draft(1, &writer(), &mut stories, &mut contents, 2);
    assert_eq!(
        r.unwrap_err(),
        ServiceError::InternalError {
            reason: "Failed to publish draft content: Cannot write on existing entity.".to_string()
        }
    );
    assert_eq!(stories.count(), 0);
    assert!(drafts.get_draft(1).is_ok());
    assert_eq!(contents.get(1).unwrap().content, "taken");
}

#[test]
fn support_at_maximum_changes_nothing() {
    let mut service = story_service();
    service
        .support_story(StoryInteractionArgs { id: 1, support: Some(10), tip: None }, &reader(), 3)
        .unwrap();
    service
        .support_story(StoryInteractionArgs { id: 1, support: Some(3), tip: Some(50) }, &reader(), 4)
        .unwrap();
    let (s, _) = service.get_story(1).unwrap();
    assert_eq!(s.total_support, 10);
    assert_eq!(s.total_tip_support, 0);
    let reader_account = Account { owner: reader(), subaccount: None };
    assert_eq!(service.ledger_service.balance_of(&reader_account), 3_000_000);
}
