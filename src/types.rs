use vstd::prelude::*;

verus! {

/// An opaque caller identity, held as its raw bytes.
#[derive(Debug, Clone, PartialEq, Eq, PartialOrd, Ord, Hash)]
pub struct Principal {
    pub bytes: Vec<u8>,
}

impl View for Principal {
    type V = Seq<u8>;

    open spec fn view(&self) -> Seq<u8> {
        self.bytes@
    }
}

/// Byte-wise equality of two byte strings.
pub fn bytes_equal(a: &Vec<u8>, b: &Vec<u8>) -> (r: bool)
    ensures
        r == (a@ == b@),
{
    if a.len() != b.len() {
        return false;
    }
    let mut i: usize = 0;
    while i < a.len()
        invariant
            a.len() == b.len(),
            0 <= i <= a.len(),
            forall|j: int| 0 <= j < i ==> a@[j] == b@[j],
        decreases a.len() - i,
    {
        if a[i] != b[i] {
            assert(a@[i as int] != b@[i as int]);
            return false;
        }
        i = i + 1;
    }
    assert(a@ =~= b@);
    true
}

/// A fresh copy of a byte string.
pub fn copy_bytes(a: &Vec<u8>) -> (r: Vec<u8>)
    ensures
        r@ == a@,
{
    let mut r: Vec<u8> = Vec::new();
    let mut i: usize = 0;
    while i < a.len()
        invariant
            0 <= i <= a.len(),
            r@ =~= a@.subrange(0, i as int),
        decreases a.len() - i,
    {
        r.push(a[i]);
        i = i + 1;
    }
    assert(r@ =~= a@);
    r
}

pub open spec fn opt_bytes_view(o: Option<Vec<u8>>) -> Option<Seq<u8>> {
    match o {
        Some(v) => Some(v@),
        None => None,
    }
}

/// Equality of two optional byte strings.
pub fn opt_bytes_equal(a: &Option<Vec<u8>>, b: &Option<Vec<u8>>) -> (r: bool)
    ensures
        r == (opt_bytes_view(*a) == opt_bytes_view(*b)),
{
    match (a, b) {
        (Some(x), Some(y)) => bytes_equal(x, y),
        (None, None) => true,
        _ => false,
    }
}

/// A fresh copy of an optional byte string.
pub fn copy_opt_bytes(a: &Option<Vec<u8>>) -> (r: Option<Vec<u8>>)
    ensures
        opt_bytes_view(r) == opt_bytes_view(*a),
{
    match a {
        Some(x) => Some(copy_bytes(x)),
        None => None,
    }
}

/// Keys of the ledger's caches: comparable and copyable by value.
pub trait CacheKey: View + Sized {
    fn same_as(&self, other: &Self) -> (r: bool)
        ensures
            r == (self@ == other@),
    ;

    fn duplicate(&self) -> (r: Self)
        ensures
            r@ == self@,
    ;
}

/// The textual form of the identity whose bytes are `bytes`.
pub uninterp spec fn principal_text(bytes: Seq<u8>) -> Seq<char>;

/// Relies on candid's `Principal::from_slice` (which panics beyond 29 bytes)
/// and `Principal::to_text`: the textual form depends on the bytes alone.
#[verifier::external_body]
fn principal_text_of(bytes: &Vec<u8>) -> (r: String)
    requires
        bytes@.len() <= 29,
    ensures
        r@ == principal_text(bytes@),
{
    candid::Principal::from_slice(bytes.as_slice()).to_text()
}

/// Largest identity, in bytes.
pub const MAX_PRINCIPAL_BYTES: usize = 29;

impl Principal {
    /// The textual form of the identity; empty where it is longer than any
    /// identity can be.
    pub fn to_text(&self) -> (r: String)
        ensures
            self@.len() <= MAX_PRINCIPAL_BYTES ==> r@ == principal_text(self@),
            self@.len() > MAX_PRINCIPAL_BYTES ==> r@.len() == 0,
    {
        if self.bytes.len() <= MAX_PRINCIPAL_BYTES {
            principal_text_of(&self.bytes)
        } else {
            String::new()
        }
    }
}

impl CacheKey for Principal {
    fn same_as(&self, other: &Self) -> (r: bool) {
        bytes_equal(&self.bytes, &other.bytes)
    }

    fn duplicate(&self) -> (r: Self) {
        Principal { bytes: copy_bytes(&self.bytes) }
    }
}

pub type SupportSize = u32;

pub type ViewSize = u32;

pub type Score = u64;

/// Failures of a repository operation.
#[derive(Debug, PartialEq, Eq, Clone)]
pub enum RepositoryError {
    NotFound,
    Conflict,
    IllegalUpdate { reason: String },
    UnsupportedOperation,
    IllegalArgument { reason: String },
}

/// Failures of a service operation.
#[derive(Debug, PartialEq, Eq, Clone)]
pub enum ServiceError {
    IdentityNotFound { identity: String },
    IdentityUnauthorized { identity: String },
    InternalError { reason: String },
    DraftNotFound,
    StoryNotFound,
    UnprocessableEntity { reason: String },
    Conflict { entity: String },
    TransferError { reason: String },
    AiModelError(String),
}

/// An error as the entry points report it.
#[derive(Debug, Clone)]
pub struct ErrorResponse {
    pub message: String,
}

/// Story categories.
#[derive(Debug, Clone, Copy, PartialEq, Eq, Structural, PartialOrd, Ord, Hash)]
pub enum Category {
    SciFi,
    Fantasy,
    Comedy,
    Romance,
    Horror,
    Thriller,
    Crime,
    Adventure,
    NonFiction,
    Biography,
}

/// Position of a category in the list of categories.
pub open spec fn category_ordinal(c: Category) -> u8 {
    match c {
        Category::SciFi => 0,
        Category::Fantasy => 1,
        Category::Comedy => 2,
        Category::Romance => 3,
        Category::Horror => 4,
        Category::Thriller => 5,
        Category::Crime => 6,
        Category::Adventure => 7,
        Category::NonFiction => 8,
        Category::Biography => 9,
    }
}

impl Category {
    /// The bytes under which a category is filed in an index.
    pub fn index_key(&self) -> (r: Vec<u8>)
        ensures
            r@ == seq![category_ordinal(*self)],
    {
        let ordinal: u8 = match self {
            Category::SciFi => 0,
            Category::Fantasy => 1,
            Category::Comedy => 2,
            Category::Romance => 3,
            Category::Horror => 4,
            Category::Thriller => 5,
            Category::Crime => 6,
            Category::Adventure => 7,
            Category::NonFiction => 8,
            Category::Biography => 9,
        };
        let mut r: Vec<u8> = Vec::new();
        r.push(ordinal);
        assert(r@ =~= seq![category_ordinal(*self)]);
        r
    }
}

/// What stories or drafts are sorted by.
#[derive(Debug, Clone, Copy, PartialEq, Eq, Structural)]
pub enum SortBy {
    Id,
    UpdatedAt,
}

/// Direction and key of a listing.
#[derive(Debug, Clone, Copy, PartialEq, Eq, Structural)]
pub enum SortOrder {
    Asc(SortBy),
    Desc(SortBy),
}

impl SortOrder {
    /// Ascending by id.
    pub fn default_order() -> (r: SortOrder)
        ensures
            r == SortOrder::Asc(SortBy::Id),
    {
        SortOrder::Asc(SortBy::Id)
    }

    pub fn is_asc(&self) -> (r: bool)
        ensures
            r == (*self is Asc),
    {
        match self {
            SortOrder::Asc(_) => true,
            SortOrder::Desc(_) => false,
        }
    }

    pub fn is_desc(&self) -> (r: bool)
        ensures
            r == (*self is Desc),
    {
        match self {
            SortOrder::Asc(_) => false,
            SortOrder::Desc(_) => true,
        }
    }

    /// Sorted by id, in either direction.
    pub open spec fn is_sorted_by_id_spec(&self) -> bool {
        *self == SortOrder::Asc(SortBy::Id) || *self == SortOrder::Desc(SortBy::Id)
    }

    pub fn is_sorted_by_id(&self) -> (r: bool)
        ensures
            r == self.is_sorted_by_id_spec(),
    {
        match self {
            SortOrder::Asc(SortBy::Id) => true,
            SortOrder::Desc(SortBy::Id) => true,
            _ => false,
        }
    }
}

/// Descriptive details of a story.
#[derive(Debug, Clone)]
pub struct StoryDetail {
    pub description: String,
    pub mature_content: bool,
    pub category: Category,
}

impl StoryDetail {
    pub fn new(description: String, mature_content: bool, category: Category) -> (r: Self)
        ensures
            r.description == description,
            r.mature_content == mature_content,
            r.category == category,
    {
        StoryDetail { description, mature_content, category }
    }

    /// An equal copy.
    pub fn copied(&self) -> (r: Self)
        ensures
            r == *self,
    {
        StoryDetail {
            description: self.description.clone(),
            mature_content: self.mature_content,
            category: self.category,
        }
    }
}

/// A copy of an optional detail.
pub fn copy_detail(d: &Option<StoryDetail>) -> (r: Option<StoryDetail>)
    ensures
        r == *d,
{
    match d {
        Some(x) => Some(x.copied()),
        None => None,
    }
}

/// The text of a draft or story, kept apart from its record.
#[derive(Debug, Clone)]
pub struct StoryContent {
    pub id: u64,
    pub content: String,
    pub author: Principal,
}

/// Two contents are equal, the author up to its bytes.
pub open spec fn same_content(a: StoryContent, b: StoryContent) -> bool {
    a.id == b.id && a.content == b.content && a.author@ == b.author@
}

impl StoryContent {
    pub fn new(id: u64, content: String, author: Principal) -> (r: Self)
        ensures
            r.id == id,
            r.content == content,
            r.author == author,
    {
        StoryContent { id, content, author }
    }

    pub fn copied(&self) -> (r: Self)
        ensures
            same_content(r, *self),
    {
        StoryContent {
            id: self.id,
            content: self.content.clone(),
            author: self.author.duplicate(),
        }
    }
}

/// A draft: an unpublished story.
#[derive(Debug, Clone)]
pub struct Draft {
    pub id: u64,
    pub title: String,
    pub detail: Option<StoryDetail>,
    pub author: Principal,
    pub created_at: u64,
    pub updated_at: Option<u64>,
    pub read_time: u32,
}

/// Two drafts are equal, the author up to its bytes.
pub open spec fn same_draft(a: Draft, b: Draft) -> bool {
    &&& a.id == b.id
    &&& a.title == b.title
    &&& a.detail == b.detail
    &&& a.author@ == b.author@
    &&& a.created_at == b.created_at
    &&& a.updated_at == b.updated_at
    &&& a.read_time == b.read_time
}

impl Draft {
    pub fn new(title: String, detail: Option<StoryDetail>, author: Principal) -> (r: Self)
        ensures
            r.id == 0,
            r.title == title,
            r.detail == detail,
            r.author == author,
            r.created_at == 0,
            r.updated_at.is_none(),
            r.read_time == 0,
    {
        Draft { id: 0, title, detail, author, created_at: 0, updated_at: None, read_time: 0 }
    }

    pub fn copied(&self) -> (r: Self)
        ensures
            same_draft(r, *self),
    {
        Draft {
            id: self.id,
            title: self.title.clone(),
            detail: copy_detail(&self.detail),
            author: self.author.duplicate(),
            created_at: self.created_at,
            updated_at: self.updated_at,
            read_time: self.read_time,
        }
    }
}

/// A published story.
#[derive(Debug, Clone)]
pub struct Story {
    pub id: u64,
    pub title: String,
    pub detail: StoryDetail,
    pub author: Principal,
    pub total_support: SupportSize,
    pub total_views: ViewSize,
    pub total_tip_support: u128,
    pub created_at: u64,
    pub updated_at: Option<u64>,
    pub read_time: u32,
    pub score: Score,
    pub author_name: Option<String>,
}

/// Two stories are equal, the author up to its bytes.
pub open spec fn same_story(a: Story, b: Story) -> bool {
    &&& a.id == b.id
    &&& a.title == b.title
    &&& a.detail == b.detail
    &&& a.author@ == b.author@
    &&& a.total_support == b.total_support
    &&& a.total_views == b.total_views
    &&& a.total_tip_support == b.total_tip_support
    &&& a.created_at == b.created_at
    &&& a.updated_at == b.updated_at
    &&& a.read_time == b.read_time
    &&& a.score == b.score
    &&& a.author_name == b.author_name
}

impl Story {
    /// A story promoted from `draft`, with no support yet.
    pub fn new(draft: Draft, detail: StoryDetail) -> (r: Self)
        ensures
            r.id == 0,
            r.title == draft.title,
            r.detail == detail,
            r.author == draft.author,
            r.total_support == 0,
            r.total_views == 0,
            r.total_tip_support == 0,
            r.created_at == 0,
            r.updated_at.is_none(),
            r.read_time == draft.read_time,
            r.score == 0,
            r.author_name.is_none(),
    {
        Story {
            id: 0,
            title: draft.title,
            detail,
            author: draft.author,
            total_support: 0,
            total_views: 0,
            total_tip_support: 0,
            created_at: 0,
            updated_at: None,
            read_time: draft.read_time,
            score: 0,
            author_name: None,
        }
    }

    pub fn copied(&self) -> (r: Self)
        ensures
            same_story(r, *self),
    {
        Story {
            id: self.id,
            title: self.title.clone(),
            detail: self.detail.copied(),
            author: self.author.duplicate(),
            total_support: self.total_support,
            total_views: self.total_views,
            total_tip_support: self.total_tip_support,
            created_at: self.created_at,
            updated_at: self.updated_at,
            read_time: self.read_time,
            score: self.score,
            author_name: match &self.author_name {
                Some(n) => Some(n.clone()),
                None => None,
            },
        }
    }
}

/// A registered user.
#[derive(Debug, Clone)]
pub struct User {
    pub id: Principal,
    pub name: Option<String>,
    pub bio: Option<String>,
    pub follower: u32,
    pub created_at: u64,
    pub followed_categories: Vec<Category>,
    pub followed_authors: Vec<Principal>,
    pub onboarded: bool,
}

impl User {
    pub fn new(id: Principal, created_at: u64) -> (r: Self)
        ensures
            r.id == id,
            r.name.is_none(),
            r.bio.is_none(),
            r.follower == 0,
            r.created_at == created_at,
            r.followed_categories@.len() == 0,
            r.followed_authors@.len() == 0,
            !r.onboarded,
    {
        User {
            id,
            name: None,
            bio: None,
            follower: 0,
            created_at,
            followed_categories: Vec::new(),
            followed_authors: Vec::new(),
            onboarded: false,
        }
    }
}

/// Counts over the whole store.
#[derive(Debug, Clone)]
pub struct Statistics {
    pub total_users: u32,
    pub total_stories: u32,
    pub total_drafts: u32,
    pub total_categories: u32,
    pub category_followers: Vec<(Category, u32)>,
}

/// What one supporter gave a story.
#[derive(Debug, Clone)]
pub struct SupportGiven {
    pub support: SupportSize,
    pub token: u128,
}

impl SupportGiven {
    pub fn new(support: SupportSize, token: u128) -> (r: Self)
        ensures
            r.support == support,
            r.token == token,
    {
        SupportGiven { support, token }
    }
}

/// Arguments of saving a draft; absent fields stay as they are.
#[derive(Debug, Clone, Default)]
pub struct SaveDraftArgs {
    pub title: Option<String>,
    pub content: Option<String>,
    pub detail: Option<StoryDetail>,
}

/// Arguments of supporting a story.
#[derive(Debug, Clone, Default)]
pub struct StoryInteractionArgs {
    pub id: u64,
    pub support: Option<SupportSize>,
    pub tip: Option<u128>,
}

/// Arguments of completing onboarding.
#[derive(Debug, Clone, Default)]
pub struct OnboardingArgs {
    pub name: Option<String>,
    pub bio: Option<String>,
    pub categories: Vec<Category>,
    pub referral_code: Option<String>,
}

/// Assistant actions on a story.
#[derive(Debug, Clone)]
pub enum AssistActionArgs {
    ExpandWriting(u64),
    GenerateDescription(u64),
}

/// Arguments of listing stories by category or author.
#[derive(Debug, Clone)]
pub struct FetchStoriesArgs {
    pub category: Option<Category>,
    pub author: Option<Principal>,
    pub cursor: Option<u64>,
    pub limit: Option<usize>,
}

/// Arguments of listing stories by score.
#[derive(Debug, Clone)]
pub struct FetchStoriesByScoreArgs {
    pub cursor: Option<(Score, u64)>,
    pub limit: Option<usize>,
}

/// The public face of a user.
#[derive(Debug, Clone)]
pub struct UserOutline {
    pub id: Principal,
    pub name: Option<String>,
    pub bio: Option<String>,
}

} // verus!
