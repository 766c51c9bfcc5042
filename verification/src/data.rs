//! Data model: the three raw source record kinds, the consolidated output
//! record, and the snapshot (`Data`) that maps external identifiers to
//! consolidated accounts.

use vstd::prelude::*;

verus! {

/// The public key under which a consolidated account is served: the
/// account's handle with the fixed domain suffix appended.
pub type AccountId = String;

/// The source system's internal numeric surrogate key for an account.
pub type NearSocialAccountId = u64;

/// One name/value pair of an account's free-form profile fields.
pub struct AccountField {
    pub name: String,
    pub value: String,
}

/// Mathematical image of an [`AccountField`].
pub ghost struct AccountFieldV {
    pub name: Seq<char>,
    pub value: Seq<char>,
}

impl View for AccountField {
    type V = AccountFieldV;

    open spec fn view(&self) -> AccountFieldV {
        AccountFieldV { name: self.name@, value: self.value@ }
    }
}

impl DeepView for AccountField {
    type V = AccountFieldV;

    open spec fn deep_view(&self) -> AccountFieldV {
        self@
    }
}

impl Clone for AccountField {
    fn clone(&self) -> (res: Self)
        ensures
            res == *self,
    {
        AccountField { name: self.name.clone(), value: self.value.clone() }
    }
}

/// One row per account as published by the accounts feed.
pub struct RawAccount {
    pub id: NearSocialAccountId,
    pub username: String,
    pub domain: Option<String>,
    pub created_at: String,
    pub note: String,
    pub display_name: String,
    pub avatar_file_name: Option<String>,
    pub avatar_content_type: Option<String>,
    pub avatar_file_size: Option<u64>,
    pub header_file_name: Option<String>,
    pub header_content_type: Option<String>,
    pub header_file_size: Option<u64>,
    pub fields: Vec<AccountField>,
    pub actor_type: String,
    pub discoverable: bool,
    pub statuses_count: u64,
    pub last_status_at: Option<String>,
}

/// Mathematical image of a [`RawAccount`].
pub ghost struct RawAccountV {
    pub id: u64,
    pub username: Seq<char>,
    pub domain: Option<Seq<char>>,
    pub created_at: Seq<char>,
    pub note: Seq<char>,
    pub display_name: Seq<char>,
    pub avatar_file_name: Option<Seq<char>>,
    pub avatar_content_type: Option<Seq<char>>,
    pub avatar_file_size: Option<u64>,
    pub header_file_name: Option<Seq<char>>,
    pub header_content_type: Option<Seq<char>>,
    pub header_file_size: Option<u64>,
    pub fields: Seq<AccountFieldV>,
    pub actor_type: Seq<char>,
    pub discoverable: bool,
    pub statuses_count: u64,
    pub last_status_at: Option<Seq<char>>,
}

impl View for RawAccount {
    type V = RawAccountV;

    open spec fn view(&self) -> RawAccountV {
        RawAccountV {
            id: self.id,
            username: self.username@,
            domain: self.domain.deep_view(),
            created_at: self.created_at@,
            note: self.note@,
            display_name: self.display_name@,
            avatar_file_name: self.avatar_file_name.deep_view(),
            avatar_content_type: self.avatar_content_type.deep_view(),
            avatar_file_size: self.avatar_file_size,
            header_file_name: self.header_file_name.deep_view(),
            header_content_type: self.header_content_type.deep_view(),
            header_file_size: self.header_file_size,
            fields: self.fields.deep_view(),
            actor_type: self.actor_type@,
            discoverable: self.discoverable,
            statuses_count: self.statuses_count,
            last_status_at: self.last_status_at.deep_view(),
        }
    }
}

impl DeepView for RawAccount {
    type V = RawAccountV;

    open spec fn deep_view(&self) -> RawAccountV {
        self@
    }
}

/// One row of the activity-statistics feed, matched into accounts by
/// numeric identifier.
pub struct AccountStats {
    pub id: u64,
    pub account_id: NearSocialAccountId,
    pub statuses_count: u64,
    pub following_count: u64,
    pub created_at: String,
    pub last_status_at: Option<String>,
}

/// Mathematical image of an [`AccountStats`].
pub ghost struct AccountStatsV {
    pub id: u64,
    pub account_id: u64,
    pub statuses_count: u64,
    pub following_count: u64,
    pub created_at: Seq<char>,
    pub last_status_at: Option<Seq<char>>,
}

impl View for AccountStats {
    type V = AccountStatsV;

    open spec fn view(&self) -> AccountStatsV {
        AccountStatsV {
            id: self.id,
            account_id: self.account_id,
            statuses_count: self.statuses_count,
            following_count: self.following_count,
            created_at: self.created_at@,
            last_status_at: self.last_status_at.deep_view(),
        }
    }
}

impl DeepView for AccountStats {
    type V = AccountStatsV;

    open spec fn deep_view(&self) -> AccountStatsV {
        self@
    }
}

/// One directed follow edge: source numeric identifier to target numeric
/// identifier.
pub struct FollowEdge {
    pub id: u64,
    pub created_at: String,
    pub account_id: NearSocialAccountId,
    pub target_account_id: NearSocialAccountId,
}

/// Mathematical image of a [`FollowEdge`].
pub ghost struct FollowEdgeV {
    pub id: u64,
    pub created_at: Seq<char>,
    pub account_id: u64,
    pub target_account_id: u64,
}

impl View for FollowEdge {
    type V = FollowEdgeV;

    open spec fn view(&self) -> FollowEdgeV {
        FollowEdgeV {
            id: self.id,
            created_at: self.created_at@,
            account_id: self.account_id,
            target_account_id: self.target_account_id,
        }
    }
}

impl DeepView for FollowEdge {
    type V = FollowEdgeV;

    open spec fn deep_view(&self) -> FollowEdgeV {
        self@
    }
}

/// A stored media asset (avatar or header): its derived URL, content type
/// and size in bytes.
pub struct Image {
    pub url: String,
    pub content_type: String,
    pub file_size: u64,
}

/// Mathematical image of an [`Image`].
pub ghost struct ImageV {
    pub url: Seq<char>,
    pub content_type: Seq<char>,
    pub file_size: u64,
}

impl View for Image {
    type V = ImageV;

    open spec fn view(&self) -> ImageV {
        ImageV { url: self.url@, content_type: self.content_type@, file_size: self.file_size }
    }
}

impl DeepView for Image {
    type V = ImageV;

    open spec fn deep_view(&self) -> ImageV {
        self@
    }
}

impl Clone for Image {
    fn clone(&self) -> (res: Self)
        ensures
            res == *self,
    {
        Image {
            url: self.url.clone(),
            content_type: self.content_type.clone(),
            file_size: self.file_size,
        }
    }
}

/// The consolidated, immutable output record served to callers.
pub struct Account {
    pub account_id: AccountId,
    pub note: String,
    pub display_name: String,
    pub avatar: Option<Image>,
    pub header: Option<Image>,
    pub fields: Vec<AccountField>,
    pub statuses_count: u64,
    pub following: Vec<AccountId>,
    pub followers: Vec<AccountId>,
}

/// Mathematical image of an [`Account`].
pub ghost struct AccountV {
    pub account_id: Seq<char>,
    pub note: Seq<char>,
    pub display_name: Seq<char>,
    pub avatar: Option<ImageV>,
    pub header: Option<ImageV>,
    pub fields: Seq<AccountFieldV>,
    pub statuses_count: u64,
    pub following: Seq<Seq<char>>,
    pub followers: Seq<Seq<char>>,
}

impl View for Account {
    type V = AccountV;

    open spec fn view(&self) -> AccountV {
        AccountV {
            account_id: self.account_id@,
            note: self.note@,
            display_name: self.display_name@,
            avatar: self.avatar.deep_view(),
            header: self.header.deep_view(),
            fields: self.fields.deep_view(),
            statuses_count: self.statuses_count,
            following: self.following.deep_view(),
            followers: self.followers.deep_view(),
        }
    }
}

impl DeepView for Account {
    type V = AccountV;

    open spec fn deep_view(&self) -> AccountV {
        self@
    }
}

/// Clones an optional handle or text field, keeping its value.
pub(crate) fn clone_opt_string(v: &Option<String>) -> (res: Option<String>)
    ensures
        res == *v,
{
    match v {
        None => None,
        Some(s) => Some(s.clone()),
    }
}

/// Clones a profile-field list element by element, keeping its value.
pub(crate) fn clone_fields(v: &Vec<AccountField>) -> (res: Vec<AccountField>)
    ensures
        res@ == v@,
{
    let mut res: Vec<AccountField> = Vec::new();
    let mut i: usize = 0;
    while i < v.len()
        invariant
            i <= v.len(),
            res@ =~= v@.subrange(0, i as int),
        decreases v.len() - i,
    {
        res.push(v[i].clone());
        i = i + 1;
        proof {
            assert(res@ =~= v@.subrange(0, i as int));
        }
    }
    proof {
        assert(v@.subrange(0, v@.len() as int) =~= v@);
    }
    res
}

/// Clones a list of identifiers element by element, keeping its value.
fn clone_ids(v: &Vec<AccountId>) -> (res: Vec<AccountId>)
    ensures
        res@ == v@,
{
    let mut res: Vec<AccountId> = Vec::new();
    let mut i: usize = 0;
    while i < v.len()
        invariant
            i <= v.len(),
            res@ =~= v@.subrange(0, i as int),
        decreases v.len() - i,
    {
        res.push(v[i].clone());
        i = i + 1;
        proof {
            assert(res@ =~= v@.subrange(0, i as int));
        }
    }
    proof {
        assert(v@.subrange(0, v@.len() as int) =~= v@);
    }
    res
}

/// Clones an optional media descriptor, keeping its value.
fn clone_image(v: &Option<Image>) -> (res: Option<Image>)
    ensures
        res == *v,
{
    match v {
        None => None,
        Some(img) => Some(img.clone()),
    }
}

impl Clone for Account {
    fn clone(&self) -> (res: Self)
        ensures
            res@ == self@,
    {
        Account {
            account_id: self.account_id.clone(),
            note: self.note.clone(),
            display_name: self.display_name.clone(),
            avatar: clone_image(&self.avatar),
            header: clone_image(&self.header),
            fields: clone_fields(&self.fields),
            statuses_count: self.statuses_count,
            following: clone_ids(&self.following),
            followers: clone_ids(&self.followers),
        }
    }
}

/// The snapshot as a mathematical map: each consolidated account filed
/// under its external identifier, later entries overriding earlier ones.
pub open spec fn map_of(s: Seq<AccountV>) -> Map<Seq<char>, AccountV>
    decreases s.len(),
{
    if s.len() == 0 {
        Map::empty()
    } else {
        map_of(s.drop_last()).insert(s.last().account_id, s.last())
    }
}

/// No two consolidated accounts share an external identifier.
pub open spec fn unique_account_ids(s: Seq<AccountV>) -> bool {
    forall|i: int, j: int| 0 <= i < j < s.len() ==> s[i].account_id != s[j].account_id
}

/// A key is in the snapshot map exactly when some account carries it.
pub proof fn lemma_map_of_contains(s: Seq<AccountV>, k: Seq<char>)
    ensures
        map_of(s).contains_key(k) <==> exists|i: int|
            0 <= i < s.len() && s[i].account_id == k,
    decreases s.len(),
{
    if s.len() > 0 {
        lemma_map_of_contains(s.drop_last(), k);
        if map_of(s).contains_key(k) {
            if s.last().account_id == k {
                assert(s[s.len() - 1].account_id == k);
            } else {
                let i = choose|i: int| 0 <= i < s.drop_last().len() && s.drop_last()[i].account_id
                    == k;
                assert(s[i].account_id == k);
            }
        }
        if exists|i: int| 0 <= i < s.len() && s[i].account_id == k {
            let i = choose|i: int| 0 <= i < s.len() && s[i].account_id == k;
            if i < s.len() - 1 {
                assert(s.drop_last()[i].account_id == k);
            }
        }
    }
}

/// With unique external identifiers, the snapshot map files each account
/// under its own identifier.
pub proof fn lemma_map_of_index(s: Seq<AccountV>, i: int)
    requires
        unique_account_ids(s),
        0 <= i < s.len(),
    ensures
        map_of(s).contains_key(s[i].account_id),
        map_of(s)[s[i].account_id] == s[i],
    decreases s.len(),
{
    if i == s.len() - 1 {
        assert(map_of(s) == map_of(s.drop_last()).insert(s.last().account_id, s.last()));
    } else {
        assert(unique_account_ids(s.drop_last())) by {
            assert(forall|p: int, q: int|
                0 <= p < q < s.drop_last().len() ==> s.drop_last()[p] == s[p] && s.drop_last()[q]
                    == s[q]);
        }
        assert(s.drop_last()[i] == s[i]);
        lemma_map_of_index(s.drop_last(), i);
        assert(s[i].account_id != s.last().account_id);
    }
}

/// How a lookup answers, as a function of one snapshot generation alone.
pub open spec fn lookup_spec(m: Map<Seq<char>, AccountV>, id: Seq<char>) -> Option<AccountV> {
    if m.contains_key(id) {
        Some(m[id])
    } else {
        None
    }
}

/// One fully built, immutable generation of the consolidated dataset,
/// keyed by external account identifier.
pub struct Data {
    pub accounts: Vec<Account>,
}

impl View for Data {
    type V = Map<Seq<char>, AccountV>;

    open spec fn view(&self) -> Map<Seq<char>, AccountV> {
        map_of(self.accounts.deep_view())
    }
}

impl Data {
    /// Well-formedness: external identifiers are unique, so the account
    /// list denotes a map without overriding.
    pub open spec fn wf(&self) -> bool {
        unique_account_ids(self.accounts.deep_view())
    }

    /// Point lookup: a copy of the account filed under the given external
    /// identifier, or `None` when the snapshot has no such key.
    pub fn get_account(&self, account_id: &AccountId) -> (r: Option<Account>)
        requires
            self.wf(),
        ensures
            r.deep_view() == lookup_spec(self@, account_id@),
    {
        let ghost s = self.accounts.deep_view();
        let mut i: usize = 0;
        while i < self.accounts.len()
            invariant
                i <= self.accounts.len(),
                s == self.accounts.deep_view(),
                unique_account_ids(s),
                forall|j: int| 0 <= j < i ==> s[j].account_id != account_id@,
            decreases self.accounts.len() - i,
        {
            if self.accounts[i].account_id == *account_id {
                let found = self.accounts[i].clone();
                proof {
                    assert(s[i as int].account_id == account_id@);
                    lemma_map_of_index(s, i as int);
                    assert(found@ == s[i as int]);
                }
                return Some(found);
            }
            i = i + 1;
        }
        proof {
            lemma_map_of_contains(s, account_id@);
        }
        None
    }
}

} // verus!
