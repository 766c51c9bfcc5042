//! The join engine: identity resolution, statistics merge, edge
//! inversion and snapshot assembly.

use vstd::prelude::*;

use crate::data::Account;
use crate::data::AccountStats;
use crate::data::AccountStatsV;
use crate::data::AccountV;
use crate::data::Data;
use crate::data::FollowEdge;
use crate::data::FollowEdgeV;
use crate::data::RawAccount;
use crate::data::RawAccountV;
use crate::data::map_of;
use crate::data::unique_account_ids;
use crate::utils::ext_id;
use crate::utils::media_triple_consistent;
use crate::utils::spec_make_image;

verus! {

/// An integrity violation found while building a snapshot.
#[derive(Debug, PartialEq, Eq)]
pub enum JoinError {
    /// Two input accounts share a numeric identifier or a handle, so the
    /// numeric-to-external mapping would not be a bijection.
    DuplicateIdentity,
    /// A follow edge references a numeric identifier outside the current
    /// account set.
    DanglingEdge,
    /// Exactly one or two of a media descriptor's three sub-fields are
    /// present.
    MalformedMediaTriple,
}

/// Some input account carries the given numeric identifier.
pub open spec fn has_account_id(raw: Seq<RawAccountV>, id: u64) -> bool {
    exists|i: int| 0 <= i < raw.len() && raw[i].id == id
}

/// An index of the account carrying the given numeric identifier.
pub open spec fn account_index(raw: Seq<RawAccountV>, id: u64) -> int {
    choose|i: int| 0 <= i < raw.len() && raw[i].id == id
}

/// The external identifier that a numeric identifier resolves to.
pub open spec fn ext_of(raw: Seq<RawAccountV>, id: u64) -> Seq<char> {
    ext_id(raw[account_index(raw, id)].username)
}

/// No two input accounts share a numeric identifier.
pub open spec fn unique_numeric_ids(raw: Seq<RawAccountV>) -> bool {
    forall|i: int, j: int| 0 <= i < j < raw.len() ==> raw[i].id != raw[j].id
}

/// No two input accounts share a handle.
pub open spec fn unique_usernames(raw: Seq<RawAccountV>) -> bool {
    forall|i: int, j: int| 0 <= i < j < raw.len() ==> raw[i].username != raw[j].username
}

/// The numeric-to-external mapping is a bijection: identifiers and
/// handles are both duplicate-free.
pub open spec fn no_duplicate_identity(raw: Seq<RawAccountV>) -> bool {
    unique_numeric_ids(raw) && unique_usernames(raw)
}

/// Every edge endpoint names an account of the current set.
pub open spec fn edges_resolve(raw: Seq<RawAccountV>, edges: Seq<FollowEdgeV>) -> bool {
    forall|k: int|
        0 <= k < edges.len() ==> has_account_id(raw, edges[k].account_id) && has_account_id(
            raw,
            edges[k].target_account_id,
        )
}

/// Both media triples of one account are consistent.
pub open spec fn account_triples_consistent(a: RawAccountV) -> bool {
    media_triple_consistent(a.avatar_file_name, a.avatar_content_type, a.avatar_file_size)
        && media_triple_consistent(a.header_file_name, a.header_content_type, a.header_file_size)
}

/// Every account's media triples are consistent.
pub open spec fn all_triples_consistent(raw: Seq<RawAccountV>) -> bool {
    forall|i: int| 0 <= i < raw.len() ==> account_triples_consistent(#[trigger] raw[i])
}

/// A build succeeds exactly on inputs free of all three integrity
/// violations.
pub open spec fn build_ok(raw: Seq<RawAccountV>, edges: Seq<FollowEdgeV>) -> bool {
    no_duplicate_identity(raw) && edges_resolve(raw, edges) && all_triples_consistent(raw)
}

/// The error a failing build reports, by precedence: duplicate identity,
/// then dangling edge, then malformed media triple.
pub open spec fn build_error(raw: Seq<RawAccountV>, edges: Seq<FollowEdgeV>) -> JoinError {
    if !no_duplicate_identity(raw) {
        JoinError::DuplicateIdentity
    } else if !edges_resolve(raw, edges) {
        JoinError::DanglingEdge
    } else {
        JoinError::MalformedMediaTriple
    }
}

/// The statistics record that wins for an account: the last one in feed
/// order carrying its numeric identifier, if any.
pub open spec fn stats_for(stats: Seq<AccountStatsV>, id: u64) -> Option<AccountStatsV>
    decreases stats.len(),
{
    if stats.len() == 0 {
        None
    } else if stats.last().account_id == id {
        Some(stats.last())
    } else {
        stats_for(stats.drop_last(), id)
    }
}

/// The post count after the statistics merge: the matching record's
/// count, or the account's own (parse-defaulted) count when no record
/// matches.
pub open spec fn merged_statuses_count(a: RawAccountV, stats: Seq<AccountStatsV>) -> u64 {
    match stats_for(stats, a.id) {
        Some(st) => st.statuses_count,
        None => a.statuses_count,
    }
}

/// The last-activity timestamp after the statistics merge.
pub open spec fn merged_last_status_at(a: RawAccountV, stats: Seq<AccountStatsV>) -> Option<
    Seq<char>,
> {
    match stats_for(stats, a.id) {
        Some(st) => st.last_status_at,
        None => a.last_status_at,
    }
}

/// The accounts this one follows: for each edge leaving it, in edge
/// order, the target's external identifier.
pub open spec fn following_of(raw: Seq<RawAccountV>, edges: Seq<FollowEdgeV>, id: u64) -> Seq<
    Seq<char>,
>
    decreases edges.len(),
{
    if edges.len() == 0 {
        Seq::empty()
    } else {
        let rest = following_of(raw, edges.drop_last(), id);
        if edges.last().account_id == id {
            rest.push(ext_of(raw, edges.last().target_account_id))
        } else {
            rest
        }
    }
}

/// The accounts following this one: for each edge entering it, in edge
/// order, the source's external identifier.
pub open spec fn followers_of(raw: Seq<RawAccountV>, edges: Seq<FollowEdgeV>, id: u64) -> Seq<
    Seq<char>,
>
    decreases edges.len(),
{
    if edges.len() == 0 {
        Seq::empty()
    } else {
        let rest = followers_of(raw, edges.drop_last(), id);
        if edges.last().target_account_id == id {
            rest.push(ext_of(raw, edges.last().account_id))
        } else {
            rest
        }
    }
}

/// The consolidated record of the account at one input index.
pub open spec fn consolidated(
    raw: Seq<RawAccountV>,
    stats: Seq<AccountStatsV>,
    edges: Seq<FollowEdgeV>,
    i: int,
) -> AccountV {
    let a = raw[i];
    AccountV {
        account_id: ext_id(a.username),
        note: a.note,
        display_name: a.display_name,
        avatar: spec_make_image(
            a.id,
            "avatars"@,
            a.avatar_file_name,
            a.avatar_content_type,
            a.avatar_file_size,
        ),
        header: spec_make_image(
            a.id,
            "headers"@,
            a.header_file_name,
            a.header_content_type,
            a.header_file_size,
        ),
        fields: a.fields,
        statuses_count: merged_statuses_count(a, stats),
        following: following_of(raw, edges, a.id),
        followers: followers_of(raw, edges, a.id),
    }
}

/// All consolidated records, in input order.
pub open spec fn consolidated_seq(
    raw: Seq<RawAccountV>,
    stats: Seq<AccountStatsV>,
    edges: Seq<FollowEdgeV>,
) -> Seq<AccountV> {
    Seq::new(raw.len(), |i: int| consolidated(raw, stats, edges, i))
}

/// The snapshot a successful build produces, as a mathematical map.
pub open spec fn snapshot_of(
    raw: Seq<RawAccountV>,
    stats: Seq<AccountStatsV>,
    edges: Seq<FollowEdgeV>,
) -> Map<Seq<char>, AccountV> {
    map_of(consolidated_seq(raw, stats, edges))
}

/// With unique numeric identifiers, an account resolves to its own
/// external identifier.
pub proof fn lemma_ext_of_index(raw: Seq<RawAccountV>, i: int)
    requires
        unique_numeric_ids(raw),
        0 <= i < raw.len(),
    ensures
        has_account_id(raw, raw[i].id),
        account_index(raw, raw[i].id) == i,
        ext_of(raw, raw[i].id) == ext_id(raw[i].username),
{
    assert(has_account_id(raw, raw[i].id));
    let j = account_index(raw, raw[i].id);
    assert(0 <= j < raw.len() && raw[j].id == raw[i].id);
    if i < j {
        assert(raw[i].id != raw[j].id);
    } else if j < i {
        assert(raw[j].id != raw[i].id);
    }
}

/// Decides whether the input accounts repeat a numeric identifier or a
/// handle.
fn has_duplicate_identity(accounts: &Vec<RawAccount>) -> (b: bool)
    ensures
        b == !no_duplicate_identity(accounts.deep_view()),
{
    let ghost raw = accounts.deep_view();
    let n = accounts.len();
    let mut i: usize = 0;
    while i < n
        invariant
            n == accounts.len(),
            raw == accounts.deep_view(),
            i <= n,
            forall|p: int, q: int| 0 <= p < q < i ==> raw[p].id != raw[q].id,
            forall|p: int, q: int| 0 <= p < q < i ==> raw[p].username != raw[q].username,
        decreases n - i,
    {
        let mut j: usize = 0;
        while j < i
            invariant
                n == accounts.len(),
                raw == accounts.deep_view(),
                j <= i < n,
                forall|p: int, q: int| 0 <= p < q < i ==> raw[p].id != raw[q].id,
                forall|p: int, q: int| 0 <= p < q < i ==> raw[p].username != raw[q].username,
                forall|p: int| 0 <= p < j ==> raw[p].id != raw[i as int].id,
                forall|p: int| 0 <= p < j ==> raw[p].username != raw[i as int].username,
            decreases i - j,
        {
            if accounts[j].id == accounts[i].id {
                proof {
                    assert(raw[j as int].id == raw[i as int].id);
                    assert(!unique_numeric_ids(raw));
                }
                return true;
            }
            if accounts[j].username == accounts[i].username {
                proof {
                    assert(raw[j as int].username == raw[i as int].username);
                    assert(!unique_usernames(raw));
                }
                return true;
            }
            j = j + 1;
        }
        i = i + 1;
    }
    false
}

/// Decides whether some input account carries the given numeric
/// identifier.
fn contains_id(accounts: &Vec<RawAccount>, id: u64) -> (b: bool)
    ensures
        b == has_account_id(accounts.deep_view(), id),
{
    let ghost raw = accounts.deep_view();
    let mut i: usize = 0;
    while i < accounts.len()
        invariant
            raw == accounts.deep_view(),
            i <= accounts.len(),
            forall|j: int| 0 <= j < i ==> raw[j].id != id,
        decreases accounts.len() - i,
    {
        if accounts[i].id == id {
            proof {
                assert(raw[i as int].id == id);
            }
            return true;
        }
        i = i + 1;
    }
    false
}

/// Decides whether every edge endpoint names an account of the set.
fn edges_all_resolve(accounts: &Vec<RawAccount>, edges: &Vec<FollowEdge>) -> (b: bool)
    ensures
        b == edges_resolve(accounts.deep_view(), edges.deep_view()),
{
    let ghost raw = accounts.deep_view();
    let ghost es = edges.deep_view();
    let mut k: usize = 0;
    while k < edges.len()
        invariant
            raw == accounts.deep_view(),
            es == edges.deep_view(),
            k <= edges.len(),
            forall|j: int|
                0 <= j < k ==> has_account_id(raw, es[j].account_id) && has_account_id(
                    raw,
                    es[j].target_account_id,
                ),
        decreases edges.len() - k,
    {
        if !contains_id(accounts, edges[k].account_id) {
            proof {
                assert(!has_account_id(raw, es[k as int].account_id));
            }
            return false;
        }
        if !contains_id(accounts, edges[k].target_account_id) {
            proof {
                assert(!has_account_id(raw, es[k as int].target_account_id));
            }
            return false;
        }
        k = k + 1;
    }
    true
}

/// Decides whether one media triple is consistent.
fn triple_ok(name: &Option<String>, content_type: &Option<String>, size: &Option<u64>) -> (b: bool)
    ensures
        b == media_triple_consistent(name.deep_view(), content_type.deep_view(), *size),
{
    (name.is_some() == content_type.is_some()) && (name.is_some() == size.is_some())
}

/// Decides whether every account's media triples are consistent.
fn all_triples_ok(accounts: &Vec<RawAccount>) -> (b: bool)
    ensures
        b == all_triples_consistent(accounts.deep_view()),
{
    let ghost raw = accounts.deep_view();
    let mut i: usize = 0;
    while i < accounts.len()
        invariant
            raw == accounts.deep_view(),
            i <= accounts.len(),
            forall|j: int| 0 <= j < i ==> account_triples_consistent(#[trigger] raw[j]),
        decreases accounts.len() - i,
    {
        let a = &accounts[i];
        if !triple_ok(&a.avatar_file_name, &a.avatar_content_type, &a.avatar_file_size) {
            proof {
                assert(!account_triples_consistent(raw[i as int]));
            }
            return false;
        }
        if !triple_ok(&a.header_file_name, &a.header_content_type, &a.header_file_size) {
            proof {
                assert(!account_triples_consistent(raw[i as int]));
            }
            return false;
        }
        i = i + 1;
    }
    true
}

/// Finds the winning statistics record for an account: the index of the
/// last record carrying its numeric identifier.
fn find_stats(stats: &Vec<AccountStats>, id: u64) -> (r: Option<usize>)
    ensures
        match r {
            Some(k) => k < stats.len() && stats_for(stats.deep_view(), id) == Some(
                stats.deep_view()[k as int],
            ),
            None => stats_for(stats.deep_view(), id) is None,
        },
{
    let ghost ss = stats.deep_view();
    let mut r: Option<usize> = None;
    let mut i: usize = 0;
    while i < stats.len()
        invariant
            ss == stats.deep_view(),
            i <= stats.len(),
            match r {
                Some(k) => k < i && stats_for(ss.subrange(0, i as int), id) == Some(
                    ss[k as int],
                ),
                None => stats_for(ss.subrange(0, i as int), id) is None,
            },
        decreases stats.len() - i,
    {
        let ghost prev = ss.subrange(0, i as int);
        if stats[i].account_id == id {
            r = Some(i);
        }
        i = i + 1;
        proof {
            assert(ss.subrange(0, i as int).drop_last() =~= prev);
            assert(ss.subrange(0, i as int).last() == ss[i - 1]);
        }
    }
    proof {
        assert(ss.subrange(0, ss.len() as int) =~= ss);
    }
    r
}

/// Finds the input index of the account carrying the given numeric
/// identifier.
fn find_index_by_id(accounts: &Vec<RawAccount>, id: u64) -> (r: Option<usize>)
    ensures
        match r {
            Some(i) => i < accounts.len() && accounts.deep_view()[i as int].id == id,
            None => !has_account_id(accounts.deep_view(), id),
        },
{
    let ghost raw = accounts.deep_view();
    let mut i: usize = 0;
    while i < accounts.len()
        invariant
            raw == accounts.deep_view(),
            i <= accounts.len(),
            forall|j: int| 0 <= j < i ==> raw[j].id != id,
        decreases accounts.len() - i,
    {
        if accounts[i].id == id {
            return Some(i);
        }
        i = i + 1;
    }
    None
}

/// Collects, in edge order, the external identifiers of the accounts
/// that the given account follows.
fn build_following(accounts: &Vec<RawAccount>, edges: &Vec<FollowEdge>, id: u64) -> (r: Vec<String>)
    requires
        unique_numeric_ids(accounts.deep_view()),
        edges_resolve(accounts.deep_view(), edges.deep_view()),
    ensures
        r.deep_view() == following_of(accounts.deep_view(), edges.deep_view(), id),
{
    let ghost raw = accounts.deep_view();
    let ghost es = edges.deep_view();
    let mut r: Vec<String> = Vec::new();
    let mut k: usize = 0;
    while k < edges.len()
        invariant
            raw == accounts.deep_view(),
            es == edges.deep_view(),
            unique_numeric_ids(raw),
            edges_resolve(raw, es),
            k <= edges.len(),
            r.deep_view() =~= following_of(raw, es.subrange(0, k as int), id),
        decreases edges.len() - k,
    {
        let ghost prev = es.subrange(0, k as int);
        if edges[k].account_id == id {
            let target = edges[k].target_account_id;
            proof {
                assert(has_account_id(raw, es[k as int].target_account_id));
            }
            match find_index_by_id(accounts, target) {
                Some(ti) => {
                    proof {
                        lemma_ext_of_index(raw, ti as int);
                        assert(ext_of(raw, target) == ext_id(raw[ti as int].username));
                    }
                    r.push(crate::utils::add_near_suffix(&accounts[ti].username));
                },
                None => {
                    proof {
                        assert(false);
                    }
                },
            }
        }
        k = k + 1;
        proof {
            assert(es.subrange(0, k as int).drop_last() =~= prev);
            assert(es.subrange(0, k as int).last() == es[k - 1]);
            assert(r.deep_view() =~= following_of(raw, es.subrange(0, k as int), id));
        }
    }
    proof {
        assert(es.subrange(0, es.len() as int) =~= es);
    }
    r
}

/// Collects, in edge order, the external identifiers of the accounts
/// following the given account.
fn build_followers(accounts: &Vec<RawAccount>, edges: &Vec<FollowEdge>, id: u64) -> (r: Vec<String>)
    requires
        unique_numeric_ids(accounts.deep_view()),
        edges_resolve(accounts.deep_view(), edges.deep_view()),
    ensures
        r.deep_view() == followers_of(accounts.deep_view(), edges.deep_view(), id),
{
    let ghost raw = accounts.deep_view();
    let ghost es = edges.deep_view();
    let mut r: Vec<String> = Vec::new();
    let mut k: usize = 0;
    while k < edges.len()
        invariant
            raw == accounts.deep_view(),
            es == edges.deep_view(),
            unique_numeric_ids(raw),
            edges_resolve(raw, es),
            k <= edges.len(),
            r.deep_view() =~= followers_of(raw, es.subrange(0, k as int), id),
        decreases edges.len() - k,
    {
        let ghost prev = es.subrange(0, k as int);
        if edges[k].target_account_id == id {
            let source = edges[k].account_id;
            proof {
                assert(has_account_id(raw, es[k as int].account_id));
            }
            match find_index_by_id(accounts, source) {
                Some(si) => {
                    proof {
                        lemma_ext_of_index(raw, si as int);
                        assert(ext_of(raw, source) == ext_id(raw[si as int].username));
                    }
                    r.push(crate::utils::add_near_suffix(&accounts[si].username));
                },
                None => {
                    proof {
                        assert(false);
                    }
                },
            }
        }
        k = k + 1;
        proof {
            assert(es.subrange(0, k as int).drop_last() =~= prev);
            assert(es.subrange(0, k as int).last() == es[k - 1]);
            assert(r.deep_view() =~= followers_of(raw, es.subrange(0, k as int), id));
        }
    }
    proof {
        assert(es.subrange(0, es.len() as int) =~= es);
    }
    r
}

/// With no duplicate identity, the consolidated accounts carry unique
/// external identifiers: the snapshot keys collide nowhere.
pub proof fn lemma_consolidated_unique(
    raw: Seq<RawAccountV>,
    stats: Seq<AccountStatsV>,
    edges: Seq<FollowEdgeV>,
)
    requires
        no_duplicate_identity(raw),
    ensures
        unique_account_ids(consolidated_seq(raw, stats, edges)),
{
    let cs = consolidated_seq(raw, stats, edges);
    assert forall|p: int, q: int|
        0 <= p < q < cs.len() implies cs[p].account_id != cs[q].account_id by {
        if cs[p].account_id == cs[q].account_id {
            crate::utils::lemma_ext_id_injective(raw[p].username, raw[q].username);
        }
    }
}

/// Resolves every input account to its external identifier, in input
/// order. Fails exactly when the numeric-to-external mapping would not
/// be a bijection.
pub fn resolve(accounts: &Vec<RawAccount>) -> (r: Result<Vec<String>, JoinError>)
    ensures
        r is Ok <==> no_duplicate_identity(accounts.deep_view()),
        r is Err ==> r == Err::<Vec<String>, JoinError>(JoinError::DuplicateIdentity),
        r matches Ok(v) ==> v.deep_view().len() == accounts.deep_view().len() && forall|i: int|
            0 <= i < accounts.deep_view().len() ==> v.deep_view()[i] == ext_id(
                #[trigger] accounts.deep_view()[i].username,
            ),
{
    let ghost raw = accounts.deep_view();
    if has_duplicate_identity(accounts) {
        return Err(JoinError::DuplicateIdentity);
    }
    let mut v: Vec<String> = Vec::new();
    let mut i: usize = 0;
    while i < accounts.len()
        invariant
            raw == accounts.deep_view(),
            i <= accounts.len(),
            v.deep_view().len() == i,
            forall|j: int| 0 <= j < i ==> v.deep_view()[j] == ext_id(#[trigger] raw[j].username),
        decreases accounts.len() - i,
    {
        v.push(crate::utils::add_near_suffix(&accounts[i].username));
        i = i + 1;
    }
    Ok(v)
}

impl Data {
    /// Builds a candidate snapshot from the three fetched feeds: resolves
    /// identities, merges statistics, inverts follow edges, derives media
    /// descriptors and files every consolidated account under its
    /// external identifier. A pure transformation: fails, without partial
    /// output, exactly on a duplicate identity, a dangling edge, or a
    /// malformed media triple, in that order of precedence.
    pub fn build(
        accounts: Vec<RawAccount>,
        account_stats: Vec<AccountStats>,
        follow_edges: Vec<FollowEdge>,
    ) -> (r: Result<Data, JoinError>)
        ensures
            r is Ok <==> build_ok(accounts.deep_view(), follow_edges.deep_view()),
            !no_duplicate_identity(accounts.deep_view()) ==> r == Err::<Data, JoinError>(
                JoinError::DuplicateIdentity,
            ),
            no_duplicate_identity(accounts.deep_view()) && !edges_resolve(
                accounts.deep_view(),
                follow_edges.deep_view(),
            ) ==> r == Err::<Data, JoinError>(JoinError::DanglingEdge),
            no_duplicate_identity(accounts.deep_view()) && edges_resolve(
                accounts.deep_view(),
                follow_edges.deep_view(),
            ) && !all_triples_consistent(accounts.deep_view()) ==> r == Err::<Data, JoinError>(
                JoinError::MalformedMediaTriple,
            ),
            r matches Ok(d) ==> d.wf() && d.accounts.deep_view() == consolidated_seq(
                accounts.deep_view(),
                account_stats.deep_view(),
                follow_edges.deep_view(),
            ) && d@ == snapshot_of(
                accounts.deep_view(),
                account_stats.deep_view(),
                follow_edges.deep_view(),
            ),
    {
        let ghost raw = accounts.deep_view();
        let ghost ss = account_stats.deep_view();
        let ghost es = follow_edges.deep_view();
        if has_duplicate_identity(&accounts) {
            return Err(JoinError::DuplicateIdentity);
        }
        if !edges_all_resolve(&accounts, &follow_edges) {
            return Err(JoinError::DanglingEdge);
        }
        if !all_triples_ok(&accounts) {
            return Err(JoinError::MalformedMediaTriple);
        }
        let mut out: Vec<Account> = Vec::new();
        let mut i: usize = 0;
        while i < accounts.len()
            invariant
                raw == accounts.deep_view(),
                ss == account_stats.deep_view(),
                es == follow_edges.deep_view(),
                no_duplicate_identity(raw),
                edges_resolve(raw, es),
                all_triples_consistent(raw),
                i <= accounts.len(),
                out.deep_view() =~= consolidated_seq(raw, ss, es).subrange(0, i as int),
            decreases accounts.len() - i,
        {
            let a = &accounts[i];
            proof {
                assert(account_triples_consistent(raw[i as int]));
            }
            let ext = crate::utils::add_near_suffix(&a.username);
            let statuses_count = match find_stats(&account_stats, a.id) {
                Some(k) => account_stats[k].statuses_count,
                None => a.statuses_count,
            };
            let avatar = crate::utils::make_image(
                a.id,
                "avatars",
                crate::data::clone_opt_string(&a.avatar_file_name),
                crate::data::clone_opt_string(&a.avatar_content_type),
                a.avatar_file_size,
            );
            let header = crate::utils::make_image(
                a.id,
                "headers",
                crate::data::clone_opt_string(&a.header_file_name),
                crate::data::clone_opt_string(&a.header_content_type),
                a.header_file_size,
            );
            let following = build_following(&accounts, &follow_edges, a.id);
            let followers = build_followers(&accounts, &follow_edges, a.id);
            let acct = Account {
                account_id: ext,
                note: a.note.clone(),
                display_name: a.display_name.clone(),
                avatar,
                header,
                fields: crate::data::clone_fields(&a.fields),
                statuses_count,
                following,
                followers,
            };
            proof {
                assert(acct.fields.deep_view() =~= raw[i as int].fields);
                assert(acct.following.deep_view() == following_of(raw, es, raw[i as int].id));
                assert(acct.followers.deep_view() == followers_of(raw, es, raw[i as int].id));
                assert(acct@.statuses_count == merged_statuses_count(raw[i as int], ss));
                assert(acct@ == consolidated(raw, ss, es, i as int));
            }
            let ghost prev_out = out.deep_view();
            out.push(acct);
            i = i + 1;
            proof {
                let cs = consolidated_seq(raw, ss, es);
                assert(out.deep_view() =~= prev_out.push(acct@));
                assert(cs.subrange(0, i as int) =~= cs.subrange(0, i - 1).push(cs[i - 1]));
                assert(out.deep_view() =~= cs.subrange(0, i as int));
            }
        }
        proof {
            assert(out.deep_view() =~= consolidated_seq(raw, ss, es));
            lemma_consolidated_unique(raw, ss, es);
        }
        Ok(Data { accounts: out })
    }
}

/// No statistics record matches the identifier, so the merge finds
/// nothing.
pub proof fn lemma_stats_for_none(stats: Seq<AccountStatsV>, id: u64)
    requires
        forall|k: int| 0 <= k < stats.len() ==> (#[trigger] stats[k]).account_id != id,
    ensures
        stats_for(stats, id) is None,
    decreases stats.len(),
{
    if stats.len() > 0 {
        lemma_stats_for_none(stats.drop_last(), id);
    }
}

/// Statistics merge default: an account absent from the statistics feed
/// keeps its parse-defaulted post count and last-activity timestamp, so
/// with the documented defaults its consolidated post count is zero and
/// its merged timestamp absent.
pub proof fn lemma_stats_merge_default(
    raw: Seq<RawAccountV>,
    stats: Seq<AccountStatsV>,
    edges: Seq<FollowEdgeV>,
    i: int,
)
    requires
        0 <= i < raw.len(),
        forall|k: int| 0 <= k < stats.len() ==> (#[trigger] stats[k]).account_id != raw[i].id,
        raw[i].statuses_count == 0,
        raw[i].last_status_at is None,
    ensures
        consolidated(raw, stats, edges, i).statuses_count == 0,
        merged_last_status_at(raw[i], stats) is None,
{
    lemma_stats_for_none(stats, raw[i].id);
}

/// Media triple presence: a consolidated account's media descriptor is
/// present exactly when the source file name is present (the build has
/// already rejected inconsistent triples).
pub proof fn lemma_media_presence(
    raw: Seq<RawAccountV>,
    stats: Seq<AccountStatsV>,
    edges: Seq<FollowEdgeV>,
    i: int,
)
    requires
        0 <= i < raw.len(),
    ensures
        consolidated(raw, stats, edges, i).avatar is Some <==> raw[i].avatar_file_name is Some,
        consolidated(raw, stats, edges, i).header is Some <==> raw[i].header_file_name is Some,
{
}

/// Each edge contributes the target's external identifier to the
/// source's following list and the source's external identifier to the
/// target's followers list.
pub proof fn lemma_edge_inversion(raw: Seq<RawAccountV>, edges: Seq<FollowEdgeV>, k: int)
    requires
        0 <= k < edges.len(),
    ensures
        following_of(raw, edges, edges[k].account_id).contains(
            ext_of(raw, edges[k].target_account_id),
        ),
        followers_of(raw, edges, edges[k].target_account_id).contains(
            ext_of(raw, edges[k].account_id),
        ),
    decreases edges.len(),
{
    let src = edges[k].account_id;
    let tgt = edges[k].target_account_id;
    if k == edges.len() - 1 {
        let rest1 = following_of(raw, edges.drop_last(), src);
        assert(following_of(raw, edges, src) == rest1.push(ext_of(raw, tgt)));
        assert(rest1.push(ext_of(raw, tgt))[rest1.len() as int] == ext_of(raw, tgt));
        let rest2 = followers_of(raw, edges.drop_last(), tgt);
        assert(followers_of(raw, edges, tgt) == rest2.push(ext_of(raw, src)));
        assert(rest2.push(ext_of(raw, src))[rest2.len() as int] == ext_of(raw, src));
    } else {
        lemma_edge_inversion(raw, edges.drop_last(), k);
        assert(edges.drop_last()[k] == edges[k]);
        let rest1 = following_of(raw, edges.drop_last(), src);
        let i1 = choose|i: int| 0 <= i < rest1.len() && rest1[i] == ext_of(raw, tgt);
        if edges.last().account_id == src {
            assert(following_of(raw, edges, src)[i1] == ext_of(raw, tgt));
        } else {
            assert(following_of(raw, edges, src) == rest1);
        }
        let rest2 = followers_of(raw, edges.drop_last(), tgt);
        let i2 = choose|i: int| 0 <= i < rest2.len() && rest2[i] == ext_of(raw, src);
        if edges.last().target_account_id == tgt {
            assert(followers_of(raw, edges, tgt)[i2] == ext_of(raw, src));
        } else {
            assert(followers_of(raw, edges, tgt) == rest2);
        }
    }
}

/// No entry of a following list comes from anywhere but an edge: each
/// one is the resolved target of some edge leaving the account.
pub proof fn lemma_following_complete(
    raw: Seq<RawAccountV>,
    edges: Seq<FollowEdgeV>,
    id: u64,
    j: int,
)
    requires
        0 <= j < following_of(raw, edges, id).len(),
    ensures
        exists|k: int|
            0 <= k < edges.len() && (#[trigger] edges[k]).account_id == id && following_of(
                raw,
                edges,
                id,
            )[j] == ext_of(raw, edges[k].target_account_id),
    decreases edges.len(),
{
    let f = following_of(raw, edges, id);
    let rest = following_of(raw, edges.drop_last(), id);
    if edges.last().account_id == id && j == rest.len() {
        assert(edges[edges.len() - 1].account_id == id && f[j] == ext_of(
            raw,
            edges[edges.len() - 1].target_account_id,
        ));
    } else {
        lemma_following_complete(raw, edges.drop_last(), id, j);
        let k = choose|k: int|
            0 <= k < edges.drop_last().len() && (#[trigger] edges.drop_last()[k]).account_id == id
                && rest[j] == ext_of(raw, edges.drop_last()[k].target_account_id);
        assert(edges[k].account_id == id && f[j] == ext_of(raw, edges[k].target_account_id));
    }
}

/// No entry of a followers list comes from anywhere but an edge: each
/// one is the resolved source of some edge entering the account.
pub proof fn lemma_followers_complete(
    raw: Seq<RawAccountV>,
    edges: Seq<FollowEdgeV>,
    id: u64,
    j: int,
)
    requires
        0 <= j < followers_of(raw, edges, id).len(),
    ensures
        exists|k: int|
            0 <= k < edges.len() && (#[trigger] edges[k]).target_account_id == id && followers_of(
                raw,
                edges,
                id,
            )[j] == ext_of(raw, edges[k].account_id),
    decreases edges.len(),
{
    let f = followers_of(raw, edges, id);
    let rest = followers_of(raw, edges.drop_last(), id);
    if edges.last().target_account_id == id && j == rest.len() {
        assert(edges[edges.len() - 1].target_account_id == id && f[j] == ext_of(
            raw,
            edges[edges.len() - 1].account_id,
        ));
    } else {
        lemma_followers_complete(raw, edges.drop_last(), id, j);
        let k = choose|k: int|
            0 <= k < edges.drop_last().len() && (#[trigger] edges.drop_last()[k]).target_account_id
                == id && rest[j] == ext_of(raw, edges.drop_last()[k].account_id);
        assert(edges[k].target_account_id == id && f[j] == ext_of(raw, edges[k].account_id));
    }
}

/// Edge inversion correctness across a successful build: every surviving
/// edge's target appears in the source's following list and its source
/// in the target's followers list, both read out of the snapshot under
/// the accounts' external identifiers.
pub proof fn lemma_edge_inversion_in_snapshot(
    raw: Seq<RawAccountV>,
    stats: Seq<AccountStatsV>,
    edges: Seq<FollowEdgeV>,
    k: int,
)
    requires
        build_ok(raw, edges),
        0 <= k < edges.len(),
    ensures
        ({
            let m = snapshot_of(raw, stats, edges);
            let src = ext_of(raw, edges[k].account_id);
            let tgt = ext_of(raw, edges[k].target_account_id);
            m.contains_key(src) && m.contains_key(tgt) && m[src].following.contains(tgt)
                && m[tgt].followers.contains(src)
        }),
{
    let cs = consolidated_seq(raw, stats, edges);
    let m = snapshot_of(raw, stats, edges);
    lemma_consolidated_unique(raw, stats, edges);
    assert(has_account_id(raw, edges[k].account_id));
    assert(has_account_id(raw, edges[k].target_account_id));
    let si = account_index(raw, edges[k].account_id);
    let ti = account_index(raw, edges[k].target_account_id);
    lemma_ext_of_index(raw, si);
    lemma_ext_of_index(raw, ti);
    crate::data::lemma_map_of_index(cs, si);
    crate::data::lemma_map_of_index(cs, ti);
    assert(m[ext_of(raw, edges[k].account_id)] == cs[si]);
    assert(m[ext_of(raw, edges[k].target_account_id)] == cs[ti]);
    lemma_edge_inversion(raw, edges, k);
}

} // verus!

