//! The process engine: authorization of command authors through the team
//! directory, application of parsed commands to the store, fulfilment of
//! feedback requests, the readiness evaluator, and the batch driver that
//! runs one ordered batch of comments through the whole pipeline.

use vstd::prelude::*;

use crate::command::{parse_cmd, CommandView, FcpDisposition, RfcBotCommand};
use crate::github::{
    find_issue_by_id, find_issue_by_id_spec, find_user_by_id, find_user_by_id_spec,
    find_user_by_login, find_user_by_login_spec, GitHubUser, Issue, IssueComment,
};
use crate::store::{
    cancel_spec, feedback_request_spec, fulfill_feedback_spec, has_concern, has_proposal,
    lemma_filter_take_step, new_concern_spec, propose_spec, resolve_concern_spec, reviewed_spec,
    Proposal, ProposalStore, StoreView,
};
use crate::teams::RfcbotConfig;
use crate::text::str_eq;

verus! {

/// A fatal lookup failure: a referenced issue, user or login is unknown.
#[derive(Clone, Copy, Debug, Eq, PartialEq, Structural)]
pub enum NagError {
    NotFound,
}

pub open spec fn string_seq_contains(v: Seq<String>, s: Seq<char>) -> bool {
    exists|i: int| 0 <= i < v.len() && (#[trigger] v[i])@ == s
}

/// Does the user belong to some team whose label is on the issue?
pub open spec fn is_subteam_member(cfg: RfcbotConfig, issue: Issue, u: GitHubUser) -> bool {
    exists|t: int|
        0 <= t < cfg.teams@.len() && string_seq_contains(
            issue.labels@,
            (#[trigger] cfg.teams@[t]).0.0@,
        ) && string_seq_contains(cfg.teams@[t].1.members@, u.login@)
}

pub open spec fn has_user_id(members: Seq<GitHubUser>, id: u64) -> bool {
    exists|i: int| 0 <= i < members.len() && (#[trigger] members[i]).id == id
}

fn contains_string(v: &Vec<String>, s: &str) -> (r: bool)
    ensures
        r == string_seq_contains(v@, s@),
{
    let n = v.len();
    let mut i: usize = 0;
    loop
        invariant
            i <= n,
            n == v@.len(),
            forall|j: int| 0 <= j < i ==> (#[trigger] v@[j])@ != s@,
        decreases n - i,
    {
        if i == n {
            return false;
        }
        if str_eq(v[i].as_str(), s) {
            proof {
                assert(v@[i as int]@ == s@);
            }
            return true;
        }
        i = i + 1;
    }
}

fn user_is_subteam_member(cfg: &RfcbotConfig, issue: &Issue, user: &GitHubUser) -> (r: bool)
    ensures
        r == is_subteam_member(*cfg, *issue, *user),
{
    let n = cfg.teams.len();
    let mut t: usize = 0;
    loop
        invariant
            t <= n,
            n == cfg.teams@.len(),
            forall|u: int|
                0 <= u < t ==> !(string_seq_contains(
                    issue.labels@,
                    (#[trigger] cfg.teams@[u]).0.0@,
                ) && string_seq_contains(cfg.teams@[u].1.members@, user.login@)),
        decreases n - t,
    {
        if t == n {
            return false;
        }
        let entry = &cfg.teams[t];
        if contains_string(&issue.labels, entry.0.0.as_str()) && contains_string(
            &entry.1.members,
            user.login.as_str(),
        ) {
            return true;
        }
        t = t + 1;
    }
}

/// AuthorizationGate: every user belonging to some team whose label is on
/// the issue, in registry order, without duplicates (one entry per user).
pub fn subteam_members(issue: &Issue, cfg: &RfcbotConfig, users: &Vec<GitHubUser>) -> (r: Vec<
    GitHubUser,
>)
    ensures
        r@ == users@.filter(|u: GitHubUser| is_subteam_member(*cfg, *issue, u)),
{
    let mut r: Vec<GitHubUser> = Vec::new();
    let n = users.len();
    let mut i: usize = 0;
    while i < n
        invariant
            i <= n,
            n == users@.len(),
            r@ == users@.take(i as int).filter(|u: GitHubUser| is_subteam_member(*cfg, *issue, u)),
        decreases n - i,
    {
        proof {
            lemma_filter_take_step(
                users@,
                |u: GitHubUser| is_subteam_member(*cfg, *issue, u),
                i as int,
            );
        }
        if user_is_subteam_member(cfg, issue, &users[i]) {
            r.push(users[i].clone());
        }
        i = i + 1;
    }
    proof {
        assert(users@.take(n as int) =~= users@);
    }
    r
}

/// AuthorizationGate: is the author one of the authorized members?
pub fn is_authorized(author: &GitHubUser, members: &Vec<GitHubUser>) -> (r: bool)
    ensures
        r == has_user_id(members@, author.id),
{
    let n = members.len();
    let mut i: usize = 0;
    loop
        invariant
            i <= n,
            n == members@.len(),
            forall|j: int| 0 <= j < i ==> (#[trigger] members@[j]).id != author.id,
        decreases n - i,
    {
        if i == n {
            return false;
        }
        if members[i].id == author.id {
            return true;
        }
        i = i + 1;
    }
}

pub open spec fn member_ids_spec(members: Seq<GitHubUser>) -> Seq<u64> {
    members.map_values(|u: GitHubUser| u.id)
}

fn member_ids(members: &Vec<GitHubUser>) -> (r: Vec<u64>)
    ensures
        r@ == member_ids_spec(members@),
{
    let mut r: Vec<u64> = Vec::new();
    let n = members.len();
    let mut i: usize = 0;
    while i < n
        invariant
            i <= n,
            n == members@.len(),
            r@.len() == i,
            forall|j: int| 0 <= j < i ==> r@[j] == (#[trigger] members@[j]).id,
        decreases n - i,
    {
        r.push(members[i].id);
        i = i + 1;
    }
    proof {
        assert(r@ =~= member_ids_spec(members@));
    }
    r
}

/// What applying one authorized command to the store means. Only `f?` can
/// fail: its login must resolve to a known user.
pub open spec fn process_spec(
    cmd: CommandView,
    author: GitHubUser,
    issue: Issue,
    comment: IssueComment,
    members: Seq<GitHubUser>,
    users: Seq<GitHubUser>,
    s: StoreView,
) -> Result<StoreView, NagError> {
    match cmd {
        CommandView::FcpPropose(d) => Ok(
            propose_spec(s, issue.id, author.id, comment.id, d, member_ids_spec(members)),
        ),
        CommandView::FcpCancel => Ok(cancel_spec(s, issue.id)),
        CommandView::Reviewed => Ok(reviewed_spec(s, issue.id, author.id, comment.id)),
        CommandView::NewConcern(name) => Ok(new_concern_spec(s, issue.id, author.id, name)),
        CommandView::ResolveConcern(name) => Ok(
            resolve_concern_spec(s, issue.id, author.id, name, comment.id),
        ),
        CommandView::FeedbackRequest(login) => match find_user_by_login_spec(users, login) {
            Some(u) => Ok(feedback_request_spec(s, issue.id, author.id, u.id)),
            None => Err(NagError::NotFound),
        },
    }
}

impl RfcBotCommand {
    /// ProcessEngine: apply this parsed, authorized command to the store,
    /// exactly as `process_spec` describes. On failure the store is
    /// untouched.
    pub fn process(
        self,
        author: &GitHubUser,
        issue: &Issue,
        comment: &IssueComment,
        issue_subteam_members: &Vec<GitHubUser>,
        users: &Vec<GitHubUser>,
        store: &mut ProposalStore,
    ) -> (r: Result<(), NagError>)
        ensures
            match process_spec(
                self@,
                *author,
                *issue,
                *comment,
                issue_subteam_members@,
                users@,
                old(store)@,
            ) {
                Ok(t) => r is Ok && final(store)@ == t,
                Err(e) => r == Err::<(), NagError>(e) && final(store)@ == old(store)@,
            },
    {
        match self {
            RfcBotCommand::FcpPropose(d) => {
                let ids = member_ids(issue_subteam_members);
                store.create_proposal(issue.id, author.id, comment.id, d, &ids);
                Ok(())
            },
            RfcBotCommand::FcpCancel => {
                store.cancel_proposal(issue.id);
                Ok(())
            },
            RfcBotCommand::Reviewed => {
                store.mark_reviewed(issue.id, author.id, comment.id);
                Ok(())
            },
            RfcBotCommand::NewConcern(name) => {
                store.add_concern(issue.id, author.id, name);
                Ok(())
            },
            RfcBotCommand::ResolveConcern(name) => {
                store.resolve_concern(issue.id, author.id, name.as_str(), comment.id);
                Ok(())
            },
            RfcBotCommand::FeedbackRequest(login) => {
                match find_user_by_login(users, login.as_str()) {
                    Some(k) => {
                        store.create_feedback_request(issue.id, author.id, users[k].id);
                        Ok(())
                    },
                    None => Err(NagError::NotFound),
                }
            },
        }
    }
}

/// FeedbackResolver: a comment that is no bot command fulfils any
/// outstanding feedback request addressed to its author on that issue.
pub fn resolve_applicable_feedback_requests(
    author: &GitHubUser,
    issue: &Issue,
    comment: &IssueComment,
    store: &mut ProposalStore,
)
    ensures
        final(store)@ == fulfill_feedback_spec(old(store)@, issue.id, author.id, comment.id),
{
    store.fulfill_feedback(issue.id, author.id, comment.id);
}

/// A finished-FCP signal: the issue whose proposal is ready to finalize,
/// and the disposition it asked for.
#[derive(Clone, Copy, Debug, Eq, PartialEq, Structural)]
pub struct NagSignal {
    pub issue: u64,
    pub disposition: FcpDisposition,
}

/// A proposal is ready to finalize exactly when every concern under it is
/// resolved and every review request under it is reviewed.
pub open spec fn proposal_ready(s: StoreView, issue: u64) -> bool {
    &&& forall|i: int|
        0 <= i < s.concerns.len() && (#[trigger] s.concerns[i]).issue == issue
            ==> s.concerns[i].resolved_comment is Some
    &&& forall|i: int|
        0 <= i < s.reviews.len() && (#[trigger] s.reviews[i]).issue == issue
            ==> s.reviews[i].reviewed_comment is Some
}

/// The signals a sweep over the store emits: one per ready proposal, in
/// store order.
pub open spec fn nag_signals(s: StoreView) -> Seq<NagSignal> {
    s.proposals.filter(|p: Proposal| proposal_ready(s, p.issue)).map_values(
        |p: Proposal| NagSignal { issue: p.issue, disposition: p.disposition },
    )
}

fn issue_ready(store: &ProposalStore, issue: u64) -> (r: bool)
    ensures
        r == proposal_ready(store@, issue),
{
    let nc = store.concerns.len();
    let mut i: usize = 0;
    while i < nc
        invariant
            i <= nc,
            nc == store@.concerns.len(),
            forall|j: int|
                0 <= j < i && (#[trigger] store@.concerns[j]).issue == issue
                    ==> store@.concerns[j].resolved_comment is Some,
        decreases nc - i,
    {
        let c = &store.concerns[i];
        proof {
            assert(store@.concerns[i as int] == store.concerns@[i as int]@);
        }
        if c.issue == issue && c.resolved_comment.is_none() {
            return false;
        }
        i = i + 1;
    }
    let nr = store.reviews.len();
    let mut k: usize = 0;
    while k < nr
        invariant
            k <= nr,
            nr == store@.reviews.len(),
            forall|j: int|
                0 <= j < k && (#[trigger] store@.reviews[j]).issue == issue
                    ==> store@.reviews[j].reviewed_comment is Some,
            forall|j: int|
                0 <= j < store@.concerns.len() && (#[trigger] store@.concerns[j]).issue == issue
                    ==> store@.concerns[j].resolved_comment is Some,
        decreases nr - k,
    {
        let r = store.reviews[k];
        if r.issue == issue && r.reviewed_comment.is_none() {
            return false;
        }
        k = k + 1;
    }
    true
}

/// NagEvaluator: sweep the store and report every proposal that is ready
/// to finalize. A pure read: the store is untouched.
pub fn evaluate_nags(store: &ProposalStore) -> (r: Vec<NagSignal>)
    ensures
        r@ == nag_signals(store@),
{
    let mut out: Vec<NagSignal> = Vec::new();
    let n = store.proposals.len();
    let mut i: usize = 0;
    while i < n
        invariant
            i <= n,
            n == store@.proposals.len(),
            out@ == store@.proposals.take(i as int).filter(
                |p: Proposal| proposal_ready(store@, p.issue),
            ).map_values(|p: Proposal| NagSignal { issue: p.issue, disposition: p.disposition }),
        decreases n - i,
    {
        let p = store.proposals[i];
        proof {
            lemma_filter_take_step(
                store@.proposals,
                |p: Proposal| proposal_ready(store@, p.issue),
                i as int,
            );
        }
        if issue_ready(store, p.issue) {
            out.push(NagSignal { issue: p.issue, disposition: p.disposition });
            proof {
                let pred = |p: Proposal| proposal_ready(store@, p.issue);
                let f = |p: Proposal| NagSignal { issue: p.issue, disposition: p.disposition };
                assert(store@.proposals.take(i + 1).filter(pred).map_values(f)
                    =~= store@.proposals.take(i as int).filter(pred).map_values(f).push(f(p)));
            }
        }
        i = i + 1;
    }
    proof {
        assert(store@.proposals.take(n as int) =~= store@.proposals);
    }
    out
}

/// Stable insertion of a comment into a time-sorted sequence: it lands
/// after every element no later than it.
pub open spec fn insert_by_time(s: Seq<IssueComment>, c: IssueComment) -> Seq<IssueComment>
    decreases s.len(),
{
    if s.len() == 0 {
        seq![c]
    } else if s.last().created_at <= c.created_at {
        s.push(c)
    } else {
        insert_by_time(s.drop_last(), c).push(s.last())
    }
}

/// The batch order: comments sorted ascending by creation time, equal
/// times keeping their arrival order.
pub open spec fn sort_by_time(s: Seq<IssueComment>) -> Seq<IssueComment>
    decreases s.len(),
{
    if s.len() == 0 {
        s
    } else {
        insert_by_time(sort_by_time(s.drop_last()), s.last())
    }
}

/// Nondecreasing creation times.
pub open spec fn sorted_by_time(s: Seq<IssueComment>) -> bool {
    forall|i: int, j: int| 0 <= i < j < s.len() ==> s[i].created_at <= s[j].created_at
}

proof fn lemma_insert_by_time_props(s: Seq<IssueComment>, c: IssueComment)
    requires
        sorted_by_time(s),
    ensures
        sorted_by_time(insert_by_time(s, c)),
        insert_by_time(s, c).to_multiset() == s.to_multiset().insert(c),
        forall|k: int|
            0 <= k < insert_by_time(s, c).len() ==> (#[trigger] insert_by_time(s, c)[k]) == c
                || s.contains(insert_by_time(s, c)[k]),
    decreases s.len(),
{
    let r = insert_by_time(s, c);
    if s.len() == 0 {
        assert(r =~= Seq::<IssueComment>::empty().push(c));
        Seq::<IssueComment>::empty().to_multiset_ensures();
        assert(s =~= Seq::<IssueComment>::empty());
        assert(r.to_multiset() == s.to_multiset().insert(c));
    } else if s.last().created_at <= c.created_at {
        s.to_multiset_ensures();
        assert forall|i: int, j: int| 0 <= i < j < r.len() implies r[i].created_at
            <= r[j].created_at by {
            if j == r.len() - 1 {
                if i < s.len() - 1 {
                    assert(s[i].created_at <= s[s.len() - 1].created_at);
                }
            }
        }
        assert forall|k: int| 0 <= k < r.len() implies r[k] == c || s.contains(r[k]) by {
            if k < s.len() {
                assert(s[k] == r[k]);
            }
        }
    } else {
        let sub0 = s.drop_last();
        assert(sorted_by_time(sub0));
        lemma_insert_by_time_props(sub0, c);
        let sub = insert_by_time(sub0, c);
        sub.to_multiset_ensures();
        sub0.to_multiset_ensures();
        assert(sub0.push(s.last()) =~= s);
        assert(s.to_multiset() == sub0.to_multiset().insert(s.last()));
        assert(r.to_multiset() == sub.to_multiset().insert(s.last()));
        assert(sub0.to_multiset().insert(c).insert(s.last()) =~= sub0.to_multiset().insert(
            s.last(),
        ).insert(c));
        assert(r.to_multiset() == s.to_multiset().insert(c));
        assert forall|k: int| 0 <= k < r.len() implies r[k] == c || s.contains(r[k]) by {
            if k < sub.len() {
                if sub[k] != c {
                    assert(sub0.contains(sub[k]));
                    let m = choose|m: int| 0 <= m < sub0.len() && sub0[m] == sub[k];
                    assert(s[m] == sub[k]);
                }
            } else {
                assert(r[k] == s[s.len() - 1]);
            }
        }
        assert forall|i: int, j: int| 0 <= i < j < r.len() implies r[i].created_at
            <= r[j].created_at by {
            if j == r.len() - 1 {
                assert(r[j] == s.last());
                if sub[i] != c {
                    assert(sub0.contains(sub[i]));
                    let m = choose|m: int| 0 <= m < sub0.len() && sub0[m] == sub[i];
                    assert(s[m].created_at <= s[s.len() - 1].created_at);
                }
            }
        }
    }
}

/// The batch order really is a sort: `sort_by_time` is sorted ascending by
/// creation time and holds exactly the given comments.
pub proof fn lemma_sort_by_time_is_a_sort(s: Seq<IssueComment>)
    ensures
        sorted_by_time(sort_by_time(s)),
        sort_by_time(s).to_multiset() == s.to_multiset(),
    decreases s.len(),
{
    if s.len() > 0 {
        let sub = s.drop_last();
        lemma_sort_by_time_is_a_sort(sub);
        lemma_insert_by_time_props(sort_by_time(sub), s.last());
        sub.to_multiset_ensures();
        assert(sub.push(s.last()) =~= s);
        assert(s.to_multiset() == sub.to_multiset().insert(s.last()));
    }
}

proof fn lemma_insert_by_time_split(a: Seq<IssueComment>, b: Seq<IssueComment>, c: IssueComment)
    requires
        forall|k: int| 0 <= k < b.len() ==> (#[trigger] b[k]).created_at > c.created_at,
    ensures
        insert_by_time(a + b, c) == insert_by_time(a, c) + b,
    decreases b.len(),
{
    if b.len() == 0 {
        assert(a + b =~= a);
        assert(insert_by_time(a, c) + b =~= insert_by_time(a, c));
    } else {
        let ab = a + b;
        assert(ab.last() == b[b.len() - 1]);
        assert(ab.drop_last() =~= a + b.drop_last());
        lemma_insert_by_time_split(a, b.drop_last(), c);
        assert(insert_by_time(a, c) + b =~= (insert_by_time(a, c) + b.drop_last()).push(
            b[b.len() - 1],
        ));
    }
}

fn insert_comment_sorted(v: &mut Vec<IssueComment>, c: IssueComment)
    ensures
        final(v)@ == insert_by_time(old(v)@, c),
{
    let mut p: usize = v.len();
    while p > 0 && v[p - 1].created_at > c.created_at
        invariant
            p <= v@.len(),
            v == old(v),
            forall|k: int| p <= k < v@.len() ==> (#[trigger] v@[k]).created_at > c.created_at,
        decreases p,
    {
        p = p - 1;
    }
    proof {
        let a = v@.take(p as int);
        let b = v@.skip(p as int);
        assert(v@ =~= a + b);
        lemma_insert_by_time_split(a, b, c);
        if a.len() > 0 {
            assert(a.last() == v@[p - 1]);
        }
        assert(insert_by_time(a, c) =~= a.push(c));
        assert(insert_by_time(v@, c) =~= a.push(c) + b);
    }
    let ghost before = v@;
    v.insert(p, c);
    proof {
        assert(final(v)@ =~= before.take(p as int).push(c) + before.skip(p as int));
    }
}

/// Sort a batch of comments ascending by creation time, stably.
pub fn sort_comments(comments: Vec<IssueComment>) -> (r: Vec<IssueComment>)
    ensures
        r@ == sort_by_time(comments@),
{
    let n = comments.len();
    let mut r: Vec<IssueComment> = Vec::new();
    proof {
        assert(comments@.take(0) =~= Seq::<IssueComment>::empty());
    }
    let mut i: usize = 0;
    while i < n
        invariant
            i <= n,
            n == comments@.len(),
            r@ == sort_by_time(comments@.take(i as int)),
        decreases n - i,
    {
        let c = comments[i].clone();
        insert_comment_sorted(&mut r, c);
        proof {
            assert(comments@.take(i + 1).drop_last() =~= comments@.take(i as int));
            assert(comments@.take(i + 1).last() == comments@[i as int]);
        }
        i = i + 1;
    }
    proof {
        assert(comments@.take(n as int) =~= comments@);
    }
    r
}

/// One comment's step through the pipeline: resolve its issue and author;
/// a body that parses as a command is applied when its author is an
/// authorized member and silently dropped otherwise; a body that is no
/// command goes to the feedback resolver instead.
pub open spec fn step_spec(
    users: Seq<GitHubUser>,
    issues: Seq<Issue>,
    cfg: RfcbotConfig,
    s: StoreView,
    c: IssueComment,
) -> Result<StoreView, NagError> {
    match find_issue_by_id_spec(issues, c.fk_issue) {
        None => Err(NagError::NotFound),
        Some(issue) => match find_user_by_id_spec(users, c.fk_user) {
            None => Err(NagError::NotFound),
            Some(author) => {
                let members = users.filter(|u: GitHubUser| is_subteam_member(cfg, issue, u));
                match parse_cmd(c.body@) {
                    Ok(cmd) => if has_user_id(members, author.id) {
                        process_spec(cmd, author, issue, c, members, users, s)
                    } else {
                        Ok(s)
                    },
                    Err(_) => Ok(fulfill_feedback_spec(s, issue.id, author.id, c.id)),
                }
            },
        },
    }
}

/// A whole batch, comment by comment in order. A failing step stops the
/// run and keeps the state reached so far: earlier comments stay applied.
pub open spec fn run_batch_spec(
    users: Seq<GitHubUser>,
    issues: Seq<Issue>,
    cfg: RfcbotConfig,
    s: StoreView,
    comments: Seq<IssueComment>,
) -> (StoreView, Option<NagError>)
    decreases comments.len(),
{
    if comments.len() == 0 {
        (s, None)
    } else {
        match step_spec(users, issues, cfg, s, comments[0]) {
            Err(e) => (s, Some(e)),
            Ok(t) => run_batch_spec(users, issues, cfg, t, comments.drop_first()),
        }
    }
}

/// The inbound entry point: sort the new comments ascending by creation
/// time, run each through parse, authorization and the process engine (or
/// the feedback resolver), then sweep once for ready proposals. A lookup
/// failure aborts the run; the work already done stays committed.
pub fn update_nags(
    comments: Vec<IssueComment>,
    users: &Vec<GitHubUser>,
    issues: &Vec<Issue>,
    cfg: &RfcbotConfig,
    store: &mut ProposalStore,
) -> (r: Result<Vec<NagSignal>, NagError>)
    ensures
        final(store)@ == run_batch_spec(
            users@,
            issues@,
            *cfg,
            old(store)@,
            sort_by_time(comments@),
        ).0,
        match r {
            Ok(sigs) => run_batch_spec(users@, issues@, *cfg, old(store)@, sort_by_time(comments@)).1
                is None && sigs@ == nag_signals(final(store)@),
            Err(e) => run_batch_spec(users@, issues@, *cfg, old(store)@, sort_by_time(comments@)).1
                == Some(e),
        },
{
    let sorted = sort_comments(comments);
    let ghost all = sorted@;
    let n = sorted.len();
    proof {
        assert(all.skip(0) =~= all);
    }
    let mut i: usize = 0;
    while i < n
        invariant
            i <= n,
            n == sorted@.len(),
            sorted@ == all,
            all == sort_by_time(comments@),
            run_batch_spec(users@, issues@, *cfg, old(store)@, all) == run_batch_spec(
                users@,
                issues@,
                *cfg,
                store@,
                all.skip(i as int),
            ),
        decreases n - i,
    {
        let ghost s0 = store@;
        let ghost rem = all.skip(i as int);
        proof {
            assert(rem[0] == all[i as int]);
            assert(rem.drop_first() =~= all.skip(i + 1));
        }
        let c = &sorted[i];
        let issue_k = match find_issue_by_id(issues, c.fk_issue) {
            Some(k) => k,
            None => {
                proof {
                    assert(step_spec(users@, issues@, *cfg, s0, *c) == Err::<
                        StoreView,
                        NagError,
                    >(NagError::NotFound));
                    assert(run_batch_spec(users@, issues@, *cfg, s0, rem) == (
                        s0,
                        Some(NagError::NotFound),
                    ));
                }
                return Err(NagError::NotFound);
            },
        };
        let author_k = match find_user_by_id(users, c.fk_user) {
            Some(k) => k,
            None => {
                proof {
                    assert(step_spec(users@, issues@, *cfg, s0, *c) == Err::<
                        StoreView,
                        NagError,
                    >(NagError::NotFound));
                    assert(run_batch_spec(users@, issues@, *cfg, s0, rem) == (
                        s0,
                        Some(NagError::NotFound),
                    ));
                }
                return Err(NagError::NotFound);
            },
        };
        let issue = &issues[issue_k];
        let author = &users[author_k];
        let members = subteam_members(issue, cfg, users);
        match RfcBotCommand::from_str(c.body.as_str()) {
            Ok(cmd) => {
                if is_authorized(author, &members) {
                    match cmd.process(author, issue, c, &members, users, store) {
                        Ok(()) => {
                            proof {
                                assert(step_spec(users@, issues@, *cfg, s0, *c) == Ok::<
                                    StoreView,
                                    NagError,
                                >(store@));
                            }
                        },
                        Err(e) => {
                            proof {
                                assert(step_spec(users@, issues@, *cfg, s0, *c) == Err::<
                                    StoreView,
                                    NagError,
                                >(e));
                                assert(run_batch_spec(users@, issues@, *cfg, s0, rem) == (
                                    s0,
                                    Some(e),
                                ));
                            }
                            return Err(e);
                        },
                    }
                } else {
                    proof {
                        assert(step_spec(users@, issues@, *cfg, s0, *c) == Ok::<
                            StoreView,
                            NagError,
                        >(store@));
                    }
                }
            },
            Err(_) => {
                resolve_applicable_feedback_requests(author, issue, c, store);
                proof {
                    assert(step_spec(users@, issues@, *cfg, s0, *c) == Ok::<
                        StoreView,
                        NagError,
                    >(store@));
                }
            },
        }
        proof {
            assert(run_batch_spec(users@, issues@, *cfg, s0, rem) == run_batch_spec(
                users@,
                issues@,
                *cfg,
                store@,
                all.skip(i + 1),
            ));
        }
        i = i + 1;
    }
    proof {
        assert(all.skip(n as int) =~= Seq::<IssueComment>::empty());
    }
    let sigs = evaluate_nags(store);
    Ok(sigs)
}

pub open spec fn distinct_user_ids(users: Seq<GitHubUser>) -> bool {
    forall|i: int, j: int|
        0 <= i < j < users.len() ==> (#[trigger] users[i]).id != (#[trigger] users[j]).id
}

/// Processing any one comment preserves the store invariant: whatever the
/// command, the store never ends up with two proposals on one issue, a
/// duplicated child key, or a child outliving its proposal.
pub proof fn lemma_step_preserves_inv(
    users: Seq<GitHubUser>,
    issues: Seq<Issue>,
    cfg: RfcbotConfig,
    s: StoreView,
    c: IssueComment,
)
    requires
        crate::store::store_inv(s),
        distinct_user_ids(users),
    ensures
        match step_spec(users, issues, cfg, s, c) {
            Ok(t) => crate::store::store_inv(t),
            Err(_) => true,
        },
{
    if find_issue_by_id_spec(issues, c.fk_issue) is Some {
        let issue = find_issue_by_id_spec(issues, c.fk_issue).unwrap();
        if find_user_by_id_spec(users, c.fk_user) is Some {
            let author = find_user_by_id_spec(users, c.fk_user).unwrap();
            let pred = |u: GitHubUser| is_subteam_member(cfg, issue, u);
            let members = users.filter(pred);
            crate::store::lemma_filter_pairwise(
                users,
                pred,
                |a: GitHubUser, b: GitHubUser| a.id == b.id,
            );
            let ids = member_ids_spec(members);
            assert forall|i: int, j: int| 0 <= i < j < ids.len() implies ids[i] != ids[j] by {
                assert(ids[i] == members[i].id && ids[j] == members[j].id);
            }
            match parse_cmd(c.body@) {
                Ok(cmd) => {
                    if has_user_id(members, author.id) {
                        match cmd {
                            CommandView::FcpPropose(d) => {
                                crate::store::lemma_propose_preserves_inv(
                                    s,
                                    issue.id,
                                    author.id,
                                    c.id,
                                    d,
                                    ids,
                                );
                            },
                            CommandView::FcpCancel => {
                                crate::store::lemma_cancel_preserves_inv(s, issue.id);
                            },
                            CommandView::Reviewed => {
                                crate::store::lemma_reviewed_preserves_inv(
                                    s,
                                    issue.id,
                                    author.id,
                                    c.id,
                                );
                            },
                            CommandView::NewConcern(name) => {
                                crate::store::lemma_new_concern_preserves_inv(
                                    s,
                                    issue.id,
                                    author.id,
                                    name,
                                );
                            },
                            CommandView::ResolveConcern(name) => {
                                crate::store::lemma_resolve_concern_preserves_inv(
                                    s,
                                    issue.id,
                                    author.id,
                                    name,
                                    c.id,
                                );
                            },
                            CommandView::FeedbackRequest(login) => {
                                if find_user_by_login_spec(users, login) is Some {
                                    let u = find_user_by_login_spec(users, login).unwrap();
                                    crate::store::lemma_feedback_request_preserves_inv(
                                        s,
                                        issue.id,
                                        author.id,
                                        u.id,
                                    );
                                }
                            },
                        }
                    }
                },
                Err(_) => {
                    crate::store::lemma_fulfill_feedback_preserves_inv(
                        s,
                        issue.id,
                        author.id,
                        c.id,
                    );
                },
            }
        }
    }
}

/// After any batch of comments — any sequence of commands, in any order —
/// the store invariant still holds: in particular every issue carries at
/// most one proposal at every point in time.
pub proof fn lemma_run_batch_preserves_inv(
    users: Seq<GitHubUser>,
    issues: Seq<Issue>,
    cfg: RfcbotConfig,
    s: StoreView,
    comments: Seq<IssueComment>,
)
    requires
        crate::store::store_inv(s),
        distinct_user_ids(users),
    ensures
        crate::store::store_inv(run_batch_spec(users, issues, cfg, s, comments).0),
    decreases comments.len(),
{
    if comments.len() > 0 {
        match step_spec(users, issues, cfg, s, comments[0]) {
            Err(_) => {},
            Ok(t) => {
                lemma_step_preserves_inv(users, issues, cfg, s, comments[0]);
                lemma_run_batch_preserves_inv(users, issues, cfg, t, comments.drop_first());
            },
        }
    }
}

/// An otherwise-ready proposal stops being ready the moment a fresh
/// concern is raised on it: the new concern is open.
pub proof fn lemma_new_concern_unreadies(s: StoreView, issue: u64, author: u64, name: Seq<char>)
    requires
        has_proposal(s, issue),
        !has_concern(s, issue, name),
    ensures
        !proposal_ready(new_concern_spec(s, issue, author, name), issue),
{
    let t = new_concern_spec(s, issue, author, name);
    assert(t.concerns[t.concerns.len() - 1].issue == issue && t.concerns[t.concerns.len()
        - 1].resolved_comment is None);
}

} // verus!
