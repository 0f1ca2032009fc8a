//! The persisted entities of the workflow — proposals, review requests,
//! concerns and feedback requests — and the atomic operations over them.
//! Every operation is specified by a pure transition function on `StoreView`;
//! the invariant `store_inv` (at most one proposal per issue, unique child
//! keys, children never outlive their proposal) is preserved by each one.

use vstd::prelude::*;

use crate::command::FcpDisposition;

verus! {

/// An active FCP proposal: at most one exists per issue.
#[derive(Clone, Copy, Debug, Eq, PartialEq)]
pub struct Proposal {
    pub issue: u64,
    pub initiator: u64,
    pub initiating_comment: u64,
    pub disposition: FcpDisposition,
}

/// One team member's pending sign-off on an issue's proposal.
/// `reviewed_comment` is the comment that recorded the review, none yet.
#[derive(Clone, Copy, Debug, Eq, PartialEq)]
pub struct ReviewRequest {
    pub issue: u64,
    pub reviewer: u64,
    pub reviewed_comment: Option<u64>,
}

/// A named objection against an issue's proposal, open until its raiser
/// resolves it.
#[derive(Debug, Eq, PartialEq)]
pub struct Concern {
    pub issue: u64,
    pub initiator: u64,
    pub name: String,
    pub resolved_comment: Option<u64>,
}

/// The mathematical shape of a `Concern`.
pub struct ConcernView {
    pub issue: u64,
    pub initiator: u64,
    pub name: Seq<char>,
    pub resolved_comment: Option<u64>,
}

impl View for Concern {
    type V = ConcernView;

    open spec fn view(&self) -> ConcernView {
        ConcernView {
            issue: self.issue,
            initiator: self.initiator,
            name: self.name@,
            resolved_comment: self.resolved_comment,
        }
    }
}

/// A standing ask for one user to comment on an issue. Independent of any
/// proposal: cancelling a proposal never touches these.
#[derive(Clone, Copy, Debug, Eq, PartialEq)]
pub struct FeedbackRequest {
    pub issue: u64,
    pub initiator: u64,
    pub requested: u64,
    pub feedback_comment: Option<u64>,
}

/// The mathematical state of the store.
#[verifier::ext_equal]
pub struct StoreView {
    pub proposals: Seq<Proposal>,
    pub reviews: Seq<ReviewRequest>,
    pub concerns: Seq<ConcernView>,
    pub feedbacks: Seq<FeedbackRequest>,
}

/// The store of all workflow state.
pub struct ProposalStore {
    pub proposals: Vec<Proposal>,
    pub reviews: Vec<ReviewRequest>,
    pub concerns: Vec<Concern>,
    pub feedbacks: Vec<FeedbackRequest>,
}

impl View for ProposalStore {
    type V = StoreView;

    open spec fn view(&self) -> StoreView {
        StoreView {
            proposals: self.proposals@,
            reviews: self.reviews@,
            concerns: self.concerns@.map_values(|c: Concern| c@),
            feedbacks: self.feedbacks@,
        }
    }
}

pub open spec fn has_proposal(s: StoreView, issue: u64) -> bool {
    exists|i: int| 0 <= i < s.proposals.len() && (#[trigger] s.proposals[i]).issue == issue
}

pub open spec fn has_concern(s: StoreView, issue: u64, name: Seq<char>) -> bool {
    exists|i: int|
        0 <= i < s.concerns.len() && (#[trigger] s.concerns[i]).issue == issue && s.concerns[i].name
            == name
}

pub open spec fn has_feedback(s: StoreView, issue: u64, requested: u64) -> bool {
    exists|i: int|
        0 <= i < s.feedbacks.len() && (#[trigger] s.feedbacks[i]).issue == issue
            && s.feedbacks[i].requested == requested
}

pub open spec fn distinct_ids(ids: Seq<u64>) -> bool {
    forall|i: int, j: int| 0 <= i < j < ids.len() ==> ids[i] != ids[j]
}

/// The review requests created in bulk when a proposal is opened: one per
/// member, none reviewed yet.
pub open spec fn new_reviews(issue: u64, members: Seq<u64>) -> Seq<ReviewRequest> {
    members.map_values(
        |m: u64| ReviewRequest { issue: issue, reviewer: m, reviewed_comment: None },
    )
}

/// `fcp <disposition>`: create a proposal and its review requests, unless
/// the issue already has an active proposal (then nothing changes).
pub open spec fn propose_spec(
    s: StoreView,
    issue: u64,
    author: u64,
    comment: u64,
    disposition: FcpDisposition,
    members: Seq<u64>,
) -> StoreView {
    if has_proposal(s, issue) {
        s
    } else {
        StoreView {
            proposals: s.proposals.push(
                Proposal {
                    issue: issue,
                    initiator: author,
                    initiating_comment: comment,
                    disposition: disposition,
                },
            ),
            reviews: s.reviews + new_reviews(issue, members),
            concerns: s.concerns,
            feedbacks: s.feedbacks,
        }
    }
}

/// `fcp cancel`: delete the issue's proposal, cascading to its review
/// requests and concerns; feedback requests are left untouched. A no-op
/// when the issue has no active proposal.
pub open spec fn cancel_spec(s: StoreView, issue: u64) -> StoreView {
    if has_proposal(s, issue) {
        StoreView {
            proposals: s.proposals.filter(|p: Proposal| p.issue != issue),
            reviews: s.reviews.filter(|r: ReviewRequest| r.issue != issue),
            concerns: s.concerns.filter(|c: ConcernView| c.issue != issue),
            feedbacks: s.feedbacks,
        }
    } else {
        s
    }
}

pub open spec fn reviewed_update(
    r: ReviewRequest,
    issue: u64,
    reviewer: u64,
    comment: u64,
) -> ReviewRequest {
    if r.issue == issue && r.reviewer == reviewer {
        ReviewRequest { issue: r.issue, reviewer: r.reviewer, reviewed_comment: Some(comment) }
    } else {
        r
    }
}

/// `reviewed`: record the author's sign-off on the issue's active proposal,
/// overwriting an earlier one. A no-op when there is no active proposal or
/// no review request for this member.
pub open spec fn reviewed_spec(s: StoreView, issue: u64, reviewer: u64, comment: u64) -> StoreView {
    if has_proposal(s, issue) {
        StoreView {
            proposals: s.proposals,
            reviews: s.reviews.map_values(
                |r: ReviewRequest| reviewed_update(r, issue, reviewer, comment),
            ),
            concerns: s.concerns,
            feedbacks: s.feedbacks,
        }
    } else {
        s
    }
}

/// `concern <name>`: raise a new named concern on the issue's active
/// proposal. A no-op when there is no active proposal or the name is
/// already taken on it.
pub open spec fn new_concern_spec(
    s: StoreView,
    issue: u64,
    author: u64,
    name: Seq<char>,
) -> StoreView {
    if has_proposal(s, issue) && !has_concern(s, issue, name) {
        StoreView {
            proposals: s.proposals,
            reviews: s.reviews,
            concerns: s.concerns.push(
                ConcernView { issue: issue, initiator: author, name: name, resolved_comment: None },
            ),
            feedbacks: s.feedbacks,
        }
    } else {
        s
    }
}

pub open spec fn resolved_update(
    c: ConcernView,
    issue: u64,
    author: u64,
    name: Seq<char>,
    comment: u64,
) -> ConcernView {
    if c.issue == issue && c.initiator == author && c.name == name {
        ConcernView {
            issue: c.issue,
            initiator: c.initiator,
            name: c.name,
            resolved_comment: Some(comment),
        }
    } else {
        c
    }
}

/// `resolved <name>`: mark the named concern resolved — but only when the
/// resolver is the concern's own initiator; anyone else's attempt changes
/// nothing. A no-op when there is no active proposal or no such concern.
pub open spec fn resolve_concern_spec(
    s: StoreView,
    issue: u64,
    author: u64,
    name: Seq<char>,
    comment: u64,
) -> StoreView {
    if has_proposal(s, issue) {
        StoreView {
            proposals: s.proposals,
            reviews: s.reviews,
            concerns: s.concerns.map_values(
                |c: ConcernView| resolved_update(c, issue, author, name, comment),
            ),
            feedbacks: s.feedbacks,
        }
    } else {
        s
    }
}

/// `f? @user`: open a feedback request for the user on this issue, unless
/// one already exists (then nothing changes).
pub open spec fn feedback_request_spec(
    s: StoreView,
    issue: u64,
    author: u64,
    requested: u64,
) -> StoreView {
    if has_feedback(s, issue, requested) {
        s
    } else {
        StoreView {
            proposals: s.proposals,
            reviews: s.reviews,
            concerns: s.concerns,
            feedbacks: s.feedbacks.push(
                FeedbackRequest {
                    issue: issue,
                    initiator: author,
                    requested: requested,
                    feedback_comment: None,
                },
            ),
        }
    }
}

pub open spec fn feedback_update(
    f: FeedbackRequest,
    issue: u64,
    requested: u64,
    comment: u64,
) -> FeedbackRequest {
    if f.issue == issue && f.requested == requested && f.feedback_comment is None {
        FeedbackRequest {
            issue: f.issue,
            initiator: f.initiator,
            requested: f.requested,
            feedback_comment: Some(comment),
        }
    } else {
        f
    }
}

/// A comment by a user with an outstanding feedback request on the issue
/// fulfils that request; an already-fulfilled request keeps its first
/// fulfilling comment.
pub open spec fn fulfill_feedback_spec(
    s: StoreView,
    issue: u64,
    requested: u64,
    comment: u64,
) -> StoreView {
    StoreView {
        proposals: s.proposals,
        reviews: s.reviews,
        concerns: s.concerns,
        feedbacks: s.feedbacks.map_values(
            |f: FeedbackRequest| feedback_update(f, issue, requested, comment),
        ),
    }
}

/// The store's invariant: at most one proposal per issue; review requests
/// unique per (issue, member) and concerns unique per (issue, name), each
/// belonging to an issue with an active proposal; feedback requests unique
/// per (issue, requested user).
pub open spec fn store_inv(s: StoreView) -> bool {
    &&& forall|i: int, j: int|
        0 <= i < j < s.proposals.len() ==> (#[trigger] s.proposals[i]).issue
            != (#[trigger] s.proposals[j]).issue
    &&& forall|i: int, j: int|
        0 <= i < j < s.reviews.len() ==> !((#[trigger] s.reviews[i]).issue
            == (#[trigger] s.reviews[j]).issue && s.reviews[i].reviewer == s.reviews[j].reviewer)
    &&& forall|i: int| 0 <= i < s.reviews.len() ==> has_proposal(s, (#[trigger] s.reviews[i]).issue)
    &&& forall|i: int, j: int|
        0 <= i < j < s.concerns.len() ==> !((#[trigger] s.concerns[i]).issue
            == (#[trigger] s.concerns[j]).issue && s.concerns[i].name == s.concerns[j].name)
    &&& forall|i: int|
        0 <= i < s.concerns.len() ==> has_proposal(s, (#[trigger] s.concerns[i]).issue)
    &&& forall|i: int, j: int|
        0 <= i < j < s.feedbacks.len() ==> !((#[trigger] s.feedbacks[i]).issue
            == (#[trigger] s.feedbacks[j]).issue && s.feedbacks[i].requested
            == s.feedbacks[j].requested)
}

/// Filtering one step further: `take(i + 1)` filters to `take(i)`'s result,
/// with `s[i]` appended when it passes.
pub proof fn lemma_filter_take_step<A>(s: Seq<A>, pred: spec_fn(A) -> bool, i: int)
    requires
        0 <= i < s.len(),
    ensures
        s.take(i + 1).filter(pred) == if pred(s[i]) {
            s.take(i).filter(pred).push(s[i])
        } else {
            s.take(i).filter(pred)
        },
{
    reveal(Seq::filter);
    assert(s.take(i + 1).drop_last() =~= s.take(i));
    assert(s.take(i + 1).last() == s[i]);
}

/// A filtered sequence keeps any pairwise-exclusion property of the
/// unfiltered one, and every element of it comes from the unfiltered one.
pub proof fn lemma_filter_pairwise<A>(s: Seq<A>, pred: spec_fn(A) -> bool, bad: spec_fn(A, A) -> bool)
    requires
        forall|i: int, j: int| 0 <= i < j < s.len() ==> !bad(s[i], s[j]),
    ensures
        forall|i: int, j: int|
            0 <= i < j < s.filter(pred).len() ==> !bad(s.filter(pred)[i], s.filter(pred)[j]),
        forall|i: int| 0 <= i < s.filter(pred).len() ==> s.contains(#[trigger] s.filter(pred)[i]),
    decreases s.len(),
{
    reveal(Seq::filter);
    if s.len() > 0 {
        let sub = s.drop_last();
        assert(forall|i: int, j: int| 0 <= i < j < sub.len() ==> !bad(sub[i], sub[j]));
        lemma_filter_pairwise(sub, pred, bad);
        let fsub = sub.filter(pred);
        assert forall|i: int| 0 <= i < fsub.len() implies s.contains(fsub[i]) by {
            assert(sub.contains(fsub[i]));
            let w = choose|w: int| 0 <= w < sub.len() && sub[w] == fsub[i];
            assert(s[w] == fsub[i]);
        }
        if pred(s.last()) {
            let f = s.filter(pred);
            assert(f == fsub.push(s.last()));
            assert forall|i: int, j: int| 0 <= i < j < f.len() implies !bad(f[i], f[j]) by {
                if j < f.len() - 1 {
                    assert(f[i] == fsub[i] && f[j] == fsub[j]);
                } else {
                    assert(f[j] == s[s.len() - 1]);
                    assert(sub.contains(fsub[i]));
                    let w = choose|w: int| 0 <= w < sub.len() && sub[w] == fsub[i];
                    assert(!bad(s[w], s[s.len() - 1]));
                }
            }
            assert(s.contains(s.last()));
        }
    }
}

/// Any two proposal records for the same issue are one and the same record:
/// under the invariant an issue never carries two proposals.
pub proof fn lemma_at_most_one_proposal(s: StoreView, i: int, j: int)
    requires
        store_inv(s),
        0 <= i < s.proposals.len(),
        0 <= j < s.proposals.len(),
        s.proposals[i].issue == s.proposals[j].issue,
    ensures
        i == j,
{
}

/// Opening a proposal preserves the store invariant, so a run of
/// `fcp <disposition>` and `fcp cancel` commands can never leave two
/// proposals on one issue.
pub proof fn lemma_propose_preserves_inv(
    s: StoreView,
    issue: u64,
    author: u64,
    comment: u64,
    disposition: FcpDisposition,
    members: Seq<u64>,
)
    requires
        store_inv(s),
        distinct_ids(members),
    ensures
        store_inv(propose_spec(s, issue, author, comment, disposition, members)),
{
    let t = propose_spec(s, issue, author, comment, disposition, members);
    if !has_proposal(s, issue) {
        let np = s.proposals.len() as int;
        let nr = s.reviews.len() as int;
        assert forall|i: int, j: int| 0 <= i < j < t.proposals.len() implies (#[trigger] t.proposals[i]).issue
            != (#[trigger] t.proposals[j]).issue by {
            if j == np {
                if s.proposals[i].issue == issue {
                    assert(0 <= i < s.proposals.len() && s.proposals[i].issue == issue);
                }
            }
        }
        assert forall|i: int, j: int| 0 <= i < j < t.reviews.len() implies !((#[trigger] t.reviews[i]).issue
            == (#[trigger] t.reviews[j]).issue && t.reviews[i].reviewer == t.reviews[j].reviewer) by {
            if i < nr && j >= nr {
                if s.reviews[i].issue == issue {
                    assert(has_proposal(s, s.reviews[i].issue));
                }
            }
        }
        assert forall|i: int| 0 <= i < t.reviews.len() implies has_proposal(
            t,
            (#[trigger] t.reviews[i]).issue,
        ) by {
            if i < nr {
                let w = choose|w: int|
                    0 <= w < s.proposals.len() && (#[trigger] s.proposals[w]).issue
                        == s.reviews[i].issue;
                assert(t.proposals[w].issue == t.reviews[i].issue);
            } else {
                assert(t.proposals[np].issue == t.reviews[i].issue);
            }
        }
        assert forall|i: int| 0 <= i < t.concerns.len() implies has_proposal(
            t,
            (#[trigger] t.concerns[i]).issue,
        ) by {
            let w = choose|w: int|
                0 <= w < s.proposals.len() && (#[trigger] s.proposals[w]).issue
                    == s.concerns[i].issue;
            assert(t.proposals[w].issue == t.concerns[i].issue);
        }
    }
}

/// Cancelling a proposal preserves the store invariant.
pub proof fn lemma_cancel_preserves_inv(s: StoreView, issue: u64)
    requires
        store_inv(s),
    ensures
        store_inv(cancel_spec(s, issue)),
{
    let t = cancel_spec(s, issue);
    if has_proposal(s, issue) {
        let pkeep = |p: Proposal| p.issue != issue;
        let rkeep = |r: ReviewRequest| r.issue != issue;
        let ckeep = |c: ConcernView| c.issue != issue;
        lemma_filter_pairwise(
            s.proposals,
            pkeep,
            |a: Proposal, b: Proposal| a.issue == b.issue,
        );
        lemma_filter_pairwise(
            s.reviews,
            rkeep,
            |a: ReviewRequest, b: ReviewRequest| a.issue == b.issue && a.reviewer == b.reviewer,
        );
        lemma_filter_pairwise(
            s.concerns,
            ckeep,
            |a: ConcernView, b: ConcernView| a.issue == b.issue && a.name == b.name,
        );
        assert forall|i: int| 0 <= i < t.reviews.len() implies has_proposal(
            t,
            (#[trigger] t.reviews[i]).issue,
        ) by {
            s.reviews.lemma_filter_pred(rkeep, i);
            assert(s.reviews.contains(t.reviews[i]));
            let w = choose|w: int| 0 <= w < s.reviews.len() && s.reviews[w] == t.reviews[i];
            assert(has_proposal(s, s.reviews[w].issue));
            let pw = choose|pw: int|
                0 <= pw < s.proposals.len() && (#[trigger] s.proposals[pw]).issue
                    == s.reviews[w].issue;
            s.proposals.lemma_filter_contains(pkeep, pw);
            let k = choose|k: int|
                0 <= k < t.proposals.len() && t.proposals[k] == s.proposals[pw];
            assert(t.proposals[k].issue == t.reviews[i].issue);
        }
        assert forall|i: int| 0 <= i < t.concerns.len() implies has_proposal(
            t,
            (#[trigger] t.concerns[i]).issue,
        ) by {
            s.concerns.lemma_filter_pred(ckeep, i);
            assert(s.concerns.contains(t.concerns[i]));
            let w = choose|w: int| 0 <= w < s.concerns.len() && s.concerns[w] == t.concerns[i];
            assert(has_proposal(s, s.concerns[w].issue));
            let pw = choose|pw: int|
                0 <= pw < s.proposals.len() && (#[trigger] s.proposals[pw]).issue
                    == s.concerns[w].issue;
            s.proposals.lemma_filter_contains(pkeep, pw);
            let k = choose|k: int|
                0 <= k < t.proposals.len() && t.proposals[k] == s.proposals[pw];
            assert(t.proposals[k].issue == t.concerns[i].issue);
        }
    }
}

/// Cancelling a proposal deletes every review request and concern of its
/// issue and leaves the issue's feedback requests untouched.
pub proof fn lemma_cancel_cascades(s: StoreView, issue: u64)
    requires
        store_inv(s),
    ensures
        cancel_spec(s, issue).feedbacks == s.feedbacks,
        forall|i: int|
            0 <= i < cancel_spec(s, issue).reviews.len() ==> (#[trigger] cancel_spec(
                s,
                issue,
            ).reviews[i]).issue != issue,
        forall|i: int|
            0 <= i < cancel_spec(s, issue).concerns.len() ==> (#[trigger] cancel_spec(
                s,
                issue,
            ).concerns[i]).issue != issue,
{
    let t = cancel_spec(s, issue);
    if has_proposal(s, issue) {
        assert forall|i: int| 0 <= i < t.reviews.len() implies (#[trigger] t.reviews[i]).issue
            != issue by {
            s.reviews.lemma_filter_pred(|r: ReviewRequest| r.issue != issue, i);
        }
        assert forall|i: int| 0 <= i < t.concerns.len() implies (#[trigger] t.concerns[i]).issue
            != issue by {
            s.concerns.lemma_filter_pred(|c: ConcernView| c.issue != issue, i);
        }
    } else {
        assert forall|i: int| 0 <= i < t.reviews.len() implies (#[trigger] t.reviews[i]).issue
            != issue by {
            if t.reviews[i].issue == issue {
                assert(has_proposal(s, issue));
            }
        }
        assert forall|i: int| 0 <= i < t.concerns.len() implies (#[trigger] t.concerns[i]).issue
            != issue by {
            if t.concerns[i].issue == issue {
                assert(has_proposal(s, issue));
            }
        }
    }
}

/// Recording a review preserves the store invariant.
pub proof fn lemma_reviewed_preserves_inv(s: StoreView, issue: u64, reviewer: u64, comment: u64)
    requires
        store_inv(s),
    ensures
        store_inv(reviewed_spec(s, issue, reviewer, comment)),
{
    let t = reviewed_spec(s, issue, reviewer, comment);
    if has_proposal(s, issue) {
        assert forall|i: int| 0 <= i < t.reviews.len() implies (#[trigger] t.reviews[i]).issue
            == s.reviews[i].issue && t.reviews[i].reviewer == s.reviews[i].reviewer by {}
    }
}

/// Raising a concern preserves the store invariant.
pub proof fn lemma_new_concern_preserves_inv(s: StoreView, issue: u64, author: u64, name: Seq<char>)
    requires
        store_inv(s),
    ensures
        store_inv(new_concern_spec(s, issue, author, name)),
{
    let t = new_concern_spec(s, issue, author, name);
    if has_proposal(s, issue) && !has_concern(s, issue, name) {
        let nc = s.concerns.len() as int;
        assert forall|i: int, j: int| 0 <= i < j < t.concerns.len() implies !((#[trigger] t.concerns[i]).issue
            == (#[trigger] t.concerns[j]).issue && t.concerns[i].name == t.concerns[j].name) by {
            if j == nc {
                if s.concerns[i].issue == issue && s.concerns[i].name == name {
                    assert(0 <= i < s.concerns.len() && s.concerns[i].issue == issue
                        && s.concerns[i].name == name);
                }
            }
        }
        assert forall|i: int| 0 <= i < t.concerns.len() implies has_proposal(
            t,
            (#[trigger] t.concerns[i]).issue,
        ) by {
            if i < nc {
                assert(has_proposal(s, s.concerns[i].issue));
            }
        }
    }
}

/// Resolving a concern preserves the store invariant.
pub proof fn lemma_resolve_concern_preserves_inv(
    s: StoreView,
    issue: u64,
    author: u64,
    name: Seq<char>,
    comment: u64,
)
    requires
        store_inv(s),
    ensures
        store_inv(resolve_concern_spec(s, issue, author, name, comment)),
{
    let t = resolve_concern_spec(s, issue, author, name, comment);
    if has_proposal(s, issue) {
        assert forall|i: int| 0 <= i < t.concerns.len() implies (#[trigger] t.concerns[i]).issue
            == s.concerns[i].issue && t.concerns[i].name == s.concerns[i].name by {}
    }
}

/// Opening a feedback request preserves the store invariant.
pub proof fn lemma_feedback_request_preserves_inv(
    s: StoreView,
    issue: u64,
    author: u64,
    requested: u64,
)
    requires
        store_inv(s),
    ensures
        store_inv(feedback_request_spec(s, issue, author, requested)),
{
    let t = feedback_request_spec(s, issue, author, requested);
    if !has_feedback(s, issue, requested) {
        let nf = s.feedbacks.len() as int;
        assert forall|i: int, j: int| 0 <= i < j < t.feedbacks.len() implies !((#[trigger] t.feedbacks[i]).issue
            == (#[trigger] t.feedbacks[j]).issue && t.feedbacks[i].requested
            == t.feedbacks[j].requested) by {
            if j == nf {
                if s.feedbacks[i].issue == issue && s.feedbacks[i].requested == requested {
                    assert(0 <= i < s.feedbacks.len() && s.feedbacks[i].issue == issue
                        && s.feedbacks[i].requested == requested);
                }
            }
        }
    }
}

/// Fulfilling a feedback request preserves the store invariant.
pub proof fn lemma_fulfill_feedback_preserves_inv(
    s: StoreView,
    issue: u64,
    requested: u64,
    comment: u64,
)
    requires
        store_inv(s),
    ensures
        store_inv(fulfill_feedback_spec(s, issue, requested, comment)),
{
    let t = fulfill_feedback_spec(s, issue, requested, comment);
    assert forall|i: int| 0 <= i < t.feedbacks.len() implies (#[trigger] t.feedbacks[i]).issue
        == s.feedbacks[i].issue && t.feedbacks[i].requested == s.feedbacks[i].requested by {}
}

/// A resolve issued by a user who initiated no concern of that name on the
/// issue changes nothing.
pub proof fn lemma_resolve_concern_foreign_noop(
    s: StoreView,
    issue: u64,
    author: u64,
    name: Seq<char>,
    comment: u64,
)
    requires
        forall|i: int|
            0 <= i < s.concerns.len() ==> (((#[trigger] s.concerns[i]).issue == issue
                && s.concerns[i].name == name) ==> s.concerns[i].initiator != author),
    ensures
        resolve_concern_spec(s, issue, author, name, comment) == s,
{
    let t = resolve_concern_spec(s, issue, author, name, comment);
    assert(t.concerns =~= s.concerns);
    assert(t =~= s);
}

/// A resolve by the concern's initiator marks that concern resolved with
/// the resolving comment.
pub proof fn lemma_resolve_concern_sets(
    s: StoreView,
    issue: u64,
    author: u64,
    name: Seq<char>,
    comment: u64,
    i: int,
)
    requires
        has_proposal(s, issue),
        0 <= i < s.concerns.len(),
        s.concerns[i].issue == issue,
        s.concerns[i].name == name,
        s.concerns[i].initiator == author,
    ensures
        resolve_concern_spec(s, issue, author, name, comment).concerns[i].resolved_comment
            == Some(comment),
{
}

/// Resolving the same concern twice is the same as resolving it once.
pub proof fn lemma_resolve_concern_idempotent(
    s: StoreView,
    issue: u64,
    author: u64,
    name: Seq<char>,
    comment: u64,
)
    ensures
        resolve_concern_spec(
            resolve_concern_spec(s, issue, author, name, comment),
            issue,
            author,
            name,
            comment,
        ) == resolve_concern_spec(s, issue, author, name, comment),
{
    let t1 = resolve_concern_spec(s, issue, author, name, comment);
    let t2 = resolve_concern_spec(t1, issue, author, name, comment);
    assert(t2.concerns =~= t1.concerns);
    assert(t2 =~= t1);
}

impl ProposalStore {
    /// An empty store.
    pub fn new() -> (s: Self)
        ensures
            s@.proposals.len() == 0,
            s@.reviews.len() == 0,
            s@.concerns.len() == 0,
            s@.feedbacks.len() == 0,
            store_inv(s@),
    {
        let s = ProposalStore {
            proposals: Vec::new(),
            reviews: Vec::new(),
            concerns: Vec::new(),
            feedbacks: Vec::new(),
        };
        proof {
            assert(s@.concerns =~= Seq::<ConcernView>::empty());
        }
        s
    }

    /// The issue's active proposal, if any.
    pub fn find_active_proposal(&self, issue: u64) -> (r: Option<Proposal>)
        ensures
            (r is Some) == has_proposal(self@, issue),
            match r {
                Some(p) => p.issue == issue && self@.proposals.contains(p),
                None => true,
            },
    {
        let n = self.proposals.len();
        let mut i: usize = 0;
        loop
            invariant
                i <= n,
                n == self@.proposals.len(),
                forall|j: int| 0 <= j < i ==> (#[trigger] self@.proposals[j]).issue != issue,
            decreases n - i,
        {
            if i == n {
                return None;
            }
            let p = self.proposals[i];
            if p.issue == issue {
                proof {
                    assert(self@.proposals[i as int] == p);
                }
                return Some(p);
            }
            i = i + 1;
        }
    }

    /// Open a proposal for the issue and a review request for each given
    /// member, unless a proposal is already active.
    pub fn create_proposal(
        &mut self,
        issue: u64,
        author: u64,
        comment: u64,
        disposition: FcpDisposition,
        member_ids: &Vec<u64>,
    )
        ensures
            final(self)@ == propose_spec(
                old(self)@,
                issue,
                author,
                comment,
                disposition,
                member_ids@,
            ),
    {
        if self.find_active_proposal(issue).is_some() {
            return ;
        }
        self.proposals.push(
            Proposal {
                issue: issue,
                initiator: author,
                initiating_comment: comment,
                disposition: disposition,
            },
        );
        let n = member_ids.len();
        let mut k: usize = 0;
        while k < n
            invariant
                k <= n,
                n == member_ids@.len(),
                self.proposals@ == old(self).proposals@.push(
                    Proposal {
                        issue: issue,
                        initiator: author,
                        initiating_comment: comment,
                        disposition: disposition,
                    },
                ),
                self.reviews@ == old(self).reviews@ + new_reviews(issue, member_ids@.take(k as int)),
                self.concerns == old(self).concerns,
                self.feedbacks == old(self).feedbacks,
            decreases n - k,
        {
            let m = member_ids[k];
            self.reviews.push(ReviewRequest { issue: issue, reviewer: m, reviewed_comment: None });
            proof {
                assert(member_ids@.take(k + 1) =~= member_ids@.take(k as int).push(m));
                assert(new_reviews(issue, member_ids@.take(k + 1)) =~= new_reviews(
                    issue,
                    member_ids@.take(k as int),
                ).push(ReviewRequest { issue: issue, reviewer: m, reviewed_comment: None }));
            }
            k = k + 1;
        }
        proof {
            assert(member_ids@.take(n as int) =~= member_ids@);
            assert(final(self)@ =~= propose_spec(
                old(self)@,
                issue,
                author,
                comment,
                disposition,
                member_ids@,
            ));
        }
    }

    /// Cancel the issue's active proposal, deleting its review requests and
    /// concerns with it; a no-op when none is active.
    pub fn cancel_proposal(&mut self, issue: u64)
        ensures
            final(self)@ == cancel_spec(old(self)@, issue),
    {
        if self.find_active_proposal(issue).is_none() {
            return ;
        }
        let mut kept_proposals: Vec<Proposal> = Vec::new();
        let np = self.proposals.len();
        let mut i: usize = 0;
        while i < np
            invariant
                i <= np,
                np == self.proposals@.len(),
                kept_proposals@ == self.proposals@.take(i as int).filter(
                    |p: Proposal| p.issue != issue,
                ),
            decreases np - i,
        {
            let p = self.proposals[i];
            proof {
                lemma_filter_take_step(self.proposals@, |p: Proposal| p.issue != issue, i as int);
            }
            if p.issue != issue {
                kept_proposals.push(p);
            }
            i = i + 1;
        }
        let mut kept_reviews: Vec<ReviewRequest> = Vec::new();
        let nr = self.reviews.len();
        let mut i: usize = 0;
        while i < nr
            invariant
                i <= nr,
                nr == self.reviews@.len(),
                kept_reviews@ == self.reviews@.take(i as int).filter(
                    |r: ReviewRequest| r.issue != issue,
                ),
            decreases nr - i,
        {
            let r = self.reviews[i];
            proof {
                lemma_filter_take_step(self.reviews@, |r: ReviewRequest| r.issue != issue, i as int);
            }
            if r.issue != issue {
                kept_reviews.push(r);
            }
            i = i + 1;
        }
        let mut kept_concerns: Vec<Concern> = Vec::new();
        let nc = self.concerns.len();
        let mut i: usize = 0;
        while i < nc
            invariant
                i <= nc,
                nc == self.concerns@.len(),
                kept_concerns@.map_values(|c: Concern| c@) == self.concerns@.map_values(
                    |c: Concern| c@,
                ).take(i as int).filter(|c: ConcernView| c.issue != issue),
            decreases nc - i,
        {
            let c = &self.concerns[i];
            let copy = Concern {
                issue: c.issue,
                initiator: c.initiator,
                name: c.name.clone(),
                resolved_comment: c.resolved_comment,
            };
            proof {
                let cviews = self.concerns@.map_values(|c: Concern| c@);
                lemma_filter_take_step(cviews, |c: ConcernView| c.issue != issue, i as int);
                assert(copy@ == cviews[i as int]);
            }
            if copy.issue != issue {
                kept_concerns.push(copy);
                proof {
                    let cviews = self.concerns@.map_values(|c: Concern| c@);
                    assert(kept_concerns@.map_values(|c: Concern| c@) =~= kept_concerns@.drop_last().map_values(
                        |c: Concern| c@,
                    ).push(copy@));
                    assert(kept_concerns@.drop_last() =~= kept_concerns@.take(
                        kept_concerns@.len() - 1,
                    ));
                }
            }
            i = i + 1;
        }
        proof {
            assert(self.proposals@.take(np as int) =~= self.proposals@);
            assert(self.reviews@.take(nr as int) =~= self.reviews@);
            assert(self.concerns@.map_values(|c: Concern| c@).take(nc as int)
                =~= self.concerns@.map_values(|c: Concern| c@));
        }
        self.proposals = kept_proposals;
        self.reviews = kept_reviews;
        self.concerns = kept_concerns;
        proof {
            assert(final(self)@ =~= cancel_spec(old(self)@, issue));
        }
    }

    /// Record the member's sign-off on the issue's active proposal.
    pub fn mark_reviewed(&mut self, issue: u64, reviewer: u64, comment: u64)
        ensures
            final(self)@ == reviewed_spec(old(self)@, issue, reviewer, comment),
    {
        if self.find_active_proposal(issue).is_none() {
            return ;
        }
        let n = self.reviews.len();
        let mut i: usize = 0;
        while i < n
            invariant
                i <= n,
                n == self.reviews@.len(),
                self.proposals == old(self).proposals,
                self.concerns == old(self).concerns,
                self.feedbacks == old(self).feedbacks,
                forall|j: int|
                    0 <= j < i ==> self.reviews@[j] == reviewed_update(
                        old(self).reviews@[j],
                        issue,
                        reviewer,
                        comment,
                    ),
                forall|j: int| i <= j < n ==> self.reviews@[j] == old(self).reviews@[j],
            decreases n - i,
        {
            let r = self.reviews[i];
            if r.issue == issue && r.reviewer == reviewer {
                self.reviews[i] = ReviewRequest {
                    issue: r.issue,
                    reviewer: r.reviewer,
                    reviewed_comment: Some(comment),
                };
            }
            i = i + 1;
        }
        proof {
            assert(final(self).reviews@ =~= old(self).reviews@.map_values(
                |r: ReviewRequest| reviewed_update(r, issue, reviewer, comment),
            ));
            assert(final(self)@ =~= reviewed_spec(old(self)@, issue, reviewer, comment));
        }
    }

    /// Raise a concern under the issue's active proposal, unless its name is
    /// already taken there.
    pub fn add_concern(&mut self, issue: u64, author: u64, name: String)
        ensures
            final(self)@ == new_concern_spec(old(self)@, issue, author, name@),
    {
        if self.find_active_proposal(issue).is_none() {
            return ;
        }
        let n = self.concerns.len();
        let mut i: usize = 0;
        while i < n
            invariant
                i <= n,
                n == self.concerns@.len(),
                forall|j: int|
                    0 <= j < i ==> !((#[trigger] self@.concerns[j]).issue == issue
                        && self@.concerns[j].name == name@),
            decreases n - i,
        {
            let c = &self.concerns[i];
            if c.issue == issue && crate::text::str_eq(c.name.as_str(), name.as_str()) {
                proof {
                    assert(self@.concerns[i as int].issue == issue && self@.concerns[i as int].name
                        == name@);
                }
                return ;
            }
            i = i + 1;
        }
        self.concerns.push(
            Concern { issue: issue, initiator: author, name: name, resolved_comment: None },
        );
        proof {
            assert(final(self)@.concerns =~= old(self)@.concerns.push(
                ConcernView {
                    issue: issue,
                    initiator: author,
                    name: name@,
                    resolved_comment: None,
                },
            ));
            assert(final(self)@ =~= new_concern_spec(old(self)@, issue, author, name@));
        }
    }

    /// Resolve the named concern, when the author is its initiator.
    pub fn resolve_concern(&mut self, issue: u64, author: u64, name: &str, comment: u64)
        ensures
            final(self)@ == resolve_concern_spec(old(self)@, issue, author, name@, comment),
    {
        if self.find_active_proposal(issue).is_none() {
            return ;
        }
        let n = self.concerns.len();
        let mut i: usize = 0;
        while i < n
            invariant
                i <= n,
                n == self.concerns@.len(),
                self.proposals == old(self).proposals,
                self.reviews == old(self).reviews,
                self.feedbacks == old(self).feedbacks,
                forall|j: int|
                    0 <= j < i ==> (#[trigger] self.concerns@[j])@ == resolved_update(
                        old(self).concerns@[j]@,
                        issue,
                        author,
                        name@,
                        comment,
                    ),
                forall|j: int| i <= j < n ==> (#[trigger] self.concerns@[j]) == old(self).concerns@[j],
            decreases n - i,
        {
            let c = &self.concerns[i];
            let matches_key = c.issue == issue && c.initiator == author && crate::text::str_eq(
                c.name.as_str(),
                name,
            );
            if matches_key {
                let updated = Concern {
                    issue: issue,
                    initiator: author,
                    name: self.concerns[i].name.clone(),
                    resolved_comment: Some(comment),
                };
                proof {
                    assert(updated@ == resolved_update(
                        old(self).concerns@[i as int]@,
                        issue,
                        author,
                        name@,
                        comment,
                    ));
                }
                self.concerns[i] = updated;
            }
            i = i + 1;
        }
        proof {
            assert(final(self)@.concerns =~= old(self)@.concerns.map_values(
                |c: ConcernView| resolved_update(c, issue, author, name@, comment),
            ));
            assert(final(self)@ =~= resolve_concern_spec(old(self)@, issue, author, name@, comment));
        }
    }

    /// Open a feedback request for the user on this issue, unless one exists.
    pub fn create_feedback_request(&mut self, issue: u64, author: u64, requested: u64)
        ensures
            final(self)@ == feedback_request_spec(old(self)@, issue, author, requested),
    {
        let n = self.feedbacks.len();
        let mut i: usize = 0;
        while i < n
            invariant
                i <= n,
                n == self.feedbacks@.len(),
                forall|j: int|
                    0 <= j < i ==> !((#[trigger] self@.feedbacks[j]).issue == issue
                        && self@.feedbacks[j].requested == requested),
            decreases n - i,
        {
            let f = self.feedbacks[i];
            if f.issue == issue && f.requested == requested {
                proof {
                    assert(self@.feedbacks[i as int].issue == issue
                        && self@.feedbacks[i as int].requested == requested);
                }
                return ;
            }
            i = i + 1;
        }
        self.feedbacks.push(
            FeedbackRequest {
                issue: issue,
                initiator: author,
                requested: requested,
                feedback_comment: None,
            },
        );
        proof {
            assert(final(self)@ =~= feedback_request_spec(old(self)@, issue, author, requested));
        }
    }

    /// Fulfil the user's outstanding feedback request on this issue, if any.
    pub fn fulfill_feedback(&mut self, issue: u64, requested: u64, comment: u64)
        ensures
            final(self)@ == fulfill_feedback_spec(old(self)@, issue, requested, comment),
    {
        let n = self.feedbacks.len();
        let mut i: usize = 0;
        while i < n
            invariant
                i <= n,
                n == self.feedbacks@.len(),
                self.proposals == old(self).proposals,
                self.reviews == old(self).reviews,
                self.concerns == old(self).concerns,
                forall|j: int|
                    0 <= j < i ==> self.feedbacks@[j] == feedback_update(
                        old(self).feedbacks@[j],
                        issue,
                        requested,
                        comment,
                    ),
                forall|j: int| i <= j < n ==> self.feedbacks@[j] == old(self).feedbacks@[j],
            decreases n - i,
        {
            let f = self.feedbacks[i];
            if f.issue == issue && f.requested == requested && f.feedback_comment.is_none() {
                self.feedbacks[i] = FeedbackRequest {
                    issue: f.issue,
                    initiator: f.initiator,
                    requested: f.requested,
                    feedback_comment: Some(comment),
                };
            }
            i = i + 1;
        }
        proof {
            assert(final(self).feedbacks@ =~= old(self).feedbacks@.map_values(
                |f: FeedbackRequest| feedback_update(f, issue, requested, comment),
            ));
            assert(final(self)@ =~= fulfill_feedback_spec(old(self)@, issue, requested, comment));
        }
    }
}

} // verus!
