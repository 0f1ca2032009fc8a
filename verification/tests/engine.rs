use rfcbot::command::FcpDisposition;
use rfcbot::github::{GitHubUser, Issue, IssueComment};
use rfcbot::nag::{evaluate_nags, update_nags, NagError, NagSignal};
use rfcbot::store::ProposalStore;
use rfcbot::teams::{RfcbotConfig, Team, TeamLabel};

fn user(id: u64, login: &str) -> GitHubUser {
    GitHubUser { id, login: login.to_string() }
}

fn issue(id: u64, repository: &str, labels: &[&str]) -> Issue {
    Issue {
        id,
        repository: repository.to_string(),
        labels: labels.iter().map(|l| l.to_string()).collect(),
    }
}

fn comment(id: u64, fk_issue: u64, fk_user: u64, body: &str, created_at: u64) -> IssueComment {
    IssueComment { id, fk_issue, fk_user, body: body.to_string(), created_at }
}

fn team(members: &[&str]) -> Team {
    Team { members: members.iter().map(|m| m.to_string()).collect() }
}

/// Two avengers, one outsider, one issue labelled for the avengers.
fn fixture() -> (Vec<GitHubUser>, Vec<Issue>, RfcbotConfig) {
    let users = vec![user(1, "hulk"), user(2, "thor"), user(3, "bob")];
    let issues = vec![issue(10, "marvel/avengers-mansion", &["avengers", "bug"])];
    let mut cfg = RfcbotConfig::new();
    cfg.add_team(TeamLabel("avengers".to_string()), team(&["hulk", "thor"]));
    (users, issues, cfg)
}

#[test]
fn propose_creates_proposal_and_review_requests() {
    let (users, issues, cfg) = fixture();
    let mut store = ProposalStore::new();
    let batch = vec![comment(100, 10, 1, "@rfcbot fcp merge", 1)];
    let signals = update_nags(batch, &users, &issues, &cfg, &mut store).unwrap();

    assert_eq!(store.proposals.len(), 1);
    assert_eq!(store.proposals[0].issue, 10);
    assert_eq!(store.proposals[0].initiator, 1);
    assert_eq!(store.proposals[0].initiating_comment, 100);
    assert_eq!(store.proposals[0].disposition, FcpDisposition::Merge);
    // One review request per team member on the issue, none reviewed yet.
    assert_eq!(store.reviews.len(), 2);
    assert!(store.reviews.iter().all(|r| r.issue == 10 && r.reviewed_comment.is_none()));
    assert!(store.reviews.iter().any(|r| r.reviewer == 1));
    assert!(store.reviews.iter().any(|r| r.reviewer == 2));
    // Reviews still open, so nothing is ready.
    assert_eq!(signals, vec![]);
}

#[test]
fn second_proposal_on_same_issue_is_a_no_op() {
    let (users, issues, cfg) = fixture();
    let mut store = ProposalStore::new();
    let batch = vec![
        comment(100, 10, 1, "@rfcbot fcp merge", 1),
        comment(101, 10, 2, "@rfcbot fcp close", 2),
    ];
    update_nags(batch, &users, &issues, &cfg, &mut store).unwrap();
    assert_eq!(store.proposals.len(), 1);
    assert_eq!(store.proposals[0].disposition, FcpDisposition::Merge);
    assert_eq!(store.reviews.len(), 2);
}

#[test]
fn cancel_cascades_to_reviews_and_concerns_but_not_feedback() {
    let (users, issues, cfg) = fixture();
    let mut store = ProposalStore::new();
    let batch = vec![
        comment(100, 10, 1, "@rfcbot fcp merge", 1),
        comment(101, 10, 2, "@rfcbot concern naming", 2),
        comment(102, 10, 1, "@rfcbot f? @bob", 3),
        comment(103, 10, 1, "@rfcbot fcp cancel", 4),
    ];
    update_nags(batch, &users, &issues, &cfg, &mut store).unwrap();
    assert_eq!(store.proposals.len(), 0);
    assert_eq!(store.reviews.len(), 0);
    assert_eq!(store.concerns.len(), 0);
    // The feedback request survives the cancellation.
    assert_eq!(store.feedbacks.len(), 1);
    assert_eq!(store.feedbacks[0].issue, 10);
    assert_eq!(store.feedbacks[0].requested, 3);
    assert!(store.feedbacks[0].feedback_comment.is_none());
}

#[test]
fn cancel_without_proposal_is_a_no_op() {
    let (users, issues, cfg) = fixture();
    let mut store = ProposalStore::new();
    let batch = vec![comment(100, 10, 1, "@rfcbot fcp cancel", 1)];
    let signals = update_nags(batch, &users, &issues, &cfg, &mut store).unwrap();
    assert_eq!(store.proposals.len(), 0);
    assert_eq!(signals, vec![]);
}

#[test]
fn only_the_initiator_may_resolve_a_concern() {
    let (users, issues, cfg) = fixture();
    let mut store = ProposalStore::new();
    let batch = vec![
        comment(100, 10, 1, "@rfcbot fcp merge", 1),
        comment(101, 10, 2, "@rfcbot concern naming", 2),
        // hulk is not the initiator: this resolve is a no-op.
        comment(102, 10, 1, "@rfcbot resolved naming", 3),
    ];
    update_nags(batch, &users, &issues, &cfg, &mut store).unwrap();
    assert_eq!(store.concerns.len(), 1);
    assert_eq!(store.concerns[0].initiator, 2);
    assert!(store.concerns[0].resolved_comment.is_none());

    // The initiator resolves it; resolving again changes nothing more.
    let batch = vec![
        comment(103, 10, 2, "@rfcbot resolved naming", 4),
        comment(104, 10, 2, "@rfcbot resolved naming", 5),
    ];
    update_nags(batch, &users, &issues, &cfg, &mut store).unwrap();
    assert_eq!(store.concerns.len(), 1);
    assert_eq!(store.concerns[0].resolved_comment, Some(104));
}

#[test]
fn duplicate_concern_names_are_not_created_twice() {
    let (users, issues, cfg) = fixture();
    let mut store = ProposalStore::new();
    let batch = vec![
        comment(100, 10, 1, "@rfcbot fcp merge", 1),
        comment(101, 10, 2, "@rfcbot concern naming", 2),
        comment(102, 10, 1, "@rfcbot concern naming", 3),
    ];
    update_nags(batch, &users, &issues, &cfg, &mut store).unwrap();
    assert_eq!(store.concerns.len(), 1);
    assert_eq!(store.concerns[0].initiator, 2);
}

#[test]
fn unauthorized_commands_are_silently_dropped() {
    let (users, issues, cfg) = fixture();
    let mut store = ProposalStore::new();
    // bob is no team member: his command changes nothing and is no error.
    let batch = vec![comment(100, 10, 3, "@rfcbot fcp merge", 1)];
    let signals = update_nags(batch, &users, &issues, &cfg, &mut store).unwrap();
    assert_eq!(store.proposals.len(), 0);
    assert_eq!(signals, vec![]);
}

#[test]
fn feedback_request_is_fulfilled_by_first_following_comment() {
    let (users, issues, cfg) = fixture();
    let mut store = ProposalStore::new();
    let batch = vec![
        comment(100, 10, 1, "@rfcbot f? @bob", 1),
        // Any non-command comment by bob fulfils it, membership or not.
        comment(101, 10, 3, "here is my feedback", 2),
        // A later comment does not overwrite the first fulfilment.
        comment(102, 10, 3, "more thoughts", 3),
    ];
    update_nags(batch, &users, &issues, &cfg, &mut store).unwrap();
    assert_eq!(store.feedbacks.len(), 1);
    assert_eq!(store.feedbacks[0].initiator, 1);
    assert_eq!(store.feedbacks[0].requested, 3);
    assert_eq!(store.feedbacks[0].feedback_comment, Some(101));
}

#[test]
fn duplicate_feedback_requests_are_not_created() {
    let (users, issues, cfg) = fixture();
    let mut store = ProposalStore::new();
    let batch = vec![
        comment(100, 10, 1, "@rfcbot f? @bob", 1),
        comment(101, 10, 2, "@rfcbot f? @bob", 2),
    ];
    update_nags(batch, &users, &issues, &cfg, &mut store).unwrap();
    assert_eq!(store.feedbacks.len(), 1);
    assert_eq!(store.feedbacks[0].initiator, 1);
}

#[test]
fn feedback_request_for_unknown_login_is_fatal() {
    let (users, issues, cfg) = fixture();
    let mut store = ProposalStore::new();
    let batch = vec![comment(100, 10, 1, "@rfcbot f? @ghost", 1)];
    let r = update_nags(batch, &users, &issues, &cfg, &mut store);
    assert_eq!(r, Err(NagError::NotFound));
    assert_eq!(store.feedbacks.len(), 0);
}

#[test]
fn unknown_issue_or_author_is_fatal_but_keeps_earlier_work() {
    let (users, issues, cfg) = fixture();
    let mut store = ProposalStore::new();
    let batch = vec![
        comment(100, 10, 1, "@rfcbot fcp merge", 1),
        comment(101, 99, 1, "@rfcbot reviewed", 2),
    ];
    let r = update_nags(batch, &users, &issues, &cfg, &mut store);
    assert_eq!(r, Err(NagError::NotFound));
    // The first comment's work stays committed.
    assert_eq!(store.proposals.len(), 1);
}

#[test]
fn comments_are_processed_in_creation_order() {
    let (users, issues, cfg) = fixture();
    let mut store = ProposalStore::new();
    // Delivered out of order: the resolve comes first in the vector but
    // later in time, so it must still see the concern.
    let batch = vec![
        comment(103, 10, 2, "@rfcbot resolved naming", 4),
        comment(102, 10, 2, "@rfcbot concern naming", 3),
        comment(100, 10, 1, "@rfcbot fcp merge", 1),
    ];
    update_nags(batch, &users, &issues, &cfg, &mut store).unwrap();
    assert_eq!(store.proposals.len(), 1);
    assert_eq!(store.concerns.len(), 1);
    assert_eq!(store.concerns[0].resolved_comment, Some(103));
}

#[test]
fn end_to_end_all_reviews_in_no_concerns_means_ready() {
    let (users, issues, cfg) = fixture();
    let mut store = ProposalStore::new();
    let batch = vec![comment(100, 10, 1, "@rfcbot fcp merge", 1)];
    let signals = update_nags(batch, &users, &issues, &cfg, &mut store).unwrap();
    assert_eq!(signals, vec![]);

    let batch = vec![
        comment(101, 10, 1, "@rfcbot reviewed", 2),
        comment(102, 10, 2, "@rfcbot: reviewed", 3),
    ];
    let signals = update_nags(batch, &users, &issues, &cfg, &mut store).unwrap();
    assert_eq!(store.reviews.len(), 2);
    assert!(store.reviews.iter().all(|r| r.reviewed_comment.is_some()));
    assert_eq!(signals, vec![NagSignal { issue: 10, disposition: FcpDisposition::Merge }]);
}

#[test]
fn an_open_concern_removes_readiness() {
    let (users, issues, cfg) = fixture();
    let mut store = ProposalStore::new();
    let batch = vec![
        comment(100, 10, 1, "@rfcbot fcp merge", 1),
        comment(101, 10, 1, "@rfcbot reviewed", 2),
        comment(102, 10, 2, "@rfcbot reviewed", 3),
    ];
    let signals = update_nags(batch, &users, &issues, &cfg, &mut store).unwrap();
    assert_eq!(signals.len(), 1);

    // One fresh, unresolved concern on the otherwise-ready proposal.
    let batch = vec![comment(103, 10, 2, "@rfcbot concern wording", 4)];
    let signals = update_nags(batch, &users, &issues, &cfg, &mut store).unwrap();
    assert_eq!(signals, vec![]);
    assert_eq!(evaluate_nags(&store), vec![]);

    // Resolving it restores readiness.
    let batch = vec![comment(104, 10, 2, "@rfcbot resolved wording", 5)];
    let signals = update_nags(batch, &users, &issues, &cfg, &mut store).unwrap();
    assert_eq!(signals, vec![NagSignal { issue: 10, disposition: FcpDisposition::Merge }]);
}

#[test]
fn reviewed_without_proposal_or_request_is_a_no_op() {
    let (users, issues, cfg) = fixture();
    let mut store = ProposalStore::new();
    let batch = vec![comment(100, 10, 1, "@rfcbot reviewed", 1)];
    update_nags(batch, &users, &issues, &cfg, &mut store).unwrap();
    assert_eq!(store.reviews.len(), 0);
    assert_eq!(store.proposals.len(), 0);
}
