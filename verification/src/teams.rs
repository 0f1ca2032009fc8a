//! The team and behavior configuration: which team labels map to which
//! member logins, which repositories allow auto-close or auto-postpone
//! after a finished FCP, and which reactions are prohibited where. The
//! configuration is built once at startup and read-only afterwards.

use vstd::prelude::*;

use crate::github::GitHubUser;
use crate::text::str_eq;

verus! {

/// A reaction kind on the issue tracker.
#[derive(Clone, Copy, Debug, Eq, PartialEq, Structural)]
pub enum Reaction {
    Unknown,
    Upvote,
    Downvote,
    Laugh,
    Hooray,
    Confused,
    Heart,
}

/// Which reaction kinds are prohibited on one surface.
#[derive(Clone, Copy, Debug, Eq, PartialEq, Structural)]
pub struct ProhibitedReactions {
    pub up_vote: bool,
    pub down_vote: bool,
    pub laugh: bool,
    pub hooray: bool,
    pub confused: bool,
    pub heart: bool,
}

pub open spec fn reaction_prohibited(p: ProhibitedReactions, reaction: Reaction) -> bool {
    match reaction {
        Reaction::Unknown => false,
        Reaction::Upvote => p.up_vote,
        Reaction::Downvote => p.down_vote,
        Reaction::Laugh => p.laugh,
        Reaction::Hooray => p.hooray,
        Reaction::Confused => p.confused,
        Reaction::Heart => p.heart,
    }
}

impl ProhibitedReactions {
    pub fn is_reaction_prohibited(&self, reaction: Reaction) -> (r: bool)
        ensures
            r == reaction_prohibited(*self, reaction),
    {
        match reaction {
            Reaction::Unknown => false,
            Reaction::Upvote => self.up_vote,
            Reaction::Downvote => self.down_vote,
            Reaction::Laugh => self.laugh,
            Reaction::Hooray => self.hooray,
            Reaction::Confused => self.confused,
            Reaction::Heart => self.heart,
        }
    }
}

/// Prohibited reactions for a repository, separately for issues and for
/// comments on them.
#[derive(Clone, Copy, Debug, Eq, PartialEq, Structural)]
pub struct ReactionBehaviorConfig {
    pub issue: ProhibitedReactions,
    pub comment: ProhibitedReactions,
}

/// What a finished FCP may do automatically in a repository.
#[derive(Clone, Copy, Debug, Eq, PartialEq, Structural)]
pub struct FcpBehavior {
    pub close: bool,
    pub postpone: bool,
}

/// A team: the logins of its members.
#[derive(Debug, Eq, PartialEq)]
pub struct Team {
    pub members: Vec<String>,
}

impl Team {
    /// The member logins, in configuration order.
    pub fn member_logins(&self) -> (r: &Vec<String>)
        ensures
            r == &self.members,
    {
        &self.members
    }

    /// Does every member login resolve to a known user?
    pub fn validate(&self, users: &Vec<GitHubUser>) -> (r: bool)
        ensures
            r == forall|i: int|
                0 <= i < self.members@.len() ==> crate::github::find_user_by_login_spec(
                    users@,
                    (#[trigger] self.members@[i])@,
                ) is Some,
    {
        let n = self.members.len();
        let mut i: usize = 0;
        loop
            invariant
                i <= n,
                n == self.members@.len(),
                forall|j: int|
                    0 <= j < i ==> crate::github::find_user_by_login_spec(
                        users@,
                        (#[trigger] self.members@[j])@,
                    ) is Some,
            decreases n - i,
        {
            if i == n {
                return true;
            }
            if crate::github::find_user_by_login(users, self.members[i].as_str()).is_none() {
                return false;
            }
            i = i + 1;
        }
    }
}

/// A team's label, as it appears on issues.
#[derive(Debug, Eq, Hash, PartialEq)]
pub struct TeamLabel(pub String);

impl Clone for TeamLabel {
    fn clone(&self) -> (r: Self)
        ensures
            r == *self,
    {
        TeamLabel(self.0.clone())
    }
}

/// First behavior entry for this repository, if any.
pub open spec fn fcp_behavior_of(
    m: Seq<(String, FcpBehavior)>,
    repo: Seq<char>,
) -> Option<FcpBehavior>
    decreases m.len(),
{
    if m.len() == 0 {
        None
    } else if m[0].0@ == repo {
        Some(m[0].1)
    } else {
        fcp_behavior_of(m.drop_first(), repo)
    }
}

/// First reaction-behavior entry for this repository, if any.
pub open spec fn reaction_behavior_of(
    m: Seq<(String, ReactionBehaviorConfig)>,
    repo: Seq<char>,
) -> Option<ReactionBehaviorConfig>
    decreases m.len(),
{
    if m.len() == 0 {
        None
    } else if m[0].0@ == repo {
        Some(m[0].1)
    } else {
        reaction_behavior_of(m.drop_first(), repo)
    }
}

pub open spec fn has_fcp_behavior(m: Seq<(String, FcpBehavior)>, repo: Seq<char>) -> bool {
    exists|i: int| 0 <= i < m.len() && (#[trigger] m[i]).0@ == repo
}

pub open spec fn has_reaction_behavior(
    m: Seq<(String, ReactionBehaviorConfig)>,
    repo: Seq<char>,
) -> bool {
    exists|i: int| 0 <= i < m.len() && (#[trigger] m[i]).0@ == repo
}

pub open spec fn has_team_label(m: Seq<(TeamLabel, Team)>, label: Seq<char>) -> bool {
    exists|i: int| 0 <= i < m.len() && (#[trigger] m[i]).0.0@ == label
}

/// The whole configuration: per-repository reaction rules and FCP
/// behaviors, and the team directory. Entries are keyed uniquely; lookups
/// take the first match.
pub struct RfcbotConfig {
    pub prohibited_reactions: Vec<(String, ReactionBehaviorConfig)>,
    pub fcp_behaviors: Vec<(String, FcpBehavior)>,
    pub teams: Vec<(TeamLabel, Team)>,
}

impl RfcbotConfig {
    /// An empty configuration: every flag defaults to false, no teams.
    pub fn new() -> (r: Self)
        ensures
            r.prohibited_reactions@.len() == 0,
            r.fcp_behaviors@.len() == 0,
            r.teams@.len() == 0,
    {
        RfcbotConfig { prohibited_reactions: Vec::new(), fcp_behaviors: Vec::new(), teams: Vec::new() }
    }

    /// Add the reaction rules of one repository, not seen before.
    pub fn add_reaction_behavior(&mut self, repo: String, behavior: ReactionBehaviorConfig)
        requires
            !has_reaction_behavior(old(self).prohibited_reactions@, repo@),
        ensures
            final(self).prohibited_reactions@ == old(self).prohibited_reactions@.push(
                (repo, behavior),
            ),
            final(self).fcp_behaviors == old(self).fcp_behaviors,
            final(self).teams == old(self).teams,
    {
        self.prohibited_reactions.push((repo, behavior));
    }

    /// Add the FCP behavior of one repository, not seen before.
    pub fn add_fcp_behavior(&mut self, repo: String, behavior: FcpBehavior)
        requires
            !has_fcp_behavior(old(self).fcp_behaviors@, repo@),
        ensures
            final(self).fcp_behaviors@ == old(self).fcp_behaviors@.push((repo, behavior)),
            final(self).prohibited_reactions == old(self).prohibited_reactions,
            final(self).teams == old(self).teams,
    {
        self.fcp_behaviors.push((repo, behavior));
    }

    /// Add one team under a label not seen before.
    pub fn add_team(&mut self, label: TeamLabel, team: Team)
        requires
            !has_team_label(old(self).teams@, label.0@),
        ensures
            final(self).teams@ == old(self).teams@.push((label, team)),
            final(self).prohibited_reactions == old(self).prohibited_reactions,
            final(self).fcp_behaviors == old(self).fcp_behaviors,
    {
        self.teams.push((label, team));
    }

    /// All team labels, in configuration order.
    pub fn team_labels(&self) -> (r: Vec<TeamLabel>)
        ensures
            r@.len() == self.teams@.len(),
            forall|i: int| 0 <= i < r@.len() ==> r@[i] == (#[trigger] self.teams@[i]).0,
    {
        let n = self.teams.len();
        let mut r: Vec<TeamLabel> = Vec::new();
        let mut i: usize = 0;
        while i < n
            invariant
                i <= n,
                n == self.teams@.len(),
                r@.len() == i,
                forall|j: int| 0 <= j < i ==> r@[j] == (#[trigger] self.teams@[j]).0,
            decreases n - i,
        {
            r.push(self.teams[i].0.clone());
            i = i + 1;
        }
        r
    }

    /// All (team label, team) pairs, in configuration order.
    pub fn teams(&self) -> (r: &Vec<(TeamLabel, Team)>)
        ensures
            r == &self.teams,
    {
        &self.teams
    }

    /// May a finished FCP auto-close issues in this repository?
    /// Unknown repositories default to no.
    pub fn should_ffcp_auto_close(&self, repo: &str) -> (r: bool)
        ensures
            r == match fcp_behavior_of(self.fcp_behaviors@, repo@) {
                Some(b) => b.close,
                None => false,
            },
    {
        match self.find_fcp_behavior(repo) {
            Some(b) => b.close,
            None => false,
        }
    }

    /// May a finished FCP auto-postpone issues in this repository?
    /// Unknown repositories default to no.
    pub fn should_ffcp_auto_postpone(&self, repo: &str) -> (r: bool)
        ensures
            r == match fcp_behavior_of(self.fcp_behaviors@, repo@) {
                Some(b) => b.postpone,
                None => false,
            },
    {
        match self.find_fcp_behavior(repo) {
            Some(b) => b.postpone,
            None => false,
        }
    }

    /// Is the reaction prohibited on issues of this repository?
    /// Unknown repositories prohibit nothing.
    pub fn is_issue_reaction_probihited(&self, repo: &str, reaction: Reaction) -> (r: bool)
        ensures
            r == match reaction_behavior_of(self.prohibited_reactions@, repo@) {
                Some(rb) => reaction_prohibited(rb.issue, reaction),
                None => false,
            },
    {
        match self.find_reaction_behavior(repo) {
            Some(rb) => rb.issue.is_reaction_prohibited(reaction),
            None => false,
        }
    }

    /// Is the reaction prohibited on comments in this repository?
    /// Unknown repositories prohibit nothing.
    pub fn is_comment_reaction_probihited(&self, repo: &str, reaction: Reaction) -> (r: bool)
        ensures
            r == match reaction_behavior_of(self.prohibited_reactions@, repo@) {
                Some(rb) => reaction_prohibited(rb.comment, reaction),
                None => false,
            },
    {
        match self.find_reaction_behavior(repo) {
            Some(rb) => rb.comment.is_reaction_prohibited(reaction),
            None => false,
        }
    }

    /// Does every member of every team resolve to a known user?
    pub fn validate(&self, users: &Vec<GitHubUser>) -> (r: bool)
        ensures
            r == forall|t: int|
                0 <= t < self.teams@.len() ==> forall|i: int|
                    0 <= i < (#[trigger] self.teams@[t]).1.members@.len()
                        ==> crate::github::find_user_by_login_spec(
                        users@,
                        (#[trigger] self.teams@[t].1.members@[i])@,
                    ) is Some,
    {
        let n = self.teams.len();
        let mut t: usize = 0;
        loop
            invariant
                t <= n,
                n == self.teams@.len(),
                forall|u: int|
                    0 <= u < t ==> forall|i: int|
                        0 <= i < (#[trigger] self.teams@[u]).1.members@.len()
                            ==> crate::github::find_user_by_login_spec(
                            users@,
                            (#[trigger] self.teams@[u].1.members@[i])@,
                        ) is Some,
            decreases n - t,
        {
            if t == n {
                return true;
            }
            if !self.teams[t].1.validate(users) {
                return false;
            }
            t = t + 1;
        }
    }

    fn find_fcp_behavior(&self, repo: &str) -> (r: Option<FcpBehavior>)
        ensures
            r == fcp_behavior_of(self.fcp_behaviors@, repo@),
    {
        let n = self.fcp_behaviors.len();
        let mut i: usize = 0;
        proof {
            assert(self.fcp_behaviors@.skip(0) =~= self.fcp_behaviors@);
        }
        loop
            invariant
                i <= n,
                n == self.fcp_behaviors@.len(),
                fcp_behavior_of(self.fcp_behaviors@, repo@) == fcp_behavior_of(
                    self.fcp_behaviors@.skip(i as int),
                    repo@,
                ),
            decreases n - i,
        {
            if i == n {
                return None;
            }
            proof {
                assert(self.fcp_behaviors@.skip(i as int)[0] == self.fcp_behaviors@[i as int]);
                assert(self.fcp_behaviors@.skip(i as int).drop_first() =~= self.fcp_behaviors@.skip(
                    i + 1,
                ));
            }
            let entry = &self.fcp_behaviors[i];
            if str_eq(entry.0.as_str(), repo) {
                return Some(entry.1);
            }
            i = i + 1;
        }
    }

    fn find_reaction_behavior(&self, repo: &str) -> (r: Option<ReactionBehaviorConfig>)
        ensures
            r == reaction_behavior_of(self.prohibited_reactions@, repo@),
    {
        let n = self.prohibited_reactions.len();
        let mut i: usize = 0;
        proof {
            assert(self.prohibited_reactions@.skip(0) =~= self.prohibited_reactions@);
        }
        loop
            invariant
                i <= n,
                n == self.prohibited_reactions@.len(),
                reaction_behavior_of(self.prohibited_reactions@, repo@) == reaction_behavior_of(
                    self.prohibited_reactions@.skip(i as int),
                    repo@,
                ),
            decreases n - i,
        {
            if i == n {
                return None;
            }
            proof {
                assert(self.prohibited_reactions@.skip(i as int)[0] == self.prohibited_reactions@[i as int]);
                assert(self.prohibited_reactions@.skip(i as int).drop_first()
                    =~= self.prohibited_reactions@.skip(i + 1));
            }
            let entry = &self.prohibited_reactions[i];
            if str_eq(entry.0.as_str(), repo) {
                return Some(entry.1);
            }
            i = i + 1;
        }
    }
}

} // verus!
