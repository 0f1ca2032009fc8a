use rfcbot::github::GitHubUser;
use rfcbot::teams::{
    FcpBehavior, ProhibitedReactions, Reaction, ReactionBehaviorConfig, RfcbotConfig, Team,
    TeamLabel,
};

fn no_reactions() -> ProhibitedReactions {
    ProhibitedReactions {
        up_vote: false,
        down_vote: false,
        laugh: false,
        hooray: false,
        confused: false,
        heart: false,
    }
}

fn team_of(members: &[&str]) -> Team {
    Team { members: members.iter().map(|m| m.to_string()).collect() }
}

/// A configuration with reaction rules, per-repository FCP flags and two teams.
fn setup() -> RfcbotConfig {
    let mut cfg = RfcbotConfig::new();

    cfg.add_reaction_behavior(
        "foo-org/bar".to_string(),
        ReactionBehaviorConfig {
            issue: ProhibitedReactions { down_vote: true, confused: true, ..no_reactions() },
            comment: ProhibitedReactions { down_vote: true, ..no_reactions() },
        },
    );

    cfg.add_fcp_behavior("rust-lang/alpha".to_string(), FcpBehavior { close: true, postpone: true });
    cfg.add_fcp_behavior("foobar/beta".to_string(), FcpBehavior { close: false, postpone: false });
    cfg.add_fcp_behavior("bazquux/gamma".to_string(), FcpBehavior { close: false, postpone: false });
    cfg.add_fcp_behavior("wibble/epsilon".to_string(), FcpBehavior { close: false, postpone: false });

    cfg.add_team(
        TeamLabel("avengers".to_string()),
        team_of(&["hulk", "thor", "thevision", "blackwidow", "spiderman", "captainamerica"]),
    );
    cfg.add_team(
        TeamLabel("justice-league".to_string()),
        team_of(&["superman", "wonderwoman", "aquaman", "batman", "theflash"]),
    );

    cfg
}

#[test]
fn setup_parser_correct() {
    let cfg = setup();

    // Labels are correct:
    let labels: Vec<String> = cfg.team_labels().into_iter().map(|tl| tl.0).collect();
    assert_eq!(labels, vec!["avengers", "justice-league"]);

    // Teams are correct:
    let teams = cfg.teams();
    let avengers = &teams.iter().find(|(l, _)| l.0 == "avengers").unwrap().1;
    assert_eq!(
        avengers.member_logins().clone(),
        vec!["hulk", "thor", "thevision", "blackwidow", "spiderman", "captainamerica"]
    );

    let jsa = &teams.iter().find(|(l, _)| l.0 == "justice-league").unwrap().1;
    assert_eq!(
        jsa.member_logins().clone(),
        vec!["superman", "wonderwoman", "aquaman", "batman", "theflash"]
    );

    // Random non-existent team does not exist:
    assert!(teams.iter().find(|(l, _)| l.0 == "random").is_none());

    // FFCP behavior correct:
    assert!(cfg.should_ffcp_auto_close("rust-lang/alpha"));
    assert!(cfg.should_ffcp_auto_postpone("rust-lang/alpha"));
    assert!(!cfg.should_ffcp_auto_close("foobar/beta"));
    assert!(!cfg.should_ffcp_auto_postpone("foobar/beta"));
    assert!(!cfg.should_ffcp_auto_close("bazquux/gamma"));
    assert!(!cfg.should_ffcp_auto_postpone("bazquux/gamma"));
    assert!(!cfg.should_ffcp_auto_close("wibble/epsilon"));
    assert!(!cfg.should_ffcp_auto_postpone("wibble/epsilon"));
    assert!(!cfg.should_ffcp_auto_close("random"));
    assert!(!cfg.should_ffcp_auto_postpone("random"));

    // Reaction behavior correct:
    assert!(cfg.is_issue_reaction_probihited("foo-org/bar", Reaction::Downvote));
    assert!(cfg.is_issue_reaction_probihited("foo-org/bar", Reaction::Confused));
    assert!(!cfg.is_issue_reaction_probihited("foo-org/bar", Reaction::Heart));
    assert!(cfg.is_comment_reaction_probihited("foo-org/bar", Reaction::Downvote));
    assert!(!cfg.is_comment_reaction_probihited("foo-org/bar", Reaction::Confused));
    assert!(!cfg.is_comment_reaction_probihited("foo-org/bar", Reaction::Laugh));
    assert!(!cfg.is_issue_reaction_probihited("random", Reaction::Upvote));
}

#[test]
fn unknown_reaction_kind_is_never_prohibited() {
    let cfg = setup();
    assert!(!cfg.is_issue_reaction_probihited("foo-org/bar", Reaction::Unknown));
    assert!(!cfg.is_comment_reaction_probihited("foo-org/bar", Reaction::Unknown));
}

#[test]
fn team_validation_checks_every_member_login() {
    let users = vec![
        GitHubUser { id: 1, login: "hulk".to_string() },
        GitHubUser { id: 2, login: "thor".to_string() },
    ];
    assert!(team_of(&["hulk", "thor"]).validate(&users));
    assert!(!team_of(&["hulk", "loki"]).validate(&users));

    let mut cfg = RfcbotConfig::new();
    cfg.add_team(TeamLabel("avengers".to_string()), team_of(&["hulk", "thor"]));
    assert!(cfg.validate(&users));
    cfg.add_team(TeamLabel("asgard".to_string()), team_of(&["loki"]));
    assert!(!cfg.validate(&users));
}
