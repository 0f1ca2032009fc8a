//! The issue-tracker entities the workflow reads: users, issues and
//! comments, with first-match lookups specified over their sequences.

use vstd::prelude::*;

verus! {

/// A tracker account, identified by id, with a unique login.
#[derive(Debug, Eq, PartialEq)]
pub struct GitHubUser {
    pub id: u64,
    pub login: String,
}

impl Clone for GitHubUser {
    fn clone(&self) -> (r: Self)
        ensures
            r == *self,
    {
        GitHubUser { id: self.id, login: self.login.clone() }
    }
}

/// A discussion thread, carrying the labels that tie it to teams.
#[derive(Debug, Eq, PartialEq)]
pub struct Issue {
    pub id: u64,
    pub repository: String,
    pub labels: Vec<String>,
}

/// One comment on an issue, immutable once created.
#[derive(Debug, Eq, PartialEq)]
pub struct IssueComment {
    pub id: u64,
    pub fk_issue: u64,
    pub fk_user: u64,
    pub body: String,
    pub created_at: u64,
}

impl Clone for IssueComment {
    fn clone(&self) -> (r: Self)
        ensures
            r == *self,
    {
        IssueComment {
            id: self.id,
            fk_issue: self.fk_issue,
            fk_user: self.fk_user,
            body: self.body.clone(),
            created_at: self.created_at,
        }
    }
}

/// First user carrying this id, if any.
pub open spec fn find_user_by_id_spec(users: Seq<GitHubUser>, id: u64) -> Option<GitHubUser>
    decreases users.len(),
{
    if users.len() == 0 {
        None
    } else if users[0].id == id {
        Some(users[0])
    } else {
        find_user_by_id_spec(users.drop_first(), id)
    }
}

/// First user whose login reads as `login`, if any.
pub open spec fn find_user_by_login_spec(users: Seq<GitHubUser>, login: Seq<char>) -> Option<
    GitHubUser,
>
    decreases users.len(),
{
    if users.len() == 0 {
        None
    } else if users[0].login@ == login {
        Some(users[0])
    } else {
        find_user_by_login_spec(users.drop_first(), login)
    }
}

/// First issue carrying this id, if any.
pub open spec fn find_issue_by_id_spec(issues: Seq<Issue>, id: u64) -> Option<Issue>
    decreases issues.len(),
{
    if issues.len() == 0 {
        None
    } else if issues[0].id == id {
        Some(issues[0])
    } else {
        find_issue_by_id_spec(issues.drop_first(), id)
    }
}

pub fn find_user_by_id(users: &Vec<GitHubUser>, id: u64) -> (r: Option<usize>)
    ensures
        match r {
            Some(k) => k < users@.len() && find_user_by_id_spec(users@, id) == Some(
                users@[k as int],
            ),
            None => find_user_by_id_spec(users@, id) is None,
        },
{
    let n = users.len();
    let mut i: usize = 0;
    proof {
        assert(users@.skip(0) =~= users@);
    }
    loop
        invariant
            i <= n,
            n == users@.len(),
            find_user_by_id_spec(users@, id) == find_user_by_id_spec(users@.skip(i as int), id),
        decreases n - i,
    {
        if i == n {
            return None;
        }
        proof {
            assert(users@.skip(i as int)[0] == users@[i as int]);
            assert(users@.skip(i as int).drop_first() =~= users@.skip(i + 1));
        }
        if users[i].id == id {
            return Some(i);
        }
        i = i + 1;
    }
}

pub fn find_user_by_login(users: &Vec<GitHubUser>, login: &str) -> (r: Option<usize>)
    ensures
        match r {
            Some(k) => k < users@.len() && find_user_by_login_spec(users@, login@) == Some(
                users@[k as int],
            ),
            None => find_user_by_login_spec(users@, login@) is None,
        },
{
    let n = users.len();
    let mut i: usize = 0;
    proof {
        assert(users@.skip(0) =~= users@);
    }
    loop
        invariant
            i <= n,
            n == users@.len(),
            find_user_by_login_spec(users@, login@) == find_user_by_login_spec(
                users@.skip(i as int),
                login@,
            ),
        decreases n - i,
    {
        if i == n {
            return None;
        }
        proof {
            assert(users@.skip(i as int)[0] == users@[i as int]);
            assert(users@.skip(i as int).drop_first() =~= users@.skip(i + 1));
        }
        if crate::text::str_eq(users[i].login.as_str(), login) {
            return Some(i);
        }
        i = i + 1;
    }
}

pub fn find_issue_by_id(issues: &Vec<Issue>, id: u64) -> (r: Option<usize>)
    ensures
        match r {
            Some(k) => k < issues@.len() && find_issue_by_id_spec(issues@, id) == Some(
                issues@[k as int],
            ),
            None => find_issue_by_id_spec(issues@, id) is None,
        },
{
    let n = issues.len();
    let mut i: usize = 0;
    proof {
        assert(issues@.skip(0) =~= issues@);
    }
    loop
        invariant
            i <= n,
            n == issues@.len(),
            find_issue_by_id_spec(issues@, id) == find_issue_by_id_spec(issues@.skip(i as int), id),
        decreases n - i,
    {
        if i == n {
            return None;
        }
        proof {
            assert(issues@.skip(i as int)[0] == issues@[i as int]);
            assert(issues@.skip(i as int).drop_first() =~= issues@.skip(i + 1));
        }
        if issues[i].id == id {
            return Some(i);
        }
        i = i + 1;
    }
}

} // verus!
