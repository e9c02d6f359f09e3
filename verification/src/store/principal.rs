//! Principals: users and groups with their passwords, app tokens and memberships.

use vstd::prelude::*;
use vstd::utf8::encode_utf8;

verus! {

/// A row of the principals table joined with the principal's memberships.
#[derive(Debug, Clone)]
pub struct PrincipalRow {
    pub id: String,
    pub displayname: Option<String>,
    pub principal_type: String,
    pub password_hash: Option<String>,
    pub memberships: Option<Vec<Option<String>>>,
}

/// A principal.
#[derive(Debug, Clone)]
pub struct Principal {
    pub id: String,
    pub displayname: Option<String>,
    pub password: Option<String>,
    pub principal_type: String,
    pub memberships: Vec<String>,
}

/// The values present in a list of optional values, in order.
pub open spec fn present(s: Seq<Option<String>>) -> Seq<String>
    decreases s.len(),
{
    if s.len() == 0 {
        Seq::empty()
    } else {
        match s.last() {
            Some(x) => present(s.drop_last()).push(x),
            None => present(s.drop_last()),
        }
    }
}

/// The groups a principal is a member of are exactly the groups present in
/// its joined list, in the order of the list: each present group is kept,
/// each missing one dropped.
pub proof fn law_present(s: Seq<Option<String>>)
    ensures
        present(s).len() <= s.len(),
        forall|x: String| #[trigger] present(s).contains(x) <==> s.contains(Some(x)),
    decreases s.len(),
{
    if s.len() > 0 {
        let rest = s.drop_last();
        law_present(rest);
        assert forall|x: String| #[trigger] present(s).contains(x) <==> s.contains(Some(x)) by {
            if present(s).contains(x) {
                let k = choose|k: int| 0 <= k < present(s).len() && present(s)[k] == x;
                match s.last() {
                    Some(y) => {
                        if k < present(rest).len() {
                            assert(present(rest)[k] == x);
                            assert(present(rest).contains(x));
                            let j = choose|j: int| 0 <= j < rest.len() && rest[j] == Some(x);
                            assert(s[j] == Some(x));
                        } else {
                            assert(s[s.len() - 1] == Some(x));
                        }
                    },
                    None => {
                        assert(present(rest)[k] == x);
                        assert(present(rest).contains(x));
                        let j = choose|j: int| 0 <= j < rest.len() && rest[j] == Some(x);
                        assert(s[j] == Some(x));
                    },
                }
            }
            if s.contains(Some(x)) {
                let j = choose|j: int| 0 <= j < s.len() && s[j] == Some(x);
                if j < s.len() - 1 {
                    assert(rest[j] == Some(x));
                    assert(rest.contains(Some(x)));
                    assert(present(rest).contains(x));
                    let k = choose|k: int| 0 <= k < present(rest).len() && present(rest)[k] == x;
                    match s.last() {
                        Some(y) => assert(present(s) == present(rest).push(y)),
                        None => assert(present(s) == present(rest)),
                    }
                    assert(present(s)[k] == x);
                } else {
                    assert(present(s)[present(s).len() - 1] == x);
                }
            }
        }
    }
}

/// The principal a row stands for; its memberships are the groups present
/// in the joined list (none when the list is missing).
pub fn principal_from_row(row: PrincipalRow) -> (res: Principal)
    ensures
        res.id == row.id,
        res.displayname == row.displayname,
        res.password == row.password_hash,
        res.principal_type == row.principal_type,
        res.memberships@ == match row.memberships {
            Some(m) => present(m@),
            None => Seq::empty(),
        },
{
    let mut memberships: Vec<String> = Vec::new();
    match row.memberships {
        Some(m) => {
            let mut i: usize = 0;
            while i < m.len()
                invariant
                    i <= m@.len(),
                    memberships@ == present(m@.take(i as int)),
                decreases m@.len() - i,
            {
                assert(m@.take(i + 1).drop_last() =~= m@.take(i as int));
                match &m[i] {
                    Some(g) => memberships.push(g.clone()),
                    None => {},
                }
                i = i + 1;
            }
            assert(m@.take(m@.len() as int) =~= m@);
        },
        None => {},
    }
    Principal {
        id: row.id,
        displayname: row.displayname,
        password: row.password_hash,
        principal_type: row.principal_type,
        memberships,
    }
}

/// Whether `password` (as UTF-8) matches the PHC password hash `hash`.
pub uninterp spec fn password_verifies(password: Seq<u8>, hash: Seq<char>) -> bool;

/// Checks a password against a PHC hash with `password_auth::verify_password`.
/// The contract says that the answer depends on the password and hash alone.
#[verifier::external_body]
fn verify_password(password: &str, hash: &str) -> (res: bool)
    ensures
        res == password_verifies(encode_utf8(password@), hash@),
{
    password_auth::verify_password(password, hash).is_ok()
}

/// The principal that a password logs in: the principal, when it exists,
/// has a password, and the password matches it.
pub fn check_password(user: Option<Principal>, password_input: &str) -> (res: Option<Principal>)
    ensures
        match user {
            Some(u) => match u.password {
                Some(h) => if password_verifies(encode_utf8(password_input@), h@) {
                    res == Some(u)
                } else {
                    res is None
                },
                None => res is None,
            },
            None => res is None,
        },
{
    let user = match user {
        Some(user) => user,
        None => return None,
    };
    let ok = match &user.password {
        Some(hash) => verify_password(password_input, hash.as_str()),
        None => return None,
    };
    if ok {
        Some(user)
    } else {
        None
    }
}

/// A token that lets a principal log in without its password; `token` is
/// the PHC hash of the token.
#[derive(Debug, Clone)]
pub struct AppToken {
    pub id: String,
    pub name: String,
    pub token: String,
    pub created_at: Option<i64>,
}

/// Whether a token matches one of the principal's app tokens.
pub fn app_token_matches(tokens: &Vec<AppToken>, token: &str) -> (res: bool)
    ensures
        res == exists|i: int| 0 <= i < tokens@.len() && password_verifies(encode_utf8(token@), #[trigger] tokens@[i].token@),
{
    let mut i: usize = 0;
    while i < tokens.len()
        invariant
            i <= tokens@.len(),
            forall|j: int| 0 <= j < i ==> !password_verifies(encode_utf8(token@), #[trigger] tokens@[j].token@),
        decreases tokens@.len() - i,
    {
        if verify_password(token, tokens[i].token.as_str()) {
            return true;
        }
        i = i + 1;
    }
    false
}

} // verus!
