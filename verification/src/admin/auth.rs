//! Admin UI users and the current-user view shown in templates.
use vstd::prelude::*;

use crate::admin::views::opt_view;
use crate::text::{str_to_string, views};

verus! {

/// A stored user record (without password hash).
#[derive(Debug, Clone)]
pub struct ForgeUser {
    pub username: String,
    pub roles: Vec<String>,
    pub display_name: Option<String>,
    pub active: bool,
}

/// Submitted login form.
#[derive(Debug)]
pub struct LoginForm {
    pub username: String,
    pub password: String,
}

/// What the current-user view reads from a session.
#[derive(Debug, Clone)]
pub struct SessionSnapshot {
    /// Whether the session is authenticated.
    pub authenticated: bool,
    /// The session's `username` extra, if set.
    pub username: Option<String>,
    /// The session's `display_name` extra, if set.
    pub display_name: Option<String>,
    /// The session's user id, if set.
    pub user_id: Option<String>,
    /// Whether the session has the `admin` role.
    pub has_admin_role: bool,
}

/// Template-friendly view of the current user.
#[derive(Debug, Clone)]
pub struct CurrentUserView {
    pub username: String,
    pub display_name: String,
    pub is_admin: bool,
}

/// The first present value, or `default`.
pub open spec fn first_present(options: Seq<Option<Seq<char>>>, default: Seq<char>) -> Seq<char>
    decreases options.len(),
{
    if options.len() == 0 {
        default
    } else {
        match options[0] {
            Some(v) => v,
            None => first_present(options.drop_first(), default),
        }
    }
}

fn first_or_user(a: &Option<String>, b: &Option<String>, c: &Option<String>) -> (r: String)
    ensures
        r@ == first_present(seq![opt_view(*a), opt_view(*b), opt_view(*c)], "User"@),
{
    let ghost opts = seq![opt_view(*a), opt_view(*b), opt_view(*c)];
    proof {
        reveal_with_fuel(first_present, 4);
    }
    assert(opts.drop_first() =~= seq![opt_view(*b), opt_view(*c)]);
    assert(opts.drop_first().drop_first() =~= seq![opt_view(*c)]);
    assert(opts.drop_first().drop_first().drop_first() =~= Seq::<Option<Seq<char>>>::empty());
    match a {
        Some(s) => {
            s.clone()
        },
        None => match b {
            Some(s) => s.clone(),
            None => match c {
                Some(s) => s.clone(),
                None => str_to_string("User"),
            },
        },
    }
}

impl CurrentUserView {
    /// The current user of a session: `None` when it is not authenticated.
    /// The username falls back from the `username` extra to the user id to
    /// `User`; the display name from the `display_name` extra to the same
    /// chain.
    pub fn from_session(auth: &SessionSnapshot) -> (v: Option<Self>)
        ensures
            !auth.authenticated ==> v is None,
            auth.authenticated ==> (v matches Some(u) && {
                &&& u.username@ == first_present(
                    seq![opt_view(auth.username), opt_view(auth.user_id)],
                    "User"@,
                )
                &&& u.display_name@ == first_present(
                    seq![opt_view(auth.display_name), opt_view(auth.username), opt_view(auth.user_id)],
                    "User"@,
                )
                &&& u.is_admin == auth.has_admin_role
            }),
    {
        if !auth.authenticated {
            return None;
        }
        let none: Option<String> = None;
        let username = first_or_user(&auth.username, &auth.user_id, &none);
        let display_name = first_or_user(&auth.display_name, &auth.username, &auth.user_id);
        proof {
            reveal_with_fuel(first_present, 4);
            let s3 = seq![opt_view(auth.username), opt_view(auth.user_id), opt_view(none)];
            let s2 = seq![opt_view(auth.username), opt_view(auth.user_id)];
            assert(s3.drop_first() =~= seq![opt_view(auth.user_id), opt_view(none)]);
            assert(s2.drop_first() =~= seq![opt_view(auth.user_id)]);
            assert(s3.drop_first().drop_first() =~= seq![opt_view(none)]);
            assert(s2.drop_first().drop_first() =~= Seq::<Option<Seq<char>>>::empty());
            assert(s3.drop_first().drop_first().drop_first() =~= Seq::<Option<Seq<char>>>::empty());
        }
        Some(CurrentUserView { username, display_name, is_admin: auth.has_admin_role })
    }
}

/// The user holds the `admin` role.
pub open spec fn holds_admin(u: ForgeUser) -> bool {
    views(u.roles@).contains("admin"@)
}

/// The session a successful login opens for `user`: authenticated as the
/// user's name with the user's roles, and carrying the `username` and
/// `display_name` extras, the display name falling back to the username.
pub fn session_after_login(user: &ForgeUser) -> (s: SessionSnapshot)
    ensures
        s.authenticated,
        opt_view(s.user_id) == Some(user.username@),
        opt_view(s.username) == Some(user.username@),
        opt_view(s.display_name) == Some(
            match user.display_name {
                Some(d) => d@,
                None => user.username@,
            },
        ),
        s.has_admin_role == holds_admin(*user),
{
    let admin = str_to_string("admin");
    let mut has_admin = false;
    let mut i: usize = 0;
    while i < user.roles.len()
        invariant
            i <= user.roles@.len(),
            admin@ == "admin"@,
            has_admin == views(user.roles@).subrange(0, i as int).contains("admin"@),
        decreases user.roles@.len() - i,
    {
        let ghost pre = views(user.roles@).subrange(0, i + 1);
        assert(pre =~= views(user.roles@).subrange(0, i as int).push(user.roles@[i as int]@));
        if user.roles[i] == admin {
            has_admin = true;
            assert(pre[i as int] == "admin"@);
        }
        i += 1;
    }
    assert(views(user.roles@).subrange(0, i as int) =~= views(user.roles@));
    let display_name = match &user.display_name {
        Some(d) => d.clone(),
        None => user.username.clone(),
    };
    SessionSnapshot {
        authenticated: true,
        username: Some(user.username.clone()),
        display_name: Some(display_name),
        user_id: Some(user.username.clone()),
        has_admin_role: has_admin,
    }
}

/// Law: after a login, the current user shown is the user who logged in,
/// under the user's display name (or username when it has none), and an
/// administrator exactly when the user holds the `admin` role.
pub proof fn lemma_login_shows_user(user: ForgeUser, s: SessionSnapshot, v: CurrentUserView)
    requires
        s.authenticated,
        opt_view(s.user_id) == Some(user.username@),
        opt_view(s.username) == Some(user.username@),
        opt_view(s.display_name) == Some(
            match user.display_name {
                Some(d) => d@,
                None => user.username@,
            },
        ),
        s.has_admin_role == holds_admin(user),
        v.username@ == first_present(seq![opt_view(s.username), opt_view(s.user_id)], "User"@),
        v.display_name@ == first_present(
            seq![opt_view(s.display_name), opt_view(s.username), opt_view(s.user_id)],
            "User"@,
        ),
        v.is_admin == s.has_admin_role,
    ensures
        v.username@ == user.username@,
        v.display_name@ == (match user.display_name {
            Some(d) => d@,
            None => user.username@,
        }),
        v.is_admin == holds_admin(user),
{
}

} // verus!
