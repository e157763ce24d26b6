//! User accounts: names, passwords, local login and changes by an admin.
use vstd::prelude::*;

use crate::crypto::{argon2_accepts, argon2_verdict, hash_password, verify_password};
use crate::error::{
    fails_as, failure_of, forbidden_failure, internal_failure, unauthorized_failure,
    unprocessable, unprocessable_failure, AppError, AppResult,
};
use crate::models::{role_name, Role, UserRow};
use crate::text::{str_equals, trim, trimmed};

verus! {

/// Longest user name, in bytes.
pub const MAX_USERNAME_BYTES: usize = 64;

/// Shortest password, in bytes.
pub const MIN_PASSWORD_BYTES: usize = 8;

/// Characters a user name may hold: ASCII letters and digits, dot, underscore, hyphen.
pub open spec fn is_username_char(c: char) -> bool {
    ('a' <= c && c <= 'z') || ('A' <= c && c <= 'Z') || ('0' <= c && c <= '9') || c == '.' || c
        == '_' || c == '-'
}

/// Why a user name is refused, if it is: empty or longer than 64 bytes once
/// trimmed, or holding other characters.
pub open spec fn username_failure(name: Seq<char>) -> Option<(int, Seq<char>)> {
    let t = trimmed(name);
    if t.len() == 0 || vstd::utf8::encode_utf8(t).len() > 64 {
        Some(unprocessable_failure("Benutzername muss zwischen 1 und 64 Zeichen haben"@))
    } else if exists|i: int| 0 <= i < t.len() && !is_username_char(#[trigger] t[i]) {
        Some(
            unprocessable_failure(
                "Benutzername darf nur Buchstaben, Zahlen, Punkt, Unterstrich und Bindestrich enthalten"@,
            ),
        )
    } else {
        None
    }
}

fn username_char(c: char) -> (r: bool)
    ensures
        r == is_username_char(c),
{
    ('a' <= c && c <= 'z') || ('A' <= c && c <= 'Z') || ('0' <= c && c <= '9') || c == '.' || c
        == '_' || c == '-'
}

fn all_username_chars(t: &str) -> (r: bool)
    ensures
        r == (forall|i: int| 0 <= i < t@.len() ==> is_username_char(#[trigger] t@[i])),
{
    let chars = crate::text::chars_of(t);
    let mut i: usize = 0;
    while i < chars.len()
        invariant
            chars@ == t@,
            i <= chars@.len(),
            forall|j: int| 0 <= j < i ==> is_username_char(#[trigger] t@[j]),
        decreases chars@.len() - i,
    {
        if !username_char(chars[i]) {
            assert(!is_username_char(t@[i as int]));
            return false;
        }
        i += 1;
    }
    true
}

/// The user name, trimmed.
pub fn validate_username(username: &str) -> (r: AppResult<String>)
    ensures
        fails_as(r, username_failure(username@)),
        r matches Ok(s) ==> s@ == trimmed(username@),
{
    let t = trim(username);
    if t.is_empty() || t.as_bytes().len() > MAX_USERNAME_BYTES {
        return Err(unprocessable("Benutzername muss zwischen 1 und 64 Zeichen haben"));
    }
    if !all_username_chars(t) {
        return Err(
            unprocessable(
                "Benutzername darf nur Buchstaben, Zahlen, Punkt, Unterstrich und Bindestrich enthalten",
            ),
        );
    }
    Ok(String::from_str(t))
}

/// Why a password is refused, if it is: shorter than 8 bytes.
pub open spec fn password_failure(password: Seq<char>) -> Option<(int, Seq<char>)> {
    if vstd::utf8::encode_utf8(password).len() < 8 {
        Some(unprocessable_failure("Passwort muss mindestens 8 Zeichen haben"@))
    } else {
        None
    }
}

/// A password has at least 8 bytes.
pub fn validate_password(password: &str) -> (r: AppResult<()>)
    ensures
        fails_as(r, password_failure(password@)),
{
    if password.as_bytes().len() < MIN_PASSWORD_BYTES {
        return Err(unprocessable("Passwort muss mindestens 8 Zeichen haben"));
    }
    Ok(())
}

/// A new local account: the trimmed name and the hash of the password.
pub fn plan_new_user(username: &str, password: &str) -> (r: AppResult<(String, String)>)
    ensures
        username_failure(username@) matches Some(f) ==> (r matches Err(e) && failure_of(e) == f),
        username_failure(username@) is None ==> (password_failure(password@) matches Some(f) ==> (
        r matches Err(e) && failure_of(e) == f)),
        r matches Ok((name, hash)) ==> name@ == trimmed(username@) && argon2_accepts(
            password@,
            hash@,
        ),
        r matches Err(e) ==> (username_failure(username@) is Some || password_failure(
            password@,
        ) is Some || e is Internal),
{
    let name = validate_username(username)?;
    validate_password(password)?;
    let hash = hash_password(password)?;
    Ok((name, hash))
}

/// Why a local login is refused, if it is: no such user, a disabled one, one
/// that does not log in locally, one without a password, or a wrong password.
pub open spec fn login_failure(user: Option<UserRow>, password: Seq<char>) -> Option<
    (int, Seq<char>),
> {
    match user {
        None => Some(unauthorized_failure()),
        Some(u) => if u.disabled {
            Some(forbidden_failure())
        } else if u.auth_provider@ != "local"@ {
            Some(unprocessable_failure("Dieser Benutzer kann sich nicht lokal anmelden"@))
        } else {
            match u.password_hash {
                None => Some(unauthorized_failure()),
                Some(h) => match argon2_verdict(password, h@) {
                    Err(m) => Some(internal_failure("Passwort-Hash ungültig: "@ + m)),
                    Ok(ok) => if ok {
                        None
                    } else {
                        Some(unauthorized_failure())
                    },
                },
            }
        },
    }
}

/// Logs a user in with a password; `user` is the account found for the name.
pub fn authenticate(user: Option<UserRow>, password: &str) -> (r: AppResult<UserRow>)
    ensures
        fails_as(r, login_failure(user, password@)),
        r matches Ok(u) ==> user == Some(u),
{
    let user = match user {
        None => return Err(AppError::Unauthorized),
        Some(u) => u,
    };
    if user.disabled {
        return Err(AppError::Forbidden);
    }
    if !str_equals(user.auth_provider.as_str(), "local") {
        return Err(unprocessable("Dieser Benutzer kann sich nicht lokal anmelden"));
    }
    let ok = match &user.password_hash {
        None => return Err(AppError::Unauthorized),
        Some(h) => verify_password(password, h.as_str())?,
    };
    if !ok {
        return Err(AppError::Unauthorized);
    }
    Ok(user)
}

/// Applies an admin's change to an account (the role is checked by its stored name).
pub fn apply_user_update(
    user: UserRow,
    new_hash: Option<String>,
    role: Option<Role>,
    disabled: Option<bool>,
) -> (r: UserRow)
    ensures
        r.id == user.id,
        r.username == user.username,
        r.auth_provider == user.auth_provider,
        r.oidc_subject == user.oidc_subject,
        r.created_at == user.created_at,
        r.password_hash == (match new_hash {
            Some(h) => Some(h),
            None => user.password_hash,
        }),
        r.role@ == (match role {
            Some(x) => role_name(x),
            None => user.role@,
        }),
        r.disabled == (match disabled {
            Some(d) => d,
            None => user.disabled,
        }),
{
    let mut user = user;
    if let Some(h) = new_hash {
        user.password_hash = Some(h);
    }
    if let Some(x) = role {
        user.role = String::from_str(x.as_str());
    }
    if let Some(d) = disabled {
        user.disabled = d;
    }
    user
}

/// An admin's change of an account (`user` is the account of the id, if any):
/// a new password is checked and hashed.
pub fn plan_user_update(
    user: Option<UserRow>,
    password: Option<&str>,
    role: Option<Role>,
    disabled: Option<bool>,
) -> (r: AppResult<UserRow>)
    ensures
        user is None ==> r == Err::<UserRow, AppError>(AppError::NotFound),
        user is Some && (password matches Some(p) && password_failure(p@) is Some) ==> (r matches Err(
            e,
        ) && Some(failure_of(e)) == password_failure(password->0@)),
        r matches Ok(u) ==> (user matches Some(old_user) && u.id == old_user.id && u.username
            == old_user.username && u.disabled == (match disabled {
            Some(d) => d,
            None => old_user.disabled,
        }) && u.role@ == (match role {
            Some(x) => role_name(x),
            None => old_user.role@,
        }) && (match password {
            Some(p) => u.password_hash matches Some(h) && argon2_accepts(p@, h@),
            None => u.password_hash == old_user.password_hash,
        })),
{
    let user = match user {
        None => return Err(AppError::NotFound),
        Some(u) => u,
    };
    let new_hash = match password {
        Some(p) => {
            validate_password(p)?;
            Some(hash_password(p)?)
        },
        None => None,
    };
    Ok(apply_user_update(user, new_hash, role, disabled))
}

/// The bootstrap admin is created only while no account exists.
pub fn needs_bootstrap(user_count: i64) -> (r: bool)
    ensures
        r == (user_count <= 0),
{
    user_count <= 0
}

} // verus!
