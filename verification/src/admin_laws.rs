//! What the administration keeps true of a configuration: no two apps share
//! an id, no two users share a login.

use vstd::prelude::*;
use crate::apps::{app_position, with_app, without_app, AppView};
use crate::configuration::ConfigView;
use crate::users::{user_position, with_user, without_user, UserView};

verus! {

/// No two apps have the same id.
pub open spec fn distinct_ids(apps: Seq<AppView>) -> bool {
    forall|i: int, j: int| 0 <= i < j < apps.len() ==> apps[i].id != apps[j].id
}

/// No two users have the same login.
pub open spec fn distinct_logins(users: Seq<UserView>) -> bool {
    forall|i: int, j: int| 0 <= i < j < users.len() ==> users[i].login != users[j].login
}

/// The position of an id lies within the list or at its end; no app in front
/// of it has the id, and the app at it has.
pub proof fn lemma_app_position_found(apps: Seq<AppView>, id: usize)
    ensures
        0 <= app_position(apps, id) <= apps.len(),
        forall|k: int| 0 <= k < app_position(apps, id) ==> apps[k].id != id,
        app_position(apps, id) < apps.len() ==> apps[app_position(apps, id)].id == id,
    decreases apps.len(),
{
    if apps.len() == 0 || apps[0].id == id {
    } else {
        let t = apps.drop_first();
        lemma_app_position_found(t, id);
        assert forall|k: int| 0 <= k < app_position(apps, id) implies apps[k].id != id by {
            if k > 0 {
                assert(t[k - 1] == apps[k]);
            }
        }
    }
}

/// The position of a login lies within the list or at its end; no user in
/// front of it has the login, and the user at it has.
pub proof fn lemma_user_position_found(users: Seq<UserView>, login: Seq<char>)
    ensures
        0 <= user_position(users, login) <= users.len(),
        forall|k: int| 0 <= k < user_position(users, login) ==> users[k].login != login,
        user_position(users, login) < users.len() ==> users[user_position(users, login)].login
            == login,
    decreases users.len(),
{
    if users.len() == 0 || users[0].login == login {
    } else {
        let t = users.drop_first();
        lemma_user_position_found(t, login);
        assert forall|k: int| 0 <= k < user_position(users, login) implies users[k].login
            != login by {
            if k > 0 {
                assert(t[k - 1] == users[k]);
            }
        }
    }
}

/// Adding or changing an app leaves the ids distinct, and afterwards the
/// configuration holds the app.
pub proof fn lemma_add_app_keeps_ids_distinct(config: ConfigView, app: AppView)
    requires
        distinct_ids(config.apps),
    ensures
        distinct_ids(with_app(config, app).apps),
        with_app(config, app).apps.contains(app),
{
    lemma_app_position_found(config.apps, app.id);
    let at = app_position(config.apps, app.id);
    let after = with_app(config, app).apps;
    if at < config.apps.len() {
        assert(after[at] == app);
    } else {
        assert(after[config.apps.len() as int] == app);
    }
}

/// Deleting an app leaves the ids distinct, and afterwards no app has the
/// id that was deleted.
pub proof fn lemma_delete_app_keeps_ids_distinct(config: ConfigView, id: usize)
    requires
        distinct_ids(config.apps),
        without_app(config, id) is Ok,
    ensures
        distinct_ids(without_app(config, id)->Ok_0.apps),
        forall|k: int|
            0 <= k < without_app(config, id)->Ok_0.apps.len() ==> without_app(
                config,
                id,
            )->Ok_0.apps[k].id != id,
{
    lemma_app_position_found(config.apps, id);
    let at = app_position(config.apps, id);
    let after = without_app(config, id)->Ok_0.apps;
    assert forall|k: int| 0 <= k < after.len() implies after[k].id != id by {
        if k < at {
            assert(after[k] == config.apps[k]);
        } else {
            assert(after[k] == config.apps[k + 1]);
        }
    }
    assert forall|i: int, j: int| 0 <= i < j < after.len() implies after[i].id != after[j].id by {
        let a = if i < at {
            i
        } else {
            i + 1
        };
        let b = if j < at {
            j
        } else {
            j + 1
        };
        assert(after[i] == config.apps[a] && after[j] == config.apps[b]);
    }
}

/// Adding or changing a user leaves the logins distinct.
pub proof fn lemma_add_user_keeps_logins_distinct(config: ConfigView, user: UserView)
    requires
        distinct_logins(config.users),
        with_user(config, user) is Ok,
    ensures
        distinct_logins(with_user(config, user)->Ok_0.users),
{
    lemma_user_position_found(config.users, user.login);
}

/// Deleting a user leaves the logins distinct, and afterwards no user has
/// the login that was deleted.
pub proof fn lemma_delete_user_keeps_logins_distinct(config: ConfigView, login: Seq<char>)
    requires
        distinct_logins(config.users),
        without_user(config, login) is Ok,
    ensures
        distinct_logins(without_user(config, login)->Ok_0.users),
        forall|k: int|
            0 <= k < without_user(config, login)->Ok_0.users.len() ==> without_user(
                config,
                login,
            )->Ok_0.users[k].login != login,
{
    lemma_user_position_found(config.users, login);
    let at = user_position(config.users, login);
    let after = without_user(config, login)->Ok_0.users;
    assert forall|k: int| 0 <= k < after.len() implies after[k].login != login by {
        if k < at {
            assert(after[k] == config.users[k]);
        } else {
            assert(after[k] == config.users[k + 1]);
        }
    }
    assert forall|i: int, j: int| 0 <= i < j < after.len() implies after[i].login
        != after[j].login by {
        let a = if i < at {
            i
        } else {
            i + 1
        };
        let b = if j < at {
            j
        } else {
            j + 1
        };
        assert(after[i] == config.users[a] && after[j] == config.users[b]);
    }
}

} // verus!
