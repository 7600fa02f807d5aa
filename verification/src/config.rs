//! What the proxy knows of the target database.
use vstd::prelude::*;

verus! {

/// Where the target is, and whom the proxy is to it.
#[derive(Debug)]
pub struct PostgresConfig {
    pub target_addr: Option<String>,
    pub target_username: Option<String>,
    pub target_password: Option<String>,
}

/// The settings with which the proxy itself asks `database` for its tables.
pub open spec fn connection_settings(
    username: Seq<char>,
    database: Seq<char>,
    password: Seq<char>,
) -> Seq<char> {
    "host=localhost port=5432 user="@ + username + " dbname = "@ + database + " password = "@
        + password
}

impl PostgresConfig {
    /// The settings with which the proxy itself asks `database` for its tables.
    pub fn connection_string(&self, database: &String) -> (settings: String)
        requires
            self.target_username is Some,
            self.target_password is Some,
        ensures
            settings@ == connection_settings(
                self.target_username->0@,
                database@,
                self.target_password->0@,
            ),
    {
        let mut settings = "host=localhost port=5432 user=".to_owned();
        if let Some(username) = &self.target_username {
            settings.append(username.as_str());
        }
        settings.append(" dbname = ");
        settings.append(database.as_str());
        settings.append(" password = ");
        if let Some(password) = &self.target_password {
            settings.append(password.as_str());
        }
        settings
    }
}

/// The settings hold the whole user name, database and password, each behind its
/// key, in this order, and nothing else but where the database is.
pub proof fn lemma_settings_are_whole(
    username: Seq<char>,
    database: Seq<char>,
    password: Seq<char>,
    user: int,
    name: int,
    secret: int,
)
    requires
        user == "host=localhost port=5432 user="@.len(),
        name == user + username.len() + " dbname = "@.len(),
        secret == name + database.len() + " password = "@.len(),
    ensures
        ({
            let settings = connection_settings(username, database, password);
            &&& settings.len() == secret + password.len()
            &&& settings.take(user) == "host=localhost port=5432 user="@
            &&& settings.subrange(user, user + username.len()) == username
            &&& settings.subrange(user + username.len(), name) == " dbname = "@
            &&& settings.subrange(name, name + database.len()) == database
            &&& settings.subrange(name + database.len(), secret) == " password = "@
            &&& settings.skip(secret) == password
        }),
{
    let settings = connection_settings(username, database, password);
    assert(settings.take(user) =~= "host=localhost port=5432 user="@);
    assert(settings.subrange(user, user + username.len()) =~= username);
    assert(settings.subrange(user + username.len(), name) =~= " dbname = "@);
    assert(settings.subrange(name, name + database.len()) =~= database);
    assert(settings.subrange(name + database.len(), secret) =~= " password = "@);
    assert(settings.skip(secret) =~= password);
}

} // verus!
