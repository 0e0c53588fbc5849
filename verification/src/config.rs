//! The settings of the service.

use vstd::prelude::*;
use vstd::string::*;

verus! {

/// All settings.
#[derive(Clone, Debug)]
pub struct Settings {
    pub database: DatabaseSettings,
    pub application: ApplicationSettings,
}

/// Where the service listens.
#[derive(Clone, Debug)]
pub struct ApplicationSettings {
    pub port: u16,
    pub host: String,
}

/// How the database is reached: by `url` where there is one, else by the
/// other three.
#[derive(Clone, Debug)]
pub struct DatabaseSettings {
    pub url: Option<String>,
    pub username: String,
    pub password: String,
    pub database_name: String,
}

/// The environment that the service runs in.
#[derive(Clone, Copy, Debug, PartialEq, Eq, Structural)]
pub enum Environment {
    Local,
    Production,
    Docker,
}

/// The lower-case form of a string, as `str::to_lowercase` gives it.
pub uninterp spec fn lowercase_of(s: Seq<char>) -> Seq<char>;

/// Calls `str::to_lowercase`. Trusted: the result depends on the characters
/// of the string alone.
#[verifier::external_body]
fn to_lowercase(s: &str) -> (lower: String)
    ensures
        lower@ == lowercase_of(s@),
{
    s.to_lowercase()
}

/// The environment with the given lower-case name, or what is said of a name
/// that is none.
pub open spec fn environment_named(name: Seq<char>) -> Result<Environment, Seq<char>> {
    if name == "docker"@ {
        Ok(Environment::Docker)
    } else if name == "local"@ {
        Ok(Environment::Local)
    } else if name == "production"@ {
        Ok(Environment::Production)
    } else {
        Err(
            name
                + " is not a supported environment. Use either `local`, `docker`, or `production`."@,
        )
    }
}

impl Environment {
    /// The name of the environment.
    pub open spec fn name(&self) -> Seq<char> {
        match self {
            Environment::Local => "local"@,
            Environment::Production => "production"@,
            Environment::Docker => "docker"@,
        }
    }

    /// The name of the environment, in lower case.
    pub fn as_str(&self) -> (name: &'static str)
        ensures
            name@ == self.name(),
    {
        match self {
            Environment::Local => "local",
            Environment::Production => "production",
            Environment::Docker => "docker",
        }
    }

    /// The environment with the given name, which is taken as it stands:
    /// `docker`, `local` or `production`. Any other name is an error, whose
    /// text begins with the name.
    pub fn from_lowercase(name: String) -> (r: Result<Environment, String>)
        ensures
            match environment_named(name@) {
                Ok(environment) => r == Ok::<Environment, String>(environment),
                Err(text) => (r matches Err(said) && said@ == text),
            },
    {
        if name == "docker".to_owned() {
            Ok(Environment::Docker)
        } else if name == "local".to_owned() {
            Ok(Environment::Local)
        } else if name == "production".to_owned() {
            Ok(Environment::Production)
        } else {
            Err(
                name.concat(
                    " is not a supported environment. Use either `local`, `docker`, or `production`.",
                ),
            )
        }
    }

    /// The environment with the given name, in whatever case it is written.
    pub fn try_from(s: String) -> (r: Result<Environment, String>)
        ensures
            match environment_named(lowercase_of(s@)) {
                Ok(environment) => r == Ok::<Environment, String>(environment),
                Err(text) => (r matches Err(said) && said@ == text),
            },
    {
        Environment::from_lowercase(to_lowercase(s.as_str()))
    }
}

impl Settings {
    /// The text by which the database is reached: the configured `url` where
    /// there is one, else one made of user, password, host and database name,
    /// on port 5432.
    pub open spec fn connection_text(&self) -> Seq<char> {
        match self.database.url {
            Some(url) => url@,
            None => "postgres://"@ + self.database.username@ + ":"@ + self.database.password@
                + "@"@ + self.application.host@ + ":5432/"@ + self.database.database_name@,
        }
    }

    /// The connection string of the database.
    pub fn connection_string(&self) -> (text: String)
        ensures
            text@ == self.connection_text(),
    {
        match &self.database.url {
            Some(url) => url.clone(),
            None => {
                let mut text = "postgres://".to_owned();
                text.append(self.database.username.as_str());
                text.append(":");
                text.append(self.database.password.as_str());
                text.append("@");
                text.append(self.application.host.as_str());
                text.append(":5432/");
                text.append(self.database.database_name.as_str());
                text
            },
        }
    }

    /// The port on which the service listens.
    pub fn port(&self) -> (port: u16)
        ensures
            port == self.application.port,
    {
        self.application.port
    }
}

} // verus!
