//! The configuration of the bot.

use crate::fx::store::{IoError, IoErrorKind};
use vstd::prelude::*;
use vstd::string::StringExecFns;

verus! {

/// The host of the database where the configuration names none.
pub fn localhost() -> (host: String)
    ensures
        host@ == "localhost"@,
{
    String::from_str("localhost")
}

/// How the database is reached.
#[derive(Clone, Debug)]
pub struct Database {
    /// The user to log in as.
    pub user: String,
    /// The user's password.
    pub password: String,
    /// The host of the database.
    pub host: String,
}

impl Database {
    /// The connection string: the scheme, then user and password with a colon between them,
    /// an at sign, and the host.
    pub open spec fn spec_connection_string(&self) -> Seq<char> {
        "mongodb://"@ + self.user@ + ":"@ + self.password@ + "@"@ + self.host@
    }

    /// The string with which a client connects to the database.
    pub fn connection_string(&self) -> (connection: String)
        ensures
            connection@ == self.spec_connection_string(),
    {
        let mut connection = String::from_str("mongodb://");
        connection.append(self.user.as_str());
        connection.append(":");
        connection.append(self.password.as_str());
        connection.append("@");
        connection.append(self.host.as_str());
        connection
    }
}

/// The configuration of the bot.
#[derive(Clone, Debug)]
pub struct Bot {
    /// The token with which the bot logs in.
    pub token: String,
    /// The guild that the bot serves.
    pub guild_id: u64,
    /// The application that the bot runs as.
    pub application_id: u64,
    /// How the database is reached.
    pub database: Database,
}

/// Why the configuration could not be loaded.
#[derive(Debug)]
pub enum ConfigLoadError {
    /// There is no configuration file.
    NoFound,
    /// The file does not hold a configuration; the text says what is wrong with it.
    Format(String),
    /// The file could not be read.
    IO(IoError),
}

impl Bot {
    /// Where the configuration file is looked for.
    pub fn path() -> (path: &'static str)
        ensures
            path@ == "./bot.toml"@,
    {
        "./bot.toml"
    }

    /// The text of the configuration, told from the outcome of reading the file: what was
    /// read, `NoFound` where there is no file, and any other failure as it is.
    pub fn load(read: Result<Vec<u8>, IoError>) -> (res: Result<Vec<u8>, ConfigLoadError>)
        ensures
            match read {
                Ok(text) => res == Ok::<Vec<u8>, ConfigLoadError>(text),
                Err(err) => if err.kind == IoErrorKind::NotFound {
                    res == Err::<Vec<u8>, ConfigLoadError>(ConfigLoadError::NoFound)
                } else {
                    res == Err::<Vec<u8>, ConfigLoadError>(ConfigLoadError::IO(err))
                },
            },
    {
        match read {
            Ok(text) => Ok(text),
            Err(err) => if err.kind == IoErrorKind::NotFound {
                Err(ConfigLoadError::NoFound)
            } else {
                Err(ConfigLoadError::IO(err))
            },
        }
    }
}

} // verus!
