//! The configuration, and what the server knows between two calls.

use vstd::prelude::*;
use crate::json::string_view;
use crate::text::owned;

verus! {

/// What the server keeps on disk: the contact address that identifies it.
#[derive(Debug)]
pub struct Config {
    pub contact_email: Option<String>,
}

impl Clone for Config {
    /// A copy with the same contact address.
    fn clone(&self) -> (r: Config)
        ensures
            string_view(r.contact_email) == string_view(self.contact_email),
    {
        match &self.contact_email {
            Some(email) => Config { contact_email: Some(owned(email.as_str())) },
            None => Config { contact_email: None },
        }
    }
}

impl Default for Config {
    /// A configuration without a contact address.
    fn default() -> (r: Config)
        ensures
            r.contact_email is None,
    {
        Config { contact_email: None }
    }
}

/// What was found of the configuration file.
pub enum ConfigFile {
    /// The machine names no directory for configurations.
    NoDirectory,
    /// There is no file.
    Missing,
    /// The file could not be read, for this reason.
    Unreadable(String),
    /// The file could not be understood, for this reason.
    Malformed(String),
    /// The file holds this configuration.
    Parsed(Config),
}

impl Config {
    /// The configuration that a file gives: the default where there is no file,
    /// an error where there is one that is of no use.
    pub fn try_load(file: ConfigFile) -> (r: Result<Config, String>)
        ensures
            match file {
                ConfigFile::NoDirectory => r matches Err(e) && e@
                    == "cannot determine config directory"@,
                ConfigFile::Missing => r matches Ok(c) && c.contact_email is None,
                ConfigFile::Unreadable(why) => r == Err::<Config, String>(why),
                ConfigFile::Malformed(why) => r == Err::<Config, String>(why),
                ConfigFile::Parsed(c) => r == Ok::<Config, String>(c),
            },
    {
        match file {
            ConfigFile::NoDirectory => Err(owned("cannot determine config directory")),
            ConfigFile::Missing => Ok(Config::default()),
            ConfigFile::Unreadable(why) => Err(why),
            ConfigFile::Malformed(why) => Err(why),
            ConfigFile::Parsed(c) => Ok(c),
        }
    }

    /// The configuration to start with: what the file holds, or the default
    /// where that cannot be had.
    pub fn load(file: ConfigFile) -> (r: Config)
        ensures
            match file {
                ConfigFile::Parsed(c) => r == c,
                _ => r.contact_email is None,
            },
    {
        match Config::try_load(file) {
            Ok(c) => c,
            Err(_) => Config::default(),
        }
    }
}

/// The state of the server: its configuration, and the client that was built
/// for the contact address.
pub struct State<C> {
    config: Config,
    client: Option<C>,
}

impl<C> State<C> {
    /// The contact address on file.
    pub closed spec fn email(&self) -> Option<Seq<char>> {
        string_view(self.config.contact_email)
    }

    /// The client, where one was built.
    pub closed spec fn connection(&self) -> Option<C> {
        self.client
    }

    /// There is a client only for a contact address.
    #[verifier::type_invariant]
    spec fn client_has_address(self) -> bool {
        self.client is Some ==> self.config.contact_email is Some
    }

    /// The state at the start. `built` is the client for the configuration's
    /// contact address, where it has one and the client could be built.
    pub fn new(config: Config, built: Option<C>) -> (r: State<C>)
        ensures
            r.email() == string_view(config.contact_email),
            r.connection() == if config.contact_email is Some {
                built
            } else {
                None
            },
    {
        match config.contact_email {
            Some(_) => State { config, client: built },
            None => State { config, client: None },
        }
    }

    /// The configuration, as it goes to disk.
    pub fn config(&self) -> (r: &Config)
        ensures
            string_view(r.contact_email) == self.email(),
    {
        &self.config
    }

    /// Whether a contact address is on file.
    pub fn is_configured(&self) -> (r: bool)
        ensures
            r == (self.email() is Some),
    {
        self.config.contact_email.is_some()
    }

    /// Takes a new contact address, with the client that was built for it.
    /// Nothing changes where that client could not be built.
    pub fn set_email(&mut self, email: String, built: Result<C, String>) -> (r: Result<(), String>)
        ensures
            match built {
                Ok(client) => r is Ok && final(self).email() == Some(email@)
                    && final(self).connection() == Some(client),
                Err(why) => r == Err::<(), String>(why) && *final(self) == *old(self),
            },
    {
        match built {
            Ok(client) => {
                *self = State {
                    config: Config { contact_email: Some(email) },
                    client: Some(client),
                };
                Ok(())
            },
            Err(why) => Err(why),
        }
    }

    /// Takes a new contact address, with the client that was built for it, and
    /// gives out the configuration that is to be written. Nothing changes and
    /// nothing is to be written where that client could not be built.
    pub fn to_write(&mut self, email: String, built: Result<C, String>) -> (r: Result<
        &Config,
        String,
    >)
        ensures
            match built {
                Ok(client) => r matches Ok(config) && string_view(config.contact_email) == Some(
                    email@,
                ) && final(self).email() == Some(email@) && final(self).connection() == Some(
                    client,
                ),
                Err(why) => r == Err::<&Config, String>(why) && *final(self) == *old(self),
            },
    {
        match self.set_email(email, built) {
            Ok(_) => Ok(&self.config),
            Err(why) => Err(why),
        }
    }

    /// The client, or why there is none. There is one only where a contact
    /// address is on file.
    pub fn client(&self) -> (r: Result<&C, String>)
        ensures
            r is Ok ==> self.email() is Some,
            match self.connection() {
                Some(client) => r matches Ok(c) && *c == client,
                None => r matches Err(e) && e@ == not_configured(),
            },
    {
        proof {
            use_type_invariant(self);
        }
        match &self.client {
            Some(client) => Ok(client),
            None => Err(not_configured_text()),
        }
    }
}

/// What a tool answers while there is no client.
pub open spec fn not_configured() -> Seq<char> {
    "SEC EDGAR contact email not configured. Please call the sec_configure tool first."@
}

/// What a tool answers while there is no client.
pub fn not_configured_text() -> (r: String)
    ensures
        r@ == not_configured(),
{
    owned("SEC EDGAR contact email not configured. Please call the sec_configure tool first.")
}

} // verus!
