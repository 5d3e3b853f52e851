//! Connection definitions for the databases the backups run against.

use vstd::prelude::*;
use vstd::string::StringExecFns;
use crate::text::{spec_decimal, u64_to_string};

verus! {

/// Whether a configuration's connection has been probed, and how it went.
#[derive(Clone, Copy, Debug, PartialEq, Eq, Structural)]
pub enum ConnectionStatus {
    Untested,
    Success,
    Failed,
}

/// The persisted label of a connection status.
pub open spec fn spec_connection_status_label(s: ConnectionStatus) -> Seq<char> {
    match s {
        ConnectionStatus::Untested => "untested"@,
        ConnectionStatus::Success => "success"@,
        ConnectionStatus::Failed => "failed"@,
    }
}

impl ConnectionStatus {
    pub fn label(&self) -> (s: String)
        ensures
            s@ == spec_connection_status_label(*self),
    {
        match self {
            ConnectionStatus::Untested => "untested".to_owned(),
            ConnectionStatus::Success => "success".to_owned(),
            ConnectionStatus::Failed => "failed".to_owned(),
        }
    }
}

/// A target database server, with an optional default database name.
#[derive(Debug, Clone)]
pub struct DatabaseConfig {
    pub id: String,
    pub name: String,
    pub host: String,
    pub port: u16,
    pub username: String,
    pub password: String,
    /// Empty for connection-only configurations.
    pub database_name: String,
    pub connection_status: ConnectionStatus,
    pub last_tested: Option<u64>,
    pub created_at: u64,
    pub updated_at: u64,
}

pub struct CreateDatabaseConfigRequest {
    pub name: String,
    pub host: String,
    pub port: Option<u16>,
    pub username: String,
    pub password: String,
    pub database_name: Option<String>,
}

pub struct UpdateDatabaseConfigRequest {
    pub name: Option<String>,
    pub host: Option<String>,
    pub port: Option<u16>,
    pub username: Option<String>,
    pub password: Option<String>,
    pub database_name: Option<String>,
}

/// The MySQL connection URL for a user, password, host, port and an
/// optional database path segment.
pub open spec fn spec_connection_string(
    username: Seq<char>,
    password: Seq<char>,
    host: Seq<char>,
    port: u16,
    database: Option<Seq<char>>,
) -> Seq<char> {
    let base = "mysql://"@ + username + ":"@ + password + "@"@ + host + ":"@ + spec_decimal(
        port as nat,
    );
    match database {
        Some(db) => base + "/"@ + db,
        None => base,
    }
}

impl DatabaseConfig {
    /// A fresh configuration under a newly drawn identifier, untested,
    /// with port 3306 and an empty database name unless given.
    pub fn new(req: CreateDatabaseConfigRequest, now: u64) -> (c: DatabaseConfig)
        ensures
            c.id@.len() == 36,
            c.name == req.name,
            c.host == req.host,
            c.port == (match req.port {
                Some(p) => p,
                None => 3306u16,
            }),
            c.username == req.username,
            c.password == req.password,
            c.database_name@ == (match req.database_name {
                Some(d) => d@,
                None => Seq::<char>::empty(),
            }),
            c.connection_status == ConnectionStatus::Untested,
            c.last_tested is None,
            c.created_at == now,
            c.updated_at == now,
    {
        let port = match req.port {
            Some(p) => p,
            None => 3306,
        };
        let database_name = match req.database_name {
            Some(d) => d,
            None => String::new(),
        };
        DatabaseConfig {
            id: crate::foreign::new_uuid_string(),
            name: req.name,
            host: req.host,
            port,
            username: req.username,
            password: req.password,
            database_name,
            connection_status: ConnectionStatus::Untested,
            last_tested: None,
            created_at: now,
            updated_at: now,
        }
    }

    /// Applies the present fields of an update request; any change resets
    /// the connection status to untested.
    pub fn update(&mut self, req: UpdateDatabaseConfigRequest, now: u64)
        ensures
            final (self).name == (match req.name {
                Some(n) => n,
                None => old(self).name,
            }),
            final (self).host == (match req.host {
                Some(h) => h,
                None => old(self).host,
            }),
            final (self).port == (match req.port {
                Some(p) => p,
                None => old(self).port,
            }),
            final (self).username == (match req.username {
                Some(u) => u,
                None => old(self).username,
            }),
            final (self).password == (match req.password {
                Some(p) => p,
                None => old(self).password,
            }),
            final (self).database_name == (match req.database_name {
                Some(d) => d,
                None => old(self).database_name,
            }),
            final (self).connection_status == ConnectionStatus::Untested,
            final (self).last_tested is None,
            final (self).updated_at == now,
            final (self).id == old(self).id,
            final (self).created_at == old(self).created_at,
    {
        if let Some(name) = req.name {
            self.name = name;
        }
        if let Some(host) = req.host {
            self.host = host;
        }
        if let Some(port) = req.port {
            self.port = port;
        }
        if let Some(username) = req.username {
            self.username = username;
        }
        if let Some(password) = req.password {
            self.password = password;
        }
        if let Some(database_name) = req.database_name {
            self.database_name = database_name;
        }
        self.connection_status = ConnectionStatus::Untested;
        self.last_tested = None;
        self.updated_at = now;
    }

    /// Records the outcome of a connection probe.
    pub fn mark_connection_tested(&mut self, success: bool, now: u64)
        ensures
            final (self).connection_status == (if success {
                ConnectionStatus::Success
            } else {
                ConnectionStatus::Failed
            }),
            final (self).last_tested == Some(now),
            final (self).updated_at == now,
            final (self).id == old(self).id,
            final (self).name == old(self).name,
            final (self).host == old(self).host,
            final (self).port == old(self).port,
            final (self).username == old(self).username,
            final (self).password == old(self).password,
            final (self).database_name == old(self).database_name,
            final (self).created_at == old(self).created_at,
    {
        self.connection_status = if success {
            ConnectionStatus::Success
        } else {
            ConnectionStatus::Failed
        };
        self.last_tested = Some(now);
        self.updated_at = now;
    }

    /// The connection URL, with the default database appended when one
    /// is configured.
    pub fn connection_string(&self) -> (r: String)
        ensures
            r@ == spec_connection_string(
                self.username@,
                self.password@,
                self.host@,
                self.port,
                if self.database_name@.len() == 0 {
                    None
                } else {
                    Some(self.database_name@)
                },
            ),
    {
        let base = self.connection_base();
        if self.database_name.as_str().is_empty() {
            base
        } else {
            base.concat("/").concat(self.database_name.as_str())
        }
    }

    /// The connection URL against an explicitly chosen database.
    pub fn connection_string_with_db(&self, db_name: &str) -> (r: String)
        ensures
            r@ == spec_connection_string(
                self.username@,
                self.password@,
                self.host@,
                self.port,
                Some(db_name@),
            ),
    {
        self.connection_base().concat("/").concat(db_name)
    }

    fn connection_base(&self) -> (r: String)
        ensures
            r@ == spec_connection_string(
                self.username@,
                self.password@,
                self.host@,
                self.port,
                None,
            ),
    {
        let port = u64_to_string(self.port as u64);
        "mysql://"
            .to_owned()
            .concat(self.username.as_str())
            .concat(":")
            .concat(self.password.as_str())
            .concat("@")
            .concat(self.host.as_str())
            .concat(":")
            .concat(port.as_str())
    }

    /// The configuration's default database, or nothing when it is
    /// connection-only.
    pub fn get_database_name(&self) -> (r: Option<&String>)
        ensures
            match r {
                Some(d) => self.database_name@.len() > 0 && d == &self.database_name,
                None => self.database_name@.len() == 0,
            },
    {
        if self.database_name.as_str().is_empty() {
            None
        } else {
            Some(&self.database_name)
        }
    }
}

} // verus!
