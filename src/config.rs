//! Process configuration, read from a list of environment variables.

use vstd::prelude::*;

use crate::text::same_text;

verus! {

/// Settings the bot needs at start-up. Built once and passed on by reference.
#[derive(Debug, Clone)]
pub struct Config {
    pub bot_token: String,
    pub config_file: String,
    pub data_dir: String,
    pub database_url: Option<String>,
    pub admin_token: String,
    pub directus_url: String,
    pub directus_token: String,
}

/// What `Config` holds, as character sequences.
pub struct ConfigModel {
    pub bot_token: Seq<char>,
    pub config_file: Seq<char>,
    pub data_dir: Seq<char>,
    pub database_url: Option<Seq<char>>,
    pub admin_token: Seq<char>,
    pub directus_url: Seq<char>,
    pub directus_token: Seq<char>,
}

/// Why a configuration could not be built.
#[derive(Debug, Clone)]
pub enum ConfigError {
    /// A required variable, named here, is not set.
    MissingVariable(String),
}

pub open spec fn opt_view(o: Option<String>) -> Option<Seq<char>> {
    match o {
        Some(s) => Some(s@),
        None => None,
    }
}

pub open spec fn vars_view(v: Seq<(String, String)>) -> Seq<(Seq<char>, Seq<char>)> {
    v.map_values(|p: (String, String)| (p.0@, p.1@))
}

/// `i` is the first position of a variable named `key`.
pub open spec fn first_key_at(vars: Seq<(Seq<char>, Seq<char>)>, key: Seq<char>, i: int) -> bool {
    &&& 0 <= i < vars.len()
    &&& vars[i].0 == key
    &&& forall|j: int| 0 <= j < i ==> vars[j].0 != key
}

/// The value of the first variable named `key`, if any.
pub open spec fn lookup(vars: Seq<(Seq<char>, Seq<char>)>, key: Seq<char>) -> Option<Seq<char>> {
    if exists|i: int| 0 <= i < vars.len() && vars[i].0 == key {
        Some(vars[choose|i: int| first_key_at(vars, key, i)].1)
    } else {
        None
    }
}

proof fn lemma_lookup_at(vars: Seq<(Seq<char>, Seq<char>)>, key: Seq<char>, i: int)
    requires
        first_key_at(vars, key, i),
    ensures
        lookup(vars, key) == Some(vars[i].1),
{
    let k = choose|k: int| first_key_at(vars, key, k);
    assert(first_key_at(vars, key, k));
    if k < i {
        assert(vars[k].0 != key);
    } else if i < k {
        assert(vars[i].0 != key);
    }
}

impl Config {
    pub open spec fn view(&self) -> ConfigModel {
        ConfigModel {
            bot_token: self.bot_token@,
            config_file: self.config_file@,
            data_dir: self.data_dir@,
            database_url: opt_view(self.database_url),
            admin_token: self.admin_token@,
            directus_url: self.directus_url@,
            directus_token: self.directus_token@,
        }
    }

    /// Where the database lives: the configured URL, or a file under the data directory.
    pub open spec fn database_location_spec(&self) -> Seq<char> {
        match self.database_url {
            Some(u) => u@,
            None => "sqlite://"@ + self.data_dir@ + "/db.sqlite"@,
        }
    }

    pub fn database_location(&self) -> (r: String)
        ensures
            r@ == self.database_location_spec(),
    {
        match &self.database_url {
            Some(u) => u.clone(),
            None => {
                let mut s = String::from_str("sqlite://");
                s.append(self.data_dir.as_str());
                s.append("/db.sqlite");
                s
            },
        }
    }
}


/// The configuration that a set of variables gives, or the first required variable that is missing.
pub open spec fn config_from(vars: Seq<(Seq<char>, Seq<char>)>) -> Result<ConfigModel, Seq<char>> {
    if lookup(vars, "BOT_TOKEN"@) is None {
        Err("BOT_TOKEN"@)
    } else if lookup(vars, "CONFIG_FILE"@) is None {
        Err("CONFIG_FILE"@)
    } else if lookup(vars, "DATA_DIR"@) is None {
        Err("DATA_DIR"@)
    } else if lookup(vars, "ADMIN_TOKEN"@) is None {
        Err("ADMIN_TOKEN"@)
    } else if lookup(vars, "DIRECTUS_URL"@) is None {
        Err("DIRECTUS_URL"@)
    } else if lookup(vars, "DIRECTUS_TOKEN"@) is None {
        Err("DIRECTUS_TOKEN"@)
    } else {
        Ok(
            ConfigModel {
                bot_token: lookup(vars, "BOT_TOKEN"@).unwrap(),
                config_file: lookup(vars, "CONFIG_FILE"@).unwrap(),
                data_dir: lookup(vars, "DATA_DIR"@).unwrap(),
                database_url: lookup(vars, "DATABASE_URL"@),
                admin_token: lookup(vars, "ADMIN_TOKEN"@).unwrap(),
                directus_url: lookup(vars, "DIRECTUS_URL"@).unwrap(),
                directus_token: lookup(vars, "DIRECTUS_TOKEN"@).unwrap(),
            },
        )
    }
}

pub open spec fn config_result_view(r: Result<Config, ConfigError>) -> Result<ConfigModel, Seq<char>> {
    match r {
        Ok(c) => Ok(c.view()),
        Err(ConfigError::MissingVariable(n)) => Err(n@),
    }
}

/// The value of the first variable named `name`.
pub fn find_var(vars: &Vec<(String, String)>, name: &str) -> (r: Option<String>)
    ensures
        opt_view(r) == lookup(vars_view(vars@), name@),
{
    let ghost v = vars_view(vars@);
    let mut i: usize = 0;
    while i < vars.len()
        invariant
            i <= vars@.len(),
            v == vars_view(vars@),
            forall|j: int| 0 <= j < i ==> v[j].0 != name@,
        decreases vars@.len() - i,
    {
        if same_text(vars[i].0.as_str(), name) {
            proof { lemma_lookup_at(v, name@, i as int); }
            return Some(vars[i].1.clone());
        }
        i = i + 1;
    }
    assert(!(exists|k: int| 0 <= k < v.len() && v[k].0 == name@));
    None
}

/// Builds the configuration from environment variables given as (name, value) pairs.
pub fn config(vars: &Vec<(String, String)>) -> (r: Result<Config, ConfigError>)
    ensures
        config_result_view(r) == config_from(vars_view(vars@)),
{
    let bot_token = match find_var(vars, "BOT_TOKEN") {
        Some(s) => s,
        None => return Err(ConfigError::MissingVariable(String::from_str("BOT_TOKEN"))),
    };
    let config_file = match find_var(vars, "CONFIG_FILE") {
        Some(s) => s,
        None => return Err(ConfigError::MissingVariable(String::from_str("CONFIG_FILE"))),
    };
    let data_dir = match find_var(vars, "DATA_DIR") {
        Some(s) => s,
        None => return Err(ConfigError::MissingVariable(String::from_str("DATA_DIR"))),
    };
    let admin_token = match find_var(vars, "ADMIN_TOKEN") {
        Some(s) => s,
        None => return Err(ConfigError::MissingVariable(String::from_str("ADMIN_TOKEN"))),
    };
    let directus_url = match find_var(vars, "DIRECTUS_URL") {
        Some(s) => s,
        None => return Err(ConfigError::MissingVariable(String::from_str("DIRECTUS_URL"))),
    };
    let directus_token = match find_var(vars, "DIRECTUS_TOKEN") {
        Some(s) => s,
        None => return Err(ConfigError::MissingVariable(String::from_str("DIRECTUS_TOKEN"))),
    };
    let database_url = find_var(vars, "DATABASE_URL");
    Ok(Config { bot_token, config_file, data_dir, database_url, admin_token, directus_url, directus_token })
}

} // verus!
