//! Shared configuration store: server-wide mutable settings read by every
//! session, replaced in place on reload.

use vstd::prelude::*;
use std::collections::HashMap;
use rand::Rng;
use crate::text::concat_strs;

verus! {

broadcast use vstd::std_specs::hash::group_hash_axioms;

/// Extra display/privilege metadata granted to an account by configuration.
pub struct SpecialUser {
    pub name: String,
    pub color: String,
}

impl Clone for SpecialUser {
    fn clone(&self) -> (res: Self)
        ensures
            res == *self,
    {
        SpecialUser { name: self.name.clone(), color: self.color.clone() }
    }
}

/// Server-wide configuration. A single instance is shared by all sessions;
/// handlers copy out the fields they need. Reload replaces the contents in
/// place without invalidating existing sessions.
pub struct ServerConfig {
    pub web_mountpoint: String,
    pub web_address: String,
    pub gd_api: String,
    pub special_users: HashMap<i32, SpecialUser>,
    /// When set, every login attempt is rejected with a maintenance message.
    pub maintenance: bool,
    /// Simulation tick rate communicated to clients on successful login.
    pub tps: u32,
    // security
    pub secret_key: String,
    pub game_server_password: String,
    pub challenge_expiry: u32,
    pub challenge_level: i32,
    pub token_expiry: u64,
}

pub fn default_web_mountpoint() -> (r: String)
    ensures
        r@ == "/"@,
{
    "/".to_owned()
}

pub fn default_web_address() -> (r: String)
    ensures
        r@ == "0.0.0.0:41000"@,
{
    "0.0.0.0:41000".to_owned()
}

pub fn default_gdapi() -> (r: String)
    ensures
        r@ == "http://www.boomlings.com/database/getGJComments21.php"@,
{
    "http://www.boomlings.com/database/getGJComments21.php".to_owned()
}

pub fn default_special_users() -> (r: HashMap<i32, SpecialUser>)
    ensures
        r@ == Map::<i32, SpecialUser>::empty(),
{
    HashMap::new()
}

/// Relies on rand's `Alphanumeric` distribution: a sample of `n` characters,
/// each an ASCII letter or digit.
#[verifier::external_body]
fn random_alphanumeric(n: usize) -> (r: String)
    ensures
        r@.len() == n,
        forall|i: int| 0 <= i < r@.len() ==> is_alphanumeric_char(#[trigger] r@[i]),
{
    rand::thread_rng().sample_iter(&rand::distributions::Alphanumeric).take(n).map(
        char::from,
    ).collect()
}

/// `c` is an ASCII letter or digit.
pub open spec fn is_alphanumeric_char(c: char) -> bool {
    ||| 48 <= c as int && c as int <= 57
    ||| 65 <= c as int && c as int <= 90
    ||| 97 <= c as int && c as int <= 122
}

/// A freshly generated secret: a fixed warning prefix followed by 32 random
/// alphanumeric characters.
pub fn default_secret_key() -> (r: String)
    ensures
        r@.len() == "Change-Me-Please-Insecure-"@.len() + 32,
        r@.take("Change-Me-Please-Insecure-"@.len() as int) == "Change-Me-Please-Insecure-"@,
        forall|i: int|
            "Change-Me-Please-Insecure-"@.len() <= i < r@.len() ==> is_alphanumeric_char(
                #[trigger] r@[i],
            ),
{
    let prefix = "Change-Me-Please-Insecure-";
    let suffix = random_alphanumeric(32);
    let r = concat_strs(prefix, suffix.as_str());
    proof {
        assert(r@.take(prefix@.len() as int) =~= prefix@);
    }
    r
}

pub fn default_challenge_expiry() -> (r: u32)
    ensures
        r == 60,
{
    60u32
}

pub fn default_challenge_level() -> (r: i32)
    ensures
        r == 1,
{
    1
}

pub fn default_token_expiry() -> (r: u64)
    ensures
        r == 60 * 30,
{
    60 * 30
}

// special user defaults

pub fn default_su_color() -> (r: String)
    ensures
        r@ == "#ffffff"@,
{
    "#ffffff".to_owned()
}

pub fn default_maintenance() -> (r: bool)
    ensures
        r == false,
{
    false
}

pub fn default_tps() -> (r: u32)
    ensures
        r == 30,
{
    30u32
}

impl ServerConfig {
    /// The two stores hold the same settings, compared observationally: the
    /// special-user table is compared as the map it represents.
    pub open spec fn equiv(&self, other: &ServerConfig) -> bool {
        &&& self.web_mountpoint == other.web_mountpoint
        &&& self.web_address == other.web_address
        &&& self.gd_api == other.gd_api
        &&& self.special_users@ == other.special_users@
        &&& self.maintenance == other.maintenance
        &&& self.tps == other.tps
        &&& self.secret_key == other.secret_key
        &&& self.game_server_password == other.game_server_password
        &&& self.challenge_expiry == other.challenge_expiry
        &&& self.challenge_level == other.challenge_level
        &&& self.token_expiry == other.token_expiry
    }
}

impl Clone for ServerConfig {
    fn clone(&self) -> (res: Self)
        ensures
            res.equiv(self),
    {
        ServerConfig {
            web_mountpoint: self.web_mountpoint.clone(),
            web_address: self.web_address.clone(),
            gd_api: self.gd_api.clone(),
            special_users: self.special_users.clone(),
            maintenance: self.maintenance,
            tps: self.tps,
            secret_key: self.secret_key.clone(),
            game_server_password: self.game_server_password.clone(),
            challenge_expiry: self.challenge_expiry,
            challenge_level: self.challenge_level,
            token_expiry: self.token_expiry,
        }
    }
}

impl ServerConfig {
    /// Replace the contents of the store with freshly loaded settings; the
    /// store itself (and every session reading it) stays alive.
    pub fn reload_in_place(&mut self, source: &ServerConfig)
        ensures
            final(self).equiv(source),
    {
        let conf = source.clone();
        *self = conf;
    }

    /// The configuration used when no settings were supplied.
    pub fn make_default() -> (r: Self)
        ensures
            r.web_mountpoint@ == "/"@,
            r.web_address@ == "0.0.0.0:41000"@,
            r.gd_api@ == "http://www.boomlings.com/database/getGJComments21.php"@,
            r.special_users@ == Map::<i32, SpecialUser>::empty(),
            r.maintenance == false,
            r.tps == 30,
            r.challenge_expiry == 60,
            r.challenge_level == 1,
            r.token_expiry == 1800,
            r.secret_key@.take("Change-Me-Please-Insecure-"@.len() as int)
                == "Change-Me-Please-Insecure-"@,
            r.game_server_password@.take("Change-Me-Please-Insecure-"@.len() as int)
                == "Change-Me-Please-Insecure-"@,
    {
        Self {
            web_mountpoint: default_web_mountpoint(),
            web_address: default_web_address(),
            gd_api: default_gdapi(),
            special_users: default_special_users(),
            maintenance: default_maintenance(),
            tps: default_tps(),
            secret_key: default_secret_key(),
            game_server_password: default_secret_key(),
            challenge_expiry: default_challenge_expiry(),
            challenge_level: default_challenge_level(),
            token_expiry: default_token_expiry(),
        }
    }
}

/// Reloading the store twice from identical input leaves it exactly as one
/// reload does: `reload_in_place` pins the store to its source, so the second
/// reload changes nothing observable.
pub proof fn lemma_reload_twice_unchanged(
    source: ServerConfig,
    after_one: ServerConfig,
    after_two: ServerConfig,
)
    requires
        after_one.equiv(&source),
        after_two.equiv(&source),
    ensures
        after_two.equiv(&after_one),
{
}

} // verus!
