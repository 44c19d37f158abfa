use vstd::prelude::*;

use std::collections::HashMap;

use crate::crypto::{is_alnum, random_alphanumeric};
pub use crate::policy::UserlistMode;
use vstd::string::StringExecFns;
use vstd::utf8::encode_utf8;

verus! {

broadcast use vstd::std_specs::hash::group_hash_axioms;

/// Largest accepted length of the admin key, in bytes.
pub const ADMIN_KEY_LENGTH: usize = 16;

/// A relay advertised to clients.
#[derive(Clone, Debug)]
pub struct GameServerEntry {
    pub id: String,
    pub name: String,
    pub address: String,
    pub region: String,
}

/// How a user is shown in the game's interface.
#[derive(Clone, Debug)]
pub struct SpecialUser {
    pub name: String,
    pub color: String,
}

/// Settings of the central service.
#[derive(Clone)]
pub struct ServerConfig {
    pub web_mountpoint: String,
    pub web_address: String,
    pub game_servers: Vec<GameServerEntry>,
    pub maintenance: bool,
    pub status_print_interval: u64,
    pub special_users: HashMap<i32, SpecialUser>,
    pub userlist_mode: UserlistMode,
    pub userlist: Vec<i32>,
    pub no_chat_list: Vec<i32>,
    pub tps: u32,
    pub admin_key: String,
    pub use_gd_api: bool,
    pub gd_api: String,
    pub gd_api_ratelimit: usize,
    pub gd_api_period: u64,
    pub secret_key: String,
    pub secret_key2: String,
    pub game_server_password: String,
    pub cloudflare_protection: bool,
    pub challenge_expiry: u32,
    pub challenge_level: i32,
    pub challenge_ratelimit: u64,
    pub token_expiry: u64,
}

/// Why a configuration was refused.
#[derive(PartialEq, Eq, Structural, Debug, Clone, Copy)]
pub enum ConfigError {
    /// The admin key is longer than `ADMIN_KEY_LENGTH` bytes.
    AdminKeyTooLong,
}

pub fn default_web_mountpoint() -> (r: String)
    ensures
        r@ == "/"@,
{
    String::from_str("/")
}

pub fn default_web_address() -> (r: String)
    ensures
        r@ == "0.0.0.0:41000"@,
{
    String::from_str("0.0.0.0:41000")
}

/// A random admin key of the largest accepted length.
pub fn default_admin_key() -> (r: String)
    ensures
        r@.len() == ADMIN_KEY_LENGTH,
        forall|i: int| 0 <= i < r@.len() ==> is_alnum(#[trigger] r@[i]),
{
    random_alphanumeric(ADMIN_KEY_LENGTH)
}

pub fn default_use_gd_api() -> (r: bool)
    ensures
        !r,
{
    false
}

pub fn default_gdapi() -> (r: String)
    ensures
        r@ == "http://www.boomlings.com/database/getGJComments21.php"@,
{
    String::from_str("http://www.boomlings.com/database/getGJComments21.php")
}

pub fn default_gdapi_ratelimit() -> (r: usize)
    ensures
        r == 5,
{
    5
}

pub fn default_gdapi_period() -> (r: u64)
    ensures
        r == 5,
{
    5
}

/// One example relay entry.
pub fn default_game_servers() -> (r: Vec<GameServerEntry>)
    ensures
        r@.len() == 1,
        r@[0].id@ == "example-server-you-can-delete-it"@,
        r@[0].name@ == "Server name"@,
        r@[0].address@ == "127.0.0.0:41001"@,
        r@[0].region@ == "the nether"@,
{
    let entry = GameServerEntry {
        id: String::from_str("example-server-you-can-delete-it"),
        name: String::from_str("Server name"),
        address: String::from_str("127.0.0.0:41001"),
        region: String::from_str("the nether"),
    };
    let mut v: Vec<GameServerEntry> = Vec::new();
    v.push(entry);
    v
}

pub fn default_maintenance() -> (r: bool)
    ensures
        !r,
{
    false
}

pub fn default_status_print_interval() -> (r: u64)
    ensures
        r == 7200,
{
    7200
}

/// The game's creator, shown in their colour.
pub fn default_special_users() -> (r: HashMap<i32, SpecialUser>)
    ensures
        r@.dom() == set![71i32],
        r@[71i32].name@ == "RobTop"@,
        r@[71i32].color@ == "#ffaabb"@,
{
    let mut map: HashMap<i32, SpecialUser> = HashMap::new();
    map.insert(
        71,
        SpecialUser { name: String::from_str("RobTop"), color: String::from_str("#ffaabb") },
    );
    proof {
        assert(map@.dom() =~= set![71i32]);
    }
    map
}

pub fn default_userlist_mode() -> (r: UserlistMode)
    ensures
        r == UserlistMode::Disabled,
{
    UserlistMode::Disabled
}

pub fn default_userlist() -> (r: Vec<i32>)
    ensures
        r@.len() == 0,
{
    Vec::new()
}

pub fn default_tps() -> (r: u32)
    ensures
        r == 30,
{
    30
}

/// `s` is `Insecure-` followed by 32 ASCII letters and digits.
pub open spec fn is_default_secret(s: Seq<char>) -> bool {
    &&& s.len() == 41
    &&& s.take(9) == "Insecure-"@
    &&& forall|i: int| 9 <= i < 41 ==> is_alnum(#[trigger] s[i])
}

/// A random secret, marked as one that nobody chose.
pub fn default_secret_key() -> (r: String)
    ensures
        is_default_secret(r@),
{
    let rand_string = random_alphanumeric(32);
    let mut out = String::from_str("Insecure-");
    out.append(rand_string.as_str());
    proof {
        reveal_strlit("Insecure-");
        assert(out@.take(9) =~= "Insecure-"@);
        assert forall|i: int| 9 <= i < 41 implies is_alnum(#[trigger] out@[i]) by {
            assert(out@[i] == rand_string@[i - 9]);
        }
    }
    out
}

pub fn default_challenge_expiry() -> (r: u32)
    ensures
        r == 30,
{
    30
}

pub fn default_challenge_level() -> (r: i32)
    ensures
        r == 1,
{
    1
}

pub fn default_challenge_ratelimit() -> (r: u64)
    ensures
        r == 60,
{
    60
}

pub fn default_cloudflare_protection() -> (r: bool)
    ensures
        !r,
{
    false
}

pub fn default_token_expiry() -> (r: u64)
    ensures
        r == 86400,
{
    60 * 60 * 24
}

/// The admin key is at most `ADMIN_KEY_LENGTH` bytes long.
pub open spec fn admin_key_fits(key: Seq<char>) -> bool {
    encode_utf8(key).len() <= ADMIN_KEY_LENGTH
}

impl ServerConfig {
    /// The configuration in which every option has its default value.
    pub fn defaults() -> (r: ServerConfig)
        ensures
            r.web_mountpoint@ == "/"@,
            r.web_address@ == "0.0.0.0:41000"@,
            r.game_servers@.len() == 1,
            !r.maintenance,
            r.status_print_interval == 7200,
            r.special_users@.dom() == set![71i32],
            r.userlist_mode == UserlistMode::Disabled,
            r.userlist@.len() == 0,
            r.no_chat_list@.len() == 0,
            r.tps == 30,
            r.admin_key@.len() == ADMIN_KEY_LENGTH,
            !r.use_gd_api,
            r.gd_api@ == "http://www.boomlings.com/database/getGJComments21.php"@,
            r.gd_api_ratelimit == 5,
            r.gd_api_period == 5,
            is_default_secret(r.secret_key@),
            is_default_secret(r.secret_key2@),
            is_default_secret(r.game_server_password@),
            !r.cloudflare_protection,
            r.challenge_expiry == 30,
            r.challenge_level == 1,
            r.challenge_ratelimit == 60,
            r.token_expiry == 86400,
    {
        ServerConfig {
            web_mountpoint: default_web_mountpoint(),
            web_address: default_web_address(),
            game_servers: default_game_servers(),
            maintenance: default_maintenance(),
            status_print_interval: default_status_print_interval(),
            special_users: default_special_users(),
            userlist_mode: default_userlist_mode(),
            userlist: default_userlist(),
            no_chat_list: default_userlist(),
            tps: default_tps(),
            admin_key: default_admin_key(),
            use_gd_api: default_use_gd_api(),
            gd_api: default_gdapi(),
            gd_api_ratelimit: default_gdapi_ratelimit(),
            gd_api_period: default_gdapi_period(),
            secret_key: default_secret_key(),
            secret_key2: default_secret_key(),
            game_server_password: default_secret_key(),
            cloudflare_protection: default_cloudflare_protection(),
            challenge_expiry: default_challenge_expiry(),
            challenge_level: default_challenge_level(),
            challenge_ratelimit: default_challenge_ratelimit(),
            token_expiry: default_token_expiry(),
        }
    }

    /// Whether the admin key fits its length limit.
    pub fn admin_key_valid(&self) -> (r: bool)
        ensures
            r == admin_key_fits(self.admin_key@),
    {
        self.admin_key.as_str().as_bytes().len() <= ADMIN_KEY_LENGTH
    }

    /// Replaces this configuration by a freshly loaded one, if that one is valid.
    pub fn reload_in_place(&mut self, conf: ServerConfig) -> (r: Result<(), ConfigError>)
        ensures
            !admin_key_fits(conf.admin_key@) ==> r == Err::<(), ConfigError>(
                ConfigError::AdminKeyTooLong,
            ) && *final(self) == *old(self),
            admin_key_fits(conf.admin_key@) ==> r is Ok && *final(self)
                == conf,
    {
        if conf.admin_key.as_str().as_bytes().len() > ADMIN_KEY_LENGTH {
            return Err(ConfigError::AdminKeyTooLong);
        }
        *self = conf;
        Ok(())
    }
}

} // verus!
