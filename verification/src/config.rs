//! Application settings and the list of assistant endpoint configurations.
//!
//! Reading and writing the settings file is done by the application, which
//! converts between the file format and these types.
use vstd::prelude::*;
use crate::text::{chars_of, ends_with_chars, str_eq, spec_ends_with};
use crate::crypto::{CryptoError, CryptoManager, Unsealed, spec_is_sealed, spec_unseal};

verus! {

pub open spec fn app_name() -> Seq<char> {
    "RustRssReader"@
}

/// The name under which the application stores its data.
pub fn app_name_string() -> (s: String)
    ensures
        s@ == app_name(),
{
    String::from_str("RustRssReader")
}

/// A fresh random identifier (`uuid::Uuid::new_v4`, hyphenated).
///
/// The identifier is random; its hyphenated form has 36 characters.
#[verifier::external_body]
fn new_uuid() -> (s: String)
    ensures
        s@.len() == 36,
{
    uuid::Uuid::new_v4().to_string()
}

/// One assistant endpoint configuration.
#[derive(Debug)]
pub struct AIConfig {
    pub id: String,
    pub name: String,
    pub api_url: String,
    pub api_key: String,
    pub api_key_encrypted: bool,
    pub model_name: String,
}

impl Clone for AIConfig {
    fn clone(&self) -> (r: Self)
        ensures
            r == *self,
    {
        AIConfig {
            id: self.id.clone(),
            name: self.name.clone(),
            api_url: self.api_url.clone(),
            api_key: self.api_key.clone(),
            api_key_encrypted: self.api_key_encrypted,
            model_name: self.model_name.clone(),
        }
    }
}

/// The application settings.
#[derive(Debug)]
pub struct AppConfig {
    pub database_path: String,
    /// light, dark or system.
    pub theme: String,
    /// Minutes between automatic refreshes.
    pub auto_refresh_interval: u32,
    pub user_agent: String,
    /// The IEEE-754 bits of the font size.
    pub font_size_bits: u32,
    pub window_width: u32,
    pub window_height: u32,
    pub show_tray_icon: bool,
    pub enable_notifications: bool,
    pub max_notifications: usize,
    pub notification_timeout_ms: u64,
    pub timezone: String,
    pub show_console: bool,
    /// index_search or direct_search.
    pub search_mode: String,
    pub enable_auto_cleanup: bool,
    pub article_retention_days: u32,
    pub max_articles_per_feed: u32,
    pub ai_configs: Vec<AIConfig>,
    pub current_ai_config_id: String,
    pub ai_api_url: String,
    pub ai_api_key: String,
    pub ai_api_key_encrypted: bool,
    pub ai_model_name: String,
}

/// The first position at or after `k` whose configuration has the given id.
pub open spec fn index_with_id(s: Seq<AIConfig>, id: Seq<char>, k: int) -> Option<int>
    decreases s.len() - k,
{
    if k < 0 || k >= s.len() {
        None
    } else if s[k].id@ == id {
        Some(k)
    } else {
        index_with_id(s, id, k + 1)
    }
}

pub open spec fn has_id(s: Seq<AIConfig>, id: Seq<char>) -> bool {
    exists|i: int| 0 <= i < s.len() && s[i].id@ == id
}

pub proof fn lemma_index_with_id(s: Seq<AIConfig>, id: Seq<char>, k: int)
    requires
        0 <= k,
    ensures
        index_with_id(s, id, k) matches Some(i) ==> k <= i < s.len() && s[i].id@ == id && forall|
            j: int,
        |
            k <= j < i ==> s[j].id@ != id,
        index_with_id(s, id, k) is None ==> forall|j: int| k <= j < s.len() ==> s[j].id@ != id,
    decreases s.len() - k,
{
    if k < s.len() && s[k].id@ != id {
        lemma_index_with_id(s, id, k + 1);
    }
}

/// The position of the first configuration with the given id.
fn find_config(configs: &[AIConfig], id: &str) -> (r: Option<usize>)
    ensures
        r matches Some(i) ==> index_with_id(configs@, id@, 0) == Some(i as int) && i
            < configs@.len() && configs@[i as int].id@ == id@,
        r is None ==> index_with_id(configs@, id@, 0) is None,
{
    let mut i: usize = 0;
    proof {
        lemma_index_with_id(configs@, id@, 0);
    }
    while i < configs.len()
        invariant
            i <= configs@.len(),
            index_with_id(configs@, id@, 0) == index_with_id(configs@, id@, i as int),
        decreases configs@.len() - i,
    {
        if str_eq(configs[i].id.as_str(), id) {
            return Some(i);
        }
        i = i + 1;
    }
    None
}

/// The same configuration with every field but the assistant list and current id.
pub open spec fn same_settings(a: AppConfig, b: AppConfig) -> bool {
    &&& a.database_path == b.database_path
    &&& a.theme == b.theme
    &&& a.auto_refresh_interval == b.auto_refresh_interval
    &&& a.user_agent == b.user_agent
    &&& a.font_size_bits == b.font_size_bits
    &&& a.window_width == b.window_width
    &&& a.window_height == b.window_height
    &&& a.show_tray_icon == b.show_tray_icon
    &&& a.enable_notifications == b.enable_notifications
    &&& a.max_notifications == b.max_notifications
    &&& a.notification_timeout_ms == b.notification_timeout_ms
    &&& a.timezone == b.timezone
    &&& a.show_console == b.show_console
    &&& a.search_mode == b.search_mode
    &&& a.enable_auto_cleanup == b.enable_auto_cleanup
    &&& a.article_retention_days == b.article_retention_days
    &&& a.max_articles_per_feed == b.max_articles_per_feed
    &&& a.ai_api_url == b.ai_api_url
    &&& a.ai_api_key == b.ai_api_key
    &&& a.ai_api_key_encrypted == b.ai_api_key_encrypted
    &&& a.ai_model_name == b.ai_model_name
}

/// The user agent sent by default.
pub open spec fn default_user_agent() -> Seq<char> {
    "Mozilla/5.0 (Windows NT 10.0; Win64; x64) AppleWebKit/537.36 (KHTML, like Gecko) Chrome/142.0.0.0 Safari/537.36"@
}

/// The assistant configuration of the defaults (keyless), whatever its id.
pub open spec fn is_default_ai_config(a: AIConfig) -> bool {
    &&& a.name@ == "SiliconFlow"@
    &&& a.api_url@ == "https://api.siliconflow.cn/v1/chat/completions"@
    &&& a.api_key@.len() == 0
    &&& !a.api_key_encrypted
    &&& a.model_name@ == "Qwen/Qwen3-8B"@
}

/// The bits of the default font size, 14.0.
pub const DEFAULT_FONT_SIZE_BITS: u32 = 0x41600000;

impl AppConfig {
    /// The default settings, with one (keyless) assistant configuration that
    /// is the current one.
    pub fn default() -> (c: Self)
        ensures
            c.database_path@ == "./feed.duckdb"@,
            c.theme@ == "system"@,
            c.auto_refresh_interval == 30,
            c.user_agent@ == default_user_agent(),
            c.font_size_bits == DEFAULT_FONT_SIZE_BITS,
            c.window_width == 1200,
            c.window_height == 800,
            !c.show_tray_icon,
            c.enable_notifications,
            c.max_notifications == 3,
            c.notification_timeout_ms == 5000,
            c.timezone@ == "UTC"@,
            c.show_console,
            c.search_mode@ == "direct_search"@,
            !c.enable_auto_cleanup,
            c.article_retention_days == 60,
            c.max_articles_per_feed == 1000,
            c.ai_configs@.len() == 1,
            is_default_ai_config(c.ai_configs@[0]),
            c.current_ai_config_id == c.ai_configs@[0].id,
            c.ai_api_url@.len() == 0,
            c.ai_api_key@.len() == 0,
            !c.ai_api_key_encrypted,
            c.ai_model_name@.len() == 0,
    {
        let default_ai_config = AIConfig {
            id: new_uuid(),
            name: String::from_str("SiliconFlow"),
            api_url: String::from_str("https://api.siliconflow.cn/v1/chat/completions"),
            api_key: String::new(),
            api_key_encrypted: false,
            model_name: String::from_str("Qwen/Qwen3-8B"),
        };
        let id = default_ai_config.id.clone();
        let mut configs: Vec<AIConfig> = Vec::new();
        configs.push(default_ai_config);
        AppConfig {
            database_path: String::from_str("./feed.duckdb"),
            theme: String::from_str("system"),
            auto_refresh_interval: 30,
            user_agent: String::from_str(
                "Mozilla/5.0 (Windows NT 10.0; Win64; x64) AppleWebKit/537.36 (KHTML, like Gecko) Chrome/142.0.0.0 Safari/537.36",
            ),
            font_size_bits: DEFAULT_FONT_SIZE_BITS,
            window_width: 1200,
            window_height: 800,
            show_tray_icon: false,
            enable_notifications: true,
            max_notifications: 3,
            notification_timeout_ms: 5000,
            timezone: String::from_str("UTC"),
            show_console: true,
            search_mode: String::from_str("direct_search"),
            enable_auto_cleanup: false,
            article_retention_days: 60,
            max_articles_per_feed: 1000,
            ai_configs: configs,
            current_ai_config_id: id,
            ai_api_url: String::new(),
            ai_api_key: String::new(),
            ai_api_key_encrypted: false,
            ai_model_name: String::new(),
        }
    }

    /// A database path naming an older file is replaced by the current one;
    /// returns whether it was replaced.
    pub fn fix_database_path(&mut self) -> (changed: bool)
        ensures
            changed == (spec_ends_with(old(self).database_path@, "feeds.db"@) || spec_ends_with(
                old(self).database_path@,
                "feed.db"@,
            )),
            changed ==> final(self).database_path@ == "./feed.duckdb"@,
            !changed ==> final(self).database_path == old(self).database_path,
            same_settings_but_path(*old(self), *final(self)),
    {
        let p = chars_of(self.database_path.as_str());
        let a = chars_of("feeds.db");
        let b = chars_of("feed.db");
        if ends_with_chars(p.as_slice(), a.as_slice()) || ends_with_chars(p.as_slice(), b.as_slice()) {
            self.database_path = String::from_str("./feed.duckdb");
            true
        } else {
            false
        }
    }

    /// The current assistant configuration: the first one with the current id.
    pub fn get_current_ai_config(&self) -> (r: Option<&AIConfig>)
        ensures
            match index_with_id(self.ai_configs@, self.current_ai_config_id@, 0) {
                Some(i) => r == Some(&self.ai_configs@[i]),
                None => r is None,
            },
    {
        match find_config(self.ai_configs.as_slice(), self.current_ai_config_id.as_str()) {
            Some(i) => Some(&self.ai_configs[i]),
            None => None,
        }
    }

    /// Adds an assistant configuration with a fresh id and a plain-text key;
    /// the first configuration added becomes the current one.
    pub fn add_ai_config(&mut self, name: &str, api_url: &str, api_key: &str, model_name: &str)
        ensures
            same_settings(*old(self), *final(self)),
            final(self).ai_configs@.len() == old(self).ai_configs@.len() + 1,
            final(self).ai_configs@.drop_last() == old(self).ai_configs@,
            final(self).ai_configs@.last().name@ == name@,
            final(self).ai_configs@.last().api_url@ == api_url@,
            final(self).ai_configs@.last().api_key@ == api_key@,
            !final(self).ai_configs@.last().api_key_encrypted,
            final(self).ai_configs@.last().model_name@ == model_name@,
            final(self).ai_configs@.last().id@.len() == 36,
            old(self).ai_configs@.len() == 0 ==> final(self).current_ai_config_id == final(self).ai_configs@.last().id,
            old(self).ai_configs@.len() != 0 ==> final(self).current_ai_config_id == old(self).current_ai_config_id,
    {
        let new_config = AIConfig {
            id: new_uuid(),
            name: String::from_str(name),
            api_url: String::from_str(api_url),
            api_key: String::from_str(api_key),
            api_key_encrypted: false,
            model_name: String::from_str(model_name),
        };
        let id = new_config.id.clone();
        self.ai_configs.push(new_config);
        assert(self.ai_configs@.drop_last() =~= old(self).ai_configs@);
        if self.ai_configs.len() == 1 {
            self.current_ai_config_id = id;
        }
    }

    /// Makes the configuration with the given id current, if there is one.
    pub fn switch_ai_config(&mut self, config_id: &str) -> (r: bool)
        ensures
            r == has_id(old(self).ai_configs@, config_id@),
            r ==> final(self).current_ai_config_id@ == config_id@,
            !r ==> final(self).current_ai_config_id == old(self).current_ai_config_id,
            final(self).ai_configs == old(self).ai_configs,
            same_settings(*old(self), *final(self)),
    {
        proof {
            lemma_index_with_id(self.ai_configs@, config_id@, 0);
        }
        match find_config(self.ai_configs.as_slice(), config_id) {
            Some(_) => {
                self.current_ai_config_id = String::from_str(config_id);
                true
            },
            None => false,
        }
    }

    /// Replaces the fields of the first configuration with the given id; the
    /// new key is plain text.
    pub fn edit_ai_config(
        &mut self,
        config_id: &str,
        name: &str,
        api_url: &str,
        api_key: &str,
        model_name: &str,
    ) -> (r: bool)
        ensures
            r == has_id(old(self).ai_configs@, config_id@),
            same_settings(*old(self), *final(self)),
            final(self).current_ai_config_id == old(self).current_ai_config_id,
            !r ==> final(self).ai_configs == old(self).ai_configs,
            r ==> ({
                let i = index_with_id(old(self).ai_configs@, config_id@, 0)->0;
                &&& final(self).ai_configs@.len() == old(self).ai_configs@.len()
                &&& forall|j: int|
                    0 <= j < old(self).ai_configs@.len() && j != i ==> final(self).ai_configs@[j]
                        == old(self).ai_configs@[j]
                &&& final(self).ai_configs@[i].id == old(self).ai_configs@[i].id
                &&& final(self).ai_configs@[i].name@ == name@
                &&& final(self).ai_configs@[i].api_url@ == api_url@
                &&& final(self).ai_configs@[i].api_key@ == api_key@
                &&& !final(self).ai_configs@[i].api_key_encrypted
                &&& final(self).ai_configs@[i].model_name@ == model_name@
            }),
    {
        proof {
            lemma_index_with_id(self.ai_configs@, config_id@, 0);
        }
        match find_config(self.ai_configs.as_slice(), config_id) {
            Some(i) => {
                let id = self.ai_configs[i].id.clone();
                let c = AIConfig {
                    id,
                    name: String::from_str(name),
                    api_url: String::from_str(api_url),
                    api_key: String::from_str(api_key),
                    api_key_encrypted: false,
                    model_name: String::from_str(model_name),
                };
                self.ai_configs.set(i, c);
                true
            },
            None => false,
        }
    }

    /// Removes every configuration with the given id; if the current one was
    /// removed, the first remaining configuration becomes current.
    pub fn delete_ai_config(&mut self, config_id: &str) -> (deleted: bool)
        ensures
            final(self).ai_configs@ == old(self).ai_configs@.filter(
                id_differs(config_id@),
            ),
            deleted == has_id(old(self).ai_configs@, config_id@),
            same_settings(*old(self), *final(self)),
            (deleted && old(self).current_ai_config_id@ == config_id@ && final(self).ai_configs@.len() > 0) ==> final(self).current_ai_config_id == final(self).ai_configs@[0].id,
            !(deleted && old(self).current_ai_config_id@ == config_id@ && final(self).ai_configs@.len() > 0) ==> final(self).current_ai_config_id == old(self).current_ai_config_id,
    {
        let mut kept: Vec<AIConfig> = Vec::new();
        let mut i: usize = 0;
        let n = self.ai_configs.len();
        while i < n
            invariant
                n == self.ai_configs@.len(),
                self.ai_configs == old(self).ai_configs,
                i <= n,
                kept@ == self.ai_configs@.take(i as int).filter(id_differs(config_id@)),
            decreases n - i,
        {
            proof {
                let f = id_differs(config_id@);
                assert(self.ai_configs@.take(i + 1).drop_last() =~= self.ai_configs@.take(i as int));
                reveal_with_fuel(Seq::filter, 1);
            }
            if !str_eq(self.ai_configs[i].id.as_str(), config_id) {
                kept.push(self.ai_configs[i].clone());
            }
            i = i + 1;
        }
        assert(self.ai_configs@.take(n as int) =~= self.ai_configs@);
        let deleted = kept.len() != n;
        proof {
            lemma_filter_len_eq(self.ai_configs@, config_id@);
        }
        self.ai_configs = kept;
        if deleted && str_eq(self.current_ai_config_id.as_str(), config_id) && self.ai_configs.len() > 0 {
            self.current_ai_config_id = self.ai_configs[0].id.clone();
        }
        deleted
    }

    /// The assistant configurations.
    pub fn get_ai_configs(&self) -> (r: &Vec<AIConfig>)
        ensures
            r == &self.ai_configs,
    {
        &self.ai_configs
    }

    /// Appends imported assistant configurations.
    pub fn import_ai_configs(&mut self, imported: Vec<AIConfig>)
        ensures
            final(self).ai_configs@ == old(self).ai_configs@ + imported@,
            final(self).current_ai_config_id == old(self).current_ai_config_id,
            same_settings(*old(self), *final(self)),
    {
        let mut imported = imported;
        self.ai_configs.append(&mut imported);
    }

    /// Brings settings of an older version up to date: without assistant
    /// configurations, one is made from the legacy fields and made current;
    /// otherwise a current id that names no configuration is replaced by the
    /// first configuration's id.
    pub fn migrate_legacy_config(self) -> (r: Self)
        ensures
            same_settings(self, r),
            self.ai_configs@.len() == 0 ==> ({
                &&& r.ai_configs@.len() == 1
                &&& r.ai_configs@[0].name@ == "Default Config"@
                &&& r.ai_configs@[0].api_url == self.ai_api_url
                &&& r.ai_configs@[0].api_key == self.ai_api_key
                &&& r.ai_configs@[0].api_key_encrypted == self.ai_api_key_encrypted
                &&& r.ai_configs@[0].model_name == self.ai_model_name
                &&& r.ai_configs@[0].id@.len() == 36
                &&& r.current_ai_config_id == r.ai_configs@[0].id
            }),
            self.ai_configs@.len() != 0 ==> r.ai_configs == self.ai_configs,
            self.ai_configs@.len() != 0 && has_id(self.ai_configs@, self.current_ai_config_id@)
                ==> r.current_ai_config_id == self.current_ai_config_id,
            self.ai_configs@.len() != 0 && !has_id(self.ai_configs@, self.current_ai_config_id@)
                ==> r.current_ai_config_id == self.ai_configs@[0].id,
            r.ai_configs@.len() > 0 ==> has_id(r.ai_configs@, r.current_ai_config_id@),
    {
        let mut c = self;
        if c.ai_configs.len() == 0 {
            let default_config = AIConfig {
                id: new_uuid(),
                name: String::from_str("Default Config"),
                api_url: c.ai_api_url.clone(),
                api_key: c.ai_api_key.clone(),
                api_key_encrypted: c.ai_api_key_encrypted,
                model_name: c.ai_model_name.clone(),
            };
            let id = default_config.id.clone();
            c.ai_configs.push(default_config);
            c.current_ai_config_id = id;
            assert(c.ai_configs@[0].id@ == c.current_ai_config_id@);
        } else {
            proof {
                lemma_index_with_id(c.ai_configs@, c.current_ai_config_id@, 0);
            }
            if find_config(c.ai_configs.as_slice(), c.current_ai_config_id.as_str()).is_none() {
                c.current_ai_config_id = c.ai_configs[0].id.clone();
                assert(c.ai_configs@[0].id@ == c.current_ai_config_id@);
            } else {
                proof {
                    let i = index_with_id(c.ai_configs@, c.current_ai_config_id@, 0)->0;
                    assert(c.ai_configs@[i].id@ == c.current_ai_config_id@);
                }
            }
        }
        c
    }
}

pub open spec fn same_settings_but_path(a: AppConfig, b: AppConfig) -> bool {
    &&& a.theme == b.theme
    &&& a.auto_refresh_interval == b.auto_refresh_interval
    &&& a.user_agent == b.user_agent
    &&& a.font_size_bits == b.font_size_bits
    &&& a.window_width == b.window_width
    &&& a.window_height == b.window_height
    &&& a.show_tray_icon == b.show_tray_icon
    &&& a.enable_notifications == b.enable_notifications
    &&& a.max_notifications == b.max_notifications
    &&& a.notification_timeout_ms == b.notification_timeout_ms
    &&& a.timezone == b.timezone
    &&& a.show_console == b.show_console
    &&& a.search_mode == b.search_mode
    &&& a.enable_auto_cleanup == b.enable_auto_cleanup
    &&& a.article_retention_days == b.article_retention_days
    &&& a.max_articles_per_feed == b.max_articles_per_feed
    &&& a.ai_configs == b.ai_configs
    &&& a.current_ai_config_id == b.current_ai_config_id
    &&& a.ai_api_url == b.ai_api_url
    &&& a.ai_api_key == b.ai_api_key
    &&& a.ai_api_key_encrypted == b.ai_api_key_encrypted
    &&& a.ai_model_name == b.ai_model_name
}

/// The configurations whose id differs from `id`.
pub open spec fn id_differs(id: Seq<char>) -> spec_fn(AIConfig) -> bool {
    |c: AIConfig| c.id@ != id
}

pub proof fn lemma_filter_len_eq(s: Seq<AIConfig>, id: Seq<char>)
    ensures
        (s.filter(id_differs(id)).len() != s.len()) == has_id(s, id),
    decreases s.len(),
{
    reveal_with_fuel(Seq::filter, 1);
    let f = id_differs(id);
    if s.len() > 0 {
        lemma_filter_len_eq(s.drop_last(), id);
        broadcast use vstd::seq_lib::group_filter_ensures;
        if has_id(s.drop_last(), id) {
            let j = choose|j: int| 0 <= j < s.drop_last().len() && s.drop_last()[j].id@ == id;
            assert(s[j].id@ == id);
        }
        if has_id(s, id) && s.last().id@ != id {
            let j = choose|j: int| 0 <= j < s.len() && s[j].id@ == id;
            assert(s.drop_last()[j].id@ == id);
        }
    } else {
        assert(s.filter(f) =~= Seq::<AIConfig>::empty());
    }
}

/// The fields of a settings file written by an older version; absent fields
/// keep their defaults.
#[derive(Debug)]
pub struct LegacyConfig {
    pub database_path: Option<String>,
    pub theme: Option<String>,
    pub auto_refresh_interval: Option<u32>,
    pub user_agent: Option<String>,
    pub font_size_bits: Option<u32>,
    pub window_width: Option<u32>,
    pub window_height: Option<u32>,
    pub show_tray_icon: Option<bool>,
    pub enable_notifications: Option<bool>,
    pub max_notifications: Option<usize>,
    pub notification_timeout_ms: Option<u64>,
    pub timezone: Option<String>,
    pub show_console: Option<bool>,
    pub search_mode: Option<String>,
    pub enable_auto_cleanup: Option<bool>,
    pub article_retention_days: Option<u32>,
    pub max_articles_per_feed: Option<u32>,
    pub ai_api_url: Option<String>,
    pub ai_api_key: Option<String>,
    pub ai_model_name: Option<String>,
}

/// The value held, else the default.
pub fn pick<T>(o: Option<T>, d: T) -> (r: T)
    ensures
        r == or_else(o, d),
{
    match o {
        Some(x) => x,
        None => d,
    }
}

pub open spec fn or_else<T>(o: Option<T>, d: T) -> T {
    match o {
        Some(x) => x,
        None => d,
    }
}

impl AppConfig {
    /// Settings from an older file: the defaults, overridden by every field
    /// the file has; a legacy assistant endpoint (URL, key and model all
    /// present) is added as a configuration named "Legacy Config".
    pub fn load_legacy_config(legacy: LegacyConfig) -> (c: Self)
        ensures
            legacy.database_path matches Some(p) ==> c.database_path == p,
            legacy.database_path is None ==> c.database_path@ == "./feed.duckdb"@,
            legacy.theme is None ==> c.theme@ == "system"@,
            legacy.theme matches Some(t) ==> c.theme == t,
            c.auto_refresh_interval == or_else(legacy.auto_refresh_interval, 30),
            legacy.user_agent matches Some(u) ==> c.user_agent == u,
            legacy.user_agent is None ==> c.user_agent@ == default_user_agent(),
            c.font_size_bits == or_else(legacy.font_size_bits, DEFAULT_FONT_SIZE_BITS),
            c.window_width == or_else(legacy.window_width, 1200),
            c.window_height == or_else(legacy.window_height, 800),
            c.show_tray_icon == or_else(legacy.show_tray_icon, false),
            c.enable_notifications == or_else(legacy.enable_notifications, true),
            c.max_notifications == or_else(legacy.max_notifications, 3),
            c.notification_timeout_ms == or_else(legacy.notification_timeout_ms, 5000),
            legacy.timezone is None ==> c.timezone@ == "UTC"@,
            legacy.timezone matches Some(t) ==> c.timezone == t,
            c.show_console == or_else(legacy.show_console, true),
            legacy.search_mode is None ==> c.search_mode@ == "direct_search"@,
            legacy.search_mode matches Some(m) ==> c.search_mode == m,
            c.enable_auto_cleanup == or_else(legacy.enable_auto_cleanup, false),
            c.article_retention_days == or_else(legacy.article_retention_days, 60),
            c.max_articles_per_feed == or_else(legacy.max_articles_per_feed, 1000),
            c.ai_configs@.len() >= 1,
            is_default_ai_config(c.ai_configs@[0]),
            c.current_ai_config_id == c.ai_configs@[0].id,
            c.ai_api_url@.len() == 0,
            c.ai_api_key@.len() == 0,
            !c.ai_api_key_encrypted,
            c.ai_model_name@.len() == 0,
            (legacy.ai_api_url is Some && legacy.ai_api_key is Some && legacy.ai_model_name is Some)
                ==> ({
                &&& c.ai_configs@.len() == 2
                &&& c.ai_configs@[1].name@ == "Legacy Config"@
                &&& c.ai_configs@[1].api_url@ == (legacy.ai_api_url->0)@
                &&& c.ai_configs@[1].api_key@ == (legacy.ai_api_key->0)@
                &&& c.ai_configs@[1].model_name@ == (legacy.ai_model_name->0)@
                &&& !c.ai_configs@[1].api_key_encrypted
            }),
            !(legacy.ai_api_url is Some && legacy.ai_api_key is Some && legacy.ai_model_name is Some)
                ==> c.ai_configs@.len() == 1,
    {
        let mut config = Self::default();
        let l = legacy;
        config.database_path = pick(l.database_path, config.database_path);
        config.theme = pick(l.theme, config.theme);
        config.auto_refresh_interval = pick(l.auto_refresh_interval, config.auto_refresh_interval);
        config.user_agent = pick(l.user_agent, config.user_agent);
        config.font_size_bits = pick(l.font_size_bits, config.font_size_bits);
        config.window_width = pick(l.window_width, config.window_width);
        config.window_height = pick(l.window_height, config.window_height);
        config.show_tray_icon = pick(l.show_tray_icon, config.show_tray_icon);
        config.enable_notifications = pick(l.enable_notifications, config.enable_notifications);
        config.max_notifications = pick(l.max_notifications, config.max_notifications);
        config.notification_timeout_ms = pick(l.notification_timeout_ms, config.notification_timeout_ms);
        config.timezone = pick(l.timezone, config.timezone);
        config.show_console = pick(l.show_console, config.show_console);
        config.search_mode = pick(l.search_mode, config.search_mode);
        config.enable_auto_cleanup = pick(l.enable_auto_cleanup, config.enable_auto_cleanup);
        config.article_retention_days = pick(l.article_retention_days, config.article_retention_days);
        config.max_articles_per_feed = pick(l.max_articles_per_feed, config.max_articles_per_feed);
        match (l.ai_api_url, l.ai_api_key, l.ai_model_name) {
            (Some(url), Some(key), Some(model)) => {
                config.add_ai_config("Legacy Config", url.as_str(), key.as_str(), model.as_str());
            },
            _ => {},
        }
        config
    }
}

impl Clone for AppConfig {
    fn clone(&self) -> (r: Self)
        ensures
            same_settings(*self, r),
            r.ai_configs@ == self.ai_configs@,
            r.current_ai_config_id == self.current_ai_config_id,
    {
        let mut configs: Vec<AIConfig> = Vec::new();
        let mut i: usize = 0;
        while i < self.ai_configs.len()
            invariant
                i <= self.ai_configs@.len(),
                configs@ == self.ai_configs@.take(i as int),
            decreases self.ai_configs@.len() - i,
        {
            configs.push(self.ai_configs[i].clone());
            assert(self.ai_configs@.take(i + 1) =~= self.ai_configs@.take(i as int).push(
                self.ai_configs@[i as int],
            ));
            i = i + 1;
        }
        assert(self.ai_configs@.take(self.ai_configs@.len() as int) =~= self.ai_configs@);
        let r = AppConfig {
            database_path: self.database_path.clone(),
            theme: self.theme.clone(),
            auto_refresh_interval: self.auto_refresh_interval,
            user_agent: self.user_agent.clone(),
            font_size_bits: self.font_size_bits,
            window_width: self.window_width,
            window_height: self.window_height,
            show_tray_icon: self.show_tray_icon,
            enable_notifications: self.enable_notifications,
            max_notifications: self.max_notifications,
            notification_timeout_ms: self.notification_timeout_ms,
            timezone: self.timezone.clone(),
            show_console: self.show_console,
            search_mode: self.search_mode.clone(),
            enable_auto_cleanup: self.enable_auto_cleanup,
            article_retention_days: self.article_retention_days,
            max_articles_per_feed: self.max_articles_per_feed,
            ai_configs: configs,
            current_ai_config_id: self.current_ai_config_id.clone(),
            ai_api_url: self.ai_api_url.clone(),
            ai_api_key: self.ai_api_key.clone(),
            ai_api_key_encrypted: self.ai_api_key_encrypted,
            ai_model_name: self.ai_model_name.clone(),
        };
        r
    }
}

/// The key box needed by an operation, or the error met while opening it.
pub open spec fn usable(crypto: &Result<CryptoManager, CryptoError>) -> bool {
    crypto matches Ok(c) ==> c.wf()
}

/// What reading the current API key in plain text gives: empty without a
/// current configuration or key; the key itself when it is neither marked
/// sealed nor of the sealed shape; otherwise what opening it with the key box
/// gives.
pub open spec fn current_key_ok(
    config: AppConfig,
    crypto: &Result<CryptoManager, CryptoError>,
    r: Result<String, CryptoError>,
) -> bool {
    match index_with_id(config.ai_configs@, config.current_ai_config_id@, 0) {
        None => r matches Ok(s) && s@.len() == 0,
        Some(i) => {
            let c = config.ai_configs@[i];
            if c.api_key@.len() == 0 {
                r matches Ok(s) && s@.len() == 0
            } else {
                match crypto {
                    Err(e) => r == Err::<String, CryptoError>(*e),
                    Ok(m) => if !c.api_key_encrypted && !spec_is_sealed(c.api_key@) {
                        r matches Ok(s) && s@ == c.api_key@
                    } else {
                        (spec_unseal(m.key(), c.api_key@) matches Unsealed::Plain(p)
                            ==> (r matches Ok(s) && s@ == p)) && (r is Ok ==> spec_unseal(
                            m.key(),
                            c.api_key@,
                        ) is Plain)
                    },
                }
            }
        },
    }
}

/// How one configuration is written to the settings file: a plain-text key
/// is sealed; a key that cannot be sealed is written as is and marked plain.
pub open spec fn saved_config(
    before: AIConfig,
    after: AIConfig,
    crypto: &Result<CryptoManager, CryptoError>,
) -> bool {
    &&& after.id == before.id
    &&& after.name == before.name
    &&& after.api_url == before.api_url
    &&& after.model_name == before.model_name
    &&& if before.api_key@.len() == 0 {
        after == before
    } else {
        match crypto {
            Err(_) => after.api_key == before.api_key && !after.api_key_encrypted,
            Ok(c) => if before.api_key_encrypted || spec_is_sealed(before.api_key@) {
                after == before
            } else {
                (after.api_key_encrypted && spec_unseal(c.key(), after.api_key@) == Unsealed::Plain(
                    before.api_key@,
                ) && spec_is_sealed(after.api_key@)) || (!after.api_key_encrypted
                    && after.api_key == before.api_key)
            },
        }
    }
}

/// How one configuration is exported: a plain-text key is sealed when that
/// succeeds, otherwise left as it is.
pub open spec fn exported_config(
    before: AIConfig,
    after: AIConfig,
    crypto: &Result<CryptoManager, CryptoError>,
) -> bool {
    &&& after.id == before.id
    &&& after.name == before.name
    &&& after.api_url == before.api_url
    &&& after.model_name == before.model_name
    &&& if before.api_key@.len() == 0 || before.api_key_encrypted {
        after == before
    } else {
        match crypto {
            Err(_) => after == before,
            Ok(c) => (after.api_key_encrypted && spec_unseal(c.key(), after.api_key@)
                == Unsealed::Plain(before.api_key@) && spec_is_sealed(after.api_key@)) || after
                == before,
        }
    }
}

impl AppConfig {
    /// The API key of the current configuration in plain text: empty without
    /// a current configuration or key; a key that is marked sealed or has the
    /// sealed shape is opened with the key box.
    pub fn get_current_decrypted_api_key(&self, crypto: &Result<CryptoManager, CryptoError>) -> (r:
        Result<String, CryptoError>)
        requires
            usable(crypto),
        ensures
            current_key_ok(*self, crypto, r),
    {
        match self.get_current_ai_config() {
            Some(current) => {
                if current.api_key.as_str().is_empty() {
                    return Ok(String::new());
                }
                match crypto {
                    Err(e) => Err(e.clone()),
                    Ok(m) => {
                        let sealed = current.api_key_encrypted || m.is_encrypted(current.api_key.as_str());
                        if !sealed {
                            return Ok(current.api_key.clone());
                        }
                        m.decrypt(current.api_key.as_str())
                    },
                }
            },
            None => Ok(String::new()),
        }
    }

    /// The settings as written to the settings file: every plain-text API key
    /// is sealed.
    pub fn prepare_for_save(&self, crypto: &Result<CryptoManager, CryptoError>) -> (r: AppConfig)
        requires
            usable(crypto),
        ensures
            same_settings(*self, r),
            r.current_ai_config_id == self.current_ai_config_id,
            r.ai_configs@.len() == self.ai_configs@.len(),
            forall|i: int|
                0 <= i < r.ai_configs@.len() ==> saved_config(
                    self.ai_configs@[i],
                    #[trigger] r.ai_configs@[i],
                    crypto,
                ),
    {
        let mut out = self.clone();
        let mut configs: Vec<AIConfig> = Vec::new();
        let mut i: usize = 0;
        while i < self.ai_configs.len()
            invariant
                usable(crypto),
                i <= self.ai_configs@.len(),
                configs@.len() == i,
                forall|k: int|
                    0 <= k < i ==> saved_config(self.ai_configs@[k], #[trigger] configs@[k], crypto),
            decreases self.ai_configs@.len() - i,
        {
            let mut c = self.ai_configs[i].clone();
            if !c.api_key.as_str().is_empty() {
                match crypto {
                    Ok(m) => {
                        let sealed = c.api_key_encrypted || m.is_encrypted(c.api_key.as_str());
                        if !sealed {
                            match m.encrypt(c.api_key.as_str()) {
                                Ok(k) => {
                                    c.api_key = k;
                                    c.api_key_encrypted = true;
                                },
                                Err(_) => {
                                    c.api_key_encrypted = false;
                                },
                            }
                        }
                    },
                    Err(_) => {
                        c.api_key_encrypted = false;
                    },
                }
            }
            configs.push(c);
            i = i + 1;
        }
        out.ai_configs = configs;
        out
    }

    /// The assistant configurations as exported: a plain-text API key is
    /// sealed when the key box can seal it.
    pub fn configs_for_export(&self, crypto: &Result<CryptoManager, CryptoError>) -> (r: Vec<
        AIConfig,
    >)
        requires
            usable(crypto),
        ensures
            r@.len() == self.ai_configs@.len(),
            forall|i: int|
                0 <= i < r@.len() ==> exported_config(self.ai_configs@[i], #[trigger] r@[i], crypto),
    {
        let mut configs: Vec<AIConfig> = Vec::new();
        let mut i: usize = 0;
        while i < self.ai_configs.len()
            invariant
                usable(crypto),
                i <= self.ai_configs@.len(),
                configs@.len() == i,
                forall|k: int|
                    0 <= k < i ==> exported_config(self.ai_configs@[k], #[trigger] configs@[k], crypto),
            decreases self.ai_configs@.len() - i,
        {
            let mut c = self.ai_configs[i].clone();
            if !c.api_key.as_str().is_empty() && !c.api_key_encrypted {
                match crypto {
                    Ok(m) => {
                        match m.encrypt(c.api_key.as_str()) {
                            Ok(k) => {
                                c.api_key = k;
                                c.api_key_encrypted = true;
                            },
                            Err(_) => {},
                        }
                    },
                    Err(_) => {},
                }
            }
            configs.push(c);
            i = i + 1;
        }
        configs
    }
}

} // verus!
