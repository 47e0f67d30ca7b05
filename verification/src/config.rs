//! The configuration, as the environment gives it.
use vstd::prelude::*;

use crate::path::{join, joined};
use crate::text::{comma_items, comma_list, copy_opt, decimal_text, number_text, parse_unsigned};
use crate::text::{all_digits, is_digit, is_white, law_comma_list, law_decimal_round_trip};
use crate::text::{law_numbers_are_digits, law_split_around, split_on, trimmed};
use crate::text::{lemma_decimal_text, same_text, string_or, text_or, texts, unsigned_number};

verus! {

/// The environment variables that the configuration is made of, each as far as it is
/// set.
#[derive(Clone, Debug)]
pub struct EnvVars {
    pub host: Option<String>,
    pub port: Option<String>,
    pub resources: Option<String>,
    pub storage_name: Option<String>,
    pub allow_empty_referer: Option<String>,
    pub referers: Option<String>,
    pub cors_origin: Option<String>,
    pub rate_limit_window: Option<String>,
    pub rate_limit_max: Option<String>,
    pub log_level: Option<String>,
}

/// The configuration.
#[derive(Clone, Debug)]
pub struct Config {
    pub host: String,
    pub port: u16,
    pub resources: String,
    pub storage_name: Option<String>,
    pub allow_empty_referer: bool,
    pub allowed_referers: Vec<String>,
    pub cors_origin: String,
    pub rate_limit_window_secs: u64,
    pub rate_limit_max: u32,
    pub log_level: String,
}

/// The origins that may read the answers from a browser.
#[derive(Clone, Debug)]
pub enum CorsOrigins {
    /// This one, whoever asks.
    Exact(String),
    /// Each of these, where it is the one that asks.
    List(Vec<String>),
}

/// The number that a variable writes, `max` at most; `default` where it is not set or
/// writes none.
pub open spec fn number_or(var: Option<String>, max: nat, default: nat) -> nat {
    match var {
        Some(s) => match unsigned_number(s@, max) {
            Some(n) => n,
            None => default,
        },
        None => default,
    }
}

/// The number that a variable writes, `max` at most; `default` where it is not set or
/// writes none.
fn parse_or(var: &Option<String>, max: u64, default: u64) -> (r: u64)
    requires
        default <= max,
    ensures
        r as nat == number_or(*var, max as nat, default as nat),
        r <= max,
{
    match var {
        Some(s) => match parse_unsigned(s.as_str(), max) {
            Some(n) => n,
            None => default,
        },
        None => default,
    }
}

impl EnvVars {
    /// The length of the window of the rate limit, in minutes.
    pub open spec fn window_minutes(self) -> nat {
        number_or(self.rate_limit_window, u64::MAX as nat, 15)
    }

    /// The window of the rate limit can be counted in seconds.
    pub open spec fn has_window(self) -> bool {
        self.window_minutes() * 60 <= u64::MAX
    }

    /// Tells whether the window of the rate limit can be counted in seconds.
    pub fn window_fits(&self) -> (r: bool)
        ensures
            r == self.has_window(),
    {
        parse_or(&self.rate_limit_window, u64::MAX, 15) <= u64::MAX / 60
    }
}

impl Config {
    /// The configuration is the one that the variables make.
    pub open spec fn is_made_of(
        self,
        vars: EnvVars,
    ) -> bool {
        &&& self.host@ == text_or(vars.host, "0.0.0.0"@)
        &&& self.port as nat == number_or(vars.port, 65535, 3000)
        &&& self.resources@ == text_or(vars.resources, "./resources"@)
        &&& self.storage_name == vars.storage_name
        &&& self.allow_empty_referer == (text_or(vars.allow_empty_referer, ""@) == "true"@)
        &&& texts(self.allowed_referers@) == comma_list(text_or(vars.referers, ""@))
        &&& self.cors_origin@ == text_or(vars.cors_origin, "http://localhost:3000"@)
        &&& self.rate_limit_window_secs as nat == vars.window_minutes() * 60
        &&& self.rate_limit_max as nat == number_or(vars.rate_limit_max, u32::MAX as nat, 100)
        &&& self.log_level@ == text_or(vars.log_level, "info"@)
    }

    /// The configuration that the variables make. What is not set, or is not the
    /// number it should be, has a default.
    pub fn from_env(vars: &EnvVars) -> (r: Config)
        requires
            vars.window_minutes() * 60 <= u64::MAX,
        ensures
            r.is_made_of(*vars),
    {
        let referers: String = string_or(&vars.referers, "");
        let allow: String = string_or(&vars.allow_empty_referer, "");
        Config {
            host: string_or(&vars.host, "0.0.0.0"),
            port: parse_or(&vars.port, 65535, 3000) as u16,
            resources: string_or(&vars.resources, "./resources"),
            storage_name: copy_opt(&vars.storage_name),
            allow_empty_referer: same_text(allow.as_str(), "true"),
            allowed_referers: comma_items(referers.as_str()),
            cors_origin: string_or(&vars.cors_origin, "http://localhost:3000"),
            rate_limit_window_secs: parse_or(&vars.rate_limit_window, u64::MAX, 15) * 60,
            rate_limit_max: parse_or(&vars.rate_limit_max, u32::MAX as u64, 100) as u32,
            log_level: string_or(&vars.log_level, "info"),
        }
    }

    /// The directory of the pictures.
    pub fn pixiv_root(&self) -> (r: String)
        ensures
            r@ == joined(self.resources@, "pixiv"@),
    {
        join(self.resources.as_str(), "pixiv")
    }

    /// The directory of the videos.
    pub fn plus_root(&self) -> (r: String)
        ensures
            r@ == joined(self.resources@, "plus"@),
    {
        join(self.resources.as_str(), "plus")
    }

    /// The file of the database.
    pub fn db_path(&self) -> (r: String)
        ensures
            r@ == "./data/cache.db"@,
    {
        "./data/cache.db".to_owned()
    }

    /// The directory of the logs.
    pub fn log_dir(&self) -> (r: String)
        ensures
            r@ == "./data/logs"@,
    {
        "./data/logs".to_owned()
    }

    /// The address is the one to listen on.
    pub open spec fn listens_at(
        self,
        address: Seq<char>,
    ) -> bool {
        address == self.host@ + ":"@ + decimal_text(self.port as nat)
    }

    /// The address to listen on: the host and the port with a colon between them.
    pub fn listen_address(&self) -> (r: String)
        ensures
            self.listens_at(r@),
    {
        let port: String = number_text(self.port as u64);
        self.host.clone().concat(":").concat(port.as_str())
    }

    /// `r` are the origins that may read the answers.
    pub open spec fn allows_origins(
        self,
        r: CorsOrigins,
    ) -> bool {
        match r {
            CorsOrigins::Exact(origin) => comma_list(self.cors_origin@) == seq![origin@],
            CorsOrigins::List(origins) => {
                &&& comma_list(self.cors_origin@).len() != 1
                &&& texts(origins@) == comma_list(self.cors_origin@)
            },
        }
    }

    /// The origins that may read the answers: those of the list between commas.
    pub fn cors_origins(&self) -> (r: CorsOrigins)
        ensures
            self.allows_origins(r),
    {
        let mut origins: Vec<String> = comma_items(self.cors_origin.as_str());
        let ghost list = texts(origins@);
        if origins.len() == 1 {
            match origins.pop() {
                Some(origin) => {
                    assert(list =~= seq![origin@]);
                    CorsOrigins::Exact(origin)
                },
                None => CorsOrigins::List(origins),
            }
        } else {
            CorsOrigins::List(origins)
        }
    }
}

// ===================== Laws =====================
/// A variable that writes a number that is not too large gives that number; one that writes a
/// larger one, or is not set, gives the default.
pub proof fn law_number_of_variable(var: String, n: nat, max: nat, default: nat)
    requires
        var@ == decimal_text(n),
    ensures
        n <= max ==> number_or(Some(var), max, default) == n,
        n > max ==> number_or(Some(var), max, default) == default,
        number_or(None, max, default) == default,
{
    if n <= max {
        law_decimal_round_trip(n, max);
    } else {
        lemma_decimal_text(n);
        assert(is_digit(decimal_text(n)[0]));
    }
}

/// A variable that holds anything but digits, with a plus sign at most, gives the default.
pub proof fn law_no_number_is_default(var: String, max: nat, default: nat)
    requires
        !all_digits(var@),
        var@.len() > 0 && var@[0] == '+' ==> !all_digits(var@.skip(1)),
    ensures
        number_or(Some(var), max, default) == default,
{
    if unsigned_number(var@, max) is Some {
        law_numbers_are_digits(var@, max);
    }
}

/// The window of the rate limit is as many minutes as its variable writes, or fifteen.
pub proof fn law_window_of_variable(vars: EnvVars, minutes: String, n: nat)
    requires
        minutes@ == decimal_text(n),
        n <= u64::MAX,
    ensures
        vars.rate_limit_window == Some(minutes) ==> vars.window_minutes() == n,
        vars.rate_limit_window is None ==> vars.window_minutes() == 15,
{
    law_number_of_variable(minutes, n, u64::MAX as nat, 15);
}

/// A text is what a variable holds; the default where it is not set.
pub proof fn law_text_of_variable(var: String, default: Seq<char>)
    ensures
        text_or(Some(var), default) == var@,
        text_or(None, default) == default,
{
}

/// The configuration holds what the variables hold, and a default where one is not set.
pub proof fn law_configuration_is_taken(vars: EnvVars, config: Config)
    requires
        config.is_made_of(vars),
    ensures
        vars.host matches Some(s) ==> config.host@ == s@,
        vars.host is None ==> config.host@ == "0.0.0.0"@,
        vars.resources matches Some(s) ==> config.resources@ == s@,
        vars.resources is None ==> config.resources@ == "./resources"@,
        config.storage_name == vars.storage_name,
        vars.cors_origin matches Some(s) ==> config.cors_origin@ == s@,
        vars.cors_origin is None ==> config.cors_origin@ == "http://localhost:3000"@,
        vars.log_level matches Some(s) ==> config.log_level@ == s@,
        vars.log_level is None ==> config.log_level@ == "info"@,
        vars.allow_empty_referer matches Some(s) ==> config.allow_empty_referer == (s@ == "true"@),
        vars.allow_empty_referer is None ==> !config.allow_empty_referer,
        vars.port is None ==> config.port == 3000,
        vars.rate_limit_max is None ==> config.rate_limit_max == 100,
        vars.rate_limit_window is None ==> config.rate_limit_window_secs == 15 * 60,
        vars.referers is None ==> config.allowed_referers@.len() == 0,
{
    reveal_strlit("");
    reveal_strlit("true");
    assert(""@.len() == 0 && "true"@.len() == 4);
    if vars.referers is None {
        let none = Seq::<char>::empty();
        assert(""@ =~= none);
        law_split_around(none, none, ',');
        assert(split_on(none, ',').map_values(|t: Seq<char>| trimmed(t)) =~= seq![none]) by {
            assert(trimmed(none) =~= none);
        }
        let x = seq![none];
        let some = |t: Seq<char>| t.len() > 0;
        reveal(Seq::filter);
        assert(x.drop_last() =~= seq![]);
        assert(x.drop_last().filter(some) =~= seq![]);
        assert(x.filter(some) =~= seq![]);
        assert(comma_list(""@) =~= seq![]);
        assert(texts(config.allowed_referers@).len() == config.allowed_referers@.len());
    }
}

/// The numbers of the configuration are those that the variables write, where they are not
/// too large; the window is counted in seconds.
pub proof fn law_numbers_are_taken(vars: EnvVars, config: Config, var: String, n: nat)
    requires
        config.is_made_of(vars),
        var@ == decimal_text(n),
    ensures
        vars.port == Some(var) ==> config.port == (if n <= 65535 {
            n
        } else {
            3000
        }),
        vars.rate_limit_max == Some(var) ==> config.rate_limit_max == (if n <= 0xffff_ffff {
            n
        } else {
            100
        }),
        vars.rate_limit_window == Some(var) && n <= u64::MAX ==> config.rate_limit_window_secs == n
            * 60,
{
    law_number_of_variable(var, n, 65535, 3000);
    law_number_of_variable(var, n, u32::MAX as nat, 100);
    law_number_of_variable(var, n, u64::MAX as nat, 15);
}

/// The pages that may ask are the items of the list between commas, trimmed: a list of two is
/// two pages.
pub proof fn law_referers_are_taken(
    vars: EnvVars,
    config: Config,
    var: String,
    a: Seq<char>,
    b: Seq<char>,
)
    requires
        config.is_made_of(vars),
        vars.referers == Some(var),
        !a.contains(',') && !b.contains(','),
        a.len() > 0 && !is_white(a[0]) && !is_white(a.last()),
        b.len() > 0 && !is_white(b[0]) && !is_white(b.last()),
        var@ == a + seq![','] + b || var@ == a,
    ensures
        var@ == a ==> config.allowed_referers@.len() == 1 && config.allowed_referers@[0]@ == a,
        var@ == a + seq![','] + b ==> {
            &&& config.allowed_referers@.len() == 2
            &&& config.allowed_referers@[0]@ == a
            &&& config.allowed_referers@[1]@ == b
        },
{
    law_comma_list(a, b);
    law_comma_list(b, a);
    let t = texts(config.allowed_referers@);
    assert(t.len() == config.allowed_referers@.len());
    if var@ == a {
        assert(t =~= seq![a]);
        assert(t[0] == config.allowed_referers@[0]@);
    }
    if var@ == a + seq![','] + b {
        assert(t =~= seq![a] + seq![b]);
        assert(t[0] == config.allowed_referers@[0]@);
        assert(t[1] == config.allowed_referers@[1]@);
    }
}

/// One origin may read whoever asks; of more each may read where it asks, in their order.
pub proof fn law_origins_are_taken(config: Config, r: CorsOrigins, a: Seq<char>, b: Seq<char>)
    requires
        config.allows_origins(r),
        !a.contains(',') && !b.contains(','),
        a.len() > 0 && !is_white(a[0]) && !is_white(a.last()),
        b.len() > 0 && !is_white(b[0]) && !is_white(b.last()),
    ensures
        config.cors_origin@ == a ==> (r matches CorsOrigins::Exact(origin) && origin@ == a),
        config.cors_origin@ == a + seq![','] + b ==> (r matches CorsOrigins::List(origins) && {
            &&& origins@.len() == 2
            &&& origins@[0]@ == a
            &&& origins@[1]@ == b
        }),
{
    law_comma_list(a, b);
    law_comma_list(b, a);
    if config.cors_origin@ == a {
        assert(comma_list(config.cors_origin@)[0] == a);
        assert(comma_list(config.cors_origin@).len() == 1);
    }
    if config.cors_origin@ == a + seq![','] + b {
        let list = comma_list(config.cors_origin@);
        assert(list =~= seq![a] + seq![b]);
        assert(list.len() == 2);
        if let CorsOrigins::List(origins) = r {
            assert(texts(origins@).len() == origins@.len());
            assert(texts(origins@)[0] == origins@[0]@);
            assert(texts(origins@)[1] == origins@[1]@);
        } else {
            assert(seq![(r->Exact_0)@].len() == 1);
        }
    }
}

/// The address to listen on is the host, a colon and the port.
pub proof fn law_address_holds_port(config: Config, address: Seq<char>)
    requires
        config.listens_at(address),
    ensures
        exists|port: Seq<char>|
            address == config.host@ + ":"@ + port && #[trigger] unsigned_number(port, 65535) == Some(
                config.port as nat,
            ),
{
    law_decimal_round_trip(config.port as nat, 65535);
}

/// A variable that is a number that is not too large is taken for it, however it is written;
/// any other leaves the default.
pub proof fn law_numbers_are_read(vars: EnvVars, config: Config, var: String)
    requires
        config.is_made_of(vars),
    ensures
        vars.port == Some(var) ==> match unsigned_number(var@, u16::MAX as nat) {
            Some(n) => config.port == n,
            None => config.port == 3000,
        },
        vars.rate_limit_max == Some(var) ==> match unsigned_number(var@, u32::MAX as nat) {
            Some(n) => config.rate_limit_max == n,
            None => config.rate_limit_max == 100,
        },
        vars.rate_limit_window == Some(var) ==> match unsigned_number(var@, u64::MAX as nat) {
            Some(n) => config.rate_limit_window_secs == 60 * n,
            None => config.rate_limit_window_secs == 60 * 15,
        },
{
}

/// All items of the lists between commas count, in order: of the pages that may ask, and of
/// the origins that may read, of which one alone is exact.
pub proof fn law_lists_are_taken(vars: EnvVars, config: Config, var: String, r: CorsOrigins)
    ensures
        config.is_made_of(vars) && vars.referers == Some(var) ==> texts(config.allowed_referers@)
            == comma_list(var@),
        config.allows_origins(r) ==> match r {
            CorsOrigins::Exact(origin) => comma_list(config.cors_origin@).len() == 1
                && comma_list(config.cors_origin@)[0] == origin@,
            CorsOrigins::List(origins) => comma_list(config.cors_origin@).len() != 1 && texts(
                origins@,
            ) == comma_list(config.cors_origin@),
        },
{
}

/// Seconds can count the window where there is a number of 64 bits that is sixty times that of
/// its minutes, and then the configuration has it.
pub proof fn law_window_is_counted(vars: EnvVars, config: Config, secs: u64)
    ensures
        secs == 60 * vars.window_minutes() ==> vars.has_window(),
        vars.has_window() ==> vars.window_minutes() <= u64::MAX / 60,
        config.is_made_of(vars) ==> vars.has_window(),
        config.is_made_of(vars) && secs == 60 * vars.window_minutes()
            ==> config.rate_limit_window_secs == secs,
{
}

} // verus!
