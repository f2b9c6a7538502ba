//! The configuration of the server and of the instances that it monitors.

use crate::clock::is_digit;
use crate::model::optional_text;
use crate::text::{chars_of, joined, same_text};
use vstd::prelude::*;

verus! {

/// The whole configuration.
#[derive(Debug, Clone)]
pub struct InstancesConfig {
    pub server: ServerConfig,
    pub instances: Vec<InstanceConfig>,
}

/// Settings of the server itself. What is absent has a default, or comes from the environment,
/// which takes precedence in any case.
#[derive(Debug, Clone)]
pub struct ServerConfig {
    pub port: Option<u16>,
    pub poll_interval_secs: Option<u64>,
    pub insecure_tls: Option<bool>,
    pub ca_cert_path: Option<OneOrMany>,
    pub log_level: Option<String>,
    pub journal_max_events: Option<usize>,
    pub auth_username: Option<String>,
    pub auth_password: Option<String>,
}

/// A single text or a list of texts, as a setting may be written either way.
#[derive(Debug, Clone)]
pub enum OneOrMany {
    One(String),
    Many(Vec<String>),
}

/// A monitored instance. The name identifies it.
#[derive(Debug, Clone)]
pub struct InstanceConfig {
    pub name: String,
    pub actuator_base_url: String,
    pub bearer_token: Option<String>,
}

/// What the configuration of an instance is.
pub struct ConfigModel {
    pub name: Seq<char>,
    pub actuator_base_url: Seq<char>,
    pub bearer_token: Option<Seq<char>>,
}

impl View for InstanceConfig {
    type V = ConfigModel;

    open spec fn view(&self) -> ConfigModel {
        ConfigModel {
            name: self.name@,
            actuator_base_url: self.actuator_base_url@,
            bearer_token: optional_text(self.bearer_token),
        }
    }
}

impl Default for ServerConfig {
    fn default() -> (server: ServerConfig)
        ensures
            server.port is None,
            server.poll_interval_secs is None,
            server.insecure_tls is None,
            server.ca_cert_path is None,
            server.log_level is None,
            server.journal_max_events is None,
            server.auth_username is None,
            server.auth_password is None,
    {
        ServerConfig {
            port: None,
            poll_interval_secs: None,
            insecure_tls: None,
            ca_cert_path: None,
            log_level: None,
            journal_max_events: None,
            auth_username: None,
            auth_password: None,
        }
    }
}

impl Default for InstancesConfig {
    fn default() -> (config: InstancesConfig)
        ensures
            config.instances@.len() == 0,
            config.server.port is None,
            config.server.poll_interval_secs is None,
            config.server.insecure_tls is None,
            config.server.ca_cert_path is None,
            config.server.log_level is None,
            config.server.journal_max_events is None,
            config.server.auth_username is None,
            config.server.auth_password is None,
    {
        InstancesConfig { server: ServerConfig::default(), instances: Vec::new() }
    }
}

impl OneOrMany {
    /// The texts as a list, in the order in which they are written.
    pub fn into_vec(self) -> (texts: Vec<String>)
        ensures
            match self {
                OneOrMany::One(text) => texts@ == seq![text],
                OneOrMany::Many(list) => texts@ == list@,
            },
    {
        match self {
            OneOrMany::One(text) => {
                let mut texts: Vec<String> = Vec::new();
                texts.push(text);
                texts
            },
            OneOrMany::Many(list) => list,
        }
    }
}

/// All characters are decimal digits.
pub open spec fn all_digits(text: Seq<char>) -> bool {
    forall|i: int| 0 <= i < text.len() ==> is_digit(#[trigger] text[i])
}

/// The number that decimal digits write.
pub open spec fn digits_value(text: Seq<char>) -> nat
    decreases text.len(),
{
    if text.len() == 0 {
        0
    } else {
        digits_value(text.drop_last()) * 10 + (text.last() as nat - '0' as nat) as nat
    }
}

/// The digits of a number without its plus sign.
pub open spec fn unsigned_part(text: Seq<char>) -> Seq<char> {
    if text.len() > 0 && text[0] == '+' {
        text.drop_first()
    } else {
        text
    }
}

/// The number up to `max` that a text writes: at least one decimal digit and nothing else, after
/// an optional plus sign.
pub open spec fn decimal_value(text: Seq<char>, max: u64) -> Option<u64> {
    let digits = unsigned_part(text);
    if digits.len() > 0 && all_digits(digits) && digits_value(digits) <= max {
        Some(digits_value(digits) as u64)
    } else {
        None
    }
}

/// A number is at least as large as the one that its first digits write.
proof fn prefix_is_smaller(digits: Seq<char>, n: int)
    requires
        all_digits(digits),
        0 <= n <= digits.len(),
    ensures
        digits_value(digits.take(n)) <= digits_value(digits),
    decreases digits.len(),
{
    if n == digits.len() {
        assert(digits.take(n) =~= digits);
    } else {
        prefix_is_smaller(digits.drop_last(), n);
        assert(digits.drop_last().take(n) =~= digits.take(n));
    }
}

/// Reads a decimal number up to `max`.
pub fn parse_decimal(text: &str, max: u64) -> (number: Option<u64>)
    ensures
        number == decimal_value(text@, max),
{
    let chars = chars_of(text);
    let ghost digits = unsigned_part(text@);
    let start: usize = if chars.len() > 0 && chars[0] == '+' {
        1
    } else {
        0
    };
    if start == chars.len() {
        return None;
    }
    let mut value: u64 = 0;
    let mut i: usize = start;
    while i < chars.len()
        invariant
            chars@ == text@,
            digits == unsigned_part(text@),
            start <= i <= chars.len(),
            start < chars.len(),
            digits.len() == chars.len() - start,
            forall|j: int| start <= j < chars.len() ==> chars@[j] == #[trigger] digits[j - start],
            all_digits(digits.take(i - start)),
            value == digits_value(digits.take(i - start)),
            value <= max,
        decreases chars.len() - i,
    {
        let c = chars[i];
        let ghost n = i - start;
        assert(c == digits[n]);
        assert(digits.take(n + 1).drop_last() =~= digits.take(n));
        if c < '0' || c > '9' {
            assert(!is_digit(digits[n]));
            return None;
        }
        let digit: u64 = (c as u32 - '0' as u32) as u64;
        let next: u128 = value as u128 * 10 + digit as u128;
        assert(next == digits_value(digits.take(n + 1)));
        if next > max as u128 {
            proof {
                if all_digits(digits) {
                    prefix_is_smaller(digits, n + 1);
                }
            }
            return None;
        }
        value = next as u64;
        assert forall|j: int| 0 <= j < n + 1 implies is_digit(
            #[trigger] digits.take(n + 1)[j],
        ) by {
            if j < n {
                assert(digits.take(n)[j] == digits[j]);
            }
        }
        i = i + 1;
    }
    assert(digits.take(i - start) =~= digits);
    Some(value)
}

/// The directive for the log: the one of the environment, or this program at the configured
/// level.
pub open spec fn log_directive(env: Option<Seq<char>>, level: Option<Seq<char>>) -> Seq<char> {
    match env {
        Some(directive) => directive,
        None => "sbalite="@ + match level {
            Some(level) => level,
            None => "info"@,
        },
    }
}

/// A setting: the number that the environment gives, if it is one, or else the configured one,
/// or else the default.
pub open spec fn number_setting(
    env: Option<Seq<char>>,
    max: u64,
    configured: Option<u64>,
    default: u64,
) -> u64 {
    let given = match env {
        Some(text) => decimal_value(text, max),
        None => None,
    };
    match given {
        Some(number) => number,
        None => match configured {
            Some(number) => number,
            None => default,
        },
    }
}

/// An optional text, by reference.
pub open spec fn optional_str(text: Option<&str>) -> Option<Seq<char>> {
    match text {
        Some(t) => Some(t@),
        None => None,
    }
}

fn choose_number(env: Option<&str>, max: u64, configured: Option<u64>, default: u64) -> (number:
    u64)
    ensures
        number == number_setting(optional_str(env), max, configured, default),
{
    let given = match env {
        Some(text) => parse_decimal(text, max),
        None => None,
    };
    match given {
        Some(number) => number,
        None => match configured {
            Some(number) => number,
            None => default,
        },
    }
}

impl ServerConfig {
    /// The directive for the log, with `RUST_LOG` as `env`.
    pub fn log_filter(&self, env: Option<&str>) -> (directive: String)
        ensures
            directive@ == log_directive(optional_str(env), optional_text(self.log_level)),
    {
        match env {
            Some(directive) => directive.to_owned(),
            None => match &self.log_level {
                Some(level) => joined("sbalite=", level.as_str()),
                None => joined("sbalite=", "info"),
            },
        }
    }

    /// The port to listen on, with `PORT` as `env`; 9000 by default.
    pub fn listen_port(&self, env: Option<&str>) -> (port: u16)
        ensures
            port == number_setting(
                optional_str(env),
                65535,
                match self.port {
                    Some(port) => Some(port as u64),
                    None => None,
                },
                9000,
            ),
    {
        let configured: Option<u64> = match self.port {
            Some(port) => Some(port as u64),
            None => None,
        };
        choose_number(env, 65535, configured, 9000) as u16
    }

    /// The seconds between two polls, with `POLL_INTERVAL_SECS` as `env`; 10 by default.
    pub fn poll_interval(&self, env: Option<&str>) -> (seconds: u64)
        ensures
            seconds == number_setting(optional_str(env), u64::MAX, self.poll_interval_secs, 10),
    {
        choose_number(env, u64::MAX, self.poll_interval_secs, 10)
    }

    /// Whether certificates go unchecked, with `INSECURE_TLS` as `env`: where that is set, it
    /// decides, and only `true` and `1` mean yes.
    pub fn accepts_any_certificate(&self, env: Option<&str>) -> (insecure: bool)
        ensures
            insecure == match optional_str(env) {
                Some(text) => text == "true"@ || text == "1"@,
                None => self.insecure_tls == Some(true),
            },
    {
        match env {
            Some(text) => same_text(text, "true") || same_text(text, "1"),
            None => match self.insecure_tls {
                Some(insecure) => insecure,
                None => false,
            },
        }
    }
}

/// A number in the environment takes precedence over the configuration, and the configuration
/// over the default; what is no number in the environment counts as absent.
pub proof fn environment_takes_precedence(
    env: Option<Seq<char>>,
    max: u64,
    configured: Option<u64>,
    default: u64,
)
    ensures
        env is Some && decimal_value(env->0, max) is Some ==> number_setting(
            env,
            max,
            configured,
            default,
        ) == decimal_value(env->0, max)->0,
        env is None || decimal_value(env->0, max) is None ==> number_setting(
            env,
            max,
            configured,
            default,
        ) == number_setting(None, max, configured, default),
        configured is Some ==> number_setting(None, max, configured, default) == configured->0,
        configured is None ==> number_setting(None, max, configured, default) == default,
{
}

/// One decimal digit is read as its value.
pub proof fn one_digit_is_its_value(c: char, max: u64)
    requires
        '0' <= c <= '9',
    ensures
        c as int - '0' as int <= max ==> decimal_value(seq![c], max) == Some(
            (c as int - '0' as int) as u64,
        ),
        c as int - '0' as int > max ==> decimal_value(seq![c], max) is None,
{
    reveal_with_fuel(digits_value, 2);
    assert(seq![c].drop_last().len() == 0);
    assert(all_digits(seq![c]));
}

/// One more digit makes a number ten times as large, and adds its value; a number that gets too
/// large that way is none.
pub proof fn one_more_digit_shifts_a_number(digits: Seq<char>, c: char, max: u64)
    requires
        digits.len() > 0,
        forall|i: int| 0 <= i < digits.len() ==> '0' <= #[trigger] digits[i] && digits[i] <= '9',
        '0' <= c <= '9',
    ensures
        ({
            let before = decimal_value(digits, u64::MAX);
            let after = decimal_value(digits.push(c), max);
            let shifted = before->0 * 10 + (c as int - '0' as int);
            &&& before is Some && shifted <= max ==> after == Some(shifted as u64)
            &&& before is None || shifted > max ==> after is None
        }),
{
    let longer = digits.push(c);
    assert(longer.drop_last() =~= digits);
    assert forall|i: int| 0 <= i < digits.len() implies is_digit(#[trigger] digits[i]) by {}
    assert forall|i: int| 0 <= i < longer.len() implies is_digit(#[trigger] longer[i]) by {
        if i < digits.len() {
            assert(is_digit(digits[i]));
        }
    }
    assert(is_digit(longer[0]));
    assert(unsigned_part(longer) == longer);
    assert(unsigned_part(digits) == digits);
}

/// A plus sign before a number makes no difference to it.
pub proof fn plus_sign_does_not_matter(text: Seq<char>, max: u64)
    requires
        text.len() > 0 ==> text[0] != '+',
    ensures
        decimal_value(seq!['+'] + text, max) == decimal_value(text, max),
{
    assert((seq!['+'] + text).drop_first() =~= text);
}

/// A text without characters is no number, and neither is one with a character that is no digit,
/// but for a plus sign at its beginning.
pub proof fn other_texts_are_no_numbers(text: Seq<char>, max: u64, i: int)
    requires
        text.len() == 0 || 0 <= i < text.len() && !('0' <= text[i] <= '9') && (i > 0 || text[i]
            != '+'),
    ensures
        decimal_value(text, max) is None,
{
    let digits = unsigned_part(text);
    if text.len() > 0 && text[0] == '+' {
        assert(digits[i - 1] == text[i]);
        assert(!is_digit(digits[i - 1]));
    } else if text.len() > 0 {
        assert(!is_digit(digits[i]));
    }
}

/// The log follows the environment where that says anything, and otherwise shows this program
/// alone, at the configured level or else at the level of information.
pub proof fn log_follows_the_environment(env: Seq<char>, level: Seq<char>)
    ensures
        log_directive(Some(env), Some(level)) == env,
        log_directive(Some(env), None) == env,
        log_directive(None, Some(level)) == "sbalite="@ + level,
        log_directive(None, None) == "sbalite="@ + "info"@,
{
}

/// A configuration shows its name, its address and its token, and an optional text is itself.
pub proof fn configuration_shows_its_fields(config: InstanceConfig, text: Option<&str>)
    ensures
        config@.name == config.name@,
        config@.actuator_base_url == config.actuator_base_url@,
        config.bearer_token is Some <==> config@.bearer_token is Some,
        config.bearer_token matches Some(token) ==> config@.bearer_token == Some(token@),
        text is Some <==> optional_str(text) is Some,
        text matches Some(t) ==> optional_str(text) == Some(t@),
{
}

} // verus!
