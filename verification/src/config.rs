//! Configuration: what the environment's variables mean, and which of them are
//! refused.
use vstd::prelude::*;

use crate::domain::text_of;
use crate::moderation::{
    alphanumeric, ascii, is_alphanumeric, law_a_listed_word_is_blanked, lowercased, masked, stars,
    to_lowercase,
};
use crate::text::{
    ascii_lower, ascii_lowercase, ascii_upper, ascii_uppercase, find_value, is_white_space, pairs,
    parse_unsigned, parsed_unsigned, same, slice_text, texts, to_ascii_lowercase, to_chars, trim,
    trimmed, value_named, white_space,
};

verus! {

// ---------------------------------------------------------------------------
// Variables
// ---------------------------------------------------------------------------
/// The environment's variables.
pub struct EnvVars {
    pub vars: Vec<(String, String)>,
}

impl View for EnvVars {
    type V = Seq<(Seq<char>, Seq<char>)>;

    open spec fn view(&self) -> Seq<(Seq<char>, Seq<char>)> {
        pairs(self.vars@)
    }
}

/// The value of a variable, or else a default.
pub open spec fn setting(
    env: Seq<(Seq<char>, Seq<char>)>,
    name: Seq<char>,
    default: Seq<char>,
) -> Seq<char> {
    match value_named(env, name) {
        Some(value) => value,
        None => default,
    }
}

/// The trimmed value of a variable, if anything is left of it.
pub open spec fn nonempty_setting(
    env: Seq<(Seq<char>, Seq<char>)>,
    name: Seq<char>,
) -> Option<Seq<char>> {
    match value_named(env, name) {
        Some(value) => if trimmed(value).len() > 0 {
            Some(trimmed(value))
        } else {
            None
        },
        None => None,
    }
}

/// The flag that a variable sets: `true` or `false` to the letter, or else a
/// default. Anything else is refused.
pub open spec fn flag_setting(
    env: Seq<(Seq<char>, Seq<char>)>,
    name: Seq<char>,
    default: bool,
) -> Option<bool> {
    match value_named(env, name) {
        Some(value) => if value == "true"@ {
            Some(true)
        } else if value == "false"@ {
            Some(false)
        } else {
            None
        },
        None => Some(default),
    }
}

/// The number that a variable sets, or else a default. Anything that is no
/// unsigned number up to `max` is refused.
pub open spec fn number_setting(
    env: Seq<(Seq<char>, Seq<char>)>,
    name: Seq<char>,
    default: nat,
    max: nat,
) -> Option<nat> {
    match value_named(env, name) {
        Some(value) => parsed_unsigned(value, max),
        None => Some(default),
    }
}

impl EnvVars {
    pub fn env_string(&self, name: &str, default: &str) -> (res: String)
        ensures
            res@ == setting(self@, name@, default@),
    {
        match find_value(self.vars.as_slice(), name) {
            Some(value) => value.to_owned(),
            None => default.to_owned(),
        }
    }

    pub fn nonempty_env(&self, name: &str) -> (res: Option<String>)
        ensures
            match res {
                Some(value) => nonempty_setting(self@, name@) == Some(value@),
                None => nonempty_setting(self@, name@) is None,
            },
    {
        match find_value(self.vars.as_slice(), name) {
            Some(value) => {
                let value = trim(value);
                if value.as_str().is_empty() {
                    None
                } else {
                    Some(value)
                }
            },
            None => None,
        }
    }

    pub fn env_flag(&self, name: &str, default: bool) -> (res: Option<bool>)
        ensures
            res == flag_setting(self@, name@, default),
    {
        match find_value(self.vars.as_slice(), name) {
            Some(value) => if same(value, "true") {
                Some(true)
            } else if same(value, "false") {
                Some(false)
            } else {
                None
            },
            None => Some(default),
        }
    }

    pub fn env_number(&self, name: &str, default: u64, max: u64) -> (res: Option<u64>)
        ensures
            match res {
                Some(n) => number_setting(self@, name@, default as nat, max as nat) == Some(
                    n as nat,
                ) && (n <= max || n == default),
                None => number_setting(self@, name@, default as nat, max as nat) is None,
            },
    {
        match find_value(self.vars.as_slice(), name) {
            Some(value) => parse_unsigned(value, max),
            None => Some(default),
        }
    }
}

// ---------------------------------------------------------------------------
// Errors
// ---------------------------------------------------------------------------
/// Why a configuration is refused.
#[derive(Debug, PartialEq, Eq)]
pub enum ConfigError {
    /// A variable's value is neither a flag nor a number, where it has to be.
    InvalidValue(String),
    UnsupportedProvider(String),
    MissingOpenAiKey,
    UnmoderatedTwilio,
    InvalidBindAddress,
    WebhookWithoutAccount,
    WebhookWithoutToken,
    WebhookNotAbsolute,
    WebhookNotHttp,
    PollingWithoutAccount,
    PollingWithoutCredentials,
}

#[verifier::ext_equal]
pub enum ConfigErrorView {
    InvalidValue(Seq<char>),
    UnsupportedProvider(Seq<char>),
    MissingOpenAiKey,
    UnmoderatedTwilio,
    InvalidBindAddress,
    WebhookWithoutAccount,
    WebhookWithoutToken,
    WebhookNotAbsolute,
    WebhookNotHttp,
    PollingWithoutAccount,
    PollingWithoutCredentials,
}

impl View for ConfigError {
    type V = ConfigErrorView;

    open spec fn view(&self) -> ConfigErrorView {
        match self {
            ConfigError::InvalidValue(name) => ConfigErrorView::InvalidValue(name@),
            ConfigError::UnsupportedProvider(value) => ConfigErrorView::UnsupportedProvider(value@),
            ConfigError::MissingOpenAiKey => ConfigErrorView::MissingOpenAiKey,
            ConfigError::UnmoderatedTwilio => ConfigErrorView::UnmoderatedTwilio,
            ConfigError::InvalidBindAddress => ConfigErrorView::InvalidBindAddress,
            ConfigError::WebhookWithoutAccount => ConfigErrorView::WebhookWithoutAccount,
            ConfigError::WebhookWithoutToken => ConfigErrorView::WebhookWithoutToken,
            ConfigError::WebhookNotAbsolute => ConfigErrorView::WebhookNotAbsolute,
            ConfigError::WebhookNotHttp => ConfigErrorView::WebhookNotHttp,
            ConfigError::PollingWithoutAccount => ConfigErrorView::PollingWithoutAccount,
            ConfigError::PollingWithoutCredentials => ConfigErrorView::PollingWithoutCredentials,
        }
    }
}

/// A text in quotes, as std's `Debug` writes it.
pub uninterp spec fn debug_quoted(s: Seq<char>) -> Seq<char>;

/// The `Debug` of `str` of std: the text in double quotes, with escapes.
#[verifier::external_body]
fn quote_for_debug(s: &str) -> (res: String)
    ensures
        res@ == debug_quoted(s@),
{
    format!("{s:?}")
}

/// How a refusal is worded.
pub open spec fn config_error_text(error: ConfigErrorView) -> Seq<char> {
    match error {
        ConfigErrorView::InvalidValue(name) => "invalid value for "@ + name,
        ConfigErrorView::UnsupportedProvider(value) => "unsupported MODEL_PROVIDER "@
            + debug_quoted(value) + "; expected fixture or openai"@,
        ConfigErrorView::MissingOpenAiKey =>
            "OPENAI_API_KEY is required when MODEL_PROVIDER=openai"@,
        ConfigErrorView::UnmoderatedTwilio =>
            "SHOW_RAW_CONFESSIONS with Twilio requires explicit ALLOW_UNMODERATED_TWILIO=true"@,
        ConfigErrorView::InvalidBindAddress =>
            "BIND_ADDRESS must be a socket address such as 127.0.0.1:3000"@,
        ConfigErrorView::WebhookWithoutAccount => "TWILIO_WEBHOOK_URL requires TWILIO_ACCOUNT_SID"@,
        ConfigErrorView::WebhookWithoutToken => "TWILIO_WEBHOOK_URL requires TWILIO_AUTH_TOKEN"@,
        ConfigErrorView::WebhookNotAbsolute =>
            "TWILIO_WEBHOOK_URL must be an absolute public URL"@,
        ConfigErrorView::WebhookNotHttp => "TWILIO_WEBHOOK_URL must be an absolute HTTP(S) URL"@,
        ConfigErrorView::PollingWithoutAccount =>
            "TWILIO_NUMBER requires TWILIO_ACCOUNT_SID for API polling"@,
        ConfigErrorView::PollingWithoutCredentials =>
            "Twilio polling needs TWILIO_API_KEY_SID + TWILIO_API_KEY_SECRET (preferred) or TWILIO_AUTH_TOKEN"@,
    }
}

impl ConfigError {
    pub fn message(&self) -> (res: String)
        ensures
            res@ == config_error_text(self@),
    {
        match self {
            ConfigError::InvalidValue(name) => {
                let mut out = "invalid value for ".to_owned();
                out.append(name.as_str());
                out
            },
            ConfigError::UnsupportedProvider(value) => {
                let mut out = "unsupported MODEL_PROVIDER ".to_owned();
                let quoted = quote_for_debug(value.as_str());
                out.append(quoted.as_str());
                out.append("; expected fixture or openai");
                out
            },
            ConfigError::MissingOpenAiKey =>
                "OPENAI_API_KEY is required when MODEL_PROVIDER=openai".to_owned(),
            ConfigError::UnmoderatedTwilio =>
                "SHOW_RAW_CONFESSIONS with Twilio requires explicit ALLOW_UNMODERATED_TWILIO=true".to_owned(),
            ConfigError::InvalidBindAddress =>
                "BIND_ADDRESS must be a socket address such as 127.0.0.1:3000".to_owned(),
            ConfigError::WebhookWithoutAccount =>
                "TWILIO_WEBHOOK_URL requires TWILIO_ACCOUNT_SID".to_owned(),
            ConfigError::WebhookWithoutToken =>
                "TWILIO_WEBHOOK_URL requires TWILIO_AUTH_TOKEN".to_owned(),
            ConfigError::WebhookNotAbsolute =>
                "TWILIO_WEBHOOK_URL must be an absolute public URL".to_owned(),
            ConfigError::WebhookNotHttp =>
                "TWILIO_WEBHOOK_URL must be an absolute HTTP(S) URL".to_owned(),
            ConfigError::PollingWithoutAccount =>
                "TWILIO_NUMBER requires TWILIO_ACCOUNT_SID for API polling".to_owned(),
            ConfigError::PollingWithoutCredentials =>
                "Twilio polling needs TWILIO_API_KEY_SID + TWILIO_API_KEY_SECRET (preferred) or TWILIO_AUTH_TOKEN".to_owned(),
        }
    }
}

// ---------------------------------------------------------------------------
// The model provider
// ---------------------------------------------------------------------------
#[derive(Debug, Clone, Copy, PartialEq, Eq, Structural)]
pub enum ModelProvider {
    Fixture,
    OpenAi,
}

/// The provider that a text names, in whatever case and with or without white
/// space around it.
pub open spec fn provider_named(value: Seq<char>) -> Result<ModelProvider, ConfigErrorView> {
    let word = ascii_lowercase(trimmed(value));
    if word == "fixture"@ {
        Ok(ModelProvider::Fixture)
    } else if word == "openai"@ {
        Ok(ModelProvider::OpenAi)
    } else {
        Err(ConfigErrorView::UnsupportedProvider(word))
    }
}

impl ModelProvider {
    pub fn as_str(self) -> (res: &'static str)
        ensures
            res@ == match self {
                ModelProvider::Fixture => "fixture"@,
                ModelProvider::OpenAi => "openai"@,
            },
    {
        match self {
            ModelProvider::Fixture => "fixture",
            ModelProvider::OpenAi => "openai",
        }
    }

    pub fn parse(value: &str) -> (res: Result<Self, ConfigError>)
        ensures
            match res {
                Ok(provider) => provider_named(value@) == Ok::<ModelProvider, ConfigErrorView>(
                    provider,
                ),
                Err(error) => provider_named(value@) == Err::<ModelProvider, ConfigErrorView>(
                    error@,
                ),
            },
    {
        let said = trim(value);
        let word = to_ascii_lowercase(said.as_str());
        if same(word.as_str(), "fixture") {
            Ok(ModelProvider::Fixture)
        } else if same(word.as_str(), "openai") {
            Ok(ModelProvider::OpenAi)
        } else {
            Err(ConfigError::UnsupportedProvider(word))
        }
    }
}

impl core::str::FromStr for ModelProvider {
    type Err = ConfigError;

    fn from_str(value: &str) -> (res: Result<Self, ConfigError>)
        ensures
            match res {
                Ok(provider) => provider_named(value@) == Ok::<ModelProvider, ConfigErrorView>(
                    provider,
                ),
                Err(error) => provider_named(value@) == Err::<ModelProvider, ConfigErrorView>(
                    error@,
                ),
            },
    {
        ModelProvider::parse(value)
    }
}

// ---------------------------------------------------------------------------
// Temporal
// ---------------------------------------------------------------------------
#[derive(Debug, PartialEq, Eq)]
pub struct TemporalConfig {
    pub task_queue: String,
}

impl TemporalConfig {
    pub fn from_env(env: &EnvVars) -> (res: Self)
        ensures
            res.task_queue@ == setting(env@, "TEMPORAL_TASK_QUEUE"@, "rust-confessional"@),
    {
        TemporalConfig {
            task_queue: env.env_string("TEMPORAL_TASK_QUEUE", "rust-confessional"),
        }
    }
}

// ---------------------------------------------------------------------------
// Masked words
// ---------------------------------------------------------------------------
/// A character that separates the entries of a word list.
pub open spec fn separates_entries(c: char) -> bool {
    c == ',' || is_white_space(c)
}

/// The entries of a word list: its longest runs of characters that separate
/// nothing.
pub open spec fn list_entries(s: Seq<char>) -> Seq<Seq<char>>
    decreases s.len(),
{
    if s.len() == 0 {
        Seq::empty()
    } else {
        let before = list_entries(s.drop_last());
        if separates_entries(s.last()) {
            before
        } else if s.len() == 1 || separates_entries(s[s.len() - 2]) {
            before.push(seq![s.last()])
        } else {
            before.drop_last().push(before.last().push(s.last()))
        }
    }
}

/// Letters and numbers only.
pub open spec fn all_alphanumeric(s: Seq<char>) -> bool {
    forall|i: int| 0 <= i < s.len() ==> alphanumeric(#[trigger] s[i])
}

/// The entries that masking can match, in lower case.
pub open spec fn matchable(entries: Seq<Seq<char>>) -> Seq<Seq<char>>
    decreases entries.len(),
{
    if entries.len() == 0 {
        Seq::empty()
    } else {
        let before = matchable(entries.drop_last());
        if all_alphanumeric(entries.last()) {
            before.push(lowercased(entries.last()))
        } else {
            before
        }
    }
}

fn separator(c: char) -> (res: bool)
    ensures
        res == separates_entries(c),
{
    c == ',' || white_space(c)
}

fn entry_matches(entry: &str) -> (res: bool)
    ensures
        res == all_alphanumeric(entry@),
{
    let chars = to_chars(entry);
    let mut i: usize = 0;
    while i < chars.len()
        invariant
            i <= chars@.len(),
            chars@ == entry@,
            forall|k: int| 0 <= k < i ==> alphanumeric(#[trigger] entry@[k]),
        decreases chars@.len() - i,
    {
        if !is_alphanumeric(chars[i]) {
            assert(!alphanumeric(entry@[i as int]));
            return false;
        }
        i += 1;
    }
    true
}

/// The entries of a list, of which the last is still growing.
spec fn with_open(done: Seq<Seq<char>>, open: Seq<char>) -> Seq<Seq<char>> {
    if open.len() == 0 {
        done
    } else {
        done.push(open)
    }
}

fn entries_of(raw: &str) -> (res: Vec<String>)
    ensures
        texts(res@) == list_entries(raw@),
{
    let chars = to_chars(raw);
    let mut out: Vec<String> = Vec::new();
    let mut open = String::new();
    let mut growing = false;
    let mut i: usize = 0;
    assert(texts(out@) =~= Seq::empty());
    while i < chars.len()
        invariant
            i <= chars@.len(),
            chars@ == raw@,
            growing == (open@.len() > 0),
            growing == (i > 0 && !separates_entries(raw@[i - 1])),
            list_entries(raw@.take(i as int)) == with_open(texts(out@), open@),
        decreases chars@.len() - i,
    {
        let c: char = chars[i];
        let ghost upto = raw@.take(i + 1);
        let ghost done = texts(out@);
        proof {
            assert(upto.drop_last() =~= raw@.take(i as int));
            assert(upto.last() == c);
            if i > 0 {
                assert(upto[i - 1] == raw@[i - 1]);
            }
        }
        if separator(c) {
            if growing {
                out.push(open);
                assert(texts(out@) =~= with_open(done, open@));
                open = String::new();
                growing = false;
            }
        } else {
            let ghost before = open@;
            open.push(c);
            growing = true;
            proof {
                if before.len() > 0 {
                    assert(done.push(before).drop_last() =~= done);
                    assert(done.push(before).last() == before);
                } else {
                    assert(open@ =~= seq![c]);
                }
                assert(with_open(done, open@) == done.push(open@));
            }
        }
        i += 1;
    }
    assert(raw@.take(i as int) =~= raw@);
    if growing {
        let ghost done = texts(out@);
        out.push(open);
        assert(texts(out@) =~= done.push(open@));
    }
    out
}

/// Parses the `MASK_WORDS` list. Words may be separated by commas or any white
/// space, and are lowercased. Masking is whole-word over alphanumeric runs, so
/// entries with other characters could never match; those are dropped.
pub fn parse_mask_words(raw: &str) -> (res: Vec<String>)
    ensures
        texts(res@) == matchable(list_entries(raw@)),
{
    let entries = entries_of(raw);
    let ghost all = texts(entries@);
    let mut out: Vec<String> = Vec::new();
    let mut i: usize = 0;
    assert(texts(out@) =~= matchable(all.take(0)));
    while i < entries.len()
        invariant
            i <= entries@.len(),
            all == texts(entries@),
            texts(out@) == matchable(all.take(i as int)),
        decreases entries@.len() - i,
    {
        let ghost done = texts(out@);
        proof {
            assert(all.take(i + 1).drop_last() =~= all.take(i as int));
            assert(all.take(i + 1).last() == entries@[i as int]@);
        }
        if entry_matches(entries[i].as_str()) {
            let word = to_lowercase(entries[i].as_str());
            out.push(word);
            assert(texts(out@) =~= done.push(word@));
        }
        i += 1;
    }
    assert(all.take(i as int) =~= all);
    out
}

// ---------------------------------------------------------------------------
// Twilio webhooks
// ---------------------------------------------------------------------------
pub struct TwilioInboundConfig {
    pub account_sid: String,
    pub auth_token: String,
    pub webhook_url: String,
}

#[verifier::ext_equal]
pub struct InboundView {
    pub account_sid: Seq<char>,
    pub auth_token: Seq<char>,
    pub webhook_url: Seq<char>,
}

impl View for TwilioInboundConfig {
    type V = InboundView;

    open spec fn view(&self) -> InboundView {
        InboundView {
            account_sid: self.account_sid@,
            auth_token: self.auth_token@,
            webhook_url: self.webhook_url@,
        }
    }
}

/// The scheme and the host that `url::Url::parse` reads off a text, if the text
/// is an absolute URL.
pub uninterp spec fn url_scheme_and_host(text: Seq<char>) -> Option<
    (Seq<char>, Option<Seq<char>>),
>;

/// What a parsed URL holds.
pub open spec fn scheme_and_host(parsed: Option<(String, Option<String>)>) -> Option<
    (Seq<char>, Option<Seq<char>>),
> {
    match parsed {
        Some((scheme, Some(host))) => Some((scheme@, Some(host@))),
        Some((scheme, None)) => Some((scheme@, None)),
        None => None,
    }
}

/// `url::Url::parse`, with `Url::scheme` and `Url::host_str` of what it gives:
/// the scheme of an absolute URL, and its host if it has one.
#[verifier::external_body]
fn parse_url(text: &str) -> (res: Option<(String, Option<String>)>)
    ensures
        scheme_and_host(res) == url_scheme_and_host(text@),
{
    match url::Url::parse(text) {
        Ok(parsed) => Some((parsed.scheme().to_owned(), parsed.host_str().map(str::to_owned))),
        Err(_) => None,
    }
}

/// What is wrong with a webhook's URL, if anything: it has to be absolute, with
/// the scheme of HTTP or HTTPS, and with a host.
pub open spec fn webhook_fault(parsed: Option<(Seq<char>, Option<Seq<char>>)>) -> Option<
    ConfigErrorView,
> {
    match parsed {
        None => Some(ConfigErrorView::WebhookNotAbsolute),
        Some((scheme, host)) => if (scheme == "http"@ || scheme == "https"@) && host is Some {
            None
        } else {
            Some(ConfigErrorView::WebhookNotHttp)
        },
    }
}

/// Accepts the URL of a webhook by what was read off it.
pub fn check_webhook_url(parsed: Option<(String, Option<String>)>) -> (res: Result<
    (),
    ConfigError,
>)
    ensures
        match res {
            Ok(_) => webhook_fault(scheme_and_host(parsed)) is None,
            Err(error) => webhook_fault(scheme_and_host(parsed)) == Some(error@),
        },
{
    match parsed {
        None => Err(ConfigError::WebhookNotAbsolute),
        Some((scheme, host)) => if (same(scheme.as_str(), "http") || same(
            scheme.as_str(),
            "https",
        )) && host.is_some() {
            Ok(())
        } else {
            Err(ConfigError::WebhookNotHttp)
        },
    }
}

/// The webhook that the environment configures. It is keyed on
/// `TWILIO_WEBHOOK_URL`.
pub open spec fn inbound_of(env: Seq<(Seq<char>, Seq<char>)>) -> Result<
    Option<InboundView>,
    ConfigErrorView,
> {
    match nonempty_setting(env, "TWILIO_WEBHOOK_URL"@) {
        None => Ok(None),
        Some(webhook_url) => match nonempty_setting(env, "TWILIO_ACCOUNT_SID"@) {
            None => Err(ConfigErrorView::WebhookWithoutAccount),
            Some(account_sid) => match nonempty_setting(env, "TWILIO_AUTH_TOKEN"@) {
                None => Err(ConfigErrorView::WebhookWithoutToken),
                Some(auth_token) => match webhook_fault(url_scheme_and_host(webhook_url)) {
                    Some(error) => Err(error),
                    None => Ok(Some(InboundView { account_sid, auth_token, webhook_url })),
                },
            },
        },
    }
}

/// The view of an optional webhook configuration.
pub open spec fn inbound_view(config: Option<TwilioInboundConfig>) -> Option<InboundView> {
    match config {
        Some(config) => Some(config@),
        None => None,
    }
}

impl TwilioInboundConfig {
    /// The inbound webhook is keyed on `TWILIO_WEBHOOK_URL`: it activates only
    /// when that URL is present. `TWILIO_ACCOUNT_SID` alone does not imply
    /// webhook mode, because the API poller reuses it without a public URL.
    pub fn from_env(env: &EnvVars) -> (res: Result<Option<Self>, ConfigError>)
        ensures
            match res {
                Ok(config) => inbound_of(env@) == Ok::<Option<InboundView>, ConfigErrorView>(
                    inbound_view(config),
                ),
                Err(error) => inbound_of(env@) == Err::<Option<InboundView>, ConfigErrorView>(
                    error@,
                ),
            },
    {
        let webhook_url = match env.nonempty_env("TWILIO_WEBHOOK_URL") {
            Some(value) => value,
            None => return Ok(None),
        };
        let account_sid = match env.nonempty_env("TWILIO_ACCOUNT_SID") {
            Some(value) => value,
            None => return Err(ConfigError::WebhookWithoutAccount),
        };
        let auth_token = match env.nonempty_env("TWILIO_AUTH_TOKEN") {
            Some(value) => value,
            None => return Err(ConfigError::WebhookWithoutToken),
        };
        match check_webhook_url(parse_url(webhook_url.as_str())) {
            Ok(_) => Ok(Some(TwilioInboundConfig { account_sid, auth_token, webhook_url })),
            Err(error) => Err(error),
        }
    }
}

// ---------------------------------------------------------------------------
// Twilio polling
// ---------------------------------------------------------------------------
/// Credentials and cadence for polling Twilio's REST API for inbound messages.
pub struct TwilioPollConfig {
    pub account_sid: String,
    /// HTTP basic-auth username: an API key SID when available, else the account
    /// SID paired with the auth token.
    pub auth_username: String,
    pub auth_password: String,
    /// The Twilio number to watch, in E.164; polled as the `To` of inbound texts.
    pub number: String,
    /// In seconds.
    pub poll_interval: u64,
}

#[verifier::ext_equal]
pub struct PollView {
    pub account_sid: Seq<char>,
    pub auth_username: Seq<char>,
    pub auth_password: Seq<char>,
    pub number: Seq<char>,
    pub poll_interval: nat,
}

impl View for TwilioPollConfig {
    type V = PollView;

    open spec fn view(&self) -> PollView {
        PollView {
            account_sid: self.account_sid@,
            auth_username: self.auth_username@,
            auth_password: self.auth_password@,
            number: self.number@,
            poll_interval: self.poll_interval as nat,
        }
    }
}

/// The credentials for polling: an API key if both halves of one are there, else
/// the account with its token.
pub open spec fn poll_credentials(
    env: Seq<(Seq<char>, Seq<char>)>,
    account_sid: Seq<char>,
) -> Option<(Seq<char>, Seq<char>)> {
    let key_sid = nonempty_setting(env, "TWILIO_API_KEY_SID"@);
    let key_secret = nonempty_setting(env, "TWILIO_API_KEY_SECRET"@);
    let auth_token = nonempty_setting(env, "TWILIO_AUTH_TOKEN"@);
    if key_sid is Some && key_secret is Some {
        Some((key_sid->0, key_secret->0))
    } else if auth_token is Some {
        Some((account_sid, auth_token->0))
    } else {
        None
    }
}

/// The polling that the environment configures. It is keyed on `TWILIO_NUMBER`;
/// its interval is at least a second.
pub open spec fn poll_of(env: Seq<(Seq<char>, Seq<char>)>) -> Result<
    Option<PollView>,
    ConfigErrorView,
> {
    match nonempty_setting(env, "TWILIO_NUMBER"@) {
        None => Ok(None),
        Some(number) => match nonempty_setting(env, "TWILIO_ACCOUNT_SID"@) {
            None => Err(ConfigErrorView::PollingWithoutAccount),
            Some(account_sid) => match poll_credentials(env, account_sid) {
                None => Err(ConfigErrorView::PollingWithoutCredentials),
                Some((auth_username, auth_password)) => match number_setting(
                    env,
                    "TWILIO_POLL_SECONDS"@,
                    4,
                    u64::MAX as nat,
                ) {
                    None => Err(ConfigErrorView::InvalidValue("TWILIO_POLL_SECONDS"@)),
                    Some(seconds) => Ok(
                        Some(
                            PollView {
                                account_sid,
                                auth_username,
                                auth_password,
                                number,
                                poll_interval: if seconds < 1 {
                                    1
                                } else {
                                    seconds
                                },
                            },
                        ),
                    ),
                },
            },
        },
    }
}

/// The view of an optional polling configuration.
pub open spec fn poll_view(config: Option<TwilioPollConfig>) -> Option<PollView> {
    match config {
        Some(config) => Some(config@),
        None => None,
    }
}

impl TwilioPollConfig {
    /// Polling activates when `TWILIO_NUMBER` is set. Credentials prefer an API
    /// key (`TWILIO_API_KEY_SID` + `TWILIO_API_KEY_SECRET`) and fall back to
    /// `TWILIO_AUTH_TOKEN`.
    pub fn from_env(env: &EnvVars) -> (res: Result<Option<Self>, ConfigError>)
        ensures
            match res {
                Ok(config) => poll_of(env@) == Ok::<Option<PollView>, ConfigErrorView>(
                    poll_view(config),
                ),
                Err(error) => poll_of(env@) == Err::<Option<PollView>, ConfigErrorView>(error@),
            },
    {
        let number = match env.nonempty_env("TWILIO_NUMBER") {
            Some(value) => value,
            None => return Ok(None),
        };
        let account_sid = match env.nonempty_env("TWILIO_ACCOUNT_SID") {
            Some(value) => value,
            None => return Err(ConfigError::PollingWithoutAccount),
        };
        let key_sid = env.nonempty_env("TWILIO_API_KEY_SID");
        let key_secret = env.nonempty_env("TWILIO_API_KEY_SECRET");
        let auth_token = env.nonempty_env("TWILIO_AUTH_TOKEN");
        let (auth_username, auth_password) = match (key_sid, key_secret, auth_token) {
            (Some(key_sid), Some(key_secret), _) => (key_sid, key_secret),
            (_, _, Some(auth_token)) => (account_sid.clone(), auth_token),
            _ => return Err(ConfigError::PollingWithoutCredentials),
        };
        let seconds: u64 = match env.env_number("TWILIO_POLL_SECONDS", 4, u64::MAX) {
            Some(seconds) => seconds,
            None => return Err(ConfigError::InvalidValue("TWILIO_POLL_SECONDS".to_owned())),
        };
        Ok(
            Some(
                TwilioPollConfig {
                    account_sid,
                    auth_username,
                    auth_password,
                    number,
                    poll_interval: if seconds < 1 {
                        1
                    } else {
                        seconds
                    },
                },
            ),
        )
    }
}

// ---------------------------------------------------------------------------
// The stage
// ---------------------------------------------------------------------------
pub struct StageConfig {
    pub bind_address: String,
    pub data_path: String,
    pub static_dir: String,
    pub internal_token: String,
    pub max_confession_chars: usize,
    pub max_submissions_per_session: usize,
    pub show_raw_confessions: bool,
    pub twilio: Option<TwilioInboundConfig>,
    /// Outbound-only polling of Twilio's REST API, for hosts that cannot expose a
    /// public URL.
    pub twilio_poll: Option<TwilioPollConfig>,
    pub temporal: TemporalConfig,
    /// Operator-supplied words blanked on the stage projection.
    pub mask_words: Vec<String>,
}

#[verifier::ext_equal]
pub struct StageConfigView {
    pub bind_address: Seq<char>,
    pub data_path: Seq<char>,
    pub static_dir: Seq<char>,
    pub internal_token: Seq<char>,
    pub max_confession_chars: nat,
    pub max_submissions_per_session: nat,
    pub show_raw_confessions: bool,
    pub twilio: Option<InboundView>,
    pub twilio_poll: Option<PollView>,
    pub task_queue: Seq<char>,
    pub mask_words: Seq<Seq<char>>,
}

impl View for StageConfig {
    type V = StageConfigView;

    open spec fn view(&self) -> StageConfigView {
        StageConfigView {
            bind_address: self.bind_address@,
            data_path: self.data_path@,
            static_dir: self.static_dir@,
            internal_token: self.internal_token@,
            max_confession_chars: self.max_confession_chars as nat,
            max_submissions_per_session: self.max_submissions_per_session as nat,
            show_raw_confessions: self.show_raw_confessions,
            twilio: inbound_view(self.twilio),
            twilio_poll: poll_view(self.twilio_poll),
            task_queue: self.temporal.task_queue@,
            mask_words: texts(self.mask_words@),
        }
    }
}

/// The address that the environment asks the stage to bind.
pub open spec fn bind_address_of(env: Seq<(Seq<char>, Seq<char>)>) -> Seq<char> {
    setting(env, "BIND_ADDRESS"@, "127.0.0.1:3000"@)
}

/// The address that the environment asks the stage to bind.
pub fn bind_address(env: &EnvVars) -> (res: String)
    ensures
        res@ == bind_address_of(env@),
{
    env.env_string("BIND_ADDRESS", "127.0.0.1:3000")
}

/// The first variable of the stage's own that is refused, if one is. Raw
/// confessions from Twilio need an explicit opt-in.
pub open spec fn stage_fault(
    env: Seq<(Seq<char>, Seq<char>)>,
    has_twilio: bool,
    address_parses: bool,
) -> Option<ConfigErrorView> {
    let show_raw = flag_setting(env, "SHOW_RAW_CONFESSIONS"@, false);
    let allow = flag_setting(env, "ALLOW_UNMODERATED_TWILIO"@, false);
    if show_raw is None {
        Some(ConfigErrorView::InvalidValue("SHOW_RAW_CONFESSIONS"@))
    } else if allow is None {
        Some(ConfigErrorView::InvalidValue("ALLOW_UNMODERATED_TWILIO"@))
    } else if has_twilio && show_raw == Some(true) && allow == Some(false) {
        Some(ConfigErrorView::UnmoderatedTwilio)
    } else if !address_parses {
        Some(ConfigErrorView::InvalidBindAddress)
    } else if number_setting(env, "MAX_CONFESSION_CHARS"@, 500, usize::MAX as nat) is None {
        Some(ConfigErrorView::InvalidValue("MAX_CONFESSION_CHARS"@))
    } else if number_setting(env, "MAX_SUBMISSIONS_PER_SESSION"@, 20, usize::MAX as nat) is None {
        Some(ConfigErrorView::InvalidValue("MAX_SUBMISSIONS_PER_SESSION"@))
    } else {
        None
    }
}

/// The stage that the environment configures, where `address_parses` says
/// whether the address to bind is a socket address.
pub open spec fn stage_of(env: Seq<(Seq<char>, Seq<char>)>, address_parses: bool) -> Result<
    StageConfigView,
    ConfigErrorView,
> {
    match inbound_of(env) {
        Err(error) => Err(error),
        Ok(twilio) => match poll_of(env) {
            Err(error) => Err(error),
            Ok(twilio_poll) => match stage_fault(
                env,
                twilio is Some || twilio_poll is Some,
                address_parses,
            ) {
                Some(error) => Err(error),
                None => Ok(
                    StageConfigView {
                        bind_address: bind_address_of(env),
                        data_path: "data/stage.json"@,
                        static_dir: "static"@,
                        internal_token: setting(env, "STAGE_INTERNAL_TOKEN"@, "local-demo-token"@),
                        max_confession_chars: number_setting(
                            env,
                            "MAX_CONFESSION_CHARS"@,
                            500,
                            usize::MAX as nat,
                        )->0,
                        max_submissions_per_session: number_setting(
                            env,
                            "MAX_SUBMISSIONS_PER_SESSION"@,
                            20,
                            usize::MAX as nat,
                        )->0,
                        show_raw_confessions: flag_setting(env, "SHOW_RAW_CONFESSIONS"@, false)->0,
                        twilio,
                        twilio_poll,
                        task_queue: setting(env, "TEMPORAL_TASK_QUEUE"@, "rust-confessional"@),
                        mask_words: matchable(list_entries(setting(env, "MASK_WORDS"@, ""@))),
                    },
                ),
            },
        },
    }
}

impl StageConfig {
    pub fn from_env(env: &EnvVars, address_parses: bool) -> (res: Result<Self, ConfigError>)
        ensures
            match res {
                Ok(config) => stage_of(env@, address_parses) == Ok::<
                    StageConfigView,
                    ConfigErrorView,
                >(config@),
                Err(error) => stage_of(env@, address_parses) == Err::<
                    StageConfigView,
                    ConfigErrorView,
                >(error@),
            },
    {
        let twilio = match TwilioInboundConfig::from_env(env) {
            Ok(twilio) => twilio,
            Err(error) => return Err(error),
        };
        let twilio_poll = match TwilioPollConfig::from_env(env) {
            Ok(twilio_poll) => twilio_poll,
            Err(error) => return Err(error),
        };
        let show_raw_confessions = match env.env_flag("SHOW_RAW_CONFESSIONS", false) {
            Some(flag) => flag,
            None => return Err(ConfigError::InvalidValue("SHOW_RAW_CONFESSIONS".to_owned())),
        };
        let allow_unmoderated_twilio = match env.env_flag("ALLOW_UNMODERATED_TWILIO", false) {
            Some(flag) => flag,
            None => return Err(ConfigError::InvalidValue("ALLOW_UNMODERATED_TWILIO".to_owned())),
        };
        if (twilio.is_some() || twilio_poll.is_some()) && show_raw_confessions
            && !allow_unmoderated_twilio {
            return Err(ConfigError::UnmoderatedTwilio);
        }
        if !address_parses {
            return Err(ConfigError::InvalidBindAddress);
        }
        let max_confession_chars: u64 = match env.env_number(
            "MAX_CONFESSION_CHARS",
            500,
            usize::MAX as u64,
        ) {
            Some(number) => number,
            None => return Err(ConfigError::InvalidValue("MAX_CONFESSION_CHARS".to_owned())),
        };
        let max_submissions_per_session: u64 = match env.env_number(
            "MAX_SUBMISSIONS_PER_SESSION",
            20,
            usize::MAX as u64,
        ) {
            Some(number) => number,
            None => return Err(
                ConfigError::InvalidValue("MAX_SUBMISSIONS_PER_SESSION".to_owned()),
            ),
        };
        let words = env.env_string("MASK_WORDS", "");
        Ok(
            StageConfig {
                bind_address: bind_address(env),
                data_path: "data/stage.json".to_owned(),
                static_dir: "static".to_owned(),
                internal_token: env.env_string("STAGE_INTERNAL_TOKEN", "local-demo-token"),
                max_confession_chars: max_confession_chars as usize,
                max_submissions_per_session: max_submissions_per_session as usize,
                show_raw_confessions,
                twilio,
                twilio_poll,
                temporal: TemporalConfig::from_env(env),
                mask_words: parse_mask_words(words.as_str()),
            },
        )
    }
}

// ---------------------------------------------------------------------------
// The worker
// ---------------------------------------------------------------------------
pub struct WorkerConfig {
    pub temporal: TemporalConfig,
    pub stage_internal_url: String,
    pub stage_internal_token: String,
    pub model_provider: ModelProvider,
    pub openai_api_key: Option<String>,
    pub openai_model: String,
    /// In seconds.
    pub model_timeout: u64,
}

#[verifier::ext_equal]
pub struct WorkerConfigView {
    pub task_queue: Seq<char>,
    pub stage_internal_url: Seq<char>,
    pub stage_internal_token: Seq<char>,
    pub model_provider: ModelProvider,
    pub openai_api_key: Option<Seq<char>>,
    pub openai_model: Seq<char>,
    pub model_timeout: nat,
}

impl View for WorkerConfig {
    type V = WorkerConfigView;

    open spec fn view(&self) -> WorkerConfigView {
        WorkerConfigView {
            task_queue: self.temporal.task_queue@,
            stage_internal_url: self.stage_internal_url@,
            stage_internal_token: self.stage_internal_token@,
            model_provider: self.model_provider,
            openai_api_key: text_of(self.openai_api_key),
            openai_model: self.openai_model@,
            model_timeout: self.model_timeout as nat,
        }
    }
}

/// `s` without the slashes at its end.
pub open spec fn without_slashes(s: Seq<char>) -> Seq<char>
    decreases s.len(),
{
    if s.len() > 0 && s.last() == '/' {
        without_slashes(s.drop_last())
    } else {
        s
    }
}

fn trim_slashes(s: &str) -> (res: String)
    ensures
        res@ == without_slashes(s@),
{
    let chars = to_chars(s);
    let mut n: usize = chars.len();
    assert(chars@.take(n as int) =~= s@);
    while n > 0 && chars[n - 1] == '/'
        invariant
            n <= chars@.len(),
            without_slashes(s@) == without_slashes(chars@.take(n as int)),
        decreases n,
    {
        assert(chars@.take(n as int).drop_last() =~= chars@.take(n - 1));
        n -= 1;
    }
    let res = slice_text(&chars, 0, n);
    assert(res@ =~= chars@.take(n as int));
    res
}

/// The value of a variable, if it is not empty.
pub open spec fn filled_setting(
    env: Seq<(Seq<char>, Seq<char>)>,
    name: Seq<char>,
) -> Option<Seq<char>> {
    match value_named(env, name) {
        Some(value) => if value.len() > 0 {
            Some(value)
        } else {
            None
        },
        None => None,
    }
}

/// The worker that the environment configures.
pub open spec fn worker_of(env: Seq<(Seq<char>, Seq<char>)>) -> Result<
    WorkerConfigView,
    ConfigErrorView,
> {
    let openai_api_key = filled_setting(env, "OPENAI_API_KEY"@);
    match provider_named(setting(env, "MODEL_PROVIDER"@, "fixture"@)) {
        Err(error) => Err(error),
        Ok(model_provider) => if model_provider == ModelProvider::OpenAi && openai_api_key is None {
            Err(ConfigErrorView::MissingOpenAiKey)
        } else {
            match number_setting(env, "MODEL_TIMEOUT_SECONDS"@, 12, u64::MAX as nat) {
                None => Err(ConfigErrorView::InvalidValue("MODEL_TIMEOUT_SECONDS"@)),
                Some(model_timeout) => Ok(
                    WorkerConfigView {
                        task_queue: setting(env, "TEMPORAL_TASK_QUEUE"@, "rust-confessional"@),
                        stage_internal_url: without_slashes(
                            setting(
                                env,
                                "STAGE_INTERNAL_URL"@,
                                "http://127.0.0.1:3000/api/internal"@,
                            ),
                        ),
                        stage_internal_token: setting(
                            env,
                            "STAGE_INTERNAL_TOKEN"@,
                            "local-demo-token"@,
                        ),
                        model_provider,
                        openai_api_key,
                        openai_model: setting(env, "OPENAI_MODEL"@, "gpt-5.6-luna"@),
                        model_timeout,
                    },
                ),
            }
        },
    }
}

impl WorkerConfig {
    /// A worker that talks to OpenAI has the key for it.
    pub open spec fn wf(self) -> bool {
        self.model_provider == ModelProvider::OpenAi ==> self.openai_api_key is Some
    }

    pub fn from_env(env: &EnvVars) -> (res: Result<Self, ConfigError>)
        ensures
            match res {
                Ok(config) => config.wf() && worker_of(env@) == Ok::<
                    WorkerConfigView,
                    ConfigErrorView,
                >(config@),
                Err(error) => worker_of(env@) == Err::<WorkerConfigView, ConfigErrorView>(error@),
            },
    {
        let provider = env.env_string("MODEL_PROVIDER", "fixture");
        let model_provider = match ModelProvider::parse(provider.as_str()) {
            Ok(model_provider) => model_provider,
            Err(error) => return Err(error),
        };
        let openai_api_key = match find_value(env.vars.as_slice(), "OPENAI_API_KEY") {
            Some(value) => if value.is_empty() {
                None
            } else {
                Some(value.to_owned())
            },
            None => None,
        };
        if model_provider == ModelProvider::OpenAi && openai_api_key.is_none() {
            return Err(ConfigError::MissingOpenAiKey);
        }
        let model_timeout: u64 = match env.env_number("MODEL_TIMEOUT_SECONDS", 12, u64::MAX) {
            Some(seconds) => seconds,
            None => return Err(ConfigError::InvalidValue("MODEL_TIMEOUT_SECONDS".to_owned())),
        };
        let url = env.env_string("STAGE_INTERNAL_URL", "http://127.0.0.1:3000/api/internal");
        Ok(
            WorkerConfig {
                temporal: TemporalConfig::from_env(env),
                stage_internal_url: trim_slashes(url.as_str()),
                stage_internal_token: env.env_string("STAGE_INTERNAL_TOKEN", "local-demo-token"),
                model_provider,
                openai_api_key,
                openai_model: env.env_string("OPENAI_MODEL", "gpt-5.6-luna"),
                model_timeout,
            },
        )
    }
}

// ---------------------------------------------------------------------------
// Laws
// ---------------------------------------------------------------------------
/// Raw confessions from Twilio reach the stage only where the environment says
/// so in as many words.
pub proof fn law_raw_twilio_needs_an_opt_in(
    env: Seq<(Seq<char>, Seq<char>)>,
    address_parses: bool,
)
    requires
        stage_of(env, address_parses) matches Ok(config) && config.show_raw_confessions && (
        config.twilio is Some || config.twilio_poll is Some),
    ensures
        value_named(env, "ALLOW_UNMODERATED_TWILIO"@) == Some("true"@),
{
}

/// The word is an entry of letters and numbers, in lower case.
pub open spec fn comes_from_an_entry(entries: Seq<Seq<char>>, word: Seq<char>) -> bool {
    exists|k: int|
        0 <= k < entries.len() && word == lowercased(#[trigger] entries[k]) && all_alphanumeric(
            entries[k],
        )
}

/// Every word that is kept to be masked consists of letters and numbers, taken
/// from the list in its order and put in lower case.
pub proof fn law_masked_words_are_matchable(entries: Seq<Seq<char>>)
    ensures
        matchable(entries).len() <= entries.len(),
        forall|i: int|
            0 <= i < matchable(entries).len() ==> comes_from_an_entry(
                entries,
                #[trigger] matchable(entries)[i],
            ),
    decreases entries.len(),
{
    if entries.len() > 0 {
        let rest = entries.drop_last();
        law_masked_words_are_matchable(rest);
        assert forall|i: int| 0 <= i < matchable(entries).len() implies comes_from_an_entry(
            entries,
            #[trigger] matchable(entries)[i],
        ) by {
            if i < matchable(rest).len() {
                let word = matchable(rest)[i];
                assert(matchable(entries)[i] == word);
                assert(comes_from_an_entry(rest, word));
                let k = choose|k: int|
                    0 <= k < rest.len() && word == lowercased(#[trigger] rest[k])
                        && all_alphanumeric(rest[k]);
                assert(entries[k] == rest[k]);
            } else {
                assert(entries[entries.len() - 1] == entries.last());
            }
        }
    }
}

proof fn lemma_entries(s: Seq<char>)
    ensures
        forall|k: int| 0 <= k < list_entries(s).len() ==> (#[trigger] list_entries(s)[k]).len() > 0,
        s.len() > 0 && !separates_entries(s.last()) ==> list_entries(s).len() > 0,
    decreases s.len(),
{
    if s.len() > 0 {
        let before = list_entries(s.drop_last());
        lemma_entries(s.drop_last());
        if s.len() > 1 {
            assert(s.drop_last().last() == s[s.len() - 2]);
        }
        assert forall|k: int| 0 <= k < list_entries(s).len() implies (
        #[trigger] list_entries(s)[k]).len() > 0 by {
            if k < before.len() {
                assert(before[k].len() > 0);
            }
        }
    }
}

/// A word by itself is a list of one entry.
proof fn lemma_one_entry(s: Seq<char>)
    requires
        s.len() > 0,
        forall|i: int| 0 <= i < s.len() ==> !separates_entries(#[trigger] s[i]),
    ensures
        list_entries(s) == seq![s],
    decreases s.len(),
{
    let rest = s.drop_last();
    assert(!separates_entries(s[s.len() - 1]));
    if s.len() == 1 {
        assert(list_entries(rest) =~= Seq::empty());
        assert(seq![s.last()] =~= s);
        assert(list_entries(s) =~= seq![s]);
    } else {
        assert forall|i: int| 0 <= i < rest.len() implies !separates_entries(
            #[trigger] rest[i],
        ) by {
            assert(!separates_entries(s[i]));
        }
        lemma_one_entry(rest);
        assert(!separates_entries(s[s.len() - 2]));
        assert(rest.push(s.last()) =~= s);
        assert(list_entries(s) =~= seq![s]);
    }
}

proof fn lemma_kept(entries: Seq<Seq<char>>, k: int)
    requires
        0 <= k < entries.len(),
        all_alphanumeric(entries[k]),
    ensures
        matchable(entries).contains(lowercased(entries[k])),
    decreases entries.len(),
{
    let rest = entries.drop_last();
    let word = lowercased(entries[k]);
    if k == entries.len() - 1 {
        assert(matchable(entries)[matchable(rest).len() as int] == word);
    } else {
        assert(rest[k] == entries[k]);
        lemma_kept(rest, k);
        let i = choose|i: int| 0 <= i < matchable(rest).len() && matchable(rest)[i] == word;
        assert(matchable(entries)[i] == word);
    }
}

proof fn lemma_case_keeps_words(s: Seq<char>)
    requires
        ascii(s),
        all_alphanumeric(s),
    ensures
        all_alphanumeric(ascii_uppercase(s)),
        all_alphanumeric(ascii_lowercase(s)),
        lowercased(ascii_uppercase(s)) == lowercased(s),
        lowercased(ascii_lowercase(s)) == lowercased(s),
{
    let upper = ascii_uppercase(s);
    let lower = ascii_lowercase(s);
    assert forall|i: int| 0 <= i < s.len() implies #[trigger] upper[i] as u32 <= 0x7f
        && alphanumeric(upper[i]) && ascii_lower(upper[i]) == ascii_lower(s[i]) by {
        assert(s[i] as u32 <= 0x7f && alphanumeric(s[i]));
        lemma_char_case(s[i]);
    }
    assert forall|i: int| 0 <= i < s.len() implies #[trigger] lower[i] as u32 <= 0x7f
        && alphanumeric(lower[i]) && ascii_lower(lower[i]) == ascii_lower(s[i]) by {
        assert(s[i] as u32 <= 0x7f && alphanumeric(s[i]));
        lemma_char_case(s[i]);
    }
    assert(ascii_lowercase(upper) =~= lower);
    assert(ascii_lowercase(lower) =~= lower);
}

proof fn lemma_char_case(c: char)
    requires
        c as u32 <= 0x7f,
        alphanumeric(c),
    ensures
        ascii_upper(c) as u32 <= 0x7f,
        ascii_lower(c) as u32 <= 0x7f,
        alphanumeric(ascii_upper(c)),
        alphanumeric(ascii_lower(c)),
        ascii_lower(ascii_upper(c)) == ascii_lower(c),
        ascii_lower(ascii_lower(c)) == ascii_lower(c),
{
}

/// Every word that the list keeps does get masked, whatever else the list holds,
/// and so is every word of letters and numbers that has the same lower case. A
/// word of ASCII is masked in upper case and in lower case.
pub proof fn law_kept_words_are_masked(raw: Seq<char>, k: int)
    requires
        0 <= k < list_entries(raw).len(),
        all_alphanumeric(list_entries(raw)[k]),
    ensures
        ({
            let word = list_entries(raw)[k];
            let words = matchable(list_entries(raw));
            &&& word.len() > 0
            &&& masked(word, words) == stars(word.len())
            &&& forall|other: Seq<char>|
                all_alphanumeric(other) && lowercased(other) == lowercased(word)
                    ==> #[trigger] masked(other, words) == stars(other.len())
            &&& ascii(word) ==> masked(ascii_uppercase(word), words) == stars(word.len())
                && masked(ascii_lowercase(word), words) == stars(word.len())
        }),
{
    let word = list_entries(raw)[k];
    let words = matchable(list_entries(raw));
    lemma_entries(raw);
    lemma_kept(list_entries(raw), k);
    law_a_listed_word_is_blanked(word, words);
    assert forall|other: Seq<char>|
        all_alphanumeric(other) && lowercased(other) == lowercased(word) implies #[trigger] masked(
        other,
        words,
    ) == stars(other.len()) by {
        law_a_listed_word_is_blanked(other, words);
    }
    if ascii(word) {
        lemma_case_keeps_words(word);
    }
}

/// A word that is the whole list is masked: any word of letters and numbers
/// without a separator in it, as every word of ASCII is. A word of ASCII is
/// masked in upper case too.
pub proof fn law_a_word_by_itself_is_masked(word: Seq<char>)
    requires
        word.len() > 0,
        all_alphanumeric(word),
        ascii(word) || forall|i: int| 0 <= i < word.len() ==> !separates_entries(#[trigger] word[i]),
    ensures
        matchable(list_entries(word)) == seq![lowercased(word)],
        masked(word, matchable(list_entries(word))) == stars(word.len()),
        ascii(word) ==> masked(ascii_uppercase(word), matchable(list_entries(word))) == stars(
            word.len(),
        ),
{
    if ascii(word) {
        assert forall|i: int| 0 <= i < word.len() implies !separates_entries(
            #[trigger] word[i],
        ) by {
            assert(word[i] as u32 <= 0x7f && alphanumeric(word[i]));
        }
    }
    lemma_one_entry(word);
    let entries = list_entries(word);
    assert(entries[0] == word);
    assert(entries.last() == word);
    assert(matchable(entries.drop_last()) =~= Seq::empty());
    assert(matchable(entries) =~= seq![lowercased(word)]);
    law_kept_words_are_masked(word, 0);
}

/// A separator splits a list, and a run without separators is one entry: what
/// stands on either side of a separator is read by itself.
pub proof fn law_separators_split_a_list(s: Seq<char>, separator: char, t: Seq<char>)
    requires
        separator == ',' || is_white_space(separator),
    ensures
        list_entries(s + seq![separator] + t) == list_entries(s) + list_entries(t),
    decreases t.len(),
{
    let head = s + seq![separator];
    assert(head.drop_last() =~= s);
    assert(head.last() == separator);
    if t.len() == 0 {
        assert(head + t =~= head);
        assert(list_entries(s) + list_entries(t) =~= list_entries(s));
    } else {
        let rest = t.drop_last();
        law_separators_split_a_list(s, separator, rest);
        let whole = head + t;
        assert(whole.drop_last() =~= head + rest);
        assert(whole.last() == t.last());
        let before = list_entries(rest);
        if rest.len() > 0 {
            assert(whole[whole.len() - 2] == t[t.len() - 2]);
            if !separates_entries(t[t.len() - 2]) {
                assert(rest.last() == t[t.len() - 2]);
                assert(before.len() > 0);
                assert((list_entries(s) + before).last() == before.last());
                assert((list_entries(s) + before).drop_last() =~= list_entries(s)
                    + before.drop_last());
            }
        } else {
            assert(whole[whole.len() - 2] == separator);
        }
        assert(list_entries(whole) =~= list_entries(s) + list_entries(t));
    }
}

/// A text without separators is one entry, as it is.
pub proof fn law_a_run_is_one_entry(s: Seq<char>)
    requires
        s.len() > 0,
        forall|i: int|
            0 <= i < s.len() ==> #[trigger] s[i] != ',' && !is_white_space(s[i]),
    ensures
        list_entries(s) == seq![s],
    decreases s.len(),
{
    assert(!separates_entries(s[s.len() - 1]));
    if s.len() == 1 {
        assert(list_entries(s.drop_last()) =~= Seq::empty());
        assert(seq![s.last()] =~= s);
        assert(list_entries(s) =~= seq![s]);
    } else {
        let rest = s.drop_last();
        assert forall|i: int| 0 <= i < rest.len() implies #[trigger] rest[i] != ','
            && !is_white_space(rest[i]) by {
            assert(rest[i] == s[i]);
        }
        law_a_run_is_one_entry(rest);
        assert(!separates_entries(s[s.len() - 2]));
        assert(rest.push(s.last()) =~= s);
        assert(list_entries(s) =~= seq![s]);
    }
}

/// A stage that is configured is as its variables say, and as the defaults say
/// where they say nothing.
pub proof fn law_the_stage_is_as_configured(
    env: Seq<(Seq<char>, Seq<char>)>,
    address_parses: bool,
)
    ensures
        stage_of(env, address_parses) matches Ok(config) ==> {
            &&& address_parses
            &&& config.bind_address == match value_named(env, "BIND_ADDRESS"@) {
                Some(address) => address,
                None => "127.0.0.1:3000"@,
            }
            &&& config.internal_token == match value_named(env, "STAGE_INTERNAL_TOKEN"@) {
                Some(token) => token,
                None => "local-demo-token"@,
            }
            &&& config.task_queue == match value_named(env, "TEMPORAL_TASK_QUEUE"@) {
                Some(queue) => queue,
                None => "rust-confessional"@,
            }
            &&& Some(config.max_confession_chars) == match value_named(env, "MAX_CONFESSION_CHARS"@) {
                Some(number) => parsed_unsigned(number, usize::MAX as nat),
                None => Some(500),
            }
            &&& Some(config.max_submissions_per_session) == match value_named(
                env,
                "MAX_SUBMISSIONS_PER_SESSION"@,
            ) {
                Some(number) => parsed_unsigned(number, usize::MAX as nat),
                None => Some(20),
            }
            &&& config.show_raw_confessions <==> value_named(env, "SHOW_RAW_CONFESSIONS"@) == Some(
                "true"@,
            )
            &&& config.twilio matches Some(twilio) ==> {
                &&& nonempty_setting(env, "TWILIO_WEBHOOK_URL"@) == Some(twilio.webhook_url)
                &&& nonempty_setting(env, "TWILIO_ACCOUNT_SID"@) == Some(twilio.account_sid)
                &&& nonempty_setting(env, "TWILIO_AUTH_TOKEN"@) == Some(twilio.auth_token)
            }
            &&& config.twilio is None <==> nonempty_setting(env, "TWILIO_WEBHOOK_URL"@) is None
            &&& config.twilio_poll matches Some(poll) ==> {
                &&& nonempty_setting(env, "TWILIO_NUMBER"@) == Some(poll.number)
                &&& nonempty_setting(env, "TWILIO_ACCOUNT_SID"@) == Some(poll.account_sid)
                &&& nonempty_setting(env, "TWILIO_API_KEY_SID"@) is Some && nonempty_setting(
                    env,
                    "TWILIO_API_KEY_SECRET"@,
                ) is Some ==> nonempty_setting(env, "TWILIO_API_KEY_SID"@) == Some(
                    poll.auth_username,
                ) && nonempty_setting(env, "TWILIO_API_KEY_SECRET"@) == Some(poll.auth_password)
                &&& nonempty_setting(env, "TWILIO_API_KEY_SID"@) is None || nonempty_setting(
                    env,
                    "TWILIO_API_KEY_SECRET"@,
                ) is None ==> poll.auth_username == poll.account_sid && nonempty_setting(
                    env,
                    "TWILIO_AUTH_TOKEN"@,
                ) == Some(poll.auth_password)
                &&& poll.poll_interval >= 1
                &&& value_named(env, "TWILIO_POLL_SECONDS"@) is None ==> poll.poll_interval == 4
                &&& value_named(env, "TWILIO_POLL_SECONDS"@) matches Some(number)
                    ==> parsed_unsigned(number, u64::MAX as nat) == Some(poll.poll_interval) || (
                poll.poll_interval == 1 && parsed_unsigned(number, u64::MAX as nat) == Some(0nat))
            }
            &&& config.twilio_poll is None <==> nonempty_setting(env, "TWILIO_NUMBER"@) is None
        },
{
    reveal_strlit("true");
    reveal_strlit("false");
    assert("true"@.len() != "false"@.len());
}

/// A variable that is set counts without the white space around it, and one that
/// is blank counts as not set.
pub proof fn law_blank_variables_are_not_set(env: Seq<(Seq<char>, Seq<char>)>, name: Seq<char>)
    ensures
        value_named(env, name) is None ==> nonempty_setting(env, name) is None,
        value_named(env, name) matches Some(value) ==> nonempty_setting(env, name) == if trimmed(
            value,
        ).len() == 0 {
            None
        } else {
            Some(trimmed(value))
        },
{
}

/// A worker that is configured is as its variables say, and as the defaults say
/// where they say nothing; the model is used only with a key.
pub proof fn law_the_worker_is_as_configured(env: Seq<(Seq<char>, Seq<char>)>)
    ensures
        worker_of(env) matches Ok(config) ==> {
            &&& config.task_queue == match value_named(env, "TEMPORAL_TASK_QUEUE"@) {
                Some(queue) => queue,
                None => "rust-confessional"@,
            }
            &&& config.stage_internal_token == match value_named(env, "STAGE_INTERNAL_TOKEN"@) {
                Some(token) => token,
                None => "local-demo-token"@,
            }
            &&& config.openai_model == match value_named(env, "OPENAI_MODEL"@) {
                Some(model) => model,
                None => "gpt-5.6-luna"@,
            }
            &&& config.openai_api_key == match value_named(env, "OPENAI_API_KEY"@) {
                Some(key) => if key.len() == 0 {
                    None
                } else {
                    Some(key)
                },
                None => None,
            }
            &&& Some(config.model_timeout) == match value_named(env, "MODEL_TIMEOUT_SECONDS"@) {
                Some(number) => parsed_unsigned(number, u64::MAX as nat),
                None => Some(12),
            }
            &&& config.model_provider == ModelProvider::OpenAi ==> config.openai_api_key is Some
            &&& value_named(env, "MODEL_PROVIDER"@) matches Some(provider)
                ==> config.model_provider == if ascii_lowercase(trimmed(provider)) == "openai"@ {
                ModelProvider::OpenAi
            } else {
                ModelProvider::Fixture
            }
            &&& is_url_without_slashes(
                config.stage_internal_url,
                match value_named(env, "STAGE_INTERNAL_URL"@) {
                    Some(url) => url,
                    None => "http://127.0.0.1:3000/api/internal"@,
                },
            )
        },
{
    reveal_strlit("fixture");
    reveal_strlit("openai");
    assert("fixture"@.len() != "openai"@.len());
    let url = setting(env, "STAGE_INTERNAL_URL"@, "http://127.0.0.1:3000/api/internal"@);
    lemma_without_slashes(url);
}

/// `url` without the slashes at its end, and without those alone.
pub open spec fn is_url_without_slashes(bare: Seq<char>, url: Seq<char>) -> bool {
    &&& bare.is_prefix_of(url)
    &&& bare.len() > 0 ==> bare.last() != '/'
    &&& forall|i: int| bare.len() <= i < url.len() ==> #[trigger] url[i] == '/'
}

proof fn lemma_without_slashes(s: Seq<char>)
    ensures
        is_url_without_slashes(without_slashes(s), s),
    decreases s.len(),
{
    if s.len() > 0 && s.last() == '/' {
        lemma_without_slashes(s.drop_last());
        assert forall|i: int| without_slashes(s).len() <= i < s.len() implies #[trigger] s[i]
            == '/' by {
            if i < s.len() - 1 {
                assert(s.drop_last()[i] == s[i]);
            }
        }
    }
}

/// A stage is configured exactly if its variables can be read: its flags and
/// its numbers, its address, and what a webhook and polling need where they are
/// asked for; and raw confessions from Twilio have to be allowed.
pub proof fn law_when_the_stage_is_configured(
    env: Seq<(Seq<char>, Seq<char>)>,
    address_parses: bool,
)
    ensures
        stage_of(env, address_parses) is Ok <==> {
            let raw = value_named(env, "SHOW_RAW_CONFESSIONS"@);
            let allow = value_named(env, "ALLOW_UNMODERATED_TWILIO"@);
            let url = nonempty_setting(env, "TWILIO_WEBHOOK_URL"@);
            let number = nonempty_setting(env, "TWILIO_NUMBER"@);
            let account = nonempty_setting(env, "TWILIO_ACCOUNT_SID"@);
            let token = nonempty_setting(env, "TWILIO_AUTH_TOKEN"@);
            let key = nonempty_setting(env, "TWILIO_API_KEY_SID"@) is Some && nonempty_setting(
                env,
                "TWILIO_API_KEY_SECRET"@,
            ) is Some;
            &&& address_parses
            &&& raw is None || raw == Some("true"@) || raw == Some("false"@)
            &&& allow is None || allow == Some("true"@) || allow == Some("false"@)
            &&& raw == Some("true"@) && (url is Some || number is Some) ==> allow == Some("true"@)
            &&& value_named(env, "MAX_CONFESSION_CHARS"@) matches Some(value) ==> parsed_unsigned(
                value,
                usize::MAX as nat,
            ) is Some
            &&& value_named(env, "MAX_SUBMISSIONS_PER_SESSION"@) matches Some(value)
                ==> parsed_unsigned(value, usize::MAX as nat) is Some
            &&& url matches Some(url) ==> account is Some && token is Some && (url_scheme_and_host(
                url,
            ) matches Some((scheme, host)) && (scheme == "http"@ || scheme == "https"@)
                && host is Some)
            &&& number is Some ==> account is Some && (key || token is Some) && (value_named(
                env,
                "TWILIO_POLL_SECONDS"@,
            ) matches Some(value) ==> parsed_unsigned(value, u64::MAX as nat) is Some)
        },
{
    reveal_strlit("true");
    reveal_strlit("false");
    assert("true"@.len() != "false"@.len());
}

} // verus!
