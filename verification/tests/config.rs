use rust_confessional::config::{
    bind_address, check_webhook_url, parse_mask_words, EnvVars, ModelProvider, StageConfig,
    TemporalConfig, TwilioInboundConfig, TwilioPollConfig, WorkerConfig,
};
use rust_confessional::moderation::mask_words;
use rust_confessional::openai::{build_backend, Backend};

fn env(vars: &[(&str, &str)]) -> EnvVars {
    EnvVars {
        vars: vars
            .iter()
            .map(|(name, value)| ((*name).to_owned(), (*value).to_owned()))
            .collect(),
    }
}

fn stage_error(vars: &[(&str, &str)], address_parses: bool) -> String {
    match StageConfig::from_env(&env(vars), address_parses) {
        Ok(_) => panic!("the configuration was accepted"),
        Err(error) => error.message(),
    }
}

fn worker_error(vars: &[(&str, &str)]) -> String {
    match WorkerConfig::from_env(&env(vars)) {
        Ok(_) => panic!("the configuration was accepted"),
        Err(error) => error.message(),
    }
}

#[test]
fn provider_parser_is_explicit() {
    assert_eq!(
        "fixture".parse::<ModelProvider>().unwrap(),
        ModelProvider::Fixture
    );
    assert!("automatic".parse::<ModelProvider>().is_err());
}

#[test]
fn providers_are_named_in_any_case() {
    assert_eq!(ModelProvider::parse(" OpenAI\n"), Ok(ModelProvider::OpenAi));
    assert_eq!(ModelProvider::OpenAi.as_str(), "openai");
    assert_eq!(ModelProvider::Fixture.as_str(), "fixture");
    assert_eq!(
        ModelProvider::parse("Auto\"x").unwrap_err().message(),
        "unsupported MODEL_PROVIDER \"auto\\\"x\"; expected fixture or openai"
    );
}

#[test]
fn an_empty_environment_gives_the_defaults() {
    let config = StageConfig::from_env(&env(&[]), true).unwrap_or_else(|_| panic!());
    assert_eq!(config.bind_address, "127.0.0.1:3000");
    assert_eq!(config.data_path, "data/stage.json");
    assert_eq!(config.static_dir, "static");
    assert_eq!(config.internal_token, "local-demo-token");
    assert_eq!(config.max_confession_chars, 500);
    assert_eq!(config.max_submissions_per_session, 20);
    assert!(!config.show_raw_confessions);
    assert!(config.twilio.is_none());
    assert!(config.twilio_poll.is_none());
    assert_eq!(config.temporal.task_queue, "rust-confessional");
    assert!(config.mask_words.is_empty());

    let worker = WorkerConfig::from_env(&env(&[])).unwrap_or_else(|_| panic!());
    assert_eq!(worker.stage_internal_url, "http://127.0.0.1:3000/api/internal");
    assert_eq!(worker.model_provider, ModelProvider::Fixture);
    assert_eq!(worker.openai_api_key, None);
    assert_eq!(worker.openai_model, "gpt-5.6-luna");
    assert_eq!(worker.model_timeout, 12);
    assert!(matches!(build_backend(&worker), Backend::Fixture(_)));
}

#[test]
fn variables_override_the_defaults() {
    let vars = env(&[
        ("BIND_ADDRESS", "0.0.0.0:80"),
        ("MAX_CONFESSION_CHARS", "+42"),
        ("MAX_SUBMISSIONS_PER_SESSION", "0"),
        ("SHOW_RAW_CONFESSIONS", "true"),
        ("STAGE_INTERNAL_TOKEN", "t"),
        ("TEMPORAL_TASK_QUEUE", "q"),
        ("MASK_WORDS", "Foo, bar-baz\tQUX,,"),
    ]);
    assert_eq!(bind_address(&vars), "0.0.0.0:80");
    assert_eq!(TemporalConfig::from_env(&vars).task_queue, "q");
    let config = StageConfig::from_env(&vars, true).unwrap_or_else(|_| panic!());
    assert_eq!(config.max_confession_chars, 42);
    assert_eq!(config.max_submissions_per_session, 0);
    assert!(config.show_raw_confessions);
    assert_eq!(config.internal_token, "t");
    assert_eq!(config.mask_words, ["foo", "qux"]);
}

#[test]
fn bad_flags_numbers_and_addresses_are_refused() {
    assert_eq!(
        stage_error(&[("SHOW_RAW_CONFESSIONS", "TRUE")], true),
        "invalid value for SHOW_RAW_CONFESSIONS"
    );
    assert_eq!(
        stage_error(&[("ALLOW_UNMODERATED_TWILIO", "1")], true),
        "invalid value for ALLOW_UNMODERATED_TWILIO"
    );
    assert_eq!(
        stage_error(&[("MAX_CONFESSION_CHARS", "many")], true),
        "invalid value for MAX_CONFESSION_CHARS"
    );
    assert_eq!(
        stage_error(&[("MAX_SUBMISSIONS_PER_SESSION", "-1")], true),
        "invalid value for MAX_SUBMISSIONS_PER_SESSION"
    );
    assert_eq!(
        stage_error(&[("MAX_CONFESSION_CHARS", "many")], false),
        "BIND_ADDRESS must be a socket address such as 127.0.0.1:3000"
    );
    assert_eq!(
        worker_error(&[("MODEL_TIMEOUT_SECONDS", "1.5")]),
        "invalid value for MODEL_TIMEOUT_SECONDS"
    );
}

#[test]
fn the_webhook_needs_an_account_a_token_and_a_public_url() {
    let url = ("TWILIO_WEBHOOK_URL", " https://demo.example/hook ");
    let sid = ("TWILIO_ACCOUNT_SID", "AC123");
    let token = ("TWILIO_AUTH_TOKEN", "secret");
    let fault = |vars: &[(&str, &str)]| match TwilioInboundConfig::from_env(&env(vars)) {
        Ok(_) => panic!("the configuration was accepted"),
        Err(error) => error.message(),
    };
    assert!(matches!(TwilioInboundConfig::from_env(&env(&[sid, token])), Ok(None)));
    assert_eq!(fault(&[url, token]), "TWILIO_WEBHOOK_URL requires TWILIO_ACCOUNT_SID");
    assert_eq!(fault(&[url, sid]), "TWILIO_WEBHOOK_URL requires TWILIO_AUTH_TOKEN");
    assert_eq!(
        fault(&[("TWILIO_WEBHOOK_URL", "/hook"), sid, token]),
        "TWILIO_WEBHOOK_URL must be an absolute public URL"
    );
    assert_eq!(
        fault(&[("TWILIO_WEBHOOK_URL", "ftp://demo.example/hook"), sid, token]),
        "TWILIO_WEBHOOK_URL must be an absolute HTTP(S) URL"
    );
    assert_eq!(
        fault(&[("TWILIO_WEBHOOK_URL", "mailto:ferris@example.test"), sid, token]),
        "TWILIO_WEBHOOK_URL must be an absolute HTTP(S) URL"
    );
    let config = TwilioInboundConfig::from_env(&env(&[url, sid, token]))
        .unwrap_or_else(|_| panic!())
        .unwrap();
    assert_eq!(config.webhook_url, "https://demo.example/hook");
    assert_eq!(config.account_sid, "AC123");
    assert_eq!(config.auth_token, "secret");
}

#[test]
fn a_webhook_url_is_judged_by_its_scheme_and_host() {
    let part = |text: &str| text.to_owned();
    assert!(check_webhook_url(Some((part("http"), Some(part("h"))))).is_ok());
    assert!(check_webhook_url(Some((part("https"), Some(part("h"))))).is_ok());
    assert!(check_webhook_url(Some((part("https"), None))).is_err());
    assert!(check_webhook_url(Some((part("ws"), Some(part("h"))))).is_err());
    assert!(check_webhook_url(None).is_err());
}

#[test]
fn polling_prefers_an_api_key() {
    let number = ("TWILIO_NUMBER", "+15551234567");
    let sid = ("TWILIO_ACCOUNT_SID", "AC123");
    let key = ("TWILIO_API_KEY_SID", "SK1");
    let secret = ("TWILIO_API_KEY_SECRET", "shh");
    let token = ("TWILIO_AUTH_TOKEN", "tok");
    let read = |vars: &[(&str, &str)]| TwilioPollConfig::from_env(&env(vars));
    let fault = |vars: &[(&str, &str)]| match read(vars) {
        Ok(_) => panic!("the configuration was accepted"),
        Err(error) => error.message(),
    };
    assert!(matches!(read(&[sid, token]), Ok(None)));
    assert_eq!(
        fault(&[number]),
        "TWILIO_NUMBER requires TWILIO_ACCOUNT_SID for API polling"
    );
    assert_eq!(
        fault(&[number, sid, key]),
        "Twilio polling needs TWILIO_API_KEY_SID + TWILIO_API_KEY_SECRET (preferred) or TWILIO_AUTH_TOKEN"
    );
    assert_eq!(
        fault(&[number, sid, token, ("TWILIO_POLL_SECONDS", "soon")]),
        "invalid value for TWILIO_POLL_SECONDS"
    );
    let config = read(&[number, sid, key, secret, token]).unwrap_or_else(|_| panic!()).unwrap();
    assert_eq!((config.auth_username.as_str(), config.auth_password.as_str()), ("SK1", "shh"));
    assert_eq!(config.poll_interval, 4);
    let config = read(&[number, sid, key, token, ("TWILIO_POLL_SECONDS", "0")])
        .unwrap_or_else(|_| panic!())
        .unwrap();
    assert_eq!((config.auth_username.as_str(), config.auth_password.as_str()), ("AC123", "tok"));
    assert_eq!(config.poll_interval, 1);
}

#[test]
fn raw_display_with_twilio_needs_an_opt_in() {
    let vars = [
        ("TWILIO_NUMBER", "+15551234567"),
        ("TWILIO_ACCOUNT_SID", "AC123"),
        ("TWILIO_AUTH_TOKEN", "tok"),
        ("SHOW_RAW_CONFESSIONS", "true"),
    ];
    assert_eq!(
        stage_error(&vars, true),
        "SHOW_RAW_CONFESSIONS with Twilio requires explicit ALLOW_UNMODERATED_TWILIO=true"
    );
    let mut opted = vars.to_vec();
    opted.push(("ALLOW_UNMODERATED_TWILIO", "true"));
    assert!(StageConfig::from_env(&env(&opted), true).is_ok());
}

#[test]
fn the_openai_worker_needs_a_key() {
    assert_eq!(
        worker_error(&[("MODEL_PROVIDER", "openai"), ("OPENAI_API_KEY", "")]),
        "OPENAI_API_KEY is required when MODEL_PROVIDER=openai"
    );
    assert_eq!(
        worker_error(&[("MODEL_PROVIDER", "best")]),
        "unsupported MODEL_PROVIDER \"best\"; expected fixture or openai"
    );
    let worker = WorkerConfig::from_env(&env(&[
        ("MODEL_PROVIDER", "openai"),
        ("OPENAI_API_KEY", "sk"),
        ("OPENAI_MODEL", "m"),
        ("MODEL_TIMEOUT_SECONDS", "3"),
        ("STAGE_INTERNAL_URL", "http://stage:3000/api/internal//"),
    ]))
    .unwrap_or_else(|_| panic!());
    assert_eq!(worker.stage_internal_url, "http://stage:3000/api/internal");
    match build_backend(&worker) {
        Backend::OpenAi(backend) => {
            assert_eq!(backend.api_key, "sk");
            assert_eq!(backend.model, "m");
            assert_eq!(backend.timeout, 3);
        }
        Backend::Fixture(_) => panic!("the wrong backend was chosen"),
    }
}

#[test]
fn mask_words_that_could_never_match_are_dropped() {
    assert_eq!(parse_mask_words("Straße, don't\u{2003}ok 42"), ["straße", "ok", "42"]);
    assert!(parse_mask_words(" ,, ").is_empty());
    assert!(parse_mask_words("").is_empty());
}

#[test]
fn every_word_that_is_kept_is_masked() {
    for word in ["badword", "Foo42", "X", "straße", "ÉTÉ", "слово"] {
        let words = parse_mask_words(word);
        let stars = "*".repeat(word.chars().count());
        assert_eq!(mask_words(word, &words), stars);
        assert_eq!(mask_words(&word.to_ascii_uppercase(), &words), stars);
        assert_eq!(mask_words(&word.to_ascii_lowercase(), &words), stars);
    }
    let words = parse_mask_words("one, Two-2\tTHREE");
    assert_eq!(mask_words("ONE two three", &words), "*** two *****");
}
