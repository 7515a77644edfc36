use reasoning_harness_cli::auth::{
    login, parse_provider_choice, parse_stdin_secret, provider_name, select_provider,
    validate_secret, Provider, ProviderSelection, SecretSource, MAX_STDIN_SECRET_BYTES,
};

#[test]
fn stdin_secret_accepts_one_line_and_strips_only_line_ending() {
    assert_eq!(parse_stdin_secret(b"abc123\n".to_vec()).unwrap(), "abc123");
    assert_eq!(
        parse_stdin_secret(b"abc123\r\n".to_vec()).unwrap(),
        "abc123"
    );
    assert_eq!(
        parse_stdin_secret(b" abc123 ".to_vec()).unwrap(),
        " abc123 "
    );
}

#[test]
fn stdin_secret_rejects_multiline_empty_invalid_utf8_and_oversize() {
    assert!(parse_stdin_secret(b"a\nb\n".to_vec()).is_err());
    assert!(parse_stdin_secret(b" \n".to_vec()).is_err());
    assert!(parse_stdin_secret(vec![0xff]).is_err());
    assert!(parse_stdin_secret(vec![b'x'; MAX_STDIN_SECRET_BYTES as usize + 1]).is_err());
}

#[test]
fn provider_picker_accepts_numbers_names_and_google_aliases() {
    assert_eq!(parse_provider_choice("1"), Some(Provider::Mistral));
    assert_eq!(parse_provider_choice("google"), Some(Provider::Google));
    assert_eq!(parse_provider_choice("gemini"), Some(Provider::Google));
    assert_eq!(parse_provider_choice("gemma"), Some(Provider::Google));
    assert_eq!(parse_provider_choice("3"), Some(Provider::Groq));
    assert_eq!(parse_provider_choice("NVIDIA"), Some(Provider::Nvidia));
    assert_eq!(parse_provider_choice("wat"), None);
}

#[test]
fn stdin_secret_errors_carry_their_class_and_message() {
    let oversize = parse_stdin_secret(vec![b'x'; 16385]).unwrap_err();
    assert_eq!(oversize.failure_class, "auth_input");
    assert_eq!(oversize.message, "credential stdin exceeds the 16384 byte limit");
    let multiline = parse_stdin_secret(b"a\rb".to_vec()).unwrap_err();
    assert_eq!(multiline.message, "credential stdin must contain exactly one line");
    let invalid = parse_stdin_secret(vec![0xc3]).unwrap_err();
    assert_eq!(invalid.message, "credential stdin is not valid UTF-8");
    let blank = parse_stdin_secret(b"\t \r\n".to_vec()).unwrap_err();
    assert_eq!(blank.failure_class, "credentials");
    assert_eq!(blank.message, "provider credential must not be empty");
    assert_eq!(parse_stdin_secret(vec![b'k'; 16384]).unwrap().len(), 16384);
    assert_eq!(parse_stdin_secret("clé\n".as_bytes().to_vec()).unwrap(), "clé");
    assert_eq!(parse_stdin_secret(b"x\n\n".to_vec()).unwrap_err().message, "credential stdin must contain exactly one line");
}

#[test]
fn blank_credentials_are_rejected_whatever_their_whitespace() {
    assert!(validate_secret("\u{a0}\u{2003}".to_string()).is_err());
    assert_eq!(validate_secret(" k ".to_string()).unwrap(), " k ");
}

#[test]
fn picker_ignores_surrounding_whitespace_and_case() {
    assert_eq!(parse_provider_choice("  Groq\n"), Some(Provider::Groq));
    assert_eq!(parse_provider_choice("\t4 "), Some(Provider::Nvidia));
    assert_eq!(parse_provider_choice("2"), Some(Provider::Google));
    assert_eq!(parse_provider_choice("MISTRAL"), Some(Provider::Mistral));
    assert_eq!(parse_provider_choice("5"), None);
    assert_eq!(parse_provider_choice(""), None);
}

#[test]
fn provider_selection_requires_a_provider_outside_the_picker() {
    assert_eq!(
        select_provider(Some(Provider::Groq), false, "login", false).unwrap(),
        ProviderSelection::Named(Provider::Groq)
    );
    let stdin = select_provider(None, false, "login", true).unwrap_err();
    assert_eq!(stdin.failure_class, "auth_input");
    assert_eq!(stdin.message, "provider is required for `reason auth login` with --stdin");
    let batch = select_provider(None, true, "logout", false).unwrap_err();
    assert_eq!(
        batch.message,
        "provider is required for non-interactive `reason auth logout`; choose mistral, google, groq, or nvidia"
    );
    assert_eq!(select_provider(None, true, "logout", true).unwrap(), ProviderSelection::Picker);
}

#[test]
fn login_keeps_an_existing_credential_unless_replacing() {
    let refused = login(Provider::Nvidia, true, false, false, true).unwrap_err();
    assert_eq!(refused.failure_class, "credential_exists");
    assert_eq!(
        refused.message,
        "a stored nvidia credential already exists; use `reason auth login nvidia --replace` to rotate it"
    );
    assert_eq!(login(Provider::Nvidia, true, false, true, true).unwrap(), SecretSource::Stdin);
    assert_eq!(login(Provider::Google, false, true, false, false).unwrap(), SecretSource::Environment);
    assert_eq!(login(Provider::Google, false, false, false, false).unwrap(), SecretSource::HiddenPrompt);
    assert_eq!(provider_name(Provider::Groq), "groq");
}
