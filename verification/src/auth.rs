//! `reason auth`: which provider a command acts on, where a credential is read
//! from, and how credential input is validated before it reaches the store.
use vstd::prelude::*;
use crate::text;
use crate::text::{chars_eq_str, string_of, to_ascii_lowercase, trim_chars, trim_str};

verus! {

/// Model providers whose credentials `reason auth` manages.
#[derive(Debug, Clone, Copy, PartialEq, Eq, Structural)]
pub enum Provider {
    Mistral,
    Google,
    Groq,
    Nvidia,
}

/// How a command reports its result.
#[derive(Debug, Clone, Copy, PartialEq, Eq, Structural)]
pub enum OutputFormat {
    Human,
    Json,
}

/// The lowercase name of a provider.
pub open spec fn provider_name_spec(provider: Provider) -> Seq<char> {
    match provider {
        Provider::Mistral => "mistral"@,
        Provider::Google => "google"@,
        Provider::Groq => "groq"@,
        Provider::Nvidia => "nvidia"@,
    }
}

/// The lowercase name of a provider.
pub fn provider_name(provider: Provider) -> (r: &'static str)
    ensures
        r@ == provider_name_spec(provider),
{
    match provider {
        Provider::Mistral => "mistral",
        Provider::Google => "google",
        Provider::Groq => "groq",
        Provider::Nvidia => "nvidia",
    }
}

/// The largest credential, in bytes, accepted on stdin.
pub const MAX_STDIN_SECRET_BYTES: u64 = 16384;

/// The providers listed by `reason auth list` and `reason auth status`, in order.
pub fn auth_providers() -> (r: [Provider; 4])
    ensures
        r@ == seq![Provider::Mistral, Provider::Google, Provider::Groq, Provider::Nvidia],
{
    [Provider::Mistral, Provider::Google, Provider::Groq, Provider::Nvidia]
}

/// A failed command: a machine-readable failure class and a message.
#[derive(Debug, PartialEq, Eq)]
pub struct CliError {
    pub failure_class: String,
    pub message: String,
}

impl View for CliError {
    type V = (Seq<char>, Seq<char>);

    open spec fn view(&self) -> (Seq<char>, Seq<char>) {
        (self.failure_class@, self.message@)
    }
}

impl CliError {
    /// A failure with the given class and message.
    pub fn new(failure_class: &str, message: String) -> (r: Self)
        ensures
            r@ == (failure_class@, message@),
    {
        CliError { failure_class: String::from_str(failure_class), message }
    }
}

/// A `Result` of a string or a command failure, by views.
pub open spec fn cli_result_view(r: Result<String, CliError>) -> Result<Seq<char>, (Seq<char>, Seq<char>)> {
    match r {
        Ok(s) => Ok(s@),
        Err(e) => Err(e@),
    }
}

/// The subcommands of `reason auth`.
#[derive(Debug, Clone, Copy, PartialEq, Eq, Structural)]
pub enum AuthCommand {
    Login { provider: Option<Provider>, stdin: bool, from_env: bool, replace: bool, format: OutputFormat },
    Status { provider: Option<Provider>, format: OutputFormat },
    List { format: OutputFormat },
    Logout { provider: Option<Provider>, format: OutputFormat },
}

impl AuthCommand {
    /// The output format every subcommand carries.
    pub open spec fn format_spec(self) -> OutputFormat {
        match self {
            AuthCommand::Login { format, .. } => format,
            AuthCommand::Status { format, .. } => format,
            AuthCommand::List { format } => format,
            AuthCommand::Logout { format, .. } => format,
        }
    }

    /// The output format of the subcommand.
    pub fn format(&self) -> (r: OutputFormat)
        ensures
            r == self.format_spec(),
    {
        match self {
            AuthCommand::Login { format, .. } => *format,
            AuthCommand::Status { format, .. } => *format,
            AuthCommand::List { format } => *format,
            AuthCommand::Logout { format, .. } => *format,
        }
    }
}

/// What a subcommand asks the credential store to do.
#[derive(Debug, Clone, Copy, PartialEq, Eq, Structural)]
pub enum AuthAction {
    Login { provider: Option<Provider>, from_stdin: bool, from_env: bool, replace: bool },
    Status { provider: Option<Provider> },
    Logout { provider: Option<Provider> },
}

/// Dispatches a subcommand: `list` is `status` over every provider.
pub fn run(command: AuthCommand) -> (r: AuthAction)
    ensures
        r == (match command {
            AuthCommand::Login { provider, stdin, from_env, replace, .. } => AuthAction::Login {
                provider,
                from_stdin: stdin,
                from_env,
                replace,
            },
            AuthCommand::Status { provider, .. } => AuthAction::Status { provider },
            AuthCommand::List { .. } => AuthAction::Status { provider: None },
            AuthCommand::Logout { provider, .. } => AuthAction::Logout { provider },
        }),
{
    match command {
        AuthCommand::Login { provider, stdin, from_env, replace, .. } => AuthAction::Login {
            provider,
            from_stdin: stdin,
            from_env,
            replace,
        },
        AuthCommand::Status { provider, .. } => AuthAction::Status { provider },
        AuthCommand::List { .. } => AuthAction::Status { provider: None },
        AuthCommand::Logout { provider, .. } => AuthAction::Logout { provider },
    }
}

/// The providers a status request inspects: the named one, or all of them.
pub fn status_providers(provider: Option<Provider>) -> (r: Vec<Provider>)
    ensures
        r@ == (match provider {
            Some(p) => seq![p],
            None => seq![Provider::Mistral, Provider::Google, Provider::Groq, Provider::Nvidia],
        }),
{
    match provider {
        Some(p) => {
            let mut v = Vec::new();
            v.push(p);
            assert(v@ =~= seq![p]);
            v
        },
        None => {
            let all = auth_providers();
            let mut v = Vec::new();
            v.push(all[0]);
            v.push(all[1]);
            v.push(all[2]);
            v.push(all[3]);
            assert(v@ =~= all@);
            v
        },
    }
}

// ---------------------------------------------------------------------------
// Provider selection.
// ---------------------------------------------------------------------------

/// The provider named by a picker answer: a number 1-4 or a provider name
/// (`gemini` and `gemma` name Google), ignoring whitespace and ASCII case.
pub open spec fn provider_choice(choice: Seq<char>) -> Option<Provider> {
    let t = text::ascii_lowercase(text::trim(choice));
    if t == "1"@ || t == "mistral"@ {
        Some(Provider::Mistral)
    } else if t == "2"@ || t == "google"@ || t == "gemini"@ || t == "gemma"@ {
        Some(Provider::Google)
    } else if t == "3"@ || t == "groq"@ {
        Some(Provider::Groq)
    } else if t == "4"@ || t == "nvidia"@ {
        Some(Provider::Nvidia)
    } else {
        None
    }
}

/// Reads the interactive provider picker's answer.
pub fn parse_provider_choice(choice: &str) -> (r: Option<Provider>)
    ensures
        r == provider_choice(choice@),
{
    let t = to_ascii_lowercase(&trim_str(choice));
    if chars_eq_str(&t, "1") || chars_eq_str(&t, "mistral") {
        Some(Provider::Mistral)
    } else if chars_eq_str(&t, "2") || chars_eq_str(&t, "google") || chars_eq_str(&t, "gemini")
        || chars_eq_str(&t, "gemma") {
        Some(Provider::Google)
    } else if chars_eq_str(&t, "3") || chars_eq_str(&t, "groq") {
        Some(Provider::Groq)
    } else if chars_eq_str(&t, "4") || chars_eq_str(&t, "nvidia") {
        Some(Provider::Nvidia)
    } else {
        None
    }
}

/// How the provider of a command is settled.
#[derive(Debug, Clone, Copy, PartialEq, Eq, Structural)]
pub enum ProviderSelection {
    /// The command named the provider.
    Named(Provider),
    /// The provider is asked for with the interactive picker.
    Picker,
}

/// The message when a `--stdin` command names no provider.
pub open spec fn stdin_provider_required(operation: Seq<char>) -> Seq<char> {
    "provider is required for `reason auth "@ + operation + "` with --stdin"@
}

/// The message when a command outside a terminal names no provider.
pub open spec fn non_interactive_provider_required(operation: Seq<char>) -> Seq<char> {
    "provider is required for non-interactive `reason auth "@ + operation
        + "`; choose mistral, google, groq, or nvidia"@
}

/// Settles the provider of `operation`: a named provider is used; otherwise the
/// picker is offered only where allowed and stdin and stderr are terminals.
pub fn select_provider(
    provider: Option<Provider>,
    allow_picker: bool,
    operation: &str,
    interactive: bool,
) -> (r: Result<ProviderSelection, CliError>)
    ensures
        provider is Some ==> r == Ok::<ProviderSelection, CliError>(ProviderSelection::Named(provider->0)),
        provider is None && !allow_picker ==> r is Err && r->Err_0@ == ("auth_input"@,
            stdin_provider_required(operation@)),
        provider is None && allow_picker && !interactive ==> r is Err && r->Err_0@ == (
            "auth_input"@,
            non_interactive_provider_required(operation@),
        ),
        provider is None && allow_picker && interactive ==> r == Ok::<ProviderSelection, CliError>(ProviderSelection::Picker),
{
    if let Some(p) = provider {
        return Ok(ProviderSelection::Named(p));
    }
    if !allow_picker {
        let mut message = String::from_str("provider is required for `reason auth ");
        message.append(operation);
        message.append("` with --stdin");
        return Err(CliError::new("auth_input", message));
    }
    if !interactive {
        let mut message = String::from_str("provider is required for non-interactive `reason auth ");
        message.append(operation);
        message.append("`; choose mistral, google, groq, or nvidia");
        return Err(CliError::new("auth_input", message));
    }
    Ok(ProviderSelection::Picker)
}

/// The provider picked interactively, or the failure for an unknown answer.
pub fn picked_provider(choice: &str) -> (r: Result<Provider, CliError>)
    ensures
        provider_choice(choice@) is Some ==> r == Ok::<Provider, CliError>(provider_choice(choice@)->0),
        provider_choice(choice@) is None ==> r is Err && r->Err_0@ == ("auth_input"@,
            "invalid provider selection; choose 1-4 or mistral/google/groq/nvidia"@),
{
    match parse_provider_choice(choice) {
        Some(p) => Ok(p),
        None => Err(CliError::new(
            "auth_input",
            String::from_str("invalid provider selection; choose 1-4 or mistral/google/groq/nvidia"),
        )),
    }
}

// ---------------------------------------------------------------------------
// Credential input.
// ---------------------------------------------------------------------------

/// Calls `String::from_utf8`. Claimed: it succeeds exactly on valid UTF-8, with
/// the decoded characters.
#[verifier::external_body]
fn string_from_utf8(bytes: Vec<u8>) -> (r: Option<String>)
    ensures
        r is Some <==> vstd::utf8::valid_utf8(bytes@),
        r is Some ==> r->0@ == vstd::utf8::decode_utf8(bytes@),
{
    String::from_utf8(bytes).ok()
}

/// A credential must hold something besides whitespace.
pub open spec fn secret_outcome(secret: Seq<char>) -> Result<Seq<char>, (Seq<char>, Seq<char>)> {
    if text::trim(secret).len() == 0 {
        Err(("credentials"@, "provider credential must not be empty"@))
    } else {
        Ok(secret)
    }
}

/// Rejects a credential that is empty or only whitespace.
pub fn validate_secret(secret: String) -> (r: Result<String, CliError>)
    ensures
        cli_result_view(r) == secret_outcome(secret@),
{
    let trimmed = trim_str(secret.as_str());
    if trimmed.len() == 0 {
        return Err(CliError::new("credentials", String::from_str("provider credential must not be empty")));
    }
    Ok(secret)
}

/// The input with one trailing `\n` removed, and then one `\r` before it.
pub open spec fn strip_line_ending(bytes: Seq<u8>) -> Seq<u8> {
    if bytes.len() > 0 && bytes.last() == 10u8 {
        let b = bytes.drop_last();
        if b.len() > 0 && b.last() == 13u8 {
            b.drop_last()
        } else {
            b
        }
    } else {
        bytes
    }
}

/// What credential bytes on stdin give: at most the byte limit, one line with
/// its line ending stripped, valid UTF-8, and not blank.
pub open spec fn stdin_secret_outcome(bytes: Seq<u8>) -> Result<Seq<char>, (Seq<char>, Seq<char>)> {
    let line = strip_line_ending(bytes);
    if bytes.len() > MAX_STDIN_SECRET_BYTES {
        Err(("auth_input"@, "credential stdin exceeds the 16384 byte limit"@))
    } else if line.contains(10u8) || line.contains(13u8) {
        Err(("auth_input"@, "credential stdin must contain exactly one line"@))
    } else if !vstd::utf8::valid_utf8(line) {
        Err(("auth_input"@, "credential stdin is not valid UTF-8"@))
    } else {
        secret_outcome(vstd::utf8::decode_utf8(line))
    }
}

/// Reads a credential from the bytes read on stdin.
pub fn parse_stdin_secret(bytes: Vec<u8>) -> (r: Result<String, CliError>)
    ensures
        cli_result_view(r) == stdin_secret_outcome(bytes@),
{
    if bytes.len() as u64 > MAX_STDIN_SECRET_BYTES {
        return Err(CliError::new(
            "auth_input",
            String::from_str("credential stdin exceeds the 16384 byte limit"),
        ));
    }
    let ghost received = bytes@;
    let mut line = bytes;
    let n = line.len();
    if n > 0 && line[n - 1] == 10u8 {
        line.pop();
        let m = line.len();
        if m > 0 && line[m - 1] == 13u8 {
            line.pop();
        }
    }
    assert(line@ =~= strip_line_ending(received));
    let mut i: usize = 0;
    while i < line.len()
        invariant
            i <= line.len(),
            received == bytes@,
            received.len() <= MAX_STDIN_SECRET_BYTES,
            line@ == strip_line_ending(received),
            forall|k: int| 0 <= k < i ==> line@[k] != 10u8 && line@[k] != 13u8,
        decreases line.len() - i,
    {
        if line[i] == 10u8 || line[i] == 13u8 {
            proof {
                if line@[i as int] == 10u8 {
                    assert(line@.contains(10u8));
                } else {
                    assert(line@.contains(13u8));
                }
            }
            return Err(CliError::new(
                "auth_input",
                String::from_str("credential stdin must contain exactly one line"),
            ));
        }
        i = i + 1;
    }
    match string_from_utf8(line) {
        Some(secret) => validate_secret(secret),
        None => Err(CliError::new("auth_input", String::from_str("credential stdin is not valid UTF-8"))),
    }
}

// ---------------------------------------------------------------------------
// Login and status.
// ---------------------------------------------------------------------------

/// Where `reason auth login` reads the credential from.
#[derive(Debug, Clone, Copy, PartialEq, Eq, Structural)]
pub enum SecretSource {
    Stdin,
    Environment,
    HiddenPrompt,
}

/// The message when a stored credential would be overwritten without `--replace`.
pub open spec fn credential_exists_message(provider: Provider) -> Seq<char> {
    "a stored "@ + provider_name_spec(provider) + " credential already exists; use `reason auth login "@
        + provider_name_spec(provider) + " --replace` to rotate it"@
}

/// Decides a login once the store has said whether a credential exists: an
/// existing credential is kept unless `--replace` is given; otherwise the secret
/// comes from stdin, then the environment, then the hidden prompt.
pub fn login(provider: Provider, from_stdin: bool, from_env: bool, replace: bool, existed: bool) -> (r: Result<SecretSource, CliError>)
    ensures
        existed && !replace ==> r is Err && r->Err_0@ == ("credential_exists"@, credential_exists_message(provider)),
        !(existed && !replace) ==> r == Ok::<SecretSource, CliError>(
            if from_stdin {
                SecretSource::Stdin
            } else if from_env {
                SecretSource::Environment
            } else {
                SecretSource::HiddenPrompt
            },
        ),
{
    if existed && !replace {
        let name = provider_name(provider);
        let mut message = String::from_str("a stored ");
        message.append(name);
        message.append(" credential already exists; use `reason auth login ");
        message.append(name);
        message.append(" --replace` to rotate it");
        return Err(CliError::new("credential_exists", message));
    }
    if from_stdin {
        Ok(SecretSource::Stdin)
    } else if from_env {
        Ok(SecretSource::Environment)
    } else {
        Ok(SecretSource::HiddenPrompt)
    }
}

/// The failure when `--from-env` finds the provider's variable unset.
pub fn missing_environment_credential(variable: &str) -> (r: CliError)
    ensures
        r@ == ("credentials"@, variable@ + " is not set; set it or use hidden interactive input / --stdin"@),
{
    let mut message = String::from_str(variable);
    message.append(" is not set; set it or use hidden interactive input / --stdin");
    CliError::new("credentials", message)
}

/// A failure reported by the credential store.
#[derive(Debug, PartialEq, Eq)]
pub struct CredentialError {
    pub failure_class: String,
    pub message: String,
}

/// A credential-store failure as a command failure, class and message kept.
pub fn credential_error(error: CredentialError) -> (r: CliError)
    ensures
        r@ == (error.failure_class@, error.message@),
{
    CliError::new(error.failure_class.as_str(), error.message)
}

/// Where a provider's credential currently comes from, as the store reports it.
#[derive(Debug, PartialEq, Eq)]
pub struct CredentialObservation {
    pub account: String,
    pub environment_variable: String,
    pub environment: String,
    pub os_store: String,
    pub effective: String,
}

/// One row of `reason auth status`.
#[derive(Debug, PartialEq, Eq)]
pub struct AuthProviderStatus {
    pub provider: String,
    pub account: String,
    pub environment_variable: String,
    pub environment: String,
    pub os_store: String,
    pub effective_source: String,
}

/// The status row of a provider from what the store reported for it.
pub fn provider_status(provider: Provider, observed: CredentialObservation) -> (r: AuthProviderStatus)
    ensures
        r.provider@ == provider_name_spec(provider),
        r.account@ == observed.account@,
        r.environment_variable@ == observed.environment_variable@,
        r.environment@ == observed.environment@,
        r.os_store@ == observed.os_store@,
        r.effective_source@ == observed.effective@,
{
    AuthProviderStatus {
        provider: String::from_str(provider_name(provider)),
        account: observed.account,
        environment_variable: observed.environment_variable,
        environment: observed.environment,
        os_store: observed.os_store,
        effective_source: observed.effective,
    }
}

/// A picker answer is read the same whatever whitespace surrounds it.
pub proof fn provider_choice_ignores_surrounding_whitespace(choice: Seq<char>, pad: Seq<char>)
    requires
        forall|i: int| 0 <= i < pad.len() ==> text::unicode_whitespace(#[trigger] pad[i]),
    ensures
        provider_choice(pad + choice + pad) == provider_choice(choice),
{
    text::lemma_trim_pad(choice, pad);
}

} // verus!
