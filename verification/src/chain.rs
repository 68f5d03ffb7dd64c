//! The credential provider chain.
//!
//! A credential is looked for in order: a configured command, a file in the
//! credentials directory, an environment variable. The first source that has
//! the credential decides.

use vstd::prelude::*;
use vstd::utf8;

use crate::names;
use crate::names::NameMap;
use crate::secret::Secret;
use crate::text;

verus! {

/// The default bound on the time of a credential command: 30 seconds, in
/// nanoseconds.
pub const DEFAULT_COMMAND_TIMEOUT: u128 = 30_000_000_000;

/// A path of the file system.
#[verifier::external_type_specification]
#[verifier::external_body]
pub struct ExPathBuf(std::path::PathBuf);

/// `std::path::PathBuf::clone` gives an equal path.
pub assume_specification[ <std::path::PathBuf as Clone>::clone ](path: &std::path::PathBuf) -> (copy:
    std::path::PathBuf)
    ensures
        copy == *path,
;

/// Resolves named credentials through a chain of sources.
pub struct CredentialProvider {
    commands: NameMap<Vec<String>>,
    credentials_dir: Option<std::path::PathBuf>,
    env_prefix: Option<String>,
    command_timeout: u128,
}

/// Builds a [`CredentialProvider`].
pub struct CredentialProviderBuilder {
    commands: NameMap<Vec<String>>,
    credentials_dir: Option<std::path::PathBuf>,
    env_prefix: Option<String>,
    command_timeout: u128,
}

/// A provider as a mathematical value.
pub struct Chain {
    pub commands: Seq<(Seq<char>, Vec<String>)>,
    pub credentials_dir: Option<std::path::PathBuf>,
    pub env_prefix: Option<Seq<char>>,
    pub command_timeout: u128,
}

impl View for CredentialProvider {
    type V = Chain;

    closed spec fn view(&self) -> Chain {
        Chain {
            commands: self.commands@,
            credentials_dir: self.credentials_dir,
            env_prefix: text::opt(self.env_prefix),
            command_timeout: self.command_timeout,
        }
    }
}

impl View for CredentialProviderBuilder {
    type V = Chain;

    closed spec fn view(&self) -> Chain {
        Chain {
            commands: self.commands@,
            credentials_dir: self.credentials_dir,
            env_prefix: text::opt(self.env_prefix),
            command_timeout: self.command_timeout,
        }
    }
}

/// Errors of credential resolution.
#[derive(Debug)]
pub enum CredentialError {
    /// The name holds characters that are not allowed.
    InvalidName(String),
    /// No source has the credential.
    NotFound(String),
    /// The command failed.
    CommandFailed { name: String, reason: String },
    /// The command did not finish in time. The time is in nanoseconds.
    CommandTimeout { name: String, after: u128 },
    /// The file could not be read.
    FileReadFailed { name: String, path: String, reason: String },
}

/// A credential error as a mathematical value.
pub enum ChainFault {
    InvalidName(Seq<char>),
    NotFound(Seq<char>),
    CommandFailed(Seq<char>, Seq<char>),
    CommandTimeout(Seq<char>, u128),
    FileReadFailed(Seq<char>, Seq<char>, Seq<char>),
}

impl View for CredentialError {
    type V = ChainFault;

    open spec fn view(&self) -> ChainFault {
        match self {
            CredentialError::InvalidName(name) => ChainFault::InvalidName(name@),
            CredentialError::NotFound(name) => ChainFault::NotFound(name@),
            CredentialError::CommandFailed { name, reason } => ChainFault::CommandFailed(
                name@,
                reason@,
            ),
            CredentialError::CommandTimeout { name, after } => ChainFault::CommandTimeout(
                name@,
                *after,
            ),
            CredentialError::FileReadFailed { name, path, reason } => ChainFault::FileReadFailed(
                name@,
                path@,
                reason@,
            ),
        }
    }
}

/// A span of time as the `Debug` output of `std::time::Duration` shows it.
pub uninterp spec fn duration_form(seconds: u64, nanos: u32) -> Seq<char>;

/// The `Debug` output of a `std::time::Duration`. The claim is that it
/// depends on the span alone.
#[verifier::external_body]
fn duration_text(seconds: u64, nanos: u32) -> (shown: String)
    requires
        nanos < 1_000_000_000,
    ensures
        shown@ == duration_form(seconds, nanos),
{
    format!("{:?}", std::time::Duration::new(seconds, nanos))
}

/// The whole seconds of a span, as far as they fit in 64 bits.
pub open spec fn seconds_of(nanos: u128) -> u64 {
    if nanos / 1_000_000_000 > u64::MAX {
        u64::MAX
    } else {
        (nanos / 1_000_000_000) as u64
    }
}

/// The message of a credential error.
pub open spec fn fault_message(f: ChainFault) -> Seq<char> {
    match f {
        ChainFault::InvalidName(name) => "invalid credential name: "@ + name,
        ChainFault::NotFound(name) => "credential not found: "@ + name,
        ChainFault::CommandFailed(name, reason) => "credential command failed for '"@ + name
            + "': "@ + reason,
        ChainFault::CommandTimeout(name, after) => "credential command for '"@ + name
            + "' timed out after "@ + duration_form(
            seconds_of(after),
            (after % 1_000_000_000) as u32,
        ),
        ChainFault::FileReadFailed(name, path, reason) => "failed to read credential file for '"@
            + name + "' at "@ + path + ": "@ + reason,
    }
}

impl CredentialError {
    /// The message shown to operators.
    pub fn message(&self) -> (m: String)
        ensures
            m@ == fault_message(self@),
    {
        match self {
            CredentialError::InvalidName(name) => {
                let mut m = String::from_str("invalid credential name: ");
                m.append(name.as_str());
                m
            },
            CredentialError::NotFound(name) => {
                let mut m = String::from_str("credential not found: ");
                m.append(name.as_str());
                m
            },
            CredentialError::CommandFailed { name, reason } => {
                let mut m = String::from_str("credential command failed for '");
                m.append(name.as_str());
                m.append("': ");
                m.append(reason.as_str());
                m
            },
            CredentialError::CommandTimeout { name, after } => {
                let mut m = String::from_str("credential command for '");
                m.append(name.as_str());
                m.append("' timed out after ");
                let whole: u128 = *after / 1_000_000_000;
                let seconds: u64 = if whole > u64::MAX as u128 {
                    u64::MAX
                } else {
                    whole as u64
                };
                let shown = duration_text(seconds, (*after % 1_000_000_000) as u32);
                m.append(shown.as_str());
                m
            },
            CredentialError::FileReadFailed { name, path, reason } => {
                let mut m = String::from_str("failed to read credential file for '");
                m.append(name.as_str());
                m.append("' at ");
                m.append(path.as_str());
                m.append(": ");
                m.append(reason.as_str());
                m
            },
        }
    }
}

// ---------------------------------------------------------------------------
// Names
// ---------------------------------------------------------------------------

/// Whether a character may stand in a credential name.
pub open spec fn safe_char(c: char) -> bool {
    text::ascii_alphanumeric(c) || c == '-' || c == '_' || c == '.'
}

/// Whether a credential name is safe as a file name and as the end of an
/// environment variable's name.
pub open spec fn safe_name(name: Seq<char>) -> bool {
    &&& name.len() > 0
    &&& name[0] != '.'
    &&& forall|i: int| 0 <= i < name.len() ==> safe_char(#[trigger] name[i])
}

/// Whether a credential name is safe.
pub fn is_safe_credential_name(name: &str) -> (b: bool)
    ensures
        b == safe_name(name@),
{
    let v = text::chars_of(name);
    if v.len() == 0 || v[0] == '.' {
        return false;
    }
    let mut i: usize = 0;
    while i < v.len()
        invariant
            i <= v@.len(),
            v@ == name@,
            forall|k: int| 0 <= k < i ==> safe_char(#[trigger] v@[k]),
        decreases v.len() - i,
    {
        let c = v[i];
        if !(text::is_ascii_alphanumeric(c) || c == '-' || c == '_' || c == '.') {
            assert(!safe_char(v@[i as int]));
            return false;
        }
        i = i + 1;
    }
    true
}

/// A text in upper case, as `str::to_uppercase` gives it.
pub uninterp spec fn uppercase_of(s: Seq<char>) -> Seq<char>;

/// `str::to_uppercase`. Beyond ASCII the result follows Unicode and is only
/// named; an ASCII text has its letters in upper case.
#[verifier::external_body]
fn uppercase(s: &str) -> (r: String)
    ensures
        r@ == uppercase_of(s@),
        utf8::is_ascii_chars(s@) ==> r@ == text::upper_all(s@),
{
    s.to_uppercase()
}

/// `s` with every hyphen replaced by an underscore.
pub open spec fn underscored(s: Seq<char>) -> Seq<char> {
    s.map_values(
        |c: char|
            if c == '-' {
                '_'
            } else {
                c
            },
    )
}

/// The environment variable of a credential: the prefix and the name in
/// upper case, with underscores for hyphens.
pub fn credential_env_var_name(prefix: &str, credential_name: &str) -> (variable: String)
    ensures
        variable@ == prefix@ + underscored(uppercase_of(credential_name@)),
        utf8::is_ascii_chars(credential_name@) ==> variable@ == prefix@ + underscored(
            text::upper_all(credential_name@),
        ),
{
    let upper = uppercase(credential_name);
    let v = text::chars_of(upper.as_str());
    let mut variable = prefix.to_owned();
    let mut i: usize = 0;
    assert(variable@ =~= prefix@ + underscored(v@.take(0)));
    while i < v.len()
        invariant
            i <= v@.len(),
            variable@ == prefix@ + underscored(v@.take(i as int)),
        decreases v.len() - i,
    {
        if v[i] == '-' {
            variable.push('_');
        } else {
            variable.push(v[i]);
        }
        i = i + 1;
        assert(variable@ =~= prefix@ + underscored(v@.take(i as int)));
    }
    assert(v@.take(v@.len() as int) =~= v@);
    variable
}

// ---------------------------------------------------------------------------
// Building
// ---------------------------------------------------------------------------

impl Default for CredentialProviderBuilder {
    fn default() -> (builder: Self)
        ensures
            builder@ == (Chain {
                commands: Seq::empty(),
                credentials_dir: None,
                env_prefix: None,
                command_timeout: DEFAULT_COMMAND_TIMEOUT,
            }),
    {
        CredentialProviderBuilder {
            commands: NameMap::new(),
            credentials_dir: None,
            env_prefix: None,
            command_timeout: DEFAULT_COMMAND_TIMEOUT,
        }
    }
}

impl CredentialProviderBuilder {
    /// Set the credential commands, by credential name.
    pub fn with_commands(self, commands: NameMap<Vec<String>>) -> (builder: Self)
        ensures
            builder@ == (Chain { commands: commands@, ..self@ }),
    {
        CredentialProviderBuilder { commands, ..self }
    }

    /// Set the directory that holds credential files.
    pub fn with_credentials_dir(self, directory: std::path::PathBuf) -> (builder: Self)
        ensures
            builder@ == (Chain { credentials_dir: Some(directory), ..self@ }),
    {
        CredentialProviderBuilder { credentials_dir: Some(directory), ..self }
    }

    /// Set the prefix of the environment variables.
    pub fn with_env_prefix(self, prefix: &str) -> (builder: Self)
        ensures
            builder@ == (Chain { env_prefix: Some(prefix@), ..self@ }),
    {
        CredentialProviderBuilder { env_prefix: Some(prefix.to_owned()), ..self }
    }

    /// Set the bound on the time of a command, in nanoseconds.
    pub fn with_command_timeout(self, timeout: u128) -> (builder: Self)
        ensures
            builder@ == (Chain { command_timeout: timeout, ..self@ }),
    {
        CredentialProviderBuilder { command_timeout: timeout, ..self }
    }

    /// Build the provider.
    pub fn build(self) -> (provider: CredentialProvider)
        ensures
            provider@ == self@,
    {
        CredentialProvider {
            commands: self.commands,
            credentials_dir: self.credentials_dir,
            env_prefix: self.env_prefix,
            command_timeout: self.command_timeout,
        }
    }
}

// ---------------------------------------------------------------------------
// Resolution
// ---------------------------------------------------------------------------

/// What has to be done to resolve a credential.
#[derive(Debug)]
pub enum Plan {
    /// Nothing: resolution fails.
    Refused(CredentialError),
    /// Run this command, within the provider's time bound.
    Run { program: String, arguments: Vec<String> },
    /// Look for a file of the credential's name in the directory, and then
    /// for the environment variable.
    Search { in_directory: bool, variable: Option<String> },
}

/// A plan as a mathematical value.
pub enum PlanValue {
    Refused(ChainFault),
    Run(Seq<char>, Seq<Seq<char>>),
    Search(bool, Option<Seq<char>>),
}

impl View for Plan {
    type V = PlanValue;

    open spec fn view(&self) -> PlanValue {
        match self {
            Plan::Refused(e) => PlanValue::Refused(e@),
            Plan::Run { program, arguments } => PlanValue::Run(
                program@,
                text::views(arguments@),
            ),
            Plan::Search { in_directory, variable } => PlanValue::Search(
                *in_directory,
                text::opt(*variable),
            ),
        }
    }
}

/// The plan for a credential: an unsafe name is refused, a configured command
/// is run, and otherwise the other sources are searched.
pub open spec fn plan_for(c: Chain, name: Seq<char>) -> PlanValue {
    if !safe_name(name) {
        PlanValue::Refused(ChainFault::InvalidName(name))
    } else {
        match names::find(c.commands, name) {
            Some(command) => if command@.len() == 0 {
                PlanValue::Refused(ChainFault::CommandFailed(name, "empty command"@))
            } else {
                PlanValue::Run(command@[0]@, text::views(command@.skip(1)))
            },
            None => PlanValue::Search(
                c.credentials_dir is Some,
                match c.env_prefix {
                    Some(prefix) => Some(prefix + underscored(text::upper_all(name))),
                    None => None,
                },
            ),
        }
    }
}

/// How a credential command ended.
#[derive(Debug)]
pub enum CommandOutcome {
    /// It did not finish in time.
    TimedOut,
    /// It could not be run.
    Unrunnable(String),
    /// It finished with this status and this output.
    Finished { success: bool, status: String, stdout: Vec<u8> },
}

/// What a search found in the credentials directory.
#[derive(Debug)]
pub enum FileOutcome {
    /// There is no such file, or no directory.
    Absent,
    /// The contents of the file.
    Contents(String),
    /// The file could not be read.
    Unreadable { path: String, reason: String },
}

/// The credential that a command's outcome gives. Trailing white space is
/// not part of it.
pub open spec fn command_credential(name: Seq<char>, timeout: u128, outcome: CommandOutcome) -> Result<
    Seq<char>,
    ChainFault,
> {
    match outcome {
        CommandOutcome::TimedOut => Err(ChainFault::CommandTimeout(name, timeout)),
        CommandOutcome::Unrunnable(reason) => Err(ChainFault::CommandFailed(name, reason@)),
        CommandOutcome::Finished { success, status, stdout } => if !success {
            Err(ChainFault::CommandFailed(name, "exited with status "@ + status@))
        } else if !utf8::valid_utf8(stdout@) {
            Err(ChainFault::CommandFailed(name, "output is not valid UTF-8"@))
        } else {
            Ok(text::trimmed_end(utf8::decode_utf8(stdout@)))
        },
    }
}

/// The credential that a search gives: a file decides before the environment
/// variable.
pub open spec fn found_credential(
    name: Seq<char>,
    file: FileOutcome,
    variable: Option<Seq<char>>,
) -> Result<Seq<char>, ChainFault> {
    match file {
        FileOutcome::Contents(contents) => Ok(text::trimmed_end(contents@)),
        FileOutcome::Unreadable { path, reason } => Err(
            ChainFault::FileReadFailed(name, path@, reason@),
        ),
        FileOutcome::Absent => match variable {
            Some(value) => Ok(value),
            None => Err(ChainFault::NotFound(name)),
        },
    }
}

/// Whether an exec result is the given outcome.
pub open spec fn resolves_to(
    r: Result<Secret, CredentialError>,
    outcome: Result<Seq<char>, ChainFault>,
) -> bool {
    match outcome {
        Ok(value) => r matches Ok(s) && s@ == value,
        Err(fault) => r matches Err(e) && e@ == fault,
    }
}

/// `String::from_utf8`: the text whose UTF-8 encoding the bytes are, or
/// `None` where they are no UTF-8.
#[verifier::external_body]
fn utf8_text(bytes: Vec<u8>) -> (s: Option<String>)
    ensures
        match s {
            Some(t) => utf8::encode_utf8(t@) == bytes@,
            None => !utf8::valid_utf8(bytes@),
        },
{
    String::from_utf8(bytes).ok()
}

impl CredentialProvider {
    /// Begin the configuration of a chain.
    pub fn builder() -> (builder: CredentialProviderBuilder)
        ensures
            builder@ == (Chain {
                commands: Seq::empty(),
                credentials_dir: None,
                env_prefix: None,
                command_timeout: DEFAULT_COMMAND_TIMEOUT,
            }),
    {
        CredentialProviderBuilder::default()
    }

    /// The bound on the time of a command, in nanoseconds.
    pub fn command_timeout(&self) -> (timeout: u128)
        ensures
            timeout == self@.command_timeout,
    {
        self.command_timeout
    }

    /// The directory that holds credential files.
    pub fn credentials_dir(&self) -> (directory: Option<&std::path::PathBuf>)
        ensures
            match directory {
                Some(d) => self@.credentials_dir == Some(*d),
                None => self@.credentials_dir is None,
            },
    {
        self.credentials_dir.as_ref()
    }

    /// Work out what has to be done to resolve a credential.
    pub fn resolve(&self, name: &str) -> (plan: Plan)
        ensures
            plan@ == plan_for(self@, name@),
    {
        if !is_safe_credential_name(name) {
            return Plan::Refused(CredentialError::InvalidName(name.to_owned()));
        }
        if let Some(command) = self.commands.get(name) {
            if command.len() == 0 {
                return Plan::Refused(
                    CredentialError::CommandFailed {
                        name: name.to_owned(),
                        reason: "empty command".to_owned(),
                    },
                );
            }
            let mut arguments: Vec<String> = Vec::new();
            let mut i: usize = 1;
            assert(text::views(command@.skip(1)).take(0) =~= text::views(arguments@));
            while i < command.len()
                invariant
                    1 <= i <= command@.len(),
                    text::views(arguments@) == text::views(command@.skip(1)).take(i - 1),
                decreases command.len() - i,
            {
                let ghost before = arguments@;
                arguments.push(command[i].clone());
                i = i + 1;
                proof {
                    let all = text::views(command@.skip(1));
                    assert(all[i - 2] == command@[i - 1]@);
                    assert(text::views(arguments@) =~= text::views(before).push(all[i - 2]));
                    assert(all.take(i - 1) =~= all.take(i - 2).push(all[i - 2]));
                }
            }
            proof {
                let all = text::views(command@.skip(1));
                assert(all.take(all.len() as int) =~= all);
            }
            return Plan::Run { program: command[0].clone(), arguments };
        }
        let variable = match &self.env_prefix {
            Some(prefix) => {
                proof {
                    lemma_safe_names_are_ascii(name@);
                }
                Some(credential_env_var_name(prefix.as_str(), name))
            },
            None => None,
        };
        Plan::Search { in_directory: self.credentials_dir.is_some(), variable }
    }

    /// The credential that a command's outcome gives.
    pub fn resolve_from_command(&self, name: &str, outcome: CommandOutcome) -> (r: Result<
        Secret,
        CredentialError,
    >)
        ensures
            resolves_to(r, command_credential(name@, self@.command_timeout, outcome)),
    {
        match outcome {
            CommandOutcome::TimedOut => Err(
                CredentialError::CommandTimeout {
                    name: name.to_owned(),
                    after: self.command_timeout,
                },
            ),
            CommandOutcome::Unrunnable(reason) => Err(
                CredentialError::CommandFailed { name: name.to_owned(), reason },
            ),
            CommandOutcome::Finished { success, status, stdout } => {
                if !success {
                    let mut reason = String::from_str("exited with status ");
                    reason.append(status.as_str());
                    return Err(CredentialError::CommandFailed { name: name.to_owned(), reason });
                }
                match utf8_text(stdout) {
                    Some(value) => {
                        proof {
                            utf8::encode_utf8_valid_utf8(value@);
                            utf8::encode_utf8_decode_utf8(value@);
                        }
                        Ok(Secret::new(text::trim_end(value.as_str())))
                    },
                    None => Err(
                        CredentialError::CommandFailed {
                            name: name.to_owned(),
                            reason: "output is not valid UTF-8".to_owned(),
                        },
                    ),
                }
            },
        }
    }

    /// The credential that a search gives.
    pub fn resolve_from_search(
        name: &str,
        file: FileOutcome,
        variable: Option<String>,
    ) -> (r: Result<Secret, CredentialError>)
        ensures
            resolves_to(r, found_credential(name@, file, text::opt(variable))),
    {
        match file {
            FileOutcome::Contents(contents) => Ok(Secret::new(text::trim_end(contents.as_str()))),
            FileOutcome::Unreadable { path, reason } => Err(
                CredentialError::FileReadFailed { name: name.to_owned(), path, reason },
            ),
            FileOutcome::Absent => match variable {
                Some(value) => Ok(Secret::new(value)),
                None => Err(CredentialError::NotFound(name.to_owned())),
            },
        }
    }
}

proof fn lemma_safe_names_are_ascii(name: Seq<char>)
    requires
        safe_name(name),
    ensures
        utf8::is_ascii_chars(name),
{
    assert forall|i: int| 0 <= i < name.len() implies (0 <= #[trigger] name[i] as nat) && (name[i]
        as nat) < 128 by {
        assert(safe_char(name[i]));
    }
}

// ---------------------------------------------------------------------------
// Laws
// ---------------------------------------------------------------------------

/// A safe name cannot leave the credentials directory: it holds no path
/// separator, and it is neither `.` nor `..` nor a hidden file.
pub proof fn safe_names_stay_in_the_directory(name: Seq<char>)
    requires
        safe_name(name),
    ensures
        !name.contains('/'),
        !name.contains('\\'),
        !name.contains('\0'),
        name != "."@,
        name != ".."@,
{
    reveal_strlit(".");
    reveal_strlit("..");
    assert forall|i: int| 0 <= i < name.len() implies name[i] != '/' && name[i] != '\\' && name[i]
        != '\0' by {
        assert(safe_char(name[i]));
    }
}

/// An unsafe name is refused whatever the sources hold, and a configured
/// command is used before any other source.
pub proof fn the_first_source_decides(c: Chain, name: Seq<char>)
    ensures
        !safe_name(name) ==> plan_for(c, name) == PlanValue::Refused(ChainFault::InvalidName(name)),
        plan_for(c, name) is Search ==> safe_name(name) && !names::holds(c.commands, name),
{
    names::lemma_position(c.commands, name);
}

/// A credential name is safe exactly where it is made of ASCII letters,
/// digits, hyphens, underscores and dots, is not empty, and begins with no
/// dot.
pub proof fn safe_names_are_plain(name: Seq<char>)
    ensures
        safe_name(name) <==> {
            &&& name.len() > 0
            &&& name[0] != '.'
            &&& forall|i: int|
                0 <= i < name.len() ==> {
                    let c = #[trigger] name[i];
                    '0' <= c <= '9' || 'A' <= c <= 'Z' || 'a' <= c <= 'z' || c == '-' || c == '.'
                        || c == '_'
                }
        },
{
    assert(forall|c: char|
        #[trigger] safe_char(c) <==> '0' <= c <= '9' || 'A' <= c <= 'Z' || 'a' <= c <= 'z' || c
            == '-' || c == '.' || c == '_');
}

/// A credential with a command is resolved by that command, whatever the
/// other sources are: the first part is the program, the rest its arguments.
pub proof fn commands_are_run_as_configured(c: Chain, name: Seq<char>, command: Vec<String>)
    requires
        safe_name(name),
        names::find(c.commands, name) == Some(command),
    ensures
        command@.len() > 0 ==> (plan_for(c, name) matches PlanValue::Run(program, arguments)
            && arguments.len() + 1 == command@.len() && program == command@[0]@ && forall|i: int|
            0 <= i < arguments.len() ==> #[trigger] arguments[i] == command@[i + 1]@),
        command@.len() == 0 ==> (plan_for(c, name) matches PlanValue::Refused(
            ChainFault::CommandFailed(n, _),
        ) && n == name),
{
}

/// A credential without a command is looked for in the directory, where there
/// is one, and in the variable of its name, where there is a prefix: the
/// prefix, and then the name in capitals with underscores for hyphens.
pub proof fn searches_follow_the_name(c: Chain, name: Seq<char>)
    requires
        safe_name(name),
        forall|i: int| 0 <= i < c.commands.len() ==> (#[trigger] c.commands[i]).0 != name,
    ensures
        plan_for(c, name) matches PlanValue::Search(in_directory, variable) && {
            &&& in_directory <==> c.credentials_dir is Some
            &&& variable is Some <==> c.env_prefix is Some
            &&& variable matches Some(v) ==> {
                let prefix = c.env_prefix->Some_0;
                &&& v.len() == prefix.len() + name.len()
                &&& v.take(prefix.len() as int) == prefix
                &&& forall|i: int|
                    #![trigger name[i]]
                    0 <= i < name.len() ==> {
                        let (from, to) = (name[i] as u32, v[prefix.len() + i] as u32);
                        to == if from == 45 {
                            95
                        } else if 97 <= from <= 122 {
                            (from - 32) as u32
                        } else {
                            from
                        }
                    }
            }
        },
{
    names::lemma_position(c.commands, name);
    if let PlanValue::Search(_, Some(v)) = plan_for(c, name) {
        let prefix = c.env_prefix->Some_0;
        assert(v.take(prefix.len() as int) =~= prefix);
    }
}

/// A name that is refused is refused whatever the sources hold, and what is
/// planned for a name depends on its own command alone.
pub proof fn plans_depend_on_the_name_alone(c: Chain, d: Chain, name: Seq<char>)
    requires
        c.credentials_dir is Some <==> d.credentials_dir is Some,
        c.env_prefix == d.env_prefix,
        names::find(c.commands, name) == names::find(d.commands, name),
    ensures
        plan_for(c, name) == plan_for(d, name),
        plan_for(c, name) matches PlanValue::Refused(ChainFault::InvalidName(n)) ==> n == name,
        (plan_for(c, name) matches PlanValue::Refused(ChainFault::InvalidName(_))) <==> !safe_name(
            name,
        ),
{
}

/// The file of a credential decides where it could be read, whatever the
/// variable holds: the credential is what it holds, without the white space
/// at its end. A file that could not be read fails the search. The variable
/// counts only where there is no file, and then as it is.
pub proof fn the_file_comes_before_the_variable(
    name: Seq<char>,
    contents: String,
    body: Seq<char>,
    back: Seq<char>,
    path: String,
    reason: String,
    v: Option<Seq<char>>,
    r: Result<Secret, CredentialError>,
)
    requires
        contents@ == body + back,
        forall|i: int| 0 <= i < back.len() ==> text::white_space(#[trigger] back[i]),
        body.len() > 0 ==> !text::white_space(body.last()),
    ensures
        found_credential(name, FileOutcome::Contents(contents), v) == Ok::<_, ChainFault>(body),
        resolves_to(r, found_credential(name, FileOutcome::Contents(contents), v)) <==> (r matches Ok(
            secret,
        ) && secret@ == body),
        found_credential(name, FileOutcome::Unreadable { path, reason }, v) == Err::<Seq<char>, _>(
            ChainFault::FileReadFailed(name, path@, reason@),
        ),
        v matches Some(value) ==> found_credential(name, FileOutcome::Absent, v) == Ok::<
            _,
            ChainFault,
        >(value),
        v is None ==> found_credential(name, FileOutcome::Absent, v) == Err::<Seq<char>, _>(
            ChainFault::NotFound(name),
        ),
{
    text::lemma_trimmed_end(body, back);
}

/// A command that succeeds gives what it wrote, without the white space at
/// its end; one that fails, that is too slow or whose output is no text gives
/// nothing, whatever it wrote.
pub proof fn commands_give_what_they_write(
    name: Seq<char>,
    timeout: u128,
    status: String,
    stdout: Vec<u8>,
    body: Seq<char>,
    back: Seq<char>,
    reason: String,
)
    requires
        forall|i: int| 0 <= i < back.len() ==> text::white_space(#[trigger] back[i]),
        body.len() > 0 ==> !text::white_space(body.last()),
    ensures
        stdout@ == utf8::encode_utf8(body + back) ==> command_credential(
            name,
            timeout,
            CommandOutcome::Finished { success: true, status, stdout },
        ) == Ok::<_, ChainFault>(body),
        !utf8::valid_utf8(stdout@) ==> (command_credential(
            name,
            timeout,
            CommandOutcome::Finished { success: true, status, stdout },
        ) matches Err(ChainFault::CommandFailed(n, _)) && n == name),
        command_credential(
            name,
            timeout,
            CommandOutcome::Finished { success: false, status, stdout },
        ) matches Err(ChainFault::CommandFailed(n, why)) && n == name && text::mentions(
            why,
            status@,
        ),
        command_credential(name, timeout, CommandOutcome::Unrunnable(reason)) == Err::<
            Seq<char>,
            _,
        >(ChainFault::CommandFailed(name, reason@)),
        command_credential(name, timeout, CommandOutcome::TimedOut) == Err::<Seq<char>, _>(
            ChainFault::CommandTimeout(name, timeout),
        ),
{
    text::lemma_trimmed_end(body, back);
    utf8::encode_utf8_valid_utf8(body + back);
    utf8::encode_utf8_decode_utf8(body + back);
    text::lemma_mentions("exited with status "@, status@, Seq::empty());
}

/// A resolution ends in a value or an error as its outcome says.
pub proof fn resolutions_end_as_their_outcome_says(
    r: Result<Secret, CredentialError>,
    outcome: Result<Seq<char>, ChainFault>,
)
    requires
        resolves_to(r, outcome),
    ensures
        r is Ok <==> outcome is Ok,
        r matches Ok(secret) ==> secret@ == outcome->Ok_0,
        r matches Err(error) ==> error@ == outcome->Err_0,
{
}

/// A credential error names the credential and says why it could not be had.
pub proof fn credential_errors_name_the_credential(
    name: Seq<char>,
    path: Seq<char>,
    reason: Seq<char>,
    after: u128,
)
    ensures
        text::mentions(fault_message(ChainFault::InvalidName(name)), name),
        text::mentions(fault_message(ChainFault::NotFound(name)), name),
        text::mentions(fault_message(ChainFault::CommandFailed(name, reason)), name),
        text::mentions(fault_message(ChainFault::CommandFailed(name, reason)), reason),
        text::mentions(fault_message(ChainFault::CommandTimeout(name, after)), name),
        text::mentions(
            fault_message(ChainFault::CommandTimeout(name, after)),
            duration_form(seconds_of(after), (after % 1_000_000_000) as u32),
        ),
        text::mentions(fault_message(ChainFault::FileReadFailed(name, path, reason)), name),
        text::mentions(fault_message(ChainFault::FileReadFailed(name, path, reason)), path),
        text::mentions(fault_message(ChainFault::FileReadFailed(name, path, reason)), reason),
        after < 18_446_744_073_709_551_616 * 1_000_000_000 ==> seconds_of(after) * 1_000_000_000
            <= after < (seconds_of(after) + 1) * 1_000_000_000,
{
    let none = Seq::<char>::empty();
    text::lemma_mentions("invalid credential name: "@, name, none);
    text::lemma_mentions("credential not found: "@, name, none);
    let lead = "credential command failed for '"@;
    assert(lead + name + "': "@ + reason =~= lead + name + ("': "@ + reason));
    text::lemma_mentions(lead, name, "': "@ + reason);
    text::lemma_mentions(lead + name + "': "@, reason, none);
    let lead = "credential command for '"@;
    let shown = duration_form(seconds_of(after), (after % 1_000_000_000) as u32);
    let then = "' timed out after "@;
    assert(lead + name + then + shown =~= lead + name + (then + shown));
    text::lemma_mentions(lead, name, then + shown);
    text::lemma_mentions(lead + name + then, shown, none);
    let lead = "failed to read credential file for '"@;
    let m = lead + name + "' at "@ + path + ": "@ + reason;
    assert(m =~= lead + name + ("' at "@ + path + ": "@ + reason));
    text::lemma_mentions(lead, name, "' at "@ + path + ": "@ + reason);
    assert(m =~= lead + name + "' at "@ + path + (": "@ + reason));
    text::lemma_mentions(lead + name + "' at "@, path, ": "@ + reason);
    text::lemma_mentions(lead + name + "' at "@ + path + ": "@, reason, none);
}

/// A search gives the credential of the file where there is one, and of the
/// variable only where there is none.
pub proof fn searches_stop_at_the_first_source(
    name: &str,
    contents: String,
    v: Option<String>,
    w: Option<String>,
    r: Result<Secret, CredentialError>,
    q: Result<Secret, CredentialError>,
    absent: Result<Secret, CredentialError>,
)
    requires
        call_ensures(
            CredentialProvider::resolve_from_search,
            (name, FileOutcome::Contents(contents), v),
            r,
        ),
        call_ensures(
            CredentialProvider::resolve_from_search,
            (name, FileOutcome::Contents(contents), w),
            q,
        ),
        call_ensures(
            CredentialProvider::resolve_from_search,
            (name, FileOutcome::Absent, v),
            absent,
        ),
    ensures
        r is Ok && q is Ok,
        r->Ok_0@ == q->Ok_0@,
        exists|n: int|
            0 <= n <= contents@.len() && r->Ok_0@ == #[trigger] contents@.take(n) && forall|i: int|
                n <= i < contents@.len() ==> text::white_space(#[trigger] contents@[i]),
        v matches Some(value) ==> (absent matches Ok(s) && s@ == value@),
        v is None ==> (absent matches Err(CredentialError::NotFound(n)) && n@ == name@),
{
    lemma_trimmed_prefix(contents@);
}

proof fn lemma_trimmed_prefix(s: Seq<char>)
    ensures
        exists|n: int|
            0 <= n <= s.len() && text::trimmed_end(s) == #[trigger] s.take(n) && forall|i: int|
                n <= i < s.len() ==> text::white_space(#[trigger] s[i]),
    decreases s.len(),
{
    if s.len() > 0 && text::white_space(s.last()) {
        let t = s.drop_last();
        lemma_trimmed_prefix(t);
        let n = choose|n: int|
            0 <= n <= t.len() && text::trimmed_end(t) == #[trigger] t.take(n) && forall|i: int|
                n <= i < t.len() ==> text::white_space(#[trigger] t[i]);
        assert(s.take(n) =~= t.take(n));
        assert forall|i: int| n <= i < s.len() implies text::white_space(#[trigger] s[i]) by {
            if i < t.len() {
                assert(s[i] == t[i]);
            }
        }
    } else {
        assert(s.take(s.len() as int) =~= s);
    }
}

/// A provider refuses unsafe names, runs the command of a credential that has
/// one, and searches for every other.
pub proof fn providers_plan_by_the_name(provider: &CredentialProvider, name: &str, plan: Plan)
    requires
        call_ensures(CredentialProvider::resolve, (provider, name), plan),
    ensures
        (plan matches Plan::Refused(CredentialError::InvalidName(n))) <==> !safe_name(name@),
        plan matches Plan::Run { program, arguments } ==> (names::find(
            provider@.commands,
            name@,
        ) matches Some(command) && command@.len() == arguments@.len() + 1 && program@
            == command@[0]@),
        plan matches Plan::Search { in_directory, variable } ==> safe_name(name@) && names::find(
            provider@.commands,
            name@,
        ) is None && (in_directory <==> provider@.credentials_dir is Some) && (variable is Some
            <==> provider@.env_prefix is Some),
{
    if safe_name(name@) {
        if let Some(command) = names::find(provider@.commands, name@) {
            commands_are_run_as_configured(provider@, name@, command);
            if let Plan::Run { program, arguments } = plan {
                assert(text::views(arguments@).len() == arguments@.len());
            }
        } else {
            names::lemma_position(provider@.commands, name@);
        }
    }
}

/// The variable of a credential is the prefix and the name in capitals, with
/// underscores for hyphens.
pub proof fn variables_are_named_after_their_credential(
    prefix: &str,
    name: &str,
    variable: String,
    safe: bool,
    i: int,
)
    requires
        call_ensures(credential_env_var_name, (prefix, name), variable),
        call_ensures(is_safe_credential_name, (name,), safe),
    ensures
        safe <==> safe_name(name@),
        safe ==> {
            &&& variable@.len() == prefix@.len() + name@.len()
            &&& variable@.take(prefix@.len() as int) == prefix@
            &&& 0 <= i < name@.len() ==> variable@[prefix@.len() + i] == if name@[i] == '-' {
                '_'
            } else {
                text::upper(name@[i])
            }
        },
{
    if safe {
        lemma_safe_names_are_ascii(name@);
        assert(variable@.take(prefix@.len() as int) =~= prefix@);
        if 0 <= i < name@.len() {
            assert(text::upper(name@[i]) != '-' || name@[i] == '-');
            assert(underscored(text::upper_all(name@))[i] == variable@[prefix@.len() + i]);
        }
    }
}

} // verus!
