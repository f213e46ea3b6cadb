//! What the command-line relay decides: the relay that its arguments ask
//! for, how it names its user and the client, and what it makes of what
//! comes back from the server.
//!
//! The relay copies standard input to the server and sends what the server
//! answers to standard output and standard error. The copying is the
//! caller's; the decisions on the way are here.

use vstd::prelude::*;
use vstd::string::StrSliceExecFns;
use crate::words::{chars_of, first_word, words_of};

verus! {

/// The arguments given to the program itself.
pub struct MainArgs {
    pub repository: Option<String>,
    pub query_string: Option<String>,
    pub priority: Option<String>,
    pub no_session_output: bool,
    pub remote_proxy: bool,
    pub scuba_table: Option<String>,
}

/// The arguments given to the `serve` command.
pub struct ServeArgs {
    pub stdio: bool,
    pub mononoke_path: Option<String>,
    pub cert: Option<String>,
    pub private_key: Option<String>,
    pub ca_pem: Option<String>,
    pub common_name: Option<String>,
    pub insecure: bool,
    pub mock_username: Option<String>,
}

impl ServeArgs {
    /// Whether everything is given that a relay cannot do without: where to
    /// find the server, the client's certificate and key, the authority's
    /// certificate, and the common name of the server.
    pub open spec fn is_complete(&self) -> bool {
        &&& self.mononoke_path is Some
        &&& self.cert is Some
        &&& self.private_key is Some
        &&& self.ca_pem is Some
        &&& self.common_name is Some
    }

    #[verifier::when_used_as_spec(is_complete)]
    pub fn complete(&self) -> (complete: bool)
        ensures
            complete == self.is_complete(),
    {
        self.mononoke_path.is_some() && self.cert.is_some() && self.private_key.is_some()
            && self.ca_pem.is_some() && self.common_name.is_some()
    }
}

/// A relay between standard input and output and a server.
pub struct StdioRelay {
    pub path: String,
    pub repo: String,
    pub query_string: String,
    pub cert: String,
    pub private_key: String,
    pub ca_pem: String,
    pub ssl_common_name: String,
    pub insecure: bool,
    pub is_remote_proxy: bool,
    pub scuba_table: Option<String>,
    pub mock_username: Option<String>,
    pub show_session_output: bool,
    /// The priority as it was given; none asks for the default priority.
    pub priority: Option<String>,
}

/// Why the `serve` command cannot run.
#[derive(Clone, Copy, Debug, PartialEq, Eq, Structural)]
pub enum CmdError {
    /// No repository was named.
    MissingRepository,
    /// The server was asked for in another way than over standard input
    /// and output.
    OnlyStdioSupported,
}

/// The relay that the arguments ask for. Only a relay over standard input
/// and output can be had, and only for a named repository. A query string
/// that is not given is empty, and session output is shown unless it was
/// turned off.
pub fn cmd(main: MainArgs, sub: ServeArgs) -> (relay: Result<StdioRelay, CmdError>)
    requires
        sub.stdio && main.repository is Some ==> sub.is_complete(),
    ensures
        !sub.stdio ==> relay == Err::<StdioRelay, CmdError>(CmdError::OnlyStdioSupported),
        sub.stdio && main.repository is None ==> relay == Err::<StdioRelay, CmdError>(
            CmdError::MissingRepository,
        ),
        sub.stdio && main.repository is Some ==> relay == Ok::<StdioRelay, CmdError>(
            StdioRelay {
                path: sub.mononoke_path->0,
                repo: main.repository->0,
                query_string: relay->Ok_0.query_string,
                cert: sub.cert->0,
                private_key: sub.private_key->0,
                ca_pem: sub.ca_pem->0,
                ssl_common_name: sub.common_name->0,
                insecure: sub.insecure,
                is_remote_proxy: main.remote_proxy,
                scuba_table: main.scuba_table,
                mock_username: sub.mock_username,
                show_session_output: !main.no_session_output,
                priority: main.priority,
            },
        ) && relay->Ok_0.query_string@ == match main.query_string {
            Some(query_string) => query_string@,
            None => Seq::<char>::empty(),
        },
{
    if sub.stdio {
        if let Some(repo) = main.repository {
            let query_string = match main.query_string {
                Some(query_string) => query_string,
                None => String::new(),
            };
            return Ok(
                StdioRelay {
                    path: sub.mononoke_path.unwrap(),
                    repo,
                    query_string,
                    cert: sub.cert.unwrap(),
                    private_key: sub.private_key.unwrap(),
                    ca_pem: sub.ca_pem.unwrap(),
                    ssl_common_name: sub.common_name.unwrap(),
                    insecure: sub.insecure,
                    is_remote_proxy: main.remote_proxy,
                    scuba_table: main.scuba_table,
                    mock_username: sub.mock_username,
                    show_session_output: !main.no_session_output,
                    priority: main.priority,
                },
            );
        }
        return Err(CmdError::MissingRepository);
    }
    Err(CmdError::OnlyStdioSupported)
}

/// The name of the user the relay acts for: the mock name where one is
/// given, else the name of the current user, if that is known.
pub fn unix_username(mock_username: Option<String>, current_username: Option<String>) -> (username:
    Option<String>)
    ensures
        username == match mock_username {
            Some(mock_username) => Some(mock_username),
            None => current_username,
        },
{
    match mock_username {
        Some(mock_username) => Some(mock_username),
        None => current_username,
    }
}

/// The address of the client of a remote proxy, as text: the first word of
/// what the secure shell says of the connection, if it says anything.
pub fn client_address(ssh_connection: Option<String>) -> (address: Option<String>)
    ensures
        match address {
            Some(address) => ssh_connection matches Some(line) && words_of(line@).len() > 0
                && address@ == words_of(line@)[0],
            None => ssh_connection matches Some(line) ==> words_of(line@).len() == 0,
        },
{
    match ssh_connection {
        Some(line) => first_word(line.as_str()),
        None => None,
    }
}

/// Whether a text holds another as a run of its characters.
pub open spec fn holds_text(text: Seq<char>, part: Seq<char>) -> bool {
    exists|at: int|
        0 <= at <= text.len() - part.len() && #[trigger] text.subrange(at, at + part.len())
            == part
}

/// Whether a text holds another as a run of its characters.
pub fn contains_text(text: &str, part: &str) -> (found: bool)
    ensures
        found == holds_text(text@, part@),
{
    let hay = chars_of(text);
    let needle = chars_of(part);
    if needle.len() > hay.len() {
        return false;
    }
    let last = hay.len() - needle.len();
    let mut at: usize = 0;
    while at <= last
        invariant
            hay@ == text@,
            needle@ == part@,
            last == hay.len() - needle.len(),
            at <= last + 1,
            forall|before: int|
                0 <= before < at ==> #[trigger] hay@.subrange(before, before + needle.len())
                    != needle@,
        decreases last + 1 - at,
    {
        let mut i: usize = 0;
        while i < needle.len() && hay[at + i] == needle[i]
            invariant
                last == hay.len() - needle.len(),
                at <= last,
                i <= needle.len(),
                forall|j: int| 0 <= j < i ==> hay@[at + j] == needle@[j],
            decreases needle.len() - i,
        {
            i += 1;
        }
        if i == needle.len() {
            assert(hay@.subrange(at as int, at + needle.len()) =~= needle@);
            return true;
        }
        assert(hay@.subrange(at as int, at + needle.len())[i as int] != needle@[i as int]);
        at += 1;
    }
    false
}

/// Whether the start of a session is told in the one line that the build
/// farm looks for, rather than in the lines meant for people. That line is
/// written where no query string is given, or one that names the build farm.
pub fn announces_for_sandcastle(query_string: &str) -> (plain: bool)
    ensures
        plain == (query_string@.len() == 0 || holds_text(query_string@, "sandcastle"@)),
{
    query_string.unicode_len() == 0 || contains_text(query_string, "sandcastle")
}

/// The error code with which the certificate store refuses a certificate
/// that it holds already.
pub const X509_R_CERT_ALREADY_IN_HASH_TABLE: u64 = 185057381;

/// Whether the failure to add a certificate to the store can be passed
/// over: it can where the one and only error says that the certificate is
/// there already.
pub fn cert_already_in_store(error_codes: &Vec<u64>) -> (already: bool)
    ensures
        already == (error_codes@.len() == 1 && error_codes@[0]
            == X509_R_CERT_ALREADY_IN_HASH_TABLE),
{
    error_codes.len() == 1 && error_codes[0] == X509_R_CERT_ALREADY_IN_HASH_TABLE
}

/// The stream that a message belongs to.
#[derive(Clone, Copy, Debug, PartialEq, Eq, Structural)]
pub enum SshStream {
    Stdin,
    Stdout,
    Stderr,
    Preamble,
}

/// Where a message from the server goes: `false` for standard output, `true`
/// for standard error. A message of any other stream is an error, and the
/// stream is handed back.
pub fn select_sink(stream: SshStream) -> (sink: Result<bool, SshStream>)
    ensures
        sink == match stream {
            SshStream::Stdout => Ok::<bool, SshStream>(false),
            SshStream::Stderr => Ok::<bool, SshStream>(true),
            bad => Err::<bool, SshStream>(bad),
        },
{
    match stream {
        SshStream::Stdout => Ok(false),
        SshStream::Stderr => Ok(true),
        bad => Err(bad),
    }
}

/// Whether a relay that ended with a failure ended well all the same: it
/// did where the server reset the connection, which it also does after an
/// error of its own. `connection_reset` says whether the failure was one of
/// input or output, and if so whether it was a reset connection.
pub fn ended_well(connection_reset: Option<bool>) -> (well: bool)
    ensures
        well == (connection_reset == Some(true)),
{
    match connection_reset {
        Some(true) => true,
        _ => false,
    }
}

} // verus!
