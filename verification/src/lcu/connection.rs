//! How to reach the client: its port and its credentials, from the arguments with which
//! its process was started.

use crate::text::{
    concat, has_prefix, lowercase, lowercase_of, parse_u16, parsed_unsigned, str_eq, strip_prefix,
    views,
};
use base64::engine::general_purpose::STANDARD;
use base64::Engine;
use vstd::prelude::*;
use vstd::utf8::encode_utf8;

verus! {

/// How long to wait between two looks at the list of processes, in milliseconds.
pub const CREDENTIALS_POLL_MS: u64 = 500;

/// How long the client may take to answer, in seconds.
pub const REQUEST_TIMEOUT_SECS: u64 = 10;

/// A port and what to show for it.
#[derive(Debug)]
pub struct LcuCredentials {
    pub port: u16,
    pub auth_token: String,
    /// The value of the `Authorization` header.
    pub auth_header: String,
}

/// What `LcuCredentials` hold.
pub struct CredentialsView {
    pub port: u16,
    pub auth_token: Seq<char>,
    pub auth_header: Seq<char>,
}

impl View for LcuCredentials {
    type V = CredentialsView;

    open spec fn view(&self) -> CredentialsView {
        CredentialsView {
            port: self.port,
            auth_token: self.auth_token@,
            auth_header: self.auth_header@,
        }
    }
}

/// The character of the standard Base64 alphabet for a number of six bits.
pub open spec fn base64_char(n: int) -> char {
    if n < 26 {
        ('A' as int + n) as char
    } else if n < 52 {
        ('a' as int + n - 26) as char
    } else if n < 62 {
        ('0' as int + n - 52) as char
    } else if n == 62 {
        '+'
    } else {
        '/'
    }
}

/// The standard Base64 text for some bytes: every three bytes, taken as one number of 24
/// bits, give four characters of six bits each. Where the last group is short, its missing
/// bits are zero and its missing characters are filled up with `=`.
pub open spec fn base64_of(bytes: Seq<u8>) -> Seq<char>
    decreases bytes.len(),
{
    let n = bytes.len();
    if n == 0 {
        Seq::empty()
    } else {
        let a = bytes[0] as int;
        let b = if n > 1 {
            bytes[1] as int
        } else {
            0
        };
        let c = if n > 2 {
            bytes[2] as int
        } else {
            0
        };
        let group = seq![
            base64_char(a / 4),
            base64_char(a % 4 * 16 + b / 16),
            if n > 1 {
                base64_char(b % 16 * 4 + c / 64)
            } else {
                '='
            },
            if n > 2 {
                base64_char(c % 64)
            } else {
                '='
            },
        ];
        if n > 3 {
            group + base64_of(bytes.subrange(3, n as int))
        } else {
            group
        }
    }
}

/// How long the Base64 text for so many bytes is: four characters for every three bytes
/// or part of three.
pub open spec fn base64_len(bytes: nat) -> nat {
    (bytes + 2) / 3 * 4
}

/// Encodes bytes with `base64::engine::general_purpose::STANDARD.encode`. The contract says
/// that the result is the text in the standard alphabet, with padding. The text has to fit
/// in memory: the engine panics where it could not be allocated.
#[verifier::external_body]
fn base64_text(bytes: &[u8]) -> (r: String)
    requires
        base64_len(bytes@.len()) <= isize::MAX,
    ensures
        r@ == base64_of(bytes@),
{
    STANDARD.encode(bytes)
}

/// The argument that gives the port, and the one that gives the token.
pub open spec fn port_prefix() -> Seq<char> {
    "--app-port="@
}

pub open spec fn token_prefix() -> Seq<char> {
    "--remoting-auth-token="@
}

/// What follows a prefix of so many characters.
pub open spec fn after(s: Seq<char>, prefix: Seq<char>) -> Seq<char> {
    s.subrange(prefix.len() as int, s.len() as int)
}

/// The port in the arguments: the last one given decides.
pub open spec fn port_in(args: Seq<Seq<char>>) -> Option<nat>
    decreases args.len(),
{
    if args.len() == 0 {
        None
    } else if has_prefix(args.last(), port_prefix()) {
        parsed_unsigned(after(args.last(), port_prefix()), u16::MAX as nat)
    } else {
        port_in(args.drop_last())
    }
}

/// The token in the arguments: the last one given decides.
pub open spec fn token_in(args: Seq<Seq<char>>) -> Option<Seq<char>>
    decreases args.len(),
{
    if args.len() == 0 {
        None
    } else if !has_prefix(args.last(), port_prefix()) && has_prefix(args.last(), token_prefix()) {
        Some(after(args.last(), token_prefix()))
    } else {
        token_in(args.drop_last())
    }
}

/// What is encoded for a token.
pub open spec fn login_bytes(token: Seq<char>) -> Seq<u8> {
    encode_utf8("riot:"@ + token)
}

/// The credentials in the arguments: there are some where both a port and a token were
/// given.
pub open spec fn credentials_in(args: Seq<Seq<char>>) -> Option<CredentialsView> {
    match (port_in(args), token_in(args)) {
        (Some(port), Some(token)) => Some(
            CredentialsView {
                port: port as u16,
                auth_token: token,
                auth_header: "Basic "@ + base64_of(login_bytes(token)),
            },
        ),
        _ => None,
    }
}

/// The header for a token can be held in memory.
pub open spec fn token_fits(args: Seq<Seq<char>>) -> bool {
    token_in(args) matches Some(token) ==> base64_len(login_bytes(token).len()) <= isize::MAX
}

/// The view of credentials that may be missing.
pub open spec fn credentials_view(r: Option<LcuCredentials>) -> Option<CredentialsView> {
    match r {
        Some(c) => Some(c@),
        None => None,
    }
}

/// The value of the `Authorization` header for an encoded login.
pub fn basic_header(encoded: &str) -> (r: String)
    ensures
        r@ == "Basic "@ + encoded@,
{
    concat("Basic ", encoded)
}

impl LcuCredentials {
    /// Reads the credentials from the arguments of a process.
    pub fn from_cmdline(args: &Vec<String>) -> (r: Option<LcuCredentials>)
        requires
            token_fits(views(args@)),
        ensures
            credentials_view(r) == credentials_in(views(args@)),
    {
        let mut port: Option<u16> = None;
        let mut token: Option<String> = None;
        let mut i: usize = 0;
        while i < args.len()
            invariant
                i <= args@.len(),
                port_in(views(args@).subrange(0, i as int)) == match port {
                    Some(p) => Some(p as nat),
                    None => None,
                },
                token_in(views(args@).subrange(0, i as int)) == match token {
                    Some(t) => Some(t@),
                    None => None,
                },
            decreases args@.len() - i,
        {
            let arg = args[i].as_str();
            proof {
                let seen = views(args@).subrange(0, i + 1);
                assert(seen.drop_last() =~= views(args@).subrange(0, i as int));
                assert(seen.last() == arg@);
            }
            match strip_prefix(arg, "--app-port=") {
                Some(rest) => {
                    assert(rest@ =~= after(arg@, port_prefix()));
                    port = parse_u16(rest.as_str());
                },
                None => {
                    match strip_prefix(arg, "--remoting-auth-token=") {
                        Some(rest) => {
                            assert(rest@ =~= after(arg@, token_prefix()));
                            token = Some(rest);
                        },
                        None => {},
                    }
                },
            }
            i += 1;
        }
        assert(views(args@).subrange(0, args@.len() as int) =~= views(args@));
        match (port, token) {
            (Some(port), Some(token)) => {
                let raw = concat("riot:", token.as_str());
                let encoded = base64_text(raw.as_str().as_bytes());
                Some(
                    LcuCredentials {
                        port,
                        auth_token: token,
                        auth_header: basic_header(encoded.as_str()),
                    },
                )
            },
            _ => None,
        }
    }
}

/// A running process: its name and its arguments.
pub struct ProcessInfo {
    pub name: String,
    pub cmd: Vec<String>,
}

/// Whether a name in lower case is that of one of the client's processes.
pub open spec fn is_client_name(lower: Seq<char>) -> bool {
    lower == "leagueclient.exe"@ || lower == "leagueclientux.exe"@
}

/// Whether a name in lower case is that of one of the client's processes.
pub fn is_lcu_process(lower: &str) -> (r: bool)
    ensures
        r == is_client_name(lower@),
{
    str_eq(lower, "leagueclient.exe") || str_eq(lower, "leagueclientux.exe")
}

/// The credentials that a process gives away.
pub open spec fn process_credentials(p: ProcessInfo) -> Option<CredentialsView> {
    if is_client_name(lowercase_of(p.name@)) {
        credentials_in(views(p.cmd@))
    } else {
        None
    }
}

/// Looks through the processes for the client's credentials. The first process that
/// gives some decides.
pub fn find_lcu_credentials(processes: &Vec<ProcessInfo>) -> (r: Option<LcuCredentials>)
    requires
        forall|i: int| 0 <= i < processes@.len() ==> token_fits(views(#[trigger] processes@[i].cmd@)),
    ensures
        r matches Some(c) ==> exists|i: int|
            0 <= i < processes@.len() && #[trigger] process_credentials(processes@[i]) == Some(c@)
                && forall|j: int| 0 <= j < i ==> process_credentials(#[trigger] processes@[j]) is None,
        r is None ==> forall|j: int|
            0 <= j < processes@.len() ==> process_credentials(#[trigger] processes@[j]) is None,
{
    let mut i: usize = 0;
    while i < processes.len()
        invariant
            i <= processes@.len(),
            forall|k: int|
                0 <= k < processes@.len() ==> token_fits(views(#[trigger] processes@[k].cmd@)),
            forall|j: int| 0 <= j < i ==> process_credentials(#[trigger] processes@[j]) is None,
        decreases processes@.len() - i,
    {
        let name = lowercase(processes[i].name.as_str());
        if is_lcu_process(name.as_str()) {
            match LcuCredentials::from_cmdline(&processes[i].cmd) {
                Some(c) => {
                    assert(process_credentials(processes@[i as int]) == Some(c@));
                    return Some(c);
                },
                None => {},
            }
        }
        i += 1;
    }
    None
}

/// The headers that go with every request.
pub fn request_headers(creds: &LcuCredentials) -> (r: Vec<(&'static str, String)>)
    ensures
        r@.len() == 3,
        r@[0].0@ == "Authorization"@ && r@[0].1@ == creds@.auth_header,
        r@[1].0@ == "Content-Type"@ && r@[1].1@ == "application/json"@,
        r@[2].0@ == "Accept"@ && r@[2].1@ == "application/json"@,
{
    let mut r: Vec<(&'static str, String)> = Vec::new();
    r.push(("Authorization", creds.auth_header.clone()));
    r.push(("Content-Type", "application/json".to_owned()));
    r.push(("Accept", "application/json".to_owned()));
    r
}

/// The Base64 text for some bytes is as long as `base64_len` says.
pub proof fn law_base64_length(bytes: Seq<u8>)
    ensures
        base64_of(bytes).len() == base64_len(bytes.len()),
    decreases bytes.len(),
{
    if bytes.len() > 3 {
        law_base64_length(bytes.subrange(3, bytes.len() as int));
    }
}

} // verus!
