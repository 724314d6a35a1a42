//! The error taxonomy shared by every operation of the library.

use vstd::prelude::*;
use vstd::string::*;

use crate::text::views;

verus! {

/// Why an operation failed.
#[derive(Debug, Clone)]
pub enum SkillsError {
    /// The URL did not have the expected `https://github.com/owner/repo/tree/...` shape.
    InvalidUrl(String),
    /// A transport or connectivity failure when calling the remote service.
    NetworkError(String),
    /// The remote resource was not found.
    NotFound { url: String },
    /// Access to the remote resource was denied.
    Forbidden,
    /// The remote service's rate limit was exceeded.
    RateLimited,
    /// Any other unsuccessful status from the remote service.
    HttpError { status: u16, message: String },
    /// The downloaded archive could not be read.
    InvalidArchive(String),
    /// The requested path does not exist at the resolved ref.
    PathNotFound(String),
    /// A skill directory lacks its `SKILL.md` marker file.
    MissingSkillManifest,
    /// A local filesystem failure, with the system's description of it.
    IoError(String),
    /// The manifest file could not be parsed.
    ConfigParseError(String),
    /// Neither the location nor any of its subdirectories holds a skill.
    NoSkillsFound(String),
    /// Some members of a batch installed and some did not.
    BatchInstallationFailed { successful: usize, failed: Vec<String> },
}

/// The decimal digit for `d < 10`.
pub open spec fn digit_char(d: nat) -> char {
    ((d + '0' as nat) as u8) as char
}

/// `n` written in decimal, without leading zeros.
pub open spec fn decimal(n: nat) -> Seq<char>
    decreases n,
{
    if n < 10 {
        seq![digit_char(n)]
    } else {
        decimal(n / 10) + seq![digit_char(n % 10)]
    }
}

/// `n` written in decimal.
pub fn decimal_string(n: u64) -> (r: String)
    ensures
        r@ == decimal(n as nat),
    decreases n,
{
    let digits = "0123456789";
    proof {
        reveal_strlit("0123456789");
        assert forall|d: int| 0 <= d < 10 implies #[trigger] digits@[d] == digit_char(d as nat) by {}
    }
    let d = (n % 10) as usize;
    let last = digits.substring_char(d, d + 1);
    proof {
        assert(last@ =~= seq![digit_char(d as nat)]);
    }
    if n < 10 {
        String::from_str(last)
    } else {
        let mut r = decimal_string(n / 10);
        r.append(last);
        r
    }
}

/// Each name on a line of its own, as a bulleted list.
pub open spec fn bullets(names: Seq<Seq<char>>) -> Seq<char>
    decreases names.len(),
{
    if names.len() == 0 {
        Seq::empty()
    } else {
        bullets(names.drop_last()) + "\n  - "@ + names.last()
    }
}

/// The text shown to the user for an error: a one-line summary and, where
/// useful, probable causes.
pub open spec fn message_of(e: SkillsError) -> Seq<char> {
    match e {
        SkillsError::InvalidUrl(url) => "Invalid GitHub URL\n\nExpected format: https://github.com/{owner}/{repo}/tree/{ref}/{path}\nGot: "@
            + url@,
        SkillsError::NetworkError(reason) => "Network connection failed\n\nReason: "@ + reason@
            + "\nPlease check your network connection and try again."@,
        SkillsError::NotFound { url } => "Failed to access GitHub resource (HTTP 404)\n\nPossible reasons:\n  - Repository does not exist or has been deleted\n  - Branch/commit does not exist\n  - Repository is private\n\nURL: "@
            + url@,
        SkillsError::Forbidden => "Access forbidden (HTTP 403)\n\nThe repository may be private. Private repositories are not currently supported."@,
        SkillsError::RateLimited => "GitHub API rate limit exceeded (HTTP 429)\n\nPlease try again later or wait about 1 hour for the limit to reset."@,
        SkillsError::HttpError { status, message } => "HTTP error "@ + decimal(status as nat)
            + ": "@ + message@,
        SkillsError::InvalidArchive(reason) => "Downloaded file is not a valid gzip archive\n\n"@
            + reason@,
        SkillsError::PathNotFound(path) => "Path '"@ + path@
            + "' not found in repository\n\nPossible reasons:\n  - Path is misspelled\n  - Path does not exist at the specified commit/branch"@,
        SkillsError::MissingSkillManifest => "Invalid skill\n\nExpect 'SKILL.md' or 'skill.md' in the directory."@,
        SkillsError::IoError(err) => "Filesystem error\n\n"@ + err@,
        SkillsError::ConfigParseError(reason) => "Failed to parse skills.toml\n\nReason: "@ + reason@
            + "\nPlease check the config file format."@,
        SkillsError::NoSkillsFound(path) => "No skills found at '"@ + path@
            + "'\n\nExpected a 'SKILL.md' file in the directory or in its immediate subdirectories."@,
        SkillsError::BatchInstallationFailed { successful, failed } => "Some skills failed to install\n\nInstalled: "@
            + decimal(successful as nat) + "\nFailed:"@ + bullets(views(failed@)),
    }
}

impl SkillsError {
    /// The text shown to the user for this error.
    pub fn message(&self) -> (r: String)
        ensures
            r@ == message_of(*self),
    {
        match self {
            SkillsError::InvalidUrl(url) => {
                let mut r = String::from_str(
                    "Invalid GitHub URL\n\nExpected format: https://github.com/{owner}/{repo}/tree/{ref}/{path}\nGot: ",
                );
                r.append(url.as_str());
                r
            },
            SkillsError::NetworkError(reason) => {
                let mut r = String::from_str("Network connection failed\n\nReason: ");
                r.append(reason.as_str());
                r.append("\nPlease check your network connection and try again.");
                r
            },
            SkillsError::NotFound { url } => {
                let mut r = String::from_str(
                    "Failed to access GitHub resource (HTTP 404)\n\nPossible reasons:\n  - Repository does not exist or has been deleted\n  - Branch/commit does not exist\n  - Repository is private\n\nURL: ",
                );
                r.append(url.as_str());
                r
            },
            SkillsError::Forbidden => String::from_str(
                "Access forbidden (HTTP 403)\n\nThe repository may be private. Private repositories are not currently supported.",
            ),
            SkillsError::RateLimited => String::from_str(
                "GitHub API rate limit exceeded (HTTP 429)\n\nPlease try again later or wait about 1 hour for the limit to reset.",
            ),
            SkillsError::HttpError { status, message } => {
                let mut r = String::from_str("HTTP error ");
                let code = decimal_string(*status as u64);
                r.append(code.as_str());
                r.append(": ");
                r.append(message.as_str());
                r
            },
            SkillsError::InvalidArchive(reason) => {
                let mut r = String::from_str("Downloaded file is not a valid gzip archive\n\n");
                r.append(reason.as_str());
                r
            },
            SkillsError::PathNotFound(path) => {
                let mut r = String::from_str("Path '");
                r.append(path.as_str());
                r.append(
                    "' not found in repository\n\nPossible reasons:\n  - Path is misspelled\n  - Path does not exist at the specified commit/branch",
                );
                r
            },
            SkillsError::MissingSkillManifest => String::from_str(
                "Invalid skill\n\nExpect 'SKILL.md' or 'skill.md' in the directory.",
            ),
            SkillsError::IoError(err) => {
                let mut r = String::from_str("Filesystem error\n\n");
                r.append(err.as_str());
                r
            },
            SkillsError::ConfigParseError(reason) => {
                let mut r = String::from_str("Failed to parse skills.toml\n\nReason: ");
                r.append(reason.as_str());
                r.append("\nPlease check the config file format.");
                r
            },
            SkillsError::NoSkillsFound(path) => {
                let mut r = String::from_str("No skills found at '");
                r.append(path.as_str());
                r.append(
                    "'\n\nExpected a 'SKILL.md' file in the directory or in its immediate subdirectories.",
                );
                r
            },
            SkillsError::BatchInstallationFailed { successful, failed } => {
                let mut r = String::from_str("Some skills failed to install\n\nInstalled: ");
                let count = decimal_string(*successful as u64);
                r.append(count.as_str());
                r.append("\nFailed:");
                let mut i: usize = 0;
                let ghost head = r@;
                proof {
                    assert(views(failed@.subrange(0, 0)) =~= Seq::<Seq<char>>::empty());
                }
                while i < failed.len()
                    invariant
                        i <= failed@.len(),
                        r@ == head + bullets(views(failed@.subrange(0, i as int))),
                    decreases failed.len() - i,
                {
                    r.append("\n  - ");
                    r.append(failed[i].as_str());
                    proof {
                        let next = views(failed@.subrange(0, i + 1));
                        assert(next.drop_last() =~= views(failed@.subrange(0, i as int)));
                    }
                    i = i + 1;
                }
                proof {
                    assert(failed@.subrange(0, i as int) =~= failed@);
                }
                r
            },
        }
    }
}

} // verus!
