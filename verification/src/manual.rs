//! The embedded manual page and where it is installed.

use vstd::prelude::*;
use crate::text::{chars_of, same_text, to_owned_string, push_str};

verus! {

/// The `suffix(1)` manual page, in troff.
pub const MANPAGE: &'static str = ".TH SUFFIX 1 \"2026-08-08\" \"Suffix 0.1.5\" \"User Commands\"\n\
.SH NAME\n\
.PP\n\
suffix - manage durable short links, domains, photos, and files on suffix.org\n\
.SH SYNOPSIS\n\
.PP\n\
\\fBsuffix [COMMAND] [ARGUMENTS] [OPTIONS]\\fR\n\
.PP\n\
\\fBsuffix man [show]\\fR\n\
.PP\n\
\\fBsuffix man install [-d|--dir DIR]\\fR\n\
.SH DESCRIPTION\n\
.PP\n\
Suffix is the command-line client for \\fBhttps://suffix.org/api/v1\\fR. It manages shortcuts and domains belonging to a saved account, uses Somme for configuration and authenticated requests, and supports multiple local account profiles. With no command it prints an overview of the active account's shortcuts and saved profiles.\n\
.PP\n\
All optional arguments have equivalent short and long forms. Positional account selectors operate for one invocation without changing the active profile.\n\
.SH COMMANDS\n\
.SS login\n\
.PP\n\
\\fBsuffix login [EMAIL] [-u|--app-url URL] [-e|--email EMAIL] [-a|--account NAME] [-n|--name KEY-NAME] [-r|--renew] [-o|--no-open] [-t|--timeout SECONDS]\\fR\n\
.PP\n\
Select a matching saved account or start browser approval and store a new API key. The positional email and \\fB--email\\fR are equivalent and conflict when both are supplied. A matching stored key is reused unless \\fB--renew\\fR is present. \\fB--account\\fR selects the local profile name, \\fB--name\\fR labels a newly minted dashboard key, \\fB--app-url\\fR changes the approval site, \\fB--no-open\\fR prints rather than opens the URL, and \\fB--timeout\\fR defaults to 120 seconds.\n\
.SS logout\n\
.PP\n\
\\fBsuffix logout ACCOUNT\\fR\n\
.PP\n\
Forget the selected profile's API key while retaining cached metadata.\n\
.SS ls\n\
.PP\n\
\\fBsuffix ls [ACCOUNT] [-j|--json] [-x|--xml] [-y|--yaml] [-l|--stats]\\fR\n\
.PP\n\
List shortcuts as tab-separated shortcut and target columns. \\fB--stats\\fR adds visit counts. Exactly one structured output flag may be selected. The hidden compatibility flag \\fB-d|--domains\\fR lists domains; prefer \\fBsuffix domain ls\\fR.\n\
.SS search\n\
.PP\n\
\\fBsuffix search REGEXP [ACCOUNT]\\fR\n\
.PP\n\
Search shortcut URLs and targets using a case-insensitive regular expression. Output is tab-separated match scope, shortcut, and target.\n\
.SS add\n\
.PP\n\
\\fBsuffix add [OPTIONS] VALUE [TAIL] [TARGET-URL] [ACCOUNT]\\fR\n\
.PP\n\
Create a redirect or Photo shortcut. \\fBVALUE\\fR may be \\fBHOST/TAIL\\fR, a target URL, or a public tail depending on the selected form.\n\
.PP\n\
Options:\n\
.PP\n\
\\fB-d, --domain HOST\\fR\n\
.RS\n\
Explicit shortcut hostname.\n\
.RE\n\
.PP\n\
\\fB-p, --public\\fR\n\
.RS\n\
Use public \\fBsuf.cx\\fR; omit a tail for generated candidates or provide a custom tail before the URL.\n\
.RE\n\
.PP\n\
\\fB-l, --letters\\fR; \\fB-a, --alphanumeric\\fR; \\fB-w, --words\\fR\n\
.RS\n\
Candidate styles for \\fB--public\\fR.\n\
.RE\n\
.PP\n\
\\fB-i, --domain-id ID\\fR\n\
.RS\n\
Domain ID; defaults to the first owned domain.\n\
.RE\n\
.PP\n\
\\fB-t, --title TITLE\\fR\n\
.RS\n\
Optional shortcut label.\n\
.RE\n\
.PP\n\
\\fB-P, --photo\\fR\n\
.RS\n\
Create a Photo shortcut.\n\
.RE\n\
.PP\n\
\\fB-m, --photo-mode local|remote\\fR\n\
.RS\n\
Stored or original image mode; requires \\fB--photo\\fR and defaults to remote.\n\
.RE\n\
.PP\n\
\\fB-D, --allow-duplicate-target\\fR\n\
.RS\n\
Create another shortcut even when the target already has one.\n\
.RE\n\
.PP\n\
\\fB-e, --edit-existing\\fR\n\
.RS\n\
Replace an occupied tail rather than failing.\n\
.RE\n\
.PP\n\
\\fB-r, --protect\\fR\n\
.RS\n\
Password-protect the stored photo; requires \\fB--photo\\fR.\n\
.RE\n\
.PP\n\
\\fB-f, --password-file PATH\\fR\n\
.RS\n\
Read the storage password from a file instead of prompting; requires \\fB--photo\\fR.\n\
.RE\n\
.SS edit\n\
.PP\n\
\\fBsuffix edit SHORTCUT-ID [-t|--tail TAIL] [-u|--target-url URL] [-n|--title TITLE] [-a|--active BOOL] [-v|--version VERSION] [ACCOUNT]\\fR\n\
.PP\n\
Edit selected shortcut fields. An empty title removes it. If \\fB--version\\fR is omitted, Suffix reads the current version before performing the optimistic update.\n\
.SS upload\n\
.PP\n\
\\fBsuffix upload [-d|--domain HOST] VALUE FILE [ACCOUNT] [-i|--domain-id ID] [-t|--title TITLE] [-p|--protect] [-f|--password-file PATH]\\fR\n\
.PP\n\
Upload a Business file of up to 100 MB and create a shortcut that downloads it. \\fBVALUE\\fR is \\fBHOST/TAIL\\fR, or just \\fBTAIL\\fR with \\fB--domain\\fR. Deleting the shortcut removes its managed object.\n\
.SS rm\n\
.PP\n\
\\fBsuffix rm SHORTCUT-ID [ACCOUNT] [-v|--version VERSION]\\fR\n\
.PP\n\
Delete a shortcut, looking up its version when omitted. The hidden \\fB-d|--domain\\fR compatibility flag removes a domain; prefer \\fBsuffix domain rm\\fR.\n\
.SS photo\n\
.PP\n\
\\fBsuffix photo SHORTCUT-ID (-l|--local|-r|--remote|-d|--drop) [ACCOUNT] [-v|--version VERSION]\\fR\n\
.PP\n\
Select stored-image mode, original-image mode, or remove the managed image. Public Photo URLs accept \\fB?L\\fR and \\fB?R\\fR one-request overrides. The three mode flags conflict.\n\
.SS password\n\
.PP\n\
\\fBsuffix password SHORTCUT-ID (-a|--add|-r|--remove) [ACCOUNT] [-f|--password-file PATH] [-v|--version VERSION]\\fR\n\
.PP\n\
Add, change, or remove password protection on a managed photo or file. Without \\fB--password-file\\fR, adding prompts without echo.\n\
.SS mv\n\
.PP\n\
\\fBsuffix mv DOMAIN [ACCOUNT] [TARGET] [-t|--to|-f|--from] [-y|--yes]\\fR\n\
.PP\n\
Move a domain between saved accounts. The default and \\fB--to\\fR direction move from the active account to \\fBACCOUNT\\fR; \\fB--from\\fR reverses it. Supplying \\fBTARGET\\fR explicitly identifies both source and destination. \\fB--yes\\fR skips confirmation.\n\
.SS transfer\n\
.PP\n\
\\fBsuffix transfer DOMAIN [-t|--to EMAIL] [-m|--minutes MINUTES]\\fR\n\
.PP\n\
Create a short-lived domain transfer code. \\fB--to\\fR restricts acceptance to one email. Expiration defaults to 15 minutes.\n\
.SS accept\n\
.PP\n\
\\fBsuffix accept CODE\\fR\n\
.PP\n\
Accept a domain transfer code into the active account.\n\
.SS domain\n\
.PP\n\
\\fBsuffix domain ls [ACCOUNT] [-j|--json] [-x|--xml] [-y|--yaml] [-l|--stats]\\fR\n\
.PP\n\
List domains. Structured formats are mutually exclusive; \\fB--stats\\fR includes aggregate visits.\n\
.PP\n\
\\fBsuffix domain add HOSTNAME [ACCOUNT]\\fR\n\
.PP\n\
Add a domain to the selected account.\n\
.PP\n\
\\fBsuffix domain rm ID [ACCOUNT]\\fR\n\
.PP\n\
Remove an empty domain.\n\
.SS account\n\
.PP\n\
\\fBsuffix account [-l|--long] [-e|--email EMAIL] [-k|--key KEY] [-u|--api-base URL] [ARGS...]\\fR\n\
.PP\n\
With no arguments or \\fBls\\fR, list profiles. A single profile name selects it. \\fBadd NAME --key KEY\\fR stores a profile, with optional email and API base. \\fBrm NAME\\fR forgets it. \\fB--long\\fR includes cached API base, inventory counts, refresh state, and errors. The default API base is \\fBhttps://suffix.org/api/v1\\fR.\n\
.SS stats\n\
.PP\n\
\\fBsuffix stats SHORTCUT-ID [ACCOUNT] [-d|--days DAYS]\\fR\n\
.PP\n\
Read aggregate shortcut statistics for a UTC window from 1 through 90 days. The default is 30.\n\
.SS config\n\
.PP\n\
\\fBsuffix config\\fR\n\
.PP\n\
Print active API base, selected profile, whether a key exists, and the configuration path without exposing a secret.\n\
.SS man\n\
.PP\n\
\\fBsuffix man [show]\\fR\n\
.PP\n\
Print this complete embedded manual.\n\
.PP\n\
\\fBsuffix man install [-d|--dir DIR]\\fR\n\
.PP\n\
Install \\fBsuffix.1\\fR using Somme's shared installer. Without \\fB--dir\\fR, standard Homebrew, local, user-local, and system section-1 directories are tried.\n\
.SH COMPATIBILITY COMMANDS\n\
.PP\n\
The hidden \\fBshortcuts\\fR and \\fBdomains\\fR namespaces preserve older API-shaped scripts. Prefer the public terse commands above.\n\
.PP\n\
\\fBsuffix shortcuts list\\fR\n\
.RS\n\
List shortcuts.\n\
.RE\n\
.PP\n\
\\fBsuffix shortcuts create -d|--domain-id ID -t|--tail TAIL -u|--target-url URL [-n|--title TITLE] [-p|--photo] [-m|--photo-mode local|remote]\\fR\n\
.RS\n\
Create a shortcut.\n\
.RE\n\
.PP\n\
\\fBsuffix shortcuts update -i|--id ID -v|--version VERSION -d|--domain-id ID -t|--tail TAIL -u|--target-url URL [-n|--title TITLE] [-a|--active BOOL] [-p|--photo] [-m|--photo-mode local|remote]\\fR\n\
.RS\n\
Replace API fields with optimistic concurrency.\n\
.RE\n\
.PP\n\
\\fBsuffix shortcuts delete -i|--id ID -v|--version VERSION\\fR\n\
.RS\n\
Delete a shortcut.\n\
.RE\n\
.PP\n\
\\fBsuffix domains list\\fR\n\
.RS\n\
List domains.\n\
.RE\n\
.PP\n\
\\fBsuffix domains add -n|--hostname HOSTNAME\\fR\n\
.RS\n\
Add a domain.\n\
.RE\n\
.PP\n\
\\fBsuffix domains delete -i|--id ID\\fR\n\
.RS\n\
Delete a domain.\n\
.RE\n\
.SH AUTHENTICATION AND ACCOUNTS\n\
.PP\n\
Browser login creates a one-time API key and returns it through a loopback callback on \\fB127.0.0.1\\fR. Keys are stored by named profile. Environment credentials override stored values. API keys authenticate only their bound account; an administrator key may bypass product quotas for its own inventory but does not gain cross-account authority.\n\
.SH OUTPUT AND RATE LIMITS\n\
.PP\n\
Human list output is tab-separated. JSON, XML, and YAML are intended for automation. API failures go to standard error and produce nonzero status. Suffix consumes Somme-compatible rate-limit headers; Free and Pro exhaustion resets at the next UTC day, while server-verified administrators receive an explicit unlimited limit.\n\
.SH ENVIRONMENT\n\
.PP\n\
\\fBSUFFIX_API_BASE\\fR\n\
.RS\n\
Override the saved API base.\n\
.RE\n\
.PP\n\
\\fBSUFFIX_API_KEY\\fR\n\
.RS\n\
Override the saved bearer key.\n\
.RE\n\
.PP\n\
\\fBHOSTNAME\\fR, \\fBCOMPUTERNAME\\fR\n\
.RS\n\
Used in the default dashboard key label.\n\
.RE\n\
.SH FILES\n\
.PP\n\
\\fBsuffix/config.toml\\fR\n\
.RS\n\
Named profiles below the platform configuration directory.\n\
.RE\n\
.SH EXAMPLES\n\
.PP\n\
.nf\n\
suffix login person@example.com\n\
suffix add -d pair.rs typesec https://example.com/type-security\n\
suffix add -p -l https://example.com/public\n\
suffix ls -l\n\
suffix edit shortcut-id -u https://example.com/new -v 4\n\
suffix photo shortcut-id -l\n\
suffix upload -d pair.rs report ./report.pdf -p\n\
suffix domain ls -j\n\
suffix man install -d ~/.local/share/man/man1\n\
.fi\n\
.SH EXIT STATUS\n\
.PP\n\
Zero indicates success. Nonzero indicates parser validation, local I/O, login, authentication, API, optimistic-concurrency, quota, transfer, upload, or manual installation failure.\n\
.SH SEE ALSO\n\
.PP\n\
\\fBsomme(1)\\fR, \\fBbay(1)\\fR, <https://suffix.org>, and <https://github.com/firstpair/suffix>.\n\
";

/// `home` joined with the relative path `rel`, as `Path::join` does on Unix: a
/// separator is inserted unless `home` is empty or already ends with one.
pub open spec fn join_path(home: Seq<char>, rel: Seq<char>) -> Seq<char> {
    if home.len() == 0 || home.last() == '/' {
        home + rel
    } else {
        home + "/"@ + rel
    }
}

/// The per-user manual directory below `home`.
pub open spec fn user_man_dir(home: Seq<char>) -> Seq<char> {
    join_path(home, ".local/share/man/man1"@)
}

/// Candidate `man1` directories in the order they are tried: Homebrew,
/// `/usr/local`, then user-local on macOS; `/usr/local`, user-local, then
/// `/usr/share` elsewhere.
pub open spec fn manpage_directories_of(platform: Seq<char>, home: Seq<char>) -> Seq<Seq<char>> {
    if platform == "macos"@ {
        seq!["/opt/homebrew/share/man/man1"@, "/usr/local/share/man/man1"@, user_man_dir(home)]
    } else {
        seq!["/usr/local/share/man/man1"@, user_man_dir(home), "/usr/share/man/man1"@]
    }
}

pub fn manpage_directories_for(platform: &str, home: &str) -> (r: Vec<String>)
    ensures
        r@.len() == 3,
        forall|i: int| 0 <= i < 3 ==> (#[trigger] r@[i])@ == manpage_directories_of(platform@, home@)[i],
{
    let h = chars_of(home);
    let mut user = to_owned_string(home);
    if h.len() > 0 && h[h.len() - 1] != '/' {
        push_str(&mut user, "/");
    }
    push_str(&mut user, ".local/share/man/man1");
    proof {
        assert(user@ =~= user_man_dir(home@));
    }
    let mut r: Vec<String> = Vec::new();
    if same_text(platform, "macos") {
        r.push(to_owned_string("/opt/homebrew/share/man/man1"));
        r.push(to_owned_string("/usr/local/share/man/man1"));
        r.push(user);
    } else {
        r.push(to_owned_string("/usr/local/share/man/man1"));
        r.push(user);
        r.push(to_owned_string("/usr/share/man/man1"));
    }
    r
}

} // verus!
