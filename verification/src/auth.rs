//! Auth / SSH / audit classification of journal messages: SSH logins and
//! failures, sudo, sessions and auditd user-auth records, each with the user
//! and remote address the message names.

use vstd::prelude::*;

use crate::event::Severity;
use crate::text::{
    chars_of, contains, contains_exec, find, find_exec, first_word, first_word_exec,
    lemma_find_bounds, matches_at, slice_range, starts_with, starts_with_exec, string_of, trim, trim_chars,
};

verus! {

/// Punctuation trimmed from the end of a word.
pub open spec fn is_trailing_punct(c: char) -> bool {
    c == ':' || c == ';' || c == ',' || c == '.'
}

/// `w` with trailing `:`, `;`, `,` and `.` removed.
pub open spec fn trim_punct_end(w: Seq<char>) -> Seq<char>
    decreases w.len(),
{
    if w.len() > 0 && is_trailing_punct(w.last()) {
        trim_punct_end(w.drop_last())
    } else {
        w
    }
}

/// The first whitespace-delimited word after the first occurrence of
/// `marker`, with trailing punctuation trimmed; `None` if `marker` does not
/// occur or no non-empty word follows it.
pub open spec fn word_after_spec(s: Seq<char>, marker: Seq<char>) -> Option<Seq<char>> {
    match find(s, marker) {
        None => None,
        Some(i) => match first_word(s.skip(i + marker.len())) {
            None => None,
            Some(w) => if trim_punct_end(w).len() == 0 {
                None
            } else {
                Some(trim_punct_end(w))
            },
        },
    }
}

fn trim_punct_end_exec(w: &Vec<char>) -> (r: Vec<char>)
    ensures
        r@ == trim_punct_end(w@),
{
    let mut end = w.len();
    assert(w@.take(end as int) =~= w@);
    while end > 0 && (w[end - 1] == ':' || w[end - 1] == ';' || w[end - 1] == ',' || w[end - 1]
        == '.')
        invariant
            end <= w@.len(),
            trim_punct_end(w@) == trim_punct_end(w@.take(end as int)),
        decreases end,
    {
        assert(w@.take(end as int).drop_last() =~= w@.take(end - 1));
        end = end - 1;
    }
    slice_range(w, 0, end)
}

/// The first whitespace-delimited token after `marker`, trimmed of trailing
/// punctuation.
pub fn word_after(s: &str, marker: &str) -> (r: Option<String>)
    ensures
        match r {
            Some(w) => word_after_spec(s@, marker@) == Some(w@),
            None => word_after_spec(s@, marker@) is None,
        },
{
    let sv = chars_of(s);
    let mv = chars_of(marker);
    let i = match find_exec(&sv, &mv) {
        Some(i) => i,
        None => return None,
    };
    proof {
        lemma_find_bounds(sv@, mv@, 0);
        assert(matches_at(sv@, mv@, i as int));
    }
    let n = sv.len();
    let start = i + mv.len();
    let rest = slice_range(&sv, start, n);
    assert(rest@ =~= s@.skip(start as int));
    let w = match first_word_exec(&rest) {
        Some(w) => w,
        None => return None,
    };
    let t = trim_punct_end_exec(&w);
    if t.len() == 0 {
        None
    } else {
        Some(string_of(&t))
    }
}

/// A recognised access event: its action, the user and remote address it
/// names, whether it succeeded, and its severity.
#[derive(Debug, Clone, PartialEq, Eq)]
pub struct Detected {
    pub action: &'static str,
    pub user: Option<String>,
    pub remote: Option<String>,
    pub succeeded: bool,
    pub severity: Severity,
}

/// The mathematical content of a [`Detected`].
pub ghost struct DetectedView {
    pub action: Seq<char>,
    pub user: Option<Seq<char>>,
    pub remote: Option<Seq<char>>,
    pub succeeded: bool,
    pub severity: Severity,
}

/// The characters of an optional string.
pub open spec fn opt_string(o: Option<String>) -> Option<Seq<char>> {
    match o {
        Some(s) => Some(s@),
        None => None,
    }
}

impl View for Detected {
    type V = DetectedView;

    open spec fn view(&self) -> DetectedView {
        DetectedView {
            action: self.action@,
            user: opt_string(self.user),
            remote: opt_string(self.remote),
            succeeded: self.succeeded,
            severity: self.severity,
        }
    }
}

/// The [`DetectedView`] with these parts.
pub open spec fn detected(
    action: Seq<char>,
    user: Option<Seq<char>>,
    remote: Option<Seq<char>>,
    succeeded: bool,
    severity: Severity,
) -> DetectedView {
    DetectedView { action, user, remote, succeeded, severity }
}

/// What an `sshd` message reports.
pub open spec fn ssh_spec(msg: Seq<char>) -> Option<DetectedView> {
    if starts_with(msg, "Accepted "@) {
        let rest = msg.skip(9);
        Some(
            detected(
                "ssh_login"@,
                word_after_spec(rest, "for "@),
                word_after_spec(rest, "from "@),
                true,
                Severity::Notice,
            ),
        )
    } else if starts_with(msg, "Failed password for"@) || starts_with(msg, "Failed publickey for"@) {
        let user = if contains(msg, "invalid user"@) {
            word_after_spec(msg, "invalid user "@)
        } else {
            word_after_spec(msg, "for "@)
        };
        Some(detected("ssh_failed"@, user, word_after_spec(msg, "from "@), false, Severity::Warning))
    } else if starts_with(msg, "Invalid user"@) {
        Some(
            detected(
                "ssh_invalid_user"@,
                word_after_spec(msg, "Invalid user "@),
                word_after_spec(msg, "from "@),
                false,
                Severity::Warning,
            ),
        )
    } else {
        None
    }
}

/// A failed ssh login, by password or by public key, is reported as
/// `ssh_failed`: not succeeded, at warning severity, from the address after
/// `from `.
pub proof fn failed_ssh_logins_are_reported(msg: Seq<char>)
    requires
        starts_with(msg, "Failed password for"@) || starts_with(msg, "Failed publickey for"@),
    ensures
        ssh_spec(msg) matches Some(d) && d.action == "ssh_failed"@ && !d.succeeded && d.severity
            == Severity::Warning && d.remote == word_after_spec(msg, "from "@),
{
    reveal_strlit("Accepted ");
    reveal_strlit("Failed password for");
    reveal_strlit("Failed publickey for");
    if starts_with(msg, "Failed password for"@) {
        assert(msg[0] == msg.take(19)[0]);
    } else {
        assert(msg[0] == msg.take(20)[0]);
    }
    if starts_with(msg, "Accepted "@) {
        assert(msg[0] == msg.take(9)[0]);
    }
    assert(!starts_with(msg, "Accepted "@));
}

fn str_starts_with(s: &str, p: &str) -> (b: bool)
    ensures
        b == starts_with(s@, p@),
{
    let a = chars_of(s);
    let b = chars_of(p);
    starts_with_exec(&a, &b)
}

fn str_contains(s: &str, p: &str) -> (b: bool)
    ensures
        b == contains(s@, p@),
{
    let a = chars_of(s);
    let b = chars_of(p);
    contains_exec(&a, &b)
}

/// Classify an `sshd` message.
pub fn classify_ssh(msg: &str) -> (d: Option<Detected>)
    ensures
        match d {
            Some(x) => ssh_spec(msg@) == Some(x@),
            None => ssh_spec(msg@) is None,
        },
{
    proof {
        reveal_strlit("Accepted ");
    }
    if str_starts_with(msg, "Accepted ") {
        let v = chars_of(msg);
        let rest = string_of(&slice_range(&v, 9, v.len()));
        assert(rest@ =~= msg@.skip(9));
        return Some(
            Detected {
                action: "ssh_login",
                user: word_after(rest.as_str(), "for "),
                remote: word_after(rest.as_str(), "from "),
                succeeded: true,
                severity: Severity::Notice,
            },
        );
    }
    if str_starts_with(msg, "Failed password for") || str_starts_with(msg, "Failed publickey for") {
        let user = if str_contains(msg, "invalid user") {
            word_after(msg, "invalid user ")
        } else {
            word_after(msg, "for ")
        };
        return Some(
            Detected {
                action: "ssh_failed",
                user,
                remote: word_after(msg, "from "),
                succeeded: false,
                severity: Severity::Warning,
            },
        );
    }
    if str_starts_with(msg, "Invalid user") {
        return Some(
            Detected {
                action: "ssh_invalid_user",
                user: word_after(msg, "Invalid user "),
                remote: word_after(msg, "from "),
                succeeded: false,
                severity: Severity::Warning,
            },
        );
    }
    None
}

/// The text before the first `" : "` of `s` (all of `s` without one).
pub open spec fn head_before_colon(s: Seq<char>) -> Seq<char> {
    match find(s, " : "@) {
        Some(i) => s.take(i),
        None => s,
    }
}

/// The invoking user of a sudo line: the `ruser=` value, else a single-word
/// head before `" : "`, else the `logname=` value.
pub open spec fn sudo_user_spec(msg: Seq<char>) -> Option<Seq<char>> {
    match word_after_spec(msg, "ruser="@) {
        Some(u) => Some(u),
        None => {
            let head = trim(head_before_colon(msg));
            if head.len() > 0 && !head.contains(' ') {
                Some(head)
            } else {
                word_after_spec(msg, "logname="@)
            }
        },
    }
}

/// The invoking user of a sudo line (handles both the `user : TTY=` and the
/// pam `ruser=`/`logname=` forms).
pub fn sudo_user(msg: &str) -> (r: Option<String>)
    ensures
        opt_string(r) == sudo_user_spec(msg@),
{
    if let Some(u) = word_after(msg, "ruser=") {
        return Some(u);
    }
    let v = chars_of(msg);
    let sep = chars_of(" : ");
    let head_end = match find_exec(&v, &sep) {
        Some(i) => {
            proof {
                lemma_find_bounds(v@, sep@, 0);
            }
            i
        },
        None => v.len(),
    };
    let head_raw = slice_range(&v, 0, head_end);
    assert(head_raw@ =~= head_before_colon(msg@));
    let head = trim_chars(&head_raw);
    let mut has_space = false;
    let mut k: usize = 0;
    while k < head.len()
        invariant
            k <= head@.len(),
            has_space == (exists|j: int| 0 <= j < k && head@[j] == ' '),
        decreases head@.len() - k,
    {
        if head[k] == ' ' {
            has_space = true;
        }
        k = k + 1;
    }
    assert(has_space == head@.contains(' '));
    if head.len() > 0 && !has_space {
        return Some(string_of(&head));
    }
    word_after(msg, "logname=")
}

/// What a sudo message reports.
pub open spec fn sudo_spec(msg: Seq<char>) -> Option<DetectedView> {
    if contains(msg, "authentication failure"@) || contains(msg, "incorrect password"@) {
        Some(detected("sudo_failed"@, sudo_user_spec(msg), None, false, Severity::Warning))
    } else if contains(msg, "TTY="@) && contains(msg, "COMMAND="@) {
        Some(detected("sudo"@, sudo_user_spec(msg), None, true, Severity::Notice))
    } else {
        None
    }
}

/// Classify a sudo message.
pub fn classify_sudo(msg: &str) -> (d: Option<Detected>)
    ensures
        match d {
            Some(x) => sudo_spec(msg@) == Some(x@),
            None => sudo_spec(msg@) is None,
        },
{
    if str_contains(msg, "authentication failure") || str_contains(msg, "incorrect password") {
        return Some(
            Detected {
                action: "sudo_failed",
                user: sudo_user(msg),
                remote: None,
                succeeded: false,
                severity: Severity::Warning,
            },
        );
    }
    if str_contains(msg, "TTY=") && str_contains(msg, "COMMAND=") {
        return Some(
            Detected {
                action: "sudo",
                user: sudo_user(msg),
                remote: None,
                succeeded: true,
                severity: Severity::Notice,
            },
        );
    }
    None
}

/// What an audit message reports.
pub open spec fn audit_spec(msg: Seq<char>) -> Option<DetectedView> {
    if !(contains(msg, "USER_AUTH"@) || contains(msg, "USER_LOGIN"@)) {
        None
    } else {
        let succeeded = contains(msg, "res=success"@);
        let remote = match word_after_spec(msg, "addr="@) {
            Some(a) => if a == "?"@ {
                None
            } else {
                Some(a)
            },
            None => None,
        };
        Some(
            detected(
                "audit_user_auth"@,
                word_after_spec(msg, "acct="@),
                remote,
                succeeded,
                if succeeded {
                    Severity::Info
                } else {
                    Severity::Warning
                },
            ),
        )
    }
}

/// Classify an auditd record.
pub fn classify_audit(msg: &str) -> (d: Option<Detected>)
    ensures
        match d {
            Some(x) => audit_spec(msg@) == Some(x@),
            None => audit_spec(msg@) is None,
        },
{
    if !(str_contains(msg, "USER_AUTH") || str_contains(msg, "USER_LOGIN")) {
        return None;
    }
    let succeeded = str_contains(msg, "res=success");
    let remote = match word_after(msg, "addr=") {
        Some(a) => {
            let av = chars_of(a.as_str());
            let q = chars_of("?");
            if crate::text::chars_eq(&av, &q) {
                None
            } else {
                Some(a)
            }
        },
        None => None,
    };
    Some(
        Detected {
            action: "audit_user_auth",
            user: word_after(msg, "acct="),
            remote,
            succeeded,
            severity: if succeeded {
                Severity::Info
            } else {
                Severity::Warning
            },
        },
    )
}

/// What a message reports once its source is known: `sshd`, `sudo` and
/// audit messages by their classifiers, any other session-opening message
/// as `session_open`.
pub open spec fn message_spec(ident: Seq<char>, transport: Seq<char>, msg: Seq<char>) -> Option<
    DetectedView,
> {
    if ident == "sshd"@ {
        ssh_spec(msg)
    } else if ident == "sudo"@ {
        sudo_spec(msg)
    } else if transport == "audit"@ || ident == "audit"@ || ident == "auditd"@ {
        audit_spec(msg)
    } else if starts_with(msg, "New session"@) || contains(msg, "session opened for user"@) {
        Some(detected("session_open"@, word_after_spec(msg, "user "@), None, true, Severity::Info))
    } else {
        None
    }
}

/// Classify a message from the syslog identifier `ident` over journal
/// transport `transport`.
pub fn classify_message(ident: &str, transport: &str, msg: &str) -> (d: Option<Detected>)
    ensures
        match d {
            Some(x) => message_spec(ident@, transport@, msg@) == Some(x@),
            None => message_spec(ident@, transport@, msg@) is None,
        },
{
    let i = chars_of(ident);
    let t = chars_of(transport);
    if crate::text::eq_lit(&i, "sshd") {
        classify_ssh(msg)
    } else if crate::text::eq_lit(&i, "sudo") {
        classify_sudo(msg)
    } else if crate::text::eq_lit(&t, "audit") || crate::text::eq_lit(&i, "audit")
        || crate::text::eq_lit(&i, "auditd") {
        classify_audit(msg)
    } else if str_starts_with(msg, "New session") || str_contains(msg, "session opened for user") {
        Some(
            Detected {
                action: "session_open",
                user: word_after(msg, "user "),
                remote: None,
                succeeded: true,
                severity: Severity::Info,
            },
        )
    } else {
        None
    }
}

/// The title of an access event: the action, then `: user` and ` from remote`
/// when known.
pub open spec fn auth_title(d: DetectedView) -> Seq<char> {
    match (d.user, d.remote) {
        (Some(u), Some(r)) => d.action + ": "@ + u + " from "@ + r,
        (Some(u), None) => d.action + ": "@ + u,
        (None, Some(r)) => d.action + " from "@ + r,
        (None, None) => d.action,
    }
}

} // verus!
