//! The server manager's side: which operations it may ask the host for, how it
//! asks over SSH, and what it makes of the answer.
use vstd::prelude::*;
use crate::connect::texts;
use crate::instances::CliOutput;
use crate::text::{decode_lossy, same_text, trim, trim_str, utf8_lossy, with_detail};

verus! {

/// The operations the host's agent may be asked for.
pub open spec fn allowed_action(a: Seq<char>) -> bool {
    ||| a == "status"@
    ||| a == "start"@
    ||| a == "stop"@
    ||| a == "restart"@
    ||| a == "backup"@
    ||| a == "logs"@
    ||| a == "players"@
    ||| a == "unlim-start"@
    ||| a == "unlim-stop"@
    ||| a == "unlim-share"@
}

/// Whether the host's agent may be asked for `action`.
pub fn is_allowed_action(action: &str) -> (r: bool)
    ensures
        r == allowed_action(action@),
{
    same_text(action, "status") || same_text(action, "start") || same_text(action, "stop")
        || same_text(action, "restart") || same_text(action, "backup") || same_text(action, "logs")
        || same_text(action, "players") || same_text(action, "unlim-start") || same_text(
        action,
        "unlim-stop",
    ) || same_text(action, "unlim-share")
}

/// The arguments for `ssh` that ask the agent on `host` for `action`, without
/// prompting and giving up on connecting after eight seconds.
pub open spec fn ssh_args_of(host: Seq<char>, action: Seq<char>) -> Seq<Seq<char>> {
    seq![
        "-o"@,
        "BatchMode=yes"@,
        "-o"@,
        "ConnectTimeout=8"@,
        "woollest@"@ + host,
        "/home/woollest/minecraft/wsm-agent"@,
        action,
    ]
}

/// The arguments for `ssh` that ask the agent on `host` for `action`.
pub fn ssh_args(host: &str, action: &str) -> (args: Vec<String>)
    ensures
        texts(args@) == ssh_args_of(host@, action@),
{
    let mut args: Vec<String> = Vec::new();
    args.push(String::from_str("-o"));
    args.push(String::from_str("BatchMode=yes"));
    args.push(String::from_str("-o"));
    args.push(String::from_str("ConnectTimeout=8"));
    args.push(with_detail("woollest@", host));
    args.push(String::from_str("/home/woollest/minecraft/wsm-agent"));
    args.push(String::from_str(action));
    assert(texts(args@) =~= ssh_args_of(host@, action@));
    args
}

/// The error when the host printed nothing at all.
pub open spec fn no_answer_message() -> Seq<char> {
    "ノートPCから応答がありません。"@
}

/// The text of the agent's answer: its standard output trimmed. When that is
/// empty, the answer is an error: standard error trimmed, or a fixed message when
/// that is empty too.
pub open spec fn reply_text_of(output: CliOutput) -> Result<Seq<char>, Seq<char>> {
    let out = trim(utf8_lossy(output.stdout@));
    let err = trim(utf8_lossy(output.stderr@));
    if out.len() > 0 {
        Ok(out)
    } else if err.len() > 0 {
        Err(err)
    } else {
        Err(no_answer_message())
    }
}

/// The text of the agent's answer from the text of its two output streams: the
/// first trimmed; when that is empty, an error: the second trimmed, or a fixed
/// message when that is empty too.
pub fn reply_from_texts(stdout: &str, stderr: &str) -> (r: Result<String, String>)
    ensures
        trim(stdout@).len() > 0 ==> (r matches Ok(t) && t@ == trim(stdout@)),
        trim(stdout@).len() == 0 && trim(stderr@).len() > 0 ==> (r matches Err(t) && t@ == trim(
            stderr@,
        )),
        trim(stdout@).len() == 0 && trim(stderr@).len() == 0 ==> (r matches Err(t) && t@
            == no_answer_message()),
{
    let out = trim_str(stdout);
    let err = trim_str(stderr);
    if !out.as_str().is_empty() {
        Ok(out)
    } else if !err.as_str().is_empty() {
        Err(err)
    } else {
        Err(String::from_str("ノートPCから応答がありません。"))
    }
}

/// The text of the agent's answer, or the error when there is none.
pub fn host_reply_text(output: &CliOutput) -> (r: Result<String, String>)
    ensures
        match (r, reply_text_of(*output)) {
            (Ok(t), Ok(u)) => t@ == u,
            (Err(t), Err(u)) => t@ == u,
            _ => false,
        },
{
    let out = decode_lossy(output.stdout.as_slice());
    let err = decode_lossy(output.stderr.as_slice());
    reply_from_texts(out.as_str(), err.as_str())
}

/// What the manager reads of the agent's answer: whether its `ok` field is `true`,
/// and its `error` field when that is text.
pub struct HostReply {
    pub ok: bool,
    pub error: Option<String>,
}

/// The start of the error when the answer is not a reply of the agent.
pub open spec fn unreadable_prefix() -> Seq<char> {
    "応答を読み取れませんでした: "@
}

/// The error when the agent reports failure without saying why.
pub open spec fn failed_message() -> Seq<char> {
    "操作に失敗しました。"@
}

/// Whether the operation succeeded, given whether `ssh` exited successfully, the
/// text of the answer, and the reply read from it (none when it is not one). A
/// reply counts only when `ssh` succeeded and the reply's `ok` is `true`.
pub fn host_reply_outcome(success: bool, text: &str, reply: Option<HostReply>) -> (r: Result<
    (),
    String,
>)
    ensures
        match reply {
            None => r matches Err(m) && m@ == unreadable_prefix() + text@,
            Some(rep) => if success && rep.ok {
                r is Ok
            } else {
                r matches Err(m) && m@ == match rep.error {
                    Some(e) => e@,
                    None => failed_message(),
                }
            },
        },
{
    match reply {
        None => Err(with_detail("応答を読み取れませんでした: ", text)),
        Some(rep) => if success && rep.ok {
            Ok(())
        } else {
            match rep.error {
                Some(e) => Err(e),
                None => Err(String::from_str("操作に失敗しました。")),
            }
        },
    }
}

/// The host tried first.
pub open spec fn primary_host() -> Seq<char> {
    "wls-server.local"@
}

/// The host tried when the first one fails.
pub open spec fn fallback_host() -> Seq<char> {
    "192.168.1.75"@
}

/// The next thing to do for an operation.
pub enum HostAttempt {
    /// Ask the agent on this host.
    Try(String),
    /// Give up with this error.
    GiveUp(String),
}

/// The error for an operation the agent may not be asked for.
pub open spec fn not_allowed_message() -> Seq<char> {
    "許可されていない操作です。"@
}

/// The error when neither host answers, with what each attempt gave.
pub open spec fn unreachable_message(primary: Seq<char>, fallback: Seq<char>) -> Seq<char> {
    "接続できませんでした。\n"@ + primary + "\n"@ + fallback
}

/// The next attempt for `action`, given the errors of the attempts made so far (an
/// attempt that succeeds ends the operation): an operation that is not allowed is
/// refused; otherwise the first host is tried, then the second, and then the
/// operation fails with both errors.
pub fn host_attempt(action: &str, failures: &Vec<String>) -> (r: HostAttempt)
    ensures
        !allowed_action(action@) ==> (r matches HostAttempt::GiveUp(m) && m@ == not_allowed_message()),
        allowed_action(action@) && failures.len() == 0 ==> (r matches HostAttempt::Try(h) && h@
            == primary_host()),
        allowed_action(action@) && failures.len() == 1 ==> (r matches HostAttempt::Try(h) && h@
            == fallback_host()),
        allowed_action(action@) && failures.len() >= 2 ==> (r matches HostAttempt::GiveUp(m) && m@
            == unreachable_message(failures@[0]@, failures@[1]@)),
{
    if !is_allowed_action(action) {
        return HostAttempt::GiveUp(String::from_str("許可されていない操作です。"));
    }
    if failures.len() == 0 {
        HostAttempt::Try(String::from_str("wls-server.local"))
    } else if failures.len() == 1 {
        HostAttempt::Try(String::from_str("192.168.1.75"))
    } else {
        let mut m = String::from_str("接続できませんでした。\n");
        m.append(failures[0].as_str());
        m.append("\n");
        m.append(failures[1].as_str());
        HostAttempt::GiveUp(m)
    }
}


/// The error when `ssh` cannot be started, given what the system said.
pub fn ssh_failed_message(detail: &str) -> (m: String)
    ensures
        m@ == "SSHを起動できません: "@ + detail@,
{
    with_detail("SSHを起動できません: ", detail)
}

} // verus!
