//! Checking an invite key, the steps of connecting, and the commands for
//! querying and disconnecting Unlim instances.
use vstd::prelude::*;
use vstd::utf8::encode_utf8;
use crate::instances::{instance_pids_from, output_text_of, text_pids, CliOutput};
use crate::paths::{copy_path, UnlimPath};
use crate::status::StatusValue;
use crate::text::{
    chars_of, decimal, decimal_string, lemma_parse_decimal, parse_u32, trim, trim_str, with_detail,
};

verus! {

/// The characters of each text in `v`.
pub open spec fn texts(v: Seq<String>) -> Seq<Seq<char>> {
    v.map_values(|s: String| s@)
}

/// Appends `s` as a new text.
fn push_text(v: &mut Vec<String>, s: &str)
    ensures
        texts(final(v)@) == texts(old(v)@).push(s@),
{
    let ghost before = v@;
    v.push(String::from_str(s));
    assert(texts(v@) =~= texts(before).push(s@));
}

/// Whether `c` may stand in an invite key: an ASCII letter or digit, or one of
/// `- _ . : / ? = &`.
pub open spec fn key_char_ok(c: char) -> bool {
    ||| ('a' <= c && c <= 'z')
    ||| ('A' <= c && c <= 'Z')
    ||| ('0' <= c && c <= '9')
    ||| c == '-'
    ||| c == '_'
    ||| c == '.'
    ||| c == ':'
    ||| c == '/'
    ||| c == '?'
    ||| c == '='
    ||| c == '&'
}

/// Whether the trimmed key `k` is acceptable: 8 to 512 bytes of UTF-8, every
/// character allowed.
pub open spec fn valid_invite_key(k: Seq<char>) -> bool {
    &&& 8 <= encode_utf8(k).len() <= 512
    &&& forall|i: int| 0 <= i < k.len() ==> #[trigger] key_char_ok(k[i])
}

/// The error for a malformed invite key.
pub open spec fn bad_key_message() -> Seq<char> {
    "接続キーの形式を確認してください。"@
}

/// The invite key as it is used, trimmed, or the error when it is malformed.
pub fn validate_invite_key(key: &str) -> (r: Result<String, String>)
    ensures
        valid_invite_key(trim(key@)) ==> (r matches Ok(k) && k@ == trim(key@)),
        !valid_invite_key(trim(key@)) ==> (r matches Err(m) && m@ == bad_key_message()),
{
    let t = trim_str(key);
    let n = t.as_str().as_bytes().len();
    assert(n == encode_utf8(t@).len());
    if n < 8 || n > 512 {
        return Err(String::from_str("接続キーの形式を確認してください。"));
    }
    let cs = chars_of(t.as_str());
    let mut i: usize = 0;
    while i < cs.len()
        invariant
            cs@ == t@,
            t@ == trim(key@),
            8 <= encode_utf8(t@).len() <= 512,
            i <= cs.len(),
            forall|j: int| 0 <= j < i ==> #[trigger] key_char_ok(cs@[j]),
        decreases cs.len() - i,
    {
        let c = cs[i];
        let ok = ('a' <= c && c <= 'z') || ('A' <= c && c <= 'Z') || ('0' <= c && c <= '9') || c
            == '-' || c == '_' || c == '.' || c == ':' || c == '/' || c == '?' || c == '=' || c
            == '&';
        if !ok {
            assert(!key_char_ok(t@[i as int]));
            return Err(String::from_str("接続キーの形式を確認してください。"));
        }
        i = i + 1;
    }
    Ok(t)
}

/// The arguments that start Unlim on the invite key `key`.
pub fn connect_args(key: &str) -> (args: Vec<String>)
    ensures
        texts(args@) == seq!["--connect"@, key@, "--no-tui"@],
{
    let mut args: Vec<String> = Vec::new();
    push_text(&mut args, "--connect");
    push_text(&mut args, key);
    push_text(&mut args, "--no-tui");
    assert(texts(args@) =~= seq!["--connect"@, key@, "--no-tui"@]);
    args
}

/// Where a connection attempt stands.
pub enum ConnectStage {
    /// Checking whether Unlim is already connected.
    CheckingConnection,
    /// Looking for a working Unlim.
    FindingUnlim,
    /// Saving the key in the credential store.
    SavingKey,
    /// Starting Unlim on the key.
    Starting,
    /// Keeping hold of the started process.
    Storing,
    /// Done, with the outcome.
    Finished(Result<(), String>),
}

/// What the connector does next while connecting.
pub enum ConnectAction {
    /// Report whether any Unlim instance is connected.
    CheckConnected,
    /// Look for a working Unlim and report what was found.
    FindUnlim,
    /// Save this key with `save_key` and report its outcome.
    SaveKey(String),
    /// Start this program with these arguments and no terminal, and report the
    /// outcome.
    Start { program: UnlimPath, args: Vec<String> },
    /// Keep the started process, and report whether that was possible.
    Store,
    /// Stop with this outcome.
    Finish(Result<(), String>),
}

/// What an action of a connection attempt gave back.
pub enum ConnectEvent {
    Connected(bool),
    Found(Option<UnlimPath>),
    Saved(Result<(), String>),
    Started(Result<(), String>),
    Stored(bool),
}

/// The error when Unlim is already connected.
pub open spec fn already_connected_message() -> Seq<char> {
    "すでにUnlimが接続中です。いったん切断してください。"@
}

/// The error when no working Unlim is found.
pub open spec fn not_ready_message() -> Seq<char> {
    "Unlimの準備が完了していません。"@
}

/// The start of the error when Unlim cannot be started.
pub open spec fn start_failed_prefix() -> Seq<char> {
    "接続を開始できません: "@
}

/// The error when the connector's own state cannot be reached.
pub open spec fn internal_state_message() -> Seq<char> {
    "内部状態を取得できません。"@
}

/// The error when the connector's own state cannot be reached.
pub fn internal_state_error() -> (m: String)
    ensures
        m@ == internal_state_message(),
{
    String::from_str("内部状態を取得できません。")
}

/// `t` is the finished stage with an error reading `m`.
pub open spec fn connect_failed_with(t: ConnectStage, m: Seq<char>) -> bool {
    t matches ConnectStage::Finished(Err(e)) && e@ == m
}

/// The stage `t` follows `s` on the answer `e`; an answer to another action
/// leaves the stage as it is.
pub open spec fn connect_transition(s: ConnectStage, e: ConnectEvent, t: ConnectStage) -> bool {
    match (s, e) {
        (ConnectStage::CheckingConnection, ConnectEvent::Connected(c)) => if c {
            connect_failed_with(t, already_connected_message())
        } else {
            t is FindingUnlim
        },
        (ConnectStage::FindingUnlim, ConnectEvent::Found(f)) => if f is Some {
            t is SavingKey
        } else {
            connect_failed_with(t, not_ready_message())
        },
        (ConnectStage::SavingKey, ConnectEvent::Saved(r)) => match r {
            Ok(_) => t is Starting,
            Err(m) => connect_failed_with(t, m@),
        },
        (ConnectStage::Starting, ConnectEvent::Started(r)) => match r {
            Ok(_) => t is Storing,
            Err(d) => connect_failed_with(t, start_failed_prefix() + d@),
        },
        (ConnectStage::Storing, ConnectEvent::Stored(ok)) => if ok {
            t matches ConnectStage::Finished(Ok(_))
        } else {
            connect_failed_with(t, internal_state_message())
        },
        (s, _) => t == s,
    }
}

/// A connection attempt: the key it uses, the Unlim found for it, and its stage.
pub struct ConnectSession {
    key: String,
    unlim: Option<UnlimPath>,
    stage: ConnectStage,
}

/// The characters of each part of an optional path.
pub open spec fn opt_path_view(p: Option<UnlimPath>) -> Option<Seq<Seq<char>>> {
    match p {
        Some(q) => Some(q@),
        None => None,
    }
}

impl ConnectSession {
    /// The key the attempt uses.
    pub closed spec fn key(&self) -> Seq<char> {
        self.key@
    }

    /// The Unlim found for the attempt, if it has been found.
    pub closed spec fn unlim(&self) -> Option<Seq<Seq<char>>> {
        opt_path_view(self.unlim)
    }

    /// Where the attempt stands.
    pub closed spec fn stage(&self) -> ConnectStage {
        self.stage
    }

    /// Unlim is saved for, started and kept only once it has been found.
    #[verifier::type_invariant]
    closed spec fn found_before_use(&self) -> bool {
        (self.stage is SavingKey || self.stage is Starting || self.stage is Storing)
            ==> self.unlim is Some
    }
}

/// The session `t` follows `s` on the answer `e`: the key stays, the Unlim found
/// is the one reported while looking for it, and the stage moves on.
pub open spec fn session_transition(s: ConnectSession, e: ConnectEvent, t: ConnectSession) -> bool {
    &&& t.key() == s.key()
    &&& connect_transition(s.stage(), e, t.stage())
    &&& t.unlim() == match (s.stage(), e) {
        (ConnectStage::FindingUnlim, ConnectEvent::Found(Some(p))) => Some(p@),
        _ => s.unlim(),
    }
}

/// The first stage of connecting on `key`: the key as it is used (trimmed), and
/// either the check for a connection already made or, for a malformed key, the end.
pub fn connect_begin(key: &str) -> (s: ConnectSession)
    ensures
        s.key() == trim(key@),
        s.unlim() is None,
        valid_invite_key(trim(key@)) ==> s.stage() is CheckingConnection,
        !valid_invite_key(trim(key@)) ==> connect_failed_with(s.stage(), bad_key_message()),
{
    let trimmed = trim_str(key);
    match validate_invite_key(key) {
        Ok(k) => ConnectSession { key: k, unlim: None, stage: ConnectStage::CheckingConnection },
        Err(m) => ConnectSession { key: trimmed, unlim: None, stage: ConnectStage::Finished(Err(m)) },
    }
}

/// The session that follows `session` on the answer `event`.
pub fn connect_step(session: ConnectSession, event: ConnectEvent) -> (t: ConnectSession)
    ensures
        session_transition(session, event, t),
{
    proof {
        use_type_invariant(&session);
    }
    let ConnectSession { key, unlim, stage } = session;
    match (stage, event) {
        (ConnectStage::CheckingConnection, ConnectEvent::Connected(c)) => if c {
            ConnectSession {
                key,
                unlim,
                stage: ConnectStage::Finished(
                    Err(String::from_str("すでにUnlimが接続中です。いったん切断してください。")),
                ),
            }
        } else {
            ConnectSession { key, unlim, stage: ConnectStage::FindingUnlim }
        },
        (ConnectStage::FindingUnlim, ConnectEvent::Found(f)) => match f {
            Some(p) => ConnectSession { key, unlim: Some(p), stage: ConnectStage::SavingKey },
            None => ConnectSession {
                key,
                unlim,
                stage: ConnectStage::Finished(
                    Err(String::from_str("Unlimの準備が完了していません。")),
                ),
            },
        },
        (ConnectStage::SavingKey, ConnectEvent::Saved(r)) => match r {
            Ok(_) => ConnectSession { key, unlim, stage: ConnectStage::Starting },
            Err(m) => ConnectSession { key, unlim, stage: ConnectStage::Finished(Err(m)) },
        },
        (ConnectStage::Starting, ConnectEvent::Started(r)) => match r {
            Ok(_) => ConnectSession { key, unlim, stage: ConnectStage::Storing },
            Err(d) => ConnectSession {
                key,
                unlim,
                stage: ConnectStage::Finished(
                    Err(with_detail("接続を開始できません: ", d.as_str())),
                ),
            },
        },
        (ConnectStage::Storing, ConnectEvent::Stored(ok)) => if ok {
            ConnectSession { key, unlim, stage: ConnectStage::Finished(Ok(())) }
        } else {
            ConnectSession { key, unlim, stage: ConnectStage::Finished(Err(internal_state_error())) }
        },
        (s, _) => ConnectSession { key, unlim, stage: s },
    }
}

/// The action that `session` waits on. The key saved is the session's key, and
/// Unlim is started as the program found, on that key.
pub fn connect_action(session: &ConnectSession) -> (a: ConnectAction)
    ensures
        match session.stage() {
            ConnectStage::CheckingConnection => a is CheckConnected,
            ConnectStage::FindingUnlim => a is FindUnlim,
            ConnectStage::SavingKey => a matches ConnectAction::SaveKey(k) && k@ == session.key(),
            ConnectStage::Starting => a matches ConnectAction::Start { program, args } && Some(
                program@,
            ) == session.unlim() && texts(args@) == seq!["--connect"@, session.key(), "--no-tui"@],
            ConnectStage::Storing => a is Store,
            ConnectStage::Finished(Ok(_)) => a matches ConnectAction::Finish(Ok(_)),
            ConnectStage::Finished(Err(m)) => a matches ConnectAction::Finish(Err(m2)) && m2@ == m@,
        },
{
    proof {
        use_type_invariant(session);
    }
    match &session.stage {
        ConnectStage::CheckingConnection => ConnectAction::CheckConnected,
        ConnectStage::FindingUnlim => ConnectAction::FindUnlim,
        ConnectStage::SavingKey => ConnectAction::SaveKey(session.key.clone()),
        ConnectStage::Starting => {
            let program = copy_path(session.unlim.as_ref().unwrap());
            ConnectAction::Start { program, args: connect_args(session.key.as_str()) }
        },
        ConnectStage::Storing => ConnectAction::Store,
        ConnectStage::Finished(Ok(())) => ConnectAction::Finish(Ok(())),
        ConnectStage::Finished(Err(m)) => ConnectAction::Finish(Err(m.clone())),
    }
}

/// A connection is started only on a well-formed key, and only after the checks:
/// Unlim started only from the stage that follows a saved key, and a session that
/// began on a malformed key is finished at once.
pub proof fn lemma_start_only_after_checks(s: ConnectStage, e: ConnectEvent, t: ConnectStage)
    ensures
        connect_transition(s, e, t) && t is Starting ==> s is Starting || (s is SavingKey
            && e matches ConnectEvent::Saved(Ok(_))),
        connect_transition(s, e, t) && t is SavingKey ==> s is SavingKey || (s is FindingUnlim
            && e matches ConnectEvent::Found(Some(_))),
        connect_transition(s, e, t) && t is FindingUnlim ==> s is FindingUnlim || (
        s is CheckingConnection && e matches ConnectEvent::Connected(false)),
{
}

/// The arguments that ask Unlim for the status of all instances.
pub fn status_query_args() -> (args: Vec<String>)
    ensures
        texts(args@) == seq!["status"@, "--json"@],
{
    let mut args: Vec<String> = Vec::new();
    push_text(&mut args, "status");
    push_text(&mut args, "--json");
    assert(texts(args@) =~= seq!["status"@, "--json"@]);
    args
}

/// The arguments that ask Unlim for the status of the instance `pid`.
pub fn instance_status_args(pid: u32) -> (args: Vec<String>)
    ensures
        texts(args@) == seq!["status"@, "--instance"@, decimal(pid as nat), "--json"@],
{
    let mut args: Vec<String> = Vec::new();
    push_text(&mut args, "status");
    push_text(&mut args, "--instance");
    let p = decimal_string(pid as u64);
    push_text(&mut args, p.as_str());
    push_text(&mut args, "--json");
    assert(texts(args@) =~= seq!["status"@, "--instance"@, decimal(pid as nat), "--json"@]);
    args
}

/// How the status reports are gathered after the first query.
pub enum StatusPlan {
    /// The first answer was one report: that is all.
    Single(StatusValue),
    /// Several instances run: ask each of these for its own report.
    PerInstance(Vec<u32>),
}

/// How to gather the status reports, given the answer to `status --json` and the
/// report read from its output, if it held one.
pub fn status_plan(first: &CliOutput, parsed: Option<StatusValue>) -> (p: StatusPlan)
    ensures
        match parsed {
            Some(v) => p == StatusPlan::Single(v),
            None => p matches StatusPlan::PerInstance(pids) && pids@ == text_pids(
                output_text_of(first.stdout@, first.stderr@),
            ),
        },
{
    match parsed {
        Some(v) => StatusPlan::Single(v),
        None => StatusPlan::PerInstance(instance_pids_from(first)),
    }
}

/// The commands that end Unlim: one `quit` per listed instance, or `stop` and
/// `quit` when none is listed.
pub open spec fn quit_commands_of(pids: Seq<u32>) -> Seq<Seq<Seq<char>>> {
    if pids.len() == 0 {
        seq![seq!["stop"@], seq!["quit"@]]
    } else {
        pids.map_values(|p: u32| seq!["quit"@, "--instance"@, decimal(p as nat)])
    }
}

/// The commands that end Unlim, given the answer to `status --json` if the query
/// ran.
pub fn disconnect_commands(initial: Option<&CliOutput>) -> (cmds: Vec<Vec<String>>)
    ensures
        cmds@.map_values(|c: Vec<String>| texts(c@)) == quit_commands_of(
            match initial {
                Some(o) => text_pids(output_text_of(o.stdout@, o.stderr@)),
                None => Seq::empty(),
            },
        ),
{
    let pids: Vec<u32> = match initial {
        Some(o) => instance_pids_from(o),
        None => Vec::new(),
    };
    let mut cmds: Vec<Vec<String>> = Vec::new();
    if pids.len() == 0 {
        let mut stop: Vec<String> = Vec::new();
        push_text(&mut stop, "stop");
        let mut quit: Vec<String> = Vec::new();
        push_text(&mut quit, "quit");
        assert(texts(stop@) =~= seq!["stop"@]);
        assert(texts(quit@) =~= seq!["quit"@]);
        cmds.push(stop);
        cmds.push(quit);
        assert(cmds@.map_values(|c: Vec<String>| texts(c@)) =~= quit_commands_of(pids@));
        return cmds;
    }
    let mut i: usize = 0;
    while i < pids.len()
        invariant
            i <= pids.len(),
            cmds@.map_values(|c: Vec<String>| texts(c@)) == pids@.take(i as int).map_values(
                |p: u32| seq!["quit"@, "--instance"@, decimal(p as nat)],
            ),
        decreases pids.len() - i,
    {
        let mut c: Vec<String> = Vec::new();
        push_text(&mut c, "quit");
        push_text(&mut c, "--instance");
        let p = decimal_string(pids[i] as u64);
        push_text(&mut c, p.as_str());
        assert(texts(c@) =~= seq!["quit"@, "--instance"@, decimal(pids@[i as int] as nat)]);
        let ghost before = cmds@;
        cmds.push(c);
        assert(pids@.take(i + 1) =~= pids@.take(i as int).push(pids@[i as int]));
        assert(cmds@.map_values(|c: Vec<String>| texts(c@)) =~= before.map_values(
            |c: Vec<String>| texts(c@),
        ).push(texts(cmds@[i as int]@)));
        i = i + 1;
    }
    assert(pids@.take(pids.len() as int) =~= pids@);
    cmds
}


/// The characters an invite key may hold are exactly the ASCII letters of either
/// case, the ASCII digits, and those of `-_.:/?=&`.
pub proof fn lemma_invite_key_char(c: char)
    ensures
        key_char_ok(c) <==> ('A' <= c && c <= 'Z') || ('a' <= c && c <= 'z') || ('0' <= c
            && c <= '9') || "-_.:/?=&"@.contains(c),
{
    let sym = "-_.:/?=&";
    reveal_strlit("-_.:/?=&");
    assert(sym@ =~= seq!['-', '_', '.', ':', '/', '?', '=', '&']);
    if sym@.contains(c) {
        let i = choose|i: int| 0 <= i < sym@.len() && sym@[i] == c;
        assert(key_char_ok(c));
    }
    if c == '-' {
        assert(sym@[0] == c);
    } else if c == '_' {
        assert(sym@[1] == c);
    } else if c == '.' {
        assert(sym@[2] == c);
    } else if c == ':' {
        assert(sym@[3] == c);
    } else if c == '/' {
        assert(sym@[4] == c);
    } else if c == '?' {
        assert(sym@[5] == c);
    } else if c == '=' {
        assert(sym@[6] == c);
    } else if c == '&' {
        assert(sym@[7] == c);
    }
}

/// A trimmed invite key is accepted exactly when it is 8 to 512 bytes of UTF-8 and
/// every character is an ASCII letter of either case, an ASCII digit, or one of
/// `-_.:/?=&`.
pub proof fn lemma_invite_key_accepted(t: Seq<char>)
    ensures
        valid_invite_key(t) <==> 8 <= encode_utf8(t).len() <= 512 && forall|i: int|
            0 <= i < t.len() ==> ('A' <= #[trigger] t[i] && t[i] <= 'Z') || ('a' <= t[i] && t[i]
                <= 'z') || ('0' <= t[i] && t[i] <= '9') || "-_.:/?=&"@.contains(t[i]),
{
    assert forall|i: int| 0 <= i < t.len() implies key_char_ok(#[trigger] t[i]) <==> (('A'
        <= t[i] && t[i] <= 'Z') || ('a' <= t[i] && t[i] <= 'z') || ('0' <= t[i] && t[i] <= '9')
        || "-_.:/?=&"@.contains(t[i])) by {
        lemma_invite_key_char(t[i]);
    }
}

/// Disconnecting quits every listed instance and nothing else: one command per
/// listed process id, in order, each `quit --instance` followed by a numeral that
/// reads back as that id; with no instance listed, `stop` and then `quit`.
pub proof fn lemma_quit_every_listed_instance(pids: Seq<u32>)
    ensures
        pids.len() > 0 ==> quit_commands_of(pids).len() == pids.len(),
        forall|i: int|
            0 <= i < pids.len() ==> {
                let c = #[trigger] quit_commands_of(pids)[i];
                &&& c.len() == 3
                &&& c[0] == "quit"@
                &&& c[1] == "--instance"@
                &&& parse_u32(c[2]) == Some(pids[i])
            },
        pids.len() == 0 ==> quit_commands_of(pids) == seq![seq!["stop"@], seq!["quit"@]],
{
    assert forall|i: int| 0 <= i < pids.len() implies {
        let c = #[trigger] quit_commands_of(pids)[i];
        &&& c.len() == 3
        &&& c[0] == "quit"@
        &&& c[1] == "--instance"@
        &&& parse_u32(c[2]) == Some(pids[i])
    } by {
        lemma_parse_decimal(pids[i]);
    }
}

} // verus!
