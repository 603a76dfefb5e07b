//! Session-log scanning for the sidecar watcher: which JSONL lines carry
//! assistant text, how a session file's path names its project and session,
//! where a scan resumes, and when a batch of turns goes to the curator.

use vstd::prelude::*;

use crate::gate::PendingTurn;
use crate::json::{as_str, get, get_member, get_str, json_parse, parse_json, str_member, JsonValue};
use crate::text::{
    byte_len, chars_of, join, join_strings, opt_view, split, split_chars, str_eq, string_from_chars,
    sub_chars, trim, trim_str, views, vviews,
};

verus! {

/// Texts of the `{"type": "text", "text": ...}` blocks among `blocks`, in order.
pub open spec fn text_blocks(blocks: Seq<JsonValue>) -> Seq<Seq<char>>
    decreases blocks.len(),
{
    if blocks.len() == 0 {
        seq![]
    } else {
        let r = text_blocks(blocks.drop_last());
        let b = blocks.last();
        if str_member(b, "type"@) == Some("text"@) && str_member(b, "text"@) is Some {
            r.push(str_member(b, "text"@).unwrap())
        } else {
            r
        }
    }
}

/// `s` when its UTF-8 encoding is longer than 50 bytes.
pub open spec fn long_text(s: Option<Seq<char>>) -> Option<Seq<char>> {
    match s {
        Some(t) => if byte_len(t) > 50 {
            Some(t)
        } else {
            None
        },
        None => None,
    }
}

/// A line is an assistant line when its `type` is `"assistant"`, or its `role`
/// is `"assistant"`, or it has no `role` and no non-empty `type` (members
/// that are not strings count as absent).
pub open spec fn is_assistant_line(v: JsonValue) -> bool {
    let ty = match str_member(v, "type"@) {
        Some(t) => t,
        None => seq![],
    };
    ||| ty == "assistant"@
    ||| match str_member(v, "role"@) {
        Some(r) => r == "assistant"@,
        None => ty.len() == 0,
    }
}

/// The text under `message.content`: its text blocks joined by newlines, or
/// the content itself when it is a string longer than 50 bytes.
pub open spec fn message_text(v: JsonValue) -> Option<Seq<char>> {
    match get(v, "message"@) {
        Some(msg) => match get(msg, "content"@) {
            Some(content) => {
                let blocks = match content {
                    JsonValue::Array(a) => text_blocks(a@),
                    _ => seq![],
                };
                if blocks.len() > 0 {
                    Some(join(blocks, "\n"@))
                } else {
                    long_text(as_str(Some(content)))
                }
            },
            None => None,
        },
        None => None,
    }
}

/// The assistant text of a session-log line: `message.content` in either of
/// its shapes, else a top-level `content` string longer than 50 bytes.
pub open spec fn assistant_text(v: JsonValue) -> Option<Seq<char>> {
    if !is_assistant_line(v) {
        None
    } else if message_text(v) is Some {
        message_text(v)
    } else {
        long_text(str_member(v, "content"@))
    }
}

fn long_string(s: Option<&String>) -> (r: Option<String>)
    ensures
        opt_view(r) == long_text(
            match s {
                Some(t) => Some(t@),
                None => None,
            },
        ),
{
    match s {
        Some(t) => if t.as_str().len() > 50 {
            Some(t.clone())
        } else {
            None
        },
        None => None,
    }
}

fn collect_text_blocks(blocks: &Vec<JsonValue>) -> (out: Vec<String>)
    ensures
        views(out@) == text_blocks(blocks@),
{
    let mut out: Vec<String> = Vec::new();
    let n = blocks.len();
    let mut i: usize = 0;
    while i < n
        invariant
            n == blocks@.len(),
            i <= n,
            views(out@) == text_blocks(blocks@.take(i as int)),
        decreases n - i,
    {
        let b = &blocks[i];
        proof {
            assert(blocks@.take(i + 1).drop_last() =~= blocks@.take(i as int));
            assert(blocks@.take(i + 1).last() == blocks@[i as int]);
        }
        let is_text = match get_str(b, "type") {
            Some(t) => str_eq(t.as_str(), "text"),
            None => false,
        };
        if is_text {
            match get_str(b, "text") {
                Some(t) => {
                    out.push(t.clone());
                    assert(views(out@) =~= text_blocks(blocks@.take(i as int)).push(t@));
                },
                None => {},
            }
        }
        i = i + 1;
    }
    assert(blocks@.take(n as int) =~= blocks@);
    out
}

/// Extracts the assistant text from one parsed session-log line. User
/// messages and tool entries give `None`.
pub fn extract_assistant_text(value: &JsonValue) -> (r: Option<String>)
    ensures
        opt_view(r) == assistant_text(*value),
{
    proof {
        reveal_strlit("assistant");
    }
    let is_assistant_type = match get_str(value, "type") {
        Some(t) => str_eq(t.as_str(), "assistant"),
        None => false,
    };
    if !is_assistant_type {
        match get_str(value, "role") {
            Some(role) => {
                if !str_eq(role.as_str(), "assistant") {
                    assert("assistant"@.len() > 0);
                    return None;
                }
            },
            None => {
                match get_str(value, "type") {
                    Some(t) => if !t.as_str().is_empty() {
                        return None;
                    },
                    None => {},
                }
            },
        }
    }
    if let Some(msg) = get_member(value, "message") {
        if let Some(content) = get_member(msg, "content") {
            if let JsonValue::Array(arr) = content {
                let texts = collect_text_blocks(arr);
                if texts.len() > 0 {
                    let joined = join_strings(&texts, "\n");
                    assert(message_text(*value) == Some(joined@));
                    return Some(joined);
                }
            }
            let direct = match content {
                JsonValue::Str(s) => Some(s),
                _ => None,
            };
            if let Some(t) = long_string(direct) {
                return Some(t);
            }
        }
    }
    long_string(get_str(value, "content"))
}

/// Lines typed as something other than an assistant message, with no
/// assistant role, give no text: user messages and tool entries are skipped.
pub proof fn lemma_non_assistant_lines_skipped(v: JsonValue, ty: Seq<char>)
    requires
        str_member(v, "type"@) == Some(ty),
        ty.len() > 0,
        ty != "assistant"@,
        str_member(v, "role"@) is None || str_member(v, "role"@) != Some("assistant"@),
    ensures
        assistant_text(v) is None,
{
}

/// The name `..`.
pub open spec fn parent_name() -> Seq<char> {
    seq!['.', '.']
}

/// The names along the pieces of a `/`-separated path, as `Path::components`
/// yields its normal and `..` components: empty pieces and `.` name nothing.
pub open spec fn path_names(pieces: Seq<Seq<char>>) -> Seq<Seq<char>>
    decreases pieces.len(),
{
    if pieces.len() == 0 {
        seq![]
    } else {
        let r = path_names(pieces.drop_last());
        let p = pieces.last();
        if p.len() == 0 || p == seq!['.'] {
            r
        } else {
            r.push(p)
        }
    }
}

/// The names along `path`.
pub open spec fn components(path: Seq<char>) -> Seq<Seq<char>> {
    path_names(split(path, '/'))
}

/// Index of the last `.` in `name`, or -1.
pub open spec fn last_dot(name: Seq<char>) -> int
    decreases name.len(),
{
    if name.len() == 0 {
        -1
    } else if name.last() == '.' {
        name.len() - 1
    } else {
        last_dot(name.drop_last())
    }
}

/// `Path::file_stem` of a file name: the name up to its last `.`, unless the
/// only `.` leads the name or there is none.
pub open spec fn file_stem(name: Seq<char>) -> Seq<char> {
    if last_dot(name) <= 0 {
        name
    } else {
        name.take(last_dot(name))
    }
}

/// `Path::extension` of a file name: what follows its last `.`, unless the
/// only `.` leads the name or there is none.
pub open spec fn extension(name: Seq<char>) -> Option<Seq<char>> {
    if last_dot(name) <= 0 {
        None
    } else {
        Some(name.skip(last_dot(name) + 1))
    }
}

/// `Path::file_name`: the last name of the path, unless it is `..`.
pub open spec fn file_name(path: Seq<char>) -> Option<Seq<char>> {
    let c = components(path);
    if c.len() > 0 && c.last() != parent_name() {
        Some(c.last())
    } else {
        None
    }
}

/// Project and session of `<project>/sessions/<session>.jsonl`: the name two
/// levels above the file and the file's stem.
pub open spec fn session_parts(path: Seq<char>) -> Option<(Seq<char>, Seq<char>)> {
    let c = components(path);
    let n = c.len();
    if n >= 3 && c[n - 1] != parent_name() && c[n - 3] != parent_name() {
        Some((c[n - 3], file_stem(c[n - 1])))
    } else {
        None
    }
}

fn path_components(path: &str) -> (out: Vec<Vec<char>>)
    ensures
        vviews(out@) == components(path@),
{
    let cs = chars_of(path);
    let pieces = split_chars(&cs, '/');
    let mut out: Vec<Vec<char>> = Vec::new();
    let n = pieces.len();
    let mut i: usize = 0;
    while i < n
        invariant
            n == pieces@.len(),
            i <= n,
            vviews(pieces@) == split(path@, '/'),
            vviews(out@) == path_names(vviews(pieces@).take(i as int)),
        decreases n - i,
    {
        proof {
            assert(vviews(pieces@).take(i + 1).drop_last() =~= vviews(pieces@).take(i as int));
            assert(vviews(pieces@).take(i + 1).last() == pieces@[i as int]@);
        }
        let p = &pieces[i];
        let is_dot = p.len() == 1 && p[0] == '.';
        if p.len() != 0 && !is_dot {
            out.push(p.clone());
            assert(vviews(out@) =~= path_names(vviews(pieces@).take(i as int)).push(p@));
        } else {
            assert(is_dot ==> p@ =~= seq!['.']);
            assert(p@ =~= seq!['.'] ==> is_dot);
        }
        i = i + 1;
    }
    assert(vviews(pieces@).take(n as int) =~= vviews(pieces@));
    out
}

fn is_parent_name(name: &Vec<char>) -> (b: bool)
    ensures
        b == (name@ == parent_name()),
{
    let b = name.len() == 2 && name[0] == '.' && name[1] == '.';
    assert(b ==> name@ =~= parent_name());
    b
}

fn find_last_dot(name: &Vec<char>) -> (k: Option<usize>)
    ensures
        match k {
            Some(i) => last_dot(name@) == i as int && i < name@.len(),
            None => last_dot(name@) == -1,
        },
{
    let mut i = name.len();
    assert(name@.take(i as int) =~= name@);
    while i > 0
        invariant
            i <= name@.len(),
            forall|j: int| i <= j < name@.len() ==> name@[j] != '.',
            last_dot(name@) == last_dot(name@.take(i as int)),
        decreases i,
    {
        proof {
            assert(name@.take(i as int).drop_last() =~= name@.take(i - 1));
        }
        if name[i - 1] == '.' {
            return Some(i - 1);
        }
        i = i - 1;
    }
    None
}

fn stem_of(name: &Vec<char>) -> (out: Vec<char>)
    ensures
        out@ == file_stem(name@),
{
    match find_last_dot(name) {
        Some(k) => if k == 0 {
            name.clone()
        } else {
            sub_chars(name, 0, k)
        },
        None => name.clone(),
    }
}

/// Parses project and session id from a session-log path such as
/// `<root>/projects/<project>/sessions/<session>.jsonl`.
pub fn parse_session_path(path: &str) -> (r: Option<(String, String)>)
    ensures
        match r {
            Some((project, session)) => session_parts(path@) == Some((project@, session@)),
            None => session_parts(path@) is None,
        },
{
    let c = path_components(path);
    let n = c.len();
    if n < 3 {
        return None;
    }
    let last = &c[n - 1];
    let project = &c[n - 3];
    if is_parent_name(last) || is_parent_name(project) {
        return None;
    }
    let stem = stem_of(last);
    Some((string_from_chars(project.as_slice()), string_from_chars(stem.as_slice())))
}

/// Project and session id of a session log, `"unknown"` for both when the path
/// does not have the `<project>/sessions/<session>.jsonl` shape.
pub fn session_identity(path: &str) -> (r: (String, String))
    ensures
        match session_parts(path@) {
            Some((project, session)) => r.0@ == project && r.1@ == session,
            None => r.0@ == "unknown"@ && r.1@ == "unknown"@,
        },
{
    match parse_session_path(path) {
        Some(parts) => parts,
        None => ("unknown".to_owned(), "unknown".to_owned()),
    }
}

/// Whether the watcher reads the changed file: its extension is `jsonl`.
pub fn is_session_log(path: &str) -> (b: bool)
    ensures
        b == (file_name(path@) matches Some(name) && extension(name) == Some("jsonl"@)),
{
    let c = path_components(path);
    let n = c.len();
    if n == 0 {
        return false;
    }
    let name = &c[n - 1];
    if is_parent_name(name) {
        return false;
    }
    match find_last_dot(name) {
        Some(k) => if k == 0 {
            false
        } else {
            let len = name.len();
            let ext = sub_chars(name, k + 1, len);
            let ext_s = string_from_chars(ext.as_slice());
            str_eq(ext_s.as_str(), "jsonl")
        },
        None => false,
    }
}

/// Offset at which a scan of a session log resumes: the saved offset, or the
/// start of the file when the file is now shorter than that offset.
pub open spec fn resume_offset_of(file_len: u64, last_pos: u64) -> u64 {
    if file_len < last_pos {
        0
    } else {
        last_pos
    }
}

/// Offset at which a scan of a session log resumes.
pub fn resume_offset(file_len: u64, last_pos: u64) -> (r: u64)
    ensures
        r == resume_offset_of(file_len, last_pos),
{
    if file_len < last_pos {
        0
    } else {
        last_pos
    }
}

/// The turn text a session-log line contributes: blank lines and lines that
/// did not parse give none; otherwise the line's assistant text when its
/// UTF-8 encoding is longer than 50 bytes.
pub open spec fn line_turn_text(line: Seq<char>, parsed: Option<JsonValue>) -> Option<Seq<char>> {
    if trim(line).len() == 0 {
        None
    } else {
        match parsed {
            Some(v) => match assistant_text(v) {
                Some(t) => if byte_len(t) > 50 {
                    Some(t)
                } else {
                    None
                },
                None => None,
            },
            None => None,
        }
    }
}

/// What a session-log line parses to: nothing for a blank line, else what
/// serde_json makes of it.
pub open spec fn line_parse(line: Seq<char>) -> Option<JsonValue> {
    if trim(line).len() == 0 {
        None
    } else {
        json_parse(line)
    }
}

/// The turn text a session-log line contributes.
pub open spec fn line_turn(line: Seq<char>) -> Option<Seq<char>> {
    line_turn_text(line, line_parse(line))
}

/// The turn texts a scan over `lines` collects, in order.
pub open spec fn scan_texts(lines: Seq<Seq<char>>) -> Seq<Seq<char>>
    decreases lines.len(),
{
    if lines.len() == 0 {
        seq![]
    } else {
        let r = scan_texts(lines.drop_last());
        match line_turn(lines.last()) {
            Some(t) => r.push(t),
            None => r,
        }
    }
}

/// The bytes a scan over `lines` moves past: each line and its newline.
pub open spec fn scan_bytes(lines: Seq<Seq<char>>) -> nat
    decreases lines.len(),
{
    if lines.len() == 0 {
        0
    } else {
        (scan_bytes(lines.drop_last()) + byte_len(lines.last()) + 1) as nat
    }
}

/// A scan resumed where an earlier one stopped gives what one scan of the
/// whole log gives: the turns of `first` then those of `rest`, and the offset
/// past both. A log that has only grown resumes at the saved offset.
pub proof fn lemma_scan_resumes(first: Seq<Seq<char>>, rest: Seq<Seq<char>>, file_len: u64, saved: u64)
    ensures
        scan_texts(first + rest) == scan_texts(first) + scan_texts(rest),
        scan_bytes(first + rest) == scan_bytes(first) + scan_bytes(rest),
        file_len >= saved ==> resume_offset_of(file_len, saved) == saved,
    decreases rest.len(),
{
    if rest.len() == 0 {
        assert(first + rest =~= first);
        assert(scan_texts(first) + scan_texts(rest) =~= scan_texts(first));
    } else {
        let shorter = rest.drop_last();
        lemma_scan_resumes(first, shorter, file_len, saved);
        assert((first + rest).drop_last() =~= first + shorter);
        assert((first + rest).last() == rest.last());
        match line_turn(rest.last()) {
            Some(t) => {
                assert(scan_texts(first) + scan_texts(shorter).push(t) =~= (scan_texts(first)
                    + scan_texts(shorter)).push(t));
            },
            None => {},
        }
    }
}

/// A scan over the new lines of one session log.
pub struct SessionScan {
    pub project: String,
    pub session_id: String,
    /// Byte offset just past the last line seen.
    pub pos: u64,
    pub turns: Vec<PendingTurn>,
}

impl SessionScan {
    /// Starts a scan of the log at `path`, `file_len` bytes long, whose
    /// previous scan ended at `last_pos`.
    pub fn start(path: &str, file_len: u64, last_pos: u64) -> (scan: SessionScan)
        ensures
            scan.pos == resume_offset_of(file_len, last_pos),
            scan.turns@.len() == 0,
            match session_parts(path@) {
                Some((project, session)) => scan.project@ == project && scan.session_id@
                    == session,
                None => scan.project@ == "unknown"@ && scan.session_id@ == "unknown"@,
            },
    {
        let (project, session_id) = session_identity(path);
        SessionScan {
            project,
            session_id,
            pos: resume_offset(file_len, last_pos),
            turns: Vec::new(),
        }
    }

    /// Takes the next line of the log, without its line ending, and what it
    /// parsed to as JSON (`None` for a blank line or one that did not parse).
    /// The offset moves past the line and one newline byte.
    pub fn on_parsed_line(&mut self, line: &str, parsed: Option<JsonValue>)
        requires
            old(self).pos + byte_len(line@) + 1 <= u64::MAX,
        ensures
            final(self).pos == old(self).pos + byte_len(line@) + 1,
            final(self).project == old(self).project,
            final(self).session_id == old(self).session_id,
            match line_turn_text(line@, parsed) {
                Some(t) => {
                    &&& final(self).turns@.len() == old(self).turns@.len() + 1
                    &&& final(self).turns@.drop_last() == old(self).turns@
                    &&& final(self).turns@.last().text@ == t
                    &&& final(self).turns@.last().session_id == old(self).session_id
                    &&& final(self).turns@.last().project == old(self).project
                },
                None => final(self).turns@ == old(self).turns@,
            },
    {
        let len = line.len() as u64;
        self.pos = self.pos + len + 1;
        let trimmed = trim_str(line);
        if trimmed.as_str().is_empty() {
            return ;
        }
        match parsed {
            Some(v) => match extract_assistant_text(&v) {
                Some(text) => {
                    if text.as_str().len() > 50 {
                        let turn = PendingTurn {
                            text,
                            session_id: self.session_id.clone(),
                            project: self.project.clone(),
                        };
                        self.turns.push(turn);
                        assert(self.turns@.drop_last() =~= old(self).turns@);
                    }
                },
                None => {},
            },
            None => {},
        }
    }

    /// Takes the next line of the log, without its line ending: a line that is
    /// not blank is parsed as JSON, and the turn text it carries, if any, is
    /// added. The offset moves past the line and one newline byte.
    pub fn on_line(&mut self, line: &str)
        requires
            old(self).pos + byte_len(line@) + 1 <= u64::MAX,
        ensures
            final(self).pos == old(self).pos + byte_len(line@) + 1,
            final(self).project == old(self).project,
            final(self).session_id == old(self).session_id,
            match line_turn(line@) {
                Some(t) => {
                    &&& final(self).turns@.len() == old(self).turns@.len() + 1
                    &&& final(self).turns@.drop_last() == old(self).turns@
                    &&& final(self).turns@.last().text@ == t
                    &&& final(self).turns@.last().session_id == old(self).session_id
                    &&& final(self).turns@.last().project == old(self).project
                },
                None => final(self).turns@ == old(self).turns@,
            },
    {
        let trimmed = trim_str(line);
        let parsed = if trimmed.as_str().is_empty() {
            None
        } else {
            match parse_json(line) {
                Ok(v) => Some(v),
                Err(_) => None,
            }
        };
        self.on_parsed_line(line, parsed);
    }
}

/// Parsed turns between two checkpoint writes.
pub const CHECKPOINT_FLUSH_EVERY: usize = 10;

/// Seconds a batch waits after the last file event before it goes to the
/// curator, so that rapid successive writes accumulate into one batch.
pub const BATCH_IDLE_SECS: u64 = 5;

/// Pending turns at which a batch goes to the curator at once.
pub const BATCH_MAX_PENDING: usize = 20;

/// The watcher's batching state: turns waiting for the curator, when the last
/// file event reached a pending batch, and how many turns were parsed since
/// the last checkpoint write. Its history (every turn recorded, every turn
/// handed out) is kept as ghost state.
pub struct TurnBatcher {
    parse_count: usize,
    pending: Vec<PendingTurn>,
    last_event_ms: Option<u64>,
    recorded: Ghost<Seq<PendingTurn>>,
    handed_out: Ghost<Seq<PendingTurn>>,
}

impl TurnBatcher {
    /// Turns waiting for the curator, oldest first.
    pub closed spec fn pending_turns(&self) -> Seq<PendingTurn> {
        self.pending@
    }

    /// Turns parsed since the last checkpoint write.
    pub closed spec fn parsed_since_checkpoint(&self) -> nat {
        self.parse_count as nat
    }

    /// When the last file event reached the pending batch, in milliseconds.
    pub closed spec fn last_event(&self) -> Option<u64> {
        self.last_event_ms
    }

    /// Every turn recorded since the batcher was made, in order.
    pub closed spec fn recorded_turns(&self) -> Seq<PendingTurn> {
        self.recorded@
    }

    /// Every turn handed to the curator so far: the batches taken, in order,
    /// one after the other.
    pub closed spec fn handed_out_turns(&self) -> Seq<PendingTurn> {
        self.handed_out@
    }

    /// Fewer turns than a checkpoint's worth are counted; a batch has a last
    /// event time exactly when it holds turns; and the turns handed out,
    /// followed by the pending ones, are the turns recorded.
    pub closed spec fn wf(&self) -> bool {
        &&& self.parse_count < CHECKPOINT_FLUSH_EVERY
        &&& (self.pending@.len() == 0 <==> self.last_event_ms is None)
        &&& self.handed_out@ + self.pending@ == self.recorded@
    }

    /// An empty batch.
    pub fn new() -> (b: TurnBatcher)
        ensures
            b.wf(),
            b.pending_turns().len() == 0,
            b.parsed_since_checkpoint() == 0,
            b.last_event() is None,
            b.recorded_turns().len() == 0,
            b.handed_out_turns().len() == 0,
    {
        let b = TurnBatcher {
            parse_count: 0,
            pending: Vec::new(),
            last_event_ms: None,
            recorded: Ghost(Seq::empty()),
            handed_out: Ghost(Seq::empty()),
        };
        assert(b.handed_out@ + b.pending@ =~= b.recorded@);
        b
    }

    /// Number of turns waiting for the curator.
    pub fn pending_len(&self) -> (n: usize)
        ensures
            n == self.pending_turns().len(),
    {
        self.pending.len()
    }

    /// Takes the file event that brought `turns` (possibly none) at time
    /// `now_ms`. Returns whether the file offsets are due to be written out:
    /// that is so once a checkpoint's worth of turns has been parsed since the
    /// last write. The event restarts the idle wait of a batch that holds turns.
    pub fn record_turns(&mut self, turns: Vec<PendingTurn>, now_ms: u64) -> (write_checkpoint: bool)
        requires
            old(self).wf(),
        ensures
            final(self).wf(),
            final(self).pending_turns() == old(self).pending_turns() + turns@,
            final(self).recorded_turns() == old(self).recorded_turns() + turns@,
            final(self).handed_out_turns() == old(self).handed_out_turns(),
            final(self).last_event() == if final(self).pending_turns().len() == 0 {
                None
            } else {
                Some(now_ms)
            },
            turns@.len() == 0 ==> {
                &&& !write_checkpoint
                &&& final(self).parsed_since_checkpoint() == old(self).parsed_since_checkpoint()
            },
            turns@.len() > 0 ==> {
                let counted = old(self).parsed_since_checkpoint() + turns@.len();
                &&& write_checkpoint == (counted >= CHECKPOINT_FLUSH_EVERY)
                &&& final(self).parsed_since_checkpoint() == if write_checkpoint {
                    0
                } else {
                    counted
                }
            },
    {
        let count = turns.len();
        let ghost old_pending = self.pending@;
        let mut turns = turns;
        let ghost added = turns@;
        self.pending.append(&mut turns);
        proof {
            self.recorded@ = self.recorded@ + added;
            assert(self.handed_out@ + self.pending@ =~= self.recorded@) by {
                assert(self.pending@ =~= old_pending + added);
            }
        }
        if self.pending.len() == 0 {
            self.last_event_ms = None;
        } else {
            self.last_event_ms = Some(now_ms);
        }
        if count == 0 {
            return false;
        }
        if count >= CHECKPOINT_FLUSH_EVERY - self.parse_count {
            self.parse_count = 0;
            true
        } else {
            self.parse_count = self.parse_count + count;
            false
        }
    }

    /// Whether the batch goes to the curator at time `now_ms`: it holds turns
    /// and either holds at least `BATCH_MAX_PENDING` of them or no file event
    /// has come for `BATCH_IDLE_SECS`.
    pub fn should_flush(&self, now_ms: u64) -> (flush: bool)
        requires
            self.wf(),
        ensures
            flush == (self.pending_turns().len() > 0 && (self.pending_turns().len()
                >= BATCH_MAX_PENDING || (self.last_event() matches Some(t) && now_ms >= t
                && now_ms - t >= BATCH_IDLE_SECS * 1000))),
    {
        if self.pending.len() == 0 {
            false
        } else if self.pending.len() >= BATCH_MAX_PENDING {
            true
        } else {
            match self.last_event_ms {
                Some(t) => now_ms >= t && now_ms - t >= BATCH_IDLE_SECS * 1000,
                None => false,
            }
        }
    }

    /// Hands the batch to the curator, oldest turn first, and starts a new one.
    pub fn take_batch(&mut self) -> (batch: Vec<PendingTurn>)
        requires
            old(self).wf(),
        ensures
            final(self).wf(),
            batch@ == old(self).pending_turns(),
            final(self).pending_turns().len() == 0,
            final(self).last_event() is None,
            final(self).parsed_since_checkpoint() == old(self).parsed_since_checkpoint(),
            final(self).recorded_turns() == old(self).recorded_turns(),
            final(self).handed_out_turns() == old(self).handed_out_turns() + batch@,
    {
        let mut batch: Vec<PendingTurn> = Vec::new();
        batch.append(&mut self.pending);
        proof {
            self.handed_out@ = self.handed_out@ + batch@;
            assert(self.handed_out@ + self.pending@ =~= self.recorded@);
        }
        self.last_event_ms = None;
        batch
    }
}

/// No turn is lost and none is handed out twice: at every point, the batches
/// handed to the curator, one after the other, followed by the turns still
/// pending, are exactly the turns recorded, in the order they came. Once the
/// last batch is taken, the batches are all the turns recorded.
pub proof fn lemma_batches_partition_turns(b: &TurnBatcher)
    requires
        b.wf(),
    ensures
        b.handed_out_turns() + b.pending_turns() == b.recorded_turns(),
        b.pending_turns().len() == 0 ==> b.handed_out_turns() == b.recorded_turns(),
{
    if b.pending_turns().len() == 0 {
        assert(b.handed_out_turns() + b.pending_turns() =~= b.handed_out_turns());
    }
}

} // verus!
