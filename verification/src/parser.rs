//! Log-line parser: recognizes chat, join and leave lines of the game log
//! and extracts the user name and message text.
//!
//! A line is classified by which marker (`[CHAT]`, `[JOIN]`, `[LEAVE]`) it
//! contains, in that order of precedence; the payload after the marker is
//! then matched against the expected shape. A line whose payload does not
//! match, or a chat line written by the server itself, yields no record.

use vstd::prelude::*;

verus! {

// ---------------------------------------------------------------------------
// Character classes and fixed patterns
// ---------------------------------------------------------------------------

/// A character the user-name pattern accepts: letters, digits, underscore.
pub open spec fn is_word_char(c: char) -> bool {
    (('a' as u32) <= (c as u32) && (c as u32) <= ('z' as u32))
    || (('A' as u32) <= (c as u32) && (c as u32) <= ('Z' as u32))
    || (('0' as u32) <= (c as u32) && (c as u32) <= ('9' as u32))
    || c == '_'
}

pub open spec fn chat_marker() -> Seq<char> {
    seq!['[', 'C', 'H', 'A', 'T', ']']
}

pub open spec fn join_marker() -> Seq<char> {
    seq!['[', 'J', 'O', 'I', 'N', ']']
}

pub open spec fn leave_marker() -> Seq<char> {
    seq!['[', 'L', 'E', 'A', 'V', 'E', ']']
}

/// The chat pattern starts with the marker followed by one space.
pub open spec fn chat_prefix() -> Seq<char> {
    seq!['[', 'C', 'H', 'A', 'T', ']', ' ']
}

pub open spec fn join_prefix() -> Seq<char> {
    seq!['[', 'J', 'O', 'I', 'N', ']', ' ']
}

pub open spec fn leave_prefix() -> Seq<char> {
    seq!['[', 'L', 'E', 'A', 'V', 'E', ']', ' ']
}

pub open spec fn joined_suffix() -> Seq<char> {
    seq![' ', 'j', 'o', 'i', 'n', 'e', 'd']
}

pub open spec fn left_suffix() -> Seq<char> {
    seq![' ', 'l', 'e', 'f', 't']
}

/// The pseudo-user under which the server writes its own chat lines.
pub open spec fn server_name() -> Seq<char> {
    seq!['<', 's', 'e', 'r', 'v', 'e', 'r', '>']
}

// ---------------------------------------------------------------------------
// Pattern matching over character sequences
// ---------------------------------------------------------------------------

/// `pat` occurs in `s` starting at position `i`.
pub open spec fn pat_at(s: Seq<char>, pat: Seq<char>, i: int) -> bool {
    &&& 0 <= i
    &&& i + pat.len() <= s.len()
    &&& forall|j: int| 0 <= j < pat.len() ==> s[i + j] == pat[j]
}

/// `pat` occurs somewhere in `s`.
pub open spec fn contains_pat(s: Seq<char>, pat: Seq<char>) -> bool {
    exists|i: int| pat_at(s, pat, i)
}

/// Length of the maximal run of word characters starting at `k`.
pub open spec fn word_run(s: Seq<char>, k: int) -> int
    decreases s.len() - k when 0 <= k <= s.len()
{
    if k < s.len() && is_word_char(s[k]) {
        1 + word_run(s, k + 1)
    } else {
        0
    }
}

/// Index of the first newline at or after `p`, or the end of `s`.
pub open spec fn line_end(s: Seq<char>, p: int) -> int
    decreases s.len() - p when 0 <= p <= s.len()
{
    if p < s.len() {
        if s[p] == '\n' {
            p
        } else {
            line_end(s, p + 1)
        }
    } else {
        s.len() as int
    }
}

/// A colon, a space, and a nonempty message follow at position `p`.
/// The message runs to the end of the line, so at least one character
/// other than a newline must stand after the colon-space.
pub open spec fn colon_space_msg_at(s: Seq<char>, p: int) -> bool {
    &&& p + 2 < s.len()
    &&& s[p] == ':'
    &&& s[p + 1] == ' '
    &&& s[p + 2] != '\n'
}

/// The chat payload shape matches at position `i`: the chat prefix, then
/// either a nonempty user name of word characters or the literal server
/// name, then a colon-space and a nonempty message.
pub open spec fn chat_match_at(s: Seq<char>, i: int) -> bool {
    &&& pat_at(s, chat_prefix(), i)
    &&& {
        ||| (word_run(s, i + 7) >= 1 && colon_space_msg_at(s, i + 7 + word_run(s, i + 7)))
        ||| (pat_at(s, server_name(), i + 7) && colon_space_msg_at(s, i + 7 + 8))
    }
}

/// Position of the colon of a chat match at `i` (right after the user).
pub open spec fn chat_colon(s: Seq<char>, i: int) -> int {
    if pat_at(s, server_name(), i + 7) {
        i + 7 + 8
    } else {
        i + 7 + word_run(s, i + 7)
    }
}

/// The user captured by a chat match at `i`.
pub open spec fn chat_user(s: Seq<char>, i: int) -> Seq<char> {
    if pat_at(s, server_name(), i + 7) {
        server_name()
    } else {
        s.subrange(i + 7, i + 7 + word_run(s, i + 7))
    }
}

/// The message captured by a chat match at `i`: everything after the
/// colon-space, up to the end of the line.
pub open spec fn chat_msg(s: Seq<char>, i: int) -> Seq<char> {
    s.subrange(chat_colon(s, i) + 2, line_end(s, chat_colon(s, i) + 2))
}

/// The join/leave payload shape matches at `i`: the given prefix, a
/// nonempty user name of word characters, then the given suffix.
pub open spec fn ev_match_at(s: Seq<char>, prefix: Seq<char>, suffix: Seq<char>, i: int) -> bool {
    &&& pat_at(s, prefix, i)
    &&& word_run(s, i + prefix.len()) >= 1
    &&& pat_at(s, suffix, i + prefix.len() + word_run(s, i + prefix.len()))
}

/// The user captured by a join/leave match at `i`.
pub open spec fn ev_user(s: Seq<char>, prefix: Seq<char>, i: int) -> Seq<char> {
    s.subrange(i + prefix.len(), i + prefix.len() + word_run(s, i + prefix.len()))
}

/// Position of the leftmost chat match at or after `i`, if any.
pub open spec fn first_chat_from(s: Seq<char>, i: int) -> Option<int>
    decreases s.len() - i when 0 <= i <= s.len()
{
    if chat_match_at(s, i) {
        Some(i)
    } else if i < s.len() {
        first_chat_from(s, i + 1)
    } else {
        None
    }
}

/// Position of the leftmost join/leave match at or after `i`, if any.
pub open spec fn first_ev_from(s: Seq<char>, prefix: Seq<char>, suffix: Seq<char>, i: int) -> Option<int>
    decreases s.len() - i when 0 <= i <= s.len()
{
    if ev_match_at(s, prefix, suffix, i) {
        Some(i)
    } else if i < s.len() {
        first_ev_from(s, prefix, suffix, i + 1)
    } else {
        None
    }
}

// ---------------------------------------------------------------------------
// Records
// ---------------------------------------------------------------------------

/// A recognized log line: a player chat line, a join, or a leave.
#[derive(PartialEq, Eq, Debug)]
pub enum LogRecord {
    Chat { username: String, msg: String },
    Join(String),
    Leave(String),
}

/// Mathematical model of a `LogRecord`.
pub enum LogRecordView {
    Chat { username: Seq<char>, msg: Seq<char> },
    Join(Seq<char>),
    Leave(Seq<char>),
}

impl View for LogRecord {
    type V = LogRecordView;

    open spec fn view(&self) -> LogRecordView {
        match self {
            LogRecord::Chat { username, msg } => LogRecordView::Chat {
                username: username@,
                msg: msg@,
            },
            LogRecord::Join(u) => LogRecordView::Join(u@),
            LogRecord::Leave(u) => LogRecordView::Leave(u@),
        }
    }
}

pub open spec fn opt_record_view(r: Option<LogRecord>) -> Option<LogRecordView> {
    match r {
        Some(rec) => Some(rec@),
        None => None,
    }
}

/// What `parse_log_line` returns, as a function of the line's characters.
/// The first marker found (chat before join before leave) selects the
/// pattern; the leftmost match of that pattern is captured; a chat line
/// whose user is the server's own name is filtered out.
pub open spec fn spec_parse(s: Seq<char>) -> Option<LogRecordView> {
    if contains_pat(s, chat_marker()) {
        match first_chat_from(s, 0) {
            Some(i) => {
                if chat_user(s, i) == server_name() {
                    None
                } else {
                    Some(LogRecordView::Chat { username: chat_user(s, i), msg: chat_msg(s, i) })
                }
            },
            None => None,
        }
    } else if contains_pat(s, join_marker()) {
        match first_ev_from(s, join_prefix(), joined_suffix(), 0) {
            Some(i) => Some(LogRecordView::Join(ev_user(s, join_prefix(), i))),
            None => None,
        }
    } else if contains_pat(s, leave_marker()) {
        match first_ev_from(s, leave_prefix(), left_suffix(), 0) {
            Some(i) => Some(LogRecordView::Leave(ev_user(s, leave_prefix(), i))),
            None => None,
        }
    } else {
        None
    }
}

// ---------------------------------------------------------------------------
// Executable pattern matching
// ---------------------------------------------------------------------------

/// Does `c` count as a word character?
fn word_char(c: char) -> (b: bool)
    ensures
        b == is_word_char(c),
{
    let u = c as u32;
    (('a' as u32) <= u && u <= ('z' as u32))
    || (('A' as u32) <= u && u <= ('Z' as u32))
    || (('0' as u32) <= u && u <= ('9' as u32))
    || c == '_'
}

/// Does `pat` occur in `s` at position `i`?
fn eq_at(s: &str, pat: &str, i: usize) -> (b: bool)
    ensures
        b == pat_at(s@, pat@, i as int),
{
    let n = s.unicode_len();
    let m = pat.unicode_len();
    if i > n || m > n - i {
        return false;
    }
    let mut j: usize = 0;
    while j < m
        invariant
            i + m <= n,
            n == s@.len(),
            m == pat@.len(),
            j <= m,
            forall|q: int| 0 <= q < j ==> s@[i + q] == pat@[q],
        decreases m - j,
    {
        if s.get_char(i + j) != pat.get_char(j) {
            assert(!pat_at(s@, pat@, i as int));
            return false;
        }
        j += 1;
    }
    true
}

/// Does `pat` occur anywhere in `s`?
fn contains_pat_exec(s: &str, pat: &str) -> (b: bool)
    ensures
        b == contains_pat(s@, pat@),
{
    let n = s.unicode_len();
    let m = pat.unicode_len();
    if m > n {
        return false;
    }
    let mut i: usize = 0;
    while i <= n - m
        invariant
            m <= n,
            n == s@.len(),
            m == pat@.len(),
            i <= n - m + 1,
            forall|q: int| 0 <= q < i ==> !pat_at(s@, pat@, q),
        decreases n - m - i + 1,
    {
        if eq_at(s, pat, i) {
            return true;
        }
        i += 1;
    }
    assert forall|q: int| !pat_at(s@, pat@, q) by {
        if 0 <= q < i {
        } else if q >= i {
            assert(q + m > n);
        }
    }
    false
}

/// Length of the maximal run of word characters starting at `k`.
fn word_run_exec(s: &str, k: usize) -> (l: usize)
    requires
        k <= s@.len(),
    ensures
        l == word_run(s@, k as int),
        k + l <= s@.len(),
{
    let n = s.unicode_len();
    let mut j: usize = k;
    while j < n && word_char(s.get_char(j))
        invariant
            k <= j <= n,
            n == s@.len(),
            word_run(s@, k as int) == (j - k) + word_run(s@, j as int),
        decreases n - j,
    {
        j += 1;
    }
    j - k
}

/// Index of the first newline at or after `p`, or the end of `s`.
fn line_end_exec(s: &str, p: usize) -> (e: usize)
    requires
        p <= s@.len(),
    ensures
        e == line_end(s@, p as int),
        p <= e <= s@.len(),
{
    let n = s.unicode_len();
    let mut j: usize = p;
    while j < n && s.get_char(j) != '\n'
        invariant
            p <= j <= n,
            n == s@.len(),
            line_end(s@, p as int) == line_end(s@, j as int),
        decreases n - j,
    {
        j += 1;
    }
    j
}

/// A colon, a space, and a nonempty message follow at `p`?
fn colon_space_msg_exec(s: &str, p: usize) -> (b: bool)
    requires
        p <= s@.len(),
    ensures
        b == colon_space_msg_at(s@, p as int),
{
    let n = s.unicode_len();
    if n - p < 3 {
        return false;
    }
    s.get_char(p) == ':' && s.get_char(p + 1) == ' ' && s.get_char(p + 2) != '\n'
}

/// Does the chat payload shape match at `i`?
fn chat_match_at_exec(s: &str, i: usize) -> (b: bool)
    requires
        i <= s@.len(),
    ensures
        b == chat_match_at(s@, i as int),
{
    proof {
        reveal_strlit("[CHAT] ");
        reveal_strlit("<server>");
        assert("[CHAT] "@ =~= chat_prefix());
        assert("<server>"@ =~= server_name());
    }
    if !eq_at(s, "[CHAT] ", i) {
        return false;
    }
    let n = s.unicode_len();
    let k = i + 7;
    let l = word_run_exec(s, k);
    if l >= 1 {
        proof {
            assert(is_word_char(s@[k as int]));
            assert(!pat_at(s@, server_name(), k as int)) by {
                if pat_at(s@, server_name(), k as int) {
                    assert(s@[k as int] == '<');
                }
            }
        }
        return colon_space_msg_exec(s, k + l);
    }
    if eq_at(s, "<server>", k) {
        return colon_space_msg_exec(s, k + 8);
    }
    false
}

/// Does the join/leave payload shape match at `i`?
fn ev_match_at_exec(s: &str, prefix: &str, suffix: &str, i: usize) -> (b: bool)
    requires
        i <= s@.len(),
    ensures
        b == ev_match_at(s@, prefix@, suffix@, i as int),
{
    if !eq_at(s, prefix, i) {
        return false;
    }
    let n = s.unicode_len();
    let k = i + prefix.unicode_len();
    let l = word_run_exec(s, k);
    if l == 0 {
        return false;
    }
    eq_at(s, suffix, k + l)
}

/// Position of the leftmost chat match, if any.
fn find_first_chat(s: &str) -> (r: Option<usize>)
    ensures
        r matches Some(i) ==> first_chat_from(s@, 0) == Some(i as int)
            && chat_match_at(s@, i as int),
        r is None ==> first_chat_from(s@, 0) is None,
{
    let n = s.unicode_len();
    let mut i: usize = 0;
    while i < n
        invariant
            i <= n,
            n == s@.len(),
            first_chat_from(s@, 0) == first_chat_from(s@, i as int),
        decreases n - i,
    {
        if chat_match_at_exec(s, i) {
            return Some(i);
        }
        i += 1;
    }
    assert(!chat_match_at(s@, n as int));
    None
}

/// Position of the leftmost join/leave match, if any.
fn find_first_ev(s: &str, prefix: &str, suffix: &str) -> (r: Option<usize>)
    ensures
        r matches Some(i) ==> first_ev_from(s@, prefix@, suffix@, 0) == Some(i as int)
            && ev_match_at(s@, prefix@, suffix@, i as int),
        r is None ==> first_ev_from(s@, prefix@, suffix@, 0) is None,
{
    let n = s.unicode_len();
    let mut i: usize = 0;
    while i < n
        invariant
            i <= n,
            n == s@.len(),
            first_ev_from(s@, prefix@, suffix@, 0) == first_ev_from(s@, prefix@, suffix@, i as int),
        decreases n - i,
    {
        if ev_match_at_exec(s, prefix, suffix, i) {
            return Some(i);
        }
        i += 1;
    }
    assert(!ev_match_at(s@, prefix@, suffix@, n as int));
    None
}

// ---------------------------------------------------------------------------
// The parser
// ---------------------------------------------------------------------------

/// Parse one log line into a typed record, or nothing when the line is not
/// a recognized game event. Pure: the result is a function of the line.
pub fn parse_log_line(line: &str) -> (r: Option<LogRecord>)
    ensures
        opt_record_view(r) == spec_parse(line@),
{
    proof {
        reveal_strlit("[CHAT]");
        reveal_strlit("[JOIN]");
        reveal_strlit("[LEAVE]");
        reveal_strlit("[CHAT] ");
        reveal_strlit("[JOIN] ");
        reveal_strlit("[LEAVE] ");
        reveal_strlit(" joined");
        reveal_strlit(" left");
        reveal_strlit("<server>");
        assert("[CHAT]"@ =~= chat_marker());
        assert("[JOIN]"@ =~= join_marker());
        assert("[LEAVE]"@ =~= leave_marker());
        assert("[CHAT] "@ =~= chat_prefix());
        assert("[JOIN] "@ =~= join_prefix());
        assert("[LEAVE] "@ =~= leave_prefix());
        assert(" joined"@ =~= joined_suffix());
        assert(" left"@ =~= left_suffix());
        assert("<server>"@ =~= server_name());
    }
    let n = line.unicode_len();
    if contains_pat_exec(line, "[CHAT]") {
        match find_first_chat(line) {
            Some(i) => {
                let k = i + 7;
                if eq_at(line, "<server>", k) {
                    None
                } else {
                    let l = word_run_exec(line, k);
                    assert(l >= 1 && colon_space_msg_at(line@, k + l as int));
                    let cp = k + l;
                    let me = line_end_exec(line, cp + 2);
                    let username = line.substring_char(k, k + l).to_owned();
                    let msg = line.substring_char(cp + 2, me).to_owned();
                    proof {
                        assert(chat_colon(line@, i as int) == cp as int);
                        assert(chat_user(line@, i as int) == username@);
                        assert(chat_user(line@, i as int) != server_name()) by {
                            assert(is_word_char(line@[k as int]));
                            if chat_user(line@, i as int) == server_name() {
                                assert(chat_user(line@, i as int)[0] == '<');
                                assert(line@[k as int] == '<');
                            }
                        }
                    }
                    Some(LogRecord::Chat { username, msg })
                }
            },
            None => None,
        }
    } else if contains_pat_exec(line, "[JOIN]") {
        match find_first_ev(line, "[JOIN] ", " joined") {
            Some(i) => {
                let k = i + 7;
                let l = word_run_exec(line, k);
                Some(LogRecord::Join(line.substring_char(k, k + l).to_owned()))
            },
            None => None,
        }
    } else if contains_pat_exec(line, "[LEAVE]") {
        match find_first_ev(line, "[LEAVE] ", " left") {
            Some(i) => {
                let k = i + 8;
                let l = word_run_exec(line, k);
                Some(LogRecord::Leave(line.substring_char(k, k + l).to_owned()))
            },
            None => None,
        }
    } else {
        None
    }
}

// ---------------------------------------------------------------------------
// Laws of the parser
// ---------------------------------------------------------------------------

/// The leftmost chat match determines the search's result.
proof fn lemma_first_chat_is(s: Seq<char>, j: int, i: int)
    requires
        0 <= j <= i,
        chat_match_at(s, i),
        forall|q: int| j <= q < i ==> !chat_match_at(s, q),
    ensures
        first_chat_from(s, j) == Some(i),
    decreases i - j,
{
    assert(i + 7 <= s.len());
    if j < i {
        lemma_first_chat_is(s, j + 1, i);
    }
}

/// The leftmost join/leave match determines the search's result.
proof fn lemma_first_ev_is(s: Seq<char>, prefix: Seq<char>, suffix: Seq<char>, j: int, i: int)
    requires
        0 <= j <= i,
        ev_match_at(s, prefix, suffix, i),
        forall|q: int| j <= q < i ==> !ev_match_at(s, prefix, suffix, q),
    ensures
        first_ev_from(s, prefix, suffix, j) == Some(i),
    decreases i - j,
{
    assert(i + prefix.len() <= s.len());
    if j < i {
        lemma_first_ev_is(s, prefix, suffix, j + 1, i);
    }
}

/// Law: on any line whose leftmost chat match stands at `i`, the parser
/// captures exactly that match's user and message; and when the captured
/// user is the server's own name, the line is filtered to no record.
pub proof fn lemma_parse_chat(s: Seq<char>, i: int)
    requires
        chat_match_at(s, i),
        forall|q: int| 0 <= q < i ==> !chat_match_at(s, q),
    ensures
        chat_user(s, i) != server_name() ==> spec_parse(s) == Some(
            LogRecordView::Chat { username: chat_user(s, i), msg: chat_msg(s, i) },
        ),
        chat_user(s, i) == server_name() ==> spec_parse(s) is None,
{
    assert(pat_at(s, chat_marker(), i)) by {
        assert(forall|q: int| 0 <= q < chat_marker().len() ==> s[i + q] == #[trigger] chat_marker()[q]) by {
            assert(forall|q: int| 0 <= q < chat_prefix().len() ==> s[i + q] == #[trigger] chat_prefix()[q]);
        }
    }
    assert(contains_pat(s, chat_marker()));
    lemma_first_chat_is(s, 0, i);
}

/// Law: on any line without a chat marker whose leftmost join match stands
/// at `i`, the parser returns a join record with exactly that match's user.
pub proof fn lemma_parse_join(s: Seq<char>, i: int)
    requires
        !contains_pat(s, chat_marker()),
        ev_match_at(s, join_prefix(), joined_suffix(), i),
        forall|q: int| 0 <= q < i ==> !ev_match_at(s, join_prefix(), joined_suffix(), q),
    ensures
        spec_parse(s) == Some(LogRecordView::Join(ev_user(s, join_prefix(), i))),
{
    assert(pat_at(s, join_marker(), i)) by {
        assert(forall|q: int| 0 <= q < join_marker().len() ==> s[i + q] == #[trigger] join_marker()[q]) by {
            assert(forall|q: int| 0 <= q < join_prefix().len() ==> s[i + q] == #[trigger] join_prefix()[q]);
        }
    }
    assert(contains_pat(s, join_marker()));
    lemma_first_ev_is(s, join_prefix(), joined_suffix(), 0, i);
}

/// Law: on any line without a chat or join marker whose leftmost leave
/// match stands at `i`, the parser returns a leave record with exactly
/// that match's user.
pub proof fn lemma_parse_leave(s: Seq<char>, i: int)
    requires
        !contains_pat(s, chat_marker()),
        !contains_pat(s, join_marker()),
        ev_match_at(s, leave_prefix(), left_suffix(), i),
        forall|q: int| 0 <= q < i ==> !ev_match_at(s, leave_prefix(), left_suffix(), q),
    ensures
        spec_parse(s) == Some(LogRecordView::Leave(ev_user(s, leave_prefix(), i))),
{
    assert(pat_at(s, leave_marker(), i)) by {
        assert(forall|q: int| 0 <= q < leave_marker().len() ==> s[i + q] == #[trigger] leave_marker()[q]) by {
            assert(forall|q: int| 0 <= q < leave_prefix().len() ==> s[i + q] == #[trigger] leave_prefix()[q]);
        }
    }
    assert(contains_pat(s, leave_marker()));
    lemma_first_ev_is(s, leave_prefix(), left_suffix(), 0, i);
}

/// Law: a line containing none of the three markers yields no record.
pub proof fn lemma_parse_no_marker(s: Seq<char>)
    requires
        !contains_pat(s, chat_marker()),
        !contains_pat(s, join_marker()),
        !contains_pat(s, leave_marker()),
    ensures
        spec_parse(s) is None,
{
}

/// A run of exactly `len_run` word characters from `k`, stopped by the end
/// of the line or a non-word character, is the maximal run.
proof fn lemma_word_run_exact(s: Seq<char>, k: int, len_run: int)
    requires
        0 <= k,
        0 <= len_run,
        k + len_run <= s.len(),
        forall|j: int| 0 <= j < len_run ==> is_word_char(#[trigger] s[k + j]),
        k + len_run == s.len() || !is_word_char(s[k + len_run]),
    ensures
        word_run(s, k) == len_run,
    decreases len_run,
{
    if len_run > 0 {
        assert(is_word_char(s[k + 0]));
        assert forall|j: int| 0 <= j < len_run - 1 implies is_word_char(
            #[trigger] s[(k + 1) + j],
        ) by {
            assert(is_word_char(s[k + (j + 1)]));
        }
        lemma_word_run_exact(s, k + 1, len_run - 1);
    }
}

/// A line without a newline from `p` on ends where the text ends.
proof fn lemma_line_end_none(s: Seq<char>, p: int)
    requires
        0 <= p <= s.len(),
        forall|j: int| p <= j < s.len() ==> s[j] != '\n',
    ensures
        line_end(s, p) == s.len(),
    decreases s.len() - p,
{
    if p < s.len() {
        lemma_line_end_none(s, p + 1);
    }
}

/// Law, on the canonical chat line: a whole line of the shape
/// `[CHAT] user: msg`, with a user of word characters and a message free
/// of newlines, parses to exactly that user and message.
pub proof fn lemma_parse_chat_line(user: Seq<char>, msg: Seq<char>)
    requires
        user.len() >= 1,
        forall|j: int| 0 <= j < user.len() ==> is_word_char(user[j]),
        msg.len() >= 1,
        forall|j: int| 0 <= j < msg.len() ==> msg[j] != '\n',
    ensures
        spec_parse(chat_prefix() + user + seq![':', ' '] + msg) == Some(
            LogRecordView::Chat { username: user, msg: msg },
        ),
{
    let s = chat_prefix() + user + seq![':', ' '] + msg;
    let u = user.len() as int;
    assert(forall|j: int| 0 <= j < 7 ==> s[j] == chat_prefix()[j]);
    assert(forall|j: int| 0 <= j < u ==> s[7 + j] == user[j]);
    assert(s[7 + u] == ':' && s[7 + u + 1] == ' ');
    assert(forall|j: int| 0 <= j < msg.len() ==> s[7 + u + 2 + j] == msg[j]);
    assert(pat_at(s, chat_prefix(), 0));
    lemma_word_run_exact(s, 7, u);
    assert(colon_space_msg_at(s, 7 + u));
    assert(chat_match_at(s, 0));
    assert(!pat_at(s, server_name(), 7)) by {
        if pat_at(s, server_name(), 7) {
            assert(s[7] == '<');
            assert(is_word_char(user[0]));
        }
    }
    assert(chat_user(s, 0) =~= user);
    assert(chat_user(s, 0) != server_name()) by {
        if user == server_name() {
            assert(is_word_char(user[0]));
            assert(user[0] == '<');
        }
    }
    lemma_line_end_none(s, 7 + u + 2);
    assert(chat_msg(s, 0) =~= msg);
    lemma_parse_chat(s, 0);
}

/// Law, on the canonical server line: a whole chat line written by the
/// server itself is filtered to no record, whatever the message says.
pub proof fn lemma_parse_server_line(msg: Seq<char>)
    requires
        msg.len() >= 1,
        msg[0] != '\n',
    ensures
        spec_parse(chat_prefix() + server_name() + seq![':', ' '] + msg) is None,
{
    let s = chat_prefix() + server_name() + seq![':', ' '] + msg;
    assert(forall|j: int| 0 <= j < 7 ==> s[j] == chat_prefix()[j]);
    assert(forall|j: int| 0 <= j < 8 ==> s[7 + j] == server_name()[j]);
    assert(s[15] == ':' && s[16] == ' ' && s[17] == msg[0]);
    assert(pat_at(s, chat_prefix(), 0));
    assert(pat_at(s, server_name(), 7));
    assert(colon_space_msg_at(s, 15int));
    assert(chat_match_at(s, 0));
    lemma_parse_chat(s, 0);
}

/// In a whole join/leave line — the given prefix, a user of word
/// characters, the given suffix — an opening bracket stands only at the
/// very front, provided neither the rest of the prefix, the user's
/// characters, nor the suffix contains one.
proof fn lemma_bracket_only_at_front(s: Seq<char>, prefix: Seq<char>, user: Seq<char>, suffix: Seq<char>)
    requires
        s == prefix + user + suffix,
        prefix.len() >= 1,
        forall|j: int| 1 <= j < prefix.len() ==> prefix[j] != '[',
        forall|j: int| 0 <= j < user.len() ==> is_word_char(user[j]),
        forall|j: int| 0 <= j < suffix.len() ==> suffix[j] != '[',
    ensures
        forall|p: int| 1 <= p < s.len() ==> s[p] != '[',
{
    let u = user.len() as int;
    let pl = prefix.len() as int;
    assert forall|p: int| 1 <= p < s.len() implies s[p] != '[' by {
        if p < pl {
            assert(s[p] == prefix[p]);
        } else if p < pl + u {
            assert(s[p] == user[p - pl]);
            assert(is_word_char(user[p - pl]));
        } else {
            assert(s[p] == suffix[p - pl - u]);
        }
    }
}

/// A line whose only opening bracket is at the front, followed there by a
/// character other than the marker's, contains no such marker.
proof fn lemma_no_marker_elsewhere(s: Seq<char>, marker: Seq<char>)
    requires
        marker.len() >= 2,
        marker[0] == '[',
        forall|p: int| 1 <= p < s.len() ==> s[p] != '[',
        s.len() < 2 || s[1] != marker[1],
    ensures
        !contains_pat(s, marker),
{
    if contains_pat(s, marker) {
        let i = choose|i: int| pat_at(s, marker, i);
        assert(s[i + 0] == marker[0]);
        assert(s[i + 1] == marker[1]);
        assert(i == 0);
    }
}

/// Law, on the canonical join line: a whole line of the shape
/// `[JOIN] user joined`, with a user of word characters, parses to a join
/// record with exactly that user.
pub proof fn lemma_parse_join_line(user: Seq<char>)
    requires
        user.len() >= 1,
        forall|j: int| 0 <= j < user.len() ==> is_word_char(user[j]),
    ensures
        spec_parse(join_prefix() + user + joined_suffix()) == Some(LogRecordView::Join(user)),
{
    let s = join_prefix() + user + joined_suffix();
    let u = user.len() as int;
    assert(forall|j: int| 0 <= j < 7 ==> s[j] == join_prefix()[j]);
    assert(forall|j: int| 0 <= j < u ==> s[7 + j] == user[j]);
    assert(forall|j: int| 0 <= j < 7 ==> s[7 + u + j] == joined_suffix()[j]);
    lemma_bracket_only_at_front(s, join_prefix(), user, joined_suffix());
    lemma_no_marker_elsewhere(s, chat_marker());
    assert(pat_at(s, join_prefix(), 0));
    lemma_word_run_exact(s, 7, u);
    assert(pat_at(s, joined_suffix(), 7 + u));
    assert(ev_match_at(s, join_prefix(), joined_suffix(), 0));
    assert(ev_user(s, join_prefix(), 0) =~= user);
    lemma_parse_join(s, 0);
}

/// Law, on the canonical leave line: a whole line of the shape
/// `[LEAVE] user left`, with a user of word characters, parses to a leave
/// record with exactly that user.
pub proof fn lemma_parse_leave_line(user: Seq<char>)
    requires
        user.len() >= 1,
        forall|j: int| 0 <= j < user.len() ==> is_word_char(user[j]),
    ensures
        spec_parse(leave_prefix() + user + left_suffix()) == Some(LogRecordView::Leave(user)),
{
    let s = leave_prefix() + user + left_suffix();
    let u = user.len() as int;
    assert(forall|j: int| 0 <= j < 8 ==> s[j] == leave_prefix()[j]);
    assert(forall|j: int| 0 <= j < u ==> s[8 + j] == user[j]);
    assert(forall|j: int| 0 <= j < 5 ==> s[8 + u + j] == left_suffix()[j]);
    lemma_bracket_only_at_front(s, leave_prefix(), user, left_suffix());
    lemma_no_marker_elsewhere(s, chat_marker());
    lemma_no_marker_elsewhere(s, join_marker());
    assert(pat_at(s, leave_prefix(), 0));
    lemma_word_run_exact(s, 8, u);
    assert(pat_at(s, left_suffix(), 8 + u));
    assert(ev_match_at(s, leave_prefix(), left_suffix(), 0));
    assert(ev_user(s, leave_prefix(), 0) =~= user);
    lemma_parse_leave(s, 0);
}

} // verus!
