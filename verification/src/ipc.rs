//! The local control protocol: one newline-terminated command per
//! connection, answered with one newline-terminated reply.

use vstd::prelude::*;
use vstd::std_specs::iter::IteratorSpec;

verus! {

broadcast use vstd::string::group_string_axioms;

/// File name of the overlay's local socket, placed in the temporary directory.
pub const SOCKET_NAME: &'static str = "twitch-overlay.sock";

/// Commands that can be sent to the running overlay.
#[derive(Clone, Copy, Debug, PartialEq, Eq, Structural)]
pub enum Command {
    /// Flip click-through.
    Toggle,
    /// Turn click-through on.
    Enable,
    /// Turn click-through off.
    Disable,
    /// Show the overlay.
    Show,
    /// Hide the overlay.
    Hide,
    /// Reload the page.
    Reload,
    /// Quit the overlay.
    Quit,
}

/// What one line received on the socket asks for.
#[derive(Clone, Copy, Debug, PartialEq, Eq, Structural)]
pub enum Request {
    /// `ping`: a connection test, answered at once.
    Ping,
    /// One of the commands, to be forwarded to the overlay.
    Run(Command),
    /// Anything else.
    Unknown,
}

/// The answer written back on the connection.
#[derive(Clone, Copy, Debug, PartialEq, Eq, Structural)]
pub enum Reply {
    /// `pong`: the answer to `ping`.
    Pong,
    /// `ok`: the command was handed to the overlay.
    Accepted,
    /// `error`: the command could not be handed to the overlay.
    Failed,
    /// `unknown`: the line is not a command.
    Unknown,
}

/// Unicode `White_Space`, the characters that `str::trim` removes.
pub open spec fn is_white_space(c: char) -> bool {
    let u = c as u32;
    ||| 0x09 <= u <= 0x0D
    ||| u == 0x20
    ||| u == 0x85
    ||| u == 0xA0
    ||| u == 0x1680
    ||| 0x2000 <= u <= 0x200A
    ||| u == 0x2028
    ||| u == 0x2029
    ||| u == 0x202F
    ||| u == 0x205F
    ||| u == 0x3000
}

/// `s` without its leading white space.
pub open spec fn trim_start(s: Seq<char>) -> Seq<char>
    decreases s.len(),
{
    if s.len() > 0 && is_white_space(s[0]) {
        trim_start(s.drop_first())
    } else {
        s
    }
}

/// `s` without its trailing white space.
pub open spec fn trim_end(s: Seq<char>) -> Seq<char>
    decreases s.len(),
{
    if s.len() > 0 && is_white_space(s.last()) {
        trim_end(s.drop_last())
    } else {
        s
    }
}

/// `s` without leading and trailing white space.
pub open spec fn trimmed(s: Seq<char>) -> Seq<char> {
    trim_end(trim_start(s))
}

/// The request that a line stands for, once its surrounding white space
/// is removed. Command words are lower case and matched exactly.
pub open spec fn request_of(t: Seq<char>) -> Request {
    if t == "ping"@ {
        Request::Ping
    } else if t == "toggle"@ {
        Request::Run(Command::Toggle)
    } else if t == "enable"@ {
        Request::Run(Command::Enable)
    } else if t == "disable"@ {
        Request::Run(Command::Disable)
    } else if t == "show"@ {
        Request::Run(Command::Show)
    } else if t == "hide"@ {
        Request::Run(Command::Hide)
    } else if t == "reload"@ {
        Request::Run(Command::Reload)
    } else if t == "quit"@ {
        Request::Run(Command::Quit)
    } else {
        Request::Unknown
    }
}

/// The request that a received line stands for.
pub open spec fn request_for_line(line: Seq<char>) -> Request {
    request_of(trimmed(line))
}

/// The reply owed to a request; `delivered` tells whether a command was
/// handed to the overlay (it plays no part for `ping` and unknown lines).
pub open spec fn reply_of(request: Request, delivered: bool) -> Reply {
    match request {
        Request::Ping => Reply::Pong,
        Request::Run(_) => if delivered {
            Reply::Accepted
        } else {
            Reply::Failed
        },
        Request::Unknown => Reply::Unknown,
    }
}

/// The text sent on the wire for a reply.
pub open spec fn reply_text(reply: Reply) -> Seq<char> {
    match reply {
        Reply::Pong => "pong\n"@,
        Reply::Accepted => "ok\n"@,
        Reply::Failed => "error\n"@,
        Reply::Unknown => "unknown\n"@,
    }
}

fn white_space(c: char) -> (b: bool)
    ensures
        b == is_white_space(c),
{
    let u = c as u32;
    (0x09 <= u && u <= 0x0D) || u == 0x20 || u == 0x85 || u == 0xA0 || u == 0x1680 || (0x2000
        <= u && u <= 0x200A) || u == 0x2028 || u == 0x2029 || u == 0x202F || u == 0x205F || u
        == 0x3000
}

/// The characters of a line, in order.
fn chars_of(line: &str) -> (v: Vec<char>)
    ensures
        v@ == line@,
{
    let mut it = line.chars();
    let mut v: Vec<char> = Vec::new();
    loop
        invariant
            v@ + it.remaining() == line@,
        ensures
            v@ == line@,
        decreases line@.len() - v@.len(),
    {
        match it.next() {
            Some(c) => {
                v.push(c);
            },
            None => {
                assert(v@ + it.remaining() =~= v@);
                break;
            },
        }
    }
    v
}


/// Whether `v[start..end]` holds exactly the characters of `word`.
fn same_chars(v: &Vec<char>, start: usize, end: usize, word: &str) -> (b: bool)
    requires
        start <= end <= v@.len(),
    ensures
        b == (v@.subrange(start as int, end as int) == word@),
{
    let n = word.unicode_len();
    if end - start != n {
        return false;
    }
    let mut i: usize = 0;
    while i < n
        invariant
            n == word@.len(),
            start <= end <= v@.len(),
            end - start == n,
            i <= n,
            forall|j: int| 0 <= j < i ==> v@[start + j] == word@[j],
        decreases n - i,
    {
        if v[start + i] != word.get_char(i) {
            assert(v@.subrange(start as int, end as int)[i as int] != word@[i as int]);
            return false;
        }
        i = i + 1;
    }
    assert(v@.subrange(start as int, end as int) =~= word@);
    true
}

/// Finds where the text of `v` begins and ends once surrounding white
/// space is removed.
fn trim_bounds(v: &Vec<char>) -> (r: (usize, usize))
    ensures
        r.0 <= r.1 <= v@.len(),
        v@.subrange(r.0 as int, r.1 as int) == trimmed(v@),
{
    let len = v.len();
    let mut start: usize = 0;
    assert(v@.subrange(0, len as int) =~= v@);
    while start < len && white_space(v[start])
        invariant
            len == v@.len(),
            start <= len,
            trim_start(v@) == trim_start(v@.subrange(start as int, len as int)),
        decreases len - start,
    {
        assert(v@.subrange(start as int, len as int).drop_first() =~= v@.subrange(
            start + 1,
            len as int,
        ));
        start = start + 1;
    }
    let mut end: usize = len;
    while end > start && white_space(v[end - 1])
        invariant
            len == v@.len(),
            start <= end <= len,
            trim_start(v@) == v@.subrange(start as int, len as int),
            trimmed(v@) == trim_end(v@.subrange(start as int, end as int)),
        decreases end - start,
    {
        assert(v@.subrange(start as int, end as int).drop_last() =~= v@.subrange(
            start as int,
            end - 1,
        ));
        end = end - 1;
    }
    (start, end)
}

/// Reads the request in one line received on the socket: the line is
/// trimmed of surrounding white space (so the terminating newline does
/// not matter) and matched against the command words.
pub fn parse_request(line: &str) -> (r: Request)
    ensures
        r == request_for_line(line@),
{
    let v = chars_of(line);
    let (s, e) = trim_bounds(&v);
    if same_chars(&v, s, e, "ping") {
        Request::Ping
    } else if same_chars(&v, s, e, "toggle") {
        Request::Run(Command::Toggle)
    } else if same_chars(&v, s, e, "enable") {
        Request::Run(Command::Enable)
    } else if same_chars(&v, s, e, "disable") {
        Request::Run(Command::Disable)
    } else if same_chars(&v, s, e, "show") {
        Request::Run(Command::Show)
    } else if same_chars(&v, s, e, "hide") {
        Request::Run(Command::Hide)
    } else if same_chars(&v, s, e, "reload") {
        Request::Run(Command::Reload)
    } else if same_chars(&v, s, e, "quit") {
        Request::Run(Command::Quit)
    } else {
        Request::Unknown
    }
}

impl Request {
    /// The command to forward to the overlay, if the request carries one;
    /// `ping` and unknown lines forward nothing.
    pub fn command(&self) -> (c: Option<Command>)
        ensures
            c == (match *self {
                Request::Run(cmd) => Some(cmd),
                _ => None,
            }),
    {
        match *self {
            Request::Run(cmd) => Some(cmd),
            _ => None,
        }
    }
}

/// The reply to a request. For a command, `delivered` tells whether it
/// was handed to the overlay; for `ping` and unknown lines it is ignored.
pub fn reply_for(request: Request, delivered: bool) -> (r: Reply)
    ensures
        r == reply_of(request, delivered),
        request is Run ==> (r == Reply::Accepted <==> delivered),
        request is Run ==> (r == Reply::Failed <==> !delivered),
        request == Request::Ping ==> r == Reply::Pong,
        request == Request::Unknown ==> r == Reply::Unknown,
{
    match request {
        Request::Ping => Reply::Pong,
        Request::Run(_) => if delivered {
            Reply::Accepted
        } else {
            Reply::Failed
        },
        Request::Unknown => Reply::Unknown,
    }
}

impl Reply {
    /// The newline-terminated text written back for this reply.
    pub fn text(&self) -> (t: &'static str)
        ensures
            t@ == reply_text(*self),
            *self == Reply::Pong ==> t@ == "pong\n"@,
            *self == Reply::Accepted ==> t@ == "ok\n"@,
            *self == Reply::Failed ==> t@ == "error\n"@,
            *self == Reply::Unknown ==> t@ == "unknown\n"@,
    {
        match *self {
            Reply::Pong => "pong\n",
            Reply::Accepted => "ok\n",
            Reply::Failed => "error\n",
            Reply::Unknown => "unknown\n",
        }
    }
}

/// Every character of `s` is white space.
pub open spec fn all_white_space(s: Seq<char>) -> bool {
    forall|i: int| 0 <= i < s.len() ==> is_white_space(#[trigger] s[i])
}

proof fn lemma_trim_start_skips_white_prefix(p: Seq<char>, x: Seq<char>)
    requires
        all_white_space(p),
    ensures
        trim_start(p + x) == trim_start(x),
    decreases p.len(),
{
    if p.len() == 0 {
        assert(p + x =~= x);
    } else {
        assert((p + x)[0] == p[0]);
        assert((p + x).drop_first() =~= p.drop_first() + x);
        lemma_trim_start_skips_white_prefix(p.drop_first(), x);
    }
}

proof fn lemma_trim_end_skips_white_suffix(y: Seq<char>, q: Seq<char>)
    requires
        all_white_space(q),
    ensures
        trim_end(y + q) == trim_end(y),
    decreases q.len(),
{
    if q.len() == 0 {
        assert(y + q =~= y);
    } else {
        assert((y + q).last() == q.last());
        assert((y + q).drop_last() =~= y + q.drop_last());
        lemma_trim_end_skips_white_suffix(y, q.drop_last());
    }
}

proof fn lemma_trim_start_of_concat(x: Seq<char>, q: Seq<char>)
    ensures
        trim_start(x + q) == (if trim_start(x).len() > 0 {
            trim_start(x) + q
        } else {
            trim_start(q)
        }),
    decreases x.len(),
{
    if x.len() == 0 {
        assert(x + q =~= q);
    } else if is_white_space(x[0]) {
        assert((x + q)[0] == x[0]);
        assert((x + q).drop_first() =~= x.drop_first() + q);
        lemma_trim_start_of_concat(x.drop_first(), q);
    } else {
        assert((x + q)[0] == x[0]);
    }
}

proof fn lemma_trim_start_of_white(q: Seq<char>)
    requires
        all_white_space(q),
    ensures
        trim_start(q).len() == 0,
    decreases q.len(),
{
    if q.len() > 0 {
        lemma_trim_start_of_white(q.drop_first());
    }
}

/// White space around a line never changes what it asks for: a command
/// word is recognized with or without a terminating newline, leading
/// blanks or trailing blanks.
pub proof fn lemma_surrounding_white_space_ignored(p: Seq<char>, line: Seq<char>, q: Seq<char>)
    requires
        all_white_space(p),
        all_white_space(q),
    ensures
        trimmed(p + line + q) == trimmed(line),
        request_for_line(p + line + q) == request_for_line(line),
{
    assert(p + line + q =~= p + (line + q));
    lemma_trim_start_skips_white_prefix(p, line + q);
    lemma_trim_start_of_concat(line, q);
    if trim_start(line).len() > 0 {
        lemma_trim_end_skips_white_suffix(trim_start(line), q);
    } else {
        lemma_trim_start_of_white(q);
    }
    assert(trimmed(p + line + q) =~= trimmed(line));
}

/// The word that asks for a command on the socket.
pub open spec fn command_word(command: Command) -> Seq<char> {
    match command {
        Command::Toggle => "toggle"@,
        Command::Enable => "enable"@,
        Command::Disable => "disable"@,
        Command::Show => "show"@,
        Command::Hide => "hide"@,
        Command::Reload => "reload"@,
        Command::Quit => "quit"@,
    }
}

/// Each command's word, alone on a line as a controller sends it, asks
/// for exactly that command, and `ping` asks for a ping; so the words
/// of different commands never clash.
pub proof fn lemma_command_words_recognized(command: Command)
    ensures
        request_for_line(command_word(command) + "\n"@) == Request::Run(command),
        request_for_line("ping\n"@) == Request::Ping,
{
    reveal_strlit("\n");
    reveal_strlit("ping");
    reveal_strlit("ping\n");
    reveal_strlit("toggle");
    reveal_strlit("enable");
    reveal_strlit("disable");
    reveal_strlit("show");
    reveal_strlit("hide");
    reveal_strlit("reload");
    reveal_strlit("quit");
    let nl = "\n"@;
    assert(all_white_space(nl));
    assert(all_white_space(Seq::<char>::empty()));
    let w = command_word(command);
    lemma_surrounding_white_space_ignored(Seq::empty(), w, nl);
    assert(Seq::<char>::empty() + w =~= w);
    lemma_surrounding_white_space_ignored(Seq::empty(), "ping"@, nl);
    assert(Seq::<char>::empty() + "ping"@ =~= "ping"@);
    assert("ping"@ + nl =~= "ping\n"@);
    assert(trim_start(w) == w);
    assert(trim_end(w) == w);
    assert(trim_start("ping"@) == "ping"@);
    assert(trim_end("ping"@) == "ping"@);
}

/// Every reply is a single line: non-empty, ending in a newline, with no
/// other newline in it.
pub proof fn lemma_reply_is_one_line(reply: Reply)
    ensures
        reply_text(reply).len() > 0,
        reply_text(reply).last() == '\n',
        forall|i: int| 0 <= i < reply_text(reply).len() - 1 ==> reply_text(reply)[i] != '\n',
{
    reveal_strlit("pong\n");
    reveal_strlit("ok\n");
    reveal_strlit("error\n");
    reveal_strlit("unknown\n");
}

/// A command's reply tells only whether the command was handed to the
/// overlay: every command gets the same reply for the same outcome,
/// `ok` when it was handed over and `error` when it was not, and the two
/// differ; `ping` and unknown lines get their reply whatever the outcome.
pub proof fn lemma_command_reply_tells_delivery(c1: Command, c2: Command, delivered: bool)
    ensures
        reply_of(Request::Run(c1), delivered) == reply_of(Request::Run(c2), delivered),
        reply_of(Request::Run(c1), true) == Reply::Accepted,
        reply_of(Request::Run(c1), false) == Reply::Failed,
        reply_of(Request::Run(c1), true) != reply_of(Request::Run(c1), false),
        reply_of(Request::Ping, delivered) == Reply::Pong,
        reply_of(Request::Unknown, delivered) == Reply::Unknown,
{
}

/// The reply texts are the protocol's words, and different replies are
/// told apart on the wire.
pub proof fn lemma_reply_texts_distinct(a: Reply, b: Reply)
    ensures
        a != b ==> reply_text(a) != reply_text(b),
        reply_text(Reply::Pong) == "pong\n"@,
        reply_text(Reply::Accepted) == "ok\n"@,
        reply_text(Reply::Failed) == "error\n"@,
        reply_text(Reply::Unknown) == "unknown\n"@,
{
    reveal_strlit("pong\n");
    reveal_strlit("ok\n");
    reveal_strlit("error\n");
    reveal_strlit("unknown\n");
    if a != b {
        let ta = reply_text(a);
        let tb = reply_text(b);
        if ta.len() == tb.len() {
            assert(ta[0] != tb[0]);
        }
    }
}

/// A line asks for `ping` exactly when its text, without surrounding
/// white space, is `ping`, and for a command exactly when that text is
/// the command's word; every other line is unknown.
pub proof fn lemma_request_only_from_its_word(line: Seq<char>, command: Command)
    ensures
        request_for_line(line) == Request::Ping <==> trimmed(line) == "ping"@,
        request_for_line(line) == Request::Run(command) <==> trimmed(line) == command_word(
            command,
        ),
        request_for_line(line) == Request::Unknown <==> (trimmed(line) != "ping"@ && forall|c: Command|
            trimmed(line) != #[trigger] command_word(c)),
{
    reveal_strlit("ping");
    reveal_strlit("toggle");
    reveal_strlit("enable");
    reveal_strlit("disable");
    reveal_strlit("show");
    reveal_strlit("hide");
    reveal_strlit("reload");
    reveal_strlit("quit");
    let t = trimmed(line);
    if request_for_line(line) == Request::Unknown {
        assert forall|c: Command| t != #[trigger] command_word(c) by {
            match c {
                Command::Toggle => {},
                Command::Enable => {},
                Command::Disable => {},
                Command::Show => {},
                Command::Hide => {},
                Command::Reload => {},
                Command::Quit => {},
            }
        }
    } else if request_for_line(line) != Request::Ping {
        let c = request_for_line(line)->Run_0;
        assert(t == command_word(c));
    }
    let w = command_word(command);
    assert("ping"@.len() == 4 && "toggle"@.len() == 6 && "enable"@.len() == 6);
    assert("disable"@.len() == 7 && "show"@.len() == 4 && "hide"@.len() == 4);
    assert("reload"@.len() == 6 && "quit"@.len() == 4);
    assert("toggle"@[0] != "enable"@[0] && "toggle"@[0] != "reload"@[0] && "enable"@[0]
        != "reload"@[0]);
    assert("ping"@[0] != "show"@[0] && "ping"@[0] != "hide"@[0] && "ping"@[0] != "quit"@[0]
        && "show"@[0] != "hide"@[0] && "show"@[0] != "quit"@[0] && "hide"@[0] != "quit"@[0]);
    match command {
        Command::Toggle => assert(request_of(w) == Request::Run(command)),
        Command::Enable => assert(request_of(w) == Request::Run(command)),
        Command::Disable => assert(request_of(w) == Request::Run(command)),
        Command::Show => assert(request_of(w) == Request::Run(command)),
        Command::Hide => assert(request_of(w) == Request::Run(command)),
        Command::Reload => assert(request_of(w) == Request::Run(command)),
        Command::Quit => assert(request_of(w) == Request::Run(command)),
    }
}

proof fn lemma_trim_start_index(s: Seq<char>) -> (a: int)
    ensures
        0 <= a <= s.len(),
        trim_start(s) == s.subrange(a, s.len() as int),
        all_white_space(s.subrange(0, a)),
        a < s.len() ==> !is_white_space(s[a]),
    decreases s.len(),
{
    if s.len() > 0 && is_white_space(s[0]) {
        let a1 = lemma_trim_start_index(s.drop_first());
        assert(s.drop_first().subrange(a1, s.drop_first().len() as int) =~= s.subrange(
            a1 + 1,
            s.len() as int,
        ));
        assert forall|i: int| 0 <= i < a1 + 1 implies is_white_space(
            #[trigger] s.subrange(0, a1 + 1)[i],
        ) by {
            if i > 0 {
                assert(s.drop_first().subrange(0, a1)[i - 1] == s[i]);
            }
        }
        a1 + 1
    } else {
        assert(s.subrange(0, s.len() as int) =~= s);
        0
    }
}

proof fn lemma_trim_end_index(s: Seq<char>) -> (b: int)
    ensures
        0 <= b <= s.len(),
        trim_end(s) == s.subrange(0, b),
        all_white_space(s.subrange(b, s.len() as int)),
        b > 0 ==> !is_white_space(s[b - 1]),
    decreases s.len(),
{
    if s.len() > 0 && is_white_space(s.last()) {
        let b1 = lemma_trim_end_index(s.drop_last());
        assert(s.drop_last().subrange(0, b1) =~= s.subrange(0, b1));
        assert forall|i: int| 0 <= i < s.len() - b1 implies is_white_space(
            #[trigger] s.subrange(b1, s.len() as int)[i],
        ) by {
            if b1 + i < s.len() - 1 {
                assert(s.drop_last().subrange(b1, s.drop_last().len() as int)[i] == s[b1 + i]);
            }
        }
        b1
    } else {
        assert(s.subrange(0, s.len() as int) =~= s);
        s.len() as int
    }
}

/// Trimming keeps the inner text of a line: it removes a run of white
/// space at each end and nothing else, and what is left neither begins
/// nor ends with white space.
pub proof fn lemma_trimmed_is_inner_text(s: Seq<char>)
    ensures
        exists|a: int, b: int|
            #![trigger s.subrange(a, b)]
            0 <= a <= b <= s.len() && trimmed(s) == s.subrange(a, b) && all_white_space(
                s.subrange(0, a),
            ) && all_white_space(s.subrange(b, s.len() as int)),
        trimmed(s).len() > 0 ==> !is_white_space(trimmed(s)[0]) && !is_white_space(
            trimmed(s).last(),
        ),
{
    let a = lemma_trim_start_index(s);
    let mid = s.subrange(a, s.len() as int);
    let b = lemma_trim_end_index(mid);
    assert(mid.subrange(0, b) =~= s.subrange(a, a + b));
    assert(mid.subrange(b, mid.len() as int) =~= s.subrange(a + b, s.len() as int));
    assert(trimmed(s) == s.subrange(a, a + b));
    if b > 0 {
        assert(trimmed(s)[0] == s[a]);
        assert(trimmed(s).last() == mid[b - 1]);
    }
}

} // verus!
