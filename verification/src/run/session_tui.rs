//! State of the live session view: the stream of session events, the transaction
//! groups built from validator log lines, and the scrolling of the log panel.
use vstd::prelude::*;
use vstd::string::StringSliceAdditionalSpecFns;
use crate::text::{
    chars_of, find, find_chars, in_set, is_digit, slice_chars, split_spec, split_chars,
    split_whitespace_chars, split_ws, string_from, trim_by, trim_set, views, push_chars, push_str,
    contains, contains_chars, lowercase_of, to_lowercase_chars, decimal, decimal_chars,
};

verus! {

/// The views of a sequence of strings.
pub open spec fn str_views(v: Seq<String>) -> Seq<Seq<char>> {
    v.map_values(|x: String| x@)
}

/// Whether every character of `s` is an ASCII digit.
pub open spec fn all_digits(s: Seq<char>) -> bool {
    forall|i: int| 0 <= i < s.len() ==> is_digit(#[trigger] s[i])
}

/// The last two characters of `s`, or all of it where it is shorter.
pub open spec fn last_two(s: Seq<char>) -> Seq<char> {
    if s.len() >= 2 {
        s.skip(s.len() - 2)
    } else {
        s
    }
}

/// `s` split at its first two colons, as `str::splitn(3, ':')` gives it.
pub open spec fn split_colon3(s: Seq<char>) -> Seq<Seq<char>> {
    match find(s, ":"@) {
        None => seq![s],
        Some(k1) => {
            let r = s.skip(k1 + 1);
            match find(r, ":"@) {
                None => seq![s.take(k1), r],
                Some(k2) => seq![s.take(k1), r.take(k2), r.skip(k2 + 1)],
            }
        },
    }
}

/// The `HH:MM:SS` time that one whitespace-separated token of a log line carries,
/// as in `[14:32:01]`, `14:32:01.123` or `T14:32:01`.
pub open spec fn timestamp_of_token(tok: Seq<char>) -> Option<Seq<char>> {
    let st = trim_by(tok, in_set(seq!['[', ']']));
    let parts = split_colon3(st);
    if parts.len() == 3 && all_digits(last_two(parts[0])) && parts[1].len() == 2 && all_digits(
        parts[1],
    ) {
        let sec = split_spec(parts[2], '.')[0];
        if sec.len() == 2 && all_digits(sec) {
            Some(last_two(parts[0]) + ":"@ + parts[1] + ":"@ + sec)
        } else {
            None
        }
    } else {
        None
    }
}

/// The first time found among tokens `i` to 2 of `toks`, or the empty string.
pub open spec fn timestamp_from(toks: Seq<Seq<char>>, i: int) -> Seq<char>
    decreases 3 - i,
{
    if i < 0 || i >= 3 || i >= toks.len() {
        Seq::empty()
    } else {
        match timestamp_of_token(toks[i]) {
            Some(t) => t,
            None => timestamp_from(toks, i + 1),
        }
    }
}

/// The short time shown for a log line: taken from one of its first three tokens.
pub open spec fn timestamp_spec(line: Seq<char>) -> Seq<char> {
    timestamp_from(split_ws(line), 0)
}

fn all_digits_exec(s: &[char]) -> (b: bool)
    ensures
        b == all_digits(s@),
{
    let mut i: usize = 0;
    while i < s.len()
        invariant
            i <= s.len(),
            forall|k: int| 0 <= k < i ==> is_digit(#[trigger] s@[k]),
        decreases s.len() - i,
    {
        if !('0' <= s[i] && s[i] <= '9') {
            return false;
        }
        i = i + 1;
    }
    true
}

fn last_two_exec(s: &[char]) -> (v: Vec<char>)
    ensures
        v@ == last_two(s@),
{
    if s.len() >= 2 {
        let v = slice_chars(s, s.len() - 2, s.len());
        assert(v@ =~= s@.skip(s@.len() - 2));
        v
    } else {
        let v = slice_chars(s, 0, s.len());
        assert(v@ =~= s@);
        v
    }
}

fn split_colon3_exec(s: &[char]) -> (r: Vec<Vec<char>>)
    ensures
        views(r@) == split_colon3(s@),
{
    let colon = chars_of(":");
    proof {
        reveal_strlit(":");
    }
    assert(colon@.len() == 1);
    let mut out: Vec<Vec<char>> = Vec::new();
    match find_chars(s, &colon) {
        None => {
            let all = slice_chars(s, 0, s.len());
            assert(all@ =~= s@);
            out.push(all);
            assert(views(out@) =~= seq![s@]);
        },
        Some(k1) => {
            assert(k1 + 1 <= s@.len());
            assert(s@.len() == s.len());
            let first = slice_chars(s, 0, k1);
            let r = slice_chars(s, k1 + 1, s.len());
            assert(r@ =~= s@.skip(k1 + 1));
            assert(first@ =~= s@.take(k1 as int));
            match find_chars(&r, &colon) {
                None => {
                    out.push(first);
                    out.push(r);
                    assert(views(out@) =~= split_colon3(s@));
                },
                Some(k2) => {
                    assert(k2 + 1 <= r@.len());
                    let second = slice_chars(&r, 0, k2);
                    let third = slice_chars(&r, k2 + 1, r.len());
                    assert(second@ =~= r@.take(k2 as int));
                    assert(third@ =~= r@.skip(k2 + 1));
                    out.push(first);
                    out.push(second);
                    out.push(third);
                    assert(views(out@) =~= split_colon3(s@));
                },
            }
        },
    }
    out
}

fn timestamp_of_token_exec(tok: &[char]) -> (r: Option<Vec<char>>)
    ensures
        r matches Some(t) ==> timestamp_of_token(tok@) == Some(t@),
        r is None ==> timestamp_of_token(tok@) is None,
{
    let brackets = vec!['[', ']'];
    assert(brackets@ =~= seq!['[', ']']);
    let st = trim_set(tok, &brackets);
    let parts = split_colon3_exec(&st);
    if parts.len() != 3 {
        return None;
    }
    assert(views(parts@)[0] == parts@[0]@);
    assert(views(parts@)[1] == parts@[1]@);
    assert(views(parts@)[2] == parts@[2]@);
    let hours = last_two_exec(&parts[0]);
    if !(all_digits_exec(&hours) && parts[1].len() == 2 && all_digits_exec(&parts[1])) {
        return None;
    }
    let pieces = split_chars(&parts[2], '.');
    proof {
        crate::text::lemma_split_len(parts@[2]@, '.');
    }
    assert(views(pieces@)[0] == pieces@[0]@);
    let sec = &pieces[0];
    if sec.len() == 2 && all_digits_exec(sec) {
        let mut out: Vec<char> = Vec::new();
        push_chars(&mut out, &hours);
        out.push(':');
        push_chars(&mut out, &parts[1]);
        out.push(':');
        push_chars(&mut out, sec);
        proof {
            reveal_strlit(":");
        }
        assert(out@ =~= last_two(parts@[0]@) + ":"@ + parts@[1]@ + ":"@ + sec@);
        Some(out)
    } else {
        None
    }
}

/// Extracts a short timestamp like `14:32:01` from one of the first three tokens
/// of a log line; the empty string where none has one.
pub fn extract_timestamp(line: &str) -> (r: String)
    ensures
        r@ == timestamp_spec(line@),
{
    let c = chars_of(line);
    let toks = split_whitespace_chars(&c);
    let mut i: usize = 0;
    while i < 3 && i < toks.len()
        invariant
            i <= 3,
            views(toks@) == split_ws(line@),
            timestamp_spec(line@) == timestamp_from(views(toks@), i as int),
        decreases 3 - i,
    {
        assert(views(toks@)[i as int] == toks@[i as int]@);
        match timestamp_of_token_exec(&toks[i]) {
            Some(t) => {
                return string_from(&t);
            },
            None => {},
        }
        i = i + 1;
    }
    String::new()
}


/// Whether `c` belongs to the base58 alphabet of transaction signatures.
pub open spec fn is_base58(c: char) -> bool {
    ||| ('1' <= c && c <= '9')
    ||| ('A' <= c && c <= 'H')
    ||| ('J' <= c && c <= 'N')
    ||| ('P' <= c && c <= 'Z')
    ||| ('a' <= c && c <= 'k')
    ||| ('m' <= c && c <= 'z')
}

/// The punctuation stripped from tokens before they are read as signatures.
pub open spec fn signature_punct() -> Seq<char> {
    seq!['(', ')', ',', ':']
}

/// The shortened signature that a token carries: a base58 word of 43 to 88
/// characters, shown as its first 6 and last 5 characters around `...`.
pub open spec fn signature_of_token(tok: Seq<char>) -> Option<Seq<char>> {
    let t = trim_by(tok, in_set(signature_punct()));
    if 43 <= t.len() <= 88 && (forall|i: int| 0 <= i < t.len() ==> is_base58(#[trigger] t[i])) {
        Some(t.take(6) + "..."@ + t.skip(t.len() - 5))
    } else {
        None
    }
}

/// The first signature among tokens `i` on, if any.
pub open spec fn signature_from(toks: Seq<Seq<char>>, i: int) -> Option<Seq<char>>
    decreases toks.len() - i,
{
    if i < 0 || i >= toks.len() {
        None
    } else {
        match signature_of_token(toks[i]) {
            Some(t) => Some(t),
            None => signature_from(toks, i + 1),
        }
    }
}

/// The signature shown for a log line: the first base58 signature among its tokens,
/// or else its first 40 characters.
pub open spec fn signature_spec(line: Seq<char>) -> Seq<char> {
    match signature_from(split_ws(line), 0) {
        Some(t) => t,
        None => if line.len() <= 40 {
            line
        } else {
            line.take(40)
        },
    }
}

fn is_base58_exec(c: char) -> (b: bool)
    ensures
        b == is_base58(c),
{
    ('1' <= c && c <= '9') || ('A' <= c && c <= 'H') || ('J' <= c && c <= 'N') || ('P' <= c && c
        <= 'Z') || ('a' <= c && c <= 'k') || ('m' <= c && c <= 'z')
}

fn signature_of_token_exec(tok: &[char]) -> (r: Option<Vec<char>>)
    ensures
        r matches Some(t) ==> signature_of_token(tok@) == Some(t@),
        r is None ==> signature_of_token(tok@) is None,
{
    let punct = vec!['(', ')', ',', ':'];
    assert(punct@ =~= signature_punct());
    let t = trim_set(tok, &punct);
    if t.len() < 43 || t.len() > 88 {
        return None;
    }
    let mut i: usize = 0;
    while i < t.len()
        invariant
            i <= t.len(),
            t@ == trim_by(tok@, in_set(signature_punct())),
            forall|k: int| 0 <= k < i ==> is_base58(#[trigger] t@[k]),
        decreases t.len() - i,
    {
        if !is_base58_exec(t[i]) {
            assert(!is_base58(t@[i as int]));
            return None;
        }
        i = i + 1;
    }
    let mut out = slice_chars(&t, 0, 6);
    push_str(&mut out, "...");
    let tail = slice_chars(&t, t.len() - 5, t.len());
    push_chars(&mut out, &tail);
    assert(out@ =~= t@.take(6) + "..."@ + t@.skip(t@.len() - 5));
    Some(out)
}

/// Extracts a transaction signature (a base58 word of 43 to 88 characters) from a
/// log line, shortened for display; falls back to the first 40 characters of the line.
pub fn extract_signature(line: &str) -> (r: String)
    ensures
        r@ == signature_spec(line@),
{
    let c = chars_of(line);
    let toks = split_whitespace_chars(&c);
    let mut i: usize = 0;
    while i < toks.len()
        invariant
            i <= toks.len(),
            views(toks@) == split_ws(line@),
            signature_from(split_ws(line@), 0) == signature_from(views(toks@), i as int),
        decreases toks.len() - i,
    {
        assert(views(toks@)[i as int] == toks@[i as int]@);
        match signature_of_token_exec(&toks[i]) {
            Some(t) => {
                return string_from(&t);
            },
            None => {},
        }
        i = i + 1;
    }
    let n = if c.len() <= 40 {
        c.len()
    } else {
        40
    };
    let head = slice_chars(&c, 0, n);
    assert(c@.len() <= 40 ==> head@ =~= c@);
    assert(c@.len() > 40 ==> head@ =~= c@.take(40));
    string_from(&head)
}

/// `s` cut into pieces of `w` characters, the last one holding what remains.
pub open spec fn chunks(s: Seq<char>, w: nat) -> Seq<Seq<char>>
    decreases s.len(),
{
    if w == 0 || s.len() <= w {
        seq![s]
    } else {
        seq![s.take(w as int)] + chunks(s.skip(w as int), w)
    }
}

/// The visual rows of a log line in a panel `width` characters wide: the line cut
/// into pieces of `width` characters; a zero width or an empty line gives the line
/// itself as its only row.
pub open spec fn split_line_spec(line: Seq<char>, width: nat) -> Seq<Seq<char>> {
    chunks(line, width)
}

/// Splits `line` into pieces of exactly `width` characters (the last one holding
/// what remains); an empty line, or a zero width, gives the line itself.
pub fn split_line_at(line: &str, width: usize) -> (r: Vec<String>)
    ensures
        str_views(r@) == split_line_spec(line@, width as nat),
{
    let c = chars_of(line);
    let mut out: Vec<String> = Vec::new();
    if width == 0 || c.len() <= width {
        out.push(string_from(&c));
        assert(str_views(out@) =~= seq![line@]);
        return out;
    }
    let mut pos: usize = 0;
    assert(c@.skip(0) =~= c@);
    assert(str_views(out@) =~= Seq::<Seq<char>>::empty());
    loop
        invariant
            pos < c@.len(),
            c@ == line@,
            width > 0,
            str_views(out@) + chunks(c@.skip(pos as int), width as nat) == chunks(c@, width as nat),
        decreases c@.len() - pos,
    {
        let ghost before = str_views(out@);
        if c.len() - pos <= width {
            let piece = slice_chars(&c, pos, c.len());
            assert(piece@ =~= c@.skip(pos as int));
            out.push(string_from(&piece));
            assert(str_views(out@) =~= before + chunks(c@.skip(pos as int), width as nat));
            assert(before + chunks(c@.skip(pos as int), width as nat) == chunks(c@, width as nat));
            return out;
        }
        let piece = slice_chars(&c, pos, pos + width);
        let ghost rest = c@.skip(pos as int);
        assert(piece@ =~= rest.take(width as int));
        assert(rest.skip(width as int) =~= c@.skip(pos + width));
        out.push(string_from(&piece));
        assert(str_views(out@) =~= before.push(piece@));
        assert(before.push(piece@) + chunks(c@.skip(pos + width), width as nat) =~= before
            + chunks(rest, width as nat));
        pos = pos + width;
    }
}

/// The number of visual rows that a line of `len` characters takes in a panel
/// `width` characters wide (at least one).
pub open spec fn rows_for(len: nat, width: nat) -> nat {
    let w = if width == 0 {
        1
    } else {
        width
    };
    if len == 0 {
        1
    } else {
        ((len + w - 1) / w as int) as nat
    }
}

/// The number of visual rows that `line` takes in a panel `width` characters wide.
pub fn line_visual_rows(line: &str, width: usize) -> (r: usize)
    requires
        line@.len() + (if width == 0 {
            1
        } else {
            width
        }) <= usize::MAX,
    ensures
        r == rows_for(line@.len(), width as nat),
{
    let w = if width == 0 {
        1
    } else {
        width
    };
    let c = chars_of(line);
    let len = c.len();
    assert(len == line@.len());
    if len == 0 {
        1
    } else {
        (len + w - 1) / w
    }
}

proof fn lemma_chunks_count(s: Seq<char>, w: nat)
    requires
        w > 0,
        s.len() > 0,
    ensures
        chunks(s, w).len() == rows_for(s.len(), w),
    decreases s.len(),
{
    if s.len() <= w {
        assert((s.len() + w - 1) / w as int == 1) by (nonlinear_arith)
            requires
                0 < s.len() <= w,
        ;
    } else {
        lemma_chunks_count(s.skip(w as int), w);
        let n = s.len() as int;
        let wi = w as int;
        assert((n + wi - 1) / wi == 1 + (n - wi + wi - 1) / wi) by {
            vstd::arithmetic::div_mod::lemma_div_plus_one(n - wi + wi - 1, wi);
        }
    }
}

/// The rows that the panel splits a line into are as many as the scrolling arithmetic
/// counts for it: for a panel at least one character wide, `split_line_at` yields
/// `line_visual_rows` pieces.
pub proof fn lemma_rows_match_split(line: Seq<char>, width: nat)
    requires
        width > 0,
    ensures
        split_line_spec(line, width).len() == rows_for(line.len(), width),
{
    if line.len() > 0 {
        lemma_chunks_count(line, width);
    }
}

/// The concatenation of a sequence of pieces.
pub open spec fn concat_all(p: Seq<Seq<char>>) -> Seq<char>
    decreases p.len(),
{
    if p.len() == 0 {
        Seq::empty()
    } else {
        p[0] + concat_all(p.drop_first())
    }
}

/// Splitting a line into visual rows loses nothing: the rows put together give the
/// line back.
pub proof fn lemma_split_line_concat(line: Seq<char>, width: nat)
    ensures
        concat_all(split_line_spec(line, width)) == line,
    decreases line.len(),
{
    if width == 0 || line.len() <= width {
        assert(seq![line].drop_first() =~= Seq::<Seq<char>>::empty());
        assert(concat_all(Seq::<Seq<char>>::empty()) == Seq::<char>::empty());
        assert(line + Seq::<char>::empty() =~= line);
    } else {
        let rest = line.skip(width as int);
        lemma_split_line_concat(rest, width);
        let p = seq![line.take(width as int)] + chunks(rest, width);
        assert(p.drop_first() =~= chunks(rest, width));
        assert(p[0] == line.take(width as int));
        assert(split_line_spec(line, width) == p);
        assert(line.take(width as int) + rest =~= line);
    }
}


/// An event of the session's status and log stream.
#[derive(Debug)]
pub enum StreamEvent {
    Pending(String),
    Running { url: String, expires_at: i64 },
    Completed { error: String },
    Log(String),
    Done,
    Error(String),
}

/// A transaction group: the log line that opened it and the lines that followed.
#[derive(Debug)]
pub struct Transaction {
    /// The log line that opened this group.
    pub header: String,
    /// Short timestamp taken from the header line, e.g. `14:32:01`.
    pub timestamp: String,
    /// Signature taken from the header line, or its first characters.
    pub signature: String,
    /// The log lines that belong to this group.
    pub detail_lines: Vec<String>,
    pub expanded: bool,
}

/// A row of the transactions list: a group's header or one of its detail lines.
#[derive(Clone, Copy, Debug, PartialEq, Eq, Structural)]
pub enum FlatItem {
    TxHeader(usize),
    TxDetail(usize, usize),
}

/// The status shown in the session header.
#[derive(Debug)]
pub enum AppStatus {
    Connecting,
    Pending(String),
    Running,
    Completed { error: String },
    StreamError(String),
}

/// The panel that has the keyboard focus.
#[derive(Clone, Copy, Debug, PartialEq, Eq, Structural)]
pub enum Focus {
    Transactions,
    Logs,
}

/// The state of the session view.
#[derive(Debug)]
pub struct SessionApp {
    pub rpc_url: String,
    pub expires_at: Option<i64>,
    pub status: AppStatus,
    pub transactions: Vec<Transaction>,
    /// The selected row of the transactions list.
    pub selected: Option<usize>,
    pub logs: Vec<String>,
    pub log_offset: usize,
    pub log_follow: bool,
    pub log_panel_height: usize,
    pub log_panel_width: usize,
    pub focus: Focus,
    pub url_copied: bool,
    pub stream_done: bool,
}

/// The rows that transaction `ti` contributes to the transactions list.
pub open spec fn tx_items(ti: int, tx: Transaction) -> Seq<FlatItem> {
    seq![FlatItem::TxHeader(ti as usize)] + if tx.expanded {
        Seq::new(tx.detail_lines@.len(), |di: int| FlatItem::TxDetail(ti as usize, di as usize))
    } else {
        Seq::empty()
    }
}

/// The rows of the transactions list: each group's header, followed by its detail
/// lines where the group is expanded.
pub open spec fn flat_spec(txs: Seq<Transaction>) -> Seq<FlatItem>
    decreases txs.len(),
{
    if txs.len() == 0 {
        Seq::empty()
    } else {
        flat_spec(txs.drop_last()) + tx_items(txs.len() - 1, txs.last())
    }
}

/// The log lines held by the transaction groups, in order: each header followed by
/// its detail lines.
pub open spec fn tx_lines(txs: Seq<Transaction>) -> Seq<Seq<char>>
    decreases txs.len(),
{
    if txs.len() == 0 {
        Seq::empty()
    } else {
        tx_lines(txs.drop_last()) + seq![txs.last().header@] + str_views(
            txs.last().detail_lines@,
        )
    }
}

/// Whether a log line opens a new transaction group: a top-level program
/// invocation (`invoke [1]`), a `sendTransaction` line, or a line that mentions a
/// transaction signature in any case.
pub open spec fn is_tx_start(line: Seq<char>) -> bool {
    contains(line, "invoke [1]"@) || contains(line, "sendTransaction"@) || contains(
        lowercase_of(line),
        "transaction signature"@,
    )
}

/// What one call of `ingest_log` does: the line joins the transaction groups,
/// opening a new group (selected while the transactions panel has the focus) where it
/// starts a transaction or there is no group yet, and else becoming a detail line of
/// the last group; nothing else changes.
pub open spec fn ingested(a: SessionApp, line: String, b: SessionApp) -> bool {
    &&& header_same(a, b)
    &&& log_panel_same(a, b)
    &&& tx_ingested(a, line, b)
}

/// What taking in a log line does to the transactions panel: the line joins the
/// groups, opening a new group (selected while the panel has the focus) where it
/// starts a transaction or there is no group yet, and else becoming a detail line
/// of the last group; the focus stays.
pub open spec fn tx_ingested(a: SessionApp, line: String, b: SessionApp) -> bool {
    &&& b.focus == a.focus
    &&& tx_lines(b.transactions@) == tx_lines(a.transactions@).push(line@)
    &&& {
        let n = a.transactions@.len();
        if is_tx_start(line@) || n == 0 {
            &&& b.transactions@.len() == n + 1
            &&& b.transactions@.take(n as int) == a.transactions@
            &&& b.transactions@[n as int].header@ == line@
            &&& b.transactions@[n as int].timestamp@ == timestamp_spec(line@)
            &&& b.transactions@[n as int].signature@ == signature_spec(line@)
            &&& b.transactions@[n as int].detail_lines@.len() == 0
            &&& !b.transactions@[n as int].expanded
            &&& b.selected == if a.focus == Focus::Transactions {
                Some(n as usize)
            } else {
                a.selected
            }
        } else {
            &&& b.transactions@.len() == n
            &&& b.transactions@.take(n - 1) == a.transactions@.take(n - 1)
            &&& b.transactions@[n - 1].header == a.transactions@[n - 1].header
            &&& b.transactions@[n - 1].timestamp == a.transactions@[n - 1].timestamp
            &&& b.transactions@[n - 1].signature == a.transactions@[n - 1].signature
            &&& b.transactions@[n - 1].expanded == a.transactions@[n - 1].expanded
            &&& b.transactions@[n - 1].detail_lines@ == a.transactions@[n - 1].detail_lines@.push(line)
            &&& b.selected == a.selected
        }
    }
}

/// Only a top-level invocation (`invoke [1]`), a `sendTransaction` line or a line
/// that mentions a transaction signature (in any case) opens a new group, as does
/// the first line of all; any other line, such as a nested `invoke [2]`, joins the
/// last group as a detail line.
pub proof fn lemma_group_opening(a: SessionApp, line: String, b: SessionApp)
    requires
        tx_ingested(a, line, b),
    ensures
        a.transactions@.len() > 0 && !contains(line@, "invoke [1]"@) && !contains(
            line@,
            "sendTransaction"@,
        ) && !contains(lowercase_of(line@), "transaction signature"@) ==> {
            &&& b.transactions@.len() == a.transactions@.len()
            &&& b.transactions@.last().header == a.transactions@.last().header
            &&& b.transactions@.last().detail_lines@ == a.transactions@.last().detail_lines@.push(
                line,
            )
        },
        contains(line@, "invoke [1]"@) || contains(line@, "sendTransaction"@) || contains(
            lowercase_of(line@),
            "transaction signature"@,
        ) || a.transactions@.len() == 0 ==> {
            &&& b.transactions@.len() == a.transactions@.len() + 1
            &&& b.transactions@.last().header@ == line@
            &&& b.transactions@.last().detail_lines@.len() == 0
        },
{
}

/// The indices of the lines that open a transaction group when `lines` are taken
/// in one after another from no group at all: the first line, and each line that
/// starts a transaction.
pub open spec fn group_starts(lines: Seq<Seq<char>>) -> Seq<int>
    decreases lines.len(),
{
    if lines.len() == 0 {
        Seq::empty()
    } else {
        group_starts(lines.drop_last()) + if lines.len() == 1 || is_tx_start(lines.last()) {
            seq![lines.len() - 1]
        } else {
            Seq::empty()
        }
    }
}

/// Where each group's header sits among the lines that the groups hold.
pub open spec fn header_positions(txs: Seq<Transaction>) -> Seq<int> {
    Seq::new(txs.len(), |ti: int| tx_lines(txs.take(ti)).len() as int)
}

proof fn lemma_ingest_step(a: SessionApp, line: String, b: SessionApp, lines: Seq<Seq<char>>)
    requires
        ingested(a, line, b),
        a.focus == Focus::Transactions,
        tx_lines(a.transactions@) == lines,
        header_positions(a.transactions@) == group_starts(lines),
        lines.len() > 0 ==> a.transactions@.len() > 0 && a.selected == Some(
            (a.transactions@.len() - 1) as usize,
        ),
        lines.len() == 0 ==> a.transactions@.len() == 0,
    ensures
        b.focus == Focus::Transactions,
        tx_lines(b.transactions@) == lines.push(line@),
        header_positions(b.transactions@) == group_starts(lines.push(line@)),
        b.transactions@.len() > 0,
        b.selected == Some((b.transactions@.len() - 1) as usize),
{
    let at = a.transactions@;
    let bt = b.transactions@;
    let n = at.len();
    let l2 = lines.push(line@);
    assert(l2.drop_last() =~= lines);
    assert(l2.last() == line@);
    if is_tx_start(line@) || n == 0 {
        assert forall|ti: int| 0 <= ti < n implies bt.take(ti) == at.take(ti) by {
            assert(bt.take(ti) =~= bt.take(n as int).take(ti));
        }
        assert(bt.take(n as int) == at);
        assert(lines.len() == 0 ==> n == 0);
        assert(header_positions(bt) =~= header_positions(at).push(lines.len() as int));
        assert(group_starts(l2) =~= group_starts(lines).push(lines.len() as int));
    } else {
        assert(lines.len() > 0);
        assert forall|ti: int| 0 <= ti < n implies bt.take(ti) == at.take(ti) by {
            assert(bt.take(ti) =~= bt.take(n - 1).take(ti));
            assert(at.take(ti) =~= at.take(n - 1).take(ti));
        }
        assert(header_positions(bt) =~= header_positions(at));
        assert(group_starts(l2) =~= group_starts(lines));
    }
}

proof fn lemma_ingest_prefix(states: Seq<SessionApp>, lines: Seq<String>, k: int)
    requires
        states.len() == lines.len() + 1,
        0 <= k <= lines.len(),
        states[0].transactions@.len() == 0,
        states[0].focus == Focus::Transactions,
        forall|i: int| 0 <= i < lines.len() ==> ingested(#[trigger] states[i], lines[i], states[i + 1]),
    ensures
        states[k].focus == Focus::Transactions,
        tx_lines(states[k].transactions@) == str_views(lines).take(k),
        header_positions(states[k].transactions@) == group_starts(str_views(lines).take(k)),
        k > 0 ==> states[k].transactions@.len() > 0 && states[k].selected == Some(
            (states[k].transactions@.len() - 1) as usize,
        ),
        k == 0 ==> states[k].transactions@.len() == 0,
    decreases k,
{
    let lv = str_views(lines);
    if k == 0 {
        assert(tx_lines(states[0].transactions@) =~= lv.take(0));
        assert(header_positions(states[0].transactions@) =~= group_starts(lv.take(0)));
    } else {
        lemma_ingest_prefix(states, lines, k - 1);
        assert(ingested(states[k - 1], lines[k - 1], states[k]));
        lemma_ingest_step(states[k - 1], lines[k - 1], states[k], lv.take(k - 1));
        assert(lv.take(k - 1).push(lines[k - 1]@) =~= lv.take(k));
    }
}

/// Feeding log lines to `ingest_log` one after another, starting with no group and
/// the transactions panel focused (`states[i + 1]` is `states[i]` after line `i`),
/// keeps every line, in order, in the groups; a group opens exactly at the first line
/// and at each line that starts a transaction; and the newest group is selected.
pub proof fn lemma_ingest_sequence(states: Seq<SessionApp>, lines: Seq<String>)
    requires
        states.len() == lines.len() + 1,
        lines.len() >= 1,
        states[0].transactions@.len() == 0,
        states[0].focus == Focus::Transactions,
        forall|i: int| 0 <= i < lines.len() ==> ingested(#[trigger] states[i], lines[i], states[i + 1]),
    ensures
        tx_lines(states.last().transactions@) == str_views(lines),
        header_positions(states.last().transactions@) == group_starts(str_views(lines)),
        states.last().selected == Some((states.last().transactions@.len() - 1) as usize),
{
    lemma_ingest_prefix(states, lines, lines.len() as int);
    assert(str_views(lines).take(lines.len() as int) =~= str_views(lines));
    assert(states.last() == states[lines.len() as int]);
}

/// The fields that hold the session header are the same in `a` and `b`.
pub open spec fn header_same(a: SessionApp, b: SessionApp) -> bool {
    &&& a.rpc_url == b.rpc_url
    &&& a.expires_at == b.expires_at
    &&& a.status == b.status
    &&& a.url_copied == b.url_copied
    &&& a.stream_done == b.stream_done
}

/// The fields of the transactions panel are the same in `a` and `b`.
pub open spec fn tx_panel_same(a: SessionApp, b: SessionApp) -> bool {
    &&& a.transactions == b.transactions
    &&& a.selected == b.selected
    &&& a.focus == b.focus
}

/// The fields of the log panel are the same in `a` and `b`.
pub open spec fn log_panel_same(a: SessionApp, b: SessionApp) -> bool {
    &&& a.logs == b.logs
    &&& a.log_offset == b.log_offset
    &&& a.log_follow == b.log_follow
    &&& a.log_panel_height == b.log_panel_height
    &&& a.log_panel_width == b.log_panel_width
}

pub proof fn lemma_flat_headers(txs: Seq<Transaction>, k: int)
    requires
        0 <= k < flat_spec(txs).len(),
    ensures
        flat_spec(txs)[k] matches FlatItem::TxHeader(ti) ==> ti < txs.len(),
    decreases txs.len(),
{
    if txs.len() > 0 {
        let prev = flat_spec(txs.drop_last());
        if k < prev.len() {
            lemma_flat_headers(txs.drop_last(), k);
            assert(flat_spec(txs)[k] == prev[k]);
        } else {
            let items = tx_items(txs.len() - 1, txs.last());
            assert(flat_spec(txs)[k] == items[k - prev.len()]);
            if k - prev.len() > 0 {
                assert(items[k - prev.len()] is TxDetail);
            }
        }
    }
}

/// The selected row and the group it heads, where the selection is on a group header.
pub open spec fn selected_header(txs: Seq<Transaction>, selected: Option<usize>) -> Option<(usize, usize)> {
    match selected {
        Some(sel) => if sel < flat_spec(txs).len() {
            match flat_spec(txs)[sel as int] {
                FlatItem::TxHeader(ti) => Some((sel, ti)),
                _ => None,
            }
        } else {
            None
        },
        None => None,
    }
}

impl SessionApp {
    /// A fresh view: connecting, with the first transaction row selected and the
    /// log panel following new lines.
    pub fn new() -> (app: SessionApp)
        ensures
            app.rpc_url@ == Seq::<char>::empty(),
            app.expires_at is None,
            app.status is Connecting,
            app.transactions@.len() == 0,
            app.selected == Some(0usize),
            app.logs@.len() == 0,
            app.log_offset == 0,
            app.log_follow,
            app.log_panel_height == 0,
            app.log_panel_width == 0,
            app.focus == Focus::Transactions,
            !app.url_copied,
            !app.stream_done,
    {
        SessionApp {
            rpc_url: String::new(),
            expires_at: None,
            status: AppStatus::Connecting,
            transactions: Vec::new(),
            selected: Some(0),
            logs: Vec::new(),
            log_offset: 0,
            log_follow: true,
            log_panel_height: 0,
            log_panel_width: 0,
            focus: Focus::Transactions,
            url_copied: false,
            stream_done: false,
        }
    }

    /// Routes one log line into the transaction groups: a line that opens a group
    /// (or any line while there is none) starts a new group, and the selection
    /// follows it while the transactions panel has the focus; any other line joins
    /// the last group.
    /// Takes in log lines one after another, as `ingest_log` does for each. From no
    /// group with the transactions panel focused, every line is kept in order, a
    /// group opens exactly at the first line and at each line that starts a
    /// transaction, and the newest group is selected.
    pub fn ingest_logs(&mut self, lines: &Vec<String>)
        ensures
            header_same(*old(self), *final(self)),
            log_panel_same(*old(self), *final(self)),
            final(self).focus == old(self).focus,
            tx_lines(final(self).transactions@) == tx_lines(old(self).transactions@) + str_views(
                lines@,
            ),
            old(self).transactions@.len() == 0 && old(self).focus == Focus::Transactions
                && lines@.len() >= 1 ==> {
                &&& header_positions(final(self).transactions@) == group_starts(str_views(lines@))
                &&& final(self).selected == Some((final(self).transactions@.len() - 1) as usize)
            },
    {
        let ghost start = *self;
        let ghost from_empty = start.transactions@.len() == 0 && start.focus == Focus::Transactions;
        let ghost lv = str_views(lines@);
        let mut i: usize = 0;
        assert(lv.take(0) =~= Seq::<Seq<char>>::empty());
        proof {
            if from_empty {
                assert(header_positions(start.transactions@) =~= Seq::<int>::empty());
                assert(tx_lines(start.transactions@) =~= Seq::<Seq<char>>::empty());
            }
        }
        while i < lines.len()
            invariant
                i <= lines@.len(),
                lv == str_views(lines@),
                header_same(start, *self),
                log_panel_same(start, *self),
                self.focus == start.focus,
                from_empty == (start.transactions@.len() == 0 && start.focus == Focus::Transactions),
                tx_lines(self.transactions@) == tx_lines(start.transactions@) + lv.take(i as int),
                from_empty ==> {
                    &&& tx_lines(self.transactions@) == lv.take(i as int)
                    &&& header_positions(self.transactions@) == group_starts(lv.take(i as int))
                    &&& i > 0 ==> self.transactions@.len() > 0 && self.selected == Some(
                        (self.transactions@.len() - 1) as usize,
                    )
                    &&& i == 0 ==> self.transactions@.len() == 0
                },
            decreases lines@.len() - i,
        {
            let ghost before = *self;
            let line = lines[i].clone();
            assert(line@ == lv[i as int]);
            self.ingest_log(line);
            proof {
                assert(lv.take(i as int).push(lv[i as int]) =~= lv.take(i + 1));
                if from_empty {
                    lemma_ingest_step(before, line, *self, lv.take(i as int));
                }
            }
            i = i + 1;
        }
        assert(lv.take(lines@.len() as int) =~= lv);
    }

    pub fn ingest_log(&mut self, line: String)
        ensures
            ingested(*old(self), line, *final(self)),
    {
        let c = chars_of(line.as_str());
        let lower = to_lowercase_chars(&c);
        let p1 = chars_of("invoke [1]");
        let p2 = chars_of("sendTransaction");
        let p3 = chars_of("transaction signature");
        let is_start = contains_chars(&c, &p1) || contains_chars(&c, &p2) || contains_chars(
            &lower,
            &p3,
        );
        let ghost old_txs = self.transactions@;
        if is_start || self.transactions.len() == 0 {
            let timestamp = extract_timestamp(line.as_str());
            let signature = extract_signature(line.as_str());
            let ghost lv = line@;
            self.transactions.push(
                Transaction {
                    header: line,
                    timestamp,
                    signature,
                    detail_lines: Vec::new(),
                    expanded: false,
                },
            );
            assert(self.transactions@.drop_last() =~= old_txs);
            assert(str_views(self.transactions@.last().detail_lines@) =~= Seq::<Seq<char>>::empty());
            assert(tx_lines(self.transactions@) =~= tx_lines(old_txs).push(lv));
            assert(self.transactions@.take(old_txs.len() as int) =~= old_txs);
            if self.focus == Focus::Transactions {
                let last = self.transactions.len() - 1;
                self.selected = Some(last);
            }
        } else {
            let mut tx = self.transactions.pop().unwrap();
            let ghost old_last = tx;
            let ghost lv = line@;
            tx.detail_lines.push(line);
            self.transactions.push(tx);
            let ghost n = old_txs.len();
            assert(self.transactions@.drop_last() =~= old_txs.drop_last());
            assert(str_views(self.transactions@.last().detail_lines@) =~= str_views(
                old_last.detail_lines@,
            ).push(lv));
            assert(tx_lines(self.transactions@) =~= tx_lines(old_txs).push(lv));
            assert(self.transactions@.take(n - 1) =~= old_txs.take(n - 1));
        }
    }

    /// Applies one stream event: status changes update the header, the end of the
    /// stream or an error marks it done, and a log line goes both to the raw logs
    /// and into the transaction groups.
    pub fn apply(&mut self, event: StreamEvent)
        ensures
            match event {
                StreamEvent::Pending(reason) => {
                    &&& final(self).status == AppStatus::Pending(reason)
                    &&& final(self).rpc_url == old(self).rpc_url
                    &&& final(self).expires_at == old(self).expires_at
                    &&& final(self).stream_done == old(self).stream_done
                    &&& tx_panel_same(*old(self), *final(self))
                    &&& log_panel_same(*old(self), *final(self))
                },
                StreamEvent::Running { url, expires_at } => {
                    &&& final(self).status is Running
                    &&& final(self).rpc_url == url
                    &&& final(self).expires_at == Some(expires_at)
                    &&& final(self).stream_done == old(self).stream_done
                    &&& tx_panel_same(*old(self), *final(self))
                    &&& log_panel_same(*old(self), *final(self))
                },
                StreamEvent::Completed { error } => {
                    &&& final(self).status == AppStatus::Completed { error }
                    &&& final(self).rpc_url == old(self).rpc_url
                    &&& final(self).expires_at == old(self).expires_at
                    &&& final(self).stream_done
                    &&& tx_panel_same(*old(self), *final(self))
                    &&& log_panel_same(*old(self), *final(self))
                },
                StreamEvent::Log(line) => {
                    &&& header_same(*old(self), *final(self))
                    &&& str_views(final(self).logs@) == str_views(old(self).logs@).push(line@)
                    &&& tx_ingested(*old(self), line, *final(self))
                    &&& final(self).log_offset == old(self).log_offset
                    &&& final(self).log_follow == old(self).log_follow
                },
                StreamEvent::Done => {
                    &&& final(self).stream_done
                    &&& final(self).status == old(self).status
                    &&& final(self).rpc_url == old(self).rpc_url
                    &&& final(self).expires_at == old(self).expires_at
                    &&& tx_panel_same(*old(self), *final(self))
                    &&& log_panel_same(*old(self), *final(self))
                },
                StreamEvent::Error(e) => {
                    &&& final(self).status == AppStatus::StreamError(e)
                    &&& final(self).stream_done
                    &&& final(self).rpc_url == old(self).rpc_url
                    &&& final(self).expires_at == old(self).expires_at
                    &&& tx_panel_same(*old(self), *final(self))
                    &&& log_panel_same(*old(self), *final(self))
                },
            },
            final(self).url_copied == old(self).url_copied,
    {
        match event {
            StreamEvent::Pending(reason) => {
                self.status = AppStatus::Pending(reason);
            },
            StreamEvent::Running { url, expires_at } => {
                self.rpc_url = url;
                self.expires_at = Some(expires_at);
                self.status = AppStatus::Running;
            },
            StreamEvent::Completed { error } => {
                self.status = AppStatus::Completed { error };
                self.stream_done = true;
            },
            StreamEvent::Log(line) => {
                let ghost old_logs = self.logs@;
                self.ingest_log(line.clone());
                let ghost lv = line@;
                self.logs.push(line);
                assert(str_views(self.logs@) =~= str_views(old_logs).push(lv));
            },
            StreamEvent::Done => {
                self.stream_done = true;
            },
            StreamEvent::Error(e) => {
                self.status = AppStatus::StreamError(e);
                self.stream_done = true;
            },
        }
    }

    /// The rows of the transactions list.
    pub fn flat_items(&self) -> (items: Vec<FlatItem>)
        ensures
            items@ == flat_spec(self.transactions@),
    {
        let mut items: Vec<FlatItem> = Vec::new();
        let mut ti: usize = 0;
        while ti < self.transactions.len()
            invariant
                ti <= self.transactions@.len(),
                items@ == flat_spec(self.transactions@.take(ti as int)),
            decreases self.transactions@.len() - ti,
        {
            let ghost before = items@;
            let ghost tx = self.transactions@[ti as int];
            assert(self.transactions@.take(ti + 1).drop_last() =~= self.transactions@.take(
                ti as int,
            ));
            items.push(FlatItem::TxHeader(ti));
            if self.transactions[ti].expanded {
                let n = self.transactions[ti].detail_lines.len();
                let mut di: usize = 0;
                while di < n
                    invariant
                        di <= n,
                        n == tx.detail_lines@.len(),
                        items@ == before + seq![FlatItem::TxHeader(ti)] + Seq::new(
                            di as nat,
                            |k: int| FlatItem::TxDetail(ti, k as usize),
                        ),
                    decreases n - di,
                {
                    items.push(FlatItem::TxDetail(ti, di));
                    di = di + 1;
                    assert(items@ =~= before + seq![FlatItem::TxHeader(ti)] + Seq::new(
                        di as nat,
                        |k: int| FlatItem::TxDetail(ti, k as usize),
                    ));
                }
                assert(items@ =~= before + tx_items(ti as int, tx));
            } else {
                assert(items@ =~= before + tx_items(ti as int, tx));
            }
            ti = ti + 1;
        }
        assert(self.transactions@.take(self.transactions@.len() as int) =~= self.transactions@);
        items
    }

    /// Expands or collapses the transaction group whose header is selected, keeping
    /// the selection inside the list.
    pub fn toggle_expand(&mut self)
        ensures
            header_same(*old(self), *final(self)),
            log_panel_same(*old(self), *final(self)),
            final(self).focus == old(self).focus,
            match selected_header(old(self).transactions@, old(self).selected) {
                Some((sel, ti)) => {
                    let tx = old(self).transactions@[ti as int];
                    let new_len = flat_spec(final(self).transactions@).len();
                    &&& ti < old(self).transactions@.len()
                    &&& final(self).transactions@.len() == old(self).transactions@.len()
                    &&& forall|j: int| 0 <= j < old(self).transactions@.len() && j != ti
                        ==> #[trigger] final(self).transactions@[j] == old(self).transactions@[j]
                    &&& final(self).transactions@[ti as int].header == tx.header
                    &&& final(self).transactions@[ti as int].timestamp == tx.timestamp
                    &&& final(self).transactions@[ti as int].signature == tx.signature
                    &&& final(self).transactions@[ti as int].detail_lines == tx.detail_lines
                    &&& final(self).transactions@[ti as int].expanded == !tx.expanded
                    &&& final(self).selected == if sel >= new_len {
                        Some(if new_len == 0 {
                            0usize
                        } else {
                            (new_len - 1) as usize
                        })
                    } else {
                        old(self).selected
                    }
                },
                None => tx_panel_same(*old(self), *final(self)),
            },
    {
        let items = self.flat_items();
        if let Some(sel) = self.selected {
            if sel < items.len() {
                match items[sel] {
                    FlatItem::TxHeader(ti) => {
                        proof {
                            lemma_flat_headers(self.transactions@, sel as int);
                        }
                        let ghost old_txs = self.transactions@;
                        let mut tx = self.transactions.remove(ti);
                        tx.expanded = !tx.expanded;
                        self.transactions.insert(ti, tx);
                        assert forall|j: int|
                            0 <= j < old_txs.len() && j != ti implies #[trigger] self.transactions@[j]
                            == old_txs[j] by {
                            if j < ti {
                            } else {
                            }
                        }
                        let new_len = self.flat_items().len();
                        if sel >= new_len {
                            self.selected = Some(
                                if new_len == 0 {
                                    0
                                } else {
                                    new_len - 1
                                },
                            );
                        }
                    },
                    FlatItem::TxDetail(_, _) => {},
                }
            }
        }
    }

    /// Moves the transaction selection down one row, wrapping to the top.
    pub fn tx_next(&mut self)
        requires
            old(self).selected matches Some(i) ==> i < usize::MAX,
        ensures
            header_same(*old(self), *final(self)),
            log_panel_same(*old(self), *final(self)),
            final(self).transactions == old(self).transactions,
            final(self).focus == old(self).focus,
            ({
                let len = flat_spec(old(self).transactions@).len();
                if len == 0 {
                    final(self).selected == old(self).selected
                } else {
                    final(self).selected == next_selection(old(self).selected, len)
                }
            }),
    {
        let len = self.flat_items().len();
        if len == 0 {
            return;
        }
        let i = match self.selected {
            None => 0,
            Some(i) => (i + 1) % len,
        };
        self.selected = Some(i);
    }

    /// Moves the transaction selection up one row, wrapping to the bottom.
    pub fn tx_prev(&mut self)
        ensures
            header_same(*old(self), *final(self)),
            log_panel_same(*old(self), *final(self)),
            final(self).transactions == old(self).transactions,
            final(self).focus == old(self).focus,
            ({
                let len = flat_spec(old(self).transactions@).len();
                if len == 0 {
                    final(self).selected == old(self).selected
                } else {
                    final(self).selected == prev_selection(old(self).selected, len)
                }
            }),
    {
        let len = self.flat_items().len();
        if len == 0 {
            return;
        }
        let i = match self.selected {
            None => 0,
            Some(i) => if i == 0 {
                len - 1
            } else {
                i - 1
            },
        };
        self.selected = Some(i);
    }

    /// Gives the focus to the transactions panel, selecting its first row if
    /// nothing is selected.
    pub fn focus_transactions(&mut self)
        ensures
            header_same(*old(self), *final(self)),
            log_panel_same(*old(self), *final(self)),
            final(self).transactions == old(self).transactions,
            final(self).focus == Focus::Transactions,
            final(self).selected == if old(self).selected is None {
                Some(0usize)
            } else {
                old(self).selected
            },
    {
        self.focus = Focus::Transactions;
        if self.selected.is_none() {
            self.selected = Some(0);
        }
    }

    /// Gives the focus to the log panel.
    pub fn focus_logs(&mut self)
        ensures
            header_same(*old(self), *final(self)),
            log_panel_same(*old(self), *final(self)),
            final(self).transactions == old(self).transactions,
            final(self).selected == old(self).selected,
            final(self).focus == Focus::Logs,
    {
        self.focus = Focus::Logs;
    }

    /// The number of visual rows that all log lines take at the panel's width.
    pub fn total_visual_rows(&self) -> (r: usize)
        requires
            rows_fit(str_views(self.logs@), panel_width(self.log_panel_width)),
        ensures
            r == total_rows(str_views(self.logs@), panel_width(self.log_panel_width)),
    {
        let w = if self.log_panel_width == 0 {
            1
        } else {
            self.log_panel_width
        };
        let ghost logs = str_views(self.logs@);
        let mut sum: usize = 0;
        let mut i: usize = 0;
        while i < self.logs.len()
            invariant
                i <= self.logs@.len(),
                logs == str_views(self.logs@),
                w == panel_width(self.log_panel_width),
                rows_fit(logs, w as nat),
                sum == total_rows(logs.take(i as int), w as nat),
            decreases self.logs@.len() - i,
        {
            assert(logs.take(i + 1).drop_last() =~= logs.take(i as int));
            assert(logs[i as int] == self.logs@[i as int]@);
            proof {
                lemma_total_rows_prefix(logs, w as nat, i + 1);
            }
            let rows = line_visual_rows(self.logs[i].as_str(), w);
            sum = sum + rows;
            i = i + 1;
        }
        assert(logs.take(logs.len() as int) =~= logs);
        sum
    }

    /// The scroll offset at which the last log row sits at the bottom of the panel.
    pub fn visual_bottom(&self) -> (r: usize)
        requires
            rows_fit(str_views(self.logs@), panel_width(self.log_panel_width)),
        ensures
            r == bottom_spec(*self),
    {
        let total = self.total_visual_rows();
        let h = if self.log_panel_height == 0 {
            1
        } else {
            self.log_panel_height
        };
        total.saturating_sub(h)
    }

    /// Scrolls the log panel down one row, never past the bottom; reaching the
    /// bottom turns following of new lines back on.
    pub fn log_next(&mut self)
        requires
            rows_fit(str_views(old(self).logs@), panel_width(old(self).log_panel_width)),
            old(self).log_offset < usize::MAX,
        ensures
            header_same(*old(self), *final(self)),
            tx_panel_same(*old(self), *final(self)),
            final(self).logs == old(self).logs,
            final(self).log_panel_height == old(self).log_panel_height,
            final(self).log_panel_width == old(self).log_panel_width,
            final(self).log_offset == min_nat((old(self).log_offset + 1) as nat, bottom_spec(*old(self))),
            final(self).log_offset <= bottom_spec(*old(self)),
            final(self).log_follow == (old(self).log_follow || final(self).log_offset >= bottom_spec(
                *old(self),
            )),
    {
        let bottom = self.visual_bottom();
        let next = self.log_offset + 1;
        self.log_offset = if next < bottom {
            next
        } else {
            bottom
        };
        if self.log_offset >= bottom {
            self.log_follow = true;
        }
    }

    /// Scrolls the log panel up one row; when it was following new lines, it first
    /// stops following at the current bottom.
    pub fn log_prev(&mut self)
        requires
            old(self).log_follow ==> rows_fit(
                str_views(old(self).logs@),
                panel_width(old(self).log_panel_width),
            ),
        ensures
            header_same(*old(self), *final(self)),
            tx_panel_same(*old(self), *final(self)),
            final(self).logs == old(self).logs,
            final(self).log_panel_height == old(self).log_panel_height,
            final(self).log_panel_width == old(self).log_panel_width,
            !final(self).log_follow,
            final(self).log_offset == sat_sub(
                if old(self).log_follow {
                    bottom_spec(*old(self))
                } else {
                    old(self).log_offset as nat
                },
                1,
            ),
    {
        if self.log_follow {
            self.log_offset = self.visual_bottom();
            self.log_follow = false;
        }
        self.log_offset = self.log_offset.saturating_sub(1);
    }

    /// Lays out the log panel for a frame `inner_width` characters wide and
    /// `visible` rows high: records the panel's size, settles the scroll offset (at
    /// the bottom while following) and returns the visual rows to show.
    pub fn layout_logs(&mut self, inner_width: u16, visible: u16) -> (rows: Vec<String>)
        ensures
            header_same(*old(self), *final(self)),
            tx_panel_same(*old(self), *final(self)),
            final(self).logs == old(self).logs,
            final(self).log_panel_width == inner_width as usize,
            final(self).log_panel_height == visible as usize,
            ({
                let w = panel_width(inner_width as usize);
                let lines = visual_lines(str_views(old(self).logs@), w);
                let total = lines.len();
                let bottom = sat_sub(total, visible as nat);
                let follow = old(self).log_follow || old(self).log_offset >= bottom;
                let scroll = if follow {
                    bottom
                } else {
                    min_nat(old(self).log_offset as nat, bottom)
                };
                let start = min_nat(scroll, total);
                let end = min_nat((start + visible) as nat, total);
                &&& final(self).log_follow == follow
                &&& final(self).log_offset == scroll
                &&& str_views(rows@) == lines.subrange(start as int, end as int)
            }),
    {
        self.log_panel_height = visible as usize;
        self.log_panel_width = inner_width as usize;
        let w: usize = if inner_width == 0 {
            1
        } else {
            inner_width as usize
        };
        let ghost logs = str_views(self.logs@);
        let mut lines: Vec<String> = Vec::new();
        let mut i: usize = 0;
        while i < self.logs.len()
            invariant
                i <= self.logs@.len(),
                logs == str_views(self.logs@),
                w == panel_width(inner_width as usize),
                str_views(lines@) == visual_lines(logs.take(i as int), w as nat),
            decreases self.logs@.len() - i,
        {
            assert(logs.take(i + 1).drop_last() =~= logs.take(i as int));
            assert(logs[i as int] == self.logs@[i as int]@);
            let pieces = split_line_at(self.logs[i].as_str(), w);
            let ghost before = str_views(lines@);
            let mut k: usize = 0;
            while k < pieces.len()
                invariant
                    k <= pieces@.len(),
                    str_views(lines@) == before + str_views(pieces@).take(k as int),
                decreases pieces@.len() - k,
            {
                let piece = pieces[k].clone();
                assert(piece@ == str_views(pieces@)[k as int]);
                let ghost prev = str_views(lines@);
                let ghost pv = piece@;
                lines.push(piece);
                assert(str_views(lines@) =~= prev.push(pv));
                assert(str_views(pieces@).take(k + 1) =~= str_views(pieces@).take(k as int).push(pv));
                k = k + 1;
                assert(str_views(lines@) =~= before + str_views(pieces@).take(k as int));
            }
            assert(str_views(pieces@).take(pieces@.len() as int) =~= str_views(pieces@));
            i = i + 1;
        }
        assert(logs.take(logs.len() as int) =~= logs);
        let total = lines.len();
        let bottom = total.saturating_sub(visible as usize);
        if self.log_offset >= bottom {
            self.log_follow = true;
        }
        let scroll = if self.log_follow {
            bottom
        } else if self.log_offset < bottom {
            self.log_offset
        } else {
            bottom
        };
        self.log_offset = scroll;
        let start = if scroll < total {
            scroll
        } else {
            total
        };
        let end = if (visible as usize) < total - start {
            start + visible as usize
        } else {
            total
        };
        let mut rows: Vec<String> = Vec::new();
        let mut j = start;
        while j < end
            invariant
                start <= j <= end,
                end <= lines@.len(),
                str_views(rows@) == str_views(lines@).subrange(start as int, j as int),
            decreases end - j,
        {
            let row = lines[j].clone();
            assert(row@ == str_views(lines@)[j as int]);
            let ghost prev = str_views(rows@);
            let ghost rv = row@;
            rows.push(row);
            assert(str_views(rows@) =~= prev.push(rv));
            j = j + 1;
            assert(str_views(rows@) =~= str_views(lines@).subrange(start as int, j as int));
        }
        rows
    }

    /// Handles a key press: `q` or Esc quits, and so does Ctrl-C; `c` asks to copy
    /// the RPC address when there is one; the arrow keys scroll the log panel; `j`
    /// resumes following new lines and `k` jumps to the top. Any key clears the
    /// "copied" mark.
    pub fn handle_key(&mut self, key: Key, ctrl: bool) -> (action: KeyAction)
        requires
            key == Key::Down ==> rows_fit(
                str_views(old(self).logs@),
                panel_width(old(self).log_panel_width),
            ) && old(self).log_offset < usize::MAX,
            (key == Key::Up && old(self).log_follow) ==> rows_fit(
                str_views(old(self).logs@),
                panel_width(old(self).log_panel_width),
            ),
        ensures
            !final(self).url_copied,
            final(self).rpc_url == old(self).rpc_url,
            final(self).status == old(self).status,
            final(self).stream_done == old(self).stream_done,
            tx_panel_same(*old(self), *final(self)),
            final(self).logs == old(self).logs,
            action == key_action(key, ctrl, old(self).rpc_url@),
            key == Key::Char('j') ==> final(self).log_follow && final(self).log_offset == old(
                self,
            ).log_offset,
            key == Key::Char('k') ==> !final(self).log_follow && final(self).log_offset == 0,
            (key == Key::Down) ==> final(self).log_offset == min_nat(
                (old(self).log_offset + 1) as nat,
                bottom_spec(*old(self)),
            ),
            (key == Key::Up) ==> final(self).log_offset == sat_sub(
                if old(self).log_follow {
                    bottom_spec(*old(self))
                } else {
                    old(self).log_offset as nat
                },
                1,
            ),
            (key != Key::Down && key != Key::Up && key != Key::Char('j') && key != Key::Char('k'))
                ==> final(self).log_offset == old(self).log_offset && final(self).log_follow == old(
                self,
            ).log_follow,
    {
        self.url_copied = false;
        match key {
            Key::Esc => KeyAction::Quit,
            Key::Char(ch) => {
                if ch == 'q' {
                    KeyAction::Quit
                } else if ch == 'c' {
                    if ctrl {
                        KeyAction::Quit
                    } else if !self.rpc_url.as_str().is_empty() {
                        KeyAction::CopyUrl
                    } else {
                        KeyAction::Continue
                    }
                } else if ch == 'j' {
                    self.log_follow = true;
                    KeyAction::Continue
                } else if ch == 'k' {
                    self.log_follow = false;
                    self.log_offset = 0;
                    KeyAction::Continue
                } else {
                    KeyAction::Continue
                }
            },
            Key::Down => {
                self.log_next();
                KeyAction::Continue
            },
            Key::Up => {
                self.log_prev();
                KeyAction::Continue
            },
            Key::Other => KeyAction::Continue,
        }
    }
}

/// A key press, as far as the session view tells keys apart.
#[derive(Clone, Copy, Debug, PartialEq, Eq, Structural)]
pub enum Key {
    Char(char),
    Esc,
    Up,
    Down,
    Other,
}

/// What the session loop does after a key press.
#[derive(Clone, Copy, Debug, PartialEq, Eq, Structural)]
pub enum KeyAction {
    Quit,
    CopyUrl,
    Continue,
}

/// The action for a key press with a given RPC address.
pub open spec fn key_action(key: Key, ctrl: bool, rpc_url: Seq<char>) -> KeyAction {
    match key {
        Key::Esc => KeyAction::Quit,
        Key::Char(c) => if c == 'q' || (c == 'c' && ctrl) {
            KeyAction::Quit
        } else if c == 'c' && rpc_url.len() > 0 {
            KeyAction::CopyUrl
        } else {
            KeyAction::Continue
        },
        _ => KeyAction::Continue,
    }
}

/// The smaller of two numbers.
pub open spec fn min_nat(a: nat, b: nat) -> nat {
    if a < b {
        a
    } else {
        b
    }
}

/// `a - b`, or 0 where `b` is larger.
pub open spec fn sat_sub(a: nat, b: nat) -> nat {
    if a >= b {
        (a - b) as nat
    } else {
        0
    }
}

/// The effective width of the log panel (at least one character).
pub open spec fn panel_width(w: usize) -> nat {
    if w == 0 {
        1
    } else {
        w as nat
    }
}

/// The number of visual rows that `logs` take in a panel `w` characters wide.
pub open spec fn total_rows(logs: Seq<Seq<char>>, w: nat) -> nat
    decreases logs.len(),
{
    if logs.len() == 0 {
        0
    } else {
        total_rows(logs.drop_last(), w) + rows_for(logs.last().len(), w)
    }
}

/// The row arithmetic for `logs` fits in a `usize`.
pub open spec fn rows_fit(logs: Seq<Seq<char>>, w: nat) -> bool {
    &&& total_rows(logs, w) <= usize::MAX
    &&& forall|i: int| 0 <= i < logs.len() ==> #[trigger] logs[i].len() + w <= usize::MAX
}

/// The scroll offset at which the last log row sits at the bottom of the panel.
pub open spec fn bottom_spec(app: SessionApp) -> nat {
    sat_sub(
        total_rows(str_views(app.logs@), panel_width(app.log_panel_width)),
        if app.log_panel_height == 0 {
            1
        } else {
            app.log_panel_height as nat
        },
    )
}

/// All visual rows of `logs` in a panel `w` characters wide.
pub open spec fn visual_lines(logs: Seq<Seq<char>>, w: nat) -> Seq<Seq<char>>
    decreases logs.len(),
{
    if logs.len() == 0 {
        Seq::empty()
    } else {
        visual_lines(logs.drop_last(), w) + split_line_spec(logs.last(), w)
    }
}

proof fn lemma_total_rows_prefix(logs: Seq<Seq<char>>, w: nat, i: int)
    requires
        0 <= i <= logs.len(),
    ensures
        total_rows(logs.take(i), w) <= total_rows(logs, w),
    decreases logs.len() - i,
{
    if i < logs.len() {
        lemma_total_rows_prefix(logs, w, i + 1);
        assert(logs.take(i + 1).drop_last() =~= logs.take(i));
    } else {
        assert(logs.take(i) =~= logs);
    }
}

/// The rows that the panel shows are as many as the scrolling arithmetic counts:
/// for a panel at least one character wide, the visual rows of all log lines number
/// `total_rows`.
pub proof fn lemma_visual_lines_count(logs: Seq<Seq<char>>, w: nat)
    requires
        w > 0,
    ensures
        visual_lines(logs, w).len() == total_rows(logs, w),
    decreases logs.len(),
{
    if logs.len() > 0 {
        lemma_visual_lines_count(logs.drop_last(), w);
        lemma_rows_match_split(logs.last(), w);
    }
}

/// A transaction group with its expansion flipped.
pub open spec fn flipped(tx: Transaction) -> Transaction {
    Transaction {
        header: tx.header,
        timestamp: tx.timestamp,
        signature: tx.signature,
        detail_lines: tx.detail_lines,
        expanded: !tx.expanded,
    }
}

proof fn lemma_header_stays(txs: Seq<Transaction>, k: int, ti: int, new_tx: Transaction)
    requires
        0 <= k < flat_spec(txs).len(),
        0 <= ti < txs.len(),
        txs.len() <= usize::MAX,
        flat_spec(txs)[k] == FlatItem::TxHeader(ti as usize),
    ensures
        k < flat_spec(txs.update(ti, new_tx)).len(),
        flat_spec(txs.update(ti, new_tx))[k] == FlatItem::TxHeader(ti as usize),
    decreases txs.len(),
{
    let n = txs.len();
    let prev = flat_spec(txs.drop_last());
    let items = tx_items(n - 1, txs.last());
    let u = txs.update(ti, new_tx);
    assert(flat_spec(txs) == prev + items);
    if k < prev.len() {
        assert(flat_spec(txs)[k] == prev[k]);
        lemma_flat_headers(txs.drop_last(), k);
        assert(ti < n - 1);
        lemma_header_stays(txs.drop_last(), k, ti, new_tx);
        assert(u.drop_last() =~= txs.drop_last().update(ti, new_tx));
        assert(flat_spec(u) == flat_spec(u.drop_last()) + tx_items(n - 1, u.last()));
        assert(flat_spec(u)[k] == flat_spec(u.drop_last())[k]);
    } else {
        assert(flat_spec(txs)[k] == items[k - prev.len()]);
        if k - prev.len() > 0 {
            assert(items[k - prev.len()] is TxDetail);
        }
        assert(k == prev.len());
        assert(ti == n - 1);
        assert(u.drop_last() =~= txs.drop_last());
        assert(flat_spec(u) == prev + tx_items(n - 1, new_tx));
        assert(flat_spec(u)[k] == tx_items(n - 1, new_tx)[0]);
    }
}

/// Expanding or collapsing a group keeps the selection on that group's header, so
/// toggling it a second time restores it.
pub proof fn lemma_toggle_keeps_selection(txs: Seq<Transaction>, sel: usize, ti: usize)
    requires
        selected_header(txs, Some(sel)) == Some((sel, ti)),
        txs.len() <= usize::MAX,
    ensures
        selected_header(txs.update(ti as int, flipped(txs[ti as int])), Some(sel)) == Some((sel, ti)),
{
    lemma_flat_headers(txs, sel as int);
    lemma_header_stays(txs, sel as int, ti as int, flipped(txs[ti as int]));
}

/// The selection after moving down one row in a list of `len > 0` rows.
pub open spec fn next_selection(selected: Option<usize>, len: nat) -> Option<usize> {
    Some(
        match selected {
            None => 0usize,
            Some(i) => ((i + 1) % (len as int)) as usize,
        },
    )
}

/// The selection after moving up one row in a list of `len > 0` rows.
pub open spec fn prev_selection(selected: Option<usize>, len: nat) -> Option<usize> {
    Some(
        match selected {
            None => 0usize,
            Some(i) => if i == 0 {
                (len - 1) as usize
            } else {
                (i - 1) as usize
            },
        },
    )
}

/// Moving the selection down and then up comes back to the same row, and so does
/// moving it up and then down, for a selection inside a non-empty list.
pub proof fn lemma_tx_next_prev(len: nat, i: usize)
    requires
        i < len,
        len <= usize::MAX,
    ensures
        prev_selection(next_selection(Some(i), len), len) == Some(i),
        next_selection(prev_selection(Some(i), len), len) == Some(i),
{
    let li = len as int;
    let ii = i as int;
    if ii + 1 < li {
        assert((ii + 1) % li == ii + 1) by (nonlinear_arith)
            requires
                0 <= ii,
                ii + 1 < li,
        ;
    } else {
        assert((ii + 1) % li == 0) by (nonlinear_arith)
            requires
                ii + 1 == li,
                li > 0,
        ;
    }
    if ii == 0 {
        assert((li - 1 + 1) % li == 0) by (nonlinear_arith)
            requires
                li > 0,
        ;
    } else {
        assert((ii - 1 + 1) % li == ii) by (nonlinear_arith)
            requires
                0 < ii < li,
        ;
    }
}


/// The status line of the session header.
pub open spec fn status_text_spec(status: AppStatus) -> Seq<char> {
    match status {
        AppStatus::Connecting => "\u{25cb} Connecting..."@,
        AppStatus::Pending(reason) => "\u{23f3} Pending  "@ + reason@,
        AppStatus::Running => "\u{25cf} Running"@,
        AppStatus::Completed { error } => if error@.len() == 0 {
            "\u{2714} Completed"@
        } else {
            "\u{2718} Completed with error: "@ + error@
        },
        AppStatus::StreamError(e) => "\u{2718} Error: "@ + e@,
    }
}

/// The text of the status line in the session header.
pub fn status_text(status: &AppStatus) -> (r: String)
    ensures
        r@ == status_text_spec(*status),
{
    let mut out: Vec<char> = Vec::new();
    match status {
        AppStatus::Connecting => push_str(&mut out, "\u{25cb} Connecting..."),
        AppStatus::Pending(reason) => {
            push_str(&mut out, "\u{23f3} Pending  ");
            push_str(&mut out, reason.as_str());
        },
        AppStatus::Running => push_str(&mut out, "\u{25cf} Running"),
        AppStatus::Completed { error } => {
            if error.as_str().is_empty() {
                push_str(&mut out, "\u{2714} Completed");
            } else {
                push_str(&mut out, "\u{2718} Completed with error: ");
                push_str(&mut out, error.as_str());
            }
        },
        AppStatus::StreamError(e) => {
            push_str(&mut out, "\u{2718} Error: ");
            push_str(&mut out, e.as_str());
        },
    }
    assert(out@ =~= status_text_spec(*status));
    string_from(&out)
}

/// The RPC address as the header shows it: a dash until the address is known.
pub fn rpc_display(rpc_url: &str) -> (r: String)
    ensures
        r@ == if rpc_url@.len() == 0 {
            "\u{2014}"@
        } else {
            rpc_url@
        },
{
    let mut out: Vec<char> = Vec::new();
    if rpc_url.is_empty() {
        push_str(&mut out, "\u{2014}");
    } else {
        push_str(&mut out, rpc_url);
    }
    assert(out@ =~= if rpc_url@.len() == 0 {
        "\u{2014}"@
    } else {
        rpc_url@
    });
    string_from(&out)
}

/// The title of the log panel, which tells when the session has ended.
pub fn logs_title(stream_done: bool) -> (r: &'static str)
    ensures
        r@ == if stream_done {
            " RPC Logs (session ended \u{2014} press q to exit) "@
        } else {
            " RPC Logs "@
        },
{
    if stream_done {
        " RPC Logs (session ended \u{2014} press q to exit) "
    } else {
        " RPC Logs "
    }
}

/// The time left before a session expires, as the header shows it.
pub open spec fn expiry_spec(expires_at: i64, now: i64) -> Seq<char> {
    let remaining = expires_at - now;
    if remaining <= 0 {
        "  (expired)"@
    } else {
        "  ("@ + decimal((remaining / 60) as nat) + "m "@ + decimal((remaining % 60) as nat)
            + "s remaining)"@
    }
}

/// Describes the time left until `expires_at`, at time `now` (both in seconds since
/// the Unix epoch).
pub fn format_expiry(expires_at: i64, now: i64) -> (r: String)
    requires
        i64::MIN <= expires_at - now <= i64::MAX,
    ensures
        r@ == expiry_spec(expires_at, now),
{
    let remaining = expires_at - now;
    let mut out: Vec<char> = Vec::new();
    if remaining <= 0 {
        push_str(&mut out, "  (expired)");
    } else {
        let m = (remaining / 60) as u64;
        let sec = (remaining % 60) as u64;
        push_str(&mut out, "  (");
        let md = decimal_chars(m);
        push_chars(&mut out, &md);
        push_str(&mut out, "m ");
        let sd = decimal_chars(sec);
        push_chars(&mut out, &sd);
        push_str(&mut out, "s remaining)");
    }
    assert(out@ =~= expiry_spec(expires_at, now));
    string_from(&out)
}


/// `n` spaces.
pub open spec fn spaces(n: nat) -> Seq<char> {
    Seq::new(n, |i: int| ' ')
}

fn spaces_exec(n: usize) -> (r: String)
    ensures
        r@ == spaces(n as nat),
{
    let mut out: Vec<char> = Vec::new();
    let mut i: usize = 0;
    while i < n
        invariant
            i <= n,
            out@ == spaces(i as nat),
        decreases n - i,
    {
        out.push(' ');
        i = i + 1;
        assert(out@ =~= spaces(i as nat));
    }
    string_from(&out)
}

/// The padding after the status text and after the RPC address in the header, which
/// lines both up to the longer of the two (counted in bytes) plus three spaces.
pub fn header_gaps(status_text: &str, rpc_url: &str) -> (r: (String, String))
    requires
        status_text.spec_bytes().len() + 3 <= usize::MAX,
        rpc_url.spec_bytes().len() + 3 <= usize::MAX,
    ensures
        ({
            let a = status_text.spec_bytes().len();
            let b = rpc_url.spec_bytes().len();
            let col = if a > b {
                a
            } else {
                b
            };
            &&& r.0@ == spaces((col - a + 3) as nat)
            &&& r.1@ == spaces((col - b + 3) as nat)
        }),
{
    let a = status_text.len();
    let b = rpc_url.len();
    let col = if a > b {
        a
    } else {
        b
    };
    (spaces_exec(col - a + 3), spaces_exec(col - b + 3))
}

} // verus!
