//! Incremental reading of an append-only log file that may be truncated.
//!
//! The caller keeps a byte cursor between requests. One request is served in
//! two steps around the file I/O: [`plan_window`] decides which bytes of the
//! file to read, and [`chunk_from_window`] turns those bytes into the text
//! that is returned together with the next cursor.
use vstd::prelude::*;
use vstd::utf8::{decode_utf8, valid_utf8};
use crate::text::{chars_of, decode_text, string_of_range};

verus! {

/// Cap on the bytes read by one request when the caller names none.
pub const DEFAULT_MAX_BYTES: u64 = 65536;

/// What one tail request returns.
pub struct LogChunk {
    /// The decoded text of this call; may be empty.
    pub content: String,
    /// The length of the file when it was read: the cursor for the next call.
    pub offset: u64,
    /// The path of the file being tailed.
    pub path: String,
}

/// A tail request; every field is optional.
pub struct TailRequest {
    /// Byte position to resume from; `None` reads from the start.
    pub offset: Option<u64>,
    /// Most bytes to read in this call; `None` means [`DEFAULT_MAX_BYTES`].
    pub max_bytes: Option<u64>,
    /// When positive and the cursor is at the start, the number of final
    /// lines wanted instead of a forward read.
    pub last_lines: Option<usize>,
}

/// The bytes of the file that one request reads, and how to present them.
pub struct ReadWindow {
    /// First byte of the file to read.
    pub start: u64,
    /// Number of bytes to read from `start`.
    pub len: u64,
    /// Number of final lines to keep; zero for a forward read.
    pub last_lines: usize,
    /// Length of the file when the window was planned.
    pub file_len: u64,
}

pub open spec fn min_nat(a: nat, b: nat) -> nat {
    if a <= b { a } else { b }
}

/// The cursor of a request, zero when absent.
pub open spec fn offset_of(req: TailRequest) -> nat {
    match req.offset {
        Some(o) => o as nat,
        None => 0,
    }
}

/// The byte cap of a request.
pub open spec fn cap_of(req: TailRequest) -> nat {
    match req.max_bytes {
        Some(m) => m as nat,
        None => DEFAULT_MAX_BYTES as nat,
    }
}

/// The number of lines a request asks for, zero when absent.
pub open spec fn lines_of(req: TailRequest) -> nat {
    match req.last_lines {
        Some(n) => n as nat,
        None => 0,
    }
}

/// Tail-from-end mode: a positive line count with the cursor at the start.
pub open spec fn is_tail_mode(req: TailRequest) -> bool {
    lines_of(req) > 0 && offset_of(req) == 0
}

/// Where a forward read begins: the caller's cursor, or, when the file has
/// become shorter than the cursor, one cap back from the new end.
pub open spec fn forward_start(offset: nat, cap: nat, len: nat) -> nat {
    if offset <= len {
        offset
    } else if len >= cap {
        (len - cap) as nat
    } else {
        0
    }
}

/// Where the last window of at most `cap` bytes of a file of `len` bytes begins.
pub open spec fn tail_start(cap: nat, len: nat) -> nat {
    (len - min_nat(len, cap)) as nat
}

/// First byte that a request reads from a file of `len` bytes.
pub open spec fn window_start(req: TailRequest, len: nat) -> nat {
    if is_tail_mode(req) {
        tail_start(cap_of(req), len)
    } else {
        forward_start(offset_of(req), cap_of(req), len)
    }
}

/// Number of bytes that a request reads from a file of `len` bytes.
pub open spec fn window_len(req: TailRequest, len: nat) -> nat {
    min_nat((len - window_start(req, len)) as nat, cap_of(req))
}

/// The bytes of `file` that request `req` reads.
pub open spec fn read_window(file: Seq<u8>, req: TailRequest) -> Seq<u8> {
    let start = window_start(req, file.len());
    file.subrange(start as int, (start + window_len(req, file.len())) as int)
}

/// A forward request that resumes from `offset` with cap `cap`.
pub open spec fn forward_request(offset: u64, cap: u64) -> TailRequest {
    TailRequest { offset: Some(offset), max_bytes: Some(cap), last_lines: None }
}

/// Each snapshot in `files` is a prefix of every later one.
pub open spec fn grows_by_appends(files: Seq<Seq<u8>>) -> bool {
    forall|i: int, j: int|
        #![trigger files[i], files[j]]
        0 <= i <= j < files.len() ==> files[i].len() <= files[j].len()
            && files[j].subrange(0, files[i].len() as int) == files[i]
}

/// The bytes gathered by a poller that reads each snapshot in `files` in
/// turn with a forward request, starting from `offset` and passing on the
/// length of each snapshot as the next cursor.
pub open spec fn catch_up(files: Seq<Seq<u8>>, offset: u64, cap: u64) -> Seq<u8>
    decreases files.len(),
{
    if files.len() == 0 {
        seq![]
    } else {
        read_window(files[0], forward_request(offset, cap)) + catch_up(
            files.drop_first(),
            files[0].len() as u64,
            cap,
        )
    }
}

/// Decides which bytes of a file of `file_len` bytes a request reads.
pub fn plan_window(req: &TailRequest, file_len: u64) -> (w: ReadWindow)
    ensures
        w.start == window_start(*req, file_len as nat),
        w.len == window_len(*req, file_len as nat),
        w.start + w.len <= file_len,
        w.len <= cap_of(*req),
        w.last_lines == (if is_tail_mode(*req) { lines_of(*req) } else { 0 }),
        w.file_len == file_len,
{
    let cap: u64 = match req.max_bytes {
        Some(m) => m,
        None => DEFAULT_MAX_BYTES,
    };
    let offset: u64 = match req.offset {
        Some(o) => o,
        None => 0,
    };
    let lines: usize = match req.last_lines {
        Some(n) => n,
        None => 0,
    };
    let tail = lines > 0 && offset == 0;
    let start: u64 = if tail {
        if file_len <= cap { 0 } else { file_len - cap }
    } else if offset <= file_len {
        offset
    } else if file_len >= cap {
        file_len - cap
    } else {
        0
    };
    let available = file_len - start;
    let len: u64 = if available <= cap { available } else { cap };
    ReadWindow { start, len, last_lines: if tail { lines } else { 0 }, file_len }
}

/// Why a tail request failed.
pub enum TailError {
    /// The directory that holds the log could not be located.
    ResourcesNotFound,
    /// Opening, inspecting or reading the file failed; the text says why.
    Io(String),
    /// The bytes read are not valid UTF-8 text.
    Decode,
}

impl TailError {
    /// A human-readable description of the failure.
    pub fn message(&self) -> (r: String)
        ensures
            self is Io ==> r@ == self->Io_0@,
    {
        match self {
            TailError::ResourcesNotFound => "resources directory not found".to_owned(),
            TailError::Io(cause) => cause.clone(),
            TailError::Decode => "Failed to read log file: stream did not contain valid UTF-8".to_owned(),
        }
    }
}

impl LogChunk {
    /// The chunk returned while the log file does not exist yet.
    pub fn absent(path: String) -> (c: LogChunk)
        ensures
            c.content@.len() == 0,
            c.offset == 0,
            c.path@ == path@,
    {
        LogChunk { content: String::new(), offset: 0, path }
    }
}

/// `s` without its carriage returns.
pub open spec fn strip_cr(s: Seq<char>) -> Seq<char>
    decreases s.len(),
{
    if s.len() == 0 {
        seq![]
    } else if s.last() == '\r' {
        strip_cr(s.drop_last())
    } else {
        strip_cr(s.drop_last()).push(s.last())
    }
}

/// `t` without the newline that ends its last line, if one does.
pub open spec fn without_final_newline(t: Seq<char>) -> Seq<char> {
    if t.len() > 0 && t.last() == '\n' {
        t.drop_last()
    } else {
        t
    }
}

/// Index in `t` where the last `n` lines of `t[0..end]` begin; zero when
/// `t[0..end]` has no more than `n` lines.
pub open spec fn lines_start(t: Seq<char>, end: int, n: nat) -> int
    decreases end,
{
    if n == 0 {
        end
    } else if end <= 0 {
        0
    } else if t[end - 1] == '\n' {
        if n == 1 {
            end
        } else {
            lines_start(t, end - 1, (n - 1) as nat)
        }
    } else {
        lines_start(t, end - 1, n)
    }
}

/// What follows the first newline of `t`; empty when `t` has none.
pub open spec fn after_first_line(t: Seq<char>) -> Seq<char>
    decreases t.len(),
{
    if t.len() == 0 {
        seq![]
    } else if t[0] == '\n' {
        t.drop_first()
    } else {
        after_first_line(t.drop_first())
    }
}

/// The last `n` lines of `text`, carriage returns removed, joined by newlines.
/// When `mid_line` holds, the text began inside a line: if the kept lines
/// reach back to that first line, it is dropped as a fragment.
pub open spec fn last_lines_text(text: Seq<char>, n: nat, mid_line: bool) -> Seq<char> {
    let t = without_final_newline(strip_cr(text));
    let s = lines_start(t, t.len() as int, n);
    if mid_line && s == 0 {
        after_first_line(t)
    } else {
        t.subrange(s, t.len() as int)
    }
}

/// The content that a window presents for the decoded `text` of its bytes.
pub open spec fn window_text(text: Seq<char>, w: ReadWindow) -> Seq<char> {
    if w.last_lines > 0 {
        last_lines_text(text, w.last_lines as nat, w.start > 0)
    } else {
        text
    }
}

/// The characters of `s`, carriage returns left out.
fn chars_without_cr(s: &String) -> (v: Vec<char>)
    ensures
        v@ == strip_cr(s@),
{
    let all = chars_of(s.as_str());
    let mut v: Vec<char> = Vec::new();
    let mut i: usize = 0;
    while i < all.len()
        invariant
            i <= all@.len(),
            all@ == s@,
            v@ == strip_cr(all@.take(i as int)),
        decreases all@.len() - i,
    {
        assert(all@.take(i + 1).drop_last() =~= all@.take(i as int));
        if all[i] != '\r' {
            v.push(all[i]);
        }
        i = i + 1;
    }
    assert(all@.take(all@.len() as int) =~= all@);
    v
}

/// Keeps the last `n` lines of `text`, dropping a leading fragment when the
/// text began inside a line and the kept lines reach back to it.
pub fn last_lines(text: &String, n: usize, mid_line: bool) -> (r: String)
    ensures
        r@ == last_lines_text(text@, n as nat, mid_line),
{
    let mut t = chars_without_cr(text);
    if t.len() > 0 && t[t.len() - 1] == '\n' {
        t.pop();
    }
    assert(t@ == without_final_newline(strip_cr(text@)));
    let len = t.len();
    if n == 0 {
        return String::new();
    }
    let mut i: usize = len;
    let mut k: usize = n;
    while i > 0 && !(t[i - 1] == '\n' && k == 1)
        invariant
            0 < k <= n,
            i <= len == t@.len(),
            lines_start(t@, len as int, n as nat) == lines_start(t@, i as int, k as nat),
        decreases i,
    {
        if t[i - 1] == '\n' {
            k = k - 1;
        }
        i = i - 1;
    }
    if mid_line && i == 0 {
        let mut j: usize = 0;
        assert(t@.subrange(0, len as int) =~= t@);
        while j < len && t[j] != '\n'
            invariant
                j <= len == t@.len(),
                after_first_line(t@) == after_first_line(t@.subrange(j as int, len as int)),
            decreases len - j,
        {
            assert(t@.subrange(j as int, len as int).drop_first() =~= t@.subrange(j + 1, len as int));
            j = j + 1;
        }
        if j == len {
            assert(t@.subrange(j as int, len as int).len() == 0);
            String::new()
        } else {
            assert(t@.subrange(j as int, len as int).drop_first() =~= t@.subrange(j + 1, len as int));
            string_of_range(&t, j + 1, len)
        }
    } else {
        string_of_range(&t, i, len)
    }
}

/// Turns the bytes read for window `w` into the chunk that the request
/// returns; fails exactly when the bytes are not valid UTF-8.
pub fn chunk_from_window(w: &ReadWindow, bytes: Vec<u8>, path: String) -> (r: Result<LogChunk, TailError>)
    ensures
        r is Ok <==> valid_utf8(bytes@),
        r matches Ok(c) ==> c.offset == w.file_len && c.path@ == path@
            && c.content@ == window_text(decode_utf8(bytes@), *w),
        r matches Err(e) ==> e is Decode,
{
    match decode_text(bytes) {
        None => Err(TailError::Decode),
        Some(text) => {
            let content = if w.last_lines > 0 {
                last_lines(&text, w.last_lines, w.start > 0)
            } else {
                text
            };
            Ok(LogChunk { content, offset: w.file_len, path })
        },
    }
}

/// A poller that follows a file growing by appends only, passing back the
/// cursor of each answer, gathers every byte of the file exactly once and
/// in order, provided the file never grows by more than the cap between
/// two reads. Its last cursor is the final length, since each answer
/// carries the length of the snapshot it read.
pub proof fn lemma_catch_up(files: Seq<Seq<u8>>, cap: u64)
    requires
        files.len() > 0,
        forall|i: int| 0 <= i < files.len() ==> files[i].len() <= u64::MAX,
        grows_by_appends(files),
        files[0].len() <= cap,
        forall|i: int| 0 < i < files.len() ==> (#[trigger] files[i]).len() - files[i - 1].len() <= cap,
    ensures
        catch_up(files, 0, cap) == files.last(),
{
    lemma_catch_up_from(files, 0, cap);
    assert(files.last().subrange(0, files.last().len() as int) =~= files.last());
}

proof fn lemma_catch_up_from(files: Seq<Seq<u8>>, offset: u64, cap: u64)
    requires
        files.len() > 0,
        forall|i: int| 0 <= i < files.len() ==> files[i].len() <= u64::MAX,
        grows_by_appends(files),
        offset <= files[0].len(),
        files[0].len() - offset <= cap,
        forall|i: int| 0 < i < files.len() ==> (#[trigger] files[i]).len() - files[i - 1].len() <= cap,
    ensures
        catch_up(files, offset, cap) == files.last().subrange(offset as int, files.last().len() as int),
    decreases files.len(),
{
    let f0 = files[0];
    let last = files.last();
    let req = forward_request(offset, cap);
    assert(files[0] == f0 && files[files.len() - 1] == last);
    assert(window_start(req, f0.len()) == offset);
    assert(read_window(f0, req) == f0.subrange(offset as int, f0.len() as int));
    assert(last.subrange(0, f0.len() as int) == f0);
    assert(f0.subrange(offset as int, f0.len() as int) =~= last.subrange(offset as int, f0.len() as int));
    if files.len() == 1 {
        assert(catch_up(files.drop_first(), f0.len() as u64, cap) =~= seq![]);
        assert(catch_up(files, offset, cap) =~= read_window(f0, req));
    } else {
        let rest = files.drop_first();
        assert(rest.last() == last);
        assert forall|i: int, j: int|
            #![trigger rest[i], rest[j]]
            0 <= i <= j < rest.len() implies rest[i].len() <= rest[j].len()
                && rest[j].subrange(0, rest[i].len() as int) == rest[i] by {
            assert(rest[i] == files[i + 1] && rest[j] == files[j + 1]);
        }
        assert(files[1].len() - files[0].len() <= cap);
        lemma_catch_up_from(rest, f0.len() as u64, cap);
        assert(last.subrange(offset as int, f0.len() as int) + last.subrange(f0.len() as int, last.len() as int)
            =~= last.subrange(offset as int, last.len() as int));
    }
}

/// Answering a cursor that lies beyond the end of a file that has become
/// shorter: the read falls back to the last cap's worth of the new file, so
/// it stays inside the file, and the cursor handed back is the new length.
pub proof fn lemma_truncation_recovery(req: TailRequest, len: nat)
    requires
        offset_of(req) > len,
    ensures
        window_start(req, len) == tail_start(cap_of(req), len),
        window_start(req, len) + window_len(req, len) == len,
        window_len(req, len) == min_nat(len, cap_of(req)),
{
}

/// Two requests against the same file are answered each from its own
/// cursor: a forward request whose cursor lies within the file reads the
/// bytes that start at that cursor, whatever other requests are made.
/// Against a later, longer state of the file, the same request reads the
/// same bytes first.
pub proof fn lemma_independent_cursors(file: Seq<u8>, grown: Seq<u8>, req: TailRequest)
    requires
        !is_tail_mode(req),
        offset_of(req) <= file.len() <= grown.len(),
        grown.subrange(0, file.len() as int) == file,
    ensures
        read_window(file, req) == file.subrange(
            offset_of(req) as int,
            (offset_of(req) + min_nat((file.len() - offset_of(req)) as nat, cap_of(req))) as int,
        ),
        read_window(grown, req).len() >= read_window(file, req).len(),
        read_window(grown, req).subrange(0, read_window(file, req).len() as int) == read_window(file, req),
{
    let o = offset_of(req) as int;
    let a = read_window(file, req);
    let b = read_window(grown, req);
    assert forall|i: int| 0 <= i < a.len() implies b[i] == a[i] by {
        assert(grown.subrange(0, file.len() as int)[o + i] == grown[o + i]);
    }
    assert(b.subrange(0, a.len() as int) =~= a);
}

proof fn lemma_lines_start_at_line(t: Seq<char>, end: int, n: nat)
    requires
        n > 0,
        0 <= end <= t.len(),
    ensures
        0 <= lines_start(t, end, n) <= end,
        lines_start(t, end, n) > 0 ==> t[lines_start(t, end, n) - 1] == '\n',
    decreases end,
{
    if end > 0 {
        if t[end - 1] == '\n' {
            if n > 1 {
                lemma_lines_start_at_line(t, end - 1, (n - 1) as nat);
            }
        } else {
            lemma_lines_start_at_line(t, end - 1, n);
        }
    }
}

proof fn lemma_after_first_line_suffix(t: Seq<char>)
    ensures
        after_first_line(t).len() == 0 || exists|p: int|
            0 < p <= t.len() && t[p - 1] == '\n' && after_first_line(t) == t.subrange(p, t.len() as int),
    decreases t.len(),
{
    if t.len() > 0 {
        if t[0] == '\n' {
            assert(t.drop_first() =~= t.subrange(1, t.len() as int));
        } else {
            let r = t.drop_first();
            lemma_after_first_line_suffix(r);
            if after_first_line(r).len() != 0 {
                let p = choose|p: int|
                    0 < p <= r.len() && r[p - 1] == '\n' && after_first_line(r) == r.subrange(p, r.len() as int);
                assert(r.subrange(p, r.len() as int) =~= t.subrange(p + 1, t.len() as int));
                assert(t[p] == '\n');
            }
        }
    }
}

/// When the text read began inside a line, the lines kept never begin with
/// a piece of that line: they are empty or start right after a newline of
/// the text (carriage returns removed, final newline left off).
pub proof fn lemma_no_leading_fragment(text: Seq<char>, n: nat)
    requires
        n > 0,
    ensures
        ({
            let t = without_final_newline(strip_cr(text));
            let r = last_lines_text(text, n, true);
            r.len() == 0 || exists|p: int| 0 < p <= t.len() && t[p - 1] == '\n' && r == t.subrange(p, t.len() as int)
        }),
{
    let t = without_final_newline(strip_cr(text));
    let s = lines_start(t, t.len() as int, n);
    lemma_lines_start_at_line(t, t.len() as int, n);
    if s == 0 {
        lemma_after_first_line_suffix(t);
    } else {
        let r = last_lines_text(text, n, true);
        assert(r == t.subrange(s, t.len() as int));
    }
}

} // verus!
