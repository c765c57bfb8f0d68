//! The diff transformer: turns tokenized patches into file changes whose
//! lines carry their old-file and new-file line numbers.
use vstd::prelude::*;
use vstd::string::*;
use crate::digests::{md5_hex, md5_hex_of};
use crate::text::{decimal, decimal_text, same_text, strip_prefix, without_prefix};

verus! {

/// One annotated line of a chunk. An added line has no old-file number, a
/// removed line no new-file number; a blank number is the empty string.
#[derive(Debug)]
pub enum Line {
    /// A line added to the old file in the new file
    Add { kind: String, text: String, from_line_number: String, to_line_number: String },
    /// A line removed from the old file in the new file
    Remove { kind: String, text: String, from_line_number: String, to_line_number: String },
    /// A line provided for context in the diff (unchanged); from both the old and the new file
    Context { kind: String, text: String, from_line_number: String, to_line_number: String },
}

/// One hunk of a file's diff, with its reconstructed header.
#[derive(Debug)]
pub struct Chunk {
    pub header: String,
    pub lines: Vec<Line>,
}

/// The change made to one file.
#[derive(Debug)]
pub struct File {
    pub name: String,
    pub status: String,
    pub chunks: Vec<Chunk>,
    pub digest: String,
}

/// The text of a tokenized line, without its marker.
pub open spec fn text_of(l: patch::Line) -> Seq<char> {
    match l {
        patch::Line::Add(t) => t@,
        patch::Line::Remove(t) => t@,
        patch::Line::Context(t) => t@,
    }
}

/// The number of context and removed lines: the old-file lines that `ls` covers.
pub open spec fn old_lines(ls: Seq<patch::Line>) -> nat
    decreases ls.len(),
{
    if ls.len() == 0 {
        0
    } else {
        old_lines(ls.drop_last()) + if ls.last() is Add { 0nat } else { 1nat }
    }
}

/// The number of context and added lines: the new-file lines that `ls` covers.
pub open spec fn new_lines(ls: Seq<patch::Line>) -> nat
    decreases ls.len(),
{
    if ls.len() == 0 {
        0
    } else {
        new_lines(ls.drop_last()) + if ls.last() is Remove { 0nat } else { 1nat }
    }
}

/// A hunk holds more non-added lines than its old range declares: its first
/// line is then a range hint, shown in the header and left out of numbering.
pub open spec fn has_hint_line(h: patch::Hunk) -> bool {
    h.lines@.len() > 0 && old_lines(h.lines@) > h.old_range.count
}

/// The lines of a hunk that are numbered and shown.
pub open spec fn numbered(h: patch::Hunk) -> Seq<patch::Line> {
    if has_hint_line(h) {
        h.lines@.drop_first()
    } else {
        h.lines@
    }
}

/// `@@ -S,C +S',C' @@` followed by the hunk's range hint and, where the hunk
/// carries a hint line, a space and that line's text.
pub open spec fn header_of(h: patch::Hunk) -> Seq<char> {
    "@@ -"@ + decimal(h.old_range.start as nat) + ","@ + decimal(
        h.old_range.count as nat,
    ) + " +"@ + decimal(h.new_range.start as nat) + ","@ + decimal(
        h.new_range.count as nat,
    ) + " @@"@ + h.range_hint@ + if has_hint_line(h) {
        " "@ + text_of(h.lines@[0])
    } else {
        Seq::<char>::empty()
    }
}

/// `out` is the annotation of `raw` when the old and new counters stand at
/// `from` and `to`.
pub open spec fn line_ok(out: Line, raw: patch::Line, from: nat, to: nat) -> bool {
    match raw {
        patch::Line::Add(t) => match out {
            Line::Add { kind, text, from_line_number, to_line_number } => kind@ == "add"@ && text@ == t@ && from_line_number@ == Seq::<char>::empty() && to_line_number@
                == decimal(to),
            _ => false,
        },
        patch::Line::Remove(t) => match out {
            Line::Remove { kind, text, from_line_number, to_line_number } => kind@ == "remove"@ && text@ == t@ && from_line_number@ == decimal(from) && to_line_number@
                == Seq::<char>::empty(),
            _ => false,
        },
        patch::Line::Context(t) => match out {
            Line::Context { kind, text, from_line_number, to_line_number } => kind@ == "context"@ && text@ == t@ && from_line_number@ == decimal(from) && to_line_number@ == decimal(
                to,
            ),
            _ => false,
        },
    }
}

/// The old-file number given to the `i`-th numbered line of `h`.
pub open spec fn from_number(h: patch::Hunk, i: int) -> nat {
    h.old_range.start as nat + old_lines(numbered(h).take(i))
}

/// The new-file number given to the `i`-th numbered line of `h`.
pub open spec fn to_number(h: patch::Hunk, i: int) -> nat {
    h.new_range.start as nat + new_lines(numbered(h).take(i))
}

/// `c` is the chunk built from `h`.
pub open spec fn chunk_ok(c: Chunk, h: patch::Hunk) -> bool {
    &&& c.header@ == header_of(h)
    &&& c.lines@.len() == numbered(h).len()
    &&& forall|i: int|
        0 <= i < c.lines@.len() ==> line_ok(
            #[trigger] c.lines@[i],
            numbered(h)[i],
            from_number(h, i),
            to_number(h, i),
        )
}

proof fn lemma_counts_step(ls: Seq<patch::Line>, i: int)
    requires
        0 <= i < ls.len(),
    ensures
        old_lines(ls.take(i + 1)) == old_lines(ls.take(i)) + if ls[i] is Add { 0nat } else { 1nat },
        new_lines(ls.take(i + 1)) == new_lines(ls.take(i)) + if ls[i] is Remove { 0nat } else { 1nat },
{
    assert(ls.take(i + 1).drop_last() =~= ls.take(i));
}

fn header_text(hunk: &patch::Hunk, hint_line: bool) -> (r: String)
    requires
        hint_line == has_hint_line(*hunk),
    ensures
        r@ == header_of(*hunk),
{
    let mut s = String::from_str("@@ -");
    s.append(&decimal_text(hunk.old_range.start as u128));
    s.append(",");
    s.append(&decimal_text(hunk.old_range.count as u128));
    s.append(" +");
    s.append(&decimal_text(hunk.new_range.start as u128));
    s.append(",");
    s.append(&decimal_text(hunk.new_range.count as u128));
    s.append(" @@");
    s.append(hunk.range_hint);
    if hint_line {
        s.append(" ");
        let t: &str = match &hunk.lines[0] {
            patch::Line::Add(t) => t,
            patch::Line::Remove(t) => t,
            patch::Line::Context(t) => t,
        };
        s.append(t);
        assert(s@ =~= header_of(*hunk));
    } else {
        assert(s@ =~= header_of(*hunk));
    }
    s
}

/// Counts the context and removed lines of a hunk.
fn count_old_lines(hunk: &patch::Hunk) -> (r: usize)
    ensures
        r == old_lines(hunk.lines@),
{
    let n = hunk.lines.len();
    let mut count: usize = 0;
    let mut i: usize = 0;
    while i < n
        invariant
            n == hunk.lines@.len(),
            i <= n,
            count == old_lines(hunk.lines@.take(i as int)),
            count <= i,
        decreases n - i,
    {
        proof { lemma_counts_step(hunk.lines@, i as int); }
        match &hunk.lines[i] {
            patch::Line::Add(_) => {},
            _ => {
                count = count + 1;
            },
        }
        i = i + 1;
    }
    assert(hunk.lines@.take(n as int) =~= hunk.lines@);
    count
}

impl Chunk {
    /// Annotates the lines of one hunk with their old-file and new-file
    /// numbers, counting from the hunk's declared starts.
    pub fn from_hunk(hunk: patch::Hunk) -> (r: Self)
        ensures
            chunk_ok(r, hunk),
    {
        Self::build(&hunk)
    }

    fn build(hunk: &patch::Hunk) -> (r: Self)
        ensures
            chunk_ok(r, *hunk),
    {
        let n = hunk.lines.len();
        let hint_line = n > 0 && (count_old_lines(hunk) as u128) > (hunk.old_range.count as u128);
        let header = header_text(hunk, hint_line);
        let skip: usize = if hint_line { 1 } else { 0 };
        let ghost body = numbered(*hunk);
        assert(body =~= hunk.lines@.subrange(skip as int, n as int));
        let mut from: u128 = hunk.old_range.start as u128;
        let mut to: u128 = hunk.new_range.start as u128;
        let mut lines: Vec<Line> = Vec::new();
        let mut i: usize = skip;
        while i < n
            invariant
                n == hunk.lines@.len(),
                skip <= i <= n,
                skip <= 1,
                body == numbered(*hunk),
                body =~= hunk.lines@.subrange(skip as int, n as int),
                lines@.len() == i - skip,
                from == from_number(*hunk, i - skip),
                to == to_number(*hunk, i - skip),
                from <= hunk.old_range.start + (i - skip),
                to <= hunk.new_range.start + (i - skip),
                forall|k: int|
                    0 <= k < lines@.len() ==> line_ok(
                        #[trigger] lines@[k],
                        body[k],
                        from_number(*hunk, k),
                        to_number(*hunk, k),
                    ),
            decreases n - i,
        {
            proof { lemma_counts_step(body, i - skip); }
            assert(body[i - skip] == hunk.lines@[i as int]);
            let ghost before = lines@;
            let line = match &hunk.lines[i] {
                patch::Line::Add(t) => {
                    let line = Line::Add {
                        kind: String::from_str("add"),
                        text: String::from_str(t),
                        from_line_number: String::new(),
                        to_line_number: decimal_text(to),
                    };
                    to = to + 1;
                    line
                },
                patch::Line::Remove(t) => {
                    let line = Line::Remove {
                        kind: String::from_str("remove"),
                        text: String::from_str(t),
                        from_line_number: decimal_text(from),
                        to_line_number: String::new(),
                    };
                    from = from + 1;
                    line
                },
                patch::Line::Context(t) => {
                    let line = Line::Context {
                        kind: String::from_str("context"),
                        text: String::from_str(t),
                        from_line_number: decimal_text(from),
                        to_line_number: decimal_text(to),
                    };
                    from = from + 1;
                    to = to + 1;
                    line
                },
            };
            lines.push(line);
            assert(line_ok(lines@[i - skip], body[i - skip], from_number(*hunk, i - skip), to_number(*hunk, i - skip)));
            assert(forall|k: int| 0 <= k < i - skip ==> lines@[k] == before[k]);
            i = i + 1;
        }
        Chunk { header, lines }
    }
}

/// How a file changed between the two trees.
#[derive(PartialEq, Eq, Structural, Clone, Copy, Debug)]
pub enum ChangeStatus {
    Added,
    Removed,
    Changed,
    Renamed,
}

/// The path that stands for a missing side of a diff.
pub open spec fn null_path() -> Seq<char> {
    "/dev/null"@
}

/// A file that is missing on the old side was added, one missing on the new
/// side was removed; otherwise equal paths (past their prefixes) mean a
/// change in place and different ones a rename.
pub open spec fn classify(old: Seq<char>, new: Seq<char>) -> ChangeStatus {
    if old == null_path() {
        ChangeStatus::Added
    } else if new == null_path() {
        ChangeStatus::Removed
    } else if without_prefix(old) == without_prefix(new) {
        ChangeStatus::Changed
    } else {
        ChangeStatus::Renamed
    }
}

/// The word shown for a status.
pub open spec fn status_word(s: ChangeStatus) -> Seq<char> {
    match s {
        ChangeStatus::Added => "added"@,
        ChangeStatus::Removed => "removed"@,
        ChangeStatus::Changed => "changed"@,
        ChangeStatus::Renamed => "renamed"@,
    }
}

/// The name shown for a file: the present side's path without its prefix,
/// or `<old> -> <new>` for a rename.
pub open spec fn name_of(old: Seq<char>, new: Seq<char>) -> Seq<char> {
    match classify(old, new) {
        ChangeStatus::Added => without_prefix(new),
        ChangeStatus::Removed => without_prefix(old),
        ChangeStatus::Changed => without_prefix(new),
        ChangeStatus::Renamed => without_prefix(old) + " -> "@ + without_prefix(new),
    }
}

/// `f` is the file change built from `p`.
pub open spec fn file_ok(f: File, p: patch::Patch) -> bool {
    &&& f.name@ == name_of(p.old.path@, p.new.path@)
    &&& f.status@ == status_word(classify(p.old.path@, p.new.path@))
    &&& f.digest@ == md5_hex_of(f.name@)
    &&& f.chunks@.len() == p.hunks@.len()
    &&& forall|i: int| 0 <= i < f.chunks@.len() ==> chunk_ok(#[trigger] f.chunks@[i], p.hunks@[i])
}

/// Classifies a file's change from its old and new paths.
pub fn classify_paths(old: &str, new: &str) -> (r: ChangeStatus)
    ensures
        r == classify(old@, new@),
{
    if same_text(old, "/dev/null") {
        ChangeStatus::Added
    } else if same_text(new, "/dev/null") {
        ChangeStatus::Removed
    } else {
        let a = strip_prefix(old);
        let b = strip_prefix(new);
        if same_text(a.as_str(), b.as_str()) {
            ChangeStatus::Changed
        } else {
            ChangeStatus::Renamed
        }
    }
}

/// The word shown for a status.
pub fn status_text(s: ChangeStatus) -> (r: String)
    ensures
        r@ == status_word(s),
{
    match s {
        ChangeStatus::Added => {
            String::from_str("added")
        },
        ChangeStatus::Removed => {
            String::from_str("removed")
        },
        ChangeStatus::Changed => {
            String::from_str("changed")
        },
        ChangeStatus::Renamed => {
            String::from_str("renamed")
        },
    }
}

/// The text of a tokenized path.
fn path_text<'a>(path: &'a std::borrow::Cow<'a, str>) -> (r: &'a str)
    ensures
        r@ == path@,
{
    match path {
        std::borrow::Cow::Borrowed(b) => b,
        std::borrow::Cow::Owned(o) => o.as_str(),
    }
}

/// The name shown for a file with the given old and new paths.
pub fn display_name(old: &str, new: &str) -> (r: String)
    ensures
        r@ == name_of(old@, new@),
{
    match classify_paths(old, new) {
        ChangeStatus::Added => strip_prefix(new),
        ChangeStatus::Removed => strip_prefix(old),
        ChangeStatus::Changed => strip_prefix(new),
        ChangeStatus::Renamed => {
            let mut s = strip_prefix(old);
            s.append(" -> ");
            s.append(strip_prefix(new).as_str());
            s
        },
    }
}

/// Both paths of a patch are long enough to carry their two-character
/// prefix (`a/`, `b/`; the null path is longer still).
pub open spec fn has_prefixed_paths(p: patch::Patch) -> bool {
    p.old.path@.len() >= 2 && p.new.path@.len() >= 2
}

impl File {
    /// Builds the change record of one file: its status and display name from
    /// its two paths, one chunk per hunk, and the MD5 digest of the name.
    pub fn from_patch(patch: patch::Patch) -> (r: Self)
        requires
            has_prefixed_paths(patch),
        ensures
            file_ok(r, patch),
    {
        let old = path_text(&patch.old.path);
        let new = path_text(&patch.new.path);
        let status = status_text(classify_paths(old, new));
        let name = display_name(old, new);
        let n = patch.hunks.len();
        let mut chunks: Vec<Chunk> = Vec::new();
        let mut i: usize = 0;
        while i < n
            invariant
                n == patch.hunks@.len(),
                i <= n,
                chunks@.len() == i,
                forall|k: int| 0 <= k < i ==> chunk_ok(#[trigger] chunks@[k], patch.hunks@[k]),
            decreases n - i,
        {
            chunks.push(Chunk::build(&patch.hunks[i]));
            i = i + 1;
        }
        let digest = md5_hex(name.as_str());
        File { name, status, chunks, digest }
    }
}

/// Transforms every tokenized patch of a diff, in order.
pub fn files_from_patches(patches: Vec<patch::Patch>) -> (r: Vec<File>)
    requires
        forall|i: int| 0 <= i < patches@.len() ==> has_prefixed_paths(#[trigger] patches@[i]),
    ensures
        r@.len() == patches@.len(),
        forall|i: int| 0 <= i < r@.len() ==> file_ok(#[trigger] r@[i], patches@[i]),
{
    let n = patches.len();
    let mut files: Vec<File> = Vec::new();
    let mut patches = patches;
    let ghost all = patches@;
    let mut i: usize = 0;
    while i < n
        invariant
            n == all.len(),
            i <= n,
            files@.len() == i,
            patches@ == all.subrange(i as int, n as int),
            forall|k: int| 0 <= k < all.len() ==> has_prefixed_paths(#[trigger] all[k]),
            forall|k: int| 0 <= k < i ==> file_ok(#[trigger] files@[k], all[k]),
        decreases n - i,
    {
        let p = patches.remove(0);
        files.push(File::from_patch(p));
        assert(patches@ =~= all.subrange(i + 1, n as int));
        i = i + 1;
    }
    files
}

/// The old-file number a line shows; empty for an added line.
pub open spec fn shown_from(l: Line) -> Seq<char> {
    match l {
        Line::Add { from_line_number, .. } => from_line_number@,
        Line::Remove { from_line_number, .. } => from_line_number@,
        Line::Context { from_line_number, .. } => from_line_number@,
    }
}

/// The new-file number a line shows; empty for a removed line.
pub open spec fn shown_to(l: Line) -> Seq<char> {
    match l {
        Line::Add { to_line_number, .. } => to_line_number@,
        Line::Remove { to_line_number, .. } => to_line_number@,
        Line::Context { to_line_number, .. } => to_line_number@,
    }
}

/// Two lines with the same variant and the same text in every field.
pub open spec fn same_line(a: Line, b: Line) -> bool {
    match (a, b) {
        (
            Line::Add { kind: k1, text: t1, from_line_number: f1, to_line_number: n1 },
            Line::Add { kind: k2, text: t2, from_line_number: f2, to_line_number: n2 },
        ) => k1@ == k2@ && t1@ == t2@ && f1@ == f2@ && n1@ == n2@,
        (
            Line::Remove { kind: k1, text: t1, from_line_number: f1, to_line_number: n1 },
            Line::Remove { kind: k2, text: t2, from_line_number: f2, to_line_number: n2 },
        ) => k1@ == k2@ && t1@ == t2@ && f1@ == f2@ && n1@ == n2@,
        (
            Line::Context { kind: k1, text: t1, from_line_number: f1, to_line_number: n1 },
            Line::Context { kind: k2, text: t2, from_line_number: f2, to_line_number: n2 },
        ) => k1@ == k2@ && t1@ == t2@ && f1@ == f2@ && n1@ == n2@,
        _ => false,
    }
}

/// Two chunks with the same header and the same lines.
pub open spec fn same_chunk(a: Chunk, b: Chunk) -> bool {
    &&& a.header@ == b.header@
    &&& a.lines@.len() == b.lines@.len()
    &&& forall|i: int| 0 <= i < a.lines@.len() ==> same_line(#[trigger] a.lines@[i], b.lines@[i])
}

/// Two file changes that agree in every field, chunk and line.
pub open spec fn same_file(a: File, b: File) -> bool {
    &&& a.name@ == b.name@
    &&& a.status@ == b.status@
    &&& a.digest@ == b.digest@
    &&& a.chunks@.len() == b.chunks@.len()
    &&& forall|i: int| 0 <= i < a.chunks@.len() ==> same_chunk(#[trigger] a.chunks@[i], b.chunks@[i])
}

/// Transforming the same tokenized patch twice gives file changes that
/// agree character for character.
pub proof fn transform_is_idempotent(p: patch::Patch, a: File, b: File)
    requires
        file_ok(a, p),
        file_ok(b, p),
    ensures
        same_file(a, b),
{
    assert forall|i: int| 0 <= i < a.chunks@.len() implies same_chunk(
        #[trigger] a.chunks@[i],
        b.chunks@[i],
    ) by {
        let h = p.hunks@[i];
        assert(chunk_ok(a.chunks@[i], h));
        assert(chunk_ok(b.chunks@[i], h));
        assert forall|j: int| 0 <= j < a.chunks@[i].lines@.len() implies same_line(
            #[trigger] a.chunks@[i].lines@[j],
            b.chunks@[i].lines@[j],
        ) by {
            assert(line_ok(a.chunks@[i].lines@[j], numbered(h)[j], from_number(h, j), to_number(h, j)));
            assert(line_ok(b.chunks@[i].lines@[j], numbered(h)[j], from_number(h, j), to_number(h, j)));
        }
    }
}

proof fn lemma_adds_keep_old_count(ls: Seq<patch::Line>, j: int, m: int)
    requires
        0 <= j < m <= ls.len(),
        forall|k: int| j < k < ls.len() ==> ls[k] is Add,
    ensures
        old_lines(ls.take(m)) == old_lines(ls.take(j + 1)),
    decreases m - j,
{
    if m > j + 1 {
        lemma_adds_keep_old_count(ls, j, m - 1);
        lemma_counts_step(ls, m - 1);
    }
}

proof fn lemma_removes_keep_new_count(ls: Seq<patch::Line>, j: int, m: int)
    requires
        0 <= j < m <= ls.len(),
        forall|k: int| j < k < ls.len() ==> ls[k] is Remove,
    ensures
        new_lines(ls.take(m)) == new_lines(ls.take(j + 1)),
    decreases m - j,
{
    if m > j + 1 {
        lemma_removes_keep_new_count(ls, j, m - 1);
        lemma_counts_step(ls, m - 1);
    }
}

/// The last line of a chunk that carries an old-file number carries
/// S + (#Context + #Remove) - 1, where S is the hunk's declared old start and
/// the counts are over the numbered lines.
pub proof fn last_old_number(c: Chunk, h: patch::Hunk, j: int)
    requires
        chunk_ok(c, h),
        0 <= j < numbered(h).len(),
        !(numbered(h)[j] is Add),
        forall|k: int| j < k < numbered(h).len() ==> numbered(h)[k] is Add,
    ensures
        old_lines(numbered(h)) >= 1,
        shown_from(c.lines@[j]) == decimal((h.old_range.start + old_lines(numbered(h)) - 1) as nat),
{
    let ls = numbered(h);
    lemma_counts_step(ls, j);
    lemma_adds_keep_old_count(ls, j, ls.len() as int);
    assert(ls.take(ls.len() as int) =~= ls);
    assert(line_ok(c.lines@[j], ls[j], from_number(h, j), to_number(h, j)));
}

/// The last line of a chunk that carries a new-file number carries
/// S' + (#Context + #Add) - 1, where S' is the hunk's declared new start and
/// the counts are over the numbered lines.
pub proof fn last_new_number(c: Chunk, h: patch::Hunk, j: int)
    requires
        chunk_ok(c, h),
        0 <= j < numbered(h).len(),
        !(numbered(h)[j] is Remove),
        forall|k: int| j < k < numbered(h).len() ==> numbered(h)[k] is Remove,
    ensures
        new_lines(numbered(h)) >= 1,
        shown_to(c.lines@[j]) == decimal((h.new_range.start + new_lines(numbered(h)) - 1) as nat),
{
    let ls = numbered(h);
    lemma_counts_step(ls, j);
    lemma_removes_keep_new_count(ls, j, ls.len() as int);
    assert(ls.take(ls.len() as int) =~= ls);
    assert(line_ok(c.lines@[j], ls[j], from_number(h, j), to_number(h, j)));
}

/// Every pair of paths gets exactly one of the four statuses: added when the
/// old side is missing, removed when the new side is, changed when the paths
/// agree past their prefixes, renamed otherwise; and each status has its own word.
pub proof fn classification_is_total(old: Seq<char>, new: Seq<char>)
    ensures
        old == null_path() ==> classify(old, new) == ChangeStatus::Added,
        old != null_path() && new == null_path() ==> classify(old, new) == ChangeStatus::Removed,
        old != null_path() && new != null_path() && without_prefix(old) == without_prefix(new)
            ==> classify(old, new) == ChangeStatus::Changed,
        old != null_path() && new != null_path() && without_prefix(old) != without_prefix(new)
            ==> classify(old, new) == ChangeStatus::Renamed,
        status_word(classify(old, new)) == "added"@ || status_word(
            classify(old, new),
        ) == "removed"@ || status_word(classify(old, new))
            == "changed"@ || status_word(classify(old, new))
            == "renamed"@,
        forall|s: ChangeStatus, t: ChangeStatus| s != t ==> status_word(s) != status_word(t),
{
    reveal_strlit("added");
    reveal_strlit("removed");
    reveal_strlit("changed");
    reveal_strlit("renamed");
    assert forall|s: ChangeStatus, t: ChangeStatus| s != t implies status_word(s) != status_word(t) by {
        if status_word(s) == status_word(t) {
            assert(status_word(s)[0] == status_word(t)[0]);
            assert(status_word(s)[2] == status_word(t)[2]);
        }
    }
}

} // verus!
