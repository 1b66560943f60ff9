//! Mentions of media files in what the user types.
//!
//! `@photo.png` or `@"my report.pdf"` names a file. Where the file exists and is an image or a
//! document that models take, its contents follow the mention as a block of their own; the
//! mention stays in the text either way. Reading the files is the caller's part: it asks for
//! the paths with [`media_requests`], probes each of them, and hands the answers to
//! [`resolve_media`].
use crate::file_path::{
    extension, file_name, is_file_name, join_path, joined_path, joined_paths_end_in_their_name,
    path_extension, path_file_name, stems_and_endings_are_told_apart,
};
use crate::message::{BlockView, ContentBlock, block_views, blocks_text};
use crate::text::{
    ascii_lowered, chars_of, copy, except, find_char, is_ascii_lower, is_ascii_upper, is_digit,
    is_space, lemma_run, lemma_run_back, lemma_run_back_is, lemma_run_is, lower,
    lowering_maps_capitals_only, non_spaces, run, run_back, same, same_ignoring_case, skip_word,
    text_of,
};
use vstd::prelude::*;

verus! {

/// The largest image that is embedded, in bytes.
pub const MAX_IMAGE_BYTES: u64 = 8 * 1024 * 1024;

/// The largest file that is embedded, in bytes.
pub const MAX_FILE_BYTES: u64 = 8 * 1024 * 1024;

// ---------------------------------------------------------------------------
// Extensions
// ---------------------------------------------------------------------------
/// The media type of the images with the extension `ext`.
pub open spec fn image_mime(ext: Seq<char>) -> Option<Seq<char>> {
    if ext == "png"@ {
        Some("image/png"@)
    } else if ext == "jpg"@ || ext == "jpeg"@ {
        Some("image/jpeg"@)
    } else if ext == "gif"@ {
        Some("image/gif"@)
    } else if ext == "webp"@ {
        Some("image/webp"@)
    } else {
        None
    }
}

/// The media type of the other files with the extension `ext`.
pub open spec fn file_mime(ext: Seq<char>) -> Option<Seq<char>> {
    if lower(ext) == "pdf"@ {
        Some("application/pdf"@)
    } else {
        None
    }
}

/// The media type of an image extension.
pub fn mime_for_ext(ext: &str) -> (r: &'static str)
    requires
        image_mime(ext@) is Some,
    ensures
        image_mime(ext@) == Some(r@),
{
    if same(ext, "png") {
        "image/png"
    } else if same(ext, "jpg") || same(ext, "jpeg") {
        "image/jpeg"
    } else if same(ext, "gif") {
        "image/gif"
    } else {
        "image/webp"
    }
}

/// Whether `ext` is the extension of an image.
pub fn is_image_ext(ext: &str) -> (r: bool)
    ensures
        r == (image_mime(ext@) is Some),
{
    same(ext, "png") || same(ext, "jpg") || same(ext, "jpeg") || same(ext, "gif") || same(
        ext,
        "webp",
    )
}

/// The media type of a document extension, in any letter case.
pub fn is_file_ext(ext: &str) -> (r: Option<&'static str>)
    ensures
        (r is Some) == (file_mime(ext@) is Some),
        r matches Some(t) ==> file_mime(ext@) == Some(t@),
{
    proof {
        reveal_strlit("pdf");
        assert(lower("pdf"@) =~= "pdf"@);
    }
    if same_ignoring_case("pdf", ext) {
        Some("application/pdf")
    } else {
        None
    }
}

// ---------------------------------------------------------------------------
// Quoted paths
// ---------------------------------------------------------------------------
/// What an escape of `c` stands for: a quote or a backslash stands for itself, and before
/// anything else the backslash is kept.
pub open spec fn unescaped(c: char) -> Seq<char> {
    if c == '"' || c == '\\' {
        seq![c]
    } else {
        seq!['\\', c]
    }
}

/// The quoted text of `s` from position `i` on, up to the closing quote, and how many
/// characters it takes with that quote.
pub open spec fn quoted_from(s: Seq<char>, i: int) -> Option<(Seq<char>, nat)>
    decreases s.len() - i,
{
    if i < 0 || i >= s.len() {
        None
    } else if s[i] == '"' {
        Some((Seq::empty(), 1))
    } else if s[i] == '\\' {
        if i + 1 >= s.len() {
            None
        } else {
            match quoted_from(s, i + 2) {
                Some((t, n)) => Some((unescaped(s[i + 1]) + t, n + 2)),
                None => None,
            }
        }
    } else {
        match quoted_from(s, i + 1) {
            Some((t, n)) => Some((seq![s[i]] + t, n + 1)),
            None => None,
        }
    }
}

/// A quoted path at position `i`: what it names and how many characters it takes with both
/// quotes.
pub open spec fn quoted_at(s: Seq<char>, i: int) -> Option<(Seq<char>, nat)> {
    if 0 <= i < s.len() && s[i] == '"' {
        match quoted_from(s, i + 1) {
            Some((t, n)) => Some((t, n + 1)),
            None => None,
        }
    } else {
        None
    }
}

pub proof fn lemma_quoted_from(s: Seq<char>, i: int)
    requires
        0 <= i,
    ensures
        quoted_from(s, i) matches Some(q) ==> 1 <= q.1 && i + q.1 <= s.len(),
    decreases s.len() - i,
{
    if i < s.len() && s[i] != '"' {
        if s[i] == '\\' {
            if i + 1 < s.len() {
                lemma_quoted_from(s, i + 2);
            }
        } else {
            lemma_quoted_from(s, i + 1);
        }
    }
}

/// The quoted path in `v` at position `i`, and the position behind it.
fn quoted_token_at(v: &Vec<char>, i: usize) -> (r: Option<(String, usize)>)
    requires
        i <= v@.len(),
    ensures
        (r is Some) == (quoted_at(v@, i as int) is Some),
        r matches Some(q) ==> quoted_at(v@, i as int) == Some((q.0@, (q.1 - i) as nat)) && i < q.1
            <= v@.len(),
{
    if i >= v.len() || v[i] != '"' {
        return None;
    }
    let mut path = String::new();
    let mut k: usize = i + 1;
    proof {
        if quoted_from(v@, k as int) is Some {
            let q = quoted_from(v@, k as int)->0;
            assert(path@ + q.0 =~= q.0);
        }
    }
    while k < v.len()
        invariant
            i < k <= v@.len(),
            v@[i as int] == '"',
            quoted_from(v@, i + 1) == (match quoted_from(v@, k as int) {
                Some((t, n)) => Some((path@ + t, (n + k - i - 1) as nat)),
                None => None::<(Seq<char>, nat)>,
            }),
        decreases v@.len() - k,
    {
        let ghost path0 = path@;
        let ghost rest = quoted_from(v@, k as int);
        let c = v[k];
        if c == '"' {
            assert(path@ + Seq::<char>::empty() =~= path@);
            return Some((path, k + 1));
        }
        if c == '\\' {
            if k + 1 >= v.len() {
                return None;
            }
            let d = v[k + 1];
            if d == '"' || d == '\\' {
                path.push(d);
            } else {
                path.push('\\');
                path.push(d);
            }
            assert(path@ =~= path0 + unescaped(d));
            proof {
                lemma_quoted_from(v@, k + 2);
                if quoted_from(v@, k + 2) is Some {
                    let t = (quoted_from(v@, k + 2)->0).0;
                    assert(path0 + (unescaped(d) + t) =~= path@ + t);
                }
            }
            k += 2;
        } else {
            path.push(c);
            proof {
                lemma_quoted_from(v@, k + 1);
                if quoted_from(v@, k + 1) is Some {
                    let t = (quoted_from(v@, k + 1)->0).0;
                    assert(path0 + (seq![c] + t) =~= path@ + t);
                }
            }
            k += 1;
        }
    }
    None
}

/// The path in quotes at the start of `remaining`, with its escapes undone, and what follows
/// the closing quote. There is none where `remaining` does not start with a quote or where
/// no quote closes it.
pub fn extract_quoted_token(remaining: &str) -> (r: Option<(String, String)>)
    ensures
        (r is Some) == (quoted_at(remaining@, 0) is Some),
        r matches Some(q) ==> ({
            let n = (quoted_at(remaining@, 0)->0).1;
            &&& q.0@ == (quoted_at(remaining@, 0)->0).0
            &&& n <= remaining@.len()
            &&& q.1@ == remaining@.skip(n as int)
        }),
{
    let v = chars_of(remaining);
    match quoted_token_at(&v, 0) {
        Some((path, end)) => {
            let after = text_of(&v, end, v.len());
            assert(after@ =~= remaining@.skip(end as int));
            Some((path, after))
        },
        None => None,
    }
}

/// `c` as it is written between quotes.
pub open spec fn escaped_char(c: char) -> Seq<char> {
    if c == '"' || c == '\\' {
        seq!['\\', c]
    } else {
        seq![c]
    }
}

/// `t` as it is written between quotes.
pub open spec fn escaped(t: Seq<char>) -> Seq<char>
    decreases t.len(),
{
    if t.len() == 0 {
        Seq::empty()
    } else {
        escaped(t.drop_last()) + escaped_char(t.last())
    }
}

/// A mention as text.
pub open spec fn mention_text(token: Seq<char>, quoted: bool) -> Seq<char> {
    if quoted {
        seq!['@', '"'] + escaped(token) + seq!['"']
    } else {
        seq!['@'] + token
    }
}

/// Appends the mention of `token` to `buf`, in quotes and escaped where `quoted`.
pub fn push_token_text(buf: &mut String, token: &str, quoted: bool)
    ensures
        final(buf)@ == old(buf)@ + mention_text(token@, quoted),
{
    buf.push('@');
    if quoted {
        buf.push('"');
        let v = chars_of(token);
        let mut i: usize = 0;
        assert(buf@ =~= old(buf)@ + (seq!['@', '"'] + escaped(token@.take(0))));
        while i < v.len()
            invariant
                i <= v@.len(),
                v@ == token@,
                buf@ == old(buf)@ + (seq!['@', '"'] + escaped(token@.take(i as int))),
            decreases v@.len() - i,
        {
            let c = v[i];
            let ghost b0 = buf@;
            if c == '"' || c == '\\' {
                buf.push('\\');
            }
            buf.push(c);
            proof {
                let t = token@.take(i + 1);
                assert(t.drop_last() =~= token@.take(i as int));
                assert(buf@ =~= b0 + escaped_char(c));
                assert(buf@ =~= old(buf)@ + (seq!['@', '"'] + escaped(t)));
            }
            i += 1;
        }
        buf.push('"');
        assert(token@.take(token@.len() as int) =~= token@);
        assert(buf@ =~= old(buf)@ + mention_text(token@, true));
    } else {
        buf.append(token);
        assert(buf@ =~= old(buf)@ + mention_text(token@, false));
    }
}

// ---------------------------------------------------------------------------
// Mentions
// ---------------------------------------------------------------------------
/// Punctuation that ends a sentence rather than a path.
pub open spec fn is_trailing_punct(c: char) -> bool {
    c == ',' || c == '.' || c == ';' || c == ':' || c == '?' || c == '!' || c == ')' || c == ']'
        || c == '}'
}

pub open spec fn puncts() -> spec_fn(char) -> bool {
    |c: char| is_trailing_punct(c)
}

/// One mention: the text before it, the mention as it was typed, what it names, the punctuation
/// that was taken off behind it, and whether the name was in quotes.
pub struct Mention {
    pub before: String,
    pub written: String,
    pub token: String,
    pub trailing: String,
    pub quoted: bool,
}

pub struct MentionView {
    pub before: Seq<char>,
    pub written: Seq<char>,
    pub token: Seq<char>,
    pub trailing: Seq<char>,
    pub quoted: bool,
}

impl View for Mention {
    type V = MentionView;

    open spec fn view(&self) -> MentionView {
        MentionView {
            before: self.before@,
            written: self.written@,
            token: self.token@,
            trailing: self.trailing@,
            quoted: self.quoted,
        }
    }
}

pub open spec fn mention_views(s: Seq<Mention>) -> Seq<MentionView> {
    Seq::new(s.len(), |i: int| s[i]@)
}

/// The mention whose name starts at `i`, behind its `@`, with the text `before` it, and how many
/// characters it takes behind the `@`: a path in quotes, or else everything up to white space,
/// without the punctuation at its end.
pub open spec fn mention_at(s: Seq<char>, i: int, before: Seq<char>) -> (MentionView, nat) {
    match quoted_at(s, i) {
        Some((token, n)) => (
            MentionView {
                before,
                written: s.subrange(i - 1, i + n),
                token,
                trailing: Seq::empty(),
                quoted: true,
            },
            n,
        ),
        None => {
            let n = run(s, non_spaces(), i);
            let raw = s.subrange(i, i + n);
            let kept = raw.len() - run_back(raw, puncts(), raw.len() as int);
            (
                MentionView {
                    before,
                    written: s.subrange(i - 1, i + kept),
                    token: raw.take(kept),
                    trailing: raw.skip(kept),
                    quoted: false,
                },
                n,
            )
        },
    }
}

pub proof fn lemma_mention_at(s: Seq<char>, i: int, before: Seq<char>)
    requires
        0 <= i <= s.len(),
    ensures
        i + mention_at(s, i, before).1 <= s.len(),
{
    if i < s.len() && s[i] == '"' {
        lemma_quoted_from(s, i + 1);
    }
    lemma_run(s, non_spaces(), i);
}

/// The mentions of `s` from position `i` on.
pub open spec fn mentions_from(s: Seq<char>, i: int) -> Seq<MentionView>
    decreases s.len() - i,
    via mentions_decrease
{
    let a = i + run(s, except('@'), i);
    if i < 0 || a >= s.len() {
        Seq::empty()
    } else {
        let (m, n) = mention_at(s, a + 1, s.subrange(i, a));
        seq![m] + mentions_from(s, a + 1 + n)
    }
}

#[via_fn]
proof fn mentions_decrease(s: Seq<char>, i: int) {
    let a = i + run(s, except('@'), i);
    if i >= 0 && a < s.len() {
        lemma_mention_at(s, a + 1, s.subrange(i, a));
    }
}

/// What follows the last mention.
pub open spec fn rest_from(s: Seq<char>, i: int) -> Seq<char>
    decreases s.len() - i,
    via rest_decreases
{
    let a = i + run(s, except('@'), i);
    if i < 0 || a >= s.len() {
        s.skip(i)
    } else {
        rest_from(s, a + 1 + mention_at(s, a + 1, s.subrange(i, a)).1)
    }
}

#[via_fn]
proof fn rest_decreases(s: Seq<char>, i: int) {
    let a = i + run(s, except('@'), i);
    if i >= 0 && a < s.len() {
        lemma_mention_at(s, a + 1, s.subrange(i, a));
    }
}

/// Where the run of trailing punctuation that ends at `j` starts, not before `from`.
fn punct_start(v: &Vec<char>, from: usize, j: usize) -> (r: usize)
    requires
        from <= j <= v@.len(),
    ensures
        from <= r <= j,
        r - from == (j - from) - run_back(v@.subrange(from as int, j as int), puncts(), j - from),
{
    let ghost raw = v@.subrange(from as int, j as int);
    let mut k: usize = j;
    while k > from && (v[k - 1] == ',' || v[k - 1] == '.' || v[k - 1] == ';' || v[k - 1] == ':'
        || v[k - 1] == '?' || v[k - 1] == '!' || v[k - 1] == ')' || v[k - 1] == ']' || v[k - 1]
        == '}')
        invariant
            from <= k <= j <= v@.len(),
            raw == v@.subrange(from as int, j as int),
            (k - from) - run_back(raw, puncts(), k - from) == (j - from) - run_back(
                raw,
                puncts(),
                j - from,
            ),
        decreases k,
    {
        assert(raw[k - from - 1] == v@[k - 1]);
        k -= 1;
    }
    assert(k > from ==> raw[k - from - 1] == v@[k - 1]);
    k
}

/// The mentions in `input`, and what follows the last of them.
pub fn scan_mentions(input: &str) -> (r: (Vec<Mention>, String))
    ensures
        mention_views(r.0@) == mentions_from(input@, 0),
        r.1@ == rest_from(input@, 0),
{
    let v = chars_of(input);
    let mut out: Vec<Mention> = Vec::new();
    let mut i: usize = 0;
    assert(mention_views(out@) + mentions_from(v@, 0) =~= mentions_from(v@, 0));
    loop
        invariant
            i <= v@.len(),
            v@ == input@,
            mention_views(out@) + mentions_from(v@, i as int) == mentions_from(v@, 0),
            rest_from(v@, i as int) == rest_from(v@, 0),
        decreases v@.len() - i,
    {
        let ghost out0 = mention_views(out@);
        let a = find_char(&v, '@', i);
        if a >= v.len() {
            let rest = text_of(&v, i, v.len());
            assert(rest@ =~= v@.skip(i as int));
            assert(out0 + mentions_from(v@, i as int) =~= out0);
            return (out, rest);
        }
        let before = text_of(&v, i, a);
        let ghost b = before@;
        let m: Mention;
        let end: usize;
        match quoted_token_at(&v, a + 1) {
            Some((token, e)) => {
                let written = text_of(&v, a, e);
                m = Mention { before, written, token, trailing: String::new(), quoted: true };
                end = e;
            },
            None => {
                let e = skip_word(&v, a + 1);
                let k = punct_start(&v, a + 1, e);
                let written = text_of(&v, a, k);
                let token = text_of(&v, a + 1, k);
                let trailing = text_of(&v, k, e);
                proof {
                    let raw = v@.subrange(a + 1, e as int);
                    assert(token@ =~= raw.take(k - a - 1));
                    assert(trailing@ =~= raw.skip(k - a - 1));
                }
                m = Mention { before, written, token, trailing, quoted: false };
                end = e;
            },
        }
        assert(mention_at(v@, a + 1, b) == (m@, (end - a - 1) as nat));
        out.push(m);
        assert(mention_views(out@) =~= out0.push(m@));
        assert(out0 + (seq![m@] + mentions_from(v@, end as int)) =~= mention_views(out@)
            + mentions_from(v@, end as int));
        i = end;
    }
}

// ---------------------------------------------------------------------------
// Media
// ---------------------------------------------------------------------------
#[derive(Clone, Copy, Debug, PartialEq, Eq, Structural)]
pub enum MediaKind {
    Image,
    File,
}

impl MediaKind {
    /// The largest size that is embedded, in bytes.
    pub fn cap(self) -> (r: u64)
        ensures
            r == 8 * 1024 * 1024,
    {
        match self {
            MediaKind::Image => MAX_IMAGE_BYTES,
            MediaKind::File => MAX_FILE_BYTES,
        }
    }
}

/// The largest size that is embedded, in bytes.
pub open spec fn media_cap() -> nat {
    8 * 1024 * 1024
}

/// Whether the extension of `token` is that of an image or of a document, in any letter case,
/// and its media type.
pub open spec fn media_of(token: Seq<char>) -> Option<(MediaKind, Seq<char>)> {
    match extension(token) {
        None => None,
        Some(e) => {
            let ext = lower(e);
            match image_mime(ext) {
                Some(mime) => Some((MediaKind::Image, mime)),
                None => match file_mime(ext) {
                    Some(mime) => Some((MediaKind::File, mime)),
                    None => None,
                },
            }
        },
    }
}

fn media_type_of(token: &str) -> (r: Option<(MediaKind, &'static str)>)
    ensures
        (r is Some) == (media_of(token@) is Some),
        r matches Some(m) ==> media_of(token@) == Some((m.0, m.1@)),
{
    match path_extension(token) {
        None => None,
        Some(e) => {
            let ext = ascii_lowered(e.as_str());
            if is_image_ext(ext.as_str()) {
                Some((MediaKind::Image, mime_for_ext(ext.as_str())))
            } else {
                match is_file_ext(ext.as_str()) {
                    Some(mime) => Some((MediaKind::File, mime)),
                    None => None,
                }
            }
        },
    }
}

/// A file to probe.
pub struct MediaRequest {
    pub kind: MediaKind,
    pub path: String,
}

/// The mentions that name media.
pub open spec fn media_mentions(ms: Seq<MentionView>) -> Seq<MentionView> {
    ms.filter(|m: MentionView| media_of(m.token) is Some)
}

proof fn lemma_media_mentions(ms: Seq<MentionView>)
    requires
        ms.len() > 0,
    ensures
        media_of(ms[0].token) is Some ==> media_mentions(ms) == seq![ms[0]] + media_mentions(
            ms.skip(1),
        ),
        media_of(ms[0].token) is None ==> media_mentions(ms) == media_mentions(ms.skip(1)),
{
    let is_media = |m: MentionView| media_of(m.token) is Some;
    let head = seq![ms[0]];
    assert(head + ms.skip(1) =~= ms);
    Seq::filter_distributes_over_add(head, ms.skip(1), is_media);
    reveal(Seq::filter);
    assert(head.drop_last() =~= Seq::empty());
    assert(head.drop_last().filter(is_media) =~= Seq::empty());
    if is_media(ms[0]) {
        assert(head.filter(is_media) =~= head);
    } else {
        assert(head.filter(is_media) =~= Seq::empty());
        assert(Seq::<MentionView>::empty() + media_mentions(ms.skip(1)) =~= media_mentions(
            ms.skip(1),
        ));
    }
}

/// The files that the mentions of media in `input` name below `cwd`, in order.
pub fn media_requests(input: &str, cwd: &str) -> (r: Vec<MediaRequest>)
    ensures
        r@.len() == media_mentions(mentions_from(input@, 0)).len(),
        forall|i: int|
            0 <= i < r@.len() ==> {
                let token = media_mentions(mentions_from(input@, 0))[i].token;
                &&& (#[trigger] r@[i]).path@ == join_path(cwd@, token)
                &&& r@[i].kind == (media_of(token)->0).0
            },
{
    let (mentions, _rest) = scan_mentions(input);
    let ghost ms = mention_views(mentions@);
    let ghost is_media = |m: MentionView| media_of(m.token) is Some;
    let mut r: Vec<MediaRequest> = Vec::new();
    let mut i: usize = 0;
    assert(ms.take(0).filter(is_media) =~= Seq::empty()) by {
        reveal(Seq::filter);
    }
    while i < mentions.len()
        invariant
            i <= mentions@.len(),
            ms == mention_views(mentions@),
            is_media == (|m: MentionView| media_of(m.token) is Some),
            r@.len() == ms.take(i as int).filter(is_media).len(),
            forall|k: int|
                0 <= k < r@.len() ==> {
                    let token = ms.take(i as int).filter(is_media)[k].token;
                    &&& (#[trigger] r@[k]).path@ == join_path(cwd@, token)
                    &&& r@[k].kind == (media_of(token)->0).0
                },
        decreases mentions@.len() - i,
    {
        let m = &mentions[i];
        proof {
            let t = ms.take(i + 1);
            assert(t.drop_last() =~= ms.take(i as int));
            assert(t.last() == m@);
            reveal(Seq::filter);
        }
        match media_type_of(m.token.as_str()) {
            Some((kind, _mime)) => {
                r.push(MediaRequest { kind, path: joined_path(cwd, m.token.as_str()) });
            },
            None => {},
        }
        i += 1;
    }
    assert(ms.take(i as int) =~= ms);
    r
}

/// What the file system says of a requested file: that there is no such file, or how large it
/// is and what reading it gave. A file over the cap need not be read: `data` is not looked at.
pub enum Probe<E> {
    Missing,
    File { size: u64, data: Result<Vec<u8>, E> },
}

/// A file that was left out because of its size.
#[derive(Debug, PartialEq, Eq)]
pub struct MediaWarning {
    pub kind: MediaKind,
    pub token: String,
    pub size: u64,
}

pub struct WarningView {
    pub kind: MediaKind,
    pub token: Seq<char>,
    pub size: u64,
}

impl View for MediaWarning {
    type V = WarningView;

    open spec fn view(&self) -> WarningView {
        WarningView { kind: self.kind, token: self.token@, size: self.size }
    }
}

pub open spec fn warning_views(s: Seq<MediaWarning>) -> Seq<WarningView> {
    Seq::new(s.len(), |i: int| s[i]@)
}

/// The outcome: text and media in the order of the input, and what was left out.
pub struct Resolved {
    pub blocks: Vec<ContentBlock>,
    pub warnings: Vec<MediaWarning>,
}

pub struct ResolvedView {
    pub blocks: Seq<BlockView>,
    pub warnings: Seq<WarningView>,
}

impl View for Resolved {
    type V = ResolvedView;

    open spec fn view(&self) -> ResolvedView {
        ResolvedView { blocks: block_views(self.blocks@), warnings: warning_views(self.warnings@) }
    }
}

/// `blocks` and `warnings` in front of an outcome.
pub open spec fn in_front<E>(
    blocks: Seq<BlockView>,
    warnings: Seq<WarningView>,
    r: Result<ResolvedView, E>,
) -> Result<ResolvedView, E> {
    match r {
        Ok(v) => Ok(ResolvedView { blocks: blocks + v.blocks, warnings: warnings + v.warnings }),
        Err(e) => Err(e),
    }
}

/// A text block, unless there is no text.
pub open spec fn text_block(t: Seq<char>) -> Seq<BlockView> {
    if t.len() > 0 {
        seq![BlockView::Text(t)]
    } else {
        Seq::empty()
    }
}

/// The name under which a file is embedded.
pub open spec fn embedded_name(path: Seq<char>) -> Seq<char> {
    match file_name(path) {
        Some(name) => name,
        None => "file"@,
    }
}

/// The block that embeds `data`.
pub open spec fn media_block(
    cwd: Seq<char>,
    token: Seq<char>,
    kind: MediaKind,
    mime: Seq<char>,
    data: Seq<u8>,
) -> BlockView {
    match kind {
        MediaKind::Image => BlockView::Image { data, media_type: mime },
        MediaKind::File => BlockView::File {
            data,
            media_type: mime,
            filename: embedded_name(join_path(cwd, token)),
        },
    }
}

/// What the mentions `ms` and the text `rest` behind them come to, after the text `buf` that
/// no block holds yet. The probes answer the mentions of media in order.
pub open spec fn resolve_from<E>(
    ms: Seq<MentionView>,
    rest: Seq<char>,
    cwd: Seq<char>,
    probes: Seq<Probe<E>>,
    buf: Seq<char>,
) -> Result<ResolvedView, E>
    decreases ms.len(),
{
    if ms.len() == 0 {
        Ok(ResolvedView { blocks: text_block(buf + rest), warnings: Seq::empty() })
    } else {
        let m = ms[0];
        let written = buf + m.before + m.written;
        match media_of(m.token) {
            None => resolve_from(ms.skip(1), rest, cwd, probes, written + m.trailing),
            Some((kind, mime)) => match probes[0] {
                Probe::Missing => resolve_from(
                    ms.skip(1),
                    rest,
                    cwd,
                    probes.skip(1),
                    written + m.trailing,
                ),
                Probe::File { size, data } => if size > media_cap() {
                    in_front(
                        Seq::empty(),
                        seq![WarningView { kind, token: m.token, size }],
                        resolve_from(ms.skip(1), rest, cwd, probes.skip(1), written + m.trailing),
                    )
                } else {
                    match data {
                        Err(e) => Err(e),
                        Ok(d) => in_front(
                            seq![
                                BlockView::Text(written),
                                media_block(cwd, m.token, kind, mime, d@),
                            ],
                            Seq::empty(),
                            resolve_from(ms.skip(1), rest, cwd, probes.skip(1), m.trailing),
                        ),
                    }
                },
            },
        }
    }
}

proof fn lemma_in_front<E>(
    b1: Seq<BlockView>,
    w1: Seq<WarningView>,
    b2: Seq<BlockView>,
    w2: Seq<WarningView>,
    r: Result<ResolvedView, E>,
)
    ensures
        in_front(b1, w1, in_front(b2, w2, r)) == in_front(b1 + b2, w1 + w2, r),
{
    if r is Ok {
        let v = r->Ok_0;
        assert(b1 + (b2 + v.blocks) =~= (b1 + b2) + v.blocks);
        assert(w1 + (w2 + v.warnings) =~= (w1 + w2) + v.warnings);
    }
}

/// The input as content blocks: its text with every mention in it, and behind the mention of a
/// file that exists and is not too large the file itself. A file that exists and cannot be
/// read gives its error; the first one counts.
#[verifier::loop_isolation(false)]
pub fn resolve_media<E>(input: &str, cwd: &str, probes: Vec<Probe<E>>) -> (r: Result<Resolved, E>)
    requires
        probes@.len() == media_mentions(mentions_from(input@, 0)).len(),
    ensures
        resolve_from(mentions_from(input@, 0), rest_from(input@, 0), cwd@, probes@, Seq::empty())
            == (match r {
            Ok(v) => Ok(v@),
            Err(e) => Err(e),
        }),
{
    let (mentions, rest) = scan_mentions(input);
    let ghost ms = mention_views(mentions@);
    let ghost total = resolve_from(ms, rest@, cwd@, probes@, Seq::empty());
    let mut left = probes;
    let mut blocks: Vec<ContentBlock> = Vec::new();
    let mut warnings: Vec<MediaWarning> = Vec::new();
    let mut buf = String::new();
    let mut i: usize = 0;
    proof {
        assert(ms.skip(0) =~= ms);
        if total is Ok {
            assert(block_views(blocks@) + (total->Ok_0).blocks =~= (total->Ok_0).blocks);
            assert(warning_views(warnings@) + (total->Ok_0).warnings =~= (total->Ok_0).warnings);
        }
    }
    while i < mentions.len()
        invariant
            i <= mentions@.len(),
            left@.len() == media_mentions(ms.skip(i as int)).len(),
            total == in_front(
                block_views(blocks@),
                warning_views(warnings@),
                resolve_from(ms.skip(i as int), rest@, cwd@, left@, buf@),
            ),
        decreases mentions@.len() - i,
    {
        let m = &mentions[i];
        let ghost blocks0 = block_views(blocks@);
        let ghost warnings0 = warning_views(warnings@);
        let ghost left0 = left@;
        let ghost from = ms.skip(i as int);
        proof {
            assert(from[0] == m@);
            assert(from.skip(1) =~= ms.skip(i + 1));
            lemma_media_mentions(from);
        }
        buf.append(m.before.as_str());
        buf.append(m.written.as_str());
        i += 1;
        match media_type_of(m.token.as_str()) {
            None => {
                buf.append(m.trailing.as_str());
            },
            Some((kind, mime)) => {
                let probe = left.remove(0);
                assert(left@ =~= left0.skip(1));
                match probe {
                    Probe::Missing => {
                        buf.append(m.trailing.as_str());
                    },
                    Probe::File { size, data } => {
                        if size > kind.cap() {
                            let warning = MediaWarning { kind, token: m.token.clone(), size };
                            warnings.push(warning);
                            buf.append(m.trailing.as_str());
                            proof {
                                assert(warning_views(warnings@) =~= warnings0 + seq![warning@]);
                                assert(blocks0 + Seq::empty() =~= blocks0);
                                lemma_in_front(
                                    blocks0,
                                    warnings0,
                                    Seq::empty(),
                                    seq![warning@],
                                    resolve_from(ms.skip(i as int), rest@, cwd@, left@, buf@),
                                );
                            }
                        } else {
                            match data {
                                Err(e) => {
                                    return Err(e);
                                },
                                Ok(data) => {
                                    let block = match kind {
                                        MediaKind::Image => ContentBlock::Image {
                                            data,
                                            media_type: copy(mime),
                                        },
                                        MediaKind::File => {
                                            let path = joined_path(cwd, m.token.as_str());
                                            let filename = match path_file_name(path.as_str()) {
                                                Some(name) => name,
                                                None => copy("file"),
                                            };
                                            ContentBlock::File {
                                                data,
                                                media_type: copy(mime),
                                                filename,
                                            }
                                        },
                                    };
                                    let text = ContentBlock::Text(buf);
                                    blocks.push(text);
                                    blocks.push(block);
                                    buf = m.trailing.clone();
                                    proof {
                                        assert(block_views(blocks@) =~= blocks0 + seq![
                                            text@,
                                            block@,
                                        ]);
                                        assert(warnings0 + Seq::empty() =~= warnings0);
                                        lemma_in_front(
                                            blocks0,
                                            warnings0,
                                            seq![text@, block@],
                                            Seq::empty(),
                                            resolve_from(
                                                ms.skip(i as int),
                                                rest@,
                                                cwd@,
                                                left@,
                                                buf@,
                                            ),
                                        );
                                    }
                                },
                            }
                        }
                    },
                }
            },
        }
    }
    let ghost blocks0 = block_views(blocks@);
    buf.append(rest.as_str());
    let ghost tail = text_block(buf@);
    if !buf.as_str().is_empty() {
        blocks.push(ContentBlock::Text(buf));
    }
    assert(block_views(blocks@) =~= blocks0 + tail);
    assert(warning_views(warnings@) + Seq::empty() =~= warning_views(warnings@));
    Ok(Resolved { blocks, warnings })
}

/// Whether any block is an image.
pub fn has_images(blocks: &Vec<ContentBlock>) -> (r: bool)
    ensures
        r == exists|i: int| 0 <= i < blocks@.len() && (#[trigger] blocks@[i])@ is Image,
{
    let mut i: usize = 0;
    while i < blocks.len()
        invariant
            i <= blocks@.len(),
            forall|k: int| 0 <= k < i ==> !((#[trigger] blocks@[k])@ is Image),
        decreases blocks@.len() - i,
    {
        match &blocks[i] {
            ContentBlock::Image { .. } => {
                assert(blocks@[i as int]@ is Image);
                return true;
            },
            _ => {},
        }
        i += 1;
    }
    false
}

/// Whether any block is a file.
pub fn has_files(blocks: &Vec<ContentBlock>) -> (r: bool)
    ensures
        r == exists|i: int| 0 <= i < blocks@.len() && (#[trigger] blocks@[i])@ is File,
{
    let mut i: usize = 0;
    while i < blocks.len()
        invariant
            i <= blocks@.len(),
            forall|k: int| 0 <= k < i ==> !((#[trigger] blocks@[k])@ is File),
        decreases blocks@.len() - i,
    {
        match &blocks[i] {
            ContentBlock::File { .. } => {
                assert(blocks@[i as int]@ is File);
                return true;
            },
            _ => {},
        }
        i += 1;
    }
    false
}

// ---------------------------------------------------------------------------
// Laws
// ---------------------------------------------------------------------------
proof fn lemma_escaped_front(t: Seq<char>)
    requires
        t.len() > 0,
    ensures
        escaped(t) == escaped_char(t[0]) + escaped(t.skip(1)),
    decreases t.len(),
{
    if t.len() == 1 {
        assert(t.drop_last() =~= Seq::empty());
        assert(t.skip(1) =~= Seq::empty());
        assert(escaped(t) =~= escaped_char(t[0]) + escaped(t.skip(1)));
    } else {
        lemma_escaped_front(t.drop_last());
        assert(t.drop_last().skip(1) =~= t.skip(1).drop_last());
        assert(t.skip(1).last() == t.last());
        assert(escaped(t) =~= escaped_char(t[0]) + escaped(t.skip(1)));
    }
}

proof fn lemma_quoted_escaped(s: Seq<char>, i: int, t: Seq<char>)
    requires
        0 <= i,
        i + escaped(t).len() < s.len(),
        s.subrange(i, i + escaped(t).len()) == escaped(t),
        s[i + escaped(t).len()] == '"',
    ensures
        quoted_from(s, i) == Some((t, escaped(t).len() + 1)),
    decreases t.len(),
{
    if t.len() == 0 {
        assert(t =~= Seq::empty());
    } else {
        lemma_escaped_front(t);
        let head = escaped_char(t[0]);
        let tail = escaped(t.skip(1));
        let here = s.subrange(i, i + escaped(t).len());
        assert(here[0] == s[i]);
        assert(head[0] == here[0]);
        let j = i + head.len();
        assert(s.subrange(j, j + tail.len()) =~= tail) by {
            assert forall|k: int| 0 <= k < tail.len() implies s[j + k] == tail[k] by {
                assert(here[head.len() + k] == tail[k]);
            }
        }
        if head.len() == 2 {
            assert(head[1] == here[1]);
            assert(s[i + 1] == t[0]);
        }
        lemma_quoted_escaped(s, j, t.skip(1));
        assert(seq![t[0]] + t.skip(1) =~= t);
    }
}

/// A path that is written as a quoted mention is read back as the same path, whatever
/// characters it holds and whatever follows it.
pub proof fn quoted_mention_reads_back(token: Seq<char>, after: Seq<char>)
    ensures
        quoted_at(mention_text(token, true) + after, 1) == Some(
            (token, (mention_text(token, true).len() - 1) as nat),
        ),
{
    let s = mention_text(token, true) + after;
    let e = escaped(token);
    assert(s.subrange(2, (2 + e.len()) as int) =~= e);
    lemma_quoted_escaped(s, 2, token);
}

proof fn lemma_blocks_text_add(a: Seq<BlockView>, b: Seq<BlockView>)
    ensures
        blocks_text(a + b) == blocks_text(a) + blocks_text(b),
    decreases b.len(),
{
    if b.len() == 0 {
        assert(a + b =~= a);
        assert(blocks_text(a + b) =~= blocks_text(a) + blocks_text(b));
    } else {
        assert((a + b).drop_last() =~= a + b.drop_last());
        assert((a + b).last() == b.last());
        lemma_blocks_text_add(a, b.drop_last());
        assert(blocks_text(a + b) =~= blocks_text(a) + blocks_text(b));
    }
}

proof fn lemma_mention_source(s: Seq<char>, a: int, before: Seq<char>)
    requires
        0 <= a < s.len(),
    ensures
        ({
            let (m, n) = mention_at(s, a + 1, before);
            m.written + m.trailing == s.subrange(a, a + 1 + n)
        }),
{
    let (m, n) = mention_at(s, a + 1, before);
    let j = a + 1 + n;
    lemma_mention_at(s, a + 1, before);
    if !m.quoted {
        let raw = s.subrange(a + 1, j);
        lemma_run_back(raw, puncts(), raw.len() as int);
    }
    assert(m.written + m.trailing =~= s.subrange(a, j));
}

proof fn lemma_embedded_text(written: Seq<char>, b: BlockView, rest: Seq<BlockView>)
    requires
        b.is_attachment(),
    ensures
        blocks_text(seq![BlockView::Text(written), b] + rest) == written + blocks_text(rest),
{
    let front = seq![BlockView::Text(written), b];
    lemma_blocks_text_add(front, rest);
    reveal_with_fuel(blocks_text, 3);
    assert(front.drop_last() =~= seq![BlockView::Text(written)]);
    assert(front.drop_last().drop_last() =~= Seq::empty());
    assert(blocks_text(front) =~= written);
}

#[verifier::rlimit(80)]
proof fn lemma_resolve_text<E>(
    s: Seq<char>,
    i: int,
    cwd: Seq<char>,
    probes: Seq<Probe<E>>,
    buf: Seq<char>,
)
    requires
        0 <= i <= s.len(),
    ensures
        resolve_from(mentions_from(s, i), rest_from(s, i), cwd, probes, buf) matches Ok(v)
            ==> blocks_text(v.blocks) == buf + s.skip(i),
    decreases s.len() - i,
{
    let ms = mentions_from(s, i);
    let rest = rest_from(s, i);
    let a = i + run(s, except('@'), i);
    lemma_run(s, except('@'), i);
    if a >= s.len() {
        let t = text_block(buf + rest);
        if t.len() > 0 {
            reveal_with_fuel(blocks_text, 2);
            assert(t.drop_last() =~= Seq::empty());
            assert(blocks_text(t) =~= buf + rest);
        } else {
            assert(blocks_text(t) =~= buf + rest);
        }
    } else {
        let before = s.subrange(i, a);
        let (m, n) = mention_at(s, a + 1, before);
        lemma_mention_at(s, a + 1, before);
        let j = a + 1 + n;
        assert(ms.skip(1) =~= mentions_from(s, j));
        assert(ms[0] == m);
        let written = buf + before + m.written;
        lemma_mention_source(s, a, before);
        let whole = written + m.trailing;
        assert(whole =~= buf + s.subrange(i, j)) by {
            assert(s.subrange(i, j) =~= before + s.subrange(a, j));
            assert(whole =~= buf + before + (m.written + m.trailing));
        }
        assert(whole + s.skip(j) =~= buf + s.skip(i)) by {
            assert(s.skip(i) =~= s.subrange(i, j) + s.skip(j));
        }
        lemma_resolve_text(s, j, cwd, probes, whole);
        lemma_resolve_text(s, j, cwd, probes.skip(1), whole);
        lemma_resolve_text(s, j, cwd, probes.skip(1), m.trailing);
        if media_of(m.token) is Some {
            let (kind, mime) = media_of(m.token)->0;
            match probes[0] {
                Probe::Missing => {},
                Probe::File { size, data } => {
                    if size > media_cap() {
                        let r = resolve_from(ms.skip(1), rest, cwd, probes.skip(1), whole);
                        if r is Ok {
                            assert(Seq::empty() + (r->Ok_0).blocks =~= (r->Ok_0).blocks);
                        }
                    } else if data is Ok {
                        let r = resolve_from(ms.skip(1), rest, cwd, probes.skip(1), m.trailing);
                        let b = media_block(cwd, m.token, kind, mime, (data->Ok_0)@);
                        if r is Ok {
                            lemma_embedded_text(written, b, (r->Ok_0).blocks);
                            assert(written + (m.trailing + s.skip(j)) =~= whole + s.skip(j));
                        }
                    }
                },
            }
        }
    }
}

/// Resolving media keeps the text: the text blocks, one after the other, are the input as it was
/// typed, whatever it mentions and whatever files were found.
pub proof fn resolved_text_is_the_input<E>(
    input: Seq<char>,
    cwd: Seq<char>,
    probes: Seq<Probe<E>>,
)
    ensures
        resolve_from(mentions_from(input, 0), rest_from(input, 0), cwd, probes, Seq::empty())
            matches Ok(v) ==> blocks_text(v.blocks) == input,
{
    lemma_resolve_text(input, 0, cwd, probes, Seq::empty());
    assert(Seq::<char>::empty() + input.skip(0) =~= input);
}

/// Whether a mention of `token` without quotes, with `trailing` punctuation, can stand before
/// `after`.
pub open spec fn is_plain_mention(token: Seq<char>, trailing: Seq<char>, after: Seq<char>) -> bool {
    &&& token.len() > 0
    &&& token[0] != '"'
    &&& !is_trailing_punct(token.last())
    &&& forall|k: int| 0 <= k < token.len() ==> !is_space(#[trigger] token[k])
    &&& forall|k: int| 0 <= k < trailing.len() ==> is_trailing_punct(#[trigger] trailing[k])
    &&& after.len() > 0 ==> is_space(after[0])
}

proof fn lemma_mention_run(
    s: Seq<char>,
    i: int,
    token: Seq<char>,
    trailing: Seq<char>,
    after: Seq<char>,
)
    requires
        0 <= i <= s.len(),
        s.skip(i) == (token + trailing) + after,
        is_plain_mention(token, trailing, after),
    ensures
        i + token.len() + trailing.len() <= s.len(),
        run(s, non_spaces(), i) == token.len() + trailing.len(),
        s.subrange(i, i + token.len() + trailing.len()) == token + trailing,
        s.subrange(i, i + token.len()) == token,
{
    let raw = token + trailing;
    let n = raw.len();
    let u = s.skip(i);
    assert(u.len() == n + after.len());
    assert(s.len() == i + n + after.len());
    assert forall|k: int| 0 <= k < n implies s[i + k] == raw[k] by {
        assert(u[k] == raw[k]);
    }
    assert forall|k: int| i <= k < i + n implies non_spaces()(#[trigger] s[k]) by {
        assert(s[i + (k - i)] == raw[k - i]);
        if k - i < token.len() {
            assert(raw[k - i] == token[k - i]);
        } else {
            assert(is_trailing_punct(trailing[k - i - token.len()]));
        }
    }
    if i + n < s.len() {
        assert(u[n as int] == after[0]);
    }
    lemma_run_is(s, non_spaces(), i, n);
    assert(s.subrange(i, i + n) =~= raw);
    assert(s.subrange(i, i + token.len()) =~= token) by {
        assert forall|k: int| 0 <= k < token.len() implies s[i + k] == token[k] by {
            assert(s[i + k] == raw[k]);
        }
    }
}

proof fn lemma_trailing_run(token: Seq<char>, trailing: Seq<char>)
    requires
        token.len() > 0,
        !is_trailing_punct(token.last()),
        forall|k: int| 0 <= k < trailing.len() ==> is_trailing_punct(#[trigger] trailing[k]),
    ensures
        run_back(token + trailing, puncts(), (token + trailing).len() as int) == trailing.len(),
        (token + trailing).take(token.len() as int) == token,
        (token + trailing).skip(token.len() as int) == trailing,
{
    let raw = token + trailing;
    let n = raw.len() as int;
    assert forall|k: int| n - trailing.len() <= k < n implies puncts()(#[trigger] raw[k]) by {
        assert(raw[k] == trailing[k - token.len()]);
    }
    assert(raw[token.len() - 1] == token.last());
    lemma_run_back_is(raw, puncts(), n, trailing.len());
    assert(raw.take(token.len() as int) =~= token);
    assert(raw.skip(token.len() as int) =~= trailing);
}

proof fn lemma_plain_mention_at(
    s: Seq<char>,
    a: int,
    before: Seq<char>,
    token: Seq<char>,
    trailing: Seq<char>,
    after: Seq<char>,
)
    requires
        0 <= a < s.len(),
        s[a] == '@',
        s.skip(a + 1) == (token + trailing) + after,
        is_plain_mention(token, trailing, after),
    ensures
        mention_at(s, a + 1, before) == (
            MentionView {
                before,
                written: seq!['@'] + token,
                token,
                trailing,
                quoted: false,
            },
            token.len() + trailing.len(),
        ),
{
    let i = a + 1;
    lemma_mention_run(s, i, token, trailing, after);
    lemma_trailing_run(token, trailing);
    assert(s.subrange(i, i + token.len())[0] == s[i]);
    assert(s[i] == token[0]);
    assert(quoted_at(s, i) is None);
    let n = run(s, non_spaces(), i);
    let raw = s.subrange(i, i + n);
    assert(raw == token + trailing);
    assert(s.subrange(a, i + token.len()) =~= seq!['@'] + token) by {
        assert forall|k: int| 0 <= k < token.len() implies s[i + k] == #[trigger] token[k] by {
            assert(s.subrange(i, i + token.len())[k] == s[i + k]);
        }
    }
}

/// A mention is found behind any text: a name up to white space, without the punctuation that
/// ends a sentence. What was typed before and behind it is kept, and the search goes on behind it.
pub proof fn mentions_are_found(
    before: Seq<char>,
    token: Seq<char>,
    trailing: Seq<char>,
    after: Seq<char>,
)
    requires
        forall|k: int| 0 <= k < before.len() ==> #[trigger] before[k] != '@',
        is_plain_mention(token, trailing, after),
    ensures
        ({
            let s = before.push('@') + ((token + trailing) + after);
            mentions_from(s, 0) == seq![
                MentionView {
                    before,
                    written: seq!['@'] + token,
                    token,
                    trailing,
                    quoted: false,
                },
            ] + mentions_from(s, (s.len() - after.len()) as int)
        }),
{
    let s = before.push('@') + ((token + trailing) + after);
    let a = before.len() as int;
    assert(s.skip(a + 1) =~= (token + trailing) + after);
    assert(s[a] == '@');
    assert forall|k: int| 0 <= k < a implies except('@')(#[trigger] s[k]) by {
        assert(s[k] == before[k]);
    }
    lemma_run_is(s, except('@'), 0, before.len());
    assert(s.subrange(0, a) =~= before);
    lemma_plain_mention_at(s, a, before, token, trailing, after);
    assert(a + 1 + (token.len() + trailing.len()) == s.len() - after.len());
}

/// A mention in quotes is found behind any text, whatever characters the name holds and whatever
/// follows it.
pub proof fn quoted_mentions_are_found(before: Seq<char>, token: Seq<char>, after: Seq<char>)
    requires
        forall|k: int| 0 <= k < before.len() ==> #[trigger] before[k] != '@',
    ensures
        ({
            let s = before + (mention_text(token, true) + after);
            &&& mentions_from(s, 0).len() > 0
            &&& mentions_from(s, 0)[0] == (MentionView {
                before,
                written: mention_text(token, true),
                token,
                trailing: Seq::empty(),
                quoted: true,
            })
            &&& mentions_from(s, 0).skip(1) == mentions_from(s, (s.len() - after.len()) as int)
        }),
{
    let m = mention_text(token, true);
    let s = before + (m + after);
    let a = before.len() as int;
    let e = escaped(token);
    assert(m[0] == '@' && m[1] == '"' && m[2 + e.len() as int] == '"');
    assert(s[a] == '@');
    assert(s[a + 1] == '"');
    assert(s[a + 2 + e.len()] == m[2 + e.len() as int]);
    assert forall|k: int| 0 <= k < a implies except('@')(#[trigger] s[k]) by {
        assert(s[k] == before[k]);
    }
    lemma_run_is(s, except('@'), 0, before.len());
    assert(s.subrange(0, a) =~= before);
    assert(s.subrange(a + 2, a + 2 + e.len()) =~= e) by {
        assert forall|k: int| 0 <= k < e.len() implies s[a + 2 + k] == e[k] by {
            assert(m[2 + k] == e[k]);
        }
    }
    lemma_quoted_escaped(s, a + 2, token);
    assert(s.subrange(a, a + 3 + e.len()) =~= m) by {
        assert forall|k: int| 0 <= k < m.len() implies s[a + k] == m[k] by {}
    }
    let n = (e.len() + 2) as nat;
    assert(mention_at(s, a + 1, before).1 == n);
    assert(mentions_from(s, 0) == seq![mention_at(s, a + 1, before).0] + mentions_from(
        s,
        a + 1 + n,
    ));
    assert(mentions_from(s, 0).skip(1) =~= mentions_from(s, a + 1 + n));
}

/// Text without a mention names nothing and stays as it is.
pub proof fn text_without_mentions_stays<E>(input: Seq<char>, cwd: Seq<char>, probes: Seq<Probe<E>>)
    requires
        forall|k: int| 0 <= k < input.len() ==> #[trigger] input[k] != '@',
        input.len() > 0,
    ensures
        mentions_from(input, 0).len() == 0,
        resolve_from(mentions_from(input, 0), rest_from(input, 0), cwd, probes, Seq::empty()) == Ok::<
            ResolvedView,
            E,
        >(ResolvedView { blocks: seq![BlockView::Text(input)], warnings: Seq::empty() }),
{
    lemma_run_is(input, except('@'), 0, input.len());
    assert(input.skip(0) =~= input);
    assert(Seq::<char>::empty() + input =~= input);
}

/// Images and documents are told by the ending of their name, in any letter case and wherever
/// they lie.
pub proof fn media_are_told_by_their_ending(dir: Seq<char>, stem: Seq<char>, ending: Seq<char>)
    requires
        stem.len() > 0,
        forall|i: int| 0 <= i < stem.len() ==> #[trigger] stem[i] != '/',
        ending.len() > 0,
        forall|i: int| 0 <= i < ending.len() ==> #[trigger] ending[i] != '/' && ending[i] != '.',
    ensures
        ({
            let m = media_of(join_path(dir, stem.push('.') + ending));
            let l = lower(ending);
            &&& l == "png"@ ==> m == Some((MediaKind::Image, "image/png"@))
            &&& l == "jpg"@ || l == "jpeg"@ ==> m == Some((MediaKind::Image, "image/jpeg"@))
            &&& l == "gif"@ ==> m == Some((MediaKind::Image, "image/gif"@))
            &&& l == "webp"@ ==> m == Some((MediaKind::Image, "image/webp"@))
            &&& l == "pdf"@ ==> m == Some((MediaKind::File, "application/pdf"@))
            &&& m is Some ==> l == "png"@ || l == "jpg"@ || l == "jpeg"@ || l == "gif"@ || l
                == "webp"@ || l == "pdf"@
        }),
{
    stems_and_endings_are_told_apart(dir, stem, ending);
    lowering_maps_capitals_only(ending, ' ');
    reveal_strlit("png");
    reveal_strlit("jpg");
    reveal_strlit("jpeg");
    reveal_strlit("gif");
    reveal_strlit("webp");
    reveal_strlit("pdf");
    assert("png"@.len() == 3 && "jpg"@.len() == 3 && "gif"@.len() == 3 && "pdf"@.len() == 3
        && "jpeg"@.len() == 4 && "webp"@.len() == 4);
    assert("png"@[1] == 'n' && "jpg"@[1] == 'p' && "gif"@[1] == 'i' && "pdf"@[1] == 'd');
    assert("jpeg"@[0] == 'j' && "webp"@[0] == 'w');
}

/// What becomes of the first mention of a file: one that is there and not too large follows its
/// mention as a block that holds it whole; one that is too large is named in a warning and left
/// out; one that is not there is left out; and one that cannot be read gives its error. Whatever
/// becomes of it, the mention stays in the text and the rest is looked at in the same way.
#[verifier::rlimit(40)]
pub proof fn each_mention_is_answered<E>(
    ms: Seq<MentionView>,
    rest: Seq<char>,
    cwd: Seq<char>,
    probes: Seq<Probe<E>>,
    buf: Seq<char>,
)
    requires
        ms.len() > 0,
        media_of(ms[0].token) is Some,
        probes.len() > 0,
    ensures
        ({
            let m = ms[0];
            let (kind, mime) = media_of(m.token)->0;
            let text = buf + m.before + m.written;
            let all = resolve_from(ms, rest, cwd, probes, buf);
            let plain = resolve_from(ms.skip(1), rest, cwd, probes.skip(1), text + m.trailing);
            let behind = resolve_from(ms.skip(1), rest, cwd, probes.skip(1), m.trailing);
            match probes[0] {
                Probe::Missing => all == plain,
                Probe::File { size, data } => if size > 8 * 1024 * 1024 {
                    &&& (all is Ok) == (plain is Ok)
                    &&& all matches Ok(v) ==> v.blocks == (plain->Ok_0).blocks && v.warnings == seq![
                        WarningView { kind, token: m.token, size },
                    ] + (plain->Ok_0).warnings
                } else {
                    match data {
                        Err(e) => all == Err::<ResolvedView, E>(e),
                        Ok(d) => {
                            &&& (all is Ok) == (behind is Ok)
                            &&& all matches Ok(v) ==> v.warnings == (behind->Ok_0).warnings
                                && v.blocks.len() == 2 + (behind->Ok_0).blocks.len() && v.blocks[0]
                                == BlockView::Text(text) && (kind == MediaKind::Image
                                ==> v.blocks[1] == (BlockView::Image { data: d@, media_type: mime }))
                                && (kind == MediaKind::File ==> v.blocks[1] is File
                                && v.blocks[1]->File_data == d@ && v.blocks[1]->File_media_type
                                == mime && v.blocks[1]->filename == embedded_name(
                                join_path(cwd, m.token),
                            )) && v.blocks.skip(2) == (behind->Ok_0).blocks
                        },
                    }
                },
            }
        }),
{
    let all = resolve_from(ms, rest, cwd, probes, buf);
    if all is Ok {
        let v = all->Ok_0;
        let m = ms[0];
        let text = buf + m.before + m.written;
        let plain = resolve_from(ms.skip(1), rest, cwd, probes.skip(1), text + m.trailing);
        let behind = resolve_from(ms.skip(1), rest, cwd, probes.skip(1), m.trailing);
        match probes[0] {
            Probe::Missing => {},
            Probe::File { size, data } => if size > 8 * 1024 * 1024 {
                assert(v.blocks =~= (plain->Ok_0).blocks);
            } else {
                assert(v.warnings =~= (behind->Ok_0).warnings);
                assert(v.blocks.skip(2) =~= (behind->Ok_0).blocks);
            },
        }
    }
}

/// A mention that names no image and no document is text and nothing more.
pub proof fn other_mentions_are_text<E>(
    ms: Seq<MentionView>,
    rest: Seq<char>,
    cwd: Seq<char>,
    probes: Seq<Probe<E>>,
    buf: Seq<char>,
)
    requires
        ms.len() > 0,
        media_of(ms[0].token) is None,
    ensures
        resolve_from(ms, rest, cwd, probes, buf) == resolve_from(
            ms.skip(1),
            rest,
            cwd,
            probes,
            buf + ms[0].before + ms[0].written + ms[0].trailing,
        ),
{
}

/// A document is embedded under its own name.
pub proof fn documents_keep_their_name(dir: Seq<char>, name: Seq<char>)
    requires
        is_file_name(name),
    ensures
        embedded_name(join_path(dir, name)) == name,
{
    joined_paths_end_in_their_name(dir, name);
}

/// What is resolved holds the text as it was typed, whatever was mentioned and found.
pub proof fn resolved_lines_keep_their_text<E>(
    input: &str,
    cwd: &str,
    probes: Vec<Probe<E>>,
    r: Result<Resolved, E>,
)
    requires
        call_ensures(resolve_media::<E>, (input, cwd, probes), r),
    ensures
        r matches Ok(v) ==> blocks_text(v@.blocks) == input@,
{
    resolved_text_is_the_input(input@, cwd@, probes@);
}

/// Whether blocks hold an image or a file is told by looking at each of them.
pub proof fn attachments_are_seen(blocks: Vec<ContentBlock>, images: bool, files: bool, i: int)
    requires
        call_ensures(has_images, (&blocks,), images),
        call_ensures(has_files, (&blocks,), files),
        0 <= i < blocks@.len(),
    ensures
        blocks@[i]@ is Image ==> images,
        blocks@[i]@ is File ==> files,
{
}

/// Each mention of an image or a document is looked for, in order and below the working directory,
/// and nothing else is.
pub proof fn mentioned_media_are_looked_for(
    input: &str,
    cwd: &str,
    r: Vec<MediaRequest>,
    i: int,
)
    requires
        call_ensures(media_requests, (input, cwd), r),
        0 <= i < r@.len(),
    ensures
        r@.len() == media_mentions(mentions_from(input@, 0)).len(),
        r@[i].path@ == join_path(cwd@, media_mentions(mentions_from(input@, 0))[i].token),
        media_of(media_mentions(mentions_from(input@, 0))[i].token) is Some ==> r@[i].kind == (
        media_of(media_mentions(mentions_from(input@, 0))[i].token)->0).0,
{
}

/// A mention that names media is one that is looked for, and one more mention in front changes
/// nothing of those behind it.
pub proof fn media_mentions_keep_their_order(m: MentionView, ms: Seq<MentionView>)
    ensures
        media_of(m.token) is Some ==> media_mentions(seq![m] + ms) == seq![m] + media_mentions(ms),
        media_of(m.token) is None ==> media_mentions(seq![m] + ms) == media_mentions(ms),
{
    let all = seq![m] + ms;
    lemma_media_mentions(all);
    assert(all.skip(1) =~= ms);
    assert(all[0] == m);
}

/// What ends a sentence is no part of a name: commas, full stops and closing brackets are taken
/// off, and nothing that a name is made of is.
pub proof fn names_keep_their_characters(c: char)
    ensures
        is_digit(c) || is_ascii_upper(c) || is_ascii_lower(c) || c == '/' || c == '-' || c == '_'
            ==> !is_trailing_punct(c),
        c == '.' || c == ',' || c == ';' || c == ':' || c == '?' || c == '!' || c == ')' || c == ']'
            || c == '}' ==> is_trailing_punct(c),
        (c as u32) >= 128 ==> !is_trailing_punct(c),
{
}

} // verus!
