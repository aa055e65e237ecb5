//! Safe names for the segments of project paths: the segments of a path as
//! Unix reads it, and each segment cleaned of characters that file systems
//! refuse.
use vstd::prelude::*;
use crate::text::string_push;

verus! {

/// A character a file name may not hold: one of `/ ? < > \ : * | "`, or a
/// control character (U+0000 to U+001F, U+0080 to U+009F).
pub open spec fn illegal_name_char(c: char) -> bool {
    ||| c == '/' || c == '?' || c == '<' || c == '>' || c == '\\'
    ||| c == ':' || c == '*' || c == '|' || c == '"'
    ||| (c as u32) <= 0x1f
    ||| (0x80 <= (c as u32) && (c as u32) <= 0x9f)
}

/// The number of bytes UTF-8 writes `c` with.
pub open spec fn utf8_len(c: char) -> nat {
    if (c as u32) < 0x80 {
        1
    } else if (c as u32) < 0x800 {
        2
    } else if (c as u32) < 0x10000 {
        3
    } else {
        4
    }
}

/// The number of bytes UTF-8 writes `s` with.
pub open spec fn utf8_size(s: Seq<char>) -> nat
    decreases s.len(),
{
    if s.len() == 0 {
        0
    } else {
        utf8_size(s.drop_last()) + utf8_len(s.last())
    }
}

/// The longest start of `s` that UTF-8 writes in at most `limit` bytes.
pub open spec fn truncate_bytes(s: Seq<char>, limit: nat) -> Seq<char>
    decreases s.len(),
{
    if utf8_size(s) <= limit || s.len() == 0 {
        s
    } else {
        truncate_bytes(s.drop_last(), limit)
    }
}

/// Every character of `s` is a dot, and there is one.
pub open spec fn all_dots(s: Seq<char>) -> bool {
    s.len() > 0 && forall|i: int| 0 <= i < s.len() ==> s[i] == '.'
}

/// `s` with each character a file name may not hold replaced by `_`.
pub open spec fn replace_illegal(s: Seq<char>) -> Seq<char> {
    s.map_values(|c: char| if illegal_name_char(c) { '_' } else { c })
}

/// The clean form of a file name on a Unix system: characters a name may
/// not hold become `_`, a name of dots only becomes `_`, and the name is cut
/// to at most 255 bytes.
pub open spec fn sanitized_name(s: Seq<char>) -> Seq<char> {
    let r = replace_illegal(s);
    truncate_bytes(if all_dots(r) { seq!['_'] } else { r }, 255)
}

/// `c` with an ASCII capital letter made small.
pub open spec fn ascii_lower(c: char) -> char {
    if 65 <= (c as u32) && (c as u32) <= 90 {
        ((c as u32) + 32) as char
    } else {
        c
    }
}

/// A name Windows reserves for a device: `con`, `prn`, `aux`, `nul`, or
/// `com` or `lpt` and a digit, in any case, alone or before a dot.
pub open spec fn is_device_name(s: Seq<char>) -> bool {
    let l = s.map_values(|c: char| ascii_lower(c));
    let three = l.take(3);
    ||| l.len() >= 3 && (three == seq!['c', 'o', 'n'] || three == seq!['p', 'r', 'n'] || three
        == seq!['a', 'u', 'x'] || three == seq!['n', 'u', 'l']) && (l.len() == 3 || l[3] == '.')
    ||| l.len() >= 4 && (three == seq!['c', 'o', 'm'] || three == seq!['l', 'p', 't']) && 48 <= (
    l[3] as u32) && (l[3] as u32) <= 57 && (l.len() == 4 || l[4] == '.')
}

/// A dot or a space.
pub open spec fn dot_or_space(c: char) -> bool {
    c == '.' || c == ' '
}

/// `s` without its trailing dots and spaces.
pub open spec fn strip_trailing(s: Seq<char>) -> Seq<char>
    decreases s.len(),
{
    if s.len() > 0 && dot_or_space(s.last()) {
        strip_trailing(s.drop_last())
    } else {
        s
    }
}

/// `s` with its trailing run of dots and spaces, if it has one, made `_`.
pub open spec fn replace_trailing(s: Seq<char>) -> Seq<char> {
    if s.len() > 0 && dot_or_space(s.last()) {
        strip_trailing(s) + seq!['_']
    } else {
        s
    }
}

/// The clean form of a file name on Windows: as on Unix, but before the
/// cut a device name becomes `_`, and a trailing run of dots and spaces
/// becomes `_`.
pub open spec fn windows_sanitized_name(s: Seq<char>) -> Seq<char> {
    let r = replace_illegal(s);
    let r = if all_dots(r) { seq!['_'] } else { r };
    let r = if is_device_name(r) { seq!['_'] } else { r };
    truncate_bytes(replace_trailing(r), 255)
}

/// The clean form of a file name on the rules chosen.
pub open spec fn clean_name(s: Seq<char>, windows: bool) -> Seq<char> {
    if windows {
        windows_sanitized_name(s)
    } else {
        sanitized_name(s)
    }
}

/// `sanitize_filename::sanitize_with_options`, with `_` as the replacement
/// and cutting to 255 bytes on. The result is `clean_name` of the input:
/// each character the crate's illegal and control patterns match becomes
/// `_`, a name of dots only becomes `_`; on Windows rules a whole name the
/// crate's device pattern matches (case-insensitive, ASCII letters and
/// digits, the rest of the name empty or from a dot on) becomes `_`, and the
/// trailing run of dots and spaces becomes `_`; then the name is cut at the
/// last character boundary within 255 bytes.
#[verifier::external_body]
fn sanitize_with_options(name: &str, windows: bool) -> (r: String)
    ensures
        r@ == clean_name(name@, windows),
{
    sanitize_filename::sanitize_with_options(
        name,
        sanitize_filename::Options { windows, truncate: true, replacement: "_" },
    )
}

/// The pieces of `p` between slashes, from left to right; a path without a
/// slash is one piece.
pub open spec fn split_slash(p: Seq<char>) -> Seq<Seq<char>>
    decreases p.len(),
{
    if p.len() == 0 {
        seq![Seq::<char>::empty()]
    } else {
        let rest = split_slash(p.drop_last());
        if p.last() == '/' {
            rest.push(Seq::<char>::empty())
        } else {
            rest.update(rest.len() - 1, rest.last().push(p.last()))
        }
    }
}

/// A piece that names a directory or a file: not empty and not `.`.
pub open spec fn named_piece(s: Seq<char>) -> bool {
    s.len() > 0 && s != seq!['.']
}

/// The segments of a Unix path, as `Path::iter` gives them: `/` first for
/// an absolute path, `.` first for a path that starts with `./` or is `.`,
/// then each piece between slashes that is not empty and not `.`.
pub open spec fn path_segments(p: Seq<char>) -> Seq<Seq<char>> {
    let head = if p.len() > 0 && p[0] == '/' {
        seq![seq!['/']]
    } else if p.len() > 0 && p[0] == '.' && (p.len() == 1 || p[1] == '/') {
        seq![seq!['.']]
    } else {
        Seq::empty()
    };
    head + named_pieces(split_slash(p))
}

/// The pieces that name something, in order.
pub open spec fn named_pieces(pieces: Seq<Seq<char>>) -> Seq<Seq<char>>
    decreases pieces.len(),
{
    if pieces.len() == 0 {
        pieces
    } else if named_piece(pieces.last()) {
        named_pieces(pieces.drop_last()).push(pieces.last())
    } else {
        named_pieces(pieces.drop_last())
    }
}

/// Each segment made a clean name on the rules chosen.
pub open spec fn sanitized_names(segments: Seq<Seq<char>>, windows: bool) -> Seq<Seq<char>>
    decreases segments.len(),
{
    if segments.len() == 0 {
        segments
    } else {
        sanitized_names(segments.drop_last(), windows).push(clean_name(segments.last(), windows))
    }
}

/// The segments joined with `/` between them.
pub open spec fn join_segments(segments: Seq<Seq<char>>) -> Seq<char>
    decreases segments.len(),
{
    if segments.len() == 0 {
        Seq::empty()
    } else if segments.len() == 1 {
        segments[0]
    } else {
        join_segments(segments.drop_last()) + seq!['/'] + segments.last()
    }
}

/// The segments of `p`, each made a clean name on the rules chosen,
/// joined again.
pub open spec fn sanitized_path(p: Seq<char>, windows: bool) -> Seq<char> {
    join_segments(sanitized_names(path_segments(p), windows))
}

/// Appends the clean form of a segment to a path being built, and gives
/// the clean form.
fn push_segment(out: &mut String, segment: &str, windows: bool, first: bool, done: Ghost<Seq<Seq<char>>>) -> (made: Ghost<Seq<char>>)
    requires
        old(out)@ == join_segments(done@),
        first == (done@.len() == 0),
    ensures
        made@ == clean_name(segment@, windows),
        forall|i: int| 0 <= i < made@.len() ==> !illegal_name_char(#[trigger] made@[i]),
        final(out)@ == join_segments(done@.push(made@)),
{
    let clean = sanitize_with_options(segment, windows);
    proof {
        lemma_clean_name_clean(segment@, windows);
    }
    if !first {
        string_push(out, '/');
    }
    out.append(clean.as_str());
    assert(done@.push(clean@).drop_last() =~= done@);
    assert(final(out)@ =~= join_segments(done@.push(clean@)));
    Ghost(clean@)
}

/// Whether `s` is a piece that names something: not empty and not `.`.
pub(crate) fn is_named_piece(s: &str) -> (r: bool)
    ensures
        r == named_piece(s@),
{
    let n = s.unicode_len();
    if n == 0 {
        return false;
    }
    if n == 1 && s.get_char(0) == '.' {
        assert(s@ =~= seq!['.']);
        return false;
    }
    assert(s@ != seq!['.']) by {
        if s@ == seq!['.'] {
            assert(s@[0] == '.');
        }
    }
    true
}

/// The segments hold no character a file name may not hold.
pub open spec fn clean_segments(segments: Seq<Seq<char>>) -> bool {
    forall|k: int, i: int|
        0 <= k < segments.len() && 0 <= i < segments[k].len() ==> !illegal_name_char(
            #[trigger] segments[k][i],
        )
}

/// A path with each of its segments made a clean name on the rules chosen
/// (see `sanitized_path`); segments are read as on Unix. It holds no
/// character a file name may not hold but the slashes between its segments.
pub fn sanitize_path(path: &str, windows: bool) -> (r: String)
    ensures
        r@ == sanitized_path(path@, windows),
        forall|i: int| 0 <= i < r@.len() ==> #[trigger] r@[i] == '/' || !illegal_name_char(r@[i]),
{
    let n = path.unicode_len();
    let mut out = String::new();
    let ghost mut done: Seq<Seq<char>> = Seq::empty();
    let ghost head: Seq<Seq<char>> = if n > 0 && path@[0] == '/' {
        seq![seq!['/']]
    } else if n > 0 && path@[0] == '.' && (n == 1 || path@[1] == '/') {
        seq![seq!['.']]
    } else {
        Seq::empty()
    };
    assert(out@ =~= join_segments(done));
    let mut empty: bool = true;
    if n > 0 && path.get_char(0) == '/' {
        proof {
            reveal_strlit("/");
            assert("/"@ =~= seq!['/']);
        }
        let made = push_segment(&mut out, "/", windows, true, Ghost(done));
        proof {
            lemma_clean_push(done, made@);
            done = done.push(made@);
            assert(head.drop_last() =~= Seq::<Seq<char>>::empty());
            assert(sanitized_names(head.drop_last(), windows) =~= Seq::<Seq<char>>::empty());
            assert(done =~= sanitized_names(head, windows));
        }
        empty = false;
    } else if n > 0 && path.get_char(0) == '.' && (n == 1 || path.get_char(1) == '/') {
        proof {
            reveal_strlit(".");
            assert("."@ =~= seq!['.']);
        }
        let made = push_segment(&mut out, ".", windows, true, Ghost(done));
        proof {
            lemma_clean_push(done, made@);
            done = done.push(made@);
            assert(head.drop_last() =~= Seq::<Seq<char>>::empty());
            assert(sanitized_names(head.drop_last(), windows) =~= Seq::<Seq<char>>::empty());
            assert(done =~= sanitized_names(head, windows));
        }
        empty = false;
    }
    proof {
        if head.len() == 0 {
            assert(done =~= sanitized_names(head, windows));
        }
    }
    let mut cur = String::new();
    let ghost mut closed: Seq<Seq<char>> = Seq::empty();
    let mut i: usize = 0;
    assert(path@.take(0) =~= Seq::<char>::empty());
    assert(split_slash(path@.take(0)) =~= closed.push(cur@));
    while i < n
        invariant
            i <= n,
            n == path@.len(),
            split_slash(path@.take(i as int)) == closed.push(cur@),
            out@ == join_segments(done),
            clean_segments(done),
            empty == (done.len() == 0),
            done == sanitized_names(head + named_pieces(closed), windows),
        decreases n - i,
    {
        let c = path.get_char(i);
        assert(path@.take(i + 1).drop_last() =~= path@.take(i as int));
        assert(path@.take(i + 1).last() == c);
        if c == '/' {
            let ghost old_closed = closed;
            let ghost old_done = done;
            if is_named_piece(cur.as_str()) {
                let made = push_segment(&mut out, cur.as_str(), windows, empty, Ghost(done));
                proof {
                    lemma_clean_push(done, made@);
                    done = done.push(made@);
                }
                empty = false;
            }
            proof {
                closed = closed.push(cur@);
                assert(closed.drop_last() =~= old_closed);
                if named_piece(cur@) {
                    assert(named_pieces(closed) == named_pieces(old_closed).push(cur@));
                    let joined = head + named_pieces(closed);
                    assert(joined.drop_last() =~= head + named_pieces(old_closed));
                    assert(done =~= sanitized_names(joined, windows));
                } else {
                    assert(named_pieces(closed) == named_pieces(old_closed));
                }
            }
            cur = String::new();
            proof {
                assert(split_slash(path@.take(i + 1)) =~= closed.push(cur@));
            }
        } else {
            let ghost old_cur = cur@;
            string_push(&mut cur, c);
            proof {
                assert(split_slash(path@.take(i + 1)) =~= closed.push(cur@));
            }
        }
        i = i + 1;
    }
    assert(path@.take(n as int) =~= path@);
    let ghost last_closed = closed;
    if is_named_piece(cur.as_str()) {
        let made = push_segment(&mut out, cur.as_str(), windows, empty, Ghost(done));
        proof {
            lemma_clean_push(done, made@);
            done = done.push(made@);
        }
    }
    proof {
        let all = closed.push(cur@);
        assert(all.drop_last() =~= closed);
        if named_piece(cur@) {
            assert(named_pieces(all) == named_pieces(closed).push(cur@));
            let joined = head + named_pieces(all);
            assert(joined.drop_last() =~= head + named_pieces(closed));
            assert(done =~= sanitized_names(joined, windows));
        } else {
            assert(named_pieces(all) == named_pieces(closed));
        }
        assert(path_segments(path@) =~= head + named_pieces(all));
        lemma_join_chars(done);
    }
    out
}

/// Adding a clean segment keeps the segments clean.
proof fn lemma_clean_push(done: Seq<Seq<char>>, made: Seq<char>)
    requires
        clean_segments(done),
        forall|i: int| 0 <= i < made.len() ==> !illegal_name_char(#[trigger] made[i]),
    ensures
        clean_segments(done.push(made)),
{
    let d = done.push(made);
    assert forall|k: int, i: int| 0 <= k < d.len() && 0 <= i < d[k].len() implies !illegal_name_char(
        #[trigger] d[k][i],
    ) by {
        if k < done.len() {
            assert(d[k] == done[k]);
        }
    }
}

/// Cutting to a byte limit keeps a start of the text, within the limit.
pub proof fn lemma_truncate_bytes(s: Seq<char>, limit: nat)
    ensures
        utf8_size(truncate_bytes(s, limit)) <= limit,
        truncate_bytes(s, limit).len() <= s.len(),
        truncate_bytes(s, limit) == s.take(truncate_bytes(s, limit).len() as int),
    decreases s.len(),
{
    if utf8_size(s) <= limit || s.len() == 0 {
        assert(s.take(s.len() as int) =~= s);
    } else {
        lemma_truncate_bytes(s.drop_last(), limit);
        let t = truncate_bytes(s.drop_last(), limit);
        assert(s.drop_last().take(t.len() as int) =~= s.take(t.len() as int));
    }
}

/// A clean name, on either rules, holds no character a file name may not
/// hold, and fits in 255 bytes.
pub proof fn lemma_clean_name_clean(s: Seq<char>, windows: bool)
    ensures
        forall|i: int|
            0 <= i < clean_name(s, windows).len() ==> !illegal_name_char(
                #[trigger] clean_name(s, windows)[i],
            ),
        utf8_size(clean_name(s, windows)) <= 255,
{
    let r = replace_illegal(s);
    let x = if all_dots(r) { seq!['_'] } else { r };
    assert forall|i: int| 0 <= i < x.len() implies !illegal_name_char(#[trigger] x[i]) by {
        if !all_dots(r) {
            assert(r[i] == (if illegal_name_char(s[i]) { '_' } else { s[i] }));
        }
    }
    let y = if windows {
        let d = if is_device_name(x) { seq!['_'] } else { x };
        assert forall|i: int| 0 <= i < d.len() implies !illegal_name_char(#[trigger] d[i]) by {}
        let t = replace_trailing(d);
        if d.len() > 0 && dot_or_space(d.last()) {
            lemma_strip_trailing_prefix(d);
            let st = strip_trailing(d);
            assert forall|i: int| 0 <= i < t.len() implies !illegal_name_char(#[trigger] t[i]) by {
                if i < st.len() {
                    assert(t[i] == d[i]);
                }
            }
        }
        t
    } else {
        x
    };
    assert forall|i: int| 0 <= i < y.len() implies !illegal_name_char(#[trigger] y[i]) by {}
    lemma_truncate_bytes(y, 255);
    let t = truncate_bytes(y, 255);
    assert forall|i: int| 0 <= i < t.len() implies !illegal_name_char(#[trigger] t[i]) by {
        assert(t[i] == y.take(t.len() as int)[i]);
    }
    assert(clean_name(s, windows) == t);
}

/// Dropping trailing dots and spaces keeps a start of the text.
proof fn lemma_strip_trailing_prefix(s: Seq<char>)
    ensures
        strip_trailing(s).len() <= s.len(),
        strip_trailing(s) == s.take(strip_trailing(s).len() as int),
    decreases s.len(),
{
    if s.len() > 0 && dot_or_space(s.last()) {
        lemma_strip_trailing_prefix(s.drop_last());
        let t = strip_trailing(s.drop_last());
        assert(s.drop_last().take(t.len() as int) =~= s.take(t.len() as int));
    } else {
        assert(s.take(s.len() as int) =~= s);
    }
}

/// Joined segments hold only the segments' characters and the slashes
/// between them.
proof fn lemma_join_chars(segments: Seq<Seq<char>>)
    requires
        forall|k: int, i: int|
            0 <= k < segments.len() && 0 <= i < segments[k].len() ==> !illegal_name_char(
                #[trigger] segments[k][i],
            ),
    ensures
        forall|i: int|
            0 <= i < join_segments(segments).len() ==> #[trigger] join_segments(segments)[i] == '/'
                || !illegal_name_char(join_segments(segments)[i]),
    decreases segments.len(),
{
    if segments.len() > 1 {
        let front = segments.drop_last();
        assert forall|k: int, i: int|
            0 <= k < front.len() && 0 <= i < front[k].len() implies !illegal_name_char(
            #[trigger] front[k][i],
        ) by {
            assert(front[k] == segments[k]);
        }
        lemma_join_chars(front);
        let a = join_segments(front);
        let j = join_segments(segments);
        assert(j == a + seq!['/'] + segments.last());
        assert forall|i: int| 0 <= i < j.len() implies #[trigger] j[i] == '/' || !illegal_name_char(
            j[i],
        ) by {
            if i < a.len() {
                assert(j[i] == a[i]);
            } else if i > a.len() {
                assert(j[i] == segments.last()[i - a.len() - 1]);
                assert(segments[segments.len() - 1] == segments.last());
            }
        }
    } else if segments.len() == 1 {
        assert forall|i: int| 0 <= i < segments[0].len() implies !illegal_name_char(
            #[trigger] segments[0][i],
        ) by {}
    }
}

/// Each segment made a clean name is clean.
proof fn lemma_sanitized_names_clean(segments: Seq<Seq<char>>, windows: bool)
    ensures
        sanitized_names(segments, windows).len() == segments.len(),
        forall|k: int, i: int|
            0 <= k < sanitized_names(segments, windows).len() && 0 <= i < sanitized_names(
                segments,
                windows,
            )[k].len() ==> !illegal_name_char(#[trigger] sanitized_names(segments, windows)[k][i]),
    decreases segments.len(),
{
    if segments.len() > 0 {
        lemma_sanitized_names_clean(segments.drop_last(), windows);
        lemma_clean_name_clean(segments.last(), windows);
        let n = sanitized_names(segments, windows);
        let f = sanitized_names(segments.drop_last(), windows);
        assert forall|k: int, i: int| 0 <= k < n.len() && 0 <= i < n[k].len() implies !illegal_name_char(
            #[trigger] n[k][i],
        ) by {
            if k < f.len() {
                assert(n[k] == f[k]);
            } else {
                assert(n[k] == clean_name(segments.last(), windows));
            }
        }
    }
}

/// On either rules, a sanitized path holds no character a file name may
/// not hold, except the slashes between its segments.
pub proof fn lemma_sanitized_path_clean(p: Seq<char>, windows: bool)
    ensures
        forall|i: int|
            0 <= i < sanitized_path(p, windows).len() ==> #[trigger] sanitized_path(p, windows)[i] == '/'
                || !illegal_name_char(sanitized_path(p, windows)[i]),
{
    lemma_sanitized_names_clean(path_segments(p), windows);
    lemma_join_chars(sanitized_names(path_segments(p), windows));
}

} // verus!
