//! The text that defines the pack formats: two lists, `data` and
//! `resource`, of `(<format>, <versions>)` entries, where the versions are a
//! release (`1.18.2`, or `1.18` for patch 0), a range of patches of one
//! release (`1.18..1.18.2`) or a bracketed list of those. For example
//! `data = [(8, [1.18, 1.18.1]), (9, 1.18.2)], resource = [(8, 1.18..1.18.2)]`.
use vstd::prelude::*;
use crate::text::{dec_u8, digit_value, digits_value, is_digit, push_dec_u8, string_push};
use crate::version_macro::{
    expand_list_spec, FormatList, PackFormat, SemanticVersion, VersionExpandError, VersionSet,
    VersionSetElement,
};

verus! {

/// A format number with the version elements written for it.
pub type FormatEntryText = (u8, Seq<VersionSetElement>);

pub open spec fn is_space(c: char) -> bool {
    c == ' ' || c == '\t' || c == '\n' || c == '\r'
}

/// A character that continues a name.
pub open spec fn is_name_char(c: char) -> bool {
    ('a' <= c && c <= 'z') || ('A' <= c && c <= 'Z') || ('0' <= c && c <= '9') || c == '_'
}

/// The first position from `i` on that is not white space.
pub open spec fn skip_ws(s: Seq<char>, i: int) -> int
    decreases s.len() - i,
{
    if 0 <= i < s.len() && is_space(s[i]) {
        skip_ws(s, i + 1)
    } else {
        i
    }
}

/// The first position from `i` on that is not a digit.
pub open spec fn digits_end(s: Seq<char>, i: int) -> int
    decreases s.len() - i,
{
    if 0 <= i < s.len() && is_digit(s[i]) {
        digits_end(s, i + 1)
    } else {
        i
    }
}

/// Whether `s` has the character `c` at `i`.
pub open spec fn has_at(s: Seq<char>, i: int, c: char) -> bool {
    0 <= i < s.len() && s[i] == c
}

/// A number at `i` that fits a byte, and where it ends.
pub open spec fn spec_num(s: Seq<char>, i: int) -> Option<(u8, int)> {
    let j = digits_end(s, i);
    if j > i && digits_value(s.subrange(i, j)) <= 255 {
        Some((digits_value(s.subrange(i, j)) as u8, j))
    } else {
        None
    }
}

/// A release at `i`: `<major>.<minor>`, then `.<patch>` unless the dot
/// starts `..`; and where it ends.
pub open spec fn spec_version(s: Seq<char>, i: int) -> Option<(SemanticVersion, int)> {
    match spec_num(s, i) {
        None => None,
        Some((major, j)) => if !has_at(s, j, '.') {
            None
        } else {
            match spec_num(s, j + 1) {
                None => None,
                Some((minor, k)) => {
                    let d = skip_ws(s, k);
                    if has_at(s, d, '.') && !has_at(s, d + 1, '.') {
                        match spec_num(s, skip_ws(s, d + 1)) {
                            None => None,
                            Some((patch, e)) => Some((SemanticVersion { major, minor, patch }, e)),
                        }
                    } else {
                        Some((SemanticVersion { major, minor, patch: 0 }, k))
                    }
                },
            }
        },
    }
}

/// A version element at `i`: a release, or two releases joined by `..`.
pub open spec fn spec_element(s: Seq<char>, i: int) -> Option<(VersionSetElement, int)> {
    match spec_version(s, i) {
        None => None,
        Some((start, j)) => {
            let d = skip_ws(s, j);
            if has_at(s, d, '.') && has_at(s, d + 1, '.') {
                match spec_version(s, skip_ws(s, d + 2)) {
                    None => None,
                    Some((end, k)) => Some((VersionSetElement::Range(start, end), k)),
                }
            } else {
                Some((VersionSetElement::Single(start), j))
            }
        },
    }
}

/// The rest of a bracketed list of elements from `i`, up to and with its
/// closing bracket: elements separated by commas, a comma after the last
/// allowed.
pub open spec fn spec_elements(s: Seq<char>, i: int) -> Option<(Seq<VersionSetElement>, int)>
    decreases s.len() - i,
{
    let a = skip_ws(s, i);
    if has_at(s, a, ']') {
        Some((Seq::empty(), a + 1))
    } else {
        match spec_element(s, a) {
            None => None,
            Some((e, j)) => {
                let b = skip_ws(s, j);
                if has_at(s, b, ']') {
                    Some((seq![e], b + 1))
                } else if has_at(s, b, ',') && b + 1 > i && b + 1 <= s.len() {
                    match spec_elements(s, b + 1) {
                        None => None,
                        Some((rest, k)) => Some((seq![e] + rest, k)),
                    }
                } else {
                    None
                }
            },
        }
    }
}

/// The versions of an entry at `i`: a bracketed list, or one element.
pub open spec fn spec_set(s: Seq<char>, i: int) -> Option<(Seq<VersionSetElement>, int)> {
    if has_at(s, i, '[') {
        spec_elements(s, i + 1)
    } else {
        match spec_element(s, i) {
            None => None,
            Some((e, j)) => Some((seq![e], j)),
        }
    }
}

/// An entry `(<format>, <versions>)` at `i`.
pub open spec fn spec_entry(s: Seq<char>, i: int) -> Option<(FormatEntryText, int)> {
    if !has_at(s, i, '(') {
        None
    } else {
        match spec_num(s, skip_ws(s, i + 1)) {
            None => None,
            Some((id, b)) => {
                let c = skip_ws(s, b);
                if !has_at(s, c, ',') {
                    None
                } else {
                    match spec_set(s, skip_ws(s, c + 1)) {
                        None => None,
                        Some((elements, e)) => {
                            let f = skip_ws(s, e);
                            if has_at(s, f, ')') {
                                Some(((id, elements), f + 1))
                            } else {
                                None
                            }
                        },
                    }
                }
            },
        }
    }
}

/// The rest of a bracketed list of entries from `i`, up to and with its
/// closing bracket.
pub open spec fn spec_entries(s: Seq<char>, i: int) -> Option<(Seq<FormatEntryText>, int)>
    decreases s.len() - i,
{
    let a = skip_ws(s, i);
    if has_at(s, a, ']') {
        Some((Seq::empty(), a + 1))
    } else {
        match spec_entry(s, a) {
            None => None,
            Some((e, j)) => {
                let b = skip_ws(s, j);
                if has_at(s, b, ']') {
                    Some((seq![e], b + 1))
                } else if has_at(s, b, ',') && b + 1 > i && b + 1 <= s.len() {
                    match spec_entries(s, b + 1) {
                        None => None,
                        Some((rest, k)) => Some((seq![e] + rest, k)),
                    }
                } else {
                    None
                }
            },
        }
    }
}

/// The name `word` at `i`, not followed by another name character.
pub open spec fn spec_word(s: Seq<char>, i: int, word: Seq<char>) -> Option<int> {
    if 0 <= i && i + word.len() <= s.len() && s.subrange(i, i + word.len()) == word && !(i
        + word.len() < s.len() && is_name_char(s[i + word.len()])) {
        Some(i + word.len())
    } else {
        None
    }
}

/// `<name> = [<entries>]` at `i`.
pub open spec fn spec_section(s: Seq<char>, i: int, name: Seq<char>) -> Option<(Seq<FormatEntryText>, int)> {
    match spec_word(s, i, name) {
        None => None,
        Some(b) => {
            let c = skip_ws(s, b);
            if !has_at(s, c, '=') {
                None
            } else {
                let d = skip_ws(s, c + 1);
                if !has_at(s, d, '[') {
                    None
                } else {
                    spec_entries(s, d + 1)
                }
            }
        },
    }
}

/// The entries of a whole definition: the data section, a comma, the
/// resource section, and nothing else but white space.
pub open spec fn spec_definition(s: Seq<char>) -> Option<(Seq<FormatEntryText>, Seq<FormatEntryText>)> {
    match spec_section(s, skip_ws(s, 0), "data"@) {
        None => None,
        Some((data, e)) => {
            let f = skip_ws(s, e);
            if !has_at(s, f, ',') {
                None
            } else {
                match spec_section(s, skip_ws(s, f + 1), "resource"@) {
                    None => None,
                    Some((resource, k)) => if skip_ws(s, k) == s.len() {
                        Some((data, resource))
                    } else {
                        None
                    },
                }
            }
        },
    }
}

/// Every entry's versions expand.
pub open spec fn entries_expand(entries: Seq<FormatEntryText>) -> bool {
    forall|k: int| 0 <= k < entries.len() ==> expand_list_spec(#[trigger] entries[k].1) is Ok
}

/// The formats are the entries expanded.
pub open spec fn formats_from(formats: Seq<PackFormat>, entries: Seq<FormatEntryText>) -> bool {
    &&& formats.len() == entries.len()
    &&& forall|k: int|
        0 <= k < entries.len() ==> (#[trigger] formats[k]).format_id == entries[k].0
            && expand_list_spec(entries[k].1) == Ok::<Seq<SemanticVersion>, crate::version_macro::ExpandFailure>(
            formats[k].versions@,
        )
}


/// An exec position result agrees with a spec one.
pub open spec fn same_at<T>(r: Option<(T, usize)>, spec: Option<(T, int)>) -> bool {
    match (r, spec) {
        (Some((a, i)), Some((b, j))) => a == b && i == j,
        (None, None) => true,
        _ => false,
    }
}

fn chars_of(s: &str) -> (r: Vec<char>)
    ensures
        r@ == s@,
{
    let n = s.unicode_len();
    let mut r: Vec<char> = Vec::new();
    let mut i: usize = 0;
    while i < n
        invariant
            i <= n,
            n == s@.len(),
            r@ == s@.take(i as int),
        decreases n - i,
    {
        r.push(s.get_char(i));
        assert(s@.take(i + 1) =~= s@.take(i as int).push(s@[i as int]));
        i = i + 1;
    }
    assert(s@.take(n as int) =~= s@);
    r
}

fn char_at(s: &Vec<char>, i: usize, c: char) -> (r: bool)
    ensures
        r == has_at(s@, i as int, c),
        s@.len() <= usize::MAX,
{
    i < s.len() && s[i] == c
}

fn skip_spaces(s: &Vec<char>, i: usize) -> (r: usize)
    requires
        i <= s@.len(),
    ensures
        r as int == skip_ws(s@, i as int),
        i <= r <= s@.len(),
        s@.len() <= usize::MAX,
{
    let n = s.len();
    let mut j = i;
    while j < n && (s[j] == ' ' || s[j] == '\t' || s[j] == '\n' || s[j] == '\r')
        invariant
            i <= j <= s@.len(),
            n == s@.len(),
            skip_ws(s@, i as int) == skip_ws(s@, j as int),
        decreases s@.len() - j,
    {
        j = j + 1;
    }
    j
}

fn number(s: &Vec<char>, i: usize) -> (r: Option<(u8, usize)>)
    requires
        i <= s@.len(),
    ensures
        same_at(r, spec_num(s@, i as int)),
        r matches Some((_, j)) ==> i < j <= s@.len(),
{
    let mut j = i;
    let mut acc: u32 = 0;
    assert(s@.subrange(i as int, i as int) =~= Seq::<char>::empty());
    while j < s.len() && '0' <= s[j] && s[j] <= '9'
        invariant
            i <= j <= s@.len(),
            digits_end(s@, i as int) == digits_end(s@, j as int),
            acc == (if digits_value(s@.subrange(i as int, j as int)) < 256 {
                digits_value(s@.subrange(i as int, j as int))
            } else {
                256
            }),
        decreases s@.len() - j,
    {
        let ghost prev = s@.subrange(i as int, j as int);
        assert(s@.subrange(i as int, j + 1).drop_last() =~= prev);
        let d: u32 = (s[j] as u32) - ('0' as u32);
        assert(d == digit_value(s@[j as int]));
        if acc < 256 {
            acc = acc * 10 + d;
            if acc > 255 {
                acc = 256;
            }
        } else {
            assert(digits_value(s@.subrange(i as int, j + 1)) >= 256) by (nonlinear_arith)
                requires
                    digits_value(s@.subrange(i as int, j + 1)) == digits_value(prev) * 10
                        + digit_value(s@[j as int]),
                    digits_value(prev) >= 256,
            ;
        }
        j = j + 1;
    }
    if j > i && acc <= 255 {
        Some((acc as u8, j))
    } else {
        None
    }
}

fn version(s: &Vec<char>, i: usize) -> (r: Option<(SemanticVersion, usize)>)
    requires
        i <= s@.len(),
    ensures
        same_at(r, spec_version(s@, i as int)),
        r matches Some((_, j)) ==> i < j <= s@.len(),
{
    let (major, j) = match number(s, i) {
        Some(x) => x,
        None => {
            return None;
        },
    };
    if !char_at(s, j, '.') {
        return None;
    }
    let (minor, k) = match number(s, j + 1) {
        Some(x) => x,
        None => {
            return None;
        },
    };
    let d = skip_spaces(s, k);
    if char_at(s, d, '.') && !char_at(s, d + 1, '.') {
        let e = skip_spaces(s, d + 1);
        match number(s, e) {
            Some((patch, f)) => Some((SemanticVersion { major, minor, patch }, f)),
            None => None,
        }
    } else {
        Some((SemanticVersion { major, minor, patch: 0 }, k))
    }
}

fn element(s: &Vec<char>, i: usize) -> (r: Option<(VersionSetElement, usize)>)
    requires
        i <= s@.len(),
    ensures
        same_at(r, spec_element(s@, i as int)),
        r matches Some((_, j)) ==> i < j <= s@.len(),
{
    let (start, j) = match version(s, i) {
        Some(x) => x,
        None => {
            return None;
        },
    };
    let d = skip_spaces(s, j);
    if char_at(s, d, '.') && char_at(s, d + 1, '.') {
        let e = skip_spaces(s, d + 2);
        match version(s, e) {
            Some((end, k)) => Some((VersionSetElement::Range(start, end), k)),
            None => None,
        }
    } else {
        Some((VersionSetElement::Single(start), j))
    }
}

fn elements(s: &Vec<char>, i: usize) -> (r: Option<(Vec<VersionSetElement>, usize)>)
    requires
        i <= s@.len(),
    ensures
        match (r, spec_elements(s@, i as int)) {
            (Some((v, j)), Some((w, k))) => v@ == w && j == k,
            (None, None) => true,
            _ => false,
        },
        r matches Some((_, j)) ==> i < j <= s@.len(),
    decreases s@.len() - i,
{
    let a = skip_spaces(s, i);
    if char_at(s, a, ']') {
        return Some((Vec::new(), a + 1));
    }
    let (e, j) = match element(s, a) {
        Some(x) => x,
        None => {
            return None;
        },
    };
    let b = skip_spaces(s, j);
    if char_at(s, b, ']') {
        let mut v = Vec::new();
        v.push(e);
        assert(v@ =~= seq![e]);
        return Some((v, b + 1));
    }
    if char_at(s, b, ',') {
        match elements(s, b + 1) {
            Some((mut rest, k)) => {
                let mut v = Vec::new();
                v.push(e);
                let ghost tail = rest@;
                v.append(&mut rest);
                assert(v@ =~= seq![e] + tail);
                Some((v, k))
            },
            None => None,
        }
    } else {
        None
    }
}

fn version_set(s: &Vec<char>, i: usize) -> (r: Option<(VersionSet, usize)>)
    requires
        i <= s@.len(),
    ensures
        match (r, spec_set(s@, i as int)) {
            (Some((v, j)), Some((w, k))) => v.elements() == w && j == k,
            (None, None) => true,
            _ => false,
        },
        r matches Some((_, j)) ==> i < j <= s@.len(),
        r matches Some((v, _)) ==> (v is List <==> has_at(s@, i as int, '[')),
{
    if char_at(s, i, '[') {
        match elements(s, i + 1) {
            Some((list, j)) => Some((VersionSet::List(list), j)),
            None => None,
        }
    } else {
        match element(s, i) {
            Some((e, j)) => Some((VersionSet::Element(e), j)),
            None => None,
        }
    }
}

fn entry(s: &Vec<char>, i: usize) -> (r: Option<(u8, VersionSet, usize)>)
    requires
        i <= s@.len(),
    ensures
        match (r, spec_entry(s@, i as int)) {
            (Some((id, v, j)), Some((w, k))) => id == w.0 && v.elements() == w.1 && j == k,
            (None, None) => true,
            _ => false,
        },
        r matches Some((_, _, j)) ==> i < j <= s@.len(),
{
    if !char_at(s, i, '(') {
        return None;
    }
    let a = skip_spaces(s, i + 1);
    let (id, b) = match number(s, a) {
        Some(x) => x,
        None => {
            return None;
        },
    };
    let c = skip_spaces(s, b);
    if !char_at(s, c, ',') {
        return None;
    }
    let d = skip_spaces(s, c + 1);
    let (set, e) = match version_set(s, d) {
        Some(x) => x,
        None => {
            return None;
        },
    };
    let f = skip_spaces(s, e);
    if char_at(s, f, ')') {
        Some((id, set, f + 1))
    } else {
        None
    }
}

/// The elements of the sets in order agree with the entries.
pub open spec fn sets_match(sets: Seq<(u8, VersionSet)>, entries: Seq<FormatEntryText>) -> bool {
    sets.len() == entries.len() && forall|k: int|
        0 <= k < sets.len() ==> (#[trigger] sets[k]).0 == entries[k].0 && sets[k].1.elements()
            == entries[k].1
}

fn entries(s: &Vec<char>, i: usize) -> (r: Option<(Vec<(u8, VersionSet)>, usize)>)
    requires
        i <= s@.len(),
    ensures
        match (r, spec_entries(s@, i as int)) {
            (Some((v, j)), Some((w, k))) => sets_match(v@, w) && j == k,
            (None, None) => true,
            _ => false,
        },
        r matches Some((_, j)) ==> i < j <= s@.len(),
    decreases s@.len() - i,
{
    let a = skip_spaces(s, i);
    if char_at(s, a, ']') {
        return Some((Vec::new(), a + 1));
    }
    let (id, set, j) = match entry(s, a) {
        Some(x) => x,
        None => {
            return None;
        },
    };
    let ghost head = (id, set);
    let b = skip_spaces(s, j);
    if char_at(s, b, ']') {
        let mut v = Vec::new();
        v.push((id, set));
        assert(v@ =~= seq![head]);
        return Some((v, b + 1));
    }
    if char_at(s, b, ',') {
        match entries(s, b + 1) {
            Some((mut rest, k)) => {
                let mut v = Vec::new();
                v.push((id, set));
                let ghost tail = rest@;
                v.append(&mut rest);
                assert(v@ =~= seq![head] + tail);
                proof {
                    let w = (spec_entries(s@, b + 1)->0).0;
                    let full = (spec_entries(s@, i as int)->0).0;
                    assert(full == seq![(spec_entry(s@, a as int)->0).0] + w);
                    assert forall|m: int| 0 <= m < v@.len() implies (#[trigger] v@[m]).0 == full[m].0
                        && v@[m].1.elements() == full[m].1 by {
                        if m > 0 {
                            assert(v@[m] == tail[m - 1]);
                            assert(full[m] == w[m - 1]);
                        }
                    }
                }
                Some((v, k))
            },
            None => None,
        }
    } else {
        None
    }
}

fn word(s: &Vec<char>, i: usize, w: &str) -> (r: Option<usize>)
    requires
        i <= s@.len(),
    ensures
        match (r, spec_word(s@, i as int, w@)) {
            (Some(j), Some(k)) => j == k,
            (None, None) => true,
            _ => false,
        },
{
    let n = w.unicode_len();
    if n > s.len() - i {
        return None;
    }
    let mut k: usize = 0;
    while k < n
        invariant
            k <= n,
            n == w@.len(),
            i + n <= s@.len(),
            s@.len() <= usize::MAX,
            forall|m: int| 0 <= m < k ==> s@[i + m] == w@[m],
        decreases n - k,
    {
        if s[i + k] != w.get_char(k) {
            assert(s@.subrange(i as int, i + n)[k as int] != w@[k as int]);
            return None;
        }
        k = k + 1;
    }
    assert(s@.subrange(i as int, i + n) =~= w@);
    if i + n < s.len() {
        let c = s[i + n];
        if ('a' <= c && c <= 'z') || ('A' <= c && c <= 'Z') || ('0' <= c && c <= '9') || c == '_' {
            return None;
        }
    }
    Some(i + n)
}

fn section(s: &Vec<char>, i: usize, name: &str) -> (r: Option<(Vec<(u8, VersionSet)>, usize)>)
    requires
        i <= s@.len(),
    ensures
        match (r, spec_section(s@, i as int, name@)) {
            (Some((v, j)), Some((w, k))) => sets_match(v@, w) && j == k,
            (None, None) => true,
            _ => false,
        },
        r matches Some((_, j)) ==> i < j <= s@.len(),
{
    let b = match word(s, i, name) {
        Some(b) => b,
        None => {
            return None;
        },
    };
    let c = skip_spaces(s, b);
    if !char_at(s, c, '=') {
        return None;
    }
    let d = skip_spaces(s, c + 1);
    if !char_at(s, d, '[') {
        return None;
    }
    entries(s, d + 1)
}

fn expand_entries(sets: &Vec<(u8, VersionSet)>, Ghost(spec): Ghost<Seq<FormatEntryText>>) -> (r: Result<Vec<PackFormat>, VersionExpandError>)
    requires
        sets_match(sets@, spec),
    ensures
        r is Ok <==> entries_expand(spec),
        r matches Ok(f) ==> formats_from(f@, spec),
{
    let mut formats: Vec<PackFormat> = Vec::new();
    let mut i: usize = 0;
    while i < sets.len()
        invariant
            i <= sets@.len(),
            sets_match(sets@, spec),
            formats_from(formats@, spec.take(i as int)),
            forall|k: int| 0 <= k < i ==> expand_list_spec(#[trigger] spec[k].1) is Ok,
        decreases sets@.len() - i,
    {
        let (id, set) = &sets[i];
        assert(sets@[i as int].1.elements() == spec[i as int].1);
        match PackFormat::from_version_set(*id, set) {
            Ok(p) => {
                let ghost before = formats@;
                formats.push(p);
                proof {
                    assert forall|k: int| 0 <= k < i + 1 implies (#[trigger] formats@[k]).format_id
                        == spec.take(i + 1)[k].0 && expand_list_spec(spec.take(i + 1)[k].1) == Ok::<
                        Seq<SemanticVersion>,
                        crate::version_macro::ExpandFailure,
                    >(formats@[k].versions@) by {
                        if k < i {
                            assert(formats@[k] == before[k]);
                            assert(spec.take(i + 1)[k] == spec.take(i as int)[k]);
                        }
                    }
                }
            },
            Err(e) => {
                assert(!entries_expand(spec)) by {
                    assert(expand_list_spec(spec[i as int].1) is Err);
                }
                return Err(e);
            },
        }
        i = i + 1;
    }
    assert(spec.take(i as int) =~= spec);
    Ok(formats)
}

/// Reads a definition of pack formats and expands it into the formats and
/// every release they cover, sorted and without repeats. A text outside
/// the grammar, or a range that does not expand, is refused.
pub fn parse_definition(text: &str) -> (r: Result<FormatList, String>)
    ensures
        r is Ok <==> (spec_definition(text@) matches Some((d, res)) && entries_expand(d)
            && entries_expand(res)),
        r matches Ok(list) ==> spec_definition(text@) matches Some((d, res)) && formats_from(
            list.data_formats@,
            d,
        ) && formats_from(list.resource_packs@, res),
        r matches Ok(list) ==> crate::version_macro::strictly_sorted(list.mc_versions@),
        r matches Ok(list) ==> forall|v: SemanticVersion|
            #[trigger] list.mc_versions@.contains(v) <==> (crate::version_macro::covered(
                list.data_formats@,
                v,
            ) || crate::version_macro::covered(list.resource_packs@, v)),
{
    let s = chars_of(text);
    let a = skip_spaces(&s, 0);
    let (data, e) = match section(&s, a, "data") {
        Some(x) => x,
        None => {
            return Err("Expected 'data = [...]'".to_owned());
        },
    };
    let f = skip_spaces(&s, e);
    if !char_at(&s, f, ',') {
        return Err("Expected ','".to_owned());
    }
    let g = skip_spaces(&s, f + 1);
    let (resource, k) = match section(&s, g, "resource") {
        Some(x) => x,
        None => {
            return Err("Expected 'resource = [...]'".to_owned());
        },
    };
    if skip_spaces(&s, k) != s.len() {
        return Err("Unexpected text after the resource formats".to_owned());
    }
    let ghost d = (spec_definition(text@)->0).0;
    let ghost res = (spec_definition(text@)->0).1;
    let data_formats = match expand_entries(&data, Ghost(d)) {
        Ok(f) => f,
        Err(e) => {
            return Err(e.0);
        },
    };
    let resource_formats = match expand_entries(&resource, Ghost(res)) {
        Ok(f) => f,
        Err(e) => {
            return Err(e.0);
        },
    };
    Ok(FormatList::new(data_formats, resource_formats))
}

/// What a whole text reads as by a piece's grammar: the piece, with only
/// white space around it.
pub open spec fn whole<T>(s: Seq<char>, r: Option<(T, int)>) -> Option<T> {
    match r {
        Some((v, j)) => if skip_ws(s, j) == s.len() {
            Some(v)
        } else {
            None
        },
        None => None,
    }
}

fn ends_at(s: &Vec<char>, j: usize) -> (r: bool)
    requires
        j <= s@.len(),
    ensures
        r == (skip_ws(s@, j as int) == s@.len()),
{
    skip_spaces(s, j) == s.len()
}

impl SemanticVersion {
    /// Reads a release such as `1.18.2`, or `1.18` for patch 0.
    pub fn parse(text: &str) -> (r: Result<SemanticVersion, String>)
        ensures
            match (r, whole(text@, spec_version(text@, skip_ws(text@, 0)))) {
                (Ok(v), Some(w)) => v == w,
                (Err(_), None) => true,
                _ => false,
            },
    {
        let s = chars_of(text);
        let a = skip_spaces(&s, 0);
        match version(&s, a) {
            Some((v, j)) => if ends_at(&s, j) {
                Ok(v)
            } else {
                Err("Malformed version number".to_owned())
            },
            None => Err("Malformed version number".to_owned()),
        }
    }
}

impl VersionSetElement {
    /// Reads a release, or a range `<release>..<release>`.
    pub fn parse(text: &str) -> (r: Result<VersionSetElement, String>)
        ensures
            match (r, whole(text@, spec_element(text@, skip_ws(text@, 0)))) {
                (Ok(v), Some(w)) => v == w,
                (Err(_), None) => true,
                _ => false,
            },
    {
        let s = chars_of(text);
        let a = skip_spaces(&s, 0);
        match element(&s, a) {
            Some((v, j)) => if ends_at(&s, j) {
                Ok(v)
            } else {
                Err("Malformed version element".to_owned())
            },
            None => Err("Malformed version element".to_owned()),
        }
    }
}

impl VersionSet {
    /// Reads one element, or a bracketed list of elements.
    pub fn parse(text: &str) -> (r: Result<VersionSet, String>)
        ensures
            match (r, whole(text@, spec_set(text@, skip_ws(text@, 0)))) {
                (Ok(v), Some(w)) => v.elements() == w && (v is List <==> has_at(
                    text@,
                    skip_ws(text@, 0),
                    '[',
                )),
                (Err(_), None) => true,
                _ => false,
            },
    {
        let s = chars_of(text);
        let a = skip_spaces(&s, 0);
        match version_set(&s, a) {
            Some((v, j)) => if ends_at(&s, j) {
                Ok(v)
            } else {
                Err("Malformed version set".to_owned())
            },
            None => Err("Malformed version set".to_owned()),
        }
    }
}

impl PackFormat {
    /// Reads an entry `(<format>, <versions>)` and expands its versions.
    pub fn parse(text: &str) -> (r: Result<PackFormat, String>)
        ensures
            r is Ok <==> (whole(text@, spec_entry(text@, skip_ws(text@, 0))) matches Some(e)
                && expand_list_spec(e.1) is Ok),
            r matches Ok(p) ==> whole(text@, spec_entry(text@, skip_ws(text@, 0))) matches Some(e)
                && p.format_id == e.0 && expand_list_spec(e.1) == Ok::<
                Seq<SemanticVersion>,
                crate::version_macro::ExpandFailure,
            >(p.versions@),
    {
        let s = chars_of(text);
        let a = skip_spaces(&s, 0);
        match entry(&s, a) {
            Some((id, set, j)) => if ends_at(&s, j) {
                match PackFormat::from_version_set(id, &set) {
                    Ok(p) => Ok(p),
                    Err(e) => Err(e.0),
                }
            } else {
                Err("Expected tuple in the form of (format_id, versions)".to_owned())
            },
            None => Err("Expected tuple in the form of (format_id, versions)".to_owned()),
        }
    }
}

impl FormatList {
    /// Reads a whole definition; see `parse_definition`.
    pub fn parse(text: &str) -> (r: Result<FormatList, String>)
        ensures
            r is Ok <==> (spec_definition(text@) matches Some((d, res)) && entries_expand(d)
                && entries_expand(res)),
            r matches Ok(list) ==> spec_definition(text@) matches Some((d, res)) && formats_from(
                list.data_formats@,
                d,
            ) && formats_from(list.resource_packs@, res),
            r matches Ok(list) ==> crate::version_macro::strictly_sorted(list.mc_versions@),
            r matches Ok(list) ==> forall|v: SemanticVersion|
                #[trigger] list.mc_versions@.contains(v) <==> (crate::version_macro::covered(
                    list.data_formats@,
                    v,
                ) || crate::version_macro::covered(list.resource_packs@, v)),
    {
        parse_definition(text)
    }
}

impl SemanticVersion {
    /// The release as a definition writes it: `<major>.<minor>`, with
    /// `.<patch>` when the patch is not 0.
    pub open spec fn spec_text(self) -> Seq<char> {
        dec_u8(self.major) + seq!['.'] + dec_u8(self.minor) + if self.patch == 0 {
            Seq::<char>::empty()
        } else {
            seq!['.'] + dec_u8(self.patch)
        }
    }

    /// The name of the release's constant: `V<major>_<minor>`, with
    /// `_<patch>` when the patch is not 0.
    pub open spec fn spec_constant_name(self) -> Seq<char> {
        seq!['V'] + dec_u8(self.major) + seq!['_'] + dec_u8(self.minor) + if self.patch == 0 {
            Seq::<char>::empty()
        } else {
            seq!['_'] + dec_u8(self.patch)
        }
    }

    pub fn text(&self) -> (r: String)
        ensures
            r@ == self.spec_text(),
    {
        let mut out = String::new();
        push_dec_u8(&mut out, self.major);
        string_push(&mut out, '.');
        push_dec_u8(&mut out, self.minor);
        if self.patch != 0 {
            string_push(&mut out, '.');
            push_dec_u8(&mut out, self.patch);
        }
        assert(out@ =~= self.spec_text());
        out
    }

    pub fn constant_name(&self) -> (r: String)
        ensures
            r@ == self.spec_constant_name(),
    {
        let mut out = String::new();
        string_push(&mut out, 'V');
        push_dec_u8(&mut out, self.major);
        string_push(&mut out, '_');
        push_dec_u8(&mut out, self.minor);
        if self.patch != 0 {
            string_push(&mut out, '_');
            push_dec_u8(&mut out, self.patch);
        }
        assert(out@ =~= self.spec_constant_name());
        out
    }
}

impl PackFormat {
    /// The name of the format's constant: `D<format>` for data packs and
    /// `R<format>` for resource packs.
    pub fn constant_name(&self, data: bool) -> (r: String)
        ensures
            r@ == seq![if data { 'D' } else { 'R' }] + dec_u8(self.format_id),
    {
        let mut out = String::new();
        string_push(&mut out, if data { 'D' } else { 'R' });
        push_dec_u8(&mut out, self.format_id);
        assert(out@ =~= seq![if data { 'D' } else { 'R' }] + dec_u8(self.format_id));
        out
    }
}

/// Reading the text of a release back gives the release.
pub proof fn lemma_version_text_round_trip(v: SemanticVersion)
    ensures
        whole(v.spec_text(), spec_version(v.spec_text(), skip_ws(v.spec_text(), 0))) == Some(v),
{
    let s = v.spec_text();
    let a = dec_u8(v.major);
    let b = dec_u8(v.minor);
    crate::text::lemma_dec_u8_digits(v.major);
    crate::text::lemma_dec_u8_digits(v.minor);
    crate::text::lemma_dec_u8_digits(v.patch);
    assert(s[0] != ' ' && s[0] != '\t' && s[0] != '\n' && s[0] != '\r') by {
        assert(s[0] == a[0]);
    }
    assert(skip_ws(s, 0) == 0);
    assert(s.subrange(0, a.len() as int) =~= a);
    lemma_number_at(s, 0, a);
    assert(s[a.len() as int] == '.');
    assert(s.subrange(a.len() + 1 as int, (a.len() + 1 + b.len()) as int) =~= b);
    lemma_number_at(s, a.len() + 1 as int, b);
    let k: int = (a.len() + 1 + b.len()) as int;
    if v.patch == 0 {
        assert(s.len() == k);
        assert(skip_ws(s, k) == k);
    } else {
        let c = dec_u8(v.patch);
        assert(s[k] == '.');
        assert(s[k + 1] == c[0]);
        assert(skip_ws(s, k) == k);
        assert(skip_ws(s, k + 1) == k + 1);
        assert(s.subrange(k + 1, k + 1 + c.len()) =~= c);
        lemma_number_at(s, k + 1, c);
        assert(s.len() == k + 1 + c.len());
        assert(skip_ws(s, s.len() as int) == s.len() as int);
    }
}

/// The decimal writing `d` of a byte, standing at `i` in `s` and followed by
/// a non-digit or the end, reads back as that byte.
proof fn lemma_number_at(s: Seq<char>, i: int, d: Seq<char>)
    requires
        0 <= i,
        i + d.len() <= s.len(),
        s.subrange(i, i + d.len()) == d,
        i + d.len() == s.len() || !is_digit(s[i + d.len()]),
        exists|n: u8| d == dec_u8(n),
    ensures
        spec_num(s, i) == Some((digits_value(d) as u8, i + d.len())),
{
    let n = choose|n: u8| d == dec_u8(n);
    crate::text::lemma_dec_u8_digits(n);
    lemma_digits_end(s, i, i + d.len());
    assert(s.subrange(i, i + d.len()) == d);
}

/// Where every character from `i` to `j` is a digit and the one at `j` is
/// not, the digits end at `j`.
proof fn lemma_digits_end(s: Seq<char>, i: int, j: int)
    requires
        0 <= i <= j <= s.len(),
        forall|k: int| i <= k < j ==> is_digit(s[k]),
        j == s.len() || !is_digit(s[j]),
    ensures
        digits_end(s, i) == j,
    decreases j - i,
{
    if i < j {
        lemma_digits_end(s, i + 1, j);
    }
}

} // verus!
