//! Firmware files found on disk: how they are labelled and which one is
//! offered first.
//!
//! Walking the directory tree is I/O and happens outside the library; the
//! labels and the priorities of what it found are computed here.
use crate::text::{ascii_lower_seq, dec_digit, dec_text, push_dec, text_eq, text_eq_ignore_ascii_case};
use vstd::prelude::*;
use vstd::string::StringSliceAdditionalSpecFns;

verus! {

/// Directories whose firmware is offered first, best first.
pub open spec fn priority_dir(i: int) -> Seq<char> {
    if i == 0 {
        "output"@
    } else if i == 1 {
        "build"@
    } else if i == 2 {
        "out"@
    } else if i == 3 {
        "bin"@
    } else if i == 4 {
        "release"@
    } else {
        "firmware"@
    }
}

/// How many priority directories there are.
pub const PRIORITY_DIR_COUNT: u32 = 6;

/// A discovered firmware file candidate.
#[derive(Debug, Clone)]
pub struct FirmwareCandidate {
    /// Full path to the firmware file.
    pub path: String,
    /// File size in bytes.
    pub size: u64,
    /// Last modification time (nanoseconds since the Unix epoch), if known.
    pub modified: Option<u128>,
    /// Priority score (lower = better).
    pub priority: u32,
}

/// `size` in tenths of `unit`, rounded to the nearest, ties to even.
pub open spec fn tenths(size: nat, unit: nat) -> nat {
    let q = (size * 10) / unit;
    let r = (size * 10) % unit;
    if 2 * r > unit || (2 * r == unit && q % 2 == 1) {
        q + 1
    } else {
        q
    }
}

/// A number of tenths with one decimal ("3.0").
pub open spec fn one_decimal(t: nat) -> Seq<char> {
    dec_text(t / 10) + seq!['.'] + seq![dec_digit((t % 10) as int)]
}

/// A file size as people read it: "512 B", "2.0 KB", "3.0 MB".
pub open spec fn size_text(size: nat) -> Seq<char> {
    if size >= 1048576 {
        one_decimal(tenths(size, 1048576)) + " MB"@
    } else if size >= 1024 {
        one_decimal(tenths(size, 1024)) + " KB"@
    } else {
        dec_text(size) + " B"@
    }
}

fn push_tenths(s: &mut String, size: u64, unit: u64)
    requires
        unit == 1024 || unit == 1048576,
    ensures
        final(s)@ == old(s)@ + one_decimal(tenths(size as nat, unit as nat)),
{
    let x: u128 = (size as u128) * 10;
    let q: u128 = x / (unit as u128);
    let r: u128 = x % (unit as u128);
    assert(q <= 0xFFFF_FFFF_FFFF_FFFF) by {
        assert(x / (unit as u128) <= x / 1024) by {
            vstd::arithmetic::div_mod::lemma_div_is_ordered_by_denominator(x as int, 1024, unit as int);
        }
    }
    let t: u128 = if 2 * r > unit as u128 || (2 * r == unit as u128 && q % 2 == 1) { q + 1 } else { q };
    assert(t == tenths(size as nat, unit as nat));
    let whole: u64 = (t / 10) as u64;
    let digit: u8 = (t % 10) as u8;
    push_dec(s, whole);
    s.push('.');
    s.push(crate::text::dec_digit_char(digit));
}

impl FirmwareCandidate {
    /// The file size as people read it (see [`size_text`]).
    pub fn human_size(&self) -> (r: String)
        ensures
            r@ == size_text(self.size as nat),
    {
        let mut s = String::new();
        if self.size >= 1048576 {
            push_tenths(&mut s, self.size, 1048576);
            s.append(" MB");
        } else if self.size >= 1024 {
            push_tenths(&mut s, self.size, 1024);
            s.append(" KB");
        } else {
            push_dec(&mut s, self.size);
            s.append(" B");
        }
        s
    }

    /// The label offered for selection: the path relative to `base` (the
    /// whole path when it is not under `base`) and the size in brackets.
    /// For plain `/`-separated paths (see [`clean_path`]) the relative part
    /// is what follows `base/`, or the whole path when `base` is empty or
    /// not one of its leading directories.
    pub fn display_label(&self, base: &str) -> (r: String)
        ensures
            exists|rel: Seq<char>| r@ == label_text(rel, self.size as nat),
            clean_path(self.path@) && (base@.len() == 0 || clean_path(base@)) ==> r@ == label_text(
                clean_relative(self.path@, base@),
                self.size as nat,
            ),
    {
        let rel = relative_path(self.path.as_str(), base);
        self.label_with(rel.as_str())
    }

    /// The label for the relative path `rel`: "rel (size)".
    pub fn label_with(&self, rel: &str) -> (r: String)
        ensures
            r@ == label_text(rel@, self.size as nat),
    {
        let mut s = String::from_str(rel);
        s.append(" (");
        let size = self.human_size();
        s.append(size.as_str());
        s.append(")");
        s
    }
}

/// "rel (size)".
pub open spec fn label_text(rel: Seq<char>, size: nat) -> Seq<char> {
    rel + " ("@ + size_text(size) + ")"@
}

/// Whether `i..j` is one whole `/`-separated segment of `p`.
pub open spec fn is_segment(p: Seq<char>, i: int, j: int) -> bool {
    &&& 0 <= i < j <= p.len()
    &&& (i == 0 || p[i - 1] == '/')
    &&& (j == p.len() || p[j] == '/')
    &&& forall|k: int| i <= k < j ==> #[trigger] p[k] != '/'
}

/// Whether `p` is plain names joined by single `/` characters: not empty,
/// no `/` at either end or twice in a row, no `\` or `:`, and no segment
/// `.` or `..`.
pub open spec fn clean_names(p: Seq<char>) -> bool {
    &&& p.len() > 0
    &&& p[0] != '/'
    &&& p[p.len() - 1] != '/'
    &&& forall|k: int| 0 <= k < p.len() ==> #[trigger] p[k] != '\\' && p[k] != ':'
    &&& forall|k: int| 0 < k < p.len() ==> !(p[k - 1] == '/' && #[trigger] p[k] == '/')
    &&& forall|i: int, j: int| #[trigger] is_segment(p, i, j) ==> p.subrange(i, j) != "."@ && p.subrange(i, j) != ".."@
}

/// Whether `p` is a plain `/`-separated path: plain names (see
/// [`clean_names`]), possibly after one leading `/`.
pub open spec fn clean_path(p: Seq<char>) -> bool {
    if p.len() > 0 && p[0] == '/' {
        clean_names(p.subrange(1, p.len() as int))
    } else {
        clean_names(p)
    }
}

/// Whether the plain path `base` is one of the leading directories of the
/// plain path `path`: `path` is `base`, `/` and more.
pub open spec fn under_dir(path: Seq<char>, base: Seq<char>) -> bool {
    &&& path.len() > base.len() + 1
    &&& path.subrange(0, base.len() as int) == base
    &&& path[base.len() as int] == '/'
}

/// The text of the plain path `path` relative to the plain path (or empty
/// text) `base`: what follows `base/`, nothing when the two are equal, else
/// all of `path` (also when `base` is empty).
pub open spec fn clean_relative(path: Seq<char>, base: Seq<char>) -> Seq<char> {
    if base.len() > 0 && under_dir(path, base) {
        path.subrange(base.len() as int + 1, path.len() as int)
    } else if base.len() > 0 && path == base {
        Seq::empty()
    } else {
        path
    }
}

/// std's `Path::strip_prefix`, shown as text: `path` relative to `base`,
/// or `path` itself when it does not lie under `base` (std compares whole
/// components). Claimed of the outside code only for plain `/`-separated
/// paths (see [`clean_path`]), where components are the names between the
/// slashes on every platform: `path` minus `base/`, nothing for equal
/// paths, and `path` itself when `base` is empty or not among its leading
/// directories. Other paths (`\` separators, drive prefixes, `.` and `..`,
/// repeated or trailing slashes) are left unsaid.
#[verifier::external_body]
fn relative_path(path: &str, base: &str) -> (r: String)
    ensures
        clean_path(path@) && (base@.len() == 0 || clean_path(base@)) ==> r@ == clean_relative(path@, base@),
{
    let p = std::path::Path::new(path);
    p.strip_prefix(base).unwrap_or(p).display().to_string()
}

/// How many directory levels below the base the firmware search descends.
pub const MAX_SEARCH_DEPTH: usize = 5;

/// Whether the firmware search leaves out a directory of this name: a
/// hidden one (starting with `.`, other than `.` itself), or one of
/// `.git`, `target`, `node_modules`, `.svn` and `.hg`.
pub open spec fn skipped_dir(name: Seq<char>) -> bool {
    ||| (name.len() > 0 && name[0] == '.' && name != "."@)
    ||| name == ".git"@
    ||| name == "target"@
    ||| name == "node_modules"@
    ||| name == ".svn"@
    ||| name == ".hg"@
}

/// Whether the firmware search leaves out the directory `name` (see
/// [`skipped_dir`]).
pub fn skip_search_dir(name: &str) -> (r: bool)
    ensures
        r == skipped_dir(name@),
{
    if name.unicode_len() > 0 && name.get_char(0) == '.' && !text_eq(name, ".") {
        return true;
    }
    text_eq(name, ".git") || text_eq(name, "target") || text_eq(name, "node_modules") || text_eq(name, ".svn")
        || text_eq(name, ".hg")
}

/// Whether a file extension marks a firmware package: `fwpkg` in any ASCII
/// case.
pub fn is_fwpkg_extension(ext: &str) -> (r: bool)
    ensures
        r == (ascii_lower_seq(ext.spec_bytes()) == ascii_lower_seq("fwpkg".spec_bytes())),
{
    text_eq_ignore_ascii_case(ext, "fwpkg")
}

/// The best priority directory that one of `components` names (up to ASCII
/// case), by its rank; none gives `PRIORITY_DIR_COUNT`.
pub open spec fn first_priority_dir(components: Seq<String>) -> int {
    if has_dir(components, priority_dir(0)) {
        0
    } else if has_dir(components, priority_dir(1)) {
        1
    } else if has_dir(components, priority_dir(2)) {
        2
    } else if has_dir(components, priority_dir(3)) {
        3
    } else if has_dir(components, priority_dir(4)) {
        4
    } else if has_dir(components, priority_dir(5)) {
        5
    } else {
        6
    }
}

/// Whether one of `components` names `dir` (see [`names_dir`]).
pub open spec fn has_dir(components: Seq<String>, dir: Seq<char>) -> bool {
    exists|k: int| 0 <= k < components.len() && names_dir(components[k]@, dir)
}

/// Whether a path component names `dir`, ASCII letters compared without
/// regard to case.
pub open spec fn names_dir(component: Seq<char>, dir: Seq<char>) -> bool {
    ascii_lower_seq(vstd::utf8::encode_utf8(component)) == ascii_lower_seq(vstd::utf8::encode_utf8(dir))
}

/// The priority of a firmware file whose path relative to the search base
/// has these components: the rank of the best priority directory among them;
/// else 6 under a "fwpkg" directory; else 6 plus the number of components.
pub open spec fn priority_of(components: Seq<String>) -> int {
    if first_priority_dir(components) < 6 {
        first_priority_dir(components)
    } else if has_dir(components, "fwpkg"@) {
        6
    } else {
        6 + components.len() as int
    }
}

fn dir_name(i: u32) -> (r: &'static str)
    requires
        i < 6,
    ensures
        r@ == priority_dir(i as int),
{
    if i == 0 {
        "output"
    } else if i == 1 {
        "build"
    } else if i == 2 {
        "out"
    } else if i == 3 {
        "bin"
    } else if i == 4 {
        "release"
    } else {
        "firmware"
    }
}

fn any_names(components: &[String], dir: &str) -> (r: bool)
    ensures
        r == has_dir(components@, dir@),
{
    let mut j: usize = 0;
    while j < components.len()
        invariant
            j <= components@.len(),
            forall|k: int| 0 <= k < j ==> !names_dir(components@[k]@, dir@),
        decreases components@.len() - j,
    {
        if text_eq_ignore_ascii_case(components[j].as_str(), dir) {
            assert(names_dir(components@[j as int]@, dir@));
            return true;
        }
        j = j + 1;
    }
    false
}

/// The priority of a firmware file from the components of its path relative
/// to the search base (see [`priority_of`]).
pub fn compute_priority(components: &[String]) -> (r: u32)
    requires
        components@.len() <= u32::MAX - 6,
    ensures
        r == priority_of(components@),
{
    let mut i: u32 = 0;
    while i < PRIORITY_DIR_COUNT
        invariant
            i <= 6,
            forall|m: int| 0 <= m < i ==> !has_dir(components@, #[trigger] priority_dir(m)),
        decreases 6 - i,
    {
        if any_names(components, dir_name(i)) {
            return i;
        }
        i = i + 1;
    }
    if any_names(components, "fwpkg") {
        return 6;
    }
    6 + components.len() as u32
}


/// Whether modification time `a` sorts before `b`: an unknown time first,
/// then newer before older.
pub open spec fn time_before(a: Option<u128>, b: Option<u128>) -> bool {
    match (a, b) {
        (None, Some(_)) => true,
        (Some(x), Some(y)) => x > y,
        _ => false,
    }
}

/// Whether the key (priority, modification time, path length) `a` sorts
/// strictly before `b`: lower priority first, then by [`time_before`], then
/// fewer path components first.
pub open spec fn key_before(a: (u32, Option<u128>, usize), b: (u32, Option<u128>, usize)) -> bool {
    ||| a.0 < b.0
    ||| (a.0 == b.0 && time_before(a.1, b.1))
    ||| (a.0 == b.0 && a.1 == b.1 && a.2 < b.2)
}

/// The sort key of the `i`-th search result.
pub open spec fn search_key(cands: Seq<FirmwareCandidate>, components: Seq<usize>, i: int) -> (u32, Option<u128>, usize) {
    (cands[i].priority, cands[i].modified, components[i])
}

/// Whether result `i` is listed before result `j`: by key, and in the order
/// found where the keys are equal.
pub open spec fn listed_before(cands: Seq<FirmwareCandidate>, components: Seq<usize>, i: int, j: int) -> bool {
    let ki = search_key(cands, components, i);
    let kj = search_key(cands, components, j);
    key_before(ki, kj) || (ki == kj && i < j)
}

fn key_of(cands: &[FirmwareCandidate], components: &[usize], i: usize) -> (r: (u32, Option<u128>, usize))
    requires
        i < cands@.len(),
        cands@.len() == components@.len(),
    ensures
        r == search_key(cands@, components@, i as int),
{
    (cands[i].priority, cands[i].modified, components[i])
}

fn key_less(a: (u32, Option<u128>, usize), b: (u32, Option<u128>, usize)) -> (r: bool)
    ensures
        r == key_before(a, b),
{
    if a.0 != b.0 {
        return a.0 < b.0;
    }
    match (a.1, b.1) {
        (None, Some(_)) => true,
        (Some(_), None) => false,
        (Some(x), Some(y)) => {
            if x != y {
                x > y
            } else {
                a.2 < b.2
            }
        },
        (None, None) => a.2 < b.2,
    }
}

/// The order in which search results are offered: the indices of `cands`
/// (whose paths have `components[i]` components each), each once, sorted by
/// [`listed_before`]; a stable sort on the key.
pub fn search_order(cands: &[FirmwareCandidate], components: &[usize]) -> (r: Vec<usize>)
    requires
        cands@.len() == components@.len(),
    ensures
        r@.len() == cands@.len(),
        forall|k: int| 0 <= k < r@.len() ==> r@[k] < cands@.len(),
        forall|x: int, y: int| 0 <= x < y < r@.len() ==> r@[x] != r@[y],
        forall|x: int, y: int|
            0 <= x < y < r@.len() ==> listed_before(cands@, components@, r@[x] as int, r@[y] as int),
{
    let n = cands.len();
    let mut order: Vec<usize> = Vec::new();
    let mut i: usize = 0;
    while i < n
        invariant
            n == cands@.len(),
            n == components@.len(),
            i <= n,
            order@.len() == i,
            forall|k: int| 0 <= k < order@.len() ==> order@[k] < i,
            forall|x: int, y: int| 0 <= x < y < order@.len() ==> order@[x] != order@[y],
            forall|x: int, y: int|
                0 <= x < y < order@.len() ==> listed_before(cands@, components@, order@[x] as int, order@[y] as int),
        decreases n - i,
    {
        let ki = key_of(cands, components, i);
        let mut p: usize = 0;
        while p < order.len()
            invariant
                n == cands@.len(),
                n == components@.len(),
                i < n,
                order@.len() == i,
                p <= order@.len(),
                forall|k: int| 0 <= k < order@.len() ==> order@[k] < i,
                ki == search_key(cands@, components@, i as int),
                forall|q: int| 0 <= q < p ==> !key_before(ki, #[trigger] search_key(cands@, components@, order@[q] as int)),
                forall|x: int, y: int|
                    0 <= x < y < order@.len() ==> listed_before(cands@, components@, order@[x] as int, order@[y] as int),
            ensures
                p <= order@.len(),
                forall|q: int| 0 <= q < p ==> !key_before(ki, #[trigger] search_key(cands@, components@, order@[q] as int)),
                p < order@.len() ==> key_before(ki, search_key(cands@, components@, order@[p as int] as int)),
            decreases order@.len() - p,
        {
            let kp = key_of(cands, components, order[p]);
            if key_less(ki, kp) {
                break;
            }
            p = p + 1;
        }
        proof {
            assert forall|q: int| p <= q < order@.len() implies key_before(ki, #[trigger] search_key(cands@, components@, order@[q] as int)) by {
                if q > p {
                    assert(listed_before(cands@, components@, order@[p as int] as int, order@[q] as int));
                }
            }
        }
        let ghost old_order = order@;
        order.insert(p, i);
        proof {
            assert(order@ == old_order.insert(p as int, i));
            assert forall|x: int, y: int| 0 <= x < y < order@.len() implies listed_before(cands@, components@, order@[x] as int, order@[y] as int) by {
                if y < p {
                    assert(order@[x] == old_order[x] && order@[y] == old_order[y]);
                } else if y == p {
                    assert(order@[x] == old_order[x]);
                    assert(!key_before(ki, search_key(cands@, components@, old_order[x] as int)));
                } else if x < p {
                    assert(order@[x] == old_order[x] && order@[y] == old_order[y - 1]);
                } else if x == p {
                    assert(order@[y] == old_order[y - 1]);
                    assert(key_before(ki, search_key(cands@, components@, old_order[y - 1] as int)));
                } else {
                    assert(order@[x] == old_order[x - 1] && order@[y] == old_order[y - 1]);
                }
            }
        }
        i = i + 1;
    }
    order
}


/// How many terminal columns `console::measure_text_width` gives a text
/// (escape sequences take none, wide characters two).
pub uninterp spec fn display_width(s: Seq<char>) -> nat;

/// The display width of a text, through `console::measure_text_width`.
#[verifier::external_body]
fn measure_width(s: &str) -> (r: usize)
    ensures
        r == display_width(s@),
{
    console::measure_text_width(s)
}

/// The index of the first `/` in `s` at or after `from`, or `s.len()`.
pub open spec fn slash_from(s: Seq<char>, from: int) -> int
    decreases s.len() - from,
{
    if from >= s.len() || from < 0 {
        s.len() as int
    } else if s[from] == '/' {
        from
    } else {
        slash_from(s, from + 1)
    }
}

/// A label cut from the left to fit `max` columns, given its display
/// `width`: unchanged when it fits; a lone ellipsis when `max` is at most
/// one; else an ellipsis and the last `max - 1` characters, cut further to
/// start at their first `/` when that is neither their first nor their
/// last character.
pub open spec fn truncated_start(s: Seq<char>, width: nat, max: nat) -> Seq<char> {
    if width <= max {
        s
    } else if max <= 1 {
        seq!['\u{2026}']
    } else {
        let target = max - 1;
        let start = if s.len() >= target { s.len() - target } else { 0 };
        let tail = s.subrange(start, s.len() as int);
        let pos = slash_from(tail, 0);
        if 0 < pos && pos < tail.len() - 1 {
            seq!['\u{2026}'] + tail.subrange(pos, tail.len() as int)
        } else {
            seq!['\u{2026}'] + tail
        }
    }
}

proof fn lemma_slash_from_bounds(s: Seq<char>, from: int)
    requires
        0 <= from <= s.len(),
    ensures
        from <= slash_from(s, from) <= s.len(),
        slash_from(s, from) < s.len() ==> s[slash_from(s, from)] == '/',
        forall|k: int| from <= k < slash_from(s, from) ==> s[k] != '/',
    decreases s.len() - from,
{
    if from < s.len() && s[from] != '/' {
        lemma_slash_from_bounds(s, from + 1);
    }
}

/// Cuts a label from the left so that it fits in `max_width` terminal
/// columns, keeping its right end (file name and size), which tells
/// firmware files apart best (see [`truncated_start`]).
pub fn truncate_start(s: &str, max_width: usize) -> (r: String)
    ensures
        r@ == truncated_start(s@, display_width(s@), max_width as nat),
{
    let width = measure_width(s);
    if width <= max_width {
        return s.to_string();
    }
    let mut out = String::new();
    out.push('\u{2026}');
    if max_width <= 1 {
        return out;
    }
    let target = max_width - 1;
    let n = s.unicode_len();
    let start = if n >= target { n - target } else { 0 };
    let ghost tail = s@.subrange(start as int, n as int);
    let mut pos: usize = start;
    while pos < n && s.get_char(pos) != '/'
        invariant
            start <= pos <= n,
            n == s@.len(),
            tail == s@.subrange(start as int, n as int),
            forall|k: int| start <= k < pos ==> s@[k] != '/',
        decreases n - pos,
    {
        pos = pos + 1;
    }
    proof {
        lemma_slash_from_bounds(tail, 0);
        let p = slash_from(tail, 0);
        if p < tail.len() {
            assert(tail[p] == s@[start + p]);
        }
        if pos < n {
            assert(tail[pos - start] == '/');
        }
        assert(p == pos - start);
    }
    let cut = if pos > start && pos < n - 1 { pos } else { start };
    let mut i: usize = cut;
    while i < n
        invariant
            start <= cut <= i <= n,
            n == s@.len(),
            out@ == seq!['\u{2026}'] + s@.subrange(cut as int, i as int),
        decreases n - i,
    {
        out.push(s.get_char(i));
        i = i + 1;
        assert(out@ =~= seq!['\u{2026}'] + s@.subrange(cut as int, i as int));
    }
    proof {
        assert(tail.subrange(cut - start, tail.len() as int) =~= s@.subrange(cut as int, n as int));
        assert(tail =~= s@.subrange(start as int, n as int));
    }
    out
}

/// The directories whose firmware is offered first, in the documented
/// order, best first.
pub open spec fn documented_priority_dirs() -> Seq<Seq<char>> {
    seq!["output"@, "build"@, "out"@, "bin"@, "release"@, "firmware"@]
}

/// A firmware file under one of the priority directories gets that
/// directory's rank in the documented order (output, build, out, bin,
/// release, firmware; see [`documented_priority_dirs`]): the rank of the
/// best one among its path components. So `out/app.fwpkg` (rank 2) is
/// offered before `bin/app.fwpkg` (rank 3). A file under none of them ranks
/// after all of these.
pub proof fn lemma_priority_directories(components: Seq<String>, k: int)
    ensures
        0 <= k < 6 && has_dir(components, documented_priority_dirs()[k]) && (forall|j: int|
            0 <= j < k ==> !has_dir(components, #[trigger] documented_priority_dirs()[j])) ==> priority_of(components) == k,
        (forall|j: int| 0 <= j < 6 ==> !has_dir(components, #[trigger] documented_priority_dirs()[j])) ==> priority_of(
            components,
        ) >= 6,
{
    let d = documented_priority_dirs();
    reveal_strlit("output");
    reveal_strlit("build");
    reveal_strlit("out");
    reveal_strlit("bin");
    reveal_strlit("release");
    reveal_strlit("firmware");
    assert(d[0] == priority_dir(0));
    assert(d[1] == priority_dir(1));
    assert(d[2] == priority_dir(2));
    assert(d[3] == priority_dir(3));
    assert(d[4] == priority_dir(4));
    assert(d[5] == priority_dir(5));
    if 0 <= k < 6 && has_dir(components, d[k]) && (forall|j: int| 0 <= j < k ==> !has_dir(components, #[trigger] d[j])) {
        if k > 0 {
            assert(!has_dir(components, d[0]));
        }
        if k > 1 {
            assert(!has_dir(components, d[1]));
        }
        if k > 2 {
            assert(!has_dir(components, d[2]));
        }
        if k > 3 {
            assert(!has_dir(components, d[3]));
        }
        if k > 4 {
            assert(!has_dir(components, d[4]));
        }
    }
    if forall|j: int| 0 <= j < 6 ==> !has_dir(components, #[trigger] d[j]) {
        assert(!has_dir(components, d[0]));
        assert(!has_dir(components, d[1]));
        assert(!has_dir(components, d[2]));
        assert(!has_dir(components, d[3]));
        assert(!has_dir(components, d[4]));
        assert(!has_dir(components, d[5]));
    }
}

} // verus!
