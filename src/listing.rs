use vstd::prelude::*;

use crate::text::{chars_of, push_char};

verus! {

/// The kind of a directory entry, as its metadata describes it.
#[derive(Clone, Copy, Debug, PartialEq, Eq, Structural)]
pub enum FileKind {
    Directory,
    Symlink,
    Fifo,
    Socket,
    BlockDevice,
    CharDevice,
    Regular,
}

/// The letter that opens a long listing's permission field.
pub open spec fn kind_char(kind: FileKind) -> char {
    match kind {
        FileKind::Directory => 'd',
        FileKind::Symlink => 'l',
        FileKind::Fifo => 'p',
        FileKind::Socket => 's',
        FileKind::BlockDevice => 'b',
        FileKind::CharDevice => 'c',
        FileKind::Regular => '-',
    }
}

/// The letter shown for permission bit `i` (0 to 8) of `mode`: `x`, `w` or
/// `r` by its place in its triple when the bit is set, else `-`.
pub open spec fn perm_char(mode: u32, i: u32) -> char {
    if (mode >> i) & 1u32 == 1u32 {
        if i % 3 == 0 {
            'x'
        } else if i % 3 == 1 {
            'w'
        } else {
            'r'
        }
    } else {
        '-'
    }
}

/// The permission field: the kind letter, the nine permission bits from the
/// highest down, and `+` where the entry has an extended access list.
pub open spec fn permission_text(kind: FileKind, mode: u32, extended_acl: bool) -> Seq<char> {
    let base = seq![kind_char(kind)] + Seq::new(9, |k: int| perm_char(mode, (8 - k) as u32));
    if extended_acl {
        base.push('+')
    } else {
        base
    }
}

/// The mark that `ls -F` appends to a name, if any.
pub open spec fn suffix_of(kind: FileKind, mode: u32) -> Option<char> {
    match kind {
        FileKind::Directory => Some('/'),
        FileKind::Symlink => Some('@'),
        FileKind::Fifo => Some('|'),
        FileKind::Socket => Some('='),
        _ => if mode & 0o111u32 != 0 {
            Some('*')
        } else {
            None
        },
    }
}

fn kind_letter(kind: FileKind) -> (r: char)
    ensures
        r == kind_char(kind),
{
    match kind {
        FileKind::Directory => 'd',
        FileKind::Symlink => 'l',
        FileKind::Fifo => 'p',
        FileKind::Socket => 's',
        FileKind::BlockDevice => 'b',
        FileKind::CharDevice => 'c',
        FileKind::Regular => '-',
    }
}

/// The permission field of a long listing.
pub fn format_permissions(kind: FileKind, mode: u32, extended_acl: bool) -> (r: String)
    ensures
        r@ == permission_text(kind, mode, extended_acl),
{
    let mut perms = String::new();
    push_char(&mut perms, kind_letter(kind));
    let mut k: u32 = 0;
    while k < 9
        invariant
            k <= 9,
            perms@ == seq![kind_char(kind)] + Seq::new(k as nat, |j: int| perm_char(mode, (8 - j) as u32)),
        decreases 9 - k,
    {
        let i: u32 = 8 - k;
        let c = if (mode >> i) & 1 == 1 {
            if i % 3 == 0 {
                'x'
            } else if i % 3 == 1 {
                'w'
            } else {
                'r'
            }
        } else {
            '-'
        };
        assert(c == perm_char(mode, i));
        push_char(&mut perms, c);
        k = k + 1;
        assert(perms@ =~= seq![kind_char(kind)] + Seq::new(k as nat, |j: int| perm_char(mode, (8 - j) as u32)));
    }
    if extended_acl {
        push_char(&mut perms, '+');
    }
    proof {
        let base = seq![kind_char(kind)] + Seq::new(9, |j: int| perm_char(mode, (8 - j) as u32));
        assert(base =~= seq![kind_char(kind)] + Seq::new(k as nat, |j: int| perm_char(mode, (8 - j) as u32)));
    }
    perms
}

/// The mark that `ls -F` appends to a name of this kind and mode, if any.
pub fn ls_suffix(kind: FileKind, mode: u32) -> (r: Option<char>)
    ensures
        r == suffix_of(kind, mode),
{
    match kind {
        FileKind::Directory => Some('/'),
        FileKind::Symlink => Some('@'),
        FileKind::Fifo => Some('|'),
        FileKind::Socket => Some('='),
        _ => if mode & 0o111 != 0 {
            Some('*')
        } else {
            None
        },
    }
}

/// Whether a character is white space, as `char::is_whitespace` decides.
pub uninterp spec fn white_space(c: char) -> bool;

/// Relies on char::is_whitespace: whether `c` has the Unicode White_Space property.
#[verifier::external_body]
fn is_white_space(c: char) -> (r: bool)
    ensures
        r == white_space(c),
{
    c.is_whitespace()
}

/// `s` holds a white space character.
pub open spec fn has_white_space(s: Seq<char>) -> bool {
    exists|i: int| 0 <= i < s.len() && white_space(#[trigger] s[i])
}

/// A name as a long listing shows it: in single quotes when it holds white space.
pub open spec fn shown_name(name: Seq<char>) -> Seq<char> {
    if has_white_space(name) {
        seq!['\''] + name + seq!['\'']
    } else {
        name
    }
}

/// Whether a name holds white space; the part of `display_name` that reads
/// the characters.
pub fn contains_white_space(name: &str) -> (r: bool)
    ensures
        r == has_white_space(name@),
{
    let v = chars_of(name);
    let mut i: usize = 0;
    while i < v.len()
        invariant
            v@ == name@,
            i <= v@.len(),
            forall|j: int| 0 <= j < i ==> !white_space(#[trigger] v@[j]),
        decreases v@.len() - i,
    {
        if is_white_space(v[i]) {
            return true;
        }
        i = i + 1;
    }
    false
}

/// A name as a long listing shows it.
pub fn display_name(name: &str) -> (r: String)
    ensures
        r@ == shown_name(name@),
{
    let mut out = String::new();
    if contains_white_space(name) {
        push_char(&mut out, '\'');
        out.append(name);
        push_char(&mut out, '\'');
        assert(out@ =~= seq!['\''] + name@ + seq!['\'']);
    } else {
        out.append(name);
        assert(out@ =~= name@);
    }
    out
}

/// The views of a list of strings.
pub open spec fn views(v: Seq<String>) -> Seq<Seq<char>> {
    v.map_values(|s: String| s@)
}

/// An argument that holds flags: it starts with `-`.
pub open spec fn is_flag(a: Seq<char>) -> bool {
    a.len() > 0 && a[0] == '-'
}

/// Some flag argument among `args` holds the letter `c`.
pub open spec fn flag_given(args: Seq<Seq<char>>, c: char) -> bool
    decreases args.len(),
{
    args.len() > 0 && (flag_given(args.drop_last(), c) || (is_flag(args.last())
        && args.last().contains(c)))
}

/// The arguments that are no flags, in order.
pub open spec fn operands(args: Seq<Seq<char>>) -> Seq<Seq<char>>
    decreases args.len(),
{
    if args.len() == 0 {
        Seq::empty()
    } else if is_flag(args.last()) {
        operands(args.drop_last())
    } else {
        operands(args.drop_last()).push(args.last())
    }
}

/// The paths to list: the operands, or the current directory when there are none.
pub open spec fn listed_paths(args: Seq<Seq<char>>) -> Seq<Seq<char>> {
    if operands(args).len() == 0 {
        seq![seq!['.']]
    } else {
        operands(args)
    }
}

/// What the arguments of `ls` ask for.
pub struct LsOptions {
    /// `-l`: one line per entry, with permissions, owner, size and time.
    pub long: bool,
    /// `-a`: entries whose names start with a dot too, and `.` and `..`.
    pub all: bool,
    /// `-F`: a mark after each name that tells its kind.
    pub classify: bool,
    pub paths: Vec<String>,
}

fn has_char(v: &Vec<char>, c: char) -> (r: bool)
    ensures
        r == v@.contains(c),
{
    let mut i: usize = 0;
    while i < v.len()
        invariant
            i <= v@.len(),
            forall|j: int| 0 <= j < i ==> v@[j] != c,
        decreases v@.len() - i,
    {
        if v[i] == c {
            assert(v@[i as int] == c);
            return true;
        }
        i = i + 1;
    }
    false
}

/// Reads the flags and paths of an `ls` command.
pub fn parse_ls_args(args: &Vec<String>) -> (r: LsOptions)
    ensures
        r.long == flag_given(views(args@), 'l'),
        r.all == flag_given(views(args@), 'a'),
        r.classify == flag_given(views(args@), 'F'),
        views(r.paths@) == listed_paths(views(args@)),
{
    let ghost all_args = views(args@);
    let mut long = false;
    let mut all = false;
    let mut classify = false;
    let mut paths: Vec<String> = Vec::new();
    let mut i: usize = 0;
    while i < args.len()
        invariant
            i <= args@.len(),
            all_args == views(args@),
            long == flag_given(all_args.take(i as int), 'l'),
            all == flag_given(all_args.take(i as int), 'a'),
            classify == flag_given(all_args.take(i as int), 'F'),
            views(paths@) == operands(all_args.take(i as int)),
        decreases args@.len() - i,
    {
        let ghost before = paths@;
        let v = chars_of(args[i].as_str());
        assert(all_args.take(i + 1).drop_last() =~= all_args.take(i as int));
        assert(all_args.take(i + 1).last() == v@);
        if v.len() > 0 && v[0] == '-' {
            long = long || has_char(&v, 'l');
            all = all || has_char(&v, 'a');
            classify = classify || has_char(&v, 'F');
        } else {
            paths.push(args[i].clone());
            assert(views(paths@) =~= views(before).push(v@));
        }
        i = i + 1;
    }
    assert(all_args.take(args@.len() as int) =~= all_args);
    if paths.len() == 0 {
        let dot = ".";
        proof {
            reveal_strlit(".");
        }
        assert(dot@ =~= seq!['.']);
        let here = dot.to_string();
        assert(here@ == dot@);
        paths.push(here);
        assert(views(paths@)[0] == seq!['.']);
        assert(views(paths@) =~= seq![seq!['.']]);
    }
    LsOptions { long, all, classify, paths }
}

/// The width of a column: the longest of its cells, or 0 for none.
pub fn column_width(lens: &Vec<usize>) -> (r: usize)
    ensures
        forall|i: int| 0 <= i < lens@.len() ==> lens@[i] <= r,
        lens@.len() == 0 ==> r == 0,
        lens@.len() > 0 ==> exists|i: int| 0 <= i < lens@.len() && lens@[i] == r,
{
    let mut best: usize = 0;
    let mut i: usize = 0;
    while i < lens.len()
        invariant
            i <= lens@.len(),
            forall|j: int| 0 <= j < i ==> lens@[j] <= best,
            i == 0 ==> best == 0,
            i > 0 ==> exists|j: int| 0 <= j < i && lens@[j] == best,
        decreases lens@.len() - i,
    {
        if lens[i] > best || i == 0 {
            best = lens[i];
        }
        i = i + 1;
    }
    best
}

} // verus!
