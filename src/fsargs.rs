use vstd::prelude::*;

use crate::listing::views;
use crate::text::chars_of;

verus! {

/// Why the operands of `cp` or `mv` cannot be used.
#[derive(Debug)]
pub enum OperandError {
    /// No operand at all.
    MissingOperand,
    /// A single operand, with no destination after it.
    MissingDestination(String),
}

/// The sources and the destination of a `cp` or `mv` command.
pub struct Transfer {
    pub sources: Vec<String>,
    pub dest: String,
}

/// Splits the operands of `cp` or `mv`: every one but the last is a source,
/// the last is the destination.
pub fn split_transfer(args: &Vec<String>) -> (r: Result<Transfer, OperandError>)
    ensures
        match r {
            Err(OperandError::MissingOperand) => args@.len() == 0,
            Err(OperandError::MissingDestination(a)) => args@.len() == 1 && a@ == args@[0]@,
            Ok(t) => args@.len() >= 2 && views(t.sources@) == views(args@).drop_last() && t.dest@
                == args@.last()@,
        },
{
    if args.len() == 0 {
        return Err(OperandError::MissingOperand);
    }
    if args.len() == 1 {
        return Err(OperandError::MissingDestination(args[0].clone()));
    }
    let n = args.len() - 1;
    let mut sources: Vec<String> = Vec::new();
    let mut i: usize = 0;
    while i < n
        invariant
            n == args@.len() - 1,
            i <= n,
            views(sources@) == views(args@).take(i as int),
        decreases n - i,
    {
        let ghost before = sources@;
        sources.push(args[i].clone());
        assert(views(sources@) =~= views(before).push(args@[i as int]@));
        assert(views(args@).take(i + 1) =~= views(args@).take(i as int).push(args@[i as int]@));
        i = i + 1;
    }
    assert(views(args@).take(n as int) =~= views(args@).drop_last());
    Ok(Transfer { sources, dest: args[n].clone() })
}

/// What `str::to_lowercase` returns for a text.
pub uninterp spec fn lower_of(s: Seq<char>) -> Seq<char>;

/// Relies on str::to_lowercase: the lowercase form depends on the characters alone.
#[verifier::external_body]
fn lowercase(s: &str) -> (r: String)
    ensures
        r@ == lower_of(s@),
{
    s.to_lowercase()
}

/// An `rm` flag that asks for directories to be removed with their contents.
pub open spec fn recursive_flag(arg: Seq<char>) -> bool {
    lower_of(arg) == seq!['-', 'r'] || arg == seq!['-', 'r', 'f'] || arg == seq!['-', 'f', 'r']
}

/// Whether an `rm` argument is its recursive flag.
pub fn is_recursive_flag(arg: &str) -> (r: bool)
    ensures
        r == recursive_flag(arg@),
{
    let (r_flag, rf_flag, fr_flag) = ("-r", "-rf", "-fr");
    proof {
        reveal_strlit("-r");
        reveal_strlit("-rf");
        reveal_strlit("-fr");
    }
    assert(r_flag@ =~= seq!['-', 'r']);
    assert(rf_flag@ =~= seq!['-', 'r', 'f']);
    assert(fr_flag@ =~= seq!['-', 'f', 'r']);
    let whole = arg.to_string();
    lowercase(arg) == r_flag.to_string() || whole == rf_flag.to_string() || whole
        == fr_flag.to_string()
}

/// What an `rm` command removes, and how.
pub struct Removal {
    /// Directories go with their contents.
    pub recursive: bool,
    pub paths: Vec<String>,
}

/// Reads the arguments of `rm`: a leading recursive flag, then the paths.
pub fn parse_rm_args(args: &Vec<String>) -> (r: Option<Removal>)
    ensures
        args@.len() == 0 <==> r is None,
        (r matches Some(rm) ==> rm.recursive == recursive_flag(args@[0]@) && views(rm.paths@) == (
        if rm.recursive {
            views(args@).drop_first()
        } else {
            views(args@)
        })),
{
    if args.len() == 0 {
        return None;
    }
    let recursive = is_recursive_flag(args[0].as_str());
    let start: usize = if recursive {
        1
    } else {
        0
    };
    let mut paths: Vec<String> = Vec::new();
    let mut i: usize = start;
    while i < args.len()
        invariant
            start <= i <= args@.len(),
            start <= 1,
            views(paths@) == views(args@).subrange(start as int, i as int),
        decreases args@.len() - i,
    {
        let ghost before = paths@;
        paths.push(args[i].clone());
        assert(views(paths@) =~= views(before).push(args@[i as int]@));
        assert(views(args@).subrange(start as int, i + 1) =~= views(args@).subrange(
            start as int,
            i as int,
        ).push(args@[i as int]@));
        i = i + 1;
    }
    assert(views(args@).subrange(start as int, args@.len() as int) =~= if recursive {
        views(args@).drop_first()
    } else {
        views(args@)
    });
    Some(Removal { recursive, paths })
}

/// The last component of a path: what follows its last `/`.
pub open spec fn last_component(s: Seq<char>) -> Seq<char>
    decreases s.len(),
{
    if s.len() == 0 {
        Seq::empty()
    } else if s.last() == '/' {
        Seq::empty()
    } else {
        last_component(s.drop_last()).push(s.last())
    }
}

/// The last component of a path.
pub fn base_name(path: &str) -> (r: String)
    ensures
        r@ == last_component(path@),
{
    let v = chars_of(path);
    let mut start: usize = 0;
    let mut i: usize = 0;
    while i < v.len()
        invariant
            v@ == path@,
            start <= i <= v@.len(),
            last_component(v@.take(i as int)) == v@.subrange(start as int, i as int),
        decreases v@.len() - i,
    {
        assert(v@.take(i + 1).drop_last() =~= v@.take(i as int));
        if v[i] == '/' {
            start = i + 1;
            assert(v@.subrange(start as int, i + 1) =~= Seq::<char>::empty());
        } else {
            assert(v@.subrange(start as int, i + 1) =~= v@.subrange(start as int, i as int).push(
                v@[i as int],
            ));
        }
        i = i + 1;
    }
    assert(v@.take(v@.len() as int) =~= v@);
    path.substring_char(start, v.len()).to_string()
}

/// `src` moved into the directory `dest`: `dest/<last component of src>`.
pub open spec fn moved_into(dest: Seq<char>, src: Seq<char>) -> Seq<char> {
    dest + seq!['/'] + last_component(src)
}

/// The path that `src` gets when it is moved into the directory `dest`.
pub fn move_target(dest: &str, src: &str) -> (r: String)
    ensures
        r@ == moved_into(dest@, src@),
{
    let slash = "/";
    proof {
        reveal_strlit("/");
    }
    assert(slash@ =~= seq!['/']);
    let mut out = dest.to_string();
    out.append(slash);
    let name = base_name(src);
    out.append(name.as_str());
    out
}

/// Why `mv` refuses its operands.
#[derive(Debug)]
pub enum MoveError {
    /// Several sources, and the destination exists but is no directory.
    NotADirectory,
}

/// Where each source of `mv` goes. `dest_is_dir` tells whether the
/// destination exists and is a directory (`None` when it does not exist).
/// A single source is moved into a directory destination and otherwise
/// renamed to it; several sources are each moved into the destination,
/// unless it exists as something other than a directory.
pub fn plan_moves(t: &Transfer, dest_is_dir: Option<bool>) -> (r: Result<Vec<String>, MoveError>)
    ensures
        t.sources@.len() == 1 ==> (r matches Ok(v) && views(v@) == seq![
            if dest_is_dir == Some(true) {
                moved_into(t.dest@, t.sources@[0]@)
            } else {
                t.dest@
            },
        ]),
        t.sources@.len() != 1 ==> (r is Err <==> dest_is_dir == Some(false)),
        t.sources@.len() != 1 ==> (r matches Ok(v) ==> views(v@) == Seq::new(
            t.sources@.len(),
            |i: int| moved_into(t.dest@, t.sources@[i]@),
        )),
{
    let mut targets: Vec<String> = Vec::new();
    if t.sources.len() == 1 {
        let target = match dest_is_dir {
            Some(true) => move_target(t.dest.as_str(), t.sources[0].as_str()),
            _ => t.dest.clone(),
        };
        targets.push(target);
        assert(views(targets@) =~= seq![
            if dest_is_dir == Some(true) {
                moved_into(t.dest@, t.sources@[0]@)
            } else {
                t.dest@
            },
        ]);
        return Ok(targets);
    }
    if dest_is_dir == Some(false) {
        return Err(MoveError::NotADirectory);
    }
    let mut i: usize = 0;
    while i < t.sources.len()
        invariant
            i <= t.sources@.len(),
            views(targets@) == Seq::new(i as nat, |j: int| moved_into(t.dest@, t.sources@[j]@)),
        decreases t.sources@.len() - i,
    {
        let ghost before = targets@;
        let target = move_target(t.dest.as_str(), t.sources[i].as_str());
        targets.push(target);
        assert(views(targets@) =~= views(before).push(target@));
        assert(views(targets@) =~= Seq::new(
            (i + 1) as nat,
            |j: int| moved_into(t.dest@, t.sources@[j]@),
        ));
        i = i + 1;
    }
    Ok(targets)
}

} // verus!
