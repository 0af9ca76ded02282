//! The decisions of the command line: which targets and entity mode were asked
//! for, what writing a file did, and which watch events concern the contract.

use crate::generate::{
    all_targets_spec, parse_entity_mode_spec, parse_target_spec, EntityMode, Target,
};
use crate::text::{chars_of, lemma_split_on_nonempty, push_char, split_on, trim, trim_bounds};
use vstd::prelude::*;

verus! {

/// Why a `--targets` list is refused.
#[derive(Debug, PartialEq, Eq)]
pub enum TargetListError {
    /// A name that is no target.
    Unknown(String),
    /// The list names no target at all.
    Empty,
}

/// Why an `--entity-mode` is refused.
#[derive(Debug, PartialEq, Eq)]
pub struct UnknownEntityMode(pub String);

/// The targets named by a comma-separated list of (trimmed) names, duplicates
/// dropped and first occurrences kept in order; an empty name is skipped, and
/// the first unknown name is the error.
pub open spec fn resolve_names(names: Seq<Seq<char>>) -> Result<Seq<Target>, Seq<char>>
    decreases names.len(),
{
    if names.len() == 0 {
        Ok(Seq::empty())
    } else {
        match resolve_names(names.drop_last()) {
            Err(e) => Err(e),
            Ok(ts) => {
                let n = names.last();
                if n.len() == 0 {
                    Ok(ts)
                } else {
                    match parse_target_spec(n) {
                        None => Err(n),
                        Some(t) => Ok(
                            if ts.contains(t) {
                                ts
                            } else {
                                ts.push(t)
                            },
                        ),
                    }
                }
            },
        }
    }
}

/// The trimmed comma-separated pieces of a `--targets` value.
pub open spec fn target_names(list: Seq<char>) -> Seq<Seq<char>> {
    split_on(list, ',').map_values(|p: Seq<char>| trim(p))
}

/// What a `--targets` value selects: `Ok` with the targets, or `Err(Some(name))`
/// for the first unknown name, or `Err(None)` when no target is named.
/// Without the option every target is selected.
pub open spec fn resolve_targets_spec(list: Option<Seq<char>>) -> Result<Seq<Target>, Option<Seq<char>>> {
    match list {
        None => Ok(all_targets_spec()),
        Some(s) => match resolve_names(target_names(s)) {
            Err(n) => Err(Some(n)),
            Ok(ts) => if ts.len() == 0 {
                Err(None)
            } else {
                Ok(ts)
            },
        },
    }
}

pub open spec fn opt_view(o: Option<&str>) -> Option<Seq<char>> {
    match o {
        Some(s) => Some(s@),
        None => None,
    }
}

fn contains_target(v: &Vec<Target>, t: Target) -> (r: bool)
    ensures
        r == v@.contains(t),
{
    let n = v.len();
    let mut i: usize = 0;
    while i < n
        invariant
            n == v@.len(),
            i <= n,
            forall|j: int| 0 <= j < i ==> v@[j] != t,
        decreases n - i,
    {
        if v[i] == t {
            assert(v@[i as int] == t);
            return true;
        }
        i = i + 1;
    }
    false
}

/// Adds the target named `part` (trimmed) to `targets`, as `resolve_names` does
/// for one more name; `Err` carries the trimmed unknown name.
fn add_named_target(targets: &mut Vec<Target>, part: &str) -> (r: Result<(), String>)
    ensures
        ({
            let n = trim(part@);
            if n.len() == 0 {
                r is Ok && final(targets)@ == old(targets)@
            } else {
                match parse_target_spec(n) {
                    None => r matches Err(e) && e@ == n,
                    Some(t) => r is Ok && final(targets)@ == (if old(targets)@.contains(t) {
                        old(targets)@
                    } else {
                        old(targets)@.push(t)
                    }),
                }
            }
        }),
{
    let (start, end) = trim_bounds(part);
    let name = part.substring_char(start, end);
    if end == start {
        return Ok(());
    }
    match Target::parse(name) {
        None => Err(String::from_str(name)),
        Some(t) => {
            if !contains_target(targets, t) {
                targets.push(t);
            }
            Ok(())
        },
    }
}

/// The targets that `--targets` selects.
pub fn resolve_targets(list: Option<&str>) -> (r: Result<Vec<Target>, TargetListError>)
    ensures
        match resolve_targets_spec(opt_view(list)) {
            Ok(ts) => r matches Ok(v) && v@ == ts,
            Err(None) => r matches Err(TargetListError::Empty),
            Err(Some(n)) => r matches Err(TargetListError::Unknown(u)) && u@ == n,
        },
{
    let s = match list {
        None => return Ok(Target::all()),
        Some(s) => s,
    };
    let cs = chars_of(s);
    let len = cs.len();
    let mut targets: Vec<Target> = Vec::new();
    let mut cur = String::new();
    let mut i: usize = 0;
    while i < len
        invariant
            cs@ == s@,
            len == s@.len(),
            i <= len,
            opt_view(list) == Some(s@),
            split_on(s@.take(i as int), ',') == split_on(s@.take(i as int), ',').drop_last().push(
                cur@,
            ),
            resolve_names(
                split_on(s@.take(i as int), ',').drop_last().map_values(|p: Seq<char>| trim(p)),
            ) == Ok::<Seq<Target>, Seq<char>>(targets@),
        decreases len - i,
    {
        let c = cs[i];
        let ghost before = split_on(s@.take(i as int), ',');
        proof {
            assert(s@.take(i + 1).drop_last() =~= s@.take(i as int));
            assert(s@.take(i + 1).last() == c);
            lemma_split_on_nonempty(s@.take(i as int), ',');
        }
        if c == ',' {
            let ghost cur_before = cur@;
            let ghost done = before.drop_last();
            let ghost old_targets = targets@;
            let r = add_named_target(&mut targets, cur.as_str());
            proof {
                let names = done.push(cur_before).map_values(|p: Seq<char>| trim(p));
                assert(names.drop_last() =~= done.map_values(|p: Seq<char>| trim(p)));
                assert(names.last() == trim(cur_before));
            }
            match r {
                Err(name) => {
                    proof {
                        let names = done.push(cur_before).map_values(|p: Seq<char>| trim(p));
                        assert(done.push(cur_before) =~= split_on(s@.take(i + 1), ',').drop_last());
                        lemma_split_prefix(s@, (i + 1) as int, ',');
                        let full = split_on(s@, ',');
                        lemma_split_on_nonempty(s@, ',');
                        assert(full.drop_last().map_values(|p: Seq<char>| trim(p)) =~= full.map_values(
                            |p: Seq<char>| trim(p),
                        ).drop_last());
                        let tn = target_names(s@);
                        assert(resolve_names(names.drop_last()) == Ok::<Seq<Target>, Seq<char>>(old_targets));
                        assert(resolve_names(names) == Err::<Seq<Target>, Seq<char>>(name@));
                        assert forall|j: int| 0 <= j < names.len() implies #[trigger] names[j] == tn[j] by {
                            assert(names[j] == trim(done.push(cur_before)[j]));
                            assert(tn[j] == trim(full[j]));
                            assert(done.push(cur_before)[j] == full.drop_last()[j]);
                        }
                        lemma_resolve_err_extends(names, tn);
                    }
                    return Err(TargetListError::Unknown(name));
                },
                Ok(()) => {},
            }
            cur = String::new();
            proof {
                let after = split_on(s@.take(i + 1), ',');
                assert(after == before.push(Seq::<char>::empty()));
                assert(after =~= after.drop_last().push(cur@));
                assert(after.drop_last() =~= done.push(cur_before));
            }
        } else {
            push_char(&mut cur, c);
            proof {
                let after = split_on(s@.take(i + 1), ',');
                assert(after == before.update(before.len() - 1, before.last().push(c)));
                assert(after =~= after.drop_last().push(cur@));
                assert(after.drop_last() =~= before.drop_last());
            }
        }
        i = i + 1;
    }
    proof {
        assert(s@.take(len as int) =~= s@);
        lemma_split_on_nonempty(s@, ',');
    }
    let ghost all = split_on(s@, ',');
    let ghost cur_last = cur@;
    let r = add_named_target(&mut targets, cur.as_str());
    proof {
        let names = all.map_values(|p: Seq<char>| trim(p));
        assert(all =~= all.drop_last().push(cur_last));
        assert(names.drop_last() =~= all.drop_last().map_values(|p: Seq<char>| trim(p)));
        assert(names.last() == trim(cur_last));
    }
    match r {
        Err(name) => Err(TargetListError::Unknown(name)),
        Ok(()) => {
            if targets.len() == 0 {
                Err(TargetListError::Empty)
            } else {
                Ok(targets)
            }
        },
    }
}

/// What `--entity-mode` selects: redeclare without the option.
pub open spec fn resolve_entity_mode_spec(name: Option<Seq<char>>) -> Option<EntityMode> {
    match name {
        None => Some(EntityMode::Redeclare),
        Some(s) => parse_entity_mode_spec(s),
    }
}

/// The entity mode that `--entity-mode` selects.
pub fn resolve_entity_mode(name: Option<&str>) -> (r: Result<EntityMode, UnknownEntityMode>)
    ensures
        match resolve_entity_mode_spec(opt_view(name)) {
            Some(m) => r == Ok::<EntityMode, UnknownEntityMode>(m),
            None => r matches Err(UnknownEntityMode(u)) && Some(u@) == opt_view(name),
        },
{
    match name {
        None => Ok(EntityMode::Redeclare),
        Some(s) => match EntityMode::parse(s) {
            Some(m) => Ok(m),
            None => Err(UnknownEntityMode(String::from_str(s))),
        },
    }
}

impl TargetListError {
    /// The message shown for the error.
    pub fn message(&self) -> (s: String)
        ensures
            self matches TargetListError::Unknown(n) ==> s@ == "unknown target '"@ + n@
                + "' (expected ide-helper, phpstorm-meta)"@,
            self matches TargetListError::Empty ==> s@ == "no valid targets specified"@,
    {
        match self {
            TargetListError::Unknown(n) => {
                let mut s = String::from_str("unknown target '");
                s.append(n.as_str());
                s.append("' (expected ide-helper, phpstorm-meta)");
                s
            },
            TargetListError::Empty => String::from_str("no valid targets specified"),
        }
    }
}

impl UnknownEntityMode {
    /// The message shown for the error.
    pub fn message(&self) -> (s: String)
        ensures
            s@ == "unknown entity mode '"@ + self.0@ + "' (expected redeclare, mixin)"@,
    {
        let mut s = String::from_str("unknown entity mode '");
        s.append(self.0.as_str());
        s.append("' (expected redeclare, mixin)");
        s
    }
}

/// What writing a generated file does to the file on disk.
#[derive(Debug, Clone, Copy, PartialEq, Eq, Structural)]
pub enum FileStatus {
    /// The file already holds these contents; it is left alone.
    Unchanged,
    /// The file exists with other contents and is rewritten.
    Updated,
    /// The file does not exist yet.
    Created,
}

pub open spec fn file_status_spec(existing: Option<Seq<char>>, contents: Seq<char>) -> FileStatus {
    match existing {
        None => FileStatus::Created,
        Some(e) => if e == contents {
            FileStatus::Unchanged
        } else {
            FileStatus::Updated
        },
    }
}

/// The status of a generated file, given what the file held before (if it exists).
pub fn file_status(existing: Option<&str>, contents: &str) -> (st: FileStatus)
    ensures
        st == file_status_spec(opt_view(existing), contents@),
{
    match existing {
        None => FileStatus::Created,
        Some(e) => if crate::text::str_eq(e, contents) {
            FileStatus::Unchanged
        } else {
            FileStatus::Updated
        },
    }
}

impl FileStatus {
    /// Whether the file is written.
    pub fn changed(self) -> (b: bool)
        ensures
            b == (self != FileStatus::Unchanged),
    {
        !matches!(self, FileStatus::Unchanged)
    }

    /// The word printed for the status.
    pub fn label(self) -> (s: &'static str)
        ensures
            self == FileStatus::Unchanged ==> s@ == "unchanged"@,
            self == FileStatus::Updated ==> s@ == "updated"@,
            self == FileStatus::Created ==> s@ == "created"@,
    {
        match self {
            FileStatus::Unchanged => "unchanged",
            FileStatus::Updated => "updated",
            FileStatus::Created => "created",
        }
    }
}

/// Whether a batch of file-system events concerns the watched file: some event
/// names a file with the same name (names as raw bytes; `None` for a path
/// without a file name).
pub fn is_relevant(changed: &Vec<Option<Vec<u8>>>, target: &Option<Vec<u8>>) -> (b: bool)
    ensures
        b == exists|i: int|
            0 <= i < changed@.len() && name_view(#[trigger] changed@[i]) == name_view(*target),
{
    let n = changed.len();
    let mut i: usize = 0;
    while i < n
        invariant
            n == changed@.len(),
            i <= n,
            forall|j: int| 0 <= j < i ==> name_view(#[trigger] changed@[j]) != name_view(*target),
        decreases n - i,
    {
        if same_name(&changed[i], target) {
            return true;
        }
        i = i + 1;
    }
    false
}

pub open spec fn name_view(n: Option<Vec<u8>>) -> Option<Seq<u8>> {
    match n {
        Some(v) => Some(v@),
        None => None,
    }
}

fn same_name(a: &Option<Vec<u8>>, b: &Option<Vec<u8>>) -> (r: bool)
    ensures
        r == (name_view(*a) == name_view(*b)),
{
    match a {
        None => b.is_none(),
        Some(x) => match b {
            None => false,
            Some(y) => {
                if x.len() != y.len() {
                    return false;
                }
                let n = x.len();
                let mut i: usize = 0;
                while i < n
                    invariant
                        n == x@.len(),
                        n == y@.len(),
                        name_view(*a) == Some(x@),
                        name_view(*b) == Some(y@),
                        i <= n,
                        forall|j: int| 0 <= j < i ==> x@[j] == y@[j],
                    decreases n - i,
                {
                    if x[i] != y[i] {
                        assert(x@[i as int] != y@[i as int]);
                        assert(x@ != y@);
                        return false;
                    }
                    i = i + 1;
                }
                assert(x@ =~= y@);
                true
            },
        },
    }
}


/// The pieces before the last one, of a prefix of `s`, start the pieces of `s`.
pub proof fn lemma_split_prefix(s: Seq<char>, k: int, sep: char)
    requires
        0 <= k <= s.len(),
    ensures
        split_on(s.take(k), sep).drop_last().len() <= split_on(s, sep).drop_last().len(),
        forall|j: int|
            0 <= j < split_on(s.take(k), sep).drop_last().len() ==> #[trigger] split_on(
                s.take(k),
                sep,
            ).drop_last()[j] == split_on(s, sep).drop_last()[j],
    decreases s.len() - k,
{
    if k == s.len() {
        assert(s.take(k) =~= s);
    } else {
        let d = s.drop_last();
        assert(s.take(k) =~= d.take(k));
        lemma_split_prefix(d, k, sep);
        lemma_split_on_nonempty(d, sep);
    }
}

/// Once a prefix of the names has an unknown name, so does every extension.
pub proof fn lemma_resolve_err_extends(p: Seq<Seq<char>>, q: Seq<Seq<char>>)
    requires
        p.len() <= q.len(),
        forall|j: int| 0 <= j < p.len() ==> #[trigger] p[j] == q[j],
        resolve_names(p) is Err,
    ensures
        resolve_names(q) == resolve_names(p),
    decreases q.len(),
{
    if q.len() == p.len() {
        assert(p =~= q);
    } else {
        lemma_resolve_err_extends(p, q.drop_last());
    }
}

} // verus!
