//! The PHP command line that runs the extractor script inside a XenForo install.

use crate::text::{chars_of, is_whitespace, is_ws, push_char};
use vstd::prelude::*;

verus! {

/// What `xf-typegen extract` was asked for.
pub struct ExtractOptions<'a> {
    pub root: Option<&'a str>,
    pub addon: Option<&'a str>,
    pub minify: bool,
    pub mixin: Option<&'a str>,
    pub php_cmd: &'a str,
}

/// The program to launch and its arguments.
#[derive(Debug)]
pub struct PhpCommand {
    pub program: String,
    pub args: Vec<String>,
}

/// Why no PHP command can be built.
#[derive(Debug, PartialEq, Eq, Structural)]
pub enum ExtractError {
    /// `--php-cmd` holds nothing but whitespace.
    EmptyPhpCmd,
}

impl ExtractError {
    /// The message shown for the error.
    pub fn message(&self) -> (s: String)
        ensures
            s@ == "--php-cmd is empty; expected something like 'php'"@,
    {
        String::from_str("--php-cmd is empty; expected something like 'php'")
    }
}

/// The pieces of `s` between whitespace characters, empty pieces included.
pub open spec fn ws_pieces(s: Seq<char>) -> Seq<Seq<char>>
    decreases s.len(),
{
    if s.len() == 0 {
        seq![Seq::<char>::empty()]
    } else {
        let p = ws_pieces(s.drop_last());
        if is_ws(s.last()) {
            p.push(Seq::<char>::empty())
        } else {
            p.update(p.len() - 1, p.last().push(s.last()))
        }
    }
}

/// The non-empty members of `p`, in order.
pub open spec fn non_empty(p: Seq<Seq<char>>) -> Seq<Seq<char>>
    decreases p.len(),
{
    if p.len() == 0 {
        Seq::empty()
    } else if p.last().len() == 0 {
        non_empty(p.drop_last())
    } else {
        non_empty(p.drop_last()).push(p.last())
    }
}

/// The words of `s`, as `str::split_whitespace` yields them.
pub open spec fn words(s: Seq<char>) -> Seq<Seq<char>> {
    non_empty(ws_pieces(s))
}

proof fn lemma_ws_pieces_nonempty(s: Seq<char>)
    ensures
        ws_pieces(s).len() >= 1,
    decreases s.len(),
{
    if s.len() > 0 {
        lemma_ws_pieces_nonempty(s.drop_last());
    }
}

/// The words of `s`.
pub fn split_words(s: &str) -> (out: Vec<String>)
    ensures
        out@.map_values(|w: String| w@) == words(s@),
{
    let cs = chars_of(s);
    let len = cs.len();
    let mut out: Vec<String> = Vec::new();
    let mut cur = String::new();
    let mut i: usize = 0;
    while i < len
        invariant
            cs@ == s@,
            len == s@.len(),
            i <= len,
            ws_pieces(s@.take(i as int)) == ws_pieces(s@.take(i as int)).drop_last().push(cur@),
            out@.map_values(|w: String| w@) == non_empty(ws_pieces(s@.take(i as int)).drop_last()),
        decreases len - i,
    {
        let c = cs[i];
        let ghost before = ws_pieces(s@.take(i as int));
        proof {
            assert(s@.take(i + 1).drop_last() =~= s@.take(i as int));
            assert(s@.take(i + 1).last() == c);
            lemma_ws_pieces_nonempty(s@.take(i as int));
        }
        if is_whitespace(c) {
            let ghost cur_before = cur@;
            let ghost old_out = out@;
            if cur.as_str().unicode_len() > 0 {
                out.push(cur);
                proof {
                    assert(out@.map_values(|w: String| w@) =~= old_out.map_values(|w: String| w@).push(
                        cur_before,
                    ));
                }
            }
            cur = String::new();
            proof {
                let after = ws_pieces(s@.take(i + 1));
                assert(after == before.push(Seq::<char>::empty()));
                assert(after =~= after.drop_last().push(cur@));
                assert(after.drop_last() =~= before.drop_last().push(cur_before));
                assert(before.drop_last().push(cur_before).drop_last() =~= before.drop_last());
            }
        } else {
            push_char(&mut cur, c);
            proof {
                let after = ws_pieces(s@.take(i + 1));
                assert(after == before.update(before.len() - 1, before.last().push(c)));
                assert(after =~= after.drop_last().push(cur@));
                assert(after.drop_last() =~= before.drop_last());
            }
        }
        i = i + 1;
    }
    proof {
        assert(s@.take(len as int) =~= s@);
        lemma_ws_pieces_nonempty(s@);
    }
    let ghost all = ws_pieces(s@);
    let ghost cur_last = cur@;
    let ghost old_out = out@;
    if cur.as_str().unicode_len() > 0 {
        out.push(cur);
        proof {
            assert(out@.map_values(|w: String| w@) =~= old_out.map_values(|w: String| w@).push(
                cur_last,
            ));
        }
    }
    proof {
        assert(all =~= all.drop_last().push(cur_last));
    }
    out
}

pub open spec fn opt_arg(o: Option<&str>, prefix: Seq<char>) -> Seq<Seq<char>> {
    match o {
        Some(v) => seq![prefix + v@],
        None => Seq::empty(),
    }
}

/// The arguments after the program: the rest of `--php-cmd`, then `--` (the
/// script comes on standard input), then the root, `--addon=`, `--minify` and
/// `--mixin=` as given.
pub open spec fn command_args_spec(opts: ExtractOptions) -> Seq<Seq<char>> {
    words(opts.php_cmd@).drop_first() + seq!["--"@] + opt_arg(opts.root, Seq::empty()) + opt_arg(
        opts.addon,
        "--addon="@,
    ) + (if opts.minify {
        seq!["--minify"@]
    } else {
        Seq::empty()
    }) + opt_arg(opts.mixin, "--mixin="@)
}

/// The command that runs the extractor: the first word of `--php-cmd` is the
/// program. Fails when `--php-cmd` has no word.
pub fn command_line(opts: &ExtractOptions) -> (r: Result<PhpCommand, ExtractError>)
    ensures
        words(opts.php_cmd@).len() == 0 <==> r is Err,
        r matches Ok(c) ==> {
            &&& c.program@ == words(opts.php_cmd@)[0]
            &&& c.args@.map_values(|a: String| a@) == command_args_spec(*opts)
        },
{
    let mut parts = split_words(opts.php_cmd);
    let ghost ws = words(opts.php_cmd@);
    if parts.len() == 0 {
        return Err(ExtractError::EmptyPhpCmd);
    }
    let program = parts.remove(0);
    let mut args = parts;
    proof {
        assert(args@.map_values(|a: String| a@) =~= ws.drop_first());
    }
    let ghost a0 = args@.map_values(|a: String| a@);
    args.push(String::from_str("--"));
    let ghost a1 = args@.map_values(|a: String| a@);
    assert(a1 =~= a0 + seq!["--"@]);
    match opts.root {
        Some(root) => args.push(String::from_str(root)),
        None => {},
    }
    let ghost a2 = args@.map_values(|a: String| a@);
    assert(a2 =~= a1 + opt_arg(opts.root, Seq::empty()));
    match opts.addon {
        Some(addon) => {
            let mut a = String::from_str("--addon=");
            a.append(addon);
            args.push(a);
        },
        None => {},
    }
    let ghost a3 = args@.map_values(|a: String| a@);
    assert(a3 =~= a2 + opt_arg(opts.addon, "--addon="@));
    if opts.minify {
        args.push(String::from_str("--minify"));
    }
    let ghost a4 = args@.map_values(|a: String| a@);
    assert(a4 =~= a3 + (if opts.minify {
        seq!["--minify"@]
    } else {
        Seq::<Seq<char>>::empty()
    }));
    match opts.mixin {
        Some(mixin) => {
            let mut a = String::from_str("--mixin=");
            a.append(mixin);
            args.push(a);
        },
        None => {},
    }
    assert(args@.map_values(|a: String| a@) =~= a4 + opt_arg(opts.mixin, "--mixin="@));
    Ok(PhpCommand { program, args })
}

} // verus!
